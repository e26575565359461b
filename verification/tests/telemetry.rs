use dna_assistant::settings::{log_directive, save_settings_result};
use dna_assistant::monitor::config::MonitorConfig;
use dna_assistant::telemetry::{normalize_otlp_base, otlp_signal_urls, parse_otlp_headers, TelemetryOverrides};

fn header<'a>(headers: &'a [(String, String)], key: &str) -> Option<&'a str> {
    headers.iter().find(|(k, _)| k == key).map(|(_, v)| v.as_str())
}

#[test]
fn normalize_otlp_base_unchanged() {
    assert_eq!(normalize_otlp_base("http://h:5080/api/default"), "http://h:5080/api/default");
}

#[test]
fn normalize_otlp_base_strips_trailing_slash() {
    assert_eq!(normalize_otlp_base("http://h:5080/api/default/"), "http://h:5080/api/default");
}

#[test]
fn normalize_otlp_base_strips_v1_traces() {
    assert_eq!(normalize_otlp_base("http://h:5080/api/default/v1/traces"), "http://h:5080/api/default");
}

#[test]
fn normalize_otlp_base_strips_v1_metrics() {
    assert_eq!(normalize_otlp_base("http://h:5080/api/default/v1/metrics"), "http://h:5080/api/default");
}

#[test]
fn normalize_otlp_base_strips_v1_logs() {
    assert_eq!(normalize_otlp_base("http://h:5080/api/default/v1/logs"), "http://h:5080/api/default");
}

#[test]
fn normalize_otlp_base_strips_suffix_with_trailing_slash() {
    assert_eq!(normalize_otlp_base("http://h:5080/api/default/v1/traces/"), "http://h:5080/api/default");
}

#[test]
fn normalize_otlp_base_strips_slashes_before_suffix() {
    assert_eq!(normalize_otlp_base("http://h:4318//v1/logs"), "http://h:4318");
    assert_eq!(normalize_otlp_base("http://h:4318/v1/traces/v1/metrics"), "http://h:4318/v1/traces");
    assert_eq!(normalize_otlp_base("///"), "");
}

#[test]
fn parse_otlp_headers_empty() {
    assert!(parse_otlp_headers("").is_empty());
}

#[test]
fn parse_otlp_headers_single() {
    let map = parse_otlp_headers("x-api-key=secret");
    assert_eq!(header(&map, "x-api-key"), Some("secret"));
    assert_eq!(map.len(), 1);
}

#[test]
fn parse_otlp_headers_multiple_with_whitespace() {
    let map = parse_otlp_headers(" k1 = v1 , k2=v2 ");
    assert_eq!(header(&map, "k1"), Some("v1"));
    assert_eq!(header(&map, "k2"), Some("v2"));
}

#[test]
fn parse_otlp_headers_skips_malformed() {
    let map = parse_otlp_headers("no-equals,k=v");
    assert!(header(&map, "no-equals").is_none());
    assert_eq!(header(&map, "k"), Some("v"));
}

#[test]
fn parse_otlp_headers_later_entry_wins() {
    let map = parse_otlp_headers("a=1,b=2,a=3,=4,c=x=y");
    assert_eq!(map.len(), 3);
    assert_eq!(header(&map, "a"), Some("3"));
    assert_eq!(header(&map, "b"), Some("2"));
    assert_eq!(header(&map, "c"), Some("x=y"));
}

#[test]
fn signal_urls_prefer_override() {
    let urls = otlp_signal_urls("http://h:4318/v1/traces", Some(String::from("http://env:1")));
    assert_eq!(
        urls,
        Some((String::from("http://h:4318/v1/traces"), String::from("http://h:4318/v1/metrics")))
    );
    let env = otlp_signal_urls("", Some(String::from("http://env:1/")));
    assert_eq!(env, Some((String::from("http://env:1/v1/traces"), String::from("http://env:1/v1/metrics"))));
    assert_eq!(otlp_signal_urls("", Some(String::new())), None);
    assert_eq!(otlp_signal_urls("", None), None);
}

#[test]
fn telemetry_overrides_default_is_empty() {
    let t = TelemetryOverrides::default();
    assert_eq!(t.rust_log, "");
    assert_eq!(t.otel_endpoint, "");
    assert_eq!(t.otel_headers, "");
}

#[test]
fn log_directive_fallbacks() {
    assert_eq!(log_directive("debug", Some(String::from("info"))), "debug");
    assert_eq!(log_directive("", Some(String::from("info"))), "info");
    assert_eq!(log_directive("", None), "warn,dna=info");
}

#[test]
fn otel_change_requires_restart() {
    let old = MonitorConfig::default();
    let mut new = MonitorConfig::default();
    assert!(!save_settings_result(&old, &new).restart_required);
    new.debug_rust_log = String::from("trace");
    assert!(!save_settings_result(&old, &new).restart_required);
    new.debug_otel_headers = String::from("k=v");
    assert!(save_settings_result(&old, &new).restart_required);
}

#[test]
fn normalize_otlp_base_is_prefix_without_trailing_slash() {
    for endpoint in ["http://h:4318//v1/logs//", "http://h:4318/v1/metrics", "http://h:4318/", "http://h/x/v1/traces/"] {
        let base = normalize_otlp_base(endpoint);
        assert!(endpoint.starts_with(base.as_str()));
        assert!(!base.ends_with('/'));
    }
    assert_eq!(normalize_otlp_base("http://h:4318//v1/logs//"), "http://h:4318");
}
