//! Telemetry settings: OTLP endpoint normalisation and header parsing.
use vstd::prelude::*;

use crate::text::{find_from, is_whitespace, is_ws, owned, push_str, str_chars, string_from_chars};

verus! {

/// Telemetry overrides from the settings file. An empty field falls back to
/// the corresponding environment variable.
pub struct TelemetryOverrides<'a> {
    /// `RUST_LOG`-style directive string, e.g. `"debug,dna=trace"`.
    pub rust_log: &'a str,
    /// OTLP HTTP endpoint, e.g. `"http://localhost:4318"`.
    pub otel_endpoint: &'a str,
    /// Comma-separated headers as `key=value,key=value`.
    pub otel_headers: &'a str,
}

impl<'a> Default for TelemetryOverrides<'a> {
    fn default() -> (t: Self)
        ensures
            t.rust_log@.len() == 0,
            t.otel_endpoint@.len() == 0,
            t.otel_headers@.len() == 0,
    {
        proof {
            reveal_strlit("");
        }
        TelemetryOverrides { rust_log: "", otel_endpoint: "", otel_headers: "" }
    }
}

/// `s` without its trailing `/` characters.
pub open spec fn trim_slashes(s: Seq<char>) -> Seq<char>
    decreases s.len(),
{
    if s.len() > 0 && s.last() == '/' {
        trim_slashes(s.drop_last())
    } else {
        s
    }
}

/// `s` ends with `suffix`.
pub open spec fn ends_with(s: Seq<char>, suffix: Seq<char>) -> bool {
    s.len() >= suffix.len() && s.subrange(s.len() - suffix.len(), s.len() as int) == suffix
}

/// `s` without `suffix` and then without trailing slashes, when it ends
/// with `suffix`.
pub open spec fn strip_signal(s: Seq<char>, suffix: Seq<char>) -> Seq<char> {
    trim_slashes(s.subrange(0, s.len() - suffix.len()))
}

/// The base URL of an OTLP endpoint: trailing slashes removed, then the
/// first matching signal path (`/v1/traces`, `/v1/metrics`, `/v1/logs`) and
/// the slashes before it.
pub open spec fn otlp_base(endpoint: Seq<char>) -> Seq<char> {
    let t = trim_slashes(endpoint);
    if ends_with(t, "/v1/traces"@) {
        strip_signal(t, "/v1/traces"@)
    } else if ends_with(t, "/v1/metrics"@) {
        strip_signal(t, "/v1/metrics"@)
    } else if ends_with(t, "/v1/logs"@) {
        strip_signal(t, "/v1/logs"@)
    } else {
        t
    }
}

fn trim_slashes_exec(v: &mut Vec<char>)
    ensures
        final(v)@ == trim_slashes(old(v)@),
{
    while v.len() > 0 && v[v.len() - 1] == '/'
        invariant
            trim_slashes(v@) == trim_slashes(old(v)@),
        decreases v.len(),
    {
        v.pop();
    }
}

fn ends_with_exec(s: &Vec<char>, suffix: &Vec<char>) -> (r: bool)
    ensures
        r == ends_with(s@, suffix@),
{
    if s.len() < suffix.len() {
        return false;
    }
    let off = s.len() - suffix.len();
    let mut i: usize = 0;
    while i < suffix.len()
        invariant
            off + suffix.len() == s.len(),
            i <= suffix.len(),
            forall|j: int| 0 <= j < i ==> s@[off + j] == suffix@[j],
        decreases suffix.len() - i,
    {
        if s[off + i] != suffix[i] {
            assert(s@.subrange(off as int, s.len() as int)[i as int] != suffix@[i as int]);
            return false;
        }
        i = i + 1;
    }
    assert(s@.subrange(off as int, s.len() as int) =~= suffix@);
    true
}

fn strip_signal_exec(s: &Vec<char>, suffix: &Vec<char>) -> (r: Vec<char>)
    requires
        ends_with(s@, suffix@),
    ensures
        r@ == strip_signal(s@, suffix@),
{
    let keep = s.len() - suffix.len();
    let mut out: Vec<char> = Vec::new();
    let mut i: usize = 0;
    while i < keep
        invariant
            keep <= s.len(),
            i <= keep,
            out@ == s@.subrange(0, i as int),
        decreases keep - i,
    {
        out.push(s[i]);
        assert(s@.subrange(0, i + 1) =~= s@.subrange(0, i as int).push(s@[i as int]));
        i = i + 1;
    }
    trim_slashes_exec(&mut out);
    out
}

/// Normalise a user-supplied OTLP endpoint into a base URL, removing
/// trailing slashes and a signal-specific path.
pub fn normalize_otlp_base(endpoint: &str) -> (s: String)
    ensures
        s@ == otlp_base(endpoint@),
{
    let mut t = str_chars(endpoint);
    trim_slashes_exec(&mut t);
    let traces = str_chars("/v1/traces");
    let metrics = str_chars("/v1/metrics");
    let logs = str_chars("/v1/logs");
    let out = if ends_with_exec(&t, &traces) {
        strip_signal_exec(&t, &traces)
    } else if ends_with_exec(&t, &metrics) {
        strip_signal_exec(&t, &metrics)
    } else if ends_with_exec(&t, &logs) {
        strip_signal_exec(&t, &logs)
    } else {
        t
    };
    string_from_chars(&out)
}

/// Normalising twice changes nothing more than normalising once, for
/// endpoints that do not end in a nested signal path.
pub proof fn law_trim_slashes_idempotent(s: Seq<char>)
    ensures
        trim_slashes(trim_slashes(s)) == trim_slashes(s),
        trim_slashes(s).len() == 0 || trim_slashes(s).last() != '/',
    decreases s.len(),
{
    if s.len() > 0 && s.last() == '/' {
        law_trim_slashes_idempotent(s.drop_last());
    }
}

/// The per-signal export URLs for an endpoint: the settings override when
/// not empty, else the environment's endpoint when set and not empty;
/// `None` when neither gives one.
pub open spec fn signal_urls(endpoint_override: Seq<char>, env_endpoint: Option<Seq<char>>) -> Option<(Seq<char>, Seq<char>)> {
    let chosen = if endpoint_override.len() > 0 {
        Some(endpoint_override)
    } else {
        match env_endpoint {
            Some(e) => if e.len() > 0 { Some(e) } else { None },
            None => None,
        }
    };
    match chosen {
        Some(e) => Some((otlp_base(e) + "/v1/traces"@, otlp_base(e) + "/v1/metrics"@)),
        None => None,
    }
}

/// Choose the OTLP endpoint and build the trace and metric export URLs.
pub fn otlp_signal_urls(endpoint_override: &str, env_endpoint: Option<String>) -> (r: Option<(String, String)>)
    ensures
        match r {
            Some((t, m)) => signal_urls(
                endpoint_override@,
                match env_endpoint {
                    Some(e) => Some(e@),
                    None => None,
                },
            ) == Some((t@, m@)),
            None => signal_urls(
                endpoint_override@,
                match env_endpoint {
                    Some(e) => Some(e@),
                    None => None,
                },
            ) is None,
        },
{
    let base = if endpoint_override.unicode_len() > 0 {
        normalize_otlp_base(endpoint_override)
    } else {
        match &env_endpoint {
            Some(e) => {
                if e.as_str().unicode_len() > 0 {
                    normalize_otlp_base(e.as_str())
                } else {
                    return None;
                }
            },
            None => {
                return None;
            },
        }
    };
    let mut traces = owned(base.as_str());
    push_str(&mut traces, "/v1/traces");
    let mut metrics = owned(base.as_str());
    push_str(&mut metrics, "/v1/metrics");
    Some((traces, metrics))
}

// ----------------------------------------------------------------------
// Headers
// ----------------------------------------------------------------------

/// `s` split at every `,` (an empty `s` is one empty piece).
pub open spec fn split_commas(s: Seq<char>) -> Seq<Seq<char>>
    decreases s.len(),
{
    if s.len() == 0 {
        seq![Seq::empty()]
    } else {
        let r = split_commas(s.drop_last());
        if s.last() == ',' {
            r.push(Seq::empty())
        } else {
            r.update(r.len() - 1, r.last().push(s.last()))
        }
    }
}

/// `s` without leading whitespace.
pub open spec fn trim_start(s: Seq<char>) -> Seq<char>
    decreases s.len(),
{
    if s.len() > 0 && is_ws(s[0]) {
        trim_start(s.subrange(1, s.len() as int))
    } else {
        s
    }
}

/// `s` without trailing whitespace.
pub open spec fn trim_end(s: Seq<char>) -> Seq<char>
    decreases s.len(),
{
    if s.len() > 0 && is_ws(s.last()) {
        trim_end(s.drop_last())
    } else {
        s
    }
}

/// `s` without surrounding whitespace.
pub open spec fn trim(s: Seq<char>) -> Seq<char> {
    trim_end(trim_start(s))
}

/// The `key=value` pair of one piece: split at the first `=`, both sides
/// trimmed; none without `=` or with an empty key.
pub open spec fn header_pair(piece: Seq<char>) -> Option<(Seq<char>, Seq<char>)> {
    match find_from(piece, seq!['='], 0) {
        Some(i) => {
            let k = trim(piece.subrange(0, i));
            let v = trim(piece.subrange(i + 1, piece.len() as int));
            if k.len() == 0 {
                None
            } else {
                Some((k, v))
            }
        },
        None => None,
    }
}

/// Headers of the pieces, later pairs replacing earlier ones with the same key.
pub open spec fn headers_of(pieces: Seq<Seq<char>>) -> Map<Seq<char>, Seq<char>>
    decreases pieces.len(),
{
    if pieces.len() == 0 {
        Map::empty()
    } else {
        let m = headers_of(pieces.drop_last());
        match header_pair(pieces.last()) {
            Some((k, v)) => m.insert(k, v),
            None => m,
        }
    }
}

/// The headers of a comma-separated `key=value` list.
pub open spec fn parsed_headers(raw: Seq<char>) -> Map<Seq<char>, Seq<char>> {
    headers_of(split_commas(raw))
}

/// A header list has no key twice.
pub open spec fn unique_keys(v: Seq<(String, String)>) -> bool {
    forall|i: int, j: int| 0 <= i < j < v.len() ==> (#[trigger] v[i]).0@ != (#[trigger] v[j]).0@
}

/// A header list holds exactly the headers of `m`.
pub open spec fn holds_headers(v: Seq<(String, String)>, m: Map<Seq<char>, Seq<char>>) -> bool {
    &&& unique_keys(v)
    &&& forall|i: int| 0 <= i < v.len() ==> m.contains_key((#[trigger] v[i]).0@) && m[v[i].0@] == v[i].1@
    &&& forall|k: Seq<char>| #[trigger] m.contains_key(k) ==> exists|i: int| 0 <= i < v.len() && (#[trigger] v[i]).0@ == k
}

fn trim_chars(v: &Vec<char>, lo: usize, hi: usize) -> (r: Vec<char>)
    requires
        lo <= hi <= v.len(),
    ensures
        r@ == trim(v@.subrange(lo as int, hi as int)),
{
    let mut a = lo;
    while a < hi && is_whitespace(v[a])
        invariant
            lo <= a <= hi <= v.len(),
            trim_start(v@.subrange(lo as int, hi as int)) == trim_start(v@.subrange(a as int, hi as int)),
        decreases hi - a,
    {
        assert(v@.subrange(a as int, hi as int).subrange(1, (hi - a) as int) =~= v@.subrange(a + 1, hi as int));
        a = a + 1;
    }
    let mut b = hi;
    while b > a && is_whitespace(v[b - 1])
        invariant
            lo <= a <= b <= hi <= v.len(),
            trim_end(v@.subrange(a as int, hi as int)) == trim_end(v@.subrange(a as int, b as int)),
            trim_start(v@.subrange(lo as int, hi as int)) == v@.subrange(a as int, hi as int) || a < hi,
        decreases b - a,
    {
        assert(v@.subrange(a as int, b as int).drop_last() =~= v@.subrange(a as int, b - 1));
        b = b - 1;
    }
    let mut out: Vec<char> = Vec::new();
    let mut i = a;
    while i < b
        invariant
            a <= i <= b <= v.len(),
            out@ == v@.subrange(a as int, i as int),
        decreases b - i,
    {
        out.push(v[i]);
        assert(v@.subrange(a as int, i + 1) =~= v@.subrange(a as int, i as int).push(v@[i as int]));
        i = i + 1;
    }
    proof {
        let s = v@.subrange(a as int, hi as int);
        if a < hi {
            assert(!is_ws(s[0]));
        }
        assert(trim_start(s) == s);
    }
    out
}

/// Index of the first `=` in `chars[start..end]`, or `end`.
fn first_equals(chars: &Vec<char>, start: usize, end: usize) -> (eq: usize)
    requires
        start <= end <= chars.len(),
    ensures
        start <= eq <= end,
        find_from(chars@.subrange(start as int, end as int), seq!['='], 0) == if eq < end {
            Some((eq - start) as int)
        } else {
            None::<int>
        },
{
    let ghost piece = chars@.subrange(start as int, end as int);
    let mut eq: usize = start;
    while eq < end && chars[eq] != '='
        invariant
            start <= eq <= end <= chars.len(),
            forall|q: int| start <= q < eq ==> chars@[q] != '=',
        decreases end - eq,
    {
        eq = eq + 1;
    }
    proof {
        crate::text::lemma_find_from(piece, seq!['='], 0);
        assert forall|q: int| 0 <= q < eq - start implies !crate::text::occurs_at(piece, seq!['='], q) by {
            assert(piece.subrange(q, q + 1)[0] == chars@[start + q]);
        }
        if eq < end {
            assert(piece.subrange((eq - start) as int, (eq - start) + 1) =~= seq!['=']);
            assert(crate::text::occurs_at(piece, seq!['='], (eq - start) as int));
        } else {
            assert forall|q: int| 0 <= q implies !crate::text::occurs_at(piece, seq!['='], q) by {
                if q < piece.len() {
                    assert(piece.subrange(q, q + 1)[0] == chars@[start + q]);
                }
            }
        }
    }
    eq
}

/// Add the header of `chars[start..end]`, if it has one, replacing an entry
/// with the same key.
fn add_piece(out: &mut Vec<(String, String)>, chars: &Vec<char>, start: usize, end: usize, Ghost(m): Ghost<Map<Seq<char>, Seq<char>>>)
    requires
        start <= end <= chars.len(),
        holds_headers(old(out)@, m),
    ensures
        holds_headers(
            final(out)@,
            match header_pair(chars@.subrange(start as int, end as int)) {
                Some((k, v)) => m.insert(k, v),
                None => m,
            },
        ),
{
    let ghost piece = chars@.subrange(start as int, end as int);
    let eq = first_equals(chars, start, end);
    if eq == end {
        return;
    }
    let key = trim_chars(chars, start, eq);
    let value = trim_chars(chars, eq + 1, end);
    proof {
        assert(piece.subrange(0, (eq - start) as int) =~= chars@.subrange(start as int, eq as int));
        assert(piece.subrange((eq - start) + 1, piece.len() as int) =~= chars@.subrange(eq + 1, end as int));
    }
    if key.len() == 0 {
        return;
    }
    let ks = string_from_chars(&key);
    let vs = string_from_chars(&value);
    let mut found: Option<usize> = None;
    let mut j: usize = 0;
    while j < out.len() && found.is_none()
        invariant
            j <= out.len(),
            found matches Some(at) ==> at < out.len() && out@[at as int].0@ == ks@,
            found is None ==> forall|q: int| 0 <= q < j ==> (#[trigger] out@[q]).0@ != ks@,
        decreases out.len() - j,
    {
        if crate::text::same_text(out[j].0.as_str(), ks.as_str()) {
            found = Some(j);
        }
        j = j + 1;
    }
    let ghost old_out = out@;
    match found {
        Some(at) => {
            out.set(at, (ks, vs));
        },
        None => {
            out.push((ks, vs));
        },
    }
    proof {
        let m1 = m.insert(key@, value@);
        assert forall|i: int, j2: int| 0 <= i < j2 < out@.len() implies (#[trigger] out@[i]).0@ != (#[trigger] out@[j2]).0@ by {
            match found {
                Some(at) => {
                    assert(old_out[i].0@ != old_out[j2].0@);
                },
                None => {
                    if j2 == out@.len() - 1 {
                        assert(out@[i] == old_out[i]);
                    } else {
                        assert(old_out[i].0@ != old_out[j2].0@);
                    }
                },
            }
        }
        assert forall|i: int| 0 <= i < out@.len() implies m1.contains_key((#[trigger] out@[i]).0@) && m1[out@[i].0@] == out@[i].1@ by {
            if out@[i].0@ != key@ {
                assert(out@[i] == old_out[i]);
            }
        }
        assert forall|k: Seq<char>| #[trigger] m1.contains_key(k) implies exists|q: int| 0 <= q < out@.len() && (#[trigger] out@[q]).0@ == k by {
            if k == key@ {
                match found {
                    Some(at) => assert(out@[at as int].0@ == k),
                    None => assert(out@[out@.len() - 1].0@ == k),
                }
            } else {
                let q = choose|q: int| 0 <= q < old_out.len() && (#[trigger] old_out[q]).0@ == k;
                assert(out@[q].0@ == k);
            }
        }
    }
}

/// Parse comma-separated `key=value` OTLP header pairs. Whitespace around
/// keys and values is trimmed; entries without `=` or with an empty key are
/// skipped; a later entry replaces an earlier one with the same key.
pub fn parse_otlp_headers(raw: &str) -> (r: Vec<(String, String)>)
    ensures
        holds_headers(r@, parsed_headers(raw@)),
{
    let chars = str_chars(raw);
    let n = chars.len();
    let mut out: Vec<(String, String)> = Vec::new();
    let mut start: usize = 0;
    let mut i: usize = 0;
    let ghost mut done: Seq<Seq<char>> = Seq::empty();
    proof {
        assert(chars@.take(0) =~= Seq::<char>::empty());
        assert(chars@.subrange(0, 0) =~= Seq::<char>::empty());
        assert(done.push(chars@.subrange(0, 0)) =~= seq![Seq::<char>::empty()]);
    }
    while i < n
        invariant
            n == chars.len(),
            start <= i <= n,
            holds_headers(out@, headers_of(done)),
            split_commas(chars@.take(i as int)) == done.push(chars@.subrange(start as int, i as int)),
        decreases n - i,
    {
        assert(chars@.take(i + 1).drop_last() =~= chars@.take(i as int));
        if chars[i] == ',' {
            let ghost piece = chars@.subrange(start as int, i as int);
            add_piece(&mut out, &chars, start, i, Ghost(headers_of(done)));
            proof {
                assert(done.push(piece).drop_last() =~= done);
                done = done.push(piece);
                assert(chars@.subrange((i + 1) as int, (i + 1) as int) =~= Seq::<char>::empty());
            }
            start = i + 1;
        } else {
            proof {
                assert(chars@.subrange(start as int, i + 1) =~= chars@.subrange(start as int, i as int).push(chars@[i as int]));
            }
        }
        i = i + 1;
    }
    let ghost piece = chars@.subrange(start as int, n as int);
    add_piece(&mut out, &chars, start, n, Ghost(headers_of(done)));
    proof {
        assert(chars@.take(n as int) =~= chars@);
        assert(done.push(piece).drop_last() =~= done);
    }
    out
}

/// An empty header setting gives no headers, so the exporter falls back to
/// the `OTEL_EXPORTER_OTLP_HEADERS` environment variable.
pub proof fn law_empty_headers_parse_to_nothing()
    ensures
        parsed_headers(Seq::empty()) == Map::<Seq<char>, Seq<char>>::empty(),
{
    let pieces = split_commas(Seq::<char>::empty());
    assert(pieces == seq![Seq::<char>::empty()]);
    crate::text::lemma_find_from(Seq::<char>::empty(), seq!['='], 0);
    assert(header_pair(Seq::<char>::empty()) is None);
    assert(pieces.drop_last() =~= Seq::<Seq<char>>::empty());
    assert(pieces.last() == Seq::<char>::empty());
    assert(headers_of(pieces.drop_last()) == Map::<Seq<char>, Seq<char>>::empty());
    assert(headers_of(pieces) == headers_of(pieces.drop_last()));
}

/// A base URL without trailing slashes or a signal path is kept as it is.
pub proof fn law_base_url_unchanged(endpoint: Seq<char>)
    requires
        endpoint.len() == 0 || endpoint.last() != '/',
        !ends_with(endpoint, "/v1/traces"@),
        !ends_with(endpoint, "/v1/metrics"@),
        !ends_with(endpoint, "/v1/logs"@),
    ensures
        otlp_base(endpoint) == endpoint,
{
}

proof fn lemma_trim_slashes_prefix(s: Seq<char>)
    ensures
        trim_slashes(s).len() <= s.len(),
        trim_slashes(s) == s.subrange(0, trim_slashes(s).len() as int),
    decreases s.len(),
{
    if s.len() > 0 && s.last() == '/' {
        lemma_trim_slashes_prefix(s.drop_last());
        let t = trim_slashes(s.drop_last());
        assert(s.drop_last().subrange(0, t.len() as int) =~= s.subrange(0, t.len() as int));
    } else {
        assert(s.subrange(0, s.len() as int) =~= s);
    }
}

/// The normalised endpoint is a prefix of the endpoint and never ends with `/`.
pub proof fn law_normalized_base_is_prefix(endpoint: Seq<char>)
    ensures
        otlp_base(endpoint).len() <= endpoint.len(),
        otlp_base(endpoint) == endpoint.subrange(0, otlp_base(endpoint).len() as int),
        otlp_base(endpoint).len() == 0 || otlp_base(endpoint).last() != '/',
{
    let t = trim_slashes(endpoint);
    lemma_trim_slashes_prefix(endpoint);
    law_trim_slashes_idempotent(endpoint);
    let r = otlp_base(endpoint);
    if r != t {
        let suffix_len: int = if ends_with(t, "/v1/traces"@) {
            "/v1/traces"@.len() as int
        } else if ends_with(t, "/v1/metrics"@) {
            "/v1/metrics"@.len() as int
        } else {
            "/v1/logs"@.len() as int
        };
        let u = t.subrange(0, t.len() - suffix_len);
        assert(r == trim_slashes(u));
        lemma_trim_slashes_prefix(u);
        law_trim_slashes_idempotent(u);
        assert(r == endpoint.subrange(0, r.len() as int)) by {
            assert forall|i: int| 0 <= i < r.len() implies r[i] == endpoint[i] by {
                assert(r[i] == u[i]);
                assert(u[i] == t[i]);
                assert(t[i] == endpoint[i]);
            }
            assert(r =~= endpoint.subrange(0, r.len() as int));
        }
    }
}

/// The piece `piece` of a header list names the key `k`: it holds a `=`, and
/// the trimmed text before its first `=` is `k`, which is not empty.
pub open spec fn names_key(piece: Seq<char>, k: Seq<char>) -> bool {
    header_pair(piece) matches Some(p) && p.0 == k
}

proof fn lemma_headers_of_last_wins(pieces: Seq<Seq<char>>, k: Seq<char>)
    ensures
        headers_of(pieces).contains_key(k) <==> exists|i: int|
            0 <= i < pieces.len() && names_key(#[trigger] pieces[i], k),
        headers_of(pieces).contains_key(k) ==> exists|i: int|
            {
                &&& 0 <= i < pieces.len()
                &&& header_pair(#[trigger] pieces[i]) == Some((k, headers_of(pieces)[k]))
                &&& forall|j: int| i < j < pieces.len() ==> !names_key(#[trigger] pieces[j], k)
            },
    decreases pieces.len(),
{
    if pieces.len() > 0 {
        let init = pieces.drop_last();
        let n = pieces.len() - 1;
        lemma_headers_of_last_wins(init, k);
        assert forall|i: int| 0 <= i < n implies #[trigger] init[i] == pieces[i] by {}
        if names_key(pieces[n], k) {
            assert(pieces.last() == pieces[n]);
            assert(header_pair(pieces[n]) == Some((k, headers_of(pieces)[k])));
        } else {
            assert(pieces.last() == pieces[n]);
            assert(headers_of(pieces).contains_key(k) == headers_of(init).contains_key(k));
            if headers_of(pieces).contains_key(k) {
                assert(headers_of(pieces)[k] == headers_of(init)[k]);
                let i = choose|i: int|
                    {
                        &&& 0 <= i < init.len()
                        &&& header_pair(#[trigger] init[i]) == Some((k, headers_of(init)[k]))
                        &&& forall|j: int| i < j < init.len() ==> !names_key(#[trigger] init[j], k)
                    };
                assert(init[i] == pieces[i]);
                assert forall|j: int| i < j < pieces.len() implies !names_key(#[trigger] pieces[j], k) by {
                    if j < n {
                        assert(init[j] == pieces[j]);
                    }
                }
            }
            if exists|i: int| 0 <= i < pieces.len() && names_key(#[trigger] pieces[i], k) {
                let i = choose|i: int| 0 <= i < pieces.len() && names_key(#[trigger] pieces[i], k);
                assert(i < n);
                assert(names_key(init[i], k));
            }
        }
    }
}

/// The headers of a list are read piece by piece at its commas: a key is
/// present exactly when some piece names it, and its value is the trimmed
/// text after the first `=` of the last piece that names it.
pub proof fn law_headers_last_piece_wins(raw: Seq<char>, k: Seq<char>)
    ensures
        parsed_headers(raw).contains_key(k) <==> exists|i: int|
            0 <= i < split_commas(raw).len() && names_key(#[trigger] split_commas(raw)[i], k),
        parsed_headers(raw).contains_key(k) ==> exists|i: int|
            {
                &&& 0 <= i < split_commas(raw).len()
                &&& header_pair(#[trigger] split_commas(raw)[i]) == Some((k, parsed_headers(raw)[k]))
                &&& forall|j: int|
                    i < j < split_commas(raw).len() ==> !names_key(#[trigger] split_commas(raw)[j], k)
            },
{
    lemma_headers_of_last_wins(split_commas(raw), k);
}

} // verus!
