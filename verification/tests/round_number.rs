use dna_assistant::round_number::{is_round_end_text, is_round_select_text, parse, parse_select_header};

#[test]
fn round_end_two_digit() {
    assert_eq!(parse("22 ラウンド終了"), Some(22));
    assert_eq!(parse("99 ラウンド終了"), Some(99));
}

#[test]
fn round_end_single_digit() {
    assert_eq!(parse("1 ラウンド終了"), Some(1));
    assert_eq!(parse("6 ラウンド終了"), Some(6));
}

#[test]
fn round_end_leading_zero() {
    assert_eq!(parse("01 ラウンド終了"), Some(1));
    assert_eq!(parse("03 ラウンド終了"), Some(3));
}

#[test]
fn round_end_ignores_trailing_artifacts() {
    assert_eq!(parse("ラウンド終了 1 い Ⅱ 』"), None);
    assert_eq!(parse("22 ラウンド終了 1 い Ⅱ 』"), Some(22));
    assert_eq!(parse("25 ラウンド終了 1 い Ⅱ 』"), Some(25));
}

#[test]
fn round_end_with_noise_before() {
    assert_eq!(parse("4 当 y メ 新 ラウンド終了 に は"), Some(4));
}

#[test]
fn round_select_panel() {
    assert_eq!(parse("02 ラウンド"), Some(2));
    assert_eq!(parse("14 ラウンド"), Some(14));
}

#[test]
fn ocr_with_spaces() {
    assert_eq!(parse("0 3 ラ ウ ン ド"), Some(3));
}

#[test]
fn ocr_with_v_checkmark() {
    assert_eq!(parse("01 V ラウンド"), Some(1));
}

#[test]
fn no_round_text() {
    assert_eq!(parse("damage 1234"), None);
}

#[test]
fn round_text_but_no_number_before() {
    assert_eq!(parse("ラウンド"), None);
    assert_eq!(parse("ラウンド終了"), None);
}

#[test]
fn three_digit_number_ignored() {
    assert_eq!(parse("123 ラウンド"), None);
}

#[test]
fn round_00_invalid() {
    assert_eq!(parse("00 ラウンド"), None);
}

#[test]
fn bonus_text_not_round_end() {
    assert_eq!(parse("13 ラウンド Bonus"), Some(13));
}

#[test]
fn header_full_width_parens() {
    assert_eq!(parse_select_header("自動周回中（13/99）"), Some(13));
    assert_eq!(parse_select_header("自動周回中（1/5）"), Some(1));
}

#[test]
fn header_half_width_parens() {
    assert_eq!(parse_select_header("自 動 周 回 中 ( 1 / 5 )"), Some(1));
    assert_eq!(parse_select_header("自 動 周 回 中 ( 13 / 99 )"), Some(13));
}

#[test]
fn header_ocr_colon_variant() {
    assert_eq!(parse_select_header("自 動 周 回 中 : 98 ′ 9"), Some(98));
}

#[test]
fn header_misread_x_does_not_return_y() {
    assert_eq!(parse_select_header("自 動 周 回 中 ( 劉 / 99 )"), None);
}

#[test]
fn header_no_match() {
    assert_eq!(parse_select_header("ラウンド終了"), None);
    assert_eq!(parse_select_header("random text"), None);
}

#[test]
fn detects_round_end() {
    assert!(is_round_end_text("01 ラウンド終了"));
    assert!(is_round_end_text("ラ ウ ン ド 終 了"));
}

#[test]
fn not_round_end() {
    assert!(!is_round_end_text("02 ラウンド"));
    assert!(!is_round_end_text("random text"));
}

#[test]
fn detects_round_select() {
    assert!(is_round_select_text("自動周回中（1/5）、カウントダウン終了後に自動で続行します"));
    assert!(is_round_select_text("自 動 周 回 中"));
}

#[test]
fn not_round_select() {
    assert!(!is_round_select_text("01 ラウンド終了"));
}

#[test]
fn parse_ignores_whitespace_and_text_after_marker() {
    assert_eq!(parse("2 2 ラ ウ ン ド"), parse("22ラウンド"));
    assert_eq!(parse("2 2 ラ ウ ン ド"), Some(22));
    assert_eq!(parse("7 ラウンド 88 ラウンド"), parse("7 ラウンド"));
    assert_eq!(parse("7 ラウンド 88 ラウンド"), Some(7));
}
