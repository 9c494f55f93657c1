use netmd::title::{
    choose_full_width_title, choose_half_width_title, get_half_width_title_length, half_width_to_full_width_range,
    sanitize_full_width_title, sanitize_half_width_title,
};

#[test]
fn full_width_range_maps_known_group_chars() {
    assert_eq!(half_width_to_full_width_range("1-3;4/5x"), "１－３；４／５");
}

#[test]
fn half_width_sanitize_maps_full_width_ascii_and_kana() {
    assert_eq!(sanitize_half_width_title("ＡＢＣ　１２３！？"), "ABC 123!?");
    assert_eq!(sanitize_half_width_title("ソニー"), "ｿﾆ-");
    assert_eq!(sanitize_half_width_title("こんにちは"), "ｺﾝﾆﾁﾊ");
}

#[test]
fn half_width_sanitize_flattens_dakuten_marks() {
    assert_eq!(sanitize_half_width_title("カ\u{309b} ハ\u{309c}"), "ｶﾞ ﾊﾟ");
    assert_eq!(sanitize_half_width_title("ｶﾞ ﾊﾟ"), "ｶﾞ ﾊﾟ");
}

#[test]
fn half_width_length_accounts_for_voiced_kana() {
    assert_eq!(get_half_width_title_length("カ"), 1);
    assert_eq!(get_half_width_title_length("ガ"), 2);
    assert_eq!(get_half_width_title_length("がぱ"), 4);
}

#[test]
fn half_width_sanitize_uses_ascii_fallback_for_diacritics() {
    assert_eq!(sanitize_half_width_title("Café"), "Cafe");
    assert_eq!(sanitize_half_width_title("😀"), "");
}

#[test]
fn half_width_sanitize_falls_back_when_safe_length_check_fails() {
    assert_eq!(sanitize_half_width_title("😀A"), "A");
}

#[test]
fn full_width_sanitize_maps_ascii_to_full_width() {
    assert_eq!(sanitize_full_width_title("ABC 123!?"), "ＡＢＣ　１２３！？");
}

#[test]
fn full_width_sanitize_preserves_full_width_kana_and_german_expansions() {
    assert_eq!(sanitize_full_width_title("ソニー"), "ソニー");
    assert_eq!(sanitize_full_width_title("Ä"), "Ae");
    assert_eq!(sanitize_full_width_title("ß"), "ss");
}

#[test]
fn full_width_sanitize_falls_back_when_encoded_length_is_not_full_width() {
    assert_eq!(sanitize_full_width_title("Привет"), "");
    assert_eq!(sanitize_full_width_title("😀"), "");
}

#[test]
fn plain_ascii_passes_half_width_sanitizing_unchanged() {
    assert_eq!(sanitize_half_width_title("Hello, World 42"), "Hello, World 42");
    assert_eq!(get_half_width_title_length("abc"), 3);
}

#[test]
fn half_width_choice_keeps_the_candidate_only_on_a_clean_full_length_encoding() {
    assert_eq!(choose_half_width_title("ソニー", &[0xbf, 0xc6, 0x2d], false), "ｿﾆ-");
    assert_eq!(choose_half_width_title("ソニー", &[0xbf, 0xc6, 0x2d], true), "");
    assert_eq!(choose_half_width_title("ソニー", &[0xbf, 0xc6], false), "");
    assert_eq!(choose_half_width_title("Café", &[0x43, 0x61, 0x66, 0x65], false), "Cafe");
}

#[test]
fn full_width_choice_keeps_the_remapped_title_only_on_a_clean_two_byte_encoding() {
    let six = [0x82u8, 0x60, 0x82, 0x61, 0x82, 0x62];
    assert_eq!(choose_full_width_title("ABC", &six, false), "ＡＢＣ");
    assert_eq!(choose_full_width_title("ABC", &six, true), "ABC");
    assert_eq!(choose_full_width_title("ABC", &six[..4], false), "ABC");
}
