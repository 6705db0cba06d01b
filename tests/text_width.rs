use bottom::text_width::{display_width, grapheme_display_width, truncate_to_width, TextWidthMode};

#[test]
fn parses_text_width_mode_variants() {
    assert_eq!("normal".parse::<TextWidthMode>(), Ok(TextWidthMode::Normal));
    assert_eq!("cjk".parse::<TextWidthMode>(), Ok(TextWidthMode::Cjk));
    assert_eq!(
        "unicode-approx".parse::<TextWidthMode>(),
        Ok(TextWidthMode::UnicodeApprox)
    );
    assert!("invalid".parse::<TextWidthMode>().is_err());
}

#[test]
fn cjk_mode_widens_ambiguous_characters() {
    let ambiguous = "·";
    assert_eq!(display_width(ambiguous, TextWidthMode::Normal), 1);
    assert_eq!(display_width(ambiguous, TextWidthMode::Cjk), 2);
}

#[test]
fn truncate_to_width_respects_ellipsis() {
    let result = truncate_to_width("abcdef", 4, TextWidthMode::UnicodeApprox);
    assert_eq!(result, "abc…");
}

#[test]
fn mode_names_ignore_case_and_whitespace() {
    assert_eq!(TextWidthMode::parse("  CJK "), Some(TextWidthMode::Cjk));
    assert_eq!(TextWidthMode::parse("Unicode_Approx"), Some(TextWidthMode::UnicodeApprox));
    assert_eq!(TextWidthMode::from_name("Normal"), None);
    assert_eq!(TextWidthMode::Cjk.as_str(), "cjk");
}

#[test]
fn truncation_edge_cases() {
    assert_eq!(truncate_to_width("abcdef", 0, TextWidthMode::Cjk), "");
    assert_eq!(truncate_to_width("abc", 3, TextWidthMode::Cjk), "abc");
    assert_eq!(truncate_to_width("abcdef", 1, TextWidthMode::UnicodeApprox), "…");
    assert_eq!(truncate_to_width("日本語テキスト", 5, TextWidthMode::UnicodeApprox), "日本…");
    assert_eq!(truncate_to_width("abcdef", 4, TextWidthMode::Normal), "abc…");
}

#[test]
fn widths_of_wide_and_combined_text() {
    assert_eq!(display_width("日本", TextWidthMode::UnicodeApprox), 4);
    assert_eq!(display_width("e\u{301}", TextWidthMode::Cjk), 1);
    assert_eq!(display_width("", TextWidthMode::Normal), 0);
    assert_eq!(grapheme_display_width("\u{200b}", TextWidthMode::UnicodeApprox), 1);
}
