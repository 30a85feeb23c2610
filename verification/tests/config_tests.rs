use reader_core::config::{
    clamp_font_size, clamp_letter_spacing, clamp_lines_per_page, clamp_line_spacing_pm,
    clamp_margin, clamp_word_spacing, formatted_page_content, sanitize_config, AppConfig,
    FontFamily, FontWeight, Justification, ThemeMode,
};

#[test]
fn numeric_settings_are_clamped_not_rejected() {
    assert_eq!(clamp_font_size(1), 8);
    assert_eq!(clamp_font_size(16), 16);
    assert_eq!(clamp_font_size(999), 72);
    assert_eq!(clamp_line_spacing_pm(100), 800);
    assert_eq!(clamp_line_spacing_pm(9_000), 2500);
    assert_eq!(clamp_margin(60), 48);
    assert_eq!(clamp_margin(12), 12);
    assert_eq!(clamp_word_spacing(9), 5);
    assert_eq!(clamp_letter_spacing(9), 3);
    assert_eq!(clamp_lines_per_page(1), 5);
    assert_eq!(clamp_lines_per_page(400), 100);
}

#[test]
fn sanitize_config_corrects_every_field() {
    let mut c = AppConfig::default();
    c.font_size = 1000;
    c.line_spacing_pm = 1;
    c.margin_horizontal = 200;
    c.word_spacing = 50;
    c.letter_spacing = 50;
    c.lines_per_page = 0;
    c.tts_speed_pm = 1;
    c.pause_after_sentence_ms = 1_000_000;
    let s = sanitize_config(&c);
    assert_eq!(s.font_size, 72);
    assert_eq!(s.line_spacing_pm, 800);
    assert_eq!(s.margin_horizontal, 48);
    assert_eq!(s.word_spacing, 5);
    assert_eq!(s.letter_spacing, 3);
    assert_eq!(s.lines_per_page, 5);
    assert_eq!(s.tts_speed_pm, 500);
    assert_eq!(s.pause_after_sentence_ms, 2000);
    // non-numeric fields pass through
    assert_eq!(s.theme, c.theme);
    assert_eq!(s.auto_scroll_tts, c.auto_scroll_tts);
}

#[test]
fn default_config_is_in_range_and_stable() {
    let c = AppConfig::default();
    let s = sanitize_config(&c);
    assert_eq!(s.font_size, c.font_size);
    assert_eq!(s.line_spacing_pm, c.line_spacing_pm);
    assert_eq!(s.tts_speed_pm, c.tts_speed_pm);
}

#[test]
fn theme_toggles_between_day_and_night() {
    assert_eq!(ThemeMode::Day.toggled(), ThemeMode::Night);
    assert_eq!(ThemeMode::Night.toggled(), ThemeMode::Day);
}

#[test]
fn enum_labels_match_display_names() {
    assert_eq!(FontFamily::Sans.label(), "Sans");
    assert_eq!(FontFamily::Monospace.label(), "Monospace");
    assert_eq!(FontWeight::Bold.label(), "Bold");
    assert_eq!(Justification::Center.label(), "Center");
}

#[test]
fn page_content_applies_word_and_letter_spacing() {
    assert_eq!(formatted_page_content("ab cd", 0, 0), "ab cd");
    assert_eq!(formatted_page_content("ab cd", 1, 0), "ab  cd");
    assert_eq!(formatted_page_content("ab", 0, 2), "a  b  ");
    assert_eq!(formatted_page_content("a\nb", 3, 1), "a \nb ");
}
