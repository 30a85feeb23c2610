use reader_core::normalizer::{NormalizationMode, NormalizerConfig, TextNormalizer};

fn default_normalizer() -> TextNormalizer {
    TextNormalizer::default()
}

fn strings(v: &[&str]) -> Vec<String> {
    v.iter().map(|s| s.to_string()).collect()
}

#[test]
fn citation_scenario_produces_clean_audio_sentences() {
    let n = default_normalizer();
    let plan = n.plan_page(&strings(&["See prior work [12, 13].", "It matters."]));
    assert_eq!(plan.audio_sentences, strings(&["See prior work.", "It matters."]));
    assert_eq!(plan.display_to_audio, vec![Some(0), Some(1)]);
    assert_eq!(plan.audio_to_display, vec![0, 1]);
}

#[test]
fn plan_is_idempotent() {
    let n = default_normalizer();
    let input = strings(&["See prior work [12, 13].", "", "`code` here.", "It matters."]);
    let a = n.plan_page(&input);
    let b = n.plan_page(&input);
    assert_eq!(a.audio_sentences, b.audio_sentences);
    assert_eq!(a.display_to_audio, b.display_to_audio);
    assert_eq!(a.audio_to_display, b.audio_to_display);
}

#[test]
fn disabled_normalizer_gives_identity_plan() {
    let mut cfg = NormalizerConfig::default();
    cfg.enabled = false;
    let n = TextNormalizer::new(cfg);
    let input = strings(&["  raw!  ", "[7]"]);
    let plan = n.plan_page(&input);
    assert_eq!(plan.audio_sentences, input);
    assert_eq!(plan.display_to_audio, vec![Some(0), Some(1)]);
    assert_eq!(plan.audio_to_display, vec![0, 1]);
}

#[test]
fn empty_page_gives_empty_plan() {
    let n = default_normalizer();
    let plan = n.plan_page(&Vec::new());
    assert!(plan.audio_sentences.is_empty());
    assert!(plan.display_to_audio.is_empty());
    assert!(plan.audio_to_display.is_empty());
}

#[test]
fn dropped_sentences_keep_mapping_invariant() {
    let n = default_normalizer();
    let plan = n.plan_page(&strings(&["", "A real sentence.", "[3]", "Another one."]));
    assert_eq!(plan.display_to_audio.len(), 4);
    assert_eq!(plan.display_to_audio[0], None);
    assert_eq!(plan.display_to_audio[2], None);
    assert_eq!(plan.audio_sentences.len(), plan.audio_to_display.len());
    for (j, &d) in plan.audio_to_display.iter().enumerate() {
        assert_eq!(plan.display_to_audio[d], Some(j));
    }
    for (d, slot) in plan.display_to_audio.iter().enumerate() {
        if let Some(j) = slot {
            assert_eq!(plan.audio_to_display[*j], d);
        }
    }
}

#[test]
fn page_mode_fallback_keeps_one_sentence_per_input() {
    let n = default_normalizer();
    // The curly block spans the sentence boundary, so the page-mode pass
    // destroys the internal marker and the normalizer must fall back.
    let input = strings(&["alpha {open", "close} beta"]);
    let cleaned = n.normalize_page_mode(&input);
    assert_eq!(cleaned.len(), 2);
    let plan = n.plan_page(&input);
    assert_eq!(plan.display_to_audio.len(), 2);
}

#[test]
fn strips_markdown_links_keeping_text() {
    let n = default_normalizer();
    assert_eq!(n.clean_text_core("read [the guide](http://x) now"), "read the guide now");
}

#[test]
fn strips_inline_code_keeping_inner_text() {
    let n = default_normalizer();
    assert_eq!(n.clean_text_core("run `cargo build` twice"), "run cargo build twice");
}

#[test]
fn drops_parenthetical_numeric_citations() {
    let n = default_normalizer();
    assert_eq!(n.clean_text_core("shown before (4, 5) here"), "shown before here");
}

#[test]
fn drops_square_and_curly_blocks() {
    let n = default_normalizer();
    assert_eq!(n.clean_text_core("a [note] b {gloss} c"), "a b c");
}

#[test]
fn replacements_apply_longest_pattern_first() {
    let mut cfg = NormalizerConfig::default();
    cfg.mode = NormalizationMode::Sentence;
    cfg.replacements = vec![
        ("ab".to_string(), "X".to_string()),
        ("abc".to_string(), "Y".to_string()),
    ];
    let n = TextNormalizer::new(cfg);
    assert_eq!(n.clean_text_core("abc ab"), "Y X");
}

#[test]
fn drop_tokens_become_spaces() {
    let mut cfg = NormalizerConfig::default();
    cfg.drop_tokens = vec!["--".to_string()];
    let n = TextNormalizer::new(cfg);
    assert_eq!(n.clean_text_core("one--two"), "one two");
}

#[test]
fn collapses_whitespace_and_space_before_punctuation() {
    let n = default_normalizer();
    assert_eq!(n.clean_text_core("a  \t b ."), "a b.");
}

#[test]
fn finalize_drops_empty_short_and_nonalphanumeric() {
    let n = default_normalizer();
    assert_eq!(n.finalize_sentence("   "), None);
    assert_eq!(n.finalize_sentence("!?"), None);
    assert_eq!(n.finalize_sentence("a"), None);
    assert_eq!(n.finalize_sentence("  ok  "), Some("ok".to_string()));
}

#[test]
fn sentence_mode_cleans_each_sentence_independently() {
    let mut cfg = NormalizerConfig::default();
    cfg.mode = NormalizationMode::Sentence;
    let n = TextNormalizer::new(cfg);
    let plan = n.plan_page(&strings(&["See [1].", "Fine text."]));
    assert_eq!(plan.audio_sentences, strings(&["See.", "Fine text."]));
}
