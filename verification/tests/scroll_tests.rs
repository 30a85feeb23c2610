use reader_core::scroll::{
    chars_per_line, glyph_width_cpx, sentence_weights, should_scroll, ScrollEstimator,
    ScrollTarget,
};

fn estimator(
    centered: bool,
    viewport_frac_pm: Option<u32>,
    weights: Option<Vec<u64>>,
) -> ScrollEstimator {
    ScrollEstimator { centered, viewport_frac_pm, weights }
}

#[test]
fn no_sentences_means_no_target() {
    let est = estimator(false, Some(500), None);
    assert_eq!(est.offset_for_sentence(0, 0), None);
    assert_eq!(est.offset_for_sentence(17, 0), None);
    let est = estimator(true, None, None);
    assert_eq!(est.offset_for_sentence(3, 0), None);
}

#[test]
fn nearly_full_viewport_always_targets_the_top() {
    let est = estimator(true, Some(900), None);
    for idx in [0usize, 3, 9, 100] {
        let t = est.offset_for_sentence(idx, 10).unwrap();
        assert_eq!(t, ScrollTarget { x_pm: 0, y_pm: 0 });
    }
}

#[test]
fn linear_fallback_maps_index_to_fraction() {
    let est = estimator(false, None, None);
    // five sentences: denominator 4
    assert_eq!(est.offset_for_sentence(0, 5).unwrap().y_pm, 0);
    assert_eq!(est.offset_for_sentence(2, 5).unwrap().y_pm, 500);
    assert_eq!(est.offset_for_sentence(4, 5).unwrap().y_pm, 1000);
    // out-of-range index clamps to the last sentence
    assert_eq!(est.offset_for_sentence(99, 5).unwrap().y_pm, 1000);
}

#[test]
fn linear_centered_backs_up_half_a_step() {
    let est = estimator(true, None, None);
    // denominator 4: step 250, half-step 125
    assert_eq!(est.offset_for_sentence(2, 5).unwrap().y_pm, 375);
    assert_eq!(est.offset_for_sentence(0, 5).unwrap().y_pm, 0);
}

#[test]
fn single_sentence_page_targets_the_top() {
    let est = estimator(false, None, None);
    assert_eq!(est.offset_for_sentence(0, 1).unwrap().y_pm, 0);
}

#[test]
fn weighted_target_uses_line_weights() {
    // weights 1,1,2: total 4; sentence 1 starts at 250/1000 of the content
    let est = estimator(false, Some(500), Some(vec![1, 1, 2]));
    // start 250, lead-in 20, scrollable 500: (250-20)*1000/500 = 460
    assert_eq!(est.offset_for_sentence(1, 3).unwrap().y_pm, 460);
    assert_eq!(est.offset_for_sentence(0, 3).unwrap().y_pm, 0);
}

#[test]
fn weighted_centered_never_scrolls_past_sentence_start() {
    // last sentence: start 500, mid 750; centered target (750-250)*2 = 1000
    // but the start bound is 500*1000/500 = 1000 as well
    let est = estimator(true, Some(500), Some(vec![1, 1, 2]));
    let y = est.offset_for_sentence(2, 3).unwrap().y_pm;
    assert_eq!(y, 1000);
    // middle sentence: mid = 375; (375-250)*2 = 250; start bound 500
    assert_eq!(est.offset_for_sentence(1, 3).unwrap().y_pm, 250);
}

#[test]
fn mismatched_weights_fall_back_to_linear() {
    let est = estimator(false, Some(500), Some(vec![1, 1]));
    assert_eq!(est.offset_for_sentence(2, 5).unwrap().y_pm, 500);
}

#[test]
fn offsets_are_monotonic_in_the_index() {
    let cases = vec![
        estimator(false, None, None),
        estimator(true, None, None),
        estimator(false, Some(400), Some(vec![3, 1, 4, 1, 5, 9, 2, 6])),
        estimator(true, Some(400), Some(vec![3, 1, 4, 1, 5, 9, 2, 6])),
    ];
    for est in cases {
        let mut last = 0u32;
        for idx in 0..8usize {
            let y = est.offset_for_sentence(idx, 8).unwrap().y_pm;
            assert!(y >= last, "offset went backwards at {}", idx);
            last = y;
        }
    }
}

#[test]
fn should_scroll_uses_viewport_dead_zone() {
    // viewport 1000: dead zone clamps to the maximum of 50
    assert!(!should_scroll(500, 549, 1000));
    assert!(should_scroll(500, 550, 1000));
    assert!(should_scroll(550, 500, 1000));
    // tiny viewport: dead zone clamps to the minimum of 5
    assert!(!should_scroll(500, 504, 0));
    assert!(should_scroll(500, 505, 0));
}

#[test]
fn sentence_weights_count_wrapped_lines() {
    let sentences = vec!["a b c".to_string(), "hi".to_string()];
    // three one-character words at three characters per line: two lines
    let w = sentence_weights(&sentences, 3);
    assert_eq!(w, vec![2, 1]);
    // an empty sentence still weighs one line
    let w = sentence_weights(&vec!["".to_string()], 10);
    assert_eq!(w, vec![1]);
}

#[test]
fn glyph_width_and_chars_per_line_formulas() {
    // 16 px sans, no letter spacing: 16 * 55 hundredths
    assert_eq!(glyph_width_cpx(16, 0, false, false), 880);
    // monospace is wider, bold adds three hundredths per pixel
    assert_eq!(glyph_width_cpx(16, 0, false, true), 960);
    assert_eq!(glyph_width_cpx(16, 1, true, false), 1028);
    // 600 px column at 8.8 px per glyph: 68 characters
    assert_eq!(chars_per_line(600, 880), 68);
    // never below one character per line
    assert_eq!(chars_per_line(0, 880), 1);
}
