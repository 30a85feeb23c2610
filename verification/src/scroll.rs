//! Scroll position estimator.
//!
//! Converts a spoken-sentence index into a fractional scroll target. The
//! primary model estimates each sentence's relative height by simulating
//! greedy word wrap against an estimated column width; when geometry or
//! weights are unavailable it falls back to a linear index-to-fraction
//! mapping. Fractions are per-mille (0..=1000) of the scrollable range.

use vstd::prelude::*;
use vstd::arithmetic::div_mod::{lemma_div_is_ordered, lemma_div_nonincreasing, lemma_div_pos_is_pos};
use crate::chars::{chars_of, is_wsc, wsc};

verus! {

/// Viewport fraction at or beyond which the page counts as fully visible,
/// so the target is always the top.
pub const WHOLE_PAGE_VF_PM: u32 = 875;

/// Lead-in margin kept above a sentence in non-centered tracking.
pub const LEAD_IN_PM: u32 = 20;

/// Dead-zone bounds for scroll suppression.
pub const DEADZONE_MIN_PM: u32 = 5;

pub const DEADZONE_MAX_PM: u32 = 50;

/// Cap on one sentence's line weight, so that page totals stay within
/// machine range; the model is approximate by design.
pub const MAX_SENTENCE_WEIGHT: u64 = 1000000;

/// A scroll target: a horizontal offset (always the left edge) and a
/// vertical fraction of the scrollable range, in per-mille.
#[derive(PartialEq, Eq, Structural, Clone, Copy, Debug)]
pub struct ScrollTarget {
    pub x_pm: u32,
    pub y_pm: u32,
}

/// A per-mille value clamped to 0..=1000.
pub open spec fn clamp_pm(v: int) -> int {
    if v < 0 {
        0
    } else if v > 1000 {
        1000
    } else {
        v
    }
}

/// Clamps a measured fraction into 0..=1000 per-mille.
pub fn clamp_fraction_pm(v: u32) -> (r: u32)
    ensures
        r as int == clamp_pm(v as int),
{
    if v > 1000 {
        1000
    } else {
        v
    }
}

/// Index of the first whitespace character at or after `from`, or `s.len()`.
pub open spec fn skip_word(s: Seq<char>, from: int) -> int
    decreases s.len() - from,
    when 0 <= from <= s.len()
{
    if from >= s.len() {
        s.len() as int
    } else if is_wsc(s[from]) {
        from
    } else {
        skip_word(s, from + 1)
    }
}

proof fn lemma_skip_word(s: Seq<char>, from: int)
    requires
        0 <= from <= s.len(),
    ensures
        from <= skip_word(s, from) <= s.len(),
        from < s.len() && !is_wsc(s[from]) ==> from < skip_word(s, from),
    decreases s.len() - from,
{
    if from < s.len() && !is_wsc(s[from]) {
        lemma_skip_word(s, from + 1);
    }
}

fn skip_word_in(v: &Vec<char>, from: usize) -> (r: usize)
    requires
        from <= v@.len(),
    ensures
        r == skip_word(v@, from as int),
        from <= r <= v@.len(),
{
    proof {
        lemma_skip_word(v@, from as int);
    }
    let mut i: usize = from;
    while i < v.len()
        invariant
            from <= i <= v@.len(),
            skip_word(v@, from as int) == skip_word(v@, i as int),
        decreases v@.len() - i,
    {
        if wsc(v[i]) {
            return i;
        }
        i = i + 1;
    }
    i
}

/// The lengths of the whitespace-separated words of `s[i..]`, in order.
pub open spec fn words_from(s: Seq<char>, i: int) -> Seq<int>
    decreases s.len() - i,
    when 0 <= i <= s.len()
{
    if i >= s.len() {
        Seq::<int>::empty()
    } else if is_wsc(s[i]) {
        words_from(s, i + 1)
    } else {
        let j = skip_word(s, i);
        if i < j && j <= s.len() {
            seq![j - i] + words_from(s, j)
        } else {
            Seq::<int>::empty()
        }
    }
}

/// The word lengths of a sentence.
pub open spec fn words_of(s: Seq<char>) -> Seq<int> {
    words_from(s, 0)
}

/// The word lengths of a sentence, as a vector.
fn words_in(v: &Vec<char>) -> (r: Vec<u64>)
    requires
        v@.len() <= u64::MAX,
    ensures
        r@.map_values(|w: u64| w as int) == words_of(v@),
{
    let mut r: Vec<u64> = Vec::new();
    let mut i: usize = 0;
    assert(r@.map_values(|w: u64| w as int) =~= Seq::<int>::empty());
    while i < v.len()
        invariant
            0 <= i <= v@.len(),
            v@.len() <= u64::MAX,
            r@.map_values(|w: u64| w as int) + words_from(v@, i as int) == words_of(v@),
        decreases v@.len() - i,
    {
        if wsc(v[i]) {
            i = i + 1;
        } else {
            let j = skip_word_in(v, i);
            proof {
                lemma_skip_word(v@, i as int);
            }
            let ghost pre = r@.map_values(|w: u64| w as int);
            r.push((j - i) as u64);
            proof {
                assert(r@.map_values(|w: u64| w as int) =~= pre.push(j - i));
                assert(words_from(v@, i as int) == seq![j - i] + words_from(v@, j as int));
                assert(pre.push(j - i) + words_from(v@, j as int) =~= pre + (seq![j - i]
                    + words_from(v@, j as int)));
            }
            i = j;
        }
    }
    assert(words_from(v@, v@.len() as int) =~= Seq::<int>::empty());
    assert(r@.map_values(|w: u64| w as int) + Seq::<int>::empty() =~= r@.map_values(
        |w: u64| w as int,
    ));
    r
}

/// Greedy word wrap: the number of lines the words occupy at `cpl`
/// characters per line, starting with `cur` characters already on the
/// current line and `acc` lines so far; the count is capped.
pub open spec fn wrap_count(words: Seq<int>, cpl: int, cur: int, acc: int) -> int
    decreases words.len(),
{
    if words.len() == 0 {
        acc
    } else {
        let w = words[0];
        if cur == 0 {
            wrap_count(words.drop_first(), cpl, w, acc)
        } else if cur + 1 + w <= cpl {
            wrap_count(words.drop_first(), cpl, cur + 1 + w, acc)
        } else {
            wrap_count(
                words.drop_first(),
                cpl,
                w,
                if acc < MAX_SENTENCE_WEIGHT as int {
                    acc + 1
                } else {
                    acc
                },
            )
        }
    }
}

proof fn lemma_wrap_count_bounds(words: Seq<int>, cpl: int, cur: int, acc: int)
    requires
        1 <= acc <= MAX_SENTENCE_WEIGHT as int,
    ensures
        acc <= wrap_count(words, cpl, cur, acc) <= MAX_SENTENCE_WEIGHT as int,
    decreases words.len(),
{
    if words.len() > 0 {
        let w = words[0];
        if cur == 0 {
            lemma_wrap_count_bounds(words.drop_first(), cpl, w, acc);
        } else if cur + 1 + w <= cpl {
            lemma_wrap_count_bounds(words.drop_first(), cpl, cur + 1 + w, acc);
        } else if acc < MAX_SENTENCE_WEIGHT as int {
            lemma_wrap_count_bounds(words.drop_first(), cpl, w, acc + 1);
        } else {
            lemma_wrap_count_bounds(words.drop_first(), cpl, w, acc);
        }
    }
}

/// The relative line weight of one sentence at `cpl` characters per line.
pub open spec fn spec_weight(s: Seq<char>, cpl: int) -> int {
    wrap_count(words_of(s), cpl, 0, 1)
}

/// The line weight of one sentence.
fn weight_in(v: &Vec<char>, cpl: u64) -> (r: u64)
    requires
        v@.len() <= u64::MAX,
    ensures
        r as int == spec_weight(v@, cpl as int),
        1 <= r <= MAX_SENTENCE_WEIGHT,
{
    proof {
        lemma_wrap_count_bounds(words_of(v@), cpl as int, 0, 1);
    }
    let words = words_in(v);
    let ghost wordsv = r_words_view(words@);
    assert(wordsv.skip(0) =~= wordsv);
    let mut cur: u64 = 0;
    let mut acc: u64 = 1;
    let mut k: usize = 0;
    while k < words.len()
        invariant
            0 <= k <= words@.len(),
            wordsv == r_words_view(words@),
            1 <= acc <= MAX_SENTENCE_WEIGHT,
            wrap_count(wordsv, cpl as int, 0, 1) == wrap_count(
                wordsv.skip(k as int),
                cpl as int,
                cur as int,
                acc as int,
            ),
        decreases words@.len() - k,
    {
        let w = words[k];
        proof {
            assert(wordsv.skip(k as int)[0] == w as int);
            assert(wordsv.skip(k as int).drop_first() =~= wordsv.skip(k + 1));
        }
        if cur == 0 {
            cur = w;
        } else if cur < cpl && w <= cpl - cur - 1 {
            assert(cur as int + 1 + w as int <= cpl as int);
            cur = cur + 1 + w;
        } else {
            assert(!(cur as int + 1 + w as int <= cpl as int));
            cur = w;
            if acc < MAX_SENTENCE_WEIGHT {
                acc = acc + 1;
            }
        }
        k = k + 1;
    }
    assert(wordsv.skip(wordsv.len() as int) =~= Seq::<int>::empty());
    assert(wrap_count(wordsv, cpl as int, 0, 1) == acc as int);
    assert(wordsv == words_of(v@));
    acc
}

/// The word vector as mathematical integers.
pub open spec fn r_words_view(v: Seq<u64>) -> Seq<int> {
    v.map_values(|w: u64| w as int)
}

/// The line weights of a page's sentences.
pub fn sentence_weights(sentences: &Vec<String>, cpl: u64) -> (r: Vec<u64>)
    ensures
        r@.len() == sentences@.len(),
        forall|k: int|
            0 <= k < r@.len() ==> #[trigger] r@[k] as int == spec_weight(
                sentences@[k]@,
                cpl as int,
            ) && 1 <= r@[k] <= MAX_SENTENCE_WEIGHT,
{
    let mut r: Vec<u64> = Vec::new();
    let mut i: usize = 0;
    while i < sentences.len()
        invariant
            0 <= i <= sentences@.len(),
            r@.len() == i,
            forall|k: int|
                0 <= k < i ==> #[trigger] r@[k] as int == spec_weight(
                    sentences@[k]@,
                    cpl as int,
                ) && 1 <= r@[k] <= MAX_SENTENCE_WEIGHT,
        decreases sentences@.len() - i,
    {
        let cs = chars_of(sentences[i].as_str());
        let n = cs.len();
        assert(cs@.len() <= u64::MAX) by {
            assert(n == cs@.len());
        }
        r.push(weight_in(&cs, cpl));
        i = i + 1;
    }
    r
}

/// Average glyph width, in hundredths of a pixel, estimated from the
/// typography: a fraction of the font size (wider for monospace, slightly
/// wider for bold), plus the letter spacing.
pub open spec fn spec_glyph_width_cpx(
    font_size_px: u32,
    letter_spacing: u32,
    bold: bool,
    monospace: bool,
) -> int {
    let base = font_size_px * (if monospace {
        60int
    } else {
        55int
    }) + (if bold {
        font_size_px * 3
    } else {
        0int
    }) + letter_spacing * 100;
    if base < 1 {
        1
    } else {
        base
    }
}

pub fn glyph_width_cpx(font_size_px: u32, letter_spacing: u32, bold: bool, monospace: bool) -> (r:
    u64)
    ensures
        r as int == spec_glyph_width_cpx(font_size_px, letter_spacing, bold, monospace),
        r >= 1,
{
    let f = font_size_px as u64;
    let base: u64 = f * (if monospace {
        60
    } else {
        55
    }) + (if bold {
        f * 3
    } else {
        0
    }) + (letter_spacing as u64) * 100;
    if base < 1 {
        1
    } else {
        base
    }
}

/// Estimated characters per line of a text column, at least 1.
pub open spec fn spec_chars_per_line(column_width_px: int, glyph_cpx: int) -> int
    recommends
        glyph_cpx >= 1,
{
    let c = column_width_px * 100 / glyph_cpx;
    if c < 1 {
        1
    } else {
        c
    }
}

pub fn chars_per_line(column_width_px: u32, glyph_cpx: u64) -> (r: u64)
    requires
        glyph_cpx >= 1,
    ensures
        r as int == spec_chars_per_line(column_width_px as int, glyph_cpx as int),
        r >= 1,
{
    let wide: u64 = (column_width_px as u64) * 100;
    let c = wide / glyph_cpx;
    proof {
        lemma_div_nonincreasing(wide as int, glyph_cpx as int);
        lemma_div_pos_is_pos(wide as int, glyph_cpx as int);
    }
    if c < 1 {
        1
    } else {
        c
    }
}

/// Sum of the first `i` weights.
pub open spec fn wsum(ws: Seq<u64>, i: int) -> int
    decreases i,
    when 0 <= i
{
    if i <= 0 {
        0
    } else {
        wsum(ws, i - 1) + ws[i - 1]
    }
}

proof fn lemma_wsum_bounds(ws: Seq<u64>, i: int)
    requires
        0 <= i <= ws.len(),
        forall|k: int| 0 <= k < ws.len() ==> 1 <= #[trigger] ws[k] <= MAX_SENTENCE_WEIGHT,
    ensures
        i <= wsum(ws, i) <= i * MAX_SENTENCE_WEIGHT as int,
    decreases i,
{
    if i > 0 {
        lemma_wsum_bounds(ws, i - 1);
    }
}

proof fn lemma_wsum_monotonic(ws: Seq<u64>, i: int, j: int)
    requires
        0 <= i <= j <= ws.len(),
    ensures
        wsum(ws, i) <= wsum(ws, j),
    decreases j - i,
{
    if i < j {
        lemma_wsum_monotonic(ws, i, j - 1);
    }
}

/// The fallback target: all sentences treated as equal height, the index
/// mapped linearly to a fraction; centered tracking backs up by half a step.
pub open spec fn spec_linear_y(idx: int, total: int, centered: bool) -> int
    recommends
        total > 0,
{
    let c = if idx < total {
        idx
    } else {
        total - 1
    };
    let denom = if total - 1 > 0 {
        total - 1
    } else {
        1
    };
    let base = c * 1000 / denom;
    let b = if base > 1000 {
        1000
    } else {
        base
    };
    if centered {
        let y = b - 500int / denom;
        if y < 0 {
            0
        } else {
            y
        }
    } else {
        b
    }
}

/// The weighted target. The sentence's start and midpoint are fractions of
/// the summed line weights; the raw content position is converted to a
/// scroll fraction through the scrollable range (one minus the viewport
/// fraction). Centered tracking aims the midpoint at the viewport's center
/// but never scrolls past the sentence's start; otherwise the start is kept
/// near the top with a small lead-in.
pub open spec fn spec_weighted_y(ws: Seq<u64>, idx: int, centered: bool, vf: int) -> int
    recommends
        ws.len() > 0,
        0 <= vf < 1000,
{
    let c = if idx < ws.len() {
        idx
    } else {
        ws.len() - 1
    };
    let pre = wsum(ws, c);
    let w = ws[c] as int;
    let tot = wsum(ws, ws.len() as int);
    let start = pre * 1000 / tot;
    let mid = (pre * 1000 + w * 500) / tot;
    let scrollable = 1000 - vf;
    if centered {
        let t = if mid - vf / 2 < 0 {
            0
        } else {
            mid - vf / 2
        };
        let yc = t * 1000 / scrollable;
        let yb = start * 1000 / scrollable;
        let y = if yc < yb {
            yc
        } else {
            yb
        };
        if y > 1000 {
            1000
        } else {
            y
        }
    } else {
        let t = if start - LEAD_IN_PM < 0 {
            0
        } else {
            start - LEAD_IN_PM
        };
        let y = t * 1000 / scrollable;
        if y > 1000 {
            1000
        } else {
            y
        }
    }
}

/// Scroll position estimator: the tracking preference, the measured
/// viewport fraction when geometry is known, and the page's sentence
/// weights when they were computed.
pub struct ScrollEstimator {
    pub centered: bool,
    pub viewport_frac_pm: Option<u32>,
    pub weights: Option<Vec<u64>>,
}

impl ScrollEstimator {
    /// Weights, when present, are the output of `sentence_weights`: each at
    /// least one line and capped.
    pub open spec fn wf(self) -> bool {
        match self.weights {
            Option::Some(ws) => forall|k: int|
                0 <= k < ws@.len() ==> 1 <= #[trigger] ws@[k] <= MAX_SENTENCE_WEIGHT,
            Option::None => true,
        }
    }

    /// The vertical target for `idx` among `total` sentences: `None` when
    /// there is no sentence; the top when the viewport already shows nearly
    /// the whole page; otherwise the weighted target when geometry and
    /// weights are available, and the linear fallback when not.
    pub open spec fn spec_offset_y(self, idx: int, total: int) -> Option<int> {
        if total <= 0 {
            Option::<int>::None
        } else {
            match self.viewport_frac_pm {
                Option::Some(vfr) => {
                    let vf = clamp_pm(vfr as int);
                    if vf >= WHOLE_PAGE_VF_PM as int {
                        Option::Some(0)
                    } else {
                        match self.weights {
                            Option::Some(ws) => if ws@.len() == total {
                                Option::Some(spec_weighted_y(ws@, idx, self.centered, vf))
                            } else {
                                Option::Some(spec_linear_y(idx, total, self.centered))
                            },
                            Option::None => Option::Some(
                                spec_linear_y(idx, total, self.centered),
                            ),
                        }
                    }
                },
                Option::None => Option::Some(spec_linear_y(idx, total, self.centered)),
            }
        }
    }

    /// The scroll target that brings sentence `sentence_idx` of
    /// `total_sentences` into view; `None` exactly when there is no
    /// sentence. With a nearly full viewport the target is always the top.
    pub fn offset_for_sentence(&self, sentence_idx: usize, total_sentences: usize) -> (r: Option<
        ScrollTarget,
    >)
        requires
            self.wf(),
        ensures
            (r is Some) <==> total_sentences > 0,
            r is Some ==> r->0.x_pm == 0 && r->0.y_pm <= 1000 && Option::Some(
                r->0.y_pm as int,
            ) == self.spec_offset_y(sentence_idx as int, total_sentences as int),
    {
        if total_sentences == 0 {
            return None;
        }
        let y: u32 = match &self.viewport_frac_pm {
            Some(vfr) => {
                let vf = clamp_fraction_pm(*vfr);
                if vf >= WHOLE_PAGE_VF_PM {
                    0
                } else {
                    match &self.weights {
                        Some(ws) => {
                            if ws.len() == total_sentences {
                                weighted_y(ws, sentence_idx, self.centered, vf)
                            } else {
                                linear_y(sentence_idx, total_sentences, self.centered)
                            }
                        },
                        None => linear_y(sentence_idx, total_sentences, self.centered),
                    }
                }
            },
            None => linear_y(sentence_idx, total_sentences, self.centered),
        };
        Some(ScrollTarget { x_pm: 0, y_pm: y })
    }
}

/// The linear fallback target.
fn linear_y(idx: usize, total: usize, centered: bool) -> (r: u32)
    requires
        total > 0,
    ensures
        r as int == spec_linear_y(idx as int, total as int, centered),
        r <= 1000,
{
    let c: u128 = if idx < total {
        idx as u128
    } else {
        (total - 1) as u128
    };
    let denom: u128 = if total - 1 > 0 {
        (total - 1) as u128
    } else {
        1
    };
    let base = c * 1000 / denom;
    let b: u128 = if base > 1000 {
        1000
    } else {
        base
    };
    if centered {
        let half = 500 / denom;
        let y = if b < half {
            0
        } else {
            b - half
        };
        y as u32
    } else {
        b as u32
    }
}

/// Sum of the first `hi` weights.
fn wsum_in(ws: &Vec<u64>, hi: usize) -> (r: u128)
    requires
        hi <= ws@.len(),
        forall|k: int| 0 <= k < ws@.len() ==> 1 <= #[trigger] ws@[k] <= MAX_SENTENCE_WEIGHT,
    ensures
        r as int == wsum(ws@, hi as int),
        r as int <= (hi as int) * (MAX_SENTENCE_WEIGHT as int),
        hi as int <= r as int,
{
    proof {
        lemma_wsum_bounds(ws@, hi as int);
    }
    let mut acc: u128 = 0;
    let mut k: usize = 0;
    while k < hi
        invariant
            0 <= k <= hi <= ws@.len(),
            forall|m: int| 0 <= m < ws@.len() ==> 1 <= #[trigger] ws@[m] <= MAX_SENTENCE_WEIGHT,
            acc as int == wsum(ws@, k as int),
            acc as int <= (k as int) * (MAX_SENTENCE_WEIGHT as int),
        decreases hi - k,
    {
        proof {
            lemma_wsum_bounds(ws@, k as int);
            assert((k as int) * (MAX_SENTENCE_WEIGHT as int) + MAX_SENTENCE_WEIGHT as int == (
            k as int + 1) * (MAX_SENTENCE_WEIGHT as int)) by (nonlinear_arith);
        }
        acc = acc + ws[k] as u128;
        k = k + 1;
    }
    acc
}

/// The weighted target.
fn weighted_y(ws: &Vec<u64>, idx: usize, centered: bool, vf: u32) -> (r: u32)
    requires
        ws@.len() > 0,
        vf < WHOLE_PAGE_VF_PM,
        forall|k: int| 0 <= k < ws@.len() ==> 1 <= #[trigger] ws@[k] <= MAX_SENTENCE_WEIGHT,
    ensures
        r as int == spec_weighted_y(ws@, idx as int, centered, vf as int),
        r <= 1000,
{
    let c: usize = if idx < ws.len() {
        idx
    } else {
        ws.len() - 1
    };
    let pre: u128 = wsum_in(ws, c);
    let w: u128 = ws[c] as u128;
    let tot: u128 = wsum_in(ws, ws.len());
    proof {
        lemma_wsum_bounds(ws@, ws@.len() as int);
        lemma_wsum_monotonic(ws@, c as int, ws@.len() as int);
    }
    let start = pre * 1000 / tot;
    let mid = (pre * 1000 + w * 500) / tot;
    let scrollable: u128 = (1000 - vf) as u128;
    if centered {
        let half: u128 = (vf / 2) as u128;
        let t: u128 = if mid < half {
            0
        } else {
            mid - half
        };
        let yc = t * 1000 / scrollable;
        let yb = start * 1000 / scrollable;
        let y = if yc < yb {
            yc
        } else {
            yb
        };
        let yy: u128 = if y > 1000 {
            1000
        } else {
            y
        };
        yy as u32
    } else {
        let t: u128 = if start < LEAD_IN_PM as u128 {
            0
        } else {
            start - LEAD_IN_PM as u128
        };
        let y = t * 1000 / scrollable;
        let yy: u128 = if y > 1000 {
            1000
        } else {
            y
        };
        yy as u32
    }
}

/// The dead zone below which a new scroll target is suppressed: a fraction
/// of the viewport fraction, clamped to sane bounds.
pub open spec fn spec_deadzone_pm(vf: int) -> int {
    let d = vf / 20;
    if d < DEADZONE_MIN_PM as int {
        DEADZONE_MIN_PM as int
    } else if d > DEADZONE_MAX_PM as int {
        DEADZONE_MAX_PM as int
    } else {
        d
    }
}

/// Whether a scroll command to `target_pm` is worth issuing from
/// `current_pm`: only when the move is at least the dead zone, so that
/// sub-step recomputation does not jitter the view.
pub fn should_scroll(current_pm: u32, target_pm: u32, viewport_frac_pm: u32) -> (r: bool)
    ensures
        r == ({
            let delta = if current_pm >= target_pm {
                current_pm - target_pm
            } else {
                target_pm - current_pm
            };
            delta >= spec_deadzone_pm(clamp_pm(viewport_frac_pm as int))
        }),
{
    let vf = clamp_fraction_pm(viewport_frac_pm);
    let d0 = vf / 20;
    let dz: u32 = if d0 < DEADZONE_MIN_PM {
        DEADZONE_MIN_PM
    } else if d0 > DEADZONE_MAX_PM {
        DEADZONE_MAX_PM
    } else {
        d0
    };
    let delta = if current_pm >= target_pm {
        current_pm - target_pm
    } else {
        target_pm - current_pm
    };
    delta >= dz
}

proof fn lemma_linear_monotonic(i1: int, i2: int, total: int, centered: bool)
    requires
        0 <= i1 <= i2,
        total > 0,
    ensures
        spec_linear_y(i1, total, centered) <= spec_linear_y(i2, total, centered),
{
    let c1 = if i1 < total { i1 } else { total - 1 };
    let c2 = if i2 < total { i2 } else { total - 1 };
    let denom = if total - 1 > 0 { total - 1 } else { 1 };
    lemma_div_is_ordered(c1 * 1000, c2 * 1000, denom);
    vstd::arithmetic::div_mod::lemma_div_pos_is_pos(c1 * 1000, denom);
}

proof fn lemma_weighted_monotonic(ws: Seq<u64>, i1: int, i2: int, centered: bool, vf: int)
    requires
        ws.len() > 0,
        0 <= vf < WHOLE_PAGE_VF_PM as int,
        0 <= i1 <= i2,
        forall|k: int| 0 <= k < ws.len() ==> 1 <= #[trigger] ws[k] <= MAX_SENTENCE_WEIGHT,
    ensures
        spec_weighted_y(ws, i1, centered, vf) <= spec_weighted_y(ws, i2, centered, vf),
{
    let c1 = if i1 < ws.len() { i1 } else { ws.len() - 1 };
    let c2 = if i2 < ws.len() { i2 } else { ws.len() - 1 };
    let pre1 = wsum(ws, c1);
    let pre2 = wsum(ws, c2);
    let w1 = ws[c1] as int;
    let w2 = ws[c2] as int;
    let tot = wsum(ws, ws.len() as int);
    lemma_wsum_bounds(ws, ws.len() as int);
    lemma_wsum_monotonic(ws, c1, c2);
    if c1 < c2 {
        assert(wsum(ws, c1 + 1) == pre1 + w1);
        lemma_wsum_monotonic(ws, c1 + 1, c2);
    }
    assert(pre1 * 1000 + w1 * 500 <= pre2 * 1000 + w2 * 500);
    lemma_div_is_ordered(pre1 * 1000, pre2 * 1000, tot);
    lemma_div_is_ordered(pre1 * 1000 + w1 * 500, pre2 * 1000 + w2 * 500, tot);
    let start1 = pre1 * 1000 / tot;
    let start2 = pre2 * 1000 / tot;
    let mid1 = (pre1 * 1000 + w1 * 500) / tot;
    let mid2 = (pre2 * 1000 + w2 * 500) / tot;
    let scrollable = 1000 - vf;
    if centered {
        let t1 = if mid1 - vf / 2 < 0 { 0int } else { mid1 - vf / 2 };
        let t2 = if mid2 - vf / 2 < 0 { 0int } else { mid2 - vf / 2 };
        lemma_div_is_ordered(t1 * 1000, t2 * 1000, scrollable);
        lemma_div_is_ordered(start1 * 1000, start2 * 1000, scrollable);
    } else {
        let t1 = if start1 - LEAD_IN_PM < 0 { 0int } else { start1 - LEAD_IN_PM };
        let t2 = if start2 - LEAD_IN_PM < 0 { 0int } else { start2 - LEAD_IN_PM };
        lemma_div_is_ordered(t1 * 1000, t2 * 1000, scrollable);
    }
}

impl ScrollEstimator {
    /// Law: a later (or equal) sentence never maps to an earlier scroll
    /// fraction, whatever weights, geometry and tracking preference are in
    /// effect.
    pub proof fn lemma_offset_monotonic(self, i1: int, i2: int, total: int)
        requires
            self.wf(),
            0 <= i1 <= i2,
            total > 0,
        ensures
            self.spec_offset_y(i1, total) is Some,
            self.spec_offset_y(i2, total) is Some,
            self.spec_offset_y(i1, total)->0 <= self.spec_offset_y(i2, total)->0,
    {
        match self.viewport_frac_pm {
            Option::Some(vfr) => {
                let vf = clamp_pm(vfr as int);
                if vf >= WHOLE_PAGE_VF_PM as int {
                } else {
                    match self.weights {
                        Option::Some(ws) => {
                            if ws@.len() == total {
                                lemma_weighted_monotonic(ws@, i1, i2, self.centered, vf);
                            } else {
                                lemma_linear_monotonic(i1, i2, total, self.centered);
                            }
                        },
                        Option::None => {
                            lemma_linear_monotonic(i1, i2, total, self.centered);
                        },
                    }
                }
            },
            Option::None => {
                lemma_linear_monotonic(i1, i2, total, self.centered);
            },
        }
    }
}

} // verus!
