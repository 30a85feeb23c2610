//! Reader configuration: a flat set of named options with clamped numeric
//! ranges (out-of-range input is corrected, never rejected), and the
//! character-level page-text formatting driven by it.

use vstd::prelude::*;
use crate::chars::{chars_of, string_of};

verus! {

pub const MIN_FONT_SIZE: u32 = 8;

pub const MAX_FONT_SIZE: u32 = 72;

pub const MAX_MARGIN: u16 = 48;

pub const MAX_WORD_SPACING: u32 = 5;

pub const MAX_LETTER_SPACING: u32 = 3;

pub const MIN_LINE_SPACING_PM: u32 = 800;

pub const MAX_LINE_SPACING_PM: u32 = 2500;

pub const MIN_LINES_PER_PAGE: usize = 5;

pub const MAX_LINES_PER_PAGE: usize = 100;

#[derive(Clone, Copy, PartialEq, Eq, Structural, Debug)]
pub enum ThemeMode {
    Day,
    Night,
}

impl ThemeMode {
    /// The other theme.
    pub fn toggled(self) -> (r: ThemeMode)
        ensures
            self is Day ==> r is Night,
            self is Night ==> r is Day,
    {
        match self {
            ThemeMode::Day => ThemeMode::Night,
            ThemeMode::Night => ThemeMode::Day,
        }
    }
}

#[derive(Clone, Copy, PartialEq, Eq, Structural, Debug)]
pub enum FontFamily {
    Sans,
    Serif,
    Monospace,
}

impl FontFamily {
    /// The family's display label.
    pub fn label(self) -> (r: String)
        ensures
            self is Sans ==> r@ == "Sans"@,
            self is Serif ==> r@ == "Serif"@,
            self is Monospace ==> r@ == "Monospace"@,
    {
        match self {
            FontFamily::Sans => String::from_str("Sans"),
            FontFamily::Serif => String::from_str("Serif"),
            FontFamily::Monospace => String::from_str("Monospace"),
        }
    }
}

#[derive(Clone, Copy, PartialEq, Eq, Structural, Debug)]
pub enum FontWeight {
    Light,
    Normal,
    Bold,
}

impl FontWeight {
    /// The weight's display label.
    pub fn label(self) -> (r: String)
        ensures
            self is Light ==> r@ == "Light"@,
            self is Normal ==> r@ == "Normal"@,
            self is Bold ==> r@ == "Bold"@,
    {
        match self {
            FontWeight::Light => String::from_str("Light"),
            FontWeight::Normal => String::from_str("Normal"),
            FontWeight::Bold => String::from_str("Bold"),
        }
    }
}

#[derive(Clone, Copy, PartialEq, Eq, Structural, Debug)]
pub enum Justification {
    Left,
    Center,
    Right,
}

impl Justification {
    /// The justification's display label.
    pub fn label(self) -> (r: String)
        ensures
            self is Left ==> r@ == "Left"@,
            self is Center ==> r@ == "Center"@,
            self is Right ==> r@ == "Right"@,
    {
        match self {
            Justification::Left => String::from_str("Left"),
            Justification::Center => String::from_str("Center"),
            Justification::Right => String::from_str("Right"),
        }
    }
}

/// The reader's configuration. Spacing fractions are per-mille; durations
/// are milliseconds.
#[derive(Clone)]
pub struct AppConfig {
    pub font_size: u32,
    pub theme: ThemeMode,
    pub show_settings: bool,
    pub show_tts: bool,
    pub font_family: FontFamily,
    pub font_weight: FontWeight,
    pub line_spacing_pm: u32,
    pub margin_horizontal: u16,
    pub margin_vertical: u16,
    pub justification: Justification,
    pub word_spacing: u32,
    pub letter_spacing: u32,
    pub lines_per_page: usize,
    pub tts_speed_pm: u32,
    pub pause_after_sentence_ms: u64,
    pub auto_scroll_tts: bool,
    pub center_spoken_sentence: bool,
}

/// Whether every numeric field lies within its accepted range.
pub open spec fn config_in_range(c: AppConfig) -> bool {
    &&& MIN_FONT_SIZE <= c.font_size <= MAX_FONT_SIZE
    &&& MIN_LINE_SPACING_PM <= c.line_spacing_pm <= MAX_LINE_SPACING_PM
    &&& c.margin_horizontal <= MAX_MARGIN
    &&& c.margin_vertical <= MAX_MARGIN
    &&& c.word_spacing <= MAX_WORD_SPACING
    &&& c.letter_spacing <= MAX_LETTER_SPACING
    &&& MIN_LINES_PER_PAGE <= c.lines_per_page <= MAX_LINES_PER_PAGE
    &&& crate::playback::MIN_SPEED_PM <= c.tts_speed_pm <= crate::playback::MAX_SPEED_PM
    &&& c.pause_after_sentence_ms <= crate::playback::MAX_PAUSE_MS
}

/// A value clamped into a closed range.
pub open spec fn spec_clamp(v: int, lo: int, hi: int) -> int {
    if v < lo {
        lo
    } else if v > hi {
        hi
    } else {
        v
    }
}

pub fn clamp_font_size(v: u32) -> (r: u32)
    ensures
        r as int == spec_clamp(v as int, MIN_FONT_SIZE as int, MAX_FONT_SIZE as int),
{
    if v < MIN_FONT_SIZE {
        MIN_FONT_SIZE
    } else if v > MAX_FONT_SIZE {
        MAX_FONT_SIZE
    } else {
        v
    }
}

pub fn clamp_line_spacing_pm(v: u32) -> (r: u32)
    ensures
        r as int == spec_clamp(v as int, MIN_LINE_SPACING_PM as int, MAX_LINE_SPACING_PM as int),
{
    if v < MIN_LINE_SPACING_PM {
        MIN_LINE_SPACING_PM
    } else if v > MAX_LINE_SPACING_PM {
        MAX_LINE_SPACING_PM
    } else {
        v
    }
}

pub fn clamp_margin(v: u16) -> (r: u16)
    ensures
        r as int == spec_clamp(v as int, 0, MAX_MARGIN as int),
{
    if v > MAX_MARGIN {
        MAX_MARGIN
    } else {
        v
    }
}

pub fn clamp_word_spacing(v: u32) -> (r: u32)
    ensures
        r as int == spec_clamp(v as int, 0, MAX_WORD_SPACING as int),
{
    if v > MAX_WORD_SPACING {
        MAX_WORD_SPACING
    } else {
        v
    }
}

pub fn clamp_letter_spacing(v: u32) -> (r: u32)
    ensures
        r as int == spec_clamp(v as int, 0, MAX_LETTER_SPACING as int),
{
    if v > MAX_LETTER_SPACING {
        MAX_LETTER_SPACING
    } else {
        v
    }
}

pub fn clamp_lines_per_page(v: usize) -> (r: usize)
    ensures
        r as int == spec_clamp(v as int, MIN_LINES_PER_PAGE as int, MAX_LINES_PER_PAGE as int),
{
    if v < MIN_LINES_PER_PAGE {
        MIN_LINES_PER_PAGE
    } else if v > MAX_LINES_PER_PAGE {
        MAX_LINES_PER_PAGE
    } else {
        v
    }
}

/// Corrects every numeric field into its accepted range; in-range values
/// pass through unchanged.
pub fn sanitize_config(c: &AppConfig) -> (r: AppConfig)
    ensures
        config_in_range(r),
        r.font_size as int == spec_clamp(
            c.font_size as int,
            MIN_FONT_SIZE as int,
            MAX_FONT_SIZE as int,
        ),
        r.line_spacing_pm as int == spec_clamp(
            c.line_spacing_pm as int,
            MIN_LINE_SPACING_PM as int,
            MAX_LINE_SPACING_PM as int,
        ),
        r.margin_horizontal as int == spec_clamp(c.margin_horizontal as int, 0, MAX_MARGIN as int),
        r.margin_vertical as int == spec_clamp(c.margin_vertical as int, 0, MAX_MARGIN as int),
        r.word_spacing as int == spec_clamp(c.word_spacing as int, 0, MAX_WORD_SPACING as int),
        r.letter_spacing as int == spec_clamp(
            c.letter_spacing as int,
            0,
            MAX_LETTER_SPACING as int,
        ),
        r.lines_per_page as int == spec_clamp(
            c.lines_per_page as int,
            MIN_LINES_PER_PAGE as int,
            MAX_LINES_PER_PAGE as int,
        ),
        r.tts_speed_pm == crate::playback::clamp_speed(c.tts_speed_pm),
        r.pause_after_sentence_ms == crate::playback::clamp_pause(c.pause_after_sentence_ms),
        r.theme == c.theme,
        r.show_settings == c.show_settings,
        r.show_tts == c.show_tts,
        r.font_family == c.font_family,
        r.font_weight == c.font_weight,
        r.justification == c.justification,
        r.auto_scroll_tts == c.auto_scroll_tts,
        r.center_spoken_sentence == c.center_spoken_sentence,
{
    AppConfig {
        font_size: clamp_font_size(c.font_size),
        theme: c.theme,
        show_settings: c.show_settings,
        show_tts: c.show_tts,
        font_family: c.font_family,
        font_weight: c.font_weight,
        line_spacing_pm: clamp_line_spacing_pm(c.line_spacing_pm),
        margin_horizontal: clamp_margin(c.margin_horizontal),
        margin_vertical: clamp_margin(c.margin_vertical),
        justification: c.justification,
        word_spacing: clamp_word_spacing(c.word_spacing),
        letter_spacing: clamp_letter_spacing(c.letter_spacing),
        lines_per_page: clamp_lines_per_page(c.lines_per_page),
        tts_speed_pm: crate::playback::clamp_speed_pm(c.tts_speed_pm),
        pause_after_sentence_ms: crate::playback::clamp_pause_ms(c.pause_after_sentence_ms),
        auto_scroll_tts: c.auto_scroll_tts,
        center_spoken_sentence: c.center_spoken_sentence,
    }
}

/// The default configuration.
pub open spec fn is_default_app_config(c: AppConfig) -> bool {
    &&& c.font_size == 16
    &&& c.theme is Night
    &&& !c.show_settings
    &&& !c.show_tts
    &&& c.font_family is Sans
    &&& c.font_weight is Normal
    &&& c.line_spacing_pm == 1200
    &&& c.margin_horizontal == 12
    &&& c.margin_vertical == 12
    &&& c.justification is Left
    &&& c.word_spacing == 0
    &&& c.letter_spacing == 0
    &&& c.lines_per_page == 40
    &&& c.tts_speed_pm == 1000
    &&& c.pause_after_sentence_ms == 500
    &&& c.auto_scroll_tts
    &&& !c.center_spoken_sentence
}

impl Default for AppConfig {
    fn default() -> (r: Self)
        ensures
            is_default_app_config(r),
            config_in_range(r),
    {
        AppConfig {
            font_size: 16,
            theme: ThemeMode::Night,
            show_settings: false,
            show_tts: false,
            font_family: FontFamily::Sans,
            font_weight: FontWeight::Normal,
            line_spacing_pm: 1200,
            margin_horizontal: 12,
            margin_vertical: 12,
            justification: Justification::Left,
            word_spacing: 0,
            letter_spacing: 0,
            lines_per_page: 40,
            tts_speed_pm: 1000,
            pause_after_sentence_ms: 500,
            auto_scroll_tts: true,
            center_spoken_sentence: false,
        }
    }
}

/// A run of `n` spaces.
pub open spec fn spaces(n: int) -> Seq<char> {
    Seq::new(n as nat, |i: int| ' ')
}

/// The page text with word and letter spacing applied: each space becomes a
/// run of `word_spacing + 1` spaces, newlines stay, and every other
/// character is followed by `letter_spacing` spaces.
pub open spec fn spec_spaced(s: Seq<char>, i: int, wgap: int, lgap: int) -> Seq<char>
    decreases s.len() - i,
    when 0 <= i <= s.len() && wgap >= 0 && lgap >= 0
{
    if i >= s.len() {
        Seq::<char>::empty()
    } else {
        let c = s[i];
        let piece = if c == ' ' {
            spaces(wgap + 1)
        } else if c == '\n' {
            seq!['\n']
        } else {
            seq![c] + spaces(lgap)
        };
        piece + spec_spaced(s, i + 1, wgap, lgap)
    }
}

/// Applies word and letter spacing to a page's text.
pub fn formatted_page_content(page: &str, word_spacing: u32, letter_spacing: u32) -> (r: String)
    requires
        word_spacing <= MAX_WORD_SPACING,
        letter_spacing <= MAX_LETTER_SPACING,
    ensures
        r@ == spec_spaced(page@, 0, word_spacing as int, letter_spacing as int),
{
    let v = chars_of(page);
    let ghost wgap = word_spacing as int;
    let ghost lgap = letter_spacing as int;
    let mut out: Vec<char> = Vec::new();
    let mut i: usize = 0;
    while i < v.len()
        invariant
            0 <= i <= v@.len(),
            v@ == page@,
            wgap == word_spacing as int,
            lgap == letter_spacing as int,
            word_spacing <= MAX_WORD_SPACING,
            letter_spacing <= MAX_LETTER_SPACING,
            spec_spaced(page@, 0, wgap, lgap) == out@ + spec_spaced(page@, i as int, wgap, lgap),
        decreases v@.len() - i,
    {
        let ghost pre = out@;
        let c = v[i];
        if c == ' ' {
            let mut k: u32 = 0;
            while k < word_spacing + 1
                invariant
                    0 <= k <= word_spacing + 1,
                    word_spacing <= MAX_WORD_SPACING,
                    out@ == pre + spaces(k as int),
                decreases word_spacing + 1 - k,
            {
                out.push(' ');
                assert(out@ =~= pre + spaces(k + 1));
                k = k + 1;
            }
            assert(out@ =~= pre + spaces(wgap + 1));
        } else if c == '\n' {
            out.push('\n');
            assert(out@ =~= pre + seq!['\n']);
        } else {
            out.push(c);
            let mut k: u32 = 0;
            while k < letter_spacing
                invariant
                    0 <= k <= letter_spacing,
                    letter_spacing <= MAX_LETTER_SPACING,
                    out@ == pre + seq![c] + spaces(k as int),
                decreases letter_spacing - k,
            {
                out.push(' ');
                assert(out@ =~= pre + seq![c] + spaces(k + 1));
                k = k + 1;
            }
            assert(out@ =~= pre + (seq![c] + spaces(lgap)));
        }
        proof {
            let piece = if page@[i as int] == ' ' {
                spaces(wgap + 1)
            } else if page@[i as int] == '\n' {
                seq!['\n']
            } else {
                seq![page@[i as int]] + spaces(lgap)
            };
            assert(spec_spaced(page@, i as int, wgap, lgap) == piece + spec_spaced(
                page@,
                i + 1,
                wgap,
                lgap,
            ));
            assert(out@ + spec_spaced(page@, i + 1, wgap, lgap) =~= pre + (piece + spec_spaced(
                page@,
                i + 1,
                wgap,
                lgap,
            )));
        }
        i = i + 1;
    }
    assert(spec_spaced(page@, page@.len() as int, wgap, lgap) =~= Seq::<char>::empty());
    assert(out@ + Seq::<char>::empty() =~= out@);
    string_of(&out)
}

} // verus!
