//! Text-cleaning transforms.
//!
//! Each transform is a left-to-right, non-overlapping rewrite of a character
//! sequence: at every position the stage either recognizes a pattern, emits
//! its replacement and continues after the match, or copies the character and
//! moves one position forward. `spec_rewrite` gives the mathematical meaning
//! of one stage and `apply_stage` is the verified scanner that computes it.

use vstd::prelude::*;
use crate::chars::{
    digit, find_char, find_char_in, hws, is_digit, is_hws, is_punct, is_wsc, lemma_find_char,
    lemma_skip_hws, lemma_skip_ws, matches_at, matches_at_in, punct, skip_hws, skip_hws_in,
    skip_ws, skip_ws_in, wsc,
};

verus! {

/// The mathematical form of a cleaning stage; `Stage` is its executable
/// counterpart, related by `Stage::view`.
pub enum SpecStage {
    Links,
    InlineCode,
    BracketCitations,
    ParenCitations,
    SquareBlocks,
    CurlyBlocks,
    Replace(Seq<char>, Seq<char>),
    Collapse,
    SpaceBeforePunct,
}

/// One stage of the cleaning pipeline.
pub enum Stage {
    /// `[text](target)` becomes `text` (nonempty text without `]`, target
    /// without `)`).
    StripLinks,
    /// `` `code` `` becomes `code` (nonempty, without a backtick inside).
    StripInlineCode,
    /// `[12, 34]`-style numeric citation markers become a single space.
    DropBracketCitations,
    /// `(12, 34)`-style numeric citation markers become a single space.
    DropParenCitations,
    /// Any `[...]` block (no `]` inside) becomes a single space.
    DropSquareBlocks,
    /// Any `{...}` block (no `}` inside) becomes a single space.
    DropCurlyBlocks,
    /// A literal, non-empty `from` becomes `to`.
    Replace { from: Vec<char>, to: Vec<char> },
    /// A run of horizontal whitespace becomes a single space.
    CollapseWhitespace,
    /// Whitespace immediately before sentence punctuation is removed.
    DropSpaceBeforePunct,
}

impl View for Stage {
    type V = SpecStage;

    open spec fn view(&self) -> SpecStage {
        match self {
            Stage::StripLinks => SpecStage::Links,
            Stage::StripInlineCode => SpecStage::InlineCode,
            Stage::DropBracketCitations => SpecStage::BracketCitations,
            Stage::DropParenCitations => SpecStage::ParenCitations,
            Stage::DropSquareBlocks => SpecStage::SquareBlocks,
            Stage::DropCurlyBlocks => SpecStage::CurlyBlocks,
            Stage::Replace { from, to } => SpecStage::Replace(from@, to@),
            Stage::CollapseWhitespace => SpecStage::Collapse,
            Stage::DropSpaceBeforePunct => SpecStage::SpaceBeforePunct,
        }
    }
}

/// The views of a sequence of executable stages.
pub open spec fn views_of(stages: Seq<Stage>) -> Seq<SpecStage> {
    stages.map_values(|st: Stage| st@)
}

/// Citation-body automaton. States: 0 expects whitespace or the first digit
/// of a group, 1 is inside a digit run, 2 is after a digit run and
/// whitespace, 3 is the dead state.
pub open spec fn cite_step(st: int, c: char) -> int {
    if st == 0 {
        if is_wsc(c) {
            0
        } else if is_digit(c) {
            1
        } else {
            3
        }
    } else if st == 1 {
        if is_digit(c) {
            1
        } else if is_wsc(c) {
            2
        } else if c == ',' {
            0
        } else {
            3
        }
    } else if st == 2 {
        if is_wsc(c) {
            2
        } else if c == ',' {
            0
        } else {
            3
        }
    } else {
        3
    }
}

/// State of the citation automaton after reading `s[i..hi]` from state `st`.
pub open spec fn cite_scan(s: Seq<char>, i: int, hi: int, st: int) -> int
    decreases hi - i,
    when i <= hi <= s.len()
{
    if i >= hi {
        st
    } else {
        cite_scan(s, i + 1, hi, cite_step(st, s[i]))
    }
}

/// Whether `s[lo..hi]` is a valid citation body: whitespace-separated groups
/// of decimal digits joined by commas, at least one group.
pub open spec fn cite_body_ok(s: Seq<char>, lo: int, hi: int) -> bool {
    cite_scan(s, lo, hi, 0) == 1 || cite_scan(s, lo, hi, 0) == 2
}

fn cite_body_check(v: &Vec<char>, lo: usize, hi: usize) -> (r: bool)
    requires
        lo <= hi <= v@.len(),
    ensures
        r == cite_body_ok(v@, lo as int, hi as int),
{
    let mut i: usize = lo;
    let mut st: u8 = 0;
    while i < hi
        invariant
            lo <= i <= hi <= v@.len(),
            st <= 3,
            cite_scan(v@, lo as int, hi as int, 0) == cite_scan(v@, i as int, hi as int, st as int),
        decreases hi - i,
    {
        let c = v[i];
        st = if st == 0 {
            if wsc(c) {
                0
            } else if digit(c) {
                1
            } else {
                3
            }
        } else if st == 1 {
            if digit(c) {
                1
            } else if wsc(c) {
                2
            } else if c == ',' {
                0
            } else {
                3
            }
        } else if st == 2 {
            if wsc(c) {
                2
            } else if c == ',' {
                0
            } else {
                3
            }
        } else {
            3
        };
        i = i + 1;
    }
    st == 1 || st == 2
}

/// What a stage does at position `i` of `s`: the position right after the
/// recognized pattern and the replacement text, or `(i, empty)` when the
/// stage does not match at `i`.
pub open spec fn stage_match(st: SpecStage, s: Seq<char>, i: int) -> (int, Seq<char>)
    recommends
        0 <= i < s.len(),
{
    match st {
        SpecStage::Links => {
            if s[i] == '[' {
                let j = find_char(s, i + 1, ']');
                if j < s.len() && j > i + 1 && j + 1 < s.len() && s[j + 1] == '(' {
                    let k = find_char(s, j + 2, ')');
                    if k < s.len() {
                        (k + 1, s.subrange(i + 1, j))
                    } else {
                        (i, Seq::<char>::empty())
                    }
                } else {
                    (i, Seq::<char>::empty())
                }
            } else {
                (i, Seq::<char>::empty())
            }
        },
        SpecStage::InlineCode => {
            if s[i] == '`' {
                let j = find_char(s, i + 1, '`');
                if j < s.len() && j > i + 1 {
                    (j + 1, s.subrange(i + 1, j))
                } else {
                    (i, Seq::<char>::empty())
                }
            } else {
                (i, Seq::<char>::empty())
            }
        },
        SpecStage::BracketCitations => {
            if s[i] == '[' {
                let j = find_char(s, i + 1, ']');
                if j < s.len() && cite_body_ok(s, i + 1, j) {
                    (j + 1, seq![' '])
                } else {
                    (i, Seq::<char>::empty())
                }
            } else {
                (i, Seq::<char>::empty())
            }
        },
        SpecStage::ParenCitations => {
            if s[i] == '(' {
                let j = find_char(s, i + 1, ')');
                if j < s.len() && cite_body_ok(s, i + 1, j) {
                    (j + 1, seq![' '])
                } else {
                    (i, Seq::<char>::empty())
                }
            } else {
                (i, Seq::<char>::empty())
            }
        },
        SpecStage::SquareBlocks => {
            if s[i] == '[' {
                let j = find_char(s, i + 1, ']');
                if j < s.len() {
                    (j + 1, seq![' '])
                } else {
                    (i, Seq::<char>::empty())
                }
            } else {
                (i, Seq::<char>::empty())
            }
        },
        SpecStage::CurlyBlocks => {
            if s[i] == '{' {
                let j = find_char(s, i + 1, '}');
                if j < s.len() {
                    (j + 1, seq![' '])
                } else {
                    (i, Seq::<char>::empty())
                }
            } else {
                (i, Seq::<char>::empty())
            }
        },
        SpecStage::Replace(from, to) => {
            if from.len() >= 1 && matches_at(s, from, i) {
                (i + from.len(), to)
            } else {
                (i, Seq::<char>::empty())
            }
        },
        SpecStage::Collapse => {
            if is_hws(s[i]) {
                (skip_hws(s, i), seq![' '])
            } else {
                (i, Seq::<char>::empty())
            }
        },
        SpecStage::SpaceBeforePunct => {
            if is_wsc(s[i]) {
                let j = skip_ws(s, i);
                if j < s.len() && is_punct(s[j]) {
                    (j, Seq::<char>::empty())
                } else {
                    (i, Seq::<char>::empty())
                }
            } else {
                (i, Seq::<char>::empty())
            }
        },
    }
}

/// A stage match either fails (`end == i`) or consumes at least one
/// character and stays within the text.
pub proof fn lemma_stage_match_bounds(st: SpecStage, s: Seq<char>, i: int)
    requires
        0 <= i < s.len(),
    ensures
        stage_match(st, s, i).0 == i || (i < stage_match(st, s, i).0 <= s.len()),
{
    match st {
        SpecStage::Links => {
            if s[i] == '[' {
                lemma_find_char(s, i + 1, ']');
                let j = find_char(s, i + 1, ']');
                if j < s.len() && j > i + 1 && j + 1 < s.len() && s[j + 1] == '(' {
                    lemma_find_char(s, j + 2, ')');
                }
            }
        },
        SpecStage::InlineCode => {
            if s[i] == '`' {
                lemma_find_char(s, i + 1, '`');
            }
        },
        SpecStage::BracketCitations => {
            if s[i] == '[' {
                lemma_find_char(s, i + 1, ']');
            }
        },
        SpecStage::ParenCitations => {
            if s[i] == '(' {
                lemma_find_char(s, i + 1, ')');
            }
        },
        SpecStage::SquareBlocks => {
            if s[i] == '[' {
                lemma_find_char(s, i + 1, ']');
            }
        },
        SpecStage::CurlyBlocks => {
            if s[i] == '{' {
                lemma_find_char(s, i + 1, '}');
            }
        },
        SpecStage::Replace(from, to) => {},
        SpecStage::Collapse => {
            if is_hws(s[i]) {
                lemma_skip_hws(s, i);
            }
        },
        SpecStage::SpaceBeforePunct => {
            if is_wsc(s[i]) {
                lemma_skip_ws(s, i);
            }
        },
    }
}

/// The rewrite of `s[i..]` under one stage.
pub open spec fn spec_rewrite_from(st: SpecStage, s: Seq<char>, i: int) -> Seq<char>
    decreases s.len() - i,
    when 0 <= i <= s.len()
{
    if i >= s.len() {
        Seq::<char>::empty()
    } else {
        let m = stage_match(st, s, i);
        if i < m.0 && m.0 <= s.len() {
            m.1 + spec_rewrite_from(st, s, m.0)
        } else {
            seq![s[i]] + spec_rewrite_from(st, s, i + 1)
        }
    }
}

/// The rewrite of `s` under one stage.
pub open spec fn spec_rewrite(st: SpecStage, s: Seq<char>) -> Seq<char> {
    spec_rewrite_from(st, s, 0)
}

/// A copy of `v[lo..hi]`.
pub fn slice_range(v: &Vec<char>, lo: usize, hi: usize) -> (r: Vec<char>)
    requires
        lo <= hi <= v@.len(),
    ensures
        r@ == v@.subrange(lo as int, hi as int),
{
    let mut r: Vec<char> = Vec::new();
    let mut i: usize = lo;
    while i < hi
        invariant
            lo <= i <= hi <= v@.len(),
            r@ == v@.subrange(lo as int, i as int),
        decreases hi - i,
    {
        r.push(v[i]);
        assert(r@ =~= v@.subrange(lo as int, i + 1));
        i = i + 1;
    }
    r
}

/// The match of `stage` at position `i`, as executable data: `None` when the
/// stage does not match there.
fn stage_match_in(stage: &Stage, v: &Vec<char>, i: usize) -> (r: Option<(usize, Vec<char>)>)
    requires
        i < v@.len(),
    ensures
        match r {
            Some(m) => {
                stage_match(stage@, v@, i as int).0 == m.0 as int && stage_match(
                    stage@,
                    v@,
                    i as int,
                ).1 == m.1@ && i < m.0 <= v@.len()
            },
            None => stage_match(stage@, v@, i as int).0 == i as int,
        },
{
    proof {
        lemma_stage_match_bounds(stage@, v@, i as int);
    }
    assert(i < v.len());
    match stage {
        Stage::StripLinks => {
            if v[i] == '[' {
                let j = find_char_in(v, i + 1, ']');
                if j < v.len() && j > i + 1 && j + 1 < v.len() && v[j + 1] == '(' {
                    let k = find_char_in(v, j + 2, ')');
                    if k < v.len() {
                        return Some((k + 1, slice_range(v, i + 1, j)));
                    }
                }
            }
            None
        },
        Stage::StripInlineCode => {
            if v[i] == '`' {
                let j = find_char_in(v, i + 1, '`');
                if j < v.len() && j > i + 1 {
                    return Some((j + 1, slice_range(v, i + 1, j)));
                }
            }
            None
        },
        Stage::DropBracketCitations => {
            if v[i] == '[' {
                let j = find_char_in(v, i + 1, ']');
                if j < v.len() && cite_body_check(v, i + 1, j) {
                    return Some((j + 1, vec![' ']));
                }
            }
            None
        },
        Stage::DropParenCitations => {
            if v[i] == '(' {
                let j = find_char_in(v, i + 1, ')');
                if j < v.len() && cite_body_check(v, i + 1, j) {
                    return Some((j + 1, vec![' ']));
                }
            }
            None
        },
        Stage::DropSquareBlocks => {
            if v[i] == '[' {
                let j = find_char_in(v, i + 1, ']');
                if j < v.len() {
                    return Some((j + 1, vec![' ']));
                }
            }
            None
        },
        Stage::DropCurlyBlocks => {
            if v[i] == '{' {
                let j = find_char_in(v, i + 1, '}');
                if j < v.len() {
                    return Some((j + 1, vec![' ']));
                }
            }
            None
        },
        Stage::Replace { from, to } => {
            if from.len() >= 1 && matches_at_in(v, from, i) {
                let mut repl: Vec<char> = Vec::new();
                let mut k: usize = 0;
                while k < to.len()
                    invariant
                        0 <= k <= to@.len(),
                        repl@ == to@.subrange(0, k as int),
                    decreases to@.len() - k,
                {
                    repl.push(to[k]);
                    assert(repl@ =~= to@.subrange(0, k + 1));
                    k = k + 1;
                }
                assert(repl@ =~= to@);
                return Some((i + from.len(), repl));
            }
            None
        },
        Stage::CollapseWhitespace => {
            if hws(v[i]) {
                let j = skip_hws_in(v, i);
                proof {
                    lemma_skip_hws(v@, i as int);
                }
                return Some((j, vec![' ']));
            }
            None
        },
        Stage::DropSpaceBeforePunct => {
            if wsc(v[i]) {
                let j = skip_ws_in(v, i);
                if j < v.len() && punct(v[j]) {
                    proof {
                        lemma_skip_ws(v@, i as int);
                    }
                    return Some((j, Vec::new()));
                }
            }
            None
        },
    }
}

/// Applies one cleaning stage to the whole text.
pub fn apply_stage(stage: &Stage, v: &Vec<char>) -> (r: Vec<char>)
    ensures
        r@ == spec_rewrite(stage@, v@),
{
    let mut out: Vec<char> = Vec::new();
    let mut i: usize = 0;
    while i < v.len()
        invariant
            0 <= i <= v@.len(),
            spec_rewrite(stage@, v@) == out@ + spec_rewrite_from(stage@, v@, i as int),
        decreases v@.len() - i,
    {
        let ghost pre = i as int;
        match stage_match_in(stage, v, i) {
            Some((end, mut repl)) => {
                let ghost replv = repl@;
                let ghost out_pre = out@;
                out.append(&mut repl);
                proof {
                    assert(spec_rewrite_from(stage@, v@, pre) == replv + spec_rewrite_from(
                        stage@,
                        v@,
                        end as int,
                    ));
                    assert(out@ + spec_rewrite_from(stage@, v@, end as int) =~= out_pre + (replv
                        + spec_rewrite_from(stage@, v@, end as int)));
                    assert(spec_rewrite(stage@, v@) == out@ + spec_rewrite_from(
                        stage@,
                        v@,
                        end as int,
                    ));
                }
                i = end;
            },
            None => {
                out.push(v[i]);
                proof {
                    assert(spec_rewrite_from(stage@, v@, pre) == seq![v@[pre]]
                        + spec_rewrite_from(stage@, v@, pre + 1));
                    assert(spec_rewrite(stage@, v@) == out@ + spec_rewrite_from(
                        stage@,
                        v@,
                        pre + 1,
                    ));
                }
                i = i + 1;
            },
        }
    }
    assert(spec_rewrite_from(stage@, v@, v@.len() as int) =~= Seq::<char>::empty());
    assert(out@ + Seq::<char>::empty() =~= out@);
    out
}

/// The text after every stage of `stages` has run, in order.
pub open spec fn spec_apply_all(stages: Seq<SpecStage>, s: Seq<char>) -> Seq<char>
    decreases stages.len(),
{
    if stages.len() == 0 {
        s
    } else {
        spec_apply_all(stages.drop_first(), spec_rewrite(stages[0], s))
    }
}

/// Applies every stage in order.
pub fn apply_all(stages: &Vec<Stage>, v: &Vec<char>) -> (r: Vec<char>)
    ensures
        r@ == spec_apply_all(views_of(stages@), v@),
{
    let mut cur: Vec<char> = slice_range(v, 0, v.len());
    assert(cur@ =~= v@);
    assert(views_of(stages@).skip(0) =~= views_of(stages@));
    let mut i: usize = 0;
    while i < stages.len()
        invariant
            0 <= i <= stages@.len(),
            spec_apply_all(views_of(stages@), v@) == spec_apply_all(
                views_of(stages@).skip(i as int),
                cur@,
            ),
        decreases stages@.len() - i,
    {
        let ghost pre = cur@;
        cur = apply_stage(&stages[i], &cur);
        proof {
            assert(views_of(stages@).skip(i as int).drop_first() =~= views_of(stages@).skip(
                i + 1,
            ));
            assert(views_of(stages@).skip(i as int)[0] == stages@[i as int]@);
            assert(spec_apply_all(views_of(stages@).skip(i as int), pre) == spec_apply_all(
                views_of(stages@).skip(i + 1),
                spec_rewrite(stages@[i as int]@, pre),
            ));
        }
        i = i + 1;
    }
    assert(views_of(stages@).skip(stages@.len() as int) =~= Seq::<SpecStage>::empty());
    cur
}

/// End of the text once trailing Unicode whitespace before `hi` is dropped.
pub open spec fn rskip_ws(s: Seq<char>, hi: int) -> int
    decreases hi,
    when 0 <= hi <= s.len()
{
    if hi <= 0 {
        0
    } else if is_wsc(s[hi - 1]) {
        rskip_ws(s, hi - 1)
    } else {
        hi
    }
}

/// The text without leading and trailing Unicode whitespace.
pub open spec fn spec_trim(s: Seq<char>) -> Seq<char> {
    let a = skip_ws(s, 0);
    let b = rskip_ws(s, s.len() as int);
    if a < b {
        s.subrange(a, b)
    } else {
        Seq::<char>::empty()
    }
}

/// Removes leading and trailing Unicode whitespace.
pub fn trim_in(v: &Vec<char>) -> (r: Vec<char>)
    ensures
        r@ == spec_trim(v@),
{
    let a = skip_ws_in(v, 0);
    let mut b: usize = v.len();
    while b > 0 && wsc(v[b - 1])
        invariant
            0 <= b <= v@.len(),
            rskip_ws(v@, v@.len() as int) == rskip_ws(v@, b as int),
        decreases b,
    {
        b = b - 1;
    }
    if a < b {
        slice_range(v, a, b)
    } else {
        Vec::new()
    }
}

} // verus!
