//! Text normalizer: maps a page's raw display sentences to a cleaned,
//! speakable sentence set, preserving a bidirectional index mapping.
//!
//! Cleaning runs an ordered pipeline of toggleable transforms either over the
//! whole page at once (joined with an internal marker and re-split) or per
//! sentence. If a page-mode transform disturbs the marker so that the
//! re-split count no longer matches the input count, the normalizer falls
//! back to per-sentence cleaning rather than misaligning indices.

use vstd::prelude::*;
use vstd::string::StrSliceExecFns;
use crate::chars::{alphanum, chars_of, find_sub, find_sub_in, is_alphanum, string_of};
use crate::transform::{
    apply_all, slice_range, spec_apply_all, spec_trim, trim_in, views_of, SpecStage, Stage,
};

verus! {

/// Whether the cleaning pipeline sees the whole page at once or each
/// sentence independently.
#[derive(Clone, Copy, PartialEq, Eq, Structural)]
pub enum NormalizationMode {
    Page,
    Sentence,
}

/// Configuration of the text normalizer. Every stage toggles independently;
/// `replacements` is a table of literal substitutions applied longest-first;
/// `drop_tokens` are literals replaced by a space.
pub struct NormalizerConfig {
    pub enabled: bool,
    pub mode: NormalizationMode,
    pub collapse_whitespace: bool,
    pub remove_space_before_punctuation: bool,
    pub strip_inline_code: bool,
    pub strip_markdown_links: bool,
    pub drop_numeric_bracket_citations: bool,
    pub drop_parenthetical_numeric_citations: bool,
    pub drop_square_bracket_text: bool,
    pub drop_curly_brace_text: bool,
    pub min_sentence_chars: usize,
    pub require_alphanumeric: bool,
    pub replacements: Vec<(String, String)>,
    pub drop_tokens: Vec<String>,
}

/// The replacement table as character sequences.
pub open spec fn rep_views(reps: Seq<(String, String)>) -> Seq<(Seq<char>, Seq<char>)> {
    reps.map_values(|r: (String, String)| (r.0@, r.1@))
}

/// Inserts a replacement behind every entry whose pattern is at least as
/// long, so that sorting stays stable.
pub open spec fn rep_insert(
    x: (Seq<char>, Seq<char>),
    s: Seq<(Seq<char>, Seq<char>)>,
) -> Seq<(Seq<char>, Seq<char>)>
    decreases s.len(),
{
    if s.len() == 0 {
        seq![x]
    } else if s[0].0.len() >= x.0.len() {
        seq![s[0]] + rep_insert(x, s.drop_first())
    } else {
        seq![x] + s
    }
}

/// The replacement table ordered by pattern length, longest first, entries
/// of equal length keeping their original order.
pub open spec fn rep_sort(s: Seq<(Seq<char>, Seq<char>)>) -> Seq<(Seq<char>, Seq<char>)>
    decreases s.len(),
{
    if s.len() == 0 {
        Seq::<(Seq<char>, Seq<char>)>::empty()
    } else {
        rep_insert(s.last(), rep_sort(s.drop_last()))
    }
}

proof fn lemma_rep_insert_at(x: (Seq<char>, Seq<char>), s: Seq<(Seq<char>, Seq<char>)>, p: int)
    requires
        0 <= p <= s.len(),
        forall|k: int| 0 <= k < p ==> s[k].0.len() >= x.0.len(),
        p < s.len() ==> s[p].0.len() < x.0.len(),
    ensures
        rep_insert(x, s) =~= s.insert(p, x),
    decreases p,
{
    if s.len() == 0 {
        assert(rep_insert(x, s) =~= s.insert(0, x));
    } else if p == 0 {
        if s[0].0.len() >= x.0.len() {
            assert(false);
        }
        assert(rep_insert(x, s) =~= s.insert(0, x));
    } else {
        lemma_rep_insert_at(x, s.drop_first(), p - 1);
        assert(rep_insert(x, s) == seq![s[0]] + rep_insert(x, s.drop_first()));
        assert(rep_insert(x, s) =~= s.insert(p, x));
    }
}

/// Length in characters of a string.
fn char_len(s: &String) -> (r: usize)
    ensures
        r == s@.len(),
{
    s.as_str().unicode_len()
}

/// Orders the replacement table longest pattern first; entries with patterns
/// of equal length keep their original relative order.
fn sort_replacements(reps: &Vec<(String, String)>) -> (r: Vec<(String, String)>)
    ensures
        rep_views(r@) == rep_sort(rep_views(reps@)),
{
    let mut out: Vec<(String, String)> = Vec::new();
    assert(rep_views(reps@).take(0) =~= Seq::<(Seq<char>, Seq<char>)>::empty());
    assert(rep_views(out@) =~= rep_sort(rep_views(reps@).take(0)));
    let mut j: usize = 0;
    while j < reps.len()
        invariant
            0 <= j <= reps@.len(),
            rep_views(out@) == rep_sort(rep_views(reps@).take(j as int)),
        decreases reps@.len() - j,
    {
        let x = (reps[j].0.clone(), reps[j].1.clone());
        let xlen = char_len(&x.0);
        let ghost xv = (x.0@, x.1@);
        let ghost outv = rep_views(out@);
        let mut p: usize = 0;
        while p < out.len() && char_len(&out[p].0) >= xlen
            invariant
                0 <= p <= out@.len(),
                xlen == xv.0.len(),
                outv == rep_views(out@),
                forall|k: int| 0 <= k < p ==> rep_views(out@)[k].0.len() >= xv.0.len(),
            decreases out@.len() - p,
        {
            p = p + 1;
        }
        out.insert(p, x);
        proof {
            lemma_rep_insert_at(xv, outv, p as int);
            assert(rep_views(out@) =~= outv.insert(p as int, xv));
            assert(rep_views(reps@).take(j + 1).drop_last() =~= rep_views(reps@).take(j as int));
            assert(rep_views(reps@).take(j + 1).last() == xv);
            assert(rep_views(out@) == rep_sort(rep_views(reps@).take(j + 1)));
        }
        j = j + 1;
    }
    assert(rep_views(reps@).take(reps@.len() as int) =~= rep_views(reps@));
    out
}

/// The replacement stages of an ordered table.
pub open spec fn rep_stages(rs: Seq<(Seq<char>, Seq<char>)>) -> Seq<SpecStage> {
    rs.map_values(|x: (Seq<char>, Seq<char>)| SpecStage::Replace(x.0, x.1))
}

/// The drop-token stages: each token is replaced by a single space.
pub open spec fn tok_stages(ts: Seq<String>) -> Seq<SpecStage> {
    ts.map_values(|t: String| SpecStage::Replace(t@, seq![' ']))
}

/// The cleaning pipeline of a configuration, in application order.
pub open spec fn spec_stages(cfg: NormalizerConfig) -> Seq<SpecStage> {
    let s0 = Seq::<SpecStage>::empty();
    let s1 = if cfg.strip_markdown_links {
        s0.push(SpecStage::Links)
    } else {
        s0
    };
    let s2 = if cfg.strip_inline_code {
        s1.push(SpecStage::InlineCode)
    } else {
        s1
    };
    let s3 = if cfg.drop_numeric_bracket_citations {
        s2.push(SpecStage::BracketCitations)
    } else {
        s2
    };
    let s4 = if cfg.drop_parenthetical_numeric_citations {
        s3.push(SpecStage::ParenCitations)
    } else {
        s3
    };
    let s5 = if cfg.drop_square_bracket_text {
        s4.push(SpecStage::SquareBlocks)
    } else {
        s4
    };
    let s6 = if cfg.drop_curly_brace_text {
        s5.push(SpecStage::CurlyBlocks)
    } else {
        s5
    };
    let s7 = s6 + rep_stages(rep_sort(rep_views(cfg.replacements@)));
    let s8 = s7 + tok_stages(cfg.drop_tokens@);
    let s9 = if cfg.collapse_whitespace {
        s8.push(SpecStage::Collapse)
    } else {
        s8
    };
    if cfg.remove_space_before_punctuation {
        s9.push(SpecStage::SpaceBeforePunct)
    } else {
        s9
    }
}

/// Builds the executable pipeline of a configuration.
#[verifier::rlimit(50)]
fn stages_of(cfg: &NormalizerConfig) -> (r: Vec<Stage>)
    ensures
        views_of(r@) == spec_stages(*cfg),
{
    let mut out: Vec<Stage> = Vec::new();
    if cfg.strip_markdown_links {
        out.push(Stage::StripLinks);
    }
    if cfg.strip_inline_code {
        out.push(Stage::StripInlineCode);
    }
    if cfg.drop_numeric_bracket_citations {
        out.push(Stage::DropBracketCitations);
    }
    if cfg.drop_parenthetical_numeric_citations {
        out.push(Stage::DropParenCitations);
    }
    if cfg.drop_square_bracket_text {
        out.push(Stage::DropSquareBlocks);
    }
    if cfg.drop_curly_brace_text {
        out.push(Stage::DropCurlyBlocks);
    }
    let ghost s6 = views_of(out@);
    assert(s6 =~= {
        let s0 = Seq::<SpecStage>::empty();
        let s1 = if cfg.strip_markdown_links {
            s0.push(SpecStage::Links)
        } else {
            s0
        };
        let s2 = if cfg.strip_inline_code {
            s1.push(SpecStage::InlineCode)
        } else {
            s1
        };
        let s3 = if cfg.drop_numeric_bracket_citations {
            s2.push(SpecStage::BracketCitations)
        } else {
            s2
        };
        let s4 = if cfg.drop_parenthetical_numeric_citations {
            s3.push(SpecStage::ParenCitations)
        } else {
            s3
        };
        let s5 = if cfg.drop_square_bracket_text {
            s4.push(SpecStage::SquareBlocks)
        } else {
            s4
        };
        if cfg.drop_curly_brace_text {
            s5.push(SpecStage::CurlyBlocks)
        } else {
            s5
        }
    });
    let sorted = sort_replacements(&cfg.replacements);
    let ghost sortedv = rep_sort(rep_views(cfg.replacements@));
    let mut i: usize = 0;
    while i < sorted.len()
        invariant
            0 <= i <= sorted@.len(),
            rep_views(sorted@) == sortedv,
            views_of(out@) == s6 + rep_stages(sortedv.take(i as int)),
        decreases sorted@.len() - i,
    {
        let from = chars_of(sorted[i].0.as_str());
        let to = chars_of(sorted[i].1.as_str());
        out.push(Stage::Replace { from, to });
        proof {
            assert(rep_views(sorted@)[i as int] == (sorted@[i as int].0@, sorted@[i as int].1@));
            assert(rep_stages(sortedv.take(i + 1)) =~= rep_stages(sortedv.take(i as int)).push(
                SpecStage::Replace(sortedv[i as int].0, sortedv[i as int].1),
            ));
            assert(views_of(out@) =~= (s6 + rep_stages(sortedv.take(i as int))).push(
                SpecStage::Replace(sortedv[i as int].0, sortedv[i as int].1),
            ));
            assert((s6 + rep_stages(sortedv.take(i as int))).push(
                SpecStage::Replace(sortedv[i as int].0, sortedv[i as int].1),
            ) =~= s6 + rep_stages(sortedv.take(i + 1)));
        }
        i = i + 1;
    }
    assert(sortedv.take(sortedv.len() as int) =~= sortedv);
    let ghost s7 = s6 + rep_stages(sortedv);
    assert(views_of(out@) == s7);
    let mut k: usize = 0;
    while k < cfg.drop_tokens.len()
        invariant
            0 <= k <= cfg.drop_tokens@.len(),
            views_of(out@) == s7 + tok_stages(cfg.drop_tokens@.take(k as int)),
        decreases cfg.drop_tokens@.len() - k,
    {
        let from = chars_of(cfg.drop_tokens[k].as_str());
        let mut to: Vec<char> = Vec::new();
        to.push(' ');
        assert(to@ =~= seq![' ']);
        out.push(Stage::Replace { from, to });
        proof {
            assert(tok_stages(cfg.drop_tokens@.take(k + 1)) =~= tok_stages(
                cfg.drop_tokens@.take(k as int),
            ).push(SpecStage::Replace(cfg.drop_tokens@[k as int]@, seq![' '])));
            assert(views_of(out@) =~= (s7 + tok_stages(cfg.drop_tokens@.take(k as int))).push(
                SpecStage::Replace(cfg.drop_tokens@[k as int]@, seq![' ']),
            ));
            assert((s7 + tok_stages(cfg.drop_tokens@.take(k as int))).push(
                SpecStage::Replace(cfg.drop_tokens@[k as int]@, seq![' ']),
            ) =~= s7 + tok_stages(cfg.drop_tokens@.take(k + 1)));
        }
        k = k + 1;
    }
    assert(cfg.drop_tokens@.take(cfg.drop_tokens@.len() as int) =~= cfg.drop_tokens@);
    if cfg.collapse_whitespace {
        out.push(Stage::CollapseWhitespace);
        assert(views_of(out@) =~= (s7 + tok_stages(cfg.drop_tokens@)).push(SpecStage::Collapse));
    }
    if cfg.remove_space_before_punctuation {
        let ghost s9 = views_of(out@);
        out.push(Stage::DropSpaceBeforePunct);
        assert(views_of(out@) =~= s9.push(SpecStage::SpaceBeforePunct));
    }
    assert(views_of(out@) =~= spec_stages(*cfg));
    out
}

/// The text after the whole cleaning pipeline and a final trim.
pub open spec fn spec_clean(cfg: NormalizerConfig, s: Seq<char>) -> Seq<char> {
    spec_trim(spec_apply_all(spec_stages(cfg), s))
}

/// The text normalizer; all behaviour is determined by its configuration.
pub struct TextNormalizer {
    pub config: NormalizerConfig,
}

impl TextNormalizer {
    /// A normalizer with the given configuration.
    pub fn new(config: NormalizerConfig) -> (r: TextNormalizer)
        ensures
            r.config == config,
    {
        TextNormalizer { config }
    }

    /// Runs the cleaning pipeline over one piece of text and trims the
    /// result.
    pub fn clean_text_core(&self, input: &str) -> (r: String)
        ensures
            r@ == spec_clean(self.config, input@),
    {
        let v = chars_of(input);
        let stages = stages_of(&self.config);
        let cleaned = apply_all(&stages, &v);
        let trimmed = trim_in(&cleaned);
        string_of(&trimmed)
    }
}

/// The caller-invisible marker used to join and re-split a page's sentences
/// in page mode.
pub open spec fn marker() -> Seq<char> {
    "\n<<__SENTENCE_BOUNDARY__>>\n"@
}

pub proof fn lemma_marker_len()
    ensures
        marker().len() == 27,
{
    reveal_strlit("\n<<__SENTENCE_BOUNDARY__>>\n");
}

fn marker_chars() -> (r: Vec<char>)
    ensures
        r@ == marker(),
        r@.len() == 27,
{
    proof {
        lemma_marker_len();
    }
    chars_of("\n<<__SENTENCE_BOUNDARY__>>\n")
}

/// The views of a sequence of character vectors.
pub open spec fn views2(v: Seq<Vec<char>>) -> Seq<Seq<char>> {
    v.map_values(|x: Vec<char>| x@)
}

/// The sentences joined with the marker between neighbours.
pub open spec fn spec_join(ds: Seq<Seq<char>>) -> Seq<char>
    decreases ds.len(),
{
    if ds.len() == 0 {
        Seq::<char>::empty()
    } else if ds.len() == 1 {
        ds[0]
    } else {
        ds[0] + marker() + spec_join(ds.drop_first())
    }
}

proof fn lemma_join_push(ds: Seq<Seq<char>>, x: Seq<char>)
    ensures
        ds.len() == 0 ==> spec_join(ds.push(x)) == x,
        ds.len() > 0 ==> spec_join(ds.push(x)) == spec_join(ds) + marker() + x,
    decreases ds.len(),
{
    if ds.len() == 0 {
        assert(spec_join(ds.push(x)) == ds.push(x)[0]);
        assert(ds.push(x)[0] == x);
    } else if ds.len() == 1 {
        assert(ds.push(x).drop_first() =~= seq![x]);
        assert(spec_join(seq![x]) == seq![x][0]);
        assert(seq![x][0] == x);
        assert(ds.push(x)[0] == ds[0]);
        assert(spec_join(ds.push(x)) == ds[0] + marker() + x);
    } else {
        lemma_join_push(ds.drop_first(), x);
        assert(ds.push(x).drop_first() =~= ds.drop_first().push(x));
        assert(spec_join(ds.push(x)) == ds[0] + marker() + spec_join(ds.drop_first().push(x)));
        assert(ds[0] + marker() + (spec_join(ds.drop_first()) + marker() + x) =~= (ds[0] + marker()
            + spec_join(ds.drop_first())) + marker() + x);
    }
}

fn join_marker(sv: &Vec<Vec<char>>) -> (r: Vec<char>)
    ensures
        r@ == spec_join(views2(sv@)),
{
    let mut out: Vec<char> = Vec::new();
    assert(views2(sv@).take(0) =~= Seq::<Seq<char>>::empty());
    let mut i: usize = 0;
    while i < sv.len()
        invariant
            0 <= i <= sv@.len(),
            out@ == spec_join(views2(sv@).take(i as int)),
        decreases sv@.len() - i,
    {
        let ghost pre = out@;
        if i > 0 {
            let mut m = marker_chars();
            out.append(&mut m);
        }
        let mut piece = slice_range(&sv[i], 0, sv[i].len());
        assert(piece@ =~= sv@[i as int]@);
        out.append(&mut piece);
        proof {
            lemma_join_push(views2(sv@).take(i as int), sv@[i as int]@);
            assert(views2(sv@).take(i + 1) =~= views2(sv@).take(i as int).push(sv@[i as int]@));
            assert(views2(sv@).take(i + 1).drop_last() =~= views2(sv@).take(i as int));
            if i > 0 {
                assert(out@ == pre + marker() + sv@[i as int]@);
            } else {
                assert(out@ =~= sv@[0]@);
            }
        }
        i = i + 1;
    }
    assert(views2(sv@).take(sv@.len() as int) =~= views2(sv@));
    out
}

/// The pieces of `s` between non-overlapping occurrences of the marker, in
/// order; `s` itself when the marker does not occur.
pub open spec fn spec_split(s: Seq<char>) -> Seq<Seq<char>>
    decreases s.len(),
    via spec_split_decreases
{
    let j = find_sub(s, marker(), 0);
    if j == s.len() {
        seq![s]
    } else {
        seq![s.subrange(0, j)] + spec_split(s.subrange(j + marker().len(), s.len() as int))
    }
}

#[via_fn]
proof fn spec_split_decreases(s: Seq<char>) {
    lemma_marker_len();
    crate::chars::lemma_find_sub(s, marker(), 0);
}

fn split_marker(v: &Vec<char>) -> (r: Vec<Vec<char>>)
    ensures
        views2(r@) == spec_split(v@),
    decreases v@.len(),
{
    proof {
        lemma_marker_len();
        crate::chars::lemma_find_sub(v@, marker(), 0);
    }
    let m = marker_chars();
    let j = find_sub_in(v, &m, 0);
    if j == v.len() {
        let piece = slice_range(v, 0, v.len());
        assert(piece@ =~= v@);
        let mut r: Vec<Vec<char>> = Vec::new();
        r.push(piece);
        assert(views2(r@) =~= seq![v@]);
        r
    } else {
        let head = slice_range(v, 0, j);
        let tail = slice_range(v, j + m.len(), v.len());
        let mut rest = split_marker(&tail);
        let ghost restv = views2(rest@);
        let mut r: Vec<Vec<char>> = Vec::new();
        r.push(head);
        r.append(&mut rest);
        assert(views2(r@) =~= seq![v@.subrange(0, j as int)] + restv);
        r
    }
}

/// Each sentence cleaned independently.
pub open spec fn spec_clean_each(cfg: NormalizerConfig, ds: Seq<Seq<char>>) -> Seq<Seq<char>> {
    ds.map_values(|s: Seq<char>| spec_clean(cfg, s))
}

/// Page-mode cleaning: the sentences are joined with the marker, cleaned as
/// one text, and re-split. If a transform disturbed the markers so that the
/// piece count changed, every sentence is cleaned independently instead, so
/// the result always has one entry per input sentence.
pub open spec fn spec_page_clean(cfg: NormalizerConfig, ds: Seq<Seq<char>>) -> Seq<Seq<char>> {
    let parts = spec_split(spec_clean(cfg, spec_join(ds)));
    if parts.len() == ds.len() {
        parts
    } else {
        spec_clean_each(cfg, ds)
    }
}

/// Runs the whole cleaning pipeline over one character sequence.
fn clean_chars(cfg: &NormalizerConfig, v: &Vec<char>) -> (r: Vec<char>)
    ensures
        r@ == spec_clean(*cfg, v@),
{
    let stages = stages_of(cfg);
    let cleaned = apply_all(&stages, v);
    trim_in(&cleaned)
}

/// Each sentence of `sv` cleaned independently.
fn clean_each(cfg: &NormalizerConfig, sv: &Vec<Vec<char>>) -> (r: Vec<Vec<char>>)
    ensures
        views2(r@) == spec_clean_each(*cfg, views2(sv@)),
{
    let mut r: Vec<Vec<char>> = Vec::new();
    assert(views2(r@) =~= spec_clean_each(*cfg, views2(sv@)).take(0));
    let mut i: usize = 0;
    while i < sv.len()
        invariant
            0 <= i <= sv@.len(),
            views2(r@) == spec_clean_each(*cfg, views2(sv@)).take(i as int),
        decreases sv@.len() - i,
    {
        let ghost oldr = r@;
        r.push(clean_chars(cfg, &sv[i]));
        proof {
            let full = spec_clean_each(*cfg, views2(sv@));
            assert(full.len() == sv@.len());
            assert(views2(oldr).len() == oldr.len());
            assert(views2(oldr).len() == full.take(i as int).len());
            assert(oldr.len() == i);
            assert(r@.len() == i + 1);
            assert(i < sv@.len());
            assert forall|k: int| 0 <= k < r@.len() implies views2(r@)[k] == full.take(i + 1)[k] by {
                assert(views2(r@)[k] == r@[k]@);
                assert(full[k] == spec_clean(*cfg, views2(sv@)[k]));
                assert(views2(sv@)[k] == sv@[k]@);
                if k < i {
                    assert(r@[k] == oldr[k]);
                    assert(views2(oldr)[k] == oldr[k]@);
                }
            }
            assert(views2(r@) =~= full.take(i + 1));
        }
        i = i + 1;
    }
    assert(spec_clean_each(*cfg, views2(sv@)).take(sv@.len() as int) =~= spec_clean_each(
        *cfg,
        views2(sv@),
    ));
    r
}

/// Page-mode cleaning at the character level.
fn page_clean_chars(cfg: &NormalizerConfig, cv: &Vec<Vec<char>>) -> (r: Vec<Vec<char>>)
    ensures
        views2(r@) == spec_page_clean(*cfg, views2(cv@)),
        r@.len() == cv@.len(),
{
    let ghost ds = views2(cv@);
    let joined = join_marker(cv);
    let cleaned = clean_chars(cfg, &joined);
    let parts = split_marker(&cleaned);
    proof {
        assert(views2(parts@).len() == parts@.len());
        assert(ds.len() == cv@.len());
    }
    if parts.len() == cv.len() {
        parts
    } else {
        let r = clean_each(cfg, cv);
        proof {
            assert(spec_clean_each(*cfg, ds).len() == ds.len());
            assert(views2(r@).len() == r@.len());
        }
        r
    }
}

/// The sentences as character vectors.
fn to_char_vecs(ds: &Vec<String>) -> (r: Vec<Vec<char>>)
    ensures
        views2(r@) == ds.deep_view(),
        r@.len() == ds@.len(),
{
    let mut r: Vec<Vec<char>> = Vec::new();
    let mut i: usize = 0;
    while i < ds.len()
        invariant
            0 <= i <= ds@.len(),
            r@.len() == i,
            forall|k: int| 0 <= k < i ==> #[trigger] r@[k]@ == ds@[k]@,
        decreases ds@.len() - i,
    {
        r.push(chars_of(ds[i].as_str()));
        i = i + 1;
    }
    proof {
        assert forall|k: int| 0 <= k < r@.len() implies views2(r@)[k] == ds.deep_view()[k] by {
            assert(views2(r@)[k] == r@[k]@);
            assert(ds.deep_view()[k] == ds@[k]@);
        }
        assert(views2(r@) =~= ds.deep_view());
    }
    r
}

/// The character vectors as strings.
fn to_strings(sv: &Vec<Vec<char>>) -> (r: Vec<String>)
    ensures
        r.deep_view() == views2(sv@),
        r@.len() == sv@.len(),
{
    let mut r: Vec<String> = Vec::new();
    let mut i: usize = 0;
    while i < sv.len()
        invariant
            0 <= i <= sv@.len(),
            r@.len() == i,
            forall|k: int| 0 <= k < i ==> #[trigger] r@[k]@ == sv@[k]@,
        decreases sv@.len() - i,
    {
        r.push(string_of(&sv[i]));
        i = i + 1;
    }
    proof {
        assert forall|k: int| 0 <= k < r@.len() implies r.deep_view()[k] == views2(sv@)[k] by {
            assert(r.deep_view()[k] == r@[k]@);
            assert(views2(sv@)[k] == sv@[k]@);
        }
        assert(r.deep_view() =~= views2(sv@));
    }
    r
}

/// The smallest character count a sentence must keep to survive.
pub open spec fn spec_min_len(cfg: NormalizerConfig) -> int {
    if cfg.min_sentence_chars < 1 {
        1
    } else {
        cfg.min_sentence_chars as int
    }
}

/// Whether the text holds at least one alphanumeric character.
pub open spec fn has_alphanum(t: Seq<char>) -> bool {
    exists|k: int| 0 <= k < t.len() && is_alphanum(t[k])
}

/// What becomes of one cleaned sentence: trimmed, then dropped when empty,
/// when it holds no alphanumeric character (if that rule is on), or when it
/// is shorter than the configured minimum.
pub open spec fn spec_finalize(cfg: NormalizerConfig, s: Seq<char>) -> Option<Seq<char>> {
    let t = spec_trim(s);
    if t.len() == 0 {
        Option::<Seq<char>>::None
    } else if cfg.require_alphanumeric && !has_alphanum(t) {
        Option::<Seq<char>>::None
    } else if t.len() < spec_min_len(cfg) {
        Option::<Seq<char>>::None
    } else {
        Option::Some(t)
    }
}

fn has_alphanum_in(v: &Vec<char>) -> (r: bool)
    ensures
        r == has_alphanum(v@),
{
    let mut k: usize = 0;
    while k < v.len()
        invariant
            0 <= k <= v@.len(),
            forall|m: int| 0 <= m < k ==> !is_alphanum(v@[m]),
        decreases v@.len() - k,
    {
        if alphanum(v[k]) {
            assert(is_alphanum(v@[k as int]));
            return true;
        }
        k = k + 1;
    }
    false
}

fn finalize_chars(cfg: &NormalizerConfig, v: &Vec<char>) -> (r: Option<Vec<char>>)
    ensures
        match r {
            Some(t) => spec_finalize(*cfg, v@) == Option::Some(t@),
            None => spec_finalize(*cfg, v@) is None,
        },
{
    let t = trim_in(v);
    if t.len() == 0 {
        return None;
    }
    if cfg.require_alphanumeric && !has_alphanum_in(&t) {
        return None;
    }
    let minl: usize = if cfg.min_sentence_chars < 1 {
        1
    } else {
        cfg.min_sentence_chars
    };
    if t.len() < minl {
        return None;
    }
    Some(t)
}

/// Whether a cleaned sentence survives finalization.
pub open spec fn survives(cfg: NormalizerConfig, s: Seq<char>) -> bool {
    spec_finalize(cfg, s) is Some
}

/// How many of the first `d` cleaned sentences survive.
pub open spec fn nsurv(cfg: NormalizerConfig, cl: Seq<Seq<char>>, d: int) -> int
    decreases d,
    when 0 <= d
{
    if d <= 0 {
        0
    } else {
        nsurv(cfg, cl, d - 1) + if survives(cfg, cl[d - 1]) {
            1int
        } else {
            0int
        }
    }
}

/// The audio sentences drawn from the first `d` cleaned sentences, in order.
pub open spec fn audio_of(cfg: NormalizerConfig, cl: Seq<Seq<char>>, d: int) -> Seq<Seq<char>>
    decreases d,
    when 0 <= d
{
    if d <= 0 {
        Seq::<Seq<char>>::empty()
    } else {
        let pre = audio_of(cfg, cl, d - 1);
        if survives(cfg, cl[d - 1]) {
            pre.push(spec_finalize(cfg, cl[d - 1])->0)
        } else {
            pre
        }
    }
}

/// The display indices of the surviving sentences among the first `d`, in
/// order.
pub open spec fn a2d_of(cfg: NormalizerConfig, cl: Seq<Seq<char>>, d: int) -> Seq<int>
    decreases d,
    when 0 <= d
{
    if d <= 0 {
        Seq::<int>::empty()
    } else {
        let pre = a2d_of(cfg, cl, d - 1);
        if survives(cfg, cl[d - 1]) {
            pre.push(d - 1)
        } else {
            pre
        }
    }
}

/// The audio index of display sentence `d`, or `None` when it was dropped.
pub open spec fn d2a_at(cfg: NormalizerConfig, cl: Seq<Seq<char>>, d: int) -> Option<int> {
    if survives(cfg, cl[d]) {
        Option::Some(nsurv(cfg, cl, d))
    } else {
        Option::<int>::None
    }
}

/// The cleaned sentences of a page under the configured mode.
pub open spec fn spec_cleaned(cfg: NormalizerConfig, ds: Seq<Seq<char>>) -> Seq<Seq<char>> {
    if cfg.mode is Sentence {
        spec_clean_each(cfg, ds)
    } else {
        spec_page_clean(cfg, ds)
    }
}

/// The full plan of a page: audio sentences, display-to-audio map, and
/// audio-to-display map.
pub open spec fn spec_plan(cfg: NormalizerConfig, ds: Seq<Seq<char>>) -> (
    Seq<Seq<char>>,
    Seq<Option<int>>,
    Seq<int>,
) {
    if ds.len() == 0 {
        (Seq::<Seq<char>>::empty(), Seq::<Option<int>>::empty(), Seq::<int>::empty())
    } else if !cfg.enabled {
        (ds, Seq::new(ds.len(), |d: int| Option::Some(d)), Seq::new(ds.len(), |d: int| d))
    } else {
        let cl = spec_cleaned(cfg, ds);
        (
            audio_of(cfg, cl, cl.len() as int),
            Seq::new(cl.len(), |d: int| d2a_at(cfg, cl, d)),
            a2d_of(cfg, cl, cl.len() as int),
        )
    }
}

/// The audio-sentence views of a string vector.
pub open spec fn strs_view(v: Seq<String>) -> Seq<Seq<char>> {
    v.map_values(|s: String| s@)
}

/// The index options as mathematical integers.
pub open spec fn opts_view(v: Seq<Option<usize>>) -> Seq<Option<int>> {
    v.map_values(
        |o: Option<usize>|
            match o {
                Option::Some(x) => Option::Some(x as int),
                Option::None => Option::<int>::None,
            },
    )
}

/// The indices as mathematical integers.
pub open spec fn idxs_view(v: Seq<usize>) -> Seq<int> {
    v.map_values(|x: usize| x as int)
}

/// The maps built from the cleaned sentences are mutual inverses restricted
/// to surviving indices; the audio list has exactly one entry per survivor.
pub proof fn lemma_plan_maps(cfg: NormalizerConfig, cl: Seq<Seq<char>>, d: int)
    requires
        0 <= d <= cl.len(),
    ensures
        a2d_of(cfg, cl, d).len() == nsurv(cfg, cl, d),
        audio_of(cfg, cl, d).len() == nsurv(cfg, cl, d),
        0 <= nsurv(cfg, cl, d) <= d,
        forall|j: int|
            0 <= j < a2d_of(cfg, cl, d).len() ==> 0 <= #[trigger] a2d_of(cfg, cl, d)[j] < d
                && survives(cfg, cl[a2d_of(cfg, cl, d)[j]]) && nsurv(
                cfg,
                cl,
                a2d_of(cfg, cl, d)[j],
            ) == j && audio_of(cfg, cl, d)[j] == spec_finalize(cfg, cl[a2d_of(cfg, cl, d)[j]])->0,
        forall|dd: int|
            0 <= dd < d && survives(cfg, cl[dd]) ==> 0 <= #[trigger] nsurv(cfg, cl, dd) < a2d_of(
                cfg,
                cl,
                d,
            ).len() && a2d_of(cfg, cl, d)[nsurv(cfg, cl, dd)] == dd,
    decreases d,
{
    if d > 0 {
        lemma_plan_maps(cfg, cl, d - 1);
    }
}

/// A page's normalization: the speakable sentences and the index maps
/// between display sentences and audio sentences.
pub struct PageNormalization {
    pub audio_sentences: Vec<String>,
    pub display_to_audio: Vec<Option<usize>>,
    pub audio_to_display: Vec<usize>,
}

impl TextNormalizer {
    /// Cleans every sentence of a page in page mode: the sentences are
    /// joined with an internal marker, cleaned as one text and re-split. If
    /// a transform disturbed the marker count, every sentence is cleaned
    /// independently instead, so the result always holds exactly one cleaned
    /// sentence per input sentence.
    pub fn normalize_page_mode(&self, display_sentences: &Vec<String>) -> (r: Vec<String>)
        ensures
            r.deep_view() == spec_page_clean(self.config, display_sentences.deep_view()),
            r@.len() == display_sentences@.len(),
    {
        let cv = to_char_vecs(display_sentences);
        let parts = page_clean_chars(&self.config, &cv);
        to_strings(&parts)
    }

    /// Finalizes one cleaned sentence: trims it and drops it when empty,
    /// when it has no alphanumeric character (if required), or when it is
    /// shorter than the configured minimum.
    pub fn finalize_sentence(&self, sentence: &str) -> (r: Option<String>)
        ensures
            match r {
                Some(t) => spec_finalize(self.config, sentence@) == Option::Some(t@),
                None => spec_finalize(self.config, sentence@) is None,
            },
    {
        let v = chars_of(sentence);
        match finalize_chars(&self.config, &v) {
            Some(t) => Some(string_of(&t)),
            None => None,
        }
    }

    /// Builds the normalization plan of a page.
    ///
    /// The plan is a pure function of the configuration and the sentences:
    /// identical inputs give identical output. The two index maps are mutual
    /// inverses restricted to surviving sentences, and there is exactly one
    /// audio sentence per entry of `audio_to_display`.
    pub fn plan_page(&self, display_sentences: &Vec<String>) -> (r: PageNormalization)
        ensures
            ({
                let p = spec_plan(self.config, display_sentences.deep_view());
                &&& strs_view(r.audio_sentences@) == p.0
                &&& opts_view(r.display_to_audio@) == p.1
                &&& idxs_view(r.audio_to_display@) == p.2
            }),
            r.audio_sentences@.len() == r.audio_to_display@.len(),
            r.display_to_audio@.len() == display_sentences@.len(),
            forall|j: int|
                0 <= j < r.audio_to_display@.len() ==> #[trigger] r.audio_to_display@[j]
                    < display_sentences@.len() && r.display_to_audio@[r.audio_to_display@[j] as int]
                    == Option::Some(j as usize),
            forall|d: int|
                0 <= d < r.display_to_audio@.len() && #[trigger] r.display_to_audio@[d] is Some
                    ==> r.display_to_audio@[d]->0 < r.audio_to_display@.len()
                    && r.audio_to_display@[r.display_to_audio@[d]->0 as int] == d,
    {
        let ghost ds = display_sentences.deep_view();
        if display_sentences.len() == 0 {
            let r = PageNormalization {
                audio_sentences: Vec::new(),
                display_to_audio: Vec::new(),
                audio_to_display: Vec::new(),
            };
            proof {
                assert(strs_view(r.audio_sentences@) =~= spec_plan(self.config, ds).0);
                assert(opts_view(r.display_to_audio@) =~= spec_plan(self.config, ds).1);
                assert(idxs_view(r.audio_to_display@) =~= spec_plan(self.config, ds).2);
            }
            return r;
        }
        if !self.config.enabled {
            let mut audio: Vec<String> = Vec::new();
            let mut d2a: Vec<Option<usize>> = Vec::new();
            let mut a2d: Vec<usize> = Vec::new();
            let mut i: usize = 0;
            while i < display_sentences.len()
                invariant
                    0 <= i <= display_sentences@.len(),
                    audio@.len() == i,
                    d2a@.len() == i,
                    a2d@.len() == i,
                    forall|k: int| 0 <= k < i ==> #[trigger] audio@[k]@ == display_sentences@[k]@,
                    forall|k: int| 0 <= k < i ==> #[trigger] d2a@[k] == Option::Some(k as usize),
                    forall|k: int| 0 <= k < i ==> #[trigger] a2d@[k] == k as usize,
                decreases display_sentences@.len() - i,
            {
                audio.push(display_sentences[i].clone());
                d2a.push(Some(i));
                a2d.push(i);
                i = i + 1;
            }
            let r = PageNormalization {
                audio_sentences: audio,
                display_to_audio: d2a,
                audio_to_display: a2d,
            };
            proof {
                let p = spec_plan(self.config, ds);
                assert(ds.len() == display_sentences@.len());
                assert forall|k: int| 0 <= k < ds.len() implies strs_view(r.audio_sentences@)[k]
                    == p.0[k] by {
                    assert(strs_view(r.audio_sentences@)[k] == r.audio_sentences@[k]@);
                    assert(ds[k] == display_sentences@[k]@);
                }
                assert(strs_view(r.audio_sentences@) =~= p.0);
                assert forall|k: int| 0 <= k < ds.len() implies opts_view(r.display_to_audio@)[k]
                    == p.1[k] by {
                    assert(r.display_to_audio@[k] == Option::Some(k as usize));
                }
                assert(opts_view(r.display_to_audio@) =~= p.1);
                assert forall|k: int| 0 <= k < ds.len() implies idxs_view(r.audio_to_display@)[k]
                    == p.2[k] by {
                    assert(r.audio_to_display@[k] == k as usize);
                }
                assert(idxs_view(r.audio_to_display@) =~= p.2);
            }
            return r;
        }
        let cv = to_char_vecs(display_sentences);
        let cleaned = match self.config.mode {
            NormalizationMode::Sentence => clean_each(&self.config, &cv),
            NormalizationMode::Page => page_clean_chars(&self.config, &cv),
        };
        let ghost clv = views2(cleaned@);
        proof {
            assert(clv == spec_cleaned(self.config, ds));
        }
        let mut audio: Vec<String> = Vec::new();
        let mut d2a: Vec<Option<usize>> = Vec::new();
        let mut a2d: Vec<usize> = Vec::new();
        let mut d: usize = 0;
        while d < cleaned.len()
            invariant
                0 <= d <= cleaned@.len(),
                clv == views2(cleaned@),
                clv.len() == cleaned@.len(),
                d2a@.len() == d,
                audio@.len() == nsurv(self.config, clv, d as int),
                a2d@.len() == audio@.len(),
                strs_view(audio@) == audio_of(self.config, clv, d as int),
                idxs_view(a2d@) == a2d_of(self.config, clv, d as int),
                forall|k: int|
                    0 <= k < d ==> #[trigger] opts_view(d2a@)[k] == d2a_at(self.config, clv, k),
            decreases cleaned@.len() - d,
        {
            let ghost preaudio = audio@;
            let ghost prea2d = a2d@;
            let ghost pred2a = d2a@;
            proof {
                assert(clv[d as int] == cleaned@[d as int]@);
            }
            match finalize_chars(&self.config, &cleaned[d]) {
                Some(t) => {
                    let j = audio.len();
                    audio.push(string_of(&t));
                    d2a.push(Some(j));
                    a2d.push(d);
                    proof {
                        assert(survives(self.config, clv[d as int]));
                        assert(strs_view(audio@) =~= strs_view(preaudio).push(t@));
                        assert(t@ == spec_finalize(self.config, clv[d as int])->0);
                        assert(strs_view(audio@) =~= audio_of(self.config, clv, d + 1));
                        assert(idxs_view(a2d@) =~= idxs_view(prea2d).push(d as int));
                        assert(idxs_view(a2d@) =~= a2d_of(self.config, clv, d + 1));
                        assert(opts_view(d2a@) =~= opts_view(pred2a).push(
                            Option::Some(j as int),
                        ));
                        assert(opts_view(d2a@)[d as int] == d2a_at(self.config, clv, d as int));
                    }
                },
                None => {
                    d2a.push(None);
                    proof {
                        assert(!survives(self.config, clv[d as int]));
                        assert(strs_view(audio@) =~= audio_of(self.config, clv, d + 1));
                        assert(idxs_view(a2d@) =~= a2d_of(self.config, clv, d + 1));
                        assert(opts_view(d2a@) =~= opts_view(pred2a).push(Option::<int>::None));
                        assert(opts_view(d2a@)[d as int] == d2a_at(self.config, clv, d as int));
                    }
                },
            }
            proof {
                assert forall|k: int| 0 <= k < d implies #[trigger] opts_view(d2a@)[k] == d2a_at(
                    self.config,
                    clv,
                    k,
                ) by {
                    assert(opts_view(d2a@)[k] == opts_view(pred2a)[k]);
                }
            }
            d = d + 1;
        }
        let r = PageNormalization {
            audio_sentences: audio,
            display_to_audio: d2a,
            audio_to_display: a2d,
        };
        proof {
            let p = spec_plan(self.config, ds);
            assert(clv.len() == ds.len());
            assert(opts_view(r.display_to_audio@) =~= Seq::new(
                clv.len(),
                |k: int| d2a_at(self.config, clv, k),
            ));
            lemma_plan_maps(self.config, clv, clv.len() as int);
            assert forall|j: int|
                0 <= j < r.audio_to_display@.len() implies #[trigger] r.audio_to_display@[j]
                < display_sentences@.len() && r.display_to_audio@[r.audio_to_display@[j] as int]
                == Option::Some(j as usize) by {
                let dd = idxs_view(r.audio_to_display@)[j];
                assert(dd == a2d_of(self.config, clv, clv.len() as int)[j]);
                assert(0 <= dd < clv.len());
                assert(survives(self.config, clv[dd]));
                assert(nsurv(self.config, clv, dd) == j);
                assert(opts_view(r.display_to_audio@)[dd] == d2a_at(self.config, clv, dd));
                assert(opts_view(r.display_to_audio@)[dd] == Option::Some(j));
            }
            assert forall|dd: int|
                0 <= dd < r.display_to_audio@.len() && #[trigger] r.display_to_audio@[dd]
                    is Some implies r.display_to_audio@[dd]->0 < r.audio_to_display@.len()
                && r.audio_to_display@[r.display_to_audio@[dd]->0 as int] == dd by {
                assert(opts_view(r.display_to_audio@)[dd] == d2a_at(self.config, clv, dd));
                assert(survives(self.config, clv[dd]));
                let j = nsurv(self.config, clv, dd);
                assert(r.display_to_audio@[dd]->0 == j);
                assert(a2d_of(self.config, clv, clv.len() as int)[j] == dd);
                assert(idxs_view(r.audio_to_display@)[j] == dd);
            }
        }
        r
    }
}

/// The built-in configuration: page-mode cleaning with every stage on, one
/// replacement (`#` becomes a space), no drop tokens, a two-character
/// minimum and the alphanumeric requirement.
pub open spec fn is_default_config(r: NormalizerConfig) -> bool {
    &&& r.enabled
    &&& r.mode is Page
    &&& r.collapse_whitespace
    &&& r.remove_space_before_punctuation
    &&& r.strip_inline_code
    &&& r.strip_markdown_links
    &&& r.drop_numeric_bracket_citations
    &&& r.drop_parenthetical_numeric_citations
    &&& r.drop_square_bracket_text
    &&& r.drop_curly_brace_text
    &&& r.min_sentence_chars == 2
    &&& r.require_alphanumeric
    &&& rep_views(r.replacements@) == seq![("#"@, " "@)]
    &&& r.drop_tokens@ == Seq::<String>::empty()
}

impl Default for NormalizerConfig {
    /// The built-in configuration.
    fn default() -> (r: Self)
        ensures
            is_default_config(r),
    {
        let mut replacements: Vec<(String, String)> = Vec::new();
        replacements.push((String::from_str("#"), String::from_str(" ")));
        assert(rep_views(replacements@) =~= seq![("#"@, " "@)]);
        NormalizerConfig {
            enabled: true,
            mode: NormalizationMode::Page,
            collapse_whitespace: true,
            remove_space_before_punctuation: true,
            strip_inline_code: true,
            strip_markdown_links: true,
            drop_numeric_bracket_citations: true,
            drop_parenthetical_numeric_citations: true,
            drop_square_bracket_text: true,
            drop_curly_brace_text: true,
            min_sentence_chars: 2,
            require_alphanumeric: true,
            replacements,
            drop_tokens: Vec::new(),
        }
    }
}

impl Default for TextNormalizer {
    /// A normalizer with the built-in configuration.
    fn default() -> (r: Self)
        ensures
            is_default_config(r.config),
    {
        TextNormalizer { config: NormalizerConfig::default() }
    }
}

/// Law: the plan is a pure function of the configuration and the sentences.
/// Any two plans that `plan_page`'s contract admits for the same
/// configuration and the same input are identical, so re-running the
/// normalizer on identical input yields byte-identical output.
pub proof fn lemma_plan_deterministic(
    cfg: NormalizerConfig,
    ds: Seq<Seq<char>>,
    p1: (Seq<Seq<char>>, Seq<Option<int>>, Seq<int>),
    p2: (Seq<Seq<char>>, Seq<Option<int>>, Seq<int>),
)
    requires
        p1 == spec_plan(cfg, ds),
        p2 == spec_plan(cfg, ds),
    ensures
        p1 == p2,
{
}

} // verus!
