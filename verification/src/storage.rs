//! Cache path derivation, bookmark positioning, and chapter assembly.
//!
//! Cache files live under a directory named by a hash of the document's
//! path, so any path maps to a safe file name. Chapter assembly turns a
//! document's markup chapters into one plain text.

use vstd::prelude::*;
use vstd::string::StringSliceAdditionalSpecFns;
use sha2::Digest;
use crate::transform::spec_trim;
use crate::chars::{chars_of, string_of};

verus! {

/// Names the 32-byte SHA-256 digest of a byte sequence; contracts refer to
/// the digest only through this name.
pub uninterp spec fn sha256_of(data: Seq<u8>) -> Seq<u8>;

/// Relies on `sha2::Sha256::digest`: the digest is a pure function of the
/// bytes and is exactly 32 bytes long.
#[verifier::external_body]
fn sha256(data: &[u8]) -> (r: Vec<u8>)
    ensures
        r@ == sha256_of(data@),
        r@.len() == 32,
{
    sha2::Sha256::digest(data).to_vec()
}

/// The lower-case hexadecimal digit of a value below 16.
pub open spec fn hex_digit(n: int) -> char {
    if n == 0 {
        '0'
    } else if n == 1 {
        '1'
    } else if n == 2 {
        '2'
    } else if n == 3 {
        '3'
    } else if n == 4 {
        '4'
    } else if n == 5 {
        '5'
    } else if n == 6 {
        '6'
    } else if n == 7 {
        '7'
    } else if n == 8 {
        '8'
    } else if n == 9 {
        '9'
    } else if n == 10 {
        'a'
    } else if n == 11 {
        'b'
    } else if n == 12 {
        'c'
    } else if n == 13 {
        'd'
    } else if n == 14 {
        'e'
    } else {
        'f'
    }
}

fn hex_digit_of(n: u8) -> (r: char)
    requires
        n < 16,
    ensures
        r == hex_digit(n as int),
{
    if n == 0 {
        '0'
    } else if n == 1 {
        '1'
    } else if n == 2 {
        '2'
    } else if n == 3 {
        '3'
    } else if n == 4 {
        '4'
    } else if n == 5 {
        '5'
    } else if n == 6 {
        '6'
    } else if n == 7 {
        '7'
    } else if n == 8 {
        '8'
    } else if n == 9 {
        '9'
    } else if n == 10 {
        'a'
    } else if n == 11 {
        'b'
    } else if n == 12 {
        'c'
    } else if n == 13 {
        'd'
    } else if n == 14 {
        'e'
    } else {
        'f'
    }
}

/// Lower-case hexadecimal encoding: two digits per byte, in order.
pub open spec fn hex_of(data: Seq<u8>) -> Seq<char>
    decreases data.len(),
{
    if data.len() == 0 {
        Seq::<char>::empty()
    } else {
        hex_of(data.drop_last()) + seq![
            hex_digit(data.last() as int / 16),
            hex_digit((data.last() % 16) as int),
        ]
    }
}

/// Encodes bytes as lower-case hexadecimal.
fn to_hex(data: &Vec<u8>) -> (r: Vec<char>)
    ensures
        r@ == hex_of(data@),
        r@.len() == 2 * data@.len(),
{
    let mut r: Vec<char> = Vec::new();
    let mut i: usize = 0;
    assert(data@.take(0) =~= Seq::<u8>::empty());
    while i < data.len()
        invariant
            0 <= i <= data@.len(),
            r@ == hex_of(data@.take(i as int)),
            r@.len() == 2 * i,
        decreases data@.len() - i,
    {
        let b = data[i];
        r.push(hex_digit_of(b / 16));
        r.push(hex_digit_of(b % 16));
        proof {
            assert(data@.take(i + 1).drop_last() =~= data@.take(i as int));
            assert(data@.take(i + 1).last() == data@[i as int]);
            assert(r@ =~= hex_of(data@.take(i as int)) + seq![
                hex_digit(data@[i as int] as int / 16),
                hex_digit((data@[i as int] % 16) as int),
            ]);
        }
        i = i + 1;
    }
    assert(data@.take(data@.len() as int) =~= data@);
    r
}

/// The cache directory of a document: a fixed root and the hex digest of
/// the document's path.
pub open spec fn spec_hash_dir(path_bytes: Seq<u8>) -> Seq<char> {
    ".cache/"@ + hex_of(sha256_of(path_bytes))
}

/// The per-document cache directory.
pub fn hash_dir(epub_path: &str) -> (r: String)
    ensures
        r@ == spec_hash_dir(epub_path.spec_bytes()),
{
    let digest = sha256(epub_path.as_bytes());
    let hex = to_hex(&digest);
    let mut r = String::from_str(".cache/");
    let hs = string_of(&hex);
    r.append(hs.as_str());
    r
}

/// The directory holding a document's synthesized audio clips.
pub fn tts_dir(epub_path: &str) -> (r: String)
    ensures
        r@ == spec_hash_dir(epub_path.spec_bytes()) + "/tts"@,
{
    let mut r = hash_dir(epub_path);
    r.append("/tts");
    r
}

/// The file holding a document's reading position.
pub fn bookmark_path(epub_path: &str) -> (r: String)
    ensures
        r@ == spec_hash_dir(epub_path.spec_bytes()) + "/bookmark.toml"@,
{
    let mut r = hash_dir(epub_path);
    r.append("/bookmark.toml");
    r
}

/// The file holding a document's configuration overlay.
pub fn epub_config_path(epub_path: &str) -> (r: String)
    ensures
        r@ == spec_hash_dir(epub_path.spec_bytes()) + "/config.toml"@,
{
    let mut r = hash_dir(epub_path);
    r.append("/config.toml");
    r
}

/// A reading position: the page, the sentence if narration fixed one, its
/// text, and the scroll fraction in per-mille.
pub struct Bookmark {
    pub page: usize,
    pub sentence_idx: Option<usize>,
    pub sentence_text: Option<String>,
    pub scroll_y_pm: u32,
}

/// The sentence a bookmark should record: the narrated sentence when it
/// points into the page, else the sentence nearest the scroll fraction
/// (rounded), and nothing on an empty page.
pub open spec fn spec_bookmark_idx(current: Option<usize>, total: int, scroll_y_pm: int) -> Option<
    int,
> {
    match current {
        Option::Some(i) => if (i as int) < total {
            Option::Some(i as int)
        } else {
            spec_scroll_idx(total, scroll_y_pm)
        },
        Option::None => spec_scroll_idx(total, scroll_y_pm),
    }
}

/// The sentence nearest a scroll fraction.
pub open spec fn spec_scroll_idx(total: int, scroll_y_pm: int) -> Option<int> {
    if total <= 0 {
        Option::<int>::None
    } else {
        let pm = crate::scroll::clamp_pm(scroll_y_pm);
        let raw = (pm * (total - 1) + 500) / 1000;
        Option::Some(
            if raw < total - 1 {
                raw
            } else {
                total - 1
            },
        )
    }
}

/// Picks the sentence a bookmark records.
pub fn bookmark_sentence_idx(current: Option<usize>, total: usize, scroll_y_pm: u32) -> (r: Option<
    usize,
>)
    ensures
        match r {
            Some(i) => spec_bookmark_idx(current, total as int, scroll_y_pm as int)
                == Option::Some(i as int),
            None => spec_bookmark_idx(current, total as int, scroll_y_pm as int) is None,
        },
{
    match current {
        Some(i) => {
            if i < total {
                return Some(i);
            }
        },
        None => {},
    }
    if total == 0 {
        return None;
    }
    let pm: u128 = if scroll_y_pm > 1000 {
        1000
    } else {
        scroll_y_pm as u128
    };
    proof {
        vstd::arithmetic::mul::lemma_mul_upper_bound(
            pm as int,
            1000,
            (total - 1) as int,
            u64::MAX as int,
        );
    }
    let raw: u128 = (pm * ((total - 1) as u128) + 500) / 1000;
    let capped: u128 = if raw < (total - 1) as u128 {
        raw
    } else {
        (total - 1) as u128
    };
    Some(capped as usize)
}

/// Names the plain text that the markup renderer produces for a chapter's
/// bytes at a given column width; a chapter whose rendering fails is kept
/// as it stands, which is folded into the name.
pub uninterp spec fn rendered_text_of(html: Seq<char>, width: int) -> Seq<char>;

/// Relies on `html2text::from_read`: the rendering is a pure function of
/// the bytes and the width.
#[verifier::external_body]
fn chapter_plain_text(chapter: &str, width: usize) -> (r: String)
    requires
        width >= 1,
    ensures
        r@ == rendered_text_of(chapter@, width as int),
{
    match html2text::from_read(chapter.as_bytes(), width) {
        Ok(text) => text,
        Err(_) => chapter.to_owned(),
    }
}

/// The chapters' plain texts, joined with blank lines. A separator is added
/// only once some text has accumulated, so chapters that render to nothing
/// at the front of the document add none.
pub open spec fn spec_combine(chs: Seq<Seq<char>>, i: int, acc: Seq<char>) -> Seq<char>
    decreases chs.len() - i,
    when 0 <= i <= chs.len()
{
    if i >= chs.len() {
        acc
    } else {
        let acc2 = if acc.len() == 0 {
            chs[i]
        } else {
            acc + "\n\n"@ + chs[i]
        };
        spec_combine(chs, i + 1, acc2)
    }
}

/// The rendered text of each chapter.
pub open spec fn spec_rendered_all(chapters: Seq<String>, width: int) -> Seq<Seq<char>> {
    chapters.map_values(|c: String| rendered_text_of(c@, width))
}

/// The document's whole plain text from its chapters: each chapter
/// rendered, the results joined with blank lines, and a placeholder when
/// nothing but whitespace remains.
pub open spec fn spec_assembled(chapters: Seq<String>, width: int) -> Seq<char> {
    let joined = spec_combine(spec_rendered_all(chapters, width), 0, Seq::<char>::empty());
    if spec_trim(joined).len() == 0 {
        "No textual content found in this EPUB."@
    } else {
        joined
    }
}

/// Renders every chapter to plain text and joins them into the document's
/// text, with a placeholder for documents without textual content.
pub fn assemble_chapters(chapters: &Vec<String>, width: usize) -> (r: String)
    requires
        width >= 1,
    ensures
        r@ == spec_assembled(chapters@, width as int),
{
    let ghost chsv = spec_rendered_all(chapters@, width as int);
    let mut combined: Vec<char> = Vec::new();
    let mut i: usize = 0;
    while i < chapters.len()
        invariant
            0 <= i <= chapters@.len(),
            chsv == spec_rendered_all(chapters@, width as int),
            chsv.len() == chapters@.len(),
            width >= 1,
            spec_combine(chsv, 0, Seq::<char>::empty()) == spec_combine(
                chsv,
                i as int,
                combined@,
            ),
        decreases chapters@.len() - i,
    {
        let ghost pre = combined@;
        let plain = chapter_plain_text(chapters[i].as_str(), width);
        proof {
            assert(chsv[i as int] == rendered_text_of(chapters@[i as int]@, width as int));
        }
        let pv = chars_of(plain.as_str());
        if combined.len() == 0 {
            let mut pv2 = pv;
            combined.append(&mut pv2);
            assert(combined@ =~= chsv[i as int]);
        } else {
            let mut sep = chars_of("\n\n");
            combined.append(&mut sep);
            let mut pv2 = pv;
            combined.append(&mut pv2);
            assert(combined@ =~= pre + "\n\n"@ + chsv[i as int]);
        }
        i = i + 1;
    }
    let trimmed = crate::transform::trim_in(&combined);
    if trimmed.len() == 0 {
        String::from_str("No textual content found in this EPUB.")
    } else {
        string_of(&combined)
    }
}

} // verus!
