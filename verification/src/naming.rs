//! Output file names of the pages of a chapter.
//!
//! A page is stored under its zero-padded index followed by the extension of
//! the file it was fetched from. All names of one chapter carry the same
//! number of digits, so that they sort in page order.

use crate::text::{
    decimal_chars, decimal_len, lemma_decimal_len, lemma_decimal_len_monotonic,
    lemma_lex_lt_irreflexive, lemma_zero_padded_len, lemma_zero_padded_order, lex_lt, push_char,
    push_zero_padded, splits_at, to_chars, zero_padded,
};
use vstd::prelude::*;

verus! {

/// The extension given to a page whose source file name has none.
pub const FALLBACK_EXTENSION: &'static str = "jpg";

/// The characters of [`FALLBACK_EXTENSION`].
pub open spec fn fallback_extension() -> Seq<char> {
    seq!['j', 'p', 'g']
}

/// What `std::path::Path::extension` finds in the path written as `path`, as
/// the platform reads paths: the part of its final component after the last
/// dot, if there is one.
pub uninterp spec fn path_extension(path: Seq<char>) -> Option<Seq<char>>;

/// The extension of `file_name`, without its dot.
///
/// Trusted: the call is `std::path::Path::extension` on `file_name` taken as a
/// path; the contract only gives its result the name [`path_extension`]. The
/// extension of a path that came from a `str` is itself valid UTF-8, so no
/// extension is lost by the conversion back.
#[verifier::external_body]
fn extension_of(file_name: &str) -> (ext: Option<String>)
    ensures
        match ext {
            Some(e) => path_extension(file_name@) == Some(e@),
            None => path_extension(file_name@) is None,
        },
{
    let extension = std::path::Path::new(file_name).extension()?;
    Some(extension.to_str()?.to_owned())
}

/// The number of digits that the names of a chapter of `total` pages carry:
/// as many as the largest index, `total - 1`, has. A chapter without pages has
/// no names; for it the width is one.
pub open spec fn pad_width(total: nat) -> nat {
    if total == 0 {
        1
    } else {
        decimal_len((total - 1) as nat)
    }
}

/// The name of page `index` in a chapter of `total` pages, for a source file
/// with the extension `ext`.
pub open spec fn frame_name(ext: Option<Seq<char>>, index: nat, total: nat) -> Seq<char> {
    zero_padded(index, pad_width(total)).push('.') + match ext {
        Some(e) => e,
        None => fallback_extension(),
    }
}

/// The number of decimal digits of `max_num`.
pub fn get_pad_width(max_num: usize) -> (width: usize)
    ensures
        width == decimal_len(max_num as nat),
{
    proof {
        lemma_decimal_len(max_num as nat);
    }
    decimal_chars(max_num).len()
}

/// The name of page `frame_index` of `total_frames`, given the extension of
/// its source file, or `None` where it has none.
pub fn frame_name_with_extension(ext: Option<&str>, frame_index: usize, total_frames: usize) -> (name:
    String)
    ensures
        name@ == frame_name(
            match ext {
                Some(e) => Some(e@),
                None => None,
            },
            frame_index as nat,
            total_frames as nat,
        ),
{
    let width = if total_frames == 0 {
        1
    } else {
        get_pad_width(total_frames - 1)
    };
    let mut name = String::new();
    push_zero_padded(&mut name, frame_index, width);
    push_char(&mut name, '.');
    match ext {
        Some(e) => name.append(e),
        None => {
            proof {
                reveal_strlit("jpg");
            }
            assert(FALLBACK_EXTENSION@ =~= fallback_extension());
            name.append(FALLBACK_EXTENSION)
        },
    }
    assert(name@ =~= frame_name(
        match ext {
            Some(e) => Some(e@),
            None => None,
        },
        frame_index as nat,
        total_frames as nat,
    ));
    name
}

/// The name under which page `frame_index` of `total_frames` is stored, for
/// the source file `file_name`.
pub fn get_frame_name(file_name: &str, frame_index: usize, total_frames: usize) -> (name: String)
    ensures
        name@ == frame_name(path_extension(file_name@), frame_index as nat, total_frames as nat),
{
    let ext = extension_of(file_name);
    match &ext {
        Some(e) => frame_name_with_extension(Some(e.as_str()), frame_index, total_frames),
        None => frame_name_with_extension(None, frame_index, total_frames),
    }
}

/// Every page of a chapter is named with exactly `pad_width` digits, the
/// digits of its zero-padded index, and a dot after them. For a chapter of at
/// least one page that is the number of digits of `total - 1`.
pub proof fn lemma_frame_name_width(ext: Option<Seq<char>>, index: nat, total: nat)
    requires
        index < total,
    ensures
        pad_width(total) == decimal_len((total - 1) as nat),
        zero_padded(index, pad_width(total)).len() == pad_width(total),
        frame_name(ext, index, total).len() > pad_width(total),
        frame_name(ext, index, total).take(pad_width(total) as int) == zero_padded(
            index,
            pad_width(total),
        ),
        frame_name(ext, index, total)[pad_width(total) as int] == '.',
{
    let w = pad_width(total);
    lemma_decimal_len_monotonic(index, (total - 1) as nat);
    lemma_zero_padded_len(index, w);
    assert(frame_name(ext, index, total).take(w as int) =~= zero_padded(index, w));
}

/// The names of the pages of one chapter sort in page order, whatever their
/// extensions are.
pub proof fn lemma_frame_names_ordered(
    ext_i: Option<Seq<char>>,
    ext_j: Option<Seq<char>>,
    i: nat,
    j: nat,
    total: nat,
)
    requires
        i < j < total,
    ensures
        lex_lt(frame_name(ext_i, i, total), frame_name(ext_j, j, total)),
{
    let w = pad_width(total);
    lemma_decimal_len_monotonic(j, (total - 1) as nat);
    let k = lemma_zero_padded_order(i, j, w);
    assert(splits_at(frame_name(ext_i, i, total), frame_name(ext_j, j, total), k));
}

/// Two different pages of one chapter never share a name.
pub proof fn lemma_frame_names_distinct(
    ext_i: Option<Seq<char>>,
    ext_j: Option<Seq<char>>,
    i: nat,
    j: nat,
    total: nat,
)
    requires
        i < total,
        j < total,
        i != j,
    ensures
        frame_name(ext_i, i, total) != frame_name(ext_j, j, total),
{
    if i < j {
        lemma_frame_names_ordered(ext_i, ext_j, i, j, total);
        lemma_lex_lt_irreflexive(frame_name(ext_i, i, total));
    } else {
        lemma_frame_names_ordered(ext_j, ext_i, j, i, total);
        lemma_lex_lt_irreflexive(frame_name(ext_j, j, total));
    }
}

/// Whether a character may not stand in a file name: a path separator, a
/// character that some file system reserves, or a control character.
pub open spec fn is_unsafe_char(c: char) -> bool {
    c == '/' || c == '\\' || c == ':' || c == '*' || c == '?' || c == '"' || c == '<' || c == '>'
        || c == '|' || (c as int) < (' ' as int)
}

/// The character that stands at position `i` of the sanitized name: an
/// underscore in place of a character that may not stand in a file name, and
/// in place of a dot at the very start.
pub open spec fn sanitized_char(name: Seq<char>, i: int) -> char {
    if is_unsafe_char(name[i]) || (i == 0 && name[i] == '.') {
        '_'
    } else {
        name[i]
    }
}

/// A chapter's display name made fit for one component of a path: every
/// character that may not stand in a file name, and a leading dot, gives way
/// to an underscore, and the empty name becomes a single underscore.
pub open spec fn sanitized(name: Seq<char>) -> Seq<char> {
    if name.len() == 0 {
        seq!['_']
    } else {
        Seq::new(name.len(), |i: int| sanitized_char(name, i))
    }
}

/// Whether a name is fit for one component of a path: it is not empty, does
/// not start with a dot (so it is neither `.` nor `..`), and holds no
/// character that may not stand in a file name.
pub open spec fn is_path_component(name: Seq<char>) -> bool {
    &&& name.len() > 0
    &&& name[0] != '.'
    &&& forall|i: int| 0 <= i < name.len() ==> !is_unsafe_char(#[trigger] name[i])
}

fn is_unsafe(c: char) -> (r: bool)
    ensures
        r == is_unsafe_char(c),
{
    c == '/' || c == '\\' || c == ':' || c == '*' || c == '?' || c == '"' || c == '<' || c == '>'
        || c == '|' || c < ' '
}

/// The display name of a chapter, made fit for naming its working directory
/// and its archive.
pub fn sanitize_name(name: &str) -> (clean: String)
    ensures
        clean@ == sanitized(name@),
        is_path_component(clean@),
{
    let chars = to_chars(name);
    let mut clean = String::new();
    if chars.len() == 0 {
        push_char(&mut clean, '_');
        assert(clean@ =~= sanitized(name@));
        return clean;
    }
    let mut i: usize = 0;
    while i < chars.len()
        invariant
            i <= chars@.len(),
            chars@ == name@,
            clean@.len() == i,
            forall|k: int| 0 <= k < i ==> clean@[k] == sanitized_char(name@, k),
        decreases chars@.len() - i,
    {
        let c = chars[i];
        if is_unsafe(c) || (i == 0 && c == '.') {
            push_char(&mut clean, '_');
        } else {
            push_char(&mut clean, c);
        }
        i += 1;
    }
    assert(clean@ =~= sanitized(name@));
    clean
}

/// A name that is fit for a path component is left as it is.
pub proof fn lemma_sanitized_keeps_clean_names(name: Seq<char>)
    requires
        is_path_component(name),
    ensures
        sanitized(name) == name,
{
    assert(sanitized(name) =~= name);
}

} // verus!
