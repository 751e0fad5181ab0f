//! File names that every file system takes, and the path of an output file.

use crate::paths::{join_chars, joined};
use crate::text::{
    chars_of, first_chars, lemma_prefix_ends_at_char_boundary, lemma_trimmed_ends, push_text,
    string_of, trim, trimmed,
};
use vstd::prelude::*;
use vstd::utf8::{encode_utf8, encode_utf8_valid_utf8, is_char_boundary, valid_utf8};

verus! {

/// The most characters that a file name keeps.
pub const MAX_FILENAME_LEN: usize = 200;

/// The name given to a title of which nothing is left.
pub const PLACEHOLDER_NAME: &'static str = "未命名";

/// The ending of every output file.
pub const OUTPUT_SUFFIX: &'static str = ".mp4";

/// The characters that may not stand in a file name.
pub open spec fn is_invalid_char(c: char) -> bool {
    ||| c == '/'
    ||| c == '\\'
    ||| c == ':'
    ||| c == '*'
    ||| c == '?'
    ||| c == '"'
    ||| c == '<'
    ||| c == '>'
    ||| c == '|'
    ||| c == '\0'
}

/// `s` without the characters that may not stand in a file name.
pub open spec fn without_invalid(s: Seq<char>) -> Seq<char> {
    s.filter(|c: char| !is_invalid_char(c))
}

/// What is left of a title before it is cut to length: the title without the
/// invalid characters and without white space at either end, or the
/// placeholder where that is empty.
pub open spec fn cleaned(name: Seq<char>) -> Seq<char> {
    let kept = trimmed(without_invalid(name));
    if kept.len() == 0 {
        PLACEHOLDER_NAME@
    } else {
        kept
    }
}

/// The file name made of a title: `cleaned`, cut after `MAX_FILENAME_LEN`
/// characters.
pub open spec fn sanitized(name: Seq<char>) -> Seq<char> {
    let whole = cleaned(name);
    if whole.len() > MAX_FILENAME_LEN {
        whole.take(MAX_FILENAME_LEN as int)
    } else {
        whole
    }
}

/// The path of the output file for a title below `out_dir`.
pub open spec fn output_path_of(out_dir: Seq<char>, title: Seq<char>) -> Seq<char> {
    joined(out_dir, sanitized(title) + OUTPUT_SUFFIX@)
}

/// A sanitized name holds no invalid character, is never empty and never
/// longer than `MAX_FILENAME_LEN` characters, and is a beginning of the
/// cleaned title made of whole characters: the cut falls between two
/// characters, never inside one.
pub proof fn lemma_sanitized_is_safe(name: Seq<char>)
    ensures
        1 <= sanitized(name).len() <= MAX_FILENAME_LEN,
        forall|i: int| 0 <= i < sanitized(name).len() ==> !is_invalid_char(sanitized(name)[i]),
        sanitized(name).is_prefix_of(cleaned(name)),
        forall|i: int| 0 <= i < sanitized(name).len() ==> sanitized(name)[i] == cleaned(name)[i],
{
    reveal_strlit("未命名");
    let kept = without_invalid(name);
    let whole = cleaned(name);
    lemma_trimmed_ends(kept);
    let (a, b) = choose|a: int, b: int|
        0 <= a <= b <= kept.len() && trimmed(kept) == #[trigger] kept.subrange(a, b);
    assert forall|i: int| 0 <= i < whole.len() implies !is_invalid_char(whole[i]) by {
        if trimmed(kept).len() != 0 {
            assert(whole[i] == kept[a + i]);
            kept_is_valid(name, a + i);
        }
    }
    assert(sanitized(name) =~= whole.take(sanitized(name).len() as int));
}

/// As bytes, too, a sanitized name is a beginning of the cleaned title, and
/// it ends where a character ends: cutting to length splits no character,
/// however many bytes it takes.
pub proof fn lemma_sanitized_splits_no_character(name: Seq<char>)
    ensures
        encode_utf8(sanitized(name)).is_prefix_of(encode_utf8(cleaned(name))),
        is_char_boundary(
            encode_utf8(cleaned(name)),
            encode_utf8(sanitized(name)).len() as int,
        ),
        valid_utf8(encode_utf8(sanitized(name))),
{
    let whole = cleaned(name);
    let kept: int = if whole.len() > MAX_FILENAME_LEN {
        MAX_FILENAME_LEN as int
    } else {
        whole.len() as int
    };
    assert(sanitized(name) =~= whole.take(kept));
    lemma_prefix_ends_at_char_boundary(whole, kept);
    encode_utf8_valid_utf8(sanitized(name));
}

proof fn kept_is_valid(name: Seq<char>, i: int)
    requires
        0 <= i < without_invalid(name).len(),
    ensures
        !is_invalid_char(without_invalid(name)[i]),
{
    name.lemma_filter_pred(|c: char| !is_invalid_char(c), i);
}

/// Whether `c` may not stand in a file name.
fn is_invalid(c: char) -> (r: bool)
    ensures
        r == is_invalid_char(c),
{
    c == '/' || c == '\\' || c == ':' || c == '*' || c == '?' || c == '"' || c == '<' || c == '>'
        || c == '|' || c == '\0'
}

/// Drops the characters that may not stand in a file name.
fn strip_invalid(v: &Vec<char>) -> (r: Vec<char>)
    ensures
        r@ == without_invalid(v@),
{
    let ghost keep = |c: char| !is_invalid_char(c);
    let mut r: Vec<char> = Vec::new();
    let mut i: usize = 0;
    proof {
        reveal(Seq::filter);
        assert(v@.take(0).filter(keep) =~= Seq::<char>::empty());
    }
    while i < v.len()
        invariant
            i <= v.len(),
            keep == (|c: char| !is_invalid_char(c)),
            r@ == v@.take(i as int).filter(keep),
        decreases v.len() - i,
    {
        let c = v[i];
        proof {
            v@.take(i as int).lemma_filter_push(c, keep);
            assert(v@.take(i as int).push(c) =~= v@.take(i + 1));
        }
        if !is_invalid(c) {
            r.push(c);
        }
        i += 1;
    }
    assert(v@.take(v.len() as int) =~= v@);
    r
}

/// The characters of the sanitized name of `name`.
pub fn sanitize_chars(name: &Vec<char>) -> (r: Vec<char>)
    ensures
        r@ == sanitized(name@),
{
    let stripped = strip_invalid(name);
    let kept = trim(&stripped);
    let whole = if kept.len() == 0 {
        chars_of(PLACEHOLDER_NAME)
    } else {
        kept
    };
    first_chars(&whole, MAX_FILENAME_LEN)
}

/// Makes a file name of a title: drops the characters that no file name may
/// hold and the white space at either end, puts the placeholder where nothing
/// is left, and keeps at most `MAX_FILENAME_LEN` characters.
pub fn sanitize_filename(name: &str) -> (r: String)
    ensures
        r@ == sanitized(name@),
{
    let chars = chars_of(name);
    let clean = sanitize_chars(&chars);
    string_of(&clean)
}

/// The characters of the output path for `title` below `out_dir`.
pub fn output_path_chars(out_dir: &Vec<char>, title: &Vec<char>) -> (r: Vec<char>)
    ensures
        r@ == output_path_of(out_dir@, title@),
{
    let mut name = sanitize_chars(title);
    push_text(&mut name, OUTPUT_SUFFIX);
    join_chars(out_dir, &name)
}

/// The path of the output file: the sanitized title with the ending `.mp4`,
/// below `out_dir`.
pub fn output_path(out_dir: &str, title: &str) -> (r: String)
    ensures
        r@ == output_path_of(out_dir@, title@),
{
    let dir = chars_of(out_dir);
    let name = chars_of(title);
    let path = output_path_chars(&dir, &name);
    string_of(&path)
}

} // verus!
