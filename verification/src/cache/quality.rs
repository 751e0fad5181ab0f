//! The tables that turn the quality codes and type tags of the sidecars into
//! words.

use crate::text::{chars_of, contains, decimal, occurs_in, push_decimal, same_chars, string_of};
use vstd::prelude::*;

verus! {

/// Whether the characters `v` are the text `lit`.
fn is_text(v: &Vec<char>, lit: &str) -> (r: bool)
    ensures
        r == (v@ == lit@),
{
    let l = chars_of(lit);
    same_chars(v, &l)
}

/// Whether the text `lit` stands somewhere in the characters `v`.
fn has_text(v: &Vec<char>, lit: &str) -> (r: bool)
    ensures
        r == occurs_in(lit@, v@),
{
    let l = chars_of(lit);
    contains(v, &l)
}

/// The quality that a number stands for where no table knows it: the number
/// and a `P`.
pub open spec fn plain_label(n: nat) -> Seq<char> {
    decimal(n).push('P')
}

/// The quality that a type tag stands for. The known tags come first, then
/// the tags that hold `1080`, `720` or `480` somewhere, in this order; every
/// other tag stands for itself.
pub open spec fn type_tag_label(tag: Seq<char>) -> Seq<char> {
    if tag == "s_1080p"@ || tag == "1080"@ {
        "1080P"@
    } else if tag == "s_720p"@ || tag == "720"@ {
        "720P"@
    } else if tag == "s_480p"@ || tag == "480"@ {
        "480P"@
    } else if tag == "s_360p"@ || tag == "360"@ {
        "360P"@
    } else if tag == "s_240p"@ || tag == "240"@ {
        "240P"@
    } else if occurs_in("1080"@, tag) {
        "1080P"@
    } else if occurs_in("720"@, tag) {
        "720P"@
    } else if occurs_in("480"@, tag) {
        "480P"@
    } else {
        tag
    }
}

/// The quality that a quality code of a `videoInfo.json` sidecar stands for.
pub open spec fn qn_label(n: u32) -> Seq<char> {
    if n == 120 {
        "1080P+"@
    } else if n == 116 {
        "1080P60"@
    } else if n == 112 {
        "1080P"@
    } else if n == 80 {
        "720P60"@
    } else if n == 74 {
        "720P"@
    } else if n == 64 {
        "480P"@
    } else if n == 32 {
        "360P"@
    } else if n == 16 {
        "240P"@
    } else {
        plain_label(n as nat)
    }
}

/// A tag is one of the ten that the table of type tags knows by name.
pub open spec fn is_known_tag(tag: Seq<char>) -> bool {
    ||| tag == "s_1080p"@
    ||| tag == "1080"@
    ||| tag == "s_720p"@
    ||| tag == "720"@
    ||| tag == "s_480p"@
    ||| tag == "480"@
    ||| tag == "s_360p"@
    ||| tag == "360"@
    ||| tag == "s_240p"@
    ||| tag == "240"@
}

/// A tag that the table does not know by name stands for `1080P` where it
/// holds `1080`; else for `720P` where it holds `720`; else for `480P` where
/// it holds `480`; and else for itself.
pub proof fn lemma_unknown_tags(tag: Seq<char>)
    requires
        !is_known_tag(tag),
    ensures
        occurs_in("1080"@, tag) ==> type_tag_label(tag) == "1080P"@,
        !occurs_in("1080"@, tag) && occurs_in("720"@, tag) ==> type_tag_label(tag) == "720P"@,
        !occurs_in("1080"@, tag) && !occurs_in("720"@, tag) && occurs_in("480"@, tag)
            ==> type_tag_label(tag) == "480P"@,
        !occurs_in("1080"@, tag) && !occurs_in("720"@, tag) && !occurs_in("480"@, tag)
            ==> type_tag_label(tag) == tag,
{
}

/// The eight quality codes of the table stand for what the table says, and
/// every other code for the number and a `P`.
pub proof fn lemma_quality_codes(n: u32)
    ensures
        n == 120 ==> qn_label(n) == "1080P+"@,
        n == 116 ==> qn_label(n) == "1080P60"@,
        n == 112 ==> qn_label(n) == "1080P"@,
        n == 80 ==> qn_label(n) == "720P60"@,
        n == 74 ==> qn_label(n) == "720P"@,
        n == 64 ==> qn_label(n) == "480P"@,
        n == 32 ==> qn_label(n) == "360P"@,
        n == 16 ==> qn_label(n) == "240P"@,
        n != 120 && n != 116 && n != 112 && n != 80 && n != 74 && n != 64 && n != 32 && n != 16
            ==> qn_label(n) == decimal(n as nat).push('P'),
{
}

/// The text of `plain_label`.
fn plain_label_of(n: u32) -> (r: String)
    ensures
        r@ == plain_label(n as nat),
{
    let mut v: Vec<char> = Vec::new();
    push_decimal(&mut v, n as u128);
    v.push('P');
    assert(v@ =~= plain_label(n as nat));
    string_of(&v)
}

/// The quality that a type tag stands for, where there is a tag.
pub fn _type_tag_to_quality(tag: Option<&str>) -> (r: Option<String>)
    ensures
        match tag {
            Some(s) => r is Some && r->0@ == type_tag_label(s@),
            None => r is None,
        },
{
    let s = match tag {
        Some(s) => s,
        None => { return None; },
    };
    let t = chars_of(s);
    let label: String = if is_text(&t, "s_1080p") || is_text(&t, "1080") {
        "1080P".to_owned()
    } else if is_text(&t, "s_720p") || is_text(&t, "720") {
        "720P".to_owned()
    } else if is_text(&t, "s_480p") || is_text(&t, "480") {
        "480P".to_owned()
    } else if is_text(&t, "s_360p") || is_text(&t, "360") {
        "360P".to_owned()
    } else if is_text(&t, "s_240p") || is_text(&t, "240") {
        "240P".to_owned()
    } else if has_text(&t, "1080") {
        "1080P".to_owned()
    } else if has_text(&t, "720") {
        "720P".to_owned()
    } else if has_text(&t, "480") {
        "480P".to_owned()
    } else {
        s.to_owned()
    };
    Some(label)
}

/// The quality that a type tag stands for, where there is a tag.
pub fn type_tag_to_quality(tag: Option<&str>) -> (r: Option<String>)
    ensures
        match tag {
            Some(s) => r is Some && r->0@ == type_tag_label(s@),
            None => r is None,
        },
{
    _type_tag_to_quality(tag)
}

/// The quality that a plain number stands for, where there is a number.
pub fn _quality_to_str(q: Option<u32>) -> (r: Option<String>)
    ensures
        match q {
            Some(n) => r is Some && r->0@ == plain_label(n as nat),
            None => r is None,
        },
{
    match q {
        Some(n) => Some(plain_label_of(n)),
        None => None,
    }
}

/// The quality that a quality code stands for, where there is a code.
pub fn _qn_to_quality(qn: Option<u32>) -> (r: Option<String>)
    ensures
        match qn {
            Some(n) => r is Some && r->0@ == qn_label(n),
            None => r is None,
        },
{
    let n = match qn {
        Some(n) => n,
        None => { return None; },
    };
    let label: String = if n == 120 {
        "1080P+".to_owned()
    } else if n == 116 {
        "1080P60".to_owned()
    } else if n == 112 {
        "1080P".to_owned()
    } else if n == 80 {
        "720P60".to_owned()
    } else if n == 74 {
        "720P".to_owned()
    } else if n == 64 {
        "480P".to_owned()
    } else if n == 32 {
        "360P".to_owned()
    } else if n == 16 {
        "240P".to_owned()
    } else {
        plain_label_of(n)
    };
    Some(label)
}

} // verus!
