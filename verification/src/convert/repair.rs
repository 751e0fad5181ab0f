//! The padding that some fragments begin with, and the temporary files that
//! hold what is left once it is taken away.

use crate::paths::{join_chars, joined};
use crate::text::{
    chars_of, decimal, lemma_decimal_round_trip, push_decimal, push_text, str_text_of, string_of,
};
use vstd::prelude::*;

verus! {

/// How many bytes of padding a fragment may begin with.
pub const PADDING_LEN: usize = 9;

/// The byte that the padding is made of: the digit zero.
pub const PADDING_BYTE: u8 = 0x30;

/// The directory for the repaired copies, below the directory for temporary
/// files.
pub const TEMP_SUBDIR: &'static str = "bili2mp4";

/// The name that stands for a fragment whose own name cannot be told.
pub const NAMELESS_FRAGMENT: &'static str = "m4s";

/// The padding: `PADDING_LEN` bytes, each `PADDING_BYTE`.
pub open spec fn padding() -> Seq<u8> {
    Seq::new(PADDING_LEN as nat, |i: int| PADDING_BYTE)
}

/// `bytes` begin with the padding.
pub open spec fn has_padding(bytes: Seq<u8>) -> bool {
    padding().is_prefix_of(bytes)
}

/// `bytes` without the padding at their start, if they begin with it.
pub open spec fn without_padding(bytes: Seq<u8>) -> Seq<u8> {
    if has_padding(bytes) {
        bytes.skip(PADDING_LEN as int)
    } else {
        bytes
    }
}

/// The name of the repaired copy of a fragment: a number that sets this copy
/// apart from every other, a `_`, and the name of the fragment.
pub open spec fn temp_name(stamp: nat, file_name: Option<Seq<char>>) -> Seq<char> {
    decimal(stamp).push('_') + (match file_name {
        Some(name) => name,
        None => NAMELESS_FRAGMENT@,
    })
}

/// The path to use for a fragment, and whether it is a temporary copy that
/// the caller owns: the fragment itself where it begins with no padding, and
/// else the repaired copy below `temp_dir`.
pub open spec fn usable_path(
    path: Seq<char>,
    file_name: Option<Seq<char>>,
    header: Seq<u8>,
    temp_dir: Seq<char>,
    stamp: nat,
) -> (Seq<char>, bool) {
    if has_padding(header) {
        (joined(joined(temp_dir, TEMP_SUBDIR@), temp_name(stamp, file_name)), true)
    } else {
        (path, false)
    }
}

/// A fragment that begins with no padding is used as it is, whatever else is
/// given: repairing it again changes nothing and leaves nothing to clean up.
pub proof fn lemma_clean_fragment_is_kept(
    path: Seq<char>,
    file_name: Option<Seq<char>>,
    header: Seq<u8>,
    temp_dir: Seq<char>,
    stamp: nat,
)
    requires
        !has_padding(header),
    ensures
        usable_path(path, file_name, header, temp_dir, stamp) == (path, false),
        without_padding(header) == header,
{
}

/// Taking the padding away takes exactly `PADDING_LEN` bytes from the start
/// and no more: the padding followed by what is left is what was there.
pub proof fn lemma_padding_is_stripped_once(bytes: Seq<u8>)
    requires
        has_padding(bytes),
    ensures
        without_padding(bytes).len() == bytes.len() - PADDING_LEN,
        padding() + without_padding(bytes) == bytes,
        forall|i: int|
            0 <= i < without_padding(bytes).len() ==> without_padding(bytes)[i] == bytes[i
                + PADDING_LEN],
{
    assert(padding() + without_padding(bytes) =~= bytes) by {
        assert(bytes.take(PADDING_LEN as int) == padding());
    }
}

/// Calls with different stamps get different copies: the name of a copy
/// tells its stamp.
pub proof fn lemma_temp_names_differ(stamp: nat, other: nat, file_name: Option<Seq<char>>)
    requires
        temp_name(stamp, file_name) == temp_name(other, file_name),
    ensures
        stamp == other,
{
    let tail = match file_name {
        Some(name) => name,
        None => NAMELESS_FRAGMENT@,
    };
    let a = decimal(stamp);
    let b = decimal(other);
    assert((a.push('_') + tail).len() == (b.push('_') + tail).len());
    assert forall|i: int| 0 <= i < a.len() implies a[i] == b[i] by {
        assert((a.push('_') + tail)[i] == a[i]);
        assert((b.push('_') + tail)[i] == b[i]);
    }
    assert(a =~= b);
    lemma_decimal_round_trip(stamp);
    lemma_decimal_round_trip(other);
}

/// Whether the bytes at the start of a fragment are the padding. Fewer bytes
/// than the padding has are no padding.
pub fn is_padded(header: &[u8]) -> (r: bool)
    ensures
        r == has_padding(header@),
{
    if header.len() < PADDING_LEN {
        return false;
    }
    let mut i: usize = 0;
    while i < PADDING_LEN
        invariant
            i <= PADDING_LEN <= header.len(),
            forall|k: int| 0 <= k < i ==> header@[k] == PADDING_BYTE,
        decreases PADDING_LEN - i,
    {
        if header[i] != PADDING_BYTE {
            assert(header@.take(PADDING_LEN as int)[i as int] != padding()[i as int]);
            return false;
        }
        i += 1;
    }
    assert(header@.take(PADDING_LEN as int) =~= padding());
    true
}

/// Takes the padding from the start of a fragment: gives what follows the
/// padding where the fragment begins with it, and nothing where it does not.
pub fn strip_padding(content: &[u8]) -> (r: Option<Vec<u8>>)
    ensures
        has_padding(content@) ==> r is Some && r->0@ == content@.skip(PADDING_LEN as int),
        !has_padding(content@) ==> r is None,
{
    if !is_padded(content) {
        return None;
    }
    let mut rest: Vec<u8> = Vec::new();
    let mut i: usize = PADDING_LEN;
    while i < content.len()
        invariant
            PADDING_LEN <= i <= content.len(),
            rest@ == content@.subrange(PADDING_LEN as int, i as int),
        decreases content.len() - i,
    {
        rest.push(content[i]);
        assert(rest@ =~= content@.subrange(PADDING_LEN as int, i + 1));
        i += 1;
    }
    assert(rest@ =~= content@.skip(PADDING_LEN as int));
    Some(rest)
}

/// Decides which file stands for a fragment in the remux.
///
/// `header` holds the first bytes of the fragment at `path`, `file_name` the
/// last part of `path` where it can be told, `temp_dir` the directory for
/// temporary files, and `stamp` a number that no other call is given. Where
/// the fragment begins with the padding, gives the path of a copy to make
/// below `temp_dir`, which is to hold what follows the padding, and `true`:
/// the caller owns that copy and removes it when the conversion is over.
/// Else gives `path` and `false`.
pub fn ensure_clean_m4s(
    path: &str,
    file_name: Option<&str>,
    header: &[u8],
    temp_dir: &str,
    stamp: u128,
) -> (r: (String, bool))
    ensures
        (r.0@, r.1) == usable_path(path@, str_text_of(file_name), header@, temp_dir@, stamp as nat),
{
    if !is_padded(header) {
        return (path.to_owned(), false);
    }
    let mut name: Vec<char> = Vec::new();
    push_decimal(&mut name, stamp);
    name.push('_');
    match file_name {
        Some(own) => push_text(&mut name, own),
        None => push_text(&mut name, NAMELESS_FRAGMENT),
    }
    let dir = join_chars(&chars_of(temp_dir), &chars_of(TEMP_SUBDIR));
    (string_of(&join_chars(&dir, &name)), true)
}

/// The temporary copies that a conversion owns: that of the video fragment
/// and that of the audio fragment, each only where one was made.
#[derive(Debug, Clone)]
pub struct TempCleanup(pub Option<String>, pub Option<String>);

/// The paths of a list of strings.
pub open spec fn path_of(s: Option<String>) -> Seq<Seq<char>> {
    match s {
        Some(p) => seq![p@],
        None => Seq::empty(),
    }
}

impl View for TempCleanup {
    type V = Seq<Seq<char>>;

    /// The files to remove, the copy of the video first.
    open spec fn view(&self) -> Seq<Seq<char>> {
        path_of(self.0) + path_of(self.1)
    }
}

impl TempCleanup {
    /// Takes over the copies that were made.
    pub fn new(v: Option<String>, a: Option<String>) -> (r: Self)
        ensures
            r.0 == v,
            r.1 == a,
    {
        TempCleanup(v, a)
    }

    /// The files to remove, the copy of the video first.
    pub fn paths(&self) -> (r: Vec<String>)
        ensures
            r.deep_view() == self@,
    {
        let mut r: Vec<String> = Vec::new();
        if let Some(video) = &self.0 {
            r.push(video.clone());
        }
        if let Some(audio) = &self.1 {
            r.push(audio.clone());
        }
        assert(r.deep_view() =~= self@);
        r
    }
}

} // verus!
