//! What to do when the output file is already there.

use crate::filemgr::output::{
    is_invalid_char, lemma_sanitized_is_safe, output_path_chars, output_path_of, sanitize_chars,
    sanitized, OUTPUT_SUFFIX,
};
use crate::paths::{is_listed, join_chars, joined, listed, SEPARATOR};
use crate::text::{
    chars_of, decimal, is_digit, lemma_decimal_round_trip, push_chars, push_decimal, push_text,
    string_of,
};
use vstd::prelude::*;
use vstd::relations::injective_on;
use vstd::set_lib::{lemma_int_range, lemma_len_subset, lemma_map_size, set_int_range};

verus! {

/// What to do when the output file is already there.
#[derive(Debug, Clone, Copy, PartialEq, Eq, Structural)]
pub enum ConflictStrategy {
    /// Write over the file.
    Overwrite,
    /// Leave the file and convert nothing.
    Skip,
    /// Pick a free name: `title(1).mp4`, `title(2).mp4`, and so on.
    Rename,
}

impl Default for ConflictStrategy {
    fn default() -> (r: Self)
        ensures
            r == ConflictStrategy::Rename,
    {
        ConflictStrategy::Rename
    }
}

/// Why no output path was given.
#[derive(Debug, Clone, Copy, PartialEq, Eq, Structural)]
pub enum ConflictError {
    /// The file is there and the strategy says to leave it.
    Skip,
}

/// What a conflict says in words.
pub open spec fn conflict_message(e: ConflictError) -> Seq<char> {
    "用户选择跳过"@
}

impl ConflictError {
    /// What the conflict says in words.
    pub fn message(&self) -> (r: String)
        ensures
            r@ == conflict_message(*self),
    {
        "用户选择跳过".to_owned()
    }
}

/// What follows the number in a numbered file name.
pub const NUMBERED_SUFFIX: &'static str = ").mp4";

/// The `n`-th numbered name for a title: the sanitized title, then `n` in
/// round brackets, then the ending.
pub open spec fn numbered_name(title: Seq<char>, n: nat) -> Seq<char> {
    sanitized(title).push('(') + decimal(n) + NUMBERED_SUFFIX@
}

/// The `n`-th numbered path for a title below `out_dir`.
pub open spec fn numbered_path(out_dir: Seq<char>, title: Seq<char>, n: nat) -> Seq<char> {
    joined(out_dir, numbered_name(title, n))
}

/// `n` is the lowest number, from 1 on, whose numbered path is free.
pub open spec fn is_first_free(
    existing: Seq<Seq<char>>,
    out_dir: Seq<char>,
    title: Seq<char>,
    n: nat,
) -> bool {
    &&& n >= 1
    &&& !listed(existing, numbered_path(out_dir, title, n))
    &&& forall|k: nat| 1 <= k < n ==> listed(existing, #[trigger] numbered_path(out_dir, title, k))
}

/// The lowest number, from 1 on, whose numbered path is free.
pub open spec fn first_free(existing: Seq<Seq<char>>, out_dir: Seq<char>, title: Seq<char>) -> nat {
    choose|n: nat| is_first_free(existing, out_dir, title, n)
}

/// The output path for a title under a strategy, where `existing` lists the
/// paths that are taken.
pub open spec fn resolved(
    out_dir: Seq<char>,
    title: Seq<char>,
    strategy: ConflictStrategy,
    existing: Seq<Seq<char>>,
) -> Result<Seq<char>, ConflictError> {
    let base = output_path_of(out_dir, title);
    match strategy {
        ConflictStrategy::Overwrite => Ok(base),
        ConflictStrategy::Skip => if listed(existing, base) {
            Err(ConflictError::Skip)
        } else {
            Ok(base)
        },
        ConflictStrategy::Rename => if listed(existing, base) {
            Ok(numbered_path(out_dir, title, first_free(existing, out_dir, title)))
        } else {
            Ok(base)
        },
    }
}

/// Different numbers give different numbered paths.
pub proof fn lemma_numbered_paths_differ(out_dir: Seq<char>, title: Seq<char>, n: nat, m: nat)
    requires
        numbered_path(out_dir, title, n) == numbered_path(out_dir, title, m),
    ensures
        n == m,
{
    let head = if out_dir.len() == 0 || out_dir.last() == SEPARATOR {
        out_dir + sanitized(title).push('(')
    } else {
        out_dir.push(SEPARATOR) + sanitized(title).push('(')
    };
    let tail = NUMBERED_SUFFIX@;
    let a = decimal(n);
    let b = decimal(m);
    assert(numbered_path(out_dir, title, n) =~= head + a + tail);
    assert(numbered_path(out_dir, title, m) =~= head + b + tail);
    assert((head + a + tail).len() == (head + b + tail).len());
    assert(a.len() == b.len());
    assert forall|i: int| 0 <= i < a.len() implies a[i] == b[i] by {
        assert((head + a + tail)[head.len() + i] == a[i]);
        assert((head + b + tail)[head.len() + i] == b[i]);
    }
    assert(a =~= b);
    lemma_decimal_round_trip(n);
    lemma_decimal_round_trip(m);
}

/// Where the numbered paths from 1 to `n` are all taken, at least `n` paths
/// exist.
pub proof fn lemma_taken_numbers_are_bounded(
    existing: Seq<Seq<char>>,
    out_dir: Seq<char>,
    title: Seq<char>,
    n: nat,
)
    requires
        forall|k: nat|
            1 <= k <= n ==> listed(existing, #[trigger] numbered_path(out_dir, title, k)),
    ensures
        n <= existing.len(),
{
    let numbers = set_int_range(1, n as int + 1);
    let path = |k: int| numbered_path(out_dir, title, k as nat);
    let paths = numbers.map(path);
    lemma_int_range(1, n as int + 1);
    assert(injective_on(path, numbers)) by {
        assert forall|x: int, y: int|
            numbers.contains(x) && numbers.contains(y) && #[trigger] path(x) == #[trigger] path(
                y,
            ) implies x == y by {
            lemma_numbered_paths_differ(out_dir, title, x as nat, y as nat);
        }
    }
    lemma_map_size(numbers, paths, path);
    existing.lemma_cardinality_of_set();
    assert(paths.subset_of(existing.to_set())) by {
        assert forall|p: Seq<char>| paths.contains(p) implies existing.to_set().contains(p) by {
            let k = choose|k: int| numbers.contains(k) && p == path(k);
            assert(listed(existing, numbered_path(out_dir, title, k as nat)));
        }
    }
    lemma_len_subset(paths, existing.to_set());
}

/// Some number from 1 on is free, and `first_free` is the lowest of them.
pub proof fn lemma_first_free_exists(
    existing: Seq<Seq<char>>,
    out_dir: Seq<char>,
    title: Seq<char>,
)
    ensures
        is_first_free(existing, out_dir, title, first_free(existing, out_dir, title)),
        first_free(existing, out_dir, title) <= existing.len() + 1,
{
    let n = lowest_free_from(existing, out_dir, title, 1);
    lemma_lowest_free_from(existing, out_dir, title, 1);
    assert(is_first_free(existing, out_dir, title, n));
    let chosen = first_free(existing, out_dir, title);
    lemma_first_free_is_unique(existing, out_dir, title, n, chosen);
}

/// At most one number is the lowest free one.
pub proof fn lemma_first_free_is_unique(
    existing: Seq<Seq<char>>,
    out_dir: Seq<char>,
    title: Seq<char>,
    n: nat,
    m: nat,
)
    requires
        is_first_free(existing, out_dir, title, n),
        is_first_free(existing, out_dir, title, m),
    ensures
        n == m,
{
    if n < m {
        assert(listed(existing, numbered_path(out_dir, title, n)));
    }
    if m < n {
        assert(listed(existing, numbered_path(out_dir, title, m)));
    }
}

/// The lowest free number that is not below `from`, searched upwards.
spec fn lowest_free_from(
    existing: Seq<Seq<char>>,
    out_dir: Seq<char>,
    title: Seq<char>,
    from: nat,
) -> nat
    decreases existing.len() + 1 - from,
{
    if from <= existing.len() && listed(existing, numbered_path(out_dir, title, from)) {
        lowest_free_from(existing, out_dir, title, from + 1)
    } else {
        from
    }
}

proof fn lemma_lowest_free_from(
    existing: Seq<Seq<char>>,
    out_dir: Seq<char>,
    title: Seq<char>,
    from: nat,
)
    requires
        1 <= from <= existing.len() + 1,
        forall|k: nat|
            1 <= k < from ==> listed(existing, #[trigger] numbered_path(out_dir, title, k)),
    ensures
        is_first_free(existing, out_dir, title, lowest_free_from(existing, out_dir, title, from)),
        lowest_free_from(existing, out_dir, title, from) <= existing.len() + 1,
    decreases existing.len() + 1 - from,
{
    if listed(existing, numbered_path(out_dir, title, from)) {
        lemma_taken_numbers_are_bounded(existing, out_dir, title, from);
        lemma_lowest_free_from(existing, out_dir, title, from + 1);
    }
}

/// Under `Rename` the path that is given is never taken; where the plain
/// path is taken, the path given is the numbered path with the lowest free
/// number, from 1 on.
pub proof fn lemma_rename_gives_lowest_free(
    out_dir: Seq<char>,
    title: Seq<char>,
    existing: Seq<Seq<char>>,
)
    ensures
        resolved(out_dir, title, ConflictStrategy::Rename, existing) is Ok,
        !listed(existing, resolved(out_dir, title, ConflictStrategy::Rename, existing)->Ok_0),
        listed(existing, output_path_of(out_dir, title)) ==> exists|n: nat|
            {
                &&& n >= 1
                &&& resolved(out_dir, title, ConflictStrategy::Rename, existing) == Ok::<
                    Seq<char>,
                    ConflictError,
                >(#[trigger] numbered_path(out_dir, title, n))
                &&& !listed(existing, numbered_path(out_dir, title, n))
                &&& forall|k: nat|
                    1 <= k < n ==> listed(existing, #[trigger] numbered_path(out_dir, title, k))
            },
{
    lemma_first_free_exists(existing, out_dir, title);
}

/// `name` is fit to be the name of an output file: it holds no character
/// that may not stand in a file name, so no separator either, and it ends as
/// output files do.
pub open spec fn is_output_name(name: Seq<char>) -> bool {
    &&& OUTPUT_SUFFIX@.is_suffix_of(name)
    &&& forall|i: int| 0 <= i < name.len() ==> !is_invalid_char(#[trigger] name[i])
}

/// Whatever the title, the strategy and the listing, a path that is given
/// lies in `out_dir` itself: it is `out_dir` joined with one name that is fit
/// for an output file. No title leads out of the directory.
pub proof fn lemma_output_stays_in_dir(
    out_dir: Seq<char>,
    title: Seq<char>,
    strategy: ConflictStrategy,
    existing: Seq<Seq<char>>,
)
    requires
        resolved(out_dir, title, strategy, existing) is Ok,
    ensures
        exists|name: Seq<char>|
            #![trigger joined(out_dir, name)]
            resolved(out_dir, title, strategy, existing)->Ok_0 == joined(out_dir, name)
                && is_output_name(name),
{
    reveal_strlit(".mp4");
    reveal_strlit(").mp4");
    lemma_sanitized_is_safe(title);
    let stem = sanitized(title);
    let plain = stem + OUTPUT_SUFFIX@;
    assert(is_output_name(plain)) by {
        assert(plain.skip(plain.len() - OUTPUT_SUFFIX@.len()) =~= OUTPUT_SUFFIX@);
        assert forall|i: int| 0 <= i < plain.len() implies !is_invalid_char(#[trigger] plain[i]) by {
            if i < stem.len() {
                assert(plain[i] == stem[i]);
            }
        }
    }
    if strategy == ConflictStrategy::Rename && listed(existing, output_path_of(out_dir, title)) {
        let n = first_free(existing, out_dir, title);
        let digits = decimal(n);
        let numbered = numbered_name(title, n);
        lemma_decimal_round_trip(n);
        assert(is_output_name(numbered)) by {
            assert(numbered.skip(numbered.len() - OUTPUT_SUFFIX@.len()) =~= OUTPUT_SUFFIX@);
            assert forall|i: int| 0 <= i < numbered.len() implies !is_invalid_char(
                #[trigger] numbered[i],
            ) by {
                if i < stem.len() {
                    assert(numbered[i] == stem[i]);
                } else if i == stem.len() {
                } else if i < stem.len() + 1 + digits.len() {
                    assert(numbered[i] == digits[i - stem.len() - 1]);
                    assert(is_digit(digits[i - stem.len() - 1]));
                } else {
                    assert(numbered[i] == NUMBERED_SUFFIX@[i - stem.len() - 1 - digits.len()]);
                }
            }
        }
        assert(resolved(out_dir, title, strategy, existing)->Ok_0 == joined(out_dir, numbered));
    } else {
        assert(resolved(out_dir, title, strategy, existing)->Ok_0 == joined(out_dir, plain));
    }
}

/// The number that `Rename` picks never goes down as files are added: where
/// every path taken in `before` is taken in `after` too, the lowest free
/// number in `after` is not below the one in `before`.
pub proof fn lemma_rename_is_monotone(
    out_dir: Seq<char>,
    title: Seq<char>,
    before: Seq<Seq<char>>,
    after: Seq<Seq<char>>,
)
    requires
        forall|path: Seq<char>| listed(before, path) ==> listed(after, path),
    ensures
        first_free(before, out_dir, title) <= first_free(after, out_dir, title),
{
    lemma_first_free_exists(before, out_dir, title);
    lemma_first_free_exists(after, out_dir, title);
    let n = first_free(before, out_dir, title);
    let m = first_free(after, out_dir, title);
    if m < n {
        assert(listed(before, numbered_path(out_dir, title, m)));
    }
}

/// Under `Skip` no path is given if and only if the plain path is taken.
pub proof fn lemma_skip_fails_iff_taken(
    out_dir: Seq<char>,
    title: Seq<char>,
    existing: Seq<Seq<char>>,
)
    ensures
        resolved(out_dir, title, ConflictStrategy::Skip, existing) is Err <==> listed(
            existing,
            output_path_of(out_dir, title),
        ),
{
}

/// Under `Overwrite` the same path is given whatever exists: asking again,
/// after the file was written, changes nothing.
pub proof fn lemma_overwrite_is_idempotent(
    out_dir: Seq<char>,
    title: Seq<char>,
    before: Seq<Seq<char>>,
    after: Seq<Seq<char>>,
)
    ensures
        resolved(out_dir, title, ConflictStrategy::Overwrite, before) == resolved(
            out_dir,
            title,
            ConflictStrategy::Overwrite,
            after,
        ),
        resolved(out_dir, title, ConflictStrategy::Overwrite, before) == Ok::<
            Seq<char>,
            ConflictError,
        >(output_path_of(out_dir, title)),
{
}

/// The characters of the `n`-th numbered path.
fn numbered_path_chars(out_dir: &Vec<char>, stem: &Vec<char>, n: u128) -> (r: Vec<char>)
    ensures
        forall|title: Seq<char>|
            sanitized(title) == stem@ ==> r@ == #[trigger] numbered_path(out_dir@, title, n as nat),
{
    let mut name: Vec<char> = Vec::new();
    push_chars(&mut name, stem);
    name.push('(');
    push_decimal(&mut name, n);
    push_text(&mut name, NUMBERED_SUFFIX);
    assert(name@ =~= stem@.push('(') + decimal(n as nat) + NUMBERED_SUFFIX@);
    join_chars(out_dir, &name)
}

/// Decides the path of the output file for `title` below `out_dir`.
///
/// `existing` lists the paths that are taken. `Overwrite` gives the plain
/// path whether it is taken or not. `Skip` gives it where it is free and
/// fails where it is taken. `Rename` gives it where it is free, and else the
/// first free one of `title(1).mp4`, `title(2).mp4`, and so on.
pub fn resolve_output_path(
    out_dir: &str,
    title: &str,
    strategy: ConflictStrategy,
    existing: &Vec<String>,
) -> (r: Result<String, ConflictError>)
    ensures
        match r {
            Ok(path) => resolved(out_dir@, title@, strategy, existing.deep_view()) == Ok::<
                Seq<char>,
                ConflictError,
            >(path@),
            Err(e) => resolved(out_dir@, title@, strategy, existing.deep_view()) == Err::<
                Seq<char>,
                ConflictError,
            >(e),
        },
{
    let dir = chars_of(out_dir);
    let name = chars_of(title);
    let base = output_path_chars(&dir, &name);
    match strategy {
        ConflictStrategy::Overwrite => Ok(string_of(&base)),
        ConflictStrategy::Skip => {
            if is_listed(existing, &base) {
                Err(ConflictError::Skip)
            } else {
                Ok(string_of(&base))
            }
        },
        ConflictStrategy::Rename => {
            if !is_listed(existing, &base) {
                return Ok(string_of(&base));
            }
            let stem = sanitize_chars(&name);
            let ghost taken = existing.deep_view();
            let mut n: u128 = 1;
            loop
                invariant
                    1 <= n <= existing.len() + 1,
                    taken == existing.deep_view(),
                    stem@ == sanitized(title@),
                    dir@ == out_dir@,
                    listed(taken, output_path_of(out_dir@, title@)),
                    strategy == ConflictStrategy::Rename,
                    forall|k: nat|
                        1 <= k < n ==> listed(taken, #[trigger] numbered_path(out_dir@, title@, k)),
                decreases existing.len() + 1 - n,
            {
                let next = numbered_path_chars(&dir, &stem, n);
                assert(next@ == numbered_path(out_dir@, title@, n as nat));
                if !is_listed(existing, &next) {
                    proof {
                        assert(is_first_free(taken, out_dir@, title@, n as nat));
                        lemma_first_free_exists(taken, out_dir@, title@);
                        lemma_first_free_is_unique(
                            taken,
                            out_dir@,
                            title@,
                            n as nat,
                            first_free(taken, out_dir@, title@),
                        );
                    }
                    return Ok(string_of(&next));
                }
                proof {
                    lemma_taken_numbers_are_bounded(taken, out_dir@, title@, n as nat);
                }
                n += 1;
            }
        },
    }
}

} // verus!
