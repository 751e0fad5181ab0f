//! Paths as text, and a listing of the paths that are known to exist.
//!
//! A path is joined from its parts with `/`, which every system this library
//! is used on takes as a separator.

use crate::text::{chars_of, push_chars, same_chars, string_of};
use vstd::prelude::*;

verus! {

/// The system that the library runs on, as far as the places of things
/// differ from one to the other.
#[derive(Debug, Clone, Copy, PartialEq, Eq, Structural)]
pub enum Platform {
    MacOs,
    Windows,
    Other,
}

/// The separator between the parts of a path.
pub const SEPARATOR: char = '/';

/// `name` below the directory `dir`: an empty `dir` adds nothing, and a
/// separator is put between the two unless `dir` ends in one.
pub open spec fn joined(dir: Seq<char>, name: Seq<char>) -> Seq<char> {
    if dir.len() == 0 || dir.last() == SEPARATOR {
        dir + name
    } else {
        dir.push(SEPARATOR) + name
    }
}

/// Joins a directory and a name.
pub fn join_chars(dir: &Vec<char>, name: &Vec<char>) -> (r: Vec<char>)
    ensures
        r@ == joined(dir@, name@),
{
    let mut r: Vec<char> = Vec::new();
    push_chars(&mut r, dir);
    if dir.len() > 0 && dir[dir.len() - 1] != SEPARATOR {
        r.push(SEPARATOR);
    }
    push_chars(&mut r, name);
    assert(r@ =~= joined(dir@, name@));
    r
}

/// Joins a directory and a name below it into one path.
pub fn join(dir: &str, name: &str) -> (r: String)
    ensures
        r@ == joined(dir@, name@),
{
    let d = chars_of(dir);
    let n = chars_of(name);
    string_of(&join_chars(&d, &n))
}

/// Whether `path` is one of the `existing` paths.
pub open spec fn listed(existing: Seq<Seq<char>>, path: Seq<char>) -> bool {
    existing.contains(path)
}

/// Whether `path` is one of the `existing` paths.
pub fn is_listed(existing: &Vec<String>, path: &Vec<char>) -> (r: bool)
    ensures
        r == listed(existing.deep_view(), path@),
{
    let mut i: usize = 0;
    while i < existing.len()
        invariant
            i <= existing.len(),
            forall|k: int| 0 <= k < i ==> existing.deep_view()[k] != path@,
        decreases existing.len() - i,
    {
        let entry = chars_of(existing[i].as_str());
        assert(existing.deep_view()[i as int] == existing@[i as int]@);
        if same_chars(&entry, path) {
            return true;
        }
        i += 1;
    }
    false
}

/// The first of the candidates from the `i`-th on that is among the
/// `existing` paths.
pub open spec fn first_listed(
    candidates: Seq<Seq<char>>,
    existing: Seq<Seq<char>>,
    i: int,
) -> Option<Seq<char>>
    decreases candidates.len() - i,
{
    if i < 0 || i >= candidates.len() {
        None
    } else if listed(existing, candidates[i]) {
        Some(candidates[i])
    } else {
        first_listed(candidates, existing, i + 1)
    }
}

/// Picks the first of the candidates that is among the `existing` paths.
pub fn first_existing(candidates: &Vec<String>, existing: &Vec<String>) -> (r: Option<String>)
    ensures
        match first_listed(candidates.deep_view(), existing.deep_view(), 0) {
            Some(path) => r is Some && r->0@ == path,
            None => r is None,
        },
{
    let ghost all = candidates.deep_view();
    let mut i: usize = 0;
    while i < candidates.len()
        invariant
            i <= candidates.len(),
            all == candidates.deep_view(),
            first_listed(all, existing.deep_view(), 0) == first_listed(
                all,
                existing.deep_view(),
                i as int,
            ),
        decreases candidates.len() - i,
    {
        let candidate = chars_of(candidates[i].as_str());
        assert(all[i as int] == candidates@[i as int]@);
        if is_listed(existing, &candidate) {
            return Some(candidates[i].clone());
        }
        i += 1;
    }
    None
}

} // verus!
