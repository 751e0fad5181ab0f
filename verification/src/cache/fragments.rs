//! Which files are the fragments of a sidecar.
//!
//! The two kinds of sidecar keep their fragments differently. Beside an
//! `entry.json` they have fixed names and lie in one of a few directories.
//! Beside a `videoInfo.json` they carry the number of the item and a codec
//! number in their names. Either way the library is told what exists and
//! picks the pair.

use crate::cache::parser::ParseError;
use crate::paths::{join_chars, joined, listed};
use crate::text::{
    chars_of, decimal, ends_with, parse_u64, parsed_u64, push_chars, push_decimal, push_text,
    same_chars, starts_with, str_text_of, string_of, texts,
};
use vstd::prelude::*;

verus! {

/// A file or directory that is known to exist, and its size in bytes where
/// that could be read.
#[derive(Debug, Clone)]
pub struct FileStat {
    pub path: String,
    pub size: Option<u64>,
}

/// The paths of a list of files, in order.
pub open spec fn paths_of(files: Seq<FileStat>) -> Seq<Seq<char>> {
    Seq::new(files.len(), |i: int| files[i].path@)
}

/// The size that the first entry for `path` gives; 0 where it gives none or
/// where there is no such entry.
pub open spec fn known_size(files: Seq<FileStat>, path: Seq<char>) -> u64
    decreases files.len(),
{
    if files.len() == 0 {
        0
    } else if files[0].path@ == path {
        size_or_zero(files[0].size)
    } else {
        known_size(files.skip(1), path)
    }
}

/// A size, or 0 where it is not known.
pub open spec fn size_or_zero(size: Option<u64>) -> u64 {
    match size {
        Some(n) => n,
        None => 0,
    }
}

/// The sum of two sizes, or the largest number where the sum is above it.
pub open spec fn total_size(a: u64, b: u64) -> u64 {
    if a + b > u64::MAX {
        u64::MAX
    } else {
        (a + b) as u64
    }
}

/// The index of the first entry for `path`.
fn stat_index(files: &Vec<FileStat>, path: &Vec<char>) -> (r: Option<usize>)
    ensures
        match r {
            Some(i) => i < files.len() && files[i as int].path@ == path@ && forall|k: int|
                0 <= k < i ==> files[k].path@ != path@,
            None => !listed(paths_of(files@), path@),
        },
{
    let mut i: usize = 0;
    while i < files.len()
        invariant
            i <= files.len(),
            forall|k: int| 0 <= k < i ==> files[k].path@ != path@,
        decreases files.len() - i,
    {
        let entry = chars_of(files[i].path.as_str());
        if same_chars(&entry, path) {
            return Some(i);
        }
        i += 1;
    }
    assert forall|k: int| 0 <= k < paths_of(files@).len() implies paths_of(files@)[k] != path@ by {
        assert(paths_of(files@)[k] == files[k].path@);
    }
    None
}

/// Whether `path` is among the files.
fn is_known(files: &Vec<FileStat>, path: &Vec<char>) -> (r: bool)
    ensures
        r == listed(paths_of(files@), path@),
{
    match stat_index(files, path) {
        Some(i) => {
            assert(paths_of(files@)[i as int] == path@);
            true
        },
        None => false,
    }
}

proof fn lemma_known_size(files: Seq<FileStat>, path: Seq<char>, i: int)
    requires
        0 <= i <= files.len(),
        forall|k: int| 0 <= k < i ==> files[k].path@ != path,
    ensures
        known_size(files, path) == known_size(files.skip(i), path),
    decreases i,
{
    if i == 0 {
        assert(files.skip(0) =~= files);
    } else {
        lemma_known_size(files.skip(1), path, i - 1);
        assert(files.skip(1).skip(i - 1) =~= files.skip(i));
    }
}

/// The size that the files give for `path`.
pub(crate) fn size_of(files: &Vec<FileStat>, path: &Vec<char>) -> (r: u64)
    ensures
        r == known_size(files@, path@),
{
    match stat_index(files, path) {
        Some(i) => {
            proof {
                lemma_known_size(files@, path@, i as int);
                assert(files@.skip(i as int)[0] == files@[i as int]);
            }
            match files[i].size {
                Some(n) => n,
                None => 0,
            }
        },
        None => {
            proof {
                assert forall|k: int| 0 <= k < files@.len() implies files@[k].path@ != path@ by {
                    assert(paths_of(files@)[k] == files@[k].path@);
                }
                lemma_known_size(files@, path@, files@.len() as int);
            }
            0
        },
    }
}

/// Adds two sizes, stopping at the largest number.
pub(crate) fn add_sizes(a: u64, b: u64) -> (r: u64)
    ensures
        r == total_size(a, b),
{
    match a.checked_add(b) {
        Some(sum) => sum,
        None => u64::MAX,
    }
}

/// How many directories are looked into for the fragments of an `entry.json`.
pub const BUCKETS: usize = 8;

/// The name of the video fragment beside an `entry.json`.
pub const VIDEO_FRAGMENT: &'static str = "video.m4s";

/// The name of the audio fragment beside an `entry.json`.
pub const AUDIO_FRAGMENT: &'static str = "audio.m4s";

/// The names of the directories that are looked into below the cache
/// directory, in order. The last, without a name, is the cache directory
/// itself.
pub open spec fn bucket_name(i: int) -> Seq<char> {
    if i == 0 {
        "64"@
    } else if i == 1 {
        "80"@
    } else if i == 2 {
        "32"@
    } else if i == 3 {
        "16"@
    } else if i == 4 {
        "112"@
    } else if i == 5 {
        "116"@
    } else if i == 6 {
        "120"@
    } else {
        Seq::empty()
    }
}

/// The `i`-th directory that is looked into.
pub open spec fn bucket_dir(cache_dir: Seq<char>, i: int) -> Seq<char> {
    if 0 <= i < BUCKETS - 1 {
        joined(cache_dir, bucket_name(i))
    } else {
        cache_dir
    }
}

/// The directory `dir` exists and holds both fragments.
pub open spec fn holds_pair(existing: Seq<Seq<char>>, dir: Seq<char>) -> bool {
    &&& listed(existing, dir)
    &&& listed(existing, joined(dir, VIDEO_FRAGMENT@))
    &&& listed(existing, joined(dir, AUDIO_FRAGMENT@))
}

/// The first directory from the `i`-th on that holds both fragments.
pub open spec fn first_bucket_from(
    existing: Seq<Seq<char>>,
    cache_dir: Seq<char>,
    i: int,
) -> Option<int>
    decreases BUCKETS - i,
{
    if i < 0 || i >= BUCKETS {
        None
    } else if holds_pair(existing, bucket_dir(cache_dir, i)) {
        Some(i)
    } else {
        first_bucket_from(existing, cache_dir, i + 1)
    }
}

/// The video and the audio fragment that belong to an `entry.json` in
/// `cache_dir`: those of the first directory that holds both.
pub open spec fn entry_media(existing: Seq<Seq<char>>, cache_dir: Seq<char>) -> Option<
    (Seq<char>, Seq<char>),
> {
    match first_bucket_from(existing, cache_dir, 0) {
        Some(i) => Some(
            (
                joined(bucket_dir(cache_dir, i), VIDEO_FRAGMENT@),
                joined(bucket_dir(cache_dir, i), AUDIO_FRAGMENT@),
            ),
        ),
        None => None,
    }
}

/// The paths that decide where the fragments of an `entry.json` are: each
/// of the directories that are looked into, and the two fragments in it.
pub open spec fn candidate_paths(cache_dir: Seq<char>) -> Seq<Seq<char>> {
    Seq::new(
        3 * BUCKETS as nat,
        |k: int|
            if k % 3 == 0 {
                bucket_dir(cache_dir, k / 3)
            } else if k % 3 == 1 {
                joined(bucket_dir(cache_dir, k / 3), VIDEO_FRAGMENT@)
            } else {
                joined(bucket_dir(cache_dir, k / 3), AUDIO_FRAGMENT@)
            },
    )
}

/// Two listings agree on the paths `paths`.
pub open spec fn agree_on(a: Seq<Seq<char>>, b: Seq<Seq<char>>, paths: Seq<Seq<char>>) -> bool {
    forall|k: int| 0 <= k < paths.len() ==> listed(a, #[trigger] paths[k]) == listed(b, paths[k])
}

/// Where the fragments are depends on the candidate paths alone: two
/// listings that agree on them give the same pair. So it is enough to find
/// out which of the candidates exist.
pub proof fn lemma_candidates_decide(a: Seq<Seq<char>>, b: Seq<Seq<char>>, cache_dir: Seq<char>)
    requires
        agree_on(a, b, candidate_paths(cache_dir)),
    ensures
        entry_media(a, cache_dir) == entry_media(b, cache_dir),
{
    lemma_buckets_agree(a, b, cache_dir, 0);
}

proof fn lemma_buckets_agree(a: Seq<Seq<char>>, b: Seq<Seq<char>>, cache_dir: Seq<char>, i: int)
    requires
        agree_on(a, b, candidate_paths(cache_dir)),
        0 <= i <= BUCKETS,
    ensures
        first_bucket_from(a, cache_dir, i) == first_bucket_from(b, cache_dir, i),
    decreases BUCKETS - i,
{
    if i < BUCKETS {
        let all = candidate_paths(cache_dir);
        assert(all[3 * i] == bucket_dir(cache_dir, i));
        assert(all[3 * i + 1] == joined(bucket_dir(cache_dir, i), VIDEO_FRAGMENT@));
        assert(all[3 * i + 2] == joined(bucket_dir(cache_dir, i), AUDIO_FRAGMENT@));
        lemma_buckets_agree(a, b, cache_dir, i + 1);
    }
}

/// The first directory that holds both fragments, where there is one, is
/// one of those looked into, and does hold both.
pub proof fn lemma_first_bucket(existing: Seq<Seq<char>>, cache_dir: Seq<char>, i: int)
    requires
        0 <= i <= BUCKETS,
    ensures
        first_bucket_from(existing, cache_dir, i) matches Some(at) ==> i <= at < BUCKETS
            && holds_pair(existing, bucket_dir(cache_dir, at)),
    decreases BUCKETS - i,
{
    if i < BUCKETS {
        lemma_first_bucket(existing, cache_dir, i + 1);
    }
}

/// The characters of the `i`-th directory that is looked into.
fn bucket_dir_chars(cache_dir: &Vec<char>, i: usize) -> (r: Vec<char>)
    requires
        i < BUCKETS,
    ensures
        r@ == bucket_dir(cache_dir@, i as int),
{
    let name: &str = if i == 0 {
        "64"
    } else if i == 1 {
        "80"
    } else if i == 2 {
        "32"
    } else if i == 3 {
        "16"
    } else if i == 4 {
        "112"
    } else if i == 5 {
        "116"
    } else if i == 6 {
        "120"
    } else {
        let mut same: Vec<char> = Vec::new();
        push_chars(&mut same, cache_dir);
        return same;
    };
    let sub = chars_of(name);
    join_chars(cache_dir, &sub)
}

/// The paths of the fragments as characters.
pub(crate) fn find_m4s_chars(cache_dir: &Vec<char>, files: &Vec<FileStat>) -> (r: Option<
    (Vec<char>, Vec<char>),
>)
    ensures
        match entry_media(paths_of(files@), cache_dir@) {
            Some((video, audio)) => r matches Some(pair) && pair.0@ == video && pair.1@ == audio,
            None => r is None,
        },
{
    let video_name = chars_of(VIDEO_FRAGMENT);
    let audio_name = chars_of(AUDIO_FRAGMENT);
    let ghost existing = paths_of(files@);
    let mut i: usize = 0;
    while i < BUCKETS
        invariant
            i <= BUCKETS,
            existing == paths_of(files@),
            video_name@ == VIDEO_FRAGMENT@,
            audio_name@ == AUDIO_FRAGMENT@,
            first_bucket_from(existing, cache_dir@, 0) == first_bucket_from(
                existing,
                cache_dir@,
                i as int,
            ),
        decreases BUCKETS - i,
    {
        let base = bucket_dir_chars(cache_dir, i);
        if is_known(files, &base) {
            let video = join_chars(&base, &video_name);
            let audio = join_chars(&base, &audio_name);
            if is_known(files, &video) && is_known(files, &audio) {
                return Some((video, audio));
            }
        }
        i += 1;
    }
    None
}

/// Lists the paths that decide where the fragments of the `entry.json` in
/// `cache_dir` are (see `candidate_paths`): whoever resolves the sidecar
/// finds out which of them exist.
pub fn fragment_candidates(cache_dir: &str) -> (r: Vec<String>)
    ensures
        r.deep_view() == candidate_paths(cache_dir@),
{
    let dir = chars_of(cache_dir);
    let video_name = chars_of(VIDEO_FRAGMENT);
    let audio_name = chars_of(AUDIO_FRAGMENT);
    let mut r: Vec<String> = Vec::new();
    let mut i: usize = 0;
    while i < BUCKETS
        invariant
            i <= BUCKETS,
            dir@ == cache_dir@,
            video_name@ == VIDEO_FRAGMENT@,
            audio_name@ == AUDIO_FRAGMENT@,
            r.len() == 3 * i,
            forall|k: int| 0 <= k < 3 * i ==> r[k]@ == candidate_paths(cache_dir@)[k],
        decreases BUCKETS - i,
    {
        let base = bucket_dir_chars(&dir, i);
        r.push(string_of(&base));
        r.push(string_of(&join_chars(&base, &video_name)));
        r.push(string_of(&join_chars(&base, &audio_name)));
        i += 1;
    }
    assert(r.deep_view() =~= candidate_paths(cache_dir@));
    r
}

/// Finds the fragments that belong to the `entry.json` in `cache_dir`.
///
/// `files` lists what exists. The directories `64`, `80`, `32`, `16`, `112`,
/// `116` and `120` below `cache_dir` are looked into in this order, and then
/// `cache_dir` itself: the first that exists and holds both `video.m4s` and
/// `audio.m4s` gives the pair. Where none does, the media are missing.
pub fn find_m4s_files(cache_dir: &str, files: &Vec<FileStat>) -> (r: Result<
    (String, String),
    ParseError,
>)
    ensures
        match entry_media(paths_of(files@), cache_dir@) {
            Some((video, audio)) => r matches Ok(pair) && pair.0@ == video && pair.1@ == audio,
            None => r matches Err(ParseError::MissingMedia),
        },
{
    let dir = chars_of(cache_dir);
    match find_m4s_chars(&dir, files) {
        Some((video, audio)) => Ok((string_of(&video), string_of(&audio))),
        None => Err(ParseError::MissingMedia),
    }
}

/// What follows the item number at the start of a fragment's name.
pub const FRAGMENT_INFIX: &'static str = "-1-";

/// The ending of a fragment's name.
pub const FRAGMENT_SUFFIX: &'static str = ".m4s";

/// The number of the item that a `videoInfo.json` belongs to: the one that
/// the sidecar gives, else the name of its directory read as a number.
pub open spec fn video_item_id(item_id: Option<u64>, dir_name: Option<Seq<char>>) -> Option<u64> {
    match item_id {
        Some(id) => Some(id),
        None => match dir_name {
            Some(name) => parsed_u64(name),
            None => None,
        },
    }
}

/// How the names of the fragments of item `id` begin.
pub open spec fn fragment_prefix(id: u64) -> Seq<char> {
    decimal(id as nat) + FRAGMENT_INFIX@
}

/// `name` is the name of a fragment of item `id`.
pub open spec fn is_fragment_name(id: u64, name: Seq<char>) -> bool {
    &&& fragment_prefix(id).is_prefix_of(name)
    &&& FRAGMENT_SUFFIX@.is_suffix_of(name)
}

/// What follows the last `-` of `s`, or all of `s` where it holds none.
pub open spec fn after_last_dash(s: Seq<char>) -> Seq<char>
    decreases s.len(),
{
    if s.len() == 0 || s.last() == '-' {
        Seq::empty()
    } else {
        after_last_dash(s.drop_last()).push(s.last())
    }
}

/// The codec number at the end of a fragment's name: what stands between the
/// last `-` and the ending, read as a number, or 0 where that is no number.
pub open spec fn fragment_code(name: Seq<char>) -> u64 {
    match parsed_u64(after_last_dash(name.take(name.len() - FRAGMENT_SUFFIX@.len()))) {
        Some(n) => n,
        None => 0,
    }
}

/// The `i`-th name comes before the `j`-th when the fragments are put in
/// order: the higher codec number first, and of two equal ones the one that
/// was listed first.
pub open spec fn outranks(names: Seq<Seq<char>>, i: int, j: int) -> bool {
    ||| fragment_code(names[i]) > fragment_code(names[j])
    ||| fragment_code(names[i]) == fragment_code(names[j]) && i < j
}

/// The `i`-th name is a fragment of item `id` and comes before every other
/// such fragment, the `skip`-th left aside.
pub open spec fn is_best(names: Seq<Seq<char>>, id: u64, skip: int, i: int) -> bool {
    &&& 0 <= i < names.len()
    &&& i != skip
    &&& is_fragment_name(id, names[i])
    &&& forall|j: int|
        0 <= j < names.len() && j != skip && j != i && is_fragment_name(id, #[trigger] names[j])
            ==> outranks(names, i, j)
}

/// The index of the fragment of item `id` that comes first, the `skip`-th
/// left aside; nothing where there is no such fragment.
pub open spec fn best_index(names: Seq<Seq<char>>, id: u64, skip: int) -> Option<int> {
    if exists|i: int| is_best(names, id, skip, i) {
        Some(choose|i: int| is_best(names, id, skip, i))
    } else {
        None
    }
}

/// The indices of the video and the audio fragment of item `id` among the
/// names of a directory: the two that come first in order. That the higher
/// codec number is the video is what the caches seen so far do; nothing
/// promises it.
pub open spec fn video_info_media(names: Seq<Seq<char>>, id: u64) -> Option<(int, int)> {
    match best_index(names, id, -1) {
        Some(video) => match best_index(names, id, video) {
            Some(audio) => Some((video, audio)),
            None => None,
        },
        None => None,
    }
}

/// At most one fragment comes first.
pub proof fn lemma_best_is_unique(names: Seq<Seq<char>>, id: u64, skip: int, i: int, j: int)
    requires
        is_best(names, id, skip, i),
        is_best(names, id, skip, j),
    ensures
        i == j,
{
    if i != j {
        assert(outranks(names, i, j));
        assert(outranks(names, j, i));
    }
}

/// The two fragments that are picked are the first two in order: the video
/// comes before the audio, and each of the two before every other fragment
/// of the item.
pub proof fn lemma_media_come_first(names: Seq<Seq<char>>, id: u64)
    requires
        video_info_media(names, id) is Some,
    ensures
        ({
            let (video, audio) = video_info_media(names, id)->0;
            &&& 0 <= video < names.len()
            &&& 0 <= audio < names.len()
            &&& video != audio
            &&& is_fragment_name(id, names[video])
            &&& is_fragment_name(id, names[audio])
            &&& outranks(names, video, audio)
            &&& forall|j: int|
                0 <= j < names.len() && j != video && j != audio && is_fragment_name(
                    id,
                    #[trigger] names[j],
                ) ==> outranks(names, video, j) && outranks(names, audio, j)
        }),
{
    let video = best_index(names, id, -1)->0;
    let audio = best_index(names, id, video)->0;
    assert(is_best(names, id, -1, video));
    assert(is_best(names, id, video, audio));
}

/// Fewer than two fragments of the item give no pair, and two or more give
/// one.
pub proof fn lemma_media_need_two(names: Seq<Seq<char>>, id: u64, i: int, j: int)
    requires
        0 <= i < names.len(),
        0 <= j < names.len(),
        i != j,
        is_fragment_name(id, names[i]),
        is_fragment_name(id, names[j]),
    ensures
        video_info_media(names, id) is Some,
{
    lemma_best_exists(names, id, -1, names.len() as int);
    let video = best_index(names, id, -1)->0;
    assert(is_best(names, id, -1, video));
    lemma_best_exists(names, id, video, names.len() as int);
}

/// The fragment that comes first among the first `n` names, the `skip`-th
/// left aside; -1 where there is none.
spec fn best_among(names: Seq<Seq<char>>, id: u64, skip: int, n: int) -> int
    decreases n,
{
    if n <= 0 {
        -1
    } else {
        let before = best_among(names, id, skip, n - 1);
        if n - 1 != skip && is_fragment_name(id, names[n - 1]) && (before < 0 || fragment_code(
            names[n - 1],
        ) > fragment_code(names[before])) {
            n - 1
        } else {
            before
        }
    }
}

proof fn lemma_best_among(names: Seq<Seq<char>>, id: u64, skip: int, n: int)
    requires
        0 <= n <= names.len(),
    ensures
        ({
            let b = best_among(names, id, skip, n);
            &&& -1 <= b < n
            &&& b >= 0 ==> b != skip && is_fragment_name(id, names[b])
            &&& b >= 0 ==> forall|j: int|
                0 <= j < n && j != skip && j != b && is_fragment_name(id, #[trigger] names[j])
                    ==> outranks(names, b, j)
            &&& b < 0 ==> forall|j: int|
                0 <= j < n && j != skip ==> !is_fragment_name(id, #[trigger] names[j])
        }),
    decreases n,
{
    if n > 0 {
        lemma_best_among(names, id, skip, n - 1);
    }
}

/// Where some name other than the `skip`-th is a fragment of the item, one
/// of them comes first.
proof fn lemma_best_exists(names: Seq<Seq<char>>, id: u64, skip: int, n: int)
    requires
        n == names.len(),
        exists|j: int| 0 <= j < n && j != skip && is_fragment_name(id, #[trigger] names[j]),
    ensures
        best_index(names, id, skip) is Some,
{
    lemma_best_among(names, id, skip, n);
    let b = best_among(names, id, skip, n);
    assert(is_best(names, id, skip, b));
}

proof fn lemma_after_last_dash(s: Seq<char>, from: int)
    requires
        0 <= from <= s.len(),
        forall|k: int| from <= k < s.len() ==> s[k] != '-',
        from == 0 || s[from - 1] == '-',
    ensures
        after_last_dash(s) == s.skip(from),
    decreases s.len() - from,
{
    if from == s.len() {
        assert(s.skip(from) =~= Seq::<char>::empty());
    } else {
        lemma_after_last_dash(s.drop_last(), from);
        assert(s.drop_last().skip(from).push(s.last()) =~= s.skip(from));
    }
}

/// The codec number at the end of a name that ends as a fragment's does.
fn fragment_code_of(name: &Vec<char>) -> (r: u64)
    requires
        FRAGMENT_SUFFIX@.is_suffix_of(name@),
    ensures
        r == fragment_code(name@),
{
    proof {
        reveal_strlit(".m4s");
    }
    let end: usize = name.len() - 4;
    let ghost stem = name@.take(end as int);
    let mut from: usize = end;
    while from > 0 && name[from - 1] != '-'
        invariant
            from <= end <= name.len(),
            stem == name@.take(end as int),
            forall|k: int| from <= k < end ==> stem[k] != '-',
        decreases from,
    {
        from -= 1;
    }
    let mut segment: Vec<char> = Vec::new();
    let mut i: usize = from;
    while i < end
        invariant
            from <= i <= end <= name.len(),
            stem == name@.take(end as int),
            segment@ == stem.subrange(from as int, i as int),
        decreases end - i,
    {
        segment.push(name[i]);
        assert(segment@ =~= stem.subrange(from as int, i + 1));
        i += 1;
    }
    proof {
        lemma_after_last_dash(stem, from as int);
        assert(stem.subrange(from as int, end as int) =~= stem.skip(from as int));
    }
    match parse_u64(&segment) {
        Some(n) => n,
        None => 0,
    }
}

/// Whether `name` is the name of a fragment whose names begin with `prefix`.
fn is_fragment(prefix: &Vec<char>, name: &Vec<char>) -> (r: bool)
    ensures
        forall|id: u64|
            fragment_prefix(id) == prefix@ ==> r == #[trigger] is_fragment_name(id, name@),
{
    let suffix = chars_of(FRAGMENT_SUFFIX);
    ends_with(name, &suffix) && starts_with(name, prefix)
}

/// The names of a list of files as characters.
fn names_of(files: &Vec<FileStat>) -> (r: Vec<Vec<char>>)
    ensures
        texts(r@) == paths_of(files@),
{
    let mut r: Vec<Vec<char>> = Vec::new();
    let mut i: usize = 0;
    while i < files.len()
        invariant
            i <= files.len(),
            r.len() == i,
            forall|k: int| 0 <= k < i ==> r[k]@ == files[k].path@,
        decreases files.len() - i,
    {
        r.push(chars_of(files[i].path.as_str()));
        i += 1;
    }
    assert(texts(r@) =~= paths_of(files@));
    r
}

/// Finds the fragment of item `id` that comes first, the `skip`-th left
/// aside.
fn best_fragment(names: &Vec<Vec<char>>, id: u64, skip: Option<usize>) -> (r: Option<usize>)
    ensures
        match best_index(
            texts(names@),
            id,
            match skip {
                Some(s) => s as int,
                None => -1,
            },
        ) {
            Some(i) => r == Some(i as usize) && 0 <= i < names.len(),
            None => r is None,
        },
{
    let ghost all = texts(names@);
    let ghost aside: int = match skip {
        Some(s) => s as int,
        None => -1,
    };
    let mut prefix: Vec<char> = Vec::new();
    push_decimal(&mut prefix, id as u128);
    push_text(&mut prefix, FRAGMENT_INFIX);
    assert(prefix@ =~= fragment_prefix(id));
    let mut best: Option<(usize, u64)> = None;
    let mut k: usize = 0;
    while k < names.len()
        invariant
            k <= names.len(),
            all == texts(names@),
            prefix@ == fragment_prefix(id),
            aside == (match skip {
                Some(s) => s as int,
                None => -1,
            }),
            match best {
                Some((b, code)) => {
                    &&& b < k
                    &&& b != aside
                    &&& is_fragment_name(id, all[b as int])
                    &&& code == fragment_code(all[b as int])
                    &&& forall|j: int|
                        0 <= j < k && j != aside && j != b && is_fragment_name(
                            id,
                            #[trigger] all[j],
                        ) ==> outranks(all, b as int, j)
                },
                None => forall|j: int|
                    0 <= j < k && j != aside ==> !is_fragment_name(id, #[trigger] all[j]),
            },
        decreases names.len() - k,
    {
        let aside_here = match skip {
            Some(s) => s == k,
            None => false,
        };
        assert(all[k as int] == names[k as int]@);
        if !aside_here && is_fragment(&prefix, &names[k]) {
            assert(is_fragment_name(id, all[k as int]));
            let code = fragment_code_of(&names[k]);
            match best {
                Some((b, best_code)) => {
                    if code > best_code {
                        best = Some((k, code));
                    }
                },
                None => {
                    best = Some((k, code));
                },
            }
        }
        k += 1;
    }
    match best {
        Some((b, code)) => {
            proof {
                assert(is_best(all, id, aside, b as int));
                let chosen = choose|i: int| is_best(all, id, aside, i);
                lemma_best_is_unique(all, id, aside, b as int, chosen);
            }
            Some(b)
        },
        None => {
            assert forall|i: int| !is_best(all, id, aside, i) by {
                if 0 <= i < all.len() && i != aside {
                    assert(!is_fragment_name(id, all[i]));
                }
            }
            None
        },
    }
}

/// Reads the name of a directory as the number of an item.
pub(crate) fn item_id_of(item_id: Option<u64>, dir_name: Option<&str>) -> (r: Option<u64>)
    ensures
        r == video_item_id(item_id, str_text_of(dir_name)),
{
    match item_id {
        Some(id) => Some(id),
        None => match dir_name {
            Some(name) => {
                let chars = chars_of(name);
                parse_u64(&chars)
            },
            None => None,
        },
    }
}

/// Finds the fragments that belong to a `videoInfo.json`.
///
/// `dir_name` is the name of the directory that holds the sidecar, and
/// `names` lists what the directory holds, each `path` a bare name. The
/// number of the item is `item_id`, or `dir_name` read as a number. The
/// fragments of the item are the names that begin with that number and `-1-`
/// and end in `.m4s`. In order of their codec numbers, highest first and
/// equal ones as listed, the first is the video and the second the audio.
/// Gives the indices of the two in `names`. Where the number of the item is
/// not known or there are fewer than two fragments, the media are missing.
pub fn find_m4s_files_by_id(
    dir_name: Option<&str>,
    item_id: Option<u64>,
    names: &Vec<FileStat>,
) -> (r: Result<(usize, usize), ParseError>)
    ensures
        match video_item_id(item_id, str_text_of(dir_name)) {
            Some(id) => match video_info_media(paths_of(names@), id) {
                Some((video, audio)) => r == Ok::<(usize, usize), ParseError>(
                    (video as usize, audio as usize),
                ) && 0 <= video < names.len() && 0 <= audio < names.len() && video != audio,
                None => r matches Err(ParseError::MissingMedia),
            },
            None => r matches Err(ParseError::MissingMedia),
        },
{
    let id = match item_id_of(item_id, dir_name) {
        Some(id) => id,
        None => { return Err(ParseError::MissingMedia); },
    };
    let all = names_of(names);
    let video = match best_fragment(&all, id, None) {
        Some(i) => i,
        None => { return Err(ParseError::MissingMedia); },
    };
    let audio = match best_fragment(&all, id, Some(video)) {
        Some(i) => i,
        None => { return Err(ParseError::MissingMedia); },
    };
    proof {
        let chosen = choose|i: int| is_best(paths_of(names@), id, video as int, i);
        assert(is_best(paths_of(names@), id, video as int, chosen));
    }
    Ok((video, audio))
}

} // verus!
