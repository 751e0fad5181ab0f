//! Which files of a directory tree are sidecars, which of them count, and
//! where the cache is usually found.

use crate::cache::parser::{parse_message, ParseError, ParseFailure, VideoInfo};
use crate::paths::{first_existing, first_listed, join_chars, joined, Platform};
use crate::text::{
    chars_of, same_chars, starts_with, str_text_of, string_of, text_of, text_plus,
};
use vstd::prelude::*;

verus! {

/// How deep below the directory to scan a walk goes for sidecars.
pub const MAX_SCAN_DEPTH: usize = 6;

/// The two kinds of sidecar file. Each has its own parser and both end in the
/// same record.
#[derive(Debug, Clone, Copy, PartialEq, Eq, Structural)]
pub enum SidecarKind {
    /// `entry.json`, read by `parse_entry`.
    Entry,
    /// `videoInfo.json` or `.videoInfo`, read by `parse_video_info`.
    VideoInfo,
}

/// Why a scan gave nothing.
#[derive(Debug, Clone)]
pub enum ScanError {
    /// The directory to scan does not exist.
    DirNotFound(String),
    /// A sidecar gave no record.
    Parse(ParseError),
}

/// A scan failure as plain values.
pub ghost enum ScanFailure {
    DirNotFound(Seq<char>),
    Parse(ParseFailure),
}

impl View for ScanError {
    type V = ScanFailure;

    open spec fn view(&self) -> ScanFailure {
        match self {
            ScanError::DirNotFound(dir) => ScanFailure::DirNotFound(dir@),
            ScanError::Parse(e) => ScanFailure::Parse(e@),
        }
    }
}

/// What a scan failure says in words.
pub open spec fn scan_message(e: ScanFailure) -> Seq<char> {
    match e {
        ScanFailure::DirNotFound(dir) => "目录不存在: "@ + dir,
        ScanFailure::Parse(e) => "解析失败: "@ + parse_message(e),
    }
}

impl ScanError {
    /// What the failure says in words.
    pub fn message(&self) -> (r: String)
        ensures
            r@ == scan_message(self@),
    {
        match self {
            ScanError::DirNotFound(dir) => text_plus("目录不存在: ", dir.as_str()),
            ScanError::Parse(e) => {
                let inner = e.message();
                text_plus("解析失败: ", inner.as_str())
            },
        }
    }
}

/// A file that a walk through a directory tree came by: its name and the
/// directory that holds it, each as far as it can be told.
#[derive(Debug, Clone)]
pub struct WalkedFile {
    pub file_name: Option<String>,
    pub parent: Option<String>,
}

/// A sidecar to parse: its place among the walked files, and its kind.
#[derive(Debug, Clone, Copy, PartialEq, Eq, Structural)]
pub struct Sidecar {
    pub index: usize,
    pub kind: SidecarKind,
}

/// The kind of sidecar that a file name stands for.
pub open spec fn sidecar_kind_of(file_name: Seq<char>) -> Option<SidecarKind> {
    if file_name == "entry.json"@ {
        Some(SidecarKind::Entry)
    } else if file_name == "videoInfo.json"@ || file_name == ".videoInfo"@ {
        Some(SidecarKind::VideoInfo)
    } else {
        None
    }
}

/// The kind of sidecar that a walked file is; nothing where it is none or
/// where its name or directory cannot be told.
pub open spec fn walked_kind(file: WalkedFile) -> Option<SidecarKind> {
    if file.file_name is Some && file.parent is Some {
        sidecar_kind_of(file.file_name->0@)
    } else {
        None
    }
}

/// The `i`-th walked file is a sidecar, and no sidecar before it lies in the
/// same directory.
pub open spec fn is_first_in_dir(walked: Seq<WalkedFile>, i: int) -> bool {
    &&& 0 <= i < walked.len()
    &&& walked_kind(walked[i]) is Some
    &&& forall|j: int|
        0 <= j < i && walked_kind(#[trigger] walked[j]) is Some ==> walked[j].parent->0@
            != walked[i].parent->0@
}

/// The sidecars that count among the first `n` walked files, in order: of
/// each directory the first.
pub open spec fn selected(walked: Seq<WalkedFile>, n: int) -> Seq<Sidecar>
    decreases n,
{
    if n <= 0 {
        Seq::empty()
    } else if is_first_in_dir(walked, n - 1) {
        selected(walked, n - 1).push(
            Sidecar { index: (n - 1) as usize, kind: walked_kind(walked[n - 1])->0 },
        )
    } else {
        selected(walked, n - 1)
    }
}

/// What a scan of `dir` is to parse.
pub open spec fn scanned(dir: Seq<char>, dir_exists: bool, walked: Seq<WalkedFile>) -> Result<
    Seq<Sidecar>,
    ScanFailure,
> {
    if dir_exists {
        Ok(selected(walked, walked.len() as int))
    } else {
        Err(ScanFailure::DirNotFound(dir))
    }
}

/// Tells the kind of sidecar from a file name: `entry.json` is the one kind,
/// `videoInfo.json` and `.videoInfo` are the other, and no other name is a
/// sidecar.
pub fn sidecar_kind(file_name: &str) -> (r: Option<SidecarKind>)
    ensures
        r == sidecar_kind_of(file_name@),
{
    let name = chars_of(file_name);
    let entry = chars_of("entry.json");
    let video_info = chars_of("videoInfo.json");
    let hidden = chars_of(".videoInfo");
    if same_chars(&name, &entry) {
        Some(SidecarKind::Entry)
    } else if same_chars(&name, &video_info) || same_chars(&name, &hidden) {
        Some(SidecarKind::VideoInfo)
    } else {
        None
    }
}

/// The kind of sidecar that a walked file is.
fn kind_of_walked(file: &WalkedFile) -> (r: Option<SidecarKind>)
    ensures
        r == walked_kind(*file),
{
    match (&file.file_name, &file.parent) {
        (Some(name), Some(_)) => sidecar_kind(name.as_str()),
        _ => None,
    }
}

/// The directory of the `i`-th walked file.
pub open spec fn dir_at(walked: Seq<WalkedFile>, i: int) -> Seq<char> {
    walked[i].parent->0@
}

/// One of the sidecars `chosen` lies in the directory `dir`.
pub open spec fn covers(walked: Seq<WalkedFile>, chosen: Seq<Sidecar>, dir: Seq<char>) -> bool {
    exists|k: int| 0 <= k < chosen.len() && dir_at(walked, #[trigger] chosen[k].index as int) == dir
}

/// The sidecars selected among the first `n` files are sidecars among them,
/// and every sidecar among them shares its directory with a selected one.
proof fn lemma_selected(walked: Seq<WalkedFile>, n: int)
    requires
        0 <= n <= walked.len() <= usize::MAX,
    ensures
        forall|k: int|
            0 <= k < selected(walked, n).len() ==> {
                let s = #[trigger] selected(walked, n)[k];
                0 <= s.index < n && walked_kind(walked[s.index as int]) == Some(s.kind)
            },
        forall|j: int|
            0 <= j < n && walked_kind(walked[j]) is Some ==> covers(
                walked,
                selected(walked, n),
                #[trigger] dir_at(walked, j),
            ),
    decreases n,
{
    if n > 0 {
        lemma_selected(walked, n - 1);
        let before = selected(walked, n - 1);
        let now = selected(walked, n);
        assert forall|j: int| 0 <= j < n && walked_kind(walked[j]) is Some implies covers(
            walked,
            now,
            #[trigger] dir_at(walked, j),
        ) by {
            if j < n - 1 {
                assert(covers(walked, before, dir_at(walked, j)));
                let k = choose|k: int|
                    0 <= k < before.len() && dir_at(walked, #[trigger] before[k].index as int)
                        == dir_at(walked, j);
                assert(now[k] == before[k]);
            } else if is_first_in_dir(walked, n - 1) {
                assert(now[now.len() - 1].index == n - 1);
            } else {
                let i = choose|i: int|
                    0 <= i < n - 1 && walked_kind(#[trigger] walked[i]) is Some
                        && walked[i].parent->0@ == walked[n - 1].parent->0@;
                assert(covers(walked, before, dir_at(walked, i)));
                let k = choose|k: int|
                    0 <= k < before.len() && dir_at(walked, #[trigger] before[k].index as int)
                        == dir_at(walked, i);
                assert(now[k] == before[k]);
            }
        }
    }
}

/// Of each directory that holds a sidecar, a scan takes exactly one: no two
/// of the sidecars taken lie in the same directory, and every sidecar that
/// was walked lies in the directory of one that was taken. They are taken in
/// the order of the walk.
pub proof fn lemma_one_sidecar_per_dir(walked: Seq<WalkedFile>)
    requires
        walked.len() <= usize::MAX,
    ensures
        forall|a: int, b: int|
            0 <= a < b < selected(walked, walked.len() as int).len() ==> {
                let first = #[trigger] selected(walked, walked.len() as int)[a];
                let second = #[trigger] selected(walked, walked.len() as int)[b];
                first.index < second.index && dir_at(walked, first.index as int) != dir_at(
                    walked,
                    second.index as int,
                )
            },
        forall|j: int|
            0 <= j < walked.len() && walked_kind(walked[j]) is Some ==> covers(
                walked,
                selected(walked, walked.len() as int),
                #[trigger] dir_at(walked, j),
            ),
{
    lemma_selected(walked, walked.len() as int);
    lemma_selected_apart(walked, walked.len() as int);
}

proof fn lemma_selected_apart(walked: Seq<WalkedFile>, n: int)
    requires
        0 <= n <= walked.len() <= usize::MAX,
    ensures
        forall|a: int, b: int|
            0 <= a < b < selected(walked, n).len() ==> {
                let first = #[trigger] selected(walked, n)[a];
                let second = #[trigger] selected(walked, n)[b];
                first.index < second.index && dir_at(walked, first.index as int) != dir_at(
                    walked,
                    second.index as int,
                )
            },
    decreases n,
{
    if n > 0 {
        lemma_selected_apart(walked, n - 1);
        lemma_selected(walked, n - 1);
        let before = selected(walked, n - 1);
        let now = selected(walked, n);
        assert forall|a: int, b: int| 0 <= a < b < now.len() implies {
            let first = #[trigger] now[a];
            let second = #[trigger] now[b];
            first.index < second.index && dir_at(walked, first.index as int) != dir_at(
                walked,
                second.index as int,
            )
        } by {
            if b < before.len() {
                assert(now[a] == before[a]);
                assert(now[b] == before[b]);
            } else {
                assert(is_first_in_dir(walked, n - 1));
                assert(now[b].index == n - 1);
                assert(now[a] == before[a]);
                assert(walked_kind(walked[before[a].index as int]) is Some);
            }
        }
    }
}

/// Whether one of the sidecars chosen so far lies in the directory `dir`.
fn is_covered(walked: &Vec<WalkedFile>, chosen: &Vec<Sidecar>, dir: &Vec<char>) -> (r: bool)
    requires
        forall|k: int|
            0 <= k < chosen.len() ==> (#[trigger] chosen[k]).index < walked.len() && walked_kind(
                walked[chosen[k].index as int],
            ) is Some,
    ensures
        r == covers(walked@, chosen@, dir@),
{
    let mut k: usize = 0;
    while k < chosen.len()
        invariant
            k <= chosen.len(),
            forall|k: int|
                0 <= k < chosen.len() ==> (#[trigger] chosen[k]).index < walked.len()
                    && walked_kind(walked[chosen[k].index as int]) is Some,
            forall|j: int|
                0 <= j < k ==> dir_at(walked@, (#[trigger] chosen[j]).index as int) != dir@,
        decreases chosen.len() - k,
    {
        let at = chosen[k].index;
        match &walked[at].parent {
            Some(parent) => {
                let there = chars_of(parent.as_str());
                if same_chars(&there, dir) {
                    return true;
                }
            },
            None => {},
        }
        k += 1;
    }
    false
}

/// Decides what a scan of `dir` is to parse.
///
/// `walked` holds the files below `dir` in the order of the walk. Fails with
/// `DirNotFound` where `dir` does not exist. Else gives the sidecars among
/// the walked files, in order, of each directory only the first: a directory
/// is done with once one of its sidecars was met, whether that one gives a
/// record or not.
pub fn scan(dir: &str, dir_exists: bool, walked: &Vec<WalkedFile>) -> (r: Result<
    Vec<Sidecar>,
    ScanError,
>)
    ensures
        match r {
            Ok(sidecars) => scanned(dir@, dir_exists, walked@) == Ok::<Seq<Sidecar>, ScanFailure>(
                sidecars@,
            ),
            Err(e) => scanned(dir@, dir_exists, walked@) == Err::<Seq<Sidecar>, ScanFailure>(e@),
        },
{
    if !dir_exists {
        return Err(ScanError::DirNotFound(dir.to_owned()));
    }
    let mut sidecars: Vec<Sidecar> = Vec::new();
    let mut i: usize = 0;
    while i < walked.len()
        invariant
            i <= walked.len(),
            sidecars@ == selected(walked@, i as int),
        decreases walked.len() - i,
    {
        proof {
            lemma_selected(walked@, i as int);
        }
        match kind_of_walked(&walked[i]) {
            Some(kind) => {
                let parent = match &walked[i].parent {
                    Some(parent) => chars_of(parent.as_str()),
                    None => Vec::new(),
                };
                assert(parent@ == dir_at(walked@, i as int));
                if !is_covered(walked, &sidecars, &parent) {
                    assert forall|j: int|
                        0 <= j < i && walked_kind(#[trigger] walked@[j]) is Some implies dir_at(
                        walked@,
                        j,
                    ) != dir_at(walked@, i as int) by {
                        assert(covers(walked@, sidecars@, dir_at(walked@, j)));
                    }
                    assert(is_first_in_dir(walked@, i as int));
                    sidecars.push(Sidecar { index: i, kind });
                } else {
                    let ghost k = choose|k: int|
                        0 <= k < sidecars.len() && dir_at(
                            walked@,
                            (#[trigger] sidecars@[k]).index as int,
                        ) == parent@;
                    assert(walked_kind(walked@[sidecars@[k].index as int]) is Some);
                    assert(!is_first_in_dir(walked@, i as int));
                }
            },
            None => {},
        }
        i += 1;
    }
    Ok(sidecars)
}

/// The records of the sidecars that gave one, in order.
pub open spec fn records_of(results: Seq<Result<VideoInfo, ParseError>>) -> Seq<VideoInfo>
    decreases results.len(),
{
    if results.len() == 0 {
        Seq::empty()
    } else {
        match results.last() {
            Ok(info) => records_of(results.drop_last()).push(info),
            Err(_) => records_of(results.drop_last()),
        }
    }
}

/// Keeps the records of the sidecars that gave one, in order. A sidecar that
/// gave none costs the scan nothing but its own record.
pub fn collect_videos(results: Vec<Result<VideoInfo, ParseError>>) -> (r: Vec<VideoInfo>)
    ensures
        r@ == records_of(results@),
{
    let ghost all = results@;
    let mut r: Vec<VideoInfo> = Vec::new();
    for result in it: results
        invariant
            it.seq() == all,
            r@ == records_of(all.take(it.index() as int)),
    {
        let ghost before = all.take(it.index() as int);
        let ghost now = all.take(it.index() + 1);
        assert(now.drop_last() =~= before);
        assert(now.last() == result);
        match result {
            Ok(info) => {
                r.push(info);
            },
            Err(_) => {},
        }
    }
    assert(all.take(all.len() as int) =~= all);
    r
}

/// How the name of the package begins that holds the cache on Windows.
pub const STORE_PACKAGE_PREFIX: &'static str = "Microsoft.48666Bilibili";

/// The first of the names from the `i`-th on that begins with `prefix`.
pub open spec fn first_with_prefix(names: Seq<Seq<char>>, prefix: Seq<char>, i: int) -> Option<
    Seq<char>,
>
    decreases names.len() - i,
{
    if i < 0 || i >= names.len() {
        None
    } else if prefix.is_prefix_of(names[i]) {
        Some(names[i])
    } else {
        first_with_prefix(names, prefix, i + 1)
    }
}

/// The places where the cache is usually found.
///
/// On macOS, three directories below the home directory. On Windows, the
/// download directory below the directory for local data, and the one of the
/// first store package whose name begins with `STORE_PACKAGE_PREFIX`. Nothing
/// where the directory to start from is not known, and nothing elsewhere.
pub open spec fn default_paths(
    platform: Platform,
    home: Option<Seq<char>>,
    local_data: Option<Seq<char>>,
    packages: Seq<Seq<char>>,
) -> Seq<Seq<char>> {
    match platform {
        Platform::MacOs => match home {
            Some(home) => seq![
                joined(home, "Movies/bilibili"@),
                joined(home, "Movies/Bilibili"@),
                joined(home, "Library/Containers/com.bilibili.bilibili/Data/Download"@),
            ],
            None => Seq::empty(),
        },
        Platform::Windows => match local_data {
            Some(local) => {
                let plain = seq![joined(joined(local, "bilibili"@), "download"@)];
                match first_with_prefix(packages, STORE_PACKAGE_PREFIX@, 0) {
                    Some(package) => plain.push(
                        joined(
                            joined(joined(joined(local, "Packages"@), package), "LocalState"@),
                            "download"@,
                        ),
                    ),
                    None => plain,
                }
            },
            None => Seq::empty(),
        },
        Platform::Other => Seq::empty(),
    }
}

/// `name` below `dir`.
fn child(dir: &Vec<char>, name: &str) -> (r: Vec<char>)
    ensures
        r@ == joined(dir@, name@),
{
    let part = chars_of(name);
    join_chars(dir, &part)
}

/// The first of the names that begins with `prefix`.
fn find_with_prefix(names: &Vec<String>, prefix: &str) -> (r: Option<Vec<char>>)
    ensures
        match first_with_prefix(names.deep_view(), prefix@, 0) {
            Some(name) => r is Some && r->0@ == name,
            None => r is None,
        },
{
    let start = chars_of(prefix);
    let ghost all = names.deep_view();
    let mut i: usize = 0;
    while i < names.len()
        invariant
            i <= names.len(),
            all == names.deep_view(),
            start@ == prefix@,
            first_with_prefix(all, prefix@, 0) == first_with_prefix(all, prefix@, i as int),
        decreases names.len() - i,
    {
        let name = chars_of(names[i].as_str());
        assert(all[i as int] == names@[i as int]@);
        if starts_with(&name, &start) {
            return Some(name);
        }
        i += 1;
    }
    None
}

/// Lists the places where the cache is usually found (see `default_paths`).
///
/// `home` is the home directory, `local_data` the directory for local data
/// of programs, and `packages` the names of the store packages below it;
/// each is used only on the system that has it.
pub fn default_cache_paths(
    platform: Platform,
    home: Option<&str>,
    local_data: Option<&str>,
    packages: &Vec<String>,
) -> (r: Vec<String>)
    ensures
        r.deep_view() == default_paths(
            platform,
            str_text_of(home),
            str_text_of(local_data),
            packages.deep_view(),
        ),
{
    let mut r: Vec<String> = Vec::new();
    match platform {
        Platform::MacOs => {
            if let Some(home) = home {
                let home = chars_of(home);
                r.push(string_of(&child(&home, "Movies/bilibili")));
                r.push(string_of(&child(&home, "Movies/Bilibili")));
                r.push(
                    string_of(
                        &child(&home, "Library/Containers/com.bilibili.bilibili/Data/Download"),
                    ),
                );
            }
        },
        Platform::Windows => {
            if let Some(local) = local_data {
                let local = chars_of(local);
                r.push(string_of(&child(&child(&local, "bilibili"), "download")));
                if let Some(package) = find_with_prefix(packages, STORE_PACKAGE_PREFIX) {
                    let store = join_chars(&child(&local, "Packages"), &package);
                    r.push(string_of(&child(&child(&store, "LocalState"), "download")));
                }
            }
        },
        Platform::Other => {},
    }
    assert(r.deep_view() =~= default_paths(
        platform,
        str_text_of(home),
        str_text_of(local_data),
        packages.deep_view(),
    ));
    r
}

/// The places that are offered first when the user is asked for the cache:
/// on macOS the two directories below `Movies`, on Windows all the usual
/// places, and none elsewhere.
pub open spec fn dialog_candidates(
    platform: Platform,
    home: Option<Seq<char>>,
    local_data: Option<Seq<char>>,
    packages: Seq<Seq<char>>,
) -> Seq<Seq<char>> {
    let usual = default_paths(platform, home, local_data, packages);
    if platform == Platform::MacOs && usual.len() > 2 {
        usual.take(2)
    } else {
        usual
    }
}

/// The directory to open when the user is asked for the cache: the first of
/// the `dialog_candidates` that exists, else the directory for documents.
/// Nothing where the home directory is not known, nor on Windows where the
/// directory for local data is not known.
pub open spec fn dialog_path(
    platform: Platform,
    home: Option<Seq<char>>,
    local_data: Option<Seq<char>>,
    packages: Seq<Seq<char>>,
    documents: Option<Seq<char>>,
    existing: Seq<Seq<char>>,
) -> Option<Seq<char>> {
    if home is None || (platform == Platform::Windows && local_data is None) {
        None
    } else {
        match first_listed(dialog_candidates(platform, home, local_data, packages), existing, 0) {
            Some(path) => Some(path),
            None => documents,
        }
    }
}

/// Picks the directory to open when the user is asked for the cache (see
/// `dialog_path`). `existing` holds those of the usual places that exist.
pub fn default_cache_dialog_path(
    platform: Platform,
    home: Option<&str>,
    local_data: Option<&str>,
    packages: &Vec<String>,
    documents: Option<&str>,
    existing: &Vec<String>,
) -> (r: Option<String>)
    ensures
        text_of(r) == dialog_path(
            platform,
            str_text_of(home),
            str_text_of(local_data),
            packages.deep_view(),
            str_text_of(documents),
            existing.deep_view(),
        ),
{
    if home.is_none() {
        return None;
    }
    if platform == Platform::Windows && local_data.is_none() {
        return None;
    }
    let mut candidates = default_cache_paths(platform, home, local_data, packages);
    if platform == Platform::MacOs && candidates.len() > 2 {
        candidates.truncate(2);
    }
    assert(candidates.deep_view() =~= dialog_candidates(
        platform,
        str_text_of(home),
        str_text_of(local_data),
        packages.deep_view(),
    ));
    match first_existing(&candidates, existing) {
        Some(path) => Some(path),
        None => match documents {
            Some(dir) => Some(dir.to_owned()),
            None => None,
        },
    }
}

} // verus!
