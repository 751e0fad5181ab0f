//! Resolves one sidecar file and the fragments beside it into one record.
//!
//! The two kinds of sidecar are read by two functions, `parse_entry` and
//! `parse_video_info`, which end in the same record. Both take the decoded
//! sidecar and what is known of the files around it, and touch no disk.

use crate::cache::fragments::{
    add_sizes, best_index, entry_media, find_m4s_chars, find_m4s_files_by_id, is_best,
    is_fragment_name, item_id_of, known_size, lemma_first_bucket, paths_of, size_of, size_or_zero,
    total_size, video_info_media, video_item_id, FileStat,
};
use crate::cache::quality::{
    _qn_to_quality, _quality_to_str, _type_tag_to_quality, plain_label, qn_label, type_tag_label,
};
use crate::paths::{join_chars, joined, listed};
use crate::text::{chars_of, str_text_of, string_of, text_of, text_plus};
use vstd::prelude::*;

verus! {

/// One playable unit of the cache: a video fragment, an audio fragment, and
/// what the sidecar says about them.
#[derive(Debug, Clone)]
pub struct VideoInfo {
    /// The directory that holds the sidecar.
    pub cache_dir: String,
    /// The name to show. Neither unique nor fit for a file name.
    pub title: String,
    /// The quality in words, such as `1080P`.
    pub quality: String,
    /// The number of the part, from 1.
    pub page: u32,
    /// The number of parts, as far as known: at least 1 and at least `page`.
    pub total_pages: u32,
    /// The size of both fragments together, in bytes.
    pub size_bytes: u64,
    /// The day on which the sidecar was last written, as `YYYY-MM-DD`.
    pub cached_at: Option<String>,
    /// The path of the video fragment.
    pub video_path: String,
    /// The path of the audio fragment.
    pub audio_path: String,
}

/// A record as plain values.
pub ghost struct Record {
    pub cache_dir: Seq<char>,
    pub title: Seq<char>,
    pub quality: Seq<char>,
    pub page: u32,
    pub total_pages: u32,
    pub size_bytes: u64,
    pub cached_at: Option<Seq<char>>,
    pub video_path: Seq<char>,
    pub audio_path: Seq<char>,
}

impl View for VideoInfo {
    type V = Record;

    open spec fn view(&self) -> Record {
        Record {
            cache_dir: self.cache_dir@,
            title: self.title@,
            quality: self.quality@,
            page: self.page,
            total_pages: self.total_pages,
            size_bytes: self.size_bytes,
            cached_at: text_of(self.cached_at),
            video_path: self.video_path@,
            audio_path: self.audio_path@,
        }
    }
}

/// The part of an `entry.json` sidecar that describes the page.
#[derive(Debug, Clone)]
pub struct PageData {
    pub page: Option<u32>,
    pub part: Option<String>,
    pub index_title: Option<String>,
}

/// A decoded `entry.json` sidecar. Every field may be absent.
#[derive(Debug, Clone)]
pub struct EntryJson {
    pub title: Option<String>,
    pub page_data: Option<PageData>,
    pub type_tag: Option<String>,
    pub quality: Option<u32>,
}

/// A decoded `videoInfo.json` sidecar. Every field may be absent.
#[derive(Debug, Clone)]
pub struct VideoInfoJson {
    pub item_id: Option<u64>,
    pub title: Option<String>,
    pub tab_name: Option<String>,
    pub p: Option<u32>,
    pub qn: Option<u32>,
}

/// A point in time: whole seconds since 1970-01-01 00:00:00 UTC, and the
/// nanoseconds after that second.
#[derive(Debug, Clone, Copy, PartialEq, Eq, Structural)]
pub struct Timestamp {
    pub secs: i64,
    pub nanos: u32,
}

/// Why a sidecar gave no record.
#[derive(Debug, Clone)]
pub enum ParseError {
    /// The sidecar or its directory could not be read; the reason in words.
    Io(String),
    /// The sidecar is not what its kind asks for; the reason in words.
    Json(String),
    /// No pair of fragments was found.
    MissingMedia,
}

/// A failure as plain values.
pub ghost enum ParseFailure {
    Io(Seq<char>),
    Json(Seq<char>),
    MissingMedia,
}

impl View for ParseError {
    type V = ParseFailure;

    open spec fn view(&self) -> ParseFailure {
        match self {
            ParseError::Io(reason) => ParseFailure::Io(reason@),
            ParseError::Json(reason) => ParseFailure::Json(reason@),
            ParseError::MissingMedia => ParseFailure::MissingMedia,
        }
    }
}

/// What a failure says in words.
pub open spec fn parse_message(e: ParseFailure) -> Seq<char> {
    match e {
        ParseFailure::Io(reason) => "无法读取 entry.json: "@ + reason,
        ParseFailure::Json(reason) => "JSON 解析失败: "@ + reason,
        ParseFailure::MissingMedia => "缺少视频或音频文件"@,
    }
}

impl ParseError {
    /// What the failure says in words.
    pub fn message(&self) -> (r: String)
        ensures
            r@ == parse_message(self@),
    {
        match self {
            ParseError::Io(reason) => text_plus("无法读取 entry.json: ", reason.as_str()),
            ParseError::Json(reason) => text_plus("JSON 解析失败: ", reason.as_str()),
            ParseError::MissingMedia => "缺少视频或音频文件".to_owned(),
        }
    }
}

/// What a parse gave, as plain values.
pub open spec fn outcome_of(r: Result<VideoInfo, ParseError>) -> Result<Record, ParseFailure> {
    match r {
        Ok(info) => Ok(info@),
        Err(e) => Err(e@),
    }
}

/// The title where the sidecar gives none.
pub const UNKNOWN_TITLE: &'static str = "未知标题";

/// The quality where the sidecar gives none.
pub const UNKNOWN_QUALITY: &'static str = "未知";

/// The day of a point in time in UTC, written as `chrono` writes it under the
/// pattern `%Y-%m-%d`; nothing where `chrono` cannot hold the point in time.
pub uninterp spec fn utc_date_text(secs: i64, nanos: u32) -> Option<Seq<char>>;

/// `chrono::DateTime::<Utc>::from_timestamp`, and on the date and time that
/// it gives `DateTime::format` with the pattern `%Y-%m-%d`. `from_timestamp`
/// gives nothing where the seconds or the nanoseconds are out of range; the
/// day then comes out in UTC, which no setting of the machine changes. The
/// contract gives that text the name `utc_date_text` and claims no more.
#[verifier::external_body]
fn utc_date(secs: i64, nanos: u32) -> (r: Option<String>)
    ensures
        utc_date_text(secs, nanos) == text_of(r),
{
    match chrono::DateTime::<chrono::Utc>::from_timestamp(secs, nanos) {
        Some(t) => Some(t.format("%Y-%m-%d").to_string()),
        None => None,
    }
}

/// The day on which a sidecar was last written, where that is known.
pub open spec fn cached_on(modified: Option<Timestamp>) -> Option<Seq<char>> {
    match modified {
        Some(t) => utc_date_text(t.secs, t.nanos),
        None => None,
    }
}

/// The day on which a sidecar was last written, as `YYYY-MM-DD` in UTC;
/// nothing where the time is not known or cannot be written as a date.
pub fn cached_at(modified: Option<Timestamp>) -> (r: Option<String>)
    ensures
        text_of(r) == cached_on(modified),
{
    match modified {
        Some(t) => utc_date(t.secs, t.nanos),
        None => None,
    }
}

/// The number of parts that goes with a page number.
pub open spec fn total_pages_for(page: u32) -> u32 {
    if page < 1 {
        1
    } else {
        page
    }
}

/// The title that an `entry.json` gives: the name of the part, else the
/// title of the page in the index, else the title of the whole, else the
/// placeholder.
pub open spec fn entry_title(entry: EntryJson) -> Seq<char> {
    if entry.page_data is Some && entry.page_data->0.part is Some {
        entry.page_data->0.part->0@
    } else if entry.page_data is Some && entry.page_data->0.index_title is Some {
        entry.page_data->0.index_title->0@
    } else if entry.title is Some {
        entry.title->0@
    } else {
        UNKNOWN_TITLE@
    }
}

/// The quality that an `entry.json` gives: that of the type tag, else that of
/// the plain number, else the placeholder.
pub open spec fn entry_quality(entry: EntryJson) -> Seq<char> {
    if entry.type_tag is Some {
        type_tag_label(entry.type_tag->0@)
    } else if entry.quality is Some {
        plain_label(entry.quality->0 as nat)
    } else {
        UNKNOWN_QUALITY@
    }
}

/// The page that an `entry.json` gives, or 1.
pub open spec fn entry_page(entry: EntryJson) -> u32 {
    if entry.page_data is Some && entry.page_data->0.page is Some {
        entry.page_data->0.page->0
    } else {
        1
    }
}

/// The record that an `entry.json` in `cache_dir` gives with the fragments
/// `media`.
pub open spec fn entry_record(
    cache_dir: Seq<char>,
    entry: EntryJson,
    files: Seq<FileStat>,
    modified: Option<Timestamp>,
    media: (Seq<char>, Seq<char>),
) -> Record {
    Record {
        cache_dir,
        title: entry_title(entry),
        quality: entry_quality(entry),
        page: entry_page(entry),
        total_pages: total_pages_for(entry_page(entry)),
        size_bytes: total_size(known_size(files, media.0), known_size(files, media.1)),
        cached_at: cached_on(modified),
        video_path: media.0,
        audio_path: media.1,
    }
}

/// What `parse_entry` gives: the record, or the failure where the media are
/// missing.
pub open spec fn parsed_entry(
    cache_dir: Option<Seq<char>>,
    entry: EntryJson,
    files: Seq<FileStat>,
    modified: Option<Timestamp>,
) -> Result<Record, ParseFailure> {
    match cache_dir {
        Some(dir) => match entry_media(paths_of(files), dir) {
            Some(media) => Ok(entry_record(dir, entry, files, modified, media)),
            None => Err(ParseFailure::MissingMedia),
        },
        None => Err(ParseFailure::MissingMedia),
    }
}

/// The fragments of a record that `parse_entry` gives are among the files
/// that were listed, and its number of parts is at least 1 and at least its
/// page.
pub proof fn lemma_entry_record_is_sound(
    cache_dir: Option<Seq<char>>,
    entry: EntryJson,
    files: Seq<FileStat>,
    modified: Option<Timestamp>,
)
    requires
        parsed_entry(cache_dir, entry, files, modified) is Ok,
    ensures
        ({
            let record = parsed_entry(cache_dir, entry, files, modified)->Ok_0;
            &&& listed(paths_of(files), record.video_path)
            &&& listed(paths_of(files), record.audio_path)
            &&& record.total_pages >= 1
            &&& record.total_pages >= record.page
            &&& Some(record.cache_dir) == cache_dir
        }),
{
    lemma_first_bucket(paths_of(files), cache_dir->0, 0);
}

fn entry_title_of(entry: &EntryJson) -> (r: String)
    ensures
        r@ == entry_title(*entry),
{
    if let Some(page_data) = &entry.page_data {
        if let Some(part) = &page_data.part {
            return part.clone();
        }
        if let Some(index_title) = &page_data.index_title {
            return index_title.clone();
        }
    }
    if let Some(title) = &entry.title {
        return title.clone();
    }
    UNKNOWN_TITLE.to_owned()
}

fn entry_quality_of(entry: &EntryJson) -> (r: String)
    ensures
        r@ == entry_quality(*entry),
{
    if let Some(tag) = &entry.type_tag {
        if let Some(label) = _type_tag_to_quality(Some(tag.as_str())) {
            return label;
        }
    }
    if let Some(label) = _quality_to_str(entry.quality) {
        return label;
    }
    UNKNOWN_QUALITY.to_owned()
}

fn entry_page_of(entry: &EntryJson) -> (r: u32)
    ensures
        r == entry_page(*entry),
{
    if let Some(page_data) = &entry.page_data {
        if let Some(page) = page_data.page {
            return page;
        }
    }
    1
}

fn total_pages_of(page: u32) -> (r: u32)
    ensures
        r == total_pages_for(page),
{
    if page < 1 {
        1
    } else {
        page
    }
}

/// Resolves an `entry.json` sidecar into a record.
///
/// `cache_dir` is the directory that holds the sidecar, `entry` what it
/// decodes to, `files` what exists below that directory, with sizes, and
/// `modified` the time at which the sidecar was last written.
///
/// Fails with `MissingMedia` where the sidecar has no directory or no
/// directory holds both fragments (see `find_m4s_files`), and never
/// otherwise. The record takes its title, quality and page from the sidecar
/// by the priorities of `entry_title`, `entry_quality` and `entry_page`.
pub fn parse_entry(
    cache_dir: Option<&str>,
    entry: &EntryJson,
    files: &Vec<FileStat>,
    modified: Option<Timestamp>,
) -> (r: Result<VideoInfo, ParseError>)
    ensures
        outcome_of(r) == parsed_entry(str_text_of(cache_dir), *entry, files@, modified),
{
    let cache_dir = match cache_dir {
        Some(dir) => dir,
        None => { return Err(ParseError::MissingMedia); },
    };
    let dir = chars_of(cache_dir);
    let (video, audio) = match find_m4s_chars(&dir, files) {
        Some(pair) => pair,
        None => { return Err(ParseError::MissingMedia); },
    };
    let page = entry_page_of(entry);
    let size_bytes = add_sizes(size_of(files, &video), size_of(files, &audio));
    Ok(
        VideoInfo {
            cache_dir: cache_dir.to_owned(),
            title: entry_title_of(entry),
            quality: entry_quality_of(entry),
            page,
            total_pages: total_pages_of(page),
            size_bytes,
            cached_at: cached_at(modified),
            video_path: string_of(&video),
            audio_path: string_of(&audio),
        },
    )
}

/// The title that a `videoInfo.json` gives: the name of the tab, else the
/// title, else the placeholder.
pub open spec fn video_info_title(info: VideoInfoJson) -> Seq<char> {
    if info.tab_name is Some {
        info.tab_name->0@
    } else if info.title is Some {
        info.title->0@
    } else {
        UNKNOWN_TITLE@
    }
}

/// The quality that a `videoInfo.json` gives: that of its quality code, else
/// the placeholder.
pub open spec fn video_info_quality(info: VideoInfoJson) -> Seq<char> {
    if info.qn is Some {
        qn_label(info.qn->0)
    } else {
        UNKNOWN_QUALITY@
    }
}

/// The page that a `videoInfo.json` gives, or 1.
pub open spec fn video_info_page(info: VideoInfoJson) -> u32 {
    if info.p is Some {
        info.p->0
    } else {
        1
    }
}

/// The record that a `videoInfo.json` in `cache_dir` gives with the
/// fragments at the indices `media` of the directory's listing.
pub open spec fn video_info_record(
    cache_dir: Seq<char>,
    info: VideoInfoJson,
    names: Seq<FileStat>,
    modified: Option<Timestamp>,
    media: (int, int),
) -> Record {
    Record {
        cache_dir,
        title: video_info_title(info),
        quality: video_info_quality(info),
        page: video_info_page(info),
        total_pages: total_pages_for(video_info_page(info)),
        size_bytes: total_size(
            size_or_zero(names[media.0].size),
            size_or_zero(names[media.1].size),
        ),
        cached_at: cached_on(modified),
        video_path: joined(cache_dir, names[media.0].path@),
        audio_path: joined(cache_dir, names[media.1].path@),
    }
}

/// What `parse_video_info` gives: the record or the failure. The checks come
/// in this order: the sidecar has a directory, the number of the item is
/// known, the directory was read, two fragments are there.
pub open spec fn parsed_video_info(
    cache_dir: Option<Seq<char>>,
    dir_name: Option<Seq<char>>,
    info: VideoInfoJson,
    listing: Result<Vec<FileStat>, String>,
    modified: Option<Timestamp>,
) -> Result<Record, ParseFailure> {
    if cache_dir is None {
        Err(ParseFailure::MissingMedia)
    } else if video_item_id(info.item_id, dir_name) is None {
        Err(ParseFailure::MissingMedia)
    } else if listing is Err {
        Err(ParseFailure::Io(listing->Err_0@))
    } else {
        let id = video_item_id(info.item_id, dir_name)->0;
        match video_info_media(paths_of(listing->Ok_0@), id) {
            Some(media) => Ok(
                video_info_record(cache_dir->0, info, listing->Ok_0@, modified, media),
            ),
            None => Err(ParseFailure::MissingMedia),
        }
    }
}

/// The fragments of a record that `parse_video_info` gives are two different
/// files of the directory's listing, both fragments of the item, and its
/// number of parts is at least 1 and at least its page.
pub proof fn lemma_video_info_record_is_sound(
    cache_dir: Option<Seq<char>>,
    dir_name: Option<Seq<char>>,
    info: VideoInfoJson,
    listing: Result<Vec<FileStat>, String>,
    modified: Option<Timestamp>,
)
    requires
        parsed_video_info(cache_dir, dir_name, info, listing, modified) is Ok,
    ensures
        ({
            let record = parsed_video_info(cache_dir, dir_name, info, listing, modified)->Ok_0;
            let names = paths_of(listing->Ok_0@);
            let id = video_item_id(info.item_id, dir_name)->0;
            &&& exists|v: int, a: int|
                {
                    &&& 0 <= v < names.len()
                    &&& 0 <= a < names.len()
                    &&& v != a
                    &&& is_fragment_name(id, names[v])
                    &&& is_fragment_name(id, names[a])
                    &&& record.video_path == joined(cache_dir->0, #[trigger] names[v])
                    &&& record.audio_path == joined(cache_dir->0, #[trigger] names[a])
                }
            &&& record.total_pages >= 1
            &&& record.total_pages >= record.page
        }),
{
    let names = paths_of(listing->Ok_0@);
    let id = video_item_id(info.item_id, dir_name)->0;
    let v = best_index(names, id, -1)->0;
    let a = best_index(names, id, v)->0;
    assert(is_best(names, id, -1, v));
    assert(is_best(names, id, v, a));
    assert(names[v] == listing->Ok_0@[v].path@);
    assert(names[a] == listing->Ok_0@[a].path@);
}

fn video_info_title_of(info: &VideoInfoJson) -> (r: String)
    ensures
        r@ == video_info_title(*info),
{
    if let Some(tab_name) = &info.tab_name {
        return tab_name.clone();
    }
    if let Some(title) = &info.title {
        return title.clone();
    }
    UNKNOWN_TITLE.to_owned()
}

fn video_info_quality_of(info: &VideoInfoJson) -> (r: String)
    ensures
        r@ == video_info_quality(*info),
{
    match _qn_to_quality(info.qn) {
        Some(label) => label,
        None => UNKNOWN_QUALITY.to_owned(),
    }
}

/// The path of the `i`-th file of a directory's listing.
fn path_in(cache_dir: &Vec<char>, names: &Vec<FileStat>, i: usize) -> (r: String)
    requires
        i < names.len(),
    ensures
        r@ == joined(cache_dir@, names[i as int].path@),
{
    let name = chars_of(names[i].path.as_str());
    let path = join_chars(cache_dir, &name);
    string_of(&path)
}

/// The size of the `i`-th file of a listing, or 0 where it is not known.
fn size_in(names: &Vec<FileStat>, i: usize) -> (r: u64)
    requires
        i < names.len(),
    ensures
        r == size_or_zero(names[i as int].size),
{
    match names[i].size {
        Some(n) => n,
        None => 0,
    }
}

/// Resolves a `videoInfo.json` sidecar into a record.
///
/// `cache_dir` is the directory that holds the sidecar and `dir_name` the
/// last part of its path, `info` what the sidecar decodes to, `listing` what
/// the directory holds by bare name, with sizes, or the reason why it could
/// not be read, and `modified` the time at which the sidecar was last
/// written.
///
/// Fails with `MissingMedia` where the sidecar has no directory, where the
/// number of the item is not known, and where fewer than two fragments of
/// the item are listed (see `find_m4s_files_by_id`); with `Io` where the
/// directory could not be read. The record takes its title, quality and page
/// from the sidecar by the priorities of `video_info_title`,
/// `video_info_quality` and `video_info_page`.
pub fn parse_video_info(
    cache_dir: Option<&str>,
    dir_name: Option<&str>,
    info: &VideoInfoJson,
    listing: &Result<Vec<FileStat>, String>,
    modified: Option<Timestamp>,
) -> (r: Result<VideoInfo, ParseError>)
    ensures
        outcome_of(r) == parsed_video_info(
            str_text_of(cache_dir),
            str_text_of(dir_name),
            *info,
            *listing,
            modified,
        ),
{
    let cache_dir = match cache_dir {
        Some(dir) => dir,
        None => { return Err(ParseError::MissingMedia); },
    };
    if item_id_of(info.item_id, dir_name).is_none() {
        return Err(ParseError::MissingMedia);
    }
    let names = match listing {
        Ok(names) => names,
        Err(reason) => { return Err(ParseError::Io(reason.clone())); },
    };
    let (video, audio) = match find_m4s_files_by_id(dir_name, info.item_id, names) {
        Ok(pair) => pair,
        Err(_) => { return Err(ParseError::MissingMedia); },
    };
    let dir = chars_of(cache_dir);
    let page: u32 = match info.p {
        Some(p) => p,
        None => 1,
    };
    Ok(
        VideoInfo {
            cache_dir: cache_dir.to_owned(),
            title: video_info_title_of(info),
            quality: video_info_quality_of(info),
            page,
            total_pages: total_pages_of(page),
            size_bytes: add_sizes(size_in(names, video), size_in(names, audio)),
            cached_at: cached_at(modified),
            video_path: path_in(&dir, names, video),
            audio_path: path_in(&dir, names, audio),
        },
    )
}

} // verus!
