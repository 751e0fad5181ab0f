//! The cache on disk: what a sidecar file and the fragments beside it say
//! about one video, and which sidecar files of a directory tree count.

pub mod fragments;
pub mod parser;
pub mod quality;
pub mod scanner;

pub use fragments::{find_m4s_files, find_m4s_files_by_id, fragment_candidates, FileStat};
pub use parser::{
    cached_at, parse_entry, parse_video_info, EntryJson, PageData, ParseError, Timestamp,
    VideoInfo, VideoInfoJson,
};
pub use quality::{_qn_to_quality, _quality_to_str, _type_tag_to_quality, type_tag_to_quality};
pub use scanner::{
    collect_videos, default_cache_dialog_path, default_cache_paths, scan, sidecar_kind, ScanError,
    Sidecar, SidecarKind, WalkedFile,
};
