//! The settings that the user keeps, and where the remux tools are found.

pub mod preferences;

pub use preferences::{
    find_in_brew_paths, find_in_win_paths, folder_opener, get_config_path, is_unresolved, locator,
    resolve_ffmpeg_path,
    resolve_mp4box_path, tool_candidates, AppConfig, Located, Tool, ToolProbe,
};
