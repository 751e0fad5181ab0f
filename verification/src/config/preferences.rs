//! The settings, and the search for the remux tools.
//!
//! The search runs nothing and looks at no disk. It says which paths are
//! worth a look (`tool_candidates`), and decides from what was found there.

use crate::filemgr::conflict::ConflictStrategy;
use crate::paths::{first_existing, first_listed, join, joined, Platform};
use crate::text::{
    chars_of, push_text, same_text, str_text_of, string_of, text_of, trim, trimmed,
};
use vstd::prelude::*;

verus! {

/// The settings that are kept between runs. Every one may be absent.
#[derive(Debug, Clone)]
pub struct AppConfig {
    /// The directory that output goes to.
    pub output_dir: Option<String>,
    /// What to do when a batch is done: `none`, `open_folder`,
    /// `open_and_play` or `notify`.
    pub on_complete: Option<String>,
    /// What to do when an output file is already there: `overwrite`, `skip`
    /// or `rename`.
    pub conflict_strategy: Option<String>,
    /// Where the primary remux tool is, if not where it is looked for.
    pub mp4box_path: Option<String>,
}

impl Default for AppConfig {
    fn default() -> (r: Self)
        ensures
            r.output_dir is None,
            r.on_complete is None,
            r.conflict_strategy is None,
            r.mp4box_path is None,
    {
        AppConfig {
            output_dir: None,
            on_complete: None,
            conflict_strategy: None,
            mp4box_path: None,
        }
    }
}

/// The strategy that a setting names: `overwrite` and `skip` name their own,
/// and everything else, a missing setting too, names `Rename`.
pub open spec fn strategy_named(setting: Option<String>) -> ConflictStrategy {
    if setting is Some && setting->0@ == "overwrite"@ {
        ConflictStrategy::Overwrite
    } else if setting is Some && setting->0@ == "skip"@ {
        ConflictStrategy::Skip
    } else {
        ConflictStrategy::Rename
    }
}

impl AppConfig {
    /// What to do when an output file is already there.
    pub fn conflict_strategy(&self) -> (r: ConflictStrategy)
        ensures
            r == strategy_named(self.conflict_strategy),
    {
        match &self.conflict_strategy {
            Some(name) => {
                if same_text(name.as_str(), "overwrite") {
                    ConflictStrategy::Overwrite
                } else if same_text(name.as_str(), "skip") {
                    ConflictStrategy::Skip
                } else {
                    ConflictStrategy::Rename
                }
            },
            None => ConflictStrategy::Rename,
        }
    }
}

/// The path of the settings file below the directory for settings.
pub open spec fn config_path_in(config_dir: Seq<char>) -> Seq<char> {
    joined(joined(config_dir, "bili2mp4"@), "config.json"@)
}

/// Where the settings file is: `bili2mp4/config.json` below the directory
/// for settings, where that is known.
pub fn get_config_path(config_dir: Option<&str>) -> (r: Option<String>)
    ensures
        match config_dir {
            Some(dir) => r is Some && r->0@ == config_path_in(dir@),
            None => r is None,
        },
{
    match config_dir {
        Some(dir) => {
            let own = join(dir, "bili2mp4");
            Some(join(own.as_str(), "config.json"))
        },
        None => None,
    }
}

/// A remux tool.
#[derive(Debug, Clone, Copy, PartialEq, Eq, Structural)]
pub enum Tool {
    /// The primary tool.
    Mp4Box,
    /// The tool of last resort.
    Ffmpeg,
}

/// What the system's own search for a program said: whether it ended well,
/// and what it printed.
#[derive(Debug, Clone)]
pub struct Located {
    pub success: bool,
    pub stdout: String,
}

/// What was found out about a tool before the decision.
#[derive(Debug, Clone)]
pub struct ToolProbe {
    /// The system that the search runs on.
    pub platform: Platform,
    /// Whether the path of the settings exists.
    pub configured_exists: bool,
    /// What the system's own search said; nothing where it could not be run.
    pub located: Option<Located>,
    /// Those of the candidates that exist.
    pub existing: Vec<String>,
}

/// The name under which a tool is started where it was found nowhere.
pub open spec fn default_name(platform: Platform, tool: Tool) -> Seq<char> {
    match (platform, tool) {
        (Platform::Windows, Tool::Mp4Box) => "MP4Box.exe"@,
        (Platform::Windows, Tool::Ffmpeg) => "ffmpeg.exe"@,
        (_, Tool::Mp4Box) => "MP4Box"@,
        (_, Tool::Ffmpeg) => "ffmpeg"@,
    }
}

/// The places where Homebrew puts programs.
pub open spec fn brew_dirs() -> Seq<Seq<char>> {
    seq!["/opt/homebrew/bin"@, "/usr/local/bin"@]
}

/// The places where the tools are usually installed on Windows.
pub open spec fn win_dirs() -> Seq<Seq<char>> {
    seq![
        "C:\\Program Files\\GPAC"@,
        "C:\\Program Files (x86)\\GPAC"@,
        "C:\\ffmpeg"@,
        "C:\\Program Files\\ffmpeg"@,
    ]
}

/// The program `name` in each of the Homebrew places.
pub open spec fn brew_candidates(name: Seq<char>) -> Seq<Seq<char>> {
    Seq::new(brew_dirs().len(), |i: int| joined(brew_dirs()[i], name))
}

/// The program `name` in each of the places on Windows.
pub open spec fn win_candidates(name: Seq<char>) -> Seq<Seq<char>> {
    Seq::new(win_dirs().len(), |i: int| win_dirs()[i].push('\\') + name)
}

/// The paths at which a tool is looked for on a system, in order.
pub open spec fn candidates_for(platform: Platform, tool: Tool) -> Seq<Seq<char>> {
    match platform {
        Platform::MacOs => brew_candidates(default_name(platform, tool)),
        Platform::Windows => win_candidates(default_name(platform, tool)),
        Platform::Other => Seq::empty(),
    }
}

/// Where the first line of `s` ends, looked for from `i` on: at the first
/// line feed, or at the end.
pub open spec fn line_end(s: Seq<char>, i: int) -> int
    decreases s.len() - i,
{
    if i < 0 || i >= s.len() || s[i] == '\n' {
        i
    } else {
        line_end(s, i + 1)
    }
}

/// The path that the system's own search gave: what it printed, without the
/// white space at either end; on Windows only the first line of it. Nothing
/// where the search could not be run, ended badly, or printed nothing else
/// than white space.
pub open spec fn located_path(platform: Platform, located: Option<Located>) -> Option<Seq<char>> {
    if located is Some && located->0.success {
        let printed = located->0.stdout@;
        let text = if platform == Platform::Windows {
            trimmed(printed.take(line_end(printed, 0)))
        } else {
            trimmed(printed)
        };
        if text.len() > 0 {
            Some(text)
        } else {
            None
        }
    } else {
        None
    }
}

/// Where a tool is: the path of the settings where there is one and it
/// exists; else what the system's own search gave; else the first candidate
/// that exists; else the tool's bare name.
pub open spec fn resolved_tool(
    tool: Tool,
    configured: Option<Seq<char>>,
    platform: Platform,
    configured_exists: bool,
    located: Option<Located>,
    existing: Seq<Seq<char>>,
) -> Seq<char> {
    if configured is Some && configured_exists {
        configured->0
    } else if located_path(platform, located) is Some {
        located_path(platform, located)->0
    } else {
        match first_listed(candidates_for(platform, tool), existing, 0) {
            Some(path) => path,
            None => default_name(platform, tool),
        }
    }
}

/// A path is no more than the bare name of the tool, on one system or
/// another: the tool was found nowhere.
pub open spec fn is_bare_name(tool: Tool, path: Seq<char>) -> bool {
    match tool {
        Tool::Mp4Box => path == "MP4Box"@ || path == "MP4Box.exe"@,
        Tool::Ffmpeg => path == "ffmpeg"@ || path == "ffmpeg.exe"@,
    }
}

/// Whether a resolved path says that the tool was found nowhere.
pub fn is_unresolved(tool: Tool, path: &str) -> (r: bool)
    ensures
        r == is_bare_name(tool, path@),
{
    match tool {
        Tool::Mp4Box => same_text(path, "MP4Box") || same_text(path, "MP4Box.exe"),
        Tool::Ffmpeg => same_text(path, "ffmpeg") || same_text(path, "ffmpeg.exe"),
    }
}

/// The name under which a tool is started where it was found nowhere.
fn default_name_of(platform: Platform, tool: Tool) -> (r: &'static str)
    ensures
        r@ == default_name(platform, tool),
{
    match (platform, tool) {
        (Platform::Windows, Tool::Mp4Box) => "MP4Box.exe",
        (Platform::Windows, Tool::Ffmpeg) => "ffmpeg.exe",
        (_, Tool::Mp4Box) => "MP4Box",
        (_, Tool::Ffmpeg) => "ffmpeg",
    }
}

/// The program `name` in each of the Homebrew places.
fn brew_candidates_of(name: &str) -> (r: Vec<String>)
    ensures
        r.deep_view() == brew_candidates(name@),
{
    let mut r: Vec<String> = Vec::new();
    r.push(join("/opt/homebrew/bin", name));
    r.push(join("/usr/local/bin", name));
    assert(r.deep_view() =~= brew_candidates(name@));
    r
}

/// The program `name` in one of the places on Windows.
fn win_candidate(dir: &str, name: &str) -> (r: String)
    ensures
        r@ == dir@.push('\\') + name@,
{
    let mut path = chars_of(dir);
    path.push('\\');
    push_text(&mut path, name);
    string_of(&path)
}

/// The program `name` in each of the places on Windows.
fn win_candidates_of(name: &str) -> (r: Vec<String>)
    ensures
        r.deep_view() == win_candidates(name@),
{
    let mut r: Vec<String> = Vec::new();
    r.push(win_candidate("C:\\Program Files\\GPAC", name));
    r.push(win_candidate("C:\\Program Files (x86)\\GPAC", name));
    r.push(win_candidate("C:\\ffmpeg", name));
    r.push(win_candidate("C:\\Program Files\\ffmpeg", name));
    assert(r.deep_view() =~= win_candidates(name@));
    r
}

/// The paths at which a tool is looked for on a system, in order: whoever
/// searches finds out which of them exist.
pub fn tool_candidates(platform: Platform, tool: Tool) -> (r: Vec<String>)
    ensures
        r.deep_view() == candidates_for(platform, tool),
{
    match platform {
        Platform::MacOs => brew_candidates_of(default_name_of(platform, tool)),
        Platform::Windows => win_candidates_of(default_name_of(platform, tool)),
        Platform::Other => {
            let r: Vec<String> = Vec::new();
            assert(r.deep_view() =~= Seq::<Seq<char>>::empty());
            r
        },
    }
}

/// Looks for the program `name` where Homebrew puts programs:
/// `/opt/homebrew/bin` first, then `/usr/local/bin`. Gives the first of the
/// two paths that is among the `existing` ones.
pub fn find_in_brew_paths(name: &str, existing: &Vec<String>) -> (r: Option<String>)
    ensures
        match first_listed(brew_candidates(name@), existing.deep_view(), 0) {
            Some(path) => r is Some && r->0@ == path,
            None => r is None,
        },
{
    let candidates = brew_candidates_of(name);
    first_existing(&candidates, existing)
}

/// Looks for a tool where it is usually installed on Windows: `MP4Box.exe`
/// where `mp4box` holds, else `ffmpeg.exe`, in the four places of
/// `win_dirs`. Gives the first of the four paths that is among the
/// `existing` ones.
pub fn find_in_win_paths(mp4box: bool, existing: &Vec<String>) -> (r: Option<String>)
    ensures
        match first_listed(
            win_candidates(
                if mp4box {
                    "MP4Box.exe"@
                } else {
                    "ffmpeg.exe"@
                },
            ),
            existing.deep_view(),
            0,
        ) {
            Some(path) => r is Some && r->0@ == path,
            None => r is None,
        },
{
    let name: &str = if mp4box {
        "MP4Box.exe"
    } else {
        "ffmpeg.exe"
    };
    let candidates = win_candidates_of(name);
    first_existing(&candidates, existing)
}

/// The path that the system's own search gave.
fn located_path_of(platform: Platform, located: &Option<Located>) -> (r: Option<String>)
    ensures
        match located_path(platform, *located) {
            Some(path) => r is Some && r->0@ == path,
            None => r is None,
        },
{
    let found = match located {
        Some(found) => found,
        None => { return None; },
    };
    if !found.success {
        return None;
    }
    let printed = chars_of(found.stdout.as_str());
    let text = match platform {
        Platform::Windows => {
            let mut end: usize = 0;
            while end < printed.len() && printed[end] != '\n'
                invariant
                    end <= printed.len(),
                    line_end(printed@, 0) == line_end(printed@, end as int),
                decreases printed.len() - end,
            {
                end += 1;
            }
            let mut line: Vec<char> = Vec::new();
            let mut i: usize = 0;
            while i < end
                invariant
                    i <= end <= printed.len(),
                    line@ == printed@.take(i as int),
                decreases end - i,
            {
                line.push(printed[i]);
                assert(line@ =~= printed@.take(i + 1));
                i += 1;
            }
            trim(&line)
        },
        _ => trim(&printed),
    };
    if text.len() > 0 {
        Some(string_of(&text))
    } else {
        None
    }
}

/// Decides where a tool is.
fn resolve_tool(tool: Tool, configured: Option<&String>, probe: &ToolProbe) -> (r: String)
    ensures
        r@ == resolved_tool(
            tool,
            match configured {
                Some(path) => Some(path@),
                None => None,
            },
            probe.platform,
            probe.configured_exists,
            probe.located,
            probe.existing.deep_view(),
        ),
{
    if let Some(path) = configured {
        if probe.configured_exists {
            return path.clone();
        }
    }
    if let Some(path) = located_path_of(probe.platform, &probe.located) {
        return path;
    }
    let candidates = tool_candidates(probe.platform, tool);
    match first_existing(&candidates, &probe.existing) {
        Some(path) => path,
        None => default_name_of(probe.platform, tool).to_owned(),
    }
}

/// Decides where the primary remux tool is: at the path of the settings
/// where there is one and it exists; else where the system's own search
/// found it; else at the first candidate that exists; else it goes by its
/// bare name.
pub fn resolve_mp4box_path(config: &AppConfig, probe: &ToolProbe) -> (r: String)
    ensures
        r@ == resolved_tool(
            Tool::Mp4Box,
            text_of(config.mp4box_path),
            probe.platform,
            probe.configured_exists,
            probe.located,
            probe.existing.deep_view(),
        ),
{
    resolve_tool(Tool::Mp4Box, config.mp4box_path.as_ref(), probe)
}

/// Decides where the remux tool of last resort is: where the system's own
/// search found it; else at the first candidate that exists; else it goes by
/// its bare name. No setting names it.
pub fn resolve_ffmpeg_path(probe: &ToolProbe) -> (r: String)
    ensures
        r@ == resolved_tool(
            Tool::Ffmpeg,
            None,
            probe.platform,
            probe.configured_exists,
            probe.located,
            probe.existing.deep_view(),
        ),
{
    resolve_tool(Tool::Ffmpeg, None, probe)
}

/// The system's own search for a program.
pub open spec fn locator_for(platform: Platform) -> Seq<char> {
    if platform == Platform::Windows {
        "where"@
    } else {
        "which"@
    }
}

/// Names the program that searches for a program: `where` on Windows and
/// `which` elsewhere. It is run with the name of the tool, and what it says
/// goes into the probe.
pub fn locator(platform: Platform) -> (r: &'static str)
    ensures
        r@ == locator_for(platform),
{
    match platform {
        Platform::Windows => "where",
        _ => "which",
    }
}

/// The program that shows a folder to the user, on the systems that have
/// one this library knows.
pub open spec fn opener_for(platform: Platform) -> Option<Seq<char>> {
    match platform {
        Platform::MacOs => Some("open"@),
        Platform::Windows => Some("explorer"@),
        Platform::Other => None,
    }
}

/// Names the program that shows a folder to the user: `open` on macOS,
/// `explorer` on Windows, and none elsewhere.
pub fn folder_opener(platform: Platform) -> (r: Option<&'static str>)
    ensures
        str_text_of(r) == opener_for(platform),
{
    match platform {
        Platform::MacOs => Some("open"),
        Platform::Windows => Some("explorer"),
        Platform::Other => None,
    }
}

} // verus!
