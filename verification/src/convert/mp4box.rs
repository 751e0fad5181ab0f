//! One conversion, step by step.
//!
//! A conversion reads the disk and runs a tool, which this library does not
//! do. So it is written as a machine: `convert_step` takes the state of a
//! conversion and what has just been found out, and gives the next state and
//! what to do next. Whoever drives it starts in `ConvertState::Start` with
//! the event `Begin`, does what each action asks for, reports back with the
//! event that the action names, and stops at `Finish`.

use crate::cache::parser::VideoInfo;
use crate::convert::repair::{path_of, TempCleanup};
use crate::filemgr::conflict::{resolve_output_path, resolved, ConflictError, ConflictStrategy};
use crate::text::{
    chars_of, first_chars, lemma_prefix_ends_at_char_boundary, push_chars, push_text, string_of,
    text_plus,
};
use vstd::prelude::*;
use vstd::utf8::{encode_utf8, is_char_boundary};

verus! {

/// How far a conversion has come.
#[derive(Debug, Clone)]
pub struct ConvertProgress {
    /// The title of the record at work.
    pub current_file: String,
    /// Its number in the batch, from 1.
    pub current_index: usize,
    /// How many records the batch has.
    pub total: usize,
    /// How much is done, in hundredths.
    pub percent: u32,
}

/// Progress as plain values.
pub ghost struct Progress {
    pub current_file: Seq<char>,
    pub current_index: usize,
    pub total: usize,
    pub percent: u32,
}

impl View for ConvertProgress {
    type V = Progress;

    open spec fn view(&self) -> Progress {
        Progress {
            current_file: self.current_file@,
            current_index: self.current_index,
            total: self.total,
            percent: self.percent,
        }
    }
}

/// How a conversion ended, if not with a file.
#[derive(Debug, Clone)]
pub enum ConvertError {
    /// A fragment is not there; its path.
    FileNotFound(String),
    /// The primary tool could not be started.
    Mp4BoxNotFound,
    /// The tool ran and failed, or a step before it did; what it said.
    Mp4BoxFailed(String),
    /// The user called the conversion off.
    Cancelled,
    /// The output file is there and the strategy says to leave it. This is
    /// no fault: the batch goes on.
    Skipped(ConflictError),
}

/// The end of a conversion as plain values.
pub ghost enum ConvertFailure {
    FileNotFound(Seq<char>),
    Mp4BoxNotFound,
    Mp4BoxFailed(Seq<char>),
    Cancelled,
    Skipped(ConflictError),
}

impl View for ConvertError {
    type V = ConvertFailure;

    open spec fn view(&self) -> ConvertFailure {
        match self {
            ConvertError::FileNotFound(path) => ConvertFailure::FileNotFound(path@),
            ConvertError::Mp4BoxNotFound => ConvertFailure::Mp4BoxNotFound,
            ConvertError::Mp4BoxFailed(said) => ConvertFailure::Mp4BoxFailed(said@),
            ConvertError::Cancelled => ConvertFailure::Cancelled,
            ConvertError::Skipped(e) => ConvertFailure::Skipped(*e),
        }
    }
}

/// What a failure says in words.
pub open spec fn convert_message(e: ConvertFailure) -> Seq<char> {
    match e {
        ConvertFailure::FileNotFound(path) => "文件不存在: "@ + path,
        ConvertFailure::Mp4BoxNotFound => "MP4Box 未找到，请安装: brew install gpac"@,
        ConvertFailure::Mp4BoxFailed(said) => "MP4Box 执行失败: "@ + said,
        ConvertFailure::Cancelled => "用户取消"@,
        ConvertFailure::Skipped(_) => "冲突策略跳过"@,
    }
}

impl ConvertError {
    /// What the failure says in words.
    pub fn message(&self) -> (r: String)
        ensures
            r@ == convert_message(self@),
    {
        match self {
            ConvertError::FileNotFound(path) => text_plus("文件不存在: ", path.as_str()),
            ConvertError::Mp4BoxNotFound => {
                "MP4Box 未找到，请安装: brew install gpac".to_owned()
            },
            ConvertError::Mp4BoxFailed(said) => text_plus("MP4Box 执行失败: ", said.as_str()),
            ConvertError::Cancelled => "用户取消".to_owned(),
            ConvertError::Skipped(_) => "冲突策略跳过".to_owned(),
        }
    }
}

/// The three ways to remux, in the order in which they are tried.
#[derive(Debug, Clone, Copy, PartialEq, Eq, Structural)]
pub enum RemuxMode {
    /// The primary tool, each fragment added as the track of its kind.
    Tagged,
    /// The primary tool, each fragment added as a raw track: for fragments
    /// whose framing the tagged way cannot read.
    Raw,
    /// The tool of last resort, which copies both streams.
    StreamCopy,
}

/// What is to be converted, where to, and how.
#[derive(Debug, Clone)]
pub struct ConvertJob {
    pub title: String,
    pub video_path: String,
    pub audio_path: String,
    pub out_dir: String,
    pub tool_path: String,
    pub strategy: ConflictStrategy,
    pub mode: RemuxMode,
}

/// Where a conversion stands.
#[derive(Debug, Clone)]
pub enum ConvertState {
    /// Nothing was done yet.
    Start,
    /// The disk is being looked at.
    Probing,
    /// The video fragment is being repaired. The output goes to `output`.
    RepairingVideo { output: String },
    /// The audio fragment is being repaired. `video` stands for the video
    /// fragment, and is a temporary copy where `video_temp` says so.
    RepairingAudio { output: String, video: String, video_temp: bool },
    /// The tool is running. `cleanup` holds the temporary copies.
    Running { output: String, cleanup: TempCleanup },
    /// The conversion is over.
    Done,
}

/// What was found out since the last step.
#[derive(Debug, Clone)]
pub enum ConvertEvent {
    /// The conversion is to begin; whether it was called off already.
    Begin { cancelled: bool },
    /// Whether the two fragments exist, and which paths in the output
    /// directory are taken.
    Probed { video_exists: bool, audio_exists: bool, existing: Vec<String> },
    /// A fragment was repaired: the file that stands for it, and whether
    /// that is a temporary copy.
    Repaired { path: String, owns_temp: bool },
    /// A fragment could not be repaired, and why.
    RepairFailed { reason: String },
    /// The tool could not be started.
    ToolMissing,
    /// The tool ran: whether it ended well, what it said on its error
    /// stream, and whether the conversion was called off meanwhile.
    ToolExited { success: bool, stderr: String, cancelled: bool },
}

/// What to do next.
#[derive(Debug)]
pub enum ConvertAction {
    /// Nothing: the event did not fit the state. Nothing has changed.
    Wait,
    /// Find out whether the two fragments exist and which paths in the
    /// output directory are taken; report `Probed`.
    Probe,
    /// Report `progress` where there is one, then repair the fragment at
    /// `path`; report `Repaired` or `RepairFailed`.
    Repair { path: String, progress: Option<ConvertProgress> },
    /// Run `program` with `args`; report `ToolExited` or `ToolMissing`.
    Run { program: String, args: Vec<String> },
    /// Remove the files `remove`, report `progress` where there is one, and
    /// end with `outcome`.
    Finish {
        outcome: Result<String, ConvertError>,
        progress: Option<ConvertProgress>,
        remove: Vec<String>,
    },
}

/// A state as plain values.
pub ghost enum StateView {
    Start,
    Probing,
    RepairingVideo { output: Seq<char> },
    RepairingAudio { output: Seq<char>, video: Seq<char>, video_temp: bool },
    Running { output: Seq<char>, temps: Seq<Seq<char>> },
    Done,
}

/// An action as plain values.
pub ghost enum ActionView {
    Wait,
    Probe,
    Repair { path: Seq<char>, progress: Option<Progress> },
    Run { program: Seq<char>, args: Seq<Seq<char>> },
    Finish {
        outcome: Result<Seq<char>, ConvertFailure>,
        progress: Option<Progress>,
        remove: Seq<Seq<char>>,
    },
}

impl View for ConvertState {
    type V = StateView;

    open spec fn view(&self) -> StateView {
        match self {
            ConvertState::Start => StateView::Start,
            ConvertState::Probing => StateView::Probing,
            ConvertState::RepairingVideo { output } => StateView::RepairingVideo {
                output: output@,
            },
            ConvertState::RepairingAudio { output, video, video_temp } => {
                StateView::RepairingAudio {
                    output: output@,
                    video: video@,
                    video_temp: *video_temp,
                }
            },
            ConvertState::Running { output, cleanup } => StateView::Running {
                output: output@,
                temps: cleanup@,
            },
            ConvertState::Done => StateView::Done,
        }
    }
}

/// Progress that may be absent, as plain values.
pub open spec fn progress_of(p: Option<ConvertProgress>) -> Option<Progress> {
    match p {
        Some(p) => Some(p@),
        None => None,
    }
}

/// The outcome of a conversion as plain values.
pub open spec fn outcome_view(r: Result<String, ConvertError>) -> Result<
    Seq<char>,
    ConvertFailure,
> {
    match r {
        Ok(path) => Ok(path@),
        Err(e) => Err(e@),
    }
}

impl View for ConvertAction {
    type V = ActionView;

    open spec fn view(&self) -> ActionView {
        match self {
            ConvertAction::Wait => ActionView::Wait,
            ConvertAction::Probe => ActionView::Probe,
            ConvertAction::Repair { path, progress } => ActionView::Repair {
                path: path@,
                progress: progress_of(*progress),
            },
            ConvertAction::Run { program, args } => ActionView::Run {
                program: program@,
                args: args.deep_view(),
            },
            ConvertAction::Finish { outcome, progress, remove } => ActionView::Finish {
                outcome: outcome_view(*outcome),
                progress: progress_of(*progress),
                remove: remove.deep_view(),
            },
        }
    }
}

/// The most characters of what a tool said that a failure carries.
pub const MAX_DIAGNOSTIC_LEN: usize = 200;

/// What marks a cut in what a tool said.
pub const ELLIPSIS: &'static str = "...";

/// The tag that the primary tool writes into the output.
pub const TOOL_TAG: &'static str = "tool=Bili2MP4";

/// What the failure says where the tool of last resort could not be started.
pub const FFMPEG_MISSING: &'static str = "ffmpeg 未找到，请安装: brew install ffmpeg";

/// What goes before what the tool of last resort said.
pub const FFMPEG_PREFIX: &'static str = "ffmpeg: ";

/// What a tool said, cut after `MAX_DIAGNOSTIC_LEN` characters and marked
/// with the ellipsis where it was longer.
pub open spec fn bounded_text(said: Seq<char>) -> Seq<char> {
    if said.len() > MAX_DIAGNOSTIC_LEN {
        said.take(MAX_DIAGNOSTIC_LEN as int) + ELLIPSIS@
    } else {
        said
    }
}

/// What a failure carries of what the tool said: the bounded text, and
/// before it the name of the tool of last resort where that one ran.
pub open spec fn failure_text(mode: RemuxMode, said: Seq<char>) -> Seq<char> {
    if mode == RemuxMode::StreamCopy {
        FFMPEG_PREFIX@ + bounded_text(said)
    } else {
        bounded_text(said)
    }
}

/// How a conversion ends where the tool could not be started.
pub open spec fn missing_tool(mode: RemuxMode) -> ConvertFailure {
    if mode == RemuxMode::StreamCopy {
        ConvertFailure::Mp4BoxFailed(FFMPEG_MISSING@)
    } else {
        ConvertFailure::Mp4BoxNotFound
    }
}

/// The arguments that a tool is run with.
///
/// The primary tool adds the video and the audio fragment as tracks, tagged
/// by kind or as raw tracks, writes a new container to `output` and tags it.
/// The tool of last resort takes the two as inputs, copies the streams, puts
/// the index at the front and writes over `output` without asking.
pub open spec fn remux_args(
    mode: RemuxMode,
    video: Seq<char>,
    audio: Seq<char>,
    output: Seq<char>,
) -> Seq<Seq<char>> {
    match mode {
        RemuxMode::Tagged => seq![
            "-add"@,
            video + "#video"@,
            "-add"@,
            audio + "#audio"@,
            "-new"@,
            output,
            "-itags"@,
            TOOL_TAG@,
        ],
        RemuxMode::Raw => seq![
            "-add"@,
            video + "#video:raw"@,
            "-add"@,
            audio + "#audio:raw"@,
            "-new"@,
            output,
            "-itags"@,
            TOOL_TAG@,
        ],
        RemuxMode::StreamCopy => seq![
            "-y"@,
            "-i"@,
            video,
            "-i"@,
            audio,
            "-c"@,
            "copy"@,
            "-movflags"@,
            "+faststart"@,
            output,
        ],
    }
}

/// The progress of a conversion on its own: one record of one.
pub open spec fn progress_at(title: Seq<char>, percent: u32) -> Progress {
    Progress { current_file: title, current_index: 1, total: 1, percent }
}

/// The file that stands for a fragment, where it is a temporary copy.
pub open spec fn held(path: Seq<char>, owns_temp: bool) -> Seq<Seq<char>> {
    if owns_temp {
        seq![path]
    } else {
        Seq::empty()
    }
}

/// The end of a conversion without a file.
pub open spec fn failed(failure: ConvertFailure, remove: Seq<Seq<char>>) -> (
    StateView,
    ActionView,
) {
    (StateView::Done, ActionView::Finish { outcome: Err(failure), progress: None, remove })
}

/// The next state of a conversion and what to do next.
///
/// 1. At the start, a conversion that was called off ends as `Cancelled`
///    before the disk is touched.
/// 2. A fragment that is not there ends it as `FileNotFound`, the video
///    fragment first.
/// 3. The output path is decided by `resolved`; `Skip` ends it as `Skipped`.
/// 4. Progress of 0 is reported, and the video fragment is repaired, then
///    the audio fragment. A repair that fails ends it as `Mp4BoxFailed`.
/// 5. The tool is run on the files that stand for the fragments.
/// 6. A tool that could not be started ends it as `missing_tool` says.
/// 7. Where it was called off while the tool ran, the output is removed and
///    it ends as `Cancelled`.
/// 8. A tool that ended badly ends it as `Mp4BoxFailed` with `failure_text`.
/// 9. Else progress of 100 is reported and it ends with the output path.
///
/// Every end removes the temporary copies that were made. An event that
/// does not fit the state changes nothing.
pub open spec fn stepped(job: ConvertJob, state: StateView, event: ConvertEvent) -> (
    StateView,
    ActionView,
) {
    match (state, event) {
        (StateView::Start, ConvertEvent::Begin { cancelled }) => if cancelled {
            failed(ConvertFailure::Cancelled, Seq::empty())
        } else {
            (StateView::Probing, ActionView::Probe)
        },
        (StateView::Probing, ConvertEvent::Probed { video_exists, audio_exists, existing }) => {
            if !video_exists {
                failed(ConvertFailure::FileNotFound(job.video_path@), Seq::empty())
            } else if !audio_exists {
                failed(ConvertFailure::FileNotFound(job.audio_path@), Seq::empty())
            } else {
                match resolved(job.out_dir@, job.title@, job.strategy, existing.deep_view()) {
                    Ok(output) => (
                        StateView::RepairingVideo { output },
                        ActionView::Repair {
                            path: job.video_path@,
                            progress: Some(progress_at(job.title@, 0)),
                        },
                    ),
                    Err(e) => failed(ConvertFailure::Skipped(e), Seq::empty()),
                }
            }
        },
        (StateView::RepairingVideo { output }, ConvertEvent::Repaired { path, owns_temp }) => (
            StateView::RepairingAudio { output, video: path@, video_temp: owns_temp },
            ActionView::Repair { path: job.audio_path@, progress: None },
        ),
        (StateView::RepairingVideo { output }, ConvertEvent::RepairFailed { reason }) => failed(
            ConvertFailure::Mp4BoxFailed(reason@),
            Seq::empty(),
        ),
        (
            StateView::RepairingAudio { output, video, video_temp },
            ConvertEvent::Repaired { path, owns_temp },
        ) => (
            StateView::Running { output, temps: held(video, video_temp) + held(path@, owns_temp) },
            ActionView::Run {
                program: job.tool_path@,
                args: remux_args(job.mode, video, path@, output),
            },
        ),
        (
            StateView::RepairingAudio { output, video, video_temp },
            ConvertEvent::RepairFailed { reason },
        ) => failed(ConvertFailure::Mp4BoxFailed(reason@), held(video, video_temp)),
        (StateView::Running { output, temps }, ConvertEvent::ToolMissing) => failed(
            missing_tool(job.mode),
            temps,
        ),
        (
            StateView::Running { output, temps },
            ConvertEvent::ToolExited { success, stderr, cancelled },
        ) => if cancelled {
            failed(ConvertFailure::Cancelled, seq![output] + temps)
        } else if !success {
            failed(ConvertFailure::Mp4BoxFailed(failure_text(job.mode, stderr@)), temps)
        } else {
            (
                StateView::Done,
                ActionView::Finish {
                    outcome: Ok(output),
                    progress: Some(progress_at(job.title@, 100)),
                    remove: temps,
                },
            )
        },
        _ => (state, ActionView::Wait),
    }
}

/// The temporary copies that a conversion owns in a state.
pub open spec fn temps_held(state: StateView) -> Seq<Seq<char>> {
    match state {
        StateView::RepairingAudio { output, video, video_temp } => held(video, video_temp),
        StateView::Running { output, temps } => temps,
        _ => Seq::empty(),
    }
}

/// The temporary copy that an event brings, where it fits the state.
pub open spec fn temps_brought(state: StateView, event: ConvertEvent) -> Seq<Seq<char>> {
    match (state, event) {
        (StateView::RepairingVideo { output }, ConvertEvent::Repaired { path, owns_temp }) => held(
            path@,
            owns_temp,
        ),
        (
            StateView::RepairingAudio { output, video, video_temp },
            ConvertEvent::Repaired { path, owns_temp },
        ) => held(path@, owns_temp),
        _ => Seq::empty(),
    }
}

/// No temporary copy is lost on the way. A step that ends the conversion
/// asks to remove every copy that the state holds; every other step leaves
/// the next state holding what the state held and what the event brought.
pub proof fn lemma_temps_are_released(job: ConvertJob, state: StateView, event: ConvertEvent)
    ensures
        stepped(job, state, event).1 is Finish ==> forall|i: int|
            0 <= i < temps_held(state).len() ==> stepped(job, state, event).1->remove.contains(
                #[trigger] temps_held(state)[i],
            ),
        !(stepped(job, state, event).1 is Finish) ==> temps_held(stepped(job, state, event).0)
            == temps_held(state) + temps_brought(state, event),
{
    let next = stepped(job, state, event);
    if next.1 is Finish {
        assert forall|i: int| 0 <= i < temps_held(state).len() implies next.1->remove.contains(
            #[trigger] temps_held(state)[i],
        ) by {
            match (state, event) {
                (
                    StateView::Running { output, temps },
                    ConvertEvent::ToolExited { success, stderr, cancelled },
                ) => {
                    if cancelled {
                        assert((seq![output] + temps)[i + 1] == temps[i]);
                    } else {
                        assert(next.1->remove[i] == temps[i]);
                    }
                },
                _ => {
                    assert(next.1->remove[i] == temps_held(state)[i]);
                },
            }
        }
    } else {
        assert(temps_held(next.0) =~= temps_held(state) + temps_brought(state, event));
    }
}

/// A conversion ends once. The step that asks to finish leads to `Done`, and
/// from `Done` no event leads anywhere or asks for anything.
pub proof fn lemma_one_outcome(job: ConvertJob, state: StateView, event: ConvertEvent)
    ensures
        stepped(job, state, event).1 is Finish ==> stepped(job, state, event).0 is Done,
        state is Done ==> stepped(job, state, event) == (StateView::Done, ActionView::Wait),
{
}

/// How a conversion ends when it is driven from the start with the five
/// reports `begin`, `probed`, `video`, `audio` and `tool`, each in answer to
/// the action before it: the action of the first step that asks to finish.
pub open spec fn converted(
    job: ConvertJob,
    begin: ConvertEvent,
    probed: ConvertEvent,
    video: ConvertEvent,
    audio: ConvertEvent,
    tool: ConvertEvent,
) -> ActionView {
    let first = stepped(job, StateView::Start, begin);
    let second = stepped(job, first.0, probed);
    let third = stepped(job, second.0, video);
    let fourth = stepped(job, third.0, audio);
    let fifth = stepped(job, fourth.0, tool);
    if first.1 is Finish {
        first.1
    } else if second.1 is Finish {
        second.1
    } else if third.1 is Finish {
        third.1
    } else if fourth.1 is Finish {
        fourth.1
    } else {
        fifth.1
    }
}

/// The reports are of the kinds that the actions ask for, in order.
pub open spec fn reports_fit(
    begin: ConvertEvent,
    probed: ConvertEvent,
    video: ConvertEvent,
    audio: ConvertEvent,
    tool: ConvertEvent,
) -> bool {
    &&& begin is Begin
    &&& probed is Probed
    &&& video is Repaired || video is RepairFailed
    &&& audio is Repaired || audio is RepairFailed
    &&& tool is ToolExited || tool is ToolMissing
}

/// A conversion that is driven with fitting reports ends, and it ends with a
/// file exactly where nothing stood in the way: it was not called off before
/// or while the tool ran, both fragments are there, the strategy gives a
/// path, both repairs went well, and the tool ran and ended well. The file is
/// then at the path that the strategy gives, progress of 100 is reported,
/// and the temporary copies that the repairs made are removed.
pub proof fn lemma_conversion_succeeds_iff(
    job: ConvertJob,
    begin: ConvertEvent,
    probed: ConvertEvent,
    video: ConvertEvent,
    audio: ConvertEvent,
    tool: ConvertEvent,
)
    requires
        reports_fit(begin, probed, video, audio, tool),
    ensures
        converted(job, begin, probed, video, audio, tool) is Finish,
        converted(job, begin, probed, video, audio, tool)->outcome is Ok <==> {
            &&& !begin->Begin_cancelled
            &&& probed->video_exists
            &&& probed->audio_exists
            &&& resolved(job.out_dir@, job.title@, job.strategy, probed->existing.deep_view()) is Ok
            &&& video is Repaired
            &&& audio is Repaired
            &&& tool is ToolExited
            &&& tool->success
            &&& !tool->ToolExited_cancelled
        },
        converted(job, begin, probed, video, audio, tool)->outcome is Ok ==> {
            let end = converted(job, begin, probed, video, audio, tool);
            &&& end->outcome->Ok_0 == resolved(
                job.out_dir@,
                job.title@,
                job.strategy,
                probed->existing.deep_view(),
            )->Ok_0
            &&& end->Finish_progress == Some(progress_at(job.title@, 100))
            &&& end->remove == held(video->Repaired_path@, video->Repaired_owns_temp) + held(
                audio->Repaired_path@,
                audio->Repaired_owns_temp,
            )
        },
{
    let first = stepped(job, StateView::Start, begin);
    let second = stepped(job, first.0, probed);
    let third = stepped(job, second.0, video);
    let fourth = stepped(job, third.0, audio);
    let fifth = stepped(job, fourth.0, tool);
    if !(first.1 is Finish) && !(second.1 is Finish) && !(third.1 is Finish) && !(fourth.1
        is Finish) {
        assert(fourth.0 is Running);
        assert(fifth.1 is Finish);
    }
}

/// The fragments are there and the strategy gives a path: the tool is the
/// next thing in the way once the repairs are done.
pub open spec fn reaches_repair(job: ConvertJob, begin: ConvertEvent, probed: ConvertEvent) -> bool {
    &&& !begin->Begin_cancelled
    &&& probed->video_exists
    &&& probed->audio_exists
    &&& resolved(job.out_dir@, job.title@, job.strategy, probed->existing.deep_view()) is Ok
}

/// Each way in which a conversion ends without a file has its own cause,
/// and the first cause on the way decides: called off at the start; a
/// fragment that is not there, the video first; a strategy that skips; a
/// repair that failed, the video first; a tool that could not be started;
/// called off while the tool ran; a tool that ended badly.
pub proof fn lemma_conversion_fails_as(
    job: ConvertJob,
    begin: ConvertEvent,
    probed: ConvertEvent,
    video: ConvertEvent,
    audio: ConvertEvent,
    tool: ConvertEvent,
)
    requires
        reports_fit(begin, probed, video, audio, tool),
    ensures
        ({
            let end = converted(job, begin, probed, video, audio, tool)->outcome;
            let found = resolved(
                job.out_dir@,
                job.title@,
                job.strategy,
                probed->existing.deep_view(),
            );
            let at_tool = reaches_repair(job, begin, probed) && video is Repaired && audio
                is Repaired;
            &&& begin->Begin_cancelled ==> end == Err::<Seq<char>, ConvertFailure>(
                ConvertFailure::Cancelled,
            )
            &&& !begin->Begin_cancelled && !probed->video_exists ==> end == Err::<
                Seq<char>,
                ConvertFailure,
            >(ConvertFailure::FileNotFound(job.video_path@))
            &&& !begin->Begin_cancelled && probed->video_exists && !probed->audio_exists ==> end
                == Err::<Seq<char>, ConvertFailure>(ConvertFailure::FileNotFound(job.audio_path@))
            &&& !begin->Begin_cancelled && probed->video_exists && probed->audio_exists && found
                is Err ==> end == Err::<Seq<char>, ConvertFailure>(
                ConvertFailure::Skipped(found->Err_0),
            )
            &&& reaches_repair(job, begin, probed) && video is RepairFailed ==> end == Err::<
                Seq<char>,
                ConvertFailure,
            >(ConvertFailure::Mp4BoxFailed(video->RepairFailed_reason@))
            &&& reaches_repair(job, begin, probed) && video is Repaired && audio is RepairFailed
                ==> end == Err::<Seq<char>, ConvertFailure>(
                ConvertFailure::Mp4BoxFailed(audio->RepairFailed_reason@),
            )
            &&& at_tool && tool is ToolMissing ==> end == Err::<Seq<char>, ConvertFailure>(
                missing_tool(job.mode),
            )
            &&& at_tool && tool is ToolExited && tool->ToolExited_cancelled ==> end == Err::<
                Seq<char>,
                ConvertFailure,
            >(ConvertFailure::Cancelled)
            &&& at_tool && tool is ToolExited && !tool->ToolExited_cancelled && !tool->success
                ==> end == Err::<Seq<char>, ConvertFailure>(
                ConvertFailure::Mp4BoxFailed(failure_text(job.mode, tool->stderr@)),
            )
        }),
{
}

/// How many steps a conversion has before it at most.
pub open spec fn steps_left(state: StateView) -> nat {
    match state {
        StateView::Start => 5,
        StateView::Probing => 4,
        StateView::RepairingVideo { output } => 3,
        StateView::RepairingAudio { output, video, video_temp } => 2,
        StateView::Running { output, temps } => 1,
        StateView::Done => 0,
    }
}

/// A conversion comes to its end: every step that asks for something brings
/// it nearer, so that after five such steps at most it is over.
pub proof fn lemma_steps_advance(job: ConvertJob, state: StateView, event: ConvertEvent)
    ensures
        !(stepped(job, state, event).1 is Wait) ==> steps_left(stepped(job, state, event).0)
            < steps_left(state),
        stepped(job, state, event).1 is Wait ==> stepped(job, state, event).0 == state,
        steps_left(stepped(job, state, event).0) == 0 <==> stepped(job, state, event).0 is Done,
{
}

/// A conversion that was called off while the tool ran leaves no output
/// behind: it ends as `Cancelled` and asks to remove the output file.
pub proof fn lemma_cancelled_output_is_removed(
    job: ConvertJob,
    output: Seq<char>,
    temps: Seq<Seq<char>>,
    success: bool,
    stderr: String,
)
    ensures
        ({
            let next = stepped(
                job,
                StateView::Running { output, temps },
                ConvertEvent::ToolExited { success, stderr, cancelled: true },
            );
            &&& next.0 is Done
            &&& next.1 is Finish
            &&& next.1->outcome == Err::<Seq<char>, ConvertFailure>(ConvertFailure::Cancelled)
            &&& next.1->remove.contains(output)
        }),
{
    assert((seq![output] + temps)[0] == output);
}

/// What a failure carries never has more than `MAX_DIAGNOSTIC_LEN`
/// characters of what the tool said, whatever the tool said. What is short
/// enough is carried whole. What is longer is cut between two characters,
/// also as bytes, and marked.
pub proof fn lemma_diagnostic_is_bounded(said: Seq<char>)
    ensures
        bounded_text(said).len() <= MAX_DIAGNOSTIC_LEN + ELLIPSIS@.len(),
        said.len() <= MAX_DIAGNOSTIC_LEN ==> bounded_text(said) == said,
        said.len() > MAX_DIAGNOSTIC_LEN ==> {
            let kept = said.take(MAX_DIAGNOSTIC_LEN as int);
            &&& bounded_text(said) == kept + ELLIPSIS@
            &&& encode_utf8(kept).is_prefix_of(encode_utf8(said))
            &&& is_char_boundary(encode_utf8(said), encode_utf8(kept).len() as int)
        },
{
    if said.len() > MAX_DIAGNOSTIC_LEN {
        lemma_prefix_ends_at_char_boundary(said, MAX_DIAGNOSTIC_LEN as int);
    }
}

/// No files.
fn no_files() -> (r: Vec<String>)
    ensures
        r.deep_view() == Seq::<Seq<char>>::empty(),
{
    let r: Vec<String> = Vec::new();
    assert(r.deep_view() =~= Seq::<Seq<char>>::empty());
    r
}

/// The file `first`, then the files `rest`.
fn prepend(first: String, rest: Vec<String>) -> (r: Vec<String>)
    ensures
        r.deep_view() == seq![first@] + rest.deep_view(),
{
    let mut r: Vec<String> = Vec::new();
    r.push(first);
    let mut i: usize = 0;
    while i < rest.len()
        invariant
            i <= rest.len(),
            r.len() == i + 1,
            r[0]@ == first@,
            forall|k: int| 0 <= k < i ==> r[k + 1]@ == rest[k]@,
        decreases rest.len() - i,
    {
        r.push(rest[i].clone());
        i += 1;
    }
    assert(r.deep_view() =~= seq![first@] + rest.deep_view());
    r
}

/// What a failure carries of what the tool said.
fn failure_text_of(mode: RemuxMode, said: &str) -> (r: String)
    ensures
        r@ == failure_text(mode, said@),
{
    let all = chars_of(said);
    let mut text: Vec<char> = Vec::new();
    if mode == RemuxMode::StreamCopy {
        push_text(&mut text, FFMPEG_PREFIX);
    }
    let kept = first_chars(&all, MAX_DIAGNOSTIC_LEN);
    push_chars(&mut text, &kept);
    if all.len() > MAX_DIAGNOSTIC_LEN {
        push_text(&mut text, ELLIPSIS);
    }
    assert(text@ =~= failure_text(mode, said@));
    string_of(&text)
}

/// The progress of a conversion on its own.
fn progress_for(title: &String, percent: u32) -> (r: ConvertProgress)
    ensures
        r@ == progress_at(title@, percent),
{
    ConvertProgress { current_file: title.clone(), current_index: 1, total: 1, percent }
}

/// Builds the arguments that a tool is run with (see `remux_args`).
pub fn build_remux_args(mode: RemuxMode, video: &str, audio: &str, output: &str) -> (r: Vec<String>)
    ensures
        r.deep_view() == remux_args(mode, video@, audio@, output@),
{
    let mut r: Vec<String> = Vec::new();
    match mode {
        RemuxMode::Tagged => {
            r.push("-add".to_owned());
            r.push(text_plus(video, "#video"));
            r.push("-add".to_owned());
            r.push(text_plus(audio, "#audio"));
            r.push("-new".to_owned());
            r.push(output.to_owned());
            r.push("-itags".to_owned());
            r.push(TOOL_TAG.to_owned());
        },
        RemuxMode::Raw => {
            r.push("-add".to_owned());
            r.push(text_plus(video, "#video:raw"));
            r.push("-add".to_owned());
            r.push(text_plus(audio, "#audio:raw"));
            r.push("-new".to_owned());
            r.push(output.to_owned());
            r.push("-itags".to_owned());
            r.push(TOOL_TAG.to_owned());
        },
        RemuxMode::StreamCopy => {
            r.push("-y".to_owned());
            r.push("-i".to_owned());
            r.push(video.to_owned());
            r.push("-i".to_owned());
            r.push(audio.to_owned());
            r.push("-c".to_owned());
            r.push("copy".to_owned());
            r.push("-movflags".to_owned());
            r.push("+faststart".to_owned());
            r.push(output.to_owned());
        },
    }
    assert(r.deep_view() =~= remux_args(mode, video@, audio@, output@));
    r
}

/// The conversion of a record into `out_dir` with the tool at `tool_path`.
pub open spec fn job_for(
    video: VideoInfo,
    out_dir: Seq<char>,
    tool_path: Seq<char>,
    strategy: ConflictStrategy,
    mode: RemuxMode,
    job: ConvertJob,
) -> bool {
    &&& job.title@ == video.title@
    &&& job.video_path@ == video.video_path@
    &&& job.audio_path@ == video.audio_path@
    &&& job.out_dir@ == out_dir
    &&& job.tool_path@ == tool_path
    &&& job.strategy == strategy
    &&& job.mode == mode
}

/// Sets up a conversion.
fn job_of(
    video: &VideoInfo,
    out_dir: &str,
    tool_path: &str,
    strategy: ConflictStrategy,
    mode: RemuxMode,
) -> (job: ConvertJob)
    ensures
        job_for(*video, out_dir@, tool_path@, strategy, mode, job),
{
    ConvertJob {
        title: video.title.clone(),
        video_path: video.video_path.clone(),
        audio_path: video.audio_path.clone(),
        out_dir: out_dir.to_owned(),
        tool_path: tool_path.to_owned(),
        strategy,
        mode,
    }
}

/// Sets up the conversion of one record with the primary tool, each
/// fragment added as the track of its kind. `convert_step` takes it from
/// there.
pub fn convert_one(
    video: &VideoInfo,
    out_dir: &str,
    mp4box_path: &str,
    strategy: ConflictStrategy,
) -> (job: ConvertJob)
    ensures
        job_for(*video, out_dir@, mp4box_path@, strategy, RemuxMode::Tagged, job),
{
    job_of(video, out_dir, mp4box_path, strategy, RemuxMode::Tagged)
}

/// Sets up the conversion of one record with the primary tool, each
/// fragment added as a raw track: to try where the tagged way has failed.
pub fn convert_one_raw(
    video: &VideoInfo,
    out_dir: &str,
    mp4box_path: &str,
    strategy: ConflictStrategy,
) -> (job: ConvertJob)
    ensures
        job_for(*video, out_dir@, mp4box_path@, strategy, RemuxMode::Raw, job),
{
    job_of(video, out_dir, mp4box_path, strategy, RemuxMode::Raw)
}

/// Sets up the conversion of one record with the tool of last resort: to
/// try where the primary tool has failed both ways.
pub fn convert_one_ffmpeg(
    video: &VideoInfo,
    out_dir: &str,
    ffmpeg_path: &str,
    strategy: ConflictStrategy,
) -> (job: ConvertJob)
    ensures
        job_for(*video, out_dir@, ffmpeg_path@, strategy, RemuxMode::StreamCopy, job),
{
    job_of(video, out_dir, ffmpeg_path, strategy, RemuxMode::StreamCopy)
}

/// The end of a conversion without a file.
fn fail(e: ConvertError, remove: Vec<String>) -> (r: (ConvertState, ConvertAction))
    ensures
        (r.0@, r.1@) == failed(e@, remove.deep_view()),
{
    (ConvertState::Done, ConvertAction::Finish { outcome: Err(e), progress: None, remove })
}

/// A temporary copy, where the file that stands for a fragment is one.
fn temp_of(path: &String, owns_temp: bool) -> (r: Option<String>)
    ensures
        path_of(r) == held(path@, owns_temp),
{
    if owns_temp {
        Some(path.clone())
    } else {
        None
    }
}

/// Takes one step of a conversion (see `stepped`): from the state and what
/// was found out since the last step to the next state and what to do next.
pub fn convert_step(job: &ConvertJob, state: ConvertState, event: ConvertEvent) -> (r: (
    ConvertState,
    ConvertAction,
))
    ensures
        (r.0@, r.1@) == stepped(*job, state@, event),
{
    match state {
        ConvertState::Start => match event {
            ConvertEvent::Begin { cancelled } => {
                if cancelled {
                    fail(ConvertError::Cancelled, no_files())
                } else {
                    (ConvertState::Probing, ConvertAction::Probe)
                }
            },
            _ => (ConvertState::Start, ConvertAction::Wait),
        },
        ConvertState::Probing => match event {
            ConvertEvent::Probed { video_exists, audio_exists, existing } => {
                if !video_exists {
                    fail(ConvertError::FileNotFound(job.video_path.clone()), no_files())
                } else if !audio_exists {
                    fail(ConvertError::FileNotFound(job.audio_path.clone()), no_files())
                } else {
                    match resolve_output_path(
                        job.out_dir.as_str(),
                        job.title.as_str(),
                        job.strategy,
                        &existing,
                    ) {
                        Ok(output) => (
                            ConvertState::RepairingVideo { output },
                            ConvertAction::Repair {
                                path: job.video_path.clone(),
                                progress: Some(progress_for(&job.title, 0)),
                            },
                        ),
                        Err(e) => fail(ConvertError::Skipped(e), no_files()),
                    }
                }
            },
            _ => (ConvertState::Probing, ConvertAction::Wait),
        },
        ConvertState::RepairingVideo { output } => match event {
            ConvertEvent::Repaired { path, owns_temp } => (
                ConvertState::RepairingAudio { output, video: path, video_temp: owns_temp },
                ConvertAction::Repair { path: job.audio_path.clone(), progress: None },
            ),
            ConvertEvent::RepairFailed { reason } => fail(
                ConvertError::Mp4BoxFailed(reason),
                no_files(),
            ),
            _ => (ConvertState::RepairingVideo { output }, ConvertAction::Wait),
        },
        ConvertState::RepairingAudio { output, video, video_temp } => match event {
            ConvertEvent::Repaired { path, owns_temp } => {
                let args = build_remux_args(
                    job.mode,
                    video.as_str(),
                    path.as_str(),
                    output.as_str(),
                );
                let cleanup = TempCleanup::new(
                    temp_of(&video, video_temp),
                    temp_of(&path, owns_temp),
                );
                (
                    ConvertState::Running { output, cleanup },
                    ConvertAction::Run { program: job.tool_path.clone(), args },
                )
            },
            ConvertEvent::RepairFailed { reason } => {
                let cleanup = TempCleanup::new(temp_of(&video, video_temp), None);
                assert(cleanup@ =~= held(video@, video_temp));
                fail(ConvertError::Mp4BoxFailed(reason), cleanup.paths())
            },
            _ => (ConvertState::RepairingAudio { output, video, video_temp }, ConvertAction::Wait),
        },
        ConvertState::Running { output, cleanup } => match event {
            ConvertEvent::ToolMissing => {
                if job.mode == RemuxMode::StreamCopy {
                    fail(ConvertError::Mp4BoxFailed(FFMPEG_MISSING.to_owned()), cleanup.paths())
                } else {
                    fail(ConvertError::Mp4BoxNotFound, cleanup.paths())
                }
            },
            ConvertEvent::ToolExited { success, stderr, cancelled } => {
                if cancelled {
                    fail(ConvertError::Cancelled, prepend(output, cleanup.paths()))
                } else if !success {
                    fail(
                        ConvertError::Mp4BoxFailed(failure_text_of(job.mode, stderr.as_str())),
                        cleanup.paths(),
                    )
                } else {
                    (
                        ConvertState::Done,
                        ConvertAction::Finish {
                            outcome: Ok(output),
                            progress: Some(progress_for(&job.title, 100)),
                            remove: cleanup.paths(),
                        },
                    )
                }
            },
            _ => (ConvertState::Running { output, cleanup }, ConvertAction::Wait),
        },
        ConvertState::Done => (ConvertState::Done, ConvertAction::Wait),
    }
}

} // verus!
