use bili2mp4::cache::VideoInfo;
use bili2mp4::convert::{
    after_attempt, batch_progress, build_remux_args, convert_one, convert_one_ffmpeg,
    convert_one_raw, convert_step, ensure_clean_m4s, is_padded, strip_padding, BatchStep,
    ConvertAction, ConvertError, ConvertEvent, ConvertJob, ConvertProgress, ConvertState,
    RemuxMode, TempCleanup,
};
use bili2mp4::filemgr::{ConflictError, ConflictStrategy};

fn job(mode: RemuxMode, strategy: ConflictStrategy) -> ConvertJob {
    ConvertJob {
        title: "video".into(),
        video_path: "/c/80/video.m4s".into(),
        audio_path: "/c/80/audio.m4s".into(),
        out_dir: "/out".into(),
        tool_path: "/usr/bin/MP4Box".into(),
        strategy,
        mode,
    }
}

fn probed(video_exists: bool, audio_exists: bool, existing: &[&str]) -> ConvertEvent {
    ConvertEvent::Probed {
        video_exists,
        audio_exists,
        existing: existing.iter().map(|p| p.to_string()).collect(),
    }
}

fn repaired(path: &str, owns_temp: bool) -> ConvertEvent {
    ConvertEvent::Repaired { path: path.into(), owns_temp }
}

fn exited(success: bool, stderr: &str, cancelled: bool) -> ConvertEvent {
    ConvertEvent::ToolExited { success, stderr: stderr.into(), cancelled }
}

/// Drives a conversion up to the point where the tool runs.
fn running(job: &ConvertJob, video: ConvertEvent, audio: ConvertEvent) -> ConvertState {
    let (state, action) = convert_step(job, ConvertState::Start, ConvertEvent::Begin { cancelled: false });
    assert!(matches!(action, ConvertAction::Probe));
    let (state, action) = convert_step(job, state, probed(true, true, &[]));
    assert!(matches!(action, ConvertAction::Repair { .. }));
    let (state, action) = convert_step(job, state, video);
    assert!(matches!(action, ConvertAction::Repair { .. }));
    let (state, action) = convert_step(job, state, audio);
    assert!(matches!(action, ConvertAction::Run { .. }));
    state
}

fn finish(action: ConvertAction) -> (Result<String, ConvertError>, Option<ConvertProgress>, Vec<String>) {
    match action {
        ConvertAction::Finish { outcome, progress, remove } => (outcome, progress, remove),
        other => panic!("{:?}", other),
    }
}

#[test]
fn test_ensure_clean_m4s_no_header() {
    let p = "/tmp/bili2mp4_m4s_test/video.m4s";
    let content = b"not_0x30_padding";
    let (out, cleaned) = ensure_clean_m4s(p, Some("video.m4s"), &content[..9], "/tmp", 1);
    assert!(!cleaned);
    assert_eq!(out, p);
    assert_eq!(strip_padding(content), None);
}

#[test]
fn test_ensure_clean_m4s_with_padding() {
    let p = "/tmp/bili2mp4_m4s_test2/video2.m4s";
    let mut content = vec![0x30u8; 9];
    content.extend_from_slice(b"rest_of_file");
    let (out, cleaned) = ensure_clean_m4s(p, Some("video2.m4s"), &content[..9], "/tmp", 1700000000123456789);
    assert!(cleaned);
    assert_ne!(out, p);
    assert_eq!(out, "/tmp/bili2mp4/1700000000123456789_video2.m4s");
    let rest = strip_padding(&content).unwrap();
    assert_eq!(rest, b"rest_of_file");
}

#[test]
fn padding_is_nine_zero_digits() {
    assert!(is_padded(b"000000000"));
    assert!(is_padded(b"0000000000"));
    assert!(is_padded(b"000000000abc"));
    assert!(!is_padded(b"00000000"));
    assert!(!is_padded(b""));
    assert!(!is_padded(b"00000000a0"));
    assert!(!is_padded(b"a000000000"));
    assert!(!is_padded(&[0u8; 9]));
}

#[test]
fn padding_is_stripped_once() {
    assert_eq!(strip_padding(b"000000000"), Some(Vec::new()));
    assert_eq!(strip_padding(b"000000000000000000x"), Some(b"000000000x".to_vec()));
    assert_eq!(strip_padding(b"00000000"), None);
    assert_eq!(strip_padding(b""), None);
    // What is clean stays clean.
    let clean = strip_padding(b"000000000\x00\x00\x00\x18ftyp").unwrap();
    assert_eq!(clean, b"\x00\x00\x00\x18ftyp");
    assert_eq!(strip_padding(&clean), None);
}

#[test]
fn a_short_header_is_no_padding() {
    let (out, cleaned) = ensure_clean_m4s("/c/a.m4s", Some("a.m4s"), b"0000", "/tmp", 5);
    assert_eq!((out.as_str(), cleaned), ("/c/a.m4s", false));
}

#[test]
fn temp_copies_are_named_by_stamp_and_fragment() {
    let header = [0x30u8; 9];
    let (out, owns) = ensure_clean_m4s("/c/a.m4s", None, &header, "/tmp/", 0);
    assert_eq!((out.as_str(), owns), ("/tmp/bili2mp4/0_m4s", true));
    let (one, _) = ensure_clean_m4s("/c/a.m4s", Some("a.m4s"), &header, "/var/tmp", 1);
    let (two, _) = ensure_clean_m4s("/c/a.m4s", Some("a.m4s"), &header, "/var/tmp", 2);
    assert_eq!(one, "/var/tmp/bili2mp4/1_a.m4s");
    assert_eq!(two, "/var/tmp/bili2mp4/2_a.m4s");
    let (max, _) = ensure_clean_m4s("x", Some("x"), &header, "", u128::MAX);
    assert_eq!(max, "bili2mp4/340282366920938463463374607431768211455_x");
}

#[test]
fn cleanup_lists_the_copies_that_were_made() {
    assert!(TempCleanup::new(None, None).paths().is_empty());
    assert_eq!(TempCleanup::new(Some("/t/v".into()), None).paths(), vec!["/t/v"]);
    assert_eq!(TempCleanup::new(None, Some("/t/a".into())).paths(), vec!["/t/a"]);
    assert_eq!(
        TempCleanup::new(Some("/t/v".into()), Some("/t/a".into())).paths(),
        vec!["/t/v", "/t/a"]
    );
}

#[test]
fn arguments_of_the_tagged_mode() {
    assert_eq!(
        build_remux_args(RemuxMode::Tagged, "/t/v.m4s", "/c/a.m4s", "/out/x.mp4"),
        vec![
            "-add", "/t/v.m4s#video", "-add", "/c/a.m4s#audio", "-new", "/out/x.mp4", "-itags",
            "tool=Bili2MP4",
        ]
    );
}

#[test]
fn arguments_of_the_raw_mode() {
    assert_eq!(
        build_remux_args(RemuxMode::Raw, "/t/v.m4s", "/c/a.m4s", "/out/x.mp4"),
        vec![
            "-add", "/t/v.m4s#video:raw", "-add", "/c/a.m4s#audio:raw", "-new", "/out/x.mp4",
            "-itags", "tool=Bili2MP4",
        ]
    );
}

#[test]
fn arguments_of_the_stream_copy() {
    assert_eq!(
        build_remux_args(RemuxMode::StreamCopy, "/t/v.m4s", "/c/a.m4s", "/out/x.mp4"),
        vec![
            "-y", "-i", "/t/v.m4s", "-i", "/c/a.m4s", "-c", "copy", "-movflags", "+faststart",
            "/out/x.mp4",
        ]
    );
}

#[test]
fn a_cancelled_conversion_touches_nothing() {
    let job = job(RemuxMode::Tagged, ConflictStrategy::Rename);
    let (state, action) = convert_step(&job, ConvertState::Start, ConvertEvent::Begin { cancelled: true });
    assert!(matches!(state, ConvertState::Done));
    let (outcome, progress, remove) = finish(action);
    assert!(matches!(outcome, Err(ConvertError::Cancelled)));
    assert!(progress.is_none());
    assert!(remove.is_empty());
}

#[test]
fn a_missing_fragment_is_named() {
    let job = job(RemuxMode::Tagged, ConflictStrategy::Rename);
    for (video, audio, missing) in [
        (false, true, "/c/80/video.m4s"),
        (true, false, "/c/80/audio.m4s"),
        (false, false, "/c/80/video.m4s"),
    ] {
        let (state, action) = convert_step(&job, ConvertState::Probing, probed(video, audio, &[]));
        assert!(matches!(state, ConvertState::Done));
        let (outcome, progress, remove) = finish(action);
        match outcome {
            Err(ConvertError::FileNotFound(path)) => assert_eq!(path, missing),
            other => panic!("{:?}", other),
        }
        assert!(progress.is_none());
        assert!(remove.is_empty());
    }
}

#[test]
fn a_taken_output_is_skipped_under_skip() {
    let job = job(RemuxMode::Tagged, ConflictStrategy::Skip);
    let (state, action) = convert_step(&job, ConvertState::Probing, probed(true, true, &["/out/video.mp4"]));
    assert!(matches!(state, ConvertState::Done));
    let (outcome, _, remove) = finish(action);
    assert!(matches!(outcome, Err(ConvertError::Skipped(ConflictError::Skip))));
    assert!(remove.is_empty());
}

#[test]
fn a_taken_output_is_renamed_under_rename() {
    let job = job(RemuxMode::Tagged, ConflictStrategy::Rename);
    let (state, action) = convert_step(&job, ConvertState::Start, ConvertEvent::Begin { cancelled: false });
    assert!(matches!(action, ConvertAction::Probe));
    let (state, action) = convert_step(&job, state, probed(true, true, &["/out/video.mp4"]));
    match &action {
        ConvertAction::Repair { path, progress } => {
            assert_eq!(path, "/c/80/video.m4s");
            let p = progress.as_ref().unwrap();
            assert_eq!(p.current_file, "video");
            assert_eq!((p.current_index, p.total, p.percent), (1, 1, 0));
        }
        other => panic!("{:?}", other),
    }
    let (state, action) = convert_step(&job, state, repaired("/c/80/video.m4s", false));
    match &action {
        ConvertAction::Repair { path, progress } => {
            assert_eq!(path, "/c/80/audio.m4s");
            assert!(progress.is_none());
        }
        other => panic!("{:?}", other),
    }
    let (state, action) = convert_step(&job, state, repaired("/tmp/bili2mp4/7_audio.m4s", true));
    match &action {
        ConvertAction::Run { program, args } => {
            assert_eq!(program, "/usr/bin/MP4Box");
            assert_eq!(
                args,
                &vec![
                    "-add", "/c/80/video.m4s#video", "-add", "/tmp/bili2mp4/7_audio.m4s#audio",
                    "-new", "/out/video(1).mp4", "-itags", "tool=Bili2MP4",
                ]
            );
        }
        other => panic!("{:?}", other),
    }
    let (state, action) = convert_step(&job, state, exited(true, "", false));
    assert!(matches!(state, ConvertState::Done));
    let (outcome, progress, remove) = finish(action);
    let output = outcome.unwrap();
    assert!(output.ends_with("video(1).mp4"));
    assert_eq!(output, "/out/video(1).mp4");
    let p = progress.unwrap();
    assert_eq!(p.current_file, "video");
    assert_eq!((p.current_index, p.total, p.percent), (1, 1, 100));
    assert_eq!(remove, vec!["/tmp/bili2mp4/7_audio.m4s"]);
}

#[test]
fn a_repair_that_fails_ends_the_conversion() {
    let job = job(RemuxMode::Tagged, ConflictStrategy::Overwrite);
    let state = ConvertState::RepairingVideo { output: "/out/video.mp4".into() };
    let (state, action) = convert_step(&job, state, ConvertEvent::RepairFailed { reason: "denied".into() });
    assert!(matches!(state, ConvertState::Done));
    let (outcome, _, remove) = finish(action);
    match outcome {
        Err(ConvertError::Mp4BoxFailed(said)) => assert_eq!(said, "denied"),
        other => panic!("{:?}", other),
    }
    assert!(remove.is_empty());

    // The copy of the video is not left behind when the audio fails.
    let state = ConvertState::RepairingAudio {
        output: "/out/video.mp4".into(),
        video: "/tmp/bili2mp4/1_video.m4s".into(),
        video_temp: true,
    };
    let (_, action) = convert_step(&job, state, ConvertEvent::RepairFailed { reason: "full".into() });
    let (outcome, _, remove) = finish(action);
    assert!(matches!(outcome, Err(ConvertError::Mp4BoxFailed(_))));
    assert_eq!(remove, vec!["/tmp/bili2mp4/1_video.m4s"]);

    let state = ConvertState::RepairingAudio {
        output: "/out/video.mp4".into(),
        video: "/c/80/video.m4s".into(),
        video_temp: false,
    };
    let (_, action) = convert_step(&job, state, ConvertEvent::RepairFailed { reason: "full".into() });
    assert!(finish(action).2.is_empty());
}

#[test]
fn a_tool_that_cannot_start() {
    let job1 = job(RemuxMode::Tagged, ConflictStrategy::Overwrite);
    let state = running(&job1, repaired("/t/1_v", true), repaired("/t/2_a", true));
    let (state, action) = convert_step(&job1, state, ConvertEvent::ToolMissing);
    assert!(matches!(state, ConvertState::Done));
    let (outcome, progress, remove) = finish(action);
    assert!(matches!(outcome, Err(ConvertError::Mp4BoxNotFound)));
    assert!(progress.is_none());
    assert_eq!(remove, vec!["/t/1_v", "/t/2_a"]);

    let job2 = job(RemuxMode::Raw, ConflictStrategy::Overwrite);
    let state = running(&job2, repaired("/c/v", false), repaired("/c/a", false));
    let (outcome, _, remove) = finish(convert_step(&job2, state, ConvertEvent::ToolMissing).1);
    assert!(matches!(outcome, Err(ConvertError::Mp4BoxNotFound)));
    assert!(remove.is_empty());

    let job3 = job(RemuxMode::StreamCopy, ConflictStrategy::Overwrite);
    let state = running(&job3, repaired("/c/v", false), repaired("/t/2_a", true));
    let (outcome, _, remove) = finish(convert_step(&job3, state, ConvertEvent::ToolMissing).1);
    match outcome {
        Err(ConvertError::Mp4BoxFailed(said)) => {
            assert_eq!(said, "ffmpeg 未找到，请安装: brew install ffmpeg")
        }
        other => panic!("{:?}", other),
    }
    assert_eq!(remove, vec!["/t/2_a"]);
}

#[test]
fn calling_off_while_the_tool_runs_removes_the_output() {
    let job = job(RemuxMode::Tagged, ConflictStrategy::Overwrite);
    for success in [true, false] {
        let state = running(&job, repaired("/t/1_v", true), repaired("/c/a", false));
        let (state, action) = convert_step(&job, state, exited(success, "whatever", true));
        assert!(matches!(state, ConvertState::Done));
        let (outcome, progress, remove) = finish(action);
        assert!(matches!(outcome, Err(ConvertError::Cancelled)));
        assert!(progress.is_none());
        assert_eq!(remove, vec!["/out/video.mp4", "/t/1_v"]);
    }
}

#[test]
fn what_the_tool_said_is_bounded() {
    let job1 = job(RemuxMode::Tagged, ConflictStrategy::Overwrite);
    let said = |job: &ConvertJob, stderr: &str| -> String {
        let state = running(job, repaired("/c/v", false), repaired("/c/a", false));
        match finish(convert_step(job, state, exited(false, stderr, false)).1).0 {
            Err(ConvertError::Mp4BoxFailed(said)) => said,
            other => panic!("{:?}", other),
        }
    };
    assert_eq!(said(&job1, "bad input"), "bad input");
    assert_eq!(said(&job1, ""), "");
    let exact = "e".repeat(200);
    assert_eq!(said(&job1, &exact), exact);
    let longer = "e".repeat(201);
    assert_eq!(said(&job1, &longer), format!("{}...", exact));
    // The bound counts characters, and none is cut in two.
    let wide = "错".repeat(300);
    assert_eq!(said(&job1, &wide), format!("{}...", "错".repeat(200)));

    let job2 = job(RemuxMode::Raw, ConflictStrategy::Overwrite);
    assert_eq!(said(&job2, &longer), format!("{}...", exact));

    let job3 = job(RemuxMode::StreamCopy, ConflictStrategy::Overwrite);
    assert_eq!(said(&job3, "no such file"), "ffmpeg: no such file");
    assert_eq!(said(&job3, &longer), format!("ffmpeg: {}...", exact));
}

#[test]
fn a_failed_tool_leaves_no_copies() {
    let job = job(RemuxMode::Tagged, ConflictStrategy::Overwrite);
    let state = running(&job, repaired("/t/1_v", true), repaired("/t/2_a", true));
    let (state, action) = convert_step(&job, state, exited(false, "x", false));
    assert!(matches!(state, ConvertState::Done));
    let (_, progress, remove) = finish(action);
    assert!(progress.is_none());
    assert_eq!(remove, vec!["/t/1_v", "/t/2_a"]);
}

#[test]
fn an_event_that_does_not_fit_changes_nothing() {
    let job = job(RemuxMode::Tagged, ConflictStrategy::Overwrite);
    let (state, action) = convert_step(&job, ConvertState::Start, ConvertEvent::ToolMissing);
    assert!(matches!(state, ConvertState::Start));
    assert!(matches!(action, ConvertAction::Wait));
    let (state, action) = convert_step(&job, ConvertState::Probing, ConvertEvent::Begin { cancelled: true });
    assert!(matches!(state, ConvertState::Probing));
    assert!(matches!(action, ConvertAction::Wait));
    let state = running(&job, repaired("/t/1_v", true), repaired("/c/a", false));
    let (state, action) = convert_step(&job, state, repaired("/t/3", true));
    assert!(matches!(action, ConvertAction::Wait));
    match state {
        ConvertState::Running { output, cleanup } => {
            assert_eq!(output, "/out/video.mp4");
            assert_eq!(cleanup.paths(), vec!["/t/1_v"]);
        }
        other => panic!("{:?}", other),
    }
    for event in [
        ConvertEvent::Begin { cancelled: false },
        probed(true, true, &[]),
        repaired("/t/3", true),
        ConvertEvent::ToolMissing,
        exited(true, "", false),
    ] {
        let (state, action) = convert_step(&job, ConvertState::Done, event);
        assert!(matches!(state, ConvertState::Done));
        assert!(matches!(action, ConvertAction::Wait));
    }
}

#[test]
fn the_modes_are_tried_in_order() {
    let ok: Result<String, ConvertError> = Ok("/out/x.mp4".into());
    let failed: Result<String, ConvertError> = Err(ConvertError::Mp4BoxFailed("x".into()));
    let missing: Result<String, ConvertError> = Err(ConvertError::Mp4BoxNotFound);
    let gone: Result<String, ConvertError> = Err(ConvertError::FileNotFound("/c/v".into()));
    let cancelled: Result<String, ConvertError> = Err(ConvertError::Cancelled);
    let skipped: Result<String, ConvertError> = Err(ConvertError::Skipped(ConflictError::Skip));

    for mode in [RemuxMode::Tagged, RemuxMode::Raw, RemuxMode::StreamCopy] {
        assert_eq!(after_attempt(mode, &ok), BatchStep::Succeeded);
    }
    assert_eq!(after_attempt(RemuxMode::Tagged, &failed), BatchStep::Retry(RemuxMode::Raw));
    assert_eq!(after_attempt(RemuxMode::Tagged, &missing), BatchStep::Failed);
    assert_eq!(after_attempt(RemuxMode::Tagged, &gone), BatchStep::Failed);
    assert_eq!(after_attempt(RemuxMode::Tagged, &cancelled), BatchStep::Stop);
    assert_eq!(after_attempt(RemuxMode::Tagged, &skipped), BatchStep::Skipped);
    for outcome in [&failed, &missing, &gone, &cancelled, &skipped] {
        assert_eq!(after_attempt(RemuxMode::Raw, outcome), BatchStep::Retry(RemuxMode::StreamCopy));
        assert_eq!(after_attempt(RemuxMode::StreamCopy, outcome), BatchStep::Failed);
    }
}

#[test]
fn progress_of_a_batch() {
    let one = || ConvertProgress { current_file: "t".into(), current_index: 1, total: 1, percent: 0 };
    let p = batch_progress(one(), 0, 4);
    assert_eq!(p.current_file, "t");
    assert_eq!((p.current_index, p.total, p.percent), (1, 4, 25));
    let p = batch_progress(one(), 3, 4);
    assert_eq!((p.current_index, p.total, p.percent), (4, 4, 100));
    let p = batch_progress(one(), 0, 3);
    assert_eq!((p.current_index, p.total, p.percent), (1, 3, 33));
    let p = batch_progress(one(), 1, 3);
    assert_eq!((p.current_index, p.total, p.percent), (2, 3, 66));
    let p = batch_progress(one(), 0, 0);
    assert_eq!((p.current_index, p.total, p.percent), (1, 0, 100));
    let p = batch_progress(one(), usize::MAX, 1);
    assert_eq!((p.current_index, p.total, p.percent), (usize::MAX, 1, u32::MAX));
}

#[test]
fn convert_errors_say_what_happened() {
    assert_eq!(ConvertError::FileNotFound("/c/v".into()).message(), "文件不存在: /c/v");
    assert_eq!(ConvertError::Mp4BoxNotFound.message(), "MP4Box 未找到，请安装: brew install gpac");
    assert_eq!(ConvertError::Mp4BoxFailed("x".into()).message(), "MP4Box 执行失败: x");
    assert_eq!(ConvertError::Cancelled.message(), "用户取消");
    assert_eq!(ConvertError::Skipped(ConflictError::Skip).message(), "冲突策略跳过");
}

#[test]
fn a_job_takes_what_it_needs_from_the_record() {
    let video = VideoInfo {
        cache_dir: "/c".into(),
        title: "标题".into(),
        quality: "1080P".into(),
        page: 1,
        total_pages: 1,
        size_bytes: 9,
        cached_at: None,
        video_path: "/c/80/video.m4s".into(),
        audio_path: "/c/80/audio.m4s".into(),
    };
    let tagged = convert_one(&video, "/out", "MP4Box", ConflictStrategy::Skip);
    assert_eq!(tagged.title, "标题");
    assert_eq!(tagged.video_path, "/c/80/video.m4s");
    assert_eq!(tagged.audio_path, "/c/80/audio.m4s");
    assert_eq!(tagged.out_dir, "/out");
    assert_eq!(tagged.tool_path, "MP4Box");
    assert_eq!(tagged.strategy, ConflictStrategy::Skip);
    assert_eq!(tagged.mode, RemuxMode::Tagged);
    let raw = convert_one_raw(&video, "/out", "MP4Box", ConflictStrategy::Rename);
    assert_eq!(raw.mode, RemuxMode::Raw);
    assert_eq!(raw.strategy, ConflictStrategy::Rename);
    let copy = convert_one_ffmpeg(&video, "/o", "ffmpeg", ConflictStrategy::Overwrite);
    assert_eq!(copy.mode, RemuxMode::StreamCopy);
    assert_eq!(copy.tool_path, "ffmpeg");
    assert_eq!(copy.out_dir, "/o");
}

#[test]
fn a_whole_conversion_with_the_tool_of_last_resort() {
    let mut job = job(RemuxMode::StreamCopy, ConflictStrategy::Overwrite);
    job.tool_path = "ffmpeg".into();
    let (state, _) = convert_step(&job, ConvertState::Start, ConvertEvent::Begin { cancelled: false });
    let (state, _) = convert_step(&job, state, probed(true, true, &["/out/video.mp4"]));
    let (state, _) = convert_step(&job, state, repaired("/t/1_video.m4s", true));
    let (state, action) = convert_step(&job, state, repaired("/t/2_audio.m4s", true));
    match &action {
        ConvertAction::Run { program, args } => {
            assert_eq!(program, "ffmpeg");
            assert_eq!(
                args,
                &vec![
                    "-y", "-i", "/t/1_video.m4s", "-i", "/t/2_audio.m4s", "-c", "copy",
                    "-movflags", "+faststart", "/out/video.mp4",
                ]
            );
        }
        other => panic!("{:?}", other),
    }
    let (_, action) = convert_step(&job, state, exited(true, "frame= 1", false));
    let (outcome, progress, remove) = finish(action);
    assert_eq!(outcome.unwrap(), "/out/video.mp4");
    assert_eq!(progress.unwrap().percent, 100);
    assert_eq!(remove, vec!["/t/1_video.m4s", "/t/2_audio.m4s"]);
}
