use bili2mp4::cache::{
    _qn_to_quality, _quality_to_str, _type_tag_to_quality, cached_at, find_m4s_files,
    find_m4s_files_by_id, fragment_candidates, parse_entry, parse_video_info,
    type_tag_to_quality, EntryJson, FileStat, PageData, ParseError, Timestamp, VideoInfoJson,
};

fn stat(path: &str, size: Option<u64>) -> FileStat {
    FileStat { path: path.to_string(), size }
}

fn there(paths: &[&str]) -> Vec<FileStat> {
    paths.iter().map(|p| stat(p, Some(1))).collect()
}

fn empty_entry() -> EntryJson {
    EntryJson { title: None, page_data: None, type_tag: None, quality: None }
}

fn empty_info() -> VideoInfoJson {
    VideoInfoJson { item_id: None, title: None, tab_name: None, p: None, qn: None }
}

fn text(s: &str) -> Option<String> {
    Some(s.to_string())
}

#[test]
fn test_type_tag_to_quality() {
    assert_eq!(type_tag_to_quality(Some("s_1080p")), Some("1080P".into()));
    assert_eq!(type_tag_to_quality(Some("s_720p")), Some("720P".into()));
    assert_eq!(type_tag_to_quality(Some("xxx")), Some("xxx".into()));
    assert_eq!(type_tag_to_quality(None), None);
}

#[test]
fn test_parse_entry_with_mock_files() {
    let tmp = "/tmp/bili2mp4_parse_test";
    let files = vec![
        stat("/tmp/bili2mp4_parse_test", None),
        stat("/tmp/bili2mp4_parse_test/80", None),
        stat("/tmp/bili2mp4_parse_test/80/video.m4s", Some(1)),
        stat("/tmp/bili2mp4_parse_test/80/audio.m4s", Some(1)),
    ];
    let entry = EntryJson {
        title: text("测试"),
        page_data: Some(PageData { page: Some(1), part: text("Part1"), index_title: None }),
        type_tag: text("s_1080p"),
        quality: None,
    };
    let r = parse_entry(Some(tmp), &entry, &files, None);
    assert!(r.is_ok(), "{:?}", r.err());
    let v = r.unwrap();
    assert_eq!(v.title, "Part1");
    assert_eq!(v.quality, "1080P");
    assert_eq!(v.page, 1);
    assert_eq!(v.total_pages, 1);
    assert_eq!(v.size_bytes, 2);
    assert_eq!(v.cached_at, None);
    assert_eq!(v.cache_dir, "/tmp/bili2mp4_parse_test");
    assert_eq!(v.video_path, "/tmp/bili2mp4_parse_test/80/video.m4s");
    assert_eq!(v.audio_path, "/tmp/bili2mp4_parse_test/80/audio.m4s");
}

#[test]
fn known_type_tags_follow_the_table() {
    let table = [
        ("s_1080p", "1080P"), ("1080", "1080P"), ("s_720p", "720P"), ("720", "720P"),
        ("s_480p", "480P"), ("480", "480P"), ("s_360p", "360P"), ("360", "360P"),
        ("s_240p", "240P"), ("240", "240P"),
    ];
    for (tag, label) in table {
        assert_eq!(_type_tag_to_quality(Some(tag)), Some(label.to_string()));
    }
}

#[test]
fn unknown_type_tags_go_by_what_they_hold() {
    assert_eq!(_type_tag_to_quality(Some("lua.flv1080.bili2api.80")), Some("1080P".into()));
    assert_eq!(_type_tag_to_quality(Some("lua.flv720.bili2api.64")), Some("720P".into()));
    assert_eq!(_type_tag_to_quality(Some("lua.flv480.bili2api.32")), Some("480P".into()));
    assert_eq!(_type_tag_to_quality(Some("x1080")), Some("1080P".into()));
    assert_eq!(_type_tag_to_quality(Some("720x480")), Some("720P".into()));
    assert_eq!(_type_tag_to_quality(Some("480_and_1080")), Some("1080P".into()));
    // 360 and 240 count only as whole tags.
    assert_eq!(_type_tag_to_quality(Some("x360")), Some("x360".into()));
    assert_eq!(_type_tag_to_quality(Some("s_240p ")), Some("s_240p ".into()));
    assert_eq!(_type_tag_to_quality(Some("S_1080P")), Some("1080P".into()));
    assert_eq!(_type_tag_to_quality(Some("S_360P")), Some("S_360P".into()));
    assert_eq!(_type_tag_to_quality(Some("")), Some("".into()));
    assert_eq!(_type_tag_to_quality(Some("10 80")), Some("10 80".into()));
}

#[test]
fn quality_codes_follow_the_table() {
    let table = [
        (120, "1080P+"), (116, "1080P60"), (112, "1080P"), (80, "720P60"), (74, "720P"),
        (64, "480P"), (32, "360P"), (16, "240P"),
    ];
    for (code, label) in table {
        assert_eq!(_qn_to_quality(Some(code)), Some(label.to_string()));
    }
    assert_eq!(_qn_to_quality(None), None);
}

#[test]
fn other_quality_codes_are_written_out() {
    let known = [120u32, 116, 112, 80, 74, 64, 32, 16];
    for n in 0u32..300 {
        if !known.contains(&n) {
            assert_eq!(_qn_to_quality(Some(n)), Some(format!("{}P", n)));
        }
    }
    assert_eq!(_qn_to_quality(Some(127)), Some("127P".into()));
    assert_eq!(_qn_to_quality(Some(u32::MAX)), Some("4294967295P".into()));
}

#[test]
fn plain_quality_is_the_number_and_a_p() {
    assert_eq!(_quality_to_str(Some(80)), Some("80P".into()));
    assert_eq!(_quality_to_str(Some(0)), Some("0P".into()));
    assert_eq!(_quality_to_str(Some(112)), Some("112P".into()));
    assert_eq!(_quality_to_str(None), None);
}

#[test]
fn entry_title_goes_by_priority() {
    let files = there(&["/c", "/c/video.m4s", "/c/audio.m4s"]);
    let mut entry = empty_entry();
    assert_eq!(parse_entry(Some("/c"), &entry, &files, None).unwrap().title, "未知标题");
    entry.title = text("whole");
    assert_eq!(parse_entry(Some("/c"), &entry, &files, None).unwrap().title, "whole");
    entry.page_data = Some(PageData { page: None, part: None, index_title: None });
    assert_eq!(parse_entry(Some("/c"), &entry, &files, None).unwrap().title, "whole");
    entry.page_data = Some(PageData { page: None, part: None, index_title: text("index") });
    assert_eq!(parse_entry(Some("/c"), &entry, &files, None).unwrap().title, "index");
    entry.page_data = Some(PageData { page: None, part: text("part"), index_title: text("index") });
    assert_eq!(parse_entry(Some("/c"), &entry, &files, None).unwrap().title, "part");
}

#[test]
fn entry_quality_goes_by_priority() {
    let files = there(&["/c", "/c/video.m4s", "/c/audio.m4s"]);
    let mut entry = empty_entry();
    assert_eq!(parse_entry(Some("/c"), &entry, &files, None).unwrap().quality, "未知");
    entry.quality = Some(80);
    assert_eq!(parse_entry(Some("/c"), &entry, &files, None).unwrap().quality, "80P");
    entry.type_tag = text("whatever");
    assert_eq!(parse_entry(Some("/c"), &entry, &files, None).unwrap().quality, "whatever");
    entry.type_tag = text("s_480p");
    assert_eq!(parse_entry(Some("/c"), &entry, &files, None).unwrap().quality, "480P");
}

#[test]
fn entry_page_defaults_to_one() {
    let files = there(&["/c", "/c/video.m4s", "/c/audio.m4s"]);
    let mut entry = empty_entry();
    let v = parse_entry(Some("/c"), &entry, &files, None).unwrap();
    assert_eq!((v.page, v.total_pages), (1, 1));
    entry.page_data = Some(PageData { page: Some(7), part: None, index_title: None });
    let v = parse_entry(Some("/c"), &entry, &files, None).unwrap();
    assert_eq!((v.page, v.total_pages), (7, 7));
    entry.page_data = Some(PageData { page: Some(0), part: None, index_title: None });
    let v = parse_entry(Some("/c"), &entry, &files, None).unwrap();
    assert_eq!((v.page, v.total_pages), (0, 1));
}

#[test]
fn entry_fragments_come_from_the_first_directory_that_has_both() {
    // `80` comes before `112`, and `64` lacks the audio.
    let files = there(&[
        "/c", "/c/64", "/c/64/video.m4s", "/c/112", "/c/112/video.m4s", "/c/112/audio.m4s",
        "/c/80", "/c/80/video.m4s", "/c/80/audio.m4s", "/c/video.m4s", "/c/audio.m4s",
    ]);
    let (video, audio) = find_m4s_files("/c", &files).unwrap();
    assert_eq!(video, "/c/80/video.m4s");
    assert_eq!(audio, "/c/80/audio.m4s");
}

#[test]
fn entry_fragments_may_lie_beside_the_sidecar() {
    let files = there(&["/c", "/c/video.m4s", "/c/audio.m4s", "/c/999/video.m4s"]);
    let (video, audio) = find_m4s_files("/c", &files).unwrap();
    assert_eq!(video, "/c/video.m4s");
    assert_eq!(audio, "/c/audio.m4s");
    let files = there(&["/c/", "/c/video.m4s", "/c/audio.m4s"]);
    let (video, _) = find_m4s_files("/c/", &files).unwrap();
    assert_eq!(video, "/c/video.m4s");
}

#[test]
fn entry_directories_are_tried_in_order() {
    let order = ["64", "80", "32", "16", "112", "116", "120"];
    for (i, first) in order.iter().enumerate() {
        let mut files = vec![stat("/c", None)];
        for dir in &order[i..] {
            files.push(stat(&format!("/c/{}", dir), None));
            files.push(stat(&format!("/c/{}/video.m4s", dir), Some(1)));
            files.push(stat(&format!("/c/{}/audio.m4s", dir), Some(1)));
        }
        files.reverse();
        let (video, audio) = find_m4s_files("/c", &files).unwrap();
        assert_eq!(video, format!("/c/{}/video.m4s", first));
        assert_eq!(audio, format!("/c/{}/audio.m4s", first));
    }
}

#[test]
fn entry_without_fragments_is_missing_media() {
    let none: Vec<FileStat> = Vec::new();
    assert!(matches!(find_m4s_files("/c", &none), Err(ParseError::MissingMedia)));
    // The directory itself has to be there.
    let files = there(&["/c/80/video.m4s", "/c/80/audio.m4s"]);
    assert!(matches!(find_m4s_files("/c", &files), Err(ParseError::MissingMedia)));
    let files = there(&["/c", "/c/80", "/c/80/video.m4s", "/c/64", "/c/64/audio.m4s"]);
    assert!(matches!(find_m4s_files("/c", &files), Err(ParseError::MissingMedia)));
    // A directory of another name is not looked into.
    let files = there(&["/c", "/c/74", "/c/74/video.m4s", "/c/74/audio.m4s"]);
    assert!(matches!(
        parse_entry(Some("/c"), &empty_entry(), &files, None),
        Err(ParseError::MissingMedia)
    ));
    let files = there(&["/c", "/c/video.m4s", "/c/audio.m4s"]);
    assert!(matches!(
        parse_entry(None, &empty_entry(), &files, None),
        Err(ParseError::MissingMedia)
    ));
}

#[test]
fn sizes_are_added_and_unknown_ones_count_as_nothing() {
    let entry = empty_entry();
    let files = vec![
        stat("/c", None),
        stat("/c/video.m4s", Some(1000)),
        stat("/c/audio.m4s", Some(24)),
    ];
    assert_eq!(parse_entry(Some("/c"), &entry, &files, None).unwrap().size_bytes, 1024);
    let files =
        vec![stat("/c", None), stat("/c/video.m4s", None), stat("/c/audio.m4s", Some(24))];
    assert_eq!(parse_entry(Some("/c"), &entry, &files, None).unwrap().size_bytes, 24);
    let files = vec![stat("/c", None), stat("/c/video.m4s", None), stat("/c/audio.m4s", None)];
    assert_eq!(parse_entry(Some("/c"), &entry, &files, None).unwrap().size_bytes, 0);
    let files = vec![
        stat("/c", None),
        stat("/c/video.m4s", Some(u64::MAX)),
        stat("/c/audio.m4s", Some(5)),
    ];
    assert_eq!(parse_entry(Some("/c"), &entry, &files, None).unwrap().size_bytes, u64::MAX);
    // The first entry for a path counts.
    let files = vec![
        stat("/c", None),
        stat("/c/video.m4s", Some(1)),
        stat("/c/video.m4s", Some(100)),
        stat("/c/audio.m4s", Some(2)),
    ];
    assert_eq!(parse_entry(Some("/c"), &entry, &files, None).unwrap().size_bytes, 3);
}

#[test]
fn cached_day_is_written_in_utc() {
    assert_eq!(cached_at(None), None);
    assert_eq!(cached_at(Some(Timestamp { secs: 0, nanos: 0 })), Some("1970-01-01".into()));
    assert_eq!(
        cached_at(Some(Timestamp { secs: 1431648000, nanos: 0 })),
        Some("2015-05-15".into())
    );
    assert_eq!(
        cached_at(Some(Timestamp { secs: 1431648000 - 1, nanos: 999_999_999 })),
        Some("2015-05-14".into())
    );
    assert_eq!(cached_at(Some(Timestamp { secs: -1, nanos: 0 })), Some("1969-12-31".into()));
    assert_eq!(
        cached_at(Some(Timestamp { secs: 951782400, nanos: 5 })),
        Some("2000-02-29".into())
    );
    assert_eq!(cached_at(Some(Timestamp { secs: i64::MAX, nanos: 0 })), None);
    assert_eq!(cached_at(Some(Timestamp { secs: 0, nanos: 2_000_000_000 })), None);

    let files = there(&["/c", "/c/video.m4s", "/c/audio.m4s"]);
    let v = parse_entry(
        Some("/c"),
        &empty_entry(),
        &files,
        Some(Timestamp { secs: 1700000000, nanos: 1 }),
    )
    .unwrap();
    assert_eq!(v.cached_at, Some("2023-11-14".into()));
}

#[test]
fn video_info_resolves_a_record() {
    let info = VideoInfoJson {
        item_id: Some(1318051900),
        title: text("整部"),
        tab_name: text("第一集"),
        p: Some(3),
        qn: Some(116),
    };
    let listing = Ok(vec![
        stat("videoInfo.json", Some(300)),
        stat("1318051900-1-30216.m4s", Some(50)),
        stat("1318051900-1-100026.m4s", Some(700)),
        stat("image.jpg", Some(9)),
    ]);
    let v = parse_video_info(
        Some("/cache/1318051900"),
        Some("1318051900"),
        &info,
        &listing,
        Some(Timestamp { secs: 1431648000, nanos: 0 }),
    )
    .unwrap();
    assert_eq!(v.cache_dir, "/cache/1318051900");
    assert_eq!(v.title, "第一集");
    assert_eq!(v.quality, "1080P60");
    assert_eq!(v.page, 3);
    assert_eq!(v.total_pages, 3);
    assert_eq!(v.size_bytes, 750);
    assert_eq!(v.cached_at, Some("2015-05-15".into()));
    assert_eq!(v.video_path, "/cache/1318051900/1318051900-1-100026.m4s");
    assert_eq!(v.audio_path, "/cache/1318051900/1318051900-1-30216.m4s");
}

#[test]
fn video_info_defaults() {
    let listing = Ok(vec![stat("5-1-2.m4s", None), stat("5-1-1.m4s", None)]);
    let mut info = empty_info();
    let v = parse_video_info(Some("d"), Some("5"), &info, &listing, None).unwrap();
    assert_eq!(v.title, "未知标题");
    assert_eq!(v.quality, "未知");
    assert_eq!((v.page, v.total_pages), (1, 1));
    assert_eq!(v.size_bytes, 0);
    assert_eq!(v.cached_at, None);
    assert_eq!(v.video_path, "d/5-1-2.m4s");
    assert_eq!(v.audio_path, "d/5-1-1.m4s");
    info.title = text("t");
    info.qn = Some(75);
    info.p = Some(0);
    let v = parse_video_info(Some("d"), Some("5"), &info, &listing, None).unwrap();
    assert_eq!(v.title, "t");
    assert_eq!(v.quality, "75P");
    assert_eq!((v.page, v.total_pages), (0, 1));
}

#[test]
fn video_info_item_comes_from_the_sidecar_or_the_directory() {
    let names = vec![
        stat("7-1-30280.m4s", Some(1)),
        stat("7-1-30080.m4s", Some(1)),
        stat("8-1-30280.m4s", Some(1)),
        stat("8-1-30080.m4s", Some(1)),
        stat("8-1-30033.m4s", Some(1)),
    ];
    assert_eq!(find_m4s_files_by_id(Some("7"), None, &names).ok(), Some((0, 1)));
    assert_eq!(find_m4s_files_by_id(Some("7"), Some(8), &names).ok(), Some((2, 3)));
    assert_eq!(find_m4s_files_by_id(None, Some(8), &names).ok(), Some((2, 3)));
    assert_eq!(find_m4s_files_by_id(Some("+8"), None, &names).ok(), Some((2, 3)));
    assert_eq!(find_m4s_files_by_id(Some("008"), None, &names).ok(), Some((2, 3)));
    assert!(matches!(
        find_m4s_files_by_id(Some("x8"), None, &names),
        Err(ParseError::MissingMedia)
    ));
    assert!(matches!(find_m4s_files_by_id(None, None, &names), Err(ParseError::MissingMedia)));
    assert!(matches!(
        find_m4s_files_by_id(Some("99999999999999999999"), None, &names),
        Err(ParseError::MissingMedia)
    ));
}

#[test]
fn video_info_fragments_are_ranked_by_codec_number() {
    // The highest number is the video, the next one the audio.
    let names = vec![
        stat("9-1-30216.m4s", None),
        stat("9-1-30232.m4s", None),
        stat("9-1-100050.m4s", None),
        stat("9-1-30280.m4s", None),
    ];
    assert_eq!(find_m4s_files_by_id(None, Some(9), &names).ok(), Some((2, 3)));
    // Of equal numbers the one listed first comes first.
    let names =
        vec![stat("9-1-5.m4s", None), stat("9-1-7.m4s", None), stat("9-1-07.m4s", None)];
    assert_eq!(find_m4s_files_by_id(None, Some(9), &names).ok(), Some((1, 2)));
    let names = vec![stat("9-1-7.m4s", None), stat("9-1-7.m4s", None)];
    assert_eq!(find_m4s_files_by_id(None, Some(9), &names).ok(), Some((0, 1)));
    // What is no number counts as 0.
    let names = vec![
        stat("9-1-abc.m4s", None),
        stat("9-1-.m4s", None),
        stat("9-1-1.m4s", None),
        stat("9-1-x-0.m4s", None),
    ];
    assert_eq!(find_m4s_files_by_id(None, Some(9), &names).ok(), Some((2, 0)));
    // Only the part after the last `-` counts.
    let names = vec![stat("9-1-900-1.m4s", None), stat("9-1-2.m4s", None), stat("9-1-3.m4s", None)];
    assert_eq!(find_m4s_files_by_id(None, Some(9), &names).ok(), Some((2, 1)));
}

#[test]
fn video_info_fragments_need_the_prefix_and_the_ending() {
    let names = vec![
        stat("19-1-30280.m4s", None),
        stat("9-2-30280.m4s", None),
        stat("9-1-30280.mp4", None),
        stat("9-1-30280.m4s.part", None),
        stat("9-1-30280.M4S", None),
        stat("x9-1-30280.m4s", None),
        stat("9-1-30216.m4s", None),
    ];
    assert!(matches!(
        find_m4s_files_by_id(None, Some(9), &names),
        Err(ParseError::MissingMedia)
    ));
    let none: Vec<FileStat> = Vec::new();
    assert!(matches!(find_m4s_files_by_id(None, Some(9), &none), Err(ParseError::MissingMedia)));
    let mut names = names;
    names.push(stat("9-1-.m4s", None));
    assert_eq!(find_m4s_files_by_id(None, Some(9), &names).ok(), Some((6, 7)));
}

#[test]
fn video_info_failures_come_in_order() {
    let info = empty_info();
    let good = Ok(vec![stat("5-1-2.m4s", None), stat("5-1-1.m4s", None)]);
    let unreadable: Result<Vec<FileStat>, String> = Err("permission denied".to_string());
    assert!(matches!(
        parse_video_info(None, Some("5"), &info, &good, None),
        Err(ParseError::MissingMedia)
    ));
    // An unknown item comes before a directory that cannot be read.
    assert!(matches!(
        parse_video_info(Some("d"), Some("x"), &info, &unreadable, None),
        Err(ParseError::MissingMedia)
    ));
    match parse_video_info(Some("d"), Some("5"), &info, &unreadable, None) {
        Err(ParseError::Io(reason)) => assert_eq!(reason, "permission denied"),
        other => panic!("{:?}", other),
    }
    let one = Ok(vec![stat("5-1-2.m4s", None)]);
    assert!(matches!(
        parse_video_info(Some("d"), Some("5"), &info, &one, None),
        Err(ParseError::MissingMedia)
    ));
}

#[test]
fn parse_errors_say_what_happened() {
    assert_eq!(ParseError::Io("gone".into()).message(), "无法读取 entry.json: gone");
    assert_eq!(ParseError::Json("bad".into()).message(), "JSON 解析失败: bad");
    assert_eq!(ParseError::MissingMedia.message(), "缺少视频或音频文件");
}

#[test]
fn the_candidates_are_all_that_counts() {
    let candidates = fragment_candidates("/c");
    assert_eq!(candidates.len(), 24);
    assert_eq!(&candidates[..3], &["/c/64", "/c/64/video.m4s", "/c/64/audio.m4s"]);
    assert_eq!(&candidates[3..6], &["/c/80", "/c/80/video.m4s", "/c/80/audio.m4s"]);
    assert_eq!(&candidates[18..21], &["/c/120", "/c/120/video.m4s", "/c/120/audio.m4s"]);
    assert_eq!(&candidates[21..], &["/c", "/c/video.m4s", "/c/audio.m4s"]);

    // Leaving out what is no candidate changes nothing.
    let on_disk = there(&[
        "/c", "/c/entry.json", "/c/112", "/c/112/video.m4s", "/c/112/audio.m4s",
        "/c/112/index.json", "/c/danmaku.xml",
    ]);
    let asked: Vec<FileStat> =
        on_disk.iter().filter(|f| candidates.contains(&f.path)).cloned().collect();
    assert_eq!(asked.len(), 4);
    assert_eq!(find_m4s_files("/c", &on_disk).ok(), find_m4s_files("/c", &asked).ok());
    assert_eq!(
        find_m4s_files("/c", &asked).ok(),
        Some(("/c/112/video.m4s".to_string(), "/c/112/audio.m4s".to_string()))
    );
}
