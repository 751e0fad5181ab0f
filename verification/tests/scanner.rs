use bili2mp4::cache::{
    collect_videos, default_cache_dialog_path, default_cache_paths, scan, sidecar_kind,
    ParseError, ScanError, Sidecar, SidecarKind, VideoInfo, WalkedFile,
};
use bili2mp4::paths::Platform;

fn walked(path: &str) -> WalkedFile {
    match path.rfind('/') {
        Some(at) => WalkedFile {
            file_name: Some(path[at + 1..].to_string()),
            parent: Some(path[..at].to_string()),
        },
        None => WalkedFile { file_name: Some(path.to_string()), parent: Some(String::new()) },
    }
}

fn record(title: &str) -> VideoInfo {
    VideoInfo {
        cache_dir: "/c".into(),
        title: title.into(),
        quality: "1080P".into(),
        page: 1,
        total_pages: 1,
        size_bytes: 0,
        cached_at: None,
        video_path: "/c/video.m4s".into(),
        audio_path: "/c/audio.m4s".into(),
    }
}

#[test]
fn sidecars_are_known_by_name() {
    assert_eq!(sidecar_kind("entry.json"), Some(SidecarKind::Entry));
    assert_eq!(sidecar_kind("videoInfo.json"), Some(SidecarKind::VideoInfo));
    assert_eq!(sidecar_kind(".videoInfo"), Some(SidecarKind::VideoInfo));
    assert_eq!(sidecar_kind("Entry.json"), None);
    assert_eq!(sidecar_kind("videoinfo.json"), None);
    assert_eq!(sidecar_kind("entry.json.bak"), None);
    assert_eq!(sidecar_kind("video.m4s"), None);
    assert_eq!(sidecar_kind(""), None);
}

#[test]
fn scan_needs_the_directory() {
    let files = vec![walked("/c/1/entry.json")];
    match scan("/c", false, &files) {
        Err(ScanError::DirNotFound(dir)) => assert_eq!(dir, "/c"),
        other => panic!("{:?}", other),
    }
    let none: Vec<WalkedFile> = Vec::new();
    assert_eq!(scan("/c", true, &none).unwrap(), Vec::<Sidecar>::new());
}

#[test]
fn scan_takes_the_first_sidecar_of_each_directory() {
    let files = vec![
        walked("/c"),
        walked("/c/1/video.m4s"),
        walked("/c/1/entry.json"),
        walked("/c/1/videoInfo.json"),
        walked("/c/2/.videoInfo"),
        walked("/c/2/entry.json"),
        walked("/c/1/80/entry.json"),
        walked("/c/3/videoInfo.json"),
        walked("/c/1/.videoInfo"),
        walked("/c/3/videoInfo.json"),
    ];
    let sidecars = scan("/c", true, &files).unwrap();
    assert_eq!(
        sidecars,
        vec![
            Sidecar { index: 2, kind: SidecarKind::Entry },
            Sidecar { index: 4, kind: SidecarKind::VideoInfo },
            Sidecar { index: 6, kind: SidecarKind::Entry },
            Sidecar { index: 7, kind: SidecarKind::VideoInfo },
        ]
    );
}

#[test]
fn scan_leaves_out_what_cannot_be_told() {
    let files = vec![
        WalkedFile { file_name: None, parent: Some("/c/1".into()) },
        WalkedFile { file_name: Some("entry.json".into()), parent: None },
        WalkedFile { file_name: Some("entry.json".into()), parent: Some("".into()) },
        WalkedFile { file_name: Some("other".into()), parent: Some("/c/1".into()) },
        WalkedFile { file_name: Some("entry.json".into()), parent: Some("/c/1".into()) },
    ];
    let sidecars = scan("/c", true, &files).unwrap();
    assert_eq!(
        sidecars,
        vec![
            Sidecar { index: 2, kind: SidecarKind::Entry },
            Sidecar { index: 4, kind: SidecarKind::Entry },
        ]
    );
}

#[test]
fn a_sidecar_that_fails_costs_only_its_own_record() {
    let results = vec![
        Ok(record("a")),
        Err(ParseError::MissingMedia),
        Ok(record("b")),
        Err(ParseError::Json("bad".into())),
        Err(ParseError::Io("gone".into())),
        Ok(record("c")),
    ];
    let titles: Vec<String> = collect_videos(results).into_iter().map(|v| v.title).collect();
    assert_eq!(titles, vec!["a", "b", "c"]);
    assert!(collect_videos(Vec::new()).is_empty());
    assert!(collect_videos(vec![Err(ParseError::MissingMedia)]).is_empty());
}

#[test]
fn default_paths_on_macos() {
    let none: Vec<String> = Vec::new();
    assert_eq!(
        default_cache_paths(Platform::MacOs, Some("/Users/me"), None, &none),
        vec![
            "/Users/me/Movies/bilibili",
            "/Users/me/Movies/Bilibili",
            "/Users/me/Library/Containers/com.bilibili.bilibili/Data/Download",
        ]
    );
    assert!(default_cache_paths(Platform::MacOs, None, Some("/x"), &none).is_empty());
}

#[test]
fn default_paths_on_windows() {
    let packages = vec![
        "Microsoft.Other".to_string(),
        "Microsoft.48666Bilibili_abc".to_string(),
        "Microsoft.48666Bilibili_def".to_string(),
    ];
    assert_eq!(
        default_cache_paths(Platform::Windows, Some("/home"), Some("C:/Local"), &packages),
        vec![
            "C:/Local/bilibili/download",
            "C:/Local/Packages/Microsoft.48666Bilibili_abc/LocalState/download",
        ]
    );
    let none: Vec<String> = Vec::new();
    assert_eq!(
        default_cache_paths(Platform::Windows, None, Some("C:/Local"), &none),
        vec!["C:/Local/bilibili/download"]
    );
    assert!(default_cache_paths(Platform::Windows, Some("/home"), None, &packages).is_empty());
}

#[test]
fn default_paths_elsewhere() {
    let packages = vec!["Microsoft.48666Bilibili".to_string()];
    assert!(default_cache_paths(Platform::Other, Some("/home/me"), Some("/l"), &packages)
        .is_empty());
}

#[test]
fn scan_errors_say_what_happened() {
    assert_eq!(ScanError::DirNotFound("/c".into()).message(), "目录不存在: /c");
    assert_eq!(
        ScanError::Parse(ParseError::MissingMedia).message(),
        "解析失败: 缺少视频或音频文件"
    );
}

#[test]
fn the_dialog_opens_at_the_first_usual_place_that_exists() {
    let none: Vec<String> = Vec::new();
    let home = Some("/Users/me");
    let docs = Some("/Users/me/Documents");
    let both = vec!["/Users/me/Movies/Bilibili".to_string(), "/Users/me/Movies/bilibili".to_string()];
    assert_eq!(
        default_cache_dialog_path(Platform::MacOs, home, None, &none, docs, &both),
        Some("/Users/me/Movies/bilibili".to_string())
    );
    let second = vec!["/Users/me/Movies/Bilibili".to_string()];
    assert_eq!(
        default_cache_dialog_path(Platform::MacOs, home, None, &none, docs, &second),
        Some("/Users/me/Movies/Bilibili".to_string())
    );
    // The third usual place is not offered.
    let third =
        vec!["/Users/me/Library/Containers/com.bilibili.bilibili/Data/Download".to_string()];
    assert_eq!(
        default_cache_dialog_path(Platform::MacOs, home, None, &none, docs, &third),
        Some("/Users/me/Documents".to_string())
    );
    assert_eq!(default_cache_dialog_path(Platform::MacOs, home, None, &none, None, &none), None);
    assert_eq!(default_cache_dialog_path(Platform::MacOs, None, None, &none, docs, &both), None);
}

#[test]
fn the_dialog_on_windows_and_elsewhere() {
    let packages = vec!["Microsoft.48666Bilibili_x".to_string()];
    let home = Some("C:/Users/me");
    let local = Some("C:/Local");
    let docs = Some("C:/Users/me/Documents");
    let store = vec!["C:/Local/Packages/Microsoft.48666Bilibili_x/LocalState/download".to_string()];
    assert_eq!(
        default_cache_dialog_path(Platform::Windows, home, local, &packages, docs, &store),
        Some(store[0].clone())
    );
    let plain = vec![store[0].clone(), "C:/Local/bilibili/download".to_string()];
    assert_eq!(
        default_cache_dialog_path(Platform::Windows, home, local, &packages, docs, &plain),
        Some("C:/Local/bilibili/download".to_string())
    );
    assert_eq!(
        default_cache_dialog_path(Platform::Windows, home, local, &packages, docs, &Vec::new()),
        Some("C:/Users/me/Documents".to_string())
    );
    assert_eq!(
        default_cache_dialog_path(Platform::Windows, home, None, &packages, docs, &plain),
        None
    );
    assert_eq!(
        default_cache_dialog_path(Platform::Windows, None, local, &packages, docs, &plain),
        None
    );
    assert_eq!(
        default_cache_dialog_path(Platform::Other, Some("/home/me"), None, &packages, Some("/d"), &plain),
        Some("/d".to_string())
    );
    assert_eq!(
        default_cache_dialog_path(Platform::Other, None, None, &packages, Some("/d"), &plain),
        None
    );
}
