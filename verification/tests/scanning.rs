use media_organizer::scanner::{
    media_entries, media_kind, scan_directory, scan_result, scan_source_directory, ScanOutput,
    WalkEntry,
};
use media_organizer::session::{
    cancelled_log, detection_log, found_files_log, large_file_log, metadata_log, outcome_log,
    scan_warning_log, start_log, begin_copy, CopySession, SessionAction, SessionFile,
};
use media_organizer::copier::{CopyError, CopyResult};
use media_organizer::date::Date;

#[test]
fn media_kinds_by_extension() {
    assert_eq!(media_kind("b.jpg"), Some(false));
    assert_eq!(media_kind("b.JPEG"), Some(false));
    assert_eq!(media_kind("b.Cr2"), Some(false));
    assert_eq!(media_kind("clip.MOV"), Some(true));
    assert_eq!(media_kind("clip.m4v"), Some(true));
    assert_eq!(media_kind("notes.txt"), None);
    assert_eq!(media_kind("jpg"), None);
    assert_eq!(media_kind(".jpg"), None);
}

#[test]
fn kelvin_sign_lowercases_to_k() {
    // "M\u{212A}V".to_lowercase() == "mkv"
    assert_eq!("M\u{212A}V".to_lowercase(), "mkv");
    assert_eq!(media_kind("film.M\u{212A}V"), Some(true));
    assert_eq!(media_kind("photo.\u{130}PG"), None);
}

#[test]
fn scan_sorts_entries() {
    let entries = vec![
        WalkEntry::Found { path: "/s".to_string(), file_name: Some("s".to_string()), is_file: false },
        WalkEntry::Found { path: "/s/a.jpg".to_string(), file_name: Some("a.jpg".to_string()), is_file: true },
        WalkEntry::Found { path: "/s/b.txt".to_string(), file_name: Some("b.txt".to_string()), is_file: true },
        WalkEntry::Failed { known_path: Some("/s/locked".to_string()), message: "denied".to_string() },
        WalkEntry::Found { path: "/s/c.MP4".to_string(), file_name: Some("c.MP4".to_string()), is_file: true },
        WalkEntry::Found { path: "/s/d.png".to_string(), file_name: Some("d.png".to_string()), is_file: false },
        WalkEntry::Failed { known_path: None, message: "loop".to_string() },
    ];
    let out = scan_directory(&entries);
    let files: Vec<(&str, bool)> = out.files.iter().map(|f| (f.path.as_str(), f.is_video)).collect();
    assert_eq!(files, vec![("/s/a.jpg", false), ("/s/c.MP4", true)]);
    let errors: Vec<(&str, &str)> = out.errors.iter().map(|e| (e.path.as_str(), e.message.as_str())).collect();
    assert_eq!(errors, vec![("/s/locked", "denied"), ("", "loop")]);
    assert_eq!(media_entries(&entries), vec![1, 4]);
    let r = scan_result(out);
    assert_eq!(r.total_count, 2);
    assert_eq!(r.errors.len(), 2);
}

#[test]
fn media_entries_of_empty_walk() {
    assert!(media_entries(&vec![]).is_empty());
}

#[test]
fn second_copy_is_refused_while_one_runs() {
    assert_eq!(begin_copy(true), Err("Copy operation already in progress".to_string()));
    assert_eq!(begin_copy(false), Ok(()));
}

/// Drives a session to its end, answering `cancel_at` (a round number) with
/// a cancel; gives the number of copies and of finishes.
fn drive(n: usize, cancel_at: Option<usize>) -> (usize, usize) {
    let names: Vec<Option<&str>> = (0..n).map(|_| Some("f.jpg")).collect();
    let mut s = CopySession::new(files(&names));
    let (mut copies, mut finishes) = (0, 0);
    for round in 0..=n {
        if !s.is_ready() {
            break;
        }
        match s.next(cancel_at == Some(round)) {
            SessionAction::CopyFile { .. } => {
                copies += 1;
                s.file_done(&Ok(CopyResult::Copied { dest: "/d/f.jpg".to_string() }));
            },
            SessionAction::Finish { .. } => finishes += 1,
        }
    }
    assert!(!s.is_ready() && !s.is_copying());
    (copies, finishes)
}

#[test]
fn session_finishes_once_after_at_most_one_copy_per_file() {
    for n in 0..5 {
        assert_eq!(drive(n, None), (n, 1));
        for c in 0..=n {
            assert_eq!(drive(n, Some(c)), (c.min(n), 1));
        }
    }
}

fn files(names: &[Option<&str>]) -> Vec<SessionFile> {
    names.iter().map(|n| SessionFile { name: n.map(|s| s.to_string()), is_video: false }).collect()
}

#[test]
fn session_runs_files_in_order() {
    let mut s = CopySession::new(files(&[Some("a.jpg"), None, Some("c.jpg")]));
    let outcomes = [
        Ok(CopyResult::Copied { dest: "/d/a.jpg".to_string() }),
        Ok(CopyResult::Skipped { reason: "dup".to_string() }),
        Err(CopyError::Io("x".to_string())),
    ];
    let mut seen = Vec::new();
    for outcome in outcomes {
        assert!(s.is_ready());
        match s.next(false) {
            SessionAction::CopyFile { index, name, progress, .. } => {
                seen.push((index, name.clone(), progress.current, progress.total, progress.current_file.clone()));
                assert_eq!(progress.status, "processing");
            },
            SessionAction::Finish { .. } => panic!("files remain"),
        }
        assert!(s.is_copying());
        s.file_done(&outcome);
    }
    assert_eq!(
        seen,
        vec![
            (0, "a.jpg".to_string(), 1, 3, "a.jpg".to_string()),
            (1, "unknown".to_string(), 2, 3, "unknown".to_string()),
            (2, "c.jpg".to_string(), 3, 3, "c.jpg".to_string()),
        ]
    );
    match s.next(false) {
        SessionAction::Finish { log, complete } => {
            assert!(log.is_none());
            assert_eq!((complete.copied, complete.skipped, complete.errors, complete.cancelled), (1, 1, 1, false));
        },
        _ => panic!("all files are done"),
    }
}

#[test]
fn cancelled_session() {
    let mut s = CopySession::new(files(&[Some("a.jpg"), Some("b.jpg"), Some("c.jpg")]));
    let SessionAction::CopyFile { .. } = s.next(false) else { panic!() };
    s.file_done(&Ok(CopyResult::Copied { dest: "/d/a.jpg".to_string() }));
    match s.next(true) {
        SessionAction::Finish { log: Some(l), complete } => {
            assert_eq!((l.level.as_str(), l.message.as_str()), ("warn", "Operation cancelled by user"));
            assert_eq!((complete.copied, complete.skipped, complete.errors, complete.cancelled), (1, 0, 0, true));
        },
        _ => panic!("the cancel stops the session"),
    }
    assert!(!s.is_ready());
    let l = cancelled_log();
    assert_eq!(l.message, "Operation cancelled by user");
}

#[test]
fn cancel_after_last_file_is_reported() {
    let mut s = CopySession::new(files(&[Some("a.jpg")]));
    let SessionAction::CopyFile { .. } = s.next(false) else { panic!() };
    s.file_done(&Ok(CopyResult::Copied { dest: "/d/a.jpg".to_string() }));
    match s.next(true) {
        SessionAction::Finish { log: None, complete } => assert!(complete.cancelled),
        _ => panic!(),
    }
    let mut empty = CopySession::new(vec![]);
    match empty.next(false) {
        SessionAction::Finish { log: None, complete } => {
            assert_eq!((complete.copied, complete.skipped, complete.errors, complete.cancelled), (0, 0, 0, false));
        },
        _ => panic!(),
    }
}

#[test]
fn missing_source_folder_is_refused() {
    let empty = ScanOutput { files: vec![], errors: vec![] };
    match scan_source_directory(false, empty) {
        Err(m) => assert_eq!(m, "Source directory does not exist"),
        Ok(_) => panic!(),
    }
    let out = scan_directory(&vec![WalkEntry::Found {
        path: "/s/a.jpg".to_string(),
        file_name: Some("a.jpg".to_string()),
        is_file: true,
    }]);
    match scan_source_directory(true, out) {
        Ok(r) => assert_eq!((r.total_count, r.files.len()), (1, 1)),
        Err(_) => panic!(),
    }
}

#[test]
fn log_lines() {
    let l = start_log("/src");
    assert_eq!((l.level.as_str(), l.message.as_str()), ("info", "Starting scan of /src"));
    let l = found_files_log(42);
    assert_eq!(l.message, "Found 42 media files");
    let e = media_organizer::scanner::ScanError { path: "/x".to_string(), message: "denied".to_string() };
    let l = scan_warning_log(&e);
    assert_eq!((l.level.as_str(), l.message.as_str()), ("warn", "[扫描警告] /x - denied"));
    let l = detection_log("a.mp4", true);
    assert_eq!(l.message, "[检测] a.mp4 - 类型: 视频");
    let l = detection_log("a.jpg", false);
    assert_eq!(l.message, "[检测] a.jpg - 类型: 图片");
}

#[test]
fn metadata_log_lines() {
    let found = Some((Date::from_ymd_opt(2024, 1, 15).unwrap(), "EXIF DateTimeOriginal"));
    let l = metadata_log("a.jpg", false, &found);
    assert_eq!(l.level, "info");
    assert_eq!(l.message, "[元数据] a.jpg - 创建日期: 2024-01-15 (来源: EXIF DateTimeOriginal)");
    let l = metadata_log("a.mp4", true, &None);
    assert_eq!(l.level, "warn");
    assert_eq!(l.message, "[元数据] a.mp4 - 创建日期: 未找到 (将使用 1970-01-01) (来源: ffprobe 未返回有效日期)");
    let l = metadata_log("a.jpg", false, &None);
    assert_eq!(l.message, "[元数据] a.jpg - 创建日期: 未找到 (将使用 1970-01-01) (来源: EXIF 未找到日期信息)");
}

#[test]
fn large_file_notice() {
    assert!(large_file_log("a.mp4", 100 * 1024 * 1024).is_none());
    assert!(large_file_log("a.mp4", 101 * 1024 * 1024 - 1).is_none());
    let l = large_file_log("a.mp4", 101 * 1024 * 1024).unwrap();
    assert_eq!(l.message, "[提示] a.mp4 文件较大 (101MB)，正在计算校验和...");
}

#[test]
fn outcome_log_lines() {
    let l = outcome_log("a.jpg", &Ok(CopyResult::Copied { dest: "/d/2024-01-01/a.jpg".to_string() }));
    assert_eq!((l.level.as_str(), l.message.as_str()), ("success", "Copied: a.jpg -> /d/2024-01-01/a.jpg"));
    let l = outcome_log("a.jpg", &Ok(CopyResult::Skipped { reason: "Duplicate file (same MD5)".to_string() }));
    assert_eq!((l.level.as_str(), l.message.as_str()), ("info", "Skipped: a.jpg (Duplicate file (same MD5))"));
    let l = outcome_log("a.jpg", &Err(CopyError::TooManyDuplicates("a.jpg".to_string())));
    assert_eq!((l.level.as_str(), l.message.as_str()), ("error", "Error: a.jpg - Too many duplicate filenames: a.jpg"));
}

