use media_organizer::copier::{
    copy_file, date_dir_name, dest_dir_with_dedup, CopyAction, CopyError, CopyEvent, CopyResult,
    CopyStep, DedupStage, DedupStep,
};
use media_organizer::date::Date;
use media_organizer::system::TargetOs;
use media_organizer::digest::{md5_hex, Md5Hasher};

fn action_text(a: &CopyAction) -> String {
    match a {
        CopyAction::EnsureDir { dir } => format!("dir {}", dir),
        CopyAction::CheckExists { name } => format!("exists {}", name),
        CopyAction::CompareDigests { name } => format!("digests {}", name),
        CopyAction::CopyTo { name } => format!("copy {}", name),
    }
}

/// Runs a copy against a simulated destination folder.
fn run(
    source: Option<&str>,
    date: Option<Date>,
    dir_ok: bool,
    existing: &[&str],
    same_digest: bool,
) -> (Vec<String>, Result<CopyResult, CopyError>) {
    let mut trace = Vec::new();
    let mut step = copy_file(TargetOs::Linux, source, "/dest", date);
    loop {
        match step {
            CopyStep::Done(r) => return (trace, r),
            CopyStep::Next(task, action) => {
                trace.push(action_text(&action));
                let event = match &action {
                    CopyAction::EnsureDir { .. } => {
                        if dir_ok { CopyEvent::DirReady } else { CopyEvent::DirFailed }
                    },
                    CopyAction::CheckExists { name } => CopyEvent::Exists(existing.contains(&name.as_str())),
                    CopyAction::CompareDigests { .. } => {
                        let source = "aaaa".to_string();
                        let existing = if same_digest { "aaaa" } else { "bbbb" }.to_string();
                        CopyEvent::Digests { source, existing }
                    },
                    CopyAction::CopyTo { .. } => CopyEvent::Copied,
                };
                step = task.step(event);
            },
        }
    }
}

#[test]
fn copies_to_dated_folder_when_name_is_free() {
    let (trace, r) = run(Some("IMG_1.jpg"), Date::from_ymd_opt(2024, 1, 15), true, &[], false);
    assert_eq!(trace, vec!["dir 2024-01-15", "exists IMG_1.jpg", "copy IMG_1.jpg"]);
    assert_eq!(r, Ok(CopyResult::Copied { dest: "/dest/2024-01-15/IMG_1.jpg".to_string() }));
}

#[test]
fn unknown_date_goes_to_1970() {
    let (trace, r) = run(Some("a.png"), None, true, &[], false);
    assert_eq!(trace[0], "dir 1970-01-01");
    assert_eq!(r, Ok(CopyResult::Copied { dest: "/dest/1970-01-01/a.png".to_string() }));
}

#[test]
fn duplicate_with_same_digest_is_skipped() {
    let (trace, r) = run(Some("a.png"), None, true, &["a.png"], true);
    assert_eq!(trace, vec!["dir 1970-01-01", "exists a.png", "digests a.png"]);
    assert_eq!(r, Ok(CopyResult::Skipped { reason: "Duplicate file (same MD5)".to_string() }));
}

#[test]
fn different_file_of_same_name_gets_next_free_name() {
    let (trace, r) = run(Some("a.png"), None, true, &["a.png", "a_1.png"], false);
    assert_eq!(
        trace,
        vec!["dir 1970-01-01", "exists a.png", "digests a.png", "exists a.png", "exists a_1.png", "exists a_2.png", "copy a_2.png"]
    );
    assert_eq!(r, Ok(CopyResult::Copied { dest: "/dest/1970-01-01/a_2.png".to_string() }));
}

#[test]
fn folder_failure_is_reported_with_its_path() {
    let (_, r) = run(Some("a.png"), Date::from_ymd_opt(2023, 5, 6), false, &[], false);
    let e = r.unwrap_err();
    assert_eq!(e, CopyError::CreateDir("/dest/2023-05-06".to_string()));
    assert_eq!(e.message(), "Failed to create directory: /dest/2023-05-06");
}

#[test]
fn source_without_file_name_is_unknown() {
    let (trace, _) = run(None, None, true, &[], false);
    assert_eq!(trace[1], "exists unknown");
}

#[test]
fn read_and_copy_failures_are_io_errors() {
    let step = copy_file(TargetOs::Linux, Some("a.png"), "/dest", None);
    let CopyStep::Next(task, _) = step else { panic!() };
    let CopyStep::Next(task, _) = task.step(CopyEvent::DirReady) else { panic!() };
    let CopyStep::Next(task, _) = task.step(CopyEvent::Exists(false)) else { panic!() };
    match task.step(CopyEvent::Failed("disk full".to_string())) {
        CopyStep::Done(Err(e)) => {
            assert_eq!(e, CopyError::Io("disk full".to_string()));
            assert_eq!(e.message(), "IO error: disk full");
        },
        _ => panic!("expected an error"),
    }
    match dest_dir_with_dedup("a.png", DedupStage::CompareDigests, CopyEvent::Failed("gone".to_string())) {
        DedupStep::Decided(Err(e)) => assert_eq!(e, CopyError::Io("gone".to_string())),
        _ => panic!("expected an error"),
    }
}

#[test]
fn unexpected_answer_repeats_the_question() {
    let CopyStep::Next(task, _) = copy_file(TargetOs::Linux, Some("a.png"), "/dest", None) else { panic!() };
    match task.step(CopyEvent::Copied) {
        CopyStep::Next(_, a) => assert_eq!(action_text(&a), "dir 1970-01-01"),
        _ => panic!("expected the same question"),
    }
}

#[test]
fn dedup_step_decisions() {
    match dest_dir_with_dedup("v.mp4", DedupStage::CheckInitial, CopyEvent::Exists(false)) {
        DedupStep::Decided(Ok(Some(n))) => assert_eq!(n, "v.mp4"),
        _ => panic!(),
    }
    match dest_dir_with_dedup(
        "v.mp4",
        DedupStage::CompareDigests,
        CopyEvent::Digests { source: "x".to_string(), existing: "x".to_string() },
    ) {
        DedupStep::Decided(Ok(None)) => {},
        _ => panic!(),
    }
    match dest_dir_with_dedup("v.mp4", DedupStage::Probe(10000), CopyEvent::Exists(true)) {
        DedupStep::Decided(Err(e)) => assert_eq!(e, CopyError::TooManyDuplicates("v.mp4".to_string())),
        _ => panic!(),
    }
}

#[test]
fn date_folder_names() {
    assert_eq!(date_dir_name(&Date::from_ymd_opt(2021, 12, 3)), "2021-12-03");
    assert_eq!(date_dir_name(&None), "1970-01-01");
}

#[test]
fn md5_of_known_texts() {
    let h = Md5Hasher::new();
    assert_eq!(md5_hex(h), "d41d8cd98f00b204e9800998ecf8427e");
    let mut h = Md5Hasher::new();
    h.update(b"abc");
    assert_eq!(md5_hex(h), "900150983cd24fb0d6963f7d28e17f72");
}

#[test]
fn md5_in_chunks_equals_md5_of_whole() {
    let data: Vec<u8> = (0..200_000u32).map(|i| (i % 251) as u8).collect();
    let mut whole = Md5Hasher::new();
    whole.update(&data);
    let mut chunked = Md5Hasher::new();
    for c in data.chunks(65536) {
        chunked.update(c);
    }
    let a = md5_hex(whole);
    assert_eq!(a.len(), 32);
    assert_eq!(a, md5_hex(chunked));
}

#[test]
fn copy_on_windows_joins_with_backslashes() {
    let mut step = copy_file(TargetOs::Windows, Some("a.png"), "D:\\photos", Date::from_ymd_opt(2024, 2, 3));
    let result = loop {
        match step {
            CopyStep::Done(r) => break r,
            CopyStep::Next(task, action) => {
                let event = match action {
                    CopyAction::EnsureDir { .. } => CopyEvent::DirReady,
                    CopyAction::CheckExists { .. } => CopyEvent::Exists(false),
                    CopyAction::CompareDigests { .. } => CopyEvent::Failed("unexpected".to_string()),
                    CopyAction::CopyTo { .. } => CopyEvent::Copied,
                };
                step = task.step(event);
            },
        }
    };
    assert_eq!(result, Ok(CopyResult::Copied { dest: "D:\\photos\\2024-02-03\\a.png".to_string() }));
}

#[test]
fn copying_again_skips_the_copied_file() {
    // First import: the name is free and the file is copied.
    let (_, r) = run(Some("a.png"), None, true, &[], false);
    assert!(matches!(r, Ok(CopyResult::Copied { .. })));
    // Second import: the name now holds the same content.
    let (trace, r) = run(Some("a.png"), None, true, &["a.png"], true);
    assert_eq!(r, Ok(CopyResult::Skipped { reason: "Duplicate file (same MD5)".to_string() }));
    assert!(!trace.iter().any(|t| t.starts_with("copy")));
}
