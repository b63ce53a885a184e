use media_organizer::filename::{file_name, stem_and_extension, unique_name_candidate};
use media_organizer::copier::{get_unique_filename, join_path, CopyError, UniqueNameStep};
use media_organizer::system::TargetOs;

fn parts(p: &str) -> (Option<String>, Option<String>) {
    stem_and_extension(p)
}

#[test]
fn file_name_is_last_component() {
    assert_eq!(file_name("/a/b/c.jpg").as_deref(), Some("c.jpg"));
    assert_eq!(file_name("c.jpg").as_deref(), Some("c.jpg"));
    assert_eq!(file_name("/a/b/").as_deref(), Some("b"));
    assert_eq!(file_name("/a/b/.").as_deref(), Some("b"));
    assert_eq!(file_name("/a/..").as_deref(), None);
    assert_eq!(file_name("/").as_deref(), None);
    assert_eq!(file_name("").as_deref(), None);
    assert_eq!(file_name(".").as_deref(), None);
}

#[test]
fn file_name_agrees_with_std() {
    for p in ["/a/b/c.jpg", "a//b", "/a/b/", "./x", "x/./", "..", "a/..", "/", "", ".", "...", "a/.b", "a.b/c"] {
        let expected = std::path::Path::new(p).file_name().map(|s| s.to_str().unwrap().to_string());
        assert_eq!(file_name(p), expected, "{}", p);
    }
}

#[test]
fn stem_and_extension_agree_with_std() {
    for p in ["photo.jpg", "archive.tar.gz", ".bashrc", "a.", "noext", "..", ".", "", "dir/x.mp4", ".a.b", "x/.."] {
        let path = std::path::Path::new(p);
        let stem = path.file_stem().map(|s| s.to_str().unwrap().to_string());
        let ext = path.extension().map(|s| s.to_str().unwrap().to_string());
        assert_eq!(parts(p), (stem, ext), "{}", p);
    }
}

#[test]
fn candidates_follow_stem_counter_extension() {
    assert_eq!(unique_name_candidate("IMG_1.jpg", 0), "IMG_1.jpg");
    assert_eq!(unique_name_candidate("IMG_1.jpg", 1), "IMG_1_1.jpg");
    assert_eq!(unique_name_candidate("IMG_1.jpg", 10000), "IMG_1_10000.jpg");
    assert_eq!(unique_name_candidate("archive.tar.gz", 2), "archive.tar_2.gz");
    assert_eq!(unique_name_candidate("README", 3), "README_3");
    assert_eq!(unique_name_candidate(".bashrc", 4), ".bashrc_4");
    assert_eq!(unique_name_candidate("a.", 5), "a_5");
    assert_eq!(unique_name_candidate("..", 6), "file_6");
}

#[test]
fn unique_name_search_steps() {
    match get_unique_filename("a.jpg", 0, false) {
        Ok(UniqueNameStep::Found(n)) => assert_eq!(n, "a.jpg"),
        _ => panic!("expected the free name"),
    }
    match get_unique_filename("a.jpg", 0, true) {
        Ok(UniqueNameStep::Probe { counter, name }) => {
            assert_eq!(counter, 1);
            assert_eq!(name, "a_1.jpg");
        },
        _ => panic!("expected the next candidate"),
    }
    match get_unique_filename("a.jpg", 7, false) {
        Ok(UniqueNameStep::Found(n)) => assert_eq!(n, "a_7.jpg"),
        _ => panic!("expected the free name"),
    }
    match get_unique_filename("a.jpg", 10000, true) {
        Err(e) => {
            assert_eq!(e, CopyError::TooManyDuplicates("a.jpg".to_string()));
            assert_eq!(e.message(), "Too many duplicate filenames: a.jpg");
        },
        _ => panic!("expected the search to give up"),
    }
}

#[test]
fn unique_name_search_finds_first_free() {
    // Names a.jpg, a_1.jpg .. a_3.jpg are taken.
    let taken = |n: &str| n == "a.jpg" || n == "a_1.jpg" || n == "a_2.jpg" || n == "a_3.jpg";
    let mut counter = 0;
    let mut name = unique_name_candidate("a.jpg", 0);
    let found = loop {
        match get_unique_filename("a.jpg", counter, taken(&name)).unwrap() {
            UniqueNameStep::Found(n) => break n,
            UniqueNameStep::Probe { counter: c, name: n } => {
                counter = c;
                name = n;
            },
        }
    };
    assert_eq!(found, "a_4.jpg");
}

#[test]
fn unique_name_candidates_are_distinct() {
    let mut seen = std::collections::HashSet::new();
    for k in 0..=10000u32 {
        assert!(seen.insert(unique_name_candidate("x.png", k)));
    }
}

#[test]
fn join_paths_like_pathbuf() {
    for (b, r) in [("/dest", "2024-01-01"), ("/dest/", "x"), ("", "x"), ("rel", "a.jpg")] {
        let expected = std::path::Path::new(b).join(r).to_str().unwrap().to_string();
        assert_eq!(join_path(TargetOs::Linux, b, r), expected);
    }
}

#[test]
fn join_paths_on_windows() {
    assert_eq!(join_path(TargetOs::Windows, "C:\\dest", "a.jpg"), "C:\\dest\\a.jpg");
    assert_eq!(join_path(TargetOs::Windows, "C:\\dest\\", "a.jpg"), "C:\\dest\\a.jpg");
    assert_eq!(join_path(TargetOs::Windows, "C:/dest/", "a.jpg"), "C:/dest/a.jpg");
    assert_eq!(join_path(TargetOs::Windows, "C:", "a.jpg"), "C:a.jpg");
    assert_eq!(join_path(TargetOs::Linux, "C:", "a.jpg"), "C:/a.jpg");
    assert_eq!(join_path(TargetOs::Linux, "/dest\\", "a.jpg"), "/dest\\/a.jpg");
}
