use media_organizer::system::{
    check_ffprobe, extra_path_dir_list, get_full_path, os_type_name, path_lookup_program, TargetOs,
};
use media_organizer::terminal::{
    escape_applescript_string, first_launch, is_allowed_install_command, next_launch,
    open_terminal_with_command, terminal_failure_message, Launch, LaunchDecision,
};

/// Opens a terminal where `starts(i)` tells whether the launch at `i` starts;
/// gives the answer and the launches tried.
fn open(os: TargetOs, command: &str, starts: impl Fn(usize) -> bool) -> (Result<(), String>, Vec<String>) {
    let launches: Vec<Launch> = match open_terminal_with_command(os, command) {
        Ok(l) => l,
        Err(e) => return (Err(e), vec![]),
    };
    let mut tried = Vec::new();
    let mut d = first_launch(&launches);
    loop {
        match d {
            LaunchDecision::Done(r) => return (r, tried),
            LaunchDecision::Spawn(i) => {
                tried.push(launches[i].program.clone());
                let err = if starts(i) { None } else { Some(format!("cannot start {}", launches[i].program)) };
                d = next_launch(os, &launches, i, err);
            },
        }
    }
}

#[test]
fn linux_stops_at_first_terminal_that_starts() {
    let (r, tried) = open(TargetOs::Linux, "sudo apt install ffmpeg", |_| true);
    assert_eq!(r, Ok(()));
    assert_eq!(tried, vec!["gnome-terminal"]);
    let (r, tried) = open(TargetOs::Linux, "sudo apt install ffmpeg", |i| i == 2);
    assert_eq!(r, Ok(()));
    assert_eq!(tried, vec!["gnome-terminal", "konsole", "xfce4-terminal"]);
}

#[test]
fn linux_without_terminal() {
    let (r, tried) = open(TargetOs::Linux, "sudo dnf install ffmpeg", |_| false);
    assert_eq!(r, Err("No supported terminal emulator found".to_string()));
    assert_eq!(tried.len(), 4);
}

#[test]
fn macos_single_spawn() {
    let (r, tried) = open(TargetOs::MacOs, "brew install ffmpeg", |_| true);
    assert_eq!((r, tried), (Ok(()), vec!["osascript".to_string()]));
    let (r, _) = open(TargetOs::MacOs, "brew install ffmpeg", |_| false);
    assert_eq!(r, Err("Failed to open terminal: cannot start osascript".to_string()));
    let (r, tried) = open(TargetOs::Other, "brew install ffmpeg", |_| false);
    assert_eq!((r, tried.len()), (Ok(()), 0));
    let (r, tried) = open(TargetOs::MacOs, "rm -rf /", |_| true);
    assert!(r.is_err());
    assert!(tried.is_empty());
}

#[test]
fn full_path_appends_missing_dirs() {
    assert_eq!(
        get_full_path("/usr/bin:/bin", TargetOs::MacOs),
        "/usr/bin:/bin:/opt/homebrew/bin:/usr/local/bin:/opt/homebrew/sbin:/usr/local/sbin"
    );
    assert_eq!(
        get_full_path("/usr/bin:/bin", TargetOs::Linux),
        "/usr/bin:/bin:/usr/local/bin:/snap/bin:/home/linuxbrew/.linuxbrew/bin"
    );
}

#[test]
fn full_path_keeps_existing_order_and_adds_nothing_twice() {
    assert_eq!(
        get_full_path("/usr/local/bin:/usr/bin", TargetOs::Linux),
        "/usr/local/bin:/usr/bin:/snap/bin:/home/linuxbrew/.linuxbrew/bin"
    );
}

#[test]
fn full_path_of_empty_path() {
    assert_eq!(get_full_path("", TargetOs::Windows), "");
    assert_eq!(get_full_path("", TargetOs::Linux), ":/usr/local/bin:/usr/bin:/snap/bin:/home/linuxbrew/.linuxbrew/bin");
}

#[test]
fn full_path_keeps_empty_entries() {
    assert_eq!(get_full_path("/usr/bin::/bin:", TargetOs::Windows), "/usr/bin::/bin:");
    assert_eq!(get_full_path("a:", TargetOs::Other), "a:");
    assert_eq!(get_full_path(":/bin", TargetOs::MacOs), ":/bin:/opt/homebrew/bin:/usr/local/bin:/opt/homebrew/sbin:/usr/local/sbin");
}

#[test]
fn full_path_is_idempotent() {
    for os in [TargetOs::MacOs, TargetOs::Linux, TargetOs::Windows, TargetOs::Other] {
        for p in ["", "/bin", "/usr/bin::/bin", "/opt/homebrew/bin"] {
            let once = get_full_path(p, os);
            assert_eq!(get_full_path(&once, os), once);
        }
    }
}

#[test]
fn extra_dirs_per_os() {
    assert_eq!(extra_path_dir_list(TargetOs::Other).len(), 0);
    assert_eq!(extra_path_dir_list(TargetOs::MacOs)[0], "/opt/homebrew/bin");
}

#[test]
fn ffprobe_status() {
    let s = check_ffprobe(TargetOs::Linux, true, Some((true, b"/usr/bin/ffprobe\n/other\n".to_vec())));
    assert!(s.ffprobe_installed);
    assert_eq!(s.ffprobe_path.as_deref(), Some("/usr/bin/ffprobe"));
    assert_eq!(s.os_type, "linux");
    let s = check_ffprobe(TargetOs::Windows, true, Some((true, b"  C:\\ffprobe.exe\r\n".to_vec())));
    assert_eq!(s.ffprobe_path.as_deref(), Some("C:\\ffprobe.exe"));
    assert_eq!(s.os_type, "windows");
    let s = check_ffprobe(TargetOs::MacOs, true, Some((false, b"x".to_vec())));
    assert!(s.ffprobe_installed);
    assert_eq!(s.ffprobe_path, None);
    let s = check_ffprobe(TargetOs::MacOs, true, Some((true, vec![0xff, 0xfe])));
    assert_eq!(s.ffprobe_path, None);
    let s = check_ffprobe(TargetOs::MacOs, true, Some((true, vec![])));
    assert_eq!(s.ffprobe_path.as_deref(), Some(""));
    let s = check_ffprobe(TargetOs::Other, false, None);
    assert!(!s.ffprobe_installed);
    assert_eq!(s.ffprobe_path, None);
    assert_eq!(s.os_type, "linux");
}

#[test]
fn os_names_and_lookup_programs() {
    assert_eq!(os_type_name(TargetOs::MacOs), "macos");
    assert_eq!(path_lookup_program(TargetOs::Windows), "where");
    assert_eq!(path_lookup_program(TargetOs::Linux), "which");
}

#[test]
fn install_commands_allowed_after_trimming() {
    assert!(is_allowed_install_command("brew install ffmpeg"));
    assert!(is_allowed_install_command("  sudo apt install ffmpeg\n"));
    assert!(is_allowed_install_command("\u{3000}sudo pacman -S ffmpeg\t"));
    assert!(!is_allowed_install_command("brew install ffmpeg; rm -rf /"));
    assert!(!is_allowed_install_command("brew  install ffmpeg"));
    assert!(!is_allowed_install_command(""));
}

#[test]
fn applescript_escaping() {
    assert_eq!(escape_applescript_string(r#"say "hi" \ there"#), r#"say \"hi\" \\ there"#);
    assert_eq!(escape_applescript_string("plain"), "plain");
    assert_eq!(escape_applescript_string(""), "");
}

#[test]
fn refused_command() {
    match open_terminal_with_command(TargetOs::Linux, "rm -rf /") {
        Err(m) => assert_eq!(m, "Command not allowed: only predefined install commands are permitted"),
        Ok(_) => panic!("must be refused"),
    }
}

#[test]
fn terminal_launches_per_os() {
    let mac = open_terminal_with_command(TargetOs::MacOs, "brew install ffmpeg").unwrap();
    assert_eq!(mac.len(), 1);
    assert_eq!(mac[0].program, "osascript");
    assert_eq!(
        mac[0].args,
        vec![
            "-e".to_string(),
            "tell application \"Terminal\"\n                        activate\n                        do script \"brew install ffmpeg\"\n                    end tell".to_string()
        ]
    );
    let win = open_terminal_with_command(TargetOs::Windows, " winget install ffmpeg").unwrap();
    assert_eq!(win[0].program, "cmd");
    assert_eq!(win[0].args, vec!["/c", "start", "cmd", "/k", " winget install ffmpeg"]);
    let linux = open_terminal_with_command(TargetOs::Linux, "sudo apt install ffmpeg").unwrap();
    let programs: Vec<&str> = linux.iter().map(|l| l.program.as_str()).collect();
    assert_eq!(programs, vec!["gnome-terminal", "konsole", "xfce4-terminal", "xterm"]);
    assert_eq!(linux[0].args, vec!["--", "bash", "-c", "sudo apt install ffmpeg; exec bash"]);
    assert_eq!(linux[1].args, vec!["-e", "bash", "-c", "sudo apt install ffmpeg; exec bash"]);
    assert_eq!(linux[2].args, vec!["-e", "bash -c 'sudo apt install ffmpeg; exec bash'"]);
    assert_eq!(linux[3].args, vec!["-e", "bash -c 'sudo apt install ffmpeg; exec bash'"]);
    assert!(open_terminal_with_command(TargetOs::Other, "brew install ffmpeg").unwrap().is_empty());
}

#[test]
fn terminal_failures() {
    assert_eq!(terminal_failure_message(TargetOs::Linux, "x"), "No supported terminal emulator found");
    assert_eq!(terminal_failure_message(TargetOs::MacOs, "not found"), "Failed to open terminal: not found");
}
