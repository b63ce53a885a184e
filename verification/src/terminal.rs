//! Opening a terminal that runs one of the known `ffmpeg` install commands.

use vstd::prelude::*;
use crate::system::{TargetOs, chars_equal};
use crate::text::{chars_of, push_char, push_chars, trim_chars, trimmed};

verus! {

/// The install commands that a terminal may be opened for.
pub open spec fn allowed_install_commands() -> Seq<Seq<char>> {
    seq![
        "brew install ffmpeg"@,
        "winget install ffmpeg"@,
        "sudo apt install ffmpeg"@,
        "sudo dnf install ffmpeg"@,
        "sudo pacman -S ffmpeg"@,
    ]
}

/// The install commands that a terminal may be opened for.
pub fn allowed_install_command_list() -> (r: Vec<&'static str>)
    ensures
        r@.map_values(|s: &str| s@) == allowed_install_commands(),
{
    let r = vec![
        "brew install ffmpeg",
        "winget install ffmpeg",
        "sudo apt install ffmpeg",
        "sudo dnf install ffmpeg",
        "sudo pacman -S ffmpeg",
    ];
    assert(r@.map_values(|s: &str| s@) =~= allowed_install_commands());
    r
}

/// Whether `command`, without leading and trailing white space, is one of
/// the known install commands.
pub fn is_allowed_install_command(command: &str) -> (r: bool)
    ensures
        r == allowed_install_commands().contains(trimmed(command@)),
{
    let cs = chars_of(command);
    let t = trim_chars(cs.as_slice());
    let list = allowed_install_command_list();
    let ghost ws = list@.map_values(|s: &str| s@);
    let n = list.len();
    for i in 0..n
        invariant
            n == list@.len(),
            ws == list@.map_values(|s: &str| s@),
            ws == allowed_install_commands(),
            t@ == trimmed(command@),
            forall|j: int| 0 <= j < i ==> ws[j] != t@,
    {
        let w = chars_of(list[i]);
        if chars_equal(w.as_slice(), t.as_slice()) {
            assert(ws[i as int] == t@);
            return true;
        }
    }
    false
}

/// The AppleScript escape of one character: a backslash before `\` and `"`.
pub open spec fn escaped_char(c: char) -> Seq<char> {
    if c == '\\' {
        seq!['\\', '\\']
    } else if c == '"' {
        seq!['\\', '"']
    } else {
        seq![c]
    }
}

/// `s` escaped for an AppleScript string literal.
pub open spec fn applescript_escaped(s: Seq<char>) -> Seq<char>
    decreases s.len(),
{
    if s.len() == 0 {
        Seq::empty()
    } else {
        escaped_char(s[0]) + applescript_escaped(s.drop_first())
    }
}

/// The text that an escaped AppleScript string literal stands for: a
/// backslash takes the next character as it is.
pub open spec fn applescript_unescaped(t: Seq<char>) -> Seq<char>
    decreases t.len(),
{
    if t.len() == 0 {
        Seq::empty()
    } else if t[0] == '\\' && t.len() >= 2 {
        seq![t[1]] + applescript_unescaped(t.skip(2))
    } else {
        seq![t[0]] + applescript_unescaped(t.drop_first())
    }
}

proof fn lemma_escaped_push(s: Seq<char>, c: char)
    ensures
        applescript_escaped(s.push(c)) == applescript_escaped(s) + escaped_char(c),
    decreases s.len(),
{
    if s.len() == 0 {
        assert(s.push(c).drop_first() =~= Seq::<char>::empty());
        assert(s.push(c)[0] == c);
        assert(escaped_char(c) + Seq::<char>::empty() =~= escaped_char(c));
        assert(s =~= Seq::<char>::empty());
        assert(applescript_escaped(Seq::<char>::empty()) == Seq::<char>::empty());
        assert(s.push(c).len() == 1);
        assert(applescript_escaped(s.push(c)) == escaped_char(s.push(c)[0]) + applescript_escaped(
            s.push(c).drop_first(),
        ));
        assert(applescript_escaped(s.push(c)) =~= escaped_char(c));
    } else {
        lemma_escaped_push(s.drop_first(), c);
        assert(s.push(c).drop_first() =~= s.drop_first().push(c));
        assert(s.push(c)[0] == s[0]);
        assert(applescript_escaped(s.push(c)) =~= escaped_char(s[0]) + (applescript_escaped(
            s.drop_first(),
        ) + escaped_char(c)));
    }
}

/// Escaping a text for AppleScript loses nothing: reading the escaped
/// literal back gives the text.
pub proof fn lemma_applescript_roundtrip(s: Seq<char>)
    ensures
        applescript_unescaped(applescript_escaped(s)) == s,
    decreases s.len(),
{
    if s.len() > 0 {
        lemma_applescript_roundtrip(s.drop_first());
        let e = applescript_escaped(s);
        let rest = applescript_escaped(s.drop_first());
        if s[0] == '\\' || s[0] == '"' {
            assert(e == escaped_char(s[0]) + rest);
            assert(e.skip(2) =~= rest);
            assert(e[1] == s[0]);
        } else {
            assert(e.drop_first() =~= rest);
        }
        assert(seq![s[0]] + s.drop_first() =~= s);
    }
}

/// The number of `\` and `"` in `s`.
pub open spec fn special_count(s: Seq<char>) -> nat
    decreases s.len(),
{
    if s.len() == 0 {
        0
    } else {
        (if s[0] == '\\' || s[0] == '"' {
            1nat
        } else {
            0nat
        }) + special_count(s.drop_first())
    }
}

/// The escaped text is one character longer than the text for each `\` and
/// `"` in it.
pub proof fn lemma_escaped_len(s: Seq<char>)
    ensures
        applescript_escaped(s).len() == s.len() + special_count(s),
    decreases s.len(),
{
    if s.len() > 0 {
        lemma_escaped_len(s.drop_first());
    }
}

/// The number of backslashes right before position `i` of `t`.
pub open spec fn backslashes_before(t: Seq<char>, i: int) -> nat
    decreases i,
{
    if i <= 0 || i > t.len() || t[i - 1] != '\\' {
        0
    } else {
        1 + backslashes_before(t, i - 1)
    }
}

proof fn lemma_backslashes_prefix(e: Seq<char>, r: Seq<char>, i: int)
    requires
        0 <= i <= e.len(),
    ensures
        backslashes_before(e + r, i) == backslashes_before(e, i),
    decreases i,
{
    if i > 0 {
        assert((e + r)[i - 1] == e[i - 1]);
        lemma_backslashes_prefix(e, r, i - 1);
    }
}

proof fn lemma_backslashes_concat(e: Seq<char>, r: Seq<char>, j: int)
    requires
        0 <= j <= r.len(),
    ensures
        backslashes_before(e + r, e.len() + j) == if backslashes_before(r, j) == j {
            j + backslashes_before(e, e.len() as int)
        } else {
            backslashes_before(r, j) as int
        },
    decreases j,
{
    if j == 0 {
        lemma_backslashes_prefix(e, r, e.len() as int);
    } else {
        assert((e + r)[e.len() + j - 1] == r[j - 1]);
        lemma_backslashes_concat(e, r, j - 1);
    }
}

/// In the escaped text, every `"` follows an odd run of backslashes, so it
/// cannot end the AppleScript string literal it stands in.
pub proof fn lemma_escaped_quotes_follow_odd_backslashes(s: Seq<char>)
    ensures
        forall|i: int|
            0 <= i < applescript_escaped(s).len() && #[trigger] applescript_escaped(s)[i] == '"'
                ==> backslashes_before(applescript_escaped(s), i) % 2 == 1,
    decreases s.len(),
{
    if s.len() > 0 {
        let rest = s.drop_first();
        lemma_escaped_quotes_follow_odd_backslashes(rest);
        let e = escaped_char(s[0]);
        let r = applescript_escaped(rest);
        let t = applescript_escaped(s);
        assert(t == e + r);
        assert(backslashes_before(e, e.len() as int) % 2 == 0) by {
            if s[0] == '\\' {
                assert(e[0] == '\\' && e[1] == '\\');
                assert(backslashes_before(e, 0) == 0);
                assert(backslashes_before(e, 1) == 1);
                assert(backslashes_before(e, 2) == 2);
            }
        }
        assert forall|i: int| 0 <= i < t.len() && #[trigger] t[i] == '"' implies backslashes_before(
            t,
            i,
        ) % 2 == 1 by {
            if i < e.len() {
                lemma_backslashes_prefix(e, r, i);
                if i == 1 {
                    assert(backslashes_before(e, 0) == 0);
                }
            } else {
                let j = i - e.len();
                assert(r[j] == t[i]);
                lemma_backslashes_concat(e, r, j);
            }
        }
    }
}

/// `s` with `\` and `"` escaped by a backslash, for an AppleScript string
/// literal.
pub fn escape_applescript_string(s: &str) -> (r: String)
    ensures
        r@ == applescript_escaped(s@),
{
    let cs = chars_of(s);
    let mut r = String::new();
    let n = cs.len();
    assert(cs@.take(0) =~= Seq::<char>::empty());
    for i in 0..n
        invariant
            n == cs@.len(),
            r@ == applescript_escaped(cs@.take(i as int)),
    {
        let c = cs[i];
        proof {
            lemma_escaped_push(cs@.take(i as int), c);
            assert(cs@.take(i + 1) == cs@.take(i as int).push(c));
        }
        if c == '\\' || c == '"' {
            push_char(&mut r, '\\');
        }
        push_char(&mut r, c);
        assert(r@ =~= applescript_escaped(cs@.take(i + 1)));
    }
    assert(cs@.take(n as int) == s@);
    r
}

/// The AppleScript that has the Terminal application run `command`.
pub open spec fn macos_terminal_script(command: Seq<char>) -> Seq<char> {
    "tell application \"Terminal\"\n                        activate\n                        do script \""@
        + applescript_escaped(command) + "\"\n                    end tell"@
}

/// A program to start, with its arguments.
pub struct Launch {
    pub program: String,
    pub args: Vec<String>,
}

/// A launch as a program name and arguments.
pub open spec fn launch_view(l: Launch) -> (Seq<char>, Seq<Seq<char>>) {
    (l.program@, l.args@.map_values(|a: String| a@))
}

/// The programs that may open a terminal running `command`, to be tried in
/// order until one starts: AppleScript's Terminal on macOS, a new `cmd`
/// window on Windows, and the usual terminal emulators on Linux, each
/// running `command` in a `bash` that stays open.
pub open spec fn terminal_launches(os: TargetOs, command: Seq<char>) -> Seq<
    (Seq<char>, Seq<Seq<char>>),
> {
    match os {
        TargetOs::MacOs => seq![("osascript"@, seq!["-e"@, macos_terminal_script(command)])],
        TargetOs::Windows => seq![
            ("cmd"@, seq!["/c"@, "start"@, "cmd"@, "/k"@, command]),
        ],
        TargetOs::Linux => seq![
            ("gnome-terminal"@, seq!["--"@, "bash"@, "-c"@, command + "; exec bash"@]),
            ("konsole"@, seq!["-e"@, "bash"@, "-c"@, command + "; exec bash"@]),
            ("xfce4-terminal"@, seq!["-e"@, "bash -c '"@ + command + "; exec bash'"@]),
            ("xterm"@, seq!["-e"@, "bash -c '"@ + command + "; exec bash'"@]),
        ],
        TargetOs::Other => Seq::empty(),
    }
}

/// The refusal of a command that is not a known install command.
pub open spec fn command_refusal() -> Seq<char> {
    "Command not allowed: only predefined install commands are permitted"@
}

fn text(s: &str) -> (r: String)
    ensures
        r@ == s@,
{
    String::from_str(s)
}

fn launch(program: &str, args: Vec<String>) -> (r: Launch)
    ensures
        r.program@ == program@,
        r.args@ == args@,
{
    Launch { program: String::from_str(program), args }
}

fn concat3(a: &str, b: &str, c: &str) -> (r: String)
    ensures
        r@ == a@ + b@ + c@,
{
    let mut r = String::from_str(a);
    r.append(b);
    r.append(c);
    r
}

fn concat2(a: &str, b: &str) -> (r: String)
    ensures
        r@ == a@ + b@,
{
    let mut r = String::from_str(a);
    r.append(b);
    r
}

fn macos_launches(command: &str) -> (r: Vec<Launch>)
    ensures
        r@.map_values(|l: Launch| launch_view(l)) == terminal_launches(TargetOs::MacOs, command@),
{
    let mut script = text(
        "tell application \"Terminal\"\n                        activate\n                        do script \"",
    );
    script.append(escape_applescript_string(command).as_str());
    script.append("\"\n                    end tell");
    let a0 = text("-e");
    let ghost v = seq![a0@, script@];
    let args = vec![a0, script];
    assert(args@.map_values(|a: String| a@) =~= v);
    let ls = vec![launch("osascript", args)];
    assert(ls@.map_values(|l: Launch| launch_view(l)) =~= terminal_launches(TargetOs::MacOs, command@));
    ls
}

fn windows_launches(command: &str) -> (r: Vec<Launch>)
    ensures
        r@.map_values(|l: Launch| launch_view(l)) == terminal_launches(TargetOs::Windows, command@),
{
    let args = vec![text("/c"), text("start"), text("cmd"), text("/k"), text(command)];
    assert(args@.map_values(|a: String| a@) =~= seq!["/c"@, "start"@, "cmd"@, "/k"@, command@]);
    let ls = vec![launch("cmd", args)];
    assert(ls@.map_values(|l: Launch| launch_view(l)) =~= terminal_launches(TargetOs::Windows, command@));
    ls
}

fn linux_launches(command: &str) -> (r: Vec<Launch>)
    ensures
        r@.map_values(|l: Launch| launch_view(l)) == terminal_launches(TargetOs::Linux, command@),
{
    let a1 = vec![text("--"), text("bash"), text("-c"), concat2(command, "; exec bash")];
    assert(a1@.map_values(|a: String| a@) =~= seq!["--"@, "bash"@, "-c"@, command@ + "; exec bash"@]);
    let a2 = vec![text("-e"), text("bash"), text("-c"), concat2(command, "; exec bash")];
    assert(a2@.map_values(|a: String| a@) =~= seq!["-e"@, "bash"@, "-c"@, command@ + "; exec bash"@]);
    let a3 = vec![text("-e"), concat3("bash -c '", command, "; exec bash'")];
    assert(a3@.map_values(|a: String| a@) =~= seq!["-e"@, "bash -c '"@ + command@ + "; exec bash'"@]);
    let a4 = vec![text("-e"), concat3("bash -c '", command, "; exec bash'")];
    assert(a4@.map_values(|a: String| a@) =~= seq!["-e"@, "bash -c '"@ + command@ + "; exec bash'"@]);
    let ls = vec![
        launch("gnome-terminal", a1),
        launch("konsole", a2),
        launch("xfce4-terminal", a3),
        launch("xterm", a4),
    ];
    assert(ls@.map_values(|l: Launch| launch_view(l)) =~= terminal_launches(TargetOs::Linux, command@));
    ls
}

/// The programs that may open a terminal running `command` on `os`, to be
/// tried in order, or the refusal where `command` is not one of the known
/// install commands.
pub fn open_terminal_with_command(os: TargetOs, command: &str) -> (r: Result<Vec<Launch>, String>)
    ensures
        !allowed_install_commands().contains(trimmed(command@)) ==> (r matches Err(m) && m@
            == command_refusal()),
        allowed_install_commands().contains(trimmed(command@)) ==> (r matches Ok(ls)
            && ls@.map_values(|l: Launch| launch_view(l)) == terminal_launches(os, command@)),
{
    if !is_allowed_install_command(command) {
        return Err(text("Command not allowed: only predefined install commands are permitted"));
    }
    match os {
        TargetOs::MacOs => Ok(macos_launches(command)),
        TargetOs::Windows => Ok(windows_launches(command)),
        TargetOs::Linux => Ok(linux_launches(command)),
        TargetOs::Other => {
            let ls: Vec<Launch> = Vec::new();
            assert(ls@.map_values(|l: Launch| launch_view(l)) =~= terminal_launches(os, command@));
            Ok(ls)
        },
    }
}

/// The error reported where no terminal could be opened: on Linux, that no
/// terminal emulator was found; elsewhere, the failure to start the program.
pub open spec fn terminal_failure_text(os: TargetOs, spawn_error: Seq<char>) -> Seq<char> {
    if os is Linux {
        "No supported terminal emulator found"@
    } else {
        "Failed to open terminal: "@ + spawn_error
    }
}

/// The error reported where no terminal could be opened; `spawn_error`
/// describes why the last program did not start.
pub fn terminal_failure_message(os: TargetOs, spawn_error: &str) -> (r: String)
    ensures
        r@ == terminal_failure_text(os, spawn_error@),
{
    match os {
        TargetOs::Linux => text("No supported terminal emulator found"),
        _ => concat2("Failed to open terminal: ", spawn_error),
    }
}

/// What to do next while opening a terminal.
pub enum LaunchDecision {
    /// Start the launch at this index.
    Spawn(usize),
    /// Stop, with this answer to the request.
    Done(Result<(), String>),
}

/// The first step of opening a terminal with `launches`: start the first
/// one, or, where there is none (an unknown system), answer that all is
/// done.
pub fn first_launch(launches: &Vec<Launch>) -> (r: LaunchDecision)
    ensures
        launches@.len() == 0 ==> r matches LaunchDecision::Done(Ok(())),
        launches@.len() > 0 ==> r matches LaunchDecision::Spawn(0),
{
    if launches.len() == 0 {
        LaunchDecision::Done(Ok(()))
    } else {
        LaunchDecision::Spawn(0)
    }
}

/// The step after starting the launch at `index`, told whether it failed
/// (and how): a launch that started ends the request with success, so that
/// at most one terminal opens; a failed one leads to the next launch in
/// order, and after the last one to the failure message of `os`.
pub fn next_launch(os: TargetOs, launches: &Vec<Launch>, index: usize, spawn_error: Option<String>) -> (r:
    LaunchDecision)
    requires
        index < launches@.len(),
    ensures
        spawn_error is None ==> r matches LaunchDecision::Done(Ok(())),
        spawn_error matches Some(e) ==> if index + 1 < launches@.len() {
            r matches LaunchDecision::Spawn(j) && j == index + 1
        } else {
            r matches LaunchDecision::Done(Err(m)) && m@ == terminal_failure_text(os, e@)
        },
{
    match spawn_error {
        None => LaunchDecision::Done(Ok(())),
        Some(e) => {
            if index < launches.len() - 1 {
                LaunchDecision::Spawn(index + 1)
            } else {
                LaunchDecision::Done(Err(terminal_failure_message(os, e.as_str())))
            }
        },
    }
}

} // verus!
