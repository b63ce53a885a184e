//! A copy session: the files found by a scan are copied one after the other,
//! with a progress event and log lines for each, until all are done or the
//! user cancels; the session counts what was copied, skipped and failed.

use vstd::prelude::*;
use crate::copier::{CopyError, CopyResult};
use crate::date::{Date, ymd_text};
use crate::scanner::ScanError;
use crate::text::{decimal, push_decimal};

verus! {

/// How far the copy of the files has got.
pub struct ProgressEvent {
    /// The number of the file being copied, from 1.
    pub current: usize,
    /// The number of files.
    pub total: usize,
    /// The name of the file being copied.
    pub current_file: String,
    /// What is being done.
    pub status: String,
}

/// A line of the copy log.
pub struct LogEvent {
    /// `info`, `warn`, `error` or `success`.
    pub level: String,
    pub message: String,
}

/// The end of a copy session.
pub struct CopyCompleteEvent {
    pub copied: usize,
    pub skipped: usize,
    pub errors: usize,
    pub cancelled: bool,
}

fn log(level: &str, message: String) -> (r: LogEvent)
    ensures
        r.level@ == level@,
        r.message@ == message@,
{
    LogEvent { level: String::from_str(level), message }
}

/// The log line that opens a session.
pub fn start_log(source_path: &str) -> (r: LogEvent)
    ensures
        r.level@ == "info"@,
        r.message@ == "Starting scan of "@ + source_path@,
{
    let mut m = String::from_str("Starting scan of ");
    m.append(source_path);
    log("info", m)
}

/// The log line of an entry that the scan could not read.
pub fn scan_warning_log(err: &ScanError) -> (r: LogEvent)
    ensures
        r.level@ == "warn"@,
        r.message@ == "[扫描警告] "@ + err.path@ + " - "@ + err.message@,
{
    let mut m = String::from_str("[扫描警告] ");
    m.append(err.path.as_str());
    m.append(" - ");
    m.append(err.message.as_str());
    log("warn", m)
}

/// The log line that gives the number of media found.
pub fn found_files_log(total: usize) -> (r: LogEvent)
    ensures
        r.level@ == "info"@,
        r.message@ == "Found "@ + decimal(total as nat) + " media files"@,
{
    let mut m = String::from_str("Found ");
    push_decimal(&mut m, total as u64);
    m.append(" media files");
    log("info", m)
}

/// The log line of a session that the user cancelled.
pub fn cancelled_log() -> (r: LogEvent)
    ensures
        r.level@ == "warn"@,
        r.message@ == "Operation cancelled by user"@,
{
    log("warn", String::from_str("Operation cancelled by user"))
}

/// The kind of a medium as the log names it.
pub open spec fn kind_text(is_video: bool) -> Seq<char> {
    if is_video {
        "视频"@
    } else {
        "图片"@
    }
}

/// The log line that tells whether a file is a photo or a video.
pub fn detection_log(file_name: &str, is_video: bool) -> (r: LogEvent)
    ensures
        r.level@ == "info"@,
        r.message@ == "[检测] "@ + file_name@ + " - 类型: "@ + kind_text(is_video),
{
    let mut m = String::from_str("[检测] ");
    m.append(file_name);
    m.append(" - 类型: ");
    m.append(if is_video {
        "视频"
    } else {
        "图片"
    });
    log("info", m)
}

/// The date part of the metadata log line.
pub open spec fn date_info_text(date: Option<(Date, &str)>) -> Seq<char> {
    match date {
        Some((d, _)) => ymd_text(d@.0 as int, d@.1 as nat, d@.2 as nat),
        None => "未找到 (将使用 1970-01-01)"@,
    }
}

/// The source part of the metadata log line.
pub open spec fn source_info_text(date: Option<(Date, &str)>, is_video: bool) -> Seq<char> {
    match date {
        Some((_, source)) => source@,
        None => if is_video {
            "ffprobe 未返回有效日期"@
        } else {
            "EXIF 未找到日期信息"@
        },
    }
}

/// The log line that gives the creation date found for a file and where it
/// was found: a warning where none was found (the file then goes to
/// 1970-01-01).
pub fn metadata_log(file_name: &str, is_video: bool, date: &Option<(Date, &str)>) -> (r: LogEvent)
    ensures
        r.level@ == (if date is Some {
            "info"@
        } else {
            "warn"@
        }),
        r.message@ == "[元数据] "@ + file_name@ + " - 创建日期: "@ + date_info_text(*date)
            + " (来源: "@ + source_info_text(*date, is_video) + ")"@,
{
    let mut m = String::from_str("[元数据] ");
    m.append(file_name);
    m.append(" - 创建日期: ");
    match date {
        Some((d, _)) => m.append(d.format_ymd().as_str()),
        None => m.append("未找到 (将使用 1970-01-01)"),
    }
    m.append(" (来源: ");
    match date {
        Some((_, source)) => m.append(source),
        None => m.append(
            if is_video {
                "ffprobe 未返回有效日期"
            } else {
                "EXIF 未找到日期信息"
            },
        ),
    }
    m.append(")");
    let level = if date.is_some() {
        "info"
    } else {
        "warn"
    };
    log(level, m)
}

/// The size, in whole MiB, above which a file is announced as large.
pub open spec fn large_file_mib() -> nat {
    100
}

/// The log line announcing that a large file's checksum is being computed:
/// present where the file has more than 100 whole MiB.
pub fn large_file_log(file_name: &str, size_bytes: u64) -> (r: Option<LogEvent>)
    ensures
        size_bytes as nat / 1048576 > large_file_mib() <==> r is Some,
        r matches Some(e) ==> e.level@ == "info"@ && e.message@ == "[提示] "@ + file_name@ + " 文件较大 ("@
            + decimal(size_bytes as nat / 1048576) + "MB)，正在计算校验和..."@,
{
    let size_mb = size_bytes / (1024 * 1024);
    if size_mb > 100 {
        let mut m = String::from_str("[提示] ");
        m.append(file_name);
        m.append(" 文件较大 (");
        push_decimal(&mut m, size_mb);
        m.append("MB)，正在计算校验和...");
        Some(log("info", m))
    } else {
        None
    }
}

/// The log line of what became of a file.
pub fn outcome_log(file_name: &str, result: &Result<CopyResult, CopyError>) -> (r: LogEvent)
    ensures
        match result {
            Ok(CopyResult::Copied { dest }) => r.level@ == "success"@ && r.message@ == "Copied: "@
                + file_name@ + " -> "@ + dest@,
            Ok(CopyResult::Skipped { reason }) => r.level@ == "info"@ && r.message@ == "Skipped: "@
                + file_name@ + " ("@ + reason@ + ")"@,
            Err(e) => r.level@ == "error"@ && r.message@ == "Error: "@ + file_name@ + " - "@
                + e.message_spec(),
        },
{
    match result {
        Ok(CopyResult::Copied { dest }) => {
            let mut m = String::from_str("Copied: ");
            m.append(file_name);
            m.append(" -> ");
            m.append(dest.as_str());
            log("success", m)
        },
        Ok(CopyResult::Skipped { reason }) => {
            let mut m = String::from_str("Skipped: ");
            m.append(file_name);
            m.append(" (");
            m.append(reason.as_str());
            m.append(")");
            log("info", m)
        },
        Err(e) => {
            let mut m = String::from_str("Error: ");
            m.append(file_name);
            m.append(" - ");
            m.append(e.message().as_str());
            log("error", m)
        },
    }
}

/// Whether a copy session may begin: not while another one is running.
pub fn begin_copy(running: bool) -> (r: Result<(), String>)
    ensures
        running ==> (r matches Err(e) && e@ == "Copy operation already in progress"@),
        !running ==> r is Ok,
{
    if running {
        Err(String::from_str("Copy operation already in progress"))
    } else {
        Ok(())
    }
}

/// A file to be copied in a session: its name (the final component of its
/// path, where that is text) and whether it is a video.
pub struct SessionFile {
    pub name: Option<String>,
    pub is_video: bool,
}

/// The name under which a session's file is shown and copied: its name, or
/// `unknown`.
pub open spec fn session_file_name(f: SessionFile) -> Seq<char> {
    match f.name {
        Some(n) => n@,
        None => "unknown"@,
    }
}

/// Where a copy session stands.
#[derive(Clone, Copy, Debug, PartialEq, Eq)]
pub enum SessionPhase {
    /// It waits to be told whether a cancel was requested before it goes on.
    Ready,
    /// A file is being copied; its outcome is awaited.
    Copying,
    /// The session is over.
    Finished,
}

/// What a copy session is: its files, how many of them were dealt with, how
/// many of those were copied, skipped and failed, and where it stands.
pub struct SessionView {
    pub files: Seq<SessionFile>,
    pub processed: nat,
    pub copied: nat,
    pub skipped: nat,
    pub errors: nat,
    pub phase: SessionPhase,
}

/// What a copy session asks the caller to do next.
pub enum SessionAction {
    /// Deal with the file at `index`: report `progress`, then copy the file
    /// under `name` and hand the outcome back with `file_done`.
    CopyFile { index: usize, name: String, is_video: bool, progress: ProgressEvent },
    /// The session is over: write `log` where there is one, then report
    /// `complete`.
    Finish { log: Option<LogEvent>, complete: CopyCompleteEvent },
}

/// A copy session over a list of files, dealt with one after the other in
/// their order until all are done or a cancel is seen.
pub struct CopySession {
    files: Vec<SessionFile>,
    tally: Tally,
    phase: SessionPhase,
}

/// How many files were dealt with, and how many of them were copied,
/// skipped and failed.
#[derive(Clone, Copy)]
struct Tally {
    processed: usize,
    copied: usize,
    skipped: usize,
    errors: usize,
}

impl View for CopySession {
    type V = SessionView;

    closed spec fn view(&self) -> SessionView {
        SessionView {
            files: self.files@,
            processed: self.tally.processed as nat,
            copied: self.tally.copied as nat,
            skipped: self.tally.skipped as nat,
            errors: self.tally.errors as nat,
            phase: self.phase,
        }
    }
}

/// Whether `e` reports exactly the counts of `v` and the given cancel.
pub open spec fn complete_is(e: CopyCompleteEvent, v: SessionView, cancelled: bool) -> bool {
    &&& e.copied == v.copied
    &&& e.skipped == v.skipped
    &&& e.errors == v.errors
    &&& e.cancelled == cancelled
}

/// The same session at another phase.
pub open spec fn in_phase(v: SessionView, p: SessionPhase) -> SessionView {
    SessionView { phase: p, ..v }
}

/// Where `next` leaves a ready session `v` told `cancel`: copying the next
/// file while files remain and no cancel was requested, finished otherwise.
pub open spec fn after_next(v: SessionView, cancel: bool) -> SessionView {
    if v.processed < v.files.len() && !cancel {
        in_phase(v, SessionPhase::Copying)
    } else {
        in_phase(v, SessionPhase::Finished)
    }
}

/// Where `file_done` leaves a session `v` whose copy of a file gave
/// `result`: that file counted as dealt with and as copied, skipped or
/// failed, and the session ready again.
pub open spec fn after_done(v: SessionView, result: Result<CopyResult, CopyError>) -> SessionView {
    SessionView {
        files: v.files,
        processed: v.processed + 1,
        copied: v.copied + if result matches Ok(CopyResult::Copied { .. }) {
            1nat
        } else {
            0nat
        },
        skipped: v.skipped + if result matches Ok(CopyResult::Skipped { .. }) {
            1nat
        } else {
            0nat
        },
        errors: v.errors + if result is Err {
            1nat
        } else {
            0nat
        },
        phase: SessionPhase::Ready,
    }
}

/// Each outcome of a copy is counted under its own kind and no other: a
/// copy counts as copied, a skip (for whatever reason) as skipped, a failure
/// as an error; the file counts as dealt with, and the session is ready for
/// the next one.
pub proof fn lemma_outcome_counted_by_kind(v: SessionView, result: Result<CopyResult, CopyError>)
    ensures
        ({
            let w = after_done(v, result);
            &&& w.files == v.files
            &&& w.processed == v.processed + 1
            &&& w.phase == SessionPhase::Ready
            &&& w.copied + w.skipped + w.errors == v.copied + v.skipped + v.errors + 1
            &&& result is Ok && result->Ok_0 is Copied ==> w.copied == v.copied + 1
                && w.skipped == v.skipped && w.errors == v.errors
            &&& result is Ok && result->Ok_0 is Skipped ==> w.skipped == v.skipped + 1
                && w.copied == v.copied && w.errors == v.errors
            &&& result is Err ==> w.errors == v.errors + 1 && w.copied == v.copied && w.skipped
                == v.skipped
        }),
{
}

/// A ready session `v` driven round by round: in round `i` it is told
/// `rounds[i].0` by `next`, and where it then copies a file, that copy gives
/// `rounds[i].1`, handed back by `file_done`. Once it has finished it is
/// driven no further. The state reached, the number of files copied, and
/// the number of times `next` answered `Finish`.
pub open spec fn driven(v: SessionView, rounds: Seq<(bool, Result<CopyResult, CopyError>)>) -> (
    SessionView,
    nat,
    nat,
)
    decreases rounds.len(),
{
    if rounds.len() == 0 || v.phase != SessionPhase::Ready {
        (v, 0, 0)
    } else {
        let w = after_next(v, rounds[0].0);
        if w.phase == SessionPhase::Finished {
            (w, 0, 1)
        } else {
            let rest = driven(after_done(w, rounds[0].1), rounds.drop_first());
            (rest.0, rest.1 + 1, rest.2)
        }
    }
}

/// A session driven with one round per file left and one more finishes
/// exactly once, and that is the last thing it does; before that it copies
/// at most the files left, each of them dealt with and counted once; where
/// no cancel is requested it copies every file left.
pub proof fn lemma_session_finishes_once(
    v: SessionView,
    rounds: Seq<(bool, Result<CopyResult, CopyError>)>,
)
    requires
        v.phase == SessionPhase::Ready,
        v.processed <= v.files.len(),
        rounds.len() >= v.files.len() - v.processed + 1,
    ensures
        ({
            let (w, copies, finishes) = driven(v, rounds);
            &&& finishes == 1
            &&& w.phase == SessionPhase::Finished
            &&& copies <= v.files.len() - v.processed
            &&& w.processed == v.processed + copies
            &&& w.copied + w.skipped + w.errors == v.copied + v.skipped + v.errors + copies
            &&& (forall|i: int| 0 <= i < rounds.len() ==> !(#[trigger] rounds[i]).0) ==> copies
                == v.files.len() - v.processed
        }),
    decreases rounds.len(),
{
    let w = after_next(v, rounds[0].0);
    if w.phase != SessionPhase::Finished {
        let u = after_done(w, rounds[0].1);
        let rest = rounds.drop_first();
        lemma_session_finishes_once(u, rest);
        if forall|i: int| 0 <= i < rounds.len() ==> !(#[trigger] rounds[i]).0 {
            assert forall|i: int| 0 <= i < rest.len() implies !(#[trigger] rest[i]).0 by {
                assert(rest[i] == rounds[i + 1]);
            }
        }
    } else if forall|i: int| 0 <= i < rounds.len() ==> !(#[trigger] rounds[i]).0 {
        assert(!rounds[0].0);
    }
}

impl CopySession {
    /// Every file dealt with was copied, skipped or failed, exactly one of
    /// them; no more files are dealt with than there are; a file is being
    /// copied only while files remain.
    #[verifier::type_invariant]
    spec fn counts_agree(self) -> bool {
        &&& self.tally.copied + self.tally.skipped + self.tally.errors == self.tally.processed
        &&& self.tally.processed <= self.files.len()
        &&& self.phase == SessionPhase::Copying ==> self.tally.processed < self.files.len()
    }

    /// A session over `files`, none of them dealt with yet.
    pub fn new(files: Vec<SessionFile>) -> (r: CopySession)
        ensures
            r@ == (SessionView {
                files: files@,
                processed: 0,
                copied: 0,
                skipped: 0,
                errors: 0,
                phase: SessionPhase::Ready,
            }),
    {
        CopySession {
            files,
            tally: Tally { processed: 0, copied: 0, skipped: 0, errors: 0 },
            phase: SessionPhase::Ready,
        }
    }

    /// Whether the session waits for `next`.
    pub fn is_ready(&self) -> (r: bool)
        ensures
            r == (self@.phase == SessionPhase::Ready),
    {
        match self.phase {
            SessionPhase::Ready => true,
            _ => false,
        }
    }

    /// Whether the session waits for the outcome of a copy.
    pub fn is_copying(&self) -> (r: bool)
        ensures
            r == (self@.phase == SessionPhase::Copying),
    {
        match self.phase {
            SessionPhase::Copying => true,
            _ => false,
        }
    }

    /// The next step of the session, told whether a cancel was requested: a
    /// cancel stops the session before the next file, with the cancellation
    /// logged; otherwise the next file in order is to be copied, after its
    /// progress event; once all files are done the session ends, reporting
    /// the cancel as it stands then.
    pub fn next(&mut self, cancel_requested: bool) -> (r: SessionAction)
        requires
            old(self)@.phase == SessionPhase::Ready,
        ensures
            ({
                let v = old(self)@;
                let total = v.files.len();
                if v.processed < total && cancel_requested {
                    &&& r matches SessionAction::Finish { log: Some(l), complete } && l.level@ == "warn"@
                        && l.message@ == "Operation cancelled by user"@ && complete_is(complete, v, true)
                    &&& final(self)@ == in_phase(v, SessionPhase::Finished)
                } else if v.processed < total {
                    &&& r matches SessionAction::CopyFile { index, name, is_video, progress }
                        && index == v.processed && name@ == session_file_name(v.files[index as int])
                        && is_video == v.files[index as int].is_video
                        && progress.current == v.processed + 1 && progress.total == total
                        && progress.current_file@ == name@ && progress.status@ == "processing"@
                    &&& final(self)@ == in_phase(v, SessionPhase::Copying)
                } else {
                    &&& r matches SessionAction::Finish { log: None, complete }
                        && complete_is(complete, v, cancel_requested)
                    &&& final(self)@ == in_phase(v, SessionPhase::Finished)
                }
            }),
            final(self)@ == after_next(old(self)@, cancel_requested),
            r is Finish <==> after_next(old(self)@, cancel_requested).phase == SessionPhase::Finished,
            r matches SessionAction::Finish { complete, .. } ==> complete.copied + complete.skipped
                + complete.errors == old(self)@.processed,
            r matches SessionAction::Finish { complete, .. } ==> (!complete.cancelled
                ==> old(self)@.processed == old(self)@.files.len()),
    {
        proof {
            use_type_invariant(&*self);
        }
        let total = self.files.len();
        if self.tally.processed < total && cancel_requested {
            let complete = CopyCompleteEvent {
                copied: self.tally.copied,
                skipped: self.tally.skipped,
                errors: self.tally.errors,
                cancelled: true,
            };
            self.phase = SessionPhase::Finished;
            SessionAction::Finish { log: Some(cancelled_log()), complete }
        } else if self.tally.processed < total {
            let index = self.tally.processed;
            let f = &self.files[index];
            let name = match &f.name {
                Some(n) => String::from_str(n.as_str()),
                None => String::from_str("unknown"),
            };
            let is_video = f.is_video;
            let progress = ProgressEvent {
                current: index + 1,
                total,
                current_file: String::from_str(name.as_str()),
                status: String::from_str("processing"),
            };
            self.phase = SessionPhase::Copying;
            SessionAction::CopyFile { index, name, is_video, progress }
        } else {
            let complete = CopyCompleteEvent {
                copied: self.tally.copied,
                skipped: self.tally.skipped,
                errors: self.tally.errors,
                cancelled: cancel_requested,
            };
            self.phase = SessionPhase::Finished;
            SessionAction::Finish { log: None, complete }
        }
    }

    /// Counts what became of the file being copied; the session then waits
    /// for `next` again.
    pub fn file_done(&mut self, result: &Result<CopyResult, CopyError>)
        requires
            old(self)@.phase == SessionPhase::Copying,
        ensures
            final(self)@ == after_done(old(self)@, *result),
    {
        proof {
            use_type_invariant(&*self);
        }
        let (copied, skipped, errors) = match result {
            Ok(CopyResult::Copied { .. }) => (self.tally.copied + 1, self.tally.skipped, self.tally.errors),
            Ok(CopyResult::Skipped { .. }) => (self.tally.copied, self.tally.skipped + 1, self.tally.errors),
            Err(_) => (self.tally.copied, self.tally.skipped, self.tally.errors + 1),
        };
        self.phase = SessionPhase::Ready;
        self.tally = Tally { processed: self.tally.processed + 1, copied, skipped, errors };
    }
}

} // verus!
