//! Copying one file into the dated folder of a destination: the folder is
//! named after the file's creation date, a file of the same name and the same
//! MD5 digest is a duplicate and is skipped, and a different file of the same
//! name makes the copy take the first free name `stem_N.ext`.
//!
//! The copy talks to the file system at every turn, so it is a state
//! machine: each step takes what the file system answered (a `CopyEvent`) and
//! says what to ask it next (a `CopyAction`), until the outcome is known.

use vstd::prelude::*;
use crate::date::{Date, ymd_text};
use crate::filename::{unique_name_candidate, unique_name_candidate_spec};
use crate::system::TargetOs;
use crate::text::{chars_of, push_char, push_chars};

verus! {

/// Why a file could not be copied.
#[derive(Debug, PartialEq, Eq)]
pub enum CopyError {
    /// Reading or writing a file failed; the text describes the failure.
    Io(String),
    /// The dated folder (this path) could not be created.
    CreateDir(String),
    /// Every name tried for this file name is taken.
    TooManyDuplicates(String),
}

impl CopyError {
    /// The text describing the error.
    pub open spec fn message_spec(&self) -> Seq<char> {
        match self {
            CopyError::Io(m) => "IO error: "@ + m@,
            CopyError::CreateDir(p) => "Failed to create directory: "@ + p@,
            CopyError::TooManyDuplicates(n) => "Too many duplicate filenames: "@ + n@,
        }
    }

    /// The text describing the error.
    pub fn message(&self) -> (r: String)
        ensures
            r@ == self.message_spec(),
    {
        match self {
            CopyError::Io(m) => {
                let mut r = String::from_str("IO error: ");
                r.append(m.as_str());
                r
            },
            CopyError::CreateDir(p) => {
                let mut r = String::from_str("Failed to create directory: ");
                r.append(p.as_str());
                r
            },
            CopyError::TooManyDuplicates(n) => {
                let mut r = String::from_str("Too many duplicate filenames: ");
                r.append(n.as_str());
                r
            },
        }
    }
}

/// What became of a file.
#[derive(Debug, PartialEq, Eq)]
pub enum CopyResult {
    /// It was copied to this path.
    Copied { dest: String },
    /// It was not copied, for this reason.
    Skipped { reason: String },
}

/// Whether `c` separates the components of a path on `os`.
pub open spec fn is_separator(os: TargetOs, c: char) -> bool {
    c == '/' || (os is Windows && c == '\\')
}

/// The separator that joins paths on `os`.
pub open spec fn separator(os: TargetOs) -> char {
    if os is Windows {
        '\\'
    } else {
        '/'
    }
}

/// Whether `base` is a bare Windows drive such as `C:`.
pub open spec fn is_drive(os: TargetOs, base: Seq<char>) -> bool {
    &&& os is Windows
    &&& base.len() == 2
    &&& base[1] == ':'
    &&& (('a' <= base[0] && base[0] <= 'z') || ('A' <= base[0] && base[0] <= 'Z'))
}

/// `base` joined with the relative path component `rel` (a folder or file
/// name, as `PathBuf::join` joins one): a separator of `os` goes between the
/// two unless `base` is empty, already ends in a separator, or is a bare
/// Windows drive.
pub open spec fn joined(os: TargetOs, base: Seq<char>, rel: Seq<char>) -> Seq<char> {
    if base.len() == 0 || is_separator(os, base.last()) || is_drive(os, base) {
        base + rel
    } else {
        base + seq![separator(os)] + rel
    }
}

/// `base` joined with the path component `rel`.
pub fn join_path(os: TargetOs, base: &str, rel: &str) -> (r: String)
    ensures
        r@ == joined(os, base@, rel@),
{
    let base_chars = chars_of(base);
    let windows = match os {
        TargetOs::Windows => true,
        _ => false,
    };
    let mut r = String::from_str(base);
    let n = base_chars.len();
    let mut need_sep = n > 0;
    if n > 0 {
        let last = base_chars[n - 1];
        if last == '/' || (windows && last == '\\') {
            need_sep = false;
        }
    }
    if windows && n == 2 && base_chars[1] == ':' && (('a' <= base_chars[0] && base_chars[0] <= 'z')
        || ('A' <= base_chars[0] && base_chars[0] <= 'Z')) {
        need_sep = false;
    }
    if need_sep {
        push_char(&mut r, if windows { '\\' } else { '/' });
    }
    r.append(rel);
    r
}

/// How a path component is joined: on every system but Windows a `/` goes
/// between a non-empty base and the component unless the base already ends
/// in `/`, and nothing else is special; on Windows a backslash goes between
/// them unless the base ends in `/` or a backslash or is a bare drive such as
/// `C:`.
pub proof fn lemma_joined_separator(os: TargetOs, base: Seq<char>, rel: Seq<char>)
    ensures
        !(os is Windows) && base.len() > 0 && base.last() != '/' ==> joined(os, base, rel)
            == base + seq!['/'] + rel,
        !(os is Windows) && (base.len() == 0 || base.last() == '/') ==> joined(os, base, rel)
            == base + rel,
        os is Windows && base.len() > 0 && base.last() != '/' && base.last() != '\\' && !(
        base.len() == 2 && base[1] == ':' && (('a' <= base[0] && base[0] <= 'z') || ('A'
            <= base[0] && base[0] <= 'Z'))) ==> joined(os, base, rel) == base + seq!['\\'] + rel,
        os is Windows && base.len() > 0 && (base.last() == '/' || base.last() == '\\') ==> joined(
            os,
            base,
            rel,
        ) == base + rel,
        os is Windows && base.len() == 2 && base[1] == ':' && (('a' <= base[0] && base[0] <= 'z')
            || ('A' <= base[0] && base[0] <= 'Z')) ==> joined(os, base, rel) == base + rel,
{
}

/// The name of a dated folder is never empty and ends in a digit.
proof fn lemma_date_dir_text_ends_in_digit(date: Option<Date>)
    ensures
        date_dir_text(date).len() > 0,
        '0' <= date_dir_text(date).last() <= '9',
{
    let d = match date {
        Some(x) => x@.2 as nat,
        None => 1nat,
    };
    crate::text::lemma_decimal_value(d);
    let dd = crate::text::decimal(d);
    let t = date_dir_text(date);
    let z = crate::date::zero_padded(dd, 2);
    assert(z.last() == dd.last());
    assert(crate::text::is_digit(dd[dd.len() - 1]));
    assert(t.last() == z.last());
}

/// Where a copy goes on every system but Windows: into
/// `dest_base/YYYY-MM-DD/name`, with a `/` between the destination folder
/// (when it does not already end in one) and the dated folder and another
/// between the dated folder and the name; the dated folder it makes is
/// `dest_base/YYYY-MM-DD`.
pub proof fn lemma_copy_destination_outside_windows(
    os: TargetOs,
    dest_base: Seq<char>,
    date: Option<Date>,
    name: Seq<char>,
)
    requires
        !(os is Windows),
        dest_base.len() > 0,
        dest_base.last() != '/',
    ensures
        joined(os, dest_base, date_dir_text(date)) == dest_base + seq!['/'] + date_dir_text(date),
        joined(os, joined(os, dest_base, date_dir_text(date)), name) == dest_base + seq!['/']
            + date_dir_text(date) + seq!['/'] + name,
{
    lemma_date_dir_text_ends_in_digit(date);
    let dir = dest_base + seq!['/'] + date_dir_text(date);
    assert(dir.last() == date_dir_text(date).last());
}

/// The name of the folder for files of `date`, `YYYY-MM-DD`, with
/// 1970-01-01 for files of unknown date.
pub open spec fn date_dir_text(date: Option<Date>) -> Seq<char> {
    match date {
        Some(d) => ymd_text(d@.0 as int, d@.1 as nat, d@.2 as nat),
        None => ymd_text(1970, 1, 1),
    }
}

/// The name of the folder for files of `date`.
pub fn date_dir_name(date: &Option<Date>) -> (r: String)
    ensures
        r@ == date_dir_text(*date),
{
    match date {
        Some(d) => d.format_ymd(),
        None => {
            assert(crate::date::days_in_month(1970, 1) == 31);
            match Date::from_ymd_opt(1970, 1, 1) {
                Some(d) => d.format_ymd(),
                None => String::new(),
            }
        },
    }
}

/// One step of the search for a free name.
pub enum UniqueNameStep {
    /// Ask whether this name, the candidate at `counter`, is taken.
    Probe { counter: u32, name: String },
    /// This name is free.
    Found(String),
}

/// One step of the search for a free name for the file `original_name`:
/// `taken` tells whether the candidate at `counter` is taken. A free
/// candidate is the answer; a taken one leads to the next counter, up to the
/// last one, after which the search gives up.
pub fn get_unique_filename(original_name: &str, counter: u32, taken: bool) -> (r: Result<
    UniqueNameStep,
    CopyError,
>)
    requires
        counter <= 10000,
    ensures
        !taken ==> (r matches Ok(UniqueNameStep::Found(n)) && n@ == unique_name_candidate_spec(
            original_name@,
            counter as nat,
        )),
        taken && counter < 10000 ==> (r matches Ok(UniqueNameStep::Probe { counter: c, name })
            && c == counter + 1 && name@ == unique_name_candidate_spec(original_name@, c as nat)),
        taken && counter == 10000 ==> (r matches Err(CopyError::TooManyDuplicates(n)) && n@
            == original_name@),
{
    if !taken {
        Ok(UniqueNameStep::Found(unique_name_candidate(original_name, counter)))
    } else if counter < 10000 {
        let next = counter + 1;
        Ok(UniqueNameStep::Probe { counter: next, name: unique_name_candidate(original_name, next) })
    } else {
        Err(CopyError::TooManyDuplicates(String::from_str(original_name)))
    }
}

/// What a copy asks of the file system.
pub enum CopyAction {
    /// Make sure that the folder `dir` (relative to the destination) exists,
    /// creating it and its parents where it does not.
    EnsureDir { dir: String },
    /// Tell whether a file of this name exists in the dated folder.
    CheckExists { name: String },
    /// Tell the MD5 digests (as `md5_hex` writes them) of the source file and
    /// of the file of this name in the dated folder.
    CompareDigests { name: String },
    /// Copy the source file to this name in the dated folder.
    CopyTo { name: String },
}

/// What the file system answered.
pub enum CopyEvent {
    /// The folder exists.
    DirReady,
    /// The folder could not be created.
    DirFailed,
    /// Whether the file asked about exists.
    Exists(bool),
    /// The digests of the source and of the existing file.
    Digests { source: String, existing: String },
    /// Reading or copying failed, as this text describes.
    Failed(String),
    /// The file was copied.
    Copied,
}

/// How far the choice of a destination name has got.
pub enum DedupStage {
    /// Whether the file's own name is taken is asked.
    CheckInitial,
    /// The digests of the source and of the file of the same name are asked.
    CompareDigests,
    /// Whether the candidate at this counter is taken is asked.
    Probe(u32),
}

/// One step of the choice of a destination name.
pub enum DedupStep {
    /// The choice goes on at this stage with this question.
    Continue(DedupStage, CopyAction),
    /// The choice is made: copy to this name, skip a duplicate (`None`), or
    /// fail.
    Decided(Result<Option<String>, CopyError>),
}

/// Whether `a` is the question that the stage `s` of the choice of a name
/// for `file_name` asks.
pub open spec fn dedup_action_is(file_name: Seq<char>, s: DedupStage, a: CopyAction) -> bool {
    match s {
        DedupStage::CheckInitial => a matches CopyAction::CheckExists { name } && name@ == file_name,
        DedupStage::CompareDigests => a matches CopyAction::CompareDigests { name } && name@
            == file_name,
        DedupStage::Probe(k) => a matches CopyAction::CheckExists { name } && name@
            == unique_name_candidate_spec(file_name, k as nat),
    }
}

/// What the choice of a destination name does next.
pub enum DedupDecision {
    /// It goes on at this stage.
    Continue(DedupStage),
    /// The file is copied under this name.
    CopyAs(Seq<char>),
    /// The file is a duplicate and is skipped.
    SkipDuplicate,
    /// Reading failed, as this text describes.
    IoError(Seq<char>),
    /// Every name tried is taken.
    TooManyDuplicates,
}

/// The choice of a destination name for `file_name`: a free name is taken as
/// it is; a taken one is compared by digest with the source; equal digests
/// make the file a duplicate, different ones start the search for a free
/// name. An answer that does not fit the question leaves the stage as it is.
pub open spec fn dedup_transition(
    file_name: Seq<char>,
    stage: DedupStage,
    event: CopyEvent,
) -> DedupDecision {
    match stage {
        DedupStage::CheckInitial => match event {
            CopyEvent::Exists(taken) => if taken {
                DedupDecision::Continue(DedupStage::CompareDigests)
            } else {
                DedupDecision::CopyAs(file_name)
            },
            _ => DedupDecision::Continue(stage),
        },
        DedupStage::CompareDigests => match event {
            CopyEvent::Digests { source, existing } => if source@ == existing@ {
                DedupDecision::SkipDuplicate
            } else {
                DedupDecision::Continue(DedupStage::Probe(0))
            },
            CopyEvent::Failed(m) => DedupDecision::IoError(m@),
            _ => DedupDecision::Continue(stage),
        },
        DedupStage::Probe(k) => match event {
            CopyEvent::Exists(taken) => if !taken {
                DedupDecision::CopyAs(unique_name_candidate_spec(file_name, k as nat))
            } else if k < 10000 {
                DedupDecision::Continue(DedupStage::Probe((k + 1) as u32))
            } else {
                DedupDecision::TooManyDuplicates
            },
            _ => DedupDecision::Continue(stage),
        },
    }
}

/// Whether the step `r` carries out the decision `d` for `file_name`.
pub open spec fn dedup_step_is(file_name: Seq<char>, r: DedupStep, d: DedupDecision) -> bool {
    match d {
        DedupDecision::Continue(s) => r matches DedupStep::Continue(s2, a) && s2 == s
            && dedup_action_is(file_name, s, a),
        DedupDecision::CopyAs(n) => r matches DedupStep::Decided(Ok(Some(x))) && x@ == n,
        DedupDecision::SkipDuplicate => r matches DedupStep::Decided(Ok(None)),
        DedupDecision::IoError(m) => r matches DedupStep::Decided(Err(CopyError::Io(x))) && x@
            == m,
        DedupDecision::TooManyDuplicates => r matches DedupStep::Decided(
            Err(CopyError::TooManyDuplicates(x)),
        ) && x@ == file_name,
    }
}

/// Whether a stage of the choice of a name is one that the search reaches.
pub open spec fn dedup_stage_ok(s: DedupStage) -> bool {
    s matches DedupStage::Probe(k) ==> k <= 10000
}

/// One step of the choice of a destination name for `file_name` in the dated
/// folder, from the stage `stage` and the answer `event` to its question.
pub fn dest_dir_with_dedup(file_name: &str, stage: DedupStage, event: CopyEvent) -> (r: DedupStep)
    requires
        dedup_stage_ok(stage),
    ensures
        dedup_step_is(file_name@, r, dedup_transition(file_name@, stage, event)),
        r matches DedupStep::Continue(s, _) ==> dedup_stage_ok(s),
{
    match stage {
        DedupStage::CheckInitial => match event {
            CopyEvent::Exists(taken) => {
                if taken {
                    DedupStep::Continue(
                        DedupStage::CompareDigests,
                        CopyAction::CompareDigests { name: String::from_str(file_name) },
                    )
                } else {
                    DedupStep::Decided(Ok(Some(String::from_str(file_name))))
                }
            },
            _ => DedupStep::Continue(
                DedupStage::CheckInitial,
                CopyAction::CheckExists { name: String::from_str(file_name) },
            ),
        },
        DedupStage::CompareDigests => match event {
            CopyEvent::Digests { source, existing } => {
                if source == existing {
                    DedupStep::Decided(Ok(None))
                } else {
                    DedupStep::Continue(
                        DedupStage::Probe(0),
                        CopyAction::CheckExists { name: unique_name_candidate(file_name, 0) },
                    )
                }
            },
            CopyEvent::Failed(m) => DedupStep::Decided(Err(CopyError::Io(m))),
            _ => DedupStep::Continue(
                DedupStage::CompareDigests,
                CopyAction::CompareDigests { name: String::from_str(file_name) },
            ),
        },
        DedupStage::Probe(k) => match event {
            CopyEvent::Exists(taken) => match get_unique_filename(file_name, k, taken) {
                Ok(UniqueNameStep::Found(n)) => DedupStep::Decided(Ok(Some(n))),
                Ok(UniqueNameStep::Probe { counter, name }) => DedupStep::Continue(
                    DedupStage::Probe(counter),
                    CopyAction::CheckExists { name },
                ),
                Err(e) => DedupStep::Decided(Err(e)),
            },
            _ => DedupStep::Continue(
                DedupStage::Probe(k),
                CopyAction::CheckExists { name: unique_name_candidate(file_name, k) },
            ),
        },
    }
}

/// A name is copied to only once the question whether it is taken was
/// answered with no; a file is skipped only where its digest equals that of
/// the file of the same name.
pub proof fn lemma_dedup_never_overwrites(file_name: Seq<char>, stage: DedupStage, event: CopyEvent)
    ensures
        dedup_transition(file_name, stage, event) matches DedupDecision::CopyAs(n) ==> ((event
            matches CopyEvent::Exists(taken) && !taken) && ((stage is CheckInitial && n == file_name)
            || (stage matches DedupStage::Probe(k) && n == unique_name_candidate_spec(
            file_name,
            k as nat,
        )))),
        dedup_transition(file_name, stage, event) is SkipDuplicate ==> (stage is CompareDigests
            && (event matches CopyEvent::Digests { source, existing } && source@ == existing@)),
{
}

/// Importing a file again: where the dated folder holds a file of its name
/// whose digest equals the source's (as after an earlier copy to that name),
/// the choice of a name asks for the digests and then skips the file, so the
/// same content is not copied twice. (Where the earlier copy went to a
/// renamed `stem_N` because a different file held the name, a new import
/// compares with that different file and copies once more.)
pub proof fn lemma_rerun_skips(file_name: Seq<char>, source: String, existing: String)
    requires
        source@ == existing@,
    ensures
        dedup_transition(file_name, DedupStage::CheckInitial, CopyEvent::Exists(true))
            == DedupDecision::Continue(DedupStage::CompareDigests),
        dedup_transition(
            file_name,
            DedupStage::CompareDigests,
            CopyEvent::Digests { source, existing },
        ) == DedupDecision::SkipDuplicate,
{
}

/// The outcome of the free-name search from the counter `k` on, where each
/// question whether a candidate is taken is answered by `taken`: the steps
/// of `dedup_transition` are followed until a name is chosen (`Some`) or the
/// search gives up (`None`).
pub open spec fn probe_run(file_name: Seq<char>, taken: spec_fn(Seq<char>) -> bool, k: nat) -> Option<
    Seq<char>,
>
    decreases 10001 - k,
{
    if k > 10000 {
        None
    } else {
        match dedup_transition(
            file_name,
            DedupStage::Probe(k as u32),
            CopyEvent::Exists(taken(unique_name_candidate_spec(file_name, k))),
        ) {
            DedupDecision::CopyAs(n) => Some(n),
            DedupDecision::Continue(DedupStage::Probe(j)) => if k < j {
                probe_run(file_name, taken, j as nat)
            } else {
                None
            },
            _ => None,
        }
    }
}

/// A whole run of the free-name search steps, from counter `k`, ends as
/// `first_free_from` says: with the first free candidate, or giving up when
/// all are taken.
pub proof fn lemma_probe_run_finds_first_free(
    file_name: Seq<char>,
    taken: spec_fn(Seq<char>) -> bool,
    k: nat,
)
    requires
        k <= 10000,
    ensures
        probe_run(file_name, taken, k) == crate::filename::first_free_from(file_name, taken, k),
    decreases 10000 - k,
{
    if k < 10000 && taken(unique_name_candidate_spec(file_name, k)) {
        lemma_probe_run_finds_first_free(file_name, taken, k + 1);
        assert(((k + 1) as u32) as nat == k + 1);
    }
}

/// How far the copy of a file has got.
pub enum CopyStage {
    /// The dated folder is being made ready.
    EnsureDir,
    /// The destination name is being chosen.
    Dedup(DedupStage),
    /// The file is being copied under this name.
    Copying(String),
}

/// The state of the copy of one file.
pub struct CopyFileTask {
    os: TargetOs,
    dest_base: String,
    dir_name: String,
    file_name: String,
    stage: CopyStage,
}

/// What a copy task is: the destination folder, the dated folder's name, the
/// file's name and the stage reached.
pub struct CopyTaskView {
    pub os: TargetOs,
    pub dest_base: Seq<char>,
    pub dir_name: Seq<char>,
    pub file_name: Seq<char>,
    pub stage: CopyStage,
}

impl View for CopyFileTask {
    type V = CopyTaskView;

    closed spec fn view(&self) -> CopyTaskView {
        CopyTaskView {
            os: self.os,
            dest_base: self.dest_base@,
            dir_name: self.dir_name@,
            file_name: self.file_name@,
            stage: self.stage,
        }
    }
}

/// Whether `a` is the question that the task `t` asks.
pub open spec fn task_action_is(t: CopyTaskView, a: CopyAction) -> bool {
    match t.stage {
        CopyStage::EnsureDir => a matches CopyAction::EnsureDir { dir } && dir@ == t.dir_name,
        CopyStage::Dedup(s) => dedup_action_is(t.file_name, s, a),
        CopyStage::Copying(n) => a matches CopyAction::CopyTo { name } && name@ == n@,
    }
}

/// The same task at another stage.
pub open spec fn at_stage(t: CopyTaskView, s: CopyStage) -> CopyTaskView {
    CopyTaskView {
        os: t.os,
        dest_base: t.dest_base,
        dir_name: t.dir_name,
        file_name: t.file_name,
        stage: s,
    }
}

/// The name a file is copied under: the final component of its path where
/// that is text, or `unknown`.
pub open spec fn copied_file_name(name: Option<&str>) -> Seq<char> {
    match name {
        Some(f) => f@,
        None => "unknown"@,
    }
}

/// A step of a copy.
pub enum CopyStep {
    /// The copy goes on in this state, with this question.
    Next(CopyFileTask, CopyAction),
    /// The copy is over, with this outcome.
    Done(Result<CopyResult, CopyError>),
}

/// The reason given for a duplicate.
pub open spec fn duplicate_reason() -> Seq<char> {
    "Duplicate file (same MD5)"@
}

impl CopyFileTask {
    #[verifier::type_invariant]
    spec fn well_formed(self) -> bool {
        self.stage matches CopyStage::Dedup(s) ==> dedup_stage_ok(s)
    }

    /// One step of the copy, from what the file system answered to the last
    /// question: the folder is made ready, then the name is chosen as
    /// `dest_dir_with_dedup` decides, then the file is copied. An answer that
    /// does not fit the question leaves the task as it is.
    pub fn step(self, event: CopyEvent) -> (r: CopyStep)
        ensures
            r matches CopyStep::Next(t, a) ==> task_action_is(t@, a),
            match self@.stage {
                CopyStage::EnsureDir => match event {
                    CopyEvent::DirReady => r matches CopyStep::Next(t, _) && t@ == at_stage(
                        self@,
                        CopyStage::Dedup(DedupStage::CheckInitial),
                    ),
                    CopyEvent::DirFailed => r matches CopyStep::Done(Err(CopyError::CreateDir(p)))
                        && p@ == joined(self@.os, self@.dest_base, self@.dir_name),
                    _ => r matches CopyStep::Next(t, _) && t@ == self@,
                },
                CopyStage::Dedup(s) => match dedup_transition(self@.file_name, s, event) {
                    DedupDecision::Continue(s2) => r matches CopyStep::Next(t, _) && t@
                        == at_stage(self@, CopyStage::Dedup(s2)),
                    DedupDecision::CopyAs(n) => r matches CopyStep::Next(t, _) && t@.stage matches CopyStage::Copying(x) && x@ == n && t@ == at_stage(
                        self@,
                        t@.stage,
                    ),
                    DedupDecision::SkipDuplicate => r matches CopyStep::Done(
                        Ok(CopyResult::Skipped { reason }),
                    ) && reason@ == duplicate_reason(),
                    DedupDecision::IoError(m) => r matches CopyStep::Done(Err(CopyError::Io(x)))
                        && x@ == m,
                    DedupDecision::TooManyDuplicates => r matches CopyStep::Done(
                        Err(CopyError::TooManyDuplicates(x)),
                    ) && x@ == self@.file_name,
                },
                CopyStage::Copying(n) => match event {
                    CopyEvent::Copied => r matches CopyStep::Done(Ok(CopyResult::Copied { dest }))
                        && dest@ == joined(self@.os, joined(self@.os, self@.dest_base, self@.dir_name), n@),
                    CopyEvent::Failed(m) => r matches CopyStep::Done(Err(CopyError::Io(x))) && x@
                        == m@,
                    _ => r matches CopyStep::Next(t, _) && t@ == self@,
                },
            },
    {
        proof {
            use_type_invariant(&self);
        }
        let CopyFileTask { os, dest_base, dir_name, file_name, stage } = self;
        match stage {
            CopyStage::EnsureDir => match event {
                CopyEvent::DirReady => {
                    let action = CopyAction::CheckExists { name: String::from_str(file_name.as_str()) };
                    CopyStep::Next(
                        CopyFileTask {
                            os,
                            dest_base,
                            dir_name,
                            file_name,
                            stage: CopyStage::Dedup(DedupStage::CheckInitial),
                        },
                        action,
                    )
                },
                CopyEvent::DirFailed => {
                    let dir = join_path(os, dest_base.as_str(), dir_name.as_str());
                    CopyStep::Done(Err(CopyError::CreateDir(dir)))
                },
                _ => {
                    let action = CopyAction::EnsureDir { dir: String::from_str(dir_name.as_str()) };
                    CopyStep::Next(
                        CopyFileTask { os, dest_base, dir_name, file_name, stage: CopyStage::EnsureDir },
                        action,
                    )
                },
            },
            CopyStage::Dedup(s) => match dest_dir_with_dedup(file_name.as_str(), s, event) {
                DedupStep::Continue(s2, action) => CopyStep::Next(
                    CopyFileTask { os, dest_base, dir_name, file_name, stage: CopyStage::Dedup(s2) },
                    action,
                ),
                DedupStep::Decided(Ok(Some(n))) => {
                    let action = CopyAction::CopyTo { name: String::from_str(n.as_str()) };
                    CopyStep::Next(
                        CopyFileTask { os, dest_base, dir_name, file_name, stage: CopyStage::Copying(n) },
                        action,
                    )
                },
                DedupStep::Decided(Ok(None)) => CopyStep::Done(
                    Ok(CopyResult::Skipped { reason: String::from_str("Duplicate file (same MD5)") }),
                ),
                DedupStep::Decided(Err(e)) => CopyStep::Done(Err(e)),
            },
            CopyStage::Copying(n) => match event {
                CopyEvent::Copied => {
                    let dir = join_path(os, dest_base.as_str(), dir_name.as_str());
                    let dest = join_path(os, dir.as_str(), n.as_str());
                    CopyStep::Done(Ok(CopyResult::Copied { dest }))
                },
                CopyEvent::Failed(m) => CopyStep::Done(Err(CopyError::Io(m))),
                _ => {
                    let action = CopyAction::CopyTo { name: String::from_str(n.as_str()) };
                    CopyStep::Next(
                        CopyFileTask { os, dest_base, dir_name, file_name, stage: CopyStage::Copying(n) },
                        action,
                    )
                },
            },
        }
    }
}

/// Starts the copy of the file named `source_file_name` (the final
/// component of its path, where that is text) into the folder for `date`
/// (1970-01-01 where the date is unknown) under `dest_base` on `os`; the
/// first question is to make that folder ready.
pub fn copy_file(os: TargetOs, source_file_name: Option<&str>, dest_base: &str, date: Option<Date>) -> (r:
    CopyStep)
    ensures
        r matches CopyStep::Next(t, a) && task_action_is(t@, a) && t@.stage is EnsureDir && t@.os
            == os && t@.dest_base == dest_base@ && t@.dir_name == date_dir_text(date)
            && t@.file_name == copied_file_name(source_file_name),
{
    let dir_name = date_dir_name(&date);
    let name = match source_file_name {
        Some(f) => String::from_str(f),
        None => String::from_str("unknown"),
    };
    let action = CopyAction::EnsureDir { dir: String::from_str(dir_name.as_str()) };
    CopyStep::Next(
        CopyFileTask {
            os,
            dest_base: String::from_str(dest_base),
            dir_name,
            file_name: name,
            stage: CopyStage::EnsureDir,
        },
        action,
    )
}

} // verus!
