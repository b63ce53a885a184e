//! The host system: the search path that finds `ffprobe`, whether it is
//! installed, and the terminal that runs one of the known install commands.

use vstd::prelude::*;
use vstd::utf8::{valid_utf8, decode_utf8};
use crate::text::{
    free_of, lemma_split_plain, lemma_split_free,
    chars_of, first_line_trim, first_line_trimmed, push_char, push_chars, split_chars,
    split_pieces, texts_of, lemma_split_pieces_nonempty,
};

verus! {

/// The operating system the program runs on.
#[derive(Clone, Copy, Debug, PartialEq, Eq)]
pub enum TargetOs {
    MacOs,
    Windows,
    Linux,
    /// Any other system.
    Other,
}

/// The folders appended to the search path where they are missing from it.
pub open spec fn extra_path_dirs(os: TargetOs) -> Seq<Seq<char>> {
    match os {
        TargetOs::MacOs => seq![
            "/opt/homebrew/bin"@,
            "/usr/local/bin"@,
            "/opt/homebrew/sbin"@,
            "/usr/local/sbin"@,
        ],
        TargetOs::Linux => seq![
            "/usr/local/bin"@,
            "/usr/bin"@,
            "/snap/bin"@,
            "/home/linuxbrew/.linuxbrew/bin"@,
        ],
        _ => Seq::empty(),
    }
}

/// The folders appended to the search path where they are missing from it:
/// the usual places of Homebrew and of other installs, which a program
/// started from the desktop does not find on its search path.
pub fn extra_path_dir_list(os: TargetOs) -> (r: Vec<&'static str>)
    ensures
        r@.map_values(|s: &str| s@) == extra_path_dirs(os),
{
    let r = match os {
        TargetOs::MacOs => vec!["/opt/homebrew/bin", "/usr/local/bin", "/opt/homebrew/sbin", "/usr/local/sbin"],
        TargetOs::Linux => vec!["/usr/local/bin", "/usr/bin", "/snap/bin", "/home/linuxbrew/.linuxbrew/bin"],
        _ => Vec::new(),
    };
    assert(r@.map_values(|s: &str| s@) =~= extra_path_dirs(os));
    r
}

/// `parts` with each of `extra` appended, in order, where it is not already
/// among them.
pub open spec fn merged_dirs(parts: Seq<Seq<char>>, extra: Seq<Seq<char>>) -> Seq<Seq<char>>
    decreases extra.len(),
{
    if extra.len() == 0 {
        parts
    } else {
        let m = merged_dirs(parts, extra.drop_last());
        if m.contains(extra.last()) {
            m
        } else {
            m.push(extra.last())
        }
    }
}

/// `parts` joined with `sep` between them (`[&str]::join`).
pub open spec fn joined_with(parts: Seq<Seq<char>>, sep: char) -> Seq<char>
    decreases parts.len(),
{
    if parts.len() == 0 {
        Seq::empty()
    } else if parts.len() == 1 {
        parts[0]
    } else {
        joined_with(parts.drop_last(), sep) + seq![sep] + parts.last()
    }
}

/// The search path `current` with the usual install folders of `os`
/// appended where they are missing.
pub open spec fn full_path(current: Seq<char>, os: TargetOs) -> Seq<char> {
    joined_with(merged_dirs(split_pieces(current, seq![':']), extra_path_dirs(os)), ':')
}

/// Whether the texts `a` and `b` are equal.
pub fn chars_equal(a: &[char], b: &[char]) -> (r: bool)
    ensures
        r == (a@ == b@),
{
    if a.len() != b.len() {
        return false;
    }
    let n = a.len();
    for i in 0..n
        invariant
            n == a@.len(),
            n == b@.len(),
            forall|j: int| 0 <= j < i ==> a@[j] == b@[j],
    {
        if a[i] != b[i] {
            return false;
        }
    }
    assert(a@ =~= b@);
    true
}

fn contains_text(parts: &Vec<Vec<char>>, t: &[char]) -> (r: bool)
    ensures
        r == texts_of(parts@).contains(t@),
{
    let ghost ps = texts_of(parts@);
    let n = parts.len();
    for i in 0..n
        invariant
            n == parts@.len(),
            ps == texts_of(parts@),
            forall|j: int| 0 <= j < i ==> ps[j] != t@,
    {
        if chars_equal(parts[i].as_slice(), t) {
            assert(ps[i as int] == t@);
            return true;
        }
    }
    false
}

fn join_texts(parts: &Vec<Vec<char>>, sep: char) -> (r: String)
    ensures
        r@ == joined_with(texts_of(parts@), sep),
{
    let ghost ps = texts_of(parts@);
    let mut r = String::new();
    let n = parts.len();
    for i in 0..n
        invariant
            n == parts@.len(),
            ps == texts_of(parts@),
            r@ == joined_with(ps.take(i as int), sep),
    {
        assert(ps.take(i + 1).drop_last() == ps.take(i as int));
        assert(ps.take(i + 1).last() == parts@[i as int]@);
        if i > 0 {
            push_char(&mut r, sep);
        } else {
            assert(ps.take(1) =~= seq![parts@[0]@]);
        }
        push_chars(&mut r, parts[i].as_slice());
    }
    assert(ps.take(n as int) == ps);
    r
}

/// The search path `current` with the usual install folders of `os`
/// appended where they are missing, so that a program started from the
/// desktop (which sees only a minimal search path) still finds `ffprobe`.
pub fn get_full_path(current: &str, os: TargetOs) -> (r: String)
    ensures
        r@ == full_path(current@, os),
{
    let cs = chars_of(current);
    let seps = [':'];
    assert(seps@ == seq![':']);
    let mut parts = split_chars(cs.as_slice(), &seps);
    let extra = extra_path_dir_list(os);
    let ghost ex = extra@.map_values(|s: &str| s@);
    let ghost start = texts_of(parts@);
    let n = extra.len();
    assert(ex.take(0) =~= Seq::<Seq<char>>::empty());
    for i in 0..n
        invariant
            n == extra@.len(),
            ex == extra@.map_values(|s: &str| s@),
            ex == extra_path_dirs(os),
            texts_of(parts@) == merged_dirs(start, ex.take(i as int)),
    {
        let dir = chars_of(extra[i]);
        let ghost before = texts_of(parts@);
        assert(ex.take(i + 1).drop_last() == ex.take(i as int));
        assert(ex.take(i + 1).last() == dir@);
        if !contains_text(&parts, dir.as_slice()) {
            parts.push(dir);
            assert(texts_of(parts@) =~= before.push(ex[i as int]));
        }
    }
    assert(ex.take(n as int) == ex);
    join_texts(&parts, ':')
}

proof fn lemma_split_append(a: Seq<char>, b: Seq<char>, sep: char)
    requires
        !b.contains(sep),
    ensures
        split_pieces(a + seq![sep] + b, seq![sep]) == split_pieces(a, seq![sep]).push(b),
    decreases b.len(),
{
    let seps = seq![sep];
    assert(seps[0] == sep);
    if b.len() == 0 {
        assert((a + seq![sep] + b).drop_last() =~= a);
        assert((a + seq![sep] + b).last() == sep);
        assert(b =~= Seq::<char>::empty());
        assert(seps.contains(sep));
    } else {
        let b2 = b.drop_last();
        assert(!b2.contains(sep)) by {
            if b2.contains(sep) {
                let k = choose|k: int| 0 <= k < b2.len() && b2[k] == sep;
                assert(b[k] == sep);
            }
        }
        lemma_split_append(a, b2, sep);
        assert((a + seq![sep] + b).drop_last() =~= a + seq![sep] + b2);
        assert(!seps.contains(b.last())) by {
            assert(b[b.len() - 1] == b.last());
        }
        let before = split_pieces(a + seq![sep] + b2, seps);
        assert(before.last() == b2);
        assert(b2.push(b.last()) =~= b);
        assert(split_pieces(a + seq![sep] + b, seps) =~= split_pieces(a, seps).push(b));
    }
}

/// Splitting a joined list at the separator gives the list back, where no
/// part holds the separator.
pub proof fn lemma_split_joined(parts: Seq<Seq<char>>, sep: char)
    requires
        parts.len() >= 1,
        free_of(parts, sep),
    ensures
        split_pieces(joined_with(parts, sep), seq![sep]) == parts,
    decreases parts.len(),
{
    if parts.len() == 1 {
        lemma_split_plain(parts[0], sep);
        assert(seq![parts[0]] =~= parts);
    } else {
        let p2 = parts.drop_last();
        assert(free_of(p2, sep)) by {
            assert forall|i: int| 0 <= i < p2.len() implies !(#[trigger] p2[i]).contains(sep) by {
                assert(p2[i] == parts[i]);
            }
        }
        lemma_split_joined(p2, sep);
        assert(!parts.last().contains(sep)) by {
            assert(parts[parts.len() - 1] == parts.last());
        }
        lemma_split_append(joined_with(p2, sep), parts.last(), sep);
        assert(p2.push(parts.last()) =~= parts);
    }
}

proof fn lemma_merged_keeps(parts: Seq<Seq<char>>, extra: Seq<Seq<char>>, sep: char)
    requires
        free_of(parts, sep),
        free_of(extra, sep),
    ensures
        free_of(merged_dirs(parts, extra), sep),
        merged_dirs(parts, extra).len() >= parts.len(),
        merged_dirs(parts, extra).take(parts.len() as int) == parts,
        forall|i: int| 0 <= i < extra.len() ==> merged_dirs(parts, extra).contains(
            #[trigger] extra[i],
        ),
    decreases extra.len(),
{
    if extra.len() > 0 {
        let e2 = extra.drop_last();
        assert(free_of(e2, sep)) by {
            assert forall|i: int| 0 <= i < e2.len() implies !(#[trigger] e2[i]).contains(sep) by {
                assert(e2[i] == extra[i]);
            }
        }
        lemma_merged_keeps(parts, e2, sep);
        let m = merged_dirs(parts, e2);
        let m2 = merged_dirs(parts, extra);
        assert(!extra.last().contains(sep)) by {
            assert(extra[extra.len() - 1] == extra.last());
        }
        if !m.contains(extra.last()) {
            assert(m2.take(parts.len() as int) =~= m.take(parts.len() as int));
            assert(m2[m.len() as int] == extra.last());
        }
        assert forall|i: int| 0 <= i < extra.len() implies m2.contains(#[trigger] extra[i]) by {
            if i < extra.len() - 1 {
                assert(extra[i] == e2[i]);
                let k = choose|k: int| 0 <= k < m.len() && m[k] == e2[i];
                assert(m2[k] == m[k]);
            } else {
                if m.contains(extra.last()) {
                } else {
                    assert(m2[m.len() as int] == extra[i]);
                }
            }
        }
    }
}

proof fn lemma_merged_idempotent(parts: Seq<Seq<char>>, extra: Seq<Seq<char>>)
    requires
        forall|i: int| 0 <= i < extra.len() ==> parts.contains(#[trigger] extra[i]),
    ensures
        merged_dirs(parts, extra) == parts,
    decreases extra.len(),
{
    if extra.len() > 0 {
        let e2 = extra.drop_last();
        assert forall|i: int| 0 <= i < e2.len() implies parts.contains(#[trigger] e2[i]) by {
            assert(e2[i] == extra[i]);
        }
        lemma_merged_idempotent(parts, e2);
        assert(parts.contains(extra[extra.len() - 1]));
    }
}

proof fn lemma_extra_dirs_free(os: TargetOs)
    ensures
        free_of(extra_path_dirs(os), ':'),
{
    reveal_strlit("/opt/homebrew/bin");
    reveal_strlit("/usr/local/bin");
    reveal_strlit("/opt/homebrew/sbin");
    reveal_strlit("/usr/local/sbin");
    reveal_strlit("/usr/bin");
    reveal_strlit("/snap/bin");
    reveal_strlit("/home/linuxbrew/.linuxbrew/bin");
    let ex = extra_path_dirs(os);
    assert forall|i: int| 0 <= i < ex.len() implies !(#[trigger] ex[i]).contains(':') by {
        let p = ex[i];
        if p.contains(':') {
            let k = choose|k: int| 0 <= k < p.len() && p[k] == ':';
            assert(p[k] == ':');
        }
    }
}

/// The `:`-separated entries of the enriched search path are the current
/// entries with the missing install folders appended.
proof fn lemma_full_path_pieces(current: Seq<char>, os: TargetOs)
    ensures
        ({
            let original = split_pieces(current, seq![':']);
            let m = merged_dirs(original, extra_path_dirs(os));
            &&& split_pieces(full_path(current, os), seq![':']) == m
            &&& m.len() >= original.len()
            &&& m.take(original.len() as int) == original
            &&& forall|i: int|
                0 <= i < extra_path_dirs(os).len() ==> m.contains(
                    #[trigger] extra_path_dirs(os)[i],
                )
        }),
{
    let original = split_pieces(current, seq![':']);
    lemma_split_free(current, ':');
    lemma_split_pieces_nonempty(current, seq![':']);
    lemma_extra_dirs_free(os);
    lemma_merged_keeps(original, extra_path_dirs(os), ':');
    lemma_split_joined(merged_dirs(original, extra_path_dirs(os)), ':');
}

/// What the enriched search path holds: the `:`-separated entries of the
/// current search path first, in their order and empty ones included, then
/// each usual install folder that was missing; every usual install folder is
/// on it.
pub proof fn lemma_full_path_contents(current: Seq<char>, os: TargetOs)
    ensures
        ({
            let dirs = split_pieces(full_path(current, os), seq![':']);
            let original = split_pieces(current, seq![':']);
            &&& dirs.len() >= original.len()
            &&& dirs.take(original.len() as int) == original
            &&& forall|i: int|
                0 <= i < extra_path_dirs(os).len() ==> dirs.contains(
                    #[trigger] extra_path_dirs(os)[i],
                )
        }),
{
    lemma_full_path_pieces(current, os);
}

/// Enriching a search path a second time changes nothing.
pub proof fn lemma_full_path_idempotent(current: Seq<char>, os: TargetOs)
    ensures
        full_path(full_path(current, os), os) == full_path(current, os),
{
    lemma_full_path_pieces(current, os);
    let m = merged_dirs(split_pieces(current, seq![':']), extra_path_dirs(os));
    lemma_merged_idempotent(m, extra_path_dirs(os));
}

/// `String::from_utf8(bytes).ok()`: the text that `bytes` encode in UTF-8,
/// where they are valid UTF-8.
#[verifier::external_body]
fn string_from_utf8(bytes: Vec<u8>) -> (r: Option<String>)
    ensures
        r is Some <==> valid_utf8(bytes@),
        r matches Some(s) ==> s@ == decode_utf8(bytes@),
{
    String::from_utf8(bytes).ok()
}

/// The name by which the host system is reported.
pub open spec fn os_type_text(os: TargetOs) -> Seq<char> {
    match os {
        TargetOs::MacOs => "macos"@,
        TargetOs::Windows => "windows"@,
        _ => "linux"@,
    }
}

/// The name by which the host system is reported: `macos`, `windows`, and
/// `linux` for every other system.
pub fn os_type_name(os: TargetOs) -> (r: &'static str)
    ensures
        r@ == os_type_text(os),
{
    match os {
        TargetOs::MacOs => "macos",
        TargetOs::Windows => "windows",
        _ => "linux",
    }
}

/// The program that finds where a command lies on the search path.
pub open spec fn path_lookup_text(os: TargetOs) -> Seq<char> {
    if os == TargetOs::Windows {
        "where"@
    } else {
        "which"@
    }
}

/// The program that finds where a command lies on the search path: `where`
/// on Windows, `which` elsewhere.
pub fn path_lookup_program(os: TargetOs) -> (r: &'static str)
    ensures
        r@ == path_lookup_text(os),
{
    match os {
        TargetOs::Windows => "where",
        _ => "which",
    }
}

/// Whether `ffprobe` is installed, where it lies, and the host system.
pub struct SystemStatus {
    pub ffprobe_installed: bool,
    pub ffprobe_path: Option<String>,
    pub os_type: String,
}

/// The report on `ffprobe`: `version_ok` tells whether `ffprobe -version`
/// ran and succeeded; `lookup`, where the path lookup program ran, whether
/// it succeeded and what it wrote. `ffprobe` is installed where its version
/// run succeeded; its path is then the first line of the lookup's output,
/// trimmed, where the lookup succeeded and wrote UTF-8.
pub fn check_ffprobe(os: TargetOs, version_ok: bool, lookup: Option<(bool, Vec<u8>)>) -> (r:
    SystemStatus)
    ensures
        r.os_type@ == os_type_text(os),
        r.ffprobe_installed == version_ok,
        !version_ok ==> r.ffprobe_path is None,
        version_ok ==> match lookup {
            Some((succeeded, out)) => if succeeded && valid_utf8(out@) {
                r.ffprobe_path matches Some(p) && p@ == first_line_trimmed(decode_utf8(out@))
            } else {
                r.ffprobe_path is None
            },
            None => r.ffprobe_path is None,
        },
{
    let os_type = String::from_str(os_type_name(os));
    if !version_ok {
        return SystemStatus { ffprobe_installed: false, ffprobe_path: None, os_type };
    }
    let path = match lookup {
        Some((succeeded, out)) => {
            if succeeded {
                match string_from_utf8(out) {
                    Some(text) => Some(first_line_trim(text.as_str())),
                    None => None,
                }
            } else {
                None
            }
        },
        None => None,
    };
    SystemStatus { ffprobe_installed: true, ffprobe_path: path, os_type }
}

} // verus!
