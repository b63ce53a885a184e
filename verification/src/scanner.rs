//! Which files of a folder tree are photos and videos, by their extension.

use vstd::prelude::*;
use crate::filename::{extension_of, stem_and_extension, lemma_extension_of_name};
use crate::text::chars_of;

verus! {

/// The extensions of photo files, in lower case.
pub open spec fn image_extensions() -> Seq<Seq<char>> {
    seq![
        "jpg"@,
        "jpeg"@,
        "png"@,
        "heic"@,
        "heif"@,
        "webp"@,
        "tiff"@,
        "tif"@,
        "raw"@,
        "cr2"@,
        "nef"@,
        "arw"@,
    ]
}

/// The extensions of video files, in lower case.
pub open spec fn video_extensions() -> Seq<Seq<char>> {
    seq!["mp4"@, "mov"@, "avi"@, "mkv"@, "wmv"@, "flv"@, "webm"@, "m4v"@]
}

/// The extensions of photo files, in lower case.
pub fn image_extension_list() -> (r: Vec<&'static str>)
    ensures
        r@.map_values(|s: &str| s@) == image_extensions(),
{
    let r = vec!["jpg", "jpeg", "png", "heic", "heif", "webp", "tiff", "tif", "raw", "cr2", "nef", "arw"];
    assert(r@.map_values(|s: &str| s@) =~= image_extensions());
    r
}

/// The extensions of video files, in lower case.
pub fn video_extension_list() -> (r: Vec<&'static str>)
    ensures
        r@.map_values(|s: &str| s@) == video_extensions(),
{
    let r = vec!["mp4", "mov", "avi", "mkv", "wmv", "flv", "webm", "m4v"];
    assert(r@.map_values(|s: &str| s@) =~= video_extensions());
    r
}

/// A character as lower case makes it for comparing with the lower-case
/// ASCII extensions: `A` to `Z` become `a` to `z`, and the Kelvin sign, whose
/// lower case is `k`, becomes `k`. Every other character has a lower case
/// (`char::to_lowercase`) that is not plain ASCII or is the character itself,
/// so this gives the same answers as `to_lowercase` in that comparison.
pub open spec fn fold_char(c: char) -> char {
    if 'A' <= c && c <= 'Z' {
        ((c as nat) + 32) as char
    } else if c == '\u{212A}' {
        'k'
    } else {
        c
    }
}

/// `s` with every character folded as `fold_char` does.
pub open spec fn folded(s: Seq<char>) -> Seq<char> {
    s.map_values(|c: char| fold_char(c))
}

/// Folding lowers the ASCII capitals: each of `A` to `Z` becomes the letter
/// 32 places on, `a` to `z`; ASCII lower-case letters and digits are left as
/// they are.
pub proof fn lemma_fold_ascii(c: char)
    ensures
        'A' <= c <= 'Z' ==> fold_char(c) as nat == c as nat + 32 && 'a' <= fold_char(c) <= 'z',
        ('a' <= c <= 'z' || '0' <= c <= '9') ==> fold_char(c) == c,
{
}

/// Whether `e` spells the lower-case ASCII word `w` in any mix of ASCII
/// cases.
pub open spec fn ascii_case_variant(e: Seq<char>, w: Seq<char>) -> bool {
    &&& e.len() == w.len()
    &&& forall|i: int|
        0 <= i < e.len() ==> #[trigger] e[i] == w[i] || ('A' <= e[i] <= 'Z' && e[i] as nat + 32
            == w[i] as nat)
}

/// Every listed extension is written in lower-case ASCII letters and digits.
proof fn lemma_extensions_lower_ascii(w: Seq<char>)
    requires
        image_extensions().contains(w) || video_extensions().contains(w),
    ensures
        forall|i: int| 0 <= i < w.len() ==> ('a' <= #[trigger] w[i] <= 'z' || '0' <= w[i] <= '9'),
{
    reveal_strlit("jpg");
    reveal_strlit("jpeg");
    reveal_strlit("png");
    reveal_strlit("heic");
    reveal_strlit("heif");
    reveal_strlit("webp");
    reveal_strlit("tiff");
    reveal_strlit("tif");
    reveal_strlit("raw");
    reveal_strlit("cr2");
    reveal_strlit("nef");
    reveal_strlit("arw");
    reveal_strlit("mp4");
    reveal_strlit("mov");
    reveal_strlit("avi");
    reveal_strlit("mkv");
    reveal_strlit("wmv");
    reveal_strlit("flv");
    reveal_strlit("webm");
    reveal_strlit("m4v");
    let ims = image_extensions();
    let vs = video_extensions();
    if ims.contains(w) {
        let k = choose|k: int| 0 <= k < ims.len() && ims[k] == w;
        assert(0 <= k < 12);
    } else {
        let k = choose|k: int| 0 <= k < vs.len() && vs[k] == w;
        assert(0 <= k < 8);
    }
}

/// The kind of a file does not depend on the case of its extension: a file
/// whose extension is a listed photo or video extension in any mix of ASCII
/// cases (`JPG`, `Avi`, `ARW`) is a medium, a video exactly where that
/// extension is a video extension.
pub proof fn lemma_media_kind_ignores_case(name: Seq<char>, ext: Seq<char>, w: Seq<char>)
    requires
        extension_of(name) == Some(ext),
        image_extensions().contains(w) || video_extensions().contains(w),
        ascii_case_variant(ext, w),
    ensures
        media_kind_spec(name) == Some(video_extensions().contains(w)),
{
    lemma_extensions_lower_ascii(w);
    assert forall|i: int| 0 <= i < ext.len() implies fold_char(#[trigger] ext[i]) == w[i] by {
        lemma_fold_ascii(ext[i]);
    }
    assert(folded(ext) =~= w);
}

/// A file named `stem.ext`, whose extension is a listed photo or video
/// extension in any mix of ASCII cases (`CLIP0001.AVI`, `DSC00001.ARW`), is
/// a medium, a video exactly where that extension is a video extension.
pub proof fn lemma_media_name_ignores_case(stem: Seq<char>, ext: Seq<char>, w: Seq<char>)
    requires
        stem.len() > 0,
        stem != seq!['.'],
        !stem.contains('/'),
        image_extensions().contains(w) || video_extensions().contains(w),
        ascii_case_variant(ext, w),
    ensures
        media_kind_spec(stem + seq!['.'] + ext) == Some(video_extensions().contains(w)),
{
    lemma_extensions_lower_ascii(w);
    assert(!ext.contains('/') && !ext.contains('.')) by {
        if ext.contains('/') || ext.contains('.') {
            let k = choose|k: int| 0 <= k < ext.len() && (ext[k] == '/' || ext[k] == '.');
            assert(ext[k] == w[k] || ('A' <= ext[k] <= 'Z'));
        }
    }
    lemma_extension_of_name(stem, ext);
    lemma_media_kind_ignores_case(stem + seq!['.'] + ext, ext, w);
}

/// Whether the folded text `s` equals `word`.
fn folded_equals(s: &[char], word: &str) -> (r: bool)
    ensures
        r == (folded(s@) == word@),
{
    let w = chars_of(word);
    if s.len() != w.len() {
        assert(folded(s@).len() != word@.len());
        return false;
    }
    let n = s.len();
    for i in 0..n
        invariant
            n == s@.len(),
            n == w@.len(),
            w@ == word@,
            forall|j: int| 0 <= j < i ==> fold_char(#[trigger] s@[j]) == w@[j],
    {
        let c = s[i];
        let f = if 'A' <= c && c <= 'Z' {
            ((c as u32) + 32) as u8 as char
        } else if c == '\u{212A}' {
            'k'
        } else {
            c
        };
        assert(f == fold_char(c));
        if f != w[i] {
            assert(folded(s@)[i as int] != word@[i as int]);
            return false;
        }
    }
    assert(folded(s@) =~= word@);
    true
}

/// Whether the folded text `s` is one of `words`.
fn folded_in(s: &[char], words: &Vec<&'static str>) -> (r: bool)
    ensures
        r == words@.map_values(|w: &str| w@).contains(folded(s@)),
{
    let ghost ws = words@.map_values(|w: &str| w@);
    let n = words.len();
    for i in 0..n
        invariant
            n == words@.len(),
            ws == words@.map_values(|w: &str| w@),
            forall|j: int| 0 <= j < i ==> ws[j] != folded(s@),
    {
        if folded_equals(s, words[i]) {
            assert(ws[i as int] == folded(s@));
            return true;
        }
    }
    false
}

/// Whether the file named `name` is a photo or a video by its extension
/// (compared without regard to case): `Some(is_video)` for a medium, `None`
/// for any other file.
pub open spec fn media_kind_spec(name: Seq<char>) -> Option<bool> {
    match extension_of(name) {
        Some(ext) => if image_extensions().contains(folded(ext)) || video_extensions().contains(
            folded(ext),
        ) {
            Some(video_extensions().contains(folded(ext)))
        } else {
            None
        },
        None => None,
    }
}

/// Whether the file named `name` is a photo (`Some(false)`), a video
/// (`Some(true)`) or neither (`None`), by its extension.
pub fn media_kind(name: &str) -> (r: Option<bool>)
    ensures
        r == media_kind_spec(name@),
{
    let (_, ext) = stem_and_extension(name);
    match ext {
        Some(e) => {
            let cs = chars_of(e.as_str());
            let is_image = folded_in(cs.as_slice(), &image_extension_list());
            let is_video = folded_in(cs.as_slice(), &video_extension_list());
            if is_image || is_video {
                Some(is_video)
            } else {
                None
            }
        },
        None => None,
    }
}

/// A photo or video found by a scan.
pub struct MediaFile {
    /// Its path.
    pub path: String,
    /// Whether it is a video (else a photo).
    pub is_video: bool,
}

/// An entry of the folder tree that could not be read.
pub struct ScanError {
    /// Its path, or an empty text where the walk did not know it.
    pub path: String,
    /// What went wrong.
    pub message: String,
}

/// What a scan found.
pub struct ScanOutput {
    /// The photos and videos, in the order of the walk.
    pub files: Vec<MediaFile>,
    /// The entries that could not be read, in the order of the walk.
    pub errors: Vec<ScanError>,
}

/// What the walk of a folder tree met at one entry.
pub enum WalkEntry {
    /// An entry at this path, which is or is not a regular file; its final
    /// component is `file_name` (with any bytes that are not text replaced),
    /// where the path has one.
    Found { path: String, file_name: Option<String>, is_file: bool },
    /// An entry that could not be read, at this path where the walk knows it.
    Failed { known_path: Option<String>, message: String },
}

/// The medium that an entry is, as a path and whether it is a video.
pub open spec fn entry_medium(e: WalkEntry) -> Option<(Seq<char>, bool)> {
    match e {
        WalkEntry::Found { path, file_name, is_file } => if is_file {
            match file_name {
                Some(n) => match media_kind_spec(n@) {
                    Some(v) => Some((path@, v)),
                    None => None,
                },
                None => None,
            }
        } else {
            None
        },
        WalkEntry::Failed { .. } => None,
    }
}

/// The error that an entry is, as a path and a message.
pub open spec fn entry_error(e: WalkEntry) -> Option<(Seq<char>, Seq<char>)> {
    match e {
        WalkEntry::Failed { known_path, message } => Some(
            (
                match known_path {
                    Some(p) => p@,
                    None => Seq::<char>::empty(),
                },
                message@,
            ),
        ),
        WalkEntry::Found { .. } => None,
    }
}

/// The media among `entries`, in order.
pub open spec fn scanned_media(entries: Seq<WalkEntry>) -> Seq<(Seq<char>, bool)>
    decreases entries.len(),
{
    if entries.len() == 0 {
        Seq::empty()
    } else {
        let before = scanned_media(entries.drop_last());
        match entry_medium(entries.last()) {
            Some(m) => before.push(m),
            None => before,
        }
    }
}

/// The errors among `entries`, in order.
pub open spec fn scanned_errors(entries: Seq<WalkEntry>) -> Seq<(Seq<char>, Seq<char>)>
    decreases entries.len(),
{
    if entries.len() == 0 {
        Seq::empty()
    } else {
        let before = scanned_errors(entries.drop_last());
        match entry_error(entries.last()) {
            Some(e) => before.push(e),
            None => before,
        }
    }
}

/// The media files as paths and kinds.
pub open spec fn media_view(files: Seq<MediaFile>) -> Seq<(Seq<char>, bool)> {
    files.map_values(|f: MediaFile| (f.path@, f.is_video))
}

/// The scan errors as paths and messages.
pub open spec fn errors_view(errors: Seq<ScanError>) -> Seq<(Seq<char>, Seq<char>)> {
    errors.map_values(|e: ScanError| (e.path@, e.message@))
}

/// Sorts the entries met by a walk of a folder tree: regular files with a
/// photo or video extension are the media found, entries that could not be
/// read are the errors, and everything else is passed over.
pub fn scan_directory(entries: &Vec<WalkEntry>) -> (r: ScanOutput)
    ensures
        media_view(r.files@) == scanned_media(entries@),
        errors_view(r.errors@) == scanned_errors(entries@),
{
    let mut files: Vec<MediaFile> = Vec::new();
    let mut errors: Vec<ScanError> = Vec::new();
    let n = entries.len();
    assert(entries@.take(0) =~= Seq::<WalkEntry>::empty());
    for i in 0..n
        invariant
            n == entries@.len(),
            media_view(files@) == scanned_media(entries@.take(i as int)),
            errors_view(errors@) == scanned_errors(entries@.take(i as int)),
    {
        let ghost pre = entries@.take(i as int);
        let ghost mv = media_view(files@);
        let ghost ev = errors_view(errors@);
        assert(entries@.take(i + 1).drop_last() == pre);
        assert(entries@.take(i + 1).last() == entries@[i as int]);
        match &entries[i] {
            WalkEntry::Found { path, file_name, is_file } => {
                if *is_file {
                    if let Some(n) = file_name {
                        match media_kind(n.as_str()) {
                            Some(is_video) => {
                                files.push(MediaFile { path: String::from_str(path.as_str()), is_video });
                                assert(media_view(files@) =~= mv.push((path@, is_video)));
                            },
                            None => {},
                        }
                    }
                }
            },
            WalkEntry::Failed { known_path, message } => {
                let p = match known_path {
                    Some(p) => String::from_str(p.as_str()),
                    None => String::new(),
                };
                errors.push(ScanError { path: p, message: String::from_str(message.as_str()) });
                assert(errors_view(errors@) =~= ev.push(
                    (
                        match known_path {
                            Some(p) => p@,
                            None => Seq::<char>::empty(),
                        },
                        message@,
                    ),
                ));
            },
        }
    }
    assert(entries@.take(n as int) == entries@);
    ScanOutput { files, errors }
}

/// The positions in `entries` of the media, in order.
pub open spec fn media_positions(entries: Seq<WalkEntry>) -> Seq<int>
    decreases entries.len(),
{
    if entries.len() == 0 {
        Seq::empty()
    } else {
        let before = media_positions(entries.drop_last());
        if entry_medium(entries.last()) is Some {
            before.push(entries.len() - 1)
        } else {
            before
        }
    }
}

/// The positions of the media among the entries of a walk match the media
/// found, one for one and in order: the entry at the `k`-th position is the
/// `k`-th medium found, and the positions rise.
pub proof fn lemma_media_positions(entries: Seq<WalkEntry>)
    ensures
        media_positions(entries).len() == scanned_media(entries).len(),
        forall|k: int|
            0 <= k < media_positions(entries).len() ==> {
                let p = #[trigger] media_positions(entries)[k];
                &&& 0 <= p < entries.len()
                &&& entry_medium(entries[p]) == Some(scanned_media(entries)[k])
            },
        forall|j: int, k: int|
            0 <= j < k < media_positions(entries).len() ==> media_positions(entries)[j]
                < media_positions(entries)[k],
    decreases entries.len(),
{
    if entries.len() > 0 {
        let e2 = entries.drop_last();
        lemma_media_positions(e2);
        assert forall|k: int| 0 <= k < media_positions(e2).len() implies entries[
            media_positions(e2)[k]] == e2[media_positions(e2)[k]] by {}
    }
}

/// The positions in `entries` of the media that `scan_directory` finds, in
/// order, so that each medium found can be matched with the entry it came
/// from.
pub fn media_entries(entries: &Vec<WalkEntry>) -> (r: Vec<usize>)
    ensures
        r@.map_values(|i: usize| i as int) == media_positions(entries@),
{
    let mut r: Vec<usize> = Vec::new();
    let n = entries.len();
    assert(entries@.take(0) =~= Seq::<WalkEntry>::empty());
    for i in 0..n
        invariant
            n == entries@.len(),
            r@.map_values(|i: usize| i as int) == media_positions(entries@.take(i as int)),
    {
        let ghost before = r@.map_values(|i: usize| i as int);
        assert(entries@.take(i + 1).drop_last() == entries@.take(i as int));
        assert(entries@.take(i + 1).last() == entries@[i as int]);
        let is_medium = match &entries[i] {
            WalkEntry::Found { file_name, is_file, .. } => {
                if *is_file {
                    match file_name {
                        Some(name) => media_kind(name.as_str()).is_some(),
                        None => false,
                    }
                } else {
                    false
                }
            },
            WalkEntry::Failed { .. } => false,
        };
        if is_medium {
            r.push(i);
            assert(r@.map_values(|i: usize| i as int) =~= before.push(i as int));
        }
    }
    assert(entries@.take(n as int) == entries@);
    r
}

/// The answer to a request to scan a source folder: the media, their number
/// and the errors.
pub struct ScanResult {
    pub files: Vec<MediaFile>,
    pub total_count: usize,
    pub errors: Vec<ScanError>,
}

/// The answer to a scan request for what a scan found.
pub fn scan_result(output: ScanOutput) -> (r: ScanResult)
    ensures
        r.files@ == output.files@,
        r.errors@ == output.errors@,
        r.total_count == output.files@.len(),
{
    let total_count = output.files.len();
    ScanResult { files: output.files, total_count, errors: output.errors }
}

/// The refusal of a scan whose source folder does not exist.
pub open spec fn missing_source_text() -> Seq<char> {
    "Source directory does not exist"@
}

/// The answer to a request to scan a source folder: the refusal where the
/// folder does not exist, else what the scan of it found, with the number
/// of media.
pub fn scan_source_directory(source_exists: bool, scan: ScanOutput) -> (r: Result<ScanResult, String>)
    ensures
        !source_exists ==> (r matches Err(m) && m@ == missing_source_text()),
        source_exists ==> (r matches Ok(res) && res.files@ == scan.files@ && res.errors@
            == scan.errors@ && res.total_count == scan.files@.len()),
{
    if !source_exists {
        return Err(String::from_str("Source directory does not exist"));
    }
    Ok(scan_result(scan))
}

} // verus!
