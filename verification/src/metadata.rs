//! When a photo or a video was taken: the date texts of EXIF and of
//! `ffprobe`, and the choice among the sources of a date.

use vstd::prelude::*;
use crate::date::{
    Date, date_view, is_valid_date, utc_date_of_timestamp, days_from_civil, min_year, max_year,
    ymd_text, year_text, zero_padded,
};
use crate::text::{
    chars_of, split_chars, split_pieces, texts_of, parse_i32, parse_u32, parse_i32_spec,
    parse_u32_spec, lemma_split_pieces_nonempty, all_digits, digits_value, is_digit, free_of_seps,
    lemma_split_unbroken, lemma_split_after, lemma_split_first_piece, lemma_parse_digits,
};

verus! {

/// The date named by year, month and day pieces: the first three pieces are
/// read as numbers, and the date must lie after 1970, have a month from 1 to
/// 12, a day from 1 to 31, and exist in the calendar.
pub open spec fn date_of_pieces(pieces: Seq<Seq<char>>) -> Option<(i32, u32, u32)> {
    if pieces.len() >= 3 {
        match (parse_i32_spec(pieces[0]), parse_u32_spec(pieces[1]), parse_u32_spec(pieces[2])) {
            (Some(y), Some(m), Some(d)) => if y > 1970 && 1 <= m <= 12 && 1 <= d <= 31
                && is_valid_date(y as int, m as int, d as int) {
                Some((y, m, d))
            } else {
                None
            },
            _ => None,
        }
    } else {
        None
    }
}

/// The date of an EXIF date-time text such as `2024:01:15 10:30:45` or
/// `2024-01-15 10:30:45`: the part before the first space or `T`, split at
/// `:` and `-`.
pub open spec fn exif_date(s: Seq<char>) -> Option<(i32, u32, u32)> {
    date_of_pieces(split_pieces(split_pieces(s, seq![' ', 'T'])[0], seq![':', '-']))
}

/// The date of an ISO 8601 date-time text such as
/// `2024-01-15T10:30:45.000000Z`: the part before the first `T`, split at
/// `-`.
pub open spec fn iso_date(s: Seq<char>) -> Option<(i32, u32, u32)> {
    date_of_pieces(split_pieces(split_pieces(s, seq!['T'])[0], seq!['-']))
}

/// The date that year, month and day digits name: their numbers, where they
/// make a calendar date after 1970.
pub open spec fn digits_date(y: Seq<char>, m: Seq<char>, d: Seq<char>) -> Option<(i32, u32, u32)> {
    let (yv, mv, dv) = (digits_value(y), digits_value(m), digits_value(d));
    if yv > 1970 && 1 <= mv <= 12 && 1 <= dv <= 31 && is_valid_date(yv as int, mv as int, dv as int) {
        Some((yv as i32, mv as u32, dv as u32))
    } else {
        None
    }
}

/// Digits are none of the separators `seps`.
proof fn lemma_digits_free(s: Seq<char>, seps: Seq<char>)
    requires
        all_digits(s),
        forall|k: int| 0 <= k < seps.len() ==> !is_digit(#[trigger] seps[k]),
    ensures
        free_of_seps(s, seps),
{
    assert forall|i: int| 0 <= i < s.len() implies !seps.contains(#[trigger] s[i]) by {
        if seps.contains(s[i]) {
            let k = choose|k: int| 0 <= k < seps.len() && seps[k] == s[i];
            assert(is_digit(s[i]));
            assert(!is_digit(seps[k]));
        }
    }
}

/// Year, month and day digits joined by `sep` split at `seps` (which hold
/// `sep` and no digit) into those three pieces, which read as their numbers.
proof fn lemma_three_pieces(y: Seq<char>, m: Seq<char>, d: Seq<char>, sep: char, seps: Seq<char>)
    requires
        y.len() > 0 && m.len() > 0 && d.len() > 0,
        all_digits(y) && all_digits(m) && all_digits(d),
        digits_value(y) <= i32::MAX && digits_value(m) <= u32::MAX && digits_value(d) <= u32::MAX,
        seps.contains(sep),
        forall|k: int| 0 <= k < seps.len() ==> !is_digit(#[trigger] seps[k]),
    ensures
        date_of_pieces(split_pieces(y + seq![sep] + m + seq![sep] + d, seps)) == digits_date(y, m, d),
{
    lemma_digits_free(y, seps);
    lemma_digits_free(m, seps);
    lemma_digits_free(d, seps);
    lemma_split_unbroken(y, seps);
    lemma_split_after(y, sep, m, seps);
    lemma_split_after(y + seq![sep] + m, sep, d, seps);
    let p = split_pieces(y + seq![sep] + m + seq![sep] + d, seps);
    assert(p =~= seq![y, m, d]);
    lemma_parse_digits(y);
    lemma_parse_digits(m);
    lemma_parse_digits(d);
}

/// An EXIF date-time text whose date part is year, month and day in digits,
/// separated by `:` or by `-`, with or without a space or `T` and a time
/// after it, names that date exactly where it is a calendar date after 1970;
/// the time plays no part.
pub proof fn lemma_exif_date_of_digits(
    y: Seq<char>,
    m: Seq<char>,
    d: Seq<char>,
    sep: char,
    brk: char,
    rest: Seq<char>,
)
    requires
        y.len() > 0 && m.len() > 0 && d.len() > 0,
        all_digits(y) && all_digits(m) && all_digits(d),
        digits_value(y) <= i32::MAX && digits_value(m) <= u32::MAX && digits_value(d) <= u32::MAX,
        sep == ':' || sep == '-',
        brk == ' ' || brk == 'T',
    ensures
        exif_date(y + seq![sep] + m + seq![sep] + d + seq![brk] + rest) == digits_date(y, m, d),
        exif_date(y + seq![sep] + m + seq![sep] + d) == digits_date(y, m, d),
{
    let date = y + seq![sep] + m + seq![sep] + d;
    let outer = seq![' ', 'T'];
    let inner = seq![':', '-'];
    assert(inner.contains(sep)) by {
        if sep == ':' {
            assert(inner[0] == sep);
        } else {
            assert(inner[1] == sep);
        }
    }
    assert(outer.contains(brk)) by {
        if brk == ' ' {
            assert(outer[0] == brk);
        } else {
            assert(outer[1] == brk);
        }
    }
    lemma_three_pieces(y, m, d, sep, inner);
    lemma_digits_free(y, outer);
    lemma_digits_free(m, outer);
    lemma_digits_free(d, outer);
    assert(free_of_seps(date, outer)) by {
        assert forall|i: int| 0 <= i < date.len() implies !outer.contains(#[trigger] date[i]) by {
            if i < y.len() {
                assert(date[i] == y[i]);
            } else if i == y.len() {
                assert(date[i] == sep);
            } else if i < y.len() + 1 + m.len() {
                assert(date[i] == m[i - y.len() - 1]);
            } else if i == y.len() + 1 + m.len() {
                assert(date[i] == sep);
            } else {
                assert(date[i] == d[i - y.len() - 2 - m.len()]);
            }
            if outer.contains(date[i]) {
                let k = choose|k: int| 0 <= k < outer.len() && outer[k] == date[i];
                assert(k == 0 || k == 1);
            }
        }
    }
    lemma_split_first_piece(date, brk, rest, outer);
    lemma_split_unbroken(date, outer);
}

/// An ISO 8601 date-time text whose date part is year, month and day in
/// digits separated by `-`, with or without `T` and a time after it, names
/// that date exactly where it is a calendar date after 1970.
pub proof fn lemma_iso_date_of_digits(y: Seq<char>, m: Seq<char>, d: Seq<char>, rest: Seq<char>)
    requires
        y.len() > 0 && m.len() > 0 && d.len() > 0,
        all_digits(y) && all_digits(m) && all_digits(d),
        digits_value(y) <= i32::MAX && digits_value(m) <= u32::MAX && digits_value(d) <= u32::MAX,
    ensures
        iso_date(y + seq!['-'] + m + seq!['-'] + d + seq!['T'] + rest) == digits_date(y, m, d),
        iso_date(y + seq!['-'] + m + seq!['-'] + d) == digits_date(y, m, d),
{
    let date = y + seq!['-'] + m + seq!['-'] + d;
    let outer = seq!['T'];
    let inner = seq!['-'];
    assert(inner[0] == '-');
    assert(outer[0] == 'T');
    lemma_three_pieces(y, m, d, '-', inner);
    lemma_digits_free(y, outer);
    lemma_digits_free(m, outer);
    lemma_digits_free(d, outer);
    assert(free_of_seps(date, outer)) by {
        assert forall|i: int| 0 <= i < date.len() implies !outer.contains(#[trigger] date[i]) by {
            if i < y.len() {
                assert(date[i] == y[i]);
            } else if i == y.len() {
                assert(date[i] == '-');
            } else if i < y.len() + 1 + m.len() {
                assert(date[i] == m[i - y.len() - 1]);
            } else if i == y.len() + 1 + m.len() {
                assert(date[i] == '-');
            } else {
                assert(date[i] == d[i - y.len() - 2 - m.len()]);
            }
            if outer.contains(date[i]) {
                let k = choose|k: int| 0 <= k < outer.len() && outer[k] == date[i];
                assert(k == 0);
            }
        }
    }
    lemma_split_first_piece(date, 'T', rest, outer);
    lemma_split_unbroken(date, outer);
}

/// Leading zeros do not change the number that digits spell.
proof fn lemma_leading_zeros(k: nat, s: Seq<char>)
    ensures
        digits_value(Seq::new(k, |i: int| '0') + s) == digits_value(s),
    decreases s.len(), k,
{
    let z = Seq::new(k, |i: int| '0');
    if s.len() > 0 {
        lemma_leading_zeros(k, s.drop_last());
        assert((z + s).drop_last() =~= z + s.drop_last());
        assert((z + s).last() == s.last());
    } else if k > 0 {
        lemma_leading_zeros((k - 1) as nat, s);
        assert(z + s =~= z);
        assert(z.drop_last() =~= Seq::new((k - 1) as nat, |i: int| '0') + s);
    } else {
        assert(z + s =~= s);
    }
}

/// A number written in decimal and padded with zeros is a non-empty run of
/// digits that spells the number.
proof fn lemma_zero_padded_digits(n: nat, width: nat)
    ensures
        zero_padded(crate::text::decimal(n), width).len() > 0,
        all_digits(zero_padded(crate::text::decimal(n), width)),
        digits_value(zero_padded(crate::text::decimal(n), width)) == n,
{
    let dec = crate::text::decimal(n);
    crate::text::lemma_decimal_value(n);
    if dec.len() < width {
        let k = (width - dec.len()) as nat;
        let z = Seq::new(k, |i: int| '0');
        lemma_leading_zeros(k, dec);
        assert forall|i: int| 0 <= i < (z + dec).len() implies is_digit(#[trigger] (z + dec)[i]) by {
            if i >= k {
                assert((z + dec)[i] == dec[i - k]);
            }
        }
    }
}

/// The name of a dated folder reads back as its date, as an EXIF text and
/// as an ISO text alike, for the years after 1970 that have four digits.
pub proof fn lemma_date_folder_reads_back(y: int, m: int, d: int)
    requires
        1970 < y <= 9999,
        is_valid_date(y, m, d),
    ensures
        exif_date(ymd_text(y, m as nat, d as nat)) == Some((y as i32, m as u32, d as u32)),
        iso_date(ymd_text(y, m as nat, d as nat)) == Some((y as i32, m as u32, d as u32)),
{
    let yt = year_text(y);
    let mt = zero_padded(crate::text::decimal(m as nat), 2);
    let dt = zero_padded(crate::text::decimal(d as nat), 2);
    lemma_zero_padded_digits(y as nat, 4);
    lemma_zero_padded_digits(m as nat, 2);
    lemma_zero_padded_digits(d as nat, 2);
    assert(ymd_text(y, m as nat, d as nat) == yt + seq!['-'] + mt + seq!['-'] + dt);
    lemma_exif_date_of_digits(yt, mt, dt, '-', ' ', Seq::empty());
    lemma_iso_date_of_digits(yt, mt, dt, Seq::empty());
}

fn date_from_pieces(pieces: &Vec<Vec<char>>) -> (r: Option<Date>)
    ensures
        date_view(r) == date_of_pieces(texts_of(pieces@)),
{
    if pieces.len() < 3 {
        return None;
    }
    let ghost p = texts_of(pieces@);
    assert(pieces[0]@ == p[0] && pieces[1]@ == p[1] && pieces[2]@ == p[2]);
    let year = match parse_i32(pieces[0].as_slice()) {
        Some(y) => y,
        None => return None,
    };
    let month = match parse_u32(pieces[1].as_slice()) {
        Some(m) => m,
        None => return None,
    };
    let day = match parse_u32(pieces[2].as_slice()) {
        Some(d) => d,
        None => return None,
    };
    if year > 1970 && month >= 1 && month <= 12 && day >= 1 && day <= 31 {
        Date::from_ymd_opt(year, month, day)
    } else {
        None
    }
}

/// The first piece of `s` split at `outer`, split in turn at `inner`.
fn pieces_of_first(s: &str, outer: &[char], inner: &[char]) -> (r: Vec<Vec<char>>)
    ensures
        texts_of(r@) == split_pieces(split_pieces(s@, outer@)[0], inner@),
{
    let cs = chars_of(s);
    let parts = split_chars(cs.as_slice(), outer);
    proof {
        lemma_split_pieces_nonempty(s@, outer@);
    }
    assert(parts[0]@ == split_pieces(s@, outer@)[0]);
    split_chars(parts[0].as_slice(), inner)
}

/// Reads the date of an EXIF date-time text
/// (format `YYYY:MM:DD HH:MM:SS`, or with `-` between the date's parts).
pub fn parse_exif_datetime(datetime_str: &str) -> (r: Option<Date>)
    ensures
        date_view(r) == exif_date(datetime_str@),
{
    let outer = [' ', 'T'];
    let inner = [':', '-'];
    assert(outer@ == seq![' ', 'T']);
    assert(inner@ == seq![':', '-']);
    let pieces = pieces_of_first(datetime_str, &outer, &inner);
    date_from_pieces(&pieces)
}

/// Reads the date of an ISO 8601 date-time text
/// (format `YYYY-MM-DDTHH:MM:SS.ffffffZ`).
pub fn parse_iso_datetime(datetime_str: &str) -> (r: Option<Date>)
    ensures
        date_view(r) == iso_date(datetime_str@),
{
    let outer = ['T'];
    let inner = ['-'];
    assert(outer@ == seq!['T']);
    assert(inner@ == seq!['-']);
    let pieces = pieces_of_first(datetime_str, &outer, &inner);
    date_from_pieces(&pieces)
}

/// The date-time fields of a photo's EXIF data, each as EXIF displays it,
/// where the photo has it.
pub struct ExifDateFields {
    /// `DateTimeOriginal`: when the picture was taken.
    pub date_time_original: Option<String>,
    /// `DateTimeDigitized`: when the picture was stored digitally.
    pub date_time_digitized: Option<String>,
    /// `DateTime`: when the file was last changed.
    pub date_time: Option<String>,
}

/// The EXIF date-time tags, in the order in which a photo's date is looked
/// for.
#[derive(Clone, Copy, Debug, PartialEq, Eq)]
pub enum ExifDateTag {
    DateTimeOriginal,
    DateTimeDigitized,
    DateTime,
}

/// A date and the tag that gave it.
pub open spec fn tagged_view(r: Option<(Date, ExifDateTag)>) -> Option<((i32, u32, u32), ExifDateTag)> {
    match r {
        Some((d, t)) => Some((d@, t)),
        None => None,
    }
}

/// The texts of an optional text.
pub open spec fn opt_text(s: Option<String>) -> Option<Seq<char>> {
    match s {
        Some(s) => Some(s@),
        None => None,
    }
}

/// The three date-time texts of EXIF fields, in tag order.
pub open spec fn fields_view(f: ExifDateFields) -> (Option<Seq<char>>, Option<Seq<char>>, Option<Seq<char>>) {
    (opt_text(f.date_time_original), opt_text(f.date_time_digitized), opt_text(f.date_time))
}

/// The date named by an optional EXIF date-time text.
pub open spec fn exif_text_date(field: Option<Seq<char>>) -> Option<(i32, u32, u32)> {
    match field {
        Some(s) => exif_date(s),
        None => None,
    }
}

/// The date of a photo and the tag it came from: the first of
/// `DateTimeOriginal`, `DateTimeDigitized`, `DateTime` whose text names a
/// date.
pub open spec fn image_date(
    texts: (Option<Seq<char>>, Option<Seq<char>>, Option<Seq<char>>),
) -> Option<((i32, u32, u32), ExifDateTag)> {
    if exif_text_date(texts.0) is Some {
        Some((exif_text_date(texts.0)->0, ExifDateTag::DateTimeOriginal))
    } else if exif_text_date(texts.1) is Some {
        Some((exif_text_date(texts.1)->0, ExifDateTag::DateTimeDigitized))
    } else if exif_text_date(texts.2) is Some {
        Some((exif_text_date(texts.2)->0, ExifDateTag::DateTime))
    } else {
        None
    }
}

/// A photo's date comes from the first of `DateTimeOriginal`,
/// `DateTimeDigitized` and `DateTime`, in that order, whose text names a
/// date, whether the earlier fields are missing or unreadable; a later field
/// is never preferred to an earlier one that names a date; with none, the
/// photo has no EXIF date.
pub proof fn lemma_image_date_first_named(
    texts: (Option<Seq<char>>, Option<Seq<char>>, Option<Seq<char>>),
)
    ensures
        exif_text_date(texts.0) is Some ==> image_date(texts) == Some(
            (exif_text_date(texts.0)->0, ExifDateTag::DateTimeOriginal),
        ),
        exif_text_date(texts.0) is None && exif_text_date(texts.1) is Some ==> image_date(texts)
            == Some((exif_text_date(texts.1)->0, ExifDateTag::DateTimeDigitized)),
        exif_text_date(texts.0) is None && exif_text_date(texts.1) is None && exif_text_date(
            texts.2,
        ) is Some ==> image_date(texts) == Some(
            (exif_text_date(texts.2)->0, ExifDateTag::DateTime),
        ),
        exif_text_date(texts.0) is None && exif_text_date(texts.1) is None && exif_text_date(
            texts.2,
        ) is None ==> image_date(texts) is None,
        image_date(texts) matches Some((d, tag)) ==> match tag {
            ExifDateTag::DateTimeOriginal => exif_text_date(texts.0) == Some(d),
            ExifDateTag::DateTimeDigitized => exif_text_date(texts.0) is None && exif_text_date(
                texts.1,
            ) == Some(d),
            ExifDateTag::DateTime => exif_text_date(texts.0) is None && exif_text_date(texts.1)
                is None && exif_text_date(texts.2) == Some(d),
        },
{
}

fn field_date(field: &Option<String>) -> (r: Option<Date>)
    ensures
        date_view(r) == exif_text_date(opt_text(*field)),
{
    match field {
        Some(s) => parse_exif_datetime(s.as_str()),
        None => None,
    }
}

/// The date a photo was taken and the tag it came from, read from its EXIF
/// date fields.
pub fn extract_image_date(fields: &ExifDateFields) -> (r: Option<(Date, ExifDateTag)>)
    ensures
        tagged_view(r) == image_date(fields_view(*fields)),
{
    if let Some(d) = field_date(&fields.date_time_original) {
        return Some((d, ExifDateTag::DateTimeOriginal));
    }
    if let Some(d) = field_date(&fields.date_time_digitized) {
        return Some((d, ExifDateTag::DateTimeDigitized));
    }
    match field_date(&fields.date_time) {
        Some(d) => Some((d, ExifDateTag::DateTime)),
        None => None,
    }
}

/// The texts that the `exif` crate displays for the tags `DateTimeOriginal`,
/// `DateTimeDigitized` and `DateTime` of the primary image of an image file
/// whose bytes are `container`, where it reads EXIF data from them.
pub uninterp spec fn exif_date_texts(container: Seq<u8>) -> Option<
    (Option<Seq<char>>, Option<Seq<char>>, Option<Seq<char>>),
>;

/// `exif::Reader::read_from_container` on the bytes of an image file, then
/// `get_field(tag, In::PRIMARY)` and `display_value().to_string()` for each
/// date-time tag: `None` where no EXIF data can be read from the bytes.
#[verifier::external_body]
fn read_exif_date_fields(container: &[u8]) -> (r: Option<ExifDateFields>)
    ensures
        match r {
            Some(f) => exif_date_texts(container@) == Some(fields_view(f)),
            None => exif_date_texts(container@) is None,
        },
{
    let exif = match exif::Reader::new().read_from_container(&mut std::io::Cursor::new(container)) {
        Ok(e) => e,
        Err(_) => return None,
    };
    let text = |tag| exif.get_field(tag, exif::In::PRIMARY).map(|f| f.display_value().to_string());
    Some(ExifDateFields {
        date_time_original: text(exif::Tag::DateTimeOriginal),
        date_time_digitized: text(exif::Tag::DateTimeDigitized),
        date_time: text(exif::Tag::DateTime),
    })
}

/// The date a photo was taken and the EXIF tag it came from, from the bytes
/// of the image file: `None` where they hold no EXIF data or no date tag
/// names a date.
pub fn image_date_of_container(container: &[u8]) -> (r: Option<(Date, ExifDateTag)>)
    ensures
        match exif_date_texts(container@) {
            Some(texts) => tagged_view(r) == image_date(texts),
            None => r is None,
        },
{
    match read_exif_date_fields(container) {
        Some(fields) => extract_image_date(&fields),
        None => None,
    }
}

/// The tags of the container format that `ffprobe` reports.
pub struct FfprobeTags {
    /// The `creation_time` tag.
    pub creation_time: Option<String>,
}

/// The container format that `ffprobe` reports.
pub struct FfprobeFormat {
    /// Its tags.
    pub tags: Option<FfprobeTags>,
}

/// What `ffprobe -print_format json -show_entries format_tags=creation_time`
/// reports of a video.
pub struct FfprobeOutput {
    /// The container format.
    pub format: Option<FfprobeFormat>,
}

/// The `creation_time` tag of a report, where it has one.
pub open spec fn creation_time(probe: FfprobeOutput) -> Option<String> {
    match probe.format {
        Some(f) => match f.tags {
            Some(t) => t.creation_time,
            None => None,
        },
        None => None,
    }
}

/// The date a video was made: that of its `creation_time` tag, read as an
/// ISO 8601 date-time.
pub open spec fn video_date(probe: FfprobeOutput) -> Option<(i32, u32, u32)> {
    match creation_time(probe) {
        Some(s) => iso_date(s@),
        None => None,
    }
}

/// The date a video was made, read from what `ffprobe` reports of it.
pub fn extract_video_date(probe: &FfprobeOutput) -> (r: Option<Date>)
    ensures
        date_view(r) == video_date(*probe),
{
    match &probe.format {
        Some(f) => match &f.tags {
            Some(t) => match &t.creation_time {
                Some(s) => parse_iso_datetime(s.as_str()),
                None => None,
            },
            None => None,
        },
        None => None,
    }
}

/// The arguments of the `ffprobe` run that reports a video's creation time.
pub fn ffprobe_date_args(path: &str) -> (r: Vec<String>)
    ensures
        r@.len() == 7,
        r@[0]@ == "-v"@,
        r@[1]@ == "quiet"@,
        r@[2]@ == "-print_format"@,
        r@[3]@ == "json"@,
        r@[4]@ == "-show_entries"@,
        r@[5]@ == "format_tags=creation_time"@,
        r@[6]@ == path@,
{
    let mut r: Vec<String> = Vec::new();
    r.push(String::from_str("-v"));
    r.push(String::from_str("quiet"));
    r.push(String::from_str("-print_format"));
    r.push(String::from_str("json"));
    r.push(String::from_str("-show_entries"));
    r.push(String::from_str("format_tags=creation_time"));
    r.push(String::from_str(path));
    r
}

/// The UTC day of a file's modification time, given in whole seconds since
/// 1970-01-01 00:00:00 UTC (rounded down), `None` where that day lies
/// outside the range of the calendar.
pub fn extract_file_modified_date(modified_secs: i64) -> (r: Option<Date>)
    ensures
        r is None <==> (modified_secs / 86400 < days_from_civil(min_year(), 1, 1) || modified_secs
            / 86400 > days_from_civil(max_year(), 12, 31)),
        r matches Some(d) ==> days_from_civil(d@.0 as int, d@.1 as int, d@.2 as int)
            == modified_secs / 86400,
        r matches Some(d) ==> is_valid_date(d@.0 as int, d@.1 as int, d@.2 as int),
{
    utc_date_of_timestamp(modified_secs)
}

/// Where a medium's own metadata gave its date.
#[derive(Clone, Copy, Debug, PartialEq, Eq)]
pub enum DateOrigin {
    /// The `creation_time` tag that `ffprobe` reports for a video.
    Ffprobe,
    /// This EXIF tag of a photo.
    Exif(ExifDateTag),
}

/// The name of where a date was found: the metadata tag it came from, or
/// (for `None`) the file's modification time.
pub open spec fn date_source(origin: Option<DateOrigin>) -> Seq<char> {
    match origin {
        Some(DateOrigin::Ffprobe) => "ffprobe creation_time"@,
        Some(DateOrigin::Exif(ExifDateTag::DateTimeOriginal)) => "EXIF DateTimeOriginal"@,
        Some(DateOrigin::Exif(ExifDateTag::DateTimeDigitized)) => "EXIF DateTimeDigitized"@,
        Some(DateOrigin::Exif(ExifDateTag::DateTime)) => "EXIF DateTime"@,
        None => "文件修改时间"@,
    }
}

/// The name of where a medium's date was found in its metadata.
pub fn origin_label(origin: DateOrigin) -> (r: &'static str)
    ensures
        r@ == date_source(Some(origin)),
{
    match origin {
        DateOrigin::Ffprobe => "ffprobe creation_time",
        DateOrigin::Exif(ExifDateTag::DateTimeOriginal) => "EXIF DateTimeOriginal",
        DateOrigin::Exif(ExifDateTag::DateTimeDigitized) => "EXIF DateTimeDigitized",
        DateOrigin::Exif(ExifDateTag::DateTime) => "EXIF DateTime",
    }
}

/// The creation date of a file and where it was found: the date in its media
/// metadata where there is one (named after the tag it came from), else the
/// day it was last modified where that is known, else none.
pub fn extract_creation_date(
    media_date: Option<(Date, DateOrigin)>,
    file_modified_date: Option<Date>,
) -> (r: Option<(Date, &'static str)>)
    ensures
        media_date matches Some((d, o)) ==> (r matches Some((e, src)) && e@ == d@ && src@
            == date_source(Some(o))),
        media_date is None ==> match file_modified_date {
            Some(d) => r matches Some((e, src)) && e@ == d@ && src@ == date_source(None),
            None => r is None,
        },
{
    if let Some((date, origin)) = media_date {
        return Some((date, origin_label(origin)));
    }
    if let Some(date) = file_modified_date {
        return Some((date, "文件修改时间"));
    }
    None
}

} // verus!
