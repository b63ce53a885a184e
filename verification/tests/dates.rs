use media_organizer::date::Date;
use media_organizer::metadata::{
    extract_creation_date, extract_file_modified_date, extract_image_date, extract_video_date,
    ffprobe_date_args, image_date_of_container, parse_exif_datetime, parse_iso_datetime,
    DateOrigin, ExifDateFields, ExifDateTag, FfprobeFormat, FfprobeOutput, FfprobeTags,
};

fn tagged(d: &Option<(Date, ExifDateTag)>) -> Option<((i32, u32, u32), ExifDateTag)> {
    d.as_ref().map(|(d, t)| ((d.year(), d.month(), d.day()), *t))
}

fn ymd(d: &Option<Date>) -> Option<(i32, u32, u32)> {
    d.as_ref().map(|d| (d.year(), d.month(), d.day()))
}

#[test]
fn exif_datetime_with_colons() {
    assert_eq!(ymd(&parse_exif_datetime("2024:01:15 10:30:45")), Some((2024, 1, 15)));
}

#[test]
fn exif_datetime_with_dashes() {
    assert_eq!(ymd(&parse_exif_datetime("2024-01-15 10:30:45")), Some((2024, 1, 15)));
}

#[test]
fn exif_datetime_with_t_separator() {
    assert_eq!(ymd(&parse_exif_datetime("2023-12-31T23:59:59")), Some((2023, 12, 31)));
}

#[test]
fn exif_datetime_date_only() {
    assert_eq!(ymd(&parse_exif_datetime("2020:02:29")), Some((2020, 2, 29)));
}

#[test]
fn exif_datetime_rejects_1970_and_earlier() {
    assert_eq!(ymd(&parse_exif_datetime("1970:06:01 00:00:00")), None);
    assert_eq!(ymd(&parse_exif_datetime("1969:06:01 00:00:00")), None);
    assert_eq!(ymd(&parse_exif_datetime("1971:01:01 00:00:00")), Some((1971, 1, 1)));
}

#[test]
fn exif_datetime_rejects_impossible_days() {
    assert_eq!(ymd(&parse_exif_datetime("2023:02:29 00:00:00")), None);
    assert_eq!(ymd(&parse_exif_datetime("2023:04:31 00:00:00")), None);
    assert_eq!(ymd(&parse_exif_datetime("2023:13:01 00:00:00")), None);
    assert_eq!(ymd(&parse_exif_datetime("2023:00:10 00:00:00")), None);
    assert_eq!(ymd(&parse_exif_datetime("2023:01:00 00:00:00")), None);
    assert_eq!(ymd(&parse_exif_datetime("2023:01:32 00:00:00")), None);
}

#[test]
fn exif_datetime_rejects_malformed_text() {
    assert_eq!(ymd(&parse_exif_datetime("")), None);
    assert_eq!(ymd(&parse_exif_datetime("2024:01")), None);
    assert_eq!(ymd(&parse_exif_datetime("abcd:01:15 10:30:45")), None);
    assert_eq!(ymd(&parse_exif_datetime(" 2024:01:15")), None);
    assert_eq!(ymd(&parse_exif_datetime("2024::15")), None);
    assert_eq!(ymd(&parse_exif_datetime("99999999999:01:15")), None);
}

#[test]
fn exif_datetime_accepts_plus_signs_as_str_parse_does() {
    assert_eq!(ymd(&parse_exif_datetime("+2024:+01:+15")), Some((2024, 1, 15)));
    assert_eq!(ymd(&parse_exif_datetime("-2024:01:15")), None);
    assert_eq!(ymd(&parse_exif_datetime("2024:-1:15")), None);
}

#[test]
fn exif_datetime_extra_pieces_are_ignored() {
    assert_eq!(ymd(&parse_exif_datetime("2024:01:15:99 10:30")), Some((2024, 1, 15)));
}

#[test]
fn iso_datetime_from_ffprobe() {
    assert_eq!(ymd(&parse_iso_datetime("2024-01-15T10:30:45.000000Z")), Some((2024, 1, 15)));
}

#[test]
fn iso_datetime_rejects_colons() {
    assert_eq!(ymd(&parse_iso_datetime("2024:01:15T10:30:45")), None);
}

#[test]
fn iso_datetime_rejects_space_separator() {
    // The part before `T` is split at `-` only; the day then reads "15 10:30:45".
    assert_eq!(ymd(&parse_iso_datetime("2024-01-15 10:30:45")), None);
}

#[test]
fn iso_datetime_leap_day() {
    assert_eq!(ymd(&parse_iso_datetime("2000-02-29T00:00:00Z")), Some((2000, 2, 29)));
    assert_eq!(ymd(&parse_iso_datetime("1900-02-29T00:00:00Z")), None);
}

#[test]
fn image_date_takes_first_readable_field() {
    let fields = ExifDateFields {
        date_time_original: Some("garbage".to_string()),
        date_time_digitized: Some("2021-05-06 07:08:09".to_string()),
        date_time: Some("2022-01-01 00:00:00".to_string()),
    };
    assert_eq!(tagged(&extract_image_date(&fields)), Some(((2021, 5, 6), ExifDateTag::DateTimeDigitized)));
}

#[test]
fn image_date_prefers_original() {
    let fields = ExifDateFields {
        date_time_original: Some("2019-03-04 05:06:07".to_string()),
        date_time_digitized: Some("2021-05-06 07:08:09".to_string()),
        date_time: None,
    };
    assert_eq!(tagged(&extract_image_date(&fields)), Some(((2019, 3, 4), ExifDateTag::DateTimeOriginal)));
}

#[test]
fn image_date_none_without_fields() {
    let fields = ExifDateFields { date_time_original: None, date_time_digitized: None, date_time: None };
    assert_eq!(tagged(&extract_image_date(&fields)), None);
}

#[test]
fn video_date_from_creation_time_tag() {
    let probe = FfprobeOutput {
        format: Some(FfprobeFormat {
            tags: Some(FfprobeTags { creation_time: Some("2022-07-08T09:10:11.000000Z".to_string()) }),
        }),
    };
    assert_eq!(ymd(&extract_video_date(&probe)), Some((2022, 7, 8)));
}

#[test]
fn video_date_missing_pieces() {
    assert_eq!(ymd(&extract_video_date(&FfprobeOutput { format: None })), None);
    let no_tags = FfprobeOutput { format: Some(FfprobeFormat { tags: None }) };
    assert_eq!(ymd(&extract_video_date(&no_tags)), None);
    let no_time = FfprobeOutput {
        format: Some(FfprobeFormat { tags: Some(FfprobeTags { creation_time: None }) }),
    };
    assert_eq!(ymd(&extract_video_date(&no_time)), None);
}

#[test]
fn ffprobe_arguments() {
    let args = ffprobe_date_args("/videos/a.mp4");
    assert_eq!(
        args,
        vec!["-v", "quiet", "-print_format", "json", "-show_entries", "format_tags=creation_time", "/videos/a.mp4"]
    );
}

#[test]
fn creation_date_prefers_media_metadata() {
    let media = Date::from_ymd_opt(2020, 1, 2).map(|d| (d, DateOrigin::Ffprobe));
    let modified = Date::from_ymd_opt(2021, 3, 4);
    let r = extract_creation_date(media, modified).unwrap();
    assert_eq!((r.0.year(), r.0.month(), r.0.day(), r.1), (2020, 1, 2, "ffprobe creation_time"));
    let exif = |t| Date::from_ymd_opt(2020, 1, 2).map(|d| (d, DateOrigin::Exif(t)));
    assert_eq!(extract_creation_date(exif(ExifDateTag::DateTimeOriginal), None).unwrap().1, "EXIF DateTimeOriginal");
    assert_eq!(extract_creation_date(exif(ExifDateTag::DateTimeDigitized), None).unwrap().1, "EXIF DateTimeDigitized");
    assert_eq!(extract_creation_date(exif(ExifDateTag::DateTime), None).unwrap().1, "EXIF DateTime");
}

#[test]
fn creation_date_falls_back_to_modification_time() {
    let r = extract_creation_date(None, Date::from_ymd_opt(2021, 3, 4)).unwrap();
    assert_eq!((r.0.year(), r.0.month(), r.0.day(), r.1), (2021, 3, 4, "文件修改时间"));
    assert!(extract_creation_date(None, None).is_none());
}

fn tiff_entry(out: &mut Vec<u8>, tag: u16, typ: u16, count: u32, value: u32) {
    out.extend_from_slice(&tag.to_le_bytes());
    out.extend_from_slice(&typ.to_le_bytes());
    out.extend_from_slice(&count.to_le_bytes());
    out.extend_from_slice(&value.to_le_bytes());
}

/// A little-endian TIFF whose first IFD holds `DateTime` only.
fn tiff_with_date_time(text: &str) -> Vec<u8> {
    let mut t = b"II*\0".to_vec();
    t.extend_from_slice(&8u32.to_le_bytes());
    t.extend_from_slice(&1u16.to_le_bytes());
    tiff_entry(&mut t, 0x0132, 2, 20, 26);
    t.extend_from_slice(&0u32.to_le_bytes());
    t.extend_from_slice(text.as_bytes());
    t.push(0);
    t
}

/// A little-endian TIFF with `DateTime` in its first IFD and
/// `DateTimeOriginal` in its EXIF IFD.
fn tiff_with_original(original: &str, date_time: &str) -> Vec<u8> {
    let mut t = b"II*\0".to_vec();
    t.extend_from_slice(&8u32.to_le_bytes());
    t.extend_from_slice(&2u16.to_le_bytes());
    tiff_entry(&mut t, 0x0132, 2, 20, 76);
    tiff_entry(&mut t, 0x8769, 4, 1, 38);
    t.extend_from_slice(&0u32.to_le_bytes());
    t.extend_from_slice(&1u16.to_le_bytes());
    tiff_entry(&mut t, 0x9003, 2, 20, 56);
    t.extend_from_slice(&0u32.to_le_bytes());
    t.extend_from_slice(original.as_bytes());
    t.push(0);
    t.extend_from_slice(date_time.as_bytes());
    t.push(0);
    t
}

#[test]
fn image_date_from_file_bytes() {
    let t = tiff_with_date_time("2021:05:06 07:08:09");
    assert_eq!(tagged(&image_date_of_container(&t)), Some(((2021, 5, 6), ExifDateTag::DateTime)));
    let t = tiff_with_original("2019:03:04 05:06:07", "2022:01:01 00:00:00");
    assert_eq!(tagged(&image_date_of_container(&t)), Some(((2019, 3, 4), ExifDateTag::DateTimeOriginal)));
}

#[test]
fn image_date_of_bytes_without_exif() {
    assert_eq!(tagged(&image_date_of_container(b"not an image")), None);
    assert_eq!(tagged(&image_date_of_container(&[])), None);
}

#[test]
fn modification_day_of_timestamps() {
    assert_eq!(ymd(&extract_file_modified_date(0)), Some((1970, 1, 1)));
    assert_eq!(ymd(&extract_file_modified_date(86399)), Some((1970, 1, 1)));
    assert_eq!(ymd(&extract_file_modified_date(86400)), Some((1970, 1, 2)));
    assert_eq!(ymd(&extract_file_modified_date(-1)), Some((1969, 12, 31)));
    assert_eq!(ymd(&extract_file_modified_date(1_705_314_645)), Some((2024, 1, 15)));
    assert_eq!(ymd(&extract_file_modified_date(951_782_400)), Some((2000, 2, 29)));
}

#[test]
fn modification_day_out_of_range() {
    assert_eq!(ymd(&extract_file_modified_date(i64::MAX)), None);
    assert_eq!(ymd(&extract_file_modified_date(i64::MIN)), None);
}

#[test]
fn date_validity_follows_the_calendar() {
    assert!(Date::from_ymd_opt(2024, 2, 29).is_some());
    assert!(Date::from_ymd_opt(2023, 2, 29).is_none());
    assert!(Date::from_ymd_opt(-4, 2, 29).is_some());
    assert!(Date::from_ymd_opt(262142, 12, 31).is_some());
    assert!(Date::from_ymd_opt(262143, 1, 1).is_none());
    assert!(Date::from_ymd_opt(-262143, 1, 1).is_some());
    assert!(Date::from_ymd_opt(-262144, 12, 31).is_none());
}

#[test]
fn date_text_is_year_month_day() {
    assert_eq!(Date::from_ymd_opt(2024, 1, 5).unwrap().format_ymd(), "2024-01-05");
    assert_eq!(Date::from_ymd_opt(999, 12, 31).unwrap().format_ymd(), "0999-12-31");
    assert_eq!(Date::from_ymd_opt(12345, 6, 7).unwrap().format_ymd(), "+12345-06-07");
    assert_eq!(Date::from_ymd_opt(-1, 6, 7).unwrap().format_ymd(), "-0001-06-07");
}
