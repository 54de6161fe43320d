use agy_search::antigravity_version::{minimum_supported_version, require_supported_output, AgyVersion};
use agy_search::calendar_date::CalendarDate;
use agy_search::error::AgyError;
use agy_search::source_date::parse;

fn parsed(value: &str) -> Result<String, &'static str> {
    parse(value).map(|date| date.as_str().to_owned())
}

#[test]
fn calendar_date_checks_real_days() {
    assert!(CalendarDate::parse("2024-02-29").is_ok());
    assert!(CalendarDate::parse("2026-02-29").is_err());
    assert!(CalendarDate::parse("2026-13-01").is_err());
    assert!(CalendarDate::parse("August 3, 2026").is_err());
}

#[test]
fn calendar_date_reports_each_refusal() {
    assert_eq!(CalendarDate::parse("2026/08/03"), Err("date must use YYYY-MM-DD"));
    assert_eq!(CalendarDate::parse("2026-0a-03"), Err("date must use ASCII decimal digits"));
    assert_eq!(CalendarDate::parse("0000-01-01"), Err("date must be a valid calendar day"));
    assert_eq!(CalendarDate::parse("1900-02-29"), Err("date must be a valid calendar day"));
    assert_eq!(CalendarDate::parse("2000-02-29").map(|d| d.as_str().to_owned()), Ok("2000-02-29".to_owned()));
    assert_eq!(CalendarDate::parse("2026-04-31"), Err("date must be a valid calendar day"));
    assert_eq!(CalendarDate::parse("2026-12-31").map(|d| d.as_str().to_owned()), Ok("2026-12-31".to_owned()));
}

#[test]
fn parses_korean_full_date() {
    assert_eq!(parsed("2026년 8월 6일"), Ok("2026-08-06".to_owned()));
}

#[test]
fn parses_iso_datetime_with_explicit_offset() {
    assert_eq!(parsed("2026-08-06T10:21:18+09:00"), Ok("2026-08-06".to_owned()));
}

#[test]
fn rejects_iso_datetime_without_a_valid_explicit_zone() {
    for value in [
        "2026-08-06T10:21:18",
        "2026-08-06T25:21:18+09:00",
        "2026-08-06T10:61:18+09:00",
        "2026-08-06T10:21:61+09:00",
        "2026-08-06T10:21:18+25:00",
        "2026-08-06T10:21:18+09:99",
        "2026-08-06T10:21:18+09:00junk",
    ] {
        assert!(parse(value).is_err(), "accepted invalid datetime: {value}");
    }
}

#[test]
fn rejects_incomplete_korean_date() {
    assert!(parse("2026년 8월").is_err());
}

#[test]
fn rejects_invalid_korean_month_and_day() {
    assert!(parse("2026년 13월 6일").is_err());
    assert!(parse("2026년 8월 32일").is_err());
}

#[test]
fn rejects_non_ascii_korean_date_digits() {
    assert!(parse("２０２６년 ８월 ６일").is_err());
}

#[test]
fn source_dates_cover_every_accepted_spelling() {
    assert_eq!(parsed("  2026-08-03 \n"), Ok("2026-08-03".to_owned()));
    assert_eq!(parsed("August 3, 2026"), Ok("2026-08-03".to_owned()));
    assert_eq!(parsed("December 31, 1999"), Ok("1999-12-31".to_owned()));
    assert_eq!(parsed("2026-08-06T10:21:18Z"), Ok("2026-08-06".to_owned()));
    assert_eq!(parsed("2026-08-06T10:21:18.250-05:30"), Ok("2026-08-06".to_owned()));
    assert_eq!(parsed("1999년 6월 1일"), Ok("1999-06-01".to_owned()));
}

#[test]
fn source_dates_report_each_refusal() {
    assert_eq!(parsed("February 2013"), Err("source date must be ISO or an unambiguous English date"));
    assert_eq!(parsed("Agosto 3, 2026"), Err("source month was not recognized"));
    assert_eq!(parsed("August 3 2026"), Err("source day was invalid"));
    assert_eq!(parsed("August 3, 20x6"), Err("source year was invalid"));
    assert_eq!(parsed("February 30, 2026"), Err("date must be a valid calendar day"));
    assert_eq!(parsed("2026-08-06T10:21:18"), Err("source datetime requires an explicit zone"));
    assert_eq!(parsed("2026-08-06T10:21+09:00"), Err("source datetime second was missing"));
    assert_eq!(parsed("2026-08-06T10:21:18:00Z"), Err("source datetime clock had extra fields"));
    assert_eq!(parsed("2026-08-06T10:21:18.Z"), Err("source datetime fraction was invalid"));
    assert_eq!(parsed("2026-08-06T10:21:18+09:00:00"), Err("source datetime zone had extra fields"));
    assert_eq!(parsed("2026년 8월"), Err("source date must be a complete Korean date"));
    assert_eq!(parsed("26년 8월 6일"), Err("source year must use four ASCII digits"));
    assert_eq!(parsed("2026년 008월 6일"), Err("source month must use ASCII digits"));
    assert_eq!(parsed("2026년 8월 6"), Err("source day must use ASCII digits"));
}

#[test]
fn parses_semantic_official_release_versions() {
    let minimum = minimum_supported_version();
    assert!(matches!(
        AgyVersion::parse_output(b"1.1.10\n"),
        Ok(version) if version == AgyVersion::new(1, 1, 10)
    ));
    assert!(AgyVersion::parse_output(b"1.1.9\n").is_ok_and(|version| version < minimum));
    assert!(AgyVersion::parse_output(b"2.0.0\r\n").is_ok_and(|version| version > minimum));
}

#[test]
fn rejects_non_official_or_ambiguous_release_payloads() {
    for output in [
        b"agy 1.1.10\n".as_slice(),
        b"1.1\n",
        b"1.1.10-rc.1\n",
        b"1.01.10\n",
        b"1.1.10\nextra\n",
    ] {
        assert!(matches!(AgyVersion::parse_output(output), Err(AgyError::OutputInvalid)));
    }
}

#[test]
fn release_preflight_accepts_only_supported_versions() {
    assert_eq!(require_supported_output(b"1.1.10\n"), Ok(AgyVersion::new(1, 1, 10)));
    assert_eq!(require_supported_output(b"1.2.0\n"), Ok(AgyVersion::new(1, 2, 0)));
    assert_eq!(require_supported_output(b"1.1.9\n"), Err(AgyError::OutputInvalid));
    assert_eq!(require_supported_output(b"18446744073709551616.0.0\n"), Err(AgyError::OutputInvalid));
    assert_eq!(require_supported_output(b"1.1.10"), Err(AgyError::OutputInvalid));
}

#[test]
fn error_exit_codes_are_stable() {
    assert_eq!(AgyError::InvalidCommand.exit_code(), 2);
    assert_eq!(AgyError::OutputWrite.exit_code(), 2);
    assert_eq!(AgyError::Unavailable.exit_code(), 3);
    assert_eq!(AgyError::Timeout.exit_code(), 4);
    assert_eq!(AgyError::ProcessFailed.exit_code(), 5);
    assert_eq!(AgyError::OutputInvalid.exit_code(), 6);
    assert_eq!(AgyError::UnknownModel.exit_code(), 7);
}

#[test]
fn printed_version_text_parses_back() {
    let version = AgyVersion::new(1, 20, 3);
    assert_eq!(version.to_text(), "1.20.3");
    let line = format!("{}\n", version.to_text());
    assert_eq!(AgyVersion::parse_output(line.as_bytes()), Ok(version));
    let crlf = format!("{}\r\n", AgyVersion::new(0, 0, 10).to_text());
    assert_eq!(AgyVersion::parse_output(crlf.as_bytes()), Ok(AgyVersion::new(0, 0, 10)));
}

use agy_search::calendar_date::component;
use agy_search::source_date::{parse_iso_datetime, parse_korean_component};
use agy_search::source_document_html::tokenizer::tag_end;

fn chars(s: &str) -> Vec<char> {
    s.chars().collect()
}

#[test]
fn date_components_read_digit_runs_that_fit() {
    assert_eq!(component(b"2024-03-05", 0..4), Ok(2024));
    assert_eq!(component(b"2024-03-05", 5..7), Ok(3));
    assert_eq!(component(b"0065535", 0..7), Ok(65535));
    assert_eq!(component(b"65536", 0..5), Err("date must use ASCII decimal digits"));
    assert_eq!(component(b"2024", 2..2), Err("date must use ASCII decimal digits"));
    assert_eq!(component(b"2024", 3..9), Err("date must use ASCII decimal digits"));
    assert_eq!(component(b"20a4", 0..4), Err("date must use ASCII decimal digits"));
}

#[test]
fn korean_components_need_their_suffix_and_digit_count() {
    assert_eq!(parse_korean_component(&chars("2024년"), '년', 4, 4), Some(2024));
    assert_eq!(parse_korean_component(&chars("3월"), '월', 1, 2), Some(3));
    assert_eq!(parse_korean_component(&chars("123월"), '월', 1, 2), None);
    assert_eq!(parse_korean_component(&chars("3일"), '월', 1, 2), None);
    assert_eq!(parse_korean_component(&chars("일"), '일', 0, 2), None);
    assert_eq!(parse_korean_component(&chars("65535일"), '일', 1, 6), Some(65535));
    assert_eq!(parse_korean_component(&chars("65536일"), '일', 1, 6), None);
    assert_eq!(parse_korean_component(&chars("+5일"), '일', 1, 2), None);
}

#[test]
fn iso_datetimes_need_a_clock_after_the_date() {
    let text = chars("2024-03-05T10:20:30Z");
    assert_eq!(parse_iso_datetime(&text, 10).map(|d| d.as_str().to_owned()), Ok("2024-03-05".to_owned()));
    assert_eq!(parse_iso_datetime(&text, 40).map(|d| d.as_str().to_owned()), Err("source datetime clock was incomplete"));
}

#[test]
fn a_tag_ends_at_its_first_unquoted_closing_bracket() {
    let html = chars("<a title=\"x>y\">text");
    assert_eq!(tag_end(&html, 0), Ok(15));
    assert!(tag_end(&html, 30).is_err());
    assert!(tag_end(&chars("<a <b>"), 0).is_err());
}
