use jiff::Zoned;
use pdf_date::{DateTime, Object, StringFormat};
use time::{Date, Month, OffsetDateTime, PrimitiveDateTime, Time, UtcOffset};

fn date_text(text: &str) -> DateTime {
    Object::string_literal(text).as_datetime().unwrap()
}

#[test]
fn parse_datetime_seconds_missing_chrono() {
    // this is the example from the PDF reference, version 1.7, chapter 3.8.3
    let text = Object::string_literal("D:199812231952-08'00'");
    let dt = text.as_datetime().and_then(|dt| dt.chrono_parts().ok());
    assert!(dt.is_some());
}

#[test]
fn parse_datetime_time_missing_chrono() {
    let text = Object::string_literal("D:20040229");
    let dt = text.as_datetime().and_then(|dt| dt.chrono_parts().ok());
    assert!(dt.is_some());
}

#[test]
fn chrono_reads_the_instant_and_the_offset_written() {
    let (utc, offset) = date_text("D:199812231952-08'00'").chrono_parts().unwrap();
    assert_eq!(utc.to_string(), "1998-12-24 03:52:00");
    assert_eq!(offset.local_minus_utc(), -8 * 3600);
    let (utc, offset) = date_text("D:20260710143015+02'00'").chrono_parts().unwrap();
    assert_eq!(utc.to_string(), "2026-07-10 12:30:15");
    assert_eq!(offset.local_minus_utc(), 2 * 3600);
}

#[test]
fn chrono_reads_a_bare_date_as_midnight_utc() {
    let (utc, offset) = date_text("D:20040229").chrono_parts().unwrap();
    assert_eq!(utc.to_string(), "2004-02-29 00:00:00");
    assert_eq!(offset.local_minus_utc(), 0);
}

#[test]
fn chrono_rejects_what_none_of_its_forms_reads() {
    assert!(date_text("D:2004").chrono_parts().is_err());
    assert!(date_text("D:20040230").chrono_parts().is_err());
}

#[test]
fn parse_zoned() {
    let time = Zoned::now().with().subsec_nanosecond(0).build().unwrap();
    let text: Object = time.clone().into();
    let time2: Option<Zoned> = text.as_datetime().and_then(|dt| dt.try_into().ok());
    assert_eq!(time2, Some(time));
}

#[test]
fn parse_timestamp() {
    let time = Zoned::now().with().subsec_nanosecond(0).build().unwrap();
    let text: Object = time.timestamp().into();
    let time2: Option<Zoned> = text.as_datetime().and_then(|dt| dt.try_into().ok());
    assert_eq!(time2, Some(time));
}

#[test]
fn parse_datetime_seconds_missing_jiff() {
    // this is the example from the PDF reference, version 1.7, chapter 3.8.3
    let text = Object::string_literal("D:199812231952-08'00'");
    let dt: Option<Zoned> = text.as_datetime().and_then(|dt| dt.try_into().ok());
    assert!(dt.is_some());
}

#[test]
fn parse_datetime_time_missing_jiff() {
    let text = Object::string_literal("D:20040229");
    let dt: Option<Zoned> = text.as_datetime().and_then(|dt| dt.try_into().ok());
    assert!(dt.is_some());
}

#[test]
fn jiff_writes_the_offset_in_pdf_form() {
    let zoned: jiff::Zoned = "2026-07-10T14:30:00+02:00[+02:00]".parse().unwrap();
    let object: Object = zoned.into();
    assert_eq!(
        object,
        Object::String(b"D:20260710143000+02'00'".to_vec(), StringFormat::Literal)
    );
}

#[test]
fn jiff_writes_a_timestamp_at_ut() {
    let stamp: jiff::Timestamp = "2026-07-10T12:30:00Z".parse().unwrap();
    let object: Object = stamp.into();
    assert_eq!(object, Object::String(b"D:20260710123000Z".to_vec(), StringFormat::Literal));
}

#[test]
fn jiff_reads_the_offset_written() {
    let zoned: jiff::Zoned = date_text("D:20260710143000+02'00'").try_into().unwrap();
    assert_eq!(zoned.offset().seconds(), 2 * 3600);
    assert_eq!(zoned.timestamp().to_string(), "2026-07-10T12:30:00Z");
}

#[test]
fn jiff_rejects_what_none_of_its_forms_reads() {
    let zoned: Result<jiff::Zoned, _> = date_text("D:2026").try_into();
    assert!(zoned.is_err());
}

#[test]
fn format_primitive_datetime_as_utc() {
    // The example date from the PDF reference (1.7, §3.8.3), as a naive
    // datetime: it must serialize with the year first and the `Z` suffix.
    let date = Date::from_calendar_date(1998, Month::December, 23).unwrap();
    let time = Time::from_hms(19, 52, 0).unwrap();
    let text: Object = PrimitiveDateTime::new(date, time).into();
    match &text {
        Object::String(bytes, _) => assert_eq!(bytes.as_slice(), b"D:19981223195200Z"),
        other => panic!("expected a string literal, got {other:?}"),
    }
}

#[test]
fn parse_datetime() {
    let time = OffsetDateTime::now_utc();

    let text: Object = time.into();
    let time2: OffsetDateTime = text.as_datetime().unwrap().try_into().unwrap();

    assert_eq!(time2.date(), time.date());

    // Ignore nanoseconds
    // - not important in the date parsing
    assert_eq!(time2.time().hour(), time.time().hour());
    assert_eq!(time2.time().minute(), time.time().minute());
    assert_eq!(time2.time().second(), time.time().second());
}

#[test]
fn time_writes_the_offset_in_pdf_form() {
    let date = Date::from_calendar_date(2026, Month::July, 10).unwrap();
    let time = Time::from_hms(14, 30, 0).unwrap();
    let offset = UtcOffset::from_hms(-5, -30, 0).unwrap();
    let text: Object = PrimitiveDateTime::new(date, time).assume_offset(offset).into();
    assert_eq!(text, Object::String(b"D:20260710143000-05'30'".to_vec(), StringFormat::Literal));
}

#[test]
fn time_needs_the_full_form() {
    let full: Result<time::OffsetDateTime, _> = date_text("D:20260710143000+02'00'").try_into();
    assert_eq!(full.unwrap().offset().whole_hours(), 2);
    let short: Result<time::OffsetDateTime, _> = date_text("D:20260710").try_into();
    assert!(short.is_err());
}

#[test]
fn an_offset_from_a_date_library_gets_its_apostrophe() {
    let object = Object::from_offset_text("D:20260710143000+02:00'");
    assert_eq!(
        object,
        Object::String(b"D:20260710143000+02'00'".to_vec(), StringFormat::Literal)
    );
    // With no offset, the last `:` is the prefix's.
    let object = Object::from_offset_text("D:20260710143000Z");
    assert_eq!(object, Object::String(b"D'20260710143000Z".to_vec(), StringFormat::Literal));
    let object = Object::from_offset_text("20260710");
    assert_eq!(object, Object::String(b"20260710".to_vec(), StringFormat::Literal));
    let object = Object::from_offset_text("a:b:c");
    assert_eq!(object, Object::String(b"a:b'c".to_vec(), StringFormat::Literal));
}
