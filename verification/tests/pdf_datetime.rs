use pdf_date::{Error, Object, PdfDateTime, StringFormat};

fn parse(text: &str) -> Result<PdfDateTime, Error> {
    Object::string_literal(text)
        .as_datetime()
        .expect("a literal string is a datetime candidate")
        .try_into()
}

#[test]
fn a_full_date_keeps_the_offset_it_was_written_with() {
    let date = parse("D:20260710143000+02'00'").unwrap();
    assert_eq!(
        date,
        PdfDateTime {
            year: 2026,
            month: 7,
            day: 10,
            hour: 14,
            minute: 30,
            second: 0,
            utc_offset_minutes: Some(120),
        }
    );
    // Not shifted to UTC, and not to the local zone either.
    assert_eq!(date.to_string(), "D:20260710143000+02'00'");
}

#[test]
fn a_western_offset_is_negative() {
    let date = parse("D:20260710143000-05'30'").unwrap();
    assert_eq!(date.utc_offset_minutes, Some(-330));
    assert_eq!(date.to_string(), "D:20260710143000-05'30'");
}

#[test]
fn absent_fields_take_their_documented_defaults() {
    // Only the year is required; month and day default to 01 and
    // the time to 00.
    assert_eq!(parse("D:2026").unwrap().to_string(), "D:20260101000000");
    assert_eq!(parse("D:202607").unwrap().to_string(), "D:20260701000000");
    assert_eq!(parse("D:20260710").unwrap().to_string(), "D:20260710000000");
    assert_eq!(parse("D:2026071014").unwrap().to_string(), "D:20260710140000");
}

#[test]
fn an_absent_offset_stays_absent() {
    assert_eq!(parse("D:20260710143000").unwrap().utc_offset_minutes, None);
    assert_eq!(parse("D:20260710143000").unwrap().to_string(), "D:20260710143000");
}

#[test]
fn a_z_suffix_reads_as_zero() {
    let date = parse("D:20260710143000Z").unwrap();
    assert_eq!(date.utc_offset_minutes, Some(0));
    // The same instant, spelled the way the offset form spells it.
    assert_eq!(date.to_string(), "D:20260710143000+00'00'");
}

#[test]
fn a_malformed_date_is_rejected_rather_than_guessed() {
    for bad in [
        "D:20x6",                // not digits where the year is due
        "D:",                    // nothing at all
        "D:20261510",            // month 15
        "D:20260732",            // day 32
        "D:20260710250000",      // hour 25
        "D:20260710146000",      // minute 60
        "D:20260710143099",      // second 99
        "D:20260710143000+2500", // offset hour 25
        "D:20260710143000*0200", // not a relation
    ] {
        assert!(parse(bad).is_err(), "should reject {bad:?}");
    }
}

#[test]
fn the_prefix_is_not_required_because_datetime_string_filters_it() {
    // The `D`, `:` and `'` are removed wherever they appear, so a date
    // written without the prefix is accepted too.
    assert_eq!(parse("20260710").unwrap().to_string(), "D:20260710000000");
}

#[test]
fn the_object_round_trips() {
    let written = PdfDateTime {
        year: 1999,
        month: 12,
        day: 31,
        hour: 23,
        minute: 59,
        second: 59,
        utc_offset_minutes: Some(-45),
    };
    let object: Object = written.into();
    let back: PdfDateTime = object.as_datetime().unwrap().try_into().unwrap();
    assert_eq!(back, written);
}

#[test]
fn a_non_string_object_is_not_a_datetime() {
    assert!(Object::Integer(20260710).as_datetime().is_none());
}

#[test]
fn other_kinds_of_object_are_not_datetimes_either() {
    assert!(Object::Null.as_datetime().is_none());
    assert!(Object::Boolean(true).as_datetime().is_none());
    assert!(Object::Name(b"D:20260710".to_vec()).as_datetime().is_none());
    assert!(Object::Reference(1, 0).as_datetime().is_none());
}

#[test]
fn a_hexadecimal_string_carries_a_date_as_well() {
    let object = Object::String(b"D:20260710".to_vec(), StringFormat::Hexadecimal);
    let date: PdfDateTime = object.as_datetime().unwrap().try_into().unwrap();
    assert_eq!(date.to_string(), "D:20260710000000");
}

#[test]
fn bytes_that_are_not_utf8_carry_no_date() {
    let object = Object::String(vec![b'D', b':', 0xff, b'2'], StringFormat::Literal);
    assert!(object.as_datetime().is_none());
}

#[test]
fn string_literal_holds_the_bytes_of_the_text() {
    match Object::string_literal("D:2026") {
        Object::String(bytes, format) => {
            assert_eq!(bytes, b"D:2026".to_vec());
            assert_eq!(format, StringFormat::Literal);
        }
        other => panic!("expected a string literal, got {other:?}"),
    }
}

#[test]
fn the_error_quotes_the_text_without_its_markers() {
    match parse("D:20x6") {
        Err(Error::Syntax(message)) => assert_eq!(message, "invalid PDF date \"20x6\""),
        other => panic!("expected a syntax error, got {other:?}"),
    }
}

#[test]
fn an_offset_without_minutes_reads_as_whole_hours() {
    let date = parse("D:20260710143000+02").unwrap();
    assert_eq!(date.utc_offset_minutes, Some(120));
    assert_eq!(date.to_string(), "D:20260710143000+02'00'");
}

#[test]
fn an_offset_needs_its_hours() {
    assert!(parse("D:20260710143000+").is_err());
    assert!(parse("D:20260710143000-5").is_err());
    assert!(parse("D:20260710143000+0260").is_err());
}

#[test]
fn what_follows_the_relation_is_not_read() {
    let date = parse("D:20260710143000Zjunk").unwrap();
    assert_eq!(date.utc_offset_minutes, Some(0));
    let date = parse("D:20260710143000+0130xyz").unwrap();
    assert_eq!(date.utc_offset_minutes, Some(90));
}

#[test]
fn a_half_field_ends_the_date_and_is_then_malformed() {
    // One digit where the month is due: the fields end at the year, and
    // the `7` is no relation to UT.
    assert!(parse("D:20267").is_err());
}

#[test]
fn day_zero_and_month_zero_are_rejected() {
    assert!(parse("D:20260010").is_err());
    assert!(parse("D:20260700").is_err());
}

#[test]
fn the_edges_of_each_range_are_accepted() {
    let date = parse("D:00000101000000-23'59'").unwrap();
    assert_eq!(date.year, 0);
    assert_eq!(date.utc_offset_minutes, Some(-1439));
    let date = parse("D:99991231235959+23'59'").unwrap();
    assert_eq!(
        date,
        PdfDateTime {
            year: 9999,
            month: 12,
            day: 31,
            hour: 23,
            minute: 59,
            second: 59,
            utc_offset_minutes: Some(1439),
        }
    );
}

#[test]
fn writing_pads_each_field() {
    let date = PdfDateTime {
        year: 7,
        month: 1,
        day: 2,
        hour: 3,
        minute: 4,
        second: 5,
        utc_offset_minutes: Some(-5),
    };
    assert_eq!(date.to_string(), "D:00070102030405-00'05'");
}

#[test]
fn writing_an_out_of_range_date_uses_as_many_digits_as_needed() {
    let date = PdfDateTime {
        year: 12345,
        month: 100,
        day: 1,
        hour: 0,
        minute: 0,
        second: 0,
        utc_offset_minutes: None,
    };
    assert_eq!(date.to_string(), "D:1234510001000000");
}

#[test]
fn the_object_of_a_date_is_its_pdf_form() {
    let date = PdfDateTime {
        year: 2026,
        month: 7,
        day: 10,
        hour: 14,
        minute: 30,
        second: 0,
        utc_offset_minutes: Some(120),
    };
    let object: Object = date.into();
    assert_eq!(
        object,
        Object::String(b"D:20260710143000+02'00'".to_vec(), StringFormat::Literal)
    );
}

#[test]
fn reading_a_written_date_again_gives_the_same_text() {
    for text in ["D:2026", "D:20260710143000Z", "D:199812231952-08'00'", "D:20040229"] {
        let date = parse(text).unwrap();
        let again = parse(&date.to_string()).unwrap();
        assert_eq!(again, date);
        assert_eq!(again.to_string(), date.to_string());
    }
}
