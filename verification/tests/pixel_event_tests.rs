use dvs::pixel_event::{EventParseError, PixelFactory, parse_i32};
use dvs::{DVS_X, DVS_Y};

fn headers(names: &[&str]) -> Vec<String> {
    names.iter().map(|s| s.to_string()).collect()
}

fn record(fields: &[&str]) -> Vec<String> {
    fields.iter().map(|s| s.to_string()).collect()
}

#[test]
fn parse_i32_plain_values() {
    assert_eq!(parse_i32("0"), Some(0));
    assert_eq!(parse_i32("123"), Some(123));
    assert_eq!(parse_i32("-123"), Some(-123));
    assert_eq!(parse_i32("+7"), Some(7));
    assert_eq!(parse_i32("007"), Some(7));
}

#[test]
fn parse_i32_limits() {
    assert_eq!(parse_i32("2147483647"), Some(i32::MAX));
    assert_eq!(parse_i32("2147483648"), None);
    assert_eq!(parse_i32("-2147483648"), Some(i32::MIN));
    assert_eq!(parse_i32("-2147483649"), None);
    assert_eq!(parse_i32("99999999999999999999"), None);
}

#[test]
fn parse_i32_rejects_malformed() {
    assert_eq!(parse_i32(""), None);
    assert_eq!(parse_i32("-"), None);
    assert_eq!(parse_i32("+"), None);
    assert_eq!(parse_i32("12a"), None);
    assert_eq!(parse_i32("a12"), None);
    assert_eq!(parse_i32(" 12"), None);
    assert_eq!(parse_i32("1 2"), None);
    assert_eq!(parse_i32("--1"), None);
}

#[test]
fn factory_reads_columns_by_name() {
    let f = PixelFactory::from_headers(&headers(&[
        "xAddr",
        "timeStamp",
        "yAddr",
        "polarity(0=OFF 1=ON)",
    ]));
    let pe = f.make_pixel_event(&record(&["10", "123", "20", "1"])).expect("parses");
    assert_eq!(pe.timestamp, 123);
    assert_eq!(pe.polarity, 1);
    assert_eq!(pe.x_address, DVS_X - 10 - 1);
    assert_eq!(pe.y_address, DVS_Y - 20 - 1);
}

#[test]
fn factory_ignores_unknown_columns() {
    let f = PixelFactory::from_headers(&headers(&[
        "unknown",
        "timeStamp",
        "xAddr",
        "yAddr",
        "polarity(0=OFF 1=ON)",
    ]));
    let pe = f.make_pixel_event(&record(&["9", "55", "1", "2", "0"])).expect("parses");
    assert_eq!(pe.timestamp, 55);
    assert_eq!(pe.polarity, 0);
    assert_eq!(pe.x_address, DVS_X - 1 - 1);
    assert_eq!(pe.y_address, DVS_Y - 2 - 1);
}

#[test]
fn factory_last_duplicate_wins() {
    let f = PixelFactory::from_headers(&headers(&[
        "timeStamp",
        "timeStamp",
        "xAddr",
        "yAddr",
        "polarity(0=OFF 1=ON)",
    ]));
    let pe = f.make_pixel_event(&record(&["1", "42", "3", "4", "1"])).expect("parses");
    assert_eq!(pe.timestamp, 42);
}

#[test]
fn is_event_field_recognizes_the_four_columns() {
    assert!(PixelFactory::is_event_field(&"timeStamp".to_string()));
    assert!(PixelFactory::is_event_field(&"xAddr".to_string()));
    assert!(PixelFactory::is_event_field(&"yAddr".to_string()));
    assert!(PixelFactory::is_event_field(&"polarity(0=OFF 1=ON)".to_string()));
    assert!(!PixelFactory::is_event_field(&"brightness".to_string()));
}

#[test]
fn short_row_is_a_missing_field() {
    let f = PixelFactory::from_headers(&headers(&[
        "timeStamp",
        "xAddr",
        "yAddr",
        "polarity(0=OFF 1=ON)",
    ]));
    let r = f.make_pixel_event(&record(&["1", "2"]));
    assert_eq!(r, Err(EventParseError::MissingField));
}

#[test]
fn unparsable_field_is_a_bad_field() {
    let f = PixelFactory::from_headers(&headers(&[
        "timeStamp",
        "xAddr",
        "yAddr",
        "polarity(0=OFF 1=ON)",
    ]));
    let r = f.make_pixel_event(&record(&["12x", "1", "2", "1"]));
    assert_eq!(r, Err(EventParseError::BadField));
}

#[test]
fn off_sensor_coordinates_are_rejected() {
    let f = PixelFactory::from_headers(&headers(&[
        "timeStamp",
        "xAddr",
        "yAddr",
        "polarity(0=OFF 1=ON)",
    ]));
    let too_wide = f.make_pixel_event(&record(&["1", "346", "2", "1"]));
    assert_eq!(too_wide, Err(EventParseError::CoordinateOutOfRange));
    let negative = f.make_pixel_event(&record(&["1", "2", "-1", "1"]));
    assert_eq!(negative, Err(EventParseError::CoordinateOutOfRange));
}
