use idotmatrix::{
    parse_clock_mode_string, parse_color_string, parse_pixel_string, IDMClockMode, IDMColor,
    IDMPixel, ParseError,
};

#[test]
fn color_with_hash() {
    assert_eq!(parse_color_string("#ff00aa"), Ok(IDMColor { r: 255, g: 0, b: 170 }));
}

#[test]
fn color_without_hash_and_upper_case() {
    assert_eq!(parse_color_string("FF00AA"), Ok(IDMColor { r: 255, g: 0, b: 170 }));
    assert_eq!(parse_color_string("1a2B3c"), Ok(IDMColor { r: 26, g: 43, b: 60 }));
}

#[test]
fn color_round_trips_through_hex_text() {
    let values = [0u8, 1, 15, 16, 127, 128, 200, 254, 255];
    for &r in values.iter() {
        for &g in values.iter() {
            for &b in values.iter() {
                let plain = format!("{:02x}{:02x}{:02x}", r, g, b);
                let hashed = format!("#{:02X}{:02X}{:02X}", r, g, b);
                assert_eq!(parse_color_string(&plain), Ok(IDMColor { r, g, b }));
                assert_eq!(parse_color_string(&hashed), Ok(IDMColor { r, g, b }));
            }
        }
    }
}

#[test]
fn color_rejects_wrong_length() {
    assert_eq!(parse_color_string(""), Err(ParseError::ColorLength));
    assert_eq!(parse_color_string("#"), Err(ParseError::ColorLength));
    assert_eq!(parse_color_string("#fff"), Err(ParseError::ColorLength));
    assert_eq!(parse_color_string("ff00aa0"), Err(ParseError::ColorLength));
    assert_eq!(parse_color_string("##ff00aa"), Err(ParseError::ColorLength));
}

#[test]
fn color_rejects_non_hex() {
    assert_eq!(parse_color_string("#gg0000"), Err(ParseError::ColorDigit));
    assert_eq!(parse_color_string("ff00a "), Err(ParseError::ColorDigit));
    assert_eq!(parse_color_string("+f00aa"), Err(ParseError::ColorDigit));
    assert_eq!(parse_color_string("ff00éa"), Err(ParseError::ColorDigit));
}

#[test]
fn pixel_example() {
    assert_eq!(
        parse_pixel_string("3,4,#112233"),
        Ok(IDMPixel { x: 3, y: 4, color: IDMColor { r: 17, g: 34, b: 51 } })
    );
}

#[test]
fn pixel_field_count() {
    assert_eq!(parse_pixel_string("3,4"), Err(ParseError::FieldCount));
    assert_eq!(parse_pixel_string("3,4,#112233,5"), Err(ParseError::FieldCount));
    assert_eq!(parse_pixel_string(""), Err(ParseError::FieldCount));
    assert_eq!(parse_pixel_string("3,4,#112233,"), Err(ParseError::FieldCount));
}

#[test]
fn pixel_bad_fields() {
    assert_eq!(parse_pixel_string("256,4,#112233"), Err(ParseError::Number));
    assert_eq!(parse_pixel_string("3,x,#112233"), Err(ParseError::Number));
    assert_eq!(parse_pixel_string("-1,4,#112233"), Err(ParseError::Number));
    assert_eq!(parse_pixel_string(",4,#112233"), Err(ParseError::Number));
    assert_eq!(parse_pixel_string("3,4,#11223"), Err(ParseError::ColorLength));
    assert_eq!(parse_pixel_string("3,4,#11223z"), Err(ParseError::ColorDigit));
}

#[test]
fn pixel_edge_values() {
    assert_eq!(
        parse_pixel_string("+0,255,000000"),
        Ok(IDMPixel { x: 0, y: 255, color: IDMColor { r: 0, g: 0, b: 0 } })
    );
    assert_eq!(
        parse_pixel_string("007,31,ffffff"),
        Ok(IDMPixel { x: 7, y: 31, color: IDMColor { r: 255, g: 255, b: 255 } })
    );
}

#[test]
fn clock_mode_example() {
    assert_eq!(
        parse_clock_mode_string("2,10,20,30"),
        Ok(IDMClockMode {
            style: 2,
            hour24: true,
            visible_date: false,
            r: Some(10),
            g: Some(20),
            b: Some(30),
        })
    );
}

#[test]
fn clock_mode_signed_channels() {
    assert_eq!(
        parse_clock_mode_string("7,-2147483648,2147483647,+5"),
        Ok(IDMClockMode {
            style: 7,
            hour24: true,
            visible_date: false,
            r: Some(-2147483648),
            g: Some(2147483647),
            b: Some(5),
        })
    );
}

#[test]
fn clock_mode_rejects_non_integers() {
    assert_eq!(parse_clock_mode_string("2,a,20,30"), Err(ParseError::Number));
    assert_eq!(parse_clock_mode_string("x,10,20,30"), Err(ParseError::Number));
    assert_eq!(parse_clock_mode_string("2,10,20,3.5"), Err(ParseError::Number));
    assert_eq!(parse_clock_mode_string("256,10,20,30"), Err(ParseError::Number));
    assert_eq!(parse_clock_mode_string("2,2147483648,20,30"), Err(ParseError::Number));
    assert_eq!(parse_clock_mode_string("2,-2147483649,20,30"), Err(ParseError::Number));
    assert_eq!(parse_clock_mode_string("2,-,20,30"), Err(ParseError::Number));
    assert_eq!(parse_clock_mode_string("2,,20,30"), Err(ParseError::Number));
}

#[test]
fn clock_mode_field_count() {
    assert_eq!(parse_clock_mode_string("2,10,20"), Err(ParseError::FieldCount));
    assert_eq!(parse_clock_mode_string("2,10,20,30,40"), Err(ParseError::FieldCount));
}
