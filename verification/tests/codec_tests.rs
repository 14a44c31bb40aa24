use palette::codec::trim;
use palette::hexadecimal_to_colour;
use palette::Colour;
use palette::ColourInfo;
use palette::PaletteError;

#[test]
fn round_trip_black() {
    let ci = ColourInfo::new(Colour::new(0, 0, 0));
    let back = hexadecimal_to_colour(&ci.hex()).unwrap();
    assert_eq!(back.colour, ci.colour);
}

#[test]
fn round_trip_white() {
    let ci = ColourInfo::new(Colour::new(255, 255, 255));
    let back = hexadecimal_to_colour(&ci.hex()).unwrap();
    assert_eq!(back.colour, ci.colour);
}

#[test]
fn round_trip_mixed() {
    let ci = ColourInfo::new(Colour::new(10, 27, 44));
    assert_eq!(ci.hex(), "#0a1b2c");
    let back = hexadecimal_to_colour(&ci.hex()).unwrap();
    assert_eq!(back.colour, ci.colour);
}

#[test]
fn round_trip_every_channel_value() {
    let mut v: usize = 0;
    while v < 256 {
        let ci = ColourInfo::new(Colour::new(v as u8, (255 - v) as u8, (v / 2) as u8));
        let back = hexadecimal_to_colour(&ci.hex()).unwrap();
        assert_eq!(back.colour, ci.colour);
        v += 1;
    }
}

#[test]
fn decode_mixed_case_with_hash() {
    let ci = hexadecimal_to_colour("#AbCdEf").unwrap();
    assert_eq!(ci.colour, Colour::new(0xab, 0xcd, 0xef));
    assert_eq!(ci.hex(), "#abcdef");
}

#[test]
fn decode_without_hash() {
    let ci = hexadecimal_to_colour("0A1B2C").unwrap();
    assert_eq!(ci.colour, Colour::new(10, 27, 44));
}

#[test]
fn decode_rejects_short() {
    let r = hexadecimal_to_colour("#fff");
    assert!(matches!(r, Err(PaletteError::MalformedHex(t)) if t == "#fff"));
}

#[test]
fn decode_rejects_five_digits() {
    let r = hexadecimal_to_colour("12345");
    assert!(matches!(r, Err(PaletteError::MalformedHex(t)) if t == "12345"));
}

#[test]
fn decode_rejects_bad_digits() {
    let r = hexadecimal_to_colour("gg0000");
    assert!(matches!(r, Err(PaletteError::MalformedHex(t)) if t == "gg0000"));
}

#[test]
fn decode_rejects_long() {
    assert!(matches!(
        hexadecimal_to_colour("#1234567"),
        Err(PaletteError::MalformedHex(_))
    ));
}

#[test]
fn decode_rejects_empty() {
    assert!(matches!(
        hexadecimal_to_colour(""),
        Err(PaletteError::MalformedHex(_))
    ));
}

#[test]
fn decode_rejects_double_hash() {
    assert!(matches!(
        hexadecimal_to_colour("##123456"),
        Err(PaletteError::MalformedHex(_))
    ));
}

#[test]
fn trim_removes_surrounding_whitespace() {
    assert_eq!(trim(" \t#ff0000\r\n"), "#ff0000");
    assert_eq!(trim("#ff0000"), "#ff0000");
    assert_eq!(trim("   "), "");
    assert_eq!(trim(""), "");
    assert_eq!(trim("a b"), "a b");
}

#[test]
fn error_messages() {
    assert_eq!(
        PaletteError::MalformedHex("xyz".to_string()).message(),
        "malformed hex colour: xyz"
    );
    assert_eq!(PaletteError::ConfigNotFound.message(), "wal colour scheme not found");
    assert_eq!(
        PaletteError::ConfigMalformed.message(),
        "wal colour scheme is malformed"
    );
    assert_eq!(PaletteError::IOError.message(), "could not read input");
    assert_eq!(
        PaletteError::InvalidStepCount.message(),
        "a gradient needs at least one step"
    );
}
