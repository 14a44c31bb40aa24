use palette::commands::colourize;
use palette::commands::gradient;
use palette::commands::gradient_rand;
use palette::commands::rand;
use palette::commands::wal;
use palette::hexadecimal_to_colour;
use palette::Colour;
use palette::PaletteError;

#[test]
fn rand_zero_is_empty() {
    let mut rng = ::rand::thread_rng();
    let v = rand(0, &mut rng).unwrap();
    assert_eq!(v.len(), 0);
}

#[test]
fn rand_five_has_five_valid_entries() {
    let mut rng = ::rand::thread_rng();
    let v = rand(5, &mut rng).unwrap();
    assert_eq!(v.len(), 5);
    for ci in v.iter() {
        let hex = ci.hex();
        assert_eq!(hex.len(), 7);
        assert!(hex.starts_with('#'));
        for c in hex.chars().skip(1) {
            assert!(c.is_ascii_hexdigit());
            assert!(!c.is_uppercase());
        }
        let back = hexadecimal_to_colour(&hex).unwrap();
        assert_eq!(back.colour, ci.colour);
    }
}

#[test]
fn gradient_single_step_is_start() {
    let v = gradient("#000000".to_string(), "#ffffff".to_string(), 1).unwrap();
    assert_eq!(v.len(), 1);
    assert_eq!(v[0].hex(), "#000000");
}

#[test]
fn gradient_four_steps_ascending() {
    let v = gradient("#000000".to_string(), "#0000ff".to_string(), 4).unwrap();
    assert_eq!(v.len(), 4);
    // The per-step delta of the blue channel is 255 / 4 = 63, applied to the
    // previous step each time, so the last step approaches but does not
    // reach the end colour.
    assert_eq!(v[0].hex(), "#000000");
    assert_eq!(v[1].hex(), "#00003f");
    assert_eq!(v[2].hex(), "#00007e");
    assert_eq!(v[3].hex(), "#0000bd");
}

#[test]
fn gradient_four_steps_descending() {
    let v = gradient("#ffffff".to_string(), "#000000".to_string(), 4).unwrap();
    assert_eq!(v.len(), 4);
    assert_eq!(v[0].hex(), "#ffffff");
    assert_eq!(v[1].hex(), "#c0c0c0");
    assert_eq!(v[2].hex(), "#818181");
    assert_eq!(v[3].hex(), "#424242");
}

#[test]
fn gradient_zero_steps_is_rejected() {
    let r = gradient("#000000".to_string(), "#ffffff".to_string(), 0);
    assert!(matches!(r, Err(PaletteError::InvalidStepCount)));
}

#[test]
fn gradient_rejects_bad_start() {
    let r = gradient("zz0000".to_string(), "#ffffff".to_string(), 4);
    assert!(matches!(r, Err(PaletteError::MalformedHex(t)) if t == "zz0000"));
}

#[test]
fn gradient_rejects_bad_end() {
    let r = gradient("#000000".to_string(), "short".to_string(), 4);
    assert!(matches!(r, Err(PaletteError::MalformedHex(t)) if t == "short"));
}

#[test]
fn gradient_rand_has_asked_length() {
    let mut rng = ::rand::thread_rng();
    let v = gradient_rand(5, &mut rng).unwrap();
    assert_eq!(v.len(), 5);
    for ci in v.iter() {
        let back = hexadecimal_to_colour(&ci.hex()).unwrap();
        assert_eq!(back.colour, ci.colour);
    }
}

#[test]
fn gradient_rand_zero_steps_is_rejected() {
    let mut rng = ::rand::thread_rng();
    assert!(matches!(
        gradient_rand(0, &mut rng),
        Err(PaletteError::InvalidStepCount)
    ));
}

#[test]
fn wal_sixteen_entries_in_document_order() {
    let mut doc = String::from("{ \"wallpaper\": \"w.png\", \"colors\": {");
    let mut i: usize = 0;
    while i < 16 {
        if i > 0 {
            doc.push(',');
        }
        doc.push_str(&format!("\"color{}\": \"#{:02x}11{:02x}\"", i, i, 255 - i));
        i += 1;
    }
    doc.push_str("} }");
    let v = wal(&doc).unwrap();
    assert_eq!(v.len(), 16);
    let mut j: usize = 0;
    while j < 16 {
        assert_eq!(v[j].colour, Colour::new(j as u8, 0x11, (255 - j) as u8));
        j += 1;
    }
}

#[test]
fn wal_rejects_unparsable_text() {
    assert!(matches!(wal("not json"), Err(PaletteError::ConfigMalformed)));
}

#[test]
fn wal_rejects_missing_colors_object() {
    assert!(matches!(wal("{}"), Err(PaletteError::ConfigMalformed)));
    assert!(matches!(
        wal("{ \"colors\": 3 }"),
        Err(PaletteError::ConfigMalformed)
    ));
    assert!(matches!(wal("[1, 2]"), Err(PaletteError::ConfigMalformed)));
}

#[test]
fn wal_propagates_malformed_entry() {
    let doc = "{ \"colors\": { \"a\": \"#ff0000\", \"b\": \"nothex\" } }";
    let r = wal(doc);
    assert!(matches!(r, Err(PaletteError::MalformedHex(t)) if t == "nothex"));
}

#[test]
fn wal_takes_only_string_values() {
    let doc = "{ \"colors\": { \"a\": \"#ff0000\", \"b\": 5 } }";
    let v = wal(doc).unwrap();
    assert_eq!(v.len(), 1);
    assert_eq!(v[0].colour, Colour::new(255, 0, 0));
}

#[test]
fn colourize_red_then_green() {
    let lines = vec!["#ff0000".to_string(), "#00ff00".to_string()];
    let v = colourize(lines).unwrap();
    assert_eq!(v.len(), 2);
    assert_eq!(v[0].colour, Colour::new(255, 0, 0));
    assert_eq!(v[1].colour, Colour::new(0, 255, 0));
}

#[test]
fn colourize_trims_each_line() {
    let lines = vec!["  #ff0000\t".to_string(), "00ff00 ".to_string()];
    let v = colourize(lines).unwrap();
    assert_eq!(v.len(), 2);
    assert_eq!(v[0].colour, Colour::new(255, 0, 0));
    assert_eq!(v[1].colour, Colour::new(0, 255, 0));
}

#[test]
fn colourize_fails_on_first_malformed_line() {
    let lines = vec![
        "#ff0000".to_string(),
        "zzz".to_string(),
        "#00ff00".to_string(),
    ];
    let r = colourize(lines);
    assert!(matches!(r, Err(PaletteError::MalformedHex(t)) if t == "zzz"));
}

#[test]
fn colourize_empty_input_is_empty_palette() {
    let v = colourize(Vec::new()).unwrap();
    assert_eq!(v.len(), 0);
}
