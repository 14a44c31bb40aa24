use palette::display::copyable_code;
use palette::display::print_block_lines;
use palette::display::print_lines_code;
use palette::display::print_lines_coloured;
use palette::display::print_lines_uncoloured;
use palette::Colour;
use palette::ColourInfo;

fn pal(channels: &[(u8, u8, u8)]) -> Vec<ColourInfo> {
    channels
        .iter()
        .map(|&(r, g, b)| ColourInfo::new(Colour::new(r, g, b)))
        .collect()
}

#[test]
fn ansi_block_text() {
    let ci = ColourInfo::new(Colour::new(255, 0, 0));
    assert_eq!(ci.ansi_block(), "\x1b[48;2;255;0;0m");
    let ci = ColourInfo::new(Colour::new(1, 10, 100));
    assert_eq!(ci.ansi_block(), "\x1b[48;2;1;10;100m");
}

#[test]
fn hex_method_prepends_hash() {
    let ci = ColourInfo::new(Colour::new(0, 0, 0));
    assert_eq!(ci.hex(), "#000000");
    assert_eq!(*ci.colour(), Colour::new(0, 0, 0));
}

#[test]
fn uncoloured_lines() {
    let v = pal(&[(255, 0, 0), (0, 255, 0)]);
    assert_eq!(print_lines_uncoloured(&v), "#ff0000\n#00ff00\n");
}

#[test]
fn uncoloured_empty() {
    assert_eq!(print_lines_uncoloured(&Vec::new()), "");
}

#[test]
fn coloured_lines() {
    let v = pal(&[(255, 0, 0)]);
    assert_eq!(
        print_lines_coloured(&v),
        "\x1b[48;2;255;0;0m      \x1b[30;m #ff0000\n"
    );
}

#[test]
fn block_lines() {
    let v = pal(&[(255, 0, 0), (0, 255, 0)]);
    assert_eq!(
        print_block_lines(&v),
        "\x1b[48;2;255;0;0m\n\x1b[48;2;0;255;0m\n\x1b[30;m\n"
    );
}

#[test]
fn block_lines_empty_still_resets() {
    assert_eq!(print_block_lines(&Vec::new()), "\x1b[30;m\n");
}

#[test]
fn code_plain() {
    let v = pal(&[(255, 0, 0), (0, 255, 0)]);
    assert_eq!(
        print_lines_code(&v, false),
        "[\n\t\"#ff0000\",\n\t\"#00ff00\"\n]\n"
    );
}

#[test]
fn code_coloured_single() {
    let v = pal(&[(255, 0, 0)]);
    assert_eq!(
        print_lines_code(&v, true),
        "[\n\t\"\x1b[48;2;255;0;0m#ff0000\x1b[30;m\"\n\x1b[30;m]\n"
    );
}

#[test]
fn code_empty() {
    assert_eq!(print_lines_code(&Vec::new(), false), "[\n]\n");
    assert_eq!(print_lines_code(&Vec::new(), true), "[\n\x1b[30;m]\n");
}

#[test]
fn copyable_text() {
    let v = pal(&[(255, 0, 0), (0, 255, 0)]);
    assert_eq!(copyable_code(&v), "gradient = [\t\"#ff0000\",\t\"#00ff00\"]");
}

#[test]
fn copyable_single_has_no_comma() {
    let v = pal(&[(0, 0, 255)]);
    assert_eq!(copyable_code(&v), "gradient = [\t\"#0000ff\"]");
}

#[test]
fn copyable_empty() {
    assert_eq!(copyable_code(&Vec::new()), "gradient = []");
}
