use cc_wasm_api::functions::{set_color, write_txt};
use cc_wasm_api::misc::{AsIfPixel, ColorId, Direction, Side};
use cc_wasm_api::strfmt::{fmt_u64, fmt_usize};

#[test]
fn color_numbers_are_the_palette_bits() {
    assert_eq!(ColorId::White.to_number(), 1);
    assert_eq!(ColorId::Orange.to_number(), 2);
    assert_eq!(ColorId::Lime.to_number(), 32);
    assert_eq!(ColorId::Black.to_number(), 32768);
}

#[test]
fn color_hex_strings_match_the_numbers() {
    assert_eq!(ColorId::White.to_str(), "0x1");
    assert_eq!(ColorId::Yellow.to_str(), "0x10");
    assert_eq!(ColorId::Black.to_str(), "0x8000");
}

#[test]
fn colors_come_back_from_numbers_modulo_sixteen() {
    assert_eq!(ColorId::from_number_overflow(0), ColorId::White);
    assert_eq!(ColorId::from_number_overflow(15), ColorId::Black);
    assert_eq!(ColorId::from_number_overflow(16), ColorId::White);
    assert_eq!(ColorId::from_number_overflow(33), ColorId::Orange);
}

#[test]
fn directions_step_one_cell() {
    assert_eq!(Direction::PosX.to_dxdy(), (1, 0));
    assert_eq!(Direction::PosY.to_dxdy(), (0, 1));
    assert_eq!(Direction::NegX.to_dxdy(), (-1, 0));
    assert_eq!(Direction::NegY.to_dxdy(), (0, -1));
}

#[test]
fn pixels_take_only_ascii() {
    let p = AsIfPixel::new('a', ColorId::Blue, ColorId::White).unwrap();
    assert_eq!(p.text(), 'a');
    assert_eq!(p.background_color, ColorId::Blue);
    assert_eq!(p.text_color, ColorId::White);
    assert!(AsIfPixel::new('\u{e9}', ColorId::Blue, ColorId::White).is_none());
}

#[test]
fn blank_pixels_know_they_are_blank() {
    let blank = AsIfPixel::colored_whitespace(ColorId::Cyan);
    assert_eq!(blank.text(), ' ');
    assert!(blank.is_whitespace());
    // same colors count as blank whatever the character
    let hidden = AsIfPixel::new('m', ColorId::Red, ColorId::Red).unwrap();
    assert!(hidden.is_whitespace());
    // a whitespace character counts as blank whatever the colors
    let tab = AsIfPixel::new('\t', ColorId::Red, ColorId::White).unwrap();
    assert!(tab.is_whitespace());
    let visible = AsIfPixel::new('m', ColorId::Red, ColorId::White).unwrap();
    assert!(!visible.is_whitespace());
    assert_eq!(AsIfPixel::default(), AsIfPixel::colored_whitespace(ColorId::Black));
}

#[test]
fn sides_come_back_from_names() {
    assert_eq!(Side::from_name("top"), Ok(Side::Top));
    assert_eq!(Side::from_name("bottom"), Ok(Side::Bottom));
    assert_eq!(Side::from_name("left"), Ok(Side::Left));
    assert_eq!(Side::from_name("right"), Ok(Side::Right));
    assert_eq!(Side::from_name("front"), Ok(Side::Front));
    assert_eq!(Side::from_name("back"), Ok(Side::Back));
    assert_eq!(Side::from_name("up"), Err("invalid side:up".to_string()));
    assert_eq!(Side::from_name(""), Err("invalid side:".to_string()));
}

#[test]
fn side_names() {
    assert_eq!(Side::Top.name(), "top");
    assert_eq!(Side::Bottom.name(), "bottom");
    assert_eq!(Side::Left.name(), "left");
    assert_eq!(Side::Right.name(), "right");
    assert_eq!(Side::Front.name(), "front");
    assert_eq!(Side::Back.name(), "back");
}

#[test]
fn decimal_formatting_is_exact() {
    assert_eq!(fmt_u64(0), "0");
    assert_eq!(fmt_u64(7), "7");
    assert_eq!(fmt_u64(10), "10");
    assert_eq!(fmt_u64(32768), "32768");
    assert_eq!(fmt_u64(18446744073709551615), "18446744073709551615");
    assert_eq!(fmt_usize(123456), "123456");
}

#[test]
fn side_scripts_are_exact() {
    let p = AsIfPixel::new('w', ColorId::Blue, ColorId::White).unwrap();
    // Blue: bit 11 = 2048; White: bit 0 = 1
    assert_eq!(
        set_color(p, Side::Left),
        "global.monitorleft.setBackgroundColour(2048)\n    global.monitorleft.setTextColour(1)\n    \n"
    );
    assert_eq!(
        write_txt(2, 4, p, Side::Back),
        "global.monitorback.setCursorPos(3, 5)\n    global.monitorback.write(\"w\") \n"
    );
}
