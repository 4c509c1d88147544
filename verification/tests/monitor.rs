use cc_wasm_api::local_monitor::{InitMethod, LocalMonitor};
use cc_wasm_api::misc::{AsIfPixel, ColorId, Direction, Side};

fn px(c: char, bg: ColorId, tc: ColorId) -> AsIfPixel {
    AsIfPixel::new(c, bg, tc).expect("an ASCII character makes a pixel")
}

fn fresh(x: usize, y: usize) -> LocalMonitor {
    LocalMonitor::new(
        x,
        y,
        AsIfPixel::colored_whitespace(ColorId::Black),
        &InitMethod::Local(Side::Top),
    )
}

#[test]
fn names_follow_the_init_method() {
    assert_eq!(
        LocalMonitor::gen_name(&InitMethod::Local(Side::Left)),
        "monitor_local_left"
    );
    assert_eq!(
        LocalMonitor::gen_name(&InitMethod::Remote { side: Side::Back, name: "m7".to_string() }),
        "monitor_remote_back_m7"
    );
    let m = fresh(2, 2);
    assert_eq!(m.name(), "monitor_local_top");
}

#[test]
fn new_monitor_has_the_requested_size() {
    let m = fresh(3, 2);
    assert_eq!(m.size(), (3, 2));
    assert_eq!(m.x(), 3);
    assert_eq!(m.y(), 2);
    let empty = LocalMonitor::new_empty();
    assert_eq!(empty.size(), (0, 0));
    assert_eq!(empty.name(), "");
}

#[test]
fn write_then_get_roundtrip() {
    let mut m = fresh(4, 3);
    let p = px('A', ColorId::Blue, ColorId::White);
    m.write(2, 3, p);
    assert_eq!(m.get(2, 3), Some(p));
    // other cells keep the fill
    assert_eq!(m.get(1, 1), Some(AsIfPixel::colored_whitespace(ColorId::Black)));
    // beyond the edge there is nothing
    assert_eq!(m.get(5, 1), None);
    assert_eq!(m.get(1, 4), None);
}

#[test]
fn writes_beyond_the_edge_change_nothing() {
    let mut m = fresh(2, 2);
    let p = px('Z', ColorId::Red, ColorId::White);
    m.write(3, 1, p);
    m.write(1, 3, p);
    m.write(0, 1, p);
    for x in 1..=2 {
        for y in 1..=2 {
            assert_eq!(m.get(x, y), Some(AsIfPixel::colored_whitespace(ColorId::Black)));
        }
    }
}

#[test]
fn clear_local_fills_every_cell() {
    let mut m = fresh(3, 3);
    m.write(2, 2, px('X', ColorId::Red, ColorId::White));
    m.clear_local(ColorId::Green);
    for x in 1..=3 {
        for y in 1..=3 {
            assert_eq!(m.get(x, y), Some(AsIfPixel::colored_whitespace(ColorId::Green)));
        }
    }
}

#[test]
fn resize_refills_the_buffer() {
    let mut m = fresh(2, 2);
    m.resize(3, 1, px('.', ColorId::Gray, ColorId::White));
    assert_eq!(m.size(), (3, 1));
    assert_eq!(m.get(3, 1), Some(px('.', ColorId::Gray, ColorId::White)));
    assert_eq!(m.name(), "monitor_local_top");
}

#[test]
fn write_str_lays_text_along_the_direction() {
    let mut m = fresh(5, 3);
    m.write_str(2, 1, Direction::PosX, "ab", ColorId::Black, ColorId::White);
    assert_eq!(m.get(2, 1), Some(px('a', ColorId::Black, ColorId::White)));
    assert_eq!(m.get(3, 1), Some(px('b', ColorId::Black, ColorId::White)));
    assert_eq!(m.get(4, 1), Some(AsIfPixel::colored_whitespace(ColorId::Black)));

    let mut down = fresh(3, 3);
    down.write_str(1, 1, Direction::PosY, "xy", ColorId::Blue, ColorId::White);
    assert_eq!(down.get(1, 1), Some(px('x', ColorId::Blue, ColorId::White)));
    assert_eq!(down.get(1, 2), Some(px('y', ColorId::Blue, ColorId::White)));
}

#[test]
fn write_str_skips_non_ascii_and_stops_at_the_edge() {
    let mut m = fresh(3, 1);
    m.write_str(1, 1, Direction::PosX, "a\u{e9}bcd", ColorId::Black, ColorId::White);
    assert_eq!(m.get(1, 1), Some(px('a', ColorId::Black, ColorId::White)));
    // the accented character is skipped without advancing
    assert_eq!(m.get(2, 1), Some(px('b', ColorId::Black, ColorId::White)));
    assert_eq!(m.get(3, 1), Some(px('c', ColorId::Black, ColorId::White)));
}

#[test]
fn fresh_monitor_differs_everywhere() {
    let m = fresh(2, 2);
    // the last-synchronized buffer is deliberately out of step at first
    let diff = m.gen_nonsynced();
    assert_eq!(diff.len(), 4);
    // ascending (x, y) order, zero-based coordinates
    let coords: Vec<(usize, usize)> = diff.iter().map(|e| (e.0, e.1)).collect();
    assert_eq!(coords, vec![(0, 0), (0, 1), (1, 0), (1, 1)]);
}

#[test]
fn matching_blanks_do_not_differ() {
    let mut m = fresh(2, 1);
    // bring the buffers level: nothing differs
    m.last_sync = m.data.clone();
    assert_eq!(m.gen_nonsynced().len(), 0);

    // a blank against a blank on the same background is no difference,
    // even when the hidden characters are not the same
    m.write(1, 1, px('\t', ColorId::Black, ColorId::White));
    assert_eq!(m.gen_nonsynced().len(), 0);

    // a visible character is one
    m.write(2, 1, px('Q', ColorId::Red, ColorId::White));
    let diff = m.gen_nonsynced();
    assert_eq!(diff.len(), 1);
    assert_eq!(diff[0], (1, 0, px('Q', ColorId::Red, ColorId::White)));
}

#[test]
fn scripts_are_generated_exactly() {
    let m = fresh(2, 2);
    let p = px('H', ColorId::Red, ColorId::Lime);
    // Red: bit 14 = 16384; Lime: bit 5 = 32
    let (s, n) = m.gen_script_set_color(p);
    assert_eq!(
        s,
        "global.monitor_local_top.setBackgroundColour(16384)\nglobal.monitor_local_top.setTextColour(32)\n"
    );
    assert_eq!(n, 2);

    let (s, n) = m.gen_script_set_txt_color(p);
    assert_eq!(s, "global.monitor_local_top.setTextColour(32)\n");
    assert_eq!(n, 1);

    let (s, n) = m.gen_script_set_bg_color(p);
    assert_eq!(s, "global.monitor_local_top.setBackgroundColour(16384)\n");
    assert_eq!(n, 1);

    let (s, n) = m.gen_script_set_cursor(0, 1);
    assert_eq!(s, "global.monitor_local_top.setCursorPos(1, 2)\n");
    assert_eq!(n, 1);

    let (s, n) = m.gen_script_write_char(p);
    assert_eq!(s, "global.monitor_local_top.write('H')\n");
    assert_eq!(n, 1);

    let (s, n) = m.gen_script_write_multi_char("hi");
    assert_eq!(s, "global.monitor_local_top.write(\"hi\")\n");
    assert_eq!(n, 1);

    let (s, n) = m.gen_script_write_txt(2, 0, p);
    assert_eq!(
        s,
        "global.monitor_local_top.setCursorPos(3, 1)\nglobal.monitor_local_top.write('H')\n"
    );
    assert_eq!(n, 2);

    let (s, n) = m.gen_script_clear(ColorId::Black);
    assert_eq!(
        s,
        "global.monitor_local_top.setBackgroundColour(32768)\nglobal.monitor_local_top.clear()"
    );
    assert_eq!(n, 2);

    let (s, n) = m.gen_script_set_palette(ColorId::White, 0xCCCCCC);
    assert_eq!(s, "global.monitor_local_top.setPaletteColour(1, 13421772)\n");
    assert_eq!(n, 1);
}

#[test]
fn ext_scripts_append_only_when_asked() {
    let m = fresh(2, 2);
    let p = px('k', ColorId::White, ColorId::Black);
    let mut out = String::new();
    assert_eq!(m.ext_script_set_color(&mut out, false, p), 2);
    assert_eq!(m.ext_script_set_cursor(&mut out, false, 0, 0), 1);
    assert_eq!(m.ext_script_write_char(&mut out, false, p), 1);
    assert_eq!(m.ext_script_write_multi_char(&mut out, false, "zz"), 1);
    assert_eq!(out, "");

    assert_eq!(m.ext_script_set_color(&mut out, true, p), 2);
    assert_eq!(
        out,
        "global.monitor_local_top.setBackgroundColour(0x1)\nglobal.monitor_local_top.setTextColour(0x8000)\n"
    );
    out.clear();
    m.ext_script_set_cursor(&mut out, true, 4, 5);
    assert_eq!(out, "global.monitor_local_top.setCursorPos(5, 6)\n");
    out.clear();
    m.ext_script_write_multi_char(&mut out, true, "ab");
    assert_eq!(out, "global.monitor_local_top.write(\"ab\")\n");
    out.clear();
    m.ext_script_write_char(&mut out, true, p);
    assert_eq!(out, "global.monitor_local_top.write('k')\n");
}

#[test]
fn init_scripts_name_the_peripheral() {
    let s = LocalMonitor::gen_script_init_monitor(&InitMethod::Local(Side::Right));
    assert_eq!(s, "global.monitor_local_right = peripheral.wrap(\"right\")");
    let s = LocalMonitor::gen_script_init_monitor(&InitMethod::Remote {
        side: Side::Front,
        name: "screen1".to_string(),
    });
    assert_eq!(
        s,
        "global.monitor_remote_front_screen1 = wrap_remote(\"front\", \"screen1\")"
    );
    // specials in a remote name come out escaped inside the quotes
    let s = LocalMonitor::gen_script_init_monitor(&InitMethod::Remote {
        side: Side::Front,
        name: "a\"b\\c".to_string(),
    });
    assert!(s.ends_with("wrap_remote(\"front\", \"a\\\"b\\\\c\")"));
}
