use cc_wasm_api::local_monitor::{InitMethod, LocalMonitor};
use cc_wasm_api::misc::{AsIfPixel, ColorId, Side};

fn pixel(c: char, bg: ColorId, tc: ColorId) -> AsIfPixel {
    AsIfPixel::new(c, bg, tc).expect("an ASCII character makes a pixel")
}

fn board(x: usize, y: usize) -> LocalMonitor {
    LocalMonitor::new(
        x,
        y,
        AsIfPixel::colored_whitespace(ColorId::Black),
        &InitMethod::Local(Side::Top),
    )
}

/// The basic pass sets the colors once, then walks the entries, re-setting
/// colors only when they change.
#[test]
fn basic_draw_script_is_exact() {
    let m = board(2, 1);
    let a = pixel('A', ColorId::White, ColorId::Black);
    let b = pixel('B', ColorId::White, ColorId::Black);
    let (s, n) = m.gen_draw_basic(vec![(0, 0, a), (1, 0, b)], true);
    assert_eq!(
        s,
        "global.monitor_local_top.setBackgroundColour(0x1)\nglobal.monitor_local_top.setTextColour(0x8000)\nglobal.monitor_local_top.setCursorPos(1, 1)\nglobal.monitor_local_top.write('A')\nglobal.monitor_local_top.setCursorPos(2, 1)\nglobal.monitor_local_top.write('B')\n"
    );
    assert_eq!(n, 6);

    // without text, only the line count comes back
    let (s, n) = m.gen_draw_basic(vec![(0, 0, a), (1, 0, b)], false);
    assert_eq!(s, "");
    assert_eq!(n, 6);
}

/// The basic pass sorts by text color, then background color, and counts two
/// extra lines per color change.
#[test]
fn basic_draw_sorts_by_color() {
    let m = board(2, 1);
    let red = pixel('r', ColorId::Black, ColorId::Red);
    let blue = pixel('b', ColorId::Black, ColorId::Blue);
    // Blue's number (2048) is below Red's (16384): blue draws first
    let (s, n) = m.gen_draw_basic(vec![(0, 0, red), (1, 0, blue)], true);
    assert_eq!(
        s,
        "global.monitor_local_top.setBackgroundColour(0x8000)\nglobal.monitor_local_top.setTextColour(0x800)\nglobal.monitor_local_top.setCursorPos(2, 1)\nglobal.monitor_local_top.write('b')\nglobal.monitor_local_top.setBackgroundColour(0x8000)\nglobal.monitor_local_top.setTextColour(0x4000)\nglobal.monitor_local_top.setCursorPos(1, 1)\nglobal.monitor_local_top.write('r')\n"
    );
    assert_eq!(n, 8);
}

/// The cursor pass writes one character at a time, skipping the cursor move
/// when the cursor already stands on the cell, with colors in decimal.
#[test]
fn cursor_draw_script_is_exact() {
    let m = board(3, 1);
    let a = pixel('a', ColorId::Black, ColorId::White);
    let b = pixel('b', ColorId::Black, ColorId::White);
    let (s, n) = m.gen_draw_opt_cursor(vec![(0, 0, a), (1, 0, b)]);
    assert_eq!(
        s,
        "global.monitor_local_top.setBackgroundColour(32768)\nglobal.monitor_local_top.setTextColour(1)\nglobal.monitor_local_top.setCursorPos(1, 1)\nglobal.monitor_local_top.write('a')\nglobal.monitor_local_top.write('b')\n"
    );
    // header 3 + one write + one write; the second cursor move is saved
    assert_eq!(n, 5);
}

/// The text-run pass folds neighbouring cells into one quoted write.
#[test]
fn long_str_draw_folds_runs() {
    let m = board(3, 2);
    let h = pixel('h', ColorId::Black, ColorId::White);
    let i = pixel('i', ColorId::Black, ColorId::White);
    let x = pixel('x', ColorId::Black, ColorId::White);
    // one run "hi" on the first row, then a jump to the second row
    let draw = vec![(0, 0, h), (1, 0, i), (0, 1, x)];
    let (s, n) = m.gen_draw_opt_cursor_long_str(draw, true);
    assert_eq!(
        s,
        "global.monitor_local_top.setBackgroundColour(0x8000)\nglobal.monitor_local_top.setTextColour(0x1)\nglobal.monitor_local_top.setCursorPos(1, 1)\nglobal.monitor_local_top.write(\"hi\")\nglobal.monitor_local_top.setCursorPos(1, 2)\nglobal.monitor_local_top.write(\"x\")\n"
    );
    // header 3 + flush 1 + cursor 1 + final flush 1
    assert_eq!(n, 6);

    // no cells, no script
    let (s, n) = m.gen_draw_opt_cursor_long_str(Vec::new(), true);
    assert_eq!(s, "");
    assert_eq!(n, 0);
}

/// Characters that would break the quoted string come out escaped.
#[test]
fn long_str_draw_escapes_text() {
    let m = board(3, 1);
    let tab = pixel('\t', ColorId::Black, ColorId::White);
    let quote = pixel('"', ColorId::Black, ColorId::White);
    let bell = pixel('\u{7}', ColorId::Black, ColorId::White);
    let draw = vec![(0, 0, tab), (1, 0, quote), (2, 0, bell)];
    let (s, _) = m.gen_draw_opt_cursor_long_str(draw, true);
    assert!(s.ends_with("global.monitor_local_top.write(\"\\t\\\"\\u{7}\")\n"));
}

/// The clearing redraw clears the board and paints back only what the
/// clearing does not show.
#[test]
fn clear_draw_repaints_the_rest() {
    let mut m = board(2, 1);
    m.clear_local(ColorId::Green);
    m.write(1, 1, pixel('Q', ColorId::Green, ColorId::White));
    let (s, n) = m.gen_draw_opt_clear(ColorId::Green);
    assert_eq!(
        s,
        "global.monitor_local_top.setBackgroundColour(8192)\nglobal.monitor_local_top.clear()global.monitor_local_top.setBackgroundColour(0x2000)\nglobal.monitor_local_top.setTextColour(0x1)\nglobal.monitor_local_top.setCursorPos(1, 1)\nglobal.monitor_local_top.write(\"Q\")\n"
    );
    // clear 2 + header 3 + final flush 1
    assert_eq!(n, 6);
}

/// When most of the board is blank on one color, clearing wins; the script
/// shrinks to the clear alone when nothing else shows.
#[test]
fn auto_clear_picks_the_cheaper_script() {
    let mut m = board(2, 2);
    m.clear_local(ColorId::Green);
    let draw = m.gen_nonsynced();
    assert_eq!(draw.len(), 4);
    let (s, n) = m.gen_draw_opt_auto_clear(draw);
    assert_eq!(
        s,
        "global.monitor_local_top.setBackgroundColour(8192)\nglobal.monitor_local_top.clear()"
    );
    assert_eq!(n, 2);

    // a single changed cell is cheaper to draw directly
    let mut small = board(2, 2);
    small.last_sync = small.data.clone();
    small.write(1, 1, pixel('Z', ColorId::Red, ColorId::White));
    let draw = small.gen_nonsynced();
    assert_eq!(draw.len(), 1);
    let (s, n) = small.gen_draw_opt_auto_clear(draw);
    assert_eq!(
        s,
        "global.monitor_local_top.setBackgroundColour(0x4000)\nglobal.monitor_local_top.setTextColour(0x1)\nglobal.monitor_local_top.setCursorPos(1, 1)\nglobal.monitor_local_top.write(\"Z\")\n"
    );
    assert_eq!(n, 4);
}

/// Synchronizing produces the redraw script once and then reports nothing to
/// send until the buffer changes again.
#[test]
fn sync_script_settles_the_buffers() {
    let mut m = board(2, 1);
    let (s, n) = m.sync_script();
    assert_eq!(
        s,
        "global.monitor_local_top.setBackgroundColour(0x8000)\nglobal.monitor_local_top.setTextColour(0x8000)\nglobal.monitor_local_top.setCursorPos(1, 1)\nglobal.monitor_local_top.write(\"  \")\n"
    );
    assert_eq!(n, 4);

    // level now: nothing further to send
    let (s, n) = m.sync_script();
    assert_eq!(s, "");
    assert_eq!(n, 0);

    // one more write, one more one-cell script
    m.write(2, 1, pixel('k', ColorId::Black, ColorId::White));
    let (s, n) = m.sync_script();
    assert!(s.contains("setCursorPos(2, 1)"));
    assert!(s.ends_with("global.monitor_local_top.write(\"k\")\n"));
    assert_eq!(n, 4);
}

/// The clearing form of synchronization also settles the buffers.
#[test]
fn sync_clear_script_settles_the_buffers() {
    let mut m = board(2, 1);
    m.clear_local(ColorId::Blue);
    let (s, n) = m.sync_clear_script(ColorId::Blue);
    assert_eq!(
        s,
        "global.monitor_local_top.setBackgroundColour(2048)\nglobal.monitor_local_top.clear()"
    );
    assert_eq!(n, 2);
    let (s, n) = m.sync_clear_script(ColorId::Blue);
    assert_eq!(s, "");
    assert_eq!(n, 0);
}
