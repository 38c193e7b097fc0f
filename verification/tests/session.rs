use rmatrix::column::Column;
use rmatrix::screen::{Color, TermWrite};
use rmatrix::session::{
    advance_columns, clock_string, clock_text, compose_clock, draw_fortune, get_color,
    make_columns, refresh_fortune, wants_quit,
};

#[test]
fn color_names() {
    assert_eq!(get_color("red"), Some(Color::Red));
    assert_eq!(get_color("green"), Some(Color::Green));
    assert_eq!(get_color("blue"), Some(Color::Blue));
    assert_eq!(get_color("yellow"), Some(Color::Yellow));
    assert_eq!(get_color("magenta"), Some(Color::Magenta));
    assert_eq!(get_color("white"), None);
    assert_eq!(get_color("RED"), None);
    assert_eq!(get_color(""), None);
}

#[test]
fn quit_key_detection() {
    assert!(wants_quit(&vec!['a', 'q', 'b']));
    assert!(!wants_quit(&vec!['a', 'b']));
    assert!(!wants_quit(&Vec::new()));
}

#[test]
fn clock_string_format() {
    assert_eq!(clock_string(1, 2, 3, true), "01:02:03PM");
    assert_eq!(clock_string(12, 59, 0, false), "12:59:00AM");
}

#[test]
fn clock_text_is_ten_supported_symbols() {
    let t = clock_text();
    assert_eq!(t.chars().count(), 10);
    for c in t.chars() {
        assert!("0123456789:APM".contains(c));
    }
    let chars: Vec<char> = t.chars().collect();
    assert_eq!(chars[2], ':');
    assert_eq!(chars[5], ':');
    assert_eq!(chars[9], 'M');
    assert!(chars[8] == 'A' || chars[8] == 'P');
}

#[test]
fn clock_overlay_sits_above_bottom_margin() {
    let (writes, cells) = compose_clock("01:02:03PM", 30);
    assert!(!writes.is_empty());
    // the outer border's top-left corner: column ten, thirteen rows up
    assert!(cells.contains(&(10, 17)));
    assert!(!cells.contains(&(9, 17)));
    assert!(!cells.contains(&(10, 16)));
    // the hash border is drawn first, and its top row spans the full
    // footprint width, corners included
    assert_eq!(
        writes[0],
        TermWrite::Cell { x: 10, y: 17, ch: '#', fg: Color::Default }
    );
    assert!(cells.contains(&(88, 17)));
    assert!(!cells.contains(&(89, 17)));
}

#[test]
fn fortune_overlay_anchors_right_of_margin() {
    let r = draw_fortune("hi\nthere", 80).expect("screen is wide enough");
    // widget width: longest line five, one spacer, two frames = ten
    // anchor: 80 - 10 - 10 = 60; the label starts two cells in
    assert!(r.0.contains(&TermWrite::Text { x: 62, y: 7, text: String::from("hi") }));
    assert!(r.0.contains(&TermWrite::Text { x: 62, y: 8, text: String::from("there") }));
    assert!(r.1.contains(&(60, 5)));
}

#[test]
fn fortune_overlay_needs_room() {
    assert!(draw_fortune("hi", 5).is_none());
}

#[test]
fn fortune_refresh_replaces_text_and_blanks_regions() {
    let (text, writes) = refresh_fortune("aa", Some("bbb\ncc"), 80);
    assert_eq!(text, "bbb\ncc");
    let (writes, _cells) = writes.expect("screen is wide enough");
    // old widget: width 7, height 5; blank of it: 6 rows of 7 spaces at 80-7-10
    assert!(writes.contains(&TermWrite::Text { x: 63, y: 5, text: String::from("       ") }));
    // new widget: width 8; its blank starts at 80-8-10
    assert!(writes.contains(&TermWrite::Text { x: 62, y: 5, text: String::from("        ") }));
}

#[test]
fn fortune_refresh_on_narrow_screen_still_replaces_text() {
    let (text, writes) = refresh_fortune("aa", Some("bbb"), 5);
    assert_eq!(text, "bbb");
    assert!(writes.is_none());
}

#[test]
fn fortune_refresh_without_fetch_keeps_text() {
    let (text, writes) = refresh_fortune("keep me", None, 80);
    assert_eq!(text, "keep me");
    assert!(writes.is_some());
}

#[test]
fn column_set_has_one_lane_per_screen_column() {
    let cols = make_columns(20, 10, false, false);
    assert_eq!(cols.len(), 19);
    for (i, c) in cols.iter().enumerate() {
        assert_eq!(c.column, (i + 1) as u16);
        assert_eq!(c.max_height, 10);
        assert!(!c.reverse);
        assert!(!c.horizontal);
    }
}

#[test]
fn horizontal_column_set_has_one_lane_per_row() {
    let cols = make_columns(20, 10, true, true);
    assert_eq!(cols.len(), 11);
    for (i, c) in cols.iter().enumerate() {
        assert_eq!(c.column, i as u16);
        assert_eq!(c.max_height, 20);
        assert!(c.reverse);
        assert!(c.horizontal);
        assert_eq!(c.start, 20);
    }
}

#[test]
fn advancing_columns_respects_reserved_cells() {
    let mut cols = make_columns(6, 10, false, false);
    // reserve every cell of lanes one to five, rows zero to ten
    let mut forbidden: Vec<(u16, u16)> = Vec::new();
    for x in 1..6u16 {
        for y in 0..11u16 {
            forbidden.push((x, y));
        }
    }
    let mut out: Vec<TermWrite> = Vec::new();
    for _ in 0..50 {
        advance_columns(&mut cols, Color::Blue, Color::White, &forbidden, &mut out);
    }
    // every write would have landed in a reserved cell, so none was emitted
    assert!(out.is_empty());
    assert_eq!(cols.len(), 5);
}

#[test]
fn one_forced_column_run() {
    // drive a single lane deterministically through a full cycle
    let mut column = Column::with_delay(1, 3, false, false, 0);
    let forbidden: Vec<(u16, u16)> = Vec::new();
    let mut out: Vec<TermWrite> = Vec::new();
    for _ in 0..3 {
        column.tick(1, 'r', 7, Color::Green, Color::White, &forbidden, &mut out);
    }
    assert_eq!(column.end, 3);
    assert_eq!(column.start, 0);
    // draining: the tail catches up one cell per tick
    for _ in 0..3 {
        column.tick(0, 'r', 7, Color::Green, Color::White, &forbidden, &mut out);
    }
    assert_eq!(column.start, 3);
    // the closed span resets and installs the drawn delay
    column.tick(0, 'r', 7, Color::Green, Color::White, &forbidden, &mut out);
    assert_eq!(column.start, 0);
    assert_eq!(column.end, 0);
    assert_eq!(column.delay, 7);
}
