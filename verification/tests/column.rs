use rmatrix::column::{random_char, Column};
use rmatrix::screen::{Color, TermWrite};

const CHARSET: &str = "ABCDEFGHIJKLMNOPQRSTUVWXYZabcdefghijklmnopqrstuvwxyz0123456789)(*&^%$#@!~";

fn cells_of(writes: &[TermWrite]) -> Vec<(u16, u16)> {
    writes
        .iter()
        .map(|w| match w {
            TermWrite::Text { x, y, .. } => (*x, *y),
            TermWrite::Cell { x, y, .. } => (*x, *y),
        })
        .collect()
}

#[test]
fn forced_growth_reaches_far_bound_in_ten_ticks() {
    let mut column = Column::with_delay(5, 10, false, false, 0);
    let forbidden: Vec<(u16, u16)> = Vec::new();
    let mut out: Vec<TermWrite> = Vec::new();
    for _ in 0..10 {
        column.tick(2, 'x', 0, Color::Blue, Color::White, &forbidden, &mut out);
    }
    assert_eq!(column.end, 10);
    assert_eq!(column.start, 10);
    // one further tick with the span closed resets both bounds to zero
    column.tick(2, 'x', 0, Color::Blue, Color::White, &forbidden, &mut out);
    assert_eq!(column.start, 0);
    assert_eq!(column.end, 0);
}

#[test]
fn reserved_cell_is_skipped_but_span_advances() {
    let mut column = Column::with_delay(3, 10, false, false, 0);
    // the head write of the first growth step would land on (3, 1)
    let forbidden: Vec<(u16, u16)> = vec![(3, 1)];
    let mut out: Vec<TermWrite> = Vec::new();
    column.tick(2, 'Z', 0, Color::Blue, Color::White, &forbidden, &mut out);
    assert_eq!(column.end, 1);
    assert_eq!(column.start, 1);
    // the write into the reserved cell was suppressed
    assert!(!cells_of(&out).contains(&(3, 1)));
    // so the freshly drawn symbol was not recorded either
    assert_eq!(column.last_made, ' ');
}

#[test]
fn unreserved_growth_writes_head_symbol() {
    let mut column = Column::with_delay(3, 10, false, false, 0);
    let forbidden: Vec<(u16, u16)> = Vec::new();
    let mut out: Vec<TermWrite> = Vec::new();
    column.tick(1, 'Z', 0, Color::Blue, Color::White, &forbidden, &mut out);
    assert_eq!(column.end, 1);
    assert_eq!(column.start, 0);
    assert_eq!(column.last_made, 'Z');
    assert!(out.contains(&TermWrite::Cell { x: 3, y: 1, ch: 'Z', fg: Color::White }));
}

#[test]
fn dormant_tick_counts_down_and_fades_tail() {
    let mut column = Column::with_delay(4, 10, false, false, 5);
    let forbidden: Vec<(u16, u16)> = Vec::new();
    let mut out: Vec<TermWrite> = Vec::new();
    column.tick(2, 'x', 0, Color::Blue, Color::White, &forbidden, &mut out);
    assert_eq!(column.delay, 4);
    assert_eq!(column.start, 0);
    assert_eq!(column.end, 0);
    // the fade erases the cell at the trailing travel bound
    assert_eq!(out, vec![TermWrite::Cell { x: 4, y: 10, ch: ' ', fg: Color::Default }]);
}

#[test]
fn action_zero_is_a_no_op() {
    let mut column = Column::with_delay(4, 10, false, false, 0);
    let forbidden: Vec<(u16, u16)> = Vec::new();
    let mut out: Vec<TermWrite> = Vec::new();
    column.tick(0, 'x', 0, Color::Blue, Color::White, &forbidden, &mut out);
    assert_eq!(column.start, 0);
    assert_eq!(column.end, 0);
    assert!(out.is_empty());
}

#[test]
fn reversed_column_travels_downward() {
    let mut column = Column::with_delay(2, 10, true, false, 0);
    assert_eq!(column.start, 10);
    assert_eq!(column.end, 10);
    let forbidden: Vec<(u16, u16)> = Vec::new();
    let mut out: Vec<TermWrite> = Vec::new();
    column.tick(2, 'x', 0, Color::Blue, Color::White, &forbidden, &mut out);
    assert_eq!(column.end, 9);
    assert_eq!(column.start, 9);
}

#[test]
fn reversed_column_resets_to_far_bound() {
    let mut column = Column::with_delay(2, 3, true, false, 0);
    let forbidden: Vec<(u16, u16)> = Vec::new();
    let mut out: Vec<TermWrite> = Vec::new();
    for _ in 0..3 {
        column.tick(2, 'x', 9, Color::Blue, Color::White, &forbidden, &mut out);
    }
    assert_eq!(column.start, 0);
    assert_eq!(column.end, 0);
    column.tick(2, 'x', 9, Color::Blue, Color::White, &forbidden, &mut out);
    assert_eq!(column.start, 3);
    assert_eq!(column.end, 3);
    assert_eq!(column.delay, 9);
}

#[test]
fn horizontal_reversed_column_stops_at_one() {
    let mut column = Column::with_delay(2, 3, true, true, 0);
    let forbidden: Vec<(u16, u16)> = Vec::new();
    let mut out: Vec<TermWrite> = Vec::new();
    for _ in 0..2 {
        column.tick(2, 'x', 0, Color::Blue, Color::White, &forbidden, &mut out);
    }
    // horizontal travel stops at column one, not zero
    assert_eq!(column.start, 1);
    assert_eq!(column.end, 1);
    column.tick(2, 'x', 0, Color::Blue, Color::White, &forbidden, &mut out);
    assert_eq!(column.start, 3);
    assert_eq!(column.end, 3);
}

#[test]
fn horizontal_column_swaps_axes() {
    let mut column = Column::with_delay(4, 10, false, true, 0);
    // horizontal lanes start at column one
    assert_eq!(column.start, 1);
    let forbidden: Vec<(u16, u16)> = Vec::new();
    let mut out: Vec<TermWrite> = Vec::new();
    column.tick(1, 'Q', 0, Color::Blue, Color::White, &forbidden, &mut out);
    assert_eq!(column.end, 2);
    // the head write lands at (travel position, lane)
    assert!(out.contains(&TermWrite::Cell { x: 2, y: 4, ch: 'Q', fg: Color::White }));
}

#[test]
fn random_char_stays_in_charset() {
    for _ in 0..200 {
        let c = random_char();
        assert!(CHARSET.contains(c));
    }
}

#[test]
fn random_char_varies() {
    let first = random_char();
    let mut saw_other = false;
    for _ in 0..300 {
        if random_char() != first {
            saw_other = true;
        }
    }
    assert!(saw_other);
}

#[test]
fn new_column_delay_bounds() {
    for _ in 0..50 {
        let vertical = Column::new(1, 20, false, false);
        assert!(vertical.delay <= 150);
        let horizontal = Column::new(1, 20, false, true);
        assert!(horizontal.delay <= 300);
    }
}

#[test]
fn update_preserves_span_bounds() {
    let mut column = Column::new(2, 8, false, false);
    let forbidden: Vec<(u16, u16)> = Vec::new();
    let mut out: Vec<TermWrite> = Vec::new();
    for _ in 0..500 {
        column.update(Color::Blue, Color::White, &forbidden, &mut out);
        assert!(column.start <= column.end);
        assert!(column.end <= 8);
    }
}
