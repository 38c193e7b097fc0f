use rmatrix::drawing::{Blank, Draw, Drawable, Frame, Label, Numbers};
use rmatrix::fonts::{doom_glyph, Doom, Font};
use rmatrix::screen::TermWrite;
use rmatrix::Size;

fn framed_label(text: &str) -> Drawable {
    let label = Label::from(text);
    let inner = Frame::from(' ', Box::new(Drawable::Label(label)));
    let outer = Frame::from('#', Box::new(Drawable::Frame(inner)));
    Drawable::Frame(outer)
}

#[test]
fn frame_measure_adds_two_each_dimension() {
    let label = Label::from("one line\nand two");
    let inner_size = label.size();
    let framed = Frame::from('#', Box::new(Drawable::Label(label)));
    let framed_size = framed.size();
    assert_eq!(framed_size.width(), inner_size.width() + 2);
    assert_eq!(framed_size.height(), inner_size.height() + 2);

    let doubly = Frame::from(' ', Box::new(Drawable::Frame(framed)));
    let doubly_size = doubly.size();
    assert_eq!(doubly_size.width(), inner_size.width() + 4);
    assert_eq!(doubly_size.height(), inner_size.height() + 4);
}

#[test]
fn render_is_idempotent() {
    let widget = framed_label("what goes up\nmust come down");
    let (writes_a, hitbox_a) = widget.draw(7, 3);
    let (writes_b, hitbox_b) = widget.draw(7, 3);
    assert_eq!(writes_a, writes_b);
    assert_eq!(hitbox_a, hitbox_b);
}

#[test]
fn blank_covers_smaller_predecessor() {
    let old_widget = framed_label("short\ntext");
    let old_size = old_widget.size();
    let blank = Blank::from(old_size);
    let (_, old_hitbox) = old_widget.draw(4, 9);
    let (_, blank_hitbox) = blank.draw(4, 9);
    for cell in &old_hitbox {
        assert!(blank_hitbox.contains(cell));
    }
}

#[test]
fn clock_string_width_is_glyph_sum_plus_spacers() {
    let text = "01:02:03PM";
    let numbers = Numbers::from(text);
    let mut glyph_sum: u16 = 0;
    for symbol in text.chars() {
        glyph_sum += doom_glyph(symbol).0.width();
    }
    assert_eq!(numbers.size().width(), glyph_sum + 10);
    assert_eq!(numbers.size().width(), 71);
    assert_eq!(numbers.size().height(), 5);
}

#[test]
fn numbers_renders_one_row_per_glyph_row() {
    let numbers = Numbers::from("1");
    let (writes, hitbox) = numbers.draw(1, 1);
    assert_eq!(writes.len(), 6);
    assert_eq!(
        writes[0],
        TermWrite::Text { x: 1, y: 1, text: String::from("  __  ") }
    );
    assert_eq!(
        writes[5],
        TermWrite::Text { x: 1, y: 6, text: String::from(r" \___/") }
    );
    // six columns, six rows (footprint height five, inclusive)
    assert_eq!(hitbox.len(), 6 * 6);
    assert!(hitbox.contains(&(1, 1)));
    assert!(hitbox.contains(&(6, 6)));
    assert!(!hitbox.contains(&(7, 1)));
}

#[test]
fn numbers_min_width_pads_with_spaces() {
    let numbers = Numbers::from("1").with_min_width(10);
    assert_eq!(numbers.size().width(), 10);
    let (writes, _) = numbers.draw(1, 1);
    assert_eq!(
        writes[0],
        TermWrite::Text { x: 1, y: 1, text: String::from("  __      ") }
    );
}

#[test]
fn numbers_min_width_never_truncates() {
    let numbers = Numbers::from("1").with_min_width(3);
    assert_eq!(numbers.size().width(), 6);
}

#[test]
fn label_splits_lines() {
    let label = Label::from("ab\ncd\r\nef");
    assert_eq!(label.lines, vec!["ab", "cd", "ef"]);
    assert_eq!(label.size().height(), 3);
    assert_eq!(label.size().width(), 3);
}

#[test]
fn label_trailing_newline_gives_no_empty_line() {
    let label = Label::from("hello\n");
    assert_eq!(label.lines, vec!["hello"]);
    assert_eq!(label.size().height(), 1);
    assert_eq!(label.size().width(), 6);
}

#[test]
fn label_draw_writes_lines_verbatim() {
    let label = Label::from("hi\nthere");
    let (writes, _) = label.draw(10, 20);
    assert_eq!(writes.len(), 2);
    assert_eq!(writes[0], TermWrite::Text { x: 10, y: 20, text: String::from("hi") });
    assert_eq!(writes[1], TermWrite::Text { x: 10, y: 21, text: String::from("there") });
}

#[test]
fn blank_from_grows_one_row() {
    let blank = Blank::from(Size::from(3, 4));
    assert_eq!(blank.size().height(), 4);
    assert_eq!(blank.size().width(), 4);
    let (writes, hitbox) = blank.draw(2, 2);
    assert_eq!(writes.len(), 4);
    assert_eq!(writes[0], TermWrite::Text { x: 2, y: 2, text: String::from("    ") });
    // four columns, five rows (inclusive footprint)
    assert_eq!(hitbox.len(), 4 * 5);
    assert!(hitbox.contains(&(2, 6)));
    assert!(!hitbox.contains(&(2, 7)));
}

#[test]
fn frame_border_is_a_full_outline() {
    let label = Label::from("x");
    let frame = Frame::from('#', Box::new(Drawable::Label(label)));
    let size = frame.size();
    assert_eq!(size.width(), 4);
    assert_eq!(size.height(), 3);
    let (writes, hitbox) = frame.draw(1, 1);
    // all four corners of the spanned box are drawn in the frame material
    for corner in [(1, 1), (4, 1), (1, 4), (4, 4)] {
        assert!(writes.contains(&TermWrite::Cell {
            x: corner.0,
            y: corner.1,
            ch: '#',
            fg: rmatrix::screen::Color::Default
        }));
        assert!(hitbox.contains(&corner));
    }
    // the full top border row
    for col in 1..=4u16 {
        assert!(hitbox.contains(&(col, 1)));
    }
    // the inner label lands one cell in
    assert!(writes.contains(&TermWrite::Text { x: 2, y: 2, text: String::from("x") }));
    assert!(hitbox.contains(&(2, 2)));
    // the hitbox never leaves the spanned box
    assert!(!hitbox.contains(&(5, 1)));
    assert!(!hitbox.contains(&(1, 5)));
}

#[test]
fn doom_font_used_for_numbers() {
    // the Numbers block is rendered through the Doom table
    let (size, _) = Doom::zero();
    let numbers = Numbers::from("0");
    assert_eq!(numbers.size().width(), size.width() + 1);
}
