//! Per-tick session logic: configuration lookup, the clock and fortune
//! overlays, and the advancement of the whole column set.
//!
//! The frame loop around this module is plain input/output: it polls the
//! terminal size and the keyboard, sleeps between ticks, and forwards the
//! write commands produced here. Every decision of a tick is taken by the
//! functions of this module.

use vstd::prelude::*;

use crate::column::{stepped, stepped_with_writes, writes_avoid, Column};
use crate::drawing::{
    blank_writes, drawable_hits, drawable_size, drawable_size_of, drawable_wf, drawable_writes,
    drawable_draw, in_rect, lemma_lines_count, lemma_lines_of_len, lemma_max_line_width_le,
    lemma_natural_width_bound, lemma_natural_width_nonneg, lines_of, max_line_width, natural_width, Blank, Draw, Drawable,
    Frame, Label, Numbers,
};
use crate::fonts::font_supported;
use crate::screen::{write_cells, Color, TermWrite, WriteView};
use crate::Size;

verus! {

broadcast use Seq::group_seq_flatten;

/// The row-length budget the clock string is padded to, so that the
/// header keeps a uniform width as the digits change.
pub const CLOCK_WIDTH_BUDGET: u16 = 75;

/// Compares two strings character by character.
fn str_eq(a: &str, b: &str) -> (r: bool)
    ensures
        r == (a@ == b@),
{
    let n = a.unicode_len();
    if n != b.unicode_len() {
        return false;
    }
    let mut i: usize = 0;
    while i < n
        invariant
            i <= n,
            n == a@.len(),
            n == b@.len(),
            forall|k: int| 0 <= k < i ==> a@[k] == b@[k],
        decreases n - i,
    {
        if a.get_char(i) != b.get_char(i) {
            return false;
        }
        i = i + 1;
    }
    proof {
        assert(a@ =~= b@);
    }
    true
}

/// The trail and head colors the command line accepts.
pub open spec fn spec_color(s: Seq<char>) -> Option<Color> {
    if s == "red"@ {
        Some(Color::Red)
    } else if s == "green"@ {
        Some(Color::Green)
    } else if s == "blue"@ {
        Some(Color::Blue)
    } else if s == "yellow"@ {
        Some(Color::Yellow)
    } else if s == "magenta"@ {
        Some(Color::Magenta)
    } else {
        None
    }
}

/// Looks a color name up; an unknown name is a configuration error the
/// caller reports before the render loop starts.
pub fn get_color(name: &str) -> (c: Option<Color>)
    ensures
        c == spec_color(name@),
{
    if str_eq(name, "red") {
        Some(Color::Red)
    } else if str_eq(name, "green") {
        Some(Color::Green)
    } else if str_eq(name, "blue") {
        Some(Color::Blue)
    } else if str_eq(name, "yellow") {
        Some(Color::Yellow)
    } else if str_eq(name, "magenta") {
        Some(Color::Magenta)
    } else {
        None
    }
}

/// Whether a drained batch of keypresses asks the program to quit.
pub fn wants_quit(keys: &Vec<char>) -> (b: bool)
    ensures
        b == keys@.contains('q'),
{
    let mut i: usize = 0;
    while i < keys.len()
        invariant
            i <= keys@.len(),
            forall|k: int| 0 <= k < i ==> keys@[k] != 'q',
        decreases keys@.len() - i,
    {
        if keys[i] == 'q' {
            return true;
        }
        i = i + 1;
    }
    false
}

/// The character of a single decimal digit.
pub open spec fn spec_digit(d: int) -> char {
    if d == 0 {
        '0'
    } else if d == 1 {
        '1'
    } else if d == 2 {
        '2'
    } else if d == 3 {
        '3'
    } else if d == 4 {
        '4'
    } else if d == 5 {
        '5'
    } else if d == 6 {
        '6'
    } else if d == 7 {
        '7'
    } else if d == 8 {
        '8'
    } else {
        '9'
    }
}

/// A number below one hundred, zero-padded to two digits.
pub open spec fn spec_two_digits(n: int) -> Seq<char> {
    seq![spec_digit(n / 10), spec_digit(n % 10)]
}

/// The ten characters of a twelve-hour clock reading: `HH:MM:SS` followed
/// by `AM` or `PM`.
pub open spec fn spec_clock_chars(h: u16, m: u16, s: u16, pm: bool) -> Seq<char> {
    spec_two_digits(h as int) + seq![':'] + spec_two_digits(m as int) + seq![':']
        + spec_two_digits(s as int) + (if pm {
        "PM"@
    } else {
        "AM"@
    })
}

/// The one-character string of a decimal digit.
fn digit_str(d: u16) -> (r: &'static str)
    requires
        d <= 9,
    ensures
        r@ == seq![spec_digit(d as int)],
{
    proof {
        reveal_strlit("0");
        reveal_strlit("1");
        reveal_strlit("2");
        reveal_strlit("3");
        reveal_strlit("4");
        reveal_strlit("5");
        reveal_strlit("6");
        reveal_strlit("7");
        reveal_strlit("8");
        reveal_strlit("9");
    }
    let r = match d {
        0 => "0",
        1 => "1",
        2 => "2",
        3 => "3",
        4 => "4",
        5 => "5",
        6 => "6",
        7 => "7",
        8 => "8",
        _ => "9",
    };
    proof {
        assert(r@ =~= seq![spec_digit(d as int)]);
    }
    r
}

/// Appends a number below one hundred as two decimal digits.
fn append_two_digits(s: &mut String, n: u16)
    requires
        n <= 99,
    ensures
        final(s)@ == old(s)@ + spec_two_digits(n as int),
{
    s.append(digit_str(n / 10));
    s.append(digit_str(n % 10));
    proof {
        assert(s@ =~= old(s)@ + spec_two_digits(n as int));
    }
}

/// Relies on chrono: `Local::now` reads the wall clock, and the `Timelike`
/// accessors `hour12`, `minute` and `second` return the hour from one to
/// twelve with a PM flag, and the minute and second from zero to
/// fifty-nine.
#[verifier::external_body]
fn local_time_parts() -> (t: (u16, u16, u16, bool))
    ensures
        1 <= t.0 <= 12,
        t.1 <= 59,
        t.2 <= 59,
{
    let now = chrono::Local::now();
    let (pm, hour) = chrono::Timelike::hour12(&now);
    (hour as u16, chrono::Timelike::minute(&now) as u16, chrono::Timelike::second(&now) as u16, pm)
}

/// Formats a clock reading as the ten supported symbols.
pub fn clock_string(h: u16, m: u16, s: u16, pm: bool) -> (t: String)
    requires
        1 <= h <= 12,
        m <= 59,
        s <= 59,
    ensures
        t@ == spec_clock_chars(h, m, s, pm),
        t@.len() == 10,
        forall|i: int| 0 <= i < t@.len() ==> font_supported(#[trigger] t@[i]),
{
    let mut t = String::new();
    append_two_digits(&mut t, h);
    proof {
        reveal_strlit(":");
        reveal_strlit("AM");
        reveal_strlit("PM");
    }
    t.append(":");
    append_two_digits(&mut t, m);
    t.append(":");
    append_two_digits(&mut t, s);
    if pm {
        t.append("PM");
    } else {
        t.append("AM");
    }
    proof {
        assert(t@ =~= spec_clock_chars(h, m, s, pm));
        assert forall|i: int| 0 <= i < t@.len() implies font_supported(#[trigger] t@[i]) by {
            assert(t@[i] == spec_clock_chars(h, m, s, pm)[i]);
        }
    }
    t
}

/// Reads the wall clock and formats it for the clock overlay. The ten
/// characters are always supported clock symbols.
pub fn clock_text() -> (t: String)
    ensures
        t@.len() == 10,
        forall|i: int| 0 <= i < t@.len() ==> font_supported(#[trigger] t@[i]),
        exists|h: u16, m: u16, s: u16, pm: bool|
            1 <= h <= 12 && m <= 59 && s <= 59 && t@ == spec_clock_chars(h, m, s, pm),
{
    let (h, m, s, pm) = local_time_parts();
    clock_string(h, m, s, pm)
}

/// The padded width of the clock text block.
pub open spec fn clock_width(t: Seq<char>) -> int {
    if natural_width(t) < CLOCK_WIDTH_BUDGET as int {
        CLOCK_WIDTH_BUDGET as int
    } else {
        natural_width(t)
    }
}

/// The clock overlay: the time string as large digits, padded to the
/// clock budget, inside a blank inner frame and a hash outer frame.
pub open spec fn clock_widget_shape(d: Drawable, t: Seq<char>) -> bool {
    &&& d matches Drawable::Frame(f)
    &&& f.material == '#'
    &&& (*f.inner) matches Drawable::Frame(g)
    &&& g.material == ' '
    &&& (*g.inner) matches Drawable::Numbers(n)
    &&& n.digits@ == t
    &&& n.size.height == 5
    &&& n.size.width == clock_width(t)
}

/// Builds and renders the clock overlay for this tick. The anchor is
/// column ten, four rows above the bottom of the screen; the returned
/// cells are the overlay's hitbox, which the column animators must treat
/// as reserved.
pub fn compose_clock(t: &str, y_size: u16) -> (r: (Vec<TermWrite>, Vec<(u16, u16)>))
    requires
        t@.len() > 0,
        forall|i: int| 0 <= i < t@.len() ==> font_supported(#[trigger] t@[i]),
        natural_width(t@) + 14 <= u16::MAX,
        y_size >= 13,
    ensures
        exists|d: Drawable|
            {
                &&& #[trigger] clock_widget_shape(d, t@)
                &&& drawable_wf(d)
                &&& drawable_size(d) == (Size { height: 9u16, width: (clock_width(t@) + 4) as u16 })
                &&& r.0.deep_view() == drawable_writes(d, 10, (y_size - 13) as u16)
                &&& forall|p: (u16, u16)| #[trigger]
                    r.1@.contains(p) <==> drawable_hits(d, 10, (y_size - 13) as u16, p)
            },
{
    proof {
        lemma_natural_width_nonneg(t@);
    }
    let n = Numbers::from(t).with_min_width(CLOCK_WIDTH_BUDGET);
    let ghost gn = n;
    let inner = Frame::from(' ', Box::new(Drawable::Numbers(n)));
    let ghost ginner = inner;
    let outer = Frame::from('#', Box::new(Drawable::Frame(inner)));
    let d = Drawable::Frame(outer);
    let ghost dg = d;
    proof {
        assert(drawable_wf(Drawable::Numbers(gn)));
        assert(drawable_size(Drawable::Numbers(gn)) == gn.size);
        assert(drawable_wf(Drawable::Frame(ginner)));
        assert(drawable_size(Drawable::Frame(ginner)) == (Size {
            height: 7u16,
            width: (gn.size.width + 2) as u16,
        }));
        assert(drawable_wf(dg));
        assert(drawable_size(dg) == (Size { height: 9u16, width: (gn.size.width + 4) as u16 }));
        assert(clock_widget_shape(dg, t@));
    }
    let size = drawable_size_of(&d);
    let y = y_size - size.height - 4;
    let r = drawable_draw(&d, 10, y);
    r
}

/// Reads the wall clock and renders the clock overlay for this tick. The
/// returned string is the time that was rendered.
pub fn compose_clock_now(y_size: u16) -> (r: (String, Vec<TermWrite>, Vec<(u16, u16)>))
    requires
        y_size >= 13,
    ensures
        r.0@.len() == 10,
        exists|h: u16, m: u16, s: u16, pm: bool|
            1 <= h <= 12 && m <= 59 && s <= 59 && r.0@ == spec_clock_chars(h, m, s, pm),
        exists|d: Drawable|
            {
                &&& #[trigger] clock_widget_shape(d, r.0@)
                &&& drawable_wf(d)
                &&& r.1.deep_view() == drawable_writes(d, 10, (y_size - 13) as u16)
                &&& forall|p: (u16, u16)| #[trigger]
                    r.2@.contains(p) <==> drawable_hits(d, 10, (y_size - 13) as u16, p)
            },
{
    let t = clock_text();
    proof {
        lemma_natural_width_bound(t@);
    }
    let (writes, cells) = compose_clock(t.as_str(), y_size);
    (t, writes, cells)
}

/// The framed width of the fortune overlay: the longest line, one spacer,
/// and two frames.
pub open spec fn fortune_width(q: Seq<char>) -> int {
    max_line_width(lines_of(q)) + 4
}

/// The framed height of the fortune overlay: one footprint row per line
/// plus two framing rows on each side.
pub open spec fn fortune_height(q: Seq<char>) -> int {
    lines_of(q).len() as int + 4
}

/// The fortune overlay: the cached text as a label inside a blank inner
/// frame and a hash outer frame.
pub open spec fn fortune_widget_shape(d: Drawable, q: Seq<char>) -> bool {
    &&& d matches Drawable::Frame(f)
    &&& f.material == '#'
    &&& (*f.inner) matches Drawable::Frame(g)
    &&& g.material == ' '
    &&& (*g.inner) matches Drawable::Label(l)
    &&& l.lines.deep_view() == lines_of(q)
    &&& l.size.height == lines_of(q).len()
    &&& l.size.width == max_line_width(lines_of(q))
}

/// The anchor column of the fortune overlay: ten columns in from the
/// right edge of the widget's own width.
pub open spec fn fortune_anchor(q: Seq<char>, x_size: u16) -> u16 {
    (x_size - fortune_width(q) - 10) as u16
}

/// The anchor row of the fortune overlay.
pub open spec fn fortune_row() -> u16 {
    5
}

/// Builds the framed fortune widget.
fn fortune_widget(q: &str) -> (d: Drawable)
    requires
        q@.len() > 0,
        q@.len() + 20 < u16::MAX,
    ensures
        fortune_widget_shape(d, q@),
        drawable_wf(d),
        drawable_size(d) == (Size {
            height: fortune_height(q@) as u16,
            width: fortune_width(q@) as u16,
        }),
        fortune_width(q@) <= q@.len() + 6,
        fortune_height(q@) <= q@.len() + 4,
{
    proof {
        lemma_lines_of_len(q@);
        lemma_max_line_width_le(lines_of(q@), q@.len() as int);
        lemma_lines_count(q@);
    }
    let label = Label::from(q);
    let ghost gl = label;
    let inner = Frame::from(' ', Box::new(Drawable::Label(label)));
    let ghost ginner = inner;
    let outer = Frame::from('#', Box::new(Drawable::Frame(inner)));
    let d = Drawable::Frame(outer);
    proof {
        assert(drawable_wf(Drawable::Label(gl)));
        assert(drawable_size(Drawable::Label(gl)) == gl.size);
        assert(drawable_wf(Drawable::Frame(ginner)));
        assert(drawable_size(Drawable::Frame(ginner)) == (Size {
            height: (gl.size.height + 2) as u16,
            width: (gl.size.width + 2) as u16,
        }));
        assert(drawable_wf(d));
        assert(drawable_size(d) == (Size {
            height: (gl.size.height + 4) as u16,
            width: (gl.size.width + 4) as u16,
        }));
    }
    d
}

/// Renders the fortune overlay for a steady tick. Returns `None`, and
/// renders nothing, when the screen is too narrow for the widget and its
/// right margin.
pub fn draw_fortune(q: &str, x_size: u16) -> (r: Option<(Vec<TermWrite>, Vec<(u16, u16)>)>)
    requires
        q@.len() > 0,
        q@.len() + 20 < u16::MAX,
    ensures
        r matches None ==> x_size < fortune_width(q@) + 10,
        r matches Some(v) ==> x_size >= fortune_width(q@) + 10 && exists|d: Drawable|
            {
                &&& #[trigger] fortune_widget_shape(d, q@)
                &&& drawable_wf(d)
                &&& v.0.deep_view() == drawable_writes(d, fortune_anchor(q@, x_size), fortune_row())
                &&& forall|p: (u16, u16)| #[trigger]
                    v.1@.contains(p) <==> drawable_hits(
                        d,
                        fortune_anchor(q@, x_size),
                        fortune_row(),
                        p,
                    )
            },
{
    let d = fortune_widget(q);
    let ghost dg = d;
    let size = drawable_size_of(&d);
    if x_size < size.width || x_size - size.width < 10 {
        return None;
    }
    let x = x_size - size.width - 10;
    let r = drawable_draw(&d, x, fortune_row_at());
    Some(r)
}

/// The anchor row of the fortune overlay, as a value.
fn fortune_row_at() -> (y: u16)
    ensures
        y == fortune_row(),
{
    5
}

/// Erases the region the fortune widget for text `q` occupies: a blank
/// sized one row taller than the widget, at the widget's own anchor.
/// Returns `None`, and erases nothing, when the screen is too narrow.
fn blank_fortune(q: &str, x_size: u16) -> (r: Option<(Vec<TermWrite>, Vec<(u16, u16)>)>)
    requires
        q@.len() > 0,
        q@.len() + 20 < u16::MAX,
    ensures
        r matches None ==> x_size < fortune_width(q@) + 10,
        r matches Some(v) ==> x_size >= fortune_width(q@) + 10 && {
            let bsize = Size {
                height: (fortune_height(q@) + 1) as u16,
                width: fortune_width(q@) as u16,
            };
            &&& v.0.deep_view() == blank_writes(bsize, fortune_anchor(q@, x_size), fortune_row())
            &&& forall|p: (u16, u16)| #[trigger]
                v.1@.contains(p) <==> in_rect(
                    fortune_anchor(q@, x_size),
                    fortune_row(),
                    fortune_width(q@),
                    fortune_height(q@) + 2,
                    p,
                )
        },
{
    let d = fortune_widget(q);
    let size = drawable_size_of(&d);
    if x_size < size.width || x_size - size.width < 10 {
        return None;
    }
    let x = x_size - size.width - 10;
    let b = Blank::from(size);
    let r = b.draw(x, fortune_row_at());
    Some(r)
}

/// The fortune refresh tick: when a fresh text was fetched, the region of
/// the old text is erased and the cache is replaced; in either case the
/// region of the (possibly new) current text is erased, so that the next
/// steady tick draws the widget on clean ground. Returns the new cache
/// text, and `None` for the writes when the screen is too narrow for one
/// of the regions.
pub fn refresh_fortune(q: &str, fetched: Option<&str>, x_size: u16) -> (r: (
    String,
    Option<(Vec<TermWrite>, Vec<(u16, u16)>)>,
))
    requires
        q@.len() > 0,
        q@.len() + 20 < u16::MAX,
        fetched matches Some(s) ==> s@.len() > 0 && s@.len() + 20 < u16::MAX,
    ensures
        r.0@ == (match fetched {
            Some(s) => s@,
            None => q@,
        }),
        (r.1 matches None) <==> (x_size < fortune_width(r.0@) + 10 || (fetched matches Some(_)
            && x_size < fortune_width(q@) + 10)),
        r.1 matches Some(v) ==> {
            let old_part: Seq<WriteView> = if fetched matches Some(_) {
                blank_writes(
                    Size {
                        height: (fortune_height(q@) + 1) as u16,
                        width: fortune_width(q@) as u16,
                    },
                    fortune_anchor(q@, x_size),
                    fortune_row(),
                )
            } else {
                Seq::empty()
            };
            &&& v.0.deep_view() == old_part + blank_writes(
                Size {
                    height: (fortune_height(r.0@) + 1) as u16,
                    width: fortune_width(r.0@) as u16,
                },
                fortune_anchor(r.0@, x_size),
                fortune_row(),
            )
            &&& forall|p: (u16, u16)| #[trigger]
                v.1@.contains(p) <==> ((fetched matches Some(_) && in_rect(
                    fortune_anchor(q@, x_size),
                    fortune_row(),
                    fortune_width(q@),
                    fortune_height(q@) + 2,
                    p,
                )) || in_rect(
                    fortune_anchor(r.0@, x_size),
                    fortune_row(),
                    fortune_width(r.0@),
                    fortune_height(r.0@) + 2,
                    p,
                ))
        },
{
    match fetched {
        Some(s) => {
            let old_blank = blank_fortune(q, x_size);
            let new_text = s.to_owned();
            let new_blank = blank_fortune(s, x_size);
            match (old_blank, new_blank) {
                (Some(mut ov), Some(nv)) => {
                    let ghost ow = ov.0.deep_view();
                    let ghost nw = nv.0.deep_view();
                    let mut nv0 = nv.0;
                    ov.0.append(&mut nv0);
                    let mut cells = ov.1;
                    let mut extra = nv.1;
                    let ghost oc = cells@;
                    let mut k: usize = 0;
                    while k < extra.len()
                        invariant
                            k <= extra@.len(),
                            cells@ =~= oc + extra@.take(k as int),
                        decreases extra@.len() - k,
                    {
                        cells.push(extra[k]);
                        k = k + 1;
                        proof {
                            assert(cells@ =~= oc + extra@.take(k as int));
                        }
                    }
                    proof {
                        assert(extra@.take(extra@.len() as int) =~= extra@);
                        assert(ov.0.deep_view() =~= ow + nw);
                        assert forall|p: (u16, u16)| #[trigger] cells@.contains(p) <==> (oc.contains(
                            p,
                        ) || extra@.contains(p)) by {
                            if cells@.contains(p) {
                                let i = choose|i: int| 0 <= i < cells@.len() && cells@[i] == p;
                                if i < oc.len() {
                                    assert(oc[i] == p);
                                } else {
                                    assert(extra@[i - oc.len()] == p);
                                }
                            }
                            if oc.contains(p) {
                                let i = choose|i: int| 0 <= i < oc.len() && oc[i] == p;
                                assert(cells@[i] == p);
                            }
                            if extra@.contains(p) {
                                let i = choose|i: int| 0 <= i < extra@.len() && extra@[i] == p;
                                assert(cells@[oc.len() + i] == p);
                            }
                        }
                    }
                    (new_text, Some((ov.0, cells)))
                },
                _ => (new_text, None),
            }
        },
        None => {
            let r = blank_fortune(q, x_size);
            match r {
                Some(v) => {
                    proof {
                        assert(v.0.deep_view() =~= Seq::<WriteView>::empty() + v.0.deep_view());
                    }
                    (q.to_owned(), Some(v))
                },
                None => (q.to_owned(), None),
            }
        },
    }
}

/// Builds one column animator per lane: every screen column but the first
/// for vertical travel, every screen row including row zero for
/// horizontal travel, each with its own random initial delay.
pub fn make_columns(x_size: u16, y_size: u16, rev: bool, horizontal: bool) -> (cols: Vec<Column>)
    requires
        horizontal ==> x_size >= 1,
        horizontal ==> y_size < u16::MAX,
    ensures
        cols@.len() == if !horizontal {
            if x_size >= 1 {
                x_size - 1
            } else {
                0int
            }
        } else {
            y_size + 1
        },
        forall|i: int|
            0 <= i < cols@.len() ==> {
                let c = #[trigger] cols@[i];
                &&& c.wf()
                &&& c.column == (if !horizontal {
                    1int
                } else {
                    0int
                }) + i
                &&& c.max_height == if !horizontal {
                    y_size
                } else {
                    x_size
                }
                &&& c.reverse == rev
                &&& c.horizontal == horizontal
                &&& c.last_made == ' '
                &&& c.start == if !rev {
                    c.lowest()
                } else {
                    c.max_height
                }
                &&& c.end == c.start
                &&& c.delay <= if !horizontal {
                    150int
                } else {
                    300int
                }
            },
{
    let mut cols: Vec<Column> = Vec::new();
    if !horizontal {
        let mut lane: u16 = 1;
        while lane < x_size
            invariant
                1 <= lane,
                x_size >= 1 ==> lane <= x_size,
                x_size == 0 ==> lane == 1,
                cols@.len() == lane - 1,
                forall|i: int|
                    0 <= i < cols@.len() ==> {
                        let c = #[trigger] cols@[i];
                        &&& c.wf()
                        &&& c.column == 1 + i
                        &&& c.max_height == y_size
                        &&& c.reverse == rev
                        &&& !c.horizontal
                        &&& c.last_made == ' '
                        &&& c.start == if !rev {
                            c.lowest()
                        } else {
                            c.max_height
                        }
                        &&& c.end == c.start
                        &&& c.delay <= 150
                    },
            decreases x_size - lane,
        {
            cols.push(Column::new(lane, y_size, rev, false));
            lane = lane + 1;
        }
    } else {
        let mut lane: u16 = 0;
        let mut done = false;
        while !done
            invariant
                lane <= y_size,
                y_size < u16::MAX,
                x_size >= 1,
                done ==> lane == y_size,
                cols@.len() == if done {
                    y_size + 1
                } else {
                    lane as int
                },
                forall|i: int|
                    0 <= i < cols@.len() ==> {
                        let c = #[trigger] cols@[i];
                        &&& c.wf()
                        &&& c.column == i
                        &&& c.max_height == x_size
                        &&& c.reverse == rev
                        &&& c.horizontal
                        &&& c.last_made == ' '
                        &&& c.start == if !rev {
                            c.lowest()
                        } else {
                            c.max_height
                        }
                        &&& c.end == c.start
                        &&& c.delay <= 300
                    },
            decreases y_size - lane, if done {
                0int
            } else {
                1int
            },
        {
            cols.push(Column::new(lane, x_size, rev, true));
            if lane == y_size {
                done = true;
            } else {
                lane = lane + 1;
            }
        }
    }
    cols
}

/// No write of either sequence touches a reserved cell, so neither does a
/// write of their concatenation.
proof fn lemma_writes_avoid_concat(a: Seq<WriteView>, b: Seq<WriteView>, forbidden: Seq<(u16, u16)>)
    requires
        writes_avoid(a, forbidden),
        writes_avoid(b, forbidden),
    ensures
        writes_avoid(a + b, forbidden),
{
    assert forall|i: int, p: (u16, u16)|
        0 <= i < (a + b).len() && #[trigger] write_cells((a + b)[i]).contains(p) implies !forbidden
        .contains(p) by {
        if i < a.len() {
            assert((a + b)[i] == a[i]);
            assert(write_cells(a[i]).contains(p));
        } else {
            assert((a + b)[i] == b[i - a.len()]);
            assert(write_cells(b[i - a.len()]).contains(p));
        }
    }
}

/// Advances every column by one tick against this tick's reserved set.
/// Each column takes one step of the state machine under some admissible
/// random draws; the appended writes are exactly the concatenation of each
/// column's tick writes under those same draws, in lane order; and none of
/// the writes touches a reserved cell.
pub fn advance_columns(
    cols: &mut Vec<Column>,
    trail: Color,
    head: Color,
    forbidden: &Vec<(u16, u16)>,
    out: &mut Vec<TermWrite>,
)
    requires
        forall|i: int| 0 <= i < old(cols)@.len() ==> (#[trigger] old(cols)@[i]).wf(),
    ensures
        final(cols)@.len() == old(cols)@.len(),
        forall|i: int| 0 <= i < final(cols)@.len() ==> (#[trigger] final(cols)@[i]).wf(),
        forall|i: int|
            0 <= i < final(cols)@.len() ==> #[trigger] stepped(
                old(cols)@[i],
                final(cols)@[i],
                forbidden@,
            ),
        final(out).deep_view().take(old(out).deep_view().len() as int) == old(out).deep_view(),
        exists|segments: Seq<Seq<WriteView>>|
            {
                &&& segments.len() == old(cols)@.len()
                &&& final(out).deep_view() == old(out).deep_view() + segments.flatten()
                &&& forall|i: int|
                    0 <= i < segments.len() ==> stepped_with_writes(
                        old(cols)@[i],
                        final(cols)@[i],
                        #[trigger] segments[i],
                        trail,
                        head,
                        forbidden@,
                    )
            },
        writes_avoid(
            final(out).deep_view().skip(old(out).deep_view().len() as int),
            forbidden@,
        ),
{
    let ghost base = out.deep_view();
    let ghost mut segments: Seq<Seq<WriteView>> = Seq::empty();
    proof {
        assert(out.deep_view() =~= base + segments.flatten());
    }
    let mut i: usize = 0;
    while i < cols.len()
        invariant
            i <= cols@.len(),
            cols@.len() == old(cols)@.len(),
            forall|k: int| i <= k < cols@.len() ==> cols@[k] == old(cols)@[k],
            forall|k: int| 0 <= k < old(cols)@.len() ==> (#[trigger] old(cols)@[k]).wf(),
            forall|k: int| 0 <= k < i ==> (#[trigger] cols@[k]).wf(),
            forall|k: int| 0 <= k < i ==> #[trigger] stepped(old(cols)@[k], cols@[k], forbidden@),
            segments.len() == i,
            out.deep_view() == base + segments.flatten(),
            forall|k: int|
                0 <= k < i ==> stepped_with_writes(
                    old(cols)@[k],
                    cols@[k],
                    #[trigger] segments[k],
                    trail,
                    head,
                    forbidden@,
                ),
            base.len() <= out.deep_view().len(),
            out.deep_view().take(base.len() as int) == base,
            writes_avoid(out.deep_view().skip(base.len() as int), forbidden@),
        decreases cols@.len() - i,
    {
        let ghost before = out.deep_view();
        let mut c = cols[i];
        c.update(trail, head, forbidden, out);
        cols.set(i, c);
        proof {
            let segment = out.deep_view().skip(before.len() as int);
            segments = segments.push(segment);
            assert(out.deep_view() =~= before + segment);
            assert(out.deep_view() =~= base + segments.flatten());
            assert(out.deep_view().take(base.len() as int) =~= base);
            lemma_writes_avoid_concat(
                before.skip(base.len() as int),
                out.deep_view().skip(before.len() as int),
                forbidden@,
            );
            assert(out.deep_view().skip(base.len() as int) =~= before.skip(base.len() as int)
                + out.deep_view().skip(before.len() as int));
        }
        i = i + 1;
    }
    proof {
        assert(final(out).deep_view() == base + segments.flatten());
    }
}

} // verus!
