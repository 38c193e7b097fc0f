//! Drawable widgets: sized text, frames, labels and blank fillers.
//!
//! Every widget measures its own footprint and renders itself at an anchor
//! cell, returning both the terminal writes it produces and its hitbox: the
//! exact set of cells the caller must treat as occupied. The hitbox is a
//! superset of every cell the writes touch, and rendering is a pure function
//! of the widget and the anchor, so re-rendering reproduces the same output.

use vstd::prelude::*;

use crate::fonts::{doom_glyph, doom_rows, doom_size, font_supported, lemma_doom_shape};
use crate::screen::{spaces, spaces_seq, write_cells, Color, TermWrite, WriteView};
use crate::Size;

verus! {

broadcast use vstd::seq_lib::lemma_seq_contains_after_push;

/// Membership in the rectangle of `w` columns and `rows` rows anchored at
/// `(x, y)`.
pub open spec fn in_rect(x: u16, y: u16, w: int, rows: int, p: (u16, u16)) -> bool {
    &&& x <= p.0
    &&& p.0 < x + w
    &&& y <= p.1
    &&& p.1 < y + rows
}

/// Collects every cell of the rectangle that spans `x_len` columns and
/// `y_len + 1` rows from `(x0, y0)`, each cell exactly once; the inclusive
/// row bound is the crate's footprint convention.
fn dense_hitbox(x0: u16, x_len: u16, y0: u16, y_len: u16) -> (v: Vec<(u16, u16)>)
    requires
        x0 + x_len <= u16::MAX,
        y0 + y_len <= u16::MAX,
    ensures
        forall|p: (u16, u16)| v@.contains(p) <==> in_rect(x0, y0, x_len as int, y_len + 1, p),
        v@.no_duplicates(),
        v@.len() == x_len as int * (y_len + 1),
{
    let mut v: Vec<(u16, u16)> = Vec::new();
    let mut dx: u16 = 0;
    while dx < x_len
        invariant
            dx <= x_len,
            x0 + x_len <= u16::MAX,
            y0 + y_len <= u16::MAX,
            forall|p: (u16, u16)| v@.contains(p) <==> in_rect(x0, y0, dx as int, y_len + 1, p),
            v@.no_duplicates(),
            v@.len() == dx as int * (y_len + 1),
        decreases x_len - dx,
    {
        let ghost base = v@.len();
        let mut dy: u16 = 0;
        let mut done = false;
        while !done
            invariant
                dy <= y_len,
                x0 + x_len <= u16::MAX,
                y0 + y_len <= u16::MAX,
                dx < x_len,
                done ==> dy == y_len,
                forall|p: (u16, u16)|
                    v@.contains(p) <==> (in_rect(x0, y0, dx as int, y_len + 1, p) || (p.0 == x0
                        + dx && y0 <= p.1 && p.1 < y0 + (if done {
                        y_len + 1
                    } else {
                        dy as int
                    }))),
                v@.no_duplicates(),
                base == dx as int * (y_len + 1),
                v@.len() == base + (if done {
                    y_len + 1
                } else {
                    dy as int
                }),
            decreases y_len - dy, if done {
                0int
            } else {
                1int
            },
        {
            let cell = (x0 + dx, y0 + dy);
            proof {
                assert(!v@.contains(cell));
            }
            let ghost prev = v@;
            v.push(cell);
            proof {
                assert forall|a: int, b: int|
                    0 <= a < b < v@.len() implies v@[a] != v@[b] by {
                    if b == v@.len() - 1 {
                        assert(prev[a] == v@[a]);
                        assert(prev.contains(v@[a]));
                    }
                }
            }
            if dy == y_len {
                done = true;
            } else {
                dy = dy + 1;
            }
        }
        dx = dx + 1;
        proof {
            assert(dx as int * (y_len + 1) == (dx - 1) as int * (y_len + 1) + (y_len + 1))
                by (nonlinear_arith);
        }
    }
    v
}

/// A widget that can measure its footprint and render itself at an anchor
/// cell. Rendering returns the produced terminal writes together with the
/// hitbox: every cell the caller must treat as occupied. The writes are a
/// pure function of the widget and the anchor, so re-rendering the same
/// widget at the same anchor reproduces identical output.
pub trait Draw {
    /// The widget's internal invariant.
    spec fn wf(&self) -> bool;

    /// The widget's footprint. A footprint of height `h` may occupy up to
    /// `h + 1` terminal rows.
    spec fn spec_size(&self) -> Size;

    /// The terminal writes rendering produces at anchor `(x, y)`.
    spec fn writes(&self, x: u16, y: u16) -> Seq<WriteView>;

    /// Whether rendering at `(x, y)` claims cell `p` in its hitbox.
    spec fn hits(&self, x: u16, y: u16, p: (u16, u16)) -> bool;

    fn size(&self) -> (s: Size)
        requires
            self.wf(),
        ensures
            s == self.spec_size(),
    ;

    fn draw(&self, x: u16, y: u16) -> (r: (Vec<TermWrite>, Vec<(u16, u16)>))
        requires
            self.wf(),
            x + self.spec_size().width <= u16::MAX,
            y + self.spec_size().height <= u16::MAX,
        ensures
            r.0.deep_view() == self.writes(x, y),
            forall|p: (u16, u16)| #[trigger] r.1@.contains(p) <==> self.hits(x, y, p),
            r.1@.no_duplicates(),
    ;
}

/// A string of clock symbols rendered through the font table as one
/// row-major block. The natural width is the sum of the glyph widths plus
/// one spacer column in front of every symbol; `size.width` may exceed the
/// natural width when a minimum width was requested, and the excess is
/// rendered as trailing padding.
pub struct Numbers {
    pub digits: Vec<char>,
    pub size: Size,
}

/// The natural footprint width of a symbol string: one spacer column per
/// symbol plus each symbol's glyph width.
pub open spec fn natural_width(digits: Seq<char>) -> int
    decreases digits.len(),
{
    if digits.len() == 0 {
        0
    } else {
        natural_width(digits.drop_last()) + 1 + doom_size(digits.last()).width
    }
}

/// Row `r` of the rendered block before padding: a spacer column followed
/// by the glyph row, for each symbol in turn.
pub open spec fn numbers_row(digits: Seq<char>, r: int) -> Seq<char>
    decreases digits.len(),
{
    if digits.len() == 0 {
        Seq::empty()
    } else {
        numbers_row(digits.drop_last(), r) + seq![' '] + doom_rows(digits.last())[r]
    }
}

/// Row `r` of the rendered block, padded with spaces to `width` columns.
pub open spec fn numbers_padded_row(digits: Seq<char>, width: u16, r: int) -> Seq<char> {
    numbers_row(digits, r) + spaces_seq(width - numbers_row(digits, r).len())
}

/// The terminal writes a [`Numbers`] block produces at anchor `(x, y)`:
/// one text run per glyph row.
pub open spec fn numbers_writes(digits: Seq<char>, width: u16, x: u16, y: u16) -> Seq<WriteView> {
    Seq::new(
        6,
        |r: int|
            WriteView::Text { x, y: (y + r) as u16, text: numbers_padded_row(digits, width, r) },
    )
}

/// Natural width grows by at least two for every appended symbol.
pub proof fn lemma_natural_width_take(digits: Seq<char>, i: int)
    requires
        0 <= i <= digits.len(),
    ensures
        natural_width(digits.take(i)) <= natural_width(digits),
        natural_width(digits.take(i)) >= 0,
    decreases digits.len() - i,
{
    lemma_natural_width_nonneg(digits.take(i));
    if i < digits.len() {
        assert(digits.take(i + 1).drop_last() =~= digits.take(i));
        lemma_natural_width_take(digits, i + 1);
    } else {
        assert(digits.take(i) =~= digits);
    }
}

pub proof fn lemma_natural_width_nonneg(digits: Seq<char>)
    ensures
        natural_width(digits) >= 0,
    decreases digits.len(),
{
    if digits.len() > 0 {
        lemma_natural_width_nonneg(digits.drop_last());
    }
}

/// No supported glyph is wider than eight columns, so a symbol string's
/// natural width is at most nine columns per symbol.
pub proof fn lemma_natural_width_bound(digits: Seq<char>)
    requires
        forall|i: int| 0 <= i < digits.len() ==> font_supported(#[trigger] digits[i]),
    ensures
        natural_width(digits) <= 9 * digits.len(),
    decreases digits.len(),
{
    if digits.len() > 0 {
        assert(forall|i: int|
            0 <= i < digits.drop_last().len() ==> font_supported(
                #[trigger] digits.drop_last()[i],
            ));
        lemma_natural_width_bound(digits.drop_last());
    }
}

/// An unpadded row is exactly as long as the natural width.
pub proof fn lemma_numbers_row_len(digits: Seq<char>, r: int)
    requires
        forall|i: int| 0 <= i < digits.len() ==> font_supported(#[trigger] digits[i]),
        0 <= r < 6,
    ensures
        numbers_row(digits, r).len() == natural_width(digits),
    decreases digits.len(),
{
    if digits.len() > 0 {
        assert(forall|i: int|
            0 <= i < digits.drop_last().len() ==> font_supported(
                #[trigger] digits.drop_last()[i],
            ));
        lemma_numbers_row_len(digits.drop_last(), r);
        lemma_doom_shape(digits.last());
    }
}

impl Draw for Numbers {
    /// Every symbol is supported, the footprint is at least the natural
    /// width, and the height is the glyph height less one (the inclusive
    /// footprint convention).
    open spec fn wf(&self) -> bool {
        &&& forall|i: int| 0 <= i < self.digits@.len() ==> font_supported(#[trigger] self.digits@[i])
        &&& self.size.height == 5
        &&& natural_width(self.digits@) <= self.size.width
    }

    open spec fn spec_size(&self) -> Size {
        self.size
    }

    open spec fn writes(&self, x: u16, y: u16) -> Seq<WriteView> {
        numbers_writes(self.digits@, self.size.width, x, y)
    }

    open spec fn hits(&self, x: u16, y: u16, p: (u16, u16)) -> bool {
        in_rect(x, y, self.size.width as int, self.size.height + 1, p)
    }

    fn size(&self) -> (s: Size) {
        self.size
    }

    fn draw(&self, x: u16, y: u16) -> (r: (Vec<TermWrite>, Vec<(u16, u16)>)) {
        let ghost digits = self.digits@;
        let ghost width = self.size.width;
        let mut writes: Vec<TermWrite> = Vec::new();
        let mut row: u16 = 0;
        while row < 6
            invariant
                row <= 6,
                self.wf(),
                x + self.size.width <= u16::MAX,
                y + self.size.height <= u16::MAX,
                digits == self.digits@,
                width == self.size.width,
                writes.deep_view() == numbers_writes(digits, width, x, y).take(row as int),
            decreases 6 - row,
        {
            let mut s = String::new();
            let mut col: u16 = 0;
            let mut k: usize = 0;
            while k < self.digits.len()
                invariant
                    k <= self.digits@.len(),
                    self.wf(),
                    row < 6,
                    digits == self.digits@,
                    width == self.size.width,
                    col == natural_width(digits.take(k as int)),
                    col <= width,
                    s@ == numbers_row(digits.take(k as int), row as int),
                decreases self.digits@.len() - k,
            {
                let c = self.digits[k];
                proof {
                    reveal_strlit(" ");
                    lemma_natural_width_take(digits, k + 1);
                    assert(digits.take(k + 1).drop_last() =~= digits.take(k as int));
                    assert(digits.take(k + 1).last() == c);
                    lemma_doom_shape(c);
                }
                s.append(" ");
                let (gsize, glyph) = doom_glyph(c);
                let grow: &'static str = glyph.0[row as usize];
                proof {
                    assert(glyph.0@[row as int]@ == doom_rows(c)[row as int]);
                }
                s.append(grow);
                col = col + 1 + gsize.width;
                k = k + 1;
                proof {
                    assert(s@ =~= numbers_row(digits.take(k as int), row as int));
                }
            }
            proof {
                assert(digits.take(self.digits@.len() as int) =~= digits);
                lemma_numbers_row_len(digits, row as int);
            }
            let pad = spaces(self.size.width - col);
            s.append(pad.as_str());
            proof {
                assert(s@ =~= numbers_padded_row(digits, width, row as int));
            }
            let ghost prev = writes.deep_view();
            let ghost srow = s@;
            writes.push(TermWrite::Text { x, y: y + row, text: s });
            proof {
                let full = numbers_writes(digits, width, x, y);
                assert(writes.deep_view() =~= prev.push(
                    WriteView::Text { x, y: (y + row) as u16, text: srow },
                ));
                assert(full[row as int] == WriteView::Text {
                    x,
                    y: (y + row) as u16,
                    text: numbers_padded_row(digits, width, row as int),
                });
            }
            row = row + 1;
            proof {
                assert(writes.deep_view() =~= numbers_writes(digits, width, x, y).take(
                    row as int,
                ));
            }
        }
        let hitbox = dense_hitbox(x, self.size.width, y, self.size.height);
        proof {
            assert(writes.deep_view() =~= numbers_writes(digits, width, x, y));
        }
        (writes, hitbox)
    }
}

impl Numbers {
    pub fn from(digits: &str) -> (n: Numbers)
        requires
            digits@.len() > 0,
            forall|i: int| 0 <= i < digits@.len() ==> font_supported(#[trigger] digits@[i]),
            natural_width(digits@) <= u16::MAX,
        ensures
            n.digits@ == digits@,
            n.size.height == 5,
            n.size.width == natural_width(digits@),
            n.wf(),
    {
        let mut out = Self::new();
        out.setup(digits);
        out
    }

    /// Raises the footprint to at least `width`, padding but never
    /// truncating.
    pub fn with_min_width(self, width: u16) -> (n: Numbers)
        ensures
            n.digits == self.digits,
            n.size.height == self.size.height,
            n.size.width == if self.size.width < width {
                width
            } else {
                self.size.width
            },
            self.wf() ==> n.wf(),
    {
        let mut out = self;
        if out.size.width < width {
            out.size.width = width;
        }
        out
    }

    fn new() -> (n: Numbers)
        ensures
            n.digits@ =~= Seq::<char>::empty(),
            n.size == (Size { height: 0u16, width: 0u16 }),
    {
        Numbers { digits: Vec::new(), size: Size { height: 0, width: 0 } }
    }

    fn setup(&mut self, new: &str)
        requires
            new@.len() > 0,
            forall|i: int| 0 <= i < new@.len() ==> font_supported(#[trigger] new@[i]),
            natural_width(new@) <= u16::MAX,
        ensures
            final(self).digits@ == new@,
            final(self).size.height == 5,
            final(self).size.width == natural_width(new@),
            final(self).wf(),
    {
        let n = new.unicode_len();
        let mut digits: Vec<char> = Vec::new();
        let mut w: u16 = 0;
        let mut i: usize = 0;
        while i < n
            invariant
                i <= n,
                n == new@.len(),
                forall|k: int| 0 <= k < new@.len() ==> font_supported(#[trigger] new@[k]),
                natural_width(new@) <= u16::MAX,
                digits@ =~= new@.take(i as int),
                w == natural_width(new@.take(i as int)),
            decreases n - i,
        {
            let c = new.get_char(i);
            proof {
                lemma_natural_width_take(new@, i + 1);
                assert(new@.take(i + 1).drop_last() =~= new@.take(i as int));
                assert(new@.take(i + 1).last() == c);
            }
            let (gsize, _glyph) = doom_glyph(c);
            digits.push(c);
            w = w + 1 + gsize.width;
            i = i + 1;
            proof {
                assert(digits@ =~= new@.take(i as int));
            }
        }
        proof {
            assert(new@.take(n as int) =~= new@);
        }
        self.digits = digits;
        self.size = Size { height: 5, width: w };
    }
}

/// Pre-formatted multi-line text rendered verbatim, line by line.
pub struct Label {
    pub lines: Vec<String>,
    pub size: Size,
}

/// Drops a final carriage return from a line body, so that both bare
/// newlines and carriage-return line endings delimit lines.
pub open spec fn strip_cr(line: Seq<char>) -> Seq<char> {
    if line.len() > 0 && line.last() == '\r' {
        line.drop_last()
    } else {
        line
    }
}

/// The index of the first newline of `s`, or `s.len()` if there is none.
pub open spec fn nl_pos(s: Seq<char>) -> int
    decreases s.len(),
{
    if s.len() == 0 {
        0
    } else if s[0] == '\n' {
        0
    } else {
        1 + nl_pos(s.skip(1))
    }
}

/// The lines of a text: split at newlines, with a carriage return before a
/// newline dropped, and with an optional final line terminator producing no
/// empty last line.
pub open spec fn lines_of(s: Seq<char>) -> Seq<Seq<char>>
    decreases s.len(),
{
    if s.len() == 0 {
        Seq::empty()
    } else {
        let i = nl_pos(s);
        if 0 <= i && i < s.len() {
            seq![strip_cr(s.take(i))] + lines_of(s.skip(i + 1))
        } else {
            seq![s]
        }
    }
}

/// One more than the length of the longest line, or zero if there is none:
/// the footprint width of a label.
pub open spec fn max_line_width(lines: Seq<Seq<char>>) -> int
    decreases lines.len(),
{
    if lines.len() == 0 {
        0
    } else {
        let rest = max_line_width(lines.drop_last());
        if rest < lines.last().len() + 1 {
            lines.last().len() as int + 1
        } else {
            rest
        }
    }
}

/// The writes of a label: each line verbatim on its own row.
pub open spec fn label_writes(lines: Seq<Seq<char>>, x: u16, y: u16) -> Seq<WriteView> {
    Seq::new(lines.len(), |i: int| WriteView::Text { x, y: (y + i) as u16, text: lines[i] })
}

pub proof fn lemma_nl_pos_bounds(s: Seq<char>)
    ensures
        0 <= nl_pos(s) <= s.len(),
        nl_pos(s) < s.len() ==> s[nl_pos(s)] == '\n',
    decreases s.len(),
{
    if s.len() > 0 && s[0] != '\n' {
        lemma_nl_pos_bounds(s.skip(1));
    }
}

/// If `s[j]` is the first newline of `s`, then `nl_pos(s) == j`.
pub proof fn lemma_nl_pos_found(s: Seq<char>, j: int)
    requires
        0 <= j < s.len(),
        s[j] == '\n',
        forall|k: int| 0 <= k < j ==> s[k] != '\n',
    ensures
        nl_pos(s) == j,
    decreases j,
{
    if j > 0 {
        lemma_nl_pos_found(s.skip(1), j - 1);
    }
}

/// A text without newlines is a single line.
pub proof fn lemma_nl_pos_none(s: Seq<char>)
    requires
        forall|k: int| 0 <= k < s.len() ==> s[k] != '\n',
    ensures
        nl_pos(s) == s.len(),
    decreases s.len(),
{
    if s.len() > 0 {
        lemma_nl_pos_none(s.skip(1));
    }
}

/// A text has at most one line per character, and at least one line if it
/// is not empty.
pub proof fn lemma_lines_count(s: Seq<char>)
    ensures
        lines_of(s).len() <= s.len(),
        s.len() > 0 ==> lines_of(s).len() >= 1,
    decreases s.len(),
{
    if s.len() > 0 {
        lemma_nl_pos_bounds(s);
        let i = nl_pos(s);
        if i < s.len() {
            lemma_lines_count(s.skip(i + 1));
        }
    }
}

/// Every line of a text is at most as long as the text itself.
pub proof fn lemma_lines_of_len(s: Seq<char>)
    ensures
        forall|i: int|
            0 <= i < lines_of(s).len() ==> (#[trigger] lines_of(s)[i]).len() <= s.len(),
    decreases s.len(),
{
    if s.len() > 0 {
        lemma_nl_pos_bounds(s);
        let j = nl_pos(s);
        if j < s.len() {
            lemma_lines_of_len(s.skip(j + 1));
            assert forall|i: int|
                0 <= i < lines_of(s).len() implies (#[trigger] lines_of(s)[i]).len()
                <= s.len() by {
                if i > 0 {
                    assert(lines_of(s)[i] == lines_of(s.skip(j + 1))[i - 1]);
                }
            }
        }
    }
}

/// A bound on every line bounds the footprint width.
pub proof fn lemma_max_line_width_le(lines: Seq<Seq<char>>, bound: int)
    requires
        bound >= 0,
        forall|i: int| 0 <= i < lines.len() ==> (#[trigger] lines[i]).len() <= bound,
    ensures
        0 <= max_line_width(lines) <= bound + 1,
    decreases lines.len(),
{
    if lines.len() > 0 {
        assert(forall|i: int|
            0 <= i < lines.drop_last().len() ==> (#[trigger] lines.drop_last()[i]).len()
                <= bound);
        lemma_max_line_width_le(lines.drop_last(), bound);
    }
}

/// The footprint width of a label is wide enough for each of its lines.
pub proof fn lemma_max_line_width_ge(lines: Seq<Seq<char>>, i: int)
    requires
        0 <= i < lines.len(),
    ensures
        lines[i].len() + 1 <= max_line_width(lines),
    decreases lines.len(),
{
    if i < lines.len() - 1 {
        lemma_max_line_width_ge(lines.drop_last(), i);
    }
}

impl Label {
    pub fn from(contents: &str) -> (l: Label)
        requires
            contents@.len() > 0,
            contents@.len() < u16::MAX,
        ensures
            l.lines.deep_view() == lines_of(contents@),
            l.size.height == lines_of(contents@).len(),
            l.size.width == max_line_width(lines_of(contents@)),
            l.wf(),
    {
        let ghost s = contents@;
        let n = contents.unicode_len();
        let mut lines: Vec<String> = Vec::new();
        let mut width: u16 = 0;
        let mut start: usize = 0;
        let mut i: usize = 0;
        proof {
            assert(s.skip(0) =~= s);
        }
        while i < n
            invariant
                0 <= start <= i <= n,
                n == s.len(),
                0 < n < u16::MAX,
                s == contents@,
                lines.deep_view() + lines_of(s.skip(start as int)) =~= lines_of(s),
                forall|k: int| start <= k < i ==> s[k] != '\n',
                width == max_line_width(lines.deep_view()),
                width <= n,
            decreases n - i,
        {
            if contents.get_char(i) == '\n' {
                let end = if i > start && contents.get_char(i - 1) == '\r' {
                    i - 1
                } else {
                    i
                };
                proof {
                    let tail = s.skip(start as int);
                    lemma_nl_pos_found(tail, i - start);
                    assert(tail.take(i - start) =~= s.subrange(start as int, i as int));
                    assert(tail.skip(i - start + 1) =~= s.skip(i + 1));
                    assert(strip_cr(s.subrange(start as int, i as int)) =~= s.subrange(
                        start as int,
                        end as int,
                    ));
                }
                let line = contents.substring_char(start, end).to_owned();
                let line_width = (end - start) as u16 + 1;
                let ghost prev = lines.deep_view();
                lines.push(line);
                proof {
                    assert(lines.deep_view() =~= prev.push(
                        s.subrange(start as int, end as int),
                    ));
                    assert(lines.deep_view().drop_last() =~= prev);
                    assert(lines.deep_view() + lines_of(s.skip(i + 1)) =~= lines_of(s));
                }
                if width < line_width {
                    width = line_width;
                }
                start = i + 1;
            }
            i = i + 1;
        }
        if start < n {
            proof {
                let tail = s.skip(start as int);
                lemma_nl_pos_none(tail);
            }
            let line = contents.substring_char(start, n).to_owned();
            let line_width = (n - start) as u16 + 1;
            let ghost prev = lines.deep_view();
            lines.push(line);
            proof {
                assert(lines.deep_view() =~= prev.push(s.skip(start as int)));
                assert(lines.deep_view().drop_last() =~= prev);
                assert(lines.deep_view() =~= lines_of(s));
            }
            if width < line_width {
                width = line_width;
            }
        } else {
            proof {
                assert(s.skip(start as int) =~= Seq::<char>::empty());
                assert(lines.deep_view() =~= lines_of(s));
            }
        }
        proof {
            lemma_lines_count(s);
        }
        let count = lines.len() as u16;
        let l = Label { lines, size: Size { height: count, width } };
        proof {
            assert forall|k: int| 0 <= k < l.lines.deep_view().len() implies (
            #[trigger] l.lines.deep_view()[k]).len() + 1 <= l.size.width by {
                lemma_max_line_width_ge(l.lines.deep_view(), k);
            }
        }
        l
    }
}

impl Draw for Label {
    /// The footprint height is the line count, and every line is strictly
    /// narrower than the footprint width.
    open spec fn wf(&self) -> bool {
        &&& self.lines.deep_view().len() == self.size.height
        &&& forall|i: int|
            0 <= i < self.lines.deep_view().len() ==> (#[trigger] self.lines.deep_view()[i]).len()
                + 1 <= self.size.width
    }

    open spec fn spec_size(&self) -> Size {
        self.size
    }

    open spec fn writes(&self, x: u16, y: u16) -> Seq<WriteView> {
        label_writes(self.lines.deep_view(), x, y)
    }

    open spec fn hits(&self, x: u16, y: u16, p: (u16, u16)) -> bool {
        in_rect(x, y, self.size.width as int, self.size.height + 1, p)
    }

    fn size(&self) -> (s: Size) {
        self.size
    }

    fn draw(&self, x: u16, y: u16) -> (r: (Vec<TermWrite>, Vec<(u16, u16)>)) {
        let mut writes: Vec<TermWrite> = Vec::new();
        let mut i: usize = 0;
        while i < self.lines.len()
            invariant
                i <= self.lines@.len(),
                self.wf(),
                x + self.size.width <= u16::MAX,
                y + self.size.height <= u16::MAX,
                writes.deep_view() == label_writes(self.lines.deep_view(), x, y).take(i as int),
            decreases self.lines@.len() - i,
        {
            let line = self.lines[i].clone();
            let ghost prev = writes.deep_view();
            writes.push(TermWrite::Text { x, y: y + (i as u16), text: line });
            proof {
                assert(writes.deep_view() =~= prev.push(
                    WriteView::Text { x, y: (y + i) as u16, text: self.lines.deep_view()[i as int] },
                ));
            }
            i = i + 1;
            proof {
                assert(writes.deep_view() =~= label_writes(self.lines.deep_view(), x, y).take(
                    i as int,
                ));
            }
        }
        let hitbox = dense_hitbox(x, self.size.width, y, self.size.height);
        proof {
            assert(writes.deep_view() =~= label_writes(self.lines.deep_view(), x, y));
        }
        (writes, hitbox)
    }
}

/// A solid rectangle of spaces, used to erase the region a previous,
/// differently-sized widget occupied before its replacement is drawn.
pub struct Blank {
    pub size: Size,
}

/// The writes of a blank: one run of spaces per row, `size.height` rows.
pub open spec fn blank_writes(size: Size, x: u16, y: u16) -> Seq<WriteView> {
    Seq::new(
        size.height as nat,
        |j: int| WriteView::Text { x, y: (y + j) as u16, text: spaces_seq(size.width as int) },
    )
}

impl Blank {
    /// Sizes a blank from the footprint of the widget to be erased. The
    /// stored height is one more than the given footprint's, so that the
    /// blank's hitbox covers the full inclusive row span of the original.
    pub fn from(size: Size) -> (b: Blank)
        requires
            size.height < u16::MAX,
        ensures
            b.size.width == size.width,
            b.size.height == size.height + 1,
    {
        Blank { size: Size { height: size.height + 1, width: size.width } }
    }
}

impl Draw for Blank {
    open spec fn wf(&self) -> bool {
        true
    }

    open spec fn spec_size(&self) -> Size {
        self.size
    }

    open spec fn writes(&self, x: u16, y: u16) -> Seq<WriteView> {
        blank_writes(self.size, x, y)
    }

    open spec fn hits(&self, x: u16, y: u16, p: (u16, u16)) -> bool {
        in_rect(x, y, self.size.width as int, self.size.height + 1, p)
    }

    fn size(&self) -> (s: Size) {
        self.size
    }

    fn draw(&self, x: u16, y: u16) -> (r: (Vec<TermWrite>, Vec<(u16, u16)>)) {
        let mut writes: Vec<TermWrite> = Vec::new();
        let mut j: u16 = 0;
        while j < self.size.height
            invariant
                j <= self.size.height,
                x + self.size.width <= u16::MAX,
                y + self.size.height <= u16::MAX,
                writes.deep_view() == blank_writes(self.size, x, y).take(j as int),
            decreases self.size.height - j,
        {
            let run = spaces(self.size.width);
            let ghost prev = writes.deep_view();
            writes.push(TermWrite::Text { x, y: y + j, text: run });
            proof {
                let full = blank_writes(self.size, x, y);
                assert(writes.deep_view() =~= prev.push(
                    WriteView::Text { x, y: (y + j) as u16, text: run@ },
                ));
                assert(full[j as int] == WriteView::Text {
                    x,
                    y: (y + j) as u16,
                    text: spaces_seq(self.size.width as int),
                });
                assert(run@ == spaces_seq(self.size.width as int));
            }
            j = j + 1;
            proof {
                assert(writes.deep_view() =~= blank_writes(self.size, x, y).take(j as int));
            }
        }
        let hitbox = dense_hitbox(x, self.size.width, y, self.size.height);
        proof {
            assert(writes.deep_view() =~= blank_writes(self.size, x, y));
        }
        (writes, hitbox)
    }
}

/// A one-cell border of a fill character wrapped around an inner drawable.
/// The footprint is the inner footprint plus two in each dimension; the
/// border is drawn first as the full outline of the spanned box, corners
/// included, then the inner drawable at `(x + 1, y + 1)`.
pub struct Frame {
    pub inner: Box<Drawable>,
    pub material: char,
}

/// The widgets a [`Frame`] can wrap, as a tagged union.
pub enum Drawable {
    Numbers(Numbers),
    Frame(Frame),
    Label(Label),
    Blank(Blank),
}

impl Frame {
    pub fn from(material: char, contents: Box<Drawable>) -> (f: Frame)
        ensures
            f.material == material,
            f.inner == contents,
    {
        Frame { inner: contents, material }
    }
}

/// The top border row: the fill character across the full footprint
/// width, corners included.
pub open spec fn border_top(m: char, x: u16, y: u16, w: int) -> Seq<WriteView> {
    Seq::new(
        if w >= 0 {
            w as nat
        } else {
            0
        },
        |i: int| WriteView::Cell { x: (x + i) as u16, y, ch: m, fg: Color::Default },
    )
}

/// The side borders: for each of the `j` rows strictly between the top
/// and the bottom rows, the fill character in the leftmost column and in
/// the rightmost column `x + w - 1`.
pub open spec fn side_cells(m: char, x: u16, y: u16, w: int, j: int) -> Seq<WriteView>
    decreases j,
{
    if j <= 0 {
        Seq::empty()
    } else {
        side_cells(m, x, y, w, j - 1) + seq![
            WriteView::Cell { x, y: (y + j) as u16, ch: m, fg: Color::Default },
            WriteView::Cell {
                x: (x + w - 1) as u16,
                y: (y + j) as u16,
                ch: m,
                fg: Color::Default,
            },
        ]
    }
}

/// The bottom border row: the fill character across the full footprint
/// width on row `y + h`, the last row the frame spans under the inclusive
/// footprint convention, corners included.
pub open spec fn border_bottom(m: char, x: u16, y: u16, w: int, h: int) -> Seq<WriteView> {
    Seq::new(
        if w >= 0 {
            w as nat
        } else {
            0
        },
        |i: int| WriteView::Cell { x: (x + i) as u16, y: (y + h) as u16, ch: m, fg: Color::Default },
    )
}

/// The internal invariant of a drawable: each part is well formed, and
/// every frame's footprint still fits in a cell coordinate.
pub open spec fn drawable_wf(d: Drawable) -> bool
    decreases d,
{
    match d {
        Drawable::Numbers(n) => n.wf(),
        Drawable::Label(l) => l.wf(),
        Drawable::Blank(b) => b.wf(),
        Drawable::Frame(f) => {
            &&& drawable_wf(*f.inner)
            &&& drawable_size(*f.inner).width + 2 <= u16::MAX
            &&& drawable_size(*f.inner).height + 2 <= u16::MAX
        },
    }
}

/// The footprint of a drawable.
pub open spec fn drawable_size(d: Drawable) -> Size
    decreases d,
{
    match d {
        Drawable::Numbers(n) => n.size,
        Drawable::Label(l) => l.size,
        Drawable::Blank(b) => b.size,
        Drawable::Frame(f) => Size {
            height: (drawable_size(*f.inner).height + 2) as u16,
            width: (drawable_size(*f.inner).width + 2) as u16,
        },
    }
}

/// The terminal writes a drawable produces at anchor `(x, y)`. A frame
/// writes its border first, then its inner drawable one cell in.
pub open spec fn drawable_writes(d: Drawable, x: u16, y: u16) -> Seq<WriteView>
    decreases d,
{
    match d {
        Drawable::Numbers(n) => n.writes(x, y),
        Drawable::Label(l) => l.writes(x, y),
        Drawable::Blank(b) => b.writes(x, y),
        Drawable::Frame(f) => {
            let w = drawable_size(*f.inner).width + 2;
            let h = drawable_size(*f.inner).height + 2;
            border_top(f.material, x, y, w) + side_cells(f.material, x, y, w, h - 1)
                + border_bottom(
                f.material,
                x,
                y,
                w,
                h,
            ) + drawable_writes(*f.inner, (x + 1) as u16, (y + 1) as u16)
        },
    }
}

/// Whether a drawable rendered at `(x, y)` claims cell `p` in its hitbox.
pub open spec fn drawable_hits(d: Drawable, x: u16, y: u16, p: (u16, u16)) -> bool
    decreases d,
{
    match d {
        Drawable::Numbers(n) => n.hits(x, y, p),
        Drawable::Label(l) => l.hits(x, y, p),
        Drawable::Blank(b) => b.hits(x, y, p),
        Drawable::Frame(f) => {
            let w = drawable_size(*f.inner).width + 2;
            let h = drawable_size(*f.inner).height + 2;
            ||| (p.1 == y && x <= p.0 && p.0 < x + w)
            ||| (y < p.1 && p.1 < y + h && (p.0 == x || p.0 == x + w - 1))
            ||| (p.1 == y + h && x <= p.0 && p.0 < x + w)
            ||| drawable_hits(*f.inner, (x + 1) as u16, (y + 1) as u16, p)
        },
    }
}

/// Measures a drawable.
pub fn drawable_size_of(d: &Drawable) -> (s: Size)
    requires
        drawable_wf(*d),
    ensures
        s == drawable_size(*d),
    decreases *d,
{
    match d {
        Drawable::Numbers(n) => n.size,
        Drawable::Label(l) => l.size,
        Drawable::Blank(b) => b.size,
        Drawable::Frame(f) => {
            let inner = drawable_size_of(&f.inner);
            Size { height: inner.height + 2, width: inner.width + 2 }
        },
    }
}

/// Renders a drawable at `(x, y)`, returning its writes and its hitbox.
pub fn drawable_draw(d: &Drawable, x: u16, y: u16) -> (r: (Vec<TermWrite>, Vec<(u16, u16)>))
    requires
        drawable_wf(*d),
        x + drawable_size(*d).width <= u16::MAX,
        y + drawable_size(*d).height <= u16::MAX,
    ensures
        r.0.deep_view() == drawable_writes(*d, x, y),
        forall|p: (u16, u16)| #[trigger] r.1@.contains(p) <==> drawable_hits(*d, x, y, p),
        r.1@.no_duplicates(),
    decreases *d, 0int,
{
    match d {
        Drawable::Numbers(n) => n.draw(x, y),
        Drawable::Label(l) => l.draw(x, y),
        Drawable::Blank(b) => b.draw(x, y),
        Drawable::Frame(f) => frame_draw(f, x, y),
    }
}

/// Renders a frame: the border outline first, then the inner drawable at
/// `(x + 1, y + 1)`; the hitbox is the union of border cells and the inner
/// hitbox.
fn frame_draw(f: &Frame, x: u16, y: u16) -> (r: (Vec<TermWrite>, Vec<(u16, u16)>))
    requires
        drawable_wf(*f.inner),
        drawable_size(*f.inner).width + 2 <= u16::MAX,
        drawable_size(*f.inner).height + 2 <= u16::MAX,
        x + drawable_size(*f.inner).width + 2 <= u16::MAX,
        y + drawable_size(*f.inner).height + 2 <= u16::MAX,
    ensures
        r.0.deep_view() == drawable_writes(Drawable::Frame(*f), x, y),
        forall|p: (u16, u16)| #[trigger] r.1@.contains(p) <==> drawable_hits(
            Drawable::Frame(*f),
            x,
            y,
            p,
        ),
        r.1@.no_duplicates(),
    decreases *f.inner, 1int,
{
    let inner_size = drawable_size_of(&f.inner);
    let w: u16 = inner_size.width + 2;
    let h: u16 = inner_size.height + 2;
    let m = f.material;
    let ghost wi = w as int;
    let ghost hi = h as int;
    let ghost top = border_top(m, x, y, wi);
    let ghost sides = side_cells(m, x, y, wi, hi - 1);
    let ghost bottom = border_bottom(m, x, y, wi, hi);
    let mut writes: Vec<TermWrite> = Vec::new();
    let mut hb: Vec<(u16, u16)> = Vec::new();
    let mut i: u16 = 0;
    while i < w
        invariant
            i <= wi,
            2 <= wi,
            w == wi,
            x + wi <= u16::MAX,
            top == border_top(m, x, y, wi),
            writes.deep_view() == top.take(i as int),
            forall|p: (u16, u16)| #[trigger] hb@.contains(p) <==> (p.1 == y && x <= p.0 && p.0 < x
                + i),
            hb@.no_duplicates(),
        decreases w - i,
    {
        let ghost prev = writes.deep_view();
        let ghost prev_hb = hb@;
        writes.push(TermWrite::Cell { x: x + i, y, ch: m, fg: Color::Default });
        hb.push((x + i, y));
        i = i + 1;
        proof {
            assert(writes.deep_view() =~= prev.push(
                WriteView::Cell { x: (x + i - 1) as u16, y, ch: m, fg: Color::Default },
            ));
            assert(writes.deep_view() =~= top.take(i as int));
            lemma_push_keeps_no_dup(prev_hb, ((x + i - 1) as u16, y));
        }
    }
    proof {
        assert(writes.deep_view() =~= top);
    }
    let mut j: u16 = 1;
    while j < h
        invariant
            1 <= j <= hi,
            2 <= wi,
            2 <= hi,
            w == wi,
            h == hi,
            x + wi <= u16::MAX,
            y + hi <= u16::MAX,
            top == border_top(m, x, y, wi),
            writes.deep_view() == top + side_cells(m, x, y, wi, j - 1),
            forall|p: (u16, u16)| #[trigger] hb@.contains(p) <==> ((p.1 == y && x <= p.0 && p.0 < x
                + wi) || (y < p.1 && p.1 < y + j && (p.0 == x || p.0 == x + wi - 1))),
            hb@.no_duplicates(),
        decreases h - j,
    {
        let ghost prev = writes.deep_view();
        let ghost hb0 = hb@;
        writes.push(TermWrite::Cell { x, y: y + j, ch: m, fg: Color::Default });
        writes.push(TermWrite::Cell { x: x + w - 1, y: y + j, ch: m, fg: Color::Default });
        hb.push((x, y + j));
        proof {
            lemma_push_keeps_no_dup(hb0, (x, (y + j) as u16));
        }
        let ghost hb1 = hb@;
        hb.push((x + w - 1, y + j));
        proof {
            assert(hb1.contains(((x + wi - 1) as u16, (y + j) as u16)) ==> (hb0.contains(
                ((x + wi - 1) as u16, (y + j) as u16),
            ) || ((x + wi - 1) as u16, (y + j) as u16) == (x, (y + j) as u16)));
            lemma_push_keeps_no_dup(hb1, ((x + wi - 1) as u16, (y + j) as u16));
        }
        j = j + 1;
        proof {
            assert(writes.deep_view() =~= prev + seq![
                WriteView::Cell { x, y: (y + j - 1) as u16, ch: m, fg: Color::Default },
                WriteView::Cell {
                    x: (x + wi - 1) as u16,
                    y: (y + j - 1) as u16,
                    ch: m,
                    fg: Color::Default,
                },
            ]);
            assert(writes.deep_view() =~= top + side_cells(m, x, y, wi, j - 1));
        }
    }
    let mut i2: u16 = 0;
    while i2 < w
        invariant
            i2 <= wi,
            2 <= wi,
            2 <= hi,
            w == wi,
            h == hi,
            x + wi <= u16::MAX,
            y + hi <= u16::MAX,
            top == border_top(m, x, y, wi),
            sides == side_cells(m, x, y, wi, hi - 1),
            bottom == border_bottom(m, x, y, wi, hi),
            writes.deep_view() == top + sides + bottom.take(i2 as int),
            forall|p: (u16, u16)| #[trigger] hb@.contains(p) <==> ((p.1 == y && x <= p.0 && p.0 < x
                + wi) || (y < p.1 && p.1 < y + hi && (p.0 == x || p.0 == x + wi - 1)) || (p.1 == y
                + hi && x <= p.0 && p.0 < x + i2)),
            hb@.no_duplicates(),
        decreases w - i2,
    {
        let ghost prev = writes.deep_view();
        let ghost prev_hb = hb@;
        writes.push(TermWrite::Cell { x: x + i2, y: y + h, ch: m, fg: Color::Default });
        hb.push((x + i2, y + h));
        proof {
            lemma_push_keeps_no_dup(prev_hb, ((x + i2) as u16, (y + hi) as u16));
        }
        i2 = i2 + 1;
        proof {
            assert(writes.deep_view() =~= prev.push(
                WriteView::Cell {
                    x: (x + i2 - 1) as u16,
                    y: (y + hi) as u16,
                    ch: m,
                    fg: Color::Default,
                },
            ));
            assert(writes.deep_view() =~= (top + sides) + bottom.take(i2 as int));
        }
    }
    proof {
        assert(writes.deep_view() =~= top + sides + bottom);
    }
    let (mut inner_writes, inner_hb) = drawable_draw(&f.inner, x + 1, y + 1);
    let ghost border = writes.deep_view();
    let ghost inner_ws = inner_writes.deep_view();
    writes.append(&mut inner_writes);
    proof {
        assert(writes.deep_view() =~= border + inner_ws);
        assert(writes.deep_view() =~= drawable_writes(Drawable::Frame(*f), x, y));
    }
    proof {
        lemma_hits_in_bounds(*f.inner, (x + 1) as u16, (y + 1) as u16);
    }
    let mut k: usize = 0;
    while k < inner_hb.len()
        invariant
            k <= inner_hb@.len(),
            2 <= wi,
            2 <= hi,
            x + wi <= u16::MAX,
            y + hi <= u16::MAX,
            forall|p: (u16, u16)| #[trigger] inner_hb@.contains(p) <==> drawable_hits(
                *f.inner,
                (x + 1) as u16,
                (y + 1) as u16,
                p,
            ),
            forall|p: (u16, u16)| #[trigger] inner_hb@.contains(p) ==> in_rect(
                (x + 1) as u16,
                (y + 1) as u16,
                wi - 2,
                hi - 1,
                p,
            ),
            inner_hb@.no_duplicates(),
            forall|p: (u16, u16)| #[trigger] hb@.contains(p) <==> ((p.1 == y && x <= p.0 && p.0 < x
                + wi) || (y < p.1 && p.1 < y + hi && (p.0 == x || p.0 == x + wi - 1)) || (p.1 == y
                + hi && x <= p.0 && p.0 < x + wi) || inner_hb@.take(k as int).contains(p)),
            hb@.no_duplicates(),
        decreases inner_hb@.len() - k,
    {
        let cell = inner_hb[k];
        proof {
            assert(inner_hb@.contains(inner_hb@[k as int]));
            lemma_no_dup_prefix_excludes(inner_hb@, k as int);
            assert(!hb@.contains(cell));
        }
        let ghost prev_hb = hb@;
        hb.push(cell);
        k = k + 1;
        proof {
            assert(inner_hb@.take(k as int) =~= inner_hb@.take(k - 1).push(inner_hb@[k - 1]));
            lemma_push_keeps_no_dup(prev_hb, cell);
        }
    }
    proof {
        assert(inner_hb@.take(inner_hb@.len() as int) =~= inner_hb@);
    }
    (writes, hb)
}

/// Pushing a fresh cell keeps a cell list duplicate-free.
proof fn lemma_push_keeps_no_dup(s: Seq<(u16, u16)>, e: (u16, u16))
    requires
        s.no_duplicates(),
        !s.contains(e),
    ensures
        s.push(e).no_duplicates(),
{
    assert forall|a: int, b: int|
        0 <= a < b < s.push(e).len() implies s.push(e)[a] != s.push(e)[b] by {
        if b == s.len() {
            assert(s.contains(s[a]));
        }
    }
}

/// In a duplicate-free cell list, no element occurs in the prefix before
/// it.
proof fn lemma_no_dup_prefix_excludes(s: Seq<(u16, u16)>, k: int)
    requires
        s.no_duplicates(),
        0 <= k < s.len(),
    ensures
        !s.take(k).contains(s[k]),
{
    if s.take(k).contains(s[k]) {
        let i = choose|i: int| 0 <= i < k && s.take(k)[i] == s[k];
        assert(s[i] == s[k]);
    }
}

/// Framing a drawable grows its footprint by exactly two in each
/// dimension.
pub proof fn lemma_frame_measure(f: Frame)
    requires
        drawable_wf(Drawable::Frame(f)),
    ensures
        drawable_size(Drawable::Frame(f)).width == drawable_size(*f.inner).width + 2,
        drawable_size(Drawable::Frame(f)).height == drawable_size(*f.inner).height + 2,
{
}

/// Rendering is idempotent: it is a function of the widget and the anchor
/// alone, so any two renderings that meet `draw`'s contract emit identical
/// writes and claim identical cells.
pub proof fn lemma_render_idempotent(
    d: Drawable,
    x: u16,
    y: u16,
    writes1: Seq<WriteView>,
    writes2: Seq<WriteView>,
    claimed1: Set<(u16, u16)>,
    claimed2: Set<(u16, u16)>,
)
    requires
        writes1 == drawable_writes(d, x, y),
        writes2 == drawable_writes(d, x, y),
        forall|p: (u16, u16)| #[trigger] claimed1.contains(p) <==> drawable_hits(d, x, y, p),
        forall|p: (u16, u16)| #[trigger] claimed2.contains(p) <==> drawable_hits(d, x, y, p),
    ensures
        writes1 == writes2,
        claimed1 =~= claimed2,
{
}

/// Every cell a drawable's hitbox claims lies inside the rectangle of its
/// footprint width and its inclusive footprint height: `h + 1` rows.
pub proof fn lemma_hits_in_bounds(d: Drawable, x: u16, y: u16)
    requires
        drawable_wf(d),
        x + drawable_size(d).width <= u16::MAX,
        y + drawable_size(d).height <= u16::MAX,
    ensures
        forall|p: (u16, u16)| #[trigger] drawable_hits(d, x, y, p) ==> in_rect(
            x,
            y,
            drawable_size(d).width as int,
            drawable_size(d).height + 1,
            p,
        ),
    decreases d,
{
    let w = drawable_size(d).width as int;
    let h = drawable_size(d).height as int;
    match d {
        Drawable::Numbers(n) => {
            assert forall|p: (u16, u16)| #[trigger] drawable_hits(d, x, y, p) implies in_rect(
                x,
                y,
                w,
                h + 1,
                p,
            ) by {
                assert(n.hits(x, y, p));
            }
        },
        Drawable::Label(l) => {
            assert forall|p: (u16, u16)| #[trigger] drawable_hits(d, x, y, p) implies in_rect(
                x,
                y,
                w,
                h + 1,
                p,
            ) by {
                assert(l.hits(x, y, p));
            }
        },
        Drawable::Blank(b) => {
            assert forall|p: (u16, u16)| #[trigger] drawable_hits(d, x, y, p) implies in_rect(
                x,
                y,
                w,
                h + 1,
                p,
            ) by {
                assert(b.hits(x, y, p));
            }
        },
        Drawable::Frame(f) => {
            lemma_hits_in_bounds(*f.inner, (x + 1) as u16, (y + 1) as u16);
            let wi = drawable_size(*f.inner).width as int;
            let hi = drawable_size(*f.inner).height as int;
            assert forall|p: (u16, u16)| #[trigger] drawable_hits(d, x, y, p) implies in_rect(
                x,
                y,
                w,
                h + 1,
                p,
            ) by {
                assert(w == wi + 2 && h == hi + 2);
                if drawable_hits(*f.inner, (x + 1) as u16, (y + 1) as u16, p) {
                    assert(in_rect((x + 1) as u16, (y + 1) as u16, wi, hi + 1, p));
                }
            }
        },
    }
}

/// Erasing with a blank sized from a widget's footprint fully covers that
/// widget: the blank's hitbox at the same anchor is a superset of the
/// widget's.
pub proof fn lemma_blank_covers(d: Drawable, b: Blank, x: u16, y: u16)
    requires
        drawable_wf(d),
        x + drawable_size(d).width <= u16::MAX,
        y + drawable_size(d).height <= u16::MAX,
        b.size.width == drawable_size(d).width,
        b.size.height == drawable_size(d).height + 1,
    ensures
        forall|p: (u16, u16)| #[trigger] drawable_hits(d, x, y, p) ==> b.hits(x, y, p),
{
    lemma_hits_in_bounds(d, x, y);
}

/// Each cell a row of side-border cells writes to lies in the side-border
/// region: the `j` rows strictly below the top row, in the leftmost column
/// or in column `x + w - 1`.
proof fn lemma_side_cells_within(m: char, x: u16, y: u16, w: int, j: int)
    requires
        2 <= w,
        x + w <= u16::MAX + 1,
        y + j <= u16::MAX,
    ensures
        side_cells(m, x, y, w, j).len() == if j >= 0 {
            2 * j
        } else {
            0
        },
        forall|i: int, p: (u16, u16)|
            0 <= i < side_cells(m, x, y, w, j).len() && #[trigger] write_cells(
                side_cells(m, x, y, w, j)[i],
            ).contains(p) ==> (y < p.1 && p.1 <= y + j && (p.0 == x || p.0 == x + w - 1)),
    decreases j,
{
    if j > 0 {
        lemma_side_cells_within(m, x, y, w, j - 1);
    }
}

/// The hitbox honours the rendering contract: every cell a drawable's
/// writes touch is claimed by its hitbox.
pub proof fn lemma_writes_within_hitbox(d: Drawable, x: u16, y: u16)
    requires
        drawable_wf(d),
        x + drawable_size(d).width <= u16::MAX,
        y + drawable_size(d).height <= u16::MAX,
    ensures
        forall|i: int, p: (u16, u16)|
            0 <= i < drawable_writes(d, x, y).len() && #[trigger] write_cells(
                drawable_writes(d, x, y)[i],
            ).contains(p) ==> drawable_hits(d, x, y, p),
    decreases d,
{
    match d {
        Drawable::Numbers(n) => {
            assert forall|i: int, p: (u16, u16)|
                0 <= i < drawable_writes(d, x, y).len() && #[trigger] write_cells(
                    drawable_writes(d, x, y)[i],
                ).contains(p) implies drawable_hits(d, x, y, p) by {
                lemma_numbers_row_len(n.digits@, i);
                lemma_natural_width_nonneg(n.digits@);
            }
        },
        Drawable::Label(_) => {
        },
        Drawable::Blank(_) => {
        },
        Drawable::Frame(f) => {
            let w = drawable_size(*f.inner).width + 2;
            let h = drawable_size(*f.inner).height + 2;
            lemma_side_cells_within(f.material, x, y, w, h - 1);
            lemma_writes_within_hitbox(*f.inner, (x + 1) as u16, (y + 1) as u16);
            let top = border_top(f.material, x, y, w);
            let sides = side_cells(f.material, x, y, w, h - 1);
            let bottom = border_bottom(f.material, x, y, w, h);
            let inner_ws = drawable_writes(*f.inner, (x + 1) as u16, (y + 1) as u16);
            assert forall|i: int, p: (u16, u16)|
                0 <= i < drawable_writes(d, x, y).len() && #[trigger] write_cells(
                    drawable_writes(d, x, y)[i],
                ).contains(p) implies drawable_hits(d, x, y, p) by {
                let ws = drawable_writes(d, x, y);
                assert(ws == top + sides + bottom + inner_ws);
                if i < top.len() {
                    assert(ws[i] == top[i]);
                } else if i < top.len() + sides.len() {
                    assert(ws[i] == sides[i - top.len()]);
                    assert(write_cells(sides[i - top.len()]).contains(p));
                } else if i < top.len() + sides.len() + bottom.len() {
                    assert(ws[i] == bottom[i - top.len() - sides.len()]);
                } else {
                    assert(ws[i] == inner_ws[i - top.len() - sides.len() - bottom.len()]);
                    assert(write_cells(inner_ws[i - top.len() - sides.len() - bottom.len()])
                        .contains(p));
                }
            }
        },
    }
}

impl Draw for Frame {
    open spec fn wf(&self) -> bool {
        drawable_wf(Drawable::Frame(*self))
    }

    open spec fn spec_size(&self) -> Size {
        drawable_size(Drawable::Frame(*self))
    }

    open spec fn writes(&self, x: u16, y: u16) -> Seq<WriteView> {
        drawable_writes(Drawable::Frame(*self), x, y)
    }

    open spec fn hits(&self, x: u16, y: u16, p: (u16, u16)) -> bool {
        drawable_hits(Drawable::Frame(*self), x, y, p)
    }

    fn size(&self) -> (s: Size) {
        let inner = drawable_size_of(&self.inner);
        Size { height: inner.height + 2, width: inner.width + 2 }
    }

    fn draw(&self, x: u16, y: u16) -> (r: (Vec<TermWrite>, Vec<(u16, u16)>)) {
        frame_draw(self, x, y)
    }
}

impl Draw for Drawable {
    open spec fn wf(&self) -> bool {
        drawable_wf(*self)
    }

    open spec fn spec_size(&self) -> Size {
        drawable_size(*self)
    }

    open spec fn writes(&self, x: u16, y: u16) -> Seq<WriteView> {
        drawable_writes(*self, x, y)
    }

    open spec fn hits(&self, x: u16, y: u16, p: (u16, u16)) -> bool {
        drawable_hits(*self, x, y, p)
    }

    fn size(&self) -> (s: Size) {
        drawable_size_of(self)
    }

    fn draw(&self, x: u16, y: u16) -> (r: (Vec<TermWrite>, Vec<(u16, u16)>)) {
        drawable_draw(self, x, y)
    }
}

} // verus!
