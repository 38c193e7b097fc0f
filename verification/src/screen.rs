//! The abstract terminal output model.
//!
//! Every drawing operation of this crate produces a sequence of
//! [`TermWrite`] commands instead of touching a terminal directly. A
//! command either places a plain text run at an absolute cell position or
//! places a single colored character. The binary that hosts the library
//! translates each command into cursor moves and escape sequences; the
//! library itself only reasons about which cells carry which content.

use vstd::prelude::*;

verus! {

/// A terminal foreground color. `Default` stands for the terminal's
/// unstyled foreground; the named colors are the ones the command line
/// accepts for the stream trail and head.
#[derive(Copy, Clone, PartialEq, Eq, Structural, Debug)]
pub enum Color {
    Default,
    Red,
    Green,
    Blue,
    Yellow,
    Magenta,
    White,
}

/// One terminal update: either a run of uncolored text starting at column
/// `x` of row `y`, or a single character drawn in a foreground color.
/// Coordinates follow the terminal convention where `x` grows rightward
/// and `y` grows downward.
#[derive(Clone, PartialEq, Debug)]
pub enum TermWrite {
    Text { x: u16, y: u16, text: String },
    Cell { x: u16, y: u16, ch: char, fg: Color },
}

/// The mathematical image of a [`TermWrite`]: the same command with the
/// text held as a sequence of characters.
pub enum WriteView {
    Text { x: u16, y: u16, text: Seq<char> },
    Cell { x: u16, y: u16, ch: char, fg: Color },
}

impl View for TermWrite {
    type V = WriteView;

    open spec fn view(&self) -> WriteView {
        match self {
            TermWrite::Text { x, y, text } => WriteView::Text { x: *x, y: *y, text: text@ },
            TermWrite::Cell { x, y, ch, fg } => WriteView::Cell {
                x: *x,
                y: *y,
                ch: *ch,
                fg: *fg,
            },
        }
    }
}

impl DeepView for TermWrite {
    type V = WriteView;

    open spec fn deep_view(&self) -> WriteView {
        self.view()
    }
}

/// The set of screen cells a command writes to.
pub open spec fn write_cells(w: WriteView) -> Set<(u16, u16)> {
    match w {
        WriteView::Text { x, y, text } => Set::new(
            |p: (u16, u16)| p.1 == y && x <= p.0 && p.0 < x + text.len(),
        ),
        WriteView::Cell { x, y, .. } => set![(x, y)],
    }
}

/// A run of `n` spaces.
pub open spec fn spaces_seq(n: int) -> Seq<char> {
    Seq::new(if n < 0 {
        0
    } else {
        n as nat
    }, |i: int| ' ')
}

/// Builds the executable counterpart of [`spaces_seq`].
pub fn spaces(n: u16) -> (s: String)
    ensures
        s@ == spaces_seq(n as int),
{
    let mut s = String::new();
    let mut i: u16 = 0;
    while i < n
        invariant
            i <= n,
            s@ == spaces_seq(i as int),
        decreases n - i,
    {
        proof {
            reveal_strlit(" ");
        }
        s.append(" ");
        i = i + 1;
        proof {
            assert(s@ =~= spaces_seq(i as int));
        }
    }
    s
}

} // verus!
