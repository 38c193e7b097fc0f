//! The column animator: one independent stream of falling characters.
//!
//! A column owns a span between `start` and `end` that travels along its
//! lane. Each tick either waits out a dormancy delay (while the tail keeps
//! fading), extends the span by one cell and possibly retracts the tail, or
//! recycles the lane once the span has closed at the far bound. Writes into
//! cells of the reserved set are suppressed, but the span coordinates
//! advance regardless, keeping every lane synchronized in time.

use vstd::prelude::*;

use crate::rng::rand_inclusive;
use crate::screen::{write_cells, Color, TermWrite, WriteView};

verus! {

/// The symbols a stream can emit.
pub open spec fn charset() -> Seq<char> {
    "ABCDEFGHIJKLMNOPQRSTUVWXYZabcdefghijklmnopqrstuvwxyz0123456789)(*&^%$#@!~"@
}

/// Draws a uniformly random printable symbol from the stream charset.
pub fn random_char() -> (c: char)
    ensures
        charset().contains(c),
{
    let table = "ABCDEFGHIJKLMNOPQRSTUVWXYZabcdefghijklmnopqrstuvwxyz0123456789)(*&^%$#@!~";
    proof {
        reveal_strlit("ABCDEFGHIJKLMNOPQRSTUVWXYZabcdefghijklmnopqrstuvwxyz0123456789)(*&^%$#@!~");
    }
    let idx = rand_inclusive(0, 72);
    table.get_char(idx as usize)
}

/// Tests whether a cell belongs to the reserved set.
pub fn cell_reserved(forbidden: &Vec<(u16, u16)>, cell: (u16, u16)) -> (b: bool)
    ensures
        b == forbidden@.contains(cell),
{
    let mut i: usize = 0;
    while i < forbidden.len()
        invariant
            i <= forbidden@.len(),
            forall|k: int| 0 <= k < i ==> forbidden@[k] != cell,
        decreases forbidden@.len() - i,
    {
        if forbidden[i].0 == cell.0 && forbidden[i].1 == cell.1 {
            return true;
        }
        i = i + 1;
    }
    false
}

/// One animated stream, keyed by its fixed lane coordinate.
#[derive(Clone, Copy, PartialEq, Eq, Structural, Debug)]
pub struct Column {
    pub start: u16,
    pub end: u16,
    pub max_height: u16,
    pub column: u16,
    pub last_made: char,
    pub delay: u16,
    pub reverse: bool,
    pub horizontal: bool,
}

impl Column {
    /// The near travel bound: horizontal lanes start at column one, since
    /// terminal columns are one-based.
    pub open spec fn lowest(&self) -> u16 {
        if self.horizontal {
            1
        } else {
            0
        }
    }

    /// The span invariant: both coordinates stay between the travel
    /// bounds, ordered by the travel direction.
    pub open spec fn wf(&self) -> bool {
        &&& self.lowest() <= self.max_height
        &&& if !self.reverse {
            self.lowest() <= self.start && self.start <= self.end && self.end <= self.max_height
        } else {
            self.lowest() <= self.end && self.end <= self.start && self.start <= self.max_height
        }
    }

    /// The screen cell of travel position `pos` on this lane.
    pub open spec fn cell(&self, pos: u16) -> (u16, u16) {
        if !self.horizontal {
            (self.column, pos)
        } else {
            (pos, self.column)
        }
    }

    /// The dormancy delay bound: every delay draw, at construction and at
    /// each span reset, is uniform over zero to this bound, which is twice
    /// as wide for horizontal travel.
    pub open spec fn reset_bound(&self) -> u16 {
        if self.horizontal {
            300
        } else {
            150
        }
    }

    /// The cell at the trailing edge of travel, which keeps fading even
    /// while the column is dormant.
    pub open spec fn tail_cell(&self) -> (u16, u16) {
        self.cell(
            if !self.reverse {
                self.max_height
            } else {
                self.lowest()
            },
        )
    }
}

/// The span extension step: the head advances one cell in the travel
/// direction; the freshly emitted symbol is recorded unless the head cell
/// is reserved, in which case the write is suppressed and the previously
/// recorded symbol is kept.
pub open spec fn spec_extend(c: Column, symbol: char, forbidden: Seq<(u16, u16)>) -> Column {
    let new_end = if !c.reverse {
        (c.end + 1) as u16
    } else {
        (c.end - 1) as u16
    };
    Column {
        end: new_end,
        last_made: if forbidden.contains(c.cell(new_end)) {
            c.last_made
        } else {
            symbol
        },
        ..c
    }
}

/// The tail retraction step: `start` advances one cell in the travel
/// direction.
pub open spec fn spec_retract(c: Column) -> Column {
    Column {
        start: if !c.reverse {
            (c.start + 1) as u16
        } else {
            (c.start - 1) as u16
        },
        ..c
    }
}

/// The column state machine, one tick: wait out the delay, or act on the
/// drawn action code, or recycle a closed span. The span coordinates never
/// depend on the reserved set; only the recorded symbol does.
pub open spec fn spec_step(
    c: Column,
    action: u16,
    symbol: char,
    reset_delay: u16,
    forbidden: Seq<(u16, u16)>,
) -> Column {
    if c.delay > 0 {
        Column { delay: (c.delay - 1) as u16, ..c }
    } else {
        let far = if !c.reverse {
            c.max_height
        } else {
            c.lowest()
        };
        if c.end != far && c.start != far {
            if action == 1 || action == 2 {
                let extended = spec_extend(c, symbol, forbidden);
                if action == 2 {
                    spec_retract(extended)
                } else {
                    extended
                }
            } else {
                c
            }
        } else if c.end == far && c.end == c.start {
            let near = if !c.reverse {
                c.lowest()
            } else {
                c.max_height
            };
            Column { start: near, end: near, delay: reset_delay, ..c }
        } else if c.end == far {
            spec_retract(c)
        } else {
            c
        }
    }
}

/// A single-cell erase, suppressed on a reserved cell.
pub open spec fn erase_write(cell: (u16, u16), forbidden: Seq<(u16, u16)>) -> Seq<WriteView> {
    if forbidden.contains(cell) {
        Seq::empty()
    } else {
        seq![WriteView::Cell { x: cell.0, y: cell.1, ch: ' ', fg: Color::Default }]
    }
}

/// A single-cell colored write, suppressed on a reserved cell.
pub open spec fn paint_write(
    cell: (u16, u16),
    ch: char,
    fg: Color,
    forbidden: Seq<(u16, u16)>,
) -> Seq<WriteView> {
    if forbidden.contains(cell) {
        Seq::empty()
    } else {
        seq![WriteView::Cell { x: cell.0, y: cell.1, ch, fg }]
    }
}

/// The writes one tick emits: a fading tail erase while dormant; on an
/// extension, the old head recolored to the trail color and the new symbol
/// at the new head in the head color; on a retraction, an erase at the old
/// tail; while draining, the tail erase and the head recolor.
pub open spec fn spec_step_writes(
    c: Column,
    action: u16,
    symbol: char,
    trail: Color,
    head: Color,
    forbidden: Seq<(u16, u16)>,
) -> Seq<WriteView> {
    if c.delay > 0 {
        erase_write(c.tail_cell(), forbidden)
    } else {
        let far = if !c.reverse {
            c.max_height
        } else {
            c.lowest()
        };
        if c.end != far && c.start != far {
            if action == 1 || action == 2 {
                let extended = spec_extend(c, symbol, forbidden);
                let grow = paint_write(c.cell(c.end), c.last_made, trail, forbidden)
                    + paint_write(c.cell(extended.end), symbol, head, forbidden);
                if action == 2 {
                    grow + erase_write(c.cell(c.start), forbidden)
                } else {
                    grow
                }
            } else {
                Seq::empty()
            }
        } else if c.end == far && c.end == c.start {
            Seq::empty()
        } else if c.end == far {
            erase_write(c.cell(c.start), forbidden) + paint_write(
                c.cell(c.end),
                c.last_made,
                trail,
                forbidden,
            )
        } else {
            Seq::empty()
        }
    }
}

/// The state `post` is one tick of the state machine away from `pre`,
/// under some admissible random draws.
pub open spec fn stepped(pre: Column, post: Column, forbidden: Seq<(u16, u16)>) -> bool {
    exists|action: u16, symbol: char, reset_delay: u16|
        action <= 2 && charset().contains(symbol) && reset_delay <= pre.reset_bound() && post
            == spec_step(pre, action, symbol, reset_delay, forbidden)
}

/// The state `post` and the writes `ws` are one tick of the state machine
/// away from `pre`, under the same admissible random draws.
pub open spec fn stepped_with_writes(
    pre: Column,
    post: Column,
    ws: Seq<WriteView>,
    trail: Color,
    head: Color,
    forbidden: Seq<(u16, u16)>,
) -> bool {
    exists|action: u16, symbol: char, reset_delay: u16|
        #![trigger spec_step(pre, action, symbol, reset_delay, forbidden)]
        {
            &&& action <= 2
            &&& charset().contains(symbol)
            &&& reset_delay <= pre.reset_bound()
            &&& post == spec_step(pre, action, symbol, reset_delay, forbidden)
            &&& ws == spec_step_writes(pre, action, symbol, trail, head, forbidden)
        }
}

/// No write of a tick touches a reserved cell.
pub open spec fn writes_avoid(ws: Seq<WriteView>, forbidden: Seq<(u16, u16)>) -> bool {
    forall|i: int, p: (u16, u16)|
        0 <= i < ws.len() && #[trigger] write_cells(ws[i]).contains(p) ==> !forbidden.contains(p)
}

impl Column {
    /// Builds a lane with an explicitly chosen dormancy delay, so that the
    /// state machine can be driven deterministically.
    pub fn with_delay(column: u16, max_height: u16, rev: bool, horizontal: bool, delay: u16) -> (c:
        Column)
        requires
            horizontal ==> max_height >= 1,
        ensures
            c == (Column {
                start: if !rev {
                    if horizontal {
                        1u16
                    } else {
                        0u16
                    }
                } else {
                    max_height
                },
                end: if !rev {
                    if horizontal {
                        1u16
                    } else {
                        0u16
                    }
                } else {
                    max_height
                },
                max_height,
                column,
                last_made: ' ',
                delay,
                reverse: rev,
                horizontal,
            }),
            c.wf(),
    {
        let edge = if !rev {
            if horizontal {
                1
            } else {
                0
            }
        } else {
            max_height
        };
        Column {
            start: edge,
            end: edge,
            max_height,
            column,
            last_made: ' ',
            delay,
            reverse: rev,
            horizontal,
        }
    }

    /// Builds a lane with a random initial dormancy delay, drawn from a
    /// range that is twice as wide for horizontal travel.
    pub fn new(column: u16, max_height: u16, rev: bool, horizontal: bool) -> (c: Column)
        requires
            horizontal ==> max_height >= 1,
        ensures
            c.column == column,
            c.max_height == max_height,
            c.reverse == rev,
            c.horizontal == horizontal,
            c.last_made == ' ',
            c.start == if !rev {
                c.lowest()
            } else {
                max_height
            },
            c.end == c.start,
            c.delay <= if !horizontal {
                150u16
            } else {
                300u16
            },
            c.wf(),
    {
        let delay = rand_inclusive(
            0,
            if !horizontal {
                150
            } else {
                300
            },
        );
        Self::with_delay(column, max_height, rev, horizontal, delay)
    }

    /// Erases the cell at the old tail and advances `start` one step.
    fn delete_first_char(&mut self, forbidden: &Vec<(u16, u16)>, out: &mut Vec<TermWrite>)
        requires
            old(self).wf(),
            if !old(self).reverse {
                old(self).start < old(self).end
            } else {
                old(self).start > old(self).end
            },
        ensures
            *final(self) == spec_retract(*old(self)),
            final(self).wf(),
            final(out).deep_view() == old(out).deep_view() + erase_write(
                old(self).cell(old(self).start),
                forbidden@,
            ),
    {
        let pair = if !self.horizontal {
            (self.column, self.start)
        } else {
            (self.start, self.column)
        };
        let ghost prev = out.deep_view();
        if !cell_reserved(forbidden, pair) {
            out.push(TermWrite::Cell { x: pair.0, y: pair.1, ch: ' ', fg: Color::Default });
        }
        proof {
            assert(out.deep_view() =~= prev + erase_write(
                old(self).cell(old(self).start),
                forbidden@,
            ));
        }
        if !self.reverse {
            self.start = self.start + 1;
        } else {
            self.start = self.start - 1;
        }
    }

    /// Erases the cell at the trailing travel bound: the tail keeps fading
    /// even while the column is dormant. The span does not move.
    fn delete_last_char(&mut self, forbidden: &Vec<(u16, u16)>, out: &mut Vec<TermWrite>)
        ensures
            *final(self) == *old(self),
            final(out).deep_view() == old(out).deep_view() + erase_write(
                old(self).tail_cell(),
                forbidden@,
            ),
    {
        let lowest: u16 = if self.horizontal {
            1
        } else {
            0
        };
        let edge = if !self.reverse {
            self.max_height
        } else {
            lowest
        };
        let pair = if !self.horizontal {
            (self.column, edge)
        } else {
            (edge, self.column)
        };
        let ghost prev = out.deep_view();
        if !cell_reserved(forbidden, pair) {
            out.push(TermWrite::Cell { x: pair.0, y: pair.1, ch: ' ', fg: Color::Default });
        }
        proof {
            assert(out.deep_view() =~= prev + erase_write(old(self).tail_cell(), forbidden@));
        }
    }

    /// Recolors the current head cell to the trail color. The span does
    /// not move.
    fn fix_last_char(&mut self, trail: Color, forbidden: &Vec<(u16, u16)>, out: &mut Vec<
        TermWrite,
    >)
        ensures
            *final(self) == *old(self),
            final(out).deep_view() == old(out).deep_view() + paint_write(
                old(self).cell(old(self).end),
                old(self).last_made,
                trail,
                forbidden@,
            ),
    {
        let pair = if !self.horizontal {
            (self.column, self.end)
        } else {
            (self.end, self.column)
        };
        let ghost prev = out.deep_view();
        if !cell_reserved(forbidden, pair) {
            out.push(TermWrite::Cell { x: pair.0, y: pair.1, ch: self.last_made, fg: trail });
        }
        proof {
            assert(out.deep_view() =~= prev + paint_write(
                old(self).cell(old(self).end),
                old(self).last_made,
                trail,
                forbidden@,
            ));
        }
    }

    /// Recolors the old head, advances `end`, and writes the new symbol at
    /// the new head in the head color; the write and the symbol record are
    /// suppressed if the new head cell is reserved.
    fn add_last_char(
        &mut self,
        symbol: char,
        trail: Color,
        head: Color,
        forbidden: &Vec<(u16, u16)>,
        out: &mut Vec<TermWrite>,
    )
        requires
            old(self).wf(),
            if !old(self).reverse {
                old(self).end < old(self).max_height
            } else {
                old(self).end > old(self).lowest()
            },
        ensures
            *final(self) == spec_extend(*old(self), symbol, forbidden@),
            final(self).wf(),
            final(out).deep_view() == old(out).deep_view() + paint_write(
                old(self).cell(old(self).end),
                old(self).last_made,
                trail,
                forbidden@,
            ) + paint_write(
                old(self).cell(spec_extend(*old(self), symbol, forbidden@).end),
                symbol,
                head,
                forbidden@,
            ),
    {
        self.fix_last_char(trail, forbidden, out);
        if !self.reverse {
            self.end = self.end + 1;
        } else {
            self.end = self.end - 1;
        }
        let pair = if !self.horizontal {
            (self.column, self.end)
        } else {
            (self.end, self.column)
        };
        let ghost prev = out.deep_view();
        if !cell_reserved(forbidden, pair) {
            self.last_made = symbol;
            out.push(TermWrite::Cell { x: pair.0, y: pair.1, ch: symbol, fg: head });
        }
        proof {
            assert(out.deep_view() =~= prev + paint_write(
                old(self).cell(spec_extend(*old(self), symbol, forbidden@).end),
                symbol,
                head,
                forbidden@,
            ));
        }
    }

    /// One tick of the state machine, with the random draws supplied by
    /// the caller: the action code, the symbol a growth step would emit,
    /// and the dormancy delay a span reset would install.
    pub fn tick(
        &mut self,
        action: u16,
        symbol: char,
        reset_delay: u16,
        trail: Color,
        head: Color,
        forbidden: &Vec<(u16, u16)>,
        out: &mut Vec<TermWrite>,
    )
        requires
            old(self).wf(),
            action <= 2,
        ensures
            *final(self) == spec_step(*old(self), action, symbol, reset_delay, forbidden@),
            final(self).wf(),
            final(out).deep_view() == old(out).deep_view() + spec_step_writes(
                *old(self),
                action,
                symbol,
                trail,
                head,
                forbidden@,
            ),
    {
        let ghost c0 = *self;
        let ghost prev = out.deep_view();
        if self.delay == 0 {
            let lowest: u16 = if self.horizontal {
                1
            } else {
                0
            };
            let far = if !self.reverse {
                self.max_height
            } else {
                lowest
            };
            if self.end != far && self.start != far {
                if action == 1 || action == 2 {
                    self.add_last_char(symbol, trail, head, forbidden, out);
                }
                if action == 2 {
                    self.delete_first_char(forbidden, out);
                }
                proof {
                    assert(out.deep_view() =~= prev + spec_step_writes(
                        c0,
                        action,
                        symbol,
                        trail,
                        head,
                        forbidden@,
                    ));
                }
            } else if self.end == far && self.end == self.start {
                let near = if !self.reverse {
                    lowest
                } else {
                    self.max_height
                };
                self.start = near;
                self.end = near;
                self.delay = reset_delay;
                proof {
                    assert(out.deep_view() =~= prev + spec_step_writes(
                        c0,
                        action,
                        symbol,
                        trail,
                        head,
                        forbidden@,
                    ));
                }
            } else if self.end == far {
                self.delete_first_char(forbidden, out);
                self.fix_last_char(trail, forbidden, out);
                proof {
                    assert(out.deep_view() =~= prev + spec_step_writes(
                        c0,
                        action,
                        symbol,
                        trail,
                        head,
                        forbidden@,
                    ));
                }
            }
        } else {
            self.delay = self.delay - 1;
            self.delete_last_char(forbidden, out);
            proof {
                assert(out.deep_view() =~= prev + spec_step_writes(
                    c0,
                    action,
                    symbol,
                    trail,
                    head,
                    forbidden@,
                ));
            }
        }
    }

    /// One tick with the three random draws taken from the generator: the
    /// action code is uniform over zero to two, the symbol over the
    /// charset, and a span reset installs a delay drawn from the lane's
    /// dormancy range.
    pub fn update(
        &mut self,
        trail: Color,
        head: Color,
        forbidden: &Vec<(u16, u16)>,
        out: &mut Vec<TermWrite>,
    )
        requires
            old(self).wf(),
        ensures
            final(self).wf(),
            stepped(*old(self), *final(self), forbidden@),
            old(out).deep_view().is_prefix_of(final(out).deep_view()),
            stepped_with_writes(
                *old(self),
                *final(self),
                final(out).deep_view().skip(old(out).deep_view().len() as int),
                trail,
                head,
                forbidden@,
            ),
            writes_avoid(final(out).deep_view().skip(old(out).deep_view().len() as int), forbidden@),
    {
        let action = rand_inclusive(0, 2);
        let symbol = random_char();
        let reset_delay = rand_inclusive(
            0,
            if self.horizontal {
                300
            } else {
                150
            },
        );
        let ghost c0 = *self;
        let ghost prev = out.deep_view();
        self.tick(action, symbol, reset_delay, trail, head, forbidden, out);
        proof {
            assert(*self == spec_step(c0, action, symbol, reset_delay, forbidden@));
            lemma_step_writes_avoid(c0, action, symbol, trail, head, forbidden@);
            assert(out.deep_view().skip(prev.len() as int) =~= spec_step_writes(
                c0,
                action,
                symbol,
                trail,
                head,
                forbidden@,
            ));
        }
    }
}

/// The writes of a tick never touch a reserved cell, whatever the state
/// and the draws.
pub proof fn lemma_step_writes_avoid(
    c: Column,
    action: u16,
    symbol: char,
    trail: Color,
    head: Color,
    forbidden: Seq<(u16, u16)>,
)
    ensures
        writes_avoid(spec_step_writes(c, action, symbol, trail, head, forbidden), forbidden),
{
    let ws = spec_step_writes(c, action, symbol, trail, head, forbidden);
    assert forall|i: int, p: (u16, u16)|
        0 <= i < ws.len() && #[trigger] write_cells(ws[i]).contains(p) implies !forbidden.contains(
        p,
    ) by {
        assert(ws[i] matches WriteView::Cell { x, y, .. } && !forbidden.contains((x, y)));
    }
}

/// The span coordinates, the delay and the lane never depend on the
/// reserved set: a tick advances the state machine identically whether or
/// not its writes were suppressed. Only the recorded last symbol may
/// differ.
pub proof fn lemma_span_advances_despite_reserved(
    c: Column,
    action: u16,
    symbol: char,
    reset_delay: u16,
    f1: Seq<(u16, u16)>,
    f2: Seq<(u16, u16)>,
)
    ensures
        spec_step(c, action, symbol, reset_delay, f1).start == spec_step(
            c,
            action,
            symbol,
            reset_delay,
            f2,
        ).start,
        spec_step(c, action, symbol, reset_delay, f1).end == spec_step(
            c,
            action,
            symbol,
            reset_delay,
            f2,
        ).end,
        spec_step(c, action, symbol, reset_delay, f1).delay == spec_step(
            c,
            action,
            symbol,
            reset_delay,
            f2,
        ).delay,
        spec_step(c, action, symbol, reset_delay, f1).max_height == spec_step(
            c,
            action,
            symbol,
            reset_delay,
            f2,
        ).max_height,
        spec_step(c, action, symbol, reset_delay, f1).column == spec_step(
            c,
            action,
            symbol,
            reset_delay,
            f2,
        ).column,
{
}

/// Once the head has reached the far travel bound it never moves past it:
/// it either stays there, or the whole span resets to the near bound.
pub proof fn lemma_end_stops_at_bound(
    c: Column,
    action: u16,
    symbol: char,
    reset_delay: u16,
    forbidden: Seq<(u16, u16)>,
)
    requires
        c.wf(),
    ensures
        ({
            let far = if !c.reverse {
                c.max_height
            } else {
                c.lowest()
            };
            let near = if !c.reverse {
                c.lowest()
            } else {
                c.max_height
            };
            let next = spec_step(c, action, symbol, reset_delay, forbidden);
            c.end == far ==> (next.end == far || (next.start == near && next.end == near))
        }),
{
}

} // verus!
