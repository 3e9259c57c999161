//! The draw planner: it keeps the frame rows last committed to the screen
//! and, for each incoming frame set, decides which rows must be written.
//!
//! A change of terminal size between draws invalidates every row-alignment
//! assumption, so the planner then orders a full repaint instead of a
//! diff; the size is re-read before anything is planned, which is what
//! keeps the output correct across a mid-session resize.  The writes
//! themselves are escape-sequence work and belong to the embedding
//! application.

use vstd::prelude::*;

use crate::grapheme::{rows_view, StyledGrapheme, StyledGraphemes};
use crate::pane::{frame_rows, lemma_frame_rows_take_succ, Pane};

verus! {

/// Whether row `i` of the new frame must be rewritten when `prev` is on
/// the screen: it is new, or it differs from what is shown.
pub open spec fn row_changed(
    prev: Seq<Seq<StyledGrapheme>>,
    next: Seq<Seq<StyledGrapheme>>,
    i: int,
) -> bool {
    i >= prev.len() || prev[i] != next[i]
}

/// What one draw cycle tells the terminal layer to do.  `rows` is the
/// complete new frame; row `i` must be written exactly when `dirty[i]`
/// holds; `clear_count` rows after the last new row must be cleared; on a
/// full repaint the whole screen is cleared first and every row written.
#[derive(Debug)]
pub struct DrawPlan {
    pub full_repaint: bool,
    pub rows: Vec<StyledGraphemes>,
    pub dirty: Vec<bool>,
    pub clear_count: usize,
    pub cursor: (u16, u16),
}

/// Row views distribute over concatenation of row lists.
pub proof fn lemma_rows_view_concat(a: Seq<StyledGraphemes>, b: Seq<StyledGraphemes>)
    ensures
        rows_view(a + b) == rows_view(a) + rows_view(b),
{
    assert(rows_view(a + b) =~= rows_view(a) + rows_view(b));
}

/// The committed state of the screen: the frame rows last drawn and the
/// terminal size at which they were drawn.
pub struct Terminal {
    prev_rows: Vec<StyledGraphemes>,
    size: (u16, u16),
    has_frame: bool,
}

impl Terminal {
    /// The frame rows committed by the last draw.
    pub closed spec fn spec_committed(&self) -> Seq<Seq<StyledGrapheme>> {
        rows_view(self.prev_rows@)
    }

    /// The terminal size at the last draw (or at session start).
    pub closed spec fn spec_size(&self) -> (u16, u16) {
        self.size
    }

    /// Whether a frame has been committed since the session started.
    pub closed spec fn spec_has_frame(&self) -> bool {
        self.has_frame
    }

    /// Whether the next draw must repaint fully instead of diffing: before
    /// the first draw of a session, and whenever the size changed.
    pub open spec fn spec_forces_full(&self, size: (u16, u16)) -> bool {
        !self.spec_has_frame() || size != self.spec_size()
    }

    /// Starts a session: captures the current terminal size and discards
    /// any prior diff state, so the first draw is always a full paint.
    pub fn start_session(size: (u16, u16)) -> (r: Terminal)
        ensures
            !r.spec_has_frame(),
            r.spec_size() == size,
            r.spec_committed() == Seq::<Seq<StyledGrapheme>>::empty(),
    {
        let r = Terminal { prev_rows: Vec::new(), size, has_frame: false };
        proof {
            assert(r.spec_committed() =~= Seq::<Seq<StyledGrapheme>>::empty());
        }
        r
    }

    /// Flattens a frame set into its rows, pane after pane.
    fn flatten_panes(panes: &Vec<Pane>) -> (r: Vec<StyledGraphemes>)
        ensures
            rows_view(r@) == frame_rows(panes@),
    {
        let mut out: Vec<StyledGraphemes> = Vec::new();
        let mut p: usize = 0;
        proof {
            assert(rows_view(out@) =~= frame_rows(panes@.take(0)));
        }
        while p < panes.len()
            invariant
                p <= panes@.len(),
                rows_view(out@) == frame_rows(panes@.take(p as int)),
            decreases panes@.len() - p,
        {
            let ghost out_before = out@;
            let mut cloned = Self::clone_rows(&panes[p].rows);
            let ghost cloned_view = cloned@;
            out.append(&mut cloned);
            proof {
                lemma_rows_view_concat(out_before, cloned_view);
                lemma_frame_rows_take_succ(panes@, p as int);
            }
            p = p + 1;
        }
        proof {
            assert(panes@.take(panes@.len() as int) =~= panes@);
        }
        out
    }

    /// Plans one draw cycle for the frame set, in component order, against
    /// the current terminal size: a full repaint when the size changed or
    /// nothing is committed yet, otherwise a row-by-row diff where
    /// unchanged rows are skipped, changed rows rewritten and trailing
    /// rows that disappeared cleared.  The cursor coordinate of the active
    /// component is passed through.  The new frame is committed as the
    /// next diff baseline.
    pub fn draw(&mut self, size: (u16, u16), panes: &Vec<Pane>, cursor: (u16, u16)) -> (plan:
        DrawPlan)
        ensures
            final(self).spec_size() == size,
            final(self).spec_has_frame(),
            final(self).spec_committed() == frame_rows(panes@),
            rows_view(plan.rows@) == frame_rows(panes@),
            plan.cursor == cursor,
            plan.full_repaint == old(self).spec_forces_full(size),
            plan.dirty@.len() == plan.rows@.len(),
            forall|i: int|
                0 <= i < plan.dirty@.len() ==> plan.dirty@[i] == (plan.full_repaint || row_changed(
                    old(self).spec_committed(),
                    frame_rows(panes@),
                    i,
                )),
            plan.clear_count == if !plan.full_repaint && old(self).spec_committed().len()
                > frame_rows(panes@).len() {
                old(self).spec_committed().len() - frame_rows(panes@).len()
            } else {
                0
            },
    {
        let rows = Self::flatten_panes(panes);
        let full = !self.has_frame || size.0 != self.size.0 || size.1 != self.size.1;
        let mut dirty: Vec<bool> = Vec::new();
        let mut i: usize = 0;
        let ghost prev = rows_view(self.prev_rows@);
        let ghost next = rows_view(rows@);
        while i < rows.len()
            invariant
                i <= rows@.len(),
                prev == rows_view(self.prev_rows@),
                next == rows_view(rows@),
                dirty@.len() == i,
                forall|k: int|
                    0 <= k < i ==> dirty@[k] == (full || row_changed(prev, next, k)),
            decreases rows@.len() - i,
        {
            let changed = if full || i >= self.prev_rows.len() {
                true
            } else {
                !(self.prev_rows[i] == rows[i])
            };
            dirty.push(changed);
            i = i + 1;
        }
        let clear_count = if !full && self.prev_rows.len() > rows.len() {
            self.prev_rows.len() - rows.len()
        } else {
            0
        };
        let committed = Self::clone_rows(&rows);
        self.prev_rows = committed;
        self.size = size;
        self.has_frame = true;
        DrawPlan { full_repaint: full, rows, dirty, clear_count, cursor }
    }

    /// Copies a row list.
    fn clone_rows(rows: &Vec<StyledGraphemes>) -> (r: Vec<StyledGraphemes>)
        ensures
            rows_view(r@) == rows_view(rows@),
    {
        let mut out: Vec<StyledGraphemes> = Vec::new();
        let mut i: usize = 0;
        while i < rows.len()
            invariant
                i <= rows@.len(),
                out@.len() == i,
                forall|k: int| 0 <= k < i ==> #[trigger] out@[k]@ == rows@[k]@,
            decreases rows@.len() - i,
        {
            let row = rows[i].clone();
            out.push(row);
            i = i + 1;
        }
        proof {
            assert(rows_view(out@) =~= rows_view(rows@));
        }
        out
    }
}

/// Changing the terminal size between draws forces the next draw to
/// repaint fully: no stale row from the previous wrap is reused.
pub proof fn lemma_resize_forces_full(t: Terminal, size: (u16, u16))
    requires
        size != t.spec_size(),
    ensures
        t.spec_forces_full(size),
{
}

/// Once a draw has committed a frame, a draw at an unchanged size resumes
/// incremental diffing: nothing forces a full repaint.
pub proof fn lemma_incremental_after_commit(t: Terminal, size: (u16, u16))
    requires
        t.spec_has_frame(),
        t.spec_size() == size,
    ensures
        !t.spec_forces_full(size),
{
}

} // verus!
