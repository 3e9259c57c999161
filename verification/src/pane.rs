//! A frame: one component's rendered rows for the current draw cycle,
//! together with the line offset the component wants shown.
//!
//! Frames are rebuilt from scratch on every draw and compared by value by
//! the draw planner; they are never mutated in place.

use vstd::prelude::*;

use crate::grapheme::{rows_view, StyledGrapheme, StyledGraphemes};

verus! {

/// One component's visual snapshot: a list of rows, each already cut to
/// the terminal width, plus the intra-pane line offset.
#[derive(Debug)]
pub struct Pane {
    pub rows: Vec<StyledGraphemes>,
    pub offset: usize,
}

impl Pane {
    /// Builds a pane from its rows and offset.
    pub fn new(rows: Vec<StyledGraphemes>, offset: usize) -> (r: Pane)
        ensures
            r.rows@ == rows@,
            r.offset == offset,
    {
        Pane { rows, offset }
    }

    /// The number of rows in this pane.
    pub fn visible_row_count(&self) -> (r: usize)
        ensures
            r == self.rows@.len(),
    {
        self.rows.len()
    }
}

/// The rows of a whole frame set, pane after pane in component order.
pub open spec fn frame_rows(panes: Seq<Pane>) -> Seq<Seq<StyledGrapheme>>
    decreases panes.len(),
{
    if panes.len() == 0 {
        Seq::empty()
    } else {
        frame_rows(panes.drop_last()) + rows_view(panes.last().rows@)
    }
}

/// Adding one pane appends exactly its rows.
pub proof fn lemma_frame_rows_take_succ(panes: Seq<Pane>, i: int)
    requires
        0 <= i < panes.len(),
    ensures
        frame_rows(panes.take(i + 1)) == frame_rows(panes.take(i)) + rows_view(panes[i].rows@),
{
    assert(panes.take(i + 1).drop_last() =~= panes.take(i));
    assert(panes.take(i + 1).last() == panes[i]);
}

} // verus!
