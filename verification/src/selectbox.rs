//! A list of selectable candidates and the index of the one currently
//! chosen.  Movement saturates at both ends of the list.

use vstd::prelude::*;

use crate::grapheme::{styled_seq, total_width, StyledGrapheme, StyledGraphemes};
use crate::pane::Pane;
use crate::prompt::{Error, Event, EventAction, Key, Renderer};
use crate::style::ContentStyle;

verus! {

/// Stores the candidates to choose items from, and the selection index.
#[derive(Debug, Default)]
pub struct SelectBox {
    pub data: Vec<StyledGraphemes>,
    pub idx: usize,
}

impl SelectBox {
    /// Creates an empty select box.
    pub fn new() -> (r: SelectBox)
        ensures
            r.data@ == Seq::<StyledGraphemes>::empty(),
            r.idx == 0,
    {
        SelectBox { data: Vec::new(), idx: 0 }
    }

    /// Appends one candidate, shown with the plain style.
    pub fn register(&mut self, item: &str)
        ensures
            final(self).idx == old(self).idx,
            final(self).data@.len() == old(self).data@.len() + 1,
            forall|i: int|
                0 <= i < old(self).data@.len() ==> final(self).data@[i] == old(self).data@[i],
            final(self).data@.last()@ == styled_seq(item@, ContentStyle::spec_plain()),
    {
        self.data.push(StyledGraphemes::from_plain(item));
    }

    /// Appends every item of the list, in order.
    pub fn register_all(&mut self, items: Vec<&str>)
        ensures
            final(self).idx == old(self).idx,
            final(self).data@.len() == old(self).data@.len() + items@.len(),
            forall|i: int|
                0 <= i < old(self).data@.len() ==> final(self).data@[i] == old(self).data@[i],
            forall|k: int|
                0 <= k < items@.len() ==> final(self).data@[old(self).data@.len() + k]@
                    == styled_seq(items@[k]@, ContentStyle::spec_plain()),
    {
        let base = self.data.len();
        let mut j: usize = 0;
        while j < items.len()
            invariant
                j <= items@.len(),
                base == old(self).data@.len(),
                self.idx == old(self).idx,
                self.data@.len() == base + j,
                forall|i: int| 0 <= i < base ==> self.data@[i] == old(self).data@[i],
                forall|k: int|
                    0 <= k < j ==> self.data@[base + k]@ == styled_seq(
                        items@[k]@,
                        ContentStyle::spec_plain(),
                    ),
            decreases items@.len() - j,
        {
            self.register(items[j]);
            j = j + 1;
        }
    }

    /// The current selection index.
    pub fn pos(&self) -> (r: usize)
        ensures
            r == self.idx,
    {
        self.idx
    }

    /// Moves the selection up by one; at the first candidate it reports
    /// failure and stays put.
    pub fn prev(&mut self) -> (moved: bool)
        ensures
            final(self).data == old(self).data,
            moved == (old(self).idx > 0),
            final(self).idx == if old(self).idx > 0 {
                old(self).idx - 1
            } else {
                old(self).idx as int
            },
    {
        if self.idx > 0 {
            self.idx = self.idx - 1;
            true
        } else {
            false
        }
    }

    /// Moves the selection down by one; at the last candidate it reports
    /// failure and stays put.
    pub fn next(&mut self) -> (moved: bool)
        ensures
            final(self).data == old(self).data,
            moved == (old(self).data@.len() > 0 && old(self).idx < old(self).data@.len() - 1),
            final(self).idx == if old(self).data@.len() > 0 && old(self).idx < old(
                self,
            ).data@.len() - 1 {
                old(self).idx + 1
            } else {
                old(self).idx as int
            },
    {
        if self.data.len() > 0 && self.idx < self.data.len() - 1 {
            self.idx = self.idx + 1;
            true
        } else {
            false
        }
    }

    /// Jumps the selection to the first candidate.
    pub fn to_head(&mut self)
        ensures
            final(self).data == old(self).data,
            final(self).idx == 0,
    {
        self.idx = 0;
    }

    /// Jumps the selection to the last candidate.
    pub fn to_tail(&mut self)
        requires
            old(self).data@.len() > 0,
        ensures
            final(self).data == old(self).data,
            final(self).idx == old(self).data@.len() - 1,
    {
        self.idx = self.data.len() - 1;
    }

    /// The candidate at the given index, if there is one.
    pub fn get_with(&self, i: usize) -> (r: Option<&StyledGraphemes>)
        ensures
            match r {
                Some(g) => i < self.data@.len() && *g == self.data@[i as int],
                None => i >= self.data@.len(),
            },
    {
        if i < self.data.len() {
            Some(&self.data[i])
        } else {
            None
        }
    }

    /// The currently selected candidate, or the empty sequence when the
    /// selection index is out of range.
    pub fn get(&self) -> (r: StyledGraphemes)
        ensures
            r@ == if self.idx < self.data@.len() {
                self.data@[self.idx as int]@
            } else {
                Seq::<StyledGrapheme>::empty()
            },
    {
        if self.idx < self.data.len() {
            self.data[self.idx].clone()
        } else {
            StyledGraphemes(Vec::new())
        }
    }
}

impl Renderer for SelectBox {
    /// One row per candidate, each truncated to the terminal width; the
    /// pane's offset is the selection index.
    fn make_pane(&self, width: u16) -> (r: Pane)
        ensures
            r.offset == self.idx,
            r.rows@.len() == self.data@.len(),
            forall|k: int|
                0 <= k < r.rows@.len() ==> (#[trigger] r.rows@[k]@).len() <= self.data@[k]@.len(),
            forall|k: int|
                0 <= k < r.rows@.len() ==> total_width(#[trigger] r.rows@[k]@) <= width as nat,
            forall|k: int|
                0 <= k < r.rows@.len() ==> #[trigger] r.rows@[k]@ == self.data@[k]@.take(
                    r.rows@[k]@.len() as int,
                ),
    {
        let w = width as usize;
        let mut rows: Vec<StyledGraphemes> = Vec::new();
        let mut i: usize = 0;
        while i < self.data.len()
            invariant
                i <= self.data@.len(),
                rows@.len() == i,
                forall|k: int|
                    0 <= k < i ==> (#[trigger] rows@[k]@).len() <= self.data@[k]@.len(),
                forall|k: int|
                    0 <= k < i ==> total_width(#[trigger] rows@[k]@) <= w as nat,
                forall|k: int|
                    0 <= k < i ==> #[trigger] rows@[k]@ == self.data@[k]@.take(
                        rows@[k]@.len() as int,
                    ),
            decreases self.data@.len() - i,
        {
            let row = self.data[i].truncate_to_width(w);
            rows.push(row);
            i = i + 1;
        }
        Pane::new(rows, self.idx)
    }

    /// Down and Up move the selection, saturating at the ends; Enter asks
    /// to quit; Ctrl-C interrupts the session; anything else is ignored.
    fn handle_event(&mut self, event: &Event) -> (r: Result<EventAction, Error>)
        ensures
            final(self).data == old(self).data,
            *event == Event::KeyPress(Key::Down) ==> final(self).idx == if old(self).data@.len()
                > 0 && old(self).idx < old(self).data@.len() - 1 {
                old(self).idx + 1
            } else {
                old(self).idx as int
            },
            *event == Event::KeyPress(Key::Up) ==> final(self).idx == if old(self).idx > 0 {
                old(self).idx - 1
            } else {
                old(self).idx as int
            },
            r matches Ok(a) ==> (a == EventAction::Quit <==> *event == Event::KeyPress(
                Key::Enter,
            )),
            r is Err <==> *event == Event::KeyPress(Key::Ctrl('c')),
            !(*event == Event::KeyPress(Key::Down) || *event == Event::KeyPress(Key::Up))
                ==> final(self).idx == old(self).idx,
    {
        match event {
            Event::KeyPress(Key::Down) => {
                self.next();
                Ok(EventAction::Continue)
            },
            Event::KeyPress(Key::Up) => {
                self.prev();
                Ok(EventAction::Continue)
            },
            Event::KeyPress(Key::Enter) => Ok(EventAction::Quit),
            Event::KeyPress(Key::Ctrl(c)) => {
                if *c == 'c' {
                    Err(Error::Interrupted)
                } else {
                    Ok(EventAction::Continue)
                }
            },
            _ => Ok(EventAction::Continue),
        }
    }

    /// Resets the selection to the first candidate.
    fn postrun(&mut self)
        ensures
            final(self).data == old(self).data,
            final(self).idx == 0,
    {
        self.to_head();
    }
}

} // verus!
