//! A composite cursor: one absolute position spanning an ordered list of
//! independently-sized content blocks.
//!
//! The absolute position is the single source of truth; the owning block
//! and the offset inside it are recomputed on demand.  Every navigation
//! primitive saturates at the bounds instead of failing.

use vstd::prelude::*;

verus! {

/// A content block that exposes nothing but its length.
pub trait Len {
    /// The number of slots this block contributes.
    spec fn content_len(&self) -> nat;

    /// Returns the block's length.
    fn len(&self) -> (r: usize)
        ensures
            r as nat == self.content_len(),
    ;
}

impl<T> Len for Vec<T> {
    open spec fn content_len(&self) -> nat {
        self@.len()
    }

    fn len(&self) -> (r: usize)
        ensures
            r as nat == self.content_len(),
    {
        self.len()
    }
}

impl Len for crate::grapheme::StyledGraphemes {
    open spec fn content_len(&self) -> nat {
        self@.len()
    }

    fn len(&self) -> (r: usize)
        ensures
            r as nat == self.content_len(),
    {
        self.0.len()
    }
}

/// The combined length of a list of blocks.
pub open spec fn bundle_len<C: Len>(bundle: Seq<C>) -> nat
    decreases bundle.len(),
{
    if bundle.len() == 0 {
        0
    } else {
        bundle_len(bundle.drop_last()) + bundle.last().content_len()
    }
}

/// Extending a prefix of blocks by one block adds that block's length.
pub proof fn lemma_bundle_len_take_succ<C: Len>(bundle: Seq<C>, i: int)
    requires
        0 <= i < bundle.len(),
    ensures
        bundle_len(bundle.take(i + 1)) == bundle_len(bundle.take(i)) + bundle[i].content_len(),
{
    assert(bundle.take(i + 1).drop_last() =~= bundle.take(i));
    assert(bundle.take(i + 1).last() == bundle[i]);
}

/// A prefix of blocks never exceeds the whole bundle's length.
pub proof fn lemma_bundle_len_take_le<C: Len>(bundle: Seq<C>, i: int)
    requires
        0 <= i <= bundle.len(),
    ensures
        bundle_len(bundle.take(i)) <= bundle_len(bundle),
    decreases bundle.len() - i,
{
    if i == bundle.len() {
        assert(bundle.take(i) =~= bundle);
    } else {
        lemma_bundle_len_take_succ(bundle, i);
        lemma_bundle_len_take_le(bundle, i + 1);
    }
}

/// Where a forward step from `pos` lands, and whether it moved: it
/// advances by one only while the result stays below the total length.
pub open spec fn forward_step(pos: nat, total: nat) -> (nat, bool) {
    if pos + 1 < total {
        ((pos + 1) as nat, true)
    } else {
        (pos, false)
    }
}

/// Where a backward step from `pos` lands, and whether it moved.
pub open spec fn backward_step(pos: nat) -> (nat, bool) {
    if pos > 0 {
        ((pos - 1) as nat, true)
    } else {
        (pos, false)
    }
}

/// Where an atomic shift by `back` then `fwd` lands, and whether it moved:
/// it fails as a whole, with no partial movement, if `back` exceeds `pos`
/// or the result would not stay below the total length.
pub open spec fn shift_step(pos: nat, total: nat, back: nat, fwd: nat) -> (nat, bool) {
    if back <= pos && pos - back + fwd < total {
        ((pos - back + fwd) as nat, true)
    } else {
        (pos, false)
    }
}

/// The position of the final slot: `total - 1`, or 0 when empty.
pub open spec fn tail_position(total: nat) -> nat {
    if total == 0 {
        0
    } else {
        (total - 1) as nat
    }
}

/// A step forward immediately after a step backward restores the position,
/// and the other way around, except at the respective boundary.
pub proof fn lemma_forward_backward_roundtrip(pos: nat, total: nat)
    ensures
        forward_step(pos, total).1 ==> backward_step(forward_step(pos, total).0)
            == (pos, true),
        backward_step(pos).1 && pos < total ==> forward_step(backward_step(pos).0, total)
            == (pos, true),
{
}

/// A forward step from the tail position never moves.
pub proof fn lemma_tail_forward_noop(total: nat)
    ensures
        forward_step(tail_position(total), total) == (tail_position(total), false),
{
}

/// A shift either nets exactly `fwd - back` or leaves the position
/// unchanged.
pub proof fn lemma_shift_all_or_nothing(pos: nat, total: nat, back: nat, fwd: nat)
    ensures
        shift_step(pos, total, back, fwd).1 ==> shift_step(pos, total, back, fwd).0 + back == pos
            + fwd,
        !shift_step(pos, total, back, fwd).1 ==> shift_step(pos, total, back, fwd).0 == pos,
{
}

/// One absolute, 0-based position across an ordered list of blocks.  The
/// position stays strictly below the combined length, or at 0 when the
/// bundle is empty.
#[derive(Clone)]
pub struct CompositeCursor<C> {
    bundle: Vec<C>,
    cross_contents_position: usize,
}

impl<C: Len> CompositeCursor<C> {
    /// The blocks this cursor spans.
    pub closed spec fn spec_bundle(&self) -> Seq<C> {
        self.bundle@
    }

    /// The current absolute position.
    pub closed spec fn spec_position(&self) -> nat {
        self.cross_contents_position as nat
    }

    /// The combined length of all blocks.
    pub open spec fn spec_total(&self) -> nat {
        bundle_len(self.spec_bundle())
    }

    /// The cursor's invariant: the position is in bounds (or 0 when the
    /// bundle is empty) and the combined length is a machine integer.
    pub open spec fn wf(&self) -> bool {
        &&& self.spec_total() <= usize::MAX
        &&& if self.spec_total() == 0 {
            self.spec_position() == 0
        } else {
            self.spec_position() < self.spec_total()
        }
    }

    /// Sums the block lengths.
    fn total_len(bundle: &Vec<C>) -> (r: usize)
        requires
            bundle_len(bundle@) <= usize::MAX,
        ensures
            r as nat == bundle_len(bundle@),
    {
        let mut acc: usize = 0;
        let mut i: usize = 0;
        while i < bundle.len()
            invariant
                i <= bundle@.len(),
                acc as nat == bundle_len(bundle@.take(i as int)),
                bundle_len(bundle@) <= usize::MAX,
            decreases bundle@.len() - i,
        {
            proof {
                lemma_bundle_len_take_succ(bundle@, i as int);
                lemma_bundle_len_take_le(bundle@, i + 1);
            }
            acc = acc + bundle[i].len();
            i = i + 1;
        }
        proof {
            assert(bundle@.take(bundle@.len() as int) =~= bundle@);
        }
        acc
    }

    /// Builds a cursor over the given blocks.  An out-of-range initial
    /// position is clamped to the final slot (or 0 when empty); bad input
    /// never fails.
    pub fn new(bundle: Vec<C>, position: usize) -> (r: CompositeCursor<C>)
        requires
            bundle_len(bundle@) <= usize::MAX,
        ensures
            r.wf(),
            r.spec_bundle() == bundle@,
            r.spec_position() == if position as nat >= bundle_len(bundle@) {
                tail_position(bundle_len(bundle@))
            } else {
                position as nat
            },
    {
        let total = Self::total_len(&bundle);
        let adjusted = if position >= total {
            if total == 0 {
                0
            } else {
                total - 1
            }
        } else {
            position
        };
        CompositeCursor { bundle, cross_contents_position: adjusted }
    }

    /// The blocks this cursor spans.
    pub fn bundle(&self) -> (r: &Vec<C>)
        ensures
            r@ == self.spec_bundle(),
    {
        &self.bundle
    }

    /// The current absolute position.
    pub fn cross_contents_position(&self) -> (r: usize)
        ensures
            r as nat == self.spec_position(),
    {
        self.cross_contents_position
    }

    /// The index of the block holding the current position, and the
    /// position's offset inside that block: lengths are accumulated until
    /// the running total passes the position.
    pub fn current_bundle_index_and_inner_position(&self) -> (r: (usize, usize))
        requires
            self.wf(),
            self.spec_total() > 0,
        ensures
            r.0 < self.spec_bundle().len(),
            (r.1 as nat) < self.spec_bundle()[r.0 as int].content_len(),
            bundle_len(self.spec_bundle().take(r.0 as int)) + r.1 == self.spec_position(),
    {
        let ghost bundle = self.bundle@;
        let mut accumulated_len: usize = 0;
        let mut bundle_index: usize = 0;
        while bundle_index < self.bundle.len()
            invariant
                self.wf(),
                bundle == self.bundle@,
                bundle_index <= bundle.len(),
                accumulated_len as nat == bundle_len(bundle.take(bundle_index as int)),
                accumulated_len <= self.cross_contents_position,
            decreases bundle.len() - bundle_index,
        {
            proof {
                lemma_bundle_len_take_succ(bundle, bundle_index as int);
                lemma_bundle_len_take_le(bundle, bundle_index + 1);
            }
            let c_len = self.bundle[bundle_index].len();
            if accumulated_len + c_len > self.cross_contents_position {
                return (bundle_index, self.cross_contents_position - accumulated_len);
            }
            accumulated_len = accumulated_len + c_len;
            bundle_index = bundle_index + 1;
        }
        proof {
            assert(bundle.take(bundle.len() as int) =~= bundle);
            assert(false);
        }
        (0, 0)
    }

    /// Moves the position within the combined bounds: back by `backward`,
    /// then forward by `forward`, atomically.  Reports whether it moved;
    /// on failure the position is unchanged.
    pub fn shift(&mut self, backward: usize, forward: usize) -> (moved: bool)
        requires
            old(self).wf(),
        ensures
            final(self).wf(),
            final(self).spec_bundle() == old(self).spec_bundle(),
            (final(self).spec_position(), moved) == shift_step(
                old(self).spec_position(),
                old(self).spec_total(),
                backward as nat,
                forward as nat,
            ),
    {
        let total = Self::total_len(&self.bundle);
        if backward > self.cross_contents_position {
            false
        } else {
            let new_position = self.cross_contents_position - backward;
            if total - new_position > forward {
                self.cross_contents_position = new_position + forward;
                true
            } else {
                false
            }
        }
    }

    /// Advances by one slot; at the final slot it reports failure and
    /// stays put.
    pub fn forward(&mut self) -> (moved: bool)
        requires
            old(self).wf(),
        ensures
            final(self).wf(),
            final(self).spec_bundle() == old(self).spec_bundle(),
            (final(self).spec_position(), moved) == forward_step(
                old(self).spec_position(),
                old(self).spec_total(),
            ),
    {
        let total = Self::total_len(&self.bundle);
        if total > 0 && self.cross_contents_position < total - 1 {
            self.cross_contents_position = self.cross_contents_position + 1;
            true
        } else {
            false
        }
    }

    /// Retreats by one slot; at position 0 it reports failure and stays
    /// put.
    pub fn backward(&mut self) -> (moved: bool)
        requires
            old(self).wf(),
        ensures
            final(self).wf(),
            final(self).spec_bundle() == old(self).spec_bundle(),
            (final(self).spec_position(), moved) == backward_step(old(self).spec_position()),
    {
        if self.cross_contents_position > 0 {
            self.cross_contents_position = self.cross_contents_position - 1;
            true
        } else {
            false
        }
    }

    /// Jumps to position 0.
    pub fn move_to_head(&mut self)
        requires
            old(self).wf(),
        ensures
            final(self).wf(),
            final(self).spec_bundle() == old(self).spec_bundle(),
            final(self).spec_position() == 0,
    {
        self.cross_contents_position = 0;
    }

    /// Jumps to the final slot (position 0 when the bundle is empty).
    pub fn move_to_tail(&mut self)
        requires
            old(self).wf(),
        ensures
            final(self).wf(),
            final(self).spec_bundle() == old(self).spec_bundle(),
            final(self).spec_position() == tail_position(old(self).spec_total()),
    {
        let total = Self::total_len(&self.bundle);
        if total == 0 {
            self.cross_contents_position = 0;
        } else {
            self.cross_contents_position = total - 1;
        }
    }
}

} // verus!
