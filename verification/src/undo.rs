//! The undo and redo stacks behind the plan.
//!
//! Every change snapshots the plan first. A grouped step snapshots once when
//! it opens, and nothing inside it adds another. The log is bounded: past
//! the limit the oldest snapshot is let go.

use vstd::prelude::*;

verus! {

/// How many steps can be taken back.
pub const UNDO_LIMIT: usize = 60;

/// What an [`UndoLog`] holds: the snapshots an undo would go back to, oldest
/// first; the ones a redo would put back on, the next one last; and how deep
/// the grouped step currently open is.
pub struct UndoView<P> {
    pub undo: Seq<P>,
    pub redo: Seq<P>,
    pub depth: nat,
}

/// The undo and redo stacks, with the depth of the grouped step in progress.
pub struct UndoLog<P> {
    undo: Vec<P>,
    redo: Vec<P>,
    depth: u32,
}

impl<P> View for UndoLog<P> {
    type V = UndoView<P>;

    closed spec fn view(&self) -> UndoView<P> {
        UndoView { undo: self.undo@, redo: self.redo@, depth: self.depth as nat }
    }
}

/// Never more snapshots kept, on both stacks together, than the limit.
pub open spec fn within_limit<P>(v: UndoView<P>) -> bool {
    v.undo.len() + v.redo.len() <= UNDO_LIMIT
}

/// The undo stack with one more snapshot on top, its oldest let go when that
/// takes it past the limit.
pub open spec fn pushed_within_limit<P>(undo: Seq<P>, before: P) -> Seq<P> {
    if undo.len() + 1 > UNDO_LIMIT {
        undo.push(before).drop_first()
    } else {
        undo.push(before)
    }
}

/// A change made outside the grouped-step machinery: the plan as it was goes
/// on the undo stack and whatever could have been redone is gone.
pub open spec fn recorded<P>(v: UndoView<P>, before: P) -> UndoView<P> {
    UndoView { undo: pushed_within_limit(v.undo, before), redo: Seq::empty(), depth: v.depth }
}

/// A checkpoint: a recorded change, unless a grouped step is open, whose
/// snapshot already covers it.
pub open spec fn checkpointed<P>(v: UndoView<P>, before: P) -> UndoView<P> {
    if v.depth > 0 {
        v
    } else {
        recorded(v, before)
    }
}

/// The log after going back one step from `current`, and the plan to carry
/// on with. With nothing to go back to, nothing changes.
pub open spec fn rolled_back<P>(v: UndoView<P>, current: P) -> (UndoView<P>, P) {
    if v.undo.len() == 0 {
        (v, current)
    } else {
        (
            UndoView { undo: v.undo.drop_last(), redo: v.redo.push(current), depth: v.depth },
            v.undo.last(),
        )
    }
}

/// The log after putting back one step that was taken back, and the plan to
/// carry on with. With nothing to put back, nothing changes.
pub open spec fn redone<P>(v: UndoView<P>, current: P) -> (UndoView<P>, P) {
    if v.redo.len() == 0 {
        (v, current)
    } else {
        (
            UndoView { undo: v.undo.push(current), redo: v.redo.drop_last(), depth: v.depth },
            v.redo.last(),
        )
    }
}

/// Opening a grouped step: the outermost one checkpoints, an inner one only
/// goes one deeper.
pub open spec fn begun<P>(v: UndoView<P>, before: P) -> UndoView<P> {
    let c = checkpointed(v, before);
    UndoView { undo: c.undo, redo: c.redo, depth: v.depth + 1 }
}

/// Closing a grouped step: one level shallower, and never below none.
pub open spec fn ended<P>(v: UndoView<P>) -> UndoView<P> {
    UndoView { undo: v.undo, redo: v.redo, depth: if v.depth > 0 { (v.depth - 1) as nat } else { 0 } }
}

impl<P> UndoLog<P> {
    /// Every log, whatever has been done to it, keeps no more snapshots on
    /// its two stacks together than the limit.
    #[verifier::type_invariant]
    spec fn keeps_within_limit(self) -> bool {
        within_limit(self@)
    }

    /// An empty log, with no step open.
    pub fn new() -> (r: Self)
        ensures
            r@.undo.len() == 0,
            r@.redo.len() == 0,
            r@.depth == 0,
    {
        UndoLog { undo: Vec::new(), redo: Vec::new(), depth: 0 }
    }

    /// Whether there is a step to take back. However the log got here, the
    /// two stacks hold no more than the limit.
    pub fn can_undo(&self) -> (r: bool)
        ensures
            r == (self@.undo.len() > 0),
            within_limit(self@),
    {
        proof {
            use_type_invariant(self);
        }
        self.undo.len() > 0
    }

    /// Whether there is a step to put back on.
    pub fn can_redo(&self) -> (r: bool)
        ensures
            r == (self@.redo.len() > 0),
            within_limit(self@),
    {
        proof {
            use_type_invariant(self);
        }
        self.redo.len() > 0
    }

    /// Whether a grouped step is open.
    pub fn in_step(&self) -> (r: bool)
        ensures
            r == (self@.depth > 0),
    {
        self.depth > 0
    }

    /// Keep `before` as the plan to go back to, whatever step is open: the
    /// path taken by work brought in from elsewhere, which is one step of its
    /// own however it arrives.
    pub fn record(&mut self, before: P)
        ensures
            final(self)@ == recorded(old(self)@, before),
            within_limit(final(self)@),
            final(self)@.undo.len() <= UNDO_LIMIT,
    {
        proof {
            use_type_invariant(&*self);
        }
        let mut undo: Vec<P> = Vec::new();
        std::mem::swap(&mut undo, &mut self.undo);
        let mut redo: Vec<P> = Vec::new();
        std::mem::swap(&mut redo, &mut self.redo);
        undo.push(before);
        if undo.len() > UNDO_LIMIT {
            undo.remove(0);
        }
        proof {
            assert(undo@ =~= pushed_within_limit(old(self)@.undo, before));
        }
        self.undo = undo;
    }

    /// Snapshot the plan before changing it. Inside a grouped step the step's
    /// own snapshot already covers the change, so nothing is kept. Either
    /// way the two stacks end within the limit.
    pub fn checkpoint(&mut self, before: P)
        ensures
            final(self)@ == checkpointed(old(self)@, before),
            within_limit(final(self)@),
            final(self)@.undo.len() <= UNDO_LIMIT,
    {
        proof {
            use_type_invariant(&*self);
        }
        if self.depth > 0 {
            return;
        }
        self.record(before);
    }

    /// Go back one step from `current`: the plan to carry on with, and
    /// `current` kept for a redo. With nothing to go back to, `current` comes
    /// straight back.
    pub fn roll_back(&mut self, current: P) -> (r: P)
        ensures
            (final(self)@, r) == rolled_back(old(self)@, current),
            within_limit(final(self)@),
            final(self)@.undo.len() <= UNDO_LIMIT,
    {
        proof {
            use_type_invariant(&*self);
        }
        if self.undo.len() == 0 {
            return current;
        }
        let mut undo: Vec<P> = Vec::new();
        std::mem::swap(&mut undo, &mut self.undo);
        let mut redo: Vec<P> = Vec::new();
        std::mem::swap(&mut redo, &mut self.redo);
        let previous = undo.pop().unwrap();
        redo.push(current);
        self.undo = undo;
        self.redo = redo;
        previous
    }

    /// Put back on the step last taken back: the plan to carry on with, and
    /// `current` kept for an undo. With nothing to put back, `current` comes
    /// straight back.
    pub fn redo(&mut self, current: P) -> (r: P)
        ensures
            (final(self)@, r) == redone(old(self)@, current),
            within_limit(final(self)@),
            final(self)@.undo.len() <= UNDO_LIMIT,
    {
        proof {
            use_type_invariant(&*self);
        }
        if self.redo.len() == 0 {
            return current;
        }
        let mut undo: Vec<P> = Vec::new();
        std::mem::swap(&mut undo, &mut self.undo);
        let mut redo: Vec<P> = Vec::new();
        std::mem::swap(&mut redo, &mut self.redo);
        let next = redo.pop().unwrap();
        undo.push(current);
        self.redo = redo;
        self.undo = undo;
        next
    }

    /// Open a grouped step, with `before` as the plan as it stood. Steps do
    /// not nest: an inner one joins the step already open.
    pub fn begin_step(&mut self, before: P)
        requires
            old(self)@.depth < u32::MAX,
        ensures
            final(self)@ == begun(old(self)@, before),
            within_limit(final(self)@),
            final(self)@.undo.len() <= UNDO_LIMIT,
    {
        self.checkpoint(before);
        self.depth = self.depth + 1;
    }

    /// Close a grouped step. True when that closed the outermost one, which
    /// is when what it did becomes one entry and the plan is scheduled again.
    pub fn end_step(&mut self) -> (closed: bool)
        ensures
            final(self)@ == ended(old(self)@),
            closed == (final(self)@.depth == 0),
            within_limit(final(self)@),
            final(self)@.undo.len() <= UNDO_LIMIT,
    {
        proof {
            use_type_invariant(&*self);
        }
        self.depth = self.depth.saturating_sub(1);
        self.depth == 0
    }
}

/// Taking back the change just checkpointed gives back the plan as it stood
/// before it, and keeps the changed plan for a redo.
pub proof fn undo_after_a_change_gives_back_the_plan_before_it<P>(
    v: UndoView<P>,
    before: P,
    changed: P,
)
    requires
        v.depth == 0,
    ensures
        rolled_back(checkpointed(v, before), changed).1 == before,
        rolled_back(checkpointed(v, before), changed).0.redo == seq![changed],
{
}

/// A redo straight after an undo puts back the plan the undo took away, and
/// leaves both stacks as they were before the undo.
pub proof fn redo_puts_back_what_undo_took<P>(v: UndoView<P>, current: P)
    requires
        v.undo.len() > 0,
    ensures
        ({
            let (after_undo, previous) = rolled_back(v, current);
            let (after_redo, restored) = redone(after_undo, previous);
            &&& restored == current
            &&& after_redo.undo == v.undo
            &&& after_redo.redo == v.redo
            &&& after_redo.depth == v.depth
        }),
{
    let (after_undo, previous) = rolled_back(v, current);
    assert(after_undo.undo.push(previous) =~= v.undo);
    assert(after_undo.redo.drop_last() =~= v.redo);
}

/// Inside a grouped step a change adds no snapshot of its own, so the whole
/// step is taken back by one undo.
pub proof fn a_grouped_step_is_one_undo<P>(v: UndoView<P>, before: P, inner: Seq<P>, changed: P)
    requires
        v.depth == 0,
    ensures
        ({
            let opened = begun(v, before);
            &&& opened.undo == recorded(v, before).undo
            &&& forall|i: int| 0 <= i < inner.len() ==> #[trigger] checkpointed(opened, inner[i]) == opened
            &&& rolled_back(opened, changed).1 == before
        }),
{
}

/// However the log is used, the two stacks together never hold more than
/// the limit.
pub proof fn the_log_never_outgrows_its_limit<P>(v: UndoView<P>, p: P)
    requires
        within_limit(v),
    ensures
        within_limit(recorded(v, p)),
        within_limit(checkpointed(v, p)),
        within_limit(rolled_back(v, p).0),
        within_limit(redone(v, p).0),
        within_limit(begun(v, p)),
        within_limit(ended(v)),
{
}

} // verus!
