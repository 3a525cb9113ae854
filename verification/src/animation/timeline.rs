//! The undo and redo history of timeline edits.

use vstd::prelude::*;

verus! {

/// How many operations a new history keeps for undo.
pub const DEFAULT_MAX_HISTORY: usize = 100;

/// Undo and redo stacks of editing operations of type `T`, with a limit on
/// the number of operations kept for undo.
#[derive(Debug)]
pub struct TimelineHistory<T> {
    undo_stack: Vec<T>,
    redo_stack: Vec<T>,
    max_history_size: usize,
}

/// The undo stack after `op` is recorded on `undo` under the limit `max`:
/// `op` goes on top, and the oldest operation is dropped when the stack then
/// holds more than `max`.
pub open spec fn recorded<T>(undo: Seq<T>, op: T, max: nat) -> Seq<T> {
    if undo.len() + 1 > max {
        undo.push(op).drop_first()
    } else {
        undo.push(op)
    }
}

/// Moving the top of stack `from` onto stack `to` gave `from2` and `to2` and
/// returned `r`: with `from` empty, nothing changes and `r` is `None`;
/// otherwise `r` is the top of `from`, which leaves it, and a clone of it goes
/// on top of `to`.
pub open spec fn moved_top<T: Clone>(
    from: Seq<T>,
    to: Seq<T>,
    from2: Seq<T>,
    to2: Seq<T>,
    r: Option<T>,
) -> bool {
    if from.len() == 0 {
        &&& r is None
        &&& from2 == from
        &&& to2 == to
    } else {
        &&& r == Some(from.last())
        &&& from2 == from.drop_last()
        &&& to2.len() == to.len() + 1
        &&& to2.drop_last() == to
        &&& cloned(from.last(), to2.last())
    }
}

/// Undoing an operation and then redoing it gives the stacks back: the redo
/// stack as it was, the undo stack with its top replaced by a clone of a clone
/// of the operation that was undone.
pub proof fn lemma_undo_then_redo<T: Clone>(
    undo0: Seq<T>,
    redo0: Seq<T>,
    undo1: Seq<T>,
    redo1: Seq<T>,
    undo2: Seq<T>,
    redo2: Seq<T>,
    undone: Option<T>,
    redone: Option<T>,
)
    requires
        undo0.len() > 0,
        moved_top(undo0, redo0, undo1, redo1, undone),
        moved_top(redo1, undo1, redo2, undo2, redone),
    ensures
        undone == Some(undo0.last()),
        redone == Some(redo1.last()),
        redo2 == redo0,
        undo2.len() == undo0.len(),
        undo2.drop_last() == undo0.drop_last(),
        cloned(undo0.last(), redo1.last()),
        cloned(redo1.last(), undo2.last()),
{
}

/// Recording keeps the undo stack within the limit when it was within it.
pub proof fn lemma_recorded_within_limit<T>(undo: Seq<T>, op: T, max: nat)
    requires
        undo.len() <= max,
    ensures
        recorded(undo, op, max).len() <= max,
        recorded(undo, op, max).len() > 0 ==> recorded(undo, op, max).last() == op,
{
}

impl<T: Clone> TimelineHistory<T> {
    /// The operations that can be undone, the most recent last.
    pub closed spec fn undo_seq(&self) -> Seq<T> {
        self.undo_stack@
    }

    /// The operations that can be redone, the next one last.
    pub closed spec fn redo_seq(&self) -> Seq<T> {
        self.redo_stack@
    }

    /// The number of operations kept for undo.
    pub closed spec fn max_size(&self) -> nat {
        self.max_history_size as nat
    }

    /// An empty history that keeps the default number of operations.
    pub fn new() -> (h: Self)
        ensures
            h.undo_seq() == Seq::<T>::empty(),
            h.redo_seq() == Seq::<T>::empty(),
            h.max_size() == DEFAULT_MAX_HISTORY,
    {
        TimelineHistory {
            undo_stack: Vec::new(),
            redo_stack: Vec::new(),
            max_history_size: DEFAULT_MAX_HISTORY,
        }
    }

    /// The same history, keeping `max_size` operations for undo from now on.
    pub fn with_max_size(self, max_size: usize) -> (h: Self)
        ensures
            h.undo_seq() == self.undo_seq(),
            h.redo_seq() == self.redo_seq(),
            h.max_size() == max_size,
    {
        let mut h = self;
        h.max_history_size = max_size;
        h
    }

    /// Record a new operation: it can be undone next, nothing can be redone,
    /// and the oldest operation is forgotten when the limit is passed.
    pub fn record_operation(&mut self, operation: T)
        ensures
            final(self).undo_seq() == recorded(old(self).undo_seq(), operation, old(self).max_size()),
            final(self).redo_seq() == Seq::<T>::empty(),
            final(self).max_size() == old(self).max_size(),
    {
        self.undo_stack.push(operation);
        self.redo_stack.clear();
        if self.undo_stack.len() > self.max_history_size {
            self.undo_stack.remove(0);
            proof {
                assert(self.undo_stack@ =~= old(self).undo_stack@.push(operation).drop_first());
            }
        }
    }

    /// Take the most recent operation for undo; it can then be redone.
    pub fn undo(&mut self) -> (r: Option<T>)
        ensures
            moved_top(
                old(self).undo_seq(),
                old(self).redo_seq(),
                final(self).undo_seq(),
                final(self).redo_seq(),
                r,
            ),
            final(self).max_size() == old(self).max_size(),
    {
        match self.undo_stack.pop() {
            Some(operation) => {
                let copy = operation.clone();
                self.redo_stack.push(copy);
                proof {
                    assert(self.redo_stack@.drop_last() =~= old(self).redo_stack@);
                }
                Some(operation)
            },
            None => None,
        }
    }

    /// Take the most recently undone operation for redo; it can then be
    /// undone again.
    pub fn redo(&mut self) -> (r: Option<T>)
        ensures
            moved_top(
                old(self).redo_seq(),
                old(self).undo_seq(),
                final(self).redo_seq(),
                final(self).undo_seq(),
                r,
            ),
            final(self).max_size() == old(self).max_size(),
    {
        match self.redo_stack.pop() {
            Some(operation) => {
                let copy = operation.clone();
                self.undo_stack.push(copy);
                proof {
                    assert(self.undo_stack@.drop_last() =~= old(self).undo_stack@);
                }
                Some(operation)
            },
            None => None,
        }
    }

    /// Whether an operation can be undone.
    pub fn can_undo(&self) -> (r: bool)
        ensures
            r == (self.undo_seq().len() > 0),
    {
        !self.undo_stack.is_empty()
    }

    /// Whether an operation can be redone.
    pub fn can_redo(&self) -> (r: bool)
        ensures
            r == (self.redo_seq().len() > 0),
    {
        !self.redo_stack.is_empty()
    }

    /// Forget all operations.
    pub fn clear(&mut self)
        ensures
            final(self).undo_seq() == Seq::<T>::empty(),
            final(self).redo_seq() == Seq::<T>::empty(),
            final(self).max_size() == old(self).max_size(),
    {
        self.undo_stack.clear();
        self.redo_stack.clear();
    }
}

impl<T: Clone> Default for TimelineHistory<T> {
    /// An empty history that keeps the default number of operations.
    fn default() -> (h: Self)
        ensures
            h.undo_seq() == Seq::<T>::empty(),
            h.redo_seq() == Seq::<T>::empty(),
            h.max_size() == DEFAULT_MAX_HISTORY,
    {
        Self::new()
    }
}

} // verus!
