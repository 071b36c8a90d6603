//! The mathematical model of a restorable iterator: its abstract state and
//! the transitions that `save`, `restore` and `next` perform on it.
use vstd::prelude::*;
use vstd::std_specs::iter::IteratorSpec;

verus! {

/// What one call of `next` does to a lawful iterator: `before` and `after` are
/// the items it has yet to yield before and after the call, `out` is what the
/// call returns.
pub open spec fn yields<I>(before: Seq<I>, after: Seq<I>, out: Option<I>) -> bool {
    if before.len() > 0 {
        &&& after == before.drop_first()
        &&& out == Some(before[0])
    } else {
        &&& after == before
        &&& out is None
    }
}

/// What one call of `next` that returns `out` does to the termination
/// measure of a lawful iterator: a measure is neither gained nor lost, and it
/// goes down whenever an item is returned.
pub open spec fn descends<I>(before: Option<nat>, after: Option<nat>, out: Option<I>) -> bool {
    &&& before is Some <==> after is Some
    &&& out is Some && after is Some ==> decreases_to!(before->0 => after->0)
}

/// What a lawful iterator that has yet to yield `items` returns on its `i`-th
/// call from now, counting from zero.
pub open spec fn item_at<I>(items: Seq<I>, i: int) -> Option<I> {
    if 0 <= i < items.len() {
        Some(items[i])
    } else {
        None
    }
}

/// `slot` is a faithful record of `out`: an exhaustion marker for an
/// exhaustion, a clone of the value for a value.
pub open spec fn records<I: Clone>(slot: Option<I>, out: Option<I>) -> bool {
    match out {
        Some(value) => slot is Some && cloned(value, slot->0),
        None => slot is None,
    }
}

/// The abstract state of a restorable iterator.
pub struct IterState<T, I> {
    /// The wrapped iterator, at the position it has physically reached.
    pub source: T,
    /// The recorded slots that are yet to be replayed, oldest first. `None`
    /// marks a point at which the source reported exhaustion.
    pub recorded: Seq<Option<I>>,
    /// Whether `next` currently records what it pulls.
    pub saving: bool,
}

impl<T: Iterator<Item = I>, I: Clone> IterState<T, I> {
    /// The state of a wrapper that has just been attached to `source`.
    pub open spec fn fresh(source: T) -> Self {
        IterState { source, recorded: Seq::empty(), saving: false }
    }

    /// The state after `save`.
    pub open spec fn save(self) -> Self {
        IterState { saving: true, ..self }
    }

    /// The state after `restore`.
    pub open spec fn restore(self) -> Self {
        IterState { saving: false, ..self }
    }

    /// Whether the next call of `next` goes to the source, rather than to the
    /// recorded slots.
    pub open spec fn pulls(self) -> bool {
        self.saving || self.recorded.len() == 0
    }

    /// One call of `next` takes `self` to `post` and returns `out`, as far as
    /// the flag, the recorded slots and the identity of the source go. What a
    /// pull gives is the source's own business.
    pub open spec fn steps(self, post: Self, out: Option<I>) -> bool {
        &&& post.saving == self.saving
        &&& post.source.obeys_prophetic_iter_laws() == self.source.obeys_prophetic_iter_laws()
        &&& if self.saving {
            &&& post.recorded == self.recorded.push(post.recorded.last())
            &&& records(post.recorded.last(), out)
        } else if self.recorded.len() > 0 {
            &&& out == self.recorded.first()
            &&& post.recorded == self.recorded.drop_first()
            &&& post.source == self.source
        } else {
            post.recorded == self.recorded
        }
    }
}

} // verus!
