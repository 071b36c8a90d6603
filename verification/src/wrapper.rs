//! The restorable iterator itself.
use vstd::prelude::*;
use vstd::std_specs::iter::IteratorSpec;
use std::collections::VecDeque;
use crate::state::IterState;
use crate::state::descends;
use crate::state::yields;

verus! {

/// An iterator adaptor with a single checkpoint.
///
/// While saving, every result pulled from the source, exhaustion included, is
/// handed out and also recorded. Once restored, the recorded results are
/// handed out again, oldest first, before the source is consulted anew.
#[verifier::reject_recursive_types(I)]
pub struct RestorableIter<T, I> where T: Iterator<Item = I>, I: Clone {
    inner: T,
    buf: VecDeque<Option<I>>,
    saving: bool,
}

impl<T, I> View for RestorableIter<T, I> where T: Iterator<Item = I>, I: Clone {
    type V = IterState<T, I>;

    closed spec fn view(&self) -> IterState<T, I> {
        IterState { source: self.inner, recorded: self.buf@, saving: self.saving }
    }
}

impl<T, I> RestorableIter<T, I> where T: Iterator<Item = I>, I: Clone {
    /// Attaches to `inner`. Nothing is recorded and nothing is pulled yet.
    pub fn new(inner: T) -> (r: Self)
        ensures
            r@ == IterState::<T, I>::fresh(inner),
    {
        RestorableIter { inner, buf: VecDeque::with_capacity(4), saving: false }
    }

    /// Starts recording. The recorded slots that are still waiting stay.
    pub fn save(&mut self)
        ensures
            final(self)@ == old(self)@.save(),
    {
        self.saving = true;
    }

    /// Stops recording. The recorded slots stay queued for replay.
    pub fn restore(&mut self)
        ensures
            final(self)@ == old(self)@.restore(),
    {
        self.saving = false;
    }

    /// Advances the sequence by one.
    ///
    /// While saving, pulls from the source, appends a record of what came,
    /// value or exhaustion, behind the recorded slots, and returns it. While
    /// not saving, returns the oldest recorded slot and removes it, without
    /// touching the source; with no slot left, pulls from the source and
    /// returns what came.
    ///
    /// A pull is one call of the source's `next`. For a source that obeys the
    /// iterator laws, the last clause says what that call returns and leaves.
    pub fn next(&mut self) -> (ret: Option<I>)
        ensures
            old(self)@.steps(final(self)@, ret),
            old(self)@.pulls() && old(self)@.source.obeys_prophetic_iter_laws() ==> {
                &&& yields(
                    old(self)@.source.remaining(),
                    final(self)@.source.remaining(),
                    ret,
                )
                &&& descends(
                    old(self)@.source.decrease(),
                    final(self)@.source.decrease(),
                    ret,
                )
                &&& final(self)@.source.will_return_none() == old(self)@.source.will_return_none()
                &&& ret is None ==> final(self)@.source.will_return_none()
            },
    {
        if self.saving {
            let next_item = self.inner.next();
            self.buf.push_back(next_item.clone());
            next_item
        } else {
            match self.buf.pop_front() {
                Some(saved_item) => saved_item,
                None => self.inner.next(),
            }
        }
    }
}

/// Lets any iterator be wrapped by a chained call.
pub trait Restorable<I>: Iterator where I: Clone {
    /// Wraps this iterator; the same as [`RestorableIter::new`].
    fn iter_restorable(self) -> (r: RestorableIter<Self, I>) where Self: Sized + Iterator<Item = I>
        ensures
            r@ == IterState::<Self, I>::fresh(self),
    {
        RestorableIter::new(self)
    }
}

impl<I, T: ?Sized> Restorable<I> for T where T: Iterator<Item = I>, I: Clone {
}

} // verus!
