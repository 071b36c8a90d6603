//! What holds of a restorable iterator across several calls.
//!
//! A sequence of `next` calls is described by the states it passes through
//! and the results it returns; see [`run`]. Each statement below is proved
//! from the contracts of `new`, `save`, `restore` and `next` alone.
use vstd::prelude::*;
use vstd::std_specs::iter::IteratorSpec;
use crate::state::IterState;
use crate::state::item_at;
use crate::state::records;
use crate::state::yields;

verus! {

/// `outs.len()` consecutive calls of `next`: the `i`-th call finds the state
/// `states[i]`, returns `outs[i]` and leaves the state `states[i + 1]`.
pub open spec fn run<T: Iterator<Item = I>, I: Clone>(
    states: Seq<IterState<T, I>>,
    outs: Seq<Option<I>>,
) -> bool {
    &&& states.len() == outs.len() + 1
    &&& forall|i: int| 0 <= i < outs.len() ==> states[i].steps(states[i + 1], #[trigger] outs[i])
}

/// The items a lawful iterator has yet to yield after `n` calls of `next`, if
/// it had yet to yield `items` before them.
pub open spec fn after_pulls<I>(items: Seq<I>, n: int) -> Seq<I> {
    if n < items.len() {
        items.skip(n)
    } else {
        Seq::empty()
    }
}

/// Pulling `n` times from a lawful iterator yields its first `n` items in
/// order, then exhaustion, and leaves the rest.
proof fn lemma_lawful_pulls<I>(rests: Seq<Seq<I>>, outs: Seq<Option<I>>, n: int)
    requires
        rests.len() == outs.len() + 1,
        forall|i: int| 0 <= i < outs.len() ==> yields(rests[i], rests[i + 1], #[trigger] outs[i]),
        0 <= n <= outs.len(),
    ensures
        rests[n] == after_pulls(rests[0], n),
        forall|i: int| 0 <= i < n ==> #[trigger] outs[i] == item_at(rests[0], i),
    decreases n,
{
    if n > 0 {
        lemma_lawful_pulls(rests, outs, n - 1);
        assert(yields(rests[n - 1], rests[n], outs[n - 1]));
    }
}

/// Every call of `next` leaves the source as lawful as it found it.
proof fn lemma_lawful_run<T: Iterator<Item = I>, I: Clone>(
    states: Seq<IterState<T, I>>,
    outs: Seq<Option<I>>,
    n: int,
)
    requires
        run(states, outs),
        0 <= n <= outs.len(),
    ensures
        states[n].source.obeys_prophetic_iter_laws() == states[0].source.obeys_prophetic_iter_laws(),
    decreases n,
{
    if n > 0 {
        lemma_lawful_run(states, outs, n - 1);
        assert(states[n - 1].steps(states[n], outs[n - 1]));
    }
}

/// A wrapper that is not saving and holds no recorded slot stays so, however
/// often `next` is called.
proof fn lemma_idle_run<T: Iterator<Item = I>, I: Clone>(
    states: Seq<IterState<T, I>>,
    outs: Seq<Option<I>>,
    n: int,
)
    requires
        run(states, outs),
        states[0].pulls(),
        !states[0].saving,
        0 <= n <= outs.len(),
    ensures
        states[n] == IterState::<T, I>::fresh(states[n].source),
        states[n].source.obeys_prophetic_iter_laws() == states[0].source.obeys_prophetic_iter_laws(),
    decreases n,
{
    if n > 0 {
        lemma_idle_run(states, outs, n - 1);
        assert(states[n - 1].steps(states[n], outs[n - 1]));
    }
    assert(states[n].recorded =~= Seq::empty());
}

/// An idle wrapper is transparent: as long as neither `save` nor `restore` is
/// called, every call of `next` is a call of the source's `next`, and so the
/// wrapper returns the source's items, element for element and in order, and
/// then its exhaustion.
pub proof fn lemma_idle_is_transparent<T: Iterator<Item = I>, I: Clone>(
    source: T,
    states: Seq<IterState<T, I>>,
    outs: Seq<Option<I>>,
)
    requires
        run(states, outs),
        states[0] == IterState::<T, I>::fresh(source),
        forall|i: int|
            0 <= i < outs.len() && states[i].pulls() && states[i].source.obeys_prophetic_iter_laws()
                ==> yields(
                states[i].source.remaining(),
                states[i + 1].source.remaining(),
                #[trigger] outs[i],
            ),
    ensures
        forall|i: int|
            0 <= i <= outs.len() ==> #[trigger] states[i] == IterState::<T, I>::fresh(
                states[i].source,
            ),
        source.obeys_prophetic_iter_laws() ==> forall|i: int|
            0 <= i < outs.len() ==> #[trigger] outs[i] == item_at(source.remaining(), i),
{
    assert forall|i: int| 0 <= i <= outs.len() implies #[trigger] states[i] == IterState::<
        T,
        I,
    >::fresh(states[i].source) && states[i].source.obeys_prophetic_iter_laws()
        == source.obeys_prophetic_iter_laws() by {
        lemma_idle_run(states, outs, i);
    }
    if source.obeys_prophetic_iter_laws() {
        let rests = Seq::new(states.len(), |i: int| states[i].source.remaining());
        assert forall|i: int| 0 <= i < outs.len() implies yields(
            rests[i],
            rests[i + 1],
            #[trigger] outs[i],
        ) by {}
        lemma_lawful_pulls(rests, outs, outs.len() as int);
    }
}

/// One checkpoint cycle: from `start`, which holds no recorded slot, `save`, then
/// `first.len()` calls of `next` through the states `recording`, then
/// `restore`, then `second.len()` calls of `next` through the states `replay`,
/// no more than were recorded.
pub open spec fn cycle<T: Iterator<Item = I>, I: Clone>(
    start: IterState<T, I>,
    recording: Seq<IterState<T, I>>,
    first: Seq<Option<I>>,
    replay: Seq<IterState<T, I>>,
    second: Seq<Option<I>>,
) -> bool {
    &&& start.recorded.len() == 0
    &&& run(recording, first)
    &&& recording[0] == start.save()
    &&& run(replay, second)
    &&& replay[0] == recording.last().restore()
    &&& second.len() <= first.len()
}

/// While saving, each call of `next` appends one slot, which records what the
/// call returned; the slots that were there stay in front.
proof fn lemma_recording_run<T: Iterator<Item = I>, I: Clone>(
    states: Seq<IterState<T, I>>,
    outs: Seq<Option<I>>,
    n: int,
)
    requires
        run(states, outs),
        states[0].saving,
        0 <= n <= outs.len(),
    ensures
        states[n].saving,
        states[n].recorded.len() == states[0].recorded.len() + n,
        forall|i: int|
            0 <= i < states[0].recorded.len() ==> #[trigger] states[n].recorded[i]
                == states[0].recorded[i],
        forall|i: int|
            0 <= i < n ==> records(
                #[trigger] states[n].recorded[states[0].recorded.len() + i],
                outs[i],
            ),
    decreases n,
{
    if n > 0 {
        lemma_recording_run(states, outs, n - 1);
        assert(states[n - 1].steps(states[n], outs[n - 1]));
    }
}

/// While not saving, each call of `next` that finds a recorded slot returns
/// the oldest one and removes it, and leaves the source alone.
proof fn lemma_replay_run<T: Iterator<Item = I>, I: Clone>(
    states: Seq<IterState<T, I>>,
    outs: Seq<Option<I>>,
    n: int,
)
    requires
        run(states, outs),
        !states[0].saving,
        0 <= n <= outs.len() <= states[0].recorded.len(),
    ensures
        !states[n].saving,
        states[n].source == states[0].source,
        states[n].recorded == states[0].recorded.skip(n),
        forall|i: int| 0 <= i < n ==> #[trigger] outs[i] == states[0].recorded[i],
    decreases n,
{
    if n > 0 {
        lemma_replay_run(states, outs, n - 1);
        assert(states[n - 1].steps(states[n], outs[n - 1]));
    }
}

/// Replay fidelity: after `save`, some calls of `next`, and `restore`, the
/// following calls of `next` return what the calls between `save` and
/// `restore` returned, in the same order: exhaustion for exhaustion, and for a
/// value a clone of it. Where a clone of a value can only be that value, the
/// two batches are equal.
pub proof fn lemma_replay_fidelity<T: Iterator<Item = I>, I: Clone>(
    start: IterState<T, I>,
    recording: Seq<IterState<T, I>>,
    first: Seq<Option<I>>,
    replay: Seq<IterState<T, I>>,
    second: Seq<Option<I>>,
)
    requires
        cycle(start, recording, first, replay, second),
    ensures
        forall|i: int| 0 <= i < second.len() ==> records(#[trigger] second[i], first[i]),
        (forall|a: I, b: I| #[trigger] cloned(a, b) ==> a == b) ==> second == first.take(
            second.len() as int,
        ),
{
    lemma_recording_run(recording, first, first.len() as int);
    lemma_replay_run(replay, second, second.len() as int);
    assert forall|i: int| 0 <= i < second.len() implies records(#[trigger] second[i], first[i]) by {
        assert(records(recording.last().recorded[start.recorded.len() + i], first[i]));
    }
}

/// No pull during replay: while recorded slots are handed out again, the
/// source is not advanced. It stays the very value that the recording left.
pub proof fn lemma_replay_spares_source<T: Iterator<Item = I>, I: Clone>(
    start: IterState<T, I>,
    recording: Seq<IterState<T, I>>,
    first: Seq<Option<I>>,
    replay: Seq<IterState<T, I>>,
    second: Seq<Option<I>>,
)
    requires
        cycle(start, recording, first, replay, second),
    ensures
        forall|j: int|
            0 <= j <= second.len() ==> (#[trigger] replay[j]).source == recording.last().source,
{
    lemma_recording_run(recording, first, first.len() as int);
    assert forall|j: int| 0 <= j <= second.len() implies (#[trigger] replay[j]).source
        == recording.last().source by {
        lemma_replay_run(replay, second, j);
    }
}

/// What is left after `k` pulls, and then after `j` more, is what is left
/// after `k + j` pulls.
proof fn lemma_item_after_pulls<I>(items: Seq<I>, k: int, j: int)
    requires
        0 <= k,
        0 <= j,
    ensures
        item_at(after_pulls(items, k), j) == item_at(items, k + j),
{
}

/// Seamless continuation: once a cycle has handed out every recorded slot
/// again, the wrapper is what a fresh wrapper around the source, as the
/// recording left it, would be. With a lawful source the calls between `save`
/// and `restore` return its next items in order, and the calls after the
/// replay go on with the item that follows the last recorded one: none is
/// skipped and none comes twice. Over the whole cycle the source has been
/// pulled once for each call between `save` and `restore`, and no more.
pub proof fn lemma_seamless_continuation<T: Iterator<Item = I>, I: Clone>(
    start: IterState<T, I>,
    recording: Seq<IterState<T, I>>,
    first: Seq<Option<I>>,
    replay: Seq<IterState<T, I>>,
    second: Seq<Option<I>>,
    onward: Seq<IterState<T, I>>,
    third: Seq<Option<I>>,
)
    requires
        cycle(start, recording, first, replay, second),
        second.len() == first.len(),
        run(onward, third),
        onward[0] == replay.last(),
        forall|i: int|
            0 <= i < first.len() && recording[i].pulls()
                && recording[i].source.obeys_prophetic_iter_laws() ==> yields(
                recording[i].source.remaining(),
                recording[i + 1].source.remaining(),
                #[trigger] first[i],
            ),
        forall|i: int|
            0 <= i < third.len() && onward[i].pulls()
                && onward[i].source.obeys_prophetic_iter_laws() ==> yields(
                onward[i].source.remaining(),
                onward[i + 1].source.remaining(),
                #[trigger] third[i],
            ),
    ensures
        replay.last() == IterState::<T, I>::fresh(recording.last().source),
        forall|j: int|
            0 <= j <= third.len() ==> #[trigger] onward[j] == IterState::<T, I>::fresh(
                onward[j].source,
            ),
        start.source.obeys_prophetic_iter_laws() ==> {
            &&& replay.last().source.remaining() == after_pulls(
                start.source.remaining(),
                first.len() as int,
            )
            &&& forall|i: int|
                0 <= i < first.len() ==> #[trigger] first[i] == item_at(
                    start.source.remaining(),
                    i,
                )
            &&& forall|j: int|
                0 <= j < third.len() ==> #[trigger] third[j] == item_at(
                    start.source.remaining(),
                    first.len() + j,
                )
        },
{
    let k = first.len() as int;
    lemma_recording_run(recording, first, k);
    lemma_replay_run(replay, second, k);
    assert(replay.last().recorded =~= Seq::empty());
    lemma_idle_is_transparent(replay.last().source, onward, third);
    if start.source.obeys_prophetic_iter_laws() {
        let items = start.source.remaining();
        let rests = Seq::new(recording.len(), |i: int| recording[i].source.remaining());
        assert forall|i: int| 0 <= i < first.len() implies yields(
            rests[i],
            rests[i + 1],
            #[trigger] first[i],
        ) by {
            lemma_recording_run(recording, first, i);
            lemma_lawful_run(recording, first, i);
        }
        lemma_lawful_pulls(rests, first, k);
        lemma_lawful_run(recording, first, k);
        assert forall|j: int| 0 <= j < third.len() implies #[trigger] third[j] == item_at(
            items,
            k + j,
        ) by {
            lemma_item_after_pulls(items, k, j);
        }
    }
}

/// Exhaustion is replayable: where a call between `save` and `restore` found
/// the source exhausted, the exhaustion was recorded, and the replay returns
/// `None` at that same position. Once the replay is through, the calls that
/// follow consult the source again, and a lawful source still reports
/// exhaustion.
pub proof fn lemma_exhaustion_is_replayed<T: Iterator<Item = I>, I: Clone>(
    start: IterState<T, I>,
    recording: Seq<IterState<T, I>>,
    first: Seq<Option<I>>,
    replay: Seq<IterState<T, I>>,
    second: Seq<Option<I>>,
    onward: Seq<IterState<T, I>>,
    third: Seq<Option<I>>,
)
    requires
        cycle(start, recording, first, replay, second),
        second.len() == first.len(),
        run(onward, third),
        onward[0] == replay.last(),
        forall|i: int|
            0 <= i < first.len() && recording[i].pulls()
                && recording[i].source.obeys_prophetic_iter_laws() ==> yields(
                recording[i].source.remaining(),
                recording[i + 1].source.remaining(),
                #[trigger] first[i],
            ),
        forall|i: int|
            0 <= i < third.len() && onward[i].pulls()
                && onward[i].source.obeys_prophetic_iter_laws() ==> yields(
                onward[i].source.remaining(),
                onward[i + 1].source.remaining(),
                #[trigger] third[i],
            ),
    ensures
        forall|i: int|
            0 <= i < first.len() && (#[trigger] first[i]) is None ==> {
                &&& recording.last().recorded[i] is None
                &&& second[i] is None
            },
        forall|j: int| 0 <= j <= third.len() ==> (#[trigger] onward[j]).pulls(),
        start.source.obeys_prophetic_iter_laws() ==> forall|i: int, j: int|
            0 <= i < first.len() && (#[trigger] first[i]) is None && 0 <= j < third.len() ==> (
            #[trigger] third[j]) is None,
{
    lemma_recording_run(recording, first, first.len() as int);
    lemma_replay_fidelity(start, recording, first, replay, second);
    lemma_seamless_continuation(start, recording, first, replay, second, onward, third);
    assert forall|i: int| 0 <= i < first.len() && (#[trigger] first[i]) is None implies {
        &&& recording.last().recorded[i] is None
        &&& second[i] is None
    } by {
        assert(records(recording.last().recorded[start.recorded.len() + i], first[i]));
    }
}

} // verus!
