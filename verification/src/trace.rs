//! Sequences of calls to a consumer-supplied trait.
//!
//! A consumer's trait states each call as a relation between the consumer before
//! and after it. [`chain`] says that a sequence of such calls leads from one state
//! to another.

use vstd::prelude::*;

verus! {

/// Taking `events` one by one with `step` may lead from `before` to `after`.
pub open spec fn chain<S, E>(
    step: spec_fn(S, E, S) -> bool,
    before: S,
    events: Seq<E>,
    after: S,
) -> bool
    decreases events.len(),
{
    if events.len() == 0 {
        after == before
    } else {
        exists|between: S|
            chain(step, before, events.drop_last(), between) && #[trigger] step(
                between,
                events.last(),
                after,
            )
    }
}

/// A chain grows by one step.
pub proof fn lemma_chain_push<S, E>(
    step: spec_fn(S, E, S) -> bool,
    before: S,
    events: Seq<E>,
    between: S,
    event: E,
    after: S,
)
    requires
        chain(step, before, events, between),
        step(between, event, after),
    ensures
        chain(step, before, events.push(event), after),
{
    assert(events.push(event).drop_last() =~= events);
    assert(events.push(event).last() == event);
}

/// Two chains join.
pub proof fn lemma_chain_concat<S, E>(
    step: spec_fn(S, E, S) -> bool,
    before: S,
    first: Seq<E>,
    between: S,
    second: Seq<E>,
    after: S,
)
    requires
        chain(step, before, first, between),
        chain(step, between, second, after),
    ensures
        chain(step, before, first + second, after),
    decreases second.len(),
{
    if second.len() == 0 {
        assert(first + second =~= first);
    } else {
        let middle = choose|middle: S|
            chain(step, between, second.drop_last(), middle) && #[trigger] step(
                middle,
                second.last(),
                after,
            );
        lemma_chain_concat(step, before, first, between, second.drop_last(), middle);
        assert((first + second).drop_last() =~= first + second.drop_last());
        assert((first + second).last() == second.last());
    }
}

} // verus!
