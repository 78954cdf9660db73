//! What one step of a window asks for, told from what was asked for before.
use crate::window::{Act, WindowView};
use vstd::prelude::*;

verus! {

/// Whether a step takes nothing back of what was to be done already.
pub open spec fn grows(before: WindowView, after: WindowView) -> bool {
    &&& before.outbox.len() <= after.outbox.len()
    &&& forall|k: int| 0 <= k < before.outbox.len() ==> after.outbox[k] == before.outbox[k]
}

/// Whether a step asks for something.
pub open spec fn asks(before: WindowView, after: WindowView, act: Act) -> bool {
    exists|k: int|
        before.outbox.len() <= k < after.outbox.len() && #[trigger] after.outbox[k] == act
}

/// Whether everything a step asks for is of one sort.
pub open spec fn asks_only(
    before: WindowView,
    after: WindowView,
    allowed: spec_fn(Act) -> bool,
) -> bool {
    forall|k: int|
        before.outbox.len() <= k < after.outbox.len() ==> allowed(#[trigger] after.outbox[k])
}

/// Whether a step asks for one thing, and later for another.
pub open spec fn asks_in_turn(
    before: WindowView,
    after: WindowView,
    first: Act,
    second: Act,
) -> bool {
    exists|j: int, k: int|
        before.outbox.len() <= j < k < after.outbox.len() && #[trigger] after.outbox[j] == first
            && #[trigger] after.outbox[k] == second
}

/// Two steps that take nothing back are one that does not.
pub proof fn lemma_grows(a: WindowView, b: WindowView, c: WindowView)
    requires
        grows(a, b),
        grows(b, c),
    ensures
        grows(a, c),
{
    assert forall|k: int| 0 <= k < a.outbox.len() implies c.outbox[k] == a.outbox[k] by {
        assert(b.outbox[k] == a.outbox[k]);
    }
}

/// What either of two steps asks for, both together ask for.
pub proof fn lemma_asks(a: WindowView, b: WindowView, c: WindowView, act: Act)
    requires
        grows(a, b),
        grows(b, c),
        asks(a, b, act) || asks(b, c, act),
    ensures
        asks(a, c, act),
{
    if asks(a, b, act) {
        let k = choose|k: int|
            a.outbox.len() <= k < b.outbox.len() && #[trigger] b.outbox[k] == act;
        assert(c.outbox[k] == act);
    } else {
        let k = choose|k: int|
            b.outbox.len() <= k < c.outbox.len() && #[trigger] c.outbox[k] == act;
        assert(c.outbox[k] == act);
    }
}

/// What one step asks for comes before what the next one asks for.
pub proof fn lemma_in_turn(a: WindowView, b: WindowView, c: WindowView, first: Act, second: Act)
    requires
        grows(a, b),
        grows(b, c),
        asks(a, b, first),
        asks(b, c, second),
    ensures
        asks_in_turn(a, c, first, second),
{
    let j = choose|k: int|
        a.outbox.len() <= k < b.outbox.len() && #[trigger] b.outbox[k] == first;
    let k = choose|k: int|
        b.outbox.len() <= k < c.outbox.len() && #[trigger] c.outbox[k] == second;
    assert(c.outbox[j] == first && c.outbox[k] == second);
}

/// Two steps that ask for one sort of thing only are one that does.
pub proof fn lemma_asks_only(
    a: WindowView,
    b: WindowView,
    c: WindowView,
    allowed: spec_fn(Act) -> bool,
)
    requires
        grows(a, b),
        grows(b, c),
        asks_only(a, b, allowed),
        asks_only(b, c, allowed),
    ensures
        asks_only(a, c, allowed),
{
    assert forall|k: int| a.outbox.len() <= k < c.outbox.len() implies allowed(
        #[trigger] c.outbox[k],
    ) by {
        if k < b.outbox.len() {
            assert(c.outbox[k] == b.outbox[k]);
        }
    }
}

} // verus!
