//! The first position of a range at which something holds.

use vstd::prelude::*;

verus! {

/// `at` is the least position below `len` at which `holds` is true.
pub open spec fn is_first(len: int, holds: spec_fn(int) -> bool, at: int) -> bool {
    &&& 0 <= at < len
    &&& holds(at)
    &&& forall|before: int| 0 <= before < at ==> !#[trigger] holds(before)
}

/// The least position below `len` at which `holds` is true, if there is one.
pub open spec fn first_match(len: int, holds: spec_fn(int) -> bool) -> Option<int> {
    if exists|at: int| is_first(len, holds, at) {
        Some(choose|at: int| is_first(len, holds, at))
    } else {
        None
    }
}

/// A position that is first is the one that `first_match` names.
pub proof fn lemma_first_found(len: int, holds: spec_fn(int) -> bool, at: int)
    requires
        is_first(len, holds, at),
    ensures
        first_match(len, holds) == Some(at),
{
    let chosen = choose|p: int| is_first(len, holds, p);
    assert(is_first(len, holds, chosen));
    if chosen < at {
        assert(!holds(chosen));
    } else if at < chosen {
        assert(!holds(at));
    }
}

/// Where nothing holds, `first_match` names nothing.
pub proof fn lemma_first_absent(len: int, holds: spec_fn(int) -> bool)
    requires
        forall|at: int| 0 <= at < len ==> !#[trigger] holds(at),
    ensures
        first_match(len, holds).is_none(),
{
}

/// What `first_match` names holds, lies in range, and nothing before it holds;
/// and where it names nothing, nothing in range holds.
pub proof fn lemma_first_match(len: int, holds: spec_fn(int) -> bool)
    ensures
        match first_match(len, holds) {
            Some(at) => is_first(len, holds, at),
            None => forall|at: int| 0 <= at < len ==> !#[trigger] holds(at),
        },
{
    if first_match(len, holds).is_none() {
        assert forall|at: int| 0 <= at < len implies !#[trigger] holds(at) by {
            if holds(at) {
                lemma_least_exists(len, holds, at);
            }
        }
    }
}

/// If something holds at `at`, some position up to `at` is first.
proof fn lemma_least_exists(len: int, holds: spec_fn(int) -> bool, at: int)
    requires
        0 <= at < len,
        holds(at),
    ensures
        exists|p: int| is_first(len, holds, p),
    decreases at,
{
    if exists|before: int| 0 <= before < at && #[trigger] holds(before) {
        let before = choose|before: int| 0 <= before < at && #[trigger] holds(before);
        lemma_least_exists(len, holds, before);
    } else {
        assert(is_first(len, holds, at));
    }
}

} // verus!
