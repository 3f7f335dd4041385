//! Laws of the registry over whole histories of calls.
//!
//! A registry is only ever reached through `join` and `leave`, one call at a
//! time. The laws here speak of every sequence of such calls, in every
//! order: callers that race for the registry are served in some order, and
//! what holds of all orders holds of theirs.

use crate::model::{join, join_changes, leave, leave_changes, refcount, total, valid, Refcounts};
use vstd::prelude::*;

verus! {

/// One call on the registry.
pub ghost enum Call {
    Join(Seq<char>),
    Leave(Seq<char>),
}

/// The registry after one call.
pub open spec fn apply(m: Refcounts, call: Call) -> Refcounts {
    match call {
        Call::Join(id) => join(m, id),
        Call::Leave(id) => leave(m, id),
    }
}

/// Whether one call moves the presence count.
pub open spec fn changes(m: Refcounts, call: Call) -> bool {
    match call {
        Call::Join(id) => join_changes(m, id),
        Call::Leave(id) => leave_changes(m, id),
    }
}

/// The registry after a sequence of calls, first call first, from `m`.
pub open spec fn replay(m: Refcounts, calls: Seq<Call>) -> Refcounts
    decreases calls.len(),
{
    if calls.len() == 0 {
        m
    } else {
        apply(replay(m, calls.drop_last()), calls.last())
    }
}

/// The sessions that hold `id` after a sequence of calls on an empty
/// registry, counted from the calls alone: one more for each join of `id`,
/// one less for each leave of `id` that finds a session to release.
pub open spec fn net(calls: Seq<Call>, id: Seq<char>) -> nat
    decreases calls.len(),
{
    if calls.len() == 0 {
        0
    } else {
        let before = net(calls.drop_last(), id);
        match calls.last() {
            Call::Join(joined) => if joined == id {
                before + 1
            } else {
                before
            },
            Call::Leave(left) => if left == id && before > 0 {
                (before - 1) as nat
            } else {
                before
            },
        }
    }
}

/// The identities that hold at least one session after a sequence of calls
/// on an empty registry.
pub open spec fn present(calls: Seq<Call>) -> Set<Seq<char>> {
    Set::new(|id: Seq<char>| net(calls, id) > 0)
}

/// How many calls of a sequence, made from `m`, were first joins of `id`:
/// joins that found the identity absent.
pub open spec fn first_joins(m: Refcounts, calls: Seq<Call>, id: Seq<char>) -> nat
    decreases calls.len(),
{
    if calls.len() == 0 {
        0
    } else {
        let earlier = first_joins(m, calls.drop_last(), id);
        if calls.last() == Call::Join(id) && changes(replay(m, calls.drop_last()), calls.last()) {
            earlier + 1
        } else {
            earlier
        }
    }
}

/// Every sequence of calls keeps a valid registry valid.
pub proof fn lemma_replay_valid(m: Refcounts, calls: Seq<Call>)
    requires
        valid(m),
    ensures
        valid(replay(m, calls)),
    decreases calls.len(),
{
    if calls.len() > 0 {
        lemma_replay_valid(m, calls.drop_last());
        match calls.last() {
            Call::Join(id) => crate::model::lemma_join(replay(m, calls.drop_last()), id),
            Call::Leave(id) => crate::model::lemma_leave(replay(m, calls.drop_last()), id),
        }
    }
}

/// After any sequence of joins and leaves on an empty registry, each
/// identity is held by as many sessions as its joins and effective leaves
/// leave it, the presence count is the number of identities with at least
/// one session, and that number is finite.
pub proof fn law_total_counts_present(calls: Seq<Call>)
    ensures
        valid(replay(Map::empty(), calls)),
        forall|id: Seq<char>| refcount(replay(Map::empty(), calls), id) == net(calls, id),
        replay(Map::empty(), calls).dom() == present(calls),
        present(calls).finite(),
        total(replay(Map::empty(), calls)) == present(calls).len(),
    decreases calls.len(),
{
    let empty = Map::<Seq<char>, nat>::empty();
    lemma_replay_valid(empty, calls);
    if calls.len() > 0 {
        let before = replay(empty, calls.drop_last());
        law_total_counts_present(calls.drop_last());
        match calls.last() {
            Call::Join(id) => crate::model::lemma_join(before, id),
            Call::Leave(id) => crate::model::lemma_leave(before, id),
        }
    }
    assert forall|id: Seq<char>| refcount(replay(empty, calls), id) == net(calls, id) by {
        if calls.len() > 0 {
            assert(refcount(replay(empty, calls.drop_last()), id) == net(calls.drop_last(), id));
        }
    }
    assert(replay(empty, calls).dom() =~= present(calls)) by {
        assert forall|id: Seq<char>| replay(empty, calls).dom().contains(id) <==> present(
            calls,
        ).contains(id) by {
            assert(refcount(replay(empty, calls), id) == net(calls, id));
        }
    }
}

/// How many calls of a sequence are joins of `id`.
pub open spec fn joins(calls: Seq<Call>, id: Seq<char>) -> nat
    decreases calls.len(),
{
    if calls.len() == 0 {
        0
    } else if calls.last() == Call::Join(id) {
        joins(calls.drop_last(), id) + 1
    } else {
        joins(calls.drop_last(), id)
    }
}

/// How many calls of a sequence are leaves of `id`, effective or not.
pub open spec fn leaves(calls: Seq<Call>, id: Seq<char>) -> nat
    decreases calls.len(),
{
    if calls.len() == 0 {
        0
    } else if calls.last() == Call::Leave(id) {
        leaves(calls.drop_last(), id) + 1
    } else {
        leaves(calls.drop_last(), id)
    }
}

/// No leave of `id` comes without a session to release: at every point of
/// the sequence the identity has joined at least as often as it has left.
pub open spec fn paired(calls: Seq<Call>, id: Seq<char>) -> bool {
    forall|k: int|
        0 <= k <= calls.len() ==> leaves(#[trigger] calls.take(k), id) <= joins(
            calls.take(k),
            id,
        )
}

/// Where no leave of an identity comes without a session to release, the
/// sessions that hold it are its joins minus its leaves.
pub proof fn law_net_is_joins_minus_leaves(calls: Seq<Call>, id: Seq<char>)
    requires
        paired(calls, id),
    ensures
        net(calls, id) == joins(calls, id) - leaves(calls, id),
    decreases calls.len(),
{
    assert(calls.take(calls.len() as int) =~= calls);
    if calls.len() > 0 {
        let earlier = calls.drop_last();
        assert forall|k: int| 0 <= k <= earlier.len() implies leaves(#[trigger] earlier.take(k), id)
            <= joins(earlier.take(k), id) by {
            assert(earlier.take(k) =~= calls.take(k));
        }
        assert(earlier.take(earlier.len() as int) =~= earlier);
        law_net_is_joins_minus_leaves(earlier, id);
    }
}

/// Every call of the sequence is a join of `id`.
pub open spec fn only_joins(calls: Seq<Call>, id: Seq<char>) -> bool {
    forall|i: int| 0 <= i < calls.len() ==> #[trigger] calls[i] == Call::Join(id)
}

/// What any number of joins of one identity does to a registry: the
/// identity gains one session per join, nobody else is touched, and the
/// presence count moves once, at the first join, if the identity was new.
proof fn lemma_only_joins(m: Refcounts, calls: Seq<Call>, id: Seq<char>)
    requires
        valid(m),
        only_joins(calls, id),
    ensures
        valid(replay(m, calls)),
        refcount(replay(m, calls), id) == refcount(m, id) + calls.len(),
        replay(m, calls).remove(id) == m.remove(id),
        first_joins(m, calls, id) == (if calls.len() > 0 && !m.dom().contains(id) {
            1nat
        } else {
            0nat
        }),
        total(replay(m, calls)) == total(m) + first_joins(m, calls, id),
    decreases calls.len(),
{
    if calls.len() > 0 {
        let earlier = calls.drop_last();
        assert(only_joins(earlier, id)) by {
            assert forall|i: int| 0 <= i < earlier.len() implies #[trigger] earlier[i]
                == Call::Join(id) by {
                assert(earlier[i] == calls[i]);
            }
        }
        assert(calls.last() == Call::Join(id)) by {
            assert(calls[calls.len() - 1] == Call::Join(id));
        }
        lemma_only_joins(m, earlier, id);
        crate::model::lemma_join(replay(m, earlier), id);
        assert(replay(m, calls).remove(id) =~= replay(m, earlier).remove(id));
    } else {
        assert(replay(m, calls).remove(id) =~= m.remove(id));
    }
}

/// However many sessions of one identity join with no leave between them,
/// the identity counts once: the presence count is that of the others, plus
/// one.
pub proof fn law_repeated_joins_count_once(m: Refcounts, calls: Seq<Call>, id: Seq<char>)
    requires
        valid(m),
        calls.len() >= 1,
        only_joins(calls, id),
    ensures
        replay(m, calls).dom().contains(id),
        refcount(replay(m, calls), id) == refcount(m, id) + calls.len(),
        replay(m, calls).remove(id) == m.remove(id),
        total(replay(m, calls)) == total(m.remove(id)) + 1,
{
    lemma_only_joins(m, calls, id);
    if m.dom().contains(id) {
        assert(m.remove(id).dom() =~= m.dom().remove(id));
    } else {
        assert(m.remove(id) =~= m);
    }
}

/// Callers that race to join one new identity are served in some order. In
/// every order exactly one of their joins is a first join, and the presence
/// count grows by one, not by the number of callers.
pub proof fn law_racing_joins_one_first(m: Refcounts, calls: Seq<Call>, id: Seq<char>)
    requires
        valid(m),
        !m.dom().contains(id),
        calls.len() >= 1,
        only_joins(calls, id),
    ensures
        first_joins(m, calls, id) == 1,
        total(replay(m, calls)) == total(m) + 1,
{
    lemma_only_joins(m, calls, id);
}

/// The same holds while other callers join and leave other identities in
/// between: of any calls that never release `id`, made on a registry that
/// does not hold it, exactly one is a first join of `id` if `id` joins at
/// all, and every join of `id` is counted in its sessions.
pub proof fn law_one_first_join_among_others(m: Refcounts, calls: Seq<Call>, id: Seq<char>)
    requires
        valid(m),
        !m.dom().contains(id),
        leaves(calls, id) == 0,
    ensures
        first_joins(m, calls, id) == (if joins(calls, id) > 0 {
            1nat
        } else {
            0nat
        }),
        refcount(replay(m, calls), id) == joins(calls, id),
    decreases calls.len(),
{
    if calls.len() > 0 {
        let earlier = calls.drop_last();
        let before = replay(m, earlier);
        law_one_first_join_among_others(m, earlier, id);
        lemma_replay_valid(m, earlier);
        match calls.last() {
            Call::Join(joined) => crate::model::lemma_join(before, joined),
            Call::Leave(left) => crate::model::lemma_leave(before, left),
        }
    }
}

} // verus!
