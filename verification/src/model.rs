//! The mathematical model of the registry: a finite map from identity to the
//! number of sessions that hold it. Every contract of the crate is stated
//! over these functions.

use vstd::prelude::*;

verus! {

/// What a registry holds, as contracts see it: for each identity with at
/// least one open session, the number of those sessions.
pub type Refcounts = Map<Seq<char>, nat>;

/// A registry never retains an entry with count 0, and holds finitely many.
pub open spec fn valid(m: Refcounts) -> bool {
    &&& m.dom().finite()
    &&& forall|id: Seq<char>| m.dom().contains(id) ==> #[trigger] m[id] >= 1
}

/// The number of sessions that hold `id`: 0 for an identity without entry.
pub open spec fn refcount(m: Refcounts, id: Seq<char>) -> nat {
    if m.dom().contains(id) {
        m[id]
    } else {
        0
    }
}

/// The presence count: the number of distinct identities held.
pub open spec fn total(m: Refcounts) -> nat {
    m.dom().len()
}

/// The registry after one more session took hold of `id`.
pub open spec fn join(m: Refcounts, id: Seq<char>) -> Refcounts {
    m.insert(id, refcount(m, id) + 1)
}

/// Whether a join of `id` is a first join: the identity was absent, so the
/// presence count grows.
pub open spec fn join_changes(m: Refcounts, id: Seq<char>) -> bool {
    !m.dom().contains(id)
}

/// The registry after one session let go of `id`. Nothing changes for an
/// identity that nobody holds; the entry goes with its last session.
pub open spec fn leave(m: Refcounts, id: Seq<char>) -> Refcounts {
    if !m.dom().contains(id) {
        m
    } else if m[id] <= 1 {
        m.remove(id)
    } else {
        m.insert(id, (m[id] - 1) as nat)
    }
}

/// Whether a leave of `id` releases its last session, so the presence count
/// shrinks.
pub open spec fn leave_changes(m: Refcounts, id: Seq<char>) -> bool {
    m.dom().contains(id) && m[id] <= 1
}

/// A join keeps the registry valid, holds `id` afterwards, and moves the
/// presence count by one exactly when the identity is new.
pub proof fn lemma_join(m: Refcounts, id: Seq<char>)
    requires
        valid(m),
    ensures
        valid(join(m, id)),
        refcount(join(m, id), id) == refcount(m, id) + 1,
        forall|other: Seq<char>|
            other != id ==> refcount(join(m, id), other) == refcount(m, other),
        total(join(m, id)) == total(m) + (if join_changes(m, id) { 1nat } else { 0nat }),
{
    assert(join(m, id).dom() =~= m.dom().insert(id));
}

/// A leave keeps the registry valid, never drives a count below zero, and
/// moves the presence count by one exactly when the last session of the
/// identity goes.
pub proof fn lemma_leave(m: Refcounts, id: Seq<char>)
    requires
        valid(m),
    ensures
        valid(leave(m, id)),
        refcount(leave(m, id), id) == (if refcount(m, id) == 0 {
            0nat
        } else {
            (refcount(m, id) - 1) as nat
        }),
        forall|other: Seq<char>|
            other != id ==> refcount(leave(m, id), other) == refcount(m, other),
        total(leave(m, id)) + (if leave_changes(m, id) { 1nat } else { 0nat }) == total(m),
        leave_changes(m, id) <==> refcount(m, id) == 1,
{
    if !m.dom().contains(id) {
    } else if m[id] <= 1 {
        assert(leave(m, id).dom() =~= m.dom().remove(id));
    } else {
        assert(leave(m, id).dom() =~= m.dom().insert(id));
        assert(m.dom().insert(id) =~= m.dom());
    }
}

} // verus!
