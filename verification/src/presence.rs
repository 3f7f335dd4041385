//! The registry and the sessions, taken together.
//!
//! The registry stores no session, only a count per identity. These laws
//! say that the count is nevertheless the truth about the sessions: as long
//! as every event goes through the router, each identity is counted once
//! for every session that holds it, and the presence count is the number of
//! distinct identities that hold at least one open session.

use crate::model::{refcount, total, valid, Refcounts};
use crate::router::{step, EventView};
use crate::session::SessionView;
use vstd::prelude::*;

verus! {

/// The sessions that the transport knows, by the identifier it gave each.
pub type Sessions = Map<Seq<char>, SessionView>;

/// The sessions that hold a reference to `identity`.
pub open spec fn holders(sessions: Sessions, identity: Seq<char>) -> Set<Seq<char>> {
    Set::new(|sid: Seq<char>| sessions.dom().contains(sid) && sessions[sid].holds(identity))
}

/// The identities that at least one session holds.
pub open spec fn held_identities(sessions: Sessions) -> Set<Seq<char>> {
    Set::new(
        |identity: Seq<char>|
            exists|sid: Seq<char>| #[trigger]
                sessions.dom().contains(sid) && sessions[sid].holds(identity),
    )
}

/// The registry counts, for each identity, exactly the sessions that hold
/// it.
pub open spec fn consistent(m: Refcounts, sessions: Sessions) -> bool {
    &&& valid(m)
    &&& sessions.dom().finite()
    &&& forall|identity: Seq<char>| #[trigger]
        holders(sessions, identity).len() == refcount(m, identity)
}

/// A session as the transport first sees it.
pub open spec fn fresh(sid: Seq<char>) -> SessionView {
    SessionView { id: sid, bound: None, terminal: false }
}

/// The holders of an identity are among the known sessions, so there are
/// finitely many.
proof fn lemma_holders_finite(sessions: Sessions, identity: Seq<char>)
    requires
        sessions.dom().finite(),
    ensures
        holders(sessions, identity).finite(),
{
    vstd::set_lib::lemma_set_subset_finite(sessions.dom(), holders(sessions, identity));
}

/// What replacing one session does to the holders of an identity.
proof fn lemma_holders_after(
    sessions: Sessions,
    sid: Seq<char>,
    after: SessionView,
    identity: Seq<char>,
)
    requires
        sessions.dom().finite(),
    ensures
        holders(sessions.insert(sid, after), identity) == (if after.holds(identity) {
            holders(sessions, identity).insert(sid)
        } else {
            holders(sessions, identity).remove(sid)
        }),
        holders(sessions, identity).finite(),
        holders(sessions, identity).contains(sid) <==> sessions.dom().contains(sid)
            && sessions[sid].holds(identity),
{
    lemma_holders_finite(sessions, identity);
    if after.holds(identity) {
        assert(holders(sessions.insert(sid, after), identity) =~= holders(
            sessions,
            identity,
        ).insert(sid));
    } else {
        assert(holders(sessions.insert(sid, after), identity) =~= holders(
            sessions,
            identity,
        ).remove(sid));
    }
}

/// Nothing is counted before anything has connected.
pub proof fn law_empty_is_consistent()
    ensures
        consistent(Map::empty(), Map::empty()),
{
    let none = Map::<Seq<char>, SessionView>::empty();
    assert forall|identity: Seq<char>| #[trigger] holders(none, identity).len() == 0 by {
        assert(holders(none, identity) =~= Set::<Seq<char>>::empty());
    }
}

/// A connection that has just been made counts for nothing.
pub proof fn law_connect_keeps_consistency(m: Refcounts, sessions: Sessions, sid: Seq<char>)
    requires
        consistent(m, sessions),
        !sessions.dom().contains(sid),
    ensures
        consistent(m, sessions.insert(sid, fresh(sid))),
{
    assert forall|identity: Seq<char>| #[trigger]
        holders(sessions.insert(sid, fresh(sid)), identity).len() == refcount(m, identity) by {
        lemma_holders_after(sessions, sid, fresh(sid), identity);
        assert(holders(sessions, identity).remove(sid) =~= holders(sessions, identity));
        assert(holders(sessions, identity).len() == refcount(m, identity));
    }
}

/// Whatever event the router handles for whichever session, the registry
/// goes on counting exactly the sessions that hold each identity.
pub proof fn law_step_keeps_consistency(
    m: Refcounts,
    sessions: Sessions,
    sid: Seq<char>,
    event: EventView,
)
    requires
        consistent(m, sessions),
        sessions.dom().contains(sid),
    ensures
        consistent(
            step(m, sessions[sid], event).registry,
            sessions.insert(sid, step(m, sessions[sid], event).session),
        ),
{
    let before = sessions[sid];
    let outcome = step(m, before, event);
    let after = outcome.session;
    if after == before {
        assert(outcome.registry == m);
        assert(sessions.insert(sid, after) =~= sessions);
    } else {
        assert forall|identity: Seq<char>| #[trigger]
            holders(sessions.insert(sid, after), identity).len() == refcount(
                outcome.registry,
                identity,
            ) by {
            lemma_holders_after(sessions, sid, after, identity);
            assert(holders(sessions, identity).len() == refcount(m, identity));
            if before.holds(identity) {
                crate::model::lemma_leave(m, identity);
            } else if after.holds(identity) {
                crate::model::lemma_join(m, identity);
            } else {
                assert(holders(sessions, identity).remove(sid) =~= holders(sessions, identity));
                if before.bound is Some {
                    crate::model::lemma_leave(m, before.bound->0);
                } else if after.bound is Some {
                    crate::model::lemma_join(m, after.bound->0);
                }
            }
        }
        if before.bound is Some {
            crate::model::lemma_leave(m, before.bound->0);
        } else if after.bound is Some {
            crate::model::lemma_join(m, after.bound->0);
        }
    }
}

/// A session that has ended can be forgotten.
pub proof fn law_forget_keeps_consistency(m: Refcounts, sessions: Sessions, sid: Seq<char>)
    requires
        consistent(m, sessions),
        sessions.dom().contains(sid),
        sessions[sid].terminal,
    ensures
        consistent(m, sessions.remove(sid)),
{
    assert forall|identity: Seq<char>| #[trigger]
        holders(sessions.remove(sid), identity).len() == refcount(m, identity) by {
        assert(holders(sessions.remove(sid), identity) =~= holders(sessions, identity));
        assert(holders(sessions, identity).len() == refcount(m, identity));
    }
}

/// Where the registry counts the sessions, the identities it holds are
/// those that at least one session holds, and the presence count is their
/// number.
pub proof fn law_count_is_presence(m: Refcounts, sessions: Sessions)
    requires
        consistent(m, sessions),
    ensures
        m.dom() == held_identities(sessions),
        total(m) == held_identities(sessions).len(),
{
    assert forall|identity: Seq<char>| m.dom().contains(identity) <==> held_identities(
        sessions,
    ).contains(identity) by {
        let holding = holders(sessions, identity);
        lemma_holders_finite(sessions, identity);
        assert(holding.len() == refcount(m, identity));
        if m.dom().contains(identity) {
            assert(m[identity] >= 1);
            assert(holding.len() >= 1);
            let sid = holding.choose();
            assert(holding.contains(sid));
            assert(sessions.dom().contains(sid) && sessions[sid].holds(identity));
        }
        if held_identities(sessions).contains(identity) {
            let sid = choose|sid: Seq<char>| #[trigger]
                sessions.dom().contains(sid) && sessions[sid].holds(identity);
            assert(holding.contains(sid));
            assert(holding.len() >= 1) by {
                if holding.len() == 0 {
                    assert(holding =~= Set::<Seq<char>>::empty());
                }
            }
        }
    }
    assert(m.dom() =~= held_identities(sessions));
}

} // verus!
