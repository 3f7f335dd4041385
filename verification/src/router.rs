//! The event router: what each inbound event of a session does to the
//! registry, and to whom the count is pushed afterwards.
//!
//! The router only decides. It returns the push to make; the transport makes
//! it once the router has been released, so that no caller waits for
//! another caller's network write.

use crate::history::{replay, Call};
use crate::model::{join, join_changes, leave, leave_changes, refcount, total, valid, Refcounts};
use crate::registry::UserCounter;
use crate::session::{Session, SessionView, State};
use vstd::prelude::*;

verus! {

/// An inbound event of one session.
#[derive(Clone, Debug)]
pub enum Event {
    /// The client reports its identity and asks to be counted.
    Join { identity: String },
    /// The client asks that its identity be released before it disconnects.
    Leave { identity: String },
    /// The transport reports that the connection is gone.
    Disconnect,
}

/// An event as contracts see it.
pub ghost enum EventView {
    Join { identity: Seq<char> },
    Leave { identity: Seq<char> },
    Disconnect,
}

impl View for Event {
    type V = EventView;

    open spec fn view(&self) -> EventView {
        match self {
            Event::Join { identity } => EventView::Join { identity: identity@ },
            Event::Leave { identity } => EventView::Leave { identity: identity@ },
            Event::Disconnect => EventView::Disconnect,
        }
    }
}

/// What the transport is to do after an event, from the point of view of
/// the session that the event came from.
#[derive(Clone, Copy, Debug, PartialEq, Eq, Structural)]
pub enum Action {
    /// Send nothing.
    Silent,
    /// Tell the session that its request was refused. Send nothing else.
    Reject,
    /// Send the count to the session alone.
    Emit { count: usize },
    /// Send the count to every session but this one.
    BroadcastExceptSelf { count: usize },
    /// Send the count to every session, this one included.
    BroadcastAll { count: usize },
}

/// An action as contracts see it.
pub ghost enum Push {
    Silent,
    Reject,
    Emit { count: nat },
    BroadcastExceptSelf { count: nat },
    BroadcastAll { count: nat },
}

impl View for Action {
    type V = Push;

    open spec fn view(&self) -> Push {
        match self {
            Action::Silent => Push::Silent,
            Action::Reject => Push::Reject,
            Action::Emit { count } => Push::Emit { count: *count as nat },
            Action::BroadcastExceptSelf { count } => Push::BroadcastExceptSelf {
                count: *count as nat,
            },
            Action::BroadcastAll { count } => Push::BroadcastAll { count: *count as nat },
        }
    }
}

/// The outcome of one event: the registry and the session after it, and the
/// push that follows.
pub ghost struct Step {
    pub registry: Refcounts,
    pub session: SessionView,
    pub push: Push,
}

/// A join of `identity` on a session.
///
/// An unbound session binds the identity and takes a reference to it. The
/// count goes to every session if the identity is new, else to the session
/// alone. A session that is bound already keeps its identity, whatever the
/// request names: it is told the current count and the registry stays as it
/// is. An ended session is left alone.
pub open spec fn on_join(m: Refcounts, s: SessionView, identity: Seq<char>) -> Step {
    match s.state() {
        State::Unbound => Step {
            registry: join(m, identity),
            session: SessionView { bound: Some(identity), ..s },
            push: if join_changes(m, identity) {
                Push::BroadcastAll { count: total(join(m, identity)) }
            } else {
                Push::Emit { count: total(join(m, identity)) }
            },
        },
        State::Bound => Step { registry: m, session: s, push: Push::Emit { count: total(m) } },
        State::Terminal => Step { registry: m, session: s, push: Push::Silent },
    }
}

/// A request of a session to release `identity`.
///
/// Only the identity that the session itself has bound can be released: any
/// other request is refused and changes nothing. A session that releases
/// its identity ends, so that its disconnect releases nothing a second
/// time; the count goes to every session if the identity is gone, else to
/// the session alone. A session that has ended already has nothing left to
/// release: the request is a no-op.
pub open spec fn on_leave(m: Refcounts, s: SessionView, identity: Seq<char>) -> Step {
    if s.bound != Some(identity) {
        Step { registry: m, session: s, push: Push::Reject }
    } else if s.terminal {
        Step { registry: m, session: s, push: Push::Silent }
    } else {
        Step {
            registry: leave(m, identity),
            session: SessionView { terminal: true, ..s },
            push: if leave_changes(m, identity) {
                Push::BroadcastAll { count: total(leave(m, identity)) }
            } else {
                Push::Emit { count: total(leave(m, identity)) }
            },
        }
    }
}

/// The disconnect of a session.
///
/// The session ends. A bound session releases its reference, and the count
/// goes to the remaining sessions if the identity is gone. A session that
/// never joined never counted: the registry stays as it is.
pub open spec fn on_disconnect(m: Refcounts, s: SessionView) -> Step {
    match s.state() {
        State::Unbound => Step {
            registry: m,
            session: SessionView { terminal: true, ..s },
            push: Push::Silent,
        },
        State::Bound => Step {
            registry: leave(m, s.bound->0),
            session: SessionView { terminal: true, ..s },
            push: if leave_changes(m, s.bound->0) {
                Push::BroadcastExceptSelf { count: total(leave(m, s.bound->0)) }
            } else {
                Push::Silent
            },
        },
        State::Terminal => Step { registry: m, session: s, push: Push::Silent },
    }
}

/// The outcome of any event on any session.
pub open spec fn step(m: Refcounts, s: SessionView, event: EventView) -> Step {
    match event {
        EventView::Join { identity } => on_join(m, s, identity),
        EventView::Leave { identity } => on_leave(m, s, identity),
        EventView::Disconnect => on_disconnect(m, s),
    }
}

/// Whether the registry can count the event: a join that takes a new
/// reference needs room for it in the identity's counter.
pub open spec fn countable(m: Refcounts, s: SessionView, event: EventView) -> bool {
    event matches EventView::Join { identity } ==> s.state() == State::Unbound ==> refcount(
        m,
        identity,
    ) < usize::MAX
}

/// The calls on the registry that an event of a session makes: one at
/// most.
pub open spec fn calls_of(s: SessionView, event: EventView) -> Seq<Call> {
    match event {
        EventView::Join { identity } => if s.state() == State::Unbound {
            seq![Call::Join(identity)]
        } else {
            seq![]
        },
        EventView::Leave { identity } => if s.holds(identity) {
            seq![Call::Leave(identity)]
        } else {
            seq![]
        },
        EventView::Disconnect => if s.state() == State::Bound {
            seq![Call::Leave(s.bound->0)]
        } else {
            seq![]
        },
    }
}

/// The router reaches the registry through joins and leaves alone, so what
/// holds of every sequence of such calls holds of every registry that a
/// router has driven.
pub proof fn law_step_is_calls(m: Refcounts, s: SessionView, event: EventView)
    ensures
        step(m, s, event).registry == replay(m, calls_of(s, event)),
        calls_of(s, event).len() <= 1,
{
    let calls = calls_of(s, event);
    if calls.len() == 1 {
        assert(calls.drop_last() =~= Seq::<Call>::empty());
        assert(replay(m, calls.drop_last()) == m);
    }
}

impl Push {
    /// The count that the push carries, if it carries one.
    pub open spec fn count(self) -> Option<nat> {
        match self {
            Push::Silent | Push::Reject => None,
            Push::Emit { count } => Some(count),
            Push::BroadcastExceptSelf { count } => Some(count),
            Push::BroadcastAll { count } => Some(count),
        }
    }

    /// Whether the push reaches sessions other than the one the event came
    /// from.
    pub open spec fn reaches_others(self) -> bool {
        self is BroadcastExceptSelf || self is BroadcastAll
    }
}

/// No event breaks the registry, and a count that is pushed is the presence
/// count after the event.
pub proof fn law_step_keeps_valid(m: Refcounts, s: SessionView, event: EventView)
    requires
        valid(m),
    ensures
        valid(step(m, s, event).registry),
        step(m, s, event).push.count() matches Some(count) ==> count == total(
            step(m, s, event).registry,
        ),
{
    match event {
        EventView::Join { identity } => crate::model::lemma_join(m, identity),
        EventView::Leave { identity } => crate::model::lemma_leave(m, identity),
        EventView::Disconnect => if s.bound is Some {
            crate::model::lemma_leave(m, s.bound->0);
        },
    }
}

/// Other sessions are told the count exactly when it changed.
pub proof fn law_others_hear_of_changes_only(m: Refcounts, s: SessionView, event: EventView)
    requires
        valid(m),
    ensures
        step(m, s, event).push.reaches_others() <==> total(step(m, s, event).registry) != total(m),
{
    match event {
        EventView::Join { identity } => crate::model::lemma_join(m, identity),
        EventView::Leave { identity } => crate::model::lemma_leave(m, identity),
        EventView::Disconnect => if s.bound is Some {
            crate::model::lemma_leave(m, s.bound->0);
        },
    }
}

/// The identifier of a session never changes, and its identity is bound at
/// most once: once bound, no event changes it.
pub proof fn law_bound_identity_is_immutable(m: Refcounts, s: SessionView, event: EventView)
    ensures
        step(m, s, event).session.id == s.id,
        s.bound is Some ==> step(m, s, event).session.bound == s.bound,
{
}

/// A session that has ended stays ended, and no event of it touches the
/// registry or reaches another session.
pub proof fn law_ended_session_is_inert(m: Refcounts, s: SessionView, event: EventView)
    requires
        s.terminal,
    ensures
        step(m, s, event).session == s,
        step(m, s, event).registry == m,
        step(m, s, event).push is Silent || step(m, s, event).push is Reject,
{
}

/// A session can release no reference but its own: whatever the event, an
/// identity that the session does not hold keeps all its sessions, and the
/// identity that it holds loses one at most.
pub proof fn law_only_own_reference_is_released(
    m: Refcounts,
    s: SessionView,
    event: EventView,
    identity: Seq<char>,
)
    requires
        valid(m),
    ensures
        !s.holds(identity) ==> refcount(step(m, s, event).registry, identity) >= refcount(
            m,
            identity,
        ),
        s.holds(identity) ==> refcount(step(m, s, event).registry, identity) + 1 >= refcount(
            m,
            identity,
        ),
{
    match event {
        EventView::Join { identity: joined } => crate::model::lemma_join(m, joined),
        EventView::Leave { identity: left } => crate::model::lemma_leave(m, left),
        EventView::Disconnect => if s.bound is Some {
            crate::model::lemma_leave(m, s.bound->0);
        },
    }
}

/// A request to release an identity that the session has not bound is
/// refused: nothing changes and nobody else is told.
pub proof fn law_foreign_leave_is_rejected(m: Refcounts, s: SessionView, identity: Seq<char>)
    requires
        s.bound != Some(identity),
    ensures
        step(m, s, (EventView::Leave { identity })) == (Step {
            registry: m,
            session: s,
            push: Push::Reject,
        }),
{
}

/// Dispatches the events of all sessions to the one registry it was made
/// with.
pub struct EventRouter {
    registry: UserCounter,
}

impl View for EventRouter {
    type V = Refcounts;

    /// What the registry holds.
    closed spec fn view(&self) -> Refcounts {
        self.registry@
    }
}

impl EventRouter {
    /// A router over the given registry.
    pub fn new(registry: UserCounter) -> (router: Self)
        ensures
            router@ == registry@,
            valid(router@),
    {
        proof {
            use_type_invariant(&registry);
            registry.lemma_view_valid();
        }
        EventRouter { registry }
    }

    /// The registry, to read.
    pub fn registry(&self) -> (registry: &UserCounter)
        ensures
            registry@ == self@,
    {
        &self.registry
    }

    /// Whether the registry can count `event` on `session`: the test of what
    /// `dispatch` asks of its caller.
    pub fn can_count(&self, session: &Session, event: &Event) -> (can: bool)
        ensures
            can == countable(self@, session@, event@),
    {
        match event {
            Event::Join { identity } => session.state() != State::Unbound || self.registry.refcount(
                identity.as_str(),
            ) < usize::MAX,
            _ => true,
        }
    }

    /// Handles a join of `identity` on `session`.
    pub fn on_join(&mut self, session: &mut Session, identity: String) -> (action: Action)
        requires
            countable(old(self)@, old(session)@, (EventView::Join { identity: identity@ })),
        ensures
            (Step { registry: final(self)@, session: final(session)@, push: action@ }) == on_join(
                old(self)@,
                old(session)@,
                identity@,
            ),
            valid(final(self)@),
    {
        proof {
            use_type_invariant(&self.registry);
            self.registry.lemma_view_valid();
        }
        match session.state() {
            State::Unbound => {
                session.bind(identity.clone());
                let (count, changed) = self.registry.increment(identity);
                if changed {
                    Action::BroadcastAll { count }
                } else {
                    Action::Emit { count }
                }
            },
            State::Bound => Action::Emit { count: self.registry.get_count() },
            State::Terminal => Action::Silent,
        }
    }

    /// Handles a request of `session` to release `identity`.
    pub fn on_leave(&mut self, session: &mut Session, identity: String) -> (action: Action)
        ensures
            (Step { registry: final(self)@, session: final(session)@, push: action@ }) == on_leave(
                old(self)@,
                old(session)@,
                identity@,
            ),
            valid(final(self)@),
    {
        proof {
            use_type_invariant(&self.registry);
            self.registry.lemma_view_valid();
        }
        if !session.is_bound_to(&identity) {
            Action::Reject
        } else if session.state() == State::Terminal {
            Action::Silent
        } else {
            session.end();
            let (count, changed) = self.registry.decrement(identity);
            if changed {
                Action::BroadcastAll { count }
            } else {
                Action::Emit { count }
            }
        }
    }

    /// Handles the disconnect of `session`.
    pub fn on_disconnect(&mut self, session: &mut Session) -> (action: Action)
        ensures
            (Step { registry: final(self)@, session: final(session)@, push: action@ })
                == on_disconnect(old(self)@, old(session)@),
            valid(final(self)@),
    {
        proof {
            use_type_invariant(&self.registry);
            self.registry.lemma_view_valid();
        }
        let held: Option<String> = match session.bound_identity() {
            Some(identity) if session.state() == State::Bound => Some(identity.to_owned()),
            _ => None,
        };
        session.end();
        match held {
            Some(identity) => {
                let (count, changed) = self.registry.decrement(identity);
                if changed {
                    Action::BroadcastExceptSelf { count }
                } else {
                    Action::Silent
                }
            },
            None => Action::Silent,
        }
    }

    /// Handles any event of `session`.
    pub fn dispatch(&mut self, session: &mut Session, event: Event) -> (action: Action)
        requires
            countable(old(self)@, old(session)@, event@),
        ensures
            (Step { registry: final(self)@, session: final(session)@, push: action@ }) == step(
                old(self)@,
                old(session)@,
                event@,
            ),
            valid(final(self)@),
    {
        match event {
            Event::Join { identity } => self.on_join(session, identity),
            Event::Leave { identity } => self.on_leave(session, identity),
            Event::Disconnect => self.on_disconnect(session),
        }
    }
}

} // verus!
