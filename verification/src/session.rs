//! The state of one live connection.

use vstd::prelude::*;

verus! {

/// Where a session stands in its life.
#[derive(Clone, Copy, Debug, PartialEq, Eq, Structural)]
pub enum State {
    /// Connected, no identity bound yet.
    Unbound,
    /// Holds one reference to its bound identity.
    Bound,
    /// Holds nothing and never will again.
    Terminal,
}

/// One live connection: the identifier that the transport gave it, and the
/// identity it has bound, if any.
///
/// The identity is bound at most once and never changes afterwards. A
/// session holds one reference to its identity from the moment it binds
/// until it ends.
#[derive(Debug)]
pub struct Session {
    id: String,
    bound: Option<String>,
    terminal: bool,
}

/// A session as contracts see it.
pub ghost struct SessionView {
    pub id: Seq<char>,
    pub bound: Option<Seq<char>>,
    pub terminal: bool,
}

impl SessionView {
    /// The state that the fields stand for.
    pub open spec fn state(self) -> State {
        if self.terminal {
            State::Terminal
        } else if self.bound is Some {
            State::Bound
        } else {
            State::Unbound
        }
    }

    /// Whether the session holds a reference to `identity` in the registry.
    pub open spec fn holds(self, identity: Seq<char>) -> bool {
        !self.terminal && self.bound == Some(identity)
    }
}

impl View for Session {
    type V = SessionView;

    closed spec fn view(&self) -> SessionView {
        SessionView {
            id: self.id@,
            bound: match self.bound {
                Some(identity) => Some(identity@),
                None => None,
            },
            terminal: self.terminal,
        }
    }
}

impl Session {
    /// The session of a connection that has just been made: unbound.
    pub fn new(id: String) -> (session: Self)
        ensures
            session@ == (SessionView { id: id@, bound: None, terminal: false }),
    {
        Session { id, bound: None, terminal: false }
    }

    /// The identifier that the transport gave the connection.
    pub fn id(&self) -> (id: &str)
        ensures
            id@ == self@.id,
    {
        self.id.as_str()
    }

    /// The identity that the session has bound, if any. It stays readable
    /// after the session has ended.
    pub fn bound_identity(&self) -> (bound: Option<&str>)
        ensures
            match bound {
                Some(identity) => self@.bound == Some(identity@),
                None => self@.bound is None,
            },
    {
        match &self.bound {
            Some(identity) => Some(identity.as_str()),
            None => None,
        }
    }

    /// Whether `identity` is the one that the session has bound.
    pub fn is_bound_to(&self, identity: &String) -> (yes: bool)
        ensures
            yes == (self@.bound == Some(identity@)),
    {
        match &self.bound {
            Some(bound) => *bound == *identity,
            None => false,
        }
    }

    /// Whether the session holds a reference to `identity`: whether it is
    /// bound to it and has not ended.
    pub fn holds(&self, identity: &String) -> (yes: bool)
        ensures
            yes == self@.holds(identity@),
    {
        !self.terminal && self.is_bound_to(identity)
    }

    /// Where the session stands in its life.
    pub fn state(&self) -> (state: State)
        ensures
            state == self@.state(),
    {
        if self.terminal {
            State::Terminal
        } else if self.bound.is_some() {
            State::Bound
        } else {
            State::Unbound
        }
    }

    /// Binds the identity of an unbound session.
    pub(crate) fn bind(&mut self, identity: String)
        requires
            old(self)@.state() == State::Unbound,
        ensures
            final(self)@ == (SessionView { bound: Some(identity@), ..old(self)@ }),
    {
        self.bound = Some(identity);
    }

    /// Ends the session. Its bound identity stays as it is.
    pub(crate) fn end(&mut self)
        ensures
            final(self)@ == (SessionView { terminal: true, ..old(self)@ }),
    {
        self.terminal = true;
    }
}

} // verus!
