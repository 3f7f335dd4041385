//! The presence registry: the authoritative count of sessions per identity.

use crate::model::{join, join_changes, leave, leave_changes, refcount, total, valid, Refcounts};
use vstd::hash_map::StringHashMap;
use vstd::prelude::*;

verus! {

/// Counts the sessions that hold each identity, and with them the distinct
/// identities present.
///
/// Every mutation takes the registry by exclusive reference: the check for
/// an entry and the update that follows cannot be parted by another caller.
/// Callers that share one registry serialise their calls around it.
pub struct UserCounter {
    ips: StringHashMap<usize>,
}

impl View for UserCounter {
    type V = Refcounts;

    closed spec fn view(&self) -> Refcounts {
        Map::new(|id: Seq<char>| self.ips@.dom().contains(id), |id: Seq<char>| self.ips@[id] as nat)
    }
}

impl UserCounter {
    /// The invariant that every registry keeps: finitely many entries, none
    /// with count 0.
    #[verifier::type_invariant]
    pub closed spec fn wf(&self) -> bool {
        &&& self.ips@.dom().finite()
        &&& forall|id: Seq<char>| self.ips@.dom().contains(id) ==> #[trigger] self.ips@[id] >= 1
    }

    /// What the invariant says of the view.
    pub proof fn lemma_view_valid(&self)
        requires
            self.wf(),
        ensures
            valid(self@),
    {
        assert(self@.dom() =~= self.ips@.dom());
        assert forall|id: Seq<char>| self@.dom().contains(id) implies #[trigger] self@[id] >= 1 by {
            assert(self.ips@[id] >= 1);
        }
    }

    /// An empty registry: nobody is present.
    pub fn new() -> (counter: Self)
        ensures
            counter@ == Map::<Seq<char>, nat>::empty(),
            valid(counter@),
    {
        let counter = UserCounter { ips: StringHashMap::new() };
        assert(counter@ =~= Map::<Seq<char>, nat>::empty());
        counter
    }

    /// A join: records that one more session holds `ip`.
    ///
    /// Returns the presence count after the call, and whether it changed. A
    /// first join, of an identity that nobody held, adds one to the count; a
    /// duplicate join, of an identity that is held already, leaves the count
    /// as it is.
    ///
    /// The identity's counter must have room for one more session.
    pub fn increment(&mut self, ip: String) -> (update: (usize, bool))
        requires
            refcount(old(self)@, ip@) < usize::MAX,
        ensures
            final(self)@ == join(old(self)@, ip@),
            update.0 == total(final(self)@),
            update.1 == join_changes(old(self)@, ip@),
            update.0 == total(old(self)@) + (if update.1 {
                1nat
            } else {
                0nat
            }),
            valid(final(self)@),
    {
        proof {
            use_type_invariant(&*self);
            self.lemma_view_valid();
            crate::model::lemma_join(self@, ip@);
        }
        let held: usize = self.refcount(ip.as_str());
        let mut ips = StringHashMap::new();
        std::mem::swap(&mut ips, &mut self.ips);
        ips.insert(ip, held + 1);
        self.ips = ips;
        assert(self@ =~= join(old(self)@, ip@));
        assert(self@.dom() =~= self.ips@.dom());
        (self.ips.len(), held == 0)
    }

    /// A leave: records that one session let go of `ip`.
    ///
    /// Returns the presence count after the call, and whether it changed.
    /// The leave of an identity's last session removes its entry and takes
    /// one from the count; while other sessions hold the identity the count
    /// stays. For an identity that nobody holds the call is a no-op: it
    /// changes nothing, however often it is made.
    pub fn decrement(&mut self, ip: String) -> (update: (usize, bool))
        ensures
            final(self)@ == leave(old(self)@, ip@),
            update.0 == total(final(self)@),
            update.1 == leave_changes(old(self)@, ip@),
            update.0 + (if update.1 {
                1nat
            } else {
                0nat
            }) == total(old(self)@),
            refcount(old(self)@, ip@) == 0 ==> {
                &&& final(self)@ == old(self)@
                &&& update.0 == total(old(self)@)
                &&& !update.1
            },
            valid(final(self)@),
    {
        proof {
            use_type_invariant(&*self);
            self.lemma_view_valid();
            crate::model::lemma_leave(self@, ip@);
        }
        let before: usize = self.get_count();
        let held: usize = self.refcount(ip.as_str());
        if held == 0 {
            return (before, false);
        }
        let mut ips = StringHashMap::new();
        std::mem::swap(&mut ips, &mut self.ips);
        if held == 1 {
            ips.remove(ip.as_str());
        } else {
            ips.insert(ip, held - 1);
        }
        self.ips = ips;
        assert(self@ =~= leave(old(self)@, ip@));
        assert(self@.dom() =~= self.ips@.dom());
        (self.ips.len(), held == 1)
    }

    /// The number of sessions that hold `ip`: 0 for an identity that nobody
    /// holds.
    pub fn refcount(&self, ip: &str) -> (held: usize)
        ensures
            held == refcount(self@, ip@),
            valid(self@),
    {
        proof {
            use_type_invariant(self);
            self.lemma_view_valid();
        }
        match self.ips.get(ip) {
            Some(count) => *count,
            None => 0,
        }
    }

    /// The presence count: the number of distinct identities held.
    pub fn get_count(&self) -> (count: usize)
        ensures
            count == total(self@),
            valid(self@),
    {
        proof {
            use_type_invariant(self);
            self.lemma_view_valid();
        }
        assert(self@.dom() =~= self.ips@.dom());
        self.ips.len()
    }
}

} // verus!
