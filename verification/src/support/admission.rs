//! Connection admission: a fixed table of session slots under a ceiling on
//! the number of live sessions, with one cancellation signal per session.

use crate::support::slots::{
    cancel_channel, fire, slab_capacity, slab_get, slab_new, slab_push_front, slab_remove,
    slab_slots, MAX_SLOTS,
};
use slabigator::Slab;
use tokio::sync::oneshot::{Receiver, Sender};
use vstd::prelude::*;

verus! {

/// Names an admitted session: its slot, and the number that tells it from
/// earlier sessions in the same slot.
#[derive(Debug, Copy, Clone, PartialEq, Eq, Structural)]
pub struct SlotHandle {
    pub slot: u32,
    pub session: u64,
}

/// The sessions admitted and not yet released, under a ceiling.
pub struct ConnectionTable {
    slots: Slab<u64>,
    signals: Vec<Option<Sender<()>>>,
    active: u32,
    max_active: u32,
    next_session: u64,
}

impl ConnectionTable {
    /// The occupied slots, each with the number of the session in it.
    pub closed spec fn occupied(&self) -> Map<u32, u64> {
        slab_slots(self.slots)
    }

    /// The live-connection counter.
    pub closed spec fn active(&self) -> nat {
        self.active as nat
    }

    /// The ceiling on live connections.
    pub closed spec fn max_active(&self) -> nat {
        self.max_active as nat
    }

    /// Whether the session in `slot` can still be sent its cancellation
    /// signal.
    pub closed spec fn armed(&self, slot: u32) -> bool {
        slot < self.signals@.len() && self.signals@[slot as int] is Some
    }

    /// The number that the next admitted session gets.
    pub closed spec fn next_session(&self) -> u64 {
        self.next_session
    }

    /// Whether `handle` names a session that is admitted and not released.
    pub open spec fn is_live(&self, handle: SlotHandle) -> bool {
        self.occupied().contains_key(handle.slot) && self.occupied()[handle.slot] == handle.session
    }

    /// The counter counts the occupied slots and is within the ceiling;
    /// only occupied slots are armed; session numbers in the table are
    /// below the next to be given.
    pub closed spec fn inv(&self) -> bool {
        &&& self.occupied().dom().finite()
        &&& self.occupied().dom().len() == self.active
        &&& self.active <= self.max_active
        &&& self.max_active <= slab_capacity(self.slots)
        &&& self.signals@.len() == slab_capacity(self.slots)
        &&& forall|slot: u32| #[trigger]
            self.occupied().contains_key(slot) ==> slot < slab_capacity(self.slots)
        &&& forall|slot: u32| self.armed(slot) ==> #[trigger] self.occupied().contains_key(slot)
        &&& forall|slot: u32| #[trigger]
            self.occupied().contains_key(slot) ==> self.occupied()[slot] < self.next_session
    }

    /// What admitting a session makes of a table: under the ceiling the
    /// session `handle` enters a slot that was free, with a session number
    /// never given before, and is counted; at the ceiling there is no
    /// handle and the table stays as it is.
    pub open spec fn admits(self, after: Self, handle: Option<SlotHandle>) -> bool {
        &&& after.max_active() == self.max_active()
        &&& handle.is_some() == (self.active() < self.max_active() && self.next_session()
            < u64::MAX)
        &&& match handle {
            Some(h) => {
                &&& h.session == self.next_session()
                &&& !self.occupied().contains_key(h.slot)
                &&& after.occupied() == self.occupied().insert(h.slot, h.session)
                &&& after.active() == self.active() + 1
                &&& after.next_session() == self.next_session() + 1
                &&& after.armed(h.slot)
                &&& forall|slot: u32| slot != h.slot ==> after.armed(slot) == self.armed(slot)
            },
            None => {
                &&& after.occupied() == self.occupied()
                &&& after.active() == self.active()
                &&& after.next_session() == self.next_session()
                &&& forall|slot: u32| after.armed(slot) == self.armed(slot)
            },
        }
    }

    /// What releasing `handle` makes of a table: a live session leaves its
    /// slot, loses its signal and is counted off; any other handle leaves
    /// the table as it is.
    pub open spec fn releases(self, after: Self, handle: SlotHandle) -> bool {
        &&& after.max_active() == self.max_active()
        &&& after.next_session() == self.next_session()
        &&& if self.is_live(handle) {
            &&& after.occupied() == self.occupied().remove(handle.slot)
            &&& after.active() == self.active() - 1
            &&& !after.armed(handle.slot)
            &&& forall|slot: u32|
                slot != handle.slot ==> after.armed(slot) == self.armed(slot)
        } else {
            &&& after.occupied() == self.occupied()
            &&& after.active() == self.active()
            &&& forall|slot: u32| after.armed(slot) == self.armed(slot)
        }
    }

    /// A table at its ceiling admits nobody, and admits again once a live
    /// session has been released.
    pub proof fn lemma_admission_ceiling(
        full: Self,
        refused: Self,
        handle: Option<SlotHandle>,
        live: SlotHandle,
        released: Self,
        readmitted: Self,
        again: Option<SlotHandle>,
    )
        requires
            full.inv(),
            full.active() == full.max_active(),
            full.admits(refused, handle),
            refused.is_live(live),
            refused.releases(released, live),
            released.admits(readmitted, again),
            released.next_session() < u64::MAX,
        ensures
            handle is None,
            refused.active() == full.max_active(),
            again is Some,
            readmitted.active() == full.max_active(),
    {
    }

    /// Releasing a session a second time changes nothing.
    pub proof fn lemma_release_idempotent(
        before: Self,
        once: Self,
        twice: Self,
        handle: SlotHandle,
    )
        requires
            before.inv(),
            before.releases(once, handle),
            once.releases(twice, handle),
        ensures
            !once.is_live(handle),
            twice.occupied() == once.occupied(),
            twice.active() == once.active(),
            forall|slot: u32| twice.armed(slot) == once.armed(slot),
    {
    }

    /// A table is never over its ceiling.
    pub proof fn lemma_within_ceiling(&self)
        requires
            self.inv(),
        ensures
            self.occupied().dom().finite(),
            self.occupied().dom().len() == self.active(),
            self.active() <= self.max_active(),
    {
    }

    /// An empty table that admits up to `max_active` sessions at a time;
    /// none for a ceiling above `MAX_SLOTS`.
    pub fn new(max_active: u32) -> (r: Option<Self>)
        ensures
            r.is_some() == (max_active <= MAX_SLOTS),
            r matches Some(t) ==> {
                &&& t.inv()
                &&& t.active() == 0
                &&& t.max_active() == max_active
                &&& t.next_session() == 0
                &&& t.occupied().dom() == Set::<u32>::empty()
                &&& forall|slot: u32| !t.armed(slot)
            },
    {
        if max_active > MAX_SLOTS {
            return None;
        }
        let slots = match slab_new(max_active as usize) {
            Some(slots) => slots,
            None => { return None; },
        };
        let mut signals: Vec<Option<Sender<()>>> = Vec::new();
        let mut i: u32 = 0;
        while i < max_active
            invariant
                i <= max_active,
                signals@.len() == i,
                forall|j: int| 0 <= j < i ==> signals@[j] is None,
            decreases max_active - i,
        {
            signals.push(None);
            i += 1;
        }
        Some(ConnectionTable { slots, signals, active: 0, max_active, next_session: 0 })
    }

    pub fn active_connections(&self) -> (r: u32)
        ensures
            r == self.active(),
    {
        self.active
    }

    pub fn max_active_connections(&self) -> (r: u32)
        ensures
            r == self.max_active(),
    {
        self.max_active
    }

    /// Admits a session if the table is under its ceiling: claims a free
    /// slot for it, gives it a fresh session number and a cancellation
    /// channel, whose receiving end is handed out, and counts it. At the
    /// ceiling nothing is admitted and nothing changes.
    pub fn admit_session(&mut self) -> (r: Option<(SlotHandle, Receiver<()>)>)
        requires
            old(self).inv(),
        ensures
            final(self).inv(),
            old(self).admits(
                *final(self),
                match r {
                    Some((handle, _)) => Some(handle),
                    None => None,
                },
            ),
            r matches Some((handle, _)) ==> final(self).is_live(handle),
    {
        if self.active >= self.max_active || self.next_session == u64::MAX {
            return None;
        }
        let session = self.next_session;
        match slab_push_front(&mut self.slots, session) {
            None => None,
            Some(slot) => {
                let (signal, receiver) = cancel_channel();
                self.signals[slot as usize] = Some(signal);
                self.active = self.active + 1;
                self.next_session = session + 1;
                Some((SlotHandle { slot, session }, receiver))
            },
        }
    }

    /// Releases the session that `handle` names: frees its slot, drops its
    /// cancellation signal and counts it off. A handle that names no live
    /// session, such as one released before, changes nothing.
    pub fn release(&mut self, handle: SlotHandle) -> (r: bool)
        requires
            old(self).inv(),
        ensures
            final(self).inv(),
            r == old(self).is_live(handle),
            old(self).releases(*final(self), handle),
            !final(self).is_live(handle),
    {
        if !self.is_admitted(handle) {
            return false;
        }
        let _ = slab_remove(&mut self.slots, handle.slot);
        self.signals[handle.slot as usize] = None;
        self.active = self.active - 1;
        true
    }

    /// Whether `handle` names a session that is admitted and not released.
    pub fn is_admitted(&self, handle: SlotHandle) -> (r: bool)
        ensures
            r == self.is_live(handle),
    {
        match slab_get(&self.slots, handle.slot) {
            Some(session) => session == handle.session,
            None => false,
        }
    }

    /// Sends the cancellation signal to every session that has not been
    /// sent it, without waiting for any of them. The sessions stay admitted
    /// until each is released.
    pub fn cancel_all(&mut self)
        requires
            old(self).inv(),
        ensures
            final(self).inv(),
            final(self).max_active() == old(self).max_active(),
            final(self).next_session() == old(self).next_session(),
            final(self).occupied() == old(self).occupied(),
            final(self).active() == old(self).active(),
            forall|slot: u32| !final(self).armed(slot),
    {
        let n = self.signals.len();
        let mut i: usize = 0;
        while i < n
            invariant
                i <= n,
                n == self.signals@.len(),
                self.inv(),
                self.max_active == old(self).max_active,
                self.next_session == old(self).next_session,
                self.active == old(self).active,
                self.occupied() == old(self).occupied(),
                forall|j: int| 0 <= j < i ==> self.signals@[j] is None,
            decreases n - i,
        {
            let taken = self.signals[i].take();
            match taken {
                Some(signal) => {
                    fire(signal);
                },
                None => {},
            }
            i += 1;
        }
    }
}

} // verus!
