//! The slot table of the `slabigator` crate and the one-shot channels of
//! `tokio`, as connection admission uses them.

use slabigator::Slab;
use tokio::sync::oneshot::error::RecvError;
use tokio::sync::oneshot::{Receiver, Sender};
use vstd::prelude::*;

verus! {

/// `slabigator::Slab`, a table of a fixed number of slots. Nothing inside it
/// is visible here: what it holds is spoken of through the names below.
#[verifier::external_type_specification]
#[verifier::external_body]
#[verifier::reject_recursive_types(D)]
pub struct ExSlab<D: Sized>(Slab<D>);

/// `tokio::sync::oneshot::Sender`, the sending end of a channel for one
/// value. It is carried and handed on, never looked into.
#[verifier::external_type_specification]
#[verifier::external_body]
#[verifier::reject_recursive_types(T)]
pub struct ExSender<T>(Sender<T>);

/// `tokio::sync::oneshot::Receiver`, the receiving end of a channel for one
/// value. It is carried and handed on, never looked into.
#[verifier::external_type_specification]
#[verifier::external_body]
#[verifier::reject_recursive_types(T)]
pub struct ExReceiver<T>(Receiver<T>);

/// `tokio::sync::oneshot::error::RecvError`, which a receiving end yields
/// when its sending end is gone; named only because the receiving end's
/// type mentions it.
#[verifier::external_type_specification]
#[verifier::external_body]
pub struct ExRecvError(RecvError);

/// The largest number of slots that a table is made with. It keeps the
/// memory that a table reserves when it is made within what can be asked
/// for at once.
pub const MAX_SLOTS: u32 = 0x100_0000;

/// The occupied slots of a table of session numbers, each with the number
/// it holds.
pub uninterp spec fn slab_slots(s: Slab<u64>) -> Map<u32, u64>;

/// The number of slots that a table of session numbers was made with.
pub uninterp spec fn slab_capacity(s: Slab<u64>) -> nat;

/// Calls `Slab::with_capacity`, which fails where the capacity does not fit
/// a slot number and else returns a table of that many free slots. It
/// reserves all of them at once, which it cannot for a capacity beyond all
/// memory.
#[verifier::external_body]
pub(crate) fn slab_new(capacity: usize) -> (r: Option<Slab<u64>>)
    requires
        capacity <= MAX_SLOTS,
    ensures
        r.is_some(),
        r matches Some(s) ==> slab_slots(s).dom() == Set::<u32>::empty(),
        r matches Some(s) ==> slab_capacity(s) == capacity,
{
    Slab::with_capacity(capacity).ok()
}

/// Calls `Slab::push_front`, which fails on a table without a free slot and
/// else puts `value` into a free slot and returns the slot's number.
#[verifier::external_body]
pub(crate) fn slab_push_front(s: &mut Slab<u64>, value: u64) -> (r: Option<u32>)
    ensures
        slab_capacity(*final(s)) == slab_capacity(*old(s)),
        r.is_some() == (slab_slots(*old(s)).dom().len() < slab_capacity(*old(s))),
        r matches Some(slot) ==> slot < slab_capacity(*old(s)) && !slab_slots(
            *old(s),
        ).contains_key(slot) && slab_slots(*final(s)) == slab_slots(*old(s)).insert(slot, value),
        r is None ==> slab_slots(*final(s)) == slab_slots(*old(s)),
{
    s.push_front(value).ok()
}

/// Calls `Slab::get`, which returns what the slot holds, if it is occupied.
#[verifier::external_body]
pub(crate) fn slab_get(s: &Slab<u64>, slot: u32) -> (r: Option<u64>)
    ensures
        r.is_some() == slab_slots(*s).contains_key(slot),
        r matches Some(v) ==> v == slab_slots(*s)[slot],
{
    s.get(slot).ok().copied()
}

/// Calls `Slab::remove`, which frees the slot if it is occupied and fails
/// otherwise, and says whether it freed it.
#[verifier::external_body]
pub(crate) fn slab_remove(s: &mut Slab<u64>, slot: u32) -> (r: bool)
    ensures
        slab_capacity(*final(s)) == slab_capacity(*old(s)),
        r == slab_slots(*old(s)).contains_key(slot),
        slab_slots(*final(s)) == slab_slots(*old(s)).remove(slot),
{
    s.remove(slot).is_ok()
}

/// Calls `tokio::sync::oneshot::channel`, which makes the two ends of a
/// channel for one signal.
#[verifier::external_body]
pub(crate) fn cancel_channel() -> (r: (Sender<()>, Receiver<()>)) {
    tokio::sync::oneshot::channel()
}

/// Calls `Sender::send`, which hands the signal to the receiving end
/// without waiting, whether or not that end is still there to take it.
#[verifier::external_body]
pub(crate) fn fire(signal: Sender<()>) {
    let _ = signal.send(());
}

} // verus!
