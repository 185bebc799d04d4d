use dnscrypt_relay::support::admission::{ConnectionTable, SlotHandle};
use dnscrypt_relay::support::slots::MAX_SLOTS;

#[test]
fn sessions_are_admitted_up_to_the_ceiling() {
    let mut table = ConnectionTable::new(3).unwrap();
    assert_eq!(table.max_active_connections(), 3);
    assert_eq!(table.active_connections(), 0);
    let mut handles = Vec::new();
    for n in 0..3u32 {
        let (handle, _rx) = table.admit_session().unwrap();
        assert_eq!(table.active_connections(), n + 1);
        assert!(table.is_admitted(handle));
        handles.push(handle);
    }
    assert!(table.admit_session().is_none());
    assert!(table.admit_session().is_none());
    assert_eq!(table.active_connections(), 3);
    for h in &handles {
        assert!(table.is_admitted(*h));
    }
}

#[test]
fn a_release_makes_room_for_one_more() {
    let mut table = ConnectionTable::new(2).unwrap();
    let (a, _ra) = table.admit_session().unwrap();
    let (b, _rb) = table.admit_session().unwrap();
    assert!(table.admit_session().is_none());
    assert!(table.release(a));
    assert_eq!(table.active_connections(), 1);
    let (c, _rc) = table.admit_session().unwrap();
    assert!(table.admit_session().is_none());
    assert!(table.is_admitted(b));
    assert!(table.is_admitted(c));
    assert!(!table.is_admitted(a));
}

#[test]
fn handles_differ_in_slot_and_session() {
    let mut table = ConnectionTable::new(4).unwrap();
    let (a, _ra) = table.admit_session().unwrap();
    let (b, _rb) = table.admit_session().unwrap();
    assert_ne!(a.slot, b.slot);
    assert_eq!(a.session, 0);
    assert_eq!(b.session, 1);
    assert!(a.slot < 4 && b.slot < 4);
}

#[test]
fn releasing_twice_changes_nothing_more() {
    let mut table = ConnectionTable::new(2).unwrap();
    let (a, _ra) = table.admit_session().unwrap();
    let (b, _rb) = table.admit_session().unwrap();
    assert!(table.release(a));
    assert!(!table.release(a));
    assert!(!table.release(a));
    assert_eq!(table.active_connections(), 1);
    assert!(table.is_admitted(b));
}

#[test]
fn a_stale_handle_does_not_release_a_later_session() {
    let mut table = ConnectionTable::new(1).unwrap();
    let (a, _ra) = table.admit_session().unwrap();
    assert!(table.release(a));
    let (b, _rb) = table.admit_session().unwrap();
    assert_eq!(a.slot, b.slot);
    assert_ne!(a.session, b.session);
    assert!(!table.release(a));
    assert!(table.is_admitted(b));
    assert_eq!(table.active_connections(), 1);
    assert!(!table.release(SlotHandle { slot: 77, session: b.session }));
    assert!(table.release(b));
    assert_eq!(table.active_connections(), 0);
}

#[test]
fn a_table_without_room_admits_nobody() {
    let mut table = ConnectionTable::new(0).unwrap();
    assert!(table.admit_session().is_none());
    assert_eq!(table.active_connections(), 0);
    assert!(!table.release(SlotHandle { slot: 0, session: 0 }));
    table.cancel_all();
}

#[test]
fn cancel_all_signals_every_session_and_releases_none() {
    let mut table = ConnectionTable::new(3).unwrap();
    let (a, mut ra) = table.admit_session().unwrap();
    let (b, mut rb) = table.admit_session().unwrap();
    assert!(ra.try_recv().is_err());
    assert!(rb.try_recv().is_err());
    table.cancel_all();
    assert_eq!(ra.try_recv(), Ok(()));
    assert_eq!(rb.try_recv(), Ok(()));
    assert_eq!(table.active_connections(), 2);
    assert!(table.is_admitted(a));
    assert!(table.is_admitted(b));
    table.cancel_all();
    assert!(table.release(a));
    assert!(table.release(b));
    assert_eq!(table.active_connections(), 0);
}

#[test]
fn cancel_all_does_not_wait_for_sessions_that_are_gone() {
    let mut table = ConnectionTable::new(2).unwrap();
    let (a, ra) = table.admit_session().unwrap();
    drop(ra);
    let (_b, mut rb) = table.admit_session().unwrap();
    table.cancel_all();
    assert_eq!(rb.try_recv(), Ok(()));
    assert!(table.is_admitted(a));
}

#[test]
fn a_session_admitted_after_cancel_all_is_not_cancelled() {
    let mut table = ConnectionTable::new(2).unwrap();
    let (_a, mut ra) = table.admit_session().unwrap();
    table.cancel_all();
    let (_b, mut rb) = table.admit_session().unwrap();
    assert_eq!(ra.try_recv(), Ok(()));
    assert!(rb.try_recv().is_err());
}

#[test]
fn a_release_drops_the_signal_unsent() {
    let mut table = ConnectionTable::new(2).unwrap();
    let (a, mut ra) = table.admit_session().unwrap();
    assert!(table.release(a));
    assert!(ra.try_recv().is_err());
    table.cancel_all();
    assert!(ra.try_recv().is_err());
}

#[test]
fn a_table_has_at_most_sixteen_million_slots() {
    assert_eq!(MAX_SLOTS, 16_777_216);
    assert!(ConnectionTable::new(MAX_SLOTS + 1).is_none());
    assert!(ConnectionTable::new(u32::MAX).is_none());
    assert!(ConnectionTable::new(1_000).is_some());
}
