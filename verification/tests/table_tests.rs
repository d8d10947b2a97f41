use session::cmd::{CmdControl, CmdQuery, CmdStream, LAZY_DELAY, REPLY_CAPACITY};
use session::error::CmdError;
use session::ident::Ident;
use session::sip::{Envelope, SipResponse};
use session::table::{CorrelationTable, Waiter};

fn ident(key: &str) -> Ident {
    Ident::new("34020000001320000001".to_string(), "34020000001310000001".to_string(), key.to_string())
}

fn reply(status: u16) -> Envelope {
    Envelope::Reply {
        response: SipResponse {
            status,
            reason: String::new(),
            from: None,
            to: None,
            body: Vec::new(),
            raw: vec![1, 2],
        },
        branch: "z9hG4bK-1".to_string(),
    }
}

fn status_of(envelope: Option<Envelope>) -> Option<u16> {
    match envelope {
        Some(Envelope::Reply { response, .. }) => Some(response.status),
        _ => None,
    }
}

#[test]
fn ident_equality_is_by_components() {
    assert_eq!(ident("a"), ident("a"));
    assert_ne!(ident("a"), ident("b"));
    assert_ne!(ident("a"), Ident::new("x".to_string(), "34020000001310000001".to_string(), "a".to_string()));
    assert_ne!(ident("a"), Ident::new("34020000001320000001".to_string(), "y".to_string(), "a".to_string()));
    let copy = ident("a").clone();
    assert_eq!(copy, ident("a"));
    assert_eq!(copy.dialog_key, "a");
}

#[test]
fn new_table_is_empty() {
    let table = CorrelationTable::new();
    assert!(!table.contains(&ident("a")));
}

#[test]
fn register_then_contains() {
    let mut table = CorrelationTable::new();
    assert_eq!(table.register(ident("a"), Waiter::Detached { expires_at: 60 }), Ok(()));
    assert!(table.contains(&ident("a")));
    assert!(!table.contains(&ident("b")));
}

#[test]
fn second_registration_conflicts_and_keeps_the_first_waiter() {
    let mut table = CorrelationTable::new();
    assert_eq!(CmdStream::open_wait(&mut table, ident("a")), Ok(()));
    assert!(table.fulfill(&ident("a"), reply(183)));
    assert_eq!(CmdStream::open_wait(&mut table, ident("a")), Err(CmdError::RegistrationConflict));
    assert_eq!(table.register(ident("a"), Waiter::Detached { expires_at: 60 }), Err(CmdError::RegistrationConflict));
    assert_eq!(table.schedule(ident("a"), vec![1], 5), Err(CmdError::RegistrationConflict));
    assert!(table.contains(&ident("a")));
    assert_eq!(status_of(table.receive(&ident("a"))), Some(183));
    assert!(table.take_due(u64::MAX).is_empty());
}

#[test]
fn fulfill_without_waiter_is_dropped() {
    let mut table = CorrelationTable::new();
    assert!(!table.fulfill(&ident("a"), reply(200)));
    assert!(!table.contains(&ident("a")));
    assert!(table.receive(&ident("a")).is_none());
}

#[test]
fn late_delivery_after_removal_has_no_effect() {
    let mut table = CorrelationTable::new();
    CmdStream::open_wait(&mut table, ident("a")).unwrap();
    CmdStream::open_wait(&mut table, ident("b")).unwrap();
    assert!(table.fulfill(&ident("a"), reply(200)));
    assert_eq!(CmdStream::play_bye(&mut table, &ident("a")), Ok(()));
    assert!(!table.contains(&ident("a")));
    assert!(!table.fulfill(&ident("a"), reply(200)));
    assert!(!table.fulfill(&ident("a"), reply(200)));
    assert!(!table.contains(&ident("a")));
    assert!(table.receive(&ident("a")).is_none());
    assert!(table.contains(&ident("b")));
    assert!(table.receive(&ident("b")).is_none());
}

#[test]
fn remove_is_idempotent() {
    let mut table = CorrelationTable::new();
    table.register(ident("a"), Waiter::Detached { expires_at: 60 }).unwrap();
    table.register(ident("b"), Waiter::Detached { expires_at: 60 }).unwrap();
    table.remove(&ident("a"));
    assert!(!table.contains(&ident("a")));
    table.remove(&ident("a"));
    table.remove(&ident("never"));
    assert!(!table.contains(&ident("a")));
    assert!(table.contains(&ident("b")));
    assert_eq!(table.register(ident("a"), Waiter::Detached { expires_at: 60 }), Ok(()));
}

#[test]
fn deliveries_are_received_in_arrival_order() {
    let mut table = CorrelationTable::new();
    CmdStream::open_wait(&mut table, ident("a")).unwrap();
    assert!(table.fulfill(&ident("a"), reply(100)));
    assert!(table.fulfill(&ident("a"), reply(183)));
    assert!(table.fulfill(&ident("a"), reply(200)));
    assert_eq!(status_of(table.receive(&ident("a"))), Some(100));
    assert_eq!(status_of(table.receive(&ident("a"))), Some(183));
    assert_eq!(status_of(table.receive(&ident("a"))), Some(200));
    assert!(table.receive(&ident("a")).is_none());
    assert!(table.contains(&ident("a")));
}

#[test]
fn full_queue_drops_the_delivery() {
    let mut table = CorrelationTable::new();
    CmdStream::open_wait(&mut table, ident("a")).unwrap();
    for _ in 0..REPLY_CAPACITY {
        assert!(table.fulfill(&ident("a"), reply(100)));
    }
    assert_eq!(REPLY_CAPACITY, 10);
    assert!(!table.fulfill(&ident("a"), reply(200)));
    for _ in 0..REPLY_CAPACITY {
        assert_eq!(status_of(table.receive(&ident("a"))), Some(100));
    }
    assert!(table.receive(&ident("a")).is_none());
    assert!(table.fulfill(&ident("a"), reply(200)));
}

#[test]
fn queue_without_capacity_takes_nothing() {
    let mut table = CorrelationTable::new();
    table.register(ident("a"), Waiter::Channel { capacity: 0, queue: Vec::new() }).unwrap();
    assert!(!table.fulfill(&ident("a"), reply(200)));
}

#[test]
fn detached_and_deferred_waiters_take_no_delivery() {
    let mut table = CorrelationTable::new();
    CmdQuery::query_preset(&mut table, ident("a"), 60).unwrap();
    table.schedule(ident("b"), vec![1, 2, 3], 10).unwrap();
    assert!(!table.fulfill(&ident("a"), reply(200)));
    assert!(!table.fulfill(&ident("b"), reply(200)));
    assert!(table.receive(&ident("a")).is_none());
    assert!(table.receive(&ident("b")).is_none());
    assert!(table.contains(&ident("b")));
    assert_eq!(table.take_due(10).len(), 1);
}

#[test]
fn reply_retires_a_request_sent_without_wait() {
    let mut table = CorrelationTable::new();
    CmdQuery::query_preset(&mut table, ident("a"), 60).unwrap();
    CmdQuery::query_device_info(&mut table, ident("b"), 60).unwrap();
    assert!(table.contains(&ident("a")));
    assert!(!table.fulfill(&ident("a"), reply(200)));
    assert!(!table.contains(&ident("a")));
    assert!(table.contains(&ident("b")));
    assert_eq!(CmdQuery::query_preset(&mut table, ident("a"), 60), Ok(()));
    assert!(!table.fulfill(&ident("a"), Envelope::Absent));
    assert!(!table.contains(&ident("a")));
    assert!(!table.fulfill(&ident("a"), reply(200)));
    assert!(table.contains(&ident("b")));
}

#[test]
fn exchanges_are_independent() {
    let mut table = CorrelationTable::new();
    CmdStream::open_wait(&mut table, ident("a")).unwrap();
    CmdStream::open_wait(&mut table, ident("b")).unwrap();
    assert!(table.fulfill(&ident("b"), reply(486)));
    assert!(table.fulfill(&ident("a"), reply(200)));
    assert_eq!(status_of(table.receive(&ident("a"))), Some(200));
    assert_eq!(status_of(table.receive(&ident("b"))), Some(486));
}

#[test]
fn fire_and_forget_commands_register_detached() {
    let mut table = CorrelationTable::new();
    assert_eq!(CmdQuery::query_preset(&mut table, ident("1"), 60), Ok(()));
    assert_eq!(CmdQuery::query_device_info(&mut table, ident("2"), 60), Ok(()));
    assert_eq!(CmdQuery::query_device_catalog(&mut table, ident("3"), 60), Ok(()));
    assert_eq!(CmdQuery::subscribe_device_catalog(&mut table, ident("4"), 60), Ok(()));
    assert_eq!(CmdControl::control_ptz(&mut table, ident("5"), 60), Ok(()));
    assert_eq!(CmdControl::snapshot_image(&mut table, ident("6"), 60), Ok(()));
    for key in ["1", "2", "3", "4", "5", "6"] {
        assert!(table.contains(&ident(key)));
        assert!(table.receive(&ident(key)).is_none());
    }
    assert_eq!(CmdQuery::query_preset(&mut table, ident("1"), 60), Err(CmdError::RegistrationConflict));
    assert_eq!(CmdControl::control_ptz(&mut table, ident("2"), 60), Err(CmdError::RegistrationConflict));
    assert!(table.take_due(59).is_empty());
    for key in ["1", "2", "3", "4", "5", "6"] {
        assert!(table.contains(&ident(key)));
        assert!(!table.fulfill(&ident(key), reply(200)));
        assert!(!table.contains(&ident(key)));
    }
}

#[test]
fn lazy_request_is_not_due_before_its_delay() {
    let mut table = CorrelationTable::new();
    let t = 1000;
    assert_eq!(LAZY_DELAY, 2);
    assert_eq!(CmdQuery::lazy_query_device_info(&mut table, ident("a"), vec![7, 8], t), Ok(()));
    assert!(table.take_due(t).is_empty());
    assert!(table.take_due(t + 1).is_empty());
    assert!(table.contains(&ident("a")));
    let due = table.take_due(t + 2);
    assert_eq!(due.len(), 1);
    assert_eq!(due[0].0, ident("a"));
    assert_eq!(due[0].1, vec![7, 8]);
    assert!(!table.contains(&ident("a")));
    assert!(table.take_due(t + 3).is_empty());
}

#[test]
fn lazy_commands_schedule_and_conflict() {
    let mut table = CorrelationTable::new();
    assert_eq!(CmdQuery::lazy_query_device_info(&mut table, ident("a"), vec![1], 0), Ok(()));
    assert_eq!(CmdQuery::lazy_query_device_catalog(&mut table, ident("b"), vec![2], 1), Ok(()));
    assert_eq!(CmdQuery::lazy_subscribe_device_catalog(&mut table, ident("c"), vec![3], 2), Ok(()));
    assert_eq!(
        CmdQuery::lazy_query_device_catalog(&mut table, ident("a"), vec![9], 50),
        Err(CmdError::RegistrationConflict)
    );
    let mut first = table.take_due(3);
    first.sort_by(|x, y| x.1.cmp(&y.1));
    assert_eq!(first.len(), 2);
    assert_eq!((first[0].0.clone(), first[0].1.clone()), (ident("a"), vec![1]));
    assert_eq!((first[1].0.clone(), first[1].1.clone()), (ident("b"), vec![2]));
    let second = table.take_due(4);
    assert_eq!(second.len(), 1);
    assert_eq!(second[0].0, ident("c"));
    assert_eq!(second[0].1, vec![3]);
}

#[test]
fn lazy_request_at_the_end_of_the_clock() {
    let mut table = CorrelationTable::new();
    let t = u64::MAX - LAZY_DELAY;
    assert_eq!(CmdQuery::lazy_query_device_info(&mut table, ident("a"), vec![], t), Ok(()));
    assert!(table.take_due(u64::MAX - 1).is_empty());
    assert_eq!(table.take_due(u64::MAX).len(), 1);
    assert_eq!(CmdQuery::lazy_query_device_info(&mut table, ident("b"), vec![], u64::MAX), Ok(()));
    assert_eq!(
        CmdQuery::lazy_query_device_catalog(&mut table, ident("c"), vec![], u64::MAX - 1),
        Ok(())
    );
    assert!(table.take_due(u64::MAX).is_empty());
    assert!(table.contains(&ident("b")));
    assert!(table.contains(&ident("c")));
    table.schedule(ident("d"), vec![4], u128::from(u64::MAX)).unwrap();
    table.schedule(ident("e"), vec![5], u128::from(u64::MAX) + 1).unwrap();
    let due = table.take_due(u64::MAX);
    assert_eq!(due.len(), 1);
    assert_eq!(due[0].0, ident("d"));
    assert!(table.contains(&ident("e")));
}

#[test]
fn sweep_leaves_other_waiters() {
    let mut table = CorrelationTable::new();
    CmdStream::open_wait(&mut table, ident("wait")).unwrap();
    CmdQuery::query_preset(&mut table, ident("sent"), 60).unwrap();
    table.schedule(ident("soon"), vec![1], 5).unwrap();
    table.schedule(ident("later"), vec![2], 50).unwrap();
    assert!(table.fulfill(&ident("wait"), reply(100)));
    let due = table.take_due(5);
    assert_eq!(due.len(), 1);
    assert_eq!(due[0].0, ident("soon"));
    assert!(table.contains(&ident("wait")));
    assert!(table.contains(&ident("sent")));
    assert!(table.contains(&ident("later")));
    assert!(!table.contains(&ident("soon")));
    assert_eq!(status_of(table.receive(&ident("wait"))), Some(100));
}

#[test]
fn silence_retires_a_request_sent_without_wait() {
    let mut table = CorrelationTable::new();
    CmdStream::open_wait(&mut table, ident("wait")).unwrap();
    assert_eq!(CmdQuery::query_preset(&mut table, ident("a"), 30), Ok(()));
    assert_eq!(CmdControl::control_ptz(&mut table, ident("b"), 40), Ok(()));
    assert!(table.take_due(0).is_empty());
    assert!(table.take_due(29).is_empty());
    assert!(table.contains(&ident("a")));
    assert_eq!(CmdQuery::query_preset(&mut table, ident("a"), 90), Err(CmdError::RegistrationConflict));
    assert!(table.take_due(30).is_empty());
    assert!(!table.contains(&ident("a")));
    assert!(table.contains(&ident("b")));
    assert!(table.contains(&ident("wait")));
    assert_eq!(CmdQuery::query_preset(&mut table, ident("a"), 90), Ok(()));
    assert!(table.take_due(89).is_empty());
    assert!(table.contains(&ident("a")));
    assert!(!table.contains(&ident("b")));
    assert!(table.take_due(u64::MAX).is_empty());
    assert!(!table.contains(&ident("a")));
    assert!(table.contains(&ident("wait")));
    table.register(ident("now"), Waiter::Detached { expires_at: 0 }).unwrap();
    assert!(table.take_due(0).is_empty());
    assert!(!table.contains(&ident("now")));
}

#[test]
fn removal_cancels_a_deferred_action() {
    let mut table = CorrelationTable::new();
    table.schedule(ident("a"), vec![1], 5).unwrap();
    table.remove(&ident("a"));
    assert!(table.take_due(100).is_empty());
}
