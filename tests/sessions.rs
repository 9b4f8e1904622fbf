use sculptor_core::codec::ChangeEvent;
use sculptor_core::sessions::{DeliveryError, SessionRegistry};

#[test]
fn last_attach_wins() {
    let mut reg = SessionRegistry::new();
    let id = 42u128;
    assert!(!reg.attach(id, 1));
    assert!(reg.attach(id, 2));
    let ev = ChangeEvent::AvatarChanged { subject: id };
    let d = reg.deliver(id, &ev).ok().unwrap();
    assert_eq!(d.channel, 2);
    assert_eq!(d.frame, ev.encode());
    assert_eq!(reg.current(id), Some(2));
    assert_eq!(reg.len(), 1);
}

#[test]
fn deliver_without_session_fails_fast() {
    let reg = SessionRegistry::new();
    let ev = ChangeEvent::AvatarChanged { subject: 5 };
    assert!(matches!(reg.deliver(5, &ev), Err(DeliveryError::NoSession)));
}

#[test]
fn detach_removes_session() {
    let mut reg = SessionRegistry::new();
    reg.attach(1, 10);
    reg.attach(2, 20);
    assert_eq!(reg.detach(1), Some(10));
    assert_eq!(reg.detach(1), None);
    assert_eq!(reg.current(1), None);
    assert_eq!(reg.current(2), Some(20));
}

#[test]
fn superseded_connection_teardown_keeps_successor() {
    let mut reg = SessionRegistry::new();
    reg.attach(7, 100);
    reg.attach(7, 101);
    assert!(!reg.detach_channel(7, 100));
    assert_eq!(reg.current(7), Some(101));
    assert!(reg.detach_channel(7, 101));
    assert_eq!(reg.current(7), None);
}
