use bytes::Bytes;
use pricecast::ws_manager::{ping_message, WsManager};
use tokio::sync::broadcast::error::TryRecvError;

#[test]
fn new_manager_has_no_subscriber() {
    let m = WsManager::new();
    assert_eq!(m.count(), 0);
}

#[test]
fn subscribing_at_capacity_yields_no_receiver() {
    let mut m = WsManager::new();
    let mut receivers = Vec::new();
    for i in 0..500usize {
        let rx = m.subscribe();
        assert!(rx.is_some());
        receivers.push(rx.unwrap());
        assert_eq!(m.count(), i + 1);
    }
    assert!(m.subscribe().is_none());
    assert_eq!(m.count(), 500);
    assert!(m.subscribe().is_none());
    assert_eq!(m.count(), 500);
    m.unsubscribe();
    assert_eq!(m.count(), 499);
    assert!(m.subscribe().is_some());
    assert_eq!(m.count(), 500);
}

#[test]
fn broadcast_reaches_every_subscriber_in_order() {
    let mut m = WsManager::new();
    let mut a = m.subscribe().unwrap();
    let mut b = m.subscribe().unwrap();
    m.broadcast(Bytes::from_static(b"one"));
    m.broadcast(Bytes::from_static(b"two"));
    assert_eq!(a.try_recv().unwrap(), Bytes::from_static(b"one"));
    assert_eq!(a.try_recv().unwrap(), Bytes::from_static(b"two"));
    assert_eq!(b.try_recv().unwrap(), Bytes::from_static(b"one"));
    assert_eq!(b.try_recv().unwrap(), Bytes::from_static(b"two"));
    assert_eq!(a.try_recv(), Err(TryRecvError::Empty));
}

#[test]
fn broadcast_without_subscribers_is_dropped() {
    let mut m = WsManager::new();
    m.broadcast(Bytes::from_static(b"lost"));
    let mut late = m.subscribe().unwrap();
    assert_eq!(late.try_recv(), Err(TryRecvError::Empty));
}

#[test]
fn lagging_subscriber_skips_and_goes_on() {
    let mut m = WsManager::new();
    let mut slow = m.subscribe().unwrap();
    for i in 0..300u32 {
        m.broadcast(Bytes::from(i.to_string().into_bytes()));
    }
    assert_eq!(slow.try_recv(), Err(TryRecvError::Lagged(44)));
    assert_eq!(slow.try_recv().unwrap(), Bytes::from_static(b"44"));
    assert_eq!(slow.try_recv().unwrap(), Bytes::from_static(b"45"));
    m.broadcast(Bytes::from_static(b"fresh"));
    let mut last = Bytes::new();
    while let Ok(b) = slow.try_recv() {
        last = b;
    }
    assert_eq!(last, Bytes::from_static(b"fresh"));
}

#[test]
fn backlog_of_the_full_capacity_is_not_a_lag() {
    let mut m = WsManager::new();
    let mut rx = m.subscribe().unwrap();
    for i in 0..256u32 {
        m.broadcast(Bytes::from(i.to_string().into_bytes()));
    }
    assert_eq!(rx.try_recv().unwrap(), Bytes::from_static(b"0"));
}

#[test]
fn heartbeat_goes_out_only_to_somebody() {
    let mut m = WsManager::new();
    assert!(!m.heartbeat());
    let mut rx = m.subscribe().unwrap();
    assert!(m.heartbeat());
    assert_eq!(rx.try_recv().unwrap(), Bytes::from_static(b"{\"ping\":true}"));
    assert_eq!(rx.try_recv(), Err(TryRecvError::Empty));
}

#[test]
fn ping_is_the_fixed_message() {
    assert_eq!(&ping_message()[..], b"{\"ping\":true}");
}
