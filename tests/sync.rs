use async_embedded::channel::Channel;
use async_embedded::mutex::{LockPoll, Mutex};
use async_embedded::waker_set::WakerSet;

#[test]
fn waker_set_no_leak_after_cancellation() {
    let m = 3usize;
    let mut set: WakerSet<u32> = WakerSet::new(m);
    let mut keys = Vec::new();
    for h in 0..m as u32 {
        keys.push(set.register(h).unwrap());
    }
    assert_eq!(set.register(99), Err(99));
    for k in keys {
        assert!(set.deregister(k).is_some());
    }
    assert!(set.is_empty());
    for h in 10..10 + m as u32 {
        assert!(set.register(h).is_ok());
    }
    assert_eq!(set.len(), m);
}

#[test]
fn waker_set_deregister_vacant_is_noop() {
    let mut set: WakerSet<u32> = WakerSet::new(2);
    let k = set.register(5).unwrap();
    assert_eq!(set.deregister(k), Some(5));
    assert_eq!(set.deregister(k), None);
    assert_eq!(set.deregister(40), None);
    assert_eq!(set.len(), 0);
}

#[test]
fn waker_set_wakes_lowest_key_first() {
    let mut set: WakerSet<char> = WakerSet::new(3);
    assert_eq!(set.wake_one(), None);
    set.register('a').unwrap();
    set.register('b').unwrap();
    set.register('c').unwrap();
    set.deregister(0);
    assert_eq!(set.wake_one(), Some(1));
    assert_eq!(*set.get(1), 'b');
    let mut all = set.wake_all();
    let mut seen = Vec::new();
    while let Some(k) = all.next() {
        seen.push(k);
    }
    assert_eq!(seen, vec![1, 2]);
    assert_eq!(set.len(), 2);
}

#[test]
fn mutex_second_attempt_waits_until_release() {
    let mut m: Mutex<u32, &str> = Mutex::new(0, 2);
    assert!(matches!(m.lock("first"), LockPoll::Acquired));
    let key = match m.lock("second") {
        LockPoll::Waiting(k) => k,
        _ => panic!("second attempt should wait"),
    };
    assert!(m.is_locked());
    assert!(!m.try_lock());
    assert_eq!(m.replace(5), 0);
    assert_eq!(m.unlock(), Some(key));
    assert!(!m.is_locked());
    assert_eq!(*m.waiter(key), "second");
    assert_eq!(m.cancel(key), Some("second"));
    assert!(matches!(m.lock("second"), LockPoll::Acquired));
    assert_eq!(*m.get(), 5);
    assert_eq!(m.unlock(), None);
}

#[test]
fn mutex_waiter_slots_exhausted() {
    let mut m: Mutex<(), u8> = Mutex::new((), 1);
    assert!(m.try_lock());
    assert!(matches!(m.lock(1), LockPoll::Waiting(0)));
    assert!(matches!(m.lock(2), LockPoll::Rejected(2)));
}

#[test]
fn channel_is_fifo() {
    let mut c: Channel<u32, u8> = Channel::new(3, 2);
    assert_eq!(c.try_send(1), Ok(None));
    assert_eq!(c.try_send(2), Ok(None));
    assert_eq!(c.try_send(3), Ok(None));
    let mut got = Vec::new();
    for _ in 0..3 {
        got.push(c.try_recv().unwrap().0);
    }
    assert_eq!(got, vec![1, 2, 3]);
    assert!(c.try_recv().is_none());
}

#[test]
fn channel_backpressure_then_send_completes() {
    let mut c: Channel<u32, &str> = Channel::new(2, 2);
    c.try_send(1).unwrap();
    c.try_send(2).unwrap();
    assert_eq!(c.try_send(3), Err(3));
    let key = c.register_sender("sender").unwrap();
    assert_eq!(c.len(), 2);
    let (v, wake) = c.try_recv().unwrap();
    assert_eq!(v, 1);
    assert_eq!(wake, Some(key));
    assert_eq!(*c.sender(key), "sender");
    assert_eq!(c.cancel_send(key), Some("sender"));
    assert_eq!(c.try_send(3), Ok(None));
    assert_eq!(c.try_recv().unwrap().0, 2);
    assert_eq!(c.try_recv().unwrap().0, 3);
}

#[test]
fn channel_send_wakes_waiting_receiver() {
    let mut c: Channel<u32, &str> = Channel::new(1, 2);
    assert!(c.try_recv().is_none());
    let key = c.register_receiver("rx").unwrap();
    assert_eq!(*c.receiver(key), "rx");
    assert_eq!(c.try_send(7), Ok(Some(key)));
    assert_eq!(c.cancel_recv(key), Some("rx"));
    assert_eq!(c.try_recv(), Some((7, None)));
    assert_eq!(c.capacity(), 1);
}
