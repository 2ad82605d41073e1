use nros::types::WallTimestamp;
use nros::zero_copy::{Publisher, RingBuffer, Subscriber};

#[derive(Debug, Clone, Copy, Default, PartialEq)]
struct Vector3 {
    x: f64,
    y: f64,
    z: f64,
}

#[derive(Debug, Clone, Copy, Default, PartialEq)]
struct Twist {
    timestamp: WallTimestamp,
    linear: Vector3,
    angular: Vector3,
}

#[test]
fn test_zero_copy_pubsub() {
    let capacity = 1024;
    let mut publisher = Publisher::<Twist>::new("/cmd_vel", capacity);
    let subscriber = Subscriber::<Twist>::new("/cmd_vel");
    let mut msg_handle = publisher.allocate().unwrap();
    {
        let msg = msg_handle.as_mut();
        msg.timestamp = WallTimestamp::now();
        msg.linear = Vector3 { x: 1.0, y: 0.0, z: 0.0 };
        msg.angular = Vector3 { x: 0.0, y: 0.0, z: 0.5 };
    }
    msg_handle.commit(publisher.ring_mut());
    let received = subscriber.try_recv(publisher.ring()).unwrap();
    assert!((received.linear.x - 1.0).abs() < 1e-10);
    subscriber.consume(publisher.ring_mut());
}

#[test]
fn main_test_ring_buffer_full() {
    let mut ring = RingBuffer::<u64>::new(4);
    for i in 0..4 {
        let mut slot = ring.try_reserve().unwrap();
        *slot.as_mut() = i;
        slot.commit(&mut ring);
    }
    assert!(ring.try_reserve().is_none());
    let _ = ring.try_read().unwrap();
    ring.consume();
    assert!(ring.try_reserve().is_some());
}

#[test]
fn zero_copy_reserve_does_not_lock_slot() {
    let mut ring = RingBuffer::<u64>::new(2);
    let mut a = ring.try_reserve().unwrap();
    let b = ring.try_reserve().unwrap();
    *a.as_mut() = 5;
    a.commit(&mut ring);
    drop(b);
    assert_eq!(ring.len(), 1);
    assert_eq!(ring.try_read(), Some(&5));
}

#[test]
fn zero_copy_fifo_order_and_pending() {
    let mut publisher = Publisher::<u32>::new("/odom", 4);
    let subscriber = Subscriber::<u32>::new("/odom");
    for v in [10, 20, 30] {
        publisher.publish_copy(v).unwrap();
    }
    assert_eq!(subscriber.pending(publisher.ring()), 3);
    let mut seen = Vec::new();
    while let Some(v) = subscriber.try_recv(publisher.ring()).copied() {
        seen.push(v);
        subscriber.consume(publisher.ring_mut());
    }
    assert_eq!(seen, vec![10, 20, 30]);
    assert_eq!(publisher.topic(), "/odom");
}

#[test]
fn zero_copy_publish_copy_full() {
    let mut publisher = Publisher::<u8>::new("/t", 1);
    assert_eq!(publisher.publish_copy(1), Ok(()));
    assert_eq!(publisher.publish_copy(2), Err("Buffer full"));
    assert!(publisher.allocate().is_none());
}
