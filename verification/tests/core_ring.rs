use nros::ring::{channel, PerformanceStats, Publisher, RingBuffer, Subscriber, ExecutionClass, ChannelConfig, BackpressurePolicy};
use nros::types::WallTimestamp;
use std::sync::atomic::{AtomicUsize, Ordering};
use std::sync::Arc;

#[derive(Debug, Clone, Copy, PartialEq)]
struct Vector3 {
    x: f64,
    y: f64,
    z: f64,
}

#[derive(Debug, Clone, Copy, PartialEq)]
struct Twist {
    timestamp: WallTimestamp,
    linear: Vector3,
    angular: Vector3,
}

struct DropCounter {
    count: Arc<AtomicUsize>,
}

impl Drop for DropCounter {
    fn drop(&mut self) {
        self.count.fetch_add(1, Ordering::Relaxed);
    }
}

#[test]
fn test_zero_copy_pubsub_guard_api() {
    let (publisher, subscriber, mut ring) = channel::<Twist>(1024);
    {
        let guard = publisher.allocate(&mut ring).unwrap();
        let twist = Twist {
            timestamp: WallTimestamp::now(),
            linear: Vector3 { x: 1.0, y: 0.0, z: 0.0 },
            angular: Vector3 { x: 0.0, y: 0.0, z: 0.5 },
        };
        guard.write_value(&mut ring, twist).commit(&mut ring);
    }
    {
        let guard = subscriber.try_recv(&mut ring).unwrap();
        assert!((guard.get(&ring).linear.x - 1.0).abs() < 1e-10);
        guard.release(&mut ring);
    }
    assert!(subscriber.is_empty(&ring));
}

#[test]
fn test_double_reserve_prevention() {
    let mut ring = RingBuffer::<u64>::new(4);
    let guard1 = ring.try_reserve().unwrap();
    assert!(ring.try_reserve().is_none(), "Second reserve must fail while first outstanding");
    guard1.write_value(&mut ring, 42).commit(&mut ring);
    let guard2 = ring.try_reserve().unwrap();
    let ig = guard2.write_value(&mut ring, 43);
    ig.commit(&mut ring);
    let r1 = ring.try_read().unwrap();
    assert_eq!(*r1.get(&ring), 42);
    r1.release(&mut ring);
    let r2 = ring.try_read().unwrap();
    assert_eq!(*r2.get(&ring), 43);
    r2.release(&mut ring);
}

#[test]
fn test_abandoned_reservation() {
    let mut ring = RingBuffer::<u64>::new(4);
    {
        let guard = ring.try_reserve().unwrap();
        guard.write_value(&mut ring, 99).abort_initialized(&mut ring);
    }
    {
        let guard = ring.try_reserve().unwrap();
        guard.abort(&mut ring);
    }
    assert_eq!(ring.len(), 0);
    let guard = ring.try_reserve().expect("Should be able to reserve after abandon");
    guard.write_value(&mut ring, 100).commit(&mut ring);
    assert_eq!(ring.len(), 1);
    let r = ring.try_read().unwrap();
    assert_eq!(*r.get(&ring), 100);
    r.release(&mut ring);
}

#[test]
fn test_read_guard_lifetime() {
    let mut ring = RingBuffer::<u64>::new(4);
    ring.try_reserve().unwrap().write_value(&mut ring, 123).commit(&mut ring);
    let read_idx_before = ring.read_position();
    {
        let guard = ring.try_read().unwrap();
        assert_eq!(*guard.get(&ring), 123);
        assert_eq!(ring.read_position(), read_idx_before);
        guard.release(&mut ring);
    }
    assert_eq!(ring.read_position(), read_idx_before + 1);
}

#[test]
fn test_consume_without_receive_not_possible() {
    let mut ring = RingBuffer::<u64>::new(4);
    assert!(ring.try_read().is_none());
    assert_eq!(ring.len(), 0);
}

#[test]
fn test_generic_t_destruction() {
    let counter = Arc::new(AtomicUsize::new(0));
    let mut ring = RingBuffer::new(4);
    {
        let guard = ring.try_reserve().unwrap();
        guard.write_value(&mut ring, DropCounter { count: counter.clone() }).commit(&mut ring);
    }
    assert_eq!(counter.load(Ordering::Relaxed), 0);
    {
        let guard = ring.try_read().unwrap();
        assert_eq!(counter.load(Ordering::Relaxed), 0);
        guard.release(&mut ring);
    }
    assert_eq!(counter.load(Ordering::Relaxed), 1);
    let counter2 = Arc::new(AtomicUsize::new(0));
    {
        let mut ring2 = RingBuffer::new(4);
        ring2.try_reserve().unwrap().write_value(&mut ring2, DropCounter { count: counter2.clone() }).commit(&mut ring2);
    }
    assert_eq!(counter2.load(Ordering::Relaxed), 1);
}

#[test]
fn test_double_init_forbidden_by_type_state() {
    let mut ring = RingBuffer::<String>::new(4);
    let guard = ring.try_reserve().unwrap();
    let init_guard = guard.write_value(&mut ring, "first".to_string());
    init_guard.commit(&mut ring);
    let rg = ring.try_read().unwrap();
    assert_eq!(*rg.get(&ring), "first");
    rg.release(&mut ring);
}

#[test]
fn lib_test_ring_buffer_full() {
    let mut ring = RingBuffer::<u64>::new(4);
    for i in 0..4 {
        ring.try_reserve().unwrap().write_value(&mut ring, i).commit(&mut ring);
    }
    assert!(ring.try_reserve().is_none());
    assert!(ring.is_full());
    {
        let guard = ring.try_read().unwrap();
        guard.release(&mut ring);
    }
    assert!(!ring.is_full());
    assert!(ring.try_reserve().is_some());
}

#[test]
fn test_spsc_ordering() {
    let mut ring = RingBuffer::<usize>::new(16);
    let mut received = Vec::new();
    let mut next = 0usize;
    while received.len() < 100 {
        while next < 100 {
            match ring.try_reserve() {
                Some(guard) => {
                    guard.write_value(&mut ring, next).commit(&mut ring);
                    next += 1;
                }
                None => break,
            }
        }
        if let Some(guard) = ring.try_read() {
            received.push(*guard.get(&ring));
            guard.release(&mut ring);
        }
    }
    for (i, val) in received.iter().enumerate() {
        assert_eq!(*val, i);
    }
}

#[test]
fn test_wraparound() {
    let mut ring = RingBuffer::<u64>::new(4);
    for _ in 0..2 {
        for i in 0..4 {
            ring.try_reserve().unwrap().write_value(&mut ring, i).commit(&mut ring);
        }
        for i in 0..4 {
            let rg = ring.try_read().unwrap();
            assert_eq!(*rg.get(&ring), i);
            rg.release(&mut ring);
        }
    }
}

#[test]
fn test_channel_producer_consumer_ownership() {
    let (producer, consumer, mut ring) = channel::<u64>(4);
    producer.publish_copy(&mut ring, 42).unwrap();
    let guard = consumer.try_recv(&mut ring).unwrap();
    assert_eq!(*guard.get(&ring), 42);
}

#[test]
fn test_capacity_one() {
    let mut ring = RingBuffer::<u64>::new(1);
    for i in 0..100 {
        ring.try_reserve().unwrap().write_value(&mut ring, i).commit(&mut ring);
        let rg = ring.try_read().unwrap();
        assert_eq!(*rg.get(&ring), i);
        rg.release(&mut ring);
    }
}

#[test]
fn test_string_type() {
    let mut ring = RingBuffer::<String>::new(4);
    ring.try_reserve().unwrap().write_value(&mut ring, "hello".to_string()).commit(&mut ring);
    let rg = ring.try_read().unwrap();
    assert_eq!(*rg.get(&ring), "hello");
    rg.release(&mut ring);
}

#[test]
fn ring_publish_copy_reports_full() {
    let (producer, consumer, mut ring) = channel::<u64>(2);
    assert_eq!(producer.publish_copy(&mut ring, 1), Ok(()));
    assert_eq!(producer.publish_copy(&mut ring, 2), Ok(()));
    assert_eq!(producer.publish_copy(&mut ring, 3), Err("Buffer full or already reserved"));
    assert_eq!(consumer.pending(&ring), 2);
    assert_eq!(producer.capacity(&ring), 2);
}

#[test]
fn ring_read_guard_blocks_second_read() {
    let mut ring = RingBuffer::<u64>::new(4);
    ring.try_reserve().unwrap().write_value(&mut ring, 7).commit(&mut ring);
    ring.try_reserve().unwrap().write_value(&mut ring, 8).commit(&mut ring);
    let first = ring.try_read().unwrap();
    assert!(ring.try_read().is_none());
    first.release(&mut ring);
    let second = ring.try_read().unwrap();
    assert_eq!(*second.get(&ring), 8);
    second.release(&mut ring);
    assert!(ring.is_empty());
}

#[test]
fn ring_publisher_and_subscriber_share_topic_ring() {
    let mut publisher = Publisher::<u32>::new("/cmd_vel", 8);
    let subscriber = Subscriber::<u32>::new("/cmd_vel");
    assert_eq!(publisher.topic(), "/cmd_vel");
    assert_eq!(subscriber.topic(), "/cmd_vel");
    publisher.publish_copy(5).unwrap();
    publisher.publish_copy(6).unwrap();
    assert_eq!(publisher.len(), 2);
    assert_eq!(subscriber.pending(publisher.ring()), 2);
    let g = subscriber.try_recv(publisher.ring_mut()).unwrap();
    assert_eq!(*g.get(publisher.ring()), 5);
    g.release(publisher.ring_mut());
    assert_eq!(subscriber.pending(publisher.ring()), 1);
}

#[test]
fn ring_performance_stats_track_extremes() {
    let mut stats = PerformanceStats::new();
    stats.record_send();
    stats.record_receive(500);
    stats.record_receive(100);
    stats.record_receive(900);
    assert_eq!(stats.messages_sent, 1);
    assert_eq!(stats.messages_received, 3);
    assert_eq!(stats.total_latency_ns, 1500);
    assert_eq!(stats.max_latency_ns, 900);
    assert_eq!(stats.min_latency_ns, 100);
}

#[test]
fn ring_channel_config_builders() {
    let c = ChannelConfig::default().with_capacity(64).with_overflow_policy(BackpressurePolicy::DropOldest);
    assert_eq!(c.capacity, 64);
    assert_eq!(c.overflow_policy, BackpressurePolicy::DropOldest);
    assert!(ExecutionClass::Background.allows_allocation());
    assert!(!ExecutionClass::HardRealtime.allows_allocation());
    assert!(ExecutionClass::Normal.allows_blocking());
    assert!(!ExecutionClass::HardRealtime.allows_blocking());
}

#[test]
fn ring_one_reservation_and_one_reader_at_a_time() {
    let (p, c, mut ring) = channel::<u64>(4);
    let g1 = p.allocate(&mut ring).unwrap();
    assert!(p.allocate(&mut ring).is_none());
    assert_eq!(p.publish_copy(&mut ring, 5), Err("Buffer full or already reserved"));
    g1.write_value(&mut ring, 42).commit(&mut ring);
    p.allocate(&mut ring).unwrap().write_value(&mut ring, 43).commit(&mut ring);
    let r = c.try_recv(&mut ring).unwrap();
    assert_eq!(*r.get(&ring), 42);
    assert!(c.try_recv(&mut ring).is_none());
    assert_eq!(c.pending(&ring), 2);
    r.release(&mut ring);
    assert_eq!(c.pending(&ring), 1);
    let r = c.try_recv(&mut ring).unwrap();
    assert_eq!(*r.get(&ring), 43);
    r.release(&mut ring);
}

#[test]
fn ring_receive_totals_over_a_run() {
    let mut s = PerformanceStats::new();
    for l in [40u64, 10, 25] {
        s.record_receive(l);
    }
    assert_eq!((s.messages_sent, s.messages_received), (0, 3));
    assert_eq!((s.total_latency_ns, s.max_latency_ns, s.min_latency_ns), (75, 40, 10));
}
