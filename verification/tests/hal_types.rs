use nros::hal::{
    CameraDriver, CameraSettings, DmaBufferState, HalError, Image, ImageFormat, RealDmaBuffer, SensorData,
    SensorSynchronizer, SimulatedDmaBuffer, Timestamp,
};
use nros::node::{ExecutionStats, LifecycleState};
use nros::types::{nanos_truncated, MonotonicInstant, WallTimestamp};

fn image_at(ts: Timestamp) -> Image {
    Image {
        timestamp: ts,
        width: 640,
        height: 480,
        format: ImageFormat::RGB8,
        data: vec![0; 10],
        frame_id: 1,
        dma_buffer_id: None,
    }
}

#[test]
fn test_wall_timestamp_now() {
    let ts = WallTimestamp::now();
    assert!(ts.sec > 0);
}

#[test]
fn types_monotonic_elapsed_is_nondecreasing() {
    let t1 = MonotonicInstant::now();
    while t1.elapsed().as_nanos() == 0 {}
    let t2 = MonotonicInstant::now();
    assert!(t2.duration_since(t1).as_nanos() > 0);
    assert_eq!(t1.duration_since(t2).as_nanos(), 0);
}

#[test]
fn test_camera_dma() {
    let mut cam = CameraDriver::new("test");
    cam.apply_settings(CameraSettings { use_dma: true, buffer_count: 4, ..Default::default() });
    cam.start();
    let frame = cam.capture_frame().unwrap();
    assert_eq!(frame.width, 640);
    assert!(frame.dma_buffer_id.is_some());
    assert!(frame.size_bytes() > 0);
}

#[test]
fn hal_camera_dma_ring_and_pattern() {
    let mut cam = CameraDriver::new("cam");
    cam.apply_settings(CameraSettings { use_dma: true, buffer_count: 2, resolution: Some((2, 2)), ..Default::default() });
    assert_eq!(cam.capture_frame().map(|_| ()), Err(HalError::NotStreaming));
    assert_eq!(HalError::NotStreaming.message(), "Camera not streaming");
    cam.start();
    let f1 = cam.capture_frame().unwrap();
    let f2 = cam.capture_frame().unwrap();
    let f3 = cam.capture_frame().unwrap();
    assert_eq!((f1.dma_buffer_id, f2.dma_buffer_id, f3.dma_buffer_id), (Some(0), Some(1), Some(0)));
    assert_eq!(f1.data, vec![0, 1, 2, 3, 4, 5, 6, 7, 8, 9, 10, 11]);
    assert_eq!(f2.data[0], 1);
    assert_eq!((f1.frame_id, f3.frame_id), (1, 3));
}

#[test]
fn hal_camera_copy_path() {
    let mut cam = CameraDriver::new("cam");
    cam.apply_settings(CameraSettings { use_dma: false, resolution: Some((4, 2)), ..Default::default() });
    cam.start();
    let f = cam.capture_frame().unwrap();
    assert_eq!(f.dma_buffer_id, None);
    assert_eq!(f.data.len(), 24);
    cam.stop();
    assert!(!cam.is_streaming());
}

#[test]
fn test_synchronizer_tolerance() {
    let mut sync: SensorSynchronizer<u32, u32> = SensorSynchronizer::new(10);
    assert!(sync.try_synchronize().is_none());
    let ts = Timestamp::now();
    sync.add_camera_frame(image_at(ts));
    sync.add_lidar_scan(ts, 1);
    sync.add_imu_data(ts, 1);
    let synced = sync.try_synchronize();
    assert!(synced.is_some());
    assert_eq!(sync.sync_success, 1);
}

#[test]
fn hal_synchronizer_picks_closest_and_rejects_drift() {
    let mut sync: SensorSynchronizer<&str, &str> = SensorSynchronizer::new(10);
    sync.add_camera_frame(image_at(Timestamp::from_millis(1_000)));
    sync.add_lidar_scan(Timestamp::from_millis(980), "far");
    sync.add_lidar_scan(Timestamp::from_millis(1_004), "near");
    sync.add_imu_data(Timestamp::from_millis(1_009), "imu");
    let s = sync.try_synchronize().unwrap();
    assert_eq!((s.lidar, s.imu, s.sync_quality_ms), (Some("near"), Some("imu"), 9));
    assert_eq!(sync.buffered_counts(), (0, 1, 0));
    sync.add_camera_frame(image_at(Timestamp::from_millis(2_000)));
    sync.add_imu_data(Timestamp::from_millis(2_000), "imu2");
    assert!(sync.try_synchronize().is_none());
    assert_eq!(sync.buffered_counts(), (1, 1, 1));
    assert_eq!((sync.sync_attempts, sync.sync_success), (2, 1));
}

#[test]
fn hal_timestamp_millis() {
    let t = Timestamp::from_millis(12_345);
    assert_eq!((t.sec, t.nanosec), (12, 345_000_000));
    assert_eq!(t.to_millis(), 12_345);
    assert_eq!(Timestamp::from_millis(5).difference_ms(&Timestamp::from_millis(9)), -4);
}

#[test]
fn hal_dma_buffers() {
    let mut b = SimulatedDmaBuffer::new(3, 4);
    assert_eq!(b.as_slice(), &[0, 0, 0, 0]);
    b.fill_pattern(254);
    assert_eq!(b.as_slice(), &[254, 255, 0, 1]);
    assert_eq!(b.len(), 4);
    let r = RealDmaBuffer::new_scaffolded(1, 8);
    assert_eq!(r.len(), 8);
    let st = DmaBufferState::new(0, 2);
    let dev = st.submit();
    let cpu = dev.complete();
    assert_eq!(cpu.as_slice(), &[0, 0]);
    assert_eq!(ImageFormat::MONO16.bpp(), 2);
}

#[test]
fn node_execution_stats() {
    let mut s = ExecutionStats::new();
    s.record_execution(300_000, 500_000);
    s.record_execution(700_000, 500_000);
    assert_eq!(s.max_execution_time_ns, 700_000);
    assert_eq!(s.min_execution_time_ns, 300_000);
    assert_eq!(s.total_execution_time_ns, 1_000_000);
    assert_eq!(s.callback_count, 2);
    assert_eq!(s.deadline_misses, 1);
    assert_eq!(LifecycleState::Active.as_str(), "Active");
}

#[test]
fn hal_elapsed_ms_at_reading() {
    let t = Timestamp { sec: 10, nanosec: 250_000_000 };
    assert_eq!(t.elapsed_ms_at(Timestamp { sec: 12, nanosec: 999_999_999 }), 2749);
    assert_eq!(t.elapsed_ms_at(Timestamp { sec: 10, nanosec: 0 }), 0u64.wrapping_sub(250));
}

#[test]
fn node_execution_totals_over_a_run() {
    let mut s = ExecutionStats::new();
    for (d, dl) in [(300u64, 500u64), (500, 500), (900, 500), (100, 50)] {
        s.record_execution(d, dl);
    }
    assert_eq!(s.callback_count, 4);
    assert_eq!(s.total_execution_time_ns, 1800);
    assert_eq!(s.max_execution_time_ns, 900);
    assert_eq!(s.min_execution_time_ns, 100);
    assert_eq!(s.deadline_misses, 2);
}

#[test]
fn types_nanos_truncated_keeps_low_bits() {
    assert_eq!(nanos_truncated(std::time::Duration::new(3, 7)), 3_000_000_007);
    assert_eq!(nanos_truncated(std::time::Duration::new(u64::MAX, 0)), (u64::MAX as u128 * 1_000_000_000) as u64);
}

#[test]
fn timestamps_from_clock_readings() {
    assert_eq!(Timestamp::from_reading(Some((5, 7))), Timestamp { sec: 5, nanosec: 7 });
    assert_eq!(Timestamp::from_reading(None), Timestamp { sec: 0, nanosec: 0 });
    assert_eq!(WallTimestamp::from_reading(Some((9, 1))), WallTimestamp { sec: 9, nanosec: 1 });
    assert_eq!(WallTimestamp::from_reading(None), WallTimestamp { sec: 0, nanosec: 0 });
}
