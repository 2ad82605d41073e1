//! Hardware abstraction: timestamps, device descriptions, DMA buffers with an
//! ownership state machine, image formats and multi-sensor time alignment.
use vstd::prelude::*;
use core::marker::PhantomData;
use crate::clock::{reading_or_epoch, wall_clock_now};

verus! {

/// Wall-clock timestamp as seconds and nanoseconds.
#[derive(Debug, Clone, Copy, PartialEq, Eq, Hash, Structural)]
pub struct Timestamp {
    pub sec: u64,
    pub nanosec: u32,
}

/// Milliseconds a timestamp stands for: whole seconds and whole milliseconds
/// of the nanosecond part.
pub open spec fn millis_of(sec: u64, nanosec: u32) -> int {
    sec * 1000 + nanosec / 1_000_000
}

impl Timestamp {
    /// The current wall-clock time: `from_reading` of the clock's reading, so
    /// a clock set before 1970 gives the epoch itself.
    pub fn now() -> (t: Self)
        ensures
            t.nanosec < 1_000_000_000,
    {
        Self::from_reading(wall_clock_now())
    }

    /// The timestamp of a wall-clock reading (seconds and nanoseconds since
    /// the epoch), or the epoch itself when the clock read before 1970.
    pub fn from_reading(r: Option<(u64, u32)>) -> (t: Self)
        ensures
            r matches Some(x) ==> t.sec == x.0 && t.nanosec == x.1,
            r is None ==> t.sec == 0 && t.nanosec == 0,
    {
        let (sec, nanosec) = reading_or_epoch(r);
        Timestamp { sec, nanosec }
    }

    pub fn to_millis(&self) -> (ms: u64)
        requires
            millis_of(self.sec, self.nanosec) <= u64::MAX,
        ensures
            ms == millis_of(self.sec, self.nanosec),
    {
        self.sec * 1000 + (self.nanosec as u64 / 1_000_000)
    }

    pub fn from_millis(ms: u64) -> (t: Self)
        ensures
            t.sec == ms / 1000,
            t.nanosec == (ms % 1000) * 1_000_000,
    {
        Timestamp { sec: ms / 1000, nanosec: ((ms % 1000) * 1_000_000) as u32 }
    }

    /// Milliseconds since this timestamp by the wall clock, with 64-bit
    /// wrap-around: `elapsed_ms_at` of the clock's reading now.
    pub fn elapsed_ms(&self) -> (ms: u64)
        requires
            millis_of(self.sec, self.nanosec) <= u64::MAX,
    {
        let now = Self::now();
        self.elapsed_ms_at(now)
    }

    /// Milliseconds from this timestamp to `now`: `now` in whole milliseconds,
    /// with 64-bit wrap-around, less this timestamp in whole milliseconds.
    pub fn elapsed_ms_at(&self, now: Timestamp) -> (ms: u64)
        requires
            now.nanosec < 1_000_000_000,
            millis_of(self.sec, self.nanosec) <= u64::MAX,
        ensures
            ms == (now.sec.wrapping_mul(1000).wrapping_add((now.nanosec / 1_000_000) as u64)).wrapping_sub(
                millis_of(self.sec, self.nanosec) as u64,
            ),
    {
        let now_ms = now.sec.wrapping_mul(1000).wrapping_add(now.nanosec as u64 / 1_000_000);
        now_ms.wrapping_sub(self.to_millis())
    }

    /// Signed milliseconds from `other` to `self`.
    pub fn difference_ms(&self, other: &Self) -> (d: i64)
        requires
            millis_of(self.sec, self.nanosec) <= u64::MAX,
            millis_of(other.sec, other.nanosec) <= u64::MAX,
            i64::MIN <= (millis_of(self.sec, self.nanosec) as i64) - (millis_of(other.sec, other.nanosec) as i64) <= i64::MAX,
        ensures
            d == (millis_of(self.sec, self.nanosec) as i64) - (millis_of(other.sec, other.nanosec) as i64),
    {
        #[verifier::truncate]
        let a = self.to_millis() as i64;
        #[verifier::truncate]
        let b = other.to_millis() as i64;
        a - b
    }
}

/// Converting milliseconds to a timestamp and back gives the milliseconds.
pub proof fn lemma_millis_roundtrip(ms: u64)
    ensures
        millis_of(ms / 1000, ((ms % 1000) * 1_000_000) as u32) == ms,
{
    assert(((ms % 1000) * 1_000_000) / 1_000_000 == ms % 1000) by (nonlinear_arith);
    assert((ms / 1000) * 1000 + ms % 1000 == ms) by (nonlinear_arith);
}

impl Default for Timestamp {
    fn default() -> (t: Self)
        ensures
            t.sec == 0 && t.nanosec == 0,
    {
        Timestamp { sec: 0, nanosec: 0 }
    }
}

#[derive(Debug, Clone, Copy, PartialEq, Eq, Hash, Structural)]
pub enum DeviceClass {
    Camera,
    Lidar,
    Imu,
    Gps,
    Radar,
    Ultrasonic,
}

#[derive(Debug, Clone, PartialEq, Eq)]
pub struct DeviceInfo {
    pub vendor_id: u16,
    pub product_id: u16,
    pub device_class: DeviceClass,
    pub name: String,
    pub serial_number: String,
}

/// Data produced by a sensor.
pub trait SensorData {
    fn timestamp(&self) -> Timestamp;

    fn size_bytes(&self) -> usize;

    /// Frame number of the data; data without frames reports 0.
    fn frame_id(&self) -> (id: u64)
        default_ensures
            id == 0,
    {
        0
    }
}

/// When a sensor samples.
#[derive(Debug, Clone, PartialEq, Eq, Structural)]
pub enum TriggerMode {
    FreeRun,
    External { pin: u8 },
    Software,
}

impl Default for TriggerMode {
    fn default() -> (m: Self)
        ensures
            m == TriggerMode::FreeRun,
    {
        TriggerMode::FreeRun
    }
}

// ---------------------------------------------------------------------------
// DMA buffers
// ---------------------------------------------------------------------------

/// The fill pattern of frame `frame_count`: byte `i` is `(frame_count + i) mod 256`.
pub open spec fn pattern_byte(frame_count: u64, i: int) -> u8 {
    ((frame_count + i) % 256) as u8
}

/// DMA buffer simulated in ordinary memory.
#[derive(Debug, Clone)]
pub struct SimulatedDmaBuffer {
    pub id: usize,
    pub size: usize,
    pub data: Vec<u8>,
    pub is_mapped: bool,
}

impl SimulatedDmaBuffer {
    /// A mapped, zero-filled buffer of `size` bytes.
    pub fn new(id: usize, size: usize) -> (b: Self)
        ensures
            b.id == id,
            b.size == size,
            b.data@ == Seq::new(size as nat, |i: int| 0u8),
            b.is_mapped,
    {
        let mut data: Vec<u8> = Vec::new();
        let mut i: usize = 0;
        while i < size
            invariant
                i <= size,
                data@ == Seq::new(i as nat, |j: int| 0u8),
            decreases size - i,
        {
            data.push(0u8);
            i = i + 1;
            assert(data@ =~= Seq::new(i as nat, |j: int| 0u8));
        }
        SimulatedDmaBuffer { id, size, data, is_mapped: true }
    }

    pub fn as_slice(&self) -> (s: &[u8])
        ensures
            s@ == self.data@,
    {
        self.data.as_slice()
    }

    pub fn len(&self) -> (n: usize)
        ensures
            n == self.size,
    {
        self.size
    }

    /// Fills the buffer with the test pattern of frame `frame_count`.
    pub fn fill_pattern(&mut self, frame_count: u64)
        requires
            frame_count + old(self).data@.len() <= u64::MAX + 1,
        ensures
            final(self).data@ == Seq::new(old(self).data@.len(), |i: int| pattern_byte(frame_count, i)),
            final(self).id == old(self).id,
            final(self).size == old(self).size,
            final(self).is_mapped == old(self).is_mapped,
    {
        let n = self.data.len();
        let mut i: usize = 0;
        while i < n
            invariant
                n == self.data@.len(),
                n == old(self).data@.len(),
                i <= n,
                frame_count + n <= u64::MAX + 1,
                self.id == old(self).id && self.size == old(self).size && self.is_mapped == old(self).is_mapped,
                forall|j: int| 0 <= j < i ==> self.data@[j] == pattern_byte(frame_count, j),
            decreases n - i,
        {
            self.data.set(i, ((frame_count + i as u64) % 256) as u8);
            i = i + 1;
        }
        assert(self.data@ =~= Seq::new(old(self).data@.len(), |i: int| pattern_byte(frame_count, i)));
    }
}

/// DMA buffer on the real-hardware path; still backed by ordinary memory.
#[derive(Debug)]
pub struct RealDmaBuffer {
    pub id: usize,
    pub size: usize,
    backing: Vec<u8>,
    pub is_gpu_accessible: bool,
}

impl RealDmaBuffer {
    pub closed spec fn backing_view(&self) -> Seq<u8> {
        self.backing@
    }

    pub closed spec fn id_view(&self) -> usize {
        self.id
    }

    pub closed spec fn size_view(&self) -> usize {
        self.size
    }

    pub closed spec fn gpu_accessible_view(&self) -> bool {
        self.is_gpu_accessible
    }

    pub fn new_scaffolded(id: usize, size: usize) -> (b: Self)
        ensures
            b.id_view() == id,
            b.size_view() == size,
            b.backing_view() == Seq::new(size as nat, |i: int| 0u8),
            b.gpu_accessible_view(),
    {
        let zeros = SimulatedDmaBuffer::new(id, size);
        RealDmaBuffer { id, size, backing: zeros.data, is_gpu_accessible: true }
    }

    pub fn as_slice(&self) -> (s: &[u8])
        ensures
            s@ == self.backing_view(),
    {
        self.backing.as_slice()
    }

    pub fn len(&self) -> (n: usize)
        ensures
            n == self.size_view(),
    {
        self.size
    }

    /// Not backed by a DMA-capable allocation yet.
    pub fn is_real_dma(&self) -> (b: bool)
        ensures
            !b,
    {
        false
    }
}

pub type DmaBuffer = SimulatedDmaBuffer;

/// Common view of DMA buffers.
pub trait DmaBufferTrait {
    fn id(&self) -> usize;

    fn size(&self) -> usize;

    fn is_simulated(&self) -> bool;
}

impl DmaBufferTrait for SimulatedDmaBuffer {
    fn id(&self) -> (i: usize)
        ensures
            i == self.id,
    {
        self.id
    }

    fn size(&self) -> (s: usize)
        ensures
            s == self.size,
    {
        self.size
    }

    fn is_simulated(&self) -> (b: bool)
        ensures
            b,
    {
        true
    }
}

impl DmaBufferTrait for RealDmaBuffer {
    fn id(&self) -> (i: usize)
        ensures
            i == self.id_view(),
    {
        self.id
    }

    fn size(&self) -> (s: usize)
        ensures
            s == self.size_view(),
    {
        self.size
    }

    fn is_simulated(&self) -> (b: bool)
        ensures
            !b,
    {
        false
    }
}

/// Ownership state: the CPU may read and write the buffer.
pub struct OwnedByCpu;

/// Ownership state: the device owns the buffer; the CPU may only read it.
pub struct OwnedByDevice;

/// A DMA buffer whose type records who owns it:
/// `OwnedByCpu --submit--> OwnedByDevice --complete--> OwnedByCpu`.
#[derive(Debug)]
pub struct DmaBufferState<State> {
    pub id: usize,
    pub size: usize,
    pub data: Vec<u8>,
    pub _marker: PhantomData<State>,
}

impl DmaBufferState<OwnedByCpu> {
    /// A zero-filled buffer owned by the CPU.
    pub fn new(id: usize, size: usize) -> (b: Self)
        ensures
            b.id == id,
            b.size == size,
            b.data@ == Seq::new(size as nat, |i: int| 0u8),
    {
        let zeros = SimulatedDmaBuffer::new(id, size);
        DmaBufferState { id, size, data: zeros.data, _marker: PhantomData }
    }

    /// Hands the buffer to the device; contents are unchanged.
    pub fn submit(self) -> (b: DmaBufferState<OwnedByDevice>)
        ensures
            b.id == self.id,
            b.size == self.size,
            b.data == self.data,
    {
        DmaBufferState { id: self.id, size: self.size, data: self.data, _marker: PhantomData }
    }

    pub fn as_slice(&self) -> (s: &[u8])
        ensures
            s@ == self.data@,
    {
        self.data.as_slice()
    }

    /// Write access, available only while the CPU owns the buffer.
    pub fn as_mut_slice(&mut self) -> (v: &mut Vec<u8>)
        ensures
            *v == old(self).data,
            final(self).data == *final(v),
            final(self).id == old(self).id,
            final(self).size == old(self).size,
    {
        &mut self.data
    }
}

impl DmaBufferState<OwnedByDevice> {
    /// The device is done; ownership returns to the CPU with the contents as they are.
    pub fn complete(self) -> (b: DmaBufferState<OwnedByCpu>)
        ensures
            b.id == self.id,
            b.size == self.size,
            b.data == self.data,
    {
        DmaBufferState { id: self.id, size: self.size, data: self.data, _marker: PhantomData }
    }

    pub fn as_slice(&self) -> (s: &[u8])
        ensures
            s@ == self.data@,
    {
        self.data.as_slice()
    }
}

#[derive(Debug, Clone, Copy, PartialEq, Eq, Structural)]
pub enum CacheState {
    Clean,
    Dirty,
    Invalid,
}

#[derive(Debug, Clone, Copy, PartialEq, Eq, Structural)]
pub enum CacheOperation {
    Clean,
    Invalidate,
    CleanInvalidate,
    MemoryBarrier,
    DmaFence,
}

// ---------------------------------------------------------------------------
// Images
// ---------------------------------------------------------------------------

#[derive(Debug, Clone, Copy, PartialEq, Eq, Structural)]
pub enum ImageFormat {
    RGB8,
    RGBA8,
    BGR8,
    MONO8,
    MONO16,
}

/// Bytes per pixel of each format.
pub open spec fn bytes_per_pixel(f: ImageFormat) -> usize {
    match f {
        ImageFormat::RGB8 | ImageFormat::BGR8 => 3,
        ImageFormat::RGBA8 => 4,
        ImageFormat::MONO8 => 1,
        ImageFormat::MONO16 => 2,
    }
}

impl ImageFormat {
    pub fn bpp(&self) -> (n: usize)
        ensures
            n == bytes_per_pixel(*self),
    {
        match self {
            ImageFormat::RGB8 | ImageFormat::BGR8 => 3,
            ImageFormat::RGBA8 => 4,
            ImageFormat::MONO8 => 1,
            ImageFormat::MONO16 => 2,
        }
    }
}

#[derive(Debug, Clone)]
pub struct Image {
    pub timestamp: Timestamp,
    pub width: u32,
    pub height: u32,
    pub format: ImageFormat,
    pub data: Vec<u8>,
    pub frame_id: u64,
    pub dma_buffer_id: Option<usize>,
}

impl SensorData for Image {
    fn timestamp(&self) -> (t: Timestamp)
        ensures
            t == self.timestamp,
    {
        self.timestamp
    }

    fn size_bytes(&self) -> (n: usize)
        ensures
            n == self.data@.len(),
    {
        self.data.len()
    }

    fn frame_id(&self) -> (f: u64)
        ensures
            f == self.frame_id,
    {
        self.frame_id
    }
}


// ---------------------------------------------------------------------------
// Multi-sensor time alignment
// ---------------------------------------------------------------------------

/// Milliseconds of a timestamp, as `Timestamp::to_millis` computes them.
pub open spec fn stamp_ms(t: Timestamp) -> int {
    millis_of(t.sec, t.nanosec)
}

/// The distance used to pick the sample closest to `target`: both times taken
/// as `i64`, subtracted, and the absolute value taken.
pub open spec fn time_distance(ms: u64, target: u64) -> int {
    let x = (ms as i64) as int - (target as i64) as int;
    if x < 0 { -x } else { x }
}

/// The distance of `ms` from `target` can be computed in `i64` without
/// overflow.
pub open spec fn distance_computable(ms: u64, target: u64) -> bool {
    let x = (ms as i64) as int - (target as i64) as int;
    i64::MIN < x <= i64::MAX
}

/// Every sample of `buf` has a timestamp whose milliseconds fit in `u64` and
/// whose distance from `target` is computable.
pub open spec fn samples_measurable<T>(buf: Seq<(Timestamp, T)>, target: u64) -> bool {
    forall|j: int| 0 <= j < buf.len() ==> stamp_ms((#[trigger] buf[j]).0) <= u64::MAX
        && distance_computable(stamp_ms(buf[j].0) as u64, target)
}

/// `k` is the first sample of `buf` with the least distance from `target`.
pub open spec fn is_closest<T>(buf: Seq<(Timestamp, T)>, target: u64, k: int) -> bool {
    &&& 0 <= k < buf.len()
    &&& forall|j: int| 0 <= j < buf.len() ==>
        time_distance(stamp_ms((#[trigger] buf[j]).0) as u64, target) >= time_distance(stamp_ms(buf[k].0) as u64, target)
    &&& forall|j: int| 0 <= j < k ==>
        time_distance(stamp_ms((#[trigger] buf[j]).0) as u64, target) > time_distance(stamp_ms(buf[k].0) as u64, target)
}

/// The index of the sample closest to `target` (the first among equals).
pub open spec fn closest_index<T>(buf: Seq<(Timestamp, T)>, target: u64) -> int {
    choose|k: int| is_closest(buf, target, k)
}

proof fn lemma_closest_unique<T>(buf: Seq<(Timestamp, T)>, target: u64, k: int)
    requires
        is_closest(buf, target, k),
    ensures
        closest_index(buf, target) == k,
{
    let c = closest_index(buf, target);
    assert(is_closest(buf, target, c));
    if c < k {
        assert(time_distance(stamp_ms(buf[c].0) as u64, target) > time_distance(stamp_ms(buf[k].0) as u64, target));
    } else if k < c {
        assert(time_distance(stamp_ms(buf[k].0) as u64, target) > time_distance(stamp_ms(buf[c].0) as u64, target));
    }
}

/// `buf` after adding `x` to a buffer that keeps at most `max` samples: the
/// oldest sample goes when the buffer overflows.
pub open spec fn bounded_push<T>(buf: Seq<T>, x: T, max: usize) -> Seq<T> {
    if buf.len() + 1 > max { buf.push(x).drop_first() } else { buf.push(x) }
}

/// A camera frame, LiDAR scan and IMU sample taken within the tolerance of
/// one another, stamped with the camera frame's time.
pub struct SynchronizedData<L, I> {
    pub timestamp: Timestamp,
    pub camera: Option<Image>,
    pub lidar: Option<L>,
    pub imu: Option<I>,
    pub sync_quality_ms: u64,
}

/// Buffers camera frames, LiDAR scans and IMU samples and groups them by
/// time. Scans and samples are kept with their timestamps.
pub struct SensorSynchronizer<L, I> {
    pub tolerance_ms: u64,
    pub camera_buffer: Vec<Image>,
    pub lidar_buffer: Vec<(Timestamp, L)>,
    pub imu_buffer: Vec<(Timestamp, I)>,
    pub max_buffer_size: usize,
    pub sync_attempts: u64,
    pub sync_success: u64,
}

impl<L, I> SensorSynchronizer<L, I> {
    /// Successes never outnumber attempts.
    pub open spec fn wf(&self) -> bool {
        self.sync_success <= self.sync_attempts
    }

    /// What `try_synchronize` reads can be computed without overflow: the
    /// oldest frame's milliseconds, and each scan's and sample's milliseconds
    /// and distance from them.
    pub open spec fn inputs_measurable(&self) -> bool {
        self.camera_buffer@.len() > 0 ==> {
            let target = stamp_ms(self.camera_buffer@[0].timestamp);
            &&& target <= u64::MAX
            &&& samples_measurable(self.lidar_buffer@, target as u64)
            &&& samples_measurable(self.imu_buffer@, target as u64)
        }
    }

    /// Empty buffers of at most 10 samples each, with the given tolerance.
    pub fn new(tolerance_ms: u64) -> (s: Self)
        ensures
            s.wf(),
            s.tolerance_ms == tolerance_ms,
            s.camera_buffer@.len() == 0,
            s.lidar_buffer@.len() == 0,
            s.imu_buffer@.len() == 0,
            s.max_buffer_size == 10,
            s.sync_attempts == 0,
            s.sync_success == 0,
    {
        SensorSynchronizer {
            tolerance_ms,
            camera_buffer: Vec::new(),
            lidar_buffer: Vec::new(),
            imu_buffer: Vec::new(),
            max_buffer_size: 10,
            sync_attempts: 0,
            sync_success: 0,
        }
    }

    /// Buffers a camera frame, dropping the oldest when over capacity.
    pub fn add_camera_frame(&mut self, frame: Image)
        ensures
            final(self).camera_buffer@ == bounded_push(old(self).camera_buffer@, frame, old(self).max_buffer_size),
            final(self).lidar_buffer == old(self).lidar_buffer,
            final(self).imu_buffer == old(self).imu_buffer,
            final(self).tolerance_ms == old(self).tolerance_ms,
            final(self).max_buffer_size == old(self).max_buffer_size,
            final(self).sync_attempts == old(self).sync_attempts,
            final(self).sync_success == old(self).sync_success,
    {
        self.camera_buffer.push(frame);
        if self.camera_buffer.len() > self.max_buffer_size {
            self.camera_buffer.remove(0);
        }
        assert(self.camera_buffer@ =~= bounded_push(old(self).camera_buffer@, frame, old(self).max_buffer_size));
    }

    /// Buffers a LiDAR scan taken at `timestamp`, dropping the oldest when
    /// over capacity.
    pub fn add_lidar_scan(&mut self, timestamp: Timestamp, scan: L)
        ensures
            final(self).lidar_buffer@ == bounded_push(old(self).lidar_buffer@, (timestamp, scan), old(self).max_buffer_size),
            final(self).camera_buffer == old(self).camera_buffer,
            final(self).imu_buffer == old(self).imu_buffer,
            final(self).tolerance_ms == old(self).tolerance_ms,
            final(self).max_buffer_size == old(self).max_buffer_size,
            final(self).sync_attempts == old(self).sync_attempts,
            final(self).sync_success == old(self).sync_success,
    {
        self.lidar_buffer.push((timestamp, scan));
        if self.lidar_buffer.len() > self.max_buffer_size {
            self.lidar_buffer.remove(0);
        }
        assert(self.lidar_buffer@ =~= bounded_push(old(self).lidar_buffer@, (timestamp, scan), old(self).max_buffer_size));
    }

    /// Buffers an IMU sample taken at `timestamp`, dropping the oldest when
    /// over capacity.
    pub fn add_imu_data(&mut self, timestamp: Timestamp, data: I)
        ensures
            final(self).imu_buffer@ == bounded_push(old(self).imu_buffer@, (timestamp, data), old(self).max_buffer_size),
            final(self).camera_buffer == old(self).camera_buffer,
            final(self).lidar_buffer == old(self).lidar_buffer,
            final(self).tolerance_ms == old(self).tolerance_ms,
            final(self).max_buffer_size == old(self).max_buffer_size,
            final(self).sync_attempts == old(self).sync_attempts,
            final(self).sync_success == old(self).sync_success,
    {
        self.imu_buffer.push((timestamp, data));
        if self.imu_buffer.len() > self.max_buffer_size {
            self.imu_buffer.remove(0);
        }
        assert(self.imu_buffer@ =~= bounded_push(old(self).imu_buffer@, (timestamp, data), old(self).max_buffer_size));
    }

    /// The sample of `buffer` closest in time to `target_ms` (the first among
    /// equals); 0 for an empty buffer.
    fn find_closest_timestamp<T>(buffer: &Vec<(Timestamp, T)>, target_ms: u64) -> (k: usize)
        requires
            samples_measurable(buffer@, target_ms),
        ensures
            buffer@.len() == 0 ==> k == 0,
            buffer@.len() > 0 ==> k == closest_index(buffer@, target_ms) && is_closest(buffer@, target_ms, k as int),
    {
        if buffer.len() == 0 {
            return 0;
        }
        let mut best: usize = 0;
        let mut best_key: i64 = 0;
        let mut i: usize = 0;
        while i < buffer.len()
            invariant
                samples_measurable(buffer@, target_ms),
                buffer@.len() > 0,
                i <= buffer@.len(),
                best < buffer@.len(),
                i > 0 ==> best < i,
                i > 0 ==> best_key == time_distance(stamp_ms(buffer@[best as int].0) as u64, target_ms),
                i == 0 ==> best == 0,
                forall|j: int| 0 <= j < i ==>
                    time_distance(stamp_ms((#[trigger] buffer@[j]).0) as u64, target_ms) >= time_distance(stamp_ms(buffer@[best as int].0) as u64, target_ms),
                forall|j: int| 0 <= j < best ==>
                    time_distance(stamp_ms((#[trigger] buffer@[j]).0) as u64, target_ms) > time_distance(stamp_ms(buffer@[best as int].0) as u64, target_ms),
            decreases buffer@.len() - i,
        {
            assert(stamp_ms(buffer@[i as int].0) <= u64::MAX);
            let ms = buffer[i].0.to_millis();
            #[verifier::truncate]
            let a = ms as i64;
            #[verifier::truncate]
            let b = target_ms as i64;
            let x = a - b;
            let key = if x < 0 { -x } else { x };
            if i == 0 || key < best_key {
                best = i;
                best_key = key;
            }
            i = i + 1;
        }
        proof {
            assert(is_closest(buffer@, target_ms, best as int));
            lemma_closest_unique(buffer@, target_ms, best as int);
        }
        best
    }

    /// Groups the oldest camera frame with the LiDAR scan and IMU sample
    /// closest to it in time, when all three lie within the tolerance; the
    /// group leaves the buffers. Otherwise nothing is grouped, and a full
    /// camera buffer drops its oldest frame. Every call counts as an attempt.
    pub fn try_synchronize(&mut self) -> (r: Option<SynchronizedData<L, I>>)
        requires
            old(self).wf(),
            old(self).sync_attempts < u64::MAX,
            old(self).inputs_measurable(),
        ensures
            final(self).wf(),
            final(self).sync_attempts == old(self).sync_attempts + 1,
            final(self).tolerance_ms == old(self).tolerance_ms,
            final(self).max_buffer_size == old(self).max_buffer_size,
            (old(self).camera_buffer@.len() == 0 || old(self).lidar_buffer@.len() == 0 || old(self).imu_buffer@.len() == 0) ==> {
                &&& r is None
                &&& final(self).camera_buffer == old(self).camera_buffer
                &&& final(self).lidar_buffer == old(self).lidar_buffer
                &&& final(self).imu_buffer == old(self).imu_buffer
                &&& final(self).sync_success == old(self).sync_success
            },
            (old(self).camera_buffer@.len() > 0 && old(self).lidar_buffer@.len() > 0 && old(self).imu_buffer@.len() > 0) ==> {
                let cam = old(self).camera_buffer@[0];
                let ct = stamp_ms(cam.timestamp);
                let li = closest_index(old(self).lidar_buffer@, ct as u64);
                let ii = closest_index(old(self).imu_buffer@, ct as u64);
                let lt = stamp_ms(old(self).lidar_buffer@[li].0);
                let it = stamp_ms(old(self).imu_buffer@[ii].0);
                let hi = if ct >= lt && ct >= it { ct } else if lt >= it { lt } else { it };
                let lo = if ct <= lt && ct <= it { ct } else if lt <= it { lt } else { it };
                if hi - lo <= old(self).tolerance_ms {
                    &&& r == Some(SynchronizedData {
                        timestamp: cam.timestamp,
                        camera: Some(cam),
                        lidar: Some(old(self).lidar_buffer@[li].1),
                        imu: Some(old(self).imu_buffer@[ii].1),
                        sync_quality_ms: (hi - lo) as u64,
                    })
                    &&& final(self).camera_buffer@ == old(self).camera_buffer@.drop_first()
                    &&& final(self).lidar_buffer@ == old(self).lidar_buffer@.remove(li)
                    &&& final(self).imu_buffer@ == old(self).imu_buffer@.remove(ii)
                    &&& final(self).sync_success == old(self).sync_success + 1
                } else {
                    &&& r is None
                    &&& final(self).camera_buffer@ == if old(self).camera_buffer@.len() >= old(self).max_buffer_size {
                        old(self).camera_buffer@.drop_first()
                    } else {
                        old(self).camera_buffer@
                    }
                    &&& final(self).lidar_buffer == old(self).lidar_buffer
                    &&& final(self).imu_buffer == old(self).imu_buffer
                    &&& final(self).sync_success == old(self).sync_success
                }
            },
    {
        self.sync_attempts = self.sync_attempts + 1;
        if self.camera_buffer.len() == 0 || self.lidar_buffer.len() == 0 || self.imu_buffer.len() == 0 {
            return None;
        }
        let camera_ts = self.camera_buffer[0].timestamp;
        let camera_time = camera_ts.to_millis();
        let lidar_idx = Self::find_closest_timestamp(&self.lidar_buffer, camera_time);
        assert(stamp_ms(self.lidar_buffer@[lidar_idx as int].0) <= u64::MAX);
        let lidar_time = self.lidar_buffer[lidar_idx].0.to_millis();
        let imu_idx = Self::find_closest_timestamp(&self.imu_buffer, camera_time);
        assert(stamp_ms(self.imu_buffer@[imu_idx as int].0) <= u64::MAX);
        let imu_time = self.imu_buffer[imu_idx].0.to_millis();
        let max_t = if camera_time >= lidar_time && camera_time >= imu_time {
            camera_time
        } else if lidar_time >= imu_time {
            lidar_time
        } else {
            imu_time
        };
        let min_t = if camera_time <= lidar_time && camera_time <= imu_time {
            camera_time
        } else if lidar_time <= imu_time {
            lidar_time
        } else {
            imu_time
        };
        let diff = max_t - min_t;
        if diff <= self.tolerance_ms {
            self.sync_success = self.sync_success + 1;
            let camera = self.camera_buffer.remove(0);
            let (_lt, lidar) = self.lidar_buffer.remove(lidar_idx);
            let (_it, imu) = self.imu_buffer.remove(imu_idx);
            Some(SynchronizedData {
                timestamp: camera_ts,
                camera: Some(camera),
                lidar: Some(lidar),
                imu: Some(imu),
                sync_quality_ms: diff,
            })
        } else {
            if self.camera_buffer.len() >= self.max_buffer_size {
                self.camera_buffer.remove(0);
            }
            None
        }
    }

    /// Buffered frames, scans and samples.
    pub fn buffered_counts(&self) -> (c: (usize, usize, usize))
        ensures
            c == (self.camera_buffer@.len() as usize, self.lidar_buffer@.len() as usize, self.imu_buffer@.len() as usize),
    {
        (self.camera_buffer.len(), self.lidar_buffer.len(), self.imu_buffer.len())
    }
}


// ---------------------------------------------------------------------------
// Camera driver
// ---------------------------------------------------------------------------

/// Errors of the sensor drivers.
#[derive(Debug, Clone, Copy, PartialEq, Eq, Structural)]
pub enum HalError {
    /// A frame was requested while the stream is stopped.
    NotStreaming,
}

impl HalError {
    /// The message the drivers report for this error.
    pub fn message(&self) -> (s: &'static str)
        ensures
            *self == HalError::NotStreaming ==> s@ == "Camera not streaming"@,
    {
        match self {
            HalError::NotStreaming => "Camera not streaming",
        }
    }
}

/// The integer part of a sensor configuration: trigger, DMA use, resolution
/// and DMA buffer count (the sampling rate is checked by the caller).
#[derive(Debug, Clone, PartialEq, Eq)]
pub struct CameraSettings {
    pub trigger_mode: TriggerMode,
    pub use_dma: bool,
    pub resolution: Option<(u32, u32)>,
    pub buffer_count: usize,
}

impl Default for CameraSettings {
    /// Free-running, DMA on, default resolution, 4 buffers.
    fn default() -> (c: Self)
        ensures
            c.trigger_mode == TriggerMode::FreeRun,
            c.use_dma,
            c.resolution is None,
            c.buffer_count == 4,
    {
        CameraSettings { trigger_mode: TriggerMode::FreeRun, use_dma: true, resolution: None, buffer_count: 4 }
    }
}

/// Width and height a camera captures at: the configured resolution, else 640 x 480.
pub open spec fn frame_size(resolution: Option<(u32, u32)>) -> (u32, u32) {
    match resolution {
        Some(r) => r,
        None => (640u32, 480u32),
    }
}

/// A camera that captures into a ring of DMA buffers when DMA is configured,
/// and into a fresh zeroed frame otherwise.
pub struct CameraDriver {
    pub device_info: DeviceInfo,
    pub settings: CameraSettings,
    pub is_streaming: bool,
    pub frame_count: u64,
    pub dma_buffers: Vec<DmaBuffer>,
    pub current_buffer: usize,
}

impl CameraDriver {
    /// The next DMA buffer is a valid index whenever there are buffers.
    pub open spec fn wf(&self) -> bool {
        self.dma_buffers@.len() > 0 ==> self.current_buffer < self.dma_buffers@.len()
    }

    /// A stopped camera named `name`, default settings, no DMA buffers.
    pub fn new(name: &str) -> (c: Self)
        ensures
            c.wf(),
            c.device_info.vendor_id == 0x1234,
            c.device_info.product_id == 0x5678,
            c.device_info.device_class == DeviceClass::Camera,
            c.device_info.name@ == name@,
            c.device_info.serial_number@ == "CAM001"@,
            c.settings.trigger_mode == TriggerMode::FreeRun,
            c.settings.use_dma,
            c.settings.resolution is None,
            c.settings.buffer_count == 4,
            !c.is_streaming,
            c.frame_count == 0,
            c.dma_buffers@.len() == 0,
            c.current_buffer == 0,
    {
        CameraDriver {
            device_info: DeviceInfo {
                vendor_id: 0x1234,
                product_id: 0x5678,
                device_class: DeviceClass::Camera,
                name: name.to_string(),
                serial_number: "CAM001".to_string(),
            },
            settings: CameraSettings::default(),
            is_streaming: false,
            frame_count: 0,
            dma_buffers: Vec::new(),
            current_buffer: 0,
        }
    }

    pub fn with_device_info(self, info: DeviceInfo) -> (c: Self)
        ensures
            c == (CameraDriver { device_info: info, ..self }),
    {
        let mut c = self;
        c.device_info = info;
        c
    }

    /// Replaces `count` DMA buffers of `size` bytes, numbered from 0.
    pub fn register_dma_targets(&mut self, count: usize, size: usize)
        requires
            old(self).current_buffer < count || count == 0,
        ensures
            final(self).wf(),
            final(self).dma_buffers@.len() == count,
            forall|i: int| 0 <= i < count ==> (#[trigger] final(self).dma_buffers@[i]).id == i
                && final(self).dma_buffers@[i].size == size
                && final(self).dma_buffers@[i].data@.len() == size,
            final(self).current_buffer == old(self).current_buffer,
            final(self).settings == old(self).settings,
            final(self).is_streaming == old(self).is_streaming,
            final(self).frame_count == old(self).frame_count,
    {
        self.dma_buffers = make_dma_buffers(count, size);
    }

    /// Adopts `settings`; with DMA on, allocates `buffer_count` buffers of one
    /// RGB8 frame each (the frame size must fit in `u32`), starting again at
    /// the first.
    pub fn apply_settings(&mut self, settings: CameraSettings)
        requires
            settings.use_dma ==> frame_size(settings.resolution).0 * frame_size(settings.resolution).1 * 3 <= u32::MAX,
            !settings.use_dma ==> old(self).wf(),
        ensures
            final(self).wf(),
            final(self).settings == settings,
            settings.use_dma ==> {
                let (w, h) = frame_size(settings.resolution);
                &&& final(self).dma_buffers@.len() == settings.buffer_count
                &&& forall|i: int| 0 <= i < settings.buffer_count ==> (#[trigger] final(self).dma_buffers@[i]).id == i
                    && final(self).dma_buffers@[i].size == w * h * 3
                    && final(self).dma_buffers@[i].data@.len() == w * h * 3
                &&& final(self).current_buffer == 0
            },
            !settings.use_dma ==> final(self).dma_buffers == old(self).dma_buffers
                && final(self).current_buffer == old(self).current_buffer,
            final(self).is_streaming == old(self).is_streaming,
            final(self).frame_count == old(self).frame_count,
    {
        let use_dma = settings.use_dma;
        let resolution = settings.resolution;
        let count = settings.buffer_count;
        self.settings = settings;
        if use_dma {
            let (w, h) = match resolution {
                Some(r) => r,
                None => (640u32, 480u32),
            };
            let buffer_size = (w * h * 3) as usize;
            self.dma_buffers = make_dma_buffers(count, buffer_size);
            self.current_buffer = 0;
        }
    }

    /// Starts streaming and restarts the frame count.
    pub fn start(&mut self)
        ensures
            final(self).is_streaming,
            final(self).frame_count == 0,
            final(self).settings == old(self).settings,
            final(self).dma_buffers == old(self).dma_buffers,
            final(self).current_buffer == old(self).current_buffer,
    {
        self.is_streaming = true;
        self.frame_count = 0;
    }

    /// Stops streaming.
    pub fn stop(&mut self)
        ensures
            !final(self).is_streaming,
            final(self).frame_count == old(self).frame_count,
            final(self).settings == old(self).settings,
            final(self).dma_buffers == old(self).dma_buffers,
            final(self).current_buffer == old(self).current_buffer,
    {
        self.is_streaming = false;
    }

    pub fn is_streaming(&self) -> (b: bool)
        ensures
            b == self.is_streaming,
    {
        self.is_streaming
    }

    /// Captures a frame. With DMA on and buffers registered, the current buffer
    /// is filled with the frame's test pattern, the frame shares its bytes and
    /// the next buffer becomes current; otherwise the frame is a fresh zeroed
    /// RGB8 frame. Fails when the stream is stopped.
    pub fn capture_frame(&mut self) -> (r: Result<Image, HalError>)
        requires
            old(self).wf(),
            old(self).frame_count < u64::MAX,
            old(self).settings.use_dma && old(self).dma_buffers@.len() > 0 ==>
                old(self).frame_count + old(self).dma_buffers@[old(self).current_buffer as int].data@.len() <= u64::MAX + 1,
            !(old(self).settings.use_dma && old(self).dma_buffers@.len() > 0) ==>
                frame_size(old(self).settings.resolution).0 * frame_size(old(self).settings.resolution).1 * 3 <= u32::MAX,
        ensures
            final(self).wf(),
            !old(self).is_streaming ==> r == Err::<Image, HalError>(HalError::NotStreaming) && *final(self) == *old(self),
            old(self).is_streaming ==> ({
                let (w, h) = frame_size(old(self).settings.resolution);
                let dma = old(self).settings.use_dma && old(self).dma_buffers@.len() > 0;
                let cur = old(self).current_buffer as int;
                &&& r matches Ok(img) && img.width == w && img.height == h && img.format == ImageFormat::RGB8
                    && img.frame_id == old(self).frame_count + 1 && img.timestamp.nanosec < 1_000_000_000
                    && (dma ==> img.dma_buffer_id == Some(old(self).dma_buffers@[cur].id)
                        && img.data@ == Seq::new(old(self).dma_buffers@[cur].data@.len(), |i: int| pattern_byte(old(self).frame_count, i))
                        && final(self).dma_buffers@[cur].data@ == img.data@)
                    && (!dma ==> img.dma_buffer_id is None && img.data@ == Seq::new((w * h * 3) as nat, |i: int| 0u8))
                &&& final(self).frame_count == old(self).frame_count + 1
                &&& final(self).dma_buffers@.len() == old(self).dma_buffers@.len()
                &&& dma ==> final(self).current_buffer == (cur + 1) % (old(self).dma_buffers@.len() as int)
                &&& !dma ==> final(self).current_buffer == old(self).current_buffer
                    && final(self).dma_buffers == old(self).dma_buffers
            }),
            final(self).settings == old(self).settings,
            final(self).is_streaming == old(self).is_streaming,
    {
        if !self.is_streaming {
            return Err(HalError::NotStreaming);
        }
        let (width, height) = match self.settings.resolution {
            Some(r) => r,
            None => (640u32, 480u32),
        };
        let format = ImageFormat::RGB8;
        let (data, dma_id) = if self.settings.use_dma && self.dma_buffers.len() > 0 {
            let cur = self.current_buffer;
            let frame = self.frame_count;
            let mut buf = self.dma_buffers.remove(cur);
            buf.fill_pattern(frame);
            let dma_id = buf.id;
            let data = copy_bytes(&buf.data);
            self.dma_buffers.insert(cur, buf);
            self.current_buffer = (cur + 1) % self.dma_buffers.len();
            (data, Some(dma_id))
        } else {
            let expected_size = (width * height * (format.bpp() as u32)) as usize;
            (SimulatedDmaBuffer::new(0, expected_size).data, None)
        };
        self.frame_count = self.frame_count + 1;
        Ok(Image {
            timestamp: Timestamp::now(),
            width,
            height,
            format,
            data,
            frame_id: self.frame_count,
            dma_buffer_id: dma_id,
        })
    }
}

fn copy_bytes(v: &Vec<u8>) -> (r: Vec<u8>)
    ensures
        r@ == v@,
{
    let mut r: Vec<u8> = Vec::new();
    let mut i: usize = 0;
    while i < v.len()
        invariant
            i <= v@.len(),
            r@ == v@.take(i as int),
        decreases v@.len() - i,
    {
        r.push(v[i]);
        i = i + 1;
        assert(r@ =~= v@.take(i as int));
    }
    assert(v@.take(v@.len() as int) =~= v@);
    r
}

fn make_dma_buffers(count: usize, size: usize) -> (v: Vec<DmaBuffer>)
    ensures
        v@.len() == count,
        forall|i: int| 0 <= i < count ==> (#[trigger] v@[i]).id == i && v@[i].size == size && v@[i].data@.len() == size,
{
    let mut v: Vec<DmaBuffer> = Vec::new();
    let mut i: usize = 0;
    while i < count
        invariant
            i <= count,
            v@.len() == i,
            forall|j: int| 0 <= j < i ==> (#[trigger] v@[j]).id == j && v@[j].size == size && v@[j].data@.len() == size,
        decreases count - i,
    {
        v.push(SimulatedDmaBuffer::new(i, size));
        i = i + 1;
    }
    v
}

} // verus!
