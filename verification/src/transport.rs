//! Network transport: the message header and its 36-byte wire format, payload
//! checksums, compression engines, frame building and frame parsing for the UDP
//! and TCP paths, transport statistics and capability matching.
use vstd::prelude::*;
use std::time::Duration;
use crate::clock::{duration_as_nanos, duration_as_nanos_spec, duration_from_micros, wall_clock_seconds};
use crate::text::{decimal, hex_padded, push_decimal, push_hex_padded};
use crate::wire::{
    byte_sum, bytes_total, lemma_byte_sum_is_total_mod, from_le2, from_le4, from_le8, le2, le4, le8, lemma_le2_roundtrip, lemma_le4_roundtrip,
    lemma_le8_roundtrip, lemma_le2_of_bytes, lemma_le4_of_bytes, lemma_le8_of_bytes, push_u16_le, push_u32_le, push_u64_le, read_u16_le, read_u32_le, read_u64_le,
    wrapping_byte_sum, copy_range, extend_bytes,
};

verus! {

/// Why a header, frame or payload was rejected.
#[derive(Debug, Clone, PartialEq, Eq, Structural)]
pub enum TransportError {
    /// Fewer bytes than a header holds.
    BufferTooSmall { len: usize, needed: usize },
    InvalidMagic { expected: u32, got: u32 },
    UnsupportedVersion { version: u16 },
    ChecksumMismatch { expected: u32, computed: u32 },
    /// Decompression of an empty buffer.
    EmptyData,
    /// The advertised payload size does not fit in `usize` after the header.
    PayloadSizeOverflow,
    /// A datagram shorter than its header says.
    IncompletePacket { received: usize, needed: usize },
    /// A stream frame advertising more than the transport accepts.
    PayloadTooLarge { size: usize, max: usize },
    /// Stream bytes beyond one maximal frame without a parseable frame.
    ReceiveBufferOverflow,
    /// The lz4 decoder rejected the data.
    DecompressFailed,
}

/// The message reported for each error: decimal counts and sizes, and
/// eight lowercase hexadecimal digits for magic numbers and checksums.
pub open spec fn error_message(e: TransportError) -> Seq<char> {
    match e {
        TransportError::BufferTooSmall { len, needed } =>
            "Buffer too small: "@ + decimal(len as nat) + " < "@ + decimal(needed as nat),
        TransportError::InvalidMagic { expected, got } =>
            "Invalid magic number: expected "@ + hex_padded(expected as nat, 8) + ", got "@ + hex_padded(got as nat, 8),
        TransportError::UnsupportedVersion { version } =>
            "Unsupported protocol version: "@ + decimal(version as nat),
        TransportError::ChecksumMismatch { expected, computed } =>
            "Checksum mismatch: expected "@ + hex_padded(expected as nat, 8) + ", computed "@
                + hex_padded(computed as nat, 8) + " — corruption detected"@,
        TransportError::EmptyData => "Empty data"@,
        TransportError::PayloadSizeOverflow => "payload_size overflow"@,
        TransportError::IncompletePacket { received, needed } =>
            "Incomplete packet: got "@ + decimal(received as nat) + ", need "@ + decimal(needed as nat),
        TransportError::PayloadTooLarge { size, max } =>
            "Payload size "@ + decimal(size as nat) + " exceeds maximum frame size "@ + decimal(max as nat)
                + " (possible malicious peer)"@,
        TransportError::ReceiveBufferOverflow =>
            "TCP receive buffer exceeded maximum frame size without a parseable frame — stream junk"@,
        TransportError::DecompressFailed => "LZ4 decompress failed"@,
    }
}

impl TransportError {
    /// The message the transport reports for this error.
    pub fn message(&self) -> (m: String)
        ensures
            m@ == error_message(*self),
    {
        let mut m = String::new();
        match self {
            TransportError::BufferTooSmall { len, needed } => {
                m.append("Buffer too small: ");
                push_decimal(&mut m, *len as u64);
                m.append(" < ");
                push_decimal(&mut m, *needed as u64);
            },
            TransportError::InvalidMagic { expected, got } => {
                m.append("Invalid magic number: expected ");
                push_hex_padded(&mut m, *expected as u64, 8);
                m.append(", got ");
                push_hex_padded(&mut m, *got as u64, 8);
            },
            TransportError::UnsupportedVersion { version } => {
                m.append("Unsupported protocol version: ");
                push_decimal(&mut m, *version as u64);
            },
            TransportError::ChecksumMismatch { expected, computed } => {
                m.append("Checksum mismatch: expected ");
                push_hex_padded(&mut m, *expected as u64, 8);
                m.append(", computed ");
                push_hex_padded(&mut m, *computed as u64, 8);
                m.append(" — corruption detected");
            },
            TransportError::EmptyData => {
                m.append("Empty data");
            },
            TransportError::PayloadSizeOverflow => {
                m.append("payload_size overflow");
            },
            TransportError::IncompletePacket { received, needed } => {
                m.append("Incomplete packet: got ");
                push_decimal(&mut m, *received as u64);
                m.append(", need ");
                push_decimal(&mut m, *needed as u64);
            },
            TransportError::PayloadTooLarge { size, max } => {
                m.append("Payload size ");
                push_decimal(&mut m, *size as u64);
                m.append(" exceeds maximum frame size ");
                push_decimal(&mut m, *max as u64);
                m.append(" (possible malicious peer)");
            },
            TransportError::ReceiveBufferOverflow => {
                m.append("TCP receive buffer exceeded maximum frame size without a parseable frame — stream junk");
            },
            TransportError::DecompressFailed => {
                m.append("LZ4 decompress failed");
            },
        }
        proof {
            assert(m@ =~= error_message(*self));
        }
        m
    }
}

/// Fixed header in front of every payload on the wire.
#[derive(Debug, Clone, Copy, PartialEq, Eq, Structural)]
pub struct MessageHeader {
    pub magic: u32,
    pub version: u16,
    pub message_type: u16,
    pub payload_size: u32,
    pub timestamp_sec: u64,
    pub timestamp_nsec: u32,
    pub sequence: u64,
    pub checksum: u32,
}

/// "NROS" in ASCII.
pub const HEADER_MAGIC: u32 = 0x4E524F53;

/// Bytes of a header on the wire: the fields packed without padding.
pub const HEADER_SIZE: usize = 36;

pub const PROTOCOL_VERSION: u16 = 1;

/// The wire encoding of a header: its fields in declaration order, little endian.
pub open spec fn header_bytes(h: MessageHeader) -> Seq<u8> {
    le4(h.magic) + le2(h.version) + le2(h.message_type) + le4(h.payload_size) + le8(h.timestamp_sec)
        + le4(h.timestamp_nsec) + le8(h.sequence) + le4(h.checksum)
}

/// The header read from the first 36 bytes of `b`.
pub open spec fn header_from_bytes(b: Seq<u8>) -> MessageHeader {
    MessageHeader {
        magic: from_le4(b, 0),
        version: from_le2(b, 4),
        message_type: from_le2(b, 6),
        payload_size: from_le4(b, 8),
        timestamp_sec: from_le8(b, 12),
        timestamp_nsec: from_le4(b, 20),
        sequence: from_le8(b, 24),
        checksum: from_le4(b, 32),
    }
}

/// Encoding a header decoded from bytes gives back the 36 bytes it was read
/// from, whatever they were.
pub proof fn lemma_header_bytes_of_decoded(b: Seq<u8>)
    requires
        b.len() >= HEADER_SIZE,
    ensures
        header_bytes(header_from_bytes(b)) == b.subrange(0, HEADER_SIZE as int),
{
    lemma_le4_of_bytes(b, 0);
    lemma_le2_of_bytes(b, 4);
    lemma_le2_of_bytes(b, 6);
    lemma_le4_of_bytes(b, 8);
    lemma_le8_of_bytes(b, 12);
    lemma_le4_of_bytes(b, 20);
    lemma_le8_of_bytes(b, 24);
    lemma_le4_of_bytes(b, 32);
    assert(header_bytes(header_from_bytes(b)) =~= b.subrange(0, HEADER_SIZE as int));
}

/// The result `validate` gives for a header.
pub open spec fn validation(h: MessageHeader) -> Result<(), TransportError> {
    if h.magic != HEADER_MAGIC {
        Err(TransportError::InvalidMagic { expected: HEADER_MAGIC, got: h.magic })
    } else if h.version != PROTOCOL_VERSION {
        Err(TransportError::UnsupportedVersion { version: h.version })
    } else {
        Ok(())
    }
}

/// Decoding an encoded header gives the header back, whatever follows it.
pub proof fn lemma_header_roundtrip(h: MessageHeader, rest: Seq<u8>)
    ensures
        header_bytes(h).len() == HEADER_SIZE,
        header_from_bytes(header_bytes(h) + rest) == h,
{
    let a = le4(h.magic);
    let b = a + le2(h.version);
    let c = b + le2(h.message_type);
    let d = c + le4(h.payload_size);
    let e = d + le8(h.timestamp_sec);
    let f = e + le4(h.timestamp_nsec);
    let g = f + le8(h.sequence);
    let all = g + le4(h.checksum) + rest;
    assert(all =~= Seq::<u8>::empty() + le4(h.magic) + (le2(h.version) + le2(h.message_type) + le4(
        h.payload_size) + le8(h.timestamp_sec) + le4(h.timestamp_nsec) + le8(h.sequence) + le4(
        h.checksum) + rest));
    lemma_le4_roundtrip(h.magic, Seq::<u8>::empty(), le2(h.version) + le2(h.message_type) + le4(
        h.payload_size) + le8(h.timestamp_sec) + le4(h.timestamp_nsec) + le8(h.sequence) + le4(
        h.checksum) + rest);
    assert(all =~= a + le2(h.version) + (le2(h.message_type) + le4(h.payload_size) + le8(
        h.timestamp_sec) + le4(h.timestamp_nsec) + le8(h.sequence) + le4(h.checksum) + rest));
    lemma_le2_roundtrip(h.version, a, le2(h.message_type) + le4(h.payload_size) + le8(
        h.timestamp_sec) + le4(h.timestamp_nsec) + le8(h.sequence) + le4(h.checksum) + rest);
    assert(all =~= b + le2(h.message_type) + (le4(h.payload_size) + le8(h.timestamp_sec) + le4(
        h.timestamp_nsec) + le8(h.sequence) + le4(h.checksum) + rest));
    lemma_le2_roundtrip(h.message_type, b, le4(h.payload_size) + le8(h.timestamp_sec) + le4(
        h.timestamp_nsec) + le8(h.sequence) + le4(h.checksum) + rest);
    assert(all =~= c + le4(h.payload_size) + (le8(h.timestamp_sec) + le4(h.timestamp_nsec) + le8(
        h.sequence) + le4(h.checksum) + rest));
    lemma_le4_roundtrip(h.payload_size, c, le8(h.timestamp_sec) + le4(h.timestamp_nsec) + le8(
        h.sequence) + le4(h.checksum) + rest);
    assert(all =~= d + le8(h.timestamp_sec) + (le4(h.timestamp_nsec) + le8(h.sequence) + le4(
        h.checksum) + rest));
    lemma_le8_roundtrip(h.timestamp_sec, d, le4(h.timestamp_nsec) + le8(h.sequence) + le4(
        h.checksum) + rest);
    assert(all =~= e + le4(h.timestamp_nsec) + (le8(h.sequence) + le4(h.checksum) + rest));
    lemma_le4_roundtrip(h.timestamp_nsec, e, le8(h.sequence) + le4(h.checksum) + rest);
    assert(all =~= f + le8(h.sequence) + (le4(h.checksum) + rest));
    lemma_le8_roundtrip(h.sequence, f, le4(h.checksum) + rest);
    assert(all =~= g + le4(h.checksum) + rest);
    lemma_le4_roundtrip(h.checksum, g, rest);
    assert(header_bytes(h) + rest =~= all);
}

impl MessageHeader {
    /// Bytes of a header on the wire.
    pub const SIZE: usize = 36;

    /// A header for a payload of `payload_size` bytes, stamped with the current
    /// wall-clock time and a zero checksum.
    pub fn new(message_type: u16, payload_size: u32, sequence: u64) -> (h: Self)
        ensures
            h.magic == HEADER_MAGIC,
            h.version == PROTOCOL_VERSION,
            h.message_type == message_type,
            h.payload_size == payload_size,
            h.sequence == sequence,
            h.checksum == 0,
            h.timestamp_nsec < 1_000_000_000,
    {
        let (sec, nsec) = wall_clock_seconds();
        Self::with_timestamp(message_type, payload_size, sequence, sec, nsec)
    }

    /// A header with an explicit timestamp and a zero checksum.
    pub fn with_timestamp(message_type: u16, payload_size: u32, sequence: u64, sec: u64, nsec: u32) -> (h: Self)
        ensures
            h == (MessageHeader {
                magic: HEADER_MAGIC,
                version: PROTOCOL_VERSION,
                message_type,
                payload_size,
                timestamp_sec: sec,
                timestamp_nsec: nsec,
                sequence,
                checksum: 0,
            }),
    {
        MessageHeader {
            magic: HEADER_MAGIC,
            version: PROTOCOL_VERSION,
            message_type,
            payload_size,
            timestamp_sec: sec,
            timestamp_nsec: nsec,
            sequence,
            checksum: 0,
        }
    }

    /// The header with its checksum set to the wrapping byte sum of `payload`.
    pub fn with_checksum(self, payload: &[u8]) -> (h: Self)
        ensures
            h == (MessageHeader { checksum: byte_sum(payload@), ..self }),
    {
        let mut h = self;
        h.checksum = wrapping_byte_sum(payload);
        h
    }

    /// Checks that `payload` sums to the recorded checksum.
    pub fn verify_checksum(&self, payload: &[u8]) -> (r: Result<(), TransportError>)
        ensures
            r == (if byte_sum(payload@) == self.checksum {
                Ok(())
            } else {
                Err(TransportError::ChecksumMismatch { expected: self.checksum, computed: byte_sum(payload@) })
            }),
    {
        let sum = wrapping_byte_sum(payload);
        if sum != self.checksum {
            return Err(TransportError::ChecksumMismatch { expected: self.checksum, computed: sum });
        }
        Ok(())
    }

    /// The header with its checksum set to the CRC-32 of `payload`.
    pub fn with_crc32_checksum(self, payload: &[u8]) -> (h: Self)
        ensures
            h == (MessageHeader { checksum: crc32_spec(payload@), ..self }),
    {
        let mut h = self;
        h.checksum = crc32(payload);
        h
    }

    /// Checks that the CRC-32 of `payload` is the recorded checksum.
    pub fn verify_crc32_checksum(&self, payload: &[u8]) -> (r: Result<(), TransportError>)
        ensures
            r == (if crc32_spec(payload@) == self.checksum {
                Ok(())
            } else {
                Err(TransportError::ChecksumMismatch { expected: self.checksum, computed: crc32_spec(payload@) })
            }),
    {
        let sum = crc32(payload);
        if sum != self.checksum {
            return Err(TransportError::ChecksumMismatch { expected: self.checksum, computed: sum });
        }
        Ok(())
    }

    /// Accepts exactly the headers with the NROS magic and protocol version 1.
    pub fn validate(&self) -> (r: Result<(), TransportError>)
        ensures
            r == validation(*self),
    {
        if self.magic != HEADER_MAGIC {
            return Err(TransportError::InvalidMagic { expected: HEADER_MAGIC, got: self.magic });
        }
        if self.version != PROTOCOL_VERSION {
            return Err(TransportError::UnsupportedVersion { version: self.version });
        }
        Ok(())
    }

    /// The 36-byte wire encoding.
    pub fn to_bytes(&self) -> (b: Vec<u8>)
        ensures
            b@ == header_bytes(*self),
            b@.len() == HEADER_SIZE,
    {
        let mut bytes: Vec<u8> = Vec::with_capacity(HEADER_SIZE);
        push_u32_le(&mut bytes, self.magic);
        push_u16_le(&mut bytes, self.version);
        push_u16_le(&mut bytes, self.message_type);
        push_u32_le(&mut bytes, self.payload_size);
        push_u64_le(&mut bytes, self.timestamp_sec);
        push_u32_le(&mut bytes, self.timestamp_nsec);
        push_u64_le(&mut bytes, self.sequence);
        push_u32_le(&mut bytes, self.checksum);
        assert(bytes@ =~= header_bytes(*self));
        bytes
    }

    /// Reads a header from the first 36 bytes; fails on a shorter buffer.
    pub fn from_bytes(bytes: &[u8]) -> (r: Result<Self, TransportError>)
        ensures
            r == (if bytes@.len() < HEADER_SIZE {
                Err(TransportError::BufferTooSmall { len: bytes@.len() as usize, needed: HEADER_SIZE })
            } else {
                Ok(header_from_bytes(bytes@))
            }),
            r matches Ok(h) ==> header_bytes(h) == bytes@.subrange(0, HEADER_SIZE as int),
    {
        if bytes.len() < HEADER_SIZE {
            return Err(TransportError::BufferTooSmall { len: bytes.len(), needed: HEADER_SIZE });
        }
        proof {
            lemma_header_bytes_of_decoded(bytes@);
        }
        Ok(MessageHeader {
            magic: read_u32_le(bytes, 0),
            version: read_u16_le(bytes, 4),
            message_type: read_u16_le(bytes, 6),
            payload_size: read_u32_le(bytes, 8),
            timestamp_sec: read_u64_le(bytes, 12),
            timestamp_nsec: read_u32_le(bytes, 20),
            sequence: read_u64_le(bytes, 24),
            checksum: read_u32_le(bytes, 32),
        })
    }

    /// Milliseconds since the header's timestamp, by the wall clock at the call.
    pub fn age_ms(&self) -> (ms: u64) {
        let (sec, nsec) = wall_clock_seconds();
        age_between(sec, nsec, self.timestamp_sec, self.timestamp_nsec)
    }
}

/// Milliseconds from the instant `(then_sec, then_nsec)` to `(now_sec, now_nsec)`,
/// each truncated to whole milliseconds, with 64-bit wrap-around.
pub fn age_between(now_sec: u64, now_nsec: u32, then_sec: u64, then_nsec: u32) -> (ms: u64)
    ensures
        ms == ((now_sec as u64).wrapping_mul(1000).wrapping_add((now_nsec / 1_000_000) as u64))
            .wrapping_sub((then_sec as u64).wrapping_mul(1000).wrapping_add((then_nsec / 1_000_000) as u64)),
{
    let now_ms = now_sec.wrapping_mul(1000).wrapping_add((now_nsec / 1_000_000) as u64);
    let then_ms = then_sec.wrapping_mul(1000).wrapping_add((then_nsec / 1_000_000) as u64);
    now_ms.wrapping_sub(then_ms)
}

/// The CRC-32 (IEEE) of a byte sequence, as `crc32fast::hash` computes it.
pub uninterp spec fn crc32_spec(data: Seq<u8>) -> u32;

/// `crc32fast::hash`: CRC-32 of `data`. The value is a function of the bytes alone.
#[verifier::external_body]
fn crc32(data: &[u8]) -> (c: u32)
    ensures
        c == crc32_spec(data@),
{
    crc32fast::hash(data)
}

// ---------------------------------------------------------------------------
// Serialization
// ---------------------------------------------------------------------------

/// Types with a byte encoding, implemented by message types.
pub trait Serializable: Sized {
    fn serialize(&self, buffer: &mut Vec<u8>) -> Result<(), String>;

    fn deserialize(buffer: &[u8]) -> Result<Self, String>;

    fn serialized_size(&self) -> usize;
}

/// An opaque large message (image, point cloud) with an identifier.
#[derive(Debug, Clone)]
pub struct LargePayload {
    pub data: Vec<u8>,
    pub id: u64,
}

/// Encoding of a large payload: identifier, 32-bit length, then the bytes.
pub open spec fn large_payload_bytes(id: u64, data: Seq<u8>) -> Seq<u8> {
    le8(id) + le4(data.len() as u32) + data
}

/// How `LargePayload::deserialize` reads a buffer: `Ok((id, data))` or the reason it fails.
pub open spec fn large_payload_parse(b: Seq<u8>) -> Result<(u64, Seq<u8>), Seq<char>> {
    if b.len() < 12 {
        Err("LargePayload header too small"@)
    } else {
        let len = from_le4(b, 8) as int;
        if 12 + len > usize::MAX {
            Err("LargePayload length overflow"@)
        } else if b.len() < 12 + len {
            Err("LargePayload incomplete"@)
        } else {
            Ok((from_le8(b, 0), b.subrange(12, 12 + len)))
        }
    }
}

/// Reading back an encoded large payload gives its identifier and bytes, when
/// its length fits the 32-bit length field.
pub proof fn lemma_large_payload_roundtrip(id: u64, data: Seq<u8>)
    requires
        data.len() <= u32::MAX,
        12 + data.len() <= usize::MAX,
    ensures
        large_payload_parse(large_payload_bytes(id, data)) == Ok::<(u64, Seq<u8>), Seq<char>>((id, data)),
{
    let b = large_payload_bytes(id, data);
    lemma_le8_roundtrip(id, Seq::<u8>::empty(), le4(data.len() as u32) + data);
    assert(b =~= Seq::<u8>::empty() + le8(id) + (le4(data.len() as u32) + data));
    lemma_le4_roundtrip(data.len() as u32, le8(id), data);
    assert(b =~= le8(id) + le4(data.len() as u32) + data);
    assert(b.subrange(12, 12 + data.len() as int) =~= data);
}

impl Serializable for LargePayload {
    fn serialize(&self, buffer: &mut Vec<u8>) -> (r: Result<(), String>)
        ensures
            r is Ok,
            final(buffer)@ == old(buffer)@ + large_payload_bytes(self.id, self.data@),
    {
        push_u64_le(buffer, self.id);
        #[verifier::truncate]
        let len = self.data.len() as u32;
        push_u32_le(buffer, len);
        extend_bytes(buffer, self.data.as_slice());
        Ok(())
    }

    fn deserialize(buffer: &[u8]) -> (r: Result<Self, String>)
        ensures
            match large_payload_parse(buffer@) {
                Ok((id, data)) => r matches Ok(p) && p.id == id && p.data@ == data,
                Err(msg) => r matches Err(e) && e@ == msg,
            },
    {
        if buffer.len() < 12 {
            return Err("LargePayload header too small".to_owned());
        }
        let id = read_u64_le(buffer, 0);
        let len = read_u32_le(buffer, 8) as usize;
        let needed = match 12usize.checked_add(len) {
            Some(n) => n,
            None => {
                return Err("LargePayload length overflow".to_owned());
            },
        };
        if buffer.len() < needed {
            return Err("LargePayload incomplete".to_owned());
        }
        Ok(LargePayload { id, data: copy_range(buffer, 12, needed) })
    }

    fn serialized_size(&self) -> (n: usize)
        ensures
            n == 12usize.wrapping_add(self.data@.len() as usize),
    {
        12usize.wrapping_add(self.data.len())
    }
}

// ---------------------------------------------------------------------------
// Compression
// ---------------------------------------------------------------------------

/// Compression engines, so transports can be written over either kind.
pub trait CompressionEngineTrait {
    fn should_compress(&self, data: &[u8]) -> bool;

    fn compress(&self, data: &[u8]) -> Vec<u8>;

    fn decompress(&self, data: &[u8]) -> Result<Vec<u8>, TransportError>;

    fn is_simulated(&self) -> bool;

    fn name(&self) -> &'static str;
}

/// Marks `data` with a leading flag byte.
pub open spec fn flagged(flag: u8, data: Seq<u8>) -> Seq<u8> {
    seq![flag] + data
}

/// Strips a leading flag byte no greater than `max_flag`; data with another
/// leading byte passes through; empty data is an error.
pub open spec fn unflag(data: Seq<u8>, max_flag: u8) -> Result<Seq<u8>, TransportError> {
    if data.len() == 0 {
        Err(TransportError::EmptyData)
    } else if data[0] <= max_flag {
        Ok(data.drop_first())
    } else {
        Ok(data)
    }
}

/// Removing a flag that `unflag` accepts gives the data back.
pub proof fn lemma_unflag_flagged(flag: u8, max_flag: u8, data: Seq<u8>)
    requires
        flag <= max_flag,
    ensures
        unflag(flagged(flag, data), max_flag) == Ok::<Seq<u8>, TransportError>(data),
{
    assert(flagged(flag, data).drop_first() =~= data);
}

fn flag_bytes(flag: u8, data: &[u8]) -> (v: Vec<u8>)
    ensures
        v@ == flagged(flag, data@),
{
    let mut v: Vec<u8> = Vec::new();
    v.push(flag);
    extend_bytes(&mut v, data);
    assert(v@ =~= flagged(flag, data@));
    v
}

fn unflag_bytes(data: &[u8], max_flag: u8) -> (r: Result<Vec<u8>, TransportError>)
    ensures
        match unflag(data@, max_flag) {
            Ok(d) => r matches Ok(v) && v@ == d,
            Err(e) => r == Err::<Vec<u8>, TransportError>(e),
        },
{
    if data.len() == 0 {
        return Err(TransportError::EmptyData);
    }
    if data[0] <= max_flag {
        let v = copy_range(data, 1, data.len());
        assert(v@ =~= data@.drop_first());
        Ok(v)
    } else {
        Ok(copy_range(data, 0, data.len()))
    }
}

/// Stand-in compression: prefixes the data with flag 1 and does not compress.
#[derive(Debug, Clone)]
pub struct MockCompressionEngine {
    pub threshold_bytes: usize,
}

pub type CompressionEngine = MockCompressionEngine;

impl MockCompressionEngine {
    pub fn new(threshold_bytes: usize) -> (e: Self)
        ensures
            e.threshold_bytes == threshold_bytes,
    {
        MockCompressionEngine { threshold_bytes }
    }
}

impl CompressionEngineTrait for MockCompressionEngine {
    /// Only data longer than the threshold is compressed.
    fn should_compress(&self, data: &[u8]) -> (b: bool)
        ensures
            b == (data@.len() > self.threshold_bytes),
    {
        data.len() > self.threshold_bytes
    }

    fn compress(&self, data: &[u8]) -> (v: Vec<u8>)
        ensures
            v@ == flagged(1, data@),
    {
        flag_bytes(1, data)
    }

    /// Strips flag 0 (uncompressed) or 1 (mock-compressed).
    fn decompress(&self, data: &[u8]) -> (r: Result<Vec<u8>, TransportError>)
        ensures
            match unflag(data@, 1) {
                Ok(d) => r matches Ok(v) && v@ == d,
                Err(e) => r == Err::<Vec<u8>, TransportError>(e),
            },
    {
        unflag_bytes(data, 1)
    }

    fn is_simulated(&self) -> (b: bool)
        ensures
            b,
    {
        true
    }

    fn name(&self) -> (n: &'static str)
        ensures
            n@ == "MockCompression (SIMULATED)"@,
    {
        "MockCompression (SIMULATED)"
    }
}

impl Default for MockCompressionEngine {
    fn default() -> (e: Self)
        ensures
            e.threshold_bytes == 1024,
    {
        Self::new(1024)
    }
}

/// LZ4 engine. Its trait methods use the flag-2 placeholder framing; the
/// `*_lz4` methods run the lz4 block codec with the size prepended.
#[derive(Debug, Clone)]
pub struct Lz4CompressionEngine {
    pub threshold_bytes: usize,
}

impl Lz4CompressionEngine {
    pub fn new(threshold_bytes: usize) -> (e: Self)
        ensures
            e.threshold_bytes == threshold_bytes,
    {
        Lz4CompressionEngine { threshold_bytes }
    }

    /// LZ4 block compression with the uncompressed size prepended.
    pub fn compress_lz4(&self, data: &[u8]) -> (v: Vec<u8>)
        ensures
            v@ == lz4_compressed_spec(data@),
            data@.len() <= u32::MAX ==> lz4_decompressed_spec(v@) == Some(data@),
    {
        lz4_compress_prepend_size(data)
    }

    /// Inverse of `compress_lz4`; malformed input is rejected.
    pub fn decompress_lz4(&self, data: &[u8]) -> (r: Result<Vec<u8>, TransportError>)
        ensures
            match lz4_decompressed_spec(data@) {
                Some(d) => r matches Ok(v) && v@ == d,
                None => r == Err::<Vec<u8>, TransportError>(TransportError::DecompressFailed),
            },
    {
        match lz4_decompress_size_prepended(data) {
            Ok(v) => Ok(v),
            Err(_) => Err(TransportError::DecompressFailed),
        }
    }
}

impl CompressionEngineTrait for Lz4CompressionEngine {
    fn should_compress(&self, data: &[u8]) -> (b: bool)
        ensures
            b == (data@.len() > self.threshold_bytes),
    {
        data.len() > self.threshold_bytes
    }

    fn compress(&self, data: &[u8]) -> (v: Vec<u8>)
        ensures
            v@ == flagged(2, data@),
    {
        flag_bytes(2, data)
    }

    /// Strips flag 0, 1 or 2.
    fn decompress(&self, data: &[u8]) -> (r: Result<Vec<u8>, TransportError>)
        ensures
            match unflag(data@, 2) {
                Ok(d) => r matches Ok(v) && v@ == d,
                Err(e) => r == Err::<Vec<u8>, TransportError>(e),
            },
    {
        unflag_bytes(data, 2)
    }

    fn is_simulated(&self) -> (b: bool)
        ensures
            b,
    {
        true
    }

    fn name(&self) -> (n: &'static str)
        ensures
            n@ == "Lz4Compression (SCAFFOLDED — enable feature real-compression)"@,
    {
        "Lz4Compression (SCAFFOLDED — enable feature real-compression)"
    }
}

impl Default for Lz4CompressionEngine {
    fn default() -> (e: Self)
        ensures
            e.threshold_bytes == 1024,
    {
        Self::new(1024)
    }
}

#[verifier::external_type_specification]
#[verifier::external_body]
pub struct ExDecompressError(lz4_flex::block::DecompressError);

/// What `lz4_flex::compress_prepend_size` returns for the given bytes.
pub uninterp spec fn lz4_compressed_spec(data: Seq<u8>) -> Seq<u8>;

/// What `lz4_flex::decompress_size_prepended` returns for the given bytes:
/// `Some` of the decoded bytes, or `None` when it reports an error.
pub uninterp spec fn lz4_decompressed_spec(data: Seq<u8>) -> Option<Seq<u8>>;

/// `lz4_flex::compress_prepend_size`: LZ4 block compression with the input
/// length prepended as a little-endian `u32`. The crate documents
/// `decompress_size_prepended` as its inverse; that is stated for inputs whose
/// length the 32-bit prefix can hold.
#[verifier::external_body]
fn lz4_compress_prepend_size(data: &[u8]) -> (v: Vec<u8>)
    ensures
        v@ == lz4_compressed_spec(data@),
        data@.len() <= u32::MAX ==> lz4_decompressed_spec(v@) == Some(data@),
{
    lz4_flex::compress_prepend_size(data)
}

/// `lz4_flex::decompress_size_prepended`: decodes a size-prefixed LZ4 block,
/// or reports malformed input.
#[verifier::external_body]
fn lz4_decompress_size_prepended(data: &[u8]) -> (r: Result<Vec<u8>, lz4_flex::block::DecompressError>)
    ensures
        match lz4_decompressed_spec(data@) {
            Some(d) => r matches Ok(v) && v@ == d,
            None => r is Err,
        },
{
    lz4_flex::decompress_size_prepended(data)
}

// ---------------------------------------------------------------------------
// Frames
// ---------------------------------------------------------------------------

/// The payload as it goes on the wire: flag 1 and the bytes when the engine
/// compresses them, flag 0 and the bytes otherwise.
pub open spec fn wire_payload(threshold: usize, payload: Seq<u8>) -> Seq<u8> {
    if payload.len() > threshold {
        flagged(1, payload)
    } else {
        flagged(0, payload)
    }
}

/// The header sent in front of a wire payload.
pub open spec fn frame_header(wire: Seq<u8>, sequence: u64, sec: u64, nsec: u32) -> MessageHeader {
    MessageHeader {
        magic: HEADER_MAGIC,
        version: PROTOCOL_VERSION,
        message_type: 0,
        payload_size: wire.len() as u32,
        timestamp_sec: sec,
        timestamp_nsec: nsec,
        sequence,
        checksum: byte_sum(wire),
    }
}

/// Builds the packet that carries a serialized message: header then wire
/// payload. A compressed send is counted in `stats`.
pub fn encode_frame(
    engine: &MockCompressionEngine,
    stats: &mut TransportStats,
    payload: &[u8],
    sequence: u64,
    sec: u64,
    nsec: u32,
) -> (frame: Vec<u8>)
    ensures
        ({
            let wire = wire_payload(engine.threshold_bytes, payload@);
            frame@ == header_bytes(frame_header(wire, sequence, sec, nsec)) + wire
        }),
        final(stats).compressed_messages == if payload@.len() > engine.threshold_bytes {
            old(stats).compressed_messages.wrapping_add(1)
        } else {
            old(stats).compressed_messages
        },
        final(stats).messages_sent == old(stats).messages_sent,
        final(stats).messages_received == old(stats).messages_received,
        final(stats).bytes_sent == old(stats).bytes_sent,
        final(stats).bytes_received == old(stats).bytes_received,
        final(stats).total_send_time_us == old(stats).total_send_time_us,
        final(stats).max_send_time_us == old(stats).max_send_time_us,
{
    let wire = if engine.should_compress(payload) {
        stats.compressed_messages = stats.compressed_messages.wrapping_add(1);
        engine.compress(payload)
    } else {
        flag_bytes(0, payload)
    };
    #[verifier::truncate]
    let size = wire.len() as u32;
    let header = MessageHeader::with_timestamp(0, size, sequence, sec, nsec).with_checksum(wire.as_slice());
    let mut frame = header.to_bytes();
    extend_bytes(&mut frame, wire.as_slice());
    frame
}

/// What a received datagram holds, after header checks, checksum and
/// decompression: `None` for a datagram too short to hold a header.
pub open spec fn datagram_result(b: Seq<u8>) -> Result<Option<(MessageHeader, Seq<u8>)>, TransportError> {
    if b.len() < HEADER_SIZE {
        Ok(None)
    } else {
        let h = header_from_bytes(b);
        let end = HEADER_SIZE + h.payload_size;
        if validation(h) is Err {
            Err(validation(h)->Err_0)
        } else if end > usize::MAX {
            Err(TransportError::PayloadSizeOverflow)
        } else if end > b.len() {
            Err(TransportError::IncompletePacket { received: b.len() as usize, needed: end as usize })
        } else {
            let payload = b.subrange(HEADER_SIZE as int, end);
            if byte_sum(payload) != h.checksum {
                Err(TransportError::ChecksumMismatch { expected: h.checksum, computed: byte_sum(payload) })
            } else {
                match unflag(payload, 1) {
                    Ok(d) => Ok(Some((h, d))),
                    Err(e) => Err(e),
                }
            }
        }
    }
}

/// Checks and unpacks the first `size` bytes of `buffer`, a received datagram.
pub fn decode_datagram(engine: &MockCompressionEngine, buffer: &[u8], size: usize) -> (r: Result<
    Option<(MessageHeader, Vec<u8>)>,
    TransportError,
>)
    requires
        size <= buffer@.len(),
    ensures
        match datagram_result(buffer@.subrange(0, size as int)) {
            Ok(None) => r matches Ok(None),
            Ok(Some((h, d))) => r matches Ok(Some((h2, v))) && h2 == h && v@ == d,
            Err(e) => r == Err::<Option<(MessageHeader, Vec<u8>)>, TransportError>(e),
        },
{
    let ghost b = buffer@.subrange(0, size as int);
    if size < HEADER_SIZE {
        return Ok(None);
    }
    let header = match MessageHeader::from_bytes(buffer) {
        Ok(h) => h,
        Err(e) => {
            return Err(e);
        },
    };
    assert(header == header_from_bytes(b));
    match header.validate() {
        Ok(()) => {},
        Err(e) => {
            return Err(e);
        },
    }
    let payload_end = match HEADER_SIZE.checked_add(header.payload_size as usize) {
        Some(end) => end,
        None => {
            return Err(TransportError::PayloadSizeOverflow);
        },
    };
    if payload_end > size {
        return Err(TransportError::IncompletePacket { received: size, needed: payload_end });
    }
    let payload = copy_range(buffer, HEADER_SIZE, payload_end);
    assert(payload@ =~= b.subrange(HEADER_SIZE as int, payload_end as int));
    match header.verify_checksum(payload.as_slice()) {
        Ok(()) => {},
        Err(e) => {
            return Err(e);
        },
    }
    match engine.decompress(payload.as_slice()) {
        Ok(d) => Ok(Some((header, d))),
        Err(e) => Err(e),
    }
}

/// Largest payload a stream frame may advertise: 64 MiB.
pub const MAX_PAYLOAD_SIZE: usize = 67108864;

/// Largest receive buffer kept while waiting for a frame: one maximal frame.
pub const MAX_RX_BUFFER: usize = 67108900;

/// One step of stream reassembly over the bytes received so far: the buffer
/// left afterwards and what the step yields.
pub open spec fn stream_step(rx: Seq<u8>) -> (Seq<u8>, Result<Option<(MessageHeader, Seq<u8>)>, TransportError>) {
    if rx.len() > MAX_RX_BUFFER {
        (Seq::<u8>::empty(), Err(TransportError::ReceiveBufferOverflow))
    } else if rx.len() < HEADER_SIZE {
        (rx, Ok(None))
    } else {
        let h = header_from_bytes(rx);
        let len = h.payload_size as int;
        if validation(h) is Err {
            (rx, Err(validation(h)->Err_0))
        } else if len > MAX_PAYLOAD_SIZE {
            (rx, Err(TransportError::PayloadTooLarge { size: len as usize, max: MAX_PAYLOAD_SIZE }))
        } else if rx.len() < HEADER_SIZE + len {
            (rx, Ok(None))
        } else {
            let payload = rx.subrange(HEADER_SIZE as int, HEADER_SIZE + len);
            let rest = rx.subrange(HEADER_SIZE + len, rx.len() as int);
            if byte_sum(payload) != h.checksum {
                (rest, Err(TransportError::ChecksumMismatch { expected: h.checksum, computed: byte_sum(payload) }))
            } else {
                match unflag(payload, 1) {
                    Ok(d) => (rest, Ok(Some((h, d)))),
                    Err(e) => (rest, Err(e)),
                }
            }
        }
    }
}

/// Takes the next complete frame off a stream's receive buffer. An incomplete
/// frame leaves the buffer untouched; a complete one is removed from it.
pub fn next_stream_frame(engine: &MockCompressionEngine, rx_buf: &mut Vec<u8>) -> (r: Result<
    Option<(MessageHeader, Vec<u8>)>,
    TransportError,
>)
    ensures
        final(rx_buf)@ == stream_step(old(rx_buf)@).0,
        match stream_step(old(rx_buf)@).1 {
            Ok(None) => r matches Ok(None),
            Ok(Some((h, d))) => r matches Ok(Some((h2, v))) && h2 == h && v@ == d,
            Err(e) => r == Err::<Option<(MessageHeader, Vec<u8>)>, TransportError>(e),
        },
{
    if rx_buf.len() > MAX_RX_BUFFER {
        rx_buf.clear();
        return Err(TransportError::ReceiveBufferOverflow);
    }
    if rx_buf.len() < HEADER_SIZE {
        return Ok(None);
    }
    let header = match MessageHeader::from_bytes(rx_buf.as_slice()) {
        Ok(h) => h,
        Err(e) => {
            return Err(e);
        },
    };
    match header.validate() {
        Ok(()) => {},
        Err(e) => {
            return Err(e);
        },
    }
    let payload_len = header.payload_size as usize;
    if payload_len > MAX_PAYLOAD_SIZE {
        return Err(TransportError::PayloadTooLarge { size: payload_len, max: MAX_PAYLOAD_SIZE });
    }
    let frame_len = HEADER_SIZE + payload_len;
    if rx_buf.len() < frame_len {
        return Ok(None);
    }
    let payload = copy_range(rx_buf.as_slice(), HEADER_SIZE, frame_len);
    let rest = copy_range(rx_buf.as_slice(), frame_len, rx_buf.len());
    *rx_buf = rest;
    match header.verify_checksum(payload.as_slice()) {
        Ok(()) => {},
        Err(e) => {
            return Err(e);
        },
    }
    match engine.decompress(payload.as_slice()) {
        Ok(d) => Ok(Some((header, d))),
        Err(e) => Err(e),
    }
}

/// A received datagram is delivered only intact: whatever `decode_datagram`
/// hands over came with a valid header read from the first 36 bytes, a payload
/// that fits in the datagram, and payload bytes whose sum modulo 2^32 is the
/// header's checksum; it is the payload without its flag byte (0 or 1) or, for
/// another first byte, the payload itself. A complete datagram with a valid
/// header whose payload sums otherwise is refused as a checksum mismatch that
/// names the header's sum and the computed one.
pub proof fn law_datagram_checksum(b: Seq<u8>)
    ensures
        ({
            let h = header_from_bytes(b);
            let end = HEADER_SIZE + h.payload_size;
            datagram_result(b) matches Ok(Some((h2, d))) ==> {
                &&& h2 == h
                &&& h.magic == HEADER_MAGIC && h.version == PROTOCOL_VERSION
                &&& b.len() >= end
                &&& bytes_total(b.subrange(HEADER_SIZE as int, end)) % 0x1_0000_0000 == h.checksum
                &&& end > HEADER_SIZE
                &&& d == if b[HEADER_SIZE as int] <= 1 {
                    b.subrange(HEADER_SIZE + 1, end)
                } else {
                    b.subrange(HEADER_SIZE as int, end)
                }
            }
        }),
        ({
            let h = header_from_bytes(b);
            let end = HEADER_SIZE + h.payload_size;
            let sum = bytes_total(b.subrange(HEADER_SIZE as int, end)) % 0x1_0000_0000;
            (HEADER_SIZE <= b.len() <= usize::MAX && h.magic == HEADER_MAGIC && h.version == PROTOCOL_VERSION
                && end <= b.len() && sum != h.checksum) ==> datagram_result(b) == Err::<Option<(MessageHeader, Seq<u8>)>, TransportError>(
                TransportError::ChecksumMismatch { expected: h.checksum, computed: sum as u32 })
        }),
{
    let h = header_from_bytes(b);
    let end = HEADER_SIZE + h.payload_size;
    if b.len() >= HEADER_SIZE && end <= b.len() {
        let payload = b.subrange(HEADER_SIZE as int, end);
        lemma_byte_sum_is_total_mod(payload);
        if payload.len() > 0 {
            assert(payload[0] == b[HEADER_SIZE as int]);
            assert(payload.drop_first() =~= b.subrange(HEADER_SIZE + 1, end));
        }
    }
}

/// Once a whole frame is in a stream's receive buffer, one receive step takes
/// off exactly that frame, whatever its checksum says: afterwards the buffer
/// holds just the bytes that followed the frame. The frame's payload is
/// delivered when its bytes sum modulo 2^32 to the header's checksum, and
/// otherwise refused as a checksum mismatch. While the frame is incomplete, or
/// the header itself is, the step takes and delivers nothing. (A header is
/// valid with the right magic and version and a payload within the limit; a
/// buffer beyond `MAX_RX_BUFFER` is discarded instead.)
pub proof fn law_stream_step_takes_one_frame(rx: Seq<u8>)
    ensures
        rx.len() < HEADER_SIZE ==> stream_step(rx) == (rx, Ok::<Option<(MessageHeader, Seq<u8>)>, TransportError>(None)),
        ({
            let h = header_from_bytes(rx);
            let end = HEADER_SIZE + h.payload_size;
            let payload = rx.subrange(HEADER_SIZE as int, end);
            let sum = bytes_total(payload) % 0x1_0000_0000;
            (HEADER_SIZE <= rx.len() <= MAX_RX_BUFFER && h.magic == HEADER_MAGIC && h.version == PROTOCOL_VERSION
                && h.payload_size <= MAX_PAYLOAD_SIZE) ==> {
                &&& rx.len() < end ==> stream_step(rx) == (rx, Ok::<Option<(MessageHeader, Seq<u8>)>, TransportError>(None))
                &&& rx.len() >= end ==> stream_step(rx).0 == rx.subrange(end, rx.len() as int)
                &&& rx.len() >= end && sum != h.checksum ==> stream_step(rx).1 == Err::<Option<(MessageHeader, Seq<u8>)>, TransportError>(
                    TransportError::ChecksumMismatch { expected: h.checksum, computed: sum as u32 })
                &&& rx.len() >= end && sum == h.checksum && h.payload_size > 0 ==> stream_step(rx).1
                    == Ok::<Option<(MessageHeader, Seq<u8>)>, TransportError>(Some((h, if payload[0] <= 1 {
                    payload.drop_first()
                } else {
                    payload
                })))
            }
        }),
{
    let h = header_from_bytes(rx);
    let end = HEADER_SIZE + h.payload_size;
    if rx.len() >= HEADER_SIZE && end <= rx.len() {
        let payload = rx.subrange(HEADER_SIZE as int, end);
        lemma_byte_sum_is_total_mod(payload);
    }
}

/// A frame sent on a stream arrives exactly once and unchanged. While only its
/// first `k` bytes have been received, the receive step yields nothing and
/// keeps them all; once the whole frame is there, followed by any further
/// bytes `more`, the step yields the frame's header and payload and leaves
/// exactly `more`. (A buffer beyond `MAX_RX_BUFFER` is discarded instead.)
#[verifier::spinoff_prover]
#[verifier::rlimit(40)]
pub proof fn law_stream_frame_exactly_once(
    threshold: usize,
    payload: Seq<u8>,
    sequence: u64,
    sec: u64,
    nsec: u32,
    more: Seq<u8>,
    k: int,
)
    requires
        payload.len() + 1 <= MAX_PAYLOAD_SIZE,
        HEADER_SIZE + payload.len() + 1 + more.len() <= MAX_RX_BUFFER,
        0 <= k < HEADER_SIZE + payload.len() + 1,
    ensures
        ({
            let wire = wire_payload(threshold, payload);
            let h = frame_header(wire, sequence, sec, nsec);
            let frame = header_bytes(h) + wire;
            &&& stream_step(frame.subrange(0, k)) == (
                frame.subrange(0, k),
                Ok::<Option<(MessageHeader, Seq<u8>)>, TransportError>(None),
            )
            &&& stream_step(frame + more) == (
                more,
                Ok::<Option<(MessageHeader, Seq<u8>)>, TransportError>(Some((h, payload))),
            )
        }),
{
    let wire = wire_payload(threshold, payload);
    let h = frame_header(wire, sequence, sec, nsec);
    let frame = header_bytes(h) + wire;
    lemma_header_roundtrip(h, wire);
    assert(wire.len() == payload.len() + 1);
    assert(h.payload_size as int == wire.len());
    // A part of the frame.
    let part = frame.subrange(0, k);
    if k >= HEADER_SIZE {
        let tail = wire.subrange(0, k - HEADER_SIZE);
        assert(part =~= header_bytes(h) + tail);
        lemma_header_roundtrip(h, tail);
    }
    // The whole frame and what follows it.
    let all = frame + more;
    assert(all =~= header_bytes(h) + (wire + more));
    lemma_header_roundtrip(h, wire + more);
    assert(all.subrange(HEADER_SIZE as int, HEADER_SIZE + wire.len()) =~= wire);
    assert(all.subrange(HEADER_SIZE + wire.len(), all.len() as int) =~= more);
    if payload.len() > threshold {
        lemma_unflag_flagged(1, 1, payload);
    } else {
        lemma_unflag_flagged(0, 1, payload);
    }
}

/// A frame built by `encode_frame` for a payload the header can describe is
/// read back by the datagram decoder as its header and the original payload.
pub proof fn lemma_frame_roundtrip(threshold: usize, payload: Seq<u8>, sequence: u64, sec: u64, nsec: u32)
    requires
        payload.len() + 1 <= u32::MAX,
        HEADER_SIZE + payload.len() + 1 <= usize::MAX,
    ensures
        ({
            let wire = wire_payload(threshold, payload);
            let frame = header_bytes(frame_header(wire, sequence, sec, nsec)) + wire;
            datagram_result(frame) == Ok::<Option<(MessageHeader, Seq<u8>)>, TransportError>(
                Some((frame_header(wire, sequence, sec, nsec), payload)))
        }),
{
    let wire = wire_payload(threshold, payload);
    let h = frame_header(wire, sequence, sec, nsec);
    let frame = header_bytes(h) + wire;
    lemma_header_roundtrip(h, wire);
    assert(frame.subrange(HEADER_SIZE as int, HEADER_SIZE + wire.len()) =~= wire);
    if payload.len() > threshold {
        lemma_unflag_flagged(1, 1, payload);
    } else {
        lemma_unflag_flagged(0, 1, payload);
    }
}

// ---------------------------------------------------------------------------
// Statistics
// ---------------------------------------------------------------------------

/// Transport counters; every counter wraps on overflow.
pub struct TransportStats {
    pub messages_sent: u64,
    pub messages_received: u64,
    pub bytes_sent: u64,
    pub bytes_received: u64,
    pub compressed_messages: u64,
    pub total_send_time_us: u64,
    pub max_send_time_us: u64,
}

impl TransportStats {
    pub fn new() -> (s: Self)
        ensures
            s.messages_sent == 0 && s.messages_received == 0 && s.bytes_sent == 0 && s.bytes_received == 0,
            s.compressed_messages == 0 && s.total_send_time_us == 0 && s.max_send_time_us == 0,
    {
        TransportStats {
            messages_sent: 0,
            messages_received: 0,
            bytes_sent: 0,
            bytes_received: 0,
            compressed_messages: 0,
            total_send_time_us: 0,
            max_send_time_us: 0,
        }
    }

    /// Counts a sent message of `bytes` bytes that took `time_us` to send.
    pub fn record_send(&mut self, bytes: usize, time_us: u64)
        ensures
            final(self).messages_sent == old(self).messages_sent.wrapping_add(1),
            final(self).bytes_sent == old(self).bytes_sent.wrapping_add(bytes as u64),
            final(self).total_send_time_us == old(self).total_send_time_us.wrapping_add(time_us),
            final(self).max_send_time_us == if time_us > old(self).max_send_time_us { time_us } else { old(self).max_send_time_us },
            final(self).messages_received == old(self).messages_received,
            final(self).bytes_received == old(self).bytes_received,
            final(self).compressed_messages == old(self).compressed_messages,
    {
        self.messages_sent = self.messages_sent.wrapping_add(1);
        self.bytes_sent = self.bytes_sent.wrapping_add(bytes as u64);
        self.total_send_time_us = self.total_send_time_us.wrapping_add(time_us);
        if time_us > self.max_send_time_us {
            self.max_send_time_us = time_us;
        }
    }

    /// Counts a received message of `bytes` bytes.
    pub fn record_receive(&mut self, bytes: usize)
        ensures
            final(self).messages_received == old(self).messages_received.wrapping_add(1),
            final(self).bytes_received == old(self).bytes_received.wrapping_add(bytes as u64),
            final(self).messages_sent == old(self).messages_sent,
            final(self).bytes_sent == old(self).bytes_sent,
            final(self).compressed_messages == old(self).compressed_messages,
            final(self).total_send_time_us == old(self).total_send_time_us,
            final(self).max_send_time_us == old(self).max_send_time_us,
    {
        self.messages_received = self.messages_received.wrapping_add(1);
        self.bytes_received = self.bytes_received.wrapping_add(bytes as u64);
    }
}

impl Default for TransportStats {
    fn default() -> (s: Self)
        ensures
            s.messages_sent == 0 && s.messages_received == 0 && s.bytes_sent == 0 && s.bytes_received == 0,
            s.compressed_messages == 0 && s.total_send_time_us == 0 && s.max_send_time_us == 0,
    {
        Self::new()
    }
}

// ---------------------------------------------------------------------------
// Capabilities
// ---------------------------------------------------------------------------

/// What a transport guarantees, so that a node's requirements can be checked.
#[derive(Debug, Clone, Copy)]
pub struct TransportCapabilities {
    pub zero_copy: bool,
    pub bounded_latency: bool,
    pub max_latency: Option<Duration>,
    pub ordered: bool,
    pub reliable: bool,
    pub lossy: bool,
    pub shared_memory: bool,
    pub dma: bool,
    pub multicast: bool,
    pub serialization: bool,
}

/// What a node needs from a transport.
#[derive(Debug, Clone, Copy)]
pub struct TransportRequirements {
    pub requires_zero_copy: bool,
    pub requires_bounded_latency: bool,
    pub max_latency: Option<Duration>,
}

impl Default for TransportRequirements {
    fn default() -> (r: Self)
        ensures
            !r.requires_zero_copy && !r.requires_bounded_latency && r.max_latency is None,
    {
        TransportRequirements { requires_zero_copy: false, requires_bounded_latency: false, max_latency: None }
    }
}

/// Whether `c` meets `r`: each required property is offered, and a required
/// latency bound is met by a bound at least as tight.
pub open spec fn satisfies_spec(c: TransportCapabilities, r: TransportRequirements) -> bool {
    &&& !(r.requires_zero_copy && !c.zero_copy)
    &&& !(r.requires_bounded_latency && !c.bounded_latency)
    &&& (r.max_latency matches Some(req) ==> (c.max_latency matches Some(ours)
        && duration_as_nanos_spec(ours) <= duration_as_nanos_spec(req)))
}

impl TransportCapabilities {
    /// In-process SPSC ring: zero copy, ordered, reliable, at most 10 µs.
    pub fn local_spsc() -> (c: Self)
        ensures
            c.zero_copy && c.bounded_latency && c.ordered && c.reliable,
            !c.lossy && !c.shared_memory && !c.dma && !c.multicast && !c.serialization,
            c.max_latency matches Some(d) && duration_as_nanos_spec(d) == 10_000,
    {
        TransportCapabilities {
            zero_copy: true,
            bounded_latency: true,
            max_latency: Some(duration_from_micros(10)),
            ordered: true,
            reliable: true,
            lossy: false,
            shared_memory: false,
            dma: false,
            multicast: false,
            serialization: false,
        }
    }

    /// UDP: lossy, unordered, multicast, serialized, no latency bound.
    pub fn udp_best_effort() -> (c: Self)
        ensures
            !c.zero_copy && !c.bounded_latency && c.max_latency is None && !c.ordered && !c.reliable,
            c.lossy && !c.shared_memory && !c.dma && c.multicast && c.serialization,
    {
        TransportCapabilities {
            zero_copy: false,
            bounded_latency: false,
            max_latency: None,
            ordered: false,
            reliable: false,
            lossy: true,
            shared_memory: false,
            dma: false,
            multicast: true,
            serialization: true,
        }
    }

    /// TCP: ordered, reliable, serialized, no latency bound.
    pub fn tcp_reliable() -> (c: Self)
        ensures
            !c.zero_copy && !c.bounded_latency && c.max_latency is None && c.ordered && c.reliable,
            !c.lossy && !c.shared_memory && !c.dma && !c.multicast && c.serialization,
    {
        TransportCapabilities {
            zero_copy: false,
            bounded_latency: false,
            max_latency: None,
            ordered: true,
            reliable: true,
            lossy: false,
            shared_memory: false,
            dma: false,
            multicast: false,
            serialization: true,
        }
    }

    pub fn satisfies(&self, required: &TransportRequirements) -> (b: bool)
        ensures
            b == satisfies_spec(*self, *required),
    {
        if required.requires_zero_copy && !self.zero_copy {
            return false;
        }
        if required.requires_bounded_latency && !self.bounded_latency {
            return false;
        }
        if let Some(req_max) = required.max_latency {
            if let Some(our_max) = self.max_latency {
                if duration_as_nanos(our_max) > duration_as_nanos(req_max) {
                    return false;
                }
            } else {
                return false;
            }
        }
        true
    }
}

} // verus!
