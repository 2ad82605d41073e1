use nros::transport::{
    decode_datagram, encode_frame, next_stream_frame, CompressionEngine, CompressionEngineTrait, LargePayload,
    Lz4CompressionEngine, MessageHeader, MockCompressionEngine, Serializable, TransportCapabilities, TransportError,
    TransportRequirements, TransportStats, HEADER_MAGIC,
};

#[test]
fn test_header_validation() {
    let h = MessageHeader::new(1, 48, 0);
    assert!(h.validate().is_ok());
    let mut bad = h;
    bad.magic = 0;
    assert!(bad.validate().is_err());
}

#[test]
fn test_header_roundtrip() {
    let h = MessageHeader::new(42, 1234, 99);
    let bytes = h.to_bytes();
    assert_eq!(bytes.len(), MessageHeader::SIZE);
    let h2 = MessageHeader::from_bytes(&bytes).unwrap();
    assert_eq!(h.magic, h2.magic);
    assert_eq!(h.payload_size, h2.payload_size);
    assert_eq!(h.sequence, h2.sequence);
}

#[test]
fn test_header_wire_size_is_36() {
    assert_eq!(MessageHeader::SIZE, 36);
    assert_eq!(MessageHeader::new(0, 0, 0).to_bytes().len(), 36);
}

#[test]
fn test_compression_flag() {
    let engine = CompressionEngine::new(10);
    let small = vec![0u8; 5];
    let large = vec![1u8; 20];
    assert!(!engine.should_compress(&small));
    assert!(engine.should_compress(&large));
    let compressed = engine.compress(&large);
    assert_eq!(compressed[0], 1);
    let decompressed = engine.decompress(&compressed).unwrap();
    assert_eq!(decompressed, large);
}

#[test]
fn transport_header_bytes_are_little_endian() {
    let h = MessageHeader::with_timestamp(0x0102, 0x0A0B0C0D, 7, 1, 2);
    let b = h.to_bytes();
    assert_eq!(&b[0..4], &HEADER_MAGIC.to_le_bytes());
    assert_eq!(&b[4..6], &[1, 0]);
    assert_eq!(&b[6..8], &[0x02, 0x01]);
    assert_eq!(&b[8..12], &[0x0D, 0x0C, 0x0B, 0x0A]);
    assert_eq!(MessageHeader::from_bytes(&b), Ok(h));
}

#[test]
fn transport_header_errors() {
    assert_eq!(MessageHeader::from_bytes(&[0u8; 35]), Err(TransportError::BufferTooSmall { len: 35, needed: 36 }));
    let mut h = MessageHeader::new(0, 0, 0);
    h.magic = 5;
    assert_eq!(h.validate(), Err(TransportError::InvalidMagic { expected: HEADER_MAGIC, got: 5 }));
    let mut v = MessageHeader::new(0, 0, 0);
    v.version = 2;
    assert_eq!(v.validate(), Err(TransportError::UnsupportedVersion { version: 2 }));
}

#[test]
fn transport_checksums() {
    let payload = [1u8, 2, 3, 250];
    let h = MessageHeader::new(0, 4, 0).with_checksum(&payload);
    assert_eq!(h.checksum, 256);
    assert!(h.verify_checksum(&payload).is_ok());
    assert_eq!(h.verify_checksum(&[1, 2, 3]), Err(TransportError::ChecksumMismatch { expected: 256, computed: 6 }));
    let c = MessageHeader::new(0, 9, 0).with_crc32_checksum(b"123456789");
    assert_eq!(c.checksum, 0xCBF43926);
    assert!(c.verify_crc32_checksum(b"123456789").is_ok());
    assert!(c.verify_crc32_checksum(b"12345678").is_err());
}

#[test]
fn transport_decompress_edge_cases() {
    let engine = MockCompressionEngine::new(4);
    assert_eq!(engine.decompress(&[]), Err(TransportError::EmptyData));
    assert_eq!(engine.decompress(&[0, 9, 9]), Ok(vec![9, 9]));
    assert_eq!(engine.decompress(&[5, 9]), Ok(vec![5, 9]));
    assert_eq!(engine.decompress(&[1]), Ok(vec![]));
    assert!(engine.is_simulated());
}

#[test]
fn transport_lz4_roundtrip() {
    let engine = Lz4CompressionEngine::new(8);
    let data: Vec<u8> = (0..200u32).map(|i| (i % 7) as u8).collect();
    let packed = engine.compress_lz4(&data);
    assert_eq!(engine.decompress_lz4(&packed), Ok(data));
    assert_eq!(engine.decompress_lz4(&[1, 2]), Err(TransportError::DecompressFailed));
}

#[test]
fn transport_frame_roundtrip_through_datagram() {
    let engine = MockCompressionEngine::new(8);
    let mut stats = TransportStats::new();
    let payload: Vec<u8> = (0..20u8).collect();
    let frame = encode_frame(&engine, &mut stats, &payload, 3, 10, 20);
    assert_eq!(stats.compressed_messages, 1);
    let (h, body) = decode_datagram(&engine, &frame, frame.len()).unwrap().unwrap();
    assert_eq!(h.sequence, 3);
    assert_eq!(body, payload);
    assert_eq!(decode_datagram(&engine, &frame, 10), Ok(None));
    let short = frame.len() - 1;
    assert_eq!(
        decode_datagram(&engine, &frame, short),
        Err(TransportError::IncompletePacket { received: short, needed: frame.len() })
    );
}

#[test]
fn transport_stream_reassembles_fragments() {
    let engine = MockCompressionEngine::new(1024);
    let mut stats = TransportStats::new();
    let a = encode_frame(&engine, &mut stats, &[7u8; 40], 1, 0, 0);
    let b = encode_frame(&engine, &mut stats, &[9u8; 3], 2, 0, 0);
    let mut rx: Vec<u8> = a[..20].to_vec();
    assert_eq!(next_stream_frame(&engine, &mut rx), Ok(None));
    assert_eq!(rx.len(), 20);
    rx.extend_from_slice(&a[20..]);
    rx.extend_from_slice(&b);
    let (h1, d1) = next_stream_frame(&engine, &mut rx).unwrap().unwrap();
    assert_eq!((h1.sequence, d1), (1, vec![7u8; 40]));
    let (h2, d2) = next_stream_frame(&engine, &mut rx).unwrap().unwrap();
    assert_eq!((h2.sequence, d2), (2, vec![9u8; 3]));
    assert!(rx.is_empty());
    let mut junk = vec![0xAAu8; 40];
    assert!(matches!(next_stream_frame(&engine, &mut junk), Err(TransportError::InvalidMagic { .. })));
}

#[test]
fn transport_large_payload_roundtrip() {
    let p = LargePayload { data: vec![5, 6, 7], id: 77 };
    let mut buf = Vec::new();
    p.serialize(&mut buf).unwrap();
    assert_eq!(buf.len(), p.serialized_size());
    let q = LargePayload::deserialize(&buf).unwrap();
    assert_eq!((q.id, q.data), (77, vec![5, 6, 7]));
    assert!(LargePayload::deserialize(&buf[..5]).is_err());
}

#[test]
fn transport_stats_and_capabilities() {
    let mut s = TransportStats::new();
    s.record_send(100, 7);
    s.record_send(50, 3);
    s.record_receive(40);
    assert_eq!((s.messages_sent, s.bytes_sent, s.total_send_time_us, s.max_send_time_us), (2, 150, 10, 7));
    assert_eq!((s.messages_received, s.bytes_received), (1, 40));
    let req = TransportRequirements { requires_zero_copy: true, requires_bounded_latency: false, max_latency: None };
    assert!(TransportCapabilities::local_spsc().satisfies(&req));
    assert!(!TransportCapabilities::udp_best_effort().satisfies(&req));
    assert!(TransportCapabilities::tcp_reliable().reliable);
}

#[test]
fn transport_decoded_header_encodes_to_its_bytes() {
    let bytes: Vec<u8> = (0u8..40).map(|b| b.wrapping_mul(37)).collect();
    let h = MessageHeader::from_bytes(&bytes).unwrap();
    assert_eq!(h.to_bytes(), bytes[..36].to_vec());
}

#[test]
fn transport_error_messages() {
    assert_eq!(TransportError::BufferTooSmall { len: 10, needed: 36 }.message(), "Buffer too small: 10 < 36");
    assert_eq!(
        TransportError::InvalidMagic { expected: HEADER_MAGIC, got: 0xAB }.message(),
        format!("Invalid magic number: expected {:08x}, got {:08x}", HEADER_MAGIC, 0xABu32)
    );
    assert_eq!(
        TransportError::ChecksumMismatch { expected: 0xDEADBEEF, computed: 1 }.message(),
        "Checksum mismatch: expected deadbeef, computed 00000001 — corruption detected"
    );
    assert_eq!(TransportError::UnsupportedVersion { version: 2 }.message(), "Unsupported protocol version: 2");
    assert_eq!(TransportError::EmptyData.message(), "Empty data");
}
