use tinybit::BoundedSink;
use tinybit::Empty;
use tinybit::Endian;
use tinybit::EndianError;
use tinybit::VecSink;
use tinybit::VecSource;

#[test]
fn be_order_example_u32() {
    let mut sink = VecSink::new();
    let v: u32 = 0x01020304;
    assert_eq!(Endian::to_be_bytes(&v, &mut sink), Ok(4));
    assert_eq!(sink.bytes, vec![0x01, 0x02, 0x03, 0x04]);
}

#[test]
fn le_order_example_u32() {
    let mut sink = VecSink::new();
    let v: u32 = 0x01020304;
    assert_eq!(Endian::to_le_bytes(&v, &mut sink), Ok(4));
    assert_eq!(sink.bytes, vec![0x04, 0x03, 0x02, 0x01]);
}

#[test]
fn round_trip_u8() {
    for v in [0u8, 1, 0x7f, 0xff] {
        let mut sink = VecSink::new();
        Endian::to_le_bytes(&v, &mut sink).unwrap();
        let mut src = VecSource::new(sink.bytes);
        assert_eq!(<u8 as Endian>::from_le_bytes(&mut src), Ok(v));

        let mut sink = VecSink::new();
        Endian::to_be_bytes(&v, &mut sink).unwrap();
        let mut src = VecSource::new(sink.bytes);
        assert_eq!(<u8 as Endian>::from_be_bytes(&mut src), Ok(v));
    }
}

#[test]
fn round_trip_u16() {
    for v in [0u16, 1, 0xabcd, u16::MAX] {
        let mut sink = VecSink::new();
        Endian::to_le_bytes(&v, &mut sink).unwrap();
        let mut src = VecSource::new(sink.bytes);
        assert_eq!(<u16 as Endian>::from_le_bytes(&mut src), Ok(v));

        let mut sink = VecSink::new();
        Endian::to_be_bytes(&v, &mut sink).unwrap();
        let mut src = VecSource::new(sink.bytes);
        assert_eq!(<u16 as Endian>::from_be_bytes(&mut src), Ok(v));
    }
}

#[test]
fn round_trip_u32() {
    for v in [0u32, 1, 0xdead_beef, u32::MAX] {
        let mut sink = VecSink::new();
        Endian::to_le_bytes(&v, &mut sink).unwrap();
        let mut src = VecSource::new(sink.bytes);
        assert_eq!(<u32 as Endian>::from_le_bytes(&mut src), Ok(v));

        let mut sink = VecSink::new();
        Endian::to_be_bytes(&v, &mut sink).unwrap();
        let mut src = VecSource::new(sink.bytes);
        assert_eq!(<u32 as Endian>::from_be_bytes(&mut src), Ok(v));
    }
}

#[test]
fn round_trip_u64() {
    for v in [0u64, 1, 0x0102_0304_0506_0708, u64::MAX] {
        let mut sink = VecSink::new();
        Endian::to_le_bytes(&v, &mut sink).unwrap();
        let mut src = VecSource::new(sink.bytes);
        assert_eq!(<u64 as Endian>::from_le_bytes(&mut src), Ok(v));

        let mut sink = VecSink::new();
        Endian::to_be_bytes(&v, &mut sink).unwrap();
        let mut src = VecSource::new(sink.bytes);
        assert_eq!(<u64 as Endian>::from_be_bytes(&mut src), Ok(v));
    }
}

#[test]
fn round_trip_signed() {
    for v in [-1i32, i32::MIN, i32::MAX, -123_456] {
        let mut sink = VecSink::new();
        Endian::to_le_bytes(&v, &mut sink).unwrap();
        assert_eq!(sink.bytes.len(), 4);
        let mut src = VecSource::new(sink.bytes);
        assert_eq!(<i32 as Endian>::from_le_bytes(&mut src), Ok(v));
    }
    for v in [-1i64, i64::MIN, i64::MAX] {
        let mut sink = VecSink::new();
        Endian::to_be_bytes(&v, &mut sink).unwrap();
        let mut src = VecSource::new(sink.bytes);
        assert_eq!(<i64 as Endian>::from_be_bytes(&mut src), Ok(v));
    }
    for v in [-1i16, i16::MIN, i16::MAX] {
        let mut sink = VecSink::new();
        Endian::to_be_bytes(&v, &mut sink).unwrap();
        let mut src = VecSource::new(sink.bytes);
        assert_eq!(<i16 as Endian>::from_be_bytes(&mut src), Ok(v));
    }
    for v in [-1i8, i8::MIN, i8::MAX] {
        let mut sink = VecSink::new();
        Endian::to_le_bytes(&v, &mut sink).unwrap();
        let mut src = VecSource::new(sink.bytes);
        assert_eq!(<i8 as Endian>::from_le_bytes(&mut src), Ok(v));
    }
}

#[test]
fn signed_uses_twos_complement_bytes() {
    let mut sink = VecSink::new();
    Endian::to_be_bytes(&-2i16, &mut sink).unwrap();
    assert_eq!(sink.bytes, vec![0xff, 0xfe]);
}

#[test]
fn end_of_stream_reports_true_count() {
    let mut src = VecSource::new(vec![0xaa, 0xbb]);
    assert_eq!(<u32 as Endian>::from_le_bytes(&mut src), Err(EndianError::EndOfStream(2)));
}

#[test]
fn end_of_stream_from_empty_source() {
    let mut src = VecSource::new(Vec::new());
    assert_eq!(<u8 as Endian>::from_be_bytes(&mut src), Err(EndianError::EndOfStream(0)));
}

#[test]
fn zero_size_encode_writes_nothing() {
    let mut sink = VecSink::new();
    assert_eq!(Empty.to_le_bytes(&mut sink), Ok(0));
    assert!(sink.bytes.is_empty());
    assert_eq!(Empty.to_be_bytes(&mut sink), Ok(0));
    assert!(sink.bytes.is_empty());
}

#[test]
fn zero_size_decode_returns_default() {
    let mut src = VecSource::new(Vec::new());
    assert_eq!(Empty::from_le_bytes(&mut src), Ok(Empty));
    assert_eq!(Empty::from_be_bytes(&mut src), Ok(Empty));
    assert_eq!(Empty::default(), Empty);
}

#[test]
fn size_fidelity_sequential_values() {
    let mut sink = VecSink::new();
    Endian::to_be_bytes(&0x1122u16, &mut sink).unwrap();
    Endian::to_be_bytes(&0x3344_5566u32, &mut sink).unwrap();
    assert_eq!(sink.bytes.len(), 6);
    let mut src = VecSource::new(sink.bytes);
    assert_eq!(<u16 as Endian>::from_be_bytes(&mut src), Ok(0x1122));
    assert_eq!(<u32 as Endian>::from_be_bytes(&mut src), Ok(0x3344_5566));
}

#[test]
fn failed_decode_returns_no_partial_value() {
    let mut sink = VecSink::new();
    Endian::to_le_bytes(&0x0102_0304u32, &mut sink).unwrap();
    let mut bytes = sink.bytes;
    bytes.truncate(3);
    let mut src = VecSource::new(bytes);
    assert_eq!(<u32 as Endian>::from_le_bytes(&mut src), Err(EndianError::EndOfStream(3)));
}

#[test]
fn unchecked_checked_equivalence_encode() {
    let v: u64 = 0x0102_0304_0506_0708;

    let mut sink = VecSink::new();
    Endian::to_be_bytes(&v, &mut sink).unwrap();
    let mut out = vec![0u8; 8];
    assert_eq!(Endian::to_be_bytes_unchecked(&v, &mut out), 8);
    assert_eq!(out, sink.bytes);

    let mut sink = VecSink::new();
    Endian::to_le_bytes(&v, &mut sink).unwrap();
    let mut out = vec![0u8; 8];
    assert_eq!(Endian::to_le_bytes_unchecked(&v, &mut out), 8);
    assert_eq!(out, sink.bytes);
}

#[test]
fn unchecked_checked_equivalence_decode() {
    let bytes = vec![1u8, 2, 3, 4];
    let via_unchecked_be = <u32 as Endian>::from_be_bytes_unchecked(&bytes);
    let via_unchecked_le = <u32 as Endian>::from_le_bytes_unchecked(&bytes);
    assert_eq!(via_unchecked_be, 0x0102_0304);
    assert_eq!(via_unchecked_le, 0x0403_0201);

    let mut src = VecSource::new(bytes.clone());
    assert_eq!(<u32 as Endian>::from_be_bytes(&mut src), Ok(via_unchecked_be));
    let mut src = VecSource::new(bytes);
    assert_eq!(<u32 as Endian>::from_le_bytes(&mut src), Ok(via_unchecked_le));
}

#[test]
fn unchecked_encode_preserves_tail() {
    let v: u16 = 0xbeef;
    let mut out = vec![0x11u8, 0x22, 0x33, 0x44, 0x55];
    assert_eq!(Endian::to_le_bytes_unchecked(&v, &mut out), 2);
    assert_eq!(out, vec![0xef, 0xbe, 0x33, 0x44, 0x55]);
}

#[test]
fn unchecked_zero_size_paths() {
    let mut out: Vec<u8> = vec![0x42];
    assert_eq!(Empty.to_le_bytes_unchecked(&mut out), 0);
    assert_eq!(Empty.to_be_bytes_unchecked(&mut out), 0);
    assert_eq!(out, vec![0x42]);
    assert_eq!(Empty::from_le_bytes_unchecked(&out), Empty);
    assert_eq!(Empty::from_be_bytes_unchecked(&out), Empty);
}

#[test]
fn source_reads_only_what_is_requested() {
    let mut src = VecSource::new(vec![0x01, 0x02, 0x03]);
    assert_eq!(<u16 as Endian>::from_be_bytes(&mut src), Ok(0x0102));
    assert_eq!(<u8 as Endian>::from_be_bytes(&mut src), Ok(0x03));
    assert_eq!(<u8 as Endian>::from_be_bytes(&mut src), Err(EndianError::EndOfStream(0)));
}

#[test]
fn short_write_reported_as_success() {
    let v: u32 = 0x0102_0304;

    let mut sink = BoundedSink::new(2);
    assert_eq!(Endian::to_be_bytes(&v, &mut sink), Ok(2));
    assert_eq!(sink.into_bytes(), vec![0x01, 0x02]);

    let mut sink = BoundedSink::new(0);
    assert_eq!(Endian::to_le_bytes(&v, &mut sink), Ok(0));
    assert!(sink.into_bytes().is_empty());
}

#[test]
fn bounded_sink_with_room_accepts_all() {
    let mut sink = BoundedSink::new(16);
    assert_eq!(Endian::to_le_bytes(&0xaabbu16, &mut sink), Ok(2));
    assert_eq!(sink.into_bytes(), vec![0xbb, 0xaa]);
}

#[test]
fn round_trip_u128() {
    for v in [0u128, 1, 0x0102_0304_0506_0708_090a_0b0c_0d0e_0f10, u128::MAX] {
        let mut sink = VecSink::new();
        Endian::to_le_bytes(&v, &mut sink).unwrap();
        assert_eq!(sink.bytes.len(), 16);
        let mut src = VecSource::new(sink.bytes);
        assert_eq!(<u128 as Endian>::from_le_bytes(&mut src), Ok(v));

        let mut sink = VecSink::new();
        Endian::to_be_bytes(&v, &mut sink).unwrap();
        let mut src = VecSource::new(sink.bytes);
        assert_eq!(<u128 as Endian>::from_be_bytes(&mut src), Ok(v));
    }
    for v in [-1i128, i128::MIN, i128::MAX] {
        let mut sink = VecSink::new();
        Endian::to_be_bytes(&v, &mut sink).unwrap();
        let mut src = VecSource::new(sink.bytes);
        assert_eq!(<i128 as Endian>::from_be_bytes(&mut src), Ok(v));
    }
}
