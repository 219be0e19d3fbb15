use stream_codec::codec::{
    decode_int, decode_uint, encode_int, encode_uint, signed_value, unsigned_residue,
};
use stream_codec::{
    BoundedSink, ByteOrder, ByteSeek, ByteSink, ByteSource, Cursor, ReadPrimitives, SeekTo,
    StreamError, WritePrimitives,
};

const TEST: &[u8] = &[
    0xCD, 0xCC, 0xDC, 0x40, 0xE6, 0x73, 0x87, 0xFF, 0xD7, 0x68, 0x29, 0x22, 0xD8, 0x88, 0xF3, 0x11,
];

fn source() -> Cursor {
    Cursor::new(TEST.to_vec())
}

fn machine_is_little_endian() -> bool {
    u16::from_ne_bytes([1, 0]) == 1
}

#[test]
fn read_write_primitives() {
    // read
    assert_eq!(205,                                     source().read_u8()     .unwrap());
    assert_eq!(205,                                     source().read_u8_le()  .unwrap());
    assert_eq!(205,                                     source().read_u8_be()  .unwrap());
    assert_eq!(-51,                                     source().read_i8()     .unwrap());
    assert_eq!(-51,                                     source().read_i8_le()  .unwrap());
    assert_eq!(-51,                                     source().read_i8_be()  .unwrap());
    assert_eq!(52429,                                   source().read_u16_le() .unwrap());
    assert_eq!(52684,                                   source().read_u16_be() .unwrap());
    assert_eq!(-13107,                                  source().read_i16_le() .unwrap());
    assert_eq!(-12852,                                  source().read_i16_be() .unwrap());
    assert_eq!(1088212173,                              source().read_u32_le() .unwrap());
    assert_eq!(3452755008,                              source().read_u32_be() .unwrap());
    assert_eq!(1088212173,                              source().read_i32_le() .unwrap());
    assert_eq!(-842212288,                              source().read_i32_be() .unwrap());
    assert_eq!(18412813034295446733,                    source().read_u64_le() .unwrap());
    assert_eq!(14829469844326549503,                    source().read_u64_be() .unwrap());
    assert_eq!(-33931039414104883,                      source().read_i64_le() .unwrap());
    assert_eq!(-3617274229383002113,                    source().read_i64_be() .unwrap());
    assert_eq!(6.9,                                     f32::from_bits(source().read_u32_le().unwrap()));
    assert_eq!(-429623296.0,                            f32::from_bits(source().read_u32_be().unwrap()));
    assert_eq!(23861379596529284064479147122191289549,  source().read_u128_le().unwrap());
    assert_eq!(273555434967085284028993218695928541969, source().read_u128_be().unwrap());
    assert_eq!(23861379596529284064479147122191289549,  source().read_i128_le().unwrap());
    assert_eq!(-66726931953853179434381388735839669487, source().read_i128_be().unwrap());

    // write
    let mut buf: Vec<u8> = vec![];
    buf.write_u8_le  (205                                    ).unwrap(); assert_eq!(&TEST[..size_of::<u8>()], &*buf);   buf.clear();
    buf.write_u8_le  (205                                    ).unwrap(); assert_eq!(&TEST[..size_of::<u8>()], &*buf);   buf.clear();
    buf.write_u8_be  (205                                    ).unwrap(); assert_eq!(&TEST[..size_of::<u8>()], &*buf);   buf.clear();
    buf.write_i8     (-51                                    ).unwrap(); assert_eq!(&TEST[..size_of::<i8>()], &*buf);   buf.clear();
    buf.write_i8_le  (-51                                    ).unwrap(); assert_eq!(&TEST[..size_of::<i8>()], &*buf);   buf.clear();
    buf.write_i8_be  (-51                                    ).unwrap(); assert_eq!(&TEST[..size_of::<i8>()], &*buf);   buf.clear();
    buf.write_u16_le (52429                                  ).unwrap(); assert_eq!(&TEST[..size_of::<u16>()], &*buf);  buf.clear();
    buf.write_u16_be (52684                                  ).unwrap(); assert_eq!(&TEST[..size_of::<u16>()], &*buf);  buf.clear();
    buf.write_i16_le (-13107                                 ).unwrap(); assert_eq!(&TEST[..size_of::<i16>()], &*buf);  buf.clear();
    buf.write_i16_be (-12852                                 ).unwrap(); assert_eq!(&TEST[..size_of::<i16>()], &*buf);  buf.clear();
    buf.write_u32_le (1088212173                             ).unwrap(); assert_eq!(&TEST[..size_of::<u32>()], &*buf);  buf.clear();
    buf.write_u32_be (3452755008                             ).unwrap(); assert_eq!(&TEST[..size_of::<u32>()], &*buf);  buf.clear();
    buf.write_i32_le (1088212173                             ).unwrap(); assert_eq!(&TEST[..size_of::<i32>()], &*buf);  buf.clear();
    buf.write_i32_be (-842212288                             ).unwrap(); assert_eq!(&TEST[..size_of::<i32>()], &*buf);  buf.clear();
    buf.write_u64_le (18412813034295446733                   ).unwrap(); assert_eq!(&TEST[..size_of::<u64>()], &*buf);  buf.clear();
    buf.write_u64_be (14829469844326549503                   ).unwrap(); assert_eq!(&TEST[..size_of::<u64>()], &*buf);  buf.clear();
    buf.write_i64_le (-33931039414104883                     ).unwrap(); assert_eq!(&TEST[..size_of::<i64>()], &*buf);  buf.clear();
    buf.write_i64_be (-3617274229383002113                   ).unwrap(); assert_eq!(&TEST[..size_of::<i64>()], &*buf);  buf.clear();
    buf.write_u32_le ((6.9f32).to_bits()                     ).unwrap(); assert_eq!(&TEST[..size_of::<f32>()], &*buf);  buf.clear();
    buf.write_u32_be ((-429623296.0f32).to_bits()            ).unwrap(); assert_eq!(&TEST[..size_of::<f32>()], &*buf);  buf.clear();
    buf.write_u128_le(23861379596529284064479147122191289549 ).unwrap(); assert_eq!(&TEST[..size_of::<u128>()], &*buf); buf.clear();
    buf.write_u128_be(273555434967085284028993218695928541969).unwrap(); assert_eq!(&TEST[..size_of::<u128>()], &*buf); buf.clear();
    buf.write_i128_le(23861379596529284064479147122191289549 ).unwrap(); assert_eq!(&TEST[..size_of::<i128>()], &*buf); buf.clear();
    buf.write_i128_be(-66726931953853179434381388735839669487).unwrap(); assert_eq!(&TEST[..size_of::<i128>()], &*buf); buf.clear();
}

#[test]
fn reads_advance_the_cursor_by_the_width() {
    let mut src = source();
    assert_eq!(src.read_u8().unwrap(), 0xCD);
    assert_eq!(src.position(), 1);
    assert_eq!(src.read_u16_be().unwrap(), 0xCCDC);
    assert_eq!(src.position(), 3);
    assert_eq!(src.read_u32_le().unwrap(), 0x8773E640);
    assert_eq!(src.position(), 7);
    assert_eq!(src.read_u64_be().unwrap(), 0xFFD7682922D888F3);
    assert_eq!(src.position(), 15);
    assert_eq!(src.remaining_len(), 1);
    assert_eq!(src.read_i8().unwrap(), 0x11);
    assert_eq!(src.remaining_len(), 0);
}

#[test]
fn short_read_fails_and_drains_the_source() {
    let mut src = Cursor::new(vec![1, 2, 3]);
    assert_eq!(src.read_u32_le(), Err(StreamError::UnexpectedEndOfStream));
    assert_eq!(src.position(), 3);
    assert_eq!(src.read_u8(), Err(StreamError::UnexpectedEndOfStream));
    let mut empty = Cursor::new(vec![]);
    assert_eq!(empty.read_i128_be(), Err(StreamError::UnexpectedEndOfStream));
    assert_eq!(empty.read_uint(0, ByteOrder::Big), Ok(0));
}

#[test]
fn read_exact_takes_the_next_bytes() {
    let mut src = Cursor::new(vec![10, 20, 30, 40]);
    assert_eq!(src.read_exact(0).unwrap(), Vec::<u8>::new());
    assert_eq!(src.read_exact(3).unwrap(), vec![10, 20, 30]);
    assert_eq!(src.read_exact(2), Err(StreamError::UnexpectedEndOfStream));
    assert_eq!(src.into_inner(), vec![10, 20, 30, 40]);
}

#[test]
fn seek_moves_within_the_stream_only() {
    let mut src = Cursor::new(vec![10, 20, 30, 40]);
    assert_eq!(src.seek(SeekTo::Forward(3)), Ok(3));
    assert_eq!(src.read_u8(), Ok(40));
    assert_eq!(src.seek(SeekTo::Backward(2)), Ok(2));
    assert_eq!(src.read_u8(), Ok(30));
    assert_eq!(src.seek(SeekTo::Start(4)), Ok(4));
    assert_eq!(src.seek(SeekTo::Start(0)), Ok(0));
    assert_eq!(src.read_u16_be(), Ok(0x0A14));
    assert_eq!(src.seek(SeekTo::Backward(3)), Err(StreamError::InvalidSeek));
    assert_eq!(src.seek(SeekTo::Forward(3)), Err(StreamError::InvalidSeek));
    assert_eq!(src.seek(SeekTo::Start(5)), Err(StreamError::InvalidSeek));
    assert_eq!(src.position(), 2);
}

#[test]
fn generic_width_reads_and_writes() {
    let mut src = Cursor::new(vec![0x01, 0x02, 0x03, 0xFF, 0xFE, 0xFD]);
    assert_eq!(src.read_uint(3, ByteOrder::Big), Ok(0x010203));
    assert_eq!(src.read_int(3, ByteOrder::Little), Ok(-131329));
    let mut sink: Vec<u8> = Vec::new();
    assert_eq!(sink.write_uint(0x010203, 3, ByteOrder::Big), Ok(3));
    assert_eq!(sink.write_int(-131329, 3, ByteOrder::Little), Ok(3));
    assert_eq!(sink, vec![0x01, 0x02, 0x03, 0xFF, 0xFE, 0xFD]);
    let mut wide: Vec<u8> = Vec::new();
    assert_eq!(wide.write_uint(0x0102, 4, ByteOrder::Big), Ok(4));
    assert_eq!(wide.write_uint(0x01020304, 2, ByteOrder::Little), Ok(2));
    assert_eq!(wide, vec![0, 0, 1, 2, 4, 3]);
}

#[test]
fn order_taking_methods_match_the_fixed_ones() {
    assert_eq!(source().read_u16(ByteOrder::Little), source().read_u16_le());
    assert_eq!(source().read_u16(ByteOrder::Big), source().read_u16_be());
    assert_eq!(source().read_i32(ByteOrder::Big), Ok(-842212288));
    assert_eq!(source().read_u64(ByteOrder::Little), Ok(18412813034295446733));
    assert_eq!(source().read_i64(ByteOrder::Big), Ok(-3617274229383002113));
    assert_eq!(source().read_i16(ByteOrder::Little), Ok(-13107));
    assert_eq!(source().read_u32(ByteOrder::Big), Ok(3452755008));
    assert_eq!(
        source().read_u128(ByteOrder::Big),
        Ok(273555434967085284028993218695928541969)
    );
    assert_eq!(
        source().read_i128(ByteOrder::Big),
        Ok(-66726931953853179434381388735839669487)
    );
    let mut sink: Vec<u8> = Vec::new();
    sink.write_i16(-2, ByteOrder::Big).unwrap();
    sink.write_u32(0xA1B2C3D4, ByteOrder::Little).unwrap();
    sink.write_i64(-2, ByteOrder::Little).unwrap();
    sink.write_u16(0x0102, ByteOrder::Big).unwrap();
    sink.write_i32(i32::MIN, ByteOrder::Big).unwrap();
    sink.write_u64(1, ByteOrder::Big).unwrap();
    assert_eq!(
        sink,
        vec![
            0xFF, 0xFE, 0xD4, 0xC3, 0xB2, 0xA1, 0xFE, 0xFF, 0xFF, 0xFF, 0xFF, 0xFF, 0xFF, 0xFF, 1,
            2, 0x80, 0, 0, 0, 0, 0, 0, 0, 0, 0, 0, 1
        ]
    );
    let mut big: Vec<u8> = Vec::new();
    big.write_u128(1, ByteOrder::Big).unwrap();
    big.write_i128(-1, ByteOrder::Little).unwrap();
    let mut expected = vec![0u8; 15];
    expected.push(1);
    expected.extend(vec![0xFFu8; 16]);
    assert_eq!(big, expected);
}

#[test]
fn native_order_is_one_of_the_two() {
    let little = machine_is_little_endian();
    assert_eq!(ByteOrder::native() == ByteOrder::Little, little);
    assert_eq!(ByteOrder::native(), ByteOrder::native());
    assert_eq!(source().read_u8_ne(), Ok(205));
    assert_eq!(source().read_i8_ne(), Ok(-51));
    assert_eq!(source().read_u16_ne().unwrap(), u16::from_ne_bytes([0xCD, 0xCC]));
    assert_eq!(source().read_i16_ne().unwrap(), i16::from_ne_bytes([0xCD, 0xCC]));
    assert_eq!(
        source().read_u32_ne().unwrap(),
        u32::from_ne_bytes([0xCD, 0xCC, 0xDC, 0x40])
    );
    assert_eq!(
        source().read_i32_ne().unwrap(),
        i32::from_ne_bytes([0xCD, 0xCC, 0xDC, 0x40])
    );
    let mut eight = [0u8; 8];
    eight.copy_from_slice(&TEST[..8]);
    assert_eq!(source().read_u64_ne().unwrap(), u64::from_ne_bytes(eight));
    assert_eq!(source().read_i64_ne().unwrap(), i64::from_ne_bytes(eight));
    let mut sixteen = [0u8; 16];
    sixteen.copy_from_slice(TEST);
    assert_eq!(source().read_u128_ne().unwrap(), u128::from_ne_bytes(sixteen));
    assert_eq!(source().read_i128_ne().unwrap(), i128::from_ne_bytes(sixteen));

    let mut sink: Vec<u8> = Vec::new();
    sink.write_u8_ne(7).unwrap();
    sink.write_i8_ne(-7).unwrap();
    sink.write_u16_ne(0x0102).unwrap();
    sink.write_i16_ne(-2).unwrap();
    sink.write_u32_ne(0x01020304).unwrap();
    sink.write_i32_ne(-3).unwrap();
    sink.write_u64_ne(0x0102030405060708).unwrap();
    sink.write_i64_ne(-4).unwrap();
    sink.write_u128_ne(5).unwrap();
    sink.write_i128_ne(-5).unwrap();
    let mut expected: Vec<u8> = vec![7, 0xF9];
    expected.extend(0x0102u16.to_ne_bytes());
    expected.extend((-2i16).to_ne_bytes());
    expected.extend(0x01020304u32.to_ne_bytes());
    expected.extend((-3i32).to_ne_bytes());
    expected.extend(0x0102030405060708u64.to_ne_bytes());
    expected.extend((-4i64).to_ne_bytes());
    expected.extend(5u128.to_ne_bytes());
    expected.extend((-5i128).to_ne_bytes());
    assert_eq!(sink, expected);
}

#[test]
fn round_trip_over_the_full_range() {
    let orders = [ByteOrder::Little, ByteOrder::Big];
    for order in orders {
        for v in [0u16, 1, 0x00FF, 0x0100, 0x7FFF, 0x8000, u16::MAX] {
            let mut sink: Vec<u8> = Vec::new();
            assert_eq!(sink.write_u16(v, order), Ok(2));
            assert_eq!(Cursor::new(sink).read_u16(order), Ok(v));
        }
        for v in [i16::MIN, -1, 0, 1, i16::MAX] {
            let mut sink: Vec<u8> = Vec::new();
            assert_eq!(sink.write_i16(v, order), Ok(2));
            assert_eq!(Cursor::new(sink).read_i16(order), Ok(v));
        }
        for v in [0u32, 1, 0x8000_0000, u32::MAX] {
            let mut sink: Vec<u8> = Vec::new();
            assert_eq!(sink.write_u32(v, order), Ok(4));
            assert_eq!(Cursor::new(sink).read_u32(order), Ok(v));
        }
        for v in [i32::MIN, -1, 0, 1, i32::MAX] {
            let mut sink: Vec<u8> = Vec::new();
            assert_eq!(sink.write_i32(v, order), Ok(4));
            assert_eq!(Cursor::new(sink).read_i32(order), Ok(v));
        }
        for v in [0u64, 1, 0x8000_0000_0000_0000, u64::MAX] {
            let mut sink: Vec<u8> = Vec::new();
            assert_eq!(sink.write_u64(v, order), Ok(8));
            assert_eq!(Cursor::new(sink).read_u64(order), Ok(v));
        }
        for v in [i64::MIN, -1, 0, 1, i64::MAX] {
            let mut sink: Vec<u8> = Vec::new();
            assert_eq!(sink.write_i64(v, order), Ok(8));
            assert_eq!(Cursor::new(sink).read_i64(order), Ok(v));
        }
        for v in [0u128, 1, 1 << 127, u128::MAX] {
            let mut sink: Vec<u8> = Vec::new();
            assert_eq!(sink.write_u128(v, order), Ok(16));
            assert_eq!(Cursor::new(sink).read_u128(order), Ok(v));
        }
        for v in [i128::MIN, -1, 0, 1, i128::MAX] {
            let mut sink: Vec<u8> = Vec::new();
            assert_eq!(sink.write_i128(v, order), Ok(16));
            assert_eq!(Cursor::new(sink).read_i128(order), Ok(v));
        }
    }
    for v in [0u8, 1, 0x7F, 0x80, u8::MAX] {
        let mut sink: Vec<u8> = Vec::new();
        assert_eq!(sink.write_u8(v), Ok(1));
        assert_eq!(Cursor::new(sink).read_u8(), Ok(v));
    }
    for v in [i8::MIN, -1, 0, 1, i8::MAX] {
        let mut sink: Vec<u8> = Vec::new();
        assert_eq!(sink.write_i8(v), Ok(1));
        assert_eq!(sink, vec![v as u8]);
        assert_eq!(Cursor::new(sink).read_i8(), Ok(v));
    }
    let mut native: Vec<u8> = Vec::new();
    native.write_u32_ne(0xDEADBEEF).unwrap();
    native.write_i64_ne(i64::MIN + 5).unwrap();
    let mut back = Cursor::new(native);
    assert_eq!(back.read_u32_ne(), Ok(0xDEADBEEF));
    assert_eq!(back.read_i64_ne(), Ok(i64::MIN + 5));
}

#[test]
fn little_and_big_endian_are_reverses() {
    let mut le: Vec<u8> = Vec::new();
    let mut be: Vec<u8> = Vec::new();
    le.write_u32_le(0x01020304).unwrap();
    be.write_u32_be(0x01020304).unwrap();
    assert_eq!(le, vec![4, 3, 2, 1]);
    assert_eq!(be, vec![1, 2, 3, 4]);
    be.reverse();
    assert_eq!(le, be);
    let value: u128 = 0x0102030405060708090A0B0C0D0E0F10;
    let mut forward = encode_uint(value, 16, ByteOrder::Big);
    assert_eq!(forward, (1..=16).collect::<Vec<u8>>());
    forward.reverse();
    assert_eq!(forward, encode_uint(value, 16, ByteOrder::Little));
    let mut signed = encode_int(-2, 8, ByteOrder::Big);
    signed.reverse();
    assert_eq!(signed, encode_int(-2, 8, ByteOrder::Little));
}

#[test]
fn float_bit_patterns_survive() {
    let patterns: [u32; 6] = [
        0x7FC0_0001,
        0xFFC0_0000,
        0x7F80_0001,
        0x8000_0000,
        0x0000_0000,
        0x7F80_0000,
    ];
    for bits in patterns {
        for order in [ByteOrder::Little, ByteOrder::Big] {
            let value = f32::from_bits(bits);
            let mut sink: Vec<u8> = Vec::new();
            sink.write_u32(value.to_bits(), order).unwrap();
            let back = f32::from_bits(Cursor::new(sink).read_u32(order).unwrap());
            assert_eq!(back.to_bits(), bits);
        }
    }
    let wide: [u64; 4] = [
        0x7FF8_0000_0000_0001,
        0xFFF0_0000_0000_0000,
        0x8000_0000_0000_0000,
        0x3FF0_0000_0000_0000,
    ];
    for bits in wide {
        for order in [ByteOrder::Little, ByteOrder::Big] {
            let value = f64::from_bits(bits);
            let mut sink: Vec<u8> = Vec::new();
            sink.write_u64(value.to_bits(), order).unwrap();
            let back = f64::from_bits(Cursor::new(sink).read_u64(order).unwrap());
            assert_eq!(back.to_bits(), bits);
        }
    }
    assert!(f32::from_bits(Cursor::new(vec![0, 0, 0, 0x80]).read_u32_le().unwrap())
        .is_sign_negative());
}

#[test]
fn encoding_the_same_value_twice_gives_the_same_bytes() {
    let mut sink: Vec<u8> = Vec::new();
    assert_eq!(sink.write_u32_be(0xCAFEBABE), Ok(4));
    assert_eq!(sink.write_u32_be(0xCAFEBABE), Ok(4));
    assert_eq!(sink[..4], sink[4..]);
    assert_eq!(sink, vec![0xCA, 0xFE, 0xBA, 0xBE, 0xCA, 0xFE, 0xBA, 0xBE]);
    assert_eq!(
        encode_int(-12345, 4, ByteOrder::Little),
        encode_int(-12345, 4, ByteOrder::Little)
    );
}

#[test]
fn codec_on_plain_bytes() {
    assert_eq!(encode_uint(0x0102, 2, ByteOrder::Little), vec![2, 1]);
    assert_eq!(encode_uint(0x0102, 2, ByteOrder::Big), vec![1, 2]);
    assert_eq!(encode_uint(0x0102, 0, ByteOrder::Big), Vec::<u8>::new());
    assert_eq!(encode_uint(u128::MAX, 17, ByteOrder::Little)[16], 0);
    assert_eq!(encode_uint(u128::MAX, 17, ByteOrder::Big)[0], 0);
    assert_eq!(decode_uint(&[2, 1], ByteOrder::Little), 0x0102);
    assert_eq!(decode_uint(&[2, 1], ByteOrder::Big), 0x0201);
    assert_eq!(decode_uint(&[], ByteOrder::Big), 0);
    assert_eq!(decode_uint(&[0xFF; 16], ByteOrder::Big), u128::MAX);
    assert_eq!(encode_int(-1, 1, ByteOrder::Big), vec![0xFF]);
    assert_eq!(encode_int(-128, 1, ByteOrder::Big), vec![0x80]);
    assert_eq!(encode_int(127, 1, ByteOrder::Big), vec![0x7F]);
    assert_eq!(encode_int(-256, 2, ByteOrder::Big), vec![0xFF, 0x00]);
    assert_eq!(encode_int(i128::MIN, 16, ByteOrder::Little)[15], 0x80);
    assert_eq!(decode_int(&[0xFF], ByteOrder::Little), -1);
    assert_eq!(decode_int(&[0x80, 0x00], ByteOrder::Big), -32768);
    assert_eq!(decode_int(&[0x7F, 0xFF], ByteOrder::Big), 32767);
    assert_eq!(decode_int(&[0xFF; 16], ByteOrder::Big), -1);
    let mut min = vec![0u8; 15];
    min.push(0x80);
    assert_eq!(decode_int(&min, ByteOrder::Little), i128::MIN);
}

#[test]
fn a_full_sink_cuts_the_write_short() {
    let mut sink = BoundedSink::new(6);
    assert_eq!(sink.write_u32_be(0x01020304), Ok(4));
    assert_eq!(sink.write_u32_be(0x05060708), Ok(2));
    assert_eq!(sink.write_u16_le(0x090A), Ok(0));
    assert_eq!(sink.write(&[]), Ok(0));
    assert_eq!(sink.into_inner(), vec![1, 2, 3, 4, 5, 6]);
    let mut none = BoundedSink::new(0);
    assert_eq!(none.write_u8(1), Ok(0));
    assert_eq!(none.into_inner(), Vec::<u8>::new());
    let mut exact = BoundedSink::new(2);
    assert_eq!(exact.write(&[7, 8]), Ok(2));
    assert_eq!(exact.into_inner(), vec![7, 8]);
}

#[test]
fn a_vector_takes_every_byte() {
    let mut sink: Vec<u8> = vec![9];
    assert_eq!(sink.write(&[1, 2, 3]), Ok(3));
    assert_eq!(sink.write(&[]), Ok(0));
    assert_eq!(sink, vec![9, 1, 2, 3]);
}

#[test]
fn probe_tells_the_orders_apart() {
    assert_eq!(ByteOrder::of_probe(1), ByteOrder::Little);
    assert_eq!(ByteOrder::of_probe(256), ByteOrder::Big);
    assert_eq!(ByteOrder::of_probe(u16::from_le_bytes([1, 0])), ByteOrder::Little);
    assert_eq!(ByteOrder::of_probe(u16::from_be_bytes([1, 0])), ByteOrder::Big);
    assert_eq!(ByteOrder::of_probe(0), ByteOrder::Big);
}

#[test]
fn twos_complement_residues() {
    assert_eq!(unsigned_residue(0, 1), 0);
    assert_eq!(unsigned_residue(-1, 1), 0xFF);
    assert_eq!(unsigned_residue(-128, 1), 0x80);
    assert_eq!(unsigned_residue(127, 1), 0x7F);
    assert_eq!(unsigned_residue(-1, 3), 0xFF_FFFF);
    assert_eq!(unsigned_residue(-2, 15), (1u128 << 120) - 2);
    assert_eq!(unsigned_residue(-1, 16), u128::MAX);
    assert_eq!(unsigned_residue(i128::MIN, 16), 1u128 << 127);
    assert_eq!(unsigned_residue(i128::MAX, 16), (1u128 << 127) - 1);
    assert_eq!(signed_value(0, 1), 0);
    assert_eq!(signed_value(0xFF, 1), -1);
    assert_eq!(signed_value(0x80, 1), -128);
    assert_eq!(signed_value(0x7F, 1), 127);
    assert_eq!(signed_value(0xFFFF, 2), -1);
    assert_eq!(signed_value(0x7FFF, 2), 32767);
    assert_eq!(signed_value(0x80_0000, 3), -8388608);
    assert_eq!(signed_value((1u128 << 120) - 1, 15), -1);
    assert_eq!(signed_value(u128::MAX, 16), -1);
    assert_eq!(signed_value(1u128 << 127, 16), i128::MIN);
    assert_eq!(signed_value((1u128 << 127) - 1, 16), i128::MAX);
}
