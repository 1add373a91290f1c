use typed_io::wire::{decode_unsigned, encode_unsigned, modulus, signed_of, unsigned_of};
use typed_io::{ByteOrder, CodecError, Endianness, TypedRead, TypedWrite};

fn orders() -> [Endianness; 3] {
    [Endianness::BE, Endianness::LE, Endianness::NE]
}

#[test]
fn unsigned_numbers_round_trip() {
    for e in orders() {
        let mut v: Vec<u8> = Vec::new();
        for x in [u8::MIN, 1, 0x7f, 0x80, u8::MAX] {
            v.write_endian_with_callback(x, |_: &mut [u8]| {}, e).unwrap();
        }
        for x in [u16::MIN, 0x0102, 0x8000, u16::MAX] {
            v.write_endian_with_callback(x, |_: &mut [u8]| {}, e).unwrap();
        }
        for x in [u32::MIN, 0x0102_0304, u32::MAX] {
            v.write_endian_with_callback(x, |_: &mut [u8]| {}, e).unwrap();
        }
        for x in [u64::MIN, 0x0102_0304_0506_0708, u64::MAX] {
            v.write_endian_with_callback(x, |_: &mut [u8]| {}, e).unwrap();
        }
        for x in [u128::MIN, 0x0102_0304_0506_0708_090a_0b0c_0d0e_0f10, u128::MAX] {
            v.write_endian_with_callback(x, |_: &mut [u8]| {}, e).unwrap();
        }
        for x in [usize::MIN, 0x0102, usize::MAX] {
            v.write_endian_with_callback(x, |_: &mut [u8]| {}, e).unwrap();
        }
        let mut r: &[u8] = &v;
        for x in [u8::MIN, 1, 0x7f, 0x80, u8::MAX] {
            assert_eq!(r.read_endianness_with_callback(|_: &mut [u8]| {}, e), Ok(x));
        }
        for x in [u16::MIN, 0x0102, 0x8000, u16::MAX] {
            assert_eq!(r.read_endianness_with_callback(|_: &mut [u8]| {}, e), Ok(x));
        }
        for x in [u32::MIN, 0x0102_0304, u32::MAX] {
            assert_eq!(r.read_endianness_with_callback(|_: &mut [u8]| {}, e), Ok(x));
        }
        for x in [u64::MIN, 0x0102_0304_0506_0708, u64::MAX] {
            assert_eq!(r.read_endianness_with_callback(|_: &mut [u8]| {}, e), Ok(x));
        }
        for x in [u128::MIN, 0x0102_0304_0506_0708_090a_0b0c_0d0e_0f10, u128::MAX] {
            assert_eq!(r.read_endianness_with_callback(|_: &mut [u8]| {}, e), Ok(x));
        }
        for x in [usize::MIN, 0x0102, usize::MAX] {
            assert_eq!(r.read_endianness_with_callback(|_: &mut [u8]| {}, e), Ok(x));
        }
        assert_eq!(r.len(), 0);
    }
}

#[test]
fn signed_numbers_round_trip() {
    for e in orders() {
        let mut v: Vec<u8> = Vec::new();
        for x in [i8::MIN, -1, 0, 1, i8::MAX] {
            v.write_endian_with_callback(x, |_: &mut [u8]| {}, e).unwrap();
        }
        for x in [i16::MIN, -2, 0, 0x0102, i16::MAX] {
            v.write_endian_with_callback(x, |_: &mut [u8]| {}, e).unwrap();
        }
        for x in [i32::MIN, -3, 0, 0x0102_0304, i32::MAX] {
            v.write_endian_with_callback(x, |_: &mut [u8]| {}, e).unwrap();
        }
        for x in [i64::MIN, -4, 0, 0x0102_0304_0506_0708, i64::MAX] {
            v.write_endian_with_callback(x, |_: &mut [u8]| {}, e).unwrap();
        }
        for x in [i128::MIN, -5, 0, 0x0102_0304_0506_0708_090a_0b0c_0d0e_0f10, i128::MAX] {
            v.write_endian_with_callback(x, |_: &mut [u8]| {}, e).unwrap();
        }
        for x in [isize::MIN, -6, 0, 0x0102, isize::MAX] {
            v.write_endian_with_callback(x, |_: &mut [u8]| {}, e).unwrap();
        }
        let mut r: &[u8] = &v;
        for x in [i8::MIN, -1, 0, 1, i8::MAX] {
            assert_eq!(r.read_endianness_with_callback(|_: &mut [u8]| {}, e), Ok(x));
        }
        for x in [i16::MIN, -2, 0, 0x0102, i16::MAX] {
            assert_eq!(r.read_endianness_with_callback(|_: &mut [u8]| {}, e), Ok(x));
        }
        for x in [i32::MIN, -3, 0, 0x0102_0304, i32::MAX] {
            assert_eq!(r.read_endianness_with_callback(|_: &mut [u8]| {}, e), Ok(x));
        }
        for x in [i64::MIN, -4, 0, 0x0102_0304_0506_0708, i64::MAX] {
            assert_eq!(r.read_endianness_with_callback(|_: &mut [u8]| {}, e), Ok(x));
        }
        for x in [i128::MIN, -5, 0, 0x0102_0304_0506_0708_090a_0b0c_0d0e_0f10, i128::MAX] {
            assert_eq!(r.read_endianness_with_callback(|_: &mut [u8]| {}, e), Ok(x));
        }
        for x in [isize::MIN, -6, 0, 0x0102, isize::MAX] {
            assert_eq!(r.read_endianness_with_callback(|_: &mut [u8]| {}, e), Ok(x));
        }
        assert_eq!(r.len(), 0);
    }
}

#[test]
fn float_bit_patterns_round_trip_as_integers() {
    for e in orders() {
        let mut v: Vec<u8> = Vec::new();
        for x in [0.0_f32, -1.5, f32::MIN, f32::MAX, f32::INFINITY, f32::NEG_INFINITY, f32::NAN] {
            v.write_endian_with_callback(x.to_bits(), |_: &mut [u8]| {}, e).unwrap();
        }
        for x in [0.0_f64, -1.5, f64::MIN, f64::MAX, f64::INFINITY, f64::NEG_INFINITY, f64::NAN] {
            v.write_endian_with_callback(x.to_bits(), |_: &mut [u8]| {}, e).unwrap();
        }
        let mut r: &[u8] = &v;
        for x in [0.0_f32, -1.5, f32::MIN, f32::MAX, f32::INFINITY, f32::NEG_INFINITY, f32::NAN] {
            let bits: u32 = r.read_endianness_with_callback(|_: &mut [u8]| {}, e).unwrap();
            assert_eq!(f32::from_bits(bits).to_bits(), x.to_bits());
        }
        for x in [0.0_f64, -1.5, f64::MIN, f64::MAX, f64::INFINITY, f64::NEG_INFINITY, f64::NAN] {
            let bits: u64 = r.read_endianness_with_callback(|_: &mut [u8]| {}, e).unwrap();
            assert_eq!(f64::from_bits(bits).to_bits(), x.to_bits());
        }
    }
    let mut v: Vec<u8> = Vec::new();
    v.write_be(1.0_f32.to_bits()).unwrap();
    assert_eq!(v, 1.0_f32.to_be_bytes());
}

#[test]
fn text_round_trips_through_both_length_kinds() {
    let mut v: Vec<u8> = Vec::new();
    v.write_ref("bkbkb").unwrap();
    let mut r: &[u8] = &v;
    let text: String = r.read_const_len::<_, 5>().unwrap();
    assert_eq!(text, "bkbkb");

    let mut v: Vec<u8> = Vec::new();
    v.write_ref("びかびかび").unwrap();
    assert_eq!(v.len(), 15);
    let mut r: &[u8] = &v;
    let text: String = r.read_const_len::<_, 15>().unwrap();
    assert_eq!(text, "びかびかび");
    let mut r: &[u8] = &v;
    let text: String = r.read_var_len(15).unwrap();
    assert_eq!(text, "びかびかび");
    let mut r: &[u8] = &v;
    let text: Result<String, CodecError> = r.read_var_len(14);
    assert_eq!(text, Err(CodecError::InvalidEncoding));
}

#[test]
fn byte_runs_round_trip() {
    let data: [u8; 4] = [0, 0x80, 0xff, 7];
    let mut v: Vec<u8> = Vec::new();
    v.write_ref(&data[..]).unwrap();
    let mut r: &[u8] = &v;
    let back: [u8; 4] = r.read_const_len().unwrap();
    assert_eq!(back, data);
    let mut r: &[u8] = &v;
    let back: Vec<u8> = r.read_var_len(4).unwrap();
    assert_eq!(back, data);
}

#[test]
fn resolve_fixes_the_explicit_orders() {
    assert_eq!(Endianness::BE.resolve(), ByteOrder::Big);
    assert_eq!(Endianness::LE.resolve(), ByteOrder::Little);
    let native: ByteOrder = Endianness::NE.resolve();
    if 1_u16.to_ne_bytes() == 1_u16.to_le_bytes() {
        assert_eq!(native, ByteOrder::Little);
    } else {
        assert_eq!(native, ByteOrder::Big);
    }
}

#[test]
fn unsigned_images_in_both_orders() {
    let mut buf: [u8; 3] = [0xaa; 3];
    encode_unsigned(0x010203, &mut buf, ByteOrder::Big);
    assert_eq!(buf, [1, 2, 3]);
    assert_eq!(decode_unsigned(&buf, ByteOrder::Big), 0x010203);
    assert_eq!(decode_unsigned(&buf, ByteOrder::Little), 0x030201);
    encode_unsigned(0x010203, &mut buf, ByteOrder::Little);
    assert_eq!(buf, [3, 2, 1]);
    let mut none: [u8; 0] = [];
    encode_unsigned(0, &mut none, ByteOrder::Big);
    assert_eq!(decode_unsigned(&none, ByteOrder::Little), 0);
    let mut low: [u8; 2] = [0; 2];
    encode_unsigned(0x0a0b0c0d, &mut low, ByteOrder::Big);
    assert_eq!(low, [0x0c, 0x0d]);
    let mut wide: [u8; 18] = [0xaa; 18];
    encode_unsigned(u128::MAX, &mut wide, ByteOrder::Little);
    assert_eq!(wide[..16], [0xff; 16]);
    assert_eq!(wide[16..], [0, 0]);
    let mut all: [u8; 16] = [0; 16];
    encode_unsigned(u128::MAX, &mut all, ByteOrder::Little);
    assert_eq!(all, [0xff; 16]);
    assert_eq!(decode_unsigned(&all, ByteOrder::Big), u128::MAX);
}

#[test]
fn twos_complement_images() {
    assert_eq!(modulus(0), 1);
    assert_eq!(modulus(2), 0x1_0000);
    assert_eq!(modulus(15), 1_u128 << 120);
    assert_eq!(unsigned_of(-1, 1), 0xff);
    assert_eq!(unsigned_of(-128, 1), 0x80);
    assert_eq!(unsigned_of(127, 1), 0x7f);
    assert_eq!(unsigned_of(-2, 2), 0xfffe);
    assert_eq!(unsigned_of(-1, 16), u128::MAX);
    assert_eq!(unsigned_of(i128::MIN, 16), 1_u128 << 127);
    assert_eq!(signed_of(0xff, 1), -1);
    assert_eq!(signed_of(0x80, 1), -128);
    assert_eq!(signed_of(0x7f, 1), 127);
    assert_eq!(signed_of(0xfffe, 2), -2);
    assert_eq!(signed_of(u128::MAX, 16), -1);
    assert_eq!(signed_of(1_u128 << 127, 16), i128::MIN);
    assert_eq!(signed_of((1_u128 << 127) - 1, 16), i128::MAX);
}
