use typed_io::{CodecError, Endianness, ReadConstant, ReadEndianness, ReadVariable, TypedRead};

#[test]
fn read_string_for() {
    let mut v: &[u8] = &[98, 107, 98, 107, 98];
    let bytes: [u8; 5] = v.read_const_len().unwrap();
    let s = std::str::from_utf8(&bytes).unwrap();
    assert_eq!(s, "bkbkb");
    let mut v: &[u8] = &[
        0xE3, 0x81, 0xB3, 0xE3, 0x81, 0x8B, 0xE3, 0x81, 0xB3, 0xE3, 0x81, 0x8B, 0xE3, 0x81, 0xB3,
    ];
    let s: String = v.read_const_len::<_, 15>().unwrap();
    assert_eq!(s, "びかびかび");

    let mut v: &[u8] = &[
        0xE3, 0x81, 0xB3, 0xE3, 0x81, 0x8B, 0xE3, 0x81, 0xB3, 0xE3, 0x81, 0x8B, 0xE3, 0x81, 0xB3,
    ];
    let s: String = v.read_var_len(15).unwrap();
    assert_eq!(s, "びかびかび");
}

#[test]
fn read_unsigned_integer_type() -> Result<(), CodecError> {
    let mut v: &[u8] = &[
        1, 2, 0, 3, 0, 0, 0, 4, 0, 0, 0, 0, 0, 0, 0, 0, 0, 0, 0, 0, 0, 0, 0, 0, 0, 0, 0, 0, 0, 0, 5,
    ];

    let u8_bytes: u8 = v.read_le()?;
    assert_eq!(u8_bytes, 1);

    let u16_bytes: u16 = v.read_le()?;
    assert_eq!(u16_bytes, 2);

    let u32_bytes: u32 = v.read_le()?;
    assert_eq!(u32_bytes, 3);

    let u64_bytes: u64 = v.read_le()?;
    assert_eq!(u64_bytes, 4);

    let u128_bytes: u128 = v.read_be()?;
    assert_eq!(u128_bytes, 5);

    Ok(())
}

#[test]
fn sequential_reads_leave_what_follows() {
    let mut v: &[u8] = &[1, 2, 0, 3, 0, 0, 0, 9, 8];
    let a: u8 = v.read_le().unwrap();
    let b: u16 = v.read_le().unwrap();
    let c: u32 = v.read_le().unwrap();
    assert_eq!((a, b, c), (1, 2, 3));
    assert_eq!(v, &[9, 8]);
}

#[test]
fn byte_order_of_a_16_bit_read() {
    let mut v: &[u8] = &[0x01, 0x02];
    let be: u16 = v.read_be().unwrap();
    assert_eq!(be, 0x0102);
    let mut v: &[u8] = &[0x01, 0x02];
    let le: u16 = v.read_le().unwrap();
    assert_eq!(le, 0x0201);
    let mut v: &[u8] = &[0x01, 0x02];
    let ne: u16 = v.read_ne().unwrap();
    assert_eq!(ne, u16::from_ne_bytes([0x01, 0x02]));
}

#[test]
fn reads_agree_with_the_standard_conversions() {
    let bytes: [u8; 16] = [
        0x80, 0x01, 0xfe, 0x7f, 0x10, 0x00, 0xff, 0x33, 0x44, 0x55, 0x66, 0x77, 0x88, 0x99, 0xaa, 0xbb,
    ];
    let mut v: &[u8] = &bytes;
    assert_eq!(v.read_be::<i8>().unwrap(), i8::from_be_bytes([0x80]));
    let mut v: &[u8] = &bytes;
    assert_eq!(v.read_be::<i16>().unwrap(), i16::from_be_bytes([0x80, 0x01]));
    let mut v: &[u8] = &bytes;
    assert_eq!(v.read_le::<i16>().unwrap(), i16::from_le_bytes([0x80, 0x01]));
    let mut v: &[u8] = &bytes;
    assert_eq!(v.read_be::<i32>().unwrap(), i32::from_be_bytes([0x80, 0x01, 0xfe, 0x7f]));
    let mut v: &[u8] = &bytes;
    assert_eq!(v.read_le::<u32>().unwrap(), u32::from_le_bytes([0x80, 0x01, 0xfe, 0x7f]));
    let mut first: [u8; 8] = [0; 8];
    first.copy_from_slice(&bytes[..8]);
    let mut v: &[u8] = &bytes;
    assert_eq!(v.read_be::<i64>().unwrap(), i64::from_be_bytes(first));
    let mut v: &[u8] = &bytes;
    assert_eq!(v.read_le::<u64>().unwrap(), u64::from_le_bytes(first));
    let mut v: &[u8] = &bytes;
    assert_eq!(v.read_be::<i128>().unwrap(), i128::from_be_bytes(bytes));
    let mut v: &[u8] = &bytes;
    assert_eq!(v.read_le::<i128>().unwrap(), i128::from_le_bytes(bytes));
    let mut v: &[u8] = &bytes;
    assert_eq!(v.read_be::<u128>().unwrap(), u128::from_be_bytes(bytes));
    let mut v: &[u8] = &bytes;
    assert_eq!(v.read_ne::<u128>().unwrap(), u128::from_ne_bytes(bytes));
}

#[test]
fn word_sized_reads_take_the_width_of_the_platform() {
    let width: usize = std::mem::size_of::<usize>();
    let bytes: [u8; 9] = [0xff, 0xee, 0xdd, 0xcc, 0xbb, 0xaa, 0x99, 0x88, 0x77];
    let mut word = [0u8; std::mem::size_of::<usize>()];
    word.copy_from_slice(&bytes[..width]);

    let mut v: &[u8] = &bytes;
    assert_eq!(v.read_be::<usize>().unwrap(), usize::from_be_bytes(word));
    assert_eq!(v.len(), 9 - width);
    let mut v: &[u8] = &bytes;
    assert_eq!(v.read_le::<usize>().unwrap(), usize::from_le_bytes(word));
    let mut v: &[u8] = &bytes;
    assert_eq!(v.read_be::<isize>().unwrap(), isize::from_be_bytes(word));
    let mut v: &[u8] = &bytes;
    assert_eq!(v.read_le::<isize>().unwrap(), isize::from_le_bytes(word));
    let mut v: &[u8] = &bytes;
    assert_eq!(v.read_ne::<isize>().unwrap(), isize::from_ne_bytes(word));
}

#[test]
fn short_stream_fails_a_fixed_width_read() {
    let mut v: &[u8] = &[1, 2, 3];
    assert_eq!(v.read_le::<u32>(), Err(CodecError::IncompleteRead));
    let mut v: &[u8] = &[];
    assert_eq!(v.read_be::<u8>(), Err(CodecError::IncompleteRead));
    let mut v: &[u8] = &[0; 15];
    assert_eq!(v.read_ne::<i128>(), Err(CodecError::IncompleteRead));
}

#[test]
fn short_stream_fails_a_constant_length_read() {
    let mut v: &[u8] = &[98, 107, 98, 107];
    let bytes: Result<[u8; 5], CodecError> = v.read_const_len();
    assert_eq!(bytes, Err(CodecError::IncompleteRead));
    let mut v: &[u8] = &[98, 107, 98, 107];
    let text: Result<String, CodecError> = v.read_const_len::<_, 5>();
    assert_eq!(text, Err(CodecError::IncompleteRead));
}

#[test]
fn short_stream_fails_a_variable_length_read() {
    let mut v: &[u8] = &[98, 107, 98, 107];
    let bytes: Result<Vec<u8>, CodecError> = v.read_var_len(5);
    assert_eq!(bytes, Err(CodecError::IncompleteRead));
    let mut v: &[u8] = &[98, 107, 98, 107];
    let text: Result<String, CodecError> = v.read_var_len(5);
    assert_eq!(text, Err(CodecError::IncompleteRead));
}

#[test]
fn a_read_of_no_bytes_succeeds_on_an_empty_stream() {
    let mut v: &[u8] = &[];
    let bytes: Vec<u8> = v.read_var_len(0).unwrap();
    assert_eq!(bytes, Vec::<u8>::new());
    let text: String = v.read_var_len(0).unwrap();
    assert_eq!(text, "");
    let none: [u8; 0] = v.read_const_len().unwrap();
    assert_eq!(none, [0u8; 0]);
}

#[test]
fn lone_continuation_byte_is_not_text() {
    let mut v: &[u8] = &[0x62, 0x80, 0x62];
    let text: Result<String, CodecError> = v.read_var_len(3);
    assert_eq!(text, Err(CodecError::InvalidEncoding));
    assert_eq!(v.len(), 0);

    let mut v: &[u8] = &[0x62, 0x80, 0x62];
    let text: Result<String, CodecError> = v.read_const_len::<_, 3>();
    assert_eq!(text, Err(CodecError::InvalidEncoding));

    let mut v: &[u8] = &[0x62, 0x80, 0x62];
    let bytes: Vec<u8> = v.read_var_len(3).unwrap();
    assert_eq!(bytes, vec![0x62, 0x80, 0x62]);

    let mut v: &[u8] = &[0x62, 0x80, 0x62];
    let bytes: [u8; 3] = v.read_const_len().unwrap();
    assert_eq!(bytes, [0x62, 0x80, 0x62]);
}

#[test]
fn truncated_and_overlong_sequences_are_not_text() {
    let mut v: &[u8] = &[0xE3, 0x81];
    let text: Result<String, CodecError> = v.read_var_len(2);
    assert_eq!(text, Err(CodecError::InvalidEncoding));
    let mut v: &[u8] = &[0xC0, 0x80];
    let text: Result<String, CodecError> = v.read_var_len(2);
    assert_eq!(text, Err(CodecError::InvalidEncoding));
    let mut v: &[u8] = &[0xED, 0xA0, 0x80];
    let text: Result<String, CodecError> = v.read_var_len(3);
    assert_eq!(text, Err(CodecError::InvalidEncoding));
}

#[test]
fn callback_zeroing_the_first_byte_shows_in_the_value() {
    let mut v: &[u8] = &[0x01, 0x02];
    let value: u16 = v
        .read_endianness_with_callback(|b: &mut [u8]| b[0] = 0, Endianness::LE)
        .unwrap();
    assert_eq!(value, 0x0200);

    let mut v: &[u8] = &[0x01, 0x02];
    let value: u16 = v
        .read_endianness_with_callback(|b: &mut [u8]| b[0] = 0, Endianness::BE)
        .unwrap();
    assert_eq!(value, 0x0002);
}

#[test]
fn callback_sees_exactly_the_bytes_read() {
    let mut v: &[u8] = &[1, 2, 3, 4, 5, 6];
    let value: u32 = v
        .read_endianness_with_callback(
            |b: &mut [u8]| {
                assert_eq!(b, &[1, 2, 3, 4]);
            },
            Endianness::BE,
        )
        .unwrap();
    assert_eq!(value, 0x01020304);
    assert_eq!(v, &[5, 6]);
}

#[test]
fn callback_changes_variable_and_constant_length_values() {
    let mut v: &[u8] = &[0x80, 107, 98];
    let text: String = v
        .read_var_len_with_callback(|b: &mut [u8]| b[0] = 98, 3)
        .unwrap();
    assert_eq!(text, "bkb");

    let mut v: &[u8] = &[98, 107, 98];
    let text: Result<String, CodecError> =
        v.read_const_len_with_callback::<_, _, 3>(|b: &mut [u8]| b[1] = 0xff);
    assert_eq!(text, Err(CodecError::InvalidEncoding));

    let mut v: &[u8] = &[1, 2, 3];
    let bytes: [u8; 3] = v
        .read_const_len_with_callback(|b: &mut [u8]| b.reverse())
        .unwrap();
    assert_eq!(bytes, [3, 2, 1]);

    let mut v: &[u8] = &[1, 2, 3];
    let bytes: Vec<u8> = v
        .read_var_len_with_callback(|b: &mut [u8]| b.reverse(), 2)
        .unwrap();
    assert_eq!(bytes, vec![2, 1]);
}

#[test]
fn callback_is_not_called_on_a_short_stream() {
    let mut v: &[u8] = &[1];
    let value: Result<u16, CodecError> = v.read_endianness_with_callback(
        |_: &mut [u8]| panic!("the callback ran on a short stream"),
        Endianness::LE,
    );
    assert_eq!(value, Err(CodecError::IncompleteRead));
}

#[test]
fn codec_functions_read_without_the_extension() {
    let mut v: &[u8] = &[0xff, 0xfe, 0x62, 0x6b];
    assert_eq!(i16::read_be_bytes(&mut v), Ok(-2));
    assert_eq!(String::read_variable_bytes(&mut v, 1), Ok(String::from("b")));
    let last: Result<[u8; 1], CodecError> = <[u8; 1]>::read_constant_bytes(&mut v);
    assert_eq!(last, Ok([0x6b]));
    assert_eq!(i16::read_le_bytes(&mut v), Err(CodecError::IncompleteRead));
    let mut v: &[u8] = &[0xfe, 0xff];
    assert_eq!(i16::read_le_bytes(&mut v), Ok(-2));
    let mut v: &[u8] = &[0xfe, 0xff];
    assert_eq!(i16::read_ne_bytes(&mut v), Ok(i16::from_ne_bytes([0xfe, 0xff])));
    let mut v: &[u8] = &[7, 8];
    assert_eq!(
        Vec::<u8>::read_variable_bytes_with_callback(&mut v, |_: &mut [u8]| {}, 2),
        Ok(vec![7, 8])
    );
}
