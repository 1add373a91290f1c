//! Decoding of typed values from a readable stream.
use crate::error::CodecError;
use crate::fixed_width::FixedWidth;
use crate::raw::{text_from_utf8, RawBytes};
use crate::stream::ByteSource;
use crate::wire::{decode_unsigned, lemma_pow256_values, signed_of, ByteOrder};
use crate::Endianness;
use vstd::prelude::*;
use vstd::slice::slice_to_vec;
use vstd::utf8::decode_utf8_encode_utf8;

verus! {

/// This trait is to read an endianness fixed-length bytes.
pub trait ReadEndianness: FixedWidth {
    /// Reads `byte_len()` bytes, hands them to `callback`, and decodes what
    /// the callback left in the buffer in the given endianness.
    ///
    /// The read succeeds exactly when the stream still holds that many bytes,
    /// and then moves the stream past them.
    fn read_endianness_bytes_with_callback<F, R: ByteSource>(
        reader: &mut R,
        callback: F,
        endianness: Endianness,
    ) -> (outcome: Result<Self, CodecError>) where F: Fn(&mut [u8])
        requires
            forall|b: &mut [u8]|
                b@.len() == Self::byte_len() ==> #[trigger] call_requires(callback, (b,)),
        ensures
            outcome is Ok <==> Self::byte_len() <= old(reader).remaining().len(),
            outcome is Err ==> outcome == Err::<Self, CodecError>(CodecError::IncompleteRead),
            outcome is Ok ==> final(reader).remaining() == old(reader).remaining().skip(
                Self::byte_len() as int,
            ),
            outcome is Ok ==> exists|b: &mut [u8], order: ByteOrder|
                b@ == old(reader).remaining().take(Self::byte_len() as int)
                    && #[trigger] call_ensures(callback, (b,), ())
                    && #[trigger] endianness.permits(order)
                    && final(b)@.len() == Self::byte_len()
                    && outcome.unwrap() == Self::decoded(final(b)@, order),
    ;

    /// This method reads bytes in big-endian byte order.
    fn read_be_bytes<R: ByteSource>(reader: &mut R) -> (outcome: Result<Self, CodecError>)
        ensures
            outcome is Ok <==> Self::byte_len() <= old(reader).remaining().len(),
            outcome is Err ==> outcome == Err::<Self, CodecError>(CodecError::IncompleteRead),
            outcome is Ok ==> final(reader).remaining() == old(reader).remaining().skip(
                Self::byte_len() as int,
            ),
            outcome is Ok ==> outcome.unwrap() == Self::decoded(
                old(reader).remaining().take(Self::byte_len() as int),
                ByteOrder::Big,
            ),
    {
        let keep = |b: &mut [u8]|
            ensures
                final(b)@ == old(b)@,
            {};
        Self::read_endianness_bytes_with_callback(reader, keep, Endianness::BE)
    }

    /// This method reads bytes in little-endian byte order.
    fn read_le_bytes<R: ByteSource>(reader: &mut R) -> (outcome: Result<Self, CodecError>)
        ensures
            outcome is Ok <==> Self::byte_len() <= old(reader).remaining().len(),
            outcome is Err ==> outcome == Err::<Self, CodecError>(CodecError::IncompleteRead),
            outcome is Ok ==> final(reader).remaining() == old(reader).remaining().skip(
                Self::byte_len() as int,
            ),
            outcome is Ok ==> outcome.unwrap() == Self::decoded(
                old(reader).remaining().take(Self::byte_len() as int),
                ByteOrder::Little,
            ),
    {
        let keep = |b: &mut [u8]|
            ensures
                final(b)@ == old(b)@,
            {};
        Self::read_endianness_bytes_with_callback(reader, keep, Endianness::LE)
    }

    /// This method reads bytes in native-endian byte order.
    ///
    /// As the target platform's native endianness is used, portable code
    /// should use `read_be_bytes` or `read_le_bytes`, as appropriate, instead.
    fn read_ne_bytes<R: ByteSource>(reader: &mut R) -> (outcome: Result<Self, CodecError>)
        ensures
            outcome is Ok <==> Self::byte_len() <= old(reader).remaining().len(),
            outcome is Err ==> outcome == Err::<Self, CodecError>(CodecError::IncompleteRead),
            outcome is Ok ==> final(reader).remaining() == old(reader).remaining().skip(
                Self::byte_len() as int,
            ),
            outcome is Ok ==> exists|order: ByteOrder|
                outcome.unwrap() == #[trigger] Self::decoded(
                    old(reader).remaining().take(Self::byte_len() as int),
                    order,
                ),
    {
        let keep = |b: &mut [u8]|
            ensures
                final(b)@ == old(b)@,
            {};
        Self::read_endianness_bytes_with_callback(reader, keep, Endianness::NE)
    }
}

impl ReadEndianness for i8 {
    fn read_endianness_bytes_with_callback<F, R: ByteSource>(
        reader: &mut R,
        callback: F,
        endianness: Endianness,
    ) -> (outcome: Result<Self, CodecError>) where F: Fn(&mut [u8]) {
        let mut buf = [0u8; 1];
        reader.read_exact(&mut buf)?;
        callback(&mut buf);
        proof {
            lemma_pow256_values();
        }
        Ok(signed_of(decode_unsigned(&buf, endianness.resolve()), 1) as i8)
    }
}

impl ReadEndianness for i16 {
    fn read_endianness_bytes_with_callback<F, R: ByteSource>(
        reader: &mut R,
        callback: F,
        endianness: Endianness,
    ) -> (outcome: Result<Self, CodecError>) where F: Fn(&mut [u8]) {
        let mut buf = [0u8; 2];
        reader.read_exact(&mut buf)?;
        callback(&mut buf);
        proof {
            lemma_pow256_values();
        }
        Ok(signed_of(decode_unsigned(&buf, endianness.resolve()), 2) as i16)
    }
}

impl ReadEndianness for i32 {
    fn read_endianness_bytes_with_callback<F, R: ByteSource>(
        reader: &mut R,
        callback: F,
        endianness: Endianness,
    ) -> (outcome: Result<Self, CodecError>) where F: Fn(&mut [u8]) {
        let mut buf = [0u8; 4];
        reader.read_exact(&mut buf)?;
        callback(&mut buf);
        proof {
            lemma_pow256_values();
        }
        Ok(signed_of(decode_unsigned(&buf, endianness.resolve()), 4) as i32)
    }
}

impl ReadEndianness for i64 {
    fn read_endianness_bytes_with_callback<F, R: ByteSource>(
        reader: &mut R,
        callback: F,
        endianness: Endianness,
    ) -> (outcome: Result<Self, CodecError>) where F: Fn(&mut [u8]) {
        let mut buf = [0u8; 8];
        reader.read_exact(&mut buf)?;
        callback(&mut buf);
        proof {
            lemma_pow256_values();
        }
        Ok(signed_of(decode_unsigned(&buf, endianness.resolve()), 8) as i64)
    }
}

impl ReadEndianness for i128 {
    fn read_endianness_bytes_with_callback<F, R: ByteSource>(
        reader: &mut R,
        callback: F,
        endianness: Endianness,
    ) -> (outcome: Result<Self, CodecError>) where F: Fn(&mut [u8]) {
        let mut buf = [0u8; 16];
        reader.read_exact(&mut buf)?;
        callback(&mut buf);
        proof {
            lemma_pow256_values();
        }
        Ok(signed_of(decode_unsigned(&buf, endianness.resolve()), 16) as i128)
    }
}

impl ReadEndianness for isize {
    fn read_endianness_bytes_with_callback<F, R: ByteSource>(
        reader: &mut R,
        callback: F,
        endianness: Endianness,
    ) -> (outcome: Result<Self, CodecError>) where F: Fn(&mut [u8]) {
        proof {
            lemma_pow256_values();
        }
        if isize::BITS == 64 {
            let wide = i64::read_endianness_bytes_with_callback(reader, callback, endianness)?;
            Ok(wide as isize)
        } else {
            let narrow = i32::read_endianness_bytes_with_callback(reader, callback, endianness)?;
            Ok(narrow as isize)
        }
    }
}

impl ReadEndianness for u8 {
    fn read_endianness_bytes_with_callback<F, R: ByteSource>(
        reader: &mut R,
        callback: F,
        endianness: Endianness,
    ) -> (outcome: Result<Self, CodecError>) where F: Fn(&mut [u8]) {
        let mut buf = [0u8; 1];
        reader.read_exact(&mut buf)?;
        callback(&mut buf);
        proof {
            lemma_pow256_values();
        }
        Ok(decode_unsigned(&buf, endianness.resolve()) as u8)
    }
}

impl ReadEndianness for u16 {
    fn read_endianness_bytes_with_callback<F, R: ByteSource>(
        reader: &mut R,
        callback: F,
        endianness: Endianness,
    ) -> (outcome: Result<Self, CodecError>) where F: Fn(&mut [u8]) {
        let mut buf = [0u8; 2];
        reader.read_exact(&mut buf)?;
        callback(&mut buf);
        proof {
            lemma_pow256_values();
        }
        Ok(decode_unsigned(&buf, endianness.resolve()) as u16)
    }
}

impl ReadEndianness for u32 {
    fn read_endianness_bytes_with_callback<F, R: ByteSource>(
        reader: &mut R,
        callback: F,
        endianness: Endianness,
    ) -> (outcome: Result<Self, CodecError>) where F: Fn(&mut [u8]) {
        let mut buf = [0u8; 4];
        reader.read_exact(&mut buf)?;
        callback(&mut buf);
        proof {
            lemma_pow256_values();
        }
        Ok(decode_unsigned(&buf, endianness.resolve()) as u32)
    }
}

impl ReadEndianness for u64 {
    fn read_endianness_bytes_with_callback<F, R: ByteSource>(
        reader: &mut R,
        callback: F,
        endianness: Endianness,
    ) -> (outcome: Result<Self, CodecError>) where F: Fn(&mut [u8]) {
        let mut buf = [0u8; 8];
        reader.read_exact(&mut buf)?;
        callback(&mut buf);
        proof {
            lemma_pow256_values();
        }
        Ok(decode_unsigned(&buf, endianness.resolve()) as u64)
    }
}

impl ReadEndianness for u128 {
    fn read_endianness_bytes_with_callback<F, R: ByteSource>(
        reader: &mut R,
        callback: F,
        endianness: Endianness,
    ) -> (outcome: Result<Self, CodecError>) where F: Fn(&mut [u8]) {
        let mut buf = [0u8; 16];
        reader.read_exact(&mut buf)?;
        callback(&mut buf);
        proof {
            lemma_pow256_values();
        }
        Ok(decode_unsigned(&buf, endianness.resolve()))
    }
}

impl ReadEndianness for usize {
    fn read_endianness_bytes_with_callback<F, R: ByteSource>(
        reader: &mut R,
        callback: F,
        endianness: Endianness,
    ) -> (outcome: Result<Self, CodecError>) where F: Fn(&mut [u8]) {
        proof {
            lemma_pow256_values();
        }
        if usize::BITS == 64 {
            let wide = u64::read_endianness_bytes_with_callback(reader, callback, endianness)?;
            Ok(wide as usize)
        } else {
            let narrow = u32::read_endianness_bytes_with_callback(reader, callback, endianness)?;
            Ok(narrow as usize)
        }
    }
}

/// This trait is to read a variable-length array.
pub trait ReadVariable: RawBytes + Sized {
    /// Reads `length` bytes, hands them to `callback`, and takes what the
    /// callback left in the buffer as the value.
    ///
    /// A stream that holds fewer than `length` bytes gives
    /// [`CodecError::IncompleteRead`]. Otherwise the stream moves past the
    /// bytes, and the outcome is the value when the bytes are well-formed for
    /// this kind and [`CodecError::InvalidEncoding`] when they are not.
    fn read_variable_bytes_with_callback<F, R: ByteSource>(
        reader: &mut R,
        callback: F,
        length: usize,
    ) -> (outcome: Result<Self, CodecError>) where F: Fn(&mut [u8])
        requires
            forall|b: &mut [u8]| b@.len() == length ==> #[trigger] call_requires(callback, (b,)),
            forall|b: &mut [u8]| #[trigger]
                call_ensures(callback, (b,), ()) ==> final(b)@.len() == b@.len(),
        ensures
            old(reader).remaining().len() < length <==> outcome == Err::<Self, CodecError>(
                CodecError::IncompleteRead,
            ),
            length <= old(reader).remaining().len() ==> final(reader).remaining() == old(
                reader,
            ).remaining().skip(length as int),
            length <= old(reader).remaining().len() ==> exists|b: &mut [u8]|
                b@ == old(reader).remaining().take(length as int)
                    && #[trigger] call_ensures(callback, (b,), ())
                    && final(b)@.len() == length
                    && match outcome {
                        Ok(value) => Self::well_formed(final(b)@) && value.raw_bytes() == final(b)@,
                        Err(e) => e == CodecError::InvalidEncoding && !Self::well_formed(final(b)@),
                    },
    ;

    fn read_variable_bytes<R: ByteSource>(reader: &mut R, length: usize) -> (outcome: Result<
        Self,
        CodecError,
    >)
        ensures
            old(reader).remaining().len() < length <==> outcome == Err::<Self, CodecError>(
                CodecError::IncompleteRead,
            ),
            length <= old(reader).remaining().len() ==> final(reader).remaining() == old(
                reader,
            ).remaining().skip(length as int),
            length <= old(reader).remaining().len() ==> match outcome {
                Ok(value) => Self::well_formed(old(reader).remaining().take(length as int))
                    && value.raw_bytes() == old(reader).remaining().take(length as int),
                Err(e) => e == CodecError::InvalidEncoding && !Self::well_formed(
                    old(reader).remaining().take(length as int),
                ),
            },
    {
        let keep = |b: &mut [u8]|
            ensures
                final(b)@ == old(b)@,
            {};
        Self::read_variable_bytes_with_callback(reader, keep, length)
    }
}

impl ReadVariable for Vec<u8> {
    fn read_variable_bytes_with_callback<F, R: ByteSource>(
        reader: &mut R,
        callback: F,
        length: usize,
    ) -> (outcome: Result<Vec<u8>, CodecError>) where F: Fn(&mut [u8]) {
        let mut buf = vec![0u8; length];
        reader.read_exact(buf.as_mut_slice())?;
        callback(buf.as_mut_slice());
        Ok(buf)
    }
}

impl ReadVariable for String {
    fn read_variable_bytes_with_callback<F, R: ByteSource>(
        reader: &mut R,
        callback: F,
        length: usize,
    ) -> (outcome: Result<String, CodecError>) where F: Fn(&mut [u8]) {
        let vec = Vec::<u8>::read_variable_bytes_with_callback(reader, callback, length)?;
        proof {
            if vstd::utf8::valid_utf8(vec@) {
                decode_utf8_encode_utf8(vec@);
            }
        }
        match text_from_utf8(vec) {
            Some(s) => Ok(s),
            None => Err(CodecError::InvalidEncoding),
        }
    }
}

/// This trait is to read a constant-length array.
pub trait ReadConstant<const LENGTH: usize>: RawBytes + Sized {
    /// Reads `LENGTH` bytes, hands them to `callback`, and takes what the
    /// callback left in the buffer as the value.
    ///
    /// A stream that holds fewer than `LENGTH` bytes gives
    /// [`CodecError::IncompleteRead`]. Otherwise the stream moves past the
    /// bytes, and the outcome is the value when the bytes are well-formed for
    /// this kind and [`CodecError::InvalidEncoding`] when they are not.
    fn read_constant_bytes_with_callback<F, R: ByteSource>(reader: &mut R, callback: F) -> (outcome:
        Result<Self, CodecError>) where F: Fn(&mut [u8])
        requires
            forall|b: &mut [u8]| b@.len() == LENGTH ==> #[trigger] call_requires(callback, (b,)),
        ensures
            old(reader).remaining().len() < LENGTH <==> outcome == Err::<Self, CodecError>(
                CodecError::IncompleteRead,
            ),
            LENGTH <= old(reader).remaining().len() ==> final(reader).remaining() == old(
                reader,
            ).remaining().skip(LENGTH as int),
            LENGTH <= old(reader).remaining().len() ==> exists|b: &mut [u8]|
                b@ == old(reader).remaining().take(LENGTH as int)
                    && #[trigger] call_ensures(callback, (b,), ())
                    && final(b)@.len() == LENGTH
                    && match outcome {
                        Ok(value) => Self::well_formed(final(b)@) && value.raw_bytes() == final(b)@,
                        Err(e) => e == CodecError::InvalidEncoding && !Self::well_formed(final(b)@),
                    },
    ;

    fn read_constant_bytes<R: ByteSource>(reader: &mut R) -> (outcome: Result<Self, CodecError>)
        ensures
            old(reader).remaining().len() < LENGTH <==> outcome == Err::<Self, CodecError>(
                CodecError::IncompleteRead,
            ),
            LENGTH <= old(reader).remaining().len() ==> final(reader).remaining() == old(
                reader,
            ).remaining().skip(LENGTH as int),
            LENGTH <= old(reader).remaining().len() ==> match outcome {
                Ok(value) => Self::well_formed(old(reader).remaining().take(LENGTH as int))
                    && value.raw_bytes() == old(reader).remaining().take(LENGTH as int),
                Err(e) => e == CodecError::InvalidEncoding && !Self::well_formed(
                    old(reader).remaining().take(LENGTH as int),
                ),
            },
    {
        let keep = |b: &mut [u8]|
            ensures
                final(b)@ == old(b)@,
            {};
        Self::read_constant_bytes_with_callback(reader, keep)
    }
}

impl<const LENGTH: usize> ReadConstant<LENGTH> for [u8; LENGTH] {
    fn read_constant_bytes_with_callback<F, R: ByteSource>(reader: &mut R, callback: F) -> (outcome:
        Result<Self, CodecError>) where F: Fn(&mut [u8]) {
        let mut buf = [0u8; LENGTH];
        reader.read_exact(&mut buf)?;
        callback(&mut buf);
        Ok(buf)
    }
}

impl<const LENGTH: usize> ReadConstant<LENGTH> for String {
    fn read_constant_bytes_with_callback<F, R: ByteSource>(reader: &mut R, callback: F) -> (outcome:
        Result<Self, CodecError>) where F: Fn(&mut [u8]) {
        let bytes = <[u8; LENGTH]>::read_constant_bytes_with_callback(reader, callback)?;
        let vec = slice_to_vec(bytes.as_slice());
        proof {
            if vstd::utf8::valid_utf8(vec@) {
                decode_utf8_encode_utf8(vec@);
            }
        }
        match text_from_utf8(vec) {
            Some(s) => Ok(s),
            None => Err(CodecError::InvalidEncoding),
        }
    }
}

} // verus!
