//! Encoding of typed values onto a writable stream.
use crate::error::CodecError;
use crate::fixed_width::FixedWidth;
use crate::raw::RawBytes;
use crate::stream::{appended, ByteSink};
use crate::wire::{encode_unsigned, lemma_pow256_values, unsigned_of, ByteOrder};
use crate::Endianness;
use vstd::prelude::*;

verus! {

/// This trait is to write an endianness fixed-length bytes.
pub trait WriteEndianness: FixedWidth {
    /// Encodes the value in the given endianness, hands the bytes to
    /// `callback`, and writes what the callback left in the buffer.
    ///
    /// The write succeeds exactly when the stream has room for `byte_len()`
    /// more bytes.
    fn write_endianness_with_callback<F, W: ByteSink>(
        &self,
        writer: &mut W,
        callback: F,
        endianness: Endianness,
    ) -> (outcome: Result<(), CodecError>) where F: Fn(&mut [u8])
        requires
            forall|b: &mut [u8]|
                b@.len() == Self::byte_len() ==> #[trigger] call_requires(callback, (b,)),
        ensures
            outcome is Ok <==> old(writer).accepts(Self::byte_len()),
            outcome is Err ==> outcome == Err::<(), CodecError>(CodecError::WriteFailure),
            outcome is Ok ==> exists|b: &mut [u8], order: ByteOrder|
                b@ == self.encoded(order)
                    && #[trigger] call_ensures(callback, (b,), ())
                    && #[trigger] endianness.permits(order)
                    && final(b)@.len() == Self::byte_len()
                    && appended(old(writer), final(writer), final(b)@),
    ;

    /// This method writes bytes in big-endian byte order.
    fn write_be_bytes<W: ByteSink>(&self, writer: &mut W) -> (outcome: Result<(), CodecError>)
        ensures
            outcome is Ok <==> old(writer).accepts(Self::byte_len()),
            outcome is Err ==> outcome == Err::<(), CodecError>(CodecError::WriteFailure),
            outcome is Ok ==> appended(old(writer), final(writer), self.encoded(ByteOrder::Big)),
    {
        let keep = |b: &mut [u8]|
            ensures
                final(b)@ == old(b)@,
            {};
        self.write_endianness_with_callback(writer, keep, Endianness::BE)
    }

    /// This method writes bytes in little-endian byte order.
    fn write_le_bytes<W: ByteSink>(&self, writer: &mut W) -> (outcome: Result<(), CodecError>)
        ensures
            outcome is Ok <==> old(writer).accepts(Self::byte_len()),
            outcome is Err ==> outcome == Err::<(), CodecError>(CodecError::WriteFailure),
            outcome is Ok ==> appended(old(writer), final(writer), self.encoded(ByteOrder::Little)),
    {
        let keep = |b: &mut [u8]|
            ensures
                final(b)@ == old(b)@,
            {};
        self.write_endianness_with_callback(writer, keep, Endianness::LE)
    }

    /// This method writes bytes in native-endian byte order.
    ///
    /// As the target platform's native endianness is used, portable code
    /// should use `write_be_bytes` or `write_le_bytes`, as appropriate, instead.
    fn write_ne_bytes<W: ByteSink>(&self, writer: &mut W) -> (outcome: Result<(), CodecError>)
        ensures
            outcome is Ok <==> old(writer).accepts(Self::byte_len()),
            outcome is Err ==> outcome == Err::<(), CodecError>(CodecError::WriteFailure),
            outcome is Ok ==> exists|order: ByteOrder|
                appended(old(writer), final(writer), #[trigger] self.encoded(order)),
    {
        let keep = |b: &mut [u8]|
            ensures
                final(b)@ == old(b)@,
            {};
        self.write_endianness_with_callback(writer, keep, Endianness::NE)
    }
}

impl WriteEndianness for i8 {
    fn write_endianness_with_callback<F, W: ByteSink>(
        &self,
        writer: &mut W,
        callback: F,
        endianness: Endianness,
    ) -> (outcome: Result<(), CodecError>) where F: Fn(&mut [u8]) {
        let mut bytes = [0u8; 1];
        proof {
            lemma_pow256_values();
        }
        encode_unsigned(unsigned_of(*self as i128, 1), &mut bytes, endianness.resolve());
        callback(&mut bytes);
        writer.write_all(&bytes)?;
        Ok(())
    }
}

impl WriteEndianness for i16 {
    fn write_endianness_with_callback<F, W: ByteSink>(
        &self,
        writer: &mut W,
        callback: F,
        endianness: Endianness,
    ) -> (outcome: Result<(), CodecError>) where F: Fn(&mut [u8]) {
        let mut bytes = [0u8; 2];
        proof {
            lemma_pow256_values();
        }
        encode_unsigned(unsigned_of(*self as i128, 2), &mut bytes, endianness.resolve());
        callback(&mut bytes);
        writer.write_all(&bytes)?;
        Ok(())
    }
}

impl WriteEndianness for i32 {
    fn write_endianness_with_callback<F, W: ByteSink>(
        &self,
        writer: &mut W,
        callback: F,
        endianness: Endianness,
    ) -> (outcome: Result<(), CodecError>) where F: Fn(&mut [u8]) {
        let mut bytes = [0u8; 4];
        proof {
            lemma_pow256_values();
        }
        encode_unsigned(unsigned_of(*self as i128, 4), &mut bytes, endianness.resolve());
        callback(&mut bytes);
        writer.write_all(&bytes)?;
        Ok(())
    }
}

impl WriteEndianness for i64 {
    fn write_endianness_with_callback<F, W: ByteSink>(
        &self,
        writer: &mut W,
        callback: F,
        endianness: Endianness,
    ) -> (outcome: Result<(), CodecError>) where F: Fn(&mut [u8]) {
        let mut bytes = [0u8; 8];
        proof {
            lemma_pow256_values();
        }
        encode_unsigned(unsigned_of(*self as i128, 8), &mut bytes, endianness.resolve());
        callback(&mut bytes);
        writer.write_all(&bytes)?;
        Ok(())
    }
}

impl WriteEndianness for i128 {
    fn write_endianness_with_callback<F, W: ByteSink>(
        &self,
        writer: &mut W,
        callback: F,
        endianness: Endianness,
    ) -> (outcome: Result<(), CodecError>) where F: Fn(&mut [u8]) {
        let mut bytes = [0u8; 16];
        proof {
            lemma_pow256_values();
        }
        encode_unsigned(unsigned_of(*self as i128, 16), &mut bytes, endianness.resolve());
        callback(&mut bytes);
        writer.write_all(&bytes)?;
        Ok(())
    }
}

impl WriteEndianness for isize {
    fn write_endianness_with_callback<F, W: ByteSink>(
        &self,
        writer: &mut W,
        callback: F,
        endianness: Endianness,
    ) -> (outcome: Result<(), CodecError>) where F: Fn(&mut [u8]) {
        proof {
            lemma_pow256_values();
        }
        if isize::BITS == 64 {
            (*self as i64).write_endianness_with_callback(writer, callback, endianness)
        } else {
            (*self as i32).write_endianness_with_callback(writer, callback, endianness)
        }
    }
}

impl WriteEndianness for u8 {
    fn write_endianness_with_callback<F, W: ByteSink>(
        &self,
        writer: &mut W,
        callback: F,
        endianness: Endianness,
    ) -> (outcome: Result<(), CodecError>) where F: Fn(&mut [u8]) {
        let mut bytes = [0u8; 1];
        proof {
            lemma_pow256_values();
        }
        encode_unsigned(*self as u128, &mut bytes, endianness.resolve());
        callback(&mut bytes);
        writer.write_all(&bytes)?;
        Ok(())
    }
}

impl WriteEndianness for u16 {
    fn write_endianness_with_callback<F, W: ByteSink>(
        &self,
        writer: &mut W,
        callback: F,
        endianness: Endianness,
    ) -> (outcome: Result<(), CodecError>) where F: Fn(&mut [u8]) {
        let mut bytes = [0u8; 2];
        proof {
            lemma_pow256_values();
        }
        encode_unsigned(*self as u128, &mut bytes, endianness.resolve());
        callback(&mut bytes);
        writer.write_all(&bytes)?;
        Ok(())
    }
}

impl WriteEndianness for u32 {
    fn write_endianness_with_callback<F, W: ByteSink>(
        &self,
        writer: &mut W,
        callback: F,
        endianness: Endianness,
    ) -> (outcome: Result<(), CodecError>) where F: Fn(&mut [u8]) {
        let mut bytes = [0u8; 4];
        proof {
            lemma_pow256_values();
        }
        encode_unsigned(*self as u128, &mut bytes, endianness.resolve());
        callback(&mut bytes);
        writer.write_all(&bytes)?;
        Ok(())
    }
}

impl WriteEndianness for u64 {
    fn write_endianness_with_callback<F, W: ByteSink>(
        &self,
        writer: &mut W,
        callback: F,
        endianness: Endianness,
    ) -> (outcome: Result<(), CodecError>) where F: Fn(&mut [u8]) {
        let mut bytes = [0u8; 8];
        proof {
            lemma_pow256_values();
        }
        encode_unsigned(*self as u128, &mut bytes, endianness.resolve());
        callback(&mut bytes);
        writer.write_all(&bytes)?;
        Ok(())
    }
}

impl WriteEndianness for u128 {
    fn write_endianness_with_callback<F, W: ByteSink>(
        &self,
        writer: &mut W,
        callback: F,
        endianness: Endianness,
    ) -> (outcome: Result<(), CodecError>) where F: Fn(&mut [u8]) {
        let mut bytes = [0u8; 16];
        proof {
            lemma_pow256_values();
        }
        encode_unsigned(*self, &mut bytes, endianness.resolve());
        callback(&mut bytes);
        writer.write_all(&bytes)?;
        Ok(())
    }
}

impl WriteEndianness for usize {
    fn write_endianness_with_callback<F, W: ByteSink>(
        &self,
        writer: &mut W,
        callback: F,
        endianness: Endianness,
    ) -> (outcome: Result<(), CodecError>) where F: Fn(&mut [u8]) {
        proof {
            lemma_pow256_values();
        }
        if usize::BITS == 64 {
            (*self as u64).write_endianness_with_callback(writer, callback, endianness)
        } else {
            (*self as u32).write_endianness_with_callback(writer, callback, endianness)
        }
    }
}

/// This trait is to write a value's own bytes, as many as it has.
pub trait WriteRef: RawBytes {
    /// Shows the value's bytes to `callback`, then writes them.
    ///
    /// The write succeeds exactly when the stream has room for them.
    fn write_ref_bytes_with_callback<F, W: ByteSink>(&self, writer: &mut W, callback: F) -> (outcome:
        Result<(), CodecError>) where F: Fn(&[u8])
        requires
            forall|b: &[u8]| b@ == self.raw_bytes() ==> #[trigger] call_requires(callback, (b,)),
        ensures
            outcome is Ok <==> old(writer).accepts(self.raw_bytes().len()),
            outcome is Err ==> outcome == Err::<(), CodecError>(CodecError::WriteFailure),
            outcome is Ok ==> appended(old(writer), final(writer), self.raw_bytes()),
    ;

    fn write_ref_bytes<W: ByteSink>(&self, writer: &mut W) -> (outcome: Result<(), CodecError>)
        ensures
            outcome is Ok <==> old(writer).accepts(self.raw_bytes().len()),
            outcome is Err ==> outcome == Err::<(), CodecError>(CodecError::WriteFailure),
            outcome is Ok ==> appended(old(writer), final(writer), self.raw_bytes()),
    {
        let look = |b: &[u8]| {};
        self.write_ref_bytes_with_callback(writer, look)
    }
}

impl WriteRef for [u8] {
    fn write_ref_bytes_with_callback<F, W: ByteSink>(&self, writer: &mut W, callback: F) -> (outcome:
        Result<(), CodecError>) where F: Fn(&[u8]) {
        callback(self);
        writer.write_all(self)?;
        Ok(())
    }
}

impl WriteRef for str {
    fn write_ref_bytes_with_callback<F, W: ByteSink>(&self, writer: &mut W, callback: F) -> (outcome:
        Result<(), CodecError>) where F: Fn(&[u8]) {
        let bytes = self.as_bytes();
        callback(bytes);
        writer.write_all(bytes)?;
        Ok(())
    }
}

} // verus!
