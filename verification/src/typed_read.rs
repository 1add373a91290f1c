//! Short-named typed reads for every readable stream.
use crate::error::CodecError;
use crate::fixed_width::FixedWidth;
use crate::raw::RawBytes;
use crate::read_bytes::{ReadConstant, ReadEndianness, ReadVariable};
use crate::stream::ByteSource;
use crate::wire::ByteOrder;
use crate::Endianness;
use vstd::prelude::*;

verus! {

/// Typed reads on a stream. Every [`ByteSource`] has them.
pub trait TypedRead: ByteSource + Sized {
    /// Reads a fixed-width number in the given endianness, letting `callback`
    /// see and change the bytes before they are decoded.
    fn read_endianness_with_callback<F, T: ReadEndianness>(
        &mut self,
        callback: F,
        endianness: Endianness,
    ) -> (outcome: Result<T, CodecError>) where F: Fn(&mut [u8])
        requires
            forall|b: &mut [u8]|
                b@.len() == T::byte_len() ==> #[trigger] call_requires(callback, (b,)),
        ensures
            outcome is Ok <==> T::byte_len() <= old(self).remaining().len(),
            outcome is Err ==> outcome == Err::<T, CodecError>(CodecError::IncompleteRead),
            outcome is Ok ==> final(self).remaining() == old(self).remaining().skip(
                T::byte_len() as int,
            ),
            outcome is Ok ==> exists|b: &mut [u8], order: ByteOrder|
                b@ == old(self).remaining().take(T::byte_len() as int)
                    && #[trigger] call_ensures(callback, (b,), ())
                    && #[trigger] endianness.permits(order)
                    && final(b)@.len() == T::byte_len()
                    && outcome.unwrap() == T::decoded(final(b)@, order),
    {
        <T>::read_endianness_bytes_with_callback(self, callback, endianness)
    }

    /// Reads a fixed-width number in big-endian byte order.
    fn read_be<T: ReadEndianness>(&mut self) -> (outcome: Result<T, CodecError>)
        ensures
            outcome is Ok <==> T::byte_len() <= old(self).remaining().len(),
            outcome is Err ==> outcome == Err::<T, CodecError>(CodecError::IncompleteRead),
            outcome is Ok ==> final(self).remaining() == old(self).remaining().skip(
                T::byte_len() as int,
            ),
            outcome is Ok ==> outcome.unwrap() == T::decoded(
                old(self).remaining().take(T::byte_len() as int),
                ByteOrder::Big,
            ),
    {
        <T>::read_be_bytes(self)
    }

    /// Reads a fixed-width number in little-endian byte order.
    fn read_le<T: ReadEndianness>(&mut self) -> (outcome: Result<T, CodecError>)
        ensures
            outcome is Ok <==> T::byte_len() <= old(self).remaining().len(),
            outcome is Err ==> outcome == Err::<T, CodecError>(CodecError::IncompleteRead),
            outcome is Ok ==> final(self).remaining() == old(self).remaining().skip(
                T::byte_len() as int,
            ),
            outcome is Ok ==> outcome.unwrap() == T::decoded(
                old(self).remaining().take(T::byte_len() as int),
                ByteOrder::Little,
            ),
    {
        <T>::read_le_bytes(self)
    }

    /// Reads a fixed-width number in the byte order of this machine.
    fn read_ne<T: ReadEndianness>(&mut self) -> (outcome: Result<T, CodecError>)
        ensures
            outcome is Ok <==> T::byte_len() <= old(self).remaining().len(),
            outcome is Err ==> outcome == Err::<T, CodecError>(CodecError::IncompleteRead),
            outcome is Ok ==> final(self).remaining() == old(self).remaining().skip(
                T::byte_len() as int,
            ),
            outcome is Ok ==> exists|order: ByteOrder|
                outcome.unwrap() == #[trigger] T::decoded(
                    old(self).remaining().take(T::byte_len() as int),
                    order,
                ),
    {
        <T>::read_ne_bytes(self)
    }

    /// Reads a value of `length` bytes, letting `callback` see and change the
    /// bytes before they are taken as the value.
    fn read_var_len_with_callback<F, T: ReadVariable>(&mut self, callback: F, length: usize) -> (outcome:
        Result<T, CodecError>) where F: Fn(&mut [u8])
        requires
            forall|b: &mut [u8]| b@.len() == length ==> #[trigger] call_requires(callback, (b,)),
            forall|b: &mut [u8]| #[trigger]
                call_ensures(callback, (b,), ()) ==> final(b)@.len() == b@.len(),
        ensures
            old(self).remaining().len() < length <==> outcome == Err::<T, CodecError>(
                CodecError::IncompleteRead,
            ),
            length <= old(self).remaining().len() ==> final(self).remaining() == old(
                self,
            ).remaining().skip(length as int),
            length <= old(self).remaining().len() ==> exists|b: &mut [u8]|
                b@ == old(self).remaining().take(length as int)
                    && #[trigger] call_ensures(callback, (b,), ())
                    && final(b)@.len() == length
                    && match outcome {
                        Ok(value) => T::well_formed(final(b)@) && value.raw_bytes() == final(b)@,
                        Err(e) => e == CodecError::InvalidEncoding && !T::well_formed(final(b)@),
                    },
    {
        <T>::read_variable_bytes_with_callback(self, callback, length)
    }

    /// Reads a value of `length` bytes.
    fn read_var_len<T: ReadVariable>(&mut self, length: usize) -> (outcome: Result<T, CodecError>)
        ensures
            old(self).remaining().len() < length <==> outcome == Err::<T, CodecError>(
                CodecError::IncompleteRead,
            ),
            length <= old(self).remaining().len() ==> final(self).remaining() == old(
                self,
            ).remaining().skip(length as int),
            length <= old(self).remaining().len() ==> match outcome {
                Ok(value) => T::well_formed(old(self).remaining().take(length as int))
                    && value.raw_bytes() == old(self).remaining().take(length as int),
                Err(e) => e == CodecError::InvalidEncoding && !T::well_formed(
                    old(self).remaining().take(length as int),
                ),
            },
    {
        <T>::read_variable_bytes(self, length)
    }

    /// Reads a value of `LENGTH` bytes, letting `callback` see and change the
    /// bytes before they are taken as the value.
    fn read_const_len_with_callback<F, T: ReadConstant<LENGTH>, const LENGTH: usize>(
        &mut self,
        callback: F,
    ) -> (outcome: Result<T, CodecError>) where F: Fn(&mut [u8])
        requires
            forall|b: &mut [u8]| b@.len() == LENGTH ==> #[trigger] call_requires(callback, (b,)),
        ensures
            old(self).remaining().len() < LENGTH <==> outcome == Err::<T, CodecError>(
                CodecError::IncompleteRead,
            ),
            LENGTH <= old(self).remaining().len() ==> final(self).remaining() == old(
                self,
            ).remaining().skip(LENGTH as int),
            LENGTH <= old(self).remaining().len() ==> exists|b: &mut [u8]|
                b@ == old(self).remaining().take(LENGTH as int)
                    && #[trigger] call_ensures(callback, (b,), ())
                    && final(b)@.len() == LENGTH
                    && match outcome {
                        Ok(value) => T::well_formed(final(b)@) && value.raw_bytes() == final(b)@,
                        Err(e) => e == CodecError::InvalidEncoding && !T::well_formed(final(b)@),
                    },
    {
        <T>::read_constant_bytes_with_callback(self, callback)
    }

    /// Reads a value of `LENGTH` bytes.
    fn read_const_len<T: ReadConstant<LENGTH>, const LENGTH: usize>(&mut self) -> (outcome: Result<
        T,
        CodecError,
    >)
        ensures
            old(self).remaining().len() < LENGTH <==> outcome == Err::<T, CodecError>(
                CodecError::IncompleteRead,
            ),
            LENGTH <= old(self).remaining().len() ==> final(self).remaining() == old(
                self,
            ).remaining().skip(LENGTH as int),
            LENGTH <= old(self).remaining().len() ==> match outcome {
                Ok(value) => T::well_formed(old(self).remaining().take(LENGTH as int))
                    && value.raw_bytes() == old(self).remaining().take(LENGTH as int),
                Err(e) => e == CodecError::InvalidEncoding && !T::well_formed(
                    old(self).remaining().take(LENGTH as int),
                ),
            },
    {
        <T>::read_constant_bytes(self)
    }
}

impl<R: ByteSource> TypedRead for R {

}

} // verus!
