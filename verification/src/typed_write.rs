//! Short-named typed writes for every writable stream.
use crate::error::CodecError;
use crate::fixed_width::FixedWidth;
use crate::raw::RawBytes;
use crate::stream::{appended, ByteSink};
use crate::wire::ByteOrder;
use crate::write_bytes::{WriteEndianness, WriteRef};
use crate::Endianness;
use vstd::prelude::*;

verus! {

/// Typed writes on a stream. Every [`ByteSink`] has them.
pub trait TypedWrite: ByteSink + Sized {
    /// Writes a fixed-width number in the given endianness, letting
    /// `callback` see and change the bytes before they are written.
    fn write_endian_with_callback<F, T: WriteEndianness>(
        &mut self,
        n: T,
        callback: F,
        endianness: Endianness,
    ) -> (outcome: Result<(), CodecError>) where F: Fn(&mut [u8])
        requires
            forall|b: &mut [u8]|
                b@.len() == T::byte_len() ==> #[trigger] call_requires(callback, (b,)),
        ensures
            outcome is Ok <==> old(self).accepts(T::byte_len()),
            outcome is Err ==> outcome == Err::<(), CodecError>(CodecError::WriteFailure),
            outcome is Ok ==> exists|b: &mut [u8], order: ByteOrder|
                b@ == n.encoded(order)
                    && #[trigger] call_ensures(callback, (b,), ())
                    && #[trigger] endianness.permits(order)
                    && final(b)@.len() == T::byte_len()
                    && appended(old(self), final(self), final(b)@),
    {
        n.write_endianness_with_callback(self, callback, endianness)
    }

    /// Writes a fixed-width number in big-endian byte order.
    fn write_be<T: WriteEndianness>(&mut self, n: T) -> (outcome: Result<(), CodecError>)
        ensures
            outcome is Ok <==> old(self).accepts(T::byte_len()),
            outcome is Err ==> outcome == Err::<(), CodecError>(CodecError::WriteFailure),
            outcome is Ok ==> appended(old(self), final(self), n.encoded(ByteOrder::Big)),
    {
        n.write_be_bytes(self)
    }

    /// Writes a fixed-width number in little-endian byte order.
    fn write_le<T: WriteEndianness>(&mut self, n: T) -> (outcome: Result<(), CodecError>)
        ensures
            outcome is Ok <==> old(self).accepts(T::byte_len()),
            outcome is Err ==> outcome == Err::<(), CodecError>(CodecError::WriteFailure),
            outcome is Ok ==> appended(old(self), final(self), n.encoded(ByteOrder::Little)),
    {
        n.write_le_bytes(self)
    }

    /// Writes a fixed-width number in the byte order of this machine.
    fn write_ne<T: WriteEndianness>(&mut self, n: T) -> (outcome: Result<(), CodecError>)
        ensures
            outcome is Ok <==> old(self).accepts(T::byte_len()),
            outcome is Err ==> outcome == Err::<(), CodecError>(CodecError::WriteFailure),
            outcome is Ok ==> exists|order: ByteOrder|
                appended(old(self), final(self), #[trigger] n.encoded(order)),
    {
        n.write_ne_bytes(self)
    }

    /// Writes a value's own bytes, showing them to `callback` first.
    fn write_ref_with_callback<F, T: WriteRef>(&mut self, n: T, callback: F) -> (outcome: Result<
        (),
        CodecError,
    >) where F: Fn(&[u8])
        requires
            forall|b: &[u8]| b@ == n.raw_bytes() ==> #[trigger] call_requires(callback, (b,)),
        ensures
            outcome is Ok <==> old(self).accepts(n.raw_bytes().len()),
            outcome is Err ==> outcome == Err::<(), CodecError>(CodecError::WriteFailure),
            outcome is Ok ==> appended(old(self), final(self), n.raw_bytes()),
    {
        n.write_ref_bytes_with_callback(self, callback)
    }

    /// Writes a value's own bytes, with no length before them.
    fn write_ref<T: WriteRef + ?Sized>(&mut self, n: &T) -> (outcome: Result<(), CodecError>)
        ensures
            outcome is Ok <==> old(self).accepts(n.raw_bytes().len()),
            outcome is Err ==> outcome == Err::<(), CodecError>(CodecError::WriteFailure),
            outcome is Ok ==> appended(old(self), final(self), n.raw_bytes()),
    {
        n.write_ref_bytes(self)
    }
}

impl<W: ByteSink> TypedWrite for W {

}

} // verus!
