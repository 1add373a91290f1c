//! What holds between encoding and decoding.
use crate::fixed_width::FixedWidth;
use crate::raw::RawBytes;
use crate::wire::ByteOrder;
use crate::Endianness;
use vstd::prelude::*;

verus! {

/// Every endianness stands for at least one byte order, and the two explicit
/// ones for exactly one.
pub proof fn lemma_endianness_orders(endianness: Endianness)
    ensures
        exists|order: ByteOrder| #[trigger] endianness.permits(order),
        endianness != Endianness::NE ==> forall|a: ByteOrder, b: ByteOrder|
            #[trigger] endianness.permits(a) && #[trigger] endianness.permits(b) ==> a == b,
{
    match endianness {
        Endianness::BE => assert(endianness.permits(ByteOrder::Big)),
        Endianness::LE => assert(endianness.permits(ByteOrder::Little)),
        Endianness::NE => assert(endianness.permits(ByteOrder::Little)),
    }
}

/// Round trip of a fixed-width number: a stream that begins with the encoding
/// of `value` in some byte order holds enough bytes for a decode, a decode in
/// the same order finds `value`, and what follows the encoding is what the
/// stream holds afterwards.
pub proof fn lemma_decode_finds_encoded<T: FixedWidth>(value: T, order: ByteOrder, rest: Seq<u8>)
    ensures
        T::byte_len() <= (value.encoded(order) + rest).len(),
        (value.encoded(order) + rest).take(T::byte_len() as int) == value.encoded(order),
        T::decoded((value.encoded(order) + rest).take(T::byte_len() as int), order) == value,
        (value.encoded(order) + rest).skip(T::byte_len() as int) == rest,
{
    value.lemma_decode_encode(order);
    let stream = value.encoded(order) + rest;
    assert(stream.take(T::byte_len() as int) =~= value.encoded(order));
    assert(stream.skip(T::byte_len() as int) =~= rest);
}

/// Round trip of a byte run or of text: a stream that begins with the bytes of
/// `value` holds, in as many bytes as `value` has, a well-formed value with
/// the same bytes, and what follows them is what the stream holds afterwards.
pub proof fn lemma_read_finds_written<T: RawBytes + ?Sized>(value: &T, rest: Seq<u8>)
    ensures
        value.raw_bytes().len() <= (value.raw_bytes() + rest).len(),
        (value.raw_bytes() + rest).take(value.raw_bytes().len() as int) == value.raw_bytes(),
        T::well_formed((value.raw_bytes() + rest).take(value.raw_bytes().len() as int)),
        (value.raw_bytes() + rest).skip(value.raw_bytes().len() as int) == rest,
{
    value.lemma_raw_bytes_well_formed();
    let stream = value.raw_bytes() + rest;
    assert(stream.take(value.raw_bytes().len() as int) =~= value.raw_bytes());
    assert(stream.skip(value.raw_bytes().len() as int) =~= rest);
}

} // verus!
