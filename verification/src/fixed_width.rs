//! The wire form of each fixed-width numeric kind.
use crate::wire::{
    lemma_ordered_bytes_of_value, lemma_ordered_value_of_bytes, lemma_pow256_values,
    lemma_signed_round_trip, lemma_unsigned_round_trip, ordered_bytes, ordered_value, to_signed,
    to_unsigned, ByteOrder,
};
use vstd::prelude::*;

verus! {

/// A numeric kind that travels as a fixed number of bytes.
///
/// Unsigned kinds travel as the bytes of their value, signed kinds as the
/// bytes of their two's-complement image.
pub trait FixedWidth: Sized {
    /// The number of bytes that a value of this kind takes on the wire.
    spec fn byte_len() -> nat;

    /// The bytes of the value in the given order.
    spec fn encoded(self, order: ByteOrder) -> Seq<u8>;

    /// The value that `bytes` spell in the given order.
    spec fn decoded(bytes: Seq<u8>, order: ByteOrder) -> Self;

    /// Every value takes `byte_len()` bytes, and decoding them gives it back.
    proof fn lemma_decode_encode(self, order: ByteOrder)
        ensures
            self.encoded(order).len() == Self::byte_len(),
            Self::decoded(self.encoded(order), order) == self,
    ;

    /// Every run of `byte_len()` bytes is the encoding of the value it decodes to.
    proof fn lemma_encode_decode(bytes: Seq<u8>, order: ByteOrder)
        requires
            bytes.len() == Self::byte_len(),
        ensures
            Self::decoded(bytes, order).encoded(order) == bytes,
    ;
}

impl FixedWidth for u8 {
    open spec fn byte_len() -> nat {
        1
    }

    open spec fn encoded(self, order: ByteOrder) -> Seq<u8> {
        ordered_bytes(self as nat, 1, order)
    }

    open spec fn decoded(bytes: Seq<u8>, order: ByteOrder) -> Self {
        ordered_value(bytes, order) as u8
    }

    proof fn lemma_decode_encode(self, order: ByteOrder) {
        lemma_pow256_values();
        lemma_ordered_value_of_bytes(self as nat, 1, order);
    }

    proof fn lemma_encode_decode(bytes: Seq<u8>, order: ByteOrder) {
        lemma_pow256_values();
        lemma_ordered_bytes_of_value(bytes, order);
    }
}

impl FixedWidth for u16 {
    open spec fn byte_len() -> nat {
        2
    }

    open spec fn encoded(self, order: ByteOrder) -> Seq<u8> {
        ordered_bytes(self as nat, 2, order)
    }

    open spec fn decoded(bytes: Seq<u8>, order: ByteOrder) -> Self {
        ordered_value(bytes, order) as u16
    }

    proof fn lemma_decode_encode(self, order: ByteOrder) {
        lemma_pow256_values();
        lemma_ordered_value_of_bytes(self as nat, 2, order);
    }

    proof fn lemma_encode_decode(bytes: Seq<u8>, order: ByteOrder) {
        lemma_pow256_values();
        lemma_ordered_bytes_of_value(bytes, order);
    }
}

impl FixedWidth for u32 {
    open spec fn byte_len() -> nat {
        4
    }

    open spec fn encoded(self, order: ByteOrder) -> Seq<u8> {
        ordered_bytes(self as nat, 4, order)
    }

    open spec fn decoded(bytes: Seq<u8>, order: ByteOrder) -> Self {
        ordered_value(bytes, order) as u32
    }

    proof fn lemma_decode_encode(self, order: ByteOrder) {
        lemma_pow256_values();
        lemma_ordered_value_of_bytes(self as nat, 4, order);
    }

    proof fn lemma_encode_decode(bytes: Seq<u8>, order: ByteOrder) {
        lemma_pow256_values();
        lemma_ordered_bytes_of_value(bytes, order);
    }
}

impl FixedWidth for u64 {
    open spec fn byte_len() -> nat {
        8
    }

    open spec fn encoded(self, order: ByteOrder) -> Seq<u8> {
        ordered_bytes(self as nat, 8, order)
    }

    open spec fn decoded(bytes: Seq<u8>, order: ByteOrder) -> Self {
        ordered_value(bytes, order) as u64
    }

    proof fn lemma_decode_encode(self, order: ByteOrder) {
        lemma_pow256_values();
        lemma_ordered_value_of_bytes(self as nat, 8, order);
    }

    proof fn lemma_encode_decode(bytes: Seq<u8>, order: ByteOrder) {
        lemma_pow256_values();
        lemma_ordered_bytes_of_value(bytes, order);
    }
}

impl FixedWidth for u128 {
    open spec fn byte_len() -> nat {
        16
    }

    open spec fn encoded(self, order: ByteOrder) -> Seq<u8> {
        ordered_bytes(self as nat, 16, order)
    }

    open spec fn decoded(bytes: Seq<u8>, order: ByteOrder) -> Self {
        ordered_value(bytes, order) as u128
    }

    proof fn lemma_decode_encode(self, order: ByteOrder) {
        lemma_pow256_values();
        lemma_ordered_value_of_bytes(self as nat, 16, order);
    }

    proof fn lemma_encode_decode(bytes: Seq<u8>, order: ByteOrder) {
        lemma_pow256_values();
        lemma_ordered_bytes_of_value(bytes, order);
    }
}

impl FixedWidth for usize {
    open spec fn byte_len() -> nat {
        (usize::BITS / 8) as nat
    }

    open spec fn encoded(self, order: ByteOrder) -> Seq<u8> {
        ordered_bytes(self as nat, Self::byte_len(), order)
    }

    open spec fn decoded(bytes: Seq<u8>, order: ByteOrder) -> Self {
        ordered_value(bytes, order) as usize
    }

    proof fn lemma_decode_encode(self, order: ByteOrder) {
        lemma_pow256_values();
        lemma_ordered_value_of_bytes(self as nat, Self::byte_len(), order);
    }

    proof fn lemma_encode_decode(bytes: Seq<u8>, order: ByteOrder) {
        lemma_pow256_values();
        lemma_ordered_bytes_of_value(bytes, order);
    }
}

impl FixedWidth for i8 {
    open spec fn byte_len() -> nat {
        1
    }

    open spec fn encoded(self, order: ByteOrder) -> Seq<u8> {
        ordered_bytes(to_unsigned(self as int, 1), 1, order)
    }

    open spec fn decoded(bytes: Seq<u8>, order: ByteOrder) -> Self {
        to_signed(ordered_value(bytes, order), 1) as i8
    }

    proof fn lemma_decode_encode(self, order: ByteOrder) {
        lemma_pow256_values();
        lemma_signed_round_trip(self as int, 1);
        lemma_ordered_value_of_bytes(to_unsigned(self as int, 1), 1, order);
    }

    proof fn lemma_encode_decode(bytes: Seq<u8>, order: ByteOrder) {
        lemma_pow256_values();
        lemma_ordered_bytes_of_value(bytes, order);
        lemma_unsigned_round_trip(ordered_value(bytes, order), 1);
    }
}

impl FixedWidth for i16 {
    open spec fn byte_len() -> nat {
        2
    }

    open spec fn encoded(self, order: ByteOrder) -> Seq<u8> {
        ordered_bytes(to_unsigned(self as int, 2), 2, order)
    }

    open spec fn decoded(bytes: Seq<u8>, order: ByteOrder) -> Self {
        to_signed(ordered_value(bytes, order), 2) as i16
    }

    proof fn lemma_decode_encode(self, order: ByteOrder) {
        lemma_pow256_values();
        lemma_signed_round_trip(self as int, 2);
        lemma_ordered_value_of_bytes(to_unsigned(self as int, 2), 2, order);
    }

    proof fn lemma_encode_decode(bytes: Seq<u8>, order: ByteOrder) {
        lemma_pow256_values();
        lemma_ordered_bytes_of_value(bytes, order);
        lemma_unsigned_round_trip(ordered_value(bytes, order), 2);
    }
}

impl FixedWidth for i32 {
    open spec fn byte_len() -> nat {
        4
    }

    open spec fn encoded(self, order: ByteOrder) -> Seq<u8> {
        ordered_bytes(to_unsigned(self as int, 4), 4, order)
    }

    open spec fn decoded(bytes: Seq<u8>, order: ByteOrder) -> Self {
        to_signed(ordered_value(bytes, order), 4) as i32
    }

    proof fn lemma_decode_encode(self, order: ByteOrder) {
        lemma_pow256_values();
        lemma_signed_round_trip(self as int, 4);
        lemma_ordered_value_of_bytes(to_unsigned(self as int, 4), 4, order);
    }

    proof fn lemma_encode_decode(bytes: Seq<u8>, order: ByteOrder) {
        lemma_pow256_values();
        lemma_ordered_bytes_of_value(bytes, order);
        lemma_unsigned_round_trip(ordered_value(bytes, order), 4);
    }
}

impl FixedWidth for i64 {
    open spec fn byte_len() -> nat {
        8
    }

    open spec fn encoded(self, order: ByteOrder) -> Seq<u8> {
        ordered_bytes(to_unsigned(self as int, 8), 8, order)
    }

    open spec fn decoded(bytes: Seq<u8>, order: ByteOrder) -> Self {
        to_signed(ordered_value(bytes, order), 8) as i64
    }

    proof fn lemma_decode_encode(self, order: ByteOrder) {
        lemma_pow256_values();
        lemma_signed_round_trip(self as int, 8);
        lemma_ordered_value_of_bytes(to_unsigned(self as int, 8), 8, order);
    }

    proof fn lemma_encode_decode(bytes: Seq<u8>, order: ByteOrder) {
        lemma_pow256_values();
        lemma_ordered_bytes_of_value(bytes, order);
        lemma_unsigned_round_trip(ordered_value(bytes, order), 8);
    }
}

impl FixedWidth for i128 {
    open spec fn byte_len() -> nat {
        16
    }

    open spec fn encoded(self, order: ByteOrder) -> Seq<u8> {
        ordered_bytes(to_unsigned(self as int, 16), 16, order)
    }

    open spec fn decoded(bytes: Seq<u8>, order: ByteOrder) -> Self {
        to_signed(ordered_value(bytes, order), 16) as i128
    }

    proof fn lemma_decode_encode(self, order: ByteOrder) {
        lemma_pow256_values();
        lemma_signed_round_trip(self as int, 16);
        lemma_ordered_value_of_bytes(to_unsigned(self as int, 16), 16, order);
    }

    proof fn lemma_encode_decode(bytes: Seq<u8>, order: ByteOrder) {
        lemma_pow256_values();
        lemma_ordered_bytes_of_value(bytes, order);
        lemma_unsigned_round_trip(ordered_value(bytes, order), 16);
    }
}

impl FixedWidth for isize {
    open spec fn byte_len() -> nat {
        (isize::BITS / 8) as nat
    }

    open spec fn encoded(self, order: ByteOrder) -> Seq<u8> {
        ordered_bytes(to_unsigned(self as int, Self::byte_len()), Self::byte_len(), order)
    }

    open spec fn decoded(bytes: Seq<u8>, order: ByteOrder) -> Self {
        to_signed(ordered_value(bytes, order), Self::byte_len()) as isize
    }

    proof fn lemma_decode_encode(self, order: ByteOrder) {
        lemma_pow256_values();
        lemma_signed_round_trip(self as int, Self::byte_len());
        lemma_ordered_value_of_bytes(to_unsigned(self as int, Self::byte_len()), Self::byte_len(), order);
    }

    proof fn lemma_encode_decode(bytes: Seq<u8>, order: ByteOrder) {
        lemma_pow256_values();
        lemma_ordered_bytes_of_value(bytes, order);
        lemma_unsigned_round_trip(ordered_value(bytes, order), Self::byte_len());
    }
}

} // verus!
