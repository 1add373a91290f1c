//! The wire form of byte runs and of text.
use vstd::prelude::*;
use vstd::utf8::{
    decode_utf8, decode_utf8_encode_utf8, encode_utf8, encode_utf8_decode_utf8,
    encode_utf8_valid_utf8, valid_utf8,
};

verus! {

/// A value that travels as a run of bytes of its own choosing: a byte
/// sequence as itself, text as its UTF-8 encoding.
pub trait RawBytes {
    /// The bytes that stand for the value on the wire.
    spec fn raw_bytes(&self) -> Seq<u8>;

    /// True when `bytes` stand for some value of this kind.
    spec fn well_formed(bytes: Seq<u8>) -> bool;

    /// What a value puts on the wire can always be read back as a value.
    proof fn lemma_raw_bytes_well_formed(&self)
        ensures
            Self::well_formed(self.raw_bytes()),
    ;
}

impl RawBytes for [u8] {
    open spec fn raw_bytes(&self) -> Seq<u8> {
        self@
    }

    open spec fn well_formed(bytes: Seq<u8>) -> bool {
        true
    }

    proof fn lemma_raw_bytes_well_formed(&self) {
    }
}

impl<const LENGTH: usize> RawBytes for [u8; LENGTH] {
    open spec fn raw_bytes(&self) -> Seq<u8> {
        self@
    }

    open spec fn well_formed(bytes: Seq<u8>) -> bool {
        true
    }

    proof fn lemma_raw_bytes_well_formed(&self) {
    }
}

impl RawBytes for Vec<u8> {
    open spec fn raw_bytes(&self) -> Seq<u8> {
        self@
    }

    open spec fn well_formed(bytes: Seq<u8>) -> bool {
        true
    }

    proof fn lemma_raw_bytes_well_formed(&self) {
    }
}

impl RawBytes for str {
    open spec fn raw_bytes(&self) -> Seq<u8> {
        encode_utf8(self@)
    }

    open spec fn well_formed(bytes: Seq<u8>) -> bool {
        valid_utf8(bytes)
    }

    proof fn lemma_raw_bytes_well_formed(&self) {
        encode_utf8_valid_utf8(self@);
    }
}

impl RawBytes for String {
    open spec fn raw_bytes(&self) -> Seq<u8> {
        encode_utf8(self@)
    }

    open spec fn well_formed(bytes: Seq<u8>) -> bool {
        valid_utf8(bytes)
    }

    proof fn lemma_raw_bytes_well_formed(&self) {
        encode_utf8_valid_utf8(self@);
    }
}

/// Text is pinned down by its wire form: the only text whose encoding is
/// `bytes` is the decoding of `bytes`.
pub proof fn lemma_text_of_raw_bytes(text: Seq<char>, bytes: Seq<u8>)
    requires
        encode_utf8(text) == bytes,
    ensures
        valid_utf8(bytes),
        text == decode_utf8(bytes),
{
    encode_utf8_valid_utf8(text);
    encode_utf8_decode_utf8(text);
}

/// Well-formed bytes are the wire form of the text they decode to.
pub proof fn lemma_raw_bytes_of_text(bytes: Seq<u8>)
    requires
        valid_utf8(bytes),
    ensures
        encode_utf8(decode_utf8(bytes)) == bytes,
{
    decode_utf8_encode_utf8(bytes);
}

/// `String::from_utf8`: the text that `bytes` encode when they are
/// well-formed UTF-8, and nothing when they are not.
#[verifier::external_body]
pub(crate) fn text_from_utf8(bytes: Vec<u8>) -> (text: Option<String>)
    ensures
        text is Some <==> valid_utf8(bytes@),
        text is Some ==> text.unwrap()@ == decode_utf8(bytes@),
{
    String::from_utf8(bytes).ok()
}

} // verus!
