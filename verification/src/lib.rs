//! Typed, endianness-aware reads and writes for byte streams.
//!
//! A stream that can hand out bytes ([`ByteSource`]) gains the methods of
//! [`TypedRead`]; one that can take bytes ([`ByteSink`]) gains those of
//! [`TypedWrite`]. Fixed-width numbers travel in a chosen [`Endianness`],
//! byte runs and text as their own bytes.
use vstd::prelude::*;

pub mod error;
pub mod fixed_width;
pub mod laws;
pub mod raw;
pub mod read_bytes;
pub mod stream;
pub mod typed_read;
pub mod typed_write;
pub mod wire;
pub mod write_bytes;

pub use crate::error::CodecError;
pub use crate::fixed_width::FixedWidth;
pub use crate::raw::RawBytes;
pub use crate::read_bytes::{ReadConstant, ReadEndianness, ReadVariable};
pub use crate::stream::{BoundedSink, ByteSink, ByteSource};
pub use crate::typed_read::TypedRead;
pub use crate::typed_write::TypedWrite;
pub use crate::wire::ByteOrder;
pub use crate::write_bytes::{WriteEndianness, WriteRef};

verus! {

/// The byte order of a fixed-width number on the wire.
#[derive(Clone, Copy, Debug, PartialEq, Eq)]
pub enum Endianness {
    /// Big-endian.
    BE,
    /// Little-endian.
    LE,
    /// Native-endian.
    NE,
}

impl Endianness {
    /// True when a number asked for in this endianness may travel in `order`:
    /// the explicit endiannesses fix the order, the native one leaves it to
    /// the machine.
    pub open spec fn permits(self, order: ByteOrder) -> bool {
        match self {
            Endianness::BE => order == ByteOrder::Big,
            Endianness::LE => order == ByteOrder::Little,
            Endianness::NE => true,
        }
    }

    /// The byte order that this endianness stands for on this machine.
    pub fn resolve(self) -> (order: ByteOrder)
        ensures
            self.permits(order),
    {
        match self {
            Endianness::BE => ByteOrder::Big,
            Endianness::LE => ByteOrder::Little,
            Endianness::NE => {
                let probe = native_bytes(1);
                if probe[0] == 1 {
                    ByteOrder::Little
                } else {
                    ByteOrder::Big
                }
            },
        }
    }
}

/// `u16::to_ne_bytes`: the two bytes of `value` as this machine keeps them in
/// memory, which is one of the two byte orders.
#[verifier::external_body]
fn native_bytes(value: u16) -> (bytes: [u8; 2])
    ensures
        bytes@ == wire::ordered_bytes(value as nat, 2, ByteOrder::Big) || bytes@
            == wire::ordered_bytes(value as nat, 2, ByteOrder::Little),
{
    value.to_ne_bytes()
}

} // verus!
