//! The two capabilities that the typed operations ask of a stream, and the
//! in-memory streams that provide them.
use crate::error::CodecError;
use vstd::prelude::*;
use vstd::slice::slice_subrange;

verus! {

/// A readable byte stream: it hands out its bytes in order, exactly as many
/// as are asked for, or fails when it ends first.
pub trait ByteSource {
    /// The bytes that the stream has yet to hand out.
    spec fn remaining(&self) -> Seq<u8>;

    /// Fills `buf` with the next `buf.len()` bytes of the stream.
    ///
    /// Succeeds exactly when that many bytes are left; the stream then moves
    /// past them. When fewer are left the call fails with
    /// [`CodecError::IncompleteRead`], and nothing is said of where the stream
    /// then stands or of what `buf` holds.
    fn read_exact(&mut self, buf: &mut [u8]) -> (outcome: Result<(), CodecError>)
        ensures
            final(buf)@.len() == old(buf)@.len(),
            outcome is Ok <==> old(buf)@.len() <= old(self).remaining().len(),
            outcome is Ok ==> final(buf)@ == old(self).remaining().take(old(buf)@.len() as int),
            outcome is Ok ==> final(self).remaining() == old(self).remaining().skip(
                old(buf)@.len() as int,
            ),
            outcome is Err ==> outcome == Err::<(), CodecError>(CodecError::IncompleteRead),
    ;
}

/// A writable byte stream: it takes all of the bytes handed to it, in order,
/// or fails.
pub trait ByteSink {
    /// The bytes that the stream has taken so far.
    spec fn written(&self) -> Seq<u8>;

    /// True when the stream has room for `count` more bytes.
    spec fn accepts(&self, count: nat) -> bool;

    /// Appends all of `bytes` to the stream.
    ///
    /// Succeeds exactly when the stream has room for them, and then uses up
    /// that much of its room. Otherwise the call fails with
    /// [`CodecError::WriteFailure`], and nothing is said of what the stream
    /// then holds.
    fn write_all(&mut self, bytes: &[u8]) -> (outcome: Result<(), CodecError>)
        ensures
            outcome is Ok <==> old(self).accepts(bytes@.len()),
            outcome is Ok ==> final(self).written() == old(self).written() + bytes@,
            outcome is Ok ==> forall|count: nat| #[trigger]
                final(self).accepts(count) == old(self).accepts(bytes@.len() + count),
            outcome is Err ==> outcome == Err::<(), CodecError>(CodecError::WriteFailure),
    ;
}

/// True when `after` is what `before` becomes by taking `bytes`: they stand at
/// the end of what was taken before, and the room left has shrunk by their
/// number.
pub open spec fn appended<W: ByteSink + ?Sized>(before: &W, after: &W, bytes: Seq<u8>) -> bool {
    &&& after.written() == before.written() + bytes
    &&& forall|count: nat| #[trigger] after.accepts(count) == before.accepts(bytes.len() + count)
}

/// A byte slice read from its front: each read shortens it by what was read.
impl<'a> ByteSource for &'a [u8] {
    open spec fn remaining(&self) -> Seq<u8> {
        (*self)@
    }

    /// A read that asks for more than is left empties the slice.
    fn read_exact(&mut self, buf: &mut [u8]) -> (outcome: Result<(), CodecError>)
        ensures
            outcome is Err ==> final(self).remaining() == Seq::<u8>::empty(),
    {
        let n = buf.len();
        let left = self.len();
        if n > left {
            *self = slice_subrange(*self, left, left);
            return Err(CodecError::IncompleteRead);
        }
        let mut i: usize = 0;
        while i < n
            invariant
                i <= n,
                n == buf@.len(),
                n <= self@.len(),
                forall|j: int| 0 <= j < i ==> buf@[j] == self@[j],
            decreases n - i,
        {
            buf[i] = self[i];
            i += 1;
        }
        assert(buf@ =~= old(self)@.take(n as int));
        *self = slice_subrange(*self, n, left);
        Ok(())
    }
}

/// A growable byte vector written at its end: it takes whatever it is given.
impl ByteSink for Vec<u8> {
    open spec fn written(&self) -> Seq<u8> {
        self@
    }

    open spec fn accepts(&self, count: nat) -> bool {
        true
    }

    fn write_all(&mut self, bytes: &[u8]) -> (outcome: Result<(), CodecError>)
    {
        self.extend_from_slice(bytes);
        Ok(())
    }
}

/// A byte buffer that takes no more than a fixed number of bytes.
pub struct BoundedSink {
    bytes: Vec<u8>,
    limit: usize,
}

impl BoundedSink {
    /// The bytes taken so far.
    pub closed spec fn view(&self) -> Seq<u8> {
        self.bytes@
    }

    /// The number of bytes that the buffer takes in all.
    pub closed spec fn limit(&self) -> nat {
        self.limit as nat
    }

    /// An empty buffer that will take `limit` bytes.
    pub fn new(limit: usize) -> (sink: BoundedSink)
        ensures
            sink@ == Seq::<u8>::empty(),
            sink.limit() == limit,
    {
        BoundedSink { bytes: Vec::new(), limit }
    }

    /// The bytes taken so far.
    pub fn as_slice(&self) -> (bytes: &[u8])
        ensures
            bytes@ == self@,
    {
        self.bytes.as_slice()
    }
}

impl ByteSink for BoundedSink {
    open spec fn written(&self) -> Seq<u8> {
        self@
    }

    open spec fn accepts(&self, count: nat) -> bool {
        self@.len() + count <= self.limit()
    }

    /// A write that does not fit leaves the buffer as it was.
    fn write_all(&mut self, bytes: &[u8]) -> (outcome: Result<(), CodecError>)
        ensures
            final(self).limit() == old(self).limit(),
            outcome is Err ==> final(self)@ == old(self)@,
    {
        let used = self.bytes.len();
        if used > self.limit || bytes.len() > self.limit - used {
            return Err(CodecError::WriteFailure);
        }
        self.bytes.extend_from_slice(bytes);
        Ok(())
    }
}

} // verus!
