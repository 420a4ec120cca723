//! The chunk buffer of a relay: filled by one read, written out, then
//! emptied for the next read.

use crate::relay::{RelayEvent, BUFFER_CAPACITY};
use bytes::BytesMut;
use vstd::prelude::*;
use vstd::slice::slice_subrange;

verus! {

/// The `bytes::BytesMut` buffer type, which Verus carries without looking
/// inside.
#[verifier::external_type_specification]
#[verifier::external_body]
pub struct ExBytesMut(BytesMut);

/// The bytes that a `BytesMut` holds, first to last.
pub uninterp spec fn buffered(buffer: BytesMut) -> Seq<u8>;

/// Calls `BytesMut::with_capacity`. The buffer that comes back has room for
/// `capacity` bytes and holds none. The allocation fails on a capacity above
/// `isize::MAX`, which the contract leaves out.
#[verifier::external_body]
fn with_capacity(capacity: usize) -> (buffer: BytesMut)
    requires
        capacity <= isize::MAX,
    ensures
        buffered(buffer) == Seq::<u8>::empty(),
{
    BytesMut::with_capacity(capacity)
}

/// Calls `BytesMut::clear`, which removes all the bytes that the buffer
/// holds.
#[verifier::external_body]
fn clear(buffer: &mut BytesMut)
    ensures
        buffered(*final(buffer)) == Seq::<u8>::empty(),
{
    buffer.clear()
}

/// Calls `BytesMut::as_ref`, which lends the bytes that the buffer holds as
/// a slice.
#[verifier::external_body]
fn as_slice(buffer: &BytesMut) -> (bytes: &[u8])
    ensures
        bytes@ == buffered(*buffer),
{
    buffer.as_ref()
}

/// The buffer through which one relay passes its chunks.
#[derive(Debug)]
pub struct RelayBuffer {
    bytes: BytesMut,
}

impl View for RelayBuffer {
    type V = Seq<u8>;

    closed spec fn view(&self) -> Seq<u8> {
        buffered(self.bytes)
    }
}

impl RelayBuffer {
    /// An empty buffer with room for [`BUFFER_CAPACITY`] bytes.
    pub fn new() -> (buffer: RelayBuffer)
        ensures
            buffer@ == Seq::<u8>::empty(),
    {
        RelayBuffer { bytes: with_capacity(BUFFER_CAPACITY) }
    }

    /// Empties the buffer and hands it out for the next read to fill. What
    /// the read leaves in it is what the buffer holds afterwards.
    pub fn refill(&mut self) -> (space: &mut BytesMut)
        ensures
            buffered(*space) == Seq::<u8>::empty(),
            final(self)@ == buffered(*final(space)),
    {
        clear(&mut self.bytes);
        &mut self.bytes
    }

    /// The report of a read that has completed into this buffer: as many
    /// bytes were read as the buffer holds.
    pub fn filled(&self) -> (event: RelayEvent)
        ensures
            event == (RelayEvent::Read { len: self@.len() as usize }),
            self@.len() <= usize::MAX,
    {
        RelayEvent::Read { len: as_slice(&self.bytes).len() }
    }

    /// The first `len` bytes of the buffer, which is the chunk to write out
    /// for [`RelayAction::Write`](crate::relay::RelayAction::Write); nothing
    /// if the buffer holds fewer.
    pub fn chunk(&self, len: usize) -> (chunk: Option<&[u8]>)
        ensures
            match chunk {
                Some(bytes) => len <= self@.len() && bytes@ == self@.take(len as int),
                None => len > self@.len(),
            },
    {
        let all = as_slice(&self.bytes);
        if len <= all.len() {
            Some(slice_subrange(all, 0, len))
        } else {
            None
        }
    }
}

} // verus!
