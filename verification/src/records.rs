//! Record payloads: the batch bytes that a partition entry carries, held
//! either in memory or as a window into a file of the log store.

use crate::buffer::frozen_bytes;
use bytes::Bytes;
use vstd::prelude::*;

verus! {

/// What a request's wire form needs to know of a payload, whichever way it
/// is held: how many bytes it stands for.
pub trait PayloadModel {
    /// The number of payload bytes that follow the length prefix.
    spec fn byte_count(self) -> nat;
}

impl PayloadModel for Seq<u8> {
    open spec fn byte_count(self) -> nat {
        self.len()
    }
}

/// A window into a file of the log store: `len` bytes starting `position`
/// bytes into the file that `fd` refers to.
#[derive(Debug, Clone, Copy, PartialEq, Eq, Structural)]
pub struct FileSlice {
    /// The descriptor of the open file.
    pub fd: i32,
    /// Where the window starts, in bytes from the start of the file.
    pub position: u64,
    /// How many bytes the window spans.
    pub len: u64,
}

impl PayloadModel for FileSlice {
    open spec fn byte_count(self) -> nat {
        self.len as nat
    }
}

/// A record payload that can say how long it is.
pub trait RecordPayload: View where Self::V: PayloadModel {
    /// The number of payload bytes.
    fn byte_count(&self) -> (count: u64)
        ensures
            count == self@.byte_count(),
    ;
}

/// Record batches held in memory, already in their wire form.
#[derive(Debug, Clone, PartialEq, Eq)]
pub struct RecordSet {
    /// The raw batch bytes.
    pub bytes: Vec<u8>,
}

impl View for RecordSet {
    type V = Seq<u8>;

    open spec fn view(&self) -> Seq<u8> {
        self.bytes@
    }
}

impl Default for RecordSet {
    /// No record bytes.
    fn default() -> (records: Self)
        ensures
            records@.len() == 0,
    {
        RecordSet { bytes: Vec::new() }
    }
}

impl RecordPayload for RecordSet {
    fn byte_count(&self) -> (count: u64) {
        self.bytes.len() as u64
    }
}

/// Record batches that lie in a file of the log store.
#[derive(Debug, Clone, Copy, PartialEq, Eq, Structural)]
pub struct FileRecordSet {
    /// Where the batches lie.
    pub slice: FileSlice,
}

impl View for FileRecordSet {
    type V = FileSlice;

    open spec fn view(&self) -> FileSlice {
        self.slice
    }
}

impl Default for FileRecordSet {
    /// An empty window at the start of file descriptor 0.
    fn default() -> (records: Self)
        ensures
            records@ == (FileSlice { fd: 0, position: 0, len: 0 }),
    {
        FileRecordSet { slice: FileSlice { fd: 0, position: 0, len: 0 } }
    }
}

impl RecordPayload for FileRecordSet {
    fn byte_count(&self) -> (count: u64) {
        self.slice.len
    }
}

/// One piece of a request's byte stream as the transport is to send it:
/// bytes held in memory, or a window of a file to be sent without copying.
#[derive(Debug, PartialEq, Eq)]
pub enum StoreValue {
    /// Bytes to send as they are.
    Bytes(Bytes),
    /// A window of a file whose bytes are to be sent.
    FileSlice(FileSlice),
}

/// A piece of a byte stream as a mathematical value.
pub enum Descriptor {
    /// These bytes.
    Inline(Seq<u8>),
    /// The bytes that the window holds.
    File(FileSlice),
}

impl View for StoreValue {
    type V = Descriptor;

    open spec fn view(&self) -> Descriptor {
        match self {
            StoreValue::Bytes(span) => Descriptor::Inline(frozen_bytes(*span)),
            StoreValue::FileSlice(slice) => Descriptor::File(*slice),
        }
    }
}

/// The models of a run of stream pieces, in the same order.
pub open spec fn descriptor_models(values: Seq<StoreValue>) -> Seq<Descriptor> {
    Seq::new(values.len(), |k: int| values[k]@)
}

} // verus!
