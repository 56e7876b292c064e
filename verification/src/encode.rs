//! Writing a request whose payloads are in memory into one contiguous buffer.

use crate::buffer::buffer_bytes;
use crate::buffer::max_buffer_len;
use crate::buffer::put_i16;
use crate::buffer::put_i32;
use crate::buffer::put_slice;
use crate::error::EncodeError;
use crate::layout::partition_fits;
use crate::layout::partition_head;
use crate::layout::partition_wire;
use crate::layout::partitions_wire;
use crate::layout::request_fits;
use crate::layout::request_head;
use crate::layout::request_wire;
use crate::layout::topic_fits;
use crate::layout::topic_head;
use crate::layout::topic_wire;
use crate::layout::topics_wire;
use crate::records::PayloadModel;
use crate::records::RecordPayload;
use crate::records::RecordSet;
use crate::request::supported_version;
use crate::request::PartitionModel;
use crate::request::PartitionProduceData;
use crate::request::ProduceRequest;
use crate::request::TopicModel;
use crate::request::TopicProduceData;
use crate::request::TRANSACTIONAL_ID_MIN_VERSION;
use crate::wire::optional_string_size;
use crate::wire::string_size;
use crate::wire::write_optional_string;
use crate::wire::write_string;
use bytes::BytesMut;
use vstd::prelude::*;

verus! {

/// What writing `wire` does to a buffer that holds `held` bytes: the bytes
/// are appended if the value can be written and the buffer can take them;
/// otherwise the buffer is left alone and the reason is reported, a value
/// that cannot be written before a buffer that is too full.
pub open spec fn encode_outcome(fits: bool, wire: Seq<u8>, held: nat) -> Result<
    Seq<u8>,
    EncodeError,
> {
    if !fits {
        Err(EncodeError::LengthOverflow)
    } else if held + wire.len() > max_buffer_len() {
        Err(EncodeError::NotEnoughCapacity)
    } else {
        Ok(wire)
    }
}

/// Whether an encoder did to the buffer what `outcome` says.
pub open spec fn encoded_as(
    result: Result<(), EncodeError>,
    before: Seq<u8>,
    after: Seq<u8>,
    outcome: Result<Seq<u8>, EncodeError>,
) -> bool {
    match outcome {
        Ok(wire) => result is Ok && after == before + wire,
        Err(e) => result == Err::<(), EncodeError>(e) && after == before,
    }
}

/// A byte count as a `usize`, with every count beyond `usize::MAX` standing
/// at `usize::MAX`.
pub open spec fn clamped(count: nat) -> usize {
    if count > usize::MAX {
        usize::MAX
    } else {
        count as usize
    }
}

/// Writing more partition entries never takes fewer bytes.
pub proof fn lemma_partitions_wire_grows(
    partitions: Seq<PartitionModel<Seq<u8>>>,
    fewer: int,
    more: int,
)
    requires
        0 <= fewer <= more,
    ensures
        partitions_wire(partitions, fewer).len() <= partitions_wire(partitions, more).len(),
    decreases more - fewer,
{
    if fewer < more {
        lemma_partitions_wire_grows(partitions, fewer, more - 1);
    }
}

/// Writing more topic entries never takes fewer bytes.
pub proof fn lemma_topics_wire_grows(topics: Seq<TopicModel<Seq<u8>>>, fewer: int, more: int)
    requires
        0 <= fewer <= more,
    ensures
        topics_wire(topics, fewer).len() <= topics_wire(topics, more).len(),
    decreases more - fewer,
{
    if fewer < more {
        lemma_topics_wire_grows(topics, fewer, more - 1);
    }
}

/// Whether `size` more bytes can be appended to `dest`.
pub(crate) fn has_room(dest: &BytesMut, size: usize) -> (room: bool)
    ensures
        room == (buffer_bytes(*dest).len() + size <= max_buffer_len()),
{
    let limit: usize = isize::MAX as usize;
    let held: usize = dest.len();
    held <= limit && size <= limit - held
}

impl<R: RecordPayload> PartitionProduceData<R> where R::V: PayloadModel {
    /// Whether this entry can be written.
    pub(crate) fn fits(&self) -> (ok: bool)
        ensures
            ok == partition_fits(self@),
    {
        self.records.byte_count() <= 0x7fff_ffff
    }

    /// Appends what comes before the payload bytes.
    pub(crate) fn write_head(&self, dest: &mut BytesMut)
        requires
            partition_fits(self@),
            buffer_bytes(*old(dest)).len() + 8 <= max_buffer_len(),
        ensures
            buffer_bytes(*final(dest)) == buffer_bytes(*old(dest)) + partition_head(self@),
    {
        put_i32(dest, self.partition_index);
        put_i32(dest, self.records.byte_count() as i32);
    }
}

impl<R: RecordPayload> TopicProduceData<R> where R::V: PayloadModel {
    /// Whether this entry can be written.
    pub(crate) fn fits(&self) -> (ok: bool)
        ensures
            ok == topic_fits(self@),
    {
        if string_size(self.name.as_str()).is_none() {
            return false;
        }
        if self.partitions.len() > 0x7fff_ffff {
            return false;
        }
        let mut j: usize = 0;
        while j < self.partitions.len()
            invariant
                j <= self.partitions.len(),
                forall|k: int| 0 <= k < j ==> partition_fits(#[trigger] self@.partitions[k]),
            decreases self.partitions.len() - j,
        {
            if !self.partitions[j].fits() {
                assert(!partition_fits(self@.partitions[j as int]));
                return false;
            }
            j += 1;
        }
        true
    }

    /// Appends what comes before the first partition entry.
    pub(crate) fn write_head(&self, dest: &mut BytesMut)
        requires
            topic_fits(self@),
            buffer_bytes(*old(dest)).len() + topic_head(self@).len() <= max_buffer_len(),
        ensures
            buffer_bytes(*final(dest)) == buffer_bytes(*old(dest)) + topic_head(self@),
    {
        write_string(dest, self.name.as_str());
        put_i32(dest, self.partitions.len() as i32);
    }
}

impl<R: RecordPayload> ProduceRequest<R> where R::V: PayloadModel {
    /// Whether this request can be written at `version`.
    pub(crate) fn fits(&self, version: i16) -> (ok: bool)
        ensures
            ok == request_fits(self@, version),
    {
        if version >= TRANSACTIONAL_ID_MIN_VERSION && optional_string_size(
            &self.transactional_id,
        ).is_none() {
            return false;
        }
        if self.topics.len() > 0x7fff_ffff {
            return false;
        }
        let mut i: usize = 0;
        while i < self.topics.len()
            invariant
                i <= self.topics.len(),
                forall|k: int| 0 <= k < i ==> topic_fits(#[trigger] self@.topics[k]),
            decreases self.topics.len() - i,
        {
            if !self.topics[i].fits() {
                assert(!topic_fits(self@.topics[i as int]));
                return false;
            }
            i += 1;
        }
        true
    }

    /// Appends what comes before the first topic entry.
    pub(crate) fn write_head(&self, dest: &mut BytesMut, version: i16)
        requires
            request_fits(self@, version),
            buffer_bytes(*old(dest)).len() + request_head(self@, version).len()
                <= max_buffer_len(),
        ensures
            buffer_bytes(*final(dest)) == buffer_bytes(*old(dest)) + request_head(self@, version),
    {
        if version >= TRANSACTIONAL_ID_MIN_VERSION {
            write_optional_string(dest, &self.transactional_id);
        }
        put_i16(dest, self.acks);
        put_i32(dest, self.timeout_ms);
        put_i32(dest, self.topics.len() as i32);
    }
}

impl PartitionProduceData<RecordSet> {
    /// The number of bytes this entry takes on the wire.
    pub(crate) fn wire_size(&self) -> (size: usize)
        ensures
            size == clamped(partition_wire(self@).len()),
    {
        let head: usize = 8;
        head.saturating_add(self.records.bytes.len())
    }

    /// Appends this entry.
    pub(crate) fn write(&self, dest: &mut BytesMut)
        requires
            partition_fits(self@),
            buffer_bytes(*old(dest)).len() + partition_wire(self@).len() <= max_buffer_len(),
        ensures
            buffer_bytes(*final(dest)) == buffer_bytes(*old(dest)) + partition_wire(self@),
    {
        self.write_head(dest);
        put_slice(dest, self.records.bytes.as_slice());
    }

    /// Appends this entry to `dest` in its wire form, or reports why it
    /// cannot be written and leaves `dest` as it was.
    pub fn encode(&self, dest: &mut BytesMut, version: i16) -> (result: Result<(), EncodeError>)
        requires
            supported_version(version),
        ensures
            encoded_as(
                result,
                buffer_bytes(*old(dest)),
                buffer_bytes(*final(dest)),
                encode_outcome(
                    partition_fits(self@),
                    partition_wire(self@),
                    buffer_bytes(*old(dest)).len(),
                ),
            ),
    {
        if !self.fits() {
            return Err(EncodeError::LengthOverflow);
        }
        if !has_room(dest, self.wire_size()) {
            return Err(EncodeError::NotEnoughCapacity);
        }
        self.write(dest);
        Ok(())
    }
}

impl TopicProduceData<RecordSet> {
    /// The number of bytes this entry takes on the wire.
    pub(crate) fn wire_size(&self) -> (size: usize)
        requires
            topic_fits(self@),
        ensures
            size == clamped(topic_wire(self@).len()),
    {
        let mut size: usize = self.name.as_str().as_bytes().len() + 6;
        let mut j: usize = 0;
        while j < self.partitions.len()
            invariant
                j <= self.partitions.len(),
                size == clamped(
                    topic_head(self@).len() + partitions_wire(self@.partitions, j as int).len(),
                ),
            decreases self.partitions.len() - j,
        {
            size = size.saturating_add(self.partitions[j].wire_size());
            j += 1;
        }
        size
    }

    /// Appends this entry.
    pub(crate) fn write(&self, dest: &mut BytesMut)
        requires
            topic_fits(self@),
            buffer_bytes(*old(dest)).len() + topic_wire(self@).len() <= max_buffer_len(),
        ensures
            buffer_bytes(*final(dest)) == buffer_bytes(*old(dest)) + topic_wire(self@),
    {
        let ghost before = buffer_bytes(*dest);
        self.write_head(dest);
        let mut j: usize = 0;
        while j < self.partitions.len()
            invariant
                j <= self.partitions.len(),
                topic_fits(self@),
                before.len() + topic_wire(self@).len() <= max_buffer_len(),
                buffer_bytes(*dest) == before + topic_head(self@) + partitions_wire(
                    self@.partitions,
                    j as int,
                ),
            decreases self.partitions.len() - j,
        {
            proof {
                lemma_partitions_wire_grows(
                    self@.partitions,
                    j + 1,
                    self.partitions.len() as int,
                );
            }
            self.partitions[j].write(dest);
            j += 1;
        }
    }

    /// Appends this entry to `dest` in its wire form, or reports why it
    /// cannot be written and leaves `dest` as it was.
    pub fn encode(&self, dest: &mut BytesMut, version: i16) -> (result: Result<(), EncodeError>)
        requires
            supported_version(version),
        ensures
            encoded_as(
                result,
                buffer_bytes(*old(dest)),
                buffer_bytes(*final(dest)),
                encode_outcome(topic_fits(self@), topic_wire(self@), buffer_bytes(*old(dest)).len()),
            ),
    {
        if !self.fits() {
            return Err(EncodeError::LengthOverflow);
        }
        if !has_room(dest, self.wire_size()) {
            return Err(EncodeError::NotEnoughCapacity);
        }
        self.write(dest);
        Ok(())
    }
}

impl ProduceRequest<RecordSet> {
    /// The number of bytes this request takes on the wire at `version`.
    pub(crate) fn wire_size(&self, version: i16) -> (size: usize)
        requires
            request_fits(self@, version),
        ensures
            size == clamped(request_wire(self@, version).len()),
    {
        let id_size: usize = if version >= TRANSACTIONAL_ID_MIN_VERSION {
            match optional_string_size(&self.transactional_id) {
                Some(n) => n,
                None => 0,
            }
        } else {
            0
        };
        let mut size: usize = id_size + 10;
        let mut i: usize = 0;
        while i < self.topics.len()
            invariant
                i <= self.topics.len(),
                request_fits(self@, version),
                size == clamped(
                    request_head(self@, version).len() + topics_wire(self@.topics, i as int).len(),
                ),
            decreases self.topics.len() - i,
        {
            assert(topic_fits(self@.topics[i as int]));
            size = size.saturating_add(self.topics[i].wire_size());
            i += 1;
        }
        size
    }

    /// Appends this request.
    pub(crate) fn write(&self, dest: &mut BytesMut, version: i16)
        requires
            request_fits(self@, version),
            buffer_bytes(*old(dest)).len() + request_wire(self@, version).len()
                <= max_buffer_len(),
        ensures
            buffer_bytes(*final(dest)) == buffer_bytes(*old(dest)) + request_wire(self@, version),
    {
        let ghost before = buffer_bytes(*dest);
        self.write_head(dest, version);
        let mut i: usize = 0;
        while i < self.topics.len()
            invariant
                i <= self.topics.len(),
                request_fits(self@, version),
                before.len() + request_wire(self@, version).len() <= max_buffer_len(),
                buffer_bytes(*dest) == before + request_head(self@, version) + topics_wire(
                    self@.topics,
                    i as int,
                ),
            decreases self.topics.len() - i,
        {
            proof {
                lemma_topics_wire_grows(self@.topics, i + 1, self.topics.len() as int);
            }
            self.topics[i].write(dest);
            i += 1;
        }
    }

    /// Appends this request to `dest` in the wire form of `version`, or
    /// reports why it cannot be written and leaves `dest` as it was.
    ///
    /// The transactional ID is written from version 3 on and left out
    /// entirely before; `acks`, `timeout_ms` and the topics are written at
    /// every version, in that order, the topics and their partitions in the
    /// order they are held.
    pub fn encode(&self, dest: &mut BytesMut, version: i16) -> (result: Result<(), EncodeError>)
        requires
            supported_version(version),
        ensures
            encoded_as(
                result,
                buffer_bytes(*old(dest)),
                buffer_bytes(*final(dest)),
                encode_outcome(
                    request_fits(self@, version),
                    request_wire(self@, version),
                    buffer_bytes(*old(dest)).len(),
                ),
            ),
    {
        if !self.fits(version) {
            return Err(EncodeError::LengthOverflow);
        }
        if !has_room(dest, self.wire_size(version)) {
            return Err(EncodeError::NotEnoughCapacity);
        }
        self.write(dest, version);
        Ok(())
    }
}

} // verus!
