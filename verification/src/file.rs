//! Writing a request whose payloads lie in files of the log store: the
//! scalar fields go into a header buffer, and wherever a payload is due the
//! header written so far is handed over as one piece of the stream, followed
//! by the payload's file window as the next. The pieces, replayed in order
//! and followed by what is left in the header buffer, are the request's
//! bytes.

use crate::buffer::buffer_bytes;
use crate::buffer::max_buffer_len;
use crate::encode::clamped;
use crate::encode::has_room;
use crate::error::EncodeError;
use crate::layout::partition_fits;
use crate::layout::partition_head;
use crate::layout::request_fits;
use crate::layout::request_head;
use crate::layout::topic_fits;
use crate::layout::topic_head;
use crate::records::descriptor_models;
use crate::records::Descriptor;
use crate::records::FileRecordSet;
use crate::records::FileSlice;
use crate::records::StoreValue;
use crate::request::supported_version;
use crate::request::PartitionModel;
use crate::request::PartitionProduceData;
use crate::request::ProduceRequest;
use crate::request::RequestModel;
use crate::request::TopicModel;
use crate::request::TopicProduceData;
use crate::request::TRANSACTIONAL_ID_MIN_VERSION;
use crate::wire::optional_string_size;
use bytes::BytesMut;
use vstd::prelude::*;

verus! {

/// A byte stream in the making: the pieces handed over so far, and the
/// header bytes written since the last piece.
pub struct Staged {
    /// The pieces handed over, in the order they are to be sent.
    pub descriptors: Seq<Descriptor>,
    /// The header bytes not yet handed over.
    pub pending: Seq<u8>,
}

/// The stream that a side list and a header buffer hold between them.
pub open spec fn staged(data: Seq<StoreValue>, header: BytesMut) -> Staged {
    Staged { descriptors: descriptor_models(data), pending: buffer_bytes(header) }
}

/// The stream with `bytes` added to the pending header bytes.
pub open spec fn stage_bytes(stream: Staged, bytes: Seq<u8>) -> Staged {
    Staged { descriptors: stream.descriptors, pending: stream.pending + bytes }
}

/// The stream after a partition entry: everything pending, with the entry's
/// index and payload length, becomes one inline piece; the payload's window
/// becomes the next; nothing is left pending.
pub open spec fn stage_partition(partition: PartitionModel<FileSlice>, stream: Staged) -> Staged {
    Staged {
        descriptors: stream.descriptors.push(
            Descriptor::Inline(stream.pending + partition_head(partition)),
        ).push(Descriptor::File(partition.records)),
        pending: Seq::empty(),
    }
}

/// The stream after the first `n` partition entries, taken in order.
pub open spec fn stage_partitions(
    partitions: Seq<PartitionModel<FileSlice>>,
    n: int,
    stream: Staged,
) -> Staged
    decreases n,
{
    if n <= 0 {
        stream
    } else {
        stage_partition(partitions[n - 1], stage_partitions(partitions, n - 1, stream))
    }
}

/// The stream after a topic entry.
pub open spec fn stage_topic(topic: TopicModel<FileSlice>, stream: Staged) -> Staged {
    stage_partitions(
        topic.partitions,
        topic.partitions.len() as int,
        stage_bytes(stream, topic_head(topic)),
    )
}

/// The stream after the first `n` topic entries, taken in order.
pub open spec fn stage_topics(topics: Seq<TopicModel<FileSlice>>, n: int, stream: Staged) -> Staged
    decreases n,
{
    if n <= 0 {
        stream
    } else {
        stage_topic(topics[n - 1], stage_topics(topics, n - 1, stream))
    }
}

/// The stream after a request of `version`.
pub open spec fn stage_request(
    request: RequestModel<FileSlice>,
    version: i16,
    stream: Staged,
) -> Staged {
    stage_topics(
        request.topics,
        request.topics.len() as int,
        stage_bytes(stream, request_head(request, version)),
    )
}

/// The number of header bytes a partition entry brings.
pub open spec fn partition_frame_len() -> nat {
    8
}

/// The number of header bytes a topic entry brings, its partitions' included.
pub open spec fn topic_frame_len(topic: TopicModel<FileSlice>) -> nat {
    topic_head(topic).len() + partition_frame_len() * topic.partitions.len()
}

/// The number of header bytes the first `n` topic entries bring.
pub open spec fn topics_frame_len(topics: Seq<TopicModel<FileSlice>>, n: int) -> nat
    decreases n,
{
    if n <= 0 {
        0
    } else {
        topics_frame_len(topics, n - 1) + topic_frame_len(topics[n - 1])
    }
}

/// The number of header bytes a request of `version` brings: all of its
/// bytes but the payloads.
pub open spec fn request_frame_len(request: RequestModel<FileSlice>, version: i16) -> nat {
    request_head(request, version).len() + topics_frame_len(
        request.topics,
        request.topics.len() as int,
    )
}

/// What writing does to a stream whose header buffer holds `held` bytes:
/// the stream becomes `after` if the value can be written and the header
/// buffer could take all of the value's `frame_len` header bytes at once;
/// otherwise the stream is left alone and the reason is reported, a value
/// that cannot be written before a buffer that is too full.
pub open spec fn file_encode_outcome(fits: bool, frame_len: nat, after: Staged, held: nat) -> Result<
    Staged,
    EncodeError,
> {
    if !fits {
        Err(EncodeError::LengthOverflow)
    } else if held + frame_len > max_buffer_len() {
        Err(EncodeError::NotEnoughCapacity)
    } else {
        Ok(after)
    }
}

/// Whether an encoder did to the stream what `outcome` says.
pub open spec fn file_encoded_as(
    result: Result<(), EncodeError>,
    before: Staged,
    after: Staged,
    outcome: Result<Staged, EncodeError>,
) -> bool {
    match outcome {
        Ok(stream) => result is Ok && after == stream,
        Err(e) => result == Err::<(), EncodeError>(e) && after == before,
    }
}

/// Bringing more topic entries never brings fewer header bytes.
pub proof fn lemma_topics_frame_len_grows(topics: Seq<TopicModel<FileSlice>>, fewer: int, more: int)
    requires
        0 <= fewer <= more,
    ensures
        topics_frame_len(topics, fewer) <= topics_frame_len(topics, more),
    decreases more - fewer,
{
    if fewer < more {
        lemma_topics_frame_len_grows(topics, fewer, more - 1);
    }
}

/// After any number of partition entries, no more header bytes are pending
/// than were before them.
pub proof fn lemma_stage_partitions_pending(
    partitions: Seq<PartitionModel<FileSlice>>,
    n: int,
    stream: Staged,
)
    ensures
        stage_partitions(partitions, n, stream).pending.len() <= stream.pending.len(),
    decreases n,
{
    if n > 0 {
        lemma_stage_partitions_pending(partitions, n - 1, stream);
    }
}

impl PartitionProduceData<FileRecordSet> {
    /// Stages this entry.
    pub(crate) fn write_file(&self, src: &mut BytesMut, data: &mut Vec<StoreValue>)
        requires
            partition_fits(self@),
            buffer_bytes(*old(src)).len() + partition_frame_len() <= max_buffer_len(),
        ensures
            staged(final(data)@, *final(src)) == stage_partition(
                self@,
                staged(old(data)@, *old(src)),
            ),
    {
        self.write_head(src);
        let head = src.split().freeze();
        data.push(StoreValue::Bytes(head));
        data.push(StoreValue::FileSlice(self.records.slice));
        assert(descriptor_models(data@) =~= stage_partition(
            self@,
            staged(old(data)@, *old(src)),
        ).descriptors);
    }

    /// Stages this entry for zero-copy sending: its index and payload
    /// length are written to `src`, all of `src` is handed over to `data` as
    /// one inline piece, and the payload's file window follows as the next.
    /// If the entry cannot be written, `src` and `data` are left as they
    /// were and the reason is reported.
    pub fn file_encode(
        &self,
        src: &mut BytesMut,
        data: &mut Vec<StoreValue>,
        version: i16,
    ) -> (result: Result<(), EncodeError>)
        requires
            supported_version(version),
        ensures
            file_encoded_as(
                result,
                staged(old(data)@, *old(src)),
                staged(final(data)@, *final(src)),
                file_encode_outcome(
                    partition_fits(self@),
                    partition_frame_len(),
                    stage_partition(self@, staged(old(data)@, *old(src))),
                    buffer_bytes(*old(src)).len(),
                ),
            ),
    {
        if !self.fits() {
            return Err(EncodeError::LengthOverflow);
        }
        if !has_room(src, 8) {
            return Err(EncodeError::NotEnoughCapacity);
        }
        self.write_file(src, data);
        Ok(())
    }
}

impl TopicProduceData<FileRecordSet> {
    /// The number of header bytes this entry brings.
    pub(crate) fn frame_size(&self) -> (size: usize)
        requires
            topic_fits(self@),
        ensures
            size == clamped(topic_frame_len(self@)),
    {
        let head: usize = self.name.as_str().as_bytes().len() + 6;
        let entries: usize = match self.partitions.len().checked_mul(8) {
            Some(n) => n,
            None => usize::MAX,
        };
        head.saturating_add(entries)
    }

    /// Stages this entry.
    pub(crate) fn write_file(&self, src: &mut BytesMut, data: &mut Vec<StoreValue>)
        requires
            topic_fits(self@),
            buffer_bytes(*old(src)).len() + topic_frame_len(self@) <= max_buffer_len(),
        ensures
            staged(final(data)@, *final(src)) == stage_topic(self@, staged(old(data)@, *old(src))),
    {
        let ghost before = staged(data@, *src);
        self.write_head(src);
        let ghost headed = stage_bytes(before, topic_head(self@));
        let mut j: usize = 0;
        while j < self.partitions.len()
            invariant
                j <= self.partitions.len(),
                topic_fits(self@),
                j < self.partitions.len() ==> buffer_bytes(*src).len() + partition_frame_len()
                    <= max_buffer_len(),
                staged(data@, *src) == stage_partitions(self@.partitions, j as int, headed),
            decreases self.partitions.len() - j,
        {
            assert(partition_fits(self@.partitions[j as int]));
            self.partitions[j].write_file(src, data);
            j += 1;
        }
    }

    /// Stages this entry for zero-copy sending: its name and partition count
    /// are written to `src`, then each partition is staged in order, into
    /// the same `src` and `data`. If the entry cannot be written, `src` and
    /// `data` are left as they were and the reason is reported.
    pub fn file_encode(
        &self,
        src: &mut BytesMut,
        data: &mut Vec<StoreValue>,
        version: i16,
    ) -> (result: Result<(), EncodeError>)
        requires
            supported_version(version),
        ensures
            file_encoded_as(
                result,
                staged(old(data)@, *old(src)),
                staged(final(data)@, *final(src)),
                file_encode_outcome(
                    topic_fits(self@),
                    topic_frame_len(self@),
                    stage_topic(self@, staged(old(data)@, *old(src))),
                    buffer_bytes(*old(src)).len(),
                ),
            ),
    {
        if !self.fits() {
            return Err(EncodeError::LengthOverflow);
        }
        if !has_room(src, self.frame_size()) {
            return Err(EncodeError::NotEnoughCapacity);
        }
        self.write_file(src, data);
        Ok(())
    }
}

impl ProduceRequest<FileRecordSet> {
    /// The number of header bytes this request brings at `version`.
    pub(crate) fn frame_size(&self, version: i16) -> (size: usize)
        requires
            request_fits(self@, version),
        ensures
            size == clamped(request_frame_len(self@, version)),
    {
        let id_size: usize = if version >= TRANSACTIONAL_ID_MIN_VERSION {
            match optional_string_size(&self.transactional_id) {
                Some(n) => n,
                None => 0,
            }
        } else {
            0
        };
        let mut size: usize = id_size + 10;
        let mut i: usize = 0;
        while i < self.topics.len()
            invariant
                i <= self.topics.len(),
                request_fits(self@, version),
                size == clamped(
                    request_head(self@, version).len() + topics_frame_len(self@.topics, i as int),
                ),
            decreases self.topics.len() - i,
        {
            assert(topic_fits(self@.topics[i as int]));
            size = size.saturating_add(self.topics[i].frame_size());
            i += 1;
        }
        size
    }

    /// Stages this request.
    pub(crate) fn write_file(&self, src: &mut BytesMut, data: &mut Vec<StoreValue>, version: i16)
        requires
            request_fits(self@, version),
            buffer_bytes(*old(src)).len() + request_frame_len(self@, version)
                <= max_buffer_len(),
        ensures
            staged(final(data)@, *final(src)) == stage_request(
                self@,
                version,
                staged(old(data)@, *old(src)),
            ),
    {
        let ghost before = staged(data@, *src);
        self.write_head(src, version);
        let ghost headed = stage_bytes(before, request_head(self@, version));
        let mut i: usize = 0;
        while i < self.topics.len()
            invariant
                i <= self.topics.len(),
                request_fits(self@, version),
                headed.pending.len() + topics_frame_len(self@.topics, self.topics.len() as int)
                    <= max_buffer_len(),
                buffer_bytes(*src).len() <= headed.pending.len() + topics_frame_len(
                    self@.topics,
                    i as int,
                ),
                staged(data@, *src) == stage_topics(self@.topics, i as int, headed),
            decreases self.topics.len() - i,
        {
            proof {
                lemma_topics_frame_len_grows(self@.topics, i + 1, self.topics.len() as int);
                lemma_stage_partitions_pending(
                    self@.topics[i as int].partitions,
                    self@.topics[i as int].partitions.len() as int,
                    stage_bytes(staged(data@, *src), topic_head(self@.topics[i as int])),
                );
            }
            self.topics[i].write_file(src, data);
            i += 1;
        }
    }

    /// Writes this request for zero-copy sending at `version`.
    ///
    /// The scalar fields are written to `src` exactly as `encode` writes
    /// them, the transactional ID only from version 3 on. Wherever a payload
    /// is due, everything in `src` is handed over to `data` as one inline
    /// piece and the payload's file window follows as the next piece, so
    /// that the pieces of `data`, in order, followed by what is left in
    /// `src`, make up the request's bytes. Topics and partitions are taken
    /// in the order they are held. If the request cannot be written, `src`
    /// and `data` are left as they were and the reason is reported.
    pub fn file_encode(
        &self,
        src: &mut BytesMut,
        data: &mut Vec<StoreValue>,
        version: i16,
    ) -> (result: Result<(), EncodeError>)
        requires
            supported_version(version),
        ensures
            file_encoded_as(
                result,
                staged(old(data)@, *old(src)),
                staged(final(data)@, *final(src)),
                file_encode_outcome(
                    request_fits(self@, version),
                    request_frame_len(self@, version),
                    stage_request(self@, version, staged(old(data)@, *old(src))),
                    buffer_bytes(*old(src)).len(),
                ),
            ),
    {
        if !self.fits(version) {
            return Err(EncodeError::LengthOverflow);
        }
        if !has_room(src, self.frame_size(version)) {
            return Err(EncodeError::NotEnoughCapacity);
        }
        self.write_file(src, data, version);
        Ok(())
    }
}

} // verus!
