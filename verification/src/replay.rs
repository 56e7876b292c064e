//! What a zero-copy stream stands for once its file windows are read, and
//! the proof that it is the contiguous encoding cut into pieces.

use crate::file::stage_bytes;
use crate::file::stage_partition;
use crate::file::stage_partitions;
use crate::file::stage_request;
use crate::file::stage_topic;
use crate::file::stage_topics;
use crate::file::Staged;
use crate::layout::partition_head;
use crate::layout::partition_wire;
use crate::layout::partitions_wire;
use crate::layout::request_head;
use crate::layout::request_wire;
use crate::layout::topic_head;
use crate::layout::topic_wire;
use crate::layout::topics_wire;
use crate::records::Descriptor;
use crate::records::FileSlice;
use crate::request::PartitionModel;
use crate::request::RequestModel;
use crate::request::TopicModel;
use vstd::prelude::*;

verus! {

/// The bytes that a piece of a stream stands for, where `content` says what
/// each file window holds.
pub open spec fn resolved(piece: Descriptor, content: spec_fn(FileSlice) -> Seq<u8>) -> Seq<u8> {
    match piece {
        Descriptor::Inline(bytes) => bytes,
        Descriptor::File(slice) => content(slice),
    }
}

/// The bytes of the first `n` pieces, one after the other.
pub open spec fn replay(
    pieces: Seq<Descriptor>,
    n: int,
    content: spec_fn(FileSlice) -> Seq<u8>,
) -> Seq<u8>
    decreases n,
{
    if n <= 0 {
        Seq::empty()
    } else {
        replay(pieces, n - 1, content) + resolved(pieces[n - 1], content)
    }
}

/// The bytes that a stream stands for: its pieces replayed in order, then
/// the header bytes still pending.
pub open spec fn stream_bytes(stream: Staged, content: spec_fn(FileSlice) -> Seq<u8>) -> Seq<u8> {
    replay(stream.descriptors, stream.descriptors.len() as int, content) + stream.pending
}

/// The partition entry with its payload read into memory.
pub open spec fn partition_in_memory(
    partition: PartitionModel<FileSlice>,
    content: spec_fn(FileSlice) -> Seq<u8>,
) -> PartitionModel<Seq<u8>> {
    PartitionModel {
        partition_index: partition.partition_index,
        records: content(partition.records),
    }
}

/// The topic entry with its payloads read into memory.
pub open spec fn topic_in_memory(
    topic: TopicModel<FileSlice>,
    content: spec_fn(FileSlice) -> Seq<u8>,
) -> TopicModel<Seq<u8>> {
    TopicModel {
        name: topic.name,
        partitions: Seq::new(
            topic.partitions.len(),
            |j: int| partition_in_memory(topic.partitions[j], content),
        ),
    }
}

/// The request with its payloads read into memory.
pub open spec fn request_in_memory(
    request: RequestModel<FileSlice>,
    content: spec_fn(FileSlice) -> Seq<u8>,
) -> RequestModel<Seq<u8>> {
    RequestModel {
        transactional_id: request.transactional_id,
        acks: request.acks,
        timeout_ms: request.timeout_ms,
        topics: Seq::new(request.topics.len(), |i: int| topic_in_memory(request.topics[i], content)),
    }
}

/// Whether the window of a partition entry holds as many bytes as it says.
pub open spec fn window_holds(
    partition: PartitionModel<FileSlice>,
    content: spec_fn(FileSlice) -> Seq<u8>,
) -> bool {
    content(partition.records).len() == partition.records.len
}

/// Whether every window of a topic entry holds as many bytes as it says.
pub open spec fn topic_windows_hold(
    topic: TopicModel<FileSlice>,
    content: spec_fn(FileSlice) -> Seq<u8>,
) -> bool {
    forall|j: int|
        0 <= j < topic.partitions.len() ==> window_holds(#[trigger] topic.partitions[j], content)
}

/// Whether every window of a request holds as many bytes as it says.
pub open spec fn request_windows_hold(
    request: RequestModel<FileSlice>,
    content: spec_fn(FileSlice) -> Seq<u8>,
) -> bool {
    forall|i: int|
        0 <= i < request.topics.len() ==> topic_windows_hold(#[trigger] request.topics[i], content)
}

/// Pieces added behind the first `n` do not change what those replay to.
pub proof fn lemma_replay_ignores_later(
    pieces: Seq<Descriptor>,
    piece: Descriptor,
    n: int,
    content: spec_fn(FileSlice) -> Seq<u8>,
)
    requires
        n <= pieces.len(),
    ensures
        replay(pieces.push(piece), n, content) == replay(pieces, n, content),
    decreases n,
{
    if n > 0 {
        lemma_replay_ignores_later(pieces, piece, n - 1, content);
    }
}

/// A stream with one more piece stands for the bytes before, then the
/// piece's.
pub proof fn lemma_replay_push(
    pieces: Seq<Descriptor>,
    piece: Descriptor,
    content: spec_fn(FileSlice) -> Seq<u8>,
)
    ensures
        replay(pieces.push(piece), pieces.len() as int + 1, content) == replay(
            pieces,
            pieces.len() as int,
            content,
        ) + resolved(piece, content),
{
    lemma_replay_ignores_later(pieces, piece, pieces.len() as int, content);
}

/// Adding header bytes to a stream adds them to what it stands for.
pub proof fn lemma_stage_bytes_stream(
    stream: Staged,
    bytes: Seq<u8>,
    content: spec_fn(FileSlice) -> Seq<u8>,
)
    ensures
        stream_bytes(stage_bytes(stream, bytes), content) == stream_bytes(stream, content) + bytes,
{
}

/// Staging a partition entry adds to the stream the bytes of the entry with
/// its payload read into memory.
pub proof fn lemma_stage_partition_stream(
    partition: PartitionModel<FileSlice>,
    stream: Staged,
    content: spec_fn(FileSlice) -> Seq<u8>,
)
    requires
        window_holds(partition, content),
    ensures
        stream_bytes(stage_partition(partition, stream), content) == stream_bytes(stream, content)
            + partition_wire(partition_in_memory(partition, content)),
{
    let head = Descriptor::Inline(stream.pending + partition_head(partition));
    let window = Descriptor::File(partition.records);
    lemma_replay_push(stream.descriptors, head, content);
    lemma_replay_push(stream.descriptors.push(head), window, content);
}

/// Staging partition entries adds to the stream the bytes of the entries
/// with their payloads read into memory.
pub proof fn lemma_stage_partitions_stream(
    topic: TopicModel<FileSlice>,
    n: int,
    stream: Staged,
    content: spec_fn(FileSlice) -> Seq<u8>,
)
    requires
        0 <= n <= topic.partitions.len(),
        topic_windows_hold(topic, content),
    ensures
        stream_bytes(stage_partitions(topic.partitions, n, stream), content) == stream_bytes(
            stream,
            content,
        ) + partitions_wire(topic_in_memory(topic, content).partitions, n),
    decreases n,
{
    if n > 0 {
        let earlier = stage_partitions(topic.partitions, n - 1, stream);
        lemma_stage_partitions_stream(topic, n - 1, stream, content);
        lemma_stage_partition_stream(topic.partitions[n - 1], earlier, content);
    }
}

/// Staging a topic entry adds to the stream the bytes of the entry with its
/// payloads read into memory.
pub proof fn lemma_stage_topic_stream(
    topic: TopicModel<FileSlice>,
    stream: Staged,
    content: spec_fn(FileSlice) -> Seq<u8>,
)
    requires
        topic_windows_hold(topic, content),
    ensures
        stream_bytes(stage_topic(topic, stream), content) == stream_bytes(stream, content)
            + topic_wire(topic_in_memory(topic, content)),
{
    let headed = stage_bytes(stream, topic_head(topic));
    lemma_stage_bytes_stream(stream, topic_head(topic), content);
    lemma_stage_partitions_stream(topic, topic.partitions.len() as int, headed, content);
}

/// Staging topic entries adds to the stream the bytes of the entries with
/// their payloads read into memory.
pub proof fn lemma_stage_topics_stream(
    request: RequestModel<FileSlice>,
    n: int,
    stream: Staged,
    content: spec_fn(FileSlice) -> Seq<u8>,
)
    requires
        0 <= n <= request.topics.len(),
        request_windows_hold(request, content),
    ensures
        stream_bytes(stage_topics(request.topics, n, stream), content) == stream_bytes(
            stream,
            content,
        ) + topics_wire(request_in_memory(request, content).topics, n),
    decreases n,
{
    if n > 0 {
        let earlier = stage_topics(request.topics, n - 1, stream);
        lemma_stage_topics_stream(request, n - 1, stream, content);
        lemma_stage_topic_stream(request.topics[n - 1], earlier, content);
    }
}

/// The zero-copy stream is the contiguous encoding: where every file window
/// holds as many bytes as it says, staging a request adds to what the stream
/// stands for exactly the bytes that encoding writes for the same request
/// with its payloads read into memory.
pub proof fn law_file_encode_flattens(
    request: RequestModel<FileSlice>,
    version: i16,
    stream: Staged,
    content: spec_fn(FileSlice) -> Seq<u8>,
)
    requires
        request_windows_hold(request, content),
    ensures
        stream_bytes(stage_request(request, version, stream), content) == stream_bytes(
            stream,
            content,
        ) + request_wire(request_in_memory(request, content), version),
{
    let head = request_head(request, version);
    lemma_stage_bytes_stream(stream, head, content);
    lemma_stage_topics_stream(
        request,
        request.topics.len() as int,
        stage_bytes(stream, head),
        content,
    );
}

/// Started on an empty side list and an empty header buffer, the pieces of
/// the side list, replayed in order and followed by what is left in the
/// header buffer, are byte for byte the contiguous encoding of the request.
pub proof fn law_file_encode_matches_encode(
    request: RequestModel<FileSlice>,
    version: i16,
    content: spec_fn(FileSlice) -> Seq<u8>,
)
    requires
        request_windows_hold(request, content),
    ensures
        stream_bytes(
            stage_request(
                request,
                version,
                Staged { descriptors: Seq::empty(), pending: Seq::empty() },
            ),
            content,
        ) == request_wire(request_in_memory(request, content), version),
{
    let start = Staged { descriptors: Seq::empty(), pending: Seq::empty() };
    law_file_encode_flattens(request, version, start, content);
}

} // verus!
