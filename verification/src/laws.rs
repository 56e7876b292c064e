//! What holds of the layout, whatever the request: reading undoes writing,
//! old versions never see the transactional ID, and a request cut short is
//! never read as a request.

use crate::error::DecodeError;
use crate::layout::carries_transactional_id;
use crate::layout::parse_partition;
use crate::layout::parse_partitions;
use crate::layout::parse_records;
use crate::layout::parse_request;
use crate::layout::parse_topic;
use crate::layout::parse_topics;
use crate::layout::parse_transactional_id;
use crate::layout::partition_fits;
use crate::layout::partition_wire;
use crate::layout::partitions_wire;
use crate::layout::request_fits;
use crate::layout::request_head;
use crate::layout::request_wire;
use crate::layout::topic_fits;
use crate::layout::topic_head;
use crate::layout::topic_wire;
use crate::layout::topics_wire;
use crate::layout::transactional_id_wire;
use crate::request::supported_version;
use crate::request::PartitionModel;
use crate::request::RequestModel;
use crate::request::TopicModel;
use crate::wire::be_i16;
use crate::wire::be_i32;
use crate::wire::lemma_parse_i16_at;
use crate::wire::lemma_parse_i32_at;
use crate::wire::lemma_parse_len_at;
use crate::wire::lemma_parse_optional_string_at;
use crate::wire::lemma_parse_string_at;
use crate::wire::lemma_parse_u8_at;
use crate::wire::string_fits;
use crate::wire::lemma_stands_at_split;
use crate::wire::lemma_stands_at_start;
use crate::wire::optional_string_fits;
use crate::wire::parse_string;
use crate::wire::stands_at;
use crate::wire::string_wire;
use vstd::prelude::*;

verus! {

/// Reading a payload where its wire form stands gives it back.
pub proof fn lemma_parse_records_at(bytes: Seq<u8>, pos: int, records: Seq<u8>)
    requires
        records.len() <= i32::MAX,
        stands_at(bytes, pos, be_i32(records.len() as i32) + records),
    ensures
        parse_records(bytes, pos) == Ok::<(Seq<u8>, int), DecodeError>(
            (records, pos + 4 + records.len()),
        ),
{
    lemma_stands_at_split(bytes, pos, be_i32(records.len() as i32), records);
    lemma_parse_len_at(bytes, pos, records.len());
}

/// Reading a partition entry where its wire form stands gives it back.
pub proof fn lemma_parse_partition_at(bytes: Seq<u8>, pos: int, partition: PartitionModel<Seq<u8>>)
    requires
        partition_fits(partition),
        stands_at(bytes, pos, partition_wire(partition)),
    ensures
        parse_partition(bytes, pos) == Ok::<(PartitionModel<Seq<u8>>, int), DecodeError>(
            (partition, pos + partition_wire(partition).len()),
        ),
{
    let index = be_i32(partition.partition_index);
    let len = be_i32(partition.records.len() as i32);
    assert(partition_wire(partition) =~= index + (len + partition.records));
    lemma_stands_at_split(bytes, pos, index, len + partition.records);
    lemma_parse_i32_at(bytes, pos, partition.partition_index);
    lemma_parse_records_at(bytes, pos + 4, partition.records);
}

/// Reading as many partition entries as stand in the bytes gives them back
/// in the order they stand.
pub proof fn lemma_parse_partitions_at(
    bytes: Seq<u8>,
    pos: int,
    partitions: Seq<PartitionModel<Seq<u8>>>,
    n: int,
)
    requires
        0 <= n <= partitions.len(),
        forall|j: int| 0 <= j < n ==> partition_fits(#[trigger] partitions[j]),
        stands_at(bytes, pos, partitions_wire(partitions, n)),
    ensures
        parse_partitions(bytes, pos, n) == Ok::<
            (Seq<PartitionModel<Seq<u8>>>, int),
            DecodeError,
        >((partitions.take(n), pos + partitions_wire(partitions, n).len())),
    decreases n,
{
    if n <= 0 {
        assert(partitions.take(n) =~= Seq::empty());
    } else {
        let earlier = partitions_wire(partitions, n - 1);
        lemma_stands_at_split(bytes, pos, earlier, partition_wire(partitions[n - 1]));
        lemma_parse_partitions_at(bytes, pos, partitions, n - 1);
        lemma_parse_partition_at(bytes, pos + earlier.len(), partitions[n - 1]);
        assert(partitions.take(n - 1).push(partitions[n - 1]) =~= partitions.take(n));
    }
}

/// Reading a topic entry where its wire form stands gives it back.
pub proof fn lemma_parse_topic_at(bytes: Seq<u8>, pos: int, topic: TopicModel<Seq<u8>>)
    requires
        topic_fits(topic),
        stands_at(bytes, pos, topic_wire(topic)),
    ensures
        parse_topic(bytes, pos) == Ok::<(TopicModel<Seq<u8>>, int), DecodeError>(
            (topic, pos + topic_wire(topic).len()),
        ),
{
    let count = topic.partitions.len();
    let name = string_wire(topic.name);
    let entries = partitions_wire(topic.partitions, count as int);
    lemma_stands_at_split(bytes, pos, topic_head(topic), entries);
    lemma_stands_at_split(bytes, pos, name, be_i32(count as i32));
    lemma_parse_string_at(bytes, pos, topic.name);
    lemma_parse_len_at(bytes, pos + name.len(), count);
    lemma_parse_partitions_at(bytes, pos + name.len() + 4, topic.partitions, count as int);
    assert(topic.partitions.take(count as int) =~= topic.partitions);
}

/// Reading as many topic entries as stand in the bytes gives them back in
/// the order they stand.
pub proof fn lemma_parse_topics_at(
    bytes: Seq<u8>,
    pos: int,
    topics: Seq<TopicModel<Seq<u8>>>,
    n: int,
)
    requires
        0 <= n <= topics.len(),
        forall|i: int| 0 <= i < n ==> topic_fits(#[trigger] topics[i]),
        stands_at(bytes, pos, topics_wire(topics, n)),
    ensures
        parse_topics(bytes, pos, n) == Ok::<(Seq<TopicModel<Seq<u8>>>, int), DecodeError>(
            (topics.take(n), pos + topics_wire(topics, n).len()),
        ),
    decreases n,
{
    if n <= 0 {
        assert(topics.take(n) =~= Seq::empty());
    } else {
        let earlier = topics_wire(topics, n - 1);
        lemma_stands_at_split(bytes, pos, earlier, topic_wire(topics[n - 1]));
        lemma_parse_topics_at(bytes, pos, topics, n - 1);
        lemma_parse_topic_at(bytes, pos + earlier.len(), topics[n - 1]);
        assert(topics.take(n - 1).push(topics[n - 1]) =~= topics.take(n));
    }
}

/// The request as a reader of `version` can know it: the same request, but
/// without a transactional ID where the version does not carry one.
pub open spec fn as_seen_at<P>(request: RequestModel<P>, version: i16) -> RequestModel<P> {
    RequestModel {
        transactional_id: if carries_transactional_id(version) {
            request.transactional_id
        } else {
            None
        },
        acks: request.acks,
        timeout_ms: request.timeout_ms,
        topics: request.topics,
    }
}

/// Reading the transactional ID where it was written, or left out, gives
/// what the version lets through.
pub proof fn lemma_parse_transactional_id_at(
    bytes: Seq<u8>,
    pos: int,
    id: Option<Seq<char>>,
    version: i16,
)
    requires
        carries_transactional_id(version) ==> optional_string_fits(id),
        stands_at(bytes, pos, transactional_id_wire(id, version)),
    ensures
        parse_transactional_id(bytes, pos, version) == Ok::<(Option<Seq<char>>, int), DecodeError>(
            (
                if carries_transactional_id(version) {
                    id
                } else {
                    None
                },
                pos + transactional_id_wire(id, version).len(),
            ),
        ),
{
    if carries_transactional_id(version) {
        lemma_parse_optional_string_at(bytes, pos, id);
    }
}

/// Decoding what was encoded gives the request back: at every supported
/// version, for every request that can be written, and wherever in a byte
/// string the encoding stands, reading at its start yields the request as
/// that version sees it, topics and partitions in the order written, and
/// ends right behind the encoding.
pub proof fn law_decode_of_encode(
    bytes: Seq<u8>,
    pos: int,
    request: RequestModel<Seq<u8>>,
    version: i16,
)
    requires
        supported_version(version),
        request_fits(request, version),
        stands_at(bytes, pos, request_wire(request, version)),
    ensures
        parse_request(bytes, pos, version) == Ok::<(RequestModel<Seq<u8>>, int), DecodeError>(
            (as_seen_at(request, version), pos + request_wire(request, version).len()),
        ),
{
    let count = request.topics.len();
    let id = transactional_id_wire(request.transactional_id, version);
    let acks = be_i16(request.acks);
    let timeout = be_i32(request.timeout_ms);
    let entries = topics_wire(request.topics, count as int);
    lemma_stands_at_split(bytes, pos, request_head(request, version), entries);
    lemma_stands_at_split(bytes, pos, id + acks + timeout, be_i32(count as i32));
    lemma_stands_at_split(bytes, pos, id + acks, timeout);
    lemma_stands_at_split(bytes, pos, id, acks);
    let after_id = pos + id.len();
    lemma_parse_transactional_id_at(bytes, pos, request.transactional_id, version);
    lemma_parse_i16_at(bytes, after_id, request.acks);
    lemma_parse_i32_at(bytes, after_id + 2, request.timeout_ms);
    lemma_parse_len_at(bytes, after_id + 6, count);
    lemma_parse_topics_at(bytes, after_id + 10, request.topics, count as int);
    assert(request.topics.take(count as int) =~= request.topics);
}

/// The round trip: a request that can be written at a supported version
/// and that holds nothing the version cannot carry (from version 3 on any
/// such request; before, one without a transactional ID) decodes from its
/// own encoding to itself, with every byte read.
pub proof fn law_round_trip(request: RequestModel<Seq<u8>>, version: i16)
    requires
        supported_version(version),
        request_fits(request, version),
        carries_transactional_id(version) || request.transactional_id is None,
    ensures
        parse_request(request_wire(request, version), 0, version) == Ok::<
            (RequestModel<Seq<u8>>, int),
            DecodeError,
        >((request, request_wire(request, version).len() as int)),
{
    lemma_stands_at_start(request_wire(request, version));
    law_decode_of_encode(request_wire(request, version), 0, request, version);
}

/// What stands wholly before a cut still stands in the bytes up to the cut.
pub proof fn lemma_stands_at_take(bytes: Seq<u8>, pos: int, wire: Seq<u8>, cut: int)
    requires
        stands_at(bytes, pos, wire),
        pos + wire.len() <= cut <= bytes.len(),
    ensures
        stands_at(bytes.take(cut), pos, wire),
{
    assert(bytes.take(cut).subrange(pos, pos + wire.len()) =~= bytes.subrange(
        pos,
        pos + wire.len(),
    ));
}

/// A string cut short cannot be read.
pub proof fn lemma_parse_string_cut(bytes: Seq<u8>, pos: int, text: Seq<char>, cut: int)
    requires
        string_fits(text),
        stands_at(bytes, pos, string_wire(text)),
        pos <= cut < pos + string_wire(text).len(),
    ensures
        parse_string(bytes.take(cut), pos) == Err::<(Seq<char>, int), DecodeError>(
            DecodeError::UnexpectedEof,
        ),
{
    let body = vstd::utf8::encode_utf8(text);
    lemma_stands_at_split(bytes, pos, be_i16(body.len() as i16), body);
    if cut >= pos + 2 {
        lemma_stands_at_take(bytes, pos, be_i16(body.len() as i16), cut);
        lemma_parse_i16_at(bytes.take(cut), pos, body.len() as i16);
    }
}

/// A transactional ID cut short cannot be read.
pub proof fn lemma_parse_transactional_id_cut(
    bytes: Seq<u8>,
    pos: int,
    id: Option<Seq<char>>,
    version: i16,
    cut: int,
)
    requires
        carries_transactional_id(version) ==> optional_string_fits(id),
        stands_at(bytes, pos, transactional_id_wire(id, version)),
        pos <= cut < pos + transactional_id_wire(id, version).len(),
    ensures
        parse_transactional_id(bytes.take(cut), pos, version) == Err::<
            (Option<Seq<char>>, int),
            DecodeError,
        >(DecodeError::UnexpectedEof),
{
    match id {
        None => {},
        Some(text) => {
            lemma_stands_at_split(bytes, pos, seq![1u8], string_wire(text));
            if cut >= pos + 1 {
                lemma_stands_at_take(bytes, pos, seq![1u8], cut);
                lemma_parse_u8_at(bytes.take(cut), pos, 1u8);
                lemma_parse_string_cut(bytes, pos + 1, text, cut);
            }
        },
    }
}

/// A payload cut short cannot be read.
pub proof fn lemma_parse_records_cut(bytes: Seq<u8>, pos: int, records: Seq<u8>, cut: int)
    requires
        records.len() <= i32::MAX,
        stands_at(bytes, pos, be_i32(records.len() as i32) + records),
        pos <= cut < pos + 4 + records.len(),
    ensures
        parse_records(bytes.take(cut), pos) == Err::<(Seq<u8>, int), DecodeError>(
            DecodeError::UnexpectedEof,
        ),
{
    lemma_stands_at_split(bytes, pos, be_i32(records.len() as i32), records);
    if cut >= pos + 4 {
        lemma_stands_at_take(bytes, pos, be_i32(records.len() as i32), cut);
        lemma_parse_len_at(bytes.take(cut), pos, records.len());
    }
}

/// A partition entry cut short cannot be read.
pub proof fn lemma_parse_partition_cut(
    bytes: Seq<u8>,
    pos: int,
    partition: PartitionModel<Seq<u8>>,
    cut: int,
)
    requires
        partition_fits(partition),
        stands_at(bytes, pos, partition_wire(partition)),
        pos <= cut < pos + partition_wire(partition).len(),
    ensures
        parse_partition(bytes.take(cut), pos) == Err::<
            (PartitionModel<Seq<u8>>, int),
            DecodeError,
        >(DecodeError::UnexpectedEof),
{
    let index = be_i32(partition.partition_index);
    let len = be_i32(partition.records.len() as i32);
    assert(partition_wire(partition) =~= index + (len + partition.records));
    lemma_stands_at_split(bytes, pos, index, len + partition.records);
    if cut >= pos + 4 {
        lemma_stands_at_take(bytes, pos, index, cut);
        lemma_parse_i32_at(bytes.take(cut), pos, partition.partition_index);
        lemma_parse_records_cut(bytes, pos + 4, partition.records, cut);
    }
}

/// A run of partition entries cut short cannot be read.
pub proof fn lemma_parse_partitions_cut(
    bytes: Seq<u8>,
    pos: int,
    partitions: Seq<PartitionModel<Seq<u8>>>,
    n: int,
    cut: int,
)
    requires
        0 <= n <= partitions.len(),
        forall|j: int| 0 <= j < n ==> partition_fits(#[trigger] partitions[j]),
        stands_at(bytes, pos, partitions_wire(partitions, n)),
        pos <= cut < pos + partitions_wire(partitions, n).len(),
    ensures
        parse_partitions(bytes.take(cut), pos, n) == Err::<
            (Seq<PartitionModel<Seq<u8>>>, int),
            DecodeError,
        >(DecodeError::UnexpectedEof),
    decreases n,
{
    if n > 0 {
        let earlier = partitions_wire(partitions, n - 1);
        lemma_stands_at_split(bytes, pos, earlier, partition_wire(partitions[n - 1]));
        if cut < pos + earlier.len() {
            lemma_parse_partitions_cut(bytes, pos, partitions, n - 1, cut);
        } else {
            lemma_stands_at_take(bytes, pos, earlier, cut);
            lemma_parse_partitions_at(bytes.take(cut), pos, partitions, n - 1);
            lemma_parse_partition_cut(bytes, pos + earlier.len(), partitions[n - 1], cut);
        }
    }
}

/// A topic entry cut short cannot be read.
pub proof fn lemma_parse_topic_cut(bytes: Seq<u8>, pos: int, topic: TopicModel<Seq<u8>>, cut: int)
    requires
        topic_fits(topic),
        stands_at(bytes, pos, topic_wire(topic)),
        pos <= cut < pos + topic_wire(topic).len(),
    ensures
        parse_topic(bytes.take(cut), pos) == Err::<(TopicModel<Seq<u8>>, int), DecodeError>(
            DecodeError::UnexpectedEof,
        ),
{
    let count = topic.partitions.len();
    let name = string_wire(topic.name);
    let entries = partitions_wire(topic.partitions, count as int);
    lemma_stands_at_split(bytes, pos, topic_head(topic), entries);
    lemma_stands_at_split(bytes, pos, name, be_i32(count as i32));
    let after_name = pos + name.len();
    if cut < after_name {
        lemma_parse_string_cut(bytes, pos, topic.name, cut);
    } else {
        lemma_stands_at_take(bytes, pos, name, cut);
        lemma_parse_string_at(bytes.take(cut), pos, topic.name);
        if cut >= after_name + 4 {
            lemma_stands_at_take(bytes, after_name, be_i32(count as i32), cut);
            lemma_parse_len_at(bytes.take(cut), after_name, count);
            lemma_parse_partitions_cut(bytes, after_name + 4, topic.partitions, count as int, cut);
        }
    }
}

/// A run of topic entries cut short cannot be read.
pub proof fn lemma_parse_topics_cut(
    bytes: Seq<u8>,
    pos: int,
    topics: Seq<TopicModel<Seq<u8>>>,
    n: int,
    cut: int,
)
    requires
        0 <= n <= topics.len(),
        forall|i: int| 0 <= i < n ==> topic_fits(#[trigger] topics[i]),
        stands_at(bytes, pos, topics_wire(topics, n)),
        pos <= cut < pos + topics_wire(topics, n).len(),
    ensures
        parse_topics(bytes.take(cut), pos, n) == Err::<
            (Seq<TopicModel<Seq<u8>>>, int),
            DecodeError,
        >(DecodeError::UnexpectedEof),
    decreases n,
{
    if n > 0 {
        let earlier = topics_wire(topics, n - 1);
        lemma_stands_at_split(bytes, pos, earlier, topic_wire(topics[n - 1]));
        if cut < pos + earlier.len() {
            lemma_parse_topics_cut(bytes, pos, topics, n - 1, cut);
        } else {
            lemma_stands_at_take(bytes, pos, earlier, cut);
            lemma_parse_topics_at(bytes.take(cut), pos, topics, n - 1);
            lemma_parse_topic_cut(bytes, pos + earlier.len(), topics[n - 1], cut);
        }
    }
}

/// A request cut short cannot be read, wherever its encoding stands and
/// wherever within it the bytes end.
pub proof fn lemma_parse_request_cut(
    bytes: Seq<u8>,
    pos: int,
    request: RequestModel<Seq<u8>>,
    version: i16,
    cut: int,
)
    requires
        supported_version(version),
        request_fits(request, version),
        stands_at(bytes, pos, request_wire(request, version)),
        pos <= cut < pos + request_wire(request, version).len(),
    ensures
        parse_request(bytes.take(cut), pos, version) == Err::<
            (RequestModel<Seq<u8>>, int),
            DecodeError,
        >(DecodeError::UnexpectedEof),
{
    let count = request.topics.len();
    let id = transactional_id_wire(request.transactional_id, version);
    let acks = be_i16(request.acks);
    let timeout = be_i32(request.timeout_ms);
    let entries = topics_wire(request.topics, count as int);
    lemma_stands_at_split(bytes, pos, request_head(request, version), entries);
    lemma_stands_at_split(bytes, pos, id + acks + timeout, be_i32(count as i32));
    lemma_stands_at_split(bytes, pos, id + acks, timeout);
    lemma_stands_at_split(bytes, pos, id, acks);
    let after_id = pos + id.len();
    let short = bytes.take(cut);
    if cut < after_id {
        lemma_parse_transactional_id_cut(bytes, pos, request.transactional_id, version, cut);
    } else {
        lemma_stands_at_take(bytes, pos, id, cut);
        lemma_parse_transactional_id_at(short, pos, request.transactional_id, version);
        if cut >= after_id + 2 {
            lemma_stands_at_take(bytes, after_id, acks, cut);
            lemma_parse_i16_at(short, after_id, request.acks);
            if cut >= after_id + 6 {
                lemma_stands_at_take(bytes, after_id + 2, timeout, cut);
                lemma_parse_i32_at(short, after_id + 2, request.timeout_ms);
                if cut >= after_id + 10 {
                    lemma_stands_at_take(bytes, after_id + 6, be_i32(count as i32), cut);
                    lemma_parse_len_at(short, after_id + 6, count);
                    lemma_parse_topics_cut(
                        bytes,
                        after_id + 10,
                        request.topics,
                        count as int,
                        cut,
                    );
                }
            }
        }
    }
}

/// No truncated request decodes: whatever proper prefix of a request's
/// encoding is handed to the decoder, at the version it was encoded for,
/// the answer is that the bytes end too early, and never a request.
pub proof fn law_truncated_encoding_fails(
    request: RequestModel<Seq<u8>>,
    version: i16,
    kept: int,
)
    requires
        supported_version(version),
        request_fits(request, version),
        0 <= kept < request_wire(request, version).len(),
    ensures
        parse_request(request_wire(request, version).take(kept), 0, version) == Err::<
            (RequestModel<Seq<u8>>, int),
            DecodeError,
        >(DecodeError::UnexpectedEof),
{
    lemma_stands_at_start(request_wire(request, version));
    lemma_parse_request_cut(request_wire(request, version), 0, request, version, kept);
}

/// Before version 3 the transactional ID never reaches the wire: the
/// encoding starts with `acks` and is the same whatever the field holds.
pub proof fn law_transactional_id_left_out(
    request: RequestModel<Seq<u8>>,
    other: Option<Seq<char>>,
    version: i16,
)
    requires
        !carries_transactional_id(version),
    ensures
        request_wire(request, version) == be_i16(request.acks) + be_i32(request.timeout_ms)
            + be_i32(request.topics.len() as i32) + topics_wire(
            request.topics,
            request.topics.len() as int,
        ),
        request_wire(request, version) == request_wire(
            RequestModel {
                transactional_id: other,
                acks: request.acks,
                timeout_ms: request.timeout_ms,
                topics: request.topics,
            },
            version,
        ),
{
}

/// Whatever bytes are read at a version before 3, the request read has no
/// transactional ID.
pub proof fn law_no_transactional_id_read(bytes: Seq<u8>, pos: int, version: i16)
    requires
        !carries_transactional_id(version),
    ensures
        parse_request(bytes, pos, version) matches Ok((request, _))
            ==> request.transactional_id is None,
{
}

} // verus!
