//! The byte layout of a produce request, as a function of the protocol
//! version, and what reading that layout back yields.

use crate::error::DecodeError;
use crate::records::PayloadModel;
use crate::request::supported_version;
use crate::request::PartitionModel;
use crate::request::RequestModel;
use crate::request::TopicModel;
use crate::request::TRANSACTIONAL_ID_MIN_VERSION;
use crate::wire::be_i16;
use crate::wire::be_i32;
use crate::wire::optional_string_fits;
use crate::wire::optional_string_wire;
use crate::wire::parse_i16;
use crate::wire::parse_i32;
use crate::wire::parse_len;
use crate::wire::parse_optional_string;
use crate::wire::parse_string;
use crate::wire::string_fits;
use crate::wire::string_wire;
use vstd::prelude::*;

verus! {

/// Whether requests of `version` carry the transactional ID on the wire.
pub open spec fn carries_transactional_id(version: i16) -> bool {
    version >= TRANSACTIONAL_ID_MIN_VERSION
}

/// The transactional ID on the wire: an optional string from version 3 on,
/// nothing at all before, whatever the field holds.
pub open spec fn transactional_id_wire(id: Option<Seq<char>>, version: i16) -> Seq<u8> {
    if carries_transactional_id(version) {
        optional_string_wire(id)
    } else {
        Seq::empty()
    }
}

/// What comes before the first topic entry: the transactional ID where the
/// version carries it, then `acks`, `timeout_ms` and the number of topics.
pub open spec fn request_head<P>(request: RequestModel<P>, version: i16) -> Seq<u8> {
    transactional_id_wire(request.transactional_id, version) + be_i16(request.acks) + be_i32(
        request.timeout_ms,
    ) + be_i32(request.topics.len() as i32)
}

/// What comes before a topic's first partition entry: its name and the
/// number of partitions.
pub open spec fn topic_head<P>(topic: TopicModel<P>) -> Seq<u8> {
    string_wire(topic.name) + be_i32(topic.partitions.len() as i32)
}

/// What comes before a partition's payload bytes: the partition index and
/// the number of payload bytes.
pub open spec fn partition_head<P: PayloadModel>(partition: PartitionModel<P>) -> Seq<u8> {
    be_i32(partition.partition_index) + be_i32(partition.records.byte_count() as i32)
}

/// Whether a partition entry can be written: its payload must not be longer
/// than a 32-bit prefix can say.
pub open spec fn partition_fits<P: PayloadModel>(partition: PartitionModel<P>) -> bool {
    partition.records.byte_count() <= i32::MAX
}

/// Whether a topic entry can be written.
pub open spec fn topic_fits<P: PayloadModel>(topic: TopicModel<P>) -> bool {
    &&& string_fits(topic.name)
    &&& topic.partitions.len() <= i32::MAX
    &&& forall|j: int| 0 <= j < topic.partitions.len() ==> partition_fits(#[trigger] topic.partitions[j])
}

/// Whether a request can be written at `version`. The transactional ID
/// counts only where the version carries it.
pub open spec fn request_fits<P: PayloadModel>(request: RequestModel<P>, version: i16) -> bool {
    &&& carries_transactional_id(version) ==> optional_string_fits(request.transactional_id)
    &&& request.topics.len() <= i32::MAX
    &&& forall|i: int| 0 <= i < request.topics.len() ==> topic_fits(#[trigger] request.topics[i])
}

/// A partition entry whose payload is in memory, on the wire.
pub open spec fn partition_wire(partition: PartitionModel<Seq<u8>>) -> Seq<u8> {
    partition_head(partition) + partition.records
}

/// The first `n` partition entries on the wire, one after the other.
pub open spec fn partitions_wire(partitions: Seq<PartitionModel<Seq<u8>>>, n: int) -> Seq<u8>
    decreases n,
{
    if n <= 0 {
        Seq::empty()
    } else {
        partitions_wire(partitions, n - 1) + partition_wire(partitions[n - 1])
    }
}

/// A topic entry on the wire.
pub open spec fn topic_wire(topic: TopicModel<Seq<u8>>) -> Seq<u8> {
    topic_head(topic) + partitions_wire(topic.partitions, topic.partitions.len() as int)
}

/// The first `n` topic entries on the wire, one after the other.
pub open spec fn topics_wire(topics: Seq<TopicModel<Seq<u8>>>, n: int) -> Seq<u8>
    decreases n,
{
    if n <= 0 {
        Seq::empty()
    } else {
        topics_wire(topics, n - 1) + topic_wire(topics[n - 1])
    }
}

/// A request on the wire at `version`.
pub open spec fn request_wire(request: RequestModel<Seq<u8>>, version: i16) -> Seq<u8> {
    request_head(request, version) + topics_wire(request.topics, request.topics.len() as int)
}

/// What reading a payload at `pos` yields: the bytes behind a length prefix.
pub open spec fn parse_records(bytes: Seq<u8>, pos: int) -> Result<(Seq<u8>, int), DecodeError> {
    match parse_len(bytes, pos) {
        Err(e) => Err(e),
        Ok((n, start)) => if start + n > bytes.len() {
            Err(DecodeError::UnexpectedEof)
        } else {
            Ok((bytes.subrange(start, start + n), start + n))
        },
    }
}

/// What reading a partition entry at `pos` yields.
pub open spec fn parse_partition(bytes: Seq<u8>, pos: int) -> Result<
    (PartitionModel<Seq<u8>>, int),
    DecodeError,
> {
    match parse_i32(bytes, pos) {
        Err(e) => Err(e),
        Ok((partition_index, next)) => match parse_records(bytes, next) {
            Err(e) => Err(e),
            Ok((records, end)) => Ok((PartitionModel { partition_index, records }, end)),
        },
    }
}

/// What reading `n` partition entries from `pos` on yields: the entries in
/// the order read, or the first failure.
pub open spec fn parse_partitions(bytes: Seq<u8>, pos: int, n: int) -> Result<
    (Seq<PartitionModel<Seq<u8>>>, int),
    DecodeError,
>
    decreases n,
{
    if n <= 0 {
        Ok((Seq::empty(), pos))
    } else {
        match parse_partitions(bytes, pos, n - 1) {
            Err(e) => Err(e),
            Ok((partitions, next)) => match parse_partition(bytes, next) {
                Err(e) => Err(e),
                Ok((partition, end)) => Ok((partitions.push(partition), end)),
            },
        }
    }
}

/// What reading a topic entry at `pos` yields.
pub open spec fn parse_topic(bytes: Seq<u8>, pos: int) -> Result<
    (TopicModel<Seq<u8>>, int),
    DecodeError,
> {
    match parse_string(bytes, pos) {
        Err(e) => Err(e),
        Ok((name, next)) => match parse_len(bytes, next) {
            Err(e) => Err(e),
            Ok((count, start)) => match parse_partitions(bytes, start, count) {
                Err(e) => Err(e),
                Ok((partitions, end)) => Ok((TopicModel { name, partitions }, end)),
            },
        },
    }
}

/// What reading `n` topic entries from `pos` on yields: the entries in the
/// order read, or the first failure.
pub open spec fn parse_topics(bytes: Seq<u8>, pos: int, n: int) -> Result<
    (Seq<TopicModel<Seq<u8>>>, int),
    DecodeError,
>
    decreases n,
{
    if n <= 0 {
        Ok((Seq::empty(), pos))
    } else {
        match parse_topics(bytes, pos, n - 1) {
            Err(e) => Err(e),
            Ok((topics, next)) => match parse_topic(bytes, next) {
                Err(e) => Err(e),
                Ok((topic, end)) => Ok((topics.push(topic), end)),
            },
        }
    }
}

/// What reading the transactional ID at `pos` yields: an optional string
/// where the version carries one, and otherwise `None` without reading
/// anything.
pub open spec fn parse_transactional_id(bytes: Seq<u8>, pos: int, version: i16) -> Result<
    (Option<Seq<char>>, int),
    DecodeError,
> {
    if carries_transactional_id(version) {
        parse_optional_string(bytes, pos)
    } else {
        Ok((None, pos))
    }
}

/// What reading a request of `version` at `pos` yields: the request and the
/// position after it, or why the bytes are not a request. A version outside
/// the supported range is refused before any byte is looked at.
pub open spec fn parse_request(bytes: Seq<u8>, pos: int, version: i16) -> Result<
    (RequestModel<Seq<u8>>, int),
    DecodeError,
> {
    if !supported_version(version) {
        Err(DecodeError::UnsupportedVersion)
    } else {
        match parse_transactional_id(bytes, pos, version) {
            Err(e) => Err(e),
            Ok((transactional_id, after_id)) => match parse_i16(bytes, after_id) {
                Err(e) => Err(e),
                Ok((acks, after_acks)) => match parse_i32(bytes, after_acks) {
                    Err(e) => Err(e),
                    Ok((timeout_ms, after_timeout)) => match parse_len(bytes, after_timeout) {
                        Err(e) => Err(e),
                        Ok((count, first_topic)) => match parse_topics(bytes, first_topic, count) {
                            Err(e) => Err(e),
                            Ok((topics, end)) => Ok(
                                (RequestModel { transactional_id, acks, timeout_ms, topics }, end),
                            ),
                        },
                    },
                },
            },
        }
    }
}

} // verus!
