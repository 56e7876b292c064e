//! Reading a request back from its wire bytes.

use crate::error::DecodeError;
use crate::layout::parse_partition;
use crate::layout::parse_partitions;
use crate::layout::parse_records;
use crate::layout::parse_request;
use crate::layout::parse_topic;
use crate::layout::parse_topics;
use crate::records::RecordSet;
use crate::request::partition_models;
use crate::request::supported_version;
use crate::request::supports_version;
use crate::request::topic_models;
use crate::request::PartitionModel;
use crate::request::PartitionProduceData;
use crate::request::RequestModel;
use crate::request::ProduceRequest;
use crate::request::TopicModel;
use crate::request::TopicProduceData;
use crate::request::TRANSACTIONAL_ID_MIN_VERSION;
use crate::wire::read_i16;
use crate::wire::read_i32;
use crate::wire::read_len;
use crate::wire::read_optional_string;
use crate::wire::read_string;
use vstd::prelude::*;
use vstd::slice::slice_subrange;
use vstd::slice::slice_to_vec;

verus! {

/// What a versioned reader yields: a refusal where no request is defined for
/// `version`, and otherwise what the layout says.
pub open spec fn at_version<T>(version: i16, parsed: Result<(T, int), DecodeError>) -> Result<
    (T, int),
    DecodeError,
> {
    if supported_version(version) {
        parsed
    } else {
        Err(DecodeError::UnsupportedVersion)
    }
}

/// Once reading partition entries has failed, reading more of them fails the
/// same way.
pub proof fn lemma_parse_partitions_failure_stays(bytes: Seq<u8>, pos: int, fewer: int, more: int)
    requires
        0 <= fewer <= more,
        parse_partitions(bytes, pos, fewer) is Err,
    ensures
        parse_partitions(bytes, pos, more) == parse_partitions(bytes, pos, fewer),
    decreases more - fewer,
{
    if fewer < more {
        lemma_parse_partitions_failure_stays(bytes, pos, fewer, more - 1);
    }
}

/// Once reading topic entries has failed, reading more of them fails the
/// same way.
pub proof fn lemma_parse_topics_failure_stays(bytes: Seq<u8>, pos: int, fewer: int, more: int)
    requires
        0 <= fewer <= more,
        parse_topics(bytes, pos, fewer) is Err,
    ensures
        parse_topics(bytes, pos, more) == parse_topics(bytes, pos, fewer),
    decreases more - fewer,
{
    if fewer < more {
        lemma_parse_topics_failure_stays(bytes, pos, fewer, more - 1);
    }
}

/// Reads a payload at `pos`.
pub(crate) fn read_records(src: &[u8], pos: usize) -> (got: Result<(RecordSet, usize), DecodeError>)
    ensures
        match got {
            Ok((records, next)) => parse_records(src@, pos as int) == Ok::<
                (Seq<u8>, int),
                DecodeError,
            >((records@, next as int)),
            Err(e) => parse_records(src@, pos as int) == Err::<(Seq<u8>, int), DecodeError>(e),
        },
{
    match read_len(src, pos) {
        Err(e) => Err(e),
        Ok((n, start)) => {
            let len: usize = n as usize;
            if src.len() - start < len {
                return Err(DecodeError::UnexpectedEof);
            }
            let bytes = slice_to_vec(slice_subrange(src, start, start + len));
            Ok((RecordSet { bytes }, start + len))
        },
    }
}

/// Reads a partition entry at `pos`.
pub(crate) fn read_partition(src: &[u8], pos: usize) -> (got: Result<
    (PartitionProduceData<RecordSet>, usize),
    DecodeError,
>)
    ensures
        match got {
            Ok((partition, next)) => parse_partition(src@, pos as int) == Ok::<
                (PartitionModel<Seq<u8>>, int),
                DecodeError,
            >((partition@, next as int)),
            Err(e) => parse_partition(src@, pos as int) == Err::<
                (PartitionModel<Seq<u8>>, int),
                DecodeError,
            >(e),
        },
{
    match read_i32(src, pos) {
        Err(e) => Err(e),
        Ok((partition_index, next)) => match read_records(src, next) {
            Err(e) => Err(e),
            Ok((records, end)) => Ok((PartitionProduceData { partition_index, records }, end)),
        },
    }
}

/// Reads `count` partition entries from `pos` on.
pub(crate) fn read_partitions(src: &[u8], pos: usize, count: i32) -> (got: Result<
    (Vec<PartitionProduceData<RecordSet>>, usize),
    DecodeError,
>)
    requires
        count >= 0,
    ensures
        match got {
            Ok((partitions, next)) => parse_partitions(src@, pos as int, count as int) == Ok::<
                (Seq<PartitionModel<Seq<u8>>>, int),
                DecodeError,
            >((partition_models(partitions@), next as int)),
            Err(e) => parse_partitions(src@, pos as int, count as int) == Err::<
                (Seq<PartitionModel<Seq<u8>>>, int),
                DecodeError,
            >(e),
        },
{
    let mut partitions: Vec<PartitionProduceData<RecordSet>> = Vec::new();
    let mut next: usize = pos;
    let mut j: i32 = 0;
    assert(partition_models(partitions@) =~= Seq::empty());
    while j < count
        invariant
            0 <= j <= count,
            parse_partitions(src@, pos as int, j as int) == Ok::<
                (Seq<PartitionModel<Seq<u8>>>, int),
                DecodeError,
            >((partition_models(partitions@), next as int)),
        decreases count - j,
    {
        match read_partition(src, next) {
            Err(e) => {
                proof {
                    lemma_parse_partitions_failure_stays(src@, pos as int, j + 1, count as int);
                }
                return Err(e);
            },
            Ok((partition, end)) => {
                assert(partition_models(partitions@.push(partition)) =~= partition_models(
                    partitions@,
                ).push(partition@));
                partitions.push(partition);
                next = end;
            },
        }
        j += 1;
    }
    Ok((partitions, next))
}

/// Reads a topic entry at `pos`.
pub(crate) fn read_topic(src: &[u8], pos: usize) -> (got: Result<
    (TopicProduceData<RecordSet>, usize),
    DecodeError,
>)
    ensures
        match got {
            Ok((topic, next)) => parse_topic(src@, pos as int) == Ok::<
                (TopicModel<Seq<u8>>, int),
                DecodeError,
            >((topic@, next as int)),
            Err(e) => parse_topic(src@, pos as int) == Err::<
                (TopicModel<Seq<u8>>, int),
                DecodeError,
            >(e),
        },
{
    match read_string(src, pos) {
        Err(e) => Err(e),
        Ok((name, next)) => match read_len(src, next) {
            Err(e) => Err(e),
            Ok((count, start)) => match read_partitions(src, start, count) {
                Err(e) => Err(e),
                Ok((partitions, end)) => Ok((TopicProduceData { name, partitions }, end)),
            },
        },
    }
}

/// Reads `count` topic entries from `pos` on.
pub(crate) fn read_topics(src: &[u8], pos: usize, count: i32) -> (got: Result<
    (Vec<TopicProduceData<RecordSet>>, usize),
    DecodeError,
>)
    requires
        count >= 0,
    ensures
        match got {
            Ok((topics, next)) => parse_topics(src@, pos as int, count as int) == Ok::<
                (Seq<TopicModel<Seq<u8>>>, int),
                DecodeError,
            >((topic_models(topics@), next as int)),
            Err(e) => parse_topics(src@, pos as int, count as int) == Err::<
                (Seq<TopicModel<Seq<u8>>>, int),
                DecodeError,
            >(e),
        },
{
    let mut topics: Vec<TopicProduceData<RecordSet>> = Vec::new();
    let mut next: usize = pos;
    let mut i: i32 = 0;
    assert(topic_models(topics@) =~= Seq::empty());
    while i < count
        invariant
            0 <= i <= count,
            parse_topics(src@, pos as int, i as int) == Ok::<
                (Seq<TopicModel<Seq<u8>>>, int),
                DecodeError,
            >((topic_models(topics@), next as int)),
        decreases count - i,
    {
        match read_topic(src, next) {
            Err(e) => {
                proof {
                    lemma_parse_topics_failure_stays(src@, pos as int, i + 1, count as int);
                }
                return Err(e);
            },
            Ok((topic, end)) => {
                assert(topic_models(topics@.push(topic)) =~= topic_models(topics@).push(topic@));
                topics.push(topic);
                next = end;
            },
        }
        i += 1;
    }
    Ok((topics, next))
}

impl PartitionProduceData<RecordSet> {
    /// Reads a partition entry from `src`, starting at `pos`, and returns it
    /// with the position after it.
    pub fn decode_at(src: &[u8], pos: usize, version: i16) -> (got: Result<(Self, usize), DecodeError>)
        ensures
            match got {
                Ok((partition, next)) => at_version(version, parse_partition(src@, pos as int))
                    == Ok::<(PartitionModel<Seq<u8>>, int), DecodeError>(
                    (partition@, next as int),
                ),
                Err(e) => at_version(version, parse_partition(src@, pos as int)) == Err::<
                    (PartitionModel<Seq<u8>>, int),
                    DecodeError,
                >(e),
            },
    {
        if !supports_version(version) {
            return Err(DecodeError::UnsupportedVersion);
        }
        read_partition(src, pos)
    }
}

impl TopicProduceData<RecordSet> {
    /// Reads a topic entry from `src`, starting at `pos`, and returns it with
    /// the position after it. The partitions come in the order read.
    pub fn decode_at(src: &[u8], pos: usize, version: i16) -> (got: Result<(Self, usize), DecodeError>)
        ensures
            match got {
                Ok((topic, next)) => at_version(version, parse_topic(src@, pos as int)) == Ok::<
                    (TopicModel<Seq<u8>>, int),
                    DecodeError,
                >((topic@, next as int)),
                Err(e) => at_version(version, parse_topic(src@, pos as int)) == Err::<
                    (TopicModel<Seq<u8>>, int),
                    DecodeError,
                >(e),
            },
    {
        if !supports_version(version) {
            return Err(DecodeError::UnsupportedVersion);
        }
        read_topic(src, pos)
    }
}

impl ProduceRequest<RecordSet> {
    /// Reads a request of `version` from `src`, starting at `pos`, and
    /// returns it with the position after it.
    ///
    /// A version no request is defined for is refused. Below version 3 no
    /// transactional ID is read and the request has none. Topics and
    /// partitions come in the order read. On any failure nothing is returned
    /// but the reason.
    pub fn decode_at(src: &[u8], pos: usize, version: i16) -> (got: Result<(Self, usize), DecodeError>)
        ensures
            match got {
                Ok((request, next)) => parse_request(src@, pos as int, version) == Ok::<
                    (RequestModel<Seq<u8>>, int),
                    DecodeError,
                >((request@, next as int)),
                Err(e) => parse_request(src@, pos as int, version) == Err::<
                    (RequestModel<Seq<u8>>, int),
                    DecodeError,
                >(e),
            },
    {
        if !supports_version(version) {
            return Err(DecodeError::UnsupportedVersion);
        }
        let (transactional_id, after_id) = if version >= TRANSACTIONAL_ID_MIN_VERSION {
            match read_optional_string(src, pos) {
                Err(e) => {
                    return Err(e);
                },
                Ok(read) => read,
            }
        } else {
            (None, pos)
        };
        let (acks, after_acks) = match read_i16(src, after_id) {
            Err(e) => {
                return Err(e);
            },
            Ok(read) => read,
        };
        let (timeout_ms, after_timeout) = match read_i32(src, after_acks) {
            Err(e) => {
                return Err(e);
            },
            Ok(read) => read,
        };
        let (count, first_topic) = match read_len(src, after_timeout) {
            Err(e) => {
                return Err(e);
            },
            Ok(read) => read,
        };
        match read_topics(src, first_topic, count) {
            Err(e) => Err(e),
            Ok((topics, end)) => Ok(
                (ProduceRequest { transactional_id, acks, timeout_ms, topics }, end),
            ),
        }
    }

    /// Reads a request of `version` from the start of `src`. Bytes after the
    /// request are left unread.
    pub fn decode(src: &[u8], version: i16) -> (got: Result<Self, DecodeError>)
        ensures
            match got {
                Ok(request) => parse_request(src@, 0, version) matches Ok((model, _))
                    && model == request@,
                Err(e) => parse_request(src@, 0, version) == Err::<
                    (RequestModel<Seq<u8>>, int),
                    DecodeError,
                >(e),
            },
    {
        match Self::decode_at(src, 0, version) {
            Err(e) => Err(e),
            Ok((request, _)) => Ok(request),
        }
    }
}

} // verus!
