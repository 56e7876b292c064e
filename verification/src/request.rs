//! The produce request and the topic and partition batches it carries, with
//! the mathematical model that the wire layout is stated over.

use crate::records::FileRecordSet;
use crate::records::RecordSet;
use crate::wire::optional_text;
use vstd::prelude::*;

verus! {

/// The key that identifies produce requests among the API's request types.
pub const API_KEY: u16 = 0;

/// The oldest protocol version a produce request is defined for.
pub const MIN_API_VERSION: i16 = 0;

/// The newest protocol version a produce request is defined for.
pub const MAX_API_VERSION: i16 = 7;

/// The protocol version to prefer when both sides support it.
pub const DEFAULT_API_VERSION: i16 = 7;

/// The first protocol version whose requests carry a transactional ID.
pub const TRANSACTIONAL_ID_MIN_VERSION: i16 = 3;

/// Whether a produce request is defined for `version`.
pub open spec fn supported_version(version: i16) -> bool {
    MIN_API_VERSION <= version <= MAX_API_VERSION
}

/// What a reader of the log may observe.
#[derive(Debug, Clone, Copy, PartialEq, Eq, Structural)]
pub enum Isolation {
    /// Data not yet confirmed by the in-sync replicas is visible.
    ReadUncommitted,
    /// Only data confirmed by the in-sync replicas is visible.
    ReadCommitted,
}

/// The isolation level that an acknowledgment setting stands for: a negative
/// setting asks for the full in-sync replica set and so for committed reads;
/// every other setting allows uncommitted reads.
pub open spec fn isolation_of(acks: i16) -> Isolation {
    if acks < 0 {
        Isolation::ReadCommitted
    } else {
        Isolation::ReadUncommitted
    }
}

/// One partition's share of a produce request.
#[derive(Debug, Clone, PartialEq, Eq)]
pub struct PartitionProduceData<R> {
    /// The partition index.
    pub partition_index: i32,
    /// The record data to be produced.
    pub records: R,
}

/// One topic's share of a produce request.
#[derive(Debug, Clone, PartialEq, Eq)]
pub struct TopicProduceData<R> {
    /// The topic name.
    pub name: String,
    /// Each partition to produce to, in wire order.
    pub partitions: Vec<PartitionProduceData<R>>,
}

/// A request to append record batches to topic partitions.
#[derive(Debug, Clone, PartialEq, Eq)]
pub struct ProduceRequest<R> {
    /// The transactional ID, or `None` if the producer is not transactional.
    pub transactional_id: Option<String>,
    /// The number of acknowledgments the producer requires the leader to have
    /// received before considering a request complete: 0 for none, 1 for the
    /// leader only, -1 for the full in-sync replica set.
    pub acks: i16,
    /// The timeout to await a response, in milliseconds.
    pub timeout_ms: i32,
    /// Each topic to produce to, in wire order.
    pub topics: Vec<TopicProduceData<R>>,
}

/// A produce request whose payloads are in memory.
pub type DefaultProduceRequest = ProduceRequest<RecordSet>;

/// A topic entry whose payloads are in memory.
pub type DefaultTopicRequest = TopicProduceData<RecordSet>;

/// A partition entry whose payload is in memory.
pub type DefaultPartitionRequest = PartitionProduceData<RecordSet>;

/// A produce request whose payloads lie in files of the log store.
pub type FileProduceRequest = ProduceRequest<FileRecordSet>;

/// A topic entry whose payloads lie in files of the log store.
pub type FileTopicRequest = TopicProduceData<FileRecordSet>;

/// A partition entry whose payload lies in a file of the log store.
pub type FilePartitionRequest = PartitionProduceData<FileRecordSet>;

/// A partition entry as a mathematical value; `P` models the payload: its
/// bytes where it is in memory, its file window where it is not.
pub struct PartitionModel<P> {
    /// The partition index.
    pub partition_index: i32,
    /// The payload.
    pub records: P,
}

/// A topic entry as a mathematical value.
pub struct TopicModel<P> {
    /// The characters of the topic name.
    pub name: Seq<char>,
    /// The partition entries, in wire order.
    pub partitions: Seq<PartitionModel<P>>,
}

/// A produce request as a mathematical value.
pub struct RequestModel<P> {
    /// The characters of the transactional ID, if there is one.
    pub transactional_id: Option<Seq<char>>,
    /// The acknowledgment setting.
    pub acks: i16,
    /// The timeout in milliseconds.
    pub timeout_ms: i32,
    /// The topic entries, in wire order.
    pub topics: Seq<TopicModel<P>>,
}

impl<R: View> View for PartitionProduceData<R> {
    type V = PartitionModel<R::V>;

    open spec fn view(&self) -> PartitionModel<R::V> {
        PartitionModel { partition_index: self.partition_index, records: self.records@ }
    }
}

/// The models of a run of partition entries, in the same order.
pub open spec fn partition_models<R: View>(partitions: Seq<PartitionProduceData<R>>) -> Seq<
    PartitionModel<R::V>,
> {
    Seq::new(partitions.len(), |j: int| partitions[j]@)
}

impl<R: View> View for TopicProduceData<R> {
    type V = TopicModel<R::V>;

    open spec fn view(&self) -> TopicModel<R::V> {
        TopicModel { name: self.name@, partitions: partition_models(self.partitions@) }
    }
}

/// The models of a run of topic entries, in the same order.
pub open spec fn topic_models<R: View>(topics: Seq<TopicProduceData<R>>) -> Seq<TopicModel<R::V>> {
    Seq::new(topics.len(), |i: int| topics[i]@)
}

impl<R: View> View for ProduceRequest<R> {
    type V = RequestModel<R::V>;

    open spec fn view(&self) -> RequestModel<R::V> {
        RequestModel {
            transactional_id: optional_text(self.transactional_id),
            acks: self.acks,
            timeout_ms: self.timeout_ms,
            topics: topic_models(self.topics@),
        }
    }
}

/// Whether a produce request is defined for `version`.
pub fn supports_version(version: i16) -> (supported: bool)
    ensures
        supported == supported_version(version),
{
    MIN_API_VERSION <= version && version <= MAX_API_VERSION
}

impl<R: Default> Default for PartitionProduceData<R> {
    /// Partition 0 with the payload type's default payload.
    fn default() -> (partition: Self)
        ensures
            partition.partition_index == 0,
            call_ensures(R::default, (), partition.records),
    {
        PartitionProduceData { partition_index: 0, records: R::default() }
    }
}

impl<R> Default for TopicProduceData<R> {
    /// A topic with an empty name and no partitions.
    fn default() -> (topic: Self)
        ensures
            topic.name@.len() == 0,
            topic.partitions@.len() == 0,
    {
        TopicProduceData { name: String::new(), partitions: Vec::new() }
    }
}

impl<R> Default for ProduceRequest<R> {
    /// A request without a transactional ID, with `acks` and `timeout_ms`
    /// at 0 and no topics.
    fn default() -> (request: Self)
        ensures
            request.transactional_id is None,
            request.acks == 0,
            request.timeout_ms == 0,
            request.topics@.len() == 0,
    {
        ProduceRequest { transactional_id: None, acks: 0, timeout_ms: 0, topics: Vec::new() }
    }
}

impl<R> ProduceRequest<R> {
    /// The isolation level implied by `acks`.
    pub fn isolation(&self) -> (level: Isolation)
        ensures
            level == isolation_of(self.acks),
    {
        if self.acks < 0 {
            Isolation::ReadCommitted
        } else {
            Isolation::ReadUncommitted
        }
    }
}

} // verus!
