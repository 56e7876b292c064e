//! The produce request of a streaming log's wire protocol: its data model,
//! its version-gated byte layout, and the two ways of writing it out.

pub mod buffer;
pub mod decode;
pub mod encode;
pub mod error;
pub mod file;
pub mod laws;
pub mod layout;
pub mod records;
pub mod replay;
pub mod request;
pub mod wire;

pub use error::DecodeError;
pub use error::EncodeError;
pub use records::FileRecordSet;
pub use records::FileSlice;
pub use records::RecordSet;
pub use records::StoreValue;
pub use request::supports_version;
pub use request::DefaultPartitionRequest;
pub use request::DefaultProduceRequest;
pub use request::DefaultTopicRequest;
pub use request::FilePartitionRequest;
pub use request::FileProduceRequest;
pub use request::FileTopicRequest;
pub use request::Isolation;
pub use request::PartitionProduceData;
pub use request::ProduceRequest;
pub use request::TopicProduceData;
