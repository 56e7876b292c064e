use bytes::BytesMut;
use produce_request::DecodeError;
use produce_request::EncodeError;
use produce_request::Isolation;
use produce_request::PartitionProduceData;
use produce_request::ProduceRequest;
use produce_request::RecordSet;
use produce_request::TopicProduceData;

fn partition(index: i32, bytes: &[u8]) -> PartitionProduceData<RecordSet> {
    PartitionProduceData { partition_index: index, records: RecordSet { bytes: bytes.to_vec() } }
}

fn topic(name: &str, partitions: Vec<PartitionProduceData<RecordSet>>) -> TopicProduceData<RecordSet> {
    TopicProduceData { name: name.to_string(), partitions }
}

fn sample(transactional_id: Option<&str>) -> ProduceRequest<RecordSet> {
    ProduceRequest {
        transactional_id: transactional_id.map(|id| id.to_string()),
        acks: -1,
        timeout_ms: 1500,
        topics: vec![
            topic("A", vec![partition(0, &[1, 2, 3]), partition(1, &[])]),
            topic("B", vec![partition(7, &[9]), partition(2, &[8, 8])]),
        ],
    }
}

fn encoded(request: &ProduceRequest<RecordSet>, version: i16) -> Vec<u8> {
    let mut dest = BytesMut::new();
    request.encode(&mut dest, version).expect("the request can be written");
    dest[..].to_vec()
}

fn contains(haystack: &[u8], needle: &[u8]) -> bool {
    haystack.windows(needle.len()).any(|window| window == needle)
}

#[test]
fn isolation_of_full_isr_acks_is_read_committed() {
    let mut request = sample(None);
    request.acks = -1;
    assert_eq!(request.isolation(), Isolation::ReadCommitted);
}

#[test]
fn isolation_of_no_acks_is_read_uncommitted() {
    let mut request = sample(None);
    request.acks = 0;
    assert_eq!(request.isolation(), Isolation::ReadUncommitted);
}

#[test]
fn isolation_of_leader_acks_is_read_uncommitted() {
    let mut request = sample(None);
    request.acks = 1;
    assert_eq!(request.isolation(), Isolation::ReadUncommitted);
}

#[test]
fn isolation_is_total_over_acks() {
    let mut request = sample(None);
    for acks in [i16::MIN, -2, -1] {
        request.acks = acks;
        assert_eq!(request.isolation(), Isolation::ReadCommitted);
    }
    for acks in [0, 1, 2, 17, i16::MAX] {
        request.acks = acks;
        assert_eq!(request.isolation(), Isolation::ReadUncommitted);
    }
}

#[test]
fn supported_versions_are_zero_to_seven() {
    assert!(!produce_request::supports_version(-1));
    for version in 0..=7 {
        assert!(produce_request::supports_version(version));
    }
    assert!(!produce_request::supports_version(8));
    assert!(!produce_request::supports_version(i16::MAX));
    assert!(!produce_request::supports_version(i16::MIN));
}

#[test]
fn api_identity() {
    assert_eq!(produce_request::request::API_KEY, 0);
    assert_eq!(produce_request::request::MIN_API_VERSION, 0);
    assert_eq!(produce_request::request::MAX_API_VERSION, 7);
    assert_eq!(produce_request::request::DEFAULT_API_VERSION, 7);
}

#[test]
fn encode_writes_the_documented_bytes_before_version_three() {
    let request = ProduceRequest {
        transactional_id: Some("tx".to_string()),
        acks: 1,
        timeout_ms: 258,
        topics: vec![topic("ab", vec![partition(5, &[0xAA, 0xBB])])],
    };
    let expected: Vec<u8> = vec![
        0, 1, // acks
        0, 0, 1, 2, // timeout_ms
        0, 0, 0, 1, // one topic
        0, 2, b'a', b'b', // name
        0, 0, 0, 1, // one partition
        0, 0, 0, 5, // partition index
        0, 0, 0, 2, 0xAA, 0xBB, // records
    ];
    for version in 0..3 {
        assert_eq!(encoded(&request, version), expected);
    }
}

#[test]
fn encode_writes_the_documented_bytes_from_version_three() {
    let request = ProduceRequest {
        transactional_id: Some("tx".to_string()),
        acks: -1,
        timeout_ms: -2,
        topics: vec![topic("ab", vec![partition(i32::MIN, &[0xAA, 0xBB])])],
    };
    let expected: Vec<u8> = vec![
        1, 0, 2, b't', b'x', // transactional id, present
        0xFF, 0xFF, // acks
        0xFF, 0xFF, 0xFF, 0xFE, // timeout_ms
        0, 0, 0, 1, // one topic
        0, 2, b'a', b'b', // name
        0, 0, 0, 1, // one partition
        0x80, 0, 0, 0, // partition index
        0, 0, 0, 2, 0xAA, 0xBB, // records
    ];
    for version in 3..=7 {
        assert_eq!(encoded(&request, version), expected);
    }
}

#[test]
fn absent_transactional_id_is_one_zero_byte() {
    let request: ProduceRequest<RecordSet> =
        ProduceRequest { transactional_id: None, acks: 0, timeout_ms: 0, topics: vec![] };
    assert_eq!(encoded(&request, 3), vec![0, 0, 0, 0, 0, 0, 0, 0, 0, 0, 0]);
    assert_eq!(encoded(&request, 2), vec![0, 0, 0, 0, 0, 0, 0, 0, 0, 0]);
}

#[test]
fn integers_are_big_endian() {
    let request: ProduceRequest<RecordSet> = ProduceRequest {
        transactional_id: None,
        acks: 0x0102,
        timeout_ms: 0x0A0B0C0D,
        topics: vec![],
    };
    assert_eq!(encoded(&request, 0), vec![1, 2, 0x0A, 0x0B, 0x0C, 0x0D, 0, 0, 0, 0]);
    let extremes: ProduceRequest<RecordSet> = ProduceRequest {
        transactional_id: None,
        acks: i16::MIN,
        timeout_ms: i32::MAX,
        topics: vec![],
    };
    assert_eq!(encoded(&extremes, 0), vec![0x80, 0, 0x7F, 0xFF, 0xFF, 0xFF, 0, 0, 0, 0]);
}

#[test]
fn strings_are_counted_in_utf8_bytes() {
    let request: ProduceRequest<RecordSet> = ProduceRequest {
        transactional_id: None,
        acks: 0,
        timeout_ms: 0,
        topics: vec![topic("é€", vec![])],
    };
    let bytes = encoded(&request, 0);
    assert_eq!(&bytes[10..], &[0, 5, 0xC3, 0xA9, 0xE2, 0x82, 0xAC, 0, 0, 0, 0]);
    let (decoded, used) = ProduceRequest::<RecordSet>::decode_at(&bytes, 0, 0).unwrap();
    assert_eq!(decoded, request);
    assert_eq!(used, bytes.len());
}

#[test]
fn encode_appends_to_what_the_buffer_holds() {
    let request = sample(Some("id"));
    let mut dest = BytesMut::new();
    dest.extend_from_slice(&[0xDE, 0xAD]);
    request.encode(&mut dest, 7).unwrap();
    let mut expected = vec![0xDE, 0xAD];
    expected.extend_from_slice(&encoded(&request, 7));
    assert_eq!(&dest[..], &expected[..]);
}

#[test]
fn round_trip_at_every_version_that_carries_the_id() {
    for version in 3..=7 {
        for id in [None, Some(""), Some("producer-1")] {
            let request = sample(id);
            let bytes = encoded(&request, version);
            let decoded = ProduceRequest::<RecordSet>::decode(&bytes, version).unwrap();
            assert_eq!(decoded, request);
        }
    }
}

#[test]
fn round_trip_before_version_three_without_an_id() {
    for version in 0..3 {
        let request = sample(None);
        let bytes = encoded(&request, version);
        let decoded = ProduceRequest::<RecordSet>::decode(&bytes, version).unwrap();
        assert_eq!(decoded, request);
    }
}

#[test]
fn round_trip_of_the_default_request() {
    let request: ProduceRequest<RecordSet> = ProduceRequest::default();
    assert_eq!(request.transactional_id, None);
    assert_eq!(request.acks, 0);
    assert_eq!(request.timeout_ms, 0);
    assert!(request.topics.is_empty());
    for version in 0..=7 {
        let bytes = encoded(&request, version);
        assert_eq!(ProduceRequest::<RecordSet>::decode(&bytes, version).unwrap(), request);
    }
}

#[test]
fn defaults_of_the_entries() {
    let topic: TopicProduceData<RecordSet> = TopicProduceData::default();
    assert_eq!(topic.name, "");
    assert!(topic.partitions.is_empty());
    let partition: PartitionProduceData<RecordSet> = PartitionProduceData::default();
    assert_eq!(partition.partition_index, 0);
    assert!(partition.records.bytes.is_empty());
}

#[test]
fn transactional_id_never_reaches_the_wire_before_version_three() {
    let with_id = sample(Some("very-distinctive-transactional-id"));
    let without_id = sample(None);
    for version in 0..3 {
        let bytes = encoded(&with_id, version);
        assert!(!contains(&bytes, b"very-distinctive-transactional-id"));
        assert_eq!(bytes, encoded(&without_id, version));
        let decoded = ProduceRequest::<RecordSet>::decode(&bytes, version).unwrap();
        assert_eq!(decoded.transactional_id, None);
        assert_eq!(decoded, without_id);
    }
    for version in 3..=7 {
        assert!(contains(&encoded(&with_id, version), b"very-distinctive-transactional-id"));
    }
}

#[test]
fn too_long_an_id_does_not_matter_before_version_three() {
    let request: ProduceRequest<RecordSet> = ProduceRequest {
        transactional_id: Some("x".repeat(40_000)),
        acks: 1,
        timeout_ms: 1,
        topics: vec![],
    };
    let mut dest = BytesMut::new();
    assert_eq!(request.encode(&mut dest, 2), Ok(()));
    assert_eq!(dest.len(), 10);
    let mut dest = BytesMut::new();
    assert_eq!(request.encode(&mut dest, 3), Err(EncodeError::LengthOverflow));
    assert!(dest.is_empty());
}

#[test]
fn absent_transactional_id_decodes_to_none_at_version_three() {
    let request = sample(None);
    let bytes = encoded(&request, 3);
    let decoded = ProduceRequest::<RecordSet>::decode(&bytes, 3).unwrap();
    assert_eq!(decoded.transactional_id, None);
    assert_ne!(decoded.transactional_id, Some(String::new()));
}

#[test]
fn empty_transactional_id_stays_present() {
    let request = sample(Some(""));
    let bytes = encoded(&request, 3);
    assert_eq!(&bytes[..3], &[1, 0, 0]);
    let decoded = ProduceRequest::<RecordSet>::decode(&bytes, 3).unwrap();
    assert_eq!(decoded.transactional_id, Some(String::new()));
}

#[test]
fn topics_and_partitions_keep_their_order() {
    let request = sample(Some("id"));
    for version in 0..=7 {
        let bytes = encoded(&request, version);
        let decoded = ProduceRequest::<RecordSet>::decode(&bytes, version).unwrap();
        let names: Vec<&str> = decoded.topics.iter().map(|t| t.name.as_str()).collect();
        assert_eq!(names, vec!["A", "B"]);
        let first: Vec<i32> = decoded.topics[0].partitions.iter().map(|p| p.partition_index).collect();
        let second: Vec<i32> = decoded.topics[1].partitions.iter().map(|p| p.partition_index).collect();
        assert_eq!(first, vec![0, 1]);
        assert_eq!(second, vec![7, 2]);
        assert_eq!(decoded.topics[0].partitions[0].records.bytes, vec![1, 2, 3]);
        assert_eq!(decoded.topics[1].partitions[1].records.bytes, vec![8, 8]);
    }
}

#[test]
fn duplicate_topics_and_partitions_are_kept() {
    let request = ProduceRequest {
        transactional_id: None,
        acks: 1,
        timeout_ms: 0,
        topics: vec![
            topic("same", vec![partition(1, &[1]), partition(1, &[2])]),
            topic("same", vec![]),
        ],
    };
    let bytes = encoded(&request, 7);
    assert_eq!(ProduceRequest::<RecordSet>::decode(&bytes, 7).unwrap(), request);
}

#[test]
fn truncation_inside_timeout_fails() {
    let request = sample(None);
    let bytes = encoded(&request, 0);
    for cut in 2..6 {
        assert_eq!(
            ProduceRequest::<RecordSet>::decode(&bytes[..cut], 0),
            Err(DecodeError::UnexpectedEof)
        );
    }
    let bytes = encoded(&request, 7);
    for cut in 3..7 {
        assert_eq!(
            ProduceRequest::<RecordSet>::decode(&bytes[..cut], 7),
            Err(DecodeError::UnexpectedEof)
        );
    }
}

#[test]
fn every_proper_prefix_fails_with_eof() {
    let request = sample(Some("id"));
    for version in [0, 3, 7] {
        let bytes = encoded(&request, version);
        for cut in 0..bytes.len() {
            assert_eq!(
                ProduceRequest::<RecordSet>::decode(&bytes[..cut], version),
                Err(DecodeError::UnexpectedEof)
            );
        }
    }
}

#[test]
fn decode_refuses_unsupported_versions() {
    let bytes = encoded(&sample(None), 7);
    for version in [-1, 8, i16::MIN, i16::MAX] {
        assert_eq!(
            ProduceRequest::<RecordSet>::decode(&bytes, version),
            Err(DecodeError::UnsupportedVersion)
        );
        assert_eq!(
            ProduceRequest::<RecordSet>::decode_at(&bytes, 0, version),
            Err(DecodeError::UnsupportedVersion)
        );
        assert_eq!(
            TopicProduceData::<RecordSet>::decode_at(&bytes, 0, version),
            Err(DecodeError::UnsupportedVersion)
        );
        assert_eq!(
            PartitionProduceData::<RecordSet>::decode_at(&bytes, 0, version),
            Err(DecodeError::UnsupportedVersion)
        );
    }
}

#[test]
fn decode_refuses_a_bad_presence_flag() {
    let mut bytes = encoded(&sample(Some("id")), 3);
    bytes[0] = 2;
    assert_eq!(
        ProduceRequest::<RecordSet>::decode(&bytes, 3),
        Err(DecodeError::InvalidPresenceFlag)
    );
    bytes[0] = 0xFF;
    assert_eq!(
        ProduceRequest::<RecordSet>::decode(&bytes, 3),
        Err(DecodeError::InvalidPresenceFlag)
    );
}

#[test]
fn decode_refuses_negative_lengths() {
    // a topic count of -1
    let bytes = vec![0, 0, 0, 0, 0, 0, 0xFF, 0xFF, 0xFF, 0xFF];
    assert_eq!(ProduceRequest::<RecordSet>::decode(&bytes, 0), Err(DecodeError::NegativeLength));
    // a transactional id of length -1
    let bytes = vec![1, 0xFF, 0xFF, 0, 0, 0, 0, 0, 0, 0, 0, 0, 0];
    assert_eq!(ProduceRequest::<RecordSet>::decode(&bytes, 3), Err(DecodeError::NegativeLength));
    // a topic name of length -32768
    let bytes = vec![0x80, 0, 0, 0, 0, 0];
    assert_eq!(
        TopicProduceData::<RecordSet>::decode_at(&bytes, 0, 7),
        Err(DecodeError::NegativeLength)
    );
    // a partition count of -2
    let bytes = vec![0, 1, b'a', 0xFF, 0xFF, 0xFF, 0xFE];
    assert_eq!(
        TopicProduceData::<RecordSet>::decode_at(&bytes, 0, 7),
        Err(DecodeError::NegativeLength)
    );
    // a payload length of i32::MIN
    let bytes = vec![0, 0, 0, 1, 0x80, 0, 0, 0];
    assert_eq!(
        PartitionProduceData::<RecordSet>::decode_at(&bytes, 0, 7),
        Err(DecodeError::NegativeLength)
    );
}

#[test]
fn decode_refuses_invalid_utf8() {
    let bytes = vec![0, 2, 0xC3, 0x28, 0, 0, 0, 0];
    assert_eq!(
        TopicProduceData::<RecordSet>::decode_at(&bytes, 0, 7),
        Err(DecodeError::InvalidUtf8)
    );
    let bytes = vec![1, 0, 1, 0xFF, 0, 0, 0, 0, 0, 0, 0, 0, 0, 0];
    assert_eq!(ProduceRequest::<RecordSet>::decode(&bytes, 5), Err(DecodeError::InvalidUtf8));
}

#[test]
fn decode_reports_the_first_failure() {
    // the flag is bad and the bytes are short: the flag is read first
    assert_eq!(ProduceRequest::<RecordSet>::decode(&[9], 3), Err(DecodeError::InvalidPresenceFlag));
    // the version is bad and the bytes are empty: the version is checked first
    assert_eq!(ProduceRequest::<RecordSet>::decode(&[], 9), Err(DecodeError::UnsupportedVersion));
    // a huge topic count with no topics behind it runs out of bytes
    let bytes = vec![0, 0, 0, 0, 0, 0, 0x7F, 0xFF, 0xFF, 0xFF];
    assert_eq!(ProduceRequest::<RecordSet>::decode(&bytes, 0), Err(DecodeError::UnexpectedEof));
    // a payload that claims more bytes than follow
    let bytes = vec![0, 0, 0, 1, 0, 0, 0, 3, 1, 2];
    assert_eq!(
        PartitionProduceData::<RecordSet>::decode_at(&bytes, 0, 7),
        Err(DecodeError::UnexpectedEof)
    );
}

#[test]
fn decode_leaves_later_bytes_unread() {
    let request = sample(Some("id"));
    let mut bytes = encoded(&request, 7);
    let len = bytes.len();
    bytes.extend_from_slice(&[1, 2, 3, 4, 5]);
    assert_eq!(ProduceRequest::<RecordSet>::decode(&bytes, 7).unwrap(), request);
    let (decoded, next) = ProduceRequest::<RecordSet>::decode_at(&bytes, 0, 7).unwrap();
    assert_eq!(decoded, request);
    assert_eq!(next, len);
}

#[test]
fn decode_at_reads_from_the_given_position() {
    let request = sample(Some("id"));
    let mut bytes = vec![0xEE, 0xEE, 0xEE];
    bytes.extend_from_slice(&encoded(&request, 4));
    let (decoded, next) = ProduceRequest::<RecordSet>::decode_at(&bytes, 3, 4).unwrap();
    assert_eq!(decoded, request);
    assert_eq!(next, bytes.len());
    assert_eq!(
        ProduceRequest::<RecordSet>::decode_at(&bytes, bytes.len() + 1, 4),
        Err(DecodeError::UnexpectedEof)
    );
    assert_eq!(
        ProduceRequest::<RecordSet>::decode_at(&bytes, usize::MAX, 0),
        Err(DecodeError::UnexpectedEof)
    );
}

#[test]
fn entries_encode_and_decode_on_their_own() {
    let entry = partition(3, &[4, 5]);
    let mut dest = BytesMut::new();
    assert_eq!(entry.encode(&mut dest, 7), Ok(()));
    assert_eq!(&dest[..], &[0, 0, 0, 3, 0, 0, 0, 2, 4, 5]);
    let (decoded, next) = PartitionProduceData::<RecordSet>::decode_at(&dest[..], 0, 7).unwrap();
    assert_eq!(decoded, entry);
    assert_eq!(next, 10);

    let entry = topic("t", vec![partition(3, &[4, 5]), partition(1, &[])]);
    let mut dest = BytesMut::new();
    assert_eq!(entry.encode(&mut dest, 0), Ok(()));
    assert_eq!(
        &dest[..],
        &[0, 1, b't', 0, 0, 0, 2, 0, 0, 0, 3, 0, 0, 0, 2, 4, 5, 0, 0, 0, 1, 0, 0, 0, 0]
    );
    let (decoded, next) = TopicProduceData::<RecordSet>::decode_at(&dest[..], 0, 0).unwrap();
    assert_eq!(decoded, entry);
    assert_eq!(next, dest.len());
}

#[test]
fn a_name_of_the_longest_length_is_written_and_one_longer_is_not() {
    let longest = topic(&"n".repeat(32_767), vec![]);
    let mut dest = BytesMut::new();
    assert_eq!(longest.encode(&mut dest, 7), Ok(()));
    assert_eq!(dest.len(), 2 + 32_767 + 4);
    assert_eq!(&dest[..2], &[0x7F, 0xFF]);
    let (decoded, _) = TopicProduceData::<RecordSet>::decode_at(&dest[..], 0, 7).unwrap();
    assert_eq!(decoded, longest);

    let too_long = topic(&"n".repeat(32_768), vec![]);
    let mut dest = BytesMut::new();
    dest.extend_from_slice(&[7]);
    assert_eq!(too_long.encode(&mut dest, 7), Err(EncodeError::LengthOverflow));
    assert_eq!(&dest[..], &[7]);
}

#[test]
fn a_request_with_an_unwritable_topic_leaves_the_buffer_alone() {
    let request = ProduceRequest {
        transactional_id: None,
        acks: 1,
        timeout_ms: 1,
        topics: vec![topic("fine", vec![partition(0, &[1])]), topic(&"n".repeat(70_000), vec![])],
    };
    let mut dest = BytesMut::new();
    dest.extend_from_slice(&[1, 2, 3]);
    assert_eq!(request.encode(&mut dest, 0), Err(EncodeError::LengthOverflow));
    assert_eq!(&dest[..], &[1, 2, 3]);
}
