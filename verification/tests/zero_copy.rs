use bytes::BytesMut;
use produce_request::EncodeError;
use produce_request::FileRecordSet;
use produce_request::FileSlice;
use produce_request::PartitionProduceData;
use produce_request::ProduceRequest;
use produce_request::RecordSet;
use produce_request::StoreValue;
use produce_request::TopicProduceData;

/// The files of a pretend log store, by descriptor.
fn store() -> Vec<(i32, Vec<u8>)> {
    vec![
        (3, (0u8..=99).collect()),
        (4, vec![0xA0, 0xA1, 0xA2, 0xA3]),
        (9, vec![]),
    ]
}

fn window(store: &[(i32, Vec<u8>)], slice: &FileSlice) -> Vec<u8> {
    let file = &store.iter().find(|(fd, _)| *fd == slice.fd).expect("an open file").1;
    file[slice.position as usize..(slice.position + slice.len) as usize].to_vec()
}

fn replay(store: &[(i32, Vec<u8>)], data: &[StoreValue], header: &BytesMut) -> Vec<u8> {
    let mut stream = Vec::new();
    for piece in data {
        match piece {
            StoreValue::Bytes(bytes) => stream.extend_from_slice(&bytes[..]),
            StoreValue::FileSlice(slice) => stream.extend_from_slice(&window(store, slice)),
        }
    }
    stream.extend_from_slice(&header[..]);
    stream
}

fn file_partition(index: i32, fd: i32, position: u64, len: u64) -> PartitionProduceData<FileRecordSet> {
    PartitionProduceData {
        partition_index: index,
        records: FileRecordSet { slice: FileSlice { fd, position, len } },
    }
}

fn file_topic(
    name: &str,
    partitions: Vec<PartitionProduceData<FileRecordSet>>,
) -> TopicProduceData<FileRecordSet> {
    TopicProduceData { name: name.to_string(), partitions }
}

fn in_memory(
    store: &[(i32, Vec<u8>)],
    request: &ProduceRequest<FileRecordSet>,
) -> ProduceRequest<RecordSet> {
    ProduceRequest {
        transactional_id: request.transactional_id.clone(),
        acks: request.acks,
        timeout_ms: request.timeout_ms,
        topics: request
            .topics
            .iter()
            .map(|topic| TopicProduceData {
                name: topic.name.clone(),
                partitions: topic
                    .partitions
                    .iter()
                    .map(|partition| PartitionProduceData {
                        partition_index: partition.partition_index,
                        records: RecordSet { bytes: window(store, &partition.records.slice) },
                    })
                    .collect(),
            })
            .collect(),
    }
}

fn encoded(request: &ProduceRequest<RecordSet>, version: i16) -> Vec<u8> {
    let mut dest = BytesMut::new();
    request.encode(&mut dest, version).expect("the request can be written");
    dest[..].to_vec()
}

fn sample(transactional_id: Option<&str>) -> ProduceRequest<FileRecordSet> {
    ProduceRequest {
        transactional_id: transactional_id.map(|id| id.to_string()),
        acks: -1,
        timeout_ms: 30_000,
        topics: vec![
            file_topic("A", vec![file_partition(0, 3, 0, 10), file_partition(1, 3, 10, 5)]),
            file_topic("B", vec![file_partition(0, 4, 1, 3), file_partition(5, 9, 0, 0)]),
        ],
    }
}

#[test]
fn file_encode_replays_to_the_contiguous_encoding() {
    let store = store();
    for version in 0..=7 {
        for id in [None, Some(""), Some("txn")] {
            let request = sample(id);
            let mut header = BytesMut::new();
            let mut data = Vec::new();
            assert_eq!(request.file_encode(&mut header, &mut data, version), Ok(()));
            assert_eq!(
                replay(&store, &data, &header),
                encoded(&in_memory(&store, &request), version)
            );
        }
    }
}

#[test]
fn file_encode_hands_over_header_then_window_for_each_payload() {
    let request = sample(Some("txn"));
    let mut header = BytesMut::new();
    let mut data = Vec::new();
    assert_eq!(request.file_encode(&mut header, &mut data, 7), Ok(()));
    assert!(header.is_empty());
    assert_eq!(data.len(), 8);
    let first_header: Vec<u8> = vec![
        1, 0, 3, b't', b'x', b'n', // transactional id
        0xFF, 0xFF, // acks
        0, 0, 0x75, 0x30, // timeout_ms
        0, 0, 0, 2, // two topics
        0, 1, b'A', // name
        0, 0, 0, 2, // two partitions
        0, 0, 0, 0, // partition index
        0, 0, 0, 10, // payload length
    ];
    match &data[0] {
        StoreValue::Bytes(bytes) => assert_eq!(&bytes[..], &first_header[..]),
        StoreValue::FileSlice(_) => panic!("the first piece is the header"),
    }
    assert_eq!(data[1], StoreValue::FileSlice(FileSlice { fd: 3, position: 0, len: 10 }));
    match &data[2] {
        StoreValue::Bytes(bytes) => assert_eq!(&bytes[..], &[0, 0, 0, 1, 0, 0, 0, 5]),
        StoreValue::FileSlice(_) => panic!("a header comes before each window"),
    }
    assert_eq!(data[3], StoreValue::FileSlice(FileSlice { fd: 3, position: 10, len: 5 }));
    match &data[4] {
        StoreValue::Bytes(bytes) => {
            assert_eq!(&bytes[..], &[0, 1, b'B', 0, 0, 0, 2, 0, 0, 0, 0, 0, 0, 0, 3])
        },
        StoreValue::FileSlice(_) => panic!("a header comes before each window"),
    }
    assert_eq!(data[5], StoreValue::FileSlice(FileSlice { fd: 4, position: 1, len: 3 }));
    match &data[6] {
        StoreValue::Bytes(bytes) => assert_eq!(&bytes[..], &[0, 0, 0, 5, 0, 0, 0, 0]),
        StoreValue::FileSlice(_) => panic!("a header comes before each window"),
    }
    assert_eq!(data[7], StoreValue::FileSlice(FileSlice { fd: 9, position: 0, len: 0 }));
}

#[test]
fn file_encode_leaves_out_the_transactional_id_before_version_three() {
    let request = sample(Some("very-distinctive-transactional-id"));
    for version in 0..3 {
        let mut header = BytesMut::new();
        let mut data = Vec::new();
        assert_eq!(request.file_encode(&mut header, &mut data, version), Ok(()));
        match &data[0] {
            StoreValue::Bytes(bytes) => assert_eq!(&bytes[..2], &[0xFF, 0xFF]),
            StoreValue::FileSlice(_) => panic!("the first piece is the header"),
        }
        let mut without = sample(None);
        without.acks = request.acks;
        let mut other_header = BytesMut::new();
        let mut other_data = Vec::new();
        assert_eq!(without.file_encode(&mut other_header, &mut other_data, version), Ok(()));
        assert_eq!(data, other_data);
    }
}

#[test]
fn header_bytes_behind_the_last_payload_stay_in_the_header_buffer() {
    let store = store();
    let request = ProduceRequest {
        transactional_id: None,
        acks: 1,
        timeout_ms: 10,
        topics: vec![
            file_topic("with", vec![file_partition(2, 4, 0, 4)]),
            file_topic("none", vec![]),
            file_topic("", vec![]),
        ],
    };
    let mut header = BytesMut::new();
    let mut data = Vec::new();
    assert_eq!(request.file_encode(&mut header, &mut data, 7), Ok(()));
    assert_eq!(data.len(), 2);
    assert_eq!(&header[..], &[0, 4, b'n', b'o', b'n', b'e', 0, 0, 0, 0, 0, 0, 0, 0, 0, 0]);
    assert_eq!(replay(&store, &data, &header), encoded(&in_memory(&store, &request), 7));
}

#[test]
fn a_request_without_payloads_stays_in_the_header_buffer() {
    let store = store();
    let request: ProduceRequest<FileRecordSet> = ProduceRequest {
        transactional_id: Some("t".to_string()),
        acks: 0,
        timeout_ms: 1,
        topics: vec![file_topic("empty", vec![])],
    };
    let mut header = BytesMut::new();
    let mut data = Vec::new();
    assert_eq!(request.file_encode(&mut header, &mut data, 7), Ok(()));
    assert!(data.is_empty());
    assert_eq!(&header[..], &encoded(&in_memory(&store, &request), 7)[..]);
}

#[test]
fn file_encode_adds_to_what_the_buffers_hold() {
    let store = store();
    let request = sample(Some("txn"));
    let mut header = BytesMut::new();
    header.extend_from_slice(&[0xCA, 0xFE]);
    let mut data = vec![
        StoreValue::FileSlice(FileSlice { fd: 4, position: 0, len: 2 }),
        StoreValue::Bytes(bytes::Bytes::from_static(&[5, 6])),
    ];
    let before = replay(&store, &data, &header);
    assert_eq!(before, vec![0xA0, 0xA1, 5, 6, 0xCA, 0xFE]);
    assert_eq!(request.file_encode(&mut header, &mut data, 5), Ok(()));
    assert_eq!(data.len(), 10);
    assert_eq!(data[0], StoreValue::FileSlice(FileSlice { fd: 4, position: 0, len: 2 }));
    let mut expected = before;
    expected.extend_from_slice(&encoded(&in_memory(&store, &request), 5));
    assert_eq!(replay(&store, &data, &header), expected);
}

#[test]
fn entries_stage_on_their_own() {
    let entry = file_partition(6, 3, 20, 4);
    let mut header = BytesMut::new();
    header.extend_from_slice(&[9]);
    let mut data = Vec::new();
    assert_eq!(entry.file_encode(&mut header, &mut data, 7), Ok(()));
    assert!(header.is_empty());
    assert_eq!(
        data,
        vec![
            StoreValue::Bytes(bytes::Bytes::from_static(&[9, 0, 0, 0, 6, 0, 0, 0, 4])),
            StoreValue::FileSlice(FileSlice { fd: 3, position: 20, len: 4 }),
        ]
    );

    let entry = file_topic("t", vec![file_partition(6, 3, 20, 4), file_partition(7, 3, 24, 1)]);
    let mut header = BytesMut::new();
    let mut data = Vec::new();
    assert_eq!(entry.file_encode(&mut header, &mut data, 0), Ok(()));
    assert!(header.is_empty());
    assert_eq!(
        data,
        vec![
            StoreValue::Bytes(bytes::Bytes::from_static(&[
                0, 1, b't', 0, 0, 0, 2, 0, 0, 0, 6, 0, 0, 0, 4
            ])),
            StoreValue::FileSlice(FileSlice { fd: 3, position: 20, len: 4 }),
            StoreValue::Bytes(bytes::Bytes::from_static(&[0, 0, 0, 7, 0, 0, 0, 1])),
            StoreValue::FileSlice(FileSlice { fd: 3, position: 24, len: 1 }),
        ]
    );
}

#[test]
fn a_window_too_long_for_its_prefix_is_refused() {
    let longest = file_partition(0, 3, 0, i32::MAX as u64);
    let mut header = BytesMut::new();
    let mut data = Vec::new();
    assert_eq!(longest.file_encode(&mut header, &mut data, 7), Ok(()));
    match &data[0] {
        StoreValue::Bytes(bytes) => assert_eq!(&bytes[..], &[0, 0, 0, 0, 0x7F, 0xFF, 0xFF, 0xFF]),
        StoreValue::FileSlice(_) => panic!("the first piece is the header"),
    }

    let too_long = file_partition(0, 3, 0, i32::MAX as u64 + 1);
    let mut header = BytesMut::new();
    header.extend_from_slice(&[1, 2]);
    let mut data = vec![StoreValue::FileSlice(FileSlice { fd: 1, position: 2, len: 3 })];
    assert_eq!(too_long.file_encode(&mut header, &mut data, 7), Err(EncodeError::LengthOverflow));
    assert_eq!(&header[..], &[1, 2]);
    assert_eq!(data, vec![StoreValue::FileSlice(FileSlice { fd: 1, position: 2, len: 3 })]);
}

#[test]
fn a_request_that_cannot_be_written_leaves_both_buffers_alone() {
    let mut request = sample(Some("txn"));
    request.topics[1].partitions[1].records.slice.len = u64::MAX;
    let mut header = BytesMut::new();
    header.extend_from_slice(&[1, 2]);
    let mut data = vec![StoreValue::FileSlice(FileSlice { fd: 1, position: 2, len: 3 })];
    assert_eq!(request.file_encode(&mut header, &mut data, 7), Err(EncodeError::LengthOverflow));
    assert_eq!(&header[..], &[1, 2]);
    assert_eq!(data.len(), 1);

    let mut request = sample(Some("txn"));
    request.topics[0].name = "n".repeat(32_768);
    let mut header = BytesMut::new();
    let mut data = Vec::new();
    assert_eq!(request.file_encode(&mut header, &mut data, 0), Err(EncodeError::LengthOverflow));
    assert!(header.is_empty());
    assert!(data.is_empty());
}

#[test]
fn default_file_record_set_is_an_empty_window() {
    let records = FileRecordSet::default();
    assert_eq!(records.slice, FileSlice { fd: 0, position: 0, len: 0 });
    let partition: PartitionProduceData<FileRecordSet> = PartitionProduceData::default();
    assert_eq!(partition.partition_index, 0);
    assert_eq!(partition.records, records);
}
