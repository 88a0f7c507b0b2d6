use tap_plugin_evtx::{
    Attempt, Attribute, AttributeSet, AttributeValue, Container, EvtxPlugin, IngestError, Node,
    Record, Results, Timestamp,
};

const HEADER_SIZE: usize = 4096;
const CHUNK_SIZE: usize = 65536;
const CHUNK_HEADER_SIZE: usize = 512;

/// 2020-01-01T00:00:00Z in 100 ns steps since 1601-01-01T00:00:00Z.
const NEW_YEAR_2020: u64 = 132_223_104_000_000_000;
const NEW_YEAR_2020_SECONDS: i64 = 1_577_836_800;

/// Runs the decoder over an opened container, to its end.
fn attempts(container: Container) -> Vec<Attempt> {
    let mut parser = container.parser;
    parser
        .records_json_value()
        .map(|attempt| {
            attempt.map(|record| Record {
                record_id: record.event_record_id,
                timestamp: Timestamp {
                    seconds: record.timestamp.timestamp(),
                    nanoseconds: record.timestamp.timestamp_subsec_nanos(),
                },
                payload: record.data,
            })
        })
        .collect()
}

/// A whole ingestion: opens the bytes, runs the decoder, and hands what it
/// read to the plugin.
fn ingest(data: Vec<u8>, children: &mut Vec<Node>) -> Result<Results, IngestError> {
    let mut plugin = EvtxPlugin::default();
    let decoded = plugin.open(data).map(attempts);
    plugin.run(decoded, children)
}

fn put(bytes: &mut [u8], at: usize, value: &[u8]) {
    bytes[at..at + value.len()].copy_from_slice(value);
}

fn file_header(chunks: u16) -> Vec<u8> {
    let mut header = vec![0u8; HEADER_SIZE];
    put(&mut header, 0, b"ElfFile\0");
    put(&mut header, 16, &(chunks.saturating_sub(1) as u64).to_le_bytes());
    put(&mut header, 24, &1u64.to_le_bytes());
    put(&mut header, 32, &128u32.to_le_bytes());
    put(&mut header, 36, &1u16.to_le_bytes());
    put(&mut header, 38, &3u16.to_le_bytes());
    put(&mut header, 40, &(HEADER_SIZE as u16).to_le_bytes());
    put(&mut header, 42, &chunks.to_le_bytes());
    header
}

/// An element name as it stands in a chunk the first time it is used.
fn name(offset: usize, text: &str) -> Vec<u8> {
    let mut bytes = Vec::new();
    bytes.extend_from_slice(&(offset as u32).to_le_bytes());
    bytes.extend_from_slice(&0u32.to_le_bytes());
    bytes.extend_from_slice(&0u16.to_le_bytes());
    bytes.extend_from_slice(&(text.encode_utf16().count() as u16).to_le_bytes());
    for unit in text.encode_utf16() {
        bytes.extend_from_slice(&unit.to_le_bytes());
    }
    bytes.extend_from_slice(&0u16.to_le_bytes());
    bytes
}

/// The opening of an element without attributes, written at `offset`.
fn open_element(offset: usize, text: &str) -> Vec<u8> {
    let mut bytes = vec![0x01];
    bytes.extend_from_slice(&0xffffu16.to_le_bytes());
    bytes.extend_from_slice(&0u32.to_le_bytes());
    bytes.extend(name(offset + bytes.len() + 4, text));
    bytes.push(0x02);
    bytes
}

/// `<Event><Count>count</Count><Source>source</Source></Event>`, written at
/// `offset`.
fn event(offset: usize, count: u32, source: &str) -> Vec<u8> {
    let mut bytes = vec![0x0f, 0x01, 0x01, 0x00];
    bytes.extend(open_element(offset + bytes.len(), "Event"));
    bytes.extend(open_element(offset + bytes.len(), "Count"));
    bytes.extend_from_slice(&[0x05, 0x08]);
    bytes.extend_from_slice(&count.to_le_bytes());
    bytes.push(0x04);
    bytes.extend(open_element(offset + bytes.len(), "Source"));
    bytes.extend_from_slice(&[0x05, 0x01]);
    bytes.extend_from_slice(&(source.encode_utf16().count() as u16).to_le_bytes());
    for unit in source.encode_utf16() {
        bytes.extend_from_slice(&unit.to_le_bytes());
    }
    bytes.push(0x04);
    bytes.push(0x04);
    bytes.push(0x00);
    bytes
}

fn record(record_id: u64, filetime: u64, body: &[u8]) -> Vec<u8> {
    let size = (24 + body.len() + 4) as u32;
    let mut bytes = Vec::new();
    bytes.extend_from_slice(&[0x2a, 0x2a, 0x00, 0x00]);
    bytes.extend_from_slice(&size.to_le_bytes());
    bytes.extend_from_slice(&record_id.to_le_bytes());
    bytes.extend_from_slice(&filetime.to_le_bytes());
    bytes.extend_from_slice(body);
    bytes.extend_from_slice(&size.to_le_bytes());
    bytes
}

fn readable(offset: usize, record_id: u64, filetime: u64, count: u32, source: &str) -> Vec<u8> {
    record(record_id, filetime, &event(offset + 24, count, source))
}

/// A record whose header is sound and whose body starts with a byte that is
/// no token.
fn corrupt(record_id: u64) -> Vec<u8> {
    record(record_id, NEW_YEAR_2020, &[0xff, 0xff, 0xff, 0xff, 0xff, 0xff, 0xff, 0xff])
}

fn chunk(records: &[Vec<u8>], last_record_id: u64) -> Vec<u8> {
    let mut bytes = vec![0u8; CHUNK_SIZE];
    put(&mut bytes, 0, b"ElfChnk\0");
    put(&mut bytes, 8, &1u64.to_le_bytes());
    put(&mut bytes, 16, &last_record_id.to_le_bytes());
    put(&mut bytes, 24, &1u64.to_le_bytes());
    put(&mut bytes, 32, &last_record_id.to_le_bytes());
    put(&mut bytes, 40, &128u32.to_le_bytes());
    let mut offset = CHUNK_HEADER_SIZE;
    for record in records {
        put(&mut bytes, offset, record);
        offset += record.len();
    }
    put(&mut bytes, 48, &(offset as u32).to_le_bytes());
    bytes
}

fn attribute(key: &str, value: AttributeValue) -> Attribute {
    Attribute { key: key.to_string(), value, metadata: None }
}

fn attributes(entries: Vec<Attribute>) -> AttributeValue {
    AttributeValue::Attributes(AttributeSet { entries })
}

fn node(record_id: u64, count: u64, source: &str, time: Timestamp) -> Node {
    Node {
        name: record_id.to_string(),
        attributes: AttributeSet {
            entries: vec![attribute(
                "evtx",
                attributes(vec![
                    attribute(
                        "event",
                        attributes(vec![
                            attribute("count", AttributeValue::Unsigned(count)),
                            attribute("source", AttributeValue::Text(source.to_string())),
                        ]),
                    ),
                    attribute("time", AttributeValue::Timestamp(time)),
                ]),
            )],
        },
    }
}

fn new_year(seconds_later: i64, nanoseconds: u32) -> Timestamp {
    Timestamp { seconds: NEW_YEAR_2020_SECONDS + seconds_later, nanoseconds }
}

fn three_records_one_corrupt() -> Vec<u8> {
    let first = readable(CHUNK_HEADER_SIZE, 42, NEW_YEAR_2020, 7, "Alpha");
    let second = corrupt(43);
    let third = readable(
        CHUNK_HEADER_SIZE + first.len() + second.len(),
        44,
        NEW_YEAR_2020 + 10_000_000 + 1_234_560,
        4_000_000_000,
        "Beta Gamma",
    );
    let mut bytes = file_header(1);
    bytes.extend(chunk(&[first, second, third], 44));
    bytes
}

#[test]
fn bytes_that_are_no_container_fail_to_open() {
    let garbage = b"this is not an event log".to_vec();
    let expected = evtx::EvtxParser::from_buffer(garbage.clone()).unwrap_err().to_string();
    assert!(!expected.is_empty());

    let mut children = Vec::new();
    let outcome = ingest(garbage, &mut children);
    assert_eq!(outcome, Err(IngestError::ContainerOpenFailed(expected)));
    assert!(children.is_empty());
}

#[test]
fn failure_to_open_leaves_earlier_children_alone() {
    let mut children = vec![Node::new("kept".to_string())];
    let mut wrong_magic = file_header(0);
    put(&mut wrong_magic, 0, b"ElfFail\0");
    let outcome = ingest(wrong_magic, &mut children);
    assert!(matches!(outcome, Err(IngestError::ContainerOpenFailed(_))));
    assert_eq!(children, vec![Node::new("kept".to_string())]);
}

#[test]
fn empty_and_truncated_bytes_fail_to_open() {
    let mut children = Vec::new();
    let outcome = ingest(Vec::new(), &mut children);
    assert!(matches!(outcome, Err(IngestError::ContainerOpenFailed(_))));
    let truncated = file_header(0)[..20].to_vec();
    let outcome = ingest(truncated, &mut children);
    assert!(matches!(outcome, Err(IngestError::ContainerOpenFailed(_))));
    assert!(children.is_empty());
}

#[test]
fn message_is_the_one_of_the_decoder() {
    let mut children = Vec::new();
    let no_magic = ingest(vec![0u8; HEADER_SIZE], &mut children);
    assert_eq!(
        no_magic,
        Err(IngestError::ContainerOpenFailed(
            "An error occurred while trying to deserialize evtx stream.".to_string()
        ))
    );
    let too_short = ingest(file_header(0)[..128].to_vec(), &mut children);
    match too_short {
        Err(error) => assert_eq!(
            error.message(),
            "Calculation Error, reason: Could not calculate valid chunk count because stream \
             size is less than evtx header block size. (stream_size: 128, header_block_size: 4096)"
        ),
        other => panic!("expected a failure, found {:?}", other),
    }
    assert!(children.is_empty());
}

#[test]
fn container_without_records_gives_no_children() {
    let mut children = Vec::new();
    let outcome = ingest(file_header(0), &mut children);
    assert_eq!(outcome, Ok(Results {}));
    assert!(children.is_empty());

    let mut with_empty_chunk = file_header(1);
    with_empty_chunk.extend(chunk(&[], 0));
    let outcome = ingest(with_empty_chunk, &mut children);
    assert_eq!(outcome, Ok(Results {}));
    assert!(children.is_empty());
}

#[test]
fn one_record_gives_one_child() {
    let mut bytes = file_header(1);
    bytes.extend(chunk(&[readable(CHUNK_HEADER_SIZE, 42, NEW_YEAR_2020, 7, "Alpha")], 42));
    let mut children = Vec::new();
    let outcome = ingest(bytes, &mut children);
    assert_eq!(outcome, Ok(Results {}));
    assert_eq!(children, vec![node(42, 7, "Alpha", new_year(0, 0))]);
}

#[test]
fn corrupt_record_is_skipped_and_the_rest_is_kept() {
    let mut children = vec![Node::new("earlier".to_string())];
    let outcome = ingest(three_records_one_corrupt(), &mut children);
    assert_eq!(outcome, Ok(Results {}));
    assert_eq!(
        children,
        vec![
            Node::new("earlier".to_string()),
            node(42, 7, "Alpha", new_year(0, 0)),
            node(44, 4_000_000_000, "Beta Gamma", new_year(1, 123_456_000)),
        ]
    );
}

#[test]
fn opened_container_is_the_one_of_the_bytes() {
    let container = EvtxPlugin::default().open(three_records_one_corrupt());
    let read: Vec<Option<u64>> = match container {
        Ok(container) => attempts(container)
            .into_iter()
            .map(|attempt| attempt.ok().map(|record| record.record_id))
            .collect(),
        Err(error) => panic!("expected a container, found {:?}", error),
    };
    assert_eq!(read, vec![Some(42), None, Some(44)]);
    assert!(EvtxPlugin::default().open(b"ElfFile".to_vec()).is_err());
}

#[test]
fn decoder_sees_what_the_ingestion_sees() {
    let mut parser = evtx::EvtxParser::from_buffer(three_records_one_corrupt()).unwrap();
    let attempts: Vec<bool> = parser.records_json_value().map(|attempt| attempt.is_ok()).collect();
    assert_eq!(attempts, vec![true, false, true]);
}

#[test]
fn chunk_that_cannot_be_read_is_skipped() {
    let mut broken = chunk(&[readable(CHUNK_HEADER_SIZE, 1, NEW_YEAR_2020, 1, "Lost")], 1);
    put(&mut broken, 0, b"NotChnk\0");
    let mut bytes = file_header(2);
    bytes.extend(broken);
    bytes.extend(chunk(&[readable(CHUNK_HEADER_SIZE, 2, NEW_YEAR_2020, 2, "Found")], 2));
    let mut children = Vec::new();
    let outcome = ingest(bytes, &mut children);
    assert_eq!(outcome, Ok(Results {}));
    assert_eq!(children, vec![node(2, 2, "Found", new_year(0, 0))]);
}

#[test]
fn records_come_in_the_order_of_the_container() {
    let first = readable(CHUNK_HEADER_SIZE, 9, NEW_YEAR_2020 + 20_000_000, 1, "Late");
    let second = readable(CHUNK_HEADER_SIZE + first.len(), 3, NEW_YEAR_2020, 2, "Early");
    let third = readable(
        CHUNK_HEADER_SIZE + first.len() + second.len(),
        3,
        NEW_YEAR_2020,
        3,
        "Again",
    );
    let mut bytes = file_header(1);
    bytes.extend(chunk(&[first, second, third], 0));
    let mut children = Vec::new();
    let outcome = ingest(bytes, &mut children);
    assert_eq!(outcome, Ok(Results {}));
    assert_eq!(
        children,
        vec![
            node(9, 1, "Late", new_year(2, 0)),
            node(3, 2, "Early", new_year(0, 0)),
            node(3, 3, "Again", new_year(0, 0)),
        ]
    );
}

#[test]
fn two_runs_on_the_same_bytes_agree() {
    let mut first = Vec::new();
    let mut second = Vec::new();
    assert_eq!(ingest(three_records_one_corrupt(), &mut first), Ok(Results {}));
    assert_eq!(ingest(three_records_one_corrupt(), &mut second), Ok(Results {}));
    assert_eq!(first, second);
    assert_eq!(first.len(), 2);
}
