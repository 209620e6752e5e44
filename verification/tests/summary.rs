use std::collections::BTreeMap;
use std::io::Cursor;

use mcap_replay::decoder::{Advance, DecoderState, FrameDecoder};
use mcap_replay::error::ReplayError;
use mcap_replay::record::{ChannelRecord, MessageHeader, Record, SchemaHeader};
use mcap_replay::summary::{Cataloged, Channel, LoadStep, Schema, Summary};

const MAGIC: [u8; 8] = [0x89, b'M', b'C', b'A', b'P', 0x30, b'\r', b'\n'];

fn tail_with_offset(offset: u64) -> Vec<u8> {
    let mut tail = offset.to_le_bytes().to_vec();
    tail.extend_from_slice(&[0u8; 12]);
    tail.extend_from_slice(&MAGIC);
    tail
}

fn empty_summary() -> Summary {
    Summary::load_from_mcap("log.mcap", &tail_with_offset(64)).expect("indexed")
}

fn schema_record(id: u16, name: &str, data: &[u8]) -> Record {
    Record::Schema {
        header: SchemaHeader { id, name: name.to_string(), encoding: "jsonschema".to_string() },
        data: data.to_vec(),
    }
}

fn channel_record(id: u16, schema_id: u16, topic: &str) -> Record {
    Record::Channel(ChannelRecord {
        id,
        schema_id,
        topic: topic.to_string(),
        message_encoding: "json".to_string(),
    })
}

fn string_field(text: &str) -> Vec<u8> {
    let mut out = (text.len() as u32).to_le_bytes().to_vec();
    out.extend_from_slice(text.as_bytes());
    out
}

fn frame(opcode: u8, payload: &[u8]) -> Vec<u8> {
    let mut out = vec![opcode];
    out.extend_from_slice(&(payload.len() as u64).to_le_bytes());
    out.extend_from_slice(payload);
    out
}

fn schema_frame(id: u16, name: &str, data: &[u8]) -> Vec<u8> {
    let mut payload = id.to_le_bytes().to_vec();
    payload.extend(string_field(name));
    payload.extend(string_field("jsonschema"));
    payload.extend_from_slice(&(data.len() as u32).to_le_bytes());
    payload.extend_from_slice(data);
    frame(0x03, &payload)
}

fn channel_frame(id: u16, schema_id: u16, topic: &str) -> Vec<u8> {
    let mut payload = id.to_le_bytes().to_vec();
    payload.extend_from_slice(&schema_id.to_le_bytes());
    payload.extend(string_field(topic));
    payload.extend(string_field("json"));
    payload.extend_from_slice(&0u32.to_le_bytes());
    frame(0x04, &payload)
}

/// A container whose data section is empty and whose summary section holds
/// the given frames.
fn container_with_summary(frames: &[Vec<u8>]) -> Vec<u8> {
    let mut out = MAGIC.to_vec();
    let mut header = string_field("");
    header.extend(string_field("handmade"));
    out.extend(frame(0x01, &header));
    out.extend(frame(0x0F, &0u32.to_le_bytes()));
    let summary_start = if frames.is_empty() { 0 } else { out.len() as u64 };
    for summary_frame in frames {
        out.extend(summary_frame);
    }
    let mut footer = summary_start.to_le_bytes().to_vec();
    footer.extend_from_slice(&0u64.to_le_bytes());
    footer.extend_from_slice(&0u32.to_le_bytes());
    out.extend(frame(0x02, &footer));
    out.extend_from_slice(&MAGIC);
    out
}

/// Loads the catalog of a container held in memory, the way a caller does
/// with a file: the tail first, then the summary section step by step.
fn load(bytes: &[u8]) -> Result<(Summary, Vec<Cataloged>), ReplayError> {
    let tail = &bytes[bytes.len().saturating_sub(28)..];
    let mut summary = Summary::load_from_mcap("memory.mcap", tail)?;
    let mut position = usize::min(summary.summary_start() as usize, bytes.len());
    let mut reader = FrameDecoder::mid_stream();
    let mut changes = Vec::new();
    loop {
        match summary.load_step(&mut reader)? {
            LoadStep::NeedMore(count) => {
                let end = usize::min(bytes.len(), position + count);
                assert!(reader.supply(&bytes[position..end]));
                position = end;
            }
            LoadStep::Handled(change) => changes.push(change),
            LoadStep::Finished => {
                assert_eq!(reader.current_state(), DecoderState::Finished);
                return Ok((summary, changes));
            }
        }
    }
}

#[test]
fn a_load_begins_with_an_empty_catalog() {
    let summary = Summary::load_from_mcap("dir/log.mcap", &tail_with_offset(4096)).expect("indexed");
    assert_eq!(summary.path(), "dir/log.mcap");
    assert_eq!(summary.summary_start(), 4096);
    assert_eq!(summary.schema_count(), 0);
    assert_eq!(summary.channel_count(), 0);
    assert_eq!(summary.schema(1), None);
    assert_eq!(summary.channel(0), None);
}

#[test]
fn a_load_fails_on_bad_magic() {
    let mut tail = tail_with_offset(4096);
    tail[27] ^= 0xFF;
    assert_eq!(Summary::load_from_mcap("log.mcap", &tail).err(), Some(ReplayError::MalformedContainer));
    assert_eq!(
        Summary::load_from_mcap("log.mcap", &tail[..20]).err(),
        Some(ReplayError::MalformedContainer)
    );
}

#[test]
fn a_load_fails_without_an_index() {
    assert_eq!(
        Summary::load_from_mcap("log.mcap", &tail_with_offset(0)).err(),
        Some(ReplayError::MissingIndex)
    );
}

#[test]
fn repeated_ids_are_entered_once() {
    let mut summary = empty_summary();
    let records = vec![
        schema_record(1, "A", b"a"),
        schema_record(2, "B", b"b"),
        channel_record(10, 1, "/a"),
        schema_record(1, "A", b"a"),
        channel_record(11, 2, "/b"),
        channel_record(10, 1, "/a"),
        schema_record(3, "C", b"c"),
        channel_record(12, 3, "/c"),
        channel_record(13, 3, "/d"),
        schema_record(2, "B", b"b"),
        schema_record(3, "C", b"c"),
        channel_record(13, 3, "/d"),
        channel_record(11, 2, "/b"),
    ];
    let mut changes = Vec::new();
    for record in records.iter().chain(records.iter()).chain(records.iter()) {
        changes.push(summary.handle_record(record.clone()).expect("accepted"));
    }
    assert_eq!(summary.schema_count(), 3);
    assert_eq!(summary.channel_count(), 4);
    let entered: Vec<Cataloged> =
        changes.iter().copied().filter(|change| *change != Cataloged::Nothing).collect();
    assert_eq!(
        entered,
        vec![
            Cataloged::Schema(1),
            Cataloged::Schema(2),
            Cataloged::Channel(10),
            Cataloged::Channel(11),
            Cataloged::Schema(3),
            Cataloged::Channel(12),
            Cataloged::Channel(13),
        ]
    );
    assert_eq!(changes.len(), 39);
}

#[test]
fn the_first_record_of_an_id_wins() {
    let mut summary = empty_summary();
    assert_eq!(summary.handle_record(schema_record(7, "First", b"one")), Ok(Cataloged::Schema(7)));
    assert_eq!(summary.handle_record(schema_record(7, "Second", b"two")), Ok(Cataloged::Nothing));
    assert_eq!(summary.handle_record(channel_record(3, 7, "/first")), Ok(Cataloged::Channel(3)));
    assert_eq!(summary.handle_record(channel_record(3, 0, "/second")), Ok(Cataloged::Nothing));
    assert_eq!(
        summary.schema(7),
        Some(&Schema {
            id: 7,
            name: "First".to_string(),
            encoding: "jsonschema".to_string(),
            data: b"one".to_vec(),
        })
    );
    assert_eq!(
        summary.channel(3),
        Some(&Channel {
            id: 3,
            topic: "/first".to_string(),
            message_encoding: "json".to_string(),
            schema_id: Some(7),
        })
    );
    assert_eq!(summary.schema_count(), 1);
    assert_eq!(summary.channel_count(), 1);
}

#[test]
fn schema_id_zero_is_an_invalid_entry() {
    let mut summary = empty_summary();
    assert_eq!(summary.handle_record(schema_record(5, "Five", b"")), Ok(Cataloged::Schema(5)));
    assert_eq!(
        summary.handle_record(schema_record(0, "Zero", b"")),
        Err(ReplayError::InvalidCatalogEntry)
    );
    let header = SchemaHeader { id: 0, name: "Zero".to_string(), encoding: String::new() };
    assert_eq!(summary.handle_schema(&header, Vec::new()), Err(ReplayError::InvalidCatalogEntry));
    assert_eq!(summary.schema_count(), 1);
    assert_eq!(summary.schema(0), None);
    assert_eq!(summary.handle_record(schema_record(u16::MAX, "Last", b"")), Ok(Cataloged::Schema(u16::MAX)));
}

#[test]
fn a_channel_without_its_schema_is_schema_less() {
    let mut summary = empty_summary();
    assert_eq!(summary.handle_record(channel_record(1, 9, "/early")), Ok(Cataloged::Channel(1)));
    assert_eq!(summary.handle_record(channel_record(2, 0, "/none")), Ok(Cataloged::Channel(2)));
    assert_eq!(summary.handle_record(schema_record(9, "Late", b"")), Ok(Cataloged::Schema(9)));
    assert_eq!(summary.handle_record(channel_record(3, 9, "/on-time")), Ok(Cataloged::Channel(3)));
    assert_eq!(summary.channel(1).map(|channel| channel.schema_id), Some(None));
    assert_eq!(summary.channel(2).map(|channel| channel.schema_id), Some(None));
    assert_eq!(summary.channel(3).map(|channel| channel.schema_id), Some(Some(9)));
    assert_eq!(summary.channel(0), None);
}

#[test]
fn handle_channel_reports_what_it_entered() {
    let mut summary = empty_summary();
    let record = ChannelRecord {
        id: 0,
        schema_id: 0,
        topic: "/zero".to_string(),
        message_encoding: "cdr".to_string(),
    };
    assert_eq!(summary.handle_channel(record.clone()), Cataloged::Channel(0));
    assert_eq!(summary.handle_channel(record), Cataloged::Nothing);
    assert_eq!(
        summary.channel(0),
        Some(&Channel {
            id: 0,
            topic: "/zero".to_string(),
            message_encoding: "cdr".to_string(),
            schema_id: None,
        })
    );
}

#[test]
fn other_records_leave_the_catalog_alone() {
    let mut summary = empty_summary();
    let message = Record::Message {
        header: MessageHeader { channel_id: 1, sequence: 1, log_time: 1, publish_time: 1 },
        data: vec![1],
    };
    assert_eq!(summary.handle_record(message), Ok(Cataloged::Nothing));
    assert_eq!(summary.handle_record(Record::Footer), Ok(Cataloged::Nothing));
    assert_eq!(summary.handle_record(Record::Other), Ok(Cataloged::Nothing));
    assert_eq!(summary.schema_count(), 0);
    assert_eq!(summary.channel_count(), 0);
}

#[test]
fn absorb_passes_requests_and_the_end_on() {
    let mut summary = empty_summary();
    assert_eq!(summary.absorb(Advance::NeedMore(9)), Ok(LoadStep::NeedMore(9)));
    assert_eq!(summary.absorb(Advance::Exhausted), Ok(LoadStep::Finished));
    assert_eq!(
        summary.absorb(Advance::Record(schema_record(4, "Four", b""))),
        Ok(LoadStep::Handled(Cataloged::Schema(4)))
    );
    assert_eq!(
        summary.absorb(Advance::Record(schema_record(0, "Zero", b""))),
        Err(ReplayError::InvalidCatalogEntry)
    );
    assert_eq!(summary.absorb(Advance::Record(Record::Other)), Ok(LoadStep::Handled(Cataloged::Nothing)));
    assert_eq!(summary.schema_count(), 1);
}

#[test]
fn load_of_a_summary_with_repeated_records() {
    let frames = vec![
        schema_frame(1, "First", b"one"),
        schema_frame(2, "Other", b"two"),
        schema_frame(1, "Second", b"three"),
        channel_frame(5, 1, "/five"),
        channel_frame(6, 2, "/six"),
        channel_frame(5, 2, "/again"),
        channel_frame(7, 3, "/seven"),
        schema_frame(2, "Other", b"two"),
    ];
    let (summary, changes) = load(&container_with_summary(&frames)).expect("loads");
    assert_eq!(summary.schema_count(), 2);
    assert_eq!(summary.channel_count(), 3);
    assert_eq!(summary.schema(1).map(|schema| schema.name.as_str()), Some("First"));
    assert_eq!(summary.schema(1).map(|schema| schema.data.as_slice()), Some(&b"one"[..]));
    assert_eq!(summary.channel(5).map(|channel| channel.topic.as_str()), Some("/five"));
    assert_eq!(summary.channel(5).map(|channel| channel.schema_id), Some(Some(1)));
    assert_eq!(summary.channel(7).map(|channel| channel.schema_id), Some(None));
    assert_eq!(
        changes,
        vec![
            Cataloged::Schema(1),
            Cataloged::Schema(2),
            Cataloged::Nothing,
            Cataloged::Channel(5),
            Cataloged::Channel(6),
            Cataloged::Nothing,
            Cataloged::Channel(7),
            Cataloged::Nothing,
            Cataloged::Nothing,
        ]
    );
}

#[test]
fn load_fails_on_a_corrupt_last_byte() {
    let mut bytes = container_with_summary(&[schema_frame(1, "A", b""), channel_frame(1, 1, "/a")]);
    assert!(load(&bytes).is_ok());
    let last = bytes.len() - 1;
    bytes[last] = bytes[last].wrapping_add(1);
    assert_eq!(load(&bytes).err(), Some(ReplayError::MalformedContainer));
}

#[test]
fn load_fails_on_a_footer_without_summary_offset() {
    let bytes = container_with_summary(&[]);
    assert_eq!(load(&bytes).err(), Some(ReplayError::MissingIndex));
}

#[test]
fn load_fails_on_schema_id_zero_in_the_summary() {
    let frames =
        vec![schema_frame(1, "A", b""), schema_frame(0, "Zero", b""), channel_frame(1, 1, "/a")];
    assert_eq!(load(&container_with_summary(&frames)).err(), Some(ReplayError::InvalidCatalogEntry));
}

#[test]
fn load_fails_on_a_malformed_summary_frame() {
    let frames = vec![schema_frame(1, "A", b""), frame(0x04, &[1, 0, 1])];
    assert_eq!(load(&container_with_summary(&frames)).err(), Some(ReplayError::Decode));
    let mut overlong = schema_frame(2, "B", b"");
    overlong[11..15].copy_from_slice(&u32::MAX.to_le_bytes());
    assert_eq!(load(&container_with_summary(&[overlong])).err(), Some(ReplayError::Decode));
}

#[test]
fn load_fails_where_the_summary_offset_points_behind_the_file() {
    let mut bytes = container_with_summary(&[schema_frame(1, "A", b"")]);
    let at = bytes.len() - 28;
    bytes[at..at + 8].copy_from_slice(&u64::MAX.to_le_bytes());
    assert_eq!(load(&bytes).err(), Some(ReplayError::Decode));
}

#[test]
fn load_of_a_written_container() {
    let mut out = Cursor::new(Vec::new());
    let (schema, channel) = {
        let mut writer = mcap::Writer::new(&mut out).expect("writer");
        let schema = writer.add_schema("Pose", "jsonschema", b"{}").expect("schema");
        let channel =
            writer.add_channel(schema, "/pose", "json", &BTreeMap::new()).expect("channel");
        for (sequence, log_time) in [(1u32, 0u64), (2, 100_000_000), (3, 250_000_000)] {
            let header = mcap::records::MessageHeader {
                channel_id: channel,
                sequence,
                log_time,
                publish_time: log_time,
            };
            writer.write_to_known_channel(&header, &[1, 2, 3]).expect("message");
        }
        writer.finish().expect("finish");
        (schema, channel)
    };
    let bytes = out.into_inner();
    let (summary, _) = load(&bytes).expect("loads");
    assert_eq!((summary.schema_count(), summary.channel_count()), (1, 1));
    assert_eq!(
        summary.schema(schema),
        Some(&Schema {
            id: schema,
            name: "Pose".to_string(),
            encoding: "jsonschema".to_string(),
            data: b"{}".to_vec(),
        })
    );
    assert_eq!(
        summary.channel(channel),
        Some(&Channel {
            id: channel,
            topic: "/pose".to_string(),
            message_encoding: "json".to_string(),
            schema_id: Some(schema),
        })
    );
}

#[test]
fn channels_share_the_schema_they_name() {
    let mut summary = empty_summary();
    for record in [
        schema_record(1, "Pose", b"pose"),
        channel_record(10, 1, "/left"),
        channel_record(11, 1, "/right"),
        channel_record(12, 0, "/raw"),
        channel_record(13, 2, "/early"),
        schema_record(2, "Late", b"late"),
    ] {
        summary.handle_record(record).expect("accepted");
    }
    let pose = summary.schema(1).expect("entered");
    assert_eq!(summary.channel_schema(10), Some(pose));
    assert_eq!(summary.channel_schema(11), Some(pose));
    assert_eq!(summary.channel_schema(12), None);
    assert_eq!(summary.channel_schema(13), None);
    assert_eq!(summary.channel_schema(14), None);
    assert_eq!(summary.schema_count(), 2);
}

#[test]
fn the_default_catalog_is_empty() {
    let summary = Summary::default();
    assert_eq!(summary.path(), "");
    assert_eq!(summary.summary_start(), 0);
    assert_eq!(summary.schema_count(), 0);
    assert_eq!(summary.channel_count(), 0);
    assert_eq!(summary.schema(1), None);
    assert_eq!(summary.channel(1), None);
}
