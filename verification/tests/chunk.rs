use std::collections::BTreeMap;
use std::io::{Cursor, Write};

use mcap_replay::chunk::{
    compression_for, decompress, open, Compression, Records, CHUNK_FIXED_LEN, NAME_AT,
    NAME_LEN_AT, RECORDS_SIZE_AT,
};
use mcap_replay::decoder::{advance_reader, Advance, DecoderState, FrameDecoder, ReadAction};
use mcap_replay::error::ReplayError;
use mcap_replay::record::{MessageHeader, Record};

const MAGIC: [u8; 8] = [0x89, b'M', b'C', b'A', b'P', 0x30, b'\r', b'\n'];

fn record_header(opcode: u8, len: u64) -> Vec<u8> {
    let mut out = vec![opcode];
    out.extend_from_slice(&len.to_le_bytes());
    out
}

fn record(opcode: u8, payload: &[u8]) -> Vec<u8> {
    let mut out = record_header(opcode, payload.len() as u64);
    out.extend_from_slice(payload);
    out
}

fn message(sequence: u32, data: &[u8]) -> Vec<u8> {
    let mut payload = 3u16.to_le_bytes().to_vec();
    payload.extend_from_slice(&sequence.to_le_bytes());
    payload.extend_from_slice(&(sequence as u64 * 10).to_le_bytes());
    payload.extend_from_slice(&0u64.to_le_bytes());
    payload.extend_from_slice(data);
    record(0x05, &payload)
}

fn the_message(sequence: u32, data: &[u8]) -> Record {
    Record::Message {
        header: MessageHeader {
            channel_id: 3,
            sequence,
            log_time: sequence as u64 * 10,
            publish_time: 0,
        },
        data: data.to_vec(),
    }
}

fn zstd_of(bytes: &[u8]) -> Vec<u8> {
    zstd::encode_all(bytes, 0).expect("zstd")
}

fn lz4_of(bytes: &[u8]) -> Vec<u8> {
    let mut encoder = lz4::EncoderBuilder::new().build(Vec::new()).expect("lz4");
    encoder.write_all(bytes).expect("lz4 write");
    let (out, end) = encoder.finish();
    end.expect("lz4 finish");
    out
}

/// The payload of a chunk that declares `records_size` bytes of records and
/// `content_size` bytes of content, followed by `content`.
fn payload_of(name: &str, records_size: u64, content_size: u64, content: &[u8]) -> Vec<u8> {
    let mut out = vec![0u8; 16];
    out.extend_from_slice(&records_size.to_le_bytes());
    out.extend_from_slice(&0u32.to_le_bytes());
    out.extend_from_slice(&(name.len() as u32).to_le_bytes());
    out.extend_from_slice(name.as_bytes());
    out.extend_from_slice(&content_size.to_le_bytes());
    out.extend_from_slice(content);
    out
}

/// The payload of a chunk in good order that holds `records`.
fn chunk_of(name: &str, records: &[u8]) -> Vec<u8> {
    let content = match name {
        "zstd" => zstd_of(records),
        "lz4" => lz4_of(records),
        _ => records.to_vec(),
    };
    payload_of(name, records.len() as u64, content.len() as u64, &content)
}

fn container(chunks: &[Vec<u8>]) -> Vec<u8> {
    let mut out = MAGIC.to_vec();
    for chunk in chunks {
        out.extend(record(0x06, chunk));
    }
    out.extend(record(0x02, &[0u8; 20]));
    out.extend_from_slice(&MAGIC);
    out
}

/// Runs a decoder over `bytes`, handing it `piece` bytes at most at a time.
fn run(bytes: &[u8], piece: usize) -> (Vec<Record>, Result<(), ReplayError>) {
    let mut decoder = FrameDecoder::new();
    let mut position = 0;
    let mut records = Vec::new();
    loop {
        match advance_reader(&mut decoder) {
            Ok(Advance::NeedMore(count)) => {
                let end = usize::min(bytes.len(), position + usize::min(count, piece));
                assert!(decoder.supply(&bytes[position..end]));
                position = end;
            }
            Ok(Advance::Record(record)) => records.push(record),
            Ok(Advance::Exhausted) => {
                assert_eq!(decoder.current_state(), DecoderState::Finished);
                return (records, Ok(()));
            }
            Err(error) => {
                assert_eq!(decoder.current_state(), DecoderState::Failed);
                assert_eq!(advance_reader(&mut decoder), Err(ReplayError::Decode));
                return (records, Err(error));
            }
        }
    }
}

#[test]
fn where_the_fields_of_a_chunk_stand() {
    assert_eq!(RECORDS_SIZE_AT, 16);
    assert_eq!(NAME_LEN_AT, 28);
    assert_eq!(NAME_AT, 32);
    assert_eq!(CHUNK_FIXED_LEN, 40);
}

#[test]
fn three_names_stand_for_a_compression() {
    assert_eq!(compression_for(b""), Some(Compression::Plain));
    assert_eq!(compression_for(b"zstd"), Some(Compression::Zstd));
    assert_eq!(compression_for(b"lz4"), Some(Compression::Lz4));
    for name in ["zst", "zstd ", "ZSTD", "lz", "lz44", "lz5", "gzip", " ", "\0"] {
        assert_eq!(compression_for(name.as_bytes()), None);
    }
}

#[test]
fn a_content_is_decompressed_up_to_the_limit() {
    let records: Vec<u8> = (0..2_000u32).map(|i| (i % 7) as u8).collect();
    assert_eq!(decompress(Compression::Plain, &records, 0), Some(records.clone()));
    let packed = zstd_of(&records);
    assert_ne!(packed, records);
    assert_eq!(decompress(Compression::Zstd, &packed, 5_000), Some(records.clone()));
    assert_eq!(decompress(Compression::Zstd, &packed, 2_000), Some(records.clone()));
    assert_eq!(decompress(Compression::Zstd, &packed, 100), Some(records[..100].to_vec()));
    assert_eq!(decompress(Compression::Zstd, &packed, 0), Some(vec![]));
    let packed = lz4_of(&records);
    assert_ne!(packed, records);
    assert_eq!(decompress(Compression::Lz4, &packed, 5_000), Some(records.clone()));
    assert_eq!(decompress(Compression::Lz4, &packed, 100), Some(records[..100].to_vec()));
    // What is no compressed stream at all.
    assert_eq!(decompress(Compression::Zstd, &records, 5_000), None);
    assert_eq!(decompress(Compression::Lz4, &records, 5_000), None);
    assert_eq!(decompress(Compression::Zstd, &zstd_of(&records)[..20], 5_000), None);
}

#[test]
fn a_chunk_in_good_order_is_opened() {
    let mut records = message(1, b"one");
    records.extend(message(2, b""));
    for name in ["", "zstd", "lz4"] {
        assert_eq!(open(&chunk_of(name, &records)), Ok(records.clone()));
        assert_eq!(open(&chunk_of(name, &[])), Ok(vec![]));
    }
    // Bytes of the frame behind the content are no part of it.
    let mut padded = chunk_of("zstd", &records);
    padded.extend_from_slice(&[0xFF; 11]);
    assert_eq!(open(&padded), Ok(records.clone()));
    let mut content = records.clone();
    content.extend_from_slice(&[0xFF; 11]);
    let plain = payload_of("", 0, records.len() as u64, &content);
    assert_eq!(open(&plain), Ok(records.clone()));
    // Nor are bytes of the content behind the compressed frame.
    for (name, mut content) in [("zstd", zstd_of(&records)), ("lz4", lz4_of(&records))] {
        content.extend_from_slice(&[0xFF; 7]);
        let payload = payload_of(name, records.len() as u64, content.len() as u64, &content);
        assert_eq!(open(&payload), Ok(records.clone()));
    }
    // A plain chunk holds what its content holds, whatever size it declares.
    assert_eq!(open(&payload_of("", 1_000, 3, &[1, 2, 3, 4])), Ok(vec![1, 2, 3]));
}

#[test]
fn a_chunk_that_declares_more_than_it_holds_is_refused() {
    let records = message(1, b"one");
    for len in [0usize, 1, 31, 32, 39] {
        assert_eq!(open(&vec![0u8; len]), Err(ReplayError::Decode));
    }
    assert_eq!(open(&vec![0u8; 40]), Ok(vec![]));
    // The name runs past the end of the payload.
    let whole = chunk_of("zstd", &[]);
    assert_eq!(open(&whole[..43]), Err(ReplayError::Decode));
    let mut long_name = payload_of("", 0, 0, &[0u8; 64]);
    long_name[28..32].copy_from_slice(&u32::MAX.to_le_bytes());
    assert_eq!(open(&long_name), Err(ReplayError::Decode));
    long_name[28..32].copy_from_slice(&65u32.to_le_bytes());
    assert_eq!(open(&long_name), Err(ReplayError::Decode));
    // The content runs past the end of the payload.
    for declared in [records.len() as u64 + 1, 1_000, u64::MAX - 40, u64::MAX] {
        let payload = payload_of("", records.len() as u64, declared, &records);
        assert_eq!(open(&payload), Err(ReplayError::Decode));
    }
}

#[test]
fn an_unknown_compression_is_refused() {
    let records = message(1, b"one");
    for name in ["gzip", "zst", "lz4hc"] {
        let payload = payload_of(name, records.len() as u64, records.len() as u64, &records);
        assert_eq!(open(&payload), Err(ReplayError::Decode));
    }
}

#[test]
fn a_content_must_yield_what_the_chunk_declares() {
    let mut records = message(1, b"one");
    records.extend(message(2, b"two"));
    let size = records.len() as u64;
    for (name, content) in [("zstd", zstd_of(&records)), ("lz4", lz4_of(&records))] {
        let held = content.len() as u64;
        assert_eq!(open(&payload_of(name, size, held, &content)), Ok(records.clone()));
        for declared in [0, 1, size - 10, size - 1, size + 1, size + 100, u64::MAX - 1, u64::MAX] {
            let payload = payload_of(name, declared, held, &content);
            assert_eq!(open(&payload), Err(ReplayError::Decode));
        }
        // A content that is cut short, and one that is no stream at all.
        let payload = payload_of(name, size, held / 2, &content);
        assert_eq!(open(&payload), Err(ReplayError::Decode));
        let payload = payload_of(name, size, size, &records);
        assert_eq!(open(&payload), Err(ReplayError::Decode));
    }
}

#[test]
fn records_are_cut_out_one_by_one() {
    let mut bytes = record(0x05, &[1, 2, 3]);
    bytes.extend(record(0x80, &[]));
    bytes.extend(record(0x04, &[9; 30]));
    let mut records = Records::of(bytes);
    assert!(!records.is_empty());
    assert_eq!(records.take(), Ok((0x05, vec![1, 2, 3])));
    assert_eq!(records.take(), Ok((0x80, vec![])));
    assert!(!records.is_empty());
    assert_eq!(records.take(), Ok((0x04, vec![9; 30])));
    assert!(records.is_empty());
    assert_eq!(records.take(), Err(ReplayError::Decode));
    assert!(Records::none().is_empty());
    assert!(Records::of(vec![]).is_empty());
    assert_eq!(Records::none().take(), Err(ReplayError::Decode));
}

#[test]
fn a_record_that_runs_past_its_chunk_is_refused() {
    for len in [4u64, 1_000, u64::MAX - 9, u64::MAX - 8, u64::MAX - 3, u64::MAX] {
        let mut bytes = record(0x05, &[7; 5]);
        bytes.extend(record_header(0x05, len));
        bytes.extend_from_slice(&[1, 2, 3]);
        let mut records = Records::of(bytes);
        assert_eq!(records.take(), Ok((0x05, vec![7; 5])));
        assert_eq!(records.take(), Err(ReplayError::Decode));
        // What was left of the chunk is dropped.
        assert!(records.is_empty());
    }
    // Fewer bytes than a header.
    for left in 1..9usize {
        let mut records = Records::of(vec![0u8; left]);
        assert_eq!(records.take(), Err(ReplayError::Decode));
        assert!(records.is_empty());
    }
}

#[test]
fn an_opened_chunk_is_held_for_the_steps_to_come() {
    let mut records = message(1, b"one");
    records.extend(message(2, b""));
    for name in ["", "zstd", "lz4"] {
        let chunk = ReadAction::GetRecord { opcode: 0x06, data: chunk_of(name, &records) };
        assert_eq!(
            FrameDecoder::interpret(Some(Ok(chunk.clone())), false),
            (Ok(Advance::Record(Record::Other)), DecoderState::Ready, records.clone())
        );
        assert_eq!(
            FrameDecoder::interpret(Some(Ok(chunk)), true),
            (Ok(Advance::Record(Record::Other)), DecoderState::Draining, records.clone())
        );
    }
    let broken = ReadAction::GetRecord { opcode: 0x06, data: vec![0u8; 39] };
    assert_eq!(
        FrameDecoder::interpret(Some(Ok(broken)), false),
        (Err(ReplayError::Decode), DecoderState::Failed, vec![])
    );
    let mut held = Records::of(records);
    assert_eq!(FrameDecoder::unpack(&mut held), Ok(Advance::Record(the_message(1, b"one"))));
    assert_eq!(FrameDecoder::unpack(&mut held), Ok(Advance::Record(the_message(2, b""))));
    assert!(held.is_empty());
    // A frame that is cut out whole and is no record.
    let mut held = Records::of([record(0x05, &[1, 2, 3]), message(1, b"")].concat());
    assert_eq!(FrameDecoder::unpack(&mut held), Err(ReplayError::Decode));
    assert!(held.is_empty());
}

#[test]
fn the_records_of_chunks_come_in_their_order() {
    for name in ["", "zstd", "lz4"] {
        let mut first = message(1, b"one");
        first.extend(record(0x80, &[1, 2]));
        first.extend(message(2, b"two"));
        let second = message(3, b"three");
        let bytes = container(&[chunk_of(name, &first), chunk_of(name, &[]), chunk_of(name, &second)]);
        for piece in [1, 7, 64, 100_000] {
            let (records, end) = run(&bytes, piece);
            assert_eq!(end, Ok(()));
            assert_eq!(
                records,
                vec![
                    Record::Other,
                    the_message(1, b"one"),
                    Record::Other,
                    the_message(2, b"two"),
                    Record::Other,
                    Record::Other,
                    the_message(3, b"three"),
                    Record::Footer,
                ]
            );
        }
    }
}

#[test]
fn a_record_of_nearly_all_the_bytes_there_are_in_a_chunk() {
    for name in ["zstd", "lz4", ""] {
        for len in [u64::MAX - 9, u64::MAX - 8, u64::MAX - 1, u64::MAX] {
            let mut inside = message(1, b"one");
            inside.extend(record_header(0x05, len));
            inside.extend_from_slice(&[0u8; 40]);
            let mut bytes = container(&[chunk_of(name, &inside)]);
            bytes.extend(message(9, b"behind"));
            for piece in [1, 64, 100_000] {
                let (records, end) = run(&bytes, piece);
                assert_eq!(end, Err(ReplayError::Decode));
                assert_eq!(records, vec![Record::Other, the_message(1, b"one")]);
            }
        }
    }
}

#[test]
fn a_compressed_chunk_that_yields_more_than_it_declares() {
    let mut inside = message(1, b"one");
    inside.extend(message(2, b"two"));
    for (name, content) in [("zstd", zstd_of(&inside)), ("lz4", lz4_of(&inside))] {
        // The chunk declares the size of its first record alone, or less.
        for declared in [message(1, b"one").len() as u64, 9, 1, 0] {
            let chunk = payload_of(name, declared, content.len() as u64, &content);
            let bytes = container(&[chunk_of("", &message(7, b"ahead")), chunk]);
            for piece in [1, 64, 100_000] {
                let (records, end) = run(&bytes, piece);
                assert_eq!(end, Err(ReplayError::Decode));
                assert_eq!(records, vec![Record::Other, the_message(7, b"ahead")]);
            }
        }
    }
}

#[test]
fn a_decoder_holds_nothing_of_a_chunk_after_an_error() {
    let mut inside = message(1, b"one");
    inside.extend(record(0x05, &[1, 2, 3]));
    inside.extend(message(2, b"two"));
    let (records, end) = run(&container(&[chunk_of("zstd", &inside)]), 50);
    assert_eq!(end, Err(ReplayError::Decode));
    assert_eq!(records, vec![Record::Other, the_message(1, b"one")]);
}

#[test]
fn written_chunks_are_opened() {
    for compression in [None, Some(mcap::Compression::Zstd), Some(mcap::Compression::Lz4)] {
        let mut out = Cursor::new(Vec::new());
        {
            let options = mcap::WriteOptions::new().compression(compression).chunk_size(Some(200));
            let mut writer = options.create(&mut out).expect("writer");
            let schema = writer.add_schema("Pose", "jsonschema", b"{}").expect("schema");
            let channel =
                writer.add_channel(schema, "/pose", "json", &BTreeMap::new()).expect("channel");
            for sequence in 0..40u32 {
                let header = mcap::records::MessageHeader {
                    channel_id: channel,
                    sequence,
                    log_time: sequence as u64,
                    publish_time: 0,
                };
                writer.write_to_known_channel(&header, &[sequence as u8; 17]).expect("message");
            }
            writer.finish().expect("finish");
        }
        let bytes = out.into_inner();
        for piece in [1, 1_000_000] {
            let (records, end) = run(&bytes, piece);
            assert_eq!(end, Ok(()));
            let sequences: Vec<u32> = records
                .iter()
                .filter_map(|record| match record {
                    Record::Message { header, data } => {
                        assert_eq!(data, &vec![header.sequence as u8; 17]);
                        Some(header.sequence)
                    }
                    _ => None,
                })
                .collect();
            assert_eq!(sequences, (0..40).collect::<Vec<u32>>());
            assert_eq!(records.last(), Some(&Record::Footer));
        }
    }
}
