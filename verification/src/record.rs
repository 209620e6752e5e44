//! The records of a container that playback reads, and their mathematical views.
//!
//! Only three kinds of record carry anything the engine acts on: schemas and
//! channels, which make up the catalog, and messages, which are replayed.
//! Everything else is kept as a bare tag.

use vstd::prelude::*;

verus! {

/// Opcode of the header record that opens a container.
pub const OP_HEADER: u8 = 0x01;

/// Opcode of a footer record.
pub const OP_FOOTER: u8 = 0x02;

/// Opcode of a schema record.
pub const OP_SCHEMA: u8 = 0x03;

/// Opcode of a channel record.
pub const OP_CHANNEL: u8 = 0x04;

/// Opcode of a message record.
pub const OP_MESSAGE: u8 = 0x05;

/// Opcode of a chunk record.
pub const OP_CHUNK: u8 = 0x06;

/// Opcode of a chunk index record.
pub const OP_CHUNK_INDEX: u8 = 0x08;

/// Opcode of an attachment record.
pub const OP_ATTACHMENT: u8 = 0x09;

/// Opcode of an attachment index record.
pub const OP_ATTACHMENT_INDEX: u8 = 0x0A;

/// Opcode of a metadata record.
pub const OP_METADATA: u8 = 0x0C;

/// Opcode of a metadata index record.
pub const OP_METADATA_INDEX: u8 = 0x0D;

/// What identifies a schema: its number, its name and the encoding of its payload.
#[derive(Clone, Debug, PartialEq, Eq)]
pub struct SchemaHeader {
    pub id: u16,
    pub name: String,
    pub encoding: String,
}

/// A channel as the container records it.  `schema_id` is zero where the
/// channel has no schema.
#[derive(Clone, Debug, PartialEq, Eq)]
pub struct ChannelRecord {
    pub id: u16,
    pub schema_id: u16,
    pub topic: String,
    pub message_encoding: String,
}

/// What a message carries besides its payload.  Times are in nanoseconds.
#[derive(Clone, Copy, Debug, PartialEq, Eq, Structural)]
pub struct MessageHeader {
    pub channel_id: u16,
    pub sequence: u32,
    pub log_time: u64,
    pub publish_time: u64,
}

/// One decoded record.
#[allow(inconsistent_fields)]
#[derive(Clone, Debug, PartialEq, Eq)]
pub enum Record {
    Schema { header: SchemaHeader, data: Vec<u8> },
    Channel(ChannelRecord),
    Message { header: MessageHeader, data: Vec<u8> },
    Footer,
    Other,
}

/// Mathematical value of a [`SchemaHeader`].
pub struct SchemaHeaderView {
    pub id: u16,
    pub name: Seq<char>,
    pub encoding: Seq<char>,
}

/// Mathematical value of a [`ChannelRecord`].
pub struct ChannelRecordView {
    pub id: u16,
    pub schema_id: u16,
    pub topic: Seq<char>,
    pub message_encoding: Seq<char>,
}

/// Mathematical value of a [`Record`].
#[allow(inconsistent_fields)]
pub enum RecordView {
    Schema { header: SchemaHeaderView, data: Seq<u8> },
    Channel(ChannelRecordView),
    Message { header: MessageHeader, data: Seq<u8> },
    Footer,
    Other,
}

impl View for SchemaHeader {
    type V = SchemaHeaderView;

    open spec fn view(&self) -> SchemaHeaderView {
        SchemaHeaderView { id: self.id, name: self.name@, encoding: self.encoding@ }
    }
}

impl View for ChannelRecord {
    type V = ChannelRecordView;

    open spec fn view(&self) -> ChannelRecordView {
        ChannelRecordView {
            id: self.id,
            schema_id: self.schema_id,
            topic: self.topic@,
            message_encoding: self.message_encoding@,
        }
    }
}

impl View for Record {
    type V = RecordView;

    open spec fn view(&self) -> RecordView {
        match *self {
            Record::Schema { header, data } => RecordView::Schema { header: header@, data: data@ },
            Record::Channel(channel) => RecordView::Channel(channel@),
            Record::Message { header, data } => RecordView::Message { header, data: data@ },
            Record::Footer => RecordView::Footer,
            Record::Other => RecordView::Other,
        }
    }
}

} // verus!
