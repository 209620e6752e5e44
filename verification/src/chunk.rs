//! Chunks: what a chunk declares, what its content decompresses to, and the
//! records that are cut out of it.
//!
//! A chunk is a frame whose payload holds a run of records, plain or
//! compressed.  Its header declares the size of the run, the name of the
//! compression and the size of the compressed content.  Every one of these
//! numbers is checked against the bytes that are there before anything is
//! computed from it: a chunk that declares more than its frame holds, a
//! content that does not decompress to what was declared, and a record that
//! runs past the end of its chunk are decode errors.

use crate::error::ReplayError;
use crate::frame::{le_u32, read_u32_le};
use crate::guard::{le_u64_at, read_u64_le, HEADER_LEN};
use std::io::Read;
use vstd::prelude::*;
use vstd::slice::{slice_subrange, slice_to_vec};

verus! {

/// Where in the payload of a chunk the size of its records stands.
pub const RECORDS_SIZE_AT: usize = 16;

/// Where the length of the name of its compression stands.
pub const NAME_LEN_AT: usize = 28;

/// Where the name of its compression starts.
pub const NAME_AT: usize = 32;

/// Bytes of the header of a chunk without the name of its compression.
pub const CHUNK_FIXED_LEN: usize = 40;

/// How the records of a chunk are stored.
#[derive(Clone, Copy, Debug, PartialEq, Eq, Structural)]
pub enum Compression {
    /// As they are.
    Plain,
    /// Compressed with Zstandard.
    Zstd,
    /// Compressed as an LZ4 frame.
    Lz4,
}

/// Mathematical value of a chunk whose header fits its payload.
pub struct ChunkView {
    pub compression: Compression,
    /// Size that the chunk declares for its records.
    pub records_size: u64,
    /// The content of the chunk, as stored.
    pub content: Seq<u8>,
}

/// One frame cut from the front of a run of records.
pub struct CutView {
    pub opcode: u8,
    pub body: Seq<u8>,
    /// The records behind the frame.
    pub rest: Seq<u8>,
}

/// The name `zstd`.
pub open spec fn zstd_name() -> Seq<u8> {
    seq![0x7Au8, 0x73u8, 0x74u8, 0x64u8]
}

/// The name `lz4`.
pub open spec fn lz4_name() -> Seq<u8> {
    seq![0x6Cu8, 0x7Au8, 0x34u8]
}

/// The compression that a name stands for; the empty name stands for none.
pub open spec fn compression_named(name: Seq<u8>) -> Option<Compression> {
    if name.len() == 0 {
        Some(Compression::Plain)
    } else if name == zstd_name() {
        Some(Compression::Zstd)
    } else if name == lz4_name() {
        Some(Compression::Lz4)
    } else {
        None
    }
}

/// The chunk in a payload: none where the payload is too short for the
/// header, where the header and the content that it declares are more than
/// the payload holds, or where the compression is not known.
pub open spec fn chunk_of(payload: Seq<u8>) -> Option<ChunkView> {
    if payload.len() < NAME_AT {
        None
    } else if payload.len() < CHUNK_FIXED_LEN + le_u32(payload, NAME_LEN_AT as int) {
        None
    } else if CHUNK_FIXED_LEN + le_u32(payload, NAME_LEN_AT as int) + le_u64_at(
        payload,
        NAME_AT + le_u32(payload, NAME_LEN_AT as int),
    ) > payload.len() {
        None
    } else {
        match compression_named(
            payload.subrange(NAME_AT as int, NAME_AT + le_u32(payload, NAME_LEN_AT as int)),
        ) {
            Some(compression) => Some(
                ChunkView {
                    compression,
                    records_size: le_u64_at(payload, RECORDS_SIZE_AT as int) as u64,
                    content: payload.subrange(
                        CHUNK_FIXED_LEN + le_u32(payload, NAME_LEN_AT as int),
                        CHUNK_FIXED_LEN + le_u32(payload, NAME_LEN_AT as int) + le_u64_at(
                            payload,
                            NAME_AT + le_u32(payload, NAME_LEN_AT as int),
                        ),
                    ),
                },
            ),
            None => None,
        }
    }
}

/// What the Zstandard decoder makes of the frame at the front of `content`,
/// read up to `limit` bytes: the bytes, or nothing where it reports an
/// error.
pub uninterp spec fn zstd_decoded(content: Seq<u8>, limit: u64) -> Option<Seq<u8>>;

/// What the LZ4 decoder makes of the frame at the front of `content`, read
/// up to `limit` bytes: the bytes, or nothing where it reports an error.
pub uninterp spec fn lz4_decoded(content: Seq<u8>, limit: u64) -> Option<Seq<u8>>;

/// What a content decompresses to, read up to `limit` bytes.
pub open spec fn decompressed(compression: Compression, content: Seq<u8>, limit: u64) -> Option<
    Seq<u8>,
> {
    match compression {
        Compression::Plain => Some(content),
        Compression::Zstd => zstd_decoded(content, limit),
        Compression::Lz4 => lz4_decoded(content, limit),
    }
}

/// How far the content of a chunk that declares `records_size` bytes is
/// decompressed: one byte further, so that a content that yields more than
/// was declared is told from one that yields as much.
pub open spec fn read_limit(records_size: u64) -> u64 {
    if records_size < u64::MAX {
        (records_size + 1) as u64
    } else {
        records_size
    }
}

/// The records of a chunk.  A plain chunk holds them as its content.  The
/// content of a compressed chunk opens with one compressed frame, which
/// must decompress to as many bytes as the chunk declares, no more and no
/// fewer; what stands behind the frame is passed over.
pub open spec fn records_of(chunk: ChunkView) -> Result<Seq<u8>, ReplayError> {
    match decompressed(chunk.compression, chunk.content, read_limit(chunk.records_size)) {
        Some(records) => if chunk.compression is Plain || records.len() == chunk.records_size {
            Ok(records)
        } else {
            Err(ReplayError::Decode)
        },
        None => Err(ReplayError::Decode),
    }
}

/// The records in the payload of a chunk, or the decode error that a
/// malformed chunk ends in.
pub open spec fn opened(payload: Seq<u8>) -> Result<Seq<u8>, ReplayError> {
    match chunk_of(payload) {
        Some(chunk) => records_of(chunk),
        None => Err(ReplayError::Decode),
    }
}

/// The frame at the front of a run of records: none where the run is too
/// short for a frame header, or for the payload that the header declares.
pub open spec fn cut(records: Seq<u8>) -> Option<CutView> {
    if records.len() < HEADER_LEN {
        None
    } else if HEADER_LEN + le_u64_at(records, 1) > records.len() {
        None
    } else {
        Some(
            CutView {
                opcode: records[0],
                body: records.subrange(HEADER_LEN as int, HEADER_LEN + le_u64_at(records, 1)),
                rest: records.skip(HEADER_LEN + le_u64_at(records, 1)),
            },
        )
    }
}

/// `zstd::stream::read::Decoder::new` over a slice, set to stop behind the
/// first frame and read to its end through `std::io::Read::take`: the bytes
/// that the frame decompresses to, at most `limit` of them.  An error of the
/// decoder gives nothing.  The result depends on the content and the limit
/// alone.
#[verifier::external_body]
fn zstd_decode(content: &[u8], limit: u64) -> (out: Option<Vec<u8>>)
    ensures
        (match out {
            Some(bytes) => zstd_decoded(content@, limit) == Some(bytes@),
            None => zstd_decoded(content@, limit) is None,
        }),
{
    let mut out = Vec::new();
    let decoder = zstd::stream::read::Decoder::new(content).ok()?.single_frame();
    decoder.take(limit).read_to_end(&mut out).ok()?;
    Some(out)
}

/// `lz4::Decoder::new` over a slice, read to its end through
/// `std::io::Read::take`: the bytes that the first frame decompresses to, at
/// most `limit` of them.  An error of the decoder gives nothing.  The
/// result depends on the content and the limit alone.
#[verifier::external_body]
fn lz4_decode(content: &[u8], limit: u64) -> (out: Option<Vec<u8>>)
    ensures
        (match out {
            Some(bytes) => lz4_decoded(content@, limit) == Some(bytes@),
            None => lz4_decoded(content@, limit) is None,
        }),
{
    let mut out = Vec::new();
    let decoder = lz4::Decoder::new(content).ok()?;
    decoder.take(limit).read_to_end(&mut out).ok()?;
    Some(out)
}

/// Tells which compression a name stands for.
pub fn compression_for(name: &[u8]) -> (compression: Option<Compression>)
    ensures
        compression == compression_named(name@),
{
    if name.len() == 0 {
        return Some(Compression::Plain);
    }
    let zstd = name.len() == 4 && name[0] == 0x7A && name[1] == 0x73 && name[2] == 0x74 && name[3]
        == 0x64;
    let lz4 = name.len() == 3 && name[0] == 0x6C && name[1] == 0x7A && name[2] == 0x34;
    proof {
        if zstd {
            assert(name@ =~= zstd_name());
        }
        if lz4 {
            assert(name@ =~= lz4_name());
        }
    }
    if zstd {
        Some(Compression::Zstd)
    } else if lz4 {
        Some(Compression::Lz4)
    } else {
        None
    }
}

/// Decompresses the content of a chunk as far as `limit` bytes.
pub fn decompress(compression: Compression, content: &[u8], limit: u64) -> (out: Option<Vec<u8>>)
    ensures
        (match out {
            Some(bytes) => decompressed(compression, content@, limit) == Some(bytes@),
            None => decompressed(compression, content@, limit) is None,
        }),
{
    match compression {
        Compression::Plain => Some(slice_to_vec(content)),
        Compression::Zstd => zstd_decode(content, limit),
        Compression::Lz4 => lz4_decode(content, limit),
    }
}

/// Opens a chunk: checks what its header declares against its payload,
/// decompresses its content, and gives its records as one run of bytes.
pub fn open(payload: &[u8]) -> (res: Result<Vec<u8>, ReplayError>)
    ensures
        (match res {
            Ok(records) => opened(payload@) == Ok::<Seq<u8>, ReplayError>(records@),
            Err(error) => opened(payload@) == Err::<Seq<u8>, ReplayError>(error),
        }),
{
    if payload.len() < NAME_AT {
        return Err(ReplayError::Decode);
    }
    let name_len: usize = read_u32_le(payload, NAME_LEN_AT) as usize;
    if payload.len() - NAME_AT < 8 || payload.len() - CHUNK_FIXED_LEN < name_len {
        return Err(ReplayError::Decode);
    }
    let size: u64 = read_u64_le(payload, NAME_AT + name_len);
    let room: usize = payload.len() - CHUNK_FIXED_LEN - name_len;
    if size > room as u64 {
        return Err(ReplayError::Decode);
    }
    let name = slice_subrange(payload, NAME_AT, NAME_AT + name_len);
    let compression = match compression_for(name) {
        Some(compression) => compression,
        None => {
            return Err(ReplayError::Decode);
        },
    };
    let records_size: u64 = read_u64_le(payload, RECORDS_SIZE_AT);
    let start: usize = CHUNK_FIXED_LEN + name_len;
    let content = slice_subrange(payload, start, start + size as usize);
    let limit: u64 = if records_size < u64::MAX {
        records_size + 1
    } else {
        records_size
    };
    match decompress(compression, content, limit) {
        Some(records) => {
            let whole = match compression {
                Compression::Plain => true,
                _ => records.len() as u64 == records_size,
            };
            if whole {
                Ok(records)
            } else {
                Err(ReplayError::Decode)
            }
        },
        None => Err(ReplayError::Decode),
    }
}

/// The records of the chunk at hand that have not been cut out yet.
pub struct Records {
    bytes: Vec<u8>,
    at: usize,
}

impl View for Records {
    type V = Seq<u8>;

    closed spec fn view(&self) -> Seq<u8> {
        self.bytes@.skip(self.at as int)
    }
}

impl Records {
    #[verifier::type_invariant]
    spec fn well_formed(self) -> bool {
        self.at <= self.bytes.len()
    }

    /// No records.
    pub fn none() -> (records: Self)
        ensures
            records@ == Seq::<u8>::empty(),
    {
        Records { bytes: Vec::new(), at: 0 }
    }

    /// The records of a chunk that has been opened.
    pub fn of(bytes: Vec<u8>) -> (records: Self)
        ensures
            records@ == bytes@,
    {
        Records { bytes, at: 0 }
    }

    /// Whether every record has been cut out.
    pub fn is_empty(&self) -> (empty: bool)
        ensures
            empty == (self@.len() == 0),
    {
        proof {
            use_type_invariant(self);
        }
        self.at >= self.bytes.len()
    }

    /// Cuts the next frame out of the records.  Where the records end
    /// before the frame does, the chunk is malformed, and what is left of it
    /// is dropped.
    pub fn take(&mut self) -> (res: Result<(u8, Vec<u8>), ReplayError>)
        ensures
            (match cut(old(self)@) {
                Some(frame) => res matches Ok(taken) && taken.0 == frame.opcode && taken.1@
                    == frame.body && final(self)@ == frame.rest,
                None => res == Err::<(u8, Vec<u8>), ReplayError>(ReplayError::Decode) && final(self)@ == Seq::<u8>::empty(),
            }),
    {
        proof {
            use_type_invariant(&*self);
        }
        let left: usize = self.bytes.len() - self.at;
        if left >= HEADER_LEN {
            let len: u64 = read_u64_le(self.bytes.as_slice(), self.at + 1);
            if len <= (left - HEADER_LEN) as u64 {
                let opcode: u8 = self.bytes[self.at];
                let from: usize = self.at + HEADER_LEN;
                let body = slice_to_vec(
                    slice_subrange(self.bytes.as_slice(), from, from + len as usize),
                );
                self.at = from + len as usize;
                return Ok((opcode, body));
            }
        }
        self.at = 0;
        self.bytes = Vec::new();
        Err(ReplayError::Decode)
    }
}

/// A frame that is cut out is the front of the records: its header, its
/// payload and what is left make up the records that it was cut from, so
/// every cut leaves fewer bytes than there were.
pub proof fn lemma_cut_takes_the_front(records: Seq<u8>)
    ensures
        cut(records) matches Some(frame) ==> records == records.subrange(0, HEADER_LEN as int)
            + frame.body + frame.rest && frame.rest.len() + HEADER_LEN <= records.len(),
{
    if let Some(frame) = cut(records) {
        assert(records =~= records.subrange(0, HEADER_LEN as int) + frame.body + frame.rest);
    }
}

} // verus!
