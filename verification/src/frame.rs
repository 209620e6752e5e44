//! The shape of a frame: whether the lengths that a payload declares stay
//! inside the payload.
//!
//! Several kinds of record carry strings and maps of strings, each with its
//! length in front.  A payload in which such a length points behind the end
//! is malformed, whatever else it holds.  This module walks the
//! length-prefixed part of each kind of record and says whether it closes
//! inside the payload; a frame that does not is a decode error, and is never
//! handed to the record parser.

use crate::record::{
    OP_ATTACHMENT, OP_ATTACHMENT_INDEX, OP_CHANNEL, OP_CHUNK, OP_CHUNK_INDEX, OP_HEADER,
    OP_METADATA, OP_METADATA_INDEX, OP_SCHEMA,
};
use vstd::prelude::*;

verus! {

/// Bytes of a length prefix.
pub const PREFIX_LEN: usize = 4;

/// Bytes of one entry of a map from channel ids to offsets.
pub const OFFSET_ENTRY_LEN: usize = 10;

/// The number that four bytes of `bytes`, from index `at` on, hold in
/// little-endian order.
pub open spec fn le_u32(bytes: Seq<u8>, at: int) -> int
    recommends
        0 <= at,
        at + 4 <= bytes.len(),
{
    bytes[at] + 0x100 * bytes[at + 1] + 0x1_0000 * bytes[at + 2] + 0x100_0000 * bytes[at + 3]
}

/// A position in a payload as a mathematical integer.
pub open spec fn position(at: Option<usize>) -> Option<int> {
    match at {
        Some(index) => Some(index as int),
        None => None,
    }
}

/// Position behind `count` bytes that start at `at`; none where the payload
/// ends before them, or `at` is none.
pub open spec fn after_fixed(body: Seq<u8>, at: Option<int>, count: int) -> Option<int> {
    match at {
        Some(start) if start + count <= body.len() => Some(start + count),
        _ => None,
    }
}

/// Position behind a string that starts at `at` with its length.
pub open spec fn after_text(body: Seq<u8>, at: Option<int>) -> Option<int> {
    match at {
        Some(start) if start + PREFIX_LEN <= body.len() && start + PREFIX_LEN + le_u32(body, start)
            <= body.len() => Some(start + PREFIX_LEN + le_u32(body, start)),
        _ => None,
    }
}

/// Position behind the pairs of strings of a map: pairs are read from `at`
/// on until `byte_len` bytes or more lie between `first` and the position
/// reached.
pub open spec fn after_text_pairs(body: Seq<u8>, first: int, at: int, byte_len: int) -> Option<int>
    decreases body.len() - at,
{
    if at - first >= byte_len {
        Some(at)
    } else if at < 0 || at >= body.len() {
        None
    } else {
        match after_text(body, after_text(body, Some(at))) {
            Some(next) => after_text_pairs(body, first, next, byte_len),
            None => None,
        }
    }
}

/// Position behind a map of strings that starts at `at` with the length of
/// its pairs in bytes.
pub open spec fn after_text_map(body: Seq<u8>, at: Option<int>) -> Option<int> {
    match after_fixed(body, at, PREFIX_LEN as int) {
        Some(first) => after_text_pairs(body, first, first, le_u32(body, first - PREFIX_LEN)),
        None => None,
    }
}

/// Bytes that the entries of a map of numbers take up: whole entries, as
/// many as it takes to reach `byte_len`.
pub open spec fn entries_len(byte_len: int, entry_len: int) -> int {
    (byte_len + entry_len - 1) / entry_len * entry_len
}

/// Position behind a map from channel ids to offsets that starts at `at`
/// with the length of its entries in bytes.
pub open spec fn after_offset_map(body: Seq<u8>, at: Option<int>) -> Option<int> {
    match after_fixed(body, at, PREFIX_LEN as int) {
        Some(first) if first + entries_len(
            le_u32(body, first - PREFIX_LEN),
            OFFSET_ENTRY_LEN as int,
        ) <= body.len() => Some(
            first + entries_len(le_u32(body, first - PREFIX_LEN), OFFSET_ENTRY_LEN as int),
        ),
        _ => None,
    }
}

/// Position behind the length-prefixed part of a record of this kind; none
/// where one of its lengths points behind the end of the payload.  Kinds
/// without strings have no such part.
pub open spec fn prefixed_end(opcode: u8, body: Seq<u8>) -> Option<int> {
    let start = Some(0int);
    if opcode == OP_HEADER {
        after_text(body, after_text(body, start))
    } else if opcode == OP_SCHEMA {
        after_text(body, after_text(body, after_fixed(body, start, 2)))
    } else if opcode == OP_CHANNEL {
        after_text_map(body, after_text(body, after_text(body, after_fixed(body, start, 4))))
    } else if opcode == OP_CHUNK {
        after_text(body, after_fixed(body, start, 28))
    } else if opcode == OP_CHUNK_INDEX {
        after_text(body, after_fixed(body, after_offset_map(body, after_fixed(body, start, 32)), 8))
    } else if opcode == OP_ATTACHMENT {
        after_fixed(
            body,
            after_fixed(body, after_text(body, after_text(body, after_fixed(body, start, 16))), 8),
            4,
        )
    } else if opcode == OP_ATTACHMENT_INDEX {
        after_text(body, after_text(body, after_fixed(body, start, 40)))
    } else if opcode == OP_METADATA {
        after_text_map(body, after_text(body, start))
    } else if opcode == OP_METADATA_INDEX {
        after_text(body, after_fixed(body, start, 16))
    } else {
        start
    }
}

/// Whether every length that the payload of a record of this kind declares
/// stays inside the payload.
pub open spec fn frame_fits(opcode: u8, body: Seq<u8>) -> bool {
    prefixed_end(opcode, body) is Some
}

/// Reads four bytes of `bytes` as a little-endian number.
pub(crate) fn read_u32_le(bytes: &[u8], at: usize) -> (value: u32)
    requires
        at + 4 <= bytes.len(),
    ensures
        value == le_u32(bytes@, at as int),
{
    let b0: u32 = bytes[at] as u32;
    let b1: u32 = bytes[at + 1] as u32;
    let b2: u32 = bytes[at + 2] as u32;
    let b3: u32 = bytes[at + 3] as u32;
    b0 + 0x100 * b1 + 0x1_0000 * b2 + 0x100_0000 * b3
}

/// Steps over `count` bytes.
fn skip_fixed(body: &[u8], at: Option<usize>, count: usize) -> (next: Option<usize>)
    requires
        at matches Some(start) ==> start <= body.len(),
    ensures
        position(next) == after_fixed(body@, position(at), count as int),
        next matches Some(end) ==> end <= body.len(),
{
    match at {
        Some(start) => {
            if body.len() - start >= count {
                Some(start + count)
            } else {
                None
            }
        },
        None => None,
    }
}

/// Steps over a string with its length in front.
fn skip_text(body: &[u8], at: Option<usize>) -> (next: Option<usize>)
    requires
        at matches Some(start) ==> start <= body.len(),
    ensures
        position(next) == after_text(body@, position(at)),
        next matches Some(end) ==> end <= body.len(),
{
    match at {
        Some(start) => {
            if body.len() - start < PREFIX_LEN {
                return None;
            }
            let len: u32 = read_u32_le(body, start);
            let room: usize = body.len() - start - PREFIX_LEN;
            if len as u64 <= room as u64 {
                Some(start + PREFIX_LEN + len as usize)
            } else {
                None
            }
        },
        None => None,
    }
}

/// Steps over a map of strings.
fn skip_text_map(body: &[u8], at: Option<usize>) -> (next: Option<usize>)
    requires
        at matches Some(start) ==> start <= body.len(),
    ensures
        position(next) == after_text_map(body@, position(at)),
        next matches Some(end) ==> end <= body.len(),
{
    let first: usize = match skip_fixed(body, at, PREFIX_LEN) {
        Some(first) => first,
        None => {
            return None;
        },
    };
    let byte_len: u32 = read_u32_le(body, first - PREFIX_LEN);
    let mut cursor: usize = first;
    while cursor - first < byte_len as usize
        invariant
            after_fixed(body@, position(at), PREFIX_LEN as int) == Some(first as int),
            byte_len == le_u32(body@, first - PREFIX_LEN),
            first <= cursor <= body.len(),
            after_text_pairs(body@, first as int, cursor as int, byte_len as int)
                == after_text_pairs(body@, first as int, first as int, byte_len as int),
        decreases body.len() - cursor,
    {
        match skip_text(body, skip_text(body, Some(cursor))) {
            Some(next) => {
                cursor = next;
            },
            None => {
                return None;
            },
        }
    }
    Some(cursor)
}

/// Steps over a map from channel ids to offsets.
fn skip_offset_map(body: &[u8], at: Option<usize>) -> (next: Option<usize>)
    requires
        at matches Some(start) ==> start <= body.len(),
    ensures
        position(next) == after_offset_map(body@, position(at)),
        next matches Some(end) ==> end <= body.len(),
{
    let first: usize = match skip_fixed(body, at, PREFIX_LEN) {
        Some(first) => first,
        None => {
            return None;
        },
    };
    let byte_len: u64 = read_u32_le(body, first - PREFIX_LEN) as u64;
    let entries: u64 = (byte_len + OFFSET_ENTRY_LEN as u64 - 1) / OFFSET_ENTRY_LEN as u64
        * OFFSET_ENTRY_LEN as u64;
    let room: usize = body.len() - first;
    if entries <= room as u64 {
        Some(first + entries as usize)
    } else {
        None
    }
}

/// Walks the length-prefixed part of a record of this kind.
fn skip_prefixed(opcode: u8, body: &[u8]) -> (end: Option<usize>)
    ensures
        position(end) == prefixed_end(opcode, body@),
        end matches Some(position) ==> position <= body.len(),
{
    let start: Option<usize> = Some(0);
    if opcode == OP_HEADER {
        skip_text(body, skip_text(body, start))
    } else if opcode == OP_SCHEMA {
        skip_text(body, skip_text(body, skip_fixed(body, start, 2)))
    } else if opcode == OP_CHANNEL {
        skip_text_map(body, skip_text(body, skip_text(body, skip_fixed(body, start, 4))))
    } else if opcode == OP_CHUNK {
        skip_text(body, skip_fixed(body, start, 28))
    } else if opcode == OP_CHUNK_INDEX {
        skip_text(body, skip_fixed(body, skip_offset_map(body, skip_fixed(body, start, 32)), 8))
    } else if opcode == OP_ATTACHMENT {
        skip_fixed(
            body,
            skip_fixed(body, skip_text(body, skip_text(body, skip_fixed(body, start, 16))), 8),
            4,
        )
    } else if opcode == OP_ATTACHMENT_INDEX {
        skip_text(body, skip_text(body, skip_fixed(body, start, 40)))
    } else if opcode == OP_METADATA {
        skip_text_map(body, skip_text(body, start))
    } else if opcode == OP_METADATA_INDEX {
        skip_text(body, skip_fixed(body, start, 16))
    } else {
        start
    }
}

/// Tells whether every length that the payload declares stays inside it.
pub fn fits(opcode: u8, body: &[u8]) -> (ok: bool)
    ensures
        ok == frame_fits(opcode, body@),
{
    skip_prefixed(opcode, body).is_some()
}

} // verus!
