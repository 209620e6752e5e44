//! The end of a container: the footer's payload and the trailing magic marker.
//!
//! A container closes with a footer record and the eight magic bytes.  The
//! footer's payload is twenty bytes long and opens with the byte offset of
//! the summary section, a little-endian 64-bit number; so the last
//! twenty-eight bytes of a file say whether it is a container at all and where
//! its index is.

use crate::error::ReplayError;
use bytes::Buf;
use vstd::prelude::*;
use vstd::slice::slice_subrange;

verus! {

/// Length of the magic marker.
pub const MAGIC_LEN: usize = 8;

/// Bytes from the start of the footer's payload to the end of the file.
pub const FOOTER_TAIL_LEN: usize = 28;

/// The marker that opens and closes every container.
pub open spec fn magic() -> Seq<u8> {
    seq![0x89u8, 0x4Du8, 0x43u8, 0x41u8, 0x50u8, 0x30u8, 0x0Du8, 0x0Au8]
}

/// The number that the first eight bytes of `bytes` hold in little-endian order.
pub open spec fn le_u64(bytes: Seq<u8>) -> int
    recommends
        bytes.len() >= 8,
{
    bytes[0] + 0x100 * bytes[1] + 0x1_0000 * bytes[2] + 0x100_0000 * bytes[3] + 0x1_0000_0000
        * bytes[4] + 0x100_0000_0000 * bytes[5] + 0x1_0000_0000_0000 * bytes[6]
        + 0x100_0000_0000_0000 * bytes[7]
}

/// Whether `data` closes with `suffix`.
pub open spec fn has_suffix(data: Seq<u8>, suffix: Seq<u8>) -> bool {
    data.len() >= suffix.len() && data.subrange(data.len() - suffix.len(), data.len() as int)
        == suffix
}

/// The last [`FOOTER_TAIL_LEN`] bytes of `bytes`.
pub open spec fn footer_tail(bytes: Seq<u8>) -> Seq<u8>
    recommends
        bytes.len() >= FOOTER_TAIL_LEN,
{
    bytes.subrange(bytes.len() - FOOTER_TAIL_LEN, bytes.len() as int)
}

/// What the end of a file says of its index: the offset of the summary
/// section, or why the file cannot be played.
pub open spec fn locate_summary(tail: Seq<u8>) -> Result<u64, ReplayError> {
    if tail.len() < FOOTER_TAIL_LEN || !has_suffix(tail, magic()) {
        Err(ReplayError::MalformedContainer)
    } else if le_u64(footer_tail(tail)) == 0 {
        Err(ReplayError::MissingIndex)
    } else {
        Ok(le_u64(footer_tail(tail)) as u64)
    }
}

/// `mcap::MAGIC`, the marker as the container crate defines it: the byte
/// 0x89, the letters `MCAP`, the digit `0`, a carriage return and a line feed.
#[verifier::external_body]
fn container_magic() -> (marker: &'static [u8])
    ensures
        marker@ == magic(),
{
    mcap::MAGIC
}

/// `bytes::Buf::get_u64_le` on a slice: the little-endian number in its first
/// eight bytes.  The outside function panics on a shorter slice.
#[verifier::external_body]
fn get_u64_le(buf: &[u8]) -> (value: u64)
    requires
        buf.len() >= 8,
    ensures
        value == le_u64(buf@),
{
    let mut cursor = buf;
    cursor.get_u64_le()
}

/// Tells whether `data` closes with `suffix`.
pub fn ends_with(data: &[u8], suffix: &[u8]) -> (found: bool)
    ensures
        found == has_suffix(data@, suffix@),
{
    if data.len() < suffix.len() {
        return false;
    }
    let start: usize = data.len() - suffix.len();
    let mut i: usize = 0;
    while i < suffix.len()
        invariant
            start + suffix.len() == data.len(),
            i <= suffix.len(),
            forall|j: int| 0 <= j < i ==> data@[start + j] == suffix@[j],
        decreases suffix.len() - i,
    {
        if data[start + i] != suffix[i] {
            return false;
        }
        i += 1;
    }
    proof {
        assert(data@.subrange(start as int, data.len() as int) =~= suffix@);
    }
    true
}

/// Reads the end of a container.  `tail` holds the end of the file, at least
/// its last [`FOOTER_TAIL_LEN`] bytes.  The result is the offset of the
/// summary section; a file that is too short or does not close with the magic
/// marker is malformed, and one whose footer gives offset zero has no index.
pub fn summary_start(tail: &[u8]) -> (res: Result<u64, ReplayError>)
    ensures
        res == locate_summary(tail@),
{
    if tail.len() < FOOTER_TAIL_LEN || !ends_with(tail, container_magic()) {
        return Err(ReplayError::MalformedContainer);
    }
    let last = slice_subrange(tail, tail.len() - FOOTER_TAIL_LEN, tail.len());
    let offset: u64 = get_u64_le(last);
    if offset == 0 {
        Err(ReplayError::MissingIndex)
    } else {
        Ok(offset)
    }
}

/// Changing the last byte of a file turns a well-closed container into a
/// malformed one.
pub proof fn lemma_corrupt_last_byte(tail: Seq<u8>, byte: u8)
    requires
        tail.len() > 0,
        has_suffix(tail, magic()),
        byte != tail.last(),
    ensures
        locate_summary(tail.update(tail.len() - 1, byte)) == Err::<u64, ReplayError>(
            ReplayError::MalformedContainer,
        ),
{
    let changed = tail.update(tail.len() - 1, byte);
    let end = changed.subrange(changed.len() - MAGIC_LEN, changed.len() as int);
    assert(end[7] == byte);
}

/// A file has no index exactly when it closes with the magic marker and
/// the eight offset bytes of its footer are all zero.
pub proof fn lemma_missing_index_is_offset_zero(tail: Seq<u8>)
    ensures
        locate_summary(tail) == Err::<u64, ReplayError>(ReplayError::MissingIndex) <==> tail.len()
            >= FOOTER_TAIL_LEN && has_suffix(tail, magic()) && forall|i: int|
            0 <= i < 8 ==> #[trigger] footer_tail(tail)[i] == 0,
{
    let payload = footer_tail(tail);
    if le_u64(payload) == 0 {
        assert forall|i: int| 0 <= i < 8 implies #[trigger] payload[i] == 0 by {}
    }
}

} // verus!
