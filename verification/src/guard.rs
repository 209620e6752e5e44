//! The frame guard: which bytes of a stream may be handed to the reader.
//!
//! The reader adds nine to the length that a frame declares before it has
//! seen the frame.  A frame that declares nearly 2^64 bytes must not reach
//! it.  The guard follows the frames of the stream as the decoder is handed
//! them: it reads every frame header and passes over the payloads.  It lets
//! through the bytes up to the one that completes a header it refuses, and
//! no byte from there on.
//!
//! The reader is made to hand out a chunk as one frame, so the frames of the
//! stream are all it ever cuts; what is in a chunk is cut in [`crate::chunk`].

use crate::frame::{le_u32, read_u32_le};
use crate::record::OP_FOOTER;
use vstd::prelude::*;

verus! {

/// Bytes of the magic marker that opens a container.
pub const LEADING_MAGIC_LEN: u64 = 8;

/// Bytes of a frame header: the opcode and the length of the payload.
pub const HEADER_LEN: usize = 9;

/// What the guard is doing.
#[derive(Clone, Copy, Debug, PartialEq, Eq, Structural)]
pub enum GuardStage {
    /// It passes over bytes that hold no header; a frame header follows.
    Pass,
    /// It collects a frame header.
    Header,
    /// The footer has come: nothing behind it is a frame.
    Closed,
    /// A header was refused: nothing more is let through.
    Refused,
}

/// Mathematical value of a [`FrameGuard`].
pub struct GuardView {
    pub stage: GuardStage,
    /// Bytes still to pass over, where the guard passes over bytes.
    pub left: u64,
    /// Bytes of the header collected so far, where it collects.
    pub got: Seq<u8>,
}

/// The number that eight bytes of `bytes`, from index `at` on, hold in
/// little-endian order.
pub open spec fn le_u64_at(bytes: Seq<u8>, at: int) -> int {
    le_u32(bytes, at) + 0x1_0000_0000 * le_u32(bytes, at + 4)
}

impl GuardView {
    /// The guard at the start of a frame.
    pub open spec fn header() -> GuardView {
        GuardView { stage: GuardStage::Header, left: 0, got: Seq::empty() }
    }

    /// The guard with `left` bytes to pass over before the next frame.
    pub open spec fn pass(left: u64) -> GuardView {
        if left == 0 {
            Self::header()
        } else {
            GuardView { stage: GuardStage::Pass, left, got: Seq::empty() }
        }
    }

    /// The guard behind the footer.
    pub open spec fn closed() -> GuardView {
        GuardView { stage: GuardStage::Closed, left: 0, got: Seq::empty() }
    }

    /// The guard that has refused a header.
    pub open spec fn refused() -> GuardView {
        GuardView { stage: GuardStage::Refused, left: 0, got: Seq::empty() }
    }

    /// The guard at the start of a stream: a whole container opens with the
    /// magic marker, a stream entered in its middle with a frame.
    pub open spec fn initial(mid_stream: bool) -> GuardView {
        if mid_stream {
            Self::header()
        } else {
            Self::pass(LEADING_MAGIC_LEN)
        }
    }

    /// The guard behind a frame header.  Nothing behind the footer is a
    /// frame.  A frame is refused if its header and payload together are
    /// more than the machine can count.
    pub open spec fn after_header(opcode: u8, len: int) -> GuardView {
        if opcode == OP_FOOTER {
            Self::closed()
        } else if len + HEADER_LEN > usize::MAX || len > u64::MAX {
            Self::refused()
        } else {
            Self::pass(len as u64)
        }
    }

    /// The guard after it has passed over `count` bytes.
    pub open spec fn passed(self, count: int) -> GuardView {
        if self.stage is Pass {
            Self::pass((self.left - count) as u64)
        } else {
            self
        }
    }

    /// The guard after it has collected one byte of a header.
    pub open spec fn collected(self, byte: u8) -> GuardView {
        if self.stage is Header {
            if self.got.push(byte).len() < HEADER_LEN {
                GuardView { stage: self.stage, left: self.left, got: self.got.push(byte) }
            } else {
                Self::after_header(self.got.push(byte)[0], le_u64_at(self.got.push(byte), 1))
            }
        } else {
            self
        }
    }

    /// How many of `bytes` the guard passes over at once.
    pub open spec fn stride(self, bytes: Seq<u8>) -> int {
        if self.left <= bytes.len() {
            self.left as int
        } else {
            bytes.len() as int
        }
    }

    /// The guard after `bytes`, and the number of them that it lets through: all
    /// of them, or those in front of the byte that completes the first
    /// header that is refused.
    #[verifier::opaque]
    pub open spec fn scan(self, bytes: Seq<u8>) -> (GuardView, int)
        decreases bytes.len(), (if self.stage is Pass && self.left == 0 {
            1int
        } else {
            0int
        }),
    {
        if bytes.len() == 0 || self.stage is Refused {
            (self, 0)
        } else if self.stage is Closed {
            (self, bytes.len() as int)
        } else if self.stage is Pass {
            let rest = self.passed(self.stride(bytes)).scan(bytes.skip(self.stride(bytes)));
            (rest.0, self.stride(bytes) + rest.1)
        } else if self.collected(bytes[0]).stage is Refused {
            (self.collected(bytes[0]), 0)
        } else {
            let rest = self.collected(bytes[0]).scan(bytes.drop_first());
            (rest.0, 1 + rest.1)
        }
    }
}

/// Follows the frames of a stream and says which bytes may go on.
pub struct FrameGuard {
    stage: GuardStage,
    left: u64,
    got: Vec<u8>,
}

impl View for FrameGuard {
    type V = GuardView;

    closed spec fn view(&self) -> GuardView {
        GuardView { stage: self.stage, left: self.left, got: self.got@ }
    }
}

/// Reads eight bytes of `bytes` as a little-endian number.
pub(crate) fn read_u64_le(bytes: &[u8], at: usize) -> (value: u64)
    requires
        at + 8 <= bytes.len(),
    ensures
        value == le_u64_at(bytes@, at as int),
{
    let low: u64 = read_u32_le(bytes, at) as u64;
    let high: u64 = read_u32_le(bytes, at + 4) as u64;
    low + 0x1_0000_0000 * high
}

impl FrameGuard {
    /// A guard at the start of a stream.
    pub fn new(mid_stream: bool) -> (guard: Self)
        ensures
            guard@ == GuardView::initial(mid_stream),
    {
        if mid_stream {
            Self::header()
        } else {
            Self::pass(LEADING_MAGIC_LEN)
        }
    }

    /// What the guard is doing.
    pub fn stage(&self) -> (stage: GuardStage)
        ensures
            stage == self@.stage,
    {
        self.stage
    }

    /// Whether the guard has refused a header.
    pub fn is_refused(&self) -> (refused: bool)
        ensures
            refused == (self@.stage is Refused),
    {
        match self.stage {
            GuardStage::Refused => true,
            _ => false,
        }
    }

    fn header() -> (guard: Self)
        ensures
            guard@ == GuardView::header(),
    {
        FrameGuard { stage: GuardStage::Header, left: 0, got: Vec::new() }
    }

    fn pass(left: u64) -> (guard: Self)
        ensures
            guard@ == GuardView::pass(left),
    {
        if left == 0 {
            Self::header()
        } else {
            FrameGuard { stage: GuardStage::Pass, left, got: Vec::new() }
        }
    }

    fn after_header(opcode: u8, len: u64) -> (guard: Self)
        ensures
            guard@ == GuardView::after_header(opcode, len as int),
    {
        if opcode == OP_FOOTER {
            FrameGuard { stage: GuardStage::Closed, left: 0, got: Vec::new() }
        } else if len as u128 + HEADER_LEN as u128 > usize::MAX as u128 {
            FrameGuard { stage: GuardStage::Refused, left: 0, got: Vec::new() }
        } else {
            Self::pass(len)
        }
    }

    /// Takes one byte of a header.
    fn collect(&mut self, byte: u8)
        requires
            !(old(self)@.stage is Pass),
        ensures
            final(self)@ == old(self)@.collected(byte),
    {
        match self.stage {
            GuardStage::Header => {
                self.got.push(byte);
                if self.got.len() >= HEADER_LEN {
                    let opcode: u8 = self.got[0];
                    let len: u64 = read_u64_le(self.got.as_slice(), 1);
                    *self = Self::after_header(opcode, len);
                }
            },
            _ => {},
        }
    }

    /// Follows `bytes` as the next bytes of the stream and says how many of
    /// them may go on to the reader: all of them, or those in front of the
    /// byte that completes the first header that is refused.
    pub fn screen(&mut self, bytes: &[u8]) -> (count: usize)
        ensures
            final(self)@ == old(self)@.scan(bytes@).0,
            count == old(self)@.scan(bytes@).1,
            count <= bytes.len(),
            count < bytes.len() ==> final(self)@.stage is Refused,
    {
        let ghost start = self@;
        let mut i: usize = 0;
        proof {
            assert(bytes@.skip(0) =~= bytes@);
        }
        while i < bytes.len()
            invariant
                i <= bytes.len(),
                start == old(self)@,
                start.scan(bytes@).0 == self@.scan(bytes@.skip(i as int)).0,
                start.scan(bytes@).1 == i + self@.scan(bytes@.skip(i as int)).1,
            decreases bytes.len() - i, (if self@.stage is Pass && self@.left == 0 {
                1int
            } else {
                0int
            }),
        {
            let ghost rest = bytes@.skip(i as int);
            let ghost before = self@;
            proof {
                lemma_scan_unfolds(before, rest);
            }
            match self.stage {
                GuardStage::Refused => {
                    return i;
                },
                GuardStage::Closed => {
                    i = bytes.len();
                    proof {
                        lemma_scan_unfolds(before, bytes@.skip(i as int));
                    }
                },
                GuardStage::Pass => {
                    let room: usize = bytes.len() - i;
                    let stride: usize = if self.left <= room as u64 {
                        self.left as usize
                    } else {
                        room
                    };
                    *self = Self::pass(self.left - stride as u64);
                    i += stride;
                    proof {
                        assert(rest.skip(stride as int) =~= bytes@.skip(i as int));
                    }
                },
                GuardStage::Header => {
                    self.collect(bytes[i]);
                    proof {
                        assert(rest[0] == bytes@[i as int]);
                        assert(rest.drop_first() =~= bytes@.skip(i + 1));
                    }
                    if self.is_refused() {
                        return i;
                    }
                    i += 1;
                },
            }
        }
        proof {
            lemma_scan_unfolds(self@, bytes@.skip(i as int));
        }
        i
    }
}

/// One step of a scan, spelled out.
pub proof fn lemma_scan_unfolds(guard: GuardView, bytes: Seq<u8>)
    ensures
        guard.scan(bytes) == (if bytes.len() == 0 || guard.stage is Refused {
            (guard, 0int)
        } else if guard.stage is Closed {
            (guard, bytes.len() as int)
        } else if guard.stage is Pass {
            (
                guard.passed(guard.stride(bytes)).scan(bytes.skip(guard.stride(bytes))).0,
                guard.stride(bytes) + guard.passed(guard.stride(bytes)).scan(
                    bytes.skip(guard.stride(bytes)),
                ).1,
            )
        } else if guard.collected(bytes[0]).stage is Refused {
            (guard.collected(bytes[0]), 0int)
        } else {
            (
                guard.collected(bytes[0]).scan(bytes.drop_first()).0,
                1 + guard.collected(bytes[0]).scan(bytes.drop_first()).1,
            )
        }),
{
    reveal(GuardView::scan);
}

/// The guard lets through no more bytes than it is given, and holds bytes
/// back only where it has refused a header.
pub proof fn lemma_scan_within(guard: GuardView, bytes: Seq<u8>)
    ensures
        0 <= guard.scan(bytes).1 <= bytes.len(),
        guard.scan(bytes).1 < bytes.len() ==> guard.scan(bytes).0.stage is Refused,
    decreases bytes.len(), (if guard.stage is Pass && guard.left == 0 {
        1int
    } else {
        0int
    }),
{
    lemma_scan_unfolds(guard, bytes);
    if bytes.len() == 0 || guard.stage is Refused || guard.stage is Closed {
    } else if guard.stage is Pass {
        lemma_scan_within(guard.passed(guard.stride(bytes)), bytes.skip(guard.stride(bytes)));
    } else if !(guard.collected(bytes[0]).stage is Refused) {
        lemma_scan_within(guard.collected(bytes[0]), bytes.drop_first());
    }
}

} // verus!
