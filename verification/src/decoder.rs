//! The frame decoder: a pull-based state machine that turns the bytes of a
//! container into records, asking for more bytes only when it needs them.
//!
//! Cutting the stream into frames and the layout of a record are the
//! container crate's work.  What is decided here is the protocol around it:
//! when the decoder may be fed, which of the bytes it is given go on to the
//! reader, what a request for bytes, a frame, an error or the end of the
//! stream mean for the caller, and that a decoder which has ended or failed
//! stays so.  The reader hands a chunk over as one frame; the decoder opens
//! it and cuts its records out itself, one with every step.

use crate::chunk::{cut, open, opened, Records};
use crate::error::ReplayError;
use crate::frame::{fits, frame_fits};
use crate::guard::{FrameGuard, GuardView};
use crate::record::{
    ChannelRecord, MessageHeader, Record, RecordView, SchemaHeader, OP_CHUNK,
};
use mcap::records;
use mcap::sans_io::read::{LinearReader, LinearReaderOptions};
use mcap::McapError;
use vstd::prelude::*;
use vstd::slice::slice_subrange;

verus! {

/// `mcap::sans_io::read::LinearReader`, the reader that cuts a stream into
/// frames.  Nothing of what it holds is visible here.
#[verifier::external_type_specification]
#[verifier::external_body]
pub struct ExLinearReader(LinearReader);

/// `mcap::McapError`, the error of the container crate.  It is passed on
/// unopened; every such error ends decoding.
#[verifier::external_type_specification]
#[verifier::external_body]
pub struct ExMcapError(McapError);

/// What the container crate's parser makes of a frame with this opcode and
/// payload: the record, or nothing where the payload does not have the shape
/// that the opcode asks for.
pub uninterp spec fn parsed_record(opcode: u8, body: Seq<u8>) -> Option<RecordView>;

/// The bytes that the reader was handed last: those it has stored at the
/// place it gave out for them and counts as written.
pub uninterp spec fn fed(reader: LinearReader) -> Seq<u8>;

/// What the reader asks of its caller.
#[derive(Clone, Debug, PartialEq, Eq)]
pub enum ReadAction {
    /// It needs more bytes before it can go on; the number is a hint.
    NeedMore(usize),
    /// It has cut a frame out of the stream.
    GetRecord { opcode: u8, data: Vec<u8> },
}

/// Where a decoder stands in its protocol.
#[derive(Clone, Copy, Debug, PartialEq, Eq, Structural)]
pub enum DecoderState {
    /// It can be advanced.
    Ready,
    /// It has asked for this many bytes and waits for them.
    Awaiting(usize),
    /// It can be advanced, and has been told that the source has ended: it
    /// will not ask for bytes again.
    Draining,
    /// The stream has ended in good order.
    Finished,
    /// A frame was malformed, or the source ended too early; nothing more
    /// will come.
    Failed,
}

/// What one step of decoding yields.
#[derive(Clone, Debug, PartialEq, Eq)]
pub enum Advance {
    /// The caller is to read up to this many bytes from its source and
    /// [`supply`](FrameDecoder::supply) them.
    NeedMore(usize),
    /// One record, ready to be dispatched.
    Record(Record),
    /// The source is exhausted.
    Exhausted,
}

/// Mathematical value of an [`Advance`].
pub enum AdvanceView {
    NeedMore(usize),
    Record(RecordView),
    Exhausted,
}

impl View for Advance {
    type V = AdvanceView;

    open spec fn view(&self) -> AdvanceView {
        match *self {
            Advance::NeedMore(count) => AdvanceView::NeedMore(count),
            Advance::Record(record) => AdvanceView::Record(record@),
            Advance::Exhausted => AdvanceView::Exhausted,
        }
    }
}

/// The record in a frame, or the decode error that a malformed frame ends
/// in: one in which a length points behind the end of the payload, or which
/// the parser refuses.
pub open spec fn decoded(opcode: u8, body: Seq<u8>) -> Result<RecordView, ReplayError> {
    if !frame_fits(opcode, body) {
        Err(ReplayError::Decode)
    } else {
        match parsed_record(opcode, body) {
            Some(record) => Ok(record),
            None => Err(ReplayError::Decode),
        }
    }
}

/// Mathematical value of the outcome of decoding one frame.
pub open spec fn record_result_view(res: Result<Record, ReplayError>) -> Result<
    RecordView,
    ReplayError,
> {
    match res {
        Ok(record) => Ok(record@),
        Err(error) => Err(error),
    }
}

/// Mathematical value of the outcome of one step.
pub open spec fn advance_result_view(res: Result<Advance, ReplayError>) -> Result<
    AdvanceView,
    ReplayError,
> {
    match res {
        Ok(advance) => Ok(advance@),
        Err(error) => Err(error),
    }
}

/// The state of a decoder that has yielded a record: it can be advanced
/// again, and knows as before whether the source has ended.
pub open spec fn going_on(ended: bool) -> DecoderState {
    if ended {
        DecoderState::Draining
    } else {
        DecoderState::Ready
    }
}

/// What an answer of the reader means: the outcome of the step, the state
/// that the decoder is in afterwards, and the records that it then holds
/// to cut out in the steps to come.  `ended` says whether the source has
/// ended; a reader that asks for bytes then has been cut off in the middle of
/// the stream.  A chunk is opened, its records are held, and the step yields
/// the chunk as a record of no further interest; a chunk that cannot be
/// opened ends decoding as any malformed frame does.
pub open spec fn interpreted(action: Option<Result<ReadAction, McapError>>, ended: bool) -> (
    Result<AdvanceView, ReplayError>,
    DecoderState,
    Seq<u8>,
) {
    match action {
        None => (Ok(AdvanceView::Exhausted), DecoderState::Finished, Seq::empty()),
        Some(Err(_)) => (Err(ReplayError::Decode), DecoderState::Failed, Seq::empty()),
        Some(Ok(ReadAction::NeedMore(count))) => if ended {
            (Err(ReplayError::Decode), DecoderState::Failed, Seq::empty())
        } else {
            (Ok(AdvanceView::NeedMore(count)), DecoderState::Awaiting(count), Seq::empty())
        },
        Some(Ok(ReadAction::GetRecord { opcode, data })) => if opcode == OP_CHUNK {
            match opened(data@) {
                Ok(records) => (Ok(AdvanceView::Record(RecordView::Other)), going_on(ended), records),
                Err(error) => (Err(error), DecoderState::Failed, Seq::empty()),
            }
        } else {
            match decoded(opcode, data@) {
                Ok(record) => (Ok(AdvanceView::Record(record)), going_on(ended), Seq::empty()),
                Err(error) => (Err(error), DecoderState::Failed, Seq::empty()),
            }
        },
    }
}

/// What a step yields from the records of an opened chunk, and the records
/// that are left: the record in the frame at their front, or a decode
/// error where they end before that frame does or the frame is malformed.
/// After an error nothing is left.
pub open spec fn unpacked(held: Seq<u8>) -> (Result<AdvanceView, ReplayError>, Seq<u8>) {
    match cut(held) {
        Some(frame) => match decoded(frame.opcode, frame.body) {
            Ok(record) => (Ok(AdvanceView::Record(record)), frame.rest),
            Err(error) => (Err(error), Seq::empty()),
        },
        None => (Err(ReplayError::Decode), Seq::empty()),
    }
}

/// What a step of the decoder may yield, and how it may leave the decoder,
/// for a decoder that stood at `before` and held the records `held` of an
/// opened chunk; `after` and `left` are its state and the records that it
/// holds afterwards.  A decoder that has finished stays exhausted, one
/// that has failed keeps failing, one that waits repeats its request.  One
/// that holds records yields the next of them as [`unpacked`] says, and
/// does not ask the reader.  Otherwise the step is [`interpreted`] of some
/// answer of the reader.
pub open spec fn advanced(
    before: DecoderState,
    held: Seq<u8>,
    yielded: Result<AdvanceView, ReplayError>,
    after: DecoderState,
    left: Seq<u8>,
) -> bool {
    match before {
        DecoderState::Finished => yielded == Ok::<AdvanceView, ReplayError>(AdvanceView::Exhausted)
            && after == DecoderState::Finished && left == held,
        DecoderState::Failed => yielded == Err::<AdvanceView, ReplayError>(ReplayError::Decode)
            && after == DecoderState::Failed && left == held,
        DecoderState::Awaiting(count) => yielded == Ok::<AdvanceView, ReplayError>(
            AdvanceView::NeedMore(count),
        ) && after == DecoderState::Awaiting(count) && left == held,
        DecoderState::Ready | DecoderState::Draining => if held.len() > 0 {
            (yielded, left) == unpacked(held) && after == (if yielded is Ok {
                before
            } else {
                DecoderState::Failed
            })
        } else {
            exists|action: Option<Result<ReadAction, McapError>>|
                (yielded, after, left) == #[trigger] interpreted(action, before is Draining)
        },
    }
}

/// `mcap::sans_io::read::LinearReader::new_with_options`, with `emit_chunks`
/// set, `skip_start_magic` as given and every other option at its default.
/// Nothing is claimed of the reader.
#[verifier::external_body]
fn new_reader(skip_start_magic: bool) -> LinearReader {
    let options = LinearReaderOptions { skip_start_magic, emit_chunks: true, ..Default::default() };
    LinearReader::new_with_options(options)
}

/// `LinearReader::next_action`: the reader's next request, a frame it has cut
/// out (copied, since the reader lends it), its error, or `None` at the end
/// of the stream.  Which of these comes depends on every byte fed so far; all
/// that is claimed is that a request is for at least one byte, the reader
/// asking only for what it lacks.
///
/// Made with `emit_chunks`, the reader looks into no chunk: a chunk is a
/// frame to it like any other, and it computes with one number only that
/// the stream declares, the length in a frame header, to which it adds
/// nine without a check.  It returns on every stream in which no frame
/// declares a length within nine of the largest number the machine can
/// count.  The decoder sees to that: the [`FrameGuard`] lets no byte through
/// that completes such a header, so the reader never holds one.
#[verifier::external_body]
fn next_action(reader: &mut LinearReader) -> (action: Option<Result<ReadAction, McapError>>)
    ensures
        action matches Some(Ok(ReadAction::NeedMore(count))) ==> count > 0,
{
    match reader.next_action() {
        None => None,
        Some(Err(error)) => Some(Err(error)),
        Some(Ok(mcap::sans_io::read::ReadAction::NeedMore(count))) => Some(
            Ok(ReadAction::NeedMore(count)),
        ),
        Some(Ok(mcap::sans_io::read::ReadAction::GetRecord { data, opcode })) => Some(
            Ok(ReadAction::GetRecord { opcode, data: data.to_vec() }),
        ),
    }
}

/// `LinearReader::insert` and `LinearReader::set_written`: hands `bytes` to
/// the reader, which takes no bytes as the end of the source.  The slice
/// that `insert` gives is as long as it was asked for, and the number
/// reported as written is that length, so neither the copy nor the second
/// call can panic, and what the reader then counts as written last is
/// `bytes`.  The reader keeps one such batch between two calls of
/// `next_action`, no more.
#[verifier::external_body]
fn feed(reader: &mut LinearReader, bytes: &[u8])
    ensures
        fed(*final(reader)) == bytes@,
{
    reader.insert(bytes.len()).copy_from_slice(bytes);
    reader.set_written(bytes.len());
}

/// `mcap::parse_record`: the record in a frame.  Its result depends on the
/// opcode and the payload alone.
///
/// The outside function reserves memory for a string before it reads it, as
/// much as the length in front of the string says, and it indexes past the
/// end of an attachment that has a complete header and fewer than four
/// bytes behind it.  So a frame in which a length points behind the end of
/// the payload is left out; on every other frame the function returns.
#[verifier::external_body]
fn parse_record(opcode: u8, body: &[u8]) -> (parsed: Result<Record, McapError>)
    requires
        frame_fits(opcode, body@),
    ensures
        (match parsed {
            Ok(record) => parsed_record(opcode, body@) == Some(record@),
            Err(_) => parsed_record(opcode, body@) is None,
        }),
{
    Ok(match mcap::parse_record(opcode, body)? {
        records::Record::Schema { header, data } => Record::Schema { header: SchemaHeader { id: header.id, name: header.name, encoding: header.encoding }, data: data.into_owned() },
        records::Record::Channel(channel) => Record::Channel(ChannelRecord { id: channel.id, schema_id: channel.schema_id, topic: channel.topic, message_encoding: channel.message_encoding }),
        records::Record::Message { header, data } => Record::Message { header: MessageHeader { channel_id: header.channel_id, sequence: header.sequence, log_time: header.log_time, publish_time: header.publish_time }, data: data.into_owned() },
        records::Record::Footer(_) => Record::Footer,
        _ => Record::Other,
    })
}

/// Decodes the record in one frame.  A frame whose payload does not fit its
/// opcode is a decode error.
pub fn decode_record(opcode: u8, body: &[u8]) -> (res: Result<Record, ReplayError>)
    ensures
        record_result_view(res) == decoded(opcode, body@),
{
    if !fits(opcode, body) {
        return Err(ReplayError::Decode);
    }
    match parse_record(opcode, body) {
        Ok(record) => Ok(record),
        Err(_) => Err(ReplayError::Decode),
    }
}

/// The state of a decoder, kept such that a decoder never waits for zero bytes.
struct Stage {
    state: DecoderState,
}

impl Stage {
    #[verifier::type_invariant]
    spec fn well_formed(self) -> bool {
        self.state matches DecoderState::Awaiting(count) ==> count > 0
    }
}

/// A decoder over one linear pass through a container, or through its
/// summary section.
pub struct FrameDecoder {
    reader: LinearReader,
    stage: Stage,
    guard: FrameGuard,
    records: Records,
    mid_stream: bool,
}

impl FrameDecoder {
    /// Where the decoder stands.
    pub closed spec fn state(self) -> DecoderState {
        self.stage.state
    }

    /// Whether the decoder was made to start in the middle of a container.
    pub closed spec fn starts_mid_stream(self) -> bool {
        self.mid_stream
    }

    /// Where the guard stands among the frames of the bytes supplied so far.
    pub closed spec fn guard(self) -> GuardView {
        self.guard@
    }

    /// The records of the chunk opened last that have not been yielded yet.
    pub closed spec fn pending(self) -> Seq<u8> {
        self.records@
    }

    /// The bytes that went on to the reader last.
    pub closed spec fn handed(self) -> Seq<u8> {
        fed(self.reader)
    }

    /// A decoder for a whole container, read from its first byte: it expects
    /// the leading magic marker, and its guard passes over the marker
    /// before it looks for the first frame.
    pub fn new() -> (decoder: Self)
        ensures
            decoder.state() == DecoderState::Ready,
            !decoder.starts_mid_stream(),
            decoder.guard() == GuardView::initial(false),
            decoder.pending() == Seq::<u8>::empty(),
    {
        FrameDecoder {
            reader: new_reader(false),
            stage: Stage { state: DecoderState::Ready },
            guard: FrameGuard::new(false),
            records: Records::none(),
            mid_stream: false,
        }
    }

    /// A decoder that starts in the middle of a container, as a scan of the
    /// summary section does: it expects a frame first, not the marker, and
    /// so does its guard.
    pub fn mid_stream() -> (decoder: Self)
        ensures
            decoder.state() == DecoderState::Ready,
            decoder.starts_mid_stream(),
            decoder.guard() == GuardView::initial(true),
            decoder.pending() == Seq::<u8>::empty(),
    {
        FrameDecoder {
            reader: new_reader(true),
            stage: Stage { state: DecoderState::Ready },
            guard: FrameGuard::new(true),
            records: Records::none(),
            mid_stream: true,
        }
    }

    /// Where the decoder stands.
    pub fn current_state(&self) -> (state: DecoderState)
        ensures
            state == self.state(),
    {
        self.stage.state
    }

    /// Whether the decoder was made to start in the middle of a container.
    pub fn is_mid_stream(&self) -> (mid_stream: bool)
        ensures
            mid_stream == self.starts_mid_stream(),
    {
        self.mid_stream
    }

    /// Says what an answer of the reader means for the caller and for the
    /// decoder: a request passes on and leaves the decoder waiting, a frame
    /// is decoded, a chunk is opened, an error or a malformed frame ends
    /// decoding for good, and no answer is the end of the stream.  Once the
    /// source has ended, a request is an error too: the stream breaks off
    /// in the middle.  The third part of the outcome holds the records of a
    /// chunk that was opened, and is empty otherwise.
    pub fn interpret(action: Option<Result<ReadAction, McapError>>, ended: bool) -> (outcome: (
        Result<Advance, ReplayError>,
        DecoderState,
        Vec<u8>,
    ))
        ensures
            (advance_result_view(outcome.0), outcome.1, outcome.2@) == interpreted(action, ended),
    {
        let going_on = if ended {
            DecoderState::Draining
        } else {
            DecoderState::Ready
        };
        match action {
            None => (Ok(Advance::Exhausted), DecoderState::Finished, Vec::new()),
            Some(Err(_)) => (Err(ReplayError::Decode), DecoderState::Failed, Vec::new()),
            Some(Ok(ReadAction::NeedMore(count))) => {
                if ended {
                    (Err(ReplayError::Decode), DecoderState::Failed, Vec::new())
                } else {
                    (Ok(Advance::NeedMore(count)), DecoderState::Awaiting(count), Vec::new())
                }
            },
            Some(Ok(ReadAction::GetRecord { opcode, data })) => {
                if opcode == OP_CHUNK {
                    match open(data.as_slice()) {
                        Ok(records) => (Ok(Advance::Record(Record::Other)), going_on, records),
                        Err(error) => (Err(error), DecoderState::Failed, Vec::new()),
                    }
                } else {
                    match decode_record(opcode, data.as_slice()) {
                        Ok(record) => (Ok(Advance::Record(record)), going_on, Vec::new()),
                        Err(error) => (Err(error), DecoderState::Failed, Vec::new()),
                    }
                }
            },
        }
    }

    /// Yields the next record of the chunk that was opened last.
    pub fn unpack(records: &mut Records) -> (res: Result<Advance, ReplayError>)
        ensures
            (advance_result_view(res), final(records)@) == unpacked(old(records)@),
    {
        match records.take() {
            Ok((opcode, body)) => match decode_record(opcode, body.as_slice()) {
                Ok(record) => Ok(Advance::Record(record)),
                Err(error) => {
                    *records = Records::none();
                    Err(error)
                },
            },
            Err(error) => Err(error),
        }
    }

    /// Hands bytes from the source to a decoder that has asked for them; an
    /// empty slice says that the source has ended.  A decoder that is not
    /// waiting takes nothing, and says so.
    ///
    /// The bytes pass the guard first.  What it lets through goes on to the
    /// reader: all the bytes, or those in front of the byte that completes a
    /// header that the guard refuses.  After such a header, as after the end
    /// of the source, the decoder is given nothing more: it yields what the
    /// reader still holds and then fails, the stream being malformed.
    pub fn supply(&mut self, bytes: &[u8]) -> (accepted: bool)
        ensures
            accepted == (old(self).state() is Awaiting),
            final(self).state() == (if !accepted {
                old(self).state()
            } else if bytes@.len() == 0 || old(self).guard().scan(bytes@).1 < bytes@.len() {
                DecoderState::Draining
            } else {
                DecoderState::Ready
            }),
            final(self).guard() == (if accepted {
                old(self).guard().scan(bytes@).0
            } else {
                old(self).guard()
            }),
            final(self).handed() == (if accepted && (old(self).guard().scan(bytes@).1 > 0
                || bytes@.len() == 0) {
                bytes@.subrange(0, old(self).guard().scan(bytes@).1)
            } else {
                old(self).handed()
            }),
            final(self).starts_mid_stream() == old(self).starts_mid_stream(),
            final(self).pending() == old(self).pending(),
    {
        match self.stage.state {
            DecoderState::Awaiting(_) => {
                let count: usize = self.guard.screen(bytes);
                if count < bytes.len() {
                    if count > 0 {
                        feed(&mut self.reader, slice_subrange(bytes, 0, count));
                    }
                    self.stage = Stage { state: DecoderState::Draining };
                } else {
                    feed(&mut self.reader, bytes);
                    proof {
                        assert(bytes@.subrange(0, count as int) =~= bytes@);
                    }
                    let state = if bytes.len() == 0 {
                        DecoderState::Draining
                    } else {
                        DecoderState::Ready
                    };
                    self.stage = Stage { state };
                }
                true
            },
            _ => false,
        }
    }
}

/// Advances the decoder by one step.
///
/// A decoder that has finished stays exhausted, one that has failed keeps
/// failing, and one that waits for bytes repeats its request.  One that
/// holds records of an opened chunk yields the next of them.  Otherwise
/// the reader is asked, and the outcome is [`interpreted`] of whatever it
/// answers: see [`advanced`].  A request is never for zero bytes, and none
/// is made once the source has ended or the guard has refused a header:
/// from then on every step yields a record, the end of the stream or an
/// error.
pub fn advance_reader(reader: &mut FrameDecoder) -> (res: Result<Advance, ReplayError>)
    ensures
        advanced(
            old(reader).state(),
            old(reader).pending(),
            advance_result_view(res),
            final(reader).state(),
            final(reader).pending(),
        ),
        res matches Ok(Advance::NeedMore(count)) ==> count > 0 && final(reader).state()
            == DecoderState::Awaiting(count) && old(reader).state() !is Draining,
        res matches Err(error) ==> error == ReplayError::Decode && final(reader).state()
            == DecoderState::Failed,
        res == Ok::<Advance, ReplayError>(Advance::Exhausted) ==> final(reader).state()
            == DecoderState::Finished,
        res matches Ok(Advance::Record(_)) ==> final(reader).state() == old(reader).state() && (
        old(reader).state() is Ready || old(reader).state() is Draining),
        final(reader).starts_mid_stream() == old(reader).starts_mid_stream(),
        final(reader).guard() == old(reader).guard(),
{
    proof {
        use_type_invariant(&reader.stage);
    }
    match reader.stage.state {
        DecoderState::Finished => Ok(Advance::Exhausted),
        DecoderState::Failed => Err(ReplayError::Decode),
        DecoderState::Awaiting(count) => Ok(Advance::NeedMore(count)),
        state => {
            if !reader.records.is_empty() {
                let res = FrameDecoder::unpack(&mut reader.records);
                if res.is_err() {
                    reader.stage = Stage { state: DecoderState::Failed };
                }
                res
            } else {
                let ended = match state {
                    DecoderState::Draining => true,
                    _ => false,
                };
                let action = next_action(&mut reader.reader);
                let (res, state, records) = FrameDecoder::interpret(action, ended);
                reader.stage = Stage { state };
                reader.records = Records::of(records);
                res
            }
        },
    }
}

} // verus!
