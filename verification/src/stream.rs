//! One replay pass over the data section of a container.
//!
//! A pass walks the records of the file from its first byte.  Messages are
//! paced, announced and forwarded; every other record is passed over.  The
//! pass itself neither sleeps nor publishes: for each message it says what
//! the caller is to do, and in which order.

use crate::decoder::{
    advance_reader, advance_result_view, advanced, Advance, AdvanceView, DecoderState, FrameDecoder,
};
use crate::error::ReplayError;
use crate::record::{MessageHeader, Record, RecordView};
use crate::summary::Channel;
use crate::time_tracker::{
    broadcasts, due_after, lemma_broadcasts_spaced, pacing_wait, TimeTracker, TrackerView,
    MIN_SLEEP_NS, NOTIFY_INTERVAL_NS,
};
use std::collections::HashMap;
use vstd::prelude::*;

verus! {

broadcast use vstd::std_specs::hash::group_hash_axioms;

/// What the caller is to do for one message: first wait, then announce the
/// playback clock, then forward the message.
#[derive(Clone, Copy, Debug, PartialEq, Eq, Structural)]
pub struct Playback {
    /// Nanoseconds to block before anything else; `None`: do not block.
    pub wait_ns: Option<u64>,
    /// Recorded time to announce to subscribers as the playback clock.
    pub broadcast: Option<u64>,
    /// Whether the catalog holds the channel of the message.  A message of
    /// an unknown channel is dropped.
    pub deliver: bool,
}

/// What one step of a pass yields.
#[derive(Clone, Debug, PartialEq, Eq)]
pub enum StreamStep {
    /// The caller is to read up to this many bytes of the file and supply
    /// them to the decoder.
    NeedMore(usize),
    /// A message, and what to do with it.
    Message { header: MessageHeader, data: Vec<u8>, playback: Playback },
    /// A record that playback passes over.
    Skipped,
    /// The pass is over: the file is exhausted, or playback was cancelled.
    Finished,
}

/// Mathematical value of a [`StreamStep`].
pub enum StreamStepView {
    NeedMore(usize),
    Message { header: MessageHeader, data: Seq<u8>, playback: Playback },
    Skipped,
    Finished,
}

impl View for StreamStep {
    type V = StreamStepView;

    open spec fn view(&self) -> StreamStepView {
        match *self {
            StreamStep::NeedMore(count) => StreamStepView::NeedMore(count),
            StreamStep::Message { header, data, playback } => StreamStepView::Message {
                header,
                data: data@,
                playback,
            },
            StreamStep::Skipped => StreamStepView::Skipped,
            StreamStep::Finished => StreamStepView::Finished,
        }
    }
}

/// Mathematical value of a [`FileStream`]: the ids of the channels that the
/// catalog holds, and the time tracker of the pass once its first message
/// has come.
pub struct PassView {
    pub channels: Set<u16>,
    pub tracker: Option<TrackerView>,
}

impl PassView {
    /// A pass that has seen no message.
    pub open spec fn fresh(channels: Set<u16>) -> PassView {
        PassView { channels, tracker: None }
    }

    /// The tracker that a message recorded at `log_time` is paced with: the
    /// one of the pass, or one started at `log_time` where the message is
    /// the first.
    pub open spec fn tracker_for(self, log_time: u64) -> TrackerView {
        match self.tracker {
            Some(tracker) => tracker,
            None => TrackerView::started(log_time),
        }
    }

    /// Recorded time of the last announcement of the pass, zero before the first.
    pub open spec fn last_notified(self) -> u64 {
        match self.tracker {
            Some(tracker) => tracker.last_notified,
            None => 0,
        }
    }

    /// What is to be done for a message, the wall clock standing at
    /// `elapsed_ns` since the first message of the pass was handled.
    pub open spec fn planned(self, header: MessageHeader, elapsed_ns: u128) -> Playback {
        Playback {
            wait_ns: self.tracker_for(header.log_time).wait(header.log_time, elapsed_ns),
            broadcast: self.tracker_for(header.log_time).moved(header.log_time).announcement(),
            deliver: self.channels.contains(header.channel_id),
        }
    }

    /// The pass after a message: its tracker stands at the recorded time of
    /// the message and remembers the announcement, if one was made.  The
    /// channels are as they were.
    pub open spec fn after(self, header: MessageHeader) -> PassView {
        PassView {
            channels: self.channels,
            tracker: Some(self.tracker_for(header.log_time).moved(header.log_time).announced()),
        }
    }

    /// What is to be done for a run of messages, in order, the wall clock
    /// standing at `clock[i]` when the i-th of them is handled.
    pub open spec fn run(self, headers: Seq<MessageHeader>, clock: Seq<u128>) -> Seq<Playback>
        recommends
            clock.len() == headers.len(),
        decreases headers.len(),
    {
        if headers.len() == 0 {
            Seq::empty()
        } else {
            seq![self.planned(headers[0], clock[0])] + self.after(headers[0]).run(
                headers.drop_first(),
                clock.drop_first(),
            )
        }
    }

    /// The outcome of a step of the pass and the pass after it, for what the
    /// decoder yielded, the wall clock standing at `elapsed_ns`: a message
    /// is planned and moves the pass on, every other step leaves the pass as
    /// it is, and an error of the decoder ends the pass.
    pub open spec fn stepped(self, yielded: Result<AdvanceView, ReplayError>, elapsed_ns: u128) -> (
        Result<StreamStepView, ReplayError>,
        PassView,
    ) {
        match yielded {
            Ok(AdvanceView::Record(RecordView::Message { header, data })) => (
                Ok(
                    Self::step_for(
                        AdvanceView::Record(RecordView::Message { header, data }),
                        self.planned(header, elapsed_ns),
                    ),
                ),
                self.after(header),
            ),
            Ok(advance) => (
                Ok(
                    Self::step_for(
                        advance,
                        Playback { wait_ns: None, broadcast: None, deliver: false },
                    ),
                ),
                self,
            ),
            Err(error) => (Err(error), self),
        }
    }

    /// The step that a step of the decoder amounts to, once the playback of
    /// a message is known.
    pub open spec fn step_for(advance: AdvanceView, playback: Playback) -> StreamStepView {
        match advance {
            AdvanceView::NeedMore(count) => StreamStepView::NeedMore(count),
            AdvanceView::Record(RecordView::Message { header, data }) => StreamStepView::Message {
                header,
                data,
                playback,
            },
            AdvanceView::Record(_) => StreamStepView::Skipped,
            AdvanceView::Exhausted => StreamStepView::Finished,
        }
    }
}

/// Mathematical value of the outcome of a step of a pass.
pub open spec fn step_result_view(res: Result<StreamStep, ReplayError>) -> Result<
    StreamStepView,
    ReplayError,
> {
    match res {
        Ok(step) => Ok(step@),
        Err(error) => Err(error),
    }
}

/// The recorded times of a run of messages.
pub open spec fn log_times(headers: Seq<MessageHeader>) -> Seq<u64> {
    headers.map_values(|header: MessageHeader| header.log_time)
}

/// The announcements among a run of playbacks, in order.
pub open spec fn announcements(plays: Seq<Playback>) -> Seq<u64>
    decreases plays.len(),
{
    if plays.len() == 0 {
        Seq::empty()
    } else {
        match plays[0].broadcast {
            Some(timestamp) => seq![timestamp] + announcements(plays.drop_first()),
            None => announcements(plays.drop_first()),
        }
    }
}

/// A replay pass: the channels of the catalog, and the time tracker of the
/// pass once its first message has come.
pub struct FileStream<'a> {
    pub path: String,
    channels: &'a HashMap<u16, Channel>,
    time_tracker: Option<TimeTracker>,
}

impl<'a> View for FileStream<'a> {
    type V = PassView;

    closed spec fn view(&self) -> PassView {
        PassView {
            channels: self.channels@.dom(),
            tracker: match self.time_tracker {
                Some(tracker) => Some(tracker@),
                None => None,
            },
        }
    }
}

impl<'a> FileStream<'a> {
    /// Where the container lies.
    pub closed spec fn path_view(self) -> Seq<char> {
        self.path@
    }

    /// A pass over the container at `path`, with the channels of a catalog.
    pub fn new(path: &str, channels: &'a HashMap<u16, Channel>) -> (stream: Self)
        ensures
            stream@ == PassView::fresh(channels@.dom()),
            stream.path_view() == path@,
    {
        FileStream { path: path.to_owned(), channels, time_tracker: None }
    }

    /// Plans the playback of a message, `elapsed_ns` being the wall-clock
    /// time since the first message of the pass was handled.
    ///
    /// The first message of a pass starts the time tracker, with its own
    /// recorded time as the origin.  The message is then paced against the
    /// origin, the playback clock is announced if an interval of recorded
    /// time has gone by since the last announcement, and the message is
    /// forwarded if the catalog holds its channel.
    pub fn handle_message_at(&mut self, header: MessageHeader, elapsed_ns: u128) -> (playback:
        Playback)
        ensures
            playback == old(self)@.planned(header, elapsed_ns),
            final(self)@ == old(self)@.after(header),
            final(self).path_view() == old(self).path_view(),
    {
        let mut tracker = match self.time_tracker.take() {
            Some(tracker) => tracker,
            None => TimeTracker::start(header.log_time),
        };
        let wait_ns = tracker.pace(header.log_time, elapsed_ns);
        let broadcast = tracker.notify();
        self.time_tracker = Some(tracker);
        Playback { wait_ns, broadcast, deliver: self.channels.contains_key(&header.channel_id) }
    }

    /// Plans the playback of a message at the present moment.
    ///
    /// The outcome is that of [`handle_message_at`](FileStream::handle_message_at)
    /// for the reading of the wall clock taken during the call.  Whatever the
    /// clock says, the wait is no longer than the recorded time since the
    /// origin, and the first message of a pass is not waited for.
    pub fn handle_message(&mut self, header: MessageHeader) -> (playback: Playback)
        ensures
            exists|elapsed_ns: u128| playback == #[trigger] old(self)@.planned(header, elapsed_ns),
            playback.wait_ns matches Some(wait) ==> MIN_SLEEP_NS <= wait <= due_after(
                old(self)@.tracker_for(header.log_time).origin,
                header.log_time,
            ),
            old(self)@.tracker is None ==> playback.wait_ns is None,
            playback.broadcast == old(self)@.planned(header, 0).broadcast,
            playback.deliver == old(self)@.channels.contains(header.channel_id),
            final(self)@ == old(self)@.after(header),
            final(self).path_view() == old(self).path_view(),
    {
        let elapsed_ns: u128 = match &self.time_tracker {
            Some(tracker) => tracker.elapsed_ns(),
            None => 0,
        };
        self.handle_message_at(header, elapsed_ns)
    }

    /// Handles a record of the data section: a message is planned, any other
    /// record is passed over and leaves the pass as it is.
    pub fn handle_record(&mut self, record: &Record) -> (playback: Option<Playback>)
        ensures
            (match *record {
                Record::Message { header, data } => playback matches Some(planned) && (
                exists|elapsed_ns: u128|
                    planned == #[trigger] old(self)@.planned(header, elapsed_ns)) && final(self)@
                    == old(self)@.after(header),
                _ => playback is None && final(self)@ == old(self)@,
            }),
            final(self).path_view() == old(self).path_view(),
    {
        match record {
            Record::Message { header, data } => Some(self.handle_message(*header)),
            _ => None,
        }
    }

    /// Turns a step of the decoder into a step of the pass.
    pub fn dispatch(&mut self, advance: Advance) -> (step: StreamStep)
        ensures
            (match advance {
                Advance::Record(Record::Message { header, data }) => (exists|elapsed_ns: u128|
                    step@ == PassView::step_for(
                        advance@,
                        #[trigger] old(self)@.planned(header, elapsed_ns),
                    )) && final(self)@ == old(self)@.after(header),
                _ => step@ == PassView::step_for(
                    advance@,
                    Playback { wait_ns: None, broadcast: None, deliver: false },
                ) && final(self)@ == old(self)@,
            }),
            final(self).path_view() == old(self).path_view(),
    {
        match advance {
            Advance::NeedMore(count) => StreamStep::NeedMore(count),
            Advance::Record(Record::Message { header, data }) => {
                let playback = self.handle_message(header);
                StreamStep::Message { header, data, playback }
            },
            Advance::Record(_) => StreamStep::Skipped,
            Advance::Exhausted => StreamStep::Finished,
        }
    }

    /// Takes one step of the pass, unless `done` is set.
    ///
    /// `done` is the cancellation signal, looked at before anything else: once
    /// it is set the pass is over and neither the decoder nor the pass is
    /// touched.  Otherwise the decoder takes a step as [`advanced`] says,
    /// and the outcome and the pass are [`stepped`](PassView::stepped) of
    /// what it yields, for the reading of the wall clock taken during the
    /// call.  So a decoder that waits has its request repeated, one that has
    /// finished ends the pass, and a decode error ends it too.
    pub fn stream_until(&mut self, reader: &mut FrameDecoder, done: bool) -> (res: Result<
        StreamStep,
        ReplayError,
    >)
        ensures
            done ==> res == Ok::<StreamStep, ReplayError>(StreamStep::Finished) && final(self)@
                == old(self)@ && final(reader).state() == old(reader).state() && final(reader).pending() == old(reader).pending(),
            !done ==> exists|yielded: Result<AdvanceView, ReplayError>, elapsed_ns: u128|
                advanced(
                    old(reader).state(),
                    old(reader).pending(),
                    yielded,
                    final(reader).state(),
                    final(reader).pending(),
                ) && (
                step_result_view(res),
                final(self)@,
            ) == #[trigger] old(self)@.stepped(yielded, elapsed_ns),
            !done ==> (match res {
                Ok(StreamStep::NeedMore(count)) => count > 0 && final(reader).state()
                    == DecoderState::Awaiting(count) && old(reader).state() !is Draining
                    && final(self)@ == old(self)@,
                Ok(StreamStep::Message { header, data, playback }) => (exists|elapsed_ns: u128|
                    playback == #[trigger] old(self)@.planned(header, elapsed_ns)) && final(self)@
                    == old(self)@.after(header) && final(reader).state() == old(reader).state(),
                Ok(StreamStep::Skipped) => final(reader).state() == old(reader).state() && final(self)@
                    == old(self)@,
                Ok(StreamStep::Finished) => final(reader).state() == DecoderState::Finished
                    && final(self)@ == old(self)@,
                Err(error) => error == ReplayError::Decode && final(reader).state()
                    == DecoderState::Failed && final(self)@ == old(self)@,
            }),
            final(self).path_view() == old(self).path_view(),
            final(reader).guard() == old(reader).guard(),
            final(reader).starts_mid_stream() == old(reader).starts_mid_stream(),
    {
        if done {
            return Ok(StreamStep::Finished);
        }
        let yielded = advance_reader(reader);
        proof {
            assert(advanced(
                old(reader).state(),
                old(reader).pending(),
                advance_result_view(yielded),
                reader.state(),
                reader.pending(),
            ));
        }
        match yielded {
            Ok(advance) => {
                let ghost seen = advance@;
                let step = self.dispatch(advance);
                proof {
                    match seen {
                        AdvanceView::Record(RecordView::Message { header, data }) => {
                            let elapsed_ns = choose|elapsed_ns: u128|
                                step@ == PassView::step_for(
                                    seen,
                                    #[trigger] old(self)@.planned(header, elapsed_ns),
                                );
                            assert((Ok::<StreamStepView, ReplayError>(step@), self@) == old(self)@.stepped(Ok(seen), elapsed_ns));
                        },
                        _ => {
                            assert((Ok::<StreamStepView, ReplayError>(step@), self@) == old(self)@.stepped(Ok(seen), 0));
                        },
                    }
                }
                Ok(step)
            },
            Err(error) => {
                proof {
                    assert((Err::<StreamStepView, ReplayError>(error), self@) == old(self)@.stepped(Err(error), 0));
                }
                Err(error)
            },
        }
    }
}

/// Every message of a run is planned.
pub proof fn lemma_run_covers_every_message(
    pass: PassView,
    headers: Seq<MessageHeader>,
    clock: Seq<u128>,
)
    ensures
        pass.run(headers, clock).len() == headers.len(),
    decreases headers.len(),
{
    if headers.len() > 0 {
        lemma_run_covers_every_message(
            pass.after(headers[0]),
            headers.drop_first(),
            clock.drop_first(),
        );
    }
}

/// A message is forwarded exactly when the catalog holds its channel,
/// whatever came before it: a message of an unknown channel is dropped, and
/// the messages after it are forwarded as if it had not been there.
pub proof fn lemma_unknown_channels_do_not_disturb(
    pass: PassView,
    headers: Seq<MessageHeader>,
    clock: Seq<u128>,
)
    ensures
        pass.run(headers, clock).len() == headers.len(),
        forall|i: int|
            0 <= i < headers.len() ==> (#[trigger] pass.run(headers, clock)[i]).deliver
                == pass.channels.contains(headers[i].channel_id),
    decreases headers.len(),
{
    lemma_run_covers_every_message(pass, headers, clock);
    if headers.len() > 0 {
        lemma_unknown_channels_do_not_disturb(
            pass.after(headers[0]),
            headers.drop_first(),
            clock.drop_first(),
        );
    }
}

/// Every message of a run is paced against the same origin: the origin of
/// the tracker, or the recorded time of the first message where the pass has
/// no tracker yet.  So the recorded spacing of the messages is the spacing
/// of the moments at which they are due.
pub proof fn lemma_run_is_paced_against_one_origin(
    pass: PassView,
    headers: Seq<MessageHeader>,
    clock: Seq<u128>,
)
    requires
        headers.len() > 0,
        clock.len() == headers.len(),
    ensures
        pass.run(headers, clock).len() == headers.len(),
        forall|i: int|
            0 <= i < headers.len() ==> (#[trigger] pass.run(headers, clock)[i]).wait_ns
                == pacing_wait(
                pass.tracker_for(headers[0].log_time).origin,
                headers[i].log_time,
                clock[i],
            ),
    decreases headers.len(),
{
    lemma_run_covers_every_message(pass, headers, clock);
    if headers.len() > 1 {
        lemma_run_is_paced_against_one_origin(
            pass.after(headers[0]),
            headers.drop_first(),
            clock.drop_first(),
        );
    }
}

/// The announcements of a run are those of its recorded times, counted from
/// the last announcement before the run.
pub proof fn lemma_run_announces_by_recorded_time(
    pass: PassView,
    headers: Seq<MessageHeader>,
    clock: Seq<u128>,
)
    ensures
        announcements(pass.run(headers, clock)) == broadcasts(
            pass.last_notified(),
            log_times(headers),
        ),
    decreases headers.len(),
{
    let times = log_times(headers);
    if headers.len() > 0 {
        let next = pass.after(headers[0]);
        let rest_headers = headers.drop_first();
        let rest_clock = clock.drop_first();
        let plays = pass.run(headers, clock);
        lemma_run_announces_by_recorded_time(next, rest_headers, rest_clock);
        assert(plays.drop_first() == next.run(rest_headers, rest_clock));
        assert(log_times(rest_headers) == times.drop_first());
    }
}

/// Consecutive announcements of a pass are at least [`NOTIFY_INTERVAL_NS`]
/// of recorded time apart, the first of them from the last announcement
/// before the run; so they never go back.  This holds whatever the recorded
/// times of the messages are, and whatever the wall clock says.
pub proof fn lemma_announcements_are_spaced(
    pass: PassView,
    headers: Seq<MessageHeader>,
    clock: Seq<u128>,
)
    ensures
        announcements(pass.run(headers, clock)).len() > 0 ==> announcements(
            pass.run(headers, clock),
        )[0] - pass.last_notified() >= NOTIFY_INTERVAL_NS,
        forall|i: int|
            0 <= i && i + 1 < announcements(pass.run(headers, clock)).len()
                ==> #[trigger] announcements(pass.run(headers, clock))[i + 1] - announcements(
                pass.run(headers, clock),
            )[i] >= NOTIFY_INTERVAL_NS,
        forall|i: int|
            0 <= i && i + 1 < announcements(pass.run(headers, clock)).len() ==> announcements(
                pass.run(headers, clock),
            )[i] <= #[trigger] announcements(pass.run(headers, clock))[i + 1],
{
    lemma_run_announces_by_recorded_time(pass, headers, clock);
    lemma_broadcasts_spaced(pass.last_notified(), log_times(headers));
}

} // verus!
