//! The catalog of a container: its schemas and channels, by id.
//!
//! The catalog is built once, from the records of the summary section, and
//! only read afterwards.  An id is entered the first time it is met; a later
//! record with the same id changes nothing, whatever it says.

use crate::decoder::{
    advance_reader, advance_result_view, advanced, Advance, AdvanceView, DecoderState, FrameDecoder,
};
use crate::error::ReplayError;
use crate::footer::{locate_summary, summary_start};
use crate::record::{
    ChannelRecord, ChannelRecordView, Record, RecordView, SchemaHeader, SchemaHeaderView,
};
use crate::stream::{FileStream, PassView};
use std::collections::HashMap;
use vstd::prelude::*;

verus! {

broadcast use vstd::std_specs::hash::group_hash_axioms;

/// A named description of the structure of message payloads.
#[derive(Clone, Debug, PartialEq, Eq)]
pub struct Schema {
    pub id: u16,
    pub name: String,
    pub encoding: String,
    pub data: Vec<u8>,
}

/// A named stream of messages.  `schema_id` names the entry of the catalog
/// that describes its payloads, if there is one.
#[derive(Clone, Debug, PartialEq, Eq)]
pub struct Channel {
    pub id: u16,
    pub topic: String,
    pub message_encoding: String,
    pub schema_id: Option<u16>,
}

/// What a record of the summary section did to the catalog.
#[derive(Clone, Copy, Debug, PartialEq, Eq, Structural)]
pub enum Cataloged {
    /// Nothing: the record is of another kind, or its id was entered before.
    Nothing,
    /// A schema was entered under this id.
    Schema(u16),
    /// A channel was entered under this id; its sink is to be registered.
    Channel(u16),
}

/// What one step of the scan of the summary section yields.
#[derive(Clone, Copy, Debug, PartialEq, Eq, Structural)]
pub enum LoadStep {
    /// The caller is to read up to this many bytes of the file and supply
    /// them to the decoder.
    NeedMore(usize),
    /// A record was handled, with this effect on the catalog.
    Handled(Cataloged),
    /// The summary section is exhausted: the catalog is complete.
    Finished,
}

/// Mathematical value of a [`Schema`].
pub struct SchemaView {
    pub id: u16,
    pub name: Seq<char>,
    pub encoding: Seq<char>,
    pub data: Seq<u8>,
}

/// Mathematical value of a [`Channel`].
pub struct ChannelView {
    pub id: u16,
    pub topic: Seq<char>,
    pub message_encoding: Seq<char>,
    pub schema_id: Option<u16>,
}

/// Mathematical value of a [`Summary`]: two finite maps.
pub struct SummaryView {
    pub schemas: Map<u16, SchemaView>,
    pub channels: Map<u16, ChannelView>,
}

impl View for Schema {
    type V = SchemaView;

    open spec fn view(&self) -> SchemaView {
        SchemaView { id: self.id, name: self.name@, encoding: self.encoding@, data: self.data@ }
    }
}

impl View for Channel {
    type V = ChannelView;

    open spec fn view(&self) -> ChannelView {
        ChannelView {
            id: self.id,
            topic: self.topic@,
            message_encoding: self.message_encoding@,
            schema_id: self.schema_id,
        }
    }
}

/// The schema that a record enters.
pub open spec fn schema_entry(header: SchemaHeaderView, data: Seq<u8>) -> SchemaView {
    SchemaView { id: header.id, name: header.name, encoding: header.encoding, data }
}

impl SummaryView {
    /// The catalog that holds nothing.
    pub open spec fn empty() -> SummaryView {
        SummaryView { schemas: Map::empty(), channels: Map::empty() }
    }

    /// Both maps hold finitely many entries.
    pub open spec fn finite(self) -> bool {
        self.schemas.dom().finite() && self.channels.dom().finite()
    }

    /// Every entry stands under its own id, no schema has id zero, and the
    /// schema that a channel names is in the catalog.
    pub open spec fn well_formed(self) -> bool {
        &&& forall|id: u16| #[trigger]
            self.schemas.contains_key(id) ==> id != 0 && self.schemas[id].id == id
        &&& forall|id: u16| #[trigger]
            self.channels.contains_key(id) ==> self.channels[id].id == id && (
            self.channels[id].schema_id matches Some(schema) ==> self.schemas.contains_key(schema))
    }

    /// The schema entry that a channel citing `schema_id` is given: the id
    /// itself where the catalog holds it, and none otherwise.
    pub open spec fn resolve(self, schema_id: u16) -> Option<u16> {
        if self.schemas.contains_key(schema_id) {
            Some(schema_id)
        } else {
            None
        }
    }

    /// The channel that a record enters into this catalog.
    pub open spec fn channel_entry(self, record: ChannelRecordView) -> ChannelView {
        ChannelView {
            id: record.id,
            topic: record.topic,
            message_encoding: record.message_encoding,
            schema_id: self.resolve(record.schema_id),
        }
    }

    /// The catalog after a schema record with a valid id: the first record of
    /// an id is entered, a later one changes nothing.
    pub open spec fn with_schema(self, header: SchemaHeaderView, data: Seq<u8>) -> SummaryView {
        if self.schemas.contains_key(header.id) {
            self
        } else {
            SummaryView {
                schemas: self.schemas.insert(header.id, schema_entry(header, data)),
                channels: self.channels,
            }
        }
    }

    /// The catalog after a channel record, first record of an id winning.
    pub open spec fn with_channel(self, record: ChannelRecordView) -> SummaryView {
        if self.channels.contains_key(record.id) {
            self
        } else {
            SummaryView {
                schemas: self.schemas,
                channels: self.channels.insert(record.id, self.channel_entry(record)),
            }
        }
    }

    /// The catalog after one record of the summary section, or the error
    /// that the record ends the load with.
    pub open spec fn after_record(self, record: RecordView) -> Result<SummaryView, ReplayError> {
        match record {
            RecordView::Schema { header, data } => if header.id == 0 {
                Err(ReplayError::InvalidCatalogEntry)
            } else {
                Ok(self.with_schema(header, data))
            },
            RecordView::Channel(channel) => Ok(self.with_channel(channel)),
            _ => Ok(self),
        }
    }

    /// The catalog after a run of records, in order; the first error ends it.
    pub open spec fn after_records(self, records: Seq<RecordView>) -> Result<
        SummaryView,
        ReplayError,
    >
        decreases records.len(),
    {
        if records.len() == 0 {
            Ok(self)
        } else {
            match self.after_record(records[0]) {
                Ok(next) => next.after_records(records.drop_first()),
                Err(error) => Err(error),
            }
        }
    }

    /// The catalog after a step of the decoder, or the error that the step
    /// ends the load with: only a record changes anything.
    pub open spec fn after_advance(self, advance: AdvanceView) -> Result<
        SummaryView,
        ReplayError,
    > {
        match advance {
            AdvanceView::Record(record) => self.after_record(record),
            _ => Ok(self),
        }
    }

    /// What a step of the decoder amounts to for the load, where the catalog
    /// accepts it.
    pub open spec fn load_step(self, advance: AdvanceView) -> LoadStep {
        match advance {
            AdvanceView::NeedMore(count) => LoadStep::NeedMore(count),
            AdvanceView::Record(record) => LoadStep::Handled(self.change(record)),
            AdvanceView::Exhausted => LoadStep::Finished,
        }
    }

    /// The outcome of a step of the load and the catalog after it, for what
    /// the decoder yielded: its error ends the load, and so does a record
    /// that the catalog refuses; either way the catalog is left as it was.
    pub open spec fn stepped(self, yielded: Result<AdvanceView, ReplayError>) -> (
        Result<LoadStep, ReplayError>,
        SummaryView,
    ) {
        match yielded {
            Ok(advance) => match self.after_advance(advance) {
                Ok(next) => (Ok(self.load_step(advance)), next),
                Err(error) => (Err(error), self),
            },
            Err(error) => (Err(error), self),
        }
    }

    /// What [`Summary::handle_record`] reports of a record that it accepts.
    pub open spec fn change(self, record: RecordView) -> Cataloged {
        match record {
            RecordView::Schema { header, data } => if self.schemas.contains_key(header.id) {
                Cataloged::Nothing
            } else {
                Cataloged::Schema(header.id)
            },
            RecordView::Channel(channel) => if self.channels.contains_key(channel.id) {
                Cataloged::Nothing
            } else {
                Cataloged::Channel(channel.id)
            },
            _ => Cataloged::Nothing,
        }
    }
}

/// The schema that the first schema record with this id holds, if any does.
pub open spec fn first_schema(records: Seq<RecordView>, id: u16) -> Option<SchemaView>
    decreases records.len(),
{
    if records.len() == 0 {
        None
    } else {
        match records[0] {
            RecordView::Schema { header, data } if header.id == id => Some(
                schema_entry(header, data),
            ),
            _ => first_schema(records.drop_first(), id),
        }
    }
}

/// The channel that the first channel record with this id enters, if any
/// does: its schema is looked up in the catalog as it stands when the record
/// comes, `catalog` being the catalog before the run.
pub open spec fn first_channel(catalog: SummaryView, records: Seq<RecordView>, id: u16) -> Option<
    ChannelView,
>
    decreases records.len(),
{
    if records.len() == 0 {
        None
    } else {
        match records[0] {
            RecordView::Channel(channel) if channel.id == id => Some(
                catalog.channel_entry(channel),
            ),
            _ => match catalog.after_record(records[0]) {
                Ok(next) => first_channel(next, records.drop_first(), id),
                Err(_) => None,
            },
        }
    }
}

/// Whether some schema record has this id.
pub open spec fn has_schema(records: Seq<RecordView>, id: u16) -> bool {
    exists|i: int|
        0 <= i < records.len() && (#[trigger] records[i] matches RecordView::Schema {
            header,
            data,
        } && header.id == id)
}

/// Whether some channel record has this id.
pub open spec fn has_channel(records: Seq<RecordView>, id: u16) -> bool {
    exists|i: int|
        0 <= i < records.len() && (#[trigger] records[i] matches RecordView::Channel(channel)
            && channel.id == id)
}

/// Whether no schema record has the reserved id zero.
pub open spec fn schema_ids_valid(records: Seq<RecordView>) -> bool {
    forall|i: int|
        0 <= i < records.len() ==> (#[trigger] records[i] matches RecordView::Schema {
            header,
            data,
        } ==> header.id != 0)
}

/// The catalog of one container.
pub struct Summary {
    path: String,
    summary_start: u64,
    schemas: HashMap<u16, Schema>,
    channels: HashMap<u16, Channel>,
}

impl View for Summary {
    type V = SummaryView;

    closed spec fn view(&self) -> SummaryView {
        SummaryView {
            schemas: self.schemas@.map_values(|schema: Schema| schema@),
            channels: self.channels@.map_values(|channel: Channel| channel@),
        }
    }
}

impl Default for Summary {
    /// The empty catalog of no file: no path, no summary section, no
    /// schemas and no channels.
    fn default() -> (summary: Self)
        ensures
            summary@ == SummaryView::empty(),
            summary@.well_formed(),
            summary@.finite(),
            summary.path_view() == Seq::<char>::empty(),
            summary.start() == 0,
    {
        let summary = Summary {
            path: String::new(),
            summary_start: 0,
            schemas: HashMap::new(),
            channels: HashMap::new(),
        };
        assert(summary@.schemas =~= Map::empty());
        assert(summary@.channels =~= Map::empty());
        proof {
            summary.lemma_finite();
        }
        summary
    }
}

impl Summary {
    /// Where the container lies, as it was given when the load began.
    pub closed spec fn path_view(self) -> Seq<char> {
        self.path@
    }

    /// Byte offset of the summary section.
    pub closed spec fn start(self) -> u64 {
        self.summary_start
    }

    /// A catalog holds finitely many schemas and channels, whatever was
    /// entered into it.
    pub proof fn lemma_finite(&self)
        ensures
            self@.finite(),
    {
        assert(self@.schemas.dom() =~= self.schemas@.dom());
        assert(self@.channels.dom() =~= self.channels@.dom());
    }

    /// Begins the load of the container at `path`, whose last bytes are
    /// `tail` (at least the last twenty-eight).
    ///
    /// The load fails at once where the file does not close with the magic
    /// marker, and where its footer names no summary section.  Otherwise the
    /// result is an empty catalog that knows where the summary section
    /// starts.  The caller scans the file from there with a decoder that
    /// starts mid-stream, one [`load_step`](Summary::load_step) after the
    /// other, until the section is exhausted.
    pub fn load_from_mcap(path: &str, tail: &[u8]) -> (res: Result<Summary, ReplayError>)
        ensures
            (match res {
                Ok(summary) => locate_summary(tail@) == Ok::<u64, ReplayError>(summary.start())
                    && summary@ == SummaryView::empty() && summary@.well_formed()
                    && summary@.finite() && summary.path_view() == path@,
                Err(error) => locate_summary(tail@) == Err::<u64, ReplayError>(error),
            }),
    {
        match summary_start(tail) {
            Ok(start) => {
                let summary = Summary {
                    path: path.to_owned(),
                    summary_start: start,
                    schemas: HashMap::new(),
                    channels: HashMap::new(),
                };
                assert(summary@.schemas =~= Map::empty());
                assert(summary@.channels =~= Map::empty());
                proof {
                    summary.lemma_finite();
                }
                Ok(summary)
            },
            Err(error) => Err(error),
        }
    }

    /// Where the container lies.
    pub fn path(&self) -> (path: &str)
        ensures
            path@ == self.path_view(),
    {
        self.path.as_str()
    }

    /// Byte offset at which the scan of the summary section begins.
    pub fn summary_start(&self) -> (offset: u64)
        ensures
            offset == self.start(),
    {
        self.summary_start
    }

    /// Starts a replay pass over the container, with the channels of this
    /// catalog and no time tracker yet.
    pub fn file_stream(&self) -> (stream: FileStream<'_>)
        ensures
            stream@ == PassView::fresh(self@.channels.dom()),
            stream.path_view() == self.path_view(),
    {
        proof {
            assert(self@.channels.dom() =~= self.channels@.dom());
        }
        FileStream::new(self.path.as_str(), &self.channels)
    }

    /// Number of schemas in the catalog.
    pub fn schema_count(&self) -> (count: usize)
        ensures
            count == self@.schemas.len(),
    {
        proof {
            assert(self@.schemas.dom() =~= self.schemas@.dom());
        }
        self.schemas.len()
    }

    /// Number of channels in the catalog.
    pub fn channel_count(&self) -> (count: usize)
        ensures
            count == self@.channels.len(),
    {
        proof {
            assert(self@.channels.dom() =~= self.channels@.dom());
        }
        self.channels.len()
    }

    /// The schema entered under `id`.
    pub fn schema(&self, id: u16) -> (entry: Option<&Schema>)
        ensures
            (match entry {
                Some(schema) => self@.schemas.contains_key(id) && self@.schemas[id] == schema@,
                None => !self@.schemas.contains_key(id),
            }),
    {
        self.schemas.get(&id)
    }

    /// The channel entered under `id`.
    pub fn channel(&self, id: u16) -> (entry: Option<&Channel>)
        ensures
            (match entry {
                Some(channel) => self@.channels.contains_key(id) && self@.channels[id]
                    == channel@,
                None => !self@.channels.contains_key(id),
            }),
    {
        self.channels.get(&id)
    }

    /// The schema of the channel entered under `id`: the entry of the
    /// catalog that the channel names.  Channels share such an entry; none
    /// holds a copy of it.
    pub fn channel_schema(&self, id: u16) -> (entry: Option<&Schema>)
        ensures
            (match entry {
                Some(schema) => self@.channels.contains_key(id) && (
                self@.channels[id].schema_id matches Some(named) && self@.schemas.contains_key(
                    named,
                ) && self@.schemas[named] == schema@),
                None => !self@.channels.contains_key(id) || (match self@.channels[id].schema_id {
                    Some(named) => !self@.schemas.contains_key(named),
                    None => true,
                }),
            }),
            self@.well_formed() && self@.channels.contains_key(id) ==> (entry is Some
                <==> self@.channels[id].schema_id is Some),
    {
        match self.channels.get(&id) {
            Some(channel) => match channel.schema_id {
                Some(named) => self.schemas.get(&named),
                None => None,
            },
            None => None,
        }
    }

    /// Enters a schema.  Id zero is reserved, and a record that carries it
    /// ends the load; an id that the catalog holds already is left as it is.
    pub fn handle_schema(&mut self, header: &SchemaHeader, data: Vec<u8>) -> (res: Result<
        Cataloged,
        ReplayError,
    >)
        ensures
            header.id == 0 ==> res == Err::<Cataloged, ReplayError>(
                ReplayError::InvalidCatalogEntry,
            ) && final(self)@ == old(self)@,
            header.id != 0 ==> res == Ok::<Cataloged, ReplayError>(
                if old(self)@.schemas.contains_key(header.id) {
                    Cataloged::Nothing
                } else {
                    Cataloged::Schema(header.id)
                },
            ) && final(self)@ == old(self)@.with_schema(header@, data@),
            final(self).path_view() == old(self).path_view(),
            final(self).start() == old(self).start(),
            final(self)@.finite(),
    {
        proof {
            self.lemma_finite();
        }
        if header.id == 0 {
            return Err(ReplayError::InvalidCatalogEntry);
        }
        if self.schemas.contains_key(&header.id) {
            return Ok(Cataloged::Nothing);
        }
        let schema = Schema {
            id: header.id,
            name: header.name.clone(),
            encoding: header.encoding.clone(),
            data,
        };
        self.schemas.insert(header.id, schema);
        proof {
            self.lemma_finite();
            assert(final(self)@.schemas =~= old(self)@.schemas.insert(
                header.id,
                schema_entry(header@, data@),
            ));
        }
        Ok(Cataloged::Schema(header.id))
    }

    /// Enters a channel, unless the catalog holds its id already.  The schema
    /// it cites is looked up among the schemas entered so far; a channel
    /// whose schema is not there is entered without one.
    pub fn handle_channel(&mut self, record: ChannelRecord) -> (change: Cataloged)
        ensures
            change == (if old(self)@.channels.contains_key(record.id) {
                Cataloged::Nothing
            } else {
                Cataloged::Channel(record.id)
            }),
            final(self)@ == old(self)@.with_channel(record@),
            final(self).path_view() == old(self).path_view(),
            final(self).start() == old(self).start(),
            final(self)@.finite(),
    {
        proof {
            self.lemma_finite();
        }
        if self.channels.contains_key(&record.id) {
            return Cataloged::Nothing;
        }
        let schema_id: Option<u16> = if self.schemas.contains_key(&record.schema_id) {
            Some(record.schema_id)
        } else {
            None
        };
        let id: u16 = record.id;
        let channel = Channel {
            id,
            topic: record.topic,
            message_encoding: record.message_encoding,
            schema_id,
        };
        self.channels.insert(id, channel);
        proof {
            self.lemma_finite();
            assert(final(self)@.channels =~= old(self)@.channels.insert(
                id,
                old(self)@.channel_entry(record@),
            ));
        }
        Cataloged::Channel(id)
    }

    /// Handles a record of the summary section: schemas and channels are
    /// entered, every other kind is passed over.
    pub fn handle_record(&mut self, record: Record) -> (res: Result<Cataloged, ReplayError>)
        ensures
            (match old(self)@.after_record(record@) {
                Ok(next) => res == Ok::<Cataloged, ReplayError>(old(self)@.change(record@))
                    && final(self)@ == next,
                Err(error) => res == Err::<Cataloged, ReplayError>(error) && final(self)@ == old(self)@,
            }),
            old(self)@.well_formed() ==> final(self)@.well_formed(),
            final(self).path_view() == old(self).path_view(),
            final(self).start() == old(self).start(),
            final(self)@.finite(),
    {
        proof {
            self.lemma_finite();
            if old(self)@.well_formed() {
                lemma_record_keeps_well_formed(old(self)@, record@);
            }
        }
        match record {
            Record::Schema { header, data } => self.handle_schema(&header, data),
            Record::Channel(channel) => Ok(self.handle_channel(channel)),
            _ => Ok(Cataloged::Nothing),
        }
    }

    /// Turns a step of the decoder into a step of the load: a request for
    /// bytes and the end of the section pass on, a record is handled.
    pub fn absorb(&mut self, advance: Advance) -> (res: Result<LoadStep, ReplayError>)
        ensures
            (match old(self)@.after_advance(advance@) {
                Ok(next) => res == Ok::<LoadStep, ReplayError>(old(self)@.load_step(advance@))
                    && final(self)@ == next,
                Err(error) => res == Err::<LoadStep, ReplayError>(error) && final(self)@ == old(self)@,
            }),
            old(self)@.well_formed() ==> final(self)@.well_formed(),
            final(self).path_view() == old(self).path_view(),
            final(self).start() == old(self).start(),
            final(self)@.finite(),
    {
        proof {
            self.lemma_finite();
        }
        match advance {
            Advance::NeedMore(count) => Ok(LoadStep::NeedMore(count)),
            Advance::Record(record) => match self.handle_record(record) {
                Ok(change) => Ok(LoadStep::Handled(change)),
                Err(error) => Err(error),
            },
            Advance::Exhausted => Ok(LoadStep::Finished),
        }
    }

    /// Takes one step of the scan of the summary section: advances the
    /// decoder and handles what it yields.
    ///
    /// The decoder takes a step as [`advanced`] says, and the outcome and
    /// the catalog are [`stepped`](SummaryView::stepped) of what it yields.
    /// So a decoder that waits has its request repeated, one that has
    /// finished ends the load, and one that has failed fails it again; a
    /// decode error and an invalid catalog entry end the load and leave the
    /// catalog as it was.
    pub fn load_step(&mut self, reader: &mut FrameDecoder) -> (res: Result<LoadStep, ReplayError>)
        ensures
            exists|yielded: Result<AdvanceView, ReplayError>| #[trigger]
                advanced(
                    old(reader).state(),
                    old(reader).pending(),
                    yielded,
                    final(reader).state(),
                    final(reader).pending(),
                ) && (
                res,
                final(self)@,
            ) == old(self)@.stepped(yielded),
            res matches Ok(LoadStep::NeedMore(count)) ==> count > 0 && final(reader).state()
                == DecoderState::Awaiting(count) && old(reader).state() !is Draining && final(self)@
                == old(self)@,
            res == Ok::<LoadStep, ReplayError>(LoadStep::Finished) ==> final(reader).state()
                == DecoderState::Finished && final(self)@ == old(self)@,
            res matches Err(error) ==> (error == ReplayError::Decode || error
                == ReplayError::InvalidCatalogEntry) && final(self)@ == old(self)@,
            old(self)@.well_formed() ==> final(self)@.well_formed(),
            final(self).path_view() == old(self).path_view(),
            final(self).start() == old(self).start(),
            final(self)@.finite(),
            final(reader).guard() == old(reader).guard(),
            final(reader).starts_mid_stream() == old(reader).starts_mid_stream(),
    {
        let yielded = advance_reader(reader);
        proof {
            self.lemma_finite();
            assert(advanced(
                old(reader).state(),
                old(reader).pending(),
                advance_result_view(yielded),
                reader.state(),
                reader.pending(),
            ));
        }
        match yielded {
            Ok(advance) => self.absorb(advance),
            Err(error) => Err(error),
        }
    }
}

/// A record that is accepted leaves a well-formed catalog well-formed.
pub proof fn lemma_record_keeps_well_formed(catalog: SummaryView, record: RecordView)
    requires
        catalog.well_formed(),
    ensures
        catalog.after_record(record) matches Ok(next) ==> next.well_formed(),
{
}

/// A record that is met again changes nothing: what it had to enter is
/// entered already.
pub proof fn lemma_repeated_record_changes_nothing(catalog: SummaryView, record: RecordView)
    ensures
        catalog.after_record(record) matches Ok(next) ==> next.after_record(record) == Ok::<
            SummaryView,
            ReplayError,
        >(next),
{
}

/// A run of records is refused exactly when one of its schemas carries id
/// zero, and then as an invalid catalog entry.
pub proof fn lemma_load_fails_on_schema_zero(catalog: SummaryView, records: Seq<RecordView>)
    ensures
        schema_ids_valid(records) <==> catalog.after_records(records) is Ok,
        !schema_ids_valid(records) ==> catalog.after_records(records) == Err::<
            SummaryView,
            ReplayError,
        >(ReplayError::InvalidCatalogEntry),
    decreases records.len(),
{
    if records.len() > 0 {
        let rest = records.drop_first();
        assert forall|i: int| 0 <= i < rest.len() implies rest[i] == records[i + 1] by {}
        match catalog.after_record(records[0]) {
            Ok(next) => {
                lemma_load_fails_on_schema_zero(next, rest);
                if schema_ids_valid(rest) {
                    assert forall|i: int| 0 <= i < records.len() implies (
                    #[trigger] records[i] matches RecordView::Schema { header, data } ==> header.id
                        != 0) by {
                        if i > 0 {
                            assert(records[i] == rest[i - 1]);
                        }
                    }
                } else {
                    let bad = choose|i: int|
                        0 <= i < rest.len() && !(#[trigger] rest[i] matches RecordView::Schema {
                            header,
                            data,
                        } ==> header.id != 0);
                    assert(records[bad + 1] == rest[bad]);
                }
            },
            Err(_) => {
                assert(!(records[0] matches RecordView::Schema { header, data } ==> header.id
                    != 0));
            },
        }
    }
}

/// The catalog after a run of records holds, besides what it held before,
/// exactly the ids that the records carry, each with what the first record
/// of that id says; what it held before is untouched.
pub proof fn lemma_first_record_of_an_id_wins(catalog: SummaryView, records: Seq<RecordView>)
    requires
        schema_ids_valid(records),
    ensures
        catalog.after_records(records) matches Ok(end) && ({
            &&& forall|id: u16| #[trigger]
                end.schemas.contains_key(id) <==> catalog.schemas.contains_key(id) || has_schema(
                    records,
                    id,
                )
            &&& forall|id: u16|
                catalog.schemas.contains_key(id) ==> #[trigger] end.schemas[id]
                    == catalog.schemas[id]
            &&& forall|id: u16|
                !catalog.schemas.contains_key(id) && has_schema(records, id) ==> first_schema(
                    records,
                    id,
                ) == Some(#[trigger] end.schemas[id])
            &&& forall|id: u16| #[trigger]
                end.channels.contains_key(id) <==> catalog.channels.contains_key(id)
                    || has_channel(records, id)
            &&& forall|id: u16|
                catalog.channels.contains_key(id) ==> #[trigger] end.channels[id]
                    == catalog.channels[id]
            &&& forall|id: u16|
                !catalog.channels.contains_key(id) && has_channel(records, id) ==> first_channel(
                    catalog,
                    records,
                    id,
                ) == Some(#[trigger] end.channels[id])
        }),
    decreases records.len(),
{
    if records.len() == 0 {
        assert forall|id: u16| !has_channel(records, id) by {}
        assert forall|id: u16| !has_schema(records, id) by {}
    } else {
        let rest = records.drop_first();
        assert forall|i: int| 0 <= i < rest.len() implies rest[i] == records[i + 1] by {}
        assert forall|id: u16|
            has_schema(records, id) <==> (records[0] matches RecordView::Schema { header, data }
                && header.id == id) || has_schema(rest, id) by {
            if has_schema(records, id) {
                let i = choose|i: int|
                    0 <= i < records.len() && (#[trigger] records[i] matches RecordView::Schema {
                        header,
                        data,
                    } && header.id == id);
                if i > 0 {
                    assert(rest[i - 1] == records[i]);
                }
            }
            if has_schema(rest, id) {
                let i = choose|i: int|
                    0 <= i < rest.len() && (#[trigger] rest[i] matches RecordView::Schema {
                        header,
                        data,
                    } && header.id == id);
                assert(records[i + 1] == rest[i]);
            }
        }
        assert(schema_ids_valid(rest)) by {
            assert forall|i: int| 0 <= i < rest.len() implies (
            #[trigger] rest[i] matches RecordView::Schema { header, data } ==> header.id != 0) by {
                assert(rest[i] == records[i + 1]);
            }
        }
        assert(records[0] matches RecordView::Schema { header, data } ==> header.id != 0);
        let next = catalog.after_record(records[0])->Ok_0;
        lemma_first_record_of_an_id_wins(next, rest);
        let end = next.after_records(rest)->Ok_0;
        assert forall|id: u16|
            has_channel(records, id) <==> (records[0] matches RecordView::Channel(channel)
                && channel.id == id) || has_channel(rest, id) by {
            if has_channel(records, id) {
                let i = choose|i: int|
                    0 <= i < records.len() && (#[trigger] records[i] matches RecordView::Channel(
                        channel,
                    ) && channel.id == id);
                if i > 0 {
                    assert(rest[i - 1] == records[i]);
                }
            }
            if has_channel(rest, id) {
                let i = choose|i: int|
                    0 <= i < rest.len() && (#[trigger] rest[i] matches RecordView::Channel(channel)
                        && channel.id == id);
                assert(records[i + 1] == rest[i]);
            }
        }
    }
}

/// The ids of the schema records in a run.
pub open spec fn schema_ids(records: Seq<RecordView>) -> Set<u16> {
    Set::new(|id: u16| has_schema(records, id))
}

/// The ids of the channel records in a run.
pub open spec fn channel_ids(records: Seq<RecordView>) -> Set<u16> {
    Set::new(|id: u16| has_channel(records, id))
}

/// A summary section whose records carry N schema ids and M channel ids
/// gives a catalog of exactly N schemas and M channels, however often an id
/// comes again.
pub proof fn lemma_catalog_has_one_entry_per_id(records: Seq<RecordView>)
    requires
        schema_ids_valid(records),
    ensures
        SummaryView::empty().after_records(records) matches Ok(catalog) && ({
            &&& catalog.schemas.dom() == schema_ids(records)
            &&& catalog.channels.dom() == channel_ids(records)
            &&& catalog.schemas.len() == schema_ids(records).len()
            &&& catalog.channels.len() == channel_ids(records).len()
            &&& catalog.well_formed()
        }),
{
    lemma_first_record_of_an_id_wins(SummaryView::empty(), records);
    lemma_records_keep_well_formed(SummaryView::empty(), records);
    let catalog = SummaryView::empty().after_records(records)->Ok_0;
    assert(catalog.schemas.dom() =~= schema_ids(records));
    assert(catalog.channels.dom() =~= channel_ids(records));
}

/// A run of records that is accepted leaves a well-formed catalog well-formed.
pub proof fn lemma_records_keep_well_formed(catalog: SummaryView, records: Seq<RecordView>)
    requires
        catalog.well_formed(),
    ensures
        catalog.after_records(records) matches Ok(end) ==> end.well_formed(),
    decreases records.len(),
{
    if records.len() > 0 {
        lemma_record_keeps_well_formed(catalog, records[0]);
        if let Ok(next) = catalog.after_record(records[0]) {
            lemma_records_keep_well_formed(next, records.drop_first());
        }
    }
}

} // verus!
