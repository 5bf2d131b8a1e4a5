//! The record of any type, read by dispatch on the tag of its header.

use vstd::prelude::*;
use crate::argument::Argument;
use crate::bitutils::spec_extract_bits;
use crate::error::{outcome, parsed_err, parsed_ok, ErrorView, FtfError, Parsed};
use crate::event::{
    arguments_view, lemma_event_record_roundtrip, lemma_parse_event_record_rest,
    parse_event_record, trailing_bytes, EventRecord, EventRecordView, EventView,
};
use crate::header::{parse_record_type, RecordHeader, RecordType};
use crate::initialization::{
    lemma_initialization_record_roundtrip, parse_initialization_record, InitializationRecord,
    InitializationRecordView,
};
use crate::metadata::{
    lemma_metadata_record_roundtrip, lemma_parse_metadata_record_rest, parse_metadata_record,
    trace_info_data, MetadataRecord, MetadataRecordView, ProviderEvent, ProviderEventView,
    ProviderInfo, ProviderInfoView, ProviderSection, ProviderSectionView, TraceInfo,
    TraceInfoView,
};
use crate::refs::{StringRef, ThreadRef};
use crate::source::ByteSource;
use crate::string_rec::{
    lemma_parse_string_record_rest, lemma_string_record_roundtrip, parse_string_record,
    StringRecord, StringRecordView,
};
use crate::thread_rec::{
    lemma_parse_thread_record_rest, lemma_thread_record_roundtrip, parse_thread_record,
    ThreadRecord, ThreadRecordView,
};
use crate::wordutils::{
    lemma_join_three, lemma_join_two, lemma_parse_word_rest, lemma_word_roundtrip, parse_word,
    read_u64_word, word_bytes,
};

verus! {

/// Represents a single Fuchsia Trace Format record
#[derive(Debug, Clone, PartialEq, Eq)]
pub enum Record {
    /// specifies providers, and start of trace
    Metadata(MetadataRecord),
    /// specifies number of ticks per second
    Initialization(InitializationRecord),
    /// Interns a string into the provider's string table
    /// At most 32,768 strings
    String(StringRecord),
    /// Interns a thread into the provider's thread table
    /// At most 256 threads
    Thread(ThreadRecord),
    /// Most common type of record. Used to instantaneous
    /// events, counters, begin of a span, end of a span
    /// a whole span, etc. Can provide arguments to each
    /// event to provide additional context.
    Event(EventRecord),
    /// Binary data embedded in a trace.
    Blob,
    /// Describes a userspace object.
    Userspace,
    /// Describes a kernel object.
    Kernel,
    /// Describes a scheduling event.
    Scheduling,
    /// Describes a message written to the log.
    Log,
    /// Large binary data embedded in a trace.
    LargeBlob,
}

/// The model of a [`Record`].
pub enum RecordView {
    Metadata(MetadataRecordView),
    Initialization(InitializationRecordView),
    String(StringRecordView),
    Thread(ThreadRecordView),
    Event(EventRecordView),
    Blob,
    Userspace,
    Kernel,
    Scheduling,
    Log,
    LargeBlob,
}

impl View for Record {
    type V = RecordView;

    open spec fn view(&self) -> RecordView {
        match self {
            Record::Metadata(r) => RecordView::Metadata(r@),
            Record::Initialization(r) => RecordView::Initialization(r@),
            Record::String(r) => RecordView::String(r@),
            Record::Thread(r) => RecordView::Thread(r@),
            Record::Event(r) => RecordView::Event(r@),
            Record::Blob => RecordView::Blob,
            Record::Userspace => RecordView::Userspace,
            Record::Kernel => RecordView::Kernel,
            Record::Scheduling => RecordView::Scheduling,
            Record::Log => RecordView::Log,
            Record::LargeBlob => RecordView::LargeBlob,
        }
    }
}

impl RecordView {
    /// Whether the record has an encoder.
    pub open spec fn supported(self) -> bool {
        match self {
            RecordView::Metadata(_) => true,
            RecordView::Initialization(_) => true,
            RecordView::String(_) => true,
            RecordView::Thread(_) => true,
            RecordView::Event(e) => e.supported(),
            _ => false,
        }
    }

    /// The header word of a supported record.
    pub open spec fn header(self) -> u64
        recommends
            self.supported(),
    {
        match self {
            RecordView::Metadata(r) => r.header(),
            RecordView::Initialization(r) => r.header(),
            RecordView::String(r) => r.header(),
            RecordView::Thread(r) => r.header(),
            RecordView::Event(r) => r.header(),
            _ => arbitrary(),
        }
    }

    /// The size of a supported record in words.
    pub open spec fn words(self) -> nat
        recommends
            self.supported(),
    {
        match self {
            RecordView::Metadata(r) => r.words(),
            RecordView::Initialization(_) => 2,
            RecordView::String(r) => r.words(),
            RecordView::Thread(_) => 3,
            RecordView::Event(r) => r.words(),
            _ => arbitrary(),
        }
    }

    /// The bytes of the record on the wire; none where it has no encoder.
    pub open spec fn encoding(self) -> Seq<u8> {
        match self {
            RecordView::Metadata(r) => r.encoding(),
            RecordView::Initialization(r) => r.encoding(),
            RecordView::String(r) => r.encoding(),
            RecordView::Thread(r) => r.encoding(),
            RecordView::Event(r) => r.encoding(),
            _ => Seq::empty(),
        }
    }

    /// The error that meets a record without an encoder.
    pub open spec fn write_error(self) -> ErrorView
        recommends
            !self.supported(),
    {
        match self {
            RecordView::Event(_) => ErrorView::Unimplemented(
                "Write not implemented for this type yet"@,
            ),
            _ => ErrorView::Unimplemented("Write"@),
        }
    }

    /// Whether the record can be written and read back: it has an encoder
    /// and its header can hold its fields.
    pub open spec fn wf(self) -> bool {
        match self {
            RecordView::Metadata(r) => r.wf(),
            RecordView::Initialization(_) => true,
            RecordView::String(r) => r.wf(),
            RecordView::Thread(_) => true,
            RecordView::Event(r) => r.wf(),
            _ => false,
        }
    }
}

/// What decoding a record of the type that `header` names makes of the bytes
/// after the header.
pub open spec fn parse_record_body(header: u64, input: Seq<u8>) -> Parsed<RecordView> {
    match parse_record_type(header) {
        Err(e) => parsed_err(e, input),
        Ok(RecordType::Metadata) => {
            let r = parse_metadata_record(header, input);
            match r.result {
                Ok(v) => parsed_ok(RecordView::Metadata(v), r.rest),
                Err(e) => parsed_err(e, r.rest),
            }
        },
        Ok(RecordType::Initialization) => {
            let r = parse_initialization_record(input);
            match r.result {
                Ok(v) => parsed_ok(RecordView::Initialization(v), r.rest),
                Err(e) => parsed_err(e, r.rest),
            }
        },
        Ok(RecordType::String) => {
            let r = parse_string_record(header, input);
            match r.result {
                Ok(v) => parsed_ok(RecordView::String(v), r.rest),
                Err(e) => parsed_err(e, r.rest),
            }
        },
        Ok(RecordType::Thread) => {
            let r = parse_thread_record(header, input);
            match r.result {
                Ok(v) => parsed_ok(RecordView::Thread(v), r.rest),
                Err(e) => parsed_err(e, r.rest),
            }
        },
        Ok(RecordType::Event) => {
            let r = parse_event_record(header, input);
            match r.result {
                Ok(v) => parsed_ok(RecordView::Event(v), r.rest),
                Err(e) => parsed_err(e, r.rest),
            }
        },
        Ok(other) => parsed_err(ErrorView::UnsupportedRecordType(other), input),
    }
}

/// What decoding one record makes of `input`: the header word, then the
/// record of the type that it names. A type without a decoder is reported
/// once its header has been read.
pub open spec fn parse_record(input: Seq<u8>) -> Parsed<RecordView> {
    let head = parse_word(input);
    match head.result {
        Err(e) => parsed_err(e, head.rest),
        Ok(header) => parse_record_body(header, head.rest),
    }
}

impl Record {
    /// Create Initialize record
    /// * ticks_per_second: number of ticks in a second
    pub fn create_initialization(ticks_per_second: u64) -> (record: Self)
        ensures
            record@ == RecordView::Initialization(InitializationRecordView { ticks_per_second }),
    {
        Self::Initialization(InitializationRecord::new(ticks_per_second))
    }

    /// Create String record. Interns the provided string into the Provider's
    /// string table with the provided index. At most 32,768 strings in the table.
    /// Can refer to the interned strings using the index in later records.
    /// * index: index of the interned string in the table
    /// * value: the string to intern
    pub fn create_string(index: u16, value: String) -> (record: Self)
        ensures
            record@ == RecordView::String(StringRecordView { index, value: value@ }),
    {
        Self::String(StringRecord::new(index, value))
    }

    /// Create Thread record. Interns the provided thread into the Provider's
    /// thread table with the provided index. At most 256 threads in the table.
    /// Can refer to the interned threads using the index in later records.
    /// * index: index of the interned thread in the table
    /// * process_koid: ID of the process
    /// * thread_koid: ID of the thread
    pub fn create_thread(index: u8, process_koid: u64, thread_koid: u64) -> (record: Self)
        ensures
            record@ == RecordView::Thread(ThreadRecordView { index, process_koid, thread_koid }),
    {
        Self::Thread(ThreadRecord::new(index, process_koid, thread_koid))
    }

    /// Create ProviderInfo Metadata record.
    /// Registers a trace provider with the given name and ID. Future
    /// ProviderSection and ProviderEvent records can refer to this index.
    /// * provider_id: integer ID for this provider
    /// * provider_name: name of this provider
    pub fn create_provider_info(provider_id: u32, provider_name: String) -> (record: Self)
        ensures
            record@ == RecordView::Metadata(
                MetadataRecordView::ProviderInfo(
                    ProviderInfoView { provider_id, provider_name: provider_name@ },
                ),
            ),
    {
        Self::Metadata(MetadataRecord::ProviderInfo(ProviderInfo::new(provider_id, provider_name)))
    }

    /// Create ProviderEvent Metadata record.
    /// This metadata provides running notification of events that the provider wants to report.
    /// * provider_id: ID of the assosciated provider
    /// * event_id: ID for the type of event. The following events are defined:
    /// - 0: a buffer filled up, records were likely dropped
    pub fn create_provider_event(provider_id: u32, event_id: u8) -> (record: Self)
        ensures
            record@ == RecordView::Metadata(
                MetadataRecordView::ProviderEvent(ProviderEventView { provider_id, event_id }),
            ),
    {
        Self::Metadata(MetadataRecord::ProviderEvent(ProviderEvent::new(provider_id, event_id)))
    }

    /// Create ProviderSection Metadata record.
    /// This metadata delimits sections of the trace that have been obtained
    /// from different providers.
    /// * provider_id: ID of the Provider registered with a ProviderInfo record
    pub fn create_provider_section(provider_id: u32) -> (record: Self)
        ensures
            record@ == RecordView::Metadata(
                MetadataRecordView::ProviderSection(ProviderSectionView { provider_id }),
            ),
    {
        Self::Metadata(MetadataRecord::ProviderSection(ProviderSection::new(provider_id)))
    }

    /// Create TraceInfo record
    /// Provides information about the trace as a whole
    pub fn create_trace_info(trace_info_type: u8, data: [u8; 5]) -> (record: Self)
        ensures
            record@ == RecordView::Metadata(
                MetadataRecordView::TraceInfo(
                    TraceInfoView { trace_info_type, data: trace_info_data(data@) },
                ),
            ),
    {
        Self::Metadata(MetadataRecord::TraceInfo(TraceInfo::new(trace_info_type, &data)))
    }

    /// Create a Magic number TraceInfo Metadata record
    /// Demarcates the start of a trace. Every trace must begin
    /// with a magic number record
    pub fn create_magic_number() -> (record: Self)
        ensures
            record@ == RecordView::Metadata(MetadataRecordView::MagicNumber),
    {
        Self::Metadata(MetadataRecord::MagicNumber)
    }

    /// Create an Instant Event record.
    /// Describes a particular point in time.
    /// * timestamp: timestamp of event (as ticks)
    /// * thread: thread for this event
    /// * category: a category (eg: "network" or "database") for this event
    /// * name: name of this event
    /// * arguments: additional metadata about the event
    pub fn create_instant_event(
        timestamp: u64,
        thread: ThreadRef,
        category: StringRef,
        name: StringRef,
        arguments: Vec<Argument>,
    ) -> (record: Self)
        ensures
            record@ == RecordView::Event(
                EventRecordView::Instant(
                    EventView {
                        timestamp,
                        thread,
                        category: category@,
                        name: name@,
                        arguments: arguments_view(arguments@),
                    },
                ),
            ),
    {
        Self::Event(EventRecord::create_instant(timestamp, thread, category, name, arguments))
    }

    /// Create a Counter Event record.
    /// Describes a sample of a counter.
    /// * timestamp: timestamp of event (as ticks)
    /// * thread: thread for this event
    /// * category: a category (eg: "network" or "database") for this event
    /// * name: name of this event
    /// * arguments: additional metadata about the event
    /// * counter_id: unique ID for this counter, future records for the same
    ///   counter should use the same ID
    pub fn create_counter_event(
        timestamp: u64,
        thread: ThreadRef,
        category: StringRef,
        name: StringRef,
        arguments: Vec<Argument>,
        counter_id: u64,
    ) -> (record: Self)
        ensures
            record@ == RecordView::Event(
                EventRecordView::Counter(
                    EventView {
                        timestamp,
                        thread,
                        category: category@,
                        name: name@,
                        arguments: arguments_view(arguments@),
                    },
                    counter_id,
                ),
            ),
    {
        Self::Event(
            EventRecord::create_counter(timestamp, thread, category, name, arguments, counter_id),
        )
    }

    /// Create a DurationBegin event record
    /// Marks the beginning of an operation on a particular thread. Must be
    /// matched by a duration end event.
    /// May be nested.
    /// * timestamp: timestamp of event (as ticks)
    /// * thread: thread for this event
    /// * category: a category (eg: "network" or "database") for this event
    /// * name: name of this event
    /// * arguments: additional metadata about the event
    pub fn create_duration_begin_event(
        timestamp: u64,
        thread: ThreadRef,
        category: StringRef,
        name: StringRef,
        arguments: Vec<Argument>,
    ) -> (record: Self)
        ensures
            record@ == RecordView::Event(
                EventRecordView::DurationBegin(
                    EventView {
                        timestamp,
                        thread,
                        category: category@,
                        name: name@,
                        arguments: arguments_view(arguments@),
                    },
                ),
            ),
    {
        Self::Event(
            EventRecord::create_duration_begin(timestamp, thread, category, name, arguments),
        )
    }

    /// Create a DurationEnd event record
    /// Marks the end of an operation on a particular thread.
    /// * timestamp: timestamp of event (as ticks)
    /// * thread: thread for this event
    /// * category: a category (eg: "network" or "database") for this event
    /// * name: name of this event
    /// * arguments: additional metadata about the event
    pub fn create_duration_end_event(
        timestamp: u64,
        thread: ThreadRef,
        category: StringRef,
        name: StringRef,
        arguments: Vec<Argument>,
    ) -> (record: Self)
        ensures
            record@ == RecordView::Event(
                EventRecordView::DurationEnd(
                    EventView {
                        timestamp,
                        thread,
                        category: category@,
                        name: name@,
                        arguments: arguments_view(arguments@),
                    },
                ),
            ),
    {
        Self::Event(EventRecord::create_duration_end(timestamp, thread, category, name, arguments))
    }

    /// Creates a DurationComplete Event record
    /// Marks the beginning and end of an operation on a particular thread.
    /// * timestamp: timestamp of event (as ticks)
    /// * thread: thread for this event
    /// * category: a category (eg: "network" or "database") for this event
    /// * name: name of this event
    /// * arguments: additional metadata about the event
    /// * end_ts: timestamps for end of the operation
    pub fn create_duration_complete_event(
        timestamp: u64,
        thread: ThreadRef,
        category: StringRef,
        name: StringRef,
        arguments: Vec<Argument>,
        end_ts: u64,
    ) -> (record: Self)
        ensures
            record@ == RecordView::Event(
                EventRecordView::DurationComplete(
                    EventView {
                        timestamp,
                        thread,
                        category: category@,
                        name: name@,
                        arguments: arguments_view(arguments@),
                    },
                    end_ts,
                ),
            ),
    {
        Self::Event(
            EventRecord::create_duration_complete(
                timestamp,
                thread,
                category,
                name,
                arguments,
                end_ts,
            ),
        )
    }

    /// Read a single record from a byte source
    pub fn read(reader: &mut ByteSource) -> (res: Result<Record, FtfError>)
        ensures
            outcome(res) == parse_record(old(reader).remaining()).result,
            final(reader).remaining() == parse_record(old(reader).remaining()).rest,
    {
        let header = RecordHeader::new(read_u64_word(reader)?);

        let record_type = header.record_type()?;
        match record_type {
            RecordType::Metadata => Ok(Self::Metadata(MetadataRecord::parse(reader, header)?)),
            RecordType::Initialization => Ok(
                Self::Initialization(InitializationRecord::parse(reader, header)?),
            ),
            RecordType::String => Ok(Self::String(StringRecord::parse(reader, header)?)),
            RecordType::Thread => Ok(Self::Thread(ThreadRecord::parse(reader, header)?)),
            RecordType::Event => Ok(Self::Event(EventRecord::parse(reader, header)?)),
            _ => Err(FtfError::UnsupportedRecordType(record_type)),
        }
    }

    /// Write a single record to a byte sink. A record without an encoder is
    /// refused and nothing is written.
    pub fn write(&self, writer: &mut Vec<u8>) -> (res: Result<(), FtfError>)
        ensures
            final(writer)@ == old(writer)@ + self@.encoding(),
            self@.supported() ==> res is Ok,
            !self@.supported() ==> res is Err && res->Err_0@ == self@.write_error(),
    {
        match self {
            Self::Metadata(r) => r.write(writer),
            Self::Initialization(r) => r.write(writer),
            Self::String(r) => r.write(writer),
            Self::Thread(r) => r.write(writer),
            Self::Event(r) => r.write(writer),
            _ => {
                assert(writer@ =~= old(writer)@ + self@.encoding());
                Err(FtfError::Unimplemented("Write".to_string()))
            },
        }
    }
}

/// Decoding a record leaves fewer bytes than there were where it succeeds,
/// and never more.
pub proof fn lemma_parse_record_rest(input: Seq<u8>)
    ensures
        parse_record(input).rest.len() <= input.len(),
        parse_record(input).result is Ok ==> parse_record(input).rest.len() + 8 <= input.len(),
{
    lemma_parse_word_rest(input, 0);
    let head = parse_word(input);
    if head.result is Ok {
        let header = head.result->Ok_0;
        lemma_parse_metadata_record_rest(header, head.rest);
        lemma_parse_word_rest(head.rest, 0);
        lemma_parse_string_record_rest(header, head.rest);
        lemma_parse_thread_record_rest(header, head.rest);
        lemma_parse_event_record_rest(header, head.rest);
    }
}

/// The law of [`lemma_record_roundtrip`] for a metadata record.
proof fn lemma_record_roundtrip_metadata(r: MetadataRecordView, tail: Seq<u8>)
    requires
        r.wf(),
    ensures
        parse_record(r.encoding() + tail) == parsed_ok(RecordView::Metadata(r), tail),
        r.encoding().len() == r.words() * 8,
        spec_extract_bits(r.header(), 4, 15) == r.words(),
{
    lemma_metadata_record_roundtrip(r, tail);
    lemma_join_two(word_bytes(r.header()), r.body(), tail);
    lemma_word_roundtrip(r.header(), r.body() + tail);
}

/// The law of [`lemma_record_roundtrip`] for an initialization record.
proof fn lemma_record_roundtrip_initialization(r: InitializationRecordView, tail: Seq<u8>)
    ensures
        parse_record(r.encoding() + tail) == parsed_ok(RecordView::Initialization(r), tail),
        r.encoding().len() == 16,
        spec_extract_bits(r.header(), 4, 15) == 2,
{
    lemma_initialization_record_roundtrip(r, tail);
    lemma_join_two(word_bytes(r.header()), r.body(), tail);
    lemma_word_roundtrip(r.header(), r.body() + tail);
}

/// The law of [`lemma_record_roundtrip`] for a string record.
proof fn lemma_record_roundtrip_string(r: StringRecordView, tail: Seq<u8>)
    requires
        r.wf(),
    ensures
        parse_record(r.encoding() + tail) == parsed_ok(RecordView::String(r), tail),
        r.encoding().len() == r.words() * 8,
        r.words() < 0x1000 ==> spec_extract_bits(r.header(), 4, 15) == r.words(),
{
    lemma_string_record_roundtrip(r, tail);
    lemma_join_two(word_bytes(r.header()), r.body(), tail);
    lemma_word_roundtrip(r.header(), r.body() + tail);
}

/// The law of [`lemma_record_roundtrip`] for a thread record.
proof fn lemma_record_roundtrip_thread(r: ThreadRecordView, tail: Seq<u8>)
    ensures
        parse_record(r.encoding() + tail) == parsed_ok(RecordView::Thread(r), tail),
        r.encoding().len() == 24,
        spec_extract_bits(r.header(), 4, 15) == 3,
{
    lemma_thread_record_roundtrip(r, tail);
    lemma_join_two(word_bytes(r.header()), r.body(), tail);
    lemma_word_roundtrip(r.header(), r.body() + tail);
}

/// The law of [`lemma_record_roundtrip`] for an event record.
proof fn lemma_record_roundtrip_event(r: EventRecordView, tail: Seq<u8>)
    requires
        r.wf(),
    ensures
        parse_record(r.encoding() + tail) == parsed_ok(RecordView::Event(r), tail),
        r.encoding().len() == r.words() * 8,
        r.words() < 0x1000 ==> spec_extract_bits(r.header(), 4, 15) == r.words(),
{
    lemma_event_record_roundtrip(r, tail);
    let body = r.event().body() + trailing_bytes(r.trailing_word()) + tail;
    lemma_join_three(
        word_bytes(r.header()),
        r.event().body(),
        trailing_bytes(r.trailing_word()),
        tail,
    );
    lemma_join_two(r.event().body(), trailing_bytes(r.trailing_word()), tail);
    lemma_word_roundtrip(r.header(), body);
}

/// A record that can be written and whose header can hold its fields
/// decodes from its own bytes to itself, whatever follows them. Its bytes
/// are as many words as its size, and that size is what its header says
/// where it is below 4096.
pub proof fn lemma_record_roundtrip(record: RecordView, tail: Seq<u8>)
    requires
        record.wf(),
    ensures
        parse_record(record.encoding() + tail) == parsed_ok(record, tail),
        record.encoding().len() == record.words() * 8,
        record.words() < 0x1000 ==> record.encoding().len() == spec_extract_bits(
            record.header(),
            4,
            15,
        ) * 8,
{
    match record {
        RecordView::Metadata(r) => lemma_record_roundtrip_metadata(r, tail),
        RecordView::Initialization(r) => lemma_record_roundtrip_initialization(r, tail),
        RecordView::String(r) => lemma_record_roundtrip_string(r, tail),
        RecordView::Thread(r) => lemma_record_roundtrip_thread(r, tail),
        RecordView::Event(r) => lemma_record_roundtrip_event(r, tail),
        _ => {},
    }
}

} // verus!
