//! Event records.

use vstd::prelude::*;
use crate::argument::{
    lemma_argument_roundtrip, lemma_parse_argument_rest, parse_argument, Argument, ArgumentView,
};
use crate::bitutils::{extract_bits, lemma_mask_length_fits, spec_extract_bits};
use crate::error::{outcome, parsed_err, parsed_ok, ErrorView, FtfError, Parsed};
use crate::header::{
    fields_width, header_word, lemma_fields_width_take, lemma_header_decodes, parse_record_type,
    CustomField, RecordHeader, RecordType,
};
use crate::refs::{
    lemma_parse_ref_rest, lemma_string_ref_roundtrip, lemma_thread_ref_roundtrip,
    parse_string_ref, parse_thread_ref,
    StringRef, StringRefView, ThreadRef,
};
use crate::source::ByteSource;
use crate::wordutils::{
    lemma_join_nothing, lemma_join_three, lemma_join_two, lemma_parse_word_rest,
    lemma_word_roundtrip, parse_word, read_u64_word, word_bytes, write_u64_word,
};

verus! {

/// The subtype of an event record.
#[derive(Debug, Clone, Copy, PartialEq, Eq, Structural)]
pub enum EventType {
    Instant,
    Counter,
    DurationBegin,
    DurationEnd,
    DurationComplete,
    AsyncBegin,
    AsyncInstant,
    AsyncEnd,
    FlowBegin,
    FlowStep,
    FlowEnd,
}

/// An event subtype tag that names no event type.
#[derive(Clone, Copy, Debug, Eq, PartialEq, Structural)]
pub struct EventTypeParseError(pub u8);

/// The event type that a 4-bit tag names, if any.
pub open spec fn event_type_of(tag: u8) -> Option<EventType> {
    match tag {
        0 => Some(EventType::Instant),
        1 => Some(EventType::Counter),
        2 => Some(EventType::DurationBegin),
        3 => Some(EventType::DurationEnd),
        4 => Some(EventType::DurationComplete),
        5 => Some(EventType::AsyncBegin),
        6 => Some(EventType::AsyncInstant),
        7 => Some(EventType::AsyncEnd),
        8 => Some(EventType::FlowBegin),
        9 => Some(EventType::FlowStep),
        10 => Some(EventType::FlowEnd),
        _ => None,
    }
}

impl View for EventType {
    type V = EventType;

    open spec fn view(&self) -> EventType {
        *self
    }
}

impl EventType {
    /// The tag that stands for this event type in bits 16–19 of a header.
    pub open spec fn spec_tag(self) -> u8 {
        match self {
            EventType::Instant => 0,
            EventType::Counter => 1,
            EventType::DurationBegin => 2,
            EventType::DurationEnd => 3,
            EventType::DurationComplete => 4,
            EventType::AsyncBegin => 5,
            EventType::AsyncInstant => 6,
            EventType::AsyncEnd => 7,
            EventType::FlowBegin => 8,
            EventType::FlowStep => 9,
            EventType::FlowEnd => 10,
        }
    }

    /// The tag that stands for this event type in bits 16–19 of a header.
    pub fn tag(self) -> (tag: u8)
        ensures
            tag == self.spec_tag(),
            event_type_of(tag) == Some(self),
    {
        match self {
            EventType::Instant => 0,
            EventType::Counter => 1,
            EventType::DurationBegin => 2,
            EventType::DurationEnd => 3,
            EventType::DurationComplete => 4,
            EventType::AsyncBegin => 5,
            EventType::AsyncInstant => 6,
            EventType::AsyncEnd => 7,
            EventType::FlowBegin => 8,
            EventType::FlowStep => 9,
            EventType::FlowEnd => 10,
        }
    }

    /// The event type that `value` names; the value itself comes back where
    /// it names none.
    pub fn try_from(value: u8) -> (res: Result<Self, EventTypeParseError>)
        ensures
            res == match event_type_of(value) {
                Some(t) => Ok::<EventType, EventTypeParseError>(t),
                None => Err(EventTypeParseError(value)),
            },
    {
        match value {
            0 => Ok(Self::Instant),
            1 => Ok(Self::Counter),
            2 => Ok(Self::DurationBegin),
            3 => Ok(Self::DurationEnd),
            4 => Ok(Self::DurationComplete),
            5 => Ok(Self::AsyncBegin),
            6 => Ok(Self::AsyncInstant),
            7 => Ok(Self::AsyncEnd),
            8 => Ok(Self::FlowBegin),
            9 => Ok(Self::FlowStep),
            10 => Ok(Self::FlowEnd),
            _ => Err(EventTypeParseError(value)),
        }
    }
}

/// The models of `arguments`, in order.
pub open spec fn arguments_view(arguments: Seq<Argument>) -> Seq<ArgumentView> {
    arguments.map_values(|a: Argument| a@)
}

/// The sizes in words of `arguments`, summed.
pub open spec fn arguments_words(arguments: Seq<ArgumentView>) -> nat
    decreases arguments.len(),
{
    if arguments.len() == 0 {
        0
    } else {
        arguments[0].words() + arguments_words(arguments.drop_first())
    }
}

/// The bytes of `arguments`, one after the other.
pub open spec fn encode_arguments(arguments: Seq<ArgumentView>) -> Seq<u8>
    decreases arguments.len(),
{
    if arguments.len() == 0 {
        Seq::empty()
    } else {
        arguments[0].encoding() + encode_arguments(arguments.drop_first())
    }
}

/// What decoding `count` more arguments makes of `input`, after `done` have
/// been decoded: the first failure ends it.
pub open spec fn parse_arguments(done: Seq<ArgumentView>, count: nat, input: Seq<u8>) -> Parsed<
    Seq<ArgumentView>,
>
    decreases count,
{
    if count == 0 {
        parsed_ok(done, input)
    } else {
        let first = parse_argument(input);
        match first.result {
            Ok(a) => parse_arguments(done.push(a), (count - 1) as nat, first.rest),
            Err(e) => parsed_err(e, first.rest),
        }
    }
}

/// The part that all event records share.
#[derive(Debug, Clone, PartialEq, Eq)]
pub struct Event {
    timestamp: u64,
    thread: ThreadRef,
    category: StringRef,
    name: StringRef,
    arguments: Vec<Argument>,
}

/// The model of an [`Event`].
pub struct EventView {
    pub timestamp: u64,
    pub thread: ThreadRef,
    pub category: StringRefView,
    pub name: StringRefView,
    pub arguments: Seq<ArgumentView>,
}

impl View for Event {
    type V = EventView;

    closed spec fn view(&self) -> EventView {
        EventView {
            timestamp: self.timestamp,
            thread: self.thread,
            category: self.category@,
            name: self.name@,
            arguments: arguments_view(self.arguments@),
        }
    }
}

/// The bytes of the trailing word of an event record, if it has one.
pub open spec fn trailing_bytes(extra: Option<u64>) -> Seq<u8> {
    match extra {
        Some(word) => word_bytes(word),
        None => Seq::empty(),
    }
}

impl EventView {
    /// The size in words of a record of this event: header, timestamp, the
    /// inline payloads, the arguments, and the trailing word if there is one.
    pub open spec fn words(self, trailing: bool) -> nat {
        2 + self.thread.words() + self.category.words() + self.name.words() + arguments_words(
            self.arguments,
        ) + if trailing {
            1nat
        } else {
            0nat
        }
    }

    /// The custom fields of the header: subtype, argument count, thread-ref,
    /// category and name.
    pub open spec fn header_fields(self, event_type: EventType) -> Seq<CustomField> {
        seq![
            CustomField { width: 4, value: event_type.spec_tag() as u64 },
            CustomField { width: 4, value: self.arguments.len() as u64 },
            CustomField { width: 8, value: self.thread.field() as u64 },
            CustomField { width: 16, value: self.category.field() as u64 },
            CustomField { width: 16, value: self.name.field() as u64 },
        ]
    }

    /// The header word.
    pub open spec fn header(self, event_type: EventType, trailing: bool) -> u64 {
        header_word(
            RecordType::Event,
            (self.words(trailing) % 0x1000) as u16,
            self.header_fields(event_type),
        )
    }

    /// The bytes between the header and the trailing word: timestamp,
    /// inline thread, inline category, inline name, arguments.
    pub open spec fn body(self) -> Seq<u8> {
        word_bytes(self.timestamp) + self.thread.payload() + self.category.payload()
            + self.name.payload() + encode_arguments(self.arguments)
    }

    /// The bytes of a record of this event on the wire: header, body,
    /// trailing word.
    pub open spec fn encoding(self, event_type: EventType, extra: Option<u64>) -> Seq<u8> {
        word_bytes(self.header(event_type, extra is Some)) + self.body() + trailing_bytes(extra)
    }

    /// Whether the header can hold this event: each ref fits its field, and
    /// there are at most 15 arguments, each of which fits its own header.
    pub open spec fn wf(self) -> bool {
        &&& self.thread.wf()
        &&& self.category.wf()
        &&& self.name.wf()
        &&& self.arguments.len() <= 15
        &&& forall|i: int| 0 <= i < self.arguments.len() ==> (#[trigger] self.arguments[i]).wf()
    }
}

/// What decoding the shared part of an event record makes of its header word
/// and the bytes after it.
pub open spec fn parse_event(header: u64, input: Seq<u8>) -> Parsed<(EventType, EventView)> {
    let tag = spec_extract_bits(header, 16, 19) as u8;
    match event_type_of(tag) {
        None => parsed_err(ErrorView::InvalidEventType(tag), input),
        Some(event_type) => {
            let timestamp = parse_word(input);
            match timestamp.result {
                Err(e) => parsed_err(e, timestamp.rest),
                Ok(ts) => {
                    let thread = parse_thread_ref(
                        spec_extract_bits(header, 24, 31) as u8,
                        timestamp.rest,
                    );
                    match thread.result {
                        Err(e) => parsed_err(e, thread.rest),
                        Ok(t) => parse_event_strings(header, event_type, ts, t, thread.rest),
                    }
                },
            }
        },
    }
}

/// The rest of [`parse_event`], from the category on.
pub open spec fn parse_event_strings(
    header: u64,
    event_type: EventType,
    timestamp: u64,
    thread: ThreadRef,
    input: Seq<u8>,
) -> Parsed<(EventType, EventView)> {
    let category = parse_string_ref(spec_extract_bits(header, 32, 47) as u16, input);
    match category.result {
        Err(e) => parsed_err(e, category.rest),
        Ok(c) => {
            let name = parse_string_ref(spec_extract_bits(header, 48, 63) as u16, category.rest);
            match name.result {
                Err(e) => parsed_err(e, name.rest),
                Ok(n) => {
                    let arguments = parse_arguments(
                        Seq::empty(),
                        spec_extract_bits(header, 20, 23) as nat,
                        name.rest,
                    );
                    match arguments.result {
                        Err(e) => parsed_err(e, arguments.rest),
                        Ok(a) => parsed_ok(
                            (
                                event_type,
                                EventView {
                                    timestamp,
                                    thread,
                                    category: c,
                                    name: n,
                                    arguments: a,
                                },
                            ),
                            arguments.rest,
                        ),
                    }
                },
            }
        },
    }
}

/// Appending one argument appends its bytes and adds its words.
pub proof fn lemma_arguments_push(arguments: Seq<ArgumentView>, last: ArgumentView)
    ensures
        encode_arguments(arguments.push(last)) == encode_arguments(arguments) + last.encoding(),
        arguments_words(arguments.push(last)) == arguments_words(arguments) + last.words(),
    decreases arguments.len(),
{
    if arguments.len() == 0 {
        assert(arguments.push(last).drop_first() =~= Seq::<ArgumentView>::empty());
        assert(encode_arguments(Seq::<ArgumentView>::empty()) =~= Seq::<u8>::empty());
        assert(arguments_words(Seq::<ArgumentView>::empty()) == 0);
        assert(encode_arguments(arguments.push(last)) =~= last.encoding());
        assert(encode_arguments(arguments) + last.encoding() =~= last.encoding());
    } else {
        assert(arguments.push(last).drop_first() =~= arguments.drop_first().push(last));
        lemma_arguments_push(arguments.drop_first(), last);
        assert(encode_arguments(arguments.push(last)) =~= encode_arguments(arguments)
            + last.encoding());
    }
}

impl Event {
    /// An event from its parts.
    pub fn new(
        timestamp: u64,
        thread: ThreadRef,
        category: StringRef,
        name: StringRef,
        arguments: Vec<Argument>,
    ) -> (event: Self)
        ensures
            event@ == (EventView {
                timestamp,
                thread,
                category: category@,
                name: name@,
                arguments: arguments_view(arguments@),
            }),
    {
        Self { timestamp, thread, category, name, arguments }
    }

    /// The time of the event, in ticks.
    pub fn timestamp(&self) -> (timestamp: u64)
        ensures
            timestamp == self@.timestamp,
    {
        self.timestamp
    }

    /// The thread of the event.
    pub fn thread(&self) -> (thread: &ThreadRef)
        ensures
            *thread == self@.thread,
    {
        &self.thread
    }

    /// The category of the event.
    pub fn category(&self) -> (category: &StringRef)
        ensures
            category@ == self@.category,
    {
        &self.category
    }

    /// The name of the event.
    pub fn name(&self) -> (name: &StringRef)
        ensures
            name@ == self@.name,
    {
        &self.name
    }

    /// The arguments of the event.
    pub fn arguments(&self) -> (arguments: &[Argument])
        ensures
            arguments_view(arguments@) == self@.arguments,
    {
        self.arguments.as_slice()
    }

    /// The size in words of a record of this event, reduced to the 12 bits
    /// of the header's size field.
    fn size_field(&self, trailing: bool) -> (size: u16)
        ensures
            size == self@.words(trailing) % 0x1000,
    {
        let mut num_words: u128 = 2 + self.thread.encoding_num_words() as u128
            + self.category.encoding_num_words() as u128 + self.name.encoding_num_words() as u128;
        if trailing {
            num_words = num_words + 1;
        }
        let ghost fixed = self@.words(trailing) - arguments_words(self@.arguments);
        let mut i: usize = 0;
        assert(self@.arguments.take(0) =~= Seq::<ArgumentView>::empty());
        while i < self.arguments.len()
            invariant
                i <= self.arguments.len(),
                self@.arguments == arguments_view(self.arguments@),
                num_words == fixed + arguments_words(self@.arguments.take(i as int)),
                num_words <= (i + 1) * 0x8000_0000_0000_0000,
            decreases self.arguments.len() - i,
        {
            let arg_words = self.arguments[i].encoding_num_words();
            proof {
                assert(self@.arguments.take(i as int + 1) =~= self@.arguments.take(i as int).push(
                    self.arguments[i as int]@,
                ));
                lemma_arguments_push(self@.arguments.take(i as int), self.arguments[i as int]@);
            }
            num_words = num_words + arg_words as u128;
            i = i + 1;
        }
        assert(self@.arguments.take(i as int) =~= self@.arguments);
        (num_words % 0x1000) as u16
    }

    /// Appends the arguments of this event, in order.
    fn write_arguments(&self, writer: &mut Vec<u8>) -> (res: Result<(), FtfError>)
        ensures
            res is Ok,
            final(writer)@ == old(writer)@ + encode_arguments(self@.arguments),
    {
        let mut i: usize = 0;
        assert(self@.arguments.take(0) =~= Seq::<ArgumentView>::empty());
        assert(writer@ =~= old(writer)@ + encode_arguments(self@.arguments.take(0)));
        while i < self.arguments.len()
            invariant
                i <= self.arguments.len(),
                self@.arguments == arguments_view(self.arguments@),
                writer@ == old(writer)@ + encode_arguments(self@.arguments.take(i as int)),
            decreases self.arguments.len() - i,
        {
            self.arguments[i].write(writer)?;
            proof {
                assert(self@.arguments.take(i as int + 1) =~= self@.arguments.take(i as int).push(
                    self.arguments[i as int]@,
                ));
                lemma_arguments_push(self@.arguments.take(i as int), self.arguments[i as int]@);
                assert(writer@ =~= old(writer)@ + encode_arguments(
                    self@.arguments.take(i as int + 1),
                ));
            }
            i = i + 1;
        }
        assert(self@.arguments.take(i as int) =~= self@.arguments);
        Ok(())
    }

    /// The header word of a record of this event.
    fn header(&self, event_type: EventType, trailing: bool) -> (res: Result<RecordHeader, FtfError>)
        ensures
            res is Ok,
            res->Ok_0@ == self@.header(event_type, trailing),
    {
        RecordHeader::build_event_header(
            self.size_field(trailing),
            event_type,
            self.arguments.len(),
            self.thread.to_field(),
            self.category.to_field(),
            self.name.to_field(),
        )
    }

    /// Appends the record of this event as one of type `event_type`, with
    /// the trailing word if one is given.
    pub fn write_event(
        &self,
        writer: &mut Vec<u8>,
        event_type: EventType,
        event_extra_word: Option<u64>,
    ) -> (res: Result<(), FtfError>)
        ensures
            res is Ok,
            final(writer)@ == old(writer)@ + self@.encoding(event_type, event_extra_word),
    {
        let header = self.header(event_type, event_extra_word.is_some())?;
        let ghost start = writer@;
        write_u64_word(writer, header.value());
        write_u64_word(writer, self.timestamp);
        self.thread.write_payload(writer)?;
        self.category.write_payload(writer)?;
        self.name.write_payload(writer)?;
        self.write_arguments(writer)?;
        if let Some(extra) = event_extra_word {
            write_u64_word(writer, extra);
        }
        proof {
            lemma_record_bytes(
                start,
                word_bytes(header@),
                word_bytes(self@.timestamp),
                self@.thread.payload(),
                self@.category.payload(),
                self@.name.payload(),
                encode_arguments(self@.arguments),
                trailing_bytes(event_extra_word),
            );
        }
        Ok(())
    }
}

/// The runs of bytes of an event record, appended one by one, are the
/// header, the body and the trailing word appended as one.
proof fn lemma_record_bytes(
    start: Seq<u8>,
    header: Seq<u8>,
    timestamp: Seq<u8>,
    thread: Seq<u8>,
    category: Seq<u8>,
    name: Seq<u8>,
    arguments: Seq<u8>,
    trailing: Seq<u8>,
)
    ensures
        start + header + timestamp + thread + category + name + arguments + trailing == start + (
        header + (timestamp + thread + category + name + arguments) + trailing),
        start + header + timestamp + thread + category + name + arguments == start + (header + (
        timestamp + thread + category + name + arguments) + Seq::<u8>::empty()),
{
    assert(start + header + timestamp + thread + category + name + arguments + trailing =~= start
        + (header + (timestamp + thread + category + name + arguments) + trailing));
    assert(start + header + timestamp + thread + category + name + arguments =~= start + (header
        + (timestamp + thread + category + name + arguments) + Seq::<u8>::empty()));
}

/// The custom fields of an event header fill bits 16–63 exactly.
pub proof fn lemma_event_fields_width(event: EventView, event_type: EventType)
    ensures
        fields_width(event.header_fields(event_type)) == 48,
{
    let f = event.header_fields(event_type);
    assert(f.drop_first().drop_first().drop_first().drop_first().drop_first().len() == 0);
    reveal_with_fuel(fields_width, 6);
}

/// An event at one point in time.
#[derive(Debug, Clone, PartialEq, Eq)]
pub struct Instant {
    event: Event,
}

impl View for Instant {
    type V = EventView;

    closed spec fn view(&self) -> EventView {
        self.event@
    }
}

impl Instant {
    /// An instant event from its parts.
    pub fn new(
        timestamp: u64,
        thread: ThreadRef,
        category: StringRef,
        name: StringRef,
        arguments: Vec<Argument>,
    ) -> (instant: Self)
        ensures
            instant@ == (EventView {
                timestamp,
                thread,
                category: category@,
                name: name@,
                arguments: arguments_view(arguments@),
            }),
    {
        Self { event: Event::new(timestamp, thread, category, name, arguments) }
    }

    /// The part shared with the other event records.
    pub fn event(&self) -> (event: &Event)
        ensures
            event@ == self@,
    {
        &self.event
    }

    fn write(&self, writer: &mut Vec<u8>) -> (res: Result<(), FtfError>)
        ensures
            res is Ok,
            final(writer)@ == old(writer)@ + self@.encoding(EventType::Instant, None),
    {
        self.event.write_event(writer, EventType::Instant, None)
    }
}

/// A sample of a counter.
#[derive(Debug, Clone, PartialEq, Eq)]
pub struct Counter {
    event: Event,
    counter_id: u64,
}

impl View for Counter {
    type V = (EventView, u64);

    closed spec fn view(&self) -> (EventView, u64) {
        (self.event@, self.counter_id)
    }
}

impl Counter {
    /// A counter event from its parts.
    pub fn new(
        timestamp: u64,
        thread: ThreadRef,
        category: StringRef,
        name: StringRef,
        arguments: Vec<Argument>,
        counter_id: u64,
    ) -> (counter: Self)
        ensures
            counter@ == (
                EventView {
                    timestamp,
                    thread,
                    category: category@,
                    name: name@,
                    arguments: arguments_view(arguments@),
                },
                counter_id,
            ),
    {
        Self { event: Event::new(timestamp, thread, category, name, arguments), counter_id }
    }

    /// The part shared with the other event records.
    pub fn event(&self) -> (event: &Event)
        ensures
            event@ == self@.0,
    {
        &self.event
    }

    /// The id that ties the samples of one counter together.
    pub fn counter_id(&self) -> (counter_id: u64)
        ensures
            counter_id == self@.1,
    {
        self.counter_id
    }

    fn parse(reader: &mut ByteSource, event: Event) -> (res: Result<Self, FtfError>)
        ensures
            outcome(res) == parse_trailing_word(event@, old(reader).remaining()).result,
            final(reader).remaining() == parse_trailing_word(event@, old(reader).remaining()).rest,
    {
        let counter_id = read_u64_word(reader)?;
        Ok(Self { event, counter_id })
    }

    fn write(&self, writer: &mut Vec<u8>) -> (res: Result<(), FtfError>)
        ensures
            res is Ok,
            final(writer)@ == old(writer)@ + self@.0.encoding(
                EventType::Counter,
                Some(self@.1),
            ),
    {
        self.event.write_event(writer, EventType::Counter, Some(self.counter_id))
    }
}

/// The start of an operation on a thread.
#[derive(Debug, Clone, PartialEq, Eq)]
pub struct DurationBegin {
    event: Event,
}

impl View for DurationBegin {
    type V = EventView;

    closed spec fn view(&self) -> EventView {
        self.event@
    }
}

impl DurationBegin {
    /// A duration-begin event from its parts.
    pub fn new(
        timestamp: u64,
        thread: ThreadRef,
        category: StringRef,
        name: StringRef,
        arguments: Vec<Argument>,
    ) -> (begin: Self)
        ensures
            begin@ == (EventView {
                timestamp,
                thread,
                category: category@,
                name: name@,
                arguments: arguments_view(arguments@),
            }),
    {
        Self { event: Event::new(timestamp, thread, category, name, arguments) }
    }

    /// The part shared with the other event records.
    pub fn event(&self) -> (event: &Event)
        ensures
            event@ == self@,
    {
        &self.event
    }

    fn write(&self, writer: &mut Vec<u8>) -> (res: Result<(), FtfError>)
        ensures
            res is Ok,
            final(writer)@ == old(writer)@ + self@.encoding(EventType::DurationBegin, None),
    {
        self.event.write_event(writer, EventType::DurationBegin, None)
    }
}

/// The end of an operation on a thread.
#[derive(Debug, Clone, PartialEq, Eq)]
pub struct DurationEnd {
    event: Event,
}

impl View for DurationEnd {
    type V = EventView;

    closed spec fn view(&self) -> EventView {
        self.event@
    }
}

impl DurationEnd {
    /// A duration-end event from its parts.
    pub fn new(
        timestamp: u64,
        thread: ThreadRef,
        category: StringRef,
        name: StringRef,
        arguments: Vec<Argument>,
    ) -> (end: Self)
        ensures
            end@ == (EventView {
                timestamp,
                thread,
                category: category@,
                name: name@,
                arguments: arguments_view(arguments@),
            }),
    {
        Self { event: Event::new(timestamp, thread, category, name, arguments) }
    }

    /// The part shared with the other event records.
    pub fn event(&self) -> (event: &Event)
        ensures
            event@ == self@,
    {
        &self.event
    }

    fn write(&self, writer: &mut Vec<u8>) -> (res: Result<(), FtfError>)
        ensures
            res is Ok,
            final(writer)@ == old(writer)@ + self@.encoding(EventType::DurationEnd, None),
    {
        self.event.write_event(writer, EventType::DurationEnd, None)
    }
}

/// A whole operation on a thread, with its start and its end.
#[derive(Debug, Clone, PartialEq, Eq)]
pub struct DurationComplete {
    event: Event,
    end_ts: u64,
}

impl View for DurationComplete {
    type V = (EventView, u64);

    closed spec fn view(&self) -> (EventView, u64) {
        (self.event@, self.end_ts)
    }
}

impl DurationComplete {
    /// A duration-complete event from its parts.
    pub fn new(
        timestamp: u64,
        thread: ThreadRef,
        category: StringRef,
        name: StringRef,
        arguments: Vec<Argument>,
        end_ts: u64,
    ) -> (complete: Self)
        ensures
            complete@ == (
                EventView {
                    timestamp,
                    thread,
                    category: category@,
                    name: name@,
                    arguments: arguments_view(arguments@),
                },
                end_ts,
            ),
    {
        Self { event: Event::new(timestamp, thread, category, name, arguments), end_ts }
    }

    /// The part shared with the other event records.
    pub fn event(&self) -> (event: &Event)
        ensures
            event@ == self@.0,
    {
        &self.event
    }

    /// The time at which the operation ended, in ticks.
    pub fn end_ts(&self) -> (end_ts: u64)
        ensures
            end_ts == self@.1,
    {
        self.end_ts
    }

    fn parse(reader: &mut ByteSource, event: Event) -> (res: Result<Self, FtfError>)
        ensures
            outcome(res) == parse_trailing_word(event@, old(reader).remaining()).result,
            final(reader).remaining() == parse_trailing_word(event@, old(reader).remaining()).rest,
    {
        let duration_ticks = read_u64_word(reader)?;
        Ok(Self { event, end_ts: duration_ticks })
    }

    fn write(&self, writer: &mut Vec<u8>) -> (res: Result<(), FtfError>)
        ensures
            res is Ok,
            final(writer)@ == old(writer)@ + self@.0.encoding(
                EventType::DurationComplete,
                Some(self@.1),
            ),
    {
        self.event.write_event(writer, EventType::DurationComplete, Some(self.end_ts))
    }
}

/// What decoding the trailing word of an event record makes of `input`.
pub open spec fn parse_trailing_word(event: EventView, input: Seq<u8>) -> Parsed<(EventView, u64)> {
    let word = parse_word(input);
    match word.result {
        Ok(w) => parsed_ok((event, w), word.rest),
        Err(e) => parsed_err(e, word.rest),
    }
}

/// An event record of any subtype. The async and flow subtypes are known by
/// name only.
#[derive(Debug, Clone, PartialEq, Eq)]
pub enum EventRecord {
    Instant(Instant),
    Counter(Counter),
    DurationBegin(DurationBegin),
    DurationEnd(DurationEnd),
    DurationComplete(DurationComplete),
    AsyncBegin,
    AsyncEnd,
    AsyncInstant,
    FlowBegin,
    FlowEnd,
    FlowStep,
}

/// The model of an [`EventRecord`].
pub enum EventRecordView {
    Instant(EventView),
    Counter(EventView, u64),
    DurationBegin(EventView),
    DurationEnd(EventView),
    DurationComplete(EventView, u64),
    AsyncBegin,
    AsyncEnd,
    AsyncInstant,
    FlowBegin,
    FlowEnd,
    FlowStep,
}

impl View for EventRecord {
    type V = EventRecordView;

    open spec fn view(&self) -> EventRecordView {
        match self {
            EventRecord::Instant(e) => EventRecordView::Instant(e@),
            EventRecord::Counter(e) => EventRecordView::Counter(e@.0, e@.1),
            EventRecord::DurationBegin(e) => EventRecordView::DurationBegin(e@),
            EventRecord::DurationEnd(e) => EventRecordView::DurationEnd(e@),
            EventRecord::DurationComplete(e) => EventRecordView::DurationComplete(e@.0, e@.1),
            EventRecord::AsyncBegin => EventRecordView::AsyncBegin,
            EventRecord::AsyncEnd => EventRecordView::AsyncEnd,
            EventRecord::AsyncInstant => EventRecordView::AsyncInstant,
            EventRecord::FlowBegin => EventRecordView::FlowBegin,
            EventRecord::FlowEnd => EventRecordView::FlowEnd,
            EventRecord::FlowStep => EventRecordView::FlowStep,
        }
    }
}

impl EventRecordView {
    /// Whether this subtype has an encoder and a decoder.
    pub open spec fn supported(self) -> bool {
        self is Instant || self is Counter || self is DurationBegin || self is DurationEnd
            || self is DurationComplete
    }

    /// The shared part of a supported record.
    pub open spec fn event(self) -> EventView
        recommends
            self.supported(),
    {
        match self {
            EventRecordView::Instant(e) => e,
            EventRecordView::Counter(e, _) => e,
            EventRecordView::DurationBegin(e) => e,
            EventRecordView::DurationEnd(e) => e,
            EventRecordView::DurationComplete(e, _) => e,
            _ => arbitrary(),
        }
    }

    /// The subtype.
    pub open spec fn event_type(self) -> EventType {
        match self {
            EventRecordView::Instant(_) => EventType::Instant,
            EventRecordView::Counter(_, _) => EventType::Counter,
            EventRecordView::DurationBegin(_) => EventType::DurationBegin,
            EventRecordView::DurationEnd(_) => EventType::DurationEnd,
            EventRecordView::DurationComplete(_, _) => EventType::DurationComplete,
            EventRecordView::AsyncBegin => EventType::AsyncBegin,
            EventRecordView::AsyncEnd => EventType::AsyncEnd,
            EventRecordView::AsyncInstant => EventType::AsyncInstant,
            EventRecordView::FlowBegin => EventType::FlowBegin,
            EventRecordView::FlowEnd => EventType::FlowEnd,
            EventRecordView::FlowStep => EventType::FlowStep,
        }
    }

    /// The trailing word: the counter id, or the end of a complete duration.
    pub open spec fn trailing_word(self) -> Option<u64> {
        match self {
            EventRecordView::Counter(_, id) => Some(id),
            EventRecordView::DurationComplete(_, end) => Some(end),
            _ => None,
        }
    }

    /// The size of a supported record in words.
    pub open spec fn words(self) -> nat
        recommends
            self.supported(),
    {
        self.event().words(self.trailing_word() is Some)
    }

    /// The header word of a supported record.
    pub open spec fn header(self) -> u64
        recommends
            self.supported(),
    {
        self.event().header(self.event_type(), self.trailing_word() is Some)
    }

    /// The bytes of the record on the wire; none where the subtype has no
    /// encoder.
    pub open spec fn encoding(self) -> Seq<u8> {
        if self.supported() {
            self.event().encoding(self.event_type(), self.trailing_word())
        } else {
            Seq::empty()
        }
    }

    /// Whether the record can be written and read back: its subtype is
    /// supported and its header can hold it.
    pub open spec fn wf(self) -> bool {
        self.supported() && self.event().wf()
    }
}

/// The message of the error that meets an event subtype without a decoder.
pub open spec fn unimplemented_message(event_type: EventType) -> Seq<char> {
    match event_type {
        EventType::AsyncBegin => "AsyncBegin event type not implemented"@,
        EventType::AsyncEnd => "AsyncEnd event type not implemented"@,
        EventType::AsyncInstant => "AsyncInstant event type not implemented"@,
        EventType::FlowBegin => "FlowBegin event type not implemented"@,
        EventType::FlowStep => "FlowStep event type not implemented"@,
        _ => "FlowEnd event type not implemented"@,
    }
}

/// What decoding an event record makes of its header word and the bytes
/// after it: the shared part, then the trailing word of a counter or a
/// complete duration; the async and flow subtypes are refused once their
/// shared part has been read.
pub open spec fn parse_event_record(header: u64, input: Seq<u8>) -> Parsed<EventRecordView> {
    let shared = parse_event(header, input);
    match shared.result {
        Err(e) => parsed_err(e, shared.rest),
        Ok((event_type, event)) => match event_type {
            EventType::Instant => parsed_ok(EventRecordView::Instant(event), shared.rest),
            EventType::DurationBegin => parsed_ok(
                EventRecordView::DurationBegin(event),
                shared.rest,
            ),
            EventType::DurationEnd => parsed_ok(EventRecordView::DurationEnd(event), shared.rest),
            EventType::Counter => {
                let trailing = parse_trailing_word(event, shared.rest);
                match trailing.result {
                    Ok((e, id)) => parsed_ok(EventRecordView::Counter(e, id), trailing.rest),
                    Err(e) => parsed_err(e, trailing.rest),
                }
            },
            EventType::DurationComplete => {
                let trailing = parse_trailing_word(event, shared.rest);
                match trailing.result {
                    Ok((e, end)) => parsed_ok(
                        EventRecordView::DurationComplete(e, end),
                        trailing.rest,
                    ),
                    Err(e) => parsed_err(e, trailing.rest),
                }
            },
            _ => parsed_err(
                ErrorView::Unimplemented(unimplemented_message(event_type)),
                shared.rest,
            ),
        },
    }
}

impl EventRecord {
    /// An instant event record.
    pub fn create_instant(
        timestamp: u64,
        thread: ThreadRef,
        category: StringRef,
        name: StringRef,
        arguments: Vec<Argument>,
    ) -> (record: Self)
        ensures
            record@ == EventRecordView::Instant(
                EventView {
                    timestamp,
                    thread,
                    category: category@,
                    name: name@,
                    arguments: arguments_view(arguments@),
                },
            ),
    {
        Self::Instant(Instant::new(timestamp, thread, category, name, arguments))
    }

    /// A counter event record.
    pub fn create_counter(
        timestamp: u64,
        thread: ThreadRef,
        category: StringRef,
        name: StringRef,
        arguments: Vec<Argument>,
        counter_id: u64,
    ) -> (record: Self)
        ensures
            record@ == EventRecordView::Counter(
                EventView {
                    timestamp,
                    thread,
                    category: category@,
                    name: name@,
                    arguments: arguments_view(arguments@),
                },
                counter_id,
            ),
    {
        Self::Counter(Counter::new(timestamp, thread, category, name, arguments, counter_id))
    }

    /// A duration-begin event record.
    pub fn create_duration_begin(
        timestamp: u64,
        thread: ThreadRef,
        category: StringRef,
        name: StringRef,
        arguments: Vec<Argument>,
    ) -> (record: Self)
        ensures
            record@ == EventRecordView::DurationBegin(
                EventView {
                    timestamp,
                    thread,
                    category: category@,
                    name: name@,
                    arguments: arguments_view(arguments@),
                },
            ),
    {
        Self::DurationBegin(DurationBegin::new(timestamp, thread, category, name, arguments))
    }

    /// A duration-end event record.
    pub fn create_duration_end(
        timestamp: u64,
        thread: ThreadRef,
        category: StringRef,
        name: StringRef,
        arguments: Vec<Argument>,
    ) -> (record: Self)
        ensures
            record@ == EventRecordView::DurationEnd(
                EventView {
                    timestamp,
                    thread,
                    category: category@,
                    name: name@,
                    arguments: arguments_view(arguments@),
                },
            ),
    {
        Self::DurationEnd(DurationEnd::new(timestamp, thread, category, name, arguments))
    }

    /// A duration-complete event record.
    pub fn create_duration_complete(
        timestamp: u64,
        thread: ThreadRef,
        category: StringRef,
        name: StringRef,
        arguments: Vec<Argument>,
        end_ts: u64,
    ) -> (record: Self)
        ensures
            record@ == EventRecordView::DurationComplete(
                EventView {
                    timestamp,
                    thread,
                    category: category@,
                    name: name@,
                    arguments: arguments_view(arguments@),
                },
                end_ts,
            ),
    {
        Self::DurationComplete(
            DurationComplete::new(timestamp, thread, category, name, arguments, end_ts),
        )
    }

    /// Decodes the event record that `header` starts.
    pub fn parse(reader: &mut ByteSource, header: RecordHeader) -> (res: Result<Self, FtfError>)
        ensures
            outcome(res) == parse_event_record(header@, old(reader).remaining()).result,
            final(reader).remaining() == parse_event_record(header@, old(reader).remaining()).rest,
    {
        let (event_type, event) = Self::parse_event(reader, &header)?;
        match event_type {
            EventType::Instant => Ok(Self::Instant(Instant { event })),
            EventType::Counter => Ok(Self::Counter(Counter::parse(reader, event)?)),
            EventType::DurationBegin => Ok(Self::DurationBegin(DurationBegin { event })),
            EventType::DurationEnd => Ok(Self::DurationEnd(DurationEnd { event })),
            EventType::DurationComplete => Ok(
                Self::DurationComplete(DurationComplete::parse(reader, event)?),
            ),
            EventType::AsyncBegin => Err(
                FtfError::Unimplemented("AsyncBegin event type not implemented".to_string()),
            ),
            EventType::AsyncEnd => Err(
                FtfError::Unimplemented("AsyncEnd event type not implemented".to_string()),
            ),
            EventType::AsyncInstant => Err(
                FtfError::Unimplemented("AsyncInstant event type not implemented".to_string()),
            ),
            EventType::FlowBegin => Err(
                FtfError::Unimplemented("FlowBegin event type not implemented".to_string()),
            ),
            EventType::FlowStep => Err(
                FtfError::Unimplemented("FlowStep event type not implemented".to_string()),
            ),
            EventType::FlowEnd => Err(
                FtfError::Unimplemented("FlowEnd event type not implemented".to_string()),
            ),
        }
    }

    /// Reads `count` arguments, one after the other.
    fn read_arguments(reader: &mut ByteSource, count: u8) -> (res: Result<Vec<Argument>, FtfError>)
        ensures
            arguments_outcome(res) == parse_arguments(
                Seq::empty(),
                count as nat,
                old(reader).remaining(),
            ).result,
            final(reader).remaining() == parse_arguments(
                Seq::empty(),
                count as nat,
                old(reader).remaining(),
            ).rest,
    {
        let mut arguments: Vec<Argument> = Vec::with_capacity(count as usize);
        let mut i: u8 = 0;
        assert(arguments_view(arguments@) =~= Seq::<ArgumentView>::empty());
        while i < count
            invariant
                i <= count,
                parse_arguments(
                    arguments_view(arguments@),
                    (count - i) as nat,
                    reader.remaining(),
                ) == parse_arguments(Seq::empty(), count as nat, old(reader).remaining()),
            decreases count - i,
        {
            let ghost done = arguments_view(arguments@);
            let arg = Argument::read(reader)?;
            arguments.push(arg);
            assert(arguments_view(arguments@) =~= done.push(arg@));
            i = i + 1;
        }
        Ok(arguments)
    }

    /// Decodes the part that all event records share, with the subtype.
    pub fn parse_event(reader: &mut ByteSource, header: &RecordHeader) -> (res: Result<
        (EventType, Event),
        FtfError,
    >)
        ensures
            outcome(res) == parse_event(header@, old(reader).remaining()).result,
            final(reader).remaining() == parse_event(header@, old(reader).remaining()).rest,
    {
        let word = header.value();
        proof {
            lemma_event_field_bounds(word);
        }
        let event_type = extract_bits(word, 16, 19) as u8;
        let n_args = extract_bits(word, 20, 23) as u8;
        let thread = extract_bits(word, 24, 31) as u8;
        let category = extract_bits(word, 32, 47) as u16;
        let name = extract_bits(word, 48, 63) as u16;

        let event_type = match EventType::try_from(event_type) {
            Ok(t) => t,
            Err(e) => {
                return Err(FtfError::InvalidEventType(e));
            },
        };

        let timestamp = read_u64_word(reader)?;
        let thread = ThreadRef::read(reader, thread)?;
        let category = StringRef::read(reader, category)?;
        let name = StringRef::read(reader, name)?;

        let arguments = Self::read_arguments(reader, n_args)?;

        Ok((event_type, Event { timestamp, thread, category, name, arguments }))
    }

    /// Appends this record. The async and flow subtypes have no encoder:
    /// they are refused and nothing is written.
    pub fn write(&self, writer: &mut Vec<u8>) -> (res: Result<(), FtfError>)
        ensures
            final(writer)@ == old(writer)@ + self@.encoding(),
            self@.supported() ==> res is Ok,
            !self@.supported() ==> res is Err && res->Err_0@ == ErrorView::Unimplemented(
                "Write not implemented for this type yet"@,
            ),
    {
        match self {
            EventRecord::Counter(e) => e.write(writer),
            EventRecord::Instant(e) => e.write(writer),
            EventRecord::DurationBegin(e) => e.write(writer),
            EventRecord::DurationEnd(e) => e.write(writer),
            EventRecord::DurationComplete(e) => e.write(writer),
            _ => {
                assert(writer@ =~= old(writer)@ + self@.encoding());
                Err(FtfError::Unimplemented("Write not implemented for this type yet".to_string()))
            },
        }
    }
}

/// The model of what a decoder of an argument list returned.
pub open spec fn arguments_outcome(res: Result<Vec<Argument>, FtfError>) -> Result<
    Seq<ArgumentView>,
    ErrorView,
> {
    match res {
        Ok(arguments) => Ok(arguments_view(arguments@)),
        Err(e) => Err(e@),
    }
}

/// Arguments that fit their headers decode from their own bytes to
/// themselves, in order, whatever follows; and their bytes are as many words
/// as their sizes add up to.
pub proof fn lemma_arguments_roundtrip(
    done: Seq<ArgumentView>,
    arguments: Seq<ArgumentView>,
    tail: Seq<u8>,
)
    requires
        forall|i: int| 0 <= i < arguments.len() ==> (#[trigger] arguments[i]).wf(),
    ensures
        parse_arguments(done, arguments.len(), encode_arguments(arguments) + tail) == parsed_ok(
            done + arguments,
            tail,
        ),
        encode_arguments(arguments).len() == arguments_words(arguments) * 8,
    decreases arguments.len(),
{
    if arguments.len() == 0 {
        lemma_join_nothing(tail);
        assert(done + arguments =~= done);
    } else {
        let first = arguments[0];
        let rest = arguments.drop_first();
        lemma_join_two(first.encoding(), encode_arguments(rest), tail);
        lemma_argument_roundtrip(first, encode_arguments(rest) + tail);
        assert forall|i: int| 0 <= i < rest.len() implies (#[trigger] rest[i]).wf() by {
            assert(rest[i] == arguments[i + 1]);
        }
        lemma_arguments_roundtrip(done.push(first), rest, tail);
        assert(done.push(first) + rest =~= done + arguments);
    }
}

/// The header of an event that fits it decodes to the parts it was built
/// from; its size field is the size of the record where that is below 4096.
pub proof fn lemma_event_header_fields(event: EventView, event_type: EventType, trailing: bool)
    requires
        event.wf(),
    ensures
        parse_record_type(event.header(event_type, trailing)) == Ok::<RecordType, ErrorView>(
            RecordType::Event,
        ),
        spec_extract_bits(event.header(event_type, trailing), 16, 19) == event_type.spec_tag(),
        spec_extract_bits(event.header(event_type, trailing), 20, 23) == event.arguments.len(),
        spec_extract_bits(event.header(event_type, trailing), 24, 31) == event.thread.field(),
        spec_extract_bits(event.header(event_type, trailing), 32, 47) == event.category.field(),
        spec_extract_bits(event.header(event_type, trailing), 48, 63) == event.name.field(),
        event.words(trailing) < 0x1000 ==> spec_extract_bits(
            event.header(event_type, trailing),
            4,
            15,
        ) == event.words(trailing),
{
    let fields = event.header_fields(event_type);
    let size = (event.words(trailing) % 0x1000) as u16;
    lemma_event_fields_width(event, event_type);
    lemma_fields_width_take(fields, 0);
    lemma_fields_width_take(fields, 1);
    lemma_fields_width_take(fields, 2);
    lemma_fields_width_take(fields, 3);
    lemma_fields_width_take(fields, 4);
    lemma_header_decodes(RecordType::Event, size, fields, 0);
    lemma_header_decodes(RecordType::Event, size, fields, 1);
    lemma_header_decodes(RecordType::Event, size, fields, 2);
    lemma_header_decodes(RecordType::Event, size, fields, 3);
    lemma_header_decodes(RecordType::Event, size, fields, 4);
    lemma_mask_length_fits(fields[0].value, 4);
    lemma_mask_length_fits(fields[1].value, 4);
    lemma_mask_length_fits(fields[2].value, 8);
    lemma_mask_length_fits(fields[3].value, 16);
    lemma_mask_length_fits(fields[4].value, 16);
}

/// Whether `header` carries the fields of `event` as an event of type
/// `event_type`.
pub open spec fn header_carries(header: u64, event: EventView, event_type: EventType) -> bool {
    &&& spec_extract_bits(header, 16, 19) == event_type.spec_tag()
    &&& spec_extract_bits(header, 20, 23) == event.arguments.len()
    &&& spec_extract_bits(header, 24, 31) == event.thread.field()
    &&& spec_extract_bits(header, 32, 47) == event.category.field()
    &&& spec_extract_bits(header, 48, 63) == event.name.field()
}

/// The category, the name and the arguments of an event decode from a
/// header that carries them and from their own bytes.
#[verifier::rlimit(50)]
proof fn lemma_event_strings_roundtrip(
    event: EventView,
    event_type: EventType,
    header: u64,
    tail: Seq<u8>,
)
    requires
        event.wf(),
        header_carries(header, event, event_type),
    ensures
        parse_event_strings(
            header,
            event_type,
            event.timestamp,
            event.thread,
            event.category.payload() + event.name.payload() + encode_arguments(event.arguments)
                + tail,
        ) == parsed_ok((event_type, event), tail),
{
    let after_name = encode_arguments(event.arguments) + tail;
    let after_category = event.name.payload() + after_name;
    lemma_join_three(
        event.category.payload(),
        event.name.payload(),
        encode_arguments(event.arguments),
        tail,
    );
    lemma_string_ref_roundtrip(event.category, after_category);
    lemma_string_ref_roundtrip(event.name, after_name);
    lemma_arguments_roundtrip(Seq::empty(), event.arguments, tail);
    assert(Seq::<ArgumentView>::empty() + event.arguments =~= event.arguments);
}

/// Six runs of bytes joined from the left are the first, then the second,
/// then the rest.
proof fn lemma_body_split(a: Seq<u8>, b: Seq<u8>, c: Seq<u8>, d: Seq<u8>, e: Seq<u8>, t: Seq<u8>)
    ensures
        a + b + c + d + e + t == a + (b + (c + d + e + t)),
        (a + b + c + d + e).len() == a.len() + b.len() + c.len() + d.len() + e.len(),
{
    assert(a + b + c + d + e + t =~= a + (b + (c + d + e + t)));
}

/// The body of an event that fits its header fills whole words: those of
/// the record without its header and its trailing word.
proof fn lemma_event_body_len(event: EventView)
    requires
        event.wf(),
    ensures
        event.body().len() + 8 == event.words(false) * 8,
{
    lemma_body_split(
        word_bytes(event.timestamp),
        event.thread.payload(),
        event.category.payload(),
        event.name.payload(),
        encode_arguments(event.arguments),
        Seq::empty(),
    );
    lemma_word_roundtrip(event.timestamp, Seq::empty());
    lemma_thread_ref_roundtrip(event.thread, Seq::empty());
    lemma_string_ref_roundtrip(event.category, Seq::empty());
    lemma_string_ref_roundtrip(event.name, Seq::empty());
    lemma_arguments_roundtrip(Seq::empty(), event.arguments, Seq::empty());
}

/// The shared part of an event decodes from a header that carries its
/// fields and from its own body to itself, whatever follows.
#[verifier::rlimit(50)]
proof fn lemma_event_body_roundtrip(
    event: EventView,
    event_type: EventType,
    header: u64,
    tail: Seq<u8>,
)
    requires
        event.wf(),
        header_carries(header, event, event_type),
    ensures
        parse_event(header, event.body() + tail) == parsed_ok((event_type, event), tail),
{
    let strings = event.category.payload() + event.name.payload() + encode_arguments(
        event.arguments,
    ) + tail;
    let after_timestamp = event.thread.payload() + strings;
    lemma_body_split(
        word_bytes(event.timestamp),
        event.thread.payload(),
        event.category.payload(),
        event.name.payload(),
        encode_arguments(event.arguments),
        tail,
    );
    lemma_word_roundtrip(event.timestamp, after_timestamp);
    lemma_thread_ref_roundtrip(event.thread, strings);
    lemma_event_strings_roundtrip(event, event_type, header, tail);
    assert(parse_word(word_bytes(event.timestamp) + after_timestamp) == parsed_ok(
        event.timestamp,
        after_timestamp,
    ));
    assert(parse_thread_ref(event.thread.field(), after_timestamp) == parsed_ok(
        event.thread,
        strings,
    ));
}

/// The shared part of an event that fits its header decodes from the header
/// and its own body to itself, whatever follows; and the body fills whole
/// words.
pub proof fn lemma_event_roundtrip(
    event: EventView,
    event_type: EventType,
    trailing: bool,
    tail: Seq<u8>,
)
    requires
        event.wf(),
    ensures
        parse_event(event.header(event_type, trailing), event.body() + tail) == parsed_ok(
            (event_type, event),
            tail,
        ),
        event.body().len() + 8 == event.words(false) * 8,
{
    lemma_event_header_fields(event, event_type, trailing);
    lemma_event_body_roundtrip(event, event_type, event.header(event_type, trailing), tail);
    lemma_event_body_len(event);
}

/// An event record that fits its header decodes from the header and the
/// bytes after it to itself, whatever follows them; its bytes are as many
/// words as its size, which is what the header says where it is below 4096.
pub proof fn lemma_event_record_roundtrip(record: EventRecordView, tail: Seq<u8>)
    requires
        record.wf(),
    ensures
        record.encoding() == word_bytes(record.header()) + record.event().body() + trailing_bytes(
            record.trailing_word(),
        ),
        parse_record_type(record.header()) == Ok::<RecordType, ErrorView>(RecordType::Event),
        parse_event_record(
            record.header(),
            record.event().body() + trailing_bytes(record.trailing_word()) + tail,
        ) == parsed_ok(record, tail),
        record.encoding().len() == record.words() * 8,
        record.words() < 0x1000 ==> spec_extract_bits(record.header(), 4, 15) == record.words(),
{
    let event = record.event();
    let trailing = record.trailing_word();
    let after_body = trailing_bytes(trailing) + tail;
    lemma_join_two(event.body(), trailing_bytes(trailing), tail);
    lemma_join_three(word_bytes(record.header()), event.body(), trailing_bytes(trailing), tail);
    lemma_event_header_fields(event, record.event_type(), trailing is Some);
    lemma_event_roundtrip(event, record.event_type(), trailing is Some, after_body);
    lemma_word_roundtrip(record.header(), Seq::empty());
    match trailing {
        Some(word) => {
            lemma_word_roundtrip(word, tail);
        },
        None => {
            lemma_join_nothing(tail);
        },
    }
}

/// The fields of an event header fit the types they are read as.
proof fn lemma_event_field_bounds(header: u64)
    ensures
        spec_extract_bits(header, 16, 19) < 0x10,
        spec_extract_bits(header, 20, 23) < 0x10,
        spec_extract_bits(header, 24, 31) < 0x100,
        spec_extract_bits(header, 32, 47) < 0x1_0000,
        spec_extract_bits(header, 48, 63) < 0x1_0000,
{
    assert(spec_extract_bits(header, 16, 19) < 0x10 && spec_extract_bits(header, 20, 23) < 0x10
        && spec_extract_bits(header, 24, 31) < 0x100 && spec_extract_bits(header, 32, 47)
        < 0x1_0000 && spec_extract_bits(header, 48, 63) < 0x1_0000) by (bit_vector);
}

/// Decoding arguments leaves no more bytes than there were.
pub proof fn lemma_parse_arguments_rest(done: Seq<ArgumentView>, count: nat, input: Seq<u8>)
    ensures
        parse_arguments(done, count, input).rest.len() <= input.len(),
    decreases count,
{
    if count > 0 {
        lemma_parse_argument_rest(input);
        let first = parse_argument(input);
        if first.result is Ok {
            lemma_parse_arguments_rest(
                done.push(first.result->Ok_0),
                (count - 1) as nat,
                first.rest,
            );
        }
    }
}

/// Decoding an event record leaves no more bytes than there were.
pub proof fn lemma_parse_event_record_rest(header: u64, input: Seq<u8>)
    ensures
        parse_event(header, input).rest.len() <= input.len(),
        parse_event_record(header, input).rest.len() <= input.len(),
{
    lemma_parse_word_rest(input, 0);
    let timestamp = parse_word(input);
    let thread_field = spec_extract_bits(header, 24, 31) as u8;
    lemma_parse_ref_rest(0, thread_field, timestamp.rest);
    let thread = parse_thread_ref(thread_field, timestamp.rest);
    let category_field = spec_extract_bits(header, 32, 47) as u16;
    lemma_parse_ref_rest(category_field, 0, thread.rest);
    let category = parse_string_ref(category_field, thread.rest);
    let name_field = spec_extract_bits(header, 48, 63) as u16;
    lemma_parse_ref_rest(name_field, 0, category.rest);
    let name = parse_string_ref(name_field, category.rest);
    lemma_parse_arguments_rest(
        Seq::empty(),
        spec_extract_bits(header, 20, 23) as nat,
        name.rest,
    );
    lemma_parse_word_rest(parse_event(header, input).rest, 0);
}

} // verus!
