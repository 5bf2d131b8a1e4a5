//! The initialization record: the number of ticks in a second.

use vstd::prelude::*;
use crate::bitutils::spec_extract_bits;
use crate::error::{outcome, parsed_err, parsed_ok, ErrorView, FtfError, Parsed};
use crate::header::{
    header_word, lemma_fields_width_small, lemma_header_decodes, parse_record_type, CustomField,
    RecordHeader, RecordType,
};
use crate::source::ByteSource;
use crate::wordutils::{lemma_word_roundtrip, parse_word, read_u64_word, word_bytes, write_u64_word};

verus! {

/// Initialization record
/// Specifies number of ticks per second in this trace
#[derive(Debug, Clone, Copy, PartialEq, Eq)]
pub struct InitializationRecord {
    ticks_per_second: u64,
}

/// The model of an [`InitializationRecord`].
pub struct InitializationRecordView {
    pub ticks_per_second: u64,
}

impl View for InitializationRecord {
    type V = InitializationRecordView;

    closed spec fn view(&self) -> InitializationRecordView {
        InitializationRecordView { ticks_per_second: self.ticks_per_second }
    }
}

impl InitializationRecordView {
    /// The header word: an initialization record of two words.
    pub open spec fn header(self) -> u64 {
        header_word(RecordType::Initialization, 2, Seq::empty())
    }

    /// The bytes after the header: the ticks per second.
    pub open spec fn body(self) -> Seq<u8> {
        word_bytes(self.ticks_per_second)
    }

    /// The bytes of the record on the wire.
    pub open spec fn encoding(self) -> Seq<u8> {
        word_bytes(self.header()) + self.body()
    }
}

/// What decoding an initialization record makes of the bytes after its
/// header, of which nothing is read.
pub open spec fn parse_initialization_record(input: Seq<u8>) -> Parsed<InitializationRecordView> {
    let ticks = parse_word(input);
    match ticks.result {
        Ok(ticks_per_second) => parsed_ok(
            InitializationRecordView { ticks_per_second },
            ticks.rest,
        ),
        Err(e) => parsed_err(e, ticks.rest),
    }
}

impl InitializationRecord {
    /// An initialization record for the given tick rate.
    pub fn new(ticks_per_second: u64) -> (record: Self)
        ensures
            record@ == (InitializationRecordView { ticks_per_second }),
    {
        Self { ticks_per_second }
    }

    /// Number of ticks in a second for this trace
    pub fn ticks_per_second(&self) -> (ticks_per_second: u64)
        ensures
            ticks_per_second == self@.ticks_per_second,
    {
        self.ticks_per_second
    }

    /// Decodes the initialization record that `_header` starts.
    pub fn parse(reader: &mut ByteSource, _header: RecordHeader) -> (res: Result<Self, FtfError>)
        ensures
            outcome(res) == parse_initialization_record(old(reader).remaining()).result,
            final(reader).remaining() == parse_initialization_record(old(reader).remaining()).rest,
    {
        Ok(InitializationRecord { ticks_per_second: read_u64_word(reader)? })
    }

    /// Appends the record: header, ticks per second.
    pub fn write(&self, writer: &mut Vec<u8>) -> (res: Result<(), FtfError>)
        ensures
            res is Ok,
            final(writer)@ == old(writer)@ + self@.encoding(),
    {
        let fields: Vec<CustomField> = Vec::new();
        proof {
            assert(fields@ =~= Seq::<CustomField>::empty());
            lemma_fields_width_small(fields@);
        }
        let header = RecordHeader::build(RecordType::Initialization, 2, fields.as_slice())?;
        write_u64_word(writer, header.value());
        write_u64_word(writer, self.ticks_per_second);
        assert(writer@ =~= old(writer)@ + self@.encoding());
        Ok(())
    }
}

/// An initialization record decodes from the bytes after its header to
/// itself, whatever follows them; its header names an initialization record
/// of two words, and two words is what its bytes are.
pub proof fn lemma_initialization_record_roundtrip(record: InitializationRecordView, tail: Seq<u8>)
    ensures
        parse_record_type(record.header()) == Ok::<RecordType, ErrorView>(
            RecordType::Initialization,
        ),
        parse_initialization_record(record.body() + tail) == parsed_ok(record, tail),
        record.encoding().len() == 16,
        spec_extract_bits(record.header(), 4, 15) == 2,
{
    lemma_fields_width_small(Seq::<CustomField>::empty());
    lemma_header_decodes(RecordType::Initialization, 2, Seq::empty(), 0);
    lemma_word_roundtrip(record.header(), Seq::empty());
    lemma_word_roundtrip(record.ticks_per_second, tail);
}

} // verus!
