//! The thread record: a thread interned under an index.

use vstd::prelude::*;
use crate::bitutils::{extract_bits, lemma_mask_length_fits, spec_extract_bits};
use crate::error::{outcome, parsed_err, parsed_ok, ErrorView, FtfError, Parsed};
use crate::header::{
    header_word, lemma_fields_width_small, lemma_fields_width_take, lemma_header_decodes,
    parse_record_type, CustomField, RecordHeader, RecordType,
};
use crate::source::ByteSource;
use crate::wordutils::{
    lemma_parse_word_rest, lemma_word_roundtrip, parse_word, read_u64_word, word_bytes,
    write_u64_word,
};

verus! {

/// Thread record. Represents a thread interned in the provider's thread
/// table with the associated index.
#[derive(Debug, Clone, Copy, PartialEq, Eq)]
pub struct ThreadRecord {
    index: u8,
    process_koid: u64,
    thread_koid: u64,
}

/// The model of a [`ThreadRecord`].
pub struct ThreadRecordView {
    pub index: u8,
    pub process_koid: u64,
    pub thread_koid: u64,
}

impl View for ThreadRecord {
    type V = ThreadRecordView;

    closed spec fn view(&self) -> ThreadRecordView {
        ThreadRecordView {
            index: self.index,
            process_koid: self.process_koid,
            thread_koid: self.thread_koid,
        }
    }
}

impl ThreadRecordView {
    /// The custom field of the header: the index.
    pub open spec fn header_fields(self) -> Seq<CustomField> {
        seq![CustomField { width: 8, value: self.index as u64 }]
    }

    /// The header word: a thread record of three words.
    pub open spec fn header(self) -> u64 {
        header_word(RecordType::Thread, 3, self.header_fields())
    }

    /// The bytes after the header: process koid, thread koid.
    pub open spec fn body(self) -> Seq<u8> {
        word_bytes(self.process_koid) + word_bytes(self.thread_koid)
    }

    /// The bytes of the record on the wire.
    pub open spec fn encoding(self) -> Seq<u8> {
        word_bytes(self.header()) + self.body()
    }
}

/// What decoding a thread record makes of its header word and the bytes
/// after it.
pub open spec fn parse_thread_record(header: u64, input: Seq<u8>) -> Parsed<ThreadRecordView> {
    let process = parse_word(input);
    match process.result {
        Err(e) => parsed_err(e, process.rest),
        Ok(process_koid) => {
            let thread = parse_word(process.rest);
            match thread.result {
                Err(e) => parsed_err(e, thread.rest),
                Ok(thread_koid) => parsed_ok(
                    ThreadRecordView {
                        index: spec_extract_bits(header, 16, 23) as u8,
                        process_koid,
                        thread_koid,
                    },
                    thread.rest,
                ),
            }
        },
    }
}

impl ThreadRecord {
    /// A thread record from its parts.
    pub fn new(index: u8, process_koid: u64, thread_koid: u64) -> (record: Self)
        ensures
            record@ == (ThreadRecordView { index, process_koid, thread_koid }),
    {
        ThreadRecord { index, process_koid, thread_koid }
    }

    /// Index into the provider's thread table
    pub fn index(&self) -> (index: u8)
        ensures
            index == self@.index,
    {
        self.index
    }

    /// The koid of the process.
    pub fn process_koid(&self) -> (process_koid: u64)
        ensures
            process_koid == self@.process_koid,
    {
        self.process_koid
    }

    /// The koid of the thread.
    pub fn thread_koid(&self) -> (thread_koid: u64)
        ensures
            thread_koid == self@.thread_koid,
    {
        self.thread_koid
    }

    /// Decodes the thread record that `header` starts.
    pub fn parse(reader: &mut ByteSource, header: RecordHeader) -> (res: Result<Self, FtfError>)
        ensures
            outcome(res) == parse_thread_record(header@, old(reader).remaining()).result,
            final(reader).remaining() == parse_thread_record(header@, old(reader).remaining()).rest,
    {
        let word = header.value();
        assert(spec_extract_bits(word, 16, 23) < 0x100) by (bit_vector);
        let index = extract_bits(word, 16, 23) as u8;

        let process_koid = read_u64_word(reader)?;
        let thread_koid = read_u64_word(reader)?;

        Ok(ThreadRecord { index, process_koid, thread_koid })
    }

    /// Appends the record: header, process koid, thread koid.
    pub fn write(&self, writer: &mut Vec<u8>) -> (res: Result<(), FtfError>)
        ensures
            res is Ok,
            final(writer)@ == old(writer)@ + self@.encoding(),
    {
        let fields = vec![CustomField { width: 8, value: self.index as u64 }];
        proof {
            assert(fields@ =~= self@.header_fields());
            lemma_fields_width_small(fields@);
        }
        let header = RecordHeader::build(RecordType::Thread, 3, fields.as_slice())?;

        write_u64_word(writer, header.value());
        write_u64_word(writer, self.process_koid);
        write_u64_word(writer, self.thread_koid);
        assert(writer@ =~= old(writer)@ + self@.encoding());
        Ok(())
    }
}

/// A thread record decodes from its header and the bytes after it to itself,
/// whatever follows them; its header names a thread record of three words,
/// and three words is what its bytes are.
pub proof fn lemma_thread_record_roundtrip(record: ThreadRecordView, tail: Seq<u8>)
    ensures
        parse_record_type(record.header()) == Ok::<RecordType, ErrorView>(RecordType::Thread),
        parse_thread_record(record.header(), record.body() + tail) == parsed_ok(record, tail),
        record.encoding().len() == 24,
        spec_extract_bits(record.header(), 4, 15) == 3,
{
    let fields = record.header_fields();
    lemma_fields_width_small(fields);
    lemma_fields_width_take(fields, 0);
    lemma_header_decodes(RecordType::Thread, 3, fields, 0);
    lemma_mask_length_fits(fields[0].value, 8);
    let after_process = word_bytes(record.thread_koid) + tail;
    assert(record.body() + tail =~= word_bytes(record.process_koid) + after_process);
    lemma_word_roundtrip(record.header(), Seq::empty());
    lemma_word_roundtrip(record.process_koid, after_process);
    lemma_word_roundtrip(record.thread_koid, tail);
}

/// Decoding a thread record leaves no more bytes than there were.
pub proof fn lemma_parse_thread_record_rest(header: u64, input: Seq<u8>)
    ensures
        parse_thread_record(header, input).rest.len() <= input.len(),
{
    lemma_parse_word_rest(input, 0);
    lemma_parse_word_rest(parse_word(input).rest, 0);
}

} // verus!
