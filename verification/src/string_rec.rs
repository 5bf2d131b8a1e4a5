//! The string record: a string interned under an index.

use vstd::prelude::*;
use vstd::utf8::encode_utf8;
use crate::bitutils::{extract_bits, lemma_mask_length_fits, spec_extract_bits};
use crate::error::{outcome, parsed_err, parsed_ok, ErrorView, FtfError, Parsed};
use crate::header::{
    header_word, lemma_fields_width_small, lemma_fields_width_take, lemma_header_decodes,
    parse_record_type, CustomField, RecordHeader, RecordType,
};
use crate::source::ByteSource;
use crate::wordutils::{
    lemma_padded_string_roundtrip, lemma_parse_word_rest, lemma_word_roundtrip,
    pad_and_write_string, padded,
    parse_padded_string, read_aligned_str, word_bytes, words_for, write_u64_word,
};

verus! {

/// String record. Represents a String interned
/// in the provider's string table with the assosciated
/// index
#[derive(Debug, Clone, PartialEq, Eq)]
pub struct StringRecord {
    index: u16,
    value: String,
}

/// The model of a [`StringRecord`].
pub struct StringRecordView {
    pub index: u16,
    pub value: Seq<char>,
}

impl View for StringRecord {
    type V = StringRecordView;

    closed spec fn view(&self) -> StringRecordView {
        StringRecordView { index: self.index, value: self.value@ }
    }
}

impl StringRecordView {
    /// The length of the string in bytes.
    pub open spec fn byte_len(self) -> nat {
        encode_utf8(self.value).len()
    }

    /// The size of the record in words: the header and the padded string.
    pub open spec fn words(self) -> nat {
        1 + words_for(self.byte_len())
    }

    /// The custom fields of the header: the index in 15 bits, a reserved
    /// bit, the length in 15 bits.
    pub open spec fn header_fields(self) -> Seq<CustomField> {
        seq![
            CustomField { width: 15, value: self.index as u64 },
            CustomField { width: 1, value: 0 },
            CustomField { width: 15, value: self.byte_len() as u64 },
        ]
    }

    /// The header word.
    pub open spec fn header(self) -> u64 {
        header_word(RecordType::String, (self.words() % 0x1000) as u16, self.header_fields())
    }

    /// The bytes after the header: the zero-padded string.
    pub open spec fn body(self) -> Seq<u8> {
        padded(encode_utf8(self.value))
    }

    /// The bytes of the record on the wire.
    pub open spec fn encoding(self) -> Seq<u8> {
        word_bytes(self.header()) + self.body()
    }

    /// Whether the header can hold the index and the length, each in 15
    /// bits.
    pub open spec fn wf(self) -> bool {
        self.index <= 0x7FFF && self.byte_len() <= 0x7FFF
    }
}

/// What decoding a string record makes of its header word and the bytes
/// after it.
pub open spec fn parse_string_record(header: u64, input: Seq<u8>) -> Parsed<StringRecordView> {
    let value = parse_padded_string(spec_extract_bits(header, 32, 46) as nat, input);
    match value.result {
        Ok(s) => parsed_ok(
            StringRecordView { index: spec_extract_bits(header, 16, 30) as u16, value: s },
            value.rest,
        ),
        Err(e) => parsed_err(e, value.rest),
    }
}

impl StringRecord {
    /// A string record from its parts.
    pub fn new(index: u16, value: String) -> (record: Self)
        ensures
            record@ == (StringRecordView { index, value: value@ }),
    {
        Self { index, value }
    }

    /// Index into the provider's string table
    pub fn index(&self) -> (index: u16)
        ensures
            index == self@.index,
    {
        self.index
    }

    /// Length of the assosciated string in bytes, reduced to 32 bits.
    pub fn length(&self) -> (length: u32)
        ensures
            length == self@.byte_len() % 0x1_0000_0000,
    {
        (self.value.as_str().as_bytes().len() as u64 % 0x1_0000_0000) as u32
    }

    /// Reference to the string
    pub fn value(&self) -> (value: &String)
        ensures
            value@ == self@.value,
    {
        &self.value
    }

    /// Decodes the string record that `header` starts.
    pub fn parse(reader: &mut ByteSource, header: RecordHeader) -> (res: Result<Self, FtfError>)
        ensures
            outcome(res) == parse_string_record(header@, old(reader).remaining()).result,
            final(reader).remaining() == parse_string_record(header@, old(reader).remaining()).rest,
    {
        let word = header.value();
        assert(spec_extract_bits(word, 16, 30) < 0x8000 && spec_extract_bits(word, 32, 46) < 0x8000)
            by (bit_vector);
        let index = extract_bits(word, 16, 30) as u16;
        let length = extract_bits(word, 32, 46) as u32;

        let value = read_aligned_str(reader, length as usize)?;
        Ok(StringRecord { index, value })
    }

    /// Appends the record: header, padded string.
    pub fn write(&self, writer: &mut Vec<u8>) -> (res: Result<(), FtfError>)
        ensures
            res is Ok,
            final(writer)@ == old(writer)@ + self@.encoding(),
    {
        let str_bytes = self.value.as_str().as_bytes();
        // header + num words for string
        let num_words = 1 + (str_bytes.len() / 8 + if str_bytes.len() % 8 == 0 {
            0
        } else {
            1
        }) as u64;
        let fields = vec![
            CustomField { width: 15, value: self.index as u64 },
            CustomField { width: 1, value: 0 },
            CustomField { width: 15, value: str_bytes.len() as u64 },
        ];
        proof {
            assert(fields@ =~= self@.header_fields());
            lemma_fields_width_small(fields@);
        }
        let header = RecordHeader::build(
            RecordType::String,
            (num_words % 0x1000) as u16,
            fields.as_slice(),
        )?;

        write_u64_word(writer, header.value());
        pad_and_write_string(writer, self.value.as_str())?;
        assert(writer@ =~= old(writer)@ + self@.encoding());
        Ok(())
    }
}

/// A string record that fits its header decodes from the header and the
/// bytes after it to itself, whatever follows them; its header names a
/// string record, and its bytes are as many words as its size, which is what
/// the header says where it is below 4096.
pub proof fn lemma_string_record_roundtrip(record: StringRecordView, tail: Seq<u8>)
    requires
        record.wf(),
    ensures
        parse_record_type(record.header()) == Ok::<RecordType, ErrorView>(RecordType::String),
        parse_string_record(record.header(), record.body() + tail) == parsed_ok(record, tail),
        record.encoding().len() == record.words() * 8,
        record.words() < 0x1000 ==> spec_extract_bits(record.header(), 4, 15) == record.words(),
{
    let fields = record.header_fields();
    let size = (record.words() % 0x1000) as u16;
    lemma_fields_width_small(fields);
    lemma_fields_width_take(fields, 0);
    lemma_fields_width_take(fields, 1);
    lemma_fields_width_take(fields, 2);
    lemma_header_decodes(RecordType::String, size, fields, 0);
    lemma_header_decodes(RecordType::String, size, fields, 2);
    lemma_mask_length_fits(fields[0].value, 15);
    lemma_mask_length_fits(fields[2].value, 15);
    lemma_word_roundtrip(record.header(), Seq::empty());
    lemma_padded_string_roundtrip(record.value, tail);
}

/// Decoding a string record leaves no more bytes than there were.
pub proof fn lemma_parse_string_record_rest(header: u64, input: Seq<u8>)
    ensures
        parse_string_record(header, input).rest.len() <= input.len(),
{
    lemma_parse_word_rest(input, spec_extract_bits(header, 32, 46) as nat);
}

} // verus!
