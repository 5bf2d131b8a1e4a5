//! Metadata records: provider info, provider section, provider event, trace
//! info, and the magic number that starts an archive.

use vstd::prelude::*;
use vstd::utf8::encode_utf8;
use crate::bitutils::{extract_bits, lemma_mask_length_fits, spec_extract_bits};
use crate::error::{outcome, parsed_err, parsed_ok, ErrorView, FtfError, Parsed};
use crate::header::{
    header_word, lemma_fields_width_small, lemma_fields_width_take, lemma_header_decodes,
    parse_record_type, CustomField, RecordHeader, RecordType,
};
use crate::source::ByteSource;
use crate::wordutils::{
    lemma_padded_string_roundtrip, lemma_parse_word_rest, lemma_word_roundtrip,
    pad_and_write_string, padded,
    parse_padded_string, read_aligned_str, word_bytes, words_for, write_u64_word,
};

verus! {

/// The word that marks the start of an archive. Read as a header it is a
/// trace-info metadata record.
pub const MAGIC_NUMBER_RECORD: u64 = 0x0016547846040010;

/// The subtype of a metadata record.
#[derive(Debug, Clone, Copy, PartialEq, Eq, Structural)]
pub enum MetadataType {
    ProviderInfo,
    ProviderSection,
    ProviderEvent,
    TraceInfo,
}

/// A metadata subtype tag that names no metadata type.
#[derive(Clone, Copy, Debug, Eq, PartialEq, Structural)]
pub struct MetadataTypeParseError(pub u8);

/// The metadata type that a 4-bit tag names, if any.
pub open spec fn metadata_type_of(tag: u8) -> Option<MetadataType> {
    match tag {
        1 => Some(MetadataType::ProviderInfo),
        2 => Some(MetadataType::ProviderSection),
        3 => Some(MetadataType::ProviderEvent),
        4 => Some(MetadataType::TraceInfo),
        _ => None,
    }
}

impl View for MetadataType {
    type V = MetadataType;

    open spec fn view(&self) -> MetadataType {
        *self
    }
}

impl MetadataType {
    /// The tag that stands for this metadata type in bits 16–19 of a header.
    pub open spec fn spec_tag(self) -> u8 {
        match self {
            MetadataType::ProviderInfo => 1,
            MetadataType::ProviderSection => 2,
            MetadataType::ProviderEvent => 3,
            MetadataType::TraceInfo => 4,
        }
    }

    /// The tag that stands for this metadata type in bits 16–19 of a header.
    pub fn tag(self) -> (tag: u8)
        ensures
            tag == self.spec_tag(),
            metadata_type_of(tag) == Some(self),
    {
        match self {
            MetadataType::ProviderInfo => 1,
            MetadataType::ProviderSection => 2,
            MetadataType::ProviderEvent => 3,
            MetadataType::TraceInfo => 4,
        }
    }

    /// The metadata type that `value` names; the value itself comes back
    /// where it names none.
    pub fn try_from(value: u8) -> (res: Result<Self, MetadataTypeParseError>)
        ensures
            res == match metadata_type_of(value) {
                Some(t) => Ok::<MetadataType, MetadataTypeParseError>(t),
                None => Err(MetadataTypeParseError(value)),
            },
    {
        match value {
            1 => Ok(Self::ProviderInfo),
            2 => Ok(Self::ProviderSection),
            3 => Ok(Self::ProviderEvent),
            4 => Ok(Self::TraceInfo),
            _ => Err(MetadataTypeParseError(value)),
        }
    }
}

/// Information about the trace as a whole: a type and 40 bits of data.
#[derive(Debug, Clone, Copy, PartialEq, Eq)]
pub struct TraceInfo {
    trace_info_type: u8,
    // only 40 bits, but no point in encoding as [u8; 5]
    data: u64,
}

/// The model of a [`TraceInfo`].
pub struct TraceInfoView {
    pub trace_info_type: u8,
    pub data: u64,
}

impl View for TraceInfo {
    type V = TraceInfoView;

    closed spec fn view(&self) -> TraceInfoView {
        TraceInfoView { trace_info_type: self.trace_info_type, data: self.data }
    }
}

/// The 40-bit number that five bytes make, the first byte on top.
pub open spec fn trace_info_data(bytes: Seq<u8>) -> u64 {
    ((bytes[0] as u64) << 32) | ((bytes[1] as u64) << 24) | ((bytes[2] as u64) << 16) | ((
    bytes[3] as u64) << 8) | (bytes[4] as u64)
}

impl TraceInfoView {
    /// The custom fields of the header: subtype, trace-info type, data.
    pub open spec fn header_fields(self) -> Seq<CustomField> {
        seq![
            CustomField { width: 4, value: MetadataType::TraceInfo.spec_tag() as u64 },
            CustomField { width: 4, value: self.trace_info_type as u64 },
            CustomField { width: 40, value: self.data },
        ]
    }

    /// The header word, which is the whole record.
    pub open spec fn header(self) -> u64 {
        header_word(RecordType::Metadata, 1, self.header_fields())
    }

    /// Whether the header can hold the type in 4 bits and the data in 40.
    pub open spec fn wf(self) -> bool {
        self.trace_info_type < 0x10 && self.data < 0x100_0000_0000
    }
}

impl TraceInfo {
    /// A trace-info record of the given type, with the five bytes of data
    /// taken as one number, the first byte on top.
    pub fn new(trace_info_type: u8, data: &[u8; 5]) -> (info: Self)
        ensures
            info@ == (TraceInfoView { trace_info_type, data: trace_info_data(data@) }),
            trace_info_data(data@) < 0x100_0000_0000,
    {
        let d0 = data[0];
        let d1 = data[1];
        let d2 = data[2];
        let d3 = data[3];
        let d4 = data[4];
        let value = ((d0 as u64) << 32) | ((d1 as u64) << 24) | ((d2 as u64) << 16) | ((d3 as u64)
            << 8) | (d4 as u64);
        assert(((d0 as u64) << 32) | ((d1 as u64) << 24) | ((d2 as u64) << 16) | ((d3 as u64) << 8)
            | (d4 as u64) < 0x100_0000_0000) by (bit_vector);
        Self { trace_info_type, data: value }
    }

    /// The type of the information.
    pub fn trace_info_type(&self) -> (trace_info_type: u8)
        ensures
            trace_info_type == self@.trace_info_type,
    {
        self.trace_info_type
    }

    /// The data, in the low 40 bits.
    pub fn data(&self) -> (data: u64)
        ensures
            data == self@.data,
    {
        self.data
    }

    /// Appends the record: its header word.
    pub fn write(&self, writer: &mut Vec<u8>) -> (res: Result<(), FtfError>)
        ensures
            res is Ok,
            final(writer)@ == old(writer)@ + word_bytes(self@.header()),
    {
        let fields = vec![
            CustomField { width: 4, value: MetadataType::TraceInfo.tag() as u64 },
            CustomField { width: 4, value: self.trace_info_type as u64 },
            CustomField { width: 40, value: self.data },
        ];
        proof {
            assert(fields@ =~= self@.header_fields());
            lemma_fields_width_small(fields@);
        }
        let header = RecordHeader::build(RecordType::Metadata, 1, fields.as_slice())?;
        write_u64_word(writer, header.value());
        Ok(())
    }
}

/// A trace provider, registered under an id with its name.
#[derive(Debug, Clone, PartialEq, Eq)]
pub struct ProviderInfo {
    provider_id: u32,
    provider_name: String,
}

/// The model of a [`ProviderInfo`].
pub struct ProviderInfoView {
    pub provider_id: u32,
    pub provider_name: Seq<char>,
}

impl View for ProviderInfo {
    type V = ProviderInfoView;

    closed spec fn view(&self) -> ProviderInfoView {
        ProviderInfoView { provider_id: self.provider_id, provider_name: self.provider_name@ }
    }
}

impl ProviderInfoView {
    /// The size of the record in words: the header and the padded name.
    pub open spec fn words(self) -> nat {
        1 + words_for(encode_utf8(self.provider_name).len())
    }

    /// The custom fields of the header: subtype, provider id, name length.
    pub open spec fn header_fields(self) -> Seq<CustomField> {
        seq![
            CustomField { width: 4, value: MetadataType::ProviderInfo.spec_tag() as u64 },
            CustomField { width: 32, value: self.provider_id as u64 },
            CustomField { width: 8, value: encode_utf8(self.provider_name).len() as u64 },
        ]
    }

    /// The header word.
    pub open spec fn header(self) -> u64 {
        header_word(RecordType::Metadata, (self.words() % 0x1000) as u16, self.header_fields())
    }

    /// The bytes after the header: the zero-padded name.
    pub open spec fn body(self) -> Seq<u8> {
        padded(encode_utf8(self.provider_name))
    }

    /// Whether the header can hold the length of the name in 8 bits.
    pub open spec fn wf(self) -> bool {
        encode_utf8(self.provider_name).len() <= 0xFF
    }
}

impl ProviderInfo {
    /// A provider-info record from its parts.
    pub fn new(provider_id: u32, provider_name: String) -> (info: Self)
        ensures
            info@ == (ProviderInfoView { provider_id, provider_name: provider_name@ }),
    {
        Self { provider_id, provider_name }
    }

    /// The id of the provider.
    pub fn provider_id(&self) -> (provider_id: u32)
        ensures
            provider_id == self@.provider_id,
    {
        self.provider_id
    }

    /// The name of the provider.
    pub fn provider_name(&self) -> (provider_name: &String)
        ensures
            provider_name@ == self@.provider_name,
    {
        &self.provider_name
    }

    /// Appends the record: header, padded name.
    pub fn write(&self, writer: &mut Vec<u8>) -> (res: Result<(), FtfError>)
        ensures
            res is Ok,
            final(writer)@ == old(writer)@ + word_bytes(self@.header()) + self@.body(),
    {
        let str_bytes = self.provider_name.as_str().as_bytes();
        let size = 1 + (str_bytes.len() / 8 + if str_bytes.len() % 8 == 0 {
            0
        } else {
            1
        }) as u64;
        let fields = vec![
            CustomField { width: 4, value: MetadataType::ProviderInfo.tag() as u64 },
            CustomField { width: 32, value: self.provider_id as u64 },
            CustomField { width: 8, value: str_bytes.len() as u64 },
        ];
        proof {
            assert(fields@ =~= self@.header_fields());
            lemma_fields_width_small(fields@);
        }
        let header = RecordHeader::build(
            RecordType::Metadata,
            (size % 0x1000) as u16,
            fields.as_slice(),
        )?;
        write_u64_word(writer, header.value());
        pad_and_write_string(writer, self.provider_name.as_str())
    }
}

/// The start of the records of one provider.
#[derive(Debug, Clone, Copy, PartialEq, Eq)]
pub struct ProviderSection {
    provider_id: u32,
}

/// The model of a [`ProviderSection`].
pub struct ProviderSectionView {
    pub provider_id: u32,
}

impl View for ProviderSection {
    type V = ProviderSectionView;

    closed spec fn view(&self) -> ProviderSectionView {
        ProviderSectionView { provider_id: self.provider_id }
    }
}

impl ProviderSectionView {
    /// The custom fields of the header: subtype, provider id.
    pub open spec fn header_fields(self) -> Seq<CustomField> {
        seq![
            CustomField { width: 4, value: MetadataType::ProviderSection.spec_tag() as u64 },
            CustomField { width: 32, value: self.provider_id as u64 },
        ]
    }

    /// The header word, which is the whole record.
    pub open spec fn header(self) -> u64 {
        header_word(RecordType::Metadata, 1, self.header_fields())
    }
}

impl ProviderSection {
    /// A provider-section record for the given provider.
    pub fn new(provider_id: u32) -> (section: Self)
        ensures
            section@ == (ProviderSectionView { provider_id }),
    {
        Self { provider_id }
    }

    /// The id of the provider.
    pub fn provider_id(&self) -> (provider_id: u32)
        ensures
            provider_id == self@.provider_id,
    {
        self.provider_id
    }

    /// Appends the record: its header word.
    pub fn write(&self, writer: &mut Vec<u8>) -> (res: Result<(), FtfError>)
        ensures
            res is Ok,
            final(writer)@ == old(writer)@ + word_bytes(self@.header()),
    {
        let fields = vec![
            CustomField { width: 4, value: MetadataType::ProviderSection.tag() as u64 },
            CustomField { width: 32, value: self.provider_id as u64 },
        ];
        proof {
            assert(fields@ =~= self@.header_fields());
            lemma_fields_width_small(fields@);
        }
        let header = RecordHeader::build(RecordType::Metadata, 1, fields.as_slice())?;
        write_u64_word(writer, header.value());
        Ok(())
    }
}

/// Something that a provider reports while it runs; event id 0 is a buffer
/// that filled up.
#[derive(Debug, Clone, Copy, PartialEq, Eq)]
pub struct ProviderEvent {
    provider_id: u32,
    event_id: u8,
}

/// The model of a [`ProviderEvent`].
pub struct ProviderEventView {
    pub provider_id: u32,
    pub event_id: u8,
}

impl View for ProviderEvent {
    type V = ProviderEventView;

    closed spec fn view(&self) -> ProviderEventView {
        ProviderEventView { provider_id: self.provider_id, event_id: self.event_id }
    }
}

impl ProviderEventView {
    /// The custom fields of the header: subtype, provider id, event id.
    pub open spec fn header_fields(self) -> Seq<CustomField> {
        seq![
            CustomField { width: 4, value: MetadataType::ProviderEvent.spec_tag() as u64 },
            CustomField { width: 32, value: self.provider_id as u64 },
            CustomField { width: 4, value: self.event_id as u64 },
        ]
    }

    /// The header word, which is the whole record.
    pub open spec fn header(self) -> u64 {
        header_word(RecordType::Metadata, 1, self.header_fields())
    }

    /// Whether the header can hold the event id in 4 bits.
    pub open spec fn wf(self) -> bool {
        self.event_id < 0x10
    }
}

impl ProviderEvent {
    /// A provider-event record from its parts.
    pub fn new(provider_id: u32, event_id: u8) -> (event: Self)
        ensures
            event@ == (ProviderEventView { provider_id, event_id }),
    {
        Self { provider_id, event_id }
    }

    /// The id of the provider.
    pub fn provider_id(&self) -> (provider_id: u32)
        ensures
            provider_id == self@.provider_id,
    {
        self.provider_id
    }

    /// The id of what is reported.
    pub fn event_id(&self) -> (event_id: u8)
        ensures
            event_id == self@.event_id,
    {
        self.event_id
    }

    /// Appends the record: its header word.
    pub fn write(&self, writer: &mut Vec<u8>) -> (res: Result<(), FtfError>)
        ensures
            res is Ok,
            final(writer)@ == old(writer)@ + word_bytes(self@.header()),
    {
        let fields = vec![
            CustomField { width: 4, value: MetadataType::ProviderEvent.tag() as u64 },
            CustomField { width: 32, value: self.provider_id as u64 },
            CustomField { width: 4, value: self.event_id as u64 },
        ];
        proof {
            assert(fields@ =~= self@.header_fields());
            lemma_fields_width_small(fields@);
        }
        let header = RecordHeader::build(RecordType::Metadata, 1, fields.as_slice())?;
        write_u64_word(writer, header.value());
        Ok(())
    }
}

/// A metadata record of any subtype.
#[derive(Debug, Clone, PartialEq, Eq)]
pub enum MetadataRecord {
    ProviderInfo(ProviderInfo),
    ProviderSection(ProviderSection),
    ProviderEvent(ProviderEvent),
    TraceInfo(TraceInfo),
    MagicNumber,
}

/// The model of a [`MetadataRecord`].
pub enum MetadataRecordView {
    ProviderInfo(ProviderInfoView),
    ProviderSection(ProviderSectionView),
    ProviderEvent(ProviderEventView),
    TraceInfo(TraceInfoView),
    MagicNumber,
}

impl View for MetadataRecord {
    type V = MetadataRecordView;

    open spec fn view(&self) -> MetadataRecordView {
        match self {
            MetadataRecord::ProviderInfo(r) => MetadataRecordView::ProviderInfo(r@),
            MetadataRecord::ProviderSection(r) => MetadataRecordView::ProviderSection(r@),
            MetadataRecord::ProviderEvent(r) => MetadataRecordView::ProviderEvent(r@),
            MetadataRecord::TraceInfo(r) => MetadataRecordView::TraceInfo(r@),
            MetadataRecord::MagicNumber => MetadataRecordView::MagicNumber,
        }
    }
}

impl MetadataRecordView {
    /// The header word.
    pub open spec fn header(self) -> u64 {
        match self {
            MetadataRecordView::ProviderInfo(r) => r.header(),
            MetadataRecordView::ProviderSection(r) => r.header(),
            MetadataRecordView::ProviderEvent(r) => r.header(),
            MetadataRecordView::TraceInfo(r) => r.header(),
            MetadataRecordView::MagicNumber => MAGIC_NUMBER_RECORD,
        }
    }

    /// The bytes after the header: the name of a provider, or nothing.
    pub open spec fn body(self) -> Seq<u8> {
        match self {
            MetadataRecordView::ProviderInfo(r) => r.body(),
            _ => Seq::empty(),
        }
    }

    /// The size of the record in words.
    pub open spec fn words(self) -> nat {
        match self {
            MetadataRecordView::ProviderInfo(r) => r.words(),
            _ => 1,
        }
    }

    /// The bytes of the record on the wire.
    pub open spec fn encoding(self) -> Seq<u8> {
        word_bytes(self.header()) + self.body()
    }

    /// Whether the record can be written and read back: its header can hold
    /// its fields, and a trace-info record is not the one whose header is
    /// the magic number.
    pub open spec fn wf(self) -> bool {
        match self {
            MetadataRecordView::ProviderInfo(r) => r.wf(),
            MetadataRecordView::ProviderSection(_) => true,
            MetadataRecordView::ProviderEvent(r) => r.wf(),
            MetadataRecordView::TraceInfo(r) => r.wf() && r.header() != MAGIC_NUMBER_RECORD,
            MetadataRecordView::MagicNumber => true,
        }
    }
}

/// The metadata type that bits 16–19 of a header word name, or the error
/// that holds the tag.
pub open spec fn parse_metadata_type(header: u64) -> Result<MetadataType, ErrorView> {
    let tag = spec_extract_bits(header, 16, 19) as u8;
    match metadata_type_of(tag) {
        Some(t) => Ok(t),
        None => Err(ErrorView::InvalidMetadataType(tag)),
    }
}

/// The provider id in bits 20–51 of a header word.
pub open spec fn spec_provider_id(header: u64) -> u32 {
    spec_extract_bits(header, 20, 51) as u32
}

/// What decoding a metadata record makes of its header word and the bytes
/// after it. The magic number is told by the whole word, before any tag is
/// looked at.
pub open spec fn parse_metadata_record(header: u64, input: Seq<u8>) -> Parsed<MetadataRecordView> {
    if header == MAGIC_NUMBER_RECORD {
        parsed_ok(MetadataRecordView::MagicNumber, input)
    } else {
        match parse_metadata_type(header) {
            Err(e) => parsed_err(e, input),
            Ok(MetadataType::ProviderInfo) => {
                let name = parse_padded_string(spec_extract_bits(header, 52, 59) as nat, input);
                match name.result {
                    Ok(provider_name) => parsed_ok(
                        MetadataRecordView::ProviderInfo(
                            ProviderInfoView {
                                provider_id: spec_provider_id(header),
                                provider_name,
                            },
                        ),
                        name.rest,
                    ),
                    Err(e) => parsed_err(e, name.rest),
                }
            },
            Ok(MetadataType::ProviderSection) => parsed_ok(
                MetadataRecordView::ProviderSection(
                    ProviderSectionView { provider_id: spec_provider_id(header) },
                ),
                input,
            ),
            Ok(MetadataType::ProviderEvent) => parsed_ok(
                MetadataRecordView::ProviderEvent(
                    ProviderEventView {
                        provider_id: spec_provider_id(header),
                        event_id: spec_extract_bits(header, 52, 55) as u8,
                    },
                ),
                input,
            ),
            Ok(MetadataType::TraceInfo) => parsed_ok(
                MetadataRecordView::TraceInfo(
                    TraceInfoView {
                        trace_info_type: spec_extract_bits(header, 20, 23) as u8,
                        data: spec_extract_bits(header, 24, 63),
                    },
                ),
                input,
            ),
        }
    }
}

impl MetadataRecord {
    /// The word that marks the start of an archive.
    pub const MAGIC_NUMBER_RECORD: u64 = MAGIC_NUMBER_RECORD;

    /// The metadata type that the header names.
    pub fn metadata_type(header: &RecordHeader) -> (res: Result<MetadataType, FtfError>)
        ensures
            outcome(res) == parse_metadata_type(header@),
    {
        let word = header.value();
        assert(spec_extract_bits(word, 16, 19) < 0x10) by (bit_vector);
        match MetadataType::try_from(extract_bits(word, 16, 19) as u8) {
            Ok(t) => Ok(t),
            Err(e) => Err(FtfError::InvalidMetadataType(e)),
        }
    }

    /// The provider id that the header holds.
    pub fn provider_id(header: &RecordHeader) -> (id: u32)
        ensures
            id == spec_provider_id(header@),
    {
        let word = header.value();
        assert(spec_extract_bits(word, 20, 51) < 0x1_0000_0000) by (bit_vector);
        extract_bits(word, 20, 51) as u32
    }

    /// Decodes the metadata record that `header` starts.
    pub fn parse(reader: &mut ByteSource, header: RecordHeader) -> (res: Result<Self, FtfError>)
        ensures
            outcome(res) == parse_metadata_record(header@, old(reader).remaining()).result,
            final(reader).remaining() == parse_metadata_record(
                header@,
                old(reader).remaining(),
            ).rest,
    {
        let word = header.value();
        if word == MAGIC_NUMBER_RECORD {
            return Ok(Self::MagicNumber);
        }
        assert(spec_extract_bits(word, 52, 59) < 0x100 && spec_extract_bits(word, 52, 55) < 0x10
            && spec_extract_bits(word, 20, 23) < 0x10) by (bit_vector);

        match MetadataRecord::metadata_type(&header)? {
            MetadataType::ProviderInfo => {
                let provider_id = Self::provider_id(&header);
                let namelen = extract_bits(word, 52, 59) as usize;

                let provider_name = read_aligned_str(reader, namelen)?;

                Ok(Self::ProviderInfo(ProviderInfo { provider_id, provider_name }))
            },
            MetadataType::ProviderSection => {
                let provider_id = Self::provider_id(&header);
                Ok(Self::ProviderSection(ProviderSection { provider_id }))
            },
            MetadataType::ProviderEvent => {
                let provider_id = Self::provider_id(&header);
                let event_id = extract_bits(word, 52, 55) as u8;
                Ok(Self::ProviderEvent(ProviderEvent { provider_id, event_id }))
            },
            MetadataType::TraceInfo => {
                let trace_info_type = extract_bits(word, 20, 23) as u8;
                let data = extract_bits(word, 24, 63);
                Ok(Self::TraceInfo(TraceInfo { trace_info_type, data }))
            },
        }
    }

    /// Appends the record.
    pub fn write(&self, writer: &mut Vec<u8>) -> (res: Result<(), FtfError>)
        ensures
            res is Ok,
            final(writer)@ == old(writer)@ + self@.encoding(),
    {
        match self {
            MetadataRecord::MagicNumber => {
                write_u64_word(writer, MAGIC_NUMBER_RECORD);
            },
            MetadataRecord::ProviderEvent(e) => e.write(writer)?,
            MetadataRecord::ProviderInfo(e) => e.write(writer)?,
            MetadataRecord::ProviderSection(e) => e.write(writer)?,
            MetadataRecord::TraceInfo(e) => e.write(writer)?,
        }
        assert(writer@ =~= old(writer)@ + self@.encoding());
        Ok(())
    }
}

/// The magic number, read as a header, is a metadata record of one word and
/// of subtype trace-info.
pub proof fn lemma_magic_number_fields()
    ensures
        spec_extract_bits(MAGIC_NUMBER_RECORD, 0, 3) == 0,
        spec_extract_bits(MAGIC_NUMBER_RECORD, 4, 15) == 1,
        spec_extract_bits(MAGIC_NUMBER_RECORD, 16, 19) == 4,
{
    assert(spec_extract_bits(0x0016547846040010, 0, 3) == 0 && spec_extract_bits(
        0x0016547846040010,
        4,
        15,
    ) == 1 && spec_extract_bits(0x0016547846040010, 16, 19) == 4) by (bit_vector);
}

/// The header of a provider-info record whose name fits decodes to its
/// parts.
proof fn lemma_provider_info_header(r: ProviderInfoView)
    requires
        r.wf(),
    ensures
        parse_record_type(r.header()) == Ok::<RecordType, ErrorView>(RecordType::Metadata),
        spec_extract_bits(r.header(), 16, 19) == 1,
        spec_extract_bits(r.header(), 20, 51) == r.provider_id,
        spec_extract_bits(r.header(), 52, 59) == encode_utf8(r.provider_name).len(),
        r.words() < 0x1000,
        spec_extract_bits(r.header(), 4, 15) == r.words(),
{
    let fields = r.header_fields();
    let size = (r.words() % 0x1000) as u16;
    lemma_fields_width_small(fields);
    lemma_fields_width_take(fields, 0);
    lemma_fields_width_take(fields, 1);
    lemma_fields_width_take(fields, 2);
    lemma_header_decodes(RecordType::Metadata, size, fields, 0);
    lemma_header_decodes(RecordType::Metadata, size, fields, 1);
    lemma_header_decodes(RecordType::Metadata, size, fields, 2);
    lemma_mask_length_fits(fields[0].value, 4);
    lemma_mask_length_fits(fields[1].value, 32);
    lemma_mask_length_fits(fields[2].value, 8);
}

/// The header of a provider-section record decodes to its parts.
proof fn lemma_provider_section_header(r: ProviderSectionView)
    ensures
        parse_record_type(r.header()) == Ok::<RecordType, ErrorView>(RecordType::Metadata),
        spec_extract_bits(r.header(), 16, 19) == 2,
        spec_extract_bits(r.header(), 20, 51) == r.provider_id,
        spec_extract_bits(r.header(), 4, 15) == 1,
{
    let fields = r.header_fields();
    lemma_fields_width_small(fields);
    lemma_fields_width_take(fields, 0);
    lemma_fields_width_take(fields, 1);
    lemma_header_decodes(RecordType::Metadata, 1, fields, 0);
    lemma_header_decodes(RecordType::Metadata, 1, fields, 1);
    lemma_mask_length_fits(fields[0].value, 4);
    lemma_mask_length_fits(fields[1].value, 32);
}

/// The header of a provider-event record whose event id fits decodes to its
/// parts.
proof fn lemma_provider_event_header(r: ProviderEventView)
    requires
        r.wf(),
    ensures
        parse_record_type(r.header()) == Ok::<RecordType, ErrorView>(RecordType::Metadata),
        spec_extract_bits(r.header(), 16, 19) == 3,
        spec_extract_bits(r.header(), 20, 51) == r.provider_id,
        spec_extract_bits(r.header(), 52, 55) == r.event_id,
        spec_extract_bits(r.header(), 4, 15) == 1,
{
    let fields = r.header_fields();
    lemma_fields_width_small(fields);
    lemma_fields_width_take(fields, 0);
    lemma_fields_width_take(fields, 1);
    lemma_fields_width_take(fields, 2);
    lemma_header_decodes(RecordType::Metadata, 1, fields, 0);
    lemma_header_decodes(RecordType::Metadata, 1, fields, 1);
    lemma_header_decodes(RecordType::Metadata, 1, fields, 2);
    lemma_mask_length_fits(fields[0].value, 4);
    lemma_mask_length_fits(fields[1].value, 32);
    lemma_mask_length_fits(fields[2].value, 4);
}

/// The header of a trace-info record whose type and data fit decodes to its
/// parts.
proof fn lemma_trace_info_header(r: TraceInfoView)
    requires
        r.wf(),
    ensures
        parse_record_type(r.header()) == Ok::<RecordType, ErrorView>(RecordType::Metadata),
        spec_extract_bits(r.header(), 16, 19) == 4,
        spec_extract_bits(r.header(), 20, 23) == r.trace_info_type,
        spec_extract_bits(r.header(), 24, 63) == r.data,
        spec_extract_bits(r.header(), 4, 15) == 1,
{
    let fields = r.header_fields();
    lemma_fields_width_small(fields);
    lemma_fields_width_take(fields, 0);
    lemma_fields_width_take(fields, 1);
    lemma_fields_width_take(fields, 2);
    lemma_header_decodes(RecordType::Metadata, 1, fields, 0);
    lemma_header_decodes(RecordType::Metadata, 1, fields, 1);
    lemma_header_decodes(RecordType::Metadata, 1, fields, 2);
    lemma_mask_length_fits(fields[0].value, 4);
    lemma_mask_length_fits(fields[1].value, 4);
    lemma_mask_length_fits(fields[2].value, 40);
}

/// A metadata record that fits its header decodes from the header and the
/// bytes after it to itself, whatever follows them; its header names a
/// metadata record, and its bytes are as many words as the header says.
pub proof fn lemma_metadata_record_roundtrip(record: MetadataRecordView, tail: Seq<u8>)
    requires
        record.wf(),
    ensures
        parse_record_type(record.header()) == Ok::<RecordType, ErrorView>(RecordType::Metadata),
        parse_metadata_record(record.header(), record.body() + tail) == parsed_ok(record, tail),
        record.encoding().len() == record.words() * 8,
        record.words() < 0x1000,
        spec_extract_bits(record.header(), 4, 15) == record.words(),
{
    lemma_magic_number_fields();
    lemma_word_roundtrip(record.header(), Seq::empty());
    match record {
        MetadataRecordView::ProviderInfo(r) => {
            lemma_provider_info_header(r);
            lemma_padded_string_roundtrip(r.provider_name, tail);
        },
        MetadataRecordView::ProviderSection(r) => {
            lemma_provider_section_header(r);
            assert(record.body() + tail =~= tail);
        },
        MetadataRecordView::ProviderEvent(r) => {
            lemma_provider_event_header(r);
            assert(record.body() + tail =~= tail);
        },
        MetadataRecordView::TraceInfo(r) => {
            lemma_trace_info_header(r);
            assert(record.body() + tail =~= tail);
        },
        MetadataRecordView::MagicNumber => {
            assert(record.body() + tail =~= tail);
        },
    }
}

/// Decoding a metadata record leaves no more bytes than there were.
pub proof fn lemma_parse_metadata_record_rest(header: u64, input: Seq<u8>)
    ensures
        parse_metadata_record(header, input).rest.len() <= input.len(),
{
    lemma_parse_word_rest(input, spec_extract_bits(header, 52, 59) as nat);
}

} // verus!
