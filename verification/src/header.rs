//! The 64-bit header word that starts every record.

use vstd::prelude::*;
use crate::bitutils::{
    extract_bits, fits_below, lemma_field_of_low_bits, lemma_fits_below_masked, lemma_or_field_fits,
    lemma_or_field_reads_back, low_mask, mask_length, spec_extract_bits, spec_field_at,
    spec_mask_length,
};
use crate::error::{outcome, ErrorView, FtfError};
use crate::event::EventType;

verus! {

/// Type of a record
#[derive(Debug, Clone, Copy, PartialEq, Eq, Structural)]
pub enum RecordType {
    /// Metadata record
    Metadata,
    /// Initialization record
    Initialization,
    /// String record
    String,
    /// Thread record
    Thread,
    /// Event record
    Event,
    /// BLOB record
    Blob,
    /// Userspace record
    Userspace,
    /// Kernel record
    Kernel,
    /// Scheduling record
    Scheduling,
    /// Log record
    Log,
    /// Large BLOB record
    LargeBlob,
}

/// A record-type tag that names no record type.
#[derive(Clone, Copy, Debug, Eq, PartialEq, Structural)]
pub struct RecordTypeParseError(pub u8);

/// The record type that a 4-bit tag names, if any.
pub open spec fn record_type_of(tag: u8) -> Option<RecordType> {
    match tag {
        0 => Some(RecordType::Metadata),
        1 => Some(RecordType::Initialization),
        2 => Some(RecordType::String),
        3 => Some(RecordType::Thread),
        4 => Some(RecordType::Event),
        5 => Some(RecordType::Blob),
        6 => Some(RecordType::Userspace),
        7 => Some(RecordType::Kernel),
        8 => Some(RecordType::Scheduling),
        9 => Some(RecordType::Log),
        15 => Some(RecordType::LargeBlob),
        _ => None,
    }
}

impl View for RecordType {
    type V = RecordType;

    open spec fn view(&self) -> RecordType {
        *self
    }
}

/// The record type that bits 0–3 of a header word name, or the error that
/// holds the tag.
pub open spec fn parse_record_type(header: u64) -> Result<RecordType, ErrorView> {
    let tag = spec_extract_bits(header, 0, 3) as u8;
    match record_type_of(tag) {
        Some(t) => Ok(t),
        None => Err(ErrorView::InvalidRecordType(tag)),
    }
}

impl RecordType {
    /// The tag that stands for this record type in bits 0–3 of a header.
    pub open spec fn spec_tag(self) -> u8 {
        match self {
            RecordType::Metadata => 0,
            RecordType::Initialization => 1,
            RecordType::String => 2,
            RecordType::Thread => 3,
            RecordType::Event => 4,
            RecordType::Blob => 5,
            RecordType::Userspace => 6,
            RecordType::Kernel => 7,
            RecordType::Scheduling => 8,
            RecordType::Log => 9,
            RecordType::LargeBlob => 15,
        }
    }

    /// The tag that stands for this record type in bits 0–3 of a header.
    pub fn tag(self) -> (tag: u8)
        ensures
            tag == self.spec_tag(),
            record_type_of(tag) == Some(self),
    {
        match self {
            RecordType::Metadata => 0,
            RecordType::Initialization => 1,
            RecordType::String => 2,
            RecordType::Thread => 3,
            RecordType::Event => 4,
            RecordType::Blob => 5,
            RecordType::Userspace => 6,
            RecordType::Kernel => 7,
            RecordType::Scheduling => 8,
            RecordType::Log => 9,
            RecordType::LargeBlob => 15,
        }
    }

    /// The record type that `value` names; the value itself comes back where
    /// it names none.
    pub fn try_from(value: u8) -> (res: Result<Self, RecordTypeParseError>)
        ensures
            res == match record_type_of(value) {
                Some(t) => Ok::<RecordType, RecordTypeParseError>(t),
                None => Err(RecordTypeParseError(value)),
            },
    {
        match value {
            0 => Ok(Self::Metadata),
            1 => Ok(Self::Initialization),
            2 => Ok(Self::String),
            3 => Ok(Self::Thread),
            4 => Ok(Self::Event),
            5 => Ok(Self::Blob),
            6 => Ok(Self::Userspace),
            7 => Ok(Self::Kernel),
            8 => Ok(Self::Scheduling),
            9 => Ok(Self::Log),
            15 => Ok(Self::LargeBlob),
            _ => Err(RecordTypeParseError(value)),
        }
    }
}

/// One custom bit field of a header: the low `width` bits of `value`.
#[derive(Debug, Clone, Copy, PartialEq, Eq, Structural)]
pub struct CustomField {
    pub width: u8,
    pub value: u64,
}

/// The bit at which the custom fields of a header start.
pub const CUSTOM_FIELDS_START: u64 = 16;

/// The sum of the widths of `fields`.
pub open spec fn fields_width(fields: Seq<CustomField>) -> nat
    decreases fields.len(),
{
    if fields.len() == 0 {
        0
    } else {
        fields[0].width as nat + fields_width(fields.drop_first())
    }
}

/// `acc` with `field` or-ed in at bit `offset`, masked to its width.
pub open spec fn pack_field(acc: u64, offset: u64, field: CustomField) -> u64 {
    if offset < 64 {
        acc | (spec_mask_length(field.value, field.width as u64) << offset)
    } else {
        acc
    }
}

/// `acc` with `fields` or-ed in one after the other, the first at bit
/// `offset`.
pub open spec fn pack_fields(acc: u64, offset: u64, fields: Seq<CustomField>) -> u64
    decreases fields.len(),
{
    if fields.len() == 0 {
        acc
    } else {
        pack_fields(
            pack_field(acc, offset, fields[0]),
            (offset + fields[0].width) as u64,
            fields.drop_first(),
        )
    }
}

/// The first two fields of a header: the tag in bits 0–3, and the low 12
/// bits of `size` in bits 4–15.
pub open spec fn header_base(record_type: RecordType, size: u16) -> u64 {
    (record_type.spec_tag() as u64) | (((size & 0xfff) as u64) << 4)
}

/// The header word of a record of the given type and size in words, with
/// `fields` packed from bit 16 up.
pub open spec fn header_word(record_type: RecordType, size: u16, fields: Seq<CustomField>) -> u64 {
    pack_fields(header_base(record_type, size), CUSTOM_FIELDS_START, fields)
}

/// The bit at which field `index` of `fields` starts.
pub open spec fn field_offset(fields: Seq<CustomField>, index: int) -> nat {
    (CUSTOM_FIELDS_START + fields_width(fields.take(index))) as nat
}

/// Header for a record
#[derive(Debug, Clone, Copy, PartialEq, Eq, Structural)]
pub struct RecordHeader {
    pub(crate) value: u64,
}

impl View for RecordHeader {
    type V = u64;

    closed spec fn view(&self) -> u64 {
        self.value
    }
}

impl RecordHeader {
    /// Builds the header of an event record from its parts.
    pub fn build_event_header(
        record_size: u16,
        event_type: EventType,
        nargs: usize,
        tid: u8,
        cid: u16,
        nid: u16,
    ) -> (res: Result<Self, FtfError>)
        ensures
            res is Ok,
            res->Ok_0@ == header_word(
                RecordType::Event,
                record_size,
                seq![
                    CustomField { width: 4, value: event_type.spec_tag() as u64 },
                    CustomField { width: 4, value: nargs as u64 },
                    CustomField { width: 8, value: tid as u64 },
                    CustomField { width: 16, value: cid as u64 },
                    CustomField { width: 16, value: nid as u64 },
                ],
            ),
    {
        let fields = vec![
            CustomField { width: 4, value: event_type.tag() as u64 },
            CustomField { width: 4, value: nargs as u64 },
            CustomField { width: 8, value: tid as u64 },
            CustomField { width: 16, value: cid as u64 },
            CustomField { width: 16, value: nid as u64 },
        ];
        proof {
            reveal_with_fuel(fields_width, 6);
            assert(fields@ =~= seq![
                CustomField { width: 4, value: event_type.spec_tag() as u64 },
                CustomField { width: 4, value: nargs as u64 },
                CustomField { width: 8, value: tid as u64 },
                CustomField { width: 16, value: cid as u64 },
                CustomField { width: 16, value: nid as u64 },
            ]);
        }
        Self::build(RecordType::Event, record_size, fields.as_slice())
    }

    /// Builds a header: the type tag, the size in words masked to 12 bits,
    /// and each custom field masked to its width, from bit 16 up. Fields
    /// that reach beyond bit 63 are refused.
    pub fn build(record_type: RecordType, record_size: u16, fields: &[CustomField]) -> (res: Result<
        Self,
        FtfError,
    >)
        ensures
            CUSTOM_FIELDS_START + fields_width(fields@) <= 64 ==> res is Ok && res->Ok_0@
                == header_word(record_type, record_size, fields@),
            CUSTOM_FIELDS_START + fields_width(fields@) > 64 ==> res is Err && res->Err_0@
                == ErrorView::HeaderFieldOverflow,
    {
        let mut res: u64 = (record_type.tag() as u64) | (((record_size & 0xfff) as u64) << 4);
        let mut offset: u64 = CUSTOM_FIELDS_START;
        let mut i: usize = 0;
        assert(fields@.skip(0) =~= fields@);
        while i < fields.len()
            invariant
                i <= fields.len(),
                offset <= 64,
                offset + fields_width(fields@.skip(i as int)) == CUSTOM_FIELDS_START + fields_width(
                    fields@,
                ),
                pack_fields(res, offset, fields@.skip(i as int)) == header_word(
                    record_type,
                    record_size,
                    fields@,
                ),
            decreases fields.len() - i,
        {
            let field = fields[i];
            proof {
                assert(fields@.skip(i as int).drop_first() =~= fields@.skip(i as int + 1));
                assert(fields_width(fields@.skip(i as int + 1)) >= 0);
            }
            if field.width as u64 > 64 - offset {
                return Err(FtfError::HeaderFieldOverflow);
            }
            if offset < 64 {
                res = res | (mask_length(field.value, field.width as u32) << offset);
            }
            offset = offset + field.width as u64;
            i = i + 1;
        }
        assert(fields@.skip(i as int) =~= Seq::<CustomField>::empty());
        Ok(Self { value: res })
    }

    /// Create a RecordHeader
    /// * value: 8-byte header for a record
    pub fn new(value: u64) -> (header: Self)
        ensures
            header@ == value,
    {
        Self { value }
    }

    /// The header word itself.
    pub fn value(&self) -> (value: u64)
        ensures
            value == self@,
    {
        self.value
    }

    /// Returns the size of the record described by this header
    /// as a multiple of 8-bytes. i.e., size of 2 means the record is 16-bytes long
    pub fn size(&self) -> (size: u16)
        ensures
            size == spec_extract_bits(self@, 4, 15),
    {
        let word = self.value;
        let bits = extract_bits(word, 4, 15);
        assert(spec_extract_bits(word, 4, 15) < 0x1000) by (bit_vector);
        bits as u16
    }

    /// Type of the record described by this header
    pub fn record_type(&self) -> (res: Result<RecordType, FtfError>)
        ensures
            outcome(res) == parse_record_type(self@),
    {
        let word = self.value;
        let bits = extract_bits(word, 0, 3);
        assert(spec_extract_bits(word, 0, 3) < 16) by (bit_vector);
        match RecordType::try_from(bits as u8) {
            Ok(t) => Ok(t),
            Err(e) => Err(FtfError::InvalidRecordType(e)),
        }
    }
}

/// Packing fields changes no bit below the first of them, and sets none at
/// or above the end of the last.
pub proof fn lemma_pack_fields_keeps_low_bits(acc: u64, offset: u64, fields: Seq<CustomField>)
    requires
        offset <= 64,
        offset + fields_width(fields) <= 64,
        fits_below(acc, offset),
    ensures
        pack_fields(acc, offset, fields) & low_mask(offset) == acc,
        fits_below(pack_fields(acc, offset, fields), (offset + fields_width(fields)) as u64),
    decreases fields.len(),
{
    if fields.len() == 0 {
        lemma_fits_below_masked(acc, offset);
    } else {
        let width = fields[0].width as u64;
        let next = pack_field(acc, offset, fields[0]);
        let rest = fields.drop_first();
        assert(fields_width(rest) >= 0);
        if offset < 64 {
            lemma_or_field_fits(acc, offset, fields[0].value, width);
            lemma_pack_fields_keeps_low_bits(next, (offset + width) as u64, rest);
            lemma_or_field_reads_back(
                acc,
                offset,
                fields[0].value,
                width,
                pack_fields(acc, offset, fields),
            );
        } else {
            lemma_pack_fields_keeps_low_bits(next, (offset + width) as u64, rest);
        }
    }
}

/// Field `index` of `fields`, packed from bit `offset` up, reads back as its
/// value masked to its width.
pub proof fn lemma_pack_fields_reads_back(
    acc: u64,
    offset: u64,
    fields: Seq<CustomField>,
    index: int,
)
    requires
        offset <= 64,
        offset + fields_width(fields) <= 64,
        fits_below(acc, offset),
        0 <= index < fields.len(),
        fields[index].width > 0,
    ensures
        offset + fields_width(fields.take(index)) < 64,
        spec_field_at(
            pack_fields(acc, offset, fields),
            (offset + fields_width(fields.take(index))) as u64,
            fields[index].width as u64,
        ) == spec_mask_length(fields[index].value, fields[index].width as u64),
    decreases fields.len(),
{
    let width = fields[0].width as u64;
    let next = pack_field(acc, offset, fields[0]);
    let rest = fields.drop_first();
    assert(fields_width(rest) >= 0);
    if index == 0 {
        assert(fields.take(0) =~= Seq::<CustomField>::empty());
        lemma_or_field_fits(acc, offset, fields[0].value, width);
        lemma_pack_fields_keeps_low_bits(next, (offset + width) as u64, rest);
        lemma_or_field_reads_back(
            acc,
            offset,
            fields[0].value,
            width,
            pack_fields(acc, offset, fields),
        );
    } else {
        assert(fields.take(index).drop_first() =~= rest.take(index - 1));
        assert(fields.take(index)[0] == fields[0]);
        if offset < 64 {
            lemma_or_field_fits(acc, offset, fields[0].value, width);
        }
        lemma_pack_fields_reads_back(next, (offset + width) as u64, rest, index - 1);
    }
}

/// The header that `build` makes of a type, a size and fields that fit
/// decodes to them: bits 0–3 hold the type's tag, bits 4–15 the size (its
/// low 12 bits, which is the size itself below 4096), and each field of
/// non-zero width holds its value masked to that width.
pub proof fn lemma_header_decodes(
    record_type: RecordType,
    size: u16,
    fields: Seq<CustomField>,
    index: int,
)
    requires
        CUSTOM_FIELDS_START + fields_width(fields) <= 64,
    ensures
        record_type_of(spec_extract_bits(header_word(record_type, size, fields), 0, 3) as u8)
            == Some(record_type),
        spec_extract_bits(header_word(record_type, size, fields), 4, 15) == size & 0xfff,
        size < 0x1000 ==> spec_extract_bits(header_word(record_type, size, fields), 4, 15) == size,
        0 <= index < fields.len() && fields[index].width > 0 ==> field_offset(fields, index) < 64
            && spec_field_at(
            header_word(record_type, size, fields),
            field_offset(fields, index) as u64,
            fields[index].width as u64,
        ) == spec_mask_length(fields[index].value, fields[index].width as u64),
{
    let tag = record_type.spec_tag();
    let base = header_base(record_type, size);
    let word = header_word(record_type, size, fields);
    assert(fits_below(base, 16) && spec_field_at(base, 0, 4) == tag as u64 && spec_field_at(
        base,
        4,
        12,
    ) == (size & 0xfff) as u64 && (size < 0x1000 ==> size & 0xfff == size)) by (bit_vector)
        requires
            tag < 16,
            base == (tag as u64) | (((size & 0xfff) as u64) << 4),
    ;
    lemma_pack_fields_keeps_low_bits(base, 16, fields);
    lemma_field_of_low_bits(word, 16, 0, 4);
    lemma_field_of_low_bits(word, 16, 4, 12);
    if 0 <= index < fields.len() && fields[index].width > 0 {
        lemma_pack_fields_reads_back(base, 16, fields, index);
    }
}

/// The fields before field `index + 1` are as wide as those before field
/// `index`, and field `index`.
pub proof fn lemma_fields_width_take(fields: Seq<CustomField>, index: int)
    requires
        0 <= index < fields.len(),
    ensures
        fields_width(fields.take(index + 1)) == fields_width(fields.take(index))
            + fields[index].width,
        fields_width(fields.take(0)) == 0,
    decreases index,
{
    assert(fields.take(0) =~= Seq::<CustomField>::empty());
    if index == 0 {
        assert(fields.take(1).drop_first() =~= Seq::<CustomField>::empty());
        assert(fields_width(Seq::<CustomField>::empty()) == 0);
    } else {
        let rest = fields.drop_first();
        assert(fields.take(index + 1).drop_first() =~= rest.take(index));
        assert(fields.take(index).drop_first() =~= rest.take(index - 1));
        lemma_fields_width_take(rest, index - 1);
    }
}

/// Up to three fields are as wide as their widths add up to.
pub proof fn lemma_fields_width_small(fields: Seq<CustomField>)
    ensures
        fields.len() == 3 ==> fields_width(fields) == fields[0].width + fields[1].width
            + fields[2].width,
        fields.len() == 2 ==> fields_width(fields) == fields[0].width + fields[1].width,
        fields.len() == 1 ==> fields_width(fields) == fields[0].width,
        fields.len() == 0 ==> fields_width(fields) == 0,
{
    reveal_with_fuel(fields_width, 4);
    if fields.len() == 3 {
        assert(fields.drop_first().drop_first().drop_first().len() == 0);
    } else if fields.len() == 2 {
        assert(fields.drop_first().drop_first().len() == 0);
    } else if fields.len() == 1 {
        assert(fields.drop_first().len() == 0);
    }
}

} // verus!
