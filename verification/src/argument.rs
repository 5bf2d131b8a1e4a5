//! Event arguments: nested records with a header word of their own.

use vstd::prelude::*;
use crate::bitutils::{extract_bits, spec_extract_bits};
use crate::error::{outcome, parsed_err, parsed_ok, ErrorView, FtfError, Parsed};
use crate::refs::{
    lemma_parse_ref_rest, lemma_string_ref_roundtrip, parse_string_ref, StringRef, StringRefView,
};
use crate::source::ByteSource;
use crate::wordutils::{
    lemma_join_three, lemma_parse_word_rest, lemma_word_roundtrip, parse_word, read_u64_word,
    word_bytes, write_u64_word,
};

verus! {

/// A named value attached to an event. A float is held as its IEEE-754 bit
/// pattern, which is what the wire carries.
#[derive(Debug, Clone, PartialEq, Eq)]
pub enum Argument {
    Null(StringRef),
    Int32(StringRef, i32),
    UInt32(StringRef, u32),
    Int64(StringRef, i64),
    UInt64(StringRef, u64),
    Float(StringRef, u64),
    Str(StringRef, StringRef),
    Pointer(StringRef, u64),
    KernelObjectId(StringRef, u64),
    Boolean(StringRef, bool),
}

/// The model of an [`Argument`].
pub enum ArgumentView {
    Null(StringRefView),
    Int32(StringRefView, i32),
    UInt32(StringRefView, u32),
    Int64(StringRefView, i64),
    UInt64(StringRefView, u64),
    Float(StringRefView, u64),
    Str(StringRefView, StringRefView),
    Pointer(StringRefView, u64),
    KernelObjectId(StringRefView, u64),
    Boolean(StringRefView, bool),
}

impl View for Argument {
    type V = ArgumentView;

    open spec fn view(&self) -> ArgumentView {
        match self {
            Argument::Null(n) => ArgumentView::Null(n@),
            Argument::Int32(n, v) => ArgumentView::Int32(n@, *v),
            Argument::UInt32(n, v) => ArgumentView::UInt32(n@, *v),
            Argument::Int64(n, v) => ArgumentView::Int64(n@, *v),
            Argument::UInt64(n, v) => ArgumentView::UInt64(n@, *v),
            Argument::Float(n, v) => ArgumentView::Float(n@, *v),
            Argument::Str(n, v) => ArgumentView::Str(n@, v@),
            Argument::Pointer(n, v) => ArgumentView::Pointer(n@, *v),
            Argument::KernelObjectId(n, v) => ArgumentView::KernelObjectId(n@, *v),
            Argument::Boolean(n, v) => ArgumentView::Boolean(n@, *v),
        }
    }
}

/// The value type of an argument.
#[derive(Debug, Clone, Copy, PartialEq, Eq, Structural)]
pub enum ArgumentType {
    Null,
    Int32,
    UInt32,
    Int64,
    UInt64,
    Float,
    Str,
    Pointer,
    KernelObjectId,
    Boolean,
}

/// An argument value-type tag that names no argument type.
#[derive(Clone, Copy, Debug, Eq, PartialEq, Structural)]
pub struct ArgumentTypeParseError(pub u8);

/// The argument type that a 4-bit tag names, if any.
pub open spec fn argument_type_of(tag: u8) -> Option<ArgumentType> {
    match tag {
        0 => Some(ArgumentType::Null),
        1 => Some(ArgumentType::Int32),
        2 => Some(ArgumentType::UInt32),
        3 => Some(ArgumentType::Int64),
        4 => Some(ArgumentType::UInt64),
        5 => Some(ArgumentType::Float),
        6 => Some(ArgumentType::Str),
        7 => Some(ArgumentType::Pointer),
        8 => Some(ArgumentType::KernelObjectId),
        9 => Some(ArgumentType::Boolean),
        _ => None,
    }
}

impl ArgumentType {
    /// The tag that stands for this value type in bits 0–3 of an argument
    /// header.
    pub open spec fn spec_tag(self) -> u8 {
        match self {
            ArgumentType::Null => 0,
            ArgumentType::Int32 => 1,
            ArgumentType::UInt32 => 2,
            ArgumentType::Int64 => 3,
            ArgumentType::UInt64 => 4,
            ArgumentType::Float => 5,
            ArgumentType::Str => 6,
            ArgumentType::Pointer => 7,
            ArgumentType::KernelObjectId => 8,
            ArgumentType::Boolean => 9,
        }
    }

    /// The tag that stands for this value type in bits 0–3 of an argument
    /// header.
    pub fn tag(self) -> (tag: u8)
        ensures
            tag == self.spec_tag(),
            argument_type_of(tag) == Some(self),
    {
        match self {
            ArgumentType::Null => 0,
            ArgumentType::Int32 => 1,
            ArgumentType::UInt32 => 2,
            ArgumentType::Int64 => 3,
            ArgumentType::UInt64 => 4,
            ArgumentType::Float => 5,
            ArgumentType::Str => 6,
            ArgumentType::Pointer => 7,
            ArgumentType::KernelObjectId => 8,
            ArgumentType::Boolean => 9,
        }
    }

    /// The value type that `value` names; the value itself comes back where
    /// it names none.
    pub fn try_from(value: u8) -> (res: Result<Self, ArgumentTypeParseError>)
        ensures
            res == match argument_type_of(value) {
                Some(t) => Ok::<ArgumentType, ArgumentTypeParseError>(t),
                None => Err(ArgumentTypeParseError(value)),
            },
    {
        match value {
            0 => Ok(Self::Null),
            1 => Ok(Self::Int32),
            2 => Ok(Self::UInt32),
            3 => Ok(Self::Int64),
            4 => Ok(Self::UInt64),
            5 => Ok(Self::Float),
            6 => Ok(Self::Str),
            7 => Ok(Self::Pointer),
            8 => Ok(Self::KernelObjectId),
            9 => Ok(Self::Boolean),
            _ => Err(ArgumentTypeParseError(value)),
        }
    }
}

/// The header word of an argument: the value type in bits 0–3, the low 12
/// bits of the size in words in bits 4–15, the name field in bits 16–31 and
/// the data of the value type in bits 32–63.
pub open spec fn argument_header(tag: u8, words: u16, name: u16, data: u32) -> u64 {
    (tag as u64) | (((words & 0xfff) as u64) << 4) | ((name as u64) << 16) | ((data as u64) << 32)
}

impl ArgumentView {
    /// The value type.
    pub open spec fn arg_type(self) -> ArgumentType {
        match self {
            ArgumentView::Null(_) => ArgumentType::Null,
            ArgumentView::Int32(_, _) => ArgumentType::Int32,
            ArgumentView::UInt32(_, _) => ArgumentType::UInt32,
            ArgumentView::Int64(_, _) => ArgumentType::Int64,
            ArgumentView::UInt64(_, _) => ArgumentType::UInt64,
            ArgumentView::Float(_, _) => ArgumentType::Float,
            ArgumentView::Str(_, _) => ArgumentType::Str,
            ArgumentView::Pointer(_, _) => ArgumentType::Pointer,
            ArgumentView::KernelObjectId(_, _) => ArgumentType::KernelObjectId,
            ArgumentView::Boolean(_, _) => ArgumentType::Boolean,
        }
    }

    /// The name.
    pub open spec fn name(self) -> StringRefView {
        match self {
            ArgumentView::Null(n) => n,
            ArgumentView::Int32(n, _) => n,
            ArgumentView::UInt32(n, _) => n,
            ArgumentView::Int64(n, _) => n,
            ArgumentView::UInt64(n, _) => n,
            ArgumentView::Float(n, _) => n,
            ArgumentView::Str(n, _) => n,
            ArgumentView::Pointer(n, _) => n,
            ArgumentView::KernelObjectId(n, _) => n,
            ArgumentView::Boolean(n, _) => n,
        }
    }

    /// Bits 32–63 of the header: a 32-bit value, a boolean in bit 32, the
    /// field of a string value, and 0 for the rest.
    pub open spec fn data(self) -> u32 {
        match self {
            ArgumentView::Int32(_, v) => v as u32,
            ArgumentView::UInt32(_, v) => v,
            ArgumentView::Str(_, v) => v.field() as u32,
            ArgumentView::Boolean(_, v) => if v {
                1
            } else {
                0
            },
            _ => 0,
        }
    }

    /// The number of words after the header and the name: one for a 64-bit
    /// value, those of an inline string value, none for the rest.
    pub open spec fn value_words(self) -> nat {
        match self {
            ArgumentView::Int64(_, _)
            | ArgumentView::UInt64(_, _)
            | ArgumentView::Float(_, _)
            | ArgumentView::Pointer(_, _)
            | ArgumentView::KernelObjectId(_, _) => 1,
            ArgumentView::Str(_, v) => v.words(),
            _ => 0,
        }
    }

    /// The bytes after the header and the name.
    pub open spec fn value_payload(self) -> Seq<u8> {
        match self {
            ArgumentView::Int64(_, v) => word_bytes(v as u64),
            ArgumentView::UInt64(_, v) => word_bytes(v),
            ArgumentView::Float(_, v) => word_bytes(v),
            ArgumentView::Pointer(_, v) => word_bytes(v),
            ArgumentView::KernelObjectId(_, v) => word_bytes(v),
            ArgumentView::Str(_, v) => v.payload(),
            _ => Seq::empty(),
        }
    }

    /// The size of the argument in words, header included.
    pub open spec fn words(self) -> nat {
        1 + self.name().words() + self.value_words()
    }

    /// The header word.
    pub open spec fn header(self) -> u64 {
        argument_header(
            self.arg_type().spec_tag(),
            (self.words() % 0x1000) as u16,
            self.name().field(),
            self.data(),
        )
    }

    /// The bytes of the argument on the wire: header, name payload, value
    /// payload.
    pub open spec fn encoding(self) -> Seq<u8> {
        word_bytes(self.header()) + self.name().payload() + self.value_payload()
    }

    /// Whether the fields of the header can hold the name and, for a string
    /// argument, the value.
    pub open spec fn wf(self) -> bool {
        &&& self.name().wf()
        &&& self matches ArgumentView::Str(_, v) ==> v.wf()
    }
}

/// What decoding the value of an argument makes of its type, its header
/// word, its name and the bytes after the name.
pub open spec fn parse_argument_value(
    arg_type: ArgumentType,
    header: u64,
    name: StringRefView,
    input: Seq<u8>,
) -> Parsed<ArgumentView> {
    match arg_type {
        ArgumentType::Null => parsed_ok(ArgumentView::Null(name), input),
        ArgumentType::Int32 => parsed_ok(
            ArgumentView::Int32(name, spec_extract_bits(header, 32, 63) as u32 as i32),
            input,
        ),
        ArgumentType::UInt32 => parsed_ok(
            ArgumentView::UInt32(name, spec_extract_bits(header, 32, 63) as u32),
            input,
        ),
        ArgumentType::Boolean => parsed_ok(
            ArgumentView::Boolean(name, spec_extract_bits(header, 32, 32) == 1),
            input,
        ),
        ArgumentType::Str => {
            let value = parse_string_ref(spec_extract_bits(header, 32, 47) as u16, input);
            match value.result {
                Ok(v) => parsed_ok(ArgumentView::Str(name, v), value.rest),
                Err(e) => parsed_err(e, value.rest),
            }
        },
        _ => {
            let value = parse_word(input);
            match value.result {
                Ok(v) => parsed_ok(
                    match arg_type {
                        ArgumentType::Int64 => ArgumentView::Int64(name, v as i64),
                        ArgumentType::UInt64 => ArgumentView::UInt64(name, v),
                        ArgumentType::Float => ArgumentView::Float(name, v),
                        ArgumentType::Pointer => ArgumentView::Pointer(name, v),
                        _ => ArgumentView::KernelObjectId(name, v),
                    },
                    value.rest,
                ),
                Err(e) => parsed_err(e, value.rest),
            }
        },
    }
}

/// What decoding one argument makes of `input`: the header word, the value
/// type it names, the name, then the value.
pub open spec fn parse_argument(input: Seq<u8>) -> Parsed<ArgumentView> {
    let head = parse_word(input);
    match head.result {
        Err(e) => parsed_err(e, head.rest),
        Ok(header) => {
            let tag = spec_extract_bits(header, 0, 3) as u8;
            match argument_type_of(tag) {
                None => parsed_err(ErrorView::InvalidArgumentType(tag), head.rest),
                Some(arg_type) => {
                    let name = parse_string_ref(
                        spec_extract_bits(header, 16, 31) as u16,
                        head.rest,
                    );
                    match name.result {
                        Err(e) => parsed_err(e, name.rest),
                        Ok(n) => parse_argument_value(arg_type, header, n, name.rest),
                    }
                },
            }
        },
    }
}

impl Argument {
    /// Reads one argument.
    pub fn read(reader: &mut ByteSource) -> (res: Result<Self, FtfError>)
        ensures
            outcome(res) == parse_argument(old(reader).remaining()).result,
            final(reader).remaining() == parse_argument(old(reader).remaining()).rest,
    {
        let header = read_u64_word(reader)?;
        proof {
            lemma_field_bounds(header);
        }
        let arg_type = match ArgumentType::try_from(extract_bits(header, 0, 3) as u8) {
            Ok(t) => t,
            Err(e) => {
                return Err(FtfError::InvalidArgumentType(e));
            },
        };
        let arg_name = StringRef::read(reader, extract_bits(header, 16, 31) as u16)?;

        match arg_type {
            ArgumentType::Null => Ok(Argument::Null(arg_name)),
            ArgumentType::Int32 => Ok(
                Argument::Int32(arg_name, extract_bits(header, 32, 63) as u32 as i32),
            ),
            ArgumentType::UInt32 => Ok(
                Argument::UInt32(arg_name, extract_bits(header, 32, 63) as u32),
            ),
            ArgumentType::Int64 => Ok(Argument::Int64(arg_name, read_u64_word(reader)? as i64)),
            ArgumentType::UInt64 => Ok(Argument::UInt64(arg_name, read_u64_word(reader)?)),
            ArgumentType::Float => Ok(Argument::Float(arg_name, read_u64_word(reader)?)),
            ArgumentType::Str => {
                let arg_value = StringRef::read(reader, extract_bits(header, 32, 47) as u16)?;
                Ok(Argument::Str(arg_name, arg_value))
            },
            ArgumentType::Pointer => Ok(Argument::Pointer(arg_name, read_u64_word(reader)?)),
            ArgumentType::KernelObjectId => Ok(
                Argument::KernelObjectId(arg_name, read_u64_word(reader)?),
            ),
            ArgumentType::Boolean => Ok(
                Argument::Boolean(arg_name, extract_bits(header, 32, 32) == 1),
            ),
        }
    }

    /// The header word of an argument, from its parts.
    pub fn create_header(
        arg_type: ArgumentType,
        arg_name: &StringRef,
        num_words: u16,
        data: u32,
    ) -> (header: u64)
        ensures
            header == argument_header(arg_type.spec_tag(), num_words, arg_name@.field(), data),
    {
        let name = arg_name.to_field();
        (arg_type.tag() as u64) | (((num_words & 0xfff) as u64) << 4) | ((name as u64) << 16) | ((
        data as u64) << 32)
    }

    fn write_header_and_name(&self, writer: &mut Vec<u8>, data: u32) -> (res: Result<(), FtfError>)
        requires
            data == self@.data(),
        ensures
            res is Ok,
            final(writer)@ == old(writer)@ + word_bytes(self@.header()) + self@.name().payload(),
    {
        let num_words = self.encoding_num_words();
        let arg_name = self.name();
        let header = Argument::create_header(
            self.arg_type(),
            arg_name,
            (num_words % 0x1000) as u16,
            data,
        );
        write_u64_word(writer, header);
        arg_name.write_payload(writer)
    }

    /// The value type of this argument.
    pub fn arg_type(&self) -> (arg_type: ArgumentType)
        ensures
            arg_type == self@.arg_type(),
    {
        match self {
            Argument::Null(_) => ArgumentType::Null,
            Argument::Int32(_, _) => ArgumentType::Int32,
            Argument::UInt32(_, _) => ArgumentType::UInt32,
            Argument::Int64(_, _) => ArgumentType::Int64,
            Argument::UInt64(_, _) => ArgumentType::UInt64,
            Argument::Float(_, _) => ArgumentType::Float,
            Argument::Pointer(_, _) => ArgumentType::Pointer,
            Argument::KernelObjectId(_, _) => ArgumentType::KernelObjectId,
            Argument::Boolean(_, _) => ArgumentType::Boolean,
            Argument::Str(_, _) => ArgumentType::Str,
        }
    }

    /// The name of this argument.
    pub fn name(&self) -> (name: &StringRef)
        ensures
            name@ == self@.name(),
    {
        match self {
            Argument::Null(s) => s,
            Argument::Int32(s, _) => s,
            Argument::UInt32(s, _) => s,
            Argument::Int64(s, _) => s,
            Argument::UInt64(s, _) => s,
            Argument::Float(s, _) => s,
            Argument::Pointer(s, _) => s,
            Argument::KernelObjectId(s, _) => s,
            Argument::Boolean(s, _) => s,
            Argument::Str(s, _) => s,
        }
    }

    /// The size of this argument in words, header included.
    pub fn encoding_num_words(&self) -> (words: usize)
        ensures
            words == self@.words(),
            words <= usize::MAX / 4 + 3,
    {
        let value_words: usize = match self {
            Argument::Null(_)
            | Argument::Int32(_, _)
            | Argument::UInt32(_, _)
            | Argument::Boolean(_, _) => 0,
            Argument::Int64(_, _)
            | Argument::UInt64(_, _)
            | Argument::Pointer(_, _)
            | Argument::KernelObjectId(_, _)
            | Argument::Float(_, _) => 1,
            Argument::Str(_, s) => s.encoding_num_words(),
        };
        1 + self.name().encoding_num_words() + value_words
    }

    /// Appends this argument: header, name payload, value payload.
    pub fn write(&self, writer: &mut Vec<u8>) -> (res: Result<(), FtfError>)
        ensures
            res is Ok,
            final(writer)@ == old(writer)@ + self@.encoding(),
    {
        match self {
            Argument::Null(_) => {
                self.write_header_and_name(writer, 0)?;
            },
            Argument::Int32(_, val) => {
                self.write_header_and_name(writer, *val as u32)?;
            },
            Argument::UInt32(_, val) => {
                self.write_header_and_name(writer, *val)?;
            },
            Argument::Int64(_, val) => {
                self.write_header_and_name(writer, 0)?;
                write_u64_word(writer, *val as u64);
            },
            Argument::UInt64(_, val) => {
                self.write_header_and_name(writer, 0)?;
                write_u64_word(writer, *val);
            },
            Argument::Float(_, val) => {
                self.write_header_and_name(writer, 0)?;
                write_u64_word(writer, *val);
            },
            Argument::Str(_, val) => {
                self.write_header_and_name(writer, val.to_field() as u32)?;
                val.write_payload(writer)?;
            },
            Argument::Pointer(_, val) => {
                self.write_header_and_name(writer, 0)?;
                write_u64_word(writer, *val);
            },
            Argument::KernelObjectId(_, val) => {
                self.write_header_and_name(writer, 0)?;
                write_u64_word(writer, *val);
            },
            Argument::Boolean(_, val) => {
                self.write_header_and_name(
                    writer,
                    if *val {
                        1
                    } else {
                        0
                    },
                )?;
            },
        }
        assert(writer@ =~= old(writer)@ + self@.encoding());
        Ok(())
    }
}

/// Each field of an argument header reads back as what was packed into it.
pub proof fn lemma_argument_header_fields(tag: u8, words: u16, name: u16, data: u32)
    by (bit_vector)
    requires
        tag < 16,
    ensures
        spec_extract_bits(argument_header(tag, words, name, data), 0, 3) == tag as u64,
        spec_extract_bits(argument_header(tag, words, name, data), 4, 15) == (words & 0xfff) as u64,
        spec_extract_bits(argument_header(tag, words, name, data), 16, 31) == name as u64,
        spec_extract_bits(argument_header(tag, words, name, data), 32, 63) == data as u64,
        spec_extract_bits(argument_header(tag, words, name, data), 32, 47) == (data
            & 0xffff) as u64,
        spec_extract_bits(argument_header(tag, words, name, data), 32, 32) == (data & 1) as u64,
{
}

/// A signed value comes back from the unsigned bits that carry it.
pub proof fn lemma_signed_bits_roundtrip(narrow: i32, wide: i64, field: u16)
    by (bit_vector)
    ensures
        ((narrow as u32) as u64) as u32 as i32 == narrow,
        (wide as u64) as i64 == wide,
        (((field as u32) & 0xffff) as u64) as u16 == field,
{
}

/// The value of an argument decodes from the header and the value payload
/// to the argument itself.
proof fn lemma_argument_value_roundtrip(a: ArgumentView, tail: Seq<u8>)
    requires
        a.wf(),
    ensures
        parse_argument_value(a.arg_type(), a.header(), a.name(), a.value_payload() + tail)
            == parsed_ok(a, tail),
        a.value_payload().len() == a.value_words() * 8,
{
    let words = (a.words() % 0x1000) as u16;
    lemma_argument_header_fields(a.arg_type().spec_tag(), words, a.name().field(), a.data());
    match a {
        ArgumentView::Int32(_, v) => {
            lemma_signed_bits_roundtrip(v, 0, 0);
            assert(a.value_payload() + tail =~= tail);
        },
        ArgumentView::Int64(_, v) => {
            lemma_signed_bits_roundtrip(0, v, 0);
            lemma_word_roundtrip(v as u64, tail);
        },
        ArgumentView::UInt64(_, v) => {
            lemma_word_roundtrip(v, tail);
        },
        ArgumentView::Float(_, v) => {
            lemma_word_roundtrip(v, tail);
        },
        ArgumentView::Pointer(_, v) => {
            lemma_word_roundtrip(v, tail);
        },
        ArgumentView::KernelObjectId(_, v) => {
            lemma_word_roundtrip(v, tail);
        },
        ArgumentView::Str(_, v) => {
            lemma_signed_bits_roundtrip(0, 0, v.field());
            lemma_string_ref_roundtrip(v, tail);
        },
        ArgumentView::Boolean(_, v) => {
            assert(1u32 & 1 == 1 && 0u32 & 1 == 0) by (bit_vector);
            assert(a.value_payload() + tail =~= tail);
        },
        _ => {
            assert(a.value_payload() + tail =~= tail);
        },
    }
}

/// The header of an argument decodes to the parts it was built from; its
/// size field is the size of the argument where that is below 4096.
proof fn lemma_argument_header(a: ArgumentView)
    ensures
        argument_type_of(spec_extract_bits(a.header(), 0, 3) as u8) == Some(a.arg_type()),
        spec_extract_bits(a.header(), 16, 31) as u16 == a.name().field(),
        a.words() < 0x1000 ==> spec_extract_bits(a.header(), 4, 15) == a.words(),
{
    let words = (a.words() % 0x1000) as u16;
    lemma_argument_header_fields(a.arg_type().spec_tag(), words, a.name().field(), a.data());
    assert(words & 0xfff == words) by (bit_vector)
        requires
            words < 0x1000,
    ;
}

/// An argument whose string-refs fit their fields decodes from its own bytes
/// to itself, whatever follows them; its bytes are as many words as its
/// header says, where that is below 4096.
pub proof fn lemma_argument_roundtrip(a: ArgumentView, tail: Seq<u8>)
    requires
        a.wf(),
    ensures
        parse_argument(a.encoding() + tail) == parsed_ok(a, tail),
        a.encoding().len() == a.words() * 8,
        a.words() < 0x1000 ==> spec_extract_bits(a.header(), 4, 15) == a.words(),
{
    let header = a.header();
    let after_name = a.value_payload() + tail;
    let after_header = a.name().payload() + after_name;
    lemma_join_three(word_bytes(header), a.name().payload(), a.value_payload(), tail);
    lemma_word_roundtrip(header, after_header);
    lemma_argument_header(a);
    lemma_string_ref_roundtrip(a.name(), after_name);
    lemma_argument_value_roundtrip(a, tail);
    assert(parse_word(word_bytes(header) + after_header) == parsed_ok(header, after_header));
    assert(parse_string_ref(a.name().field(), after_header) == parsed_ok(a.name(), after_name));
}

/// The fields of an argument header fit the types they are read as.
proof fn lemma_field_bounds(header: u64)
    ensures
        spec_extract_bits(header, 0, 3) < 0x10,
        spec_extract_bits(header, 16, 31) < 0x1_0000,
        spec_extract_bits(header, 32, 47) < 0x1_0000,
        spec_extract_bits(header, 32, 63) < 0x1_0000_0000,
{
    assert(spec_extract_bits(header, 0, 3) < 0x10 && spec_extract_bits(header, 16, 31) < 0x1_0000
        && spec_extract_bits(header, 32, 47) < 0x1_0000 && spec_extract_bits(header, 32, 63)
        < 0x1_0000_0000) by (bit_vector);
}

/// Decoding an argument leaves no more bytes than there were.
pub proof fn lemma_parse_argument_rest(input: Seq<u8>)
    ensures
        parse_argument(input).rest.len() <= input.len(),
{
    lemma_parse_word_rest(input, 0);
    let head = parse_word(input);
    if head.result is Ok {
        let header = head.result->Ok_0;
        let name_field = spec_extract_bits(header, 16, 31) as u16;
        let value_field = spec_extract_bits(header, 32, 47) as u16;
        lemma_parse_ref_rest(name_field, 0, head.rest);
        let name = parse_string_ref(name_field, head.rest);
        lemma_parse_ref_rest(value_field, 0, name.rest);
        lemma_parse_word_rest(name.rest, 0);
    }
}

} // verus!
