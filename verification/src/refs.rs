//! Strings and threads that a record holds inline or by reference.

use vstd::prelude::*;
use vstd::utf8::encode_utf8;
use crate::error::{outcome, parsed_err, parsed_ok, FtfError, Parsed};
use crate::source::ByteSource;
use crate::wordutils::{
    lemma_padded_string_roundtrip, lemma_parse_word_rest, lemma_word_roundtrip,
    pad_and_write_string, padded,
    parse_padded_string, parse_word, read_aligned_str, read_u64_word, word_bytes, words_for,
    write_u64_word,
};

verus! {

/// The bit of a string-ref field that marks an inline string.
pub const STRING_INLINE_BIT: u16 = 0x8000;

/// The bits of a string-ref field that hold a length or an index.
pub const STRING_VALUE_MASK: u16 = 0x7FFF;

/// Represents a String as either an inline value
/// which is written with the record, or a reference
/// to a previously interned string (using a string record)
/// as the String record's index
#[derive(Debug, Clone, PartialEq, Eq)]
pub enum StringRef {
    /// Inline string
    Inline(String),
    /// Reference to an interned string
    /// Value is index specified in the String
    /// record on creation
    Ref(u16),
}

/// The model of a [`StringRef`]: an inline string is its characters.
pub enum StringRefView {
    Inline(Seq<char>),
    Ref(u16),
}

impl View for StringRef {
    type V = StringRefView;

    open spec fn view(&self) -> StringRefView {
        match self {
            StringRef::Inline(s) => StringRefView::Inline(s@),
            StringRef::Ref(index) => StringRefView::Ref(*index),
        }
    }
}

impl StringRefView {
    /// The 16-bit field: the inline bit and the low 15 bits of the byte
    /// length, or the low 15 bits of the index.
    pub open spec fn field(self) -> u16 {
        match self {
            StringRefView::Inline(s) => ((encode_utf8(s).len() % 0x8000) as u16) | 0x8000,
            StringRefView::Ref(index) => index & 0x7FFF,
        }
    }

    /// The number of payload words: those of an inline string, none for a
    /// reference.
    pub open spec fn words(self) -> nat {
        match self {
            StringRefView::Inline(s) => words_for(encode_utf8(s).len()),
            StringRefView::Ref(_) => 0,
        }
    }

    /// The payload: the zero-padded UTF-8 of an inline string, nothing for a
    /// reference.
    pub open spec fn payload(self) -> Seq<u8> {
        match self {
            StringRefView::Inline(s) => padded(encode_utf8(s)),
            StringRefView::Ref(_) => Seq::empty(),
        }
    }

    /// Whether the 16-bit field can hold this string-ref: an inline length
    /// or an index of at most 32767.
    pub open spec fn wf(self) -> bool {
        match self {
            StringRefView::Inline(s) => encode_utf8(s).len() <= 0x7FFF,
            StringRefView::Ref(index) => index <= 0x7FFF,
        }
    }
}

/// Whether a string-ref field stands for a reference.
pub open spec fn spec_field_is_ref(field: u16) -> bool {
    field & 0x8000 == 0
}

/// What decoding a string-ref makes of its field and the bytes after it: the
/// field alone decides between the two arms.
pub open spec fn parse_string_ref(field: u16, input: Seq<u8>) -> Parsed<StringRefView> {
    if spec_field_is_ref(field) {
        parsed_ok(StringRefView::Ref(field), input)
    } else {
        let inline = parse_padded_string((field & 0x7FFF) as nat, input);
        match inline.result {
            Ok(s) => parsed_ok(StringRefView::Inline(s), inline.rest),
            Err(e) => parsed_err(e, inline.rest),
        }
    }
}

impl StringRef {
    /// The 16-bit field that stands for this string-ref in a header.
    pub fn to_field(&self) -> (field: u16)
        ensures
            field == self@.field(),
    {
        match self {
            StringRef::Ref(r) => *r & 0x7FFF,
            StringRef::Inline(s) => ((s.as_str().as_bytes().len() % 0x8000) as u16) | 0x8000,
        }
    }

    /// Whether a string-ref field stands for a reference.
    pub fn field_is_ref(field: u16) -> (is_ref: bool)
        ensures
            is_ref == spec_field_is_ref(field),
    {
        (field & 0x8000) == 0
    }

    /// The number of payload words that this string-ref contributes.
    pub fn encoding_num_words(&self) -> (words: usize)
        ensures
            words == self@.words(),
            words <= usize::MAX / 8 + 1,
    {
        match self {
            StringRef::Ref(_) => 0,
            StringRef::Inline(s) => {
                let len = s.as_str().as_bytes().len();
                len / 8 + if len % 8 == 0 {
                    0
                } else {
                    1
                }
            },
        }
    }

    /// Decodes the string-ref that `field` stands for, reading the payload
    /// of an inline string.
    pub fn read(reader: &mut ByteSource, field: u16) -> (res: Result<Self, FtfError>)
        ensures
            outcome(res) == parse_string_ref(field, old(reader).remaining()).result,
            final(reader).remaining() == parse_string_ref(field, old(reader).remaining()).rest,
    {
        if StringRef::field_is_ref(field) {
            Ok(StringRef::Ref(field))
        } else {
            let value = read_aligned_str(reader, (field & 0x7FFF) as usize)?;
            Ok(StringRef::Inline(value))
        }
    }

    /// Appends the payload of this string-ref.
    pub fn write_payload(&self, writer: &mut Vec<u8>) -> (res: Result<(), FtfError>)
        ensures
            res is Ok,
            final(writer)@ == old(writer)@ + self@.payload(),
    {
        match self {
            StringRef::Ref(_) => {
                assert(writer@ =~= old(writer)@ + self@.payload());
                Ok(())
            },
            StringRef::Inline(s) => pad_and_write_string(writer, s.as_str()),
        }
    }
}

/// Represents a Thread as either an inline value
/// which is written with the record, or a reference
/// to a previously interned thread (using a Thread record)
/// as the Thread record's index
#[derive(Debug, Clone, Copy, PartialEq, Eq, Structural)]
pub enum ThreadRef {
    /// Inline thread with specified process ID and thread ID
    Inline {
        /// process ID
        process_koid: u64,
        /// thread ID
        thread_koid: u64,
    },
    /// Reference to the index specified in a prior Thread record
    Ref(u8),
}

impl View for ThreadRef {
    type V = ThreadRef;

    open spec fn view(&self) -> ThreadRef {
        *self
    }
}

impl ThreadRef {
    /// The 8-bit field: 0 for an inline thread, else the index.
    pub open spec fn field(self) -> u8 {
        match self {
            ThreadRef::Inline { .. } => 0,
            ThreadRef::Ref(index) => index,
        }
    }

    /// The number of payload words: two for an inline thread, none for a
    /// reference.
    pub open spec fn words(self) -> nat {
        match self {
            ThreadRef::Inline { .. } => 2,
            ThreadRef::Ref(_) => 0,
        }
    }

    /// The payload: the two koids of an inline thread, nothing for a
    /// reference.
    pub open spec fn payload(self) -> Seq<u8> {
        match self {
            ThreadRef::Inline { process_koid, thread_koid } => word_bytes(process_koid)
                + word_bytes(thread_koid),
            ThreadRef::Ref(_) => Seq::empty(),
        }
    }

    /// Whether the 8-bit field can hold this thread-ref: index 0 is taken
    /// by the inline arm.
    pub open spec fn wf(self) -> bool {
        match self {
            ThreadRef::Inline { .. } => true,
            ThreadRef::Ref(index) => index != 0,
        }
    }

    /// The 8-bit field that stands for this thread-ref in a header.
    pub fn to_field(&self) -> (field: u8)
        ensures
            field == self.field(),
    {
        match self {
            Self::Inline { .. } => 0,
            Self::Ref(r) => *r,
        }
    }

    /// The number of payload words that this thread-ref contributes.
    pub fn encoding_num_words(&self) -> (words: usize)
        ensures
            words == self.words(),
    {
        match self {
            Self::Inline { .. } => 2,
            Self::Ref(_) => 0,
        }
    }

    /// Decodes the thread-ref that `field` stands for, reading the two koids
    /// of an inline thread.
    pub fn read(reader: &mut ByteSource, field: u8) -> (res: Result<Self, FtfError>)
        ensures
            outcome(res) == parse_thread_ref(field, old(reader).remaining()).result,
            final(reader).remaining() == parse_thread_ref(field, old(reader).remaining()).rest,
    {
        if field == 0 {
            let process_koid = read_u64_word(reader)?;
            let thread_koid = read_u64_word(reader)?;
            Ok(ThreadRef::Inline { process_koid, thread_koid })
        } else {
            Ok(ThreadRef::Ref(field))
        }
    }

    /// Appends the payload of this thread-ref.
    pub fn write_payload(&self, writer: &mut Vec<u8>) -> (res: Result<(), FtfError>)
        ensures
            res is Ok,
            final(writer)@ == old(writer)@ + self.payload(),
    {
        match self {
            ThreadRef::Inline { process_koid, thread_koid } => {
                write_u64_word(writer, *process_koid);
                write_u64_word(writer, *thread_koid);
                assert(writer@ =~= old(writer)@ + self.payload());
            },
            ThreadRef::Ref(_) => {
                assert(writer@ =~= old(writer)@ + self.payload());
            },
        }
        Ok(())
    }
}

/// What decoding a thread-ref makes of its field and the bytes after it.
pub open spec fn parse_thread_ref(field: u8, input: Seq<u8>) -> Parsed<ThreadRef> {
    if field == 0 {
        let process = parse_word(input);
        match process.result {
            Ok(process_koid) => {
                let thread = parse_word(process.rest);
                match thread.result {
                    Ok(thread_koid) => parsed_ok(
                        ThreadRef::Inline { process_koid, thread_koid },
                        thread.rest,
                    ),
                    Err(e) => parsed_err(e, thread.rest),
                }
            },
            Err(e) => parsed_err(e, process.rest),
        }
    } else {
        parsed_ok(ThreadRef::Ref(field), input)
    }
}

/// A string-ref that its field can hold decodes from its field and payload
/// to itself, whatever follows; its payload fills whole words; and the
/// field has its high bit set exactly for an inline string.
pub proof fn lemma_string_ref_roundtrip(x: StringRefView, tail: Seq<u8>)
    requires
        x.wf(),
    ensures
        parse_string_ref(x.field(), x.payload() + tail) == parsed_ok(x, tail),
        x.payload().len() == x.words() * 8,
        x.field() & 0x8000 != 0 <==> x is Inline,
{
    match x {
        StringRefView::Inline(s) => {
            let len = encode_utf8(s).len();
            let low = (len % 0x8000) as u16;
            assert((low | 0x8000) & 0x8000 != 0 && (low | 0x8000) & 0x7FFF == low) by (bit_vector)
                requires
                    low <= 0x7FFF,
            ;
            lemma_padded_string_roundtrip(s, tail);
        },
        StringRefView::Ref(index) => {
            assert((index & 0x7FFF) & 0x8000 == 0 && index & 0x7FFF == index) by (bit_vector)
                requires
                    index <= 0x7FFF,
            ;
            assert(x.payload() + tail =~= tail);
        },
    }
}

/// A thread-ref that its field can hold decodes from its field and payload
/// to itself, whatever follows; and its payload fills whole words.
pub proof fn lemma_thread_ref_roundtrip(x: ThreadRef, tail: Seq<u8>)
    requires
        x.wf(),
    ensures
        parse_thread_ref(x.field(), x.payload() + tail) == parsed_ok(x, tail),
        x.payload().len() == x.words() * 8,
        x.field() == 0 <==> x is Inline,
{
    match x {
        ThreadRef::Inline { process_koid, thread_koid } => {
            assert(x.payload() + tail =~= word_bytes(process_koid) + (word_bytes(thread_koid)
                + tail));
            lemma_word_roundtrip(process_koid, word_bytes(thread_koid) + tail);
            lemma_word_roundtrip(thread_koid, tail);
        },
        ThreadRef::Ref(index) => {
            assert(x.payload() + tail =~= tail);
        },
    }
}

/// Decoding a string-ref or a thread-ref leaves no more bytes than there
/// were.
pub proof fn lemma_parse_ref_rest(string_field: u16, thread_field: u8, input: Seq<u8>)
    ensures
        parse_string_ref(string_field, input).rest.len() <= input.len(),
        parse_thread_ref(thread_field, input).rest.len() <= input.len(),
{
    lemma_parse_word_rest(input, (string_field & 0x7FFF) as nat);
    lemma_parse_word_rest(parse_word(input).rest, 0);
}

} // verus!
