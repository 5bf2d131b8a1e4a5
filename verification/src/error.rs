//! The error taxonomy of the codec, and its mathematical model.

use vstd::prelude::*;
use crate::header::{RecordType, RecordTypeParseError};
use crate::event::EventTypeParseError;
use crate::metadata::MetadataTypeParseError;
use crate::argument::ArgumentTypeParseError;
use std::string::FromUtf8Error;

verus! {

/// The error that `String::from_utf8` reports; carried through unread.
#[verifier::external_type_specification]
#[verifier::external_body]
pub struct ExFromUtf8Error(FromUtf8Error);

/// How a byte source or sink can fail.
#[derive(Debug, Clone, Copy, PartialEq, Eq, Structural)]
pub enum IoError {
    /// The source ran out before the requested number of bytes was read.
    UnexpectedEof,
    /// Any other failure. The codec reports none: a `ByteSource` can only
    /// run out, and a `Vec<u8>` takes every write.
    Other,
}

/// Errors returnable by the codec.
#[derive(Debug)]
pub enum FtfError {
    /// The byte source failed, which includes a short read inside a record.
    Io(IoError),
    /// The bytes of an inline string are not valid UTF-8.
    Utf8(FromUtf8Error),
    /// The record-type tag of a header is not a known one.
    InvalidRecordType(RecordTypeParseError),
    /// The event subtype tag is outside `0..=10`.
    InvalidEventType(EventTypeParseError),
    /// The metadata subtype tag is outside `1..=4`.
    InvalidMetadataType(MetadataTypeParseError),
    /// The argument value-type tag is outside `0..=9`.
    InvalidArgumentType(ArgumentTypeParseError),
    /// The record type is recognised but has no decoder.
    UnsupportedRecordType(RecordType),
    /// The variant has no encoder or decoder yet.
    Unimplemented(String),
    /// The custom fields of a header do not fit into bits 16–63.
    HeaderFieldOverflow,
}

/// The model of an [`FtfError`]: the raw tags, the message as characters, and
/// no detail of a UTF-8 failure.
pub enum ErrorView {
    Io(IoError),
    InvalidUtf8,
    InvalidRecordType(u8),
    InvalidEventType(u8),
    InvalidMetadataType(u8),
    InvalidArgumentType(u8),
    UnsupportedRecordType(RecordType),
    Unimplemented(Seq<char>),
    HeaderFieldOverflow,
}

impl View for FtfError {
    type V = ErrorView;

    open spec fn view(&self) -> ErrorView {
        match *self {
            FtfError::Io(kind) => ErrorView::Io(kind),
            FtfError::Utf8(_) => ErrorView::InvalidUtf8,
            FtfError::InvalidRecordType(e) => ErrorView::InvalidRecordType(e.0),
            FtfError::InvalidEventType(e) => ErrorView::InvalidEventType(e.0),
            FtfError::InvalidMetadataType(e) => ErrorView::InvalidMetadataType(e.0),
            FtfError::InvalidArgumentType(e) => ErrorView::InvalidArgumentType(e.0),
            FtfError::UnsupportedRecordType(t) => ErrorView::UnsupportedRecordType(t),
            FtfError::Unimplemented(message) => ErrorView::Unimplemented(message@),
            FtfError::HeaderFieldOverflow => ErrorView::HeaderFieldOverflow,
        }
    }
}

/// What a decoder makes of an input: the value or the error, and the bytes it
/// leaves unread.
pub struct Parsed<T> {
    pub result: Result<T, ErrorView>,
    pub rest: Seq<u8>,
}

/// The model of what a fallible codec function returned.
pub open spec fn outcome<T: View>(res: Result<T, FtfError>) -> Result<T::V, ErrorView> {
    match res {
        Ok(value) => Ok(value@),
        Err(error) => Err(error@),
    }
}

/// A successful decoding of `value` that leaves `rest` unread.
pub open spec fn parsed_ok<T>(value: T, rest: Seq<u8>) -> Parsed<T> {
    Parsed { result: Ok(value), rest }
}

/// A failed decoding that leaves `rest` unread.
pub open spec fn parsed_err<T>(error: ErrorView, rest: Seq<u8>) -> Parsed<T> {
    Parsed { result: Err(error), rest }
}

} // verus!
