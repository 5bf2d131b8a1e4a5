//! Reading and writing Fuchsia Trace Format archives: an ordered sequence of
//! self-delimiting records packed into 64-bit little-endian words.
//!
//! Every encoder appends to a `Vec<u8>` and every decoder consumes a
//! [`ByteSource`]. What each of them does is stated over the bytes on the
//! wire, and the decoders are proved to undo the encoders.

pub mod archive;
pub mod argument;
pub mod bitutils;
pub mod error;
pub mod event;
pub mod header;
pub mod initialization;
pub mod metadata;
pub mod record;
pub mod refs;
pub mod source;
pub mod string_rec;
pub mod thread_rec;
pub mod wordutils;

pub use crate::archive::Archive;
pub use crate::argument::{Argument, ArgumentType, ArgumentTypeParseError};
pub use crate::error::{FtfError, IoError};
pub use crate::event::{
    Counter, DurationBegin, DurationComplete, DurationEnd, Event, EventRecord, EventType,
    EventTypeParseError, Instant,
};
pub use crate::header::{CustomField, RecordHeader, RecordType, RecordTypeParseError};
pub use crate::initialization::InitializationRecord;
pub use crate::metadata::{
    MetadataRecord, MetadataType, MetadataTypeParseError, ProviderEvent, ProviderInfo,
    ProviderSection, TraceInfo,
};
pub use crate::record::Record;
pub use crate::refs::{StringRef, ThreadRef};
pub use crate::source::ByteSource;
pub use crate::string_rec::StringRecord;
pub use crate::thread_rec::ThreadRecord;
