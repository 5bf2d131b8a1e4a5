//! The byte source that the decoders consume.

use vstd::prelude::*;
use vstd::slice::{slice_subrange, slice_to_vec};
use crate::error::{outcome, parsed_err, parsed_ok, ErrorView, FtfError, IoError, Parsed};

verus! {

/// What an exact-count read of `count` bytes makes of `input`: its first
/// `count` bytes, or `UnexpectedEof` with nothing left where it is shorter.
pub open spec fn take_bytes(input: Seq<u8>, count: nat) -> Parsed<Seq<u8>> {
    if count <= input.len() {
        parsed_ok(input.take(count as int), input.skip(count as int))
    } else {
        parsed_err(ErrorView::Io(IoError::UnexpectedEof), Seq::empty())
    }
}

/// A sequence of bytes read front to back, in exact counts.
#[derive(Debug)]
pub struct ByteSource {
    data: Vec<u8>,
    pos: usize,
}

impl ByteSource {
    #[verifier::type_invariant]
    spec fn in_bounds(&self) -> bool {
        self.pos <= self.data@.len()
    }

    /// The bytes not yet read.
    pub closed spec fn remaining(&self) -> Seq<u8> {
        self.data@.skip(self.pos as int)
    }

    /// A source that yields `data` from its first byte.
    pub fn new(data: Vec<u8>) -> (source: Self)
        ensures
            source.remaining() == data@,
    {
        ByteSource { data, pos: 0 }
    }

    /// The number of bytes not yet read.
    pub fn remaining_len(&self) -> (len: usize)
        ensures
            len == self.remaining().len(),
    {
        proof {
            use_type_invariant(self);
        }
        self.data.len() - self.pos
    }

    /// Whether every byte has been read.
    pub fn is_exhausted(&self) -> (done: bool)
        ensures
            done == (self.remaining().len() == 0),
    {
        self.remaining_len() == 0
    }

    /// Gives up the bytes not yet read.
    pub fn drain(&mut self)
        ensures
            final(self).remaining() == Seq::<u8>::empty(),
    {
        self.pos = self.data.len();
        assert(self.data@.skip(self.pos as int) =~= Seq::<u8>::empty());
    }

    /// Reads exactly `count` bytes. A source that holds fewer fails with
    /// `UnexpectedEof` and is left exhausted.
    pub fn read_exact(&mut self, count: usize) -> (res: Result<Vec<u8>, FtfError>)
        ensures
            outcome(res) == take_bytes(old(self).remaining(), count as nat).result,
            final(self).remaining() == take_bytes(old(self).remaining(), count as nat).rest,
    {
        proof {
            use_type_invariant(&*self);
        }
        let available = self.data.len() - self.pos;
        if count > available {
            self.pos = self.data.len();
            assert(self.data@.skip(self.pos as int) =~= Seq::<u8>::empty());
            return Err(FtfError::Io(IoError::UnexpectedEof));
        }
        let end = self.pos + count;
        let bytes = slice_to_vec(slice_subrange(self.data.as_slice(), self.pos, end));
        proof {
            assert(bytes@ =~= old(self).remaining().take(count as int));
            assert(self.data@.skip(end as int) =~= old(self).remaining().skip(count as int));
        }
        self.pos = end;
        Ok(bytes)
    }
}

} // verus!
