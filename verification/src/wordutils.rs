//! Little-endian words and zero-padded strings, as bytes.

use vstd::prelude::*;
use vstd::utf8::{decode_utf8, encode_utf8, valid_utf8};
use crate::error::{outcome, parsed_err, parsed_ok, ErrorView, FtfError, IoError, Parsed};
use crate::source::ByteSource;

verus! {

/// The eight bytes of `word`, least significant first.
#[verifier::opaque]
pub open spec fn word_bytes(word: u64) -> Seq<u8> {
    seq![
        (word & 0xff) as u8,
        ((word >> 8) & 0xff) as u8,
        ((word >> 16) & 0xff) as u8,
        ((word >> 24) & 0xff) as u8,
        ((word >> 32) & 0xff) as u8,
        ((word >> 40) & 0xff) as u8,
        ((word >> 48) & 0xff) as u8,
        ((word >> 56) & 0xff) as u8,
    ]
}

/// The word whose little-endian bytes are the first eight of `bytes`.
#[verifier::opaque]
pub open spec fn word_of(bytes: Seq<u8>) -> u64 {
    (bytes[0] as u64) | ((bytes[1] as u64) << 8) | ((bytes[2] as u64) << 16) | ((bytes[3] as u64)
        << 24) | ((bytes[4] as u64) << 32) | ((bytes[5] as u64) << 40) | ((bytes[6] as u64) << 48)
        | ((bytes[7] as u64) << 56)
}

/// The zero bytes that padding is taken from.
pub const ZERO_PADDING: [u8; 7] = [0, 0, 0, 0, 0, 0, 0];

/// The number of 8-byte words that hold `len` bytes.
pub open spec fn words_for(len: nat) -> nat {
    (len + 7) / 8
}

/// `count` zero bytes.
pub open spec fn zeros(count: nat) -> Seq<u8> {
    Seq::new(count, |i: int| 0u8)
}

/// `bytes`, followed by the zero bytes that fill its last word.
pub open spec fn padded(bytes: Seq<u8>) -> Seq<u8> {
    bytes + zeros((words_for(bytes.len()) * 8 - bytes.len()) as nat)
}

/// What reading one word makes of `input`.
pub open spec fn parse_word(input: Seq<u8>) -> Parsed<u64> {
    if input.len() >= 8 {
        parsed_ok(word_of(input), input.skip(8))
    } else {
        parsed_err(ErrorView::Io(IoError::UnexpectedEof), Seq::empty())
    }
}

/// What reading a padded string of `len` bytes makes of `input`: all the
/// words that hold the string are consumed, whatever the padding bytes are,
/// and the first `len` bytes must be UTF-8.
pub open spec fn parse_padded_string(len: nat, input: Seq<u8>) -> Parsed<Seq<char>> {
    let stored = words_for(len) * 8;
    if input.len() < stored {
        parsed_err(ErrorView::Io(IoError::UnexpectedEof), Seq::empty())
    } else if !valid_utf8(input.take(len as int)) {
        parsed_err(ErrorView::InvalidUtf8, input.skip(stored as int))
    } else {
        parsed_ok(decode_utf8(input.take(len as int)), input.skip(stored as int))
    }
}

/// `String::from_utf8` succeeds exactly on well-formed UTF-8, which is what
/// `valid_utf8` says of a run of bytes, and the string it returns is made of
/// the bytes it was given.
pub assume_specification[ std::string::String::from_utf8 ](vec: std::vec::Vec<u8>) -> (res: Result<
    std::string::String,
    std::string::FromUtf8Error,
>)
    ensures
        res is Ok <==> valid_utf8(vec@),
        res matches Ok(s) ==> encode_utf8(s@) == vec@,
;

/// Two runs of bytes and a tail, joined from the left, are the first run
/// and then the rest.
pub proof fn lemma_join_two(a: Seq<u8>, b: Seq<u8>, tail: Seq<u8>)
    ensures
        a + b + tail == a + (b + tail),
        (a + b).len() == a.len() + b.len(),
{
    assert(a + b + tail =~= a + (b + tail));
}

/// Three runs of bytes and a tail, joined from the left, are the first run,
/// then the second, then the rest.
pub proof fn lemma_join_three(a: Seq<u8>, b: Seq<u8>, c: Seq<u8>, tail: Seq<u8>)
    ensures
        a + b + c + tail == a + (b + (c + tail)),
        (a + b + c).len() == a.len() + b.len() + c.len(),
{
    assert(a + b + c + tail =~= a + (b + (c + tail)));
}

/// Joining no bytes to a run, on either side, leaves the run.
pub proof fn lemma_join_nothing(a: Seq<u8>)
    ensures
        a + Seq::<u8>::empty() == a,
        Seq::<u8>::empty() + a == a,
{
    assert(a + Seq::<u8>::empty() =~= a);
    assert(Seq::<u8>::empty() + a =~= a);
}

/// A word read back from its own bytes is unchanged, whatever follows them.
pub proof fn lemma_word_roundtrip(word: u64, tail: Seq<u8>)
    ensures
        word_bytes(word).len() == 8,
        word_of(word_bytes(word) + tail) == word,
        parse_word(word_bytes(word) + tail) == parsed_ok(word, tail),
{
    reveal(word_bytes);
    reveal(word_of);
    let bytes = word_bytes(word) + tail;
    assert(bytes.skip(8) =~= tail);
    assert(((word & 0xff) as u8 as u64) | (((word >> 8) & 0xff) as u8 as u64) << 8 | (((word >> 16)
        & 0xff) as u8 as u64) << 16 | (((word >> 24) & 0xff) as u8 as u64) << 24 | (((word >> 32)
        & 0xff) as u8 as u64) << 32 | (((word >> 40) & 0xff) as u8 as u64) << 40 | (((word >> 48)
        & 0xff) as u8 as u64) << 48 | (((word >> 56) & 0xff) as u8 as u64) << 56 == word)
        by (bit_vector);
}

/// A string read back from its own padded bytes is unchanged, whatever
/// follows them; and those bytes fill whole words.
pub proof fn lemma_padded_string_roundtrip(s: Seq<char>, tail: Seq<u8>)
    ensures
        padded(encode_utf8(s)).len() == words_for(encode_utf8(s).len()) * 8,
        parse_padded_string(encode_utf8(s).len(), padded(encode_utf8(s)) + tail) == parsed_ok(
            s,
            tail,
        ),
{
    let bytes = encode_utf8(s);
    let input = padded(bytes) + tail;
    let stored = words_for(bytes.len()) * 8;
    assert(input.take(bytes.len() as int) =~= bytes);
    assert(input.skip(stored as int) =~= tail);
    vstd::utf8::encode_utf8_valid_utf8(s);
    vstd::utf8::encode_utf8_decode_utf8(s);
}

/// Appends the little-endian bytes of `word`.
pub fn write_u64_word(writer: &mut Vec<u8>, word: u64)
    ensures
        final(writer)@ == old(writer)@ + word_bytes(word),
{
    assert((word & 0xff) < 256 && ((word >> 8) & 0xff) < 256 && ((word >> 16) & 0xff) < 256 && ((
    word >> 24) & 0xff) < 256 && ((word >> 32) & 0xff) < 256 && ((word >> 40) & 0xff) < 256 && ((
    word >> 48) & 0xff) < 256 && ((word >> 56) & 0xff) < 256) by (bit_vector);
    proof {
        reveal(word_bytes);
    }
    writer.push((word & 0xff) as u8);
    writer.push(((word >> 8) & 0xff) as u8);
    writer.push(((word >> 16) & 0xff) as u8);
    writer.push(((word >> 24) & 0xff) as u8);
    writer.push(((word >> 32) & 0xff) as u8);
    writer.push(((word >> 40) & 0xff) as u8);
    writer.push(((word >> 48) & 0xff) as u8);
    writer.push(((word >> 56) & 0xff) as u8);
    assert(writer@ =~= old(writer)@ + word_bytes(word));
}

/// Reads one little-endian word.
pub fn read_u64_word(reader: &mut ByteSource) -> (res: Result<u64, FtfError>)
    ensures
        outcome(res) == parse_word(old(reader).remaining()).result,
        final(reader).remaining() == parse_word(old(reader).remaining()).rest,
{
    proof {
        reveal(word_of);
    }
    let bytes = reader.read_exact(8)?;
    let word = (bytes[0] as u64) | ((bytes[1] as u64) << 8) | ((bytes[2] as u64) << 16) | ((
    bytes[3] as u64) << 24) | ((bytes[4] as u64) << 32) | ((bytes[5] as u64) << 40) | ((
    bytes[6] as u64) << 48) | ((bytes[7] as u64) << 56);
    Ok(word)
}

/// Reads a string of `len` bytes stored in whole words, and drops the padding.
pub fn read_aligned_str(reader: &mut ByteSource, len: usize) -> (res: Result<String, FtfError>)
    ensures
        outcome(res) == parse_padded_string(len as nat, old(reader).remaining()).result,
        final(reader).remaining() == parse_padded_string(
            len as nat,
            old(reader).remaining(),
        ).rest,
{
    let ghost input = reader.remaining();
    let stored: u128 = (len as u128 + 7) / 8 * 8;
    if stored > reader.remaining_len() as u128 {
        reader.drain();
        return Err(FtfError::Io(IoError::UnexpectedEof));
    }
    let bytes_to_read = stored as usize;
    let mut buf = reader.read_exact(bytes_to_read)?;
    buf.truncate(len);
    assert(buf@ =~= input.take(len as int));
    match String::from_utf8(buf) {
        Ok(value) => {
            proof {
                vstd::utf8::encode_utf8_decode_utf8(value@);
            }
            Ok(value)
        },
        Err(e) => Err(FtfError::Utf8(e)),
    }
}

/// A run of `n` zero bytes, for `n` in `1..=7`.
pub fn get_zero_vec(n: u8) -> (run: &'static [u8])
    requires
        1 <= n <= 7,
    ensures
        run@ == zeros(n as nat),
{
    let run = vstd::slice::slice_subrange(ZERO_PADDING.as_slice(), 0, n as usize);
    assert(run@ =~= zeros(n as nat));
    run
}

/// Appends the bytes of `input` and the zero bytes that fill its last word.
pub fn pad_and_write_string(writer: &mut Vec<u8>, input: &str) -> (res: Result<(), FtfError>)
    ensures
        res is Ok,
        final(writer)@ == old(writer)@ + padded(encode_utf8(input@)),
{
    let bytes = input.as_bytes();
    writer.extend_from_slice(bytes);
    let remainder = bytes.len() % 8;
    if remainder != 0 {
        let num_zeros = 8 - remainder;
        let run = get_zero_vec(num_zeros as u8);
        writer.extend_from_slice(run);
    }
    assert(writer@ =~= old(writer)@ + padded(encode_utf8(input@)));
    Ok(())
}

/// Reading a word or a padded string leaves no more bytes than there were;
/// a word that was read leaves eight fewer.
pub proof fn lemma_parse_word_rest(input: Seq<u8>, len: nat)
    ensures
        parse_word(input).rest.len() <= input.len(),
        parse_word(input).result is Ok ==> parse_word(input).rest.len() + 8 == input.len(),
        parse_padded_string(len, input).rest.len() <= input.len(),
{
}

} // verus!
