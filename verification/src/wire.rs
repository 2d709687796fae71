//! The wire format of the values that the engine streams: strings with a
//! length prefix, 32-bit floats, and the sentinel that ends a list.
//!
//! The format is stated here as functions on bytes. Reading and writing are
//! done by the `rmp` crate, through functions whose contracts are taken on trust.

use crate::error::Found;
use vstd::prelude::*;
use vstd::utf8::{decode_utf8, encode_utf8, valid_utf8};

verus! {

/// The byte that ends a streamed list of values. It is the marker of no value.
pub const END_OF_MESSAGE: u8 = 0xc1;

/// The marker of a 32-bit float.
pub const FLOAT32: u8 = 0xca;

/// The marker of a string whose length is given in one byte.
pub const STR8: u8 = 0xd9;

/// The marker of a string whose length is given in two bytes.
pub const STR16: u8 = 0xda;

/// The marker of a string whose length is given in four bytes.
pub const STR32: u8 = 0xdb;

/// The first of the 32 markers of a short string. The marker is this plus the length.
pub const FIXSTR: u8 = 0xa0;

/// The number that two bytes give, the first one weighing most.
pub open spec fn be16(b0: u8, b1: u8) -> nat {
    (b0 as nat) * 0x100 + (b1 as nat)
}

/// The number that four bytes give, the first one weighing most.
pub open spec fn be32(b0: u8, b1: u8, b2: u8, b3: u8) -> nat {
    (((b0 as nat) * 0x100 + (b1 as nat)) * 0x100 + (b2 as nat)) * 0x100 + (b3 as nat)
}

/// The four bytes of a number below 2^32, the first one weighing most.
pub open spec fn be32_bytes(n: nat) -> Seq<u8> {
    seq![
        (n / 0x100_0000) as u8,
        ((n / 0x1_0000) % 0x100) as u8,
        ((n / 0x100) % 0x100) as u8,
        (n % 0x100) as u8,
    ]
}

/// The header of the string that `s` starts with: the length of the text in
/// bytes, and the number of bytes that the header itself takes.
pub open spec fn text_header(s: Seq<u8>) -> Result<(nat, nat), Found> {
    if s.len() == 0 {
        Err(Found::EndOfStream)
    } else if FIXSTR <= s[0] < FIXSTR + 32 {
        Ok(((s[0] - FIXSTR) as nat, 1))
    } else if s[0] == STR8 {
        if s.len() < 2 {
            Err(Found::Truncated)
        } else {
            Ok((s[1] as nat, 2))
        }
    } else if s[0] == STR16 {
        if s.len() < 3 {
            Err(Found::Truncated)
        } else {
            Ok((be16(s[1], s[2]), 3))
        }
    } else if s[0] == STR32 {
        if s.len() < 5 {
            Err(Found::Truncated)
        } else {
            Ok((be32(s[1], s[2], s[3], s[4]), 5))
        }
    } else {
        Err(Found::Marker(s[0]))
    }
}

/// The string that `s` starts with, read into a buffer of `capacity` bytes:
/// its text and the number of bytes that it takes in `s`.
pub open spec fn read_text(s: Seq<u8>, capacity: nat) -> Result<(Seq<char>, nat), Found> {
    match text_header(s) {
        Err(found) => Err(found),
        Ok((len, size)) => {
            let payload = s.subrange(size as int, (size + len) as int);
            if capacity < len {
                Err(Found::Oversized(len as u32))
            } else if s.len() < size + len {
                Err(Found::Truncated)
            } else if !valid_utf8(payload) {
                Err(Found::InvalidText)
            } else {
                Ok((decode_utf8(payload), size + len))
            }
        },
    }
}

/// The float that `s` starts with, as its IEEE-754 bits, and the number of
/// bytes that it takes in `s`.
pub open spec fn read_float(s: Seq<u8>) -> Result<(u32, nat), Found> {
    if s.len() == 0 {
        Err(Found::EndOfStream)
    } else if s[0] != FLOAT32 {
        Err(Found::Marker(s[0]))
    } else if s.len() < 5 {
        Err(Found::Truncated)
    } else {
        Ok((be32(s[1], s[2], s[3], s[4]) as u32, 5))
    }
}

/// The shortest header for a text of `len` bytes, `len` below 2^32.
pub open spec fn text_prefix(len: nat) -> Seq<u8> {
    if len < 32 {
        seq![(FIXSTR + len) as u8]
    } else if len < 0x100 {
        seq![STR8, len as u8]
    } else if len < 0x1_0000 {
        seq![STR16, (len / 0x100) as u8, (len % 0x100) as u8]
    } else {
        seq![STR32] + be32_bytes(len)
    }
}

/// A string as it is written: the header, then the text in UTF-8.
pub open spec fn wire_text(text: Seq<char>) -> Seq<u8> {
    text_prefix(encode_utf8(text).len()) + encode_utf8(text)
}

/// A float as it is written: the marker, then its IEEE-754 bits in four bytes.
pub open spec fn wire_float(bits: u32) -> Seq<u8> {
    seq![FLOAT32] + be32_bytes(bits as nat)
}

/// A text can be written if its UTF-8 length fits the four bytes of the longest header.
pub open spec fn writable(text: Seq<char>) -> bool {
    encode_utf8(text).len() <= u32::MAX
}

/// The four bytes of a number give the number back.
pub proof fn lemma_be32_round_trip(n: nat)
    requires
        n <= u32::MAX,
    ensures
        be32_bytes(n).len() == 4,
        be32(be32_bytes(n)[0], be32_bytes(n)[1], be32_bytes(n)[2], be32_bytes(n)[3]) == n,
{
}

/// What is read never reaches past the end of the bytes, and a string or a
/// float takes at least one byte.
pub proof fn lemma_read_within(s: Seq<u8>, capacity: nat)
    ensures
        read_text(s, capacity) matches Ok((_, used)) ==> 1 <= used <= s.len(),
        read_float(s) matches Ok((_, used)) ==> 1 <= used <= s.len(),
{
}

/// What is read at the front of a stream does not depend on what follows:
/// unless the stream ended short of the value, the same is read when more
/// bytes come behind.
pub proof fn lemma_read_is_final(s: Seq<u8>, more: Seq<u8>, capacity: nat)
    ensures
        !(read_text(s, capacity) matches Err(found) && found.ended_early()) ==> read_text(
            s + more,
            capacity,
        ) == read_text(s, capacity),
        !(read_float(s) matches Err(found) && found.ended_early()) ==> read_float(s + more)
            == read_float(s),
{
    let longer = s + more;
    assert(forall|i: int| 0 <= i < s.len() ==> longer[i] == s[i]);
    if let Ok((len, size)) = text_header(s) {
        assert(text_header(longer) == text_header(s));
        if s.len() >= size + len {
            assert(longer.subrange(size as int, (size + len) as int) =~= s.subrange(
                size as int,
                (size + len) as int,
            ));
        }
    }
}

/// Reading a written string gives the text back and stops right behind it,
/// whatever follows, if only the buffer is large enough for the text.
pub proof fn lemma_read_written_text(text: Seq<char>, rest: Seq<u8>, capacity: nat)
    requires
        writable(text),
        encode_utf8(text).len() <= capacity,
    ensures
        read_text(wire_text(text) + rest, capacity) == Ok::<_, Found>(
            (text, wire_text(text).len()),
        ),
{
    broadcast use vstd::utf8::encode_utf8_valid_utf8, vstd::utf8::encode_utf8_decode_utf8;

    let payload = encode_utf8(text);
    let len = payload.len();
    let prefix = text_prefix(len);
    let s = wire_text(text) + rest;
    lemma_be32_round_trip(len);
    assert(forall|i: int| 0 <= i < prefix.len() ==> s[i] == prefix[i]);
    assert(text_header(s) == Ok::<_, Found>((len, prefix.len())));
    assert(s.subrange(prefix.len() as int, (prefix.len() + len) as int) =~= payload);
}

/// Reading a written float gives its bits back and stops right behind it,
/// whatever follows.
pub proof fn lemma_read_written_float(bits: u32, rest: Seq<u8>)
    ensures
        read_float(wire_float(bits) + rest) == Ok::<_, Found>((bits, 5nat)),
        wire_float(bits).len() == 5,
{
    lemma_be32_round_trip(bits as nat);
}

/// Reads the string at the start of `input` into `buffer`.
///
/// Calls `rmp::decode::read_str` on an `rmp::decode::Bytes` over `input`.
/// Taken on trust: that function reads one marker byte, then for a string
/// marker the length (none, one, two or four bytes, big-endian), refuses a
/// length beyond the buffer, copies that many bytes to the front of the
/// buffer and checks them as UTF-8; each of its errors is handed on as the
/// `Found` of the same meaning, a marker of another type as the byte read;
/// the reader's position after a success is the number of bytes taken.
#[verifier::external_body]
pub(crate) fn decode_str(input: &[u8], buffer: &mut Vec<u8>) -> (r: Result<(String, usize), Found>)
    ensures
        final(buffer)@.len() == old(buffer)@.len(),
        match r {
            Ok((text, used)) => {
                &&& read_text(input@, old(buffer)@.len() as nat) == Ok::<_, Found>(
                    (text@, used as nat),
                )
                &&& final(buffer)@ == encode_utf8(text@) + old(buffer)@.skip(
                    encode_utf8(text@).len() as int,
                )
            },
            Err(found) => read_text(input@, old(buffer)@.len() as nat) == Err::<
                (Seq<char>, nat),
                _,
            >(found),
        },
{
    let mut rd = rmp::decode::Bytes::new(input);
    match rmp::decode::read_str(&mut rd, buffer.as_mut_slice()) {
        Ok(text) => Ok((text.to_owned(), rd.position() as usize)),
        Err(rmp::decode::DecodeStringError::InvalidMarkerRead(_)) => Err(Found::EndOfStream),
        Err(rmp::decode::DecodeStringError::InvalidDataRead(_)) => Err(Found::Truncated),
        Err(rmp::decode::DecodeStringError::TypeMismatch(m)) => Err(Found::Marker(m.to_u8())),
        Err(rmp::decode::DecodeStringError::BufferSizeTooSmall(n)) => Err(Found::Oversized(n)),
        Err(rmp::decode::DecodeStringError::InvalidUtf8(..)) => Err(Found::InvalidText),
    }
}

/// Reads the float at the start of `input` and gives its IEEE-754 bits.
///
/// Calls `rmp::decode::read_f32` on an `rmp::decode::Bytes` over `input`.
/// Taken on trust: that function reads one marker byte and, for the float
/// marker, four bytes that are the value's bits, big-endian; each of its
/// errors is handed on as the `Found` of the same meaning; the reader's
/// position after a success is the number of bytes taken.
#[verifier::external_body]
pub(crate) fn decode_f32(input: &[u8]) -> (r: Result<(u32, usize), Found>)
    ensures
        match r {
            Ok((bits, used)) => read_float(input@) == Ok::<_, Found>((bits, used as nat)),
            Err(found) => read_float(input@) == Err::<(u32, nat), _>(found),
        },
{
    let mut rd = rmp::decode::Bytes::new(input);
    match rmp::decode::read_f32(&mut rd) {
        Ok(value) => Ok((value.to_bits(), rd.position() as usize)),
        Err(rmp::decode::ValueReadError::InvalidMarkerRead(_)) => Err(Found::EndOfStream),
        Err(rmp::decode::ValueReadError::InvalidDataRead(_)) => Err(Found::Truncated),
        Err(rmp::decode::ValueReadError::TypeMismatch(m)) => Err(Found::Marker(m.to_u8())),
    }
}

/// Writes `text` as a string of the wire format.
///
/// Calls `rmp::encode::write_str` on an `rmp::encode::ByteBuf`, which cannot
/// fail. Taken on trust: that function writes the shortest header for the
/// text's length in bytes, then the text's bytes.
#[verifier::external_body]
pub(crate) fn encode_str(text: &str) -> (bytes: Vec<u8>)
    requires
        writable(text@),
    ensures
        bytes@ == wire_text(text@),
{
    let mut out = rmp::encode::ByteBuf::new();
    let _ = rmp::encode::write_str(&mut out, text);
    out.into_vec()
}

} // verus!
