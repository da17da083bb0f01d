//! The appended-payload trailer format.
//!
//! A packaged executable carries its configuration document appended to
//! its own binary image, located through a fixed twelve-byte footer at
//! the very end of the file: a four-byte big-endian magic value followed
//! by the eight-byte big-endian absolute offset of the payload's first
//! byte.  The payload spans from that offset up to the footer and is
//! UTF-8 text.

use vstd::prelude::*;
use vstd::slice::{slice_subrange, slice_to_vec};
use vstd::utf8::{decode_utf8, valid_utf8};
use vstd::arithmetic::div_mod::{lemma_div_denominator, lemma_fundamental_div_mod};

verus! {

/// Why the appended payload could not be read.
#[derive(Clone, Copy, Debug, PartialEq, Eq, Structural)]
pub enum ReadError {
    /// The image is too short for a footer, or the recorded offset
    /// points past the footer.
    IoError,
    /// The four magic bytes do not match: the executable was not
    /// packaged with an embedded payload.
    InvalidMagic,
    /// The payload bytes are not valid UTF-8.
    EncodingError,
}

/// The sentinel value that marks a packaged executable.
pub const PAYLOAD_MAGIC: u32 = 0xDEAD_BEEF;

/// The footer: four magic bytes plus an eight-byte offset.
pub const TRAILER_LEN: usize = 12;

/// The value of four big-endian bytes.
pub open spec fn be_u32_value(s: Seq<u8>) -> int {
    s[0] as int * 0x100_0000 + s[1] as int * 0x1_0000 + s[2] as int * 0x100 + s[3] as int
}

/// The value of eight big-endian bytes.
pub open spec fn be_u64_value(s: Seq<u8>) -> int {
    s[0] as int * 0x100_0000_0000_0000 + s[1] as int * 0x1_0000_0000_0000 + s[2] as int
        * 0x100_0000_0000 + s[3] as int * 0x1_0000_0000 + s[4] as int * 0x100_0000 + s[5] as int
        * 0x1_0000 + s[6] as int * 0x100 + s[7] as int
}

/// The eight big-endian bytes of a value.
pub open spec fn be_u64_bytes(x: u64) -> Seq<u8> {
    seq![
        (x as int / 0x100_0000_0000_0000 % 0x100) as u8,
        (x as int / 0x1_0000_0000_0000 % 0x100) as u8,
        (x as int / 0x100_0000_0000 % 0x100) as u8,
        (x as int / 0x1_0000_0000 % 0x100) as u8,
        (x as int / 0x100_0000 % 0x100) as u8,
        (x as int / 0x1_0000 % 0x100) as u8,
        (x as int / 0x100 % 0x100) as u8,
        (x as int % 0x100) as u8,
    ]
}

/// The four bytes of the magic value.
pub open spec fn magic_bytes() -> Seq<u8> {
    seq![0xDEu8, 0xADu8, 0xBEu8, 0xEFu8]
}

/// What reading the appended payload out of a binary image yields: the
/// bytes between the recorded offset and the footer, or the failure the
/// image forces.
pub open spec fn spec_payload(image: Seq<u8>) -> Result<Seq<u8>, ReadError> {
    if image.len() < TRAILER_LEN {
        Err(ReadError::IoError)
    } else {
        let trailer = image.len() as int - TRAILER_LEN;
        if be_u32_value(image.subrange(trailer, trailer + 4)) != PAYLOAD_MAGIC {
            Err(ReadError::InvalidMagic)
        } else {
            let off = be_u64_value(image.subrange(trailer + 4, trailer + 12));
            if off > trailer {
                Err(ReadError::IoError)
            } else {
                Ok(image.subrange(off, trailer))
            }
        }
    }
}

/// Relies on `String::from_utf8`: it succeeds exactly on UTF-8 input
/// and then yields the characters those bytes encode.
#[verifier::external_body]
fn utf8_to_string(bytes: Vec<u8>) -> (r: Option<String>)
    ensures
        r is Some <==> valid_utf8(bytes@),
        r matches Some(text) ==> text@ == decode_utf8(bytes@),
{
    String::from_utf8(bytes).ok()
}

/// Reads the configuration payload appended to the given binary image:
/// checks the magic value, follows the recorded offset, and decodes the
/// payload bytes as text.
pub fn read_appended_data(image: &Vec<u8>) -> (r: Result<String, ReadError>)
    ensures
        match spec_payload(image@) {
            Err(e) => r == Err::<String, ReadError>(e),
            Ok(payload) => if valid_utf8(payload) {
                r matches Ok(text) && text@ == decode_utf8(payload)
            } else {
                r == Err::<String, ReadError>(ReadError::EncodingError)
            },
        },
{
    let n = image.len();
    if n < TRAILER_LEN {
        return Err(ReadError::IoError);
    }
    let trailer = n - TRAILER_LEN;
    let magic: u32 = (image[trailer] as u32) * 0x100_0000 + (image[trailer + 1] as u32) * 0x1_0000
        + (image[trailer + 2] as u32) * 0x100 + (image[trailer + 3] as u32);
    proof {
        let m = image@.subrange(trailer as int, trailer as int + 4);
        assert(m[0] == image@[trailer as int]);
        assert(m[1] == image@[trailer as int + 1]);
        assert(m[2] == image@[trailer as int + 2]);
        assert(m[3] == image@[trailer as int + 3]);
    }
    if magic != PAYLOAD_MAGIC {
        return Err(ReadError::InvalidMagic);
    }
    let off64: u64 = (image[trailer + 4] as u64) * 0x100_0000_0000_0000 + (image[trailer + 5]
        as u64) * 0x1_0000_0000_0000 + (image[trailer + 6] as u64) * 0x100_0000_0000 + (image[
        trailer + 7] as u64) * 0x1_0000_0000 + (image[trailer + 8] as u64) * 0x100_0000 + (image[
        trailer + 9] as u64) * 0x1_0000 + (image[trailer + 10] as u64) * 0x100 + (image[trailer
        + 11] as u64);
    proof {
        let o = image@.subrange(trailer as int + 4, trailer as int + 12);
        assert(o[0] == image@[trailer as int + 4]);
        assert(o[1] == image@[trailer as int + 5]);
        assert(o[2] == image@[trailer as int + 6]);
        assert(o[3] == image@[trailer as int + 7]);
        assert(o[4] == image@[trailer as int + 8]);
        assert(o[5] == image@[trailer as int + 9]);
        assert(o[6] == image@[trailer as int + 10]);
        assert(o[7] == image@[trailer as int + 11]);
    }
    if off64 > trailer as u64 {
        return Err(ReadError::IoError);
    }
    let off = off64 as usize;
    let payload = slice_to_vec(slice_subrange(image.as_slice(), off, trailer));
    match utf8_to_string(payload) {
        Some(text) => Ok(text),
        None => Err(ReadError::EncodingError),
    }
}

proof fn lemma_be_u64_round_trip(x: u64)
    ensures
        be_u64_value(be_u64_bytes(x)) == x,
{
    let v = x as int;
    lemma_fundamental_div_mod(v, 0x100);
    lemma_div_denominator(v, 0x100, 0x100);
    lemma_fundamental_div_mod(v / 0x100, 0x100);
    lemma_div_denominator(v, 0x1_0000, 0x100);
    lemma_fundamental_div_mod(v / 0x1_0000, 0x100);
    lemma_div_denominator(v, 0x100_0000, 0x100);
    lemma_fundamental_div_mod(v / 0x100_0000, 0x100);
    lemma_div_denominator(v, 0x1_0000_0000, 0x100);
    lemma_fundamental_div_mod(v / 0x1_0000_0000, 0x100);
    lemma_div_denominator(v, 0x100_0000_0000, 0x100);
    lemma_fundamental_div_mod(v / 0x100_0000_0000, 0x100);
    lemma_div_denominator(v, 0x1_0000_0000_0000, 0x100);
    lemma_fundamental_div_mod(v / 0x1_0000_0000_0000, 0x100);
    lemma_div_denominator(v, 0x100_0000_0000_0000, 0x100);
    lemma_fundamental_div_mod(v / 0x100_0000_0000_0000, 0x100);
    assert(v / 0x100_0000_0000_0000 < 0x100) by (nonlinear_arith)
        requires
            0 <= v <= u64::MAX,
    ;
}

/// Law: for every well-formed trailer — any leading bytes, any payload,
/// the magic value, and the payload's start offset written big-endian —
/// reading the appended payload recovers exactly the payload bytes.
pub proof fn lemma_payload_round_trip(prefix: Seq<u8>, payload: Seq<u8>)
    requires
        prefix.len() + payload.len() <= u64::MAX,
    ensures
        spec_payload(prefix + payload + magic_bytes() + be_u64_bytes(prefix.len() as u64))
            == Ok::<Seq<u8>, ReadError>(payload),
{
    let image = prefix + payload + magic_bytes() + be_u64_bytes(prefix.len() as u64);
    let trailer = image.len() as int - TRAILER_LEN;
    assert(image.len() == prefix.len() + payload.len() + 12);
    assert(trailer == prefix.len() + payload.len());
    assert(image.subrange(trailer, trailer + 4) =~= magic_bytes());
    assert(be_u32_value(magic_bytes()) == PAYLOAD_MAGIC);
    assert(image.subrange(trailer + 4, trailer + 12) =~= be_u64_bytes(prefix.len() as u64));
    lemma_be_u64_round_trip(prefix.len() as u64);
    assert(image.subrange(prefix.len() as int, trailer) =~= payload);
}

/// Law: whenever the image is long enough for a footer but its four
/// magic bytes are wrong, reading fails with `InvalidMagic`, whatever
/// the rest of the image holds.
pub proof fn lemma_invalid_magic(image: Seq<u8>)
    requires
        image.len() >= TRAILER_LEN,
        be_u32_value(image.subrange(image.len() - TRAILER_LEN, image.len() - 8))
            != PAYLOAD_MAGIC,
    ensures
        spec_payload(image) == Err::<Seq<u8>, ReadError>(ReadError::InvalidMagic),
{
}

} // verus!
