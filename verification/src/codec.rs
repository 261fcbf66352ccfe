//! Primitives of the canonical binary encoding shared with the host.
//!
//! Every value is written in a fixed field order: a `u64` as eight
//! little-endian bytes, a byte string as its length (a `u64`) followed by
//! its bytes, a text string as the byte string of its UTF-8 encoding, a
//! `bool` as a single `0` or `1` byte. Decoding is strict: a length that
//! overruns the input, a presence byte other than `0`/`1`, or invalid
//! UTF-8 all fail, so a decoded value re-encodes to exactly the bytes it
//! was read from.

use vstd::prelude::*;
use vstd::bytes::{spec_u64_from_le_bytes, spec_u64_to_le_bytes, u64_from_le_bytes, u64_to_le_bytes};
use vstd::bytes::lemma_auto_spec_u64_to_from_le_bytes;
use vstd::slice::{slice_subrange, slice_to_vec};
use vstd::utf8::{decode_utf8, encode_utf8, valid_utf8};

verus! {

// ---------------------------------------------------------------------------
// Encoding, at the specification level.
// ---------------------------------------------------------------------------
pub open spec fn enc_u64(x: u64) -> Seq<u8> {
    spec_u64_to_le_bytes(x)
}

pub open spec fn enc_bool(b: bool) -> Seq<u8> {
    seq![if b { 1u8 } else { 0u8 }]
}

pub open spec fn enc_bytes(b: Seq<u8>) -> Seq<u8>
    recommends
        b.len() <= u64::MAX,
{
    enc_u64(b.len() as u64) + b
}

pub open spec fn enc_str(t: Seq<char>) -> Seq<u8>
    recommends
        encode_utf8(t).len() <= u64::MAX,
{
    enc_bytes(encode_utf8(t))
}

// ---------------------------------------------------------------------------
// Decoding, at the specification level. Each decoder consumes a prefix of
// the input and hands back the rest.
// ---------------------------------------------------------------------------
pub open spec fn dec_u64(s: Seq<u8>) -> Option<(u64, Seq<u8>)> {
    if s.len() >= 8 {
        Some((spec_u64_from_le_bytes(s.take(8)), s.skip(8)))
    } else {
        None
    }
}

pub open spec fn dec_bool(s: Seq<u8>) -> Option<(bool, Seq<u8>)> {
    if s.len() >= 1 {
        if s[0] == 1u8 {
            Some((true, s.skip(1)))
        } else if s[0] == 0u8 {
            Some((false, s.skip(1)))
        } else {
            None
        }
    } else {
        None
    }
}

pub open spec fn dec_bytes(s: Seq<u8>) -> Option<(Seq<u8>, Seq<u8>)> {
    match dec_u64(s) {
        Some((n, rest)) => if n <= rest.len() {
            Some((rest.take(n as int), rest.skip(n as int)))
        } else {
            None
        },
        None => None,
    }
}

pub open spec fn dec_str(s: Seq<u8>) -> Option<(Seq<char>, Seq<u8>)> {
    match dec_bytes(s) {
        Some((b, rest)) => if valid_utf8(b) {
            Some((decode_utf8(b), rest))
        } else {
            None
        },
        None => None,
    }
}

// ---------------------------------------------------------------------------
// Round trips: decoding an encoded value yields the value and leaves the
// remainder untouched.
// ---------------------------------------------------------------------------
pub proof fn lemma_dec_enc_u64(x: u64, rest: Seq<u8>)
    ensures
        dec_u64(enc_u64(x) + rest) == Some((x, rest)),
{
    lemma_auto_spec_u64_to_from_le_bytes();
    assert((enc_u64(x) + rest).take(8) =~= enc_u64(x));
    assert((enc_u64(x) + rest).skip(8) =~= rest);
}

pub proof fn lemma_dec_enc_bool(b: bool, rest: Seq<u8>)
    ensures
        dec_bool(enc_bool(b) + rest) == Some((b, rest)),
{
    assert((enc_bool(b) + rest).skip(1) =~= rest);
}

pub proof fn lemma_dec_enc_bytes(b: Seq<u8>, rest: Seq<u8>)
    requires
        b.len() <= u64::MAX,
    ensures
        dec_bytes(enc_bytes(b) + rest) == Some((b, rest)),
{
    lemma_auto_spec_u64_to_from_le_bytes();
    assert(enc_bytes(b) + rest =~= enc_u64(b.len() as u64) + (b + rest));
    lemma_dec_enc_u64(b.len() as u64, b + rest);
    assert((b + rest).take(b.len() as int) =~= b);
    assert((b + rest).skip(b.len() as int) =~= rest);
}

pub proof fn lemma_dec_enc_str(t: Seq<char>, rest: Seq<u8>)
    requires
        encode_utf8(t).len() <= u64::MAX,
    ensures
        dec_str(enc_str(t) + rest) == Some((t, rest)),
{
    broadcast use vstd::utf8::encode_utf8_valid_utf8, vstd::utf8::encode_utf8_decode_utf8;

    lemma_dec_enc_bytes(encode_utf8(t), rest);
}

// ---------------------------------------------------------------------------
// Executable encoders. Each appends onto a growing output buffer.
// ---------------------------------------------------------------------------
pub fn write_u64(out: &mut Vec<u8>, x: u64)
    ensures
        final(out)@ == old(out)@ + enc_u64(x),
{
    let mut piece = u64_to_le_bytes(x);
    out.append(&mut piece);
}

pub fn write_bool(out: &mut Vec<u8>, b: bool)
    ensures
        final(out)@ == old(out)@ + enc_bool(b),
{
    out.push(if b { 1u8 } else { 0u8 });
    assert(out@ =~= old(out)@ + enc_bool(b));
}

pub fn write_bytes(out: &mut Vec<u8>, b: &[u8])
    ensures
        final(out)@ == old(out)@ + enc_bytes(b@),
{
    write_u64(out, b.len() as u64);
    let mut piece = slice_to_vec(b);
    out.append(&mut piece);
    assert(out@ =~= old(out)@ + enc_bytes(b@));
}

pub fn write_str(out: &mut Vec<u8>, t: &str)
    ensures
        final(out)@ == old(out)@ + enc_str(t@),
{
    let bytes = t.as_bytes();
    write_bytes(out, bytes);
}

// ---------------------------------------------------------------------------
// Executable decoders. Each reads at a position in the input and returns
// the decoded value with the next position; the contract ties it to the
// specification-level decoder on the input's remainder.
// ---------------------------------------------------------------------------
pub fn read_u64(s: &Vec<u8>, pos: usize) -> (r: Option<(u64, usize)>)
    requires
        pos <= s@.len(),
    ensures
        r matches Some((x, p)) ==> pos <= p <= s@.len() && dec_u64(s@.skip(pos as int)) == Some(
            (x, s@.skip(p as int)),
        ),
        r is None ==> dec_u64(s@.skip(pos as int)) is None,
{
    if s.len() - pos >= 8 {
        let piece = slice_subrange(s.as_slice(), pos, pos + 8);
        let x = u64_from_le_bytes(piece);
        proof {
            assert(s@.skip(pos as int).take(8) =~= s@.subrange(pos as int, pos as int + 8));
            assert(s@.skip(pos as int).skip(8) =~= s@.skip(pos as int + 8));
        }
        Some((x, pos + 8))
    } else {
        None
    }
}

pub fn read_bool(s: &Vec<u8>, pos: usize) -> (r: Option<(bool, usize)>)
    requires
        pos <= s@.len(),
    ensures
        r matches Some((b, p)) ==> pos <= p <= s@.len() && dec_bool(s@.skip(pos as int)) == Some(
            (b, s@.skip(p as int)),
        ),
        r is None ==> dec_bool(s@.skip(pos as int)) is None,
{
    if s.len() - pos >= 1 {
        let byte = s[pos];
        proof {
            assert(s@.skip(pos as int)[0] == s@[pos as int]);
            assert(s@.skip(pos as int).skip(1) =~= s@.skip(pos as int + 1));
        }
        if byte == 1u8 {
            Some((true, pos + 1))
        } else if byte == 0u8 {
            Some((false, pos + 1))
        } else {
            None
        }
    } else {
        None
    }
}

pub fn read_bytes(s: &Vec<u8>, pos: usize) -> (r: Option<(Vec<u8>, usize)>)
    requires
        pos <= s@.len(),
    ensures
        r matches Some((b, p)) ==> pos <= p <= s@.len() && dec_bytes(s@.skip(pos as int)) == Some(
            (b@, s@.skip(p as int)),
        ),
        r is None ==> dec_bytes(s@.skip(pos as int)) is None,
{
    match read_u64(s, pos) {
        Some((n, p)) => {
            if n <= (s.len() - p) as u64 {
                let end = p + (n as usize);
                let piece = slice_to_vec(slice_subrange(s.as_slice(), p, end));
                proof {
                    assert(s@.skip(p as int).take(n as int) =~= s@.subrange(p as int, end as int));
                    assert(s@.skip(p as int).skip(n as int) =~= s@.skip(end as int));
                }
                Some((piece, end))
            } else {
                None
            }
        },
        None => None,
    }
}

/// Relies on `String::from_utf8`: succeeds exactly on a valid UTF-8
/// encoding and returns the characters it encodes.
#[verifier::external_body]
pub(crate) fn string_from_utf8(v: Vec<u8>) -> (r: Option<String>)
    ensures
        r matches Some(t) ==> valid_utf8(v@) && t@ == decode_utf8(v@),
        r is None ==> !valid_utf8(v@),
{
    String::from_utf8(v).ok()
}

pub fn read_str(s: &Vec<u8>, pos: usize) -> (r: Option<(String, usize)>)
    requires
        pos <= s@.len(),
    ensures
        r matches Some((t, p)) ==> pos <= p <= s@.len() && dec_str(s@.skip(pos as int)) == Some(
            (t@, s@.skip(p as int)),
        ),
        r is None ==> dec_str(s@.skip(pos as int)) is None,
{
    match read_bytes(s, pos) {
        Some((b, p)) => match string_from_utf8(b) {
            Some(t) => Some((t, p)),
            None => None,
        },
        None => None,
    }
}

} // verus!
