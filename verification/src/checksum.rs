//! The streaming digest engine: several cryptographic hashes over one
//! chunked data source, in one pass and bounded memory.
//!
//! A call names the requested algorithms by numeric code; duplicates
//! collapse to one computation, and the results come back in the order the
//! algorithms were first seen, each digest rendered as upper-case
//! hexadecimal. Two traversal strategies are provided and proved to agree:
//! [`batch_digest_stream`] feeds every accumulator from a single pass over
//! the source, while [`batch_digest_sequential`] re-consumes the chunk
//! list once per algorithm. Both return exactly
//! [`spec_batch_digest`] of the source's content, so the chosen strategy
//! is observable only in how the source is traversed.

use vstd::prelude::*;
use vstd::utf8::{encode_utf8, is_ascii_chars};
use crate::bridge::{
    chunks_view, concat_chunks, lemma_concat_chunks_push, lemma_concat_chunks_single, BlobStore,
    BridgeFileStream,
};
use crate::codec::string_from_utf8;

verus! {

// ---------------------------------------------------------------------------
// Trusted interface to the hash crates. Each accumulator is opaque; what
// it has processed, and what its digest of a byte sequence is, are named
// by uninterpreted functions, and the wrappers state the crates' streaming
// contract over those names: updates append, finalize digests everything
// fed so far.
// ---------------------------------------------------------------------------
#[verifier::external_type_specification]
#[verifier::external_body]
pub struct ExMd5(md5::Md5);

#[verifier::external_type_specification]
#[verifier::external_body]
pub struct ExSha1(sha1::Sha1);

#[verifier::external_type_specification]
#[verifier::external_body]
pub struct ExSha256(sha2::Sha256);

/// The bytes an MD5 accumulator has processed so far.
pub uninterp spec fn md5_fed(d: md5::Md5) -> Seq<u8>;

/// The MD5 digest (16 raw bytes) of a byte sequence.
pub uninterp spec fn md5_digest(data: Seq<u8>) -> Seq<u8>;

/// The bytes a SHA-1 accumulator has processed so far.
pub uninterp spec fn sha1_fed(d: sha1::Sha1) -> Seq<u8>;

/// The SHA-1 digest (20 raw bytes) of a byte sequence.
pub uninterp spec fn sha1_digest(data: Seq<u8>) -> Seq<u8>;

/// The bytes a SHA-256 accumulator has processed so far.
pub uninterp spec fn sha256_fed(d: sha2::Sha256) -> Seq<u8>;

/// The SHA-256 digest (32 raw bytes) of a byte sequence.
pub uninterp spec fn sha256_digest(data: Seq<u8>) -> Seq<u8>;

/// Relies on `Digest::new` for `md5::Md5`: a fresh accumulator that has
/// processed no bytes.
#[verifier::external_body]
fn md5_new() -> (r: md5::Md5)
    ensures
        md5_fed(r) == Seq::<u8>::empty(),
{
    <md5::Md5 as md5::Digest>::new()
}

/// Relies on `Digest::update` for `md5::Md5`: processes one more chunk;
/// the trait is streaming, repeated updates hash the concatenation.
#[verifier::external_body]
fn md5_update(d: &mut md5::Md5, chunk: &[u8])
    ensures
        md5_fed(*final(d)) == md5_fed(*old(d)) + chunk@,
{
    md5::Digest::update(d, chunk)
}

/// Relies on `Digest::finalize` for `md5::Md5`: the 16-byte MD5 digest of
/// everything the accumulator has processed.
#[verifier::external_body]
fn md5_finalize(d: md5::Md5) -> (r: Vec<u8>)
    ensures
        r@ == md5_digest(md5_fed(d)),
        r@.len() == 16,
{
    md5::Digest::finalize(d).to_vec()
}

/// Relies on `Digest::new` for `sha1::Sha1`: a fresh accumulator that has
/// processed no bytes.
#[verifier::external_body]
fn sha1_new() -> (r: sha1::Sha1)
    ensures
        sha1_fed(r) == Seq::<u8>::empty(),
{
    <sha1::Sha1 as sha1::Digest>::new()
}

/// Relies on `Digest::update` for `sha1::Sha1`: processes one more chunk;
/// the trait is streaming, repeated updates hash the concatenation.
#[verifier::external_body]
fn sha1_update(d: &mut sha1::Sha1, chunk: &[u8])
    ensures
        sha1_fed(*final(d)) == sha1_fed(*old(d)) + chunk@,
{
    sha1::Digest::update(d, chunk)
}

/// Relies on `Digest::finalize` for `sha1::Sha1`: the 20-byte SHA-1
/// digest of everything the accumulator has processed.
#[verifier::external_body]
fn sha1_finalize(d: sha1::Sha1) -> (r: Vec<u8>)
    ensures
        r@ == sha1_digest(sha1_fed(d)),
        r@.len() == 20,
{
    sha1::Digest::finalize(d).to_vec()
}

/// Relies on `Digest::new` for `sha2::Sha256`: a fresh accumulator that
/// has processed no bytes.
#[verifier::external_body]
fn sha256_new() -> (r: sha2::Sha256)
    ensures
        sha256_fed(r) == Seq::<u8>::empty(),
{
    <sha2::Sha256 as sha2::Digest>::new()
}

/// Relies on `Digest::update` for `sha2::Sha256`: processes one more
/// chunk; the trait is streaming, repeated updates hash the concatenation.
#[verifier::external_body]
fn sha256_update(d: &mut sha2::Sha256, chunk: &[u8])
    ensures
        sha256_fed(*final(d)) == sha256_fed(*old(d)) + chunk@,
{
    sha2::Digest::update(d, chunk)
}

/// Relies on `Digest::finalize` for `sha2::Sha256`: the 32-byte SHA-256
/// digest of everything the accumulator has processed.
#[verifier::external_body]
fn sha256_finalize(d: sha2::Sha256) -> (r: Vec<u8>)
    ensures
        r@ == sha256_digest(sha256_fed(d)),
        r@.len() == 32,
{
    sha2::Digest::finalize(d).to_vec()
}

// ---------------------------------------------------------------------------
// Upper-case hexadecimal rendering, two digits per byte.
// ---------------------------------------------------------------------------
pub open spec fn hex_digit(n: int) -> char
    recommends
        0 <= n < 16,
{
    if n == 0 {
        '0'
    } else if n == 1 {
        '1'
    } else if n == 2 {
        '2'
    } else if n == 3 {
        '3'
    } else if n == 4 {
        '4'
    } else if n == 5 {
        '5'
    } else if n == 6 {
        '6'
    } else if n == 7 {
        '7'
    } else if n == 8 {
        '8'
    } else if n == 9 {
        '9'
    } else if n == 10 {
        'A'
    } else if n == 11 {
        'B'
    } else if n == 12 {
        'C'
    } else if n == 13 {
        'D'
    } else if n == 14 {
        'E'
    } else {
        'F'
    }
}

/// Raw bytes rendered as upper-case hexadecimal.
pub open spec fn hex_upper(bytes: Seq<u8>) -> Seq<char> {
    Seq::new(
        bytes.len() * 2,
        |i: int|
            if i % 2 == 0 {
                hex_digit((bytes[i / 2] / 16) as int)
            } else {
                hex_digit((bytes[i / 2] % 16) as int)
            },
    )
}

fn hex_digit_byte(n: u8) -> (r: u8)
    requires
        n < 16,
    ensures
        r == hex_digit(n as int) as u8,
{
    if n < 10 {
        48 + n
    } else {
        55 + n
    }
}

/// Renders bytes as an upper-case hexadecimal string.
pub fn to_hex_upper(bytes: &Vec<u8>) -> (r: String)
    ensures
        r@ == hex_upper(bytes@),
{
    let mut ascii: Vec<u8> = Vec::new();
    let n = bytes.len();
    for i in 0..n
        invariant
            n == bytes@.len(),
            ascii@.len() == 2 * i,
            forall|j: int| 0 <= j < 2 * i ==> ascii@[j] == hex_upper(bytes@)[j] as u8,
    {
        let b = bytes[i];
        ascii.push(hex_digit_byte(b / 16));
        ascii.push(hex_digit_byte(b % 16));
        proof {
            assert(hex_upper(bytes@)[2 * i] == hex_digit((bytes@[i as int] / 16) as int));
            assert(hex_upper(bytes@)[2 * i + 1] == hex_digit((bytes@[i as int] % 16) as int));
        }
    }
    proof {
        assert(is_ascii_chars(hex_upper(bytes@)));
        vstd::utf8::is_ascii_chars_encode_utf8(hex_upper(bytes@));
        assert(ascii@ =~= encode_utf8(hex_upper(bytes@)));
        broadcast use vstd::utf8::encode_utf8_valid_utf8, vstd::utf8::encode_utf8_decode_utf8;

    }
    match string_from_utf8(ascii) {
        Some(s) => s,
        None => {
            proof {
                assert(false);
            }
            String::new()
        },
    }
}

// ---------------------------------------------------------------------------
// The algorithms and the call's argument and result shapes.
// ---------------------------------------------------------------------------
/// A digest algorithm, identified across the boundary by a numeric code.
#[derive(Clone, Copy, Debug, PartialEq, Eq, Structural)]
pub enum DigestType {
    MD5,
    SHA1,
    SHA256,
}

impl DigestType {
    /// The numeric code of this algorithm.
    pub open spec fn spec_code(self) -> i32 {
        match self {
            DigestType::MD5 => 0,
            DigestType::SHA1 => 1,
            DigestType::SHA256 => 2,
        }
    }

    pub fn code(&self) -> (r: i32)
        ensures
            r == self.spec_code(),
    {
        match self {
            DigestType::MD5 => 0,
            DigestType::SHA1 => 1,
            DigestType::SHA256 => 2,
        }
    }

    /// The algorithm a numeric code names, if any.
    pub open spec fn spec_from_i32(v: i32) -> Option<DigestType> {
        if v == 0 {
            Some(DigestType::MD5)
        } else if v == 1 {
            Some(DigestType::SHA1)
        } else if v == 2 {
            Some(DigestType::SHA256)
        } else {
            None
        }
    }

    pub fn from_i32(v: i32) -> (r: Option<DigestType>)
        ensures
            r == Self::spec_from_i32(v),
    {
        if v == 0 {
            Some(DigestType::MD5)
        } else if v == 1 {
            Some(DigestType::SHA1)
        } else if v == 2 {
            Some(DigestType::SHA256)
        } else {
            None
        }
    }

    /// This algorithm's digest of a byte sequence.
    pub open spec fn spec_digest(self, data: Seq<u8>) -> Seq<u8> {
        match self {
            DigestType::MD5 => md5_digest(data),
            DigestType::SHA1 => sha1_digest(data),
            DigestType::SHA256 => sha256_digest(data),
        }
    }
}

/// One finalized digest: the algorithm's code and the hex rendering.
#[derive(Clone, Debug)]
pub struct DigestResultItem {
    pub typ: i32,
    pub val: String,
}

impl View for DigestResultItem {
    type V = (i32, Seq<char>);

    open spec fn view(&self) -> (i32, Seq<char>) {
        (self.typ, self.val@)
    }
}

/// The digest call's argument: the requested algorithm codes and the id
/// of the stored blob to digest.
#[derive(Clone, Debug)]
pub struct BatchDigestArg {
    pub typs: Vec<i32>,
    pub blob_id: i32,
}

pub open spec fn digest_items_view(items: Seq<DigestResultItem>) -> Seq<(i32, Seq<char>)> {
    Seq::new(items.len(), |j: int| (items[j].typ, items[j].val@))
}

// ---------------------------------------------------------------------------
// What a digest call returns, at the specification level.
// ---------------------------------------------------------------------------
/// The requested codes with duplicates collapsed, in first-seen order.
pub open spec fn spec_dedup(typs: Seq<i32>) -> Seq<i32>
    decreases typs.len(),
{
    if typs.len() == 0 {
        Seq::<i32>::empty()
    } else {
        let prefix = spec_dedup(typs.drop_last());
        if prefix.contains(typs.last()) {
            prefix
        } else {
            prefix.push(typs.last())
        }
    }
}

pub open spec fn spec_digest_of_code(t: i32, data: Seq<u8>) -> Seq<u8> {
    match DigestType::spec_from_i32(t) {
        Some(d) => d.spec_digest(data),
        None => Seq::<u8>::empty(),
    }
}

/// The byte length of each algorithm's digest: 16 for MD5, 20 for SHA-1,
/// 32 for SHA-256. A result's hex rendering has twice as many characters.
pub open spec fn spec_digest_len(t: i32) -> int {
    match DigestType::spec_from_i32(t) {
        Some(DigestType::MD5) => 16,
        Some(DigestType::SHA1) => 20,
        Some(DigestType::SHA256) => 32,
        None => 0,
    }
}

pub open spec fn spec_digest_item(t: i32, content: Seq<u8>) -> (i32, Seq<char>) {
    (t, hex_upper(spec_digest_of_code(t, content)))
}

pub open spec fn spec_digest_items(codes: Seq<i32>, content: Seq<u8>) -> Seq<(i32, Seq<char>)> {
    Seq::new(codes.len(), |j: int| spec_digest_item(codes[j], content))
}

/// The whole call: one hex digest per distinct requested algorithm, in
/// first-seen order, each over the source's full content.
pub open spec fn spec_batch_digest(typs: Seq<i32>, content: Seq<u8>) -> Seq<(i32, Seq<char>)> {
    spec_digest_items(spec_dedup(typs), content)
}

/// Every deduplicated code occurs in the original request.
pub proof fn lemma_dedup_subset(typs: Seq<i32>)
    ensures
        forall|j: int|
            0 <= j < spec_dedup(typs).len() ==> typs.contains(#[trigger] spec_dedup(typs)[j]),
    decreases typs.len(),
{
    if typs.len() > 0 {
        lemma_dedup_subset(typs.drop_last());
        assert forall|j: int| 0 <= j < spec_dedup(typs).len() implies typs.contains(
            #[trigger] spec_dedup(typs)[j],
        ) by {
            let prefix = spec_dedup(typs.drop_last());
            if j < prefix.len() {
                let k = choose|k: int| 0 <= k < typs.drop_last().len() && typs.drop_last()[k]
                    == prefix[j];
                assert(typs[k] == prefix[j]);
            } else {
                assert(spec_dedup(typs)[j] == typs.last());
            }
        }
    }
}

/// The digests depend on the source's content alone: two chunkings that
/// concatenate to the same bytes give the same results, whichever
/// traversal strategy a caller picks.
pub proof fn lemma_digest_strategy_agreement(
    typs: Seq<i32>,
    cs1: Seq<Seq<u8>>,
    cs2: Seq<Seq<u8>>,
)
    requires
        concat_chunks(cs1) == concat_chunks(cs2),
    ensures
        spec_batch_digest(typs, concat_chunks(cs1)) == spec_batch_digest(
            typs,
            concat_chunks(cs2),
        ),
{
}

// ---------------------------------------------------------------------------
// The executable engine.
// ---------------------------------------------------------------------------
fn contains_code(v: &Vec<i32>, t: i32) -> (r: bool)
    ensures
        r == v@.contains(t),
{
    let mut k: usize = 0;
    while k < v.len()
        invariant
            k <= v@.len(),
            forall|j: int| 0 <= j < k ==> v@[j] != t,
        decreases v@.len() - k,
    {
        if v[k] == t {
            proof {
                assert(v@[k as int] == t);
            }
            return true;
        }
        k = k + 1;
    }
    proof {
        assert(!v@.contains(t));
    }
    false
}

/// Collapses duplicate codes, keeping first-seen order.
fn dedup_codes(typs: &Vec<i32>) -> (r: Vec<i32>)
    ensures
        r@ == spec_dedup(typs@),
{
    let mut algs: Vec<i32> = Vec::new();
    proof {
        assert(typs@.take(0) =~= Seq::<i32>::empty());
    }
    let n = typs.len();
    for i in 0..n
        invariant
            n == typs@.len(),
            algs@ == spec_dedup(typs@.take(i as int)),
    {
        proof {
            assert(typs@.take(i + 1).drop_last() =~= typs@.take(i as int));
            assert(typs@.take(i + 1).last() == typs@[i as int]);
        }
        if !contains_code(&algs, typs[i]) {
            algs.push(typs[i]);
        }
    }
    proof {
        assert(typs@.take(n as int) =~= typs@);
    }
    algs
}

/// Every requested code names an algorithm; an unrecognized code is a
/// defect that fails the whole call, so it is excluded up front.
pub open spec fn codes_valid(typs: Seq<i32>) -> bool {
    forall|i: int| 0 <= i < typs.len() ==> DigestType::spec_from_i32(#[trigger] typs[i]) is Some
}

/// The interleaved strategy: one pass over the source, feeding every
/// requested algorithm's accumulator with each chunk, finalizing at
/// end-of-data.
pub fn batch_digest_stream(typs: &Vec<i32>, stream: &mut BridgeFileStream) -> (r: Vec<
    DigestResultItem,
>)
    requires
        codes_valid(typs@),
        old(stream).wf(),
        old(stream).pos() == 0,
    ensures
        final(stream).wf(),
        final(stream).chunks() == old(stream).chunks(),
        digest_items_view(r@) == spec_batch_digest(typs@, old(stream).content()),
        forall|i: int|
            0 <= i < r@.len() ==> (#[trigger] r@[i]).val@.len() == 2 * spec_digest_len(r@[i].typ),
{
    let algs = dedup_codes(typs);
    proof {
        lemma_dedup_subset(typs@);
    }
    let mut md5_st = md5_new();
    let mut sha1_st = sha1_new();
    let mut sha256_st = sha256_new();
    proof {
        assert(stream.chunks().take(0) =~= Seq::<Seq<u8>>::empty());
    }
    while stream.position() < stream.chunk_count()
        invariant
            stream.wf(),
            stream.chunks() == old(stream).chunks(),
            md5_fed(md5_st) == concat_chunks(stream.chunks().take(stream.pos())),
            sha1_fed(sha1_st) == concat_chunks(stream.chunks().take(stream.pos())),
            sha256_fed(sha256_st) == concat_chunks(stream.chunks().take(stream.pos())),
        decreases stream.chunks().len() - stream.pos(),
    {
        match stream.next() {
            Some(chunk) => {
                md5_update(&mut md5_st, chunk.as_slice());
                sha1_update(&mut sha1_st, chunk.as_slice());
                sha256_update(&mut sha256_st, chunk.as_slice());
                proof {
                    let p = stream.pos();
                    assert(stream.chunks().take(p) =~= stream.chunks().take(p - 1).push(
                        stream.chunks()[p - 1],
                    ));
                    lemma_concat_chunks_push(stream.chunks().take(p - 1), stream.chunks()[p - 1]);
                }
            },
            None => {
                proof {
                    assert(false);
                }
            },
        }
    }
    proof {
        assert(stream.chunks().take(stream.pos()) =~= stream.chunks());
    }
    let md5_hex = to_hex_upper(&md5_finalize(md5_st));
    let sha1_hex = to_hex_upper(&sha1_finalize(sha1_st));
    let sha256_hex = to_hex_upper(&sha256_finalize(sha256_st));
    let ghost content = old(stream).content();
    let mut items: Vec<DigestResultItem> = Vec::new();
    proof {
        assert(digest_items_view(items@) =~= spec_digest_items(algs@.take(0), content));
    }
    let m = algs.len();
    for i in 0..m
        invariant
            m == algs@.len(),
            algs@ == spec_dedup(typs@),
            codes_valid(typs@),
            content == old(stream).content(),
            md5_hex@ == hex_upper(md5_digest(content)),
            sha1_hex@ == hex_upper(sha1_digest(content)),
            sha256_hex@ == hex_upper(sha256_digest(content)),
            md5_hex@.len() == 32,
            sha1_hex@.len() == 40,
            sha256_hex@.len() == 64,
            forall|j: int| 0 <= j < algs@.len() ==> typs@.contains(#[trigger] algs@[j]),
            digest_items_view(items@) == spec_digest_items(algs@.take(i as int), content),
            forall|j: int|
                0 <= j < items@.len() ==> (#[trigger] items@[j]).val@.len() == 2 * spec_digest_len(
                    items@[j].typ,
                ),
    {
        let t = algs[i];
        proof {
            let k = choose|k: int| 0 <= k < typs@.len() && typs@[k] == t;
            assert(DigestType::spec_from_i32(typs@[k]) is Some);
        }
        let val = match DigestType::from_i32(t) {
            Some(DigestType::MD5) => {
                proof {
                    assert(spec_digest_of_code(t, content) == md5_digest(content));
                    assert(spec_digest_len(t) == 16);
                }
                md5_hex.clone()
            },
            Some(DigestType::SHA1) => {
                proof {
                    assert(spec_digest_of_code(t, content) == sha1_digest(content));
                    assert(spec_digest_len(t) == 20);
                }
                sha1_hex.clone()
            },
            Some(DigestType::SHA256) => {
                proof {
                    assert(spec_digest_of_code(t, content) == sha256_digest(content));
                    assert(spec_digest_len(t) == 32);
                }
                sha256_hex.clone()
            },
            None => {
                proof {
                    assert(false);
                }
                String::new()
            },
        };
        let item = DigestResultItem { typ: t, val };
        proof {
            assert(item@ == spec_digest_item(t, content));
            assert(item.val@.len() == 2 * spec_digest_len(item.typ));
        }
        let ghost itemv = item@;
        let ghost prev = items@;
        items.push(item);
        proof {
            let lhs = digest_items_view(items@);
            let rhs = spec_digest_items(algs@.take(i + 1), content);
            assert(digest_items_view(prev).len() == prev.len());
            assert(spec_digest_items(algs@.take(i as int), content).len() == i);
            assert(prev.len() == i);
            assert(items@.len() == i + 1);
            assert(lhs.len() == i + 1);
            assert(rhs.len() == i + 1);
            assert forall|j: int| 0 <= j < lhs.len() implies lhs[j] == rhs[j] by {
                assert(rhs[j] == spec_digest_item(algs@.take(i + 1)[j], content));
                if j < i {
                    assert(lhs[j] == digest_items_view(prev)[j]);
                    assert(digest_items_view(prev)[j] == spec_digest_items(
                        algs@.take(i as int),
                        content,
                    )[j]);
                    assert(algs@.take(i + 1)[j] == algs@.take(i as int)[j]);
                } else {
                    assert(lhs[j] == itemv);
                    assert(algs@.take(i + 1)[j] == t);
                }
            };
            assert(lhs =~= rhs);
        }
    }
    proof {
        assert(algs@.take(m as int) =~= algs@);
    }
    items
}

/// One full pass over the chunk list for one algorithm.
fn digest_chunks_once(d: DigestType, chunks: &Vec<Vec<u8>>) -> (r: String)
    ensures
        r@ == hex_upper(d.spec_digest(concat_chunks(chunks_view(chunks@)))),
        r@.len() == 2 * spec_digest_len(d.spec_code()),
{
    let n = chunks.len();
    proof {
        assert(chunks_view(chunks@).take(0) =~= Seq::<Seq<u8>>::empty());
    }
    match d {
        DigestType::MD5 => {
            let mut st = md5_new();
            for j in 0..n
                invariant
                    n == chunks@.len(),
                    md5_fed(st) == concat_chunks(chunks_view(chunks@).take(j as int)),
            {
                md5_update(&mut st, chunks[j].as_slice());
                proof {
                    assert(chunks_view(chunks@).take(j + 1) =~= chunks_view(chunks@).take(
                        j as int,
                    ).push(chunks@[j as int]@));
                    lemma_concat_chunks_push(
                        chunks_view(chunks@).take(j as int),
                        chunks@[j as int]@,
                    );
                }
            }
            proof {
                assert(chunks_view(chunks@).take(n as int) =~= chunks_view(chunks@));
            }
            to_hex_upper(&md5_finalize(st))
        },
        DigestType::SHA1 => {
            let mut st = sha1_new();
            for j in 0..n
                invariant
                    n == chunks@.len(),
                    sha1_fed(st) == concat_chunks(chunks_view(chunks@).take(j as int)),
            {
                sha1_update(&mut st, chunks[j].as_slice());
                proof {
                    assert(chunks_view(chunks@).take(j + 1) =~= chunks_view(chunks@).take(
                        j as int,
                    ).push(chunks@[j as int]@));
                    lemma_concat_chunks_push(
                        chunks_view(chunks@).take(j as int),
                        chunks@[j as int]@,
                    );
                }
            }
            proof {
                assert(chunks_view(chunks@).take(n as int) =~= chunks_view(chunks@));
            }
            to_hex_upper(&sha1_finalize(st))
        },
        DigestType::SHA256 => {
            let mut st = sha256_new();
            for j in 0..n
                invariant
                    n == chunks@.len(),
                    sha256_fed(st) == concat_chunks(chunks_view(chunks@).take(j as int)),
            {
                sha256_update(&mut st, chunks[j].as_slice());
                proof {
                    assert(chunks_view(chunks@).take(j + 1) =~= chunks_view(chunks@).take(
                        j as int,
                    ).push(chunks@[j as int]@));
                    lemma_concat_chunks_push(
                        chunks_view(chunks@).take(j as int),
                        chunks@[j as int]@,
                    );
                }
            }
            proof {
                assert(chunks_view(chunks@).take(n as int) =~= chunks_view(chunks@));
            }
            to_hex_upper(&sha256_finalize(st))
        },
    }
}

/// The sequential strategy: for each distinct algorithm, an independent
/// full pass over the chunk list. The results are identical to the
/// interleaved strategy's, per [`spec_batch_digest`].
pub fn batch_digest_sequential(typs: &Vec<i32>, chunks: &Vec<Vec<u8>>) -> (r: Vec<
    DigestResultItem,
>)
    requires
        codes_valid(typs@),
    ensures
        digest_items_view(r@) == spec_batch_digest(typs@, concat_chunks(chunks_view(chunks@))),
        forall|i: int|
            0 <= i < r@.len() ==> (#[trigger] r@[i]).val@.len() == 2 * spec_digest_len(r@[i].typ),
{
    let algs = dedup_codes(typs);
    proof {
        lemma_dedup_subset(typs@);
    }
    let ghost content = concat_chunks(chunks_view(chunks@));
    let mut items: Vec<DigestResultItem> = Vec::new();
    proof {
        assert(digest_items_view(items@) =~= spec_digest_items(algs@.take(0), content));
    }
    let m = algs.len();
    for i in 0..m
        invariant
            m == algs@.len(),
            algs@ == spec_dedup(typs@),
            codes_valid(typs@),
            content == concat_chunks(chunks_view(chunks@)),
            forall|j: int| 0 <= j < algs@.len() ==> typs@.contains(#[trigger] algs@[j]),
            digest_items_view(items@) == spec_digest_items(algs@.take(i as int), content),
            forall|j: int|
                0 <= j < items@.len() ==> (#[trigger] items@[j]).val@.len() == 2 * spec_digest_len(
                    items@[j].typ,
                ),
    {
        let t = algs[i];
        proof {
            let k = choose|k: int| 0 <= k < typs@.len() && typs@[k] == t;
            assert(DigestType::spec_from_i32(typs@[k]) is Some);
        }
        let val = match DigestType::from_i32(t) {
            Some(d) => {
                proof {
                    assert(spec_digest_of_code(t, content) == d.spec_digest(content));
                    assert(d.spec_code() == t);
                }
                digest_chunks_once(d, chunks)
            },
            None => {
                proof {
                    assert(false);
                }
                String::new()
            },
        };
        let item = DigestResultItem { typ: t, val };
        proof {
            assert(item@ == spec_digest_item(t, content));
            assert(item.val@.len() == 2 * spec_digest_len(item.typ));
        }
        let ghost itemv = item@;
        let ghost prev = items@;
        items.push(item);
        proof {
            let lhs = digest_items_view(items@);
            let rhs = spec_digest_items(algs@.take(i + 1), content);
            assert(digest_items_view(prev).len() == prev.len());
            assert(spec_digest_items(algs@.take(i as int), content).len() == i);
            assert(prev.len() == i);
            assert(items@.len() == i + 1);
            assert(lhs.len() == i + 1);
            assert(rhs.len() == i + 1);
            assert forall|j: int| 0 <= j < lhs.len() implies lhs[j] == rhs[j] by {
                assert(rhs[j] == spec_digest_item(algs@.take(i + 1)[j], content));
                if j < i {
                    assert(lhs[j] == digest_items_view(prev)[j]);
                    assert(digest_items_view(prev)[j] == spec_digest_items(
                        algs@.take(i as int),
                        content,
                    )[j]);
                    assert(algs@.take(i + 1)[j] == algs@.take(i as int)[j]);
                } else {
                    assert(lhs[j] == itemv);
                    assert(algs@.take(i + 1)[j] == t);
                }
            };
            assert(lhs =~= rhs);
        }
    }
    proof {
        assert(algs@.take(m as int) =~= algs@);
    }
    items
}

/// The host-facing digest call: digests the stored blob the argument
/// names, one pass, one result per distinct requested algorithm.
pub fn batch_digest(arg: BatchDigestArg, store: &BlobStore) -> (r: Vec<DigestResultItem>)
    requires
        codes_valid(arg.typs@),
        store.blobs().contains_key(arg.blob_id),
    ensures
        digest_items_view(r@) == spec_batch_digest(arg.typs@, store.blobs()[arg.blob_id]@),
        forall|i: int|
            0 <= i < r@.len() ==> (#[trigger] r@[i]).val@.len() == 2 * spec_digest_len(r@[i].typ),
{
    let mut stream = BridgeFileStream::new(store, arg.blob_id);
    proof {
        lemma_concat_chunks_single(store.blobs()[arg.blob_id]@);
    }
    batch_digest_stream(&arg.typs, &mut stream)
}

} // verus!
