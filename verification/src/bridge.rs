//! The host bridge: numeric call codes, a store of byte blobs keyed by
//! small integer ids, and the chunked stream a digest computation pulls
//! from.
//!
//! A chunked stream yields its byte chunks one at a time and signals
//! end-of-data by yielding none; its content is the concatenation of its
//! chunks.

use vstd::prelude::*;
use vstd::slice::slice_to_vec;
use std::collections::HashMap;

verus! {

broadcast use vstd::std_specs::hash::group_hash_axioms;

/// The numeric codes of the host-callable entry points.
#[derive(Clone, Copy, Debug, PartialEq, Eq, Structural)]
pub enum BridgeCode {
    BatchDigest,
}

impl BridgeCode {
    pub open spec fn spec_code(self) -> i32 {
        match self {
            BridgeCode::BatchDigest => 0,
        }
    }

    pub fn code(&self) -> (r: i32)
        ensures
            r == self.spec_code(),
    {
        match self {
            BridgeCode::BatchDigest => 0,
        }
    }
}

/// The byte sequences a list of chunks denotes.
pub open spec fn chunks_view(chunks: Seq<Vec<u8>>) -> Seq<Seq<u8>> {
    chunks.map_values(|c: Vec<u8>| c@)
}

/// The concatenation of a list of chunks: a stream's whole content.
pub open spec fn concat_chunks(cs: Seq<Seq<u8>>) -> Seq<u8>
    decreases cs.len(),
{
    if cs.len() == 0 {
        Seq::<u8>::empty()
    } else {
        concat_chunks(cs.drop_last()) + cs.last()
    }
}

/// Blobs handed over by the host ahead of a call, keyed by the small
/// integer ids the call names them with.
pub struct BlobStore {
    alloc_id: i32,
    blobs: HashMap<i32, Vec<u8>>,
}

impl BlobStore {
    /// The stored blobs.
    pub closed spec fn blobs(self) -> Map<i32, Vec<u8>> {
        self.blobs@
    }

    /// The id the next insertion will use.
    pub closed spec fn next_id(self) -> i32 {
        self.alloc_id
    }

    pub open spec fn wf(self) -> bool {
        0 <= self.next_id()
    }

    pub fn new() -> (r: Self)
        ensures
            r.wf(),
            r.blobs() == Map::<i32, Vec<u8>>::empty(),
            r.next_id() == 0,
    {
        BlobStore { alloc_id: 0, blobs: HashMap::new() }
    }

    /// The blob stored under `id`, if any.
    pub fn get(&self, id: i32) -> (r: Option<&Vec<u8>>)
        ensures
            match r {
                Some(b) => self.blobs().contains_key(id) && *b == self.blobs()[id],
                None => !self.blobs().contains_key(id),
            },
    {
        self.blobs.get(&id)
    }
}

/// Stores a blob for a later digest call and returns its fresh id.
pub fn insert_blob_for_test(store: &mut BlobStore, data: Vec<u8>) -> (id: i32)
    requires
        old(store).wf(),
        old(store).next_id() < i32::MAX,
    ensures
        final(store).wf(),
        id == old(store).next_id(),
        final(store).blobs() == old(store).blobs().insert(id, data),
        final(store).next_id() == old(store).next_id() + 1,
{
    let id = store.alloc_id;
    store.alloc_id = store.alloc_id + 1;
    store.blobs.insert(id, data);
    id
}

/// A chunked data source. `next` yields the chunks in order and then
/// `None`; the content never changes underneath a reader.
pub struct BridgeFileStream {
    chunks: Vec<Vec<u8>>,
    pos: usize,
}

impl BridgeFileStream {
    /// The stream's chunks, in the order they are yielded.
    pub closed spec fn chunks(self) -> Seq<Seq<u8>> {
        chunks_view(self.chunks@)
    }

    /// How many chunks have been yielded so far.
    pub closed spec fn pos(self) -> int {
        self.pos as int
    }

    /// The stream's whole content.
    pub open spec fn content(self) -> Seq<u8> {
        concat_chunks(self.chunks())
    }

    pub open spec fn wf(self) -> bool {
        0 <= self.pos() <= self.chunks().len()
    }

    /// A stream over the blob stored under `blob_id`, yielded as a single
    /// chunk.
    pub fn new(store: &BlobStore, blob_id: i32) -> (r: Self)
        requires
            store.blobs().contains_key(blob_id),
        ensures
            r.wf(),
            r.pos() == 0,
            r.chunks() == seq![store.blobs()[blob_id]@],
    {
        let blob = match store.get(blob_id) {
            Some(b) => slice_to_vec(b.as_slice()),
            None => Vec::new(),
        };
        let mut chunks: Vec<Vec<u8>> = Vec::new();
        chunks.push(blob);
        let r = BridgeFileStream { chunks, pos: 0 };
        proof {
            assert(r.chunks() =~= seq![store.blobs()[blob_id]@]);
        }
        r
    }

    /// A stream that yields the given chunks in order.
    pub fn from_chunks(chunks: Vec<Vec<u8>>) -> (r: Self)
        ensures
            r.wf(),
            r.pos() == 0,
            r.chunks() == chunks_view(chunks@),
    {
        BridgeFileStream { chunks, pos: 0 }
    }

    pub fn position(&self) -> (r: usize)
        ensures
            r == self.pos(),
    {
        self.pos
    }

    pub fn chunk_count(&self) -> (r: usize)
        ensures
            r == self.chunks().len(),
    {
        self.chunks.len()
    }

    /// The next chunk, or `None` once the source is exhausted.
    pub fn next(&mut self) -> (r: Option<Vec<u8>>)
        requires
            old(self).wf(),
        ensures
            final(self).wf(),
            final(self).chunks() == old(self).chunks(),
            old(self).pos() < old(self).chunks().len() ==> {
                &&& r matches Some(c) && c@ == old(self).chunks()[old(self).pos()]
                &&& final(self).pos() == old(self).pos() + 1
            },
            old(self).pos() == old(self).chunks().len() ==> r is None && final(self).pos() == old(
                self,
            ).pos(),
    {
        if self.pos < self.chunks.len() {
            let chunk = slice_to_vec(self.chunks[self.pos].as_slice());
            self.pos = self.pos + 1;
            Some(chunk)
        } else {
            None
        }
    }
}

/// Appending a chunk extends the concatenation at the end.
pub proof fn lemma_concat_chunks_push(cs: Seq<Seq<u8>>, c: Seq<u8>)
    ensures
        concat_chunks(cs.push(c)) == concat_chunks(cs) + c,
{
    assert(cs.push(c).drop_last() =~= cs);
    assert(cs.push(c).last() == c);
}

/// The concatenation of a single chunk is the chunk itself.
pub proof fn lemma_concat_chunks_single(c: Seq<u8>)
    ensures
        concat_chunks(seq![c]) == c,
{
    assert(seq![c].drop_last() =~= Seq::<Seq<u8>>::empty());
    assert(seq![c].last() == c);
    assert(concat_chunks(seq![c]) == concat_chunks(Seq::<Seq<u8>>::empty()) + c);
    assert(Seq::<u8>::empty() + c =~= c);
}

} // verus!
