use hol_core::bridge::{insert_blob_for_test, BlobStore, BridgeFileStream};
use hol_core::checksum::{
    batch_digest, batch_digest_sequential, batch_digest_stream, to_hex_upper, BatchDigestArg,
    DigestType,
};

#[test]
fn checksum_md5() {
    let mut store = BlobStore::new();
    let blob_id = insert_blob_for_test(&mut store, vec![1, 2, 3, 4, 5, 6]);
    let ret = batch_digest(
        BatchDigestArg { typs: vec![DigestType::MD5 as i32], blob_id },
        &store,
    );
    assert_eq!(ret.len(), 1);
    assert_eq!(ret[0].typ, DigestType::MD5 as i32);
    assert_eq!(ret[0].val, "6AC1E56BC78F031059BE7BE854522C4C");
}

#[test]
fn md5_of_empty_input() {
    let mut store = BlobStore::new();
    let blob_id = insert_blob_for_test(&mut store, Vec::new());
    let ret = batch_digest(BatchDigestArg { typs: vec![0], blob_id }, &store);
    assert_eq!(ret.len(), 1);
    assert_eq!(ret[0].val, "D41D8CD98F00B204E9800998ECF8427E");
}

#[test]
fn sha1_and_sha256_known_vectors() {
    let mut store = BlobStore::new();
    let blob_id = insert_blob_for_test(&mut store, b"abc".to_vec());
    let ret = batch_digest(
        BatchDigestArg {
            typs: vec![DigestType::SHA1 as i32, DigestType::SHA256 as i32],
            blob_id,
        },
        &store,
    );
    assert_eq!(ret.len(), 2);
    assert_eq!(ret[0].typ, 1);
    assert_eq!(ret[0].val, "A9993E364706816ABA3E25717850C26C9CD0D89D");
    assert_eq!(ret[1].typ, 2);
    assert_eq!(ret[1].val, "BA7816BF8F01CFEA414140DE5DAE2223B00361A396177A9CB410FF61F20015AD");
}

#[test]
fn duplicate_codes_collapse_to_one_computation() {
    let mut store = BlobStore::new();
    let blob_id = insert_blob_for_test(&mut store, vec![1, 2, 3, 4, 5, 6]);
    let ret = batch_digest(BatchDigestArg { typs: vec![0, 0, 1, 0, 1], blob_id }, &store);
    assert_eq!(ret.len(), 2);
    assert_eq!(ret[0].typ, 0);
    assert_eq!(ret[0].val, "6AC1E56BC78F031059BE7BE854522C4C");
    assert_eq!(ret[1].typ, 1);
}

#[test]
fn results_come_in_first_seen_order() {
    let mut store = BlobStore::new();
    let blob_id = insert_blob_for_test(&mut store, vec![1, 2, 3, 4, 5, 6]);
    let ret = batch_digest(BatchDigestArg { typs: vec![2, 0, 1], blob_id }, &store);
    let order: Vec<i32> = ret.iter().map(|it| it.typ).collect();
    assert_eq!(order, vec![2, 0, 1]);
}

#[test]
fn interleaved_and_sequential_strategies_agree() {
    let chunks = vec![
        vec![1u8, 2, 3],
        Vec::new(),
        vec![4u8, 5],
        vec![6u8],
    ];
    let typs = vec![0, 1, 2];

    let mut stream = BridgeFileStream::from_chunks(chunks.clone());
    let interleaved = batch_digest_stream(&typs, &mut stream);
    let sequential = batch_digest_sequential(&typs, &chunks);

    assert_eq!(interleaved.len(), sequential.len());
    for (a, b) in interleaved.iter().zip(sequential.iter()) {
        assert_eq!(a.typ, b.typ);
        assert_eq!(a.val, b.val);
    }
    // chunking is invisible: one chunk with the same content agrees too
    let mut single = BridgeFileStream::from_chunks(vec![vec![1u8, 2, 3, 4, 5, 6]]);
    let whole = batch_digest_stream(&typs, &mut single);
    assert_eq!(whole[0].val, interleaved[0].val);
    assert_eq!(whole[0].val, "6AC1E56BC78F031059BE7BE854522C4C");
}

#[test]
fn repeated_runs_are_byte_identical() {
    let mut store = BlobStore::new();
    let blob_id = insert_blob_for_test(&mut store, vec![9, 9, 9, 1]);
    let arg = BatchDigestArg { typs: vec![0, 1, 2], blob_id };
    let first = batch_digest(arg.clone(), &store);
    let second = batch_digest(arg, &store);
    assert_eq!(first.len(), second.len());
    for (a, b) in first.iter().zip(second.iter()) {
        assert_eq!(a.typ, b.typ);
        assert_eq!(a.val, b.val);
    }
}

#[test]
fn hex_rendering_is_exact() {
    assert_eq!(to_hex_upper(&vec![]), "");
    assert_eq!(to_hex_upper(&vec![0x00]), "00");
    assert_eq!(to_hex_upper(&vec![0x0F, 0xA0, 0xFF]), "0FA0FF");
    assert_eq!(to_hex_upper(&vec![0x12, 0x34, 0xAB, 0xCD, 0xEF]), "1234ABCDEF");
}

#[test]
fn digest_type_codes_round_trip() {
    assert_eq!(DigestType::from_i32(0), Some(DigestType::MD5));
    assert_eq!(DigestType::from_i32(1), Some(DigestType::SHA1));
    assert_eq!(DigestType::from_i32(2), Some(DigestType::SHA256));
    assert_eq!(DigestType::from_i32(3), None);
    assert_eq!(DigestType::MD5.code(), 0);
    assert_eq!(DigestType::SHA1.code(), 1);
    assert_eq!(DigestType::SHA256.code(), 2);
}

#[test]
fn stream_yields_chunks_then_none() {
    let mut stream = BridgeFileStream::from_chunks(vec![vec![1u8], vec![2u8, 3]]);
    assert_eq!(stream.next(), Some(vec![1u8]));
    assert_eq!(stream.next(), Some(vec![2u8, 3]));
    assert_eq!(stream.next(), None);
    assert_eq!(stream.next(), None);
}

#[test]
fn blob_store_hands_back_stored_bytes() {
    let mut store = BlobStore::new();
    let a = insert_blob_for_test(&mut store, vec![1]);
    let b = insert_blob_for_test(&mut store, vec![2, 2]);
    assert_ne!(a, b);
    assert_eq!(store.get(a), Some(&vec![1u8]));
    assert_eq!(store.get(b), Some(&vec![2u8, 2]));
    assert_eq!(store.get(12345), None);
}

#[test]
fn bridge_code_of_batch_digest() {
    assert_eq!(hol_core::bridge::BridgeCode::BatchDigest.code(), 0);
    assert_eq!(hol_core::bridge::BridgeCode::BatchDigest as i32, 0);
}
