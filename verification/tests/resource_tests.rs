use hol_core::resource::{ResourceManager, ResourceValue, TBlobResource, TResource};

#[test]
fn allocate_then_get_returns_stored_value() {
    let mut table = ResourceManager::new();
    let handle = table.allocate(ResourceValue::Blob(vec![1, 2, 3]));
    match table.get(&handle) {
        Some(ResourceValue::Blob(b)) => assert_eq!(b, &vec![1u8, 2, 3]),
        _ => panic!("stored value not found"),
    }
}

#[test]
fn allocate_blob_then_get_blob_returns_stored_bytes() {
    let mut table = ResourceManager::new();
    let handle = table.allocate_blob(vec![9, 8, 7]);
    assert_eq!(table.get_blob(&handle), Some(&vec![9u8, 8, 7]));
}

#[test]
fn handles_are_fresh_and_never_reused() {
    let mut table = ResourceManager::new();
    let h1 = table.allocate_blob(vec![1]);
    let h2 = table.allocate_blob(vec![2]);
    assert_ne!(h1.id, h2.id);
    table.remove(&TResource { id: h1.id });
    let h3 = table.allocate_blob(vec![3]);
    assert_ne!(h3.id, h1.id);
    assert_ne!(h3.id, h2.id);
}

#[test]
fn get_with_wrong_kind_returns_none() {
    let mut table = ResourceManager::new();
    let handle = table.allocate(ResourceValue::Blob(vec![5]));
    // The value under this id is a blob resource; looking it up as a blob
    // succeeds.
    let as_blob = TBlobResource { id: handle.id };
    assert!(table.get_blob(&as_blob).is_some());
    // An archive stored under an id is not a blob: a blob lookup under the
    // same id must see "not found".
    let mut table2 = ResourceManager::new();
    let ret = hol_core::archiver::open_zip(
        &mut table2,
        hol_core::proto::IcOpenZipArg { data: empty_zip_bytes() },
    )
    .unwrap();
    let h2 = ret.data.unwrap();
    assert!(table2.get_blob(&TBlobResource { id: h2.id }).is_none());
    assert!(table2.get(&h2).is_some());
}

#[test]
fn get_after_remove_returns_none() {
    let mut table = ResourceManager::new();
    let handle = table.allocate_blob(vec![1, 2]);
    let generic = TResource { id: handle.id };
    assert!(table.get_blob(&handle).is_some());
    table.remove(&generic);
    assert!(table.get_blob(&handle).is_none());
    assert!(table.get(&generic).is_none());
}

#[test]
fn remove_twice_is_a_no_op() {
    let mut table = ResourceManager::new();
    let kept = table.allocate_blob(vec![4, 5]);
    let handle = table.allocate_blob(vec![1, 2]);
    let generic = TResource { id: handle.id };
    table.remove(&generic);
    table.remove(&generic);
    assert!(table.get_blob(&handle).is_none());
    // the second removal disturbed nothing else
    assert_eq!(table.get_blob(&kept), Some(&vec![4u8, 5]));
}

#[test]
fn remove_of_absent_handle_is_safe() {
    let mut table = ResourceManager::new();
    table.remove(&TResource { id: 12345 });
    let handle = table.allocate_blob(vec![1]);
    assert!(table.get_blob(&handle).is_some());
}

fn empty_zip_bytes() -> Vec<u8> {
    let cursor = std::io::Cursor::new(Vec::new());
    let writer = zip::ZipWriter::new(cursor);
    writer.finish().unwrap().into_inner()
}
