use hol_core::proto::{
    decode_load_file_ret, decode_open_zip_ret, decode_query_dir_ret, decode_response,
    encode_load_blob_arg, encode_load_file_arg, encode_open_zip_arg, encode_query_dir_arg,
    encode_request, IcLoadBlobArg, IcLoadFileArg, IcOpenZipArg, IcQueryDirArg, TCommandId,
    TInvokeCommandRequest, TInvokeCommandResponse, TPackageId,
};
use hol_core::setup::create_app;
use std::io::Write;

fn sample_zip() -> Vec<u8> {
    let cursor = std::io::Cursor::new(Vec::new());
    let mut writer = zip::ZipWriter::new(cursor);
    let options = zip::write::SimpleFileOptions::default();
    writer.start_file("hello.txt", options).unwrap();
    writer.write_all(b"hello archive").unwrap();
    writer.start_file("data/blob.bin", options).unwrap();
    writer.write_all(&[0u8, 1, 2, 3, 254, 255]).unwrap();
    writer.finish().unwrap().into_inner()
}

fn call(app: &mut hol_core::app::App, pkg: &str, cmd: &str, arguments: Vec<u8>) -> TInvokeCommandResponse {
    let req = TInvokeCommandRequest {
        pkg_id: Some(TPackageId { identifier: String::from(pkg) }),
        command_id: Some(TCommandId { name: String::from(cmd) }),
        arguments,
    };
    let out = app.invoke_command(&encode_request(&req)).unwrap();
    decode_response(&out).unwrap()
}

#[test]
fn open_list_and_load_round_trip() {
    let mut app = create_app();

    // open the archive from raw bytes
    let arg = encode_open_zip_arg(&IcOpenZipArg { data: sample_zip() });
    let resp = call(&mut app, "hol.archiver", "open_zip", arg);
    assert!(resp.success, "{:?}", resp.error_message);
    let archive = decode_open_zip_ret(&resp.returns).unwrap().data.unwrap();

    // list the entries, in archive order
    let arg = encode_query_dir_arg(&IcQueryDirArg { archiver: Some(archive) });
    let resp = call(&mut app, "hol.archiver", "query_dir", arg);
    assert!(resp.success, "{:?}", resp.error_message);
    let listing = decode_query_dir_ret(&resp.returns).unwrap();
    let paths: Vec<String> = listing.items.iter().map(|it| it.path.clone()).collect();
    assert_eq!(paths, vec![String::from("hello.txt"), String::from("data/blob.bin")]);

    // load one entry into a fresh blob
    let arg = encode_load_file_arg(&IcLoadFileArg {
        archiver: Some(archive),
        path: String::from("data/blob.bin"),
    });
    let resp = call(&mut app, "hol.archiver", "load_file", arg);
    assert!(resp.success, "{:?}", resp.error_message);
    let blob = decode_load_file_ret(&resp.returns).unwrap().data.unwrap();

    // read the blob back: the entry's exact original bytes
    let arg = encode_load_blob_arg(&IcLoadBlobArg { data: Some(blob) });
    let resp = call(&mut app, "hol.blob", "load_blob_data", arg);
    assert!(resp.success, "{:?}", resp.error_message);
    let ret = hol_core::proto::decode_load_blob_ret(&resp.returns).unwrap();
    assert_eq!(ret.data, vec![0u8, 1, 2, 3, 254, 255]);
}

#[test]
fn load_missing_path_fails_without_crash() {
    let mut app = create_app();
    let arg = encode_open_zip_arg(&IcOpenZipArg { data: sample_zip() });
    let resp = call(&mut app, "hol.archiver", "open_zip", arg);
    let archive = decode_open_zip_ret(&resp.returns).unwrap().data.unwrap();

    let arg = encode_load_file_arg(&IcLoadFileArg {
        archiver: Some(archive),
        path: String::from("no/such/entry"),
    });
    let resp = call(&mut app, "hol.archiver", "load_file", arg);
    assert!(!resp.success);
    let msg = resp.error_message.unwrap();
    assert!(msg.contains("not found"), "unexpected message: {}", msg);

    // the archive is still usable afterwards
    let arg = encode_query_dir_arg(&IcQueryDirArg { archiver: Some(archive) });
    let resp = call(&mut app, "hol.archiver", "query_dir", arg);
    assert!(resp.success);
}

#[test]
fn open_malformed_archive_fails_without_crash() {
    let mut app = create_app();
    let arg = encode_open_zip_arg(&IcOpenZipArg { data: vec![1, 2, 3, 4, 5] });
    let resp = call(&mut app, "hol.archiver", "open_zip", arg);
    assert!(!resp.success);
    assert!(resp.error_message.is_some());
}

#[test]
fn loaded_text_entry_matches_original() {
    let mut app = create_app();
    let arg = encode_open_zip_arg(&IcOpenZipArg { data: sample_zip() });
    let resp = call(&mut app, "hol.archiver", "open_zip", arg);
    let archive = decode_open_zip_ret(&resp.returns).unwrap().data.unwrap();

    let arg = encode_load_file_arg(&IcLoadFileArg {
        archiver: Some(archive),
        path: String::from("hello.txt"),
    });
    let resp = call(&mut app, "hol.archiver", "load_file", arg);
    assert!(resp.success, "{:?}", resp.error_message);
    let blob = decode_load_file_ret(&resp.returns).unwrap().data.unwrap();

    let arg = encode_load_blob_arg(&IcLoadBlobArg { data: Some(blob) });
    let resp = call(&mut app, "hol.blob", "load_blob_data", arg);
    let ret = hol_core::proto::decode_load_blob_ret(&resp.returns).unwrap();
    assert_eq!(ret.data, b"hello archive".to_vec());
}
