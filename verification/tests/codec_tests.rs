use hol_core::proto::{
    decode_load_blob_arg, decode_load_file_arg, decode_load_blob_ret, decode_open_zip_arg,
    decode_load_file_ret, decode_open_zip_ret, decode_query_dir_arg, decode_query_dir_ret, decode_request,
    decode_response, encode_load_blob_arg, encode_load_blob_ret, encode_load_file_arg,
    encode_load_file_ret, encode_open_zip_arg, encode_open_zip_ret, encode_query_dir_arg,
    encode_query_dir_ret, encode_request, encode_response, IcLoadBlobArg, IcLoadBlobRet,
    IcLoadFileArg, IcLoadFileRet, IcOpenZipArg, IcOpenZipRet, IcQueryDirArg, IcQueryDirRet,
    QueryDirItem, TCommandId, TInvokeCommandRequest, TInvokeCommandResponse, TPackageId,
};
use hol_core::resource::{TBlobResource, TResource};

#[test]
fn request_round_trip() {
    let req = TInvokeCommandRequest {
        pkg_id: Some(TPackageId { identifier: String::from("hol.blob") }),
        command_id: Some(TCommandId { name: String::from("load_blob_data") }),
        arguments: vec![1, 2, 3],
    };
    let bytes = encode_request(&req);
    let back = decode_request(&bytes).unwrap();
    assert_eq!(back.pkg_id.unwrap().identifier, "hol.blob");
    assert_eq!(back.command_id.unwrap().name, "load_blob_data");
    assert_eq!(back.arguments, vec![1, 2, 3]);
}

#[test]
fn request_round_trip_with_absent_fields() {
    let req = TInvokeCommandRequest { pkg_id: None, command_id: None, arguments: Vec::new() };
    let bytes = encode_request(&req);
    let back = decode_request(&bytes).unwrap();
    assert!(back.pkg_id.is_none());
    assert!(back.command_id.is_none());
    assert!(back.arguments.is_empty());
}

#[test]
fn request_round_trip_non_ascii_identifier() {
    let req = TInvokeCommandRequest {
        pkg_id: Some(TPackageId { identifier: String::from("p\u{00e4}ckchen") }),
        command_id: Some(TCommandId { name: String::from("\u{4f60}\u{597d}") }),
        arguments: vec![255, 0, 127],
    };
    let bytes = encode_request(&req);
    let back = decode_request(&bytes).unwrap();
    assert_eq!(back.pkg_id.unwrap().identifier, "p\u{00e4}ckchen");
    assert_eq!(back.command_id.unwrap().name, "\u{4f60}\u{597d}");
    assert_eq!(back.arguments, vec![255, 0, 127]);
}

#[test]
fn response_round_trip() {
    let resp = TInvokeCommandResponse {
        success: false,
        returns: Vec::new(),
        error_message: Some(String::from("Missing required field: cmd_id")),
    };
    let bytes = encode_response(&resp);
    let back = decode_response(&bytes).unwrap();
    assert!(!back.success);
    assert!(back.returns.is_empty());
    assert_eq!(back.error_message.unwrap(), "Missing required field: cmd_id");
}

#[test]
fn response_round_trip_success() {
    let resp = TInvokeCommandResponse {
        success: true,
        returns: vec![42, 0, 42],
        error_message: None,
    };
    let bytes = encode_response(&resp);
    let back = decode_response(&bytes).unwrap();
    assert!(back.success);
    assert_eq!(back.returns, vec![42, 0, 42]);
    assert!(back.error_message.is_none());
}

#[test]
fn decode_rejects_truncated_request() {
    let req = TInvokeCommandRequest {
        pkg_id: Some(TPackageId { identifier: String::from("p") }),
        command_id: None,
        arguments: vec![1],
    };
    let mut bytes = encode_request(&req);
    bytes.pop();
    assert!(decode_request(&bytes).is_none());
}

#[test]
fn decode_rejects_trailing_garbage() {
    let req = TInvokeCommandRequest { pkg_id: None, command_id: None, arguments: Vec::new() };
    let mut bytes = encode_request(&req);
    bytes.push(0);
    assert!(decode_request(&bytes).is_none());
}

#[test]
fn decode_rejects_bad_presence_byte() {
    let req = TInvokeCommandRequest { pkg_id: None, command_id: None, arguments: Vec::new() };
    let mut bytes = encode_request(&req);
    // the first byte is the package id's presence flag
    bytes[0] = 7;
    assert!(decode_request(&bytes).is_none());
}

#[test]
fn decode_rejects_invalid_utf8_identifier() {
    // presence byte 1, length 1, then an invalid UTF-8 byte for pkg_id;
    // absent cmd_id; empty arguments
    let mut bytes = vec![1u8];
    bytes.extend_from_slice(&1u64.to_le_bytes());
    bytes.push(0xFF);
    bytes.push(0);
    bytes.extend_from_slice(&0u64.to_le_bytes());
    assert!(decode_request(&bytes).is_none());
}

#[test]
fn open_zip_arg_round_trip() {
    let arg = IcOpenZipArg { data: vec![80, 75, 3, 4] };
    let back = decode_open_zip_arg(&encode_open_zip_arg(&arg)).unwrap();
    assert_eq!(back.data, vec![80, 75, 3, 4]);
}

#[test]
fn open_zip_ret_round_trip() {
    let ret = IcOpenZipRet { data: Some(TResource { id: 7 }) };
    let back = decode_open_zip_ret(&encode_open_zip_ret(&ret)).unwrap();
    assert_eq!(back.data.unwrap().id, 7);
    let none = IcOpenZipRet { data: None };
    let back = decode_open_zip_ret(&encode_open_zip_ret(&none)).unwrap();
    assert!(back.data.is_none());
}

#[test]
fn query_dir_arg_round_trip() {
    let arg = IcQueryDirArg { archiver: Some(TResource { id: 3 }) };
    let back = decode_query_dir_arg(&encode_query_dir_arg(&arg)).unwrap();
    assert_eq!(back.archiver.unwrap().id, 3);
}

#[test]
fn query_dir_ret_round_trip() {
    let ret = IcQueryDirRet {
        items: vec![
            QueryDirItem { path: String::from("dir/") },
            QueryDirItem { path: String::from("dir/a.txt") },
        ],
    };
    let back = decode_query_dir_ret(&encode_query_dir_ret(&ret)).unwrap();
    assert_eq!(back.items.len(), 2);
    assert_eq!(back.items[0].path, "dir/");
    assert_eq!(back.items[1].path, "dir/a.txt");
}

#[test]
fn query_dir_ret_round_trip_empty() {
    let ret = IcQueryDirRet { items: Vec::new() };
    let back = decode_query_dir_ret(&encode_query_dir_ret(&ret)).unwrap();
    assert!(back.items.is_empty());
}

#[test]
fn load_file_arg_round_trip() {
    let arg = IcLoadFileArg {
        archiver: Some(TResource { id: 11 }),
        path: String::from("nested/name.bin"),
    };
    let back = decode_load_file_arg(&encode_load_file_arg(&arg)).unwrap();
    assert_eq!(back.archiver.unwrap().id, 11);
    assert_eq!(back.path, "nested/name.bin");
}

#[test]
fn load_file_ret_round_trip() {
    let ret = IcLoadFileRet { data: Some(TBlobResource { id: 2 }) };
    let back = decode_load_file_ret(&encode_load_file_ret(&ret)).unwrap();
    assert_eq!(back.data.unwrap().id, 2);
}

#[test]
fn load_blob_arg_round_trip() {
    let arg = IcLoadBlobArg { data: Some(TBlobResource { id: 0 }) };
    let back = decode_load_blob_arg(&encode_load_blob_arg(&arg)).unwrap();
    assert_eq!(back.data.unwrap().id, 0);
}

#[test]
fn load_blob_ret_round_trip() {
    let ret = IcLoadBlobRet { data: vec![0, 255, 128] };
    let back = decode_load_blob_ret(&encode_load_blob_ret(&ret)).unwrap();
    assert_eq!(back.data, vec![0, 255, 128]);
}
