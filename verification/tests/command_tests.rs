use hol_core::command::{CommandError, CommandHandler, CommandKey, CommandManager};
use hol_core::proto::{
    decode_load_blob_ret, encode_load_blob_arg, encode_query_dir_arg, IcLoadBlobArg,
    IcQueryDirArg, TCommandId, TInvokeCommandRequest, TPackageId,
};
use hol_core::resource::{ResourceManager, TBlobResource, TResource};
use hol_core::setup::create_app;

fn request(pkg: &str, cmd: &str, arguments: Vec<u8>) -> TInvokeCommandRequest {
    TInvokeCommandRequest {
        pkg_id: Some(TPackageId { identifier: String::from(pkg) }),
        command_id: Some(TCommandId { name: String::from(cmd) }),
        arguments,
    }
}

#[test]
fn invoke_without_pkg_id_fails_with_missing_field() {
    let mgr = CommandManager::new();
    let mut table = ResourceManager::new();
    let req = TInvokeCommandRequest {
        pkg_id: None,
        command_id: Some(TCommandId { name: String::from("anything") }),
        arguments: Vec::new(),
    };
    let resp = mgr.invoke(&mut table, req);
    assert!(!resp.success);
    assert!(resp.returns.is_empty());
    assert_eq!(resp.error_message.unwrap(), "Missing required field: pkg_id");
}

#[test]
fn invoke_without_cmd_id_fails_with_missing_field() {
    // even with every preset registered and a dirty argument, the failure
    // comes before any lookup
    let mut app_mgr = CommandManager::new();
    hol_core::archiver::setup_command(&mut app_mgr);
    hol_core::blob::setup_command(&mut app_mgr);
    let mut table = ResourceManager::new();
    let req = TInvokeCommandRequest {
        pkg_id: Some(TPackageId { identifier: String::from("hol.blob") }),
        command_id: None,
        arguments: vec![1, 2, 3],
    };
    let resp = app_mgr.invoke(&mut table, req);
    assert!(!resp.success);
    assert!(resp.returns.is_empty());
    assert_eq!(resp.error_message.unwrap(), "Missing required field: cmd_id");
}

#[test]
fn invoke_unregistered_pair_fails_with_command_not_found() {
    let mut mgr = CommandManager::new();
    hol_core::blob::setup_command(&mut mgr);
    let mut table = ResourceManager::new();
    let resp = mgr.invoke(&mut table, request("no.such", "command", Vec::new()));
    assert!(!resp.success);
    assert!(resp.returns.is_empty());
    assert_eq!(resp.error_message.unwrap(), "Command not found: no.such.command");
}

#[test]
fn registration_is_last_write_wins() {
    let mut mgr = CommandManager::new();
    mgr.add("p", "c", CommandHandler::OpenZip);
    mgr.add("p", "c", CommandHandler::LoadBlobData);
    let mut table = ResourceManager::new();
    let blob = table.allocate_blob(vec![6, 6, 6]);
    let arg = encode_load_blob_arg(&IcLoadBlobArg { data: Some(blob) });
    // the key now dispatches the blob handler, not the first registration
    let resp = mgr.invoke(&mut table, request("p", "c", arg));
    assert!(resp.success, "{:?}", resp.error_message);
    let ret = decode_load_blob_ret(&resp.returns).unwrap();
    assert_eq!(ret.data, vec![6, 6, 6]);
}

#[test]
fn load_blob_returns_stored_bytes() {
    let mut mgr = CommandManager::new();
    hol_core::blob::setup_command(&mut mgr);
    let mut table = ResourceManager::new();
    let blob = table.allocate_blob(vec![10, 20, 30]);
    let arg = encode_load_blob_arg(&IcLoadBlobArg { data: Some(blob) });
    let resp = mgr.invoke(&mut table, request("hol.blob", "load_blob_data", arg));
    assert!(resp.success);
    assert!(resp.error_message.is_none());
    let ret = decode_load_blob_ret(&resp.returns).unwrap();
    assert_eq!(ret.data, vec![10, 20, 30]);
    // the blob is still there afterwards
    assert_eq!(table.get_blob(&blob), Some(&vec![10u8, 20, 30]));
}

#[test]
fn load_blob_without_handle_fails() {
    let mut mgr = CommandManager::new();
    hol_core::blob::setup_command(&mut mgr);
    let mut table = ResourceManager::new();
    let arg = encode_load_blob_arg(&IcLoadBlobArg { data: None });
    let resp = mgr.invoke(&mut table, request("hol.blob", "load_blob_data", arg));
    assert!(!resp.success);
    assert_eq!(resp.error_message.unwrap(), "Missing blob resource handle");
}

#[test]
fn load_blob_with_absent_handle_fails() {
    let mut mgr = CommandManager::new();
    hol_core::blob::setup_command(&mut mgr);
    let mut table = ResourceManager::new();
    let arg = encode_load_blob_arg(&IcLoadBlobArg { data: Some(TBlobResource { id: 99 }) });
    let resp = mgr.invoke(&mut table, request("hol.blob", "load_blob_data", arg));
    assert!(!resp.success);
    assert_eq!(resp.error_message.unwrap(), "Missing blob resource");
}

#[test]
fn malformed_argument_fails_with_decode_error() {
    let mut mgr = CommandManager::new();
    hol_core::blob::setup_command(&mut mgr);
    let mut table = ResourceManager::new();
    let resp = mgr.invoke(&mut table, request("hol.blob", "load_blob_data", vec![9, 9]));
    assert!(!resp.success);
    assert_eq!(resp.error_message.unwrap(), "Failed to decode command argument");
}

#[test]
fn query_dir_without_handle_fails() {
    let mut mgr = CommandManager::new();
    hol_core::archiver::setup_command(&mut mgr);
    let mut table = ResourceManager::new();
    let arg = encode_query_dir_arg(&IcQueryDirArg { archiver: None });
    let resp = mgr.invoke(&mut table, request("hol.archiver", "query_dir", arg));
    assert!(!resp.success);
    assert_eq!(resp.error_message.unwrap(), "Missing archiver resource handle");
}

#[test]
fn query_dir_with_wrong_kind_fails() {
    let mut mgr = CommandManager::new();
    hol_core::archiver::setup_command(&mut mgr);
    let mut table = ResourceManager::new();
    // the handle names a blob, not an archive
    let blob = table.allocate_blob(vec![1]);
    let arg = encode_query_dir_arg(&IcQueryDirArg { archiver: Some(TResource { id: blob.id }) });
    let resp = mgr.invoke(&mut table, request("hol.archiver", "query_dir", arg));
    assert!(!resp.success);
    assert_eq!(resp.error_message.unwrap(), "Missing archiver resource");
}

#[test]
fn command_error_messages_are_exact() {
    let e = CommandError::MissingField { field: String::from("pkg_id") };
    assert_eq!(e.message(), "Missing required field: pkg_id");
    let e = CommandError::InvalidFieldType {
        field: String::from("arguments"),
        expected: String::from("bytes"),
    };
    assert_eq!(e.message(), "Invalid field type for arguments: expected bytes");
    let e = CommandError::InvalidValue { message: String::from("negative length") };
    assert_eq!(e.message(), "Invalid field value: negative length");
    let e = CommandError::CommandNotFound {
        cmd_key: CommandKey {
            pkg_id: TPackageId { identifier: String::from("a") },
            cmd_id: TCommandId { name: String::from("b") },
        },
    };
    assert_eq!(e.message(), "Command not found: a.b");
}

#[test]
fn app_invoke_command_rejects_malformed_envelope() {
    let mut app = create_app();
    assert!(app.invoke_command(&vec![1, 2, 3]).is_err());
}
