//! The command registry and its dispatch boundary.
//!
//! A handler is registered under a (package, command) key and stored in
//! erased form: the dispatcher decodes the raw argument bytes into the
//! handler's typed argument, runs the handler against the resource table,
//! and encodes the typed result back into bytes. Registration under an
//! existing key silently replaces the earlier handler (last write wins).
//!
//! `invoke` never lets a handler failure escape: every failure is caught
//! and converted into a `success = false` response envelope that carries
//! the error's message.

use vstd::prelude::*;
use crate::archiver::{
    load_file, load_file_post, open_zip, open_zip_post, query_dir, query_dir_post,
};
use crate::blob::{load_blob_data, load_blob_post};
use crate::proto::{
    decode_load_blob_arg, decode_load_file_arg, decode_open_zip_arg, decode_query_dir_arg,
    encode_load_blob_ret, encode_load_file_ret, encode_open_zip_ret, encode_query_dir_ret,
    ReqModel, TCommandId, TInvokeCommandRequest, TInvokeCommandResponse, TPackageId,
};
use crate::resource::{ResourceManager, ResourceValue};

verus! {

/// The two-part key identifying a registered operation.
#[derive(Debug)]
pub struct CommandKey {
    pub pkg_id: TPackageId,
    pub cmd_id: TCommandId,
}

impl View for CommandKey {
    type V = (Seq<char>, Seq<char>);

    open spec fn view(&self) -> (Seq<char>, Seq<char>) {
        (self.pkg_id@, self.cmd_id@)
    }
}

/// Failures raised by the registry itself, before or instead of a handler.
#[derive(Debug)]
pub enum CommandError {
    MissingField { field: String },
    InvalidFieldType { field: String, expected: String },
    InvalidValue { message: String },
    CommandNotFound { cmd_key: CommandKey },
}

impl CommandError {
    pub open spec fn spec_message(self) -> Seq<char> {
        match self {
            CommandError::MissingField { field } => "Missing required field: "@ + field@,
            CommandError::InvalidFieldType { field, expected } => "Invalid field type for "@
                + field@ + ": expected "@ + expected@,
            CommandError::InvalidValue { message } => "Invalid field value: "@ + message@,
            CommandError::CommandNotFound { cmd_key } => "Command not found: "@ + cmd_key.pkg_id@
                + "."@ + cmd_key.cmd_id@,
        }
    }

    /// The human-readable text placed in a failure response.
    pub fn message(&self) -> (r: String)
        ensures
            r@ == self.spec_message(),
    {
        match self {
            CommandError::MissingField { field } => {
                let mut s = String::from_str("Missing required field: ");
                s.append(field.as_str());
                s
            },
            CommandError::InvalidFieldType { field, expected } => {
                let mut s = String::from_str("Invalid field type for ");
                s.append(field.as_str());
                s.append(": expected ");
                s.append(expected.as_str());
                s
            },
            CommandError::InvalidValue { message } => {
                let mut s = String::from_str("Invalid field value: ");
                s.append(message.as_str());
                s
            },
            CommandError::CommandNotFound { cmd_key } => {
                let mut s = String::from_str("Command not found: ");
                s.append(cmd_key.pkg_id.identifier.as_str());
                s.append(".");
                s.append(cmd_key.cmd_id.name.as_str());
                s
            },
        }
    }
}

/// Any failure a dispatched call can end in. `invoke` turns each of these
/// into a structured failure response.
#[derive(Debug)]
pub enum HandlerError {
    /// A registry-level failure: a missing envelope field or an
    /// unregistered key.
    Command(CommandError),
    /// An archive command failed on its handle.
    Archiver(crate::archiver::ArchiverError),
    /// A blob command failed on its handle.
    Blob(crate::blob::BlobCommandError),
    /// The `zip` crate rejected the archive bytes or an entry.
    Zip(zip::result::ZipError),
    /// The raw argument bytes did not decode to the handler's argument
    /// type.
    Decode,
}

impl HandlerError {
    /// The message of every failure except a `zip` one is fixed by the
    /// failure itself; a `zip` failure carries the crate's own text.
    pub open spec fn message_ok(self, m: Seq<char>) -> bool {
        match self {
            HandlerError::Command(e) => m == e.spec_message(),
            HandlerError::Archiver(e) => m == e.spec_message(),
            HandlerError::Blob(e) => m == e.spec_message(),
            HandlerError::Zip(_) => true,
            HandlerError::Decode => m == "Failed to decode command argument"@,
        }
    }

    pub fn message(&self) -> (r: String)
        ensures
            self.message_ok(r@),
    {
        match self {
            HandlerError::Command(e) => e.message(),
            HandlerError::Archiver(e) => e.message(),
            HandlerError::Blob(e) => e.message(),
            HandlerError::Zip(e) => crate::archiver::zip_error_message(e),
            HandlerError::Decode => String::from_str("Failed to decode command argument"),
        }
    }
}

/// A registered unit of typed behavior. The set of handlers is the type
/// discriminant chosen at registration time; dispatch decodes, runs and
/// encodes inside this erasure boundary.
///
/// The set is closed: a new command is added as a variant here together
/// with its dispatch arm in `run_handler`, not by handing in an arbitrary
/// typed closure. Everything this runtime registers is one of the presets.
#[derive(Clone, Copy, Debug, PartialEq, Eq, Structural)]
pub enum CommandHandler {
    OpenZip,
    QueryDir,
    LoadFile,
    LoadBlobData,
}

struct CommandEntry {
    key: CommandKey,
    handler: CommandHandler,
}

/// Maps a (package, command) key to its handler. Later registrations
/// shadow earlier ones.
pub struct CommandManager {
    commands: Vec<CommandEntry>,
}

/// The registry a list of entries denotes: entries later in the list win.
spec fn map_of_entries(entries: Seq<CommandEntry>) -> Map<(Seq<char>, Seq<char>), CommandHandler>
    decreases entries.len(),
{
    if entries.len() == 0 {
        Map::empty()
    } else {
        map_of_entries(entries.drop_last()).insert(entries.last().key@, entries.last().handler)
    }
}

impl CommandManager {
    /// The registered commands.
    pub closed spec fn commands(self) -> Map<(Seq<char>, Seq<char>), CommandHandler> {
        map_of_entries(self.commands@)
    }

    pub fn new() -> (r: Self)
        ensures
            r.commands() == Map::<(Seq<char>, Seq<char>), CommandHandler>::empty(),
    {
        CommandManager { commands: Vec::new() }
    }

    /// Registers `handler` under the key, replacing any earlier
    /// registration under the same key.
    pub fn add(&mut self, pkg_id: &str, cmd_id: &str, handler: CommandHandler)
        ensures
            final(self).commands() == old(self).commands().insert((pkg_id@, cmd_id@), handler),
    {
        let key = CommandKey {
            pkg_id: TPackageId { identifier: String::from_str(pkg_id) },
            cmd_id: TCommandId { name: String::from_str(cmd_id) },
        };
        self.commands.push(CommandEntry { key, handler });
        proof {
            assert(self.commands@.drop_last() =~= old(self).commands@);
        }
    }

    /// Looks the key up; the most recent registration wins.
    pub fn find(&self, pkg_id: &TPackageId, cmd_id: &TCommandId) -> (r: Option<CommandHandler>)
        ensures
            match r {
                Some(h) => self.commands().contains_key((pkg_id@, cmd_id@)) && self.commands()[(pkg_id@, cmd_id@)] == h,
                None => !self.commands().contains_key((pkg_id@, cmd_id@)),
            },
    {
        let ghost key = (pkg_id@, cmd_id@);
        let mut j = self.commands.len();
        proof {
            assert(self.commands@.take(j as int) =~= self.commands@);
        }
        while j > 0
            invariant
                j <= self.commands@.len(),
                key == (pkg_id@, cmd_id@),
                map_of_entries(self.commands@).contains_key(key) == map_of_entries(
                    self.commands@.take(j as int),
                ).contains_key(key),
                map_of_entries(self.commands@).contains_key(key) ==> map_of_entries(
                    self.commands@,
                )[key] == map_of_entries(self.commands@.take(j as int))[key],
            decreases j,
        {
            j = j - 1;
            let entry = &self.commands[j];
            proof {
                assert(self.commands@.take(j + 1).drop_last() =~= self.commands@.take(j as int));
                assert(self.commands@.take(j + 1).last() == self.commands@[j as int]);
                assert(map_of_entries(self.commands@.take(j + 1)) == map_of_entries(
                    self.commands@.take(j as int),
                ).insert(self.commands@[j as int].key@, self.commands@[j as int].handler));
            }
            let pkg_eq = entry.key.pkg_id.identifier == pkg_id.identifier;
            let cmd_eq = entry.key.cmd_id.name == cmd_id.name;
            if pkg_eq && cmd_eq {
                proof {
                    assert(entry.key@ == key);
                }
                return Some(entry.handler);
            }
            proof {
                assert(entry.key@ != key);
            }
        }
        proof {
            assert(self.commands@.take(0) =~= Seq::<CommandEntry>::empty());
        }
        None
    }
}

/// What dispatching one handler does, stated over the resource table
/// before and after, the raw argument bytes, and the raw outcome.
pub open spec fn dispatch_post(
    h: CommandHandler,
    t0: Map<u64, ResourceValue>,
    n0: u64,
    t1: Map<u64, ResourceValue>,
    n1: u64,
    arg: Seq<u8>,
    r: Result<Seq<u8>, HandlerError>,
) -> bool {
    match h {
        CommandHandler::OpenZip => open_zip_post(t0, n0, t1, n1, arg, r),
        CommandHandler::QueryDir => query_dir_post(t0, n0, t1, n1, arg, r),
        CommandHandler::LoadFile => load_file_post(t0, n0, t1, n1, arg, r),
        CommandHandler::LoadBlobData => load_blob_post(t0, n0, t1, n1, arg, r),
    }
}

/// The erasure boundary: decodes the raw argument into the handler's typed
/// argument, runs the handler against the resource table, and encodes the
/// typed result.
pub fn run_handler(h: CommandHandler, res: &mut ResourceManager, arg: &Vec<u8>) -> (r: Result<
    Vec<u8>,
    HandlerError,
>)
    requires
        old(res).wf(),
        old(res).next_id() < u64::MAX,
    ensures
        final(res).wf(),
        match r {
            Ok(out) => dispatch_post(
                h,
                old(res).table(),
                old(res).next_id(),
                final(res).table(),
                final(res).next_id(),
                arg@,
                Ok(out@),
            ),
            Err(e) => dispatch_post(
                h,
                old(res).table(),
                old(res).next_id(),
                final(res).table(),
                final(res).next_id(),
                arg@,
                Err(e),
            ),
        },
{
    match h {
        CommandHandler::OpenZip => match decode_open_zip_arg(arg) {
            Some(a) => match open_zip(res, a) {
                Ok(ret) => Ok(encode_open_zip_ret(&ret)),
                Err(e) => Err(e),
            },
            None => Err(HandlerError::Decode),
        },
        CommandHandler::QueryDir => match decode_query_dir_arg(arg) {
            Some(a) => match query_dir(res, a) {
                Ok(ret) => Ok(encode_query_dir_ret(&ret)),
                Err(e) => Err(e),
            },
            None => Err(HandlerError::Decode),
        },
        CommandHandler::LoadFile => match decode_load_file_arg(arg) {
            Some(a) => match load_file(res, a) {
                Ok(ret) => Ok(encode_load_file_ret(&ret)),
                Err(e) => Err(e),
            },
            None => Err(HandlerError::Decode),
        },
        CommandHandler::LoadBlobData => match decode_load_blob_arg(arg) {
            Some(a) => match load_blob_data(res, a) {
                Ok(ret) => Ok(encode_load_blob_ret(&ret)),
                Err(e) => Err(e),
            },
            None => Err(HandlerError::Decode),
        },
    }
}

/// What a whole invocation does with the raw outcome: a missing package or
/// command identifier fails before any lookup, an unregistered key fails
/// with `CommandNotFound`, and a registered key dispatches its handler.
pub open spec fn invoke_impl_post(
    cmds: Map<(Seq<char>, Seq<char>), CommandHandler>,
    t0: Map<u64, ResourceValue>,
    n0: u64,
    t1: Map<u64, ResourceValue>,
    n1: u64,
    req: ReqModel,
    r: Result<Seq<u8>, HandlerError>,
) -> bool {
    match req.pkg_id {
        None => {
            &&& r matches Err(HandlerError::Command(CommandError::MissingField { field }))
                && field@ == "pkg_id"@
            &&& t1 == t0
            &&& n1 == n0
        },
        Some(pkg) => match req.cmd_id {
            None => {
                &&& r matches Err(HandlerError::Command(CommandError::MissingField { field }))
                    && field@ == "cmd_id"@
                &&& t1 == t0
                &&& n1 == n0
            },
            Some(cmd) => if cmds.contains_key((pkg, cmd)) {
                dispatch_post(cmds[(pkg, cmd)], t0, n0, t1, n1, req.arguments, r)
            } else {
                &&& r matches Err(
                    HandlerError::Command(CommandError::CommandNotFound { cmd_key }),
                ) && cmd_key@ == (pkg, cmd)
                &&& t1 == t0
                &&& n1 == n0
            },
        },
    }
}

/// A raw outcome wrapped in the response envelope: result bytes and no
/// message on success; empty bytes and the failure's message otherwise.
pub open spec fn envelope_ok(
    r: Result<Seq<u8>, HandlerError>,
    resp: crate::proto::RespModel,
) -> bool {
    match r {
        Ok(out) => resp.success && resp.returns == out && resp.error_message is None,
        Err(e) => !resp.success && resp.returns.len() == 0 && (resp.error_message matches Some(m)
            && e.message_ok(m)),
    }
}

/// What `invoke` promises: the response envelope wraps an outcome that
/// `invoke_impl_post` allows. No failure escapes as a fault.
pub open spec fn invoke_post(
    cmds: Map<(Seq<char>, Seq<char>), CommandHandler>,
    t0: Map<u64, ResourceValue>,
    n0: u64,
    t1: Map<u64, ResourceValue>,
    n1: u64,
    req: ReqModel,
    resp: crate::proto::RespModel,
) -> bool {
    exists|r: Result<Seq<u8>, HandlerError>|
        #[trigger] invoke_impl_post(cmds, t0, n0, t1, n1, req, r) && envelope_ok(r, resp)
}

/// A request that omits its command identifier fails with the missing-
/// field message, whatever is registered and whatever the table holds: the
/// failure comes before any handler lookup, so the table is untouched.
pub proof fn lemma_invoke_missing_command_id(
    cmds: Map<(Seq<char>, Seq<char>), CommandHandler>,
    t0: Map<u64, ResourceValue>,
    n0: u64,
    t1: Map<u64, ResourceValue>,
    n1: u64,
    req: ReqModel,
    resp: crate::proto::RespModel,
)
    requires
        req.pkg_id is Some,
        req.cmd_id is None,
        invoke_post(cmds, t0, n0, t1, n1, req, resp),
    ensures
        !resp.success,
        resp.returns.len() == 0,
        resp.error_message matches Some(m) && m == "Missing required field: "@ + "cmd_id"@,
        t1 == t0,
        n1 == n0,
{
    let r = choose|r: Result<Seq<u8>, HandlerError>|
        invoke_impl_post(cmds, t0, n0, t1, n1, req, r) && envelope_ok(r, resp);
}

/// A request naming an unregistered (package, command) pair always fails
/// with the command-not-found message for that pair, and the table is
/// untouched.
pub proof fn lemma_invoke_unregistered(
    cmds: Map<(Seq<char>, Seq<char>), CommandHandler>,
    t0: Map<u64, ResourceValue>,
    n0: u64,
    t1: Map<u64, ResourceValue>,
    n1: u64,
    req: ReqModel,
    resp: crate::proto::RespModel,
)
    requires
        req.pkg_id is Some,
        req.cmd_id is Some,
        !cmds.contains_key((req.pkg_id->Some_0, req.cmd_id->Some_0)),
        invoke_post(cmds, t0, n0, t1, n1, req, resp),
    ensures
        !resp.success,
        resp.returns.len() == 0,
        resp.error_message matches Some(m) && m == "Command not found: "@ + req.pkg_id->Some_0
            + "."@ + req.cmd_id->Some_0,
        t1 == t0,
        n1 == n0,
{
    let r = choose|r: Result<Seq<u8>, HandlerError>|
        invoke_impl_post(cmds, t0, n0, t1, n1, req, r) && envelope_ok(r, resp);
}

/// A registered `load_blob_data` command invoked with a well-formed
/// argument naming a stored blob succeeds, its result bytes decode to
/// exactly the stored bytes, and the table is untouched.
pub proof fn lemma_invoke_registered_load_blob(
    cmds: Map<(Seq<char>, Seq<char>), CommandHandler>,
    t0: Map<u64, ResourceValue>,
    n0: u64,
    t1: Map<u64, ResourceValue>,
    n1: u64,
    req: ReqModel,
    resp: crate::proto::RespModel,
    id: u64,
)
    requires
        req.pkg_id is Some,
        req.cmd_id is Some,
        cmds.contains_key((req.pkg_id->Some_0, req.cmd_id->Some_0)),
        cmds[(req.pkg_id->Some_0, req.cmd_id->Some_0)] == CommandHandler::LoadBlobData,
        req.arguments == crate::proto::enc_opt_handle_msg(Some(id)),
        t0.contains_key(id),
        t0[id] is Blob,
        invoke_post(cmds, t0, n0, t1, n1, req, resp),
    ensures
        resp.success,
        resp.error_message is None,
        crate::proto::spec_decode_bytes_msg(resp.returns) == Some(t0[id]->Blob_0@),
        t1 == t0,
        n1 == n0,
{
    let r = choose|r: Result<Seq<u8>, HandlerError>|
        invoke_impl_post(cmds, t0, n0, t1, n1, req, r) && envelope_ok(r, resp);
    crate::proto::lemma_opt_handle_msg_round_trip(Some(id));
    let blob = t0[id]->Blob_0;
    vstd::std_specs::vec::axiom_spec_len(&blob);
    crate::proto::lemma_bytes_msg_round_trip(blob@);
}

/// A registered `query_dir` command invoked with a well-formed argument
/// naming a stored archive succeeds, its result bytes decode to the
/// archive's entry paths in order, and the table is untouched.
pub proof fn lemma_invoke_registered_query_dir(
    cmds: Map<(Seq<char>, Seq<char>), CommandHandler>,
    t0: Map<u64, ResourceValue>,
    n0: u64,
    t1: Map<u64, ResourceValue>,
    n1: u64,
    req: ReqModel,
    resp: crate::proto::RespModel,
    id: u64,
)
    requires
        req.pkg_id is Some,
        req.cmd_id is Some,
        cmds.contains_key((req.pkg_id->Some_0, req.cmd_id->Some_0)),
        cmds[(req.pkg_id->Some_0, req.cmd_id->Some_0)] == CommandHandler::QueryDir,
        req.arguments == crate::proto::enc_opt_handle_msg(Some(id)),
        t0.contains_key(id),
        t0[id] is Archive,
        invoke_post(cmds, t0, n0, t1, n1, req, resp),
    ensures
        resp.success,
        resp.error_message is None,
        resp.returns == crate::proto::enc_query_dir_ret(
            crate::archiver::zip_entry_names(t0[id]->Archive_0),
        ),
        t1 == t0,
        n1 == n0,
{
    let r = choose|r: Result<Seq<u8>, HandlerError>|
        invoke_impl_post(cmds, t0, n0, t1, n1, req, r) && envelope_ok(r, resp);
    crate::proto::lemma_opt_handle_msg_round_trip(Some(id));
}

/// A registered `open_zip` command invoked with a well-formed argument
/// carrying bytes the `zip` crate accepts succeeds: the parsed archive is
/// stored under a fresh handle and that handle comes back encoded.
pub proof fn lemma_invoke_registered_open_zip(
    cmds: Map<(Seq<char>, Seq<char>), CommandHandler>,
    t0: Map<u64, ResourceValue>,
    n0: u64,
    t1: Map<u64, ResourceValue>,
    n1: u64,
    req: ReqModel,
    resp: crate::proto::RespModel,
    data: Seq<u8>,
)
    requires
        req.pkg_id is Some,
        req.cmd_id is Some,
        cmds.contains_key((req.pkg_id->Some_0, req.cmd_id->Some_0)),
        cmds[(req.pkg_id->Some_0, req.cmd_id->Some_0)] == CommandHandler::OpenZip,
        req.arguments == crate::proto::enc_bytes_msg(data),
        data.len() <= u64::MAX,
        crate::archiver::zip_parses(data),
        invoke_post(cmds, t0, n0, t1, n1, req, resp),
    ensures
        resp.success,
        resp.error_message is None,
        resp.returns == crate::proto::enc_opt_handle_msg(Some(n0)),
        t1[n0] matches ResourceValue::Archive(a) && crate::archiver::zip_wf(a),
        t1 == t0.insert(n0, t1[n0]),
        n1 == n0 + 1,
{
    let r = choose|r: Result<Seq<u8>, HandlerError>|
        invoke_impl_post(cmds, t0, n0, t1, n1, req, r) && envelope_ok(r, resp);
    crate::proto::lemma_bytes_msg_round_trip(data);
}

/// A registered `load_file` command invoked with a well-formed argument
/// naming a stored archive and a readable entry succeeds: the entry's
/// exact bytes are stored under a fresh blob handle that comes back
/// encoded.
pub proof fn lemma_invoke_registered_load_file(
    cmds: Map<(Seq<char>, Seq<char>), CommandHandler>,
    t0: Map<u64, ResourceValue>,
    n0: u64,
    t1: Map<u64, ResourceValue>,
    n1: u64,
    req: ReqModel,
    resp: crate::proto::RespModel,
    id: u64,
    path: Seq<char>,
)
    requires
        req.pkg_id is Some,
        req.cmd_id is Some,
        cmds.contains_key((req.pkg_id->Some_0, req.cmd_id->Some_0)),
        cmds[(req.pkg_id->Some_0, req.cmd_id->Some_0)] == CommandHandler::LoadFile,
        req.arguments == crate::proto::enc_load_file_arg(
            crate::proto::LoadFileArgModel { archiver: Some(id), path },
        ),
        crate::proto::str_fits(path),
        t0.contains_key(id),
        t0[id] is Archive,
        crate::archiver::zip_entry_data(t0[id]->Archive_0).dom().contains(
            vstd::utf8::encode_utf8(path),
        ),
        crate::archiver::zip_entry_readable(t0[id]->Archive_0, vstd::utf8::encode_utf8(path)),
        invoke_post(cmds, t0, n0, t1, n1, req, resp),
    ensures
        resp.success,
        resp.error_message is None,
        resp.returns == crate::proto::enc_opt_handle_msg(Some(n0)),
        t1[n0] matches ResourceValue::Blob(b) && b@ == crate::archiver::zip_entry_data(
            t0[id]->Archive_0,
        )[vstd::utf8::encode_utf8(path)],
        n1 == n0 + 1,
{
    let r = choose|r: Result<Seq<u8>, HandlerError>|
        invoke_impl_post(cmds, t0, n0, t1, n1, req, r) && envelope_ok(r, resp);
    crate::proto::lemma_load_file_arg_round_trip(
        crate::proto::LoadFileArgModel { archiver: Some(id), path },
    );
}

impl CommandManager {
    /// Resolves and runs the requested command, or fails before dispatch
    /// on a malformed envelope or an unregistered key.
    pub fn invoke_impl(&self, res: &mut ResourceManager, request: TInvokeCommandRequest) -> (r:
        Result<Vec<u8>, HandlerError>)
        requires
            old(res).wf(),
            old(res).next_id() < u64::MAX,
        ensures
            final(res).wf(),
            match r {
                Ok(out) => invoke_impl_post(
                    self.commands(),
                    old(res).table(),
                    old(res).next_id(),
                    final(res).table(),
                    final(res).next_id(),
                    request@,
                    Ok(out@),
                ),
                Err(e) => invoke_impl_post(
                    self.commands(),
                    old(res).table(),
                    old(res).next_id(),
                    final(res).table(),
                    final(res).next_id(),
                    request@,
                    Err(e),
                ),
            },
    {
        let pkg_id = match request.pkg_id {
            Some(p) => p,
            None => {
                return Err(
                    HandlerError::Command(
                        CommandError::MissingField { field: String::from_str("pkg_id") },
                    ),
                );
            },
        };
        let cmd_id = match request.command_id {
            Some(c) => c,
            None => {
                return Err(
                    HandlerError::Command(
                        CommandError::MissingField { field: String::from_str("cmd_id") },
                    ),
                );
            },
        };
        match self.find(&pkg_id, &cmd_id) {
            Some(handler) => run_handler(handler, res, &request.arguments),
            None => Err(
                HandlerError::Command(
                    CommandError::CommandNotFound { cmd_key: CommandKey { pkg_id, cmd_id } },
                ),
            ),
        }
    }

    /// Runs the request and converts the outcome into the response
    /// envelope; every failure becomes a structured `success = false`
    /// response, never a fault.
    pub fn invoke(&self, res: &mut ResourceManager, request: TInvokeCommandRequest) -> (resp:
        TInvokeCommandResponse)
        requires
            old(res).wf(),
            old(res).next_id() < u64::MAX,
        ensures
            final(res).wf(),
            invoke_post(
                self.commands(),
                old(res).table(),
                old(res).next_id(),
                final(res).table(),
                final(res).next_id(),
                request@,
                resp@,
            ),
    {
        let ghost req = request@;
        let result = self.invoke_impl(res, request);
        match result {
            Ok(result_data) => {
                let resp = TInvokeCommandResponse {
                    success: true,
                    returns: result_data,
                    error_message: None,
                };
                proof {
                    let ghost rm = Result::<Seq<u8>, HandlerError>::Ok(resp.returns@);
                    assert(invoke_impl_post(
                        self.commands(),
                        old(res).table(),
                        old(res).next_id(),
                        res.table(),
                        res.next_id(),
                        req,
                        rm,
                    ) && envelope_ok(rm, resp@));
                }
                resp
            },
            Err(e) => {
                let msg = e.message();
                let ghost em = e;
                let resp = TInvokeCommandResponse {
                    success: false,
                    returns: Vec::new(),
                    error_message: Some(msg),
                };
                proof {
                    let ghost rm = Result::<Seq<u8>, HandlerError>::Err(em);
                    assert(invoke_impl_post(
                        self.commands(),
                        old(res).table(),
                        old(res).next_id(),
                        res.table(),
                        res.next_id(),
                        req,
                        rm,
                    ) && envelope_ok(rm, resp@));
                }
                resp
            },
        }
    }
}

} // verus!
