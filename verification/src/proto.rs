//! The boundary messages and their canonical binary encoding.
//!
//! A request envelope carries an optional package identifier, an optional
//! command identifier and a raw argument byte string; a response envelope
//! carries a success flag, a result byte string (empty on failure) and an
//! optional error message (present exactly when the call failed). The
//! remaining messages are the typed arguments and results of the preset
//! command sets.
//!
//! Every message is encoded as its fields in declaration order, using the
//! primitives of [`crate::codec`]; an optional field is a presence byte
//! followed by the value. Decoding the encoding of a message yields the
//! message back (see the `lemma_*_round_trip` lemmas).

use vstd::prelude::*;
use vstd::utf8::encode_utf8;
use crate::codec::{
    dec_bool, dec_bytes, dec_str, dec_u64, enc_bool, enc_bytes, enc_str, enc_u64,
    lemma_dec_enc_bool, lemma_dec_enc_bytes, lemma_dec_enc_str, lemma_dec_enc_u64, read_bool,
    read_bytes, read_str, read_u64, write_bool, write_bytes, write_str, write_u64,
};
use crate::resource::{TBlobResource, TResource};

verus! {

// ---------------------------------------------------------------------------
// Message types.
// ---------------------------------------------------------------------------
/// The package half of a command key.
#[derive(Debug, Clone)]
pub struct TPackageId {
    pub identifier: String,
}

/// The command half of a command key.
#[derive(Debug, Clone)]
pub struct TCommandId {
    pub name: String,
}

/// The request envelope exchanged with the host.
#[derive(Debug)]
pub struct TInvokeCommandRequest {
    pub pkg_id: Option<TPackageId>,
    pub command_id: Option<TCommandId>,
    pub arguments: Vec<u8>,
}

/// The response envelope exchanged with the host.
#[derive(Debug)]
pub struct TInvokeCommandResponse {
    pub success: bool,
    pub returns: Vec<u8>,
    pub error_message: Option<String>,
}

/// Argument of the archive `open_zip` command: the raw archive bytes.
#[derive(Debug)]
pub struct IcOpenZipArg {
    pub data: Vec<u8>,
}

/// Result of `open_zip`: the handle of the stored archive.
#[derive(Debug)]
pub struct IcOpenZipRet {
    pub data: Option<TResource>,
}

/// Argument of the archive `query_dir` command.
#[derive(Debug)]
pub struct IcQueryDirArg {
    pub archiver: Option<TResource>,
}

/// One listed entry path.
#[derive(Debug, Clone)]
pub struct QueryDirItem {
    pub path: String,
}

/// Result of `query_dir`: the entry paths, in archive order.
#[derive(Debug)]
pub struct IcQueryDirRet {
    pub items: Vec<QueryDirItem>,
}

/// Argument of the archive `load_file` command.
#[derive(Debug)]
pub struct IcLoadFileArg {
    pub archiver: Option<TResource>,
    pub path: String,
}

/// Result of `load_file`: the blob handle of the loaded bytes.
#[derive(Debug)]
pub struct IcLoadFileRet {
    pub data: Option<TBlobResource>,
}

/// Argument of the blob `load_blob_data` command.
#[derive(Debug)]
pub struct IcLoadBlobArg {
    pub data: Option<TBlobResource>,
}

/// Result of `load_blob_data`: a copy of the blob's bytes.
#[derive(Debug)]
pub struct IcLoadBlobRet {
    pub data: Vec<u8>,
}

// ---------------------------------------------------------------------------
// Mathematical models of the messages.
// ---------------------------------------------------------------------------
pub struct ReqModel {
    pub pkg_id: Option<Seq<char>>,
    pub cmd_id: Option<Seq<char>>,
    pub arguments: Seq<u8>,
}

pub struct RespModel {
    pub success: bool,
    pub returns: Seq<u8>,
    pub error_message: Option<Seq<char>>,
}

impl View for TPackageId {
    type V = Seq<char>;

    open spec fn view(&self) -> Seq<char> {
        self.identifier@
    }
}

impl View for TCommandId {
    type V = Seq<char>;

    open spec fn view(&self) -> Seq<char> {
        self.name@
    }
}

impl View for TInvokeCommandRequest {
    type V = ReqModel;

    open spec fn view(&self) -> ReqModel {
        ReqModel {
            pkg_id: match self.pkg_id {
                Some(p) => Some(p@),
                None => None,
            },
            cmd_id: match self.command_id {
                Some(c) => Some(c@),
                None => None,
            },
            arguments: self.arguments@,
        }
    }
}

impl View for TInvokeCommandResponse {
    type V = RespModel;

    open spec fn view(&self) -> RespModel {
        RespModel {
            success: self.success,
            returns: self.returns@,
            error_message: match self.error_message {
                Some(m) => Some(m@),
                None => None,
            },
        }
    }
}

impl View for IcOpenZipArg {
    type V = Seq<u8>;

    open spec fn view(&self) -> Seq<u8> {
        self.data@
    }
}

impl View for IcOpenZipRet {
    type V = Option<u64>;

    open spec fn view(&self) -> Option<u64> {
        match self.data {
            Some(h) => Some(h.id),
            None => None,
        }
    }
}

impl View for IcQueryDirArg {
    type V = Option<u64>;

    open spec fn view(&self) -> Option<u64> {
        match self.archiver {
            Some(h) => Some(h.id),
            None => None,
        }
    }
}

impl View for QueryDirItem {
    type V = Seq<char>;

    open spec fn view(&self) -> Seq<char> {
        self.path@
    }
}

/// The sequence of entry paths a list of items denotes.
pub open spec fn paths_view(items: Seq<QueryDirItem>) -> Seq<Seq<char>> {
    items.map_values(|it: QueryDirItem| it@)
}

impl View for IcQueryDirRet {
    type V = Seq<Seq<char>>;

    open spec fn view(&self) -> Seq<Seq<char>> {
        paths_view(self.items@)
    }
}

pub struct LoadFileArgModel {
    pub archiver: Option<u64>,
    pub path: Seq<char>,
}

impl View for IcLoadFileArg {
    type V = LoadFileArgModel;

    open spec fn view(&self) -> LoadFileArgModel {
        LoadFileArgModel {
            archiver: match self.archiver {
                Some(h) => Some(h.id),
                None => None,
            },
            path: self.path@,
        }
    }
}

impl View for IcLoadFileRet {
    type V = Option<u64>;

    open spec fn view(&self) -> Option<u64> {
        match self.data {
            Some(h) => Some(h.id),
            None => None,
        }
    }
}

impl View for IcLoadBlobArg {
    type V = Option<u64>;

    open spec fn view(&self) -> Option<u64> {
        match self.data {
            Some(h) => Some(h.id),
            None => None,
        }
    }
}

impl View for IcLoadBlobRet {
    type V = Seq<u8>;

    open spec fn view(&self) -> Seq<u8> {
        self.data@
    }
}

// ---------------------------------------------------------------------------
// Optional fields.
// ---------------------------------------------------------------------------
pub open spec fn enc_opt_str(o: Option<Seq<char>>) -> Seq<u8> {
    match o {
        Some(t) => enc_bool(true) + enc_str(t),
        None => enc_bool(false),
    }
}

pub open spec fn dec_opt_str(s: Seq<u8>) -> Option<(Option<Seq<char>>, Seq<u8>)> {
    match dec_bool(s) {
        Some((present, rest)) => if present {
            match dec_str(rest) {
                Some((t, rest2)) => Some((Some(t), rest2)),
                None => None,
            }
        } else {
            Some((None, rest))
        },
        None => None,
    }
}

pub open spec fn enc_opt_u64(o: Option<u64>) -> Seq<u8> {
    match o {
        Some(x) => enc_bool(true) + enc_u64(x),
        None => enc_bool(false),
    }
}

pub open spec fn dec_opt_u64(s: Seq<u8>) -> Option<(Option<u64>, Seq<u8>)> {
    match dec_bool(s) {
        Some((present, rest)) => if present {
            match dec_u64(rest) {
                Some((x, rest2)) => Some((Some(x), rest2)),
                None => None,
            }
        } else {
            Some((None, rest))
        },
        None => None,
    }
}

/// A string fits the encoding's length field. Every `String` held in
/// memory does, since its byte length is a `usize`.
pub open spec fn str_fits(t: Seq<char>) -> bool {
    encode_utf8(t).len() <= u64::MAX
}

pub proof fn lemma_dec_enc_opt_str(o: Option<Seq<char>>, rest: Seq<u8>)
    requires
        o matches Some(t) ==> str_fits(t),
    ensures
        dec_opt_str(enc_opt_str(o) + rest) == Some((o, rest)),
{
    match o {
        Some(t) => {
            assert(enc_opt_str(o) + rest =~= enc_bool(true) + (enc_str(t) + rest));
            lemma_dec_enc_bool(true, enc_str(t) + rest);
            lemma_dec_enc_str(t, rest);
        },
        None => {
            lemma_dec_enc_bool(false, rest);
        },
    }
}

pub proof fn lemma_dec_enc_opt_u64(o: Option<u64>, rest: Seq<u8>)
    ensures
        dec_opt_u64(enc_opt_u64(o) + rest) == Some((o, rest)),
{
    match o {
        Some(x) => {
            assert(enc_opt_u64(o) + rest =~= enc_bool(true) + (enc_u64(x) + rest));
            lemma_dec_enc_bool(true, enc_u64(x) + rest);
            lemma_dec_enc_u64(x, rest);
        },
        None => {
            lemma_dec_enc_bool(false, rest);
        },
    }
}

pub fn write_opt_str(out: &mut Vec<u8>, o: &Option<String>)
    ensures
        final(out)@ == old(out)@ + enc_opt_str(
            match o {
                Some(t) => Some(t@),
                None => None,
            },
        ),
{
    match o {
        Some(t) => {
            write_bool(out, true);
            write_str(out, t.as_str());
        },
        None => {
            write_bool(out, false);
        },
    }
}

pub fn write_opt_u64(out: &mut Vec<u8>, o: &Option<u64>)
    ensures
        final(out)@ == old(out)@ + enc_opt_u64(*o),
{
    match o {
        Some(x) => {
            write_bool(out, true);
            write_u64(out, *x);
        },
        None => {
            write_bool(out, false);
        },
    }
}

pub fn read_opt_str(s: &Vec<u8>, pos: usize) -> (r: Option<(Option<String>, usize)>)
    requires
        pos <= s@.len(),
    ensures
        r matches Some((o, p)) ==> pos <= p <= s@.len() && dec_opt_str(s@.skip(pos as int))
            == Some(
            (
                match o {
                    Some(t) => Some(t@),
                    None => None,
                },
                s@.skip(p as int),
            ),
        ),
        r is None ==> dec_opt_str(s@.skip(pos as int)) is None,
{
    match read_bool(s, pos) {
        Some((present, p)) => {
            if present {
                match read_str(s, p) {
                    Some((t, p2)) => Some((Some(t), p2)),
                    None => None,
                }
            } else {
                Some((None, p))
            }
        },
        None => None,
    }
}

pub fn read_opt_u64(s: &Vec<u8>, pos: usize) -> (r: Option<(Option<u64>, usize)>)
    requires
        pos <= s@.len(),
    ensures
        r matches Some((o, p)) ==> pos <= p <= s@.len() && dec_opt_u64(s@.skip(pos as int))
            == Some((o, s@.skip(p as int))),
        r is None ==> dec_opt_u64(s@.skip(pos as int)) is None,
{
    match read_bool(s, pos) {
        Some((present, p)) => {
            if present {
                match read_u64(s, p) {
                    Some((x, p2)) => Some((Some(x), p2)),
                    None => None,
                }
            } else {
                Some((None, p))
            }
        },
        None => None,
    }
}

// ---------------------------------------------------------------------------
// The request envelope.
// ---------------------------------------------------------------------------
pub open spec fn enc_request(m: ReqModel) -> Seq<u8> {
    enc_opt_str(m.pkg_id) + enc_opt_str(m.cmd_id) + enc_bytes(m.arguments)
}

pub open spec fn dec_request(s: Seq<u8>) -> Option<(ReqModel, Seq<u8>)> {
    match dec_opt_str(s) {
        Some((pkg, r1)) => match dec_opt_str(r1) {
            Some((cmd, r2)) => match dec_bytes(r2) {
                Some((args, r3)) => Some(
                    (ReqModel { pkg_id: pkg, cmd_id: cmd, arguments: args }, r3),
                ),
                None => None,
            },
            None => None,
        },
        None => None,
    }
}

/// Decoding a whole request envelope: strict, every byte consumed.
pub open spec fn spec_decode_request(s: Seq<u8>) -> Option<ReqModel> {
    match dec_request(s) {
        Some((m, rest)) => if rest.len() == 0 {
            Some(m)
        } else {
            None
        },
        None => None,
    }
}

/// The request envelope's fields fit the encoding's length fields.
pub open spec fn req_fits(m: ReqModel) -> bool {
    &&& m.pkg_id matches Some(t) ==> str_fits(t)
    &&& m.cmd_id matches Some(t) ==> str_fits(t)
    &&& m.arguments.len() <= u64::MAX
}

/// Round trip: decoding an encoded request yields the request.
pub proof fn lemma_request_round_trip(m: ReqModel)
    requires
        req_fits(m),
    ensures
        spec_decode_request(enc_request(m)) == Some(m),
{
    let tail = enc_opt_str(m.cmd_id) + enc_bytes(m.arguments);
    assert(enc_request(m) =~= enc_opt_str(m.pkg_id) + tail);
    lemma_dec_enc_opt_str(m.pkg_id, tail);
    lemma_dec_enc_opt_str(m.cmd_id, enc_bytes(m.arguments));
    lemma_dec_enc_bytes(m.arguments, Seq::<u8>::empty());
    assert(enc_bytes(m.arguments) + Seq::<u8>::empty() =~= enc_bytes(m.arguments));
}

pub fn encode_request(m: &TInvokeCommandRequest) -> (out: Vec<u8>)
    ensures
        out@ == enc_request(m@),
{
    let mut out: Vec<u8> = Vec::new();
    let pkg: Option<String> = match &m.pkg_id {
        Some(p) => Some(p.identifier.clone()),
        None => None,
    };
    let cmd: Option<String> = match &m.command_id {
        Some(c) => Some(c.name.clone()),
        None => None,
    };
    write_opt_str(&mut out, &pkg);
    write_opt_str(&mut out, &cmd);
    write_bytes(&mut out, m.arguments.as_slice());
    out
}

pub fn decode_request(s: &Vec<u8>) -> (r: Option<TInvokeCommandRequest>)
    ensures
        r matches Some(m) ==> spec_decode_request(s@) == Some(m@),
        r is None ==> spec_decode_request(s@) is None,
{
    proof {
        assert(s@.skip(0) =~= s@);
    }
    match read_opt_str(s, 0) {
        Some((pkg, p1)) => match read_opt_str(s, p1) {
            Some((cmd, p2)) => match read_bytes(s, p2) {
                Some((args, p3)) => {
                    if p3 == s.len() {
                        proof {
                            assert(s@.skip(p3 as int) =~= Seq::<u8>::empty());
                        }
                        Some(
                            TInvokeCommandRequest {
                                pkg_id: match pkg {
                                    Some(t) => Some(TPackageId { identifier: t }),
                                    None => None,
                                },
                                command_id: match cmd {
                                    Some(t) => Some(TCommandId { name: t }),
                                    None => None,
                                },
                                arguments: args,
                            },
                        )
                    } else {
                        None
                    }
                },
                None => None,
            },
            None => None,
        },
        None => None,
    }
}

// ---------------------------------------------------------------------------
// The response envelope.
// ---------------------------------------------------------------------------
pub open spec fn enc_response(m: RespModel) -> Seq<u8> {
    enc_bool(m.success) + enc_bytes(m.returns) + enc_opt_str(m.error_message)
}

pub open spec fn dec_response(s: Seq<u8>) -> Option<(RespModel, Seq<u8>)> {
    match dec_bool(s) {
        Some((success, r1)) => match dec_bytes(r1) {
            Some((ret_bytes, r2)) => match dec_opt_str(r2) {
                Some((err, r3)) => Some(
                    (RespModel { success, returns: ret_bytes, error_message: err }, r3),
                ),
                None => None,
            },
            None => None,
        },
        None => None,
    }
}

pub open spec fn spec_decode_response(s: Seq<u8>) -> Option<RespModel> {
    match dec_response(s) {
        Some((m, rest)) => if rest.len() == 0 {
            Some(m)
        } else {
            None
        },
        None => None,
    }
}

pub open spec fn resp_fits(m: RespModel) -> bool {
    &&& m.returns.len() <= u64::MAX
    &&& m.error_message matches Some(t) ==> str_fits(t)
}

pub proof fn lemma_response_round_trip(m: RespModel)
    requires
        resp_fits(m),
    ensures
        spec_decode_response(enc_response(m)) == Some(m),
{
    let tail = enc_bytes(m.returns) + enc_opt_str(m.error_message);
    assert(enc_response(m) =~= enc_bool(m.success) + tail);
    lemma_dec_enc_bool(m.success, tail);
    lemma_dec_enc_bytes(m.returns, enc_opt_str(m.error_message));
    lemma_dec_enc_opt_str(m.error_message, Seq::<u8>::empty());
    assert(enc_opt_str(m.error_message) + Seq::<u8>::empty() =~= enc_opt_str(m.error_message));
}

pub fn encode_response(m: &TInvokeCommandResponse) -> (out: Vec<u8>)
    ensures
        out@ == enc_response(m@),
{
    let mut out: Vec<u8> = Vec::new();
    write_bool(&mut out, m.success);
    write_bytes(&mut out, m.returns.as_slice());
    write_opt_str(&mut out, &m.error_message);
    out
}

pub fn decode_response(s: &Vec<u8>) -> (r: Option<TInvokeCommandResponse>)
    ensures
        r matches Some(m) ==> spec_decode_response(s@) == Some(m@),
        r is None ==> spec_decode_response(s@) is None,
{
    proof {
        assert(s@.skip(0) =~= s@);
    }
    match read_bool(s, 0) {
        Some((success, p1)) => match read_bytes(s, p1) {
            Some((ret_bytes, p2)) => match read_opt_str(s, p2) {
                Some((err, p3)) => {
                    if p3 == s.len() {
                        proof {
                            assert(s@.skip(p3 as int) =~= Seq::<u8>::empty());
                        }
                        Some(TInvokeCommandResponse { success, returns: ret_bytes, error_message: err })
                    } else {
                        None
                    }
                },
                None => None,
            },
            None => None,
        },
        None => None,
    }
}

// ---------------------------------------------------------------------------
// Messages that are a single byte string: the `open_zip` argument and the
// `load_blob_data` result.
// ---------------------------------------------------------------------------
pub open spec fn enc_bytes_msg(b: Seq<u8>) -> Seq<u8> {
    enc_bytes(b)
}

pub open spec fn spec_decode_bytes_msg(s: Seq<u8>) -> Option<Seq<u8>> {
    match dec_bytes(s) {
        Some((b, rest)) => if rest.len() == 0 {
            Some(b)
        } else {
            None
        },
        None => None,
    }
}

pub proof fn lemma_bytes_msg_round_trip(b: Seq<u8>)
    requires
        b.len() <= u64::MAX,
    ensures
        spec_decode_bytes_msg(enc_bytes_msg(b)) == Some(b),
{
    lemma_dec_enc_bytes(b, Seq::<u8>::empty());
    assert(enc_bytes(b) + Seq::<u8>::empty() =~= enc_bytes(b));
}

fn encode_bytes_msg(b: &Vec<u8>) -> (out: Vec<u8>)
    ensures
        out@ == enc_bytes_msg(b@),
{
    let mut out: Vec<u8> = Vec::new();
    write_bytes(&mut out, b.as_slice());
    out
}

fn decode_bytes_msg(s: &Vec<u8>) -> (r: Option<Vec<u8>>)
    ensures
        r matches Some(b) ==> spec_decode_bytes_msg(s@) == Some(b@),
        r is None ==> spec_decode_bytes_msg(s@) is None,
{
    proof {
        assert(s@.skip(0) =~= s@);
    }
    match read_bytes(s, 0) {
        Some((b, p)) => {
            if p == s.len() {
                proof {
                    assert(s@.skip(p as int) =~= Seq::<u8>::empty());
                }
                Some(b)
            } else {
                None
            }
        },
        None => None,
    }
}

pub fn encode_open_zip_arg(m: &IcOpenZipArg) -> (out: Vec<u8>)
    ensures
        out@ == enc_bytes_msg(m@),
{
    encode_bytes_msg(&m.data)
}

pub fn decode_open_zip_arg(s: &Vec<u8>) -> (r: Option<IcOpenZipArg>)
    ensures
        r matches Some(m) ==> spec_decode_bytes_msg(s@) == Some(m@),
        r is None ==> spec_decode_bytes_msg(s@) is None,
{
    match decode_bytes_msg(s) {
        Some(b) => Some(IcOpenZipArg { data: b }),
        None => None,
    }
}

pub fn encode_load_blob_ret(m: &IcLoadBlobRet) -> (out: Vec<u8>)
    ensures
        out@ == enc_bytes_msg(m@),
{
    encode_bytes_msg(&m.data)
}

pub fn decode_load_blob_ret(s: &Vec<u8>) -> (r: Option<IcLoadBlobRet>)
    ensures
        r matches Some(m) ==> spec_decode_bytes_msg(s@) == Some(m@),
        r is None ==> spec_decode_bytes_msg(s@) is None,
{
    match decode_bytes_msg(s) {
        Some(b) => Some(IcLoadBlobRet { data: b }),
        None => None,
    }
}

// ---------------------------------------------------------------------------
// Messages that are a single optional handle: the `open_zip` result, the
// `query_dir` argument, the `load_file` result and the `load_blob_data`
// argument.
// ---------------------------------------------------------------------------
pub open spec fn enc_opt_handle_msg(o: Option<u64>) -> Seq<u8> {
    enc_opt_u64(o)
}

pub open spec fn spec_decode_opt_handle_msg(s: Seq<u8>) -> Option<Option<u64>> {
    match dec_opt_u64(s) {
        Some((o, rest)) => if rest.len() == 0 {
            Some(o)
        } else {
            None
        },
        None => None,
    }
}

pub proof fn lemma_opt_handle_msg_round_trip(o: Option<u64>)
    ensures
        spec_decode_opt_handle_msg(enc_opt_handle_msg(o)) == Some(o),
{
    lemma_dec_enc_opt_u64(o, Seq::<u8>::empty());
    assert(enc_opt_u64(o) + Seq::<u8>::empty() =~= enc_opt_u64(o));
}

fn encode_opt_handle_msg(o: &Option<u64>) -> (out: Vec<u8>)
    ensures
        out@ == enc_opt_handle_msg(*o),
{
    let mut out: Vec<u8> = Vec::new();
    write_opt_u64(&mut out, o);
    out
}

fn decode_opt_handle_msg(s: &Vec<u8>) -> (r: Option<Option<u64>>)
    ensures
        r matches Some(o) ==> spec_decode_opt_handle_msg(s@) == Some(o),
        r is None ==> spec_decode_opt_handle_msg(s@) is None,
{
    proof {
        assert(s@.skip(0) =~= s@);
    }
    match read_opt_u64(s, 0) {
        Some((o, p)) => {
            if p == s.len() {
                proof {
                    assert(s@.skip(p as int) =~= Seq::<u8>::empty());
                }
                Some(o)
            } else {
                None
            }
        },
        None => None,
    }
}

pub fn encode_open_zip_ret(m: &IcOpenZipRet) -> (out: Vec<u8>)
    ensures
        out@ == enc_opt_handle_msg(m@),
{
    let o: Option<u64> = match &m.data {
        Some(h) => Some(h.id),
        None => None,
    };
    encode_opt_handle_msg(&o)
}

pub fn decode_open_zip_ret(s: &Vec<u8>) -> (r: Option<IcOpenZipRet>)
    ensures
        r matches Some(m) ==> spec_decode_opt_handle_msg(s@) == Some(m@),
        r is None ==> spec_decode_opt_handle_msg(s@) is None,
{
    match decode_opt_handle_msg(s) {
        Some(o) => Some(
            IcOpenZipRet {
                data: match o {
                    Some(id) => Some(TResource { id }),
                    None => None,
                },
            },
        ),
        None => None,
    }
}

pub fn encode_query_dir_arg(m: &IcQueryDirArg) -> (out: Vec<u8>)
    ensures
        out@ == enc_opt_handle_msg(m@),
{
    let o: Option<u64> = match &m.archiver {
        Some(h) => Some(h.id),
        None => None,
    };
    encode_opt_handle_msg(&o)
}

pub fn decode_query_dir_arg(s: &Vec<u8>) -> (r: Option<IcQueryDirArg>)
    ensures
        r matches Some(m) ==> spec_decode_opt_handle_msg(s@) == Some(m@),
        r is None ==> spec_decode_opt_handle_msg(s@) is None,
{
    match decode_opt_handle_msg(s) {
        Some(o) => Some(
            IcQueryDirArg {
                archiver: match o {
                    Some(id) => Some(TResource { id }),
                    None => None,
                },
            },
        ),
        None => None,
    }
}

pub fn encode_load_file_ret(m: &IcLoadFileRet) -> (out: Vec<u8>)
    ensures
        out@ == enc_opt_handle_msg(m@),
{
    let o: Option<u64> = match &m.data {
        Some(h) => Some(h.id),
        None => None,
    };
    encode_opt_handle_msg(&o)
}

pub fn decode_load_file_ret(s: &Vec<u8>) -> (r: Option<IcLoadFileRet>)
    ensures
        r matches Some(m) ==> spec_decode_opt_handle_msg(s@) == Some(m@),
        r is None ==> spec_decode_opt_handle_msg(s@) is None,
{
    match decode_opt_handle_msg(s) {
        Some(o) => Some(
            IcLoadFileRet {
                data: match o {
                    Some(id) => Some(TBlobResource { id }),
                    None => None,
                },
            },
        ),
        None => None,
    }
}

pub fn encode_load_blob_arg(m: &IcLoadBlobArg) -> (out: Vec<u8>)
    ensures
        out@ == enc_opt_handle_msg(m@),
{
    let o: Option<u64> = match &m.data {
        Some(h) => Some(h.id),
        None => None,
    };
    encode_opt_handle_msg(&o)
}

pub fn decode_load_blob_arg(s: &Vec<u8>) -> (r: Option<IcLoadBlobArg>)
    ensures
        r matches Some(m) ==> spec_decode_opt_handle_msg(s@) == Some(m@),
        r is None ==> spec_decode_opt_handle_msg(s@) is None,
{
    match decode_opt_handle_msg(s) {
        Some(o) => Some(
            IcLoadBlobArg {
                data: match o {
                    Some(id) => Some(TBlobResource { id }),
                    None => None,
                },
            },
        ),
        None => None,
    }
}

// ---------------------------------------------------------------------------
// The `load_file` argument: an optional handle and a path.
// ---------------------------------------------------------------------------
pub open spec fn enc_load_file_arg(m: LoadFileArgModel) -> Seq<u8> {
    enc_opt_u64(m.archiver) + enc_str(m.path)
}

pub open spec fn dec_load_file_arg(s: Seq<u8>) -> Option<(LoadFileArgModel, Seq<u8>)> {
    match dec_opt_u64(s) {
        Some((o, r1)) => match dec_str(r1) {
            Some((path, r2)) => Some((LoadFileArgModel { archiver: o, path }, r2)),
            None => None,
        },
        None => None,
    }
}

pub open spec fn spec_decode_load_file_arg(s: Seq<u8>) -> Option<LoadFileArgModel> {
    match dec_load_file_arg(s) {
        Some((m, rest)) => if rest.len() == 0 {
            Some(m)
        } else {
            None
        },
        None => None,
    }
}

pub proof fn lemma_load_file_arg_round_trip(m: LoadFileArgModel)
    requires
        str_fits(m.path),
    ensures
        spec_decode_load_file_arg(enc_load_file_arg(m)) == Some(m),
{
    assert(enc_load_file_arg(m) =~= enc_opt_u64(m.archiver) + enc_str(m.path));
    lemma_dec_enc_opt_u64(m.archiver, enc_str(m.path));
    lemma_dec_enc_str(m.path, Seq::<u8>::empty());
    assert(enc_str(m.path) + Seq::<u8>::empty() =~= enc_str(m.path));
}

pub fn encode_load_file_arg(m: &IcLoadFileArg) -> (out: Vec<u8>)
    ensures
        out@ == enc_load_file_arg(m@),
{
    let mut out: Vec<u8> = Vec::new();
    let o: Option<u64> = match &m.archiver {
        Some(h) => Some(h.id),
        None => None,
    };
    write_opt_u64(&mut out, &o);
    write_str(&mut out, m.path.as_str());
    out
}

pub fn decode_load_file_arg(s: &Vec<u8>) -> (r: Option<IcLoadFileArg>)
    ensures
        r matches Some(m) ==> spec_decode_load_file_arg(s@) == Some(m@),
        r is None ==> spec_decode_load_file_arg(s@) is None,
{
    proof {
        assert(s@.skip(0) =~= s@);
    }
    match read_opt_u64(s, 0) {
        Some((o, p1)) => match read_str(s, p1) {
            Some((path, p2)) => {
                if p2 == s.len() {
                    proof {
                        assert(s@.skip(p2 as int) =~= Seq::<u8>::empty());
                    }
                    Some(
                        IcLoadFileArg {
                            archiver: match o {
                                Some(id) => Some(TResource { id }),
                                None => None,
                            },
                            path,
                        },
                    )
                } else {
                    None
                }
            },
            None => None,
        },
        None => None,
    }
}

// ---------------------------------------------------------------------------
// The `query_dir` result: a count followed by that many paths.
// ---------------------------------------------------------------------------
pub open spec fn enc_str_list(items: Seq<Seq<char>>) -> Seq<u8>
    decreases items.len(),
{
    if items.len() == 0 {
        Seq::<u8>::empty()
    } else {
        enc_str(items[0]) + enc_str_list(items.drop_first())
    }
}

pub open spec fn dec_str_list(s: Seq<u8>, count: nat) -> Option<(Seq<Seq<char>>, Seq<u8>)>
    decreases count,
{
    if count == 0 {
        Some((Seq::<Seq<char>>::empty(), s))
    } else {
        match dec_str(s) {
            Some((t, rest)) => match dec_str_list(rest, (count - 1) as nat) {
                Some((ts, rest2)) => Some((seq![t] + ts, rest2)),
                None => None,
            },
            None => None,
        }
    }
}

pub open spec fn enc_query_dir_ret(items: Seq<Seq<char>>) -> Seq<u8>
    recommends
        items.len() <= u64::MAX,
{
    enc_u64(items.len() as u64) + enc_str_list(items)
}

pub open spec fn spec_decode_query_dir_ret(s: Seq<u8>) -> Option<Seq<Seq<char>>> {
    match dec_u64(s) {
        Some((n, rest)) => match dec_str_list(rest, n as nat) {
            Some((ts, rest2)) => if rest2.len() == 0 {
                Some(ts)
            } else {
                None
            },
            None => None,
        },
        None => None,
    }
}

pub open spec fn str_list_fits(items: Seq<Seq<char>>) -> bool {
    &&& items.len() <= u64::MAX
    &&& forall|i: int| 0 <= i < items.len() ==> str_fits(#[trigger] items[i])
}

pub proof fn lemma_dec_enc_str_list(items: Seq<Seq<char>>, rest: Seq<u8>)
    requires
        forall|i: int| 0 <= i < items.len() ==> str_fits(#[trigger] items[i]),
    ensures
        dec_str_list(enc_str_list(items) + rest, items.len() as nat) == Some((items, rest)),
    decreases items.len(),
{
    if items.len() == 0 {
        assert(enc_str_list(items) + rest =~= rest);
        assert(items =~= Seq::<Seq<char>>::empty());
    } else {
        let t = items[0];
        let tail = items.drop_first();
        assert(enc_str_list(items) + rest =~= enc_str(t) + (enc_str_list(tail) + rest));
        lemma_dec_enc_str(t, enc_str_list(tail) + rest);
        assert(forall|i: int| 0 <= i < tail.len() ==> str_fits(#[trigger] tail[i]));
        lemma_dec_enc_str_list(tail, rest);
        assert(seq![t] + tail =~= items);
    }
}

/// Appending one more string extends the list's encoding at the end.
pub proof fn lemma_enc_str_list_push(items: Seq<Seq<char>>, t: Seq<char>)
    ensures
        enc_str_list(items.push(t)) == enc_str_list(items) + enc_str(t),
    decreases items.len(),
{
    if items.len() == 0 {
        assert(items.push(t)[0] == t);
        assert(items.push(t).drop_first() =~= Seq::<Seq<char>>::empty());
        assert(enc_str_list(items.push(t)) == enc_str(t) + enc_str_list(
            Seq::<Seq<char>>::empty(),
        ));
        assert(enc_str(t) + Seq::<u8>::empty() =~= enc_str(t));
    } else {
        assert(items.push(t)[0] == items[0]);
        assert(items.push(t).drop_first() =~= items.drop_first().push(t));
        lemma_enc_str_list_push(items.drop_first(), t);
        assert(enc_str(items[0]) + (enc_str_list(items.drop_first()) + enc_str(t)) =~= (enc_str(
            items[0],
        ) + enc_str_list(items.drop_first())) + enc_str(t));
    }
}

pub proof fn lemma_query_dir_ret_round_trip(items: Seq<Seq<char>>)
    requires
        str_list_fits(items),
    ensures
        spec_decode_query_dir_ret(enc_query_dir_ret(items)) == Some(items),
{
    assert(enc_query_dir_ret(items) =~= enc_u64(items.len() as u64) + enc_str_list(items));
    lemma_dec_enc_u64(items.len() as u64, enc_str_list(items));
    lemma_dec_enc_str_list(items, Seq::<u8>::empty());
    assert(enc_str_list(items) + Seq::<u8>::empty() =~= enc_str_list(items));
}

pub fn encode_query_dir_ret(m: &IcQueryDirRet) -> (out: Vec<u8>)
    ensures
        out@ == enc_query_dir_ret(m@),
{
    let mut out: Vec<u8> = Vec::new();
    let n = m.items.len();
    write_u64(&mut out, n as u64);
    proof {
        assert(m@.take(0) =~= Seq::<Seq<char>>::empty());
    }
    for i in 0..n
        invariant
            n == m.items.len(),
            out@ == enc_u64(n as u64) + enc_str_list(m@.take(i as int)),
    {
        write_str(&mut out, m.items[i].path.as_str());
        proof {
            assert(m@.take(i + 1) =~= m@.take(i as int).push(m@[i as int]));
            lemma_enc_str_list_push(m@.take(i as int), m@[i as int]);
        }
    }
    proof {
        assert(m@.take(n as int) =~= m@);
    }
    out
}

pub fn decode_query_dir_ret(s: &Vec<u8>) -> (r: Option<IcQueryDirRet>)
    ensures
        r matches Some(m) ==> spec_decode_query_dir_ret(s@) == Some(m@),
        r is None ==> spec_decode_query_dir_ret(s@) is None,
{
    proof {
        assert(s@.skip(0) =~= s@);
    }
    match read_u64(s, 0) {
        Some((n, p0)) => {
            let mut items: Vec<QueryDirItem> = Vec::new();
            let mut p = p0;
            let mut i: u64 = 0;
            proof {
                let ghost e = paths_view(items@);
                match dec_str_list(s@.skip(p0 as int), n as nat) {
                    Some((ts, rest)) => {
                        assert(e + ts =~= ts);
                    },
                    None => {},
                }
            }
            while i < n
                invariant
                    i <= n,
                    p0 <= p <= s@.len(),
                    dec_u64(s@) == Some((n, s@.skip(p0 as int))),
                    items@.len() == i,
                    match dec_str_list(s@.skip(p as int), (n - i) as nat) {
                        Some((ts, rest)) => dec_str_list(s@.skip(p0 as int), n as nat) == Some(
                            (paths_view(items@) + ts, rest),
                        ),
                        None => dec_str_list(s@.skip(p0 as int), n as nat) is None,
                    },
                decreases n - i,
            {
                match read_str(s, p) {
                    Some((t, p2)) => {
                        proof {
                            let ghost prev = paths_view(items@);
                            match dec_str_list(s@.skip(p2 as int), (n - i - 1) as nat) {
                                Some((ts, rest)) => {
                                    assert(dec_str_list(s@.skip(p as int), (n - i) as nat)
                                        == Some((seq![t@] + ts, rest)));
                                    assert(prev + (seq![t@] + ts) =~= (prev + seq![t@]) + ts);
                                },
                                None => {
                                    assert(dec_str_list(s@.skip(p as int), (n - i) as nat)
                                        is None);
                                },
                            }
                        }
                        let ghost old_items = items@;
                        items.push(QueryDirItem { path: t });
                        proof {
                            assert(paths_view(items@) =~= paths_view(old_items) + seq![
                                items@.last()@,
                            ]);
                        }
                        p = p2;
                        i = i + 1;
                    },
                    None => {
                        proof {
                            assert(dec_str_list(s@.skip(p as int), (n - i) as nat) is None);
                        }
                        return None;
                    },
                }
            }
            if p == s.len() {
                proof {
                    assert(s@.skip(p as int) =~= Seq::<u8>::empty());
                    let ghost view = paths_view(items@);
                    assert(view + Seq::<Seq<char>>::empty() =~= view);
                }
                Some(IcQueryDirRet { items })
            } else {
                proof {
                    assert(s@.skip(p as int).len() > 0);
                }
                None
            }
        },
        None => None,
    }
}

} // verus!
