//! The blob preset command set: hand a stored byte buffer back to the
//! host.

use vstd::prelude::*;
use crate::command::{CommandHandler, CommandManager, HandlerError};
use crate::proto::{enc_bytes_msg, spec_decode_opt_handle_msg, IcLoadBlobArg, IcLoadBlobRet};
use crate::resource::{ResourceManager, ResourceValue, TBlobResource};

verus! {

/// Failures of the blob command set.
#[derive(Debug)]
pub enum BlobCommandError {
    MissingResourceHandle,
    MissingResource(TBlobResource),
}

impl BlobCommandError {
    pub open spec fn spec_message(self) -> Seq<char> {
        match self {
            BlobCommandError::MissingResourceHandle => "Missing blob resource handle"@,
            BlobCommandError::MissingResource(_) => "Missing blob resource"@,
        }
    }

    pub fn message(&self) -> (r: String)
        ensures
            r@ == self.spec_message(),
    {
        match self {
            BlobCommandError::MissingResourceHandle => String::from_str(
                "Missing blob resource handle",
            ),
            BlobCommandError::MissingResource(_) => String::from_str("Missing blob resource"),
        }
    }
}

/// Returns a copy of the bytes stored under the blob handle. Fails when
/// the argument carries no handle, and when the handle is absent or does
/// not refer to a byte buffer.
pub fn load_blob_data(res: &ResourceManager, data: IcLoadBlobArg) -> (r: Result<
    IcLoadBlobRet,
    HandlerError,
>)
    ensures
        match r {
            Ok(ret) => {
                &&& data.data matches Some(h)
                &&& res.table().contains_key(h.id)
                &&& res.table()[h.id] matches ResourceValue::Blob(b) && ret.data@ == b@
            },
            Err(e) => match e {
                HandlerError::Blob(BlobCommandError::MissingResourceHandle) => data.data is None,
                HandlerError::Blob(BlobCommandError::MissingResource(h)) => {
                    &&& data.data == Some(h)
                    &&& !(res.table().contains_key(h.id) && res.table()[h.id] is Blob)
                },
                _ => false,
            },
        },
        r is Ok <==> (data.data matches Some(h) && res.table().contains_key(h.id) && res.table()[h.id] is Blob),
{
    let handle = match data.data {
        Some(h) => h,
        None => {
            return Err(HandlerError::Blob(BlobCommandError::MissingResourceHandle));
        },
    };
    match res.get_blob(&handle) {
        Some(blob) => Ok(IcLoadBlobRet { data: vstd::slice::slice_to_vec(blob.as_slice()) }),
        None => Err(HandlerError::Blob(BlobCommandError::MissingResource(handle))),
    }
}

/// What dispatching `load_blob_data` on raw bytes does: the table is
/// never changed, and a stored blob's bytes are handed back encoded.
pub open spec fn load_blob_post(
    t0: Map<u64, ResourceValue>,
    n0: u64,
    t1: Map<u64, ResourceValue>,
    n1: u64,
    arg: Seq<u8>,
    r: Result<Seq<u8>, HandlerError>,
) -> bool {
    &&& t1 == t0
    &&& n1 == n0
    &&& match spec_decode_opt_handle_msg(arg) {
        None => r == Result::<Seq<u8>, HandlerError>::Err(HandlerError::Decode),
        Some(o) => match o {
            None => r == Result::<Seq<u8>, HandlerError>::Err(
                HandlerError::Blob(BlobCommandError::MissingResourceHandle),
            ),
            Some(id) => if t0.contains_key(id) && t0[id] is Blob {
                r matches Ok(out) && out == enc_bytes_msg(t0[id]->Blob_0@)
            } else {
                r == Result::<Seq<u8>, HandlerError>::Err(
                    HandlerError::Blob(BlobCommandError::MissingResource(TBlobResource { id })),
                )
            },
        },
    }
}

/// Registers the blob command set.
pub fn setup_command(mgr: &mut CommandManager)
    ensures
        final(mgr).commands() == old(mgr).commands().insert(
            ("hol.blob"@, "load_blob_data"@),
            CommandHandler::LoadBlobData,
        ),
{
    mgr.add("hol.blob", "load_blob_data", CommandHandler::LoadBlobData);
}

} // verus!
