//! The single entry point the host calls: a raw request envelope in, a raw
//! response envelope out.

use vstd::prelude::*;
use crate::command::{invoke_post, CommandHandler, CommandManager, HandlerError};
use crate::proto::{
    decode_request, enc_response, encode_response, spec_decode_request, RespModel,
};
use crate::resource::{ResourceManager, ResourceValue};

verus! {

/// A runtime instance: the command registry, created once at startup, and
/// the resource table it dispatches against.
pub struct App {
    cmd_mgr: CommandManager,
    res_mgr: ResourceManager,
}

impl App {
    /// The registered commands.
    pub closed spec fn commands(self) -> Map<(Seq<char>, Seq<char>), CommandHandler> {
        self.cmd_mgr.commands()
    }

    /// The stored resources, keyed by handle id.
    pub closed spec fn table(self) -> Map<u64, ResourceValue> {
        self.res_mgr.table()
    }

    /// The id the next allocation will use.
    pub closed spec fn next_id(self) -> u64 {
        self.res_mgr.next_id()
    }

    pub closed spec fn wf(self) -> bool {
        self.res_mgr.wf()
    }

    /// Whether the table can still hand out a fresh handle; the counter
    /// never wraps, so an unverified caller tests this before `invoke_command`.
    pub fn can_allocate(&self) -> (r: bool)
        ensures
            r == (self.next_id() < u64::MAX),
    {
        self.res_mgr.can_allocate()
    }

    pub fn new(cmd_mgr: CommandManager) -> (r: Self)
        ensures
            r.wf(),
            r.commands() == cmd_mgr.commands(),
            r.table() == Map::<u64, ResourceValue>::empty(),
            r.next_id() == 0,
    {
        App { cmd_mgr, res_mgr: ResourceManager::new() }
    }

    /// Decodes the raw request envelope, dispatches it, and encodes the
    /// response envelope. Only a request that does not decode is an error
    /// here; every failure past that point is reported inside the encoded
    /// response.
    pub fn invoke_command(&mut self, request: &Vec<u8>) -> (r: Result<Vec<u8>, HandlerError>)
        requires
            old(self).wf(),
            old(self).next_id() < u64::MAX,
        ensures
            final(self).wf(),
            final(self).commands() == old(self).commands(),
            match r {
                Err(e) => {
                    &&& e is Decode
                    &&& spec_decode_request(request@) is None
                    &&& final(self).table() == old(self).table()
                    &&& final(self).next_id() == old(self).next_id()
                },
                Ok(out) => {
                    &&& spec_decode_request(request@) matches Some(req)
                    &&& exists|resp: RespModel|
                        #[trigger] invoke_post(
                            old(self).commands(),
                            old(self).table(),
                            old(self).next_id(),
                            final(self).table(),
                            final(self).next_id(),
                            req,
                            resp,
                        ) && out@ == enc_response(resp)
                },
            },
    {
        let req = match decode_request(request) {
            Some(req) => req,
            None => {
                return Err(HandlerError::Decode);
            },
        };
        let ghost reqm = req@;
        let resp = self.cmd_mgr.invoke(&mut self.res_mgr, req);
        let out = encode_response(&resp);
        proof {
            assert(invoke_post(
                old(self).commands(),
                old(self).table(),
                old(self).next_id(),
                self.table(),
                self.next_id(),
                reqm,
                resp@,
            ) && out@ == enc_response(resp@));
        }
        Ok(out)
    }
}

} // verus!
