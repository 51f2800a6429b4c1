//! Per-connection request handling, separated from the transport: a worker
//! reads a whole request off an accepted stream, hands the bytes here, and
//! writes back the encoded reply (or first performs the launch or stop work
//! a lifecycle command claimed).

use vstd::prelude::*;

use crate::controller::command::{spec_decode_command, Request, Response};
use crate::controller::controller::{
    spec_cmd_next, spec_cmd_resolved, CmdOutcome, ProcessController,
};

verus! {

/// Decode one buffered request and execute it against the controller.
/// Malformed bytes decode to `Unknown` and so are answered, never dropped.
pub fn handle_request(ctrl: &mut ProcessController, v: &Vec<u8>) -> (r: CmdOutcome)
    ensures
        final(ctrl).model() == spec_cmd_next(old(ctrl).model(), spec_decode_command(v@)),
        final(ctrl).spec_conf() == old(ctrl).spec_conf(),
        spec_cmd_resolved(old(ctrl).model(), spec_decode_command(v@), r),
{
    let req = Request::unmarshal(v);
    handle_command(ctrl, &req)
}

/// Execute one decoded request against the controller.
pub fn handle_command(ctrl: &mut ProcessController, r: &Request) -> (out: CmdOutcome)
    ensures
        final(ctrl).model() == spec_cmd_next(old(ctrl).model(), r.cmd),
        final(ctrl).spec_conf() == old(ctrl).spec_conf(),
        spec_cmd_resolved(old(ctrl).model(), r.cmd, out),
{
    ctrl.exec_cmd(r.cmd)
}

/// Encode a finished command's reply for the wire.
pub fn encode_reply(resp: &Response) -> (r: Vec<u8>)
    ensures
        r@ == crate::controller::command::spec_marshal_response(resp.message@, resp.sup_pid),
{
    resp.marshal()
}

} // verus!
