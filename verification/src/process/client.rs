//! A client over an abstract transport: it encodes one request, sends it,
//! reads the whole reply back and decodes it. The transport is anything
//! that can carry bytes both ways — the daemon's runtime uses a local
//! socket stream; tests substitute an in-memory pipe.

use vstd::prelude::*;

use crate::controller::command::{
    spec_unmarshal_response, CodecError, Command, Request, Response,
};
use crate::controller::error::ProcessErr;

verus! {

/// A bidirectional byte stream bound to the control channel. `write` sends
/// the whole buffer and half-closes the write side, so the peer's
/// read-until-close completes; `read` reads until the peer closes.
/// Implementations live outside the library and promise nothing here: the
/// client states only what holds whatever bytes come back.
pub trait Transport {
    fn write(&mut self, data: &Vec<u8>) -> Result<(), ProcessErr>;

    fn read(&mut self) -> Result<Vec<u8>, ProcessErr>;
}

/// A one-shot control-channel client over a connected transport.
pub struct Client<T: Transport> {
    tsp: T,
}

/// What every reply handed out by the client satisfies: it is the exact
/// decoding of some well-formed response byte sequence.
pub open spec fn spec_well_formed_reply(resp: Response) -> bool {
    exists|b: Seq<u8>|
        spec_unmarshal_response(b) == Ok::<_, CodecError>((resp.message@, resp.sup_pid))
}

impl<T: Transport> Client<T> {
    /// A client over a transport already bound to the daemon's socket.
    pub fn new(tsp: T) -> (r: Client<T>) {
        Client { tsp }
    }

    /// Issue one request and await one response: write the encoded request,
    /// half-close, read the whole reply, decode it. Whatever bytes the
    /// transport returns, a reply is handed out only if it decodes cleanly.
    pub fn request(self, req: Request) -> (r: Result<Response, ProcessErr>)
        ensures
            r matches Ok(resp) ==> spec_well_formed_reply(resp),
    {
        let mut tsp = self.tsp;
        let bytes = req.marshal();
        match tsp.write(&bytes) {
            Ok(u) => u,
            Err(e) => {
                return Err(e);
            },
        };
        let resp_bytes = match tsp.read() {
            Ok(v) => v,
            Err(e) => {
                return Err(e);
            },
        };
        match Response::unmarshal(&resp_bytes) {
            Ok(resp) => {
                proof {
                    assert(spec_unmarshal_response(resp_bytes@) == Ok::<_, CodecError>(
                        (resp.message@, resp.sup_pid),
                    ));
                }
                Ok(resp)
            },
            Err(_) => Err(ProcessErr::ReadFromStreamFail("invalid response encoding".to_owned())),
        }
    }

    pub fn start(self) -> (r: Result<Response, ProcessErr>)
        ensures
            r matches Ok(resp) ==> spec_well_formed_reply(resp),
    {
        self.request(Request { cmd: Command::Start })
    }

    pub fn stop(self) -> (r: Result<Response, ProcessErr>)
        ensures
            r matches Ok(resp) ==> spec_well_formed_reply(resp),
    {
        self.request(Request { cmd: Command::Stop })
    }

    pub fn restart(self) -> (r: Result<Response, ProcessErr>)
        ensures
            r matches Ok(resp) ==> spec_well_formed_reply(resp),
    {
        self.request(Request { cmd: Command::Restart })
    }

    pub fn kill(self) -> (r: Result<Response, ProcessErr>)
        ensures
            r matches Ok(resp) ==> spec_well_formed_reply(resp),
    {
        self.request(Request { cmd: Command::Kill })
    }

    pub fn reload(self) -> (r: Result<Response, ProcessErr>)
        ensures
            r matches Ok(resp) ==> spec_well_formed_reply(resp),
    {
        self.request(Request { cmd: Command::Reload })
    }

    pub fn status(self) -> (r: Result<Response, ProcessErr>)
        ensures
            r matches Ok(resp) ==> spec_well_formed_reply(resp),
    {
        self.request(Request { cmd: Command::Status })
    }

    pub fn exit(self) -> (r: Result<Response, ProcessErr>)
        ensures
            r matches Ok(resp) ==> spec_well_formed_reply(resp),
    {
        self.request(Request { cmd: Command::Exit })
    }
}

} // verus!
