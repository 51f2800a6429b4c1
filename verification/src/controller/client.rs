//! The client side of the control channel, as composed by the command-line
//! tool: it remembers the daemon's socket path; the runtime around the
//! library opens one fresh connection per request, writes the encoded
//! request (`Request::marshal`), half-closes, reads the whole reply and
//! decodes it (`Response::unmarshal`).

use vstd::prelude::*;

verus! {

/// A handle on the daemon's control socket path.
pub struct Client {
    s: String,
}

impl Client {
    /// The socket path the client connects to.
    pub closed spec fn spec_socket(&self) -> Seq<char> {
        self.s@
    }

    pub fn new(socket_path: String) -> (r: Client)
        ensures
            r.spec_socket() == socket_path@,
    {
        Client { s: socket_path }
    }

    /// The socket path the client connects to.
    pub fn socket_path(&self) -> (r: &str)
        ensures
            r@ == self.spec_socket(),
    {
        self.s.as_str()
    }
}

} // verus!
