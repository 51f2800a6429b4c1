//! Wire codec for the control channel.
//!
//! A `Command` travels as a single byte; a `Response` travels as a 4-byte
//! big-endian pid (0 meaning "no pid") followed by the UTF-8 bytes of the
//! message, with no length prefix.

use vstd::prelude::*;
use vstd::utf8::{decode_utf8, encode_utf8, valid_utf8};
use vstd::utf8::{encode_utf8_decode_utf8, encode_utf8_valid_utf8};

use crate::text::{spec_decimal, string_from_utf8, strings_eq, u64_to_string};

verus! {

/// A control command, as carried on the wire. `Unknown` is a valid wire
/// value: it is what any out-of-range or malformed request decodes to.
#[derive(Clone, Copy, Debug, PartialEq, Eq, Structural)]
pub enum Command {
    Start,
    Stop,
    Restart,
    Kill,
    Reload,
    Status,
    Exit,
    Unknown,
}

/// The byte that encodes a command.
pub open spec fn spec_command_code(c: Command) -> u8 {
    match c {
        Command::Start => 0,
        Command::Stop => 1,
        Command::Restart => 2,
        Command::Kill => 3,
        Command::Reload => 4,
        Command::Status => 5,
        Command::Exit => 6,
        Command::Unknown => 7,
    }
}

/// The command a single code byte decodes to: codes past `Exit` are `Unknown`.
pub open spec fn spec_command_of_code(code: u8) -> Command {
    if code == 0 {
        Command::Start
    } else if code == 1 {
        Command::Stop
    } else if code == 2 {
        Command::Restart
    } else if code == 3 {
        Command::Kill
    } else if code == 4 {
        Command::Reload
    } else if code == 5 {
        Command::Status
    } else if code == 6 {
        Command::Exit
    } else {
        Command::Unknown
    }
}

/// What a request byte sequence decodes to: exactly one byte carries a
/// command; any other length (empty or multi-byte) decodes to `Unknown`.
pub open spec fn spec_decode_command(v: Seq<u8>) -> Command {
    if v.len() == 1 {
        spec_command_of_code(v[0])
    } else {
        Command::Unknown
    }
}

impl Command {
    /// Encode the command as its one-byte wire form.
    pub fn marshal(&self) -> (r: Vec<u8>)
        ensures
            r@ == seq![spec_command_code(*self)],
    {
        let code: u8 = match self {
            Command::Start => 0,
            Command::Stop => 1,
            Command::Restart => 2,
            Command::Kill => 3,
            Command::Reload => 4,
            Command::Status => 5,
            Command::Exit => 6,
            Command::Unknown => 7,
        };
        let mut v = Vec::new();
        v.push(code);
        assert(v@ =~= seq![spec_command_code(*self)]);
        v
    }

    /// Decode a request byte sequence; never fails, never panics.
    pub fn unmarshal(v: &Vec<u8>) -> (r: Command)
        ensures
            r == spec_decode_command(v@),
    {
        if v.len() != 1 {
            return Command::Unknown;
        }
        let code = v[0];
        match code {
            0 => Command::Start,
            1 => Command::Stop,
            2 => Command::Restart,
            3 => Command::Kill,
            4 => Command::Reload,
            5 => Command::Status,
            6 => Command::Exit,
            _ => Command::Unknown,
        }
    }
}

/// The command a subcommand name on the command line denotes, if any.
pub open spec fn spec_command_of_name(s: Seq<char>) -> Option<Command> {
    if s == "start"@ {
        Some(Command::Start)
    } else if s == "stop"@ {
        Some(Command::Stop)
    } else if s == "restart"@ {
        Some(Command::Restart)
    } else if s == "kill"@ {
        Some(Command::Kill)
    } else if s == "reload"@ {
        Some(Command::Reload)
    } else if s == "status"@ {
        Some(Command::Status)
    } else if s == "exit"@ {
        Some(Command::Exit)
    } else {
        None
    }
}

impl Command {
    /// Map a subcommand name to its command; unknown names map to nothing.
    pub fn from_name(s: &str) -> (r: Option<Command>)
        ensures
            r == spec_command_of_name(s@),
    {
        if strings_eq(s, "start") {
            Some(Command::Start)
        } else if strings_eq(s, "stop") {
            Some(Command::Stop)
        } else if strings_eq(s, "restart") {
            Some(Command::Restart)
        } else if strings_eq(s, "kill") {
            Some(Command::Kill)
        } else if strings_eq(s, "reload") {
            Some(Command::Reload)
        } else if strings_eq(s, "status") {
            Some(Command::Status)
        } else if strings_eq(s, "exit") {
            Some(Command::Exit)
        } else {
            None
        }
    }
}

/// Every command survives the trip through its wire form; in particular a
/// well-formed one-byte request reproduces the command it was made from.
pub proof fn lemma_command_round_trip(c: Command)
    ensures
        spec_decode_command(seq![spec_command_code(c)]) == c,
{
}

/// A request of any length other than one byte decodes to `Unknown` —
/// malformed input is represented, not rejected.
pub proof fn lemma_decode_robust(v: Seq<u8>)
    ensures
        v.len() != 1 ==> spec_decode_command(v) == Command::Unknown,
{
}

/// A request: exactly one command, consumed by one round trip.
#[derive(Clone, Copy, Debug, PartialEq, Eq, Structural)]
pub struct Request {
    pub cmd: Command,
}

impl Request {
    pub fn new(cmd: Command) -> (r: Request)
        ensures
            r.cmd == cmd,
    {
        Request { cmd }
    }

    /// Encode the request: the one command byte.
    pub fn marshal(&self) -> (r: Vec<u8>)
        ensures
            r@ == seq![spec_command_code(self.cmd)],
    {
        self.cmd.marshal()
    }

    /// Decode a request byte sequence; malformed input gives `Unknown`.
    pub fn unmarshal(v: &Vec<u8>) -> (r: Request)
        ensures
            r.cmd == spec_decode_command(v@),
    {
        Request { cmd: Command::unmarshal(v) }
    }
}

/// Why a response byte sequence was rejected.
#[derive(Clone, Copy, Debug, PartialEq, Eq, Structural)]
pub enum CodecError {
    /// Fewer than the four pid bytes were supplied.
    InvalidEncoding,
    /// The message suffix is not valid UTF-8.
    InvalidUtf8,
}

/// A structured reply: a human-readable message and, when the supervised
/// child is running, its pid. On the wire a pid of zero means "no pid", so
/// `Some(0)` cannot be represented and decodes back as `None`.
#[derive(Clone, Debug, PartialEq)]
pub struct Response {
    pub message: String,
    pub sup_pid: Option<u32>,
}

/// The pid value carried on the wire: absent is encoded as zero.
pub open spec fn spec_raw_pid(pid: Option<u32>) -> u32 {
    match pid {
        Some(p) => p,
        None => 0u32,
    }
}

/// A raw wire pid read back into the structured form: zero means "no pid".
pub open spec fn spec_normalize_pid(raw: u32) -> Option<u32> {
    if raw == 0 {
        None
    } else {
        Some(raw)
    }
}

/// The four big-endian bytes of a wire pid.
pub open spec fn spec_pid_bytes(pid: Option<u32>) -> Seq<u8> {
    let p = spec_raw_pid(pid);
    seq![(p >> 24u32) as u8, (p >> 16u32) as u8, (p >> 8u32) as u8, p as u8]
}

/// The wire pid read from the first four bytes of a buffer.
pub open spec fn spec_raw_pid_of_bytes(b: Seq<u8>) -> u32
    recommends
        b.len() >= 4,
{
    ((b[0] as u32) << 24u32) | ((b[1] as u32) << 16u32) | ((b[2] as u32) << 8u32) | (b[3] as u32)
}

/// A whole encoded response: pid prefix, then the UTF-8 message bytes.
pub open spec fn spec_marshal_response(message: Seq<char>, pid: Option<u32>) -> Seq<u8> {
    spec_pid_bytes(pid) + encode_utf8(message)
}

/// What a buffered response byte sequence decodes to. Decoding needs the
/// whole stream: the message length is implicit (everything after byte 4).
pub open spec fn spec_unmarshal_response(b: Seq<u8>) -> Result<(Seq<char>, Option<u32>), CodecError> {
    if b.len() < 4 {
        Err(CodecError::InvalidEncoding)
    } else if valid_utf8(b.skip(4)) {
        Ok((decode_utf8(b.skip(4)), spec_normalize_pid(spec_raw_pid_of_bytes(b))))
    } else {
        Err(CodecError::InvalidUtf8)
    }
}

impl Response {
    pub fn new(message: String, sup_pid: Option<u32>) -> (r: Response)
        ensures
            r.message == message,
            r.sup_pid == sup_pid,
    {
        Response { message, sup_pid }
    }

    /// The human-readable rendering a client prints: the message, and the
    /// pid after it when one is present.
    pub fn to_text(&self) -> (r: String)
        ensures
            match self.sup_pid {
                Some(p) => r@ == self.message@ + ", pid is "@ + spec_decimal(p as int),
                None => r@ == self.message@,
            },
    {
        match self.sup_pid {
            Some(p) => {
                let r = self.message.clone().concat(", pid is ").concat(
                    u64_to_string(p as u64).as_str(),
                );
                proof {
                    reveal_strlit(", pid is ");
                }
                r
            },
            None => self.message.clone(),
        }
    }

    /// The UTF-8 bytes of the message, as sent after the pid prefix.
    pub fn marshal_msg(&self) -> (r: Vec<u8>)
        ensures
            r@ == encode_utf8(self.message@),
    {
        self.message.as_str().as_bytes_vec()
    }

    /// The four big-endian bytes of the pid prefix; `None` goes out as zero.
    pub fn marshal_sup_pid(&self) -> (r: Vec<u8>)
        ensures
            r@ == spec_pid_bytes(self.sup_pid),
    {
        let p: u32 = match self.sup_pid {
            Some(p) => p,
            None => 0,
        };
        let mut v = Vec::new();
        v.push((p >> 24u32) as u8);
        v.push((p >> 16u32) as u8);
        v.push((p >> 8u32) as u8);
        v.push(p as u8);
        assert(v@ =~= spec_pid_bytes(self.sup_pid));
        v
    }

    /// Encode the response: pid prefix followed by the message bytes.
    pub fn marshal(&self) -> (r: Vec<u8>)
        ensures
            r@ == spec_marshal_response(self.message@, self.sup_pid),
    {
        let mut v = self.marshal_sup_pid();
        let mut m = self.marshal_msg();
        v.append(&mut m);
        assert(v@ =~= spec_marshal_response(self.message@, self.sup_pid));
        v
    }

    /// Decode the message suffix of a response frame (everything after the
    /// four pid bytes).
    pub fn unmarshal_msg(v: Vec<u8>) -> (r: Result<String, CodecError>)
        ensures
            match r {
                Ok(s) => valid_utf8(v@) && s@ == decode_utf8(v@),
                Err(e) => e == CodecError::InvalidUtf8 && !valid_utf8(v@),
            },
    {
        match string_from_utf8(v) {
            Some(s) => Ok(s),
            None => Err(CodecError::InvalidUtf8),
        }
    }

    /// Decode the pid prefix of a response frame.
    pub fn unmarshal_sup_pid(v: &Vec<u8>) -> (r: Result<Option<u32>, CodecError>)
        ensures
            match r {
                Ok(pid) => v@.len() >= 4 && pid == spec_normalize_pid(spec_raw_pid_of_bytes(v@)),
                Err(e) => e == CodecError::InvalidEncoding && v@.len() < 4,
            },
    {
        if v.len() < 4 {
            return Err(CodecError::InvalidEncoding);
        }
        let raw: u32 = ((v[0] as u32) << 24u32) | ((v[1] as u32) << 16u32) | ((v[2] as u32)
            << 8u32) | (v[3] as u32);
        if raw == 0 {
            Ok(None)
        } else {
            Ok(Some(raw))
        }
    }

    /// Decode a whole buffered response frame.
    pub fn unmarshal(v: &Vec<u8>) -> (r: Result<Response, CodecError>)
        ensures
            match r {
                Ok(resp) => spec_unmarshal_response(v@) == Ok::<_, CodecError>(
                    (resp.message@, resp.sup_pid),
                ),
                Err(e) => spec_unmarshal_response(v@) == Err::<(Seq<char>, Option<u32>), _>(e),
            },
    {
        let pid = match Self::unmarshal_sup_pid(v) {
            Ok(p) => p,
            Err(e) => {
                return Err(e);
            },
        };
        let mut tail: Vec<u8> = Vec::new();
        let mut i: usize = 4;
        while i < v.len()
            invariant
                4 <= i <= v@.len(),
                tail@ == v@.subrange(4, i as int),
            decreases v@.len() - i,
        {
            tail.push(v[i]);
            i += 1;
        }
        assert(tail@ =~= v@.skip(4));
        match Self::unmarshal_msg(tail) {
            Ok(message) => Ok(Response { message, sup_pid: pid }),
            Err(e) => Err(e),
        }
    }
}

/// The pid prefix survives the trip through its four wire bytes.
pub proof fn lemma_pid_round_trip(pid: Option<u32>)
    ensures
        spec_raw_pid_of_bytes(spec_pid_bytes(pid)) == spec_raw_pid(pid),
{
    let p = spec_raw_pid(pid);
    assert((((p >> 24u32) as u8 as u32) << 24u32) | (((p >> 16u32) as u8 as u32) << 16u32) | (((p
        >> 8u32) as u8 as u32) << 8u32) | (p as u8 as u32) == p) by (bit_vector);
}

/// Codec round trip for responses: decoding an encoded response reproduces
/// the message exactly and the pid up to the documented wire quirk — a pid
/// of zero means "no pid", so `Some(0)` comes back as `None`.
pub proof fn lemma_response_round_trip(message: Seq<char>, pid: Option<u32>)
    ensures
        spec_unmarshal_response(spec_marshal_response(message, pid)) == Ok::<_, CodecError>(
            (message, spec_normalize_pid(spec_raw_pid(pid))),
        ),
        pid != Some(0u32) ==> spec_normalize_pid(spec_raw_pid(pid)) == pid,
{
    let b = spec_marshal_response(message, pid);
    assert(b.skip(4) =~= encode_utf8(message));
    encode_utf8_valid_utf8(message);
    encode_utf8_decode_utf8(message);
    assert(b.subrange(0, 4) =~= spec_pid_bytes(pid));
    lemma_pid_round_trip(pid);
    assert(spec_raw_pid_of_bytes(b) == spec_raw_pid_of_bytes(spec_pid_bytes(pid)));
}

} // verus!
