//! The messages exchanged with the helper that works on the network, and
//! how they are cut out of the bytes of its socket: a message ends with two
//! line feeds.

use crate::error::Error;
use vstd::prelude::*;
use vstd::string::*;

verus! {

/// A message to or from the helper.
#[derive(Debug, Clone, Copy, PartialEq, Eq, PartialOrd, Ord, Structural)]
pub enum HelperMessage {
    Request(HelperRequest),
    Response(HelperResponse),
}

/// What the helper can be asked.
#[derive(Debug, Clone, Copy, PartialEq, Eq, PartialOrd, Ord, Structural)]
pub enum HelperRequest {
    Ping,
}

/// What the helper answers.
#[derive(Debug, Clone, Copy, PartialEq, Eq, PartialOrd, Ord, Structural)]
pub enum HelperResponse {
    Pong,
}

/// The socket of the helper of the user `uid`.
pub fn socket_filename(uid: u32) -> (path: String)
    ensures
        path@ == "/tmp/emu-"@ + crate::text::decimal(uid as nat) + ".sock"@,
{
    let mut path = String::from_str("/tmp/emu-");
    crate::text::push_decimal(&mut path, uid as u64);
    path.append(".sock");
    path
}

/// What the helper answers to `message`: a request is answered, a response
/// is out of order.
pub fn server_reply(message: HelperMessage) -> (out: Result<Option<HelperMessage>, Error>)
    ensures
        match message {
            HelperMessage::Request(HelperRequest::Ping) => out == Ok::<Option<HelperMessage>, Error>(
                Some(HelperMessage::Response(HelperResponse::Pong)),
            ),
            HelperMessage::Response(_) => out is Err && out->Err_0@
                == "got out-of-order response"@,
        },
{
    match message {
        HelperMessage::Request(req) => match req {
            HelperRequest::Ping => Ok(Some(HelperMessage::Response(HelperResponse::Pong))),
        },
        HelperMessage::Response(_) => Err(Error::new("got out-of-order response")),
    }
}

/// Whether the client takes `message` as an answer: a response is handed
/// on, a request is out of order.
pub fn client_accepts(message: HelperMessage) -> (out: Result<(), Error>)
    ensures
        out is Ok <==> message is Response,
        out is Err ==> out->Err_0@ == "got out-of-order response"@,
{
    match message {
        HelperMessage::Response(_) => Ok(()),
        HelperMessage::Request(_) => Err(Error::new("got out-of-order response")),
    }
}

/// Where the scan for the end of a message stands: the byte to look at
/// next, and whether the byte before it was a line feed that may be the
/// first of two.
#[derive(Debug, Clone, Copy, PartialEq, Eq, Structural)]
pub struct Scan {
    pub at: usize,
    pub half: bool,
}

/// The position of the second of the next two line feeds in a row, seen
/// from `at` on with `half` saying whether a first line feed was just seen.
pub open spec fn boundary(message: Seq<u8>, at: int, half: bool) -> Option<int>
    decreases message.len() - at,
{
    if at < 0 || at >= message.len() {
        None
    } else if message[at] == 10u8 {
        if half {
            Some(at)
        } else {
            boundary(message, at + 1, true)
        }
    } else {
        boundary(message, at + 1, false)
    }
}

impl Scan {
    /// The scan at the start of the bytes.
    pub fn start() -> (out: Self)
        ensures
            out == (Scan { at: 0, half: false }),
    {
        Scan { at: 0, half: false }
    }

    /// The end of the next candidate for a message: the position `x` of the
    /// second of two line feeds in a row, so that the bytes before `x` may
    /// be a message and the bytes from `x + 1` on follow it. With it comes
    /// the scan to go on with if those bytes turn out to be no message.
    pub fn next(&self, message: &Vec<u8>) -> (out: Option<(usize, Scan)>)
        ensures
            match out {
                Some((x, then)) => boundary(message@, self.at as int, self.half) == Some(x as int)
                    && x < message.len() && then == (Scan { at: (x + 1) as usize, half: false }),
                None => boundary(message@, self.at as int, self.half) is None,
            },
    {
        let mut at: usize = self.at;
        let mut half: bool = self.half;
        while at < message.len()
            invariant
                boundary(message@, self.at as int, self.half) == boundary(message@, at as int, half),
            decreases message.len() - at,
        {
            if message[at] == 10 {
                if half {
                    return Some((at, Scan { at: at + 1, half: false }));
                }
                half = true;
            } else {
                half = false;
            }
            at = at + 1;
        }
        None
    }
}

/// The bytes of a message on the wire: its text and two line feeds.
pub fn framed(text: &Vec<u8>) -> (out: Vec<u8>)
    ensures
        out@ == text@ + seq![10u8, 10u8],
{
    let mut out = text.clone();
    out.push(10);
    out.push(10);
    assert(out@ =~= text@ + seq![10u8, 10u8]);
    out
}

} // verus!
