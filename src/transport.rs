use vstd::prelude::*;
use vstd::string::*;
use vstd::utf8::{decode_utf8, valid_utf8};

verus! {

/// Failure to set up a connection.
pub enum ConnectError {
    /// The peer did not answer the opening exchange as expected.
    BadHandshake,
    /// The network failed; the system's message.
    Io(String),
}

/// Failure to send a message.
pub enum SendError {
    Io(String),
}

/// Failure to receive a message.
pub enum RecvError {
    /// The message's body is not UTF-8.
    BadEncoding,
    Io(String),
}

/// Failure of a request/reply exchange, on either side of it.
pub enum RequestError {
    Send(SendError),
    Recv(RecvError),
}

/// What a client sends first.
pub open spec fn client_hello() -> Seq<u8> {
    seq![99u8, 108u8, 110u8, 116u8]
}

/// What a server answers to a client's greeting.
pub open spec fn server_hello() -> Seq<u8> {
    seq![115u8, 101u8, 114u8, 118u8]
}

/// `n` as four bytes, most significant first.
pub open spec fn be32(n: u32) -> Seq<u8> {
    seq![
        (n / 0x1000000) as u8,
        ((n / 0x10000) % 0x100) as u8,
        ((n / 0x100) % 0x100) as u8,
        (n % 0x100) as u8,
    ]
}

/// The number that four bytes stand for, most significant first.
pub open spec fn be32_value(b: Seq<u8>) -> int {
    b[0] as int * 0x1000000 + b[1] as int * 0x10000 + b[2] as int * 0x100 + b[3] as int
}

/// A frame: the body's length in four bytes, then the body.
pub open spec fn frame(body: Seq<u8>) -> Seq<u8> {
    be32(body.len() as u32) + body
}

/// The bytes a client greets with.
pub fn client_hello_bytes() -> (r: Vec<u8>)
    ensures
        r@ == client_hello(),
{
    let r = vec![99u8, 108u8, 110u8, 116u8];
    assert(r@ =~= client_hello());
    r
}

/// The bytes a server answers a greeting with.
pub fn server_hello_bytes() -> (r: Vec<u8>)
    ensures
        r@ == server_hello(),
{
    let r = vec![115u8, 101u8, 114u8, 118u8];
    assert(r@ =~= server_hello());
    r
}

fn bytes_equal(a: &[u8], b: &Vec<u8>) -> (r: bool)
    ensures
        r == (a@ == b@),
{
    if a.len() != b.len() {
        return false;
    }
    let mut i: usize = 0;
    while i < a.len()
        invariant
            a@.len() == b@.len(),
            i <= a@.len(),
            forall|k: int| 0 <= k < i ==> a@[k] == b@[k],
        decreases a@.len() - i,
    {
        if a[i] != b[i] {
            return false;
        }
        i = i + 1;
    }
    assert(a@ =~= b@);
    true
}

/// Checks a server's answer to the client's greeting.
pub fn check_server_hello(received: &[u8]) -> (r: core::result::Result<(), ConnectError>)
    ensures
        r is Ok <==> received@ == server_hello(),
        r matches Err(e) ==> e is BadHandshake,
{
    if bytes_equal(received, &server_hello_bytes()) {
        Ok(())
    } else {
        Err(ConnectError::BadHandshake)
    }
}

/// Checks a client's greeting.
pub fn check_client_hello(received: &[u8]) -> (r: core::result::Result<(), ConnectError>)
    ensures
        r is Ok <==> received@ == client_hello(),
        r matches Err(e) ==> e is BadHandshake,
{
    if bytes_equal(received, &client_hello_bytes()) {
        Ok(())
    } else {
        Err(ConnectError::BadHandshake)
    }
}

/// Frames `body`; `None` where its length does not fit in four bytes.
pub fn encode_frame(body: &str) -> (r: Option<Vec<u8>>)
    ensures
        r is None <==> body.spec_bytes().len() > u32::MAX,
        r matches Some(f) ==> f@ == frame(body.spec_bytes()),
{
    let bytes = body.as_bytes();
    if bytes.len() > 0xffff_ffffusize {
        return None;
    }
    let n = bytes.len() as u32;
    let mut out: Vec<u8> = Vec::new();
    out.push((n / 0x1000000) as u8);
    out.push(((n / 0x10000) % 0x100) as u8);
    out.push(((n / 0x100) % 0x100) as u8);
    out.push((n % 0x100) as u8);
    let mut i: usize = 0;
    while i < bytes.len()
        invariant
            i <= bytes@.len(),
            bytes@ == body.spec_bytes(),
            n as int == bytes@.len(),
            out@ == be32(n) + bytes@.take(i as int),
        decreases bytes@.len() - i,
    {
        out.push(bytes[i]);
        assert(out@ =~= be32(n) + bytes@.take(i + 1));
        i = i + 1;
    }
    assert(bytes@.take(i as int) =~= bytes@);
    Some(out)
}

/// The body length that a frame's four-byte header gives.
pub fn frame_length(header: &[u8]) -> (r: u32)
    requires
        header@.len() == 4,
    ensures
        r as int == be32_value(header@),
{
    let b0 = header[0] as u32;
    let b1 = header[1] as u32;
    let b2 = header[2] as u32;
    let b3 = header[3] as u32;
    assert(b0 * 0x1000000 + b1 * 0x10000 + b2 * 0x100 + b3 <= u32::MAX) by (nonlinear_arith)
        requires
            b0 < 256,
            b1 < 256,
            b2 < 256,
            b3 < 256,
    ;
    b0 * 0x1000000 + b1 * 0x10000 + b2 * 0x100 + b3
}

/// Relies on `String::from_utf8`, which succeeds exactly on UTF-8 bytes and
/// then holds the characters they encode.
#[verifier::external_body]
fn utf8_text(bytes: Vec<u8>) -> (r: Option<String>)
    ensures
        r is Some <==> valid_utf8(bytes@),
        r matches Some(s) ==> s@ == decode_utf8(bytes@),
{
    String::from_utf8(bytes).ok()
}

/// The text of a received body.
pub fn decode_body(body: Vec<u8>) -> (r: core::result::Result<String, RecvError>)
    ensures
        r is Ok <==> valid_utf8(body@),
        r matches Ok(s) ==> s@ == decode_utf8(body@),
        r matches Err(e) ==> e is BadEncoding,
{
    match utf8_text(body) {
        Some(s) => Ok(s),
        None => Err(RecvError::BadEncoding),
    }
}

impl ConnectError {
    /// The message of the error.
    pub fn to_text(&self) -> (r: String)
        ensures
            self is BadHandshake ==> r@ == "bad handshake"@,
            self matches ConnectError::Io(m) ==> r@ == m@,
    {
        match self {
            ConnectError::BadHandshake => String::from_str("bad handshake"),
            ConnectError::Io(m) => m.clone(),
        }
    }
}

impl RecvError {
    /// The message of the error.
    pub fn to_text(&self) -> (r: String)
        ensures
            self is BadEncoding ==> r@ == "bad encoding"@,
            self matches RecvError::Io(m) ==> r@ == m@,
    {
        match self {
            RecvError::BadEncoding => String::from_str("bad encoding"),
            RecvError::Io(m) => m.clone(),
        }
    }
}

} // verus!
