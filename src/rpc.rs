use vstd::prelude::*;
use vstd::string::*;

verus! {

/// Version tag carried by every reply.
pub open spec fn protocol_version() -> Seq<char> {
    seq!['2', '.', '0']
}

/// The error object of a failed reply: a numeric code, a fixed message that
/// goes with the code, and free text describing the failure.
pub struct JsonRpcError {
    pub code: i64,
    pub message: String,
    pub data: String,
}

/// The message that goes with each error code.
pub open spec fn error_message(code: int) -> Seq<char> {
    if code == -32700 {
        "Parse error"@
    } else if code == -32600 {
        "Invalid Request"@
    } else if code == -32601 {
        "Invalid Method"@
    } else if code == -32602 {
        "Invalid Parameters of request"@
    } else if code == -32603 {
        "Internal error"@
    } else if code == 1 {
        "Api logic error"@
    } else {
        "unhandled error"@
    }
}

/// An error object with `code`, its message and `data`.
pub open spec fn is_error(e: JsonRpcError, code: int, data: Seq<char>) -> bool {
    &&& e.code == code
    &&& e.message@ == error_message(code)
    &&& e.data@ == data
}

/// The request could not be decoded as JSON.
pub fn parse_error(data: String) -> (r: JsonRpcError)
    ensures
        is_error(r, -32700, data@),
{
    JsonRpcError { code: -32700, message: String::from_str("Parse error"), data }
}

/// The request was JSON but not a valid batch.
pub fn invalid_request(data: String) -> (r: JsonRpcError)
    ensures
        is_error(r, -32600, data@),
{
    JsonRpcError { code: -32600, message: String::from_str("Invalid Request"), data }
}

/// A device was asked for an operation it does not have.
pub fn invalid_method(data: String) -> (r: JsonRpcError)
    ensures
        is_error(r, -32601, data@),
{
    JsonRpcError { code: -32601, message: String::from_str("Invalid Method"), data }
}

/// The parameters of a command were malformed.
pub fn invalid_param(data: String) -> (r: JsonRpcError)
    ensures
        is_error(r, -32602, data@),
{
    JsonRpcError {
        code: -32602,
        message: String::from_str("Invalid Parameters of request"),
        data,
    }
}

/// The command's method is not one the server knows.
pub fn internal_error(data: String) -> (r: JsonRpcError)
    ensures
        is_error(r, -32603, data@),
{
    JsonRpcError { code: -32603, message: String::from_str("Internal error"), data }
}

/// The home refused the operation (a missing or duplicate room or device).
pub fn api_error(data: String) -> (r: JsonRpcError)
    ensures
        is_error(r, 1, data@),
{
    JsonRpcError { code: 1, message: String::from_str("Api logic error"), data }
}

/// Any other failure.
pub fn unhandled_error(data: String) -> (r: JsonRpcError)
    ensures
        is_error(r, 804, data@),
{
    JsonRpcError { code: 804, message: String::from_str("unhandled error"), data }
}

/// The payload of a successful reply.
pub struct Result {
    pub data: String,
}

/// A successful reply to the command with identifier `id`.
pub struct JsonRpcReply {
    pub jsonrpc: String,
    pub id: String,
    pub result: Result,
}

/// A failed reply to the command with identifier `id`.
pub struct JsonRpcErrorReply {
    pub jsonrpc: String,
    pub id: String,
    pub error: JsonRpcError,
}

pub fn reply(id: String, result: String) -> (r: JsonRpcReply)
    ensures
        r.id@ == id@,
        r.jsonrpc@ == protocol_version(),
        r.result.data@ == result@,
{
    let jsonrpc = String::from_str("2.0");
    proof {
        reveal_strlit("2.0");
    }
    JsonRpcReply { id, jsonrpc, result: Result { data: result } }
}

pub fn reply_error(id: String, error: JsonRpcError) -> (r: JsonRpcErrorReply)
    ensures
        r.id@ == id@,
        r.jsonrpc@ == protocol_version(),
        r.error == error,
{
    let jsonrpc = String::from_str("2.0");
    proof {
        reveal_strlit("2.0");
    }
    JsonRpcErrorReply { id, jsonrpc, error }
}

/// One entry of a reply batch.
pub enum Reply {
    Success(JsonRpcReply),
    Failure(JsonRpcErrorReply),
}

impl Reply {
    /// The identifier of the command this reply answers.
    pub open spec fn id_view(self) -> Seq<char> {
        match self {
            Reply::Success(r) => r.id@,
            Reply::Failure(r) => r.id@,
        }
    }

    /// The code of the reply: 0 for success.
    pub open spec fn code_view(self) -> i64 {
        match self {
            Reply::Success(_) => 0,
            Reply::Failure(r) => r.error.code,
        }
    }

    /// The text of the reply: the result data, or the error data.
    pub open spec fn text_view(self) -> Seq<char> {
        match self {
            Reply::Success(r) => r.result.data@,
            Reply::Failure(r) => r.error.data@,
        }
    }

    /// A well-formed reply with identifier `id`, code `code` and text `text`.
    pub open spec fn is_reply(self, id: Seq<char>, code: int, text: Seq<char>) -> bool {
        match self {
            Reply::Success(r) => code == 0 && r.id@ == id && r.jsonrpc@ == protocol_version()
                && r.result.data@ == text,
            Reply::Failure(r) => code != 0 && r.id@ == id && r.jsonrpc@ == protocol_version()
                && is_error(r.error, code, text),
        }
    }

    pub fn code(&self) -> (r: i64)
        ensures
            r == self.code_view(),
    {
        match self {
            Reply::Success(_) => 0,
            Reply::Failure(r) => r.error.code,
        }
    }
}

/// The code a reply carries for an outcome code: the known codes stand, any
/// other becomes the catch-all 804.
pub open spec fn reply_code(code: int) -> int {
    if code == 0 || code == 1 || code == -32601 || code == -32602 || code == -32603 {
        code
    } else {
        804
    }
}

/// Packs the outcome of one command: code 0 is a success, any other code an
/// error whose data is `text`.
pub fn pack_reply(id: String, code: i64, text: String) -> (r: Reply)
    ensures
        r.is_reply(id@, reply_code(code as int), text@),
{
    if code == 0 {
        Reply::Success(reply(id, text))
    } else if code == 1 {
        Reply::Failure(reply_error(id, api_error(text)))
    } else if code == -32601 {
        Reply::Failure(reply_error(id, invalid_method(text)))
    } else if code == -32602 {
        Reply::Failure(reply_error(id, invalid_param(text)))
    } else if code == -32603 {
        Reply::Failure(reply_error(id, internal_error(text)))
    } else {
        Reply::Failure(reply_error(id, unhandled_error(text)))
    }
}

} // verus!
