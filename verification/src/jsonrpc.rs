use vstd::prelude::*;

use crate::error::Error;

verus! {

/// The radio address scanned when a `scan` request names none.
pub open spec fn default_address_spec() -> Seq<u8> {
    seq![0xe7u8, 0xe7u8, 0xe7u8, 0xe7u8, 0xe7u8]
}

/// Address used by `scan` when the request gives no address: five bytes `0xE7`.
pub fn default_address() -> (address: [u8; 5])
    ensures
        address@ == default_address_spec(),
{
    let address: [u8; 5] = [0xe7, 0xe7, 0xe7, 0xe7, 0xe7];
    assert(address@ =~= default_address_spec());
    address
}

/// The methods a client can call.
#[derive(Debug, Clone, PartialEq, Eq)]
pub enum Methods {
    GetVersion,
    Scan { address: [u8; 5] },
    ScanSelected { uris: Vec<String> },
    Connect { uri: String },
    GetConnectionStatus { uri: String },
    Disconnect { uri: String },
}

/// What a method that succeeded returns.
#[derive(Debug, Clone, PartialEq, Eq)]
pub enum Results {
    GetVersion(String),
    Scan { found: Vec<String> },
    ScanSelected { found: Vec<String> },
    Connect { connected: bool, status: String, push: u16, pull: u16 },
    GetConnectionStatus { connected: bool, status: String },
    Disconnect,
}

/// A request's identifier, echoed in its response.
#[derive(Debug, Clone, PartialEq, Eq)]
pub enum Id {
    String(String),
    Number(i64),
}

/// A JSON-RPC request.
#[derive(Debug, Clone, PartialEq, Eq)]
pub struct Request {
    pub jsonrpc: String,
    pub method: Methods,
    pub id: Option<Id>,
}

/// The result or the error of a response.
#[derive(Debug, Clone, PartialEq, Eq)]
pub enum ResponseBody {
    Result(Results),
    Error { code: i64, message: String },
}

/// A JSON-RPC response.
#[derive(Debug, Clone, PartialEq, Eq)]
pub struct Response {
    pub jsonrpc: String,
    pub body: ResponseBody,
    pub id: Option<Id>,
}

/// Error code of a request that could not be read.
pub const PARSE_ERROR_CODE: i64 = -32700;

/// Error code of a request whose method failed.
pub const METHOD_ERROR_CODE: i64 = 1;

/// The protocol version every response carries.
pub open spec fn protocol_version() -> Seq<char> {
    "2.0"@
}

/// The response to a request that could not be read: it carries the
/// reader's message under the parse-error code, and no id.
pub fn parse_failure_response(message: String) -> (response: Response)
    ensures
        response.jsonrpc@ == protocol_version(),
        response.id is None,
        response.body == (ResponseBody::Error { code: PARSE_ERROR_CODE, message }),
{
    Response {
        jsonrpc: String::from_str("2.0"),
        body: ResponseBody::Error { code: PARSE_ERROR_CODE, message },
        id: None,
    }
}

/// The response to a request that was read: the method's result, or its
/// error rendered under the method-error code; the request's id is echoed.
pub fn method_response(id: Option<Id>, outcome: Result<Results, Error>) -> (response: Response)
    ensures
        response.jsonrpc@ == protocol_version(),
        response.id == id,
        match outcome {
            Ok(result) => response.body == ResponseBody::Result(result),
            Err(error) => response.body matches ResponseBody::Error { code, message }
                && code == METHOD_ERROR_CODE && message@ == error.rendered(),
        },
{
    let body = match outcome {
        Ok(result) => ResponseBody::Result(result),
        Err(error) => ResponseBody::Error { code: METHOD_ERROR_CODE, message: error.describe() },
    };
    Response { jsonrpc: String::from_str("2.0"), body, id }
}

} // verus!
