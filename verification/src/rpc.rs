//! JSON-RPC requests, the MCP calls in them, and responses.
use crate::json::{contents, error_message, Json};
use serde_json::Value;
use std::collections::HashMap;
use turbomcp_protocol::jsonrpc::{JsonRpcError, JsonRpcErrorCode, JsonRpcRequest, JsonRpcResponse};
use turbomcp_protocol::types::{CallToolRequest, GetPromptRequest, ReadResourceRequest};
use turbomcp_protocol::MessageId;
use vstd::prelude::*;

verus! {

/// `turbomcp_protocol::MessageId`, the identifier of a request, carried through
/// to its response.
#[verifier::external_type_specification]
#[verifier::external_body]
pub struct ExMessageId(MessageId);

/// `turbomcp_protocol::jsonrpc::JsonRpcResponse`, a response to be sent.
#[verifier::external_type_specification]
#[verifier::external_body]
pub struct ExJsonRpcResponse(JsonRpcResponse);

/// A JSON-RPC request.
pub struct Request {
    pub id: MessageId,
    pub method: String,
    pub params: Option<Value>,
}

/// What a JSON-RPC request says.
pub struct RequestData {
    pub id: MessageId,
    pub method: Seq<char>,
    pub params: Option<Json>,
}

/// What optional parameters hold.
pub open spec fn params_data(params: Option<Value>) -> Option<Json> {
    match params {
        Some(p) => Some(contents(p)),
        None => None,
    }
}

impl View for Request {
    type V = RequestData;

    open spec fn view(&self) -> RequestData {
        RequestData { id: self.id, method: self.method@, params: params_data(self.params) }
    }
}

/// The JSON-RPC request that a JSON value decodes to, or the message why not.
pub uninterp spec fn decoded_request(j: Json) -> Result<RequestData, Seq<char>>;

/// `serde_json::from_value` for a `JsonRpcRequest`: the request, or the error,
/// depends on what the value holds alone.
#[verifier::external_body]
pub(crate) fn decode_request(v: Value) -> (r: Result<Request, serde_json::Error>)
    ensures
        match r {
            Ok(q) => decoded_request(contents(v)) == Ok::<RequestData, Seq<char>>(q@),
            Err(e) => decoded_request(contents(v)) == Err::<RequestData, Seq<char>>(error_message(e)),
        },
{
    match serde_json::from_value::<JsonRpcRequest>(v) {
        Ok(q) => Ok(Request { id: q.id, method: q.method, params: q.params }),
        Err(e) => Err(e),
    }
}

// --- MCP calls ---

/// What a map of arguments holds.
pub uninterp spec fn argument_map(args: HashMap<String, Value>) -> Map<Seq<char>, Json>;

/// What optional arguments hold.
pub open spec fn arguments_data(args: Option<HashMap<String, Value>>) -> Option<Map<Seq<char>, Json>> {
    match args {
        Some(a) => Some(argument_map(a)),
        None => None,
    }
}

/// A tool or a prompt, by name, and the arguments for it.
pub struct Invocation {
    pub name: String,
    pub arguments: Option<HashMap<String, Value>>,
}

/// What an invocation says.
pub struct InvocationData {
    pub name: Seq<char>,
    pub arguments: Option<Map<Seq<char>, Json>>,
}

impl View for Invocation {
    type V = InvocationData;

    open spec fn view(&self) -> InvocationData {
        InvocationData { name: self.name@, arguments: arguments_data(self.arguments) }
    }
}

/// The tool call that parameters decode to, or the message why not.
pub uninterp spec fn decoded_tool_call(params: Json) -> Result<InvocationData, Seq<char>>;

/// The prompt request that parameters decode to, or the message why not.
pub uninterp spec fn decoded_prompt(params: Json) -> Result<InvocationData, Seq<char>>;

/// The resource URI that parameters decode to, or the message why not.
pub uninterp spec fn decoded_resource(params: Json) -> Result<Seq<char>, Seq<char>>;

/// `serde_json::from_value` for a `CallToolRequest`: name and arguments of the
/// tool call, or the error, depend on what the parameters hold alone.
#[verifier::external_body]
pub(crate) fn decode_tool_call(params: &Value) -> (r: Result<Invocation, serde_json::Error>)
    ensures
        match r {
            Ok(c) => decoded_tool_call(contents(*params)) == Ok::<InvocationData, Seq<char>>(
                InvocationData {
                    name: c.name@,
                    arguments: match c.arguments {
                        Some(a) => Some(argument_map(a)),
                        None => None,
                    },
                },
            ),
            Err(e) => decoded_tool_call(contents(*params)) == Err::<InvocationData, Seq<char>>(error_message(e)),
        },
{
    match serde_json::from_value::<CallToolRequest>(params.clone()) {
        Ok(c) => Ok(Invocation { name: c.name, arguments: c.arguments }),
        Err(e) => Err(e),
    }
}

/// `serde_json::from_value` for a `GetPromptRequest`: name and arguments of the
/// prompt, or the error, depend on what the parameters hold alone.
#[verifier::external_body]
pub(crate) fn decode_prompt(params: &Value) -> (r: Result<Invocation, serde_json::Error>)
    ensures
        match r {
            Ok(c) => decoded_prompt(contents(*params)) == Ok::<InvocationData, Seq<char>>(
                InvocationData {
                    name: c.name@,
                    arguments: match c.arguments {
                        Some(a) => Some(argument_map(a)),
                        None => None,
                    },
                },
            ),
            Err(e) => decoded_prompt(contents(*params)) == Err::<InvocationData, Seq<char>>(error_message(e)),
        },
{
    match serde_json::from_value::<GetPromptRequest>(params.clone()) {
        Ok(c) => Ok(Invocation { name: c.name, arguments: c.arguments }),
        Err(e) => Err(e),
    }
}

/// `serde_json::from_value` for a `ReadResourceRequest`: the URI, or the error,
/// depends on what the parameters hold alone.
#[verifier::external_body]
pub(crate) fn decode_resource(params: &Value) -> (r: Result<String, serde_json::Error>)
    ensures
        match r {
            Ok(u) => decoded_resource(contents(*params)) == Ok::<Seq<char>, Seq<char>>(u@),
            Err(e) => decoded_resource(contents(*params)) == Err::<Seq<char>, Seq<char>>(error_message(e)),
        },
{
    match serde_json::from_value::<ReadResourceRequest>(params.clone()) {
        Ok(q) => Ok(q.uri.into_inner()),
        Err(e) => Err(e),
    }
}

// --- Responses ---

/// What the error in a JSON-RPC response says.
pub struct ErrorData {
    pub code: int,
    pub message: Seq<char>,
    pub data: Option<Json>,
}

/// What a JSON-RPC response says: to which request (none for a text that is
/// no request), and a result or an error.
pub struct ResponseData {
    pub id: Option<MessageId>,
    pub outcome: Result<Json, ErrorData>,
}

/// What a `JsonRpcResponse` says.
pub uninterp spec fn response_data(r: JsonRpcResponse) -> ResponseData;

/// The text that `serde_json::to_string` writes for a response, if it can.
pub uninterp spec fn response_text(d: ResponseData) -> Option<Seq<char>>;

/// `JsonRpcResponse::success`: the response to request `id` with a result.
#[verifier::external_body]
pub(crate) fn success_response(result: Value, id: MessageId) -> (r: JsonRpcResponse)
    ensures
        response_data(r) == (ResponseData { id: Some(id), outcome: Ok(contents(result)) }),
{
    JsonRpcResponse::success(result, id)
}

/// `JsonRpcResponse::error_response`: the response to request `id` with an error
/// that has a code and a message and no further data.
#[verifier::external_body]
pub(crate) fn error_response(code: i32, message: String, id: MessageId) -> (r: JsonRpcResponse)
    ensures
        response_data(r) == (ResponseData {
            id: Some(id),
            outcome: Err(ErrorData { code: code as int, message: message@, data: None }),
        }),
{
    JsonRpcResponse::error_response(JsonRpcError { code, message, data: None }, id)
}

/// `JsonRpcResponse::parse_error` without a message of its own: the response
/// to no request in particular, with code -32700 and the standard message.
#[verifier::external_body]
pub(crate) fn parse_error_response() -> (r: JsonRpcResponse)
    ensures
        response_data(r) == (ResponseData {
            id: None,
            outcome: Err(ErrorData { code: -32700, message: "Parse error"@, data: None }),
        }),
{
    JsonRpcResponse::parse_error(None)
}

/// `JsonRpcErrorCode::code` of `InternalError`: -32603.
#[verifier::external_body]
pub(crate) fn internal_error_code() -> (code: i32)
    ensures
        code == -32603,
{
    JsonRpcErrorCode::InternalError.code()
}

/// `serde_json::to_string` of a `JsonRpcResponse`: the text depends on what the
/// response says alone.
#[verifier::external_body]
pub(crate) fn response_to_string(r: &JsonRpcResponse) -> (s: Result<String, serde_json::Error>)
    ensures
        match s {
            Ok(t) => response_text(response_data(*r)) == Some(t@),
            Err(_) => response_text(response_data(*r)) is None,
        },
{
    serde_json::to_string(r)
}

} // verus!
