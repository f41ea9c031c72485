//! What the benchmarking proxy decides: what becomes of each line of input,
//! which backend call a request asks for, what is recorded of a call and what
//! the client is told.
use crate::clock::{elapsed, utc_now, Span, Timestamp};
use crate::config::{backend_name, BenchConfig};
use crate::json::{
    contents, error_message, error_to_string, is_null, json_len, json_object, json_size, json_string, json_text,
    member, member_of, members, parse_json, parsed_json, single_member, text_size, Json,
};
use crate::metrics::{
    backend_sums_up, describes_call, measured, recorded, timed_from, tool_calls, BackendSummary, CallRecord, Measure, MetricsStore,
    MAX_RECORDS, TOOL_CALL,
};
use crate::report::{session_prefix, short_session_id};
use crate::rpc::{
    argument_map, decode_prompt, decode_request, decode_resource, decode_tool_call, decoded_prompt, decoded_request,
    decoded_resource, decoded_tool_call, error_response, internal_error_code, params_data, parse_error_response,
    response_data, response_text, response_to_string, success_response, ErrorData, Invocation, InvocationData, Request, RequestData,
    ResponseData,
};
use crate::text::{option_text, same_text, texts, trimmed};
use serde_json::Value;
use std::time::Instant;
use turbomcp_protocol::MessageId;
use vstd::prelude::*;
use vstd::string::*;
use vstd::utf8::encode_utf8;

verus! {

/// Maximum input line size (16 MB): prevents memory exhaustion from oversized input.
pub const MAX_LINE_BYTES: usize = 16 * 1024 * 1024;

// --- Replies ---

/// What a client is told.
pub enum Reply {
    /// The input was no request.
    ParseError,
    /// The result of request `id`.
    Success { result: Value, id: MessageId },
    /// Request `id` failed. What went wrong is not told.
    InternalError { id: MessageId },
}

/// The reply to input that is no request.
pub open spec fn parse_error() -> ResponseData {
    ResponseData { id: None, outcome: Err(ErrorData { code: -32700, message: "Parse error"@, data: None }) }
}

/// The reply to a request with its result.
pub open spec fn success(result: Json, id: MessageId) -> ResponseData {
    ResponseData { id: Some(id), outcome: Ok(result) }
}

/// The reply to a request that failed.
pub open spec fn internal_error(id: MessageId) -> ResponseData {
    ResponseData { id: Some(id), outcome: Err(ErrorData { code: -32603, message: "Internal error"@, data: None }) }
}

impl View for Reply {
    type V = ResponseData;

    open spec fn view(&self) -> ResponseData {
        match *self {
            Reply::ParseError => parse_error(),
            Reply::Success { result, id } => success(contents(result), id),
            Reply::InternalError { id } => internal_error(id),
        }
    }
}

/// The line that is written for a response text.
pub open spec fn reply_line(text: Option<Seq<char>>) -> Option<Seq<char>> {
    match text {
        Some(t) => Some(t.push('\n')),
        None => None,
    }
}

/// The line of output for a response text; none where there is no text.
pub fn output_line(text: Result<String, serde_json::Error>) -> (line: Option<String>)
    ensures
        match text {
            Ok(t) => line matches Some(l) && reply_line(Some(t@)) == Some(l@) && l@ == t@.push('\n'),
            Err(_) => line is None,
        },
{
    match text {
        Ok(t) => {
            let mut line: String = t;
            line.push('\n');
            Some(line)
        },
        Err(_) => None,
    }
}

impl Reply {
    /// The line of output for a reply; none where it has no JSON text.
    pub fn to_line(self) -> (line: Option<String>)
        ensures
            match line {
                Some(l) => reply_line(response_text(self@)) == Some(l@),
                None => reply_line(response_text(self@)) is None,
            },
            match line {
                Some(l) => l@.len() > 0 && l@.last() == '\n' && response_text(
                    match self {
                        Reply::ParseError => (ResponseData {
                            id: None,
                            outcome: Err(ErrorData { code: -32700, message: "Parse error"@, data: None }),
                        }),
                        Reply::Success { result, id } => (ResponseData {
                            id: Some(id),
                            outcome: Ok(contents(result)),
                        }),
                        Reply::InternalError { id } => (ResponseData {
                            id: Some(id),
                            outcome: Err(ErrorData { code: -32603, message: "Internal error"@, data: None }),
                        }),
                    },
                ) == Some(l@.drop_last()),
                None => true,
            },
    {
        let response = match self {
            Reply::ParseError => parse_error_response(),
            Reply::Success { result, id } => success_response(result, id),
            Reply::InternalError { id } => error_response(internal_error_code(), "Internal error".to_owned(), id),
        };
        let line: Option<String> = output_line(response_to_string(&response));
        proof {
            let text = response_text(response_data(response));
            assert(text is Some ==> text->0.push('\n').drop_last() =~= text->0);
        }
        line
    }
}

// --- Lines of input ---

/// What is to be done about a line of input.
pub enum LineAction {
    /// Nothing: the line is blank or a notification.
    Ignore,
    /// Send a reply.
    Answer(Reply),
    /// Answer request `id` with the capabilities of the proxy.
    Initialize { id: MessageId },
    /// Pass a request on to the backends.
    Forward(Request),
}

/// What a line action says.
pub enum ActionData {
    Ignore,
    Answer(ResponseData),
    Initialize { id: MessageId },
    Forward(RequestData),
}

impl View for LineAction {
    type V = ActionData;

    open spec fn view(&self) -> ActionData {
        match *self {
            LineAction::Ignore => ActionData::Ignore,
            LineAction::Answer(r) => ActionData::Answer(r@),
            LineAction::Initialize { id } => ActionData::Initialize { id },
            LineAction::Forward(q) => ActionData::Forward(q@),
        }
    }
}

/// Whether a JSON value has an identifier, which notifications lack.
pub open spec fn has_id(j: Json) -> bool {
    match member_of(j, "id"@) {
        Some(id) => id != Json::Null,
        None => false,
    }
}

/// What a request asks for: the proxy answers `initialize` and `ping` itself.
pub open spec fn request_action(q: RequestData) -> ActionData {
    if q.method == "initialize"@ {
        ActionData::Initialize { id: q.id }
    } else if q.method == "ping"@ {
        ActionData::Answer(success(Json::Object(seq![]), q.id))
    } else {
        ActionData::Forward(q)
    }
}

/// What a JSON value asks for, given the request that it decodes to.
pub open spec fn value_action(j: Json, decoded: Result<RequestData, Seq<char>>) -> ActionData {
    if !has_id(j) {
        ActionData::Ignore
    } else {
        match decoded {
            Ok(q) => request_action(q),
            Err(_) => ActionData::Answer(parse_error()),
        }
    }
}

/// What a line of input asks for.
pub open spec fn line_action(line: Seq<char>) -> ActionData {
    if text_size(line) > MAX_LINE_BYTES {
        ActionData::Answer(parse_error())
    } else if trimmed(line).len() == 0 {
        ActionData::Ignore
    } else {
        match parsed_json(trimmed(line)) {
            Some(j) => value_action(j, decoded_request(j)),
            None => ActionData::Answer(parse_error()),
        }
    }
}

/// What to do about a decoded request.
pub fn act_on_request(decoded: Result<Request, serde_json::Error>) -> (a: LineAction)
    ensures
        a@ == (match decoded {
            Ok(q) => request_action(q@),
            Err(_) => ActionData::Answer(parse_error()),
        }),
        match decoded {
            Ok(q) => if q.method@ == "initialize"@ {
                a == (LineAction::Initialize { id: q.id })
            } else if q.method@ == "ping"@ {
                a matches LineAction::Answer(Reply::Success { result, id }) && contents(result) == Json::Object(
                    seq![],
                ) && id == q.id
            } else {
                a == LineAction::Forward(q)
            },
            Err(_) => a == LineAction::Answer(Reply::ParseError),
        },
{
    match decoded {
        Ok(q) => {
            if same_text(q.method.as_str(), "initialize") {
                LineAction::Initialize { id: q.id }
            } else if same_text(q.method.as_str(), "ping") {
                let result: Value = json_object(Vec::new());
                assert(contents(result) == Json::Object(seq![])) by {
                    assert(members(seq![]) =~= seq![]);
                }
                LineAction::Answer(Reply::Success { result, id: q.id })
            } else {
                LineAction::Forward(q)
            }
        },
        Err(_) => LineAction::Answer(Reply::ParseError),
    }
}

/// What to do about a JSON text, given what was read from it.
pub fn act_on_value(parsed: Result<Value, serde_json::Error>) -> (a: LineAction)
    ensures
        a@ == (match parsed {
            Ok(v) => value_action(contents(v), decoded_request(contents(v))),
            Err(_) => ActionData::Answer(parse_error()),
        }),
{
    match parsed {
        Ok(v) => {
            let identified: bool = match member(&v, "id") {
                Some(id) => !is_null(id),
                None => false,
            };
            if !identified {
                return LineAction::Ignore;
            }
            act_on_request(decode_request(v))
        },
        Err(_) => LineAction::Answer(Reply::ParseError),
    }
}

/// What to do about a line of input.
pub fn act_on_line(line: &str) -> (a: LineAction)
    ensures
        a@ == line_action(line@),
{
    if line.len() > MAX_LINE_BYTES {
        return LineAction::Answer(Reply::ParseError);
    }
    let text: &str = line.trim();
    if text.is_empty() {
        return LineAction::Ignore;
    }
    act_on_value(parse_json(text))
}

/// What the input has come to.
pub enum Input {
    Line(String),
    EndOfInput,
    ReadError,
    /// The process was asked to shut down.
    Interrupted,
}

/// What the frontend does next.
pub enum Step {
    Act(LineAction),
    /// Stop, and say so where the process was interrupted.
    Stop { notice: Option<String> },
}

/// What the frontend does about its input: it acts on lines, and stops on
/// anything else.
pub fn next_step(input: Input) -> (s: Step)
    ensures
        match input {
            Input::Line(line) => s matches Step::Act(a) && a@ == line_action(line@),
            Input::Interrupted => s matches Step::Stop { notice: Some(n) } && n@
                == "\n[turbobench] interrupted, generating report..."@,
            _ => s == (Step::Stop { notice: None }),
        },
{
    match input {
        Input::Line(line) => Step::Act(act_on_line(line.as_str())),
        Input::EndOfInput => Step::Stop { notice: None },
        Input::ReadError => Step::Stop { notice: None },
        Input::Interrupted => Step::Stop {
            notice: Some("\n[turbobench] interrupted, generating report...".to_owned()),
        },
    }
}

// --- Routing ---

/// A call to a backend.
pub enum Call {
    ListTools,
    CallTool(Invocation),
    ListResources,
    ReadResource(String),
    ListPrompts,
    GetPrompt(Invocation),
}

/// What a call says.
pub enum CallData {
    ListTools,
    CallTool(InvocationData),
    ListResources,
    ReadResource(Seq<char>),
    ListPrompts,
    GetPrompt(InvocationData),
}

impl View for Call {
    type V = CallData;

    open spec fn view(&self) -> CallData {
        match *self {
            Call::ListTools => CallData::ListTools,
            Call::CallTool(i) => CallData::CallTool(i@),
            Call::ListResources => CallData::ListResources,
            Call::ReadResource(u) => CallData::ReadResource(u@),
            Call::ListPrompts => CallData::ListPrompts,
            Call::GetPrompt(i) => CallData::GetPrompt(i@),
        }
    }
}

/// The method of a call.
pub open spec fn call_method(c: CallData) -> Seq<char> {
    match c {
        CallData::ListTools => "tools/list"@,
        CallData::CallTool(_) => TOOL_CALL@,
        CallData::ListResources => "resources/list"@,
        CallData::ReadResource(_) => "resources/read"@,
        CallData::ListPrompts => "prompts/list"@,
        CallData::GetPrompt(_) => "prompts/get"@,
    }
}

/// The tool that is called.
pub open spec fn call_tool_name(c: CallData) -> Option<Seq<char>> {
    match c {
        CallData::CallTool(i) => Some(i.name),
        _ => None,
    }
}

/// The resource that is read.
pub open spec fn call_resource_uri(c: CallData) -> Option<Seq<char>> {
    match c {
        CallData::ReadResource(u) => Some(u),
        _ => None,
    }
}

/// The prompt that is asked for.
pub open spec fn call_prompt_name(c: CallData) -> Option<Seq<char>> {
    match c {
        CallData::GetPrompt(i) => Some(i.name),
        _ => None,
    }
}

/// What is sent back for what the backend answered: a list comes under its name,
/// anything else as it is.
pub open spec fn call_result(c: CallData, answer: Json) -> Json {
    match c {
        CallData::ListTools => Json::Object(seq![("tools"@, answer)]),
        CallData::ListResources => Json::Object(seq![("resources"@, answer)]),
        CallData::ListPrompts => Json::Object(seq![("prompts"@, answer)]),
        _ => answer,
    }
}

/// A call to be made, and the size of the parameters it came with.
pub struct PlannedCall {
    pub call: Call,
    pub request_bytes: usize,
}

/// Why a request has no result.
pub enum Refusal {
    Internal(String),
    InvalidParams(String),
    Serialization(String),
}

/// What a refusal says.
pub enum RefusalData {
    Internal(Seq<char>),
    InvalidParams(Seq<char>),
    Serialization(Seq<char>),
}

impl View for Refusal {
    type V = RefusalData;

    open spec fn view(&self) -> RefusalData {
        match *self {
            Refusal::Internal(m) => RefusalData::Internal(m@),
            Refusal::InvalidParams(m) => RefusalData::InvalidParams(m@),
            Refusal::Serialization(m) => RefusalData::Serialization(m@),
        }
    }
}

/// The call and the size of its parameters, or the refusal.
pub open spec fn plan_data(p: Result<PlannedCall, Refusal>) -> Result<(CallData, usize), RefusalData> {
    match p {
        Ok(c) => Ok((c.call@, c.request_bytes)),
        Err(e) => Err(e@),
    }
}

/// The plan for a tool call with parameters of `size` bytes.
pub open spec fn tool_plan(decoded: Result<InvocationData, Seq<char>>, size: usize) -> Result<
    (CallData, usize),
    RefusalData,
> {
    match decoded {
        Ok(i) => Ok((CallData::CallTool(i), size)),
        Err(m) => Err(RefusalData::InvalidParams(m)),
    }
}

/// The plan for reading a resource with parameters of `size` bytes.
pub open spec fn resource_plan(decoded: Result<Seq<char>, Seq<char>>, size: usize) -> Result<
    (CallData, usize),
    RefusalData,
> {
    match decoded {
        Ok(u) => Ok((CallData::ReadResource(u), size)),
        Err(m) => Err(RefusalData::InvalidParams(m)),
    }
}

/// The plan for getting a prompt with parameters of `size` bytes.
pub open spec fn prompt_plan(decoded: Result<InvocationData, Seq<char>>, size: usize) -> Result<
    (CallData, usize),
    RefusalData,
> {
    match decoded {
        Ok(i) => Ok((CallData::GetPrompt(i), size)),
        Err(m) => Err(RefusalData::InvalidParams(m)),
    }
}

/// The call that a request asks for, with the size of its parameters, or why
/// there is none.
pub open spec fn planned(method: Seq<char>, params: Option<Json>) -> Result<(CallData, usize), RefusalData> {
    if method == "tools/list"@ {
        Ok((CallData::ListTools, 0))
    } else if method == "resources/list"@ {
        Ok((CallData::ListResources, 0))
    } else if method == "prompts/list"@ {
        Ok((CallData::ListPrompts, 0))
    } else if method == TOOL_CALL@ || method == "resources/read"@ || method == "prompts/get"@ {
        match params {
            None => Err(RefusalData::InvalidParams("Missing params"@)),
            Some(p) => if method == TOOL_CALL@ {
                tool_plan(decoded_tool_call(p), json_size(p))
            } else if method == "resources/read"@ {
                resource_plan(decoded_resource(p), json_size(p))
            } else {
                prompt_plan(decoded_prompt(p), json_size(p))
            },
        }
    } else {
        Err(RefusalData::Internal("Unknown method: "@ + method))
    }
}

/// What a decoded invocation says.
pub open spec fn invocation_data(r: Result<Invocation, serde_json::Error>) -> Result<InvocationData, Seq<char>> {
    match r {
        Ok(i) => Ok(i@),
        Err(e) => Err(error_message(e)),
    }
}

/// What a decoded resource request says.
pub open spec fn uri_data(r: Result<String, serde_json::Error>) -> Result<Seq<char>, Seq<char>> {
    match r {
        Ok(u) => Ok(u@),
        Err(e) => Err(error_message(e)),
    }
}

/// Plan a tool call from its decoded parameters.
pub fn plan_tool(decoded: Result<Invocation, serde_json::Error>, size: usize) -> (p: Result<PlannedCall, Refusal>)
    ensures
        plan_data(p) == tool_plan(invocation_data(decoded), size),
{
    match decoded {
        Ok(i) => Ok(PlannedCall { call: Call::CallTool(i), request_bytes: size }),
        Err(e) => Err(Refusal::InvalidParams(error_to_string(&e))),
    }
}

/// Plan the reading of a resource from its decoded parameters.
pub fn plan_resource(decoded: Result<String, serde_json::Error>, size: usize) -> (p: Result<PlannedCall, Refusal>)
    ensures
        plan_data(p) == resource_plan(uri_data(decoded), size),
{
    match decoded {
        Ok(u) => Ok(PlannedCall { call: Call::ReadResource(u), request_bytes: size }),
        Err(e) => Err(Refusal::InvalidParams(error_to_string(&e))),
    }
}

/// Plan the getting of a prompt from its decoded parameters.
pub fn plan_prompt(decoded: Result<Invocation, serde_json::Error>, size: usize) -> (p: Result<PlannedCall, Refusal>)
    ensures
        plan_data(p) == prompt_plan(invocation_data(decoded), size),
{
    match decoded {
        Ok(i) => Ok(PlannedCall { call: Call::GetPrompt(i), request_bytes: size }),
        Err(e) => Err(Refusal::InvalidParams(error_to_string(&e))),
    }
}

/// The call that a request asks for.
pub fn route_request(method: &str, params: &Option<Value>) -> (p: Result<PlannedCall, Refusal>)
    ensures
        plan_data(p) == planned(method@, params_data(*params)),
        match p {
            Ok(c) => match c.call {
                Call::ListTools => method@ == "tools/list"@ && c.request_bytes == 0,
                Call::ListResources => method@ == "resources/list"@ && c.request_bytes == 0,
                Call::ListPrompts => method@ == "prompts/list"@ && c.request_bytes == 0,
                Call::CallTool(i) => method@ == "tools/call"@ && (*params matches Some(v) && decoded_tool_call(
                    contents(v),
                ) == Ok::<InvocationData, Seq<char>>(i@) && c.request_bytes == json_size(contents(v))),
                Call::ReadResource(u) => method@ == "resources/read"@ && (*params matches Some(v) && decoded_resource(
                    contents(v),
                ) == Ok::<Seq<char>, Seq<char>>(u@) && c.request_bytes == json_size(contents(v))),
                Call::GetPrompt(i) => method@ == "prompts/get"@ && (*params matches Some(v) && decoded_prompt(
                    contents(v),
                ) == Ok::<InvocationData, Seq<char>>(i@) && c.request_bytes == json_size(contents(v))),
            },
            Err(Refusal::Internal(m)) => m@ == "Unknown method: "@ + method@,
            Err(Refusal::InvalidParams(m)) => match *params {
                None => m@ == "Missing params"@,
                Some(v) => ({
                    ||| method@ == "tools/call"@ && decoded_tool_call(contents(v)) == Err::<InvocationData, Seq<char>>(m@)
                    ||| method@ == "resources/read"@ && decoded_resource(contents(v)) == Err::<Seq<char>, Seq<char>>(m@)
                    ||| method@ == "prompts/get"@ && decoded_prompt(contents(v)) == Err::<InvocationData, Seq<char>>(m@)
                }),
            },
            Err(Refusal::Serialization(_)) => false,
        },
{
    if same_text(method, "tools/list") {
        return Ok(PlannedCall { call: Call::ListTools, request_bytes: 0 });
    }
    if same_text(method, "resources/list") {
        return Ok(PlannedCall { call: Call::ListResources, request_bytes: 0 });
    }
    if same_text(method, "prompts/list") {
        return Ok(PlannedCall { call: Call::ListPrompts, request_bytes: 0 });
    }
    let tool: bool = same_text(method, TOOL_CALL);
    let resource: bool = same_text(method, "resources/read");
    let prompt: bool = same_text(method, "prompts/get");
    if !(tool || resource || prompt) {
        let mut message: String = "Unknown method: ".to_owned();
        message.append(method);
        return Err(Refusal::Internal(message));
    }
    match params {
        None => Err(Refusal::InvalidParams("Missing params".to_owned())),
        Some(p) => {
            if tool {
                plan_tool(decode_tool_call(p), json_len(p))
            } else if resource {
                plan_resource(decode_resource(p), json_len(p))
            } else {
                plan_prompt(decode_prompt(p), json_len(p))
            }
        },
    }
}

/// The call that an HTTP request asks for, given the request that its body
/// decodes to.
pub open spec fn http_plan(decoded: Result<RequestData, Seq<char>>) -> Result<(CallData, usize), RefusalData> {
    match decoded {
        Ok(q) => planned(q.method, q.params),
        Err(m) => Err(RefusalData::Serialization(m)),
    }
}

/// The call that a decoded HTTP request asks for.
pub fn plan_decoded(decoded: Result<Request, serde_json::Error>) -> (p: Result<PlannedCall, Refusal>)
    ensures
        plan_data(p) == http_plan(
            match decoded {
                Ok(q) => Ok(q@),
                Err(e) => Err(error_message(e)),
            },
        ),
{
    match decoded {
        Ok(q) => route_request(q.method.as_str(), &q.params),
        Err(e) => Err(Refusal::Serialization(error_to_string(&e))),
    }
}

/// The call that the body of an HTTP request asks for.
pub fn process_request(body: Value) -> (p: Result<PlannedCall, Refusal>)
    ensures
        plan_data(p) == http_plan(decoded_request(contents(body))),
{
    plan_decoded(decode_request(body))
}

impl Call {
    /// The method of the call.
    pub fn method(&self) -> (m: &str)
        ensures
            m@ == call_method(self@),
            match *self {
                Call::ListTools => m@ == "tools/list"@,
                Call::CallTool(_) => m@ == "tools/call"@,
                Call::ListResources => m@ == "resources/list"@,
                Call::ReadResource(_) => m@ == "resources/read"@,
                Call::ListPrompts => m@ == "prompts/list"@,
                Call::GetPrompt(_) => m@ == "prompts/get"@,
            },
    {
        match self {
            Call::ListTools => "tools/list",
            Call::CallTool(_) => TOOL_CALL,
            Call::ListResources => "resources/list",
            Call::ReadResource(_) => "resources/read",
            Call::ListPrompts => "prompts/list",
            Call::GetPrompt(_) => "prompts/get",
        }
    }

    /// What is sent back for what the backend answered.
    pub fn result(&self, answer: Value) -> (v: Value)
        ensures
            contents(v) == call_result(self@, contents(answer)),
            match *self {
                Call::ListTools => contents(v) == Json::Object(seq![("tools"@, contents(answer))]),
                Call::ListResources => contents(v) == Json::Object(seq![("resources"@, contents(answer))]),
                Call::ListPrompts => contents(v) == Json::Object(seq![("prompts"@, contents(answer))]),
                _ => v == answer,
            },
    {
        match self {
            Call::ListTools => single_member("tools", answer),
            Call::ListResources => single_member("resources", answer),
            Call::ListPrompts => single_member("prompts", answer),
            Call::CallTool(_) => answer,
            Call::ReadResource(_) => answer,
            Call::GetPrompt(_) => answer,
        }
    }
}

// --- Outcomes ---

/// The outcome of a request whose call gave `result`.
pub fn call_outcome(result: Result<Value, String>) -> (r: Result<Value, Refusal>)
    ensures
        match result {
            Ok(v) => r == Ok::<Value, Refusal>(v),
            Err(m) => r matches Err(Refusal::Internal(n)) && n@ == m@,
        },
{
    match result {
        Ok(v) => Ok(v),
        Err(m) => Err(Refusal::Internal(m)),
    }
}

/// What a client on standard input is told of an outcome.
pub open spec fn told(outcome: Result<Json, RefusalData>, id: MessageId) -> ResponseData {
    match outcome {
        Ok(result) => success(result, id),
        Err(_) => internal_error(id),
    }
}

/// The reply to a request on standard input. Errors are sanitized for the client.
pub fn stdio_reply(outcome: Result<Value, Refusal>, id: MessageId) -> (r: Reply)
    ensures
        r@ == told(
            match outcome {
                Ok(v) => Ok(contents(v)),
                Err(e) => Err(e@),
            },
            id,
        ),
{
    match outcome {
        Ok(result) => Reply::Success { result, id },
        Err(_) => Reply::InternalError { id },
    }
}

// --- Sessions ---

/// The form of a session identifier: groups of lower-case hexadecimal digits,
/// with hyphens between them.
pub open spec fn is_session_id(id: Seq<char>) -> bool {
    &&& id.len() == 36
    &&& forall|i: int|
        0 <= i < 36 ==> if i == 8 || i == 13 || i == 18 || i == 23 {
            #[trigger] id[i] == '-'
        } else {
            '0' <= id[i] <= '9' || 'a' <= id[i] <= 'f'
        }
}

/// `uuid::Uuid::new_v4`, as a string: a random identifier in hyphenated form.
/// Which one is not claimed.
#[verifier::external_body]
fn random_session_id() -> (id: String)
    ensures
        is_session_id(id@),
{
    uuid::Uuid::new_v4().to_string()
}

/// What is done with the report when a session ends.
#[derive(Clone, Copy, PartialEq, Eq, Structural)]
pub struct Closing {
    /// Print it.
    pub print: bool,
    /// Save it.
    pub save: bool,
}

/// What a configuration asks to do with the report: print it unless quiet, save
/// it where a path is given.
pub fn closing(config: &BenchConfig) -> (c: Closing)
    ensures
        c.print == !config.quiet,
        c.save == (config.output is Some),
{
    Closing { print: !config.quiet, save: config.output.is_some() }
}

// --- The proxy ---

/// One of the two backends.
#[derive(Clone, Copy, PartialEq, Eq, Structural)]
pub enum Target {
    Primary,
    Shadow,
}

/// What the proxy knows of its backends, and what it has recorded.
pub struct BenchProxy {
    pub primary_name: String,
    pub shadow_name: Option<String>,
    /// Protocol version of the primary backend.
    pub protocol_version: String,
    pub store: MetricsStore,
}

/// What the proxy tells a client of itself.
pub open spec fn capabilities_data(
    protocol_version: Seq<char>,
    name: Seq<char>,
    version: Seq<char>,
    capabilities: Json,
) -> Json {
    Json::Object(
        seq![
            ("protocolVersion"@, Json::Text(protocol_version)),
            (
                "serverInfo"@,
                Json::Object(
                    seq![("name"@, Json::Text("turbobench/"@ + name)), ("version"@, Json::Text(version))],
                ),
            ),
            ("capabilities"@, capabilities),
        ],
    )
}

/// `rec` describes a call to the backend `backend` that gave `result`.
pub open spec fn records_call(
    rec: CallRecord,
    backend: Seq<char>,
    call: PlannedCall,
    result: Result<Value, String>,
) -> bool {
    describes_call(
        rec,
        backend,
        call_method(call.call@),
        call_tool_name(call.call@),
        call_resource_uri(call.call@),
        call_prompt_name(call.call@),
        call.request_bytes,
        result,
    )
}

impl BenchProxy {
    /// The name of a backend; none for a shadow that there is not.
    pub open spec fn target_name(self, target: Target) -> Option<Seq<char>> {
        match target {
            Target::Primary => Some(self.primary_name@),
            Target::Shadow => option_text(self.shadow_name),
        }
    }

    /// What the proxy says about itself when a session starts.
    pub open spec fn banner_texts(self, session_id: Seq<char>) -> Seq<Seq<char>> {
        seq![
            "[turbobench] session "@ + session_prefix(session_id),
            "[turbobench] primary: "@ + self.primary_name@,
        ] + (match self.shadow_name {
            Some(s) => seq!["[turbobench] shadow:  "@ + s@],
            None => seq![],
        })
    }

    /// A proxy for the backends of a configuration, with nothing recorded.
    pub fn new(config: &BenchConfig, protocol_version: String) -> (p: BenchProxy)
        ensures
            p.primary_name@ == backend_name(config.primary),
            option_text(p.shadow_name) == (match config.shadow {
                Some(s) => Some(backend_name(s)),
                None => None,
            }),
            p.protocol_version == protocol_version,
            p.store.records@.len() == 0,
            p.store.dropped == 0,
            p.store.session_start_utc.is_valid(),
    {
        BenchProxy {
            primary_name: config.primary.display_name(),
            shadow_name: match &config.shadow {
                Some(s) => Some(s.display_name()),
                None => None,
            },
            protocol_version,
            store: MetricsStore::new(),
        }
    }

    /// The backends that a call is made to. The primary backend answers; the
    /// shadow, where there is one, gets every call that the primary gets.
    pub fn targets(&self) -> (t: Vec<Target>)
        ensures
            t@ == (if self.shadow_name is Some {
                seq![Target::Primary, Target::Shadow]
            } else {
                seq![Target::Primary]
            }),
    {
        let mut t: Vec<Target> = Vec::new();
        t.push(Target::Primary);
        if self.shadow_name.is_some() {
            t.push(Target::Shadow);
        }
        t
    }

    /// What the proxy says about itself when a session starts.
    pub fn banner(&self, session_id: &str) -> (lines: Vec<String>)
        ensures
            texts(lines@) == self.banner_texts(session_id@),
    {
        let mut lines: Vec<String> = Vec::new();
        let mut session: String = "[turbobench] session ".to_owned();
        session.append(short_session_id(session_id));
        lines.push(session);
        let mut primary: String = "[turbobench] primary: ".to_owned();
        primary.append(self.primary_name.as_str());
        lines.push(primary);
        if let Some(name) = &self.shadow_name {
            let mut shadow: String = "[turbobench] shadow:  ".to_owned();
            shadow.append(name.as_str());
            lines.push(shadow);
        }
        assert(texts(lines@) =~= self.banner_texts(session_id@));
        lines
    }

    /// A new session identifier, and what the proxy says about itself when the
    /// session starts.
    pub fn start_session(&self) -> (s: (String, Vec<String>))
        ensures
            is_session_id(s.0@),
            texts(s.1@) == self.banner_texts(s.0@),
    {
        let id: String = random_session_id();
        let lines: Vec<String> = self.banner(id.as_str());
        (id, lines)
    }

    /// What the proxy tells a client of itself: the protocol version and the
    /// capabilities of the primary backend, under a name of its own.
    pub fn get_capabilities(&self, version: &str, capabilities: Value) -> (v: Value)
        ensures
            contents(v) == capabilities_data(
                self.protocol_version@,
                self.primary_name@,
                version@,
                contents(capabilities),
            ),
    {
        proof {
            reveal_strlit("protocolVersion");
            reveal_strlit("serverInfo");
            reveal_strlit("capabilities");
            reveal_strlit("name");
            reveal_strlit("version");
            assert("name"@.len() == 4 && "version"@.len() == 7);
            assert("protocolVersion"@.len() == 15 && "serverInfo"@.len() == 10 && "capabilities"@.len() == 12);
        }
        let mut name: String = "turbobench/".to_owned();
        name.append(self.primary_name.as_str());
        let mut info: Vec<(String, Value)> = Vec::new();
        info.push(("name".to_owned(), json_string(name)));
        info.push(("version".to_owned(), json_string(version.to_owned())));
        assert(members(info@) =~= seq![
            ("name"@, Json::Text("turbobench/"@ + self.primary_name@)),
            ("version"@, Json::Text(version@)),
        ]);
        let mut entries: Vec<(String, Value)> = Vec::new();
        entries.push(("protocolVersion".to_owned(), json_string(self.protocol_version.clone())));
        entries.push(("serverInfo".to_owned(), json_object(info)));
        entries.push(("capabilities".to_owned(), capabilities));
        let v: Value = json_object(entries);
        assert(contents(v)->Object_0 =~= capabilities_data(
            self.protocol_version@,
            self.primary_name@,
            version@,
            contents(capabilities),
        )->Object_0);
        v
    }

    /// Record a call that began at `start` and ends now. Nothing is recorded
    /// for a shadow that there is not.
    pub fn record(&mut self, target: Target, call: &PlannedCall, start: Instant, result: &Result<Value, String>)
        requires
            old(self).store.records@.len() >= MAX_RECORDS ==> old(self).store.dropped < usize::MAX,
        ensures
            match old(self).target_name(target) {
                Some(name) => exists|rec: CallRecord|
                    {
                        &&& #[trigger] records_call(rec, name, *call, *result)
                        &&& timed_from(rec, start)
                        &&& (final(self).store.records@, final(self).store.dropped as nat) == recorded(
                            old(self).store.records@,
                            old(self).store.dropped as nat,
                            rec,
                        )
                    },
                None => final(self).store == old(self).store,
            },
            final(self).primary_name == old(self).primary_name,
            final(self).shadow_name == old(self).shadow_name,
            final(self).protocol_version == old(self).protocol_version,
            final(self).store.session_start == old(self).store.session_start,
            final(self).store.session_start_utc == old(self).store.session_start_utc,
    {
        self.record_at(target, call, elapsed(&start), utc_now(), result);
    }

    /// Finish a call to the primary backend that began at `start`: record it, and
    /// give the outcome of the request.
    pub fn finish(&mut self, call: &PlannedCall, start: Instant, result: Result<Value, String>) -> (r: Result<
        Value,
        Refusal,
    >)
        requires
            old(self).store.records@.len() >= MAX_RECORDS ==> old(self).store.dropped < usize::MAX,
        ensures
            match result {
                Ok(v) => r == Ok::<Value, Refusal>(v),
                Err(m) => r matches Err(Refusal::Internal(n)) && n@ == m@,
            },
            exists|rec: CallRecord|
                {
                    &&& #[trigger] records_call(rec, old(self).primary_name@, *call, result)
                    &&& timed_from(rec, start)
                    &&& (final(self).store.records@, final(self).store.dropped as nat) == recorded(
                        old(self).store.records@,
                        old(self).store.dropped as nat,
                        rec,
                    )
                },
            final(self).primary_name == old(self).primary_name,
            final(self).shadow_name == old(self).shadow_name,
            final(self).protocol_version == old(self).protocol_version,
            final(self).store.session_start == old(self).store.session_start,
            final(self).store.session_start_utc == old(self).store.session_start_utc,
    {
        self.record(Target::Primary, call, start, &result);
        call_outcome(result)
    }

    /// Record a call that took `latency` and ended at `timestamp`.
    pub fn record_at(
        &mut self,
        target: Target,
        call: &PlannedCall,
        latency: Span,
        timestamp: Timestamp,
        result: &Result<Value, String>,
    )
        requires
            old(self).store.records@.len() >= MAX_RECORDS ==> old(self).store.dropped < usize::MAX,
        ensures
            match old(self).target_name(target) {
                Some(name) => exists|rec: CallRecord|
                    {
                        &&& #[trigger] records_call(rec, name, *call, *result)
                        &&& rec.latency_us == latency.capped()
                        &&& rec.timestamp == timestamp
                        &&& (final(self).store.records@, final(self).store.dropped as nat) == recorded(
                            old(self).store.records@,
                            old(self).store.dropped as nat,
                            rec,
                        )
                    },
                None => final(self).store == old(self).store,
            },
            final(self).primary_name == old(self).primary_name,
            final(self).shadow_name == old(self).shadow_name,
            final(self).protocol_version == old(self).protocol_version,
            final(self).store.session_start == old(self).store.session_start,
            final(self).store.session_start_utc == old(self).store.session_start_utc,
    {
        let rec: CallRecord = {
            let name: &str = match target {
                Target::Primary => self.primary_name.as_str(),
                Target::Shadow => match &self.shadow_name {
                    Some(s) => s.as_str(),
                    None => {
                        return;
                    },
                },
            };
            let (tool_name, resource_uri, prompt_name): (Option<&str>, Option<&str>, Option<&str>) = match &call.call {
                Call::CallTool(i) => (Some(i.name.as_str()), None, None),
                Call::ReadResource(u) => (None, Some(u.as_str()), None),
                Call::GetPrompt(i) => (None, None, Some(i.name.as_str())),
                _ => (None, None, None),
            };
            MetricsStore::record_of(
                name,
                call.call.method(),
                tool_name,
                resource_uri,
                prompt_name,
                latency,
                timestamp,
                call.request_bytes,
                result,
            )
        };
        assert(records_call(rec, self.target_name(target)->0, *call, *result));
        self.store.record(rec);
    }
}

// --- Laws ---

/// Input that is longer than 16 MB, not JSON, or identified but no request is
/// answered with a parse error, and nothing else is.
pub proof fn law_parse_error(line: Seq<char>)
    ensures
        line_action(line) == ActionData::Answer(parse_error()) <==> {
            ||| encode_utf8(line).len() as usize > 16_777_216
            ||| trimmed(line).len() > 0 && (match parsed_json(trimmed(line)) {
                None => true,
                Some(j) => has_id(j) && decoded_request(j) is Err,
            })
        },
{
}

/// Blank lines and notifications get no reply, and nothing else is ignored.
pub proof fn law_ignored(line: Seq<char>)
    ensures
        line_action(line) == ActionData::Ignore <==> {
            &&& encode_utf8(line).len() as usize <= 16_777_216
            &&& trimmed(line).len() == 0 || (match parsed_json(trimmed(line)) {
                None => false,
                Some(j) => !has_id(j),
            })
        },
{
}

/// A request is answered under its own identifier, or passed on unchanged.
pub proof fn law_requests_keep_their_id(q: RequestData)
    ensures
        match request_action(q) {
            ActionData::Answer(r) => r.id == Some(q.id),
            ActionData::Initialize { id } => id == q.id,
            ActionData::Forward(f) => f == q,
            ActionData::Ignore => false,
        },
{
}

/// A result reaches the client as it is, under the identifier of the request;
/// of an error the client learns no more than that there was one.
pub proof fn law_transparent_and_sanitized(
    result: Json,
    e1: RefusalData,
    e2: RefusalData,
    id: MessageId,
)
    ensures
        told(Ok(result), id).outcome == Ok::<Json, ErrorData>(result),
        told(Ok(result), id).id == Some(id),
        told(Err(e1), id) == told(Err(e2), id),
        told(Err(e1), id).id == Some(id),
{
}

/// The call made for a request has the method that was asked for.
pub proof fn law_calls_keep_their_method(method: Seq<char>, params: Option<Json>)
    ensures
        planned(method, params) matches Ok(p) ==> call_method(p.0) == method,
{
}

/// A request leads to a call exactly where its method is known and, for the
/// methods that take parameters, those are there and decode; what is refused is
/// told to a client on standard input as an internal error.
pub proof fn law_when_a_call_is_made(method: Seq<char>, params: Option<Json>, id: MessageId)
    ensures
        planned(method, params) is Ok <==> {
            ||| method == "tools/list"@ || method == "resources/list"@ || method == "prompts/list"@
            ||| params is Some && method == TOOL_CALL@ && decoded_tool_call(params->0) is Ok
            ||| params is Some && method == "resources/read"@ && decoded_resource(params->0) is Ok
            ||| params is Some && method == "prompts/get"@ && decoded_prompt(params->0) is Ok
        },
        planned(method, params) matches Err(e) ==> told(Err(e), id) == internal_error(id),
{
    reveal_strlit("tools/call");
    reveal_strlit("resources/read");
    reveal_strlit("prompts/get");
    assert(TOOL_CALL@.len() == 10 && "resources/read"@.len() == 14 && "prompts/get"@.len() == 11);
}

/// The two frontends make the same call for the same request.
pub proof fn law_frontends_agree(j: Json, q: RequestData)
    requires
        decoded_request(j) == Ok::<RequestData, Seq<char>>(q),
        has_id(j),
        q.method != "initialize"@,
        q.method != "ping"@,
    ensures
        value_action(j, decoded_request(j)) == ActionData::Forward(q),
        http_plan(decoded_request(j)) == planned(q.method, q.params),
{
}

/// The shadow's record of a call and the primary's tell of the same request.
pub proof fn law_shadow_mirrors_primary(
    primary: CallRecord,
    shadow: CallRecord,
    primary_name: Seq<char>,
    shadow_name: Seq<char>,
    call: PlannedCall,
    primary_result: Result<Value, String>,
    shadow_result: Result<Value, String>,
)
    requires
        records_call(primary, primary_name, call, primary_result),
        records_call(shadow, shadow_name, call, shadow_result),
    ensures
        primary.method@ == shadow.method@,
        option_text(primary.tool_name) == option_text(shadow.tool_name),
        option_text(primary.resource_uri) == option_text(shadow.resource_uri),
        option_text(primary.prompt_name) == option_text(shadow.prompt_name),
        primary.request_bytes == shadow.request_bytes,
        primary.estimated_input_tokens == shadow.estimated_input_tokens,
{
}

/// `rec` tells of a call to the backend `backend`, whatever the result.
pub open spec fn tells_of_call(rec: CallRecord, backend: Seq<char>, call: PlannedCall) -> bool {
    exists|result: Result<Value, String>| #[trigger] records_call(rec, backend, call, result)
}

/// `records` tells of `calls` to the backend `backend`, one after the other.
pub open spec fn records_calls(records: Seq<CallRecord>, backend: Seq<char>, calls: Seq<PlannedCall>) -> bool {
    &&& records.len() == calls.len()
    &&& forall|i: int|
        0 <= i < calls.len() ==> #[trigger] tells_of_call(records[i], backend, calls[i])
}

/// Calls, request bytes, input tokens and tool calls do not depend on who served
/// the calls.
proof fn lemma_shadow_totals(
    primary: Seq<CallRecord>,
    shadow: Seq<CallRecord>,
    primary_name: Seq<char>,
    shadow_name: Seq<char>,
    calls: Seq<PlannedCall>,
)
    requires
        records_calls(primary, primary_name, calls),
        records_calls(shadow, shadow_name, calls),
    ensures
        measured(primary, Measure::RequestBytes) == measured(shadow, Measure::RequestBytes),
        measured(primary, Measure::InputTokens) == measured(shadow, Measure::InputTokens),
        tool_calls(primary).len() == tool_calls(shadow).len(),
    decreases calls.len(),
{
    reveal(Seq::filter);
    if calls.len() > 0 {
        let last = calls.len() - 1;
        let p = primary.drop_last();
        let s = shadow.drop_last();
        let c = calls.drop_last();
        assert forall|i: int| 0 <= i < c.len() implies #[trigger] tells_of_call(p[i], primary_name, c[i]) by {
            assert(tells_of_call(primary[i], primary_name, calls[i]));
        }
        assert forall|i: int| 0 <= i < c.len() implies #[trigger] tells_of_call(s[i], shadow_name, c[i]) by {
            assert(tells_of_call(shadow[i], shadow_name, calls[i]));
        }
        lemma_shadow_totals(p, s, primary_name, shadow_name, c);
        assert(tells_of_call(primary[last], primary_name, calls[last]));
        assert(tells_of_call(shadow[last], shadow_name, calls[last]));
        let pr = choose|result: Result<Value, String>| #[trigger]
            records_call(primary[last], primary_name, calls[last], result);
        let sr = choose|result: Result<Value, String>| #[trigger]
            records_call(shadow[last], shadow_name, calls[last], result);
        law_shadow_mirrors_primary(primary[last], shadow[last], primary_name, shadow_name, calls[last], pr, sr);
    }
}

/// Two backends that served the same calls are reported with the same number of
/// calls and of tool calls, and the same input.
pub proof fn law_shadow_totals_match(
    p: BackendSummary,
    s: BackendSummary,
    primary: Seq<CallRecord>,
    shadow: Seq<CallRecord>,
    primary_name: Seq<char>,
    shadow_name: Seq<char>,
    calls: Seq<PlannedCall>,
)
    requires
        records_calls(primary, primary_name, calls),
        records_calls(shadow, shadow_name, calls),
        backend_sums_up(p, primary),
        backend_sums_up(s, shadow),
    ensures
        p.total_calls == s.total_calls,
        p.total_tool_calls == s.total_tool_calls,
        p.total_input_bytes == s.total_input_bytes,
        p.estimated_input_tokens == s.estimated_input_tokens,
{
    lemma_shadow_totals(primary, shadow, primary_name, shadow_name, calls);
}

/// Of what is recorded, only tool calls name a tool, and every one does.
pub proof fn law_records_name_tools_of_tool_calls(
    rec: CallRecord,
    backend: Seq<char>,
    call: PlannedCall,
    result: Result<Value, String>,
)
    requires
        records_call(rec, backend, call, result),
    ensures
        rec.tool_name is Some <==> rec.method@ == TOOL_CALL@,
{
    reveal_strlit("tools/list");
    reveal_strlit("tools/call");
    reveal_strlit("resources/list");
    reveal_strlit("resources/read");
    reveal_strlit("prompts/list");
    reveal_strlit("prompts/get");
    assert("tools/list"@[6] == 'l' && TOOL_CALL@[6] == 'c');
    assert("resources/list"@.len() == 14 && "resources/read"@.len() == 14 && TOOL_CALL@.len() == 10);
    assert("prompts/list"@.len() == 12 && "prompts/get"@.len() == 11);
}

/// What the six methods become, and no other: a list request needs no parameters,
/// the others carry on exactly what their parameters decode to, name and
/// arguments alike, and the size of the parameters.
pub proof fn law_calls_carry_what_was_asked(
    p: Json,
    params: Option<Json>,
    i: InvocationData,
    u: Seq<char>,
    m: Seq<char>,
    n: usize,
)
    ensures
        planned("tools/list"@, params) == Ok::<(CallData, usize), RefusalData>((CallData::ListTools, 0)),
        planned("resources/list"@, params) == Ok::<(CallData, usize), RefusalData>((CallData::ListResources, 0)),
        planned("prompts/list"@, params) == Ok::<(CallData, usize), RefusalData>((CallData::ListPrompts, 0)),
        planned("tools/call"@, Some(p)) == Ok::<(CallData, usize), RefusalData>(
                (CallData::CallTool(i), n),
            ) <==> decoded_tool_call(p) == Ok::<InvocationData, Seq<char>>(i) && has_size(p, n),
        planned("prompts/get"@, Some(p)) == Ok::<(CallData, usize), RefusalData>(
                (CallData::GetPrompt(i), n),
            ) <==> decoded_prompt(p) == Ok::<InvocationData, Seq<char>>(i) && has_size(p, n),
        planned("resources/read"@, Some(p)) == Ok::<(CallData, usize), RefusalData>(
                (CallData::ReadResource(u), n),
            ) <==> decoded_resource(p) == Ok::<Seq<char>, Seq<char>>(u) && has_size(p, n),
        planned("tools/call"@, Some(p)) == Err::<(CallData, usize), RefusalData>(
                RefusalData::InvalidParams(m),
            ) <==> decoded_tool_call(p) == Err::<InvocationData, Seq<char>>(m),
        planned("prompts/get"@, Some(p)) == Err::<(CallData, usize), RefusalData>(
                RefusalData::InvalidParams(m),
            ) <==> decoded_prompt(p) == Err::<InvocationData, Seq<char>>(m),
        planned("resources/read"@, Some(p)) == Err::<(CallData, usize), RefusalData>(
                RefusalData::InvalidParams(m),
            ) <==> decoded_resource(p) == Err::<Seq<char>, Seq<char>>(m),
        planned("tools/call"@, None) == Err::<(CallData, usize), RefusalData>(
            RefusalData::InvalidParams("Missing params"@),
        ),
        planned("prompts/get"@, None) == Err::<(CallData, usize), RefusalData>(
            RefusalData::InvalidParams("Missing params"@),
        ),
        planned("resources/read"@, None) == Err::<(CallData, usize), RefusalData>(
            RefusalData::InvalidParams("Missing params"@),
        ),
{
    lemma_methods_differ();
}

/// `n` is the length in bytes of the JSON text of `j`, and 0 where it has none.
pub open spec fn has_size(j: Json, n: usize) -> bool {
    match json_text(j) {
        Some(t) => n == encode_utf8(t).len() as usize,
        None => n == 0,
    }
}

/// The six methods are six different texts.
proof fn lemma_methods_differ()
    ensures
        "tools/list"@ != "tools/call"@,
        "tools/call"@ == TOOL_CALL@,
        "tools/list"@.len() == 10,
        "tools/call"@.len() == 10,
        "resources/list"@.len() == 14,
        "resources/read"@.len() == 14,
        "resources/list"@ != "resources/read"@,
        "prompts/list"@.len() == 12,
        "prompts/get"@.len() == 11,
{
    reveal_strlit("tools/list");
    reveal_strlit("tools/call");
    reveal_strlit("resources/list");
    reveal_strlit("resources/read");
    reveal_strlit("prompts/list");
    reveal_strlit("prompts/get");
    assert("tools/list"@[6] == 'l' && "tools/call"@[6] == 'c');
    assert("resources/list"@[10] == 'l' && "resources/read"@[10] == 'r');
}

/// A request with any other method is refused, and the refusal names the method.
pub proof fn law_other_methods_are_unknown(method: Seq<char>, params: Option<Json>)
    requires
        method != "tools/list"@,
        method != "tools/call"@,
        method != "resources/list"@,
        method != "resources/read"@,
        method != "prompts/list"@,
        method != "prompts/get"@,
    ensures
        planned(method, params) == Err::<(CallData, usize), RefusalData>(
            RefusalData::Internal("Unknown method: "@ + method),
        ),
{
}

/// An HTTP request is treated by what its body decodes to: a request by its
/// method and parameters, anything else is refused with the decoder's message.
pub proof fn law_http_requests(q: RequestData, message: Seq<char>)
    ensures
        http_plan(Ok(q)) == planned(q.method, q.params),
        http_plan(Err(message)) == Err::<(CallData, usize), RefusalData>(RefusalData::Serialization(message)),
{
}

/// What the backend answered is sent back as it is for a tool call, a resource
/// and a prompt, and as the only member of an object for a list. So the client
/// can always tell what the backend answered.
pub proof fn law_answers_reach_the_client(c: CallData, answer: Json, other: Json)
    ensures
        call_method(c) == "tools/call"@ || call_method(c) == "resources/read"@ || call_method(c) == "prompts/get"@
            ==> call_result(c, answer) == answer,
        call_method(c) == "tools/list"@ ==> call_result(c, answer) == Json::Object(seq![("tools"@, answer)]),
        call_method(c) == "resources/list"@ ==> call_result(c, answer) == Json::Object(seq![("resources"@, answer)]),
        call_method(c) == "prompts/list"@ ==> call_result(c, answer) == Json::Object(seq![("prompts"@, answer)]),
        call_result(c, answer) == call_result(c, other) ==> answer == other,
        call_method(c) == "tools/list"@ ==> member_of(call_result(c, answer), "tools"@) == Some(answer),
        call_method(c) == "resources/list"@ ==> member_of(call_result(c, answer), "resources"@) == Some(answer),
        call_method(c) == "prompts/list"@ ==> member_of(call_result(c, answer), "prompts"@) == Some(answer),
{
    lemma_methods_differ();
    reveal_with_fuel(crate::json::lookup, 2);
    assert(seq![("tools"@, answer)][0] != seq![("tools"@, other)][0] || answer == other);
    assert(seq![("resources"@, answer)][0] != seq![("resources"@, other)][0] || answer == other);
    assert(seq![("prompts"@, answer)][0] != seq![("prompts"@, other)][0] || answer == other);
}

/// What a call is called by: its method, and the one name that belongs to it.
pub proof fn law_names_of_calls(c: CallData)
    ensures
        match c {
            CallData::ListTools => call_method(c) == "tools/list"@,
            CallData::CallTool(_) => call_method(c) == "tools/call"@,
            CallData::ListResources => call_method(c) == "resources/list"@,
            CallData::ReadResource(_) => call_method(c) == "resources/read"@,
            CallData::ListPrompts => call_method(c) == "prompts/list"@,
            CallData::GetPrompt(_) => call_method(c) == "prompts/get"@,
        },
        c matches CallData::CallTool(i) ==> call_tool_name(c) == Some(i.name),
        c matches CallData::ReadResource(u) ==> call_resource_uri(c) == Some(u),
        c matches CallData::GetPrompt(i) ==> call_prompt_name(c) == Some(i.name),
        c !is CallTool ==> call_tool_name(c) is None,
        c !is ReadResource ==> call_resource_uri(c) is None,
        c !is GetPrompt ==> call_prompt_name(c) is None,
{
}

/// A record tells all there is to tell of a call: who served it, what was asked
/// for, how much went in and out, and how it ended.
pub proof fn law_records_tell_the_call(
    rec: CallRecord,
    backend: Seq<char>,
    call: PlannedCall,
    result: Result<Value, String>,
)
    requires
        records_call(rec, backend, call, result),
    ensures
        rec.backend@ == backend,
        match call.call {
            Call::ListTools => rec.method@ == "tools/list"@,
            Call::CallTool(_) => rec.method@ == "tools/call"@,
            Call::ListResources => rec.method@ == "resources/list"@,
            Call::ReadResource(_) => rec.method@ == "resources/read"@,
            Call::ListPrompts => rec.method@ == "prompts/list"@,
            Call::GetPrompt(_) => rec.method@ == "prompts/get"@,
        },
        match call.call {
            Call::CallTool(i) => rec.tool_name matches Some(t) && t@ == i.name@,
            _ => rec.tool_name is None,
        },
        match call.call {
            Call::ReadResource(u) => rec.resource_uri matches Some(t) && t@ == u@,
            _ => rec.resource_uri is None,
        },
        match call.call {
            Call::GetPrompt(i) => rec.prompt_name matches Some(t) && t@ == i.name@,
            _ => rec.prompt_name is None,
        },
        rec.request_bytes == call.request_bytes,
        match result {
            Ok(v) => has_size(contents(v), rec.response_bytes) && rec.success && rec.error_message is None,
            Err(m) => rec.response_bytes == 0 && !rec.success && (rec.error_message matches Some(t) && t@ == m@),
        },
        rec.request_bytes <= 9_007_199_254_740_992 ==> rec.request_bytes <= 4 * rec.estimated_input_tokens
            < rec.request_bytes + 4,
        rec.response_bytes <= 9_007_199_254_740_992 ==> rec.response_bytes <= 4 * rec.estimated_output_tokens
            < rec.response_bytes + 4,
{
    if rec.request_bytes <= 9_007_199_254_740_992 {
        crate::tokens::law_estimate_is_ceiling(rec.request_bytes as nat);
    }
    if rec.response_bytes <= 9_007_199_254_740_992 {
        crate::tokens::law_estimate_is_ceiling(rec.response_bytes as nat);
    }
}

/// Who answers a request: the proxy itself for `initialize` and `ping`, the
/// backends for all others.
pub proof fn law_who_answers(q: RequestData)
    ensures
        q.method == "initialize"@ ==> request_action(q) == (ActionData::Initialize { id: q.id }),
        q.method == "ping"@ ==> request_action(q) == ActionData::Answer(
            ResponseData { id: Some(q.id), outcome: Ok(Json::Object(seq![])) },
        ),
        q.method != "initialize"@ && q.method != "ping"@ ==> request_action(q) == ActionData::Forward(q),
{
    reveal_strlit("initialize");
    reveal_strlit("ping");
    assert("initialize"@.len() == 10 && "ping"@.len() == 4);
}

/// What a line leads to depends on the request in it alone, once it is one.
pub proof fn law_requests_in_lines(line: Seq<char>, j: Json, q: RequestData)
    requires
        encode_utf8(line).len() as usize <= 16_777_216,
        trimmed(line).len() > 0,
        parsed_json(trimmed(line)) == Some(j),
        has_id(j),
        decoded_request(j) == Ok::<RequestData, Seq<char>>(q),
    ensures
        line_action(line) == request_action(q),
{
}

/// A value has an identifier exactly where it is an object with a member of the
/// name `id` that is not null.
pub proof fn law_identifiers(j: Json, entries: Seq<(Seq<char>, Json)>)
    ensures
        has_id(j) <==> member_of(j, "id"@) is Some && member_of(j, "id"@) != Some(Json::Null),
        has_id(j) ==> j is Object,
        !has_id(Json::Object(seq![])),
        has_id(Json::Object(entries)) ==> exists|i: int|
            0 <= i < entries.len() && (#[trigger] entries[i]).0 == "id"@ && entries[i].1 != Json::Null,
        (exists|i: int| 0 <= i < entries.len() && (#[trigger] entries[i]).0 == "id"@) && (forall|i: int|
            0 <= i < entries.len() && (#[trigger] entries[i]).0 == "id"@ ==> entries[i].1 != Json::Null)
            ==> has_id(Json::Object(entries)),
{
    crate::json::law_lookup(entries, "id"@);
}

/// What the client is told: the result under the identifier of the request, or
/// one and the same error whatever went wrong; and the error for input that is
/// no request.
pub proof fn law_what_clients_are_told(result: Json, e: RefusalData, id: MessageId)
    ensures
        told(Ok(result), id) == (ResponseData { id: Some(id), outcome: Ok(result) }),
        told(Err(e), id) == (ResponseData {
            id: Some(id),
            outcome: Err(ErrorData { code: -32603, message: "Internal error"@, data: None }),
        }),
        parse_error() == (ResponseData {
            id: None,
            outcome: Err(ErrorData { code: -32700, message: "Parse error"@, data: None }),
        }),
{
}

/// A reply is its text and a line end.
pub proof fn law_replies_are_lines(text: Seq<char>)
    ensures
        reply_line(Some(text)) matches Some(l) && l.len() == text.len() + 1 && l.last() == '\n' && l.drop_last()
            == text,
        reply_line(None) is None,
{
    assert(text.push('\n').drop_last() =~= text);
}

/// What the proxy tells of itself: the protocol version and the capabilities as
/// the primary backend has them, and its own name and version; nothing else.
pub proof fn law_capabilities(protocol_version: Seq<char>, name: Seq<char>, version: Seq<char>, capabilities: Json)
    ensures
        ({
            let c = capabilities_data(protocol_version, name, version, capabilities);
            let info = member_of(c, "serverInfo"@);
            &&& member_of(c, "protocolVersion"@) == Some(Json::Text(protocol_version))
            &&& member_of(c, "capabilities"@) == Some(capabilities)
            &&& info is Some
            &&& member_of(info->0, "name"@) == Some(Json::Text("turbobench/"@ + name))
            &&& member_of(info->0, "version"@) == Some(Json::Text(version))
            &&& c->Object_0.len() == 3
            &&& info->0->Object_0.len() == 2
            &&& c->Object_0[0].0 == "protocolVersion"@
            &&& c->Object_0[1].0 == "serverInfo"@
            &&& c->Object_0[2].0 == "capabilities"@
            &&& info->0->Object_0[0].0 == "name"@
        }),
{
    reveal_strlit("protocolVersion");
    reveal_strlit("serverInfo");
    reveal_strlit("capabilities");
    reveal_strlit("name");
    reveal_strlit("version");
    assert("name"@.len() == 4 && "version"@.len() == 7);
    assert("protocolVersion"@.len() == 15 && "serverInfo"@.len() == 10 && "capabilities"@.len() == 12);
    reveal_with_fuel(crate::json::lookup, 4);
    let c = capabilities_data(protocol_version, name, version, capabilities)->Object_0;
    let info = member_of(Json::Object(c), "serverInfo"@);
    assert(c.drop_last().last() == c[1]);
    assert(c.drop_last().drop_last().last() == c[0]);
    let i = c[1].1->Object_0;
    assert(i.drop_last().last() == i[0]);
}

/// What is said when a session starts: the session, the primary backend, and the
/// shadow where there is one, each on a line of its own.
pub proof fn law_banner(p: BenchProxy, id: Seq<char>)
    ensures
        p.banner_texts(id)[0] == "[turbobench] session "@ + session_prefix(id),
        p.banner_texts(id)[1] == "[turbobench] primary: "@ + p.primary_name@,
        p.shadow_name is None ==> p.banner_texts(id).len() == 2,
        p.shadow_name matches Some(s) ==> p.banner_texts(id).len() == 3 && p.banner_texts(id)[2]
            == "[turbobench] shadow:  "@ + s@,
        p.target_name(Target::Primary) == Some(p.primary_name@),
        p.shadow_name matches Some(s) ==> p.target_name(Target::Shadow) == Some(s@),
        p.shadow_name is None ==> p.target_name(Target::Shadow) is None,
{
}

/// Calls, refusals, replies and actions say what they hold.
pub proof fn law_views(c: Call, e: Refusal, r: Reply, a: LineAction, q: Request, i: Invocation)
    ensures
        match c {
            Call::ListTools => c@ == CallData::ListTools,
            Call::CallTool(t) => c@ == CallData::CallTool(t@),
            Call::ListResources => c@ == CallData::ListResources,
            Call::ReadResource(u) => c@ == CallData::ReadResource(u@),
            Call::ListPrompts => c@ == CallData::ListPrompts,
            Call::GetPrompt(t) => c@ == CallData::GetPrompt(t@),
        },
        i@.name == i.name@,
        match i.arguments {
            Some(m) => i@.arguments == Some(argument_map(m)),
            None => i@.arguments is None,
        },
        match e {
            Refusal::Internal(m) => e@ == RefusalData::Internal(m@),
            Refusal::InvalidParams(m) => e@ == RefusalData::InvalidParams(m@),
            Refusal::Serialization(m) => e@ == RefusalData::Serialization(m@),
        },
        match r {
            Reply::ParseError => r@.id is None && (r@.outcome matches Err(x) && x.code == -32700),
            Reply::Success { result, id } => r@.id == Some(id) && r@.outcome == Ok::<Json, ErrorData>(contents(result)),
            Reply::InternalError { id } => r@.id == Some(id) && (r@.outcome matches Err(x) && x.code == -32603),
        },
        match a {
            LineAction::Ignore => a@ == ActionData::Ignore,
            LineAction::Answer(x) => a@ == ActionData::Answer(x@),
            LineAction::Initialize { id } => a@ == (ActionData::Initialize { id }),
            LineAction::Forward(x) => a@ == ActionData::Forward(x@),
        },
        q@.id == q.id,
        q@.method == q.method@,
        match q.params {
            Some(v) => q@.params == Some(contents(v)),
            None => q@.params is None,
        },
{
}

/// A decoded call is planned as it was decoded, with the size it is given; where
/// decoding failed, the refusal has the decoder's message.
pub proof fn law_plans(i: InvocationData, u: Seq<char>, m: Seq<char>, n: usize)
    ensures
        tool_plan(Ok(i), n) == Ok::<(CallData, usize), RefusalData>((CallData::CallTool(i), n)),
        prompt_plan(Ok(i), n) == Ok::<(CallData, usize), RefusalData>((CallData::GetPrompt(i), n)),
        resource_plan(Ok(u), n) == Ok::<(CallData, usize), RefusalData>((CallData::ReadResource(u), n)),
        tool_plan(Err(m), n) == Err::<(CallData, usize), RefusalData>(RefusalData::InvalidParams(m)),
        prompt_plan(Err(m), n) == Err::<(CallData, usize), RefusalData>(RefusalData::InvalidParams(m)),
        resource_plan(Err(m), n) == Err::<(CallData, usize), RefusalData>(RefusalData::InvalidParams(m)),
{
}

/// Plans and decoded parameters say what they hold.
pub proof fn law_plan_views(
    c: PlannedCall,
    e: Refusal,
    i: Invocation,
    u: String,
    x: serde_json::Error,
    v: Value,
)
    ensures
        plan_data(Ok(c)) == Ok::<(CallData, usize), RefusalData>((c.call@, c.request_bytes)),
        plan_data(Err(e)) == Err::<(CallData, usize), RefusalData>(e@),
        invocation_data(Ok(i)) == Ok::<InvocationData, Seq<char>>(i@),
        invocation_data(Err(x)) == Err::<InvocationData, Seq<char>>(error_message(x)),
        uri_data(Ok(u)) == Ok::<Seq<char>, Seq<char>>(u@),
        uri_data(Err(x)) == Err::<Seq<char>, Seq<char>>(error_message(x)),
        params_data(Some(v)) == Some(contents(v)),
        params_data(None) is None,
{
}

} // verus!
