//! The request router: which handler a request goes to, what each JSON-RPC
//! method answers, and what a tool call has to do on the link or in the
//! script runner before it can be answered.

use vstd::prelude::*;
use crate::arguments::{check_arguments, check_function_arguments, fault_message};
use crate::connection::{
    call_frame, result_text, ConnectionManager, Exchange, ExchangeView, RobotState, StateView,
};
use crate::manifest::{
    function_names, functions_view, opt_manifest_view, tool_of, tools_for, tools_of, tools_view,
    Function, FunctionView, Manifest, ManifestView, Tool, ToolView,
};
use crate::json::{
    array_from, duplicate_opt, items_view, member, members_view, object_from,
    opt_owned_json_view, or_null, Json, JsonView, NumberView,
};
use crate::protocol::{reads_as_string, ReaderView};
use crate::text::{str_eq, strings_view};
use vstd::utf8::{decode_utf8, valid_utf8};

verus! {

/// The JSON-RPC code for a body that is no valid request.
pub const PARSE_ERROR: i32 = -32700;

/// The JSON-RPC code for a method that is not known.
pub const METHOD_NOT_FOUND: i32 = -32601;

/// The JSON-RPC code for parameters that are missing or wrong.
pub const INVALID_PARAMS: i32 = -32602;

/// The JSON-RPC code for a call that failed while it was carried out.
pub const INTERNAL_ERROR: i32 = -32603;

/// A JSON-RPC request.
#[derive(Debug, PartialEq, Eq)]
pub struct McpRequest {
    pub jsonrpc: String,
    pub id: Option<Json>,
    pub method: String,
    pub params: Option<Json>,
}

/// The error of a JSON-RPC response.
#[derive(Debug, PartialEq, Eq)]
pub struct McpError {
    pub code: i32,
    pub message: String,
    pub data: Option<Json>,
}

/// A JSON-RPC response: it carries a result or an error.
#[derive(Debug, PartialEq, Eq)]
pub struct McpResponse {
    pub jsonrpc: String,
    pub id: Option<Json>,
    pub result: Option<Json>,
    pub error: Option<McpError>,
}

/// A request as a mathematical value.
pub struct RequestView {
    pub jsonrpc: Seq<char>,
    pub id: Option<JsonView>,
    pub method: Seq<char>,
    pub params: Option<JsonView>,
}

/// An error as a mathematical value.
pub struct ErrorView {
    pub code: int,
    pub message: Seq<char>,
    pub data: Option<JsonView>,
}

/// A response as a mathematical value.
pub struct ResponseView {
    pub jsonrpc: Seq<char>,
    pub id: Option<JsonView>,
    pub result: Option<JsonView>,
    pub error: Option<ErrorView>,
}

impl View for McpRequest {
    type V = RequestView;

    open spec fn view(&self) -> RequestView {
        RequestView {
            jsonrpc: self.jsonrpc@,
            id: opt_owned_json_view(self.id),
            method: self.method@,
            params: opt_owned_json_view(self.params),
        }
    }
}

impl View for McpError {
    type V = ErrorView;

    open spec fn view(&self) -> ErrorView {
        ErrorView {
            code: self.code as int,
            message: self.message@,
            data: opt_owned_json_view(self.data),
        }
    }
}

impl View for McpResponse {
    type V = ResponseView;

    open spec fn view(&self) -> ResponseView {
        ResponseView {
            jsonrpc: self.jsonrpc@,
            id: opt_owned_json_view(self.id),
            result: opt_owned_json_view(self.result),
            error: match self.error {
                Some(e) => Some(e@),
                None => None,
            },
        }
    }
}

/// The fields of a request that must be there.
#[derive(Debug, Clone, Copy, PartialEq, Eq, Structural)]
pub enum RequestField {
    Jsonrpc,
    Method,
}

/// Why a JSON value is no request.
#[derive(Debug, Clone, Copy, PartialEq, Eq, Structural)]
pub enum RequestError {
    /// The value is no object.
    NotAnObject,
    /// The object lacks this field.
    Missing(RequestField),
    /// This field is no string.
    Mistyped(RequestField),
}

impl RequestField {
    /// The key of the field in the request.
    pub open spec fn key(self) -> Seq<char> {
        match self {
            RequestField::Jsonrpc => "jsonrpc"@,
            RequestField::Method => "method"@,
        }
    }

    /// The key of the field in the request.
    pub fn name(&self) -> (key: &'static str)
        ensures
            key@ == self.key(),
    {
        match self {
            RequestField::Jsonrpc => "jsonrpc",
            RequestField::Method => "method",
        }
    }
}

impl RequestError {
    /// The error in words.
    pub open spec fn message_spec(self) -> Seq<char> {
        match self {
            RequestError::NotAnObject => "the request must be an object"@,
            RequestError::Missing(field) => "missing field `"@ + field.key() + "`"@,
            RequestError::Mistyped(field) => "field `"@ + field.key() + "` must be a string"@,
        }
    }

    /// The error in words.
    pub fn message(&self) -> (text: String)
        ensures
            text@ == self.message_spec(),
    {
        match self {
            RequestError::NotAnObject => String::from_str("the request must be an object"),
            RequestError::Missing(field) => {
                let mut text = String::from_str("missing field `");
                text.append(field.name());
                text.append("`");
                text
            },
            RequestError::Mistyped(field) => {
                let mut text = String::from_str("field `");
                text.append(field.name());
                text.append("` must be a string");
                text
            },
        }
    }
}

/// A field of a request that must be a string.
pub open spec fn request_text(body: JsonView, field: RequestField) -> Result<
    Seq<char>,
    RequestError,
> {
    match body.get(field.key()) {
        None => Err(RequestError::Missing(field)),
        Some(JsonView::Str(text)) => Ok(text),
        Some(_) => Err(RequestError::Mistyped(field)),
    }
}

/// A field of a request that may be absent; `null` counts as absent.
pub open spec fn request_value(body: JsonView, key: Seq<char>) -> Option<JsonView> {
    match body.get(key) {
        None => None,
        Some(JsonView::Null) => None,
        Some(value) => Some(value),
    }
}

/// The request that a JSON value stands for: an object with the strings
/// `jsonrpc` and `method`, and with `id` and `params` if they are given.
pub open spec fn request_of(body: JsonView) -> Result<RequestView, RequestError> {
    if !(body is Object) {
        Err(RequestError::NotAnObject)
    } else {
        match request_text(body, RequestField::Jsonrpc) {
            Err(e) => Err(e),
            Ok(jsonrpc) => match request_text(body, RequestField::Method) {
                Err(e) => Err(e),
                Ok(method) => Ok(
                    RequestView {
                        jsonrpc,
                        id: request_value(body, "id"@),
                        method,
                        params: request_value(body, "params"@),
                    },
                ),
            },
        }
    }
}

/// Reads a field of a request that may be absent.
fn read_request_value(body: &Json, key: &str) -> (value: Option<Json>)
    ensures
        opt_owned_json_view(value) == request_value(body@, key@),
{
    match body.get(key) {
        None => None,
        Some(Json::Null) => None,
        Some(value) => Some(value.duplicate()),
    }
}

/// Reads a field of a request that must be a string.
fn read_request_text(body: &Json, field: RequestField) -> (result: Result<String, RequestError>)
    ensures
        match result {
            Ok(text) => request_text(body@, field) == Ok::<Seq<char>, RequestError>(text@),
            Err(e) => request_text(body@, field) == Err::<Seq<char>, RequestError>(e),
        },
{
    match body.get(field.name()) {
        None => Err(RequestError::Missing(field)),
        Some(Json::Str(text)) => Ok(text.clone()),
        Some(_) => Err(RequestError::Mistyped(field)),
    }
}

impl McpRequest {
    /// Reads the request that a JSON value stands for.
    pub fn from_json(body: &Json) -> (result: Result<McpRequest, RequestError>)
        ensures
            match result {
                Ok(request) => request_of(body@) == Ok::<RequestView, RequestError>(request@),
                Err(e) => request_of(body@) == Err::<RequestView, RequestError>(e),
            },
    {
        match body {
            Json::Object(_) => {},
            _ => {
                return Err(RequestError::NotAnObject);
            },
        }
        let jsonrpc = match read_request_text(body, RequestField::Jsonrpc) {
            Ok(text) => text,
            Err(e) => {
                return Err(e);
            },
        };
        let method = match read_request_text(body, RequestField::Method) {
            Ok(text) => text,
            Err(e) => {
                return Err(e);
            },
        };
        Ok(
            McpRequest {
                jsonrpc,
                id: read_request_value(body, "id"),
                method,
                params: read_request_value(body, "params"),
            },
        )
    }
}

/// The response that carries a result.
pub open spec fn success(id: Option<JsonView>, result: JsonView) -> ResponseView {
    ResponseView { jsonrpc: "2.0"@, id, result: Some(result), error: None }
}

/// The response that carries an error.
pub open spec fn failure(
    id: Option<JsonView>,
    code: int,
    message: Seq<char>,
    data: Option<JsonView>,
) -> ResponseView {
    ResponseView {
        jsonrpc: "2.0"@,
        id,
        result: None,
        error: Some(ErrorView { code, message, data }),
    }
}

impl ErrorView {
    /// The error as the JSON object that is sent.
    pub open spec fn to_json(self) -> JsonView {
        JsonView::Object(
            seq![
                ("code"@, JsonView::Number(NumberView::Integer(self.code))),
                ("message"@, JsonView::Str(self.message)),
                ("data"@, or_null(self.data)),
            ],
        )
    }
}

impl ResponseView {
    /// The response as the JSON object that is sent.
    pub open spec fn to_json(self) -> JsonView {
        JsonView::Object(
            seq![
                ("jsonrpc"@, JsonView::Str(self.jsonrpc)),
                ("id"@, or_null(self.id)),
                ("result"@, or_null(self.result)),
                (
                    "error"@,
                    match self.error {
                        Some(e) => e.to_json(),
                        None => JsonView::Null,
                    },
                ),
            ],
        )
    }
}

/// A copy of an optional value, or `null` where there is none.
pub fn duplicate_or_null(value: &Option<Json>) -> (copy: Json)
    ensures
        copy@ == or_null(opt_owned_json_view(*value)),
{
    match value {
        Some(v) => v.duplicate(),
        None => Json::Null,
    }
}

impl McpError {
    /// The error as the JSON object that is sent.
    pub fn to_json(&self) -> (json: Json)
        ensures
            json@ == self@.to_json(),
    {
        let mut members: Vec<(String, Json)> = Vec::new();
        members.push(member("code", Json::integer(self.code as i64)));
        members.push(member("message", Json::Str(self.message.clone())));
        members.push(member("data", duplicate_or_null(&self.data)));
        proof {
            assert(members_view(members@) =~= self@.to_json()->Object_0);
        }
        object_from(members)
    }
}

impl McpResponse {
    /// The response that answers `id` with a result.
    pub fn success(id: &Option<Json>, result: Json) -> (response: McpResponse)
        ensures
            response@ == success(opt_owned_json_view(*id), result@),
    {
        McpResponse {
            jsonrpc: String::from_str("2.0"),
            id: duplicate_opt(id),
            result: Some(result),
            error: None,
        }
    }

    /// The response that answers `id` with an error.
    pub fn failure(id: &Option<Json>, code: i32, message: String, data: Option<Json>) -> (response:
        McpResponse)
        ensures
            response@ == failure(
                opt_owned_json_view(*id),
                code as int,
                message@,
                opt_owned_json_view(data),
            ),
    {
        McpResponse {
            jsonrpc: String::from_str("2.0"),
            id: duplicate_opt(id),
            result: None,
            error: Some(McpError { code, message, data }),
        }
    }

    /// The response as the JSON object that is sent.
    pub fn to_json(&self) -> (json: Json)
        ensures
            json@ == self@.to_json(),
    {
        let mut members: Vec<(String, Json)> = Vec::new();
        members.push(member("jsonrpc", Json::Str(self.jsonrpc.clone())));
        members.push(member("id", duplicate_or_null(&self.id)));
        members.push(member("result", duplicate_or_null(&self.result)));
        let error = match &self.error {
            Some(e) => e.to_json(),
            None => Json::Null,
        };
        members.push(member("error", error));
        proof {
            assert(members_view(members@) =~= self@.to_json()->Object_0);
        }
        object_from(members)
    }
}

/// The HTTP methods that the router tells apart.
#[derive(Debug, Clone, Copy, PartialEq, Eq, Structural)]
pub enum HttpMethod {
    Get,
    Post,
    Options,
    Other,
}

/// Where a request goes.
#[derive(Debug, Clone, Copy, PartialEq, Eq, Structural)]
pub enum Route {
    /// The JSON-RPC endpoint.
    Mcp,
    /// The summary of the link's state.
    Status,
    /// The fixed health answer.
    Health,
    /// The answer to a CORS preflight.
    Preflight,
    /// Nothing is served there.
    NotFound,
}

/// Where a request with this method and path goes.
pub open spec fn route_of(method: HttpMethod, path: Seq<char>) -> Route {
    match method {
        HttpMethod::Post => {
            if path == "/mcp"@ {
                Route::Mcp
            } else if path == "/status"@ {
                Route::Status
            } else {
                Route::NotFound
            }
        },
        HttpMethod::Get => {
            if path == "/status"@ {
                Route::Status
            } else if path == "/health"@ {
                Route::Health
            } else {
                Route::NotFound
            }
        },
        HttpMethod::Options => Route::Preflight,
        HttpMethod::Other => Route::NotFound,
    }
}

/// The JSON-RPC methods that the router knows.
#[derive(Debug, Clone, Copy, PartialEq, Eq, Structural)]
pub enum RpcMethod {
    Initialize,
    Initialized,
    ToolsList,
    ToolsCall,
    Unknown,
}

/// The method that a method name stands for.
pub open spec fn rpc_method_of(name: Seq<char>) -> RpcMethod {
    if name == "initialize"@ {
        RpcMethod::Initialize
    } else if name == "notifications/initialized"@ {
        RpcMethod::Initialized
    } else if name == "tools/list"@ {
        RpcMethod::ToolsList
    } else if name == "tools/call"@ {
        RpcMethod::ToolsCall
    } else {
        RpcMethod::Unknown
    }
}

/// The body of an HTTP reply.
#[derive(Debug, PartialEq, Eq)]
pub enum ReplyBody {
    /// No body.
    Empty,
    /// This text.
    Text(String),
    /// This value, as JSON text.
    Json(Json),
    /// An event stream that is kept open and never closed by the server.
    EventStream,
}

/// The body of a reply as a mathematical value.
pub enum BodyView {
    Empty,
    Text(Seq<char>),
    Json(JsonView),
    EventStream,
}

impl View for ReplyBody {
    type V = BodyView;

    open spec fn view(&self) -> BodyView {
        match self {
            ReplyBody::Empty => BodyView::Empty,
            ReplyBody::Text(text) => BodyView::Text(text@),
            ReplyBody::Json(json) => BodyView::Json(json@),
            ReplyBody::EventStream => BodyView::EventStream,
        }
    }
}

/// An HTTP reply: the status, the headers in order, and the body.
#[derive(Debug, PartialEq, Eq)]
pub struct HttpReply {
    pub status: u16,
    pub headers: Vec<(String, String)>,
    pub body: ReplyBody,
}

/// A reply as a mathematical value.
pub struct ReplyView {
    pub status: int,
    pub headers: Seq<(Seq<char>, Seq<char>)>,
    pub body: BodyView,
}

/// The headers of a reply as values.
pub open spec fn headers_view(headers: Seq<(String, String)>) -> Seq<(Seq<char>, Seq<char>)> {
    Seq::new(headers.len(), |i: int| (headers[i].0@, headers[i].1@))
}

impl View for HttpReply {
    type V = ReplyView;

    open spec fn view(&self) -> ReplyView {
        ReplyView {
            status: self.status as int,
            headers: headers_view(self.headers@),
            body: self.body@,
        }
    }
}

/// The three headers that let a page of any origin use the endpoint.
pub open spec fn cors_headers() -> Seq<(Seq<char>, Seq<char>)> {
    seq![
        ("Access-Control-Allow-Origin"@, "*"@),
        ("Access-Control-Allow-Methods"@, "GET, POST, OPTIONS"@),
        ("Access-Control-Allow-Headers"@, "Content-Type"@),
    ]
}

/// Whether a reply carries the three CORS headers.
pub open spec fn has_cors(reply: ReplyView) -> bool {
    forall|i: int|
        0 <= i < cors_headers().len() ==> reply.headers.contains(#[trigger] cors_headers()[i])
}

/// The reply that carries a JSON value.
pub open spec fn json_reply(body: JsonView) -> ReplyView {
    ReplyView {
        status: 200,
        headers: seq![("Content-Type"@, "application/json"@)] + cors_headers(),
        body: BodyView::Json(body),
    }
}

/// The reply to a CORS preflight.
pub open spec fn preflight_reply() -> ReplyView {
    ReplyView { status: 200, headers: cors_headers(), body: BodyView::Empty }
}

/// The reply for a path where nothing is served.
pub open spec fn not_found_reply() -> ReplyView {
    ReplyView { status: 404, headers: cors_headers(), body: BodyView::Text("Not Found"@) }
}

/// The reply to a notification that needs no answer.
pub open spec fn empty_reply() -> ReplyView {
    ReplyView {
        status: 204,
        headers: seq![("Content-Type"@, "application/json"@)] + cors_headers(),
        body: BodyView::Empty,
    }
}

/// The reply that opens an event stream.
pub open spec fn stream_reply() -> ReplyView {
    ReplyView {
        status: 202,
        headers: seq![("Content-Type"@, "text/event-stream"@), ("Cache-Control"@, "no-cache"@)]
            + cors_headers(),
        body: BodyView::EventStream,
    }
}

/// The fixed health answer.
pub open spec fn health_json() -> JsonView {
    JsonView::Object(
        seq![
            ("status"@, JsonView::Str("ok"@)),
            ("service"@, JsonView::Str("arduino-mcp-adapter"@)),
            ("version"@, JsonView::Str("0.1.0"@)),
        ],
    )
}

/// The summary of the link's state.
pub open spec fn status_json(state: StateView) -> JsonView {
    JsonView::Object(
        seq![
            ("state"@, JsonView::Str(state.label())),
            ("message"@, JsonView::Str(state.message())),
            (
                "device_id"@,
                match state.device_id() {
                    Some(id) => JsonView::Str(id),
                    None => JsonView::Null,
                },
            ),
            ("ready"@, JsonView::Bool(state is Ready)),
        ],
    )
}

/// The result of `initialize`.
pub open spec fn initialize_json() -> JsonView {
    JsonView::Object(
        seq![
            ("protocolVersion"@, JsonView::Str("2024-11-05"@)),
            (
                "capabilities"@,
                JsonView::Object(seq![("tools"@, JsonView::Object(Seq::empty()))]),
            ),
            (
                "serverInfo"@,
                JsonView::Object(
                    seq![
                        ("name"@, JsonView::Str("arduino-mcp-adapter"@)),
                        ("version"@, JsonView::Str("0.1.0"@)),
                    ],
                ),
            ),
        ],
    )
}

/// The message for a body that is no valid request.
pub open spec fn parse_error_text(detail: Seq<char>) -> Seq<char> {
    "JSON parse error: "@ + detail
        + ". Check your JSON syntax - you may have missing quotes, extra commas, or malformed structure."@
}

/// Appends the three CORS headers.
fn push_cors(headers: &mut Vec<(String, String)>)
    ensures
        headers_view(final(headers)@) == headers_view(old(headers)@) + cors_headers(),
{
    headers.push((String::from_str("Access-Control-Allow-Origin"), String::from_str("*")));
    headers.push(
        (String::from_str("Access-Control-Allow-Methods"), String::from_str("GET, POST, OPTIONS")),
    );
    headers.push(
        (String::from_str("Access-Control-Allow-Headers"), String::from_str("Content-Type")),
    );
    proof {
        assert(headers_view(headers@) =~= headers_view(old(headers)@) + cors_headers());
    }
}

/// The router. It keeps no state of its own: every handler is a function
/// of the request, a snapshot of the link's state and the manifest of the
/// device.
pub struct McpServer {}

impl McpServer {
    /// A router.
    pub fn new() -> (server: Self) {
        McpServer {  }
    }

    /// Where a request with this method and path goes.
    pub fn handle_request(method: HttpMethod, path: &str) -> (route: Route)
        ensures
            route == route_of(method, path@),
    {
        match method {
            HttpMethod::Post => {
                if str_eq(path, "/mcp") {
                    Route::Mcp
                } else if str_eq(path, "/status") {
                    Route::Status
                } else {
                    Route::NotFound
                }
            },
            HttpMethod::Get => {
                if str_eq(path, "/status") {
                    Route::Status
                } else if str_eq(path, "/health") {
                    Route::Health
                } else {
                    Route::NotFound
                }
            },
            HttpMethod::Options => Route::Preflight,
            HttpMethod::Other => Route::NotFound,
        }
    }

    /// The method that a method name stands for.
    pub fn rpc_method(name: &str) -> (method: RpcMethod)
        ensures
            method == rpc_method_of(name@),
    {
        if str_eq(name, "initialize") {
            RpcMethod::Initialize
        } else if str_eq(name, "notifications/initialized") {
            RpcMethod::Initialized
        } else if str_eq(name, "tools/list") {
            RpcMethod::ToolsList
        } else if str_eq(name, "tools/call") {
            RpcMethod::ToolsCall
        } else {
            RpcMethod::Unknown
        }
    }

    /// The reply that carries a JSON value.
    pub fn json_response(body: Json) -> (reply: HttpReply)
        ensures
            reply@ == json_reply(body@),
            has_cors(reply@),
    {
        let mut headers: Vec<(String, String)> = Vec::new();
        headers.push((String::from_str("Content-Type"), String::from_str("application/json")));
        proof {
            assert(headers_view(headers@) =~= seq![("Content-Type"@, "application/json"@)]);
        }
        push_cors(&mut headers);
        let reply = HttpReply { status: 200, headers, body: ReplyBody::Json(body) };
        proof {
            lemma_replies_have_cors(body@);
        }
        reply
    }

    /// The reply to a CORS preflight.
    pub fn cors_response() -> (reply: HttpReply)
        ensures
            reply@ == preflight_reply(),
            has_cors(reply@),
    {
        let mut headers: Vec<(String, String)> = Vec::new();
        proof {
            assert(headers_view(headers@) =~= Seq::<(Seq<char>, Seq<char>)>::empty());
        }
        push_cors(&mut headers);
        proof {
            assert(headers_view(headers@) =~= cors_headers());
            lemma_replies_have_cors(JsonView::Null);
        }
        HttpReply { status: 200, headers, body: ReplyBody::Empty }
    }

    /// The reply for a path where nothing is served.
    pub fn not_found_response() -> (reply: HttpReply)
        ensures
            reply@ == not_found_reply(),
            has_cors(reply@),
    {
        let mut headers: Vec<(String, String)> = Vec::new();
        proof {
            assert(headers_view(headers@) =~= Seq::<(Seq<char>, Seq<char>)>::empty());
        }
        push_cors(&mut headers);
        proof {
            assert(headers_view(headers@) =~= cors_headers());
            lemma_replies_have_cors(JsonView::Null);
        }
        HttpReply { status: 404, headers, body: ReplyBody::Text(String::from_str("Not Found")) }
    }

    /// The reply to a notification that needs no answer.
    pub fn empty_response() -> (reply: HttpReply)
        ensures
            reply@ == empty_reply(),
            has_cors(reply@),
    {
        let mut headers: Vec<(String, String)> = Vec::new();
        headers.push((String::from_str("Content-Type"), String::from_str("application/json")));
        proof {
            assert(headers_view(headers@) =~= seq![("Content-Type"@, "application/json"@)]);
        }
        push_cors(&mut headers);
        proof {
            lemma_replies_have_cors(JsonView::Null);
        }
        HttpReply { status: 204, headers, body: ReplyBody::Empty }
    }

    /// The reply that opens an event stream, which the server keeps open.
    pub fn sse_stream_response() -> (reply: HttpReply)
        ensures
            reply@ == stream_reply(),
            has_cors(reply@),
    {
        let mut headers: Vec<(String, String)> = Vec::new();
        headers.push((String::from_str("Content-Type"), String::from_str("text/event-stream")));
        headers.push((String::from_str("Cache-Control"), String::from_str("no-cache")));
        proof {
            assert(headers_view(headers@) =~= seq![
                ("Content-Type"@, "text/event-stream"@),
                ("Cache-Control"@, "no-cache"@),
            ]);
        }
        push_cors(&mut headers);
        proof {
            lemma_replies_have_cors(JsonView::Null);
        }
        HttpReply { status: 202, headers, body: ReplyBody::EventStream }
    }

    /// The fixed health answer.
    pub fn health_response() -> (reply: HttpReply)
        ensures
            reply@ == json_reply(health_json()),
            has_cors(reply@),
    {
        let mut members: Vec<(String, Json)> = Vec::new();
        members.push(member("status", Json::text("ok")));
        members.push(member("service", Json::text("arduino-mcp-adapter")));
        members.push(member("version", Json::text("0.1.0")));
        proof {
            assert(members_view(members@) =~= health_json()->Object_0);
        }
        McpServer::json_response(object_from(members))
    }

    /// The reply that carries an error which answers no request in
    /// particular.
    pub fn error_response(code: i32, message: &str) -> (reply: HttpReply)
        ensures
            reply@ == json_reply(failure(None, code as int, message@, None).to_json()),
            has_cors(reply@),
    {
        let response = McpResponse::failure(&None, code, String::from_str(message), None);
        McpServer::json_response(response.to_json())
    }

    /// The reply for a body that is no valid request; `detail` says what
    /// the parser found.
    pub fn parse_error_response(detail: &str) -> (reply: HttpReply)
        ensures
            reply@ == json_reply(
                failure(None, PARSE_ERROR as int, parse_error_text(detail@), None).to_json(),
            ),
            has_cors(reply@),
    {
        let mut message = String::from_str("JSON parse error: ");
        message.append(detail);
        message.append(
            ". Check your JSON syntax - you may have missing quotes, extra commas, or malformed structure.",
        );
        McpServer::error_response(PARSE_ERROR, message.as_str())
    }

    /// The summary of the link's state.
    pub fn handle_status(state: &RobotState) -> (reply: HttpReply)
        ensures
            reply@ == json_reply(status_json(state@)),
            has_cors(reply@),
    {
        let mut members: Vec<(String, Json)> = Vec::new();
        members.push(member("state", Json::Str(state.label())));
        members.push(member("message", Json::Str(state.error_message())));
        let device_id = match state.device_id() {
            Some(id) => Json::text(id),
            None => Json::Null,
        };
        members.push(member("device_id", device_id));
        members.push(member("ready", Json::Bool(state.is_ready())));
        proof {
            assert(members_view(members@) =~= status_json(state@)->Object_0);
        }
        McpServer::json_response(object_from(members))
    }

    /// The answer to `initialize`.
    pub fn handle_initialize(request: &McpRequest) -> (response: McpResponse)
        ensures
            response@ == success(request@.id, initialize_json()),
    {
        let mut capabilities: Vec<(String, Json)> = Vec::new();
        let none: Vec<(String, Json)> = Vec::new();
        proof {
            assert(members_view(none@) =~= Seq::<(Seq<char>, JsonView)>::empty());
        }
        capabilities.push(member("tools", object_from(none)));
        let mut info: Vec<(String, Json)> = Vec::new();
        info.push(member("name", Json::text("arduino-mcp-adapter")));
        info.push(member("version", Json::text("0.1.0")));
        let mut members: Vec<(String, Json)> = Vec::new();
        members.push(member("protocolVersion", Json::text("2024-11-05")));
        proof {
            assert(members_view(capabilities@) =~= seq![
                ("tools"@, JsonView::Object(Seq::empty())),
            ]);
            assert(members_view(info@) =~= seq![
                ("name"@, JsonView::Str("arduino-mcp-adapter"@)),
                ("version"@, JsonView::Str("0.1.0"@)),
            ]);
        }
        members.push(member("capabilities", object_from(capabilities)));
        members.push(member("serverInfo", object_from(info)));
        proof {
            assert(members_view(members@) =~= initialize_json()->Object_0);
        }
        McpResponse::success(&request.id, object_from(members))
    }

    /// The answer to a method that is not known.
    pub fn method_not_found(request: &McpRequest) -> (response: McpResponse)
        ensures
            response@ == failure(
                request@.id,
                METHOD_NOT_FOUND as int,
                "Method not found"@,
                None,
            ),
    {
        McpResponse::failure(
            &request.id,
            METHOD_NOT_FOUND,
            String::from_str("Method not found"),
            None,
        )
    }
}

/// Every reply that the router makes carries the three CORS headers.
pub proof fn lemma_replies_have_cors(body: JsonView)
    ensures
        has_cors(json_reply(body)),
        has_cors(preflight_reply()),
        has_cors(not_found_reply()),
        has_cors(empty_reply()),
        has_cors(stream_reply()),
{
    let cors = cors_headers();
    let json = json_reply(body).headers;
    let empty = empty_reply().headers;
    let stream = stream_reply().headers;
    assert forall|i: int| 0 <= i < cors.len() implies json.contains(#[trigger] cors[i])
        && cors.contains(cors[i]) && empty.contains(cors[i]) && stream.contains(cors[i]) by {
        assert(json[i + 1] == cors[i]);
        assert(empty[i + 1] == cors[i]);
        assert(stream[i + 2] == cors[i]);
    }
}

/// The name of the tool that runs a script.
pub open spec fn script_tool_name() -> Seq<char> {
    "runPythonScript"@
}

/// The smallest timeout of a script, in seconds.
pub const MIN_SCRIPT_TIMEOUT_SECS: u64 = 1;

/// The largest timeout of a script, in seconds.
pub const MAX_SCRIPT_TIMEOUT_SECS: u64 = 300;

/// The timeout of a script for which none is given, in seconds.
pub const DEFAULT_SCRIPT_TIMEOUT_SECS: u64 = 60;

/// How the script tool is advertised.
pub open spec fn script_tool() -> ToolView {
    ToolView {
        name: script_tool_name(),
        description: "Execute a Python 3 script with access to the robot tools namespace. Use this when you need loops, conditionals, or batching before invoking MCP tools. Inside the script call other tools as `tools.FUNCNAME(arg=value, ...)`. The combined console output is returned as text."@,
        input_schema: JsonView::Object(
            seq![
                ("type"@, JsonView::Str("object"@)),
                (
                    "properties"@,
                    JsonView::Object(
                        seq![
                            (
                                "script"@,
                                JsonView::Object(
                                    seq![
                                        ("type"@, JsonView::Str("string"@)),
                                        (
                                            "description"@,
                                            JsonView::Str(
                                                "Python 3 source code to execute. Use the provided `tools` namespace to call MCP functions."@,
                                            ),
                                        ),
                                    ],
                                ),
                            ),
                            (
                                "timeout"@,
                                JsonView::Object(
                                    seq![
                                        ("type"@, JsonView::Str("integer"@)),
                                        ("minimum"@, JsonView::Number(NumberView::Integer(1))),
                                        ("maximum"@, JsonView::Number(NumberView::Integer(300))),
                                        ("default"@, JsonView::Number(NumberView::Integer(60))),
                                        (
                                            "description"@,
                                            JsonView::Str(
                                                "Optional timeout in seconds (default 60, maximum 300)."@,
                                            ),
                                        ),
                                    ],
                                ),
                            ),
                        ],
                    ),
                ),
                ("required"@, JsonView::Array(seq![JsonView::Str("script"@)])),
            ],
        ),
    }
}

/// A tool as the JSON object that is sent.
pub open spec fn tool_json(tool: ToolView) -> JsonView {
    JsonView::Object(
        seq![
            ("name"@, JsonView::Str(tool.name)),
            ("description"@, JsonView::Str(tool.description)),
            ("inputSchema"@, tool.input_schema),
        ],
    )
}

/// The result of `tools/list` for a device that is ready: the tools of its
/// manifest, and the script tool after them.
pub open spec fn tools_json(m: ManifestView) -> JsonView {
    JsonView::Object(
        seq![
            (
                "tools"@,
                JsonView::Array(
                    Seq::new(
                        m.functions.len() + 1,
                        |i: int|
                            if i < m.functions.len() {
                                tool_json(tool_of(m.functions[i]))
                            } else {
                                tool_json(script_tool())
                            },
                    ),
                ),
            ),
        ],
    )
}

/// The result of `tools/list` while the link is not ready: no tools, and
/// the state of the link.
pub open spec fn no_tools_json(state: StateView) -> JsonView {
    JsonView::Object(
        seq![
            ("tools"@, JsonView::Array(Seq::empty())),
            (
                "_status"@,
                JsonView::Object(
                    seq![
                        ("robot_state"@, JsonView::Str(state.label())),
                        ("message"@, JsonView::Str(state.message())),
                    ],
                ),
            ),
        ],
    )
}

/// The answer to `tools/list`.
pub open spec fn tools_list_response(
    request: RequestView,
    state: StateView,
    manifest: Option<ManifestView>,
    load_error: Seq<char>,
) -> ResponseView {
    if state is Ready {
        match manifest {
            Some(m) => success(request.id, tools_json(m)),
            None => failure(
                request.id,
                INTERNAL_ERROR as int,
                "Failed to load manifest: "@ + load_error,
                None,
            ),
        }
    } else {
        success(request.id, no_tools_json(state))
    }
}

/// The result of a call: one piece of text content.
pub open spec fn text_content(text: Seq<char>) -> JsonView {
    JsonView::Object(
        seq![
            (
                "content"@,
                JsonView::Array(
                    seq![
                        JsonView::Object(
                            seq![("type"@, JsonView::Str("text"@)), ("text"@, JsonView::Str(text))],
                        ),
                    ],
                ),
            ),
        ],
    )
}

/// What is sent along with an error of a call that failed on the link: the
/// state of the link, and what to do.
pub open spec fn state_data(state: StateView) -> JsonView {
    JsonView::Object(
        seq![
            ("robot_state"@, JsonView::Str(state.label())),
            ("suggestion"@, JsonView::Str("Check robot connection and try again"@)),
        ],
    )
}

/// What a tool call has to do next.
#[derive(Debug, PartialEq, Eq)]
pub enum Plan {
    /// Answer with this response; nothing else has to be done.
    Respond(McpResponse),
    /// Open an event stream and keep it open.
    OpenStream,
    /// Write `frame` to the link, read the response frame, and answer with
    /// what `finish_tools_call` makes of it for the function at position
    /// `function` of the manifest.
    Transact { function: usize, frame: Vec<u8> },
    /// Run `script` with the tools `tool_names` for at most `timeout_secs`
    /// seconds, and answer with its output.
    RunScript { script: String, timeout_secs: u64, tool_names: Vec<String> },
}

/// A plan as a mathematical value.
pub enum PlanView {
    Respond(ResponseView),
    OpenStream,
    Transact { function: int, frame: Seq<u8> },
    RunScript { script: Seq<char>, timeout_secs: int, tool_names: Seq<Seq<char>> },
}

impl View for Plan {
    type V = PlanView;

    open spec fn view(&self) -> PlanView {
        match self {
            Plan::Respond(response) => PlanView::Respond(response@),
            Plan::OpenStream => PlanView::OpenStream,
            Plan::Transact { function, frame } => PlanView::Transact {
                function: *function as int,
                frame: frame@,
            },
            Plan::RunScript { script, timeout_secs, tool_names } => PlanView::RunScript {
                script: script@,
                timeout_secs: *timeout_secs as int,
                tool_names: strings_view(tool_names@),
            },
        }
    }
}

/// The position of the first function named `name`, or the number of
/// functions if there is none.
pub open spec fn function_index(functions: Seq<FunctionView>, name: Seq<char>) -> int
    decreases functions.len(),
{
    if functions.len() == 0 {
        0
    } else if functions[0].name == name {
        0
    } else {
        1 + function_index(functions.drop_first(), name)
    }
}

/// The first function of that name is within the functions where there is
/// one, and no function before it has the name.
pub proof fn lemma_function_index(functions: Seq<FunctionView>, name: Seq<char>)
    ensures
        0 <= function_index(functions, name) <= functions.len(),
        forall|i: int|
            0 <= i < function_index(functions, name) ==> (#[trigger] functions[i]).name != name,
        function_index(functions, name) < functions.len() ==> functions[function_index(
            functions,
            name,
        )].name == name,
    decreases functions.len(),
{
    if functions.len() > 0 && functions[0].name != name {
        let rest = functions.drop_first();
        lemma_function_index(rest, name);
        let at = function_index(functions, name);
        assert forall|i: int| 0 <= i < at implies (#[trigger] functions[i]).name != name by {
            if i > 0 {
                assert(functions[i] == rest[i - 1]);
            }
        }
        if at < functions.len() {
            assert(functions[at] == rest[at - 1]);
        }
    }
}

/// The names of the tools that a script can call: the functions of the
/// manifest, and the script tool itself if no function has its name.
pub open spec fn script_tool_names(m: ManifestView) -> Seq<Seq<char>> {
    let names = function_names(m.functions);
    if function_index(m.functions, script_tool_name()) < m.functions.len() {
        names
    } else {
        names.push(script_tool_name())
    }
}

/// What a call of the script tool has to do: the arguments must hold the
/// script as a string, and may hold a timeout of 1 to 300 seconds.
pub open spec fn script_plan(id: Option<JsonView>, arguments: JsonView, m: ManifestView)
    -> PlanView {
    let invalid = |message: Seq<char>|
        PlanView::Respond(failure(id, INVALID_PARAMS as int, message, None));
    match arguments.get("script"@) {
        None => invalid("Missing required parameter 'script' for runPythonScript"@),
        Some(script_value) => match script_value.as_str() {
            None => invalid("Parameter 'script' must be a string"@),
            Some(script) => match arguments.get("timeout"@) {
                None => PlanView::RunScript {
                    script,
                    timeout_secs: DEFAULT_SCRIPT_TIMEOUT_SECS as int,
                    tool_names: script_tool_names(m),
                },
                Some(timeout_value) => match timeout_value.as_u64() {
                    None => invalid("Parameter 'timeout' must be an integer number of seconds"@),
                    Some(secs) => if secs == 0 {
                        invalid("Parameter 'timeout' must be greater than 0 seconds"@)
                    } else if secs > MAX_SCRIPT_TIMEOUT_SECS {
                        invalid("Parameter 'timeout' cannot exceed 300 seconds"@)
                    } else {
                        PlanView::RunScript {
                            script,
                            timeout_secs: secs,
                            tool_names: script_tool_names(m),
                        }
                    },
                },
            },
        },
    }
}

/// The arguments of a call: what the parameters give as `arguments`, or an
/// empty object.
pub open spec fn call_arguments(params: JsonView) -> JsonView {
    match params.get("arguments"@) {
        Some(arguments) => arguments,
        None => JsonView::Object(Seq::empty()),
    }
}

/// What a call of a function of the manifest has to do: the function must
/// be there and the arguments must fit it; then the command frame is
/// written.
pub open spec fn function_plan(
    id: Option<JsonView>,
    name: Seq<char>,
    arguments: JsonView,
    m: ManifestView,
) -> PlanView {
    let at = function_index(m.functions, name);
    if at >= m.functions.len() {
        PlanView::Respond(
            failure(id, INVALID_PARAMS as int, "Function not found: "@ + name, None),
        )
    } else {
        let func = m.functions[at];
        match check_arguments(func, arguments) {
            Some(e) => PlanView::Respond(
                failure(
                    id,
                    INVALID_PARAMS as int,
                    "Invalid arguments: "@ + fault_message(e, func, arguments),
                    None,
                ),
            ),
            None => PlanView::Transact { function: at, frame: call_frame(func, arguments) },
        }
    }
}

/// What `tools/call` has to do. The checks are made in this order: the
/// parameters and the tool name must be there; the link must be ready; the
/// manifest of the device must be there; then the tool is the script tool
/// or a function of the manifest.
pub open spec fn tools_call_plan(
    request: RequestView,
    state: StateView,
    manifest: Option<ManifestView>,
    load_error: Seq<char>,
) -> PlanView {
    let id = request.id;
    match request.params {
        None => PlanView::Respond(failure(id, INVALID_PARAMS as int, "Missing params"@, None)),
        Some(params) => {
            let name = match params.get("name"@) {
                Some(value) => value.as_str(),
                None => None,
            };
            match name {
                None => PlanView::Respond(
                    failure(id, INVALID_PARAMS as int, "Missing tool name"@, None),
                ),
                Some(tool_name) => {
                    if !(state is Ready) {
                        PlanView::Respond(
                            failure(
                                id,
                                INTERNAL_ERROR as int,
                                "Robot not ready: "@ + state.message(),
                                Some(state_data(state)),
                            ),
                        )
                    } else {
                        match manifest {
                            None => PlanView::Respond(
                                failure(
                                    id,
                                    INTERNAL_ERROR as int,
                                    "Failed to load manifest: "@ + load_error,
                                    None,
                                ),
                            ),
                            Some(m) => {
                                if tool_name == script_tool_name() {
                                    script_plan(id, call_arguments(params), m)
                                } else {
                                    function_plan(id, tool_name, call_arguments(params), m)
                                }
                            },
                        }
                    }
                },
            }
        },
    }
}

/// The device whose manifest a request needs before it can be handled.
pub open spec fn manifest_needed_for(request: RequestView, state: StateView) -> Option<Seq<char>> {
    match rpc_method_of(request.method) {
        RpcMethod::ToolsList => state.device_id(),
        RpcMethod::ToolsCall => state.device_id(),
        _ => None,
    }
}

/// What a request to the JSON-RPC endpoint has to do.
pub open spec fn post_plan(
    request: RequestView,
    state: StateView,
    manifest: Option<ManifestView>,
    load_error: Seq<char>,
) -> PlanView {
    match rpc_method_of(request.method) {
        RpcMethod::Initialize => PlanView::Respond(success(request.id, initialize_json())),
        RpcMethod::Initialized => PlanView::OpenStream,
        RpcMethod::ToolsList => PlanView::Respond(
            tools_list_response(request, state, manifest, load_error),
        ),
        RpcMethod::ToolsCall => tools_call_plan(request, state, manifest, load_error),
        RpcMethod::Unknown => PlanView::Respond(
            failure(request.id, METHOD_NOT_FOUND as int, "Method not found"@, None),
        ),
    }
}

/// The answer to a call that failed while it was carried out.
pub open spec fn execution_failure(id: Option<JsonView>, message: Seq<char>, state: StateView)
    -> ResponseView {
    failure(id, INTERNAL_ERROR as int, "Execution error: "@ + message, Some(state_data(state)))
}

/// The answer to a call of `func`, given what came of the exchange and the
/// state of the link after it.
pub open spec fn call_response(
    request: RequestView,
    func: FunctionView,
    exchange: ExchangeView,
    state: StateView,
) -> ResponseView {
    match exchange {
        ExchangeView::Payload(payload) => match result_text(func, payload) {
            Ok(text) => success(request.id, text_content(text)),
            Err(e) => execution_failure(request.id, e.message_spec(), state),
        },
        ExchangeView::Rejected(e) => execution_failure(request.id, e.message_spec(), state),
        ExchangeView::TransportFailed(msg) => execution_failure(request.id, msg, state),
    }
}

/// The position of the first function named `name`, or the number of
/// functions if there is none.
pub fn find_function(functions: &Vec<Function>, name: &str) -> (at: usize)
    ensures
        at == function_index(functions_view(functions@), name@),
        at <= functions.len(),
{
    let ghost views = functions_view(functions@);
    let mut i: usize = 0;
    while i < functions.len()
        invariant
            i <= functions.len(),
            views == functions_view(functions@),
            forall|k: int| 0 <= k < i ==> (#[trigger] views[k]).name != name@,
        decreases functions.len() - i,
    {
        if str_eq(functions[i].name.as_str(), name) {
            proof {
                assert(views[i as int].name == name@);
                lemma_function_index(views, name@);
            }
            return i;
        }
        proof {
            assert(views[i as int].name != name@);
        }
        i = i + 1;
    }
    proof {
        lemma_function_index(views, name@);
    }
    i
}

/// A tool as the JSON object that is sent.
pub fn tool_to_json(tool: &Tool) -> (json: Json)
    ensures
        json@ == tool_json(tool@),
{
    let mut members: Vec<(String, Json)> = Vec::new();
    members.push(member("name", Json::Str(tool.name.clone())));
    members.push(member("description", Json::Str(tool.description.clone())));
    members.push(member("inputSchema", tool.input_schema.duplicate()));
    proof {
        assert(members_view(members@) =~= tool_json(tool@)->Object_0);
    }
    object_from(members)
}

/// The members `type` and `description` of a schema.
fn described(kind: &str, description: &str) -> (members: Vec<(String, Json)>)
    ensures
        members_view(members@) == seq![
            ("type"@, JsonView::Str(kind@)),
            ("description"@, JsonView::Str(description@)),
        ],
{
    let mut members: Vec<(String, Json)> = Vec::new();
    members.push(member("type", Json::text(kind)));
    members.push(member("description", Json::text(description)));
    proof {
        assert(members_view(members@) =~= seq![
            ("type"@, JsonView::Str(kind@)),
            ("description"@, JsonView::Str(description@)),
        ]);
    }
    members
}

impl McpServer {
    /// How the script tool is advertised.
    pub fn python_runner_tool() -> (tool: Tool)
        ensures
            tool@ == script_tool(),
    {
        let script = described(
            "string",
            "Python 3 source code to execute. Use the provided `tools` namespace to call MCP functions.",
        );
        let mut timeout: Vec<(String, Json)> = Vec::new();
        timeout.push(member("type", Json::text("integer")));
        timeout.push(member("minimum", Json::integer(1)));
        timeout.push(member("maximum", Json::integer(300)));
        timeout.push(member("default", Json::integer(60)));
        timeout.push(
            member(
                "description",
                Json::text("Optional timeout in seconds (default 60, maximum 300)."),
            ),
        );
        proof {
            assert(members_view(timeout@) =~= seq![
                ("type"@, JsonView::Str("integer"@)),
                ("minimum"@, JsonView::Number(NumberView::Integer(1))),
                ("maximum"@, JsonView::Number(NumberView::Integer(300))),
                ("default"@, JsonView::Number(NumberView::Integer(60))),
                (
                    "description"@,
                    JsonView::Str("Optional timeout in seconds (default 60, maximum 300)."@),
                ),
            ]);
        }
        let mut properties: Vec<(String, Json)> = Vec::new();
        properties.push(member("script", object_from(script)));
        properties.push(member("timeout", object_from(timeout)));
        let mut required: Vec<Json> = Vec::new();
        required.push(Json::text("script"));
        proof {
            assert(items_view(required@) =~= seq![JsonView::Str("script"@)]);
            assert(members_view(properties@) =~= script_tool().input_schema->Object_0[1].1->Object_0);
        }
        let mut schema: Vec<(String, Json)> = Vec::new();
        schema.push(member("type", Json::text("object")));
        schema.push(member("properties", object_from(properties)));
        schema.push(member("required", array_from(required)));
        proof {
            assert(members_view(schema@) =~= script_tool().input_schema->Object_0);
        }
        Tool {
            name: String::from_str("runPythonScript"),
            description: String::from_str(
                "Execute a Python 3 script with access to the robot tools namespace. Use this when you need loops, conditionals, or batching before invoking MCP tools. Inside the script call other tools as `tools.FUNCNAME(arg=value, ...)`. The combined console output is returned as text.",
            ),
            input_schema: object_from(schema),
        }
    }

    /// The answer to `tools/list`: for a device that is ready, the tools of
    /// its manifest and the script tool; otherwise no tools and the state
    /// of the link. `manifest` is the manifest of the device, if it could
    /// be had; if not, `load_error` says why.
    pub fn handle_tools_list(
        request: &McpRequest,
        state: &RobotState,
        manifest: Option<&Manifest>,
        load_error: &str,
    ) -> (response: McpResponse)
        ensures
            response@ == tools_list_response(
                request@,
                state@,
                opt_manifest_view(manifest),
                load_error@,
            ),
    {
        if !state.is_ready() {
            let none: Vec<Json> = Vec::new();
            proof {
                assert(items_view(none@) =~= Seq::<JsonView>::empty());
            }
            let mut status: Vec<(String, Json)> = Vec::new();
            status.push(member("robot_state", Json::Str(state.label())));
            status.push(member("message", Json::Str(state.error_message())));
            proof {
                assert(members_view(status@) =~= seq![
                    ("robot_state"@, JsonView::Str(state@.label())),
                    ("message"@, JsonView::Str(state@.message())),
                ]);
            }
            let mut members: Vec<(String, Json)> = Vec::new();
            members.push(member("tools", array_from(none)));
            members.push(member("_status", object_from(status)));
            proof {
                assert(members_view(members@) =~= no_tools_json(state@)->Object_0);
            }
            return McpResponse::success(&request.id, object_from(members));
        }
        let manifest = match manifest {
            Some(m) => m,
            None => {
                let mut message = String::from_str("Failed to load manifest: ");
                message.append(load_error);
                return McpResponse::failure(&request.id, INTERNAL_ERROR, message, None);
            },
        };
        let tools = tools_for(manifest);
        let mut items: Vec<Json> = Vec::new();
        let mut i: usize = 0;
        proof {
            assert(tools_view(tools@).len() == tools@.len());
            assert(tools_of(manifest@).len() == manifest@.functions.len());
        }
        while i < tools.len()
            invariant
                i <= tools.len(),
                items.len() == i,
                tools_view(tools@) == tools_of(manifest@),
                tools.len() == manifest@.functions.len(),
                forall|k: int| 0 <= k < i ==> (#[trigger] items@[k])@ == tool_json(
                    tool_of(manifest@.functions[k]),
                ),
            decreases tools.len() - i,
        {
            proof {
                assert(tools_view(tools@)[i as int] == tools@[i as int]@);
                assert(tools_of(manifest@)[i as int] == tool_of(manifest@.functions[i as int]));
            }
            items.push(tool_to_json(&tools[i]));
            i = i + 1;
        }
        let script_tool = McpServer::python_runner_tool();
        items.push(tool_to_json(&script_tool));
        proof {
            assert(tools_view(tools@).len() == tools_of(manifest@).len());
            assert(items_view(items@) =~= tools_json(manifest@)->Object_0[0].1->Array_0);
        }
        let mut members: Vec<(String, Json)> = Vec::new();
        members.push(member("tools", array_from(items)));
        proof {
            assert(members_view(members@) =~= tools_json(manifest@)->Object_0);
        }
        McpResponse::success(&request.id, object_from(members))
    }

    /// The names of the tools that a script can call.
    pub fn script_tools(manifest: &Manifest) -> (names: Vec<String>)
        ensures
            strings_view(names@) == script_tool_names(manifest@),
    {
        let mut names: Vec<String> = Vec::new();
        let mut i: usize = 0;
        while i < manifest.functions.len()
            invariant
                i <= manifest.functions.len(),
                names.len() == i,
                forall|k: int| 0 <= k < i ==> (#[trigger] names@[k])@
                    == manifest.functions@[k].name@,
            decreases manifest.functions.len() - i,
        {
            names.push(manifest.functions[i].name.clone());
            i = i + 1;
        }
        proof {
            assert(manifest@.functions =~= functions_view(manifest.functions@));
            assert(strings_view(names@) =~= function_names(manifest@.functions));
        }
        let at = find_function(&manifest.functions, "runPythonScript");
        if at >= manifest.functions.len() {
            names.push(String::from_str("runPythonScript"));
            proof {
                assert(strings_view(names@) =~= function_names(manifest@.functions).push(
                    script_tool_name(),
                ));
            }
        }
        names
    }

    /// What a call of the script tool has to do.
    pub fn handle_run_python_script(request: &McpRequest, arguments: &Json, manifest: &Manifest)
        -> (plan: Plan)
        ensures
            plan@ == script_plan(request@.id, arguments@, manifest@),
    {
        let script_value = match arguments.get("script") {
            Some(value) => value,
            None => {
                return Plan::Respond(
                    McpResponse::failure(
                        &request.id,
                        INVALID_PARAMS,
                        String::from_str("Missing required parameter 'script' for runPythonScript"),
                        None,
                    ),
                );
            },
        };
        let script = match script_value.as_str() {
            Some(value) => value,
            None => {
                return Plan::Respond(
                    McpResponse::failure(
                        &request.id,
                        INVALID_PARAMS,
                        String::from_str("Parameter 'script' must be a string"),
                        None,
                    ),
                );
            },
        };
        let timeout_secs: u64 = match arguments.get("timeout") {
            Some(value) => {
                match value.as_u64() {
                    Some(secs) => {
                        if secs == 0 {
                            return Plan::Respond(
                                McpResponse::failure(
                                    &request.id,
                                    INVALID_PARAMS,
                                    String::from_str(
                                        "Parameter 'timeout' must be greater than 0 seconds",
                                    ),
                                    None,
                                ),
                            );
                        }
                        if secs > MAX_SCRIPT_TIMEOUT_SECS {
                            return Plan::Respond(
                                McpResponse::failure(
                                    &request.id,
                                    INVALID_PARAMS,
                                    String::from_str("Parameter 'timeout' cannot exceed 300 seconds"),
                                    None,
                                ),
                            );
                        }
                        secs
                    },
                    None => {
                        return Plan::Respond(
                            McpResponse::failure(
                                &request.id,
                                INVALID_PARAMS,
                                String::from_str(
                                    "Parameter 'timeout' must be an integer number of seconds",
                                ),
                                None,
                            ),
                        );
                    },
                }
            },
            None => DEFAULT_SCRIPT_TIMEOUT_SECS,
        };
        Plan::RunScript {
            script: String::from_str(script),
            timeout_secs,
            tool_names: McpServer::script_tools(manifest),
        }
    }

    /// What a call of a function of the manifest has to do.
    pub fn handle_function_call(
        request: &McpRequest,
        tool_name: &str,
        arguments: &Json,
        manifest: &Manifest,
    ) -> (plan: Plan)
        ensures
            plan@ == function_plan(request@.id, tool_name@, arguments@, manifest@),
    {
        proof {
            assert(manifest@.functions =~= functions_view(manifest.functions@));
        }
        let at = find_function(&manifest.functions, tool_name);
        if at >= manifest.functions.len() {
            let mut message = String::from_str("Function not found: ");
            message.append(tool_name);
            return Plan::Respond(
                McpResponse::failure(&request.id, INVALID_PARAMS, message, None),
            );
        }
        let func = &manifest.functions[at];
        match check_function_arguments(func, arguments) {
            Ok(_) => {},
            Err(e) => {
                let mut message = String::from_str("Invalid arguments: ");
                let fault = e.message(func, arguments);
                message.append(fault.as_str());
                return Plan::Respond(
                    McpResponse::failure(&request.id, INVALID_PARAMS, message, None),
                );
            },
        }
        let args = crate::arguments::encode_arguments(func, arguments);
        let frame = ConnectionManager::send_command_with_args(func.tag, args.as_slice());
        Plan::Transact { function: at, frame }
    }

    /// What is sent along with an error of a call that failed on the link.
    pub fn state_data(state: &RobotState) -> (data: Json)
        ensures
            data@ == state_data(state@),
    {
        let mut members: Vec<(String, Json)> = Vec::new();
        members.push(member("robot_state", Json::Str(state.label())));
        members.push(member("suggestion", Json::text("Check robot connection and try again")));
        proof {
            assert(members_view(members@) =~= state_data(state@)->Object_0);
        }
        object_from(members)
    }

    /// What `tools/call` has to do. `manifest` is the manifest of the
    /// device, if the link is ready and it could be had; if it could not,
    /// `load_error` says why.
    pub fn handle_tools_call(
        request: &McpRequest,
        state: &RobotState,
        manifest: Option<&Manifest>,
        load_error: &str,
    ) -> (plan: Plan)
        ensures
            plan@ == tools_call_plan(
                request@,
                state@,
                opt_manifest_view(manifest),
                load_error@,
            ),
    {
        let params = match &request.params {
            Some(p) => p,
            None => {
                return Plan::Respond(
                    McpResponse::failure(
                        &request.id,
                        INVALID_PARAMS,
                        String::from_str("Missing params"),
                        None,
                    ),
                );
            },
        };
        let name = match params.get("name") {
            Some(value) => value.as_str(),
            None => None,
        };
        let tool_name = match name {
            Some(n) => n,
            None => {
                return Plan::Respond(
                    McpResponse::failure(
                        &request.id,
                        INVALID_PARAMS,
                        String::from_str("Missing tool name"),
                        None,
                    ),
                );
            },
        };
        let no_members: Vec<(String, Json)> = Vec::new();
        proof {
            assert(members_view(no_members@) =~= Seq::<(Seq<char>, JsonView)>::empty());
        }
        let empty_args = object_from(no_members);
        let arguments = match params.get("arguments") {
            Some(a) => a,
            None => &empty_args,
        };
        if !state.is_ready() {
            let mut message = String::from_str("Robot not ready: ");
            let state_text = state.error_message();
            message.append(state_text.as_str());
            return Plan::Respond(
                McpResponse::failure(
                    &request.id,
                    INTERNAL_ERROR,
                    message,
                    Some(McpServer::state_data(state)),
                ),
            );
        }
        let manifest = match manifest {
            Some(m) => m,
            None => {
                let mut message = String::from_str("Failed to load manifest: ");
                message.append(load_error);
                return Plan::Respond(
                    McpResponse::failure(&request.id, INTERNAL_ERROR, message, None),
                );
            },
        };
        if str_eq(tool_name, "runPythonScript") {
            McpServer::handle_run_python_script(request, arguments, manifest)
        } else {
            McpServer::handle_function_call(request, tool_name, arguments, manifest)
        }
    }

    /// The device whose manifest a request needs before it can be handled:
    /// the device of a ready link, for `tools/list` and `tools/call`.
    pub fn manifest_needed<'a>(request: &McpRequest, state: &'a RobotState) -> (device_id: Option<
        &'a str,
    >)
        ensures
            crate::json::opt_str_view(device_id) == manifest_needed_for(request@, state@),
    {
        match McpServer::rpc_method(request.method.as_str()) {
            RpcMethod::ToolsList => state.device_id(),
            RpcMethod::ToolsCall => state.device_id(),
            _ => None,
        }
    }

    /// What a request to the JSON-RPC endpoint has to do.
    pub fn handle_mcp_post(
        request: &McpRequest,
        state: &RobotState,
        manifest: Option<&Manifest>,
        load_error: &str,
    ) -> (plan: Plan)
        ensures
            plan@ == post_plan(request@, state@, opt_manifest_view(manifest), load_error@),
    {
        match McpServer::rpc_method(request.method.as_str()) {
            RpcMethod::Initialize => Plan::Respond(McpServer::handle_initialize(request)),
            RpcMethod::Initialized => Plan::OpenStream,
            RpcMethod::ToolsList => Plan::Respond(
                McpServer::handle_tools_list(request, state, manifest, load_error),
            ),
            RpcMethod::ToolsCall => McpServer::handle_tools_call(
                request,
                state,
                manifest,
                load_error,
            ),
            RpcMethod::Unknown => Plan::Respond(McpServer::method_not_found(request)),
        }
    }

    /// The answer to a call that gave this text.
    pub fn call_succeeded(request: &McpRequest, text: String) -> (response: McpResponse)
        ensures
            response@ == success(request@.id, text_content(text@)),
    {
        let mut piece: Vec<(String, Json)> = Vec::new();
        piece.push(member("type", Json::text("text")));
        piece.push(member("text", Json::Str(text)));
        proof {
            assert(members_view(piece@) =~= seq![
                ("type"@, JsonView::Str("text"@)),
                ("text"@, JsonView::Str(text@)),
            ]);
        }
        let mut content: Vec<Json> = Vec::new();
        content.push(object_from(piece));
        proof {
            assert(items_view(content@) =~= text_content(text@)->Object_0[0].1->Array_0);
        }
        let mut members: Vec<(String, Json)> = Vec::new();
        members.push(member("content", array_from(content)));
        proof {
            assert(members_view(members@) =~= text_content(text@)->Object_0);
        }
        McpResponse::success(&request.id, object_from(members))
    }

    /// The answer to a call that failed while it was carried out.
    pub fn call_failed(request: &McpRequest, message: &str, state: &RobotState) -> (response:
        McpResponse)
        ensures
            response@ == execution_failure(request@.id, message@, state@),
    {
        let mut text = String::from_str("Execution error: ");
        text.append(message);
        McpResponse::failure(&request.id, INTERNAL_ERROR, text, Some(McpServer::state_data(state)))
    }

    /// The answer to a call of `func`, given what came of the exchange on
    /// the link and the state of the link after it.
    pub fn finish_tools_call(
        request: &McpRequest,
        func: &Function,
        exchange: &Exchange,
        state: &RobotState,
    ) -> (response: McpResponse)
        ensures
            response@ == call_response(request@, func@, exchange@, state@),
            exchange@ is Payload && func@.return_type is Some && reads_as_string(
                func@.return_type->0,
            ) && exchange@->Payload_0.len() > 0 && valid_utf8(
                (ReaderView { data: exchange@->Payload_0, pos: 0 }).cstring_field(),
            ) ==> response@ == success(
                request@.id,
                text_content(
                    decode_utf8(
                        (ReaderView { data: exchange@->Payload_0, pos: 0 }).cstring_field(),
                    ),
                ),
            ),
    {
        match exchange {
            Exchange::Payload(payload) => {
                match ConnectionManager::decode_result(func, payload.as_slice()) {
                    Ok(text) => McpServer::call_succeeded(request, text),
                    Err(e) => {
                        let message = e.message();
                        McpServer::call_failed(request, message.as_str(), state)
                    },
                }
            },
            Exchange::Rejected(e) => {
                let message = e.message();
                McpServer::call_failed(request, message.as_str(), state)
            },
            Exchange::TransportFailed(msg) => McpServer::call_failed(request, msg.as_str(), state),
        }
    }

    /// The answer to a script call whose script could not be run or failed.
    pub fn script_failed(request: &McpRequest, message: &str) -> (response: McpResponse)
        ensures
            response@ == failure(
                request@.id,
                INTERNAL_ERROR as int,
                "Failed to execute Python script: "@ + message@,
                None,
            ),
    {
        let mut text = String::from_str("Failed to execute Python script: ");
        text.append(message);
        McpResponse::failure(&request.id, INTERNAL_ERROR, text, None)
    }
}

} // verus!
