//! JSON-RPC 2.0 message types and the protocol error taxonomy.
//!
//! A message is a request (it has an id and a method), a notification (a
//! method and no id), or a response (an id and exactly one of a result or
//! an error object). The `jsonrpc` field of every message is the literal
//! `"2.0"`.

use vstd::prelude::*;

use crate::json::Json;
use crate::json::JsonValue;
use crate::json::str_eq;

verus! {

/// A request id: an integer or a string, unique within a peer's outbound
/// stream while the request is pending.
#[derive(Debug, Eq, Hash)]
pub enum RequestId {
    Number(i64),
    Name(String),
}

impl Clone for RequestId {
    /// The copy has the same model.
    fn clone(&self) -> (r: Self)
        ensures
            r@ == self@,
    {
        match self {
            RequestId::Number(n) => RequestId::Number(*n),
            RequestId::Name(s) => RequestId::Name(s.clone()),
        }
    }
}

/// The model of a request id.
pub ghost enum IdView {
    Num(int),
    Name(Seq<char>),
}

impl View for RequestId {
    type V = IdView;

    open spec fn view(&self) -> IdView {
        match self {
            RequestId::Number(n) => IdView::Num(*n as int),
            RequestId::Name(s) => IdView::Name(s@),
        }
    }
}

impl PartialEq for RequestId {
    /// Ids are equal exactly when their models are.
    fn eq(&self, other: &Self) -> (r: bool) {
        match (self, other) {
            (RequestId::Number(a), RequestId::Number(b)) => *a == *b,
            (RequestId::Name(a), RequestId::Name(b)) => str_eq(a.as_str(), b.as_str()),
            _ => false,
        }
    }
}

impl vstd::std_specs::cmp::PartialEqSpecImpl for RequestId {
    open spec fn obeys_eq_spec() -> bool {
        true
    }

    open spec fn eq_spec(&self, other: &Self) -> bool {
        self@ == other@
    }
}

impl RequestId {
    /// An integer id.
    pub fn new_number(n: i64) -> (r: RequestId)
        ensures
            r@ == IdView::Num(n as int),
    {
        RequestId::Number(n)
    }

    /// A string id.
    pub fn new_string(s: &str) -> (r: RequestId)
        ensures
            r@ == IdView::Name(s@),
    {
        RequestId::Name(s.to_owned())
    }
}

/// The standard protocol error codes.
#[derive(Debug, Clone, Copy, PartialEq, Eq, Structural)]
pub enum StandardErrorCode {
    ParseError,
    InvalidRequest,
    MethodNotFound,
    InvalidParams,
    InternalError,
    ToolNotFound,
    ToolExecutionError,
    ResourceNotFound,
    ResourceAccessDenied,
    PromptNotFound,
    PromptExecutionError,
    ConsentRequired,
    AuthenticationRequired,
    RateLimitExceeded,
    ServerOverloaded,
    ProtocolVersionMismatch,
}

/// The numeric value of a standard error code.
pub open spec fn spec_code_value(c: StandardErrorCode) -> int {
    match c {
        StandardErrorCode::ParseError => -32700,
        StandardErrorCode::InvalidRequest => -32600,
        StandardErrorCode::MethodNotFound => -32601,
        StandardErrorCode::InvalidParams => -32602,
        StandardErrorCode::InternalError => -32603,
        StandardErrorCode::ToolNotFound => -32000,
        StandardErrorCode::ToolExecutionError => -32001,
        StandardErrorCode::ResourceNotFound => -32002,
        StandardErrorCode::ResourceAccessDenied => -32003,
        StandardErrorCode::PromptNotFound => -32004,
        StandardErrorCode::PromptExecutionError => -32005,
        StandardErrorCode::ConsentRequired => -32006,
        StandardErrorCode::AuthenticationRequired => -32007,
        StandardErrorCode::RateLimitExceeded => -32008,
        StandardErrorCode::ServerOverloaded => -32009,
        StandardErrorCode::ProtocolVersionMismatch => -32010,
    }
}

/// The standard code with a given numeric value, if there is one.
pub open spec fn spec_standard_of(v: int) -> Option<StandardErrorCode> {
    if v == -32700 {
        Some(StandardErrorCode::ParseError)
    } else if v == -32600 {
        Some(StandardErrorCode::InvalidRequest)
    } else if v == -32601 {
        Some(StandardErrorCode::MethodNotFound)
    } else if v == -32602 {
        Some(StandardErrorCode::InvalidParams)
    } else if v == -32603 {
        Some(StandardErrorCode::InternalError)
    } else if v == -32000 {
        Some(StandardErrorCode::ToolNotFound)
    } else if v == -32001 {
        Some(StandardErrorCode::ToolExecutionError)
    } else if v == -32002 {
        Some(StandardErrorCode::ResourceNotFound)
    } else if v == -32003 {
        Some(StandardErrorCode::ResourceAccessDenied)
    } else if v == -32004 {
        Some(StandardErrorCode::PromptNotFound)
    } else if v == -32005 {
        Some(StandardErrorCode::PromptExecutionError)
    } else if v == -32006 {
        Some(StandardErrorCode::ConsentRequired)
    } else if v == -32007 {
        Some(StandardErrorCode::AuthenticationRequired)
    } else if v == -32008 {
        Some(StandardErrorCode::RateLimitExceeded)
    } else if v == -32009 {
        Some(StandardErrorCode::ServerOverloaded)
    } else if v == -32010 {
        Some(StandardErrorCode::ProtocolVersionMismatch)
    } else {
        None
    }
}

impl StandardErrorCode {
    /// The numeric value of this code.
    pub fn value(&self) -> (r: i32)
        ensures
            r as int == spec_code_value(*self),
    {
        match self {
            StandardErrorCode::ParseError => -32700,
            StandardErrorCode::InvalidRequest => -32600,
            StandardErrorCode::MethodNotFound => -32601,
            StandardErrorCode::InvalidParams => -32602,
            StandardErrorCode::InternalError => -32603,
            StandardErrorCode::ToolNotFound => -32000,
            StandardErrorCode::ToolExecutionError => -32001,
            StandardErrorCode::ResourceNotFound => -32002,
            StandardErrorCode::ResourceAccessDenied => -32003,
            StandardErrorCode::PromptNotFound => -32004,
            StandardErrorCode::PromptExecutionError => -32005,
            StandardErrorCode::ConsentRequired => -32006,
            StandardErrorCode::AuthenticationRequired => -32007,
            StandardErrorCode::RateLimitExceeded => -32008,
            StandardErrorCode::ServerOverloaded => -32009,
            StandardErrorCode::ProtocolVersionMismatch => -32010,
        }
    }
}

/// A protocol error code: standard, or a custom number.
#[derive(Debug, Clone, Copy, PartialEq, Eq, Structural)]
pub enum ErrorCode {
    Standard(StandardErrorCode),
    Custom(i32),
}

/// The numeric value of any error code.
pub open spec fn spec_error_code_value(c: ErrorCode) -> int {
    match c {
        ErrorCode::Standard(s) => spec_code_value(s),
        ErrorCode::Custom(v) => v as int,
    }
}

impl ErrorCode {
    /// The numeric value of this code.
    pub fn value(&self) -> (r: i32)
        ensures
            r as int == spec_error_code_value(*self),
    {
        match self {
            ErrorCode::Standard(s) => s.value(),
            ErrorCode::Custom(v) => *v,
        }
    }

    /// The code with a given numeric value: the standard code when one
    /// exists, a custom code otherwise.
    pub fn from_value(v: i32) -> (r: ErrorCode)
        ensures
            match spec_standard_of(v as int) {
                Some(s) => r == ErrorCode::Standard(s),
                None => r == ErrorCode::Custom(v),
            },
    {
        if v == -32700 {
            ErrorCode::Standard(StandardErrorCode::ParseError)
        } else if v == -32600 {
            ErrorCode::Standard(StandardErrorCode::InvalidRequest)
        } else if v == -32601 {
            ErrorCode::Standard(StandardErrorCode::MethodNotFound)
        } else if v == -32602 {
            ErrorCode::Standard(StandardErrorCode::InvalidParams)
        } else if v == -32603 {
            ErrorCode::Standard(StandardErrorCode::InternalError)
        } else if v == -32000 {
            ErrorCode::Standard(StandardErrorCode::ToolNotFound)
        } else if v == -32001 {
            ErrorCode::Standard(StandardErrorCode::ToolExecutionError)
        } else if v == -32002 {
            ErrorCode::Standard(StandardErrorCode::ResourceNotFound)
        } else if v == -32003 {
            ErrorCode::Standard(StandardErrorCode::ResourceAccessDenied)
        } else if v == -32004 {
            ErrorCode::Standard(StandardErrorCode::PromptNotFound)
        } else if v == -32005 {
            ErrorCode::Standard(StandardErrorCode::PromptExecutionError)
        } else if v == -32006 {
            ErrorCode::Standard(StandardErrorCode::ConsentRequired)
        } else if v == -32007 {
            ErrorCode::Standard(StandardErrorCode::AuthenticationRequired)
        } else if v == -32008 {
            ErrorCode::Standard(StandardErrorCode::RateLimitExceeded)
        } else if v == -32009 {
            ErrorCode::Standard(StandardErrorCode::ServerOverloaded)
        } else if v == -32010 {
            ErrorCode::Standard(StandardErrorCode::ProtocolVersionMismatch)
        } else {
            ErrorCode::Custom(v)
        }
    }
}

/// A protocol error object: a code, a human-readable message, and an
/// optional data document.
#[derive(Debug, Clone)]
pub struct McpError {
    pub code: ErrorCode,
    pub message: String,
    pub data: Option<JsonValue>,
}

/// The model of an error object.
pub ghost struct ErrorView {
    pub code: ErrorCode,
    pub message: Seq<char>,
    pub data: Option<Json>,
}

impl View for McpError {
    type V = ErrorView;

    open spec fn view(&self) -> ErrorView {
        ErrorView {
            code: self.code,
            message: self.message@,
            data: match self.data {
                Some(d) => Some(d@),
                None => None,
            },
        }
    }
}

impl McpError {
    /// An error with a code and a message and no data.
    pub fn new(code: ErrorCode, message: &str) -> (r: McpError)
        ensures
            r@ == (ErrorView { code, message: message@, data: None }),
    {
        McpError { code, message: message.to_owned(), data: None }
    }

    /// The same error carrying a data document.
    pub fn with_data(self, data: JsonValue) -> (r: McpError)
        ensures
            r@ == (ErrorView { code: self@.code, message: self@.message, data: Some(data@) }),
    {
        McpError { code: self.code, message: self.message, data: Some(data) }
    }

    /// Malformed JSON.
    pub fn parse_error(message: &str) -> (r: McpError)
        ensures
            r@ == (ErrorView {
                code: ErrorCode::Standard(StandardErrorCode::ParseError),
                message: message@,
                data: None,
            }),
    {
        McpError::new(ErrorCode::Standard(StandardErrorCode::ParseError), message)
    }

    /// A JSON-RPC structure violation.
    pub fn invalid_request(message: &str) -> (r: McpError)
        ensures
            r@ == (ErrorView {
                code: ErrorCode::Standard(StandardErrorCode::InvalidRequest),
                message: message@,
                data: None,
            }),
    {
        McpError::new(ErrorCode::Standard(StandardErrorCode::InvalidRequest), message)
    }

    /// An unknown method.
    pub fn method_not_found(message: &str) -> (r: McpError)
        ensures
            r@.code == ErrorCode::Standard(StandardErrorCode::MethodNotFound),
            r@.message == message@,
            r@.data is None,
    {
        McpError::new(ErrorCode::Standard(StandardErrorCode::MethodNotFound), message)
    }

    /// A schema or type mismatch in parameters.
    pub fn invalid_params(message: &str) -> (r: McpError)
        ensures
            r@.code == ErrorCode::Standard(StandardErrorCode::InvalidParams),
            r@.message == message@,
            r@.data is None,
    {
        McpError::new(ErrorCode::Standard(StandardErrorCode::InvalidParams), message)
    }

    /// A peer bug.
    pub fn internal_error(message: &str) -> (r: McpError)
        ensures
            r@.code == ErrorCode::Standard(StandardErrorCode::InternalError),
            r@.message == message@,
            r@.data is None,
    {
        McpError::new(ErrorCode::Standard(StandardErrorCode::InternalError), message)
    }

    /// An unknown tool name.
    pub fn tool_not_found(message: &str) -> (r: McpError)
        ensures
            r@.code == ErrorCode::Standard(StandardErrorCode::ToolNotFound),
            r@.message == message@,
            r@.data is None,
    {
        McpError::new(ErrorCode::Standard(StandardErrorCode::ToolNotFound), message)
    }

    /// A provider invocation failure.
    pub fn tool_execution_error(message: &str) -> (r: McpError)
        ensures
            r@.code == ErrorCode::Standard(StandardErrorCode::ToolExecutionError),
            r@.message == message@,
            r@.data is None,
    {
        McpError::new(ErrorCode::Standard(StandardErrorCode::ToolExecutionError), message)
    }

    /// An unknown resource URI.
    pub fn resource_not_found(message: &str) -> (r: McpError)
        ensures
            r@.code == ErrorCode::Standard(StandardErrorCode::ResourceNotFound),
            r@.message == message@,
            r@.data is None,
    {
        McpError::new(ErrorCode::Standard(StandardErrorCode::ResourceNotFound), message)
    }

    /// A pending user approval.
    pub fn consent_required(message: &str) -> (r: McpError)
        ensures
            r@.code == ErrorCode::Standard(StandardErrorCode::ConsentRequired),
            r@.message == message@,
            r@.data is None,
    {
        McpError::new(ErrorCode::Standard(StandardErrorCode::ConsentRequired), message)
    }
}

/// The `jsonrpc` version marker: the literal `"2.0"` on every message.
#[derive(Debug, Clone, PartialEq, Eq, Structural)]
pub struct JsonRpcVersion2_0;

impl JsonRpcVersion2_0 {
    /// The literal this marker stands for.
    pub fn value(&self) -> (r: &'static str)
        ensures
            r@ == crate::codec::version_chars(),
    {
        proof {
            reveal_strlit("2.0");
        }
        "2.0"
    }
}

/// A request: an id, a method, optional parameters.
#[derive(Debug, Clone)]
pub struct JsonRpcRequest {
    pub jsonrpc: JsonRpcVersion2_0,
    pub id: RequestId,
    pub method: String,
    pub params: Option<JsonValue>,
}

/// The model of a request.
pub ghost struct RequestView {
    pub id: IdView,
    pub method: Seq<char>,
    pub params: Option<Json>,
}

impl View for JsonRpcRequest {
    type V = RequestView;

    open spec fn view(&self) -> RequestView {
        RequestView {
            id: self.id@,
            method: self.method@,
            params: match self.params {
                Some(p) => Some(p@),
                None => None,
            },
        }
    }
}

impl JsonRpcRequest {
    /// A request with the given id, method and parameters.
    pub fn new(id: RequestId, method: &str, params: Option<JsonValue>) -> (r: JsonRpcRequest)
        ensures
            r@.id == id@,
            r@.method == method@,
            r@.params == match params {
                Some(p) => Some(p@),
                None => None::<Json>,
            },
    {
        JsonRpcRequest { jsonrpc: JsonRpcVersion2_0, id, method: method.to_owned(), params }
    }
}

/// A notification: a method and optional parameters, no id, no response.
#[derive(Debug, Clone)]
pub struct JsonRpcNotification {
    pub jsonrpc: JsonRpcVersion2_0,
    pub method: String,
    pub params: Option<JsonValue>,
}

/// The model of a notification.
pub ghost struct NotificationView {
    pub method: Seq<char>,
    pub params: Option<Json>,
}

impl View for JsonRpcNotification {
    type V = NotificationView;

    open spec fn view(&self) -> NotificationView {
        NotificationView {
            method: self.method@,
            params: match self.params {
                Some(p) => Some(p@),
                None => None,
            },
        }
    }
}

impl JsonRpcNotification {
    /// A notification with the given method and parameters.
    pub fn new(method: &str, params: Option<JsonValue>) -> (r: JsonRpcNotification)
        ensures
            r@.method == method@,
            r@.params == match params {
                Some(p) => Some(p@),
                None => None::<Json>,
            },
    {
        JsonRpcNotification { jsonrpc: JsonRpcVersion2_0, method: method.to_owned(), params }
    }
}

/// A response: the id of a prior request, and exactly one of a result or
/// an error.
#[derive(Debug, Clone)]
pub struct JsonRpcResponse {
    pub jsonrpc: JsonRpcVersion2_0,
    pub id: RequestId,
    pub result: Option<JsonValue>,
    pub error: Option<McpError>,
}

/// The model of a response.
pub ghost struct ResponseView {
    pub id: IdView,
    pub result: Option<Json>,
    pub error: Option<ErrorView>,
}

impl ResponseView {
    /// A response carries exactly one of a result or an error.
    pub open spec fn wf(self) -> bool {
        (self.result is Some) != (self.error is Some)
    }
}

impl View for JsonRpcResponse {
    type V = ResponseView;

    open spec fn view(&self) -> ResponseView {
        ResponseView {
            id: self.id@,
            result: match self.result {
                Some(v) => Some(v@),
                None => None,
            },
            error: match self.error {
                Some(e) => Some(e@),
                None => None,
            },
        }
    }
}

impl JsonRpcResponse {
    /// A successful response.
    pub fn success(id: RequestId, result: JsonValue) -> (r: JsonRpcResponse)
        ensures
            r@.id == id@,
            r@.result == Some(result@),
            r@.error is None,
            r@.wf(),
    {
        JsonRpcResponse { jsonrpc: JsonRpcVersion2_0, id, result: Some(result), error: None }
    }

    /// An error response.
    pub fn error(id: RequestId, error: McpError) -> (r: JsonRpcResponse)
        ensures
            r@.id == id@,
            r@.result is None,
            r@.error == Some(error@),
            r@.wf(),
    {
        JsonRpcResponse { jsonrpc: JsonRpcVersion2_0, id, result: None, error: Some(error) }
    }

    /// True when the response carries no error.
    pub fn is_success(&self) -> (r: bool)
        ensures
            r == (self@.error is None),
    {
        self.error.is_none()
    }

    /// True when the response carries an error.
    pub fn is_error(&self) -> (r: bool)
        ensures
            r == (self@.error is Some),
    {
        self.error.is_some()
    }
}

/// Any JSON-RPC message.
#[derive(Debug, Clone)]
pub enum JsonRpcMessage {
    Request(JsonRpcRequest),
    Notification(JsonRpcNotification),
    Response(JsonRpcResponse),
}

/// The model of a message.
pub ghost enum MessageView {
    Request(RequestView),
    Notification(NotificationView),
    Response(ResponseView),
}

impl View for JsonRpcMessage {
    type V = MessageView;

    open spec fn view(&self) -> MessageView {
        match self {
            JsonRpcMessage::Request(r) => MessageView::Request(r@),
            JsonRpcMessage::Notification(n) => MessageView::Notification(n@),
            JsonRpcMessage::Response(r) => MessageView::Response(r@),
        }
    }
}

} // verus!
