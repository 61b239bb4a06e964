//! Typed protocol messages: the payloads of each method, their JSON
//! encodings, and the decoders the dispatcher uses on inbound parameters.

use vstd::prelude::*;

use crate::capabilities::ClientCapabilities;
use crate::capabilities::SamplingCapability;
use crate::capabilities::ServerCapabilities;
use crate::json::Json;
use crate::json::JsonValue;
use crate::json::json_clone;
use crate::json::spec_get;
use crate::rpc::McpError;
use crate::rpc::RequestId;
use crate::types::Content;
use crate::types::Implementation;
use crate::types::Prompt;
use crate::types::PromptMessage;
use crate::types::Resource;
use crate::types::ResourceTemplate;
use crate::types::Tool;
use crate::version::ProtocolVersion;

verus! {

/// The `initialize` request payload.
#[derive(Debug, Clone)]
pub struct InitializeRequest {
    pub protocol_version: ProtocolVersion,
    pub capabilities: ClientCapabilities,
    pub client_info: Implementation,
}

/// The `initialize` response payload.
#[derive(Debug, Clone)]
pub struct InitializeResult {
    pub protocol_version: ProtocolVersion,
    pub capabilities: ServerCapabilities,
    pub server_info: Implementation,
    pub instructions: Option<String>,
}

/// The `ping` request payload.
#[derive(Debug, Clone, PartialEq, Eq, Structural)]
pub struct PingRequest;

/// The `ping` response payload.
#[derive(Debug, Clone, PartialEq, Eq, Structural)]
pub struct PingResult;

/// The `tools/list` request payload.
#[derive(Debug, Clone, Default)]
pub struct ListToolsRequest {
    pub cursor: Option<String>,
}

/// The `tools/list` response payload.
#[derive(Debug, Clone)]
pub struct ListToolsResult {
    pub tools: Vec<Tool>,
    pub next_cursor: Option<String>,
}

/// The `tools/call` request payload.
#[derive(Debug, Clone)]
pub struct CallToolRequest {
    pub name: String,
    pub arguments: Option<JsonValue>,
}

/// The `tools/call` response payload: content, and whether the tool
/// failed in a way the model should see.
#[derive(Debug, Clone)]
pub struct CallToolResult {
    pub content: Vec<Content>,
    pub is_error: Option<bool>,
    pub meta: Option<JsonValue>,
}

impl CallToolResult {
    /// A successful result carrying content.
    pub fn success(content: Vec<Content>) -> (r: CallToolResult)
        ensures
            r.content == content,
            r.is_error is None,
            r.meta is None,
    {
        CallToolResult { content, is_error: None, meta: None }
    }

    /// A failed result carrying content that explains the failure.
    pub fn error(content: Vec<Content>) -> (r: CallToolResult)
        ensures
            r.content == content,
            r.is_error == Some(true),
            r.meta is None,
    {
        CallToolResult { content, is_error: Some(true), meta: None }
    }

    /// The same result carrying a metadata document.
    pub fn with_meta(self, meta: JsonValue) -> (r: CallToolResult)
        ensures
            r.content == self.content,
            r.is_error == self.is_error,
            r.meta matches Some(m) && m@ == meta@,
    {
        CallToolResult { meta: Some(meta), ..self }
    }
}

/// The `resources/list` request payload.
#[derive(Debug, Clone, Default)]
pub struct ListResourcesRequest {
    pub cursor: Option<String>,
}

/// The `resources/list` response payload.
#[derive(Debug, Clone)]
pub struct ListResourcesResult {
    pub resources: Vec<Resource>,
    pub next_cursor: Option<String>,
}

/// The `resources/templates/list` request payload.
#[derive(Debug, Clone, Default)]
pub struct ListResourceTemplatesRequest {
    pub cursor: Option<String>,
}

/// The `resources/templates/list` response payload.
#[derive(Debug, Clone)]
pub struct ListResourceTemplatesResult {
    pub resource_templates: Vec<ResourceTemplate>,
    pub next_cursor: Option<String>,
}

/// The `resources/read` request payload.
#[derive(Debug, Clone)]
pub struct ReadResourceRequest {
    pub uri: String,
}

/// The `resources/read` response payload.
#[derive(Debug, Clone)]
pub struct ReadResourceResult {
    pub contents: Vec<ResourceContents>,
}

/// What a resource read hands back: text, or base64 bytes, each under
/// the resource's URI with an optional MIME type.
#[derive(Debug, Clone)]
pub enum ResourceContents {
    Text { uri: String, mime_type: Option<String>, text: String },
    Blob { uri: String, mime_type: Option<String>, blob: String },
}

impl ResourceContents {
    /// Text contents without a MIME type.
    pub fn text(uri: &str, text: &str) -> (r: ResourceContents)
        ensures
            r matches ResourceContents::Text { uri: u, mime_type: m, text: t } && u@ == uri@
                && m is None && t@ == text@,
    {
        ResourceContents::Text { uri: uri.to_owned(), mime_type: None, text: text.to_owned() }
    }

    /// Text contents with a MIME type.
    pub fn text_with_mime_type(uri: &str, text: &str, mime_type: &str) -> (r: ResourceContents)
        ensures
            r matches ResourceContents::Text { uri: u, mime_type: m, text: t } && u@ == uri@ && (
            m matches Some(mt) && mt@ == mime_type@) && t@ == text@,
    {
        ResourceContents::Text {
            uri: uri.to_owned(),
            mime_type: Some(mime_type.to_owned()),
            text: text.to_owned(),
        }
    }

    /// Base64 contents without a MIME type.
    pub fn blob(uri: &str, blob: &str) -> (r: ResourceContents)
        ensures
            r matches ResourceContents::Blob { uri: u, mime_type: m, blob: b } && u@ == uri@
                && m is None && b@ == blob@,
    {
        ResourceContents::Blob { uri: uri.to_owned(), mime_type: None, blob: blob.to_owned() }
    }

    /// Base64 contents with a MIME type.
    pub fn blob_with_mime_type(uri: &str, blob: &str, mime_type: &str) -> (r: ResourceContents)
        ensures
            r matches ResourceContents::Blob { uri: u, mime_type: m, blob: b } && u@ == uri@ && (
            m matches Some(mt) && mt@ == mime_type@) && b@ == blob@,
    {
        ResourceContents::Blob {
            uri: uri.to_owned(),
            mime_type: Some(mime_type.to_owned()),
            blob: blob.to_owned(),
        }
    }
}

/// The `resources/subscribe` request payload.
#[derive(Debug, Clone)]
pub struct SubscribeRequest {
    pub uri: String,
}

/// The `resources/subscribe` response payload.
#[derive(Debug, Clone, PartialEq, Eq, Structural)]
pub struct SubscribeResult;

/// The `resources/unsubscribe` request payload.
#[derive(Debug, Clone)]
pub struct UnsubscribeRequest {
    pub uri: String,
}

/// The `resources/unsubscribe` response payload.
#[derive(Debug, Clone, PartialEq, Eq, Structural)]
pub struct UnsubscribeResult;

/// The `prompts/list` request payload.
#[derive(Debug, Clone, Default)]
pub struct ListPromptsRequest {
    pub cursor: Option<String>,
}

/// The `prompts/list` response payload.
#[derive(Debug, Clone)]
pub struct ListPromptsResult {
    pub prompts: Vec<Prompt>,
    pub next_cursor: Option<String>,
}

/// The `prompts/get` request payload: a prompt name and its arguments.
#[derive(Debug, Clone)]
pub struct GetPromptRequest {
    pub name: String,
    pub arguments: Option<Vec<(String, String)>>,
}

/// The `prompts/get` response payload.
#[derive(Debug, Clone)]
pub struct GetPromptResult {
    pub description: Option<String>,
    pub messages: Vec<PromptMessage>,
}

/// The `completion/complete` request payload.
#[derive(Debug, Clone)]
pub struct CompleteRequest {
    pub argument: CompletionArgument,
}

/// The argument a completion is asked for.
#[derive(Debug, Clone)]
pub struct CompletionArgument {
    pub name: String,
    pub value: String,
}

/// The `completion/complete` response payload.
#[derive(Debug, Clone)]
pub struct CompleteResult {
    pub completion: Completion,
}

/// Completion values and whether more exist.
#[derive(Debug, Clone)]
pub struct Completion {
    pub values: Vec<String>,
    pub total: Option<i32>,
    pub has_more: Option<bool>,
}

/// The severity of a `notifications/message` entry.
#[derive(Debug, Clone, Copy, PartialEq, Eq, Structural)]
pub enum LogLevel {
    Debug,
    Info,
    Notice,
    Warning,
    Error,
    Critical,
    Alert,
    Emergency,
}

/// The `notifications/message` payload.
#[derive(Debug, Clone)]
pub struct LoggingMessageNotification {
    pub level: LogLevel,
    pub data: JsonValue,
    pub logger: Option<String>,
}

/// The `notifications/cancelled` payload.
#[derive(Debug, Clone)]
pub struct CancelledNotification {
    pub request_id: RequestId,
    pub reason: Option<String>,
}

/// The `notifications/roots/list_changed` marker payload.
#[derive(Debug, Clone, PartialEq, Eq, Structural)]
pub struct RootsListChangedNotification;

/// The characters of the `name` key.
pub open spec fn key_name() -> Seq<char> {
    seq!['n', 'a', 'm', 'e']
}

/// The characters of the `arguments` key.
pub open spec fn key_arguments() -> Seq<char> {
    seq!['a', 'r', 'g', 'u', 'm', 'e', 'n', 't', 's']
}

/// The characters of the `message` argument key.
pub open spec fn key_message_arg() -> Seq<char> {
    seq!['m', 'e', 's', 's', 'a', 'g', 'e']
}

/// The characters of the `uri` key.
pub open spec fn key_uri() -> Seq<char> {
    seq!['u', 'r', 'i']
}

/// Reads a `tools/call` payload: `name` must be a string; `arguments`
/// ride along as they are.
pub fn parse_call_tool(params: Option<&JsonValue>) -> (r: Result<CallToolRequest, McpError>)
    ensures
        match r {
            Ok(q) => params matches Some(p) && spec_get(p@, key_name()) == Some(
                Json::Str(q.name@),
            ) && (match q.arguments {
                Some(a) => spec_get(p@, key_arguments()) == Some(a@),
                None => spec_get(p@, key_arguments()) is None,
            }),
            Err(e) => e@.code == crate::rpc::ErrorCode::Standard(
                crate::rpc::StandardErrorCode::InvalidParams,
            ) && match params {
                Some(p) => !(spec_get(p@, key_name()) matches Some(j) && j is Str),
                None => true,
            },
        },
{
    proof {
        reveal_strlit("name");
        reveal_strlit("arguments");
        assert("name"@ =~= key_name());
        assert("arguments"@ =~= key_arguments());
    }
    let p = match params {
        Some(p) => p,
        None => {
            return Err(McpError::invalid_params("missing parameters"));
        },
    };
    let name: String = match p.get("name") {
        Some(j) => match j.as_str() {
            Some(s) => s.clone(),
            None => {
                return Err(McpError::invalid_params("tool name must be a string"));
            },
        },
        None => {
            return Err(McpError::invalid_params("missing tool name"));
        },
    };
    let arguments: Option<JsonValue> = match p.get("arguments") {
        Some(a) => Some(json_clone(a)),
        None => None,
    };
    Ok(CallToolRequest { name, arguments })
}

/// Reads a payload whose only member of interest is a `uri` string:
/// `resources/read`, `resources/subscribe` and `resources/unsubscribe`
/// all carry one.
pub fn parse_uri_param(params: Option<&JsonValue>) -> (r: Result<String, McpError>)
    ensures
        match r {
            Ok(uri) => params matches Some(p) && spec_get(p@, key_uri()) == Some(Json::Str(uri@)),
            Err(e) => e@.code == crate::rpc::ErrorCode::Standard(
                crate::rpc::StandardErrorCode::InvalidParams,
            ) && match params {
                Some(p) => !(spec_get(p@, key_uri()) matches Some(j) && j is Str),
                None => true,
            },
        },
{
    proof {
        reveal_strlit("uri");
        assert("uri"@ =~= key_uri());
    }
    let p = match params {
        Some(p) => p,
        None => {
            return Err(McpError::invalid_params("missing parameters"));
        },
    };
    match p.get("uri") {
        Some(j) => match j.as_str() {
            Some(s) => Ok(s.clone()),
            None => Err(McpError::invalid_params("uri must be a string")),
        },
        None => Err(McpError::invalid_params("missing uri")),
    }
}

/// Reads a `prompts/get` payload: `name` must be a string; `arguments`,
/// when present, must be an object of strings and becomes an ordered
/// name-to-value list.
pub fn parse_get_prompt(params: Option<&JsonValue>) -> (r: Result<GetPromptRequest, McpError>)
    ensures
        match r {
            Ok(q) => params matches Some(p) && spec_get(p@, key_name()) == Some(
                Json::Str(q.name@),
            ),
            Err(e) => e@.code == crate::rpc::ErrorCode::Standard(
                crate::rpc::StandardErrorCode::InvalidParams,
            ),
        },
{
    proof {
        reveal_strlit("name");
        reveal_strlit("arguments");
        assert("name"@ =~= key_name());
        assert("arguments"@ =~= key_arguments());
    }
    let p = match params {
        Some(p) => p,
        None => {
            return Err(McpError::invalid_params("missing parameters"));
        },
    };
    let name: String = match p.get("name") {
        Some(j) => match j.as_str() {
            Some(s) => s.clone(),
            None => {
                return Err(McpError::invalid_params("prompt name must be a string"));
            },
        },
        None => {
            return Err(McpError::invalid_params("missing prompt name"));
        },
    };
    let arguments: Option<Vec<(String, String)>> = match p.get("arguments") {
        Some(a) => {
            let entries = match a.as_obj() {
                Some(entries) => entries,
                None => {
                    return Err(McpError::invalid_params("arguments must be an object"));
                },
            };
            let mut pairs: Vec<(String, String)> = Vec::new();
            let mut i: usize = 0;
            while i < entries.len()
                invariant
                    i <= entries.len(),
                decreases entries.len() - i,
            {
                let key = entries[i].0.clone();
                match entries[i].1.as_str() {
                    Some(v) => {
                        pairs.push((key, v.clone()));
                    },
                    None => {
                        return Err(McpError::invalid_params("argument values must be strings"));
                    },
                }
                i = i + 1;
            }
            Some(pairs)
        },
        None => None,
    };
    Ok(GetPromptRequest { name, arguments })
}

/// Reads an optional `cursor` string out of a list request's payload.
/// Absent parameters mean the first page.
pub fn parse_cursor(params: Option<&JsonValue>) -> (r: Option<String>)
{
    proof {
        reveal_strlit("cursor");
    }
    match params {
        Some(p) => match p.get("cursor") {
            Some(j) => match j.as_str() {
                Some(s) => Some(s.clone()),
                None => None,
            },
            None => None,
        },
        None => None,
    }
}

/// An `initialize` payload has the right shape when it carries a string
/// protocol version and a client identification with string name and
/// version.
pub open spec fn spec_init_shape(p: Json) -> bool {
    &&& spec_get(p, key_protocol_version()) matches Some(Json::Str(_))
    &&& spec_get(p, key_client_info()) matches Some(info) && (spec_get(
        info,
        key_name(),
    ) matches Some(Json::Str(_)) && spec_get(info, key_version()) matches Some(Json::Str(_)))
}

/// The protocol version an `initialize` payload offers.
pub open spec fn spec_offered_version(p: Json) -> Seq<char> {
    spec_get(p, key_protocol_version())->Some_0->Str_0
}

/// Reads an `initialize` payload: the offered protocol version, the
/// client's identification, and its capabilities. Succeeds exactly on a
/// payload of the right shape.
pub fn parse_initialize(params: Option<&JsonValue>) -> (r: Result<InitializeRequest, McpError>)
    ensures
        r is Ok <==> (params matches Some(p) && spec_init_shape(p@)),
        match r {
            Ok(q) => params matches Some(p) && spec_get(p@, key_protocol_version()) == Some(
                Json::Str(q.protocol_version@),
            ) && (spec_get(p@, key_client_info()) matches Some(info) && spec_get(
                info,
                key_name(),
            ) == Some(Json::Str(q.client_info.name@)) && spec_get(info, key_version()) == Some(
                Json::Str(q.client_info.version@),
            )) && ((q.capabilities.sampling is Some) <==> (spec_get(
                p@,
                "capabilities"@,
            ) matches Some(c) && spec_get(c, "sampling"@) is Some)) && (match spec_get(
                p@,
                "capabilities"@,
            ) {
                Some(c2) => match spec_get(c2, "experimental"@) {
                    Some(ej) => q.capabilities.experimental matches Some(e) && e@ == ej,
                    None => q.capabilities.experimental is None,
                },
                None => q.capabilities.experimental is None,
            }),
            Err(e) => e@.code == crate::rpc::ErrorCode::Standard(
                crate::rpc::StandardErrorCode::InvalidParams,
            ),
        },
{
    proof {
        reveal_strlit("protocolVersion");
        reveal_strlit("clientInfo");
        reveal_strlit("capabilities");
        reveal_strlit("sampling");
        reveal_strlit("experimental");
        reveal_strlit("name");
        reveal_strlit("version");
        assert("protocolVersion"@ =~= key_protocol_version());
        assert("clientInfo"@ =~= key_client_info());
        assert("name"@ =~= key_name());
        assert("version"@ =~= key_version());
    }
    let p = match params {
        Some(p) => p,
        None => {
            return Err(McpError::invalid_params("missing parameters"));
        },
    };
    let version: String = match p.get("protocolVersion") {
        Some(j) => match j.as_str() {
            Some(s) => s.clone(),
            None => {
                return Err(McpError::invalid_params("protocolVersion must be a string"));
            },
        },
        None => {
            return Err(McpError::invalid_params("missing protocolVersion"));
        },
    };
    let client_info: Implementation = match p.get("clientInfo") {
        Some(info) => {
            let name: String = match info.get("name") {
                Some(j) => match j.as_str() {
                    Some(s) => s.clone(),
                    None => {
                        return Err(McpError::invalid_params("clientInfo.name must be a string"));
                    },
                },
                None => {
                    return Err(McpError::invalid_params("missing clientInfo.name"));
                },
            };
            let ver: String = match info.get("version") {
                Some(j) => match j.as_str() {
                    Some(s) => s.clone(),
                    None => {
                        return Err(
                            McpError::invalid_params("clientInfo.version must be a string"),
                        );
                    },
                },
                None => {
                    return Err(McpError::invalid_params("missing clientInfo.version"));
                },
            };
            Implementation { name, version: ver }
        },
        None => {
            return Err(McpError::invalid_params("missing clientInfo"));
        },
    };
    let capabilities: ClientCapabilities = match p.get("capabilities") {
        Some(caps) => {
            let sampling = match caps.get("sampling") {
                Some(_) => Some(SamplingCapability),
                None => None,
            };
            let experimental = match caps.get("experimental") {
                Some(e) => Some(json_clone(e)),
                None => None,
            };
            ClientCapabilities { experimental, sampling }
        },
        None => ClientCapabilities { experimental: None, sampling: None },
    };
    Ok(InitializeRequest { protocol_version: ProtocolVersion(version), capabilities, client_info })
}

/// The characters of the `protocolVersion` key.
pub open spec fn key_protocol_version() -> Seq<char> {
    seq!['p', 'r', 'o', 't', 'o', 'c', 'o', 'l', 'V', 'e', 'r', 's', 'i', 'o', 'n']
}

/// The characters of the `clientInfo` key.
pub open spec fn key_client_info() -> Seq<char> {
    seq!['c', 'l', 'i', 'e', 'n', 't', 'I', 'n', 'f', 'o']
}

/// The characters of the `version` key.
pub open spec fn key_version() -> Seq<char> {
    seq!['v', 'e', 'r', 's', 'i', 'o', 'n']
}

} // verus!
