use glyph::builder::ServerBuilder;
use glyph::capabilities::ClientCapabilities;
use glyph::client::Client;
use glyph::client::ResponseDisposition;
use glyph::codec::decode_text;
use glyph::json::JsonValue;
use glyph::rpc::JsonRpcMessage;
use glyph::rpc::JsonRpcRequest;
use glyph::rpc::JsonRpcResponse;
use glyph::rpc::JsonRpcVersion2_0;
use glyph::rpc::RequestId;
use glyph::server::LifecycleState;
use glyph::server::Server;
use glyph::server::ServerAction;
use glyph::types::Implementation;

fn obj(entries: Vec<(&str, JsonValue)>) -> JsonValue {
    JsonValue::Obj(entries.into_iter().map(|(k, v)| (k.to_string(), v)).collect())
}

fn text(s: &str) -> JsonValue {
    JsonValue::Str(s.to_string())
}

fn new_client() -> Client {
    Client::new(Implementation::new("t", "1"), ClientCapabilities::new())
}

#[test]
fn test_client_creation() {
    let client = new_client();
    assert!(!client.is_initialized());
    assert_eq!(client.client_info.name, "t");
    assert_eq!(client.pending_count(), 0);
}

#[test]
fn request_ids_increase_and_are_not_reused() {
    let mut client = new_client();
    let r1 = client.start_request("ping", None);
    let r2 = client.start_request("tools/list", None);
    let r3 = client.start_request("prompts/list", None);
    let ids: Vec<i64> = [r1, r2, r3]
        .iter()
        .map(|r| match r.id {
            RequestId::Number(n) => n,
            RequestId::Name(_) => panic!("client ids are numeric"),
        })
        .collect();
    assert_eq!(ids, vec![1, 2, 3]);
    assert_eq!(client.pending_count(), 3);
}

#[test]
fn matching_response_resolves_exactly_one_awaiter() {
    let mut client = new_client();
    let r1 = client.start_request("ping", None);
    let response = JsonRpcResponse::success(r1.id.clone(), JsonValue::Null);
    match client.handle_response(response) {
        ResponseDisposition::Deliver(resp) => assert!(resp.is_success()),
        ResponseDisposition::UnknownId(_) => panic!("the id was pending"),
    }
    assert_eq!(client.pending_count(), 0);
    let again = JsonRpcResponse::success(r1.id.clone(), JsonValue::Null);
    assert!(matches!(client.handle_response(again), ResponseDisposition::UnknownId(_)));
}

#[test]
fn unknown_response_id_changes_nothing() {
    let mut client = new_client();
    let _r1 = client.start_request("ping", None);
    let stray = JsonRpcResponse::success(RequestId::new_number(999), JsonValue::Null);
    assert!(matches!(client.handle_response(stray), ResponseDisposition::UnknownId(_)));
    assert_eq!(client.pending_count(), 1);
}

#[test]
fn out_of_order_responses_resolve_in_arrival_order() {
    let mut client = new_client();
    let slow = client.start_request("tools/call", None);
    let fast = client.start_request("tools/call", None);
    let fast_response = JsonRpcResponse::success(fast.id.clone(), text("fast"));
    let slow_response = JsonRpcResponse::success(slow.id.clone(), text("slow"));
    match client.handle_response(fast_response) {
        ResponseDisposition::Deliver(resp) => assert_eq!(resp.result, Some(text("fast"))),
        _ => panic!("fast response matches"),
    }
    match client.handle_response(slow_response) {
        ResponseDisposition::Deliver(resp) => assert_eq!(resp.result, Some(text("slow"))),
        _ => panic!("slow response matches"),
    }
    assert_eq!(client.pending_count(), 0);
}

#[test]
fn close_drains_every_pending_awaiter() {
    let mut client = new_client();
    let r1 = client.start_request("ping", None);
    let r2 = client.start_request("ping", None);
    let drained = client.close();
    assert_eq!(drained.len(), 2);
    assert_eq!(drained[0], r1.id);
    assert_eq!(drained[1], r2.id);
    assert!(client.is_closed());
    assert_eq!(client.pending_count(), 0);
}

fn ready_server() -> Server {
    let mut server = ServerBuilder::new()
        .with_server_info("glyph-server", "0.1.0")
        .with_tools()
        .with_resources()
        .with_prompts()
        .build();
    server.connect();
    let init = decode_text(
        "{\"jsonrpc\":\"2.0\",\"id\":1,\"method\":\"initialize\",\"params\":{\"protocolVersion\":\"2025-03-26\",\"capabilities\":{},\"clientInfo\":{\"name\":\"t\",\"version\":\"1\"}}}",
    )
    .expect("initialize decodes");
    match server.handle_message(init, 0) {
        ServerAction::Respond(response, close) => {
            assert!(response.is_success());
            assert!(!close);
            let result = response.result.expect("initialize result");
            match result.get("protocolVersion") {
                Some(JsonValue::Str(v)) => assert_eq!(v, "2025-03-26"),
                _ => panic!("negotiated version missing"),
            }
        },
        ServerAction::Nothing => panic!("initialize is answered"),
    }
    assert!(server.is_initialized());
    server
}

#[test]
fn initialize_then_list_tools() {
    let mut server = ready_server();
    server
        .tool_registry
        .register(Box::new(glyph::tools::EchoTool))
        .expect("echo registers");
    let initialized = decode_text("{\"jsonrpc\":\"2.0\",\"method\":\"notifications/initialized\"}")
        .expect("decodes");
    assert!(matches!(server.handle_message(initialized, 0), ServerAction::Nothing));
    let list = decode_text("{\"jsonrpc\":\"2.0\",\"id\":2,\"method\":\"tools/list\"}")
        .expect("decodes");
    match server.handle_message(list, 0) {
        ServerAction::Respond(response, _) => {
            let result = response.result.expect("list result");
            match result.get("tools") {
                Some(JsonValue::Arr(tools)) => {
                    assert_eq!(tools.len(), 1);
                    match tools[0].get("name") {
                        Some(JsonValue::Str(name)) => assert_eq!(name, "echo"),
                        _ => panic!("tool name missing"),
                    }
                },
                _ => panic!("tools member missing"),
            }
        },
        ServerAction::Nothing => panic!("list is answered"),
    }
}

#[test]
fn only_initialize_is_accepted_before_ready() {
    let mut server = ServerBuilder::new().with_tools().build();
    server.connect();
    let ping = JsonRpcRequest {
        jsonrpc: JsonRpcVersion2_0,
        id: RequestId::new_number(5),
        method: "ping".to_string(),
        params: None,
    };
    let (response, close) = server.handle_request(ping, 0);
    assert!(!close);
    assert!(response.is_error());
    assert_eq!(response.error.expect("pre-ready refusal").code.value(), -32600);
    assert_eq!(server.state, LifecycleState::Initializing);

    let mut server = ready_server();
    let ping = JsonRpcRequest {
        jsonrpc: JsonRpcVersion2_0,
        id: RequestId::new_number(6),
        method: "ping".to_string(),
        params: None,
    };
    let (response, _) = server.handle_request(ping, 0);
    assert!(response.is_success());
}

#[test]
fn unsupported_version_is_refused_and_closes() {
    let mut server = ServerBuilder::new().build();
    server.connect();
    let init = decode_text(
        "{\"jsonrpc\":\"2.0\",\"id\":1,\"method\":\"initialize\",\"params\":{\"protocolVersion\":\"1990-01-01\",\"capabilities\":{},\"clientInfo\":{\"name\":\"t\",\"version\":\"1\"}}}",
    )
    .expect("decodes");
    match server.handle_message(init, 0) {
        ServerAction::Respond(response, close) => {
            assert!(close);
            assert_eq!(response.error.expect("mismatch").code.value(), -32010);
        },
        ServerAction::Nothing => panic!("initialize is answered"),
    }
    assert!(!server.is_initialized());
}

#[test]
fn echo_tool_call_round_trip() {
    let mut server = ready_server();
    server
        .tool_registry
        .register(Box::new(glyph::tools::EchoTool))
        .expect("echo registers");
    let call = decode_text(
        "{\"jsonrpc\":\"2.0\",\"id\":3,\"method\":\"tools/call\",\"params\":{\"name\":\"echo\",\"arguments\":{\"message\":\"hi\"}}}",
    )
    .expect("decodes");
    match server.handle_message(call, 0) {
        ServerAction::Respond(response, _) => {
            assert!(response.is_success());
            let result = response.result.expect("call result");
            assert!(result.get("isError").is_none());
            match result.get("content") {
                Some(JsonValue::Arr(content)) => {
                    assert_eq!(content.len(), 1);
                    match content[0].get("text") {
                        Some(JsonValue::Str(t)) => assert_eq!(t, "hi"),
                        _ => panic!("text content missing"),
                    }
                },
                _ => panic!("content missing"),
            }
        },
        ServerAction::Nothing => panic!("call is answered"),
    }
}

#[test]
fn schema_violation_is_invalid_params() {
    let mut server = ready_server();
    server
        .tool_registry
        .register(Box::new(glyph::tools::EchoTool))
        .expect("echo registers");
    let call = decode_text(
        "{\"jsonrpc\":\"2.0\",\"id\":4,\"method\":\"tools/call\",\"params\":{\"name\":\"echo\",\"arguments\":{\"wrong\":\"x\"}}}",
    )
    .expect("decodes");
    match server.handle_message(call, 0) {
        ServerAction::Respond(response, _) => {
            assert!(response.is_error());
            assert_eq!(response.error.expect("schema refusal").code.value(), -32602);
        },
        ServerAction::Nothing => panic!("call is answered"),
    }
}

#[test]
fn unknown_method_after_ready() {
    let mut server = ready_server();
    let call = decode_text("{\"jsonrpc\":\"2.0\",\"id\":9,\"method\":\"no/such\"}")
        .expect("decodes");
    match server.handle_message(call, 0) {
        ServerAction::Respond(response, _) => {
            assert_eq!(response.error.expect("unknown method").code.value(), -32601);
        },
        ServerAction::Nothing => panic!("requests are answered"),
    }
}

struct DeleteFileTool;

impl glyph::tools::Tool for DeleteFileTool {
    fn name(&self) -> String {
        "delete_file".to_string()
    }

    fn description(&self) -> Option<String> {
        None
    }

    fn input_schema(&self) -> glyph::types::ToolInputSchema {
        glyph::types::ToolInputSchema::object()
    }

    fn call(
        &self,
        _args: Option<JsonValue>,
    ) -> Result<glyph::messages::CallToolResult, glyph::rpc::McpError> {
        panic!("the policy gate never lets this run");
    }
}

#[test]
fn consent_deny_is_a_successful_response_with_is_error() {
    let mut rules = Vec::new();
    rules.push(glyph::policy::PolicyRule {
        name: "no_deletions".to_string(),
        description: None,
        condition: glyph::policy::PolicyCondition::ToolName {
            matches: "delete_file".to_string(),
        },
        action: glyph::policy::PolicyAction::Deny {
            reason: "not allowed".to_string(),
        },
    });
    let policy = glyph::policy::Policy {
        rules,
        audit: glyph::policy::AuditPolicy::new(),
    };
    let mut server = Server::new(
        glyph::capabilities::ServerCapabilities::new(),
        Implementation::new("s", "1"),
        policy,
    );
    server.connect();
    server
        .tool_registry
        .register(Box::new(DeleteFileTool))
        .expect("tool registers");
    let params = obj(vec![("name", text("delete_file"))]);
    let result = server
        .handle_tool_call(Some(&params), 0)
        .expect("denial is not a protocol error");
    assert_eq!(result.is_error, Some(true));
    match &result.content[0] {
        glyph::types::Content::Text { text } => {
            assert_eq!(text, "Permission denied: not allowed")
        },
        _ => panic!("denial reason is text"),
    }
    let meta = result.meta.expect("denial metadata");
    match meta.get("reason") {
        Some(JsonValue::Str(r)) => assert_eq!(r, "consent_denied"),
        _ => panic!("denial metadata names the reason"),
    }
}

struct AckDeleteTool;

impl glyph::tools::Tool for AckDeleteTool {
    fn name(&self) -> String {
        "delete_file".to_string()
    }

    fn description(&self) -> Option<String> {
        None
    }

    fn input_schema(&self) -> glyph::types::ToolInputSchema {
        glyph::types::ToolInputSchema::object()
    }

    fn call(
        &self,
        _args: Option<JsonValue>,
    ) -> Result<glyph::messages::CallToolResult, glyph::rpc::McpError> {
        let mut content = Vec::new();
        content.push(glyph::types::Content::Text { text: "removed".to_string() });
        Ok(glyph::messages::CallToolResult::success(content))
    }
}

#[test]
fn consent_need_is_surfaced_and_a_grant_admits_the_call() {
    // A consent rule is not granted silently: the kernel answers with
    // the consent-required error, and only a recorded grant lets the
    // same call reach the tool.
    let mut server = Server::new(
        glyph::capabilities::ServerCapabilities::new(),
        Implementation::new("s", "1"),
        glyph::policy::Policy::new_default(),
    );
    server.connect();
    server
        .tool_registry
        .register(Box::new(AckDeleteTool))
        .expect("tool registers");
    let params = obj(vec![("name", text("delete_file"))]);
    let err = server
        .handle_tool_call(Some(&params), 0)
        .expect_err("consent is asked, not assumed");
    assert_eq!(err.code.value(), -32006);
    assert_eq!(err.message, "This will permanently delete a file");

    server.policy_engine.grant_consent("delete_file");
    let result = server
        .handle_tool_call(Some(&params), 1)
        .expect("a granted consent admits the call");
    assert!(result.is_error.is_none());
    match &result.content[0] {
        glyph::types::Content::Text { text } => assert_eq!(text, "removed"),
        _ => panic!("the tool replies with text"),
    }
}

#[test]
fn prompt_results_render_as_markdown() {
    let result = glyph::messages::GetPromptResult {
        description: Some("Greeting".to_string()),
        messages: vec![
            glyph::types::PromptMessage {
                role: glyph::types::PromptRole::User,
                content: glyph::types::Content::Text { text: "hello".to_string() },
            },
            glyph::types::PromptMessage {
                role: glyph::types::PromptRole::Assistant,
                content: glyph::types::Content::Image {
                    data: "aGk=".to_string(),
                    mime_type: "image/png".to_string(),
                },
            },
        ],
    };
    let text = glyph::client::render_messages(&result);
    assert_eq!(text, "# Greeting\n\n**User**: hello\n\n**Assistant**: [Image content]");
}

#[test]
fn rendering_without_a_description_has_no_heading() {
    let result = glyph::messages::GetPromptResult {
        description: None,
        messages: vec![glyph::types::PromptMessage {
            role: glyph::types::PromptRole::System,
            content: glyph::types::Content::Text { text: "be brief".to_string() },
        }],
    };
    assert_eq!(glyph::client::render_messages(&result), "**System**: be brief");
}

#[test]
fn unknown_tool_is_answered_before_policy_speaks() {
    // lookup comes before the policy gate: an unknown tool under a deny
    // rule is ToolNotFound, not the deny body
    let mut rules = Vec::new();
    rules.push(glyph::policy::PolicyRule {
        name: "no_deletions".to_string(),
        description: None,
        condition: glyph::policy::PolicyCondition::ToolName {
            matches: "delete_file".to_string(),
        },
        action: glyph::policy::PolicyAction::Deny { reason: "not allowed".to_string() },
    });
    let policy = glyph::policy::Policy { rules, audit: glyph::policy::AuditPolicy::new() };
    let mut server = Server::new(
        glyph::capabilities::ServerCapabilities::new(),
        Implementation::new("s", "1"),
        policy,
    );
    server.connect();
    let params = obj(vec![("name", text("delete_file"))]);
    let err = server.handle_tool_call(Some(&params), 0).expect_err("unknown tool");
    assert_eq!(err.code.value(), -32000);
}

#[test]
fn invalid_arguments_are_answered_before_policy_speaks() {
    // schema validation comes before the policy gate
    let mut rules = Vec::new();
    rules.push(glyph::policy::PolicyRule {
        name: "no_echo".to_string(),
        description: None,
        condition: glyph::policy::PolicyCondition::ToolName { matches: "echo".to_string() },
        action: glyph::policy::PolicyAction::Deny { reason: "not allowed".to_string() },
    });
    let policy = glyph::policy::Policy { rules, audit: glyph::policy::AuditPolicy::new() };
    let mut server = Server::new(
        glyph::capabilities::ServerCapabilities::new(),
        Implementation::new("s", "1"),
        policy,
    );
    server.connect();
    server
        .tool_registry
        .register(Box::new(glyph::tools::EchoTool))
        .expect("echo registers");
    let params = obj(vec![
        ("name", text("echo")),
        ("arguments", obj(vec![("wrong", text("x"))])),
    ]);
    let err = server.handle_tool_call(Some(&params), 0).expect_err("schema refusal");
    assert_eq!(err.code.value(), -32602);
}

#[test]
fn list_changed_notifications_follow_the_advertised_flag() {
    let mut server = ServerBuilder::new()
        .with_tools()
        .build();
    // not Ready yet: nothing is due
    assert!(server.list_changed_notification(glyph::server::RegistryKind::Tools).is_none());
    server.connect();
    let init = decode_text(
        "{\"jsonrpc\":\"2.0\",\"id\":1,\"method\":\"initialize\",\"params\":{\"protocolVersion\":\"2025-03-26\",\"capabilities\":{},\"clientInfo\":{\"name\":\"t\",\"version\":\"1\"}}}",
    )
    .expect("decodes");
    server.handle_message(init, 0);
    // Ready, but the flag was not advertised
    assert!(server.list_changed_notification(glyph::server::RegistryKind::Tools).is_none());

    let mut advertised = ready_server();
    advertised.capabilities.tools = Some(
        glyph::capabilities::ToolsCapability::new().with_list_changed(true),
    );
    let n = advertised
        .list_changed_notification(glyph::server::RegistryKind::Tools)
        .expect("flag advertised and Ready");
    assert_eq!(n.method, "notifications/tools/list_changed");
    assert!(n.params.is_none());
    assert!(advertised.list_changed_notification(glyph::server::RegistryKind::Prompts).is_none());
}
