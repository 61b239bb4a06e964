use std::cell::Cell;
use std::rc::Rc;

use glyph::builder::ClientBuilder;
use glyph::builder::ServerBuilder;
use glyph::consent::ConsentGuard;
use glyph::consent::PolicyConfig;
use glyph::framing::TransportConfig;
use glyph::json::JsonValue;
use glyph::messages::CallToolRequest;
use glyph::messages::ResourceContents;
use glyph::metrics::MetricsCollector;
use glyph::policy::Policy;
use glyph::policy::PolicyEngine;
use glyph::prompts::CodeReviewPrompt;
use glyph::prompts::PromptBuilder;
use glyph::prompts::PromptProvider;
use glyph::prompts::PromptRegistry;
use glyph::prompts::SimplePrompt;
use glyph::providers::MemoryResourceProvider;
use glyph::resources::ResourceProvider;
use glyph::resources::ResourceRegistry;
use glyph::security::RateLimiter;
use glyph::policy::PolicyVerdict;
use glyph::security::SecretRedactor;
use glyph::tools::EchoTool;
use glyph::tools::ToolRegistry;
use glyph::types::Content;
use glyph::types::Resource;

fn obj(entries: Vec<(&str, JsonValue)>) -> JsonValue {
    JsonValue::Obj(entries.into_iter().map(|(k, v)| (k.to_string(), v)).collect())
}

fn text(s: &str) -> JsonValue {
    JsonValue::Str(s.to_string())
}

#[test]
fn tools_test_tool_registry() {
    let mut registry = ToolRegistry::new();

    registry.register(Box::new(EchoTool)).unwrap();
    assert_eq!(registry.len(), 1);
    assert!(registry.get_tool("echo").is_some());

    let tools = registry.list_tools();
    assert_eq!(tools.len(), 1);
    assert_eq!(tools[0].name, "echo");

    let request = CallToolRequest {
        name: "echo".to_string(),
        arguments: Some(obj(vec![("message", text("Hello, World!"))])),
    };

    let result = registry.call_tool(request).unwrap();
    assert_eq!(result.content.len(), 1);

    if let Content::Text { text } = &result.content[0] {
        assert_eq!(text, "Hello, World!");
    } else {
        panic!("Expected text content");
    }
}

#[test]
fn test_echo_tool() {
    let result = glyph::tools::echo_reply(Some(obj(vec![("message", text("Test message"))])));

    assert_eq!(result.content.len(), 1);
    if let Content::Text { text } = &result.content[0] {
        assert_eq!(text, "Test message");
    } else {
        panic!("Expected text content");
    }
}

#[test]
fn echo_without_message_says_so() {
    let result = glyph::tools::echo_reply(None);
    if let Content::Text { text } = &result.content[0] {
        assert_eq!(text, "No message provided");
    } else {
        panic!("Expected text content");
    }
}

#[test]
fn duplicate_tool_registration_fails_atomically() {
    let mut registry = ToolRegistry::new();
    registry.register(Box::new(EchoTool)).unwrap();
    let err = registry.register(Box::new(EchoTool)).expect_err("name is taken");
    assert_eq!(err.code.value(), -32600);
    assert_eq!(registry.len(), 1);
    assert_eq!(registry.list_tools().len(), 1);
}

#[test]
fn unknown_tool_is_tool_not_found() {
    let registry = ToolRegistry::new();
    let request = CallToolRequest { name: "missing".to_string(), arguments: None };
    let err = registry.call_tool(request).expect_err("unknown tool");
    assert_eq!(err.code.value(), -32000);
}

#[test]
fn prompts_test_prompt_registry() {
    let mut registry = PromptRegistry::new();

    let prompt = SimplePrompt::new("greeting", "Hello, {name}!")
        .with_description("A simple greeting prompt")
        .with_argument("name", Some("The name to greet".to_string()), true);

    registry.register(Box::new(prompt)).unwrap();

    let prompts = registry.list_prompts();
    assert_eq!(prompts.len(), 1);
    assert_eq!(prompts[0].name, "greeting");

    let args = vec![("name".to_string(), "World".to_string())];

    let result = registry.get_prompt("greeting", args).unwrap();
    assert_eq!(result.messages.len(), 1);

    if let Content::Text { text } = &result.messages[0].content {
        assert_eq!(text, "Hello, World!");
    } else {
        panic!("Expected text content");
    }
}

#[test]
fn missing_required_argument_is_invalid_params() {
    let mut registry = PromptRegistry::new();
    let prompt = SimplePrompt::new("greeting", "Hello, {name}!").with_argument(
        "name",
        None,
        true,
    );
    registry.register(Box::new(prompt)).unwrap();
    let err = registry.get_prompt("greeting", Vec::new()).expect_err("name is required");
    assert_eq!(err.code.value(), -32602);
    let err = registry.get_prompt("no_such", Vec::new()).expect_err("unknown prompt");
    assert_eq!(err.code.value(), -32004);
}

#[test]
fn test_code_review_prompt() {
    let prompt = CodeReviewPrompt::new();

    let args = vec![
        ("code".to_string(), "fn main() { println!(\"Hello\"); }".to_string()),
        ("language".to_string(), "rust".to_string()),
    ];

    let result = prompt.get_prompt(args).unwrap();
    assert_eq!(result.messages.len(), 1);

    if let Content::Text { text } = &result.messages[0].content {
        assert!(text.contains("rust"));
        assert!(text.contains("fn main()"));
    } else {
        panic!("Expected text content");
    }
}

#[test]
fn test_prompt_builder() {
    let builder = PromptBuilder::new("code_review")
        .with_argument("language", "rust")
        .with_argument("code", "fn main() { println!(\"Hello\"); }");

    assert_eq!(builder.name, "code_review");
    assert_eq!(builder.argument("language"), Some(&"rust".to_string()));
    assert_eq!(
        builder.argument("code"),
        Some(&"fn main() { println!(\"Hello\"); }".to_string())
    );
}

#[test]
fn resources_test_resource_registry() {
    let mut registry = ResourceRegistry::new();

    let mut memory_provider = MemoryResourceProvider::new();
    memory_provider.add_resource(
        "memory://test.txt",
        "Test content".to_string(),
        Some("text/plain".to_string()),
    );

    registry.register(Box::new(memory_provider));
    assert_eq!(registry.provider_count(), 1);

    let contents = registry.read_resource("memory://test.txt").unwrap();
    assert_eq!(contents.len(), 1);

    if let ResourceContents::Text { text, .. } = &contents[0] {
        assert_eq!(text, "Test content");
    } else {
        panic!("Expected text content");
    }
}

#[test]
fn test_memory_resource_provider() {
    let mut provider = MemoryResourceProvider::new();

    provider.add_resource(
        "test://example.json",
        "{\"key\": \"value\"}".to_string(),
        Some("application/json".to_string()),
    );

    let resources = provider.list_resources().unwrap();
    assert_eq!(resources.len(), 1);

    let contents = provider.read_resource("test://example.json".to_string()).unwrap();
    assert_eq!(contents.len(), 1);

    assert!(provider.update_resource("test://example.json", "new".to_string(), None));
    assert!(!provider.update_resource("test://other.json", "new".to_string(), None));
    assert!(provider.remove_resource("test://example.json"));
    assert!(!provider.remove_resource("test://example.json"));
}

#[test]
fn read_declined_by_every_provider_is_resource_not_found() {
    let mut registry = ResourceRegistry::new();
    registry.register(Box::new(MemoryResourceProvider::new()));
    registry.register(Box::new(MemoryResourceProvider::new()));
    let err = registry.read_resource("file:///nowhere").expect_err("every provider declines");
    assert_eq!(err.code.value(), -32002);
}

#[test]
fn resource_lists_merge_sorted_by_uri() {
    let unsorted = vec![
        Resource::new("file:///c", "c"),
        Resource::new("file:///a", "a"),
        Resource::new("file:///b", "b"),
    ];
    let sorted = glyph::encode::sort_resources(unsorted);
    let uris: Vec<&str> = sorted.iter().map(|r| r.uri.as_str()).collect();
    assert_eq!(uris, vec!["file:///a", "file:///b", "file:///c"]);
}

struct CountingProvider {
    subscribes: Cell<u32>,
    unsubscribes: Cell<u32>,
}

impl ResourceProvider for CountingProvider {
    fn list_resources(&self) -> Result<Vec<Resource>, glyph::rpc::McpError> {
        Ok(Vec::new())
    }

    fn read_resource(
        &self,
        _uri: String,
    ) -> Result<Vec<ResourceContents>, glyph::rpc::McpError> {
        Err(glyph::rpc::McpError::resource_not_found("not mine"))
    }

    fn list_resource_templates(
        &self,
    ) -> Result<Vec<glyph::types::ResourceTemplate>, glyph::rpc::McpError> {
        Ok(Vec::new())
    }

    fn subscribe(&self, _uri: String) -> Result<(), glyph::rpc::McpError> {
        self.subscribes.set(self.subscribes.get() + 1);
        Ok(())
    }

    fn unsubscribe(&self, _uri: String) -> Result<(), glyph::rpc::McpError> {
        self.unsubscribes.set(self.unsubscribes.get() + 1);
        Ok(())
    }
}

#[test]
fn subscription_notifies_provider_on_first_add_and_last_remove() {
    // The registry's bookkeeping says when the owning provider is due a
    // call; drive the provider exactly then, as the server does.
    let provider = CountingProvider { subscribes: Cell::new(0), unsubscribes: Cell::new(0) };
    let mut registry = ResourceRegistry::new();

    let first = registry.note_subscribe("file:///a", "S1", 0);
    assert!(first);
    if first {
        provider.subscribe("file:///a".to_string()).unwrap();
    }
    assert_eq!(provider.subscribes.get(), 1);

    let again = registry.note_subscribe("file:///a", "S1", 0);
    assert!(!again);
    if again {
        provider.subscribe("file:///a".to_string()).unwrap();
    }
    assert_eq!(provider.subscribes.get(), 1);

    let last = registry.note_unsubscribe("file:///a", "S1");
    assert!(last);
    if last {
        provider.unsubscribe("file:///a".to_string()).unwrap();
    }
    assert_eq!(provider.unsubscribes.get(), 1);

    let noop = registry.note_unsubscribe("file:///a", "S1");
    assert!(!noop);
    assert_eq!(provider.unsubscribes.get(), 1);
}

struct SharedCountingProvider {
    subscribes: Rc<Cell<u32>>,
    unsubscribes: Rc<Cell<u32>>,
}

impl ResourceProvider for SharedCountingProvider {
    fn list_resources(&self) -> Result<Vec<Resource>, glyph::rpc::McpError> {
        Ok(Vec::new())
    }

    fn read_resource(
        &self,
        _uri: String,
    ) -> Result<Vec<ResourceContents>, glyph::rpc::McpError> {
        Err(glyph::rpc::McpError::resource_not_found("not mine"))
    }

    fn list_resource_templates(
        &self,
    ) -> Result<Vec<glyph::types::ResourceTemplate>, glyph::rpc::McpError> {
        Ok(Vec::new())
    }

    fn subscribe(&self, _uri: String) -> Result<(), glyph::rpc::McpError> {
        self.subscribes.set(self.subscribes.get() + 1);
        Ok(())
    }

    fn unsubscribe(&self, _uri: String) -> Result<(), glyph::rpc::McpError> {
        self.unsubscribes.set(self.unsubscribes.get() + 1);
        Ok(())
    }
}

#[test]
fn registry_subscribe_drives_the_accepting_provider() {
    // The registry itself calls the provider: once on the first add,
    // once on the last remove, and never in between.
    let subs = Rc::new(Cell::new(0u32));
    let unsubs = Rc::new(Cell::new(0u32));
    let mut registry = ResourceRegistry::new();
    registry.register(Box::new(SharedCountingProvider {
        subscribes: subs.clone(),
        unsubscribes: unsubs.clone(),
    }));

    registry.subscribe("file:///a", "S1").expect("the provider accepts");
    assert_eq!(subs.get(), 1);
    registry.subscribe("file:///a", "S2").expect("a watched uri needs no new watch");
    assert_eq!(subs.get(), 1);

    registry.unsubscribe("file:///a", "S1").expect("unsubscribe succeeds");
    assert_eq!(unsubs.get(), 0);
    registry.unsubscribe("file:///a", "S2").expect("unsubscribe succeeds");
    assert_eq!(unsubs.get(), 1);
    registry.unsubscribe("file:///a", "S2").expect("a second unsubscribe is a no-op");
    assert_eq!(unsubs.get(), 1);
}

#[test]
fn subscribe_without_a_willing_provider_is_refused() {
    let mut registry = ResourceRegistry::new();
    let err = registry.subscribe("file:///a", "S1").expect_err("nobody watches");
    assert_eq!(err.code.value(), -32603);
}

#[test]
fn test_policy_engine() {
    let policy = Policy::new_default();
    let mut engine = PolicyEngine::new(policy);

    let verdict = engine.check_permission("shell_execute", "shell", 0);
    assert!(matches!(verdict, PolicyVerdict::Allowed));

    assert_eq!(engine.audit_trail_len(), 1);
    assert_eq!(engine.get_audit_trail()[0].tool, "shell_execute");
}

#[test]
fn policy_decisions_repeat_on_equal_inputs() {
    let policy_a = Policy::new_default();
    let policy_b = Policy::new_default();
    let mut engine_a = PolicyEngine::new(policy_a);
    let mut engine_b = PolicyEngine::new(policy_b);
    let a = engine_a.check_permission("delete_file", "fs.write", 7);
    let b = engine_b.check_permission("delete_file", "fs.write", 7);
    match (a, b) {
        (PolicyVerdict::ConsentNeeded(ma), PolicyVerdict::ConsentNeeded(mb)) => {
            assert_eq!(ma, mb)
        },
        _ => panic!("equal inputs give the same verdict"),
    }
    assert_eq!(engine_a.audit_trail_len(), engine_b.audit_trail_len());
}

#[test]
fn consent_is_surfaced_and_a_grant_admits_the_call() {
    // A consent rule never grants silently: the need is handed back,
    // and only a recorded grant lets the same call through.
    let mut engine = PolicyEngine::new(Policy::new_default());
    match engine.check_permission("delete_file", "fs.write", 0) {
        PolicyVerdict::ConsentNeeded(message) => {
            assert_eq!(message, "This will permanently delete a file")
        },
        _ => panic!("the default policy asks consent for file deletion"),
    }
    engine.grant_consent("delete_file");
    assert!(matches!(
        engine.check_permission("delete_file", "fs.write", 1),
        PolicyVerdict::Allowed
    ));
    // no audit rule names delete_file, so the trail stays empty
    assert_eq!(engine.audit_trail_len(), 0);
}

#[test]
fn test_metrics_collector() {
    let mut collector = MetricsCollector::new();

    collector.record_request(true);
    collector.record_request(false);
    collector.record_tool_call("test_tool", 100, true);

    let metrics = collector.snapshot(0);
    assert_eq!(metrics.total_requests, 2);
    assert_eq!(metrics.successful_requests, 1);
    assert_eq!(metrics.failed_requests, 1);
    assert_eq!(metrics.total_tools_called, 1);
    assert_eq!(metrics.tool_metrics.len(), 1);
    assert_eq!(metrics.tool_metrics[0].1.call_count, 1);
    assert_eq!(metrics.tool_metrics[0].1.total_duration_ms, 100);
    assert_eq!(metrics.tool_metrics[0].1.avg_duration_ms(), 100);
}

#[test]
fn test_rate_limiter() {
    let mut limiter = RateLimiter::new();

    let result = limiter.check_limit("test_key", 2, 60_000, 0);
    assert!(result.is_ok());

    let result = limiter.check_limit("test_key", 2, 60_000, 10);
    assert!(result.is_ok());

    let result = limiter.check_limit("test_key", 2, 60_000, 20);
    assert!(result.is_err());
    let e = result.unwrap_err();
    assert_eq!(e.limit, 2);
    assert_eq!(e.retry_after_ms, 60_000 - 20);

    let result = limiter.check_limit("test_key", 2, 60_000, 70_000);
    assert!(result.is_ok());
}

#[test]
fn test_secret_redaction() {
    let redactor = SecretRedactor::new();

    let input = "{\"api_key\": \"sk-1234567890\", \"password\": \"secret123\"}";
    let redacted = redactor.redact(input);

    assert!(redacted.contains("[REDACTED]"));
}

#[test]
fn redaction_replaces_the_values_of_secret_named_members() {
    let redactor = SecretRedactor::new();
    let input = "{\"api_key\": \"sk-1234567890\", \"user\": \"alice\"}";
    let redacted = redactor.redact(input);
    // the member names stay; the secret value goes
    assert_eq!(redacted, "{\"api_key\":\"[REDACTED]\",\"user\":\"alice\"}");
    assert!(!redacted.contains("sk-1234567890"));
}

#[test]
fn redaction_is_case_insensitive_and_repeatable() {
    let redactor = SecretRedactor::new();
    let once = redactor.redact("my API_KEY here");
    assert_eq!(once, "my [REDACTED] here");
    let twice = redactor.redact(&once);
    assert_eq!(twice, once);
}

#[test]
fn test_json_redaction() {
    let redactor = SecretRedactor::new();

    let json = obj(vec![
        ("api_key", text("sk-test-key")),
        ("user", text("alice")),
        ("data", obj(vec![("password", text("secret"))])),
    ]);

    let redacted = redactor.redact_json(&json);
    assert!(matches!(redacted, JsonValue::Obj(_)));
}

#[test]
fn json_redaction_is_idempotent_and_hides_secret_members() {
    let redactor = SecretRedactor::new();
    let json = obj(vec![
        ("api_key", text("sk-test-key")),
        ("user", text("alice")),
        ("data", obj(vec![("password", text("secret"))])),
    ]);
    let once = redactor.redact_json(&json);
    let expected = obj(vec![
        ("api_key", text("[REDACTED]")),
        ("user", text("alice")),
        ("data", obj(vec![("password", text("[REDACTED]"))])),
    ]);
    assert_eq!(once, expected);
    let twice = redactor.redact_json(&once);
    assert_eq!(twice, once);
}

#[test]
fn test_default_policy() {
    let policy = PolicyConfig::new_default();
    assert!(policy.has_scope("fs.read"));
    assert!(policy.has_scope("fs.write"));
    assert!(policy.has_scope("shell.execute"));
}

#[test]
fn test_consent_guard() {
    let policy = PolicyConfig::new_default();
    let mut guard = ConsentGuard::new(policy);

    let result = guard.require("test_tool", "default");
    assert!(result.is_ok());
}

#[test]
fn consent_guard_asks_until_an_approval_is_recorded() {
    let mut policy = PolicyConfig::new_default();
    policy.tool_policies.push((
        "risky_tool".to_string(),
        glyph::consent::ToolPolicy {
            consent_required: true,
            scopes: Vec::new(),
            rate_limit: None,
        },
    ));
    let mut guard = ConsentGuard::new(policy);
    let refused = guard.require("risky_tool", "default");
    assert_eq!(refused, Err("consent required for this tool".to_string()));
    guard.record_approval("risky_tool");
    assert!(guard.require("risky_tool", "default").is_ok());
}

#[test]
fn test_server_builder() {
    let server = ServerBuilder::new()
        .with_server_info("test-server", "1.0.0")
        .with_tools()
        .with_resources()
        .with_prompts()
        .build();

    assert!(server.capabilities.supports_tools());
    assert!(server.capabilities.supports_resources());
    assert!(server.capabilities.supports_prompts());
    assert_eq!(server.server_info.name, "test-server");
    assert_eq!(server.server_info.version, "1.0.0");
}

#[test]
fn test_default_server_builder() {
    let server = ServerBuilder::default().build();
    assert_eq!(server.server_info.name, "glyph-server");
}

#[test]
fn test_client_builder() {
    let config = ClientBuilder::new()
        .with_client_info("test-client", "1.0.0")
        .with_sampling()
        .build_without_connecting();

    assert_eq!(config.client_info.name, "test-client");
    assert_eq!(config.client_info.version, "1.0.0");
    assert!(config.capabilities.sampling.is_some());
}

#[test]
fn test_default_client_builder() {
    let config = ClientBuilder::default().build_without_connecting();
    assert_eq!(config.client_info.name, "glyph-client");
}

#[test]
fn test_websocket_transport_with_config() {
    let config = TransportConfig::new()
        .with_max_message_size(1024)
        .with_read_timeout(5_000);

    assert_eq!(config.max_message_size, Some(1024));
    assert_eq!(config.read_timeout_ms, Some(5_000));
}

#[test]
fn filesystem_provider_path_rules() {
    let provider = glyph::providers::FileSystemResourceProvider::new("/data")
        .with_allowed_extensions(vec!["txt".to_string(), "md".to_string()]);
    assert!(provider.is_allowed_file("/data/notes.txt"));
    assert!(provider.is_allowed_file("/data/sub/readme.md"));
    assert!(!provider.is_allowed_file("/data/tool.exe"));
    assert!(!provider.is_allowed_file("/data/no_extension"));
    assert_eq!(provider.path_to_uri("/data/notes.txt"), "file:///data/notes.txt");
    assert_eq!(
        provider.uri_to_path("file:///data/notes.txt"),
        Some("/data/notes.txt".to_string())
    );
    assert_eq!(provider.uri_to_path("file:///etc/passwd"), None);
    assert_eq!(provider.uri_to_path("http://x/y"), None);
}

#[test]
fn session_manager_tracks_sessions() {
    let mut manager = glyph::session::SessionManager::new();
    manager.create_session(
        glyph::rpc::RequestId::new_number(1),
        glyph::types::Implementation::new("c", "1"),
        glyph::capabilities::ClientCapabilities::new(),
        100,
    );
    assert_eq!(manager.session_count(), 1);
    assert!(manager.get_session(&glyph::rpc::RequestId::new_number(1)).is_some());
    manager.cleanup_inactive_sessions(50, 200);
    assert_eq!(manager.session_count(), 0);
}
