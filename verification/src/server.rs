//! The server side of a session: lifecycle, dispatch, and the policy
//! gate in the tool-call path.
//!
//! A server is born `New`, moves to `Initializing` when its transport
//! connects, and reaches `Ready` only through a successful `initialize`
//! handshake. Before `Ready`, only `initialize` is accepted: every other
//! request — `ping` included — is answered with `InvalidRequest`. Version
//! negotiation failure is answered with `ProtocolVersionMismatch` and the
//! connection is closed.

use vstd::prelude::*;

use crate::capabilities::ServerCapabilities;
use crate::client::NotificationKind;
use crate::client::classify_notification;
use crate::json::Json;
use crate::json::JsonValue;
use crate::json::spec_get;
use crate::json::str_eq;
use crate::messages::CallToolRequest;
use crate::messages::parse_call_tool;
use crate::messages::parse_get_prompt;
use crate::messages::parse_initialize;
use crate::messages::parse_uri_param;
use crate::policy::PolicyEngine;
use crate::prompts::PromptRegistry;
use crate::resources::ResourceRegistry;
use crate::rpc::ErrorCode;
use crate::rpc::JsonRpcMessage;
use crate::rpc::JsonRpcNotification;
use crate::rpc::JsonRpcRequest;
use crate::rpc::JsonRpcResponse;
use crate::rpc::McpError;
use crate::rpc::RequestId;
use crate::rpc::StandardErrorCode;
use crate::session::SessionManager;
use crate::tools::ToolRegistry;
use crate::types::Content;
use crate::types::Implementation;

verus! {

/// Where in its life a peer stands. A peer is never reopened: a closed
/// one is replaced by a new one.
#[derive(Debug, Clone, Copy, PartialEq, Eq, Structural)]
pub enum LifecycleState {
    New,
    Initializing,
    Ready,
    Closing,
    Closed,
}

/// The server peer core.
pub struct Server {
    pub capabilities: ServerCapabilities,
    pub server_info: Implementation,
    pub session_manager: SessionManager,
    pub tool_registry: ToolRegistry,
    pub resource_registry: ResourceRegistry,
    pub prompt_registry: PromptRegistry,
    pub policy_engine: PolicyEngine,
    pub state: LifecycleState,
}

/// What the dispatcher decided for one inbound message.
pub enum ServerAction {
    /// Send this response; when the flag is set, close the connection
    /// after sending it.
    Respond(JsonRpcResponse, bool),
    /// Nothing goes out: the message was a notification, or a stray
    /// response to be warned about.
    Nothing,
}

impl Server {
    /// The server invariant: every registry invariant holds.
    pub open spec fn wf(&self) -> bool {
        &&& self.tool_registry.wf()
        &&& self.resource_registry.wf()
        &&& self.prompt_registry.wf()
    }

    /// A new server peer with these capabilities and identity, empty
    /// registries, and the given policy.
    pub fn new(
        capabilities: ServerCapabilities,
        server_info: Implementation,
        policy: crate::policy::Policy,
    ) -> (r: Server)
        ensures
            r.wf(),
            r.state == LifecycleState::New,
            r.capabilities == capabilities,
            r.server_info == server_info,
            r.tool_registry.entries@.len() == 0,
            r.resource_registry.providers@.len() == 0,
            r.resource_registry.subscriptions@.len() == 0,
            r.prompt_registry.entries@.len() == 0,
            r.policy_engine.policy == policy,
            r.policy_engine.approved_operations@.len() == 0,
            r.policy_engine.audit_trail@.len() == 0,
            r.session_manager.sessions@.len() == 0,
    {
        Server {
            capabilities,
            server_info,
            session_manager: SessionManager::new(),
            tool_registry: ToolRegistry::new(),
            resource_registry: ResourceRegistry::new(),
            prompt_registry: PromptRegistry::new(),
            policy_engine: PolicyEngine::new(policy),
            state: LifecycleState::New,
        }
    }

    /// The transport connected: the peer starts its handshake.
    pub fn connect(&mut self)
        requires
            old(self).state == LifecycleState::New,
        ensures
            final(self).state == LifecycleState::Initializing,
            final(self).wf() == old(self).wf(),
    {
        self.state = LifecycleState::Initializing;
    }

    /// True once the initialize handshake completed.
    pub fn is_initialized(&self) -> (r: bool)
        ensures
            r == (self.state == LifecycleState::Ready),
    {
        match self.state {
            LifecycleState::Ready => true,
            _ => false,
        }
    }

    /// The peer is closing: no more requests are served.
    pub fn close(&mut self)
        ensures
            final(self).state == LifecycleState::Closed,
    {
        self.state = LifecycleState::Closed;
    }

    /// Dispatches one inbound message: a request is answered, a
    /// notification is absorbed, a stray response is dropped with a
    /// warning.
    pub fn handle_message(&mut self, message: JsonRpcMessage, now_ms: u64) -> (r: ServerAction)
        requires
            old(self).wf(),
        ensures
            final(self).wf(),
            message is Request <==> r is Respond,
            r matches ServerAction::Respond(resp, close) ==> resp@.id == message->Request_0@.id
                && resp@.wf(),
            message is Request && old(self).state != LifecycleState::Ready
                && message->Request_0@.method != "initialize"@ ==> (r matches
                ServerAction::Respond(resp, close) && resp@.error matches Some(e) && e.code
                == ErrorCode::Standard(StandardErrorCode::InvalidRequest)),
            message is Request && old(self).state == LifecycleState::Ready
                && message->Request_0@.method == "ping"@ ==> (r matches ServerAction::Respond(
                resp,
                close,
            ) && resp@.result is Some),
            message is Request && message->Request_0@.method == "initialize"@ ==> (r matches
                ServerAction::Respond(resp, close) && (resp@.error is None <==> spec_init_accepted(
                message->Request_0.params,
            ))),
            message is Request && message->Request_0@.method == "initialize"@ ==> (r matches
                ServerAction::Respond(resp, close) && resp@.error is None ==> final(self).state
                == LifecycleState::Ready),
            message is Request && old(self).state == LifecycleState::Ready
                && message->Request_0@.method == "tools/list"@ ==> (r matches
                ServerAction::Respond(resp, close) && (resp@.result matches Some(res) && (spec_get(
                res,
                "tools"@,
            ) matches Some(j) && j matches Json::Arr(a) && a.len() == old(
                self,
            ).tool_registry.entries@.len() && (forall|k: int|
                0 <= k < a.len() ==> ((#[trigger] a[k]) matches Json::Obj(es)
                    && crate::json::spec_lookup(es, "name"@) == Some(
                    Json::Str(old(self).tool_registry.entries@[k].descriptor.name@),
                )))))),
            message is Request && old(self).state == LifecycleState::Ready
                && message->Request_0@.method == "prompts/list"@ ==> (r matches
                ServerAction::Respond(resp, close) && (resp@.result matches Some(res) && (spec_get(
                res,
                "prompts"@,
            ) matches Some(j) && j matches Json::Arr(a) && a.len() == old(
                self,
            ).prompt_registry.entries@.len()))),
            message is Request && old(self).state == LifecycleState::Ready
                && message->Request_0@.method == "tools/call"@ ==> (r matches
                ServerAction::Respond(resp, close) && (message->Request_0.params matches Some(p)
                ==> (spec_get(p@, crate::messages::key_name()) matches Some(Json::Str(name)) ==> ((
            !old(self).tool_registry.spec_has_tool(name) ==> (resp@.error matches Some(e)
                && e.code == ErrorCode::Standard(StandardErrorCode::ToolNotFound))) && (old(
                self,
            ).tool_registry.spec_has_tool(name) && old(self).tool_registry.spec_admits(
                name,
                spec_get(p@, crate::messages::key_arguments()),
            ) ==> match crate::policy::spec_decide(
                old(self).policy_engine.policy.rules@,
                name,
                crate::policy::approved_views(old(self).policy_engine.approved_operations@),
            ) {
                crate::policy::PolicyDecision::Denied(_) => resp@.result matches Some(res)
                    && spec_get(res, "isError"@) == Some(Json::Bool(true)),
                crate::policy::PolicyDecision::NeedsConsent(message2) => resp@.error matches Some(
                    e3,
                ) && e3.code == ErrorCode::Standard(StandardErrorCode::ConsentRequired)
                    && e3.message == message2,
                crate::policy::PolicyDecision::Allowed => resp@.result is Some,
            }))))),
            message is Request && old(self).state == LifecycleState::Ready
                && message->Request_0@.method == "resources/subscribe"@ ==> (r matches
                ServerAction::Respond(resp, close) && (message->Request_0.params matches Some(p)
                ==> (spec_get(p@, crate::messages::key_uri()) matches Some(Json::Str(uri)) ==> (
            resp@.result is Some ==> final(self).resource_registry.spec_is_subscribed(
                uri,
                spec_id_chars(message->Request_0.id),
            ))))),
            message is Request && old(self).state == LifecycleState::Ready
                && message->Request_0@.method == "resources/unsubscribe"@ ==> (r matches
                ServerAction::Respond(resp, close) && (message->Request_0.params matches Some(p)
                ==> (spec_get(p@, crate::messages::key_uri()) matches Some(Json::Str(uri)) ==> (
            resp@.result is Some && !final(self).resource_registry.spec_is_subscribed(
                uri,
                spec_id_chars(message->Request_0.id),
            ))))),
            message is Request && old(self).state == LifecycleState::Ready
                && message->Request_0@.method != "initialize"@ && message->Request_0@.method
                != "ping"@ && message->Request_0@.method != "tools/list"@
                && message->Request_0@.method != "tools/call"@ && message->Request_0@.method
                != "resources/list"@ && message->Request_0@.method != "resources/read"@
                && message->Request_0@.method != "resources/subscribe"@
                && message->Request_0@.method != "resources/unsubscribe"@
                && message->Request_0@.method != "prompts/list"@ && message->Request_0@.method
                != "prompts/get"@ ==> (r matches ServerAction::Respond(resp, close)
                && (resp@.error matches Some(e) && e.code == ErrorCode::Standard(
                StandardErrorCode::MethodNotFound,
            ))),
    {
        match message {
            JsonRpcMessage::Request(request) => {
                let (response, close) = self.handle_request(request, now_ms);
                ServerAction::Respond(response, close)
            },
            JsonRpcMessage::Notification(n) => {
                self.handle_notification(&n);
                ServerAction::Nothing
            },
            JsonRpcMessage::Response(_) => ServerAction::Nothing,
        }
    }

    /// Absorbs one notification: the initialized confirmation is purely
    /// informational, a cancellation is accepted without obligation, and
    /// unknown methods are ignored.
    pub fn handle_notification(&mut self, n: &JsonRpcNotification)
        requires
            old(self).wf(),
        ensures
            final(self).wf(),
            *final(self) == *old(self),
    {
        let _kind: NotificationKind = classify_notification(n);
    }

    /// Answers one request. Before `Ready` every method but
    /// `initialize` — `ping` included — is refused with `InvalidRequest`;
    /// `initialize` negotiates a version, creates the session and moves
    /// the peer to `Ready`, or answers `ProtocolVersionMismatch` and
    /// closes when the offer shares no version with this library. The
    /// response always echoes the request's id, and carries exactly one
    /// of a result or an error.
    pub fn handle_request(&mut self, request: JsonRpcRequest, now_ms: u64) -> (r: (
        JsonRpcResponse,
        bool,
    ))
        requires
            old(self).wf(),
        ensures
            final(self).wf(),
            r.0@.id == request@.id,
            r.0@.wf(),
            old(self).state != LifecycleState::Ready && request@.method != "initialize"@ ==> (
            r.0@.error matches Some(e) && e.code == ErrorCode::Standard(
                StandardErrorCode::InvalidRequest,
            ) && final(self).state == old(self).state),
            old(self).state != LifecycleState::Ready && request@.method == "ping"@
                ==> r.0@.error is Some,
            old(self).state == LifecycleState::Ready && request@.method == "ping"@
                ==> r.0@.result is Some,
            request@.method == "initialize"@ ==> (r.0@.error is None <==> spec_init_accepted(
                request.params,
            )),
            request@.method == "initialize"@ && r.0@.error is None ==> final(self).state
                == LifecycleState::Ready,
            old(self).state == LifecycleState::Ready && request@.method == "tools/list"@ ==> (
            r.0@.result matches Some(res) && (spec_get(res, "tools"@) matches Some(j)
                && j matches Json::Arr(a) && a.len() == old(self).tool_registry.entries@.len()
                && (forall|k: int|
                0 <= k < a.len() ==> ((#[trigger] a[k]) matches Json::Obj(es)
                    && crate::json::spec_lookup(es, "name"@) == Some(
                    Json::Str(old(self).tool_registry.entries@[k].descriptor.name@),
                ))))),
            old(self).state == LifecycleState::Ready && request@.method == "prompts/list"@ ==> (
            r.0@.result matches Some(res) && (spec_get(res, "prompts"@) matches Some(j)
                && j matches Json::Arr(a) && a.len() == old(self).prompt_registry.entries@.len()
                && (forall|k: int|
                0 <= k < a.len() ==> ((#[trigger] a[k]) matches Json::Obj(es)
                    && crate::json::spec_lookup(es, "name"@) == Some(
                    Json::Str(old(self).prompt_registry.entries@[k].descriptor.name@),
                ))))),
            old(self).state == LifecycleState::Ready && request@.method == "resources/list"@ ==> (
            r.0@.result matches Some(res) ==> (spec_get(res, "resources"@) matches Some(j)
                && j is Arr)),
            old(self).state == LifecycleState::Ready && request@.method == "resources/read"@ ==> (
            r.0@.result matches Some(res) ==> (spec_get(res, "contents"@) matches Some(j)
                && j is Arr)),
            old(self).state == LifecycleState::Ready && request@.method == "prompts/get"@ ==> (
            r.0@.result matches Some(res) ==> (spec_get(res, "messages"@) matches Some(j)
                && j is Arr)),
            old(self).state == LifecycleState::Ready && request@.method == "tools/call"@ && !(
            request.params matches Some(p) && spec_get(p@, crate::messages::key_name()) matches
                Some(Json::Str(_))) ==> (r.0@.error matches Some(e) && e.code
                == ErrorCode::Standard(StandardErrorCode::InvalidParams)),
            old(self).state == LifecycleState::Ready && request@.method == "tools/call"@ ==> (
            request.params matches Some(p) ==> (spec_get(
                p@,
                crate::messages::key_name(),
            ) matches Some(Json::Str(name)) ==> ((!old(self).tool_registry.spec_has_tool(name)
                ==> (r.0@.error matches Some(e) && e.code == ErrorCode::Standard(
                StandardErrorCode::ToolNotFound,
            ))) && (old(self).tool_registry.spec_has_tool(name) && !old(
                self,
            ).tool_registry.spec_admits(name, spec_get(p@, crate::messages::key_arguments()))
                ==> (r.0@.error matches Some(e2) && (e2.code == ErrorCode::Standard(
                StandardErrorCode::InvalidParams,
            ) || e2.code == ErrorCode::Standard(StandardErrorCode::InternalError)))) && (old(
                self,
            ).tool_registry.spec_has_tool(name) && old(self).tool_registry.spec_admits(
                name,
                spec_get(p@, crate::messages::key_arguments()),
            ) ==> match crate::policy::spec_decide(
                old(self).policy_engine.policy.rules@,
                name,
                crate::policy::approved_views(old(self).policy_engine.approved_operations@),
            ) {
                crate::policy::PolicyDecision::Denied(_) => r.0@.result matches Some(res)
                    && spec_get(res, "isError"@) == Some(Json::Bool(true)),
                crate::policy::PolicyDecision::NeedsConsent(message) => r.0@.error matches Some(
                    e3,
                ) && e3.code == ErrorCode::Standard(StandardErrorCode::ConsentRequired)
                    && e3.message == message,
                crate::policy::PolicyDecision::Allowed => r.0@.result is Some,
            })))),
            old(self).state == LifecycleState::Ready && request@.method == "resources/subscribe"@
                ==> (request.params matches Some(p) ==> (spec_get(
                p@,
                crate::messages::key_uri(),
            ) matches Some(Json::Str(uri)) ==> (r.0@.result is Some ==> final(self)
                .resource_registry.spec_is_subscribed(uri, spec_id_chars(request.id))))),
            old(self).state == LifecycleState::Ready && request@.method == "resources/unsubscribe"@
                ==> (request.params matches Some(p) ==> (spec_get(
                p@,
                crate::messages::key_uri(),
            ) matches Some(Json::Str(uri)) ==> (r.0@.result is Some && !final(self)
                .resource_registry.spec_is_subscribed(uri, spec_id_chars(request.id))))),
            old(self).state == LifecycleState::Ready && (request@.method == "resources/read"@
                || request@.method == "resources/subscribe"@ || request@.method
                == "resources/unsubscribe"@) && !(request.params matches Some(p) && (spec_get(
                p@,
                crate::messages::key_uri(),
            ) matches Some(j) && j is Str)) ==> (r.0@.error matches Some(e) && e.code
                == ErrorCode::Standard(StandardErrorCode::InvalidParams)),
            old(self).state == LifecycleState::Ready && request@.method != "initialize"@
                && request@.method != "ping"@ && request@.method != "tools/list"@
                && request@.method != "tools/call"@ && request@.method != "resources/list"@
                && request@.method != "resources/read"@ && request@.method
                != "resources/subscribe"@ && request@.method != "resources/unsubscribe"@
                && request@.method != "prompts/list"@ && request@.method != "prompts/get"@ ==> (
            r.0@.error matches Some(e) && e.code == ErrorCode::Standard(
                StandardErrorCode::MethodNotFound,
            )),
    {
        proof {
            reveal_strlit("initialize");
            reveal_strlit("ping");
            reveal_strlit("tools/list");
            reveal_strlit("tools/call");
            reveal_strlit("resources/list");
            reveal_strlit("resources/read");
            reveal_strlit("resources/subscribe");
            reveal_strlit("resources/unsubscribe");
            reveal_strlit("prompts/list");
            reveal_strlit("prompts/get");
            assert("initialize"@.len() == 10);
            assert("ping"@.len() == 4);
            assert("tools/list"@.len() == 10);
            assert("tools/call"@.len() == 10);
            assert("resources/list"@.len() == 14);
            assert("resources/read"@.len() == 14);
            assert("resources/subscribe"@.len() == 19);
            assert("resources/unsubscribe"@.len() == 21);
            assert("prompts/list"@.len() == 12);
            assert("prompts/get"@.len() == 11);
            assert("initialize"@[0] == 'i' && "tools/list"@[0] == 't' && "tools/call"@[0] == 't');
            assert("tools/list"@[6] == 'l' && "tools/call"@[6] == 'c');
            assert("resources/list"@[10] == 'l' && "resources/read"@[10] == 'r');
            assert("initialize"@ != "tools/list"@ && "initialize"@ != "tools/call"@);
            assert("tools/list"@ != "tools/call"@);
            assert("resources/list"@ != "resources/read"@);
        }
        let method = request.method.as_str();
        if str_eq(method, "initialize") {
            return self.handle_initialize_request(request, now_ms);
        }
        let ready: bool = self.is_initialized();
        if !ready {
            let response = JsonRpcResponse::error(
                request.id,
                McpError::invalid_request("Server not initialized"),
            );
            return (response, false);
        }
        let response: JsonRpcResponse = if str_eq(method, "ping") {
            JsonRpcResponse::success(request.id, JsonValue::Obj(Vec::new()))
        } else if str_eq(method, "tools/list") {
            let tools = self.tool_registry.list_tools();
            JsonRpcResponse::success(request.id, crate::encode::tools_result_json(&tools))
        } else if str_eq(method, "tools/call") {
            let outcome = self.handle_tool_call(request.params.as_ref(), now_ms);
            match outcome {
                Ok(result) => JsonRpcResponse::success(
                    request.id,
                    crate::encode::call_result_json(&result),
                ),
                Err(e) => JsonRpcResponse::error(request.id, e),
            }
        } else if str_eq(method, "resources/list") {
            match self.list_resources() {
                Ok(resources) => JsonRpcResponse::success(
                    request.id,
                    crate::encode::resources_result_json(&resources),
                ),
                Err(e) => JsonRpcResponse::error(request.id, e),
            }
        } else if str_eq(method, "resources/read") {
            match parse_uri_param(request.params.as_ref()) {
                Ok(uri) => match self.resource_registry.read_resource(uri.as_str()) {
                    Ok(contents) => JsonRpcResponse::success(
                        request.id,
                        crate::encode::read_result_json(&contents),
                    ),
                    Err(e) => JsonRpcResponse::error(request.id, e),
                },
                Err(e) => JsonRpcResponse::error(request.id, e),
            }
        } else if str_eq(method, "resources/subscribe") {
            match parse_uri_param(request.params.as_ref()) {
                Ok(uri) => {
                    let subscriber = crate::encode::id_text(&request.id);
                    match self.resource_registry.subscribe(uri.as_str(), subscriber.as_str()) {
                        Ok(()) => JsonRpcResponse::success(
                            request.id,
                            JsonValue::Obj(Vec::new()),
                        ),
                        Err(e) => JsonRpcResponse::error(request.id, e),
                    }
                },
                Err(e) => JsonRpcResponse::error(request.id, e),
            }
        } else if str_eq(method, "resources/unsubscribe") {
            match parse_uri_param(request.params.as_ref()) {
                Ok(uri) => {
                    let subscriber = crate::encode::id_text(&request.id);
                    match self.resource_registry.unsubscribe(uri.as_str(), subscriber.as_str()) {
                        Ok(()) => JsonRpcResponse::success(
                            request.id,
                            JsonValue::Obj(Vec::new()),
                        ),
                        Err(e) => JsonRpcResponse::error(request.id, e),
                    }
                },
                Err(e) => JsonRpcResponse::error(request.id, e),
            }
        } else if str_eq(method, "prompts/list") {
            let prompts = self.prompt_registry.list_prompts();
            JsonRpcResponse::success(request.id, crate::encode::prompts_result_json(&prompts))
        } else if str_eq(method, "prompts/get") {
            match parse_get_prompt(request.params.as_ref()) {
                Ok(q) => {
                    let arguments = match q.arguments {
                        Some(args) => args,
                        None => Vec::new(),
                    };
                    match self.prompt_registry.get_prompt(q.name.as_str(), arguments) {
                        Ok(result) => JsonRpcResponse::success(
                            request.id,
                            crate::encode::prompt_result_json(&result),
                        ),
                        Err(e) => JsonRpcResponse::error(request.id, e),
                    }
                },
                Err(e) => JsonRpcResponse::error(request.id, e),
            }
        } else {
            JsonRpcResponse::error(request.id, McpError::method_not_found("Method not found"))
        };
        (response, false)
    }

    /// Serves `initialize`: parse the offer, agree on the offered
    /// version when this library supports it, create the session record
    /// and move to `Ready`. A payload of the wrong shape is answered
    /// `InvalidParams`; an offer this library does not support is
    /// answered `ProtocolVersionMismatch` and the connection closes
    /// after the response. On success, and only then, the response is a
    /// success whose result carries the agreed version, a session keyed
    /// by the request's id is created, and the peer is `Ready`.
    pub fn handle_initialize_request(&mut self, request: JsonRpcRequest, now_ms: u64) -> (r: (
        JsonRpcResponse,
        bool,
    ))
        requires
            old(self).wf(),
        ensures
            final(self).wf(),
            r.0@.id == request@.id,
            r.0@.wf(),
            r.0@.error is None <==> spec_init_accepted(request.params),
            r.0@.error is None ==> final(self).state == LifecycleState::Ready
                && final(self).session_manager.sessions@.len() == old(
                self,
            ).session_manager.sessions@.len() + 1
                && final(self).session_manager.sessions@.last().id@ == request@.id,
            r.0@.error is None ==> (request.params matches Some(p) ==> (r.0@.result matches Some(
                res,
            ) && spec_get(res, "protocolVersion"@) == Some(
                Json::Str(crate::messages::spec_offered_version(p@)),
            ))),
            r.0@.error is None ==> (r.0@.result matches Some(res) && (spec_get(
                res,
                "capabilities"@,
            ) matches Some(c) && c is Obj) && (spec_get(res, "serverInfo"@) matches Some(info)
                && crate::json::spec_lookup(info->Obj_0, "name"@) == Some(
                Json::Str(old(self).server_info.name@),
            ) && crate::json::spec_lookup(info->Obj_0, "version"@) == Some(
                Json::Str(old(self).server_info.version@),
            ))),
            r.0@.error is None ==> (request.params matches Some(p) ==> (spec_get(
                p@,
                crate::messages::key_client_info(),
            ) matches Some(ci) && spec_get(ci, crate::messages::key_name()) == Some(
                Json::Str(final(self).session_manager.sessions@.last().client_info.name@),
            ) && spec_get(ci, crate::messages::key_version()) == Some(
                Json::Str(final(self).session_manager.sessions@.last().client_info.version@),
            ))),
            r.0@.error is None ==> (request.params matches Some(p) ==> ((final(self)
                .session_manager.sessions@.last().capabilities.sampling is Some) <==> (spec_get(
                p@,
                "capabilities"@,
            ) matches Some(c) && spec_get(c, "sampling"@) is Some))),
            !(request.params matches Some(p) && crate::messages::spec_init_shape(p@)) ==> (
            r.0@.error matches Some(e) && e.code == ErrorCode::Standard(
                StandardErrorCode::InvalidParams,
            ) && !r.1 && *final(self) == *old(self)),
            request.params matches Some(p) ==> (crate::messages::spec_init_shape(p@)
                ==> (!crate::version::spec_supported(crate::messages::spec_offered_version(p@))
                ==> (r.0@.error matches Some(e) && e.code == ErrorCode::Standard(
                StandardErrorCode::ProtocolVersionMismatch,
            ) && r.1 && *final(self) == *old(self)))),
    {
        let init = match parse_initialize(request.params.as_ref()) {
            Ok(init) => init,
            Err(e) => {
                return (JsonRpcResponse::error(request.id, e), false);
            },
        };
        if !init.protocol_version.is_supported() {
            let e = McpError::new(
                ErrorCode::Standard(StandardErrorCode::ProtocolVersionMismatch),
                "Unsupported protocol version",
            );
            return (JsonRpcResponse::error(request.id, e), true);
        }
        let negotiated = init.protocol_version;
        self.session_manager.create_session(
            request.id.clone(),
            init.client_info,
            init.capabilities,
            now_ms,
        );
        self.state = LifecycleState::Ready;
        let result = crate::encode::initialize_result_json(
            &negotiated,
            &self.capabilities,
            &self.server_info,
        );
        (JsonRpcResponse::success(request.id, result), false)
    }

    /// Serves `tools/call`: parse the payload, look the tool up and
    /// validate its arguments against the tool's schema, then pass the
    /// call through the policy gate and the registry. An unknown tool or
    /// rejected arguments are answered before policy speaks. A policy
    /// denial is a successful response whose body says the call failed —
    /// the model sees the refusal — with the denial's reason in the
    /// content and the scope in the metadata; an uncovered consent
    /// requirement is a `ConsentRequired` protocol error carrying the
    /// rule's message, until `grant_consent` on the engine records the
    /// user's answer.
    pub fn handle_tool_call(&mut self, params: Option<&JsonValue>, now_ms: u64) -> (r: Result<
        crate::messages::CallToolResult,
        McpError,
    >)
        requires
            old(self).wf(),
        ensures
            final(self).wf(),
            final(self).tool_registry == old(self).tool_registry,
            final(self).policy_engine.approved_operations == old(
                self,
            ).policy_engine.approved_operations,
            !(params matches Some(p) && spec_get(p@, crate::messages::key_name()) matches Some(
                Json::Str(_),
            )) ==> (r matches Err(e) && e@.code == ErrorCode::Standard(
                StandardErrorCode::InvalidParams,
            )),
            params matches Some(p) ==> spec_get(p@, crate::messages::key_name()) matches Some(
                Json::Str(name),
            ) ==> (!old(self).tool_registry.spec_has_tool(name) ==> (r matches Err(e) && e@.code
                == ErrorCode::Standard(StandardErrorCode::ToolNotFound))),
            params matches Some(p) ==> spec_get(p@, crate::messages::key_name()) matches Some(
                Json::Str(name),
            ) ==> (old(self).tool_registry.spec_has_tool(name) && !old(
                self,
            ).tool_registry.spec_admits(
                name,
                spec_get(p@, crate::messages::key_arguments()),
            ) ==> (r matches Err(e) && (e@.code == ErrorCode::Standard(
                StandardErrorCode::InvalidParams,
            ) || e@.code == ErrorCode::Standard(StandardErrorCode::InternalError)))),
            params matches Some(p) ==> spec_get(p@, crate::messages::key_name()) matches Some(
                Json::Str(name),
            ) ==> (old(self).tool_registry.spec_has_tool(name) && old(
                self,
            ).tool_registry.spec_admits(
                name,
                spec_get(p@, crate::messages::key_arguments()),
            ) ==> match crate::policy::spec_decide(
                old(self).policy_engine.policy.rules@,
                name,
                crate::policy::approved_views(old(self).policy_engine.approved_operations@),
            ) {
                crate::policy::PolicyDecision::Denied(reason) => r matches Ok(res) && (
                res.is_error == Some(true) && res.content@.len() == 1 && (res.content@[0] matches
                    Content::Text { text } && text@ == "Permission denied: "@.add(reason)) && (
                res.meta matches Some(meta) && spec_get(meta@, "reason"@) == Some(
                    Json::Str("consent_denied"@),
                ) && spec_get(meta@, "scope"@) == Some(Json::Str(spec_scope(name))))),
                crate::policy::PolicyDecision::NeedsConsent(message) => r matches Err(e) && (e@.code
                    == ErrorCode::Standard(StandardErrorCode::ConsentRequired) && e@.message
                    == message),
                crate::policy::PolicyDecision::Allowed => r is Ok,
            }),
    {
        let q: CallToolRequest = match parse_call_tool(params) {
            Ok(q) => q,
            Err(e) => {
                proof {
                    if params is Some {
                        let p = params->Some_0;
                        assert(!(spec_get(p@, crate::messages::key_name()) matches Some(
                            Json::Str(_),
                        ))) by {
                            assert(!(spec_get(p@, crate::messages::key_name()) matches Some(j)
                                && j is Str));
                        }
                    }
                }
                return Err(e);
            },
        };
        match self.tool_registry.validate_request(&q) {
            Ok(()) => {},
            Err(e) => {
                return Err(e);
            },
        }
        let scope = determine_scope(q.name.as_str());
        let verdict = self.policy_engine.check_permission(q.name.as_str(), scope.as_str(), now_ms);
        match verdict {
            crate::policy::PolicyVerdict::Allowed => {},
            crate::policy::PolicyVerdict::Denied(reason) => {
                let mut text: String = "Permission denied: ".to_owned();
                text.append(reason.as_str());
                let mut content: Vec<Content> = Vec::new();
                content.push(Content::Text { text });
                let mut meta_entries: Vec<(String, JsonValue)> = Vec::new();
                meta_entries.push(("reason".to_owned(), JsonValue::text("consent_denied")));
                meta_entries.push(("scope".to_owned(), JsonValue::Str(scope)));
                let meta = JsonValue::Obj(meta_entries);
                proof {
                    reveal_strlit("reason");
                    reveal_strlit("scope");
                    reveal_strlit("consent_denied");
                    assert("reason"@.len() == 6);
                    assert("scope"@.len() == 5);
                    let m = crate::json::entries_view(meta->Obj_0@);
                    assert(m[0].0 == "reason"@);
                    crate::json::lemma_lookup_unfold(m, "reason"@);
                    assert(spec_get(meta@, "reason"@) == Some(m[0].1));
                    assert(m[1].0 == "scope"@);
                    assert(m.drop_first()[0] == m[1]);
                    crate::json::lemma_lookup_unfold(m, "scope"@);
                    crate::json::lemma_lookup_unfold(m.drop_first(), "scope"@);
                    assert(spec_get(meta@, "scope"@) == Some(m[1].1));
                }
                let result = crate::messages::CallToolResult::error(content).with_meta(meta);
                return Ok(result);
            },
            crate::policy::PolicyVerdict::ConsentNeeded(message) => {
                return Err(McpError::consent_required(message.as_str()));
            },
        }
        self.tool_registry.call_tool(q)
    }

    /// The union of every provider's resource list, sorted ascending by
    /// URI; a single provider's failure fails the whole call. Each
    /// provider's outcome is collected as it came back, and
    /// `combine_listings` settles the answer exactly.
    pub fn list_resources(&self) -> (r: Result<Vec<crate::types::Resource>, McpError>)
        ensures
            r matches Ok(v) ==> forall|i: int, j: int|
                0 <= i < j < v@.len() ==> crate::order::lex_leq(
                    (#[trigger] v@[i]).uri@,
                    (#[trigger] v@[j]).uri@,
                ),
    {
        let mut outcomes: Vec<Result<Vec<crate::types::Resource>, McpError>> = Vec::new();
        let mut i: usize = 0;
        while i < self.resource_registry.providers.len()
            decreases self.resource_registry.providers@.len() - i,
        {
            outcomes.push(self.resource_registry.providers[i].provider.list_resources());
            i = i + 1;
        }
        crate::resources::combine_listings(outcomes)
    }
}

/// Whether an `initialize` payload is accepted: present, of the right
/// shape, and offering a version this library supports.
pub open spec fn spec_init_accepted(params: Option<JsonValue>) -> bool {
    match params {
        Some(p) => crate::messages::spec_init_shape(p@) && crate::version::spec_supported(
            crate::messages::spec_offered_version(p@),
        ),
        None => false,
    }
}

/// Which registry a mutation touched.
#[derive(Debug, Clone, Copy, PartialEq, Eq, Structural)]
pub enum RegistryKind {
    Tools,
    Prompts,
    Resources,
}

impl Server {
    /// The notification due after a registry mutation: when the peer is
    /// `Ready` and the matching capability advertised its list-changed
    /// flag, and exactly then, the matching
    /// `notifications/*/list_changed` without parameters. The caller
    /// mutates a registry and sends what this hands back.
    pub fn list_changed_notification(&self, kind: RegistryKind) -> (r: Option<
        JsonRpcNotification,
    >)
        ensures
            r is Some <==> (self.state == LifecycleState::Ready && match kind {
                RegistryKind::Tools => self.capabilities.tools matches Some(c) && c.list_changed
                    == Some(true),
                RegistryKind::Prompts => self.capabilities.prompts matches Some(c)
                    && c.list_changed == Some(true),
                RegistryKind::Resources => self.capabilities.resources matches Some(c)
                    && c.list_changed == Some(true),
            }),
            r matches Some(n) ==> n.params is None && n.method@ == (match kind {
                RegistryKind::Tools => "notifications/tools/list_changed"@,
                RegistryKind::Prompts => "notifications/prompts/list_changed"@,
                RegistryKind::Resources => "notifications/resources/list_changed"@,
            }),
    {
        let advertised: bool = match kind {
            RegistryKind::Tools => match &self.capabilities.tools {
                Some(c) => match c.list_changed {
                    Some(b) => b,
                    None => false,
                },
                None => false,
            },
            RegistryKind::Prompts => match &self.capabilities.prompts {
                Some(c) => match c.list_changed {
                    Some(b) => b,
                    None => false,
                },
                None => false,
            },
            RegistryKind::Resources => match &self.capabilities.resources {
                Some(c) => match c.list_changed {
                    Some(b) => b,
                    None => false,
                },
                None => false,
            },
        };
        let ready: bool = self.is_initialized();
        if !(ready && advertised) {
            return None;
        }
        let method: String = match kind {
            RegistryKind::Tools => "notifications/tools/list_changed".to_owned(),
            RegistryKind::Prompts => "notifications/prompts/list_changed".to_owned(),
            RegistryKind::Resources => "notifications/resources/list_changed".to_owned(),
        };
        Some(JsonRpcNotification { jsonrpc: crate::rpc::JsonRpcVersion2_0, method, params: None })
    }
}

/// The text a request id subscribes under: the decimal digits of an
/// integer id, the name of a string id.
pub open spec fn spec_id_chars(id: RequestId) -> Seq<char> {
    match id {
        RequestId::Number(n) => crate::json::spec_int_chars(n as int),
        RequestId::Name(s) => s@,
    }
}

/// The permission scope a tool name falls under.
pub open spec fn spec_scope(tool: Seq<char>) -> Seq<char> {
    if tool == "read_file"@ || tool == "list_directory"@ {
        "fs.read"@
    } else if tool == "write_file"@ || tool == "delete_file"@ {
        "fs.write"@
    } else if tool == "shell_execute"@ {
        "shell.execute"@
    } else {
        "default"@
    }
}

/// The permission scope a tool name falls under.
pub fn determine_scope(tool_name: &str) -> (r: String)
    ensures
        r@ == spec_scope(tool_name@),
{
    proof {
        reveal_strlit("read_file");
        reveal_strlit("list_directory");
        reveal_strlit("write_file");
        reveal_strlit("delete_file");
        reveal_strlit("shell_execute");
        assert("read_file"@.len() == 9);
        assert("list_directory"@.len() == 14);
        assert("write_file"@.len() == 10);
        assert("delete_file"@.len() == 11);
        assert("shell_execute"@.len() == 13);
    }
    if str_eq(tool_name, "read_file") || str_eq(tool_name, "list_directory") {
        "fs.read".to_owned()
    } else if str_eq(tool_name, "write_file") || str_eq(tool_name, "delete_file") {
        "fs.write".to_owned()
    } else if str_eq(tool_name, "shell_execute") {
        "shell.execute".to_owned()
    } else {
        "default".to_owned()
    }
}

} // verus!
