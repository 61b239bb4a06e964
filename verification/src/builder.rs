//! Builders for the two peers.
//!
//! The builders collect identity, capabilities and transport tuning;
//! connecting a transport is I/O and happens outside this crate, against
//! the configurations built here.

use vstd::prelude::*;

use crate::capabilities::ClientCapabilities;
use crate::capabilities::PromptsCapability;
use crate::capabilities::ResourcesCapability;
use crate::capabilities::ServerCapabilities;
use crate::capabilities::ToolsCapability;
use crate::framing::TransportConfig;
use crate::json::JsonValue;
use crate::server::Server;
use crate::types::Implementation;

verus! {

/// Collects a server's identity, capabilities and transport tuning.
#[derive(Debug)]
pub struct ServerBuilder {
    pub server_info: Option<Implementation>,
    pub capabilities: ServerCapabilities,
    pub transport_config: TransportConfig,
}

impl ServerBuilder {
    /// A builder with no identity chosen and nothing advertised.
    pub fn new() -> (r: ServerBuilder)
        ensures
            r.server_info is None,
            r.capabilities.tools is None,
            r.capabilities.resources is None,
            r.capabilities.prompts is None,
    {
        ServerBuilder {
            server_info: None,
            capabilities: ServerCapabilities::new(),
            transport_config: TransportConfig::new(),
        }
    }

    /// The same builder with this identity.
    pub fn with_server_info(self, name: &str, version: &str) -> (r: ServerBuilder)
        ensures
            r.server_info matches Some(info) && info.name@ == name@ && info.version@ == version@,
            r.capabilities == self.capabilities,
    {
        ServerBuilder { server_info: Some(Implementation::new(name, version)), ..self }
    }

    /// The same builder with these capabilities.
    pub fn with_capabilities(self, capabilities: ServerCapabilities) -> (r: ServerBuilder)
        ensures
            r.capabilities == capabilities,
            r.server_info == self.server_info,
    {
        ServerBuilder { capabilities, ..self }
    }

    /// The same builder advertising tools.
    pub fn with_tools(self) -> (r: ServerBuilder)
        ensures
            r.capabilities.tools == Some(ToolsCapability { list_changed: None }),
            r.server_info == self.server_info,
    {
        let capabilities = self.capabilities.with_tools(ToolsCapability::new());
        ServerBuilder { capabilities, ..self }
    }

    /// The same builder advertising tools with change notification.
    pub fn with_tool_list_changes(self) -> (r: ServerBuilder)
        ensures
            r.capabilities.tools == Some(ToolsCapability { list_changed: Some(true) }),
            r.server_info == self.server_info,
    {
        let capabilities = self.capabilities.with_tools(
            ToolsCapability::new().with_list_changed(true),
        );
        ServerBuilder { capabilities, ..self }
    }

    /// The same builder advertising resources.
    pub fn with_resources(self) -> (r: ServerBuilder)
        ensures
            r.capabilities.resources == Some(
                ResourcesCapability { subscribe: None, list_changed: None },
            ),
            r.server_info == self.server_info,
    {
        let capabilities = self.capabilities.with_resources(ResourcesCapability::new());
        ServerBuilder { capabilities, ..self }
    }

    /// The same builder advertising resources with subscriptions and
    /// change notification.
    pub fn with_resource_subscriptions(self) -> (r: ServerBuilder)
        ensures
            r.capabilities.resources == Some(
                ResourcesCapability { subscribe: Some(true), list_changed: Some(true) },
            ),
            r.server_info == self.server_info,
    {
        let capabilities = self.capabilities.with_resources(
            ResourcesCapability::new().with_subscribe(true).with_list_changed(true),
        );
        ServerBuilder { capabilities, ..self }
    }

    /// The same builder advertising prompts.
    pub fn with_prompts(self) -> (r: ServerBuilder)
        ensures
            r.capabilities.prompts == Some(PromptsCapability { list_changed: None }),
            r.server_info == self.server_info,
    {
        let capabilities = self.capabilities.with_prompts(PromptsCapability::new());
        ServerBuilder { capabilities, ..self }
    }

    /// The same builder advertising prompts with change notification.
    pub fn with_prompt_list_changes(self) -> (r: ServerBuilder)
        ensures
            r.capabilities.prompts == Some(PromptsCapability { list_changed: Some(true) }),
            r.server_info == self.server_info,
    {
        let capabilities = self.capabilities.with_prompts(
            PromptsCapability::new().with_list_changed(true),
        );
        ServerBuilder { capabilities, ..self }
    }

    /// The same builder with this transport tuning.
    pub fn with_transport_config(self, config: TransportConfig) -> (r: ServerBuilder)
        ensures
            r.transport_config == config,
            r.server_info == self.server_info,
            r.capabilities == self.capabilities,
    {
        ServerBuilder { transport_config: config, ..self }
    }

    /// The server peer this builder describes, under the built-in
    /// policy; a builder without an identity names the server after
    /// this library.
    pub fn build(&self) -> (r: Server)
        ensures
            r.wf(),
            r.state == crate::server::LifecycleState::New,
            r.capabilities.tools == self.capabilities.tools,
            r.capabilities.resources == self.capabilities.resources,
            r.capabilities.prompts == self.capabilities.prompts,
            self.server_info matches Some(info) ==> r.server_info.name@ == info.name@
                && r.server_info.version@ == info.version@,
            self.server_info is None ==> r.server_info.name@ == "glyph-server"@,
            r.tool_registry.entries@.len() == 0,
            r.resource_registry.providers@.len() == 0,
            r.prompt_registry.entries@.len() == 0,
            r.policy_engine.policy.rules@.len() == 2,
            r.policy_engine.policy.rules@[0].condition matches
                crate::policy::PolicyCondition::ToolName { matches: m0 } && m0@
                == "shell_execute"@,
            r.policy_engine.policy.rules@[0].action matches crate::policy::PolicyAction::Audit {
                level,
            } && level == crate::policy::AuditLevel::Warn,
            r.policy_engine.policy.rules@[1].condition matches
                crate::policy::PolicyCondition::ToolName { matches: m1 } && m1@ == "delete_file"@,
            r.policy_engine.policy.rules@[1].action is RequireConsent,
            r.policy_engine.approved_operations@.len() == 0,
            r.policy_engine.audit_trail@.len() == 0,
            r.session_manager.sessions@.len() == 0,
    {
        let server_info = match &self.server_info {
            Some(info) => Implementation::new(info.name.as_str(), info.version.as_str()),
            None => Implementation::new("glyph-server", "0.1.0"),
        };
        let r = Server::new(
            self.capabilities.clone(),
            server_info,
            crate::policy::Policy::new_default(),
        );
        r
    }
}

impl Default for ServerBuilder {
    /// As `new` gives it.
    fn default() -> (r: ServerBuilder)
        ensures
            r.server_info is None,
    {
        ServerBuilder::new()
    }
}

/// Collects a client's identity, capabilities and transport tuning.
#[derive(Debug)]
pub struct ClientBuilder {
    pub client_info: Option<Implementation>,
    pub capabilities: ClientCapabilities,
    pub transport_config: TransportConfig,
}

impl ClientBuilder {
    /// A builder with no identity chosen and nothing advertised.
    pub fn new() -> (r: ClientBuilder)
        ensures
            r.client_info is None,
            r.capabilities.sampling is None,
            r.capabilities.experimental is None,
    {
        ClientBuilder {
            client_info: None,
            capabilities: ClientCapabilities::new(),
            transport_config: TransportConfig::new(),
        }
    }

    /// The same builder with this identity.
    pub fn with_client_info(self, name: &str, version: &str) -> (r: ClientBuilder)
        ensures
            r.client_info matches Some(info) && info.name@ == name@ && info.version@ == version@,
            r.capabilities == self.capabilities,
    {
        ClientBuilder { client_info: Some(Implementation::new(name, version)), ..self }
    }

    /// The same builder with these capabilities.
    pub fn with_capabilities(self, capabilities: ClientCapabilities) -> (r: ClientBuilder)
        ensures
            r.capabilities == capabilities,
            r.client_info == self.client_info,
    {
        ClientBuilder { capabilities, ..self }
    }

    /// The same builder advertising sampling.
    pub fn with_sampling(self) -> (r: ClientBuilder)
        ensures
            r.capabilities.sampling is Some,
            r.client_info == self.client_info,
    {
        let capabilities = self.capabilities.with_sampling();
        ClientBuilder { capabilities, ..self }
    }

    /// The same builder with an experimental document.
    pub fn with_experimental(self, experimental: JsonValue) -> (r: ClientBuilder)
        ensures
            r.capabilities.experimental is Some,
            r.client_info == self.client_info,
    {
        let capabilities = self.capabilities.with_experimental(experimental);
        ClientBuilder { capabilities, ..self }
    }

    /// The same builder with this transport tuning.
    pub fn with_transport_config(self, config: TransportConfig) -> (r: ClientBuilder)
        ensures
            r.transport_config == config,
            r.client_info == self.client_info,
            r.capabilities == self.capabilities,
    {
        ClientBuilder { transport_config: config, ..self }
    }

    /// The configuration this builder describes, without connecting
    /// anything; a builder without an identity names the client after
    /// this library.
    pub fn build_without_connecting(self) -> (r: ClientConfig)
        ensures
            self.client_info matches Some(info) ==> r.client_info == info,
            self.client_info is None ==> r.client_info.name@ == "glyph-client"@,
            r.capabilities == self.capabilities,
            r.transport_config == self.transport_config,
    {
        let client_info = match self.client_info {
            Some(info) => info,
            None => Implementation::new("glyph-client", "0.1.0"),
        };
        ClientConfig {
            client_info,
            capabilities: self.capabilities,
            transport_config: self.transport_config,
        }
    }
}

impl Default for ClientBuilder {
    /// As `new` gives it.
    fn default() -> (r: ClientBuilder)
        ensures
            r.client_info is None,
    {
        ClientBuilder::new()
    }
}

/// A client ready to connect: its identity, capabilities and transport
/// tuning.
#[derive(Debug, Clone)]
pub struct ClientConfig {
    pub client_info: Implementation,
    pub capabilities: ClientCapabilities,
    pub transport_config: TransportConfig,
}

impl ClientConfig {
    /// The client peer core this configuration describes.
    pub fn into_client(self) -> (r: crate::client::Client)
        ensures
            r.wf(),
            r.client_info == self.client_info,
            r.capabilities == self.capabilities,
            !r.initialized,
    {
        crate::client::Client::new(self.client_info, self.capabilities)
    }
}

} // verus!
