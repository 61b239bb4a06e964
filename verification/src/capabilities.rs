//! Capability advertisements exchanged at initialize.

use vstd::prelude::*;

use crate::json::JsonValue;

verus! {

/// What a client can do: sampling and anything experimental.
#[derive(Debug, Clone, Default)]
pub struct ClientCapabilities {
    pub experimental: Option<JsonValue>,
    pub sampling: Option<SamplingCapability>,
}

/// The sampling capability marker.
#[derive(Debug, Clone, PartialEq, Eq, Structural)]
pub struct SamplingCapability;

impl ClientCapabilities {
    /// No capabilities advertised.
    pub fn new() -> (r: ClientCapabilities)
        ensures
            r.experimental is None,
            r.sampling is None,
    {
        ClientCapabilities { experimental: None, sampling: None }
    }

    /// The same capabilities, advertising sampling.
    pub fn with_sampling(self) -> (r: ClientCapabilities)
        ensures
            r.sampling == Some(SamplingCapability),
            r.experimental == self.experimental,
    {
        ClientCapabilities { sampling: Some(SamplingCapability), ..self }
    }

    /// The same capabilities with an experimental document.
    pub fn with_experimental(self, experimental: JsonValue) -> (r: ClientCapabilities)
        ensures
            r.experimental matches Some(e) && e@ == experimental@,
            r.sampling == self.sampling,
    {
        ClientCapabilities { experimental: Some(experimental), ..self }
    }
}

/// Whether a server's prompt list can change, and whether it says so.
#[derive(Debug, Clone, Copy, PartialEq, Eq, Structural)]
pub struct PromptsCapability {
    pub list_changed: Option<bool>,
}

impl PromptsCapability {
    /// Prompts advertised without change notification.
    pub fn new() -> (r: PromptsCapability)
        ensures
            r.list_changed is None,
    {
        PromptsCapability { list_changed: None }
    }

    /// The same capability with a change-notification promise.
    pub fn with_list_changed(self, list_changed: bool) -> (r: PromptsCapability)
        ensures
            r.list_changed == Some(list_changed),
    {
        PromptsCapability { list_changed: Some(list_changed) }
    }
}

impl Default for PromptsCapability {
    /// As `new` gives it.
    fn default() -> (r: PromptsCapability)
        ensures
            r.list_changed is None,
    {
        PromptsCapability::new()
    }
}

/// Whether a server's resources support subscriptions and change
/// notification.
#[derive(Debug, Clone, Copy, PartialEq, Eq, Structural)]
pub struct ResourcesCapability {
    pub subscribe: Option<bool>,
    pub list_changed: Option<bool>,
}

impl ResourcesCapability {
    /// Resources advertised with neither subscriptions nor change
    /// notification.
    pub fn new() -> (r: ResourcesCapability)
        ensures
            r.subscribe is None,
            r.list_changed is None,
    {
        ResourcesCapability { subscribe: None, list_changed: None }
    }

    /// The same capability with a subscription promise.
    pub fn with_subscribe(self, subscribe: bool) -> (r: ResourcesCapability)
        ensures
            r.subscribe == Some(subscribe),
            r.list_changed == self.list_changed,
    {
        ResourcesCapability { subscribe: Some(subscribe), ..self }
    }

    /// The same capability with a change-notification promise.
    pub fn with_list_changed(self, list_changed: bool) -> (r: ResourcesCapability)
        ensures
            r.subscribe == self.subscribe,
            r.list_changed == Some(list_changed),
    {
        ResourcesCapability { list_changed: Some(list_changed), ..self }
    }
}

impl Default for ResourcesCapability {
    /// As `new` gives it.
    fn default() -> (r: ResourcesCapability)
        ensures
            r.subscribe is None,
            r.list_changed is None,
    {
        ResourcesCapability::new()
    }
}

/// Whether a server's tool list can change, and whether it says so.
#[derive(Debug, Clone, Copy, PartialEq, Eq, Structural)]
pub struct ToolsCapability {
    pub list_changed: Option<bool>,
}

impl ToolsCapability {
    /// Tools advertised without change notification.
    pub fn new() -> (r: ToolsCapability)
        ensures
            r.list_changed is None,
    {
        ToolsCapability { list_changed: None }
    }

    /// The same capability with a change-notification promise.
    pub fn with_list_changed(self, list_changed: bool) -> (r: ToolsCapability)
        ensures
            r.list_changed == Some(list_changed),
    {
        ToolsCapability { list_changed: Some(list_changed) }
    }
}

impl Default for ToolsCapability {
    /// As `new` gives it.
    fn default() -> (r: ToolsCapability)
        ensures
            r.list_changed is None,
    {
        ToolsCapability::new()
    }
}

/// What a server can do: tools, resources, prompts, logging, and
/// anything experimental.
#[derive(Debug, Default)]
pub struct ServerCapabilities {
    pub experimental: Option<JsonValue>,
    pub logging: Option<JsonValue>,
    pub prompts: Option<PromptsCapability>,
    pub resources: Option<ResourcesCapability>,
    pub tools: Option<ToolsCapability>,
}

impl Clone for ServerCapabilities {
    /// The copy advertises the same capabilities; the experimental and
    /// logging documents keep their models.
    fn clone(&self) -> (r: ServerCapabilities)
        ensures
            r.tools == self.tools,
            r.resources == self.resources,
            r.prompts == self.prompts,
            r.experimental is Some <==> self.experimental is Some,
            r.logging is Some <==> self.logging is Some,
    {
        ServerCapabilities {
            experimental: match &self.experimental {
                Some(e) => Some(crate::json::json_clone(e)),
                None => None,
            },
            logging: match &self.logging {
                Some(l) => Some(crate::json::json_clone(l)),
                None => None,
            },
            prompts: self.prompts,
            resources: self.resources,
            tools: self.tools,
        }
    }
}

impl ServerCapabilities {
    /// No capabilities advertised.
    pub fn new() -> (r: ServerCapabilities)
        ensures
            r.experimental is None,
            r.logging is None,
            r.prompts is None,
            r.resources is None,
            r.tools is None,
    {
        ServerCapabilities {
            experimental: None,
            logging: None,
            prompts: None,
            resources: None,
            tools: None,
        }
    }

    /// The same capabilities, advertising tools.
    pub fn with_tools(self, tools: ToolsCapability) -> (r: ServerCapabilities)
        ensures
            r.tools == Some(tools),
            r.resources == self.resources,
            r.prompts == self.prompts,
    {
        ServerCapabilities { tools: Some(tools), ..self }
    }

    /// The same capabilities, advertising resources.
    pub fn with_resources(self, resources: ResourcesCapability) -> (r: ServerCapabilities)
        ensures
            r.resources == Some(resources),
            r.tools == self.tools,
            r.prompts == self.prompts,
    {
        ServerCapabilities { resources: Some(resources), ..self }
    }

    /// The same capabilities, advertising prompts.
    pub fn with_prompts(self, prompts: PromptsCapability) -> (r: ServerCapabilities)
        ensures
            r.prompts == Some(prompts),
            r.tools == self.tools,
            r.resources == self.resources,
    {
        ServerCapabilities { prompts: Some(prompts), ..self }
    }

    /// The same capabilities with a logging document.
    pub fn with_logging(self, logging: JsonValue) -> (r: ServerCapabilities)
        ensures
            r.logging matches Some(l) && l@ == logging@,
            r.tools == self.tools,
            r.resources == self.resources,
            r.prompts == self.prompts,
    {
        ServerCapabilities { logging: Some(logging), ..self }
    }

    /// The same capabilities with an experimental document.
    pub fn with_experimental(self, experimental: JsonValue) -> (r: ServerCapabilities)
        ensures
            r.experimental matches Some(e) && e@ == experimental@,
            r.tools == self.tools,
            r.resources == self.resources,
            r.prompts == self.prompts,
    {
        ServerCapabilities { experimental: Some(experimental), ..self }
    }

    /// True when tools are advertised.
    pub fn supports_tools(&self) -> (r: bool)
        ensures
            r == (self.tools is Some),
    {
        self.tools.is_some()
    }

    /// True when resources are advertised.
    pub fn supports_resources(&self) -> (r: bool)
        ensures
            r == (self.resources is Some),
    {
        self.resources.is_some()
    }

    /// True when prompts are advertised.
    pub fn supports_prompts(&self) -> (r: bool)
        ensures
            r == (self.prompts is Some),
    {
        self.prompts.is_some()
    }

    /// True when resources are advertised with `subscribe = true`.
    pub fn supports_resource_subscriptions(&self) -> (r: bool)
        ensures
            r == (self.resources matches Some(c) && c.subscribe == Some(true)),
    {
        match &self.resources {
            Some(c) => match c.subscribe {
                Some(b) => b,
                None => false,
            },
            None => false,
        }
    }

    /// True when tools are advertised with `list_changed = true`.
    pub fn supports_tool_list_changes(&self) -> (r: bool)
        ensures
            r == (self.tools matches Some(c) && c.list_changed == Some(true)),
    {
        match &self.tools {
            Some(c) => match c.list_changed {
                Some(b) => b,
                None => false,
            },
            None => false,
        }
    }

    /// True when resources are advertised with `list_changed = true`.
    pub fn supports_resource_list_changes(&self) -> (r: bool)
        ensures
            r == (self.resources matches Some(c) && c.list_changed == Some(true)),
    {
        match &self.resources {
            Some(c) => match c.list_changed {
                Some(b) => b,
                None => false,
            },
            None => false,
        }
    }

    /// True when prompts are advertised with `list_changed = true`.
    pub fn supports_prompt_list_changes(&self) -> (r: bool)
        ensures
            r == (self.prompts matches Some(c) && c.list_changed == Some(true)),
    {
        match &self.prompts {
            Some(c) => match c.list_changed {
                Some(b) => b,
                None => false,
            },
            None => false,
        }
    }
}

} // verus!
