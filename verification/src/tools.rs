//! The tool registry: provider storage, listing, schema validation and
//! invocation.
//!
//! Providers implement [`Tool`]; their descriptors are recorded at
//! registration, so listing is a pure function of registry state. The
//! entries stay sorted by name with no duplicate: registering a taken name
//! fails without touching the registry, and `tools/list` is sorted and
//! deterministic.

use vstd::prelude::*;

use crate::json::JsonValue;
use crate::json::str_eq;
use crate::messages::CallToolRequest;
use crate::messages::CallToolResult;
use crate::order::lemma_lex_total;
use crate::order::lemma_lex_trans;
use crate::order::lex_leq;
use crate::order::str_leq;
use crate::rpc::McpError;
use crate::types::Content;
use crate::types::ToolInputSchema;

verus! {

/// A tool provider: what it is called, how its input looks, and what a
/// call does. Implementations that perform I/O live outside this crate;
/// pure ones, like the echo tool, live here.
pub trait Tool {
    /// The unique name calls address the tool by.
    fn name(&self) -> String;

    /// A human-readable description, if the tool has one.
    fn description(&self) -> Option<String>;

    /// The schema arguments are validated against.
    fn input_schema(&self) -> ToolInputSchema;

    /// Runs the tool on the given arguments.
    fn call(&self, args: Option<JsonValue>) -> Result<CallToolResult, McpError>;
}

/// One registered tool: the descriptor recorded at registration, and the
/// provider that executes calls.
pub struct ToolEntry {
    pub descriptor: crate::types::Tool,
    pub provider: Box<dyn Tool>,
}

/// The server-side tool registry.
pub struct ToolRegistry {
    pub entries: Vec<ToolEntry>,
}

impl ToolRegistry {
    /// The registry invariant: entry names strictly increase, so they
    /// are sorted and pairwise distinct.
    pub open spec fn wf(&self) -> bool {
        forall|i: int, j: int|
            0 <= i < j < self.entries@.len() ==> lex_leq(
                (#[trigger] self.entries@[i]).descriptor.name@,
                (#[trigger] self.entries@[j]).descriptor.name@,
            ) && self.entries@[i].descriptor.name@ != self.entries@[j].descriptor.name@
    }

    /// Whether a name is taken.
    pub open spec fn spec_has_tool(&self, name: Seq<char>) -> bool {
        exists|k: int|
            0 <= k < self.entries@.len() && (#[trigger] self.entries@[k]).descriptor.name@ == name
    }

    /// An empty registry.
    pub fn new() -> (r: ToolRegistry)
        ensures
            r.wf(),
            r.entries@.len() == 0,
    {
        ToolRegistry { entries: Vec::new() }
    }

    /// Registers a provider under the name it gives. The name comes from
    /// an uncontracted trait call, so what can be said here is said of
    /// the entry that went in; `register_entry`, which this calls, ties
    /// failure to the name being taken.
    pub fn register(&mut self, provider: Box<dyn Tool>) -> (r: Result<(), McpError>)
        requires
            old(self).wf(),
        ensures
            final(self).wf(),
            match r {
                Ok(()) => exists|k: int|
                    0 <= k <= old(self).entries@.len() && final(self).entries@ == old(
                        self,
                    ).entries@.insert(k, #[trigger] final(self).entries@[k]) && !old(
                        self,
                    ).spec_has_tool(final(self).entries@[k].descriptor.name@),
                Err(e) => {
                    &&& *final(self) == *old(self)
                    &&& e@.code == crate::rpc::ErrorCode::Standard(
                        crate::rpc::StandardErrorCode::InvalidRequest,
                    )
                },
            },
    {
        let name: String = provider.name();
        let description: Option<String> = provider.description();
        let input_schema: ToolInputSchema = provider.input_schema();
        let descriptor = crate::types::Tool { name, description, input_schema };
        self.register_entry(descriptor, provider)
    }

    /// Records a tool under its descriptor's name: fails with
    /// `InvalidRequest`, leaving the registry exactly as it was, if and
    /// only if the name is already taken; otherwise the descriptor goes
    /// in at its sorted position.
    #[verifier::loop_isolation(false)]
    pub fn register_entry(&mut self, descriptor: crate::types::Tool, provider: Box<dyn Tool>) -> (r:
        Result<(), McpError>)
        requires
            old(self).wf(),
        ensures
            final(self).wf(),
            match r {
                Ok(()) => !old(self).spec_has_tool(descriptor.name@) && exists|k: int|
                    0 <= k <= old(self).entries@.len() && final(self).entries@ == old(
                        self,
                    ).entries@.insert(k, #[trigger] final(self).entries@[k])
                        && final(self).entries@[k].descriptor@ == descriptor@,
                Err(e) => {
                    &&& *final(self) == *old(self)
                    &&& old(self).spec_has_tool(descriptor.name@)
                    &&& e@.code == crate::rpc::ErrorCode::Standard(
                        crate::rpc::StandardErrorCode::InvalidRequest,
                    )
                },
            },
    {
        let name: &String = &descriptor.name;
        let mut i: usize = 0;
        while i < self.entries.len()
            invariant
                i <= self.entries@.len(),
                *self == *old(self),
                forall|k: int|
                    0 <= k < i ==> (#[trigger] self.entries@[k]).descriptor.name@ != name@,
            decreases self.entries@.len() - i,
        {
            if str_eq(self.entries[i].descriptor.name.as_str(), name.as_str()) {
                proof {
                    assert(old(self).spec_has_tool(descriptor.name@));
                }
                return Err(McpError::invalid_request("tool name is already registered"));
            }
            i = i + 1;
        }
        let mut pos: usize = 0;
        while pos < self.entries.len() && !str_leq(
            name.as_str(),
            self.entries[pos].descriptor.name.as_str(),
        )
            invariant
                pos <= self.entries@.len(),
                *self == *old(self),
                forall|k: int|
                    0 <= k < pos ==> !lex_leq(
                        name@,
                        (#[trigger] self.entries@[k]).descriptor.name@,
                    ),
            decreases self.entries@.len() - pos,
        {
            pos = pos + 1;
        }
        let entry = ToolEntry { descriptor, provider };
        let ghost newname = entry.descriptor.name@;
        let ghost oldseq = self.entries@;
        let ghost p = pos as int;
        let ghost ge = entry;
        self.entries.insert(pos, entry);
        proof {
            let newseq = self.entries@;
            oldseq.insert_ensures(p, ge);
            assert(newseq == oldseq.insert(p, ge));
            assert(newseq[p] == ge);
            assert forall|k: int| 0 <= k < p implies lex_leq(
                (#[trigger] oldseq[k]).descriptor.name@,
                newname,
            ) && oldseq[k].descriptor.name@ != newname by {
                lemma_lex_total(newname, oldseq[k].descriptor.name@);
            }
            assert forall|k: int| p <= k < oldseq.len() implies lex_leq(
                newname,
                (#[trigger] oldseq[k]).descriptor.name@,
            ) && oldseq[k].descriptor.name@ != newname by {
                if p < oldseq.len() {
                    assert(lex_leq(newname, oldseq[p].descriptor.name@));
                    if p < k {
                        assert(lex_leq(oldseq[p].descriptor.name@, oldseq[k].descriptor.name@));
                        lemma_lex_trans(newname, oldseq[p].descriptor.name@, oldseq[k].descriptor.name@);
                    }
                }
            }
            assert forall|i2: int, j2: int| 0 <= i2 < j2 < newseq.len() implies lex_leq(
                (#[trigger] newseq[i2]).descriptor.name@,
                (#[trigger] newseq[j2]).descriptor.name@,
            ) && newseq[i2].descriptor.name@ != newseq[j2].descriptor.name@ by {
                let oi: int = if i2 < p {
                    i2
                } else {
                    i2 - 1
                };
                let oj: int = if j2 < p {
                    j2
                } else {
                    j2 - 1
                };
                if i2 == p {
                    assert(newseq[j2] == oldseq[oj]);
                } else if j2 == p {
                    assert(newseq[i2] == oldseq[oi]);
                } else {
                    assert(newseq[i2] == oldseq[oi]);
                    assert(newseq[j2] == oldseq[oj]);
                }
            }
        }
        Ok(())
    }

    /// Removes the tool with this name; an unknown name fails and leaves
    /// the registry exactly as it was.
    #[verifier::loop_isolation(false)]
    pub fn unregister(&mut self, name: &str) -> (r: Result<(), McpError>)
        requires
            old(self).wf(),
        ensures
            final(self).wf(),
            match r {
                Ok(()) => exists|k: int|
                    0 <= k < old(self).entries@.len() && (#[trigger] old(
                        self,
                    ).entries@[k]).descriptor.name@ == name@ && final(self).entries@ == old(
                        self,
                    ).entries@.remove(k),
                Err(e) => *final(self) == *old(self) && !old(self).spec_has_tool(name@),
            },
    {
        let mut i: usize = 0;
        while i < self.entries.len()
            invariant
                i <= self.entries@.len(),
                *self == *old(self),
                forall|k: int|
                    0 <= k < i ==> (#[trigger] self.entries@[k]).descriptor.name@ != name@,
            decreases self.entries@.len() - i,
        {
            if str_eq(self.entries[i].descriptor.name.as_str(), name) {
                self.entries.remove(i);
                proof {
                    let oldseq = old(self).entries@;
                    oldseq.remove_ensures(i as int);
                    assert forall|i2: int, j2: int|
                        0 <= i2 < j2 < self.entries@.len() implies lex_leq(
                        (#[trigger] self.entries@[i2]).descriptor.name@,
                        (#[trigger] self.entries@[j2]).descriptor.name@,
                    ) && self.entries@[i2].descriptor.name@ != self.entries@[j2].descriptor.name@ by {
                        let oi: int = if i2 < i as int {
                            i2
                        } else {
                            i2 + 1
                        };
                        let oj: int = if j2 < i as int {
                            j2
                        } else {
                            j2 + 1
                        };
                        assert(self.entries@[i2] == oldseq[oi]);
                        assert(self.entries@[j2] == oldseq[oj]);
                    }
                }
                return Ok(());
            }
            i = i + 1;
        }
        Err(McpError::invalid_request("tool is not registered"))
    }

    /// The registered descriptors, in name order: a pure function of the
    /// registry state, sorted by name.
    #[verifier::loop_isolation(false)]
    pub fn list_tools(&self) -> (r: Vec<crate::types::Tool>)
        requires
            self.wf(),
        ensures
            r@.len() == self.entries@.len(),
            forall|k: int|
                0 <= k < r@.len() ==> (#[trigger] r@[k]).name@ == self.entries@[k].descriptor.name@
                    && r@[k]@ == self.entries@[k].descriptor@,
            forall|i: int, j: int|
                0 <= i < j < r@.len() ==> lex_leq(
                    (#[trigger] r@[i]).name@,
                    (#[trigger] r@[j]).name@,
                ),
    {
        let mut out: Vec<crate::types::Tool> = Vec::new();
        let mut i: usize = 0;
        while i < self.entries.len()
            invariant
                i <= self.entries@.len(),
                out@.len() == i,
                forall|k: int|
                    0 <= k < i ==> (#[trigger] out@[k]).name@ == self.entries@[k].descriptor.name@
                        && out@[k]@ == self.entries@[k].descriptor@,
            decreases self.entries@.len() - i,
        {
            out.push(self.entries[i].descriptor.clone());
            i = i + 1;
        }
        out
    }

    /// The names of the registered tools, in name order.
    #[verifier::loop_isolation(false)]
    pub fn tool_names(&self) -> (r: Vec<String>)
        ensures
            r@.len() == self.entries@.len(),
            forall|k: int|
                0 <= k < r@.len() ==> (#[trigger] r@[k])@ == self.entries@[k].descriptor.name@,
    {
        let mut out: Vec<String> = Vec::new();
        let mut i: usize = 0;
        while i < self.entries.len()
            invariant
                i <= self.entries@.len(),
                out@.len() == i,
                forall|k: int|
                    0 <= k < i ==> (#[trigger] out@[k])@ == self.entries@[k].descriptor.name@,
            decreases self.entries@.len() - i,
        {
            out.push(self.entries[i].descriptor.name.clone());
            i = i + 1;
        }
        out
    }

    /// How many tools are registered.
    pub fn len(&self) -> (r: usize)
        ensures
            r == self.entries@.len(),
    {
        self.entries.len()
    }

    /// True when nothing is registered.
    pub fn is_empty(&self) -> (r: bool)
        ensures
            r == (self.entries@.len() == 0),
    {
        self.entries.len() == 0
    }

    /// The descriptor of the tool with this name, if registered.
    #[verifier::loop_isolation(false)]
    pub fn get_tool(&self, name: &str) -> (r: Option<&crate::types::Tool>)
        ensures
            match r {
                Some(t) => self.spec_has_tool(name@) && t.name@ == name@,
                None => !self.spec_has_tool(name@),
            },
    {
        let mut i: usize = 0;
        while i < self.entries.len()
            invariant
                i <= self.entries@.len(),
                forall|k: int|
                    0 <= k < i ==> (#[trigger] self.entries@[k]).descriptor.name@ != name@,
            decreases self.entries@.len() - i,
        {
            if str_eq(self.entries[i].descriptor.name.as_str(), name) {
                return Some(&self.entries[i].descriptor);
            }
            i = i + 1;
        }
        None
    }

    /// Calls a tool. An unknown name fails with `ToolNotFound`; declared
    /// arguments against an unusable schema fail with `InternalError`,
    /// against a usable schema they fail with `InvalidParams` exactly
    /// when the validator rejects them; past validation the call always
    /// produces a result — a provider failure is surfaced inside it with
    /// `is_error` set, not as a protocol error.
    #[verifier::loop_isolation(false)]
    pub fn call_tool(&self, request: CallToolRequest) -> (r: Result<CallToolResult, McpError>)
        ensures
            match r {
                Ok(_) => self.spec_has_tool(request.name@) && (request.arguments matches Some(a)
                    ==> exists|k: int|
                    0 <= k < self.entries@.len() && (#[trigger] self.entries@[k]).descriptor.name@
                        == request.name@ && schema_usable(self.spec_schema_text(k))
                        && schema_accepts(
                        self.spec_schema_text(k),
                        crate::json::spec_print(a@),
                    )),
                Err(e) => {
                    ||| (e@.code == crate::rpc::ErrorCode::Standard(
                        crate::rpc::StandardErrorCode::ToolNotFound,
                    ) && !self.spec_has_tool(request.name@))
                    ||| (request.arguments matches Some(a) && exists|k: int|
                        0 <= k < self.entries@.len() && (
                        #[trigger] self.entries@[k]).descriptor.name@ == request.name@ && !(
                        schema_usable(self.spec_schema_text(k)) && schema_accepts(
                            self.spec_schema_text(k),
                            crate::json::spec_print(a@),
                        )) && e@.code == (if schema_usable(self.spec_schema_text(k)) {
                            crate::rpc::ErrorCode::Standard(
                                crate::rpc::StandardErrorCode::InvalidParams,
                            )
                        } else {
                            crate::rpc::ErrorCode::Standard(
                                crate::rpc::StandardErrorCode::InternalError,
                            )
                        }))
                },
            },
    {
        let mut i: usize = 0;
        while i < self.entries.len()
            invariant
                i <= self.entries@.len(),
                forall|k: int|
                    0 <= k < i ==> (#[trigger] self.entries@[k]).descriptor.name@ != request.name@,
            decreases self.entries@.len() - i,
        {
            if str_eq(self.entries[i].descriptor.name.as_str(), request.name.as_str()) {
                match &request.arguments {
                    Some(args) => {
                        match validate_against_schema(&self.entries[i].descriptor.input_schema, args) {
                            Ok(()) => {},
                            Err(e) => {
                                proof {
                                    assert((#[trigger] self.entries@[i as int]).descriptor.name@
                                        == request.name@);
                                }
                                return Err(e);
                            },
                        }
                    },
                    None => {},
                }
                proof {
                    assert((#[trigger] self.entries@[i as int]).descriptor.name@
                        == request.name@);
                }
                match self.entries[i].provider.call(request.arguments) {
                    Ok(result) => {
                        return Ok(result);
                    },
                    Err(e) => {
                        let mut content: Vec<Content> = Vec::new();
                        content.push(Content::Text { text: e.message });
                        return Ok(CallToolResult::error(content));
                    },
                }
            }
            i = i + 1;
        }
        Err(McpError::tool_not_found("tool not found"))
    }

    /// Whether the registry admits these arguments for this tool: with
    /// no arguments there is nothing to check, and with arguments some
    /// entry of that name has a usable schema that accepts their text.
    pub open spec fn spec_admits(&self, name: Seq<char>, args: Option<crate::json::Json>) -> bool {
        match args {
            Some(a) => exists|k: int|
                0 <= k < self.entries@.len() && (#[trigger] self.entries@[k]).descriptor.name@
                    == name && schema_usable(self.spec_schema_text(k)) && schema_accepts(
                    self.spec_schema_text(k),
                    crate::json::spec_print(a),
                ),
            None => true,
        }
    }

    /// Checks a call without running it: the tool must exist and its
    /// schema must accept the arguments, classified exactly as
    /// `call_tool` classifies them.
    #[verifier::loop_isolation(false)]
    pub fn validate_request(&self, request: &CallToolRequest) -> (r: Result<(), McpError>)
        ensures
            match r {
                Ok(()) => self.spec_has_tool(request.name@) && (request.arguments matches Some(a)
                    ==> exists|k: int|
                    0 <= k < self.entries@.len() && (#[trigger] self.entries@[k]).descriptor.name@
                        == request.name@ && schema_usable(self.spec_schema_text(k))
                        && schema_accepts(
                        self.spec_schema_text(k),
                        crate::json::spec_print(a@),
                    )),
                Err(e) => {
                    ||| (e@.code == crate::rpc::ErrorCode::Standard(
                        crate::rpc::StandardErrorCode::ToolNotFound,
                    ) && !self.spec_has_tool(request.name@))
                    ||| (request.arguments matches Some(a) && exists|k: int|
                        0 <= k < self.entries@.len() && (
                        #[trigger] self.entries@[k]).descriptor.name@ == request.name@ && !(
                        schema_usable(self.spec_schema_text(k)) && schema_accepts(
                            self.spec_schema_text(k),
                            crate::json::spec_print(a@),
                        )) && e@.code == (if schema_usable(self.spec_schema_text(k)) {
                            crate::rpc::ErrorCode::Standard(
                                crate::rpc::StandardErrorCode::InvalidParams,
                            )
                        } else {
                            crate::rpc::ErrorCode::Standard(
                                crate::rpc::StandardErrorCode::InternalError,
                            )
                        }))
                },
            },
    {
        let mut i: usize = 0;
        while i < self.entries.len()
            invariant
                i <= self.entries@.len(),
                forall|k: int|
                    0 <= k < i ==> (#[trigger] self.entries@[k]).descriptor.name@ != request.name@,
            decreases self.entries@.len() - i,
        {
            if str_eq(self.entries[i].descriptor.name.as_str(), request.name.as_str()) {
                match &request.arguments {
                    Some(args) => {
                        match validate_against_schema(&self.entries[i].descriptor.input_schema, args) {
                            Ok(()) => {},
                            Err(e) => {
                                proof {
                                    assert((#[trigger] self.entries@[i as int]).descriptor.name@
                                        == request.name@);
                                }
                                return Err(e);
                            },
                        }
                    },
                    None => {},
                }
                proof {
                    assert((#[trigger] self.entries@[i as int]).descriptor.name@
                        == request.name@);
                }
                return Ok(());
            }
            i = i + 1;
        }
        Err(McpError::tool_not_found("tool not found"))
    }

    /// The canonical text of the schema stored at one entry.
    pub open spec fn spec_schema_text(&self, k: int) -> Seq<char> {
        crate::json::spec_print(
            crate::types::spec_schema_json(self.entries@[k].descriptor.input_schema@),
        )
    }
}

impl Default for ToolRegistry {
    /// An empty registry, as `new` gives it.
    fn default() -> (r: ToolRegistry)
        ensures
            r.wf(),
            r.entries@.len() == 0,
    {
        ToolRegistry::new()
    }
}

/// What the validator said of a schema and an instance, as text.
pub uninterp spec fn schema_accepts(schema: Seq<char>, instance: Seq<char>) -> bool;

/// Whether the validator can use a schema text at all: it parses as JSON
/// and compiles to a validator.
pub uninterp spec fn schema_usable(schema: Seq<char>) -> bool;

/// How schema validation can fail: the instance does not match, or the
/// schema itself cannot be used.
pub enum SchemaFailure {
    Invalid(String),
    Unusable(String),
}

/// Relies on jsonschema's validator_for and Validator::validate, and on
/// serde_json's from_str: usable exactly when the schema text parses and
/// compiles, accepted exactly when the instance text satisfies it. Both
/// verdicts are functions of the texts alone; an instance text that is
/// not JSON is never accepted.
#[verifier::external_body]
fn check_schema(schema_text: &str, instance_text: &str) -> (r: Result<(), SchemaFailure>)
    ensures
        r is Ok <==> (schema_usable(schema_text@) && schema_accepts(schema_text@, instance_text@)),
        r is Err && !schema_usable(schema_text@) ==> r->Err_0 is Unusable,
        r is Err && schema_usable(schema_text@) ==> r->Err_0 is Invalid,
{
    let schema: serde_json::Value = serde_json::from_str(schema_text).map_err(
        |e| SchemaFailure::Unusable(e.to_string()),
    )?;
    let validator = jsonschema::validator_for(&schema).map_err(
        |e| SchemaFailure::Unusable(e.to_string()),
    )?;
    let instance: serde_json::Value = serde_json::from_str(instance_text).map_err(
        |e| SchemaFailure::Invalid(e.to_string()),
    )?;
    validator.validate(&instance).map_err(|e| SchemaFailure::Invalid(e.to_string()))
}

/// Validates arguments against a declared schema: both are printed as
/// canonical JSON text and judged by the validator. A mismatch is
/// `InvalidParams` with the validator's reason; a schema the validator
/// cannot use is `InternalError`.
pub fn validate_against_schema(schema: &ToolInputSchema, args: &JsonValue) -> (r: Result<
    (),
    McpError,
>)
    ensures
        r is Ok <==> schema_usable(crate::json::spec_print(crate::types::spec_schema_json(schema@)))
            && schema_accepts(
            crate::json::spec_print(crate::types::spec_schema_json(schema@)),
            crate::json::spec_print(args@),
        ),
        r is Err && schema_usable(
            crate::json::spec_print(crate::types::spec_schema_json(schema@)),
        ) ==> r->Err_0@.code == crate::rpc::ErrorCode::Standard(
            crate::rpc::StandardErrorCode::InvalidParams,
        ),
        r is Err && !schema_usable(
            crate::json::spec_print(crate::types::spec_schema_json(schema@)),
        ) ==> r->Err_0@.code == crate::rpc::ErrorCode::Standard(
            crate::rpc::StandardErrorCode::InternalError,
        ),
{
    let schema_doc = schema.to_json();
    let schema_text = crate::json::to_text(&schema_doc);
    let args_text = crate::json::to_text(args);
    match check_schema(schema_text.as_str(), args_text.as_str()) {
        Ok(()) => Ok(()),
        Err(SchemaFailure::Invalid(reason)) => {
            let mut message = String::new();
            message.append("Input validation failed: ");
            message.append(reason.as_str());
            Err(McpError::invalid_params(message.as_str()))
        },
        Err(SchemaFailure::Unusable(reason)) => Err(McpError::internal_error(reason.as_str())),
    }
}

/// The reply the echo tool gives: the `message` argument when it is a
/// string, a fixed notice otherwise.
pub fn echo_reply(args: Option<JsonValue>) -> (r: CallToolResult)
    ensures
        r.is_error is None,
        r.meta is None,
        r.content@.len() == 1,
        r.content@[0] matches Content::Text { text } && (match args {
            Some(a) => match crate::json::spec_get(a@, crate::messages::key_message_arg()) {
                Some(crate::json::Json::Str(m)) => text@ == m,
                _ => text@ == "No message provided"@,
            },
            None => text@ == "No message provided"@,
        }),
{
    proof {
        reveal_strlit("message");
        assert("message"@ =~= crate::messages::key_message_arg());
    }
    let message: String = match &args {
        Some(a) => match a.get("message") {
            Some(m) => match m.as_str() {
                Some(s) => s.clone(),
                None => default_echo_message(),
            },
            None => default_echo_message(),
        },
        None => default_echo_message(),
    };
    let mut content: Vec<Content> = Vec::new();
    content.push(Content::Text { text: message });
    CallToolResult::success(content)
}

/// The notice the echo tool gives when no message was provided.
fn default_echo_message() -> (r: String)
    ensures
        r@ == "No message provided"@,
{
    "No message provided".to_owned()
}

/// The built-in echo tool: replies with the `message` argument.
pub struct EchoTool;

impl Tool for EchoTool {
    fn name(&self) -> String {
        "echo".to_owned()
    }

    fn description(&self) -> Option<String> {
        Some("Echo back the input message".to_owned())
    }

    fn input_schema(&self) -> ToolInputSchema {
        let mut properties: Vec<(String, JsonValue)> = Vec::new();
        let mut prop: Vec<(String, JsonValue)> = Vec::new();
        prop.push(("type".to_owned(), JsonValue::text("string")));
        prop.push(("description".to_owned(), JsonValue::text("The message to echo back")));
        properties.push(("message".to_owned(), JsonValue::Obj(prop)));
        let mut required: Vec<String> = Vec::new();
        required.push("message".to_owned());
        ToolInputSchema::object().with_properties(properties).with_required(required)
    }

    fn call(&self, args: Option<JsonValue>) -> Result<CallToolResult, McpError> {
        Ok(echo_reply(args))
    }
}

} // verus!
