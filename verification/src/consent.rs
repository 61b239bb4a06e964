//! Persisted policy configuration and the consent guard.
//!
//! The configuration is what the optional TOML policy file holds: the
//! consent mode, per-tool policies, scope definitions and audit
//! settings. The guard decides, per tool call, whether the session's
//! standing approval covers the call or the user must be asked; asking
//! is the caller's work, and a granted answer is recorded with
//! `record_approval` so the once-per-session mode never asks twice.

use vstd::prelude::*;

use crate::json::JsonValue;
use crate::json::json_clone;
use crate::json::str_eq;

verus! {

/// How the interceptor asks the user.
#[derive(Debug, Clone, Copy, PartialEq, Eq, Structural)]
pub enum ConsentMode {
    /// Ask on every call.
    Always,
    /// Ask once per session.
    Once,
    /// Never ask.
    Never,
    /// Ask as each tool's policy says.
    PerTool,
}

/// One tool's policy: whether consent is needed, its scopes, and an
/// optional rate limit.
#[derive(Debug, Clone)]
pub struct ToolPolicy {
    pub consent_required: bool,
    pub scopes: Vec<String>,
    pub rate_limit: Option<RateLimit>,
}

/// A rate limit: so many calls per so many seconds.
#[derive(Debug, Clone, Copy, PartialEq, Eq, Structural)]
pub struct RateLimit {
    pub max_calls: u32,
    pub per_seconds: u32,
}

/// One scope definition: a named permission class.
#[derive(Debug, Clone)]
pub struct ScopeConfig {
    pub name: String,
    pub description: String,
    pub permissions: Vec<String>,
}

/// Audit settings: whether to log, where, and how much.
#[derive(Debug, Clone)]
pub struct AuditConfig {
    pub enabled: bool,
    pub log_file: Option<String>,
    pub include_args: bool,
    pub include_results: bool,
}

/// The persisted policy: consent mode, per-tool policies, scopes and
/// audit settings.
#[derive(Debug)]
pub struct PolicyConfig {
    pub consent_mode: ConsentMode,
    pub tool_policies: Vec<(String, ToolPolicy)>,
    pub scopes: Vec<(String, ScopeConfig)>,
    pub audit: AuditConfig,
}

impl PolicyConfig {
    /// The built-in defaults: per-tool consent, the three filesystem
    /// and shell scopes, and auditing on with arguments logged and
    /// results not.
    pub fn new_default() -> (r: PolicyConfig)
        ensures
            r.consent_mode == ConsentMode::PerTool,
            r.tool_policies@.len() == 0,
            r.scopes@.len() == 3,
            r.scopes@[0].0@ == "fs.read"@,
            r.scopes@[1].0@ == "fs.write"@,
            r.scopes@[2].0@ == "shell.execute"@,
            r.audit.enabled,
            r.audit.include_args,
            !r.audit.include_results,
            r.audit.log_file is None,
    {
        let mut scopes: Vec<(String, ScopeConfig)> = Vec::new();
        scopes.push(
            (
                "fs.read".to_owned(),
                ScopeConfig {
                    name: "fs.read".to_owned(),
                    description: "Read files from filesystem".to_owned(),
                    permissions: one_permission("read"),
                },
            ),
        );
        scopes.push(
            (
                "fs.write".to_owned(),
                ScopeConfig {
                    name: "fs.write".to_owned(),
                    description: "Write files to filesystem".to_owned(),
                    permissions: one_permission("write"),
                },
            ),
        );
        scopes.push(
            (
                "shell.execute".to_owned(),
                ScopeConfig {
                    name: "shell.execute".to_owned(),
                    description: "Execute shell commands".to_owned(),
                    permissions: one_permission("execute"),
                },
            ),
        );
        PolicyConfig {
            consent_mode: ConsentMode::PerTool,
            tool_policies: Vec::new(),
            scopes,
            audit: AuditConfig {
                enabled: true,
                log_file: None,
                include_args: true,
                include_results: false,
            },
        }
    }

    /// Whether a scope of this name is defined.
    #[verifier::loop_isolation(false)]
    pub fn has_scope(&self, name: &str) -> (r: bool)
        ensures
            r == exists|k: int|
                0 <= k < self.scopes@.len() && (#[trigger] self.scopes@[k]).0@ == name@,
    {
        let mut i: usize = 0;
        while i < self.scopes.len()
            invariant
                i <= self.scopes@.len(),
                forall|k: int| 0 <= k < i ==> (#[trigger] self.scopes@[k]).0@ != name@,
            decreases self.scopes@.len() - i,
        {
            if str_eq(self.scopes[i].0.as_str(), name) {
                return true;
            }
            i = i + 1;
        }
        false
    }

    /// The policy of a tool, if the configuration has one: the first
    /// binding of its name.
    #[verifier::loop_isolation(false)]
    pub fn tool_policy(&self, tool: &str) -> (r: Option<&ToolPolicy>)
        ensures
            match r {
                Some(tp) => spec_tool_policy(self.tool_policies@, tool@) == Some(*tp),
                None => spec_tool_policy(self.tool_policies@, tool@) is None,
            },
    {
        proof {
            assert(self.tool_policies@.skip(0) =~= self.tool_policies@);
        }
        let mut i: usize = 0;
        while i < self.tool_policies.len()
            invariant
                i <= self.tool_policies@.len(),
                spec_tool_policy(self.tool_policies@, tool@) == spec_tool_policy(
                    self.tool_policies@.skip(i as int),
                    tool@,
                ),
            decreases self.tool_policies@.len() - i,
        {
            proof {
                assert(self.tool_policies@.skip(i as int)[0] == self.tool_policies@[i as int]);
                assert(self.tool_policies@.skip(i as int).drop_first()
                    =~= self.tool_policies@.skip(i + 1));
            }
            if str_eq(self.tool_policies[i].0.as_str(), tool) {
                return Some(&self.tool_policies[i].1);
            }
            i = i + 1;
        }
        proof {
            assert(spec_tool_policy(self.tool_policies@.skip(self.tool_policies@.len() as int), tool@) is None);
        }
        None
    }
}

impl Default for PolicyConfig {
    /// The built-in defaults, as `new_default` gives them.
    fn default() -> (r: PolicyConfig)
        ensures
            r.consent_mode == ConsentMode::PerTool,
            r.scopes@.len() == 3,
    {
        PolicyConfig::new_default()
    }
}

/// A single permission name.
fn one_permission(name: &str) -> (r: Vec<String>)
    ensures
        r@.len() == 1,
        r@[0]@ == name@,
{
    let mut out: Vec<String> = Vec::new();
    out.push(name.to_owned());
    out
}

/// What the consent gate says about one call.
#[derive(Debug, Clone, Copy, PartialEq, Eq, Structural)]
pub enum ConsentDecision {
    /// Standing approval covers the call.
    Granted,
    /// The user must be asked.
    AskUser,
}

/// The consent guard: the policy configuration and the tools this
/// session has approved.
#[derive(Debug)]
pub struct ConsentGuard {
    pub policy: PolicyConfig,
    pub approved_tools: Vec<String>,
}

impl ConsentGuard {
    /// A guard over a configuration, with nothing approved yet.
    pub fn new(policy: PolicyConfig) -> (r: ConsentGuard)
        ensures
            r.approved_tools@.len() == 0,
            r.policy == policy,
    {
        ConsentGuard { policy, approved_tools: Vec::new() }
    }

    /// True when this session has already approved the tool.
    #[verifier::loop_isolation(false)]
    pub fn is_approved(&self, tool: &str) -> (r: bool)
        ensures
            r == exists|k: int|
                0 <= k < self.approved_tools@.len() && (#[trigger] self.approved_tools@[k])@
                    == tool@,
    {
        let mut i: usize = 0;
        while i < self.approved_tools.len()
            invariant
                i <= self.approved_tools@.len(),
                forall|k: int| 0 <= k < i ==> (#[trigger] self.approved_tools@[k])@ != tool@,
            decreases self.approved_tools@.len() - i,
        {
            if str_eq(self.approved_tools[i].as_str(), tool) {
                return true;
            }
            i = i + 1;
        }
        false
    }

    /// The decision for a tool: the always-ask mode always asks, the
    /// never-ask mode always grants, and the other modes grant on a
    /// standing approval — otherwise the once mode asks and the per-tool
    /// mode asks exactly when the tool's policy requires consent.
    pub fn decide(&self, tool: &str) -> (r: ConsentDecision)
        ensures
            r == spec_consent_decision(self, tool@),
    {
        match self.policy.consent_mode {
            ConsentMode::Always => ConsentDecision::AskUser,
            ConsentMode::Never => ConsentDecision::Granted,
            ConsentMode::Once => {
                if self.is_approved(tool) {
                    ConsentDecision::Granted
                } else {
                    ConsentDecision::AskUser
                }
            },
            ConsentMode::PerTool => {
                if self.is_approved(tool) {
                    return ConsentDecision::Granted;
                }
                match self.policy.tool_policy(tool) {
                    Some(tp) => if tp.consent_required {
                        ConsentDecision::AskUser
                    } else {
                        ConsentDecision::Granted
                    },
                    None => ConsentDecision::Granted,
                }
            },
        }
    }

    /// Gates one call: admits it exactly when the decision is a grant,
    /// and otherwise hands back the need to ask, touching nothing — the
    /// caller prompts the user and records a granted answer with
    /// `record_approval`.
    pub fn require(&mut self, tool: &str, scope: &str) -> (r: Result<(), String>)
        ensures
            *final(self) == *old(self),
            r is Ok <==> spec_consent_decision(old(self), tool@) == ConsentDecision::Granted,
            r matches Err(m) ==> m@ == "consent required for this tool"@,
    {
        let _ = scope;
        let decision = self.decide(tool);
        match decision {
            ConsentDecision::Granted => Ok(()),
            ConsentDecision::AskUser => Err("consent required for this tool".to_owned()),
        }
    }

    /// Records the user's granted answer for a tool; recording a tool
    /// already covered changes nothing.
    #[verifier::loop_isolation(false)]
    pub fn record_approval(&mut self, tool: &str)
        ensures
            spec_approved(final(self).approved_tools@, tool@),
            forall|k: int|
                0 <= k < old(self).approved_tools@.len() ==> final(self).approved_tools@[k] == old(
                    self,
                ).approved_tools@[k],
            final(self).policy == old(self).policy,
    {
        let already = self.is_approved(tool);
        if !already {
            self.approved_tools.push(tool.to_owned());
            proof {
                assert(self.approved_tools@.last()@ == tool@);
            }
        }
    }
}

/// Whether an approval list holds a tool.
pub open spec fn spec_approved(approved: Seq<String>, tool: Seq<char>) -> bool {
    exists|k: int| 0 <= k < approved.len() && (#[trigger] approved[k])@ == tool
}

/// Which tool policy a configuration binds to a name, first binding
/// winning.
pub open spec fn spec_tool_policy(
    policies: Seq<(String, ToolPolicy)>,
    tool: Seq<char>,
) -> Option<ToolPolicy>
    decreases policies.len(),
{
    if policies.len() == 0 {
        None
    } else if policies[0].0@ == tool {
        Some(policies[0].1)
    } else {
        spec_tool_policy(policies.drop_first(), tool)
    }
}

/// What the consent gate decides for a tool: the always-ask mode always
/// asks, the never-ask mode always grants, and the other modes grant on
/// a standing approval — otherwise the once mode asks and the per-tool
/// mode asks exactly when the tool's policy requires consent.
pub open spec fn spec_consent_decision(g: &ConsentGuard, tool: Seq<char>) -> ConsentDecision {
    match g.policy.consent_mode {
        ConsentMode::Always => ConsentDecision::AskUser,
        ConsentMode::Never => ConsentDecision::Granted,
        ConsentMode::Once => if spec_approved(g.approved_tools@, tool) {
            ConsentDecision::Granted
        } else {
            ConsentDecision::AskUser
        },
        ConsentMode::PerTool => if spec_approved(g.approved_tools@, tool) {
            ConsentDecision::Granted
        } else {
            match spec_tool_policy(g.policy.tool_policies@, tool) {
                Some(tp) => if tp.consent_required {
                    ConsentDecision::AskUser
                } else {
                    ConsentDecision::Granted
                },
                None => ConsentDecision::Granted,
            }
        },
    }
}

/// One audit record as a JSON document: the timestamp text, the event
/// kind, the tool, and the arguments when they are to be included.
pub fn build_audit_entry(
    timestamp: &str,
    event: &str,
    tool: &str,
    args: Option<&JsonValue>,
    include_args: bool,
) -> (r: JsonValue)
    ensures
        r@ is Obj,
{
    let mut entries: Vec<(String, JsonValue)> = Vec::new();
    entries.push(("timestamp".to_owned(), JsonValue::text(timestamp)));
    entries.push(("event".to_owned(), JsonValue::text(event)));
    entries.push(("tool".to_owned(), JsonValue::text(tool)));
    if include_args {
        match args {
            Some(a) => {
                entries.push(("args".to_owned(), json_clone(a)));
            },
            None => {
                entries.push(("args".to_owned(), JsonValue::Null));
            },
        }
    }
    JsonValue::Obj(entries)
}

/// The policy gate handed to tools: permission checks succeed in this
/// core, which enforces policy ahead of the call instead.
#[derive(Debug, Clone, PartialEq, Eq, Structural)]
pub struct PolicyGuard;

impl PolicyGuard {
    /// A gate that admits what the interceptor already admitted.
    pub fn new() -> (r: PolicyGuard)
    {
        PolicyGuard
    }

    /// Asserts a permission: always granted here, since the policy
    /// engine gates calls before they reach a tool.
    pub fn require(&self, permission: &str) -> (r: Result<(), String>)
        ensures
            r is Ok,
    {
        let _ = permission;
        Ok(())
    }
}

/// What a tool call carries besides its arguments: the policy gate and
/// the request id it runs under.
#[derive(Debug)]
pub struct ToolCtx {
    pub guard: PolicyGuard,
    pub request_id: Option<String>,
}

} // verus!
