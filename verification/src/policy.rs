//! The policy interceptor: consent gates, audit trail and permission
//! rules.
//!
//! A policy is an ordered rule list. Evaluation takes the first matching
//! rule with a terminal action — allow, deny, or require consent — while
//! audit actions only have side effects and evaluation continues past
//! them. When no rule decides, the call is allowed. A consent requirement
//! that no standing approval covers is surfaced to the caller, who must
//! obtain the user's answer and record it with `grant_consent`; the
//! engine never grants on its own. What a policy decides is
//! `spec_decide`: a function of the rules, the tool, and the set of
//! approvals already granted this session, and of nothing else, so equal
//! inputs always decide alike.

use vstd::prelude::*;

use crate::json::str_eq;

verus! {

/// A policy: ordered rules and the audit configuration.
#[derive(Debug)]
pub struct Policy {
    pub rules: Vec<PolicyRule>,
    pub audit: AuditPolicy,
}

/// One rule: a condition and the action taken when it matches.
#[derive(Debug)]
pub struct PolicyRule {
    pub name: String,
    pub description: Option<String>,
    pub condition: PolicyCondition,
    pub action: PolicyAction,
}

/// When a rule applies.
#[derive(Debug)]
pub enum PolicyCondition {
    ToolName { matches: String },
    Scope { required: Vec<String> },
    RateLimit { max_per_second: u32 },
    Always,
}

/// What a matching rule does.
#[derive(Debug)]
pub enum PolicyAction {
    Allow,
    Deny { reason: String },
    RequireConsent { message: String },
    Audit { level: AuditLevel },
}

/// How loud an audit entry is.
#[derive(Debug, Clone, Copy, PartialEq, Eq, Structural)]
pub enum AuditLevel {
    Debug,
    Info,
    Warn,
    Error,
}

/// Whether auditing is on and what it records.
#[derive(Debug, Clone, PartialEq, Eq, Structural)]
pub struct AuditPolicy {
    pub enabled: bool,
    pub log_requests: bool,
    pub log_responses: bool,
    pub redact_secrets: bool,
}

impl AuditPolicy {
    /// Auditing on: requests logged, responses not, secrets redacted.
    pub fn new() -> (r: AuditPolicy)
        ensures
            r == (AuditPolicy {
                enabled: true,
                log_requests: true,
                log_responses: false,
                redact_secrets: true,
            }),
    {
        AuditPolicy { enabled: true, log_requests: true, log_responses: false, redact_secrets: true }
    }
}

impl Default for AuditPolicy {
    /// As `new` gives it.
    fn default() -> (r: AuditPolicy)
        ensures
            r == (AuditPolicy {
                enabled: true,
                log_requests: true,
                log_responses: false,
                redact_secrets: true,
            }),
    {
        AuditPolicy::new()
    }
}

/// One audit record: when, what tool, in what scope, how loud, and
/// whether the call was approved.
#[derive(Debug, Clone)]
pub struct AuditEntry {
    pub timestamp: u64,
    pub tool: String,
    pub scope: String,
    pub level: AuditLevel,
    pub approved: bool,
}

/// Whether a condition applies to a tool. Scope and rate conditions
/// match every call here; their enforcement lives with the rate limiter.
pub open spec fn spec_condition_matches(c: &PolicyCondition, tool: Seq<char>) -> bool {
    match c {
        PolicyCondition::ToolName { matches: expected } => expected@ == tool,
        PolicyCondition::Scope { required: _ } => true,
        PolicyCondition::RateLimit { max_per_second: _ } => true,
        PolicyCondition::Always => true,
    }
}

/// What the engine answers for one call.
#[derive(Debug)]
pub enum PolicyVerdict {
    /// The call proceeds.
    Allowed,
    /// The call is refused, with the rule's reason.
    Denied(String),
    /// The user's consent is needed, with the rule's message; nothing
    /// proceeds until `grant_consent` records the answer.
    ConsentNeeded(String),
}

/// What evaluating a policy decides.
pub ghost enum PolicyDecision {
    /// The call proceeds.
    Allowed,
    /// The call is refused, with the rule's reason.
    Denied(Seq<char>),
    /// The call needs the user's consent, with the rule's message.
    NeedsConsent(Seq<char>),
}

/// The decision a rule list makes for a tool, given which tools the
/// session has already approved: the first matching terminal rule wins,
/// audit rules are passed over, and no matching rule means allow.
/// Identical inputs always give the identical decision.
pub open spec fn spec_decide(
    rules: Seq<PolicyRule>,
    tool: Seq<char>,
    approved: Seq<Seq<char>>,
) -> PolicyDecision
    decreases rules.len(),
{
    if rules.len() == 0 {
        PolicyDecision::Allowed
    } else if spec_condition_matches(&rules[0].condition, tool) {
        match rules[0].action {
            PolicyAction::Allow => PolicyDecision::Allowed,
            PolicyAction::Deny { reason } => PolicyDecision::Denied(reason@),
            PolicyAction::RequireConsent { message } => if approved.contains(tool) {
                PolicyDecision::Allowed
            } else {
                PolicyDecision::NeedsConsent(message@)
            },
            PolicyAction::Audit { level: _ } => spec_decide(rules.drop_first(), tool, approved),
        }
    } else {
        spec_decide(rules.drop_first(), tool, approved)
    }
}

/// The levels of the audit entries one evaluation appends: walking the
/// rules to the first matching terminal rule, each matching audit rule
/// contributes one entry carrying its level, in rule order.
pub open spec fn spec_audit_levels(rules: Seq<PolicyRule>, tool: Seq<char>) -> Seq<AuditLevel>
    decreases rules.len(),
{
    if rules.len() == 0 {
        Seq::empty()
    } else if spec_condition_matches(&rules[0].condition, tool) {
        match rules[0].action {
            PolicyAction::Audit { level } => seq![level].add(
                spec_audit_levels(rules.drop_first(), tool),
            ),
            _ => Seq::empty(),
        }
    } else {
        spec_audit_levels(rules.drop_first(), tool)
    }
}

/// The policy engine: the policy, the tools this session has approved,
/// and the audit trail, which only ever grows.
#[derive(Debug)]
pub struct PolicyEngine {
    pub policy: Policy,
    pub approved_operations: Vec<String>,
    pub audit_trail: Vec<AuditEntry>,
}

/// The approved tool names, as character sequences.
pub open spec fn approved_views(approved: Seq<String>) -> Seq<Seq<char>> {
    Seq::new(approved.len(), |i: int| approved[i]@)
}

impl PolicyEngine {
    /// An engine with this policy, no approvals and an empty trail.
    pub fn new(policy: Policy) -> (r: PolicyEngine)
        ensures
            r.approved_operations@.len() == 0,
            r.audit_trail@.len() == 0,
            r.policy == policy,
    {
        PolicyEngine { policy, approved_operations: Vec::new(), audit_trail: Vec::new() }
    }

    /// Evaluates the policy for one tool call at `now_ms`. The verdict
    /// is exactly what `spec_decide` says of the rules, the tool and the
    /// session's approvals: a denial hands back the rule's reason, and a
    /// consent requirement that no standing approval covers is surfaced
    /// with the rule's message — never granted here. Audit rules that
    /// match on the way append entries for this tool, scope and time to
    /// the trail, which existing entries never leave; the approvals are
    /// untouched.
    #[verifier::loop_isolation(false)]
    pub fn check_permission(&mut self, tool_name: &str, scope: &str, now_ms: u64) -> (r:
        PolicyVerdict)
        ensures
            match r {
                PolicyVerdict::Allowed => spec_decide(
                    old(self).policy.rules@,
                    tool_name@,
                    approved_views(old(self).approved_operations@),
                ) == PolicyDecision::Allowed,
                PolicyVerdict::Denied(reason) => spec_decide(
                    old(self).policy.rules@,
                    tool_name@,
                    approved_views(old(self).approved_operations@),
                ) == PolicyDecision::Denied(reason@),
                PolicyVerdict::ConsentNeeded(message) => spec_decide(
                    old(self).policy.rules@,
                    tool_name@,
                    approved_views(old(self).approved_operations@),
                ) == PolicyDecision::NeedsConsent(message@),
            },
            final(self).policy == old(self).policy,
            final(self).approved_operations == old(self).approved_operations,
            old(self).audit_trail@.len() <= final(self).audit_trail@.len(),
            forall|k: int|
                0 <= k < old(self).audit_trail@.len() ==> final(self).audit_trail@[k] == old(
                    self,
                ).audit_trail@[k],
            final(self).audit_trail@.len() == old(self).audit_trail@.len() + spec_audit_levels(
                old(self).policy.rules@,
                tool_name@,
            ).len(),
            forall|k: int|
                old(self).audit_trail@.len() <= k < final(self).audit_trail@.len()
                    ==> (#[trigger] final(self).audit_trail@[k]).tool@ == tool_name@
                    && final(self).audit_trail@[k].scope@ == scope@
                    && final(self).audit_trail@[k].timestamp == now_ms
                    && final(self).audit_trail@[k].level == spec_audit_levels(
                    old(self).policy.rules@,
                    tool_name@,
                )[k - old(self).audit_trail@.len()] && final(self).audit_trail@[k].approved
                    == true,
    {
        let ghost full_levels = spec_audit_levels(self.policy.rules@, tool_name@);
        let ghost approved0 = approved_views(self.approved_operations@);
        proof {
            assert(self.policy.rules@.skip(0) =~= self.policy.rules@);
            assert(full_levels.skip(0) =~= full_levels);
        }
        let mut i: usize = 0;
        while i < self.policy.rules.len()
            invariant
                i <= self.policy.rules@.len(),
                self.policy == old(self).policy,
                self.approved_operations == old(self).approved_operations,
                old(self).audit_trail@.len() <= self.audit_trail@.len(),
                forall|k: int|
                    0 <= k < old(self).audit_trail@.len() ==> self.audit_trail@[k] == old(
                        self,
                    ).audit_trail@[k],
                forall|k: int|
                    old(self).audit_trail@.len() <= k < self.audit_trail@.len()
                        ==> (#[trigger] self.audit_trail@[k]).tool@ == tool_name@
                        && self.audit_trail@[k].scope@ == scope@
                        && self.audit_trail@[k].timestamp == now_ms
                        && self.audit_trail@[k].level == full_levels[k - old(
                        self,
                    ).audit_trail@.len()] && self.audit_trail@[k].approved == true,
                full_levels == spec_audit_levels(old(self).policy.rules@, tool_name@),
                self.audit_trail@.len() - old(self).audit_trail@.len() <= full_levels.len(),
                full_levels.skip(
                    self.audit_trail@.len() - old(self).audit_trail@.len(),
                ) == spec_audit_levels(self.policy.rules@.skip(i as int), tool_name@),
                spec_decide(old(self).policy.rules@, tool_name@, approved0) == spec_decide(
                    self.policy.rules@.skip(i as int),
                    tool_name@,
                    approved0,
                ),
            decreases self.policy.rules@.len() - i,
        {
            proof {
                assert(self.policy.rules@.skip(i as int)[0] == self.policy.rules@[i as int]);
                assert(self.policy.rules@.skip(i as int).drop_first() =~= self.policy.rules@.skip(
                    i + 1,
                ));
            }
            let applies: bool = match &self.policy.rules[i].condition {
                PolicyCondition::ToolName { matches: expected } => str_eq(
                    expected.as_str(),
                    tool_name,
                ),
                PolicyCondition::Scope { required: _ } => true,
                PolicyCondition::RateLimit { max_per_second: _ } => true,
                PolicyCondition::Always => true,
            };
            if applies {
                match &self.policy.rules[i].action {
                    PolicyAction::Allow => {
                        return PolicyVerdict::Allowed;
                    },
                    PolicyAction::Deny { reason } => {
                        return PolicyVerdict::Denied(reason.clone());
                    },
                    PolicyAction::RequireConsent { message } => {
                        let already: bool = self.is_approved(tool_name);
                        proof {
                            assert(already == approved0.contains(tool_name@));
                        }
                        if already {
                            return PolicyVerdict::Allowed;
                        }
                        return PolicyVerdict::ConsentNeeded(message.clone());
                    },
                    PolicyAction::Audit { level } => {
                        let entry = AuditEntry {
                            timestamp: now_ms,
                            tool: tool_name.to_owned(),
                            scope: scope.to_owned(),
                            level: *level,
                            approved: true,
                        };
                        let ghost trail0 = self.audit_trail@;
                        self.audit_trail.push(entry);
                        proof {
                            assert(forall|k: int|
                                0 <= k < trail0.len() ==> self.audit_trail@[k] == trail0[k]);
                            assert(self.audit_trail@.last().tool@ == tool_name@);
                            let a0 = trail0.len() - old(self).audit_trail@.len();
                            let rest = spec_audit_levels(
                                self.policy.rules@.skip(i + 1),
                                tool_name@,
                            );
                            assert(full_levels.skip(a0) == seq![*level].add(rest));
                            assert(full_levels[a0] == full_levels.skip(a0)[0]);
                            assert(full_levels.skip(a0).len() == 1 + rest.len());
                            assert forall|k: int| 0 <= k < rest.len() implies full_levels.skip(
                                a0 + 1,
                            )[k] == rest[k] by {
                                assert(full_levels.skip(a0)[k + 1] == seq![*level].add(
                                    rest,
                                )[k + 1]);
                                assert(seq![*level].add(rest)[k + 1] == rest[k]);
                                assert(full_levels.skip(a0)[k + 1] == full_levels[a0 + k + 1]);
                                assert(full_levels.skip(a0 + 1)[k] == full_levels[a0 + 1 + k]);
                            }
                            assert(full_levels.skip(a0 + 1).len() == rest.len());
                            assert(full_levels.skip(a0 + 1) =~= rest);
                            assert(self.audit_trail@.last().level == full_levels[a0]);
                            assert(self.audit_trail@.last().approved == true);
                        }
                    },
                }
            }
            i = i + 1;
        }
        proof {
            assert(full_levels.skip(
                self.audit_trail@.len() - old(self).audit_trail@.len(),
            ).len() == 0);
        }
        PolicyVerdict::Allowed
    }

    /// Records the user's granted consent for a tool: from here on, this
    /// session's consent requirements for it are covered. Granting a tool
    /// already covered changes nothing.
    #[verifier::loop_isolation(false)]
    pub fn grant_consent(&mut self, tool_name: &str)
        ensures
            approved_views(final(self).approved_operations@).contains(tool_name@),
            forall|k: int|
                0 <= k < old(self).approved_operations@.len()
                    ==> final(self).approved_operations@[k] == old(self).approved_operations@[k],
            final(self).policy == old(self).policy,
            final(self).audit_trail == old(self).audit_trail,
    {
        let already: bool = self.is_approved(tool_name);
        if !already {
            self.approved_operations.push(tool_name.to_owned());
            proof {
                let views = approved_views(self.approved_operations@);
                assert(views[views.len() - 1] == tool_name@);
            }
        } else {
            proof {
                assert(approved_views(self.approved_operations@).contains(tool_name@));
            }
        }
    }

    /// True when this session has already approved the tool.
    #[verifier::loop_isolation(false)]
    pub fn is_approved(&self, tool_name: &str) -> (r: bool)
        ensures
            r == approved_views(self.approved_operations@).contains(tool_name@),
    {
        let ghost views = approved_views(self.approved_operations@);
        let mut i: usize = 0;
        while i < self.approved_operations.len()
            invariant
                i <= self.approved_operations@.len(),
                forall|k: int| 0 <= k < i ==> (#[trigger] self.approved_operations@[k])@ != tool_name@,
            decreases self.approved_operations@.len() - i,
        {
            if str_eq(self.approved_operations[i].as_str(), tool_name) {
                proof {
                    assert(views[i as int] == tool_name@);
                }
                return true;
            }
            i = i + 1;
        }
        proof {
            if views.contains(tool_name@) {
                let w = choose|k: int| 0 <= k < views.len() && views[k] == tool_name@;
                assert(self.approved_operations@[w]@ == tool_name@);
            }
        }
        false
    }

    /// How many audit entries the trail holds.
    pub fn audit_trail_len(&self) -> (r: usize)
        ensures
            r == self.audit_trail@.len(),
    {
        self.audit_trail.len()
    }

    /// The audit trail, oldest entry first.
    pub fn get_audit_trail(&self) -> (r: &Vec<AuditEntry>)
        ensures
            r == self.audit_trail,
    {
        &self.audit_trail
    }
}

impl Policy {
    /// The built-in policy: shell executions are audited at warning
    /// level, and file deletion requires consent.
    pub fn new_default() -> (r: Policy)
        ensures
            r.rules@.len() == 2,
            r.rules@[0].condition matches PolicyCondition::ToolName { matches: m0 } && m0@
                == "shell_execute"@,
            r.rules@[0].action matches PolicyAction::Audit { level } && level == AuditLevel::Warn,
            r.rules@[1].condition matches PolicyCondition::ToolName { matches: m1 } && m1@
                == "delete_file"@,
            r.rules@[1].action is RequireConsent,
            r.audit == (AuditPolicy {
                enabled: true,
                log_requests: true,
                log_responses: false,
                redact_secrets: true,
            }),
    {
        let mut rules: Vec<PolicyRule> = Vec::new();
        rules.push(
            PolicyRule {
                name: "audit_shell_commands".to_owned(),
                description: Some("Audit all shell command executions".to_owned()),
                condition: PolicyCondition::ToolName { matches: "shell_execute".to_owned() },
                action: PolicyAction::Audit { level: AuditLevel::Warn },
            },
        );
        rules.push(
            PolicyRule {
                name: "consent_file_deletion".to_owned(),
                description: Some("Require consent for file deletion".to_owned()),
                condition: PolicyCondition::ToolName { matches: "delete_file".to_owned() },
                action: PolicyAction::RequireConsent {
                    message: "This will permanently delete a file".to_owned(),
                },
            },
        );
        Policy { rules, audit: AuditPolicy::new() }
    }
}

impl Default for Policy {
    /// The built-in policy, as `new_default` gives it.
    fn default() -> (r: Policy)
        ensures
            r.rules@.len() == 2,
            r.rules@[0].condition matches PolicyCondition::ToolName { matches: m0 } && m0@
                == "shell_execute"@,
            r.rules@[0].action matches PolicyAction::Audit { level } && level == AuditLevel::Warn,
            r.rules@[1].condition matches PolicyCondition::ToolName { matches: m1 } && m1@
                == "delete_file"@,
            r.rules@[1].action is RequireConsent,
            r.audit == (AuditPolicy {
                enabled: true,
                log_requests: true,
                log_responses: false,
                redact_secrets: true,
            }),
    {
        Policy::new_default()
    }
}

} // verus!
