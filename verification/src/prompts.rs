//! The prompt registry: provider storage, sorted listing, required
//! argument checking, and the built-in template prompts.

use vstd::prelude::*;

use crate::json::str_eq;
use crate::messages::GetPromptResult;
use crate::order::lemma_lex_total;
use crate::order::lemma_lex_trans;
use crate::order::lex_leq;
use crate::order::str_leq;
use crate::rpc::McpError;
use crate::types::Content;
use crate::types::Prompt;
use crate::types::PromptArgument;
use crate::types::PromptMessage;
use crate::types::PromptRole;

verus! {

/// A prompt provider: a named template that renders to role-tagged
/// messages from a map of argument values.
pub trait PromptProvider {
    /// The unique name the prompt is addressed by.
    fn name(&self) -> String;

    /// A human-readable description, if the prompt has one.
    fn description(&self) -> Option<String>;

    /// The arguments the prompt takes.
    fn arguments(&self) -> Vec<PromptArgument>;

    /// Renders the prompt with the given argument values.
    fn get_prompt(&self, arguments: Vec<(String, String)>) -> Result<GetPromptResult, McpError>;
}

/// One registered prompt: the descriptor recorded at registration, and
/// the provider that renders it.
pub struct PromptEntry {
    pub descriptor: Prompt,
    pub provider: Box<dyn PromptProvider>,
}

/// The server-side prompt registry.
pub struct PromptRegistry {
    pub entries: Vec<PromptEntry>,
}

/// Whether an argument list binds a name.
pub open spec fn spec_args_bind(args: Seq<(String, String)>, name: Seq<char>) -> bool {
    exists|k: int| 0 <= k < args.len() && (#[trigger] args[k]).0@ == name
}

/// Whether an argument descriptor list has a required name the supplied
/// arguments do not bind.
pub open spec fn spec_missing_required(
    declared: Seq<PromptArgument>,
    args: Seq<(String, String)>,
) -> bool {
    exists|k: int|
        0 <= k < declared.len() && (#[trigger] declared[k]).required == Some(true)
            && !spec_args_bind(args, declared[k].name@)
}

impl PromptRegistry {
    /// The registry invariant: entry names strictly increase, so they
    /// are sorted and pairwise distinct.
    pub open spec fn wf(&self) -> bool {
        forall|i: int, j: int|
            0 <= i < j < self.entries@.len() ==> lex_leq(
                (#[trigger] self.entries@[i]).descriptor.name@,
                (#[trigger] self.entries@[j]).descriptor.name@,
            ) && self.entries@[i].descriptor.name@ != self.entries@[j].descriptor.name@
    }

    /// Whether a name is taken.
    pub open spec fn spec_has_prompt(&self, name: Seq<char>) -> bool {
        exists|k: int|
            0 <= k < self.entries@.len() && (#[trigger] self.entries@[k]).descriptor.name@ == name
    }

    /// An empty registry.
    pub fn new() -> (r: PromptRegistry)
        ensures
            r.wf(),
            r.entries@.len() == 0,
    {
        PromptRegistry { entries: Vec::new() }
    }

    /// Registers a provider under the name it gives. The name comes from
    /// an uncontracted trait call, so what can be said here is said of
    /// the entry that went in; `register_entry`, which this calls, ties
    /// failure to the name being taken.
    pub fn register(&mut self, provider: Box<dyn PromptProvider>) -> (r: Result<(), McpError>)
        requires
            old(self).wf(),
        ensures
            final(self).wf(),
            match r {
                Ok(()) => exists|k: int|
                    0 <= k <= old(self).entries@.len() && final(self).entries@ == old(
                        self,
                    ).entries@.insert(k, #[trigger] final(self).entries@[k]) && !old(
                        self,
                    ).spec_has_prompt(final(self).entries@[k].descriptor.name@),
                Err(e) => {
                    &&& *final(self) == *old(self)
                    &&& e@.code == crate::rpc::ErrorCode::Standard(
                        crate::rpc::StandardErrorCode::InvalidRequest,
                    )
                },
            },
    {
        let name: String = provider.name();
        let description: Option<String> = provider.description();
        let arguments: Vec<PromptArgument> = provider.arguments();
        let descriptor = Prompt { name, description, arguments: Some(arguments) };
        self.register_entry(descriptor, provider)
    }

    /// Records a prompt under its descriptor's name: fails with
    /// `InvalidRequest`, leaving the registry exactly as it was, if and
    /// only if the name is already taken; otherwise the descriptor goes
    /// in at its sorted position.
    #[verifier::loop_isolation(false)]
    #[verifier::rlimit(60)]
    pub fn register_entry(&mut self, descriptor: Prompt, provider: Box<dyn PromptProvider>) -> (r:
        Result<(), McpError>)
        requires
            old(self).wf(),
        ensures
            final(self).wf(),
            match r {
                Ok(()) => !old(self).spec_has_prompt(descriptor.name@) && exists|k: int|
                    0 <= k <= old(self).entries@.len() && final(self).entries@ == old(
                        self,
                    ).entries@.insert(k, #[trigger] final(self).entries@[k])
                        && final(self).entries@[k].descriptor@ == descriptor@,
                Err(e) => {
                    &&& *final(self) == *old(self)
                    &&& old(self).spec_has_prompt(descriptor.name@)
                    &&& e@.code == crate::rpc::ErrorCode::Standard(
                        crate::rpc::StandardErrorCode::InvalidRequest,
                    )
                },
            },
    {
        let name: &String = &descriptor.name;
        let mut i: usize = 0;
        while i < self.entries.len()
            invariant
                i <= self.entries@.len(),
                *self == *old(self),
                forall|k: int|
                    0 <= k < i ==> (#[trigger] self.entries@[k]).descriptor.name@ != name@,
            decreases self.entries@.len() - i,
        {
            if str_eq(self.entries[i].descriptor.name.as_str(), name.as_str()) {
                proof {
                    assert(old(self).spec_has_prompt(descriptor.name@));
                }
                return Err(McpError::invalid_request("prompt name is already registered"));
            }
            i = i + 1;
        }
        let mut pos: usize = 0;
        while pos < self.entries.len() && !str_leq(
            name.as_str(),
            self.entries[pos].descriptor.name.as_str(),
        )
            invariant
                pos <= self.entries@.len(),
                *self == *old(self),
                forall|k: int|
                    0 <= k < pos ==> !lex_leq(
                        name@,
                        (#[trigger] self.entries@[k]).descriptor.name@,
                    ),
            decreases self.entries@.len() - pos,
        {
            pos = pos + 1;
        }
        let entry = PromptEntry { descriptor, provider };
        let ghost newname = entry.descriptor.name@;
        let ghost oldseq = self.entries@;
        let ghost p = pos as int;
        let ghost ge = entry;
        self.entries.insert(pos, entry);
        proof {
            let newseq = self.entries@;
            oldseq.insert_ensures(p, ge);
            assert(newseq == oldseq.insert(p, ge));
            assert(newseq[p] == ge);
            assert forall|k: int| 0 <= k < p implies lex_leq(
                (#[trigger] oldseq[k]).descriptor.name@,
                newname,
            ) && oldseq[k].descriptor.name@ != newname by {
                lemma_lex_total(newname, oldseq[k].descriptor.name@);
            }
            assert forall|k: int| p <= k < oldseq.len() implies lex_leq(
                newname,
                (#[trigger] oldseq[k]).descriptor.name@,
            ) && oldseq[k].descriptor.name@ != newname by {
                if p < oldseq.len() {
                    assert(lex_leq(newname, oldseq[p].descriptor.name@));
                    if p < k {
                        assert(lex_leq(oldseq[p].descriptor.name@, oldseq[k].descriptor.name@));
                        lemma_lex_trans(
                            newname,
                            oldseq[p].descriptor.name@,
                            oldseq[k].descriptor.name@,
                        );
                    }
                }
            }
            assert forall|i2: int, j2: int| 0 <= i2 < j2 < newseq.len() implies lex_leq(
                (#[trigger] newseq[i2]).descriptor.name@,
                (#[trigger] newseq[j2]).descriptor.name@,
            ) && newseq[i2].descriptor.name@ != newseq[j2].descriptor.name@ by {
                let oi: int = if i2 < p {
                    i2
                } else {
                    i2 - 1
                };
                let oj: int = if j2 < p {
                    j2
                } else {
                    j2 - 1
                };
                if i2 == p {
                    assert(newseq[j2] == oldseq[oj]);
                } else if j2 == p {
                    assert(newseq[i2] == oldseq[oi]);
                } else {
                    assert(newseq[i2] == oldseq[oi]);
                    assert(newseq[j2] == oldseq[oj]);
                }
            }
        }
        Ok(())
    }

    /// The registered descriptors, in name order: a pure function of the
    /// registry state, sorted by name.
    #[verifier::loop_isolation(false)]
    pub fn list_prompts(&self) -> (r: Vec<Prompt>)
        requires
            self.wf(),
        ensures
            r@.len() == self.entries@.len(),
            forall|k: int|
                0 <= k < r@.len() ==> (#[trigger] r@[k])@ == self.entries@[k].descriptor@,
            forall|i: int, j: int|
                0 <= i < j < r@.len() ==> lex_leq(
                    (#[trigger] r@[i]).name@,
                    (#[trigger] r@[j]).name@,
                ),
    {
        let mut out: Vec<Prompt> = Vec::new();
        let mut i: usize = 0;
        while i < self.entries.len()
            invariant
                i <= self.entries@.len(),
                out@.len() == i,
                forall|k: int|
                    0 <= k < i ==> (#[trigger] out@[k])@ == self.entries@[k].descriptor@,
            decreases self.entries@.len() - i,
        {
            out.push(self.entries[i].descriptor.clone());
            i = i + 1;
        }
        proof {
            assert forall|i2: int, j2: int| 0 <= i2 < j2 < out@.len() implies lex_leq(
                (#[trigger] out@[i2]).name@,
                (#[trigger] out@[j2]).name@,
            ) by {
                assert(out@[i2]@ == self.entries@[i2].descriptor@);
                assert(out@[j2]@ == self.entries@[j2].descriptor@);
            }
        }
        out
    }

    /// Renders a prompt. An unknown name fails with `PromptNotFound`; a
    /// missing required argument with `InvalidParams`; a provider
    /// failure is surfaced as `PromptExecutionError`, whatever it was.
    #[verifier::loop_isolation(false)]
    pub fn get_prompt(&self, name: &str, arguments: Vec<(String, String)>) -> (r: Result<
        GetPromptResult,
        McpError,
    >)
        ensures
            match r {
                Ok(_) => self.spec_has_prompt(name@),
                Err(e) => {
                    ||| (e@.code == crate::rpc::ErrorCode::Standard(
                        crate::rpc::StandardErrorCode::PromptNotFound,
                    ) && !self.spec_has_prompt(name@))
                    ||| (e@.code == crate::rpc::ErrorCode::Standard(
                        crate::rpc::StandardErrorCode::InvalidParams,
                    ) && self.spec_has_prompt(name@))
                    ||| (e@.code == crate::rpc::ErrorCode::Standard(
                        crate::rpc::StandardErrorCode::PromptExecutionError,
                    ) && self.spec_has_prompt(name@))
                },
            },
    {
        let mut i: usize = 0;
        while i < self.entries.len()
            invariant
                i <= self.entries@.len(),
                forall|k: int|
                    0 <= k < i ==> (#[trigger] self.entries@[k]).descriptor.name@ != name@,
            decreases self.entries@.len() - i,
        {
            if str_eq(self.entries[i].descriptor.name.as_str(), name) {
                match &self.entries[i].descriptor.arguments {
                    Some(declared) => {
                        match check_required_arguments(declared, &arguments) {
                            Ok(()) => {},
                            Err(e) => {
                                return Err(e);
                            },
                        }
                    },
                    None => {},
                }
                match self.entries[i].provider.get_prompt(arguments) {
                    Ok(result) => {
                        return Ok(result);
                    },
                    Err(e) => {
                        let mut message = String::new();
                        message.append("Prompt execution failed: ");
                        message.append(e.message.as_str());
                        return Err(
                            McpError::new(
                                crate::rpc::ErrorCode::Standard(
                                    crate::rpc::StandardErrorCode::PromptExecutionError,
                                ),
                                message.as_str(),
                            ),
                        );
                    },
                }
            }
            i = i + 1;
        }
        Err(
            McpError::new(
                crate::rpc::ErrorCode::Standard(crate::rpc::StandardErrorCode::PromptNotFound),
                "prompt not found",
            ),
        )
    }

    /// How many prompts are registered.
    pub fn len(&self) -> (r: usize)
        ensures
            r == self.entries@.len(),
    {
        self.entries.len()
    }

    /// True when nothing is registered.
    pub fn is_empty(&self) -> (r: bool)
        ensures
            r == (self.entries@.len() == 0),
    {
        self.entries.len() == 0
    }
}

impl Default for PromptRegistry {
    /// An empty registry, as `new` gives it.
    fn default() -> (r: PromptRegistry)
        ensures
            r.wf(),
            r.entries@.len() == 0,
    {
        PromptRegistry::new()
    }
}

/// Checks that every declared required argument is bound: fails with
/// `InvalidParams` exactly when one is missing.
#[verifier::loop_isolation(false)]
pub fn check_required_arguments(
    declared: &Vec<PromptArgument>,
    args: &Vec<(String, String)>,
) -> (r: Result<(), McpError>)
    ensures
        r is Err <==> spec_missing_required(declared@, args@),
        r matches Err(e) ==> e@.code == crate::rpc::ErrorCode::Standard(
            crate::rpc::StandardErrorCode::InvalidParams,
        ),
{
    let mut i: usize = 0;
    while i < declared.len()
        invariant
            i <= declared@.len(),
            forall|k: int|
                0 <= k < i ==> !((#[trigger] declared@[k]).required == Some(true)
                    && !spec_args_bind(args@, declared@[k].name@)),
        decreases declared@.len() - i,
    {
        let required: bool = match declared[i].required {
            Some(b) => b,
            None => false,
        };
        if required {
            let mut found: bool = false;
            let mut k: usize = 0;
            while k < args.len()
                invariant
                    k <= args@.len(),
                    found ==> spec_args_bind(args@, declared@[i as int].name@),
                    !found ==> forall|j: int|
                        0 <= j < k ==> (#[trigger] args@[j]).0@ != declared@[i as int].name@,
                decreases args@.len() - k,
            {
                if str_eq(args[k].0.as_str(), declared[i].name.as_str()) {
                    found = true;
                }
                k = k + 1;
            }
            if !found {
                return Err(McpError::invalid_params("missing required argument"));
            }
        }
        i = i + 1;
    }
    Ok(())
}

/// Replaces every occurrence of `pat` in `s` by `rep`, scanning left to
/// right without rescanning replacements.
pub open spec fn spec_replace(s: Seq<char>, pat: Seq<char>, rep: Seq<char>) -> Seq<char>
    decreases s.len(),
{
    if s.len() == 0 || pat.len() == 0 {
        s
    } else if pat.len() <= s.len() && s.subrange(0, pat.len() as int) == pat {
        rep.add(spec_replace(s.skip(pat.len() as int), pat, rep))
    } else {
        seq![s[0]].add(spec_replace(s.drop_first(), pat, rep))
    }
}

/// The template after substituting the first `n` argument pairs, each
/// `{name}` replaced by its value, in order.
pub open spec fn spec_render(template: Seq<char>, args: Seq<(String, String)>, n: int) -> Seq<char>
    decreases n,
{
    if n <= 0 || n > args.len() {
        template
    } else {
        spec_replace(
            spec_render(template, args, n - 1),
            seq!['{'].add(args[n - 1].0@).push('}'),
            args[n - 1].1@,
        )
    }
}

/// Replaces every occurrence of `pat` in `s` by `rep`.
#[verifier::loop_isolation(false)]
pub fn replace_all(s: &str, pat: &Vec<char>, rep: &Vec<char>) -> (r: Vec<char>)
    ensures
        r@ == spec_replace(s@, pat@, rep@),
{
    let cs = crate::json::chars_of(s);
    let mut out: Vec<char> = Vec::new();
    let mut i: usize = 0;
    if pat.len() == 0 {
        proof {
            assert(spec_replace(s@, pat@, rep@) == s@);
        }
        return cs;
    }
    proof {
        assert(s@.skip(0) =~= s@);
        assert(out@.add(spec_replace(s@.skip(0), pat@, rep@)) =~= spec_replace(s@, pat@, rep@));
    }
    while i < cs.len()
        invariant
            i <= cs@.len(),
            cs@ == s@,
            pat@.len() > 0,
            spec_replace(s@, pat@, rep@) == out@.add(spec_replace(s@.skip(i as int), pat@, rep@)),
        decreases cs@.len() - i,
    {
        let mut matches_here: bool = true;
        if pat.len() > cs.len() - i {
            matches_here = false;
        } else {
            let mut k: usize = 0;
            while k < pat.len()
                invariant
                    k <= pat@.len(),
                    i + pat@.len() <= cs@.len(),
                    matches_here <==> (forall|j: int|
                        0 <= j < k ==> s@[i + j] == (#[trigger] pat@[j])),
                decreases pat@.len() - k,
            {
                if cs[i + k] != pat[k] {
                    matches_here = false;
                }
                k = k + 1;
            }
        }
        if matches_here {
            proof {
                assert(s@.skip(i as int).subrange(0, pat@.len() as int) =~= pat@);
                assert(s@.skip(i as int).skip(pat@.len() as int) =~= s@.skip(i + pat@.len()));
            }
            let ghost out0 = out@;
            let mut k: usize = 0;
            while k < rep.len()
                invariant
                    k <= rep@.len(),
                    out@ == out0.add(rep@.subrange(0, k as int)),
                decreases rep@.len() - k,
            {
                out.push(rep[k]);
                proof {
                    assert(out@ =~= out0.add(rep@.subrange(0, k + 1)));
                }
                k = k + 1;
            }
            proof {
                assert(out@ =~= out0.add(rep@));
            }
            i = i + pat.len();
            proof {
                assert(out@.add(spec_replace(s@.skip(i as int), pat@, rep@)) =~= out0.add(
                    spec_replace(s@.skip(i - pat@.len()), pat@, rep@),
                ));
            }
        } else {
            proof {
                if pat@.len() <= s@.len() - i {
                    assert(s@.skip(i as int).subrange(0, pat@.len() as int) != pat@) by {
                        let w = choose|j: int|
                            0 <= j < pat@.len() && s@[i + j] != pat@[j];
                        assert(s@.skip(i as int).subrange(0, pat@.len() as int)[w] != pat@[w]);
                    }
                }
                assert(s@.skip(i as int).drop_first() =~= s@.skip(i + 1));
            }
            let ghost out0 = out@;
            out.push(cs[i]);
            i = i + 1;
            proof {
                assert(out@.add(spec_replace(s@.skip(i as int), pat@, rep@)) =~= out0.add(
                    spec_replace(s@.skip(i - 1), pat@, rep@),
                ));
            }
        }
    }
    proof {
        assert(s@.skip(s@.len() as int).len() == 0);
        assert(out@.add(spec_replace(s@.skip(s@.len() as int), pat@, rep@)) =~= out@);
    }
    out
}

/// A named template prompt: `{name}` placeholders in the template are
/// substituted with the argument values, in argument order.
pub struct SimplePrompt {
    pub name: String,
    pub description: Option<String>,
    pub template: String,
    pub arguments: Vec<PromptArgument>,
}

impl SimplePrompt {
    /// A template prompt with no description and no declared arguments.
    pub fn new(name: &str, template: &str) -> (r: SimplePrompt)
        ensures
            r.name@ == name@,
            r.template@ == template@,
            r.description is None,
            r.arguments@.len() == 0,
    {
        SimplePrompt {
            name: name.to_owned(),
            description: None,
            template: template.to_owned(),
            arguments: Vec::new(),
        }
    }

    /// The same prompt with a description.
    pub fn with_description(self, description: &str) -> (r: SimplePrompt)
        ensures
            r.name == self.name,
            r.template == self.template,
            r.arguments == self.arguments,
            r.description matches Some(d) && d@ == description@,
    {
        SimplePrompt { description: Some(description.to_owned()), ..self }
    }

    /// The same prompt declaring one more argument.
    pub fn with_argument(self, name: &str, description: Option<String>, required: bool) -> (r:
        SimplePrompt)
        ensures
            r.name == self.name,
            r.template == self.template,
            r.description == self.description,
            r.arguments@.len() == self.arguments@.len() + 1,
            r.arguments@.last().name@ == name@,
            r.arguments@.last().description == description,
            r.arguments@.last().required == Some(required),
            forall|k: int|
                0 <= k < self.arguments@.len() ==> r.arguments@[k] == self.arguments@[k],
    {
        let mut arguments = self.arguments;
        arguments.push(
            PromptArgument { name: name.to_owned(), description, required: Some(required) },
        );
        SimplePrompt { arguments, ..self }
    }

    /// The template with each `{name}` placeholder replaced by its
    /// argument's value, argument by argument in the order given.
    #[verifier::loop_isolation(false)]
    pub fn render_template(&self, arguments: &Vec<(String, String)>) -> (r: String)
        ensures
            r@ == spec_render(self.template@, arguments@, arguments@.len() as int),
    {
        let mut rendered: String = self.template.clone();
        let mut i: usize = 0;
        while i < arguments.len()
            invariant
                i <= arguments@.len(),
                rendered@ == spec_render(self.template@, arguments@, i as int),
            decreases arguments@.len() - i,
        {
            let mut pat: Vec<char> = Vec::new();
            pat.push('{');
            let mut key_chars = crate::json::chars_of(arguments[i].0.as_str());
            pat.append(&mut key_chars);
            pat.push('}');
            proof {
                assert(pat@ =~= seq!['{'].add(arguments@[i as int].0@).push('}'));
            }
            let rep = crate::json::chars_of(arguments[i].1.as_str());
            let replaced = replace_all(rendered.as_str(), &pat, &rep);
            rendered = crate::json::string_of(&replaced);
            i = i + 1;
        }
        rendered
    }
}

impl PromptProvider for SimplePrompt {
    fn name(&self) -> String {
        self.name.clone()
    }

    fn description(&self) -> Option<String> {
        match &self.description {
            Some(d) => Some(d.clone()),
            None => None,
        }
    }

    fn arguments(&self) -> Vec<PromptArgument> {
        let mut out: Vec<PromptArgument> = Vec::new();
        let mut i: usize = 0;
        while i < self.arguments.len()
            decreases self.arguments@.len() - i,
        {
            out.push(self.arguments[i].clone());
            i = i + 1;
        }
        out
    }

    fn get_prompt(&self, arguments: Vec<(String, String)>) -> Result<GetPromptResult, McpError> {
        match check_required_arguments(&self.arguments, &arguments) {
            Ok(()) => {},
            Err(e) => {
                return Err(e);
            },
        }
        let text = self.render_template(&arguments);
        let mut messages: Vec<PromptMessage> = Vec::new();
        messages.push(
            PromptMessage { role: PromptRole::User, content: Content::Text { text } },
        );
        let description = match &self.description {
            Some(d) => Some(d.clone()),
            None => None,
        };
        Ok(GetPromptResult { description, messages })
    }
}

/// The text of a code review request for a piece of code.
pub fn render_code_review(code: &str, language: &str, focus: &str) -> (r: String)
    ensures
        r@ == "Please review the following "@.add(language@).add(
            " code with a focus on "@,
        ).add(focus@).add(":

```"@).add(language@).add("
"@).add(code@).add(
            "
```

Provide feedback on:
1. Code quality and readability
2. Potential bugs or issues
3. Performance considerations
4. Security concerns (if applicable)
5. Best practices and style
6. Suggestions for improvement

Please be constructive and specific in your feedback."@,
        ),
{
    let mut out: String = "Please review the following ".to_owned();
    out.append(language);
    out.append(" code with a focus on ");
    out.append(focus);
    out.append(":

```");
    out.append(language);
    out.append("
");
    out.append(code);
    out.append(
        "
```

Provide feedback on:
1. Code quality and readability
2. Potential bugs or issues
3. Performance considerations
4. Security concerns (if applicable)
5. Best practices and style
6. Suggestions for improvement

Please be constructive and specific in your feedback.",
    );
    out
}

/// The built-in code review prompt: renders a review request for the
/// `code` argument, in the `language` given, focused as asked.
pub struct CodeReviewPrompt;

impl CodeReviewPrompt {
    /// The built-in code review prompt.
    pub fn new() -> (r: CodeReviewPrompt)
    {
        CodeReviewPrompt
    }
}

impl PromptProvider for CodeReviewPrompt {
    fn name(&self) -> String {
        "code_review".to_owned()
    }

    fn description(&self) -> Option<String> {
        Some("Generate a code review prompt for the given code".to_owned())
    }

    fn arguments(&self) -> Vec<PromptArgument> {
        let mut out: Vec<PromptArgument> = Vec::new();
        out.push(
            PromptArgument {
                name: "code".to_owned(),
                description: Some("The code to review".to_owned()),
                required: Some(true),
            },
        );
        out.push(
            PromptArgument {
                name: "language".to_owned(),
                description: Some("Programming language of the code".to_owned()),
                required: Some(false),
            },
        );
        out.push(
            PromptArgument {
                name: "focus".to_owned(),
                description: Some(
                    "Specific areas to focus on (security, performance, style, etc.)".to_owned(),
                ),
                required: Some(false),
            },
        );
        out
    }

    fn get_prompt(&self, arguments: Vec<(String, String)>) -> Result<GetPromptResult, McpError> {
        let mut code: Option<String> = None;
        let mut language: Option<String> = None;
        let mut focus: Option<String> = None;
        let mut i: usize = 0;
        while i < arguments.len()
            decreases arguments@.len() - i,
        {
            if str_eq(arguments[i].0.as_str(), "code") {
                code = Some(arguments[i].1.clone());
            } else if str_eq(arguments[i].0.as_str(), "language") {
                language = Some(arguments[i].1.clone());
            } else if str_eq(arguments[i].0.as_str(), "focus") {
                focus = Some(arguments[i].1.clone());
            }
            i = i + 1;
        }
        let code = match code {
            Some(c) => c,
            None => {
                return Err(McpError::invalid_params("Missing required argument: code"));
            },
        };
        let language = match language {
            Some(l) => l,
            None => "unknown".to_owned(),
        };
        let focus = match focus {
            Some(f) => f,
            None => "general code quality, security, and best practices".to_owned(),
        };
        let text = render_code_review(code.as_str(), language.as_str(), focus.as_str());
        let mut description: String = "Code review for ".to_owned();
        description.append(language.as_str());
        description.append(" code");
        let mut messages: Vec<PromptMessage> = Vec::new();
        messages.push(
            PromptMessage { role: PromptRole::User, content: Content::Text { text } },
        );
        Ok(GetPromptResult { description: Some(description), messages })
    }
}

/// Collects the arguments of one prompt invocation, last value per
/// name winning.
#[derive(Debug)]
pub struct PromptBuilder {
    pub name: String,
    pub arguments: Vec<(String, String)>,
}

impl PromptBuilder {
    /// A builder for the prompt of this name, with no arguments yet.
    pub fn new(name: &str) -> (r: PromptBuilder)
        ensures
            r.name@ == name@,
            r.arguments@.len() == 0,
    {
        PromptBuilder { name: name.to_owned(), arguments: Vec::new() }
    }

    /// The same builder with one argument bound; binding a bound name
    /// replaces its value.
    #[verifier::loop_isolation(false)]
    pub fn with_argument(self, key: &str, value: &str) -> (r: PromptBuilder)
        ensures
            r.name == self.name,
            spec_args_bind(r.arguments@, key@),
    {
        let mut arguments = self.arguments;
        let mut i: usize = 0;
        let n = arguments.len();
        while i < n
            invariant
                i <= n,
                n == arguments@.len(),
            decreases n - i,
        {
            if str_eq(arguments[i].0.as_str(), key) {
                let _old_pair = arguments.remove(i);
                arguments.insert(i, (key.to_owned(), value.to_owned()));
                proof {
                    assert(arguments@[i as int].0@ == key@);
                }
                return PromptBuilder { name: self.name, arguments };
            }
            i = i + 1;
        }
        arguments.push((key.to_owned(), value.to_owned()));
        proof {
            assert(arguments@.last().0@ == key@);
        }
        PromptBuilder { name: self.name, arguments }
    }

    /// The same builder with each of the given arguments bound, in
    /// order.
    pub fn with_arguments(self, arguments: Vec<(String, String)>) -> (r: PromptBuilder)
        ensures
            r.name == self.name,
    {
        let mut out = self;
        let mut i: usize = 0;
        while i < arguments.len()
            invariant
                i <= arguments@.len(),
                out.name == self.name,
            decreases arguments@.len() - i,
        {
            out = out.with_argument(arguments[i].0.as_str(), arguments[i].1.as_str());
            i = i + 1;
        }
        out
    }

    /// The value bound to a name, if one is.
    #[verifier::loop_isolation(false)]
    pub fn argument(&self, key: &str) -> (r: Option<&String>)
        ensures
            r is Some <==> spec_args_bind(self.arguments@, key@),
    {
        let mut i: usize = 0;
        while i < self.arguments.len()
            invariant
                i <= self.arguments@.len(),
                forall|k: int| 0 <= k < i ==> (#[trigger] self.arguments@[k]).0@ != key@,
            decreases self.arguments@.len() - i,
        {
            if str_eq(self.arguments[i].0.as_str(), key) {
                return Some(&self.arguments[i].1);
            }
            i = i + 1;
        }
        None
    }
}

} // verus!
