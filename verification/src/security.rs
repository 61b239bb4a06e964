//! Security hardening: secret redaction and rate limiting.
//!
//! The redactor hides the values of secret-named keys: an object member
//! whose key contains a configured pattern has its whole value replaced
//! by the placeholder, recursively through objects and arrays, and
//! redacting a document twice gives the same document as redacting it
//! once. Text that is not JSON has no keys to go by, so there any
//! case-insensitive occurrence of a pattern is replaced instead. The
//! rate limiter keeps a sliding window per key, fed with the caller's
//! clock, so its verdicts are functions of their inputs.

use vstd::prelude::*;

use crate::json::Json;
use crate::json::JsonValue;
use crate::json::arr_view;
use crate::json::entries_view;
use crate::json::json_clone;
use crate::json::string_of;

verus! {

/// The lowercase code point of a character: ASCII letters fold, all
/// else stays.
pub open spec fn lower_code(c: char) -> int {
    if 65 <= (c as u32) <= 90 {
        (c as u32) + 32
    } else {
        (c as u32) as int
    }
}

/// Whether `p` occurs at position `i` of `s`, compared case-insensitively.
pub open spec fn ci_match_at(s: Seq<char>, i: int, p: Seq<char>) -> bool {
    0 <= i && i + p.len() <= s.len() && forall|j: int|
        0 <= j < p.len() ==> lower_code(s[i + j]) == lower_code(#[trigger] p[j])
}

/// Whether `p` occurs anywhere in `s`, compared case-insensitively.
pub open spec fn contains_ci(s: Seq<char>, p: Seq<char>) -> bool {
    exists|i: int| ci_match_at(s, i, p)
}

/// The first pattern in the list that occurs at position `i` of `s`.
pub open spec fn first_match(pats: Seq<Seq<char>>, s: Seq<char>, i: int) -> Option<int>
    decreases pats.len(),
{
    if pats.len() == 0 {
        None
    } else if pats[0].len() > 0 && ci_match_at(s, i, pats[0]) {
        Some(0int)
    } else {
        match first_match(pats.drop_first(), s, i) {
            Some(n) => Some(n + 1),
            None => None,
        }
    }
}

/// The characters of the placeholder that stands in for a secret.
pub open spec fn placeholder() -> Seq<char> {
    seq!['[', 'R', 'E', 'D', 'A', 'C', 'T', 'E', 'D', ']']
}

/// The text from position `i` on with every pattern occurrence replaced
/// by the placeholder, scanning left to right without rescanning
/// replacements.
pub open spec fn spec_redact(s: Seq<char>, pats: Seq<Seq<char>>, i: int) -> Seq<char>
    decreases s.len() - i,
{
    if i < 0 || i >= s.len() {
        Seq::<char>::empty()
    } else {
        match first_match(pats, s, i) {
            Some(n) => if 0 <= n < pats.len() && pats[n].len() > 0 && i + pats[n].len()
                <= s.len() {
                placeholder().add(spec_redact(s, pats, i + pats[n].len()))
            } else {
                Seq::<char>::empty()
            },
            None => seq![s[i]].add(spec_redact(s, pats, i + 1)),
        }
    }
}

/// Whether a member key names a secret: some pattern occurs in it.
pub open spec fn key_names_secret(key: Seq<char>, pats: Seq<Seq<char>>) -> bool {
    exists|n: int| 0 <= n < pats.len() && pats[n].len() > 0 && contains_ci(key, #[trigger] pats[n])
}

/// The document with every member under a secret-naming key replaced by
/// the placeholder, recursively.
pub open spec fn spec_redact_json(j: Json, pats: Seq<Seq<char>>) -> Json
    decreases j,
{
    match j {
        Json::Obj(entries) => Json::Obj(
            Seq::new(
                entries.len(),
                |k: int|
                    if 0 <= k < entries.len() {
                        (
                            entries[k].0,
                            if key_names_secret(entries[k].0, pats) {
                                Json::Str(placeholder())
                            } else {
                                spec_redact_json(entries[k].1, pats)
                            },
                        )
                    } else {
                        (Seq::<char>::empty(), Json::Null)
                    },
            ),
        ),
        Json::Arr(elems) => Json::Arr(
            Seq::new(
                elems.len(),
                |k: int|
                    if 0 <= k < elems.len() {
                        spec_redact_json(elems[k], pats)
                    } else {
                        Json::Null
                    },
            ),
        ),
        _ => j,
    }
}

/// Redacting a document twice gives what redacting it once gives: keys
/// are never changed, a member already replaced by the placeholder is
/// replaced by the placeholder again, and everything else is untouched
/// the second time for the same reason it was the first.
pub proof fn lemma_redact_json_idempotent(j: Json, pats: Seq<Seq<char>>)
    ensures
        spec_redact_json(spec_redact_json(j, pats), pats) == spec_redact_json(j, pats),
    decreases j,
{
    match j {
        Json::Obj(entries) => {
            let once = spec_redact_json(j, pats);
            let twice = spec_redact_json(once, pats);
            let e1 = once->Obj_0;
            let e2 = twice->Obj_0;
            assert forall|k: int| 0 <= k < e1.len() implies #[trigger] e2[k] == e1[k] by {
                assert(e1[k].0 == entries[k].0);
                if key_names_secret(entries[k].0, pats) {
                } else {
                    assert(decreases_to!(j => entries));
                    assert(decreases_to!(entries => entries[k]));
                    assert(decreases_to!(entries[k] => entries[k].1));
                    lemma_redact_json_idempotent(entries[k].1, pats);
                }
            }
            assert(e2 =~= e1);
        },
        Json::Arr(elems) => {
            let once = spec_redact_json(j, pats);
            let twice = spec_redact_json(once, pats);
            let a1 = once->Arr_0;
            let a2 = twice->Arr_0;
            assert forall|k: int| 0 <= k < a1.len() implies #[trigger] a2[k] == a1[k] by {
                assert(decreases_to!(j => elems));
                assert(decreases_to!(elems => elems[k]));
                lemma_redact_json_idempotent(elems[k], pats);
            }
            assert(a2 =~= a1);
        },
        _ => {},
    }
}

/// A first match is a match: the pattern the scan settles on does occur
/// at the position.
proof fn lemma_first_match_some(pats: Seq<Seq<char>>, s: Seq<char>, i: int)
    requires
        first_match(pats, s, i) is Some,
    ensures
        0 <= first_match(pats, s, i)->Some_0 < pats.len(),
        ci_match_at(s, i, pats[first_match(pats, s, i)->Some_0]),
        pats[first_match(pats, s, i)->Some_0].len() > 0,
    decreases pats.len(),
{
    if pats.len() > 0 {
        if pats[0].len() > 0 && ci_match_at(s, i, pats[0]) {
        } else {
            lemma_first_match_some(pats.drop_first(), s, i);
            let n = first_match(pats.drop_first(), s, i)->Some_0;
            assert(pats.drop_first()[n] == pats[n + 1]);
        }
    }
}

/// The configured pattern texts.
pub open spec fn pattern_views(pats: Seq<String>) -> Seq<Seq<char>> {
    Seq::new(pats.len(), |k: int| pats[k]@)
}

/// The secret redactor: the key-name patterns it hides.
#[derive(Debug)]
pub struct SecretRedactor {
    pub patterns: Vec<String>,
}

impl SecretRedactor {
    /// The built-in patterns: API keys, tokens, passwords, bearer
    /// headers, cloud key prefixes and PEM headers.
    pub fn new() -> (r: SecretRedactor)
        ensures
            r.patterns@.len() == 11,
            r.patterns@[0]@ == "api_key"@,
            r.patterns@[4]@ == "password"@,
            forall|k: int| 0 <= k < r.patterns@.len() ==> (#[trigger] r.patterns@[k])@.len() > 0,
    {
        proof {
            reveal_strlit("api_key");
            reveal_strlit("apikey");
            reveal_strlit("api-key");
            reveal_strlit("access_token");
            reveal_strlit("password");
            reveal_strlit("passwd");
            reveal_strlit("pwd");
            reveal_strlit("bearer");
            reveal_strlit("token");
            reveal_strlit("AKIA");
            reveal_strlit("-----BEGIN");
        }
        let mut patterns: Vec<String> = Vec::new();
        patterns.push("api_key".to_owned());
        patterns.push("apikey".to_owned());
        patterns.push("api-key".to_owned());
        patterns.push("access_token".to_owned());
        patterns.push("password".to_owned());
        patterns.push("passwd".to_owned());
        patterns.push("pwd".to_owned());
        patterns.push("bearer".to_owned());
        patterns.push("token".to_owned());
        patterns.push("AKIA".to_owned());
        patterns.push("-----BEGIN".to_owned());
        SecretRedactor { patterns }
    }

    /// Hides the secrets in a piece of text before it is logged. Text
    /// that parses as JSON is redacted by key: every member under a
    /// secret-naming key becomes the placeholder, recursively. Any other
    /// text has its pattern occurrences replaced instead.
    pub fn redact(&self, input: &str) -> (r: String)
        ensures
            r@ == match crate::parse::spec_parse(input@) {
                Some(j) => crate::json::spec_print(
                    spec_redact_json(j, pattern_views(self.patterns@)),
                ),
                None => spec_redact(input@, pattern_views(self.patterns@), 0),
            },
    {
        match crate::parse::parse_json(input) {
            Some(doc) => {
                let redacted = self.redact_json(&doc);
                crate::json::to_text(&redacted)
            },
            None => self.redact_text(input),
        }
    }

    /// The input with every case-insensitive occurrence of a pattern
    /// replaced by the placeholder: the redaction for text without
    /// key/value structure.
    #[verifier::loop_isolation(false)]
    pub fn redact_text(&self, input: &str) -> (r: String)
        ensures
            r@ == spec_redact(input@, pattern_views(self.patterns@), 0),
    {
        let ghost pats = pattern_views(self.patterns@);
        let cs = crate::json::chars_of(input);
        let mut pvecs: Vec<Vec<char>> = Vec::new();
        let mut t: usize = 0;
        while t < self.patterns.len()
            invariant
                t <= self.patterns@.len(),
                pvecs@.len() == t,
                forall|k: int| 0 <= k < t ==> (#[trigger] pvecs@[k])@ == self.patterns@[k]@,
            decreases self.patterns@.len() - t,
        {
            pvecs.push(crate::json::chars_of(self.patterns[t].as_str()));
            t = t + 1;
        }
        let mut out: Vec<char> = Vec::new();
        let mut i: usize = 0;
        proof {
            assert(out@.add(spec_redact(input@, pats, 0)) =~= spec_redact(input@, pats, 0));
        }
        while i < cs.len()
            invariant
                i <= cs@.len(),
                cs@ == input@,
                pvecs@.len() == self.patterns@.len(),
                forall|k: int|
                    0 <= k < pvecs@.len() ==> (#[trigger] pvecs@[k])@ == self.patterns@[k]@,
                spec_redact(input@, pats, 0) == out@.add(spec_redact(input@, pats, i as int)),
            decreases cs@.len() - i,
        {
            proof {
                assert(pattern_views_of(pvecs@) =~= pats);
                assert(pattern_views_of(pvecs@).skip(0) =~= pats);
            }
            let hit = find_match(&pvecs, &cs, i, 0);
            match hit {
                Some(m) => {
                    let ghost out0 = out@;
                    push_placeholder(&mut out);
                    let plen = pvecs[m].len();
                    proof {
                        lemma_first_match_some(pats, input@, i as int);
                        assert(pats[m as int].len() == plen);
                        assert(i + plen <= cs@.len());
                        assert(spec_redact(input@, pats, i as int) == placeholder().add(
                            spec_redact(input@, pats, i + plen),
                        ));
                    }
                    i = i + plen;
                    proof {
                        assert(out@.add(spec_redact(input@, pats, i as int)) =~= out0.add(
                            spec_redact(input@, pats, i - plen),
                        ));
                    }
                },
                None => {
                    let ghost out0 = out@;
                    out.push(cs[i]);
                    i = i + 1;
                    proof {
                        assert(out@.add(spec_redact(input@, pats, i as int)) =~= out0.add(
                            spec_redact(input@, pats, i - 1),
                        ));
                    }
                },
            }
        }
        proof {
            assert(out@.add(spec_redact(input@, pats, cs@.len() as int)) =~= out@);
        }
        string_of(&out)
    }

    /// The document with every member under a secret-naming key replaced
    /// by the placeholder, recursively through objects and arrays.
    #[verifier::loop_isolation(false)]
    pub fn redact_json(&self, v: &JsonValue) -> (r: JsonValue)
        ensures
            r@ == spec_redact_json(v@, pattern_views(self.patterns@)),
    {
        redact_json_with(&self.patterns, v)
    }
}

/// The lowercase code point, folding ASCII letters.
fn lower(c: char) -> (r: u32)
    ensures
        r as int == lower_code(c),
{
    let u: u32 = c as u32;
    if 65 <= u && u <= 90 {
        u + 32
    } else {
        u
    }
}

/// Whether the pattern occurs at position `i`, case-insensitively.
#[verifier::loop_isolation(false)]
fn ci_starts_at(cs: &Vec<char>, i: usize, p: &Vec<char>) -> (r: bool)
    requires
        i <= cs@.len(),
    ensures
        r == ci_match_at(cs@, i as int, p@),
{
    if p.len() > cs.len() - i {
        return false;
    }
    let mut j: usize = 0;
    while j < p.len()
        invariant
            j <= p@.len(),
            i + p@.len() <= cs@.len(),
            forall|k: int| 0 <= k < j ==> lower_code(cs@[i + k]) == lower_code(#[trigger] p@[k]),
        decreases p@.len() - j,
    {
        if lower(cs[i + j]) != lower(p[j]) {
            return false;
        }
        j = j + 1;
    }
    true
}

/// The first pattern from index `n` on that occurs at position `i`.
#[verifier::loop_isolation(false)]
fn find_match(pvecs: &Vec<Vec<char>>, cs: &Vec<char>, i: usize, n: usize) -> (r: Option<usize>)
    requires
        n <= pvecs@.len(),
        i <= cs@.len(),
    ensures
        match r {
            Some(m) => n <= m < pvecs@.len() && (#[trigger] pvecs@[m as int])@.len() > 0
                && first_match(pattern_views_of(pvecs@).skip(n as int), cs@, i as int) == Some(
                m - n,
            ),
            None => first_match(pattern_views_of(pvecs@).skip(n as int), cs@, i as int) is None,
        },
    decreases pvecs@.len() - n,
{
    let ghost pats = pattern_views_of(pvecs@);
    if n >= pvecs.len() {
        proof {
            assert(pats.skip(n as int).len() == 0);
        }
        return None;
    }
    proof {
        assert(pats.skip(n as int)[0] == pats[n as int]);
        assert(pats.skip(n as int).drop_first() =~= pats.skip(n + 1));
    }
    let p = &pvecs[n];
    if p.len() > 0 && ci_starts_at(cs, i, p) {
        return Some(n);
    }
    match find_match(pvecs, cs, i, n + 1) {
        Some(m) => Some(m),
        None => None,
    }
}

/// The texts of a pattern character list.
pub open spec fn pattern_views_of(pvecs: Seq<Vec<char>>) -> Seq<Seq<char>> {
    Seq::new(pvecs.len(), |k: int| pvecs[k]@)
}

/// Appends the placeholder.
fn push_placeholder(out: &mut Vec<char>)
    ensures
        final(out)@ == old(out)@.add(placeholder()),
{
    out.push('[');
    out.push('R');
    out.push('E');
    out.push('D');
    out.push('A');
    out.push('C');
    out.push('T');
    out.push('E');
    out.push('D');
    out.push(']');
    assert(out@ =~= old(out)@.add(placeholder()));
}

/// Whether a key contains any pattern, case-insensitively.
#[verifier::loop_isolation(false)]
fn key_matches(patterns: &Vec<String>, key: &str) -> (r: bool)
    ensures
        r == key_names_secret(key@, pattern_views(patterns@)),
{
    let ghost pats = pattern_views(patterns@);
    let kc = crate::json::chars_of(key);
    let mut n: usize = 0;
    while n < patterns.len()
        invariant
            n <= patterns@.len(),
            kc@ == key@,
            forall|k: int|
                0 <= k < n ==> !((#[trigger] pats[k]).len() > 0 && contains_ci(key@, pats[k])),
        decreases patterns@.len() - n,
    {
        let p = crate::json::chars_of(patterns[n].as_str());
        if p.len() > 0 && p.len() <= kc.len() {
            let mut i: usize = 0;
            while i <= kc.len() - p.len()
                invariant
                    kc@ == key@,
                    i <= kc@.len(),
                    p@ == patterns@[n as int]@,
                    p@.len() > 0,
                    p@.len() <= kc@.len(),
                    forall|k: int| 0 <= k < i ==> !ci_match_at(key@, k, p@),
                decreases kc@.len() - i,
            {
                if ci_starts_at(&kc, i, &p) {
                    proof {
                        assert(pats[n as int] == p@);
                        assert(contains_ci(key@, pats[n as int]));
                    }
                    return true;
                }
                i = i + 1;
            }
            proof {
                assert forall|k: int| !ci_match_at(key@, k, p@) by {
                    if ci_match_at(key@, k, p@) {
                        assert(0 <= k && k + p@.len() <= key@.len());
                        assert(k < i);
                    }
                }
                assert(!contains_ci(key@, pats[n as int]));
            }
        } else if p.len() > kc.len() {
            proof {
                assert forall|k: int| !ci_match_at(key@, k, p@) by {}
                assert(!contains_ci(key@, pats[n as int]));
            }
        }
        n = n + 1;
    }
    proof {
        if key_names_secret(key@, pats) {
            let w = choose|k: int|
                0 <= k < pats.len() && pats[k].len() > 0 && contains_ci(key@, #[trigger] pats[k]);
            assert(!(pats[w].len() > 0 && contains_ci(key@, pats[w])));
        }
    }
    false
}

/// Rebuilds a document with every member under a secret-naming key
/// replaced by the placeholder.
#[verifier::loop_isolation(false)]
fn redact_json_with(patterns: &Vec<String>, v: &JsonValue) -> (r: JsonValue)
    ensures
        r@ == spec_redact_json(v@, pattern_views(patterns@)),
    decreases *v,
{
    let ghost pats = pattern_views(patterns@);
    match v {
        JsonValue::Obj(entries) => {
            let mut out: Vec<(String, JsonValue)> = Vec::new();
            let mut i: usize = 0;
            while i < entries.len()
                invariant
                    i <= entries@.len(),
                    out@.len() == i,
                    forall|k: int|
                        0 <= k < i ==> (#[trigger] out@[k]).0@ == entries@[k].0@ && out@[k].1@
                            == (if key_names_secret(entries@[k].0@, pats) {
                            Json::Str(placeholder())
                        } else {
                            spec_redact_json(entries@[k].1@, pats)
                        }),
                decreases entries@.len() - i,
            {
                let key = entries[i].0.clone();
                let value: JsonValue = if key_matches(patterns, key.as_str()) {
                    JsonValue::Str(placeholder_string())
                } else {
                    proof {
                        assert(decreases_to!(*v => (*v)->Obj_0));
                        assert((*v)->Obj_0 == *entries);
                        assert(decreases_to!(*entries => entries@));
                        assert(decreases_to!(entries@ => entries@[i as int]));
                        assert(decreases_to!(entries@[i as int] => entries@[i as int].1));
                    }
                    redact_json_with(patterns, &entries[i].1)
                };
                out.push((key, value));
                i = i + 1;
            }
            let r = JsonValue::Obj(out);
            proof {
                assert(entries_view(r->Obj_0@) =~= spec_redact_json(v@, pats)->Obj_0);
            }
            r
        },
        JsonValue::Arr(elems) => {
            let mut out: Vec<JsonValue> = Vec::new();
            let mut i: usize = 0;
            while i < elems.len()
                invariant
                    i <= elems@.len(),
                    out@.len() == i,
                    forall|k: int|
                        0 <= k < i ==> (#[trigger] out@[k])@ == spec_redact_json(
                            elems@[k]@,
                            pats,
                        ),
                decreases elems@.len() - i,
            {
                proof {
                    assert(decreases_to!(*v => (*v)->Arr_0));
                    assert((*v)->Arr_0 == *elems);
                    assert(decreases_to!(*elems => elems@));
                    assert(decreases_to!(elems@ => elems@[i as int]));
                }
                let value = redact_json_with(patterns, &elems[i]);
                out.push(value);
                i = i + 1;
            }
            let r = JsonValue::Arr(out);
            proof {
                assert(arr_view(r->Arr_0@) =~= spec_redact_json(v@, pats)->Arr_0);
            }
            r
        },
        _ => json_clone(v),
    }
}

/// The placeholder that stands in for a secret.
fn placeholder_string() -> (r: String)
    ensures
        r@ == placeholder(),
{
    proof {
        reveal_strlit("[REDACTED]");
        assert("[REDACTED]"@ =~= placeholder());
    }
    "[REDACTED]".to_owned()
}

impl Default for SecretRedactor {
    /// The built-in patterns, as `new` gives them.
    fn default() -> (r: SecretRedactor)
        ensures
            r.patterns@.len() == 11,
    {
        SecretRedactor::new()
    }
}

/// One key's sliding window: how many calls since the window opened,
/// when it opened, and the limit and width it was created with.
#[derive(Debug, Clone, Copy, PartialEq, Eq, Structural)]
pub struct RateLimitState {
    pub count: u32,
    pub window_start: u64,
    pub max_requests: u32,
    pub window_duration_ms: u64,
}

/// A rejected call: how long to wait and what the limit was.
#[derive(Debug, Clone, PartialEq, Eq, Structural)]
pub struct RateLimitError {
    pub retry_after_ms: u64,
    pub limit: u32,
}

/// The sliding-window rate limiter, keyed by subject-and-tool token.
#[derive(Debug)]
pub struct RateLimiter {
    pub limits: Vec<(String, RateLimitState)>,
}

/// The window stored under a key, first binding winning.
pub open spec fn spec_limit_at(
    limits: Seq<(String, RateLimitState)>,
    key: Seq<char>,
) -> Option<RateLimitState>
    decreases limits.len(),
{
    if limits.len() == 0 {
        None
    } else if limits[0].0@ == key {
        Some(limits[0].1)
    } else {
        spec_limit_at(limits.drop_first(), key)
    }
}

/// How long a window has been open at `now_ms`; a clock that went
/// backwards counts as no time passed.
pub open spec fn spec_elapsed(st: RateLimitState, now_ms: u64) -> int {
    if now_ms >= st.window_start {
        now_ms - st.window_start
    } else {
        0
    }
}

/// A key's first binding is found past any non-matching prefix.
proof fn lemma_limit_at_skip(limits: Seq<(String, RateLimitState)>, key: Seq<char>, i: int)
    requires
        0 <= i <= limits.len(),
        forall|k: int| 0 <= k < i ==> (#[trigger] limits[k]).0@ != key,
    ensures
        spec_limit_at(limits, key) == spec_limit_at(limits.skip(i), key),
    decreases i,
{
    if i > 0 {
        assert(limits[0].0@ != key);
        assert(limits.drop_first() =~= limits.skip(1));
        assert(spec_limit_at(limits, key) == spec_limit_at(limits.drop_first(), key));
        assert forall|k: int| 0 <= k < i - 1 implies (#[trigger] limits.skip(1)[k]).0@ != key by {
            assert(limits.skip(1)[k] == limits[k + 1]);
        }
        lemma_limit_at_skip(limits.skip(1), key, i - 1);
        assert(limits.skip(1).skip(i - 1) =~= limits.skip(i));
        assert(spec_limit_at(limits.skip(1), key) == spec_limit_at(limits.skip(i), key));
    } else {
        assert(limits.skip(0) =~= limits);
    }
}

impl RateLimiter {
    /// A limiter with no windows yet.
    pub fn new() -> (r: RateLimiter)
        ensures
            r.limits@.len() == 0,
    {
        RateLimiter { limits: Vec::new() }
    }

    /// Admits or rejects one call for `key` at `now_ms`. An unknown key
    /// opens a window with the given limit and width and is admitted; an
    /// expired window is reopened the same way. Within the window the
    /// call is admitted, counting one more, while the count is below the
    /// window's limit, and rejected — with the window's remaining time
    /// and its limit, everything untouched — once it is not. Other keys'
    /// windows are never touched.
    #[verifier::loop_isolation(false)]
    pub fn check_limit(&mut self, key: &str, max_requests: u32, window_duration_ms: u64, now_ms: u64) -> (r: Result<(), RateLimitError>)
        ensures
            forall|k: int|
                0 <= k < old(self).limits@.len() && (#[trigger] old(self).limits@[k]).0@ != key@
                    ==> final(self).limits@[k] == old(self).limits@[k],
            match spec_limit_at(old(self).limits@, key@) {
                None => r is Ok && final(self).limits@.len() == old(self).limits@.len() + 1
                    && spec_limit_at(final(self).limits@, key@) == Some(
                    RateLimitState {
                        count: 1,
                        window_start: now_ms,
                        max_requests,
                        window_duration_ms,
                    },
                ),
                Some(st) => {
                    &&& final(self).limits@.len() == old(self).limits@.len()
                    &&& (spec_elapsed(st, now_ms) >= st.window_duration_ms ==> (r is Ok
                        && spec_limit_at(final(self).limits@, key@) == Some(
                        RateLimitState {
                            count: 1,
                            window_start: now_ms,
                            max_requests,
                            window_duration_ms,
                        },
                    )))
                    &&& (spec_elapsed(st, now_ms) < st.window_duration_ms && st.count
                        < st.max_requests ==> (r is Ok && spec_limit_at(final(self).limits@, key@)
                        == Some(RateLimitState { count: (st.count + 1) as u32, ..st })))
                    &&& (spec_elapsed(st, now_ms) < st.window_duration_ms && st.count
                        >= st.max_requests ==> (r matches Err(e) && e.limit == st.max_requests
                        && e.retry_after_ms == st.window_duration_ms - spec_elapsed(st, now_ms)
                        && *final(self) == *old(self)))
                },
            },
    {
        let ghost limits0 = self.limits@;
        let mut i: usize = 0;
        while i < self.limits.len()
            invariant
                i <= self.limits@.len(),
                *self == *old(self),
                forall|k: int| 0 <= k < i ==> (#[trigger] self.limits@[k]).0@ != key@,
            decreases self.limits@.len() - i,
        {
            if crate::json::str_eq(self.limits[i].0.as_str(), key) {
                proof {
                    lemma_limit_at_skip(limits0, key@, i as int);
                    assert(limits0.skip(i as int)[0] == limits0[i as int]);
                    assert(spec_limit_at(limits0, key@) == Some(limits0[i as int].1));
                }
                let st = self.limits[i].1;
                let elapsed: u64 = if now_ms >= st.window_start {
                    now_ms - st.window_start
                } else {
                    0
                };
                let expired: bool = elapsed >= st.window_duration_ms;
                if expired {
                    let entry = self.limits.remove(i);
                    let fresh = RateLimitState {
                        count: 1,
                        window_start: now_ms,
                        max_requests,
                        window_duration_ms,
                    };
                    self.limits.insert(i, (entry.0, fresh));
                    proof {
                        limits0.remove_ensures(i as int);
                        limits0.remove(i as int).insert_ensures(
                            i as int,
                            self.limits@[i as int],
                        );
                        assert forall|k: int|
                            0 <= k < limits0.len() && k != i as int implies #[trigger] self.limits@[k]
                            == limits0[k] by {
                            if k < i as int {
                                assert(limits0.remove(i as int)[k] == limits0[k]);
                            } else {
                                assert(limits0.remove(i as int)[k - 1] == limits0[k]);
                            }
                        }
                        lemma_after_update(limits0, self.limits@, key@, i as int);
                    }
                    return Ok(());
                }
                if st.count >= st.max_requests {
                    return Err(
                        RateLimitError {
                            retry_after_ms: st.window_duration_ms - elapsed,
                            limit: st.max_requests,
                        },
                    );
                }
                let entry = self.limits.remove(i);
                let bumped = RateLimitState { count: st.count + 1, ..st };
                self.limits.insert(i, (entry.0, bumped));
                proof {
                    limits0.remove_ensures(i as int);
                    limits0.remove(i as int).insert_ensures(i as int, self.limits@[i as int]);
                    assert forall|k: int|
                        0 <= k < limits0.len() && k != i as int implies #[trigger] self.limits@[k]
                        == limits0[k] by {
                        if k < i as int {
                            assert(limits0.remove(i as int)[k] == limits0[k]);
                        } else {
                            assert(limits0.remove(i as int)[k - 1] == limits0[k]);
                        }
                    }
                    lemma_after_update(limits0, self.limits@, key@, i as int);
                }
                return Ok(());
            }
            i = i + 1;
        }
        proof {
            lemma_limit_at_skip(limits0, key@, limits0.len() as int);
            assert(limits0.skip(limits0.len() as int).len() == 0);
        }
        let fresh = RateLimitState { count: 1, window_start: now_ms, max_requests, window_duration_ms };
        self.limits.push((key.to_owned(), fresh));
        proof {
            assert forall|k: int| 0 <= k < limits0.len() implies #[trigger] self.limits@[k]
                == limits0[k] by {}
            lemma_limit_at_skip(self.limits@, key@, limits0.len() as int);
            assert(self.limits@.skip(limits0.len() as int) =~= seq![
                self.limits@.last(),
            ]);
            assert(self.limits@.last().0@ == key@);
        }
        Ok(())
    }
}

/// After replacing the first matching entry, the lookup finds the new
/// window and other positions are untouched.
proof fn lemma_after_update(
    limits0: Seq<(String, RateLimitState)>,
    limits1: Seq<(String, RateLimitState)>,
    key: Seq<char>,
    i: int,
)
    requires
        0 <= i < limits0.len(),
        limits1.len() == limits0.len(),
        limits0[i].0@ == key,
        limits1[i].0 == limits0[i].0,
        forall|k: int| 0 <= k < i ==> (#[trigger] limits0[k]).0@ != key,
        forall|k: int| 0 <= k < limits0.len() && k != i ==> #[trigger] limits1[k] == limits0[k],
    ensures
        spec_limit_at(limits1, key) == Some(limits1[i].1),
        forall|k: int|
            0 <= k < limits0.len() && (#[trigger] limits0[k]).0@ != key ==> limits1[k]
                == limits0[k],
{
    assert forall|k: int| 0 <= k < i implies (#[trigger] limits1[k]).0@ != key by {
        assert(limits1[k] == limits0[k]);
    }
    lemma_limit_at_skip(limits1, key, i);
    assert(limits1.skip(i)[0] == limits1[i]);
    assert(limits1[i].0@ == key);
}

impl Default for RateLimiter {
    /// A limiter with no windows, as `new` gives it.
    fn default() -> (r: RateLimiter)
        ensures
            r.limits@.len() == 0,
    {
        RateLimiter::new()
    }
}

} // verus!
