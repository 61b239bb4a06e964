//! The client side of a session: outbound request correlation.
//!
//! The client allocates monotonically increasing integer ids, keeps a
//! pending entry per in-flight request, matches inbound responses to
//! pending entries, and drains every entry when the peer closes. The
//! transport itself and the one-shot delivery slots live outside; this
//! core decides, for each event, which awaiter (if any) is resolved.

use vstd::prelude::*;

use crate::capabilities::ClientCapabilities;
use crate::framing::spec_trim;
use crate::framing::ws_back_start;
use crate::framing::ws_run_end;
use crate::messages::GetPromptResult;
use crate::types::Content;
use crate::types::PromptMessage;
use crate::types::PromptRole;
use crate::capabilities::ServerCapabilities;
use crate::json::JsonValue;
use crate::json::str_eq;
use crate::rpc::IdView;
use crate::rpc::JsonRpcNotification;
use crate::rpc::JsonRpcRequest;
use crate::rpc::JsonRpcResponse;
use crate::rpc::JsonRpcVersion2_0;
use crate::rpc::RequestId;
use crate::types::Implementation;

verus! {

/// The client peer core: the outbound id counter, the pending-request
/// table, what the server said at initialize, and the lifecycle flags.
#[derive(Debug)]
pub struct Client {
    pub request_counter: u64,
    pub pending_requests: Vec<RequestId>,
    pub client_info: Implementation,
    pub capabilities: ClientCapabilities,
    pub server_capabilities: Option<ServerCapabilities>,
    pub server_info: Option<Implementation>,
    pub initialized: bool,
    pub closed: bool,
}

impl Client {
    /// The table invariant: every pending id is an integer below the
    /// counter, and no id occurs twice.
    pub open spec fn wf(&self) -> bool {
        &&& self.request_counter >= 1
        &&& self.request_counter <= 0x7fff_ffff_ffff_ffff
        &&& forall|k: int|
            0 <= k < self.pending_requests@.len() ==> ((
            #[trigger] self.pending_requests@[k])@ matches IdView::Num(n) && 1 <= n
                < self.request_counter)
        &&& forall|k1: int, k2: int|
            0 <= k1 < self.pending_requests@.len() && 0 <= k2 < self.pending_requests@.len() && k1
                != k2 ==> (#[trigger] self.pending_requests@[k1])@ != (
            #[trigger] self.pending_requests@[k2])@
    }

    /// A fresh client peer: counter at one, nothing pending, not yet
    /// initialized, not closed.
    pub fn new(client_info: Implementation, capabilities: ClientCapabilities) -> (r: Client)
        ensures
            r.wf(),
            r.request_counter == 1,
            r.pending_requests@.len() == 0,
            r.client_info == client_info,
            r.capabilities == capabilities,
            r.server_capabilities is None,
            r.server_info is None,
            !r.initialized,
            !r.closed,
    {
        Client {
            request_counter: 1,
            pending_requests: Vec::new(),
            client_info,
            capabilities,
            server_capabilities: None,
            server_info: None,
            initialized: false,
            closed: false,
        }
    }

    /// Allocates the next request id, records it pending, and builds the
    /// request to send. The id is the old counter value: fresh, above
    /// every id ever allocated before, and never equal to a pending one.
    pub fn start_request(&mut self, method: &str, params: Option<JsonValue>) -> (r: JsonRpcRequest)
        requires
            old(self).wf(),
            old(self).request_counter < 0x7fff_ffff_ffff_ffff,
        ensures
            final(self).wf(),
            r@.id == IdView::Num(old(self).request_counter as int),
            r@.method == method@,
            r@.params == match params {
                Some(p) => Some(p@),
                None => None::<crate::json::Json>,
            },
            final(self).request_counter == old(self).request_counter + 1,
            final(self).pending_requests@.len() == old(self).pending_requests@.len() + 1,
            forall|k: int|
                0 <= k < old(self).pending_requests@.len() ==> final(self).pending_requests@[k]
                    == old(self).pending_requests@[k],
            final(self).pending_requests@.last()@ == r@.id,
            forall|k: int|
                0 <= k < old(self).pending_requests@.len() ==> (#[trigger] old(
                    self,
                ).pending_requests@[k])@ != r@.id,
            final(self).client_info == old(self).client_info,
            final(self).capabilities == old(self).capabilities,
            final(self).initialized == old(self).initialized,
            final(self).closed == old(self).closed,
            final(self).server_capabilities == old(self).server_capabilities,
            final(self).server_info == old(self).server_info,
    {
        let n: u64 = self.request_counter;
        self.request_counter = n + 1;
        let id = RequestId::Number(n as i64);
        self.pending_requests.push(id.clone());
        JsonRpcRequest { jsonrpc: JsonRpcVersion2_0, id, method: method.to_owned(), params }
    }

    /// Matches an inbound response against the pending table. A matching
    /// entry is removed — exactly one exists — and the response is handed
    /// back for delivery to its awaiter. A response whose id matches no
    /// pending entry changes nothing and is handed back as unknown, to be
    /// warned about and discarded.
    #[verifier::loop_isolation(false)]
    pub fn handle_response(&mut self, response: JsonRpcResponse) -> (r: ResponseDisposition)
        requires
            old(self).wf(),
        ensures
            final(self).wf(),
            match r {
                ResponseDisposition::Deliver(resp) => {
                    &&& resp@ == response@
                    &&& exists|k: int|
                        0 <= k < old(self).pending_requests@.len() && (#[trigger] old(
                            self,
                        ).pending_requests@[k])@ == response@.id && final(self).pending_requests@
                            == old(self).pending_requests@.remove(k)
                },
                ResponseDisposition::UnknownId(resp) => {
                    &&& resp@ == response@
                    &&& *final(self) == *old(self)
                    &&& forall|k: int|
                        0 <= k < old(self).pending_requests@.len() ==> (#[trigger] old(
                            self,
                        ).pending_requests@[k])@ != response@.id
                },
            },
            final(self).request_counter == old(self).request_counter,
            final(self).closed == old(self).closed,
            final(self).initialized == old(self).initialized,
    {
        let mut i: usize = 0;
        while i < self.pending_requests.len()
            invariant
                i <= self.pending_requests@.len(),
                *self == *old(self),
                forall|k: int|
                    0 <= k < i ==> (#[trigger] self.pending_requests@[k])@ != response.id@,
            decreases self.pending_requests@.len() - i,
        {
            if self.pending_requests[i].eq(&response.id) {
                self.pending_requests.remove(i);
                proof {
                    let oldseq = old(self).pending_requests@;
                    let newseq = self.pending_requests@;
                    oldseq.remove_ensures(i as int);
                    assert forall|k: int| 0 <= k < newseq.len() implies ((
                    #[trigger] newseq[k])@ matches IdView::Num(nn) && 1 <= nn
                        < self.request_counter) by {
                        if k < i as int {
                            assert(newseq[k] == oldseq[k]);
                        } else {
                            assert(newseq[k] == oldseq[k + 1]);
                        }
                    }
                    assert forall|k1: int, k2: int|
                        0 <= k1 < newseq.len() && 0 <= k2 < newseq.len() && k1 != k2 implies (
                    #[trigger] newseq[k1])@ != (#[trigger] newseq[k2])@ by {
                        let o1: int = if k1 < i as int {
                            k1
                        } else {
                            k1 + 1
                        };
                        let o2: int = if k2 < i as int {
                            k2
                        } else {
                            k2 + 1
                        };
                        assert(newseq[k1] == oldseq[o1]);
                        assert(newseq[k2] == oldseq[o2]);
                    }
                }
                return ResponseDisposition::Deliver(response);
            }
            i = i + 1;
        }
        ResponseDisposition::UnknownId(response)
    }

    /// Closes the peer: every pending entry is drained, in order, for its
    /// awaiter to be resolved with a connection-closed error. Afterwards
    /// nothing is pending, so no awaiter is left dangling.
    pub fn close(&mut self) -> (drained: Vec<RequestId>)
        requires
            old(self).wf(),
        ensures
            final(self).wf(),
            final(self).closed,
            final(self).pending_requests@.len() == 0,
            drained@ == old(self).pending_requests@,
            final(self).request_counter == old(self).request_counter,
    {
        self.closed = true;
        let mut drained: Vec<RequestId> = Vec::new();
        core::mem::swap(&mut drained, &mut self.pending_requests);
        drained
    }

    /// Records what the server said at initialize.
    pub fn complete_initialize(
        &mut self,
        server_capabilities: ServerCapabilities,
        server_info: Implementation,
    )
        requires
            old(self).wf(),
        ensures
            final(self).wf(),
            final(self).initialized,
            final(self).server_capabilities == Some(server_capabilities),
            final(self).server_info == Some(server_info),
            final(self).pending_requests == old(self).pending_requests,
            final(self).request_counter == old(self).request_counter,
            final(self).closed == old(self).closed,
    {
        self.server_capabilities = Some(server_capabilities);
        self.server_info = Some(server_info);
        self.initialized = true;
    }

    /// True once the initialize handshake completed.
    pub fn is_initialized(&self) -> (r: bool)
        ensures
            r == self.initialized,
    {
        self.initialized
    }

    /// True once the peer closed.
    pub fn is_closed(&self) -> (r: bool)
        ensures
            r == self.closed,
    {
        self.closed
    }

    /// How many requests are in flight.
    pub fn pending_count(&self) -> (r: usize)
        ensures
            r == self.pending_requests@.len(),
    {
        self.pending_requests.len()
    }
}

/// What the inbound loop does with one response.
#[derive(Debug)]
pub enum ResponseDisposition {
    /// The response matched a pending request: deliver it to the awaiter.
    Deliver(JsonRpcResponse),
    /// The id matches nothing pending: warn and discard.
    UnknownId(JsonRpcResponse),
}

/// Outbound request ids are monotonically increasing and never reused
/// while the peer lives: the id allocated next is strictly greater than
/// every integer id still pending, and so differs from every one of them
/// and from every id allocated earlier.
pub proof fn lemma_next_id_fresh(c: Client)
    requires
        c.wf(),
    ensures
        forall|k: int|
            0 <= k < c.pending_requests@.len() ==> ((#[trigger] c.pending_requests@[k])@ matches
                IdView::Num(n) && n < c.request_counter),
        forall|k: int|
            0 <= k < c.pending_requests@.len() ==> (#[trigger] c.pending_requests@[k])@
                != IdView::Num(c.request_counter as int),
{
}

/// Every pending entry is matched by at most one table slot: a response
/// id resolves exactly one awaiter.
pub proof fn lemma_pending_unique(c: Client, k1: int, k2: int)
    requires
        c.wf(),
        0 <= k1 < c.pending_requests@.len(),
        0 <= k2 < c.pending_requests@.len(),
        c.pending_requests@[k1]@ == c.pending_requests@[k2]@,
    ensures
        k1 == k2,
{
}

/// The hook table for inbound notifications: which builtin a method
/// names.
#[derive(Debug, Clone, Copy, PartialEq, Eq, Structural)]
pub enum NotificationKind {
    Initialized,
    Progress,
    LogMessage,
    ToolsListChanged,
    ResourcesListChanged,
    PromptsListChanged,
    ResourceUpdated,
    Cancelled,
    Unknown,
}

/// Classifies an inbound notification by its method name; unknown
/// methods are logged at debug and otherwise ignored.
pub fn classify_notification(n: &JsonRpcNotification) -> (r: NotificationKind)
    ensures
        r == NotificationKind::Initialized <==> n@.method == "notifications/initialized"@,
        r == NotificationKind::Progress <==> n@.method == "notifications/progress"@,
        r == NotificationKind::LogMessage <==> n@.method == "notifications/message"@,
        r == NotificationKind::ToolsListChanged <==> n@.method == "notifications/tools/list_changed"@,
        r == NotificationKind::ResourcesListChanged <==> n@.method
            == "notifications/resources/list_changed"@,
        r == NotificationKind::PromptsListChanged <==> n@.method
            == "notifications/prompts/list_changed"@,
        r == NotificationKind::ResourceUpdated <==> n@.method == "notifications/resources/updated"@,
        r == NotificationKind::Cancelled <==> n@.method == "notifications/cancelled"@,
{
    proof {
        reveal_strlit("notifications/initialized");
        reveal_strlit("notifications/progress");
        reveal_strlit("notifications/message");
        reveal_strlit("notifications/tools/list_changed");
        reveal_strlit("notifications/resources/list_changed");
        reveal_strlit("notifications/prompts/list_changed");
        reveal_strlit("notifications/resources/updated");
        reveal_strlit("notifications/cancelled");
        assert("notifications/initialized"@.len() == 25);
        assert("notifications/progress"@.len() == 22);
        assert("notifications/message"@.len() == 21);
        assert("notifications/tools/list_changed"@.len() == 32);
        assert("notifications/resources/list_changed"@.len() == 36);
        assert("notifications/prompts/list_changed"@.len() == 34);
        assert("notifications/resources/updated"@.len() == 31);
        assert("notifications/cancelled"@.len() == 23);
    }
    let m = n.method.as_str();
    if str_eq(m, "notifications/initialized") {
        NotificationKind::Initialized
    } else if str_eq(m, "notifications/progress") {
        NotificationKind::Progress
    } else if str_eq(m, "notifications/message") {
        NotificationKind::LogMessage
    } else if str_eq(m, "notifications/tools/list_changed") {
        NotificationKind::ToolsListChanged
    } else if str_eq(m, "notifications/resources/list_changed") {
        NotificationKind::ResourcesListChanged
    } else if str_eq(m, "notifications/prompts/list_changed") {
        NotificationKind::PromptsListChanged
    } else if str_eq(m, "notifications/resources/updated") {
        NotificationKind::ResourceUpdated
    } else if str_eq(m, "notifications/cancelled") {
        NotificationKind::Cancelled
    } else {
        NotificationKind::Unknown
    }
}

/// The markdown lead-in of one role.
pub open spec fn spec_role_prefix(role: PromptRole) -> Seq<char> {
    match role {
        PromptRole::System => "**System**: "@,
        PromptRole::User => "**User**: "@,
        PromptRole::Assistant => "**Assistant**: "@,
    }
}

/// The markdown text of one piece of content, newline-terminated.
pub open spec fn spec_content_block(c: Content) -> Seq<char> {
    match c {
        Content::Text { text } => text@.push('\n'),
        Content::Image { data: _, mime_type: _ } => "[Image content]"@.push('\n'),
        Content::Resource { resource_uri, text, mime_type: _ } => match text {
            Some(t) => t@.push('\n'),
            None => "[Resource: "@.add(resource_uri@).push(']').push('\n'),
        },
    }
}

/// The markdown of the first `n` messages, each its role lead-in, its
/// content, and a blank line.
pub open spec fn spec_message_blocks(messages: Seq<PromptMessage>, n: int) -> Seq<char>
    decreases n,
{
    if n <= 0 || n > messages.len() {
        Seq::<char>::empty()
    } else {
        spec_message_blocks(messages, n - 1).add(spec_role_prefix(messages[n - 1].role)).add(
            spec_content_block(messages[n - 1].content),
        ).push('\n')
    }
}

/// The markdown of a whole prompt result before trimming: the
/// description as a heading when there is one, then the messages.
pub open spec fn spec_markdown(result: GetPromptResult) -> Seq<char> {
    let header = match result.description {
        Some(d) => "# "@.add(d@).push('\n').push('\n'),
        None => Seq::<char>::empty(),
    };
    header.add(spec_message_blocks(result.messages@, result.messages@.len() as int))
}

/// Renders a prompt result as markdown: the description as a heading,
/// each message under its role lead-in, and the whole trimmed of
/// surrounding whitespace.
#[verifier::loop_isolation(false)]
#[verifier::rlimit(100)]
pub fn render_messages(result: &GetPromptResult) -> (r: String)
    ensures
        r@ == spec_trim(spec_markdown(*result)),
{
    let mut out: Vec<char> = Vec::new();
    match &result.description {
        Some(d) => {
            push_str_chars(&mut out, "# ");
            push_str_chars(&mut out, d.as_str());
            out.push('\n');
            out.push('\n');
        },
        None => {},
    }
    let ghost header = out@;
    proof {
        assert(out@ =~= header.add(spec_message_blocks(result.messages@, 0)));
    }
    let mut i: usize = 0;
    while i < result.messages.len()
        invariant
            i <= result.messages@.len(),
            out@ == header.add(spec_message_blocks(result.messages@, i as int)),
        decreases result.messages@.len() - i,
    {
        match result.messages[i].role {
            PromptRole::System => push_str_chars(&mut out, "**System**: "),
            PromptRole::User => push_str_chars(&mut out, "**User**: "),
            PromptRole::Assistant => push_str_chars(&mut out, "**Assistant**: "),
        }
        match &result.messages[i].content {
            Content::Text { text } => {
                push_str_chars(&mut out, text.as_str());
                out.push('\n');
            },
            Content::Image { data: _, mime_type: _ } => {
                push_str_chars(&mut out, "[Image content]");
                out.push('\n');
            },
            Content::Resource { resource_uri, text, mime_type: _ } => {
                match text {
                    Some(t) => {
                        push_str_chars(&mut out, t.as_str());
                    },
                    None => {
                        push_str_chars(&mut out, "[Resource: ");
                        push_str_chars(&mut out, resource_uri.as_str());
                        out.push(']');
                    },
                }
                out.push('\n');
            },
        }
        out.push('\n');
        i = i + 1;
        proof {
            assert(out@ =~= header.add(spec_message_blocks(result.messages@, i as int)));
        }
    }
    let ghost whole = spec_markdown(*result);
    proof {
        assert(out@ =~= whole);
    }
    let mut start: usize = 0;
    let n = out.len();
    while start < n && crate::parse::ws_char(out[start])
        invariant
            0 <= start <= n,
            n == out@.len(),
            out@ == whole,
            ws_run_end(whole, 0) == ws_run_end(whole, start as int),
        decreases n - start,
    {
        start = start + 1;
    }
    assert(ws_run_end(whole, start as int) == start as int);
    let mut end: usize = n;
    while end > start && crate::parse::ws_char(out[end - 1])
        invariant
            start <= end <= n,
            out@ == whole,
            ws_back_start(whole, n as int) == ws_back_start(whole, end as int),
        decreases end,
    {
        end = end - 1;
    }
    if start >= end {
        proof {
            crate::framing::lemma_ws_back_at_least(whole, end as int, start as int);
        }
        let empty: Vec<char> = Vec::new();
        return crate::json::string_of(&empty);
    }
    assert(ws_back_start(whole, end as int) == end as int);
    let mut trimmed: Vec<char> = Vec::new();
    let mut k: usize = start;
    while k < end
        invariant
            start <= k <= end <= n,
            n == out@.len(),
            out@ == whole,
            trimmed@ == whole.subrange(start as int, k as int),
        decreases end - k,
    {
        trimmed.push(out[k]);
        k = k + 1;
        proof {
            assert(trimmed@ =~= whole.subrange(start as int, k as int));
        }
    }
    crate::json::string_of(&trimmed)
}

/// Appends a string's characters.
#[verifier::loop_isolation(false)]
fn push_str_chars(out: &mut Vec<char>, s: &str)
    ensures
        final(out)@ == old(out)@.add(s@),
{
    let cs = crate::json::chars_of(s);
    let mut i: usize = 0;
    while i < cs.len()
        invariant
            i <= cs@.len(),
            cs@ == s@,
            out@ == old(out)@.add(s@.subrange(0, i as int)),
        decreases cs@.len() - i,
    {
        out.push(cs[i]);
        i = i + 1;
        proof {
            assert(out@ =~= old(out)@.add(s@.subrange(0, i as int)));
        }
    }
    proof {
        assert(out@ =~= old(out)@.add(s@));
    }
}

} // verus!
