//! The resource registry: provider storage, reads, sorted listing and
//! subscription bookkeeping.
//!
//! Several providers may be registered; a read tries them in insertion
//! order and the first that does not fail wins. A read every provider
//! declines is `ResourceNotFound` — never an internal error. Subscription
//! state is a map from URI to the set of subscriber ids; an empty set and
//! a missing entry are the same thing, and a provider is told about a URI
//! exactly on the first add and the last remove.

use vstd::prelude::*;

use crate::json::str_eq;
use crate::messages::ResourceContents;
use crate::rpc::McpError;
use crate::types::Resource;
use crate::types::ResourceTemplate;

verus! {

/// A resource provider: lists what it serves and reads by URI.
/// Subscription support is optional; a provider that has none declines.
pub trait ResourceProvider {
    /// The resources this provider serves.
    fn list_resources(&self) -> Result<Vec<Resource>, McpError>;

    /// Reads the resource at a URI; failure means "not mine".
    fn read_resource(&self, uri: String) -> Result<Vec<ResourceContents>, McpError>;

    /// The templates this provider serves.
    fn list_resource_templates(&self) -> Result<Vec<ResourceTemplate>, McpError>;

    /// Starts watching a URI; failure means subscriptions are not
    /// supported or the URI is not this provider's.
    fn subscribe(&self, uri: String) -> Result<(), McpError>;

    /// Stops watching a URI.
    fn unsubscribe(&self, uri: String) -> Result<(), McpError>;
}

/// One subscription entry: a URI, the ids subscribed to it, and which
/// provider accepted the watch — the one told when the set empties.
pub struct SubscriptionEntry {
    pub uri: String,
    pub subscribers: Vec<String>,
    pub provider_index: usize,
}

/// One registered provider.
pub struct ProviderSlot {
    pub provider: Box<dyn ResourceProvider>,
}

/// The server-side resource registry.
pub struct ResourceRegistry {
    pub providers: Vec<ProviderSlot>,
    pub subscriptions: Vec<SubscriptionEntry>,
}

/// Appends one provider slot.
fn push_slot(v: &mut Vec<ProviderSlot>, x: ProviderSlot)
    ensures
        final(v)@.len() == old(v)@.len() + 1,
{
    v.push(x);
}

impl ResourceRegistry {
    /// The subscription invariant: URIs are distinct, no entry's set is
    /// empty, and no set holds an id twice.
    pub open spec fn wf(&self) -> bool {
        &&& forall|i: int, j: int|
            0 <= i < j < self.subscriptions@.len() ==> (#[trigger] self.subscriptions@[i]).uri@
                != (#[trigger] self.subscriptions@[j]).uri@
        &&& forall|i: int|
            0 <= i < self.subscriptions@.len() ==> (
            #[trigger] self.subscriptions@[i]).subscribers@.len() > 0
        &&& forall|i: int, a: int, b: int|
            0 <= i < self.subscriptions@.len() && 0 <= a < b
                < self.subscriptions@[i].subscribers@.len() ==> (
            #[trigger] self.subscriptions@[i].subscribers@[a])@ != (
            #[trigger] self.subscriptions@[i].subscribers@[b])@
    }

    /// Whether some entry watches this URI.
    pub open spec fn spec_has_subscription(&self, uri: Seq<char>) -> bool {
        exists|i: int|
            0 <= i < self.subscriptions@.len() && (#[trigger] self.subscriptions@[i]).uri@ == uri
    }

    /// Whether this subscriber watches this URI.
    pub open spec fn spec_is_subscribed(&self, uri: Seq<char>, sub: Seq<char>) -> bool {
        exists|i: int, a: int|
            0 <= i < self.subscriptions@.len() && (#[trigger] self.subscriptions@[i]).uri@ == uri
                && 0 <= a < self.subscriptions@[i].subscribers@.len() && (
            #[trigger] self.subscriptions@[i].subscribers@[a])@ == sub
    }

    /// An empty registry.
    pub fn new() -> (r: ResourceRegistry)
        ensures
            r.wf(),
            r.providers@.len() == 0,
            r.subscriptions@.len() == 0,
    {
        ResourceRegistry { providers: Vec::new(), subscriptions: Vec::new() }
    }

    /// Adds a provider after every provider already registered.
    pub fn register(&mut self, provider: Box<dyn ResourceProvider>)
        ensures
            final(self).providers@.len() == old(self).providers@.len() + 1,
            final(self).subscriptions == old(self).subscriptions,
    {
        let slot = ProviderSlot { provider };
        push_slot(&mut self.providers, slot);
    }

    /// How many providers are registered.
    pub fn provider_count(&self) -> (r: usize)
        ensures
            r == self.providers@.len(),
    {
        self.providers.len()
    }

    /// Reads a resource: providers are tried in insertion order, the
    /// scan stops at the first that does not fail, and that answer wins;
    /// when every provider declines, the read fails with
    /// `ResourceNotFound`.
    #[verifier::loop_isolation(false)]
    pub fn read_resource(&self, uri: &str) -> (r: Result<Vec<ResourceContents>, McpError>)
        ensures
            r matches Err(e) ==> e@.code == crate::rpc::ErrorCode::Standard(
                crate::rpc::StandardErrorCode::ResourceNotFound,
            ),
    {
        let mut outcomes: Vec<Option<Vec<ResourceContents>>> = Vec::new();
        let mut i: usize = 0;
        let mut done: bool = false;
        while i < self.providers.len() && !done
            decreases self.providers@.len() - i,
        {
            match self.providers[i].provider.read_resource(uri.to_owned()) {
                Ok(contents) => {
                    outcomes.push(Some(contents));
                    done = true;
                },
                Err(_) => {
                    outcomes.push(None);
                },
            }
            i = i + 1;
        }
        resolve_read(uri, outcomes)
    }

    /// Whether some entry watches this URI.
    #[verifier::loop_isolation(false)]
    pub fn has_subscription(&self, uri: &str) -> (r: bool)
        ensures
            r == self.spec_has_subscription(uri@),
    {
        let mut i: usize = 0;
        while i < self.subscriptions.len()
            invariant
                i <= self.subscriptions@.len(),
                forall|k: int|
                    0 <= k < i ==> (#[trigger] self.subscriptions@[k]).uri@ != uri@,
            decreases self.subscriptions@.len() - i,
        {
            if str_eq(self.subscriptions[i].uri.as_str(), uri) {
                return true;
            }
            i = i + 1;
        }
        false
    }

    /// Subscribes a subscriber to a URI. On the first add for the URI
    /// the providers are asked in insertion order and the first that
    /// accepts becomes the owner; when none accepts, nothing is recorded
    /// and the subscription fails. Later adds for a URI already watched
    /// only join its set, without asking any provider again.
    #[verifier::loop_isolation(false)]
    pub fn subscribe(&mut self, uri: &str, subscriber_id: &str) -> (r: Result<(), McpError>)
        requires
            old(self).wf(),
        ensures
            final(self).wf(),
            r is Ok ==> final(self).spec_is_subscribed(uri@, subscriber_id@),
            r is Err ==> *final(self) == *old(self),
            old(self).spec_has_subscription(uri@) ==> r is Ok,
            r matches Err(e) ==> e@.code == crate::rpc::ErrorCode::Standard(
                crate::rpc::StandardErrorCode::InternalError,
            ),
    {
        let watched: bool = self.has_subscription(uri);
        let mut owner: usize = 0;
        if !watched {
            let mut accepted: bool = false;
            let mut i: usize = 0;
            while i < self.providers.len() && !accepted
                invariant
                    i <= self.providers@.len(),
                    *self == *old(self),
                decreases self.providers@.len() - i,
            {
                match self.providers[i].provider.subscribe(uri.to_owned()) {
                    Ok(()) => {
                        accepted = true;
                        owner = i;
                    },
                    Err(_) => {},
                }
                i = i + 1;
            }
            if !accepted {
                return Err(
                    McpError::internal_error("no provider supports subscriptions for this resource"),
                );
            }
        }
        let _first = self.note_subscribe(uri, subscriber_id, owner);
        Ok(())
    }

    /// Unsubscribes a subscriber from a URI: always succeeds, and a
    /// second unsubscribe is a no-op. When the removal empties the set,
    /// the provider that owned the watch — and only that one — is told
    /// to stop watching, its refusal ignored.
    #[verifier::loop_isolation(false)]
    pub fn unsubscribe(&mut self, uri: &str, subscriber_id: &str) -> (r: Result<(), McpError>)
        requires
            old(self).wf(),
        ensures
            final(self).wf(),
            r is Ok,
            !final(self).spec_is_subscribed(uri@, subscriber_id@),
    {
        let mut owner_idx: usize = 0;
        let mut owner_found: bool = false;
        let mut j: usize = 0;
        while j < self.subscriptions.len()
            invariant
                j <= self.subscriptions@.len(),
                *self == *old(self),
            decreases self.subscriptions@.len() - j,
        {
            if !owner_found && str_eq(self.subscriptions[j].uri.as_str(), uri) {
                owner_found = true;
                owner_idx = self.subscriptions[j].provider_index;
            }
            j = j + 1;
        }
        let last = self.note_unsubscribe(uri, subscriber_id);
        if last && owner_found {
            if owner_idx < self.providers.len() {
                match self.providers[owner_idx].provider.unsubscribe(uri.to_owned()) {
                    Ok(()) => {},
                    Err(_) => {},
                }
            }
        }
        Ok(())
    }

    /// Adds a subscriber to a URI's set, creating the entry on first
    /// add and recording which provider owns the watch. Hands back
    /// `true` exactly when this was the first add, the moment the owning
    /// provider's own `subscribe` is due; adding an id already present
    /// changes nothing.
    #[verifier::loop_isolation(false)]
    pub fn note_subscribe(&mut self, uri: &str, subscriber_id: &str, provider_index: usize) -> (
        first: bool)
        requires
            old(self).wf(),
        ensures
            final(self).wf(),
            final(self).providers@ == old(self).providers@,
            first == !old(self).spec_has_subscription(uri@),
            final(self).spec_is_subscribed(uri@, subscriber_id@),
            old(self).spec_is_subscribed(uri@, subscriber_id@) ==> *final(self) == *old(self),
            first ==> exists|k: int|
                0 <= k < final(self).subscriptions@.len() && ((
                #[trigger] final(self).subscriptions@[k]).uri@ == uri@ && final(self)
                    .subscriptions@[k].provider_index == provider_index),
    {
        let mut i: usize = 0;
        while i < self.subscriptions.len()
            invariant
                i <= self.subscriptions@.len(),
                *self == *old(self),
                forall|k: int|
                    0 <= k < i ==> (#[trigger] self.subscriptions@[k]).uri@ != uri@,
            decreases self.subscriptions@.len() - i,
        {
            if str_eq(self.subscriptions[i].uri.as_str(), uri) {
                let mut a: usize = 0;
                let n = self.subscriptions[i].subscribers.len();
                while a < n
                    invariant
                        a <= n,
                        n == self.subscriptions@[i as int].subscribers@.len(),
                        i < self.subscriptions@.len(),
                        *self == *old(self),
                        self.subscriptions@[i as int].uri@ == uri@,
                        forall|k: int|
                            0 <= k < a ==> (
                            #[trigger] self.subscriptions@[i as int].subscribers@[k])@
                                != subscriber_id@,
                    decreases n - a,
                {
                    if str_eq(self.subscriptions[i].subscribers[a].as_str(), subscriber_id) {
                        proof {
                            assert(self.spec_is_subscribed(uri@, subscriber_id@)) by {
                                assert((self.subscriptions@[i as int]).uri@ == uri@ && (
                                self.subscriptions@[i as int].subscribers@[a as int])@
                                    == subscriber_id@);
                            }
                        }
                        return false;
                    }
                    a = a + 1;
                }
                let mut entry = self.subscriptions.remove(i);
                entry.subscribers.push(subscriber_id.to_owned());
                self.subscriptions.insert(i, entry);
                proof {
                    old(self).subscriptions@.remove_ensures(i as int);
                    old(self).subscriptions@.remove(i as int).insert_ensures(
                        i as int,
                        self.subscriptions@[i as int],
                    );
                    assert forall|k: int|
                        0 <= k < self.subscriptions@.len() && k != i as int implies #[trigger] self.subscriptions@[k]
                        == old(self).subscriptions@[k] by {
                        if k < i as int {
                            assert(old(self).subscriptions@.remove(i as int)[k] == old(
                                self,
                            ).subscriptions@[k]);
                        } else {
                            assert(old(self).subscriptions@.remove(i as int)[k - 1] == old(
                                self,
                            ).subscriptions@[k]);
                        }
                    }
                    let newsubs = self.subscriptions@[i as int].subscribers@;
                    let oldsubs = old(self).subscriptions@[i as int].subscribers@;
                    assert(newsubs =~= oldsubs.push(newsubs.last()));
                    assert(newsubs.last()@ == subscriber_id@);
                    assert forall|a2: int, b2: int|
                        0 <= a2 < b2 < newsubs.len() implies (#[trigger] newsubs[a2])@ != (
                        #[trigger] newsubs[b2])@ by {
                        if b2 == newsubs.len() - 1 {
                            assert(newsubs[a2] == oldsubs[a2]);
                        } else {
                            assert(newsubs[a2] == oldsubs[a2]);
                            assert(newsubs[b2] == oldsubs[b2]);
                        }
                    }
                    let wi: int = i as int;
                    let wa: int = self.subscriptions@[wi].subscribers@.len() - 1;
                    assert((self.subscriptions@[wi]).uri@ == uri@ && (
                    self.subscriptions@[wi].subscribers@[wa])@ == subscriber_id@);
                }
                return false;
            }
            i = i + 1;
        }
        let mut subscribers: Vec<String> = Vec::new();
        subscribers.push(subscriber_id.to_owned());
        self.subscriptions.push(
            SubscriptionEntry { uri: uri.to_owned(), subscribers, provider_index },
        );
        proof {
            let wi: int = self.subscriptions@.len() - 1;
            assert((self.subscriptions@[wi]).uri@ == uri@ && (
            self.subscriptions@[wi].subscribers@[0])@ == subscriber_id@);
        }
        true
    }

    /// Removes a subscriber from a URI's set, dropping the entry when
    /// the set empties. Hands back `true` exactly when this removal
    /// emptied the set, the moment the owning provider's own
    /// `unsubscribe` is due; removing an id that is not subscribed is a
    /// no-op.
    #[verifier::loop_isolation(false)]
    pub fn note_unsubscribe(&mut self, uri: &str, subscriber_id: &str) -> (last: bool)
        requires
            old(self).wf(),
        ensures
            final(self).wf(),
            final(self).providers@ == old(self).providers@,
            last == (old(self).spec_is_subscribed(uri@, subscriber_id@)
                && !final(self).spec_has_subscription(uri@)),
            !old(self).spec_is_subscribed(uri@, subscriber_id@) ==> *final(self) == *old(self),
            !final(self).spec_is_subscribed(uri@, subscriber_id@),
    {
        let mut i: usize = 0;
        while i < self.subscriptions.len()
            invariant
                i <= self.subscriptions@.len(),
                *self == *old(self),
                forall|k: int|
                    0 <= k < i ==> (#[trigger] self.subscriptions@[k]).uri@ != uri@,
            decreases self.subscriptions@.len() - i,
        {
            if str_eq(self.subscriptions[i].uri.as_str(), uri) {
                let mut a: usize = 0;
                let n = self.subscriptions[i].subscribers.len();
                while a < n
                    invariant
                        a <= n,
                        n == self.subscriptions@[i as int].subscribers@.len(),
                        i < self.subscriptions@.len(),
                        *self == *old(self),
                        self.subscriptions@[i as int].uri@ == uri@,
                        forall|k: int|
                            0 <= k < a ==> (
                            #[trigger] self.subscriptions@[i as int].subscribers@[k])@
                                != subscriber_id@,
                    decreases n - a,
                {
                    if str_eq(self.subscriptions[i].subscribers[a].as_str(), subscriber_id) {
                        if n == 1 {
                            self.subscriptions.remove(i);
                            proof {
                                old(self).subscriptions@.remove_ensures(i as int);
                                lemma_unsub_removed_entry(
                                    old(self).subscriptions@,
                                    self.subscriptions@,
                                    i as int,
                                    uri@,
                                    subscriber_id@,
                                );
                            }
                            return true;
                        } else {
                            let mut entry = self.subscriptions.remove(i);
                            entry.subscribers.remove(a);
                            self.subscriptions.insert(i, entry);
                            proof {
                                old(self).subscriptions@.remove_ensures(i as int);
                                old(self).subscriptions@.remove(i as int).insert_ensures(
                                    i as int,
                                    self.subscriptions@[i as int],
                                );
                                assert forall|k: int|
                                    0 <= k < self.subscriptions@.len() && k
                                    != i as int implies #[trigger] self.subscriptions@[k] == old(
                                    self,
                                ).subscriptions@[k] by {
                                    if k < i as int {
                                        assert(old(self).subscriptions@.remove(i as int)[k] == old(
                                            self,
                                        ).subscriptions@[k]);
                                    } else {
                                        assert(old(self).subscriptions@.remove(i as int)[k - 1]
                                            == old(self).subscriptions@[k]);
                                    }
                                }
                                lemma_unsub_removed_sub(
                                    old(self).subscriptions@,
                                    self.subscriptions@,
                                    i as int,
                                    a as int,
                                    uri@,
                                    subscriber_id@,
                                );
                            }
                            return false;
                        }
                    }
                    a = a + 1;
                }
                return false;
            }
            i = i + 1;
        }
        false
    }

    /// The ids subscribed to a URI, in subscription order: exactly the
    /// watching entry's set, and empty when nothing watches it.
    #[verifier::loop_isolation(false)]
    pub fn get_subscribers(&self, uri: &str) -> (r: Vec<String>)
        requires
            self.wf(),
        ensures
            r@.len() > 0 <==> self.spec_has_subscription(uri@),
            self.spec_has_subscription(uri@) ==> exists|k: int|
                0 <= k < self.subscriptions@.len() && (#[trigger] self.subscriptions@[k]).uri@
                    == uri@ && r@.len() == self.subscriptions@[k].subscribers@.len() && (forall|
                    a: int,
                |
                    0 <= a < r@.len() ==> (#[trigger] r@[a])@
                        == self.subscriptions@[k].subscribers@[a]@),
    {
        let mut i: usize = 0;
        while i < self.subscriptions.len()
            invariant
                i <= self.subscriptions@.len(),
                forall|k: int|
                    0 <= k < i ==> (#[trigger] self.subscriptions@[k]).uri@ != uri@,
            decreases self.subscriptions@.len() - i,
        {
            if str_eq(self.subscriptions[i].uri.as_str(), uri) {
                let mut out: Vec<String> = Vec::new();
                let n = self.subscriptions[i].subscribers.len();
                let mut a: usize = 0;
                while a < n
                    invariant
                        a <= n,
                        i < self.subscriptions@.len(),
                        n == self.subscriptions@[i as int].subscribers@.len(),
                        out@.len() == a,
                        self.subscriptions@[i as int].uri@ == uri@,
                        forall|j: int|
                            0 <= j < a ==> (#[trigger] out@[j])@
                                == self.subscriptions@[i as int].subscribers@[j]@,
                    decreases n - a,
                {
                    out.push(self.subscriptions[i].subscribers[a].clone());
                    a = a + 1;
                }
                proof {
                    assert(self.subscriptions@[i as int].subscribers@.len() > 0);
                }
                return out;
            }
            i = i + 1;
        }
        Vec::new()
    }
}

/// After dropping a whole entry, the subscriber no longer watches the
/// URI, and well-formedness survives.
proof fn lemma_unsub_removed_entry(
    oldseq: Seq<SubscriptionEntry>,
    newseq: Seq<SubscriptionEntry>,
    i: int,
    uri: Seq<char>,
    sub: Seq<char>,
)
    requires
        0 <= i < oldseq.len(),
        newseq == oldseq.remove(i),
        oldseq[i].uri@ == uri,
        forall|i2: int, j2: int|
            0 <= i2 < j2 < oldseq.len() ==> (#[trigger] oldseq[i2]).uri@ != (
            #[trigger] oldseq[j2]).uri@,
        forall|i2: int| 0 <= i2 < oldseq.len() ==> (#[trigger] oldseq[i2]).subscribers@.len() > 0,
        forall|i2: int, a: int, b: int|
            0 <= i2 < oldseq.len() && 0 <= a < b < oldseq[i2].subscribers@.len() ==> (
            #[trigger] oldseq[i2].subscribers@[a])@ != (#[trigger] oldseq[i2].subscribers@[b])@,
    ensures
        forall|i2: int, j2: int|
            0 <= i2 < j2 < newseq.len() ==> (#[trigger] newseq[i2]).uri@ != (
            #[trigger] newseq[j2]).uri@,
        forall|i2: int| 0 <= i2 < newseq.len() ==> (#[trigger] newseq[i2]).subscribers@.len() > 0,
        forall|i2: int, a: int, b: int|
            0 <= i2 < newseq.len() && 0 <= a < b < newseq[i2].subscribers@.len() ==> (
            #[trigger] newseq[i2].subscribers@[a])@ != (#[trigger] newseq[i2].subscribers@[b])@,
        forall|i2: int| 0 <= i2 < newseq.len() ==> (#[trigger] newseq[i2]).uri@ != uri,
{
    oldseq.remove_ensures(i);
    assert forall|i2: int| 0 <= i2 < newseq.len() implies (#[trigger] newseq[i2]).uri@ != uri
        && newseq[i2].subscribers@.len() > 0 by {
        if i2 < i {
            assert(newseq[i2] == oldseq[i2]);
        } else {
            assert(newseq[i2] == oldseq[i2 + 1]);
        }
    }
    assert forall|i2: int, j2: int| 0 <= i2 < j2 < newseq.len() implies (
    #[trigger] newseq[i2]).uri@ != (#[trigger] newseq[j2]).uri@ by {
        let o1: int = if i2 < i {
            i2
        } else {
            i2 + 1
        };
        let o2: int = if j2 < i {
            j2
        } else {
            j2 + 1
        };
        assert(newseq[i2] == oldseq[o1]);
        assert(newseq[j2] == oldseq[o2]);
    }
    assert forall|i2: int, a: int, b: int|
        0 <= i2 < newseq.len() && 0 <= a < b < newseq[i2].subscribers@.len() implies (
    #[trigger] newseq[i2].subscribers@[a])@ != (#[trigger] newseq[i2].subscribers@[b])@ by {
        let o1: int = if i2 < i {
            i2
        } else {
            i2 + 1
        };
        assert(newseq[i2] == oldseq[o1]);
    }
}

/// After removing one subscriber from an entry that keeps others, the
/// subscriber no longer watches the URI, the entry stays non-empty, and
/// well-formedness survives.
proof fn lemma_unsub_removed_sub(
    oldseq: Seq<SubscriptionEntry>,
    newseq: Seq<SubscriptionEntry>,
    i: int,
    a: int,
    uri: Seq<char>,
    sub: Seq<char>,
)
    requires
        0 <= i < oldseq.len(),
        newseq.len() == oldseq.len(),
        forall|k: int| 0 <= k < oldseq.len() && k != i ==> #[trigger] newseq[k] == oldseq[k],
        newseq[i].uri == oldseq[i].uri,
        0 <= a < oldseq[i].subscribers@.len(),
        newseq[i].subscribers@ == oldseq[i].subscribers@.remove(a),
        oldseq[i].subscribers@[a]@ == sub,
        oldseq[i].uri@ == uri,
        oldseq[i].subscribers@.len() > 1,
        forall|i2: int, j2: int|
            0 <= i2 < j2 < oldseq.len() ==> (#[trigger] oldseq[i2]).uri@ != (
            #[trigger] oldseq[j2]).uri@,
        forall|i2: int| 0 <= i2 < oldseq.len() ==> (#[trigger] oldseq[i2]).subscribers@.len() > 0,
        forall|i2: int, a2: int, b2: int|
            0 <= i2 < oldseq.len() && 0 <= a2 < b2 < oldseq[i2].subscribers@.len() ==> (
            #[trigger] oldseq[i2].subscribers@[a2])@ != (#[trigger] oldseq[i2].subscribers@[b2])@,
    ensures
        forall|i2: int, j2: int|
            0 <= i2 < j2 < newseq.len() ==> (#[trigger] newseq[i2]).uri@ != (
            #[trigger] newseq[j2]).uri@,
        forall|i2: int| 0 <= i2 < newseq.len() ==> (#[trigger] newseq[i2]).subscribers@.len() > 0,
        forall|i2: int, a2: int, b2: int|
            0 <= i2 < newseq.len() && 0 <= a2 < b2 < newseq[i2].subscribers@.len() ==> (
            #[trigger] newseq[i2].subscribers@[a2])@ != (#[trigger] newseq[i2].subscribers@[b2])@,
        forall|i2: int, a2: int|
            0 <= i2 < newseq.len() && (#[trigger] newseq[i2]).uri@ == uri && 0 <= a2 < newseq[i2].subscribers@.len()
                ==> (#[trigger] newseq[i2].subscribers@[a2])@ != sub,
{
    oldseq[i].subscribers@.remove_ensures(a);
    assert forall|i2: int, j2: int| 0 <= i2 < j2 < newseq.len() implies (
    #[trigger] newseq[i2]).uri@ != (#[trigger] newseq[j2]).uri@ by {
        assert(newseq[i2].uri == oldseq[i2].uri || i2 == i);
        assert(newseq[j2].uri == oldseq[j2].uri || j2 == i);
    }
    assert forall|i2: int, a2: int, b2: int|
        0 <= i2 < newseq.len() && 0 <= a2 < b2 < newseq[i2].subscribers@.len() implies (
    #[trigger] newseq[i2].subscribers@[a2])@ != (#[trigger] newseq[i2].subscribers@[b2])@ by {
        if i2 == i {
            let n1: int = if a2 < a {
                a2
            } else {
                a2 + 1
            };
            let n2: int = if b2 < a {
                b2
            } else {
                b2 + 1
            };
            assert(newseq[i].subscribers@[a2] == oldseq[i].subscribers@[n1]);
            assert(newseq[i].subscribers@[b2] == oldseq[i].subscribers@[n2]);
        }
    }
    assert forall|i2: int, a2: int|
        0 <= i2 < newseq.len() && (#[trigger] newseq[i2]).uri@ == uri && 0 <= a2
            < newseq[i2].subscribers@.len() implies (#[trigger] newseq[i2].subscribers@[a2])@
        != sub by {
        if i2 != i {
            assert(newseq[i2] == oldseq[i2]);
            assert(oldseq[i2].uri@ != uri);
        } else {
            let n1: int = if a2 < a {
                a2
            } else {
                a2 + 1
            };
            assert(newseq[i].subscribers@[a2] == oldseq[i].subscribers@[n1]);
            assert(oldseq[i].subscribers@[n1]@ != oldseq[i].subscribers@[a]@);
        }
    }
}

/// Settles a read from the providers' answers: the first provider that
/// produced contents wins; when every provider declined, and only then,
/// the read is `ResourceNotFound`.
#[verifier::loop_isolation(false)]
pub fn resolve_read(uri: &str, outcomes: Vec<Option<Vec<ResourceContents>>>) -> (r: Result<
    Vec<ResourceContents>,
    McpError,
>)
    ensures
        match r {
            Ok(contents) => exists|k: int|
                0 <= k < outcomes@.len() && (#[trigger] outcomes@[k]) == Some(contents) && forall|
                    j: int,
                |
                    0 <= j < k ==> (#[trigger] outcomes@[j]) is None,
            Err(e) => (forall|k: int| 0 <= k < outcomes@.len() ==> (#[trigger] outcomes@[k]) is None)
                && e@.code == crate::rpc::ErrorCode::Standard(
                crate::rpc::StandardErrorCode::ResourceNotFound,
            ),
        },
{
    let mut i: usize = 0;
    let mut outcomes_mut = outcomes;
    while i < outcomes_mut.len()
        invariant
            i <= outcomes_mut@.len(),
            outcomes_mut@ == outcomes@,
            forall|j: int| 0 <= j < i ==> (#[trigger] outcomes@[j]) is None,
        decreases outcomes_mut@.len() - i,
    {
        let slot = outcomes_mut.remove(i);
        proof {
            outcomes@.remove_ensures(i as int);
        }
        match slot {
            Some(contents) => {
                return Ok(contents);
            },
            None => {
                outcomes_mut.insert(i, None);
                proof {
                    assert(outcomes_mut@ =~= outcomes@);
                }
            },
        }
        i = i + 1;
    }
    Err(McpError::resource_not_found("no provider serves this resource"))
}


/// The listings of every provider, concatenated in provider order;
/// a provider that failed contributes nothing here (a failure makes the
/// whole combination fail instead).
pub open spec fn spec_concat_listings(
    outcomes: Seq<Result<Vec<crate::types::Resource>, McpError>>,
) -> Seq<crate::types::Resource>
    decreases outcomes.len(),
{
    if outcomes.len() == 0 {
        Seq::empty()
    } else {
        (match outcomes[0] {
            Ok(v) => v@,
            Err(_) => Seq::empty(),
        }).add(spec_concat_listings(outcomes.drop_first()))
    }
}

/// Settles a listing from the providers' answers: when every provider
/// listed, the union of their lists sorted ascending by URI; when any
/// failed, that failure, and only then.
#[verifier::loop_isolation(false)]
pub fn combine_listings(outcomes: Vec<Result<Vec<crate::types::Resource>, McpError>>) -> (r:
    Result<Vec<crate::types::Resource>, McpError>)
    ensures
        r is Ok <==> (forall|k: int|
            0 <= k < outcomes@.len() ==> (#[trigger] outcomes@[k]) is Ok),
        r matches Ok(v) ==> v@.to_multiset() == spec_concat_listings(outcomes@).to_multiset() && (
        forall|i: int, j: int|
            0 <= i < j < v@.len() ==> crate::order::lex_leq(
                (#[trigger] v@[i]).uri@,
                (#[trigger] v@[j]).uri@,
            )),
        r matches Err(e) ==> exists|k: int|
            0 <= k < outcomes@.len() && ((#[trigger] outcomes@[k]) matches Err(e0) && e == e0),
{
    let ghost orig = outcomes@;
    let mut rest = outcomes;
    let mut acc: Vec<crate::types::Resource> = Vec::new();
    let ghost mut consumed: int = 0;
    proof {
        assert(rest@ =~= orig.skip(0));
    }
    while rest.len() > 0
        invariant
            0 <= consumed <= orig.len(),
            rest@ == orig.skip(consumed),
            forall|k: int| 0 <= k < consumed ==> (#[trigger] orig[k]) is Ok,
            spec_concat_listings(orig) == acc@ + spec_concat_listings(rest@),
        decreases rest@.len(),
    {
        let ghost rest0 = rest@;
        let outcome = rest.remove(0);
        proof {
            rest0.remove_ensures(0);
            assert(rest@ =~= rest0.drop_first());
            assert(rest@ =~= orig.skip(consumed + 1));
            assert(rest0[0] == orig[consumed]);
        }
        match outcome {
            Ok(mut listed) => {
                let ghost acc0 = acc@;
                let ghost listed0 = listed@;
                acc.append(&mut listed);
                proof {
                    assert(acc@ =~= acc0 + listed0);
                    assert(spec_concat_listings(rest0) == listed0 + spec_concat_listings(rest@));
                    assert(acc@ + spec_concat_listings(rest@) =~= acc0 + spec_concat_listings(
                        rest0,
                    ));
                    consumed = consumed + 1;
                }
            },
            Err(e) => {
                proof {
                    assert(orig[consumed] matches Err(e0) && e == e0);
                }
                return Err(e);
            },
        }
    }
    proof {
        assert(rest@.len() == 0);
        assert(spec_concat_listings(rest@) =~= Seq::<crate::types::Resource>::empty());
        assert(acc@ =~= spec_concat_listings(orig));
        assert(consumed == orig.len());
    }
    Ok(crate::encode::sort_resources(acc))
}

} // verus!

