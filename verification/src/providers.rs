//! Built-in resource providers: in-memory resources, and the pure rules
//! of the filesystem provider.
//!
//! The filesystem provider's directory walking and file reading are I/O
//! and live outside this crate; what lives here is its decision logic:
//! which files its extension filter admits, and how paths and `file://`
//! URIs map to one another.

use vstd::prelude::*;

use crate::json::str_eq;
use crate::messages::ResourceContents;
use crate::order::lex_leq;
use crate::resources::ResourceProvider;
use crate::rpc::McpError;
use crate::types::Resource;
use crate::types::ResourceTemplate;

verus! {

/// One stored resource: its URI, its text, and its MIME type.
#[derive(Debug)]
pub struct MemoryEntry {
    pub uri: String,
    pub content: String,
    pub mime_type: Option<String>,
}

/// A resource provider backed by memory: URIs map to text contents.
#[derive(Debug)]
pub struct MemoryResourceProvider {
    pub resources: Vec<MemoryEntry>,
}

impl MemoryResourceProvider {
    /// The store invariant: URIs are distinct.
    pub open spec fn wf(&self) -> bool {
        forall|i: int, j: int|
            0 <= i < j < self.resources@.len() ==> (#[trigger] self.resources@[i]).uri@ != (
            #[trigger] self.resources@[j]).uri@
    }

    /// Whether a URI is stored.
    pub open spec fn spec_has(&self, uri: Seq<char>) -> bool {
        exists|k: int|
            0 <= k < self.resources@.len() && (#[trigger] self.resources@[k]).uri@ == uri
    }

    /// An empty store.
    pub fn new() -> (r: MemoryResourceProvider)
        ensures
            r.wf(),
            r.resources@.len() == 0,
    {
        MemoryResourceProvider { resources: Vec::new() }
    }

    /// Stores a resource: a new URI is appended, a stored one has its
    /// contents replaced; entries under other URIs are untouched.
    #[verifier::loop_isolation(false)]
    pub fn add_resource(&mut self, uri: &str, content: String, mime_type: Option<String>)
        requires
            old(self).wf(),
        ensures
            final(self).wf(),
            exists|k: int|
                0 <= k < final(self).resources@.len() && (
                #[trigger] final(self).resources@[k]).uri@ == uri@
                    && final(self).resources@[k].content == content
                    && final(self).resources@[k].mime_type == mime_type,
            forall|k: int|
                0 <= k < old(self).resources@.len() && (#[trigger] old(self).resources@[k]).uri@
                    != uri@ ==> final(self).resources@[k] == old(self).resources@[k],
            old(self).spec_has(uri@) ==> final(self).resources@.len() == old(
                self,
            ).resources@.len(),
            !old(self).spec_has(uri@) ==> final(self).resources@.len() == old(
                self,
            ).resources@.len() + 1,
    {
        let mut i: usize = 0;
        while i < self.resources.len()
            invariant
                i <= self.resources@.len(),
                *self == *old(self),
                forall|k: int| 0 <= k < i ==> (#[trigger] self.resources@[k]).uri@ != uri@,
            decreases self.resources@.len() - i,
        {
            if str_eq(self.resources[i].uri.as_str(), uri) {
                let entry = MemoryEntry { uri: uri.to_owned(), content, mime_type };
                let _old_entry = self.resources.remove(i);
                self.resources.insert(i, entry);
                proof {
                    old(self).resources@.remove_ensures(i as int);
                    old(self).resources@.remove(i as int).insert_ensures(
                        i as int,
                        self.resources@[i as int],
                    );
                    assert forall|a: int, b: int|
                        0 <= a < b < self.resources@.len() implies (
                    #[trigger] self.resources@[a]).uri@ != (
                    #[trigger] self.resources@[b]).uri@ by {
                        if a != i as int && b != i as int {
                            let oa: int = if a < i as int {
                                a
                            } else {
                                a - 1
                            };
                            let ob: int = if b < i as int {
                                b
                            } else {
                                b - 1
                            };
                            assert(self.resources@[a] == old(self).resources@.remove(i as int)[oa]);
                            assert(self.resources@[b] == old(self).resources@.remove(i as int)[ob]);
                        }
                    }
                }
                proof {
                    assert(self.resources@[i as int].uri@ == uri@);
                    assert(self.resources@[i as int].content == content
                        && self.resources@[i as int].mime_type == mime_type) by {
                        old(self).resources@.remove(i as int).insert_ensures(
                            i as int,
                            self.resources@[i as int],
                        );
                    }
                }
                return ;
            }
            i = i + 1;
        }
        let entry = MemoryEntry { uri: uri.to_owned(), content, mime_type };
        self.resources.push(entry);
        proof {
            assert(self.resources@.last().uri@ == uri@);
            assert(self.resources@.last().content == content);
        }
    }

    /// Forgets a resource: hands back whether the URI was stored; the
    /// store is untouched when it was not.
    #[verifier::loop_isolation(false)]
    pub fn remove_resource(&mut self, uri: &str) -> (r: bool)
        requires
            old(self).wf(),
        ensures
            final(self).wf(),
            r == old(self).spec_has(uri@),
            !r ==> *final(self) == *old(self),
            !final(self).spec_has(uri@),
            r ==> final(self).resources@.len() == old(self).resources@.len() - 1,
            forall|k: int|
                0 <= k < old(self).resources@.len() && (#[trigger] old(self).resources@[k]).uri@
                    != uri@ ==> final(self).resources@.contains(old(self).resources@[k]),
    {
        let mut i: usize = 0;
        while i < self.resources.len()
            invariant
                i <= self.resources@.len(),
                *self == *old(self),
                forall|k: int| 0 <= k < i ==> (#[trigger] self.resources@[k]).uri@ != uri@,
            decreases self.resources@.len() - i,
        {
            if str_eq(self.resources[i].uri.as_str(), uri) {
                self.resources.remove(i);
                proof {
                    old(self).resources@.remove_ensures(i as int);
                    assert forall|k: int|
                        0 <= k < self.resources@.len() implies (
                    #[trigger] self.resources@[k]).uri@ != uri@ by {
                        if k < i as int {
                            assert(self.resources@[k] == old(self).resources@[k]);
                        } else {
                            assert(self.resources@[k] == old(self).resources@[k + 1]);
                        }
                    }
                    assert forall|a: int, b: int|
                        0 <= a < b < self.resources@.len() implies (
                    #[trigger] self.resources@[a]).uri@ != (
                    #[trigger] self.resources@[b]).uri@ by {
                        let oa: int = if a < i as int {
                            a
                        } else {
                            a + 1
                        };
                        let ob: int = if b < i as int {
                            b
                        } else {
                            b + 1
                        };
                        assert(self.resources@[a] == old(self).resources@[oa]);
                        assert(self.resources@[b] == old(self).resources@[ob]);
                    }
                    assert forall|k: int|
                        0 <= k < old(self).resources@.len() && (#[trigger] old(
                        self,
                    ).resources@[k]).uri@ != uri@ implies self.resources@.contains(
                        old(self).resources@[k],
                    ) by {
                        if k < i as int {
                            assert(self.resources@[k] == old(self).resources@[k]);
                        } else {
                            assert(k != i as int);
                            assert(self.resources@[k - 1] == old(self).resources@[k]);
                        }
                    }
                }
                return true;
            }
            i = i + 1;
        }
        false
    }

    /// Replaces a stored resource's contents: hands back whether the URI
    /// was stored; nothing is created when it was not, and entries under
    /// other URIs are untouched.
    #[verifier::loop_isolation(false)]
    pub fn update_resource(&mut self, uri: &str, content: String, mime_type: Option<String>) -> (r:
        bool)
        requires
            old(self).wf(),
        ensures
            final(self).wf(),
            r == old(self).spec_has(uri@),
            !r ==> *final(self) == *old(self),
            final(self).resources@.len() == old(self).resources@.len(),
            forall|k: int|
                0 <= k < old(self).resources@.len() && (#[trigger] old(self).resources@[k]).uri@
                    != uri@ ==> final(self).resources@[k] == old(self).resources@[k],
            r ==> exists|k: int|
                0 <= k < final(self).resources@.len() && (
                #[trigger] final(self).resources@[k]).uri@ == uri@
                    && final(self).resources@[k].content == content
                    && final(self).resources@[k].mime_type == mime_type,
    {
        let mut i: usize = 0;
        while i < self.resources.len()
            invariant
                i <= self.resources@.len(),
                *self == *old(self),
                forall|k: int| 0 <= k < i ==> (#[trigger] self.resources@[k]).uri@ != uri@,
            decreases self.resources@.len() - i,
        {
            if str_eq(self.resources[i].uri.as_str(), uri) {
                let entry = MemoryEntry { uri: uri.to_owned(), content, mime_type };
                let _old_entry = self.resources.remove(i);
                self.resources.insert(i, entry);
                proof {
                    old(self).resources@.remove_ensures(i as int);
                    old(self).resources@.remove(i as int).insert_ensures(
                        i as int,
                        self.resources@[i as int],
                    );
                    assert forall|k: int|
                        0 <= k < old(self).resources@.len() && k
                        != i as int implies #[trigger] self.resources@[k] == old(
                        self,
                    ).resources@[k] by {
                        if k < i as int {
                            assert(old(self).resources@.remove(i as int)[k] == old(
                                self,
                            ).resources@[k]);
                        } else {
                            assert(old(self).resources@.remove(i as int)[k - 1] == old(
                                self,
                            ).resources@[k]);
                        }
                    }
                    assert forall|a: int, b: int|
                        0 <= a < b < self.resources@.len() implies (
                    #[trigger] self.resources@[a]).uri@ != (
                    #[trigger] self.resources@[b]).uri@ by {
                        if a != i as int && b != i as int {
                            assert(self.resources@[a] == old(self).resources@[a]);
                            assert(self.resources@[b] == old(self).resources@[b]);
                        }
                    }
                    assert(self.resources@[i as int].uri@ == uri@);
                }
                return true;
            }
            i = i + 1;
        }
        false
    }

    /// The stored contents under a URI, if any.
    #[verifier::loop_isolation(false)]
    pub fn read(&self, uri: &str) -> (r: Option<ResourceContents>)
        ensures
            r is Some <==> self.spec_has(uri@),
            r matches Some(c) ==> exists|k: int|
                0 <= k < self.resources@.len() && (#[trigger] self.resources@[k]).uri@ == uri@ && (
                c matches ResourceContents::Text { uri: u, mime_type: m, text: t } && u@ == uri@
                    && t@ == self.resources@[k].content@ && (m matches Some(mt) && mt@ == (
                match self.resources@[k].mime_type {
                    Some(sm) => sm@,
                    None => "text/plain"@,
                }))),
    {
        let mut i: usize = 0;
        while i < self.resources.len()
            invariant
                i <= self.resources@.len(),
                forall|k: int| 0 <= k < i ==> (#[trigger] self.resources@[k]).uri@ != uri@,
            decreases self.resources@.len() - i,
        {
            if str_eq(self.resources[i].uri.as_str(), uri) {
                let mime: &str = match &self.resources[i].mime_type {
                    Some(m) => m.as_str(),
                    None => "text/plain",
                };
                let c = ResourceContents::text_with_mime_type(
                    uri,
                    self.resources[i].content.as_str(),
                    mime,
                );
                proof {
                    assert(self.resources@[i as int].uri@ == uri@);
                }
                return Some(c);
            }
            i = i + 1;
        }
        None
    }

    /// The stored resources as descriptors, sorted by URI.
    pub fn descriptors(&self) -> (r: Vec<Resource>)
        ensures
            r@.len() == self.resources@.len(),
            forall|i: int, j: int|
                0 <= i < j < r@.len() ==> lex_leq(
                    (#[trigger] r@[i]).uri@,
                    (#[trigger] r@[j]).uri@,
                ),
            forall|k: int|
                0 <= k < self.resources@.len() ==> exists|j: int|
                    0 <= j < r@.len() && (#[trigger] r@[j]).uri@ == (#[trigger] self.resources@[k]).uri@,
            forall|j: int|
                0 <= j < r@.len() ==> exists|k: int|
                    0 <= k < self.resources@.len() && (#[trigger] self.resources@[k]).uri@ == (
                    #[trigger] r@[j]).uri@,
    {
        broadcast use vstd::seq_lib::group_to_multiset_ensures;

        let mut out: Vec<Resource> = Vec::new();
        let mut i: usize = 0;
        while i < self.resources.len()
            invariant
                i <= self.resources@.len(),
                out@.len() == i,
                forall|k: int|
                    0 <= k < i ==> (#[trigger] out@[k]).uri@ == self.resources@[k].uri@,
            decreases self.resources@.len() - i,
        {
            let name = last_segment(self.resources[i].uri.as_str());
            let mut descriptor = Resource::new(self.resources[i].uri.as_str(), name.as_str());
            match &self.resources[i].mime_type {
                Some(m) => {
                    descriptor = descriptor.with_mime_type(m.as_str());
                },
                None => {},
            }
            out.push(descriptor);
            i = i + 1;
        }
        let ghost pre = out@;
        let sorted = crate::encode::sort_resources(out);
        proof {
            assert forall|k: int| 0 <= k < self.resources@.len() implies exists|j: int|
                0 <= j < sorted@.len() && (#[trigger] sorted@[j]).uri@ == (
                #[trigger] self.resources@[k]).uri@ by {
                assert(pre[k].uri@ == self.resources@[k].uri@);
                assert(pre.contains(pre[k]));
                assert(sorted@.to_multiset().count(pre[k]) > 0);
                assert(sorted@.contains(pre[k]));
                let j = choose|j: int| 0 <= j < sorted@.len() && sorted@[j] == pre[k];
                assert(sorted@[j].uri@ == self.resources@[k].uri@);
            }
            assert forall|j: int| 0 <= j < sorted@.len() implies exists|k: int|
                0 <= k < self.resources@.len() && (#[trigger] self.resources@[k]).uri@ == (
                #[trigger] sorted@[j]).uri@ by {
                assert(sorted@.contains(sorted@[j]));
                assert(pre.to_multiset().count(sorted@[j]) > 0);
                assert(pre.contains(sorted@[j]));
                let k = choose|k: int| 0 <= k < pre.len() && pre[k] == sorted@[j];
                assert(self.resources@[k].uri@ == sorted@[j].uri@);
            }
        }
        sorted
    }
}

impl Default for MemoryResourceProvider {
    /// An empty store, as `new` gives it.
    fn default() -> (r: MemoryResourceProvider)
        ensures
            r.wf(),
            r.resources@.len() == 0,
    {
        MemoryResourceProvider::new()
    }
}

impl ResourceProvider for MemoryResourceProvider {
    fn list_resources(&self) -> Result<Vec<Resource>, McpError> {
        Ok(self.descriptors())
    }

    fn read_resource(&self, uri: String) -> Result<Vec<ResourceContents>, McpError> {
        match self.read(uri.as_str()) {
            Some(contents) => {
                let mut out: Vec<ResourceContents> = Vec::new();
                out.push(contents);
                Ok(out)
            },
            None => Err(McpError::resource_not_found("resource not found")),
        }
    }

    fn list_resource_templates(&self) -> Result<Vec<ResourceTemplate>, McpError> {
        Ok(Vec::new())
    }

    fn subscribe(&self, _uri: String) -> Result<(), McpError> {
        Err(McpError::invalid_request("Resource subscriptions not supported"))
    }

    fn unsubscribe(&self, _uri: String) -> Result<(), McpError> {
        Err(McpError::invalid_request("Resource subscriptions not supported"))
    }
}

/// The text after the last slash: the display name of a URI.
#[verifier::loop_isolation(false)]
pub fn last_segment(uri: &str) -> (r: String)
{
    let cs = crate::json::chars_of(uri);
    let mut start: usize = 0;
    let mut i: usize = 0;
    while i < cs.len()
        invariant
            start <= i <= cs@.len(),
        decreases cs@.len() - i,
    {
        if cs[i] == '/' && i + 1 < cs.len() {
            start = i + 1;
        }
        i = i + 1;
    }
    let mut out: Vec<char> = Vec::new();
    let mut k: usize = start;
    while k < cs.len()
        invariant
            start <= k <= cs@.len(),
        decreases cs@.len() - k,
    {
        out.push(cs[k]);
        k = k + 1;
    }
    crate::json::string_of(&out)
}

/// The pure rules of the filesystem provider: its base directory, and
/// the extension filter it admits files by. The walking and reading of
/// real files lives outside this crate and consults these rules.
#[derive(Debug)]
pub struct FileSystemResourceProvider {
    pub base_path: String,
    pub allowed_extensions: Option<Vec<String>>,
}

impl FileSystemResourceProvider {
    /// A provider rooted at a base directory, admitting every file.
    pub fn new(base_path: &str) -> (r: FileSystemResourceProvider)
        ensures
            r.base_path@ == base_path@,
            r.allowed_extensions is None,
    {
        FileSystemResourceProvider { base_path: base_path.to_owned(), allowed_extensions: None }
    }

    /// The same provider admitting only these extensions.
    pub fn with_allowed_extensions(self, extensions: Vec<String>) -> (r:
        FileSystemResourceProvider)
        ensures
            r.base_path == self.base_path,
            r.allowed_extensions == Some(extensions),
    {
        FileSystemResourceProvider { allowed_extensions: Some(extensions), ..self }
    }

    /// Whether the filter admits a file: with no filter, every file;
    /// with one, exactly the files whose extension — the text after the
    /// last dot — is listed. A filtered file without an extension is
    /// refused.
    #[verifier::loop_isolation(false)]
    pub fn is_allowed_file(&self, path: &str) -> (r: bool)
        ensures
            self.allowed_extensions is None ==> r,
            self.allowed_extensions matches Some(allowed) ==> (r <==> (spec_ext(
                path@,
            ) matches Some(e) && spec_names_ext(allowed@, e))),
    {
        let allowed = match &self.allowed_extensions {
            Some(allowed) => allowed,
            None => {
                return true;
            },
        };
        let cs = crate::json::chars_of(path);
        let mut dot: Option<usize> = None;
        let mut i: usize = 0;
        proof {
            assert(path@.subrange(0, 0).len() == 0);
        }
        while i < cs.len()
            invariant
                i <= cs@.len(),
                cs@ == path@,
                match dot {
                    Some(d) => d < i && spec_last_dot(path@.subrange(0, i as int)) == Some(
                        d as int,
                    ),
                    None => spec_last_dot(path@.subrange(0, i as int)) is None,
                },
            decreases cs@.len() - i,
        {
            proof {
                assert(path@.subrange(0, i + 1).drop_last() =~= path@.subrange(0, i as int));
                assert(path@.subrange(0, i + 1).last() == path@[i as int]);
            }
            if cs[i] == '.' {
                dot = Some(i);
            }
            i = i + 1;
        }
        proof {
            assert(path@.subrange(0, path@.len() as int) =~= path@);
        }
        let d = match dot {
            Some(d) => d,
            None => {
                return false;
            },
        };
        let mut ext: Vec<char> = Vec::new();
        let mut k: usize = d + 1;
        while k < cs.len()
            invariant
                d < k <= cs@.len(),
                cs@ == path@,
                ext@ == path@.subrange(d + 1, k as int),
            decreases cs@.len() - k,
        {
            ext.push(cs[k]);
            k = k + 1;
            proof {
                assert(ext@ =~= path@.subrange(d + 1, k as int));
            }
        }
        let ext_s = crate::json::string_of(&ext);
        proof {
            assert(spec_ext(path@) == Some(ext_s@));
        }
        let mut n: usize = 0;
        while n < allowed.len()
            invariant
                n <= allowed@.len(),
                forall|k2: int| 0 <= k2 < n ==> (#[trigger] allowed@[k2])@ != ext_s@,
            decreases allowed@.len() - n,
        {
            if str_eq(allowed[n].as_str(), ext_s.as_str()) {
                return true;
            }
            n = n + 1;
        }
        false
    }

    /// The `file://` URI of a path.
    pub fn path_to_uri(&self, path: &str) -> (r: String)
        ensures
            r@ == "file://"@.add(path@),
    {
        proof {
            reveal_strlit("file://");
        }
        let mut out: String = "file://".to_owned();
        out.append(path);
        out
    }

    /// The path a `file://` URI names, when it lies under the base
    /// directory; any other URI is not this provider's.
    #[verifier::loop_isolation(false)]
    pub fn uri_to_path(&self, uri: &str) -> (r: Option<String>)
        ensures
            r matches Some(p) ==> uri@ == "file://"@.add(p@) && is_prefix(
                self.base_path@,
                p@,
            ),
            r is Some <==> (is_prefix("file://"@, uri@) && is_prefix(
                self.base_path@,
                uri@.skip(7),
            )),
    {
        proof {
            reveal_strlit("file://");
        }
        let cs = crate::json::chars_of(uri);
        let prefix = crate::json::chars_of("file://");
        if cs.len() < prefix.len() {
            proof {
                assert(!is_prefix("file://"@, uri@));
            }
            return None;
        }
        let mut i: usize = 0;
        while i < prefix.len()
            invariant
                i <= prefix@.len(),
                prefix@.len() <= cs@.len(),
                cs@ == uri@,
                prefix@ == "file://"@,
                forall|k: int| 0 <= k < i ==> cs@[k] == prefix@[k],
            decreases prefix@.len() - i,
        {
            if cs[i] != prefix[i] {
                proof {
                    assert(uri@[i as int] != "file://"@[i as int]);
                    assert(!is_prefix("file://"@, uri@));
                }
                return None;
            }
            i = i + 1;
        }
        let mut rest: Vec<char> = Vec::new();
        let mut k: usize = prefix.len();
        while k < cs.len()
            invariant
                prefix@.len() <= k <= cs@.len(),
                cs@ == uri@,
                prefix@ == "file://"@,
                rest@ == cs@.subrange(prefix@.len() as int, k as int),
            decreases cs@.len() - k,
        {
            rest.push(cs[k]);
            k = k + 1;
            proof {
                assert(rest@ =~= cs@.subrange(prefix@.len() as int, k as int));
            }
        }
        let base = crate::json::chars_of(self.base_path.as_str());
        proof {
            assert(rest@ =~= uri@.skip(7));
        }
        if base.len() > rest.len() {
            proof {
                assert(!is_prefix(self.base_path@, uri@.skip(7)));
            }
            return None;
        }
        let mut b: usize = 0;
        while b < base.len()
            invariant
                b <= base@.len(),
                base@.len() <= rest@.len(),
                base@ == self.base_path@,
                rest@ == cs@.subrange(prefix@.len() as int, cs@.len() as int),
                forall|k2: int| 0 <= k2 < b ==> rest@[k2] == base@[k2],
            decreases base@.len() - b,
        {
            if rest[b] != base[b] {
                proof {
                    assert(uri@.skip(7)[b as int] != self.base_path@[b as int]);
                    assert(!is_prefix(self.base_path@, uri@.skip(7)));
                }
                return None;
            }
            b = b + 1;
        }
        let p = crate::json::string_of(&rest);
        proof {
            assert(uri@ =~= "file://"@.add(p@));
            assert(is_prefix(self.base_path@, p@));
            assert(is_prefix("file://"@, uri@));
            assert(p@ =~= uri@.skip(7));
        }
        Some(p)
    }
}

/// The index of the last dot in a path, if it has one.
pub open spec fn spec_last_dot(s: Seq<char>) -> Option<int>
    decreases s.len(),
{
    if s.len() == 0 {
        None
    } else if s.last() == '.' {
        Some(s.len() - 1)
    } else {
        spec_last_dot(s.drop_last())
    }
}

/// The extension of a path: the text after its last dot.
pub open spec fn spec_ext(s: Seq<char>) -> Option<Seq<char>> {
    match spec_last_dot(s) {
        Some(d) => Some(s.subrange(d + 1, s.len() as int)),
        None => None,
    }
}

/// Whether an extension list names an extension.
pub open spec fn spec_names_ext(allowed: Seq<String>, ext: Seq<char>) -> bool {
    exists|k: int| 0 <= k < allowed.len() && (#[trigger] allowed[k])@ == ext
}

/// Whether `a` starts `b`.
pub open spec fn is_prefix(a: Seq<char>, b: Seq<char>) -> bool {
    a.len() <= b.len() && forall|k: int| 0 <= k < a.len() ==> a[k] == #[trigger] b[k]
}

} // verus!
