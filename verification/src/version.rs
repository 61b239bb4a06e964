//! Protocol version negotiation.
//!
//! A version is a date string. The peers of one session agree on the
//! highest version both sides can speak; when they share none, the
//! initialize handshake is answered with `ProtocolVersionMismatch`.

use vstd::prelude::*;

use crate::json::str_eq;

verus! {

/// A protocol version: a `YYYY-MM-DD` date string.
#[derive(Debug, Eq, Hash)]
pub struct ProtocolVersion(pub String);

impl View for ProtocolVersion {
    type V = Seq<char>;

    open spec fn view(&self) -> Seq<char> {
        self.0@
    }
}

impl Clone for ProtocolVersion {
    /// The copy carries the same date string.
    fn clone(&self) -> (r: Self)
        ensures
            r@ == self@,
    {
        ProtocolVersion(self.0.clone())
    }
}

impl PartialEq for ProtocolVersion {
    /// Versions are equal exactly when their date strings are.
    fn eq(&self, other: &Self) -> (r: bool) {
        str_eq(self.0.as_str(), other.0.as_str())
    }
}

impl vstd::std_specs::cmp::PartialEqSpecImpl for ProtocolVersion {
    open spec fn obeys_eq_spec() -> bool {
        true
    }

    open spec fn eq_spec(&self, other: &Self) -> bool {
        self@ == other@
    }
}

/// The newest supported version.
pub open spec fn newest_chars() -> Seq<char> {
    seq!['2', '0', '2', '5', '-', '0', '6', '-', '1', '8']
}

/// The middle supported version.
pub open spec fn middle_chars() -> Seq<char> {
    seq!['2', '0', '2', '5', '-', '0', '3', '-', '2', '6']
}

/// The oldest supported version.
pub open spec fn oldest_chars() -> Seq<char> {
    seq!['2', '0', '2', '4', '-', '1', '1', '-', '0', '5']
}

/// Whether this library supports a version.
pub open spec fn spec_supported(v: Seq<char>) -> bool {
    v == newest_chars() || v == middle_chars() || v == oldest_chars()
}

/// What negotiation gives for two offered versions: the highest version
/// supported by both peers. A peer offering one version supports that
/// version alone, so two offers agree exactly when they are the same
/// supported version; anything else is a mismatch.
pub open spec fn spec_negotiate(a: Seq<char>, b: Seq<char>) -> Option<Seq<char>> {
    if a == b && spec_supported(a) {
        Some(a)
    } else {
        None
    }
}

/// Negotiation does not depend on which side offers which version.
pub proof fn lemma_negotiate_commutes(a: Seq<char>, b: Seq<char>)
    ensures
        spec_negotiate(a, b) == spec_negotiate(b, a),
{
}

impl ProtocolVersion {
    /// A version with the given date string.
    pub fn new(s: &str) -> (r: ProtocolVersion)
        ensures
            r@ == s@,
    {
        ProtocolVersion(s.to_owned())
    }

    /// A version with the given date string.
    pub fn from_str(s: &str) -> (r: ProtocolVersion)
        ensures
            r@ == s@,
    {
        ProtocolVersion::new(s)
    }

    /// The version this library offers at initialize.
    pub fn latest() -> (r: ProtocolVersion)
        ensures
            r@ == middle_chars(),
    {
        proof {
            reveal_strlit("2025-03-26");
            assert("2025-03-26"@ =~= middle_chars());
        }
        ProtocolVersion::new("2025-03-26")
    }

    /// True on the versions this library speaks.
    pub fn is_supported(&self) -> (r: bool)
        ensures
            r == spec_supported(self@),
    {
        proof {
            reveal_strlit("2025-06-18");
            reveal_strlit("2025-03-26");
            reveal_strlit("2024-11-05");
            assert("2025-06-18"@ =~= newest_chars());
            assert("2025-03-26"@ =~= middle_chars());
            assert("2024-11-05"@ =~= oldest_chars());
        }
        str_eq(self.0.as_str(), "2025-06-18") || str_eq(self.0.as_str(), "2025-03-26") || str_eq(
            self.0.as_str(),
            "2024-11-05",
        )
    }

    /// The version two peers agree on, if any: the highest version both
    /// support. Single offers agree exactly when they are the same
    /// supported version; anything else is a mismatch.
    pub fn negotiate(client: &ProtocolVersion, server: &ProtocolVersion) -> (r: Option<
        ProtocolVersion,
    >)
        ensures
            match r {
                Some(v) => spec_negotiate(client@, server@) == Some(v@),
                None => spec_negotiate(client@, server@) is None,
            },
    {
        if str_eq(client.0.as_str(), server.0.as_str()) && client.is_supported() {
            Some(client.clone())
        } else {
            None
        }
    }

    /// The date string of this version.
    pub fn as_str(&self) -> (r: &str)
        ensures
            r@ == self@,
    {
        self.0.as_str()
    }
}

} // verus!
