//! Lexicographic order on strings, by character code point.
//!
//! List surfaces return their items sorted by primary key; this order is
//! the one they sort by.

use vstd::prelude::*;

verus! {

/// Whether `a` is at or before `b`, comparing from position `i` on.
pub open spec fn lex_leq_from(a: Seq<char>, b: Seq<char>, i: int) -> bool
    decreases a.len() - i,
{
    if i < 0 || i >= a.len() {
        true
    } else if i >= b.len() {
        false
    } else if (a[i] as u32) < (b[i] as u32) {
        true
    } else if (a[i] as u32) > (b[i] as u32) {
        false
    } else {
        lex_leq_from(a, b, i + 1)
    }
}

/// Whether `a` is at or before `b` in lexicographic order.
pub open spec fn lex_leq(a: Seq<char>, b: Seq<char>) -> bool {
    lex_leq_from(a, b, 0)
}

/// The order is total: two strings are always comparable.
pub proof fn lemma_lex_total(a: Seq<char>, b: Seq<char>)
    ensures
        lex_leq(a, b) || lex_leq(b, a),
{
    lemma_lex_total_from(a, b, 0);
}

proof fn lemma_lex_total_from(a: Seq<char>, b: Seq<char>, i: int)
    requires
        0 <= i,
    ensures
        lex_leq_from(a, b, i) || lex_leq_from(b, a, i),
    decreases a.len() - i,
{
    if i < a.len() && i < b.len() && (a[i] as u32) == (b[i] as u32) {
        lemma_lex_total_from(a, b, i + 1);
    }
}

/// The order is reflexive.
pub proof fn lemma_lex_refl(a: Seq<char>)
    ensures
        lex_leq(a, a),
{
    lemma_lex_refl_from(a, 0);
}

proof fn lemma_lex_refl_from(a: Seq<char>, i: int)
    requires
        0 <= i,
    ensures
        lex_leq_from(a, a, i),
    decreases a.len() - i,
{
    if i < a.len() {
        lemma_lex_refl_from(a, i + 1);
    }
}

/// The order is transitive.
pub proof fn lemma_lex_trans(a: Seq<char>, b: Seq<char>, c: Seq<char>)
    requires
        lex_leq(a, b),
        lex_leq(b, c),
    ensures
        lex_leq(a, c),
{
    lemma_lex_trans_from(a, b, c, 0);
}

proof fn lemma_lex_trans_from(a: Seq<char>, b: Seq<char>, c: Seq<char>, i: int)
    requires
        0 <= i,
        lex_leq_from(a, b, i),
        lex_leq_from(b, c, i),
    ensures
        lex_leq_from(a, c, i),
    decreases a.len() - i,
{
    if i < a.len() {
        if i < b.len() && i < c.len() && (a[i] as u32) == (b[i] as u32) && (b[i] as u32) == (
        c[i] as u32) {
            lemma_lex_trans_from(a, b, c, i + 1);
        }
    }
}

/// Whether `a` is at or before `b`, as the order says.
#[verifier::loop_isolation(false)]
pub fn str_leq(a: &str, b: &str) -> (r: bool)
    ensures
        r == lex_leq(a@, b@),
{
    let ca = crate::json::chars_of(a);
    let cb = crate::json::chars_of(b);
    let mut i: usize = 0;
    loop
        invariant
            0 <= i <= ca@.len(),
            ca@ == a@,
            cb@ == b@,
            lex_leq(a@, b@) == lex_leq_from(a@, b@, i as int),
        decreases ca@.len() - i,
    {
        if i >= ca.len() {
            return true;
        }
        if i >= cb.len() {
            return false;
        }
        let x: u32 = ca[i] as u32;
        let y: u32 = cb[i] as u32;
        if x != y {
            return x < y;
        }
        i = i + 1;
    }
}

} // verus!
