//! The printer and the parser agree: parsing the canonical text of a
//! scalar document gives the document back.
//!
//! The law covers every document whose integers fit a signed 64-bit
//! number — all the printer's callers hold such integers — including
//! every escape the printer emits, and arrays and objects of any depth.

use vstd::prelude::*;

use crate::json::Json;
use crate::json::digit_char;
use crate::json::hex_char;
use crate::json::spec_digits;
use crate::json::spec_escape;
use crate::json::spec_escape_char;
use crate::json::spec_escape_prefix;
use crate::json::spec_int_chars;
use crate::json::spec_print;
use crate::json::spec_quoted;
use crate::parse::digit_run_end;
use crate::parse::digits_val;
use crate::parse::hex_val;
use crate::parse::is_digit;
use crate::parse::is_ws;
use crate::parse::only_ws_from;
use crate::parse::pow10;
use crate::parse::spec_parse;
use crate::parse::spec_parse_elems;
use crate::parse::spec_parse_elems_rest;
use crate::parse::spec_parse_entries;
use crate::parse::spec_parse_entries_rest;
use crate::parse::spec_parse_entry_value;
use crate::parse::spec_parse_escape;
use crate::parse::spec_parse_int;
use crate::parse::spec_parse_string;
use crate::parse::spec_parse_value;

verus! {

/// One character of an embedded text, read off the host sequence.
proof fn lemma_sub_index(s: Seq<char>, i: int, t: Seq<char>, k: int)
    requires
        0 <= i,
        i + t.len() <= s.len(),
        s.subrange(i, i + t.len()) == t,
        0 <= k < t.len(),
    ensures
        s[i + k] == t[k],
{
    assert(s.subrange(i, i + t.len())[k] == s[i + k]);
}

/// A digit character reads back its value.
proof fn lemma_digit_char_code(d: nat)
    requires
        d < 10,
    ensures
        (digit_char(d) as u32) == 48 + d,
        is_digit(digit_char(d)),
{
    let b: u8 = (48 + d) as u8;
    assert(b == 48 + d);
    assert((b as char) as u32 == b as u32);
}

/// Decimal text is digits, and at least one of them.
proof fn lemma_digits_are_digits(n: nat)
    ensures
        spec_digits(n).len() >= 1,
        forall|k: int| 0 <= k < spec_digits(n).len() ==> is_digit(#[trigger] spec_digits(n)[k]),
    decreases n,
{
    if n < 10 {
        assert(spec_digits(n)[0] == digit_char(n));
        assert(is_digit(digit_char(n)));
    } else {
        lemma_digits_are_digits(n / 10);
        assert forall|k: int|
            0 <= k < spec_digits(n).len() implies is_digit(#[trigger] spec_digits(n)[k]) by {
            if k < spec_digits(n / 10).len() {
                assert(spec_digits(n)[k] == spec_digits(n / 10)[k]);
            } else {
                assert(spec_digits(n)[k] == digit_char(n % 10));
            }
        }
    }
}

/// A number below ten to the `k` prints to at most `k` digits.
proof fn lemma_digits_len(n: nat, k: nat)
    requires
        k >= 1,
        n < pow10(k),
    ensures
        spec_digits(n).len() <= k,
    decreases k,
{
    if n >= 10 {
        assert(pow10(k) == 10 * pow10((k - 1) as nat));
        lemma_digits_len(n / 10, (k - 1) as nat);
    }
}

/// The digit run over embedded decimal text ends exactly where the text
/// does, provided no digit follows.
proof fn lemma_run_end(s: Seq<char>, i: int, t: Seq<char>)
    requires
        0 <= i,
        i + t.len() <= s.len(),
        s.subrange(i, i + t.len()) == t,
        forall|k: int| 0 <= k < t.len() ==> is_digit(#[trigger] t[k]),
        i + t.len() == s.len() || !is_digit(s[i + t.len()]),
    ensures
        digit_run_end(s, i) == i + t.len(),
    decreases t.len(),
{
    if t.len() == 0 {
    } else {
        lemma_sub_index(s, i, t, 0);
        assert(is_digit(s[i]));
        let t2 = t.drop_first();
        assert(s.subrange(i + 1, i + 1 + t2.len()) =~= t2) by {
            assert forall|k: int| 0 <= k < t2.len() implies s.subrange(
                i + 1,
                i + 1 + t2.len(),
            )[k] == t2[k] by {
                lemma_sub_index(s, i, t, k + 1);
            }
        }
        lemma_run_end(s, i + 1, t2);
    }
}

/// A span of digits closed by a non-digit is exactly a digit run.
proof fn lemma_run_exact(s: Seq<char>, x: int, y: int)
    requires
        0 <= x <= y <= s.len(),
        forall|k: int| x <= k < y ==> is_digit(#[trigger] s[k]),
        y == s.len() || !is_digit(s[y]),
    ensures
        digit_run_end(s, x) == y,
    decreases y - x,
{
    if x < y {
        lemma_run_exact(s, x + 1, y);
    }
}

/// A digit run is made of digits and stops at a non-digit.
proof fn lemma_run_props(t: Seq<char>, a: int)
    requires
        0 <= a <= t.len(),
    ensures
        a <= digit_run_end(t, a) <= t.len(),
        forall|k: int| a <= k < digit_run_end(t, a) ==> is_digit(#[trigger] t[k]),
        digit_run_end(t, a) < t.len() ==> !is_digit(t[digit_run_end(t, a)]),
    decreases t.len() - a,
{
    if a < t.len() && is_digit(t[a]) {
        lemma_run_props(t, a + 1);
    }
}

/// A digit run inside embedded text mirrors the run in the text, when
/// no digit follows the embedding.
proof fn lemma_run_embed(s: Seq<char>, i: int, t: Seq<char>, a: int)
    requires
        0 <= i,
        i + t.len() <= s.len(),
        s.subrange(i, i + t.len()) == t,
        0 <= a <= t.len(),
        i + t.len() == s.len() || !is_digit(s[i + t.len()]),
    ensures
        digit_run_end(s, i + a) == i + digit_run_end(t, a),
{
    lemma_run_props(t, a);
    let b = digit_run_end(t, a);
    assert forall|k: int| i + a <= k < i + b implies is_digit(#[trigger] s[k]) by {
        lemma_sub_index(s, i, t, k - i);
    }
    if b < t.len() {
        lemma_sub_index(s, i, t, b);
        assert(!is_digit(s[i + b]));
    }
    lemma_run_exact(s, i + a, i + b);
}

/// The value of embedded digits is the value of the digits themselves.
proof fn lemma_digits_val_embed(s: Seq<char>, i: int, t: Seq<char>, a: int, b: int)
    requires
        0 <= i,
        i + t.len() <= s.len(),
        s.subrange(i, i + t.len()) == t,
        0 <= a <= b <= t.len(),
    ensures
        crate::parse::digits_val(s, i + a, i + b) == crate::parse::digits_val(t, a, b),
    decreases b - a,
{
    if a < b {
        lemma_digits_val_embed(s, i, t, a, b - 1);
        lemma_sub_index(s, i, t, b - 1);
    }
}

/// The value of embedded decimal text is the number it printed.
proof fn lemma_digits_val(s: Seq<char>, i: int, n: nat)
    requires
        0 <= i,
        i + spec_digits(n).len() <= s.len(),
        s.subrange(i, i + spec_digits(n).len()) == spec_digits(n),
    ensures
        digits_val(s, i, i + spec_digits(n).len()) == n,
    decreases n,
{
    let t = spec_digits(n);
    if n < 10 {
        lemma_sub_index(s, i, t, 0);
        assert(s[i] == digit_char(n));
        lemma_digit_char_code(n);
        assert(digits_val(s, i, i) == 0);
        assert(digits_val(s, i, i + 1) == digits_val(s, i, i) * 10 + (s[i] as u32 - 48));
    } else {
        let t0 = spec_digits(n / 10);
        assert(s.subrange(i, i + t0.len()) =~= t0) by {
            assert forall|k: int| 0 <= k < t0.len() implies s.subrange(i, i + t0.len())[k]
                == t0[k] by {
                lemma_sub_index(s, i, t, k);
                assert(t[k] == t0[k]);
            }
        }
        lemma_digits_val(s, i, n / 10);
        lemma_sub_index(s, i, t, t.len() - 1);
        assert(s[i + t.len() - 1] == digit_char(n % 10));
        lemma_digit_char_code(n % 10);
        assert(digits_val(s, i, i + t.len()) == digits_val(s, i, i + t.len() - 1) * 10 + (s[i
            + t.len() - 1] as u32 - 48));
    }
}

/// Parsing embedded integer text gives the integer back, provided no
/// digit follows it.
proof fn lemma_parse_int_print(s: Seq<char>, i: int, v: int)
    requires
        0 <= i,
        -0x8000_0000_0000_0000 <= v < 0x8000_0000_0000_0000,
        i + spec_int_chars(v).len() <= s.len(),
        s.subrange(i, i + spec_int_chars(v).len()) == spec_int_chars(v),
        i + spec_int_chars(v).len() == s.len() || !is_digit(s[i + spec_int_chars(v).len()]),
    ensures
        spec_parse_int(s, i) == Some((v, i + spec_int_chars(v).len())),
{
    let t = spec_int_chars(v);
    crate::parse::lemma_pow10_eighteen();
    if v < 0 {
        let d = spec_digits((-v) as nat);
        lemma_sub_index(s, i, t, 0);
        assert(s[i] == '-');
        assert(!is_digit('-'));
        assert(s.subrange(i + 1, i + 1 + d.len()) =~= d) by {
            assert forall|k: int| 0 <= k < d.len() implies s.subrange(i + 1, i + 1 + d.len())[k]
                == d[k] by {
                lemma_sub_index(s, i, t, k + 1);
            }
        }
        lemma_digits_are_digits((-v) as nat);
        lemma_digits_len((-v) as nat, 19);
        lemma_run_end(s, i + 1, d);
        lemma_digits_val(s, i + 1, (-v) as nat);
    } else {
        lemma_digits_are_digits(v as nat);
        lemma_digits_len(v as nat, 19);
        lemma_sub_index(s, i, t, 0);
        assert(s[i] != '-') by {
            assert(is_digit(t[0]));
        }
        lemma_run_end(s, i, t);
        lemma_digits_val(s, i, v as nat);
    }
}

/// An exponent part of embedded text mirrors the part in the text, when
/// nothing that could extend a number follows the embedding.
proof fn lemma_exp_embed(s: Seq<char>, i: int, t: Seq<char>, a: int)
    requires
        0 <= i,
        i + t.len() <= s.len(),
        s.subrange(i, i + t.len()) == t,
        0 <= a <= t.len(),
        crate::parse::spec_exp_end(t, a) == Some(t.len() as int),
        i + t.len() == s.len() || !(is_digit(s[i + t.len()]) || s[i + t.len()] == '.' || s[i
            + t.len()] == 'e' || s[i + t.len()] == 'E'),
    ensures
        crate::parse::spec_exp_end(s, i + a) == Some(i + t.len()),
{
    let n = t.len() as int;
    if a < n && (t[a] == 'e' || t[a] == 'E') {
        lemma_sub_index(s, i, t, a);
        assert(s[i + a] == t[a]);
        assert(a + 1 < n) by {
            if a + 1 >= n {
                assert(digit_run_end(t, a + 1) == a + 1);
            }
        }
        lemma_sub_index(s, i, t, a + 1);
        let pt: int = if t[a + 1] == '+' || t[a + 1] == '-' {
            a + 2
        } else {
            a + 1
        };
        assert(s[i + a + 1] == t[a + 1]);
        lemma_run_embed(s, i, t, pt);
        assert(digit_run_end(t, pt) == n);
        assert(digit_run_end(s, i + pt) == i + n);
        assert(n != pt);
    } else {
        assert(a == n);
        if i + n < s.len() {
            assert(!(s[i + n] == 'e' || s[i + n] == 'E'));
        }
    }
}

/// Embedded plain-integer text parses as that integer under the number
/// grammar, when nothing that could extend a number follows it.
proof fn lemma_parse_number_int(s: Seq<char>, i: int, v: int)
    requires
        0 <= i,
        -0x8000_0000_0000_0000 <= v < 0x8000_0000_0000_0000,
        i + spec_int_chars(v).len() <= s.len(),
        s.subrange(i, i + spec_int_chars(v).len()) == spec_int_chars(v),
        i + spec_int_chars(v).len() == s.len() || !(is_digit(s[i + spec_int_chars(v).len()])
            || s[i + spec_int_chars(v).len()] == '.' || s[i + spec_int_chars(v).len()] == 'e'
            || s[i + spec_int_chars(v).len()] == 'E'),
    ensures
        crate::parse::spec_parse_number(s, i) == Some(
            (Json::Int(v), i + spec_int_chars(v).len()),
        ),
{
    lemma_parse_int_print(s, i, v);
    let t = spec_int_chars(v);
    let end = i + t.len();
    lemma_sub_index(s, i, t, 0);
    if v < 0 {
        assert(s[i] == '-');
        assert(digit_run_end(s, i + 1) == end);
    } else {
        lemma_digits_are_digits(v as nat);
        assert(is_digit(s[i]));
        assert(s[i] != '-');
        assert(digit_run_end(s, i) == end);
    }
    assert(crate::parse::spec_exp_end(s, end) == Some(end)) by {
        if end < s.len() {
            assert(!(s[end] == 'e' || s[end] == 'E'));
        }
    }
    assert(crate::parse::spec_number_tail(s, end) == Some((true, end))) by {
        if end < s.len() {
            assert(s[end] != '.');
        }
    }
}

/// An embedded number lexeme that scans back to itself parses as `Num`
/// of itself, when nothing that could extend a number follows it.
proof fn lemma_parse_number_num(s: Seq<char>, i: int, t: Seq<char>)
    requires
        0 <= i,
        i + t.len() <= s.len(),
        s.subrange(i, i + t.len()) == t,
        crate::parse::spec_parse_number(t, 0) == Some((Json::Num(t), t.len() as int)),
        i + t.len() == s.len() || !(is_digit(s[i + t.len()]) || s[i + t.len()] == '.' || s[i
            + t.len()] == 'e' || s[i + t.len()] == 'E'),
    ensures
        crate::parse::spec_parse_number(s, i) == Some((Json::Num(t), i + t.len())),
{
    let n = t.len() as int;
    let end = i + n;
    assert(n > 0);
    lemma_sub_index(s, i, t, 0);
    let d0t: int = if t[0] == '-' {
        1
    } else {
        0
    };
    let e1t = digit_run_end(t, d0t);
    assert(e1t != d0t);
    lemma_run_props(t, d0t);
    lemma_run_embed(s, i, t, d0t);
    assert(digit_run_end(s, i + d0t) == i + e1t);
    let tail_t = crate::parse::spec_number_tail(t, e1t);
    assert(tail_t matches Some((p, e)) && e == n);
    let plain_t = tail_t->Some_0.0;
    assert(crate::parse::spec_number_tail(s, i + e1t) == Some((plain_t, end))) by {
        if e1t < n && t[e1t] == '.' {
            lemma_sub_index(s, i, t, e1t);
            assert(s[i + e1t] == '.');
            let ft = digit_run_end(t, e1t + 1);
            assert(ft != e1t + 1);
            lemma_run_embed(s, i, t, e1t + 1);
            assert(digit_run_end(s, i + e1t + 1) == i + ft);
            assert(crate::parse::spec_exp_end(t, ft) == Some(n));
            lemma_exp_embed(s, i, t, ft);
        } else {
            if e1t < n {
                lemma_sub_index(s, i, t, e1t);
                assert(s[i + e1t] != '.');
            } else {
                if end < s.len() {
                    assert(s[end] != '.');
                }
            }
            assert(crate::parse::spec_exp_end(t, e1t) == Some(n));
            lemma_exp_embed(s, i, t, e1t);
            assert(plain_t == (e1t == n));
        }
    }
    if plain_t {
        assert(e1t == n);
        assert(crate::parse::spec_parse_int(t, 0) is None);
        assert(crate::parse::spec_parse_int(s, i) is None) by {
            lemma_digits_val_embed(s, i, t, d0t, n);
            assert(crate::parse::digits_val(s, i + d0t, i + n) == crate::parse::digits_val(
                t,
                d0t,
                n,
            ));
        }
    }
    assert(s.subrange(i, end) == t);
}

/// Escaped text decomposes at its first character.
proof fn lemma_escape_head(t: Seq<char>)
    requires
        t.len() > 0,
    ensures
        spec_escape(t) == spec_escape_char(t[0]).add(spec_escape(t.drop_first())),
{
    lemma_escape_prefix_head(t, t.len() as int);
}

proof fn lemma_escape_prefix_head(t: Seq<char>, n: int)
    requires
        1 <= n <= t.len(),
    ensures
        spec_escape_prefix(t, n) == spec_escape_char(t[0]).add(
            spec_escape_prefix(t.drop_first(), n - 1),
        ),
    decreases n,
{
    let t2 = t.drop_first();
    if n == 1 {
        assert(spec_escape_prefix(t, 0) == Seq::<char>::empty());
        assert(spec_escape_prefix(t2, 0) == Seq::<char>::empty());
        assert(spec_escape_prefix(t, 1) == spec_escape_prefix(t, 0).add(spec_escape_char(t[0])));
        assert(spec_escape_prefix(t, 1) =~= spec_escape_char(t[0]).add(
            spec_escape_prefix(t2, 0),
        ));
    } else {
        lemma_escape_prefix_head(t, n - 1);
        assert(t[n - 1] == t2[n - 2]);
        assert(spec_escape_prefix(t, n) =~= spec_escape_char(t[0]).add(
            spec_escape_prefix(t2, n - 1),
        ));
    }
}

/// Hexadecimal digits read back their value.
proof fn lemma_hex_val(d: nat)
    requires
        d < 16,
    ensures
        hex_val(hex_char(d)) == Some((d as u32)),
{
    if d < 10 {
        assert((hex_char(d) as u32) == 48 + d);
    } else {
        assert((hex_char(d) as u32) == 87 + d);
    }
}

/// Parsing an embedded printed escape gives the character back.
proof fn lemma_parse_escape_char(s: Seq<char>, i: int, c: char)
    requires
        0 <= i,
        spec_escape_char(c)[0] == '\\',
        i + spec_escape_char(c).len() <= s.len(),
        s.subrange(i, i + spec_escape_char(c).len()) == spec_escape_char(c),
    ensures
        spec_parse_escape(s, i) == Some((c, i + spec_escape_char(c).len())),
{
    let t = spec_escape_char(c);
    if c == '"' || c == '\\' || c == '\n' || c == '\r' || c == '\t' {
        lemma_sub_index(s, i, t, 0);
        lemma_sub_index(s, i, t, 1);
    } else {
        assert((c as u32) < 32);
        lemma_sub_index(s, i, t, 0);
        lemma_sub_index(s, i, t, 1);
        lemma_sub_index(s, i, t, 2);
        lemma_sub_index(s, i, t, 3);
        lemma_sub_index(s, i, t, 4);
        lemma_sub_index(s, i, t, 5);
        assert(s[i + 1] == 'u');
        assert(hex_val('0') == Some(0u32));
        let hi = ((c as u32) / 16) as nat;
        let lo = ((c as u32) % 16) as nat;
        lemma_hex_val(hi);
        lemma_hex_val(lo);
        assert(s[i + 4] == hex_char(hi));
        assert(s[i + 5] == hex_char(lo));
        let code = 0u32 * 4096 + 0u32 * 256 + (hi as u32) * 16 + (lo as u32);
        assert(code == c as u32);
        assert(((code as u32) as char) == c);
    }
}

/// Parsing the embedded escaped body of a string literal, up to its
/// closing quote, gives the string back.
proof fn lemma_parse_string_print(s: Seq<char>, i: int, t: Seq<char>)
    requires
        0 <= i,
        i + spec_escape(t).len() + 1 <= s.len(),
        s.subrange(i, i + spec_escape(t).len() + 1) == spec_escape(t).push('"'),
    ensures
        spec_parse_string(s, i) == Some((t, i + spec_escape(t).len() + 1)),
    decreases t.len(),
{
    let body = spec_escape(t).push('"');
    if t.len() == 0 {
        assert(spec_escape_prefix(t, 0) == Seq::<char>::empty());
        lemma_sub_index(s, i, body, 0);
        assert(s[i] == '"');
        assert(spec_parse_string(s, i) == Some((Seq::<char>::empty(), i + 1)));
        assert(Seq::<char>::empty() =~= t);
    } else {
        lemma_escape_head(t);
        let c = t[0];
        let e = spec_escape_char(c);
        let t2 = t.drop_first();
        let rest_body = spec_escape(t2).push('"');
        assert(body =~= e.add(rest_body));
        assert forall|k: int| 0 <= k < e.len() implies s[i + k] == e[k] by {
            lemma_sub_index(s, i, body, k);
        }
        assert(s.subrange(i + e.len(), i + e.len() + rest_body.len()) =~= rest_body) by {
            assert forall|k: int| 0 <= k < rest_body.len() implies s.subrange(
                i + e.len(),
                i + e.len() + rest_body.len(),
            )[k] == rest_body[k] by {
                lemma_sub_index(s, i, body, e.len() + k);
            }
        }
        lemma_parse_string_print(s, i + e.len(), t2);
        if c == '"' || c == '\\' || c == '\n' || c == '\r' || c == '\t' || (c as u32) < 32 {
            assert(e[0] == '\\');
            assert(s[i] == '\\');
            assert(e.len() >= 2);
            assert(s[i] != '"');
            assert(spec_escape(t).len() + 1 == e.len() + spec_escape(t2).len() + 1) by {
                assert(body.len() == e.len() + rest_body.len());
            }
            assert(s.subrange(i, i + e.len()) =~= e) by {
                assert forall|k: int| 0 <= k < e.len() implies s.subrange(i, i + e.len())[k]
                    == e[k] by {
                    lemma_sub_index(s, i, body, k);
                }
            }
            lemma_parse_escape_char(s, i, c);
            let pe = spec_parse_escape(s, i);
            assert(pe == Some((c, i + e.len())));
            let ps = spec_parse_string(s, i + e.len());
            assert(ps == Some((t2, i + e.len() + spec_escape(t2).len() + 1)));
            assert(spec_parse_string(s, i) == Some(
                (seq![c].add(t2), i + e.len() + spec_escape(t2).len() + 1),
            ));
            assert(spec_parse_string(s, i) == Some(
                (seq![c].add(t2), i + spec_escape(t).len() + 1),
            ));
            assert(seq![c].add(t2) =~= t);
        } else {
            assert(e =~= seq![c]);
            assert(s[i + 0] == e[0]);
            assert(s[i] == c);
            assert((c as u32) >= 32);
            assert(c != '"' && c != '\\');
            assert(spec_parse_string(s, i) == Some(
                (seq![c].add(t2), i + spec_escape(t).len() + 1),
            ));
            assert(seq![c].add(t2) =~= t);
        }
    }
}

/// Text sitting inside a host sequence at a position.
pub open spec fn embedded(s: Seq<char>, i: int, t: Seq<char>) -> bool {
    0 <= i && i + t.len() <= s.len() && s.subrange(i, i + t.len()) == t
}

/// Splitting an embedded concatenation embeds both halves.
proof fn lemma_embed_split(s: Seq<char>, i: int, a: Seq<char>, b: Seq<char>)
    requires
        embedded(s, i, a.add(b)),
    ensures
        embedded(s, i, a),
        embedded(s, i + a.len(), b),
{
    assert(s.subrange(i, i + a.len()) =~= a) by {
        assert forall|k: int| 0 <= k < a.len() implies s.subrange(i, i + a.len())[k] == a[k] by {
            lemma_sub_index(s, i, a.add(b), k);
        }
    }
    assert(s.subrange(i + a.len(), i + a.len() + b.len()) =~= b) by {
        assert forall|k: int| 0 <= k < b.len() implies s.subrange(
            i + a.len(),
            i + a.len() + b.len(),
        )[k] == b[k] by {
            lemma_sub_index(s, i, a.add(b), a.len() + k);
        }
    }
}

/// Whether every number in a document round-trips: an integer fits a
/// signed 64-bit number — the machine bound every integer the printer
/// is handed satisfies — and a number carried as text is a lexeme the
/// number grammar scans back to itself whole.
pub open spec fn bounded_ints(j: Json) -> bool
    decreases j,
{
    match j {
        Json::Int(n) => -0x8000_0000_0000_0000 <= n < 0x8000_0000_0000_0000,
        Json::Num(t) => crate::parse::spec_parse_number(t, 0) == Some(
            (Json::Num(t), t.len() as int),
        ),
        Json::Arr(elems) => forall|k: int|
            0 <= k < elems.len() ==> bounded_ints(#[trigger] elems[k]),
        Json::Obj(entries) => forall|k: int|
            0 <= k < entries.len() ==> bounded_ints((#[trigger] entries[k]).1),
        _ => true,
    }
}

/// The text after the elements from `m` on in a printed array: each
/// preceded by a comma, then the closing bracket.
pub open spec fn elems_tail_text(elems: Seq<Json>, m: int) -> Seq<char>
    decreases elems, elems.len() - m,
{
    if m < 0 || m >= elems.len() {
        seq![']']
    } else {
        seq![','].add(spec_print(elems[m])).add(elems_tail_text(elems, m + 1))
    }
}

/// The text after the entries from `m` on in a printed object.
pub open spec fn entries_tail_text(entries: Seq<(Seq<char>, Json)>, m: int) -> Seq<char>
    decreases entries, entries.len() - m,
{
    if m < 0 || m >= entries.len() {
        seq!['}']
    } else {
        seq![','].add(spec_quoted(entries[m].0)).push(':').add(spec_print(entries[m].1)).add(
            entries_tail_text(entries, m + 1),
        )
    }
}

/// A printed array body is its first element followed by the tail text.
proof fn lemma_array_body(elems: Seq<Json>)
    requires
        elems.len() >= 1,
    ensures
        crate::json::spec_print_elems(elems, elems.len() as int).push(']') == spec_print(
            elems[0],
        ).add(elems_tail_text(elems, 1)),
{
    lemma_array_body_step(elems, elems.len() as int);
    assert(crate::json::spec_print_elems(elems, 1) == spec_print(elems[0]));
    assert(elems_tail_text(elems, elems.len() as int) =~= seq![']']);
    assert(crate::json::spec_print_elems(elems, elems.len() as int).push(']')
        =~= crate::json::spec_print_elems(elems, elems.len() as int).add(
        elems_tail_text(elems, elems.len() as int),
    ));
}

proof fn lemma_array_body_step(elems: Seq<Json>, n: int)
    requires
        1 <= n <= elems.len(),
    ensures
        crate::json::spec_print_elems(elems, n).add(elems_tail_text(elems, n)) == spec_print(
            elems[0],
        ).add(elems_tail_text(elems, 1)),
    decreases n,
{
    if n == 1 {
        assert(crate::json::spec_print_elems(elems, 1).add(elems_tail_text(elems, 1))
            =~= spec_print(elems[0]).add(elems_tail_text(elems, 1)));
    } else {
        lemma_array_body_step(elems, n - 1);
        assert(elems_tail_text(elems, n - 1) == seq![','].add(spec_print(elems[n - 1])).add(
            elems_tail_text(elems, n),
        ));
        assert(crate::json::spec_print_elems(elems, n).add(elems_tail_text(elems, n))
            =~= crate::json::spec_print_elems(elems, n - 1).add(elems_tail_text(elems, n - 1)));
    }
}

/// A printed object body is its first entry followed by the tail text.
proof fn lemma_object_body(entries: Seq<(Seq<char>, Json)>)
    requires
        entries.len() >= 1,
    ensures
        crate::json::spec_print_entries(entries, entries.len() as int).push('}') == spec_quoted(
            entries[0].0,
        ).push(':').add(spec_print(entries[0].1)).add(entries_tail_text(entries, 1)),
{
    lemma_object_body_step(entries, entries.len() as int);
    assert(crate::json::spec_print_entries(entries, 1) == spec_quoted(entries[0].0).push(
        ':',
    ).add(spec_print(entries[0].1)));
    assert(entries_tail_text(entries, entries.len() as int) =~= seq!['}']);
    assert(crate::json::spec_print_entries(entries, entries.len() as int).push('}')
        =~= crate::json::spec_print_entries(entries, entries.len() as int).add(
        entries_tail_text(entries, entries.len() as int),
    ));
}

proof fn lemma_object_body_step(entries: Seq<(Seq<char>, Json)>, n: int)
    requires
        1 <= n <= entries.len(),
    ensures
        crate::json::spec_print_entries(entries, n).add(entries_tail_text(entries, n))
            == spec_quoted(entries[0].0).push(':').add(spec_print(entries[0].1)).add(
            entries_tail_text(entries, 1),
        ),
    decreases n,
{
    if n == 1 {
        assert(crate::json::spec_print_entries(entries, 1).add(entries_tail_text(entries, 1))
            =~= spec_quoted(entries[0].0).push(':').add(spec_print(entries[0].1)).add(
            entries_tail_text(entries, 1),
        ));
    } else {
        lemma_object_body_step(entries, n - 1);
        assert(entries_tail_text(entries, n - 1) == seq![','].add(
            spec_quoted(entries[n - 1].0),
        ).push(':').add(spec_print(entries[n - 1].1)).add(entries_tail_text(entries, n)));
        assert(crate::json::spec_print_entries(entries, n).add(entries_tail_text(entries, n))
            =~= crate::json::spec_print_entries(entries, n - 1).add(
            entries_tail_text(entries, n - 1),
        ));
    }
}

/// A printed document starts with its dispatch character: never
/// whitespace, never a closing bracket, a comma or a colon.
proof fn lemma_print_first_char(j: Json)
    requires
        bounded_ints(j),
    ensures
        spec_print(j).len() > 0,
        !is_ws(spec_print(j)[0]),
        spec_print(j)[0] != ']',
        spec_print(j)[0] != '}',
        spec_print(j)[0] != ',',
        spec_print(j)[0] != ':',
{
    match j {
        Json::Int(n) => {
            if n >= 0 {
                lemma_digits_are_digits(n as nat);
                assert(spec_print(j)[0] == spec_digits(n as nat)[0]);
                assert(is_digit(spec_print(j)[0]));
            } else {
                assert(spec_print(j)[0] == '-');
            }
        },
        Json::Num(t) => {
            assert(t.len() > 0);
            let d0t: int = if t[0] == '-' {
                1
            } else {
                0
            };
            assert(digit_run_end(t, d0t) != d0t);
            lemma_run_props(t, d0t);
            assert(t[0] == '-' || is_digit(t[0]));
        },
        Json::Str(t) => {
            assert(spec_print(j)[0] == '"');
        },
        _ => {},
    }
}

/// Parsing an embedded printed document gives the document back,
/// provided nothing that could extend a number follows it.
proof fn lemma_value_at(s: Seq<char>, i: int, j: Json)
    requires
        bounded_ints(j),
        embedded(s, i, spec_print(j)),
        i + spec_print(j).len() == s.len() || !(is_digit(s[i + spec_print(j).len()]) || s[i
            + spec_print(j).len()] == '.' || s[i + spec_print(j).len()] == 'e' || s[i
            + spec_print(j).len()] == 'E'),
    ensures
        spec_parse_value(s, i) == Some((j, i + spec_print(j).len())),
    decreases j, 0int, 0int,
{
    let t = spec_print(j);
    lemma_print_first_char(j);
    lemma_sub_index(s, i, t, 0);
    match j {
        Json::Null => {
            lemma_sub_index(s, i, t, 1);
            lemma_sub_index(s, i, t, 2);
            lemma_sub_index(s, i, t, 3);
        },
        Json::Bool(b) => {
            lemma_sub_index(s, i, t, 1);
            lemma_sub_index(s, i, t, 2);
            lemma_sub_index(s, i, t, 3);
            if !b {
                lemma_sub_index(s, i, t, 4);
            }
        },
        Json::Int(n) => {
            lemma_parse_number_int(s, i, n);
            if n >= 0 {
                lemma_digits_are_digits(n as nat);
                assert(is_digit(s[i]));
            }
        },
        Json::Num(u) => {
            lemma_parse_number_num(s, i, u);
            assert(u.len() > 0);
            let d0t: int = if u[0] == '-' {
                1
            } else {
                0
            };
            assert(digit_run_end(u, d0t) != d0t);
            lemma_run_props(u, d0t);
            assert(u[0] == '-' || is_digit(u[0]));
            assert(s[i] == u[0]);
        },
        Json::Str(u) => {
            let body = spec_escape(u).push('"');
            assert(t =~= seq!['"'].add(body));
            lemma_embed_split(s, i, seq!['"'], body);
            lemma_parse_string_print(s, i + 1, u);
        },
        Json::Arr(elems) => {
            let body = elems_tail_or_whole(elems);
            assert(t =~= seq!['['].add(body)) by {
                if elems.len() == 0 {
                    assert(crate::json::spec_print_elems(elems, 0) == Seq::<char>::empty());
                } else {
                    lemma_array_body(elems);
                }
                assert(t == seq!['['].add(
                    crate::json::spec_print_elems(elems, elems.len() as int),
                ).push(']'));
                assert(seq!['['].add(
                    crate::json::spec_print_elems(elems, elems.len() as int),
                ).push(']') =~= seq!['['].add(
                    crate::json::spec_print_elems(elems, elems.len() as int).push(']'),
                ));
            }
            lemma_embed_split(s, i, seq!['['], body);
            if elems.len() == 0 {
                lemma_sub_index(s, i + 1, body, 0);
                assert(s[i + 1] == ']');
                assert(spec_parse_elems(s, i + 1, true) == Some(
                    (Seq::<Json>::empty(), i + 2),
                ));
                assert(Seq::<Json>::empty() =~= elems);
            } else {
                lemma_elems_at(s, i + 1, elems, 0, true);
                assert(elems.skip(0) =~= elems);
            }
        },
        Json::Obj(entries) => {
            let body = entries_tail_or_whole(entries);
            assert(t =~= seq!['{'].add(body)) by {
                if entries.len() == 0 {
                    assert(crate::json::spec_print_entries(entries, 0) == Seq::<char>::empty());
                } else {
                    lemma_object_body(entries);
                }
                assert(t == seq!['{'].add(
                    crate::json::spec_print_entries(entries, entries.len() as int),
                ).push('}'));
                assert(seq!['{'].add(
                    crate::json::spec_print_entries(entries, entries.len() as int),
                ).push('}') =~= seq!['{'].add(
                    crate::json::spec_print_entries(entries, entries.len() as int).push('}'),
                ));
            }
            lemma_embed_split(s, i, seq!['{'], body);
            if entries.len() == 0 {
                lemma_sub_index(s, i + 1, body, 0);
                assert(s[i + 1] == '}');
                assert(spec_parse_entries(s, i + 1, true) == Some(
                    (Seq::<(Seq<char>, Json)>::empty(), i + 2),
                ));
                assert(Seq::<(Seq<char>, Json)>::empty() =~= entries);
            } else {
                lemma_entries_at(s, i + 1, entries, 0, true);
                assert(entries.skip(0) =~= entries);
            }
        },
    }
}

/// The whole printed array body: first element and tail, or the bare
/// closing bracket.
pub open spec fn elems_tail_or_whole(elems: Seq<Json>) -> Seq<char> {
    if elems.len() == 0 {
        seq![']']
    } else {
        spec_print(elems[0]).add(elems_tail_text(elems, 1))
    }
}

/// The whole printed object body: first entry and tail, or the bare
/// closing brace.
pub open spec fn entries_tail_or_whole(entries: Seq<(Seq<char>, Json)>) -> Seq<char> {
    if entries.len() == 0 {
        seq!['}']
    } else {
        spec_quoted(entries[0].0).push(':').add(spec_print(entries[0].1)).add(
            entries_tail_text(entries, 1),
        )
    }
}

/// Parsing from the `k`-th element of a printed array gives the elements
/// from `k` on.
proof fn lemma_elems_at(s: Seq<char>, i: int, elems: Seq<Json>, k: int, allow_empty: bool)
    requires
        0 <= k < elems.len(),
        forall|m: int| 0 <= m < elems.len() ==> bounded_ints(#[trigger] elems[m]),
        embedded(s, i, spec_print(elems[k]).add(elems_tail_text(elems, k + 1))),
    ensures
        spec_parse_elems(s, i, allow_empty) == Some(
            (
                elems.skip(k),
                i + spec_print(elems[k]).add(elems_tail_text(elems, k + 1)).len(),
            ),
        ),
    decreases elems, 1int, 2 * (elems.len() - k),
{
    let e = spec_print(elems[k]);
    let tail = elems_tail_text(elems, k + 1);
    lemma_embed_split(s, i, e, tail);
    lemma_print_first_char(elems[k]);
    lemma_sub_index(s, i, e.add(tail), 0);
    assert(tail.len() >= 1);
    assert(tail[0] == ',' || tail[0] == ']') by {
        if k + 1 < elems.len() {
            assert(tail == seq![','].add(spec_print(elems[k + 1])).add(
                elems_tail_text(elems, k + 2),
            ));
        }
    }
    lemma_sub_index(s, i + e.len(), tail, 0);
    assert(!is_digit(s[i + e.len()]));
    assert(s[i + e.len()] != '.' && s[i + e.len()] != 'e' && s[i + e.len()] != 'E');
    assert(decreases_to!(elems => elems[k]));
    lemma_value_at(s, i, elems[k]);
    lemma_elems_rest_at(s, i + e.len(), elems, k + 1);
    assert(seq![elems[k]].add(elems.skip(k + 1)) =~= elems.skip(k));
}

/// Parsing after one element of a printed array: the comma continues
/// with the remaining elements, the bracket closes with none.
proof fn lemma_elems_rest_at(s: Seq<char>, i: int, elems: Seq<Json>, m: int)
    requires
        1 <= m <= elems.len(),
        forall|k: int| 0 <= k < elems.len() ==> bounded_ints(#[trigger] elems[k]),
        embedded(s, i, elems_tail_text(elems, m)),
    ensures
        spec_parse_elems_rest(s, i) == Some(
            (elems.skip(m), i + elems_tail_text(elems, m).len()),
        ),
    decreases elems, 1int, 2 * (elems.len() - m) + 1,
{
    let tail = elems_tail_text(elems, m);
    lemma_sub_index(s, i, tail, 0);
    if m == elems.len() {
        assert(tail =~= seq![']']);
        assert(s[i] == ']');
        assert(elems.skip(m) =~= Seq::<Json>::empty());
        assert(spec_parse_elems_rest(s, i) == Some((Seq::<Json>::empty(), i + 1)));
    } else {
        assert(tail == seq![','].add(spec_print(elems[m])).add(elems_tail_text(elems, m + 1)));
        assert(s[i] == ',');
        assert(tail =~= seq![','].add(
            spec_print(elems[m]).add(elems_tail_text(elems, m + 1)),
        ));
        lemma_embed_split(
            s,
            i,
            seq![','],
            spec_print(elems[m]).add(elems_tail_text(elems, m + 1)),
        );
        lemma_elems_at(s, i + 1, elems, m, false);
    }
}

/// Parsing from the `k`-th entry of a printed object gives the entries
/// from `k` on.
proof fn lemma_entries_at(
    s: Seq<char>,
    i: int,
    entries: Seq<(Seq<char>, Json)>,
    k: int,
    allow_empty: bool,
)
    requires
        0 <= k < entries.len(),
        forall|m: int| 0 <= m < entries.len() ==> bounded_ints((#[trigger] entries[m]).1),
        embedded(
            s,
            i,
            spec_quoted(entries[k].0).push(':').add(spec_print(entries[k].1)).add(
                entries_tail_text(entries, k + 1),
            ),
        ),
    ensures
        spec_parse_entries(s, i, allow_empty) == Some(
            (
                entries.skip(k),
                i + spec_quoted(entries[k].0).push(':').add(spec_print(entries[k].1)).add(
                    entries_tail_text(entries, k + 1),
                ).len(),
            ),
        ),
    decreases entries, 1int, 2 * (entries.len() - k),
{
    let key = entries[k].0;
    let v = entries[k].1;
    let quoted = spec_quoted(key);
    let tail = entries_tail_text(entries, k + 1);
    let whole = quoted.push(':').add(spec_print(v)).add(tail);
    assert(whole =~= seq!['"'].add(spec_escape(key).push('"')).add(
        seq![':'].add(spec_print(v)).add(tail),
    ));
    lemma_embed_split(
        s,
        i,
        seq!['"'].add(spec_escape(key).push('"')),
        seq![':'].add(spec_print(v)).add(tail),
    );
    let after_key = i + 1 + spec_escape(key).len() + 1;
    assert(embedded(s, i, seq!['"'].add(spec_escape(key).push('"'))));
    lemma_embed_split(s, i, seq!['"'], spec_escape(key).push('"'));
    lemma_sub_index(s, i, whole, 0);
    assert(s[i] == '"');
    assert(!is_ws('"'));
    lemma_parse_string_print(s, i + 1, key);
    let colon_pos = i + 1 + spec_escape(key).len() + 1;
    assert(embedded(s, colon_pos, seq![':'].add(spec_print(v)).add(tail))) by {
        assert(colon_pos == i + seq!['"'].add(spec_escape(key).push('"')).len());
    }
    assert(seq![':'].add(spec_print(v)).add(tail) =~= seq![':'].add(spec_print(v).add(tail)));
    lemma_embed_split(s, colon_pos, seq![':'], spec_print(v).add(tail));
    lemma_sub_index(s, colon_pos, seq![':'].add(spec_print(v).add(tail)), 0);
    assert(s[colon_pos] == ':');
    assert(!is_ws(':'));
    lemma_embed_split(s, colon_pos + 1, spec_print(v), tail);
    lemma_print_first_char(v);
    assert(tail.len() >= 1);
    assert(tail[0] == ',' || tail[0] == '}') by {
        if k + 1 < entries.len() {
            assert(tail == seq![','].add(spec_quoted(entries[k + 1].0)).push(':').add(
                spec_print(entries[k + 1].1),
            ).add(entries_tail_text(entries, k + 2)));
        }
    }
    lemma_sub_index(s, colon_pos + 1 + spec_print(v).len(), tail, 0);
    assert(!is_digit(s[colon_pos + 1 + spec_print(v).len()]));
    assert(s[colon_pos + 1 + spec_print(v).len()] != '.' && s[colon_pos + 1 + spec_print(
        v,
    ).len()] != 'e' && s[colon_pos + 1 + spec_print(v).len()] != 'E');
    assert(decreases_to!(entries => entries[k]));
    assert(decreases_to!(entries[k] => entries[k].1));
    lemma_value_at(s, colon_pos + 1, v);
    assert(spec_parse_entry_value(s, colon_pos) == Some(
        (v, colon_pos + 1 + spec_print(v).len()),
    ));
    lemma_entries_rest_at(s, colon_pos + 1 + spec_print(v).len(), entries, k + 1);
    assert(seq![(key, v)].add(entries.skip(k + 1)) =~= entries.skip(k));
    assert(spec_parse_entries(s, i, allow_empty) == Some(
        (entries.skip(k), i + whole.len()),
    ));
}

/// Parsing after one entry of a printed object: the comma continues with
/// the remaining entries, the brace closes with none.
proof fn lemma_entries_rest_at(s: Seq<char>, i: int, entries: Seq<(Seq<char>, Json)>, m: int)
    requires
        1 <= m <= entries.len(),
        forall|k: int| 0 <= k < entries.len() ==> bounded_ints((#[trigger] entries[k]).1),
        embedded(s, i, entries_tail_text(entries, m)),
    ensures
        spec_parse_entries_rest(s, i) == Some(
            (entries.skip(m), i + entries_tail_text(entries, m).len()),
        ),
    decreases entries, 1int, 2 * (entries.len() - m) + 1,
{
    let tail = entries_tail_text(entries, m);
    lemma_sub_index(s, i, tail, 0);
    if m == entries.len() {
        assert(tail =~= seq!['}']);
        assert(s[i] == '}');
        assert(entries.skip(m) =~= Seq::<(Seq<char>, Json)>::empty());
        assert(spec_parse_entries_rest(s, i) == Some(
            (Seq::<(Seq<char>, Json)>::empty(), i + 1),
        ));
    } else {
        let rest = spec_quoted(entries[m].0).push(':').add(spec_print(entries[m].1)).add(
            entries_tail_text(entries, m + 1),
        );
        assert(tail == seq![','].add(spec_quoted(entries[m].0)).push(':').add(
            spec_print(entries[m].1),
        ).add(entries_tail_text(entries, m + 1)));
        assert(tail =~= seq![','].add(rest));
        assert(s[i] == ',');
        lemma_embed_split(s, i, seq![','], rest);
        lemma_entries_at(s, i + 1, entries, m, false);
    }
}

/// Round trip at the wire: parsing the canonical text of any document
/// whose integers fit eighteen digits gives the document back.
pub proof fn lemma_parse_print(j: Json)
    requires
        bounded_ints(j),
    ensures
        spec_parse(spec_print(j)) == Some(j),
{
    let s = spec_print(j);
    lemma_print_first_char(j);
    assert(s.subrange(0, s.len() as int) =~= s);
    lemma_value_at(s, 0, j);
    assert(only_ws_from(s, s.len() as int));
}

/// Round trip of a whole message over the wire: printing its encoding
/// and parsing the text back gives the encoding, and decoding that gives
/// the message. Integers carried anywhere in the message must fit a
/// signed 64-bit number — the machine bound that every id and payload
/// integer a peer can build already satisfies.
pub proof fn lemma_message_wire_round_trip(m: crate::rpc::MessageView)
    requires
        crate::codec::wf_message(m),
        bounded_ints(crate::codec::spec_encode(m)),
    ensures
        spec_parse(spec_print(crate::codec::spec_encode(m))) == Some(
            crate::codec::spec_encode(m),
        ),
        crate::codec::spec_decode(crate::codec::spec_encode(m)) == Ok::<
            crate::rpc::MessageView,
            int,
        >(m),
{
    lemma_parse_print(crate::codec::spec_encode(m));
    crate::codec::lemma_decode_encode(m);
}

} // verus!
