//! JSON text parser.
//!
//! `spec_parse` is the grammar: a recursive descent over a character
//! sequence, each function returning the parsed model and the position
//! after it. The executable parser returns exactly what the grammar says,
//! position for position. Numbers are accepted exactly when their value
//! fits a signed 64-bit integer; fractions and exponents are not part of
//! the protocol and are rejected.

use vstd::prelude::*;

use crate::json::Json;
use crate::json::JsonValue;
use crate::json::chars_of;
use crate::json::string_of;

verus! {

/// JSON whitespace.
pub open spec fn is_ws(c: char) -> bool {
    c == ' ' || c == '\t' || c == '\n' || c == '\r'
}

/// A decimal digit.
pub open spec fn is_digit(c: char) -> bool {
    48 <= (c as u32) <= 57
}

/// The value of a hexadecimal digit, if the character is one.
pub open spec fn hex_val(c: char) -> Option<u32> {
    if 48 <= (c as u32) <= 57 {
        Some((c as u32 - 48) as u32)
    } else if 97 <= (c as u32) <= 102 {
        Some((c as u32 - 87) as u32)
    } else if 65 <= (c as u32) <= 70 {
        Some((c as u32 - 55) as u32)
    } else {
        None
    }
}

/// The end of the run of decimal digits that starts at `i`.
pub open spec fn digit_run_end(s: Seq<char>, i: int) -> int
    decreases s.len() - i,
{
    if 0 <= i < s.len() && is_digit(s[i]) {
        digit_run_end(s, i + 1)
    } else {
        i
    }
}

/// The value of the digits `s[i..j)`.
pub open spec fn digits_val(s: Seq<char>, i: int, j: int) -> int
    decreases j - i,
{
    if i >= j {
        0
    } else {
        digits_val(s, i, j - 1) * 10 + (s[j - 1] as u32 - 48)
    }
}

/// Parses an optionally signed integer whose value fits a signed 64-bit
/// number.
pub open spec fn spec_parse_int(s: Seq<char>, i: int) -> Option<(int, int)> {
    if !(0 <= i < s.len()) {
        None
    } else if s[i] == '-' {
        let e = digit_run_end(s, i + 1);
        if e == i + 1 || e - (i + 1) > 19 || digits_val(s, i + 1, e) > 0x8000_0000_0000_0000 {
            None
        } else {
            Some((-digits_val(s, i + 1, e), e))
        }
    } else {
        let e = digit_run_end(s, i);
        if e == i || e - i > 19 || digits_val(s, i, e) > 0x7fff_ffff_ffff_ffff {
            None
        } else {
            Some((digits_val(s, i, e), e))
        }
    }
}

/// The end of an optional exponent part standing at `i`: `e` or `E`, an
/// optional sign, then at least one digit; absent is fine.
pub open spec fn spec_exp_end(s: Seq<char>, i: int) -> Option<int> {
    if 0 <= i < s.len() && (s[i] == 'e' || s[i] == 'E') {
        let p = if 0 <= i + 1 < s.len() && (s[i + 1] == '+' || s[i + 1] == '-') {
            i + 2
        } else {
            i + 1
        };
        let e = digit_run_end(s, p);
        if e == p {
            None
        } else {
            Some(e)
        }
    } else {
        Some(i)
    }
}

/// The end of an optional fraction-and-exponent tail standing at `i`,
/// and whether neither part was present.
pub open spec fn spec_number_tail(s: Seq<char>, i: int) -> Option<(bool, int)> {
    if 0 <= i < s.len() && s[i] == '.' {
        let f = digit_run_end(s, i + 1);
        if f == i + 1 {
            None
        } else {
            match spec_exp_end(s, f) {
                None => None,
                Some(e) => Some((false, e)),
            }
        }
    } else {
        match spec_exp_end(s, i) {
            None => None,
            Some(e) => Some((i == e, e)),
        }
    }
}

/// Parses a JSON number standing at `i`. A plain integer whose value
/// fits a signed 64-bit number becomes `Int`; any other number — one
/// with a fraction, an exponent, or digits beyond the 64-bit range — is
/// carried as its own text.
pub open spec fn spec_parse_number(s: Seq<char>, i: int) -> Option<(Json, int)> {
    if !(0 <= i < s.len()) {
        None
    } else {
        let d0 = if s[i] == '-' {
            i + 1
        } else {
            i
        };
        let e1 = digit_run_end(s, d0);
        if e1 == d0 {
            None
        } else {
            match spec_number_tail(s, e1) {
                None => None,
                Some((plain, e)) => if plain && spec_parse_int(s, i) is Some {
                    Some((Json::Int(spec_parse_int(s, i)->Some_0.0), e))
                } else {
                    Some((Json::Num(s.subrange(i, e)), e))
                },
            }
        }
    }
}

/// Parses one escape sequence whose backslash stands at `i`: the character
/// it denotes and the position after it.
pub open spec fn spec_parse_escape(s: Seq<char>, i: int) -> Option<(char, int)> {
    if !(0 <= i + 1 < s.len()) {
        None
    } else {
        let e = s[i + 1];
        if e == '"' {
            Some(('"', i + 2))
        } else if e == '\\' {
            Some(('\\', i + 2))
        } else if e == '/' {
            Some(('/', i + 2))
        } else if e == 'n' {
            Some(('\n', i + 2))
        } else if e == 'r' {
            Some(('\r', i + 2))
        } else if e == 't' {
            Some(('\t', i + 2))
        } else if e == 'b' {
            Some(('\u{8}', i + 2))
        } else if e == 'f' {
            Some(('\u{c}', i + 2))
        } else if e == 'u' {
            if i + 6 <= s.len() {
                match (hex_val(s[i + 2]), hex_val(s[i + 3]), hex_val(s[i + 4]), hex_val(s[i + 5])) {
                    (Some(a), Some(b), Some(c), Some(d)) => {
                        let code = a * 4096 + b * 256 + c * 16 + d;
                        if 0xD800 <= code <= 0xDFFF {
                            None
                        } else {
                            Some(((code as u32) as char, i + 6))
                        }
                    },
                    _ => None,
                }
            } else {
                None
            }
        } else {
            None
        }
    }
}

/// Parses the body of a string literal from `i` (just after the opening
/// quote) to its closing quote: the characters denoted and the position
/// after the quote.
pub open spec fn spec_parse_string(s: Seq<char>, i: int) -> Option<(Seq<char>, int)>
    decreases s.len() - i,
{
    if !(0 <= i < s.len()) {
        None
    } else if s[i] == '"' {
        Some((Seq::<char>::empty(), i + 1))
    } else if s[i] == '\\' {
        match spec_parse_escape(s, i) {
            None => None,
            Some((c, k)) => if k <= i {
                None
            } else {
                match spec_parse_string(s, k) {
                    None => None,
                    Some((rest, e)) => Some((seq![c].add(rest), e)),
                }
            },
        }
    } else if (s[i] as u32) < 32 {
        None
    } else {
        match spec_parse_string(s, i + 1) {
            None => None,
            Some((rest, e)) => Some((seq![s[i]].add(rest), e)),
        }
    }
}

/// Parses one JSON value starting at `i`, skipping leading whitespace.
pub open spec fn spec_parse_value(s: Seq<char>, i: int) -> Option<(Json, int)>
    decreases s.len() - i, 0int,
{
    if !(0 <= i < s.len()) {
        None
    } else if is_ws(s[i]) {
        spec_parse_value(s, i + 1)
    } else if s[i] == '"' {
        match spec_parse_string(s, i + 1) {
            None => None,
            Some((cs, e)) => Some((Json::Str(cs), e)),
        }
    } else if s[i] == '-' || is_digit(s[i]) {
        spec_parse_number(s, i)
    } else if s[i] == 'n' {
        if i + 4 <= s.len() && s[i + 1] == 'u' && s[i + 2] == 'l' && s[i + 3] == 'l' {
            Some((Json::Null, i + 4))
        } else {
            None
        }
    } else if s[i] == 't' {
        if i + 4 <= s.len() && s[i + 1] == 'r' && s[i + 2] == 'u' && s[i + 3] == 'e' {
            Some((Json::Bool(true), i + 4))
        } else {
            None
        }
    } else if s[i] == 'f' {
        if i + 5 <= s.len() && s[i + 1] == 'a' && s[i + 2] == 'l' && s[i + 3] == 's' && s[i + 4]
            == 'e' {
            Some((Json::Bool(false), i + 5))
        } else {
            None
        }
    } else if s[i] == '[' {
        match spec_parse_elems(s, i + 1, true) {
            None => None,
            Some((elems, e)) => Some((Json::Arr(elems), e)),
        }
    } else if s[i] == '{' {
        match spec_parse_entries(s, i + 1, true) {
            None => None,
            Some((entries, e)) => Some((Json::Obj(entries), e)),
        }
    } else {
        None
    }
}

/// Parses the elements of an array from `i` to the closing bracket.
/// `allow_empty` holds before the first element: a bracket may close the
/// array at once.
pub open spec fn spec_parse_elems(s: Seq<char>, i: int, allow_empty: bool) -> Option<
    (Seq<Json>, int),
>
    decreases s.len() - i, 1int,
{
    if !(0 <= i < s.len()) {
        None
    } else if is_ws(s[i]) {
        spec_parse_elems(s, i + 1, allow_empty)
    } else if s[i] == ']' && allow_empty {
        Some((Seq::<Json>::empty(), i + 1))
    } else {
        match spec_parse_value(s, i) {
            None => None,
            Some((v, p)) => if p <= i || p > s.len() {
                None
            } else {
                match spec_parse_elems_rest(s, p) {
                    None => None,
                    Some((rest, e)) => Some((seq![v].add(rest), e)),
                }
            },
        }
    }
}

/// After one array element: either the closing bracket, or a comma and the
/// elements that follow.
pub open spec fn spec_parse_elems_rest(s: Seq<char>, i: int) -> Option<(Seq<Json>, int)>
    decreases s.len() - i, 1int,
{
    if !(0 <= i < s.len()) {
        None
    } else if is_ws(s[i]) {
        spec_parse_elems_rest(s, i + 1)
    } else if s[i] == ']' {
        Some((Seq::<Json>::empty(), i + 1))
    } else if s[i] == ',' {
        spec_parse_elems(s, i + 1, false)
    } else {
        None
    }
}

/// Parses the entries of an object from `i` to the closing brace.
pub open spec fn spec_parse_entries(s: Seq<char>, i: int, allow_empty: bool) -> Option<
    (Seq<(Seq<char>, Json)>, int),
>
    decreases s.len() - i, 1int,
{
    if !(0 <= i < s.len()) {
        None
    } else if is_ws(s[i]) {
        spec_parse_entries(s, i + 1, allow_empty)
    } else if s[i] == '}' && allow_empty {
        Some((Seq::<(Seq<char>, Json)>::empty(), i + 1))
    } else if s[i] == '"' {
        match spec_parse_string(s, i + 1) {
            None => None,
            Some((key, p)) => if p <= i + 1 || p > s.len() {
                None
            } else {
                match spec_parse_entry_value(s, p) {
                    None => None,
                    Some((v, q)) => if q <= p || q > s.len() {
                        None
                    } else {
                        match spec_parse_entries_rest(s, q) {
                            None => None,
                            Some((rest, e)) => Some((seq![(key, v)].add(rest), e)),
                        }
                    },
                }
            },
        }
    } else {
        None
    }
}

/// After an entry's key: the colon and the member value.
pub open spec fn spec_parse_entry_value(s: Seq<char>, i: int) -> Option<(Json, int)>
    decreases s.len() - i, 1int,
{
    if !(0 <= i < s.len()) {
        None
    } else if is_ws(s[i]) {
        spec_parse_entry_value(s, i + 1)
    } else if s[i] == ':' {
        spec_parse_value(s, i + 1)
    } else {
        None
    }
}

/// After one object entry: either the closing brace, or a comma and the
/// entries that follow.
pub open spec fn spec_parse_entries_rest(s: Seq<char>, i: int) -> Option<
    (Seq<(Seq<char>, Json)>, int),
>
    decreases s.len() - i, 1int,
{
    if !(0 <= i < s.len()) {
        None
    } else if is_ws(s[i]) {
        spec_parse_entries_rest(s, i + 1)
    } else if s[i] == '}' {
        Some((Seq::<(Seq<char>, Json)>::empty(), i + 1))
    } else if s[i] == ',' {
        spec_parse_entries(s, i + 1, false)
    } else {
        None
    }
}

/// Whether position `i` onward is only whitespace.
pub open spec fn only_ws_from(s: Seq<char>, i: int) -> bool
    decreases s.len() - i,
{
    if !(0 <= i < s.len()) {
        true
    } else if is_ws(s[i]) {
        only_ws_from(s, i + 1)
    } else {
        false
    }
}

/// Parses a whole document: one JSON value with nothing but whitespace
/// after it.
pub open spec fn spec_parse(s: Seq<char>) -> Option<Json> {
    match spec_parse_value(s, 0) {
        None => None,
        Some((v, e)) => if only_ws_from(s, e) {
            Some(v)
        } else {
            None
        },
    }
}

/// Relies on char::from_u32: the scalar value with this code point.
#[verifier::external_body]
fn char_from_code(code: u32) -> (r: char)
    requires
        code < 0xD800 || (0xE000 <= code && code <= 0x10FFFF),
    ensures
        r == (code as char),
{
    char::from_u32(code).unwrap_or(' ')
}

/// True on JSON whitespace.
pub fn ws_char(c: char) -> (r: bool)
    ensures
        r == is_ws(c),
{
    c == ' ' || c == '\t' || c == '\n' || c == '\r'
}

/// True on a decimal digit.
fn digit_char_test(c: char) -> (r: bool)
    ensures
        r == is_digit(c),
{
    let u: u32 = c as u32;
    48 <= u && u <= 57
}

/// The value of a hexadecimal digit character.
fn hex_digit_val(c: char) -> (r: Option<u32>)
    ensures
        r == hex_val(c),
{
    let u: u32 = c as u32;
    if 48 <= u && u <= 57 {
        Some(u - 48)
    } else if 97 <= u && u <= 102 {
        Some(u - 87)
    } else if 65 <= u && u <= 70 {
        Some(u - 55)
    } else {
        None
    }
}

/// Parses an optionally signed integer.
#[verifier::loop_isolation(false)]
fn parse_int(s: &Vec<char>, i: usize) -> (r: Option<(i64, usize)>)
    requires
        i <= s@.len(),
    ensures
        match r {
            Some((n, e)) => spec_parse_int(s@, i as int) == Some((n as int, e as int)) && i < e
                <= s@.len(),
            None => spec_parse_int(s@, i as int) is None,
        },
{
    if i >= s.len() {
        return None;
    }
    let (neg, start): (bool, usize) = if s[i] == '-' {
        (true, i + 1)
    } else {
        (false, i)
    };
    let mut j: usize = start;
    while j < s.len() && digit_char_test(s[j])
        invariant
            start <= j <= s@.len(),
            digit_run_end(s@, start as int) == digit_run_end(s@, j as int),
            forall|k: int| start <= k < j ==> is_digit(s@[k]),
        decreases s@.len() - j,
    {
        j = j + 1;
    }
    assert(digit_run_end(s@, j as int) == j as int);
    let e: usize = j;
    if e == start || e - start > 19 {
        return None;
    }
    let mut acc: u64 = 0;
    let mut k: usize = start;
    while k < e
        invariant
            start <= k <= e,
            acc == digits_val(s@, start as int, k as int),
            acc < 10000000000000000000,
        decreases e - k,
    {
        proof {
            lemma_digits_val_bound(s@, start as int, k as int);
            assert(digits_val(s@, start as int, k as int) < pow10((k - start) as nat));
            lemma_pow10_mono((k - start) as nat, 18);
        }
        let d: u32 = (s[k] as u32) - 48;
        acc = acc * 10 + (d as u64);
        k = k + 1;
        proof {
            lemma_digits_val_bound(s@, start as int, k as int);
            lemma_pow10_mono((k - start) as nat, 19);
        }
    }
    if neg {
        if acc > 0x8000_0000_0000_0000 {
            return None;
        }
        let wide: i128 = -(acc as i128);
        let n: i64 = wide as i64;
        assert(spec_parse_int(s@, i as int) == Some((n as int, e as int)));
        Some((n, e))
    } else {
        if acc > 0x7fff_ffff_ffff_ffff {
            return None;
        }
        let n: i64 = acc as i64;
        Some((n, e))
    }
}

/// Parses a number: a fitting integer as `Int`, any other as its text.
#[verifier::loop_isolation(false)]
fn parse_number(s: &Vec<char>, i: usize) -> (r: Option<(JsonValue, usize)>)
    requires
        i < s@.len(),
    ensures
        match r {
            Some((v, e)) => spec_parse_number(s@, i as int) == Some((v@, e as int)) && i < e
                <= s@.len(),
            None => spec_parse_number(s@, i as int) is None,
        },
{
    if i >= s.len() {
        return None;
    }
    let d0: usize = if s[i] == '-' {
        i + 1
    } else {
        i
    };
    let mut j: usize = d0;
    while j < s.len() && digit_char_test(s[j])
        invariant
            d0 <= j <= s@.len(),
            digit_run_end(s@, d0 as int) == digit_run_end(s@, j as int),
            forall|k: int| d0 <= k < j ==> is_digit(s@[k]),
        decreases s@.len() - j,
    {
        j = j + 1;
    }
    assert(digit_run_end(s@, j as int) == j as int);
    let e1: usize = j;
    if e1 == d0 {
        return None;
    }
    let mut plain: bool = true;
    let mut e2: usize = e1;
    if e1 < s.len() && s[e1] == '.' {
        let mut f: usize = e1 + 1;
        while f < s.len() && digit_char_test(s[f])
            invariant
                e1 + 1 <= f <= s@.len(),
                digit_run_end(s@, e1 + 1 as int) == digit_run_end(s@, f as int),
                forall|k: int| e1 + 1 <= k < f ==> is_digit(s@[k]),
            decreases s@.len() - f,
        {
            f = f + 1;
        }
        assert(digit_run_end(s@, f as int) == f as int);
        if f == e1 + 1 {
            return None;
        }
        plain = false;
        e2 = f;
    }
    let mut e3: usize = e2;
    if e2 < s.len() && (s[e2] == 'e' || s[e2] == 'E') {
        let p: usize = if e2 + 1 < s.len() && (s[e2 + 1] == '+' || s[e2 + 1] == '-') {
            e2 + 2
        } else {
            e2 + 1
        };
        let mut g: usize = p;
        while g < s.len() && digit_char_test(s[g])
            invariant
                p <= g <= s@.len(),
                digit_run_end(s@, p as int) == digit_run_end(s@, g as int),
                forall|k: int| p <= k < g ==> is_digit(s@[k]),
            decreases s@.len() - g,
        {
            g = g + 1;
        }
        assert(digit_run_end(s@, g as int) == g as int);
        if g == p {
            return None;
        }
        plain = false;
        e3 = g;
    }
    if plain {
        proof {
            assert(spec_number_tail(s@, e1 as int) == Some((true, e1 as int)));
        }
        match parse_int(s, i) {
            Some((n, e)) => {
                proof {
                    assert(e == e1);
                }
                return Some((JsonValue::Int(n), e));
            },
            None => {},
        }
    }
    let mut text: Vec<char> = Vec::new();
    let mut k: usize = i;
    while k < e3
        invariant
            i <= k <= e3,
            e3 <= s@.len(),
            text@ == s@.subrange(i as int, k as int),
        decreases e3 - k,
    {
        text.push(s[k]);
        k = k + 1;
        proof {
            assert(text@ =~= s@.subrange(i as int, k as int));
        }
    }
    let r = JsonValue::Num(crate::json::string_of(&text));
    Some((r, e3))
}

/// Ten to the `n`.
pub open spec fn pow10(n: nat) -> int
    decreases n,
{
    if n == 0 {
        1
    } else {
        10 * pow10((n - 1) as nat)
    }
}

proof fn lemma_pow10_mono(a: nat, b: nat)
    requires
        a <= b,
    ensures
        pow10(a) <= pow10(b),
        pow10(19) == 10000000000000000000,
    decreases b,
{
    lemma_pow10_eighteen();
    if a < b && b > 0 {
        lemma_pow10_mono(a, (b - 1) as nat);
        assert(pow10(b) == 10 * pow10((b - 1) as nat));
        lemma_pow10_pos((b - 1) as nat);
    }
}

pub proof fn lemma_pow10_eighteen()
    ensures
        pow10(18) == 1000000000000000000,
{
    assert(pow10(0) == 1);
    assert(pow10(1) == 10);
    assert(pow10(2) == 100);
    assert(pow10(3) == 1000);
    assert(pow10(4) == 10000);
    assert(pow10(5) == 100000);
    assert(pow10(6) == 1000000);
    assert(pow10(7) == 10000000);
    assert(pow10(8) == 100000000);
    assert(pow10(9) == 1000000000);
    assert(pow10(10) == 10000000000);
    assert(pow10(11) == 100000000000);
    assert(pow10(12) == 1000000000000);
    assert(pow10(13) == 10000000000000);
    assert(pow10(14) == 100000000000000);
    assert(pow10(15) == 1000000000000000);
    assert(pow10(16) == 10000000000000000);
    assert(pow10(17) == 100000000000000000);
    assert(pow10(18) == 1000000000000000000);
    assert(pow10(19) == 10000000000000000000);
}

proof fn lemma_pow10_pos(n: nat)
    ensures
        pow10(n) >= 1,
    decreases n,
{
    if n > 0 {
        lemma_pow10_pos((n - 1) as nat);
    }
}

/// The value of a digit run is below ten to its length.
proof fn lemma_digits_val_bound(s: Seq<char>, i: int, j: int)
    requires
        i <= j,
        forall|k: int| i <= k < j ==> is_digit(s[k]),
    ensures
        0 <= digits_val(s, i, j) < pow10((j - i) as nat),
    decreases j - i,
{
    if i < j {
        lemma_digits_val_bound(s, i, j - 1);
        assert(is_digit(s[j - 1]));
        assert(pow10((j - i) as nat) == 10 * pow10((j - i - 1) as nat));
    }
}

/// Parses one escape sequence whose backslash stands at `i`.
fn parse_escape(s: &Vec<char>, i: usize) -> (r: Option<(char, usize)>)
    requires
        i < s@.len(),
    ensures
        match r {
            Some((c, e)) => spec_parse_escape(s@, i as int) == Some((c, e as int)) && i < e
                <= s@.len(),
            None => spec_parse_escape(s@, i as int) is None,
        },
{
    if s.len() - i < 2 {
        return None;
    }
    let e = s[i + 1];
    if e == '"' {
        Some(('"', i + 2))
    } else if e == '\\' {
        Some(('\\', i + 2))
    } else if e == '/' {
        Some(('/', i + 2))
    } else if e == 'n' {
        Some(('\n', i + 2))
    } else if e == 'r' {
        Some(('\r', i + 2))
    } else if e == 't' {
        Some(('\t', i + 2))
    } else if e == 'b' {
        Some(('\u{8}', i + 2))
    } else if e == 'f' {
        Some(('\u{c}', i + 2))
    } else if e == 'u' {
        if s.len() - i >= 6 {
            let a = hex_digit_val(s[i + 2]);
            let b = hex_digit_val(s[i + 3]);
            let c = hex_digit_val(s[i + 4]);
            let d = hex_digit_val(s[i + 5]);
            match (a, b, c, d) {
                (Some(a), Some(b), Some(c), Some(d)) => {
                    assert(a <= 15 && b <= 15 && c <= 15 && d <= 15);
                    let code: u32 = a * 4096 + b * 256 + c * 16 + d;
                    if 0xD800 <= code && code <= 0xDFFF {
                        None
                    } else {
                        let ch = char_from_code(code);
                        Some((ch, i + 6))
                    }
                },
                _ => None,
            }
        } else {
            None
        }
    } else {
        None
    }
}

/// Parses the body of a string literal from `i` to its closing quote.
#[verifier::loop_isolation(false)]
fn parse_string(s: &Vec<char>, i: usize) -> (r: Option<(Vec<char>, usize)>)
    requires
        i <= s@.len(),
    ensures
        match r {
            Some((cs, e)) => spec_parse_string(s@, i as int) == Some((cs@, e as int)) && i < e
                <= s@.len(),
            None => spec_parse_string(s@, i as int) is None,
        },
{
    let mut acc: Vec<char> = Vec::new();
    let mut j: usize = i;
    proof {
        let sps = spec_parse_string(s@, i as int);
        if sps is Some {
            assert(Seq::<char>::empty().add(sps->Some_0.0) =~= sps->Some_0.0);
        }
    }
    loop
        invariant
            i <= j <= s@.len(),
            spec_parse_string(s@, i as int) is Some <==> spec_parse_string(s@, j as int) is Some,
            spec_parse_string(s@, j as int) matches Some((rest, e)) ==> spec_parse_string(
                s@,
                i as int,
            ) == Some((acc@.add(rest), e)),
        decreases s@.len() - j,
    {
        if j >= s.len() {
            return None;
        }
        let c = s[j];
        if c == '"' {
            assert(spec_parse_string(s@, j as int) == Some::<(Seq<char>, int)>(
                (Seq::<char>::empty(), j + 1),
            ));
            assert(acc@.add(Seq::<char>::empty()) =~= acc@);
            assert(spec_parse_string(s@, i as int) == Some::<(Seq<char>, int)>((acc@, j + 1)));
            return Some((acc, j + 1));
        } else if c == '\\' {
            match parse_escape(s, j) {
                None => {
                    return None;
                },
                Some((ch, k)) => {
                    proof {
                        let sps = spec_parse_string(s@, k as int);
                        if sps is Some {
                            let rest = sps->Some_0.0;
                            assert(acc@.push(ch).add(rest) =~= acc@.add(seq![ch].add(rest)));
                        }
                    }
                    acc.push(ch);
                    j = k;
                },
            }
        } else if (c as u32) < 32 {
            return None;
        } else {
            proof {
                let sps = spec_parse_string(s@, j + 1);
                if sps is Some {
                    let rest = sps->Some_0.0;
                    assert(acc@.push(c).add(rest) =~= acc@.add(seq![c].add(rest)));
                }
            }
            acc.push(c);
            j = j + 1;
        }
    }
}

/// Parses one JSON value starting at `i`, skipping leading whitespace.
#[verifier::loop_isolation(false)]
pub fn parse_value(s: &Vec<char>, i: usize) -> (r: Option<(JsonValue, usize)>)
    requires
        i <= s@.len(),
    ensures
        match r {
            Some((v, e)) => spec_parse_value(s@, i as int) == Some((v@, e as int)) && i < e
                <= s@.len(),
            None => spec_parse_value(s@, i as int) is None,
        },
    decreases s@.len() - i, 0int,
{
    let mut j: usize = i;
    while j < s.len() && ws_char(s[j])
        invariant
            i <= j <= s@.len(),
            spec_parse_value(s@, i as int) == spec_parse_value(s@, j as int),
        decreases s@.len() - j,
    {
        j = j + 1;
    }
    if j >= s.len() {
        return None;
    }
    let c = s[j];
    if c == '"' {
        match parse_string(s, j + 1) {
            None => None,
            Some((cs, e)) => {
                let r = JsonValue::Str(string_of(&cs));
                Some((r, e))
            },
        }
    } else if c == '-' || digit_char_test(c) {
        parse_number(s, j)
    } else if c == 'n' {
        if s.len() - j >= 4 && s[j + 1] == 'u' && s[j + 2] == 'l' && s[j + 3] == 'l' {
            Some((JsonValue::Null, j + 4))
        } else {
            None
        }
    } else if c == 't' {
        if s.len() - j >= 4 && s[j + 1] == 'r' && s[j + 2] == 'u' && s[j + 3] == 'e' {
            Some((JsonValue::Bool(true), j + 4))
        } else {
            None
        }
    } else if c == 'f' {
        if s.len() - j >= 5 && s[j + 1] == 'a' && s[j + 2] == 'l' && s[j + 3] == 's' && s[j + 4]
            == 'e' {
            Some((JsonValue::Bool(false), j + 5))
        } else {
            None
        }
    } else if c == '[' {
        match parse_elems(s, j + 1, true) {
            None => None,
            Some((elems, e)) => Some((JsonValue::Arr(elems), e)),
        }
    } else if c == '{' {
        match parse_entries(s, j + 1, true) {
            None => None,
            Some((entries, e)) => Some((JsonValue::Obj(entries), e)),
        }
    } else {
        None
    }
}

/// Parses the elements of an array from `i` to the closing bracket.
#[verifier::loop_isolation(false)]
fn parse_elems(s: &Vec<char>, i: usize, allow_empty: bool) -> (r: Option<(Vec<JsonValue>, usize)>)
    requires
        i <= s@.len(),
    ensures
        match r {
            Some((elems, e)) => spec_parse_elems(s@, i as int, allow_empty) == Some(
                (crate::json::arr_view(elems@), e as int),
            ) && i < e <= s@.len(),
            None => spec_parse_elems(s@, i as int, allow_empty) is None,
        },
    decreases s@.len() - i, 1int,
{
    let mut j: usize = i;
    while j < s.len() && ws_char(s[j])
        invariant
            i <= j <= s@.len(),
            spec_parse_elems(s@, i as int, allow_empty) == spec_parse_elems(
                s@,
                j as int,
                allow_empty,
            ),
        decreases s@.len() - j,
    {
        j = j + 1;
    }
    if j >= s.len() {
        return None;
    }
    if s[j] == ']' && allow_empty {
        let empty: Vec<JsonValue> = Vec::new();
        proof {
            assert(crate::json::arr_view(empty@) =~= Seq::<Json>::empty());
        }
        return Some((empty, j + 1));
    }
    match parse_value(s, j) {
        None => None,
        Some((v, p)) => {
            match parse_elems_rest(s, p) {
                None => None,
                Some((rest, e)) => {
                    let mut elems: Vec<JsonValue> = Vec::new();
                    elems.push(v);
                    let mut rest_mut = rest;
                    elems.append(&mut rest_mut);
                    proof {
                        assert(crate::json::arr_view(elems@) =~= seq![v@].add(
                            crate::json::arr_view(rest@),
                        ));
                    }
                    Some((elems, e))
                },
            }
        },
    }
}

/// After one array element: the closing bracket, or a comma and the rest.
#[verifier::loop_isolation(false)]
fn parse_elems_rest(s: &Vec<char>, i: usize) -> (r: Option<(Vec<JsonValue>, usize)>)
    requires
        i <= s@.len(),
    ensures
        match r {
            Some((elems, e)) => spec_parse_elems_rest(s@, i as int) == Some(
                (crate::json::arr_view(elems@), e as int),
            ) && i < e <= s@.len(),
            None => spec_parse_elems_rest(s@, i as int) is None,
        },
    decreases s@.len() - i, 1int,
{
    let mut j: usize = i;
    while j < s.len() && ws_char(s[j])
        invariant
            i <= j <= s@.len(),
            spec_parse_elems_rest(s@, i as int) == spec_parse_elems_rest(s@, j as int),
        decreases s@.len() - j,
    {
        j = j + 1;
    }
    if j >= s.len() {
        return None;
    }
    if s[j] == ']' {
        let empty: Vec<JsonValue> = Vec::new();
        proof {
            assert(crate::json::arr_view(empty@) =~= Seq::<Json>::empty());
        }
        Some((empty, j + 1))
    } else if s[j] == ',' {
        parse_elems(s, j + 1, false)
    } else {
        None
    }
}

/// Parses the entries of an object from `i` to the closing brace.
#[verifier::loop_isolation(false)]
fn parse_entries(s: &Vec<char>, i: usize, allow_empty: bool) -> (r: Option<
    (Vec<(String, JsonValue)>, usize),
>)
    requires
        i <= s@.len(),
    ensures
        match r {
            Some((entries, e)) => spec_parse_entries(s@, i as int, allow_empty) == Some(
                (crate::json::entries_view(entries@), e as int),
            ) && i < e <= s@.len(),
            None => spec_parse_entries(s@, i as int, allow_empty) is None,
        },
    decreases s@.len() - i, 1int,
{
    let mut j: usize = i;
    while j < s.len() && ws_char(s[j])
        invariant
            i <= j <= s@.len(),
            spec_parse_entries(s@, i as int, allow_empty) == spec_parse_entries(
                s@,
                j as int,
                allow_empty,
            ),
        decreases s@.len() - j,
    {
        j = j + 1;
    }
    if j >= s.len() {
        return None;
    }
    if s[j] == '}' && allow_empty {
        let empty: Vec<(String, JsonValue)> = Vec::new();
        proof {
            assert(crate::json::entries_view(empty@) =~= Seq::<(Seq<char>, Json)>::empty());
        }
        return Some((empty, j + 1));
    }
    if s[j] != '"' {
        return None;
    }
    match parse_string(s, j + 1) {
        None => None,
        Some((key_cs, p)) => {
            match parse_entry_value(s, p) {
                None => None,
                Some((v, q)) => {
                    match parse_entries_rest(s, q) {
                        None => None,
                        Some((rest, e)) => {
                            let key = string_of(&key_cs);
                            let mut entries: Vec<(String, JsonValue)> = Vec::new();
                            entries.push((key, v));
                            let mut rest_mut = rest;
                            entries.append(&mut rest_mut);
                            proof {
                                assert(crate::json::entries_view(entries@) =~= seq![
                                    (key_cs@, v@),
                                ].add(crate::json::entries_view(rest@)));
                            }
                            Some((entries, e))
                        },
                    }
                },
            }
        },
    }
}

/// After an entry's key: the colon and the member value.
#[verifier::loop_isolation(false)]
fn parse_entry_value(s: &Vec<char>, i: usize) -> (r: Option<(JsonValue, usize)>)
    requires
        i <= s@.len(),
    ensures
        match r {
            Some((v, e)) => spec_parse_entry_value(s@, i as int) == Some((v@, e as int)) && i < e
                <= s@.len(),
            None => spec_parse_entry_value(s@, i as int) is None,
        },
    decreases s@.len() - i, 1int,
{
    let mut j: usize = i;
    while j < s.len() && ws_char(s[j])
        invariant
            i <= j <= s@.len(),
            spec_parse_entry_value(s@, i as int) == spec_parse_entry_value(s@, j as int),
        decreases s@.len() - j,
    {
        j = j + 1;
    }
    if j >= s.len() {
        return None;
    }
    if s[j] == ':' {
        parse_value(s, j + 1)
    } else {
        None
    }
}

/// After one object entry: the closing brace, or a comma and the rest.
#[verifier::loop_isolation(false)]
fn parse_entries_rest(s: &Vec<char>, i: usize) -> (r: Option<(Vec<(String, JsonValue)>, usize)>)
    requires
        i <= s@.len(),
    ensures
        match r {
            Some((entries, e)) => spec_parse_entries_rest(s@, i as int) == Some(
                (crate::json::entries_view(entries@), e as int),
            ) && i < e <= s@.len(),
            None => spec_parse_entries_rest(s@, i as int) is None,
        },
    decreases s@.len() - i, 1int,
{
    let mut j: usize = i;
    while j < s.len() && ws_char(s[j])
        invariant
            i <= j <= s@.len(),
            spec_parse_entries_rest(s@, i as int) == spec_parse_entries_rest(s@, j as int),
        decreases s@.len() - j,
    {
        j = j + 1;
    }
    if j >= s.len() {
        return None;
    }
    if s[j] == '}' {
        let empty: Vec<(String, JsonValue)> = Vec::new();
        proof {
            assert(crate::json::entries_view(empty@) =~= Seq::<(Seq<char>, Json)>::empty());
        }
        Some((empty, j + 1))
    } else if s[j] == ',' {
        parse_entries(s, j + 1, false)
    } else {
        None
    }
}

/// Parses a whole JSON document: one value with only whitespace after it.
#[verifier::loop_isolation(false)]
pub fn parse_json(s: &str) -> (r: Option<JsonValue>)
    ensures
        match r {
            Some(v) => spec_parse(s@) == Some(v@),
            None => spec_parse(s@) is None,
        },
{
    let cs = chars_of(s);
    match parse_value(&cs, 0) {
        None => None,
        Some((v, e)) => {
            let mut j: usize = e;
            while j < cs.len() && ws_char(cs[j])
                invariant
                    e <= j <= cs@.len(),
                    only_ws_from(cs@, e as int) == only_ws_from(cs@, j as int),
                decreases cs@.len() - j,
            {
                j = j + 1;
            }
            if j >= cs.len() {
                Some(v)
            } else {
                None
            }
        },
    }
}

} // verus!
