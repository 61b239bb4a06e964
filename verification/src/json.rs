//! JSON document model and a canonical text printer.
//!
//! Every message on the wire is a JSON document. The kernel keeps documents
//! as [`JsonValue`] trees: objects are ordered key/value lists, numbers are
//! 64-bit integers (the protocol itself only ever carries integer ids and
//! counts). The mathematical model of a tree is [`Json`], reached through
//! `json_view` (written `v@` below); `spec_print` gives the
//! canonical text of a model and `to_text` produces exactly that text.

use vstd::prelude::*;

verus! {

/// A JSON document: null, boolean, integer, string, array or object.
/// Object entries keep their insertion order; lookups take the first
/// binding of a key.
#[derive(Debug, PartialEq, Eq)]
pub enum JsonValue {
    Null,
    Bool(bool),
    Int(i64),
    Num(String),
    Str(String),
    Arr(Vec<JsonValue>),
    Obj(Vec<(String, JsonValue)>),
}

/// The mathematical model of a JSON document.
pub ghost enum Json {
    Null,
    Bool(bool),
    Int(int),
    Num(Seq<char>),
    Str(Seq<char>),
    Arr(Seq<Json>),
    Obj(Seq<(Seq<char>, Json)>),
}

/// The models of the elements of an array, in order.
pub open spec fn arr_view(elems: Seq<JsonValue>) -> Seq<Json>
    decreases elems,
{
    Seq::new(
        elems.len(),
        |i: int|
            if 0 <= i < elems.len() {
                json_view(elems[i])
            } else {
                Json::Null
            },
    )
}

/// The models of object entries, in order.
pub open spec fn entries_view(entries: Seq<(String, JsonValue)>) -> Seq<(Seq<char>, Json)>
    decreases entries,
{
    Seq::new(
        entries.len(),
        |i: int|
            if 0 <= i < entries.len() {
                (entries[i].0@, json_view(entries[i].1))
            } else {
                (Seq::<char>::empty(), Json::Null)
            },
    )
}

/// The model of a JSON tree.
pub open spec fn json_view(v: JsonValue) -> Json
    decreases v,
{
    match v {
        JsonValue::Null => Json::Null,
        JsonValue::Bool(b) => Json::Bool(b),
        JsonValue::Int(n) => Json::Int(n as int),
        JsonValue::Num(t) => Json::Num(t@),
        JsonValue::Str(s) => Json::Str(s@),
        JsonValue::Arr(elems) => Json::Arr(arr_view(elems@)),
        JsonValue::Obj(entries) => Json::Obj(entries_view(entries@)),
    }
}

impl View for JsonValue {
    type V = Json;

    open spec fn view(&self) -> Json {
        json_view(*self)
    }
}

/// The character for a decimal digit value below ten.
pub open spec fn digit_char(d: nat) -> char {
    ((48 + d) as u8) as char
}

/// Decimal text of a natural number, most significant digit first.
pub open spec fn spec_digits(n: nat) -> Seq<char>
    decreases n,
{
    if n < 10 {
        seq![digit_char(n)]
    } else {
        spec_digits(n / 10).push(digit_char(n % 10))
    }
}

/// Decimal text of an integer.
pub open spec fn spec_int_chars(n: int) -> Seq<char> {
    if n < 0 {
        seq!['-'].add(spec_digits((-n) as nat))
    } else {
        spec_digits(n as nat)
    }
}

/// The character for a hexadecimal digit value below sixteen.
pub open spec fn hex_char(d: nat) -> char {
    if d < 10 {
        ((48 + d) as u8) as char
    } else {
        ((87 + d) as u8) as char
    }
}

/// How one character appears inside a JSON string literal.
pub open spec fn spec_escape_char(c: char) -> Seq<char> {
    if c == '"' {
        seq!['\\', '"']
    } else if c == '\\' {
        seq!['\\', '\\']
    } else if c == '\n' {
        seq!['\\', 'n']
    } else if c == '\r' {
        seq!['\\', 'r']
    } else if c == '\t' {
        seq!['\\', 't']
    } else if (c as u32) < 32 {
        seq!['\\', 'u', '0', '0', hex_char((c as u32 / 16) as nat), hex_char(
            (c as u32 % 16) as nat,
        )]
    } else {
        seq![c]
    }
}

/// Escaped text of the first `n` characters of `s`.
pub open spec fn spec_escape_prefix(s: Seq<char>, n: int) -> Seq<char>
    decreases n,
{
    if n <= 0 {
        Seq::<char>::empty()
    } else if n > s.len() {
        Seq::<char>::empty()
    } else {
        spec_escape_prefix(s, n - 1).add(spec_escape_char(s[n - 1]))
    }
}

/// Escaped text of a whole string.
pub open spec fn spec_escape(s: Seq<char>) -> Seq<char> {
    spec_escape_prefix(s, s.len() as int)
}

/// A JSON string literal: quotes around the escaped text.
pub open spec fn spec_quoted(s: Seq<char>) -> Seq<char> {
    seq!['"'].add(spec_escape(s)).push('"')
}

/// Canonical text of a JSON document: no added whitespace, object entries
/// in their stored order.
pub open spec fn spec_print(j: Json) -> Seq<char>
    decreases j,
{
    match j {
        Json::Null => seq!['n', 'u', 'l', 'l'],
        Json::Bool(b) => if b {
            seq!['t', 'r', 'u', 'e']
        } else {
            seq!['f', 'a', 'l', 's', 'e']
        },
        Json::Int(n) => spec_int_chars(n),
        Json::Num(t) => t,
        Json::Str(s) => spec_quoted(s),
        Json::Arr(elems) => seq!['['].add(spec_print_elems(elems, elems.len() as int)).push(']'),
        Json::Obj(entries) => seq!['{'].add(spec_print_entries(entries, entries.len() as int)).push(
            '}',
        ),
    }
}

/// Text of the first `n` array elements, comma separated.
pub open spec fn spec_print_elems(elems: Seq<Json>, n: int) -> Seq<char>
    decreases elems, n,
{
    if n <= 0 || n > elems.len() {
        Seq::<char>::empty()
    } else if n == 1 {
        spec_print(elems[0])
    } else {
        spec_print_elems(elems, n - 1).push(',').add(spec_print(elems[n - 1]))
    }
}

/// Text of the first `n` object entries, comma separated.
pub open spec fn spec_print_entries(entries: Seq<(Seq<char>, Json)>, n: int) -> Seq<char>
    decreases entries, n,
{
    if n <= 0 || n > entries.len() {
        Seq::<char>::empty()
    } else if n == 1 {
        spec_quoted(entries[0].0).push(':').add(spec_print(entries[0].1))
    } else {
        spec_print_entries(entries, n - 1).push(',').add(
            spec_quoted(entries[n - 1].0).push(':').add(spec_print(entries[n - 1].1)),
        )
    }
}

/// The first binding of `key` among object entries, if any.
pub open spec fn spec_lookup(entries: Seq<(Seq<char>, Json)>, key: Seq<char>) -> Option<Json>
    decreases entries.len(),
{
    if entries.len() == 0 {
        None
    } else if entries[0].0 == key {
        Some(entries[0].1)
    } else {
        spec_lookup(entries.drop_first(), key)
    }
}

/// The model of the object member under `key`, when the document is an
/// object that binds the key.
pub open spec fn spec_get(j: Json, key: Seq<char>) -> Option<Json> {
    match j {
        Json::Obj(entries) => spec_lookup(entries, key),
        _ => None,
    }
}

/// One step of a member lookup: the first entry answers or the rest are
/// searched.
pub proof fn lemma_lookup_unfold(entries: Seq<(Seq<char>, Json)>, key: Seq<char>)
    requires
        entries.len() > 0,
    ensures
        spec_lookup(entries, key) == if entries[0].0 == key {
            Some(entries[0].1)
        } else {
            spec_lookup(entries.drop_first(), key)
        },
{
}

/// Relies on str's PartialEq: equal exactly when the two slices hold the
/// same characters.
#[verifier::external_body]
pub fn str_eq(a: &str, b: &str) -> (r: bool)
    ensures
        r == (a@ == b@),
{
    a == b
}

/// Relies on str::chars and Iterator::collect: the characters of a string
/// slice, in order.
#[verifier::external_body]
pub fn chars_of(s: &str) -> (r: Vec<char>)
    ensures
        r@ == s@,
{
    s.chars().collect()
}

/// Relies on Iterator::collect for String: the string whose characters are
/// exactly the given ones, in order.
#[verifier::external_body]
pub fn string_of(v: &Vec<char>) -> (r: String)
    ensures
        r@ == v@,
{
    v.iter().collect()
}

/// Appends the decimal digits of `n`, most significant first.
fn push_digits(n: u128, out: &mut Vec<char>)
    ensures
        final(out)@ == old(out)@.add(spec_digits(n as nat)),
    decreases n,
{
    if n < 10 {
        let d: u8 = (48 + n as u8);
        out.push(d as char);
        assert(out@ =~= old(out)@.add(spec_digits(n as nat)));
    } else {
        push_digits(n / 10, out);
        let d: u8 = (48 + (n % 10) as u8);
        out.push(d as char);
        assert(out@ =~= old(out)@.add(spec_digits(n as nat)));
    }
}

/// Appends the decimal text of a signed 64-bit integer.
fn push_int(n: i64, out: &mut Vec<char>)
    ensures
        final(out)@ == old(out)@.add(spec_int_chars(n as int)),
{
    if n < 0 {
        out.push('-');
        let wide: i128 = n as i128;
        push_digits((-wide) as u128, out);
        assert(out@ =~= old(out)@.add(spec_int_chars(n as int)));
    } else {
        push_digits(n as u128, out);
    }
}

/// Appends the decimal text of a signed 64-bit integer.
pub fn push_int_chars(n: i64, out: &mut Vec<char>)
    ensures
        final(out)@ == old(out)@.add(spec_int_chars(n as int)),
{
    push_int(n, out);
}

/// Appends one character in its escaped form.
fn push_escaped_char(c: char, out: &mut Vec<char>)
    ensures
        final(out)@ == old(out)@.add(spec_escape_char(c)),
{
    if c == '"' {
        out.push('\\');
        out.push('"');
    } else if c == '\\' {
        out.push('\\');
        out.push('\\');
    } else if c == '\n' {
        out.push('\\');
        out.push('n');
    } else if c == '\r' {
        out.push('\\');
        out.push('r');
    } else if c == '\t' {
        out.push('\\');
        out.push('t');
    } else if (c as u32) < 32 {
        out.push('\\');
        out.push('u');
        out.push('0');
        out.push('0');
        let hi: u32 = (c as u32) / 16;
        let lo: u32 = (c as u32) % 16;
        let hi_c: char = if hi < 10 {
            ((48 + hi) as u8) as char
        } else {
            ((87 + hi) as u8) as char
        };
        let lo_c: char = if lo < 10 {
            ((48 + lo) as u8) as char
        } else {
            ((87 + lo) as u8) as char
        };
        out.push(hi_c);
        out.push(lo_c);
    } else {
        out.push(c);
    }
    assert(out@ =~= old(out)@.add(spec_escape_char(c)));
}

/// Appends a quoted, escaped JSON string literal.
#[verifier::loop_isolation(false)]
fn push_quoted(s: &str, out: &mut Vec<char>)
    ensures
        final(out)@ == old(out)@.add(spec_quoted(s@)),
{
    let cs = chars_of(s);
    out.push('"');
    let mut i: usize = 0;
    while i < cs.len()
        invariant
            i <= cs.len(),
            cs@ == s@,
            out@ == old(out)@.push('"').add(spec_escape_prefix(s@, i as int)),
        decreases cs.len() - i,
    {
        push_escaped_char(cs[i], out);
        i = i + 1;
        assert(out@ =~= old(out)@.push('"').add(spec_escape_prefix(s@, i as int)));
    }
    out.push('"');
    assert(spec_escape_prefix(s@, s@.len() as int) == spec_escape(s@));
    assert(out@ =~= old(out)@.add(spec_quoted(s@)));
}

/// Appends the canonical text of a JSON value.
#[verifier::loop_isolation(false)]
pub fn write_value(v: &JsonValue, out: &mut Vec<char>)
    ensures
        final(out)@ == old(out)@.add(spec_print(v@)),
    decreases *v,
{
    match v {
        JsonValue::Null => {
            out.push('n');
            out.push('u');
            out.push('l');
            out.push('l');
            assert(out@ =~= old(out)@.add(spec_print(v@)));
        },
        JsonValue::Bool(b) => {
            if *b {
                out.push('t');
                out.push('r');
                out.push('u');
                out.push('e');
            } else {
                out.push('f');
                out.push('a');
                out.push('l');
                out.push('s');
                out.push('e');
            }
            assert(out@ =~= old(out)@.add(spec_print(v@)));
        },
        JsonValue::Int(n) => {
            push_int(*n, out);
        },
        JsonValue::Num(t) => {
            let cs = chars_of(t.as_str());
            let mut k: usize = 0;
            while k < cs.len()
                invariant
                    k <= cs@.len(),
                    cs@ == t@,
                    out@ == old(out)@.add(t@.subrange(0, k as int)),
                decreases cs@.len() - k,
            {
                out.push(cs[k]);
                k = k + 1;
                proof {
                    assert(out@ =~= old(out)@.add(t@.subrange(0, k as int)));
                }
            }
            proof {
                assert(t@.subrange(0, t@.len() as int) =~= t@);
                assert(out@ =~= old(out)@.add(spec_print(v@)));
            }
        },
        JsonValue::Str(s) => {
            push_quoted(s.as_str(), out);
        },
        JsonValue::Arr(elems) => {
            let ghost model: Seq<Json> = arr_view(elems@);
            out.push('[');
            let mut i: usize = 0;
            while i < elems.len()
                invariant
                    i <= elems.len(),
                    model == arr_view(elems@),
                    model.len() == elems@.len(),
                    out@ == old(out)@.push('[').add(spec_print_elems(model, i as int)),
                decreases elems.len() - i,
            {
                if i > 0 {
                    out.push(',');
                }
                proof {
                    assert(decreases_to!(*v => (*v)->Arr_0));
                    assert((*v)->Arr_0 == *elems);
                    assert(decreases_to!(*elems => elems@));
                    assert(decreases_to!(elems@ => elems@[i as int]));
                    assert(model[i as int] == json_view(elems@[i as int]));
                }
                write_value(&elems[i], out);
                i = i + 1;
                assert(out@ =~= old(out)@.push('[').add(spec_print_elems(model, i as int)));
            }
            out.push(']');
            assert(out@ =~= old(out)@.add(spec_print(v@)));
        },
        JsonValue::Obj(entries) => {
            let ghost model: Seq<(Seq<char>, Json)> = entries_view(entries@);
            out.push('{');
            let mut i: usize = 0;
            while i < entries.len()
                invariant
                    i <= entries.len(),
                    model == entries_view(entries@),
                    model.len() == entries@.len(),
                    out@ == old(out)@.push('{').add(spec_print_entries(model, i as int)),
                decreases entries.len() - i,
            {
                if i > 0 {
                    out.push(',');
                }
                proof {
                    assert(model[i as int] == (entries@[i as int].0@, json_view(entries@[i as int].1)));
                    assert(model[i as int].0 == entries@[i as int].0@);
                    assert(model[i as int].1 == json_view(entries@[i as int].1));
                }
                push_quoted(entries[i].0.as_str(), out);
                out.push(':');
                proof {
                    assert(decreases_to!(*v => (*v)->Obj_0));
                    assert((*v)->Obj_0 == *entries);
                    assert(decreases_to!(*entries => entries@));
                    assert(decreases_to!(entries@ => entries@[i as int]));
                    assert(decreases_to!(entries@[i as int] => entries@[i as int].1));
                }
                write_value(&entries[i].1, out);
                i = i + 1;
                assert(out@ =~= old(out)@.push('{').add(spec_print_entries(model, i as int)));
            }
            out.push('}');
            assert(out@ =~= old(out)@.add(spec_print(v@)));
        },
    }
}

/// The canonical text of a JSON value, as a string.
pub fn to_text(v: &JsonValue) -> (r: String)
    ensures
        r@ == spec_print(v@),
{
    let mut out: Vec<char> = Vec::new();
    write_value(v, &mut out);
    let r = string_of(&out);
    proof {
        assert(Seq::<char>::empty().add(spec_print(v@)) =~= spec_print(v@));
    }
    r
}

/// The first binding of `key` in an object entry list, if any.
#[verifier::loop_isolation(false)]
pub fn lookup<'a>(entries: &'a Vec<(String, JsonValue)>, key: &str) -> (r: Option<&'a JsonValue>)
    ensures
        match r {
            Some(v) => spec_lookup(entries_view(entries@), key@) == Some(v@),
            None => spec_lookup(entries_view(entries@), key@) is None,
        },
{
    let ghost model: Seq<(Seq<char>, Json)> = entries_view(entries@);
    proof {
        assert(model.skip(0) =~= model);
    }
    let mut i: usize = 0;
    while i < entries.len()
        invariant
            i <= entries.len(),
            model == entries_view(entries@),
            model.len() == entries@.len(),
            spec_lookup(model, key@) == spec_lookup(model.skip(i as int), key@),
        decreases entries.len() - i,
    {
        proof {
            assert(model.skip(i as int)[0] == model[i as int]);
            assert(model[i as int] == (entries@[i as int].0@, json_view(entries@[i as int].1)));
        }
        if str_eq(entries[i].0.as_str(), key) {
            return Some(&entries[i].1);
        }
        proof {
            assert(model.skip(i as int).drop_first() =~= model.skip(i + 1));
        }
        i = i + 1;
    }
    proof {
        assert(model.skip(entries@.len() as int).len() == 0);
    }
    None
}

/// Copies a JSON tree.
#[verifier::loop_isolation(false)]
pub fn json_clone(v: &JsonValue) -> (r: JsonValue)
    ensures
        r@ == v@,
    decreases *v,
{
    match v {
        JsonValue::Null => JsonValue::Null,
        JsonValue::Bool(b) => JsonValue::Bool(*b),
        JsonValue::Int(n) => JsonValue::Int(*n),
        JsonValue::Num(t) => JsonValue::Num(t.clone()),
        JsonValue::Str(s) => JsonValue::Str(s.clone()),
        JsonValue::Arr(elems) => {
            let mut copy: Vec<JsonValue> = Vec::new();
            let mut i: usize = 0;
            while i < elems.len()
                invariant
                    i <= elems.len(),
                    copy@.len() == i,
                    forall|k: int|
                        0 <= k < i ==> json_view(#[trigger] copy@[k]) == json_view(elems@[k]),
                decreases elems.len() - i,
            {
                proof {
                    assert(decreases_to!(*v => (*v)->Arr_0));
                    assert((*v)->Arr_0 == *elems);
                    assert(decreases_to!(*elems => elems@));
                    assert(decreases_to!(elems@ => elems@[i as int]));
                }
                let c = json_clone(&elems[i]);
                copy.push(c);
                i = i + 1;
            }
            let r = JsonValue::Arr(copy);
            proof {
                assert(arr_view(copy@) =~= arr_view(elems@));
            }
            r
        },
        JsonValue::Obj(entries) => {
            let mut copy: Vec<(String, JsonValue)> = Vec::new();
            let mut i: usize = 0;
            while i < entries.len()
                invariant
                    i <= entries.len(),
                    copy@.len() == i,
                    forall|k: int|
                        0 <= k < i ==> (#[trigger] copy@[k]).0@ == entries@[k].0@ && json_view(copy@[k].1) == json_view(entries@[k].1),
                decreases entries.len() - i,
            {
                proof {
                    assert(decreases_to!(*v => (*v)->Obj_0));
                    assert((*v)->Obj_0 == *entries);
                    assert(decreases_to!(*entries => entries@));
                    assert(decreases_to!(entries@ => entries@[i as int]));
                    assert(decreases_to!(entries@[i as int] => entries@[i as int].1));
                }
                let key = entries[i].0.clone();
                let val = json_clone(&entries[i].1);
                proof {
                    assert(key@ == entries@[i as int].0@ && val@ == json_view(entries@[i as int].1));
                }
                copy.push((key, val));
                i = i + 1;
            }
            let r = JsonValue::Obj(copy);
            proof {
                assert(entries_view(copy@) =~= entries_view(entries@));
            }
            r
        },
    }
}

impl Clone for JsonValue {
    /// Copies the tree; the copy has the same model.
    fn clone(&self) -> (r: JsonValue)
        ensures
            r@ == self@,
    {
        json_clone(self)
    }
}

impl JsonValue {
    /// A string value.
    pub fn text(s: &str) -> (r: JsonValue)
        ensures
            r@ == Json::Str(s@),
    {
        JsonValue::Str(s.to_owned())
    }

    /// True on the null value.
    pub fn is_null(&self) -> (r: bool)
        ensures
            r == (self@ is Null),
    {
        match self {
            JsonValue::Null => true,
            _ => false,
        }
    }

    /// The string inside a string value.
    pub fn as_str(&self) -> (r: Option<&String>)
        ensures
            match r {
                Some(s) => self@ == Json::Str(s@),
                None => !(self@ is Str),
            },
    {
        match self {
            JsonValue::Str(s) => Some(s),
            _ => None,
        }
    }

    /// The integer inside an integer value.
    pub fn as_int(&self) -> (r: Option<i64>)
        ensures
            match r {
                Some(n) => self@ == Json::Int(n as int),
                None => !(self@ is Int),
            },
    {
        match self {
            JsonValue::Int(n) => Some(*n),
            _ => None,
        }
    }

    /// The entry list inside an object value.
    pub fn as_obj(&self) -> (r: Option<&Vec<(String, JsonValue)>>)
        ensures
            match r {
                Some(entries) => self@ == Json::Obj(entries_view(entries@)),
                None => !(self@ is Obj),
            },
    {
        match self {
            JsonValue::Obj(entries) => Some(entries),
            _ => None,
        }
    }

    /// The elements inside an array value.
    pub fn as_arr(&self) -> (r: Option<&Vec<JsonValue>>)
        ensures
            match r {
                Some(elems) => self@ == Json::Arr(arr_view(elems@)),
                None => !(self@ is Arr),
            },
    {
        match self {
            JsonValue::Arr(elems) => Some(elems),
            _ => None,
        }
    }

    /// The member of an object value under `key`, if this is an object
    /// that binds the key.
    pub fn get<'a>(&'a self, key: &str) -> (r: Option<&'a JsonValue>)
        ensures
            match r {
                Some(v) => spec_get(self@, key@) == Some(v@),
                None => spec_get(self@, key@) is None,
            },
    {
        match self {
            JsonValue::Obj(entries) => lookup(entries, key),
            _ => None,
        }
    }
}

} // verus!
