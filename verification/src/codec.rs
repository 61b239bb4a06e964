//! Encoding and decoding between JSON-RPC messages and JSON documents.
//!
//! `spec_encode` is the canonical document of a message; `spec_decode`
//! classifies a document as a request, notification or response, or gives
//! the numeric code of the protocol error it deserves (`ParseError` for a
//! document that is not a JSON-RPC message at all, `InvalidRequest` for a
//! structure violation). `lemma_decode_encode` is the round-trip law:
//! decoding an encoded message gives the message back, whatever order an
//! intermediary may have stored the object keys in, since decoding looks
//! keys up by name.

use vstd::prelude::*;

use crate::json::Json;
use crate::json::JsonValue;
use crate::json::json_clone;
use crate::json::spec_lookup;
use crate::rpc::ErrorCode;
use crate::rpc::ErrorView;
use crate::rpc::IdView;
use crate::rpc::JsonRpcMessage;
use crate::rpc::JsonRpcNotification;
use crate::rpc::JsonRpcRequest;
use crate::rpc::JsonRpcResponse;
use crate::rpc::JsonRpcVersion2_0;
use crate::rpc::McpError;
use crate::rpc::MessageView;
use crate::rpc::NotificationView;
use crate::rpc::RequestId;
use crate::rpc::RequestView;
use crate::rpc::ResponseView;
use crate::rpc::spec_error_code_value;
use crate::rpc::spec_standard_of;

verus! {

/// The characters of the `jsonrpc` key.
pub open spec fn key_jsonrpc() -> Seq<char> {
    seq!['j', 's', 'o', 'n', 'r', 'p', 'c']
}

/// The characters of the `id` key.
pub open spec fn key_id() -> Seq<char> {
    seq!['i', 'd']
}

/// The characters of the `method` key.
pub open spec fn key_method() -> Seq<char> {
    seq!['m', 'e', 't', 'h', 'o', 'd']
}

/// The characters of the `params` key.
pub open spec fn key_params() -> Seq<char> {
    seq!['p', 'a', 'r', 'a', 'm', 's']
}

/// The characters of the `result` key.
pub open spec fn key_result() -> Seq<char> {
    seq!['r', 'e', 's', 'u', 'l', 't']
}

/// The characters of the `error` key.
pub open spec fn key_error() -> Seq<char> {
    seq!['e', 'r', 'r', 'o', 'r']
}

/// The characters of the `code` key.
pub open spec fn key_code() -> Seq<char> {
    seq!['c', 'o', 'd', 'e']
}

/// The characters of the `message` key.
pub open spec fn key_message() -> Seq<char> {
    seq!['m', 'e', 's', 's', 'a', 'g', 'e']
}

/// The characters of the `data` key.
pub open spec fn key_data() -> Seq<char> {
    seq!['d', 'a', 't', 'a']
}

/// The characters of the version literal `2.0`.
pub open spec fn version_chars() -> Seq<char> {
    seq!['2', '.', '0']
}

/// The document of a request id.
pub open spec fn id_json(id: IdView) -> Json {
    match id {
        IdView::Num(n) => Json::Int(n),
        IdView::Name(s) => Json::Str(s),
    }
}

/// An optional trailing entry.
pub open spec fn opt_entry(key: Seq<char>, v: Option<Json>) -> Seq<(Seq<char>, Json)> {
    match v {
        Some(j) => seq![(key, j)],
        None => Seq::<(Seq<char>, Json)>::empty(),
    }
}

/// The document of an error object.
pub open spec fn spec_encode_error(e: ErrorView) -> Json {
    Json::Obj(
        seq![
            (key_code(), Json::Int(spec_error_code_value(e.code))),
            (key_message(), Json::Str(e.message)),
        ].add(opt_entry(key_data(), e.data)),
    )
}

/// The canonical document of a message.
pub open spec fn spec_encode(m: MessageView) -> Json {
    match m {
        MessageView::Request(r) => Json::Obj(
            seq![
                (key_jsonrpc(), Json::Str(version_chars())),
                (key_id(), id_json(r.id)),
                (key_method(), Json::Str(r.method)),
            ].add(opt_entry(key_params(), r.params)),
        ),
        MessageView::Notification(n) => Json::Obj(
            seq![
                (key_jsonrpc(), Json::Str(version_chars())),
                (key_method(), Json::Str(n.method)),
            ].add(opt_entry(key_params(), n.params)),
        ),
        MessageView::Response(r) => match r.result {
            Some(v) => Json::Obj(
                seq![
                    (key_jsonrpc(), Json::Str(version_chars())),
                    (key_id(), id_json(r.id)),
                    (key_result(), v),
                ],
            ),
            None => Json::Obj(
                seq![
                    (key_jsonrpc(), Json::Str(version_chars())),
                    (key_id(), id_json(r.id)),
                    (
                        key_error(),
                        match r.error {
                            Some(e) => spec_encode_error(e),
                            None => Json::Null,
                        },
                    ),
                ],
            ),
        },
    }
}

/// The id a document denotes: an integer that fits a signed 64-bit
/// number, or a string.
pub open spec fn spec_decode_id(j: Json) -> Option<IdView> {
    match j {
        Json::Int(n) => if -0x8000_0000_0000_0000 <= n < 0x8000_0000_0000_0000 {
            Some(IdView::Num(n))
        } else {
            None
        },
        Json::Str(s) => Some(IdView::Name(s)),
        _ => None,
    }
}

/// The error object a document denotes: a numeric code that fits a signed
/// 32-bit number, a message string, optional data.
pub open spec fn spec_decode_error(j: Json) -> Option<ErrorView> {
    match j {
        Json::Obj(entries) => {
            let code = spec_lookup(entries, key_code());
            let message = spec_lookup(entries, key_message());
            if code matches Some(Json::Int(c)) && -0x8000_0000 <= c < 0x8000_0000 {
                if message matches Some(Json::Str(text)) {
                    Some(
                        ErrorView {
                            code: match spec_standard_of(code->Some_0->Int_0) {
                                Some(s) => ErrorCode::Standard(s),
                                None => ErrorCode::Custom(code->Some_0->Int_0 as i32),
                            },
                            message: message->Some_0->Str_0,
                            data: spec_lookup(entries, key_data()),
                        },
                    )
                } else {
                    None
                }
            } else {
                None
            }
        },
        _ => None,
    }
}

/// What a document means as a JSON-RPC message, or the numeric code of
/// the protocol error that rejecting it deserves.
pub open spec fn spec_decode(j: Json) -> Result<MessageView, int> {
    match j {
        Json::Obj(entries) => {
            if spec_lookup(entries, key_jsonrpc()) != Some(Json::Str(version_chars())) {
                Err(-32700int)
            } else {
                let method = spec_lookup(entries, key_method());
                let id = spec_lookup(entries, key_id());
                if method is Some {
                    if !(method->Some_0 is Str) {
                        Err(-32600int)
                    } else {
                        let params = spec_lookup(entries, key_params());
                        match id {
                            Some(idj) => match spec_decode_id(idj) {
                                Some(idv) => Ok(
                                    MessageView::Request(
                                        RequestView {
                                            id: idv,
                                            method: method->Some_0->Str_0,
                                            params,
                                        },
                                    ),
                                ),
                                None => Err(-32600int),
                            },
                            None => Ok(
                                MessageView::Notification(
                                    NotificationView { method: method->Some_0->Str_0, params },
                                ),
                            ),
                        }
                    }
                } else {
                    match id {
                        Some(idj) => match spec_decode_id(idj) {
                            Some(idv) => {
                                let result = spec_lookup(entries, key_result());
                                let error = spec_lookup(entries, key_error());
                                if result is Some && error is None {
                                    Ok(
                                        MessageView::Response(
                                            ResponseView {
                                                id: idv,
                                                result: Some(result->Some_0),
                                                error: None,
                                            },
                                        ),
                                    )
                                } else if result is None && error is Some {
                                    match spec_decode_error(error->Some_0) {
                                        Some(ev) => Ok(
                                            MessageView::Response(
                                                ResponseView {
                                                    id: idv,
                                                    result: None,
                                                    error: Some(ev),
                                                },
                                            ),
                                        ),
                                        None => Err(-32600int),
                                    }
                                } else {
                                    Err(-32600int)
                                }
                            },
                            None => Err(-32600int),
                        },
                        None => Err(-32600int),
                    }
                }
            }
        },
        _ => Err(-32700int),
    }
}

/// A message that the wire can carry faithfully: a response has exactly
/// one of result and error, integer ids fit 64 bits, and a custom error
/// code does not collide with a standard one.
pub open spec fn wf_message(m: MessageView) -> bool {
    match m {
        MessageView::Request(r) => wf_id(r.id),
        MessageView::Notification(n) => true,
        MessageView::Response(r) => wf_id(r.id) && r.wf() && match r.error {
            Some(e) => wf_error_code(e.code),
            None => true,
        },
    }
}

/// An integer id fits a signed 64-bit number.
pub open spec fn wf_id(id: IdView) -> bool {
    match id {
        IdView::Num(n) => -0x8000_0000_0000_0000 <= n < 0x8000_0000_0000_0000,
        IdView::Name(_) => true,
    }
}

/// A custom code does not collide with a standard one.
pub open spec fn wf_error_code(c: ErrorCode) -> bool {
    match c {
        ErrorCode::Standard(_) => true,
        ErrorCode::Custom(v) => spec_standard_of(v as int) is None,
    }
}

/// Round trip: decoding the encoding of any well-formed message gives the
/// message back. Decoding looks object members up by key, so the law is
/// insensitive to the order in which keys are stored.
pub proof fn lemma_decode_encode(m: MessageView)
    requires
        wf_message(m),
    ensures
        spec_decode(spec_encode(m)) == Ok::<MessageView, int>(m),
{
    lemma_keys_distinct();
    match m {
        MessageView::Request(r) => {
            let head = seq![
                (key_jsonrpc(), Json::Str(version_chars())),
                (key_id(), id_json(r.id)),
                (key_method(), Json::Str(r.method)),
            ];
            let tail = opt_entry(key_params(), r.params);
            let entries = head.add(tail);
            lemma_lookup_triple(head);
            lemma_lookup_prefix(head, tail, key_jsonrpc());
            lemma_lookup_prefix(head, tail, key_id());
            lemma_lookup_prefix(head, tail, key_method());
            lemma_lookup_skip_head(head, tail, key_params());
            assert(spec_lookup(entries, key_jsonrpc()) == Some(Json::Str(version_chars())));
            assert(spec_lookup(entries, key_id()) == Some(id_json(r.id)));
            assert(spec_lookup(entries, key_method()) == Some(Json::Str(r.method)));
            match r.params {
                Some(p) => {
                    lemma_lookup_single(key_params(), p, key_params());
                    assert(spec_lookup(entries, key_params()) == Some(p));
                },
                None => {
                    assert(spec_lookup(entries, key_params()) is None);
                },
            }
            assert(spec_decode_id(id_json(r.id)) == Some(r.id));
        },
        MessageView::Notification(n) => {
            let head = seq![
                (key_jsonrpc(), Json::Str(version_chars())),
                (key_method(), Json::Str(n.method)),
            ];
            let tail = opt_entry(key_params(), n.params);
            let entries = head.add(tail);
            lemma_lookup_pair(head);
            lemma_lookup_prefix(head, tail, key_jsonrpc());
            lemma_lookup_prefix(head, tail, key_method());
            lemma_lookup_skip_head(head, tail, key_id());
            lemma_lookup_skip_head(head, tail, key_params());
            assert(spec_lookup(entries, key_jsonrpc()) == Some(Json::Str(version_chars())));
            assert(spec_lookup(entries, key_method()) == Some(Json::Str(n.method)));
            match n.params {
                Some(p) => {
                    lemma_lookup_single(key_params(), p, key_params());
                    lemma_lookup_single(key_params(), p, key_id());
                    assert(spec_lookup(entries, key_id()) is None);
                    assert(spec_lookup(entries, key_params()) == Some(p));
                },
                None => {
                    assert(spec_lookup(entries, key_id()) is None);
                    assert(spec_lookup(entries, key_params()) is None);
                },
            }
        },
        MessageView::Response(r) => {
            match r.result {
                Some(v) => {
                    let entries = seq![
                        (key_jsonrpc(), Json::Str(version_chars())),
                        (key_id(), id_json(r.id)),
                        (key_result(), v),
                    ];
                    lemma_lookup_triple(entries);
                    assert(spec_lookup(entries, key_method()) is None);
                    assert(spec_lookup(entries, key_error()) is None);
                    assert(spec_decode_id(id_json(r.id)) == Some(r.id));
                },
                None => {
                    let e = r.error->Some_0;
                    let entries = seq![
                        (key_jsonrpc(), Json::Str(version_chars())),
                        (key_id(), id_json(r.id)),
                        (key_error(), spec_encode_error(e)),
                    ];
                    lemma_lookup_triple(entries);
                    assert(spec_lookup(entries, key_method()) is None);
                    assert(spec_lookup(entries, key_result()) is None);
                    let ehead = seq![
                        (key_code(), Json::Int(spec_error_code_value(e.code))),
                        (key_message(), Json::Str(e.message)),
                    ];
                    let etail = opt_entry(key_data(), e.data);
                    let eentries = ehead.add(etail);
                    lemma_lookup_pair(ehead);
                    lemma_lookup_prefix(ehead, etail, key_code());
                    lemma_lookup_prefix(ehead, etail, key_message());
                    lemma_lookup_skip_head(ehead, etail, key_data());
                    match e.data {
                        Some(d) => {
                            lemma_lookup_single(key_data(), d, key_data());
                        },
                        None => {},
                    }
                    assert(spec_lookup(eentries, key_code()) == Some(
                        Json::Int(spec_error_code_value(e.code)),
                    ));
                    assert(spec_lookup(eentries, key_message()) == Some(Json::Str(e.message)));
                    assert(-0x8000_0000 <= spec_error_code_value(e.code) < 0x8000_0000);
                    match e.code {
                        ErrorCode::Standard(s) => {
                            assert(spec_standard_of(spec_error_code_value(e.code)) == Some(s));
                        },
                        ErrorCode::Custom(c) => {
                            assert(spec_standard_of(spec_error_code_value(e.code)) is None);
                        },
                    }
                    assert(spec_decode_error(spec_encode_error(e)) == Some(e));
                    assert(spec_decode_id(id_json(r.id)) == Some(r.id));
                    assert(spec_encode(m)->Obj_0 =~= entries);
                },
            }
        },
    }
}

/// The nine member keys are pairwise distinct.
proof fn lemma_keys_distinct()
    ensures
        key_jsonrpc() != key_id(),
        key_jsonrpc() != key_method(),
        key_jsonrpc() != key_params(),
        key_jsonrpc() != key_result(),
        key_jsonrpc() != key_error(),
        key_id() != key_method(),
        key_id() != key_params(),
        key_id() != key_result(),
        key_id() != key_error(),
        key_method() != key_params(),
        key_method() != key_result(),
        key_method() != key_error(),
        key_params() != key_result(),
        key_params() != key_error(),
        key_result() != key_error(),
        key_code() != key_message(),
        key_code() != key_data(),
        key_message() != key_data(),
        key_jsonrpc() != key_message(),
        key_id() != key_code(),
        key_id() != key_message(),
        key_id() != key_data(),
{
    assert(key_jsonrpc()[0] == 'j');
    assert(key_id()[0] == 'i');
    assert(key_method()[0] == 'm');
    assert(key_params()[0] == 'p');
    assert(key_result()[0] == 'r');
    assert(key_error()[0] == 'e');
    assert(key_code()[0] == 'c');
    assert(key_message()[0] == 'm');
    assert(key_data()[0] == 'd');
    assert(key_method().len() == 6);
    assert(key_message().len() == 7);
}

/// A key bound in the head of a concatenation is found there.
proof fn lemma_lookup_prefix(
    head: Seq<(Seq<char>, Json)>,
    tail: Seq<(Seq<char>, Json)>,
    key: Seq<char>,
)
    ensures
        spec_lookup(head, key) is Some ==> spec_lookup(head.add(tail), key) == spec_lookup(
            head,
            key,
        ),
    decreases head.len(),
{
    if head.len() > 0 {
        assert(head.add(tail)[0] == head[0]);
        if head[0].0 == key {
        } else {
            assert(head.add(tail).drop_first() =~= head.drop_first().add(tail));
            lemma_lookup_prefix(head.drop_first(), tail, key);
        }
    }
}

/// A key bound nowhere in the head is looked up in the tail.
proof fn lemma_lookup_skip_head(
    head: Seq<(Seq<char>, Json)>,
    tail: Seq<(Seq<char>, Json)>,
    key: Seq<char>,
)
    ensures
        spec_lookup(head, key) is None ==> spec_lookup(head.add(tail), key) == spec_lookup(
            tail,
            key,
        ),
    decreases head.len(),
{
    if head.len() == 0 {
        assert(head.add(tail) =~= tail);
    } else {
        assert(head.add(tail)[0] == head[0]);
        if head[0].0 != key {
            assert(head.add(tail).drop_first() =~= head.drop_first().add(tail));
            lemma_lookup_skip_head(head.drop_first(), tail, key);
        }
    }
}

/// Unfolds a lookup over a one-entry object.
proof fn lemma_lookup_single(k: Seq<char>, v: Json, key: Seq<char>)
    ensures
        spec_lookup(seq![(k, v)], key) == if k == key {
            Some(v)
        } else {
            None::<Json>
        },
{
    assert(seq![(k, v)][0] == (k, v));
    assert(seq![(k, v)].drop_first().len() == 0);
    assert(spec_lookup(seq![(k, v)].drop_first(), key) is None);
}

/// Unfolds lookups over a two-entry object.
proof fn lemma_lookup_pair(entries: Seq<(Seq<char>, Json)>)
    requires
        entries.len() == 2,
    ensures
        forall|key: Seq<char>|
            #[trigger] spec_lookup(entries, key) == if entries[0].0 == key {
                Some(entries[0].1)
            } else if entries[1].0 == key {
                Some(entries[1].1)
            } else {
                None::<Json>
            },
{
    assert forall|key: Seq<char>|
        #[trigger] spec_lookup(entries, key) == if entries[0].0 == key {
            Some(entries[0].1)
        } else if entries[1].0 == key {
            Some(entries[1].1)
        } else {
            None::<Json>
        } by {
        let e1 = entries.drop_first();
        assert(e1[0] == entries[1]);
        assert(e1.drop_first().len() == 0);
        assert(spec_lookup(e1.drop_first(), key) is None);
        assert(spec_lookup(e1, key) == if entries[1].0 == key {
            Some(entries[1].1)
        } else {
            None::<Json>
        });
    }
}

/// Unfolds lookups over a three-entry object.
proof fn lemma_lookup_triple(entries: Seq<(Seq<char>, Json)>)
    requires
        entries.len() == 3,
    ensures
        forall|key: Seq<char>|
            #[trigger] spec_lookup(entries, key) == if entries[0].0 == key {
                Some(entries[0].1)
            } else if entries[1].0 == key {
                Some(entries[1].1)
            } else if entries[2].0 == key {
                Some(entries[2].1)
            } else {
                None::<Json>
            },
{
    assert forall|key: Seq<char>|
        #[trigger] spec_lookup(entries, key) == if entries[0].0 == key {
            Some(entries[0].1)
        } else if entries[1].0 == key {
            Some(entries[1].1)
        } else if entries[2].0 == key {
            Some(entries[2].1)
        } else {
            None::<Json>
        } by {
        let e1 = entries.drop_first();
        let e2 = e1.drop_first();
        assert(e1[0] == entries[1]);
        assert(e2[0] == entries[2]);
        assert(e2.drop_first().len() == 0);
        assert(spec_lookup(e2.drop_first(), key) is None);
        assert(spec_lookup(e2, key) == if entries[2].0 == key {
            Some(entries[2].1)
        } else {
            None::<Json>
        });
        assert(spec_lookup(e1, key) == if entries[1].0 == key {
            Some(entries[1].1)
        } else if entries[2].0 == key {
            Some(entries[2].1)
        } else {
            None::<Json>
        });
    }
}

/// Builds the document of a message.
pub fn encode_message(m: &JsonRpcMessage) -> (r: JsonValue)
    ensures
        r@ == spec_encode(m@),
{
    proof {
        reveal_strlit("jsonrpc");
        reveal_strlit("2.0");
        reveal_strlit("id");
        reveal_strlit("method");
        reveal_strlit("params");
        reveal_strlit("result");
        reveal_strlit("error");
        reveal_strlit("code");
        reveal_strlit("message");
        reveal_strlit("data");
        assert("jsonrpc"@ =~= key_jsonrpc());
        assert("2.0"@ =~= version_chars());
        assert("id"@ =~= key_id());
        assert("method"@ =~= key_method());
        assert("params"@ =~= key_params());
        assert("result"@ =~= key_result());
        assert("error"@ =~= key_error());
        assert("code"@ =~= key_code());
        assert("message"@ =~= key_message());
        assert("data"@ =~= key_data());
    }
    let mut entries: Vec<(String, JsonValue)> = Vec::new();
    entries.push(("jsonrpc".to_owned(), JsonValue::text("2.0")));
    match m {
        JsonRpcMessage::Request(req) => {
            entries.push(("id".to_owned(), encode_id(&req.id)));
            entries.push(("method".to_owned(), JsonValue::Str(req.method.clone())));
            match &req.params {
                Some(p) => {
                    entries.push(("params".to_owned(), json_clone(p)));
                },
                None => {},
            }
            let r = JsonValue::Obj(entries);
            proof {
                assert(crate::json::entries_view(r->Obj_0@) =~= spec_encode(m@)->Obj_0);
            }
            r
        },
        JsonRpcMessage::Notification(n) => {
            entries.push(("method".to_owned(), JsonValue::Str(n.method.clone())));
            match &n.params {
                Some(p) => {
                    entries.push(("params".to_owned(), json_clone(p)));
                },
                None => {},
            }
            let r = JsonValue::Obj(entries);
            proof {
                assert(crate::json::entries_view(r->Obj_0@) =~= spec_encode(m@)->Obj_0);
            }
            r
        },
        JsonRpcMessage::Response(resp) => {
            entries.push(("id".to_owned(), encode_id(&resp.id)));
            match (&resp.result, &resp.error) {
                (Some(v), _) => {
                    entries.push(("result".to_owned(), json_clone(v)));
                },
                (None, Some(e)) => {
                    entries.push(("error".to_owned(), encode_error(e)));
                },
                (None, None) => {
                    entries.push(("error".to_owned(), JsonValue::Null));
                },
            }
            let r = JsonValue::Obj(entries);
            proof {
                assert(crate::json::entries_view(r->Obj_0@) =~= spec_encode(m@)->Obj_0);
            }
            r
        },
    }
}

/// Builds the document of an id.
fn encode_id(id: &RequestId) -> (r: JsonValue)
    ensures
        r@ == id_json(id@),
{
    match id {
        RequestId::Number(n) => JsonValue::Int(*n),
        RequestId::Name(s) => JsonValue::Str(s.clone()),
    }
}

/// Builds the document of an error object.
fn encode_error(e: &McpError) -> (r: JsonValue)
    ensures
        r@ == spec_encode_error(e@),
{
    proof {
        reveal_strlit("code");
        reveal_strlit("message");
        reveal_strlit("data");
        assert("code"@ =~= key_code());
        assert("message"@ =~= key_message());
        assert("data"@ =~= key_data());
    }
    let mut entries: Vec<(String, JsonValue)> = Vec::new();
    let code: i64 = e.code.value() as i64;
    entries.push(("code".to_owned(), JsonValue::Int(code)));
    entries.push(("message".to_owned(), JsonValue::Str(e.message.clone())));
    match &e.data {
        Some(d) => {
            entries.push(("data".to_owned(), json_clone(d)));
        },
        None => {},
    }
    let r = JsonValue::Obj(entries);
    proof {
        assert(crate::json::entries_view(r->Obj_0@) =~= spec_encode_error(e@)->Obj_0);
    }
    r
}

/// Reads a message out of a document; a rejected document gets the error
/// the classification says it deserves.
pub fn decode_message(v: &JsonValue) -> (r: Result<JsonRpcMessage, McpError>)
    ensures
        match r {
            Ok(m) => spec_decode(v@) == Ok::<MessageView, int>(m@),
            Err(e) => spec_decode(v@) matches Err(c) && spec_error_code_value(e@.code) == c,
        },
{
    proof {
        reveal_strlit("jsonrpc");
        reveal_strlit("2.0");
        reveal_strlit("id");
        reveal_strlit("method");
        reveal_strlit("params");
        reveal_strlit("result");
        reveal_strlit("error");
        assert("jsonrpc"@ =~= key_jsonrpc());
        assert("2.0"@ =~= version_chars());
        assert("id"@ =~= key_id());
        assert("method"@ =~= key_method());
        assert("params"@ =~= key_params());
        assert("result"@ =~= key_result());
        assert("error"@ =~= key_error());
    }
    let entries = match v.as_obj() {
        Some(entries) => entries,
        None => {
            return Err(McpError::parse_error("not a JSON object"));
        },
    };
    let version_ok: bool = match crate::json::lookup(entries, "jsonrpc") {
        Some(j) => match j.as_str() {
            Some(s) => crate::json::str_eq(s.as_str(), "2.0"),
            None => false,
        },
        None => false,
    };
    if !version_ok {
        return Err(McpError::parse_error("missing or wrong jsonrpc version"));
    }
    let id: Option<RequestId> = match crate::json::lookup(entries, "id") {
        Some(j) => match decode_id(j) {
            Some(id) => Some(id),
            None => {
                return Err(McpError::invalid_request("id must be an integer or a string"));
            },
        },
        None => None,
    };
    match crate::json::lookup(entries, "method") {
        Some(mj) => {
            let method: String = match mj.as_str() {
                Some(s) => s.clone(),
                None => {
                    return Err(McpError::invalid_request("method must be a string"));
                },
            };
            let params: Option<JsonValue> = match crate::json::lookup(entries, "params") {
                Some(p) => Some(json_clone(p)),
                None => None,
            };
            match id {
                Some(id) => Ok(
                    JsonRpcMessage::Request(
                        JsonRpcRequest { jsonrpc: JsonRpcVersion2_0, id, method, params },
                    ),
                ),
                None => Ok(
                    JsonRpcMessage::Notification(
                        JsonRpcNotification { jsonrpc: JsonRpcVersion2_0, method, params },
                    ),
                ),
            }
        },
        None => {
            let id: RequestId = match id {
                Some(id) => id,
                None => {
                    return Err(McpError::invalid_request("message carries no method and no id"));
                },
            };
            let result = crate::json::lookup(entries, "result");
            let error = crate::json::lookup(entries, "error");
            match (result, error) {
                (Some(rv), None) => Ok(
                    JsonRpcMessage::Response(
                        JsonRpcResponse {
                            jsonrpc: JsonRpcVersion2_0,
                            id,
                            result: Some(json_clone(rv)),
                            error: None,
                        },
                    ),
                ),
                (None, Some(ev)) => match decode_error(ev) {
                    Some(e) => Ok(
                        JsonRpcMessage::Response(
                            JsonRpcResponse {
                                jsonrpc: JsonRpcVersion2_0,
                                id,
                                result: None,
                                error: Some(e),
                            },
                        ),
                    ),
                    None => Err(McpError::invalid_request("malformed error object")),
                },
                _ => Err(
                    McpError::invalid_request("response carries no result and no error, or both"),
                ),
            }
        },
    }
}

/// Reads a request id out of a document.
fn decode_id(j: &JsonValue) -> (r: Option<RequestId>)
    ensures
        match r {
            Some(id) => spec_decode_id(j@) == Some(id@),
            None => spec_decode_id(j@) is None,
        },
{
    match j {
        JsonValue::Int(n) => Some(RequestId::Number(*n)),
        JsonValue::Str(s) => Some(RequestId::Name(s.clone())),
        _ => None,
    }
}

/// Reads an error object out of a document.
fn decode_error(j: &JsonValue) -> (r: Option<McpError>)
    ensures
        match r {
            Some(e) => spec_decode_error(j@) == Some(e@),
            None => spec_decode_error(j@) is None,
        },
{
    proof {
        reveal_strlit("code");
        reveal_strlit("message");
        reveal_strlit("data");
        assert("code"@ =~= key_code());
        assert("message"@ =~= key_message());
        assert("data"@ =~= key_data());
    }
    let entries = match j.as_obj() {
        Some(entries) => entries,
        None => {
            return None;
        },
    };
    let code: i32 = match crate::json::lookup(entries, "code") {
        Some(c) => match c.as_int() {
            Some(n) => {
                if -0x8000_0000i64 <= n && n < 0x8000_0000i64 {
                    n as i32
                } else {
                    return None;
                }
            },
            None => {
                return None;
            },
        },
        None => {
            return None;
        },
    };
    let message: String = match crate::json::lookup(entries, "message") {
        Some(mj) => match mj.as_str() {
            Some(s) => s.clone(),
            None => {
                return None;
            },
        },
        None => {
            return None;
        },
    };
    let data: Option<JsonValue> = match crate::json::lookup(entries, "data") {
        Some(d) => Some(json_clone(d)),
        None => None,
    };
    Some(McpError { code: ErrorCode::from_value(code), message, data })
}

/// The canonical wire text of a message.
pub fn encode_text(m: &JsonRpcMessage) -> (r: String)
    ensures
        r@ == crate::json::spec_print(spec_encode(m@)),
{
    let doc = encode_message(m);
    crate::json::to_text(&doc)
}

/// Reads a message out of wire text: parse the JSON, then classify it.
pub fn decode_text(s: &str) -> (r: Result<JsonRpcMessage, McpError>)
    ensures
        match r {
            Ok(m) => crate::parse::spec_parse(s@) matches Some(j) && spec_decode(j) == Ok::<
                MessageView,
                int,
            >(m@),
            Err(e) => {
                ||| (crate::parse::spec_parse(s@) is None && spec_error_code_value(e@.code)
                    == -32700)
                ||| (crate::parse::spec_parse(s@) matches Some(j) && spec_decode(j) matches Err(c)
                    && spec_error_code_value(e@.code) == c)
            },
        },
{
    match crate::parse::parse_json(s) {
        Some(doc) => decode_message(&doc),
        None => Err(McpError::parse_error("malformed JSON")),
    }
}

/// A best-effort id out of a frame that failed to decode: when the text
/// still parses as a JSON object whose `id` member is an integer or a
/// string, that id — so the rejection can be answered instead of
/// silently dropped. Anything else recovers nothing.
pub fn recover_id(text: &str) -> (r: Option<crate::rpc::RequestId>)
    ensures
        r matches Some(id) ==> (crate::parse::spec_parse(text@) matches Some(doc)
            && crate::json::spec_get(doc, key_id()) == Some(id_json(id@))),
{
    proof {
        reveal_strlit("id");
        assert("id"@ =~= key_id());
    }
    let doc = match crate::parse::parse_json(text) {
        Some(doc) => doc,
        None => {
            return None;
        },
    };
    let member = match doc.get("id") {
        Some(member) => member,
        None => {
            return None;
        },
    };
    match member.as_int() {
        Some(n) => {
            return Some(crate::rpc::RequestId::new_number(n));
        },
        None => {},
    }
    match member.as_str() {
        Some(s) => Some(crate::rpc::RequestId::new_string(s.as_str())),
        None => None,
    }
}

} // verus!
