//! JSON encodings of the typed response payloads.

use vstd::prelude::*;

use crate::capabilities::ServerCapabilities;
use crate::json::Json;
use crate::json::JsonValue;
use crate::json::json_clone;
use crate::json::spec_get;
use crate::messages::CallToolResult;
use crate::messages::GetPromptResult;
use crate::messages::ResourceContents;
use crate::order::lemma_lex_refl;
use crate::order::lemma_lex_total;
use crate::order::lemma_lex_trans;
use crate::order::lex_leq;
use crate::order::str_leq;
use crate::rpc::RequestId;
use crate::types::Content;
use crate::types::Implementation;
use crate::types::Prompt;
use crate::types::PromptRole;
use crate::types::Resource;
use crate::version::ProtocolVersion;

verus! {

/// The document of one content piece, under its standard `type` tag.
pub fn content_json(c: &Content) -> (r: JsonValue)
    ensures
        r@ is Obj,
        spec_get(r@, "type"@) == Some(
            Json::Str(
                match c {
                    Content::Text { .. } => "text"@,
                    Content::Image { .. } => "image"@,
                    Content::Resource { .. } => "resource"@,
                },
            ),
        ),
        c matches Content::Text { text } ==> spec_get(r@, "text"@) == Some(Json::Str(text@)),
        c matches Content::Image { data, mime_type } ==> spec_get(r@, "data"@) == Some(
            Json::Str(data@),
        ) && spec_get(r@, "mimeType"@) == Some(Json::Str(mime_type@)),
        c matches Content::Resource { resource_uri, text, mime_type } ==> spec_get(
            r@,
            "resourceUri"@,
        ) == Some(Json::Str(resource_uri@)) && (mime_type matches Some(mt) ==> spec_get(
            r@,
            "mimeType"@,
        ) == Some(Json::Str(mt@))),
{
    proof {
        reveal_strlit("type");
        reveal_strlit("text");
        reveal_strlit("image");
        reveal_strlit("data");
        reveal_strlit("mimeType");
        reveal_strlit("resource");
        reveal_strlit("resourceUri");
        assert("type"@.len() == 4);
        assert("text"@.len() == 4);
    }
    let mut entries: Vec<(String, JsonValue)> = Vec::new();
    match c {
        Content::Text { text } => {
            entries.push(("type".to_owned(), JsonValue::text("text")));
            entries.push(("text".to_owned(), JsonValue::Str(text.clone())));
            let r = JsonValue::Obj(entries);
            proof {
                let m = crate::json::entries_view(r->Obj_0@);
                assert("type"@[1] == 'y' && "text"@[1] == 'e');
                assert(m[0].0 == "type"@);
                assert(m.drop_first()[0] == m[1]);
                assert(m[1].0 == "text"@);
                crate::json::lemma_lookup_unfold(m, "type"@);
                crate::json::lemma_lookup_unfold(m, "text"@);
                crate::json::lemma_lookup_unfold(m.drop_first(), "text"@);
                assert(spec_get(r@, "type"@) == Some(m[0].1));
                assert(spec_get(r@, "text"@) == Some(Json::Str(text@)));
            }
            r
        },
        Content::Image { data, mime_type } => {
            entries.push(("type".to_owned(), JsonValue::text("image")));
            entries.push(("data".to_owned(), JsonValue::Str(data.clone())));
            entries.push(("mimeType".to_owned(), JsonValue::Str(mime_type.clone())));
            let r = JsonValue::Obj(entries);
            proof {
                let m = crate::json::entries_view(r->Obj_0@);
                assert("type"@.len() == 4 && "data"@.len() == 4);
                assert("type"@[0] == 't' && "data"@[0] == 'd');
                assert(m[0].0 == "type"@);
                assert(m.drop_first()[0] == m[1]);
                assert(m[1].0 == "data"@);
                crate::json::lemma_lookup_unfold(m, "type"@);
                crate::json::lemma_lookup_unfold(m, "data"@);
                crate::json::lemma_lookup_unfold(m.drop_first(), "data"@);
                assert(spec_get(r@, "type"@) == Some(m[0].1));
                assert(spec_get(r@, "data"@) == Some(Json::Str(data@)));
                assert("mimeType"@.len() == 8);
                assert(m.drop_first().drop_first()[0] == m[2]);
                assert(m[2].0 == "mimeType"@);
                crate::json::lemma_lookup_unfold(m, "mimeType"@);
                crate::json::lemma_lookup_unfold(m.drop_first(), "mimeType"@);
                crate::json::lemma_lookup_unfold(m.drop_first().drop_first(), "mimeType"@);
                assert(spec_get(r@, "mimeType"@) == Some(Json::Str(mime_type@)));
            }
            r
        },
        Content::Resource { resource_uri, text, mime_type } => {
            entries.push(("type".to_owned(), JsonValue::text("resource")));
            entries.push(("resourceUri".to_owned(), JsonValue::Str(resource_uri.clone())));
            match text {
                Some(t) => {
                    entries.push(("text".to_owned(), JsonValue::Str(t.clone())));
                },
                None => {},
            }
            match mime_type {
                Some(m) => {
                    entries.push(("mimeType".to_owned(), JsonValue::Str(m.clone())));
                },
                None => {},
            }
            let r = JsonValue::Obj(entries);
            proof {
                let m = crate::json::entries_view(r->Obj_0@);
                assert("type"@.len() == 4 && "resourceUri"@.len() == 11);
                assert(m[0].0 == "type"@);
                assert(m.drop_first()[0] == m[1]);
                assert(m[1].0 == "resourceUri"@);
                crate::json::lemma_lookup_unfold(m, "type"@);
                crate::json::lemma_lookup_unfold(m, "resourceUri"@);
                crate::json::lemma_lookup_unfold(m.drop_first(), "resourceUri"@);
                assert(spec_get(r@, "type"@) == Some(m[0].1));
                assert(spec_get(r@, "resourceUri"@) == Some(Json::Str(resource_uri@)));
            }
            match (text, mime_type) {
                (Some(_), Some(mt)) => {
                    proof {
                        let m = crate::json::entries_view(r->Obj_0@);
                        assert("mimeType"@.len() == 8 && "text"@.len() == 4);
                        assert(m.drop_first()[0] == m[1]);
                        assert(m.drop_first().drop_first()[0] == m[2]);
                        assert(m.drop_first().drop_first().drop_first()[0] == m[3]);
                        assert(m[2].0 == "text"@);
                        assert(m[3].0 == "mimeType"@);
                        crate::json::lemma_lookup_unfold(m, "mimeType"@);
                        crate::json::lemma_lookup_unfold(m.drop_first(), "mimeType"@);
                        crate::json::lemma_lookup_unfold(m.drop_first().drop_first(), "mimeType"@);
                        crate::json::lemma_lookup_unfold(
                            m.drop_first().drop_first().drop_first(),
                            "mimeType"@,
                        );
                        assert(spec_get(r@, "mimeType"@) == Some(Json::Str(mt@)));
                    }
                },
                (None, Some(mt)) => {
                    proof {
                        let m = crate::json::entries_view(r->Obj_0@);
                        assert("mimeType"@.len() == 8);
                        assert(m.drop_first()[0] == m[1]);
                        assert(m.drop_first().drop_first()[0] == m[2]);
                        assert(m[2].0 == "mimeType"@);
                        crate::json::lemma_lookup_unfold(m, "mimeType"@);
                        crate::json::lemma_lookup_unfold(m.drop_first(), "mimeType"@);
                        crate::json::lemma_lookup_unfold(m.drop_first().drop_first(), "mimeType"@);
                        assert(spec_get(r@, "mimeType"@) == Some(Json::Str(mt@)));
                    }
                },
                _ => {},
            }
            r
        },
    }
}

/// The document of a tool-call result: its content pieces, the error
/// flag when set, and the metadata when present.
pub fn call_result_json(res: &CallToolResult) -> (r: JsonValue)
    ensures
        r@ is Obj,
        spec_get(r@, "content"@) matches Some(j) && j matches Json::Arr(a) && a.len()
            == res.content@.len(),
        res.is_error is Some ==> spec_get(r@, "isError"@) == Some(
            Json::Bool(res.is_error->Some_0),
        ),
{
    proof {
        reveal_strlit("content");
        reveal_strlit("isError");
        reveal_strlit("meta");
        assert("content"@.len() == 7);
        assert("isError"@.len() == 7);
        assert("meta"@.len() == 4);
    }
    let mut pieces: Vec<JsonValue> = Vec::new();
    let mut i: usize = 0;
    while i < res.content.len()
        invariant
            i <= res.content@.len(),
            pieces@.len() == i,
        decreases res.content@.len() - i,
    {
        pieces.push(content_json(&res.content[i]));
        i = i + 1;
    }
    let mut entries: Vec<(String, JsonValue)> = Vec::new();
    entries.push(("content".to_owned(), JsonValue::Arr(pieces)));
    match res.is_error {
        Some(b) => {
            entries.push(("isError".to_owned(), JsonValue::Bool(b)));
        },
        None => {},
    }
    match &res.meta {
        Some(m) => {
            entries.push(("meta".to_owned(), json_clone(m)));
        },
        None => {},
    }
    let r = JsonValue::Obj(entries);
    proof {
        let m = crate::json::entries_view(r->Obj_0@);
        assert(m[0].0 == "content"@);
        crate::json::lemma_lookup_unfold(m, "content"@);
        assert(spec_get(r@, "content"@) == Some(m[0].1));
        assert(crate::json::arr_view(pieces@).len() == pieces@.len());
        if res.is_error is Some {
            assert("content"@[0] == 'c' && "isError"@[0] == 'i');
            assert(m[1].0 == "isError"@);
            assert(m.drop_first()[0] == m[1]);
            crate::json::lemma_lookup_unfold(m, "isError"@);
            crate::json::lemma_lookup_unfold(m.drop_first(), "isError"@);
            assert(spec_get(r@, "isError"@) == Some(m[1].1));
        }
    }
    r
}

/// The document of a `tools/list` result: the descriptors under `tools`.
pub fn tools_result_json(tools: &Vec<crate::types::Tool>) -> (r: JsonValue)
    ensures
        r@ is Obj,
        spec_get(r@, "tools"@) matches Some(j) && j matches Json::Arr(a) && a.len()
            == tools@.len(),
        spec_get(r@, "tools"@) matches Some(Json::Arr(a2)) ==> forall|k: int|
            0 <= k < tools@.len() ==> ((#[trigger] a2[k]) matches Json::Obj(es)
                && crate::json::spec_lookup(es, "name"@) == Some(Json::Str(tools@[k].name@))),
{
    proof {
        reveal_strlit("tools");
        reveal_strlit("name");
        reveal_strlit("description");
        reveal_strlit("inputSchema");
    }
    let mut items: Vec<JsonValue> = Vec::new();
    let mut i: usize = 0;
    while i < tools.len()
        invariant
            i <= tools@.len(),
            items@.len() == i,
            forall|k: int|
                0 <= k < i ==> (crate::json::json_view(#[trigger] items@[k]) matches Json::Obj(es)
                    && crate::json::spec_lookup(es, "name"@) == Some(
                    Json::Str(tools@[k].name@),
                )),
        decreases tools@.len() - i,
    {
        let t = &tools[i];
        let mut entries: Vec<(String, JsonValue)> = Vec::new();
        entries.push(("name".to_owned(), JsonValue::Str(t.name.clone())));
        match &t.description {
            Some(d) => {
                entries.push(("description".to_owned(), JsonValue::Str(d.clone())));
            },
            None => {},
        }
        entries.push(("inputSchema".to_owned(), t.input_schema.to_json()));
        items.push(JsonValue::Obj(entries));
        proof {
            let m = crate::json::entries_view(items@.last()->Obj_0@);
            assert(m[0].0 == "name"@);
            crate::json::lemma_lookup_unfold(m, "name"@);
            assert(crate::json::spec_lookup(m, "name"@) == Some(m[0].1));
        }
        i = i + 1;
    }
    let mut entries: Vec<(String, JsonValue)> = Vec::new();
    entries.push(("tools".to_owned(), JsonValue::Arr(items)));
    let r = JsonValue::Obj(entries);
    proof {
        let m = crate::json::entries_view(r->Obj_0@);
        assert(m[0].0 == "tools"@);
        crate::json::lemma_lookup_unfold(m, "tools"@);
        assert(spec_get(r@, "tools"@) == Some(m[0].1));
        assert(crate::json::arr_view(items@).len() == items@.len());
        assert(forall|k: int|
            0 <= k < items@.len() ==> crate::json::arr_view(items@)[k] == crate::json::json_view(
                #[trigger] items@[k],
            ));
    }
    r
}

/// The document of one resource descriptor.
pub fn resource_json(res: &Resource) -> (r: JsonValue)
    ensures
        r@ is Obj,
        spec_get(r@, "uri"@) == Some(Json::Str(res.uri@)),
{
    proof {
        reveal_strlit("uri");
        reveal_strlit("name");
        reveal_strlit("description");
        reveal_strlit("mimeType");
        assert("uri"@.len() == 3);
    }
    let mut entries: Vec<(String, JsonValue)> = Vec::new();
    entries.push(("uri".to_owned(), JsonValue::Str(res.uri.clone())));
    entries.push(("name".to_owned(), JsonValue::Str(res.name.clone())));
    match &res.description {
        Some(d) => {
            entries.push(("description".to_owned(), JsonValue::Str(d.clone())));
        },
        None => {},
    }
    match &res.mime_type {
        Some(m) => {
            entries.push(("mimeType".to_owned(), JsonValue::Str(m.clone())));
        },
        None => {},
    }
    let r = JsonValue::Obj(entries);
    proof {
        let m = crate::json::entries_view(r->Obj_0@);
        assert(m[0].0 == "uri"@);
        crate::json::lemma_lookup_unfold(m, "uri"@);
        assert(spec_get(r@, "uri"@) == Some(m[0].1));
    }
    r
}

/// The document of a `resources/list` result: the descriptors under
/// `resources`.
pub fn resources_result_json(resources: &Vec<Resource>) -> (r: JsonValue)
    ensures
        r@ is Obj,
        spec_get(r@, "resources"@) matches Some(j) && j matches Json::Arr(a) && a.len()
            == resources@.len(),
        spec_get(r@, "resources"@) matches Some(Json::Arr(a2)) ==> forall|k: int|
            0 <= k < resources@.len() ==> spec_get(#[trigger] a2[k], "uri"@) == Some(
                Json::Str(resources@[k].uri@),
            ),
{
    proof {
        reveal_strlit("resources");
    }
    let mut items: Vec<JsonValue> = Vec::new();
    let mut i: usize = 0;
    while i < resources.len()
        invariant
            i <= resources@.len(),
            items@.len() == i,
            forall|k: int|
                0 <= k < i ==> spec_get(
                    crate::json::json_view(#[trigger] items@[k]),
                    "uri"@,
                ) == Some(Json::Str(resources@[k].uri@)),
        decreases resources@.len() - i,
    {
        items.push(resource_json(&resources[i]));
        i = i + 1;
    }
    let mut entries: Vec<(String, JsonValue)> = Vec::new();
    entries.push(("resources".to_owned(), JsonValue::Arr(items)));
    let r = JsonValue::Obj(entries);
    proof {
        let m = crate::json::entries_view(r->Obj_0@);
        assert(m[0].0 == "resources"@);
        crate::json::lemma_lookup_unfold(m, "resources"@);
        assert(spec_get(r@, "resources"@) == Some(m[0].1));
        assert(crate::json::arr_view(items@).len() == items@.len());
        assert(forall|k: int|
            0 <= k < items@.len() ==> crate::json::arr_view(items@)[k] == crate::json::json_view(
                #[trigger] items@[k],
            ));
    }
    r
}

/// The document of one piece of resource contents, with `text` or
/// `blob` as the variant has it.
pub fn contents_json(c: &ResourceContents) -> (r: JsonValue)
    ensures
        r@ is Obj,
{
    proof {
        reveal_strlit("uri");
        reveal_strlit("mimeType");
        reveal_strlit("text");
        reveal_strlit("blob");
    }
    let mut entries: Vec<(String, JsonValue)> = Vec::new();
    match c {
        ResourceContents::Text { uri, mime_type, text } => {
            entries.push(("uri".to_owned(), JsonValue::Str(uri.clone())));
            match mime_type {
                Some(m) => {
                    entries.push(("mimeType".to_owned(), JsonValue::Str(m.clone())));
                },
                None => {},
            }
            entries.push(("text".to_owned(), JsonValue::Str(text.clone())));
        },
        ResourceContents::Blob { uri, mime_type, blob } => {
            entries.push(("uri".to_owned(), JsonValue::Str(uri.clone())));
            match mime_type {
                Some(m) => {
                    entries.push(("mimeType".to_owned(), JsonValue::Str(m.clone())));
                },
                None => {},
            }
            entries.push(("blob".to_owned(), JsonValue::Str(blob.clone())));
        },
    }
    JsonValue::Obj(entries)
}

/// The document of a `resources/read` result: the pieces under
/// `contents`.
pub fn read_result_json(contents: &Vec<ResourceContents>) -> (r: JsonValue)
    ensures
        r@ is Obj,
        spec_get(r@, "contents"@) matches Some(j) && j matches Json::Arr(a) && a.len()
            == contents@.len(),
{
    proof {
        reveal_strlit("contents");
    }
    let mut items: Vec<JsonValue> = Vec::new();
    let mut i: usize = 0;
    while i < contents.len()
        invariant
            i <= contents@.len(),
            items@.len() == i,
        decreases contents@.len() - i,
    {
        items.push(contents_json(&contents[i]));
        i = i + 1;
    }
    let mut entries: Vec<(String, JsonValue)> = Vec::new();
    entries.push(("contents".to_owned(), JsonValue::Arr(items)));
    let r = JsonValue::Obj(entries);
    proof {
        let m = crate::json::entries_view(r->Obj_0@);
        assert(m[0].0 == "contents"@);
        crate::json::lemma_lookup_unfold(m, "contents"@);
        assert(spec_get(r@, "contents"@) == Some(m[0].1));
        assert(crate::json::arr_view(items@).len() == items@.len());
    }
    r
}

/// The document of a `prompts/list` result: the descriptors under
/// `prompts`.
pub fn prompts_result_json(prompts: &Vec<Prompt>) -> (r: JsonValue)
    ensures
        r@ is Obj,
        spec_get(r@, "prompts"@) matches Some(j) && j matches Json::Arr(a) && a.len()
            == prompts@.len(),
        spec_get(r@, "prompts"@) matches Some(Json::Arr(a2)) ==> forall|k: int|
            0 <= k < prompts@.len() ==> ((#[trigger] a2[k]) matches Json::Obj(es)
                && crate::json::spec_lookup(es, "name"@) == Some(Json::Str(prompts@[k].name@))),
{
    proof {
        reveal_strlit("prompts");
        reveal_strlit("name");
        reveal_strlit("description");
        reveal_strlit("arguments");
        reveal_strlit("required");
    }
    let mut items: Vec<JsonValue> = Vec::new();
    let mut i: usize = 0;
    while i < prompts.len()
        invariant
            i <= prompts@.len(),
            items@.len() == i,
            forall|k: int|
                0 <= k < i ==> (crate::json::json_view(#[trigger] items@[k]) matches Json::Obj(es)
                    && crate::json::spec_lookup(es, "name"@) == Some(
                    Json::Str(prompts@[k].name@),
                )),
        decreases prompts@.len() - i,
    {
        let p = &prompts[i];
        let mut entries: Vec<(String, JsonValue)> = Vec::new();
        entries.push(("name".to_owned(), JsonValue::Str(p.name.clone())));
        match &p.description {
            Some(d) => {
                entries.push(("description".to_owned(), JsonValue::Str(d.clone())));
            },
            None => {},
        }
        match &p.arguments {
            Some(args) => {
                let mut arg_items: Vec<JsonValue> = Vec::new();
                let mut k: usize = 0;
                while k < args.len()
                    decreases args@.len() - k,
                {
                    let mut a_entries: Vec<(String, JsonValue)> = Vec::new();
                    a_entries.push(("name".to_owned(), JsonValue::Str(args[k].name.clone())));
                    match &args[k].description {
                        Some(d) => {
                            a_entries.push(("description".to_owned(), JsonValue::Str(d.clone())));
                        },
                        None => {},
                    }
                    match args[k].required {
                        Some(b) => {
                            a_entries.push(("required".to_owned(), JsonValue::Bool(b)));
                        },
                        None => {},
                    }
                    arg_items.push(JsonValue::Obj(a_entries));
                    k = k + 1;
                }
                entries.push(("arguments".to_owned(), JsonValue::Arr(arg_items)));
            },
            None => {},
        }
        items.push(JsonValue::Obj(entries));
        proof {
            let m = crate::json::entries_view(items@.last()->Obj_0@);
            assert(m[0].0 == "name"@);
            crate::json::lemma_lookup_unfold(m, "name"@);
            assert(crate::json::spec_lookup(m, "name"@) == Some(m[0].1));
        }
        i = i + 1;
    }
    let mut entries: Vec<(String, JsonValue)> = Vec::new();
    entries.push(("prompts".to_owned(), JsonValue::Arr(items)));
    let r = JsonValue::Obj(entries);
    proof {
        let m = crate::json::entries_view(r->Obj_0@);
        assert(m[0].0 == "prompts"@);
        crate::json::lemma_lookup_unfold(m, "prompts"@);
        assert(spec_get(r@, "prompts"@) == Some(m[0].1));
        assert(crate::json::arr_view(items@).len() == items@.len());
    }
    r
}

/// The name a message role carries on the wire.
pub fn role_text(role: PromptRole) -> (r: String)
    ensures
        role == PromptRole::User ==> r@ == "user"@,
        role == PromptRole::Assistant ==> r@ == "assistant"@,
        role == PromptRole::System ==> r@ == "system"@,
{
    match role {
        PromptRole::User => "user".to_owned(),
        PromptRole::Assistant => "assistant".to_owned(),
        PromptRole::System => "system".to_owned(),
    }
}

/// The document of a `prompts/get` result: the description when there
/// is one, and the role-tagged messages.
pub fn prompt_result_json(result: &GetPromptResult) -> (r: JsonValue)
    ensures
        r@ is Obj,
        spec_get(r@, "messages"@) matches Some(j) && j matches Json::Arr(a) && a.len()
            == result.messages@.len(),
{
    proof {
        reveal_strlit("description");
        reveal_strlit("messages");
        reveal_strlit("role");
        reveal_strlit("content");
        assert("description"@.len() == 11);
        assert("messages"@.len() == 8);
    }
    let mut items: Vec<JsonValue> = Vec::new();
    let mut i: usize = 0;
    while i < result.messages.len()
        invariant
            i <= result.messages@.len(),
            items@.len() == i,
        decreases result.messages@.len() - i,
    {
        let mut entries: Vec<(String, JsonValue)> = Vec::new();
        entries.push(("role".to_owned(), JsonValue::Str(role_text(result.messages[i].role))));
        entries.push(("content".to_owned(), content_json(&result.messages[i].content)));
        items.push(JsonValue::Obj(entries));
        i = i + 1;
    }
    let mut entries: Vec<(String, JsonValue)> = Vec::new();
    match &result.description {
        Some(d) => {
            entries.push(("description".to_owned(), JsonValue::Str(d.clone())));
        },
        None => {},
    }
    entries.push(("messages".to_owned(), JsonValue::Arr(items)));
    let r = JsonValue::Obj(entries);
    proof {
        let m = crate::json::entries_view(r->Obj_0@);
        if result.description is Some {
            assert("description"@[0] == 'd' && "messages"@[0] == 'm');
            assert(m[0].0 == "description"@);
            assert(m[1].0 == "messages"@);
            assert(m.drop_first()[0] == m[1]);
            crate::json::lemma_lookup_unfold(m, "messages"@);
            crate::json::lemma_lookup_unfold(m.drop_first(), "messages"@);
            assert(spec_get(r@, "messages"@) == Some(m[1].1));
        } else {
            assert(m[0].0 == "messages"@);
            crate::json::lemma_lookup_unfold(m, "messages"@);
            assert(spec_get(r@, "messages"@) == Some(m[0].1));
        }
        assert(crate::json::arr_view(items@).len() == items@.len());
    }
    r
}

/// The document of a server capability advertisement.
pub fn capabilities_json(caps: &ServerCapabilities) -> (r: JsonValue)
    ensures
        r@ is Obj,
{
    proof {
        reveal_strlit("tools");
        reveal_strlit("resources");
        reveal_strlit("prompts");
        reveal_strlit("logging");
        reveal_strlit("experimental");
        reveal_strlit("listChanged");
        reveal_strlit("subscribe");
    }
    let mut entries: Vec<(String, JsonValue)> = Vec::new();
    match &caps.experimental {
        Some(e) => {
            entries.push(("experimental".to_owned(), json_clone(e)));
        },
        None => {},
    }
    match &caps.logging {
        Some(l) => {
            entries.push(("logging".to_owned(), json_clone(l)));
        },
        None => {},
    }
    match &caps.prompts {
        Some(p) => {
            let mut inner: Vec<(String, JsonValue)> = Vec::new();
            match p.list_changed {
                Some(b) => {
                    inner.push(("listChanged".to_owned(), JsonValue::Bool(b)));
                },
                None => {},
            }
            entries.push(("prompts".to_owned(), JsonValue::Obj(inner)));
        },
        None => {},
    }
    match &caps.resources {
        Some(c) => {
            let mut inner: Vec<(String, JsonValue)> = Vec::new();
            match c.subscribe {
                Some(b) => {
                    inner.push(("subscribe".to_owned(), JsonValue::Bool(b)));
                },
                None => {},
            }
            match c.list_changed {
                Some(b) => {
                    inner.push(("listChanged".to_owned(), JsonValue::Bool(b)));
                },
                None => {},
            }
            entries.push(("resources".to_owned(), JsonValue::Obj(inner)));
        },
        None => {},
    }
    match &caps.tools {
        Some(t) => {
            let mut inner: Vec<(String, JsonValue)> = Vec::new();
            match t.list_changed {
                Some(b) => {
                    inner.push(("listChanged".to_owned(), JsonValue::Bool(b)));
                },
                None => {},
            }
            entries.push(("tools".to_owned(), JsonValue::Obj(inner)));
        },
        None => {},
    }
    JsonValue::Obj(entries)
}

/// The document of an `initialize` result: the negotiated version, the
/// server's capabilities and its identification.
pub fn initialize_result_json(
    version: &ProtocolVersion,
    caps: &ServerCapabilities,
    server_info: &Implementation,
) -> (r: JsonValue)
    ensures
        r@ is Obj,
        spec_get(r@, "protocolVersion"@) == Some(Json::Str(version@)),
        spec_get(r@, "capabilities"@) matches Some(c) && c is Obj,
        spec_get(r@, "serverInfo"@) matches Some(info) && (crate::json::spec_lookup(
            info->Obj_0,
            "name"@,
        ) == Some(Json::Str(server_info.name@)) && crate::json::spec_lookup(
            info->Obj_0,
            "version"@,
        ) == Some(Json::Str(server_info.version@))),
{
    proof {
        reveal_strlit("protocolVersion");
        reveal_strlit("capabilities");
        reveal_strlit("serverInfo");
        reveal_strlit("name");
        reveal_strlit("version");
        assert("protocolVersion"@.len() == 15);
        assert("capabilities"@.len() == 12);
        assert("serverInfo"@.len() == 10);
        assert("name"@.len() == 4);
        assert("version"@.len() == 7);
    }
    let mut info_entries: Vec<(String, JsonValue)> = Vec::new();
    info_entries.push(("name".to_owned(), JsonValue::Str(server_info.name.clone())));
    info_entries.push(("version".to_owned(), JsonValue::Str(server_info.version.clone())));
    let ghost ginfo = info_entries@;
    let mut entries: Vec<(String, JsonValue)> = Vec::new();
    entries.push(("protocolVersion".to_owned(), JsonValue::Str(version.0.clone())));
    entries.push(("capabilities".to_owned(), capabilities_json(caps)));
    entries.push(("serverInfo".to_owned(), JsonValue::Obj(info_entries)));
    let r = JsonValue::Obj(entries);
    proof {
        let m = crate::json::entries_view(r->Obj_0@);
        assert(m[0].0 == "protocolVersion"@);
        assert(m.drop_first()[0] == m[1]);
        assert(m[1].0 == "capabilities"@);
        assert(m.drop_first().drop_first()[0] == m[2]);
        assert(m[2].0 == "serverInfo"@);
        crate::json::lemma_lookup_unfold(m, "protocolVersion"@);
        crate::json::lemma_lookup_unfold(m, "capabilities"@);
        crate::json::lemma_lookup_unfold(m.drop_first(), "capabilities"@);
        crate::json::lemma_lookup_unfold(m, "serverInfo"@);
        crate::json::lemma_lookup_unfold(m.drop_first(), "serverInfo"@);
        crate::json::lemma_lookup_unfold(m.drop_first().drop_first(), "serverInfo"@);
        assert(spec_get(r@, "protocolVersion"@) == Some(m[0].1));
        assert(spec_get(r@, "capabilities"@) == Some(m[1].1));
        assert(spec_get(r@, "serverInfo"@) == Some(m[2].1));
        assert(m[2].1 == Json::Obj(crate::json::entries_view(ginfo)));
        let info = crate::json::entries_view(ginfo);
        assert(info[0].0 == "name"@);
        assert(info.drop_first()[0] == info[1]);
        assert(info[1].0 == "version"@);
        crate::json::lemma_lookup_unfold(info, "name"@);
        crate::json::lemma_lookup_unfold(info, "version"@);
        crate::json::lemma_lookup_unfold(info.drop_first(), "version"@);
    }
    r
}

/// A request id as text: the decimal digits of an integer id, the name
/// of a string id.
pub fn id_text(id: &RequestId) -> (r: String)
    ensures
        match id {
            RequestId::Number(n) => r@ == crate::json::spec_int_chars(*n as int),
            RequestId::Name(s) => r@ == s@,
        },
{
    match id {
        RequestId::Number(n) => {
            let mut out: Vec<char> = Vec::new();
            crate::json::push_int_chars(*n, &mut out);
            proof {
                assert(out@ =~= crate::json::spec_int_chars(*n as int));
            }
            crate::json::string_of(&out)
        },
        RequestId::Name(s) => s.clone(),
    }
}

/// Sorts resource descriptors by URI: the result is sorted, and holds
/// exactly the descriptors given, as a multiset.
#[verifier::loop_isolation(false)]
pub fn sort_resources(items: Vec<Resource>) -> (r: Vec<Resource>)
    ensures
        r@.len() == items@.len(),
        r@.to_multiset() == items@.to_multiset(),
        forall|i: int, j: int|
            0 <= i < j < r@.len() ==> lex_leq((#[trigger] r@[i]).uri@, (#[trigger] r@[j]).uri@),
{
    broadcast use vstd::seq_lib::group_to_multiset_ensures;

    let mut rest = items;
    let mut out: Vec<Resource> = Vec::new();
    proof {
        assert(out@.to_multiset().add(rest@.to_multiset()) =~= items@.to_multiset());
    }
    while rest.len() > 0
        invariant
            out@.len() + rest@.len() == items@.len(),
            out@.to_multiset().add(rest@.to_multiset()) == items@.to_multiset(),
            forall|i: int, j: int|
                0 <= i < j < out@.len() ==> lex_leq(
                    (#[trigger] out@[i]).uri@,
                    (#[trigger] out@[j]).uri@,
                ),
            forall|i: int, j: int|
                0 <= i < out@.len() && 0 <= j < rest@.len() ==> lex_leq(
                    (#[trigger] out@[i]).uri@,
                    (#[trigger] rest@[j]).uri@,
                ),
        decreases rest@.len(),
    {
        let mut m: usize = 0;
        let mut k: usize = 1;
        proof {
            lemma_lex_refl(rest@[0].uri@);
        }
        while k < rest.len()
            invariant
                m < rest@.len(),
                k <= rest@.len(),
                forall|j: int|
                    0 <= j < k ==> lex_leq(rest@[m as int].uri@, (#[trigger] rest@[j]).uri@),
            decreases rest@.len() - k,
        {
            if !str_leq(rest[m].uri.as_str(), rest[k].uri.as_str()) {
                proof {
                    lemma_lex_total(rest@[m as int].uri@, rest@[k as int].uri@);
                    lemma_lex_refl(rest@[k as int].uri@);
                    assert forall|j: int| 0 <= j < k implies lex_leq(
                        rest@[k as int].uri@,
                        (#[trigger] rest@[j]).uri@,
                    ) by {
                        lemma_lex_trans(
                            rest@[k as int].uri@,
                            rest@[m as int].uri@,
                            rest@[j].uri@,
                        );
                    }
                }
                m = k;
            }
            k = k + 1;
        }
        let ghost rest0 = rest@;
        let chosen = rest.remove(m);
        proof {
            rest0.remove_ensures(m as int);
            assert(rest0.to_multiset() =~= rest@.to_multiset().insert(chosen));
            assert(out@.to_multiset().insert(chosen).add(rest@.to_multiset())
                =~= out@.to_multiset().add(rest0.to_multiset()));
            assert forall|j: int| 0 <= j < rest@.len() implies lex_leq(
                chosen.uri@,
                (#[trigger] rest@[j]).uri@,
            ) by {
                if j < m as int {
                    assert(rest@[j] == rest0[j]);
                } else {
                    assert(rest@[j] == rest0[j + 1]);
                }
            }
        }
        out.push(chosen);
    }
    proof {
        assert(rest@.to_multiset().len() == 0);
        assert(out@.to_multiset().add(rest@.to_multiset()) =~= out@.to_multiset());
    }
    out
}

} // verus!
