//! Core protocol entities: peer identification, content variants, and the
//! descriptors of tools, resources and prompts.

use vstd::prelude::*;

use crate::json::Json;
use crate::json::JsonValue;
use crate::json::entries_view;

verus! {

/// The name and version a peer advertises about itself at initialize.
#[derive(Debug, Clone, PartialEq, Eq)]
pub struct Implementation {
    pub name: String,
    pub version: String,
}

impl Implementation {
    /// An identification with the given name and version.
    pub fn new(name: &str, version: &str) -> (r: Implementation)
        ensures
            r.name@ == name@,
            r.version@ == version@,
    {
        Implementation { name: name.to_owned(), version: version.to_owned() }
    }

    /// This library's own identification.
    pub fn glyph() -> (r: Implementation)
        ensures
            r.name@ == "glyph"@,
            r.version@ == "0.1.0"@,
    {
        Implementation::new("glyph", "0.1.0")
    }
}

/// A piece of content carried in tool results, prompt messages and
/// resource reads: text, a base64 image, or a resource reference.
#[derive(Debug, Clone)]
pub enum Content {
    Text { text: String },
    Image { data: String, mime_type: String },
    Resource { resource_uri: String, text: Option<String>, mime_type: Option<String> },
}

impl Content {
    /// Text content.
    pub fn text(text: &str) -> (r: Content)
        ensures
            r matches Content::Text { text: t } && t@ == text@,
    {
        Content::Text { text: text.to_owned() }
    }

    /// Image content: base64 data with a MIME type.
    pub fn image(data: &str, mime_type: &str) -> (r: Content)
        ensures
            r matches Content::Image { data: d, mime_type: m } && d@ == data@ && m@ == mime_type@,
    {
        Content::Image { data: data.to_owned(), mime_type: mime_type.to_owned() }
    }

    /// A bare resource reference.
    pub fn resource(uri: &str) -> (r: Content)
        ensures
            r matches Content::Resource { resource_uri: u, text: t, mime_type: m } && u@ == uri@
                && t is None && m is None,
    {
        Content::Resource { resource_uri: uri.to_owned(), text: None, mime_type: None }
    }

    /// A resource reference carrying its text.
    pub fn resource_with_text(uri: &str, text: &str, mime_type: Option<String>) -> (r: Content)
        ensures
            r matches Content::Resource { resource_uri: u, text: t, mime_type: m } && u@ == uri@
                && (t matches Some(tx) && tx@ == text@) && m == mime_type,
    {
        Content::Resource {
            resource_uri: uri.to_owned(),
            text: Some(text.to_owned()),
            mime_type,
        }
    }
}

/// The declared input schema of a tool: a JSON-Schema object with
/// per-property schemas and a list of required property names.
#[derive(Debug)]
pub struct ToolInputSchema {
    pub schema_type: String,
    pub properties: Vec<(String, JsonValue)>,
    pub required: Option<Vec<String>>,
}

/// The model of a tool input schema.
pub ghost struct SchemaView {
    pub schema_type: Seq<char>,
    pub properties: Seq<(Seq<char>, Json)>,
    pub required: Option<Seq<Seq<char>>>,
}

impl View for ToolInputSchema {
    type V = SchemaView;

    open spec fn view(&self) -> SchemaView {
        SchemaView {
            schema_type: self.schema_type@,
            properties: entries_view(self.properties@),
            required: match self.required {
                Some(names) => Some(Seq::new(names@.len(), |i: int| names@[i]@)),
                None => None,
            },
        }
    }
}

/// The JSON-Schema document a schema renders to: its type, its
/// properties, and its required names when it has any.
pub open spec fn spec_schema_json(s: SchemaView) -> Json {
    Json::Obj(
        seq![
            (seq!['t', 'y', 'p', 'e'], Json::Str(s.schema_type)),
            (
                seq!['p', 'r', 'o', 'p', 'e', 'r', 't', 'i', 'e', 's'],
                Json::Obj(s.properties),
            ),
        ].add(
            match s.required {
                Some(names) => seq![
                    (
                        seq!['r', 'e', 'q', 'u', 'i', 'r', 'e', 'd'],
                        Json::Arr(Seq::new(names.len(), |i: int| Json::Str(names[i]))),
                    ),
                ],
                None => Seq::<(Seq<char>, Json)>::empty(),
            },
        ),
    )
}

impl Clone for ToolInputSchema {
    /// The copy has the same model.
    fn clone(&self) -> (r: ToolInputSchema)
        ensures
            r@ == self@,
    {
        let mut properties: Vec<(String, JsonValue)> = Vec::new();
        let mut i: usize = 0;
        while i < self.properties.len()
            invariant
                i <= self.properties@.len(),
                properties@.len() == i,
                forall|k: int|
                    0 <= k < i ==> (#[trigger] properties@[k]).0@ == self.properties@[k].0@
                        && properties@[k].1@ == self.properties@[k].1@,
            decreases self.properties@.len() - i,
        {
            let key = self.properties[i].0.clone();
            let value = crate::json::json_clone(&self.properties[i].1);
            properties.push((key, value));
            i = i + 1;
        }
        let required: Option<Vec<String>> = match &self.required {
            Some(names) => {
                let mut out: Vec<String> = Vec::new();
                let mut k: usize = 0;
                while k < names.len()
                    invariant
                        k <= names@.len(),
                        out@.len() == k,
                        forall|j: int| 0 <= j < k ==> (#[trigger] out@[j])@ == names@[j]@,
                    decreases names@.len() - k,
                {
                    out.push(names[k].clone());
                    k = k + 1;
                }
                Some(out)
            },
            None => None,
        };
        let r = ToolInputSchema { schema_type: self.schema_type.clone(), properties, required };
        proof {
            assert(entries_view(r.properties@) =~= entries_view(self.properties@));
            if r.required is Some && self.required is Some {
                let a = r.required->Some_0;
                let b = self.required->Some_0;
                assert(Seq::new(a@.len(), |i: int| a@[i]@) =~= Seq::new(b@.len(), |i: int| b@[i]@));
            }
        }
        r
    }
}

impl ToolInputSchema {
    /// An object schema with no properties and nothing required.
    pub fn object() -> (r: ToolInputSchema)
        ensures
            r.schema_type@ == "object"@,
            r.properties@.len() == 0,
            r.required is None,
    {
        ToolInputSchema {
            schema_type: "object".to_owned(),
            properties: Vec::new(),
            required: None,
        }
    }

    /// The same schema with these properties.
    pub fn with_properties(self, properties: Vec<(String, JsonValue)>) -> (r: ToolInputSchema)
        ensures
            r.schema_type == self.schema_type,
            r.properties == properties,
            r.required == self.required,
    {
        ToolInputSchema { properties, ..self }
    }

    /// The same schema with these required property names.
    pub fn with_required(self, required: Vec<String>) -> (r: ToolInputSchema)
        ensures
            r.schema_type == self.schema_type,
            r.properties == self.properties,
            r.required == Some(required),
    {
        ToolInputSchema { required: Some(required), ..self }
    }

    /// The JSON document of this schema: its type, properties and
    /// required names under their standard keys.
    #[verifier::loop_isolation(false)]
    pub fn to_json(&self) -> (r: JsonValue)
        ensures
            r@ == spec_schema_json(self@),
    {
        proof {
            reveal_strlit("type");
            reveal_strlit("properties");
            reveal_strlit("required");
            assert("type"@ =~= seq!['t', 'y', 'p', 'e']);
            assert("properties"@ =~= seq!['p', 'r', 'o', 'p', 'e', 'r', 't', 'i', 'e', 's']);
            assert("required"@ =~= seq!['r', 'e', 'q', 'u', 'i', 'r', 'e', 'd']);
        }
        let mut entries: Vec<(String, JsonValue)> = Vec::new();
        entries.push(("type".to_owned(), JsonValue::Str(self.schema_type.clone())));
        let mut props: Vec<(String, JsonValue)> = Vec::new();
        let mut i: usize = 0;
        while i < self.properties.len()
            invariant
                i <= self.properties.len(),
                props@.len() == i,
                forall|k: int|
                    0 <= k < i ==> (#[trigger] props@[k]).0@ == self.properties@[k].0@
                        && props@[k].1@ == self.properties@[k].1@,
            decreases self.properties.len() - i,
        {
            let key = self.properties[i].0.clone();
            let value = crate::json::json_clone(&self.properties[i].1);
            props.push((key, value));
            i = i + 1;
        }
        proof {
            assert(entries_view(props@) =~= entries_view(self.properties@));
        }
        entries.push(("properties".to_owned(), JsonValue::Obj(props)));
        match &self.required {
            Some(names) => {
                let mut elems: Vec<JsonValue> = Vec::new();
                let mut k: usize = 0;
                while k < names.len()
                    invariant
                        k <= names.len(),
                        elems@.len() == k,
                        forall|j: int|
                            0 <= j < k ==> (#[trigger] elems@[j])@ == Json::Str(names@[j]@),
                    decreases names.len() - k,
                {
                    elems.push(JsonValue::Str(names[k].clone()));
                    k = k + 1;
                }
                proof {
                    let req_names = self@.required->Some_0;
                    assert forall|j: int| 0 <= j < elems@.len() implies (#[trigger] elems@[j])@
                        == Json::Str(req_names[j]) by {
                        assert(req_names[j] == names@[j]@);
                    }
                    assert(crate::json::arr_view(elems@) =~= Seq::new(
                        req_names.len(),
                        |j: int| Json::Str(req_names[j]),
                    ));
                }
                entries.push(("required".to_owned(), JsonValue::Arr(elems)));
                let r = JsonValue::Obj(entries);
                proof {
                    assert(entries_view(r->Obj_0@) =~~= spec_schema_json(self@)->Obj_0);
                }
                r
            },
            None => {
                let r = JsonValue::Obj(entries);
                proof {
                    assert(spec_schema_json(self@)->Obj_0.len() == 2);
                    assert(entries_view(r->Obj_0@) =~~= spec_schema_json(self@)->Obj_0);
                }
                r
            },
        }
    }
}

/// A tool descriptor: a unique name, an optional description, and the
/// input schema calls are validated against.
#[derive(Debug)]
pub struct Tool {
    pub name: String,
    pub description: Option<String>,
    pub input_schema: ToolInputSchema,
}

/// The model of a tool descriptor.
pub ghost struct ToolView {
    pub name: Seq<char>,
    pub description: Option<Seq<char>>,
    pub input_schema: SchemaView,
}

impl View for Tool {
    type V = ToolView;

    open spec fn view(&self) -> ToolView {
        ToolView {
            name: self.name@,
            description: match self.description {
                Some(d) => Some(d@),
                None => None,
            },
            input_schema: self.input_schema@,
        }
    }
}

impl Clone for Tool {
    /// The copy has the same model.
    fn clone(&self) -> (r: Tool)
        ensures
            r@ == self@,
    {
        Tool {
            name: self.name.clone(),
            description: match &self.description {
                Some(d) => Some(d.clone()),
                None => None,
            },
            input_schema: self.input_schema.clone(),
        }
    }
}

/// A resource descriptor: a unique URI, a name, and optional description
/// and MIME type.
#[derive(Debug, Clone)]
pub struct Resource {
    pub uri: String,
    pub name: String,
    pub description: Option<String>,
    pub mime_type: Option<String>,
}

impl Resource {
    /// A resource with a URI and a name.
    pub fn new(uri: &str, name: &str) -> (r: Resource)
        ensures
            r.uri@ == uri@,
            r.name@ == name@,
            r.description is None,
            r.mime_type is None,
    {
        Resource {
            uri: uri.to_owned(),
            name: name.to_owned(),
            description: None,
            mime_type: None,
        }
    }

    /// The same resource with a description.
    pub fn with_description(self, description: &str) -> (r: Resource)
        ensures
            r.uri == self.uri,
            r.name == self.name,
            r.description matches Some(d) && d@ == description@,
            r.mime_type == self.mime_type,
    {
        Resource { description: Some(description.to_owned()), ..self }
    }

    /// The same resource with a MIME type.
    pub fn with_mime_type(self, mime_type: &str) -> (r: Resource)
        ensures
            r.uri == self.uri,
            r.name == self.name,
            r.description == self.description,
            r.mime_type matches Some(m) && m@ == mime_type@,
    {
        Resource { mime_type: Some(mime_type.to_owned()), ..self }
    }
}

/// A resource template descriptor: a URI template rather than a URI.
#[derive(Debug, Clone)]
pub struct ResourceTemplate {
    pub uri_template: String,
    pub name: String,
    pub description: Option<String>,
    pub mime_type: Option<String>,
}

/// A prompt descriptor: a unique name, an optional description, and the
/// arguments it takes.
#[derive(Debug)]
pub struct Prompt {
    pub name: String,
    pub description: Option<String>,
    pub arguments: Option<Vec<PromptArgument>>,
}

/// The model of a prompt descriptor.
pub ghost struct PromptView {
    pub name: Seq<char>,
    pub description: Option<Seq<char>>,
    pub arguments: Option<Seq<PromptArgumentView>>,
}

impl View for Prompt {
    type V = PromptView;

    open spec fn view(&self) -> PromptView {
        PromptView {
            name: self.name@,
            description: match self.description {
                Some(d) => Some(d@),
                None => None,
            },
            arguments: match self.arguments {
                Some(args) => Some(Seq::new(args@.len(), |i: int| args@[i]@)),
                None => None,
            },
        }
    }
}

impl Clone for Prompt {
    /// The copy has the same model.
    fn clone(&self) -> (r: Prompt)
        ensures
            r@ == self@,
    {
        let arguments: Option<Vec<PromptArgument>> = match &self.arguments {
            Some(args) => {
                let mut out: Vec<PromptArgument> = Vec::new();
                let mut i: usize = 0;
                while i < args.len()
                    invariant
                        i <= args@.len(),
                        out@.len() == i,
                        forall|k: int| 0 <= k < i ==> (#[trigger] out@[k])@ == args@[k]@,
                    decreases args@.len() - i,
                {
                    out.push(args[i].clone());
                    i = i + 1;
                }
                Some(out)
            },
            None => None,
        };
        let r = Prompt {
            name: self.name.clone(),
            description: match &self.description {
                Some(d) => Some(d.clone()),
                None => None,
            },
            arguments,
        };
        proof {
            if r.arguments is Some && self.arguments is Some {
                let a = r.arguments->Some_0;
                let b = self.arguments->Some_0;
                assert(Seq::new(a@.len(), |i: int| a@[i]@) =~= Seq::new(b@.len(), |i: int| b@[i]@));
            }
        }
        r
    }
}

/// One argument a prompt takes, and whether it must be supplied.
#[derive(Debug)]
pub struct PromptArgument {
    pub name: String,
    pub description: Option<String>,
    pub required: Option<bool>,
}

/// The model of a prompt argument descriptor.
pub ghost struct PromptArgumentView {
    pub name: Seq<char>,
    pub description: Option<Seq<char>>,
    pub required: Option<bool>,
}

impl View for PromptArgument {
    type V = PromptArgumentView;

    open spec fn view(&self) -> PromptArgumentView {
        PromptArgumentView {
            name: self.name@,
            description: match self.description {
                Some(d) => Some(d@),
                None => None,
            },
            required: self.required,
        }
    }
}

impl Clone for PromptArgument {
    /// The copy has the same model.
    fn clone(&self) -> (r: PromptArgument)
        ensures
            r@ == self@,
            r.name@ == self.name@,
            r.required == self.required,
    {
        PromptArgument {
            name: self.name.clone(),
            description: match &self.description {
                Some(d) => Some(d.clone()),
                None => None,
            },
            required: self.required,
        }
    }
}

/// One role-tagged message a prompt renders to.
#[derive(Debug, Clone)]
pub struct PromptMessage {
    pub role: PromptRole,
    pub content: Content,
}

/// Who speaks a prompt message.
#[derive(Debug, Clone, Copy, PartialEq, Eq, Structural)]
pub enum PromptRole {
    User,
    Assistant,
    System,
}

/// A notification as a plain method and parameters pair.
#[derive(Debug, Clone)]
pub struct Notification {
    pub method: String,
    pub params: Option<JsonValue>,
}

/// The parameters of a resource subscription change.
#[derive(Debug, Clone)]
pub struct ResourceSubscription {
    pub uri: String,
}

/// Marker parameters of `notifications/resources/list_changed`.
#[derive(Debug, Clone, PartialEq, Eq, Structural)]
pub struct ResourceListChanged;

/// Marker parameters of `notifications/tools/list_changed`.
#[derive(Debug, Clone, PartialEq, Eq, Structural)]
pub struct ToolListChanged;

/// Marker parameters of `notifications/prompts/list_changed`.
#[derive(Debug, Clone, PartialEq, Eq, Structural)]
pub struct PromptListChanged;

} // verus!
