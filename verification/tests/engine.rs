//! Tests of the two resolution engines: deflating a described resource
//! graph into a flattened document, and inflating a document against a
//! target schema.

use json_api::doc::{Data, Document, Identifier, Object, ObjectSet, Relationship};
use json_api::key::Key;
use json_api::path::Path;
use json_api::query::Query;
use json_api::resource::{
    render_ident, resolve_raw_ident, resolve_raw_object, RawData, RawRelationship, RawResource,
    ResolveError,
};
use json_api::schema::{from_doc, DecodeError, Extras, ParseDocumentError, Schema};
use json_api::value::Value;
use json_api::{DocGraph, JsonApi, KeyMap, MapDocGraph, NameSet, Pulled, Version};

fn key(s: &str) -> Key {
    Key::parse(s).unwrap()
}

fn no_rel_links() -> Vec<(String, String)> {
    Vec::new()
}

fn user_raw(id: &str, name: &str) -> RawResource {
    RawResource {
        kind: key("users"),
        id: String::from(id),
        attributes: vec![(String::from("name"), Value::String(String::from(name)))],
        relationships: Vec::new(),
        links: no_rel_links(),
        meta: Vec::new(),
    }
}

fn article_raw() -> RawResource {
    RawResource {
        kind: key("articles"),
        id: String::from("1"),
        attributes: vec![
            (String::from("title"), Value::String(String::from("T"))),
            (String::from("body"), Value::String(String::from("B"))),
        ],
        relationships: vec![
            (
                String::from("author"),
                RawRelationship {
                    data: Some(RawData::One(Some(user_raw("9", "A")))),
                    links: no_rel_links(),
                    meta: Vec::new(),
                },
            ),
            (
                String::from("comments"),
                RawRelationship {
                    data: Some(RawData::Many(vec![RawResource {
                        kind: key("comments"),
                        id: String::from("5"),
                        attributes: vec![(
                            String::from("text"),
                            Value::String(String::from("hi")),
                        )],
                        relationships: Vec::new(),
                        links: no_rel_links(),
                        meta: Vec::new(),
                    }])),
                    links: no_rel_links(),
                    meta: Vec::new(),
                },
            ),
        ],
        links: no_rel_links(),
        meta: Vec::new(),
    }
}

fn author_query() -> Query {
    let mut q = Query::new();
    q.included.insert(Path::new().join(&key("author")));
    q
}

fn content_parts(doc: Document<Object>) -> (Data<Object>, ObjectSet) {
    match doc {
        Document::Content { data, included, .. } => (data, included),
        Document::Errors(_) => panic!("expected content"),
    }
}

#[test]
fn fieldset_filtering() {
    let mut q = Query::new();
    let mut names = NameSet::new();
    names.insert(String::from("title"));
    names.insert(String::from("author"));
    names.insert(String::from("comments"));
    q.fields.insert(key("articles"), names);
    let doc = resolve_raw_object(&article_raw(), Some(&q)).unwrap();
    let (data, _included) = content_parts(doc);
    let obj = match data {
        Data::Member(Some(obj)) => obj,
        _ => panic!("expected a single object"),
    };
    assert_eq!(obj.attributes.len(), 1);
    assert_eq!(
        obj.attributes.get(&key("title")),
        Some(&Value::String(String::from("T")))
    );
    assert!(obj.attributes.get(&key("body")).is_none());
    assert_eq!(obj.relationships.len(), 2);
}

#[test]
fn include_filtering() {
    let q = author_query();
    let doc = resolve_raw_object(&article_raw(), Some(&q)).unwrap();
    let (data, included) = content_parts(doc);
    let obj = match data {
        Data::Member(Some(obj)) => obj,
        _ => panic!("expected a single object"),
    };
    assert_eq!(included.len(), 1);
    assert!(included.find(&key("users"), "9").is_some());
    assert!(included.find(&key("comments"), "5").is_none());
    let comments = obj.relationships.get(&key("comments")).unwrap();
    match &comments.data {
        Some(Data::Collection(ids)) => {
            assert_eq!(ids.len(), 1);
            assert_eq!(ids[0].kind.as_str(), "comments");
            assert_eq!(ids[0].id, "5");
        }
        _ => panic!("expected identifiers for comments"),
    }
    let author = obj.relationships.get(&key("author")).unwrap();
    match &author.data {
        Some(Data::Member(Some(ident))) => {
            assert_eq!(ident.kind.as_str(), "users");
            assert_eq!(ident.id, "9");
        }
        _ => panic!("expected a to-one identifier for author"),
    }
}

#[test]
fn relationship_without_linkage_stays_absent() {
    let raw = RawResource {
        kind: key("articles"),
        id: String::from("1"),
        attributes: Vec::new(),
        relationships: vec![(
            String::from("author"),
            RawRelationship {
                data: None,
                links: no_rel_links(),
                meta: Vec::new(),
            },
        )],
        links: no_rel_links(),
        meta: Vec::new(),
    };
    let doc = resolve_raw_object(&raw, None).unwrap();
    let (data, _) = content_parts(doc);
    let obj = match data {
        Data::Member(Some(obj)) => obj,
        _ => panic!("expected a single object"),
    };
    let rel = obj.relationships.get(&key("author")).unwrap();
    assert!(rel.data.is_none());
}

#[test]
fn empty_to_one_is_explicit_null() {
    let raw = RawResource {
        kind: key("articles"),
        id: String::from("1"),
        attributes: Vec::new(),
        relationships: vec![(
            String::from("author"),
            RawRelationship {
                data: Some(RawData::One(None)),
                links: no_rel_links(),
                meta: Vec::new(),
            },
        )],
        links: no_rel_links(),
        meta: Vec::new(),
    };
    let doc = resolve_raw_object(&raw, None).unwrap();
    let (data, _) = content_parts(doc);
    let obj = match data {
        Data::Member(Some(obj)) => obj,
        _ => panic!("expected a single object"),
    };
    let rel = obj.relationships.get(&key("author")).unwrap();
    assert!(matches!(rel.data, Some(Data::Member(None))));
}

#[test]
fn deflate_normalizes_member_names() {
    let raw = RawResource {
        kind: key("articles"),
        id: String::from("1"),
        attributes: vec![(String::from("someFieldName"), Value::Bool(true))],
        relationships: Vec::new(),
        links: no_rel_links(),
        meta: Vec::new(),
    };
    let doc = resolve_raw_object(&raw, None).unwrap();
    let (data, _) = content_parts(doc);
    let obj = match data {
        Data::Member(Some(obj)) => obj,
        _ => panic!("expected a single object"),
    };
    assert!(obj.attributes.contains_key(&key("some-field-name")));
}

#[test]
fn deflate_rejects_bad_member_name() {
    let raw = RawResource {
        kind: key("articles"),
        id: String::from("1"),
        attributes: vec![(String::from("bad.name"), Value::Bool(true))],
        relationships: Vec::new(),
        links: no_rel_links(),
        meta: Vec::new(),
    };
    let err = resolve_raw_object(&raw, None).unwrap_err();
    match err {
        ResolveError::ParseKey(e) => assert_eq!(e.source().as_str(), "bad.name"),
        _ => panic!("expected a key error"),
    }
}

#[test]
fn deflate_validates_link_uris() {
    let mut raw = user_raw("1", "A");
    raw.links = vec![(String::from("self"), String::from("/users/1"))];
    let doc = resolve_raw_object(&raw, None).unwrap();
    let (data, _) = content_parts(doc);
    assert!(matches!(data, Data::Member(Some(_))));

    let mut bad = user_raw("1", "A");
    bad.links = vec![(String::from("self"), String::from("ht tp://broken uri"))];
    let err = resolve_raw_object(&bad, None).unwrap_err();
    assert!(matches!(err, ResolveError::Link(_)));
}

#[test]
fn root_links_and_meta_move_to_document() {
    let mut raw = user_raw("1", "A");
    raw.links = vec![(String::from("self"), String::from("/users/1"))];
    raw.meta = vec![(String::from("count"), Value::Bool(true))];
    let doc = resolve_raw_object(&raw, None).unwrap();
    match doc {
        Document::Content {
            data, links, meta, ..
        } => {
            let obj = match data {
                Data::Member(Some(obj)) => obj,
                _ => panic!("expected a single object"),
            };
            assert_eq!(obj.links.len(), 0);
            assert_eq!(obj.meta.len(), 0);
            assert_eq!(links.len(), 1);
            assert_eq!(meta.len(), 1);
        }
        Document::Errors(_) => panic!("expected content"),
    }
}

#[test]
fn resolve_ident_moves_meta_to_document() {
    let mut raw = user_raw("1", "A");
    raw.meta = vec![(String::from("note"), Value::String(String::from("x")))];
    let doc = resolve_raw_ident(&raw, None).unwrap();
    match doc {
        Document::Content { data, meta, .. } => {
            match data {
                Data::Member(Some(ident)) => {
                    assert_eq!(ident.kind.as_str(), "users");
                    assert_eq!(ident.id, "1");
                    assert_eq!(ident.meta.len(), 0);
                }
                _ => panic!("expected an identifier"),
            }
            assert_eq!(meta.len(), 1);
        }
        Document::Errors(_) => panic!("expected content"),
    }
}

#[test]
fn render_ident_keeps_meta() {
    let mut raw = user_raw("1", "A");
    raw.meta = vec![(String::from("note"), Value::String(String::from("x")))];
    let ident = render_ident(&raw).unwrap();
    assert_eq!(ident.meta.len(), 1);
}

fn article_document() -> Document<Object> {
    let mut article = Object::new(key("articles"), String::from("1"));
    article
        .attributes
        .insert(key("title"), Value::String(String::from("T")));
    article.relationships.insert(
        key("author"),
        Relationship::new(Some(Data::Member(Some(Identifier::new(
            key("users"),
            String::from("9"),
        ))))),
    );
    let mut user = Object::new(key("users"), String::from("9"));
    user.attributes
        .insert(key("name"), Value::String(String::from("A")));
    let mut included = ObjectSet::new();
    included.insert(user);
    Document::Content {
        data: Data::Member(Some(article)),
        included,
        jsonapi: JsonApi { version: Version::V1 },
        links: KeyMap::new(),
        meta: KeyMap::new(),
    }
}

fn rec(fields: Vec<(&str, Schema)>, extras: Extras) -> Schema {
    Schema::Rec(
        fields
            .into_iter()
            .map(|(n, s)| (String::from(n), s))
            .collect(),
        extras,
    )
}

#[test]
fn concrete_inflate_scenario() {
    let schema = rec(
        vec![
            ("title", Schema::Any),
            ("author", rec(vec![("name", Schema::Any)], Extras::Ignore)),
        ],
        Extras::Ignore,
    );
    let value = from_doc(article_document(), &schema).unwrap();
    let obj = value.as_object().unwrap();
    assert_eq!(
        obj.get(&key("title")),
        Some(&Value::String(String::from("T")))
    );
    let author = obj.get(&key("author")).unwrap().as_object().unwrap();
    assert_eq!(
        author.get(&key("name")),
        Some(&Value::String(String::from("A")))
    );
}

#[test]
fn round_trip_through_both_engines() {
    let q = author_query();
    let doc = resolve_raw_object(&article_raw(), Some(&q)).unwrap();
    let schema = rec(
        vec![
            ("title", Schema::Any),
            ("author", rec(vec![("name", Schema::Any)], Extras::Ignore)),
        ],
        Extras::Ignore,
    );
    let value = from_doc(doc, &schema).unwrap();
    let obj = value.as_object().unwrap();
    assert_eq!(
        obj.get(&key("title")),
        Some(&Value::String(String::from("T")))
    );
    let author = obj.get(&key("author")).unwrap().as_object().unwrap();
    assert_eq!(
        author.get(&key("name")),
        Some(&Value::String(String::from("A")))
    );
}

#[test]
fn exact_consumption_rejects_unrequested_fields() {
    let schema = rec(
        vec![("type", Schema::Str), ("id", Schema::Str), ("title", Schema::Any)],
        Extras::Reject,
    );
    let err = from_doc(article_document(), &schema).unwrap_err();
    assert!(matches!(
        err,
        ParseDocumentError::Decode(DecodeError::Unconsumed)
    ));
}

#[test]
fn exact_consumption_accepts_exactly_the_produced_fields() {
    let schema = rec(
        vec![
            ("type", Schema::Str),
            ("id", Schema::Str),
            ("title", Schema::Any),
            ("author", rec(vec![("type", Schema::Str)], Extras::Ignore)),
        ],
        Extras::Reject,
    );
    let value = from_doc(article_document(), &schema).unwrap();
    let obj = value.as_object().unwrap();
    assert_eq!(obj.len(), 4);
    assert_eq!(
        obj.get(&key("type")),
        Some(&Value::String(String::from("articles")))
    );
    assert_eq!(
        obj.get(&key("id")),
        Some(&Value::String(String::from("1")))
    );
}

#[test]
fn stub_fallback_for_missing_target() {
    let mut article = Object::new(key("articles"), String::from("1"));
    article.relationships.insert(
        key("author"),
        Relationship::new(Some(Data::Member(Some(Identifier::new(
            key("users"),
            String::from("404"),
        ))))),
    );
    let doc: Document<Object> = Document::Content {
        data: Data::Member(Some(article)),
        included: ObjectSet::new(),
        jsonapi: JsonApi { version: Version::V1 },
        links: KeyMap::new(),
        meta: KeyMap::new(),
    };
    let schema = rec(
        vec![(
            "author",
            rec(vec![("type", Schema::Str), ("id", Schema::Str)], Extras::Ignore),
        )],
        Extras::Ignore,
    );
    let value = from_doc(doc, &schema).unwrap();
    let obj = value.as_object().unwrap();
    let author = obj.get(&key("author")).unwrap().as_object().unwrap();
    assert_eq!(
        author.get(&key("type")),
        Some(&Value::String(String::from("users")))
    );
    assert_eq!(
        author.get(&key("id")),
        Some(&Value::String(String::from("404")))
    );
}

#[test]
fn stub_has_no_attributes() {
    let mut article = Object::new(key("articles"), String::from("1"));
    article.relationships.insert(
        key("author"),
        Relationship::new(Some(Data::Member(Some(Identifier::new(
            key("users"),
            String::from("404"),
        ))))),
    );
    let doc: Document<Object> = Document::Content {
        data: Data::Member(Some(article)),
        included: ObjectSet::new(),
        jsonapi: JsonApi { version: Version::V1 },
        links: KeyMap::new(),
        meta: KeyMap::new(),
    };
    let schema = rec(
        vec![("author", rec(vec![("name", Schema::Any)], Extras::Ignore))],
        Extras::Ignore,
    );
    let err = from_doc(doc, &schema).unwrap_err();
    assert!(matches!(
        err,
        ParseDocumentError::Decode(DecodeError::MissingField)
    ));
}

#[test]
fn inflate_type_mismatch() {
    let schema = rec(vec![("title", Schema::List(Box::new(Schema::Any)))], Extras::Ignore);
    let err = from_doc(article_document(), &schema).unwrap_err();
    assert!(matches!(
        err,
        ParseDocumentError::Decode(DecodeError::TypeMismatch)
    ));
}

#[test]
fn inflate_missing_field() {
    let schema = rec(vec![("subtitle", Schema::Any)], Extras::Ignore);
    let err = from_doc(article_document(), &schema).unwrap_err();
    assert!(matches!(
        err,
        ParseDocumentError::Decode(DecodeError::MissingField)
    ));
}

#[test]
fn inflate_to_many_as_list() {
    let q = {
        let mut q = Query::new();
        q.included.insert(Path::new().join(&key("comments")));
        q
    };
    let doc = resolve_raw_object(&article_raw(), Some(&q)).unwrap();
    let schema = rec(
        vec![(
            "comments",
            Schema::List(Box::new(rec(
                vec![("text", Schema::Any)],
                Extras::Ignore,
            ))),
        )],
        Extras::Ignore,
    );
    let value = from_doc(doc, &schema).unwrap();
    let obj = value.as_object().unwrap();
    let comments = obj.get(&key("comments")).unwrap().as_array().unwrap();
    assert_eq!(comments.len(), 1);
    let first = comments[0].as_object().unwrap();
    assert_eq!(
        first.get(&key("text")),
        Some(&Value::String(String::from("hi")))
    );
}

#[test]
fn inflate_null_to_one() {
    let mut article = Object::new(key("articles"), String::from("1"));
    article
        .relationships
        .insert(key("author"), Relationship::new(Some(Data::Member(None))));
    let doc: Document<Object> = Document::Content {
        data: Data::Member(Some(article)),
        included: ObjectSet::new(),
        jsonapi: JsonApi { version: Version::V1 },
        links: KeyMap::new(),
        meta: KeyMap::new(),
    };
    let schema = rec(
        vec![("author", Schema::Opt(Box::new(Schema::Str)))],
        Extras::Ignore,
    );
    let value = from_doc(doc, &schema).unwrap();
    let obj = value.as_object().unwrap();
    assert_eq!(obj.get(&key("author")), Some(&Value::Null));
}

#[test]
fn inflate_error_document() {
    let doc: Document<Object> = Document::Errors(json_api::DocumentError {
        errors: vec![json_api::ErrorObject {
            status: Some(String::from("404")),
            code: None,
            title: Some(String::from("not found")),
            detail: None,
        }],
        jsonapi: JsonApi { version: Version::V1 },
        links: KeyMap::new(),
        meta: KeyMap::new(),
    });
    assert!(doc.is_err());
    assert!(!doc.is_ok());
    let err = from_doc(doc, &Schema::Any).unwrap_err();
    match err {
        ParseDocumentError::Document(e) => {
            assert_eq!(e.errors.len(), 1);
            assert_eq!(e.errors[0].status.as_deref(), Some("404"));
        }
        _ => panic!("expected the error document"),
    }
}

#[test]
fn inflate_number_passthrough() {
    let mut obj = Object::new(key("counters"), String::from("1"));
    obj.attributes.insert(
        key("total"),
        Value::Number(json_api::value::Num(serde_json::Number::from(42u64))),
    );
    let doc: Document<Object> = Document::Content {
        data: Data::Member(Some(obj)),
        included: ObjectSet::new(),
        jsonapi: JsonApi { version: Version::V1 },
        links: KeyMap::new(),
        meta: KeyMap::new(),
    };
    let schema = rec(vec![("total", Schema::Any)], Extras::Ignore);
    let value = from_doc(doc, &schema).unwrap();
    let obj = value.as_object().unwrap();
    match obj.get(&key("total")) {
        Some(Value::Number(n)) => assert_eq!(n.0.as_u64(), Some(42)),
        _ => panic!("expected the number back"),
    }
}

#[test]
fn inflate_collection_primary_data() {
    let mut a = Object::new(key("users"), String::from("1"));
    a.attributes
        .insert(key("name"), Value::String(String::from("A")));
    let mut b = Object::new(key("users"), String::from("2"));
    b.attributes
        .insert(key("name"), Value::String(String::from("B")));
    let doc: Document<Object> = Document::Content {
        data: Data::Collection(vec![a, b]),
        included: ObjectSet::new(),
        jsonapi: JsonApi { version: Version::V1 },
        links: KeyMap::new(),
        meta: KeyMap::new(),
    };
    let schema = Schema::List(Box::new(rec(vec![("name", Schema::Any)], Extras::Ignore)));
    let value = from_doc(doc, &schema).unwrap();
    let items = value.as_array().unwrap();
    assert_eq!(items.len(), 2);
    assert_eq!(
        items[1].as_object().unwrap().get(&key("name")),
        Some(&Value::String(String::from("B")))
    );
}

#[test]
fn inflate_absent_member_is_null() {
    let doc: Document<Object> = Document::Content {
        data: Data::Member(None),
        included: ObjectSet::new(),
        jsonapi: JsonApi { version: Version::V1 },
        links: KeyMap::new(),
        meta: KeyMap::new(),
    };
    let value = from_doc(doc, &Schema::Opt(Box::new(Schema::Str))).unwrap();
    assert!(value.is_null());
}

struct Post {
    id: u64,
    title: String,
    author_name: Option<String>,
}

impl json_api::Resource for Post {
    type Context = ();

    fn kind(&self) -> Key {
        key("posts")
    }

    fn id(&self) -> String {
        self.id.to_string()
    }

    fn to_raw(&self, _ctx: &Self::Context) -> RawResource {
        RawResource {
            kind: self.kind(),
            id: self.id(),
            attributes: vec![(
                String::from("title"),
                Value::String(self.title.clone()),
            )],
            relationships: vec![(
                String::from("author"),
                RawRelationship {
                    data: Some(RawData::One(self.author_name.as_ref().map(|name| {
                        user_raw("9", name)
                    }))),
                    links: no_rel_links(),
                    meta: Vec::new(),
                },
            )],
            links: no_rel_links(),
            meta: Vec::new(),
        }
    }
}

#[test]
fn resource_resolves_through_to_doc() {
    let post = Post {
        id: 25,
        title: String::from("T"),
        author_name: Some(String::from("A")),
    };
    let doc = json_api::to_doc_object(&post, Some(&author_query()), &()).unwrap();
    assert!(doc.is_ok());
    let (data, included) = content_parts(doc);
    let obj = match data {
        Data::Member(Some(obj)) => obj,
        _ => panic!("expected a single object"),
    };
    assert_eq!(obj.kind.as_str(), "posts");
    assert_eq!(obj.id, "25");
    assert_eq!(included.len(), 1);
    let author = included.find(&key("users"), "9").unwrap();
    assert_eq!(
        author.attributes.get(&key("name")),
        Some(&Value::String(String::from("A")))
    );
}

#[test]
fn resource_resolves_to_identifier_document() {
    let post = Post {
        id: 7,
        title: String::from("T"),
        author_name: None,
    };
    let doc: Document<Identifier> =
        json_api::to_doc(&post, None, &()).unwrap();
    match doc {
        Document::Content { data, .. } => match data {
            Data::Member(Some(ident)) => {
                assert_eq!(ident.kind.as_str(), "posts");
                assert_eq!(ident.id, "7");
            }
            _ => panic!("expected an identifier"),
        },
        Document::Errors(_) => panic!("expected content"),
    }
}

#[test]
fn cursor_pulls_fields_in_produced_order() {
    let mut obj = Object::new(key("articles"), String::from("1"));
    obj.attributes
        .insert(key("title"), Value::String(String::from("T")));
    obj.relationships
        .insert(key("missing"), Relationship::new(None));
    obj.relationships.insert(
        key("author"),
        Relationship::new(Some(Data::Member(Some(Identifier::new(
            key("users"),
            String::from("9"),
        ))))),
    );
    let included = ObjectSet::new();
    let graph = DocGraph::object(obj, &included);
    assert_eq!(graph.len(), 4);
    let mut cursor = MapDocGraph::from(graph);
    assert_eq!(cursor.len(), 4);

    assert_eq!(cursor.next_key().unwrap().as_str(), "type");
    match cursor.next_value().unwrap() {
        Pulled::Kind(k) => assert_eq!(k.as_str(), "articles"),
        _ => panic!("expected the type"),
    }
    assert_eq!(cursor.next_key().unwrap().as_str(), "id");
    match cursor.next_value().unwrap() {
        Pulled::Id(id) => assert_eq!(id, "1"),
        _ => panic!("expected the id"),
    }
    assert_eq!(cursor.next_key().unwrap().as_str(), "title");
    match cursor.next_value().unwrap() {
        Pulled::Attr(v) => assert_eq!(v, Value::String(String::from("T"))),
        _ => panic!("expected the attribute"),
    }
    assert_eq!(cursor.next_key().unwrap().as_str(), "author");
    match cursor.next_value().unwrap() {
        Pulled::RelOne(Some(ident)) => assert_eq!(ident.id, "9"),
        _ => panic!("expected the relationship target"),
    }
    assert!(cursor.next_key().is_none());
    assert_eq!(cursor.len(), 0);
    assert_eq!(cursor.size_hint(), None);
}

#[test]
fn cursor_value_before_key_is_an_error() {
    let mut obj = Object::new(key("articles"), String::from("1"));
    obj.attributes
        .insert(key("title"), Value::String(String::from("T")));
    let included = ObjectSet::new();
    let mut cursor = MapDocGraph::from(DocGraph::object(obj, &included));
    let _ = cursor.next_key();
    assert!(matches!(cursor.next_value(), Ok(Pulled::Kind(_))));
    let _ = cursor.next_key();
    assert!(matches!(cursor.next_value(), Ok(Pulled::Id(_))));
    assert!(matches!(
        cursor.next_value(),
        Err(DecodeError::MissingValue)
    ));
    assert!(matches!(cursor.next_key(), Some(_)));
    assert!(matches!(cursor.next_value(), Ok(Pulled::Attr(_))));
    assert!(cursor.next_key().is_none());
    assert!(matches!(cursor.next_value(), Err(DecodeError::Exhausted)));
}

#[test]
fn link_parse_validates() {
    let link = json_api::Link::parse("https://example.com/a?b=c").unwrap();
    assert_eq!(link.href, "https://example.com/a?b=c");
    assert!(json_api::Link::parse("not a uri at all ").is_err());
}

#[test]
fn fields_allow_all_without_a_set() {
    let fields = json_api::Fields(None);
    assert!(fields.field("anything"));
    let mut names = NameSet::new();
    names.insert(String::from("title"));
    let fields = json_api::Fields(Some(&names));
    assert!(fields.field("title"));
    assert!(!fields.field("body"));
}

#[test]
fn key_parses_through_from_str() {
    let k: Key = "someFieldName".parse().unwrap();
    assert_eq!(k.as_str(), "some-field-name");
    let bad: Result<Key, _> = "".parse();
    assert!(bad.is_err());
}

#[test]
fn lowercase_of_upper_ascii() {
    assert_eq!(json_api::key::as_lowercase('A'), 'a');
    assert_eq!(json_api::key::as_lowercase('Z'), 'z');
}

#[test]
fn nested_paths_expand_transitively() {
    let team = RawResource {
        kind: key("teams"),
        id: String::from("3"),
        attributes: vec![(String::from("name"), Value::String(String::from("docs")))],
        relationships: Vec::new(),
        links: no_rel_links(),
        meta: Vec::new(),
    };
    let mut author = user_raw("9", "A");
    author.relationships.push((
        String::from("team"),
        RawRelationship {
            data: Some(RawData::One(Some(team))),
            links: no_rel_links(),
            meta: Vec::new(),
        },
    ));
    let mut article = article_raw();
    article.relationships[0].1.data = Some(RawData::One(Some(author)));

    let mut q = Query::new();
    let author_path = Path::new().join(&key("author"));
    q.included.insert(author_path.join(&key("team")));
    q.included.insert(author_path);

    let doc = resolve_raw_object(&article, Some(&q)).unwrap();
    let (_, included) = content_parts(doc);
    assert_eq!(included.len(), 2);
    let found_author = included.find(&key("users"), "9").unwrap();
    match &found_author.relationships.get(&key("team")).unwrap().data {
        Some(Data::Member(Some(ident))) => assert_eq!(ident.kind.as_str(), "teams"),
        _ => panic!("expected the team identifier"),
    }
    assert!(included.find(&key("teams"), "3").is_some());
    assert!(included.find(&key("comments"), "5").is_none());

    let schema = rec(
        vec![(
            "author",
            rec(
                vec![(
                    "team",
                    rec(vec![("name", Schema::Any)], Extras::Ignore),
                )],
                Extras::Ignore,
            ),
        )],
        Extras::Ignore,
    );
    let value = from_doc(resolve_raw_object(&article, Some(&q)).unwrap(), &schema).unwrap();
    let team_name = value
        .as_object()
        .unwrap()
        .get(&key("author"))
        .unwrap()
        .as_object()
        .unwrap()
        .get(&key("team"))
        .unwrap()
        .as_object()
        .unwrap()
        .get(&key("name"))
        .unwrap();
    assert_eq!(team_name, &Value::String(String::from("docs")));
}

#[test]
fn unexpanded_nested_path_stays_shallow() {
    let mut q = Query::new();
    q.included
        .insert(Path::new().join(&key("author")).join(&key("team")));
    let doc = resolve_raw_object(&article_raw(), Some(&q)).unwrap();
    let (_, included) = content_parts(doc);
    assert_eq!(included.len(), 0);
}

#[test]
fn exact_consumption_counts_distinct_names() {
    let schema = rec(
        vec![
            ("type", Schema::Str),
            ("type", Schema::Str),
            ("id", Schema::Str),
            ("title", Schema::Any),
        ],
        Extras::Reject,
    );
    let err = from_doc(article_document(), &schema).unwrap_err();
    assert!(matches!(
        err,
        ParseDocumentError::Decode(DecodeError::Unconsumed)
    ));
}
