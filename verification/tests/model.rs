//! Tests of the data model: member names, paths, values, the ordered
//! collections, and the identity-deduplicating included set.

use json_api::collections::KeyMap;
use json_api::doc::{Identifier, Object, ObjectSet};
use json_api::executor::Executor;
use json_api::key::Key;
use json_api::path::Path;
use json_api::query::Query;
use json_api::value::Value;
use json_api::NameSet;

fn key(s: &str) -> Key {
    Key::parse(s).unwrap()
}

#[test]
fn key_normalizes_camel_case() {
    let k = Key::parse("someFieldName").unwrap();
    assert_eq!(k.as_str(), "some-field-name");
}

#[test]
fn key_normalizes_underscores() {
    let k = Key::parse("some_field_name").unwrap();
    assert_eq!(k.as_str(), "some-field-name");
}

#[test]
fn key_normalizes_spaces() {
    let k = Key::parse("some field name").unwrap();
    assert_eq!(k.as_str(), "some-field-name");
}

#[test]
fn key_keeps_kebab_case() {
    let k = Key::parse("some-field-name").unwrap();
    assert_eq!(k.as_str(), "some-field-name");
}

#[test]
fn key_rejects_blank() {
    assert!(Key::parse("").is_err());
}

#[test]
fn key_rejects_leading_separator() {
    assert!(Key::parse("-abc").is_err());
    assert!(Key::parse("_abc").is_err());
    assert!(Key::parse(" abc").is_err());
}

#[test]
fn key_rejects_trailing_separator() {
    assert!(Key::parse("abc-").is_err());
    assert!(Key::parse("abc_").is_err());
}

#[test]
fn key_rejects_reserved_characters() {
    assert!(Key::parse("a.b").is_err());
    assert!(Key::parse("a/b").is_err());
    assert!(Key::parse("a@b").is_err());
    assert!(Key::parse("a`b").is_err());
    assert!(Key::parse("a,b").is_err());
    assert!(Key::parse("a?b").is_err());
    assert!(Key::parse("a[b").is_err());
    assert!(Key::parse("a{b").is_err());
}

#[test]
fn key_error_carries_source() {
    let err = Key::parse("a.b").unwrap_err();
    assert_eq!(err.source().as_str(), "a.b");
}

#[test]
fn key_collapses_separator_runs() {
    let k = Key::parse("some__field").unwrap();
    assert_eq!(k.as_str(), "some-field");
    let k = Key::parse("some_-_field").unwrap();
    assert_eq!(k.as_str(), "some-field");
}

#[test]
fn key_from_raw_is_unchecked() {
    let k = Key::from_raw(String::from("type"));
    assert_eq!(k.as_str(), "type");
}

#[test]
fn path_join_and_equality() {
    let p = Path::new().join(&key("author"));
    let q = Path::new().join(&key("author"));
    let r = Path::new().join(&key("comments"));
    assert_eq!(p.len(), 1);
    assert!(p.matches(&q));
    assert!(!p.matches(&r));
    let deeper = p.join(&key("comments"));
    assert_eq!(deeper.len(), 2);
    assert!(!deeper.matches(&p));
}

#[test]
fn key_map_keeps_insertion_order_and_replaces() {
    let mut m: KeyMap<Value> = KeyMap::new();
    m.insert(key("alpha"), Value::String(String::from("1")));
    m.insert(key("beta"), Value::String(String::from("2")));
    m.insert(key("alpha"), Value::String(String::from("3")));
    assert_eq!(m.len(), 2);
    assert_eq!(m.key_at(0).as_str(), "alpha");
    assert_eq!(m.key_at(1).as_str(), "beta");
    assert_eq!(
        m.get(&key("alpha")),
        Some(&Value::String(String::from("3")))
    );
    assert!(m.contains_key(&key("beta")));
    assert!(!m.contains_key(&key("gamma")));
}

#[test]
fn name_set_deduplicates() {
    let mut s = NameSet::new();
    assert!(s.insert(String::from("title")));
    assert!(!s.insert(String::from("title")));
    assert_eq!(s.len(), 1);
    assert!(s.contains("title"));
    assert!(!s.contains("body"));
}

#[test]
fn identity_dedup_in_object_set() {
    let mut set = ObjectSet::new();
    let mut first = Object::new(key("users"), String::from("1"));
    first
        .attributes
        .insert(key("name"), Value::String(String::from("A")));
    let mut second = Object::new(key("users"), String::from("1"));
    second
        .attributes
        .insert(key("name"), Value::String(String::from("B")));
    assert!(set.insert(first));
    assert!(!set.insert(second));
    assert_eq!(set.len(), 1);
    let found = set.find(&key("users"), "1").unwrap();
    assert_eq!(
        found.attributes.get(&key("name")),
        Some(&Value::String(String::from("A")))
    );
}

#[test]
fn object_set_distinguishes_kind_and_id() {
    let mut set = ObjectSet::new();
    assert!(set.insert(Object::new(key("users"), String::from("1"))));
    assert!(set.insert(Object::new(key("users"), String::from("2"))));
    assert!(set.insert(Object::new(key("articles"), String::from("1"))));
    assert_eq!(set.len(), 3);
    assert!(set.find(&key("articles"), "2").is_none());
}

#[test]
fn identifier_equality_ignores_meta() {
    let a = Identifier::new(key("users"), String::from("9"));
    let mut b = Identifier::new(key("users"), String::from("9"));
    b.meta
        .insert(key("note"), Value::String(String::from("x")));
    assert!(a == b);
    let c = Identifier::new(key("users"), String::from("8"));
    assert!(a != c);
}

#[test]
fn value_getters() {
    let v = Value::Bool(true);
    assert_eq!(v.as_bool(), Some(true));
    assert!(v.is_boolean());
    assert!(!v.is_null());
    let s = Value::String(String::from("hi"));
    assert_eq!(s.as_str(), Some("hi"));
    assert!(s.is_string());
    let n = Value::Null;
    assert_eq!(n.as_null(), Some(()));
    assert!(n.is_null());
    let arr = Value::Array(vec![Value::Bool(false)]);
    assert!(arr.is_array());
    assert_eq!(arr.as_array().unwrap().len(), 1);
    assert!(arr.as_object().is_none());
    let mut m: KeyMap<Value> = KeyMap::new();
    m.insert(key("a"), Value::Null);
    let obj = Value::Object(m);
    assert!(obj.is_object());
    assert!(obj.as_object().unwrap().contains_key(&key("a")));
    assert!(Value::default().is_null());
}

#[test]
fn value_clone_is_deep() {
    let mut m: KeyMap<Value> = KeyMap::new();
    m.insert(
        key("inner"),
        Value::Array(vec![Value::String(String::from("x")), Value::Null]),
    );
    let v = Value::Object(m);
    let c = v.clone();
    assert_eq!(v, c);
}

#[test]
fn query_field_filtering() {
    let mut q = Query::new();
    let mut names = NameSet::new();
    names.insert(String::from("title"));
    q.fields.insert(key("articles"), names);
    assert!(q.allows(&key("articles"), "title"));
    assert!(!q.allows(&key("articles"), "body"));
    assert!(q.allows(&key("users"), "anything"));
}

#[test]
fn executor_paths_and_inclusion() {
    let mut q = Query::new();
    q.included.insert(Path::new().join(&key("author")));
    let exec: Executor<()> = Executor::new((), Some(&q));
    assert!(exec.key_included(&key("author")));
    assert!(!exec.key_included(&key("comments")));
    assert!(!exec.included());
    let child: Executor<()> = exec.fork(&key("author"));
    assert!(child.included());
    assert!(!child.key_included(&key("author")));
}

#[test]
fn executor_insert_included_deduplicates() {
    let mut exec: Executor<()> = Executor::new((), None);
    assert!(exec.insert_included(Object::new(key("users"), String::from("1"))));
    assert!(!exec.insert_included(Object::new(key("users"), String::from("1"))));
    let set = exec.into_included();
    assert_eq!(set.len(), 1);
}

#[test]
fn executor_context_conversion() {
    let exec: Executor<u64> = Executor::new(7, None);
    assert_eq!(*exec.context(), 7);
    let child: Executor<()> = exec.fork(&key("author"));
    assert_eq!(*child.context(), ());
}
