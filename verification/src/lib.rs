//! A verified data model and graph-resolution engine for the JSON API
//! document interchange format: resources are identified by a `(type, id)`
//! pair and serialized in a flattened form where shared resources appear once
//! in a side table and are referenced elsewhere by identifier only.

pub mod collections;
pub mod cursor;
pub mod doc;
pub mod executor;
pub mod key;
pub mod laws;
pub mod path;
pub mod query;
pub mod resource;
pub mod schema;
pub mod value;

use vstd::prelude::*;

pub use collections::{KeyMap, NameSet, PathSet};
pub use cursor::{DocData, DocGraph, MapDocGraph, Node, PrimaryData, Pulled};
pub use doc::{
    Data, Document, DocumentError, ErrorObject, Identifier, JsonApi, Link, Object, ObjectSet,
    Relationship, Version,
};
pub use executor::{Context, Executor, FromContext};
pub use key::{Key, ParseKeyError};
pub use path::Path;
pub use query::{Fields, Query};
pub use resource::{
    object_wrap, render_ident, render_object, resolve_raw_ident, resolve_raw_object,
    resolve_raw_objects, to_doc, to_doc_object, InternalResolve, ObjectWrap, RawData,
    RawRelationship, RawResource, Resolver, ResolveError, Resource, StaticKind, StaticResource,
};
pub use schema::{from_doc, DecodeError, Extras, ParseDocumentError, Schema};
pub use value::{Value, ValueView};

verus! {

/// Private marker trait used to prevent marker traits from being implemented
/// downstream.
pub trait Sealed {}

} // verus!
