//! The query that steers rendering: per-type sparse fieldsets and the set of
//! relationship paths to expand.

use vstd::prelude::*;

use crate::collections::{kseq_get, kseq_has_key, KeyMap, NameSet, PathSet};
use crate::key::Key;

verus! {

/// A parsed request query, consumed read-only by the rendering engine:
/// `fields` holds one allow-list of member names per resource type, and
/// `included` the set of relationship paths to expand.
#[derive(Debug)]
pub struct Query {
    /// Per-type sparse fieldsets. A type with no entry renders every field.
    pub fields: KeyMap<NameSet>,
    /// The relationship paths whose targets are rendered into the document's
    /// included set.
    pub included: PathSet,
}

/// Whether a query lets a member named `name` of a resource of type `kind`
/// be rendered: yes unless the query declares a fieldset for `kind` that
/// leaves `name` out.
pub open spec fn spec_allows(
    fields: Seq<(Seq<char>, Seq<Seq<char>>)>,
    kind: Seq<char>,
    name: Seq<char>,
) -> bool {
    if kseq_has_key(fields, kind) {
        kseq_get(fields, kind).contains(name)
    } else {
        true
    }
}

impl Query {
    /// Whether the query's fieldset map holds each type at most once.
    pub open spec fn wf(&self) -> bool {
        kseq_wf_query(self.fields@)
    }

    /// A query with no fieldsets and no expanded paths: everything is
    /// rendered as identifiers, nothing is expanded.
    pub fn new() -> (r: Query)
        ensures
            r.fields@ == Seq::<(Seq<char>, Seq<Seq<char>>)>::empty(),
            r.included@ == Seq::<Seq<Seq<char>>>::empty(),
            r.wf(),
    {
        Query { fields: KeyMap::new(), included: PathSet::new() }
    }

    /// The fieldset declared for `kind`, if any.
    pub fn fields_for(&self, kind: &Key) -> (r: Option<&NameSet>)
        requires
            self.wf(),
        ensures
            r is Some <==> kseq_has_key(self.fields@, kind@),
            r is Some ==> r->0@ == kseq_get(self.fields@, kind@),
    {
        self.fields.get(kind)
    }

    /// Whether a member named `name` of a resource of type `kind` may be
    /// rendered under this query.
    pub fn allows(&self, kind: &Key, name: &str) -> (r: bool)
        requires
            self.wf(),
        ensures
            r == spec_allows(self.fields@, kind@, name@),
    {
        match self.fields.get(kind) {
            Some(set) => set.contains(name),
            None => true,
        }
    }
}

/// Whether the fieldset map holds each type at most once.
pub open spec fn kseq_wf_query(fields: Seq<(Seq<char>, Seq<Seq<char>>)>) -> bool {
    crate::collections::kseq_wf(fields)
}

/// A borrowed fieldset: the allow-list for one resource type, or nothing
/// when the query declares none.
pub struct Fields<'v>(pub Option<&'v NameSet>);

impl<'v> Fields<'v> {
    /// Whether a member named `name` may be rendered: yes when no fieldset
    /// was declared, and otherwise exactly when the fieldset holds `name`.
    pub fn field(&self, name: &str) -> (r: bool)
        ensures
            r == match self.0 {
                Some(set) => set@.contains(name@),
                None => true,
            },
    {
        match self.0 {
            Some(set) => set.contains(name),
            None => true,
        }
    }
}

} // verus!
