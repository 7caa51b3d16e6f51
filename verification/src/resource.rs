//! The deflate engine: turning a described resource graph into a flattened
//! document.
//!
//! A resource is described as plain data — [`RawResource`] — naming its
//! type, id, attributes, relationships, links and meta members with their
//! raw, not yet normalized names. The engine walks the description depth
//! first, normalizes and filters member names against the query's sparse
//! fieldsets, expands the relationship paths the query asks for into the
//! shared included set, and emits identifiers for everything else.

use vstd::prelude::*;

use crate::collections::{kseq_insert, KeyMap};
use crate::doc::{
    oseq_has, uri_accepts, Data, DataView, Document, Identifier, IdentifierView, Link, LinkView,
    Object, ObjectSet, ObjectView, Relationship, RelationshipView,
};
use crate::executor::{spec_field_allowed, spec_path_included, Executor};
use crate::key::{key_norm, Key, ParseKeyError};
use crate::query::Query;
use crate::value::{Value, ValueView};

verus! {

/// An error raised while a resource graph is rendered. The whole render
/// aborts: no partial document is ever returned.
#[derive(Debug)]
pub enum ResolveError {
    /// A member name could not be parsed as a key.
    ParseKey(ParseKeyError),
    /// A link string is not a valid URI.
    Link(http::uri::InvalidUri),
    /// An error propagated from the application's own resolution logic.
    Custom(String),
}

/// The model of a render error: the member name that failed to parse, or
/// the link string that is not a URI.
#[verifier::ext_equal]
pub enum RenderErrView {
    BadKey(Seq<char>),
    BadLink(Seq<char>),
}

/// Whether a render error agrees with its model.
pub open spec fn rerr_matches(e: ResolveError, m: RenderErrView) -> bool {
    match m {
        RenderErrView::BadKey(n) => e is ParseKey && e->ParseKey_0.0@ == n,
        RenderErrView::BadLink(_) => e is Link,
    }
}

/// Describes one resource: what the application hands the deflate engine.
/// Member names are raw — they are normalized during the walk — and
/// attribute and meta values are already converted to [`Value`].
#[derive(Debug)]
pub struct RawResource {
    /// The resource's type.
    pub kind: Key,
    /// The resource's identifier.
    pub id: String,
    /// The attributes, under their raw names.
    pub attributes: Vec<(String, Value)>,
    /// The relationships, under their raw names.
    pub relationships: Vec<(String, RawRelationship)>,
    /// The links, as raw name and URI string.
    pub links: Vec<(String, String)>,
    /// Meta members, under their raw names.
    pub meta: Vec<(String, Value)>,
}

/// Describes one relationship of a [`RawResource`].
#[derive(Debug)]
pub struct RawRelationship {
    /// The related resources, or `None` when the relationship is declared
    /// but carries no linkage.
    pub data: Option<RawData>,
    /// The relationship's links.
    pub links: Vec<(String, String)>,
    /// The relationship's meta members.
    pub meta: Vec<(String, Value)>,
}

/// The cardinality of a relationship's linkage.
#[derive(Debug)]
pub enum RawData {
    /// A to-one relationship, possibly empty.
    One(Option<RawResource>),
    /// A to-many relationship.
    Many(Vec<RawResource>),
}

// ---------------------------------------------------------------------------
// The model of rendering
// ---------------------------------------------------------------------------

/// The map that rendering a list of raw name-value members from position
/// `i` on appends to `acc`: each name normalized, later duplicates
/// replacing earlier entries in place.
pub open spec fn spec_render_pairs(
    entries: Seq<(String, Value)>,
    i: int,
    acc: Seq<(Seq<char>, ValueView)>,
) -> Result<Seq<(Seq<char>, ValueView)>, RenderErrView>
    decreases entries.len() - i,
{
    if i < 0 || i >= entries.len() {
        Ok(acc)
    } else {
        match key_norm(entries[i].0@) {
            None => Err(RenderErrView::BadKey(entries[i].0@)),
            Some(k) => spec_render_pairs(entries, i + 1, kseq_insert(acc, k, entries[i].1@)),
        }
    }
}

/// Like [`spec_render_pairs`], but members that the query's fieldset for
/// `kind` leaves out are skipped before their names are even parsed.
pub open spec fn spec_render_attrs(
    kind: Seq<char>,
    q: Option<&Query>,
    entries: Seq<(String, Value)>,
    i: int,
    acc: Seq<(Seq<char>, ValueView)>,
) -> Result<Seq<(Seq<char>, ValueView)>, RenderErrView>
    decreases entries.len() - i,
{
    if i < 0 || i >= entries.len() {
        Ok(acc)
    } else if !spec_field_allowed(q, kind, entries[i].0@) {
        spec_render_attrs(kind, q, entries, i + 1, acc)
    } else {
        match key_norm(entries[i].0@) {
            None => Err(RenderErrView::BadKey(entries[i].0@)),
            Some(k) => spec_render_attrs(kind, q, entries, i + 1, kseq_insert(acc, k, entries[i].1@)),
        }
    }
}

/// The link map that rendering raw links from position `i` on appends to
/// `acc`: names normalized, and every link string a valid URI.
pub open spec fn spec_render_links(
    entries: Seq<(String, String)>,
    i: int,
    acc: Seq<(Seq<char>, LinkView)>,
) -> Result<Seq<(Seq<char>, LinkView)>, RenderErrView>
    decreases entries.len() - i,
{
    if i < 0 || i >= entries.len() {
        Ok(acc)
    } else {
        match key_norm(entries[i].0@) {
            None => Err(RenderErrView::BadKey(entries[i].0@)),
            Some(k) => if !uri_accepts(entries[i].1@) {
                Err(RenderErrView::BadLink(entries[i].1@))
            } else {
                spec_render_links(
                    entries,
                    i + 1,
                    kseq_insert(
                        acc,
                        k,
                        LinkView {
                            href: entries[i].1@,
                            meta: Seq::<(Seq<char>, ValueView)>::empty(),
                        },
                    ),
                )
            },
        }
    }
}

/// The identifier a resource renders to: its type, id and meta members.
pub open spec fn spec_render_ident(raw: RawResource) -> Result<IdentifierView, RenderErrView> {
    match spec_render_pairs(raw.meta@, 0, Seq::empty()) {
        Err(e) => Err(e),
        Ok(meta) => Ok(IdentifierView { id: raw.id@, kind: raw.kind@, meta }),
    }
}

/// The identifier of a rendered object.
pub open spec fn ident_of_object(o: ObjectView) -> IdentifierView {
    IdentifierView { id: o.id, kind: o.kind, meta: o.meta }
}

/// The included set after an object is added, unless its identity is
/// already present: the first object with a given identity wins.
pub open spec fn oseq_insert(s: Seq<ObjectView>, o: ObjectView) -> Seq<ObjectView> {
    if oseq_has(s, o.identity()) {
        s
    } else {
        s.push(o)
    }
}

/// The object and grown included set that rendering a resource under a
/// query yields: attributes, links and meta rendered and filtered, and
/// each relationship rendered by [`spec_render_rels`].
pub open spec fn spec_render_object(
    raw: RawResource,
    q: Option<&Query>,
    path: Seq<Seq<char>>,
    incl: Seq<ObjectView>,
) -> Result<(ObjectView, Seq<ObjectView>), RenderErrView>
    decreases raw, 0int, 0int,
{
    match spec_render_attrs(raw.kind@, q, raw.attributes@, 0, Seq::empty()) {
        Err(e) => Err(e),
        Ok(attrs) => match spec_render_links(raw.links@, 0, Seq::empty()) {
            Err(e) => Err(e),
            Ok(links) => match spec_render_pairs(raw.meta@, 0, Seq::empty()) {
                Err(e) => Err(e),
                Ok(meta) => match spec_render_rels(
                    raw.kind@,
                    raw.relationships@,
                    0,
                    Seq::empty(),
                    q,
                    path,
                    incl,
                ) {
                    Err(e) => Err(e),
                    Ok(pair) => Ok(
                        (
                            ObjectView {
                                kind: raw.kind@,
                                id: raw.id@,
                                attributes: attrs,
                                relationships: pair.0,
                                links,
                                meta,
                            },
                            pair.1,
                        ),
                    ),
                },
            },
        },
    }
}

/// The relationship map and grown included set that rendering a resource's
/// relationships from position `i` on yields. A relationship whose name
/// the fieldset leaves out is skipped; the rest render by
/// [`spec_render_linkage`] at the path grown by their key.
pub open spec fn spec_render_rels(
    kind: Seq<char>,
    rels: Seq<(String, RawRelationship)>,
    i: int,
    acc: Seq<(Seq<char>, RelationshipView)>,
    q: Option<&Query>,
    path: Seq<Seq<char>>,
    incl: Seq<ObjectView>,
) -> Result<(Seq<(Seq<char>, RelationshipView)>, Seq<ObjectView>), RenderErrView>
    decreases rels, 1int, rels.len() - i,
{
    if i < 0 || i >= rels.len() {
        Ok((acc, incl))
    } else if !spec_field_allowed(q, kind, rels[i].0@) {
        spec_render_rels(kind, rels, i + 1, acc, q, path, incl)
    } else {
        match key_norm(rels[i].0@) {
            None => Err(RenderErrView::BadKey(rels[i].0@)),
            Some(k) => match spec_render_linkage(rels[i].1, q, path.push(k), incl) {
                Err(e) => Err(e),
                Ok(pair) => spec_render_rels(
                    kind,
                    rels,
                    i + 1,
                    kseq_insert(acc, k, pair.0),
                    q,
                    path,
                    pair.1,
                ),
            },
        }
    }
}

/// The relationship and grown included set that one relationship renders
/// to at the child path `path`.
///
/// Absent linkage stays absent; an empty to-one relationship is an
/// explicit null. A present to-one target always renders its identifier;
/// when the query asks for `path` it is fully rendered and added to the
/// included set as well. A to-many relationship renders the identifiers of
/// all its targets, and fully renders each of them when the query asks for
/// `path`.
pub open spec fn spec_render_linkage(
    rel: RawRelationship,
    q: Option<&Query>,
    path: Seq<Seq<char>>,
    incl: Seq<ObjectView>,
) -> Result<(RelationshipView, Seq<ObjectView>), RenderErrView>
    decreases rel, 0int, 0int,
{
    let with_data: Result<
        (Option<DataView<IdentifierView>>, Seq<ObjectView>),
        RenderErrView,
    > = match rel.data {
        None => Ok((None, incl)),
        Some(RawData::One(None)) => Ok((Some(DataView::Member(None)), incl)),
        Some(RawData::One(Some(child))) => match spec_render_ident(child) {
            Err(e) => Err(e),
            Ok(ident) => if spec_path_included(q, path) {
                match spec_render_object(child, q, path, incl) {
                    Err(e) => Err(e),
                    Ok(pair) => Ok(
                        (Some(DataView::Member(Some(ident))), oseq_insert(pair.1, pair.0)),
                    ),
                }
            } else {
                Ok((Some(DataView::Member(Some(ident))), incl))
            },
        },
        Some(RawData::Many(_)) => {
            let children = rel.data->0->Many_0;
            if spec_path_included(q, path) {
                match spec_render_many(children@, 0, q, path, incl) {
                    Err(e) => Err(e),
                    Ok(pair) => Ok((Some(DataView::Collection(pair.0)), pair.1)),
                }
            } else {
                match spec_render_idents(children@, 0) {
                    Err(e) => Err(e),
                    Ok(ids) => Ok((Some(DataView::Collection(ids)), incl)),
                }
            }
        },
    };
    match with_data {
        Err(e) => Err(e),
        Ok((data, incl2)) => match spec_render_links(rel.links@, 0, Seq::empty()) {
            Err(e) => Err(e),
            Ok(links) => match spec_render_pairs(rel.meta@, 0, Seq::empty()) {
                Err(e) => Err(e),
                Ok(meta) => Ok((RelationshipView { data, links, meta }, incl2)),
            },
        },
    }
}

/// The identifiers and grown included set that fully rendering a to-many
/// relationship's targets from position `j` on yields: each target is
/// rendered, added to the included set, and referenced by its identifier.
pub open spec fn spec_render_many(
    children: Seq<RawResource>,
    j: int,
    q: Option<&Query>,
    path: Seq<Seq<char>>,
    incl: Seq<ObjectView>,
) -> Result<(Seq<IdentifierView>, Seq<ObjectView>), RenderErrView>
    decreases children, 1int, children.len() - j,
{
    if j < 0 || j >= children.len() {
        Ok((Seq::empty(), incl))
    } else {
        match spec_render_object(children[j], q, path, incl) {
            Err(e) => Err(e),
            Ok(pair) => match spec_render_many(children, j + 1, q, path, oseq_insert(pair.1, pair.0)) {
                Err(e) => Err(e),
                Ok(rest) => Ok((seq![ident_of_object(pair.0)] + rest.0, rest.1)),
            },
        }
    }
}

/// The identifiers of a to-many relationship's targets from position `j`
/// on, when the path is not expanded: identifiers only, nothing rendered
/// into the included set.
pub open spec fn spec_render_idents(children: Seq<RawResource>, j: int) -> Result<
    Seq<IdentifierView>,
    RenderErrView,
>
    decreases children, 1int, children.len() - j,
{
    if j < 0 || j >= children.len() {
        Ok(Seq::empty())
    } else {
        match spec_render_ident(children[j]) {
            Err(e) => Err(e),
            Ok(ident) => match spec_render_idents(children, j + 1) {
                Err(e) => Err(e),
                Ok(rest) => Ok(seq![ident] + rest),
            },
        }
    }
}

} // verus!

verus! {

// ---------------------------------------------------------------------------
// The renderer
// ---------------------------------------------------------------------------

/// Renders raw name-value members into a map, normalizing each name.
fn render_pairs_from(entries: &Vec<(String, Value)>, i: usize, out: &mut KeyMap<Value>) -> (r:
    Result<(), ResolveError>)
    requires
        old(out).wf(),
        i <= entries@.len(),
    ensures
        final(out).wf(),
        match spec_render_pairs(entries@, i as int, old(out)@) {
            Ok(m) => r is Ok && final(out)@ == m,
            Err(e) => r is Err && rerr_matches(r->Err_0, e),
        },
    decreases entries@.len() - i,
{
    if i >= entries.len() {
        return Ok(());
    }
    match Key::parse(entries[i].0.as_str()) {
        Err(e) => Err(ResolveError::ParseKey(e)),
        Ok(k) => {
            out.insert(k, entries[i].1.clone());
            render_pairs_from(entries, i + 1, out)
        },
    }
}

/// Renders raw attributes into a map, dropping the members that the
/// query's fieldset for `kind` leaves out.
fn render_attrs_from(
    kind: &Key,
    q: Option<&Query>,
    entries: &Vec<(String, Value)>,
    i: usize,
    out: &mut KeyMap<Value>,
) -> (r: Result<(), ResolveError>)
    requires
        old(out).wf(),
        i <= entries@.len(),
        match q {
            Some(query) => query.wf(),
            None => true,
        },
    ensures
        final(out).wf(),
        match spec_render_attrs(kind@, q, entries@, i as int, old(out)@) {
            Ok(m) => r is Ok && final(out)@ == m,
            Err(e) => r is Err && rerr_matches(r->Err_0, e),
        },
    decreases entries@.len() - i,
{
    if i >= entries.len() {
        return Ok(());
    }
    let allowed = match q {
        Some(query) => query.allows(kind, entries[i].0.as_str()),
        None => true,
    };
    if !allowed {
        return render_attrs_from(kind, q, entries, i + 1, out);
    }
    match Key::parse(entries[i].0.as_str()) {
        Err(e) => Err(ResolveError::ParseKey(e)),
        Ok(k) => {
            out.insert(k, entries[i].1.clone());
            render_attrs_from(kind, q, entries, i + 1, out)
        },
    }
}

/// Renders raw links into a map, normalizing each name and validating each
/// link string as a URI.
fn render_links_from(entries: &Vec<(String, String)>, i: usize, out: &mut KeyMap<Link>) -> (r:
    Result<(), ResolveError>)
    requires
        old(out).wf(),
        i <= entries@.len(),
    ensures
        final(out).wf(),
        match spec_render_links(entries@, i as int, old(out)@) {
            Ok(m) => r is Ok && final(out)@ == m,
            Err(e) => r is Err && rerr_matches(r->Err_0, e),
        },
    decreases entries@.len() - i,
{
    if i >= entries.len() {
        return Ok(());
    }
    match Key::parse(entries[i].0.as_str()) {
        Err(e) => Err(ResolveError::ParseKey(e)),
        Ok(k) => match Link::parse(entries[i].1.as_str()) {
            Err(e) => Err(ResolveError::Link(e)),
            Ok(link) => {
                out.insert(k, link);
                render_links_from(entries, i + 1, out)
            },
        },
    }
}

/// Renders a resource as an identifier: its type, id and meta members.
pub fn render_ident(raw: &RawResource) -> (r: Result<Identifier, ResolveError>)
    ensures
        match spec_render_ident(*raw) {
            Ok(iv) => r is Ok && r->Ok_0@ == iv,
            Err(e) => r is Err && rerr_matches(r->Err_0, e),
        },
{
    let mut ident = Identifier::new(raw.kind.clone(), raw.id.clone());
    match render_pairs_from(&raw.meta, 0, &mut ident.meta) {
        Err(e) => Err(e),
        Ok(_) => {
            proof {
                assert(ident@ =~= spec_render_ident(*raw)->Ok_0);
            }
            Ok(ident)
        },
    }
}

/// Renders a resource as a full object at the executor's current path,
/// growing the executor's included set with every relationship target
/// whose path the query asks for.
pub fn render_object<'v, CtxT>(raw: &RawResource, exec: &mut Executor<'v, CtxT>) -> (r: Result<
    Object,
    ResolveError,
>)
    requires
        old(exec).wf(),
        old(exec).incl.wf(),
    ensures
        final(exec).wf(),
        final(exec).incl.wf(),
        final(exec).query == old(exec).query,
        final(exec).context == old(exec).context,
        match spec_render_object(*raw, old(exec).query, old(exec).path@, old(exec).incl@) {
            Ok(pair) => r is Ok && r->Ok_0@ == pair.0 && final(exec).incl@ == pair.1 && final(exec).path@ == old(exec).path@,
            Err(e) => r is Err && rerr_matches(r->Err_0, e),
        },
    decreases *raw, 0int, 0int,
{
    let q = exec.query;
    let mut obj = Object::new(raw.kind.clone(), raw.id.clone());
    match render_attrs_from(&raw.kind, q, &raw.attributes, 0, &mut obj.attributes) {
        Err(e) => {
            return Err(e);
        },
        Ok(_) => {},
    }
    match render_links_from(&raw.links, 0, &mut obj.links) {
        Err(e) => {
            return Err(e);
        },
        Ok(_) => {},
    }
    match render_pairs_from(&raw.meta, 0, &mut obj.meta) {
        Err(e) => {
            return Err(e);
        },
        Ok(_) => {},
    }
    proof {
        assert(decreases_to!(*raw => raw.relationships));
        assert(decreases_to!(raw.relationships => raw.relationships@));
    }
    match render_rels_from(&raw.kind, &raw.relationships, 0, &mut obj.relationships, exec) {
        Err(e) => {
            return Err(e);
        },
        Ok(_) => {},
    }
    proof {
        let m = spec_render_object(*raw, old(exec).query, old(exec).path@, old(exec).incl@);
        assert(obj@ =~= m->Ok_0.0);
    }
    Ok(obj)
}

/// Renders a resource's relationships from position `i` on into a map,
/// dropping the ones the fieldset leaves out and rendering the rest at the
/// path grown by their key.
fn render_rels_from<'v, CtxT>(
    kind: &Key,
    rels: &Vec<(String, RawRelationship)>,
    i: usize,
    out: &mut KeyMap<Relationship>,
    exec: &mut Executor<'v, CtxT>,
) -> (r: Result<(), ResolveError>)
    requires
        old(out).wf(),
        old(exec).wf(),
        old(exec).incl.wf(),
        i <= rels@.len(),
    ensures
        final(out).wf(),
        final(exec).wf(),
        final(exec).incl.wf(),
        final(exec).query == old(exec).query,
        final(exec).context == old(exec).context,
        match spec_render_rels(
            kind@,
            rels@,
            i as int,
            old(out)@,
            old(exec).query,
            old(exec).path@,
            old(exec).incl@,
        ) {
            Ok(pair) => r is Ok && final(out)@ == pair.0 && final(exec).incl@ == pair.1 && final(exec).path@ == old(exec).path@,
            Err(e) => r is Err && rerr_matches(r->Err_0, e),
        },
    decreases rels@, 1int, rels@.len() - i,
{
    let ghost acc0 = out@;
    let ghost q0 = exec.query;
    let ghost path0 = exec.path@;
    let ghost incl0 = exec.incl@;
    let ghost m = spec_render_rels(kind@, rels@, i as int, acc0, q0, path0, incl0);
    if i >= rels.len() {
        return Ok(());
    }
    if !exec.field(kind, rels[i].0.as_str()) {
        proof {
            assert(m == spec_render_rels(kind@, rels@, i + 1, acc0, q0, path0, incl0));
        }
        return render_rels_from(kind, rels, i + 1, out, exec);
    }
    match Key::parse(rels[i].0.as_str()) {
        Err(e) => {
            proof {
                assert(key_norm(rels@[i as int].0@) is None);
                assert(m == Err::<
                    (Seq<(Seq<char>, RelationshipView)>, Seq<ObjectView>),
                    RenderErrView,
                >(RenderErrView::BadKey(rels@[i as int].0@)));
            }
            Err(ResolveError::ParseKey(e))
        },
        Ok(k) => {
            let ghost kv = k@;
            proof {
                assert(key_norm(rels@[i as int].0@) == Some(kv));
            }
            exec.descend(&k);
            proof {
                assert(exec.path@ == path0.push(kv));
                assert(decreases_to!(rels@ => rels@[i as int]));
                assert(decreases_to!(rels@[i as int] => rels@[i as int].1));
            }
            let ghost ml = spec_render_linkage(rels@[i as int].1, q0, path0.push(kv), incl0);
            match render_linkage(&rels[i].1, exec) {
                Err(e) => {
                    proof {
                        assert(ml is Err);
                        assert(m == Err::<
                            (Seq<(Seq<char>, RelationshipView)>, Seq<ObjectView>),
                            RenderErrView,
                        >(ml->Err_0));
                    }
                    Err(e)
                },
                Ok(relationship) => {
                    let ghost relv = relationship@;
                    proof {
                        assert(ml is Ok && ml->Ok_0.0 == relv);
                        assert(exec.incl@ == ml->Ok_0.1);
                    }
                    exec.ascend();
                    proof {
                        assert(exec.path@ == path0);
                    }
                    out.insert(k, relationship);
                    proof {
                        assert(out@ == kseq_insert(acc0, kv, relv));
                        assert(m == spec_render_rels(
                            kind@,
                            rels@,
                            i + 1,
                            kseq_insert(acc0, kv, relv),
                            q0,
                            path0,
                            ml->Ok_0.1,
                        ));
                    }
                    render_rels_from(kind, rels, i + 1, out, exec)
                },
            }
        },
    }
}

/// Renders one relationship at the executor's current path.
fn render_linkage<'v, CtxT>(rel: &RawRelationship, exec: &mut Executor<'v, CtxT>) -> (r: Result<
    Relationship,
    ResolveError,
>)
    requires
        old(exec).wf(),
        old(exec).incl.wf(),
    ensures
        final(exec).wf(),
        final(exec).incl.wf(),
        final(exec).query == old(exec).query,
        final(exec).context == old(exec).context,
        match spec_render_linkage(*rel, old(exec).query, old(exec).path@, old(exec).incl@) {
            Ok(pair) => r is Ok && r->Ok_0@ == pair.0 && final(exec).incl@ == pair.1 && final(exec).path@ == old(exec).path@,
            Err(e) => r is Err && rerr_matches(r->Err_0, e),
        },
    decreases *rel, 0int, 0int,
{
    let data: Option<Data<Identifier>> = match &rel.data {
        None => None,
        Some(RawData::One(None)) => Some(Data::Member(None)),
        Some(RawData::One(Some(child))) => {
            let ident = match render_ident(child) {
                Ok(x) => x,
                Err(e) => {
                    return Err(e);
                },
            };
            if exec.included() {
                proof {
                    assert(decreases_to!(*rel => rel.data));
                    assert(decreases_to!(rel.data => rel.data->0));
                    assert(decreases_to!(rel.data->0 => rel.data->0->One_0));
                    assert(decreases_to!(rel.data->0->One_0 => rel.data->0->One_0->0));
                    assert(rel.data->0->One_0->0 == *child);
                }
                let child_obj = match render_object(child, exec) {
                    Ok(o) => o,
                    Err(e) => {
                        return Err(e);
                    },
                };
                let _ = exec.insert_included(child_obj);
            }
            Some(Data::Member(Some(ident)))
        },
        Some(RawData::Many(children)) => {
            proof {
                assert(decreases_to!(*rel => rel.data));
                assert(decreases_to!(rel.data => rel.data->0));
                assert(decreases_to!(rel.data->0 => rel.data->0->Many_0));
                assert(decreases_to!(rel.data->0->Many_0 => rel.data->0->Many_0@));
                assert(rel.data->0->Many_0@ == children@);
            }
            if exec.included() {
                let ids = match render_many_from(children, 0, exec) {
                    Ok(x) => x,
                    Err(e) => {
                        return Err(e);
                    },
                };
                Some(Data::Collection(ids))
            } else {
                let ids = match render_idents_from(children, 0) {
                    Ok(x) => x,
                    Err(e) => {
                        return Err(e);
                    },
                };
                Some(Data::Collection(ids))
            }
        },
    };
    let mut relationship = Relationship::new(data);
    match render_links_from(&rel.links, 0, &mut relationship.links) {
        Err(e) => {
            return Err(e);
        },
        Ok(_) => {},
    }
    match render_pairs_from(&rel.meta, 0, &mut relationship.meta) {
        Err(e) => {
            return Err(e);
        },
        Ok(_) => {},
    }
    proof {
        let m = spec_render_linkage(*rel, old(exec).query, old(exec).path@, old(exec).incl@);
        assert(relationship@ =~= m->Ok_0.0);
    }
    Ok(relationship)
}

/// Fully renders a to-many relationship's targets from position `j` on:
/// each is rendered at the current path, added to the included set, and
/// referenced by its identifier.
fn render_many_from<'v, CtxT>(
    children: &Vec<RawResource>,
    j: usize,
    exec: &mut Executor<'v, CtxT>,
) -> (r: Result<Vec<Identifier>, ResolveError>)
    requires
        old(exec).wf(),
        old(exec).incl.wf(),
        j <= children@.len(),
    ensures
        final(exec).wf(),
        final(exec).incl.wf(),
        final(exec).query == old(exec).query,
        final(exec).context == old(exec).context,
        match spec_render_many(children@, j as int, old(exec).query, old(exec).path@, old(exec).incl@) {
            Ok(pair) => r is Ok && r->Ok_0.deep_view() == pair.0 && final(exec).incl@ == pair.1
                && final(exec).path@ == old(exec).path@,
            Err(e) => r is Err && rerr_matches(r->Err_0, e),
        },
    decreases children@, 1int, children@.len() - j,
{
    if j >= children.len() {
        let r: Vec<Identifier> = Vec::new();
        proof {
            assert(r.deep_view() =~= Seq::<IdentifierView>::empty());
        }
        return Ok(r);
    }
    proof {
        assert(decreases_to!(children@ => children@[j as int]));
    }
    match render_object(&children[j], exec) {
        Err(e) => Err(e),
        Ok(obj) => {
            let ident = Identifier::new(obj.kind.clone(), obj.id.clone());
            let mut ident = ident;
            ident.meta = crate::doc::clone_value_map(&obj.meta);
            let ghost iv = ident@;
            let _ = exec.insert_included(obj);
            match render_many_from(children, j + 1, exec) {
                Err(e) => Err(e),
                Ok(rest) => {
                    let mut out: Vec<Identifier> = rest;
                    out.insert(0, ident);
                    proof {
                        let m = spec_render_many(
                            children@,
                            j as int,
                            old(exec).query,
                            old(exec).path@,
                            old(exec).incl@,
                        );
                        assert(iv =~= ident_of_object(
                            spec_render_object(
                                children@[j as int],
                                old(exec).query,
                                old(exec).path@,
                                old(exec).incl@,
                            )->Ok_0.0,
                        ));
                        assert(out.deep_view() =~= m->Ok_0.0);
                    }
                    Ok(out)
                },
            }
        },
    }
}

/// Renders a to-many relationship's targets as identifiers only, from
/// position `j` on.
fn render_idents_from(children: &Vec<RawResource>, j: usize) -> (r: Result<
    Vec<Identifier>,
    ResolveError,
>)
    requires
        j <= children@.len(),
    ensures
        match spec_render_idents(children@, j as int) {
            Ok(ids) => r is Ok && r->Ok_0.deep_view() == ids,
            Err(e) => r is Err && rerr_matches(r->Err_0, e),
        },
    decreases children@, 1int, children@.len() - j,
{
    if j >= children.len() {
        let r: Vec<Identifier> = Vec::new();
        proof {
            assert(r.deep_view() =~= Seq::<IdentifierView>::empty());
        }
        return Ok(r);
    }
    proof {
        assert(decreases_to!(children@ => children@[j as int]));
    }
    match render_ident(&children[j]) {
        Err(e) => Err(e),
        Ok(ident) => match render_idents_from(children, j + 1) {
            Err(e) => Err(e),
            Ok(rest) => {
                let mut out: Vec<Identifier> = rest;
                out.insert(0, ident);
                proof {
                    let m = spec_render_idents(children@, j as int);
                    assert(out.deep_view() =~= m->Ok_0);
                }
                Ok(out)
            },
        },
    }
}

} // verus!

verus! {

// ---------------------------------------------------------------------------
// Entry points
// ---------------------------------------------------------------------------

/// A trait indicating that the given type can be represented as a
/// resource: it names its type and id, and can describe itself as plain
/// data for the deflate engine.
pub trait Resource {
    /// The application context the description may read.
    type Context;

    /// Returns a key containing the type of resource.
    fn kind(&self) -> Key;

    /// Returns a given resource's id as a string.
    fn id(&self) -> String;

    /// Describes the resource — attributes, relationships, links and meta
    /// members, with related resources nested — for the deflate engine.
    fn to_raw(&self, ctx: &Self::Context) -> RawResource;
}

/// A type whose resource type is known without a value.
pub trait StaticKind {
    /// Returns a key containing the type of resource.
    fn static_kind() -> Key;
}

/// A resource whose type is known without a value.
pub trait StaticResource: Resource + StaticKind {

}

impl<'t, T: Resource> Resource for &'t T {
    type Context = T::Context;

    fn kind(&self) -> Key {
        (*self).kind()
    }

    fn id(&self) -> String {
        (*self).id()
    }

    fn to_raw(&self, ctx: &Self::Context) -> RawResource {
        (*self).to_raw(ctx)
    }
}

impl<'t, T: StaticKind> StaticKind for &'t T {
    fn static_kind() -> Key {
        T::static_kind()
    }
}

impl<'t, T: StaticResource> StaticResource for &'t T {

}

/// The document that rendering a single resource as primary data yields:
/// the rendered object with its links and meta members moved up to the
/// document, and the included set grown by the walk from empty.
pub open spec fn spec_resolve_object_doc(raw: RawResource, q: Option<&Query>) -> Result<
    crate::doc::DocumentView<ObjectView>,
    RenderErrView,
> {
    match spec_render_object(raw, q, Seq::empty(), Seq::empty()) {
        Err(e) => Err(e),
        Ok(pair) => Ok(
            crate::doc::DocumentView::Content {
                data: DataView::Member(
                    Some(
                        ObjectView {
                            links: Seq::empty(),
                            meta: Seq::empty(),
                            ..pair.0
                        },
                    ),
                ),
                included: pair.1,
                jsonapi: crate::doc::JsonApi { version: crate::doc::Version::V1 },
                links: pair.0.links,
                meta: pair.0.meta,
            },
        ),
    }
}

/// Renders one described resource as a document with a single primary
/// object: the walk starts at the empty path with an empty included set,
/// and the root object's links and meta members move up to the document.
pub fn resolve_raw_object(raw: &RawResource, query: Option<&Query>) -> (r: Result<
    Document<Object>,
    ResolveError,
>)
    requires
        match query {
            Some(q) => q.wf(),
            None => true,
        },
    ensures
        match spec_resolve_object_doc(*raw, query) {
            Ok(dv) => r is Ok && r->Ok_0@ == dv && r->Ok_0->Content_included.wf(),
            Err(e) => r is Err && rerr_matches(r->Err_0, e),
        },
{
    let mut exec: Executor<()> = Executor::new((), query);
    match render_object(raw, &mut exec) {
        Err(e) => Err(e),
        Ok(obj) => {
            let mut obj = obj;
            let mut links = KeyMap::<Link>::new();
            let mut meta = KeyMap::<Value>::new();
            core::mem::swap(&mut links, &mut obj.links);
            core::mem::swap(&mut meta, &mut obj.meta);
            let doc = Document::Content {
                data: Data::Member(Some(obj)),
                included: exec.into_included(),
                jsonapi: crate::doc::JsonApi { version: crate::doc::Version::V1 },
                links,
                meta,
            };
            proof {
                let m = spec_resolve_object_doc(*raw, query);
                assert(doc@->Content_data->Member_0->0 =~= m->Ok_0->Content_data->Member_0->0);
                assert(doc@ =~= m->Ok_0);
            }
            Ok(doc)
        },
    }
}

/// The documents that rendering a list of resources as primary data
/// yields: the rendered objects in order, sharing one included set grown
/// from empty.
pub open spec fn spec_render_objects(
    raws: Seq<RawResource>,
    j: int,
    q: Option<&Query>,
    incl: Seq<ObjectView>,
) -> Result<(Seq<ObjectView>, Seq<ObjectView>), RenderErrView>
    decreases raws.len() - j,
{
    if j < 0 || j >= raws.len() {
        Ok((Seq::empty(), incl))
    } else {
        match spec_render_object(raws[j], q, Seq::empty(), incl) {
            Err(e) => Err(e),
            Ok(pair) => match spec_render_objects(raws, j + 1, q, pair.1) {
                Err(e) => Err(e),
                Ok(rest) => Ok((seq![pair.0] + rest.0, rest.1)),
            },
        }
    }
}

/// Renders the resources from position `j` on, sharing the executor's
/// included set.
fn render_objects_from<'v, CtxT>(
    raws: &Vec<RawResource>,
    j: usize,
    exec: &mut Executor<'v, CtxT>,
) -> (r: Result<Vec<Object>, ResolveError>)
    requires
        old(exec).wf(),
        old(exec).incl.wf(),
        old(exec).path@.len() == 0,
        j <= raws@.len(),
    ensures
        final(exec).wf(),
        final(exec).incl.wf(),
        final(exec).query == old(exec).query,
        match spec_render_objects(raws@, j as int, old(exec).query, old(exec).incl@) {
            Ok(pair) => r is Ok && r->Ok_0.deep_view() == pair.0 && final(exec).incl@ == pair.1,
            Err(e) => r is Err && rerr_matches(r->Err_0, e),
        },
    decreases raws@.len() - j,
{
    proof {
        assert(exec.path@ =~= Seq::<Seq<char>>::empty());
    }
    if j >= raws.len() {
        let r: Vec<Object> = Vec::new();
        proof {
            assert(r.deep_view() =~= Seq::<ObjectView>::empty());
        }
        return Ok(r);
    }
    match render_object(&raws[j], exec) {
        Err(e) => Err(e),
        Ok(obj) => match render_objects_from(raws, j + 1, exec) {
            Err(e) => Err(e),
            Ok(rest) => {
                let mut out: Vec<Object> = rest;
                out.insert(0, obj);
                proof {
                    let m = spec_render_objects(raws@, j as int, old(exec).query, old(exec).incl@);
                    assert(out.deep_view() =~= m->Ok_0.0);
                }
                Ok(out)
            },
        },
    }
}

/// Renders a list of described resources as a document whose primary data
/// is a collection, each walked independently but sharing the one
/// included set.
pub fn resolve_raw_objects(raws: &Vec<RawResource>, query: Option<&Query>) -> (r: Result<
    Document<Object>,
    ResolveError,
>)
    requires
        match query {
            Some(q) => q.wf(),
            None => true,
        },
    ensures
        match spec_render_objects(raws@, 0, query, Seq::empty()) {
            Ok(pair) => r is Ok && r->Ok_0@ == (crate::doc::DocumentView::Content {
                data: DataView::Collection(pair.0),
                included: pair.1,
                jsonapi: crate::doc::JsonApi { version: crate::doc::Version::V1 },
                links: Seq::<(Seq<char>, LinkView)>::empty(),
                meta: Seq::<(Seq<char>, ValueView)>::empty(),
            }) && r->Ok_0->Content_included.wf(),
            Err(e) => r is Err && rerr_matches(r->Err_0, e),
        },
{
    let mut exec: Executor<()> = Executor::new((), query);
    match render_objects_from(raws, 0, &mut exec) {
        Err(e) => Err(e),
        Ok(objects) => {
            let doc = Document::Content {
                data: Data::Collection(objects),
                included: exec.into_included(),
                jsonapi: crate::doc::JsonApi { version: crate::doc::Version::V1 },
                links: KeyMap::new(),
                meta: KeyMap::new(),
            };
            proof {
                let m = spec_render_objects(raws@, 0, query, Seq::<ObjectView>::empty());
                assert(doc@ =~= crate::doc::DocumentView::Content {
                    data: DataView::Collection(m->Ok_0.0),
                    included: m->Ok_0.1,
                    jsonapi: crate::doc::JsonApi { version: crate::doc::Version::V1 },
                    links: Seq::<(Seq<char>, LinkView)>::empty(),
                    meta: Seq::<(Seq<char>, ValueView)>::empty(),
                });
            }
            Ok(doc)
        },
    }
}

/// Renders one described resource as a document whose primary datum is an
/// identifier: the resource's meta members move up to the document, as
/// resolving a bare identifier does.
pub fn resolve_raw_ident(raw: &RawResource, query: Option<&Query>) -> (r: Result<
    Document<Identifier>,
    ResolveError,
>)
    ensures
        match spec_render_ident(*raw) {
            Ok(iv) => r is Ok && r->Ok_0@ == (crate::doc::DocumentView::Content {
                data: DataView::Member(
                    Some(
                        IdentifierView {
                            meta: Seq::<(Seq<char>, ValueView)>::empty(),
                            ..iv
                        },
                    ),
                ),
                included: Seq::<ObjectView>::empty(),
                jsonapi: crate::doc::JsonApi { version: crate::doc::Version::V1 },
                links: Seq::<(Seq<char>, LinkView)>::empty(),
                meta: iv.meta,
            }),
            Err(e) => r is Err && rerr_matches(r->Err_0, e),
        },
{
    let _ = query;
    match render_ident(raw) {
        Err(e) => Err(e),
        Ok(ident) => {
            let mut ident = ident;
            let mut meta = KeyMap::<Value>::new();
            core::mem::swap(&mut meta, &mut ident.meta);
            let doc = Document::Content {
                data: Data::Member(Some(ident)),
                included: ObjectSet::new(),
                jsonapi: crate::doc::JsonApi { version: crate::doc::Version::V1 },
                links: KeyMap::new(),
                meta,
            };
            proof {
                let m = spec_render_ident(*raw);
                assert(doc@->Content_data->Member_0->0 =~= IdentifierView {
                    meta: Seq::<(Seq<char>, ValueView)>::empty(),
                    ..m->Ok_0
                });
                assert(doc@ =~= crate::doc::DocumentView::Content {
                    data: DataView::Member(
                        Some(
                            IdentifierView {
                                meta: Seq::<(Seq<char>, ValueView)>::empty(),
                                ..m->Ok_0
                            },
                        ),
                    ),
                    included: Seq::<ObjectView>::empty(),
                    jsonapi: crate::doc::JsonApi { version: crate::doc::Version::V1 },
                    links: Seq::<(Seq<char>, LinkView)>::empty(),
                    meta: m->Ok_0.meta,
                });
            }
            Ok(doc)
        },
    }
}

} // verus!

verus! {

/// Whether the query's fieldset map names each type at most once.
pub fn query_wf_check(q: &Query) -> (r: bool)
    ensures
        r == q.wf(),
{
    let n = q.fields.len();
    let mut i: usize = 0;
    while i < n
        invariant
            n == q.fields@.len(),
            0 <= i <= n,
            forall|a: int, b: int| 0 <= a < b < q.fields@.len() && a < i as int ==> q.fields@[a].0
                != q.fields@[b].0,
        decreases n - i,
    {
        let mut j: usize = i + 1;
        while j < n
            invariant
                n == q.fields@.len(),
                0 <= i < j <= n,
                forall|b: int| (i as int) < b < (j as int) ==> q.fields@[i as int].0 != q.fields@[b].0,
            decreases n - j,
        {
            if q.fields.key_at(i) == q.fields.key_at(j) {
                proof {
                    assert(q.fields@[i as int].0 == q.fields@[j as int].0);
                }
                return false;
            }
            j = j + 1;
        }
        i = i + 1;
    }
    true
}

/// The document a bare identifier resolves to: its meta members move up to
/// the document.
pub fn ident_document(ident: Identifier) -> (r: Document<Identifier>)
    ensures
        r@ == (crate::doc::DocumentView::Content {
            data: DataView::Member(
                Some(IdentifierView { meta: Seq::<(Seq<char>, ValueView)>::empty(), ..ident@ }),
            ),
            included: Seq::<ObjectView>::empty(),
            jsonapi: crate::doc::JsonApi { version: crate::doc::Version::V1 },
            links: Seq::<(Seq<char>, LinkView)>::empty(),
            meta: ident@.meta,
        }),
{
    let ghost iv = ident@;
    let mut ident = ident;
    let mut meta = KeyMap::<Value>::new();
    core::mem::swap(&mut meta, &mut ident.meta);
    let doc = Document::Content {
        data: Data::Member(Some(ident)),
        included: ObjectSet::new(),
        jsonapi: crate::doc::JsonApi { version: crate::doc::Version::V1 },
        links: KeyMap::new(),
        meta,
    };
    proof {
        assert(doc@->Content_data->Member_0->0 =~= IdentifierView {
            meta: Seq::<(Seq<char>, ValueView)>::empty(),
            ..iv
        });
        assert(doc@ =~= crate::doc::DocumentView::Content {
            data: DataView::Member(
                Some(IdentifierView { meta: Seq::<(Seq<char>, ValueView)>::empty(), ..iv }),
            ),
            included: Seq::<ObjectView>::empty(),
            jsonapi: crate::doc::JsonApi { version: crate::doc::Version::V1 },
            links: Seq::<(Seq<char>, LinkView)>::empty(),
            meta: iv.meta,
        });
    }
    doc
}

/// The document a list of identifiers resolves to.
pub fn idents_document(idents: Vec<Identifier>) -> (r: Document<Identifier>)
    ensures
        r@ == (crate::doc::DocumentView::Content {
            data: DataView::Collection(idents.deep_view()),
            included: Seq::<ObjectView>::empty(),
            jsonapi: crate::doc::JsonApi { version: crate::doc::Version::V1 },
            links: Seq::<(Seq<char>, LinkView)>::empty(),
            meta: Seq::<(Seq<char>, ValueView)>::empty(),
        }),
{
    let doc = Document::Content {
        data: Data::Collection(idents),
        included: ObjectSet::new(),
        jsonapi: crate::doc::JsonApi { version: crate::doc::Version::V1 },
        links: KeyMap::new(),
        meta: KeyMap::new(),
    };
    proof {
        assert(doc@ =~= crate::doc::DocumentView::Content {
            data: DataView::Collection(doc->Content_data->Collection_0.deep_view()),
            included: Seq::<ObjectView>::empty(),
            jsonapi: crate::doc::JsonApi { version: crate::doc::Version::V1 },
            links: Seq::<(Seq<char>, LinkView)>::empty(),
            meta: Seq::<(Seq<char>, ValueView)>::empty(),
        });
    }
    doc
}

/// The document an absent resource resolves to: a null primary datum.
pub fn empty_member_document<T: crate::cursor::PrimaryData + DeepView>() -> (r: Document<T>)
    ensures
        r@ == (crate::doc::DocumentView::Content {
            data: DataView::Member(None::<<T as DeepView>::V>),
            included: Seq::<ObjectView>::empty(),
            jsonapi: crate::doc::JsonApi { version: crate::doc::Version::V1 },
            links: Seq::<(Seq<char>, LinkView)>::empty(),
            meta: Seq::<(Seq<char>, ValueView)>::empty(),
        }),
{
    let doc: Document<T> = Document::Content {
        data: Data::Member(None),
        included: ObjectSet::new(),
        jsonapi: crate::doc::JsonApi { version: crate::doc::Version::V1 },
        links: KeyMap::new(),
        meta: KeyMap::new(),
    };
    proof {
        assert(doc@ =~= crate::doc::DocumentView::Content {
            data: DataView::Member(None::<<T as DeepView>::V>),
            included: Seq::<ObjectView>::empty(),
            jsonapi: crate::doc::JsonApi { version: crate::doc::Version::V1 },
            links: Seq::<(Seq<char>, LinkView)>::empty(),
            meta: Seq::<(Seq<char>, ValueView)>::empty(),
        });
    }
    doc
}

/// A type that can resolve itself into a document under a query.
pub trait Resolver<T: crate::cursor::PrimaryData + DeepView> {
    /// The application context the resolution may read.
    type Context;

    /// Attempts to render the given type as a document.
    fn resolve(self, query: Option<&Query>, ctx: &Self::Context) -> Result<
        Document<T>,
        ResolveError,
    >;
}

impl Resolver<Identifier> for Identifier {
    type Context = ();

    /// A bare identifier resolves to a document whose primary datum it is;
    /// its meta members move up to the document. The query and context are
    /// ignored.
    fn resolve(self, query: Option<&Query>, ctx: &Self::Context) -> (r: Result<
        Document<Identifier>,
        ResolveError,
    >)
        ensures
            r is Ok,
            r->Ok_0@ == (crate::doc::DocumentView::Content {
                data: DataView::Member(
                    Some(
                        IdentifierView {
                            meta: Seq::<(Seq<char>, ValueView)>::empty(),
                            ..self@
                        },
                    ),
                ),
                included: Seq::<ObjectView>::empty(),
                jsonapi: crate::doc::JsonApi { version: crate::doc::Version::V1 },
                links: Seq::<(Seq<char>, LinkView)>::empty(),
                meta: self@.meta,
            }),
    {
        let _ = query;
        let _ = ctx;
        Ok(ident_document(self))
    }
}

impl Resolver<Identifier> for Vec<Identifier> {
    type Context = ();

    /// A list of identifiers resolves to a document whose primary data is
    /// the collection, in its order. The query and context are ignored.
    fn resolve(self, query: Option<&Query>, ctx: &Self::Context) -> (r: Result<
        Document<Identifier>,
        ResolveError,
    >)
        ensures
            r is Ok,
            r->Ok_0@ == (crate::doc::DocumentView::Content {
                data: DataView::Collection(self.deep_view()),
                included: Seq::<ObjectView>::empty(),
                jsonapi: crate::doc::JsonApi { version: crate::doc::Version::V1 },
                links: Seq::<(Seq<char>, LinkView)>::empty(),
                meta: Seq::<(Seq<char>, ValueView)>::empty(),
            }),
    {
        let _ = query;
        let _ = ctx;
        Ok(idents_document(self))
    }
}

impl<T: crate::cursor::PrimaryData + DeepView> Resolver<T> for Document<T> {
    type Context = ();

    /// A document resolves to itself, unchanged.
    fn resolve(self, query: Option<&Query>, ctx: &Self::Context) -> (r: Result<
        Document<T>,
        ResolveError,
    >)
        ensures
            r is Ok,
            r->Ok_0 == self,
    {
        let _ = query;
        let _ = ctx;
        Ok(self)
    }
}

impl<D: crate::cursor::PrimaryData + DeepView, T: Resolver<D>> Resolver<D> for Option<T> {
    type Context = T::Context;

    /// An absent value resolves to a document with a null primary datum;
    /// a present one resolves itself, and nothing more can be said of it
    /// than its own resolver says.
    fn resolve(self, query: Option<&Query>, ctx: &Self::Context) -> (r: Result<
        Document<D>,
        ResolveError,
    >)
        ensures
            self is None ==> r is Ok && r->Ok_0@ == (crate::doc::DocumentView::Content {
                data: DataView::Member(None::<<D as DeepView>::V>),
                included: Seq::<ObjectView>::empty(),
                jsonapi: crate::doc::JsonApi { version: crate::doc::Version::V1 },
                links: Seq::<(Seq<char>, LinkView)>::empty(),
                meta: Seq::<(Seq<char>, ValueView)>::empty(),
            }),
    {
        match self {
            Some(value) => value.resolve(query, ctx),
            None => Ok(empty_member_document()),
        }
    }
}

impl<'a, T: Resource> Resolver<Object> for &'a T {
    type Context = T::Context;

    /// A resource resolves to a document by describing itself and letting
    /// the deflate engine render the description.
    fn resolve(self, query: Option<&Query>, ctx: &Self::Context) -> Result<
        Document<Object>,
        ResolveError,
    > {
        if let Some(q) = query {
            if !query_wf_check(q) {
                return Err(
                    ResolveError::Custom(String::from_str("query names a fieldset type twice")),
                );
            }
        }
        let raw = self.to_raw(ctx);
        resolve_raw_object(&raw, query)
    }
}

impl<'a, T: Resource> Resolver<Identifier> for &'a T {
    type Context = T::Context;

    /// A resource resolves to an identifier document by rendering its
    /// identity and meta members alone.
    fn resolve(self, query: Option<&Query>, ctx: &Self::Context) -> Result<
        Document<Identifier>,
        ResolveError,
    > {
        let raw = self.to_raw(ctx);
        resolve_raw_ident(&raw, query)
    }
}

impl<'a, T: Resource> Resolver<Object> for &'a Vec<T> {
    type Context = T::Context;

    /// A homogeneous list of resources resolves to a collection document,
    /// each item walked independently but sharing the one included set.
    fn resolve(self, query: Option<&Query>, ctx: &Self::Context) -> Result<
        Document<Object>,
        ResolveError,
    > {
        if let Some(q) = query {
            if !query_wf_check(q) {
                return Err(
                    ResolveError::Custom(String::from_str("query names a fieldset type twice")),
                );
            }
        }
        let mut raws: Vec<RawResource> = Vec::new();
        let mut i: usize = 0;
        while i < self.len()
            decreases self@.len() - i,
        {
            raws.push(self[i].to_raw(ctx));
            i = i + 1;
        }
        resolve_raw_objects(&raws, query)
    }
}

/// Render type `T` as a `Document<U>`.
pub fn to_doc<T: Resolver<U>, U: crate::cursor::PrimaryData + DeepView>(
    value: T,
    query: Option<&Query>,
    ctx: &T::Context,
) -> Result<Document<U>, ResolveError> {
    value.resolve(query, ctx)
}

/// Render type `T` as a `Document<Object>`.
pub fn to_doc_object<T: Resolver<Object>>(value: T, query: Option<&Query>, ctx: &T::Context) -> Result<
    Document<Object>,
    ResolveError,
> {
    value.resolve(query, ctx)
}

/// An already-rendered object, wrapped so that it can stand where a
/// resource is resolved.
pub struct ObjectWrap<CtxT> {
    /// The object, present until it is taken by resolution.
    pub obj: Option<Object>,
    /// Records the context type the wrapper stands in for.
    pub phantom: core::marker::PhantomData<CtxT>,
}

impl<CtxT> ObjectWrap<CtxT> {
    /// Wraps an already-rendered object.
    pub fn new<'v>(obj: Object, executor: &Executor<'v, CtxT>) -> (r: ObjectWrap<CtxT>)
        ensures
            r.obj == Some(obj),
    {
        let _ = executor;
        ObjectWrap { obj: Some(obj), phantom: core::marker::PhantomData }
    }
}

/// Wraps an already-rendered object so that it can stand where a resource
/// is resolved.
pub fn object_wrap<'v, CtxT>(obj: Object, executor: &Executor<'v, CtxT>) -> (r: ObjectWrap<CtxT>)
    ensures
        r.obj == Some(obj),
{
    ObjectWrap::new(obj, executor)
}

/// Resolution of an already-obtained value into its identifier or its full
/// object, against an executor.
pub trait InternalResolve {
    /// The application context the resolution may read.
    type Context;

    /// Whether the value can still yield an identifier.
    spec fn ready_ident(&self) -> bool;

    /// Whether the value can still yield a full object.
    spec fn ready_object(&self) -> bool;

    /// Resolves the value's identifier.
    fn resolve_ident<'v>(&self, executor: &mut Executor<'v, Self::Context>) -> Result<
        Identifier,
        ResolveError,
    >
        requires
            self.ready_ident(),
    ;

    /// Resolves the value's full object, consuming it.
    fn resolve_object<'v>(&mut self, executor: &mut Executor<'v, Self::Context>) -> Result<
        Object,
        ResolveError,
    >
        requires
            old(self).ready_object(),
            old(executor).wf(),
            old(executor).incl.wf(),
    ;
}

impl<CtxT> InternalResolve for ObjectWrap<CtxT> {
    type Context = CtxT;

    /// The wrapped object is available until taken.
    open spec fn ready_ident(&self) -> bool {
        self.obj is Some
    }

    open spec fn ready_object(&self) -> bool {
        self.obj is Some
    }

    /// The wrapped object's identity, with empty meta.
    fn resolve_ident<'v>(&self, executor: &mut Executor<'v, Self::Context>) -> (r: Result<
        Identifier,
        ResolveError,
    >)
        ensures
            r is Ok,
            r->Ok_0@ == (IdentifierView {
                id: self.obj->0.id@,
                kind: self.obj->0.kind@,
                meta: Seq::<(Seq<char>, ValueView)>::empty(),
            }),
    {
        let _ = executor;
        match &self.obj {
            Some(obj) => Ok(Identifier::new(obj.kind.clone(), obj.id.clone())),
            None => unreached(),
        }
    }

    /// Exactly the wrapped object, leaving the wrapper empty.
    fn resolve_object<'v>(&mut self, executor: &mut Executor<'v, Self::Context>) -> (r: Result<
        Object,
        ResolveError,
    >)
        ensures
            r is Ok,
            r->Ok_0 == old(self).obj->0,
            final(self).obj is None,
    {
        let _ = executor;
        let mut taken: Option<Object> = None;
        core::mem::swap(&mut taken, &mut self.obj);
        match taken {
            Some(obj) => Ok(obj),
            None => unreached(),
        }
    }
}

impl<A: Resource> InternalResolve for A {
    type Context = A::Context;

    /// A resource can always describe itself.
    open spec fn ready_ident(&self) -> bool {
        true
    }

    open spec fn ready_object(&self) -> bool {
        true
    }

    fn resolve_ident<'v>(&self, executor: &mut Executor<'v, Self::Context>) -> Result<
        Identifier,
        ResolveError,
    > {
        let raw = self.to_raw(executor.context());
        render_ident(&raw)
    }

    fn resolve_object<'v>(&mut self, executor: &mut Executor<'v, Self::Context>) -> Result<
        Object,
        ResolveError,
    > {
        let raw = self.to_raw(executor.context());
        render_object(&raw, executor)
    }
}

} // verus!

verus! {

/// The value that `k` is bound to after the attributes from position `i`
/// on are rendered over a current binding: the last allowed entry whose
/// name normalizes to `k` wins.
pub open spec fn spec_attr_binding(
    kind: Seq<char>,
    q: Option<&Query>,
    entries: Seq<(String, Value)>,
    i: int,
    k: Seq<char>,
    current: Option<ValueView>,
) -> Option<ValueView>
    decreases entries.len() - i,
{
    if i < 0 || i >= entries.len() {
        current
    } else if spec_field_allowed(q, kind, entries[i].0@) && key_norm(entries[i].0@) == Some(k) {
        spec_attr_binding(kind, q, entries, i + 1, k, Some(entries[i].1@))
    } else {
        spec_attr_binding(kind, q, entries, i + 1, k, current)
    }
}

/// The binding a keyed sequence gives a name, if any.
pub open spec fn kseq_binding<T>(s: Seq<(Seq<char>, T)>, k: Seq<char>) -> Option<T> {
    if crate::collections::kseq_has_key(s, k) {
        Some(crate::collections::kseq_first_get(s, k))
    } else {
        None
    }
}

/// Rendering attributes binds each name to what [`spec_attr_binding`]
/// says, and keeps the names distinct.
pub proof fn lemma_render_attrs_binding(
    kind: Seq<char>,
    q: Option<&Query>,
    entries: Seq<(String, Value)>,
    i: int,
    acc: Seq<(Seq<char>, ValueView)>,
    k: Seq<char>,
)
    requires
        crate::collections::kseq_wf(acc),
        spec_render_attrs(kind, q, entries, i, acc) is Ok,
    ensures
        crate::collections::kseq_wf(spec_render_attrs(kind, q, entries, i, acc)->Ok_0),
        kseq_binding(spec_render_attrs(kind, q, entries, i, acc)->Ok_0, k) == spec_attr_binding(
            kind,
            q,
            entries,
            i,
            k,
            kseq_binding(acc, k),
        ),
    decreases entries.len() - i,
{
    if i < 0 || i >= entries.len() {
    } else if !spec_field_allowed(q, kind, entries[i].0@) {
        lemma_render_attrs_binding(kind, q, entries, i + 1, acc, k);
    } else {
        let norm = key_norm(entries[i].0@);
        assert(norm is Some);
        let k1 = norm->Some_0;
        let acc2 = kseq_insert(acc, k1, entries[i].1@);
        crate::collections::lemma_kseq_insert_wf(acc, k1, entries[i].1@);
        crate::collections::lemma_kseq_insert_get(acc, k1, entries[i].1@, k);
        lemma_render_attrs_binding(kind, q, entries, i + 1, acc2, k);
        if k1 == k {
            assert(kseq_binding(acc2, k) == Some(entries[i].1@));
        } else {
            assert(kseq_binding(acc2, k) == kseq_binding(acc, k));
        }
    }
}

} // verus!
