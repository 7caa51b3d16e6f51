//! The properties the library states of itself, proved once and for all.

use vstd::prelude::*;

use crate::cursor::spec_lookup;
use crate::doc::{IdentifierView, ObjectView, oseq_has};
use crate::query::Query;
use crate::resource::{spec_render_object, RawResource};
use crate::schema::{spec_decode_field, spec_decode_node, spec_decode_fields, DecodeError, Schema};
use crate::value::ValueView;

verus! {

/// Exact consumption: decoding a record schema that rejects extras
/// succeeds exactly when it requests at least as many distinct fields as
/// the resource provides, given that every requested field decodes. A
/// schema that requests fewer fields than the resource provides is a
/// fatal error; naming a field twice does not consume two.
pub proof fn lemma_exact_consumption(
    n: crate::cursor::NodeView,
    incl: Seq<ObjectView>,
    s: Schema,
)
    requires
        s is Rec,
        s->Rec_1 is Reject,
        spec_decode_fields(n, incl, s->Rec_0@, 0) is Ok,
    ensures
        spec_decode_node(n, incl, s) is Ok <==> crate::schema::distinct_names_from(s->Rec_0@, 0)
            >= n.spec_produced(),
        !(spec_decode_node(n, incl, s) is Ok) ==> spec_decode_node(n, incl, s) == Err::<
            ValueView,
            DecodeError,
        >(DecodeError::Unconsumed),
{
}

/// Stub fallback: an identifier that is absent from the included set
/// resolves to a stub that exposes only `type` and `id` — no attributes
/// and no relationships — and therefore produces exactly two fields.
pub proof fn lemma_stub_fallback(ident: IdentifierView, incl: Seq<ObjectView>)
    requires
        !oseq_has(incl, ident.identity()),
    ensures
        spec_lookup(ident, incl).kind == ident.kind,
        spec_lookup(ident, incl).id == Some(ident.id),
        spec_lookup(ident, incl).attributes is None,
        spec_lookup(ident, incl).relationships is None,
        spec_lookup(ident, incl).spec_produced() == 2,
{
}

/// Identity round trip: for any resource whose rendering succeeds, the
/// rendered object deflates to the resource's own type and id, and
/// inflating the `type` and `id` fields of that object gives them back
/// unchanged, whatever the query, path and included set were.
pub proof fn lemma_roundtrip_identity(
    raw: RawResource,
    q: Option<&Query>,
    path: Seq<Seq<char>>,
    incl: Seq<ObjectView>,
    decode_incl: Seq<ObjectView>,
)
    requires
        spec_render_object(raw, q, path, incl) is Ok,
    ensures
        ({
            let rendered = spec_render_object(raw, q, path, incl)->Ok_0.0;
            &&& rendered.kind == raw.kind@
            &&& rendered.id == raw.id@
            &&& spec_decode_field(
                node_of_object(rendered),
                decode_incl,
                "type"@,
                Schema::Str,
            ) == Ok::<ValueView, DecodeError>(ValueView::String(raw.kind@))
            &&& spec_decode_field(
                node_of_object(rendered),
                decode_incl,
                "id"@,
                Schema::Str,
            ) == Ok::<ValueView, DecodeError>(ValueView::String(raw.id@))
        }),
{
    proof_strings_differ();
    let rendered = spec_render_object(raw, q, path, incl)->Ok_0.0;
    assert(spec_decode_field(node_of_object(rendered), decode_incl, "type"@, Schema::Str)
        == Ok::<ValueView, DecodeError>(ValueView::String(raw.kind@)));
    assert(spec_decode_field(node_of_object(rendered), decode_incl, "id"@, Schema::Str)
        == Ok::<ValueView, DecodeError>(ValueView::String(raw.id@)));
}

/// The node a rendered object exposes to the decoder.
pub open spec fn node_of_object(o: ObjectView) -> crate::cursor::NodeView {
    crate::cursor::NodeView {
        kind: o.kind,
        id: Some(o.id),
        attributes: Some(o.attributes),
        relationships: Some(o.relationships),
    }
}

/// The member names `type` and `id` differ.
proof fn proof_strings_differ()
    ensures
        "type"@ != "id"@,
{
    reveal_strlit("type");
    reveal_strlit("id");
    assert("type"@.len() != "id"@.len());
}

} // verus!

verus! {

/// Attribute round trip: take any resource whose rendering succeeds and
/// any member name `k` other than `type` and `id` that the rendering
/// binds. Deflating the resource and then inflating that field of the
/// rendered object — against any included set — gives back exactly the
/// attribute value the resource supplied: the last allowed attribute
/// whose raw name normalizes to `k`.
pub proof fn lemma_roundtrip_attribute(
    raw: RawResource,
    q: Option<&Query>,
    path: Seq<Seq<char>>,
    incl: Seq<ObjectView>,
    decode_incl: Seq<ObjectView>,
    k: Seq<char>,
)
    requires
        spec_render_object(raw, q, path, incl) is Ok,
        k != "type"@,
        k != "id"@,
        crate::resource::spec_attr_binding(raw.kind@, q, raw.attributes@, 0, k, None) is Some,
    ensures
        ({
            let rendered = spec_render_object(raw, q, path, incl)->Ok_0.0;
            spec_decode_field(node_of_object(rendered), decode_incl, k, Schema::Any) == Ok::<
                ValueView,
                DecodeError,
            >(crate::resource::spec_attr_binding(raw.kind@, q, raw.attributes@, 0, k, None)->0)
        }),
{
    let rendered = spec_render_object(raw, q, path, incl)->Ok_0.0;
    let m = crate::resource::spec_render_attrs(
        raw.kind@,
        q,
        raw.attributes@,
        0,
        Seq::<(Seq<char>, ValueView)>::empty(),
    );
    assert(m is Ok);
    assert(rendered.attributes == m->Ok_0);
    assert(crate::collections::kseq_wf(Seq::<(Seq<char>, ValueView)>::empty()));
    assert(!crate::collections::kseq_has_key(Seq::<(Seq<char>, ValueView)>::empty(), k));
    crate::resource::lemma_render_attrs_binding(
        raw.kind@,
        q,
        raw.attributes@,
        0,
        Seq::<(Seq<char>, ValueView)>::empty(),
        k,
    );
    let binding = crate::resource::spec_attr_binding(raw.kind@, q, raw.attributes@, 0, k, None);
    assert(crate::resource::kseq_binding(m->Ok_0, k) == binding);
    assert(crate::collections::kseq_has_key(rendered.attributes, k));
    assert(crate::collections::kseq_first_get(rendered.attributes, k) == binding->0);
}

} // verus!

verus! {

/// An identity present in an included set resolves to a full object —
/// with attributes and relationships — never to a stub.
pub proof fn lemma_present_never_stub(ident: IdentifierView, incl: Seq<ObjectView>)
    requires
        oseq_has(incl, ident.identity()),
    ensures
        spec_lookup(ident, incl).attributes is Some,
        spec_lookup(ident, incl).relationships is Some,
{
}

/// Rendering only grows the included set: every identity present before a
/// resource is rendered is still present afterwards.
pub proof fn lemma_render_object_monotone(
    raw: RawResource,
    q: Option<&Query>,
    path: Seq<Seq<char>>,
    incl: Seq<ObjectView>,
    identity: (Seq<char>, Seq<char>),
)
    requires
        spec_render_object(raw, q, path, incl) is Ok,
        oseq_has(incl, identity),
    ensures
        oseq_has(spec_render_object(raw, q, path, incl)->Ok_0.1, identity),
    decreases raw, 0int, 0int,
{
    let rels = raw.relationships@;
    lemma_render_rels_monotone(
        raw.kind@,
        rels,
        0,
        Seq::empty(),
        q,
        path,
        incl,
        identity,
    );
}

/// Rendering a resource's relationships only grows the included set.
proof fn lemma_render_rels_monotone(
    kind: Seq<char>,
    rels: Seq<(String, crate::resource::RawRelationship)>,
    i: int,
    acc: Seq<(Seq<char>, crate::doc::RelationshipView)>,
    q: Option<&Query>,
    path: Seq<Seq<char>>,
    incl: Seq<ObjectView>,
    identity: (Seq<char>, Seq<char>),
)
    requires
        crate::resource::spec_render_rels(kind, rels, i, acc, q, path, incl) is Ok,
        oseq_has(incl, identity),
    ensures
        oseq_has(crate::resource::spec_render_rels(kind, rels, i, acc, q, path, incl)->Ok_0.1, identity),
    decreases rels, 1int, rels.len() - i,
{
    if i < 0 || i >= rels.len() {
    } else if !crate::executor::spec_field_allowed(q, kind, rels[i].0@) {
        lemma_render_rels_monotone(kind, rels, i + 1, acc, q, path, incl, identity);
    } else {
        let k = crate::key::key_norm(rels[i].0@)->Some_0;
        let pair = crate::resource::spec_render_linkage(rels[i].1, q, path.push(k), incl)->Ok_0;
        lemma_render_linkage_monotone(rels[i].1, q, path.push(k), incl, identity);
        lemma_render_rels_monotone(
            kind,
            rels,
            i + 1,
            crate::collections::kseq_insert(acc, k, pair.0),
            q,
            path,
            pair.1,
            identity,
        );
    }
}

/// Rendering one relationship only grows the included set.
proof fn lemma_render_linkage_monotone(
    rel: crate::resource::RawRelationship,
    q: Option<&Query>,
    path: Seq<Seq<char>>,
    incl: Seq<ObjectView>,
    identity: (Seq<char>, Seq<char>),
)
    requires
        crate::resource::spec_render_linkage(rel, q, path, incl) is Ok,
        oseq_has(incl, identity),
    ensures
        oseq_has(crate::resource::spec_render_linkage(rel, q, path, incl)->Ok_0.1, identity),
    decreases rel, 0int, 0int,
{
    match rel.data {
        None => {},
        Some(crate::resource::RawData::One(None)) => {},
        Some(crate::resource::RawData::One(Some(child))) => {
            if crate::executor::spec_path_included(q, path) {
                let pair = spec_render_object(child, q, path, incl)->Ok_0;
                lemma_render_object_monotone(child, q, path, incl, identity);
                lemma_oseq_insert_monotone(pair.1, pair.0, identity);
            }
        },
        Some(crate::resource::RawData::Many(_)) => {
            let children = rel.data->0->Many_0;
            if crate::executor::spec_path_included(q, path) {
                lemma_render_many_monotone(children@, 0, q, path, incl, identity);
            }
        },
    }
}

/// Fully rendering a to-many relationship's targets only grows the
/// included set.
proof fn lemma_render_many_monotone(
    children: Seq<RawResource>,
    j: int,
    q: Option<&Query>,
    path: Seq<Seq<char>>,
    incl: Seq<ObjectView>,
    identity: (Seq<char>, Seq<char>),
)
    requires
        crate::resource::spec_render_many(children, j, q, path, incl) is Ok,
        oseq_has(incl, identity),
    ensures
        oseq_has(crate::resource::spec_render_many(children, j, q, path, incl)->Ok_0.1, identity),
    decreases children, 1int, children.len() - j,
{
    if j < 0 || j >= children.len() {
    } else {
        let pair = spec_render_object(children[j], q, path, incl)->Ok_0;
        lemma_render_object_monotone(children[j], q, path, incl, identity);
        lemma_oseq_insert_monotone(pair.1, pair.0, identity);
        lemma_render_many_monotone(
            children,
            j + 1,
            q,
            path,
            crate::resource::oseq_insert(pair.1, pair.0),
            identity,
        );
    }
}

/// Adding an object to an included set keeps every identity that was
/// already present, and makes the object's own identity present.
pub proof fn lemma_oseq_insert_monotone(
    s: Seq<ObjectView>,
    o: ObjectView,
    identity: (Seq<char>, Seq<char>),
)
    requires
        oseq_has(s, identity),
    ensures
        oseq_has(crate::resource::oseq_insert(s, o), identity),
        oseq_has(crate::resource::oseq_insert(s, o), o.identity()),
{
    let t = crate::resource::oseq_insert(s, o);
    let w = choose|i: int| 0 <= i < s.len() && s[i].identity() == identity;
    if !oseq_has(s, o.identity()) {
        assert(t[w].identity() == identity);
        assert(t[t.len() - 1].identity() == o.identity());
    }
}

} // verus!

verus! {

/// Sparse fieldsets filter: a member name that rendering binds no allowed
/// attribute to — in particular one that the query's fieldset for the
/// resource's type leaves out — is absent from the rendered object's
/// attributes.
pub proof fn lemma_fieldset_filtering(
    raw: RawResource,
    q: Option<&Query>,
    path: Seq<Seq<char>>,
    incl: Seq<ObjectView>,
    k: Seq<char>,
)
    requires
        spec_render_object(raw, q, path, incl) is Ok,
        crate::resource::spec_attr_binding(raw.kind@, q, raw.attributes@, 0, k, None) is None,
    ensures
        !crate::collections::kseq_has_key(
            spec_render_object(raw, q, path, incl)->Ok_0.0.attributes,
            k,
        ),
{
    crate::resource::lemma_render_attrs_binding(
        raw.kind@,
        q,
        raw.attributes@,
        0,
        Seq::<(Seq<char>, crate::value::ValueView)>::empty(),
        k,
    );
}

/// Whether the path `p` strictly extends `base`: it is longer and agrees
/// with `base` on every position of `base`.
pub open spec fn spec_extends(p: Seq<Seq<char>>, base: Seq<Seq<char>>) -> bool {
    p.len() > base.len() && (forall|j: int| 0 <= j < base.len() ==> p[j] == base[j])
}

/// Whether the query asks for no path strictly below `base`.
pub open spec fn spec_no_paths_below(q: Option<&Query>, base: Seq<Seq<char>>) -> bool {
    match q {
        None => true,
        Some(query) => forall|i: int|
            0 <= i < query.included@.len() ==> !spec_extends(#[trigger] query.included@[i], base),
    }
}

/// Include filtering: rendering a resource at a path below which the
/// query asks for nothing leaves the included set exactly as it was —
/// every relationship of the subtree emits identifiers only.
pub proof fn lemma_subtree_no_expansion(
    raw: RawResource,
    q: Option<&Query>,
    path: Seq<Seq<char>>,
    incl: Seq<ObjectView>,
)
    requires
        spec_render_object(raw, q, path, incl) is Ok,
        spec_no_paths_below(q, path),
    ensures
        spec_render_object(raw, q, path, incl)->Ok_0.1 == incl,
    decreases raw, 0int, 0int,
{
    lemma_no_expansion_rels(raw.kind@, raw.relationships@, 0, Seq::empty(), q, path, incl);
}

/// A child path is below the parent, and whatever is below the child is
/// below the parent too.
proof fn lemma_below_push(q: Option<&Query>, path: Seq<Seq<char>>, k: Seq<char>)
    requires
        spec_no_paths_below(q, path),
    ensures
        !crate::executor::spec_path_included(q, path.push(k)),
        spec_no_paths_below(q, path.push(k)),
{
    match q {
        None => {},
        Some(query) => {
            let asked = query.included@;
            if crate::executor::spec_path_included(q, path.push(k)) {
                let w = choose|i: int| 0 <= i < asked.len() && asked[i] == path.push(k);
                assert(spec_extends(asked[w], path));
            }
            assert forall|i: int| 0 <= i < asked.len() implies !spec_extends(
                #[trigger] asked[i],
                path.push(k),
            ) by {
                if spec_extends(asked[i], path.push(k)) {
                    assert forall|j: int| 0 <= j < path.len() implies asked[i][j] == path[j] by {
                        assert(asked[i][j] == path.push(k)[j]);
                    }
                    assert(spec_extends(asked[i], path));
                }
            }
        },
    }
}

proof fn lemma_no_expansion_rels(
    kind: Seq<char>,
    rels: Seq<(String, crate::resource::RawRelationship)>,
    i: int,
    acc: Seq<(Seq<char>, crate::doc::RelationshipView)>,
    q: Option<&Query>,
    path: Seq<Seq<char>>,
    incl: Seq<ObjectView>,
)
    requires
        crate::resource::spec_render_rels(kind, rels, i, acc, q, path, incl) is Ok,
        spec_no_paths_below(q, path),
    ensures
        crate::resource::spec_render_rels(kind, rels, i, acc, q, path, incl)->Ok_0.1 == incl,
    decreases rels, 1int, rels.len() - i,
{
    if i < 0 || i >= rels.len() {
    } else if !crate::executor::spec_field_allowed(q, kind, rels[i].0@) {
        lemma_no_expansion_rels(kind, rels, i + 1, acc, q, path, incl);
    } else {
        let k = crate::key::key_norm(rels[i].0@)->Some_0;
        lemma_below_push(q, path, k);
        lemma_no_expansion_linkage(rels[i].1, q, path.push(k), incl);
        let pair = crate::resource::spec_render_linkage(rels[i].1, q, path.push(k), incl)->Ok_0;
        lemma_no_expansion_rels(
            kind,
            rels,
            i + 1,
            crate::collections::kseq_insert(acc, k, pair.0),
            q,
            path,
            incl,
        );
    }
}

/// A relationship whose path the query does not ask for, with nothing
/// asked below it either, leaves the included set unchanged.
proof fn lemma_no_expansion_linkage(
    rel: crate::resource::RawRelationship,
    q: Option<&Query>,
    path: Seq<Seq<char>>,
    incl: Seq<ObjectView>,
)
    requires
        crate::resource::spec_render_linkage(rel, q, path, incl) is Ok,
        !crate::executor::spec_path_included(q, path),
    ensures
        crate::resource::spec_render_linkage(rel, q, path, incl)->Ok_0.1 == incl,
    decreases rel, 0int, 0int,
{
}

/// Expansion needs a path: a query that asks for no relationship paths at
/// all leaves the included set exactly as it was — only identifiers are
/// emitted.
pub proof fn lemma_no_expansion(
    raw: RawResource,
    q: Option<&Query>,
    path: Seq<Seq<char>>,
    incl: Seq<ObjectView>,
)
    requires
        spec_render_object(raw, q, path, incl) is Ok,
        match q {
            None => true,
            Some(query) => query.included@ == Seq::<Seq<Seq<char>>>::empty(),
        },
    ensures
        spec_render_object(raw, q, path, incl)->Ok_0.1 == incl,
{
    lemma_subtree_no_expansion(raw, q, path, incl);
}

} // verus!

verus! {

/// Reference round trip: a to-one relationship bound to an identifier
/// inflates, when decoded as a bare string, to exactly the referenced
/// resource's id — whether or not the target is present in the included
/// set, since a present target has the same identity and an absent one
/// becomes a stub carrying the identifier itself.
pub proof fn lemma_reference_roundtrip(
    o: ObjectView,
    incl: Seq<ObjectView>,
    k: Seq<char>,
    ident: IdentifierView,
)
    requires
        k != "type"@,
        k != "id"@,
        !crate::collections::kseq_has_key(o.attributes, k),
        crate::collections::kseq_has_key(o.relationships, k),
        crate::collections::kseq_first_get(o.relationships, k).data == Some(
            crate::doc::DataView::Member(Some(ident)),
        ),
    ensures
        spec_decode_field(node_of_object(o), incl, k, Schema::Str) == Ok::<
            ValueView,
            DecodeError,
        >(ValueView::String(ident.id)),
{
    let target = spec_lookup(ident, incl);
    if oseq_has(incl, ident.identity()) {
        let w = crate::doc::oseq_index_of(incl, ident.identity());
        assert(0 <= w < incl.len() && incl[w].identity() == ident.identity());
        assert(incl[w].id == ident.id);
    }
    assert(target.id == Some(ident.id));
    let n = node_of_object(o);
    assert(n.attributes == Some(o.attributes));
    assert(n.relationships == Some(o.relationships));
    assert(spec_decode_field(n, incl, k, Schema::Str) == crate::schema::spec_decode_linkage(
        crate::doc::DataView::Member(Some(ident)),
        incl,
        Schema::Str,
    ));
    assert(crate::schema::spec_decode_linkage(
        crate::doc::DataView::Member(Some(ident)),
        incl,
        Schema::Str,
    ) == spec_decode_node(target, incl, Schema::Str));
    assert(spec_decode_node(target, incl, Schema::Str) == Ok::<ValueView, DecodeError>(
        ValueView::String(ident.id),
    ));
}

} // verus!

verus! {

/// Attribute-record round trip, one field list at a time: decoding the
/// requested fields from position `i` on yields exactly the attribute
/// values the resource supplied, in the schema's order.
pub proof fn lemma_roundtrip_attributes(
    raw: RawResource,
    q: Option<&Query>,
    path: Seq<Seq<char>>,
    incl: Seq<ObjectView>,
    decode_incl: Seq<ObjectView>,
    fields: Seq<(String, Schema)>,
    i: int,
)
    requires
        spec_render_object(raw, q, path, incl) is Ok,
        0 <= i <= fields.len(),
        forall|j: int| #![trigger fields[j]]
            i <= j < fields.len() ==> fields[j].1 is Any && fields[j].0@ != "type"@ && fields[j].0@
                != "id"@ && crate::resource::spec_attr_binding(
                raw.kind@,
                q,
                raw.attributes@,
                0,
                fields[j].0@,
                None,
            ) is Some,
    ensures
        crate::schema::spec_decode_fields(
            node_of_object(spec_render_object(raw, q, path, incl)->Ok_0.0),
            decode_incl,
            fields,
            i,
        ) == Ok::<Seq<(Seq<char>, ValueView)>, DecodeError>(
            Seq::new(
                (fields.len() - i) as nat,
                |t: int|
                    (
                        fields[i + t].0@,
                        crate::resource::spec_attr_binding(
                            raw.kind@,
                            q,
                            raw.attributes@,
                            0,
                            fields[i + t].0@,
                            None,
                        )->0,
                    ),
            ),
        ),
    decreases fields.len() - i,
{
    let rendered = spec_render_object(raw, q, path, incl)->Ok_0.0;
    let n = node_of_object(rendered);
    let expected = Seq::new(
        (fields.len() - i) as nat,
        |t: int|
            (
                fields[i + t].0@,
                crate::resource::spec_attr_binding(
                    raw.kind@,
                    q,
                    raw.attributes@,
                    0,
                    fields[i + t].0@,
                    None,
                )->0,
            ),
    );
    if i >= fields.len() {
        assert(expected =~= Seq::<(Seq<char>, ValueView)>::empty());
    } else {
        lemma_roundtrip_attribute(raw, q, path, incl, decode_incl, fields[i].0@);
        lemma_roundtrip_attributes(raw, q, path, incl, decode_incl, fields, i + 1);
        let v = crate::resource::spec_attr_binding(
            raw.kind@,
            q,
            raw.attributes@,
            0,
            fields[i].0@,
            None,
        )->0;
        let rest = Seq::new(
            (fields.len() - (i + 1)) as nat,
            |t: int|
                (
                    fields[i + 1 + t].0@,
                    crate::resource::spec_attr_binding(
                        raw.kind@,
                        q,
                        raw.attributes@,
                        0,
                        fields[i + 1 + t].0@,
                        None,
                    )->0,
                ),
        );
        assert(expected =~= seq![(fields[i].0@, v)] + rest);
    }
}

/// Record round trip: deflating a resource and inflating the rendered
/// object against a record schema that requests, with [`Schema::Any`],
/// member names the rendering binds yields exactly the attribute values
/// the resource supplied, in the schema's order.
pub proof fn lemma_roundtrip_record(
    raw: RawResource,
    q: Option<&Query>,
    path: Seq<Seq<char>>,
    incl: Seq<ObjectView>,
    decode_incl: Seq<ObjectView>,
    s: Schema,
)
    requires
        spec_render_object(raw, q, path, incl) is Ok,
        s is Rec,
        s->Rec_1 is Ignore,
        forall|j: int| #![trigger s->Rec_0@[j]]
            0 <= j < s->Rec_0@.len() ==> s->Rec_0@[j].1 is Any && s->Rec_0@[j].0@ != "type"@
                && s->Rec_0@[j].0@ != "id"@ && crate::resource::spec_attr_binding(
                raw.kind@,
                q,
                raw.attributes@,
                0,
                s->Rec_0@[j].0@,
                None,
            ) is Some,
    ensures
        spec_decode_node(
            node_of_object(spec_render_object(raw, q, path, incl)->Ok_0.0),
            decode_incl,
            s,
        ) == Ok::<ValueView, DecodeError>(
            ValueView::Object(
                Seq::new(
                    s->Rec_0@.len(),
                    |t: int|
                        (
                            s->Rec_0@[t].0@,
                            crate::resource::spec_attr_binding(
                                raw.kind@,
                                q,
                                raw.attributes@,
                                0,
                                s->Rec_0@[t].0@,
                                None,
                            )->0,
                        ),
                ),
            ),
        ),
{
    lemma_roundtrip_attributes(raw, q, path, incl, decode_incl, s->Rec_0@, 0);
    let n = node_of_object(spec_render_object(raw, q, path, incl)->Ok_0.0);
    let fields = s->Rec_0@;
    let entries = Seq::new(
        fields.len(),
        |t: int|
            (
                fields[t].0@,
                crate::resource::spec_attr_binding(
                    raw.kind@,
                    q,
                    raw.attributes@,
                    0,
                    fields[t].0@,
                    None,
                )->0,
            ),
    );
    assert(crate::schema::spec_decode_fields(n, decode_incl, fields, 0)->Ok_0 =~= entries);
    assert(spec_decode_node(n, decode_incl, s) == Ok::<ValueView, DecodeError>(
        ValueView::Object(crate::schema::spec_decode_fields(n, decode_incl, fields, 0)->Ok_0),
    ));
    assert(ValueView::Object(crate::schema::spec_decode_fields(n, decode_incl, fields, 0)->Ok_0)
        =~= ValueView::Object(entries));
}

} // verus!
