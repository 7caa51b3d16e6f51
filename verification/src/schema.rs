//! The schema-driven inflate engine.
//!
//! A [`Schema`] is the target shape that drives decoding: it decides which
//! fields are requested of each resource and how their values are
//! interpreted. The engine walks a flattened document and reconstructs a
//! nested [`Value`] tree, resolving relationship identifiers against the
//! included set on demand. Because the schema drives the walk, decoding
//! terminates on every document, cyclic resource graphs included.

use vstd::prelude::*;

use crate::collections::{kseq_first_get, kseq_has_key, KeyMap};
use crate::collections::str_eq;
use crate::cursor::{spec_lookup, DocGraph, Node, NodeView, PrimaryData};
use crate::doc::{Data, DataView, Document, DocumentError, Identifier, ObjectSet};
use crate::key::Key;
use crate::value::{value_view, Value, ValueView};

verus! {

/// What a record schema does with produced fields it does not request:
/// consume and ignore them, or treat them as a structural mismatch.
#[derive(Clone, Copy, Debug, PartialEq, Eq, Structural)]
pub enum Extras {
    /// Unrequested fields are consumed and dropped.
    Ignore,
    /// Every produced field must be requested: requesting fewer fields than
    /// the resource provides is a fatal error.
    Reject,
}

/// A structural decode error. All are fatal: the whole inflate aborts.
#[derive(Clone, Copy, Debug, PartialEq, Eq, Structural)]
pub enum DecodeError {
    /// The schema's shape does not match the produced value.
    TypeMismatch,
    /// The schema requests a field that the resource does not provide.
    MissingField,
    /// The schema stopped before consuming every produced field.
    Unconsumed,
    /// A value was pulled before its field name, or twice.
    MissingValue,
    /// A field was pulled after the cursor was exhausted.
    Exhausted,
}

/// The target shape that drives decoding.
#[derive(Debug)]
pub enum Schema {
    /// Accepts any stored attribute value as it is.
    Any,
    /// A bare string: an attribute string, or a resource decoded as its
    /// `id` alone.
    Str,
    /// Accepts null, and otherwise decodes by the inner schema.
    Opt(Box<Schema>),
    /// A sequence, each element decoded by the inner schema.
    List(Box<Schema>),
    /// A record: the named fields are requested in order, each decoded by
    /// its schema.
    Rec(Vec<(String, Schema)>, Extras),
}

/// Whether a decoded result agrees with its model: same success, same
/// value, same error.
pub open spec fn res_matches(r: Result<Value, DecodeError>, m: Result<ValueView, DecodeError>) -> bool {
    &&& r is Ok <==> m is Ok
    &&& r is Ok ==> r->Ok_0@ == m->Ok_0
    &&& r is Err ==> r->Err_0 == m->Err_0
}

/// Whether the field name at position `i` already appears earlier in the
/// schema's field list.
pub open spec fn name_repeated(fields: Seq<(String, Schema)>, i: int) -> bool {
    exists|j: int| 0 <= j < i && fields[j].0@ == fields[i].0@
}

/// How many distinct field names the schema requests from position `i`
/// on: repeated names consume a produced field only once.
pub open spec fn distinct_names_from(fields: Seq<(String, Schema)>, i: int) -> nat
    decreases fields.len() - i,
{
    if i < 0 || i >= fields.len() {
        0
    } else {
        (if name_repeated(fields, i) {
            0nat
        } else {
            1nat
        }) + distinct_names_from(fields, i + 1)
    }
}

// ---------------------------------------------------------------------------
// The model of decoding
// ---------------------------------------------------------------------------

/// The value a node decodes to under a schema.
pub open spec fn spec_decode_node(n: NodeView, incl: Seq<crate::doc::ObjectView>, s: Schema) -> Result<
    ValueView,
    DecodeError,
>
    decreases s, 0int, 0int,
{
    match s {
        Schema::Any => Err(DecodeError::TypeMismatch),
        Schema::Str => match n.id {
            Some(id) => Ok(ValueView::String(id)),
            None => Err(DecodeError::TypeMismatch),
        },
        Schema::Opt(sub) => spec_decode_node(n, incl, *sub),
        Schema::List(_) => Err(DecodeError::TypeMismatch),
        Schema::Rec(_, _) => match spec_decode_fields(n, incl, s->Rec_0@, 0) {
            Err(e) => Err(e),
            Ok(entries) => if s->Rec_1 is Reject && distinct_names_from(s->Rec_0@, 0)
                < n.spec_produced() {
                Err(DecodeError::Unconsumed)
            } else {
                Ok(ValueView::Object(entries))
            },
        },
    }
}

/// The entries a record schema's fields decode to against a node, from
/// position `i` on.
pub open spec fn spec_decode_fields(
    n: NodeView,
    incl: Seq<crate::doc::ObjectView>,
    fields: Seq<(String, Schema)>,
    i: int,
) -> Result<Seq<(Seq<char>, ValueView)>, DecodeError>
    decreases fields, 1int, fields.len() - i,
{
    if i < 0 || i >= fields.len() {
        Ok(Seq::empty())
    } else {
        match spec_decode_field(n, incl, fields[i].0@, fields[i].1) {
            Err(e) => Err(e),
            Ok(v) => match spec_decode_fields(n, incl, fields, i + 1) {
                Err(e) => Err(e),
                Ok(rest) => Ok(seq![(fields[i].0@, v)] + rest),
            },
        }
    }
}

/// The value one requested field decodes to: `type` and `id` are produced
/// first, then attributes, then relationships whose linkage is present; a
/// relationship target is resolved against the included set.
pub open spec fn spec_decode_field(
    n: NodeView,
    incl: Seq<crate::doc::ObjectView>,
    name: Seq<char>,
    s: Schema,
) -> Result<ValueView, DecodeError>
    decreases s, 0int, 2int,
{
    if name == "type"@ {
        match s {
            Schema::Any => Ok(ValueView::String(n.kind)),
            Schema::Str => Ok(ValueView::String(n.kind)),
            Schema::Opt(sub) => spec_decode_field(n, incl, name, *sub),
            _ => Err(DecodeError::TypeMismatch),
        }
    } else if name == "id"@ && n.id is Some {
        match s {
            Schema::Any => Ok(ValueView::String(n.id->0)),
            Schema::Str => Ok(ValueView::String(n.id->0)),
            Schema::Opt(sub) => spec_decode_field(n, incl, name, *sub),
            _ => Err(DecodeError::TypeMismatch),
        }
    } else if n.attributes is Some && kseq_has_key(n.attributes->0, name) {
        spec_decode_value(kseq_first_get(n.attributes->0, name), s)
    } else if n.relationships is Some && kseq_has_key(n.relationships->0, name) && kseq_first_get(
        n.relationships->0,
        name,
    ).data is Some {
        spec_decode_linkage(kseq_first_get(n.relationships->0, name).data->0, incl, s)
    } else {
        Err(DecodeError::MissingField)
    }
}

/// The value a relationship's linkage decodes to: null stays null, a
/// present target is resolved and decoded as a nested resource, and a
/// collection becomes an array of resolved targets.
pub open spec fn spec_decode_linkage(
    d: DataView<crate::doc::IdentifierView>,
    incl: Seq<crate::doc::ObjectView>,
    s: Schema,
) -> Result<ValueView, DecodeError>
    decreases s, 0int, 1int,
{
    match d {
        DataView::Member(None) => match s {
            Schema::Any => Ok(ValueView::Null),
            Schema::Opt(_) => Ok(ValueView::Null),
            _ => Err(DecodeError::TypeMismatch),
        },
        DataView::Member(Some(ident)) => match s {
            Schema::Opt(sub) => spec_decode_node(spec_lookup(ident, incl), incl, *sub),
            Schema::Str => spec_decode_node(spec_lookup(ident, incl), incl, s),
            Schema::Rec(_, _) => spec_decode_node(spec_lookup(ident, incl), incl, s),
            _ => Err(DecodeError::TypeMismatch),
        },
        DataView::Collection(ids) => match s {
            Schema::List(sub) => match spec_decode_idents(ids, incl, *sub, 0) {
                Err(e) => Err(e),
                Ok(items) => Ok(ValueView::Array(items)),
            },
            Schema::Opt(sub) => spec_decode_linkage(d, incl, *sub),
            _ => Err(DecodeError::TypeMismatch),
        },
    }
}

/// The values a collection of identifiers decodes to, each resolved against
/// the included set, from position `j` on.
pub open spec fn spec_decode_idents(
    ids: Seq<crate::doc::IdentifierView>,
    incl: Seq<crate::doc::ObjectView>,
    s: Schema,
    j: int,
) -> Result<Seq<ValueView>, DecodeError>
    decreases s, 1int, ids.len() - j,
{
    if j < 0 || j >= ids.len() {
        Ok(Seq::empty())
    } else {
        match spec_decode_node(spec_lookup(ids[j], incl), incl, s) {
            Err(e) => Err(e),
            Ok(v) => match spec_decode_idents(ids, incl, s, j + 1) {
                Err(e) => Err(e),
                Ok(rest) => Ok(seq![v] + rest),
            },
        }
    }
}

/// The value a stored attribute value decodes to under a schema.
pub open spec fn spec_decode_value(v: ValueView, s: Schema) -> Result<ValueView, DecodeError>
    decreases s, 0int, 0int,
{
    match s {
        Schema::Any => Ok(v),
        Schema::Str => match v {
            ValueView::String(_) => Ok(v),
            _ => Err(DecodeError::TypeMismatch),
        },
        Schema::Opt(sub) => if v is Null {
            Ok(ValueView::Null)
        } else {
            spec_decode_value(v, *sub)
        },
        Schema::List(sub) => match v {
            ValueView::Array(elems) => match spec_decode_elems(elems, *sub, 0) {
                Err(e) => Err(e),
                Ok(items) => Ok(ValueView::Array(items)),
            },
            _ => Err(DecodeError::TypeMismatch),
        },
        Schema::Rec(_, _) => match v {
            ValueView::Object(obj) => match spec_decode_vfields(obj, s->Rec_0@, 0) {
                Err(e) => Err(e),
                Ok(entries) => if s->Rec_1 is Reject && distinct_names_from(s->Rec_0@, 0)
                    < obj.len() {
                    Err(DecodeError::Unconsumed)
                } else {
                    Ok(ValueView::Object(entries))
                },
            },
            _ => Err(DecodeError::TypeMismatch),
        },
    }
}

/// The values the elements of a stored array decode to, from position `j`
/// on.
pub open spec fn spec_decode_elems(elems: Seq<ValueView>, s: Schema, j: int) -> Result<
    Seq<ValueView>,
    DecodeError,
>
    decreases s, 1int, elems.len() - j,
{
    if j < 0 || j >= elems.len() {
        Ok(Seq::empty())
    } else {
        match spec_decode_value(elems[j], s) {
            Err(e) => Err(e),
            Ok(v) => match spec_decode_elems(elems, s, j + 1) {
                Err(e) => Err(e),
                Ok(rest) => Ok(seq![v] + rest),
            },
        }
    }
}

/// The entries a record schema's fields decode to against a stored object
/// value, from position `i` on.
pub open spec fn spec_decode_vfields(
    obj: Seq<(Seq<char>, ValueView)>,
    fields: Seq<(String, Schema)>,
    i: int,
) -> Result<Seq<(Seq<char>, ValueView)>, DecodeError>
    decreases fields, 1int, fields.len() - i,
{
    if i < 0 || i >= fields.len() {
        Ok(Seq::empty())
    } else {
        let m = if kseq_has_key(obj, fields[i].0@) {
            spec_decode_value(kseq_first_get(obj, fields[i].0@), fields[i].1)
        } else {
            Err(DecodeError::MissingField)
        };
        match m {
            Err(e) => Err(e),
            Ok(v) => match spec_decode_vfields(obj, fields, i + 1) {
                Err(e) => Err(e),
                Ok(rest) => Ok(seq![(fields[i].0@, v)] + rest),
            },
        }
    }
}

// ---------------------------------------------------------------------------
// The decoder
// ---------------------------------------------------------------------------

/// How many distinct field names a record schema requests.
fn distinct_names(fields: &Vec<(String, Schema)>) -> (r: usize)
    ensures
        r == distinct_names_from(fields@, 0),
        r <= fields@.len(),
{
    let mut count: usize = 0;
    let mut i: usize = 0;
    while i < fields.len()
        invariant
            0 <= i <= fields@.len(),
            count + distinct_names_from(fields@, i as int) == distinct_names_from(fields@, 0),
            count <= i,
        decreases fields@.len() - i,
    {
        let mut repeated = false;
        let mut j: usize = 0;
        while j < i
            invariant
                0 <= j <= i < fields@.len(),
                repeated ==> name_repeated(fields@, i as int),
                !repeated ==> forall|jj: int| 0 <= jj < j as int ==> fields@[jj].0@ != fields@[
                    i as int
                ].0@,
            decreases i - j,
        {
            if str_eq(fields[j].0.as_str(), fields[i].0.as_str()) {
                proof {
                    assert(fields@[j as int].0@ == fields@[i as int].0@);
                }
                repeated = true;
            }
            j = j + 1;
        }
        if !repeated {
            count = count + 1;
        }
        i = i + 1;
    }
    proof {
        lemma_distinct_names_bound(fields@, 0);
    }
    count
}

/// The distinct-name count never exceeds the number of entries.
proof fn lemma_distinct_names_bound(fields: Seq<(String, Schema)>, i: int)
    ensures
        distinct_names_from(fields, i) <= fields.len(),
        0 <= i <= fields.len() ==> distinct_names_from(fields, i) <= fields.len() - i,
    decreases fields.len() - i,
{
    if 0 <= i < fields.len() {
        lemma_distinct_names_bound(fields, i + 1);
    }
}

/// Decodes a resource node against a schema, resolving relationship targets
/// in `incl`.
pub fn decode_node(node: &Node, incl: &ObjectSet, schema: &Schema) -> (r: Result<
    Value,
    DecodeError,
>)
    requires
        incl.wf(),
    ensures
        res_matches(r, spec_decode_node(node@, incl@, *schema)),
    decreases *schema, 0int, 0int,
{
    match schema {
        Schema::Any => Err(DecodeError::TypeMismatch),
        Schema::Str => match &node.id {
            Some(id) => Ok(Value::String(id.clone())),
            None => Err(DecodeError::TypeMismatch),
        },
        Schema::Opt(sub) => decode_node(node, incl, sub),
        Schema::List(_) => Err(DecodeError::TypeMismatch),
        Schema::Rec(fields, extras) => match decode_fields_from(node, incl, fields, 0) {
            Err(e) => Err(e),
            Ok(entries) => {
                let strict = match extras {
                    Extras::Reject => true,
                    Extras::Ignore => false,
                };
                if strict {
                    let produced = node.produced_wide();
                    if (distinct_names(fields) as u128) < produced {
                        return Err(DecodeError::Unconsumed);
                    }
                }
                let r = Value::Object(KeyMap { entries });
                proof {
                    broadcast use crate::value::lemma_entry_views;

                    let m = spec_decode_fields(node@, incl@, fields@, 0);
                    assert(value_view(r) == ValueView::Object(
                        crate::value::entry_views(r->Object_0.entries@),
                    ));
                    assert(r->Object_0.entries@ == entries@);
                    assert(r@->Object_0 =~= m->Ok_0);
                    assert(r@ =~= ValueView::Object(m->Ok_0));
                }
                Ok(r)
            },
        },
    }
}

/// Decodes the requested fields of a record schema against a node, from
/// position `i` on.
fn decode_fields_from(node: &Node, incl: &ObjectSet, fields: &Vec<(String, Schema)>, i: usize) -> (r:
    Result<Vec<(Key, Value)>, DecodeError>)
    requires
        incl.wf(),
        i <= fields@.len(),
    ensures
        ({
            let m = spec_decode_fields(node@, incl@, fields@, i as int);
            &&& r is Ok <==> m is Ok
            &&& r is Ok ==> r->Ok_0.deep_view() == m->Ok_0
            &&& r is Err ==> r->Err_0 == m->Err_0
        }),
    decreases fields@, 1int, fields@.len() - i,
{
    if i >= fields.len() {
        let r: Vec<(Key, Value)> = Vec::new();
        proof {
            assert(r.deep_view() =~= Seq::<(Seq<char>, ValueView)>::empty());
        }
        return Ok(r);
    }
    let name = &fields[i].0;
    let sub = &fields[i].1;
    match decode_field(node, incl, name.as_str(), sub) {
        Err(e) => Err(e),
        Ok(v) => match decode_fields_from(node, incl, fields, i + 1) {
            Err(e) => Err(e),
            Ok(rest) => {
                let mut out: Vec<(Key, Value)> = rest;
                out.insert(0, (Key::from_raw(name.clone()), v));
                proof {
                    let m = spec_decode_fields(node@, incl@, fields@, i as int);
                    assert(out.deep_view() =~= m->Ok_0);
                }
                Ok(out)
            },
        },
    }
}

/// Decodes one requested field of a node.
fn decode_field(node: &Node, incl: &ObjectSet, name: &str, schema: &Schema) -> (r: Result<
    Value,
    DecodeError,
>)
    requires
        incl.wf(),
    ensures
        res_matches(r, spec_decode_field(node@, incl@, name@, *schema)),
    decreases *schema, 0int, 2int,
{
    if str_eq(name, "type") {
        match schema {
            Schema::Any => Ok(Value::String(node.kind.as_str().to_owned())),
            Schema::Str => Ok(Value::String(node.kind.as_str().to_owned())),
            Schema::Opt(sub) => decode_field(node, incl, name, sub),
            _ => Err(DecodeError::TypeMismatch),
        }
    } else if str_eq(name, "id") && node.id.is_some() {
        let id = match &node.id {
            Some(id) => id,
            None => unreached(),
        };
        match schema {
            Schema::Any => Ok(Value::String(id.clone())),
            Schema::Str => Ok(Value::String(id.clone())),
            Schema::Opt(sub) => decode_field(node, incl, name, sub),
            _ => Err(DecodeError::TypeMismatch),
        }
    } else {
        let attr = match &node.attributes {
            Some(attrs) => attrs.get_str(name),
            None => None,
        };
        match attr {
            Some(value) => decode_value(value, schema),
            None => {
                let linkage = match &node.relationships {
                    Some(rels) => match rels.get_str(name) {
                        Some(rel) => match &rel.data {
                            Some(d) => Some(d),
                            None => None,
                        },
                        None => None,
                    },
                    None => None,
                };
                match linkage {
                    Some(d) => decode_linkage(d, incl, schema),
                    None => Err(DecodeError::MissingField),
                }
            },
        }
    }
}

/// Decodes a relationship's linkage.
fn decode_linkage(d: &Data<Identifier>, incl: &ObjectSet, schema: &Schema) -> (r: Result<
    Value,
    DecodeError,
>)
    requires
        incl.wf(),
    ensures
        res_matches(r, spec_decode_linkage(d@, incl@, *schema)),
    decreases *schema, 0int, 1int,
{
    match d {
        Data::Member(None) => match schema {
            Schema::Any => Ok(Value::Null),
            Schema::Opt(_) => Ok(Value::Null),
            _ => Err(DecodeError::TypeMismatch),
        },
        Data::Member(Some(ident)) => {
            let target = DocGraph::lookup(ident.clone(), incl);
            match schema {
                Schema::Opt(sub) => decode_node(&target.node, incl, sub),
                Schema::Str => decode_node(&target.node, incl, schema),
                Schema::Rec(_, _) => decode_node(&target.node, incl, schema),
                _ => Err(DecodeError::TypeMismatch),
            }
        },
        Data::Collection(ids) => match schema {
            Schema::List(sub) => match decode_idents_from(ids, incl, sub, 0) {
                Err(e) => Err(e),
                Ok(items) => {
                    let r = Value::Array(items);
                    proof {
                        broadcast use crate::value::lemma_values_view;

                        let m = spec_decode_idents(ids.deep_view(), incl@, **sub, 0);
                        assert(value_view(r) == ValueView::Array(
                            crate::value::values_view(r->Array_0@),
                        ));
                        assert(r->Array_0@ == items@);
                        assert(r@->Array_0 =~= m->Ok_0);
                        assert(r@ =~= ValueView::Array(m->Ok_0));
                    }
                    Ok(r)
                },
            },
            Schema::Opt(sub) => decode_linkage(d, incl, sub),
            _ => Err(DecodeError::TypeMismatch),
        },
    }
}

/// Decodes a collection of relationship targets, from position `j` on.
fn decode_idents_from(ids: &Vec<Identifier>, incl: &ObjectSet, schema: &Schema, j: usize) -> (r:
    Result<Vec<Value>, DecodeError>)
    requires
        incl.wf(),
        j <= ids@.len(),
    ensures
        ({
            let m = spec_decode_idents(ids.deep_view(), incl@, *schema, j as int);
            &&& r is Ok <==> m is Ok
            &&& r is Ok ==> r->Ok_0.deep_view() == m->Ok_0
            &&& r is Err ==> r->Err_0 == m->Err_0
        }),
    decreases *schema, 1int, ids@.len() - j,
{
    if j >= ids.len() {
        let r: Vec<Value> = Vec::new();
        proof {
            assert(r.deep_view() =~= Seq::<ValueView>::empty());
        }
        return Ok(r);
    }
    let target = DocGraph::lookup(ids[j].clone(), incl);
    match decode_node(&target.node, incl, schema) {
        Err(e) => Err(e),
        Ok(v) => match decode_idents_from(ids, incl, schema, j + 1) {
            Err(e) => Err(e),
            Ok(rest) => {
                let mut out: Vec<Value> = rest;
                out.insert(0, v);
                proof {
                    let m = spec_decode_idents(ids.deep_view(), incl@, *schema, j as int);
                    assert(out.deep_view() =~= m->Ok_0);
                }
                Ok(out)
            },
        },
    }
}

/// Decodes a stored attribute value against a schema.
pub fn decode_value(value: &Value, schema: &Schema) -> (r: Result<Value, DecodeError>)
    ensures
        res_matches(r, spec_decode_value(value@, *schema)),
    decreases *schema, 0int, 0int,
{
    match schema {
        Schema::Any => Ok(value.clone()),
        Schema::Str => match value {
            Value::String(_) => Ok(value.clone()),
            _ => Err(DecodeError::TypeMismatch),
        },
        Schema::Opt(sub) => {
            if value.is_null() {
                Ok(Value::Null)
            } else {
                decode_value(value, sub)
            }
        },
        Schema::List(sub) => match value {
            Value::Array(elems) => match decode_elems_from(elems, sub, 0) {
                Err(e) => {
                    let r: Result<Value, DecodeError> = Err(e);
                    proof {
                        broadcast use crate::value::lemma_values_view;

                        assert(value_view(*value) == ValueView::Array(
                            crate::value::values_view((*value)->Array_0@),
                        ));
                        assert(value@->Array_0 =~= elems.deep_view());
                        assert(res_matches(r, spec_decode_value(value@, *schema)));
                    }
                    r
                },
                Ok(items) => {
                    let r = Value::Array(items);
                    proof {
                        broadcast use crate::value::lemma_values_view;

                        let m = spec_decode_elems(elems.deep_view(), **sub, 0);
                        assert(value_view(*value) == ValueView::Array(
                            crate::value::values_view((*value)->Array_0@),
                        ));
                        assert(value@->Array_0 =~= elems.deep_view());
                        assert(value_view(r) == ValueView::Array(
                            crate::value::values_view(r->Array_0@),
                        ));
                        assert(r->Array_0@ == items@);
                        assert(r@->Array_0 =~= m->Ok_0);
                        assert(r@ =~= ValueView::Array(m->Ok_0));
                    }
                    Ok(r)
                },
            },
            _ => Err(DecodeError::TypeMismatch),
        },
        Schema::Rec(fields, extras) => match value {
            Value::Object(obj) => {
                proof {
                    broadcast use crate::value::lemma_entry_views;

                    assert(value_view(*value) == ValueView::Object(
                        crate::value::entry_views((*value)->Object_0.entries@),
                    ));
                    assert(value@->Object_0 =~= obj.deep_view());
                }
                match decode_vfields_from(obj, fields, 0) {
                    Err(e) => Err(e),
                    Ok(entries) => {
                        let strict = match extras {
                            Extras::Reject => true,
                            Extras::Ignore => false,
                        };
                        if strict && distinct_names(fields) < obj.len() {
                            return Err(DecodeError::Unconsumed);
                        }
                        let r = Value::Object(KeyMap { entries });
                        proof {
                            broadcast use crate::value::lemma_entry_views;

                            let m = spec_decode_vfields(obj.deep_view(), fields@, 0);
                            assert(value_view(r) == ValueView::Object(
                                crate::value::entry_views(r->Object_0.entries@),
                            ));
                            assert(r->Object_0.entries@ == entries@);
                            assert(r@->Object_0 =~= m->Ok_0);
                            assert(r@ =~= ValueView::Object(m->Ok_0));
                        }
                        Ok(r)
                    },
                }
            },
            _ => Err(DecodeError::TypeMismatch),
        },
    }
}

/// Decodes the elements of a stored array, from position `j` on.
fn decode_elems_from(elems: &Vec<Value>, schema: &Schema, j: usize) -> (r: Result<
    Vec<Value>,
    DecodeError,
>)
    requires
        j <= elems@.len(),
    ensures
        ({
            let m = spec_decode_elems(elems.deep_view(), *schema, j as int);
            &&& r is Ok <==> m is Ok
            &&& r is Ok ==> r->Ok_0.deep_view() == m->Ok_0
            &&& r is Err ==> r->Err_0 == m->Err_0
        }),
    decreases *schema, 1int, elems@.len() - j,
{
    if j >= elems.len() {
        let r: Vec<Value> = Vec::new();
        proof {
            assert(r.deep_view() =~= Seq::<ValueView>::empty());
        }
        return Ok(r);
    }
    match decode_value(&elems[j], schema) {
        Err(e) => Err(e),
        Ok(v) => match decode_elems_from(elems, schema, j + 1) {
            Err(e) => Err(e),
            Ok(rest) => {
                let mut out: Vec<Value> = rest;
                out.insert(0, v);
                proof {
                    let m = spec_decode_elems(elems.deep_view(), *schema, j as int);
                    assert(out.deep_view() =~= m->Ok_0);
                }
                Ok(out)
            },
        },
    }
}

/// Decodes the requested fields of a record schema against a stored object
/// value, from position `i` on.
fn decode_vfields_from(obj: &KeyMap<Value>, fields: &Vec<(String, Schema)>, i: usize) -> (r: Result<
    Vec<(Key, Value)>,
    DecodeError,
>)
    requires
        i <= fields@.len(),
    ensures
        ({
            let m = spec_decode_vfields(obj.deep_view(), fields@, i as int);
            &&& r is Ok <==> m is Ok
            &&& r is Ok ==> r->Ok_0.deep_view() == m->Ok_0
            &&& r is Err ==> r->Err_0 == m->Err_0
        }),
    decreases fields@, 1int, fields@.len() - i,
{
    if i >= fields.len() {
        let r: Vec<(Key, Value)> = Vec::new();
        proof {
            assert(r.deep_view() =~= Seq::<(Seq<char>, ValueView)>::empty());
        }
        return Ok(r);
    }
    let name = &fields[i].0;
    let sub = &fields[i].1;
    let m = match obj.get_str(name.as_str()) {
        Some(value) => decode_value(value, sub),
        None => Err(DecodeError::MissingField),
    };
    match m {
        Err(e) => Err(e),
        Ok(v) => match decode_vfields_from(obj, fields, i + 1) {
            Err(e) => Err(e),
            Ok(rest) => {
                let mut out: Vec<(Key, Value)> = rest;
                out.insert(0, (Key::from_raw(name.clone()), v));
                proof {
                    let sm = spec_decode_vfields(obj.deep_view(), fields@, i as int);
                    assert(out.deep_view() =~= sm->Ok_0);
                }
                Ok(out)
            },
        },
    }
}

} // verus!

verus! {

/// The error returned when a document cannot be interpreted against a
/// target schema.
#[derive(Debug)]
pub enum ParseDocumentError {
    /// The document's shape does not match the schema.
    Decode(DecodeError),
    /// The document is an error document; its errors are returned.
    Document(DocumentError),
}

/// The value a null primary datum decodes to.
pub open spec fn spec_decode_absent(s: Schema) -> Result<ValueView, DecodeError>
    decreases s,
{
    match s {
        Schema::Any => Ok(ValueView::Null),
        Schema::Opt(_) => Ok(ValueView::Null),
        _ => Err(DecodeError::TypeMismatch),
    }
}

/// The values a document's primary collection decodes to, from position
/// `j` on.
pub open spec fn spec_decode_items<T: PrimaryData>(
    items: Seq<T>,
    incl: Seq<crate::doc::ObjectView>,
    s: Schema,
    j: int,
) -> Result<Seq<ValueView>, DecodeError>
    decreases s, 1int, items.len() - j,
{
    if j < 0 || j >= items.len() {
        Ok(Seq::empty())
    } else {
        match spec_decode_node(items[j].node_view(), incl, s) {
            Err(e) => Err(e),
            Ok(v) => match spec_decode_items(items, incl, s, j + 1) {
                Err(e) => Err(e),
                Ok(rest) => Ok(seq![v] + rest),
            },
        }
    }
}

/// The value a document's primary data decodes to under a schema: a single
/// resource is decoded as a node, an absent one as null, and a collection
/// as an array whose elements the schema's element shape decodes.
pub open spec fn spec_from_doc<T: PrimaryData>(
    data: Data<T>,
    incl: Seq<crate::doc::ObjectView>,
    s: Schema,
) -> Result<ValueView, DecodeError> {
    match data {
        Data::Member(None) => spec_decode_absent(s),
        Data::Member(Some(item)) => spec_decode_node(item.node_view(), incl, s),
        Data::Collection(items) => match s {
            Schema::List(sub) => match spec_decode_items(items@, incl, *sub, 0) {
                Err(e) => Err(e),
                Ok(vs) => Ok(ValueView::Array(vs)),
            },
            _ => Err(DecodeError::TypeMismatch),
        },
    }
}

/// Decodes a document's primary collection, from the front.
fn decode_items<T: PrimaryData>(items: Vec<T>, incl: &ObjectSet, schema: &Schema) -> (r: Result<
    Vec<Value>,
    DecodeError,
>)
    requires
        incl.wf(),
    ensures
        ({
            let m = spec_decode_items(items@, incl@, *schema, 0);
            &&& r is Ok <==> m is Ok
            &&& r is Ok ==> r->Ok_0.deep_view() == m->Ok_0
            &&& r is Err ==> r->Err_0 == m->Err_0
        }),
    decreases *schema, 1int, items@.len(),
{
    let mut items = items;
    if items.len() == 0 {
        let r: Vec<Value> = Vec::new();
        proof {
            assert(r.deep_view() =~= Seq::<ValueView>::empty());
        }
        return Ok(r);
    }
    let ghost before = items@;
    let head = items.remove(0);
    proof {
        assert(items@ =~= before.subrange(1, before.len() as int));
        assert(before[0] == head);
    }
    proof {
        lemma_decode_items_shift(before, incl@, *schema);
    }
    let node = head.into_node();
    match decode_node(&node, incl, schema) {
        Err(e) => Err(e),
        Ok(v) => match decode_items(items, incl, schema) {
            Err(e) => Err(e),
            Ok(rest) => {
                let mut out: Vec<Value> = rest;
                out.insert(0, v);
                proof {
                    let m = spec_decode_items(before, incl@, *schema, 0);
                    assert(out.deep_view() =~= m->Ok_0);
                }
                Ok(out)
            },
        },
    }
}

/// Decoding a non-empty collection decodes its head and then its tail.
proof fn lemma_decode_items_shift<T: PrimaryData>(
    items: Seq<T>,
    incl: Seq<crate::doc::ObjectView>,
    s: Schema,
)
    requires
        items.len() > 0,
    ensures
        spec_decode_items(items, incl, s, 0) == (match spec_decode_node(
            items[0].node_view(),
            incl,
            s,
        ) {
            Err(e) => Err(e),
            Ok(v) => match spec_decode_items(items.subrange(1, items.len() as int), incl, s, 0) {
                Err(e) => Err(e),
                Ok(rest) => Ok(seq![v] + rest),
            },
        }),
{
    let tail = items.subrange(1, items.len() as int);
    lemma_decode_items_index(items, incl, s, 1, tail, 0);
}

/// Decoding from position `i` of a sequence equals decoding its
/// corresponding suffix from the front.
proof fn lemma_decode_items_index<T: PrimaryData>(
    items: Seq<T>,
    incl: Seq<crate::doc::ObjectView>,
    s: Schema,
    i: int,
    tail: Seq<T>,
    j: int,
)
    requires
        0 <= i <= items.len(),
        0 <= j <= tail.len(),
        items.len() - i == tail.len() - j,
        forall|k: int| 0 <= k < items.len() - i ==> #[trigger] items[i + k] == tail[j + k],
    ensures
        spec_decode_items(items, incl, s, i) == spec_decode_items(tail, incl, s, j),
    decreases items.len() - i,
{
    if i < items.len() {
        assert(items[i + 0] == tail[j + 0]);
        assert forall|k: int| 0 <= k < items.len() - (i + 1) implies #[trigger] items[(i + 1) + k]
            == tail[(j + 1) + k] by {
            assert(items[i + (k + 1)] == tail[j + (k + 1)]);
        }
        lemma_decode_items_index(items, incl, s, i + 1, tail, j + 1);
    }
}

/// Interprets a document's primary data against a target schema, resolving
/// relationship references against the document's included set.
///
/// An error document is returned as [`ParseDocumentError::Document`]; any
/// structural mismatch between the schema and the data aborts the whole
/// decode with [`ParseDocumentError::Decode`].
pub fn from_doc<T: PrimaryData>(doc: Document<T>, schema: &Schema) -> (r: Result<
    Value,
    ParseDocumentError,
>)
    requires
        doc is Content ==> doc->Content_included.wf(),
    ensures
        doc is Errors ==> r is Err && r->Err_0 is Document,
        doc is Errors ==> r->Err_0->Document_0@ == doc->Errors_0@,
        doc is Content ==> ({
            let m = spec_from_doc(doc->Content_data, doc->Content_included@, *schema);
            &&& r is Ok <==> m is Ok
            &&& r is Ok ==> r->Ok_0@ == m->Ok_0
            &&& r is Err ==> r->Err_0 is Decode && r->Err_0->Decode_0 == m->Err_0
        }),
{
    match doc {
        Document::Errors(e) => Err(ParseDocumentError::Document(e)),
        Document::Content { data, included, .. } => match data {
            Data::Member(None) => {
                let m = match schema {
                    Schema::Any => Ok(Value::Null),
                    Schema::Opt(_) => Ok(Value::Null),
                    _ => Err(DecodeError::TypeMismatch),
                };
                match m {
                    Ok(v) => Ok(v),
                    Err(e) => Err(ParseDocumentError::Decode(e)),
                }
            },
            Data::Member(Some(item)) => {
                let node = item.into_node();
                match decode_node(&node, &included, schema) {
                    Ok(v) => Ok(v),
                    Err(e) => Err(ParseDocumentError::Decode(e)),
                }
            },
            Data::Collection(items) => match schema {
                Schema::List(sub) => match decode_items(items, &included, sub) {
                    Ok(vs) => {
                        let r = Value::Array(vs);
                        proof {
                            broadcast use crate::value::lemma_values_view;

                            assert(value_view(r) == ValueView::Array(
                                crate::value::values_view(r->Array_0@),
                            ));
                            assert(r@->Array_0 =~= vs.deep_view());
                        }
                        Ok(r)
                    },
                    Err(e) => Err(ParseDocumentError::Decode(e)),
                },
                _ => Err(ParseDocumentError::Decode(DecodeError::TypeMismatch)),
            },
        },
    }
}

} // verus!
