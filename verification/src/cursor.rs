//! The pull-based graph cursor that the inflate engine walks.
//!
//! A resource or identifier appearing in a document's primary data is
//! modeled as a [`Node`]: its type, its optional `id`, and optionally its
//! attributes and relationships. A [`DocGraph`] pairs a node with the
//! document's included set, against which relationship identifiers are
//! resolved on demand; an identifier that is absent from the included set
//! resolves to a stub node that exposes only `type` and `id`.

use vstd::prelude::*;

use crate::doc::{
    oseq_has, oseq_index_of, Identifier, IdentifierView, NewObject, Object, ObjectSet, ObjectView,
    Relationship, RelationshipView,
};
use crate::key::Key;
use crate::schema::DecodeError;
use crate::value::{Value, ValueView};
use crate::collections::KeyMap;
use crate::doc::Data;

verus! {

/// The model of a [`Node`].
#[verifier::ext_equal]
pub struct NodeView {
    pub kind: Seq<char>,
    pub id: Option<Seq<char>>,
    pub attributes: Option<Seq<(Seq<char>, ValueView)>>,
    pub relationships: Option<Seq<(Seq<char>, RelationshipView)>>,
}

/// What a resource-or-identifier exposes to the pull-based decoder: the
/// type, the optional `id`, and, for fully-rendered resources, the
/// attributes and relationships.
#[derive(Debug)]
pub struct Node {
    /// The resource's type.
    pub kind: Key,
    /// The resource's identifier, when one is known.
    pub id: Option<String>,
    /// The attributes, for a fully-rendered resource.
    pub attributes: Option<KeyMap<Value>>,
    /// The relationships, for a fully-rendered resource.
    pub relationships: Option<KeyMap<Relationship>>,
}

impl View for Node {
    type V = NodeView;

    open spec fn view(&self) -> NodeView {
        NodeView {
            kind: self.kind@,
            id: self.id.deep_view(),
            attributes: self.attributes.deep_view(),
            relationships: self.relationships.deep_view(),
        }
    }
}

/// The number of relationships at or after position `i` whose linkage is
/// present.
pub open spec fn count_present_from(rels: Seq<(Seq<char>, RelationshipView)>, i: int) -> nat
    decreases rels.len() - i,
{
    if i < 0 || i >= rels.len() {
        0
    } else {
        (if rels[i].1.data is Some {
            1nat
        } else {
            0nat
        }) + count_present_from(rels, i + 1)
    }
}

impl NodeView {
    /// How many fields the node produces under the pull protocol: `type`,
    /// then `id` when present, then every attribute, then every
    /// relationship whose linkage is present.
    pub open spec fn spec_produced(self) -> nat {
        1 + (if self.id is Some {
            1nat
        } else {
            0nat
        }) + (match self.attributes {
            Some(attrs) => attrs.len(),
            None => 0,
        }) + (match self.relationships {
            Some(rels) => count_present_from(rels, 0),
            None => 0,
        })
    }

    /// Whether the node's maps hold each member name at most once.
    pub open spec fn wf(self) -> bool {
        &&& match self.attributes {
            Some(attrs) => crate::collections::kseq_wf(attrs),
            None => true,
        }
        &&& match self.relationships {
            Some(rels) => crate::collections::kseq_wf(rels),
            None => true,
        }
    }
}

/// The node that an identifier resolves to against an included set: the
/// fully-rendered object with its identity when one is present, and a stub
/// exposing only `type` and `id` otherwise.
pub open spec fn spec_lookup(ident: IdentifierView, incl: Seq<ObjectView>) -> NodeView {
    if oseq_has(incl, ident.identity()) {
        let o = incl[oseq_index_of(incl, ident.identity())];
        NodeView {
            kind: o.kind,
            id: Some(o.id),
            attributes: Some(o.attributes),
            relationships: Some(o.relationships),
        }
    } else {
        NodeView { kind: ident.kind, id: Some(ident.id), attributes: None, relationships: None }
    }
}

/// A marker trait for the types that can be the primary data of a document:
/// identifiers, resource objects, and client-created resource objects.
pub trait PrimaryData: crate::Sealed + Sized {
    /// The node the value exposes to the pull-based decoder.
    spec fn node_view(&self) -> NodeView;

    /// Turns the value into the node the decoder walks.
    fn into_node(self) -> (r: Node)
        ensures
            r@ == self.node_view(),
    ;
}

impl PrimaryData for Identifier {
    /// An identifier exposes its type and id; its meta information is not
    /// part of the pull protocol.
    open spec fn node_view(&self) -> NodeView {
        NodeView { kind: self.kind@, id: Some(self.id@), attributes: None, relationships: None }
    }

    fn into_node(self) -> (r: Node) {
        let r = Node { kind: self.kind, id: Some(self.id), attributes: None, relationships: None };
        proof {
            assert(r@ =~= self.node_view());
        }
        r
    }
}

impl PrimaryData for Object {
    /// An object exposes its type, id, attributes and relationships; its
    /// links and meta information are not part of the pull protocol.
    open spec fn node_view(&self) -> NodeView {
        NodeView {
            kind: self.kind@,
            id: Some(self.id@),
            attributes: Some(self.attributes@),
            relationships: Some(self.relationships@),
        }
    }

    fn into_node(self) -> (r: Node) {
        let r = Node {
            kind: self.kind,
            id: Some(self.id),
            attributes: Some(self.attributes),
            relationships: Some(self.relationships),
        };
        proof {
            assert(r@ =~= self.node_view());
        }
        r
    }
}

impl PrimaryData for NewObject {
    /// A client-created object exposes its type, its id when one was
    /// assigned, and its attributes and relationships.
    open spec fn node_view(&self) -> NodeView {
        NodeView {
            kind: self.kind@,
            id: self.id.deep_view(),
            attributes: Some(self.attributes@),
            relationships: Some(self.relationships@),
        }
    }

    fn into_node(self) -> (r: Node) {
        let r = Node {
            kind: self.kind,
            id: self.id,
            attributes: Some(self.attributes),
            relationships: Some(self.relationships),
        };
        proof {
            assert(r@ =~= self.node_view());
        }
        r
    }
}

/// A node paired with the included set that its relationship identifiers
/// resolve against.
pub struct DocGraph<'a> {
    /// The node being decoded.
    pub node: Node,
    /// The document's included resources, shared read-only across the whole
    /// walk.
    pub included: &'a ObjectSet,
}

impl<'a> DocGraph<'a> {
    /// A cursor over a bare identifier.
    pub fn id(id: Identifier, included: &'a ObjectSet) -> (r: DocGraph<'a>)
        ensures
            r.node@ == id.node_view(),
            r.included == included,
    {
        DocGraph { node: id.into_node(), included }
    }

    /// A cursor over a fully-rendered resource object.
    pub fn object(object: Object, included: &'a ObjectSet) -> (r: DocGraph<'a>)
        ensures
            r.node@ == object.node_view(),
            r.included == included,
    {
        DocGraph { node: object.into_node(), included }
    }

    /// A cursor over a client-created resource object.
    pub fn new_object(object: NewObject, included: &'a ObjectSet) -> (r: DocGraph<'a>)
        ensures
            r.node@ == object.node_view(),
            r.included == included,
    {
        DocGraph { node: object.into_node(), included }
    }

    /// Resolves an identifier against the included set: the full object
    /// when its identity is present, a stub exposing only `type` and `id`
    /// otherwise.
    pub fn lookup(id: Identifier, included: &'a ObjectSet) -> (r: DocGraph<'a>)
        requires
            included.wf(),
        ensures
            r.node@ == spec_lookup(id@, included@),
            r.included == included,
    {
        match included.find(&id.kind, id.id.as_str()) {
            Some(found) => {
                let object = found.clone();
                let r = DocGraph {
                    node: Node {
                        kind: object.kind,
                        id: Some(object.id),
                        attributes: Some(object.attributes),
                        relationships: Some(object.relationships),
                    },
                    included,
                };
                proof {
                    assert(r.node@ =~= spec_lookup(id@, included@));
                }
                r
            },
            None => {
                let r = DocGraph { node: id.into_node(), included };
                proof {
                    assert(r.node@ =~= spec_lookup(id@, included@));
                }
                r
            },
        }
    }

    /// The number of fields the cursor will produce.
    pub fn len(&self) -> (r: usize)
        requires
            self.node@.spec_produced() <= usize::MAX,
        ensures
            r == self.node@.spec_produced(),
    {
        self.node.produced()
    }
}

/// The number of relationships in the map whose linkage is present.
pub(crate) fn count_present(rels: &KeyMap<Relationship>) -> (r: usize)
    ensures
        r == count_present_from(rels.deep_view(), 0),
        r <= rels.deep_view().len(),
{
    count_present_suffix(rels, 0)
}

impl Node {
    /// The number of fields the node produces under the pull protocol.
    pub fn produced(&self) -> (r: usize)
        requires
            self@.spec_produced() <= usize::MAX,
        ensures
            r == self@.spec_produced(),
    {
        let mut total: usize = 1;
        if self.id.is_some() {
            total = total + 1;
        }
        if let Some(attrs) = &self.attributes {
            total = total + attrs.len();
        }
        if let Some(rels) = &self.relationships {
            proof {
                assert(self@.relationships->0 == rels.deep_view());
            }
            let count = count_present(rels);
            total = total + count;
        }
        total
    }

    /// The number of fields the node produces, in an integer wide enough
    /// that the count always fits.
    pub fn produced_wide(&self) -> (r: u128)
        ensures
            r == self@.spec_produced(),
    {
        let mut total: u128 = 1;
        if self.id.is_some() {
            total = total + 1;
        }
        if let Some(attrs) = &self.attributes {
            total = total + attrs.len() as u128;
        }
        if let Some(rels) = &self.relationships {
            proof {
                assert(self@.relationships->0 == rels.deep_view());
            }
            let count = count_present(rels);
            total = total + count as u128;
        }
        total
    }
}

/// The count of present relationships never exceeds the number of entries
/// left.
pub proof fn lemma_count_present_bound(rels: Seq<(Seq<char>, RelationshipView)>, i: int)
    ensures
        count_present_from(rels, i) <= rels.len(),
        0 <= i <= rels.len() ==> count_present_from(rels, i) <= rels.len() - i,
    decreases rels.len() - i,
{
    if 0 <= i < rels.len() {
        lemma_count_present_bound(rels, i + 1);
    }
}

/// Counting from an earlier position counts at least as much.
pub proof fn lemma_count_present_split(rels: Seq<(Seq<char>, RelationshipView)>, i: int, j: int)
    requires
        0 <= i <= j <= rels.len(),
    ensures
        count_present_from(rels, i) >= count_present_from(rels, j),
    decreases j - i,
{
    if i < j {
        lemma_count_present_split(rels, i + 1, j);
    }
}

} // verus!

verus! {

/// The model of a [`Pulled`] value.
#[verifier::ext_equal]
pub enum PulledView {
    /// The resource's type, for the `type` field.
    Kind(Seq<char>),
    /// The resource's id, for the `id` field.
    Id(Seq<char>),
    /// A stored attribute value.
    Attr(ValueView),
    /// A to-one relationship target, to be resolved against the included
    /// set.
    RelOne(Option<IdentifierView>),
    /// A to-many relationship's targets, each to be resolved against the
    /// included set.
    RelMany(Seq<IdentifierView>),
}

/// What one pull of a field's value yields.
#[derive(Debug)]
pub enum Pulled {
    /// The resource's type, for the `type` field.
    Kind(Key),
    /// The resource's id, for the `id` field.
    Id(String),
    /// A stored attribute value.
    Attr(Value),
    /// A to-one relationship target, to be resolved against the included
    /// set.
    RelOne(Option<Identifier>),
    /// A to-many relationship's targets, each to be resolved against the
    /// included set.
    RelMany(Vec<Identifier>),
}

impl View for Pulled {
    type V = PulledView;

    open spec fn view(&self) -> PulledView {
        match self {
            Pulled::Kind(k) => PulledView::Kind(k@),
            Pulled::Id(s) => PulledView::Id(s@),
            Pulled::Attr(v) => PulledView::Attr(v@),
            Pulled::RelOne(o) => PulledView::RelOne(o.deep_view()),
            Pulled::RelMany(ids) => PulledView::RelMany(ids.deep_view()),
        }
    }
}

/// The internal state of the pull-based cursor:
/// `Kind → Id → Attributes → Relationships → Done`, with the position of
/// the field most recently named by [`MapDocGraph::next_key`] staged until
/// [`MapDocGraph::next_value`] takes its value.
#[derive(Debug)]
pub enum DocData {
    /// The `type` field has not been named yet.
    Kind(Key, Option<String>, Option<KeyMap<Value>>, Option<KeyMap<Relationship>>),
    /// The type was consumed; the `id` field has not been named yet.
    Id(String, Option<KeyMap<Value>>, Option<KeyMap<Relationship>>),
    /// Attributes are being walked: the staged position, the map, the next
    /// position, and the relationships still to come.
    Attributes(Option<usize>, KeyMap<Value>, usize, Option<KeyMap<Relationship>>),
    /// Relationships are being walked: the staged position, the map, and
    /// the next position.
    Relationships(Option<usize>, KeyMap<Relationship>, usize),
    /// Every field was produced.
    Done,
}

/// How many naming steps the cursor can still take: every field left plus
/// the entries that will be skipped because their linkage is absent.
pub open spec fn docdata_steps(d: DocData) -> nat {
    match d {
        DocData::Kind(_, id, attrs, rels) => 2 + (match attrs {
            Some(a) => a@.len(),
            None => 0,
        }) + (match rels {
            Some(r) => r@.len(),
            None => 0,
        }),
        DocData::Id(_, attrs, rels) => 1 + (match attrs {
            Some(a) => a@.len(),
            None => 0,
        }) + (match rels {
            Some(r) => r@.len(),
            None => 0,
        }),
        DocData::Attributes(_, attrs, i, rels) => 1 + (if i as int <= attrs@.len() {
            (attrs@.len() - i) as nat
        } else {
            0
        }) + (match rels {
            Some(r) => r@.len(),
            None => 0,
        }),
        DocData::Relationships(_, rels, i) => if i as int <= rels@.len() {
            (rels@.len() - i) as nat
        } else {
            0
        },
        DocData::Done => 0,
    }
}

/// The number of fields the cursor will still produce.
pub open spec fn docdata_len(d: DocData) -> nat {
    match d {
        DocData::Kind(_, id, attrs, rels) => 1 + (if id is Some {
            1nat
        } else {
            0nat
        }) + (match attrs {
            Some(a) => a@.len(),
            None => 0,
        }) + (match rels {
            Some(r) => count_present_from(r.deep_view(), 0),
            None => 0,
        }),
        DocData::Id(_, attrs, rels) => 1 + (match attrs {
            Some(a) => a@.len(),
            None => 0,
        }) + (match rels {
            Some(r) => count_present_from(r.deep_view(), 0),
            None => 0,
        }),
        DocData::Attributes(_, attrs, i, rels) => (if i as int <= attrs@.len() {
            (attrs@.len() - i) as nat
        } else {
            0
        }) + (match rels {
            Some(r) => count_present_from(r.deep_view(), 0),
            None => 0,
        }),
        DocData::Relationships(_, rels, i) => count_present_from(rels.deep_view(), i as int),
        DocData::Done => 0,
    }
}

/// The state and name one naming step yields: the next field name in
/// produced order — `type`, then `id`, then the attributes, then the
/// relationships whose linkage is present — or `None` once every field
/// was named. Entries whose linkage is absent are skipped.
pub open spec fn spec_next_key(d: DocData) -> (DocData, Option<Seq<char>>)
    decreases docdata_steps(d),
{
    match d {
        DocData::Kind(_, _, _, _) => (d, Some("type"@)),
        DocData::Id(_, _, _) => (d, Some("id"@)),
        DocData::Attributes(staged, attrs, i, rels) => if (i as int) < attrs@.len() {
            if i < usize::MAX {
                (
                    DocData::Attributes(Some(i), attrs, (i + 1) as usize, rels),
                    Some(attrs@[i as int].0),
                )
            } else {
                (DocData::Done, None::<Seq<char>>)
            }
        } else {
            match rels {
                Some(r) => spec_next_key(DocData::Relationships(None, r, 0)),
                None => (DocData::Done, None::<Seq<char>>),
            }
        },
        DocData::Relationships(staged, rels, i) => if (i as int) < rels@.len() {
            if i < usize::MAX {
                if rels.entries@[i as int].1.data is Some {
                    (
                        DocData::Relationships(Some(i), rels, (i + 1) as usize),
                        Some(rels@[i as int].0),
                    )
                } else {
                    spec_next_key(DocData::Relationships(None, rels, (i + 1) as usize))
                }
            } else {
                (DocData::Done, None::<Seq<char>>)
            }
        } else {
            (DocData::Done, None::<Seq<char>>)
        },
        DocData::Done => (DocData::Done, None::<Seq<char>>),
    }
}

/// The state and value one value pull yields: the value of the field most
/// recently named, or an error when no value is staged.
pub open spec fn spec_next_value(d: DocData) -> (DocData, Result<PulledView, DecodeError>) {
    match d {
        DocData::Kind(kind, id, attrs, rels) => {
            let next = match id {
                Some(idv) => DocData::Id(idv, attrs, rels),
                None => match attrs {
                    Some(a) => DocData::Attributes(None, a, 0, rels),
                    None => match rels {
                        Some(r) => DocData::Relationships(None, r, 0),
                        None => DocData::Done,
                    },
                },
            };
            (next, Ok(PulledView::Kind(kind@)))
        },
        DocData::Id(idv, attrs, rels) => {
            let next = match attrs {
                Some(a) => DocData::Attributes(None, a, 0, rels),
                None => match rels {
                    Some(r) => DocData::Relationships(None, r, 0),
                    None => DocData::Done,
                },
            };
            (next, Ok(PulledView::Id(idv@)))
        },
        DocData::Attributes(staged, attrs, i, rels) => {
            let next = DocData::Attributes(None, attrs, i, rels);
            match staged {
                Some(idx) => if (idx as int) < attrs@.len() {
                    (next, Ok(PulledView::Attr(attrs@[idx as int].1)))
                } else {
                    (next, Err(DecodeError::MissingValue))
                },
                None => (next, Err(DecodeError::MissingValue)),
            }
        },
        DocData::Relationships(staged, rels, i) => {
            let next = DocData::Relationships(None, rels, i);
            match staged {
                Some(idx) => if (idx as int) < rels@.len() {
                    match rels.entries@[idx as int].1.data {
                        Some(Data::Member(target)) => (
                            next,
                            Ok(PulledView::RelOne(target.deep_view())),
                        ),
                        Some(Data::Collection(ids)) => (
                            next,
                            Ok(PulledView::RelMany(ids.deep_view())),
                        ),
                        None => (next, Err(DecodeError::MissingValue)),
                    }
                } else {
                    (next, Err(DecodeError::MissingValue))
                },
                None => (next, Err(DecodeError::MissingValue)),
            }
        },
        DocData::Done => (DocData::Done, Err(DecodeError::Exhausted)),
    }
}

/// The pull-based cursor over one node: field names and values are pulled
/// one at a time, in produced order, against the document's included set.
pub struct MapDocGraph<'a> {
    /// The cursor's state.
    pub data: DocData,
    /// The document's included resources, shared read-only across the
    /// whole walk.
    pub included: &'a ObjectSet,
}

impl<'a> From<DocGraph<'a>> for MapDocGraph<'a> {
    /// Starts the pull protocol over a graph cursor's node.
    fn from(g: DocGraph<'a>) -> (r: MapDocGraph<'a>) {
        MapDocGraph {
            data: DocData::Kind(g.node.kind, g.node.id, g.node.attributes, g.node.relationships),
            included: g.included,
        }
    }
}

impl<'a> vstd::std_specs::convert::FromSpecImpl<DocGraph<'a>> for MapDocGraph<'a> {
    open spec fn obeys_from_spec() -> bool {
        true
    }

    open spec fn from_spec(g: DocGraph<'a>) -> Self {
        MapDocGraph {
            data: DocData::Kind(g.node.kind, g.node.id, g.node.attributes, g.node.relationships),
            included: g.included,
        }
    }
}

impl<'a> MapDocGraph<'a> {
    /// Names the next produced field, or `None` once every field was
    /// named: `type` first, then `id`, then each attribute in order, then
    /// each relationship whose linkage is present, in order.
    pub fn next_key(&mut self) -> (r: Option<Key>)
        ensures
            final(self).included == old(self).included,
            final(self).data == spec_next_key(old(self).data).0,
            match r {
                Some(k) => spec_next_key(old(self).data).1 == Some(k@),
                None => spec_next_key(old(self).data).1 is None,
            },
        decreases docdata_steps(old(self).data),
    {
        let mut taken = DocData::Done;
        core::mem::swap(&mut taken, &mut self.data);
        match taken {
            DocData::Kind(kind, id, attrs, rels) => {
                self.data = DocData::Kind(kind, id, attrs, rels);
                Some(Key::from_raw(String::from_str("type")))
            },
            DocData::Id(id, attrs, rels) => {
                self.data = DocData::Id(id, attrs, rels);
                Some(Key::from_raw(String::from_str("id")))
            },
            DocData::Attributes(_, attrs, i, rels) => {
                if i < attrs.entries.len() {
                    let k = attrs.entries[i].0.clone();
                    proof {
                        assert(attrs@[i as int].0 == attrs.entries@[i as int].0@);
                    }
                    self.data = DocData::Attributes(Some(i), attrs, i + 1, rels);
                    Some(k)
                } else {
                    match rels {
                        Some(r) => {
                            self.data = DocData::Relationships(None, r, 0);
                            self.next_key()
                        },
                        None => {
                            self.data = DocData::Done;
                            None
                        },
                    }
                }
            },
            DocData::Relationships(_, rels, i) => {
                if i < rels.entries.len() {
                    if rels.entries[i].1.data.is_some() {
                        let k = rels.entries[i].0.clone();
                        proof {
                            assert(rels@[i as int].0 == rels.entries@[i as int].0@);
                        }
                        self.data = DocData::Relationships(Some(i), rels, i + 1);
                        Some(k)
                    } else {
                        self.data = DocData::Relationships(None, rels, i + 1);
                        self.next_key()
                    }
                } else {
                    self.data = DocData::Done;
                    None
                }
            },
            DocData::Done => {
                self.data = DocData::Done;
                None
            },
        }
    }

    /// Pulls the value of the field most recently named. Pulling before
    /// naming a field, or twice, or after exhaustion, is an error.
    pub fn next_value(&mut self) -> (r: Result<Pulled, DecodeError>)
        ensures
            final(self).included == old(self).included,
            final(self).data == spec_next_value(old(self).data).0,
            match r {
                Ok(p) => spec_next_value(old(self).data).1 == Ok::<PulledView, DecodeError>(p@),
                Err(e) => spec_next_value(old(self).data).1 == Err::<PulledView, DecodeError>(e),
            },
    {
        let mut taken = DocData::Done;
        core::mem::swap(&mut taken, &mut self.data);
        match taken {
            DocData::Kind(kind, id, attrs, rels) => {
                match id {
                    Some(idv) => {
                        self.data = DocData::Id(idv, attrs, rels);
                    },
                    None => match attrs {
                        Some(a) => {
                            self.data = DocData::Attributes(None, a, 0, rels);
                        },
                        None => match rels {
                            Some(rmap) => {
                                self.data = DocData::Relationships(None, rmap, 0);
                            },
                            None => {
                                self.data = DocData::Done;
                            },
                        },
                    },
                }
                Ok(Pulled::Kind(kind))
            },
            DocData::Id(idv, attrs, rels) => {
                match attrs {
                    Some(a) => {
                        self.data = DocData::Attributes(None, a, 0, rels);
                    },
                    None => match rels {
                        Some(rmap) => {
                            self.data = DocData::Relationships(None, rmap, 0);
                        },
                        None => {
                            self.data = DocData::Done;
                        },
                    },
                }
                Ok(Pulled::Id(idv))
            },
            DocData::Attributes(staged, attrs, i, rels) => {
                let r = match staged {
                    Some(idx) => if idx < attrs.entries.len() {
                        let v = attrs.entries[idx].1.clone();
                        proof {
                            assert(v@ == attrs@[idx as int].1);
                        }
                        Ok(Pulled::Attr(v))
                    } else {
                        Err(DecodeError::MissingValue)
                    },
                    None => Err(DecodeError::MissingValue),
                };
                self.data = DocData::Attributes(None, attrs, i, rels);
                r
            },
            DocData::Relationships(staged, rels, i) => {
                let r = match staged {
                    Some(idx) => if idx < rels.entries.len() {
                        match &rels.entries[idx].1.data {
                            Some(Data::Member(target)) => {
                                let copy: Option<Identifier> = match target {
                                    Some(ident) => Some(ident.clone()),
                                    None => None,
                                };
                                proof {
                                    assert(copy.deep_view() =~= rels.entries@[idx as int].1.data->0->Member_0.deep_view());
                                }
                                Ok(Pulled::RelOne(copy))
                            },
                            Some(Data::Collection(ids)) => {
                                let mut copies: Vec<Identifier> = Vec::new();
                                let mut j: usize = 0;
                                while j < ids.len()
                                    invariant
                                        0 <= j <= ids@.len(),
                                        copies@.len() == j as int,
                                        forall|a: int| 0 <= a < j as int ==> copies@[a]@ == ids@[a]@,
                                    decreases ids@.len() - j,
                                {
                                    copies.push(ids[j].clone());
                                    j = j + 1;
                                }
                                proof {
                                    assert(copies.deep_view() =~= ids.deep_view());
                                }
                                Ok(Pulled::RelMany(copies))
                            },
                            None => Err(DecodeError::MissingValue),
                        }
                    } else {
                        Err(DecodeError::MissingValue)
                    },
                    None => Err(DecodeError::MissingValue),
                };
                self.data = DocData::Relationships(None, rels, i);
                r
            },
            DocData::Done => {
                self.data = DocData::Done;
                Err(DecodeError::Exhausted)
            },
        }
    }

    /// The number of fields the cursor will still produce.
    pub fn len(&self) -> (r: usize)
        requires
            docdata_len(self.data) <= usize::MAX,
        ensures
            r == docdata_len(self.data),
    {
        match &self.data {
            DocData::Kind(_, id, attrs, rels) => {
                let mut total: usize = 1;
                if id.is_some() {
                    total = total + 1;
                }
                if let Some(a) = attrs {
                    total = total + a.len();
                }
                if let Some(r) = rels {
                    total = total + count_present(r);
                }
                total
            },
            DocData::Id(_, attrs, rels) => {
                let mut total: usize = 1;
                if let Some(a) = attrs {
                    total = total + a.len();
                }
                if let Some(r) = rels {
                    total = total + count_present(r);
                }
                total
            },
            DocData::Attributes(_, attrs, i, rels) => {
                let mut total: usize = if *i <= attrs.entries.len() {
                    attrs.entries.len() - *i
                } else {
                    0
                };
                if let Some(r) = rels {
                    total = total + count_present(r);
                }
                total
            },
            DocData::Relationships(_, rels, i) => count_present_suffix(rels, *i),
            DocData::Done => 0,
        }
    }

    /// The number of fields the cursor will still produce, or `None` once
    /// it is exhausted.
    pub fn size_hint(&self) -> (r: Option<usize>)
        requires
            docdata_len(self.data) <= usize::MAX,
        ensures
            match r {
                Some(n) => !(self.data is Done) && n == docdata_len(self.data),
                None => self.data is Done,
            },
    {
        match &self.data {
            DocData::Done => None,
            _ => Some(self.len()),
        }
    }
}

/// The number of relationships at or after position `i` whose linkage is
/// present.
pub(crate) fn count_present_suffix(rels: &KeyMap<Relationship>, i: usize) -> (r: usize)
    ensures
        r == count_present_from(rels.deep_view(), i as int),
        r <= rels.deep_view().len(),
{
    let ghost rv = rels.deep_view();
    let mut count: usize = 0;
    let mut j: usize = i;
    if j > rels.entries.len() {
        proof {
            assert(count_present_from(rv, i as int) == 0);
        }
        return 0;
    }
    while j < rels.entries.len()
        invariant
            rv == rels.deep_view(),
            rv.len() == rels.entries@.len(),
            i as int <= j as int <= rels.entries@.len(),
            count + count_present_from(rv, j as int) == count_present_from(rv, i as int),
            count <= j - i,
        decreases rels.entries@.len() - j,
    {
        proof {
            assert(rv[j as int] == rels.entries@[j as int].deep_view());
            assert(rv[j as int].1 == rels.entries@[j as int].1.deep_view());
            assert(rv[j as int].1.data is Some <==> rels.entries@[j as int].1.data is Some);
        }
        if rels.entries[j].1.data.is_some() {
            count = count + 1;
        }
        j = j + 1;
    }
    proof {
        assert(count_present_from(rv, rels.entries@.len() as int) == 0);
        lemma_count_present_bound(rv, i as int);
    }
    count
}

} // verus!
