//! Components of a resource document: identifiers, resource objects,
//! relationships, links, and the compound document itself.

use vstd::prelude::*;

use crate::collections::KeyMap;
use crate::collections::str_eq;
use crate::key::Key;
use crate::value::{Value, ValueView};

verus! {

// ---------------------------------------------------------------------------
// Links
// ---------------------------------------------------------------------------

/// Declares `http::uri::InvalidUri`, the error that the URI parser returns,
/// so that resolution errors can carry it.
#[verifier::external_type_specification]
#[verifier::external_body]
pub struct ExInvalidUri(http::uri::InvalidUri);

/// Whether the URI parser of the `http` crate accepts a string. A function
/// of the characters alone.
pub uninterp spec fn uri_accepts(s: Seq<char>) -> bool;

/// Relies on `http::Uri`'s parser (`FromStr`): whether a string is a valid
/// URI depends on its characters alone.
#[verifier::external_body]
pub(crate) fn check_uri(s: &str) -> (r: Result<(), http::uri::InvalidUri>)
    ensures
        r is Ok <==> uri_accepts(s@),
{
    match s.parse::<http::Uri>() {
        Ok(_) => Ok(()),
        Err(e) => Err(e),
    }
}

/// The model of a [`Link`].
#[verifier::ext_equal]
pub struct LinkView {
    pub href: Seq<char>,
    pub meta: Seq<(Seq<char>, ValueView)>,
}

/// A link to a related document or resource: a validated URI together with
/// meta information.
#[derive(Debug)]
pub struct Link {
    /// The link's URI, kept as the string it was parsed from.
    pub href: String,
    /// Non-standard meta information.
    pub meta: KeyMap<Value>,
}

impl View for Link {
    type V = LinkView;

    open spec fn view(&self) -> LinkView {
        LinkView { href: self.href@, meta: self.meta@ }
    }
}

impl DeepView for Link {
    type V = LinkView;

    open spec fn deep_view(&self) -> LinkView {
        self@
    }
}

impl Link {
    /// Parses a link from a string, accepting exactly the strings whose
    /// characters form a URI.
    pub fn parse(href: &str) -> (r: Result<Link, http::uri::InvalidUri>)
        ensures
            r is Ok <==> uri_accepts(href@),
            r is Ok ==> r->Ok_0@ == (LinkView {
                href: href@,
                meta: Seq::<(Seq<char>, ValueView)>::empty(),
            }),
    {
        match check_uri(href) {
            Ok(_) => {
                let r = Link { href: href.to_owned(), meta: KeyMap::new() };
                proof {
                    assert(r@ =~= LinkView {
                        href: href@,
                        meta: Seq::<(Seq<char>, ValueView)>::empty(),
                    });
                }
                Ok(r)
            },
            Err(e) => Err(e),
        }
    }
}

impl Clone for Link {
    fn clone(&self) -> (r: Self)
        ensures
            r@ == self@,
    {
        let r = Link { href: self.href.clone(), meta: clone_value_map(&self.meta) };
        proof {
            assert(r@ =~= self@);
        }
        r
    }
}

/// Duplicates a meta or attribute map, entry by entry.
pub(crate) fn clone_value_map(m: &KeyMap<Value>) -> (r: KeyMap<Value>)
    ensures
        r@ == m@,
{
    let mut entries: Vec<(Key, Value)> = Vec::new();
    let mut i: usize = 0;
    while i < m.entries.len()
        invariant
            0 <= i <= m.entries@.len(),
            entries@.len() == i as int,
            forall|j: int| #![all_triggers]
                0 <= j < i as int ==> entries@[j].0@ == m.entries@[j].0@ && entries@[j].1@
                    == m.entries@[j].1@,
        decreases m.entries@.len() - i,
    {
        let k = m.entries[i].0.clone();
        let v = m.entries[i].1.clone();
        entries.push((k, v));
        i = i + 1;
    }
    let r = KeyMap { entries };
    proof {
        assert(r@ =~= m@);
    }
    r
}

/// Duplicates a link map, entry by entry.
pub(crate) fn clone_link_map(m: &KeyMap<Link>) -> (r: KeyMap<Link>)
    ensures
        r@ == m@,
{
    let mut entries: Vec<(Key, Link)> = Vec::new();
    let mut i: usize = 0;
    while i < m.entries.len()
        invariant
            0 <= i <= m.entries@.len(),
            entries@.len() == i as int,
            forall|j: int| #![all_triggers]
                0 <= j < i as int ==> entries@[j].0@ == m.entries@[j].0@ && entries@[j].1@
                    == m.entries@[j].1@,
        decreases m.entries@.len() - i,
    {
        let k = m.entries[i].0.clone();
        let v = m.entries[i].1.clone();
        entries.push((k, v));
        i = i + 1;
    }
    let r = KeyMap { entries };
    proof {
        assert(r@ =~= m@);
    }
    r
}

// ---------------------------------------------------------------------------
// Identifiers
// ---------------------------------------------------------------------------

/// The model of an [`Identifier`].
#[verifier::ext_equal]
pub struct IdentifierView {
    pub id: Seq<char>,
    pub kind: Seq<char>,
    pub meta: Seq<(Seq<char>, ValueView)>,
}

impl IdentifierView {
    /// The `(type, id)` pair that identifies the resource.
    pub open spec fn identity(self) -> (Seq<char>, Seq<char>) {
        (self.kind, self.id)
    }
}

/// Identifies an individual resource. Commonly found in an object's
/// relationships.
///
/// Identifiers share their equality behavior with [`Object`]: two compare
/// equal exactly when their `(type, id)` pairs agree; `meta` is not part of
/// the identity.
#[derive(Debug)]
pub struct Identifier {
    /// A string that uniquely identifies the resource among those of its
    /// type.
    pub id: String,
    /// Describes resources that share common attributes and relationships.
    pub kind: Key,
    /// Non-standard meta information.
    pub meta: KeyMap<Value>,
}

impl View for Identifier {
    type V = IdentifierView;

    open spec fn view(&self) -> IdentifierView {
        IdentifierView { id: self.id@, kind: self.kind@, meta: self.meta@ }
    }
}

impl DeepView for Identifier {
    type V = IdentifierView;

    open spec fn deep_view(&self) -> IdentifierView {
        self@
    }
}

impl Identifier {
    /// Returns a new `Identifier` with empty meta.
    pub fn new(kind: Key, id: String) -> (r: Self)
        ensures
            r@ == (IdentifierView {
                id: id@,
                kind: kind@,
                meta: Seq::<(Seq<char>, ValueView)>::empty(),
            }),
    {
        let r = Identifier { id, kind, meta: KeyMap::new() };
        proof {
            assert(r@ =~= IdentifierView { id: r.id@, kind: r.kind@, meta: r.meta@ });
        }
        r
    }
}

impl Clone for Identifier {
    fn clone(&self) -> (r: Self)
        ensures
            r@ == self@,
    {
        let r = Identifier {
            id: self.id.clone(),
            kind: self.kind.clone(),
            meta: clone_value_map(&self.meta),
        };
        proof {
            assert(r@ =~= self@);
        }
        r
    }
}

impl PartialEq for Identifier {
    /// Equality compares the `(type, id)` pair only.
    fn eq(&self, rhs: &Identifier) -> (r: bool) {
        self.id == rhs.id && self.kind == rhs.kind
    }
}

impl vstd::std_specs::cmp::PartialEqSpecImpl for Identifier {
    open spec fn obeys_eq_spec() -> bool {
        true
    }

    open spec fn eq_spec(&self, rhs: &Identifier) -> bool {
        self@.identity() == rhs@.identity()
    }
}

impl crate::Sealed for Identifier {}

// ---------------------------------------------------------------------------
// Primary data cardinality
// ---------------------------------------------------------------------------

/// The model of [`Data`].
#[verifier::ext_equal]
pub enum DataView<T> {
    /// A collection of resources.
    Collection(Seq<T>),
    /// A single, possibly absent resource.
    Member(Option<T>),
}

/// Describes the data of a document or resource linkage.
///
/// The cardinality distinction is structural: it determines whether the wire
/// form is a single object or null, or an array.
#[derive(Debug)]
pub enum Data<T> {
    /// A collection of `T`. Used for requests that target resource
    /// collections.
    Collection(Vec<T>),
    /// An optional `T`. Used for requests that target single resources.
    Member(Option<T>),
}

impl<T: DeepView> View for Data<T> {
    type V = DataView<<T as DeepView>::V>;

    open spec fn view(&self) -> DataView<<T as DeepView>::V> {
        match self {
            Data::Collection(items) => DataView::Collection(items.deep_view()),
            Data::Member(item) => DataView::Member(item.deep_view()),
        }
    }
}

impl<T: DeepView> DeepView for Data<T> {
    type V = DataView<<T as DeepView>::V>;

    open spec fn deep_view(&self) -> DataView<<T as DeepView>::V> {
        self@
    }
}

impl<T: DeepView> From<Option<T>> for Data<T> {
    fn from(value: Option<T>) -> (r: Self) {
        Data::Member(value)
    }
}

impl<T: DeepView> vstd::std_specs::convert::FromSpecImpl<Option<T>> for Data<T> {
    open spec fn obeys_from_spec() -> bool {
        true
    }

    open spec fn from_spec(value: Option<T>) -> Self {
        Data::Member(value)
    }
}

impl<T: DeepView> From<Vec<T>> for Data<T> {
    fn from(value: Vec<T>) -> (r: Self) {
        Data::Collection(value)
    }
}

impl<T: DeepView> vstd::std_specs::convert::FromSpecImpl<Vec<T>> for Data<T> {
    open spec fn obeys_from_spec() -> bool {
        true
    }

    open spec fn from_spec(value: Vec<T>) -> Self {
        Data::Collection(value)
    }
}

impl Clone for Data<Identifier> {
    fn clone(&self) -> (r: Self)
        ensures
            r@ == self@,
    {
        match self {
            Data::Collection(items) => {
                let mut out: Vec<Identifier> = Vec::new();
                let mut i: usize = 0;
                while i < items.len()
                    invariant
                        0 <= i <= items@.len(),
                        out@.len() == i as int,
                        forall|j: int| 0 <= j < i as int ==> out@[j]@ == items@[j]@,
                    decreases items@.len() - i,
                {
                    out.push(items[i].clone());
                    i = i + 1;
                }
                let r = Data::Collection(out);
                proof {
                    assert(out.deep_view() =~= items.deep_view());
                }
                r
            },
            Data::Member(item) => {
                let out: Option<Identifier> = match item {
                    Some(ident) => Some(ident.clone()),
                    None => None,
                };
                let r = Data::Member(out);
                proof {
                    assert(r@ =~= self@);
                }
                r
            },
        }
    }
}

// ---------------------------------------------------------------------------
// Relationships
// ---------------------------------------------------------------------------

/// The model of a [`Relationship`].
#[verifier::ext_equal]
pub struct RelationshipView {
    pub data: Option<DataView<IdentifierView>>,
    pub links: Seq<(Seq<char>, LinkView)>,
    pub meta: Seq<(Seq<char>, ValueView)>,
}

/// Represents a relationship from the resource it appears in to others.
///
/// `data` of `None` means the relationship is not represented in the
/// payload, which is distinct from an explicitly null or empty one.
#[derive(Debug)]
pub struct Relationship {
    /// The resource linkage: identifiers of the related resources.
    pub data: Option<Data<Identifier>>,
    /// Links related to the relationship.
    pub links: KeyMap<Link>,
    /// Non-standard meta information.
    pub meta: KeyMap<Value>,
}

impl View for Relationship {
    type V = RelationshipView;

    open spec fn view(&self) -> RelationshipView {
        RelationshipView { data: self.data.deep_view(), links: self.links@, meta: self.meta@ }
    }
}

impl DeepView for Relationship {
    type V = RelationshipView;

    open spec fn deep_view(&self) -> RelationshipView {
        self@
    }
}

impl Relationship {
    /// Returns a new `Relationship` with the given linkage and no links or
    /// meta information.
    pub fn new(data: Option<Data<Identifier>>) -> (r: Self)
        ensures
            r@ == (RelationshipView {
                data: data.deep_view(),
                links: Seq::<(Seq<char>, LinkView)>::empty(),
                meta: Seq::<(Seq<char>, ValueView)>::empty(),
            }),
    {
        let r = Relationship { data, links: KeyMap::new(), meta: KeyMap::new() };
        proof {
            assert(r@ =~= RelationshipView {
                data: r.data.deep_view(),
                links: Seq::<(Seq<char>, LinkView)>::empty(),
                meta: Seq::<(Seq<char>, ValueView)>::empty(),
            });
        }
        r
    }
}

impl Clone for Relationship {
    fn clone(&self) -> (r: Self)
        ensures
            r@ == self@,
    {
        let data: Option<Data<Identifier>> = match &self.data {
            Some(d) => Some(d.clone()),
            None => None,
        };
        let r = Relationship {
            data,
            links: clone_link_map(&self.links),
            meta: clone_value_map(&self.meta),
        };
        proof {
            assert(r@ =~= self@);
        }
        r
    }
}

/// Duplicates a relationship map, entry by entry.
pub(crate) fn clone_rel_map(m: &KeyMap<Relationship>) -> (r: KeyMap<Relationship>)
    ensures
        r@ == m@,
{
    let mut entries: Vec<(Key, Relationship)> = Vec::new();
    let mut i: usize = 0;
    while i < m.entries.len()
        invariant
            0 <= i <= m.entries@.len(),
            entries@.len() == i as int,
            forall|j: int| #![all_triggers]
                0 <= j < i as int ==> entries@[j].0@ == m.entries@[j].0@ && entries@[j].1@
                    == m.entries@[j].1@,
        decreases m.entries@.len() - i,
    {
        let k = m.entries[i].0.clone();
        let v = m.entries[i].1.clone();
        entries.push((k, v));
        i = i + 1;
    }
    let r = KeyMap { entries };
    proof {
        assert(r@ =~= m@);
    }
    r
}

// ---------------------------------------------------------------------------
// Resource objects
// ---------------------------------------------------------------------------

/// The model of an [`Object`].
#[verifier::ext_equal]
pub struct ObjectView {
    pub kind: Seq<char>,
    pub id: Seq<char>,
    pub attributes: Seq<(Seq<char>, ValueView)>,
    pub relationships: Seq<(Seq<char>, RelationshipView)>,
    pub links: Seq<(Seq<char>, LinkView)>,
    pub meta: Seq<(Seq<char>, ValueView)>,
}

impl ObjectView {
    /// The `(type, id)` pair that identifies the resource.
    pub open spec fn identity(self) -> (Seq<char>, Seq<char>) {
        (self.kind, self.id)
    }
}

/// A fully-rendered resource: identifier plus attributes, relationships,
/// links and meta information.
///
/// Objects share their equality behavior with [`Identifier`]: two compare
/// equal exactly when their `(type, id)` pairs agree.
#[derive(Debug)]
pub struct Object {
    /// Describes resources that share common attributes and relationships.
    pub kind: Key,
    /// A string that uniquely identifies the resource among those of its
    /// type.
    pub id: String,
    /// The resource's attributes.
    pub attributes: KeyMap<Value>,
    /// The resource's relationships.
    pub relationships: KeyMap<Relationship>,
    /// Links related to the resource.
    pub links: KeyMap<Link>,
    /// Non-standard meta information.
    pub meta: KeyMap<Value>,
}

impl View for Object {
    type V = ObjectView;

    open spec fn view(&self) -> ObjectView {
        ObjectView {
            kind: self.kind@,
            id: self.id@,
            attributes: self.attributes@,
            relationships: self.relationships@,
            links: self.links@,
            meta: self.meta@,
        }
    }
}

impl DeepView for Object {
    type V = ObjectView;

    open spec fn deep_view(&self) -> ObjectView {
        self@
    }
}

impl Object {
    /// Returns a new `Object` with the given identity and no attributes,
    /// relationships, links or meta information.
    pub fn new(kind: Key, id: String) -> (r: Self)
        ensures
            r@ == (ObjectView {
                kind: kind@,
                id: id@,
                attributes: Seq::<(Seq<char>, ValueView)>::empty(),
                relationships: Seq::<(Seq<char>, RelationshipView)>::empty(),
                links: Seq::<(Seq<char>, LinkView)>::empty(),
                meta: Seq::<(Seq<char>, ValueView)>::empty(),
            }),
    {
        let r = Object {
            kind,
            id,
            attributes: KeyMap::new(),
            relationships: KeyMap::new(),
            links: KeyMap::new(),
            meta: KeyMap::new(),
        };
        proof {
            assert(r@ =~= ObjectView {
                kind: r.kind@,
                id: r.id@,
                attributes: Seq::<(Seq<char>, ValueView)>::empty(),
                relationships: Seq::<(Seq<char>, RelationshipView)>::empty(),
                links: Seq::<(Seq<char>, LinkView)>::empty(),
                meta: Seq::<(Seq<char>, ValueView)>::empty(),
            });
        }
        r
    }
}

impl Clone for Object {
    fn clone(&self) -> (r: Self)
        ensures
            r@ == self@,
    {
        let r = Object {
            kind: self.kind.clone(),
            id: self.id.clone(),
            attributes: clone_value_map(&self.attributes),
            relationships: clone_rel_map(&self.relationships),
            links: clone_link_map(&self.links),
            meta: clone_value_map(&self.meta),
        };
        proof {
            assert(r@ =~= self@);
        }
        r
    }
}

impl PartialEq for Object {
    /// Equality compares the `(type, id)` pair only.
    fn eq(&self, rhs: &Object) -> (r: bool) {
        self.id == rhs.id && self.kind == rhs.kind
    }
}

impl vstd::std_specs::cmp::PartialEqSpecImpl for Object {
    open spec fn obeys_eq_spec() -> bool {
        true
    }

    open spec fn eq_spec(&self, rhs: &Object) -> bool {
        self@.identity() == rhs@.identity()
    }
}

impl From<Object> for Identifier {
    /// An object's identifier: its `(type, id)` pair and meta information.
    fn from(object: Object) -> (r: Self) {
        Identifier { id: object.id, kind: object.kind, meta: object.meta }
    }
}

impl vstd::std_specs::convert::FromSpecImpl<Object> for Identifier {
    open spec fn obeys_from_spec() -> bool {
        true
    }

    open spec fn from_spec(object: Object) -> Self {
        Identifier { id: object.id, kind: object.kind, meta: object.meta }
    }
}

impl crate::Sealed for Object {}

/// A resource object whose `id` may be absent, for creation flows where the
/// server assigns the identifier. Otherwise identical to [`Object`].
#[derive(Debug)]
pub struct NewObject {
    /// The resource's identifier, if the client assigned one.
    pub id: Option<String>,
    /// Describes resources that share common attributes and relationships.
    pub kind: Key,
    /// The resource's attributes.
    pub attributes: KeyMap<Value>,
    /// The resource's relationships.
    pub relationships: KeyMap<Relationship>,
    /// Links related to the resource.
    pub links: KeyMap<Link>,
    /// Non-standard meta information.
    pub meta: KeyMap<Value>,
}

impl crate::Sealed for NewObject {}

// ---------------------------------------------------------------------------
// The included set
// ---------------------------------------------------------------------------

/// Whether a sequence of objects holds one with the given identity.
pub open spec fn oseq_has(s: Seq<ObjectView>, identity: (Seq<char>, Seq<char>)) -> bool {
    exists|i: int| 0 <= i < s.len() && s[i].identity() == identity
}

/// The index of the object with the given identity; meaningful only when
/// identities are distinct and one is present.
pub open spec fn oseq_index_of(s: Seq<ObjectView>, identity: (Seq<char>, Seq<char>)) -> int {
    choose|i: int| 0 <= i < s.len() && s[i].identity() == identity
}

/// Whether the objects of `s` have pairwise distinct identities.
pub open spec fn oseq_wf(s: Seq<ObjectView>) -> bool {
    forall|i: int, j: int| 0 <= i < j < s.len() ==> s[i].identity() != s[j].identity()
}

/// An identity-deduplicating, insertion-ordered collection of resource
/// objects: the document's side table of included resources.
///
/// Inserting an object whose `(type, id)` pair is already present leaves the
/// set unchanged: the first object wins. The set never holds two objects
/// with the same identity.
#[derive(Debug)]
pub struct ObjectSet {
    pub items: Vec<Object>,
}

impl View for ObjectSet {
    type V = Seq<ObjectView>;

    open spec fn view(&self) -> Seq<ObjectView> {
        self.items.deep_view()
    }
}

impl DeepView for ObjectSet {
    type V = Seq<ObjectView>;

    open spec fn deep_view(&self) -> Seq<ObjectView> {
        self.items.deep_view()
    }
}

impl ObjectSet {
    /// Whether the set's objects have pairwise distinct identities. Every
    /// set built by [`ObjectSet::insert`] alone satisfies this.
    pub open spec fn wf(&self) -> bool {
        oseq_wf(self@)
    }

    /// The empty set.
    pub fn new() -> (r: ObjectSet)
        ensures
            r@ == Seq::<ObjectView>::empty(),
            r.wf(),
    {
        let r = ObjectSet { items: Vec::new() };
        proof {
            assert(r@ =~= Seq::<ObjectView>::empty());
        }
        r
    }

    /// The number of objects in the set.
    pub fn len(&self) -> (r: usize)
        ensures
            r == self@.len(),
    {
        self.items.len()
    }

    /// Whether the set is empty.
    pub fn is_empty(&self) -> (r: bool)
        ensures
            r == (self@.len() == 0),
    {
        self.items.len() == 0
    }

    /// The object at position `i`, in insertion order.
    pub fn get_at(&self, i: usize) -> (r: &Object)
        requires
            i < self@.len(),
        ensures
            r@ == self@[i as int],
    {
        &self.items[i]
    }

    /// The position of the object with the given identity, scanning from the
    /// front.
    pub fn position(&self, kind: &Key, id: &str) -> (r: Option<usize>)
        ensures
            match r {
                Some(i) => 0 <= i < self@.len() && self@[i as int].identity() == (kind@, id@),
                None => !oseq_has(self@, (kind@, id@)),
            },
    {
        let mut i: usize = 0;
        while i < self.items.len()
            invariant
                0 <= i <= self.items@.len(),
                forall|j: int| 0 <= j < i as int ==> self@[j].identity() != (kind@, id@),
            decreases self.items@.len() - i,
        {
            let item = &self.items[i];
            if item.kind == *kind && str_eq(item.id.as_str(), id) {
                proof {
                    assert(self@[i as int].identity() == (kind@, id@));
                }
                return Some(i);
            }
            i = i + 1;
        }
        None
    }

    /// The object with the given identity, if one is present.
    pub fn find(&self, kind: &Key, id: &str) -> (r: Option<&Object>)
        ensures
            r is Some <==> oseq_has(self@, (kind@, id@)),
            r is Some ==> r->0@.identity() == (kind@, id@) && self@.contains(r->0@),
            self.wf() && r is Some ==> r->0@ == self@[oseq_index_of(self@, (kind@, id@))],
    {
        match self.position(kind, id) {
            Some(i) => {
                proof {
                    lemma_oseq_found(self@, (kind@, id@), i as int);
                    assert(self@.contains(self@[i as int]));
                    if self.wf() {
                        lemma_oseq_wf_index_unique(self@, (kind@, id@), i as int);
                    }
                }
                Some(&self.items[i])
            },
            None => None,
        }
    }

    /// Adds `value` to the set unless an object with its identity is
    /// already present; the first object with a given identity wins.
    ///
    /// Returns `true` if the set did not have an object with this identity,
    /// `false` otherwise.
    pub fn insert(&mut self, value: Object) -> (added: bool)
        ensures
            added == !oseq_has(old(self)@, value@.identity()),
            added ==> final(self)@ == old(self)@.push(value@),
            !added ==> final(self)@ == old(self)@,
            old(self).wf() ==> final(self).wf(),
    {
        let ghost old_view = self@;
        match self.position(&value.kind, value.id.as_str()) {
            Some(_) => {
                proof {
                    assert(oseq_has(old_view, value@.identity()));
                }
                false
            },
            None => {
                let ghost vv = value@;
                self.items.push(value);
                proof {
                    assert(self@ =~= old_view.push(vv));
                    if oseq_wf(old_view) {
                        assert forall|i: int, j: int| 0 <= i < j < self@.len() implies self@[
                            i
                        ].identity() != self@[j].identity() by {
                            if j < self@.len() - 1 {
                                assert(old_view[i].identity() != old_view[j].identity());
                            } else {
                                assert(!oseq_has(old_view, vv.identity()));
                                assert(self@[i] == old_view[i]);
                            }
                        }
                    }
                }
                true
            },
        }
    }
}

/// A found index is a witness that the identity is present, and the picked
/// index matches it too.
proof fn lemma_oseq_found(s: Seq<ObjectView>, identity: (Seq<char>, Seq<char>), i: int)
    requires
        0 <= i < s.len(),
        s[i].identity() == identity,
    ensures
        oseq_has(s, identity),
        0 <= oseq_index_of(s, identity) < s.len(),
        s[oseq_index_of(s, identity)].identity() == identity,
{
    assert(oseq_has(s, identity));
    let j = oseq_index_of(s, identity);
    assert(0 <= j < s.len() && s[j].identity() == identity);
}

/// Under distinct identities, an index that matches is the index that
/// [`oseq_index_of`] picks.
proof fn lemma_oseq_wf_index_unique(s: Seq<ObjectView>, identity: (Seq<char>, Seq<char>), i: int)
    requires
        oseq_wf(s),
        0 <= i < s.len(),
        s[i].identity() == identity,
    ensures
        oseq_index_of(s, identity) == i,
{
    lemma_oseq_found(s, identity, i);
    let j = oseq_index_of(s, identity);
    if i < j {
        assert(s[i].identity() != s[j].identity());
    } else if j < i {
        assert(s[j].identity() != s[i].identity());
    }
}

/// Identity deduplication: a well-formed included set never holds two
/// objects with the same `(type, id)` pair, and inserting an object whose
/// identity is already present leaves the set unchanged.
pub proof fn lemma_identity_dedup(s: ObjectSet, i: int, j: int)
    requires
        s.wf(),
        0 <= i < s@.len(),
        0 <= j < s@.len(),
        i != j,
    ensures
        s@[i].identity() != s@[j].identity(),
{
}

// ---------------------------------------------------------------------------
// Protocol metadata
// ---------------------------------------------------------------------------

/// The version of the specification a document was built against.
#[derive(Clone, Copy, Debug, PartialEq, Eq, Structural)]
pub enum Version {
    /// Version 1.0.
    V1,
}

/// Information about the protocol version that a document was created with.
#[derive(Clone, Copy, Debug, PartialEq, Eq, Structural)]
pub struct JsonApi {
    /// The protocol version.
    pub version: Version,
}

impl Default for JsonApi {
    /// The default protocol information names version 1.0.
    fn default() -> (r: Self)
        ensures
            r == (JsonApi { version: Version::V1 }),
    {
        JsonApi { version: Version::V1 }
    }
}

// ---------------------------------------------------------------------------
// Error objects
// ---------------------------------------------------------------------------

/// The model of an [`ErrorObject`].
#[verifier::ext_equal]
pub struct ErrorObjectView {
    pub status: Option<Seq<char>>,
    pub code: Option<Seq<char>>,
    pub title: Option<Seq<char>>,
    pub detail: Option<Seq<char>>,
}

/// A single error returned in a document's `errors` member.
#[derive(Debug)]
pub struct ErrorObject {
    /// The HTTP status code, as a string.
    pub status: Option<String>,
    /// An application-specific error code.
    pub code: Option<String>,
    /// A short, human-readable summary of the problem.
    pub title: Option<String>,
    /// A human-readable explanation specific to this occurrence.
    pub detail: Option<String>,
}

impl View for ErrorObject {
    type V = ErrorObjectView;

    open spec fn view(&self) -> ErrorObjectView {
        ErrorObjectView {
            status: self.status.deep_view(),
            code: self.code.deep_view(),
            title: self.title.deep_view(),
            detail: self.detail.deep_view(),
        }
    }
}

impl DeepView for ErrorObject {
    type V = ErrorObjectView;

    open spec fn deep_view(&self) -> ErrorObjectView {
        self@
    }
}

/// The model of a [`DocumentError`].
#[verifier::ext_equal]
pub struct DocumentErrorView {
    pub errors: Seq<ErrorObjectView>,
    pub jsonapi: JsonApi,
    pub links: Seq<(Seq<char>, LinkView)>,
    pub meta: Seq<(Seq<char>, ValueView)>,
}

/// The error variant of a document: one or more error objects, together
/// with protocol information, links and meta information.
#[derive(Debug)]
pub struct DocumentError {
    /// The errors the document reports.
    pub errors: Vec<ErrorObject>,
    /// Information about the protocol version.
    pub jsonapi: JsonApi,
    /// Links related to the error response.
    pub links: KeyMap<Link>,
    /// Non-standard meta information.
    pub meta: KeyMap<Value>,
}

impl View for DocumentError {
    type V = DocumentErrorView;

    open spec fn view(&self) -> DocumentErrorView {
        DocumentErrorView {
            errors: self.errors.deep_view(),
            jsonapi: self.jsonapi,
            links: self.links@,
            meta: self.meta@,
        }
    }
}

impl DeepView for DocumentError {
    type V = DocumentErrorView;

    open spec fn deep_view(&self) -> DocumentErrorView {
        self@
    }
}

// ---------------------------------------------------------------------------
// Documents
// ---------------------------------------------------------------------------

/// The model of a [`Document`].
#[verifier::ext_equal]
pub enum DocumentView<T> {
    Content {
        data: DataView<T>,
        included: Seq<ObjectView>,
        jsonapi: JsonApi,
        links: Seq<(Seq<char>, LinkView)>,
        meta: Seq<(Seq<char>, ValueView)>,
    },
    Errors(DocumentErrorView),
}

/// Represents a compound resource document: either primary data with its
/// included side table, or a list of errors.
#[derive(Debug)]
pub enum Document<T> {
    /// Does not contain errors.
    Content {
        /// The primary data of the document.
        data: Data<T>,
        /// Included resources, each present at most once per identity.
        included: ObjectSet,
        /// Information about the protocol version.
        jsonapi: JsonApi,
        /// Links related to the primary data.
        links: KeyMap<Link>,
        /// Non-standard meta information.
        meta: KeyMap<Value>,
    },
    /// Contains one or more errors.
    Errors(DocumentError),
}

impl<T: DeepView> View for Document<T> {
    type V = DocumentView<<T as DeepView>::V>;

    open spec fn view(&self) -> DocumentView<<T as DeepView>::V> {
        match self {
            Document::Content { data, included, jsonapi, links, meta } => DocumentView::Content {
                data: data@,
                included: included@,
                jsonapi: *jsonapi,
                links: links@,
                meta: meta@,
            },
            Document::Errors(e) => DocumentView::Errors(e@),
        }
    }
}

impl<T: DeepView> DeepView for Document<T> {
    type V = DocumentView<<T as DeepView>::V>;

    open spec fn deep_view(&self) -> DocumentView<<T as DeepView>::V> {
        self@
    }
}

impl<T: DeepView> Document<T> {
    /// Returns `true` if the document does not contain any errors.
    pub fn is_ok(&self) -> (r: bool)
        ensures
            r == (self@ is Content),
    {
        match *self {
            Document::Content { .. } => true,
            Document::Errors { .. } => false,
        }
    }

    /// Returns `true` if the document contains one or more errors.
    pub fn is_err(&self) -> (r: bool)
        ensures
            r == (self@ is Errors),
    {
        match *self {
            Document::Content { .. } => false,
            Document::Errors { .. } => true,
        }
    }
}

} // verus!
