//! Render state threaded through the deflate walk: the current path, the
//! shared included set, the query, and an application context.
//!
//! Descending into a relationship transfers the whole executor to the
//! child walk — the included set has a single owner at every instant — and
//! the child hands it back when its subtree is done.

use vstd::prelude::*;

use crate::doc::{Object, ObjectSet, ObjectView};
use crate::key::Key;
use crate::query::{spec_allows, Fields, Query};
use crate::path::Path;

verus! {

/// Conversion trait for context types.
///
/// Each part of an application can work with only as much context as it
/// needs: a child walk's context type is built from the parent's. The empty
/// tuple can be built from any context, making it suitable for resources
/// that need no context at all.
pub trait FromContext<T>: Sized {
    /// Performs the conversion.
    fn from(value: &T) -> Self;
}

/// Marker trait for types that can act as context objects.
pub trait Context {}

impl<T> FromContext<T> for () {
    fn from(value: &T) -> Self {
        let _ = value;
    }
}

impl<T: Context + Clone> FromContext<T> for T {
    fn from(value: &T) -> Self {
        value.clone()
    }
}

/// Whether a query lets a member named `name` of a resource of type `kind`
/// be rendered; with no query, everything is rendered.
pub open spec fn spec_field_allowed(q: Option<&Query>, kind: Seq<char>, name: Seq<char>) -> bool {
    match q {
        None => true,
        Some(query) => spec_allows(query.fields@, kind, name),
    }
}

/// Whether a query asks for the relationship path `path` to be expanded
/// into the included set; with no query, nothing is expanded.
pub open spec fn spec_path_included(q: Option<&Query>, path: Seq<Seq<char>>) -> bool {
    match q {
        None => false,
        Some(query) => query.included@.contains(path),
    }
}

/// Render state for one deflate walk.
///
/// Holds the context, the query, the current path — the root is the empty
/// path — and the document's included set, which the executor owns: only
/// one traversal frame can write to it at a time.
pub struct Executor<'v, CtxT> {
    /// The application context for the current frame.
    pub context: CtxT,
    /// The included set accumulated by the walk.
    pub incl: ObjectSet,
    /// The path of the current frame; the root is empty.
    pub path: Path,
    /// The query that steers field and path filtering.
    pub query: Option<&'v Query>,
}

impl<'v, CtxT> Executor<'v, CtxT> {
    /// Whether the executor's query, if any, is well formed.
    pub open spec fn wf(&self) -> bool {
        match self.query {
            Some(q) => q.wf(),
            None => true,
        }
    }

    /// Creates a new, root executor with an empty path and an empty
    /// included set.
    pub fn new(context: CtxT, query: Option<&'v Query>) -> (r: Self)
        ensures
            r.context == context,
            r.query == query,
            r.path@ == Seq::<Seq<char>>::empty(),
            r.incl@ == Seq::<ObjectView>::empty(),
            r.incl.wf(),
    {
        Executor { context, incl: ObjectSet::new(), path: Path::new(), query }
    }

    /// The fieldset declared for `kind`, if the query declares one.
    pub fn fields(&self, kind: &Key) -> (r: Fields<'_>)
        requires
            self.wf(),
        ensures
            match r.0 {
                Some(set) => match self.query {
                    Some(q) => crate::collections::kseq_has_key(q.fields@, kind@) && set@
                        == crate::collections::kseq_get(q.fields@, kind@),
                    None => false,
                },
                None => match self.query {
                    Some(q) => !crate::collections::kseq_has_key(q.fields@, kind@),
                    None => true,
                },
            },
    {
        match self.query {
            Some(q) => Fields(q.fields_for(kind)),
            None => Fields(None),
        }
    }

    /// Whether a member named `name` of a resource of type `kind` may be
    /// rendered: true when no fieldset is declared for `kind`, and
    /// otherwise exactly when that fieldset holds `name`.
    pub fn field(&self, kind: &Key, name: &str) -> (r: bool)
        requires
            self.wf(),
        ensures
            r == spec_field_allowed(self.query, kind@, name@),
    {
        match self.query {
            Some(q) => q.allows(kind, name),
            None => true,
        }
    }

    /// Creates a child executor from `self` for the relationship named
    /// `key`: the path grows by `key`, the context is converted, and the
    /// included set is transferred — the parent gives up its state until
    /// the child hands the set back.
    pub fn fork<NewCtxT: FromContext<CtxT>>(self, key: &Key) -> (r: Executor<'v, NewCtxT>)
        ensures
            r.incl@ == self.incl@,
            r.incl.wf() == self.incl.wf(),
            r.path@ == self.path@.push(key@),
            r.query == self.query,
            r.wf() == self.wf(),
    {
        let context: NewCtxT = FromContext::from(&self.context);
        let path = self.path.join(key);
        Executor { context, incl: self.incl, path, query: self.query }
    }

    /// Hands the included set back, ending the walk.
    pub fn into_included(self) -> (r: ObjectSet)
        ensures
            r@ == self.incl@,
            r.wf() == self.incl.wf(),
    {
        self.incl
    }

    /// Access the current context.
    pub fn context(&self) -> (r: &CtxT)
        ensures
            r == &self.context,
    {
        &self.context
    }

    /// Adds `value` to the walk's included set unless an object with its
    /// identity is already present; the first object wins.
    ///
    /// Returns `true` if the set did not have an object with this identity.
    pub fn insert_included(&mut self, value: Object) -> (added: bool)
        ensures
            added == !crate::doc::oseq_has(old(self).incl@, value@.identity()),
            added ==> final(self).incl@ == old(self).incl@.push(value@),
            !added ==> final(self).incl@ == old(self).incl@,
            old(self).incl.wf() ==> final(self).incl.wf(),
            final(self).path@ == old(self).path@,
            final(self).query == old(self).query,
            final(self).context == old(self).context,
    {
        self.incl.insert(value)
    }

    /// Whether the query asks for the relationship named `key` under the
    /// current path to be expanded into the included set.
    pub fn key_included(&self, key: &Key) -> (r: bool)
        ensures
            r == spec_path_included(self.query, self.path@.push(key@)),
    {
        match self.query {
            Some(q) => q.included.contains(&self.path.join(key)),
            None => false,
        }
    }

    /// Whether the query asks for the current path itself to be expanded.
    /// At the root — the empty path — this is always false.
    pub fn included(&self) -> (r: bool)
        ensures
            r == spec_path_included(self.query, self.path@),
    {
        match self.query {
            Some(q) => q.included.contains(&self.path),
            None => false,
        }
    }

    /// Grows the current path by `key`, descending into a relationship.
    pub fn descend(&mut self, key: &Key)
        ensures
            final(self).path@ == old(self).path@.push(key@),
            final(self).incl == old(self).incl,
            final(self).query == old(self).query,
            final(self).context == old(self).context,
    {
        self.path.push(key.clone());
    }

    /// Shrinks the current path, undoing a [`Executor::descend`].
    pub fn ascend(&mut self)
        requires
            old(self).path@.len() > 0,
        ensures
            final(self).path@ == old(self).path@.drop_last(),
            final(self).incl == old(self).incl,
            final(self).query == old(self).query,
            final(self).context == old(self).context,
    {
        self.path.pop();
    }
}

} // verus!
