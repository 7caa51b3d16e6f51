//! Field paths: ordered sequences of member names naming a location in the
//! resource graph. Paths are the unit of matching when deciding which
//! relationships to expand into the included set.

use vstd::prelude::*;

use crate::key::Key;

verus! {

/// An ordered sequence of [`Key`]s. Equality is structural.
#[derive(Debug)]
pub struct Path {
    pub keys: Vec<Key>,
}

impl View for Path {
    type V = Seq<Seq<char>>;

    open spec fn view(&self) -> Seq<Seq<char>> {
        self.keys.deep_view()
    }
}

impl DeepView for Path {
    type V = Seq<Seq<char>>;

    open spec fn deep_view(&self) -> Seq<Seq<char>> {
        self.keys.deep_view()
    }
}

impl Path {
    /// The empty path, naming the document's primary data.
    pub fn new() -> (r: Path)
        ensures
            r@ == Seq::<Seq<char>>::empty(),
    {
        let r = Path { keys: Vec::new() };
        proof {
            assert(r@ =~= Seq::<Seq<char>>::empty());
        }
        r
    }

    /// The number of keys in the path.
    pub fn len(&self) -> (r: usize)
        ensures
            r == self@.len(),
    {
        self.keys.len()
    }

    /// A new path with `key` appended; `self` is unchanged.
    pub fn join(&self, key: &Key) -> (r: Path)
        ensures
            r@ == self@.push(key@),
    {
        let mut keys: Vec<Key> = Vec::new();
        let mut i: usize = 0;
        while i < self.keys.len()
            invariant
                0 <= i <= self.keys@.len(),
                keys@.len() == i as int,
                forall|j: int| 0 <= j < i as int ==> keys@[j]@ == self.keys@[j]@,
            decreases self.keys@.len() - i,
        {
            keys.push(self.keys[i].clone());
            i = i + 1;
        }
        keys.push(key.clone());
        let r = Path { keys };
        proof {
            assert(r@ =~= self@.push(key@));
        }
        r
    }

    /// Appends `key` in place.
    pub fn push(&mut self, key: Key)
        ensures
            final(self)@ == old(self)@.push(key@),
    {
        self.keys.push(key);
        proof {
            assert(self@ =~= old(self)@.push(self.keys@.last()@));
        }
    }

    /// Removes the last key, undoing a [`Path::push`].
    pub fn pop(&mut self)
        requires
            old(self)@.len() > 0,
        ensures
            final(self)@ == old(self)@.drop_last(),
    {
        let _ = self.keys.pop();
        proof {
            assert(self@ =~= old(self)@.drop_last());
        }
    }

    /// Whether two paths hold the same keys in the same order.
    pub fn matches(&self, other: &Path) -> (r: bool)
        ensures
            r == (self@ == other@),
    {
        if self.keys.len() != other.keys.len() {
            proof {
                assert(self@.len() != other@.len());
            }
            return false;
        }
        let mut i: usize = 0;
        while i < self.keys.len()
            invariant
                self.keys@.len() == other.keys@.len(),
                0 <= i <= self.keys@.len(),
                forall|j: int| 0 <= j < i as int ==> self@[j] == other@[j],
            decreases self.keys@.len() - i,
        {
            if !(self.keys[i] == other.keys[i]) {
                proof {
                    assert(self@[i as int] != other@[i as int]);
                }
                return false;
            }
            i = i + 1;
        }
        proof {
            assert(self@ =~= other@);
        }
        true
    }
}

impl Clone for Path {
    fn clone(&self) -> (r: Self)
        ensures
            r@ == self@,
    {
        let mut keys: Vec<Key> = Vec::new();
        let mut i: usize = 0;
        while i < self.keys.len()
            invariant
                0 <= i <= self.keys@.len(),
                keys@.len() == i as int,
                forall|j: int| 0 <= j < i as int ==> keys@[j]@ == self.keys@[j]@,
            decreases self.keys@.len() - i,
        {
            keys.push(self.keys[i].clone());
            i = i + 1;
        }
        let r = Path { keys };
        proof {
            assert(r@ =~= self@);
        }
        r
    }
}

impl PartialEq for Path {
    fn eq(&self, other: &Self) -> (r: bool) {
        self.matches(other)
    }
}

impl vstd::std_specs::cmp::PartialEqSpecImpl for Path {
    open spec fn obeys_eq_spec() -> bool {
        true
    }

    open spec fn eq_spec(&self, other: &Self) -> bool {
        self@ == other@
    }
}

impl crate::Sealed for Path {}

} // verus!
