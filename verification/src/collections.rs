//! Ordered collections with insertion order preserved and unique members.
//!
//! [`KeyMap`] maps member names to values, [`NameSet`] holds raw field names
//! and [`PathSet`] holds field paths. All three keep the order in which
//! members were first inserted, and never hold two members that are equal.

use vstd::prelude::*;

use crate::key::Key;
use crate::path::Path;

verus! {

/// Whether a keyed sequence holds an entry named `k`.
pub open spec fn kseq_has_key<T>(s: Seq<(Seq<char>, T)>, k: Seq<char>) -> bool {
    exists|i: int| 0 <= i < s.len() && s[i].0 == k
}

/// The index of the entry named `k`; meaningful only when the keys of `s`
/// are distinct and `k` is present.
pub open spec fn kseq_index_of<T>(s: Seq<(Seq<char>, T)>, k: Seq<char>) -> int {
    choose|i: int| 0 <= i < s.len() && s[i].0 == k
}

/// The value of the entry named `k`; meaningful only when the keys of `s`
/// are distinct and `k` is present.
pub open spec fn kseq_get<T>(s: Seq<(Seq<char>, T)>, k: Seq<char>) -> T {
    s[kseq_index_of(s, k)].1
}

/// Whether the keys of `s` are pairwise distinct.
pub open spec fn kseq_wf<T>(s: Seq<(Seq<char>, T)>) -> bool {
    forall|i: int, j: int| 0 <= i < j < s.len() ==> s[i].0 != s[j].0
}

/// The sequence after setting `k` to `v`: in place if `k` is present,
/// appended otherwise.
pub open spec fn kseq_insert<T>(s: Seq<(Seq<char>, T)>, k: Seq<char>, v: T) -> Seq<
    (Seq<char>, T),
> {
    if kseq_has_key(s, k) {
        s.update(kseq_index_of(s, k), (k, v))
    } else {
        s.push((k, v))
    }
}

/// The position of the first entry named `k` at or after position `i`, or
/// `-1` when there is none.
pub open spec fn kseq_first_from<T>(s: Seq<(Seq<char>, T)>, k: Seq<char>, i: int) -> int
    decreases s.len() - i,
{
    if i < 0 || i >= s.len() {
        -1
    } else if s[i].0 == k {
        i
    } else {
        kseq_first_from(s, k, i + 1)
    }
}

/// The value of the first entry named `k`; meaningful only when one is
/// present.
pub open spec fn kseq_first_get<T>(s: Seq<(Seq<char>, T)>, k: Seq<char>) -> T {
    s[kseq_first_from(s, k, 0)].1
}

/// A map from member names to values, with insertion order preserved and
/// member names unique.
#[derive(Debug, PartialEq)]
pub struct KeyMap<V> {
    pub entries: Vec<(Key, V)>,
}

impl<V: DeepView> DeepView for KeyMap<V> {
    type V = Seq<(Seq<char>, <V as DeepView>::V)>;

    open spec fn deep_view(&self) -> Seq<(Seq<char>, <V as DeepView>::V)> {
        self.entries.deep_view()
    }
}

impl<V: DeepView> View for KeyMap<V> {
    type V = Seq<(Seq<char>, <V as DeepView>::V)>;

    open spec fn view(&self) -> Seq<(Seq<char>, <V as DeepView>::V)> {
        self.entries.deep_view()
    }
}

impl<V: DeepView> KeyMap<V> {
    /// Whether the map's member names are pairwise distinct. Every map built
    /// by [`KeyMap::insert`] alone satisfies this.
    pub open spec fn wf(&self) -> bool {
        kseq_wf(self@)
    }

    /// The empty map.
    pub fn new() -> (r: KeyMap<V>)
        ensures
            r@ == Seq::<(Seq<char>, <V as DeepView>::V)>::empty(),
            r.wf(),
    {
        let r = KeyMap { entries: Vec::new() };
        proof {
            assert(r@ =~= Seq::<(Seq<char>, <V as DeepView>::V)>::empty());
        }
        r
    }

    /// The number of entries.
    pub fn len(&self) -> (r: usize)
        ensures
            r == self@.len(),
    {
        self.entries.len()
    }

    /// Whether the map has no entries.
    pub fn is_empty(&self) -> (r: bool)
        ensures
            r == (self@.len() == 0),
    {
        self.entries.len() == 0
    }

    /// The position of the entry named by `key`, scanning from the front.
    pub fn index_of(&self, key: &Key) -> (r: Option<usize>)
        ensures
            match r {
                Some(i) => 0 <= i < self@.len() && self@[i as int].0 == key@,
                None => !kseq_has_key(self@, key@),
            },
    {
        let mut i: usize = 0;
        while i < self.entries.len()
            invariant
                0 <= i <= self.entries@.len(),
                forall|j: int| 0 <= j < i as int ==> self@[j].0 != key@,
            decreases self.entries@.len() - i,
        {
            if self.entries[i].0 == *key {
                return Some(i);
            }
            i = i + 1;
        }
        None
    }

    /// Whether the map holds an entry named by `key`.
    pub fn contains_key(&self, key: &Key) -> (r: bool)
        ensures
            r == kseq_has_key(self@, key@),
    {
        self.index_of(key).is_some()
    }

    /// The value of the entry named by `key`, if present.
    pub fn get(&self, key: &Key) -> (r: Option<&V>)
        requires
            self.wf(),
        ensures
            r is Some <==> kseq_has_key(self@, key@),
            r is Some ==> r->0.deep_view() == kseq_get(self@, key@),
    {
        match self.index_of(key) {
            Some(i) => {
                proof {
                    lemma_wf_index_unique(self@, key@, i as int);
                }
                Some(&self.entries[i].1)
            },
            None => None,
        }
    }

    /// The value of the first entry whose name holds the characters of
    /// `name`, if any.
    pub fn get_str(&self, name: &str) -> (r: Option<&V>)
        ensures
            r is Some <==> kseq_has_key(self@, name@),
            r is Some ==> r->0.deep_view() == kseq_first_get(self@, name@),
    {
        let mut j: usize = 0;
        while j < self.entries.len()
            invariant
                0 <= j <= self.entries@.len(),
                forall|jj: int| 0 <= jj < j as int ==> self@[jj].0 != name@,
                kseq_first_from(self@, name@, j as int) == kseq_first_from(self@, name@, 0),
            decreases self.entries@.len() - j,
        {
            if str_eq(self.entries[j].0.as_str(), name) {
                proof {
                    assert(self@[j as int].0 == name@);
                    assert(kseq_first_from(self@, name@, j as int) == j as int);
                }
                return Some(&self.entries[j].1);
            }
            j = j + 1;
        }
        proof {
            assert(kseq_first_from(self@, name@, self.entries@.len() as int) == -1);
        }
        None
    }

    /// Sets `key` to `value`: replaces the value in place when the name is
    /// already present, appends the entry otherwise.
    pub fn insert(&mut self, key: Key, value: V)
        requires
            old(self).wf(),
        ensures
            final(self)@ == kseq_insert(old(self)@, key@, value.deep_view()),
            final(self).wf(),
    {
        let ghost old_view = self@;
        let ghost kv = key@;
        let ghost vv = value.deep_view();
        match self.index_of(&key) {
            Some(i) => {
                proof {
                    lemma_wf_index_unique(old_view, kv, i as int);
                }
                let ghost gi = i as int;
                vstd::pervasive::VecAdditionalExecFns::set(&mut self.entries, i, (key, value));
                proof {
                    assert(self@ =~= old_view.update(gi, (kv, vv)));
                    assert(self@ == kseq_insert(old_view, kv, vv));
                    assert forall|a: int, b: int| 0 <= a < b < self@.len() implies self@[a].0
                        != self@[b].0 by {
                        assert(old_view[a].0 != old_view[b].0);
                    }
                }
            },
            None => {
                self.entries.push((key, value));
                proof {
                    assert(self@ =~= old_view.push((kv, vv)));
                    assert(self@ == kseq_insert(old_view, kv, vv));
                    assert forall|a: int, b: int| 0 <= a < b < self@.len() implies self@[a].0
                        != self@[b].0 by {
                        if b < self@.len() - 1 {
                            assert(old_view[a].0 != old_view[b].0);
                        } else {
                            assert(!kseq_has_key(old_view, kv));
                            assert(self@[a].0 == old_view[a].0);
                        }
                    }
                }
            },
        }
    }

    /// The name of the entry at position `i`.
    pub fn key_at(&self, i: usize) -> (r: &Key)
        requires
            i < self@.len(),
        ensures
            r@ == self@[i as int].0,
    {
        &self.entries[i].0
    }

    /// The value of the entry at position `i`.
    pub fn value_at(&self, i: usize) -> (r: &V)
        requires
            i < self@.len(),
        ensures
            r.deep_view() == self@[i as int].1,
    {
        &self.entries[i].1
    }
}

/// Under distinct keys, an index that matches `k` is the index that
/// [`kseq_index_of`] picks.
proof fn lemma_wf_index_unique<T>(s: Seq<(Seq<char>, T)>, k: Seq<char>, i: int)
    requires
        kseq_wf(s),
        0 <= i < s.len(),
        s[i].0 == k,
    ensures
        kseq_index_of(s, k) == i,
        kseq_has_key(s, k),
{
    assert(kseq_has_key(s, k));
    let j = kseq_index_of(s, k);
    assert(0 <= j < s.len() && s[j].0 == k);
    if i < j {
        assert(s[i].0 != s[j].0);
    } else if j < i {
        assert(s[j].0 != s[i].0);
    }
}

/// An ordered set of raw field names.
#[derive(Debug)]
pub struct NameSet {
    pub items: Vec<String>,
}

impl View for NameSet {
    type V = Seq<Seq<char>>;

    open spec fn view(&self) -> Seq<Seq<char>> {
        self.items.deep_view()
    }
}

impl DeepView for NameSet {
    type V = Seq<Seq<char>>;

    open spec fn deep_view(&self) -> Seq<Seq<char>> {
        self.items.deep_view()
    }
}

/// Whether the strings `a` and `b` hold the same characters.
pub fn str_eq(a: &str, b: &str) -> (r: bool)
    ensures
        r == (a@ == b@),
{
    let a_len = a.unicode_len();
    let b_len = b.unicode_len();
    if a_len != b_len {
        return false;
    }
    let mut i: usize = 0;
    while i < a_len
        invariant
            a@.len() == a_len == b_len == b@.len(),
            0 <= i <= a_len,
            forall|j: int| 0 <= j < i as int ==> a@[j] == b@[j],
        decreases a_len - i,
    {
        if a.get_char(i) != b.get_char(i) {
            return false;
        }
        i = i + 1;
    }
    proof {
        assert(a@ =~= b@);
    }
    true
}

impl NameSet {
    /// The empty set.
    pub fn new() -> (r: NameSet)
        ensures
            r@ == Seq::<Seq<char>>::empty(),
    {
        let r = NameSet { items: Vec::new() };
        proof {
            assert(r@ =~= Seq::<Seq<char>>::empty());
        }
        r
    }

    /// The number of names.
    pub fn len(&self) -> (r: usize)
        ensures
            r == self@.len(),
    {
        self.items.len()
    }

    /// Whether `name` is one of the set's names.
    pub fn contains(&self, name: &str) -> (r: bool)
        ensures
            r == self@.contains(name@),
    {
        let mut i: usize = 0;
        while i < self.items.len()
            invariant
                0 <= i <= self.items@.len(),
                forall|j: int| 0 <= j < i as int ==> self@[j] != name@,
            decreases self.items@.len() - i,
        {
            if str_eq(self.items[i].as_str(), name) {
                proof {
                    assert(self@[i as int] == name@);
                }
                return true;
            }
            i = i + 1;
        }
        proof {
            assert(!self@.contains(name@));
        }
        false
    }

    /// Adds `name` unless it is already present. Returns `true` when the set
    /// grew.
    pub fn insert(&mut self, name: String) -> (added: bool)
        ensures
            added == !old(self)@.contains(name@),
            added ==> final(self)@ == old(self)@.push(name@),
            !added ==> final(self)@ == old(self)@,
    {
        if self.contains(name.as_str()) {
            return false;
        }
        self.items.push(name);
        proof {
            assert(self@ =~= old(self)@.push(self.items@.last()@));
        }
        true
    }
}

impl Clone for NameSet {
    fn clone(&self) -> (r: Self)
        ensures
            r@ == self@,
    {
        let mut items: Vec<String> = Vec::new();
        let mut i: usize = 0;
        while i < self.items.len()
            invariant
                0 <= i <= self.items@.len(),
                items@.len() == i as int,
                forall|j: int| 0 <= j < i as int ==> items@[j]@ == self.items@[j]@,
            decreases self.items@.len() - i,
        {
            items.push(self.items[i].clone());
            i = i + 1;
        }
        let r = NameSet { items };
        proof {
            assert(r@ =~= self@);
        }
        r
    }
}

/// An ordered set of field paths.
#[derive(Debug)]
pub struct PathSet {
    pub items: Vec<Path>,
}

impl View for PathSet {
    type V = Seq<Seq<Seq<char>>>;

    open spec fn view(&self) -> Seq<Seq<Seq<char>>> {
        self.items.deep_view()
    }
}

impl DeepView for PathSet {
    type V = Seq<Seq<Seq<char>>>;

    open spec fn deep_view(&self) -> Seq<Seq<Seq<char>>> {
        self.items.deep_view()
    }
}

impl PathSet {
    /// The empty set.
    pub fn new() -> (r: PathSet)
        ensures
            r@ == Seq::<Seq<Seq<char>>>::empty(),
    {
        let r = PathSet { items: Vec::new() };
        proof {
            assert(r@ =~= Seq::<Seq<Seq<char>>>::empty());
        }
        r
    }

    /// The number of paths.
    pub fn len(&self) -> (r: usize)
        ensures
            r == self@.len(),
    {
        self.items.len()
    }

    /// Whether `path` is one of the set's paths.
    pub fn contains(&self, path: &Path) -> (r: bool)
        ensures
            r == self@.contains(path@),
    {
        let mut i: usize = 0;
        while i < self.items.len()
            invariant
                0 <= i <= self.items@.len(),
                forall|j: int| 0 <= j < i as int ==> self@[j] != path@,
            decreases self.items@.len() - i,
        {
            if self.items[i].matches(path) {
                proof {
                    assert(self@[i as int] == path@);
                }
                return true;
            }
            i = i + 1;
        }
        proof {
            assert(!self@.contains(path@));
        }
        false
    }

    /// Adds `path` unless it is already present. Returns `true` when the set
    /// grew.
    pub fn insert(&mut self, path: Path) -> (added: bool)
        ensures
            added == !old(self)@.contains(path@),
            added ==> final(self)@ == old(self)@.push(path@),
            !added ==> final(self)@ == old(self)@,
    {
        if self.contains(&path) {
            return false;
        }
        self.items.push(path);
        proof {
            assert(self@ =~= old(self)@.push(self.items@.last()@));
        }
        true
    }
}

impl Clone for PathSet {
    fn clone(&self) -> (r: Self)
        ensures
            r@ == self@,
    {
        let mut items: Vec<Path> = Vec::new();
        let mut i: usize = 0;
        while i < self.items.len()
            invariant
                0 <= i <= self.items@.len(),
                items@.len() == i as int,
                forall|j: int| 0 <= j < i as int ==> items@[j]@ == self.items@[j]@,
            decreases self.items@.len() - i,
        {
            items.push(self.items[i].clone());
            i = i + 1;
        }
        let r = PathSet { items };
        proof {
            assert(r@ =~= self@);
        }
        r
    }
}

} // verus!

verus! {

/// Inserting preserves distinctness of keys, and adds exactly the
/// inserted name to the key set.
pub proof fn lemma_kseq_insert_wf<T>(s: Seq<(Seq<char>, T)>, k: Seq<char>, v: T)
    requires
        kseq_wf(s),
    ensures
        kseq_wf(kseq_insert(s, k, v)),
        forall|k2: Seq<char>|
            kseq_has_key(kseq_insert(s, k, v), k2) <==> (kseq_has_key(s, k2) || k2 == k),
{
    let t = kseq_insert(s, k, v);
    if kseq_has_key(s, k) {
        let idx = kseq_index_of(s, k);
        assert(0 <= idx < s.len() && s[idx].0 == k);
        assert(t == s.update(idx, (k, v)));
        assert forall|i: int, j: int| 0 <= i < j < t.len() implies t[i].0 != t[j].0 by {
            assert(s[i].0 != s[j].0);
            assert(t[i].0 == s[i].0 && t[j].0 == s[j].0);
        }
        assert forall|k2: Seq<char>|
            kseq_has_key(t, k2) <==> (kseq_has_key(s, k2) || k2 == k) by {
            if kseq_has_key(t, k2) {
                let w = choose|i: int| 0 <= i < t.len() && t[i].0 == k2;
                assert(s[w].0 == t[w].0);
                assert(kseq_has_key(s, k2));
            }
            if kseq_has_key(s, k2) {
                let w = choose|i: int| 0 <= i < s.len() && s[i].0 == k2;
                assert(t[w].0 == s[w].0);
                assert(kseq_has_key(t, k2));
            }
        }
    } else {
        assert(t == s.push((k, v)));
        assert forall|i: int, j: int| 0 <= i < j < t.len() implies t[i].0 != t[j].0 by {
            if j < t.len() - 1 {
                assert(s[i].0 != s[j].0);
            } else {
                assert(t[i].0 == s[i].0);
                assert(kseq_has_key(s, k) == false);
                assert(s[i].0 != k);
            }
        }
        assert forall|k2: Seq<char>|
            kseq_has_key(t, k2) <==> (kseq_has_key(s, k2) || k2 == k) by {
            if kseq_has_key(t, k2) {
                let w = choose|i: int| 0 <= i < t.len() && t[i].0 == k2;
                if w < t.len() - 1 {
                    assert(s[w].0 == k2);
                    assert(kseq_has_key(s, k2));
                } else {
                    assert(k2 == k);
                }
            }
            if kseq_has_key(s, k2) {
                let w = choose|i: int| 0 <= i < s.len() && s[i].0 == k2;
                assert(t[w].0 == k2);
                assert(kseq_has_key(t, k2));
            }
            if k2 == k {
                assert(t[t.len() - 1].0 == k2);
                assert(kseq_has_key(t, k2));
            }
        }
    }
}

/// The front scan finds the least matching position: a match, with no
/// match before it; and `-1` exactly when there is no match at all.
pub proof fn lemma_kseq_first_props<T>(s: Seq<(Seq<char>, T)>, k: Seq<char>, i: int)
    requires
        0 <= i,
    ensures
        kseq_first_from(s, k, i) == -1 ==> forall|j: int| i <= j < s.len() ==> s[j].0 != k,
        kseq_first_from(s, k, i) != -1 ==> i <= kseq_first_from(s, k, i) < s.len() && s[
            kseq_first_from(s, k, i)
        ].0 == k,
    decreases s.len() - i,
{
    if i < s.len() && s[i].0 != k {
        lemma_kseq_first_props(s, k, i + 1);
    }
}

/// Under distinct keys, the front scan and the chosen index agree.
pub proof fn lemma_kseq_first_is_index<T>(s: Seq<(Seq<char>, T)>, k: Seq<char>)
    requires
        kseq_wf(s),
        kseq_has_key(s, k),
    ensures
        kseq_first_from(s, k, 0) == kseq_index_of(s, k),
        kseq_first_get(s, k) == s[kseq_index_of(s, k)].1,
{
    let idx = kseq_index_of(s, k);
    assert(0 <= idx < s.len() && s[idx].0 == k);
    lemma_kseq_first_props(s, k, 0);
    let f = kseq_first_from(s, k, 0);
    if f == -1 {
        assert(s[idx].0 != k);
    }
    assert(0 <= f < s.len() && s[f].0 == k);
    if f < idx {
        assert(s[f].0 != s[idx].0);
    } else if idx < f {
        assert(s[idx].0 != s[f].0);
    }
}

/// What a lookup sees after an insert: the inserted name maps to the
/// inserted value, every other name to what it mapped to before.
pub proof fn lemma_kseq_insert_get<T>(s: Seq<(Seq<char>, T)>, k: Seq<char>, v: T, k2: Seq<char>)
    requires
        kseq_wf(s),
    ensures
        kseq_first_get(kseq_insert(s, k, v), k) == v,
        k2 != k && kseq_has_key(s, k2) ==> kseq_first_get(kseq_insert(s, k, v), k2)
            == kseq_first_get(s, k2),
{
    let t = kseq_insert(s, k, v);
    lemma_kseq_insert_wf(s, k, v);
    assert(kseq_has_key(t, k));
    lemma_kseq_first_is_index(t, k);
    let ti = kseq_index_of(t, k);
    assert(t[ti].0 == k);
    if kseq_has_key(s, k) {
        let idx = kseq_index_of(s, k);
        assert(t == s.update(idx, (k, v)));
        if ti != idx {
            assert(t[ti].0 == s[ti].0);
            if ti < idx {
                assert(s[ti].0 != s[idx].0);
            } else {
                assert(s[idx].0 != s[ti].0);
            }
        }
        assert(kseq_first_get(t, k) == v);
    } else {
        assert(t == s.push((k, v)));
        if ti != t.len() - 1 {
            assert(s[ti].0 == k);
            assert(kseq_has_key(s, k));
        }
        assert(kseq_first_get(t, k) == v);
    }
    if k2 != k && kseq_has_key(s, k2) {
        lemma_kseq_first_is_index(s, k2);
        lemma_kseq_first_is_index(t, k2);
        let si = kseq_index_of(s, k2);
        let ti2 = kseq_index_of(t, k2);
        assert(s[si].0 == k2);
        if kseq_has_key(s, k) {
            let idx = kseq_index_of(s, k);
            assert(t[si] == s[si]) by {
                assert(si != idx);
            }
            assert(t[si].0 == k2);
            if ti2 != si {
                if ti2 < si {
                    assert(t[ti2].0 != t[si].0);
                } else {
                    assert(t[si].0 != t[ti2].0);
                }
            }
        } else {
            assert(t[si].0 == k2);
            if ti2 != si {
                if ti2 < si {
                    assert(t[ti2].0 != t[si].0);
                } else {
                    assert(t[si].0 != t[ti2].0);
                }
            }
        }
    }
}

} // verus!
