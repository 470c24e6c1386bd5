//! A map from strings to values, kept as a list of distinct keys in
//! insertion order. Its view is the mathematical map from each key's
//! characters to its value.
use vstd::prelude::*;

verus! {

pub struct StrMap<V> {
    pub entries: Vec<(String, V)>,
}

/// The map that a list of entries denotes: later entries win.
pub open spec fn map_of<V>(s: Seq<(String, V)>) -> Map<Seq<char>, V>
    decreases s.len(),
{
    if s.len() == 0 {
        Map::empty()
    } else {
        map_of(s.drop_last()).insert(s.last().0@, s.last().1)
    }
}

/// No key occurs twice.
pub open spec fn distinct_keys<V>(s: Seq<(String, V)>) -> bool {
    forall|i: int, j: int| 0 <= i < s.len() && 0 <= j < s.len() && i != j ==> s[i].0@ != s[j].0@
}

pub proof fn lemma_map_of_contains<V>(s: Seq<(String, V)>, k: Seq<char>)
    ensures
        map_of(s).contains_key(k) <==> exists|i: int| 0 <= i < s.len() && #[trigger] s[i].0@ == k,
    decreases s.len(),
{
    if s.len() > 0 {
        lemma_map_of_contains(s.drop_last(), k);
        if map_of(s).contains_key(k) && s.last().0@ != k {
            let i = choose|i: int| 0 <= i < s.drop_last().len() && #[trigger] s.drop_last()[i].0@ == k;
            assert(s[i].0@ == k);
        }
        if exists|i: int| 0 <= i < s.len() && #[trigger] s[i].0@ == k {
            let i = choose|i: int| 0 <= i < s.len() && #[trigger] s[i].0@ == k;
            if i < s.len() - 1 {
                assert(s.drop_last()[i].0@ == k);
            }
        }
    }
}

pub proof fn lemma_map_of_value<V>(s: Seq<(String, V)>, i: int)
    requires
        distinct_keys(s),
        0 <= i < s.len(),
    ensures
        map_of(s).contains_key(s[i].0@),
        map_of(s)[s[i].0@] == s[i].1,
    decreases s.len(),
{
    if i < s.len() - 1 {
        assert(distinct_keys(s.drop_last()));
        lemma_map_of_value(s.drop_last(), i);
        assert(s.drop_last()[i] == s[i]);
        assert(s.last().0@ != s[i].0@);
    }
}

pub proof fn lemma_map_of_len<V>(s: Seq<(String, V)>)
    requires
        distinct_keys(s),
    ensures
        map_of(s).dom().finite(),
        map_of(s).dom().len() == s.len(),
    decreases s.len(),
{
    if s.len() > 0 {
        let p = s.drop_last();
        assert(distinct_keys(p));
        lemma_map_of_len(p);
        lemma_map_of_contains(p, s.last().0@);
        if map_of(p).contains_key(s.last().0@) {
            let i = choose|i: int| 0 <= i < p.len() && #[trigger] p[i].0@ == s.last().0@;
            assert(s[i].0@ == s[s.len() - 1].0@);
        }
    }
}

/// The entries list every key of a well-formed map exactly once: there are
/// as many positions as keys, distinct positions hold distinct keys, and
/// every key sits at some position.
pub proof fn lemma_entries_enumerate_keys<V>(m: &StrMap<V>)
    requires
        m.wf(),
    ensures
        m.entries@.len() == m@.dom().len(),
        forall|i: int, j: int|
            0 <= i < m.entries@.len() && 0 <= j < m.entries@.len() && i != j ==> #[trigger] m.entries@[i].0@
                != #[trigger] m.entries@[j].0@,
        forall|k: Seq<char>| #[trigger]
            m@.contains_key(k) ==> exists|i: int| 0 <= i < m.entries@.len() && #[trigger] m.entries@[i].0@ == k,
{
    lemma_map_of_len(m.entries@);
    assert forall|k: Seq<char>| #[trigger] m@.contains_key(k) implies exists|i: int|
        0 <= i < m.entries@.len() && #[trigger] m.entries@[i].0@ == k by {
        lemma_map_of_contains(m.entries@, k);
    }
}

impl<V> StrMap<V> {
    pub open spec fn wf(&self) -> bool {
        distinct_keys(self.entries@)
    }

    pub open spec fn view(&self) -> Map<Seq<char>, V> {
        map_of(self.entries@)
    }

    pub fn new() -> (m: Self)
        ensures
            m.wf(),
            m@ == Map::<Seq<char>, V>::empty(),
    {
        StrMap { entries: Vec::new() }
    }

    /// Position of `key` in the entry list, if present.
    pub fn find(&self, key: &String) -> (r: Option<usize>)
        requires
            self.wf(),
        ensures
            r is None ==> !self@.contains_key(key@),
            r matches Some(i) ==> i < self.entries@.len() && self.entries@[i as int].0@ == key@
                && self@.contains_key(key@) && self@[key@] == self.entries@[i as int].1,
    {
        let mut i: usize = 0;
        while i < self.entries.len()
            invariant
                self.wf(),
                i <= self.entries@.len(),
                forall|j: int| 0 <= j < i ==> #[trigger] self.entries@[j].0@ != key@,
            decreases self.entries@.len() - i,
        {
            if self.entries[i].0 == *key {
                proof {
                    lemma_map_of_value(self.entries@, i as int);
                }
                return Some(i);
            }
            i = i + 1;
        }
        proof {
            lemma_map_of_contains(self.entries@, key@);
        }
        None
    }

    pub fn contains_key(&self, key: &String) -> (r: bool)
        requires
            self.wf(),
        ensures
            r == self@.contains_key(key@),
    {
        self.find(key).is_some()
    }

    pub fn get(&self, key: &String) -> (r: Option<&V>)
        requires
            self.wf(),
        ensures
            r is None <==> !self@.contains_key(key@),
            r matches Some(v) ==> self@.contains_key(key@) && *v == self@[key@],
    {
        match self.find(key) {
            Some(i) => Some(&self.entries[i].1),
            None => None,
        }
    }

    pub fn len(&self) -> (n: usize)
        requires
            self.wf(),
        ensures
            n == self@.dom().len(),
            self@.dom().finite(),
    {
        proof {
            lemma_map_of_len(self.entries@);
        }
        self.entries.len()
    }

    /// The key in position `index`, if there is one.
    pub fn key_at(&self, index: usize) -> (r: Option<&String>)
        requires
            self.wf(),
        ensures
            r is Some <==> index < self@.dom().len(),
            r matches Some(k) ==> self@.contains_key(k@) && *k == self.entries@[index as int].0,
    {
        proof {
            lemma_map_of_len(self.entries@);
        }
        if index < self.entries.len() {
            proof {
                lemma_map_of_value(self.entries@, index as int);
            }
            Some(&self.entries[index].0)
        } else {
            None
        }
    }

    pub fn insert(&mut self, key: String, value: V)
        requires
            old(self).wf(),
        ensures
            final(self).wf(),
            final(self)@ == old(self)@.insert(key@, value),
    {
        match self.find(&key) {
            None => {
                proof {
                    lemma_map_of_contains(self.entries@, key@);
                }
                let ghost old_entries = self.entries@;
                self.entries.push((key, value));
                assert(self.entries@.drop_last() =~= old_entries);
                assert forall|i: int, j: int|
                    0 <= i < self.entries@.len() && 0 <= j < self.entries@.len() && i != j implies
                    self.entries@[i].0@ != self.entries@[j].0@ by {
                    if i < old_entries.len() && j < old_entries.len() {
                        assert(self.entries@[i] == old_entries[i]);
                        assert(self.entries@[j] == old_entries[j]);
                    } else if i < old_entries.len() {
                        assert(self.entries@[i] == old_entries[i]);
                    } else {
                        assert(self.entries@[j] == old_entries[j]);
                    }
                }
            },
            Some(i) => {
                let ghost old_entries = self.entries@;
                let ghost old_map = self@;
                let ghost k = key@;
                self.entries.set(i, (key, value));
                assert(self.entries@ == old_entries.update(i as int, (self.entries@[i as int])));
                assert(distinct_keys(self.entries@)) by {
                    assert forall|a: int, b: int|
                        0 <= a < self.entries@.len() && 0 <= b < self.entries@.len() && a != b implies
                        self.entries@[a].0@ != self.entries@[b].0@ by {
                        assert(self.entries@[a].0@ == old_entries[a].0@);
                        assert(self.entries@[b].0@ == old_entries[b].0@);
                    }
                }
                assert forall|k2: Seq<char>| #[trigger] self@.contains_key(k2) == old_map.insert(k, value).contains_key(k2) by {
                    lemma_map_of_contains(self.entries@, k2);
                    lemma_map_of_contains(old_entries, k2);
                    if exists|j: int| 0 <= j < old_entries.len() && #[trigger] old_entries[j].0@ == k2 {
                        let j = choose|j: int| 0 <= j < old_entries.len() && #[trigger] old_entries[j].0@ == k2;
                        assert(self.entries@[j].0@ == k2);
                    }
                    if exists|j: int| 0 <= j < self.entries@.len() && #[trigger] self.entries@[j].0@ == k2 {
                        let j = choose|j: int| 0 <= j < self.entries@.len() && #[trigger] self.entries@[j].0@ == k2;
                        assert(old_entries[j].0@ == k2);
                    }
                }
                assert forall|k2: Seq<char>| #[trigger] self@.contains_key(k2) implies self@[k2]
                    == old_map.insert(k, value)[k2] by {
                    lemma_map_of_contains(self.entries@, k2);
                    let j = choose|j: int| 0 <= j < self.entries@.len() && #[trigger] self.entries@[j].0@ == k2;
                    lemma_map_of_value(self.entries@, j);
                    if j != i {
                        lemma_map_of_value(old_entries, j);
                        assert(self.entries@[j] == old_entries[j]);
                    }
                }
                assert(self@ =~= old_map.insert(k, value));
            },
        }
    }

    /// Removes `key`, giving back its value when it was present.
    pub fn remove(&mut self, key: &String) -> (r: Option<V>)
        requires
            old(self).wf(),
        ensures
            final(self).wf(),
            final(self)@ == old(self)@.remove(key@),
            r is Some <==> old(self)@.contains_key(key@),
            r matches Some(v) ==> v == old(self)@[key@],
    {
        match self.find(key) {
            None => {
                assert(self@ =~= self@.remove(key@));
                None
            },
            Some(i) => {
                let ghost old_entries = self.entries@;
                let ghost old_map = self@;
                let ghost k = key@;
                let (_, v) = self.entries.remove(i);
                assert(distinct_keys(self.entries@)) by {
                    assert forall|a: int, b: int|
                        0 <= a < self.entries@.len() && 0 <= b < self.entries@.len() && a != b implies
                        self.entries@[a].0@ != self.entries@[b].0@ by {
                        let a2 = if a < i { a } else { a + 1 };
                        let b2 = if b < i { b } else { b + 1 };
                        assert(self.entries@[a] == old_entries[a2]);
                        assert(self.entries@[b] == old_entries[b2]);
                    }
                }
                assert forall|k2: Seq<char>| #[trigger] self@.contains_key(k2) == old_map.remove(k).contains_key(k2) by {
                    lemma_map_of_contains(self.entries@, k2);
                    lemma_map_of_contains(old_entries, k2);
                    if exists|j: int| 0 <= j < old_entries.len() && #[trigger] old_entries[j].0@ == k2 {
                        let j = choose|j: int| 0 <= j < old_entries.len() && #[trigger] old_entries[j].0@ == k2;
                        if j < i {
                            assert(self.entries@[j].0@ == k2);
                        } else if j > i {
                            assert(self.entries@[j - 1].0@ == k2);
                        }
                    }
                    if exists|j: int| 0 <= j < self.entries@.len() && #[trigger] self.entries@[j].0@ == k2 {
                        let j = choose|j: int| 0 <= j < self.entries@.len() && #[trigger] self.entries@[j].0@ == k2;
                        let j2 = if j < i { j } else { j + 1 };
                        assert(old_entries[j2].0@ == k2);
                        assert(j2 != i);
                    }
                }
                assert forall|k2: Seq<char>| #[trigger] self@.contains_key(k2) implies self@[k2]
                    == old_map.remove(k)[k2] by {
                    lemma_map_of_contains(self.entries@, k2);
                    let j = choose|j: int| 0 <= j < self.entries@.len() && #[trigger] self.entries@[j].0@ == k2;
                    lemma_map_of_value(self.entries@, j);
                    let j2 = if j < i { j } else { j + 1 };
                    assert(self.entries@[j] == old_entries[j2]);
                    lemma_map_of_value(old_entries, j2);
                }
                assert(self@ =~= old_map.remove(k));
                Some(v)
            },
        }
    }

    pub fn clear(&mut self)
        ensures
            final(self).wf(),
            final(self)@ == Map::<Seq<char>, V>::empty(),
    {
        self.entries.clear();
    }
}


/// A set of strings, kept as a list without repeats in insertion order.
pub struct StrSet {
    pub items: Vec<String>,
}

impl StrSet {
    pub open spec fn wf(&self) -> bool {
        forall|i: int, j: int|
            0 <= i < self.items@.len() && 0 <= j < self.items@.len() && i != j ==> self.items@[i]@
                != self.items@[j]@
    }

    pub open spec fn view(&self) -> Set<Seq<char>> {
        Set::new(|a: Seq<char>| exists|i: int| 0 <= i < self.items@.len() && #[trigger] self.items@[i]@ == a)
    }

    pub fn new() -> (s: Self)
        ensures
            s.wf(),
            s@ == Set::<Seq<char>>::empty(),
    {
        let s = StrSet { items: Vec::new() };
        assert(s@ =~= Set::<Seq<char>>::empty());
        s
    }

    pub fn contains(&self, a: &String) -> (r: bool)
        ensures
            r == self@.contains(a@),
    {
        let mut i: usize = 0;
        while i < self.items.len()
            invariant
                i <= self.items@.len(),
                forall|j: int| 0 <= j < i ==> #[trigger] self.items@[j]@ != a@,
            decreases self.items@.len() - i,
        {
            if self.items[i] == *a {
                assert(self.items@[i as int]@ == a@);
                return true;
            }
            i = i + 1;
        }
        false
    }

    /// Adds `a` unless it is already there.
    pub fn insert(&mut self, a: String)
        requires
            old(self).wf(),
        ensures
            final(self).wf(),
            final(self)@ == old(self)@.insert(a@),
    {
        if !self.contains(&a) {
            let ghost old_items = self.items@;
            let ghost av = a@;
            self.items.push(a);
            assert forall|i: int, j: int|
                0 <= i < self.items@.len() && 0 <= j < self.items@.len() && i != j implies
                self.items@[i]@ != self.items@[j]@ by {
                if i < old_items.len() && j < old_items.len() {
                    assert(self.items@[i] == old_items[i]);
                    assert(self.items@[j] == old_items[j]);
                } else if i < old_items.len() {
                    assert(self.items@[i] == old_items[i]);
                } else {
                    assert(self.items@[j] == old_items[j]);
                }
            }
            assert forall|x: Seq<char>| self@.contains(x) == old(self)@.insert(av).contains(x) by {
                if old(self)@.contains(x) {
                    let k = choose|k: int| 0 <= k < old_items.len() && #[trigger] old_items[k]@ == x;
                    assert(self.items@[k]@ == x);
                }
                if x == av {
                    assert(self.items@[old_items.len() as int]@ == x);
                }
                if self@.contains(x) {
                    let k = choose|k: int| 0 <= k < self.items@.len() && #[trigger] self.items@[k]@ == x;
                    if k < old_items.len() {
                        assert(old_items[k]@ == x);
                    }
                }
            }
            assert(self@ =~= old(self)@.insert(av));
        } else {
            assert(self@ =~= old(self)@.insert(a@));
        }
    }

    /// Removes `a`, if it is there.
    pub fn remove(&mut self, a: &String)
        requires
            old(self).wf(),
        ensures
            final(self).wf(),
            final(self)@ == old(self)@.remove(a@),
    {
        let ghost old_items = self.items@;
        let mut kept: Vec<String> = Vec::new();
        let mut i: usize = 0;
        while i < self.items.len()
            invariant
                i <= old_items.len(),
                self.items@ == old_items,
                forall|x: int, y: int|
                    0 <= x < old_items.len() && 0 <= y < old_items.len() && x != y ==> old_items[x]@
                        != old_items[y]@,
                forall|x: int, y: int|
                    0 <= x < kept@.len() && 0 <= y < kept@.len() && x != y ==> kept@[x]@ != kept@[y]@,
                forall|x: int| 0 <= x < kept@.len() ==> #[trigger] kept@[x]@ != a@,
                forall|x: int|
                    #![trigger kept@[x]]
                    0 <= x < kept@.len() ==> exists|k: int| 0 <= k < i && #[trigger] old_items[k]@ == kept@[x]@,
                forall|k: int|
                    0 <= k < i && #[trigger] old_items[k]@ != a@ ==> exists|x: int|
                        0 <= x < kept@.len() && kept@[x]@ == old_items[k]@,
            decreases old_items.len() - i,
        {
            let ghost before = kept@;
            if self.items[i] != *a {
                let c = self.items[i].clone();
                kept.push(c);
                assert forall|x: int, y: int|
                    0 <= x < kept@.len() && 0 <= y < kept@.len() && x != y implies kept@[x]@ != kept@[y]@ by {
                    if x < before.len() && y < before.len() {
                        assert(kept@[x] == before[x]);
                        assert(kept@[y] == before[y]);
                    } else if x < before.len() {
                        assert(kept@[x] == before[x]);
                        let k = choose|k: int| 0 <= k < i && #[trigger] old_items[k]@ == before[x]@;
                        assert(k != i);
                    } else {
                        assert(kept@[y] == before[y]);
                        let k = choose|k: int| 0 <= k < i && #[trigger] old_items[k]@ == before[y]@;
                        assert(k != i);
                    }
                }
                assert forall|x: int| #![trigger kept@[x]] 0 <= x < kept@.len() implies exists|k: int|
                    0 <= k < i + 1 && #[trigger] old_items[k]@ == kept@[x]@ by {
                    if x < before.len() {
                        assert(kept@[x] == before[x]);
                        let k = choose|k: int| 0 <= k < i && #[trigger] old_items[k]@ == before[x]@;
                        assert(old_items[k]@ == kept@[x]@);
                    } else {
                        assert(old_items[i as int]@ == kept@[x]@);
                    }
                }
                assert forall|k: int| 0 <= k < i + 1 && #[trigger] old_items[k]@ != a@ implies exists|x: int|
                    0 <= x < kept@.len() && kept@[x]@ == old_items[k]@ by {
                    if k < i {
                        let x = choose|x: int| 0 <= x < before.len() && before[x]@ == old_items[k]@;
                        assert(kept@[x] == before[x]);
                    } else {
                        assert(kept@[before.len() as int]@ == old_items[k]@);
                    }
                }
            }
            i = i + 1;
        }
        self.items = kept;
        assert forall|x: Seq<char>| self@.contains(x) == old(self)@.remove(a@).contains(x) by {
            if self@.contains(x) {
                let j = choose|j: int| 0 <= j < self.items@.len() && #[trigger] self.items@[j]@ == x;
                let k = choose|k: int| 0 <= k < old_items.len() && #[trigger] old_items[k]@ == self.items@[j]@;
                assert(old(self)@.contains(x));
            }
            if old(self)@.remove(a@).contains(x) {
                let k = choose|k: int| 0 <= k < old_items.len() && #[trigger] old_items[k]@ == x;
                assert(old_items[k]@ != a@);
            }
        }
        assert(self@ =~= old(self)@.remove(a@));
    }
}

} // verus!
