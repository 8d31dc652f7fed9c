//! Collections keyed by names: a set of names and a map from names to values.
//! Both keep their entries in insertion order and never hold a name twice.
use vstd::prelude::*;

use crate::text::str_eq;

verus! {

/// The names held by a sequence of strings.
pub open spec fn name_set(names: Seq<String>) -> Set<Seq<char>> {
    Set::new(|n: Seq<char>| exists|i: int| 0 <= i < names.len() && #[trigger] names[i]@ == n)
}

/// A set of names.
#[derive(Debug)]
pub struct NameSet {
    names: Vec<String>,
}

impl View for NameSet {
    type V = Set<Seq<char>>;

    closed spec fn view(&self) -> Set<Seq<char>> {
        name_set(self.names@)
    }
}

impl NameSet {
    #[verifier::type_invariant]
    closed spec fn wf(&self) -> bool {
        forall|i: int, j: int|
            0 <= i < j < self.names@.len() ==> self.names@[i]@ != self.names@[j]@
    }

    /// The number of names in the set.
    pub closed spec fn size(&self) -> nat {
        self.names@.len()
    }

    /// The empty set.
    pub fn new() -> (s: NameSet)
        ensures
            s@ == Set::<Seq<char>>::empty(),
    {
        let s = NameSet { names: Vec::new() };
        assert(s@ =~= Set::<Seq<char>>::empty());
        s
    }

    /// Whether `name` is in the set.
    pub fn contains(&self, name: &str) -> (b: bool)
        ensures
            b == self@.contains(name@),
    {
        let mut i: usize = 0;
        while i < self.names.len()
            invariant
                i <= self.names@.len(),
                forall|k: int| 0 <= k < i ==> self.names@[k]@ != name@,
            decreases self.names.len() - i,
        {
            if str_eq(self.names[i].as_str(), name) {
                assert(self.names@[i as int]@ == name@);
                return true;
            }
            i = i + 1;
        }
        false
    }

    /// The number of names in the set.
    pub fn len(&self) -> (n: usize)
        ensures
            n == self@.len(),
    {
        proof {
            use_type_invariant(self);
            lemma_name_set_len(self.names@);
        }
        self.names.len()
    }

    /// Removes `name` from the set.
    pub fn remove(&mut self, name: &str)
        ensures
            final(self)@ == old(self)@.remove(name@),
    {
        proof {
            use_type_invariant(&*self);
        }
        let mut names: Vec<String> = Vec::new();
        std::mem::swap(&mut names, &mut self.names);
        let ghost before = names@;
        let mut kept: Vec<String> = Vec::new();
        let mut i: usize = 0;
        while i < names.len()
            invariant
                names@ == before,
                i <= names@.len(),
                forall|a: int, b: int| 0 <= a < b < before.len() ==> before[a]@ != before[b]@,
                forall|a: int, b: int| 0 <= a < b < kept@.len() ==> kept@[a]@ != kept@[b]@,
                name_set(kept@) == name_set(before.subrange(0, i as int)).remove(name@),
                forall|k: int| 0 <= k < kept@.len() ==> name_set(before.subrange(0, i as int)).contains(
                    #[trigger] kept@[k]@,
                ),
            decreases names.len() - i,
        {
            let ghost prefix = before.subrange(0, i as int);
            let ghost next = before.subrange(0, i + 1);
            proof {
                assert(next =~= prefix.push(before[i as int]));
                lemma_name_set_push(prefix, before[i as int]);
                assert(!name_set(prefix).contains(before[i as int]@)) by {
                    if name_set(prefix).contains(before[i as int]@) {
                        let k = choose|k: int| 0 <= k < prefix.len() && #[trigger] prefix[k]@
                            == before[i as int]@;
                        assert(before[k]@ != before[i as int]@);
                    }
                }
            }
            if !str_eq(names[i].as_str(), name) {
                let ghost k0 = kept@;
                let n = names[i].clone();
                kept.push(n);
                proof {
                    assert(kept@.drop_last() =~= k0);
                    assert(kept@ =~= k0.push(kept@.last()));
                    lemma_name_set_push(k0, kept@.last());
                    assert(name_set(kept@) =~= name_set(next).remove(name@));
                    assert forall|a: int, b: int| 0 <= a < b < kept@.len() implies kept@[a]@
                        != kept@[b]@ by {
                        if b == kept@.len() - 1 {
                            assert(kept@[a] == k0[a]);
                            assert(name_set(prefix).contains(k0[a]@));
                        } else {
                            assert(kept@[a] == k0[a]);
                            assert(kept@[b] == k0[b]);
                        }
                    }
                    assert forall|k: int| 0 <= k < kept@.len() implies name_set(next).contains(
                        #[trigger] kept@[k]@,
                    ) by {
                        if k < k0.len() {
                            assert(kept@[k] == k0[k]);
                            assert(name_set(prefix).contains(k0[k]@));
                        } else {
                            assert(next[i as int]@ == kept@[k]@);
                        }
                    }
                }
            } else {
                proof {
                    assert(name_set(kept@) =~= name_set(next).remove(name@));
                    assert forall|k: int| 0 <= k < kept@.len() implies name_set(next).contains(
                        #[trigger] kept@[k]@,
                    ) by {
                        assert(name_set(prefix).contains(kept@[k]@));
                    }
                }
            }
            i = i + 1;
        }
        proof {
            assert(before.subrange(0, before.len() as int) =~= before);
        }
        self.names = kept;
    }

    /// Adds `name`; answers whether it was not in the set before.
    pub fn insert(&mut self, name: String) -> (added: bool)
        ensures
            final(self)@ == old(self)@.insert(name@),
            added == !old(self)@.contains(name@),
    {
        if self.contains(name.as_str()) {
            assert(self@.insert(name@) =~= self@);
            return false;
        }
        proof {
            use_type_invariant(&*self);
        }
        let ghost before = self.names@;
        let mut names: Vec<String> = Vec::new();
        std::mem::swap(&mut names, &mut self.names);
        proof {
            assert forall|i: int, j: int| 0 <= i < j < names@.len() implies names@[i]@ != names@[j]@ by {}
        }
        names.push(name);
        proof {
            assert forall|i: int, j: int| 0 <= i < j < names@.len() implies names@[i]@
                != names@[j]@ by {
                if j == before.len() {
                    assert(names@[i] == before[i]);
                    assert(!name_set(before).contains(name@));
                    if names@[i]@ == names@[j]@ {
                        assert(before[i]@ == name@);
                    }
                } else {
                    assert(names@[i] == before[i]);
                    assert(names@[j] == before[j]);
                }
            }
        }
        self.names = names;
        proof {
            assert(self.names@[before.len() as int]@ == name@);
            assert forall|n: Seq<char>| self@.contains(n) <==> old(self)@.insert(name@).contains(
                n,
            ) by {
                if self@.contains(n) {
                    let i = choose|i: int| 0 <= i < self.names@.len() && #[trigger] self.names@[i]@
                        == n;
                    if i < before.len() {
                        assert(before[i]@ == n);
                    }
                }
                if old(self)@.contains(n) {
                    let i = choose|i: int| 0 <= i < before.len() && #[trigger] before[i]@ == n;
                    assert(self.names@[i]@ == n);
                }
            }
            assert(self@ =~= old(self)@.insert(name@));
        }
        true
    }
}

proof fn lemma_name_set_push(s: Seq<String>, x: String)
    ensures
        name_set(s.push(x)) == name_set(s).insert(x@),
{
    let t = s.push(x);
    assert forall|n: Seq<char>| name_set(t).contains(n) <==> name_set(s).insert(x@).contains(n) by {
        if name_set(t).contains(n) {
            let k = choose|k: int| 0 <= k < t.len() && #[trigger] t[k]@ == n;
            if k < s.len() {
                assert(s[k] == t[k]);
            }
        }
        if name_set(s).contains(n) {
            let k = choose|k: int| 0 <= k < s.len() && #[trigger] s[k]@ == n;
            assert(t[k] == s[k]);
        }
        if n == x@ {
            assert(t[s.len() as int]@ == n);
        }
    }
    assert(name_set(t) =~= name_set(s).insert(x@));
}

/// The names held by a sequence of strings are finitely many, and no more than its length.
pub proof fn lemma_name_set_bound(names: Seq<String>)
    ensures
        name_set(names).finite(),
        name_set(names).len() <= names.len(),
    decreases names.len(),
{
    if names.len() == 0 {
        assert(name_set(names) =~= Set::<Seq<char>>::empty());
    } else {
        let rest = names.drop_last();
        lemma_name_set_bound(rest);
        assert(names =~= rest.push(names.last()));
        lemma_name_set_push(rest, names.last());
    }
}

proof fn lemma_name_set_len(names: Seq<String>)
    requires
        forall|i: int, j: int| 0 <= i < j < names.len() ==> names[i]@ != names[j]@,
    ensures
        name_set(names).finite(),
        name_set(names).len() == names.len(),
    decreases names.len(),
{
    if names.len() == 0 {
        assert(name_set(names) =~= Set::<Seq<char>>::empty());
    } else {
        let rest = names.drop_last();
        lemma_name_set_len(rest);
        assert(name_set(names) =~= name_set(rest).insert(names.last()@)) by {
            assert forall|n: Seq<char>| name_set(names).contains(n) <==> name_set(rest).insert(
                names.last()@,
            ).contains(n) by {
                if name_set(names).contains(n) {
                    let k = choose|k: int| 0 <= k < names.len() && #[trigger] names[k]@ == n;
                    if k < rest.len() {
                        assert(rest[k] == names[k]);
                    }
                }
                if name_set(rest).contains(n) {
                    let k = choose|k: int| 0 <= k < rest.len() && #[trigger] rest[k]@ == n;
                    assert(names[k] == rest[k]);
                }
            }
        }
        assert(!name_set(rest).contains(names.last()@)) by {
            if name_set(rest).contains(names.last()@) {
                let k = choose|k: int| 0 <= k < rest.len() && #[trigger] rest[k]@ == names.last()@;
                assert(names[k] == rest[k]);
            }
        }
    }
}

/// The map held by a sequence of entries, where an earlier entry for a name wins.
pub open spec fn entries_map<V>(entries: Seq<(String, V)>) -> Map<Seq<char>, V>
    decreases entries.len(),
{
    if entries.len() == 0 {
        Map::empty()
    } else {
        let rest = entries_map(entries.drop_last());
        let last = entries.last();
        if rest.contains_key(last.0@) {
            rest
        } else {
            rest.insert(last.0@, last.1)
        }
    }
}

/// A map from names to values.
#[derive(Debug)]
pub struct NameMap<V> {
    entries: Vec<(String, V)>,
}

impl<V> View for NameMap<V> {
    type V = Map<Seq<char>, V>;

    closed spec fn view(&self) -> Map<Seq<char>, V> {
        entries_map(self.entries@)
    }
}

proof fn lemma_entries_map_lookup<V>(entries: Seq<(String, V)>, n: Seq<char>)
    ensures
        entries_map(entries).contains_key(n) <==> exists|i: int|
            0 <= i < entries.len() && #[trigger] entries[i].0@ == n,
        forall|i: int|
            0 <= i < entries.len() && entries[i].0@ == n && (forall|j: int|
                0 <= j < i ==> entries[j].0@ != n) ==> entries_map(entries).contains_key(n)
                && entries_map(entries)[n] == #[trigger] entries[i].1,
    decreases entries.len(),
{
    if entries.len() > 0 {
        let rest = entries.drop_last();
        lemma_entries_map_lookup(rest, n);
        assert forall|i: int| 0 <= i < rest.len() implies #[trigger] rest[i] == entries[i] by {}
        if exists|i: int| 0 <= i < entries.len() && #[trigger] entries[i].0@ == n {
            let i = choose|i: int| 0 <= i < entries.len() && #[trigger] entries[i].0@ == n;
            if i < rest.len() {
                assert(rest[i].0@ == n);
            }
        }
        assert forall|i: int|
            0 <= i < entries.len() && entries[i].0@ == n && (forall|j: int|
                0 <= j < i ==> entries[j].0@ != n) implies entries_map(entries).contains_key(n)
            && entries_map(entries)[n] == #[trigger] entries[i].1 by {
            if i < rest.len() {
                assert(rest[i] == entries[i]);
                assert forall|j: int| 0 <= j < i implies rest[j].0@ != n by {
                    assert(rest[j] == entries[j]);
                }
                assert(entries_map(rest).contains_key(n));
            } else {
                if entries_map(rest).contains_key(n) {
                    let k = choose|k: int| 0 <= k < rest.len() && #[trigger] rest[k].0@ == n;
                    assert(rest[k] == entries[k]);
                    assert(false);
                }
            }
        }
    }
}

impl<V> NameMap<V> {
    #[verifier::type_invariant]
    closed spec fn unique_keys(&self) -> bool {
        forall|i: int, j: int|
            0 <= i < j < self.entries@.len() ==> self.entries@[i].0@ != self.entries@[j].0@
    }

    /// The number of entries.
    pub closed spec fn size(&self) -> nat {
        self.entries@.len()
    }

    /// The empty map.
    pub fn new() -> (m: NameMap<V>)
        ensures
            m@ == Map::<Seq<char>, V>::empty(),
    {
        let m = NameMap { entries: Vec::new() };
        assert(m@ =~= Map::<Seq<char>, V>::empty());
        m
    }

    /// The value for `name`, if there is one.
    pub fn get(&self, name: &str) -> (r: Option<&V>)
        ensures
            match r {
                Some(v) => self@.contains_key(name@) && self@[name@] == *v,
                None => !self@.contains_key(name@),
            },
    {
        proof {
            lemma_entries_map_lookup(self.entries@, name@);
        }
        let mut i: usize = 0;
        while i < self.entries.len()
            invariant
                i <= self.entries@.len(),
                forall|k: int| 0 <= k < i ==> self.entries@[k].0@ != name@,
            decreases self.entries.len() - i,
        {
            if str_eq(self.entries[i].0.as_str(), name) {
                proof {
                    lemma_entries_map_lookup(self.entries@, name@);
                    assert(self.entries@[i as int].0@ == name@);
                }
                assert(entries_map(self.entries@)[name@] == self.entries@[i as int].1);
                return Some(&self.entries[i].1);
            }
            i = i + 1;
        }
        None
    }

    /// Whether `name` has a value.
    pub fn contains_key(&self, name: &str) -> (b: bool)
        ensures
            b == self@.contains_key(name@),
    {
        match self.get(name) {
            Some(_) => true,
            None => false,
        }
    }

    /// Sets the value for `name`, replacing an earlier one.
    pub fn insert(&mut self, name: String, value: V)
        ensures
            final(self)@ == old(self)@.insert(name@, value),
    {
        proof {
            use_type_invariant(&*self);
            lemma_entries_map_lookup(self.entries@, name@);
        }
        let ghost original = self.entries@;
        assert(forall|a: int, b: int|
            0 <= a < b < original.len() ==> original[a].0@ != original[b].0@);
        let mut entries: Vec<(String, V)> = Vec::new();
        std::mem::swap(&mut entries, &mut self.entries);
        let ghost before = entries@;
        assert(before == original);
        let mut i: usize = 0;
        while i < entries.len()
            invariant
                i <= entries@.len(),
                entries@ == before,
                before == old(self).entries@,
                forall|a: int, b: int| 0 <= a < b < before.len() ==> before[a].0@ != before[b].0@,
                forall|k: int| 0 <= k < i ==> entries@[k].0@ != name@,
            decreases entries.len() - i,
        {
            if str_eq(entries[i].0.as_str(), name.as_str()) {
                let key = name;
                let ghost e = (key, value);
                entries.set(i, (key, value));
                proof {
                    lemma_set_entry(before, i as int, e);
                    assert forall|a: int, b: int| 0 <= a < b < entries@.len() implies entries@[a].0@
                        != entries@[b].0@ by {
                        assert(before[a].0@ != before[b].0@);
                        if a != i && b != i {
                            assert(entries@[a] == before[a] && entries@[b] == before[b]);
                        } else if a == i {
                            assert(entries@[b] == before[b]);
                            assert(entries@[a].0@ == before[a].0@);
                        } else {
                            assert(entries@[a] == before[a]);
                            assert(entries@[b].0@ == before[b].0@);
                        }
                    }
                }
                self.entries = entries;
                return;
            }
            i = i + 1;
        }
        entries.push((name, value));
        proof {
            assert(entries@.drop_last() =~= before);
            assert forall|a: int, b: int| 0 <= a < b < entries@.len() implies entries@[a].0@
                != entries@[b].0@ by {
                assert(entries@[a] == before[a]);
                if b < before.len() {
                    assert(entries@[b] == before[b]);
                }
            }
        }
        self.entries = entries;
        proof {
            assert(self@ =~= old(self)@.insert(name@, value));
        }
    }

    /// Removes the entry for `name`, if there is one.
    pub fn remove(&mut self, name: &str)
        ensures
            final(self)@ == old(self)@.remove(name@),
    {
        proof {
            use_type_invariant(&*self);
        }
        let mut i: usize = 0;
        while i < self.entries.len()
            invariant
                i <= self.entries@.len(),
                forall|k: int| 0 <= k < i ==> self.entries@[k].0@ != name@,
            ensures
                i <= self.entries@.len(),
                forall|k: int| 0 <= k < i ==> self.entries@[k].0@ != name@,
                i < self.entries@.len() ==> self.entries@[i as int].0@ == name@,
            decreases self.entries.len() - i,
        {
            if str_eq(self.entries[i].0.as_str(), name) {
                break;
            }
            i = i + 1;
        }
        if i < self.entries.len() {
            let ghost before = self.entries@;
            assert(forall|a: int, b: int|
                0 <= a < b < before.len() ==> before[a].0@ != before[b].0@);
            let mut entries: Vec<(String, V)> = Vec::new();
            std::mem::swap(&mut entries, &mut self.entries);
            assert(entries@ == before);
            entries.remove(i);
            proof {
                lemma_remove_entry(before, i as int);
                assert forall|a: int, b: int| 0 <= a < b < entries@.len() implies entries@[a].0@
                    != entries@[b].0@ by {
                    let ia = if a < i { a } else { a + 1 };
                    let ib = if b < i { b } else { b + 1 };
                    assert(entries@[a] == before[ia]);
                    assert(entries@[b] == before[ib]);
                }
            }
            self.entries = entries;
        } else {
            proof {
                lemma_entries_map_lookup(self.entries@, name@);
                assert(self@ =~= old(self)@.remove(name@));
            }
        }
    }

    /// The names in insertion order.
    pub closed spec fn key_order(&self) -> Seq<Seq<char>> {
        self.entries@.map_values(|e: (String, V)| e.0@)
    }

    /// The number of entries. The names in insertion order are the map's
    /// names, each once.
    pub fn len(&self) -> (n: usize)
        ensures
            n == self.size(),
            self.key_order().len() == self.size(),
            self.key_order().no_duplicates(),
            forall|k: Seq<char>| self@.contains_key(k) <==> self.key_order().contains(k),
    {
        proof {
            use_type_invariant(self);
            let keys = self.key_order();
            assert forall|a: int, b: int| 0 <= a < keys.len() && 0 <= b < keys.len() && a != b implies keys[a]
                != keys[b] by {
                if a < b {
                    assert(self.entries@[a].0@ != self.entries@[b].0@);
                } else {
                    assert(self.entries@[b].0@ != self.entries@[a].0@);
                }
            }
            assert forall|k: Seq<char>| self@.contains_key(k) <==> keys.contains(k) by {
                lemma_entries_map_lookup(self.entries@, k);
                if keys.contains(k) {
                    let i = choose|i: int| 0 <= i < keys.len() && keys[i] == k;
                    assert(self.entries@[i].0@ == k);
                }
                if self@.contains_key(k) {
                    let i = choose|i: int| 0 <= i < self.entries@.len() && #[trigger] self.entries@[i].0@ == k;
                    assert(keys[i] == k);
                }
            }
        }
        self.entries.len()
    }

    /// The name and value of the entry at `index`, in insertion order.
    pub fn entry(&self, index: usize) -> (e: (&String, &V))
        requires
            index < self.size(),
        ensures
            e.0@ == self.key_order()[index as int],
            self@.contains_key(e.0@),
            self@[e.0@] == *e.1,
    {
        proof {
            use_type_invariant(self);
            lemma_entries_map_lookup(self.entries@, self.entries@[index as int].0@);
            lemma_entries_unique_prefix(self.entries@, index as int);
        }
        (&self.entries[index].0, &self.entries[index].1)
    }
}

impl<V: Clone> NameMap<V> {
    /// A copy of the map: the same names in the same order, each value cloned.
    pub fn copy(&self) -> (m: NameMap<V>)
        ensures
            m.key_order() == self.key_order(),
    {
        proof {
            use_type_invariant(self);
        }
        let mut entries: Vec<(String, V)> = Vec::new();
        let mut i: usize = 0;
        while i < self.entries.len()
            invariant
                i <= self.entries@.len(),
                entries@.len() == i,
                forall|k: int| 0 <= k < i ==> #[trigger] entries@[k].0@ == self.entries@[k].0@,
                forall|a: int, b: int|
                    0 <= a < b < self.entries@.len() ==> self.entries@[a].0@ != self.entries@[b].0@,
            decreases self.entries.len() - i,
        {
            let key = self.entries[i].0.clone();
            let value = self.entries[i].1.clone();
            entries.push((key, value));
            i = i + 1;
        }
        proof {
            assert forall|a: int, b: int| 0 <= a < b < entries@.len() implies entries@[a].0@
                != entries@[b].0@ by {
                assert(entries@[a].0@ == self.entries@[a].0@);
                assert(entries@[b].0@ == self.entries@[b].0@);
            }
        }
        let m = NameMap { entries };
        proof {
            assert(m.key_order() =~= self.key_order());
        }
        m
    }
}

proof fn lemma_set_entry<V>(before: Seq<(String, V)>, i: int, e: (String, V))
    requires
        0 <= i < before.len(),
        before[i].0@ == e.0@,
        forall|k: int| 0 <= k < i ==> before[k].0@ != e.0@,
    ensures
        entries_map(before.update(i, e)) == entries_map(before).insert(e.0@, e.1),
    decreases before.len(),
{
    let after = before.update(i, e);
    if i == before.len() - 1 {
        assert(after.drop_last() =~= before.drop_last());
        lemma_entries_map_lookup(before.drop_last(), e.0@);
        assert(entries_map(after) =~= entries_map(before).insert(e.0@, e.1));
    } else {
        lemma_set_entry(before.drop_last(), i, e);
        assert(after.drop_last() =~= before.drop_last().update(i, e));
        lemma_entries_map_lookup(before.drop_last(), e.0@);
        assert(before.drop_last()[i].0@ == e.0@);
        assert(entries_map(after) =~= entries_map(before).insert(e.0@, e.1));
    }
}

proof fn lemma_remove_entry<V>(before: Seq<(String, V)>, i: int)
    requires
        0 <= i < before.len(),
        forall|a: int, b: int| 0 <= a < b < before.len() ==> before[a].0@ != before[b].0@,
    ensures
        entries_map(before.remove(i)) == entries_map(before).remove(before[i].0@),
{
    let after = before.remove(i);
    let key = before[i].0@;
    assert forall|j: int| 0 <= j < after.len() implies #[trigger] after[j] == (if j < i {
        before[j]
    } else {
        before[j + 1]
    }) by {}
    assert forall|n: Seq<char>| #[trigger] entries_map(after).contains_key(n) == entries_map(
        before,
    ).remove(key).contains_key(n) by {
        lemma_entries_map_lookup(after, n);
        lemma_entries_map_lookup(before, n);
        if entries_map(after).contains_key(n) {
            let j = choose|j: int| 0 <= j < after.len() && #[trigger] after[j].0@ == n;
            let jb = if j < i { j } else { j + 1 };
            assert(before[jb].0@ == n);
            assert(jb != i);
        }
        if entries_map(before).remove(key).contains_key(n) {
            let jb = choose|jb: int| 0 <= jb < before.len() && #[trigger] before[jb].0@ == n;
            assert(jb != i);
            let j = if jb < i { jb } else { jb - 1 };
            assert(after[j].0@ == n);
        }
    }
    assert forall|n: Seq<char>| entries_map(after).contains_key(n) implies #[trigger] entries_map(
        after,
    )[n] == entries_map(before).remove(key)[n] by {
        lemma_entries_map_lookup(after, n);
        lemma_entries_map_lookup(before, n);
        let j = choose|j: int| 0 <= j < after.len() && #[trigger] after[j].0@ == n;
        let jb = if j < i { j } else { j + 1 };
        assert(before[jb].0@ == n);
        assert(forall|k: int| 0 <= k < j ==> after[k].0@ != n) by {
            assert forall|k: int| 0 <= k < j implies after[k].0@ != n by {
                let kb = if k < i { k } else { k + 1 };
                assert(after[k] == before[kb]);
                assert(kb != jb);
            }
        }
        assert(forall|k: int| 0 <= k < jb ==> before[k].0@ != n);
        assert(entries_map(after)[n] == after[j].1);
        assert(entries_map(before)[n] == before[jb].1);
    }
    assert(entries_map(after) =~= entries_map(before).remove(key));
}

proof fn lemma_entries_unique_prefix<V>(entries: Seq<(String, V)>, index: int)
    requires
        0 <= index < entries.len(),
    ensures
        entries_map(entries).contains_key(entries[index].0@),
{
    lemma_entries_map_lookup(entries, entries[index].0@);
}

} // verus!
