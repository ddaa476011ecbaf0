//! A map from string identifiers to values, kept as a vector of entries in
//! insertion order with no identifier twice.

use vstd::prelude::*;

verus! {

/// Entries of `s` as a map from identifier to value.
pub open spec fn entries_map<V>(s: Seq<(String, V)>) -> Map<Seq<char>, V>
    decreases s.len(),
{
    if s.len() == 0 {
        Map::empty()
    } else {
        entries_map(s.drop_last()).insert(s.last().0@, s.last().1)
    }
}

/// No identifier occurs twice.
pub open spec fn unique_keys<V>(s: Seq<(String, V)>) -> bool {
    forall|i: int, j: int| 0 <= i < j < s.len() ==> (#[trigger] s[i]).0@ != (#[trigger] s[j]).0@
}

/// The map of unique entries holds exactly their identifiers, each with
/// its entry's value.
pub proof fn lemma_entries_map<V>(s: Seq<(String, V)>)
    requires
        unique_keys(s),
    ensures
        forall|k: Seq<char>|
            #![trigger entries_map(s).contains_key(k)]
            entries_map(s).contains_key(k) <==> exists|i: int| 0 <= i < s.len() && s[i].0@ == k,
        forall|i: int|
            0 <= i < s.len() ==> entries_map(s).contains_key((#[trigger] s[i]).0@) && entries_map(
                s,
            )[s[i].0@] == s[i].1,
        entries_map(s).dom().finite(),
        entries_map(s).len() == s.len(),
    decreases s.len(),
{
    if s.len() > 0 {
        let d = s.drop_last();
        assert(unique_keys(d)) by {
            assert forall|i: int, j: int| 0 <= i < j < d.len() implies (#[trigger] d[i]).0@ != (
            #[trigger] d[j]).0@ by {
                assert(d[i] == s[i] && d[j] == s[j]);
            }
        }
        lemma_entries_map(d);
        let last = s.last();
        assert(s[s.len() - 1] == last);
        assert forall|k: Seq<char>| #![trigger entries_map(s).contains_key(k)]
            entries_map(s).contains_key(k) <==> exists|i: int| 0 <= i < s.len() && s[i].0@ == k by {
            if entries_map(s).contains_key(k) && k != last.0@ {
                let i = choose|i: int| 0 <= i < d.len() && d[i].0@ == k;
                assert(s[i] == d[i]);
            }
            if exists|i: int| 0 <= i < s.len() && s[i].0@ == k {
                let i = choose|i: int| 0 <= i < s.len() && s[i].0@ == k;
                if i < d.len() {
                    assert(s[i] == d[i]);
                }
            }
        }
        assert forall|i: int| 0 <= i < s.len() implies entries_map(s).contains_key(
            (#[trigger] s[i]).0@,
        ) && entries_map(s)[s[i].0@] == s[i].1 by {
            if i < d.len() {
                assert(s[i] == d[i]);
                assert(s[i].0@ != last.0@);
            }
        }
        assert(!entries_map(d).contains_key(last.0@)) by {
            if entries_map(d).contains_key(last.0@) {
                let i = choose|i: int| 0 <= i < d.len() && d[i].0@ == last.0@;
                assert(s[i] == d[i]);
            }
        }
    }
}

/// Changing the value of one entry changes only that identifier's value.
pub proof fn lemma_update_value<V>(s: Seq<(String, V)>, i: int, x: V)
    requires
        unique_keys(s),
        0 <= i < s.len(),
    ensures
        unique_keys(s.update(i, (s[i].0, x))),
        entries_map(s.update(i, (s[i].0, x))) == entries_map(s).insert(s[i].0@, x),
{
    let after = s.update(i, (s[i].0, x));
    assert forall|a: int, b: int| 0 <= a < b < after.len() implies (#[trigger] after[a]).0@ != (
    #[trigger] after[b]).0@ by {
        assert(after[a].0 == s[a].0 && after[b].0 == s[b].0);
    }
    lemma_entries_map(s);
    lemma_entries_map(after);
    let key = s[i].0@;
    assert(entries_map(after) =~= entries_map(s).insert(key, x)) by {
        assert forall|k: Seq<char>| #[trigger] entries_map(after).contains_key(k)
            == entries_map(s).insert(key, x).contains_key(k) by {
            if entries_map(after).contains_key(k) {
                let j = choose|j: int| 0 <= j < after.len() && after[j].0@ == k;
                assert(after[j].0 == s[j].0);
            }
            if entries_map(s).contains_key(k) {
                let j = choose|j: int| 0 <= j < s.len() && s[j].0@ == k;
                assert(after[j].0 == s[j].0);
            }
            if k == key {
                assert(after[i].0@ == k);
            }
        }
        assert forall|k: Seq<char>| #[trigger] entries_map(after).contains_key(k) implies entries_map(
            after,
        )[k] == entries_map(s).insert(key, x)[k] by {
            let j = choose|j: int| 0 <= j < after.len() && after[j].0@ == k;
            if j != i {
                assert(after[j] == s[j]);
            }
        }
    }
}

/// A map from string identifiers to values.
pub struct IdMap<V> {
    entries: Vec<(String, V)>,
}

impl<V> IdMap<V> {
    /// The entries, in insertion order.
    pub closed spec fn entries_seq(&self) -> Seq<(String, V)> {
        self.entries@
    }

    /// The identifiers and their values.
    pub closed spec fn view(&self) -> Map<Seq<char>, V> {
        entries_map(self.entries@)
    }

    /// No identifier occurs twice.
    pub closed spec fn wf(&self) -> bool {
        unique_keys(self.entries@)
    }

    /// The map view agrees with the entries.
    pub proof fn lemma_view(&self)
        requires
            self.wf(),
        ensures
            unique_keys(self.entries_seq()),
            self.view() == entries_map(self.entries_seq()),
            forall|k: Seq<char>|
                #![trigger self.view().contains_key(k)]
                self.view().contains_key(k) <==> exists|i: int|
                    0 <= i < self.entries_seq().len() && self.entries_seq()[i].0@ == k,
            forall|i: int|
                0 <= i < self.entries_seq().len() ==> self.view().contains_key(
                    (#[trigger] self.entries_seq()[i]).0@,
                ) && self.view()[self.entries_seq()[i].0@] == self.entries_seq()[i].1,
            self.view().dom().finite(),
            self.view().len() == self.entries_seq().len(),
    {
        lemma_entries_map(self.entries@);
    }

    /// An empty map.
    pub fn new() -> (r: IdMap<V>)
        ensures
            r.wf(),
            r.view() == Map::<Seq<char>, V>::empty(),
            r.entries_seq() == Seq::<(String, V)>::empty(),
    {
        IdMap { entries: Vec::new() }
    }

    /// Position of the entry of `key`.
    fn position(&self, key: &String) -> (r: Option<usize>)
        requires
            self.wf(),
        ensures
            r matches Some(i) ==> i < self.entries@.len() && self.entries@[i as int].0@ == key@,
            r is None ==> forall|i: int|
                0 <= i < self.entries@.len() ==> (#[trigger] self.entries@[i]).0@ != key@,
    {
        let mut i: usize = 0;
        while i < self.entries.len()
            invariant
                0 <= i <= self.entries.len(),
                forall|j: int| 0 <= j < i ==> (#[trigger] self.entries@[j]).0@ != key@,
            decreases self.entries.len() - i,
        {
            if self.entries[i].0 == *key {
                return Some(i);
            }
            i = i + 1;
        }
        None
    }

    /// Sets the value of `key`, replacing an earlier one in place, or
    /// appending a new entry.
    pub fn insert(&mut self, key: String, value: V)
        requires
            old(self).wf(),
        ensures
            final(self).wf(),
            final(self).view() == old(self).view().insert(key@, value),
    {
        proof {
            lemma_entries_map(self.entries@);
        }
        match self.position(&key) {
            Some(i) => {
                let ghost before = self.entries@;
                self.entries.set(i, (key, value));
                proof {
                    let after = self.entries@;
                    assert(unique_keys(after)) by {
                        assert forall|a: int, b: int| 0 <= a < b < after.len() implies (
                        #[trigger] after[a]).0@ != (#[trigger] after[b]).0@ by {
                            if a != i as int && b != i as int {
                                assert(after[a] == before[a] && after[b] == before[b]);
                            } else if a == i as int {
                                assert(after[b] == before[b]);
                                assert(before[b].0@ != before[a].0@);
                            } else {
                                assert(after[a] == before[a]);
                                assert(before[b].0@ != before[a].0@);
                            }
                        }
                    }
                    lemma_entries_map(after);
                    assert(entries_map(after) =~= entries_map(before).insert(key@, value)) by {
                        assert forall|k: Seq<char>| #[trigger] entries_map(after).contains_key(k)
                            == entries_map(before).insert(key@, value).contains_key(k) by {
                            if entries_map(after).contains_key(k) {
                                let j = choose|j: int| 0 <= j < after.len() && after[j].0@ == k;
                                if j != i as int {
                                    assert(after[j] == before[j]);
                                }
                            }
                            if entries_map(before).contains_key(k) {
                                let j = choose|j: int| 0 <= j < before.len() && before[j].0@ == k;
                                if j != i as int {
                                    assert(after[j] == before[j]);
                                }
                                assert(after[j].0@ == k);
                            }
                            if k == key@ {
                                assert(after[i as int].0@ == k);
                            }
                        }
                        assert forall|k: Seq<char>| #[trigger] entries_map(after).contains_key(k)
                            implies entries_map(after)[k] == entries_map(before).insert(
                            key@,
                            value,
                        )[k] by {
                            let j = choose|j: int| 0 <= j < after.len() && after[j].0@ == k;
                            if j != i as int {
                                assert(after[j] == before[j]);
                            }
                        }
                    }
                }
            },
            None => {
                let ghost before = self.entries@;
                self.entries.push((key, value));
                proof {
                    let after = self.entries@;
                    assert(after.drop_last() =~= before);
                    assert forall|a: int, b: int| 0 <= a < b < after.len() implies (
                    #[trigger] after[a]).0@ != (#[trigger] after[b]).0@ by {
                        assert(after[a] == before[a]);
                        if b < before.len() {
                            assert(after[b] == before[b]);
                        }
                    }
                }
            },
        }
    }

    /// The value of `key`, if any.
    pub fn get(&self, key: &String) -> (r: Option<&V>)
        requires
            self.wf(),
        ensures
            r matches Some(v) ==> self.view().contains_key(key@) && *v == self.view()[key@],
            r is None ==> !self.view().contains_key(key@),
    {
        proof {
            lemma_entries_map(self.entries@);
        }
        match self.position(key) {
            Some(i) => Some(&self.entries[i].1),
            None => None,
        }
    }

    /// The value of `key`, if any, for modification in place.
    pub fn get_mut(&mut self, key: &String) -> (r: Option<&mut V>)
        requires
            old(self).wf(),
        ensures
            final(self).wf(),
            final(self).entries_seq().len() == old(self).entries_seq().len(),
            forall|i: int|
                0 <= i < final(self).entries_seq().len() ==> (#[trigger] final(self).entries_seq()[i]).0
                    == old(self).entries_seq()[i].0,
            match r {
                Some(v) => {
                    &&& old(self).view().contains_key(key@)
                    &&& *v == old(self).view()[key@]
                    &&& final(self).view() == old(self).view().insert(key@, *final(v))
                },
                None => !old(self).view().contains_key(key@) && final(self).view() == old(
                    self,
                ).view(),
            },
    {
        proof {
            lemma_entries_map(self.entries@);
        }
        match self.position(key) {
            Some(i) => {
                proof {
                    assert forall|x: V| #![trigger self.entries@.update(i as int, (self.entries@[i as int].0, x))]
                        unique_keys(self.entries@.update(i as int, (self.entries@[i as int].0, x)))
                            && entries_map(self.entries@.update(i as int, (self.entries@[i as int].0, x)))
                            == entries_map(self.entries@).insert(key@, x) by {
                        lemma_update_value(self.entries@, i as int, x);
                    }
                }
                let entry = &mut self.entries[i];
                Some(&mut entry.1)
            },
            None => None,
        }
    }

    /// The identifiers, in insertion order.
    pub fn keys(&self) -> (r: Vec<String>)
        ensures
            r@.len() == self.entries_seq().len(),
            forall|i: int| 0 <= i < r@.len() ==> #[trigger] r@[i] == self.entries_seq()[i].0,
    {
        let mut out: Vec<String> = Vec::new();
        let mut i: usize = 0;
        while i < self.entries.len()
            invariant
                0 <= i <= self.entries.len(),
                out@.len() == i,
                forall|j: int| 0 <= j < i ==> #[trigger] out@[j] == self.entries@[j].0,
            decreases self.entries.len() - i,
        {
            out.push(self.entries[i].0.clone());
            i = i + 1;
        }
        out
    }

    /// The entries, in insertion order.
    pub fn entries(&self) -> (r: &Vec<(String, V)>)
        ensures
            r@ == self.entries_seq(),
    {
        &self.entries
    }

    /// Number of entries.
    pub fn len(&self) -> (r: usize)
        ensures
            r == self.entries_seq().len(),
    {
        self.entries.len()
    }
}

} // verus!
