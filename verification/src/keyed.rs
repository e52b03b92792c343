//! A table of values keyed by strings: the sessions by id, the remembered
//! preferences by name and the tool servers by id are held in one.

use vstd::prelude::*;

verus! {

/// No key occurs twice in `s`.
pub open spec fn distinct_keys<V>(s: Seq<(String, V)>) -> bool {
    forall|i: int, j: int| 0 <= i < j < s.len() ==> s[i].0@ != s[j].0@
}

/// The map that `s` stands for: each key to the value last given with it.
pub open spec fn seq_to_map<V>(s: Seq<(String, V)>) -> Map<Seq<char>, V>
    decreases s.len(),
{
    if s.len() == 0 {
        Map::empty()
    } else {
        seq_to_map(s.drop_last()).insert(s.last().0@, s.last().1)
    }
}

/// Under distinct keys, the map holds exactly the keys of `s`, each with
/// its value in `s`, and has as many entries as `s`.
pub proof fn lemma_seq_to_map<V>(s: Seq<(String, V)>)
    requires
        distinct_keys(s),
    ensures
        forall|i: int|
            0 <= i < s.len() ==> #[trigger] seq_to_map(s).contains_key(s[i].0@) && seq_to_map(
                s,
            )[s[i].0@] == s[i].1,
        forall|k: Seq<char>|
            #[trigger] seq_to_map(s).contains_key(k) ==> exists|i: int|
                0 <= i < s.len() && s[i].0@ == k,
        seq_to_map(s).dom().finite(),
        seq_to_map(s).len() == s.len(),
    decreases s.len(),
{
    if s.len() > 0 {
        let t = s.drop_last();
        assert(distinct_keys(t));
        lemma_seq_to_map(t);
        let m = seq_to_map(t);
        let k = s.last().0@;
        assert(!m.contains_key(k)) by {
            if m.contains_key(k) {
                let i = choose|i: int| 0 <= i < t.len() && t[i].0@ == k;
                assert(s[i].0@ == s[s.len() - 1].0@);
            }
        }
        assert forall|i: int| 0 <= i < s.len() implies #[trigger] seq_to_map(s).contains_key(
            s[i].0@,
        ) && seq_to_map(s)[s[i].0@] == s[i].1 by {
            if i < s.len() - 1 {
                assert(t[i] == s[i]);
            }
        }
        assert forall|k2: Seq<char>| #[trigger] seq_to_map(s).contains_key(k2) implies exists|
            i: int,
        | 0 <= i < s.len() && s[i].0@ == k2 by {
            if k2 != k {
                let i = choose|i: int| 0 <= i < t.len() && t[i].0@ == k2;
                assert(s[i] == t[i]);
            } else {
                assert(s[s.len() - 1].0@ == k2);
            }
        }
    }
}

/// Replacing the entry at `i` by one with the same key keeps the keys
/// distinct and gives that key the new value.
proof fn lemma_update_entry<V>(s: Seq<(String, V)>, i: int, kv: (String, V))
    requires
        distinct_keys(s),
        0 <= i < s.len(),
        s[i].0@ == kv.0@,
    ensures
        distinct_keys(s.update(i, kv)),
        seq_to_map(s.update(i, kv)) == seq_to_map(s).insert(kv.0@, kv.1),
{
    let t = s.update(i, kv);
    let k = kv.0@;
    assert forall|a: int, b: int| 0 <= a < b < t.len() implies t[a].0@ != t[b].0@ by {
        assert(s[a].0@ != s[b].0@);
    }
    lemma_seq_to_map(s);
    lemma_seq_to_map(t);
    assert forall|k2: Seq<char>| #[trigger] seq_to_map(t).contains_key(k2) implies seq_to_map(
        s,
    ).insert(k, kv.1).contains_key(k2) by {
        let j = choose|j: int| 0 <= j < t.len() && t[j].0@ == k2;
        if j != i {
            assert(s[j] == t[j]);
        }
    }
    assert forall|k2: Seq<char>| #[trigger] seq_to_map(s).insert(k, kv.1).contains_key(k2) implies seq_to_map(
        t,
    ).contains_key(k2) && seq_to_map(t)[k2] == seq_to_map(s).insert(k, kv.1)[k2] by {
        if k2 == k {
            assert(t[i].0@ == k2);
        } else {
            let j = choose|j: int| 0 <= j < s.len() && s[j].0@ == k2;
            assert(t[j] == s[j]);
        }
    }
    assert(seq_to_map(t) =~= seq_to_map(s).insert(k, kv.1));
}

/// A value reads back as it was written, a removed key is gone, and other
/// keys are untouched: after `insert(k, v)`, `get(k)` gives `v`; after
/// `remove(k)`, `contains_key(k)` is false.
pub proof fn law_read_after_write<V>(m: Map<Seq<char>, V>, k: Seq<char>, v: V, other: Seq<char>)
    ensures
        m.insert(k, v).contains_key(k) && m.insert(k, v)[k] == v,
        !m.remove(k).contains_key(k),
        other != k ==> (m.insert(k, v).contains_key(other) == m.contains_key(other) && m.remove(
            k,
        ).contains_key(other) == m.contains_key(other)),
        other != k && m.contains_key(other) ==> m.insert(k, v)[other] == m[other] && m.remove(
            k,
        )[other] == m[other],
{
}

/// A map from string keys to values, kept as a vector of entries with no
/// key twice.
pub struct KeyedTable<V> {
    entries: Vec<(String, V)>,
}

impl<V> View for KeyedTable<V> {
    type V = Map<Seq<char>, V>;

    closed spec fn view(&self) -> Map<Seq<char>, V> {
        seq_to_map(self.entries@)
    }
}

impl<V> KeyedTable<V> {
    /// No key occurs twice among the entries (the table's invariant).
    #[verifier::type_invariant]
    pub closed spec fn keys_distinct(self) -> bool {
        distinct_keys(self.entries@)
    }

    /// The entries in the order the table walks them.
    pub closed spec fn entry_seq(self) -> Seq<(String, V)> {
        self.entries@
    }

    /// The entries hold each key of the map once, with its value.
    pub proof fn lemma_entries(self)
        requires
            self.keys_distinct(),
        ensures
            distinct_keys(self.entry_seq()),
            self@ == seq_to_map(self.entry_seq()),
            self@.dom().finite(),
            self@.len() == self.entry_seq().len(),
            forall|i: int|
                0 <= i < self.entry_seq().len() ==> #[trigger] self@.contains_key(
                    self.entry_seq()[i].0@,
                ) && self@[self.entry_seq()[i].0@] == self.entry_seq()[i].1,
            forall|k: Seq<char>|
                #[trigger] self@.contains_key(k) ==> exists|i: int|
                    0 <= i < self.entry_seq().len() && self.entry_seq()[i].0@ == k,
    {
        lemma_seq_to_map(self.entries@);
        assert forall|i: int| 0 <= i < self.entry_seq().len() implies #[trigger] self@.contains_key(
            self.entry_seq()[i].0@,
        ) && self@[self.entry_seq()[i].0@] == self.entry_seq()[i].1 by {
            assert(seq_to_map(self.entries@).contains_key(self.entries@[i].0@));
        }
        assert forall|k: Seq<char>| #[trigger] self@.contains_key(k) implies exists|i: int|
            0 <= i < self.entry_seq().len() && self.entry_seq()[i].0@ == k by {
            assert(seq_to_map(self.entries@).contains_key(k));
            let i = choose|i: int| 0 <= i < self.entries@.len() && self.entries@[i].0@ == k;
            assert(self.entry_seq()[i].0@ == k);
        }
    }

    /// An empty table.
    pub fn new() -> (t: Self)
        ensures
            t@ == Map::<Seq<char>, V>::empty(),
            t.entry_seq().len() == 0,
    {
        KeyedTable { entries: Vec::new() }
    }

    /// The number of keys.
    pub fn len(&self) -> (n: usize)
        ensures
            n == self@.len(),
            n == self.entry_seq().len(),
    {
        proof {
            use_type_invariant(&*self);
            self.lemma_entries();
        }
        self.entries.len()
    }

    /// The `i`-th entry in walking order.
    pub fn entry(&self, i: usize) -> (e: (&String, &V))
        requires
            i < self.entry_seq().len(),
        ensures
            *e.0 == self.entry_seq()[i as int].0,
            *e.1 == self.entry_seq()[i as int].1,
    {
        let e = &self.entries[i];
        (&e.0, &e.1)
    }

    /// The entries, in walking order.
    pub fn into_entries(self) -> (v: Vec<(String, V)>)
        ensures
            v@ == self.entry_seq(),
    {
        self.entries
    }

    /// The position of `key` among the entries.
    fn position(&self, key: &str) -> (r: Option<usize>)
        ensures
            r matches Some(i) ==> i < self.entries@.len() && self.entries@[i as int].0@ == key@,
            r is None ==> !self@.contains_key(key@),
    {
        proof {
            use_type_invariant(&*self);
            self.lemma_entries();
        }
        let k = String::from_str(key);
        let mut i: usize = 0;
        while i < self.entries.len()
            invariant
                i <= self.entries@.len(),
                k@ == key@,
                forall|j: int| 0 <= j < i ==> self.entries@[j].0@ != key@,
            decreases self.entries@.len() - i,
        {
            if self.entries[i].0 == k {
                return Some(i);
            }
            i = i + 1;
        }
        None
    }

    /// Whether `key` has a value.
    pub fn contains_key(&self, key: &str) -> (b: bool)
        ensures
            b == self@.contains_key(key@),
    {
        proof {
            use_type_invariant(&*self);
            self.lemma_entries();
        }
        self.position(key).is_some()
    }

    /// The value of `key`, if it has one.
    pub fn get(&self, key: &str) -> (r: Option<&V>)
        ensures
            r matches Some(v) ==> self@.contains_key(key@) && *v == self@[key@],
            r is None ==> !self@.contains_key(key@),
    {
        proof {
            use_type_invariant(&*self);
            self.lemma_entries();
        }
        match self.position(key) {
            Some(i) => {
                assert(self@.contains_key(self.entry_seq()[i as int].0@));
                Some(&self.entries[i].1)
            },
            None => None,
        }
    }

    /// Gives `key` the value `value`, replacing the value it had.
    /// A key already present keeps its place in the walking order, with
    /// the new value; a new key comes last.
    pub fn insert(&mut self, key: String, value: V)
        ensures
            final(self)@ == old(self)@.insert(key@, value),
            old(self)@.contains_key(key@) ==> final(self).entry_seq().len() == old(self).entry_seq().len()
                && forall|i: int|
                0 <= i < old(self).entry_seq().len() ==> #[trigger] final(self).entry_seq()[i] == (
                if old(self).entry_seq()[i].0@ == key@ {
                    (key, value)
                } else {
                    old(self).entry_seq()[i]
                }),
            !old(self)@.contains_key(key@) ==> final(self).entry_seq() == old(self).entry_seq().push((key, value)),
    {
        proof {
            use_type_invariant(&*self);
            self.lemma_entries();
        }
        let pos = self.position(key.as_str());
        let mut entries: Vec<(String, V)> = Vec::new();
        std::mem::swap(&mut entries, &mut self.entries);
        let ghost old_entries = entries@;
        let ghost k = key@;
        let ghost kv = (key, value);
        match pos {
            Some(i) => {
                entries.set(i, (key, value));
                assert forall|j: int| 0 <= j < old_entries.len() implies #[trigger] entries@[j] == (
                if old_entries[j].0@ == k {
                    kv
                } else {
                    old_entries[j]
                }) by {
                    if j != i {
                        assert(old_entries[j].0@ != old_entries[i as int].0@);
                    }
                }
                proof {
                    lemma_update_entry(old_entries, i as int, kv);
                }
            },
            None => {
                entries.push((key, value));
                assert(entries@.drop_last() =~= old_entries);
                assert forall|a: int, b: int| 0 <= a < b < entries@.len() implies entries@[a].0@
                    != entries@[b].0@ by {
                    if b == entries@.len() - 1 {
                        assert(seq_to_map(old_entries).contains_key(old_entries[a].0@));
                    } else {
                        assert(old_entries[a].0@ != old_entries[b].0@);
                    }
                }
            },
        }
        self.entries = entries;
    }

    /// Takes `key` and its value out of the table; the other entries keep
    /// their walking order.
    pub fn remove(&mut self, key: &str)
        ensures
            final(self)@ == old(self)@.remove(key@),
            old(self)@.contains_key(key@) ==> exists|i: int|
                0 <= i < old(self).entry_seq().len() && old(self).entry_seq()[i].0@ == key@
                    && final(self).entry_seq() == old(self).entry_seq().remove(i),
            !old(self)@.contains_key(key@) ==> final(self).entry_seq() == old(self).entry_seq(),
    {
        proof {
            use_type_invariant(&*self);
            self.lemma_entries();
        }
        let pos = self.position(key);
        let ghost k = key@;
        match pos {
            Some(i) => {
                let mut entries: Vec<(String, V)> = Vec::new();
                std::mem::swap(&mut entries, &mut self.entries);
                let ghost old_entries = entries@;
                let _ = entries.remove(i);
                assert forall|a: int, b: int| 0 <= a < b < entries@.len() implies entries@[a].0@
                    != entries@[b].0@ by {
                    let oa = if a < i { a } else { a + 1 };
                    let ob = if b < i { b } else { b + 1 };
                    assert(entries@[a] == old_entries[oa]);
                    assert(entries@[b] == old_entries[ob]);
                    assert(old_entries[oa].0@ != old_entries[ob].0@);
                }
                proof {
                    lemma_seq_to_map(entries@);
                    lemma_seq_to_map(old_entries);
                }
                assert(seq_to_map(entries@) =~= seq_to_map(old_entries).remove(k)) by {
                    assert forall|k2: Seq<char>| #[trigger]
                        seq_to_map(entries@).contains_key(k2) implies seq_to_map(
                        old_entries,
                    ).remove(k).contains_key(k2) && seq_to_map(entries@)[k2] == seq_to_map(
                        old_entries,
                    )[k2] by {
                        let j = choose|j: int| 0 <= j < entries@.len() && entries@[j].0@ == k2;
                        let oj = if j < i { j } else { j + 1 };
                        assert(entries@[j] == old_entries[oj]);
                        assert(old_entries[oj].0@ != old_entries[i as int].0@);
                        assert(seq_to_map(old_entries).contains_key(old_entries[oj].0@));
                        assert(seq_to_map(entries@).contains_key(entries@[j].0@));
                    }
                    assert forall|k2: Seq<char>| #[trigger]
                        seq_to_map(old_entries).remove(k).contains_key(k2) implies seq_to_map(
                        entries@,
                    ).contains_key(k2) by {
                        let j = choose|j: int|
                            0 <= j < old_entries.len() && old_entries[j].0@ == k2;
                        assert(j != i);
                        let nj = if j < i { j } else { j - 1 };
                        assert(entries@[nj] == old_entries[j]);
                    }
                }
                self.entries = entries;
            },
            None => {
                assert(old(self)@.remove(k) =~= old(self)@);
            },
        }
    }
}

} // verus!
