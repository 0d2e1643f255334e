use vstd::prelude::*;

verus! {

/// The map that a list of entries denotes: where a key occurs more than once,
/// its first entry counts.
pub open spec fn entries_map<V>(s: Seq<(String, V)>) -> Map<Seq<char>, V>
    decreases s.len(),
{
    if s.len() == 0 {
        Map::empty()
    } else {
        entries_map(s.drop_first()).insert(s[0].0@, s[0].1)
    }
}

/// No key occurs twice in the entries.
pub open spec fn keys_distinct<V>(s: Seq<(String, V)>) -> bool {
    forall|i: int, j: int| 0 <= i < j < s.len() ==> s[i].0@ != s[j].0@
}

/// `i` is the first position at which the key `k` occurs.
pub open spec fn first_at<V>(s: Seq<(String, V)>, k: Seq<char>, i: int) -> bool {
    &&& 0 <= i < s.len()
    &&& s[i].0@ == k
    &&& forall|j: int| 0 <= j < i ==> s[j].0@ != k
}

proof fn lemma_first_entry<V>(s: Seq<(String, V)>, k: Seq<char>, i: int)
    requires
        first_at(s, k, i),
    ensures
        entries_map(s).contains_key(k),
        entries_map(s)[k] == s[i].1,
    decreases i,
{
    if i > 0 {
        let t = s.drop_first();
        assert forall|j: int| 0 <= j < i - 1 implies t[j].0@ != k by {
            assert(t[j] == s[j + 1]);
        }
        lemma_first_entry(t, k, i - 1);
        assert(s[0].0@ != k);
    }
}

proof fn lemma_absent<V>(s: Seq<(String, V)>, k: Seq<char>)
    requires
        forall|i: int| 0 <= i < s.len() ==> s[i].0@ != k,
    ensures
        !entries_map(s).contains_key(k),
    decreases s.len(),
{
    if s.len() > 0 {
        let t = s.drop_first();
        assert forall|j: int| 0 <= j < t.len() implies t[j].0@ != k by {
            assert(t[j] == s[j + 1]);
        }
        lemma_absent(t, k);
    }
}

proof fn lemma_update_first<V>(s: Seq<(String, V)>, i: int, v: V)
    requires
        first_at(s, s[i].0@, i),
    ensures
        entries_map(s.update(i, (s[i].0, v))) == entries_map(s).insert(s[i].0@, v),
    decreases i,
{
    let k = s[i].0@;
    let u = s.update(i, (s[i].0, v));
    if i == 0 {
        assert(u.drop_first() =~= s.drop_first());
        assert(entries_map(u) =~= entries_map(s).insert(k, v));
    } else {
        let t = s.drop_first();
        assert(t[i - 1] == s[i]);
        assert forall|j: int| 0 <= j < i - 1 implies t[j].0@ != k by {
            assert(t[j] == s[j + 1]);
        }
        lemma_update_first(t, i - 1, v);
        assert(u.drop_first() =~= t.update(i - 1, (t[i - 1].0, v)));
        assert(s[0].0@ != k);
        assert(entries_map(u) =~= entries_map(s).insert(k, v));
    }
}

proof fn lemma_push_absent<V>(s: Seq<(String, V)>, e: (String, V))
    requires
        forall|i: int| 0 <= i < s.len() ==> s[i].0@ != e.0@,
    ensures
        entries_map(s.push(e)) == entries_map(s).insert(e.0@, e.1),
    decreases s.len(),
{
    if s.len() == 0 {
        assert(s.push(e).drop_first() =~= s);
        assert(entries_map(s.push(e)) =~= entries_map(s).insert(e.0@, e.1));
    } else {
        let t = s.drop_first();
        assert forall|j: int| 0 <= j < t.len() implies t[j].0@ != e.0@ by {
            assert(t[j] == s[j + 1]);
        }
        lemma_push_absent(t, e);
        assert(s.push(e).drop_first() =~= t.push(e));
        assert(s[0].0@ != e.0@);
        assert(entries_map(s.push(e)) =~= entries_map(s).insert(e.0@, e.1));
    }
}

proof fn lemma_remove_first<V>(s: Seq<(String, V)>, k: Seq<char>, i: int)
    requires
        first_at(s, k, i),
    ensures
        entries_map(s.remove(i)).remove(k) == entries_map(s).remove(k),
    decreases i,
{
    if i == 0 {
        assert(s.remove(0) =~= s.drop_first());
        assert(entries_map(s.remove(i)).remove(k) =~= entries_map(s).remove(k));
    } else {
        let t = s.drop_first();
        assert forall|j: int| 0 <= j < i - 1 implies t[j].0@ != k by {
            assert(t[j] == s[j + 1]);
        }
        assert(t[i - 1] == s[i]);
        lemma_remove_first(t, k, i - 1);
        assert(s.remove(i).drop_first() =~= t.remove(i - 1));
        assert(s.remove(i)[0] == s[0]);
        assert(s[0].0@ != k);
        let a = entries_map(t.remove(i - 1));
        let b = entries_map(t);
        assert(entries_map(s.remove(i)) == a.insert(s[0].0@, s[0].1));
        assert(entries_map(s) == b.insert(s[0].0@, s[0].1));
        assert(a.remove(k) == b.remove(k));
        assert(a.insert(s[0].0@, s[0].1).remove(k) =~= a.remove(k).insert(s[0].0@, s[0].1));
        assert(b.insert(s[0].0@, s[0].1).remove(k) =~= b.remove(k).insert(s[0].0@, s[0].1));
    }
}

proof fn lemma_len<V>(s: Seq<(String, V)>)
    requires
        keys_distinct(s),
    ensures
        entries_map(s).len() == s.len(),
        entries_map(s).dom().finite(),
    decreases s.len(),
{
    if s.len() > 0 {
        let t = s.drop_first();
        assert forall|i: int, j: int| 0 <= i < j < t.len() implies t[i].0@ != t[j].0@ by {
            assert(t[i] == s[i + 1]);
            assert(t[j] == s[j + 1]);
        }
        lemma_len(t);
        assert forall|j: int| 0 <= j < t.len() implies t[j].0@ != s[0].0@ by {
            assert(t[j] == s[j + 1]);
        }
        lemma_absent(t, s[0].0@);
    }
}

/// A map from string keys to values, kept as a list of entries.
#[derive(Debug)]
pub struct Dict<V> {
    entries: Vec<(String, V)>,
}

impl<V> Dict<V> {
    /// No key occurs twice among the entries.
    pub closed spec fn wf(self) -> bool {
        keys_distinct(self.entries@)
    }

    /// The key-value pairs, in insertion order.
    pub closed spec fn entries_seq(self) -> Seq<(String, V)> {
        self.entries@
    }

    /// The map that the dictionary holds.
    pub closed spec fn view(self) -> Map<Seq<char>, V> {
        entries_map(self.entries@)
    }

    /// The entries, in insertion order.
    pub fn entries(&self) -> (r: &Vec<(String, V)>)
        ensures
            r@ == self.entries_seq(),
            self.wf() == keys_distinct(r@),
            self.view() == entries_map(r@),
    {
        &self.entries
    }

    /// The dictionary with exactly these entries.
    pub fn from_entries(entries: Vec<(String, V)>) -> (r: Self)
        ensures
            r.entries_seq() == entries@,
            r.view() == entries_map(entries@),
            r.wf() == keys_distinct(entries@),
    {
        Dict { entries }
    }

    /// An empty dictionary.
    pub fn new() -> (r: Self)
        ensures
            r.wf(),
            r.view() == Map::<Seq<char>, V>::empty(),
            r.entries_seq() == Seq::<(String, V)>::empty(),
    {
        Dict { entries: Vec::new() }
    }

    /// The number of keys.
    pub fn len(&self) -> (r: usize)
        requires
            self.wf(),
        ensures
            r == self.entries_seq().len(),
            r == self.view().len(),
            self.view().dom().finite(),
    {
        proof {
            lemma_len(self.entries@);
        }
        self.entries.len()
    }

    /// The first position of `key` among the entries.
    fn position(&self, key: &str) -> (r: Option<usize>)
        ensures
            match r {
                Some(i) => first_at(self.entries@, key@, i as int),
                None => forall|i: int| 0 <= i < self.entries@.len() ==> self.entries@[i].0@ != key@,
            },
    {
        let k = String::from_str(key);
        let mut i: usize = 0;
        while i < self.entries.len()
            invariant
                i <= self.entries@.len(),
                k@ == key@,
                forall|j: int| 0 <= j < i ==> self.entries@[j].0@ != key@,
            decreases self.entries@.len() - i,
        {
            if self.entries[i].0.eq(&k) {
                return Some(i);
            }
            i = i + 1;
        }
        None
    }

    /// Whether `key` is present.
    pub fn contains_key(&self, key: &str) -> (r: bool)
        ensures
            r == self.view().contains_key(key@),
    {
        match self.position(key) {
            Some(i) => {
                proof {
                    lemma_first_entry(self.entries@, key@, i as int);
                }
                true
            },
            None => {
                proof {
                    lemma_absent(self.entries@, key@);
                }
                false
            },
        }
    }

    /// The value stored under `key`.
    pub fn get(&self, key: &str) -> (r: Option<&V>)
        ensures
            match r {
                Some(v) => self.view().contains_key(key@) && *v == self.view()[key@],
                None => !self.view().contains_key(key@),
            },
    {
        match self.position(key) {
            Some(i) => {
                proof {
                    lemma_first_entry(self.entries@, key@, i as int);
                }
                Some(&self.entries[i].1)
            },
            None => {
                proof {
                    lemma_absent(self.entries@, key@);
                }
                None
            },
        }
    }

    /// The value stored under `key`, for update in place.
    pub fn get_mut(&mut self, key: &str) -> (r: Option<&mut V>)
        ensures
            old(self).wf() ==> final(self).wf(),
            match r {
                Some(v) => old(self).view().contains_key(key@) && *v == old(self).view()[key@]
                    && final(self).view() == old(self).view().insert(key@, *final(v)),
                None => !old(self).view().contains_key(key@) && final(self).view() == old(
                    self,
                ).view(),
            },
    {
        match self.position(key) {
            Some(i) => {
                let ghost s = self.entries@;
                proof {
                    lemma_first_entry(s, key@, i as int);
                    assert forall|v: V|
                        #![trigger s.update(i as int, (s[i as int].0, v))]
                        entries_map(s.update(i as int, (s[i as int].0, v))) == entries_map(s).insert(
                            s[i as int].0@,
                            v,
                        ) && (keys_distinct(s) ==> keys_distinct(
                            s.update(i as int, (s[i as int].0, v)),
                        )) by {
                        lemma_update_first(s, i as int, v);
                    }
                }
                let entry = &mut self.entries[i];
                Some(&mut entry.1)
            },
            None => {
                proof {
                    lemma_absent(self.entries@, key@);
                }
                None
            },
        }
    }

    /// Stores `val` under `key`, replacing what was there.
    pub fn insert(&mut self, key: String, val: V)
        ensures
            old(self).wf() ==> final(self).wf(),
            final(self).view() == old(self).view().insert(key@, val),
    {
        match self.position(key.as_str()) {
            Some(i) => {
                let ghost s = self.entries@;
                proof {
                    lemma_update_first(s, i as int, val);
                }
                let k = self.entries[i].0.clone();
                self.entries.set(i, (k, val));
                assert(self.entries@ == s.update(i as int, (s[i as int].0, val)));
            },
            None => {
                let ghost s = self.entries@;
                let ghost e = (key, val);
                proof {
                    lemma_push_absent(s, e);
                }
                self.entries.push((key, val));
            },
        }
    }

    /// Takes the value stored under `key` out of the dictionary.
    pub fn remove(&mut self, key: &str) -> (r: Option<V>)
        ensures
            old(self).wf() ==> final(self).wf(),
            match r {
                Some(v) => old(self).view().contains_key(key@) && v == old(self).view()[key@],
                None => !old(self).view().contains_key(key@),
            },
            final(self).view() == old(self).view().remove(key@),
    {
        let first = match self.position(key) {
            Some(i) => {
                let ghost s = self.entries@;
                proof {
                    lemma_first_entry(s, key@, i as int);
                    lemma_remove_first(s, key@, i as int);
                }
                let (_, v) = self.entries.remove(i);
                Some(v)
            },
            None => {
                proof {
                    lemma_absent(self.entries@, key@);
                    assert(self.view().remove(key@) =~= self.view());
                }
                return None;
            },
        };
        loop
            invariant
                old(self).wf() ==> self.wf(),
                entries_map(self.entries@).remove(key@) == old(self).view().remove(key@),
            ensures
                old(self).wf() ==> self.wf(),
                entries_map(self.entries@).remove(key@) == old(self).view().remove(key@),
                !entries_map(self.entries@).contains_key(key@),
            decreases self.entries@.len(),
        {
            match self.position(key) {
                Some(i) => {
                    let ghost s = self.entries@;
                    proof {
                        lemma_remove_first(s, key@, i as int);
                    }
                    self.entries.remove(i);
                },
                None => {
                    proof {
                        lemma_absent(self.entries@, key@);
                    }
                    break;
                },
            }
        }
        proof {
            assert(self.view().remove(key@) =~= self.view());
        }
        first
    }
}

} // verus!
