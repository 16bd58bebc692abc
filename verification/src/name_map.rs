use vstd::prelude::*;

verus! {

/// Index of the entry whose key is `k` in a sequence of keyed entries, or -1.
pub open spec fn entry_index<X>(s: Seq<(Seq<char>, X)>, k: Seq<char>) -> int
    decreases s.len(),
{
    if s.len() == 0 {
        -1
    } else if s[0].0 == k {
        0
    } else {
        let r = entry_index(s.drop_first(), k);
        if r < 0 {
            -1
        } else {
            r + 1
        }
    }
}

/// The value stored under `k` in a sequence of keyed entries.
pub open spec fn entry_lookup<X>(s: Seq<(Seq<char>, X)>, k: Seq<char>) -> Option<X> {
    let i = entry_index(s, k);
    if i < 0 {
        None
    } else {
        Some(s[i].1)
    }
}

/// The entries after storing `v` under `k`: an existing entry is replaced in
/// place, a new key is added at the end.
pub open spec fn entry_insert<X>(s: Seq<(Seq<char>, X)>, k: Seq<char>, v: X) -> Seq<(Seq<char>, X)> {
    let i = entry_index(s, k);
    if i < 0 {
        s.push((k, v))
    } else {
        s.update(i, (k, v))
    }
}

/// No key occurs twice.
pub open spec fn keys_unique<X>(s: Seq<(Seq<char>, X)>) -> bool {
    forall|i: int, j: int| 0 <= i < j < s.len() ==> s[i].0 != s[j].0
}

/// `entry_index` is the first index whose key is `k`.
pub proof fn lemma_entry_index<X>(s: Seq<(Seq<char>, X)>, k: Seq<char>)
    ensures
        -1 <= entry_index(s, k) < s.len(),
        entry_index(s, k) >= 0 ==> s[entry_index(s, k)].0 == k,
        forall|j: int| 0 <= j < s.len() && (entry_index(s, k) < 0 || j < entry_index(s, k)) ==> s[j].0 != k,
    decreases s.len(),
{
    if s.len() > 0 && s[0].0 != k {
        lemma_entry_index(s.drop_first(), k);
        assert forall|j: int| 0 <= j < s.len() && (entry_index(s, k) < 0 || j < entry_index(s, k)) implies s[j].0 != k by {
            if j > 0 {
                assert(s[j] == s.drop_first()[j - 1]);
            }
        }
    }
}

/// The index of a key, characterised by the keys before it.
pub proof fn lemma_entry_index_is<X>(s: Seq<(Seq<char>, X)>, k: Seq<char>, i: int)
    requires
        -1 <= i < s.len(),
        i >= 0 ==> s[i].0 == k,
        forall|j: int| 0 <= j < s.len() && (i < 0 || j < i) ==> s[j].0 != k,
    ensures
        entry_index(s, k) == i,
{
    lemma_entry_index(s, k);
    let e = entry_index(s, k);
    if e >= 0 && i >= 0 {
        assert(!(e < i));
        assert(!(i < e));
    }
}

/// Looking a key up right after storing it gives the stored value, and other
/// keys are unaffected.
pub proof fn lemma_lookup_insert<X>(s: Seq<(Seq<char>, X)>, k: Seq<char>, v: X, k2: Seq<char>)
    ensures
        entry_lookup(entry_insert(s, k, v), k) == Some(v),
        k2 != k ==> entry_lookup(entry_insert(s, k, v), k2) == entry_lookup(s, k2),
        keys_unique(s) ==> keys_unique(entry_insert(s, k, v)),
{
    lemma_entry_index(s, k);
    lemma_entry_index(s, k2);
    let i = entry_index(s, k);
    let t = entry_insert(s, k, v);
    if i < 0 {
        lemma_entry_index_is(t, k, s.len() as int);
        if k2 != k {
            lemma_entry_index_is(t, k2, entry_index(s, k2));
        }
    } else {
        lemma_entry_index_is(t, k, i);
        if k2 != k {
            lemma_entry_index_is(t, k2, entry_index(s, k2));
        }
    }
}

/// The index of a key depends only on the keys.
pub proof fn lemma_entry_index_keys<X, Y>(s: Seq<(Seq<char>, X)>, t: Seq<(Seq<char>, Y)>, k: Seq<char>)
    requires
        s.len() == t.len(),
        forall|i: int| 0 <= i < s.len() ==> #[trigger] s[i].0 == t[i].0,
    ensures
        entry_index(s, k) == entry_index(t, k),
    decreases s.len(),
{
    if s.len() > 0 {
        let s1 = s.drop_first();
        let t1 = t.drop_first();
        assert forall|i: int| 0 <= i < s1.len() implies #[trigger] s1[i].0 == t1[i].0 by {
            assert(s1[i] == s[i + 1]);
            assert(t1[i] == t[i + 1]);
        }
        lemma_entry_index_keys(s1, t1, k);
        assert(s[0].0 == t[0].0);
    }
}

/// A map from names to values, kept as entries in insertion order.
#[derive(Debug)]
pub struct NameMap<V> {
    pub entries: Vec<(String, V)>,
}

impl<V> View for NameMap<V> {
    type V = Seq<(Seq<char>, V)>;

    open spec fn view(&self) -> Seq<(Seq<char>, V)> {
        self.entries@.map_values(|e: (String, V)| (e.0@, e.1))
    }
}

impl<V> NameMap<V> {
    /// Every name occurs at most once.
    pub open spec fn wf(&self) -> bool {
        keys_unique(self@)
    }

    pub fn new() -> (r: Self)
        ensures
            r@ == Seq::<(Seq<char>, V)>::empty(),
            r.wf(),
    {
        NameMap { entries: Vec::new() }
    }

    /// The number of names.
    pub fn len(&self) -> (r: usize)
        ensures
            r == self@.len(),
    {
        self.entries.len()
    }

    /// Position of the entry named `k`.
    pub fn index_of(&self, k: &String) -> (r: Option<usize>)
        ensures
            match r {
                Some(i) => i == entry_index(self@, k@),
                None => entry_index(self@, k@) < 0,
            },
    {
        let mut i: usize = 0;
        while i < self.entries.len()
            invariant
                0 <= i <= self.entries@.len(),
                forall|j: int| 0 <= j < i ==> self@[j].0 != k@,
            decreases self.entries@.len() - i,
        {
            if self.entries[i].0 == *k {
                proof {
                    lemma_entry_index_is(self@, k@, i as int);
                }
                return Some(i);
            }
            i = i + 1;
        }
        proof {
            lemma_entry_index_is(self@, k@, -1);
        }
        None
    }

    /// The value stored under `k`.
    pub fn get(&self, k: &String) -> (r: Option<&V>)
        ensures
            match r {
                Some(v) => entry_lookup(self@, k@) == Some(*v),
                None => entry_lookup(self@, k@).is_none(),
            },
    {
        proof {
            lemma_entry_index(self@, k@);
        }
        match self.index_of(k) {
            Some(i) => Some(&self.entries[i].1),
            None => None,
        }
    }

    /// Stores `v` under `k`, replacing what was stored there.
    pub fn insert(&mut self, k: String, v: V)
        ensures
            final(self)@ == entry_insert(old(self)@, k@, v),
            old(self).wf() ==> final(self).wf(),
    {
        proof {
            lemma_lookup_insert(self@, k@, v, k@);
            lemma_entry_index(self@, k@);
        }
        let ghost kv = k@;
        match self.index_of(&k) {
            Some(i) => {
                self.entries.set(i, (k, v));
            },
            None => {
                self.entries.push((k, v));
            },
        }
        assert(self@ =~= entry_insert(old(self)@, kv, v));
    }
}

impl<V: Copy> NameMap<V> {
    /// A copy of the map.
    pub fn clone_map(&self) -> (r: Self)
        ensures
            r@ == self@,
    {
        let mut entries: Vec<(String, V)> = Vec::new();
        let mut i: usize = 0;
        while i < self.entries.len()
            invariant
                i <= self.entries@.len(),
                entries@.len() == i,
                forall|j: int| 0 <= j < i ==> (#[trigger] entries@[j]).0@ == self.entries@[j].0@ && entries@[j].1 == self.entries@[j].1,
            decreases self.entries@.len() - i,
        {
            let e = &self.entries[i];
            entries.push((e.0.clone(), e.1));
            i = i + 1;
        }
        let r = NameMap { entries };
        assert(r@ =~= self@);
        r
    }
}

} // verus!
