use vstd::prelude::*;

verus! {

/// The mapping that a sequence of `(key, value)` pairs stands for: pairs are
/// applied in order, so of two pairs with one key the later one wins.
pub open spec fn pairs_map(s: Seq<(Seq<u8>, Seq<u8>)>) -> Map<Seq<u8>, Seq<u8>>
    decreases s.len(),
{
    if s.len() == 0 {
        Map::empty()
    } else {
        pairs_map(s.drop_last()).insert(s.last().0, s.last().1)
    }
}

/// The pairs of byte vectors, each taken by its view.
pub open spec fn pairs_view(v: Seq<(Vec<u8>, Vec<u8>)>) -> Seq<(Seq<u8>, Seq<u8>)> {
    Seq::new(v.len(), |i: int| (v[i].0@, v[i].1@))
}

/// The mapping that a list of ambient variables stands for.
pub open spec fn ambient_map(v: Seq<(Vec<u8>, Vec<u8>)>) -> Map<Seq<u8>, Seq<u8>> {
    pairs_map(pairs_view(v))
}

/// No key occurs twice.
pub open spec fn distinct_keys(s: Seq<(Seq<u8>, Seq<u8>)>) -> bool {
    forall|i: int, j: int| 0 <= i < j < s.len() ==> s[i].0 != s[j].0
}

/// A key is in the mapping exactly when some pair carries it.
pub proof fn lemma_pairs_map_contains(s: Seq<(Seq<u8>, Seq<u8>)>, k: Seq<u8>)
    ensures
        pairs_map(s).contains_key(k) <==> exists|i: int| 0 <= i < s.len() && #[trigger] s[i].0 == k,
    decreases s.len(),
{
    if s.len() > 0 {
        let t = s.drop_last();
        lemma_pairs_map_contains(t, k);
        if exists|i: int| 0 <= i < s.len() && #[trigger] s[i].0 == k {
            let i = choose|i: int| 0 <= i < s.len() && #[trigger] s[i].0 == k;
            if i < s.len() - 1 {
                assert(t[i].0 == k);
            }
        }
    }
}

/// A pair whose key no later pair carries decides what that key is mapped
/// to. Where no key occurs twice this holds of every pair.
pub proof fn lemma_pairs_map_later_wins(s: Seq<(Seq<u8>, Seq<u8>)>, i: int)
    requires
        0 <= i < s.len(),
        forall|j: int| i < j < s.len() ==> (#[trigger] s[j]).0 != s[i].0,
    ensures
        pairs_map(s).contains_key(s[i].0),
        pairs_map(s)[s[i].0] == s[i].1,
    decreases s.len(),
{
    if i < s.len() - 1 {
        let t = s.drop_last();
        lemma_pairs_map_later_wins(t, i);
    }
}

/// A sequence without a repeated key stands for `m` as soon as `m` holds each
/// of its pairs and no other key.
pub proof fn lemma_pairs_map_is(s: Seq<(Seq<u8>, Seq<u8>)>, m: Map<Seq<u8>, Seq<u8>>)
    requires
        distinct_keys(s),
        forall|i: int| 0 <= i < s.len() ==> m.contains_key(#[trigger] s[i].0) && m[s[i].0] == s[i].1,
        forall|k: Seq<u8>| #[trigger]
            m.contains_key(k) ==> exists|i: int| 0 <= i < s.len() && #[trigger] s[i].0 == k,
    ensures
        pairs_map(s) == m,
{
    assert forall|k: Seq<u8>| pairs_map(s).contains_key(k) == m.contains_key(k) by {
        lemma_pairs_map_contains(s, k);
    }
    assert forall|k: Seq<u8>| pairs_map(s).contains_key(k) implies pairs_map(s)[k] == m[k] by {
        lemma_pairs_map_contains(s, k);
        let i = choose|i: int| 0 <= i < s.len() && #[trigger] s[i].0 == k;
        lemma_pairs_map_later_wins(s, i);
    }
}

/// A sequence without a repeated key stands for a finite mapping with as
/// many keys as the sequence has pairs.
pub proof fn lemma_pairs_map_len(s: Seq<(Seq<u8>, Seq<u8>)>)
    requires
        distinct_keys(s),
    ensures
        pairs_map(s).dom().finite(),
        pairs_map(s).dom().len() == s.len(),
    decreases s.len(),
{
    if s.len() > 0 {
        let t = s.drop_last();
        lemma_pairs_map_len(t);
        lemma_pairs_map_contains(t, s.last().0);
    }
}

/// Whether two byte strings hold the same bytes.
pub fn bytes_eq(a: &[u8], b: &[u8]) -> (ret: bool)
    ensures
        ret == (a@ == b@),
{
    if a.len() != b.len() {
        return false;
    }
    let mut i: usize = 0;
    while i < a.len()
        invariant
            a@.len() == b@.len(),
            0 <= i <= a@.len(),
            forall|j: int| 0 <= j < i ==> a@[j] == b@[j],
        decreases a.len() - i,
    {
        if a[i] != b[i] {
            return false;
        }
        i += 1;
    }
    proof {
        assert(a@ =~= b@);
    }
    true
}

/// An environment mapping: variable names to values, each name at most once.
#[derive(Debug)]
pub struct EnvMap {
    entries: Vec<(Vec<u8>, Vec<u8>)>,
}

impl EnvMap {
    /// No name is stored twice.
    pub closed spec fn wf(&self) -> bool {
        distinct_keys(pairs_view(self.entries@))
    }

    /// The mapping from names to values.
    pub closed spec fn view(&self) -> Map<Seq<u8>, Seq<u8>> {
        pairs_map(pairs_view(self.entries@))
    }

    /// The empty mapping.
    pub fn new() -> (ret: EnvMap)
        ensures
            ret.wf(),
            ret@ == Map::<Seq<u8>, Seq<u8>>::empty(),
    {
        EnvMap { entries: Vec::new() }
    }

    fn find(&self, key: &[u8]) -> (ret: Option<usize>)
        ensures
            match ret {
                Some(i) => i < self.entries@.len() && self.entries@[i as int].0@ == key@,
                None => forall|j: int| 0 <= j < self.entries@.len() ==> self.entries@[j].0@ != key@,
            },
    {
        let mut i: usize = 0;
        while i < self.entries.len()
            invariant
                0 <= i <= self.entries@.len(),
                forall|j: int| 0 <= j < i ==> self.entries@[j].0@ != key@,
            decreases self.entries.len() - i,
        {
            if bytes_eq(self.entries[i].0.as_slice(), key) {
                return Some(i);
            }
            i += 1;
        }
        None
    }

    /// The number of names that are mapped.
    pub fn len(&self) -> (ret: usize)
        requires
            self.wf(),
        ensures
            self@.dom().finite(),
            ret == self@.len(),
    {
        proof {
            lemma_pairs_map_len(pairs_view(self.entries@));
        }
        self.entries.len()
    }

    /// Whether the mapping holds no name at all.
    pub fn is_empty(&self) -> (ret: bool)
        ensures
            ret == (self@ == Map::<Seq<u8>, Seq<u8>>::empty()),
    {
        proof {
            if self.entries@.len() > 0 {
                let s = pairs_view(self.entries@);
                assert(pairs_map(s).contains_key(s.last().0));
            }
        }
        self.entries.len() == 0
    }

    /// Whether `key` is mapped.
    pub fn contains_key(&self, key: &[u8]) -> (ret: bool)
        ensures
            ret == self@.contains_key(key@),
    {
        proof {
            lemma_pairs_map_contains(pairs_view(self.entries@), key@);
        }
        match self.find(key) {
            Some(i) => {
                assert(pairs_view(self.entries@)[i as int].0 == key@);
                true
            },
            None => false,
        }
    }

    /// The value that `key` is mapped to, if any.
    pub fn get(&self, key: &[u8]) -> (ret: Option<&[u8]>)
        requires
            self.wf(),
        ensures
            match ret {
                Some(v) => self@.contains_key(key@) && self@[key@] == v@,
                None => !self@.contains_key(key@),
            },
    {
        proof {
            lemma_pairs_map_contains(pairs_view(self.entries@), key@);
        }
        match self.find(key) {
            Some(i) => {
                proof {
                    lemma_pairs_map_later_wins(pairs_view(self.entries@), i as int);
                }
                Some(self.entries[i].1.as_slice())
            },
            None => None,
        }
    }

    /// Maps `key` to `val`, whether or not `key` was mapped before.
    pub fn insert(&mut self, key: Vec<u8>, val: Vec<u8>)
        requires
            old(self).wf(),
        ensures
            final(self).wf(),
            final(self)@ == old(self)@.insert(key@, val@),
    {
        let ghost s = pairs_view(self.entries@);
        match self.find(key.as_slice()) {
            Some(i) => {
                self.entries[i] = (key, val);
                proof {
                    let t = pairs_view(self.entries@);
                    let m = pairs_map(s).insert(key@, val@);
                    assert forall|a: int, b: int| 0 <= a < b < t.len() implies t[a].0 != t[b].0 by {
                        assert(s[a].0 != s[b].0);
                    }
                    assert forall|j: int| 0 <= j < t.len() implies m.contains_key(#[trigger] t[j].0)
                        && m[t[j].0] == t[j].1 by {
                        lemma_pairs_map_later_wins(s, j);
                        if j != i {
                            assert(s[j].0 != s[i as int].0);
                        }
                    }
                    assert forall|k: Seq<u8>| #[trigger] m.contains_key(k) implies exists|j: int|
                        0 <= j < t.len() && #[trigger] t[j].0 == k by {
                        if k == key@ {
                            assert(t[i as int].0 == k);
                        } else {
                            lemma_pairs_map_contains(s, k);
                            let j = choose|j: int| 0 <= j < s.len() && #[trigger] s[j].0 == k;
                            assert(t[j].0 == k);
                        }
                    }
                    lemma_pairs_map_is(t, m);
                }
            },
            None => {
                self.entries.push((key, val));
                proof {
                    let t = pairs_view(self.entries@);
                    assert(t.drop_last() =~= s);
                    assert forall|a: int, b: int| 0 <= a < b < t.len() implies t[a].0 != t[b].0 by {
                        if b < s.len() {
                            assert(s[a].0 != s[b].0);
                        }
                    }
                }
            },
        }
    }

    /// Forgets `key`. A name that is not mapped changes nothing.
    pub fn remove(&mut self, key: &[u8])
        requires
            old(self).wf(),
        ensures
            final(self).wf(),
            final(self)@ == old(self)@.remove(key@),
    {
        let ghost s = pairs_view(self.entries@);
        proof {
            lemma_pairs_map_contains(s, key@);
        }
        match self.find(key) {
            Some(i) => {
                self.entries.remove(i);
                proof {
                    let t = pairs_view(self.entries@);
                    let m = pairs_map(s).remove(key@);
                    assert forall|a: int, b: int| 0 <= a < b < t.len() implies t[a].0 != t[b].0 by {
                        let a2 = if a < i { a } else { a + 1 };
                        let b2 = if b < i { b } else { b + 1 };
                        assert(s[a2].0 != s[b2].0);
                    }
                    assert forall|j: int| 0 <= j < t.len() implies m.contains_key(#[trigger] t[j].0)
                        && m[t[j].0] == t[j].1 by {
                        let j2 = if j < i { j } else { j + 1 };
                        lemma_pairs_map_later_wins(s, j2);
                        assert(s[j2].0 != s[i as int].0);
                    }
                    assert forall|k: Seq<u8>| #[trigger] m.contains_key(k) implies exists|j: int|
                        0 <= j < t.len() && #[trigger] t[j].0 == k by {
                        lemma_pairs_map_contains(s, k);
                        let j = choose|j: int| 0 <= j < s.len() && #[trigger] s[j].0 == k;
                        let j2 = if j < i { j } else { j - 1 };
                        assert(t[j2].0 == k);
                    }
                    lemma_pairs_map_is(t, m);
                }
            },
            None => {},
        }
    }

    /// The mapping that a list of variables stands for. Where a name occurs
    /// more than once, its last value stays.
    pub fn from_pairs(pairs: &[(Vec<u8>, Vec<u8>)]) -> (ret: EnvMap)
        ensures
            ret.wf(),
            ret@ == ambient_map(pairs@),
    {
        let mut m = EnvMap::new();
        let mut i: usize = 0;
        while i < pairs.len()
            invariant
                0 <= i <= pairs@.len(),
                m.wf(),
                m@ == ambient_map(pairs@.take(i as int)),
            decreases pairs.len() - i,
        {
            let key = vstd::slice::slice_to_vec(pairs[i].0.as_slice());
            let val = vstd::slice::slice_to_vec(pairs[i].1.as_slice());
            m.insert(key, val);
            proof {
                let t = pairs_view(pairs@.take(i + 1));
                assert(t.drop_last() =~= pairs_view(pairs@.take(i as int)));
            }
            i += 1;
        }
        proof {
            assert(pairs@.take(i as int) =~= pairs@);
        }
        m
    }

    /// The pairs of the mapping, each name once, as plain byte vectors.
    pub fn to_pairs(&self) -> (ret: Vec<(Vec<u8>, Vec<u8>)>)
        requires
            self.wf(),
        ensures
            distinct_keys(pairs_view(ret@)),
            ambient_map(ret@) == self@,
    {
        let mut out: Vec<(Vec<u8>, Vec<u8>)> = Vec::new();
        let mut i: usize = 0;
        while i < self.entries.len()
            invariant
                0 <= i <= self.entries@.len(),
                pairs_view(out@) == pairs_view(self.entries@).take(i as int),
            decreases self.entries.len() - i,
        {
            let key = vstd::slice::slice_to_vec(self.entries[i].0.as_slice());
            let val = vstd::slice::slice_to_vec(self.entries[i].1.as_slice());
            let ghost before = pairs_view(out@);
            out.push((key, val));
            proof {
                assert(before.len() == i);
                assert(pairs_view(out@) =~= pairs_view(self.entries@).take(i + 1));
            }
            i += 1;
        }
        proof {
            assert(pairs_view(self.entries@).take(i as int) =~= pairs_view(self.entries@));
        }
        out
    }
}

} // verus!
