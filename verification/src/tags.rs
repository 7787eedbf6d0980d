//! The tag map of one OSM element: string keys to string values, the last
//! write for a key winning, iteration in first-insertion order.

use vstd::prelude::*;
use crate::strnum::str_eq;

verus! {

/// The map a sequence of key/value pairs denotes, the last pair for a key
/// winning.
pub open spec fn spec_pairs_map(s: Seq<(String, String)>) -> Map<Seq<char>, Seq<char>>
    decreases s.len(),
{
    if s.len() == 0 {
        Map::empty()
    } else {
        spec_pairs_map(s.drop_last()).insert(s.last().0@, s.last().1@)
    }
}

/// No two pairs carry the same key.
pub open spec fn pairs_unique(s: Seq<(String, String)>) -> bool {
    forall|i: int, j: int| 0 <= i < j < s.len() ==> s[i].0@ != s[j].0@
}

proof fn lemma_pairs_map_contains(s: Seq<(String, String)>, k: Seq<char>)
    ensures
        spec_pairs_map(s).contains_key(k) <==> exists|j: int| 0 <= j < s.len() && s[j].0@ == k,
    decreases s.len(),
{
    if s.len() > 0 {
        lemma_pairs_map_contains(s.drop_last(), k);
        if s.last().0@ == k {
            assert(s[s.len() - 1].0@ == k);
        } else {
            if spec_pairs_map(s).contains_key(k) {
                let j = choose|j: int| 0 <= j < s.len() - 1 && s.drop_last()[j].0@ == k;
                assert(s[j].0@ == k);
            }
            if exists|j: int| 0 <= j < s.len() && s[j].0@ == k {
                let j = choose|j: int| 0 <= j < s.len() && s[j].0@ == k;
                assert(j < s.len() - 1 && s.drop_last()[j].0@ == k);
            }
        }
    }
}

proof fn lemma_pairs_map_last(s: Seq<(String, String)>, i: int)
    requires
        0 <= i < s.len(),
        forall|j: int| i < j < s.len() ==> s[j].0@ != s[i].0@,
    ensures
        spec_pairs_map(s).contains_key(s[i].0@),
        spec_pairs_map(s)[s[i].0@] == s[i].1@,
    decreases s.len(),
{
    if i == s.len() - 1 {
    } else {
        lemma_pairs_map_last(s.drop_last(), i);
        assert(s.drop_last()[i] == s[i]);
        assert(s.last().0@ != s[i].0@);
    }
}

proof fn lemma_pairs_map_update(s: Seq<(String, String)>, i: int, v: String)
    requires
        0 <= i < s.len(),
        pairs_unique(s),
    ensures
        spec_pairs_map(s.update(i, (s[i].0, v))) == spec_pairs_map(s).insert(s[i].0@, v@),
    decreases s.len(),
{
    let t = s.update(i, (s[i].0, v));
    if i == s.len() - 1 {
        assert(t.drop_last() =~= s.drop_last());
        assert(spec_pairs_map(t) =~= spec_pairs_map(s).insert(s[i].0@, v@));
    } else {
        lemma_pairs_map_update(s.drop_last(), i, v);
        assert(t.drop_last() =~= s.drop_last().update(i, (s[i].0, v)));
        assert(t.last() == s.last());
        assert(s.drop_last()[i] == s[i]);
        assert(s.last().0@ != s[i].0@);
        assert(spec_pairs_map(t) =~= spec_pairs_map(s).insert(s[i].0@, v@));
    }
}

/// The tags of one element.
pub struct TagMap {
    entries: Vec<(String, String)>,
}

impl TagMap {
    /// The key/value map these tags denote.
    pub closed spec fn as_map(&self) -> Map<Seq<char>, Seq<char>> {
        spec_pairs_map(self.entries@)
    }

    /// The pairs in first-insertion order.
    pub closed spec fn spec_entries(&self) -> Seq<(String, String)> {
        self.entries@
    }

    pub closed spec fn wf(&self) -> bool {
        pairs_unique(self.entries@)
    }

    pub fn new() -> (r: Self)
        ensures
            r.wf(),
            r.as_map() == Map::<Seq<char>, Seq<char>>::empty(),
            r.spec_entries() == Seq::<(String, String)>::empty(),
    {
        TagMap { entries: Vec::new() }
    }

    /// The number of distinct keys.
    pub fn len(&self) -> (n: usize)
        requires
            self.wf(),
        ensures
            n == self.spec_entries().len(),
    {
        self.entries.len()
    }

    /// The pair at `i`, for iteration in first-insertion order.
    pub fn pair_at(&self, i: usize) -> (r: &(String, String))
        requires
            self.wf(),
            i < self.spec_entries().len(),
        ensures
            *r == self.spec_entries()[i as int],
    {
        &self.entries[i]
    }

    /// Record `value` for `key`; a later write for the same key wins and
    /// keeps the key's position.
    pub fn insert(&mut self, key: String, value: String)
        requires
            old(self).wf(),
        ensures
            final(self).wf(),
            final(self).as_map() == old(self).as_map().insert(key@, value@),
    {
        let n = self.entries.len();
        let mut i: usize = 0;
        while i < n
            invariant
                n == self.entries@.len(),
                i <= n,
                pairs_unique(self.entries@),
                self.entries@ == old(self).spec_entries(),
                forall|j: int| 0 <= j < i ==> self.entries@[j].0@ != key@,
            decreases n - i,
        {
            if str_eq(self.entries[i].0.as_str(), key.as_str()) {
                proof {
                    lemma_pairs_map_update(self.entries@, i as int, value);
                }
                self.entries[i].1 = value;
                return ;
            }
            i = i + 1;
        }
        proof {
            lemma_pairs_map_contains(self.entries@, key@);
        }
        self.entries.push((key, value));
        proof {
            assert(self.entries@.drop_last() =~= old(self).spec_entries());
        }
    }

    /// Look a key up.
    pub fn get(&self, key: &str) -> (r: Option<&String>)
        requires
            self.wf(),
        ensures
            r matches Some(v) ==> self.as_map().contains_key(key@) && self.as_map()[key@] == v@,
            r is None ==> !self.as_map().contains_key(key@),
    {
        proof {
            lemma_pairs_map_contains(self.entries@, key@);
        }
        let n = self.entries.len();
        let mut i: usize = 0;
        while i < n
            invariant
                self.wf(),
                n == self.entries@.len(),
                i <= n,
                forall|j: int| 0 <= j < i ==> self.entries@[j].0@ != key@,
            decreases n - i,
        {
            if str_eq(self.entries[i].0.as_str(), key) {
                proof {
                    lemma_pairs_map_last(self.entries@, i as int);
                }
                return Some(&self.entries[i].1);
            }
            i = i + 1;
        }
        None
    }

    /// Whether a key is present.
    pub fn contains_key(&self, key: &str) -> (r: bool)
        requires
            self.wf(),
        ensures
            r == self.as_map().contains_key(key@),
    {
        match self.get(key) {
            Some(_) => true,
            None => false,
        }
    }
}

/// Build a tag map from raw key/value pairs; a later pair for a key wins.
pub fn build_tag_map(pairs: Vec<(String, String)>) -> (r: TagMap)
    ensures
        r.wf(),
        r.as_map() == spec_pairs_map(pairs@),
{
    let mut tags = TagMap::new();
    let n = pairs.len();
    let ghost all = pairs@;
    let mut i: usize = 0;
    let mut rest = pairs;
    proof {
        assert(rest@.skip(0) =~= all);
    }
    while i < n
        invariant
            tags.wf(),
            n == all.len(),
            i <= n,
            rest@ == all.skip(i as int),
            tags.as_map() == spec_pairs_map(all.take(i as int)),
        decreases n - i,
    {
        let (k, v) = rest.remove(0);
        tags.insert(k, v);
        i = i + 1;
        proof {
            assert(rest@ =~= all.skip(i as int));
            assert(all.take(i as int).drop_last() =~= all.take(i as int - 1));
            assert(all.take(i as int).last() == all[i as int - 1]);
        }
    }
    proof {
        assert(all.take(n as int) =~= all);
    }
    tags
}

} // verus!
