use vstd::prelude::*;

verus! {

/// Folds a sequence of (name, value) pairs into a map; a later pair overwrites
/// an earlier one with the same name.
pub open spec fn pairs_to_map(s: Seq<(Seq<char>, Seq<char>)>) -> Map<Seq<char>, Seq<char>>
    decreases s.len(),
{
    if s.len() == 0 {
        Map::empty()
    } else {
        pairs_to_map(s.drop_last()).insert(s.last().0, s.last().1)
    }
}

/// The abstract view of a list of owned string pairs.
pub open spec fn pairs_view(s: Seq<(String, String)>) -> Seq<(Seq<char>, Seq<char>)> {
    s.map_values(|p: (String, String)| (p.0@, p.1@))
}

/// No two pairs share a name.
pub open spec fn names_distinct(s: Seq<(Seq<char>, Seq<char>)>) -> bool {
    forall|i: int, j: int| 0 <= i < s.len() && 0 <= j < s.len() && i != j ==> s[i].0 != s[j].0
}

/// A name is in the folded map exactly when some pair carries it.
pub proof fn lemma_pairs_to_map_contains(s: Seq<(Seq<char>, Seq<char>)>, k: Seq<char>)
    ensures
        pairs_to_map(s).contains_key(k) <==> exists|i: int| 0 <= i < s.len() && s[i].0 == k,
    decreases s.len(),
{
    if s.len() > 0 {
        lemma_pairs_to_map_contains(s.drop_last(), k);
        if pairs_to_map(s.drop_last()).contains_key(k) {
            let i = choose|i: int| 0 <= i < s.drop_last().len() && s.drop_last()[i].0 == k;
            assert(s[i].0 == k);
        }
        if exists|i: int| 0 <= i < s.len() && s[i].0 == k {
            let i = choose|i: int| 0 <= i < s.len() && s[i].0 == k;
            if i < s.len() - 1 {
                assert(s.drop_last()[i].0 == k);
            }
        }
    }
}

/// The folded map holds, for a name, the value of the last pair that carries it.
pub proof fn lemma_pairs_to_map_last(s: Seq<(Seq<char>, Seq<char>)>, i: int)
    requires
        0 <= i < s.len(),
        forall|j: int| i < j < s.len() ==> s[j].0 != s[i].0,
    ensures
        pairs_to_map(s).contains_key(s[i].0),
        pairs_to_map(s)[s[i].0] == s[i].1,
    decreases s.len(),
{
    if i < s.len() - 1 {
        let t = s.drop_last();
        assert(t[i] == s[i]);
        assert forall|j: int| i < j < t.len() implies t[j].0 != t[i].0 by {
            assert(t[j] == s[j]);
        }
        lemma_pairs_to_map_last(t, i);
        assert(s.last().0 != s[i].0);
    }
}

/// A map from parameter names to values, each name present at most once.
pub struct QueryMap {
    entries: Vec<(String, String)>,
}

impl View for QueryMap {
    type V = Map<Seq<char>, Seq<char>>;

    closed spec fn view(&self) -> Map<Seq<char>, Seq<char>> {
        pairs_to_map(pairs_view(self.entries@))
    }
}

impl QueryMap {
    /// Each name is stored once.
    pub closed spec fn wf(&self) -> bool {
        names_distinct(pairs_view(self.entries@))
    }

    /// An empty map.
    pub fn new() -> (r: QueryMap)
        ensures
            r.wf(),
            r@ == Map::<Seq<char>, Seq<char>>::empty(),
    {
        let r = QueryMap { entries: Vec::new() };
        assert(pairs_view(r.entries@) =~= Seq::<(Seq<char>, Seq<char>)>::empty());
        r
    }

    /// Position of the entry named `name`, if there is one.
    fn position(&self, name: &String) -> (r: Option<usize>)
        requires
            self.wf(),
        ensures
            match r {
                Some(i) => i < self.entries@.len() && self.entries@[i as int].0@ == name@,
                None => forall|i: int|
                    0 <= i < self.entries@.len() ==> self.entries@[i].0@ != name@,
            },
    {
        let mut i: usize = 0;
        while i < self.entries.len()
            invariant
                i <= self.entries@.len(),
                forall|j: int| 0 <= j < i ==> self.entries@[j].0@ != name@,
            decreases self.entries@.len() - i,
        {
            if self.entries[i].0 == *name {
                return Some(i);
            }
            i = i + 1;
        }
        None
    }

    proof fn lemma_entry_value(&self, i: int)
        requires
            self.wf(),
            0 <= i < self.entries@.len(),
        ensures
            self@.contains_key(self.entries@[i].0@),
            self@[self.entries@[i].0@] == self.entries@[i].1@,
    {
        let s = pairs_view(self.entries@);
        assert(s[i] == (self.entries@[i].0@, self.entries@[i].1@));
        lemma_pairs_to_map_last(s, i);
    }

    /// Sets the value of `name`, replacing any earlier value.
    pub fn insert(&mut self, name: String, value: String)
        requires
            old(self).wf(),
        ensures
            final(self).wf(),
            final(self)@ == old(self)@.insert(name@, value@),
    {
        let ghost old_s = pairs_view(self.entries@);
        match self.position(&name) {
            Some(i) => {
                let ghost k = name@;
                let ghost v = value@;
                self.entries.set(i, (name, value));
                let ghost s = pairs_view(self.entries@);
                assert(s =~= old_s.update(i as int, (k, v)));
                assert forall|a: int, b: int|
                    0 <= a < s.len() && 0 <= b < s.len() && a != b implies s[a].0 != s[b].0 by {
                    assert(old_s[i as int].0 == k);
                }
                assert forall|x: Seq<char>|
                    #[trigger] pairs_to_map(s).contains_key(x)
                        == pairs_to_map(old_s).insert(k, v).contains_key(x) by {
                    lemma_pairs_to_map_contains(s, x);
                    lemma_pairs_to_map_contains(old_s, x);
                    assert(s[i as int] == (k, v));
                    if exists|j: int| 0 <= j < old_s.len() && old_s[j].0 == x {
                        let j = choose|j: int| 0 <= j < old_s.len() && old_s[j].0 == x;
                        if j != i {
                            assert(s[j].0 == x);
                        }
                    }
                    if exists|j: int| 0 <= j < s.len() && s[j].0 == x {
                        let j = choose|j: int| 0 <= j < s.len() && s[j].0 == x;
                        if j != i {
                            assert(old_s[j].0 == x);
                        }
                    }
                }
                assert forall|x: Seq<char>| #[trigger]
                    pairs_to_map(s).contains_key(x) implies pairs_to_map(s)[x]
                    == pairs_to_map(old_s).insert(k, v)[x] by {
                    lemma_pairs_to_map_contains(s, x);
                    let j = choose|j: int| 0 <= j < s.len() && s[j].0 == x;
                    assert(s[i as int] == (k, v));
                    lemma_pairs_to_map_last(s, j);
                    if j != i {
                        assert(old_s[j] == s[j]);
                        lemma_pairs_to_map_last(old_s, j);
                    }
                }
                assert(pairs_to_map(s) =~= pairs_to_map(old_s).insert(k, v));
            },
            None => {
                let ghost k = name@;
                let ghost v = value@;
                self.entries.push((name, value));
                let ghost s = pairs_view(self.entries@);
                assert(s =~= old_s.push((k, v)));
                assert(s.drop_last() =~= old_s);
                assert forall|a: int, b: int|
                    0 <= a < s.len() && 0 <= b < s.len() && a != b implies s[a].0 != s[b].0 by {
                    if a < old_s.len() {
                        assert(s[a] == old_s[a]);
                        assert(self.entries@[a] == old(self).entries@[a]);
                    }
                    if b < old_s.len() {
                        assert(s[b] == old_s[b]);
                        assert(self.entries@[b] == old(self).entries@[b]);
                    }
                }
            },
        }
    }

    /// The value of `name`, or `None` where the map holds no such name.
    pub fn get(&self, name: &str) -> (r: Option<&String>)
        requires
            self.wf(),
        ensures
            r.is_some() == self@.contains_key(name@),
            r.is_some() ==> r.unwrap()@ == self@[name@],
    {
        let key = name.to_owned();
        match self.position(&key) {
            Some(i) => {
                proof {
                    self.lemma_entry_value(i as int);
                }
                Some(&self.entries[i].1)
            },
            None => {
                proof {
                    lemma_pairs_to_map_contains(pairs_view(self.entries@), name@);
                    if self@.contains_key(name@) {
                        let j = choose|j: int|
                            0 <= j < self.entries@.len() && pairs_view(self.entries@)[j].0
                                == name@;
                        assert(self.entries@[j].0@ == name@);
                    }
                }
                None
            },
        }
    }

    /// Number of distinct names.
    pub fn len(&self) -> (r: usize)
        requires
            self.wf(),
        ensures
            r == self@.len(),
    {
        proof {
            self.lemma_len();
        }
        self.entries.len()
    }

    proof fn lemma_len(&self)
        requires
            self.wf(),
        ensures
            self@.len() == self.entries@.len(),
    {
        lemma_distinct_len(pairs_view(self.entries@));
    }
}

/// With distinct names, the folded map has one entry per pair.
proof fn lemma_distinct_len(s: Seq<(Seq<char>, Seq<char>)>)
    requires
        names_distinct(s),
    ensures
        pairs_to_map(s).dom().finite(),
        pairs_to_map(s).len() == s.len(),
    decreases s.len(),
{
    if s.len() > 0 {
        let t = s.drop_last();
        assert(names_distinct(t)) by {
            assert forall|a: int, b: int|
                0 <= a < t.len() && 0 <= b < t.len() && a != b implies t[a].0 != t[b].0 by {
                assert(t[a] == s[a] && t[b] == s[b]);
            }
        }
        lemma_distinct_len(t);
        lemma_pairs_to_map_contains(t, s.last().0);
        if pairs_to_map(t).contains_key(s.last().0) {
            let j = choose|j: int| 0 <= j < t.len() && t[j].0 == s.last().0;
            assert(t[j] == s[j]);
        }
    }
}

} // verus!
