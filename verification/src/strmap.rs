//! A map keyed by strings, held as a vector sorted by key (the iteration order of a
//! `BTreeMap<String, _>`).
use vstd::prelude::*;
use crate::text::{
    lemma_lex_irreflexive, lemma_lex_total, lemma_lex_transitive, lex_lt, lex_order_str, Order3,
};

verus! {

/// Keys strictly increasing (so, in particular, pairwise distinct).
pub open spec fn sorted_keys<V>(s: Seq<(String, V)>) -> bool {
    forall|i: int, j: int| 0 <= i < j < s.len() ==> lex_lt(#[trigger] s[i].0@, #[trigger] s[j].0@)
}

/// The map that a sequence of entries denotes (a later entry wins over an earlier one).
pub open spec fn map_of<V>(s: Seq<(String, V)>) -> Map<Seq<char>, V>
    decreases s.len(),
{
    if s.len() == 0 {
        Map::empty()
    } else {
        map_of(s.drop_last()).insert(s.last().0@, s.last().1)
    }
}

/// Keys pairwise distinct.
pub open spec fn distinct_keys<V>(s: Seq<(String, V)>) -> bool {
    forall|i: int, j: int| 0 <= i < s.len() && 0 <= j < s.len() && i != j ==> #[trigger] s[i].0@
        != #[trigger] s[j].0@
}

pub proof fn lemma_sorted_distinct<V>(s: Seq<(String, V)>)
    requires
        sorted_keys(s),
    ensures
        distinct_keys(s),
{
    assert forall|i: int, j: int|
        0 <= i < s.len() && 0 <= j < s.len() && i != j implies #[trigger] s[i].0@
        != #[trigger] s[j].0@ by {
        if i < j {
            assert(lex_lt(s[i].0@, s[j].0@));
            if s[i].0@ == s[j].0@ {
                lemma_lex_irreflexive(s[i].0@);
            }
        } else {
            assert(lex_lt(s[j].0@, s[i].0@));
            if s[i].0@ == s[j].0@ {
                lemma_lex_irreflexive(s[i].0@);
            }
        }
    }
}

/// What `map_of` holds: exactly the keys of the entries, each with its entry's value.
pub proof fn lemma_map_of<V>(s: Seq<(String, V)>)
    requires
        distinct_keys(s),
    ensures
        forall|i: int|
            0 <= i < s.len() ==> #[trigger] map_of(s).contains_key(s[i].0@) && map_of(s)[s[i].0@]
                == s[i].1,
        forall|k: Seq<char>|
            #[trigger] map_of(s).contains_key(k) ==> exists|i: int| 0 <= i < s.len() && s[i].0@ == k,
    decreases s.len(),
{
    if s.len() > 0 {
        let t = s.drop_last();
        assert(distinct_keys(t)) by {
            assert forall|i: int, j: int|
                0 <= i < t.len() && 0 <= j < t.len() && i != j implies #[trigger] t[i].0@
                != #[trigger] t[j].0@ by {
                assert(t[i] == s[i]);
                assert(t[j] == s[j]);
            }
        }
        lemma_map_of(t);
        assert forall|i: int| 0 <= i < s.len() implies #[trigger] map_of(s).contains_key(s[i].0@)
            && map_of(s)[s[i].0@] == s[i].1 by {
            if i < s.len() - 1 {
                assert(t[i] == s[i]);
                assert(s[i].0@ != s[s.len() - 1].0@);
                assert(map_of(t).contains_key(t[i].0@));
                assert(map_of(t)[t[i].0@] == t[i].1);
            }
        }
        assert forall|k: Seq<char>| #[trigger] map_of(s).contains_key(k) implies exists|i: int|
            0 <= i < s.len() && s[i].0@ == k by {
            if k != s.last().0@ {
                assert(map_of(t).contains_key(k));
                let i = choose|i: int| 0 <= i < t.len() && t[i].0@ == k;
                assert(s[i] == t[i]);
            } else {
                assert(s[s.len() - 1].0@ == k);
            }
        }
    }
}

/// String-keyed map in key order.
#[derive(PartialEq, Eq, Debug)]
pub struct StrMap<V> {
    pub entries: Vec<(String, V)>,
}

impl<V> View for StrMap<V> {
    type V = Map<Seq<char>, V>;

    open spec fn view(&self) -> Map<Seq<char>, V> {
        map_of(self.entries@)
    }
}

impl<V> StrMap<V> {
    /// Entries sorted by key.
    pub open spec fn wf(&self) -> bool {
        sorted_keys(self.entries@)
    }

    /// The entries in key order.
    pub open spec fn rows(&self) -> Seq<(String, V)> {
        self.entries@
    }

    pub fn new() -> (m: Self)
        ensures
            m.wf(),
            m@ == Map::<Seq<char>, V>::empty(),
            m.rows().len() == 0,
    {
        StrMap { entries: Vec::new() }
    }

    /// Number of keys.
    pub fn len(&self) -> (n: usize)
        ensures
            n == self.rows().len(),
    {
        self.entries.len()
    }

    /// Position of `key`, or where it would be inserted (meaningful for a sorted map).
    fn find(&self, key: &str) -> (r: Result<usize, usize>)
        ensures
            match r {
                Ok(i) => i < self.entries.len() && self.entries@[i as int].0@ == key@,
                Err(i) => i <= self.entries.len() && (self.wf() ==> (forall|j: int|
                    0 <= j < i ==> lex_lt(#[trigger] self.entries@[j].0@, key@)) && (forall|j: int|
                    i <= j < self.entries.len() ==> lex_lt(key@, #[trigger] self.entries@[j].0@))),
            },
    {
        let mut i: usize = 0;
        while i < self.entries.len()
            invariant
                i <= self.entries.len(),
                self.wf() ==> forall|j: int| 0 <= j < i ==> lex_lt(#[trigger] self.entries@[j].0@, key@),
            decreases self.entries.len() - i,
        {
            match lex_order_str(self.entries[i].0.as_str(), key) {
                Order3::Equal => {
                    return Ok(i);
                },
                Order3::Greater => {
                    let ghost ki = self.entries@[i as int].0@;
                    proof {
                        if self.wf() {
                            lemma_lex_total(ki, key@);
                            assert forall|j: int| i <= j < self.entries.len() implies lex_lt(
                                key@,
                                #[trigger] self.entries@[j].0@,
                            ) by {
                                if j > i {
                                    assert(lex_lt(ki, self.entries@[j].0@));
                                    lemma_lex_transitive(key@, ki, self.entries@[j].0@);
                                }
                            }
                        }
                    }
                    return Err(i);
                },
                Order3::Less => {},
            }
            i = i + 1;
        }
        Err(i)
    }

    /// The value for `key`.
    pub fn get(&self, key: &str) -> (r: Option<&V>)
        ensures
            self.wf() ==> match r {
                Some(v) => self@.contains_key(key@) && self@[key@] == *v,
                None => !self@.contains_key(key@),
            },
    {
        proof {
            if self.wf() {
                lemma_sorted_distinct(self.entries@);
                lemma_map_of(self.entries@);
            }
        }
        match self.find(key) {
            Ok(i) => {
                proof {
                    if self.wf() {
                        assert(map_of(self.entries@).contains_key(self.entries@[i as int].0@));
                    }
                }
                Some(&self.entries[i].1)
            },
            Err(i) => {
                proof {
                    if self.wf() && self@.contains_key(key@) {
                        let j = choose|j: int|
                            0 <= j < self.entries@.len() && self.entries@[j].0@ == key@;
                        if j < i {
                            assert(lex_lt(self.entries@[j].0@, key@));
                        } else {
                            assert(lex_lt(key@, self.entries@[j].0@));
                        }
                        lemma_lex_irreflexive(key@);
                    }
                }
                None
            },
        }
    }

    /// Sets `key` to `v`.
    pub fn insert(&mut self, key: String, v: V)
        requires
            old(self).wf(),
        ensures
            final(self).wf(),
            final(self)@ == old(self)@.insert(key@, v),
    {
        let ghost s = self.entries@;
        let ghost k = key@;
        proof {
            lemma_sorted_distinct(s);
            lemma_map_of(s);
        }
        match self.find(key.as_str()) {
            Ok(i) => {
                self.entries.set(i, (key, v));
                let ghost t = self.entries@;
                assert(sorted_keys(t)) by {
                    assert forall|a: int, b: int| 0 <= a < b < t.len() implies lex_lt(
                        #[trigger] t[a].0@,
                        #[trigger] t[b].0@,
                    ) by {
                        assert(s[a].0@ == t[a].0@ || a == i);
                        assert(s[b].0@ == t[b].0@ || b == i);
                        assert(lex_lt(s[a].0@, s[b].0@));
                    }
                }
                proof {
                    lemma_sorted_distinct(t);
                    lemma_map_of(t);
                    assert(map_of(t) =~= map_of(s).insert(k, v)) by {
                        assert forall|x: Seq<char>| #[trigger] map_of(t).contains_key(x) <==> map_of(
                            s,
                        ).insert(k, v).contains_key(x) by {
                            if map_of(t).contains_key(x) {
                                let j = choose|j: int| 0 <= j < t.len() && t[j].0@ == x;
                                if j != i {
                                    assert(t[j] == s[j]);
                                }
                            }
                            if map_of(s).contains_key(x) {
                                let j = choose|j: int| 0 <= j < s.len() && s[j].0@ == x;
                                if j != i {
                                    assert(t[j] == s[j]);
                                }
                                assert(map_of(t).contains_key(t[j].0@));
                            }
                            if x == k {
                                assert(map_of(t).contains_key(t[i as int].0@));
                            }
                        }
                        assert forall|x: Seq<char>| #[trigger] map_of(t).contains_key(x) implies map_of(
                            t,
                        )[x] == map_of(s).insert(k, v)[x] by {
                            let j = choose|j: int| 0 <= j < t.len() && t[j].0@ == x;
                            if j != i {
                                assert(t[j] == s[j]);
                            }
                        }
                    }
                }
            },
            Err(i) => {
                self.entries.insert(i, (key, v));
                let ghost t = self.entries@;
                assert(forall|j: int| 0 <= j < i ==> t[j] == s[j]);
                assert(forall|j: int| i < j < t.len() ==> t[j] == s[j - 1]);
                assert(sorted_keys(t)) by {
                    assert forall|a: int, b: int| 0 <= a < b < t.len() implies lex_lt(
                        #[trigger] t[a].0@,
                        #[trigger] t[b].0@,
                    ) by {
                        if a < i && b < i {
                            assert(lex_lt(s[a].0@, s[b].0@));
                        } else if a < i && b == i {
                        } else if a < i {
                            assert(lex_lt(s[a].0@, k));
                            assert(lex_lt(k, s[b - 1].0@));
                            lemma_lex_transitive(s[a].0@, k, s[b - 1].0@);
                        } else if a == i {
                        } else {
                            assert(lex_lt(s[a - 1].0@, s[b - 1].0@));
                        }
                    }
                }
                proof {
                    lemma_sorted_distinct(t);
                    lemma_map_of(t);
                    assert(map_of(t) =~= map_of(s).insert(k, v)) by {
                        assert forall|x: Seq<char>| #[trigger] map_of(t).contains_key(x) <==> map_of(
                            s,
                        ).insert(k, v).contains_key(x) by {
                            if map_of(t).contains_key(x) {
                                let j = choose|j: int| 0 <= j < t.len() && t[j].0@ == x;
                                if j < i {
                                    assert(t[j] == s[j]);
                                } else if j > i {
                                    assert(t[j] == s[j - 1]);
                                }
                            }
                            if map_of(s).contains_key(x) {
                                let j = choose|j: int| 0 <= j < s.len() && s[j].0@ == x;
                                if j < i {
                                    assert(t[j] == s[j]);
                                    assert(map_of(t).contains_key(t[j].0@));
                                } else {
                                    assert(t[j + 1] == s[j]);
                                    assert(map_of(t).contains_key(t[j + 1].0@));
                                }
                            }
                            if x == k {
                                assert(map_of(t).contains_key(t[i as int].0@));
                            }
                        }
                        assert forall|x: Seq<char>| #[trigger] map_of(t).contains_key(x) implies map_of(
                            t,
                        )[x] == map_of(s).insert(k, v)[x] by {
                            let j = choose|j: int| 0 <= j < t.len() && t[j].0@ == x;
                            assert(t[i as int].0@ == k);
                            if j < i {
                                assert(t[j] == s[j]);
                                assert(t[j].0@ != t[i as int].0@);
                            } else if j > i {
                                assert(t[j] == s[j - 1]);
                                assert(t[j].0@ != t[i as int].0@);
                            }
                        }
                    }
                }
            },
        }
    }

    /// Removes `key`.
    pub fn remove(&mut self, key: &str)
        requires
            old(self).wf(),
        ensures
            final(self).wf(),
            final(self)@ == old(self)@.remove(key@),
    {
        let ghost s = self.entries@;
        let ghost k = key@;
        proof {
            lemma_sorted_distinct(s);
            lemma_map_of(s);
        }
        match self.find(key) {
            Ok(i) => {
                self.entries.remove(i);
                let ghost t = self.entries@;
                assert(forall|j: int| 0 <= j < i ==> t[j] == s[j]);
                assert(forall|j: int| i <= j < t.len() ==> t[j] == s[j + 1]);
                assert(sorted_keys(t)) by {
                    assert forall|a: int, b: int| 0 <= a < b < t.len() implies lex_lt(
                        #[trigger] t[a].0@,
                        #[trigger] t[b].0@,
                    ) by {
                        if a < i && b < i {
                            assert(lex_lt(s[a].0@, s[b].0@));
                        } else if a < i {
                            assert(lex_lt(s[a].0@, s[b + 1].0@));
                        } else {
                            assert(lex_lt(s[a + 1].0@, s[b + 1].0@));
                        }
                    }
                }
                proof {
                    lemma_sorted_distinct(t);
                    lemma_map_of(t);
                    assert(map_of(t) =~= map_of(s).remove(k)) by {
                        assert forall|x: Seq<char>| #[trigger] map_of(t).contains_key(x) <==> map_of(
                            s,
                        ).remove(k).contains_key(x) by {
                            if map_of(t).contains_key(x) {
                                let j = choose|j: int| 0 <= j < t.len() && t[j].0@ == x;
                                if j < i {
                                    assert(t[j] == s[j]);
                                } else {
                                    assert(t[j] == s[j + 1]);
                                }
                            }
                            if map_of(s).contains_key(x) && x != k {
                                let j = choose|j: int| 0 <= j < s.len() && s[j].0@ == x;
                                if j < i {
                                    assert(t[j] == s[j]);
                                    assert(map_of(t).contains_key(t[j].0@));
                                } else {
                                    assert(j != i);
                                    assert(t[j - 1] == s[j]);
                                    assert(map_of(t).contains_key(t[j - 1].0@));
                                }
                            }
                        }
                        assert forall|x: Seq<char>| #[trigger] map_of(t).contains_key(x) implies map_of(
                            t,
                        )[x] == map_of(s).remove(k)[x] by {
                            let j = choose|j: int| 0 <= j < t.len() && t[j].0@ == x;
                            if j < i {
                                assert(t[j] == s[j]);
                            } else {
                                assert(t[j] == s[j + 1]);
                            }
                        }
                    }
                }
            },
            Err(i) => {
                proof {
                    if map_of(s).contains_key(k) {
                        let j = choose|j: int| 0 <= j < s.len() && s[j].0@ == k;
                        if j < i {
                            assert(lex_lt(s[j].0@, k));
                        } else {
                            assert(lex_lt(k, s[j].0@));
                        }
                        lemma_lex_irreflexive(k);
                    }
                    assert(map_of(s).remove(k) =~= map_of(s));
                }
            },
        }
    }
}

impl<V: Copy> StrMap<V> {
    /// A copy of the map.
    pub fn copy(&self) -> (r: Self)
        ensures
            r.entries@ == self.entries@,
    {
        let mut out: Vec<(String, V)> = Vec::new();
        let mut i: usize = 0;
        while i < self.entries.len()
            invariant
                i <= self.entries.len(),
                out@ == self.entries@.take(i as int),
            decreases self.entries.len() - i,
        {
            let k = self.entries[i].0.clone();
            let v = self.entries[i].1;
            out.push((k, v));
            assert(out@ =~= self.entries@.take(i + 1));
            i = i + 1;
        }
        assert(self.entries@.take(self.entries@.len() as int) =~= self.entries@);
        StrMap { entries: out }
    }
}

} // verus!
