use vstd::prelude::*;
use crate::text::str_eq;

verus! {

/// Some entry of `s` has the key `k`.
pub open spec fn has_key(s: Seq<(String, String)>, k: Seq<char>) -> bool {
    exists|i: int| 0 <= i < s.len() && s[i].0@ == k
}

/// No two entries of `s` share a key.
pub open spec fn unique_keys(s: Seq<(String, String)>) -> bool {
    forall|i: int, j: int| 0 <= i < s.len() && 0 <= j < s.len() && i != j ==> s[i].0@ != s[j].0@
}

/// The value of the entry of `s` with key `k`.
pub open spec fn value_of(s: Seq<(String, String)>, k: Seq<char>) -> Seq<char> {
    let i = choose|i: int| 0 <= i < s.len() && s[i].0@ == k;
    s[i].1@
}

/// The entries of `s` as a map.
pub open spec fn entries_map(s: Seq<(String, String)>) -> Map<Seq<char>, Seq<char>> {
    Map::new(|k: Seq<char>| has_key(s, k), |k: Seq<char>| value_of(s, k))
}

/// `m` after inserting the pairs of `s` one after another; a later pair
/// replaces an earlier one with the same key.
pub open spec fn insert_all(m: Map<Seq<char>, Seq<char>>, s: Seq<(Seq<char>, Seq<char>)>) -> Map<
    Seq<char>,
    Seq<char>,
>
    decreases s.len(),
{
    if s.len() == 0 {
        m
    } else {
        insert_all(m, s.drop_last()).insert(s.last().0, s.last().1)
    }
}

/// Inserting pairs one after another is the same as laying the map they
/// make by themselves over `m`.
pub proof fn insert_all_is_union(m: Map<Seq<char>, Seq<char>>, s: Seq<(Seq<char>, Seq<char>)>)
    ensures
        insert_all(m, s) == m.union_prefer_right(insert_all(Map::empty(), s)),
    decreases s.len(),
{
    if s.len() == 0 {
        assert(m.union_prefer_right(Map::<Seq<char>, Seq<char>>::empty()) =~= m);
    } else {
        insert_all_is_union(m, s.drop_last());
        let e = Map::<Seq<char>, Seq<char>>::empty();
        assert(insert_all(m, s) =~= m.union_prefer_right(insert_all(e, s)));
    }
}

/// Loading the same pairs twice gives what loading them once gives.
pub proof fn insert_all_twice(m: Map<Seq<char>, Seq<char>>, s: Seq<(Seq<char>, Seq<char>)>)
    ensures
        insert_all(insert_all(m, s), s) == insert_all(m, s),
{
    let a = insert_all(Map::empty(), s);
    insert_all_is_union(m, s);
    insert_all_is_union(insert_all(m, s), s);
    assert(m.union_prefer_right(a).union_prefer_right(a) =~= m.union_prefer_right(a));
}

/// The characters of each string pair.
pub open spec fn pair_views(v: Seq<(String, String)>) -> Seq<(Seq<char>, Seq<char>)> {
    v.map_values(|p: (String, String)| (p.0@, p.1@))
}

/// With unique keys, the entry with key `k` is the one at any index that
/// carries it.
proof fn lemma_value_at(s: Seq<(String, String)>, k: Seq<char>, i: int)
    requires
        unique_keys(s),
        0 <= i < s.len(),
        s[i].0@ == k,
    ensures
        value_of(s, k) == s[i].1@,
{
    let j = choose|j: int| 0 <= j < s.len() && s[j].0@ == k;
    assert(j == i);
}

/// Text values by text key, each key once.
#[derive(Debug, Clone, Default)]
pub struct ScriptTable {
    entries: Vec<(String, String)>,
}

impl ScriptTable {
    /// The entries as a map.
    pub closed spec fn view_map(&self) -> Map<Seq<char>, Seq<char>> {
        entries_map(self.entries@)
    }

    /// No key occurs twice.
    pub closed spec fn wf(&self) -> bool {
        unique_keys(self.entries@)
    }

    /// An empty table.
    pub fn new() -> (r: Self)
        ensures
            r.wf(),
            r.view_map() == Map::<Seq<char>, Seq<char>>::empty(),
    {
        let r = ScriptTable { entries: Vec::new() };
        assert(r.view_map() =~= Map::<Seq<char>, Seq<char>>::empty());
        r
    }

    /// The number of entries.
    pub fn len(&self) -> (r: usize)
        requires
            self.wf(),
        ensures
            r == self.view_map().dom().len(),
    {
        proof {
            let s = self.entries@;
            let keys = s.map_values(|p: (String, String)| p.0@);
            assert forall|k: Seq<char>| self.view_map().dom().contains(k) <==> keys.contains(k) by {
                if has_key(s, k) {
                    let x = choose|x: int| 0 <= x < s.len() && s[x].0@ == k;
                    assert(keys[x] == k);
                }
                if keys.contains(k) {
                    let x = choose|x: int| 0 <= x < keys.len() && keys[x] == k;
                    assert(s[x].0@ == k);
                }
            }
            assert(keys.no_duplicates());
            keys.unique_seq_to_set();
            assert(self.view_map().dom() =~= keys.to_set());
        }
        self.entries.len()
    }

    /// Where the entry with key `k` is, if there is one.
    fn find(&self, k: &str) -> (r: Option<usize>)
        ensures
            match r {
                Some(i) => i < self.entries.len() && self.entries@[i as int].0@ == k@,
                None => !has_key(self.entries@, k@),
            },
    {
        let mut x: usize = 0;
        while x < self.entries.len()
            invariant
                x <= self.entries.len(),
                forall|y: int| 0 <= y < x ==> self.entries@[y].0@ != k@,
            decreases self.entries.len() - x,
        {
            if str_eq(self.entries[x].0.as_str(), k) {
                return Some(x);
            }
            x = x + 1;
        }
        None
    }

    /// The value stored under `k`.
    pub fn get(&self, k: &str) -> (r: Option<String>)
        requires
            self.wf(),
        ensures
            match r {
                Some(v) => self.view_map().dom().contains(k@) && v@ == self.view_map()[k@],
                None => !self.view_map().dom().contains(k@),
            },
    {
        match self.find(k) {
            Some(i) => {
                proof {
                    lemma_value_at(self.entries@, k@, i as int);
                }
                Some(crate::text::to_string(self.entries[i].1.as_str()))
            },
            None => None,
        }
    }

    /// Removes the entry with key `k`, if there is one.
    pub fn remove(&mut self, k: &str)
        requires
            old(self).wf(),
        ensures
            final(self).wf(),
            final(self).view_map() == old(self).view_map().remove(k@),
    {
        match self.find(k) {
            None => {
                assert(self.view_map() =~= old(self).view_map().remove(k@));
            },
            Some(i) => {
                let ghost s = self.entries@;
                self.entries.remove(i);
                let ghost t = self.entries@;
                assert(t =~= s.remove(i as int));
                proof {
                    assert forall|n: Seq<char>| has_key(t, n) <==> has_key(s, n) && n != k@ by {
                        if has_key(t, n) {
                            let x = choose|x: int| 0 <= x < t.len() && t[x].0@ == n;
                            if x < i {
                                assert(s[x].0@ == n);
                            } else {
                                assert(s[x + 1].0@ == n);
                            }
                        }
                        if has_key(s, n) && n != k@ {
                            let x = choose|x: int| 0 <= x < s.len() && s[x].0@ == n;
                            if x < i {
                                assert(t[x].0@ == n);
                            } else {
                                assert(x != i);
                                assert(t[x - 1].0@ == n);
                            }
                        }
                    }
                    assert forall|n: Seq<char>| has_key(t, n) implies value_of(t, n) == value_of(
                        s,
                        n,
                    ) by {
                        let x = choose|x: int| 0 <= x < t.len() && t[x].0@ == n;
                        lemma_value_at(t, n, x);
                        if x < i {
                            lemma_value_at(s, n, x);
                        } else {
                            lemma_value_at(s, n, x + 1);
                        }
                    }
                    assert(self.view_map() =~= old(self).view_map().remove(k@));
                }
            },
        }
    }

    /// Stores `v` under `k`, replacing what was stored there.
    pub fn insert(&mut self, k: String, v: String)
        requires
            old(self).wf(),
        ensures
            final(self).wf(),
            final(self).view_map() == old(self).view_map().insert(k@, v@),
    {
        self.remove(k.as_str());
        let ghost s = self.entries@;
        let ghost kv = k@;
        let ghost vv = v@;
        self.entries.push((k, v));
        let ghost t = self.entries@;
        proof {
            assert(t[s.len() as int].0@ == kv);
            assert(t[s.len() as int].1@ == vv);
            assert(!has_key(s, kv)) by {
                if has_key(s, kv) {
                    assert(entries_map(s).dom().contains(kv));
                }
            }
            assert forall|a: int, b: int|
                0 <= a < t.len() && 0 <= b < t.len() && a != b implies t[a].0@ != t[b].0@ by {
                if a == s.len() {
                    assert(s[b].0@ != kv);
                } else if b == s.len() {
                    assert(s[a].0@ != kv);
                } else {
                    assert(t[a] == s[a] && t[b] == s[b]);
                }
            }
            let target = old(self).view_map().insert(kv, vv);
            assert(entries_map(s) == old(self).view_map().remove(kv));
            assert forall|n: Seq<char>| #[trigger] target.dom().contains(n) == has_key(t, n) by {
                if has_key(s, n) {
                    let x = choose|x: int| 0 <= x < s.len() && s[x].0@ == n;
                    assert(t[x].0@ == n);
                }
                if n == kv {
                    assert(t[s.len() as int].0@ == n);
                }
                if has_key(t, n) && n != kv {
                    let x = choose|x: int| 0 <= x < t.len() && t[x].0@ == n;
                    assert(x < s.len());
                    assert(s[x].0@ == n);
                }
                if n != kv {
                    assert(entries_map(s).dom().contains(n) == has_key(s, n));
                }
            }
            assert forall|n: Seq<char>| has_key(t, n) implies #[trigger] entries_map(t)[n]
                == target[n] by {
                if n == kv {
                    lemma_value_at(t, n, s.len() as int);
                } else {
                    let x = choose|x: int| 0 <= x < t.len() && t[x].0@ == n;
                    assert(x < s.len());
                    assert(t[x] == s[x]);
                    lemma_value_at(t, n, x);
                    lemma_value_at(s, n, x);
                    assert(entries_map(s).dom().contains(n));
                    assert(old(self).view_map().remove(kv)[n] == old(self).view_map()[n]);
                }
            }
            assert(entries_map(t) =~= target);
        }
    }

    /// Inserts the pairs of `pairs` one after another.
    pub fn insert_pairs(&mut self, pairs: Vec<(String, String)>)
        requires
            old(self).wf(),
        ensures
            final(self).wf(),
            final(self).view_map() == insert_all(old(self).view_map(), pair_views(pairs@)),
    {
        let ghost start = self.view_map();
        let mut i: usize = 0;
        while i < pairs.len()
            invariant
                i <= pairs.len(),
                self.wf(),
                self.view_map() == insert_all(start, pair_views(pairs@).take(i as int)),
            decreases pairs.len() - i,
        {
            let k = crate::text::to_string(pairs[i].0.as_str());
            let v = crate::text::to_string(pairs[i].1.as_str());
            self.insert(k, v);
            proof {
                let pv = pair_views(pairs@);
                assert(pv.take(i + 1).drop_last() =~= pv.take(i as int));
                assert(pv.take(i + 1).last() == pv[i as int]);
            }
            i = i + 1;
        }
        proof {
            assert(pair_views(pairs@).take(pairs.len() as int) =~= pair_views(pairs@));
        }
    }
}

} // verus!
