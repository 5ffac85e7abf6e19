//! Foundations of the registry: a string-keyed association table with a
//! mathematical `Map` view, and duplicate-free string vectors with a `Set`
//! view. Every registry structure is built from these two shapes.

use vstd::prelude::*;
use vstd::string::*;

verus! {

/// Character-for-character string equality.
pub fn str_eq(a: &str, b: &str) -> (r: bool)
    ensures
        r == (a@ == b@),
{
    let na = a.unicode_len();
    let nb = b.unicode_len();
    if na != nb {
        return false;
    }
    let mut i: usize = 0;
    while i < na
        invariant
            0 <= i <= na,
            na == a@.len(),
            na == b@.len(),
            forall|k: int| 0 <= k < i ==> a@[k] == b@[k],
        decreases na - i,
    {
        if a.get_char(i) != b.get_char(i) {
            return false;
        }
        i += 1;
    }
    proof {
        assert(a@ =~= b@);
    }
    true
}

/// The views of the strings in `v`.
pub open spec fn strs(v: Seq<String>) -> Seq<Seq<char>> {
    v.map_values(|s: String| s@)
}

/// The set of strings in `v`, as views.
pub open spec fn str_set(v: Seq<String>) -> Set<Seq<char>> {
    strs(v).to_set()
}

/// Whether the strings of `v` are pairwise different.
pub open spec fn distinct_strs(v: Seq<String>) -> bool {
    forall|i: int, j: int| 0 <= i < j < v.len() ==> strs(v)[i] != strs(v)[j]
}

/// The position of `s` in `v`, if present.
pub fn index_of_str(v: &Vec<String>, s: &str) -> (r: Option<usize>)
    ensures
        match r {
            Some(i) => i < v@.len() && v@[i as int]@ == s@,
            None => !str_set(v@).contains(s@),
        },
{
    let n = v.len();
    let mut i: usize = 0;
    while i < n
        invariant
            0 <= i <= n,
            n == v@.len(),
            forall|k: int| 0 <= k < i ==> strs(v@)[k] != s@,
        decreases n - i,
    {
        if str_eq(v[i].as_str(), s) {
            return Some(i);
        }
        i += 1;
    }
    proof {
        if str_set(v@).contains(s@) {
            let k = choose|k: int| 0 <= k < strs(v@).len() && strs(v@)[k] == s@;
        }
    }
    None
}

/// Adds `s` to the set `v` (no effect when already present).
pub fn push_unique(v: &mut Vec<String>, s: &str)
    requires
        distinct_strs(old(v)@),
    ensures
        distinct_strs(final(v)@),
        str_set(final(v)@) == str_set(old(v)@).insert(s@),
{
    match index_of_str(v, s) {
        Some(i) => {
            proof {
                assert(strs(v@)[i as int] == s@);
                assert(strs(v@).contains(s@));
                assert(str_set(v@).contains(s@));
                assert(str_set(v@) =~= str_set(v@).insert(s@));
            }
        },
        None => {
            let ghost pre = v@;
            v.push(s.to_owned());
            proof {
                assert(strs(v@) =~= strs(pre).push(s@));
                assert(distinct_strs(v@)) by {
                    assert(!str_set(pre).contains(s@));
                    assert forall|a: int, b: int| 0 <= a < b < v@.len() implies strs(v@)[a]
                        != strs(v@)[b] by {
                        if b == v@.len() - 1 {
                            assert(strs(pre)[a] == strs(v@)[a]);
                            if strs(v@)[a] == s@ {
                                assert(strs(pre).contains(s@));
                                assert(str_set(pre).contains(s@));
                            }
                        }
                    }
                }
                assert forall|x: Seq<char>|
                    str_set(v@).contains(x) == str_set(pre).insert(s@).contains(x) by {
                    if str_set(v@).contains(x) {
                        let a = choose|a: int| 0 <= a < strs(v@).len() && strs(v@)[a] == x;
                        if a < pre.len() {
                            assert(strs(pre)[a] == x);
                            assert(strs(pre).contains(x));
                        }
                    }
                    if str_set(pre).insert(s@).contains(x) {
                        if x == s@ {
                            assert(strs(v@)[v@.len() - 1] == x);
                            assert(strs(v@).contains(x));
                        } else {
                            let a = choose|a: int| 0 <= a < strs(pre).len() && strs(pre)[a] == x;
                            assert(strs(v@)[a] == x);
                            assert(strs(v@).contains(x));
                        }
                    }
                }
                assert(str_set(v@) =~= str_set(pre).insert(s@));
            }
        },
    }
}

/// Removes `s` from the set `v`; returns whether it was present.
pub fn remove_str(v: &mut Vec<String>, s: &str) -> (r: bool)
    requires
        distinct_strs(old(v)@),
    ensures
        distinct_strs(final(v)@),
        str_set(final(v)@) == str_set(old(v)@).remove(s@),
        r == str_set(old(v)@).contains(s@),
{
    match index_of_str(v, s) {
        Some(i) => {
            let ghost pre = v@;
            v.remove(i);
            proof {
                assert(strs(v@) =~= strs(pre).remove(i as int));
                lemma_distinct_remove(pre, i as int);
                lemma_remove_set(pre, i as int);
                assert(strs(pre)[i as int] == s@);
                assert(strs(pre).contains(s@));
                assert(str_set(pre).contains(s@));
            }
            true
        },
        None => {
            proof {
                assert(str_set(v@) =~= str_set(v@).remove(s@));
            }
            false
        },
    }
}

proof fn lemma_distinct_remove(v: Seq<String>, i: int)
    requires
        distinct_strs(v),
        0 <= i < v.len(),
    ensures
        distinct_strs(v.remove(i)),
{
    let w = v.remove(i);
    v.remove_ensures(i);
    assert forall|a: int, b: int| 0 <= a < b < w.len() implies strs(w)[a] != strs(w)[b] by {
        let a0 = if a < i {
            a
        } else {
            a + 1
        };
        let b0 = if b < i {
            b
        } else {
            b + 1
        };
        assert(w[a] == v[a0]);
        assert(w[b] == v[b0]);
        assert(strs(w)[a] == w[a]@);
        assert(strs(w)[b] == w[b]@);
        assert(strs(v)[a0] == v[a0]@);
        assert(strs(v)[b0] == v[b0]@);
        assert(strs(v)[a0] != strs(v)[b0]);
    }
}

/// Removing position `i` of a duplicate-free vector removes exactly its
/// element from the set.
proof fn lemma_remove_set(v: Seq<String>, i: int)
    requires
        distinct_strs(v),
        0 <= i < v.len(),
    ensures
        str_set(v.remove(i)) == str_set(v).remove(v[i]@),
{
    let w = v.remove(i);
    v.remove_ensures(i);
    assert forall|x: Seq<char>| str_set(w).contains(x) implies str_set(v).remove(v[i]@).contains(
        x,
    ) by {
        let a = choose|a: int| 0 <= a < strs(w).len() && strs(w)[a] == x;
        let a0 = if a < i {
            a
        } else {
            a + 1
        };
        assert(w[a] == v[a0]);
        assert(strs(v)[a0] == x);
        assert(strs(v).contains(x));
        if a0 < i {
            assert(strs(v)[a0] != strs(v)[i]);
        } else {
            assert(strs(v)[i] != strs(v)[a0]);
        }
        assert(x != v[i]@);
    }
    assert forall|x: Seq<char>| str_set(v).remove(v[i]@).contains(x) implies str_set(w).contains(
        x,
    ) by {
        let a = choose|a: int| 0 <= a < strs(v).len() && strs(v)[a] == x;
        assert(a != i);
        let a1 = if a < i {
            a
        } else {
            a - 1
        };
        assert(w[a1] == v[a]);
        assert(strs(w)[a1] == x);
        assert(strs(w).contains(x));
    }
    assert(str_set(w) =~= str_set(v).remove(v[i]@));
}

/// A full copy of a string vector.
pub fn clone_str_vec(v: &Vec<String>) -> (r: Vec<String>)
    ensures
        r@ == v@,
{
    let mut out: Vec<String> = Vec::new();
    let n = v.len();
    let mut i: usize = 0;
    while i < n
        invariant
            0 <= i <= n,
            n == v@.len(),
            out@ == v@.subrange(0, i as int),
        decreases n - i,
    {
        out.push(v[i].clone());
        proof {
            assert(v@.subrange(0, i + 1) =~= v@.subrange(0, i as int) + seq![v@[i as int]]);
        }
        i += 1;
    }
    proof {
        assert(v@.subrange(0, n as int) =~= v@);
    }
    out
}

/// The map an association list denotes, later entries overriding earlier
/// ones.
pub open spec fn as_map<V>(s: Seq<(String, V)>) -> Map<Seq<char>, V>
    decreases s.len(),
{
    if s.len() == 0 {
        Map::empty()
    } else {
        as_map(s.drop_last()).insert(s.last().0@, s.last().1)
    }
}

/// Whether the keys of an association list are pairwise different.
pub open spec fn distinct_keys<V>(s: Seq<(String, V)>) -> bool {
    forall|i: int, j: int| 0 <= i < j < s.len() ==> s[i].0@ != s[j].0@
}

/// What an association list's map holds, entry by entry.
proof fn lemma_as_map_props<V>(s: Seq<(String, V)>)
    requires
        distinct_keys(s),
    ensures
        forall|i: int|
            0 <= i < s.len() ==> as_map(s).contains_key(#[trigger] s[i].0@) && as_map(s)[s[i].0@]
                == s[i].1,
        forall|k: Seq<char>|
            #[trigger] as_map(s).contains_key(k) ==> exists|i: int|
                0 <= i < s.len() && s[i].0@ == k,
        as_map(s).dom().finite(),
    decreases s.len(),
{
    if s.len() > 0 {
        let t = s.drop_last();
        assert(distinct_keys(t)) by {
            assert(forall|i: int, j: int| 0 <= i < j < t.len() ==> s[i].0@ != s[j].0@);
        }
        lemma_as_map_props(t);
        assert forall|i: int| 0 <= i < s.len() implies as_map(s).contains_key(#[trigger] s[i].0@)
            && as_map(s)[s[i].0@] == s[i].1 by {
            if i < s.len() - 1 {
                assert(t[i] == s[i]);
                assert(s[i].0@ != s.last().0@);
            }
        }
        assert forall|k: Seq<char>| #[trigger] as_map(s).contains_key(k) implies exists|i: int|
            0 <= i < s.len() && s[i].0@ == k by {
            if k != s.last().0@ {
                let i = choose|i: int| 0 <= i < t.len() && t[i].0@ == k;
                assert(s[i].0@ == k);
            } else {
                assert(s[s.len() - 1].0@ == k);
            }
        }
    }
}

/// A string-keyed table: unique keys, viewed as a mathematical map from
/// key text to value.
pub struct StrMap<V> {
    entries: Vec<(String, V)>,
}

impl<V> StrMap<V> {
    /// The table's entries, in insertion order.
    pub closed spec fn entries_seq(self) -> Seq<(String, V)> {
        self.entries@
    }

    /// Key uniqueness; every operation preserves it.
    pub open spec fn wf(self) -> bool {
        distinct_keys(self.entries_seq())
    }
}

impl<V> View for StrMap<V> {
    type V = Map<Seq<char>, V>;

    open spec fn view(&self) -> Map<Seq<char>, V> {
        as_map(self.entries_seq())
    }
}

impl<V> StrMap<V> {
    pub fn new() -> (r: Self)
        ensures
            r.wf(),
            r@ == Map::<Seq<char>, V>::empty(),
    {
        StrMap { entries: Vec::new() }
    }

    /// The position of `key` among the entries, if present.
    fn index_of(&self, key: &str) -> (r: Option<usize>)
        ensures
            match r {
                Some(i) => i < self.entries_seq().len() && self.entries_seq()[i as int].0@ == key@,
                None => forall|i: int|
                    0 <= i < self.entries_seq().len() ==> self.entries_seq()[i].0@ != key@,
            },
    {
        let n = self.entries.len();
        let mut i: usize = 0;
        while i < n
            invariant
                0 <= i <= n,
                n == self.entries@.len(),
                forall|k: int| 0 <= k < i ==> self.entries@[k].0@ != key@,
            decreases n - i,
        {
            if str_eq(self.entries[i].0.as_str(), key) {
                return Some(i);
            }
            i += 1;
        }
        None
    }

    pub fn contains_key(&self, key: &str) -> (r: bool)
        requires
            self.wf(),
        ensures
            r == self@.contains_key(key@),
    {
        proof {
            lemma_as_map_props(self.entries_seq());
        }
        match self.index_of(key) {
            Some(_) => true,
            None => false,
        }
    }

    pub fn get(&self, key: &str) -> (r: Option<&V>)
        requires
            self.wf(),
        ensures
            match r {
                Some(v) => self@.contains_key(key@) && *v == self@[key@],
                None => !self@.contains_key(key@),
            },
    {
        proof {
            lemma_as_map_props(self.entries_seq());
        }
        match self.index_of(key) {
            Some(i) => Some(&self.entries[i].1),
            None => None,
        }
    }

    /// Binds `key` to `value`, replacing any earlier binding.
    pub fn insert(&mut self, key: &str, value: V)
        requires
            old(self).wf(),
        ensures
            final(self).wf(),
            final(self)@ == old(self)@.insert(key@, value),
    {
        proof {
            lemma_as_map_props(self.entries_seq());
        }
        let ghost pre = self.entries@;
        match self.index_of(key) {
            Some(i) => {
                self.entries.remove(i);
                let ghost mid = self.entries@;
                self.entries.push((key.to_owned(), value));
                proof {
                    assert(mid == pre.remove(i as int));
                    pre.remove_ensures(i as int);
                    lemma_distinct_keys_remove(pre, i as int);
                    assert(distinct_keys(self.entries@)) by {
                        assert(forall|a: int|
                            0 <= a < mid.len() ==> #[trigger] mid[a].0@ != key@) by {
                            assert(forall|a: int|
                                0 <= a < mid.len() ==> mid[a] == (if a < i {
                                    pre[a]
                                } else {
                                    pre[a + 1]
                                }));
                        }
                    }
                    lemma_as_map_props(self.entries@);
                    lemma_as_map_props(mid);
                    assert forall|k: Seq<char>|
                        as_map(self.entries@).contains_key(k)
                            == old(self)@.insert(key@, value).contains_key(k) by {
                        if k == key@ {
                            assert(self.entries@[self.entries@.len() - 1].0@ == k);
                        } else {
                            if as_map(self.entries@).contains_key(k) {
                                let a = choose|a: int|
                                    0 <= a < self.entries@.len() && self.entries@[a].0@ == k;
                                assert(a < mid.len());
                                assert(mid[a] == (if a < i {
                                    pre[a]
                                } else {
                                    pre[a + 1]
                                }));
                                assert(as_map(pre).contains_key(k)) by {
                                    if a < i {
                                        assert(pre[a].0@ == k);
                                    } else {
                                        assert(pre[a + 1].0@ == k);
                                    }
                                }
                            }
                            if old(self)@.contains_key(k) {
                                let a = choose|a: int| 0 <= a < pre.len() && pre[a].0@ == k;
                                assert(a != i);
                                let a1 = if a < i {
                                    a
                                } else {
                                    a - 1
                                };
                                assert(mid[a1] == pre[a]);
                                assert(self.entries@[a1].0@ == k);
                                assert(as_map(self.entries@).contains_key(k));
                            }
                        }
                    }
                    assert forall|k: Seq<char>|
                        as_map(self.entries@).contains_key(k) implies as_map(self.entries@)[k]
                        == old(self)@.insert(key@, value)[k] by {
                        if k == key@ {
                            assert(self.entries@[self.entries@.len() - 1].0@ == k);
                            assert(as_map(self.entries@)[k] == value);
                        } else {
                            let a = choose|a: int|
                                0 <= a < self.entries@.len() && self.entries@[a].0@ == k;
                            assert(a < mid.len());
                            assert(mid[a] == (if a < i {
                                pre[a]
                            } else {
                                pre[a + 1]
                            }));
                            let a0 = if a < i {
                                a
                            } else {
                                a + 1
                            };
                            assert(pre[a0].0@ == k);
                            assert(as_map(self.entries@)[k] == self.entries@[a].1);
                            assert(as_map(pre)[k] == pre[a0].1);
                        }
                    }
                    assert(as_map(self.entries@) =~= old(self)@.insert(key@, value));
                }
            },
            None => {
                self.entries.push((key.to_owned(), value));
                proof {
                    assert(distinct_keys(self.entries@)) by {
                        assert(forall|a: int| 0 <= a < pre.len() ==> #[trigger] pre[a].0@ != key@);
                        assert(forall|a: int|
                            0 <= a < pre.len() ==> self.entries@[a] == pre[a]);
                    }
                    assert(self.entries@.drop_last() =~= pre);
                    assert(as_map(self.entries@) =~= old(self)@.insert(key@, value));
                }
            },
        }
    }

    /// Unbinds `key`, returning the value it was bound to, if any.
    pub fn remove(&mut self, key: &str) -> (r: Option<V>)
        requires
            old(self).wf(),
        ensures
            final(self).wf(),
            final(self)@ == old(self)@.remove(key@),
            match r {
                Some(v) => old(self)@.contains_key(key@) && v == old(self)@[key@],
                None => !old(self)@.contains_key(key@) && *final(self) == *old(self),
            },
    {
        proof {
            lemma_as_map_props(self.entries_seq());
        }
        let ghost pre = self.entries@;
        match self.index_of(key) {
            Some(i) => {
                let entry = self.entries.remove(i);
                proof {
                    pre.remove_ensures(i as int);
                    lemma_distinct_keys_remove(pre, i as int);
                    lemma_as_map_props(self.entries@);
                    assert forall|k: Seq<char>|
                        as_map(self.entries@).contains_key(k) == old(self)@.remove(
                            key@,
                        ).contains_key(k) by {
                        if as_map(self.entries@).contains_key(k) {
                            let a = choose|a: int|
                                0 <= a < self.entries@.len() && self.entries@[a].0@ == k;
                            let a0 = if a < i {
                                a
                            } else {
                                a + 1
                            };
                            assert(self.entries@[a] == pre[a0]);
                            assert(pre[a0].0@ == k);
                            assert(a0 != i || k != key@);
                            assert(k != key@);
                            assert(as_map(pre).contains_key(k));
                        }
                        if old(self)@.remove(key@).contains_key(k) {
                            let a = choose|a: int| 0 <= a < pre.len() && pre[a].0@ == k;
                            assert(a != i);
                            let a1 = if a < i {
                                a
                            } else {
                                a - 1
                            };
                            assert(self.entries@[a1] == pre[a]);
                            assert(as_map(self.entries@).contains_key(k));
                        }
                    }
                    assert forall|k: Seq<char>|
                        as_map(self.entries@).contains_key(k) implies as_map(self.entries@)[k]
                        == old(self)@.remove(key@)[k] by {
                        let a = choose|a: int|
                            0 <= a < self.entries@.len() && self.entries@[a].0@ == k;
                        let a0 = if a < i {
                            a
                        } else {
                            a + 1
                        };
                        assert(self.entries@[a] == pre[a0]);
                        assert(as_map(self.entries@)[k] == self.entries@[a].1);
                        assert(as_map(pre)[k] == pre[a0].1);
                    }
                    assert(as_map(self.entries@) =~= old(self)@.remove(key@));
                }
                Some(entry.1)
            },
            None => {
                proof {
                    assert(as_map(pre) =~= as_map(pre).remove(key@));
                }
                None
            },
        }
    }

    /// The keys of the table, each once, in entry order.
    pub fn keys(&self) -> (r: Vec<String>)
        requires
            self.wf(),
        ensures
            distinct_strs(r@),
            str_set(r@) == self@.dom(),
    {
        proof {
            lemma_as_map_props(self.entries_seq());
        }
        let n = self.entries.len();
        let mut out: Vec<String> = Vec::new();
        let mut i: usize = 0;
        while i < n
            invariant
                0 <= i <= n,
                n == self.entries@.len(),
                out@.len() == i,
                forall|k: int| 0 <= k < i ==> out@[k]@ == self.entries@[k].0@,
            decreases n - i,
        {
            out.push(self.entries[i].0.clone());
            i += 1;
        }
        proof {
            assert(distinct_strs(out@));
            assert forall|x: Seq<char>| str_set(out@).contains(x) == self@.dom().contains(x) by {
                if str_set(out@).contains(x) {
                    let a = choose|a: int| 0 <= a < strs(out@).len() && strs(out@)[a] == x;
                    assert(self.entries@[a].0@ == x);
                }
                if self@.dom().contains(x) {
                    let a = choose|a: int|
                        0 <= a < self.entries@.len() && self.entries@[a].0@ == x;
                    assert(strs(out@)[a] == x);
                    assert(strs(out@).contains(x));
                }
            }
            assert(str_set(out@) =~= self@.dom());
        }
        out
    }
}

proof fn lemma_distinct_keys_remove<V>(s: Seq<(String, V)>, i: int)
    requires
        distinct_keys(s),
        0 <= i < s.len(),
    ensures
        distinct_keys(s.remove(i)),
{
    let w = s.remove(i);
    s.remove_ensures(i);
    assert forall|a: int, b: int| 0 <= a < b < w.len() implies w[a].0@ != w[b].0@ by {
        let a0 = if a < i {
            a
        } else {
            a + 1
        };
        let b0 = if b < i {
            b
        } else {
            b + 1
        };
        assert(w[a] == s[a0]);
        assert(w[b] == s[b0]);
    }
}

} // verus!
