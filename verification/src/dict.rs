//! Tables keyed by strings, kept in key order.
//!
//! Settings, templates and table declarations are all keyed by name and
//! listed in name order, so the one structure they share keeps its
//! entries sorted by key, each key once. Order is the order of `String`:
//! lexicographic by character.

use vstd::prelude::*;

verus! {

/// Whether `a` sorts strictly before `b`, character by character, a
/// proper prefix sorting first.
pub open spec fn less(a: Seq<char>, b: Seq<char>) -> bool
    decreases a.len(),
{
    if b.len() == 0 {
        false
    } else if a.len() == 0 {
        true
    } else if a[0] != b[0] {
        a[0] < b[0]
    } else {
        less(a.skip(1), b.skip(1))
    }
}

/// No string sorts before itself.
pub proof fn lemma_less_irreflexive(a: Seq<char>)
    ensures
        !less(a, a),
    decreases a.len(),
{
    if a.len() > 0 {
        lemma_less_irreflexive(a.skip(1));
    }
}

/// The order is transitive.
pub proof fn lemma_less_transitive(a: Seq<char>, b: Seq<char>, c: Seq<char>)
    requires
        less(a, b),
        less(b, c),
    ensures
        less(a, c),
    decreases a.len(),
{
    if a.len() > 0 && b.len() > 0 && c.len() > 0 && a[0] == b[0] && b[0] == c[0] {
        lemma_less_transitive(a.skip(1), b.skip(1), c.skip(1));
    }
}

/// Two different strings are ordered one way or the other.
pub proof fn lemma_less_total(a: Seq<char>, b: Seq<char>)
    requires
        a != b,
    ensures
        less(a, b) || less(b, a),
    decreases a.len(),
{
    if a.len() > 0 && b.len() > 0 && a[0] == b[0] {
        if a.skip(1) == b.skip(1) {
            assert(a =~= seq![a[0]] + a.skip(1));
            assert(b =~= seq![b[0]] + b.skip(1));
        }
        lemma_less_total(a.skip(1), b.skip(1));
    } else if a.len() == 0 && b.len() == 0 {
        assert(a =~= b);
    }
}

/// A string never sorts both before and after another.
pub proof fn lemma_less_asymmetric(a: Seq<char>, b: Seq<char>)
    requires
        less(a, b),
    ensures
        !less(b, a),
{
    if less(b, a) {
        lemma_less_transitive(a, b, a);
        lemma_less_irreflexive(a);
    }
}

proof fn lemma_less_skip(a: Seq<char>, b: Seq<char>, i: int)
    requires
        0 <= i <= a.len(),
        i <= b.len(),
        a.take(i) == b.take(i),
    ensures
        less(a, b) == less(a.skip(i), b.skip(i)),
    decreases i,
{
    if i > 0 {
        assert(a[0] == a.take(i)[0]);
        assert(b[0] == b.take(i)[0]);
        assert(a.skip(1).take(i - 1) =~= a.take(i).skip(1));
        assert(b.skip(1).take(i - 1) =~= b.take(i).skip(1));
        lemma_less_skip(a.skip(1), b.skip(1), i - 1);
        assert(a.skip(1).skip(i - 1) =~= a.skip(i));
        assert(b.skip(1).skip(i - 1) =~= b.skip(i));
    } else {
        assert(a.skip(0) =~= a);
        assert(b.skip(0) =~= b);
    }
}

/// Whether `a` sorts strictly before `b`.
pub fn str_less(a: &str, b: &str) -> (r: bool)
    ensures
        r == less(a@, b@),
{
    let n = a.unicode_len();
    let m = b.unicode_len();
    let mut i: usize = 0;
    while i < n && i < m
        invariant
            n == a@.len(),
            m == b@.len(),
            i <= n,
            i <= m,
            a@.take(i as int) == b@.take(i as int),
        decreases n - i,
    {
        let x = a.get_char(i);
        let y = b.get_char(i);
        if x != y {
            proof {
                lemma_less_skip(a@, b@, i as int);
                assert(a@.skip(i as int)[0] == x);
                assert(b@.skip(i as int)[0] == y);
            }
            return x < y;
        }
        assert(a@.take(i + 1) =~= a@.take(i as int).push(x));
        assert(b@.take(i + 1) =~= b@.take(i as int).push(y));
        i = i + 1;
    }
    proof {
        lemma_less_skip(a@, b@, i as int);
    }
    i < m && i == n
}

/// The value `entries` holds under `key`: the first entry with that key.
pub open spec fn find<V>(entries: Seq<(String, V)>, key: Seq<char>) -> Option<V>
    decreases entries.len(),
{
    if entries.len() == 0 {
        None
    } else if entries[0].0@ == key {
        Some(entries[0].1)
    } else {
        find(entries.skip(1), key)
    }
}

/// Whether the keys of `entries` strictly increase.
pub open spec fn sorted<V>(entries: Seq<(String, V)>) -> bool {
    forall|i: int, j: int| 0 <= i < j < entries.len() ==> less(entries[i].0@, entries[j].0@)
}

/// A key that no entry carries finds nothing.
pub proof fn lemma_find_absent<V>(entries: Seq<(String, V)>, key: Seq<char>)
    requires
        forall|i: int| 0 <= i < entries.len() ==> entries[i].0@ != key,
    ensures
        find(entries, key) is None,
    decreases entries.len(),
{
    if entries.len() > 0 {
        assert forall|i: int| 0 <= i < entries.skip(1).len() implies entries.skip(1)[i].0@
            != key by {
            assert(entries.skip(1)[i] == entries[i + 1]);
        }
        lemma_find_absent(entries.skip(1), key);
    }
}

/// Looking a key up in two tables laid end to end finds it in the first
/// where it is there, else in the second.
pub proof fn lemma_find_concat<V>(a: Seq<(String, V)>, b: Seq<(String, V)>, key: Seq<char>)
    ensures
        find(a + b, key) == (match find(a, key) {
            Some(v) => Some(v),
            None => find(b, key),
        }),
    decreases a.len(),
{
    if a.len() == 0 {
        assert(a + b =~= b);
    } else {
        assert((a + b)[0] == a[0]);
        assert((a + b).skip(1) =~= a.skip(1) + b);
        lemma_find_concat(a.skip(1), b, key);
    }
}

/// In a sorted table each entry's key finds that entry's value.
pub proof fn lemma_find_at<V>(entries: Seq<(String, V)>, i: int)
    requires
        sorted(entries),
        0 <= i < entries.len(),
    ensures
        find(entries, entries[i].0@) == Some(entries[i].1),
{
    let k = entries[i].0@;
    assert(entries =~= entries.take(i) + entries.skip(i));
    assert forall|j: int| 0 <= j < entries.take(i).len() implies entries.take(i)[j].0@ != k by {
        lemma_less_irreflexive(k);
    }
    lemma_find_absent(entries.take(i), k);
    lemma_find_concat(entries.take(i), entries.skip(i), k);
}

/// A table from string keys to values, kept sorted by key with each key
/// once.
#[derive(Debug, Clone, PartialEq, Eq)]
pub struct Dict<V> {
    pub entries: Vec<(String, V)>,
}

impl<V> Dict<V> {
    /// Whether the entries are in strictly increasing key order.
    pub open spec fn wf(&self) -> bool {
        sorted(self.entries@)
    }

    /// The value held under `key`.
    pub open spec fn get_spec(&self, key: Seq<char>) -> Option<V> {
        find(self.entries@, key)
    }

    /// The keys, in order.
    pub open spec fn keys(&self) -> Seq<Seq<char>> {
        self.entries@.map_values(|e: (String, V)| e.0@)
    }

    /// A table with nothing in it.
    pub fn new() -> (d: Dict<V>)
        ensures
            d.wf(),
            d.entries@.len() == 0,
            forall|k: Seq<char>| d.get_spec(k) is None,
    {
        Dict { entries: Vec::new() }
    }

    /// How many keys the table holds.
    pub fn len(&self) -> (n: usize)
        ensures
            n == self.entries@.len(),
    {
        self.entries.len()
    }

    /// The value held under `key`.
    pub fn get(&self, key: &str) -> (r: Option<&V>)
        requires
            self.wf(),
        ensures
            r matches Some(v) ==> self.get_spec(key@) == Some(*v),
            r is None ==> self.get_spec(key@) is None,
    {
        let mut i: usize = 0;
        while i < self.entries.len()
            invariant
                self.wf(),
                i <= self.entries@.len(),
                forall|j: int| 0 <= j < i ==> self.entries@[j].0@ != key@,
            decreases self.entries@.len() - i,
        {
            if crate::text::same(self.entries[i].0.as_str(), key) {
                proof {
                    lemma_find_at(self.entries@, i as int);
                }
                return Some(&self.entries[i].1);
            }
            i = i + 1;
        }
        proof {
            lemma_find_absent(self.entries@, key@);
        }
        None
    }

    /// Whether the table holds `key`.
    pub fn contains_key(&self, key: &str) -> (r: bool)
        requires
            self.wf(),
        ensures
            r == self.get_spec(key@) is Some,
    {
        self.get(key).is_some()
    }

    /// Hold `value` under `key`, replacing what was held there.
    pub fn insert(&mut self, key: String, value: V)
        requires
            old(self).wf(),
        ensures
            final(self).wf(),
            final(self).get_spec(key@) == Some(value),
            forall|k: Seq<char>| k != key@ ==> final(self).get_spec(k) == old(self).get_spec(k),
    {
        let ghost old_entries = self.entries@;
        let n = self.entries.len();
        let mut i: usize = 0;
        while i < n && str_less(self.entries[i].0.as_str(), key.as_str())
            invariant
                n == self.entries@.len(),
                self.entries@ == old_entries,
                sorted(old_entries),
                i <= n,
                forall|j: int| 0 <= j < i ==> less(old_entries[j].0@, key@),
            decreases n - i,
        {
            i = i + 1;
        }
        // Every entry before `i` sorts before `key`; the one at `i`, if
        // any, does not.
        assert forall|j: int| 0 <= j < i implies old_entries[j].0@ != key@ by {
            lemma_less_irreflexive(key@);
        }
        if i < n && crate::text::same(self.entries[i].0.as_str(), key.as_str()) {
            let ghost k = key@;
            self.entries.set(i, (key, value));
            proof {
                assert forall|a: int, b: int| 0 <= a < b < self.entries@.len() implies less(
                    self.entries@[a].0@,
                    self.entries@[b].0@,
                ) by {
                    assert(old_entries[i as int].0@ == k);
                }
                lemma_find_at(self.entries@, i as int);
                assert forall|q: Seq<char>| q != k implies find(self.entries@, q) == find(
                    old_entries,
                    q,
                ) by {
                    let pre = old_entries.take(i as int);
                    let post = old_entries.skip(i as int + 1);
                    assert(old_entries =~= pre + seq![old_entries[i as int]] + post);
                    assert(self.entries@ =~= pre + seq![self.entries@[i as int]] + post);
                    lemma_find_concat(pre + seq![old_entries[i as int]], post, q);
                    lemma_find_concat(pre + seq![self.entries@[i as int]], post, q);
                    lemma_find_concat(pre, seq![old_entries[i as int]], q);
                    lemma_find_concat(pre, seq![self.entries@[i as int]], q);
                    assert(seq![old_entries[i as int]].skip(1) =~= Seq::<(String, V)>::empty());
                    assert(seq![self.entries@[i as int]].skip(1) =~= Seq::<(String, V)>::empty());
                }
            }
        } else {
            let ghost k = key@;
            proof {
                if i < n {
                    lemma_less_total(old_entries[i as int].0@, k);
                }
            }
            self.entries.insert(i, (key, value));
            proof {
                let pre = old_entries.take(i as int);
                let post = old_entries.skip(i as int);
                assert(old_entries =~= pre + post);
                assert(self.entries@ =~= pre + seq![self.entries@[i as int]] + post);
                assert forall|a: int, b: int| 0 <= a < b < self.entries@.len() implies less(
                    self.entries@[a].0@,
                    self.entries@[b].0@,
                ) by {
                    if b < i {
                    } else if a < i && b == i {
                    } else if a < i && b > i {
                        assert(self.entries@[b] == old_entries[b - 1]);
                    } else if a == i {
                        assert(self.entries@[b] == old_entries[b - 1]);
                        if b - 1 > i {
                            lemma_less_transitive(k, old_entries[i as int].0@, old_entries[b - 1].0@);
                        }
                    } else {
                        assert(self.entries@[a] == old_entries[a - 1]);
                        assert(self.entries@[b] == old_entries[b - 1]);
                    }
                }
                lemma_find_at(self.entries@, i as int);
                assert forall|q: Seq<char>| q != k implies find(self.entries@, q) == find(
                    old_entries,
                    q,
                ) by {
                    lemma_find_concat(pre + seq![self.entries@[i as int]], post, q);
                    lemma_find_concat(pre, seq![self.entries@[i as int]], q);
                    lemma_find_concat(pre, post, q);
                    let single = seq![self.entries@[i as int]];
                    assert(single.skip(1) =~= Seq::<(String, V)>::empty());
                    assert(find(single.skip(1), q) is None);
                    assert(single[0].0@ == k);
                    assert(find(single, q) is None);
                }
            }
        }
    }
}

} // verus!
