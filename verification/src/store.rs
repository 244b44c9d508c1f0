//! The accounting store's associative containers.
//!
//! Both the vault and the token ledgers keep per-principal running totals:
//! deposits, claim watermarks, balances and allowances. This module provides
//! the two key-unique containers that hold them, together with the
//! mathematical model (a `Map` with absent keys reading as zero) that every
//! contract in the crate speaks of.

use vstd::prelude::*;

verus! {

/// The map denoted by a sequence of keyed entries, later entries winning.
pub open spec fn map_of<K>(s: Seq<(K, i128)>) -> Map<K, int>
    decreases s.len(),
{
    if s.len() == 0 {
        Map::empty()
    } else {
        map_of(s.drop_last()).insert(s.last().0, s.last().1 as int)
    }
}

/// The total of the values in a sequence of keyed entries.
pub open spec fn sum_of<K>(s: Seq<(K, i128)>) -> int
    decreases s.len(),
{
    if s.len() == 0 {
        0
    } else {
        sum_of(s.drop_last()) + s.last().1
    }
}

/// Every key occurs at most once.
pub open spec fn unique_keys<K>(s: Seq<(K, i128)>) -> bool {
    forall|i: int, j: int|
        0 <= i < j < s.len() ==> (#[trigger] s[i]).0 != (#[trigger] s[j]).0
}

/// The value a map holds at `k`, with absent keys reading as zero.
pub open spec fn read<K>(m: Map<K, int>, k: K) -> int {
    if m.dom().contains(k) {
        m[k]
    } else {
        0
    }
}

/// An entry's key-value pair is what the denoted map holds at that key.
proof fn lemma_map_of_index<K>(s: Seq<(K, i128)>, i: int)
    requires
        unique_keys(s),
        0 <= i < s.len(),
    ensures
        map_of(s).dom().contains(s[i].0),
        map_of(s)[s[i].0] == s[i].1 as int,
    decreases s.len(),
{
    if i < s.len() - 1 {
        lemma_map_of_index(s.drop_last(), i);
    }
}

/// A key under none of the entries is outside the denoted map's domain.
proof fn lemma_map_of_absent<K>(s: Seq<(K, i128)>, k: K)
    requires
        forall|i: int| 0 <= i < s.len() ==> (#[trigger] s[i]).0 != k,
    ensures
        !map_of(s).dom().contains(k),
    decreases s.len(),
{
    if s.len() > 0 {
        lemma_map_of_absent(s.drop_last(), k);
    }
}

/// Overwriting one entry's value updates the denoted map at that entry's key
/// and moves the total by the difference.
proof fn lemma_map_of_update<K>(s: Seq<(K, i128)>, i: int, v: i128)
    requires
        unique_keys(s),
        0 <= i < s.len(),
    ensures
        unique_keys(s.update(i, (s[i].0, v))),
        map_of(s.update(i, (s[i].0, v))) == map_of(s).insert(s[i].0, v as int),
        sum_of(s.update(i, (s[i].0, v))) == sum_of(s) + v - s[i].1,
    decreases s.len(),
{
    let t = s.update(i, (s[i].0, v));
    assert(forall|j: int| 0 <= j < s.len() && j != i ==> t[j] == s[j]);
    if i == s.len() - 1 {
        assert(t.drop_last() =~= s.drop_last());
        assert(map_of(t) =~= map_of(s).insert(s[i].0, v as int));
    } else {
        assert(t.drop_last() =~= s.drop_last().update(i, (s[i].0, v)));
        lemma_map_of_update(s.drop_last(), i, v);
        assert(map_of(t) =~= map_of(s).insert(s[i].0, v as int));
    }
}

/// Appending an entry under a fresh key inserts it into the denoted map and
/// adds its value to the total.
proof fn lemma_map_of_push<K>(s: Seq<(K, i128)>, k: K, v: i128)
    requires
        unique_keys(s),
        forall|i: int| 0 <= i < s.len() ==> (#[trigger] s[i]).0 != k,
    ensures
        unique_keys(s.push((k, v))),
        map_of(s.push((k, v))) == map_of(s).insert(k, v as int),
        sum_of(s.push((k, v))) == sum_of(s) + v,
{
    assert(s.push((k, v)).drop_last() =~= s);
}

/// With unique keys and non-negative values, no single entry exceeds the
/// total, and the total itself is non-negative.
proof fn lemma_seq_read_le_sum<K>(s: Seq<(K, i128)>, k: K)
    requires
        unique_keys(s),
        forall|i: int| 0 <= i < s.len() ==> (#[trigger] s[i]).1 >= 0,
    ensures
        0 <= sum_of(s),
        read(map_of(s), k) <= sum_of(s),
    decreases s.len(),
{
    if s.len() > 0 {
        lemma_seq_read_le_sum(s.drop_last(), k);
    }
}

/// A key-unique container of per-principal amounts, read with a zero default.
pub struct AmountMap {
    entries: Vec<(u64, i128)>,
}

impl View for AmountMap {
    type V = Map<u64, int>;

    closed spec fn view(&self) -> Map<u64, int> {
        map_of(self.entries@)
    }
}

impl AmountMap {
    /// Keys occur at most once, so `sum` counts each principal once.
    pub closed spec fn wf(&self) -> bool {
        unique_keys(self.entries@)
    }

    /// The total of all stored amounts.
    pub closed spec fn sum(&self) -> int {
        sum_of(self.entries@)
    }

    /// An empty container: every principal reads as zero.
    pub fn new() -> (m: AmountMap)
        ensures
            m.wf(),
            m@ == Map::<u64, int>::empty(),
            m.sum() == 0,
    {
        AmountMap { entries: Vec::new() }
    }

    /// The amount recorded under `key`, zero when none has been.
    pub fn get_or_zero(&self, key: u64) -> (r: i128)
        requires
            self.wf(),
        ensures
            r as int == read(self@, key),
    {
        let n = self.entries.len();
        let mut i: usize = 0;
        while i < n
            invariant
                n == self.entries@.len(),
                0 <= i <= n,
                self.wf(),
                forall|j: int| 0 <= j < i ==> (#[trigger] self.entries@[j]).0 != key,
            decreases n - i,
        {
            if self.entries[i].0 == key {
                proof {
                    lemma_map_of_index(self.entries@, i as int);
                }
                return self.entries[i].1;
            }
            i = i + 1;
        }
        proof {
            lemma_map_of_absent(self.entries@, key);
        }
        0
    }

    /// When every stored amount reads as non-negative, no single principal's
    /// amount exceeds the total, and the total is non-negative.
    pub proof fn lemma_read_le_sum(&self, key: u64)
        requires
            self.wf(),
            forall|q: u64| #[trigger] read(self@, q) >= 0,
        ensures
            0 <= self.sum(),
            read(self@, key) <= self.sum(),
    {
        assert forall|i: int| 0 <= i < self.entries@.len() implies (#[trigger] self.entries@[i]).1
            >= 0 by {
            lemma_map_of_index(self.entries@, i);
            assert(read(self@, self.entries@[i].0) >= 0);
        }
        lemma_seq_read_le_sum(self.entries@, key);
    }

    /// Records `value` under `key`, replacing what was there; the total moves
    /// by the difference.
    pub fn set(&mut self, key: u64, value: i128)
        requires
            old(self).wf(),
        ensures
            final(self).wf(),
            final(self)@ == old(self)@.insert(key, value as int),
            final(self).sum() == old(self).sum() + value - read(old(self)@, key),
    {
        let n = self.entries.len();
        let mut i: usize = 0;
        while i < n
            invariant
                n == self.entries@.len(),
                0 <= i <= n,
                self.entries@ == old(self).entries@,
                self.wf(),
                forall|j: int| 0 <= j < i ==> (#[trigger] self.entries@[j]).0 != key,
            decreases n - i,
        {
            if self.entries[i].0 == key {
                proof {
                    lemma_map_of_index(self.entries@, i as int);
                    lemma_map_of_update(self.entries@, i as int, value);
                }
                self.entries[i] = (key, value);
                return;
            }
            i = i + 1;
        }
        proof {
            lemma_map_of_absent(self.entries@, key);
            lemma_map_of_push(self.entries@, key, value);
        }
        self.entries.push((key, value));
    }
}

/// A key-unique container of amounts keyed by a pair of principals, as an
/// allowance ledger is keyed by owner and spender.
pub struct AllowanceMap {
    entries: Vec<((u64, u64), i128)>,
}

impl View for AllowanceMap {
    type V = Map<(u64, u64), int>;

    closed spec fn view(&self) -> Map<(u64, u64), int> {
        map_of(self.entries@)
    }
}

impl AllowanceMap {
    /// Keys occur at most once.
    pub closed spec fn wf(&self) -> bool {
        unique_keys(self.entries@)
    }

    /// An empty container: every pair reads as zero.
    pub fn new() -> (m: AllowanceMap)
        ensures
            m.wf(),
            m@ == Map::<(u64, u64), int>::empty(),
    {
        AllowanceMap { entries: Vec::new() }
    }

    /// The amount recorded under `(a, b)`, zero when none has been.
    pub fn get_or_zero(&self, a: u64, b: u64) -> (r: i128)
        requires
            self.wf(),
        ensures
            r as int == read(self@, (a, b)),
    {
        let n = self.entries.len();
        let mut i: usize = 0;
        while i < n
            invariant
                n == self.entries@.len(),
                0 <= i <= n,
                self.wf(),
                forall|j: int| 0 <= j < i ==> (#[trigger] self.entries@[j]).0 != (a, b),
            decreases n - i,
        {
            let k = self.entries[i].0;
            if k.0 == a && k.1 == b {
                proof {
                    lemma_map_of_index(self.entries@, i as int);
                }
                return self.entries[i].1;
            }
            i = i + 1;
        }
        proof {
            lemma_map_of_absent(self.entries@, (a, b));
        }
        0
    }

    /// Records `value` under `(a, b)`, replacing what was there.
    pub fn set(&mut self, a: u64, b: u64, value: i128)
        requires
            old(self).wf(),
        ensures
            final(self).wf(),
            final(self)@ == old(self)@.insert((a, b), value as int),
    {
        let n = self.entries.len();
        let mut i: usize = 0;
        while i < n
            invariant
                n == self.entries@.len(),
                0 <= i <= n,
                self.entries@ == old(self).entries@,
                self.wf(),
                forall|j: int| 0 <= j < i ==> (#[trigger] self.entries@[j]).0 != (a, b),
            decreases n - i,
        {
            let k = self.entries[i].0;
            if k.0 == a && k.1 == b {
                proof {
                    lemma_map_of_update(self.entries@, i as int, value);
                }
                self.entries[i] = ((a, b), value);
                return;
            }
            i = i + 1;
        }
        proof {
            lemma_map_of_absent(self.entries@, (a, b));
            lemma_map_of_push(self.entries@, (a, b), value);
        }
        self.entries.push(((a, b), value));
    }
}

} // verus!
