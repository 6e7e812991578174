//! Tables: one from 128-bit keys to values that change, and one from names to
//! small values that is shared like a `List`.
use crate::list::{List, Same};
use std::collections::BTreeMap;
use std::sync::Arc;
use vstd::prelude::*;

verus! {

/// Whether one of the rows has the key `k`.
pub open spec fn has_key<K, V>(rows: Seq<(K, V)>, k: K) -> bool {
    exists|i: int| 0 <= i < rows.len() && (#[trigger] rows[i]).0 == k
}

/// The value in the last row with the key `k`.
pub open spec fn value_of<K, V>(rows: Seq<(K, V)>, k: K) -> V
    decreases rows.len(),
{
    if rows.len() == 0 {
        arbitrary()
    } else if rows.last().0 == k {
        rows.last().1
    } else {
        value_of(rows.drop_last(), k)
    }
}

/// The map that the rows spell out, the last row of a key deciding.
pub open spec fn rows_map<K, V>(rows: Seq<(K, V)>) -> Map<K, V> {
    Map::new(|k: K| has_key(rows, k), |k: K| value_of(rows, k))
}

/// The rows of all other keys.
pub open spec fn without_key<K, V>(rows: Seq<(K, V)>, k: K) -> Seq<(K, V)>
    decreases rows.len(),
{
    if rows.len() == 0 {
        rows
    } else if rows.last().0 == k {
        without_key(rows.drop_last(), k)
    } else {
        without_key(rows.drop_last(), k).push(rows.last())
    }
}

proof fn lemma_has_push<K, V>(rows: Seq<(K, V)>, row: (K, V), k: K)
    ensures
        has_key(rows.push(row), k) == (has_key(rows, k) || row.0 == k),
{
    let all = rows.push(row);
    if has_key(rows, k) {
        let i = choose|i: int| 0 <= i < rows.len() && (#[trigger] rows[i]).0 == k;
        assert(all[i] == rows[i]);
    }
    if row.0 == k {
        assert(all[rows.len() as int] == row);
    }
    if has_key(all, k) {
        let i = choose|i: int| 0 <= i < all.len() && (#[trigger] all[i]).0 == k;
        if i < rows.len() {
            assert(rows[i] == all[i]);
        }
    }
}

/// A row at the end gives its key its value.
pub proof fn lemma_map_push<K, V>(rows: Seq<(K, V)>, row: (K, V))
    ensures
        rows_map(rows.push(row)) == rows_map(rows).insert(row.0, row.1),
{
    let new = rows_map(rows.push(row));
    let want = rows_map(rows).insert(row.0, row.1);
    assert(rows.push(row).drop_last() == rows);
    assert forall|k: K| new.dom().contains(k) == want.dom().contains(k) by {
        lemma_has_push(rows, row, k);
    }
    assert forall|k: K| new.dom().contains(k) implies new[k] == want[k] by {
        lemma_has_push(rows, row, k);
    }
    assert(new =~= want);
}

/// Dropping the rows of a key takes the key out.
pub proof fn lemma_map_without<K, V>(rows: Seq<(K, V)>, k: K)
    ensures
        rows_map(without_key(rows, k)) == rows_map(rows).remove(k),
    decreases rows.len(),
{
    if rows.len() == 0 {
        assert(rows_map(rows).remove(k) =~= rows_map(rows));
    } else {
        let init = rows.drop_last();
        let row = rows.last();
        lemma_map_without(init, k);
        assert(init.push(row) == rows);
        lemma_map_push(init, row);
        if row.0 == k {
            assert(rows_map(init).insert(row.0, row.1).remove(k) =~= rows_map(init).remove(k));
        } else {
            lemma_map_push(without_key(init, k), row);
            assert(rows_map(init).insert(row.0, row.1).remove(k) =~= rows_map(init).remove(
                k,
            ).insert(row.0, row.1));
        }
    }
}

proof fn lemma_value_last<K, V>(rows: Seq<(K, V)>, k: K, i: int)
    requires
        0 <= i < rows.len(),
        rows[i].0 == k,
        forall|j: int| i < j < rows.len() ==> (#[trigger] rows[j]).0 != k,
    ensures
        value_of(rows, k) == rows[i].1,
    decreases rows.len(),
{
    if i < rows.len() - 1 {
        assert(rows.drop_last()[i] == rows[i]);
        lemma_value_last(rows.drop_last(), k, i);
    }
}

/// A table from keys to values; a key has one value at most.
pub struct Table<V> {
    rows: BTreeMap<u128, V>,
}

impl<V> View for Table<V> {
    type V = Map<u128, V>;

    closed spec fn view(&self) -> Map<u128, V> {
        self.rows@
    }
}

impl<V> Table<V> {
    /// The empty table.
    pub fn new() -> (t: Self)
        ensures
            t@ == Map::<u128, V>::empty(),
    {
        Table { rows: BTreeMap::new() }
    }

    /// The value of `k`, if it has one.
    pub fn get(&self, k: u128) -> (r: Option<&V>)
        ensures
            match r {
                Some(v) => self@.dom().contains(k) && self@[k] == *v,
                None => !self@.dom().contains(k),
            },
    {
        broadcast use vstd::laws_cmp::group_laws_cmp;

        self.rows.get(&k)
    }

    pub fn contains(&self, k: u128) -> (b: bool)
        ensures
            b == self@.dom().contains(k),
    {
        broadcast use vstd::laws_cmp::group_laws_cmp;

        self.rows.contains_key(&k)
    }

    /// Gives `k` the value `v`, in place of the one it had.
    pub fn insert(&mut self, k: u128, v: V)
        ensures
            final(self)@ == old(self)@.insert(k, v),
    {
        broadcast use vstd::laws_cmp::group_laws_cmp;

        self.rows.insert(k, v);
    }

    /// Takes `k` and its value out.
    pub fn remove(&mut self, k: u128) -> (r: Option<V>)
        ensures
            final(self)@ == old(self)@.remove(k),
            match r {
                Some(v) => old(self)@.dom().contains(k) && old(self)@[k] == v,
                None => !old(self)@.dom().contains(k),
            },
    {
        broadcast use vstd::laws_cmp::group_laws_cmp;

        self.rows.remove(&k)
    }

    /// Every key of the table, once each, the smaller ones first.
    pub fn keys(&self) -> (r: Vec<u128>)
        ensures
            r@.no_duplicates(),
            forall|k: u128| r@.contains(k) == #[trigger] self@.dom().contains(k),
    {
        broadcast use vstd::laws_cmp::group_laws_cmp;

        let mut out: Vec<u128> = Vec::new();
        for k in it: self.rows.keys()
            invariant
                out@ == it.seq().unref().take(it.index()),
        {
            out.push(*k);
            assert(out@ =~= it.seq().unref().take(it.index() + 1));
        }
        proof {
            let keys = vstd::std_specs::btree::spec_keys_iter(&self.rows);
            let all = vstd::std_specs::iter::IteratorSpec::remaining(&keys).unref();
            assert(out@ =~= all);
            assert forall|k: u128| out@.contains(k) == #[trigger] self@.dom().contains(k) by {
                assert(all.to_set().contains(k) == self@.dom().contains(k));
            }
        }
        out
    }

    /// How many keys the table has.
    pub fn len(&self) -> (n: usize)
        ensures
            n == self@.dom().len(),
            self@.dom().finite(),
    {
        let row = self.keys();
        proof {
            row@.unique_seq_to_set();
            assert(row@.to_set() =~= self@.dom());
        }
        row.len()
    }

    /// Takes everything out.
    pub fn clear(&mut self)
        ensures
            final(self)@ == Map::<u128, V>::empty(),
    {
        self.rows.clear();
    }
}

impl<V: Same> Table<V> {
    /// The same keys and values.
    pub fn copied(&self) -> (r: Self)
        ensures
            r@ == self@,
    {
        let row = self.keys();
        let mut out: Table<V> = Table::new();
        let mut i: usize = 0;
        while i < row.len()
            invariant
                i <= row@.len(),
                forall|k: u128| row@.contains(k) == #[trigger] self@.dom().contains(k),
                forall|k: u128| #[trigger]
                    out@.dom().contains(k) ==> self@.dom().contains(k) && out@[k] == self@[k],
                forall|j: int| 0 <= j < i ==> out@.dom().contains(#[trigger] row@[j]),
            decreases row@.len() - i,
        {
            assert(row@.contains(row@[i as int]));
            if let Some(v) = self.get(row[i]) {
                out.insert(row[i], v.same());
            }
            i += 1;
        }
        assert(out@ =~= self@) by {
            assert forall|k: u128| self@.dom().contains(k) implies #[trigger] out@.dom().contains(
                k,
            ) by {
                assert(row@.contains(k));
                let j = choose|j: int| 0 <= j < row@.len() && row@[j] == k;
                assert(out@.dom().contains(row@[j]));
            }
        }
        out
    }
}

/// A name and what is bound to it.
pub struct Binding<V> {
    pub name: String,
    pub value: V,
}

impl<V: Same> Same for Binding<V> {
    fn same(&self) -> (res: Self) {
        Binding { name: self.name.clone(), value: self.value.same() }
    }
}

/// The rows of a list of bindings, the names by their characters.
pub open spec fn named<V>(rows: Seq<Binding<V>>) -> Seq<(Seq<char>, V)> {
    rows.map_values(|b: Binding<V>| (b.name@, b.value))
}

/// A shared table from names to values.
pub struct SlotMap<V> {
    rows: List<Binding<V>>,
}

impl<V> View for SlotMap<V> {
    type V = Map<Seq<char>, V>;

    closed spec fn view(&self) -> Map<Seq<char>, V> {
        rows_map(named(self.rows@))
    }
}

impl<V> Clone for SlotMap<V> {
    fn clone(&self) -> (res: Self)
        ensures
            res == *self,
    {
        SlotMap { rows: self.rows.clone() }
    }
}

impl<V: Same> SlotMap<V> {
    /// The empty table.
    pub fn empty() -> (res: Self)
        ensures
            res@ == Map::<Seq<char>, V>::empty(),
    {
        let res = SlotMap { rows: List::empty() };
        assert(res@ =~= Map::<Seq<char>, V>::empty());
        res
    }

    /// What is bound to `name`.
    pub fn get(&self, name: &str) -> (r: Option<V>)
        ensures
            match r {
                Some(v) => self@.dom().contains(name@) && self@[name@] == v,
                None => !self@.dom().contains(name@),
            },
    {
        let key = name.to_owned();
        let ghost rows = named(self.rows@);
        let mut n: usize = self.rows.len();
        while n > 0
            invariant
                n <= self.rows@.len(),
                rows == named(self.rows@),
                key@ == name@,
                forall|j: int| n <= j < rows.len() ==> (#[trigger] rows[j]).0 != name@,
            decreases n,
        {
            let b = self.rows.at(n - 1);
            assert(rows[n - 1] == (b.name@, b.value));
            if b.name == key {
                proof {
                    lemma_value_last(rows, name@, n - 1);
                }
                return Some(b.value.same());
            }
            n -= 1;
        }
        None
    }

    fn rest(&self, name: &str) -> (r: Vec<Binding<V>>)
        ensures
            named(r@) == without_key(named(self.rows@), name@),
    {
        let key = name.to_owned();
        let ghost rows = named(self.rows@);
        let mut out: Vec<Binding<V>> = Vec::new();
        let mut i: usize = 0;
        assert(named(out@) =~= without_key(rows.take(0), name@));
        while i < self.rows.len()
            invariant
                i <= self.rows@.len(),
                rows == named(self.rows@),
                key@ == name@,
                named(out@) == without_key(rows.take(i as int), name@),
            decreases self.rows@.len() - i,
        {
            let b = self.rows.at(i);
            proof {
                assert(rows[i as int] == (b.name@, b.value));
                assert(rows.take(i + 1).drop_last() == rows.take(i as int));
                assert(named(out@.push(*b)) =~= named(out@).push((b.name@, b.value)));
            }
            if b.name == key {
            } else {
                out.push(b.same());
            }
            i += 1;
        }
        assert(rows.take(i as int) == rows);
        out
    }

    /// The table with `name` bound to `value`.
    pub fn insert(&self, name: &str, value: V) -> (res: Self)
        ensures
            res@ == self@.insert(name@, value),
    {
        let mut rows = self.rest(name);
        let b = Binding { name: name.to_owned(), value };
        proof {
            lemma_map_without(named(self.rows@), name@);
            lemma_map_push(named(rows@), (name@, value));
            assert(named(rows@.push(b)) =~= named(rows@).push((name@, value)));
            assert(self@.remove(name@).insert(name@, value) =~= self@.insert(name@, value));
        }
        rows.push(b);
        SlotMap { rows: List::from_vec(rows) }
    }

    /// The table without `name`.
    pub fn remove(&self, name: &str) -> (res: Self)
        ensures
            res@ == self@.remove(name@),
    {
        let rows = self.rest(name);
        proof {
            lemma_map_without(named(self.rows@), name@);
        }
        SlotMap { rows: List::from_vec(rows) }
    }
}

/// A shared table from indices to values, written in strokes: a later stroke
/// wins over an earlier one.
pub struct IndexMap<V> {
    rows: Arc<BTreeMap<u32, V>>,
}

impl<V> View for IndexMap<V> {
    type V = Map<u32, V>;

    closed spec fn view(&self) -> Map<u32, V> {
        self.rows@
    }
}

impl<V> Clone for IndexMap<V> {
    fn clone(&self) -> (res: Self)
        ensures
            res == *self,
    {
        IndexMap { rows: self.rows.clone() }
    }
}

/// A map with every index of `indices` bound to one value.
pub open spec fn painted<V>(m: Map<u32, V>, indices: Seq<u32>, v: V) -> Map<u32, V> {
    Map::new(
        |i: u32| m.dom().contains(i) || indices.contains(i),
        |i: u32|
            if indices.contains(i) {
                v
            } else {
                m[i]
            },
    )
}

/// A map with the indices bound to the values beside them, one after the other,
/// as far as both rows go.
pub open spec fn zipped<V>(m: Map<u32, V>, indices: Seq<u32>, values: Seq<V>) -> Map<u32, V>
    decreases indices.len(),
{
    if indices.len() == 0 || values.len() == 0 {
        m
    } else {
        zipped(m.insert(indices[0], values[0]), indices.drop_first(), values.drop_first())
    }
}

fn put<V>(rows: &mut BTreeMap<u32, V>, i: u32, v: V)
    ensures
        final(rows)@ == old(rows)@.insert(i, v),
{
    broadcast use vstd::laws_cmp::group_laws_cmp;

    rows.insert(i, v);
}

impl<V: Copy> IndexMap<V> {
    /// The empty table.
    pub fn empty() -> (res: Self)
        ensures
            res@ == Map::<u32, V>::empty(),
    {
        IndexMap { rows: Arc::new(BTreeMap::new()) }
    }

    /// Whether nothing is bound.
    pub fn is_empty(&self) -> (b: bool)
        ensures
            b == (self@ == Map::<u32, V>::empty()),
    {
        let b = self.rows.is_empty();
        proof {
            if b {
                assert(self@ =~= Map::<u32, V>::empty());
            }
        }
        b
    }

    /// Whether an index is bound.
    pub fn contains(&self, i: u32) -> (b: bool)
        ensures
            b == self@.dom().contains(i),
    {
        broadcast use vstd::laws_cmp::group_laws_cmp;

        self.rows.contains_key(&i)
    }

    /// What an index is bound to.
    pub fn get(&self, i: u32) -> (r: Option<V>)
        ensures
            match r {
                Some(v) => self@.dom().contains(i) && self@[i] == v,
                None => !self@.dom().contains(i),
            },
    {
        broadcast use vstd::laws_cmp::group_laws_cmp;

        match self.rows.get(&i) {
            Some(v) => Some(*v),
            None => None,
        }
    }

    fn indices(&self) -> (r: Vec<u32>)
        ensures
            r@.no_duplicates(),
            forall|k: u32| r@.contains(k) == #[trigger] self@.dom().contains(k),
    {
        broadcast use vstd::laws_cmp::group_laws_cmp;

        let mut out: Vec<u32> = Vec::new();
        for k in it: self.rows.keys()
            invariant
                out@ == it.seq().unref().take(it.index()),
        {
            out.push(*k);
            assert(out@ =~= it.seq().unref().take(it.index() + 1));
        }
        proof {
            let keys = vstd::std_specs::btree::spec_keys_iter(&*self.rows);
            let all = vstd::std_specs::iter::IteratorSpec::remaining(&keys).unref();
            assert(out@ =~= all);
            assert forall|k: u32| out@.contains(k) == #[trigger] self@.dom().contains(k) by {
                assert(all.to_set().contains(k) == self@.dom().contains(k));
            }
        }
        out
    }

    /// How many indices are bound.
    pub fn count(&self) -> (n: usize)
        ensures
            n == self@.dom().len(),
            self@.dom().finite(),
    {
        let row = self.indices();
        proof {
            row@.unique_seq_to_set();
            assert(row@.to_set() =~= self@.dom());
        }
        row.len()
    }

    /// The same bindings, to be written on.
    fn rows_copied(&self) -> (rows: BTreeMap<u32, V>)
        ensures
            rows@ == self@,
    {
        let row = self.indices();
        let mut out: BTreeMap<u32, V> = BTreeMap::new();
        let mut i: usize = 0;
        while i < row.len()
            invariant
                i <= row@.len(),
                forall|k: u32| row@.contains(k) == #[trigger] self@.dom().contains(k),
                forall|k: u32| #[trigger]
                    out@.dom().contains(k) ==> self@.dom().contains(k) && out@[k] == self@[k],
                forall|j: int| 0 <= j < i ==> out@.dom().contains(#[trigger] row@[j]),
            decreases row@.len() - i,
        {
            assert(row@.contains(row@[i as int]));
            if let Some(v) = self.get(row[i]) {
                put(&mut out, row[i], v);
            }
            i += 1;
        }
        assert(out@ =~= self@) by {
            assert forall|k: u32| self@.dom().contains(k) implies #[trigger] out@.dom().contains(
                k,
            ) by {
                assert(row@.contains(k));
                let j = choose|j: int| 0 <= j < row@.len() && row@[j] == k;
                assert(out@.dom().contains(row@[j]));
            }
        }
        out
    }

    /// The table with every index of `indices` bound to `v`.
    pub fn paint(&self, indices: &List<u32>, v: V) -> (res: Self)
        ensures
            res@ == painted(self@, indices@, v),
    {
        let mut rows = self.rows_copied();
        let mut k: usize = 0;
        assert(rows@ =~= painted(self@, indices@.take(0), v));
        while k < indices.len()
            invariant
                k <= indices@.len(),
                rows@ == painted(self@, indices@.take(k as int), v),
            decreases indices@.len() - k,
        {
            let i: u32 = *indices.at(k);
            proof {
                let now = indices@.take(k + 1);
                let was = indices@.take(k as int);
                assert(now =~= was.push(i));
                assert forall|x: u32| now.contains(x) == (was.contains(x) || x == i) by {
                    if was.contains(x) {
                        let q = choose|q: int| 0 <= q < was.len() && was[q] == x;
                        assert(now[q] == x);
                    }
                    if x == i {
                        assert(now[k as int] == x);
                    }
                }
                assert(painted(self@, was, v).insert(i, v) =~= painted(self@, now, v));
            }
            put(&mut rows, i, v);
            k += 1;
        }
        assert(indices@.take(k as int) == indices@);
        IndexMap { rows: Arc::new(rows) }
    }

    /// The table with each index bound to the value beside it, as far as both
    /// rows go.
    pub fn assign(&self, indices: &List<u32>, values: &List<V>) -> (res: Self)
        ensures
            res@ == zipped(self@, indices@, values@),
    {
        let mut rows = self.rows_copied();
        let mut k: usize = 0;
        assert(indices@.skip(0) == indices@);
        assert(values@.skip(0) == values@);
        while k < indices.len() && k < values.len()
            invariant
                k <= indices@.len(),
                k <= values@.len(),
                zipped(self@, indices@, values@) == zipped(
                    rows@,
                    indices@.skip(k as int),
                    values@.skip(k as int),
                ),
            decreases indices@.len() - k,
        {
            let i: u32 = *indices.at(k);
            let v: V = *values.at(k);
            proof {
                assert(indices@.skip(k as int).drop_first() =~= indices@.skip(k + 1));
                assert(values@.skip(k as int).drop_first() =~= values@.skip(k + 1));
            }
            put(&mut rows, i, v);
            k += 1;
        }
        IndexMap { rows: Arc::new(rows) }
    }
}

} // verus!
