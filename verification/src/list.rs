//! An immutable list that is shared rather than copied: a clone is the same
//! list, so a value that holds one can be kept on the undo log at no cost.
use std::sync::Arc;
use vstd::prelude::*;

verus! {

/// A shared, immutable list.
pub struct List<T> {
    items: Arc<Vec<T>>,
}

impl<T> View for List<T> {
    type V = Seq<T>;

    closed spec fn view(&self) -> Seq<T> {
        self.items@
    }
}

impl<T> Clone for List<T> {
    fn clone(&self) -> (res: Self)
        ensures
            res == *self,
    {
        List { items: self.items.clone() }
    }
}

impl<T> List<T> {
    /// The empty list.
    pub fn empty() -> (res: Self)
        ensures
            res@ == Seq::<T>::empty(),
    {
        List { items: Arc::new(Vec::new()) }
    }

    /// The list that holds the items of `items`, in order.
    pub fn from_vec(items: Vec<T>) -> (res: Self)
        ensures
            res@ == items@,
    {
        List { items: Arc::new(items) }
    }

    pub fn len(&self) -> (n: usize)
        ensures
            n == self@.len(),
    {
        self.items.len()
    }

    pub fn is_empty(&self) -> (b: bool)
        ensures
            b == (self@.len() == 0),
    {
        self.items.len() == 0
    }

    /// The item at `i`.
    pub fn at(&self, i: usize) -> (item: &T)
        requires
            i < self@.len(),
        ensures
            *item == self@[i as int],
    {
        &self.items[i]
    }
}

/// A value whose clone is the value itself.
pub trait Same: Sized {
    fn same(&self) -> (res: Self)
        ensures
            res == *self,
    ;
}

impl Same for String {
    fn same(&self) -> (res: Self) {
        self.clone()
    }
}

impl Same for u8 {
    fn same(&self) -> (res: Self) {
        *self
    }
}

impl Same for u32 {
    fn same(&self) -> (res: Self) {
        *self
    }
}

impl Same for u64 {
    fn same(&self) -> (res: Self) {
        *self
    }
}

impl<T> Same for List<T> {
    fn same(&self) -> (res: Self) {
        self.clone()
    }
}

impl<T: Same> List<T> {
    /// The items as a fresh vector.
    pub fn to_vec(&self) -> (res: Vec<T>)
        ensures
            res@ == self@,
    {
        let mut out: Vec<T> = Vec::new();
        let mut i: usize = 0;
        while i < self.len()
            invariant
                i <= self@.len(),
                out@ == self@.take(i as int),
            decreases self@.len() - i,
        {
            out.push(self.at(i).same());
            i += 1;
            assert(self@.take(i as int) == self@.take(i - 1).push(self@[i - 1]));
        }
        assert(self@.take(i as int) == self@);
        out
    }

    /// The list with `item` added at the end.
    pub fn push(&self, item: T) -> (res: Self)
        ensures
            res@ == self@.push(item),
    {
        let mut items = self.to_vec();
        items.push(item);
        List::from_vec(items)
    }

    /// The list with the item at `i` replaced.
    pub fn with(&self, i: usize, item: T) -> (res: Self)
        requires
            i < self@.len(),
        ensures
            res@ == self@.update(i as int, item),
    {
        let mut items = self.to_vec();
        items.set(i, item);
        List::from_vec(items)
    }

    /// The list without the item at `i`.
    pub fn without(&self, i: usize) -> (res: Self)
        requires
            i < self@.len(),
        ensures
            res@ == self@.remove(i as int),
    {
        let mut items = self.to_vec();
        items.remove(i);
        List::from_vec(items)
    }
}

/// The same items in a fresh vector.
pub fn copied_row<T: Same>(items: &Vec<T>) -> (r: Vec<T>)
    ensures
        r@ == items@,
{
    let mut out: Vec<T> = Vec::new();
    let mut i: usize = 0;
    while i < items.len()
        invariant
            i <= items@.len(),
            out@ == items@.take(i as int),
        decreases items@.len() - i,
    {
        out.push(items[i].same());
        i += 1;
        assert(out@ =~= items@.take(i as int));
    }
    assert(items@.take(i as int) =~= items@);
    out
}

/// The items in reverse order.
pub fn reversed<T>(items: Vec<T>) -> (r: Vec<T>)
    ensures
        r@ == items@.reverse(),
{
    let ghost all = items@;
    let mut rest = items;
    let mut out: Vec<T> = Vec::new();
    while rest.len() > 0
        invariant
            rest@.len() + out@.len() == all.len(),
            rest@ == all.take(rest@.len() as int),
            forall|i: int| 0 <= i < out@.len() ==> #[trigger] out@[i] == all[all.len() - 1 - i],
        decreases rest@.len(),
    {
        if let Some(item) = rest.pop() {
            out.push(item);
        }
    }
    assert(out@ =~= all.reverse());
    out
}

} // verus!
