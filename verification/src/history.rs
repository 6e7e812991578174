//! A log of steps that is bounded by what they cost to keep: the oldest ones go
//! first, and the newest one always stays.
use vstd::prelude::*;

verus! {

/// A step and what it costs to keep.
struct Entry<T> {
    step: T,
    cost: u64,
}

/// A bounded log, the newest step last.
pub struct BoundedHistory<T> {
    entries: Vec<Entry<T>>,
    budget: u64,
}

/// What a row of steps costs in all.
pub open spec fn cost_of(costs: Seq<u64>) -> nat
    decreases costs.len(),
{
    if costs.len() == 0 {
        0
    } else {
        costs[0] as nat + cost_of(costs.drop_first())
    }
}

/// How many of the oldest steps go, so that the rest fits the budget or is a
/// single step.
pub open spec fn overdue(costs: Seq<u64>, budget: u64) -> nat
    decreases costs.len(),
{
    if costs.len() <= 1 || cost_of(costs) <= budget {
        0
    } else {
        1 + overdue(costs.drop_first(), budget)
    }
}

/// A log as a value: the steps, what each costs to keep, and what they may cost.
#[verifier::ext_equal]
pub struct HistoryView<T> {
    pub steps: Seq<T>,
    pub costs: Seq<u64>,
    pub budget: u64,
}

impl<T> View for BoundedHistory<T> {
    type V = HistoryView<T>;

    closed spec fn view(&self) -> HistoryView<T> {
        HistoryView {
            steps: Seq::new(self.entries@.len(), |i: int| self.entries@[i].step),
            costs: Seq::new(self.entries@.len(), |i: int| self.entries@[i].cost),
            budget: self.budget,
        }
    }
}

/// What is known of how many steps go.
pub proof fn lemma_overdue(costs: Seq<u64>, budget: u64)
    ensures
        overdue(costs, budget) <= costs.len(),
        costs.len() > 0 ==> overdue(costs, budget) < costs.len(),
        costs.len() > 0 ==> cost_of(costs.skip(overdue(costs, budget) as int)) <= budget
            || overdue(costs, budget) == costs.len() - 1,
    decreases costs.len(),
{
    assert(costs.skip(0) =~= costs);
    if !(costs.len() <= 1 || cost_of(costs) <= budget) {
        lemma_overdue(costs.drop_first(), budget);
        let n = overdue(costs.drop_first(), budget);
        assert(costs.drop_first().skip(n as int) =~= costs.skip(n as int + 1));
    }
}

/// A log that a step is added to keeps that step, and fits its budget unless
/// that step alone does not.
pub proof fn law_newest_step_stays(costs: Seq<u64>, cost: u64, budget: u64)
    ensures
        ({
            let all = costs.push(cost);
            let kept = all.skip(overdue(all, budget) as int);
            &&& kept.len() > 0
            &&& kept.last() == cost
            &&& cost_of(kept) <= budget || kept.len() == 1
        }),
{
    lemma_overdue(costs.push(cost), budget);
}

impl<T> BoundedHistory<T> {
    /// Every step has a cost.
    pub proof fn lemma_costs(&self)
        ensures
            self@.costs.len() == self@.steps.len(),
    {
    }

    /// An empty log with a budget.
    pub fn with_budget(budget: u64) -> (h: Self)
        ensures
            h@.steps == Seq::<T>::empty(),
            h@.costs == Seq::<u64>::empty(),
            h@.budget == budget,
    {
        let h = BoundedHistory { entries: Vec::new(), budget };
        assert(h@.steps =~= Seq::<T>::empty());
        assert(h@.costs =~= Seq::<u64>::empty());
        h
    }

    /// An empty log with the budget of an editing session.
    pub fn with_default_budget() -> (h: Self)
        ensures
            h@.steps == Seq::<T>::empty(),
            h@.costs == Seq::<u64>::empty(),
            h@.budget == 0x1000_0000,
    {
        BoundedHistory::with_budget(0x1000_0000)
    }

    pub fn len(&self) -> (n: usize)
        ensures
            n == self@.steps.len(),
    {
        self.entries.len()
    }

    pub fn is_empty(&self) -> (b: bool)
        ensures
            b == (self@.steps.len() == 0),
    {
        self.entries.len() == 0
    }

    /// The newest step.
    pub fn last(&self) -> (r: Option<&T>)
        ensures
            match r {
                Some(t) => self@.steps.len() > 0 && *t == self@.steps.last(),
                None => self@.steps.len() == 0,
            },
    {
        let n = self.entries.len();
        if n == 0 {
            None
        } else {
            Some(&self.entries[n - 1].step)
        }
    }

    /// Takes the newest step out.
    pub fn pop(&mut self) -> (r: Option<T>)
        ensures
            final(self)@.budget == old(self)@.budget,
            match r {
                Some(t) => {
                    &&& old(self)@.steps.len() > 0
                    &&& t == old(self)@.steps.last()
                    &&& final(self)@.steps == old(self)@.steps.drop_last()
                    &&& final(self)@.costs == old(self)@.costs.drop_last()
                },
                None => {
                    &&& old(self)@.steps.len() == 0
                    &&& final(self)@.steps == old(self)@.steps
                    &&& final(self)@.costs == old(self)@.costs
                },
            },
    {
        let ghost was = self@.steps;
        let ghost paid = self@.costs;
        match self.entries.pop() {
            Some(e) => {
                assert(self@.steps =~= was.drop_last());
                assert(self@.costs =~= paid.drop_last());
                Some(e.step)
            },
            None => None,
        }
    }

    /// Takes everything out.
    pub fn clear(&mut self)
        ensures
            final(self)@.steps == Seq::<T>::empty(),
            final(self)@.costs == Seq::<u64>::empty(),
            final(self)@.budget == old(self)@.budget,
    {
        self.entries = Vec::new();
        assert(self@.steps =~= Seq::<T>::empty());
        assert(self@.costs =~= Seq::<u64>::empty());
    }

    /// Whether the steps cost more than the budget.
    fn too_costly(&self) -> (r: bool)
        ensures
            r == (cost_of(self@.costs) > self@.budget),
    {
        let ghost all = self@.costs;
        let mut left: u64 = self.budget;
        let mut i: usize = 0;
        assert(all.skip(0) =~= all);
        while i < self.entries.len()
            invariant
                all == self@.costs,
                i <= self.entries@.len(),
                left <= self.budget,
                cost_of(all) == (self.budget - left) + cost_of(all.skip(i as int)),
            decreases self.entries@.len() - i,
        {
            let c: u64 = self.entries[i].cost;
            assert(all.skip(i as int)[0] == c);
            assert(all.skip(i as int).drop_first() =~= all.skip(i + 1));
            if c > left {
                return true;
            }
            left = left - c;
            i += 1;
        }
        assert(all.skip(i as int).len() == 0);
        false
    }

    /// Adds a step; the oldest ones go until the rest fits the budget or only the
    /// new step is left.
    pub fn push(&mut self, step: T, cost: u64)
        ensures
            ({
                let all = old(self)@.costs.push(cost);
                let n = overdue(all, old(self)@.budget) as int;
                &&& final(self)@.steps == old(self)@.steps.push(step).skip(n)
                &&& final(self)@.costs == all.skip(n)
                &&& final(self)@.budget == old(self)@.budget
            }),
            final(self)@.steps.len() > 0,
            final(self)@.steps.last() == step,
    {
        let ghost all = self@.costs.push(cost);
        let ghost whole = self@.steps.push(step);
        self.entries.push(Entry { step, cost });
        assert(self@.costs =~= all);
        assert(self@.steps =~= whole);
        let ghost mut n: nat = 0;
        proof {
            assert(all.skip(0) =~= all);
            assert(whole.skip(0) =~= whole);
            lemma_overdue(all, self@.budget);
        }
        while self.entries.len() > 1 && self.too_costly()
            invariant
                n < all.len(),
                all.len() == whole.len(),
                self@.costs == all.skip(n as int),
                self@.steps == whole.skip(n as int),
                self@.budget == old(self)@.budget,
                overdue(all, self@.budget) == n + overdue(all.skip(n as int), self@.budget),
            decreases self.entries@.len(),
        {
            let ghost row = self.entries@;
            let ghost before = self@.steps;
            self.entries.remove(0);
            proof {
                assert forall|j: int| 0 <= j < self@.steps.len() implies #[trigger] self@.steps[j] == whole.skip(
                    n as int + 1,
                )[j] by {
                    assert(self.entries@[j] == row[j + 1]);
                    assert(before[j + 1] == row[j + 1].step);
                    assert(before[j + 1] == whole[n + j + 1]);
                }
                assert(all.skip(n as int).drop_first() =~= all.skip(n as int + 1));
                assert(self@.costs =~= all.skip(n as int + 1));
                assert(self@.steps =~= whole.skip(n as int + 1));
                n = n + 1;
            }
        }
    }
}

} // verus!
