//! The first item of a sequence that has a property, and how many have it.
use vstd::prelude::*;

verus! {

/// The position of the first item with the property `p`, or the length of the
/// sequence where none has it.
pub open spec fn first<T>(s: Seq<T>, p: spec_fn(T) -> bool) -> int
    decreases s.len(),
{
    if s.len() == 0 || p(s[0]) {
        0
    } else {
        1 + first(s.drop_first(), p)
    }
}

/// What is known of the first position.
pub proof fn lemma_first<T>(s: Seq<T>, p: spec_fn(T) -> bool)
    ensures
        0 <= first(s, p) <= s.len(),
        first(s, p) < s.len() ==> p(s[first(s, p)]),
        forall|j: int| 0 <= j < first(s, p) ==> !p(#[trigger] s[j]),
    decreases s.len(),
{
    if s.len() > 0 && !p(s[0]) {
        lemma_first(s.drop_first(), p);
        assert forall|j: int| 0 <= j < first(s, p) implies !p(#[trigger] s[j]) by {
            if j > 0 {
                assert(s.drop_first()[j - 1] == s[j]);
            }
        }
    }
}

/// A position with the property, and none before it, is the first.
pub proof fn lemma_first_is<T>(s: Seq<T>, p: spec_fn(T) -> bool, i: int)
    requires
        0 <= i <= s.len(),
        i < s.len() ==> p(s[i]),
        forall|j: int| 0 <= j < i ==> !p(#[trigger] s[j]),
    ensures
        first(s, p) == i,
{
    lemma_first(s, p);
    let f = first(s, p);
    if f < i {
        assert(!p(s[f]));
    }
    if i < f {
        assert(!p(s[i]));
    }
}

/// How many of the first `n` positions have a property.
pub open spec fn tally(n: nat, p: spec_fn(int) -> bool) -> nat
    decreases n,
{
    if n == 0 {
        0
    } else if p(n - 1) {
        tally((n - 1) as nat, p) + 1
    } else {
        tally((n - 1) as nat, p)
    }
}

/// Properties that agree are counted alike.
pub proof fn lemma_tally_same(n: nat, p: spec_fn(int) -> bool, q: spec_fn(int) -> bool)
    requires
        forall|i: int| 0 <= i < n ==> #[trigger] p(i) == q(i),
    ensures
        tally(n, p) == tally(n, q),
    decreases n,
{
    if n > 0 {
        lemma_tally_same((n - 1) as nat, p, q);
        assert(p(n - 1) == q(n - 1));
    }
}

/// A position with the property is counted below a larger number.
pub proof fn lemma_tally_below(j: nat, n: nat, p: spec_fn(int) -> bool)
    requires
        j <= n,
    ensures
        tally(j, p) <= tally(n, p) <= tally(j, p) + (n - j),
        j < n && p(j as int) ==> tally(j, p) < tally(n, p),
    decreases n - j,
{
    if j < n {
        lemma_tally_below(j + 1, n, p);
        assert(tally(j + 1, p) == tally(j, p) + if p(j as int) {
            1nat
        } else {
            0nat
        });
    }
}

/// Each number below the count is that of a position.
pub proof fn lemma_tally_hit(k: nat, n: nat, p: spec_fn(int) -> bool) -> (j: int)
    requires
        k < tally(n, p),
    ensures
        0 <= j < n,
        p(j),
        tally(j as nat, p) == k,
    decreases n,
{
    if p(n - 1) && tally((n - 1) as nat, p) == k {
        n - 1
    } else {
        lemma_tally_hit(k, (n - 1) as nat, p)
    }
}

/// Where every position has the property, the count is the number itself.
pub proof fn lemma_tally_all(n: nat, p: spec_fn(int) -> bool)
    requires
        forall|i: int| 0 <= i < n ==> #[trigger] p(i),
    ensures
        tally(n, p) == n,
    decreases n,
{
    if n > 0 {
        lemma_tally_all((n - 1) as nat, p);
        assert(p(n - 1));
    }
}

} // verus!
