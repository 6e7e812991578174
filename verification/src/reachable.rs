//! Which assets a project still uses. Every document is read as plain data, and
//! whatever in it is written like the id of an asset counts as a use, so that no
//! use can be overlooked.
use crate::ids::{parse_id, parsed_id};
use crate::table::Table;
use vstd::prelude::*;

verus! {

/// A document as plain data.
pub enum Json {
    Null,
    Bool(bool),
    Number(String),
    Text(String),
    Array(Vec<Json>),
    Object(Vec<Member>),
}

/// A named part of a document.
pub struct Member {
    pub key: String,
    pub value: Json,
}

/// Whether a document mentions an id, as a text or as the name of a part.
pub open spec fn mentions(doc: Json, id: u128) -> bool
    decreases doc,
{
    match doc {
        Json::Text(s) => parsed_id(s@) == Some(id),
        Json::Array(items) => exists|i: int|
            0 <= i < items@.len() && mentions(#[trigger] items@[i], id),
        Json::Object(members) => exists|i: int|
            0 <= i < members@.len() && (parsed_id((#[trigger] members@[i]).key@) == Some(id)
                || mentions(members@[i].value, id)),
        _ => false,
    }
}

/// Whether a document mentions an id.
pub fn is_mentioned(doc: &Json, id: u128) -> (r: bool)
    ensures
        r == mentions(*doc, id),
    decreases *doc,
{
    match doc {
        Json::Text(s) => match parse_id(s) {
            Some(k) => k == id,
            None => false,
        },
        Json::Array(items) => {
            assert(decreases_to!(*doc => items@));
            item_mentions(items, id)
        },
        Json::Object(members) => {
            assert(decreases_to!(*doc => members@));
            member_mentions(members, id)
        },
        _ => false,
    }
}

fn item_mentions(items: &Vec<Json>, id: u128) -> (r: bool)
    ensures
        r == any_mentions(items@, id),
    decreases items@,
{
    let mut i: usize = 0;
    while i < items.len()
        invariant
            i <= items@.len(),
            forall|j: int| 0 <= j < i ==> !mentions(#[trigger] items@[j], id),
        decreases items@.len() - i,
    {
        if is_mentioned(&items[i], id) {
            assert(mentions(items@[i as int], id));
            return true;
        }
        i += 1;
    }
    false
}

fn member_mentions(members: &Vec<Member>, id: u128) -> (r: bool)
    ensures
        r == exists|i: int|
            0 <= i < members@.len() && (parsed_id((#[trigger] members@[i]).key@) == Some(id)
                || mentions(members@[i].value, id)),
    decreases members@,
{
    let mut i: usize = 0;
    while i < members.len()
        invariant
            i <= members@.len(),
            forall|j: int|
                0 <= j < i ==> parsed_id((#[trigger] members@[j]).key@) != Some(id) && !mentions(
                    members@[j].value,
                    id,
                ),
        decreases members@.len() - i,
    {
        let named = match parse_id(&members[i].key) {
            Some(k) => k == id,
            None => false,
        };
        if named || is_mentioned(&members[i].value, id) {
            return true;
        }
        i += 1;
    }
    false
}

/// Whether one of the documents mentions an id.
pub open spec fn any_mentions(docs: Seq<Json>, id: u128) -> bool {
    exists|i: int| 0 <= i < docs.len() && mentions(#[trigger] docs[i], id)
}

/// Whether a set of assets holds every asset that the roots mention, and with
/// each asset those that its own document mentions.
pub open spec fn closed_under(roots: Seq<Json>, docs: Map<u128, Json>, s: Set<u128>) -> bool {
    &&& forall|id: u128|
        #![trigger s.contains(id)]
        docs.contains_key(id) && any_mentions(roots, id) ==> s.contains(id)
    &&& forall|from: u128, id: u128|
        #![trigger s.contains(from), s.contains(id)]
        s.contains(from) && docs.contains_key(from) && docs.contains_key(id) && mentions(
            docs[from],
            id,
        ) ==> s.contains(id)
}

/// Whether an asset is in use: whatever holds on to the roots and to what they
/// use holds on to it.
pub open spec fn in_use(roots: Seq<Json>, docs: Map<u128, Json>, id: u128) -> bool {
    docs.contains_key(id) && forall|s: Set<u128>| #[trigger]
        closed_under(roots, docs, s) ==> s.contains(id)
}

/// An asset that a root mentions is in use, and so is every asset that the
/// document of an asset in use mentions.
pub proof fn law_uses_are_followed(roots: Seq<Json>, docs: Map<u128, Json>, from: u128, id: u128)
    requires
        docs.contains_key(id),
        any_mentions(roots, id) || (in_use(roots, docs, from) && mentions(docs[from], id)),
    ensures
        in_use(roots, docs, id),
{
    assert forall|s: Set<u128>| #[trigger] closed_under(roots, docs, s) implies s.contains(id) by {
        if !any_mentions(roots, id) {
            assert(s.contains(from));
            if !s.contains(id) {
            }
        }
    }
}

/// The marked keys.
spec fn marked_set(keys: Seq<u128>, marks: Seq<bool>) -> Set<u128> {
    Set::new(|id: u128| exists|i: int| 0 <= i < keys.len() && #[trigger] keys[i] == id && marks[i])
}

/// How many marks are not set.
spec fn unset(marks: Seq<bool>) -> nat
    decreases marks.len(),
{
    if marks.len() == 0 {
        0
    } else {
        unset(marks.drop_last()) + if marks.last() {
            0nat
        } else {
            1nat
        }
    }
}

proof fn lemma_unset_drops(marks: Seq<bool>, i: int)
    requires
        0 <= i < marks.len(),
        !marks[i],
    ensures
        unset(marks.update(i, true)) < unset(marks),
    decreases marks.len(),
{
    let next = marks.update(i, true);
    if i == marks.len() - 1 {
        assert(next.drop_last() =~= marks.drop_last());
    } else {
        lemma_unset_drops(marks.drop_last(), i);
        assert(next.drop_last() =~= marks.drop_last().update(i, true));
        assert(next.last() == marks.last());
    }
}

/// Whether a marked asset's document mentions an id.
fn marked_mentions(keys: &Vec<u128>, marks: &Vec<bool>, docs: &Table<Json>, id: u128) -> (r: bool)
    requires
        marks@.len() == keys@.len(),
    ensures
        r == exists|j: int|
            0 <= j < keys@.len() && marks@[j] && docs@.contains_key(#[trigger] keys@[j])
                && mentions(docs@[keys@[j]], id),
{
    let mut j: usize = 0;
    while j < keys.len()
        invariant
            marks@.len() == keys@.len(),
            j <= keys@.len(),
            forall|q: int|
                0 <= q < j ==> !(marks@[q] && docs@.contains_key(#[trigger] keys@[q]) && mentions(
                    docs@[keys@[q]],
                    id,
                )),
        decreases keys@.len() - j,
    {
        if marks[j] {
            if let Some(doc) = docs.get(keys[j]) {
                if is_mentioned(doc, id) {
                    assert(docs@.contains_key(keys@[j as int]));
                    return true;
                }
            }
        }
        j += 1;
    }
    false
}

/// The assets that the roots use, directly or through other assets. `docs` holds
/// the document of each asset.
pub fn reachable_assets(roots: &Vec<Json>, docs: &Table<Json>) -> (r: Vec<u128>)
    ensures
        r@.no_duplicates(),
        forall|id: u128| r@.contains(id) == #[trigger] in_use(roots@, docs@, id),
{
    let keys = docs.keys();
    let mut marks: Vec<bool> = Vec::new();
    let mut i: usize = 0;
    while i < keys.len()
        invariant
            i <= keys@.len(),
            marks@.len() == i,
            forall|j: int| 0 <= j < i ==> #[trigger] marks@[j] == any_mentions(roots@, keys@[j]),
        decreases keys@.len() - i,
    {
        marks.push(item_mentions(roots, keys[i]));
        i += 1;
    }
    proof {
        assert forall|s: Set<u128>, j: int|
            closed_under(roots@, docs@, s) && 0 <= j < keys@.len() && marks@[j] implies s.contains(
            #[trigger] keys@[j],
        ) && #[trigger] closed_under(roots@, docs@, s) by {
            assert(keys@.contains(keys@[j]));
            assert(docs@.dom().contains(keys@[j]));
        }
    }
    let mut changed = true;
    while changed
        invariant
            marks@.len() == keys@.len(),
            forall|k: u128| keys@.contains(k) == #[trigger] docs@.dom().contains(k),
            forall|j: int|
                0 <= j < keys@.len() && any_mentions(roots@, keys@[j]) ==> #[trigger] marks@[j],
            forall|s: Set<u128>, j: int|
                closed_under(roots@, docs@, s) && 0 <= j < keys@.len() && marks@[j] ==> s.contains(
                    #[trigger] keys@[j],
                ) && #[trigger] closed_under(roots@, docs@, s),
            !changed ==> forall|a: int, b: int|
                0 <= a < keys@.len() && 0 <= b < keys@.len() && marks@[a] && mentions(
                    docs@[#[trigger] keys@[a]],
                    #[trigger] keys@[b],
                ) ==> marks@[b],
        decreases unset(marks@) + if changed {
            1nat
        } else {
            0nat
        },
    {
        let ghost start = marks@;
        changed = false;
        let mut k: usize = 0;
        while k < keys.len()
            invariant
                marks@.len() == keys@.len(),
                k <= keys@.len(),
                forall|q: u128| keys@.contains(q) == #[trigger] docs@.dom().contains(q),
                forall|j: int|
                    0 <= j < keys@.len() && any_mentions(roots@, keys@[j]) ==> #[trigger] marks@[j],
                forall|s: Set<u128>, j: int|
                    closed_under(roots@, docs@, s) && 0 <= j < keys@.len() && marks@[j]
                        ==> s.contains(#[trigger] keys@[j]) && #[trigger] closed_under(
                        roots@,
                        docs@,
                        s,
                    ),
                changed ==> unset(marks@) < unset(start),
                !changed ==> marks@ == start,
                !changed ==> forall|a: int, b: int|
                    0 <= a < keys@.len() && 0 <= b < k && marks@[a] && mentions(
                        docs@[#[trigger] keys@[a]],
                        #[trigger] keys@[b],
                    ) ==> marks@[b],
            decreases keys@.len() - k,
        {
            proof {
                assert forall|a: int| 0 <= a < keys@.len() implies docs@.contains_key(
                    #[trigger] keys@[a],
                ) by {
                    assert(keys@.contains(keys@[a]));
                    assert(docs@.dom().contains(keys@[a]));
                }
            }
            if !marks[k] && marked_mentions(&keys, &marks, docs, keys[k]) {
                let ghost before = marks@;
                proof {
                    lemma_unset_drops(before, k as int);
                    let a = choose|a: int|
                        0 <= a < keys@.len() && before[a] && docs@.contains_key(
                            #[trigger] keys@[a],
                        ) && mentions(docs@[keys@[a]], keys@[k as int]);
                    assert forall|s: Set<u128>| #[trigger]
                        closed_under(roots@, docs@, s) implies s.contains(keys@[k as int]) by {
                        assert(s.contains(keys@[a]));
                        if !s.contains(keys@[k as int]) {
                        }
                    }
                }
                marks.set(k, true);
                changed = true;
            }
            k += 1;
        }
    }
    let ghost held = marked_set(keys@, marks@);
    proof {
        assert(closed_under(roots@, docs@, held)) by {
            assert forall|id: u128|
                #![trigger held.contains(id)]
                docs@.contains_key(id) && any_mentions(roots@, id) implies held.contains(id) by {
                assert(docs@.dom().contains(id));
                assert(keys@.contains(id));
                let j = choose|j: int| 0 <= j < keys@.len() && keys@[j] == id;
                assert(marks@[j]);
                assert(keys@[j] == id && marks@[j]);
            }
            assert forall|from: u128, id: u128|
                #![trigger held.contains(from), held.contains(id)]
                held.contains(from) && docs@.contains_key(from) && docs@.contains_key(id)
                    && mentions(docs@[from], id) implies held.contains(id) by {
                let a = choose|i: int| 0 <= i < keys@.len() && #[trigger] keys@[i] == from && marks@[i];
                assert(docs@.dom().contains(id));
                assert(keys@.contains(id));
                let b = choose|j: int| 0 <= j < keys@.len() && keys@[j] == id;
                assert(marks@[b]);
                assert(keys@[b] == id && marks@[b]);
            }
        }
    }
    let mut out: Vec<u128> = Vec::new();
    let mut k: usize = 0;
    let ghost mut at: Seq<int> = Seq::empty();
    while k < keys.len()
        invariant
            marks@.len() == keys@.len(),
            k <= keys@.len(),
            at.len() == out@.len(),
            forall|x: int| 0 <= x < at.len() ==> 0 <= #[trigger] at[x] < k && keys@[at[x]] == out@[x]
                && marks@[at[x]],
            forall|x: int, y: int| 0 <= x < y < at.len() ==> #[trigger] at[x] < #[trigger] at[y],
            forall|j: int| 0 <= j < k && marks@[j] ==> out@.contains(#[trigger] keys@[j]),
        decreases keys@.len() - k,
    {
        if marks[k] {
            let ghost was = out@;
            out.push(keys[k]);
            proof {
                at = at.push(k as int);
                assert(out@[was.len() as int] == keys@[k as int]);
                assert forall|j: int| 0 <= j < k + 1 && marks@[j] implies out@.contains(
                    #[trigger] keys@[j],
                ) by {
                    if j < k {
                        let x = choose|x: int| 0 <= x < was.len() && was[x] == keys@[j];
                        assert(out@[x] == keys@[j]);
                    }
                }
            }
        }
        k += 1;
    }
    proof {
        assert(out@.no_duplicates()) by {
            assert forall|x: int, y: int| 0 <= x < out@.len() && 0 <= y < out@.len() && x
                != y implies out@[x] != out@[y] by {
                assert(keys@[at[x]] == out@[x]);
                assert(keys@[at[y]] == out@[y]);
                if x < y {
                    assert(at[x] < at[y]);
                } else {
                    assert(at[y] < at[x]);
                }
            }
        }
        assert forall|id: u128| out@.contains(id) == #[trigger] in_use(roots@, docs@, id) by {
            if out@.contains(id) {
                let x = choose|x: int| 0 <= x < out@.len() && out@[x] == id;
                let j = at[x];
                assert(keys@[j] == id && marks@[j]);
                assert(keys@.contains(id));
                assert(docs@.dom().contains(id));
                assert forall|s: Set<u128>| #[trigger] closed_under(
                    roots@,
                    docs@,
                    s,
                ) implies s.contains(id) by {
                    assert(s.contains(keys@[j]));
                }
            }
            if in_use(roots@, docs@, id) {
                assert(held.contains(id));
                let j = choose|i: int| 0 <= i < keys@.len() && #[trigger] keys@[i] == id && marks@[i];
                assert(out@.contains(keys@[j]));
            }
        }
    }
    out
}

} // verus!
