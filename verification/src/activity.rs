//! The list of background work under way, for the indicator that shows it: a
//! label for each activity, and one entry each for the compiles and for the phase
//! of a load.
use crate::find::{first, lemma_first_is};
use crate::text::{decimal, decimal_text, joined3, same_text};
use vstd::prelude::*;

verus! {

/// The id of the entry for compiles.
pub const COMPILE_ID: u64 = 0xffff_ffff_ffff_ffff;

/// The id of the entry for the phase of a load.
pub const LOAD_PHASE_ID: u64 = 0xffff_ffff_ffff_fffe;

/// How long an entry stays after its work is done, in milliseconds, so that it
/// is seen at all.
pub const LINGER_MS: u32 = 450;

/// The activities, in the order in which they are shown, and the id of the next.
pub struct Activities {
    list: Vec<(u64, String)>,
    next: u64,
}

/// The activities as a value.
#[verifier::ext_equal]
pub struct ActivitiesView {
    pub list: Seq<(u64, Seq<char>)>,
    pub next: u64,
}

/// The labels of entries as values.
pub open spec fn labels(list: Seq<(u64, String)>) -> Seq<(u64, Seq<char>)> {
    Seq::new(list.len(), |i: int| (list[i].0, list[i].1@))
}

impl View for Activities {
    type V = ActivitiesView;

    closed spec fn view(&self) -> ActivitiesView {
        ActivitiesView { list: labels(self.list@), next: self.next }
    }
}

/// An activity that was begun; it is shown until it is ended.
#[must_use]
pub struct Activity {
    id: u64,
}

impl Activity {
    pub closed spec fn id(&self) -> u64 {
        self.id
    }
}

/// Whether an entry has an id.
pub open spec fn is_entry(id: u64) -> spec_fn((u64, Seq<char>)) -> bool {
    |e: (u64, Seq<char>)| e.0 == id
}

/// The entries with one for `id` labelled so: the one that is there, else a new
/// one at the front.
pub open spec fn shown(list: Seq<(u64, Seq<char>)>, id: u64, label: Seq<char>) -> Seq<
    (u64, Seq<char>),
> {
    let i = first(list, is_entry(id));
    if i < list.len() {
        list.update(i, (id, label))
    } else {
        list.insert(0, (id, label))
    }
}

/// The entries without the first one for `id`.
pub open spec fn hidden(list: Seq<(u64, Seq<char>)>, id: u64) -> Seq<(u64, Seq<char>)> {
    let i = first(list, is_entry(id));
    if i < list.len() {
        list.remove(i)
    } else {
        list
    }
}

/// The entries without any for `id`.
pub open spec fn ended(list: Seq<(u64, Seq<char>)>, id: u64) -> Seq<(u64, Seq<char>)>
    decreases list.len(),
{
    if list.len() == 0 {
        seq![]
    } else if list.last().0 == id {
        ended(list.drop_last(), id)
    } else {
        ended(list.drop_last(), id).push(list.last())
    }
}

/// The letter that makes a word stand for several.
pub open spec fn plural(n: nat) -> Seq<char> {
    if n == 1 {
        ""@
    } else {
        "s"@
    }
}

/// What is said of compiles under way: how many pipelines, or how many
/// materials where no pipeline is counted.
pub open spec fn compile_text(materials: usize, subcompiles: u32) -> Seq<char> {
    if subcompiles > 0 {
        "Compiling "@ + decimal(subcompiles as nat) + (" render pipeline"@ + plural(
            subcompiles as nat,
        ) + "\u{2026}"@)
    } else {
        "Compiling "@ + decimal(materials as nat) + (" material"@ + plural(materials as nat)
            + "\u{2026}"@)
    }
}

fn plural_text(n: u64) -> (r: &'static str)
    ensures
        r@ == plural(n as nat),
{
    if n == 1 {
        ""
    } else {
        "s"
    }
}

impl Activities {
    /// No activities.
    pub fn new() -> (a: Activities)
        ensures
            a@.list == Seq::<(u64, Seq<char>)>::empty(),
            a@.next == 0,
    {
        let a = Activities { list: Vec::new(), next: 0 };
        assert(a@.list =~= Seq::<(u64, Seq<char>)>::empty());
        a
    }

    /// The activities that are shown.
    pub fn activities(&self) -> (r: &Vec<(u64, String)>)
        ensures
            labels(r@) == self@.list,
    {
        &self.list
    }

    fn find(&self, id: u64) -> (r: Option<usize>)
        ensures
            match r {
                Some(i) => i < self@.list.len() && first(self@.list, is_entry(id)) == i,
                None => first(self@.list, is_entry(id)) == self@.list.len(),
            },
    {
        let mut i: usize = 0;
        while i < self.list.len()
            invariant
                i <= self.list@.len(),
                self@.list == labels(self.list@),
                forall|j: int| 0 <= j < i ==> !is_entry(id)(#[trigger] self@.list[j]),
            decreases self.list@.len() - i,
        {
            if self.list[i].0 == id {
                proof {
                    lemma_first_is(self@.list, is_entry(id), i as int);
                }
                return Some(i);
            }
            i += 1;
        }
        proof {
            lemma_first_is(self@.list, is_entry(id), i as int);
        }
        None
    }

    fn put_entry(&mut self, id: u64, label: String)
        ensures
            final(self)@ == (ActivitiesView {
                list: shown(old(self)@.list, id, label@),
                ..old(self)@
            }),
    {
        let ghost before = self@.list;
        match self.find(id) {
            Some(i) => {
                if !same_text(&self.list[i].1, &label) {
                    self.list.set(i, (id, label));
                }
                assert(before[i as int].0 == id) by {
                    crate::find::lemma_first(before, is_entry(id));
                }
                assert(self@.list =~= before.update(i as int, (id, label@)));
            },
            None => {
                self.list.insert(0, (id, label));
                assert(self@.list =~= before.insert(0, (id, label@)));
            },
        }
    }

    fn drop_entry(&mut self, id: u64)
        ensures
            final(self)@ == (ActivitiesView { list: hidden(old(self)@.list, id), ..old(self)@ }),
    {
        let ghost before = self@.list;
        if let Some(i) = self.find(id) {
            self.list.remove(i);
            assert(self@.list =~= before.remove(i as int));
        }
    }
}

/// Begins an activity, shown under its label behind those that are there.
pub fn begin_activity(activities: &mut Activities, label: String) -> (r: Activity)
    ensures
        r.id() == old(activities)@.next,
        final(activities)@.list == old(activities)@.list.push((r.id(), label@)),
        final(activities)@.next == if r.id() == u64::MAX {
            0
        } else {
            (r.id() + 1) as u64
        },
{
    let ghost before = activities@.list;
    let id = activities.next;
    activities.next = id.wrapping_add(1);
    activities.list.push((id, label));
    assert(activities@.list =~= before.push((id, label@)));
    Activity { id }
}

/// Ends an activity: it is no longer shown.
pub fn end_activity(activities: &mut Activities, activity: Activity)
    ensures
        final(activities)@ == (ActivitiesView {
            list: ended(old(activities)@.list, activity.id()),
            ..old(activities)@
        }),
{
    let ghost before = activities@.list;
    let ghost next = activities@.next;
    let mut rest: Vec<(u64, String)> = Vec::new();
    let mut i: usize = 0;
    assert(labels(rest@) =~= ended(before.take(0), activity.id));
    while i < activities.list.len()
        invariant
            i <= activities.list@.len(),
            activities@.list == labels(activities.list@),
            before == activities@.list,
            next == activities@.next,
            labels(rest@) == ended(before.take(i as int), activity.id),
        decreases activities.list@.len() - i,
    {
        let ghost was = rest@;
        assert(before.take(i + 1).drop_last() =~= before.take(i as int));
        assert(before.take(i + 1).last() == before[i as int]);
        if activities.list[i].0 != activity.id {
            let label = activities.list[i].1.clone();
            rest.push((activities.list[i].0, label));
            assert(labels(rest@) =~= labels(was).push(before[i as int]));
        }
        i += 1;
    }
    assert(before.take(i as int) =~= before);
    activities.list = rest;
}

/// Ending an activity undoes beginning it, whatever is shown besides.
pub proof fn law_ended_activity_is_gone(list: Seq<(u64, Seq<char>)>, id: u64, label: Seq<char>)
    ensures
        ended(list.push((id, label)), id) == ended(list, id),
        forall|i: int| 0 <= i < ended(list, id).len() ==> (#[trigger] ended(list, id)[i]).0 != id,
    decreases list.len(),
{
    assert(list.push((id, label)).drop_last() =~= list);
    if list.len() > 0 {
        law_ended_activity_is_gone(list.drop_last(), id, label);
    }
}

/// Whether the entries are told apart: no two have one id, and each was begun
/// before the next will be or is one of the two that are always there.
pub open spec fn orderly(v: ActivitiesView) -> bool {
    &&& v.next <= LOAD_PHASE_ID
    &&& forall|i: int|
        0 <= i < v.list.len() ==> (#[trigger] v.list[i]).0 < v.next || v.list[i].0 == COMPILE_ID
            || v.list[i].0 == LOAD_PHASE_ID
    &&& forall|i: int, j: int|
        0 <= i < j < v.list.len() ==> (#[trigger] v.list[i]).0 != (#[trigger] v.list[j]).0
}

proof fn lemma_ended(list: Seq<(u64, Seq<char>)>, id: u64)
    ensures
        forall|i: int|
            0 <= i < ended(list, id).len() ==> exists|j: int|
                0 <= j < list.len() && list[j] == #[trigger] ended(list, id)[i],
        (forall|i: int| 0 <= i < list.len() ==> (#[trigger] list[i]).0 != id) ==> ended(list, id)
            == list,
        (forall|i: int, j: int|
            0 <= i < j < list.len() ==> (#[trigger] list[i]).0 != (#[trigger] list[j]).0) ==> (
        forall|i: int, j: int|
            0 <= i < j < ended(list, id).len() ==> (#[trigger] ended(list, id)[i]).0 != (
            #[trigger] ended(list, id)[j]).0),
    decreases list.len(),
{
    if list.len() > 0 {
        let init = list.drop_last();
        let rest = ended(init, id);
        let all = ended(list, id);
        lemma_ended(init, id);
        assert forall|i: int| 0 <= i < all.len() implies exists|j: int|
            0 <= j < list.len() && list[j] == #[trigger] all[i] by {
            if i < rest.len() {
                let j = choose|j: int| 0 <= j < init.len() && init[j] == rest[i];
                assert(list[j] == all[i]);
            } else {
                assert(list[list.len() - 1] == all[i]);
            }
        }
        if forall|i: int| 0 <= i < list.len() ==> (#[trigger] list[i]).0 != id {
            assert forall|i: int| 0 <= i < init.len() implies (#[trigger] init[i]).0 != id by {
                assert(list[i] == init[i]);
            }
            assert(list[list.len() - 1].0 != id);
            assert(init.push(list.last()) =~= list);
        }
        if forall|i: int, j: int|
            0 <= i < j < list.len() ==> (#[trigger] list[i]).0 != (#[trigger] list[j]).0 {
            assert forall|i: int, j: int| 0 <= i < j < init.len() implies (#[trigger] init[i]).0
                != (#[trigger] init[j]).0 by {
                assert(list[i] == init[i] && list[j] == init[j]);
            }
            assert forall|i: int, j: int| 0 <= i < j < all.len() implies (#[trigger] all[i]).0
                != (#[trigger] all[j]).0 by {
                if j == rest.len() {
                    let k = choose|k: int| 0 <= k < init.len() && init[k] == rest[i];
                    assert(list[k].0 != list[list.len() - 1].0);
                }
            }
        }
    }
}

/// An activity that is begun has an id that no entry has, neither one begun before
/// nor one of the two that are always there; so ending it takes away its own entry
/// and no other.
pub proof fn law_begun_activities_are_distinct(v: ActivitiesView, label: Seq<char>)
    requires
        orderly(v),
        v.next < LOAD_PHASE_ID,
    ensures
        v.next != COMPILE_ID,
        v.next != LOAD_PHASE_ID,
        forall|i: int| 0 <= i < v.list.len() ==> (#[trigger] v.list[i]).0 != v.next,
        orderly(
            ActivitiesView { list: v.list.push((v.next, label)), next: (v.next + 1) as u64 },
        ),
        ended(v.list.push((v.next, label)), v.next) == v.list,
{
    law_ended_activity_is_gone(v.list, v.next, label);
    lemma_ended(v.list, v.next);
}

proof fn lemma_ended_orderly(v: ActivitiesView, id: u64)
    requires
        orderly(v),
    ensures
        orderly(ActivitiesView { list: ended(v.list, id), ..v }),
{
    let a = ended(v.list, id);
    lemma_ended(v.list, id);
    assert forall|i: int| 0 <= i < a.len() implies (#[trigger] a[i]).0 < v.next || a[i].0
        == COMPILE_ID || a[i].0 == LOAD_PHASE_ID by {
        let j = choose|j: int| 0 <= j < v.list.len() && v.list[j] == a[i];
        assert(v.list[j].0 == a[i].0);
    }
}

proof fn lemma_hidden_orderly(v: ActivitiesView, id: u64)
    requires
        orderly(v),
    ensures
        orderly(ActivitiesView { list: hidden(v.list, id), ..v }),
{
    crate::find::lemma_first(v.list, is_entry(id));
}

proof fn lemma_shown_orderly(v: ActivitiesView, id: u64, label: Seq<char>)
    requires
        orderly(v),
        id == COMPILE_ID || id == LOAD_PHASE_ID,
    ensures
        orderly(ActivitiesView { list: shown(v.list, id, label), ..v }),
{
    crate::find::lemma_first(v.list, is_entry(id));
    let k = first(v.list, is_entry(id));
    let b = shown(v.list, id, label);
    if k < v.list.len() {
        assert(is_entry(id)(v.list[k]));
        assert forall|i: int| 0 <= i < b.len() implies (#[trigger] b[i]).0 == v.list[i].0 by {}
    } else {
        assert forall|i: int| 0 < i < b.len() implies #[trigger] b[i] == v.list[i - 1] && b[i].0
            != id by {
            assert(!is_entry(id)(v.list[i - 1]));
        }
    }
    assert forall|i: int, j: int| 0 <= i < j < b.len() implies (#[trigger] b[i]).0 != (
    #[trigger] b[j]).0 by {
        if k < v.list.len() {
            assert(v.list[i].0 != v.list[j].0);
        } else if i > 0 {
            assert(v.list[i - 1].0 != v.list[j - 1].0);
        }
    }
}

/// Whatever is ended, shown or hidden, the entries stay told apart, and the id of
/// the next activity stays as it is.
pub proof fn law_entries_stay_distinct(v: ActivitiesView, id: u64, label: Seq<char>)
    requires
        orderly(v),
    ensures
        orderly(ActivitiesView { list: ended(v.list, id), ..v }),
        orderly(ActivitiesView { list: hidden(v.list, id), ..v }),
        id == COMPILE_ID || id == LOAD_PHASE_ID ==> orderly(
            ActivitiesView { list: shown(v.list, id, label), ..v },
        ),
{
    lemma_ended_orderly(v, id);
    lemma_hidden_orderly(v, id);
    if id == COMPILE_ID || id == LOAD_PHASE_ID {
        lemma_shown_orderly(v, id, label);
    }
}

/// Shows how much there is to compile, in front of the activities; nothing is
/// shown when there is nothing to compile.
pub fn set_compile_progress(activities: &mut Activities, materials: usize, subcompiles: u32)
    ensures
        final(activities)@ == (ActivitiesView {
            list: if materials > 0 || subcompiles > 0 {
                shown(
                    old(activities)@.list,
                    COMPILE_ID,
                    compile_text(materials, subcompiles),
                )
            } else {
                hidden(old(activities)@.list, COMPILE_ID)
            },
            ..old(activities)@
        }),
{
    if materials > 0 || subcompiles > 0 {
        let label = if subcompiles > 0 {
            let tail = joined3(" render pipeline", plural_text(subcompiles as u64), "\u{2026}");
            joined3("Compiling ", &decimal_text(subcompiles as u64), &tail)
        } else {
            let tail = joined3(" material", plural_text(materials as u64), "\u{2026}");
            joined3("Compiling ", &decimal_text(materials as u64), &tail)
        };
        activities.put_entry(COMPILE_ID, label);
    } else {
        activities.drop_entry(COMPILE_ID);
    }
}

/// Shows the phase of a load in front of the activities, or shows none.
pub fn set_load_phase(activities: &mut Activities, label: Option<String>)
    ensures
        final(activities)@ == (ActivitiesView {
            list: match label {
                Some(label) => shown(old(activities)@.list, LOAD_PHASE_ID, label@),
                None => hidden(old(activities)@.list, LOAD_PHASE_ID),
            },
            ..old(activities)@
        }),
{
    match label {
        Some(label) => activities.put_entry(LOAD_PHASE_ID, label),
        None => activities.drop_entry(LOAD_PHASE_ID),
    }
}

} // verus!
