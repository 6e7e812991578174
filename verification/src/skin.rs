//! The joint weights of a skinned mesh, as the bytes that are uploaded: for each
//! vertex, for each set of influences, four pairs of a joint and a weight.
use crate::list::{List, Same};
use crate::values::F32;
use vstd::prelude::*;

verus! {

/// The bytes of one set of influences of one vertex.
pub const SET_BYTES: usize = 32;

/// The weights of a mesh: how many sets each vertex has, and the bytes.
pub struct SkinStream {
    pub sets: usize,
    pub bytes: List<u8>,
}

impl Same for SkinStream {
    fn same(&self) -> (res: Self) {
        SkinStream { sets: self.sets, bytes: self.bytes.clone() }
    }
}

/// The weights of a mesh as a value.
#[verifier::ext_equal]
pub struct SkinView {
    pub sets: usize,
    pub bytes: Seq<u8>,
}

impl View for SkinStream {
    type V = SkinView;

    open spec fn view(&self) -> SkinView {
        SkinView { sets: self.sets, bytes: self.bytes@ }
    }
}

/// A joint and its weight.
#[derive(Clone, Copy, PartialEq, Eq, Structural, Debug)]
pub struct Influence {
    pub joint: u32,
    pub weight: F32,
}

/// The first set of influences of a vertex.
#[derive(Clone, Copy, PartialEq, Eq, Structural, Debug)]
pub struct SkinWeightEntry {
    pub vertex: u32,
    pub a: Influence,
    pub b: Influence,
    pub c: Influence,
    pub d: Influence,
}

impl Same for SkinWeightEntry {
    fn same(&self) -> (res: Self) {
        *self
    }
}

/// The number that four bytes spell, the least significant first.
pub open spec fn word_at(bytes: Seq<u8>, p: int) -> u32 {
    (bytes[p] + bytes[p + 1] * 0x100 + bytes[p + 2] * 0x1_0000 + bytes[p + 3]
        * 0x100_0000) as u32
}

/// The bytes of a number, the least significant first.
pub open spec fn bytes_of(n: u32) -> Seq<u8> {
    seq![
        (n % 0x100) as u8,
        (n / 0x100 % 0x100) as u8,
        (n / 0x1_0000 % 0x100) as u8,
        (n / 0x100_0000) as u8,
    ]
}

/// How many vertices a stream has.
pub open spec fn vertex_count(sets: usize, len: nat) -> nat {
    if sets == 0 {
        0
    } else {
        len / (sets * SET_BYTES) as nat
    }
}

/// Where the first set of a vertex starts.
pub open spec fn offset_of(sets: usize, vertex: u32) -> int {
    vertex * (sets * SET_BYTES)
}

/// Whether a vertex lies within a stream.
pub open spec fn vertex_within(s: SkinView, vertex: u32) -> bool {
    vertex < vertex_count(s.sets, s.bytes.len())
}

pub open spec fn influence_at(bytes: Seq<u8>, p: int) -> Influence {
    Influence { joint: word_at(bytes, p), weight: F32 { bits: word_at(bytes, p + 4) } }
}

/// The first set of influences of a vertex, as the bytes have it.
pub open spec fn entry_at(s: SkinView, vertex: u32) -> SkinWeightEntry {
    let p = offset_of(s.sets, vertex);
    SkinWeightEntry {
        vertex,
        a: influence_at(s.bytes, p),
        b: influence_at(s.bytes, p + 8),
        c: influence_at(s.bytes, p + 16),
        d: influence_at(s.bytes, p + 24),
    }
}

/// The bytes of a set of influences.
pub open spec fn entry_bytes(e: SkinWeightEntry) -> Seq<u8> {
    bytes_of(e.a.joint) + bytes_of(e.a.weight.bits) + bytes_of(e.b.joint) + bytes_of(
        e.b.weight.bits,
    ) + bytes_of(e.c.joint) + bytes_of(e.c.weight.bits) + bytes_of(e.d.joint) + bytes_of(
        e.d.weight.bits,
    )
}

/// The bytes with some of them replaced.
pub open spec fn overwritten(bytes: Seq<u8>, p: int, new: Seq<u8>) -> Seq<u8> {
    Seq::new(
        bytes.len(),
        |i: int|
            if p <= i < p + new.len() {
                new[i - p]
            } else {
                bytes[i]
            },
    )
}

/// The bytes after the entries are written, in order; an entry for a vertex that
/// is not there is passed over.
pub open spec fn reweighted(s: SkinView, entries: Seq<SkinWeightEntry>) -> Seq<u8>
    decreases entries.len(),
{
    if entries.len() == 0 {
        s.bytes
    } else {
        let before = reweighted(s, entries.drop_last());
        let e = entries.last();
        if vertex_within(s, e.vertex) {
            overwritten(before, offset_of(s.sets, e.vertex), entry_bytes(e))
        } else {
            before
        }
    }
}

/// What the entries replace, in order.
pub open spec fn former_entries(s: SkinView, entries: Seq<SkinWeightEntry>) -> Seq<SkinWeightEntry>
    decreases entries.len(),
{
    if entries.len() == 0 {
        seq![]
    } else {
        let before = former_entries(s, entries.drop_last());
        let e = entries.last();
        if vertex_within(s, e.vertex) {
            before.push(entry_at(s, e.vertex))
        } else {
            before
        }
    }
}

proof fn lemma_offset(s: SkinView, vertex: u32)
    requires
        vertex_within(s, vertex),
    ensures
        0 <= offset_of(s.sets, vertex),
        offset_of(s.sets, vertex) + SET_BYTES <= s.bytes.len(),
{
    let stride = (s.sets * SET_BYTES) as int;
    let len = s.bytes.len() as int;
    let n = len / stride;
    assert(stride >= 32) by (nonlinear_arith)
        requires
            stride == s.sets * 32,
            s.sets >= 1,
    ;
    assert(n * stride <= len) by (nonlinear_arith)
        requires
            stride > 0,
            len >= 0,
            n == len / stride,
    ;
    assert((vertex + 1) * stride <= n * stride) by (nonlinear_arith)
        requires
            vertex + 1 <= n,
            stride > 0,
    ;
    assert((vertex + 1) * stride == vertex * stride + stride) by (nonlinear_arith);
    assert(0 <= vertex * stride) by (nonlinear_arith)
        requires
            stride > 0,
    ;
}

/// The four bytes of a number spell it.
pub proof fn lemma_word_round_trip(x: u8, y: u8, z: u8, w: u8)
    ensures
        bytes_of((x + y * 0x100 + z * 0x1_0000 + w * 0x100_0000) as u32) == seq![x, y, z, w],
{
    let n = x + y * 0x100 + z * 0x1_0000 + w * 0x100_0000;
    assert(0 <= n < 0x1_0000_0000);
    let m = n as u32;
    assert(m % 0x100 == x);
    assert(m / 0x100 % 0x100 == y);
    assert(m / 0x1_0000 % 0x100 == z);
    assert(m / 0x100_0000 == w);
    assert(bytes_of(m) =~= seq![x, y, z, w]);
}

proof fn lemma_word_at(bytes: Seq<u8>, p: int)
    requires
        0 <= p,
        p + 4 <= bytes.len(),
    ensures
        bytes_of(word_at(bytes, p)) == bytes.subrange(p, p + 4),
{
    lemma_word_round_trip(bytes[p], bytes[p + 1], bytes[p + 2], bytes[p + 3]);
    assert(bytes.subrange(p, p + 4) =~= seq![bytes[p], bytes[p + 1], bytes[p + 2], bytes[p + 3]]);
}

proof fn lemma_joined(bytes: Seq<u8>, p: int, q: int, r: int)
    requires
        0 <= p <= q <= r <= bytes.len(),
    ensures
        bytes.subrange(p, q) + bytes.subrange(q, r) == bytes.subrange(p, r),
{
    assert(bytes.subrange(p, q) + bytes.subrange(q, r) =~= bytes.subrange(p, r));
}

#[verifier::spinoff_prover]
proof fn lemma_entry_round_trip(s: SkinView, vertex: u32)
    requires
        vertex_within(s, vertex),
    ensures
        entry_bytes(entry_at(s, vertex)) == s.bytes.subrange(
            offset_of(s.sets, vertex),
            offset_of(s.sets, vertex) + SET_BYTES,
        ),
{
    lemma_offset(s, vertex);
    lemma_block(s.bytes, offset_of(s.sets, vertex));
}

/// The bytes of one set of influences.
spec fn block_bytes(b: Seq<u8>, p: int) -> Seq<u8> {
    bytes_of(word_at(b, p)) + bytes_of(word_at(b, p + 4)) + bytes_of(word_at(b, p + 8)) + bytes_of(
        word_at(b, p + 12),
    ) + bytes_of(word_at(b, p + 16)) + bytes_of(word_at(b, p + 20)) + bytes_of(word_at(b, p + 24))
        + bytes_of(word_at(b, p + 28))
}

proof fn lemma_block(b: Seq<u8>, p: int)
    requires
        0 <= p,
        p + 32 <= b.len(),
    ensures
        block_bytes(b, p) == b.subrange(p, p + 32),
{
    lemma_word_at(b, p);
    lemma_word_at(b, p + 4);
    lemma_word_at(b, p + 8);
    lemma_word_at(b, p + 12);
    lemma_word_at(b, p + 16);
    lemma_word_at(b, p + 20);
    lemma_word_at(b, p + 24);
    lemma_word_at(b, p + 28);
    lemma_joined(b, p, p + 4, p + 8);
    lemma_joined(b, p, p + 8, p + 12);
    lemma_joined(b, p, p + 12, p + 16);
    lemma_joined(b, p, p + 16, p + 20);
    lemma_joined(b, p, p + 20, p + 24);
    lemma_joined(b, p, p + 24, p + 28);
    lemma_joined(b, p, p + 28, p + 32);
}

proof fn lemma_entry_bytes_len(e: SkinWeightEntry)
    ensures
        entry_bytes(e).len() == 32,
{
}

proof fn lemma_reweighted_len(s: SkinView, entries: Seq<SkinWeightEntry>)
    ensures
        reweighted(s, entries).len() == s.bytes.len(),
    decreases entries.len(),
{
    if entries.len() > 0 {
        lemma_reweighted_len(s, entries.drop_last());
    }
}

/// Whether a byte belongs to a vertex that an entry names.
spec fn touched(s: SkinView, entries: Seq<SkinWeightEntry>, i: int) -> bool {
    exists|k: int|
        0 <= k < entries.len() && vertex_within(s, (#[trigger] entries[k]).vertex) && offset_of(
            s.sets,
            entries[k].vertex,
        ) <= i < offset_of(s.sets, entries[k].vertex) + SET_BYTES
}

proof fn lemma_untouched(s: SkinView, entries: Seq<SkinWeightEntry>, i: int)
    requires
        0 <= i < s.bytes.len(),
        !touched(s, entries, i),
    ensures
        reweighted(s, entries)[i] == s.bytes[i],
    decreases entries.len(),
{
    lemma_reweighted_len(s, entries);
    if entries.len() > 0 {
        let rest = entries.drop_last();
        lemma_reweighted_len(s, rest);
        if touched(s, rest, i) {
            let k = choose|k: int|
                0 <= k < rest.len() && vertex_within(s, (#[trigger] rest[k]).vertex) && offset_of(
                    s.sets,
                    rest[k].vertex,
                ) <= i < offset_of(s.sets, rest[k].vertex) + SET_BYTES;
            assert(entries[k] == rest[k]);
            assert(false);
        }
        lemma_untouched(s, rest, i);
        lemma_entry_bytes_len(entries.last());
        let e = entries[entries.len() - 1];
        assert(e == entries.last());
    }
}

proof fn lemma_last_restores(
    s: SkinView,
    t: SkinView,
    rest: Seq<SkinWeightEntry>,
    e: SkinWeightEntry,
    i: int,
)
    requires
        s.sets == t.sets,
        s.bytes.len() == t.bytes.len(),
        vertex_within(s, e.vertex),
        e == entry_at(t, e.vertex),
        offset_of(s.sets, e.vertex) <= i < offset_of(s.sets, e.vertex) + 32,
        0 <= i < s.bytes.len(),
    ensures
        reweighted(s, rest.push(e))[i] == t.bytes[i],
{
    let p = offset_of(s.sets, e.vertex);
    let entries = rest.push(e);
    assert(entries.drop_last() =~= rest);
    lemma_reweighted_len(s, rest);
    lemma_entry_bytes_len(e);
    lemma_entry_round_trip(t, e.vertex);
    lemma_offset(t, e.vertex);
    assert(entry_bytes(e)[i - p] == t.bytes.subrange(p, p + 32)[i - p]);
}

/// Writing entries that hold what another stream of the same shape has puts that
/// stream's bytes at every vertex they name.
#[verifier::spinoff_prover]
proof fn lemma_restores(
    s: SkinView,
    t: SkinView,
    entries: Seq<SkinWeightEntry>,
    i: int,
)
    requires
        s.sets == t.sets,
        s.bytes.len() == t.bytes.len(),
        forall|k: int|
            0 <= k < entries.len() && vertex_within(s, (#[trigger] entries[k]).vertex)
                ==> entries[k] == entry_at(t, entries[k].vertex),
        0 <= i < s.bytes.len(),
        touched(s, entries, i),
    ensures
        reweighted(s, entries)[i] == t.bytes[i],
    decreases entries.len(),
{
    lemma_reweighted_len(s, entries);
    let rest = entries.drop_last();
    let e = entries[entries.len() - 1];
    assert(e == entries.last());
    lemma_reweighted_len(s, rest);
    lemma_entry_bytes_len(e);
    assert forall|k: int|
        0 <= k < rest.len() && vertex_within(s, (#[trigger] rest[k]).vertex) implies rest[k]
        == entry_at(t, rest[k].vertex) by {
        assert(entries[k] == rest[k]);
    }
    let p = offset_of(s.sets, e.vertex);
    if vertex_within(s, e.vertex) && p <= i < p + 32 {
        lemma_last_restores(s, t, rest, e, i);
        assert(rest.push(e) =~= entries);
    } else {
        let k = choose|k: int|
            0 <= k < entries.len() && vertex_within(s, (#[trigger] entries[k]).vertex)
                && offset_of(s.sets, entries[k].vertex) <= i < offset_of(
                s.sets,
                entries[k].vertex,
            ) + SET_BYTES;
        assert(k < rest.len());
        assert(rest[k] == entries[k]);
        assert(touched(s, rest, i));
        lemma_restores(s, t, rest, i);
    }
}

proof fn lemma_former(s: SkinView, entries: Seq<SkinWeightEntry>)
    ensures
        forall|k: int|
            0 <= k < former_entries(s, entries).len() ==> vertex_within(
                s,
                (#[trigger] former_entries(s, entries)[k]).vertex,
            ) && former_entries(s, entries)[k] == entry_at(s, former_entries(s, entries)[k].vertex),
        forall|k: int|
            0 <= k < entries.len() && vertex_within(s, (#[trigger] entries[k]).vertex)
                ==> exists|j: int|
                0 <= j < former_entries(s, entries).len() && (#[trigger] former_entries(
                    s,
                    entries,
                )[j]).vertex == entries[k].vertex,
    decreases entries.len(),
{
    if entries.len() > 0 {
        let rest = entries.drop_last();
        lemma_former(s, rest);
        let all = former_entries(s, entries);
        let some = former_entries(s, rest);
        assert forall|k: int|
            0 <= k < entries.len() && vertex_within(s, (#[trigger] entries[k]).vertex) implies exists|
            j: int,
        |
            0 <= j < all.len() && (#[trigger] all[j]).vertex == entries[k].vertex by {
            if k < rest.len() {
                assert(rest[k] == entries[k]);
                let j = choose|j: int|
                    0 <= j < some.len() && (#[trigger] some[j]).vertex == rest[k].vertex;
                assert(all[j] == some[j]);
            } else {
                assert(entries[k] == entries.last());
                assert(all[all.len() - 1].vertex == entries[k].vertex);
            }
        }
    }
}

/// Writing back what was replaced restores every byte.
pub proof fn law_weights_are_restored(
    s: SkinView,
    entries: Seq<SkinWeightEntry>,
    after: SkinView,
)
    requires
        after.sets == s.sets,
        after.bytes == reweighted(s, entries),
    ensures
        reweighted(after, former_entries(s, entries)) == s.bytes,
{
    let back = former_entries(s, entries);
    lemma_reweighted_len(s, entries);
    lemma_reweighted_len(after, back);
    lemma_former(s, entries);
    assert forall|i: int| 0 <= i < s.bytes.len() implies reweighted(after, back)[i]
        == s.bytes[i] by {
        if touched(after, back, i) {
            lemma_restores(after, s, back, i);
        } else {
            lemma_untouched(after, back, i);
            if touched(s, entries, i) {
                let k = choose|k: int|
                    0 <= k < entries.len() && vertex_within(s, (#[trigger] entries[k]).vertex)
                        && offset_of(s.sets, entries[k].vertex) <= i < offset_of(
                        s.sets,
                        entries[k].vertex,
                    ) + SET_BYTES;
                let j = choose|j: int|
                    0 <= j < back.len() && (#[trigger] back[j]).vertex == entries[k].vertex;
                assert(vertex_within(after, back[j].vertex));
                assert(touched(after, back, i));
            }
            lemma_untouched(s, entries, i);
        }
    }
    assert(reweighted(after, back) =~= s.bytes);
}

/// What is written back is all within the stream.
pub proof fn lemma_former_again(s: SkinView, entries: Seq<SkinWeightEntry>, after: SkinView)
    requires
        after.sets == s.sets,
        after.bytes == reweighted(s, entries),
    ensures
        former_entries(after, former_entries(s, entries)).len() == former_entries(s, entries).len(),
{
    lemma_reweighted_len(s, entries);
    lemma_former(s, entries);
    lemma_all_within(after, former_entries(s, entries));
}

proof fn lemma_all_within(s: SkinView, entries: Seq<SkinWeightEntry>)
    requires
        forall|k: int|
            0 <= k < entries.len() ==> vertex_within(s, (#[trigger] entries[k]).vertex),
    ensures
        former_entries(s, entries).len() == entries.len(),
    decreases entries.len(),
{
    if entries.len() > 0 {
        assert(entries.last() == entries[entries.len() - 1]);
        assert forall|k: int| 0 <= k < entries.drop_last().len() implies vertex_within(
            s,
            (#[trigger] entries.drop_last()[k]).vertex,
        ) by {
            assert(entries.drop_last()[k] == entries[k]);
        }
        lemma_all_within(s, entries.drop_last());
    }
}

fn read_word(bytes: &List<u8>, p: usize) -> (r: u32)
    requires
        p + 4 <= bytes@.len(),
    ensures
        r == word_at(bytes@, p as int),
{
    let len: usize = bytes.len();
    assert(p + 4 <= len);
    let a: u32 = *bytes.at(p) as u32;
    let b: u32 = *bytes.at(p + 1) as u32;
    let c: u32 = *bytes.at(p + 2) as u32;
    let d: u32 = *bytes.at(p + 3) as u32;
    a + b * 0x100 + c * 0x1_0000 + d * 0x100_0000
}

fn read_influence(bytes: &List<u8>, p: usize) -> (r: Influence)
    requires
        p + 8 <= bytes@.len(),
    ensures
        r == influence_at(bytes@, p as int),
{
    let len: usize = bytes.len();
    assert(p + 8 <= len);
    Influence { joint: read_word(bytes, p), weight: F32 { bits: read_word(bytes, p + 4) } }
}

impl SkinStream {
    /// Where the first set of a vertex starts, where the stream has the vertex.
    fn place(&self, vertex: u32) -> (r: Option<usize>)
        ensures
            match r {
                Some(p) => vertex_within(self@, vertex) && p == offset_of(self.sets, vertex) && p
                    + SET_BYTES <= self.bytes@.len(),
                None => !vertex_within(self@, vertex),
            },
    {
        if self.sets == 0 {
            return None;
        }
        let len: u128 = self.bytes.len() as u128;
        let sets: u128 = self.sets as u128;
        assert(sets * 32 <= u64::MAX * 32);
        let stride: u128 = sets * 32;
        let v: u128 = vertex as u128;
        if v < len / stride {
            proof {
                assert(vertex_within(self@, vertex));
                lemma_offset(self@, vertex);
                assert(v * stride == offset_of(self.sets, vertex));
            }
            let p: u128 = v * stride;
            Some(p as usize)
        } else {
            None
        }
    }

    /// How many vertices the stream has.
    pub fn vertices(&self) -> (n: usize)
        ensures
            n == vertex_count(self.sets, self.bytes@.len()),
    {
        if self.sets == 0 {
            return 0;
        }
        let len: u128 = self.bytes.len() as u128;
        let sets: u128 = self.sets as u128;
        assert(sets * 32 <= u64::MAX * 32);
        let stride: u128 = sets * 32;
        assert(len / stride <= len) by (nonlinear_arith)
            requires
                stride > 0,
        ;
        (len / stride) as usize
    }

    /// The first set of influences of a vertex.
    pub fn entry(&self, vertex: u32) -> (r: Option<SkinWeightEntry>)
        ensures
            match r {
                Some(e) => vertex_within(self@, vertex) && e == entry_at(self@, vertex),
                None => !vertex_within(self@, vertex),
            },
    {
        let len: usize = self.bytes.len();
        match self.place(vertex) {
            Some(p) => Some(
                SkinWeightEntry {
                    vertex,
                    a: read_influence(&self.bytes, p),
                    b: read_influence(&self.bytes, p + 8),
                    c: read_influence(&self.bytes, p + 16),
                    d: read_influence(&self.bytes, p + 24),
                },
            ),
            None => None,
        }
    }

    /// Writes entries into the stream and hands back what they replace.
    pub fn set_weights(&mut self, entries: &List<SkinWeightEntry>) -> (r: List<SkinWeightEntry>)
        ensures
            final(self)@ == (SkinView { bytes: reweighted(old(self)@, entries@), ..old(self)@ }),
            r@ == former_entries(old(self)@, entries@),
    {
        let mut bytes = self.bytes.to_vec();
        let mut former: Vec<SkinWeightEntry> = Vec::new();
        let mut i: usize = 0;
        let ghost s = self@;
        while i < entries.len()
            invariant
                self@ == s,
                i <= entries@.len(),
                bytes@.len() == s.bytes.len(),
                bytes@ == reweighted(s, entries@.take(i as int)),
                former@ == former_entries(s, entries@.take(i as int)),
            decreases entries@.len() - i,
        {
            let e: SkinWeightEntry = *entries.at(i);
            assert(entries@.take(i + 1).drop_last() =~= entries@.take(i as int));
            assert(entries@.take(i + 1).last() == e);
            if let Some(p) = self.place(e.vertex) {
                if let Some(was) = self.entry(e.vertex) {
                    former.push(was);
                }
                let ghost before = bytes@;
                write_entry(&mut bytes, p, e);
                assert(bytes@ =~= overwritten(before, p as int, entry_bytes(e)));
            }
            i += 1;
        }
        assert(entries@.take(i as int) =~= entries@);
        self.bytes = List::from_vec(bytes);
        List::from_vec(former)
    }
}

fn write_word(bytes: &mut Vec<u8>, p: usize, n: u32)
    requires
        p + 4 <= old(bytes)@.len(),
    ensures
        final(bytes)@ == overwritten(old(bytes)@, p as int, bytes_of(n)),
{
    let len: usize = bytes.len();
    assert(p + 4 <= len);
    let ghost before = bytes@;
    bytes.set(p, (n % 0x100) as u8);
    bytes.set(p + 1, (n / 0x100 % 0x100) as u8);
    bytes.set(p + 2, (n / 0x1_0000 % 0x100) as u8);
    bytes.set(p + 3, (n / 0x100_0000) as u8);
    assert(bytes@ =~= overwritten(before, p as int, bytes_of(n)));
}

fn write_entry(bytes: &mut Vec<u8>, p: usize, e: SkinWeightEntry)
    requires
        p + 32 <= old(bytes)@.len(),
    ensures
        final(bytes)@ == overwritten(old(bytes)@, p as int, entry_bytes(e)),
{
    let len: usize = bytes.len();
    assert(p + 32 <= len);
    let ghost b = bytes@;
    write_word(bytes, p, e.a.joint);
    write_word(bytes, p + 4, e.a.weight.bits);
    write_word(bytes, p + 8, e.b.joint);
    write_word(bytes, p + 12, e.b.weight.bits);
    write_word(bytes, p + 16, e.c.joint);
    write_word(bytes, p + 20, e.c.weight.bits);
    write_word(bytes, p + 24, e.d.joint);
    write_word(bytes, p + 28, e.d.weight.bits);
    assert(bytes@ =~= overwritten(b, p as int, entry_bytes(e)));
}

} // verus!
