//! Identities. Every node, asset and material variant is known by a 128-bit
//! UUID that its creator minted.
use crate::list::Same;
use crate::text::digit_char;
use vstd::prelude::*;

verus! {

#[derive(Clone, Copy, PartialEq, Eq, Structural, Debug)]
pub struct NodeId(pub u128);

#[derive(Clone, Copy, PartialEq, Eq, Structural, Debug)]
pub struct AssetId(pub u128);

#[derive(Clone, Copy, PartialEq, Eq, Structural, Debug)]
pub struct VariantId(pub u128);

impl Same for NodeId {
    fn same(&self) -> (res: Self) {
        *self
    }
}

impl Same for AssetId {
    fn same(&self) -> (res: Self) {
        *self
    }
}

/// Sixteen to the power `k`.
pub open spec fn pow16(k: nat) -> nat
    decreases k,
{
    if k == 0 {
        1
    } else {
        16 * pow16((k - 1) as nat)
    }
}

/// Whether the written form of a UUID has a hyphen at position `i`.
pub open spec fn hyphen_at(i: int) -> bool {
    i == 8 || i == 13 || i == 18 || i == 23
}

/// How many hyphens stand before position `i`.
pub open spec fn hyphens_before(i: int) -> int {
    if i <= 8 {
        0
    } else if i <= 13 {
        1
    } else if i <= 18 {
        2
    } else if i <= 23 {
        3
    } else {
        4
    }
}

/// The written form of an id: 32 lower-case hexadecimal digits, the most
/// significant first, in groups of 8, 4, 4, 4 and 12 with hyphens between.
pub open spec fn hyphenated(id: u128) -> Seq<char> {
    Seq::new(
        36,
        |i: int|
            if hyphen_at(i) {
                '-'
            } else {
                digit_char(
                    ((id as nat / pow16((31 - (i - hyphens_before(i))) as nat)) % 16) as int,
                )
            },
    )
}

/// `Uuid::from_u128` and its `Display`: the hyphenated, lower-case form.
#[verifier::external_body]
pub(crate) fn id_text(id: u128) -> (r: String)
    ensures
        r@ == hyphenated(id),
{
    uuid::Uuid::from_u128(id).to_string()
}

/// What `Uuid::parse_str` reads from a text, as a 128-bit number.
pub uninterp spec fn parsed_id(s: Seq<char>) -> Option<u128>;

/// `Uuid::parse_str` and `Uuid::as_u128`: the id that a text writes, in the
/// hyphenated form or in one of the other forms that the crate reads. It is
/// stated that the hyphenated form of an id reads back as that id; which other
/// texts are read is not.
#[verifier::external_body]
pub(crate) fn parse_id(s: &str) -> (r: Option<u128>)
    ensures
        r == parsed_id(s@),
        forall|id: u128| s@ == #[trigger] hyphenated(id) ==> r == Some(id),
{
    match uuid::Uuid::parse_str(s) {
        Ok(u) => Some(u.as_u128()),
        Err(_) => None,
    }
}

/// The salt that tells a snapshot's id from the id of its mesh.
pub const SNAPSHOT_SALT: u128 = 0x9E37_79B9_7F4A_7C15_F39C_C060_5CED_C835;

/// The id under which the frozen geometry of a collapsed mesh is kept, apart
/// from the mesh's own id, which names what is rendered.
pub open spec fn snapshot_id(mesh: AssetId) -> AssetId {
    AssetId(mesh.0 ^ SNAPSHOT_SALT)
}

/// The id of the frozen snapshot of `mesh`. It is never `mesh` itself, no other
/// mesh has it, and it is the same at every call.
pub fn captured_snapshot_id(mesh: AssetId) -> (r: AssetId)
    ensures
        r == snapshot_id(mesh),
        r != mesh,
{
    let id: u128 = mesh.0;
    assert(id ^ SNAPSHOT_SALT != id) by (bit_vector);
    AssetId(mesh.0 ^ SNAPSHOT_SALT)
}

/// Two meshes never share a snapshot id, and the snapshot of a snapshot is the
/// mesh again.
pub proof fn law_snapshot_ids_are_distinct(a: AssetId, b: AssetId)
    ensures
        snapshot_id(a) != a,
        snapshot_id(snapshot_id(a)) == a,
        snapshot_id(a) == snapshot_id(b) ==> a == b,
{
    let x: u128 = a.0;
    let y: u128 = b.0;
    assert(x ^ SNAPSHOT_SALT != x) by (bit_vector);
    assert((x ^ SNAPSHOT_SALT) ^ SNAPSHOT_SALT == x) by (bit_vector);
    assert((x ^ SNAPSHOT_SALT) == (y ^ SNAPSHOT_SALT) ==> x == y) by (bit_vector);
}

/// The two low bytes of `a`, then those of `b`, each pair with its low byte
/// first, at the top of a 128-bit number.
pub open spec fn packed_mask(a: u64, b: u64) -> u128 {
    (((a & 0xff) as u128) << 120) | ((((a >> 8) & 0xff) as u128) << 112) | (((b & 0xff) as u128)
        << 104) | ((((b >> 8) & 0xff) as u128) << 96)
}

/// Folds two small indices into an asset id, for use as the identity of a part
/// of that asset.
pub fn pack(asset: AssetId, a: u64, b: u64) -> (r: NodeId)
    ensures
        r == NodeId(asset.0 ^ packed_mask(a, b)),
{
    let mask: u128 = (((a & 0xff) as u128) << 120) | ((((a >> 8) & 0xff) as u128) << 112) | (((b
        & 0xff) as u128) << 104) | ((((b >> 8) & 0xff) as u128) << 96);
    NodeId(asset.0 ^ mask)
}

/// Parts of one asset whose indices fit in two bytes have different identities.
pub proof fn law_pack_tells_parts_apart(asset: AssetId, a: u64, b: u64, c: u64, d: u64)
    requires
        a <= 0xffff,
        b <= 0xffff,
        c <= 0xffff,
        d <= 0xffff,
        NodeId(asset.0 ^ packed_mask(a, b)) == NodeId(asset.0 ^ packed_mask(c, d)),
    ensures
        a == c,
        b == d,
{
    let x: u128 = asset.0;
    let m: u128 = packed_mask(a, b);
    let n: u128 = packed_mask(c, d);
    assert(x ^ m == x ^ n ==> m == n) by (bit_vector);
    assert(((((a & 0xff) as u128) << 120) | ((((a >> 8) & 0xff) as u128) << 112) | (((b & 0xff)
        as u128) << 104) | ((((b >> 8) & 0xff) as u128) << 96)) == ((((c & 0xff) as u128) << 120)
        | ((((c >> 8) & 0xff) as u128) << 112) | (((d & 0xff) as u128) << 104) | ((((d >> 8)
        & 0xff) as u128) << 96)) ==> a == c && b == d) by (bit_vector)
        requires
            a <= 0xffff,
            b <= 0xffff,
            c <= 0xffff,
            d <= 0xffff,
    ;
}

} // verus!
