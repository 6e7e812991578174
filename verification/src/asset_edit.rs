//! Edits of the asset table: adding, deleting and restoring assets, storing
//! content under its hash, and removing what nothing uses.
use crate::assets::{
    content_hash, default_procedural, file_name_of, procedural_default, sha256_of, stem_of,
    texture_file_name, url_file, word_bytes, words_to_bytes, AssetEntry, AssetSource,
    CapturedSource, MeshData, MeshDef, ModifierStack, ProceduralKind, TextureDef, TextureExport,
    VertexOverrides,
};
use crate::buffer_cache::{store, BufferCache};
use crate::errors::EditorError;
use crate::ids::{AssetId, NodeId};
use crate::list::{List, Same};
use crate::material::MaterialShading;
use crate::mesh_edit::{MeshStore, StoreView};
use crate::palette::MaterialDef;
use crate::reachable::{in_use, reachable_assets, Json};
use crate::table::Table;
use crate::text::{decimal, decimal_text, hex, joined3, same_text};
use crate::timeline::next_number;
use crate::values::Vec4;
use vstd::prelude::*;

verus! {

/// Edits of the asset table.
#[allow(inconsistent_fields)]
pub enum AssetCommand {
    AddMaterialAsset { id: AssetId, shading: MaterialShading },
    AddTextureAsset { id: AssetId, procedural: ProceduralKind },
    DeleteAsset { id: AssetId },
    RestoreAsset { id: AssetId, entry: AssetEntry },
    SetTextureExport { id: AssetId, export: Option<TextureExport> },
    /// A picture that was fetched: where from, the extension that its format
    /// has, and its bytes.
    ImportTextureFromUrl { id: AssetId, url: String, ext: String, bytes: Vec<u8> },
    /// An environment that was fetched and found to be one.
    ImportKtxEnvFromUrl { id: AssetId, url: String },
}

/// The ids of the material assets.
pub open spec fn material_assets(assets: Map<u128, AssetEntry>) -> Set<u128> {
    assets.dom().filter(|k: u128| assets[k].source is Material)
}

/// The label of the next asset of a kind, counted by the material assets.
pub open spec fn next_label(assets: Map<u128, AssetEntry>, kind: Seq<char>) -> Seq<char> {
    kind + " "@ + decimal(next_number(material_assets(assets).len()))
}

spec fn counted(row: Seq<u128>, assets: Map<u128, AssetEntry>) -> nat
    decreases row.len(),
{
    if row.len() == 0 {
        0
    } else {
        counted(row.drop_last(), assets) + if assets[row.last()].source is Material {
            1nat
        } else {
            0nat
        }
    }
}

proof fn lemma_counted(row: Seq<u128>, assets: Map<u128, AssetEntry>)
    requires
        row.no_duplicates(),
    ensures
        row.to_set().filter(|k: u128| assets[k].source is Material).finite(),
        row.to_set().filter(|k: u128| assets[k].source is Material).len() == counted(row, assets),
    decreases row.len(),
{
    let p = |k: u128| assets[k].source is Material;
    vstd::seq_lib::seq_to_set_is_finite(row);
    if row.len() == 0 {
        assert(row.to_set().filter(p) =~= Set::empty());
    } else {
        let rest = row.drop_last();
        let last = row.last();
        assert(rest.no_duplicates());
        lemma_counted(rest, assets);
        assert(!rest.to_set().contains(last)) by {
            if rest.to_set().contains(last) {
                let i = choose|i: int| 0 <= i < rest.len() && rest[i] == last;
                assert(row[i] == row[row.len() - 1]);
            }
        }
        assert(row.to_set() =~= rest.to_set().insert(last)) by {
            assert forall|k: u128| row.to_set().contains(k) implies rest.to_set().insert(
                last,
            ).contains(k) by {
                let i = choose|i: int| 0 <= i < row.len() && row[i] == k;
                if i < row.len() - 1 {
                    assert(rest[i] == k);
                    assert(rest.contains(k));
                }
            }
            assert forall|k: u128| rest.to_set().insert(last).contains(
                k,
            ) implies row.to_set().contains(k) by {
                if k == last {
                    assert(row[row.len() - 1] == k);
                    assert(row.contains(k));
                } else {
                    let i = choose|i: int| 0 <= i < rest.len() && rest[i] == k;
                    assert(row[i] == k);
                    assert(row.contains(k));
                }
            }
        }
        if p(last) {
            assert(row.to_set().filter(p) =~= rest.to_set().filter(p).insert(last));
        } else {
            assert(row.to_set().filter(p) =~= rest.to_set().filter(p));
        }
    }
}

/// A fresh label for an asset.
pub fn next_asset_label(assets: &Table<AssetEntry>, kind: &str) -> (r: String)
    ensures
        r@ == next_label(assets@, kind@),
{
    let row = assets.keys();
    let mut n: usize = 0;
    let mut i: usize = 0;
    while i < row.len()
        invariant
            i <= row@.len(),
            n <= i,
            n == counted(row@.take(i as int), assets@),
            forall|k: u128| row@.contains(k) == #[trigger] assets@.dom().contains(k),
        decreases row@.len() - i,
    {
        assert(row@.take(i + 1).drop_last() =~= row@.take(i as int));
        assert(row@.take(i + 1).last() == row@[i as int]);
        assert(row@.contains(row@[i as int]));
        assert(assets@.dom().contains(row@[i as int]));
        let is_material = match assets.get(row[i]) {
            Some(e) => match e.source {
                AssetSource::Material(_) => true,
                _ => false,
            },
            None => false,
        };
        if is_material {
            n += 1;
        }
        i += 1;
    }
    proof {
        assert(row@.take(i as int) =~= row@);
        lemma_counted(row@, assets@);
        assert(row@.to_set() =~= assets@.dom()) by {
            assert forall|k: u128| row@.to_set().contains(k) == assets@.dom().contains(k) by {
                assert(row@.contains(k) == assets@.dom().contains(k));
            }
        }
    }
    let n: u64 = n as u64;
    let next: u64 = if n == u64::MAX {
        u64::MAX
    } else {
        n + 1
    };
    joined3(kind, " ", &decimal_text(next))
}

/// The name under which a fetched picture is kept.
pub open spec fn texture_name(url: Seq<char>, ext: Seq<char>) -> Seq<char> {
    stem_of(url_file(url, "texture"@)) + "."@ + ext
}

/// Whether an asset is what an import or an addition puts in the table.
pub open spec fn adds(cmd: AssetCommand, assets: Map<u128, AssetEntry>, e: AssetEntry) -> bool {
    match cmd {
        AssetCommand::AddMaterialAsset { shading, .. } => match e.source {
            AssetSource::Material(d) => e.is_plain(e.source, seq![]) && d.is_plain(shading)
                && d.label@ == next_label(assets, "Material"@),
            _ => false,
        },
        AssetCommand::AddTextureAsset { procedural, .. } => e.is_plain(
            AssetSource::Texture(TextureDef::Procedural(procedural_default(procedural))),
            seq![],
        ),
        AssetCommand::ImportTextureFromUrl { url, ext, bytes, .. } => match e.source {
            AssetSource::Texture(TextureDef::Raster { display_name, color_kind }) => e.is_plain(
                e.source,
                hex(sha256_of(bytes@)),
            ) && display_name@ == texture_name(url@, ext@) && color_kind is None,
            _ => false,
        },
        AssetCommand::ImportKtxEnvFromUrl { url, .. } => match e.source {
            AssetSource::Filename(name) => e.is_plain(e.source, seq![]) && name@ == url_file(
                url@,
                "env.ktx2"@,
            ),
            _ => false,
        },
        _ => false,
    }
}

/// The id of an asset that a command adds, where it adds one; whether it is then
/// selected.
pub open spec fn added_id(cmd: AssetCommand) -> Option<(AssetId, bool)> {
    match cmd {
        AssetCommand::AddMaterialAsset { id, .. } => Some((id, true)),
        AssetCommand::AddTextureAsset { id, .. } => Some((id, true)),
        AssetCommand::ImportTextureFromUrl { id, .. } => Some((id, true)),
        AssetCommand::ImportKtxEnvFromUrl { id, .. } => Some((id, false)),
        _ => None,
    }
}

/// An edit of the asset table: what it leaves of the table and of the selected
/// asset, and what it hands back. An id that is taken is left alone.
pub open spec fn asset_step(
    a: Map<u128, AssetEntry>,
    sel: Option<AssetId>,
    cmd: AssetCommand,
    a2: Map<u128, AssetEntry>,
    sel2: Option<AssetId>,
    r: Result<Option<AssetCommand>, EditorError>,
) -> bool {
    let same = a2 == a && sel2 == sel;
    match added_id(cmd) {
        Some((id, select)) => if a.contains_key(id.0) {
            same && r == Ok::<Option<AssetCommand>, EditorError>(None)
        } else {
            &&& a2 == a.insert(id.0, a2[id.0])
            &&& adds(cmd, a, a2[id.0])
            &&& sel2 == if select {
                Some(id)
            } else {
                sel
            }
            &&& r == Ok::<Option<AssetCommand>, EditorError>(
                Some(AssetCommand::DeleteAsset { id }),
            )
        },
        None => match cmd {
            AssetCommand::DeleteAsset { id } => if a.contains_key(id.0) {
                &&& a2 == a.remove(id.0)
                &&& sel2 == if sel == Some(id) {
                    None
                } else {
                    sel
                }
                &&& r == Ok::<Option<AssetCommand>, EditorError>(
                    Some(AssetCommand::RestoreAsset { id, entry: a[id.0] }),
                )
            } else {
                same && r == Err::<Option<AssetCommand>, EditorError>(EditorError::TargetNotFound)
            },
            AssetCommand::RestoreAsset { id, entry } => {
                &&& a2 == a.insert(id.0, entry)
                &&& sel2 == sel
                &&& r == Ok::<Option<AssetCommand>, EditorError>(
                    Some(AssetCommand::DeleteAsset { id }),
                )
            },
            AssetCommand::SetTextureExport { id, export } => if !a.contains_key(id.0) {
                same && r == Err::<Option<AssetCommand>, EditorError>(EditorError::TargetNotFound)
            } else if a[id.0].texture_export == export {
                same && r == Ok::<Option<AssetCommand>, EditorError>(None)
            } else {
                &&& a2 == a.insert(id.0, AssetEntry { texture_export: export, ..a[id.0] })
                &&& sel2 == sel
                &&& r == Ok::<Option<AssetCommand>, EditorError>(
                    Some(
                        AssetCommand::SetTextureExport { id, export: a[id.0].texture_export },
                    ),
                )
            },
            _ => false,
        },
    }
}

/// Taking back an edit of the asset table restores the table. An asset restored
/// over another one is left out: the other one is gone.
pub proof fn law_asset_edit_is_undone(
    a: Map<u128, AssetEntry>,
    sel: Option<AssetId>,
    cmd: AssetCommand,
    a2: Map<u128, AssetEntry>,
    sel2: Option<AssetId>,
    inv: AssetCommand,
    a3: Map<u128, AssetEntry>,
    sel3: Option<AssetId>,
    r: Result<Option<AssetCommand>, EditorError>,
)
    requires
        asset_step(a, sel, cmd, a2, sel2, Ok(Some(inv))),
        asset_step(a2, sel2, inv, a3, sel3, r),
        cmd matches AssetCommand::RestoreAsset { id, .. } ==> !a.contains_key(id.0),
    ensures
        a3 == a,
        r is Ok,
{
    match cmd {
        AssetCommand::SetTextureExport { id, export } => {
            assert(AssetEntry { texture_export: a[id.0].texture_export, ..a2[id.0] } == a[id.0]);
        },
        _ => {},
    }
    assert(a3 =~= a);
}

fn added_entry(assets: &Table<AssetEntry>, cmd: AssetCommand) -> (r: Option<AssetEntry>)
    ensures
        match r {
            Some(e) => adds(cmd, assets@, e),
            None => added_id(cmd) is None,
        },
{
    match cmd {
        AssetCommand::AddMaterialAsset { id, shading } => {
            let label = next_asset_label(assets, "Material");
            Some(AssetEntry::new(AssetSource::Material(MaterialDef::plain(label, shading))))
        },
        AssetCommand::AddTextureAsset { id, procedural } => {
            let def = TextureDef::Procedural(default_procedural(procedural));
            Some(AssetEntry::new(AssetSource::Texture(def)))
        },
        AssetCommand::ImportTextureFromUrl { id, url, ext, bytes } => {
            let name = texture_file_name(&url, &ext);
            let hash = content_hash(&bytes);
            let def = TextureDef::Raster { display_name: name, color_kind: None };
            Some(AssetEntry::new_with_hash(AssetSource::Texture(def), hash))
        },
        AssetCommand::ImportKtxEnvFromUrl { id, url } => {
            let name = file_name_of(&url, "env.ktx2");
            Some(AssetEntry::new(AssetSource::Filename(name)))
        },
        _ => None,
    }
}

/// Applies an edit of the asset table and hands back what takes it back.
pub fn apply_asset(assets: &mut Table<AssetEntry>, selection: &mut Option<AssetId>, cmd: AssetCommand) -> (r:
    Result<Option<AssetCommand>, EditorError>)
    ensures
        asset_step(old(assets)@, *old(selection), cmd, final(assets)@, *final(selection), r),
{
    let target: Option<(AssetId, bool)> = match &cmd {
        AssetCommand::AddMaterialAsset { id, .. } => Some((*id, true)),
        AssetCommand::AddTextureAsset { id, .. } => Some((*id, true)),
        AssetCommand::ImportTextureFromUrl { id, .. } => Some((*id, true)),
        AssetCommand::ImportKtxEnvFromUrl { id, .. } => Some((*id, false)),
        _ => None,
    };
    if let Some((id, select)) = target {
        if assets.contains(id.0) {
            return Ok(None);
        }
        if let Some(e) = added_entry(assets, cmd) {
            assets.insert(id.0, e);
            if select {
                *selection = Some(id);
            }
        }
        return Ok(Some(AssetCommand::DeleteAsset { id }));
    }
    match cmd {
        AssetCommand::DeleteAsset { id } => match assets.remove(id.0) {
            Some(entry) => {
                let chosen = match *selection {
                    Some(s) => s == id,
                    None => false,
                };
                if chosen {
                    *selection = None;
                }
                Ok(Some(AssetCommand::RestoreAsset { id, entry }))
            },
            None => {
                assert(assets@ =~= old(assets)@);
                Err(EditorError::TargetNotFound)
            },
        },
        AssetCommand::RestoreAsset { id, entry } => {
            assets.insert(id.0, entry);
            Ok(Some(AssetCommand::DeleteAsset { id }))
        },
        AssetCommand::SetTextureExport { id, export } => {
            let mut entry = match assets.get(id.0) {
                Some(e) => e.same(),
                None => {
                    return Err(EditorError::TargetNotFound);
                },
            };
            let prev = entry.texture_export;
            if prev == export {
                return Ok(None);
            }
            entry.texture_export = export;
            assets.insert(id.0, entry);
            Ok(Some(AssetCommand::SetTextureExport { id, export: prev }))
        },
        _ => Ok(None),
    }
}

/// Removes every asset that the roots do not use, directly or through other
/// assets. `docs` holds the document of each asset. Hands back the removed
/// entries.
pub fn purge_unused_assets(
    assets: &mut Table<AssetEntry>,
    selection: &mut Option<AssetId>,
    roots: &Vec<Json>,
    docs: &Table<Json>,
) -> (r: Vec<AssetCommand>)
    ensures
        forall|k: u128| #[trigger]
            final(assets)@.contains_key(k) == (old(assets)@.contains_key(k) && in_use(
                roots@,
                docs@,
                k,
            )),
        forall|k: u128|
            final(assets)@.contains_key(k) ==> #[trigger] final(assets)@[k] == old(assets)@[k],
        forall|i: int|
            0 <= i < r@.len() ==> (#[trigger] r@[i] matches AssetCommand::RestoreAsset { id, entry }
                && old(assets)@.contains_key(id.0) && entry == old(assets)@[id.0]
                && !final(assets)@.contains_key(id.0)),
        forall|k: u128|
            old(assets)@.contains_key(k) && !#[trigger] final(assets)@.contains_key(k)
                ==> exists|i: int|
                0 <= i < r@.len() && #[trigger] r@[i] == (AssetCommand::RestoreAsset {
                    id: AssetId(k),
                    entry: old(assets)@[k],
                }),
        *final(selection) == match *old(selection) {
            Some(s) => if old(assets)@.contains_key(s.0) && !in_use(roots@, docs@, s.0) {
                None
            } else {
                Some(s)
            },
            None => None,
        },
{
    let ghost a = assets@;
    let used = reachable_assets(roots, docs);
    let row = assets.keys();
    let mut restores: Vec<AssetCommand> = Vec::new();
    let mut i: usize = 0;
    while i < row.len()
        invariant
            i <= row@.len(),
            row@.no_duplicates(),
            forall|k: u128| row@.contains(k) == #[trigger] a.dom().contains(k),
            forall|k: u128| used@.contains(k) == #[trigger] in_use(roots@, docs@, k),
            forall|k: u128| #[trigger]
                assets@.contains_key(k) == (a.contains_key(k) && (in_use(roots@, docs@, k)
                    || !row@.take(i as int).contains(k))),
            forall|k: u128| assets@.contains_key(k) ==> #[trigger] assets@[k] == a[k],
            forall|j: int|
                0 <= j < restores@.len() ==> (#[trigger] restores@[j] matches
                    AssetCommand::RestoreAsset { id, entry } && a.contains_key(id.0) && entry
                    == a[id.0] && !in_use(roots@, docs@, id.0) && row@.take(i as int).contains(
                    id.0,
                )),
            forall|k: u128|
                a.contains_key(k) && !in_use(roots@, docs@, k) && #[trigger] row@.take(
                    i as int,
                ).contains(k) ==> exists|j: int|
                    0 <= j < restores@.len() && #[trigger] restores@[j] == (
                    AssetCommand::RestoreAsset { id: AssetId(k), entry: a[k] }),
        decreases row@.len() - i,
    {
        let id: u128 = row[i];
        let ghost was = restores@;
        let ghost before = assets@;
        proof {
            assert(row@.contains(id));
            assert(a.dom().contains(id));
            assert(!row@.take(i as int).contains(id)) by {
                if row@.take(i as int).contains(id) {
                    let j = choose|j: int| 0 <= j < i && row@.take(i as int)[j] == id;
                    assert(row@[j] == row@[i as int]);
                }
            }
            assert(row@.take(i + 1) =~= row@.take(i as int).push(id));
            assert forall|k: u128| row@.take(i + 1).contains(k) == (row@.take(i as int).contains(k)
                || k == id) by {
                let t = row@.take(i as int);
                if t.contains(k) {
                    let j = choose|j: int| 0 <= j < t.len() && t[j] == k;
                    assert(t.push(id)[j] == k);
                }
                if k == id {
                    assert(t.push(id)[t.len() as int] == k);
                }
                if t.push(id).contains(k) && k != id {
                    let j = choose|j: int| 0 <= j < t.push(id).len() && t.push(id)[j] == k;
                    assert(t[j] == k);
                }
            }
        }
        let mut keep = false;
        let mut j: usize = 0;
        while j < used.len()
            invariant
                j <= used@.len(),
                keep == exists|q: int| 0 <= q < j && #[trigger] used@[q] == id,
            decreases used@.len() - j,
        {
            if used[j] == id {
                keep = true;
                assert(used@[j as int] == id);
            }
            j += 1;
        }
        assert(keep == used@.contains(id));
        assert(keep == in_use(roots@, docs@, id));
        if !keep {
            if let Some(entry) = assets.remove(id) {
                restores.push(AssetCommand::RestoreAsset { id: AssetId(id), entry });
            }
            assert(restores@[was.len() as int] == (AssetCommand::RestoreAsset {
                id: AssetId(id),
                entry: a[id],
            }));
        }
        proof {
            assert forall|k: u128|
                a.contains_key(k) && !in_use(roots@, docs@, k) && #[trigger] row@.take(
                    i + 1,
                ).contains(k) implies exists|j: int|
                0 <= j < restores@.len() && #[trigger] restores@[j] == (AssetCommand::RestoreAsset {
                    id: AssetId(k),
                    entry: a[k],
                }) by {
                if k != id {
                    assert(row@.take(i as int).contains(k));
                    let q = choose|q: int|
                        0 <= q < was.len() && #[trigger] was[q] == (AssetCommand::RestoreAsset {
                            id: AssetId(k),
                            entry: a[k],
                        });
                    assert(restores@[q] == was[q]);
                }
            }
        }
        i += 1;
    }
    proof {
        assert(row@.take(i as int) =~= row@);
    }
    let gone = match *selection {
        Some(s) => {
            let known = {
                let mut found = false;
                let mut q: usize = 0;
                while q < row.len()
                    invariant
                        q <= row@.len(),
                        found == exists|x: int| 0 <= x < q && #[trigger] row@[x] == s.0,
                    decreases row@.len() - q,
                {
                    if row[q] == s.0 {
                        found = true;
                        assert(row@[q as int] == s.0);
                    }
                    q += 1;
                }
                found
            };
            assert(known == row@.contains(s.0));
            assert(a.dom().contains(s.0) == row@.contains(s.0));
            known && !assets.contains(s.0)
        },
        None => false,
    };
    if gone {
        *selection = None;
    }
    restores
}

/// Whether an asset is buffer content of a hash.
pub open spec fn is_buffer_of(e: AssetEntry, hash: Seq<char>) -> bool {
    e.source is Buffer && e.content_hash@ == hash
}

/// Whether an asset already holds buffer content of a hash.
pub open spec fn buffer_known(a: Map<u128, AssetEntry>, hash: Seq<char>) -> bool {
    exists|k: u128| #[trigger] a.contains_key(k) && is_buffer_of(a[k], hash)
}

/// Whether assets hold the words of a buffer under an id, after those before: the
/// id of an asset with the same content, else the fresh one.
pub open spec fn interned(
    a: Map<u128, AssetEntry>,
    words: Seq<u32>,
    fresh: AssetId,
    a2: Map<u128, AssetEntry>,
    id: AssetId,
) -> bool {
    let hash = hex(sha256_of(word_bytes(words)));
    if buffer_known(a, hash) {
        a2 == a && a.contains_key(id.0) && is_buffer_of(a[id.0], hash)
    } else {
        &&& id == fresh
        &&& a2 == a.insert(id.0, a2[id.0])
        &&& is_buffer_of(a2[id.0], hash)
        &&& words.len() <= u32::MAX ==> a2[id.0].is_plain(
            AssetSource::Buffer { word_len: words.len() as u32 },
            hash,
        )
    }
}

/// Words that were stored are stored once: storing them again adds no asset.
pub proof fn law_same_words_are_one_asset(
    a: Map<u128, AssetEntry>,
    words: Seq<u32>,
    fresh: AssetId,
    b: Map<u128, AssetEntry>,
    id: AssetId,
    again: AssetId,
    c: Map<u128, AssetEntry>,
    id2: AssetId,
)
    requires
        interned(a, words, fresh, b, id),
        interned(b, words, again, c, id2),
    ensures
        c == b,
        b.contains_key(id2.0),
{
    let hash = hex(sha256_of(word_bytes(words)));
    assert(b.contains_key(id.0) && is_buffer_of(b[id.0], hash));
}

/// Stores the words of a buffer under their hash: an asset with the same content
/// is used again, else one is added under the fresh id. The words themselves go
/// to the cache.
pub fn intern_buffer_asset(
    assets: &mut Table<AssetEntry>,
    cache: &mut BufferCache,
    words: List<u32>,
    fresh: AssetId,
) -> (id: AssetId)
    ensures
        interned(old(assets)@, words@, fresh, final(assets)@, id),
        final(cache)@ == old(cache)@.insert(id.0, words@),
{
    let bytes = words_to_bytes(&words);
    let hash = content_hash(&bytes);
    let ghost a = assets@;
    let row = assets.keys();
    let mut found: Option<u128> = None;
    let mut i: usize = 0;
    while i < row.len()
        invariant
            assets@ == a,
            i <= row@.len(),
            forall|k: u128| row@.contains(k) == #[trigger] a.dom().contains(k),
            match found {
                Some(k) => a.contains_key(k) && is_buffer_of(a[k], hash@),
                None => forall|j: int|
                    0 <= j < i ==> !is_buffer_of(a[#[trigger] row@[j]], hash@),
            },
        decreases row@.len() - i,
    {
        assert(row@.contains(row@[i as int]));
        assert(a.dom().contains(row@[i as int]));
        if let Some(e) = assets.get(row[i]) {
            let buffer = match e.source {
                AssetSource::Buffer { .. } => true,
                _ => false,
            };
            if buffer && same_text(&e.content_hash, &hash) {
                found = Some(row[i]);
            }
        }
        i += 1;
    }
    let id = match found {
        Some(k) => AssetId(k),
        None => {
            proof {
                if buffer_known(a, hash@) {
                    let k = choose|k: u128| #[trigger] a.contains_key(k) && is_buffer_of(a[k], hash@);
                    assert(a.dom().contains(k));
                    assert(row@.contains(k));
                    let j = choose|j: int| 0 <= j < row@.len() && row@[j] == k;
                    assert(!is_buffer_of(a[row@[j]], hash@));
                }
            }
            let n: usize = words.len();
            let word_len: u32 = if n <= u32::MAX as usize {
                n as u32
            } else {
                u32::MAX
            };
            assets.insert(
                fresh.0,
                AssetEntry::new_with_hash(AssetSource::Buffer { word_len }, hash),
            );
            fresh
        },
    };
    store(cache, id, words);
    id
}

/// Whether a definition is that of an imported mesh: nothing but its captured
/// geometry.
pub open spec fn is_imported_mesh(
    d: MeshDef,
    id: AssetId,
    label: Seq<char>,
    source: AssetId,
) -> bool {
    &&& d.label@ == label
    &&& d.source == Some(CapturedSource::Imported { source })
    &&& d.editable
    &&& d.stack.is_bare_capture(id)
    &&& d.overrides.blank()
}

/// Registers imported geometry as a mesh asset. Its id is that of the node.
pub fn mint_imported_mesh(
    store: &mut MeshStore,
    node: NodeId,
    label: &str,
    mesh: MeshData,
    tangents: Option<List<Vec4>>,
    source: AssetId,
) -> (id: AssetId)
    ensures
        id == AssetId(node.0),
        final(store)@ == (StoreView {
            assets: old(store)@.assets.insert(id.0, final(store)@.assets[id.0]),
            geometry: old(store)@.geometry.insert(id.0, MeshData { tangents, ..mesh }),
        }),
        ({
            let e = final(store)@.assets[id.0];
            e.is_plain(e.source, seq![]) && match e.source {
                AssetSource::Mesh(d) => is_imported_mesh(d, id, label@, source),
                _ => false,
            }
        }),
{
    let id = AssetId(node.0);
    let mut captured = mesh;
    captured.tangents = tangents;
    store.geometry.insert(id.0, captured);
    let def = MeshDef {
        label: label.to_owned(),
        source: Some(CapturedSource::Imported { source }),
        editable: true,
        stack: ModifierStack::bare_capture(id),
        overrides: VertexOverrides::none(),
    };
    store.assets.insert(id.0, AssetEntry::new(AssetSource::Mesh(def)));
    id
}

} // verus!
