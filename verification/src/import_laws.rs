//! What holds of a model file that is brought into the project: its animations, its
//! materials and its nodes arrive as the file has them.
use crate::assets::{slot_color_kind, TextureColorKind};
use crate::clips::{
    Interp, Keyframe, LoopStyle, PlayDirection, SamplerKind, TrackShape, TrackTarget,
    TrackValue, TransformProp,
};
use crate::find::{lemma_first, lemma_tally_below, lemma_tally_hit, tally};
use crate::ids::NodeId;
use crate::import_clips::{
    animations_imported, bound_tracks, clip_color, clip_id, key_of, longest, model_stem,
    stripped, track_of, AnimationData, ExtractedAnimation, ExtractedChannel, ExtractedProperty,
};
use crate::import_library::{
    bound_texture, ext_after, ext_rows, has_key, imported_def, main_rows, material_label,
    material_rows, rows_after, rows_through, slot_title, stored_image, texture_at, texture_id,
    BakedTexture, ExportImage, ExtractedMaterial, TextureRow,
};
use crate::material::{
    ext_slot_named, slot_bound, slot_on, slot_texture, ExtSlot, PbrExtensions, TextureRef,
};
use crate::read_laws::same_shape;
use crate::text::decimal;
use crate::timeline::TimelineView;
use crate::values::{F32, F64, Vec3, Vec4};
use vstd::prelude::*;

verus! {

/// Whether a value is what a channel of a property holds, or what stands for nothing
/// where the data does not hold it: no offset, no turn, the size as it is, no weight.
pub open spec fn carries(p: ExtractedProperty, d: AnimationData, v: TrackValue) -> bool {
    let none = F32 { bits: 0 };
    let unit = F32 { bits: 0x3F80_0000 };
    match p {
        ExtractedProperty::Translation => v matches TrackValue::Vec3(x) && {
            let held = d matches AnimationData::Transform(t) && t.translation is Some;
            if held {
                x == (d->Transform_0).translation->0
            } else {
                x.x == none && x.y == none && x.z == none
            }
        },
        ExtractedProperty::Rotation => v matches TrackValue::Quat(q) && {
            let held = d matches AnimationData::Transform(t) && t.rotation is Some;
            if held {
                q == (d->Transform_0).rotation->0
            } else {
                q.x == none && q.y == none && q.z == none && q.w == unit
            }
        },
        ExtractedProperty::Scale => v matches TrackValue::Vec3(x) && {
            let held = d matches AnimationData::Transform(t) && t.scale is Some;
            if held {
                x == (d->Transform_0).scale->0
            } else {
                x.x == unit && x.y == unit && x.z == unit
            }
        },
        ExtractedProperty::MorphWeights => v matches TrackValue::Scalar(w) && {
            let held = d matches AnimationData::Weights(row) && row@.len() > 0;
            if held {
                w == (d->Weights_0)@[0]
            } else {
                w == none
            }
        },
    }
}

/// Whether every part of a value is zero.
pub open spec fn all_zero(v: TrackValue) -> bool {
    let none = F32 { bits: 0 };
    match v {
        TrackValue::Scalar(x) => x == none,
        TrackValue::Vec2(a) => a.x == none && a.y == none,
        TrackValue::Vec3(a) => a.x == none && a.y == none && a.z == none,
        TrackValue::Vec4(a) => a.x == none && a.y == none && a.z == none && a.w == none,
        TrackValue::Quat(a) => a.x == none && a.y == none && a.z == none && a.w == none,
    }
}

/// Whether a tangent is what the channel holds for it, or flat.
pub open spec fn tangent_of(
    c: ExtractedChannel,
    row: Seq<AnimationData>,
    i: int,
    value: TrackValue,
    t: TrackValue,
) -> bool {
    if c.sampler == SamplerKind::Cubic && i < row.len() {
        carries(c.property, row[i], t)
    } else {
        all_zero(t) && same_shape(t, value)
    }
}

/// Whether a key is the one that a channel has at a place.
pub open spec fn key_carries(c: ExtractedChannel, i: int, k: Keyframe) -> bool {
    &&& i < c.values@.len() ==> carries(c.property, c.values@[i], k.value)
    &&& i >= c.values@.len() ==> k.value == TrackValue::Scalar(F32 { bits: 0 })
    &&& match c.sampler {
        SamplerKind::Linear => k.interp == Interp::Linear,
        SamplerKind::Step => k.interp == Interp::Step,
        SamplerKind::Cubic => k.interp == Interp::Cubic,
    }
    &&& tangent_of(c, c.in_tangents@, i, k.value, k.in_tangent)
    &&& tangent_of(c, c.out_tangents@, i, k.value, k.out_tangent)
}

/// Whether a track moves a node as a channel does.
pub open spec fn plays(c: ExtractedChannel, node: NodeId, t: TrackShape) -> bool {
    &&& match c.property {
        ExtractedProperty::Translation => t.target == (TrackTarget::Transform {
            node,
            prop: TransformProp::Translation,
        }),
        ExtractedProperty::Rotation => t.target == (TrackTarget::Transform {
            node,
            prop: TransformProp::Rotation,
        }),
        ExtractedProperty::Scale => t.target == (TrackTarget::Transform {
            node,
            prop: TransformProp::Scale,
        }),
        ExtractedProperty::MorphWeights => t.target == (TrackTarget::Morph { node, index: 0 }),
    }
    &&& t.sampler == c.sampler
    &&& t.times == c.times@
    &&& t.keys.len() == c.times@.len()
    &&& forall|i: int| 0 <= i < t.keys.len() ==> key_carries(c, i, #[trigger] t.keys[i])
    &&& !t.mute
    &&& !t.solo
    &&& !t.expanded
}

/// Whether the node of a channel is among those that were made.
pub open spec fn is_made(cs: Seq<ExtractedChannel>, nodes: Map<u128, NodeId>) -> spec_fn(
    int,
) -> bool {
    |j: int| nodes.contains_key(cs[j].node_index as u128)
}

proof fn lemma_bound(cs: Seq<ExtractedChannel>, nodes: Map<u128, NodeId>, n: nat)
    requires
        n <= cs.len(),
    ensures
        bound_tracks(cs.take(n as int), nodes).len() == tally(n, is_made(cs, nodes)),
        forall|j: int|
            0 <= j < n && #[trigger] is_made(cs, nodes)(j) ==> bound_tracks(
                cs.take(n as int),
                nodes,
            )[tally(j as nat, is_made(cs, nodes)) as int] == track_of(
                cs[j],
                nodes[cs[j].node_index as u128],
            ) && tally(j as nat, is_made(cs, nodes)) < tally(n, is_made(cs, nodes)),
    decreases n,
{
    let p = is_made(cs, nodes);
    if n > 0 {
        let m = (n - 1) as nat;
        lemma_bound(cs, nodes, m);
        assert(cs.take(n as int).drop_last() =~= cs.take(m as int));
        assert(cs.take(n as int).last() == cs[m as int]);
        assert forall|j: int| 0 <= j < n && #[trigger] p(j) implies bound_tracks(
            cs.take(n as int),
            nodes,
        )[tally(j as nat, p) as int] == track_of(cs[j], nodes[cs[j].node_index as u128]) && tally(
            j as nat,
            p,
        ) < tally(n, p) by {
            lemma_tally_below(j as nat, n, p);
            if j < m {
                lemma_tally_below(j as nat, m, p);
            }
        }
    }
}

proof fn lemma_key(c: ExtractedChannel, i: int)
    requires
        0 <= i,
    ensures
        key_carries(c, i, key_of(c, i)),
{
}

proof fn lemma_plays(c: ExtractedChannel, node: NodeId)
    ensures
        plays(c, node, track_of(c, node)),
{
    let t = track_of(c, node);
    assert forall|i: int| 0 <= i < t.keys.len() implies key_carries(c, i, #[trigger] t.keys[i]) by {
        lemma_key(c, i);
    }
}

/// A channel whose node was made arrives as a track of its clip that moves that node
/// as the channel does: every key has the value that the channel has for its property.
pub proof fn law_channel_arrives_as_its_track(
    v: TimelineView,
    anims: Seq<ExtractedAnimation>,
    nodes: Map<u128, NodeId>,
    model: Seq<char>,
    base: u128,
    i: int,
    j: int,
)
    requires
        0 <= i < anims.len(),
        0 <= j < anims[i].channels@.len(),
        nodes.contains_key(anims[i].channels@[j].node_index as u128),
    ensures
        ({
            let c = anims[i].channels@[j];
            let w = animations_imported(v, anims, nodes, model, base);
            exists|k: int|
                0 <= k < w.clips[v.clips.len() + i].tracks.len() && #[trigger] plays(
                    c,
                    nodes[c.node_index as u128],
                    w.clips[v.clips.len() + i].tracks[k],
                )
        }),
{
    let cs = anims[i].channels@;
    let c = cs[j];
    let w = animations_imported(v, anims, nodes, model, base);
    let p = is_made(cs, nodes);
    lemma_bound(cs, nodes, cs.len());
    assert(cs.take(cs.len() as int) =~= cs);
    assert(p(j));
    let k = tally(j as nat, p) as int;
    let t = w.clips[v.clips.len() + i].tracks[k];
    assert(t == track_of(c, nodes[c.node_index as u128]));
    lemma_plays(c, nodes[c.node_index as u128]);
    assert(plays(c, nodes[c.node_index as u128], t));
}

/// Every track of a clip that arrives moves the node of a channel as the channel does,
/// and there is one for each channel whose node was made.
pub proof fn law_tracks_arrive_from_channels(
    v: TimelineView,
    anims: Seq<ExtractedAnimation>,
    nodes: Map<u128, NodeId>,
    model: Seq<char>,
    base: u128,
    i: int,
    k: int,
)
    requires
        0 <= i < anims.len(),
        0 <= k < animations_imported(v, anims, nodes, model, base).clips[v.clips.len()
            + i].tracks.len(),
    ensures
        ({
            let cs = anims[i].channels@;
            let t = animations_imported(v, anims, nodes, model, base).clips[v.clips.len() + i];
            &&& t.tracks.len() == tally(cs.len(), is_made(cs, nodes))
            &&& exists|j: int|
                0 <= j < cs.len() && nodes.contains_key((#[trigger] cs[j]).node_index as u128)
                    && plays(cs[j], nodes[cs[j].node_index as u128], t.tracks[k])
        }),
{
    let cs = anims[i].channels@;
    let p = is_made(cs, nodes);
    lemma_bound(cs, nodes, cs.len());
    assert(cs.take(cs.len() as int) =~= cs);
    let j = lemma_tally_hit(k as nat, cs.len(), p);
    assert(p(j));
    let t = animations_imported(v, anims, nodes, model, base).clips[v.clips.len() + i].tracks[k];
    assert(t == track_of(cs[j], nodes[cs[j].node_index as u128]));
    lemma_plays(cs[j], nodes[cs[j].node_index as u128]);
    assert(plays(cs[j], nodes[cs[j].node_index as u128], t));
}

proof fn lemma_longest(cs: Seq<ExtractedChannel>, nodes: Map<u128, NodeId>)
    ensures
        longest(cs, nodes) == F64::zero() || exists|j: int|
            0 <= j < cs.len() && nodes.contains_key((#[trigger] cs[j]).node_index as u128)
                && cs[j].duration == longest(cs, nodes),
        forall|j: int|
            0 <= j < cs.len() && nodes.contains_key((#[trigger] cs[j]).node_index as u128)
                ==> !longest(cs, nodes).before(cs[j].duration),
        !longest(cs, nodes).before(F64::zero()),
        !longest(cs, nodes).nan(),
    decreases cs.len(),
{
    if cs.len() > 0 {
        let less = cs.drop_last();
        lemma_longest(less, nodes);
        assert forall|j: int|
            0 <= j < cs.len() && nodes.contains_key(
                (#[trigger] cs[j]).node_index as u128,
            ) implies !longest(cs, nodes).before(cs[j].duration) by {
            if j < less.len() {
                assert(less[j] == cs[j]);
            }
        }
        if longest(cs, nodes) != F64::zero() {
            if longest(cs, nodes) == longest(less, nodes) {
                let j = choose|j: int|
                    0 <= j < less.len() && nodes.contains_key(
                        (#[trigger] less[j]).node_index as u128,
                    ) && less[j].duration == longest(less, nodes);
                assert(cs[j] == less[j]);
            } else {
                assert(cs[cs.len() - 1].duration == longest(cs, nodes));
            }
        }
    }
}

/// The clips of a file come after those that are there, which stay as they are. Each is
/// as long as the longest of its channels, or a second where none has a length, is
/// named as in the file, and loops at its own pace.
pub proof fn law_animations_arrive_as_clips(
    v: TimelineView,
    anims: Seq<ExtractedAnimation>,
    nodes: Map<u128, NodeId>,
    model: Seq<char>,
    base: u128,
    i: int,
)
    requires
        0 <= i < anims.len(),
    ensures
        ({
            let w = animations_imported(v, anims, nodes, model, base);
            let n = v.clips.len() as int;
            let c = w.clips[n + i];
            let cs = anims[i].channels@;
            let name = anims[i].name;
            &&& w.clips.len() == n + anims.len()
            &&& forall|k: int| 0 <= k < n ==> #[trigger] w.clips[k] == v.clips[k]
            &&& c.id == clip_id(base, i as nat)
            &&& name is Some && name->0@.len() > 0 ==> c.name == name->0@
            &&& !(name is Some && name->0@.len() > 0) ==> c.name == if anims.len() > 1 {
                model_stem(model) + " "@ + decimal((i + 1) as nat)
            } else {
                model_stem(model)
            }
            &&& forall|j: int|
                0 <= j < cs.len() && nodes.contains_key((#[trigger] cs[j]).node_index as u128)
                    ==> !c.duration.before(cs[j].duration)
                    || !(F64 { bits: 0 }).before(cs[j].duration)
            &&& c.duration == (F64 { bits: 0x3FF0_0000_0000_0000 }) || exists|j: int|
                0 <= j < cs.len() && nodes.contains_key((#[trigger] cs[j]).node_index as u128)
                    && cs[j].duration == c.duration
            &&& (F64 { bits: 0 }).before(c.duration)
            &&& c.speed == (F64 { bits: 0x3FF0_0000_0000_0000 })
            &&& c.loop_style == LoopStyle::Loop
            &&& c.direction == PlayDirection::Forward
            &&& w.current_clip == match v.current_clip {
                Some(id) => Some(id),
                None => Some(w.clips[n].id),
            }
            &&& w.playhead == v.playhead
            &&& w.playing == v.playing
            &&& w.fps == v.fps
            &&& w.solo_root == v.solo_root
            &&& w.selection == v.selection
            &&& w.dock == v.dock
            &&& w.layers == v.layers
        }),
{
    lemma_longest(anims[i].channels@, nodes);
}

/// The name of a file loses the ending of a model file, and nothing else.
pub proof fn law_stem_drops_the_ending(name: Seq<char>)
    ensures
        model_stem(name + ".glb"@) == name,
        model_stem(name + ".gltf"@) == name,
        stripped(name, ".glb"@) is None && stripped(name, ".gltf"@) is None ==> model_stem(name)
            == name,
        forall|ending: Seq<char>| #[trigger] stripped(name + ending, ending) == Some(name),
        forall|ending: Seq<char>|
            (#[trigger] stripped(name, ending)) matches Some(s) ==> s + ending == name,
{
    reveal_strlit(".glb");
    reveal_strlit(".gltf");
    assert forall|ending: Seq<char>| #[trigger] stripped(name + ending, ending) == Some(name) by {
        assert((name + ending).skip(name.len() as int) =~= ending);
        assert((name + ending).take(name.len() as int) =~= name);
    }
    assert forall|ending: Seq<char>|
        (#[trigger] stripped(name, ending)) matches Some(s) implies (stripped(name, ending)->0)
        + ending == name by {
        let n = name.len() - ending.len();
        if stripped(name, ending) is Some {
            assert(name.take(n) + name.skip(n) =~= name);
        }
    }
    assert(stripped(name + ".glb"@, ".glb"@) == Some(name));
    assert(stripped(name + ".gltf"@, ".gltf"@) == Some(name));
    let whole = name + ".gltf"@;
    let k = whole.len() - 4;
    assert(whole.skip(k)[3] == 'f');
    assert(".glb"@[3] == 'b');
    assert(whole.skip(k) != ".glb"@);
}

/// Clips that follow each other have different colors.
pub proof fn law_clips_in_a_row_differ_in_color(n: nat)
    ensures
        clip_color(n) != clip_color(n + 1),
{
    reveal_strlit("#7aa2f7");
    reveal_strlit("#9ece6a");
    reveal_strlit("#e0af68");
    reveal_strlit("#f7768e");
    reveal_strlit("#bb9af7");
    reveal_strlit("#7dcfff");
    let a = clip_color(n);
    let b = clip_color(n + 1);
    assert(n % 6 == 5 ==> (n + 1) % 6 == 0);
    assert(n % 6 != 5 ==> (n + 1) % 6 == n % 6 + 1);
    assert("#7aa2f7"@[1] == '7' && "#7aa2f7"@[2] == 'a');
    assert("#9ece6a"@[1] == '9' && "#9ece6a"@[2] == 'e');
    assert("#e0af68"@[1] == 'e' && "#e0af68"@[2] == '0');
    assert("#f7768e"@[1] == 'f' && "#f7768e"@[2] == '7');
    assert("#bb9af7"@[1] == 'b' && "#bb9af7"@[2] == 'b');
    assert("#7dcfff"@[1] == '7' && "#7dcfff"@[2] == 'd');
    assert(a[1] != b[1] || a[2] != b[2]);
}

/// Whether one row of textures begins with another.
pub open spec fn begins(a: Seq<TextureRow>, b: Seq<TextureRow>) -> bool {
    a.len() <= b.len() && forall|i: int| 0 <= i < a.len() ==> #[trigger] b[i] == a[i]
}

/// Whether a slot shows a texture of the file: the image with its key, laid as the file
/// lays it.
pub open spec fn shows_texture(
    texs: Seq<TextureRow>,
    base: u128,
    r: Option<TextureRef>,
    baked: Option<BakedTexture>,
) -> bool {
    match (r, baked) {
        (None, None) => true,
        (Some(r), Some(b)) => {
            &&& r.uv_index == b.binding.uv_index
            &&& r.transform == b.binding.transform
            &&& r.sampler == b.binding.sampler
            &&& r.flow is None
            &&& r.export_profile is None
            &&& exists|j: int|
                0 <= j < texs.len() && (#[trigger] texs[j]).key == b.key && r.asset == texture_id(
                    base,
                    j as nat,
                )
        },
        _ => false,
    }
}

/// Whether a texture is one that a material asks for, as the slot has it.
pub open spec fn asked_by(
    t: TextureRow,
    images: Map<u128, ExportImage>,
    label: Seq<char>,
    baked: Option<BakedTexture>,
    slot: Seq<char>,
    kind: TextureColorKind,
) -> bool {
    &&& baked is Some
    &&& t.key == (baked->0).key
    &&& t.name == slot_title(label, slot)
    &&& t.stored == stored_image(images, t.key)
    &&& t.color_kind == kind
}

/// Whether a texture is one of a material.
pub open spec fn of_material(
    t: TextureRow,
    images: Map<u128, ExportImage>,
    ex: ExtractedMaterial,
) -> bool {
    let l = material_label(ex);
    ||| asked_by(t, images, l, ex.base_color, "base color"@, TextureColorKind::Albedo)
    ||| asked_by(
        t,
        images,
        l,
        ex.metallic_roughness,
        "metal/rough"@,
        TextureColorKind::MetallicRoughness,
    )
    ||| asked_by(t, images, l, ex.normal, "normal"@, TextureColorKind::Normal)
    ||| asked_by(t, images, l, ex.occlusion, "occlusion"@, TextureColorKind::Occlusion)
    ||| asked_by(t, images, l, ex.emissive, "emissive"@, TextureColorKind::Emissive)
    ||| exists|k: int|
        0 <= k < ex.ext_textures@.len() && asked_by(
            t,
            images,
            l,
            Some((#[trigger] ex.ext_textures@[k]).baked),
            ex.ext_textures@[k].slot@,
            slot_color_kind(ex.ext_textures@[k].slot@),
        )
}

proof fn lemma_rows_after(
    rows: Seq<TextureRow>,
    images: Map<u128, ExportImage>,
    baked: Option<BakedTexture>,
    name: Seq<char>,
    kind: TextureColorKind,
)
    ensures
        begins(rows, rows_after(rows, images, baked, name, kind)),
        baked matches Some(b) ==> {
            let after = rows_after(rows, images, baked, name, kind);
            let i = texture_at(rows, b.key);
            0 <= i < after.len() && after[i].key == b.key
        },
        forall|i: int|
            rows.len() <= i < rows_after(rows, images, baked, name, kind).len() ==> {
                let t = #[trigger] rows_after(rows, images, baked, name, kind)[i];
                &&& baked is Some
                &&& t.key == (baked->0).key
                &&& t.name == name
                &&& t.stored == stored_image(images, t.key)
                &&& t.color_kind == kind
            },
{
    if let Some(b) = baked {
        lemma_first(rows, has_key(b.key));
        let i = texture_at(rows, b.key);
        if i < rows.len() {
            assert(has_key(b.key)(rows[i]));
        }
    }
}

proof fn lemma_shows(
    rows: Seq<TextureRow>,
    images: Map<u128, ExportImage>,
    baked: Option<BakedTexture>,
    name: Seq<char>,
    kind: TextureColorKind,
    texs: Seq<TextureRow>,
    base: u128,
)
    requires
        begins(rows_after(rows, images, baked, name, kind), texs),
    ensures
        shows_texture(
            texs,
            base,
            bound_texture(rows, baked, base),
            baked,
        ),
{
    lemma_rows_after(rows, images, baked, name, kind);
    if let Some(b) = baked {
        let i = texture_at(rows, b.key);
        assert(texs[i].key == b.key);
    }
}

proof fn lemma_main_rows(
    rows: Seq<TextureRow>,
    images: Map<u128, ExportImage>,
    ex: ExtractedMaterial,
)
    ensures
        forall|k: nat, m: nat|
            k <= m <= 5 ==> begins(
                #[trigger] main_rows(rows, images, ex, k),
                #[trigger] main_rows(rows, images, ex, m),
            ),
        forall|i: int|
            rows.len() <= i < main_rows(rows, images, ex, 5).len() ==> of_material(
                #[trigger] main_rows(rows, images, ex, 5)[i],
                images,
                ex,
            ),
{
    let l = material_label(ex);
    lemma_rows_after(
        main_rows(rows, images, ex, 0),
        images,
        ex.base_color,
        slot_title(l, "base color"@),
        TextureColorKind::Albedo,
    );
    lemma_rows_after(
        main_rows(rows, images, ex, 1),
        images,
        ex.metallic_roughness,
        slot_title(l, "metal/rough"@),
        TextureColorKind::MetallicRoughness,
    );
    lemma_rows_after(
        main_rows(rows, images, ex, 2),
        images,
        ex.normal,
        slot_title(l, "normal"@),
        TextureColorKind::Normal,
    );
    lemma_rows_after(
        main_rows(rows, images, ex, 3),
        images,
        ex.occlusion,
        slot_title(l, "occlusion"@),
        TextureColorKind::Occlusion,
    );
    lemma_rows_after(
        main_rows(rows, images, ex, 4),
        images,
        ex.emissive,
        slot_title(l, "emissive"@),
        TextureColorKind::Emissive,
    );
    let r0 = main_rows(rows, images, ex, 0);
    let r1 = main_rows(rows, images, ex, 1);
    let r2 = main_rows(rows, images, ex, 2);
    let r3 = main_rows(rows, images, ex, 3);
    let r4 = main_rows(rows, images, ex, 4);
    let r5 = main_rows(rows, images, ex, 5);
    assert(begins(r0, r1) && begins(r1, r2) && begins(r2, r3) && begins(r3, r4) && begins(r4, r5));
    assert forall|i: int| rows.len() <= i < r5.len() implies of_material(
        #[trigger] r5[i],
        images,
        ex,
    ) by {
        if i < r1.len() {
            assert(r5[i] == r1[i]);
        } else if i < r2.len() {
            assert(r5[i] == r2[i]);
        } else if i < r3.len() {
            assert(r5[i] == r3[i]);
        } else if i < r4.len() {
            assert(r5[i] == r4[i]);
        }
    }
}

proof fn lemma_ext_rows(
    rows: Seq<TextureRow>,
    images: Map<u128, ExportImage>,
    ex: ExtractedMaterial,
    j: nat,
    k: nat,
)
    requires
        j <= k <= ex.ext_textures@.len(),
    ensures
        begins(ext_rows(rows, images, ex, j), ext_rows(rows, images, ex, k)),
        begins(main_rows(rows, images, ex, 5), ext_rows(rows, images, ex, k)),
        begins(rows, ext_rows(rows, images, ex, k)),
        forall|i: int|
            rows.len() <= i < ext_rows(rows, images, ex, k).len() ==> of_material(
                #[trigger] ext_rows(rows, images, ex, k)[i],
                images,
                ex,
            ),
    decreases k,
{
    lemma_main_rows(rows, images, ex);
    assert(begins(main_rows(rows, images, ex, 0), main_rows(rows, images, ex, 5)));
    if k > 0 {
        let m = (k - 1) as nat;
        lemma_ext_rows(
            rows,
            images,
            ex,
            if j < k {
                j
            } else {
                m
            },
            m,
        );
        let t = ex.ext_textures@[k - 1];
        lemma_rows_after(
            ext_rows(rows, images, ex, m),
            images,
            Some(t.baked),
            slot_title(material_label(ex), t.slot@),
            slot_color_kind(t.slot@),
        );
        let a = ext_rows(rows, images, ex, m);
        let b = ext_rows(rows, images, ex, k);
        assert forall|i: int| rows.len() <= i < b.len() implies of_material(
            #[trigger] b[i],
            images,
            ex,
        ) by {
            if i < a.len() {
                assert(b[i] == a[i]);
            } else {
                assert(asked_by(
                    b[i],
                    images,
                    material_label(ex),
                    Some(ex.ext_textures@[k - 1].baked),
                    ex.ext_textures@[k - 1].slot@,
                    slot_color_kind(ex.ext_textures@[k - 1].slot@),
                ));
            }
        }
    }
}

proof fn lemma_rows_through(
    mats: Seq<ExtractedMaterial>,
    images: Map<u128, ExportImage>,
    j: nat,
    k: nat,
)
    requires
        j <= k <= mats.len(),
    ensures
        begins(rows_through(mats, images, j), rows_through(mats, images, k)),
    decreases k,
{
    if j < k {
        let m = (k - 1) as nat;
        lemma_rows_through(mats, images, j, m);
        lemma_ext_rows(
            rows_through(mats, images, m),
            images,
            mats[m as int],
            0,
            mats[m as int].ext_textures@.len(),
        );
    }
}

/// A material that arrives is that of the file, and each of its slots shows the texture
/// that the file has in that slot.
pub proof fn law_material_arrives_with_its_textures(
    mats: Seq<ExtractedMaterial>,
    images: Map<u128, ExportImage>,
    base: u128,
    i: int,
)
    requires
        0 <= i < mats.len(),
    ensures
        ({
            let ex = mats[i];
            let d = imported_def(rows_through(mats, images, i as nat), images, ex, base);
            let texs = rows_through(mats, images, mats.len());
            &&& shows_texture(texs, base, d.base_color_texture, ex.base_color)
            &&& shows_texture(texs, base, d.metallic_roughness_texture, ex.metallic_roughness)
            &&& shows_texture(texs, base, d.normal_texture, ex.normal)
            &&& shows_texture(texs, base, d.occlusion_texture, ex.occlusion)
            &&& shows_texture(texs, base, d.emissive_texture, ex.emissive)
            &&& d.label == ex.def.label
            &&& d.shading == ex.def.shading
            &&& d.base_color == ex.def.base_color
            &&& d.emissive == ex.def.emissive
            &&& d.metallic == ex.def.metallic
            &&& d.roughness == ex.def.roughness
            &&& d.normal_scale == ex.def.normal_scale
            &&& d.occlusion_strength == ex.def.occlusion_strength
            &&& d.ssr_mask == ex.def.ssr_mask
            &&& d.alpha_mode == ex.def.alpha_mode
            &&& d.double_sided == ex.def.double_sided
        }),
{
    let ex = mats[i];
    let rows = rows_through(mats, images, i as nat);
    let texs = rows_through(mats, images, mats.len());
    let l = material_label(ex);
    lemma_rows_through(mats, images, (i + 1) as nat, mats.len());
    lemma_ext_rows(rows, images, ex, 0, ex.ext_textures@.len());
    lemma_main_rows(rows, images, ex);
    let all = rows_through(mats, images, (i + 1) as nat);
    assert(all == material_rows(rows, images, ex));
    assert(begins(main_rows(rows, images, ex, 5), texs));
    assert forall|k: nat| k <= 5 implies begins(#[trigger] main_rows(rows, images, ex, k), texs) by {
        assert(begins(main_rows(rows, images, ex, k), main_rows(rows, images, ex, 5)));
    }
    lemma_shows(
        main_rows(rows, images, ex, 0),
        images,
        ex.base_color,
        slot_title(l, "base color"@),
        TextureColorKind::Albedo,
        texs,
        base,
    );
    lemma_shows(
        main_rows(rows, images, ex, 1),
        images,
        ex.metallic_roughness,
        slot_title(l, "metal/rough"@),
        TextureColorKind::MetallicRoughness,
        texs,
        base,
    );
    lemma_shows(
        main_rows(rows, images, ex, 2),
        images,
        ex.normal,
        slot_title(l, "normal"@),
        TextureColorKind::Normal,
        texs,
        base,
    );
    lemma_shows(
        main_rows(rows, images, ex, 3),
        images,
        ex.occlusion,
        slot_title(l, "occlusion"@),
        TextureColorKind::Occlusion,
        texs,
        base,
    );
    lemma_shows(
        main_rows(rows, images, ex, 4),
        images,
        ex.emissive,
        slot_title(l, "emissive"@),
        TextureColorKind::Emissive,
        texs,
        base,
    );
}

proof fn lemma_ext_slot(
    mats: Seq<ExtractedMaterial>,
    images: Map<u128, ExportImage>,
    base: u128,
    i: int,
    k: int,
    n: nat,
)
    requires
        0 <= i < mats.len(),
        0 <= k < n <= mats[i].ext_textures@.len(),
        ext_slot_named(mats[i].ext_textures@[k].slot@) is Some,
        slot_on(mats[i].def.extensions, ext_slot_named(mats[i].ext_textures@[k].slot@)->0),
        forall|j: int|
            k < j < n ==> ext_slot_named((#[trigger] mats[i].ext_textures@[j]).slot@)
                != ext_slot_named(mats[i].ext_textures@[k].slot@),
    ensures
        ({
            let ex = mats[i];
            let rows = rows_through(mats, images, i as nat);
            let s = ext_slot_named(ex.ext_textures@[k].slot@)->0;
            let e = ext_after(rows, images, ex, base, n);
            slot_texture(e, s) == bound_texture(
                ext_rows(rows, images, ex, k as nat),
                Some(ex.ext_textures@[k].baked),
                base,
            )
        }),
    decreases n,
{
    let ex = mats[i];
    let rows = rows_through(mats, images, i as nat);
    lemma_slots_stay_on(rows, images, ex, base, (n - 1) as nat);
    if n > k + 1 {
        lemma_ext_slot(mats, images, base, i, k, (n - 1) as nat);
        assert(ext_slot_named(ex.ext_textures@[n - 1].slot@) != ext_slot_named(
            ex.ext_textures@[k].slot@,
        ));
    }
}

proof fn lemma_slot_stays_on(
    e: PbrExtensions,
    o: ExtSlot,
    tref: Option<TextureRef>,
    s: ExtSlot,
)
    ensures
        slot_on(slot_bound(e, o, tref), s) == slot_on(e, s),
{
}

proof fn lemma_slots_stay_on(
    rows: Seq<TextureRow>,
    images: Map<u128, ExportImage>,
    ex: ExtractedMaterial,
    base: u128,
    n: nat,
)
    requires
        n <= ex.ext_textures@.len(),
    ensures
        forall|s: ExtSlot|
            #[trigger] slot_on(ext_after(rows, images, ex, base, n), s) == slot_on(
                ex.def.extensions,
                s,
            ),
    decreases n,
{
    if n > 0 {
        lemma_slots_stay_on(rows, images, ex, base, (n - 1) as nat);
        let e = ext_after(rows, images, ex, base, (n - 1) as nat);
        let t = ex.ext_textures@[n - 1];
        assert forall|s: ExtSlot|
            #[trigger] slot_on(ext_after(rows, images, ex, base, n), s) == slot_on(
                ex.def.extensions,
                s,
            ) by {
            assert(slot_on(e, s) == slot_on(ex.def.extensions, s));
            if let Some(o) = ext_slot_named(t.slot@) {
                lemma_slot_stays_on(
                    e,
                    o,
                    bound_texture(ext_rows(rows, images, ex, (n - 1) as nat), Some(t.baked), base),
                    s,
                );
            }
        }
    }
}

/// A slot of an extension shows the texture that the file has in it; where the file
/// names a slot twice, the last.
pub proof fn law_extension_arrives_with_its_textures(
    mats: Seq<ExtractedMaterial>,
    images: Map<u128, ExportImage>,
    base: u128,
    i: int,
    k: int,
)
    requires
        0 <= i < mats.len(),
        0 <= k < mats[i].ext_textures@.len(),
        ext_slot_named(mats[i].ext_textures@[k].slot@) is Some,
        slot_on(mats[i].def.extensions, ext_slot_named(mats[i].ext_textures@[k].slot@)->0),
        forall|j: int|
            k < j < mats[i].ext_textures@.len() ==> ext_slot_named(
                (#[trigger] mats[i].ext_textures@[j]).slot@,
            ) != ext_slot_named(mats[i].ext_textures@[k].slot@),
    ensures
        ({
            let ex = mats[i];
            let d = imported_def(rows_through(mats, images, i as nat), images, ex, base);
            shows_texture(
                rows_through(mats, images, mats.len()),
                base,
                slot_texture(d.extensions, ext_slot_named(ex.ext_textures@[k].slot@)->0),
                Some(ex.ext_textures@[k].baked),
            )
        }),
{
    let ex = mats[i];
    let rows = rows_through(mats, images, i as nat);
    let t = ex.ext_textures@[k];
    lemma_ext_slot(mats, images, base, i, k, ex.ext_textures@.len());
    lemma_rows_through(mats, images, (i + 1) as nat, mats.len());
    lemma_ext_rows(rows, images, ex, (k + 1) as nat, ex.ext_textures@.len());
    lemma_shows(
        ext_rows(rows, images, ex, k as nat),
        images,
        Some(t.baked),
        slot_title(material_label(ex), t.slot@),
        slot_color_kind(t.slot@),
        rows_through(mats, images, mats.len()),
        base,
    );
}

/// Every texture that arrives is one that a material of the file asks for: under the
/// title and with the meaning of the slot that asks for it first, with the image that
/// the file has under its key.
pub proof fn law_textures_are_those_of_the_materials(
    mats: Seq<ExtractedMaterial>,
    images: Map<u128, ExportImage>,
    n: nat,
)
    requires
        n <= mats.len(),
    ensures
        forall|i: int|
            0 <= i < rows_through(mats, images, n).len() ==> exists|m: int|
                0 <= m < n && of_material(
                    #[trigger] rows_through(mats, images, n)[i],
                    images,
                    #[trigger] mats[m],
                ),
    decreases n,
{
    if n > 0 {
        let less = (n - 1) as nat;
        law_textures_are_those_of_the_materials(mats, images, less);
        let a = rows_through(mats, images, less);
        let b = rows_through(mats, images, n);
        let ex = mats[less as int];
        lemma_ext_rows(a, images, ex, 0, ex.ext_textures@.len());
        assert forall|i: int| 0 <= i < b.len() implies exists|m: int|
            0 <= m < n && of_material(#[trigger] b[i], images, #[trigger] mats[m]) by {
            if i < a.len() {
                assert(b[i] == a[i]);
                let m = choose|m: int|
                    0 <= m < less && of_material(#[trigger] a[i], images, #[trigger] mats[m]);
                assert(of_material(b[i], images, mats[m]));
            } else {
                assert(of_material(b[i], images, mats[less as int]));
            }
        }
    }
}

} // verus!
