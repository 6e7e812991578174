//! Materials as a mesh carries them: the built-in definition with its factors
//! and textures, the instance with its overrides, and the palette of variants.
use crate::ids::AssetId;
use crate::list::Same;
use crate::text::{chars_of, same_text, text_of};
use crate::values::{Vec2, F32};
use vstd::prelude::*;

verus! {

#[derive(Clone, Copy, PartialEq, Eq, Structural, Debug)]
pub enum TextureWrap {
    Repeat,
    MirrorRepeat,
    ClampToEdge,
}

#[derive(Clone, Copy, PartialEq, Eq, Structural, Debug)]
pub enum TextureFilter {
    Nearest,
    Linear,
}

/// How a texture is compressed for one of its uses when a bundle is exported.
#[derive(Clone, Copy, PartialEq, Eq, Structural, Debug)]
pub enum TextureUseProfile {
    Lossless,
    Compact,
}

#[derive(Clone, Copy, PartialEq, Eq, Structural, Debug)]
pub struct TextureTransform {
    pub offset: Vec2,
    pub scale: Vec2,
    pub rotation: F32,
}

impl TextureTransform {
    /// No offset, unit scale, no rotation.
    #[verifier::allow_in_spec]
    pub fn identity() -> TextureTransform
        returns
            (TextureTransform {
                offset: Vec2 { x: F32::zero(), y: F32::zero() },
                scale: Vec2 { x: F32::one(), y: F32::one() },
                rotation: F32::zero(),
            }),
    {
        TextureTransform {
            offset: Vec2 { x: F32::zero(), y: F32::zero() },
            scale: Vec2 { x: F32::one(), y: F32::one() },
            rotation: F32::zero(),
        }
    }
}

#[derive(Clone, Copy, PartialEq, Eq, Structural, Debug)]
pub struct TextureSampler {
    pub wrap_u: TextureWrap,
    pub wrap_v: TextureWrap,
    pub mag_filter: TextureFilter,
    pub min_filter: TextureFilter,
    pub mipmap_filter: TextureFilter,
}

impl TextureSampler {
    /// Repeating, filtered linearly.
    #[verifier::allow_in_spec]
    pub fn standard() -> TextureSampler
        returns
            (TextureSampler {
                wrap_u: TextureWrap::Repeat,
                wrap_v: TextureWrap::Repeat,
                mag_filter: TextureFilter::Linear,
                min_filter: TextureFilter::Linear,
                mipmap_filter: TextureFilter::Linear,
            }),
    {
        TextureSampler {
            wrap_u: TextureWrap::Repeat,
            wrap_v: TextureWrap::Repeat,
            mag_filter: TextureFilter::Linear,
            min_filter: TextureFilter::Linear,
            mipmap_filter: TextureFilter::Linear,
        }
    }
}

/// A texture bound to a slot, and how the slot samples it.
#[derive(Clone, Copy, PartialEq, Eq, Structural, Debug)]
pub struct TextureRef {
    pub asset: AssetId,
    pub uv_index: u32,
    pub transform: Option<TextureTransform>,
    pub sampler: Option<TextureSampler>,
    pub flow: Option<Vec2>,
    pub export_profile: Option<TextureUseProfile>,
}

impl Same for TextureRef {
    fn same(&self) -> (res: Self) {
        *self
    }
}

impl TextureRef {
    /// The texture on the first UV set, with nothing else set.
    #[verifier::allow_in_spec]
    pub fn new(asset: AssetId) -> TextureRef
        returns
            (TextureRef {
                asset,
                uv_index: 0,
                transform: None,
                sampler: None,
                flow: None,
                export_profile: None,
            }),
    {
        TextureRef {
            asset,
            uv_index: 0,
            transform: None,
            sampler: None,
            flow: None,
            export_profile: None,
        }
    }
}

#[derive(Clone, Copy, PartialEq, Eq, Structural, Debug)]
pub enum MaterialAlphaMode {
    Opaque,
    Mask { cutoff: F32 },
    Blend,
}

#[derive(Clone, Copy, PartialEq, Eq, Structural, Debug)]
pub enum MaterialShading {
    Pbr,
    Unlit,
    Toon {
        diffuse_bands: u32,
        specular_steps: u32,
        shininess: F32,
        rim_strength: F32,
        rim_power: F32,
    },
    FlipBook { fps: F32, time_offset: F32 },
}

#[derive(Clone, Copy, PartialEq, Eq, Structural, Debug)]
pub struct SpecularExt {
    pub tex: Option<TextureRef>,
    pub color_tex: Option<TextureRef>,
}

#[derive(Clone, Copy, PartialEq, Eq, Structural, Debug)]
pub struct TransmissionExt {
    pub tex: Option<TextureRef>,
}

#[derive(Clone, Copy, PartialEq, Eq, Structural, Debug)]
pub struct DiffuseTransmissionExt {
    pub tex: Option<TextureRef>,
    pub color_tex: Option<TextureRef>,
}

#[derive(Clone, Copy, PartialEq, Eq, Structural, Debug)]
pub struct VolumeExt {
    pub thickness_tex: Option<TextureRef>,
}

#[derive(Clone, Copy, PartialEq, Eq, Structural, Debug)]
pub struct ClearcoatExt {
    pub tex: Option<TextureRef>,
    pub roughness_tex: Option<TextureRef>,
    pub normal_tex: Option<TextureRef>,
}

#[derive(Clone, Copy, PartialEq, Eq, Structural, Debug)]
pub struct SheenExt {
    pub color_tex: Option<TextureRef>,
    pub roughness_tex: Option<TextureRef>,
}

#[derive(Clone, Copy, PartialEq, Eq, Structural, Debug)]
pub struct AnisotropyExt {
    pub tex: Option<TextureRef>,
}

#[derive(Clone, Copy, PartialEq, Eq, Structural, Debug)]
pub struct IridescenceExt {
    pub tex: Option<TextureRef>,
    pub thickness_tex: Option<TextureRef>,
}

/// The optional extensions of a physically based material; one that is `None`
/// is switched off.
#[derive(Clone, Copy, PartialEq, Eq, Structural, Debug)]
pub struct PbrExtensions {
    pub emissive_strength: Option<F32>,
    pub specular: Option<SpecularExt>,
    pub transmission: Option<TransmissionExt>,
    pub diffuse_transmission: Option<DiffuseTransmissionExt>,
    pub volume: Option<VolumeExt>,
    pub clearcoat: Option<ClearcoatExt>,
    pub sheen: Option<SheenExt>,
    pub anisotropy: Option<AnisotropyExt>,
    pub iridescence: Option<IridescenceExt>,
}

impl PbrExtensions {
    /// Every extension switched off.
    #[verifier::allow_in_spec]
    pub fn none() -> PbrExtensions
        returns
            (PbrExtensions {
                emissive_strength: None,
                specular: None,
                transmission: None,
                diffuse_transmission: None,
                volume: None,
                clearcoat: None,
                sheen: None,
                anisotropy: None,
                iridescence: None,
            }),
    {
        PbrExtensions {
            emissive_strength: None,
            specular: None,
            transmission: None,
            diffuse_transmission: None,
            volume: None,
            clearcoat: None,
            sheen: None,
            anisotropy: None,
            iridescence: None,
        }
    }
}

/// A texture slot of an extension.
#[derive(Clone, Copy, PartialEq, Eq, Structural, Debug)]
pub enum ExtSlot {
    SpecularTex,
    SpecularColorTex,
    TransmissionTex,
    DiffuseTransmissionTex,
    DiffuseTransmissionColorTex,
    VolumeThicknessTex,
    ClearcoatTex,
    ClearcoatRoughnessTex,
    ClearcoatNormalTex,
    SheenColorTex,
    SheenRoughnessTex,
    AnisotropyTex,
    IridescenceTex,
    IridescenceThicknessTex,
}

/// The slot that a `"<extension>.<field>"` key names.
pub open spec fn ext_slot_named(key: Seq<char>) -> Option<ExtSlot> {
    if key == "specular.tex"@ {
        Some(ExtSlot::SpecularTex)
    } else if key == "specular.color_tex"@ {
        Some(ExtSlot::SpecularColorTex)
    } else if key == "transmission.tex"@ {
        Some(ExtSlot::TransmissionTex)
    } else if key == "diffuse_transmission.tex"@ {
        Some(ExtSlot::DiffuseTransmissionTex)
    } else if key == "diffuse_transmission.color_tex"@ {
        Some(ExtSlot::DiffuseTransmissionColorTex)
    } else if key == "volume.thickness_tex"@ {
        Some(ExtSlot::VolumeThicknessTex)
    } else if key == "clearcoat.tex"@ {
        Some(ExtSlot::ClearcoatTex)
    } else if key == "clearcoat.roughness_tex"@ {
        Some(ExtSlot::ClearcoatRoughnessTex)
    } else if key == "clearcoat.normal_tex"@ {
        Some(ExtSlot::ClearcoatNormalTex)
    } else if key == "sheen.color_tex"@ {
        Some(ExtSlot::SheenColorTex)
    } else if key == "sheen.roughness_tex"@ {
        Some(ExtSlot::SheenRoughnessTex)
    } else if key == "anisotropy.tex"@ {
        Some(ExtSlot::AnisotropyTex)
    } else if key == "iridescence.tex"@ {
        Some(ExtSlot::IridescenceTex)
    } else if key == "iridescence.thickness_tex"@ {
        Some(ExtSlot::IridescenceThicknessTex)
    } else {
        None
    }
}

fn ext_slot(key: &str) -> (r: Option<ExtSlot>)
    ensures
        r == ext_slot_named(key@),
{
    if same_text(key, "specular.tex") {
        Some(ExtSlot::SpecularTex)
    } else if same_text(key, "specular.color_tex") {
        Some(ExtSlot::SpecularColorTex)
    } else if same_text(key, "transmission.tex") {
        Some(ExtSlot::TransmissionTex)
    } else if same_text(key, "diffuse_transmission.tex") {
        Some(ExtSlot::DiffuseTransmissionTex)
    } else if same_text(key, "diffuse_transmission.color_tex") {
        Some(ExtSlot::DiffuseTransmissionColorTex)
    } else if same_text(key, "volume.thickness_tex") {
        Some(ExtSlot::VolumeThicknessTex)
    } else if same_text(key, "clearcoat.tex") {
        Some(ExtSlot::ClearcoatTex)
    } else if same_text(key, "clearcoat.roughness_tex") {
        Some(ExtSlot::ClearcoatRoughnessTex)
    } else if same_text(key, "clearcoat.normal_tex") {
        Some(ExtSlot::ClearcoatNormalTex)
    } else if same_text(key, "sheen.color_tex") {
        Some(ExtSlot::SheenColorTex)
    } else if same_text(key, "sheen.roughness_tex") {
        Some(ExtSlot::SheenRoughnessTex)
    } else if same_text(key, "anisotropy.tex") {
        Some(ExtSlot::AnisotropyTex)
    } else if same_text(key, "iridescence.tex") {
        Some(ExtSlot::IridescenceTex)
    } else if same_text(key, "iridescence.thickness_tex") {
        Some(ExtSlot::IridescenceThicknessTex)
    } else {
        None
    }
}

/// Whether the extension that owns a slot is switched on.
pub open spec fn slot_on(ext: PbrExtensions, slot: ExtSlot) -> bool {
    match slot {
        ExtSlot::SpecularTex | ExtSlot::SpecularColorTex => ext.specular is Some,
        ExtSlot::TransmissionTex => ext.transmission is Some,
        ExtSlot::DiffuseTransmissionTex
        | ExtSlot::DiffuseTransmissionColorTex => ext.diffuse_transmission is Some,
        ExtSlot::VolumeThicknessTex => ext.volume is Some,
        ExtSlot::ClearcoatTex
        | ExtSlot::ClearcoatRoughnessTex
        | ExtSlot::ClearcoatNormalTex => ext.clearcoat is Some,
        ExtSlot::SheenColorTex | ExtSlot::SheenRoughnessTex => ext.sheen is Some,
        ExtSlot::AnisotropyTex => ext.anisotropy is Some,
        ExtSlot::IridescenceTex | ExtSlot::IridescenceThicknessTex => ext.iridescence is Some,
    }
}

/// The texture in a slot whose extension is switched on.
pub open spec fn slot_texture(ext: PbrExtensions, slot: ExtSlot) -> Option<TextureRef> {
    if !slot_on(ext, slot) {
        None
    } else {
        match slot {
            ExtSlot::SpecularTex => ext.specular->0.tex,
            ExtSlot::SpecularColorTex => ext.specular->0.color_tex,
            ExtSlot::TransmissionTex => ext.transmission->0.tex,
            ExtSlot::DiffuseTransmissionTex => ext.diffuse_transmission->0.tex,
            ExtSlot::DiffuseTransmissionColorTex => ext.diffuse_transmission->0.color_tex,
            ExtSlot::VolumeThicknessTex => ext.volume->0.thickness_tex,
            ExtSlot::ClearcoatTex => ext.clearcoat->0.tex,
            ExtSlot::ClearcoatRoughnessTex => ext.clearcoat->0.roughness_tex,
            ExtSlot::ClearcoatNormalTex => ext.clearcoat->0.normal_tex,
            ExtSlot::SheenColorTex => ext.sheen->0.color_tex,
            ExtSlot::SheenRoughnessTex => ext.sheen->0.roughness_tex,
            ExtSlot::AnisotropyTex => ext.anisotropy->0.tex,
            ExtSlot::IridescenceTex => ext.iridescence->0.tex,
            ExtSlot::IridescenceThicknessTex => ext.iridescence->0.thickness_tex,
        }
    }
}

/// The extensions with `tref` in a slot whose extension is switched on.
pub open spec fn slot_bound(
    ext: PbrExtensions,
    slot: ExtSlot,
    tref: Option<TextureRef>,
) -> PbrExtensions {
    if !slot_on(ext, slot) {
        ext
    } else {
        match slot {
            ExtSlot::SpecularTex => PbrExtensions {
                specular: Some(SpecularExt { tex: tref, ..ext.specular->0 }),
                ..ext
            },
            ExtSlot::SpecularColorTex => PbrExtensions {
                specular: Some(SpecularExt { color_tex: tref, ..ext.specular->0 }),
                ..ext
            },
            ExtSlot::TransmissionTex => PbrExtensions {
                transmission: Some(TransmissionExt { tex: tref }),
                ..ext
            },
            ExtSlot::DiffuseTransmissionTex => PbrExtensions {
                diffuse_transmission: Some(
                    DiffuseTransmissionExt { tex: tref, ..ext.diffuse_transmission->0 },
                ),
                ..ext
            },
            ExtSlot::DiffuseTransmissionColorTex => PbrExtensions {
                diffuse_transmission: Some(
                    DiffuseTransmissionExt { color_tex: tref, ..ext.diffuse_transmission->0 },
                ),
                ..ext
            },
            ExtSlot::VolumeThicknessTex => PbrExtensions {
                volume: Some(VolumeExt { thickness_tex: tref }),
                ..ext
            },
            ExtSlot::ClearcoatTex => PbrExtensions {
                clearcoat: Some(ClearcoatExt { tex: tref, ..ext.clearcoat->0 }),
                ..ext
            },
            ExtSlot::ClearcoatRoughnessTex => PbrExtensions {
                clearcoat: Some(ClearcoatExt { roughness_tex: tref, ..ext.clearcoat->0 }),
                ..ext
            },
            ExtSlot::ClearcoatNormalTex => PbrExtensions {
                clearcoat: Some(ClearcoatExt { normal_tex: tref, ..ext.clearcoat->0 }),
                ..ext
            },
            ExtSlot::SheenColorTex => PbrExtensions {
                sheen: Some(SheenExt { color_tex: tref, ..ext.sheen->0 }),
                ..ext
            },
            ExtSlot::SheenRoughnessTex => PbrExtensions {
                sheen: Some(SheenExt { roughness_tex: tref, ..ext.sheen->0 }),
                ..ext
            },
            ExtSlot::AnisotropyTex => PbrExtensions {
                anisotropy: Some(AnisotropyExt { tex: tref }),
                ..ext
            },
            ExtSlot::IridescenceTex => PbrExtensions {
                iridescence: Some(IridescenceExt { tex: tref, ..ext.iridescence->0 }),
                ..ext
            },
            ExtSlot::IridescenceThicknessTex => PbrExtensions {
                iridescence: Some(IridescenceExt { thickness_tex: tref, ..ext.iridescence->0 }),
                ..ext
            },
        }
    }
}

/// Binding a texture to a slot of an extension that is switched on is read
/// back from that slot, and no other slot changes.
pub proof fn law_ext_texture_read_back(
    ext: PbrExtensions,
    slot: ExtSlot,
    other: ExtSlot,
    tref: Option<TextureRef>,
)
    ensures
        slot_on(ext, slot) ==> slot_texture(slot_bound(ext, slot, tref), slot) == tref,
        !slot_on(ext, slot) ==> slot_bound(ext, slot, tref) == ext,
        other != slot ==> slot_texture(slot_bound(ext, slot, tref), other) == slot_texture(
            ext,
            other,
        ),
        slot_on(slot_bound(ext, slot, tref), other) == slot_on(ext, other),
{
}

/// The text in front of the first dot, or the whole text.
pub open spec fn before_dot(s: Seq<char>) -> Seq<char>
    decreases s.len(),
{
    if s.len() == 0 || s[0] == '.' {
        seq![]
    } else {
        seq![s[0]] + before_dot(s.drop_first())
    }
}

/// Whether the extension that a slot key names, in front of its first dot, is
/// switched on.
pub open spec fn key_on(ext: PbrExtensions, key: Seq<char>) -> bool {
    let name = before_dot(key);
    ||| name == "specular"@ && ext.specular is Some
    ||| name == "transmission"@ && ext.transmission is Some
    ||| name == "diffuse_transmission"@ && ext.diffuse_transmission is Some
    ||| name == "volume"@ && ext.volume is Some
    ||| name == "clearcoat"@ && ext.clearcoat is Some
    ||| name == "sheen"@ && ext.sheen is Some
    ||| name == "anisotropy"@ && ext.anisotropy is Some
    ||| name == "iridescence"@ && ext.iridescence is Some
}

proof fn lemma_before_dot(s: Seq<char>, n: int)
    requires
        0 <= n <= s.len(),
        forall|i: int| 0 <= i < n ==> s[i] != '.',
        n < s.len() ==> s[n] == '.',
    ensures
        before_dot(s) == s.take(n),
    decreases s.len(),
{
    if n == 0 {
        assert(s.take(0) =~= seq![]);
    } else {
        lemma_before_dot(s.drop_first(), n - 1);
        assert(s.take(n) =~= seq![s[0]] + s.drop_first().take(n - 1));
    }
}

/// Whether the extension that owns the slot `"<extension>.<field>"` is switched
/// on, whether or not a texture is bound there.
pub fn ext_slot_enabled(ext: &PbrExtensions, slot: &str) -> (r: bool)
    ensures
        r == key_on(*ext, slot@),
{
    let chars = chars_of(slot);
    let mut n: usize = 0;
    while n < chars.len() && chars[n] != '.'
        invariant
            n <= chars@.len(),
            forall|i: int| 0 <= i < n ==> chars@[i] != '.',
        decreases chars@.len() - n,
    {
        n += 1;
    }
    let name = text_of(&chars, 0, n);
    proof {
        lemma_before_dot(slot@, n as int);
        reveal_strlit("specular");
        reveal_strlit("transmission");
        reveal_strlit("diffuse_transmission");
        reveal_strlit("volume");
        reveal_strlit("clearcoat");
        reveal_strlit("sheen");
        reveal_strlit("anisotropy");
        reveal_strlit("iridescence");
        assert("specular"@[0] == 's' && "specular"@[1] == 'p');
        assert("sheen"@[0] == 's' && "sheen"@[1] == 'h');
        assert("transmission"@[0] == 't' && "diffuse_transmission"@[0] == 'd');
        assert("volume"@[0] == 'v' && "clearcoat"@[0] == 'c');
        assert("anisotropy"@[0] == 'a' && "iridescence"@[0] == 'i');
    }
    if same_text(&name, "specular") {
        ext.specular.is_some()
    } else if same_text(&name, "transmission") {
        ext.transmission.is_some()
    } else if same_text(&name, "diffuse_transmission") {
        ext.diffuse_transmission.is_some()
    } else if same_text(&name, "volume") {
        ext.volume.is_some()
    } else if same_text(&name, "clearcoat") {
        ext.clearcoat.is_some()
    } else if same_text(&name, "sheen") {
        ext.sheen.is_some()
    } else if same_text(&name, "anisotropy") {
        ext.anisotropy.is_some()
    } else if same_text(&name, "iridescence") {
        ext.iridescence.is_some()
    } else {
        false
    }
}

/// The texture at an extension slot; `None` also where the extension is off or
/// the key names no slot.
pub fn get_ext_texture(ext: &PbrExtensions, slot: &str) -> (r: Option<TextureRef>)
    ensures
        r == match ext_slot_named(slot@) {
            Some(s) => slot_texture(*ext, s),
            None => None,
        },
{
    match ext_slot(slot) {
        Some(ExtSlot::SpecularTex) => match ext.specular {
            Some(e) => e.tex,
            None => None,
        },
        Some(ExtSlot::SpecularColorTex) => match ext.specular {
            Some(e) => e.color_tex,
            None => None,
        },
        Some(ExtSlot::TransmissionTex) => match ext.transmission {
            Some(e) => e.tex,
            None => None,
        },
        Some(ExtSlot::DiffuseTransmissionTex) => match ext.diffuse_transmission {
            Some(e) => e.tex,
            None => None,
        },
        Some(ExtSlot::DiffuseTransmissionColorTex) => match ext.diffuse_transmission {
            Some(e) => e.color_tex,
            None => None,
        },
        Some(ExtSlot::VolumeThicknessTex) => match ext.volume {
            Some(e) => e.thickness_tex,
            None => None,
        },
        Some(ExtSlot::ClearcoatTex) => match ext.clearcoat {
            Some(e) => e.tex,
            None => None,
        },
        Some(ExtSlot::ClearcoatRoughnessTex) => match ext.clearcoat {
            Some(e) => e.roughness_tex,
            None => None,
        },
        Some(ExtSlot::ClearcoatNormalTex) => match ext.clearcoat {
            Some(e) => e.normal_tex,
            None => None,
        },
        Some(ExtSlot::SheenColorTex) => match ext.sheen {
            Some(e) => e.color_tex,
            None => None,
        },
        Some(ExtSlot::SheenRoughnessTex) => match ext.sheen {
            Some(e) => e.roughness_tex,
            None => None,
        },
        Some(ExtSlot::AnisotropyTex) => match ext.anisotropy {
            Some(e) => e.tex,
            None => None,
        },
        Some(ExtSlot::IridescenceTex) => match ext.iridescence {
            Some(e) => e.tex,
            None => None,
        },
        Some(ExtSlot::IridescenceThicknessTex) => match ext.iridescence {
            Some(e) => e.thickness_tex,
            None => None,
        },
        None => None,
    }
}

/// Writes a texture to an extension slot. Nothing happens where the extension
/// is off or the key names no slot.
pub fn set_ext_texture(ext: &mut PbrExtensions, slot: &str, tref: Option<TextureRef>)
    ensures
        *final(ext) == match ext_slot_named(slot@) {
            Some(s) => slot_bound(*old(ext), s, tref),
            None => *old(ext),
        },
{
    match ext_slot(slot) {
        Some(ExtSlot::SpecularTex) => {
            if let Some(e) = ext.specular {
                ext.specular = Some(SpecularExt { tex: tref, ..e });
            }
        },
        Some(ExtSlot::SpecularColorTex) => {
            if let Some(e) = ext.specular {
                ext.specular = Some(SpecularExt { color_tex: tref, ..e });
            }
        },
        Some(ExtSlot::TransmissionTex) => {
            if let Some(e) = ext.transmission {
                ext.transmission = Some(TransmissionExt { tex: tref });
            }
        },
        Some(ExtSlot::DiffuseTransmissionTex) => {
            if let Some(e) = ext.diffuse_transmission {
                ext.diffuse_transmission = Some(DiffuseTransmissionExt { tex: tref, ..e });
            }
        },
        Some(ExtSlot::DiffuseTransmissionColorTex) => {
            if let Some(e) = ext.diffuse_transmission {
                ext.diffuse_transmission = Some(DiffuseTransmissionExt { color_tex: tref, ..e });
            }
        },
        Some(ExtSlot::VolumeThicknessTex) => {
            if let Some(e) = ext.volume {
                ext.volume = Some(VolumeExt { thickness_tex: tref });
            }
        },
        Some(ExtSlot::ClearcoatTex) => {
            if let Some(e) = ext.clearcoat {
                ext.clearcoat = Some(ClearcoatExt { tex: tref, ..e });
            }
        },
        Some(ExtSlot::ClearcoatRoughnessTex) => {
            if let Some(e) = ext.clearcoat {
                ext.clearcoat = Some(ClearcoatExt { roughness_tex: tref, ..e });
            }
        },
        Some(ExtSlot::ClearcoatNormalTex) => {
            if let Some(e) = ext.clearcoat {
                ext.clearcoat = Some(ClearcoatExt { normal_tex: tref, ..e });
            }
        },
        Some(ExtSlot::SheenColorTex) => {
            if let Some(e) = ext.sheen {
                ext.sheen = Some(SheenExt { color_tex: tref, ..e });
            }
        },
        Some(ExtSlot::SheenRoughnessTex) => {
            if let Some(e) = ext.sheen {
                ext.sheen = Some(SheenExt { roughness_tex: tref, ..e });
            }
        },
        Some(ExtSlot::AnisotropyTex) => {
            if let Some(e) = ext.anisotropy {
                ext.anisotropy = Some(AnisotropyExt { tex: tref });
            }
        },
        Some(ExtSlot::IridescenceTex) => {
            if let Some(e) = ext.iridescence {
                ext.iridescence = Some(IridescenceExt { tex: tref, ..e });
            }
        },
        Some(ExtSlot::IridescenceThicknessTex) => {
            if let Some(e) = ext.iridescence {
                ext.iridescence = Some(IridescenceExt { thickness_tex: tref, ..e });
            }
        },
        None => {},
    }
}

} // verus!
