//! What a scene has besides its nodes: its environment, its shadows, its
//! post-processing, and how it is bundled.
use crate::ids::AssetId;
use crate::palette::{kept, or_kept};
use crate::values::{Vec3, F32};
use vstd::prelude::*;

verus! {

/// What fills a slot of the environment.
#[derive(Clone, Copy, PartialEq, Eq, Structural, Debug)]
pub enum EnvSlot {
    BuiltInDefault,
    SkyGradient { zenith: Vec3, nadir: Vec3 },
    Ktx { asset_id: AssetId },
}

#[derive(Clone, Copy, PartialEq, Eq, Structural, Debug)]
pub enum Tonemapping {
    Off,
    KhronosNeutral,
    Aces,
}

/// The environment: what is seen, and what lights the scene.
#[derive(Clone, Copy, PartialEq, Eq, Structural, Debug)]
pub struct EnvironmentConfig {
    pub skybox: EnvSlot,
    pub specular: EnvSlot,
    pub irradiance: EnvSlot,
    pub probe: bool,
}

/// New fillings for some slots of the environment.
#[derive(Clone, Copy, PartialEq, Eq, Structural, Debug)]
pub struct EnvironmentPatch {
    pub skybox: Option<EnvSlot>,
    pub specular: Option<EnvSlot>,
    pub irradiance: Option<EnvSlot>,
    pub probe: Option<bool>,
}

/// Shadows; the fields named `sscs` are those of screen-space contact shadows.
#[derive(Clone, Copy, PartialEq, Eq, Structural, Debug)]
pub struct ShadowsConfig {
    pub map_size: u32,
    pub denoise: bool,
    pub sscs_enabled: bool,
    pub sscs_step_count: u32,
    pub sscs_step_world: F32,
    pub sscs_thickness: F32,
    pub sscs_directional_darkening: F32,
    pub sscs_punctual_darkening: F32,
}

/// New values for some fields of screen-space contact shadows.
#[derive(Clone, Copy, PartialEq, Eq, Structural, Debug)]
pub struct SscsPatch {
    pub enabled: Option<bool>,
    pub step_count: Option<u32>,
    pub step_world: Option<F32>,
    pub thickness: Option<F32>,
    pub directional_darkening: Option<F32>,
    pub punctual_darkening: Option<F32>,
}

/// Screen-space reflections.
#[derive(Clone, Copy, PartialEq, Eq, Structural, Debug)]
pub struct SsrConfig {
    pub enabled: bool,
    pub intensity: F32,
    pub max_distance: F32,
    pub thickness: F32,
    pub max_steps: u32,
    pub spread_cutoff: F32,
    pub edge_fade: F32,
    pub temporal: bool,
    pub resolution_scale: F32,
    pub temporal_weight: F32,
    pub debug: bool,
    pub bvh_reflections: bool,
}

/// Post-processing.
#[derive(Clone, Copy, PartialEq, Eq, Structural, Debug)]
pub struct PostProcessConfig {
    pub tonemapping: Tonemapping,
    pub bloom: bool,
    pub dof: bool,
    pub exposure: F32,
    pub bloom_threshold: F32,
    pub bloom_knee: F32,
    pub bloom_intensity: F32,
    pub bloom_scatter: F32,
    pub ssr: SsrConfig,
}

/// New values for some fields of post-processing.
#[derive(Clone, Copy, PartialEq, Eq, Structural, Debug)]
pub struct PostProcessPatch {
    pub tonemapping: Option<Tonemapping>,
    pub bloom: Option<bool>,
    pub dof: Option<bool>,
    pub exposure: Option<F32>,
    pub bloom_threshold: Option<F32>,
    pub bloom_knee: Option<F32>,
    pub bloom_intensity: Option<F32>,
    pub bloom_scatter: Option<F32>,
    pub ssr_enabled: Option<bool>,
    pub ssr_intensity: Option<F32>,
    pub ssr_max_distance: Option<F32>,
    pub ssr_thickness: Option<F32>,
    pub ssr_max_steps: Option<u32>,
    pub ssr_spread_cutoff: Option<F32>,
    pub ssr_edge_fade: Option<F32>,
    pub ssr_temporal: Option<bool>,
    pub ssr_resolution_scale: Option<F32>,
    pub ssr_temporal_weight: Option<F32>,
    pub ssr_debug: Option<bool>,
    pub ssr_bvh_reflections: Option<bool>,
}

/// How a bundle is made.
#[derive(Clone, Copy, PartialEq, Eq, Structural, Debug)]
pub struct BundleOptions {
    pub compress_textures: bool,
    pub bake_lods: bool,
}

/// Everything of a scene besides its nodes and assets.
#[derive(Clone, Copy, PartialEq, Eq, Structural, Debug)]
pub struct World {
    pub environment: EnvironmentConfig,
    pub shadows: ShadowsConfig,
    pub post_process: PostProcessConfig,
    pub bundle_options: BundleOptions,
}

#[derive(Clone, Copy, PartialEq, Eq, Structural, Debug)]
pub enum WorldCommand {
    SetEnvironment(EnvironmentConfig),
    PatchEnvironment(EnvironmentPatch),
    SetShadows(ShadowsConfig),
    SetShadowsSscs(SscsPatch),
    SetPostProcess(PostProcessPatch),
    SetBundleOptions(BundleOptions),
}

impl EnvironmentConfig {
    /// The built-in environment.
    #[verifier::allow_in_spec]
    pub fn standard() -> EnvironmentConfig
        returns
            (EnvironmentConfig {
                skybox: EnvSlot::BuiltInDefault,
                specular: EnvSlot::BuiltInDefault,
                irradiance: EnvSlot::BuiltInDefault,
                probe: false,
            }),
    {
        EnvironmentConfig {
            skybox: EnvSlot::BuiltInDefault,
            specular: EnvSlot::BuiltInDefault,
            irradiance: EnvSlot::BuiltInDefault,
            probe: false,
        }
    }
}

/// The environment after a patch; what is not given stays.
pub open spec fn environment_patched(c: EnvironmentConfig, p: EnvironmentPatch) -> EnvironmentConfig {
    EnvironmentConfig {
        skybox: or_kept(p.skybox, c.skybox),
        specular: or_kept(p.specular, c.specular),
        irradiance: or_kept(p.irradiance, c.irradiance),
        probe: or_kept(p.probe, c.probe),
    }
}

fn patch_environment(c: EnvironmentConfig, p: EnvironmentPatch) -> (r: EnvironmentConfig)
    ensures
        r == environment_patched(c, p),
{
    EnvironmentConfig {
        skybox: kept(p.skybox, c.skybox),
        specular: kept(p.specular, c.specular),
        irradiance: kept(p.irradiance, c.irradiance),
        probe: kept(p.probe, c.probe),
    }
}

/// A number of steps; at least one.
pub open spec fn some_steps(n: u32) -> u32 {
    if n < 1 {
        1
    } else {
        n
    }
}

/// The shadows after a patch of their contact shadows.
pub open spec fn sscs_patched(c: ShadowsConfig, p: SscsPatch) -> ShadowsConfig {
    ShadowsConfig {
        sscs_step_count: match p.step_count {
            Some(n) => some_steps(n),
            None => c.sscs_step_count,
        },
        sscs_enabled: or_kept(p.enabled, c.sscs_enabled),
        sscs_step_world: or_kept(p.step_world, c.sscs_step_world),
        sscs_thickness: or_kept(p.thickness, c.sscs_thickness),
        sscs_directional_darkening: or_kept(p.directional_darkening, c.sscs_directional_darkening),
        sscs_punctual_darkening: or_kept(p.punctual_darkening, c.sscs_punctual_darkening),
        ..c
    }
}

fn patch_sscs(c: ShadowsConfig, p: SscsPatch) -> (r: ShadowsConfig)
    ensures
        r == sscs_patched(c, p),
{
    ShadowsConfig {
        sscs_step_count: match p.step_count {
            Some(n) => if n < 1 {
                1
            } else {
                n
            },
            None => c.sscs_step_count,
        },
        sscs_enabled: kept(p.enabled, c.sscs_enabled),
        sscs_step_world: kept(p.step_world, c.sscs_step_world),
        sscs_thickness: kept(p.thickness, c.sscs_thickness),
        sscs_directional_darkening: kept(p.directional_darkening, c.sscs_directional_darkening),
        sscs_punctual_darkening: kept(p.punctual_darkening, c.sscs_punctual_darkening),
        ..c
    }
}

/// All fields of the contact shadows, as a patch.
pub open spec fn whole_sscs(c: ShadowsConfig) -> SscsPatch {
    SscsPatch {
        enabled: Some(c.sscs_enabled),
        step_count: Some(c.sscs_step_count),
        step_world: Some(c.sscs_step_world),
        thickness: Some(c.sscs_thickness),
        directional_darkening: Some(c.sscs_directional_darkening),
        punctual_darkening: Some(c.sscs_punctual_darkening),
    }
}

/// Post-processing after a patch.
pub open spec fn post_process_patched(c: PostProcessConfig, p: PostProcessPatch) -> PostProcessConfig {
    PostProcessConfig {
        tonemapping: or_kept(p.tonemapping, c.tonemapping),
        bloom: or_kept(p.bloom, c.bloom),
        dof: or_kept(p.dof, c.dof),
        exposure: or_kept(p.exposure, c.exposure),
        bloom_threshold: or_kept(p.bloom_threshold, c.bloom_threshold),
        bloom_knee: or_kept(p.bloom_knee, c.bloom_knee),
        bloom_intensity: or_kept(p.bloom_intensity, c.bloom_intensity),
        bloom_scatter: or_kept(p.bloom_scatter, c.bloom_scatter),
        ssr: SsrConfig {
            enabled: or_kept(p.ssr_enabled, c.ssr.enabled),
            intensity: or_kept(p.ssr_intensity, c.ssr.intensity),
            max_distance: or_kept(p.ssr_max_distance, c.ssr.max_distance),
            thickness: or_kept(p.ssr_thickness, c.ssr.thickness),
            max_steps: or_kept(p.ssr_max_steps, c.ssr.max_steps),
            spread_cutoff: or_kept(p.ssr_spread_cutoff, c.ssr.spread_cutoff),
            edge_fade: or_kept(p.ssr_edge_fade, c.ssr.edge_fade),
            temporal: or_kept(p.ssr_temporal, c.ssr.temporal),
            resolution_scale: or_kept(p.ssr_resolution_scale, c.ssr.resolution_scale),
            temporal_weight: or_kept(p.ssr_temporal_weight, c.ssr.temporal_weight),
            debug: or_kept(p.ssr_debug, c.ssr.debug),
            bvh_reflections: or_kept(p.ssr_bvh_reflections, c.ssr.bvh_reflections),
        },
    }
}

fn patch_post_process(c: PostProcessConfig, p: PostProcessPatch) -> (r: PostProcessConfig)
    ensures
        r == post_process_patched(c, p),
{
    PostProcessConfig {
        tonemapping: kept(p.tonemapping, c.tonemapping),
        bloom: kept(p.bloom, c.bloom),
        dof: kept(p.dof, c.dof),
        exposure: kept(p.exposure, c.exposure),
        bloom_threshold: kept(p.bloom_threshold, c.bloom_threshold),
        bloom_knee: kept(p.bloom_knee, c.bloom_knee),
        bloom_intensity: kept(p.bloom_intensity, c.bloom_intensity),
        bloom_scatter: kept(p.bloom_scatter, c.bloom_scatter),
        ssr: SsrConfig {
            enabled: kept(p.ssr_enabled, c.ssr.enabled),
            intensity: kept(p.ssr_intensity, c.ssr.intensity),
            max_distance: kept(p.ssr_max_distance, c.ssr.max_distance),
            thickness: kept(p.ssr_thickness, c.ssr.thickness),
            max_steps: kept(p.ssr_max_steps, c.ssr.max_steps),
            spread_cutoff: kept(p.ssr_spread_cutoff, c.ssr.spread_cutoff),
            edge_fade: kept(p.ssr_edge_fade, c.ssr.edge_fade),
            temporal: kept(p.ssr_temporal, c.ssr.temporal),
            resolution_scale: kept(p.ssr_resolution_scale, c.ssr.resolution_scale),
            temporal_weight: kept(p.ssr_temporal_weight, c.ssr.temporal_weight),
            debug: kept(p.ssr_debug, c.ssr.debug),
            bvh_reflections: kept(p.ssr_bvh_reflections, c.ssr.bvh_reflections),
        },
    }
}

/// All fields of post-processing, as a patch.
pub open spec fn whole_post_process(c: PostProcessConfig) -> PostProcessPatch {
    PostProcessPatch {
        tonemapping: Some(c.tonemapping),
        bloom: Some(c.bloom),
        dof: Some(c.dof),
        exposure: Some(c.exposure),
        bloom_threshold: Some(c.bloom_threshold),
        bloom_knee: Some(c.bloom_knee),
        bloom_intensity: Some(c.bloom_intensity),
        bloom_scatter: Some(c.bloom_scatter),
        ssr_enabled: Some(c.ssr.enabled),
        ssr_intensity: Some(c.ssr.intensity),
        ssr_max_distance: Some(c.ssr.max_distance),
        ssr_thickness: Some(c.ssr.thickness),
        ssr_max_steps: Some(c.ssr.max_steps),
        ssr_spread_cutoff: Some(c.ssr.spread_cutoff),
        ssr_edge_fade: Some(c.ssr.edge_fade),
        ssr_temporal: Some(c.ssr.temporal),
        ssr_resolution_scale: Some(c.ssr.resolution_scale),
        ssr_temporal_weight: Some(c.ssr.temporal_weight),
        ssr_debug: Some(c.ssr.debug),
        ssr_bvh_reflections: Some(c.ssr.bvh_reflections),
    }
}

/// The world after an edit.
pub open spec fn world_after(w: World, cmd: WorldCommand) -> World {
    match cmd {
        WorldCommand::SetEnvironment(environment) => World { environment, ..w },
        WorldCommand::PatchEnvironment(p) => World {
            environment: environment_patched(w.environment, p),
            ..w
        },
        WorldCommand::SetShadows(shadows) => World { shadows, ..w },
        WorldCommand::SetShadowsSscs(p) => World { shadows: sscs_patched(w.shadows, p), ..w },
        WorldCommand::SetPostProcess(p) => World {
            post_process: post_process_patched(w.post_process, p),
            ..w
        },
        WorldCommand::SetBundleOptions(bundle_options) => World { bundle_options, ..w },
    }
}

/// What takes an edit of the world back. Options that stay as they are need
/// nothing taken back.
pub open spec fn world_inverse(w: World, cmd: WorldCommand) -> Option<WorldCommand> {
    match cmd {
        WorldCommand::SetEnvironment(_) => Some(WorldCommand::SetEnvironment(w.environment)),
        WorldCommand::PatchEnvironment(_) => Some(WorldCommand::SetEnvironment(w.environment)),
        WorldCommand::SetShadows(_) => Some(WorldCommand::SetShadows(w.shadows)),
        WorldCommand::SetShadowsSscs(_) => Some(
            WorldCommand::SetShadowsSscs(whole_sscs(w.shadows)),
        ),
        WorldCommand::SetPostProcess(_) => Some(
            WorldCommand::SetPostProcess(whole_post_process(w.post_process)),
        ),
        WorldCommand::SetBundleOptions(o) => if o == w.bundle_options {
            None
        } else {
            Some(WorldCommand::SetBundleOptions(w.bundle_options))
        },
    }
}

/// Taking back an edit of the world leads to the world before it. Contact
/// shadows with no steps at all cannot be set again, so they are left out.
pub proof fn law_world_edit_is_undone(w: World, cmd: WorldCommand)
    requires
        cmd is SetShadowsSscs ==> w.shadows.sscs_step_count >= 1,
    ensures
        match world_inverse(w, cmd) {
            Some(inv) => world_after(world_after(w, cmd), inv) == w,
            None => world_after(w, cmd) == w,
        },
{
}

/// A patch of one slot leaves the other slots as they are.
pub proof fn law_environment_slots_are_independent(c: EnvironmentConfig, p: EnvironmentPatch)
    ensures
        p.skybox is None ==> environment_patched(c, p).skybox == c.skybox,
        p.specular is None ==> environment_patched(c, p).specular == c.specular,
        p.irradiance is None ==> environment_patched(c, p).irradiance == c.irradiance,
        p.probe is None ==> environment_patched(c, p).probe == c.probe,
{
}

impl World {
    /// The world of a new project.
    #[verifier::allow_in_spec]
    pub fn standard() -> World
        returns
            (
        World {
            environment: EnvironmentConfig::standard(),
            shadows: ShadowsConfig {
                map_size: 2048,
                denoise: true,
                sscs_enabled: false,
                sscs_step_count: 16,
                sscs_step_world: F32::one(),
                sscs_thickness: F32::one(),
                sscs_directional_darkening: F32::one(),
                sscs_punctual_darkening: F32::one(),
            },
            post_process: PostProcessConfig {
                tonemapping: Tonemapping::KhronosNeutral,
                bloom: false,
                dof: false,
                exposure: F32::zero(),
                bloom_threshold: F32::one(),
                bloom_knee: F32::zero(),
                bloom_intensity: F32::one(),
                bloom_scatter: F32::one(),
                ssr: SsrConfig {
                    enabled: false,
                    intensity: F32::one(),
                    max_distance: F32::one(),
                    thickness: F32::one(),
                    max_steps: 64,
                    spread_cutoff: F32::one(),
                    edge_fade: F32::zero(),
                    temporal: true,
                    resolution_scale: F32::one(),
                    temporal_weight: F32::one(),
                    debug: false,
                    bvh_reflections: false,
                },
            },
            bundle_options: BundleOptions { compress_textures: false, bake_lods: false },
        }
            ),
    {
        World {
            environment: EnvironmentConfig::standard(),
            shadows: ShadowsConfig {
                map_size: 2048,
                denoise: true,
                sscs_enabled: false,
                sscs_step_count: 16,
                sscs_step_world: F32::one(),
                sscs_thickness: F32::one(),
                sscs_directional_darkening: F32::one(),
                sscs_punctual_darkening: F32::one(),
            },
            post_process: PostProcessConfig {
                tonemapping: Tonemapping::KhronosNeutral,
                bloom: false,
                dof: false,
                exposure: F32::zero(),
                bloom_threshold: F32::one(),
                bloom_knee: F32::zero(),
                bloom_intensity: F32::one(),
                bloom_scatter: F32::one(),
                ssr: SsrConfig {
                    enabled: false,
                    intensity: F32::one(),
                    max_distance: F32::one(),
                    thickness: F32::one(),
                    max_steps: 64,
                    spread_cutoff: F32::one(),
                    edge_fade: F32::zero(),
                    temporal: true,
                    resolution_scale: F32::one(),
                    temporal_weight: F32::one(),
                    debug: false,
                    bvh_reflections: false,
                },
            },
            bundle_options: BundleOptions { compress_textures: false, bake_lods: false },
        }
    }

    /// Applies an edit of the world and hands back what takes it back.
    pub fn apply_world(&mut self, cmd: WorldCommand) -> (r: Option<WorldCommand>)
        ensures
            *final(self) == world_after(*old(self), cmd),
            r == world_inverse(*old(self), cmd),
    {
        match cmd {
            WorldCommand::SetEnvironment(env) => {
                let prev = self.environment;
                self.environment = env;
                Some(WorldCommand::SetEnvironment(prev))
            },
            WorldCommand::PatchEnvironment(p) => {
                let prev = self.environment;
                self.environment = patch_environment(prev, p);
                Some(WorldCommand::SetEnvironment(prev))
            },
            WorldCommand::SetShadows(shadows) => {
                let prev = self.shadows;
                self.shadows = shadows;
                Some(WorldCommand::SetShadows(prev))
            },
            WorldCommand::SetShadowsSscs(p) => {
                let c = self.shadows;
                self.shadows = patch_sscs(c, p);
                Some(
                    WorldCommand::SetShadowsSscs(
                        SscsPatch {
                            enabled: Some(c.sscs_enabled),
                            step_count: Some(c.sscs_step_count),
                            step_world: Some(c.sscs_step_world),
                            thickness: Some(c.sscs_thickness),
                            directional_darkening: Some(c.sscs_directional_darkening),
                            punctual_darkening: Some(c.sscs_punctual_darkening),
                        },
                    ),
                )
            },
            WorldCommand::SetPostProcess(p) => {
                let c = self.post_process;
                self.post_process = patch_post_process(c, p);
                Some(
                    WorldCommand::SetPostProcess(
                        PostProcessPatch {
                            tonemapping: Some(c.tonemapping),
                            bloom: Some(c.bloom),
                            dof: Some(c.dof),
                            exposure: Some(c.exposure),
                            bloom_threshold: Some(c.bloom_threshold),
                            bloom_knee: Some(c.bloom_knee),
                            bloom_intensity: Some(c.bloom_intensity),
                            bloom_scatter: Some(c.bloom_scatter),
                            ssr_enabled: Some(c.ssr.enabled),
                            ssr_intensity: Some(c.ssr.intensity),
                            ssr_max_distance: Some(c.ssr.max_distance),
                            ssr_thickness: Some(c.ssr.thickness),
                            ssr_max_steps: Some(c.ssr.max_steps),
                            ssr_spread_cutoff: Some(c.ssr.spread_cutoff),
                            ssr_edge_fade: Some(c.ssr.edge_fade),
                            ssr_temporal: Some(c.ssr.temporal),
                            ssr_resolution_scale: Some(c.ssr.resolution_scale),
                            ssr_temporal_weight: Some(c.ssr.temporal_weight),
                            ssr_debug: Some(c.ssr.debug),
                            ssr_bvh_reflections: Some(c.ssr.bvh_reflections),
                        },
                    ),
                )
            },
            WorldCommand::SetBundleOptions(options) => {
                let prev = self.bundle_options;
                if prev == options {
                    None
                } else {
                    self.bundle_options = options;
                    Some(WorldCommand::SetBundleOptions(prev))
                }
            },
        }
    }
}

} // verus!
