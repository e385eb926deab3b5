//! Per-frame decisions of the renderer: buffer sizing, render-target sizes, which
//! passes run and in what order, instance limits.
use vstd::prelude::*;
use crate::mesh::{cube_mesh, cube_vertices, dot_mesh, dot_vertices, PositionVertex};

verus! {

/// The new size of a grow-only vertex buffer about to receive `needed` bytes: `None`
/// when the present buffer is large enough and is reused, otherwise the size to create
/// it with (at least one byte, since a buffer cannot be empty).
pub open spec fn buffer_allocation_spec(current_size: Option<u64>, needed: u64) -> Option<u64> {
    match current_size {
        Some(size) if size >= needed => None,
        _ => Some(if needed == 0 { 1 } else { needed }),
    }
}

/// Decides what a grow-only vertex buffer slot does before a write of `needed` bytes:
/// reuse the buffer when it holds them, else (re)create it with the size returned.
pub fn buffer_allocation(current_size: Option<u64>, needed: u64) -> (alloc: Option<u64>)
    ensures
        alloc == buffer_allocation_spec(current_size, needed),
{
    let needs_grow = match current_size {
        Some(size) => size < needed,
        None => true,
    };
    if needs_grow {
        Some(if needed == 0 { 1 } else { needed })
    } else {
        None
    }
}

/// What a grow-only vertex buffer slot does with `data_len` bytes of new data: the size
/// to (re)create the buffer with, if any, and whether the data is written. Empty data is
/// not written, but the slot still ends up holding a buffer.
pub fn buffer_write_plan(current_size: Option<u64>, data_len: u64) -> (plan: (Option<u64>, bool))
    ensures
        plan == (buffer_allocation_spec(current_size, data_len), data_len > 0),
{
    (buffer_allocation(current_size, data_len), data_len > 0)
}

/// The size of the buffer once a write of `needed` bytes has been made.
pub open spec fn size_after_write(current_size: Option<u64>, needed: u64) -> u64 {
    match buffer_allocation_spec(current_size, needed) {
        Some(size) => size,
        None => current_size->Some_0,
    }
}

/// Law: the vertex buffer is grow-only and always fits what was written: after a write
/// it holds at least the data and at least one byte, it never shrinks, and a buffer
/// that already fits is kept as it is.
pub proof fn law_buffer_grow_only(current_size: Option<u64>, needed: u64)
    ensures
        size_after_write(current_size, needed) >= needed,
        size_after_write(current_size, needed) >= 1 || current_size is Some,
        current_size matches Some(size) ==> size_after_write(current_size, needed) >= size,
        current_size matches Some(size) && size >= needed ==> buffer_allocation_spec(current_size, needed) is None,
{
}

/// Size of the quarter-resolution bloom textures for a `width` x `height` viewport.
pub fn bloom_size(width: u32, height: u32) -> (size: (u32, u32))
    ensures
        size.0 == (if width / 4 >= 1 { width / 4 } else { 1 }),
        size.1 == (if height / 4 >= 1 { height / 4 } else { 1 }),
{
    let w = if width / 4 >= 1 { width / 4 } else { 1 };
    let h = if height / 4 >= 1 { height / 4 } else { 1 };
    (w, h)
}

/// The bloom on/off flag as the shader sees it.
pub struct BloomSwitch {
    pub enabled: u32,
}

/// Switching bloom on or off from flag `state`: the new flag, and whether it changed
/// (and the uniforms must be rewritten).
pub open spec fn bloom_switch_step(state: u32, on: bool) -> (u32, bool) {
    let flag: u32 = if on { 1 } else { 0 };
    (flag, state != flag)
}

impl BloomSwitch {
    /// Turns bloom on or off; returns whether the uniforms changed and must be rewritten.
    pub fn set_enabled(&mut self, enabled: bool) -> (changed: bool)
        ensures
            (final(self).enabled, changed) == bloom_switch_step(old(self).enabled, enabled),
    {
        let flag: u32 = if enabled { 1 } else { 0 };
        if self.enabled == flag {
            return false;
        }
        self.enabled = flag;
        true
    }
}

/// Law: switching bloom to the state it is already in rewrites nothing, so of two
/// identical calls in a row the second never writes; a real change always writes.
pub proof fn law_bloom_switch_idempotent(state: u32, on: bool)
    ensures
        !bloom_switch_step(bloom_switch_step(state, on).0, on).1,
        bloom_switch_step(bloom_switch_step(state, on).0, !on).1,
{
}

/// The size the MSAA colour and depth targets were last made for.
pub struct TargetSize {
    pub size: (u32, u32),
}

/// Preparing a frame of `width` x `height` with targets of size `size`: the new target
/// size, and whether the targets are recreated.
pub open spec fn resize_step(size: (u32, u32), width: u32, height: u32) -> ((u32, u32), bool) {
    ((width, height), size != (width, height))
}

impl TargetSize {
    /// Records the viewport size for this frame; returns whether the targets must be
    /// recreated (the size changed).
    pub fn resize_to(&mut self, width: u32, height: u32) -> (recreate: bool)
        ensures
            (final(self).size, recreate) == resize_step(old(self).size, width, height),
    {
        if self.size.0 != width || self.size.1 != height {
            self.size = (width, height);
            true
        } else {
            false
        }
    }
}

/// Law: the render targets follow the viewport: after a frame they have its size, a
/// second frame of the same size recreates nothing, and a frame of another size does.
pub proof fn law_targets_follow_viewport(size: (u32, u32), width: u32, height: u32, w2: u32, h2: u32)
    ensures
        resize_step(size, width, height).0 == (width, height),
        !resize_step(resize_step(size, width, height).0, width, height).1,
        (w2, h2) != (width, height) ==> resize_step(resize_step(size, width, height).0, w2, h2).1,
{
}

/// The passes of the scene, each drawn by its own pipeline.
#[derive(Clone, Copy, Debug, PartialEq, Eq)]
pub enum SceneStep {
    ClearQuad,
    MilkyWay,
    StarCatalog,
    Planet,
    Sun,
    Orbits,
    Shapes,
    Clouds,
    Satellites,
    Stations,
    Moon,
    FovFill,
    Atmosphere,
    Bloom,
}

/// What the scene pass draws, in order, and the post-processing after it.
pub open spec fn scene_steps_spec(
    clip_width: u32,
    clip_height: u32,
    has_msaa_target: bool,
    show_clouds: bool,
    show_atmosphere: bool,
    has_fov_buffer: bool,
    fov_vertex_count: u32,
) -> Seq<SceneStep> {
    if clip_width == 0 || clip_height == 0 || !has_msaa_target {
        Seq::empty()
    } else {
        seq![
            SceneStep::ClearQuad,
            SceneStep::MilkyWay,
            SceneStep::StarCatalog,
            SceneStep::Planet,
            SceneStep::Sun,
            SceneStep::Orbits,
            SceneStep::Shapes,
        ] + (if show_clouds { seq![SceneStep::Clouds] } else { Seq::empty() }) + seq![
            SceneStep::Satellites,
            SceneStep::Stations,
            SceneStep::Moon,
        ] + (if has_fov_buffer && fov_vertex_count > 0 { seq![SceneStep::FovFill] } else { Seq::empty() })
            + (if show_atmosphere { seq![SceneStep::Atmosphere] } else { Seq::empty() }) + seq![SceneStep::Bloom]
    }
}

/// The order in which a frame is drawn: nothing when the clip area is empty or the
/// MSAA target is missing; otherwise background, stars, the opaque planet, the sun
/// (after the planet, which hides it by depth, and before the overlays it must not
/// cover), overlays, optional clouds, the instanced objects, the field-of-view fill,
/// the optional atmosphere, and bloom post-processing last.
pub fn scene_steps(
    clip_width: u32,
    clip_height: u32,
    has_msaa_target: bool,
    show_clouds: bool,
    show_atmosphere: bool,
    has_fov_buffer: bool,
    fov_vertex_count: u32,
) -> (steps: Vec<SceneStep>)
    ensures
        steps@ == scene_steps_spec(
            clip_width,
            clip_height,
            has_msaa_target,
            show_clouds,
            show_atmosphere,
            has_fov_buffer,
            fov_vertex_count,
        ),
{
    if clip_width == 0 || clip_height == 0 {
        return Vec::new();
    }
    if !has_msaa_target {
        return Vec::new();
    }
    let mut steps: Vec<SceneStep> = Vec::new();
    steps.push(SceneStep::ClearQuad);
    steps.push(SceneStep::MilkyWay);
    steps.push(SceneStep::StarCatalog);
    steps.push(SceneStep::Planet);
    steps.push(SceneStep::Sun);
    steps.push(SceneStep::Orbits);
    steps.push(SceneStep::Shapes);
    if show_clouds {
        steps.push(SceneStep::Clouds);
    }
    steps.push(SceneStep::Satellites);
    steps.push(SceneStep::Stations);
    steps.push(SceneStep::Moon);
    if has_fov_buffer && fov_vertex_count > 0 {
        steps.push(SceneStep::FovFill);
    }
    if show_atmosphere {
        steps.push(SceneStep::Atmosphere);
    }
    steps.push(SceneStep::Bloom);
    assert(steps@ =~= scene_steps_spec(
        clip_width,
        clip_height,
        has_msaa_target,
        show_clouds,
        show_atmosphere,
        has_fov_buffer,
        fov_vertex_count,
    ));
    steps
}

/// Law: whenever a frame is drawn, the planet comes before the sun, the atmosphere (if
/// shown) comes after every other scene pass, and bloom post-processing comes last.
pub proof fn law_scene_order(
    clip_width: u32,
    clip_height: u32,
    has_msaa_target: bool,
    show_clouds: bool,
    show_atmosphere: bool,
    has_fov_buffer: bool,
    fov_vertex_count: u32,
)
    ensures
        ({
            let s = scene_steps_spec(
                clip_width,
                clip_height,
                has_msaa_target,
                show_clouds,
                show_atmosphere,
                has_fov_buffer,
                fov_vertex_count,
            );
            &&& s.len() > 0 ==> s[3] == SceneStep::Planet && s[4] == SceneStep::Sun
            &&& s.len() > 0 ==> s.last() == SceneStep::Bloom
            &&& s.len() > 0 && show_atmosphere ==> s[s.len() - 2] == SceneStep::Atmosphere
            &&& s.len() > 0 <==> (clip_width > 0 && clip_height > 0 && has_msaa_target)
        }),
{
}

/// Most instances one uniform buffer of satellite (or station) models holds.
pub const MAX_INSTANCES: usize = 64;

/// How many instances are drawn for `models` model matrices: all of them, up to the
/// uniform buffer's capacity.
pub fn instance_count(models: usize) -> (count: u32)
    ensures
        count == (if models < MAX_INSTANCES { models } else { MAX_INSTANCES }),
{
    if models < MAX_INSTANCES { models as u32 } else { MAX_INSTANCES as u32 }
}

/// How satellites are drawn.
#[derive(Debug, Copy, Clone, PartialEq, Eq)]
pub enum SatelliteRenderMode {
    /// A small cube at each satellite.
    Cube,
    /// A camera-facing dot at each satellite.
    Dot,
}

/// The mesh drawn at each satellite in a render mode.
pub fn satellite_mesh(mode: SatelliteRenderMode) -> (verts: Vec<PositionVertex>)
    ensures
        verts@ == (match mode {
            SatelliteRenderMode::Cube => cube_mesh(),
            SatelliteRenderMode::Dot => dot_mesh(),
        }),
{
    match mode {
        SatelliteRenderMode::Cube => cube_vertices(),
        SatelliteRenderMode::Dot => dot_vertices(),
    }
}

/// The draw ranges of the orbit and feature lines once both vertex lists are put in one
/// buffer, orbits first: feature ranges move past the orbit vertices. Nothing is drawn
/// when neither list has a vertex.
pub open spec fn combined_ranges_spec(
    orbit_vertices: nat,
    feature_vertices: nat,
    orbit_ranges: Seq<(u32, u32)>,
    feature_ranges: Seq<(u32, u32)>,
) -> Seq<(u32, u32)> {
    if orbit_vertices == 0 && feature_vertices == 0 {
        Seq::empty()
    } else {
        orbit_ranges + feature_ranges.map_values(|r: (u32, u32)| ((r.0 + orbit_vertices) as u32, r.1))
    }
}

/// The draw ranges of orbit and feature lines that share one vertex buffer, orbits first.
pub fn combined_ranges(
    orbit_vertices: usize,
    feature_vertices: usize,
    orbit_ranges: &Vec<(u32, u32)>,
    feature_ranges: &Vec<(u32, u32)>,
) -> (ranges: Vec<(u32, u32)>)
    requires
        orbit_vertices <= u32::MAX,
        forall|k: int| 0 <= k < feature_ranges.len() ==> #[trigger] feature_ranges@[k].0 + orbit_vertices <= u32::MAX,
    ensures
        ranges@ == combined_ranges_spec(orbit_vertices as nat, feature_vertices as nat, orbit_ranges@, feature_ranges@),
{
    if orbit_vertices == 0 && feature_vertices == 0 {
        return Vec::new();
    }
    let mut ranges: Vec<(u32, u32)> = Vec::new();
    let mut i: usize = 0;
    while i < orbit_ranges.len()
        invariant
            i <= orbit_ranges.len(),
            ranges@ == orbit_ranges@.take(i as int),
        decreases orbit_ranges.len() - i,
    {
        ranges.push(orbit_ranges[i]);
        assert(orbit_ranges@.take(i + 1) =~= orbit_ranges@.take(i as int).push(orbit_ranges@[i as int]));
        i = i + 1;
    }
    assert(orbit_ranges@.take(orbit_ranges.len() as int) =~= orbit_ranges@);
    let offset = orbit_vertices as u32;
    let ghost shift = |r: (u32, u32)| ((r.0 + orbit_vertices) as u32, r.1);
    let mut j: usize = 0;
    while j < feature_ranges.len()
        invariant
            j <= feature_ranges.len(),
            offset == orbit_vertices,
            forall|k: int| 0 <= k < feature_ranges.len() ==> #[trigger] feature_ranges@[k].0 + orbit_vertices <= u32::MAX,
            shift == (|r: (u32, u32)| ((r.0 + orbit_vertices) as u32, r.1)),
            ranges@ == orbit_ranges@ + feature_ranges@.take(j as int).map_values(shift),
        decreases feature_ranges.len() - j,
    {
        let (start, len) = feature_ranges[j];
        assert(feature_ranges@[j as int].0 + orbit_vertices <= u32::MAX);
        ranges.push((start + offset, len));
        assert(feature_ranges@.take(j + 1).map_values(shift) =~= feature_ranges@.take(j as int).map_values(shift).push(
            shift(feature_ranges@[j as int]),
        ));
        j = j + 1;
    }
    assert(feature_ranges@.take(feature_ranges.len() as int) =~= feature_ranges@);
    ranges
}

/// Law: merging keeps every orbit range as it was and makes every feature range address
/// the same vertices as before, now placed after the orbit vertices.
pub proof fn law_combined_ranges_shift(
    orbit_vertices: nat,
    feature_vertices: nat,
    orbit_ranges: Seq<(u32, u32)>,
    feature_ranges: Seq<(u32, u32)>,
)
    requires
        orbit_vertices > 0 || feature_vertices > 0,
        forall|k: int| 0 <= k < feature_ranges.len() ==> #[trigger] feature_ranges[k].0 + orbit_vertices <= u32::MAX,
    ensures
        ({
            let c = combined_ranges_spec(orbit_vertices, feature_vertices, orbit_ranges, feature_ranges);
            &&& c.len() == orbit_ranges.len() + feature_ranges.len()
            &&& forall|k: int| 0 <= k < orbit_ranges.len() ==> #[trigger] c[k] == orbit_ranges[k]
            &&& forall|k: int|
                #![trigger feature_ranges[k]]
                0 <= k < feature_ranges.len() ==> c[orbit_ranges.len() + k].0 == feature_ranges[k].0 + orbit_vertices
                    && c[orbit_ranges.len() + k].1 == feature_ranges[k].1
        }),
{
}

/// The layer of each pass, back to front: passes are drawn in increasing layer. The
/// background and stars first, the opaque planet, the sun (hidden by the planet's depth,
/// drawn under the overlays), orbit lines and shapes, clouds, the instanced satellites,
/// stations and moon, the field-of-view fill, the atmosphere, and bloom last.
pub open spec fn scene_layer(step: SceneStep) -> int {
    match step {
        SceneStep::ClearQuad => 0,
        SceneStep::MilkyWay => 1,
        SceneStep::StarCatalog => 2,
        SceneStep::Planet => 3,
        SceneStep::Sun => 4,
        SceneStep::Orbits => 5,
        SceneStep::Shapes => 6,
        SceneStep::Clouds => 7,
        SceneStep::Satellites => 8,
        SceneStep::Stations => 9,
        SceneStep::Moon => 10,
        SceneStep::FovFill => 11,
        SceneStep::Atmosphere => 12,
        SceneStep::Bloom => 13,
    }
}

/// Whether a pass is drawn in a frame that is drawn at all: the clouds exactly when they
/// are shown, the field-of-view fill exactly when it has a buffer with vertices, the
/// atmosphere exactly when it is shown, every other pass always.
pub open spec fn pass_drawn(
    step: SceneStep,
    show_clouds: bool,
    show_atmosphere: bool,
    has_fov_buffer: bool,
    fov_vertex_count: u32,
) -> bool {
    match step {
        SceneStep::Clouds => show_clouds,
        SceneStep::FovFill => has_fov_buffer && fov_vertex_count > 0,
        SceneStep::Atmosphere => show_atmosphere,
        _ => true,
    }
}

/// Law: a frame is drawn exactly when its clip area is not empty and it has an MSAA
/// target; then each pass is drawn exactly when its own flag asks for it (no pass
/// depends on another's flag), each once, in increasing layer.
pub proof fn law_scene_passes(
    clip_width: u32,
    clip_height: u32,
    has_msaa_target: bool,
    show_clouds: bool,
    show_atmosphere: bool,
    has_fov_buffer: bool,
    fov_vertex_count: u32,
)
    ensures
        ({
            let s = scene_steps_spec(
                clip_width,
                clip_height,
                has_msaa_target,
                show_clouds,
                show_atmosphere,
                has_fov_buffer,
                fov_vertex_count,
            );
            let drawn = clip_width > 0 && clip_height > 0 && has_msaa_target;
            &&& !drawn ==> s.len() == 0
            &&& forall|step: SceneStep|
                #[trigger] s.contains(step) <==> drawn && pass_drawn(
                    step,
                    show_clouds,
                    show_atmosphere,
                    has_fov_buffer,
                    fov_vertex_count,
                )
            &&& forall|i: int, j: int| 0 <= i < j < s.len() ==> scene_layer(#[trigger] s[i]) < scene_layer(#[trigger] s[j])
        }),
{
    let s = scene_steps_spec(
        clip_width,
        clip_height,
        has_msaa_target,
        show_clouds,
        show_atmosphere,
        has_fov_buffer,
        fov_vertex_count,
    );
    let drawn = clip_width > 0 && clip_height > 0 && has_msaa_target;
    if drawn {
        let c = if show_clouds { seq![SceneStep::Clouds] } else { Seq::<SceneStep>::empty() };
        let f = if has_fov_buffer && fov_vertex_count > 0 { seq![SceneStep::FovFill] } else { Seq::<SceneStep>::empty() };
        let a = if show_atmosphere { seq![SceneStep::Atmosphere] } else { Seq::<SceneStep>::empty() };
        let head = seq![
            SceneStep::ClearQuad,
            SceneStep::MilkyWay,
            SceneStep::StarCatalog,
            SceneStep::Planet,
            SceneStep::Sun,
            SceneStep::Orbits,
            SceneStep::Shapes,
        ];
        let mid = seq![SceneStep::Satellites, SceneStep::Stations, SceneStep::Moon];
        assert(s == head + c + mid + f + a + seq![SceneStep::Bloom]);
        // Layer of position k: k plus the number of optional passes left out before it,
        // which never decreases along the list.
        let n1 = 7 + c.len();
        let n2 = n1 + 3 + f.len();
        let n3 = n2 + a.len();
        let skipped = |k: int| if k < n1 {
            0
        } else if k < n1 + 3 {
            1 - c.len()
        } else if k < n2 {
            1 - c.len()
        } else if k < n3 {
            2 - c.len() - f.len()
        } else {
            3 - c.len() - f.len() - a.len()
        };
        assert(s.len() == n3 + 1);
        assert forall|k: int| 0 <= k < s.len() implies scene_layer(#[trigger] s[k]) == k + skipped(k) by {
            if k < 7 {
                assert(s[k] == head[k]);
            } else if k < n1 {
                assert(s[k] == SceneStep::Clouds);
            } else if k < n1 + 3 {
                assert(s[k] == mid[k - n1]);
            } else if k < n2 {
                assert(s[k] == SceneStep::FovFill);
            } else if k < n3 {
                assert(s[k] == SceneStep::Atmosphere);
            } else {
                assert(s[k] == SceneStep::Bloom);
            }
        }
        assert forall|i: int, j: int| 0 <= i < j < s.len() implies scene_layer(#[trigger] s[i]) < scene_layer(
            #[trigger] s[j],
        ) by {
            assert(scene_layer(s[i]) == i + skipped(i));
            assert(scene_layer(s[j]) == j + skipped(j));
        }
        assert forall|step: SceneStep| #[trigger] s.contains(step) <==> pass_drawn(
            step,
            show_clouds,
            show_atmosphere,
            has_fov_buffer,
            fov_vertex_count,
        ) by {
            if pass_drawn(step, show_clouds, show_atmosphere, has_fov_buffer, fov_vertex_count) {
                let k: int = if scene_layer(step) < 7 {
                    scene_layer(step)
                } else if step == SceneStep::Clouds {
                    7
                } else if 8 <= scene_layer(step) <= 10 {
                    7 + c.len() + scene_layer(step) - 8
                } else if step == SceneStep::FovFill {
                    (10 + c.len()) as int
                } else if step == SceneStep::Atmosphere {
                    (10 + c.len() + f.len()) as int
                } else {
                    s.len() - 1
                };
                assert(s[k] == step);
            } else {
                assert forall|k: int| 0 <= k < s.len() implies s[k] != step by {}
            }
        }
    } else {
        assert forall|step: SceneStep| !(#[trigger] s.contains(step)) by {}
    }
}

} // verus!
