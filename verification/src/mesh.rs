//! Small instance meshes (satellite, station marker, billboards) as triangle lists.
//!
//! Coordinates are exact: fixed-point thousandths of a model unit. Points on a
//! circle are kept symbolic, as a step around a ring of a given number of segments,
//! so the trigonometry is left to whoever turns the mesh into floats.
use vstd::prelude::*;

verus! {

/// A point of a mesh, in thousandths of a model unit.
#[derive(Clone, Copy, Debug, PartialEq, Eq)]
pub enum MeshPoint {
    /// An exact point `(x, y, z)`.
    Exact { x: i32, y: i32, z: i32 },
    /// `(cos t * radius, y, sin t * radius)` with `t = step * 2π / segments`: a ring around Y.
    RingY { step: usize, segments: usize, radius: i32, y: i32 },
    /// `(cos t * radius, sin t * radius, z)` with `t = step * 2π / segments`: a ring around Z.
    RingZ { step: usize, segments: usize, radius: i32, z: i32 },
}

/// A vertex normal: an axis direction, or the outward radial direction
/// `(cos t, 0, sin t)` of a ring around Y.
#[derive(Clone, Copy, Debug, PartialEq, Eq)]
pub enum MeshNormal {
    Axis { x: i8, y: i8, z: i8 },
    RadialY { step: usize, segments: usize },
}

/// The material of a satellite part; each has its own colour.
#[derive(Clone, Copy, Debug, PartialEq, Eq)]
pub enum PartColor {
    Bus,
    Panel,
    Mast,
    Instrument,
}

/// A lit, coloured mesh vertex.
#[derive(Clone, Copy, Debug, PartialEq, Eq)]
pub struct ModelVertex {
    pub position: MeshPoint,
    pub normal: MeshNormal,
    pub color: PartColor,
}

/// An unlit mesh vertex.
#[derive(Clone, Copy, Debug, PartialEq, Eq)]
pub struct PositionVertex {
    pub position: MeshPoint,
}

pub open spec fn exact(p: [i32; 3]) -> MeshPoint {
    MeshPoint::Exact { x: p[0], y: p[1], z: p[2] }
}

pub open spec fn axis(n: [i8; 3]) -> MeshNormal {
    MeshNormal::Axis { x: n[0], y: n[1], z: n[2] }
}

/// The two triangles `a b c` and `a c d` of a quad, all with one normal and colour.
pub open spec fn quad_mesh(corners: [[i32; 3]; 4], normal: [i8; 3], color: PartColor) -> Seq<ModelVertex> {
    let v = |p: [i32; 3]| ModelVertex { position: exact(p), normal: axis(normal), color };
    seq![v(corners[0]), v(corners[1]), v(corners[2]), v(corners[0]), v(corners[2]), v(corners[3])]
}

/// An axis-aligned box from `min` to `max`: the faces +Y, -Y, +X, -X, +Z, -Z in turn.
pub open spec fn box_mesh(min: [i32; 3], max: [i32; 3], color: PartColor) -> Seq<ModelVertex> {
    let (x0, y0, z0) = (min[0], min[1], min[2]);
    let (x1, y1, z1) = (max[0], max[1], max[2]);
    quad_mesh([[x0, y1, z0], [x1, y1, z0], [x1, y1, z1], [x0, y1, z1]], [0, 1, 0], color)
        + quad_mesh([[x0, y0, z1], [x1, y0, z1], [x1, y0, z0], [x0, y0, z0]], [0i8, -1i8, 0i8], color)
        + quad_mesh([[x1, y0, z0], [x1, y1, z0], [x1, y1, z1], [x1, y0, z1]], [1, 0, 0], color)
        + quad_mesh([[x0, y0, z1], [x0, y1, z1], [x0, y1, z0], [x0, y0, z0]], [-1i8, 0i8, 0i8], color)
        + quad_mesh([[x0, y0, z1], [x1, y0, z1], [x1, y1, z1], [x0, y1, z1]], [0, 0, 1], color)
        + quad_mesh([[x0, y1, z0], [x1, y1, z0], [x1, y0, z0], [x0, y0, z0]], [0i8, 0i8, -1i8], color)
}

/// Builds the two triangles of a quad face.
pub fn box_face(corners: [[i32; 3]; 4], normal: [i8; 3], color: PartColor) -> (verts: Vec<ModelVertex>)
    ensures
        verts@ == quad_mesh(corners, normal, color),
{
    let a = MeshPoint::Exact { x: corners[0][0], y: corners[0][1], z: corners[0][2] };
    let b = MeshPoint::Exact { x: corners[1][0], y: corners[1][1], z: corners[1][2] };
    let c = MeshPoint::Exact { x: corners[2][0], y: corners[2][1], z: corners[2][2] };
    let d = MeshPoint::Exact { x: corners[3][0], y: corners[3][1], z: corners[3][2] };
    let n = MeshNormal::Axis { x: normal[0], y: normal[1], z: normal[2] };
    let verts = vec![
        ModelVertex { position: a, normal: n, color },
        ModelVertex { position: b, normal: n, color },
        ModelVertex { position: c, normal: n, color },
        ModelVertex { position: a, normal: n, color },
        ModelVertex { position: c, normal: n, color },
        ModelVertex { position: d, normal: n, color },
    ];
    assert(verts@ =~= quad_mesh(corners, normal, color));
    verts
}

/// Axis-aligned box with outward face normals. `min`/`max` are component-wise.
pub fn box_vertices(min: [i32; 3], max: [i32; 3], color: PartColor) -> (verts: Vec<ModelVertex>)
    ensures
        verts@ == box_mesh(min, max, color),
{
    let (x0, y0, z0) = (min[0], min[1], min[2]);
    let (x1, y1, z1) = (max[0], max[1], max[2]);
    let mut verts: Vec<ModelVertex> = Vec::with_capacity(36);
    let mut f = box_face([[x0, y1, z0], [x1, y1, z0], [x1, y1, z1], [x0, y1, z1]], [0, 1, 0], color);
    verts.append(&mut f);
    let mut f = box_face([[x0, y0, z1], [x1, y0, z1], [x1, y0, z0], [x0, y0, z0]], [0, -1, 0], color);
    verts.append(&mut f);
    let mut f = box_face([[x1, y0, z0], [x1, y1, z0], [x1, y1, z1], [x1, y0, z1]], [1, 0, 0], color);
    verts.append(&mut f);
    let mut f = box_face([[x0, y0, z1], [x0, y1, z1], [x0, y1, z0], [x0, y0, z0]], [-1, 0, 0], color);
    verts.append(&mut f);
    let mut f = box_face([[x0, y0, z1], [x1, y0, z1], [x1, y1, z1], [x0, y1, z1]], [0, 0, 1], color);
    verts.append(&mut f);
    let mut f = box_face([[x0, y1, z0], [x1, y1, z0], [x1, y0, z0], [x0, y0, z0]], [0, 0, -1], color);
    verts.append(&mut f);
    verts
}

pub open spec fn ring_y(step: int, segments: usize, radius: i32, y: i32) -> MeshPoint {
    MeshPoint::RingY { step: step as usize, segments, radius, y }
}

pub open spec fn radial_y(step: int, segments: usize) -> MeshNormal {
    MeshNormal::RadialY { step: step as usize, segments }
}

/// The side quad of segment `i` of a cylinder around Y, with radial normals.
pub open spec fn cylinder_side(i: int, y_min: i32, y_max: i32, radius: i32, segments: usize, color: PartColor) -> Seq<ModelVertex> {
    let v = |step: int, y: i32| ModelVertex { position: ring_y(step, segments, radius, y), normal: radial_y(step, segments), color };
    seq![v(i, y_min), v(i + 1, y_min), v(i + 1, y_max), v(i, y_min), v(i + 1, y_max), v(i, y_max)]
}

/// The bottom and top cap triangles of segment `i` of a cylinder around Y.
pub open spec fn cylinder_caps(i: int, y_min: i32, y_max: i32, radius: i32, segments: usize, color: PartColor) -> Seq<ModelVertex> {
    let down = axis([0i8, -1i8, 0i8]);
    let up = axis([0i8, 1i8, 0i8]);
    seq![
        ModelVertex { position: exact([0i32, y_min, 0i32]), normal: down, color },
        ModelVertex { position: ring_y(i + 1, segments, radius, y_min), normal: down, color },
        ModelVertex { position: ring_y(i, segments, radius, y_min), normal: down, color },
        ModelVertex { position: exact([0i32, y_max, 0i32]), normal: up, color },
        ModelVertex { position: ring_y(i, segments, radius, y_max), normal: up, color },
        ModelVertex { position: ring_y(i + 1, segments, radius, y_max), normal: up, color },
    ]
}

/// A closed cylinder around Y: all side quads, then all cap triangles.
pub open spec fn cylinder_mesh(y_min: i32, y_max: i32, radius: i32, segments: usize, color: PartColor) -> Seq<ModelVertex> {
    Seq::new(6 * segments as nat, |k: int| cylinder_side(k / 6, y_min, y_max, radius, segments, color)[k % 6])
        + Seq::new(6 * segments as nat, |k: int| cylinder_caps(k / 6, y_min, y_max, radius, segments, color)[k % 6])
}

/// Closed cylinder with axis along Y, radial side normals and capped ends.
pub fn cylinder_vertices(y_min: i32, y_max: i32, radius: i32, segments: usize, color: PartColor) -> (verts: Vec<ModelVertex>)
    requires
        12 * segments <= usize::MAX,
    ensures
        verts@ == cylinder_mesh(y_min, y_max, radius, segments, color),
{
    let mut verts: Vec<ModelVertex> = Vec::new();
    let mut i: usize = 0;
    while i < segments
        invariant
            i <= segments,
            12 * segments <= usize::MAX,
            verts.len() == 6 * i,
            forall|k: int| 0 <= k < 6 * i ==> #[trigger] verts@[k] == cylinder_side(k / 6, y_min, y_max, radius, segments, color)[k % 6],
        decreases segments - i,
    {
        let n0 = MeshNormal::RadialY { step: i, segments };
        let n1 = MeshNormal::RadialY { step: i + 1, segments };
        let p00 = MeshPoint::RingY { step: i, segments, radius, y: y_min };
        let p01 = MeshPoint::RingY { step: i + 1, segments, radius, y: y_min };
        let p11 = MeshPoint::RingY { step: i + 1, segments, radius, y: y_max };
        let p10 = MeshPoint::RingY { step: i, segments, radius, y: y_max };
        verts.push(ModelVertex { position: p00, normal: n0, color });
        verts.push(ModelVertex { position: p01, normal: n1, color });
        verts.push(ModelVertex { position: p11, normal: n1, color });
        verts.push(ModelVertex { position: p00, normal: n0, color });
        verts.push(ModelVertex { position: p11, normal: n1, color });
        verts.push(ModelVertex { position: p10, normal: n0, color });
        proof {
            assert forall|k: int| 0 <= k < 6 * (i + 1) implies #[trigger] verts@[k] == cylinder_side(k / 6, y_min, y_max, radius, segments, color)[k % 6] by {
                if k >= 6 * i {
                    assert(k / 6 == i);
                }
            }
        }
        i = i + 1;
    }
    let ghost side = verts@;
    let center_top = MeshPoint::Exact { x: 0, y: y_max, z: 0 };
    let center_bottom = MeshPoint::Exact { x: 0, y: y_min, z: 0 };
    let down = MeshNormal::Axis { x: 0, y: -1, z: 0 };
    let up = MeshNormal::Axis { x: 0, y: 1, z: 0 };
    let mut i: usize = 0;
    while i < segments
        invariant
            i <= segments,
            12 * segments <= usize::MAX,
            side.len() == 6 * segments,
            verts.len() == 6 * segments + 6 * i,
            center_top == exact([0i32, y_max, 0i32]),
            center_bottom == exact([0i32, y_min, 0i32]),
            down == axis([0i8, -1i8, 0i8]),
            up == axis([0i8, 1i8, 0i8]),
            forall|k: int| 0 <= k < 6 * segments ==> #[trigger] verts@[k] == side[k],
            forall|k: int| 0 <= k < 6 * i ==> #[trigger] verts@[6 * segments + k] == cylinder_caps(k / 6, y_min, y_max, radius, segments, color)[k % 6],
        decreases segments - i,
    {
        let b0 = MeshPoint::RingY { step: i, segments, radius, y: y_min };
        let b1 = MeshPoint::RingY { step: i + 1, segments, radius, y: y_min };
        verts.push(ModelVertex { position: center_bottom, normal: down, color });
        verts.push(ModelVertex { position: b1, normal: down, color });
        verts.push(ModelVertex { position: b0, normal: down, color });
        let t0p = MeshPoint::RingY { step: i, segments, radius, y: y_max };
        let t1p = MeshPoint::RingY { step: i + 1, segments, radius, y: y_max };
        verts.push(ModelVertex { position: center_top, normal: up, color });
        verts.push(ModelVertex { position: t0p, normal: up, color });
        verts.push(ModelVertex { position: t1p, normal: up, color });
        proof {
            assert forall|k: int| 0 <= k < 6 * (i + 1) implies #[trigger] verts@[6 * segments + k] == cylinder_caps(k / 6, y_min, y_max, radius, segments, color)[k % 6] by {
                if k >= 6 * i {
                    assert(k / 6 == i);
                }
            }
        }
        i = i + 1;
    }
    assert(verts@ =~= cylinder_mesh(y_min, y_max, radius, segments, color)) by {
        assert forall|k: int| 6 * segments <= k < 12 * segments implies verts@[k] == cylinder_mesh(y_min, y_max, radius, segments, color)[k] by {
            let j = k - 6 * segments;
            assert(verts@[6 * segments + j] == cylinder_caps(j / 6, y_min, y_max, radius, segments, color)[j % 6]);
        }
    }
    verts
}

/// The extent along X, smaller end first, of a wing part reaching from `near` to `far`
/// away from the bus on the side `sign` (`1` for +X, `-1` for -X).
pub open spec fn wing_span(sign: i32, near: i32, far: i32) -> (i32, i32) {
    if sign > 0 { (near, far) } else { (-far as i32, -near as i32) }
}

/// The corners (component-wise minimum and maximum) of the five boxes of the
/// satellite: bus, +X mast, +X panel, -X mast, -X panel.
pub open spec fn satellite_boxes() -> Seq<([i32; 3], [i32; 3], PartColor)> {
    seq![
        ([-100i32, -140i32, -90i32], [100i32, 140i32, 90i32], PartColor::Bus),
        ([90i32, -25i32, -25i32], [170i32, 25i32, 25i32], PartColor::Mast),
        ([160i32, -20i32, -200i32], [400i32, 20i32, 200i32], PartColor::Panel),
        ([-170i32, -25i32, -25i32], [-90i32, 25i32, 25i32], PartColor::Mast),
        ([-400i32, -20i32, -200i32], [-160i32, 20i32, 200i32], PartColor::Panel),
    ]
}

/// One solar wing, on the side `sign` (`1` for +X, `-1` for -X): a mast and its panel,
/// each a box given by its component-wise minimum and maximum corners.
pub open spec fn wing_mesh(sign: i32) -> Seq<ModelVertex> {
    let (m0, m1) = wing_span(sign, 90, 170);
    let (p0, p1) = wing_span(sign, 160, 400);
    box_mesh([m0, -25i32, -25i32], [m1, 25i32, 25i32], PartColor::Mast)
        + box_mesh([p0, -20i32, -200i32], [p1, 20i32, 200i32], PartColor::Panel)
}

/// The earth-observation satellite: bus, the +X wing, the -X wing, then the instrument.
pub open spec fn eo_satellite_mesh() -> Seq<ModelVertex> {
    box_mesh([-100i32, -140i32, -90i32], [100i32, 140i32, 90i32], PartColor::Bus)
        + wing_mesh(1i32) + wing_mesh(-1i32)
        + cylinder_mesh(-280i32, -140i32, 50i32, 24usize, PartColor::Instrument)
}

fn wing_vertices(sign: i32) -> (verts: Vec<ModelVertex>)
    requires
        sign == 1 || sign == -1,
    ensures
        verts@ == wing_mesh(sign),
{
    let (m0, m1) = if sign > 0 { (90, 170) } else { (-170, -90) };
    let (p0, p1) = if sign > 0 { (160, 400) } else { (-400, -160) };
    let mut verts = box_vertices([m0, -25, -25], [m1, 25, 25], PartColor::Mast);
    let mut panel = box_vertices([p0, -20, -200], [p1, 20, 200], PartColor::Panel);
    verts.append(&mut panel);
    verts
}

/// Procedural earth-observation satellite (Landsat/Sentinel-inspired).
///
/// Model space is right-handed with -Y as the nadir axis (the instrument points
/// toward Earth). The mesh is centered on the origin: a box bus, two solar wings
/// along ±X (mast and panel, flat faces on ±Y) and a nadir-pointing cylinder.
pub fn eo_satellite_vertices() -> (verts: Vec<ModelVertex>)
    ensures
        verts@ == eo_satellite_mesh(),
        verts.len() == 468,
{
    let mut verts = box_vertices([-100, -140, -90], [100, 140, 90], PartColor::Bus);
    let mut wing = wing_vertices(1);
    verts.append(&mut wing);
    let mut wing = wing_vertices(-1);
    verts.append(&mut wing);
    let mut instrument = cylinder_vertices(-280, -140, 50, 24, PartColor::Instrument);
    verts.append(&mut instrument);
    verts
}

/// The two triangles `a b c` and `a c d` of an unlit quad.
pub open spec fn position_quad(a: [i32; 3], b: [i32; 3], c: [i32; 3], d: [i32; 3]) -> Seq<PositionVertex> {
    let v = |p: [i32; 3]| PositionVertex { position: exact(p) };
    seq![v(a), v(b), v(c), v(a), v(c), v(d)]
}

/// The corners of the satellite marker cube (half-size one tenth of a unit), two triangles per face:
/// front, back, top, bottom, left, right.
pub open spec fn cube_corners() -> Seq<[i32; 3]> {
    seq![
        // front
        [-100i32, -100i32, 100i32], [100i32, -100i32, 100i32], [100i32, 100i32, 100i32], [-100i32, -100i32, 100i32], [100i32, 100i32, 100i32], [-100i32, 100i32, 100i32],
        // back
        [-100i32, -100i32, -100i32], [100i32, 100i32, -100i32], [100i32, -100i32, -100i32], [-100i32, -100i32, -100i32], [-100i32, 100i32, -100i32], [100i32, 100i32, -100i32],
        // top
        [-100i32, 100i32, -100i32], [-100i32, 100i32, 100i32], [100i32, 100i32, 100i32], [-100i32, 100i32, -100i32], [100i32, 100i32, 100i32], [100i32, 100i32, -100i32],
        // bottom
        [-100i32, -100i32, -100i32], [100i32, -100i32, 100i32], [100i32, -100i32, -100i32], [-100i32, -100i32, -100i32], [-100i32, -100i32, 100i32], [100i32, -100i32, 100i32],
        // left
        [-100i32, -100i32, -100i32], [-100i32, 100i32, 100i32], [-100i32, -100i32, 100i32], [-100i32, -100i32, -100i32], [-100i32, 100i32, -100i32], [-100i32, 100i32, 100i32],
        // right
        [100i32, -100i32, -100i32], [100i32, -100i32, 100i32], [100i32, 100i32, 100i32], [100i32, -100i32, -100i32], [100i32, 100i32, 100i32], [100i32, 100i32, -100i32],
    ]
}

pub open spec fn cube_mesh() -> Seq<PositionVertex> {
    Seq::new(36, |k: int| PositionVertex { position: exact(cube_corners()[k]) })
}

/// The unit billboard quad in the XY plane.
pub open spec fn dot_mesh() -> Seq<PositionVertex> {
    position_quad([-1000i32, -1000i32, 0i32], [1000i32, -1000i32, 0i32], [1000i32, 1000i32, 0i32], [-1000i32, 1000i32, 0i32])
}

/// The cube drawn for a satellite in cube mode.
pub fn cube_vertices() -> (verts: Vec<PositionVertex>)
    ensures
        verts@ == cube_mesh(),
{
    let verts = vec![
        // front
        PositionVertex { position: MeshPoint::Exact { x: -100, y: -100, z: 100 } },
        PositionVertex { position: MeshPoint::Exact { x: 100, y: -100, z: 100 } },
        PositionVertex { position: MeshPoint::Exact { x: 100, y: 100, z: 100 } },
        PositionVertex { position: MeshPoint::Exact { x: -100, y: -100, z: 100 } },
        PositionVertex { position: MeshPoint::Exact { x: 100, y: 100, z: 100 } },
        PositionVertex { position: MeshPoint::Exact { x: -100, y: 100, z: 100 } },
        // back
        PositionVertex { position: MeshPoint::Exact { x: -100, y: -100, z: -100 } },
        PositionVertex { position: MeshPoint::Exact { x: 100, y: 100, z: -100 } },
        PositionVertex { position: MeshPoint::Exact { x: 100, y: -100, z: -100 } },
        PositionVertex { position: MeshPoint::Exact { x: -100, y: -100, z: -100 } },
        PositionVertex { position: MeshPoint::Exact { x: -100, y: 100, z: -100 } },
        PositionVertex { position: MeshPoint::Exact { x: 100, y: 100, z: -100 } },
        // top
        PositionVertex { position: MeshPoint::Exact { x: -100, y: 100, z: -100 } },
        PositionVertex { position: MeshPoint::Exact { x: -100, y: 100, z: 100 } },
        PositionVertex { position: MeshPoint::Exact { x: 100, y: 100, z: 100 } },
        PositionVertex { position: MeshPoint::Exact { x: -100, y: 100, z: -100 } },
        PositionVertex { position: MeshPoint::Exact { x: 100, y: 100, z: 100 } },
        PositionVertex { position: MeshPoint::Exact { x: 100, y: 100, z: -100 } },
        // bottom
        PositionVertex { position: MeshPoint::Exact { x: -100, y: -100, z: -100 } },
        PositionVertex { position: MeshPoint::Exact { x: 100, y: -100, z: 100 } },
        PositionVertex { position: MeshPoint::Exact { x: 100, y: -100, z: -100 } },
        PositionVertex { position: MeshPoint::Exact { x: -100, y: -100, z: -100 } },
        PositionVertex { position: MeshPoint::Exact { x: -100, y: -100, z: 100 } },
        PositionVertex { position: MeshPoint::Exact { x: 100, y: -100, z: 100 } },
        // left
        PositionVertex { position: MeshPoint::Exact { x: -100, y: -100, z: -100 } },
        PositionVertex { position: MeshPoint::Exact { x: -100, y: 100, z: 100 } },
        PositionVertex { position: MeshPoint::Exact { x: -100, y: -100, z: 100 } },
        PositionVertex { position: MeshPoint::Exact { x: -100, y: -100, z: -100 } },
        PositionVertex { position: MeshPoint::Exact { x: -100, y: 100, z: -100 } },
        PositionVertex { position: MeshPoint::Exact { x: -100, y: 100, z: 100 } },
        // right
        PositionVertex { position: MeshPoint::Exact { x: 100, y: -100, z: -100 } },
        PositionVertex { position: MeshPoint::Exact { x: 100, y: -100, z: 100 } },
        PositionVertex { position: MeshPoint::Exact { x: 100, y: 100, z: 100 } },
        PositionVertex { position: MeshPoint::Exact { x: 100, y: -100, z: -100 } },
        PositionVertex { position: MeshPoint::Exact { x: 100, y: 100, z: 100 } },
        PositionVertex { position: MeshPoint::Exact { x: 100, y: 100, z: -100 } },
    ];
    assert(verts@ =~= cube_mesh());
    verts
}

/// The camera-facing quad drawn for a satellite in dot mode.
pub fn dot_vertices() -> (verts: Vec<PositionVertex>)
    ensures
        verts@ == dot_mesh(),
{
    let verts = vec![
        PositionVertex { position: MeshPoint::Exact { x: -1000, y: -1000, z: 0 } },
        PositionVertex { position: MeshPoint::Exact { x: 1000, y: -1000, z: 0 } },
        PositionVertex { position: MeshPoint::Exact { x: 1000, y: 1000, z: 0 } },
        PositionVertex { position: MeshPoint::Exact { x: -1000, y: -1000, z: 0 } },
        PositionVertex { position: MeshPoint::Exact { x: 1000, y: 1000, z: 0 } },
        PositionVertex { position: MeshPoint::Exact { x: -1000, y: 1000, z: 0 } },
    ];
    assert(verts@ =~= dot_mesh());
    verts
}

pub open spec fn ring_z(step: int, segments: usize) -> MeshPoint {
    MeshPoint::RingZ { step: step as usize, segments, radius: 1000, z: 1000 }
}

/// Segment `i` of the unit cone: its side triangle from the apex at the origin.
pub open spec fn cone_side(i: int) -> Seq<PositionVertex> {
    seq![
        PositionVertex { position: exact([0i32, 0i32, 0i32]) },
        PositionVertex { position: ring_z(i, 36) },
        PositionVertex { position: ring_z(i + 1, 36) },
    ]
}

/// Segment `i` of the unit cone: its triangle of the base disk at `z = 1`.
pub open spec fn cone_base(i: int) -> Seq<PositionVertex> {
    seq![
        PositionVertex { position: exact([0i32, 0i32, 1000i32]) },
        PositionVertex { position: ring_z(i + 1, 36) },
        PositionVertex { position: ring_z(i, 36) },
    ]
}

/// The 36-segment cone with apex at the origin and its unit base disk at `z = 1`:
/// all side triangles, then all base triangles.
pub open spec fn cone_mesh() -> Seq<PositionVertex> {
    Seq::new(108, |k: int| cone_side(k / 3)[k % 3]) + Seq::new(108, |k: int| cone_base(k / 3)[k % 3])
}

/// The visibility cone drawn over a ground station.
pub fn cone_vertices() -> (verts: Vec<PositionVertex>)
    ensures
        verts@ == cone_mesh(),
{
    let segments: usize = 36;
    let mut verts: Vec<PositionVertex> = Vec::with_capacity(segments * 6);
    let mut i: usize = 0;
    while i < segments
        invariant
            segments == 36,
            i <= segments,
            verts.len() == 3 * i,
            forall|k: int| 0 <= k < 3 * i ==> #[trigger] verts@[k] == cone_side(k / 3)[k % 3],
        decreases segments - i,
    {
        verts.push(PositionVertex { position: MeshPoint::Exact { x: 0, y: 0, z: 0 } });
        verts.push(PositionVertex { position: MeshPoint::RingZ { step: i, segments, radius: 1000, z: 1000 } });
        verts.push(PositionVertex { position: MeshPoint::RingZ { step: i + 1, segments, radius: 1000, z: 1000 } });
        assert forall|k: int| 0 <= k < 3 * (i + 1) implies #[trigger] verts@[k] == cone_side(k / 3)[k % 3] by {
            if k >= 3 * i {
                assert(k / 3 == i);
            }
        }
        i = i + 1;
    }
    let ghost side = verts@;
    let mut i: usize = 0;
    while i < segments
        invariant
            segments == 36,
            i <= segments,
            side.len() == 108,
            verts.len() == 108 + 3 * i,
            forall|k: int| 0 <= k < 108 ==> #[trigger] verts@[k] == side[k],
            forall|k: int| 0 <= k < 108 ==> #[trigger] side[k] == cone_side(k / 3)[k % 3],
            forall|k: int| 0 <= k < 3 * i ==> #[trigger] verts@[108 + k] == cone_base(k / 3)[k % 3],
        decreases segments - i,
    {
        verts.push(PositionVertex { position: MeshPoint::Exact { x: 0, y: 0, z: 1000 } });
        verts.push(PositionVertex { position: MeshPoint::RingZ { step: i + 1, segments, radius: 1000, z: 1000 } });
        verts.push(PositionVertex { position: MeshPoint::RingZ { step: i, segments, radius: 1000, z: 1000 } });
        assert forall|k: int| 0 <= k < 3 * (i + 1) implies #[trigger] verts@[108 + k] == cone_base(k / 3)[k % 3] by {
            if k >= 3 * i {
                assert(k / 3 == i);
            }
        }
        i = i + 1;
    }
    assert(verts@ =~= cone_mesh()) by {
        assert forall|k: int| 108 <= k < 216 implies verts@[k] == cone_mesh()[k] by {
            let j = k - 108;
            assert(verts@[108 + j] == cone_base(j / 3)[j % 3]);
        }
    }
    verts
}

/// The coordinates of an exact point; a point on a ring has no exact coordinates.
pub open spec fn exact_coords(p: MeshPoint) -> Option<(int, int, int)> {
    match p {
        MeshPoint::Exact { x, y, z } => Some((x as int, y as int, z as int)),
        _ => None,
    }
}

/// The height of a point along Y.
pub open spec fn height(p: MeshPoint) -> int {
    match p {
        MeshPoint::Exact { y, .. } => y as int,
        MeshPoint::RingY { y, .. } => y as int,
        MeshPoint::RingZ { .. } => 0,
    }
}

/// Triangle `t` of a triangle list of exact points has three distinct corners of one
/// face of the cube `[-h, h]^3` (so it is a proper triangle lying in that face).
pub open spec fn on_cube_face(points: Seq<[i32; 3]>, t: int, h: int) -> bool {
    let p = (points[3 * t][0] as int, points[3 * t][1] as int, points[3 * t][2] as int);
    let q = (points[3 * t + 1][0] as int, points[3 * t + 1][1] as int, points[3 * t + 1][2] as int);
    let r = (points[3 * t + 2][0] as int, points[3 * t + 2][1] as int, points[3 * t + 2][2] as int);
    let corner = |a: (int, int, int)| (a.0 == h || a.0 == -h) && (a.1 == h || a.1 == -h) && (a.2 == h || a.2 == -h);
    &&& corner(p) && corner(q) && corner(r)
    &&& p != q && q != r && r != p
    &&& {
        ||| p.0 == q.0 && q.0 == r.0
        ||| p.1 == q.1 && q.1 == r.1
        ||| p.2 == q.2 && q.2 == r.2
    }
}

/// Law: the marker cube is the surface of the cube of half-size one tenth: each of its
/// twelve triangles has three distinct corners of one of the cube's faces.
pub proof fn law_cube_triangles_on_faces()
    ensures
        forall|t: int| 0 <= t < 12 ==> #[trigger] on_cube_face(cube_corners(), t, 100),
{
    let c = cube_corners();
    assert(on_cube_face(c, 0, 100));
    assert(on_cube_face(c, 1, 100));
    assert(on_cube_face(c, 2, 100));
    assert(on_cube_face(c, 3, 100));
    assert(on_cube_face(c, 4, 100));
    assert(on_cube_face(c, 5, 100));
    assert(on_cube_face(c, 6, 100));
    assert(on_cube_face(c, 7, 100));
    assert(on_cube_face(c, 8, 100));
    assert(on_cube_face(c, 9, 100));
    assert(on_cube_face(c, 10, 100));
    assert(on_cube_face(c, 11, 100));
}

/// Vertex `v` of a box from `min` to `max` lies on the box, on the face out of which its
/// axis normal points.
pub open spec fn on_outward_face(v: ModelVertex, min: [i32; 3], max: [i32; 3]) -> bool {
    match exact_coords(v.position) {
        None => false,
        Some(p) => {
            &&& min[0] <= p.0 <= max[0] && min[1] <= p.1 <= max[1] && min[2] <= p.2 <= max[2]
            &&& match v.normal {
                MeshNormal::Axis { x, y, z } => {
                    ||| x == 1 && y == 0 && z == 0 && p.0 == max[0]
                    ||| x == -1 && y == 0 && z == 0 && p.0 == min[0]
                    ||| x == 0 && y == 1 && z == 0 && p.1 == max[1]
                    ||| x == 0 && y == -1 && z == 0 && p.1 == min[1]
                    ||| x == 0 && y == 0 && z == 1 && p.2 == max[2]
                    ||| x == 0 && y == 0 && z == -1 && p.2 == min[2]
                },
                MeshNormal::RadialY { .. } => false,
            }
        },
    }
}

/// Law: a box with `min < max` on every axis has outward face normals: every vertex
/// lies on the box, on the face its normal points out of.
pub proof fn law_box_normals_outward(min: [i32; 3], max: [i32; 3], color: PartColor)
    requires
        min[0] < max[0],
        min[1] < max[1],
        min[2] < max[2],
    ensures
        box_mesh(min, max, color).len() == 36,
        forall|k: int| 0 <= k < 36 ==> #[trigger] on_outward_face(box_mesh(min, max, color)[k], min, max),
{
    let m = box_mesh(min, max, color);
    let (x0, y0, z0) = (min[0], min[1], min[2]);
    let (x1, y1, z1) = (max[0], max[1], max[2]);
    let q0 = quad_mesh([[x0, y1, z0], [x1, y1, z0], [x1, y1, z1], [x0, y1, z1]], [0i8, 1i8, 0i8], color);
    let q1 = quad_mesh([[x0, y0, z1], [x1, y0, z1], [x1, y0, z0], [x0, y0, z0]], [0i8, -1i8, 0i8], color);
    let q2 = quad_mesh([[x1, y0, z0], [x1, y1, z0], [x1, y1, z1], [x1, y0, z1]], [1i8, 0i8, 0i8], color);
    let q3 = quad_mesh([[x0, y0, z1], [x0, y1, z1], [x0, y1, z0], [x0, y0, z0]], [-1i8, 0i8, 0i8], color);
    let q4 = quad_mesh([[x0, y0, z1], [x1, y0, z1], [x1, y1, z1], [x0, y1, z1]], [0i8, 0i8, 1i8], color);
    let q5 = quad_mesh([[x0, y1, z0], [x1, y1, z0], [x1, y0, z0], [x0, y0, z0]], [0i8, 0i8, -1i8], color);
    assert(m == q0 + q1 + q2 + q3 + q4 + q5);
    assert(m.len() == 36);
    assert forall|k: int| 0 <= k < 36 implies #[trigger] on_outward_face(m[k], min, max) by {
        if k < 6 {
            assert(m[k] == q0[k]);
        } else if k < 12 {
            assert(m[k] == q1[k - 6]);
        } else if k < 18 {
            assert(m[k] == q2[k - 12]);
        } else if k < 24 {
            assert(m[k] == q3[k - 18]);
        } else if k < 30 {
            assert(m[k] == q4[k - 24]);
        } else {
            assert(m[k] == q5[k - 30]);
        }
    }
}

/// Law: the ends of a cylinder are capped flat: every cap vertex lies at the end its
/// axis normal points out of, and every side vertex has a radial normal.
pub proof fn law_cylinder_caps(y_min: i32, y_max: i32, radius: i32, segments: usize, color: PartColor)
    ensures
        cylinder_mesh(y_min, y_max, radius, segments, color).len() == 12 * segments,
        forall|k: int| #![trigger cylinder_mesh(y_min, y_max, radius, segments, color)[k]]
            0 <= k < 6 * segments ==> cylinder_mesh(y_min, y_max, radius, segments, color)[k].normal is RadialY,
        forall|k: int| #![trigger cylinder_mesh(y_min, y_max, radius, segments, color)[k]]
            6 * segments <= k < 12 * segments ==> {
                let v = cylinder_mesh(y_min, y_max, radius, segments, color)[k];
                if (k - 6 * segments) % 6 < 3 {
                    v.normal == axis([0i8, -1i8, 0i8]) && height(v.position) == y_min
                } else {
                    v.normal == axis([0i8, 1i8, 0i8]) && height(v.position) == y_max
                }
            },
{
    let m = cylinder_mesh(y_min, y_max, radius, segments, color);
    assert forall|k: int| #![trigger m[k]] 6 * segments <= k < 12 * segments implies {
        let v = m[k];
        if (k - 6 * segments) % 6 < 3 {
            v.normal == axis([0i8, -1i8, 0i8]) && height(v.position) == y_min
        } else {
            v.normal == axis([0i8, 1i8, 0i8]) && height(v.position) == y_max
        }
    } by {
        let j = k - 6 * segments;
        assert(m[k] == cylinder_caps(j / 6, y_min, y_max, radius, segments, color)[j % 6]);
    }
}

/// Law: every mesh here is a triangle list of the stated size.
pub proof fn law_mesh_sizes()
    ensures
        cube_mesh().len() == 36,
        dot_mesh().len() == 6,
        cone_mesh().len() == 216,
        eo_satellite_mesh().len() == 468,
{
}

/// The satellite's box parts, in mesh order.
pub open spec fn satellite_box_mesh(b: int) -> Seq<ModelVertex> {
    box_mesh(satellite_boxes()[b].0, satellite_boxes()[b].1, satellite_boxes()[b].2)
}

proof fn lemma_satellite_layout()
    ensures
        eo_satellite_mesh() == satellite_box_mesh(0) + satellite_box_mesh(1) + satellite_box_mesh(2)
            + satellite_box_mesh(3) + satellite_box_mesh(4) + cylinder_mesh(
            -280i32,
            -140i32,
            50i32,
            24usize,
            PartColor::Instrument,
        ),
{
    assert(wing_span(1i32, 90, 170) == (90i32, 170i32));
    assert(wing_span(1i32, 160, 400) == (160i32, 400i32));
    assert(wing_span(-1i32, 90, 170) == (-170i32, -90i32));
    assert(wing_span(-1i32, 160, 400) == (-400i32, -160i32));
    assert(wing_mesh(1i32) == satellite_box_mesh(1) + satellite_box_mesh(2));
    assert(wing_mesh(-1i32) == satellite_box_mesh(3) + satellite_box_mesh(4));
}

#[verifier::rlimit(40)]
proof fn lemma_satellite_box(b: int, k: int)
    requires
        0 <= b < 5,
        0 <= k < 36,
    ensures
        satellite_boxes()[b].0[0] < satellite_boxes()[b].1[0],
        satellite_boxes()[b].0[1] < satellite_boxes()[b].1[1],
        satellite_boxes()[b].0[2] < satellite_boxes()[b].1[2],
        eo_satellite_mesh()[36 * b + k] == satellite_box_mesh(b)[k],
        on_outward_face(satellite_box_mesh(b)[k], satellite_boxes()[b].0, satellite_boxes()[b].1),
{
    let bx = satellite_boxes();
    lemma_satellite_layout();
    let cyl = cylinder_mesh(-280i32, -140i32, 50i32, 24usize, PartColor::Instrument);
    let p0 = satellite_box_mesh(0);
    let p1 = satellite_box_mesh(1);
    let p2 = satellite_box_mesh(2);
    let p3 = satellite_box_mesh(3);
    let p4 = satellite_box_mesh(4);
    law_box_normals_outward(bx[0].0, bx[0].1, bx[0].2);
    law_box_normals_outward(bx[1].0, bx[1].1, bx[1].2);
    law_box_normals_outward(bx[2].0, bx[2].1, bx[2].2);
    law_box_normals_outward(bx[3].0, bx[3].1, bx[3].2);
    law_box_normals_outward(bx[4].0, bx[4].1, bx[4].2);
    assert(on_outward_face(satellite_box_mesh(b)[k], bx[b].0, bx[b].1));
    let m = eo_satellite_mesh();
    if b == 0 {
        assert(m[k] == p0[k]);
    } else if b == 1 {
        assert(m[36 + k] == p1[k]);
    } else if b == 2 {
        assert(m[72 + k] == p2[k]);
    } else if b == 3 {
        assert(m[108 + k] == p3[k]);
    } else {
        assert(m[144 + k] == p4[k]);
    }
}

#[verifier::rlimit(40)]
proof fn lemma_satellite_tail()
    ensures
        eo_satellite_mesh().len() == 468,
        eo_satellite_mesh().skip(180) == cylinder_mesh(-280i32, -140i32, 50i32, 24usize, PartColor::Instrument),
{
    lemma_satellite_layout();
    let bx = satellite_boxes();
    law_box_normals_outward(bx[0].0, bx[0].1, bx[0].2);
    law_box_normals_outward(bx[1].0, bx[1].1, bx[1].2);
    law_box_normals_outward(bx[2].0, bx[2].1, bx[2].2);
    law_box_normals_outward(bx[3].0, bx[3].1, bx[3].2);
    law_box_normals_outward(bx[4].0, bx[4].1, bx[4].2);
    let cyl = cylinder_mesh(-280i32, -140i32, 50i32, 24usize, PartColor::Instrument);
    assert(cyl.len() == 288);
    assert(eo_satellite_mesh().skip(180) =~= cyl);
}

/// Law: the satellite's five boxes (bus, and mast and panel of each wing) are proper
/// boxes with outward face normals: vertex `36 * b + k` lies on box `b`, on the face its
/// normal points out of. The rest of the mesh is the capped instrument cylinder.
pub proof fn law_satellite_normals_outward()
    ensures
        eo_satellite_mesh().len() == 468,
        forall|b: int|
            0 <= b < 5 ==> (#[trigger] satellite_boxes()[b]).0[0] < satellite_boxes()[b].1[0]
                && satellite_boxes()[b].0[1] < satellite_boxes()[b].1[1]
                && satellite_boxes()[b].0[2] < satellite_boxes()[b].1[2],
        forall|b: int, k: int|
            0 <= b < 5 && 0 <= k < 36 ==> #[trigger] on_outward_face(
                eo_satellite_mesh()[36 * b + k],
                satellite_boxes()[b].0,
                satellite_boxes()[b].1,
            ),
        eo_satellite_mesh().skip(180) == cylinder_mesh(-280i32, -140i32, 50i32, 24usize, PartColor::Instrument),
{
    lemma_satellite_tail();
    let m = eo_satellite_mesh();
    assert forall|b: int| 0 <= b < 5 implies (#[trigger] satellite_boxes()[b]).0[0] < satellite_boxes()[b].1[0]
        && satellite_boxes()[b].0[1] < satellite_boxes()[b].1[1] && satellite_boxes()[b].0[2]
        < satellite_boxes()[b].1[2] by {
        lemma_satellite_box(b, 0);
    }
    assert forall|b: int, k: int| 0 <= b < 5 && 0 <= k < 36 implies #[trigger] on_outward_face(
        m[36 * b + k],
        satellite_boxes()[b].0,
        satellite_boxes()[b].1,
    ) by {
        lemma_satellite_box(b, k);
    }
}

/// `x` is one of the corners of triangle `t`.
pub open spec fn in_triangle<P>(t: (P, P, P), x: P) -> bool {
    t.0 == x || t.1 == x || t.2 == x
}

/// Triangles `t1` and `t2` together cover the quad whose corners are `a b c d` in order
/// around it, cut along one diagonal: each has three distinct corners of the quad, both
/// hold the two ends of the diagonal, and the two other corners go one to each.
pub open spec fn splits_quad<P>(t1: (P, P, P), t2: (P, P, P), a: P, b: P, c: P, d: P) -> bool {
    let corner = |x: P| x == a || x == b || x == c || x == d;
    let diagonal = |p: P, q: P, r: P, s: P|
        in_triangle(t1, p) && in_triangle(t1, q) && in_triangle(t2, p) && in_triangle(t2, q) && (
        (in_triangle(t1, r) && in_triangle(t2, s)) || (in_triangle(t1, s) && in_triangle(t2, r)));
    &&& t1.0 != t1.1 && t1.1 != t1.2 && t1.2 != t1.0
    &&& t2.0 != t2.1 && t2.1 != t2.2 && t2.2 != t2.0
    &&& corner(t1.0) && corner(t1.1) && corner(t1.2) && corner(t2.0) && corner(t2.1) && corner(t2.2)
    &&& diagonal(a, c, b, d) || diagonal(b, d, a, c)
}

/// The positions of triangle `t` of a triangle list.
pub open spec fn triangle_at(m: Seq<ModelVertex>, t: int) -> (MeshPoint, MeshPoint, MeshPoint) {
    (m[3 * t].position, m[3 * t + 1].position, m[3 * t + 2].position)
}

pub open spec fn unlit_triangle_at(m: Seq<PositionVertex>, t: int) -> (MeshPoint, MeshPoint, MeshPoint) {
    (m[3 * t].position, m[3 * t + 1].position, m[3 * t + 2].position)
}

/// Law: the side of a cylinder of non-zero height is closed: the two side triangles of
/// segment `i` cover its whole quad, from step `i` to step `i + 1` around the ring and
/// from `y_min` to `y_max`, cut along a diagonal; and each side vertex has the radial
/// normal of the ring step it lies on.
pub proof fn law_cylinder_sides_cover(y_min: i32, y_max: i32, radius: i32, segments: usize, color: PartColor)
    requires
        y_min != y_max,
    ensures
        forall|i: int|
            0 <= i < segments ==> #[trigger] splits_quad(
                triangle_at(cylinder_mesh(y_min, y_max, radius, segments, color), 2 * i),
                triangle_at(cylinder_mesh(y_min, y_max, radius, segments, color), 2 * i + 1),
                MeshPoint::RingY { step: i as usize, segments, radius, y: y_min },
                MeshPoint::RingY { step: (i + 1) as usize, segments, radius, y: y_min },
                MeshPoint::RingY { step: (i + 1) as usize, segments, radius, y: y_max },
                MeshPoint::RingY { step: i as usize, segments, radius, y: y_max },
            ),
        forall|k: int|
            0 <= k < 6 * segments ==> (#[trigger] cylinder_mesh(y_min, y_max, radius, segments, color)[k]).normal
                == (MeshNormal::RadialY {
                step: cylinder_mesh(y_min, y_max, radius, segments, color)[k].position->RingY_step,
                segments,
            }),
{
    let m = cylinder_mesh(y_min, y_max, radius, segments, color);
    assert forall|i: int| 0 <= i < segments implies #[trigger] splits_quad(
        triangle_at(m, 2 * i),
        triangle_at(m, 2 * i + 1),
        MeshPoint::RingY { step: i as usize, segments, radius, y: y_min },
        MeshPoint::RingY { step: (i + 1) as usize, segments, radius, y: y_min },
        MeshPoint::RingY { step: (i + 1) as usize, segments, radius, y: y_max },
        MeshPoint::RingY { step: i as usize, segments, radius, y: y_max },
    ) by {
        let side = cylinder_side(i, y_min, y_max, radius, segments, color);
        assert forall|r: int| 0 <= r < 6 implies m[6 * i + r] == side[r] by {
            assert((6 * i + r) / 6 == i && (6 * i + r) % 6 == r);
        }
        assert(m[3 * (2 * i)] == side[0]);
        assert(m[3 * (2 * i) + 1] == side[1]);
        assert(m[3 * (2 * i) + 2] == side[2]);
        assert(m[3 * (2 * i + 1)] == side[3]);
        assert(m[3 * (2 * i + 1) + 1] == side[4]);
        assert(m[3 * (2 * i + 1) + 2] == side[5]);
    }
    assert forall|k: int| 0 <= k < 6 * segments implies (#[trigger] m[k]).normal == (MeshNormal::RadialY {
        step: m[k].position->RingY_step,
        segments,
    }) by {
        assert(m[k] == cylinder_side(k / 6, y_min, y_max, radius, segments, color)[k % 6]);
    }
}

/// Corner `k` (in order around the face) of the face of the cube `[-100, 100]^3` where
/// coordinate `axis` equals `side`.
pub open spec fn cube_face_corner(axis: int, side: i32, k: int) -> MeshPoint {
    let (u, v) = if k == 0 {
        (-100i32, -100i32)
    } else if k == 1 {
        (100i32, -100i32)
    } else if k == 2 {
        (100i32, 100i32)
    } else {
        (-100i32, 100i32)
    };
    if axis == 0 {
        MeshPoint::Exact { x: side, y: u, z: v }
    } else if axis == 1 {
        MeshPoint::Exact { x: u, y: side, z: v }
    } else {
        MeshPoint::Exact { x: u, y: v, z: side }
    }
}

/// The face drawn `f`-th: front (+Z), back (-Z), top (+Y), bottom (-Y), left (-X),
/// right (+X), as the axis it is normal to and the side of the cube it lies on.
pub open spec fn marker_face(f: int) -> (int, i32) {
    if f == 0 {
        (2, 100i32)
    } else if f == 1 {
        (2, -100i32)
    } else if f == 2 {
        (1, 100i32)
    } else if f == 3 {
        (1, -100i32)
    } else if f == 4 {
        (0, -100i32)
    } else {
        (0, 100i32)
    }
}

/// Law: the marker cube covers the whole surface of the cube `[-100, 100]^3`: its
/// `f`-th pair of triangles covers the `f`-th face, cut along a diagonal, and the six
/// faces drawn are the six faces of the cube.
pub proof fn law_cube_covers_its_faces()
    ensures
        cube_mesh().len() == 36,
        forall|f: int|
            0 <= f < 6 ==> #[trigger] splits_quad(
                unlit_triangle_at(cube_mesh(), 2 * f),
                unlit_triangle_at(cube_mesh(), 2 * f + 1),
                cube_face_corner(marker_face(f).0, marker_face(f).1, 0),
                cube_face_corner(marker_face(f).0, marker_face(f).1, 1),
                cube_face_corner(marker_face(f).0, marker_face(f).1, 2),
                cube_face_corner(marker_face(f).0, marker_face(f).1, 3),
            ),
        forall|f: int, g: int| 0 <= f < g < 6 ==> #[trigger] marker_face(f) != #[trigger] marker_face(g),
{
    let m = cube_mesh();
    let c = cube_corners();
    assert forall|f: int| 0 <= f < 6 implies #[trigger] splits_quad(
        unlit_triangle_at(m, 2 * f),
        unlit_triangle_at(m, 2 * f + 1),
        cube_face_corner(marker_face(f).0, marker_face(f).1, 0),
        cube_face_corner(marker_face(f).0, marker_face(f).1, 1),
        cube_face_corner(marker_face(f).0, marker_face(f).1, 2),
        cube_face_corner(marker_face(f).0, marker_face(f).1, 3),
    ) by {
        assert(m[6 * f].position == exact(c[6 * f]));
        assert(m[6 * f + 1].position == exact(c[6 * f + 1]));
        assert(m[6 * f + 2].position == exact(c[6 * f + 2]));
        assert(m[6 * f + 3].position == exact(c[6 * f + 3]));
        assert(m[6 * f + 4].position == exact(c[6 * f + 4]));
        assert(m[6 * f + 5].position == exact(c[6 * f + 5]));
        assert(3 * (2 * f) == 6 * f && 3 * (2 * f + 1) == 6 * f + 3);
        if f == 0 {
        } else if f == 1 {
        } else if f == 2 {
        } else if f == 3 {
        } else if f == 4 {
        } else {
        }
    }
}

/// Corner `k` (in order around the face) of the face of the box from `min` to `max`
/// that is normal to `axis` and lies at its `max` side when `high`, else at its `min`.
pub open spec fn box_face_corner(min: [i32; 3], max: [i32; 3], axis: int, high: bool, k: int) -> MeshPoint {
    let side = if high { max[axis] } else { min[axis] };
    let (ua, va) = if axis == 0 { (1int, 2int) } else if axis == 1 { (0int, 2int) } else { (0int, 1int) };
    let u = if k == 1 || k == 2 { max[ua] } else { min[ua] };
    let v = if k == 2 || k == 3 { max[va] } else { min[va] };
    if axis == 0 {
        MeshPoint::Exact { x: side, y: u, z: v }
    } else if axis == 1 {
        MeshPoint::Exact { x: u, y: side, z: v }
    } else {
        MeshPoint::Exact { x: u, y: v, z: side }
    }
}

/// The face of a box drawn `f`-th: +Y, -Y, +X, -X, +Z, -Z, as the axis it is normal
/// to and whether it lies at the box's maximum along that axis.
pub open spec fn box_face_order(f: int) -> (int, bool) {
    if f == 0 {
        (1, true)
    } else if f == 1 {
        (1, false)
    } else if f == 2 {
        (0, true)
    } else if f == 3 {
        (0, false)
    } else if f == 4 {
        (2, true)
    } else {
        (2, false)
    }
}

/// Law: a box with `min < max` on every axis is closed: its `f`-th pair of triangles
/// covers its `f`-th face, cut along a diagonal, and the six faces are the six sides.
pub proof fn law_box_faces_cover(min: [i32; 3], max: [i32; 3], color: PartColor)
    requires
        min[0] < max[0],
        min[1] < max[1],
        min[2] < max[2],
    ensures
        forall|f: int|
            0 <= f < 6 ==> #[trigger] splits_quad(
                triangle_at(box_mesh(min, max, color), 2 * f),
                triangle_at(box_mesh(min, max, color), 2 * f + 1),
                box_face_corner(min, max, box_face_order(f).0, box_face_order(f).1, 0),
                box_face_corner(min, max, box_face_order(f).0, box_face_order(f).1, 1),
                box_face_corner(min, max, box_face_order(f).0, box_face_order(f).1, 2),
                box_face_corner(min, max, box_face_order(f).0, box_face_order(f).1, 3),
            ),
        forall|f: int, g: int| 0 <= f < g < 6 ==> #[trigger] box_face_order(f) != #[trigger] box_face_order(g),
{
    let m = box_mesh(min, max, color);
    let (x0, y0, z0) = (min[0], min[1], min[2]);
    let (x1, y1, z1) = (max[0], max[1], max[2]);
    let q = |f: int| if f == 0 {
        quad_mesh([[x0, y1, z0], [x1, y1, z0], [x1, y1, z1], [x0, y1, z1]], [0i8, 1i8, 0i8], color)
    } else if f == 1 {
        quad_mesh([[x0, y0, z1], [x1, y0, z1], [x1, y0, z0], [x0, y0, z0]], [0i8, -1i8, 0i8], color)
    } else if f == 2 {
        quad_mesh([[x1, y0, z0], [x1, y1, z0], [x1, y1, z1], [x1, y0, z1]], [1i8, 0i8, 0i8], color)
    } else if f == 3 {
        quad_mesh([[x0, y0, z1], [x0, y1, z1], [x0, y1, z0], [x0, y0, z0]], [-1i8, 0i8, 0i8], color)
    } else if f == 4 {
        quad_mesh([[x0, y0, z1], [x1, y0, z1], [x1, y1, z1], [x0, y1, z1]], [0i8, 0i8, 1i8], color)
    } else {
        quad_mesh([[x0, y1, z0], [x1, y1, z0], [x1, y0, z0], [x0, y0, z0]], [0i8, 0i8, -1i8], color)
    };
    assert(m == q(0) + q(1) + q(2) + q(3) + q(4) + q(5));
    assert forall|f: int| 0 <= f < 6 implies #[trigger] splits_quad(
        triangle_at(m, 2 * f),
        triangle_at(m, 2 * f + 1),
        box_face_corner(min, max, box_face_order(f).0, box_face_order(f).1, 0),
        box_face_corner(min, max, box_face_order(f).0, box_face_order(f).1, 1),
        box_face_corner(min, max, box_face_order(f).0, box_face_order(f).1, 2),
        box_face_corner(min, max, box_face_order(f).0, box_face_order(f).1, 3),
    ) by {
        assert(3 * (2 * f) == 6 * f && 3 * (2 * f + 1) == 6 * f + 3);
        assert forall|r: int| 0 <= r < 6 implies #[trigger] m[6 * f + r] == q(f)[r] by {
            if f == 0 {
            } else if f == 1 {
            } else if f == 2 {
            } else if f == 3 {
            } else if f == 4 {
            } else {
            }
        }
        assert(m[6 * f] == q(f)[0]);
        assert(m[6 * f + 1] == q(f)[1]);
        assert(m[6 * f + 2] == q(f)[2]);
        assert(m[6 * f + 3] == q(f)[3]);
        assert(m[6 * f + 4] == q(f)[4]);
        assert(m[6 * f + 5] == q(f)[5]);
    }
}

/// Cap triangle `i` at each end of a cylinder joins the centre of that end to the ring
/// points of steps `i` and `i + 1` there: three distinct points.
pub open spec fn cap_fan_at(y_min: i32, y_max: i32, radius: i32, segments: usize, color: PartColor, i: int) -> bool {
    let m = cylinder_mesh(y_min, y_max, radius, segments, color);
    let bottom = triangle_at(m, 2 * segments + 2 * i);
    let top = triangle_at(m, 2 * segments + 2 * i + 1);
    &&& bottom.0 != bottom.1 && bottom.1 != bottom.2 && bottom.2 != bottom.0
    &&& in_triangle(bottom, MeshPoint::Exact { x: 0, y: y_min, z: 0 })
    &&& in_triangle(bottom, MeshPoint::RingY { step: i as usize, segments, radius, y: y_min })
    &&& in_triangle(bottom, MeshPoint::RingY { step: (i + 1) as usize, segments, radius, y: y_min })
    &&& top.0 != top.1 && top.1 != top.2 && top.2 != top.0
    &&& in_triangle(top, MeshPoint::Exact { x: 0, y: y_max, z: 0 })
    &&& in_triangle(top, MeshPoint::RingY { step: i as usize, segments, radius, y: y_max })
    &&& in_triangle(top, MeshPoint::RingY { step: (i + 1) as usize, segments, radius, y: y_max })
}

/// Law: the caps of a cylinder are fans around the axis: cap triangle `i` at each end
/// joins the centre of that end to the ring points of steps `i` and `i + 1` there, so
/// the `segments` triangles of each end go once around the ring.
pub proof fn law_cylinder_caps_fan(y_min: i32, y_max: i32, radius: i32, segments: usize, color: PartColor)
    ensures
        forall|i: int| 0 <= i < segments ==> #[trigger] cap_fan_at(y_min, y_max, radius, segments, color, i),
{
    let m = cylinder_mesh(y_min, y_max, radius, segments, color);
    assert forall|i: int| 0 <= i < segments implies #[trigger] cap_fan_at(y_min, y_max, radius, segments, color, i) by {
        let caps = cylinder_caps(i, y_min, y_max, radius, segments, color);
        let base = 6 * segments + 6 * i;
        assert(3 * (2 * segments + 2 * i) == base && 3 * (2 * segments + 2 * i + 1) == base + 3);
        assert forall|r: int| 0 <= r < 6 implies #[trigger] m[base + r] == caps[r] by {
            let j = base + r - 6 * segments;
            assert(j / 6 == i && j % 6 == r);
        }
        assert(m[base] == caps[0]);
        assert(m[base + 1] == caps[1]);
        assert(m[base + 2] == caps[2]);
        assert(m[base + 3] == caps[3]);
        assert(m[base + 4] == caps[4]);
        assert(m[base + 5] == caps[5]);
    }
}

/// Side triangle `i` of the station cone joins the apex at the origin to the base-ring
/// points of steps `i` and `i + 1`, and base triangle `i` joins those two points to the
/// base centre: each with three distinct points.
pub open spec fn cone_fan_at(i: int) -> bool {
    let side = unlit_triangle_at(cone_mesh(), i);
    let base = unlit_triangle_at(cone_mesh(), 36 + i);
    let r0 = MeshPoint::RingZ { step: i as usize, segments: 36, radius: 1000, z: 1000 };
    let r1 = MeshPoint::RingZ { step: (i + 1) as usize, segments: 36, radius: 1000, z: 1000 };
    &&& side.0 != side.1 && side.1 != side.2 && side.2 != side.0
    &&& in_triangle(side, MeshPoint::Exact { x: 0, y: 0, z: 0 })
    &&& in_triangle(side, r0) && in_triangle(side, r1)
    &&& base.0 != base.1 && base.1 != base.2 && base.2 != base.0
    &&& in_triangle(base, MeshPoint::Exact { x: 0, y: 0, z: 1000 })
    &&& in_triangle(base, r0) && in_triangle(base, r1)
}

/// Law: the station cone is a closed fan: its 36 side triangles go once around the unit
/// ring at height one from the apex at the origin, and its 36 base triangles close the
/// ring from the base centre.
pub proof fn law_cone_fans()
    ensures
        cone_mesh().len() == 216,
        forall|i: int| 0 <= i < 36 ==> #[trigger] cone_fan_at(i),
{
    let m = cone_mesh();
    assert forall|i: int| 0 <= i < 36 implies #[trigger] cone_fan_at(i) by {
        assert forall|r: int| 0 <= r < 3 implies #[trigger] m[3 * i + r] == cone_side(i)[r] by {
            assert((3 * i + r) / 3 == i && (3 * i + r) % 3 == r);
        }
        assert forall|r: int| 0 <= r < 3 implies #[trigger] m[3 * (36 + i) + r] == cone_base(i)[r] by {
            let j = 3 * (36 + i) + r - 108;
            assert(j / 3 == i && j % 3 == r);
        }
        assert(m[3 * i] == cone_side(i)[0]);
        assert(m[3 * i + 1] == cone_side(i)[1]);
        assert(m[3 * i + 2] == cone_side(i)[2]);
        assert(m[3 * (36 + i)] == cone_base(i)[0]);
        assert(m[3 * (36 + i) + 1] == cone_base(i)[1]);
        assert(m[3 * (36 + i) + 2] == cone_base(i)[2]);
    }
}

/// Law: the satellite billboard covers the square from `(-1, -1)` to `(1, 1)` in the XY
/// plane (coordinates in thousandths), cut along a diagonal.
pub proof fn law_dot_covers_square()
    ensures
        dot_mesh().len() == 6,
        splits_quad(
            unlit_triangle_at(dot_mesh(), 0),
            unlit_triangle_at(dot_mesh(), 1),
            MeshPoint::Exact { x: -1000i32, y: -1000i32, z: 0 },
            MeshPoint::Exact { x: 1000, y: -1000i32, z: 0 },
            MeshPoint::Exact { x: 1000, y: 1000, z: 0 },
            MeshPoint::Exact { x: -1000i32, y: 1000, z: 0 },
        ),
{
}

} // verus!
