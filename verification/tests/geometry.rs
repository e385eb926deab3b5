use std::collections::HashSet;

use world_wgpu::frame::{satellite_mesh, SatelliteRenderMode};
use world_wgpu::mesh::{
    box_face, box_vertices, cone_vertices, cube_vertices, cylinder_vertices, dot_vertices,
    eo_satellite_vertices, MeshNormal, MeshPoint, ModelVertex, PartColor, PositionVertex,
};
use world_wgpu::sphere::{icosahedron_faces, icosahedron_topology, subdivide_faces, MidpointCache};

fn exact(x: i32, y: i32, z: i32) -> MeshPoint {
    MeshPoint::Exact { x, y, z }
}

#[test]
fn icosahedron_has_twenty_faces_over_twelve_vertices() {
    let faces = icosahedron_faces();
    assert_eq!(faces.len(), 20);
    assert_eq!(faces[0], [0, 11, 5]);
    assert_eq!(faces[19], [9, 8, 1]);
    for v in 0..12 {
        let around = faces.iter().filter(|f| f.contains(&v)).count();
        assert_eq!(around, 5, "vertex {v} is in {around} faces");
    }
}

#[test]
fn midpoint_cache_shares_edge_midpoints() {
    let mut cache = MidpointCache::new(12);
    assert_eq!(cache.get_midpoint_index(0, 1), 12);
    assert_eq!(cache.get_midpoint_index(1, 0), 12);
    assert_eq!(cache.get_midpoint_index(2, 3), 13);
    assert_eq!(cache.get_midpoint_index(0, 1), 12);
    assert_eq!(cache.get_midpoint_index(11, 4), 14);
    assert_eq!(cache.into_midpoints(), vec![(0, 1), (2, 3), (4, 11)]);
}

#[test]
fn midpoint_cache_accepts_midpoints_made_earlier() {
    let mut cache = MidpointCache::new(3);
    assert_eq!(cache.get_midpoint_index(0, 1), 3);
    assert_eq!(cache.get_midpoint_index(3, 2), 4);
    assert_eq!(cache.get_midpoint_index(2, 3), 4);
    assert_eq!(cache.get_midpoint_index(4, 0), 5);
    assert_eq!(cache.into_midpoints(), vec![(0, 1), (2, 3), (0, 4)]);
}

#[test]
fn one_subdivision_splits_each_face_in_four() {
    let (faces, midpoints) = subdivide_faces(&icosahedron_faces(), 12);
    assert_eq!(faces.len(), 80);
    assert_eq!(midpoints.len(), 30);
    // The first face [0, 11, 5] meets its edges in the order 0-11, 11-5, 5-0.
    assert_eq!(&midpoints[0..3], &[(0, 11), (5, 11), (0, 5)]);
    assert_eq!(&faces[0..4], &[[0, 12, 14], [11, 13, 12], [5, 14, 13], [12, 13, 14]]);
}

#[test]
fn sphere_counts_follow_the_subdivision_level() {
    for n in 0..4usize {
        let mesh = icosahedron_topology(n);
        let faces = 20 * 4usize.pow(n as u32);
        let vertices = 10 * 4usize.pow(n as u32) + 2;
        assert_eq!(mesh.faces.len(), faces);
        assert_eq!(12 + mesh.midpoint_parents.len(), vertices);
        // Euler: V - E + F = 2, with every edge shared by two triangles.
        let edges: HashSet<(usize, usize)> = mesh
            .faces
            .iter()
            .flat_map(|f| [(f[0], f[1]), (f[1], f[2]), (f[2], f[0])])
            .map(|(a, b)| if a < b { (a, b) } else { (b, a) })
            .collect();
        assert_eq!(edges.len(), 3 * faces / 2);
        assert_eq!(vertices + faces, edges.len() + 2);
        for f in &mesh.faces {
            assert!(f.iter().all(|&i| i < vertices));
        }
        for (k, &(lo, hi)) in mesh.midpoint_parents.iter().enumerate() {
            assert!(lo < hi && hi < 12 + k);
        }
    }
}

#[test]
fn box_face_is_two_triangles() {
    let verts = box_face([[0, 0, 0], [1, 0, 0], [1, 1, 0], [0, 1, 0]], [0, 0, 1], PartColor::Bus);
    let n = MeshNormal::Axis { x: 0, y: 0, z: 1 };
    let positions: Vec<MeshPoint> = verts.iter().map(|v| v.position).collect();
    assert_eq!(
        positions,
        vec![exact(0, 0, 0), exact(1, 0, 0), exact(1, 1, 0), exact(0, 0, 0), exact(1, 1, 0), exact(0, 1, 0)]
    );
    assert!(verts.iter().all(|v| v.normal == n && v.color == PartColor::Bus));
}

#[test]
fn box_vertices_cover_six_faces() {
    let verts = box_vertices([-1, -2, -3], [1, 2, 3], PartColor::Panel);
    assert_eq!(verts.len(), 36);
    assert_eq!(verts[0].position, exact(-1, 2, -3));
    assert_eq!(verts[0].normal, MeshNormal::Axis { x: 0, y: 1, z: 0 });
    assert_eq!(verts[6].normal, MeshNormal::Axis { x: 0, y: -1, z: 0 });
    assert_eq!(verts[35].position, exact(-1, -2, -3));
    assert_eq!(verts[35].normal, MeshNormal::Axis { x: 0, y: 0, z: -1 });
}

#[test]
fn cylinder_has_sides_then_caps() {
    let verts = cylinder_vertices(-10, 10, 5, 4, PartColor::Instrument);
    assert_eq!(verts.len(), 48);
    assert_eq!(
        verts[0],
        ModelVertex {
            position: MeshPoint::RingY { step: 0, segments: 4, radius: 5, y: -10 },
            normal: MeshNormal::RadialY { step: 0, segments: 4 },
            color: PartColor::Instrument,
        }
    );
    assert_eq!(verts[23].position, MeshPoint::RingY { step: 3, segments: 4, radius: 5, y: 10 });
    assert_eq!(verts[24].position, exact(0, -10, 0));
    assert_eq!(verts[24].normal, MeshNormal::Axis { x: 0, y: -1, z: 0 });
    assert_eq!(verts[27].position, exact(0, 10, 0));
    assert_eq!(verts[29].position, MeshPoint::RingY { step: 1, segments: 4, radius: 5, y: 10 });
}

#[test]
fn eo_satellite_is_bus_wings_and_instrument() {
    let verts = eo_satellite_vertices();
    assert_eq!(verts.len(), 468);
    assert_eq!(verts[0].position, exact(-100, 140, -90));
    assert_eq!(verts[0].color, PartColor::Bus);
    assert_eq!(verts[36].color, PartColor::Mast);
    assert_eq!(verts[36].position, exact(90, 25, -25));
    assert_eq!(verts[72].color, PartColor::Panel);
    assert_eq!(verts[108].position, exact(-170, 25, -25));
    assert_eq!(verts[144].position, exact(-400, 20, -200));
    assert_eq!(verts[180].color, PartColor::Instrument);
    assert_eq!(verts[180].position, MeshPoint::RingY { step: 0, segments: 24, radius: 50, y: -280 });
    assert_eq!(verts.iter().filter(|v| v.color == PartColor::Panel).count(), 72);
    assert_eq!(verts.iter().filter(|v| v.color == PartColor::Instrument).count(), 288);
}

#[test]
fn marker_meshes_have_their_sizes() {
    assert_eq!(cube_vertices().len(), 36);
    assert_eq!(dot_vertices().len(), 6);
    assert_eq!(cone_vertices().len(), 216);
    let cube = cube_vertices();
    assert_eq!(cube[0], PositionVertex { position: exact(-100, -100, 100) });
    for v in &cube {
        match v.position {
            MeshPoint::Exact { x, y, z } => assert!([x, y, z].iter().all(|c| c.abs() == 100)),
            _ => panic!("cube corner is not exact"),
        }
    }
    let dot = dot_vertices();
    assert_eq!(dot[2], PositionVertex { position: exact(1000, 1000, 0) });
}

#[test]
fn cone_has_apex_sides_then_base() {
    let cone = cone_vertices();
    assert_eq!(cone[0].position, exact(0, 0, 0));
    assert_eq!(cone[1].position, MeshPoint::RingZ { step: 0, segments: 36, radius: 1000, z: 1000 });
    assert_eq!(cone[2].position, MeshPoint::RingZ { step: 1, segments: 36, radius: 1000, z: 1000 });
    assert_eq!(cone[107].position, MeshPoint::RingZ { step: 36, segments: 36, radius: 1000, z: 1000 });
    assert_eq!(cone[108].position, exact(0, 0, 1000));
    assert_eq!(cone[109].position, MeshPoint::RingZ { step: 1, segments: 36, radius: 1000, z: 1000 });
}

#[test]
fn satellite_mesh_follows_render_mode() {
    assert_eq!(satellite_mesh(SatelliteRenderMode::Cube), cube_vertices());
    assert_eq!(satellite_mesh(SatelliteRenderMode::Dot), dot_vertices());
}

#[test]
fn satellite_box_normals_point_outward() {
    let verts = eo_satellite_vertices();
    let boxes: [([i32; 3], [i32; 3]); 5] = [
        ([-100, -140, -90], [100, 140, 90]),
        ([90, -25, -25], [170, 25, 25]),
        ([160, -20, -200], [400, 20, 200]),
        ([-170, -25, -25], [-90, 25, 25]),
        ([-400, -20, -200], [-160, 20, 200]),
    ];
    for (b, (min, max)) in boxes.iter().enumerate() {
        // Twice the centre, to stay in integers.
        let centre2: Vec<i32> = (0..3).map(|i| min[i] + max[i]).collect();
        for v in &verts[36 * b..36 * (b + 1)] {
            let (MeshPoint::Exact { x, y, z }, MeshNormal::Axis { x: nx, y: ny, z: nz }) = (v.position, v.normal) else {
                panic!("box vertex is not exact with an axis normal");
            };
            let offset = [2 * x - centre2[0], 2 * y - centre2[1], 2 * z - centre2[2]];
            let dot = offset[0] * nx as i32 + offset[1] * ny as i32 + offset[2] * nz as i32;
            assert!(dot > 0, "box {b}: vertex {:?} has an inward normal", v.position);
        }
    }
}

#[test]
fn every_sphere_edge_is_walked_both_ways() {
    for n in 0..4usize {
        let mesh = icosahedron_topology(n);
        let directed: HashSet<(usize, usize)> =
            mesh.faces.iter().flat_map(|f| [(f[0], f[1]), (f[1], f[2]), (f[2], f[0])]).collect();
        for &(x, y) in &directed {
            assert!(directed.contains(&(y, x)), "edge {x}->{y} has no reverse at level {n}");
        }
        for f in &mesh.faces {
            assert!(f[0] != f[1] && f[1] != f[2] && f[2] != f[0]);
        }
    }
}
