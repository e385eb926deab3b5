use world_wgpu::frame::{
    bloom_size, buffer_allocation, buffer_write_plan, combined_ranges, instance_count, scene_steps, BloomSwitch, SceneStep,
    TargetSize, MAX_INSTANCES,
};
use world_wgpu::input::{camera_command, earth_texture_file, CameraCommand, CameraInput, CameraKey, TextureQuality};

#[test]
fn buffer_grows_only_when_too_small() {
    assert_eq!(buffer_allocation(None, 0), Some(1));
    assert_eq!(buffer_allocation(None, 48), Some(48));
    assert_eq!(buffer_allocation(Some(100), 50), None);
    assert_eq!(buffer_allocation(Some(100), 100), None);
    assert_eq!(buffer_allocation(Some(10), 50), Some(50));
    assert_eq!(buffer_allocation(Some(0), 0), None);
}

#[test]
fn bloom_targets_are_a_quarter_of_the_viewport() {
    assert_eq!(bloom_size(800, 600), (200, 150));
    assert_eq!(bloom_size(1921, 1081), (480, 270));
    assert_eq!(bloom_size(3, 2), (1, 1));
    assert_eq!(bloom_size(0, 0), (1, 1));
}

#[test]
fn bloom_switch_writes_only_on_change() {
    let mut switch = BloomSwitch { enabled: 1 };
    assert!(!switch.set_enabled(true));
    assert_eq!(switch.enabled, 1);
    assert!(switch.set_enabled(false));
    assert_eq!(switch.enabled, 0);
    assert!(!switch.set_enabled(false));
    assert!(switch.set_enabled(true));
    assert_eq!(switch.enabled, 1);
}

#[test]
fn targets_are_recreated_when_the_viewport_changes() {
    let mut target = TargetSize { size: (0, 0) };
    assert!(target.resize_to(800, 600));
    assert_eq!(target.size, (800, 600));
    assert!(!target.resize_to(800, 600));
    assert!(target.resize_to(800, 601));
    assert_eq!(target.size, (800, 601));
}

/// The passes of every drawn frame without clouds, before the optional overlays.
const BASE: [SceneStep; 10] = [
    SceneStep::ClearQuad,
    SceneStep::MilkyWay,
    SceneStep::StarCatalog,
    SceneStep::Planet,
    SceneStep::Sun,
    SceneStep::Orbits,
    SceneStep::Shapes,
    SceneStep::Satellites,
    SceneStep::Stations,
    SceneStep::Moon,
];

#[test]
fn scene_draws_in_layer_order() {
    assert_eq!(
        scene_steps(800, 600, true, true, true, true, 3),
        vec![
            SceneStep::ClearQuad,
            SceneStep::MilkyWay,
            SceneStep::StarCatalog,
            SceneStep::Planet,
            SceneStep::Sun,
            SceneStep::Orbits,
            SceneStep::Shapes,
            SceneStep::Clouds,
            SceneStep::Satellites,
            SceneStep::Stations,
            SceneStep::Moon,
            SceneStep::FovFill,
            SceneStep::Atmosphere,
            SceneStep::Bloom,
        ]
    );
    assert_eq!(
        scene_steps(800, 600, true, false, false, true, 0),
        [BASE.to_vec(), vec![SceneStep::Bloom]].concat()
    );
    assert_eq!(
        scene_steps(800, 600, true, false, true, false, 9),
        [BASE.to_vec(), vec![SceneStep::Atmosphere, SceneStep::Bloom]].concat()
    );
}

#[test]
fn empty_clip_or_missing_target_draws_nothing() {
    assert!(scene_steps(0, 600, true, true, true, true, 3).is_empty());
    assert!(scene_steps(800, 0, true, true, true, true, 3).is_empty());
    assert!(scene_steps(800, 600, false, true, true, true, 3).is_empty());
}

#[test]
fn instances_are_capped_by_the_uniform_buffer() {
    assert_eq!(MAX_INSTANCES, 64);
    assert_eq!(instance_count(0), 0);
    assert_eq!(instance_count(10), 10);
    assert_eq!(instance_count(64), 64);
    assert_eq!(instance_count(1000), 64);
}

#[test]
fn feature_ranges_move_past_the_orbits() {
    let orbits = vec![(0u32, 10u32), (10, 5)];
    let features = vec![(0u32, 4u32), (4, 2)];
    assert_eq!(combined_ranges(15, 6, &orbits, &features), vec![(0, 10), (10, 5), (15, 4), (19, 2)]);
    assert_eq!(combined_ranges(0, 6, &Vec::new(), &features), vec![(0, 4), (4, 2)]);
    assert!(combined_ranges(0, 0, &orbits, &features).is_empty());
}

#[test]
fn camera_keys_and_wheel() {
    assert_eq!(camera_command(CameraInput::Wheel { forward: true }), CameraCommand::Dolly { toward: true });
    assert_eq!(camera_command(CameraInput::Wheel { forward: false }), CameraCommand::Dolly { toward: false });
    assert_eq!(camera_command(CameraInput::KeyPressed(CameraKey::W)), CameraCommand::RotateVertically { sign: -1 });
    assert_eq!(camera_command(CameraInput::KeyPressed(CameraKey::ArrowDown)), CameraCommand::RotateVertically { sign: 1 });
    assert_eq!(camera_command(CameraInput::KeyPressed(CameraKey::A)), CameraCommand::RotateAroundUp { sign: -1 });
    assert_eq!(camera_command(CameraInput::KeyPressed(CameraKey::ArrowRight)), CameraCommand::RotateAroundUp { sign: 1 });
    assert_eq!(camera_command(CameraInput::KeyPressed(CameraKey::Other)), CameraCommand::Nothing);
    assert_eq!(camera_command(CameraInput::Other), CameraCommand::Nothing);
}

#[test]
fn opposite_keys_turn_opposite_ways() {
    let pairs = [
        (CameraKey::W, CameraKey::S),
        (CameraKey::ArrowUp, CameraKey::ArrowDown),
        (CameraKey::A, CameraKey::D),
        (CameraKey::ArrowLeft, CameraKey::ArrowRight),
    ];
    for (a, b) in pairs {
        match (camera_command(CameraInput::KeyPressed(a)), camera_command(CameraInput::KeyPressed(b))) {
            (CameraCommand::RotateVertically { sign: x }, CameraCommand::RotateVertically { sign: y })
            | (CameraCommand::RotateAroundUp { sign: x }, CameraCommand::RotateAroundUp { sign: y }) => {
                assert_eq!(x, -y)
            }
            other => panic!("unexpected commands {other:?}"),
        }
    }
}

#[test]
fn texture_quality_picks_the_earth_map() {
    assert_eq!(earth_texture_file(TextureQuality::LowRes), "textures/earthmap1k.jpg");
    assert_eq!(earth_texture_file(TextureQuality::HighRes), "textures/earthmap4k.jpg");
}

#[test]
fn empty_data_is_not_written() {
    assert_eq!(buffer_write_plan(None, 0), (Some(1), false));
    assert_eq!(buffer_write_plan(Some(8), 0), (None, false));
    assert_eq!(buffer_write_plan(Some(8), 16), (Some(16), true));
    assert_eq!(buffer_write_plan(Some(32), 16), (None, true));
}
