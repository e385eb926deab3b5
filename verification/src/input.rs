//! What the camera controller does with a window event, and which Earth texture a
//! quality setting loads.
use vstd::prelude::*;

verus! {

/// A key the camera controller listens to.
#[derive(Clone, Copy, Debug, PartialEq, Eq)]
pub enum CameraKey {
    W,
    S,
    A,
    D,
    ArrowUp,
    ArrowDown,
    ArrowLeft,
    ArrowRight,
    Other,
}

/// A window event, as far as the camera controller reads it.
#[derive(Clone, Copy, Debug, PartialEq, Eq)]
pub enum CameraInput {
    /// A mouse-wheel step; `forward` when the wheel moved by a positive amount of lines.
    Wheel { forward: bool },
    /// A key was pressed.
    KeyPressed(CameraKey),
    /// Anything else (key releases, other events).
    Other,
}

/// What the camera does.
#[derive(Clone, Copy, Debug, PartialEq, Eq)]
pub enum CameraCommand {
    /// Move the eye toward the target (`toward == true`) or away from it, by the linear speed.
    Dolly { toward: bool },
    /// Rotate about the horizontal axis, by `sign` times the angular speed.
    RotateVertically { sign: i8 },
    /// Rotate about the up axis, by `sign` times the angular speed.
    RotateAroundUp { sign: i8 },
    Nothing,
}

pub open spec fn camera_command_spec(input: CameraInput) -> CameraCommand {
    match input {
        CameraInput::Wheel { forward } => CameraCommand::Dolly { toward: forward },
        CameraInput::KeyPressed(key) => match key {
            CameraKey::W | CameraKey::ArrowUp => CameraCommand::RotateVertically { sign: -1i8 },
            CameraKey::S | CameraKey::ArrowDown => CameraCommand::RotateVertically { sign: 1i8 },
            CameraKey::D | CameraKey::ArrowRight => CameraCommand::RotateAroundUp { sign: 1i8 },
            CameraKey::A | CameraKey::ArrowLeft => CameraCommand::RotateAroundUp { sign: -1i8 },
            CameraKey::Other => CameraCommand::Nothing,
        },
        CameraInput::Other => CameraCommand::Nothing,
    }
}

/// The camera controller's response to an event: the wheel dollies, W/S and the
/// up/down arrows tilt, A/D and the left/right arrows turn about the up axis.
pub fn camera_command(input: CameraInput) -> (command: CameraCommand)
    ensures
        command == camera_command_spec(input),
{
    match input {
        CameraInput::Wheel { forward } => CameraCommand::Dolly { toward: forward },
        CameraInput::KeyPressed(key) => match key {
            CameraKey::W | CameraKey::ArrowUp => CameraCommand::RotateVertically { sign: -1 },
            CameraKey::S | CameraKey::ArrowDown => CameraCommand::RotateVertically { sign: 1 },
            CameraKey::D | CameraKey::ArrowRight => CameraCommand::RotateAroundUp { sign: 1 },
            CameraKey::A | CameraKey::ArrowLeft => CameraCommand::RotateAroundUp { sign: -1 },
            CameraKey::Other => CameraCommand::Nothing,
        },
        CameraInput::Other => CameraCommand::Nothing,
    }
}

/// Law: opposite keys move the camera in opposite directions, the arrow keys do what
/// their letter keys do, a forward wheel step moves the eye toward the target and a
/// backward one away from it, and any other key or event leaves the camera alone.
pub proof fn law_opposite_keys_cancel()
    ensures
        camera_command_spec(CameraInput::KeyPressed(CameraKey::W)) == (CameraCommand::RotateVertically { sign: -1i8 }),
        camera_command_spec(CameraInput::KeyPressed(CameraKey::S)) == (CameraCommand::RotateVertically { sign: 1i8 }),
        camera_command_spec(CameraInput::KeyPressed(CameraKey::A)) == (CameraCommand::RotateAroundUp { sign: -1i8 }),
        camera_command_spec(CameraInput::KeyPressed(CameraKey::D)) == (CameraCommand::RotateAroundUp { sign: 1i8 }),
        camera_command_spec(CameraInput::KeyPressed(CameraKey::ArrowUp)) == camera_command_spec(CameraInput::KeyPressed(CameraKey::W)),
        camera_command_spec(CameraInput::KeyPressed(CameraKey::ArrowDown)) == camera_command_spec(CameraInput::KeyPressed(CameraKey::S)),
        camera_command_spec(CameraInput::KeyPressed(CameraKey::ArrowLeft)) == camera_command_spec(CameraInput::KeyPressed(CameraKey::A)),
        camera_command_spec(CameraInput::KeyPressed(CameraKey::ArrowRight)) == camera_command_spec(CameraInput::KeyPressed(CameraKey::D)),
        camera_command_spec(CameraInput::Wheel { forward: true }) != camera_command_spec(CameraInput::Wheel { forward: false }),
        camera_command_spec(CameraInput::Wheel { forward: true }) == (CameraCommand::Dolly { toward: true }),
        camera_command_spec(CameraInput::Wheel { forward: false }) == (CameraCommand::Dolly { toward: false }),
        camera_command_spec(CameraInput::KeyPressed(CameraKey::Other)) == CameraCommand::Nothing,
        camera_command_spec(CameraInput::Other) == CameraCommand::Nothing,
{
}

/// Earth texture resolution to preload.
#[derive(Debug, Clone, Copy, PartialEq, Eq)]
pub enum TextureQuality {
    /// `earthmap1k.jpg` — fast decode, small footprint.
    LowRes,
    /// `earthmap4k.jpg` — highest visual quality.
    HighRes,
}

/// The Earth texture asset a quality setting loads.
pub fn earth_texture_file(quality: TextureQuality) -> (file: &'static str)
    ensures
        file@ == (match quality {
            TextureQuality::LowRes => "textures/earthmap1k.jpg"@,
            TextureQuality::HighRes => "textures/earthmap4k.jpg"@,
        }),
{
    match quality {
        TextureQuality::LowRes => "textures/earthmap1k.jpg",
        TextureQuality::HighRes => "textures/earthmap4k.jpg",
    }
}

} // verus!
