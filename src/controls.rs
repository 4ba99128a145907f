//! Keyboard bindings of the free-flying camera: which command a key event
//! stands for. Carrying a command out (moving by the heading, turning by an
//! angle) is the caller's work.
use vstd::prelude::*;

verus! {

/// The keys that the camera listens to; every other key is `Other`.
#[derive(Clone, Copy, Debug, PartialEq, Eq, Structural)]
pub enum Key {
    Escape,
    KeyW,
    KeyA,
    KeyS,
    KeyD,
    Space,
    ShiftLeft,
    ArrowUp,
    ArrowLeft,
    ArrowDown,
    ArrowRight,
    Other,
}

/// What a key event asks of the camera.
#[derive(Clone, Copy, Debug, PartialEq, Eq, Structural)]
pub enum CameraCommand {
    /// Leave the application.
    Exit,
    /// Step along the horizontal heading.
    Forward,
    /// Step against the horizontal heading.
    Backward,
    /// Step sideways, to the left of the heading.
    StrafeLeft,
    /// Step sideways, to the right of the heading.
    StrafeRight,
    /// Move straight up.
    Rise,
    /// Move straight down.
    Sink,
    /// Raise the vertical angle.
    PitchUp,
    /// Lower the vertical angle.
    PitchDown,
    /// Raise the horizontal angle.
    YawLeft,
    /// Lower the horizontal angle.
    YawRight,
    /// Leave the camera as it is.
    Nothing,
}

/// The binding table: the command for a pressed key. Releasing a key does
/// nothing.
pub open spec fn binding(key: Key, pressed: bool) -> CameraCommand {
    if !pressed {
        CameraCommand::Nothing
    } else {
        match key {
            Key::Escape => CameraCommand::Exit,
            Key::KeyW => CameraCommand::Forward,
            Key::KeyA => CameraCommand::StrafeLeft,
            Key::KeyS => CameraCommand::Backward,
            Key::KeyD => CameraCommand::StrafeRight,
            Key::Space => CameraCommand::Rise,
            Key::ShiftLeft => CameraCommand::Sink,
            Key::ArrowUp => CameraCommand::PitchUp,
            Key::ArrowLeft => CameraCommand::YawLeft,
            Key::ArrowDown => CameraCommand::PitchDown,
            Key::ArrowRight => CameraCommand::YawRight,
            Key::Other => CameraCommand::Nothing,
        }
    }
}

/// The command that a key event stands for.
pub fn command_for_key(key: Key, pressed: bool) -> (command: CameraCommand)
    ensures
        command == binding(key, pressed),
{
    if !pressed {
        return CameraCommand::Nothing;
    }
    match key {
        Key::Escape => CameraCommand::Exit,
        Key::KeyW => CameraCommand::Forward,
        Key::KeyA => CameraCommand::StrafeLeft,
        Key::KeyS => CameraCommand::Backward,
        Key::KeyD => CameraCommand::StrafeRight,
        Key::Space => CameraCommand::Rise,
        Key::ShiftLeft => CameraCommand::Sink,
        Key::ArrowUp => CameraCommand::PitchUp,
        Key::ArrowLeft => CameraCommand::YawLeft,
        Key::ArrowDown => CameraCommand::PitchDown,
        Key::ArrowRight => CameraCommand::YawRight,
        Key::Other => CameraCommand::Nothing,
    }
}

} // verus!
