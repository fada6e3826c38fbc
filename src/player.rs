//! Key bindings of the camera controls.
use vstd::prelude::*;

verus! {

/// A key press, as the controls read it.
#[derive(Debug, Copy, Clone, PartialEq, Eq, Structural)]
pub enum Key {
    Up,
    Down,
    Left,
    Right,
    Char(char),
    Other,
}

/// Where the camera's pitch stands against its bound: at or past the
/// lowest allowed pitch, strictly between the bounds, or at or past the
/// highest.
#[derive(Debug, Copy, Clone, PartialEq, Eq, Structural)]
pub enum PitchLimit {
    Floor,
    Free,
    Ceiling,
}

/// What one key press does to the scene.
#[derive(Debug, Copy, Clone, PartialEq, Eq, Structural)]
pub enum Action {
    LookUp,
    LookDown,
    TurnLeft,
    TurnRight,
    Forward,
    Backward,
    StrafeLeft,
    StrafeRight,
    Rise,
    Sink,
    SpinMesh,
    SpinMeshBack,
    MoveLight,
    Nothing,
}

/// The key bindings: arrows look and turn, `z`/`s` walk, `q`/`d` strafe,
/// space rises (sinks with control held), `r`/`R` spin the mesh about the
/// vertical axis, `t` moves the light. Looking up stops at the ceiling and
/// looking down at the floor.
pub open spec fn binding(key: Key, control: bool, pitch: PitchLimit) -> Action {
    match key {
        Key::Up => if pitch == PitchLimit::Ceiling { Action::Nothing } else { Action::LookUp },
        Key::Down => if pitch == PitchLimit::Floor { Action::Nothing } else { Action::LookDown },
        Key::Left => Action::TurnLeft,
        Key::Right => Action::TurnRight,
        Key::Char(c) => if c == 'z' {
            Action::Forward
        } else if c == 's' {
            Action::Backward
        } else if c == 'q' {
            Action::StrafeLeft
        } else if c == 'd' {
            Action::StrafeRight
        } else if c == ' ' {
            if control { Action::Sink } else { Action::Rise }
        } else if c == 'r' {
            Action::SpinMesh
        } else if c == 'R' {
            Action::SpinMeshBack
        } else if c == 't' {
            Action::MoveLight
        } else {
            Action::Nothing
        },
        Key::Other => Action::Nothing,
    }
}

/// The action for a key press, given whether control is held and where the
/// pitch stands.
pub fn player_action(key: Key, control: bool, pitch: PitchLimit) -> (a: Action)
    ensures
        a == binding(key, control, pitch),
        pitch == PitchLimit::Ceiling ==> a != Action::LookUp,
        pitch == PitchLimit::Floor ==> a != Action::LookDown,
{
    match key {
        Key::Up => if pitch == PitchLimit::Ceiling { Action::Nothing } else { Action::LookUp },
        Key::Down => if pitch == PitchLimit::Floor { Action::Nothing } else { Action::LookDown },
        Key::Left => Action::TurnLeft,
        Key::Right => Action::TurnRight,
        Key::Char(c) => {
            if c == 'z' {
                Action::Forward
            } else if c == 's' {
                Action::Backward
            } else if c == 'q' {
                Action::StrafeLeft
            } else if c == 'd' {
                Action::StrafeRight
            } else if c == ' ' {
                if control { Action::Sink } else { Action::Rise }
            } else if c == 'r' {
                Action::SpinMesh
            } else if c == 'R' {
                Action::SpinMeshBack
            } else if c == 't' {
                Action::MoveLight
            } else {
                Action::Nothing
            }
        },
        Key::Other => Action::Nothing,
    }
}

} // verus!
