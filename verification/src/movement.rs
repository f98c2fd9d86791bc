use vstd::prelude::*;
use crate::platform::PlatformEvent;

verus! {

/// The key code the windowing boundary reports for the key labelled W.
pub const KEY_W: u32 = 87;

/// The key code the windowing boundary reports for the key labelled A.
pub const KEY_A: u32 = 65;

/// The key code the windowing boundary reports for the key labelled S.
pub const KEY_S: u32 = 83;

/// The key code the windowing boundary reports for the key labelled D.
pub const KEY_D: u32 = 68;

/// Which movement keys are held down right now.
#[derive(Clone, Copy, PartialEq, Eq, Structural, Debug)]
pub struct MovementData {
    /// The up key is held.
    pub up: bool,
    /// The down key is held.
    pub down: bool,
    /// The left key is held.
    pub left: bool,
    /// The right key is held.
    pub right: bool,
    /// Any movement key was ever pressed.
    pub pressed: bool,
}

impl MovementData {
    /// The held keys ask for a diagonal move: one vertical and one
    /// horizontal key are held, and not all keys of both axes at once.
    pub fn diagonal(&self) -> (r: bool)
        ensures
            r == (((self.up || self.down) && (self.left || self.right)) && (!self.up || !self.down
                || (!self.left || !self.right))),
    {
        ((self.up || self.down) && (self.left || self.right)) && (!self.up || !self.down || (!self.left
            || !self.right))
    }
}

/// Tracks one platform event into the held-key flags: a key event for one
/// of the four movement keys records whether that key is now down, and any
/// other event leaves the flags alone.
pub fn get_movement(data: &mut MovementData, event: &PlatformEvent)
    ensures
        match *event {
            PlatformEvent::KeyboardInput { key, pressed } => {
                &&& final(data).left == (if key == KEY_A {
                    pressed
                } else {
                    old(data).left
                })
                &&& final(data).right == (if key == KEY_D {
                    pressed
                } else {
                    old(data).right
                })
                &&& final(data).up == (if key == KEY_W {
                    pressed
                } else {
                    old(data).up
                })
                &&& final(data).down == (if key == KEY_S {
                    pressed
                } else {
                    old(data).down
                })
                &&& final(data).pressed == old(data).pressed
            },
            _ => *final(data) == *old(data),
        },
{
    match *event {
        PlatformEvent::KeyboardInput { key, pressed } => {
            if key == KEY_A {
                data.left = pressed;
            } else if key == KEY_D {
                data.right = pressed;
            } else if key == KEY_W {
                data.up = pressed;
            } else if key == KEY_S {
                data.down = pressed;
            }
        }
        _ => {}
    }
}

} // verus!
