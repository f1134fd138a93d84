//! The local player's movement keys.
use vstd::prelude::*;

verus! {

/// Which movement keys are held.
#[derive(Clone, Copy, Debug, Default, PartialEq, Eq, Structural)]
pub struct PlayerInput {
    pub forward: bool,
    pub backward: bool,
    pub leftward: bool,
    pub rightward: bool,
    pub upward: bool,
    pub downward: bool,
}

/// The key scancodes: W, A, S, D, left shift and space.
pub const KEY_FORWARD: u32 = 17;
pub const KEY_LEFTWARD: u32 = 30;
pub const KEY_BACKWARD: u32 = 31;
pub const KEY_RIGHTWARD: u32 = 32;
pub const KEY_DOWNWARD: u32 = 42;
pub const KEY_UPWARD: u32 = 57;

impl PlayerInput {
    /// Records a key press or release; other keys change nothing.
    pub fn update(&mut self, scancode: u32, pressed: bool)
        ensures
            final(self).forward == if scancode == KEY_FORWARD { pressed } else { old(self).forward },
            final(self).leftward == if scancode == KEY_LEFTWARD { pressed } else { old(self).leftward },
            final(self).backward == if scancode == KEY_BACKWARD { pressed } else { old(self).backward },
            final(self).rightward == if scancode == KEY_RIGHTWARD { pressed } else { old(self).rightward },
            final(self).downward == if scancode == KEY_DOWNWARD { pressed } else { old(self).downward },
            final(self).upward == if scancode == KEY_UPWARD { pressed } else { old(self).upward },
    {
        if scancode == KEY_FORWARD {
            self.forward = pressed;
        } else if scancode == KEY_LEFTWARD {
            self.leftward = pressed;
        } else if scancode == KEY_BACKWARD {
            self.backward = pressed;
        } else if scancode == KEY_RIGHTWARD {
            self.rightward = pressed;
        } else if scancode == KEY_DOWNWARD {
            self.downward = pressed;
        } else if scancode == KEY_UPWARD {
            self.upward = pressed;
        }
    }
}

/// The unit in which a scroll wheel reports its motion.
#[derive(Clone, Copy, Debug, PartialEq, Eq, Structural)]
pub enum MouseScrollUnit {
    Line,
    Pixel,
}

} // verus!
