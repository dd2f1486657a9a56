//! The snapshot of the player's input that each tick works on.

use vstd::prelude::*;
use crate::vec2::Vec2;
use crate::vec2::UNIT;
use crate::vec2::scaled;

verus! {

/// Where the cursor points in the world.
#[derive(Clone, Copy, Debug, PartialEq, Eq, Structural)]
pub struct MouseWorldCoords(pub Vec2);

impl Default for MouseWorldCoords {
    fn default() -> (m: MouseWorldCoords)
        ensures
            m.0 == Vec2::zero(),
    {
        MouseWorldCoords(Vec2::origin())
    }
}

/// What the player asks for in one tick. The flags are edges: set in the
/// tick in which the key went down.
#[derive(Clone, Copy, Debug, PartialEq, Eq, Structural)]
pub struct PlayerInput {
    /// One world unit long, or zero.
    pub move_direction: Vec2,
    pub attack: bool,
    pub dash: bool,
    pub hook: bool,
    /// One step of the wheel: 1 away from the user, -1 toward them, 0 for
    /// none.
    pub scroll: i8,
    pub escape: bool,
    pub toggle_fullscreen: bool,
    pub restart: bool,
}

impl PlayerInput {
    /// The input of a tick in which nothing is pressed.
    pub open spec fn idle() -> PlayerInput {
        PlayerInput {
            move_direction: Vec2::zero(),
            attack: false,
            dash: false,
            hook: false,
            scroll: 0,
            escape: false,
            toggle_fullscreen: false,
            restart: false,
        }
    }

    /// Clears the snapshot before a tick fills it again.
    pub fn reset_player_input(&mut self)
        ensures
            *final(self) == Self::idle(),
    {
        *self = PlayerInput::default();
    }

    /// The direction that the four movement keys ask for.
    pub open spec fn direction(down: bool, up: bool, right: bool, left: bool) -> Vec2 {
        let x = (if right { 1int } else { 0int }) - (if left { 1int } else { 0int });
        let y = (if up { 1int } else { 0int }) - (if down { 1int } else { 0int });
        scaled(x, y, UNIT as nat)
    }

    /// Sets the movement direction from the four movement keys: opposite
    /// keys cancel, and a diagonal is as long as a straight.
    pub fn player_movement(&mut self, down: bool, up: bool, right: bool, left: bool)
        ensures
            *final(self) == (PlayerInput {
                move_direction: Self::direction(down, up, right, left),
                ..*old(self)
            }),
    {
        let mut x: i32 = 0;
        let mut y: i32 = 0;
        if down {
            y = y - 1;
        }
        if up {
            y = y + 1;
        }
        if right {
            x = x + 1;
        }
        if left {
            x = x - 1;
        }
        self.move_direction = Vec2::new(x, y).with_length(1000);
    }

    /// Records a turn of the wheel: up turns the volume down by one step,
    /// any other turn turns it up.
    pub fn fetch_scroll_events(&mut self, wheel_up: bool)
        ensures
            *final(self) == (PlayerInput {
                scroll: if wheel_up {
                    -1i8
                } else {
                    1i8
                },
                ..*old(self)
            }),
    {
        self.scroll = if wheel_up {
            -1
        } else {
            1
        };
    }
}

impl Default for PlayerInput {
    fn default() -> (i: PlayerInput)
        ensures
            i == PlayerInput::idle(),
    {
        PlayerInput {
            move_direction: Vec2::origin(),
            attack: false,
            dash: false,
            hook: false,
            scroll: 0,
            escape: false,
            toggle_fullscreen: false,
            restart: false,
        }
    }
}

/// Whether the debug overlay is shown.
#[derive(Clone, Copy, Debug, PartialEq, Eq, Structural)]
pub struct DebugMode {
    pub active: bool,
}

impl DebugMode {
    /// Switches the overlay when its key went down.
    pub fn toggle_debug_mode(&mut self, pressed: bool)
        ensures
            final(self).active == (old(self).active != pressed),
    {
        if pressed {
            self.active = !self.active;
        }
    }
}

impl Default for DebugMode {
    fn default() -> (d: DebugMode)
        ensures
            !d.active,
    {
        DebugMode { active: false }
    }
}

} // verus!
