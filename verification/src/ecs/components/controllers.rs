//! The decisions of the movement controller: which movement a key drives,
//! and the jump state machine. Velocities, timers and key codes of the window
//! system are turned into plain events by the owner of the controller.

use vstd::prelude::*;

verus! {

/// The movements a key can drive.
#[derive(Debug, Clone, Copy, PartialEq, Eq, Structural)]
pub enum MoveAction {
    Forward,
    Backward,
    Left,
    Right,
    Up,
    Down,
}

/// The key codes bound to the movements.
#[derive(Debug, Clone, Copy, PartialEq, Eq, Structural)]
pub struct MovementKeycodes {
    /// Key to move forward.
    pub forward: u32,
    /// Key to move backward.
    pub backward: u32,
    /// Key to move left.
    pub left: u32,
    /// Key to move right.
    pub right: u32,
    /// Key to move up (jump).
    pub up: u32,
    /// Key to move down.
    pub down: u32,
}

/// The movement that `key` drives: the first binding that matches, in the
/// order forward, backward, left, right, up, down.
pub open spec fn action_of(keys: MovementKeycodes, key: u32) -> Option<MoveAction> {
    if key == keys.forward {
        Some(MoveAction::Forward)
    } else if key == keys.backward {
        Some(MoveAction::Backward)
    } else if key == keys.left {
        Some(MoveAction::Left)
    } else if key == keys.right {
        Some(MoveAction::Right)
    } else if key == keys.up {
        Some(MoveAction::Up)
    } else if key == keys.down {
        Some(MoveAction::Down)
    } else {
        None
    }
}

impl MovementKeycodes {
    /// The movement that `key` drives, if any.
    pub fn action_for(&self, key: u32) -> (r: Option<MoveAction>)
        ensures
            r == action_of(*self, key),
    {
        if key == self.forward {
            Some(MoveAction::Forward)
        } else if key == self.backward {
            Some(MoveAction::Backward)
        } else if key == self.left {
            Some(MoveAction::Left)
        } else if key == self.right {
            Some(MoveAction::Right)
        } else if key == self.up {
            Some(MoveAction::Up)
        } else if key == self.down {
            Some(MoveAction::Down)
        } else {
            None
        }
    }
}

/// Where the controlled body is in a jump.
#[derive(Debug, Clone, Copy, PartialEq, Eq, Structural)]
pub enum JumpState {
    Grounded,
    Rising,
    Falling,
    JumpReleased,
}

/// The jump bookkeeping of a movement controller.
#[derive(Debug, Clone, Copy, PartialEq, Eq, Structural)]
pub struct JumpControl {
    /// Where the body is in a jump.
    pub state: JumpState,
    /// Whether the jump key was down at its last event.
    pub prev_jump_pressed: bool,
    /// Whether a jump may start; cleared by a jump, set again on landing.
    pub can_jump: bool,
}

/// The jump bookkeeping after a jump key event.
pub open spec fn after_jump_key(c: JumpControl, pressed: bool) -> JumpControl {
    JumpControl {
        state: if !pressed && (c.state == JumpState::Rising || c.state == JumpState::Falling) {
            JumpState::JumpReleased
        } else {
            c.state
        },
        prev_jump_pressed: pressed,
        can_jump: c.can_jump,
    }
}

/// The jump bookkeeping after a physics step in which the body's vertical
/// velocity was not positive (`descending`) and it was or was not on the
/// ground.
pub open spec fn after_step(c: JumpControl, descending: bool, grounded: bool) -> JumpControl {
    if c.state == JumpState::Rising && descending {
        JumpControl { state: JumpState::Falling, ..c }
    } else if (c.state == JumpState::Falling || c.state == JumpState::JumpReleased) && grounded {
        JumpControl { state: JumpState::Grounded, can_jump: true, ..c }
    } else {
        c
    }
}

/// Whether a jump starts: on the ground, allowed, after the cooldown, with
/// the jump key held and its last event a press.
pub open spec fn jump_starts(c: JumpControl, grounded: bool, cooldown_elapsed: bool, up_held: bool) -> bool {
    grounded && c.can_jump && cooldown_elapsed && up_held && c.prev_jump_pressed
}

impl JumpControl {
    /// On the ground, allowed to jump, jump key up.
    pub fn new() -> (c: Self)
        ensures
            c.state == JumpState::Grounded,
            !c.prev_jump_pressed,
            c.can_jump,
    {
        JumpControl { state: JumpState::Grounded, prev_jump_pressed: false, can_jump: true }
    }

    /// A jump key event: releasing the key in the air marks the jump as
    /// released, and the key's state is remembered.
    pub fn on_jump_key(&mut self, pressed: bool)
        ensures
            *final(self) == after_jump_key(*old(self), pressed),
    {
        if !pressed && (self.state == JumpState::Rising || self.state == JumpState::Falling) {
            self.state = JumpState::JumpReleased;
        }
        self.prev_jump_pressed = pressed;
    }

    /// A physics step: a rising body that stops rising falls, and a falling
    /// body that reaches the ground lands and may jump again.
    pub fn on_step(&mut self, descending: bool, grounded: bool)
        ensures
            *final(self) == after_step(*old(self), descending, grounded),
    {
        if self.state == JumpState::Rising && descending {
            self.state = JumpState::Falling;
        } else if (self.state == JumpState::Falling || self.state == JumpState::JumpReleased)
            && grounded {
            self.state = JumpState::Grounded;
            self.can_jump = true;
        }
    }

    /// Start a jump if one may start; returns whether it did. A jump sets the
    /// body rising and forbids the next jump until landing.
    pub fn try_jump(&mut self, grounded: bool, cooldown_elapsed: bool, up_held: bool) -> (r: bool)
        ensures
            r == jump_starts(*old(self), grounded, cooldown_elapsed, up_held),
            r ==> *final(self) == (JumpControl { state: JumpState::Rising, can_jump: false, ..*old(self) }),
            !r ==> *final(self) == *old(self),
    {
        if grounded && self.can_jump && cooldown_elapsed && up_held && self.prev_jump_pressed {
            self.state = JumpState::Rising;
            self.can_jump = false;
            true
        } else {
            false
        }
    }
}

impl Default for JumpControl {
    /// On the ground, allowed to jump, jump key up.
    fn default() -> (c: Self)
        ensures
            c.state == JumpState::Grounded,
            !c.prev_jump_pressed,
            c.can_jump,
    {
        JumpControl::new()
    }
}

/// Releasing the jump key in the air is recorded: a body that is rising or
/// falling ends up with its jump released, whatever else holds; releasing it on
/// the ground, or pressing it, leaves where the body is in a jump unchanged.
/// In every case the key's new state is remembered and whether a jump may
/// start is unchanged.
pub proof fn lemma_release_in_air_is_recorded(c: JumpControl, pressed: bool)
    ensures
        !pressed && (c.state == JumpState::Rising || c.state == JumpState::Falling)
            ==> after_jump_key(c, pressed).state == JumpState::JumpReleased,
        (pressed || c.state == JumpState::Grounded || c.state == JumpState::JumpReleased)
            ==> after_jump_key(c, pressed).state == c.state,
        after_jump_key(c, pressed).prev_jump_pressed == pressed,
        after_jump_key(c, pressed).can_jump == c.can_jump,
{
}

/// After a jump, no other jump starts until the body has landed: key events
/// and attempts leave the jump forbidden, and only a step that finds a falling
/// or released body on the ground allows it again.
pub proof fn lemma_no_jump_until_landing(
    c: JumpControl,
    pressed: bool,
    descending: bool,
    grounded: bool,
    cooldown_elapsed: bool,
    up_held: bool,
)
    requires
        !c.can_jump,
    ensures
        !jump_starts(c, grounded, cooldown_elapsed, up_held),
        !after_jump_key(c, pressed).can_jump,
        after_step(c, descending, grounded).can_jump <==> (grounded && (c.state
            == JumpState::Falling || c.state == JumpState::JumpReleased)),
{
}

} // verus!
