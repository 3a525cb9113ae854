use gears::ecs::components::controllers::{JumpControl, JumpState, MoveAction, MovementKeycodes};

fn bindings() -> MovementKeycodes {
    MovementKeycodes { forward: 10, backward: 11, left: 12, right: 13, up: 14, down: 15 }
}

#[test]
fn keys_map_to_actions() {
    let keys = bindings();
    assert_eq!(keys.action_for(10), Some(MoveAction::Forward));
    assert_eq!(keys.action_for(11), Some(MoveAction::Backward));
    assert_eq!(keys.action_for(12), Some(MoveAction::Left));
    assert_eq!(keys.action_for(13), Some(MoveAction::Right));
    assert_eq!(keys.action_for(14), Some(MoveAction::Up));
    assert_eq!(keys.action_for(15), Some(MoveAction::Down));
    assert_eq!(keys.action_for(99), None);
}

#[test]
fn first_binding_wins() {
    let keys = MovementKeycodes { forward: 1, backward: 1, left: 2, right: 2, up: 3, down: 3 };
    assert_eq!(keys.action_for(1), Some(MoveAction::Forward));
    assert_eq!(keys.action_for(2), Some(MoveAction::Left));
    assert_eq!(keys.action_for(3), Some(MoveAction::Up));
}

#[test]
fn jump_needs_press_ground_and_cooldown() {
    let mut c = JumpControl::default();
    assert!(!c.try_jump(true, true, true));
    c.on_jump_key(true);
    assert!(!c.try_jump(false, true, true));
    assert!(!c.try_jump(true, false, true));
    assert!(!c.try_jump(true, true, false));
    assert!(c.try_jump(true, true, true));
    assert_eq!(c.state, JumpState::Rising);
    assert!(!c.can_jump);
}

#[test]
fn no_second_jump_before_landing() {
    let mut c = JumpControl::new();
    c.on_jump_key(true);
    assert!(c.try_jump(true, true, true));
    c.on_jump_key(false);
    assert_eq!(c.state, JumpState::JumpReleased);
    c.on_jump_key(true);
    assert!(!c.try_jump(true, true, true));
    c.on_step(true, true);
    assert_eq!(c.state, JumpState::Grounded);
    assert!(c.can_jump);
    assert!(c.try_jump(true, true, true));
}

#[test]
fn rising_then_falling_then_landing() {
    let mut c = JumpControl::new();
    c.on_jump_key(true);
    assert!(c.try_jump(true, true, true));
    c.on_step(false, false);
    assert_eq!(c.state, JumpState::Rising);
    c.on_step(true, false);
    assert_eq!(c.state, JumpState::Falling);
    assert!(!c.can_jump);
    c.on_step(true, true);
    assert_eq!(c.state, JumpState::Grounded);
    assert!(c.can_jump);
    assert!(c.prev_jump_pressed);
}
