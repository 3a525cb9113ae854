use gears::ecs::components::fsm::{
    DefaultStateId, FiniteStateMachine, FsmHook, StateIdentifier, UpdateTarget,
};
use std::collections::HashMap;

/// Shared data the test states read and write.
#[derive(Default)]
struct Context {
    bools: HashMap<String, bool>,
    floats: HashMap<String, f32>,
}

impl Context {
    fn set_bool(&mut self, key: &str, value: bool) {
        self.bools.insert(key.to_string(), value);
    }
    fn get_bool(&self, key: &str) -> Option<bool> {
        self.bools.get(key).copied()
    }
    fn set_float(&mut self, key: &str, value: f32) {
        self.floats.insert(key.to_string(), value);
    }
    fn get_float(&self, key: &str) -> Option<f32> {
        self.floats.get(key).copied()
    }
}

/// The behaviour of one state, as the tests define it.
trait State {
    fn on_enter(&mut self, _context: &mut Context) {}
    fn on_update(&mut self, _context: &mut Context) {}
    fn on_exit(&mut self, _context: &mut Context) {}
    fn check_transitions(&self, _context: &Context) -> Option<DefaultStateId> {
        None
    }
}

/// The state machine with its state objects: the library decides, this
/// runs the hooks it asks for.
struct Machine {
    fsm: FiniteStateMachine<DefaultStateId>,
    states: HashMap<DefaultStateId, Box<dyn State>>,
    sub_states: HashMap<(DefaultStateId, DefaultStateId), Box<dyn State>>,
    context: Context,
}

impl Machine {
    fn new() -> Self {
        Machine {
            fsm: FiniteStateMachine::default(),
            states: HashMap::new(),
            sub_states: HashMap::new(),
            context: Context::default(),
        }
    }
    fn add_state(&mut self, id: DefaultStateId, state: Box<dyn State>) {
        self.fsm.add_state(id);
        self.states.insert(id, state);
    }
    fn add_sub_state(&mut self, parent: DefaultStateId, sub: DefaultStateId, state: Box<dyn State>) {
        self.fsm.add_sub_state(parent, sub);
        self.sub_states.insert((parent, sub), state);
    }
    fn run(&mut self, hooks: Vec<FsmHook<DefaultStateId>>) {
        for hook in hooks {
            match hook {
                FsmHook::Enter(s) => self.states.get_mut(&s).unwrap().on_enter(&mut self.context),
                FsmHook::Exit(s) => self.states.get_mut(&s).unwrap().on_exit(&mut self.context),
                FsmHook::EnterSub(p, s) => {
                    self.sub_states.get_mut(&(p, s)).unwrap().on_enter(&mut self.context)
                }
                FsmHook::ExitSub(p, s) => {
                    self.sub_states.get_mut(&(p, s)).unwrap().on_exit(&mut self.context)
                }
            }
        }
    }
    fn set_initial_state(&mut self, id: DefaultStateId) {
        let hooks = self.fsm.set_initial_state(id);
        self.run(hooks);
    }
    fn transition_to(&mut self, id: DefaultStateId) {
        let hooks = self.fsm.transition_to(id);
        self.run(hooks);
    }
    fn transition_to_sub_state(&mut self, id: DefaultStateId) {
        let hooks = self.fsm.transition_to_sub_state(id);
        self.run(hooks);
    }
    fn update(&mut self) {
        match self.fsm.update_target() {
            UpdateTarget::Disabled | UpdateTarget::NoState => return,
            UpdateTarget::SubState(p, s) => {
                let sub = self.sub_states.get_mut(&(p, s)).unwrap();
                sub.on_update(&mut self.context);
                if let Some(next) = sub.check_transitions(&self.context) {
                    self.transition_to_sub_state(next);
                    return;
                }
                self.update_main(p);
            }
            UpdateTarget::MainState(m) => self.update_main(m),
        }
    }
    fn update_main(&mut self, m: DefaultStateId) {
        let state = self.states.get_mut(&m).unwrap();
        state.on_update(&mut self.context);
        if let Some(next) = state.check_transitions(&self.context) {
            self.transition_to(next);
        }
    }
}

struct IdleState;
impl State for IdleState {
    fn on_enter(&mut self, context: &mut Context) {
        context.set_bool("idle_entered", true);
    }
    fn on_update(&mut self, context: &mut Context) {
        let count = context.get_float("update_count").unwrap_or(0.0);
        context.set_float("update_count", count + 1.0);
    }
    fn on_exit(&mut self, context: &mut Context) {
        context.set_bool("idle_exited", true);
    }
    fn check_transitions(&self, context: &Context) -> Option<DefaultStateId> {
        if context.get_bool("should_attack").unwrap_or(false) {
            Some(DefaultStateId::Attack)
        } else {
            None
        }
    }
}

struct AttackState;
impl State for AttackState {
    fn on_enter(&mut self, context: &mut Context) {
        context.set_bool("attack_entered", true);
    }
    fn on_exit(&mut self, context: &mut Context) {
        context.set_bool("attack_exited", true);
    }
}

struct SubStateWander;
impl State for SubStateWander {
    fn on_enter(&mut self, context: &mut Context) {
        context.set_bool("wander_entered", true);
    }
    fn check_transitions(&self, context: &Context) -> Option<DefaultStateId> {
        if context.get_bool("should_watch").unwrap_or(false) {
            Some(DefaultStateId::IdleWatch)
        } else {
            None
        }
    }
}

struct SubStateWatch;
impl State for SubStateWatch {
    fn on_enter(&mut self, context: &mut Context) {
        context.set_bool("watch_entered", true);
    }
}

#[test]
fn test_fsm_creation() {
    let fsm: FiniteStateMachine<DefaultStateId> = FiniteStateMachine::new();
    assert!(fsm.current_state().is_none());
    assert!(fsm.is_enabled());
}

#[test]
fn test_fsm_default() {
    let fsm: FiniteStateMachine<DefaultStateId> = FiniteStateMachine::default();
    assert!(fsm.current_state().is_none());
    assert!(fsm.is_enabled());
}

#[test]
fn test_add_and_set_initial_state() {
    let mut fsm = Machine::new();
    fsm.add_state(DefaultStateId::Idle, Box::new(IdleState));
    fsm.set_initial_state(DefaultStateId::Idle);

    assert_eq!(fsm.fsm.current_state(), Some(DefaultStateId::Idle));
    assert_eq!(fsm.context.get_bool("idle_entered"), Some(true));
}

#[test]
fn test_state_transition() {
    let mut fsm = Machine::new();
    fsm.add_state(DefaultStateId::Idle, Box::new(IdleState));
    fsm.add_state(DefaultStateId::Attack, Box::new(AttackState));
    fsm.set_initial_state(DefaultStateId::Idle);

    assert_eq!(fsm.fsm.current_state(), Some(DefaultStateId::Idle));

    fsm.transition_to(DefaultStateId::Attack);

    assert_eq!(fsm.fsm.current_state(), Some(DefaultStateId::Attack));
    assert_eq!(fsm.context.get_bool("idle_exited"), Some(true));
    assert_eq!(fsm.context.get_bool("attack_entered"), Some(true));
}

#[test]
fn test_previous_state_tracking() {
    let mut fsm = Machine::new();
    fsm.add_state(DefaultStateId::Idle, Box::new(IdleState));
    fsm.add_state(DefaultStateId::Attack, Box::new(AttackState));
    fsm.set_initial_state(DefaultStateId::Idle);

    assert_eq!(fsm.fsm.previous_state(), None);

    fsm.transition_to(DefaultStateId::Attack);

    assert_eq!(fsm.fsm.previous_state(), Some(DefaultStateId::Idle));
}

#[test]
fn test_state_stack() {
    let mut fsm = Machine::new();
    fsm.add_state(DefaultStateId::Idle, Box::new(IdleState));
    fsm.set_initial_state(DefaultStateId::Idle);

    let stack = fsm.fsm.state_stack();
    assert_eq!(stack.len(), 1);
    assert_eq!(stack[0], DefaultStateId::Idle);
}

#[test]
fn test_update_calls_on_update() {
    let mut fsm = Machine::new();
    fsm.add_state(DefaultStateId::Idle, Box::new(IdleState));
    fsm.set_initial_state(DefaultStateId::Idle);

    fsm.update();

    assert_eq!(fsm.context.get_float("update_count"), Some(1.0));

    fsm.update();

    assert_eq!(fsm.context.get_float("update_count"), Some(2.0));
}

#[test]
fn test_automatic_transition_from_check_transitions() {
    let mut fsm = Machine::new();
    fsm.add_state(DefaultStateId::Idle, Box::new(IdleState));
    fsm.add_state(DefaultStateId::Attack, Box::new(AttackState));
    fsm.set_initial_state(DefaultStateId::Idle);

    assert_eq!(fsm.fsm.current_state(), Some(DefaultStateId::Idle));

    // Set trigger for transition
    fsm.context.set_bool("should_attack", true);
    fsm.update();

    // Should have automatically transitioned
    assert_eq!(fsm.fsm.current_state(), Some(DefaultStateId::Attack));
}

#[test]
fn test_enable_disable() {
    let mut fsm = Machine::new();
    fsm.add_state(DefaultStateId::Idle, Box::new(IdleState));
    fsm.set_initial_state(DefaultStateId::Idle);

    assert!(fsm.fsm.is_enabled());

    fsm.fsm.set_enabled(false);
    assert!(!fsm.fsm.is_enabled());

    // Update should not call on_update when disabled
    fsm.update();
    assert_eq!(fsm.context.get_float("update_count"), None);

    fsm.fsm.set_enabled(true);
    fsm.update();
    assert_eq!(fsm.context.get_float("update_count"), Some(1.0));
}

#[test]
fn test_sub_states() {
    let mut fsm = Machine::new();
    fsm.add_state(DefaultStateId::Idle, Box::new(IdleState));
    fsm.add_sub_state(DefaultStateId::Idle, DefaultStateId::IdleWander, Box::new(SubStateWander));
    fsm.add_sub_state(DefaultStateId::Idle, DefaultStateId::IdleWatch, Box::new(SubStateWatch));
    fsm.fsm.set_initial_sub_state(DefaultStateId::Idle, DefaultStateId::IdleWander);
    fsm.set_initial_state(DefaultStateId::Idle);

    assert_eq!(fsm.fsm.current_state(), Some(DefaultStateId::Idle));
    assert_eq!(fsm.fsm.current_sub_state(), Some(DefaultStateId::IdleWander));
    assert_eq!(fsm.context.get_bool("wander_entered"), Some(true));

    // Check state stack has both main and sub state
    let stack = fsm.fsm.state_stack();
    assert_eq!(stack.len(), 2);
    assert_eq!(stack[0], DefaultStateId::Idle);
    assert_eq!(stack[1], DefaultStateId::IdleWander);
}

#[test]
fn test_sub_state_transition() {
    let mut fsm = Machine::new();
    fsm.add_state(DefaultStateId::Idle, Box::new(IdleState));
    fsm.add_sub_state(DefaultStateId::Idle, DefaultStateId::IdleWander, Box::new(SubStateWander));
    fsm.add_sub_state(DefaultStateId::Idle, DefaultStateId::IdleWatch, Box::new(SubStateWatch));
    fsm.fsm.set_initial_sub_state(DefaultStateId::Idle, DefaultStateId::IdleWander);
    fsm.set_initial_state(DefaultStateId::Idle);

    assert_eq!(fsm.fsm.current_sub_state(), Some(DefaultStateId::IdleWander));

    fsm.transition_to_sub_state(DefaultStateId::IdleWatch);

    assert_eq!(fsm.fsm.current_sub_state(), Some(DefaultStateId::IdleWatch));
    assert_eq!(fsm.fsm.current_state(), Some(DefaultStateId::Idle)); // Main state unchanged
    assert_eq!(fsm.context.get_bool("watch_entered"), Some(true));
}

#[test]
fn test_automatic_sub_state_transition() {
    let mut fsm = Machine::new();
    fsm.add_state(DefaultStateId::Idle, Box::new(IdleState));
    fsm.add_sub_state(DefaultStateId::Idle, DefaultStateId::IdleWander, Box::new(SubStateWander));
    fsm.add_sub_state(DefaultStateId::Idle, DefaultStateId::IdleWatch, Box::new(SubStateWatch));
    fsm.fsm.set_initial_sub_state(DefaultStateId::Idle, DefaultStateId::IdleWander);
    fsm.set_initial_state(DefaultStateId::Idle);

    assert_eq!(fsm.fsm.current_sub_state(), Some(DefaultStateId::IdleWander));

    // Trigger sub-state transition
    fsm.context.set_bool("should_watch", true);
    fsm.update();

    assert_eq!(fsm.fsm.current_sub_state(), Some(DefaultStateId::IdleWatch));
}

#[test]
fn test_main_state_transition_exits_sub_state() {
    let mut fsm = Machine::new();
    fsm.add_state(DefaultStateId::Idle, Box::new(IdleState));
    fsm.add_state(DefaultStateId::Attack, Box::new(AttackState));
    fsm.add_sub_state(DefaultStateId::Idle, DefaultStateId::IdleWander, Box::new(SubStateWander));
    fsm.fsm.set_initial_sub_state(DefaultStateId::Idle, DefaultStateId::IdleWander);
    fsm.set_initial_state(DefaultStateId::Idle);

    assert_eq!(fsm.fsm.current_sub_state(), Some(DefaultStateId::IdleWander));

    fsm.transition_to(DefaultStateId::Attack);

    // Sub-state should be cleared when transitioning main state
    assert_eq!(fsm.fsm.current_sub_state(), None);
    assert_eq!(fsm.fsm.current_state(), Some(DefaultStateId::Attack));
}

#[test]
fn test_default_state_id_as_str() {
    assert_eq!(DefaultStateId::Idle.as_str(), "idle");
    assert_eq!(DefaultStateId::Attack.as_str(), "attack");
    assert_eq!(DefaultStateId::IdleWander.as_str(), "idle_wander");
    assert_eq!(DefaultStateId::AttackStrike.as_str(), "attack_strike");
}

#[test]
fn test_default_state_id_display() {
    assert_eq!(DefaultStateId::Idle.to_string(), "idle");
    assert_eq!(DefaultStateId::Attack.to_string(), "attack");
}

#[test]
fn test_default_state_id_is_main_state() {
    assert!(DefaultStateId::Idle.is_main_state());
    assert!(DefaultStateId::Attack.is_main_state());
    assert!(DefaultStateId::Defend.is_main_state());
    assert!(DefaultStateId::Escape.is_main_state());

    assert!(!DefaultStateId::IdleWander.is_main_state());
    assert!(!DefaultStateId::AttackStrike.is_main_state());
}

#[test]
fn test_default_state_id_is_sub_state_of() {
    assert!(DefaultStateId::IdleWander.is_sub_state_of(DefaultStateId::Idle));
    assert!(DefaultStateId::IdleWatch.is_sub_state_of(DefaultStateId::Idle));
    assert!(DefaultStateId::AttackStrike.is_sub_state_of(DefaultStateId::Attack));

    assert!(!DefaultStateId::IdleWander.is_sub_state_of(DefaultStateId::Attack));
    assert!(!DefaultStateId::Idle.is_sub_state_of(DefaultStateId::Idle));
}

#[test]
fn test_transition_to_nonexistent_state_does_nothing() {
    let mut fsm = Machine::new();
    fsm.add_state(DefaultStateId::Idle, Box::new(IdleState));
    fsm.set_initial_state(DefaultStateId::Idle);

    let initial_state = fsm.fsm.current_state();

    // Try to transition to a state that wasn't added
    fsm.transition_to(DefaultStateId::Attack);

    // Should remain in the same state
    assert_eq!(fsm.fsm.current_state(), initial_state);
}

#[test]
fn test_set_initial_sub_state_validates_existence() {
    let mut fsm = Machine::new();
    fsm.add_state(DefaultStateId::Idle, Box::new(IdleState));

    // Try to set initial sub-state without adding it first
    fsm.fsm.set_initial_sub_state(DefaultStateId::Idle, DefaultStateId::IdleWander);

    // When we set the initial state, no sub-state should be entered
    fsm.set_initial_state(DefaultStateId::Idle);
    assert_eq!(fsm.fsm.current_sub_state(), None);
}

#[test]
fn test_state_stack_with_sub_states() {
    let mut fsm = Machine::new();
    fsm.add_state(DefaultStateId::Idle, Box::new(IdleState));
    fsm.add_sub_state(DefaultStateId::Idle, DefaultStateId::IdleWander, Box::new(SubStateWander));
    fsm.fsm.set_initial_sub_state(DefaultStateId::Idle, DefaultStateId::IdleWander);
    fsm.set_initial_state(DefaultStateId::Idle);

    let stack = fsm.fsm.state_stack();
    assert_eq!(stack.len(), 2);
    assert_eq!(stack[0], DefaultStateId::Idle);
    assert_eq!(stack[1], DefaultStateId::IdleWander);

    // Transition to different sub-state
    fsm.add_sub_state(DefaultStateId::Idle, DefaultStateId::IdleWatch, Box::new(SubStateWatch));
    fsm.transition_to_sub_state(DefaultStateId::IdleWatch);

    let stack = fsm.fsm.state_stack();
    assert_eq!(stack.len(), 2);
    assert_eq!(stack[0], DefaultStateId::Idle);
    assert_eq!(stack[1], DefaultStateId::IdleWatch);
}

#[test]
fn test_transition_clears_state_stack() {
    let mut fsm = Machine::new();
    fsm.add_state(DefaultStateId::Idle, Box::new(IdleState));
    fsm.add_state(DefaultStateId::Attack, Box::new(AttackState));
    fsm.add_sub_state(DefaultStateId::Idle, DefaultStateId::IdleWander, Box::new(SubStateWander));
    fsm.fsm.set_initial_sub_state(DefaultStateId::Idle, DefaultStateId::IdleWander);
    fsm.set_initial_state(DefaultStateId::Idle);

    assert_eq!(fsm.fsm.state_stack().len(), 2);

    fsm.transition_to(DefaultStateId::Attack);

    // Stack should only have the new main state
    assert_eq!(fsm.fsm.state_stack().len(), 1);
    assert_eq!(fsm.fsm.state_stack()[0], DefaultStateId::Attack);
}

#[test]
fn fsm_transition_hooks_in_order() {
    let mut fsm: FiniteStateMachine<DefaultStateId> = FiniteStateMachine::default();
    fsm.add_state(DefaultStateId::Idle);
    fsm.add_state(DefaultStateId::Attack);
    fsm.add_sub_state(DefaultStateId::Idle, DefaultStateId::IdleWander);
    fsm.add_sub_state(DefaultStateId::Attack, DefaultStateId::AttackStrike);
    fsm.set_initial_sub_state(DefaultStateId::Idle, DefaultStateId::IdleWander);
    fsm.set_initial_sub_state(DefaultStateId::Attack, DefaultStateId::AttackStrike);
    assert_eq!(
        fsm.set_initial_state(DefaultStateId::Idle),
        vec![
            FsmHook::Enter(DefaultStateId::Idle),
            FsmHook::EnterSub(DefaultStateId::Idle, DefaultStateId::IdleWander)
        ]
    );
    assert_eq!(
        fsm.transition_to(DefaultStateId::Attack),
        vec![
            FsmHook::ExitSub(DefaultStateId::Idle, DefaultStateId::IdleWander),
            FsmHook::Exit(DefaultStateId::Idle),
            FsmHook::Enter(DefaultStateId::Attack),
            FsmHook::EnterSub(DefaultStateId::Attack, DefaultStateId::AttackStrike)
        ]
    );
    assert_eq!(fsm.previous_state(), Some(DefaultStateId::Idle));
    // Transitioning to the active state leaves and re-enters it.
    assert_eq!(fsm.transition_to(DefaultStateId::Attack).len(), 4);
    assert_eq!(fsm.previous_state(), Some(DefaultStateId::Attack));
    // A sub-state of another parent is refused.
    assert!(fsm.transition_to_sub_state(DefaultStateId::IdleWander).is_empty());
    assert_eq!(fsm.current_sub_state(), Some(DefaultStateId::AttackStrike));
    // Unregistered states are refused too.
    assert!(fsm.set_initial_state(DefaultStateId::Escape).is_empty());
    assert!(fsm.has_state(DefaultStateId::Attack));
    assert!(!fsm.has_state(DefaultStateId::Escape));
    assert!(fsm.has_sub_state(DefaultStateId::Attack, DefaultStateId::AttackStrike));
}

#[test]
fn fsm_update_target_follows_active_states() {
    let mut fsm: FiniteStateMachine<DefaultStateId> = FiniteStateMachine::default();
    assert_eq!(fsm.update_target(), UpdateTarget::NoState);
    fsm.add_state(DefaultStateId::Defend);
    fsm.add_sub_state(DefaultStateId::Defend, DefaultStateId::DefendBlock);
    fsm.set_initial_state(DefaultStateId::Defend);
    assert_eq!(fsm.update_target(), UpdateTarget::MainState(DefaultStateId::Defend));
    fsm.transition_to_sub_state(DefaultStateId::DefendBlock);
    assert_eq!(
        fsm.update_target(),
        UpdateTarget::SubState(DefaultStateId::Defend, DefaultStateId::DefendBlock)
    );
    fsm.set_enabled(false);
    assert_eq!(fsm.update_target(), UpdateTarget::Disabled);
}

#[test]
fn default_state_id_names_and_parents() {
    assert_eq!(DefaultStateId::EscapeHide.as_str(), "escape_hide");
    assert_eq!(DefaultStateId::DefendCounter.to_string(), "defend_counter");
    assert!(DefaultStateId::EscapeFlee.is_sub_state_of(DefaultStateId::Escape));
    assert!(!DefaultStateId::EscapeFlee.is_sub_state_of(DefaultStateId::IdleWander));
    assert!(DefaultStateId::Idle == DefaultStateId::Idle);
    assert!(DefaultStateId::Idle != DefaultStateId::IdleWatch);
}
