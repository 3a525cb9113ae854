//! Hierarchical finite state machine.
//!
//! The machine keeps the bookkeeping of a state hierarchy: which main states
//! and sub-states are registered, which sub-state a main state starts in, the
//! active main state and sub-state, the stack of active states and the
//! previously active main state. Every operation that changes the active
//! states returns the hooks to run on the state objects, in order: the
//! owner of those objects runs `on_exit` / `on_enter` as the hooks say.

use vstd::prelude::*;
use vstd::laws_eq::obeys_concrete_eq;

verus! {

/// Trait that state identifiers must implement.
pub trait StateIdentifier: Copy + PartialEq + Eq + core::hash::Hash + core::fmt::Debug {
    /// Convert to string for logging and debugging purposes.
    fn as_str(&self) -> &'static str;
}

/// Default state identifier enum: four main states, each with its sub-states.
#[derive(Debug, Clone, Copy, Eq, Hash)]
pub enum DefaultStateId {
    // Main states
    Idle,
    Attack,
    Defend,
    Escape,
    // Sub-states for Idle
    IdleWander,
    IdleWatch,
    // Sub-states for Attack
    AttackApproach,
    AttackStrike,
    AttackRetreat,
    // Sub-states for Defend
    DefendBlock,
    DefendCounter,
    // Sub-states for Escape
    EscapeFlee,
    EscapeHide,
}


impl PartialEq for DefaultStateId {
    fn eq(&self, other: &Self) -> (r: bool) {
        match (self, other) {
            (DefaultStateId::Idle, DefaultStateId::Idle) => true,
            (DefaultStateId::Attack, DefaultStateId::Attack) => true,
            (DefaultStateId::Defend, DefaultStateId::Defend) => true,
            (DefaultStateId::Escape, DefaultStateId::Escape) => true,
            (DefaultStateId::IdleWander, DefaultStateId::IdleWander) => true,
            (DefaultStateId::IdleWatch, DefaultStateId::IdleWatch) => true,
            (DefaultStateId::AttackApproach, DefaultStateId::AttackApproach) => true,
            (DefaultStateId::AttackStrike, DefaultStateId::AttackStrike) => true,
            (DefaultStateId::AttackRetreat, DefaultStateId::AttackRetreat) => true,
            (DefaultStateId::DefendBlock, DefaultStateId::DefendBlock) => true,
            (DefaultStateId::DefendCounter, DefaultStateId::DefendCounter) => true,
            (DefaultStateId::EscapeFlee, DefaultStateId::EscapeFlee) => true,
            (DefaultStateId::EscapeHide, DefaultStateId::EscapeHide) => true,
            _ => false,
        }
    }
}

impl vstd::std_specs::cmp::PartialEqSpecImpl for DefaultStateId {
    open spec fn obeys_eq_spec() -> bool {
        true
    }

    open spec fn eq_spec(&self, other: &DefaultStateId) -> bool {
        *self == *other
    }
}

/// `==` on [`DefaultStateId`] is equality of the variants.
pub proof fn lemma_default_state_id_concrete_eq()
    ensures
        obeys_concrete_eq::<DefaultStateId>(),
{
    reveal(obeys_concrete_eq);
}

/// The name of a state identifier, as `as_str` returns it.
pub open spec fn default_state_name(s: DefaultStateId) -> Seq<char> {
    match s {
        DefaultStateId::Idle => "idle"@,
        DefaultStateId::Attack => "attack"@,
        DefaultStateId::Defend => "defend"@,
        DefaultStateId::Escape => "escape"@,
        DefaultStateId::IdleWander => "idle_wander"@,
        DefaultStateId::IdleWatch => "idle_watch"@,
        DefaultStateId::AttackApproach => "attack_approach"@,
        DefaultStateId::AttackStrike => "attack_strike"@,
        DefaultStateId::AttackRetreat => "attack_retreat"@,
        DefaultStateId::DefendBlock => "defend_block"@,
        DefaultStateId::DefendCounter => "defend_counter"@,
        DefaultStateId::EscapeFlee => "escape_flee"@,
        DefaultStateId::EscapeHide => "escape_hide"@,
    }
}

/// The main states: those that are not sub-states.
pub open spec fn is_main_state_spec(s: DefaultStateId) -> bool {
    s == DefaultStateId::Idle || s == DefaultStateId::Attack || s == DefaultStateId::Defend || s
        == DefaultStateId::Escape
}

/// The sub-states of each main state; no state is a sub-state of a sub-state.
pub open spec fn is_sub_state_of_spec(s: DefaultStateId, parent: DefaultStateId) -> bool {
    match parent {
        DefaultStateId::Idle => s == DefaultStateId::IdleWander || s == DefaultStateId::IdleWatch,
        DefaultStateId::Attack => s == DefaultStateId::AttackApproach || s
            == DefaultStateId::AttackStrike || s == DefaultStateId::AttackRetreat,
        DefaultStateId::Defend => s == DefaultStateId::DefendBlock || s
            == DefaultStateId::DefendCounter,
        DefaultStateId::Escape => s == DefaultStateId::EscapeFlee || s == DefaultStateId::EscapeHide,
        _ => false,
    }
}

impl StateIdentifier for DefaultStateId {
    /// Convert to string for logging and debugging purposes.
    fn as_str(&self) -> (r: &'static str)
        ensures
            r@ == default_state_name(*self),
    {
        match self {
            DefaultStateId::Idle => "idle",
            DefaultStateId::Attack => "attack",
            DefaultStateId::Defend => "defend",
            DefaultStateId::Escape => "escape",
            DefaultStateId::IdleWander => "idle_wander",
            DefaultStateId::IdleWatch => "idle_watch",
            DefaultStateId::AttackApproach => "attack_approach",
            DefaultStateId::AttackStrike => "attack_strike",
            DefaultStateId::AttackRetreat => "attack_retreat",
            DefaultStateId::DefendBlock => "defend_block",
            DefaultStateId::DefendCounter => "defend_counter",
            DefaultStateId::EscapeFlee => "escape_flee",
            DefaultStateId::EscapeHide => "escape_hide",
        }
    }
}

impl DefaultStateId {
    /// Check if this state is a main state (not a sub-state).
    pub fn is_main_state(&self) -> (r: bool)
        ensures
            r == is_main_state_spec(*self),
    {
        match self {
            DefaultStateId::Idle | DefaultStateId::Attack | DefaultStateId::Defend
            | DefaultStateId::Escape => true,
            _ => false,
        }
    }

    /// Check if this state is a sub-state of the given parent.
    pub fn is_sub_state_of(&self, parent: DefaultStateId) -> (r: bool)
        ensures
            r == is_sub_state_of_spec(*self, parent),
    {
        match parent {
            DefaultStateId::Idle => match self {
                DefaultStateId::IdleWander | DefaultStateId::IdleWatch => true,
                _ => false,
            },
            DefaultStateId::Attack => match self {
                DefaultStateId::AttackApproach | DefaultStateId::AttackStrike
                | DefaultStateId::AttackRetreat => true,
                _ => false,
            },
            DefaultStateId::Defend => match self {
                DefaultStateId::DefendBlock | DefaultStateId::DefendCounter => true,
                _ => false,
            },
            DefaultStateId::Escape => match self {
                DefaultStateId::EscapeFlee | DefaultStateId::EscapeHide => true,
                _ => false,
            },
            _ => false,
        }
    }

    /// The state identifier as text: its name, as `as_str` gives it.
    pub fn to_string(&self) -> (r: String)
        ensures
            r@ == default_state_name(*self),
    {
        self.as_str().to_owned()
    }
}


/// A hook the owner of the state objects has to run, in the order given.
#[derive(Debug, Clone, Copy, PartialEq, Eq)]
pub enum FsmHook<S> {
    /// Run `on_enter` of the main state.
    Enter(S),
    /// Run `on_exit` of the main state.
    Exit(S),
    /// Run `on_enter` of the sub-state (parent, sub).
    EnterSub(S, S),
    /// Run `on_exit` of the sub-state (parent, sub).
    ExitSub(S, S),
}

/// Which state object an update of the machine has to run.
#[derive(Debug, Clone, Copy, PartialEq, Eq)]
pub enum UpdateTarget<S> {
    /// The machine is disabled: nothing runs, not even the clock.
    Disabled,
    /// No main state is active: only the clock advances.
    NoState,
    /// Update the sub-state (parent, sub) first: when its check asks for
    /// another sub-state, transition to it and stop; otherwise go on with the
    /// main state.
    SubState(S, S),
    /// Update the main state; when its check asks for another state,
    /// transition to it.
    MainState(S),
}

/// The bookkeeping of a hierarchical finite state machine over state
/// identifiers `S`.
pub struct FiniteStateMachine<S: StateIdentifier = DefaultStateId> {
    states: Vec<S>,
    sub_states: Vec<(S, S)>,
    initial_sub_states: Vec<(S, S)>,
    current_state: Option<S>,
    current_sub_state: Option<S>,
    enabled: bool,
    state_stack: Vec<S>,
    previous_state: Option<S>,
}

/// The stack of a machine after entering main state `s`, given its initial sub-states.
pub open spec fn entered_stack<S>(s: S, initial: Map<S, S>) -> Seq<S> {
    if initial.dom().contains(s) {
        seq![s, initial[s]]
    } else {
        seq![s]
    }
}

/// The hooks that enter main state `s` and then its initial sub-state.
pub open spec fn enter_hooks<S>(s: S, initial: Map<S, S>) -> Seq<FsmHook<S>> {
    if initial.dom().contains(s) {
        seq![FsmHook::Enter(s), FsmHook::EnterSub(s, initial[s])]
    } else {
        seq![FsmHook::Enter(s)]
    }
}

/// The initial sub-state of `s`, if it has one.
pub open spec fn initial_of<S>(s: S, initial: Map<S, S>) -> Option<S> {
    if initial.dom().contains(s) {
        Some(initial[s])
    } else {
        None
    }
}

impl<S: StateIdentifier> FiniteStateMachine<S> {
    /// Internal consistency of the machine.
    pub closed spec fn wf(&self) -> bool {
        &&& obeys_concrete_eq::<S>()
        &&& forall|i: int, j: int|
            0 <= i < j < self.initial_sub_states@.len() ==> self.initial_sub_states@[i].0
                != self.initial_sub_states@[j].0
        &&& forall|i: int|
            0 <= i < self.initial_sub_states@.len() ==> self.sub_states@.contains(
                #[trigger] self.initial_sub_states@[i],
            )
        &&& self.current_state matches Some(c) ==> self.states@.contains(c)
        &&& self.state_stack@.len() <= 2
        &&& (self.current_state is Some <==> self.state_stack@.len() > 0)
        &&& self.state_stack@.len() == 2 ==> self.current_sub_state == Some(self.state_stack@[1])
    }

    /// The registered main states.
    pub closed spec fn states_spec(&self) -> Set<S> {
        self.states@.to_set()
    }

    /// The registered sub-states, as (parent, sub) pairs.
    pub closed spec fn sub_states_spec(&self) -> Set<(S, S)> {
        self.sub_states@.to_set()
    }

    /// The initial sub-state of each main state that has one.
    pub closed spec fn initial_spec(&self) -> Map<S, S> {
        Map::new(
            |p: S| exists|i: int| 0 <= i < self.initial_sub_states@.len() && self.initial_sub_states@[i].0 == p,
            |p: S| self.initial_sub_states@[choose|i: int| 0 <= i < self.initial_sub_states@.len() && self.initial_sub_states@[i].0 == p].1,
        )
    }

    /// The active main state.
    pub closed spec fn current_spec(&self) -> Option<S> {
        self.current_state
    }

    /// The active sub-state.
    pub closed spec fn current_sub_spec(&self) -> Option<S> {
        self.current_sub_state
    }

    /// Whether the machine runs its updates.
    pub closed spec fn enabled_spec(&self) -> bool {
        self.enabled
    }

    /// The stack of active states: the main state, then the sub-state.
    pub closed spec fn stack_spec(&self) -> Seq<S> {
        self.state_stack@
    }

    /// The previously active main state.
    pub closed spec fn previous_spec(&self) -> Option<S> {
        self.previous_state
    }

    /// The shape every machine keeps: at most two active states; a stack
    /// exactly when a main state is active; a second entry only for the
    /// active sub-state.
    pub open spec fn well_shaped(&self) -> bool {
        &&& self.stack_spec().len() <= 2
        &&& (self.current_spec() is Some <==> self.stack_spec().len() > 0)
        &&& self.stack_spec().len() == 2 ==> self.current_sub_spec() == Some(self.stack_spec()[1])
        &&& self.current_spec() matches Some(c) ==> self.states_spec().contains(c)
    }

    /// `new` is `old` with the same registrations and flag.
    pub open spec fn same_setup(old: Self, new: Self) -> bool {
        &&& new.states_spec() == old.states_spec()
        &&& new.sub_states_spec() == old.sub_states_spec()
        &&& new.initial_spec() == old.initial_spec()
        &&& new.enabled_spec() == old.enabled_spec()
    }

    /// `new` has the same active states, stack and previous state as `old`.
    pub open spec fn same_activity(old: Self, new: Self) -> bool {
        &&& new.current_spec() == old.current_spec()
        &&& new.current_sub_spec() == old.current_sub_spec()
        &&& new.stack_spec() == old.stack_spec()
        &&& new.previous_spec() == old.previous_spec()
    }


    /// The effect of `set_initial_state(target)` on the machine, and its hooks.
    pub open spec fn initial_state_spec(old: Self, new: Self, target: S, hooks: Seq<FsmHook<S>>) -> bool {
        &&& Self::same_setup(old, new)
        &&& if !old.states_spec().contains(target) {
            Self::same_activity(old, new) && hooks == Seq::<FsmHook<S>>::empty()
        } else {
            &&& new.current_spec() == Some(target)
            &&& new.current_sub_spec() == (if old.initial_spec().dom().contains(target) {
                Some(old.initial_spec()[target])
            } else {
                old.current_sub_spec()
            })
            &&& new.stack_spec() == entered_stack(target, old.initial_spec())
            &&& new.previous_spec() == old.previous_spec()
            &&& hooks == enter_hooks(target, old.initial_spec())
        }
    }

    /// The state object an update runs first.
    pub open spec fn update_target_spec(m: Self) -> UpdateTarget<S> {
        if !m.enabled_spec() {
            UpdateTarget::Disabled
        } else {
            match m.current_spec() {
                None => UpdateTarget::NoState,
                Some(c) => match m.current_sub_spec() {
                    Some(s) => if m.sub_states_spec().contains((c, s)) {
                        UpdateTarget::SubState(c, s)
                    } else {
                        UpdateTarget::MainState(c)
                    },
                    None => UpdateTarget::MainState(c),
                },
            }
        }
    }

    /// The effect of `transition_to(target)` on the machine, and its hooks.
    pub open spec fn transition_spec(old: Self, new: Self, target: S, hooks: Seq<FsmHook<S>>) -> bool {
        &&& Self::same_setup(old, new)
        &&& if !old.states_spec().contains(target) {
            Self::same_activity(old, new) && hooks == Seq::<FsmHook<S>>::empty()
        } else {
            &&& new.current_spec() == Some(target)
            &&& new.current_sub_spec() == initial_of(target, old.initial_spec())
            &&& new.stack_spec() == entered_stack(target, old.initial_spec())
            &&& new.previous_spec() == (if old.current_spec() is Some {
                old.current_spec()
            } else {
                old.previous_spec()
            })
            &&& hooks == Self::exit_hooks(old) + enter_hooks(target, old.initial_spec())
        }
    }

    /// The hooks that leave the active states of `m`: its sub-state first
    /// (when it is registered under the main state), then its main state.
    pub open spec fn exit_hooks(m: Self) -> Seq<FsmHook<S>> {
        let sub_exit = match (m.current_spec(), m.current_sub_spec()) {
            (Some(c), Some(s)) => if m.sub_states_spec().contains((c, s)) {
                seq![FsmHook::ExitSub(c, s)]
            } else {
                Seq::empty()
            },
            _ => Seq::empty(),
        };
        let main_exit = match m.current_spec() {
            Some(c) => seq![FsmHook::Exit(c)],
            None => Seq::empty(),
        };
        sub_exit + main_exit
    }

    /// The effect of `transition_to_sub_state(target)` on the machine, and its hooks.
    pub open spec fn sub_transition_spec(old: Self, new: Self, target: S, hooks: Seq<FsmHook<S>>) -> bool {
        &&& Self::same_setup(old, new)
        &&& match old.current_spec() {
            None => Self::same_activity(old, new) && hooks == Seq::<FsmHook<S>>::empty(),
            Some(c) => if !old.sub_states_spec().contains((c, target)) {
                Self::same_activity(old, new) && hooks == Seq::<FsmHook<S>>::empty()
            } else {
                let leaves = old.current_sub_spec() is Some;
                let cs = old.current_sub_spec()->0;
                let popped = leaves && old.stack_spec().len() > 0 && old.stack_spec().last() == cs;
                &&& new.current_spec() == old.current_spec()
                &&& new.current_sub_spec() == Some(target)
                &&& new.previous_spec() == old.previous_spec()
                &&& new.stack_spec() == (if popped {
                    old.stack_spec().drop_last()
                } else {
                    old.stack_spec()
                }).push(target)
                &&& hooks == (if leaves && old.sub_states_spec().contains((c, cs)) {
                    seq![FsmHook::ExitSub(c, cs)]
                } else {
                    Seq::empty()
                }).push(FsmHook::EnterSub(c, target))
            },
        }
    }
}


impl<S: StateIdentifier> FiniteStateMachine<S> {
    spec fn init_unique(&self) -> bool {
        forall|i: int, j: int|
            0 <= i < j < self.initial_sub_states@.len() ==> self.initial_sub_states@[i].0
                != self.initial_sub_states@[j].0
    }

    proof fn lemma_initial_entry(&self, i: int)
        requires
            self.init_unique(),
            0 <= i < self.initial_sub_states@.len(),
        ensures
            self.initial_spec().dom().contains(self.initial_sub_states@[i].0),
            self.initial_spec()[self.initial_sub_states@[i].0] == self.initial_sub_states@[i].1,
    {
        let p = self.initial_sub_states@[i].0;
        assert(self.initial_spec().dom().contains(p));
        let j = choose|j: int| 0 <= j < self.initial_sub_states@.len() && self.initial_sub_states@[j].0 == p;
        if j != i {
            if i < j {
                assert(self.initial_sub_states@[i].0 != self.initial_sub_states@[j].0);
            } else {
                assert(self.initial_sub_states@[j].0 != self.initial_sub_states@[i].0);
            }
        }
    }

    /// The initial sub-state of `p`, if it has one.
    fn initial_sub_of(&self, p: S) -> (r: Option<S>)
        requires
            self.wf(),
        ensures
            r == initial_of(p, self.initial_spec()),
    {
        proof {
            reveal(obeys_concrete_eq);
        }
        let mut i: usize = 0;
        while i < self.initial_sub_states.len()
            invariant
                obeys_concrete_eq::<S>(),
                self.init_unique(),
                i <= self.initial_sub_states@.len(),
                forall|j: int| 0 <= j < i ==> self.initial_sub_states@[j].0 != p,
            decreases self.initial_sub_states@.len() - i,
        {
            proof {
                reveal(obeys_concrete_eq);
            }
            if self.initial_sub_states[i].0 == p {
                proof {
                    self.lemma_initial_entry(i as int);
                }
                return Some(self.initial_sub_states[i].1);
            }
            i = i + 1;
        }
        None
    }

    /// Create a new machine: nothing registered, nothing active, enabled.
    pub fn new() -> (m: Self)
        requires
            obeys_concrete_eq::<S>(),
        ensures
            m.wf(),
            m.well_shaped(),
            m.states_spec() == Set::<S>::empty(),
            m.sub_states_spec() == Set::<(S, S)>::empty(),
            m.initial_spec() == Map::<S, S>::empty(),
            m.current_spec() is None,
            m.current_sub_spec() is None,
            m.stack_spec() == Seq::<S>::empty(),
            m.previous_spec() is None,
            m.enabled_spec(),
    {
        let m = FiniteStateMachine {
            states: Vec::new(),
            sub_states: Vec::new(),
            initial_sub_states: Vec::new(),
            current_state: None,
            current_sub_state: None,
            enabled: true,
            state_stack: Vec::new(),
            previous_state: None,
        };
        proof {
            assert(m.states_spec() =~= Set::<S>::empty());
            assert(m.sub_states_spec() =~= Set::<(S, S)>::empty());
            assert(m.initial_spec() =~= Map::<S, S>::empty());
        }
        m
    }

    /// Set the initial sub-state of a parent state. Only a sub-state
    /// registered under that parent is accepted; otherwise nothing changes.
    pub fn set_initial_sub_state(&mut self, parent_id: S, sub_id: S)
        requires
            old(self).wf(),
        ensures
            final(self).wf(),
            final(self).well_shaped(),
            final(self).states_spec() == old(self).states_spec(),
            final(self).sub_states_spec() == old(self).sub_states_spec(),
            final(self).initial_spec() == (if old(self).sub_states_spec().contains((parent_id, sub_id)) {
                old(self).initial_spec().insert(parent_id, sub_id)
            } else {
                old(self).initial_spec()
            }),
            final(self).enabled_spec() == old(self).enabled_spec(),
            Self::same_activity(*old(self), *final(self)),
    {
        proof {
            reveal(obeys_concrete_eq);
        }
        if !contains_pair(&self.sub_states, parent_id, sub_id) {
            return;
        }
        let ghost old_self = *self;
        let mut i: usize = 0;
        while i < self.initial_sub_states.len()
            invariant
                obeys_concrete_eq::<S>(),
                *self == old_self,
                old_self == *old(self),
                old_self.wf(),
                old_self.sub_states@.contains((parent_id, sub_id)),
                i <= self.initial_sub_states@.len(),
                forall|j: int| 0 <= j < i ==> self.initial_sub_states@[j].0 != parent_id,
            decreases self.initial_sub_states@.len() - i,
        {
            proof {
                reveal(obeys_concrete_eq);
            }
            if self.initial_sub_states[i].0 == parent_id {
                self.initial_sub_states.set(i, (parent_id, sub_id));
                proof {
                    let new_init = self.initial_sub_states@;
                    assert(new_init == old_self.initial_sub_states@.update(i as int, (parent_id, sub_id)));
                    assert(self.init_unique()) by {
                        assert forall|a: int, b: int| 0 <= a < b < new_init.len() implies new_init[a].0
                            != new_init[b].0 by {
                            assert(old_self.initial_sub_states@[a].0 != old_self.initial_sub_states@[b].0);
                        }
                    }
                    assert forall|a: int| 0 <= a < new_init.len() implies self.sub_states@.contains(
                        #[trigger] new_init[a],
                    ) by {
                        if a != i {
                            assert(new_init[a] == old_self.initial_sub_states@[a]);
                        }
                    }
                    self.lemma_initial_entry(i as int);
                    old_self.lemma_initial_entry(i as int);
                    assert forall|p: S| #[trigger] self.initial_spec().dom().contains(p) <==> old_self.initial_spec().insert(parent_id, sub_id).dom().contains(p) by {
                        if self.initial_spec().dom().contains(p) {
                            let j = choose|j: int| 0 <= j < new_init.len() && new_init[j].0 == p;
                            if j != i {
                                assert(old_self.initial_sub_states@[j].0 == p);
                            }
                        }
                        if old_self.initial_spec().dom().contains(p) {
                            let j = choose|j: int| 0 <= j < old_self.initial_sub_states@.len() && old_self.initial_sub_states@[j].0 == p;
                            assert(new_init[j].0 == p);
                        }
                    }
                    assert forall|p: S| self.initial_spec().dom().contains(p) implies self.initial_spec()[p] == old_self.initial_spec().insert(parent_id, sub_id)[p] by {
                        let j = choose|j: int| 0 <= j < new_init.len() && new_init[j].0 == p;
                        self.lemma_initial_entry(j);
                        if j != i {
                            old_self.lemma_initial_entry(j);
                        }
                    }
                    assert(self.initial_spec() =~= old_self.initial_spec().insert(parent_id, sub_id));
                }
                return;
            }
            i = i + 1;
        }
        self.initial_sub_states.push((parent_id, sub_id));
        proof {
            let new_init = self.initial_sub_states@;
            let n = old_self.initial_sub_states@.len() as int;
            assert(self.init_unique()) by {
                assert forall|a: int, b: int| 0 <= a < b < new_init.len() implies new_init[a].0
                    != new_init[b].0 by {
                    if b < n {
                        assert(old_self.initial_sub_states@[a].0 != old_self.initial_sub_states@[b].0);
                    } else {
                        assert(new_init[a] == old_self.initial_sub_states@[a]);
                    }
                }
            }
            assert forall|a: int| 0 <= a < new_init.len() implies self.sub_states@.contains(
                #[trigger] new_init[a],
            ) by {
                if a < n {
                    assert(new_init[a] == old_self.initial_sub_states@[a]);
                }
            }
            self.lemma_initial_entry(n);
            assert forall|p: S| #[trigger] self.initial_spec().dom().contains(p) <==> old_self.initial_spec().insert(parent_id, sub_id).dom().contains(p) by {
                if self.initial_spec().dom().contains(p) {
                    let j = choose|j: int| 0 <= j < new_init.len() && new_init[j].0 == p;
                    if j != n {
                        assert(old_self.initial_sub_states@[j].0 == p);
                    }
                }
                if old_self.initial_spec().dom().contains(p) {
                    let j = choose|j: int| 0 <= j < old_self.initial_sub_states@.len() && old_self.initial_sub_states@[j].0 == p;
                    assert(new_init[j].0 == p);
                }
            }
            assert forall|p: S| self.initial_spec().dom().contains(p) implies self.initial_spec()[p] == old_self.initial_spec().insert(parent_id, sub_id)[p] by {
                let j = choose|j: int| 0 <= j < new_init.len() && new_init[j].0 == p;
                self.lemma_initial_entry(j);
                if j != n {
                    assert(new_init[j] == old_self.initial_sub_states@[j]);
                    old_self.lemma_initial_entry(j);
                }
            }
            assert(self.initial_spec() =~= old_self.initial_spec().insert(parent_id, sub_id));
        }
    }

    /// Set the initial state and enter it, then its initial sub-state when it
    /// has one. A state that is not registered is ignored. The previous state
    /// is left as it is, and without an initial sub-state the active
    /// sub-state is left as it is too.
    pub fn set_initial_state(&mut self, state_id: S) -> (hooks: Vec<FsmHook<S>>)
        requires
            old(self).wf(),
        ensures
            final(self).wf(),
            final(self).well_shaped(),
            Self::initial_state_spec(*old(self), *final(self), state_id, hooks@),
    {
        if !contains_state(&self.states, state_id) {
            return Vec::new();
        }
        let mut hooks: Vec<FsmHook<S>> = Vec::new();
        let mut stack: Vec<S> = Vec::new();
        stack.push(state_id);
        hooks.push(FsmHook::Enter(state_id));
        match self.initial_sub_of(state_id) {
            Some(initial_sub) => {
                self.current_sub_state = Some(initial_sub);
                stack.push(initial_sub);
                hooks.push(FsmHook::EnterSub(state_id, initial_sub));
            },
            None => {},
        }
        self.current_state = Some(state_id);
        self.state_stack = stack;
        proof {
            assert(self.initial_spec() =~= old(self).initial_spec());
            assert(hooks@ =~= enter_hooks(state_id, old(self).initial_spec()));
            assert(self.state_stack@ =~= entered_stack(state_id, old(self).initial_spec()));
        }
        hooks
    }

    /// Force a transition to a specific main state: leave the active
    /// sub-state and main state, remember the main state as the previous one,
    /// then enter the new state and its initial sub-state. A state that is not
    /// registered is ignored.
    pub fn transition_to(&mut self, new_state_id: S) -> (hooks: Vec<FsmHook<S>>)
        requires
            old(self).wf(),
        ensures
            final(self).wf(),
            final(self).well_shaped(),
            Self::transition_spec(*old(self), *final(self), new_state_id, hooks@),
    {
        if !contains_state(&self.states, new_state_id) {
            return Vec::new();
        }
        let initial = self.initial_sub_of(new_state_id);
        let mut hooks: Vec<FsmHook<S>> = Vec::new();
        match (self.current_state, self.current_sub_state) {
            (Some(current_main), Some(current_sub)) => {
                if contains_pair(&self.sub_states, current_main, current_sub) {
                    hooks.push(FsmHook::ExitSub(current_main, current_sub));
                }
            },
            _ => {},
        }
        match self.current_state {
            Some(current_id) => {
                hooks.push(FsmHook::Exit(current_id));
                self.previous_state = Some(current_id);
            },
            None => {},
        }
        proof {
            assert(hooks@ =~= Self::exit_hooks(*old(self)));
        }
        let ghost exits = hooks@;
        let mut stack: Vec<S> = Vec::new();
        stack.push(new_state_id);
        hooks.push(FsmHook::Enter(new_state_id));
        self.current_sub_state = None;
        match initial {
            Some(initial_sub) => {
                self.current_sub_state = Some(initial_sub);
                stack.push(initial_sub);
                hooks.push(FsmHook::EnterSub(new_state_id, initial_sub));
            },
            None => {},
        }
        self.current_state = Some(new_state_id);
        self.state_stack = stack;
        proof {
            assert(self.initial_spec() =~= old(self).initial_spec());
            assert(hooks@ =~= exits + enter_hooks(new_state_id, old(self).initial_spec()));
            assert(self.state_stack@ =~= entered_stack(new_state_id, old(self).initial_spec()));
        }
        hooks
    }

    /// Transition to a different sub-state within the active main state:
    /// leave the active sub-state, then enter the new one. A sub-state that is
    /// not registered under the active main state is ignored, and so is every
    /// request while no main state is active.
    pub fn transition_to_sub_state(&mut self, new_sub_state_id: S) -> (hooks: Vec<FsmHook<S>>)
        requires
            old(self).wf(),
        ensures
            final(self).wf(),
            final(self).well_shaped(),
            Self::sub_transition_spec(*old(self), *final(self), new_sub_state_id, hooks@),
    {
        proof {
            reveal(obeys_concrete_eq);
        }
        let current_main = match self.current_state {
            None => {
                return Vec::new();
            },
            Some(c) => c,
        };
        if !contains_pair(&self.sub_states, current_main, new_sub_state_id) {
            return Vec::new();
        }
        let mut hooks: Vec<FsmHook<S>> = Vec::new();
        match self.current_sub_state {
            Some(current_sub) => {
                if contains_pair(&self.sub_states, current_main, current_sub) {
                    hooks.push(FsmHook::ExitSub(current_main, current_sub));
                }
                let n = self.state_stack.len();
                if n > 0 && self.state_stack[n - 1] == current_sub {
                    self.state_stack.pop();
                }
            },
            None => {},
        }
        self.current_sub_state = Some(new_sub_state_id);
        self.state_stack.push(new_sub_state_id);
        hooks.push(FsmHook::EnterSub(current_main, new_sub_state_id));
        proof {
            assert(self.initial_spec() =~= old(self).initial_spec());
            let cs = old(self).current_sub_spec()->0;
            let leaves = old(self).current_sub_spec() is Some;
            assert(hooks@ =~= (if leaves && old(self).sub_states_spec().contains((current_main, cs)) {
                seq![FsmHook::ExitSub(current_main, cs)]
            } else {
                Seq::empty()
            }).push(FsmHook::EnterSub(current_main, new_sub_state_id)));
            if leaves && old(self).stack_spec().len() > 0 && old(self).stack_spec().last() == cs {
                assert(self.state_stack@ =~= old(self).stack_spec().drop_last().push(new_sub_state_id));
            }
        }
        hooks
    }

    /// Which state object the next update runs first.
    pub fn update_target(&self) -> (r: UpdateTarget<S>)
        requires
            self.wf(),
        ensures
            r == Self::update_target_spec(*self),
    {
        if !self.enabled {
            return UpdateTarget::Disabled;
        }
        match self.current_state {
            None => UpdateTarget::NoState,
            Some(current_main) => match self.current_sub_state {
                Some(current_sub) => {
                    if contains_pair(&self.sub_states, current_main, current_sub) {
                        UpdateTarget::SubState(current_main, current_sub)
                    } else {
                        UpdateTarget::MainState(current_main)
                    }
                },
                None => UpdateTarget::MainState(current_main),
            },
        }
    }

    /// Enable or disable the machine.
    pub fn set_enabled(&mut self, enabled: bool)
        requires
            old(self).wf(),
        ensures
            final(self).wf(),
            final(self).enabled_spec() == enabled,
            final(self).states_spec() == old(self).states_spec(),
            final(self).sub_states_spec() == old(self).sub_states_spec(),
            final(self).initial_spec() == old(self).initial_spec(),
            Self::same_activity(*old(self), *final(self)),
    {
        self.enabled = enabled;
        proof {
            assert(self.initial_spec() =~= old(self).initial_spec());
        }
    }

    /// Check if the machine is enabled.
    pub fn is_enabled(&self) -> (r: bool)
        ensures
            r == self.enabled_spec(),
    {
        self.enabled
    }

    /// The active main state.
    pub fn current_state(&self) -> (r: Option<S>)
        ensures
            r == self.current_spec(),
    {
        self.current_state
    }

    /// The active sub-state.
    pub fn current_sub_state(&self) -> (r: Option<S>)
        ensures
            r == self.current_sub_spec(),
    {
        self.current_sub_state
    }

    /// The previously active main state.
    pub fn previous_state(&self) -> (r: Option<S>)
        ensures
            r == self.previous_spec(),
    {
        self.previous_state
    }

    /// The stack of active states (main state, then sub-state).
    pub fn state_stack(&self) -> (r: &[S])
        ensures
            r@ == self.stack_spec(),
    {
        self.state_stack.as_slice()
    }

    /// Whether a main state is registered.
    pub fn has_state(&self, id: S) -> (r: bool)
        requires
            self.wf(),
        ensures
            r == self.states_spec().contains(id),
    {
        contains_state(&self.states, id)
    }

    /// Whether a sub-state is registered under a parent state.
    pub fn has_sub_state(&self, parent_id: S, sub_id: S) -> (r: bool)
        requires
            self.wf(),
        ensures
            r == self.sub_states_spec().contains((parent_id, sub_id)),
    {
        contains_pair(&self.sub_states, parent_id, sub_id)
    }

    /// Register a main state.
    pub fn add_state(&mut self, id: S)
        requires
            old(self).wf(),
        ensures
            final(self).wf(),
            final(self).well_shaped(),
            final(self).states_spec() == old(self).states_spec().insert(id),
            final(self).sub_states_spec() == old(self).sub_states_spec(),
            final(self).initial_spec() == old(self).initial_spec(),
            final(self).enabled_spec() == old(self).enabled_spec(),
            Self::same_activity(*old(self), *final(self)),
    {
        if !contains_state(&self.states, id) {
            self.states.push(id);
            proof {
                lemma_push_contains(old(self).states@, id);
                assert(self.initial_spec() =~= old(self).initial_spec());
            }
        } else {
            proof {
                assert(old(self).states@.to_set().insert(id) =~= old(self).states@.to_set());
            }
        }
    }

    /// Register a sub-state under a parent state.
    pub fn add_sub_state(&mut self, parent_id: S, sub_id: S)
        requires
            old(self).wf(),
        ensures
            final(self).wf(),
            final(self).well_shaped(),
            final(self).states_spec() == old(self).states_spec(),
            final(self).sub_states_spec() == old(self).sub_states_spec().insert((parent_id, sub_id)),
            final(self).initial_spec() == old(self).initial_spec(),
            final(self).enabled_spec() == old(self).enabled_spec(),
            Self::same_activity(*old(self), *final(self)),
    {
        if !contains_pair(&self.sub_states, parent_id, sub_id) {
            self.sub_states.push((parent_id, sub_id));
            proof {
                lemma_push_contains(old(self).sub_states@, (parent_id, sub_id));
                assert(self.initial_spec() =~= old(self).initial_spec());
            }
        } else {
            proof {
                assert(old(self).sub_states@.to_set().insert((parent_id, sub_id))
                    =~= old(self).sub_states@.to_set());
            }
        }
    }

}

/// Appending `x` adds exactly `x` to what a sequence contains.
proof fn lemma_push_contains<A>(s: Seq<A>, x: A)
    ensures
        forall|y: A| #[trigger] s.push(x).contains(y) <==> (s.contains(y) || y == x),
        s.push(x).to_set() == s.to_set().insert(x),
{
    assert forall|y: A| #[trigger] s.push(x).contains(y) <==> (s.contains(y) || y == x) by {
        if s.push(x).contains(y) {
            let j = choose|j: int| 0 <= j < s.push(x).len() && s.push(x)[j] == y;
            if j < s.len() {
                assert(s[j] == y);
            }
        }
        if s.contains(y) {
            let j = choose|j: int| 0 <= j < s.len() && s[j] == y;
            assert(s.push(x)[j] == y);
        }
        if y == x {
            assert(s.push(x)[s.len() as int] == y);
        }
    }
    assert(s.push(x).to_set() =~= s.to_set().insert(x));
}

/// Whether `v` holds `s`.
fn contains_state<S: StateIdentifier>(v: &Vec<S>, s: S) -> (r: bool)
    requires
        obeys_concrete_eq::<S>(),
    ensures
        r == v@.contains(s),
{
    proof {
        reveal(obeys_concrete_eq);
    }
    let mut i: usize = 0;
    while i < v.len()
        invariant
            obeys_concrete_eq::<S>(),
            i <= v@.len(),
            forall|j: int| 0 <= j < i ==> v@[j] != s,
        decreases v@.len() - i,
    {
        proof {
            reveal(obeys_concrete_eq);
        }
        if v[i] == s {
            proof {
                assert(v@[i as int] == s);
            }
            return true;
        }
        i = i + 1;
    }
    false
}

/// Whether `v` holds the pair (`p`, `s`).
fn contains_pair<S: StateIdentifier>(v: &Vec<(S, S)>, p: S, s: S) -> (r: bool)
    requires
        obeys_concrete_eq::<S>(),
    ensures
        r == v@.contains((p, s)),
{
    proof {
        reveal(obeys_concrete_eq);
    }
    let mut i: usize = 0;
    while i < v.len()
        invariant
            obeys_concrete_eq::<S>(),
            i <= v@.len(),
            forall|j: int| 0 <= j < i ==> v@[j] != (p, s),
        decreases v@.len() - i,
    {
        proof {
            reveal(obeys_concrete_eq);
        }
        if v[i].0 == p && v[i].1 == s {
            proof {
                assert(v@[i as int] == (p, s));
            }
            return true;
        }
        i = i + 1;
    }
    false
}

impl Default for FiniteStateMachine<DefaultStateId> {
    /// Create a new machine over the default state identifiers.
    fn default() -> (m: Self)
        ensures
            m.wf(),
            m.well_shaped(),
            m.states_spec() == Set::<DefaultStateId>::empty(),
            m.sub_states_spec() == Set::<(DefaultStateId, DefaultStateId)>::empty(),
            m.initial_spec() == Map::<DefaultStateId, DefaultStateId>::empty(),
            m.current_spec() is None,
            m.current_sub_spec() is None,
            m.stack_spec() == Seq::<DefaultStateId>::empty(),
            m.previous_spec() is None,
            m.enabled_spec(),
    {
        proof {
            lemma_default_state_id_concrete_eq();
        }
        FiniteStateMachine::new()
    }
}


/// Whether a hook leaves a state.
pub open spec fn is_exit_hook<S>(h: FsmHook<S>) -> bool {
    h is Exit || h is ExitSub
}

/// Two transitions in a row: the machine ends in the second target and
/// remembers the first one as its previous state.
pub proof fn lemma_previous_is_last_main_state<S: StateIdentifier>(
    m0: FiniteStateMachine<S>,
    m1: FiniteStateMachine<S>,
    m2: FiniteStateMachine<S>,
    a: S,
    b: S,
    h1: Seq<FsmHook<S>>,
    h2: Seq<FsmHook<S>>,
)
    requires
        m0.states_spec().contains(a),
        m0.states_spec().contains(b),
        FiniteStateMachine::<S>::transition_spec(m0, m1, a, h1),
        FiniteStateMachine::<S>::transition_spec(m1, m2, b, h2),
    ensures
        m2.current_spec() == Some(b),
        m2.previous_spec() == Some(a),
        m2.stack_spec()[0] == b,
{
}

/// A transition leaves before it enters: every exit hook comes before every
/// enter hook, and the last hook enters the new main state or its initial
/// sub-state.
pub proof fn lemma_transition_exits_before_enters<S: StateIdentifier>(
    m0: FiniteStateMachine<S>,
    m1: FiniteStateMachine<S>,
    target: S,
    hooks: Seq<FsmHook<S>>,
)
    requires
        m0.states_spec().contains(target),
        FiniteStateMachine::<S>::transition_spec(m0, m1, target, hooks),
    ensures
        forall|i: int, j: int|
            0 <= i < j < hooks.len() && !is_exit_hook(#[trigger] hooks[i]) ==> !is_exit_hook(
                #[trigger] hooks[j],
            ),
        hooks.len() > 0,
        hooks.last() == (match initial_of(target, m0.initial_spec()) {
            Some(sub) => FsmHook::EnterSub(target, sub),
            None => FsmHook::Enter(target),
        }),
{
    let exits = FiniteStateMachine::<S>::exit_hooks(m0);
    let enters = enter_hooks(target, m0.initial_spec());
    assert(forall|i: int| 0 <= i < exits.len() ==> is_exit_hook(#[trigger] exits[i]));
    assert(forall|i: int| 0 <= i < enters.len() ==> !is_exit_hook(#[trigger] enters[i]));
    assert forall|i: int, j: int|
        0 <= i < j < hooks.len() && !is_exit_hook(#[trigger] hooks[i]) implies !is_exit_hook(
            #[trigger] hooks[j],
        ) by {
        if i < exits.len() {
            assert(hooks[i] == exits[i]);
        }
        assert(hooks[j] == enters[j - exits.len()]);
    }
}

/// Moving between sub-states keeps the main state and the previous state,
/// and the stack still starts with what it started with before when the
/// machine was in a sub-state of the active main state.
pub proof fn lemma_sub_transition_keeps_main_state<S: StateIdentifier>(
    m0: FiniteStateMachine<S>,
    m1: FiniteStateMachine<S>,
    target: S,
    hooks: Seq<FsmHook<S>>,
)
    requires
        m0.well_shaped(),
        m0.stack_spec().len() == 2,
        FiniteStateMachine::<S>::sub_transition_spec(m0, m1, target, hooks),
    ensures
        m1.current_spec() == m0.current_spec(),
        m1.previous_spec() == m0.previous_spec(),
        m1.stack_spec().len() == 2,
        m1.stack_spec()[0] == m0.stack_spec()[0],
{
}

/// Moving to another sub-state of the active main state leaves the active
/// sub-state first: when a registered sub-state `cs` of the active main state
/// `c` is active, the hooks are exactly "exit `cs`, then enter the target",
/// and the target becomes the active sub-state.
pub proof fn lemma_sub_transition_exits_old_sub_first<S: StateIdentifier>(
    m0: FiniteStateMachine<S>,
    m1: FiniteStateMachine<S>,
    target: S,
    hooks: Seq<FsmHook<S>>,
    c: S,
    cs: S,
)
    requires
        m0.current_spec() == Some(c),
        m0.current_sub_spec() == Some(cs),
        m0.sub_states_spec().contains((c, cs)),
        m0.sub_states_spec().contains((c, target)),
        FiniteStateMachine::<S>::sub_transition_spec(m0, m1, target, hooks),
    ensures
        hooks.len() == 2,
        hooks[0] == FsmHook::ExitSub(c, cs),
        hooks[1] == FsmHook::EnterSub(c, target),
        m1.current_spec() == Some(c),
        m1.current_sub_spec() == Some(target),
{
}

/// Every sub-state has exactly one parent, and that parent is a main state.
pub proof fn lemma_sub_state_has_unique_main_parent(s: DefaultStateId, p: DefaultStateId, q: DefaultStateId)
    requires
        is_sub_state_of_spec(s, p),
        is_sub_state_of_spec(s, q),
    ensures
        p == q,
        is_main_state_spec(p),
        !is_main_state_spec(s),
{
}

} // verus!
