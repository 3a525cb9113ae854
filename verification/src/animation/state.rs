//! The transitions out of an animation state, kept in priority order.

use vstd::prelude::*;

use crate::animation::PlaybackState;
use crate::ecs::components::misc::names_of;
use vstd::string::StringExecFns;

verus! {

/// Whether `priorities` never increases from one item to the next.
pub open spec fn priority_ordered(priorities: Seq<i32>) -> bool {
    forall|i: int, j: int| 0 <= i < j < priorities.len() ==> priorities[i] >= priorities[j]
}

/// Whether `pos` is where an item of priority `p` goes among `priorities`:
/// before the first item of lower priority, or at the end if there is none.
pub open spec fn is_insert_position(priorities: Seq<i32>, p: i32, pos: int) -> bool {
    &&& 0 <= pos <= priorities.len()
    &&& forall|j: int| 0 <= j < pos ==> priorities[j] >= p
    &&& pos < priorities.len() ==> priorities[pos] < p
}

/// In a list in priority order, an item of priority `p` inserted at its
/// position goes after every item of the same or higher priority and before
/// every item of lower priority, and the list stays in priority order.
pub proof fn lemma_insert_keeps_priority_order(priorities: Seq<i32>, p: i32, pos: int)
    requires
        priority_ordered(priorities),
        is_insert_position(priorities, p, pos),
    ensures
        forall|j: int| 0 <= j < pos ==> priorities[j] >= p,
        forall|j: int| pos <= j < priorities.len() ==> priorities[j] < p,
        priority_ordered(priorities.insert(pos, p)),
{
    let after = priorities.insert(pos, p);
    assert forall|j: int| pos <= j < priorities.len() implies priorities[j] < p by {
        assert(priorities[pos] >= priorities[j]);
    }
    assert forall|i: int, j: int| 0 <= i < j < after.len() implies after[i] >= after[j] by {
        if j < pos {
        } else if j == pos {
        } else if i < pos {
            assert(after[j] == priorities[j - 1]);
        } else if i == pos {
            assert(after[j] == priorities[j - 1]);
        } else {
            assert(after[i] == priorities[i - 1]);
            assert(after[j] == priorities[j - 1]);
        }
    }
}

/// The priorities of a list of prioritized entries, in list order.
pub open spec fn priorities_of<T>(entries: Seq<(i32, T)>) -> Seq<i32> {
    entries.map_values(|e: (i32, T)| e.0)
}

/// The items of a list of prioritized entries, in list order.
pub open spec fn items_of<T>(entries: Seq<(i32, T)>) -> Seq<T> {
    entries.map_values(|e: (i32, T)| e.1)
}

/// The position at which an entry of priority `priority` is inserted among
/// `entries`: before the first one of lower priority.
fn insert_position<T>(entries: &Vec<(i32, T)>, priority: i32) -> (r: usize)
    ensures
        is_insert_position(priorities_of(entries@), priority, r as int),
{
    let mut i: usize = 0;
    while i < entries.len()
        invariant
            i <= entries@.len(),
            forall|j: int| 0 <= j < i ==> entries@[j].0 >= priority,
        decreases entries@.len() - i,
    {
        if entries[i].0 < priority {
            return i;
        }
        i = i + 1;
    }
    i
}

/// The transitions out of an animation state, each with its priority,
/// higher priorities first and, among equal priorities, in the order they
/// were added.
#[derive(Debug)]
pub struct TransitionList<T> {
    entries: Vec<(i32, T)>,
}

impl<T> TransitionList<T> {
    #[verifier::type_invariant]
    spec fn inv(self) -> bool {
        priority_ordered(priorities_of(self.entries@))
    }

    /// The priorities of the transitions, in list order.
    pub closed spec fn priorities_spec(&self) -> Seq<i32> {
        priorities_of(self.entries@)
    }

    /// The transitions, in list order.
    pub closed spec fn transitions_spec(&self) -> Seq<T> {
        items_of(self.entries@)
    }

    /// An empty list.
    pub fn new() -> (l: Self)
        ensures
            l.priorities_spec() == Seq::<i32>::empty(),
            l.transitions_spec() == Seq::<T>::empty(),
    {
        let l = TransitionList { entries: Vec::new() };
        proof {
            assert(l.priorities_spec() =~= Seq::<i32>::empty());
            assert(l.transitions_spec() =~= Seq::<T>::empty());
        }
        l
    }

    /// Add a transition of the given priority: it goes before the first
    /// transition of lower priority.
    pub fn add(&mut self, priority: i32, transition: T)
        ensures
            exists|pos: int|
                is_insert_position(old(self).priorities_spec(), priority, pos)
                    && final(self).priorities_spec() == old(self).priorities_spec().insert(pos, priority)
                    && final(self).transitions_spec() == old(self).transitions_spec().insert(pos, transition),
            priority_ordered(final(self).priorities_spec()),
            final(self).transitions_spec().len() == old(self).transitions_spec().len() + 1,
    {
        proof {
            use_type_invariant(&*self);
        }
        let pos = insert_position(&self.entries, priority);
        let ghost before = priorities_of(self.entries@);
        let mut entries = Vec::new();
        std::mem::swap(&mut entries, &mut self.entries);
        proof {
            assert(priorities_of(self.entries@) =~= Seq::<i32>::empty());
        }
        entries.insert(pos, (priority, transition));
        proof {
            let after = priorities_of(entries@);
            assert(after =~= before.insert(pos as int, priority));
            assert(items_of(entries@) =~= old(self).transitions_spec().insert(pos as int, transition));
            lemma_insert_keeps_priority_order(before, priority, pos as int);
        }
        self.entries = entries;
        proof {
            let p = pos as int;
            assert(is_insert_position(old(self).priorities_spec(), priority, p));
            assert(self.priorities_spec() == old(self).priorities_spec().insert(p, priority));
            assert(self.transitions_spec() == old(self).transitions_spec().insert(p, transition));
        }
    }

    /// The number of transitions.
    pub fn len(&self) -> (r: usize)
        ensures
            r == self.transitions_spec().len(),
    {
        self.entries.len()
    }

    /// The transition at position `index`, in priority order.
    pub fn get(&self, index: usize) -> (r: Option<&T>)
        ensures
            index < self.transitions_spec().len() ==> r == Some(&self.transitions_spec()[index as int]),
            index >= self.transitions_spec().len() ==> r is None,
    {
        if index < self.entries.len() {
            Some(&self.entries[index].1)
        } else {
            None
        }
    }

    /// The priority of the transition at position `index`.
    pub fn priority(&self, index: usize) -> (r: Option<i32>)
        ensures
            index < self.priorities_spec().len() ==> r == Some(self.priorities_spec()[index as int]),
            index >= self.priorities_spec().len() ==> r is None,
    {
        if index < self.entries.len() {
            Some(self.entries[index].0)
        } else {
            None
        }
    }
}

/// The message of the error for a transition to an unknown state.
pub open spec fn not_found_message(name: Seq<char>) -> Seq<char> {
    "State '"@ + name + "' not found"@
}

/// The error message for a transition to the unknown state `name`.
fn state_not_found(name: &str) -> (r: String)
    ensures
        r@ == not_found_message(name@),
{
    String::from_str("State '").concat(name).concat("' not found")
}

/// The position of `n` in `names`, when it occurs.
pub open spec fn position_of(names: Seq<Seq<char>>, n: Seq<char>) -> int {
    choose|i: int| 0 <= i < names.len() && names[i] == n
}

/// Whether `i` is the first position whose flag is set.
pub open spec fn is_first_entry(entries: Seq<bool>, i: int) -> bool {
    &&& 0 <= i < entries.len()
    &&& entries[i]
    &&& forall|j: int| 0 <= j < i ==> !entries[j]
}

/// The view of an optional string.
pub open spec fn opt_name(o: Option<String>) -> Option<Seq<char>> {
    match o {
        Some(s) => Some(s@),
        None => None,
    }
}

/// `m` is in the state called `name`, playing, with no transition under way.
pub open spec fn switched_to<T>(m: AnimationStateMachine<T>, name: Seq<char>) -> bool {
    &&& m.current_spec() == Some(name)
    &&& m.playback_spec() == PlaybackState::Playing
    &&& m.pending_spec() is None
}

/// `m1` is `m0` with a transition to the state called `name` under way.
pub open spec fn started_transition<T>(
    m0: AnimationStateMachine<T>,
    m1: AnimationStateMachine<T>,
    name: Seq<char>,
) -> bool {
    &&& m1.current_spec() == m0.current_spec()
    &&& m1.playback_spec() == m0.playback_spec()
    &&& m1.pending_spec() == Some((m0.current_spec(), name))
}

/// `m1` is `m0` with its transition (if any) ended: the target is active and
/// playing, and nothing is under way.
pub open spec fn finished_transition<T>(m0: AnimationStateMachine<T>, m1: AnimationStateMachine<T>) -> bool {
    &&& m0.pending_spec() matches Some((_, to)) ==> switched_to(m1, to)
    &&& m0.pending_spec() is None ==> m1.current_spec() == m0.current_spec()
        && m1.playback_spec() == m0.playback_spec() && m1.pending_spec() is None
}

/// A transition that is started and then finished ends where an immediate
/// transition to the same state ends: in that state, playing, with nothing
/// under way.
pub proof fn lemma_finished_transition_arrives<T>(
    m0: AnimationStateMachine<T>,
    m1: AnimationStateMachine<T>,
    m2: AnimationStateMachine<T>,
    name: Seq<char>,
)
    requires
        started_transition(m0, m1, name),
        finished_transition(m1, m2),
    ensures
        switched_to(m2, name),
{
}

/// The bookkeeping of an animation state machine: named states of type `T`,
/// each an entry state or not, the active state and its playback state, the
/// transition under way (from which state, to which), the events triggered
/// since the last update, and whether the machine runs. The timing of
/// animations and transitions is kept by the owner.
#[derive(Debug)]
pub struct AnimationStateMachine<T> {
    table: StateTable<T>,
    current: Option<String>,
    playback: PlaybackState,
    pending: Option<(Option<String>, String)>,
    triggered_events: Vec<String>,
    enabled: bool,
}

/// The states of a machine, with their names and entry flags, position by
/// position.
#[derive(Debug)]
struct StateTable<T> {
    names: Vec<String>,
    entries: Vec<bool>,
    states: Vec<T>,
}

impl<T> StateTable<T> {
    /// A table without states.
    fn empty() -> (t: Self)
        ensures
            t.names@ == Seq::<String>::empty(),
            t.entries@ == Seq::<bool>::empty(),
            t.states@ == Seq::<T>::empty(),
    {
        StateTable { names: Vec::new(), entries: Vec::new(), states: Vec::new() }
    }
}

impl<T> AnimationStateMachine<T> {
    #[verifier::type_invariant]
    spec fn inv(self) -> bool {
        &&& self.table.names@.len() == self.table.entries@.len()
        &&& self.table.names@.len() == self.table.states@.len()
        &&& names_of(self.table.names@).no_duplicates()
    }

    /// The names of the states, in the order they were first added.
    pub closed spec fn names_spec(&self) -> Seq<Seq<char>> {
        names_of(self.table.names@)
    }

    /// Whether each state is an entry state, in the same order.
    pub closed spec fn entries_spec(&self) -> Seq<bool> {
        self.table.entries@
    }

    /// The states, in the same order.
    pub closed spec fn states_spec(&self) -> Seq<T> {
        self.table.states@
    }

    /// The name of the active state.
    pub closed spec fn current_spec(&self) -> Option<Seq<char>> {
        opt_name(self.current)
    }

    /// The playback state of the active state.
    pub closed spec fn playback_spec(&self) -> PlaybackState {
        self.playback
    }

    /// The transition under way: the state it leaves and the state it goes to.
    pub closed spec fn pending_spec(&self) -> Option<(Option<Seq<char>>, Seq<char>)> {
        match self.pending {
            Some((from, to)) => Some((opt_name(from), to@)),
            None => None,
        }
    }

    /// The events triggered since they were last cleared.
    pub closed spec fn events_spec(&self) -> Seq<Seq<char>> {
        names_of(self.triggered_events@)
    }

    /// Whether the machine runs.
    pub closed spec fn enabled_spec(&self) -> bool {
        self.enabled
    }

    /// A machine without states, stopped, running, with nothing triggered.
    pub fn new() -> (m: Self)
        ensures
            m.names_spec() == Seq::<Seq<char>>::empty(),
            m.entries_spec() == Seq::<bool>::empty(),
            m.states_spec() == Seq::<T>::empty(),
            m.current_spec() is None,
            m.playback_spec() == PlaybackState::Stopped,
            m.pending_spec() is None,
            m.events_spec() == Seq::<Seq<char>>::empty(),
            m.enabled_spec(),
    {
        let m = AnimationStateMachine {
            table: StateTable::empty(),
            current: None,
            playback: PlaybackState::Stopped,
            pending: None,
            triggered_events: Vec::new(),
            enabled: true,
        };
        proof {
            assert(m.names_spec() =~= Seq::<Seq<char>>::empty());
            assert(m.events_spec() =~= Seq::<Seq<char>>::empty());
        }
        m
    }

    /// The position of the state called `name`, if there is one.
    fn find(&self, name: &String) -> (r: Option<usize>)
        ensures
            r matches Some(i) ==> i < self.names_spec().len() && self.names_spec()[i as int] == name@
                && i == position_of(self.names_spec(), name@),
            r is None ==> !self.names_spec().contains(name@),
    {
        proof {
            use_type_invariant(self);
        }
        let mut i: usize = 0;
        while i < self.table.names.len()
            invariant
                i <= self.table.names@.len(),
                forall|j: int| 0 <= j < i ==> self.table.names@[j]@ != name@,
                names_of(self.table.names@).no_duplicates(),
            decreases self.table.names@.len() - i,
        {
            if self.table.names[i] == *name {
                proof {
                    let ns = self.names_spec();
                    assert(ns[i as int] == name@);
                    let p = position_of(ns, name@);
                    assert(0 <= p < ns.len() && ns[p] == name@);
                    assert(ns.no_duplicates());
                    assert(p == i) by {
                        if p != i {
                            assert(ns[p] == ns[i as int]);
                            assert(ns[p] != ns[i as int]);
                        }
                    }
                }
                return Some(i);
            }
            i = i + 1;
        }
        proof {
            assert forall|j: int| 0 <= j < self.names_spec().len() implies self.names_spec()[j] != name@ by {
                assert(self.names_spec()[j] == self.table.names@[j]@);
            }
        }
        None
    }

    /// Add a state, or replace the state of the same name (which keeps its
    /// place). An entry state becomes the active one, playing, when no state
    /// is active.
    pub fn add_state(&mut self, name: String, is_entry: bool, state: T)
        ensures
            old(self).names_spec().contains(name@) ==> ({
                let i = position_of(old(self).names_spec(), name@);
                &&& final(self).names_spec() == old(self).names_spec()
                &&& final(self).entries_spec() == old(self).entries_spec().update(i, is_entry)
                &&& final(self).states_spec() == old(self).states_spec().update(i, state)
            }),
            !old(self).names_spec().contains(name@) ==> ({
                &&& final(self).names_spec() == old(self).names_spec().push(name@)
                &&& final(self).entries_spec() == old(self).entries_spec().push(is_entry)
                &&& final(self).states_spec() == old(self).states_spec().push(state)
            }),
            final(self).current_spec() == (if is_entry && old(self).current_spec() is None {
                Some(name@)
            } else {
                old(self).current_spec()
            }),
            final(self).playback_spec() == (if is_entry && old(self).current_spec() is None {
                PlaybackState::Playing
            } else {
                old(self).playback_spec()
            }),
            final(self).pending_spec() == old(self).pending_spec(),
            final(self).events_spec() == old(self).events_spec(),
            final(self).enabled_spec() == old(self).enabled_spec(),
    {
        proof {
            use_type_invariant(&*self);
        }
        let found = self.find(&name);
        let make_current = is_entry && self.current.is_none();
        let current_name = if make_current {
            Some(name.clone())
        } else {
            None
        };
        let mut table = StateTable::empty();
        std::mem::swap(&mut table, &mut self.table);
        proof {
            assert(names_of(self.table.names@) =~= Seq::<Seq<char>>::empty());
        }
        match found {
            Some(i) => {
                table.entries.set(i, is_entry);
                table.states.set(i, state);
            },
            None => {
                let ghost before = names_of(table.names@);
                table.names.push(name);
                table.entries.push(is_entry);
                table.states.push(state);
                proof {
                    let after = names_of(table.names@);
                    assert(after =~= before.push(table.names@.last()@));
                    assert forall|x: int, y: int|
                        0 <= x < after.len() && 0 <= y < after.len() && x != y implies after[x]
                            != after[y] by {
                        if x == before.len() {
                            assert(after[y] == before[y]);
                        } else if y == before.len() {
                            assert(after[x] == before[x]);
                        } else {
                            assert(after[x] == before[x]);
                            assert(after[y] == before[y]);
                        }
                    }
                }
            },
        }
        self.table = table;
        if make_current {
            self.current = current_name;
            self.playback = PlaybackState::Playing;
        }
    }

    /// Remove the state called `name` and return it; the active state is
    /// never removed.
    pub fn remove_state(&mut self, name: &str) -> (r: Option<T>)
        ensures
            old(self).current_spec() == Some(name@) || !old(self).names_spec().contains(name@)
                ==> r is None && *final(self) == *old(self),
            old(self).current_spec() != Some(name@) && old(self).names_spec().contains(name@) ==> ({
                let i = position_of(old(self).names_spec(), name@);
                &&& r == Some(old(self).states_spec()[i])
                &&& final(self).names_spec() == old(self).names_spec().remove(i)
                &&& final(self).entries_spec() == old(self).entries_spec().remove(i)
                &&& final(self).states_spec() == old(self).states_spec().remove(i)
                &&& final(self).current_spec() == old(self).current_spec()
                &&& final(self).playback_spec() == old(self).playback_spec()
                &&& final(self).pending_spec() == old(self).pending_spec()
                &&& final(self).events_spec() == old(self).events_spec()
                &&& final(self).enabled_spec() == old(self).enabled_spec()
            }),
    {
        proof {
            use_type_invariant(&*self);
        }
        let key = name.to_owned();
        let is_current = match &self.current {
            Some(c) => *c == key,
            None => false,
        };
        if is_current {
            return None;
        }
        match self.find(&key) {
            Some(i) => {
                let mut table = StateTable::empty();
                std::mem::swap(&mut table, &mut self.table);
                proof {
                    assert(names_of(self.table.names@) =~= Seq::<Seq<char>>::empty());
                }
                let ghost before = names_of(table.names@);
                table.names.remove(i);
                table.entries.remove(i);
                let removed = table.states.remove(i);
                proof {
                    let after = names_of(table.names@);
                    assert(after =~= before.remove(i as int));
                    assert forall|x: int, y: int|
                        0 <= x < after.len() && 0 <= y < after.len() && x != y implies after[x]
                            != after[y] by {
                        let bx = if x < i { x } else { x + 1 };
                        let by_ = if y < i { y } else { y + 1 };
                        assert(after[x] == before[bx]);
                        assert(after[y] == before[by_]);
                    }
                }
                self.table = table;
                Some(removed)
            },
            None => None,
        }
    }

    /// The state called `name`, if there is one.
    pub fn get_state(&self, name: &str) -> (r: Option<&T>)
        ensures
            self.names_spec().contains(name@) ==> r == Some(
                &self.states_spec()[position_of(self.names_spec(), name@)],
            ),
            !self.names_spec().contains(name@) ==> r is None,
    {
        proof {
            use_type_invariant(self);
        }
        let key = name.to_owned();
        match self.find(&key) {
            Some(i) => Some(&self.table.states[i]),
            None => None,
        }
    }

    /// Whether there is a state called `name`.
    pub fn has_state(&self, name: &str) -> (r: bool)
        ensures
            r == self.names_spec().contains(name@),
    {
        let key = name.to_owned();
        self.find(&key).is_some()
    }

    /// Go to the state called `name`: at once, or through a transition that
    /// is under way until `finish_transition`. An unknown state is an error
    /// and changes nothing.
    pub fn transition_to(&mut self, name: &str, immediate: bool) -> (r: Result<(), String>)
        ensures
            !old(self).names_spec().contains(name@) ==> (r matches Err(e) && e@ == not_found_message(
                name@,
            ) && *final(self) == *old(self)),
            old(self).names_spec().contains(name@) ==> r is Ok,
            old(self).names_spec().contains(name@) && immediate ==> switched_to(*final(self), name@),
            old(self).names_spec().contains(name@) && !immediate ==> started_transition(
                *old(self),
                *final(self),
                name@,
            ),
            final(self).names_spec() == old(self).names_spec(),
            final(self).entries_spec() == old(self).entries_spec(),
            final(self).states_spec() == old(self).states_spec(),
            final(self).events_spec() == old(self).events_spec(),
            final(self).enabled_spec() == old(self).enabled_spec(),
    {
        proof {
            use_type_invariant(&*self);
        }
        let key = name.to_owned();
        if self.find(&key).is_none() {
            return Err(state_not_found(name));
        }
        if immediate {
            self.current = Some(key);
            self.playback = PlaybackState::Playing;
            self.pending = None;
        } else {
            let from = self.current.clone();
            self.pending = Some((from, key));
        }
        Ok(())
    }

    /// End the transition under way: its target becomes the active state,
    /// playing. Nothing is under way afterwards.
    pub fn finish_transition(&mut self)
        ensures
            finished_transition(*old(self), *final(self)),
            final(self).names_spec() == old(self).names_spec(),
            final(self).entries_spec() == old(self).entries_spec(),
            final(self).states_spec() == old(self).states_spec(),
            final(self).events_spec() == old(self).events_spec(),
            final(self).enabled_spec() == old(self).enabled_spec(),
    {
        proof {
            use_type_invariant(&*self);
        }
        let mut pending = None;
        std::mem::swap(&mut pending, &mut self.pending);
        if let Some((_, to)) = pending {
            self.current = Some(to);
            self.playback = PlaybackState::Playing;
        }
    }

    /// Start over in the first entry state, playing, with no transition under
    /// way and no triggered events, and return `true`. Without an entry state
    /// nothing changes and the result is `false`.
    pub fn reset(&mut self) -> (found: bool)
        ensures
            found == (exists|i: int| is_first_entry(old(self).entries_spec(), i)),
            (exists|i: int| is_first_entry(old(self).entries_spec(), i)) ==> ({
                let i = choose|i: int| is_first_entry(old(self).entries_spec(), i);
                &&& final(self).current_spec() == Some(old(self).names_spec()[i])
                &&& final(self).playback_spec() == PlaybackState::Playing
                &&& final(self).pending_spec() is None
                &&& final(self).events_spec() == Seq::<Seq<char>>::empty()
                &&& final(self).names_spec() == old(self).names_spec()
                &&& final(self).entries_spec() == old(self).entries_spec()
                &&& final(self).states_spec() == old(self).states_spec()
                &&& final(self).enabled_spec() == old(self).enabled_spec()
            }),
            !(exists|i: int| is_first_entry(old(self).entries_spec(), i)) ==> *final(self) == *old(self),
    {
        proof {
            use_type_invariant(&*self);
        }
        match self.first_entry() {
            Some(i) => {
                let name = self.table.names[i].clone();
                self.current = Some(name);
                self.playback = PlaybackState::Playing;
                self.pending = None;
                self.triggered_events = Vec::new();
                proof {
                    assert(self.events_spec() =~= Seq::<Seq<char>>::empty());
                }
                true
            },
            None => false,
        }
    }

    /// The position of the first entry state, if there is one.
    fn first_entry(&self) -> (r: Option<usize>)
        ensures
            r matches Some(i) ==> is_first_entry(self.entries_spec(), i as int) && i
                < self.names_spec().len() && i == choose|k: int| is_first_entry(self.entries_spec(), k),
            r is None ==> !(exists|k: int| is_first_entry(self.entries_spec(), k)),
    {
        proof {
            use_type_invariant(self);
        }
        let mut i: usize = 0;
        while i < self.table.entries.len()
            invariant
                i <= self.table.entries@.len(),
                self.table.entries@.len() == self.table.names@.len(),
                forall|j: int| 0 <= j < i ==> !self.table.entries@[j],
            decreases self.table.entries@.len() - i,
        {
            if self.table.entries[i] {
                proof {
                    let es = self.entries_spec();
                    assert(is_first_entry(es, i as int));
                    let k = choose|k: int| is_first_entry(es, k);
                    assert(k == i) by {
                        if k < i {
                            assert(!es[k]);
                        } else if k > i {
                            assert(!es[i as int]);
                        }
                    }
                }
                return Some(i);
            }
            i = i + 1;
        }
        None
    }

    /// The names of all states, in the order they were first added.
    pub fn get_state_names(&self) -> (r: Vec<String>)
        ensures
            names_of(r@) == self.names_spec(),
    {
        let mut r: Vec<String> = Vec::new();
        let mut i: usize = 0;
        while i < self.table.names.len()
            invariant
                i <= self.table.names@.len(),
                r@ == self.table.names@.take(i as int),
            decreases self.table.names@.len() - i,
        {
            r.push(self.table.names[i].clone());
            proof {
                assert(self.table.names@.take(i + 1) =~= self.table.names@.take(i as int).push(
                    self.table.names@[i as int],
                ));
            }
            i = i + 1;
        }
        proof {
            assert(self.table.names@.take(self.table.names@.len() as int) =~= self.table.names@);
        }
        r
    }

    /// The name of the active state.
    pub fn current_state(&self) -> (r: Option<&String>)
        ensures
            match r {
                Some(s) => self.current_spec() == Some(s@),
                None => self.current_spec() is None,
            },
    {
        match &self.current {
            Some(s) => Some(s),
            None => None,
        }
    }

    /// The active state, when it is one of the states.
    pub fn current_state_value(&self) -> (r: Option<&T>)
        ensures
            match self.current_spec() {
                Some(n) => if self.names_spec().contains(n) {
                    r == Some(&self.states_spec()[position_of(self.names_spec(), n)])
                } else {
                    r is None
                },
                None => r is None,
            },
    {
        proof {
            use_type_invariant(self);
        }
        match &self.current {
            Some(n) => match self.find(n) {
                Some(i) => Some(&self.table.states[i]),
                None => None,
            },
            None => None,
        }
    }

    /// The playback state of the active state.
    pub fn playback_state(&self) -> (r: PlaybackState)
        ensures
            r == self.playback_spec(),
    {
        self.playback
    }

    /// The state the transition under way goes to.
    pub fn transition_target(&self) -> (r: Option<&String>)
        ensures
            match self.pending_spec() {
                Some((_, to)) => r matches Some(s) && s@ == to,
                None => r is None,
            },
    {
        match &self.pending {
            Some((_, to)) => Some(to),
            None => None,
        }
    }

    /// Record that an event was triggered.
    pub fn trigger_event(&mut self, event_name: String)
        ensures
            final(self).events_spec() == old(self).events_spec().push(event_name@),
            final(self).names_spec() == old(self).names_spec(),
            final(self).entries_spec() == old(self).entries_spec(),
            final(self).states_spec() == old(self).states_spec(),
            final(self).current_spec() == old(self).current_spec(),
            final(self).playback_spec() == old(self).playback_spec(),
            final(self).pending_spec() == old(self).pending_spec(),
            final(self).enabled_spec() == old(self).enabled_spec(),
    {
        proof {
            use_type_invariant(&*self);
        }
        let mut events = Vec::new();
        std::mem::swap(&mut events, &mut self.triggered_events);
        events.push(event_name);
        self.triggered_events = events;
        proof {
            assert(self.events_spec() =~= old(self).events_spec().push(event_name@));
        }
    }

    /// The events triggered since they were last cleared.
    pub fn triggered_events(&self) -> (r: &Vec<String>)
        ensures
            names_of(r@) == self.events_spec(),
    {
        &self.triggered_events
    }

    /// Forget the triggered events.
    pub fn clear_triggered_events(&mut self)
        ensures
            final(self).events_spec() == Seq::<Seq<char>>::empty(),
            final(self).names_spec() == old(self).names_spec(),
            final(self).entries_spec() == old(self).entries_spec(),
            final(self).states_spec() == old(self).states_spec(),
            final(self).current_spec() == old(self).current_spec(),
            final(self).playback_spec() == old(self).playback_spec(),
            final(self).pending_spec() == old(self).pending_spec(),
            final(self).enabled_spec() == old(self).enabled_spec(),
    {
        proof {
            use_type_invariant(&*self);
        }
        self.triggered_events = Vec::new();
        proof {
            assert(self.events_spec() =~= Seq::<Seq<char>>::empty());
        }
    }

    /// Let the machine run or stop it.
    pub fn set_enabled(&mut self, enabled: bool)
        ensures
            final(self).enabled_spec() == enabled,
            final(self).names_spec() == old(self).names_spec(),
            final(self).entries_spec() == old(self).entries_spec(),
            final(self).states_spec() == old(self).states_spec(),
            final(self).current_spec() == old(self).current_spec(),
            final(self).playback_spec() == old(self).playback_spec(),
            final(self).pending_spec() == old(self).pending_spec(),
            final(self).events_spec() == old(self).events_spec(),
    {
        proof {
            use_type_invariant(&*self);
        }
        self.enabled = enabled;
    }

    /// Whether the machine runs.
    pub fn is_enabled(&self) -> (r: bool)
        ensures
            r == self.enabled_spec(),
    {
        self.enabled
    }
}

impl<T> Default for AnimationStateMachine<T> {
    /// A machine without states, stopped, running, with nothing triggered.
    fn default() -> (m: Self)
        ensures
            m.names_spec() == Seq::<Seq<char>>::empty(),
            m.current_spec() is None,
            m.playback_spec() == PlaybackState::Stopped,
            m.pending_spec() is None,
            m.events_spec() == Seq::<Seq<char>>::empty(),
            m.enabled_spec(),
    {
        Self::new()
    }
}

} // verus!
