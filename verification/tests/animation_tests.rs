use gears::animation::state::{AnimationStateMachine, TransitionList};
use gears::animation::mixer::{targets_equal, AnimationMask, AnimationMixer};
use gears::animation::{AnimationTarget, PlaybackState};
use gears::animation::timeline::{TimelineHistory, DEFAULT_MAX_HISTORY};
use gears::ecs::components::misc::AnimationQueue;
use gears::systems::{system, AsyncSystem, ExternalSystemCollection, SystemCollection};

#[test]
fn animation_queue_push_skips_duplicates() {
    let mut q = AnimationQueue::default();
    assert!(!q.has_queued_animations());
    q.push("walk".to_string());
    q.push("run".to_string());
    q.push("walk".to_string());
    assert_eq!(q.queue_length(), 2);
    assert!(q.has_queued_animations());
    assert!(q.auto_transition());
    assert!(!q.is_current_finished());
}

#[test]
fn animation_queue_plays_most_recent_first() {
    let mut q = AnimationQueue::new(vec!["idle".to_string(), "walk".to_string()]);
    assert_eq!(q.play_next(), Some("walk".to_string()));
    assert_eq!(q.current_animation(), Some(&"walk".to_string()));
    assert!(!q.is_current_finished());
    assert_eq!(q.queue_length(), 1);
    assert_eq!(q.play_next(), Some("idle".to_string()));
    assert_eq!(q.play_next(), None);
    assert_eq!(q.current_animation(), Some(&"idle".to_string()));
    q.stop_current();
    assert_eq!(q.current_animation(), None);
    assert!(q.is_current_finished());
}

#[test]
fn animation_queue_clear_and_flags() {
    let mut q = AnimationQueue::new(vec!["a".to_string(), "b".to_string()]);
    q.set_auto_transition(false);
    assert!(!q.auto_transition());
    q.play_animation("jump".to_string());
    q.set_current_finished(true);
    assert!(q.is_current_finished());
    q.clear_queue();
    assert_eq!(q.queue_length(), 0);
    assert_eq!(q.pop(), None);
    assert_eq!(q.current_animation(), Some(&"jump".to_string()));
}

#[test]
fn history_undo_then_redo() {
    let mut h: TimelineHistory<u32> = TimelineHistory::new();
    assert!(!h.can_undo());
    assert!(!h.can_redo());
    assert_eq!(h.undo(), None);
    assert_eq!(h.redo(), None);
    h.record_operation(1);
    h.record_operation(2);
    assert_eq!(h.undo(), Some(2));
    assert!(h.can_redo());
    assert_eq!(h.redo(), Some(2));
    assert!(!h.can_redo());
    assert_eq!(h.undo(), Some(2));
    assert_eq!(h.undo(), Some(1));
    assert!(!h.can_undo());
}

#[test]
fn history_record_clears_redo() {
    let mut h: TimelineHistory<u32> = TimelineHistory::default();
    h.record_operation(1);
    h.record_operation(2);
    assert_eq!(h.undo(), Some(2));
    h.record_operation(3);
    assert!(!h.can_redo());
    assert_eq!(h.undo(), Some(3));
    assert_eq!(h.undo(), Some(1));
}

#[test]
fn history_drops_oldest_past_limit() {
    let mut h: TimelineHistory<u32> = TimelineHistory::new().with_max_size(2);
    h.record_operation(1);
    h.record_operation(2);
    h.record_operation(3);
    assert_eq!(h.undo(), Some(3));
    assert_eq!(h.undo(), Some(2));
    assert_eq!(h.undo(), None);
    h.clear();
    assert!(!h.can_undo());
    assert!(!h.can_redo());
    assert_eq!(DEFAULT_MAX_HISTORY, 100);
}

#[test]
fn transitions_in_priority_order() {
    let mut l: TransitionList<&str> = TransitionList::new();
    l.add(0, "a");
    l.add(5, "b");
    l.add(0, "c");
    l.add(5, "d");
    l.add(-1, "e");
    assert_eq!(l.len(), 5);
    let order: Vec<&str> = (0..l.len()).map(|i| *l.get(i).unwrap()).collect();
    assert_eq!(order, vec!["b", "d", "a", "c", "e"]);
    assert_eq!(l.priority(0), Some(5));
    assert_eq!(l.priority(4), Some(-1));
    assert_eq!(l.priority(5), None);
    assert!(l.get(5).is_none());
}

fn double(x: u32) -> u32 {
    x * 2
}

fn inc(x: u32) -> u32 {
    x + 1
}

#[test]
fn system_collection_keeps_order() {
    let mut c: ExternalSystemCollection<fn(u32) -> u32> = ExternalSystemCollection::default();
    c.add_system(AsyncSystem::new("double", double as fn(u32) -> u32));
    c.add_system(AsyncSystem::new("inc", inc as fn(u32) -> u32));
    let names: Vec<&str> = c.systems().iter().map(|s| s.name()).collect();
    assert_eq!(names, vec!["double", "inc"]);
    assert_eq!((c.systems()[1].func())(4), 5);
    let s = system("tick", |x: u32| x + 10);
    assert_eq!(s.name(), "tick");
    assert_eq!((s.func().func())(1), 11);
}

#[test]
fn state_machine_entry_state_becomes_current() {
    let mut m: AnimationStateMachine<u32> = AnimationStateMachine::new();
    assert_eq!(m.playback_state(), PlaybackState::Stopped);
    m.add_state("walk".to_string(), false, 1);
    assert_eq!(m.current_state(), None);
    m.add_state("idle".to_string(), true, 2);
    assert_eq!(m.current_state(), Some(&"idle".to_string()));
    assert_eq!(m.playback_state(), PlaybackState::Playing);
    m.add_state("run".to_string(), true, 3);
    assert_eq!(m.current_state(), Some(&"idle".to_string()));
    assert_eq!(m.current_state_value(), Some(&2));
    assert_eq!(m.get_state_names(), vec!["walk".to_string(), "idle".to_string(), "run".to_string()]);
}

#[test]
fn state_machine_replaces_state_of_same_name() {
    let mut m: AnimationStateMachine<u32> = AnimationStateMachine::default();
    m.add_state("walk".to_string(), false, 1);
    m.add_state("walk".to_string(), false, 5);
    assert_eq!(m.get_state("walk"), Some(&5));
    assert_eq!(m.get_state_names().len(), 1);
    assert!(m.has_state("walk"));
    assert!(!m.has_state("fly"));
    assert_eq!(m.get_state("fly"), None);
}

#[test]
fn state_machine_keeps_current_state() {
    let mut m: AnimationStateMachine<u32> = AnimationStateMachine::new();
    m.add_state("idle".to_string(), true, 1);
    m.add_state("walk".to_string(), false, 2);
    assert_eq!(m.remove_state("idle"), None);
    assert_eq!(m.remove_state("fly"), None);
    assert_eq!(m.remove_state("walk"), Some(2));
    assert_eq!(m.get_state_names(), vec!["idle".to_string()]);
}

#[test]
fn state_machine_transitions() {
    let mut m: AnimationStateMachine<u32> = AnimationStateMachine::new();
    m.add_state("idle".to_string(), true, 1);
    m.add_state("walk".to_string(), false, 2);
    assert_eq!(m.transition_to("fly", true), Err("State 'fly' not found".to_string()));
    assert_eq!(m.transition_to("walk", false), Ok(()));
    assert_eq!(m.current_state(), Some(&"idle".to_string()));
    assert_eq!(m.transition_target(), Some(&"walk".to_string()));
    m.finish_transition();
    assert_eq!(m.current_state(), Some(&"walk".to_string()));
    assert_eq!(m.transition_target(), None);
    assert_eq!(m.transition_to("idle", true), Ok(()));
    assert_eq!(m.current_state(), Some(&"idle".to_string()));
    assert_eq!(m.playback_state(), PlaybackState::Playing);
}

#[test]
fn state_machine_reset_and_events() {
    let mut m: AnimationStateMachine<u32> = AnimationStateMachine::new();
    assert!(!m.reset());
    assert_eq!(m.current_state(), None);
    m.add_state("a".to_string(), false, 1);
    m.add_state("b".to_string(), true, 2);
    m.add_state("c".to_string(), true, 3);
    assert_eq!(m.transition_to("a", true), Ok(()));
    m.trigger_event("hit".to_string());
    assert_eq!(m.triggered_events(), &vec!["hit".to_string()]);
    assert!(m.reset());
    assert_eq!(m.current_state(), Some(&"b".to_string()));
    assert!(m.triggered_events().is_empty());
    m.trigger_event("x".to_string());
    m.clear_triggered_events();
    assert!(m.triggered_events().is_empty());
    m.set_enabled(false);
    assert!(!m.is_enabled());
}

#[test]
fn test_state_machine_creation() {
    let sm: AnimationStateMachine<String> = AnimationStateMachine::new();
    assert!(sm.current_state().is_none());
    assert_eq!(sm.playback_state(), PlaybackState::Stopped);
}

#[test]
fn test_state_transitions() {
    let mut sm: AnimationStateMachine<String> = AnimationStateMachine::new();
    sm.add_state("idle".to_string(), true, "idle_anim".to_string());
    sm.add_state("run".to_string(), false, "run_anim".to_string());
    assert_eq!(sm.current_state(), Some(&"idle".to_string()));
    sm.transition_to("run", true).unwrap();
    assert_eq!(sm.current_state(), Some(&"run".to_string()));
    assert_eq!(sm.current_state_value(), Some(&"run_anim".to_string()));
}

#[test]
fn test_mixer_creation() {
    let mixer: AnimationMixer<&str> = AnimationMixer::new();
    assert_eq!(mixer.layer_count(), 0);
    assert!(mixer.is_enabled());
}

#[test]
fn test_layer_management() {
    let mut mixer: AnimationMixer<&str> = AnimationMixer::new();
    mixer.add_layer(0, "layer");
    assert_eq!(mixer.layer_count(), 1);
    assert!(mixer.get_layer(0).is_some());
    mixer.remove_layer(0);
    assert_eq!(mixer.layer_count(), 0);
}

#[test]
fn test_animation_mask() {
    let mut mask = AnimationMask::new();
    let target = AnimationTarget::Translation;
    assert!(mask.affects_target(&target));
    mask.excluded_targets.push(target.clone());
    assert!(!mask.affects_target(&target));
    let mask2 = AnimationMask::include_only(vec![AnimationTarget::Rotation]);
    assert!(!mask2.affects_target(&target));
    assert!(mask2.affects_target(&AnimationTarget::Rotation));
}

#[test]
fn layers_in_index_order() {
    let mut mixer: AnimationMixer<&str> = AnimationMixer::default();
    mixer.add_layer(2, "a");
    mixer.add_layer(0, "b");
    mixer.add_layer(2, "c");
    mixer.add_layer(1, "d");
    assert_eq!(mixer.get_layer_indices(), vec![0, 1, 2, 2]);
    assert_eq!(mixer.get_layer(2), Some(&"a"));
    assert_eq!(mixer.remove_layer(2), Some("a"));
    assert_eq!(mixer.get_layer(2), Some(&"c"));
    assert_eq!(mixer.remove_layer(7), None);
    assert_eq!(mixer.get_layer_indices(), vec![0, 1, 2]);
    mixer.set_enabled(false);
    assert!(!mixer.is_enabled());
}

#[test]
fn mask_with_custom_targets() {
    let walk = AnimationTarget::Custom("walk".to_string());
    let run = AnimationTarget::Custom("run".to_string());
    assert!(targets_equal(&walk, &AnimationTarget::Custom("walk".to_string())));
    assert!(!targets_equal(&walk, &run));
    assert!(!targets_equal(&walk, &AnimationTarget::Scale));
    let mask = AnimationMask::exclude(vec![run.clone()]);
    assert!(mask.affects_target(&walk));
    assert!(!mask.affects_target(&run));
    let mask = AnimationMask::default();
    assert!(mask.affects_target(&run));
}

#[test]
fn animation_queue_starts_when_idle() {
    let mut q = AnimationQueue::new(vec!["idle".to_string(), "walk".to_string()]);
    assert_eq!(q.start_if_idle(), Some("walk".to_string()));
    assert_eq!(q.current_animation(), Some(&"walk".to_string()));
    assert_eq!(q.start_if_idle(), None);
    assert_eq!(q.queue_length(), 1);
    let mut empty = AnimationQueue::default();
    assert_eq!(empty.start_if_idle(), None);
    assert_eq!(empty.current_animation(), None);
}

#[test]
fn animation_queue_finish_advances_or_stops() {
    let mut q = AnimationQueue::new(vec!["idle".to_string()]);
    q.play_animation("jump".to_string());
    assert_eq!(q.finish_current(), Some("idle".to_string()));
    assert_eq!(q.current_animation(), Some(&"idle".to_string()));
    assert!(!q.is_current_finished());
    assert_eq!(q.finish_current(), None);
    assert_eq!(q.current_animation(), None);
    assert!(q.is_current_finished());
    let mut manual = AnimationQueue::new(vec!["a".to_string()]);
    manual.set_auto_transition(false);
    manual.play_animation("b".to_string());
    assert_eq!(manual.finish_current(), None);
    assert_eq!(manual.current_animation(), None);
    assert_eq!(manual.queue_length(), 1);
}
