//! Marker components and other plain components.

use vstd::prelude::*;

use crate::ecs::world::Component;

verus! {

/// Components that advance with time.
pub trait Tick {
    /// Advance by `delta_time`.
    fn on_tick(&mut self, delta_time: core::time::Duration);
}

/// Marker components, which describe the components an entity with the
/// marker is expected to carry.
pub trait Marker {
    /// The components an entity with this marker is expected to carry.
    fn describe() -> &'static str;
}

/// Marks the player entity.
#[derive(Debug, Clone, Copy)]
pub struct PlayerMarker;

impl Component for PlayerMarker {

}

impl Marker for PlayerMarker {
    fn describe() -> (r: &'static str)
        ensures
            r@ == "Required components: Pos3, ModelSource, MovementController, ViewController"@,
    {
        "Required components: Pos3, ModelSource, MovementController, ViewController"
    }
}

/// Marks the camera entity.
#[derive(Debug, Clone, Copy)]
pub struct CameraMarker;

impl Component for CameraMarker {

}

impl Marker for CameraMarker {
    fn describe() -> (r: &'static str)
        ensures
            r@ == "Required components: Pos3, ViewController"@,
    {
        "Required components: Pos3, ViewController"
    }
}

/// Marks entities moved by rigid-body physics.
#[derive(Debug, Clone, Copy)]
pub struct RigidBodyMarker;

impl Component for RigidBodyMarker {

}

impl Marker for RigidBodyMarker {
    fn describe() -> (r: &'static str)
        ensures
            r@ == "Required components: Pos3, RigidBody, ModelSource"@,
    {
        "Required components: Pos3, RigidBody, ModelSource"
    }
}

/// Marks light entities.
#[derive(Debug, Clone, Copy)]
pub struct LightMarker;

impl Component for LightMarker {

}

impl Marker for LightMarker {
    fn describe() -> (r: &'static str)
        ensures
            r@ == "Required components: Pos3, Light"@,
    {
        "Required components: Pos3, Light"
    }
}

/// Marks static model entities.
#[derive(Debug, Clone, Copy)]
pub struct StaticModelMarker;

impl Component for StaticModelMarker {

}

impl Marker for StaticModelMarker {
    fn describe() -> (r: &'static str)
        ensures
            r@ == "Required components: Name, Pos3, ModelSource"@,
    {
        "Required components: Name, Pos3, ModelSource"
    }
}

/// Marks target entities.
#[derive(Debug, Clone, Copy)]
pub struct TargetMarker;

impl Component for TargetMarker {

}

impl Marker for TargetMarker {
    fn describe() -> (r: &'static str)
        ensures
            r@ == "Required components: Pos3, RigidBody, ModelSource, Name, Health"@,
    {
        "Required components: Pos3, RigidBody, ModelSource, Name, Health"
    }
}

/// Enemy marker for entities that track the player.
#[derive(Debug, Clone, Copy)]
pub struct EnemyMarker;

impl Component for EnemyMarker {

}

impl Marker for EnemyMarker {
    fn describe() -> (r: &'static str)
        ensures
            r@
                == "Required components: Pos3, ModelSource, MovementController, ViewController, PathfindingComponent, PathfindingFollower"@,
    {
        "Required components: Pos3, ModelSource, MovementController, ViewController, PathfindingComponent, PathfindingFollower"
    }
}

/// Marker for obstacles that should be avoided during pathfinding.
#[derive(Debug, Clone, Copy)]
pub struct ObstacleMarker;

impl Component for ObstacleMarker {

}

impl Marker for ObstacleMarker {
    fn describe() -> (r: &'static str)
        ensures
            r@ == "Required components: Pos3, AABBCollisionBox, RigidBody"@,
    {
        "Required components: Pos3, AABBCollisionBox, RigidBody"
    }
}

/// A component that stores the name of an object.
#[derive(Debug, Clone, Copy)]
pub struct Name(pub &'static str);

impl Component for Name {

}

impl Name {
    /// The name.
    pub fn as_str(&self) -> (r: &'static str)
        ensures
            r == self.0,
    {
        self.0
    }
}

impl core::ops::Deref for Name {
    type Target = &'static str;

    fn deref(&self) -> (r: &Self::Target)
        ensures
            *r == self.0,
    {
        &self.0
    }
}


/// The names of a list of strings.
pub open spec fn names_of(v: Seq<String>) -> Seq<Seq<char>> {
    v.map_values(|s: String| s@)
}

/// Pushing onto a queue without repeated names keeps it without repeated
/// names.
pub proof fn lemma_push_keeps_names_distinct(q: Seq<Seq<char>>, name: Seq<char>)
    requires
        q.no_duplicates(),
    ensures
        (if q.contains(name) {
            q
        } else {
            q.push(name)
        }).no_duplicates(),
{
    if !q.contains(name) {
        let r = q.push(name);
        assert forall|i: int, j: int| 0 <= i < r.len() && 0 <= j < r.len() && i != j implies r[i] != r[j] by {
            if i == q.len() {
                assert(q[j] == r[j]);
            } else if j == q.len() {
                assert(q[i] == r[i]);
            }
        }
    }
}

/// The bookkeeping of an animation queue: the queued animation names (taken
/// from the end, most recent first), the animation playing now, and flags.
/// The start time of the current animation and the transition duration are
/// kept by the owner of the queue.
#[derive(Debug, Clone)]
pub struct AnimationQueue {
    animations: Vec<String>,
    is_current_finished: bool,
    current_animation: Option<String>,
    auto_transition: bool,
}

impl Component for AnimationQueue {

}

impl AnimationQueue {
    /// The queued animation names, in queue order.
    pub closed spec fn queued(&self) -> Seq<Seq<char>> {
        names_of(self.animations@)
    }

    /// The animation playing now.
    pub closed spec fn current(&self) -> Option<String> {
        self.current_animation
    }

    /// Whether the current animation has finished.
    pub closed spec fn finished(&self) -> bool {
        self.is_current_finished
    }

    /// Whether the next animation starts by itself when one finishes.
    pub closed spec fn auto(&self) -> bool {
        self.auto_transition
    }

    /// A queue holding `animations`, nothing playing, automatic transitions on.
    pub fn new(animations: Vec<String>) -> (q: Self)
        ensures
            q.queued() == names_of(animations@),
            !q.finished(),
            q.current() is None,
            q.auto(),
    {
        AnimationQueue {
            animations,
            is_current_finished: false,
            current_animation: None,
            auto_transition: true,
        }
    }

    /// Queue an animation, unless an animation of that name is queued already.
    pub fn push(&mut self, animation: String)
        ensures
            final(self).queued() == (if old(self).queued().contains(animation@) {
                old(self).queued()
            } else {
                old(self).queued().push(animation@)
            }),
            final(self).finished() == old(self).finished(),
            final(self).current() == old(self).current(),
            final(self).auto() == old(self).auto(),
    {
        let mut i: usize = 0;
        while i < self.animations.len()
            invariant
                i <= self.animations@.len(),
                forall|j: int| 0 <= j < i ==> self.animations@[j]@ != animation@,
            decreases self.animations@.len() - i,
        {
            if self.animations[i] == animation {
                proof {
                    assert(self.queued()[i as int] == animation@);
                }
                return;
            }
            i = i + 1;
        }
        proof {
            assert forall|j: int| 0 <= j < self.queued().len() implies self.queued()[j] != animation@ by {}
        }
        self.animations.push(animation);
        proof {
            assert(self.queued() =~= old(self).queued().push(animation@));
        }
    }

    /// Take the most recently queued animation.
    pub fn pop(&mut self) -> (r: Option<String>)
        ensures
            old(self).queued().len() == 0 ==> r is None && final(self).queued() == old(self).queued(),
            old(self).queued().len() > 0 ==> (r matches Some(name) && name@ == old(self).queued().last()
                && final(self).queued() == old(self).queued().drop_last()),
            final(self).finished() == old(self).finished(),
            final(self).current() == old(self).current(),
            final(self).auto() == old(self).auto(),
    {
        let r = self.animations.pop();
        proof {
            assert(self.queued() =~= if old(self).queued().len() > 0 {
                old(self).queued().drop_last()
            } else {
                old(self).queued()
            });
        }
        r
    }

    /// Start playing an animation: it becomes the current one, not finished.
    pub fn play_animation(&mut self, animation: String)
        ensures
            final(self).current() == Some(animation),
            !final(self).finished(),
            final(self).queued() == old(self).queued(),
            final(self).auto() == old(self).auto(),
    {
        self.current_animation = Some(animation);
        self.is_current_finished = false;
    }

    /// Stop the current animation: nothing plays, and it counts as finished.
    pub fn stop_current(&mut self)
        ensures
            final(self).current() is None,
            final(self).finished(),
            final(self).queued() == old(self).queued(),
            final(self).auto() == old(self).auto(),
    {
        self.current_animation = None;
        self.is_current_finished = true;
    }

    /// Whether animations are queued.
    pub fn has_queued_animations(&self) -> (r: bool)
        ensures
            r == (self.queued().len() > 0),
    {
        !self.animations.is_empty()
    }

    /// The animation playing now.
    pub fn current_animation(&self) -> (r: Option<&String>)
        ensures
            r == match self.current() {
                Some(s) => Some(&s),
                None => None::<&String>,
            },
    {
        match &self.current_animation {
            Some(s) => Some(s),
            None => None,
        }
    }

    /// Whether the current animation has finished.
    pub fn is_current_finished(&self) -> (r: bool)
        ensures
            r == self.finished(),
    {
        self.is_current_finished
    }

    /// Record whether the current animation has finished.
    pub fn set_current_finished(&mut self, finished: bool)
        ensures
            final(self).finished() == finished,
            final(self).queued() == old(self).queued(),
            final(self).current() == old(self).current(),
            final(self).auto() == old(self).auto(),
    {
        self.is_current_finished = finished;
    }

    /// Whether the next animation starts by itself.
    pub fn auto_transition(&self) -> (r: bool)
        ensures
            r == self.auto(),
    {
        self.auto_transition
    }

    /// Set whether the next animation starts by itself.
    pub fn set_auto_transition(&mut self, auto: bool)
        ensures
            final(self).auto() == auto,
            final(self).queued() == old(self).queued(),
            final(self).current() == old(self).current(),
            final(self).finished() == old(self).finished(),
    {
        self.auto_transition = auto;
    }

    /// Play the most recently queued animation, taking it off the queue.
    pub fn play_next(&mut self) -> (r: Option<String>)
        ensures
            old(self).queued().len() == 0 ==> r is None && final(self).queued() == old(self).queued()
                && final(self).current() == old(self).current()
                && final(self).finished() == old(self).finished(),
            old(self).queued().len() > 0 ==> (r matches Some(name) && name@ == old(self).queued().last()
                && final(self).queued() == old(self).queued().drop_last()
                && final(self).current() == Some(name)
                && !final(self).finished()),
            final(self).auto() == old(self).auto(),
    {
        match self.pop() {
            Some(next_animation) => {
                self.play_animation(next_animation.clone());
                Some(next_animation)
            },
            None => None,
        }
    }

    /// When nothing plays and animations are queued, play the most recently
    /// queued one and return it; otherwise change nothing.
    pub fn start_if_idle(&mut self) -> (r: Option<String>)
        ensures
            old(self).current() is None && old(self).queued().len() > 0 ==> (r matches Some(name)
                && name@ == old(self).queued().last()
                && final(self).queued() == old(self).queued().drop_last()
                && final(self).current() == Some(name) && !final(self).finished()),
            !(old(self).current() is None && old(self).queued().len() > 0) ==> r is None
                && final(self).queued() == old(self).queued()
                && final(self).current() == old(self).current()
                && final(self).finished() == old(self).finished(),
            final(self).auto() == old(self).auto(),
    {
        if self.current_animation.is_none() && !self.animations.is_empty() {
            self.play_next()
        } else {
            None
        }
    }

    /// The current animation has run to its end: with automatic transitions
    /// on and animations queued, play the most recently queued one and return
    /// it; otherwise stop, leaving nothing playing and the animation finished.
    pub fn finish_current(&mut self) -> (r: Option<String>)
        ensures
            old(self).auto() && old(self).queued().len() > 0 ==> (r matches Some(name) && name@
                == old(self).queued().last() && final(self).queued() == old(self).queued().drop_last()
                && final(self).current() == Some(name) && !final(self).finished()),
            !(old(self).auto() && old(self).queued().len() > 0) ==> r is None
                && final(self).queued() == old(self).queued() && final(self).current() is None
                && final(self).finished(),
            final(self).auto() == old(self).auto(),
    {
        self.is_current_finished = true;
        if self.auto_transition && !self.animations.is_empty() {
            self.play_next()
        } else {
            self.stop_current();
            None
        }
    }

    /// Empty the queue.
    pub fn clear_queue(&mut self)
        ensures
            final(self).queued() == Seq::<Seq<char>>::empty(),
            final(self).current() == old(self).current(),
            final(self).finished() == old(self).finished(),
            final(self).auto() == old(self).auto(),
    {
        self.animations.clear();
        proof {
            assert(self.queued() =~= Seq::<Seq<char>>::empty());
        }
    }

    /// The number of queued animations.
    pub fn queue_length(&self) -> (r: usize)
        ensures
            r == self.queued().len(),
    {
        self.animations.len()
    }
}

impl Default for AnimationQueue {
    /// An empty queue, nothing playing, automatic transitions on.
    fn default() -> (q: Self)
        ensures
            q.queued() == Seq::<Seq<char>>::empty(),
            !q.finished(),
            q.current() is None,
            q.auto(),
    {
        let q = AnimationQueue::new(Vec::new());
        proof {
            assert(q.queued() =~= Seq::<Seq<char>>::empty());
        }
        q
    }
}

} // verus!
