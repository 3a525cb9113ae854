//! The bookkeeping of the animation mixer: its blend layers in index order,
//! and the masks that select which targets a layer animates. Sampling and
//! blending the animated values is left to the owner of the mixer.

use vstd::prelude::*;

use crate::animation::AnimationTarget;

verus! {

/// Whether two targets are the same target.
pub open spec fn same_target(a: AnimationTarget, b: AnimationTarget) -> bool {
    match (a, b) {
        (AnimationTarget::Translation, AnimationTarget::Translation) => true,
        (AnimationTarget::Rotation, AnimationTarget::Rotation) => true,
        (AnimationTarget::Scale, AnimationTarget::Scale) => true,
        (AnimationTarget::Custom(x), AnimationTarget::Custom(y)) => x@ == y@,
        _ => false,
    }
}

/// Whether `targets` holds a target that is the same as `t`.
pub open spec fn holds_target(targets: Seq<AnimationTarget>, t: AnimationTarget) -> bool {
    exists|i: int| 0 <= i < targets.len() && same_target(#[trigger] targets[i], t)
}

/// Whether two targets are the same target.
pub fn targets_equal(a: &AnimationTarget, b: &AnimationTarget) -> (r: bool)
    ensures
        r == same_target(*a, *b),
{
    match (a, b) {
        (AnimationTarget::Translation, AnimationTarget::Translation) => true,
        (AnimationTarget::Rotation, AnimationTarget::Rotation) => true,
        (AnimationTarget::Scale, AnimationTarget::Scale) => true,
        (AnimationTarget::Custom(x), AnimationTarget::Custom(y)) => *x == *y,
        _ => false,
    }
}

/// Whether `targets` holds a target that is the same as `t`.
fn contains_target(targets: &Vec<AnimationTarget>, t: &AnimationTarget) -> (r: bool)
    ensures
        r == holds_target(targets@, *t),
{
    let mut i: usize = 0;
    while i < targets.len()
        invariant
            i <= targets@.len(),
            forall|j: int| 0 <= j < i ==> !same_target(#[trigger] targets@[j], *t),
        decreases targets@.len() - i,
    {
        if targets_equal(&targets[i], t) {
            return true;
        }
        i = i + 1;
    }
    false
}

/// Which targets a layer animates: none of the excluded ones and, when the
/// included list is not empty, only the included ones.
#[derive(Debug, Clone)]
pub struct AnimationMask {
    /// The targets animated; empty for all of them.
    pub included_targets: Vec<AnimationTarget>,
    /// The targets never animated.
    pub excluded_targets: Vec<AnimationTarget>,
}

/// Whether a mask with these lists lets `t` be animated.
pub open spec fn mask_affects(included: Seq<AnimationTarget>, excluded: Seq<AnimationTarget>, t: AnimationTarget) -> bool {
    !holds_target(excluded, t) && (included.len() == 0 || holds_target(included, t))
}

/// Exclusions win: a target that the excluded list holds is never animated,
/// whatever the included list holds. A target that is not excluded is
/// animated exactly when the included list is empty or holds it.
pub proof fn lemma_exclusion_wins(
    included: Seq<AnimationTarget>,
    excluded: Seq<AnimationTarget>,
    t: AnimationTarget,
)
    ensures
        holds_target(excluded, t) ==> !mask_affects(included, excluded, t),
        !holds_target(excluded, t) && included.len() == 0 ==> mask_affects(included, excluded, t),
        !holds_target(excluded, t) && included.len() > 0 ==> (mask_affects(included, excluded, t)
            <==> holds_target(included, t)),
{
}

impl AnimationMask {
    /// A mask that lets every target through.
    pub fn new() -> (m: Self)
        ensures
            m.included_targets@ == Seq::<AnimationTarget>::empty(),
            m.excluded_targets@ == Seq::<AnimationTarget>::empty(),
    {
        AnimationMask { included_targets: Vec::new(), excluded_targets: Vec::new() }
    }

    /// A mask that lets only `targets` through.
    pub fn include_only(targets: Vec<AnimationTarget>) -> (m: Self)
        ensures
            m.included_targets@ == targets@,
            m.excluded_targets@ == Seq::<AnimationTarget>::empty(),
    {
        AnimationMask { included_targets: targets, excluded_targets: Vec::new() }
    }

    /// A mask that lets every target but `targets` through.
    pub fn exclude(targets: Vec<AnimationTarget>) -> (m: Self)
        ensures
            m.included_targets@ == Seq::<AnimationTarget>::empty(),
            m.excluded_targets@ == targets@,
    {
        AnimationMask { included_targets: Vec::new(), excluded_targets: targets }
    }

    /// Whether the mask lets `target` be animated.
    pub fn affects_target(&self, target: &AnimationTarget) -> (r: bool)
        ensures
            r == mask_affects(self.included_targets@, self.excluded_targets@, *target),
    {
        if contains_target(&self.excluded_targets, target) {
            return false;
        }
        if self.included_targets.is_empty() {
            return true;
        }
        contains_target(&self.included_targets, target)
    }
}

impl Default for AnimationMask {
    /// A mask that lets every target through.
    fn default() -> (m: Self)
        ensures
            m.included_targets@ == Seq::<AnimationTarget>::empty(),
            m.excluded_targets@ == Seq::<AnimationTarget>::empty(),
    {
        AnimationMask::new()
    }
}

/// Whether `indices` never decreases from one layer to the next.
pub open spec fn index_ordered(indices: Seq<i32>) -> bool {
    forall|i: int, j: int| 0 <= i < j < indices.len() ==> indices[i] <= indices[j]
}

/// Whether `pos` is where a layer of index `index` goes among layers of the
/// given indices: before the first layer of greater index, or at the end.
pub open spec fn is_layer_position(indices: Seq<i32>, index: i32, pos: int) -> bool {
    &&& 0 <= pos <= indices.len()
    &&& forall|j: int| 0 <= j < pos ==> indices[j] <= index
    &&& pos < indices.len() ==> indices[pos] > index
}

/// Whether `pos` is the first position of a layer of index `index`.
pub open spec fn is_first_with_index(indices: Seq<i32>, index: i32, pos: int) -> bool {
    &&& 0 <= pos < indices.len()
    &&& indices[pos] == index
    &&& forall|j: int| 0 <= j < pos ==> indices[j] != index
}

/// The indices of a list of indexed layers, in list order.
pub open spec fn indices_of<L>(layers: Seq<(i32, L)>) -> Seq<i32> {
    layers.map_values(|e: (i32, L)| e.0)
}

/// The layers of a list of indexed layers, in list order.
pub open spec fn layers_of<L>(layers: Seq<(i32, L)>) -> Seq<L> {
    layers.map_values(|e: (i32, L)| e.1)
}

/// A layer of index `index` inserted at its position keeps the layers in
/// index order, after the layers of the same index.
pub proof fn lemma_layer_insert_keeps_order(indices: Seq<i32>, index: i32, pos: int)
    requires
        index_ordered(indices),
        is_layer_position(indices, index, pos),
    ensures
        forall|j: int| pos <= j < indices.len() ==> indices[j] > index,
        index_ordered(indices.insert(pos, index)),
{
    let after = indices.insert(pos, index);
    assert forall|j: int| pos <= j < indices.len() implies indices[j] > index by {
        assert(indices[pos] <= indices[j]);
    }
    assert forall|i: int, j: int| 0 <= i < j < after.len() implies after[i] <= after[j] by {
        if j < pos {
        } else if j == pos {
        } else if i < pos {
            assert(after[j] == indices[j - 1]);
        } else if i == pos {
            assert(after[j] == indices[j - 1]);
        } else {
            assert(after[i] == indices[i - 1]);
            assert(after[j] == indices[j - 1]);
        }
    }
}

/// The blend layers of a mixer, each of type `L` with an index, kept in
/// ascending index order (layers of equal index in the order added), and
/// whether the mixer runs.
#[derive(Debug)]
pub struct AnimationMixer<L> {
    layers: Vec<(i32, L)>,
    enabled: bool,
}

impl<L> AnimationMixer<L> {
    /// The layers stay in index order.
    pub closed spec fn wf(&self) -> bool {
        index_ordered(indices_of(self.layers@))
    }

    /// The indices of the layers, in order.
    pub closed spec fn indices_spec(&self) -> Seq<i32> {
        indices_of(self.layers@)
    }

    /// The layers, in order.
    pub closed spec fn layers_spec(&self) -> Seq<L> {
        layers_of(self.layers@)
    }

    /// Whether the mixer runs.
    pub closed spec fn enabled_spec(&self) -> bool {
        self.enabled
    }

    /// A mixer without layers, running.
    pub fn new() -> (m: Self)
        ensures
            m.wf(),
            m.indices_spec() == Seq::<i32>::empty(),
            m.layers_spec() == Seq::<L>::empty(),
            m.enabled_spec(),
    {
        let m = AnimationMixer { layers: Vec::new(), enabled: true };
        proof {
            assert(m.indices_spec() =~= Seq::<i32>::empty());
            assert(m.layers_spec() =~= Seq::<L>::empty());
        }
        m
    }

    /// The position of the first layer of index `index`, if any.
    fn position_of(&self, index: i32) -> (r: Option<usize>)
        ensures
            r matches Some(p) ==> is_first_with_index(self.indices_spec(), index, p as int),
            r is None ==> forall|j: int| 0 <= j < self.indices_spec().len() ==> self.indices_spec()[j] != index,
    {
        let mut i: usize = 0;
        while i < self.layers.len()
            invariant
                i <= self.layers@.len(),
                forall|j: int| 0 <= j < i ==> self.layers@[j].0 != index,
            decreases self.layers@.len() - i,
        {
            if self.layers[i].0 == index {
                return Some(i);
            }
            i = i + 1;
        }
        None
    }

    /// Add a layer of the given index, after every layer of smaller or equal
    /// index and before every layer of greater index.
    pub fn add_layer(&mut self, index: i32, layer: L)
        requires
            old(self).wf(),
        ensures
            final(self).wf(),
            exists|pos: int|
                is_layer_position(old(self).indices_spec(), index, pos)
                    && final(self).indices_spec() == old(self).indices_spec().insert(pos, index)
                    && final(self).layers_spec() == old(self).layers_spec().insert(pos, layer),
            final(self).enabled_spec() == old(self).enabled_spec(),
    {
        let mut i: usize = 0;
        while i < self.layers.len()
            invariant
                i <= self.layers@.len(),
                forall|j: int| 0 <= j < i ==> self.layers@[j].0 <= index,
            ensures
                i <= self.layers@.len(),
                forall|j: int| 0 <= j < i ==> self.layers@[j].0 <= index,
                i < self.layers@.len() ==> self.layers@[i as int].0 > index,
            decreases self.layers@.len() - i,
        {
            if self.layers[i].0 > index {
                break;
            }
            i = i + 1;
        }
        let ghost before = self.indices_spec();
        let ghost before_layers = self.layers_spec();
        proof {
            assert(is_layer_position(before, index, i as int));
            lemma_layer_insert_keeps_order(before, index, i as int);
        }
        self.layers.insert(i, (index, layer));
        proof {
            assert(self.indices_spec() =~= before.insert(i as int, index));
            assert(self.layers_spec() =~= before_layers.insert(i as int, layer));
        }
    }

    /// Remove the first layer of index `index` and return it.
    pub fn remove_layer(&mut self, index: i32) -> (r: Option<L>)
        requires
            old(self).wf(),
        ensures
            final(self).wf(),
            final(self).enabled_spec() == old(self).enabled_spec(),
            (forall|j: int| 0 <= j < old(self).indices_spec().len() ==> old(self).indices_spec()[j] != index)
                ==> r is None && final(self).indices_spec() == old(self).indices_spec()
                && final(self).layers_spec() == old(self).layers_spec(),
            forall|p: int| is_first_with_index(old(self).indices_spec(), index, p) ==> {
                &&& r == Some(old(self).layers_spec()[p])
                &&& final(self).indices_spec() == old(self).indices_spec().remove(p)
                &&& final(self).layers_spec() == old(self).layers_spec().remove(p)
            },
    {
        match self.position_of(index) {
            Some(p) => {
                let ghost before = self.indices_spec();
                let ghost before_layers = self.layers_spec();
                let (_, layer) = self.layers.remove(p);
                proof {
                    assert(self.indices_spec() =~= before.remove(p as int));
                    assert(self.layers_spec() =~= before_layers.remove(p as int));
                    assert forall|q: int| is_first_with_index(before, index, q) implies q == p by {
                        if q < p {
                            assert(before[q] != index);
                        } else if q > p {
                            assert(before[p as int] != index);
                        }
                    }
                    assert forall|a: int, b: int|
                        0 <= a < b < self.indices_spec().len() implies self.indices_spec()[a]
                        <= self.indices_spec()[b] by {
                        let ba = if a < p { a } else { a + 1 };
                        let bb = if b < p { b } else { b + 1 };
                        assert(self.indices_spec()[a] == before[ba]);
                        assert(self.indices_spec()[b] == before[bb]);
                    }
                }
                Some(layer)
            },
            None => None,
        }
    }

    /// The first layer of index `index`, if any.
    pub fn get_layer(&self, index: i32) -> (r: Option<&L>)
        ensures
            (forall|j: int| 0 <= j < self.indices_spec().len() ==> self.indices_spec()[j] != index)
                ==> r is None,
            forall|p: int| is_first_with_index(self.indices_spec(), index, p) ==> r == Some(
                &self.layers_spec()[p],
            ),
    {
        match self.position_of(index) {
            Some(p) => {
                proof {
                    let ix = self.indices_spec();
                    assert forall|q: int| is_first_with_index(ix, index, q) implies q == p by {
                        if q < p {
                            assert(ix[q] != index);
                        } else if q > p {
                            assert(ix[p as int] != index);
                        }
                    }
                }
                Some(&self.layers[p].1)
            },
            None => None,
        }
    }

    /// The number of layers.
    pub fn layer_count(&self) -> (r: usize)
        ensures
            r == self.layers_spec().len(),
    {
        self.layers.len()
    }

    /// The indices of the layers, in order.
    pub fn get_layer_indices(&self) -> (r: Vec<i32>)
        ensures
            r@ == self.indices_spec(),
    {
        let mut r: Vec<i32> = Vec::new();
        let mut i: usize = 0;
        while i < self.layers.len()
            invariant
                i <= self.layers@.len(),
                r@ == indices_of(self.layers@.take(i as int)),
            decreases self.layers@.len() - i,
        {
            r.push(self.layers[i].0);
            proof {
                assert(indices_of(self.layers@.take(i + 1)) =~= indices_of(
                    self.layers@.take(i as int),
                ).push(self.layers@[i as int].0));
            }
            i = i + 1;
        }
        proof {
            assert(self.layers@.take(self.layers@.len() as int) =~= self.layers@);
        }
        r
    }

    /// Let the mixer run or stop it.
    pub fn set_enabled(&mut self, enabled: bool)
        requires
            old(self).wf(),
        ensures
            final(self).wf(),
            final(self).enabled_spec() == enabled,
            final(self).indices_spec() == old(self).indices_spec(),
            final(self).layers_spec() == old(self).layers_spec(),
    {
        self.enabled = enabled;
    }

    /// Whether the mixer runs.
    pub fn is_enabled(&self) -> (r: bool)
        ensures
            r == self.enabled_spec(),
    {
        self.enabled
    }
}

impl<L> Default for AnimationMixer<L> {
    /// A mixer without layers, running.
    fn default() -> (m: Self)
        ensures
            m.wf(),
            m.indices_spec() == Seq::<i32>::empty(),
            m.layers_spec() == Seq::<L>::empty(),
            m.enabled_spec(),
    {
        Self::new()
    }
}

} // verus!
