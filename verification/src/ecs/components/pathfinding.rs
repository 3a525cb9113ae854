//! Grid positions and obstacle cells for pathfinding.

use vstd::prelude::*;

use crate::ecs::world::Component;

verus! {

/// Distance heuristic used for pathfinding: estimates the distance between
/// two grid positions. Default is Manhattan distance.
#[derive(Debug, Copy, Clone, Default)]
pub enum DistanceHeuristic {
    #[default]
    Manhattan,
    Euclidean,
    Chebyshev,
}

/// Grid position used for A* pathfinding.
#[derive(Debug, Clone, Copy, PartialEq, Eq, Hash, Structural)]
pub struct GridPos {
    /// The x-coordinate of the grid position.
    pub x: i32,
    /// The y-coordinate of the grid position.
    pub y: i32,
    /// The z-coordinate of the grid position.
    pub z: i32,
}

/// The position shifted by (dx, dy, dz).
pub open spec fn shifted(p: GridPos, dx: int, dy: int, dz: int) -> GridPos {
    GridPos { x: (p.x + dx) as i32, y: (p.y + dy) as i32, z: (p.z + dz) as i32 }
}

/// Every coordinate can move one step in each direction without overflow.
pub open spec fn has_all_neighbors(p: GridPos) -> bool {
    &&& i32::MIN < p.x < i32::MAX
    &&& i32::MIN < p.y < i32::MAX
    &&& i32::MIN < p.z < i32::MAX
}

/// The offset of the `i`-th of the 27 positions of the unit cube around a
/// position, enumerated with x slowest and z fastest.
pub open spec fn cube_offset(i: int) -> (int, int, int) {
    (i / 9 - 1, (i / 3) % 3 - 1, i % 3 - 1)
}

/// The `i`-th of the 26 neighbors: the cube positions without the center.
pub open spec fn neighbor(p: GridPos, i: int) -> GridPos {
    let j = if i < 13 {
        i
    } else {
        i + 1
    };
    shifted(p, cube_offset(j).0, cube_offset(j).1, cube_offset(j).2)
}

/// Whether `p` lies in the box spanned by `min` and `max` (inclusive).
pub open spec fn in_box(p: GridPos, min: GridPos, max: GridPos) -> bool {
    &&& min.x <= p.x <= max.x
    &&& min.y <= p.y <= max.y
    &&& min.z <= p.z <= max.z
}

impl GridPos {
    /// Create a new grid position.
    pub fn new(x: i32, y: i32, z: i32) -> (r: Self)
        ensures
            r.x == x,
            r.y == y,
            r.z == z,
    {
        GridPos { x, y, z }
    }

    /// Get all 26 neighbors in 3D space (including diagonals), with the x
    /// offset varying slowest and the z offset fastest, from -1 to 1.
    pub fn get_neighbors(self) -> (r: Vec<GridPos>)
        requires
            has_all_neighbors(self),
        ensures
            r@.len() == 26,
            forall|i: int| 0 <= i < 26 ==> #[trigger] r@[i] == neighbor(self, i),
    {
        let mut neighbors: Vec<GridPos> = Vec::new();
        let mut dx: i32 = -1;
        while dx <= 1
            invariant
                has_all_neighbors(self),
                -1 <= dx <= 2,
                neighbors@.len() == 9 * (dx + 1) - (if dx >= 1 { 1int } else { 0 }),
                forall|i: int| 0 <= i < neighbors@.len() ==> #[trigger] neighbors@[i] == neighbor(self, i),
            decreases 2 - dx,
        {
            let mut dy: i32 = -1;
            while dy <= 1
                invariant
                    has_all_neighbors(self),
                    -1 <= dx <= 1,
                    -1 <= dy <= 2,
                    neighbors@.len() == 9 * (dx + 1) + 3 * (dy + 1) - (if dx > 0 || (dx == 0 && dy >= 1) { 1int } else { 0 }),
                    forall|i: int| 0 <= i < neighbors@.len() ==> #[trigger] neighbors@[i] == neighbor(self, i),
                decreases 2 - dy,
            {
                let mut dz: i32 = -1;
                while dz <= 1
                    invariant
                        has_all_neighbors(self),
                        -1 <= dx <= 1,
                        -1 <= dy <= 1,
                        -1 <= dz <= 2,
                        neighbors@.len() == 9 * (dx + 1) + 3 * (dy + 1) + (dz + 1) - (if dx > 0 || (dx == 0 && dy > 0) || (dx == 0 && dy == 0 && dz >= 1) { 1int } else { 0 }),
                        forall|i: int| 0 <= i < neighbors@.len() ==> #[trigger] neighbors@[i] == neighbor(self, i),
                    decreases 2 - dz,
                {
                    if !(dx == 0 && dy == 0 && dz == 0) {
                        let ghost n = neighbors@.len() as int;
                        neighbors.push(GridPos::new(self.x + dx, self.y + dy, self.z + dz));
                        proof {
                            let j = 9 * (dx + 1) + 3 * (dy + 1) + (dz + 1);
                            assert(cube_offset(j) == (dx as int, dy as int, dz as int));
                            assert(neighbors@[n] == neighbor(self, n));
                        }
                    }
                    dz = dz + 1;
                }
                dy = dy + 1;
            }
            dx = dx + 1;
        }
        neighbors
    }

    /// Get the 6 face-connected neighbors (no diagonals): +x, -x, +y, -y, +z, -z.
    pub fn get_face_neighbors(self) -> (r: Vec<GridPos>)
        requires
            has_all_neighbors(self),
        ensures
            r@ == seq![
                shifted(self, 1, 0, 0),
                shifted(self, -1, 0, 0),
                shifted(self, 0, 1, 0),
                shifted(self, 0, -1, 0),
                shifted(self, 0, 0, 1),
                shifted(self, 0, 0, -1),
            ],
    {
        let r = vec![
            GridPos::new(self.x + 1, self.y, self.z),
            GridPos::new(self.x - 1, self.y, self.z),
            GridPos::new(self.x, self.y + 1, self.z),
            GridPos::new(self.x, self.y - 1, self.z),
            GridPos::new(self.x, self.y, self.z + 1),
            GridPos::new(self.x, self.y, self.z - 1),
        ];
        proof {
            assert(r@ =~= seq![
                shifted(self, 1, 0, 0),
                shifted(self, -1, 0, 0),
                shifted(self, 0, 1, 0),
                shifted(self, 0, -1, 0),
                shifted(self, 0, 0, 1),
                shifted(self, 0, 0, -1),
            ]);
        }
        r
    }
}


/// The cells of the box `[min, max]` that come before (x, y, z) when the
/// box is walked with x slowest and z fastest.
pub open spec fn box_prefix(min: GridPos, max: GridPos, x: int, y: int, z: int) -> Set<GridPos> {
    Set::new(
        |p: GridPos|
            in_box(p, min, max) && (p.x < x || (p.x == x && (p.y < y || (p.y == y && p.z < z)))),
    )
}

/// All cells of the box `[min, max]`.
pub open spec fn box_cells(min: GridPos, max: GridPos) -> Set<GridPos> {
    Set::new(|p: GridPos| in_box(p, min, max))
}

/// The bounds after adding the box `[min, max]`: the box itself at first,
/// then the component-wise minimum and maximum.
pub open spec fn merged_bounds(bounds: Option<(GridPos, GridPos)>, min: GridPos, max: GridPos) -> Option<
    (GridPos, GridPos),
> {
    match bounds {
        None => Some((min, max)),
        Some((lo, hi)) => Some(
            (
                GridPos {
                    x: if lo.x <= min.x { lo.x } else { min.x },
                    y: if lo.y <= min.y { lo.y } else { min.y },
                    z: if lo.z <= min.z { lo.z } else { min.z },
                },
                GridPos {
                    x: if hi.x >= max.x { hi.x } else { max.x },
                    y: if hi.y >= max.y { hi.y } else { max.y },
                    z: if hi.z >= max.z { hi.z } else { max.z },
                },
            ),
        ),
    }
}

/// The obstacle cells of a pathfinding grid, in grid coordinates, with the
/// bounds of the boxes added since the last clear.
#[derive(Debug)]
pub struct ObstacleGrid {
    obstacles: Vec<GridPos>,
    bounds: Option<(GridPos, GridPos)>,
}

impl ObstacleGrid {
    /// The obstacle cells.
    pub closed spec fn obstacles_spec(&self) -> Set<GridPos> {
        self.obstacles@.to_set()
    }

    /// The bounds of the boxes added since the last clear.
    pub closed spec fn bounds_spec(&self) -> Option<(GridPos, GridPos)> {
        self.bounds
    }

    /// A grid without obstacles.
    pub fn new() -> (g: Self)
        ensures
            g.obstacles_spec() == Set::<GridPos>::empty(),
            g.bounds_spec() is None,
    {
        let g = ObstacleGrid { obstacles: Vec::new(), bounds: None };
        proof {
            assert(g.obstacles_spec() =~= Set::<GridPos>::empty());
        }
        g
    }

    /// Mark every cell of the box `[min, max]` as an obstacle (none when the
    /// box is empty) and widen the bounds to cover `min` and `max`.
    pub fn add_box(&mut self, min: GridPos, max: GridPos)
        ensures
            final(self).obstacles_spec() == old(self).obstacles_spec().union(box_cells(min, max)),
            final(self).bounds_spec() == merged_bounds(old(self).bounds_spec(), min, max),
    {
        let ghost old_set = self.obstacles@.to_set();
        let mut x: i64 = min.x as i64;
        proof {
            assert(box_prefix(min, max, x as int, min.y as int, min.z as int) =~= Set::<GridPos>::empty());
            assert(old_set.union(Set::<GridPos>::empty()) =~= old_set);
        }
        while x <= max.x as i64
            invariant
                min.x <= x <= max.x + 1 || x == min.x,
                self.obstacles@.to_set() == old_set.union(box_prefix(min, max, x as int, min.y as int, min.z as int)),
                self.bounds == old(self).bounds,
            decreases max.x + 1 - x,
        {
            let mut y: i64 = min.y as i64;
            while y <= max.y as i64
                invariant
                    min.x <= x <= max.x,
                    min.y <= y <= max.y + 1 || y == min.y,
                    self.obstacles@.to_set() == old_set.union(box_prefix(min, max, x as int, y as int, min.z as int)),
                    self.bounds == old(self).bounds,
                decreases max.y + 1 - y,
            {
                let mut z: i64 = min.z as i64;
                while z <= max.z as i64
                    invariant
                        min.x <= x <= max.x,
                        min.y <= y <= max.y,
                        min.z <= z <= max.z + 1 || z == min.z,
                        self.obstacles@.to_set() == old_set.union(box_prefix(min, max, x as int, y as int, z as int)),
                        self.bounds == old(self).bounds,
                    decreases max.z + 1 - z,
                {
                    let p = GridPos::new(x as i32, y as i32, z as i32);
                    let ghost before = self.obstacles@;
                    if !self.contains_cell(p) {
                        self.obstacles.push(p);
                        proof {
                            assert(self.obstacles@.to_set() =~= before.to_set().insert(p)) by {
                                assert forall|q: GridPos| #[trigger] self.obstacles@.contains(q) <==> (before.contains(q) || q == p) by {
                                    if self.obstacles@.contains(q) {
                                        let j = choose|j: int| 0 <= j < self.obstacles@.len() && self.obstacles@[j] == q;
                                        if j < before.len() {
                                            assert(before[j] == q);
                                        }
                                    }
                                    if before.contains(q) {
                                        let j = choose|j: int| 0 <= j < before.len() && before[j] == q;
                                        assert(self.obstacles@[j] == q);
                                    }
                                    if q == p {
                                        assert(self.obstacles@[before.len() as int] == q);
                                    }
                                }
                            }
                        }
                    }
                    proof {
                        assert(box_prefix(min, max, x as int, y as int, z + 1) =~= box_prefix(min, max, x as int, y as int, z as int).insert(p));
                        assert(self.obstacles@.to_set() =~= old_set.union(box_prefix(min, max, x as int, y as int, z + 1)));
                    }
                    z = z + 1;
                }
                proof {
                    assert(box_prefix(min, max, x as int, y as int, z as int) =~= box_prefix(min, max, x as int, y + 1, min.z as int));
                }
                y = y + 1;
            }
            proof {
                assert(box_prefix(min, max, x as int, y as int, min.z as int) =~= box_prefix(min, max, x + 1, min.y as int, min.z as int));
            }
            x = x + 1;
        }
        proof {
            assert(box_prefix(min, max, x as int, min.y as int, min.z as int) =~= box_cells(min, max));
        }
        self.bounds = match self.bounds {
            None => Some((min, max)),
            Some((lo, hi)) => Some(
                (
                    GridPos::new(
                        if lo.x <= min.x { lo.x } else { min.x },
                        if lo.y <= min.y { lo.y } else { min.y },
                        if lo.z <= min.z { lo.z } else { min.z },
                    ),
                    GridPos::new(
                        if hi.x >= max.x { hi.x } else { max.x },
                        if hi.y >= max.y { hi.y } else { max.y },
                        if hi.z >= max.z { hi.z } else { max.z },
                    ),
                ),
            ),
        };
    }

    fn contains_cell(&self, pos: GridPos) -> (r: bool)
        ensures
            r == self.obstacles@.contains(pos),
    {
        let mut i: usize = 0;
        while i < self.obstacles.len()
            invariant
                i <= self.obstacles@.len(),
                forall|j: int| 0 <= j < i ==> self.obstacles@[j] != pos,
            decreases self.obstacles@.len() - i,
        {
            let c = self.obstacles[i];
            if c.x == pos.x && c.y == pos.y && c.z == pos.z {
                proof {
                    assert(self.obstacles@[i as int] == pos);
                }
                return true;
            }
            i = i + 1;
        }
        false
    }

    /// Check if a grid position is an obstacle.
    pub fn is_obstacle(&self, pos: GridPos) -> (r: bool)
        ensures
            r == self.obstacles_spec().contains(pos),
    {
        self.contains_cell(pos)
    }

    /// Clear all obstacles and the bounds.
    pub fn clear_obstacles(&mut self)
        ensures
            final(self).obstacles_spec() == Set::<GridPos>::empty(),
            final(self).bounds_spec() is None,
    {
        self.obstacles.clear();
        self.bounds = None;
        proof {
            assert(self.obstacles_spec() =~= Set::<GridPos>::empty());
        }
    }

    /// The bounds of the boxes added since the last clear.
    pub fn bounds(&self) -> (r: Option<(GridPos, GridPos)>)
        ensures
            r == self.bounds_spec(),
    {
        self.bounds
    }
}

/// Adding a box and asking for one of its cells answers yes; asking for a
/// cell outside it answers what the grid answered before.
pub proof fn lemma_added_box_is_obstacle(
    before: Set<GridPos>,
    after: Set<GridPos>,
    min: GridPos,
    max: GridPos,
    p: GridPos,
)
    requires
        after == before.union(box_cells(min, max)),
    ensures
        in_box(p, min, max) ==> after.contains(p),
        !in_box(p, min, max) ==> (after.contains(p) == before.contains(p)),
{
}

/// Marker component for entities that should be tracked by pathfinding entities.
#[derive(Debug, Clone, Copy)]
pub struct PathfindingTarget;

impl Component for PathfindingTarget {

}

/// Marker component for entities that use pathfinding to follow targets.
#[derive(Debug, Clone, Copy)]
pub struct PathfindingFollower;

impl Component for PathfindingFollower {

}

} // verus!
