//! Spatial identity of towers: world-cell coordinates, per-cell
//! deterministic hashing, neighbor iteration, distances, chunk split, and
//! the connectivity lattice toward the world center.

use vstd::prelude::*;
use crate::math::integer_sqrt;
use crate::tower_type::{TowerType, CONVERSION};

verus! {

broadcast use vstd::seq_lib::lemma_seq_contains_after_push;

/// Edge length of the square world, in cells.
pub const WORLD_SIZE: u16 = 1024;

/// Edge length of a chunk, in cells.
pub const CHUNK_SIZE: u16 = 64;

/// X coordinate of the world center cell.
pub const CENTER_X: u16 = 512;

/// Y coordinate of the world center cell.
pub const CENTER_Y: u16 = 512;

/// A direction on the grid, toward one of the eight neighbors.
#[derive(Copy, Clone, PartialEq, Eq, Structural, Hash, Debug)]
pub enum Direction {
    North,
    NorthEast,
    East,
    SouthEast,
    South,
    SouthWest,
    West,
    NorthWest,
}

impl Direction {
    /// Step of the direction along the x axis.
    pub open spec fn spec_dx(self) -> int {
        match self {
            Direction::NorthEast | Direction::East | Direction::SouthEast => 1,
            Direction::NorthWest | Direction::West | Direction::SouthWest => -1,
            _ => 0,
        }
    }

    /// Step of the direction along the y axis; north is toward smaller y.
    pub open spec fn spec_dy(self) -> int {
        match self {
            Direction::North | Direction::NorthEast | Direction::NorthWest => -1,
            Direction::South | Direction::SouthEast | Direction::SouthWest => 1,
            _ => 0,
        }
    }
}

/// A chunk of the world: a square of `CHUNK_SIZE` by `CHUNK_SIZE` cells.
#[derive(Copy, Clone, PartialEq, Eq, Structural, Hash, Debug)]
pub struct ChunkId {
    pub x: u8,
    pub y: u8,
}

/// A tower coordinate relative to its chunk's corner.
#[derive(Copy, Clone, PartialEq, Eq, Structural, Hash, Debug)]
pub struct RelativeTowerId {
    pub x: u8,
    pub y: u8,
}

/// An unsigned 2D coordinate in world-cell space.
#[derive(Copy, Clone, PartialEq, Eq, Structural, PartialOrd, Ord, Hash, Debug)]
pub struct TowerId {
    pub x: u16,
    pub y: u16,
}

/// Deterministic hash of a cell coordinate; drives the cell's position
/// jitter and its pseudo-random tower type.
pub open spec fn spec_coord_hash(x: u16, y: u16) -> u64 {
    let a = ((x as int) * 0x9E37_79D1) as u64;
    let b = ((y as int) * 0x85EB_CA77) as u64;
    let h = a ^ b;
    let m = h ^ (h >> 16u64);
    let h2 = ((m as int) % 0x1_0000_0000) as u64;
    let h3 = ((h2 as int) * 0x45D_9F3B) as u64;
    h3 ^ (h3 >> 29u64)
}

/// Deterministic hash of a cell coordinate.
pub fn coord_hash(x: u16, y: u16) -> (r: u64)
    ensures
        r == spec_coord_hash(x, y),
{
    proof {
        assert((x as int) * 0x9E37_79D1 <= 0xFFFF * 0x9E37_79D1) by (nonlinear_arith)
            requires x as int <= 0xFFFF;
        assert((y as int) * 0x85EB_CA77 <= 0xFFFF * 0x85EB_CA77) by (nonlinear_arith)
            requires y as int <= 0xFFFF;
    }
    let a = (x as u64) * 0x9E37_79D1;
    let b = (y as u64) * 0x85EB_CA77;
    let h = a ^ b;
    let m = h ^ (h >> 16u64);
    let h2 = m % 0x1_0000_0000;
    proof {
        assert((h2 as int) * 0x45D_9F3B < 4294967296int * 0x45D_9F3B) by (nonlinear_arith)
            requires (h2 as int) < 4294967296int;
    }
    let h3 = h2 * 0x45D_9F3B;
    h3 ^ (h3 >> 29u64)
}

impl TowerId {
    /// A coordinate from its components.
    pub fn new(x: u16, y: u16) -> (r: TowerId)
        ensures
            r.x == x,
            r.y == y,
    {
        TowerId { x, y }
    }

    /// The coordinate lies inside the world.
    pub open spec fn in_world(self) -> bool {
        self.x < WORLD_SIZE && self.y < WORLD_SIZE
    }

    /// Jitter of the cell's center along the x axis, below `CONVERSION`.
    pub open spec fn spec_offset_x(self) -> u16 {
        ((spec_coord_hash(self.x, self.y) >> 4u64) % 5) as u16
    }

    /// Jitter of the cell's center along the y axis, below `CONVERSION`.
    pub open spec fn spec_offset_y(self) -> u16 {
        ((spec_coord_hash(self.x, self.y) >> 9u64) % 5) as u16
    }

    /// Deterministic jitter of the cell's center inside the cell, in world
    /// units along each axis.
    pub fn offset(self) -> (r: (u16, u16))
        ensures
            r.0 == self.spec_offset_x(),
            r.1 == self.spec_offset_y(),
            r.0 < CONVERSION,
            r.1 < CONVERSION,
    {
        let h = coord_hash(self.x, self.y);
        (((h >> 4u64) % 5) as u16, ((h >> 9u64) % 5) as u16)
    }

    /// The cell center's position along the x axis, in world units.
    pub open spec fn spec_pos_x(self) -> int {
        (self.x as int) * (CONVERSION as int) + self.spec_offset_x()
    }

    /// The cell center's position along the y axis, in world units.
    pub open spec fn spec_pos_y(self) -> int {
        (self.y as int) * (CONVERSION as int) + self.spec_offset_y()
    }

    /// The cell center's position in world units.
    pub fn position(self) -> (r: (u32, u32))
        ensures
            r.0 == self.spec_pos_x(),
            r.1 == self.spec_pos_y(),
    {
        proof {
            assert((self.x as int) * 5 <= 0xFFFF * 5) by (nonlinear_arith)
                requires self.x as int <= 0xFFFF;
            assert((self.y as int) * 5 <= 0xFFFF * 5) by (nonlinear_arith)
                requires self.y as int <= 0xFFFF;
        }
        let off = self.offset();
        ((self.x as u32) * (CONVERSION as u32) + off.0 as u32, (self.y as u32) * (CONVERSION
            as u32) + off.1 as u32)
    }

    /// Squared distance between the cell coordinates, in cells.
    pub open spec fn spec_distance_squared(self, other: TowerId) -> int {
        let dx = self.x as int - other.x as int;
        let dy = self.y as int - other.y as int;
        dx * dx + dy * dy
    }

    /// Squared distance between the cell coordinates, in cells.
    pub fn distance_squared(self, other: TowerId) -> (r: u64)
        ensures
            r == self.spec_distance_squared(other),
    {
        let dx: u64 = if self.x >= other.x {
            (self.x - other.x) as u64
        } else {
            (other.x - self.x) as u64
        };
        let dy: u64 = if self.y >= other.y {
            (self.y - other.y) as u64
        } else {
            (other.y - self.y) as u64
        };
        proof {
            assert((dx as int) * (dx as int) <= 0xFFFF * 0xFFFF && (dx as int) * (dx as int) == (
            self.x as int - other.x as int) * (self.x as int - other.x as int)) by (nonlinear_arith)
                requires
                    dx as int <= 0xFFFF,
                    dx as int == self.x as int - other.x as int || dx as int == other.x as int
                        - self.x as int;
            assert((dy as int) * (dy as int) <= 0xFFFF * 0xFFFF && (dy as int) * (dy as int) == (
            self.y as int - other.y as int) * (self.y as int - other.y as int)) by (nonlinear_arith)
                requires
                    dy as int <= 0xFFFF,
                    dy as int == self.y as int - other.y as int || dy as int == other.y as int
                        - self.y as int;
        }
        dx * dx + dy * dy
    }

    /// Squared distance between the cell centers' positions, in world units.
    pub open spec fn spec_position_dist_sq(self, other: TowerId) -> int {
        let dx = self.spec_pos_x() - other.spec_pos_x();
        let dy = self.spec_pos_y() - other.spec_pos_y();
        dx * dx + dy * dy
    }

    /// Distance between the cell centers in world units: the Euclidean
    /// cell distance scaled by `CONVERSION`, rounded down, as measured
    /// between the jittered cell centers.
    pub fn distance(self, other: TowerId) -> (r: u32)
        ensures
            (r as int) * (r as int) <= self.spec_position_dist_sq(other),
            self.spec_position_dist_sq(other) < (r as int + 1) * (r as int + 1),
    {
        let a = self.position();
        let b = other.position();
        let dx: u64 = if a.0 >= b.0 {
            (a.0 - b.0) as u64
        } else {
            (b.0 - a.0) as u64
        };
        let dy: u64 = if a.1 >= b.1 {
            (a.1 - b.1) as u64
        } else {
            (b.1 - a.1) as u64
        };
        proof {
            assert((dx as int) * (dx as int) <= 327680 * 327680 && (dx as int) * (dx
                as int) == (self.spec_pos_x() - other.spec_pos_x()) * (self.spec_pos_x()
                - other.spec_pos_x())) by (nonlinear_arith)
                requires
                    dx as int <= 327680,
                    dx as int == self.spec_pos_x() - other.spec_pos_x() || dx as int
                        == other.spec_pos_x() - self.spec_pos_x();
            assert((dy as int) * (dy as int) <= 327680 * 327680 && (dy as int) * (dy
                as int) == (self.spec_pos_y() - other.spec_pos_y()) * (self.spec_pos_y()
                - other.spec_pos_y())) by (nonlinear_arith)
                requires
                    dy as int <= 327680,
                    dy as int == self.spec_pos_y() - other.spec_pos_y() || dy as int
                        == other.spec_pos_y() - self.spec_pos_y();
        }
        let d2 = dx * dx + dy * dy;
        integer_sqrt(d2)
    }

    /// `other` is one of the up to eight grid neighbors of `self` inside
    /// the world.
    pub open spec fn spec_is_neighbor(self, other: TowerId) -> bool {
        &&& other.in_world()
        &&& other != self
        &&& -1 <= other.x as int - self.x as int <= 1
        &&& -1 <= other.y as int - self.y as int <= 1
    }

    /// The cell shifted by the given delta; meaningful while the result
    /// stays inside the coordinate range.
    pub open spec fn spec_shift(self, dx: int, dy: int) -> TowerId {
        TowerId { x: (self.x + dx) as u16, y: (self.y + dy) as u16 }
    }

    /// Position of a neighbor of `self` in the row-major scan of the eight
    /// surrounding cells.
    pub open spec fn spec_nkey(self, n: TowerId) -> int {
        (n.y as int - self.y as int) * 3 + (n.x as int - self.x as int)
    }

    /// The neighbor cell shifted by the given delta, if it stays inside
    /// the world; ordered as the row-major scan visits it.
    pub open spec fn spec_nb_step(self, dx: int, dy: int) -> Seq<TowerId> {
        if 0 <= self.x as int + dx && self.x as int + dx < WORLD_SIZE as int && 0 <= self.y as int
            + dy && self.y as int + dy < WORLD_SIZE as int {
            seq![self.spec_shift(dx, dy)]
        } else {
            Seq::empty()
        }
    }

    /// The grid neighbors of `self` inside the world, in row-major scan
    /// order.
    pub open spec fn spec_neighbors(self) -> Seq<TowerId> {
        self.spec_nb_step(-1, -1) + self.spec_nb_step(0, -1) + self.spec_nb_step(1, -1)
            + self.spec_nb_step(-1, 0) + self.spec_nb_step(1, 0) + self.spec_nb_step(-1, 1)
            + self.spec_nb_step(0, 1) + self.spec_nb_step(1, 1)
    }

    /// The prefix of the neighbor scan over the first `k` deltas.
    pub open spec fn spec_neighbors_upto(self, offs: Seq<(i32, i32)>, k: int) -> Seq<TowerId>
        decreases k,
    {
        if k <= 0 {
            Seq::empty()
        } else {
            self.spec_neighbors_upto(offs, k - 1) + self.spec_nb_step(
                offs[k - 1].0 as int,
                offs[k - 1].1 as int,
            )
        }
    }

    /// The grid neighbors of `self` inside the world, in row-major scan
    /// order: each exactly once.
    pub fn neighbors(self) -> (r: Vec<TowerId>)
        requires
            self.in_world(),
        ensures
            r@ == self.spec_neighbors(),
            forall|i: int| 0 <= i < r@.len() ==> self.spec_is_neighbor(#[trigger] r@[i]),
            forall|n: TowerId| self.spec_is_neighbor(n) ==> r@.contains(n),
            forall|i: int, j: int| 0 <= i < j < r@.len() ==> r@[i] != r@[j],
    {
        let offs: Vec<(i32, i32)> = vec![
            (-1, -1),
            (0, -1),
            (1, -1),
            (-1, 0),
            (1, 0),
            (-1, 1),
            (0, 1),
            (1, 1),
        ];
        proof {
            assert(offs@ =~= seq![
                (-1i32, -1i32),
                (0i32, -1i32),
                (1i32, -1i32),
                (-1i32, 0i32),
                (1i32, 0i32),
                (-1i32, 1i32),
                (0i32, 1i32),
                (1i32, 1i32),
            ]);
        }
        let mut r: Vec<TowerId> = Vec::new();
        let mut k: usize = 0;
        while k < offs.len()
            invariant
                self.in_world(),
                offs@.len() == 8,
                offs@ == seq![
                    (-1i32, -1i32),
                    (0i32, -1i32),
                    (1i32, -1i32),
                    (-1i32, 0i32),
                    (1i32, 0i32),
                    (-1i32, 1i32),
                    (0i32, 1i32),
                    (1i32, 1i32),
                ],
                k <= 8,
                forall|i: int| 0 <= i < r@.len() ==> self.spec_is_neighbor(#[trigger] r@[i]),
                forall|j: int|
                    0 <= j < k ==> ((0 <= (self.x as int) + (offs@[j].0 as int)
                        && (self.x as int) + (offs@[j].0 as int) < (WORLD_SIZE as int)
                        && 0 <= (self.y as int) + (offs@[j].1 as int)
                        && (self.y as int) + (offs@[j].1 as int) < (WORLD_SIZE as int))
                        ==> r@.contains(self.spec_shift(offs@[j].0 as int, offs@[j].1 as int))),
                forall|i: int|
                    0 <= i < r@.len() ==> -4 <= self.spec_nkey(#[trigger] r@[i]) <= 4,
                k < 8 ==> forall|i: int|
                    0 <= i < r@.len() ==> self.spec_nkey(#[trigger] r@[i]) < offs@[k as int].1
                        * 3 + offs@[k as int].0,
                forall|i: int, j: int|
                    0 <= i < j < r@.len() ==> self.spec_nkey(r@[i]) < self.spec_nkey(r@[j]),
                r@ == self.spec_neighbors_upto(offs@, k as int),
            decreases offs@.len() - k,
        {
            let (dx, dy) = offs[k];
            let nx = self.x as i32 + dx;
            let ny = self.y as i32 + dy;
            let ghost prevr = r@;
            if 0 <= nx && nx < WORLD_SIZE as i32 && 0 <= ny && ny < WORLD_SIZE as i32 {
                let n = TowerId { x: nx as u16, y: ny as u16 };
                proof {
                    assert(n == self.spec_shift(dx as int, dy as int));
                    assert(self.spec_nkey(n) == dy as int * 3 + dx as int);
                }
                r.push(n);
            }
            proof {
                assert(r@ =~= self.spec_neighbors_upto(offs@, k as int + 1)) by {
                    assert(r@ == prevr + self.spec_nb_step(dx as int, dy as int) || (r@ == prevr
                        && self.spec_nb_step(dx as int, dy as int) =~= Seq::<TowerId>::empty()));
                    assert(prevr + self.spec_nb_step(dx as int, dy as int) =~= r@);
                }
            }
            k = k + 1;
        }
        proof {
            assert(r@ =~= self.spec_neighbors()) by {
                reveal_with_fuel(TowerId::spec_neighbors_upto, 9);
                assert(r@ == self.spec_neighbors_upto(offs@, 8));
            }
            assert forall|n: TowerId| self.spec_is_neighbor(n) implies r@.contains(n) by {
                let dx = n.x as int - self.x as int;
                let dy = n.y as int - self.y as int;
                let j: int = if dy == -1 {
                    dx + 1
                } else if dy == 0 {
                    if dx == -1 {
                        3
                    } else {
                        4
                    }
                } else {
                    dx + 6
                };
                assert(offs@[j].0 as int == dx && offs@[j].1 as int == dy);
                assert(n == self.spec_shift(dx, dy));
            }
            assert forall|i: int, j: int| 0 <= i < j < r@.len() implies r@[i] != r@[j] by {
                assert(self.spec_nkey(r@[i]) < self.spec_nkey(r@[j]));
            }
        }
        r
    }

    /// The chunk that owns the coordinate.
    pub open spec fn spec_chunk(self) -> ChunkId {
        ChunkId { x: (self.x as int / CHUNK_SIZE as int) as u8, y: (self.y as int / CHUNK_SIZE as int) as u8 }
    }

    /// The coordinate relative to its chunk's corner.
    pub open spec fn spec_rel(self) -> RelativeTowerId {
        RelativeTowerId {
            x: (self.x as int % CHUNK_SIZE as int) as u8,
            y: (self.y as int % CHUNK_SIZE as int) as u8,
        }
    }

    /// Splits the coordinate into its chunk and the coordinate relative to
    /// the chunk's corner.
    pub fn split(self) -> (r: (ChunkId, RelativeTowerId))
        requires
            self.in_world(),
        ensures
            r.0 == self.spec_chunk(),
            r.1 == self.spec_rel(),
            r.0.x as int == self.x as int / CHUNK_SIZE as int,
            r.0.y as int == self.y as int / CHUNK_SIZE as int,
            r.1.x as int == self.x as int % CHUNK_SIZE as int,
            r.1.y as int == self.y as int % CHUNK_SIZE as int,
    {
        (
            ChunkId { x: (self.x / CHUNK_SIZE) as u8, y: (self.y / CHUNK_SIZE) as u8 },
            RelativeTowerId { x: (self.x % CHUNK_SIZE) as u8, y: (self.y % CHUNK_SIZE) as u8 },
        )
    }

    /// Taxicab distance from the cell to the world center.
    pub open spec fn spec_center_dist(self) -> int {
        let dx = if self.x as int >= CENTER_X as int {
            self.x as int - CENTER_X as int
        } else {
            CENTER_X as int - self.x as int
        };
        let dy = if self.y as int >= CENTER_Y as int {
            self.y as int - CENTER_Y as int
        } else {
            CENTER_Y as int - self.y as int
        };
        dx + dy
    }

    /// The unique direction from this cell toward the world center along
    /// the connectivity lattice; `None` at the center itself.
    pub fn connectivity(self) -> (r: Option<Direction>)
        requires
            self.in_world(),
        ensures
            r is None <==> self.x == CENTER_X && self.y == CENTER_Y,
            r matches Some(d) ==> {
                &&& d.spec_dx() == if self.x < CENTER_X {
                    1int
                } else if self.x > CENTER_X {
                    -1int
                } else {
                    0int
                }
                &&& d.spec_dy() == if self.y < CENTER_Y {
                    1int
                } else if self.y > CENTER_Y {
                    -1int
                } else {
                    0int
                }
            },
    {
        if self.x == CENTER_X && self.y == CENTER_Y {
            None
        } else if self.x < CENTER_X {
            if self.y < CENTER_Y {
                Some(Direction::SouthEast)
            } else if self.y > CENTER_Y {
                Some(Direction::NorthEast)
            } else {
                Some(Direction::East)
            }
        } else if self.x > CENTER_X {
            if self.y < CENTER_Y {
                Some(Direction::SouthWest)
            } else if self.y > CENTER_Y {
                Some(Direction::NorthWest)
            } else {
                Some(Direction::West)
            }
        } else {
            if self.y < CENTER_Y {
                Some(Direction::South)
            } else {
                Some(Direction::North)
            }
        }
    }

    /// The neighbor of this cell one step in the given direction; the step
    /// must stay inside the world.
    pub fn neighbor_unchecked(self, d: Direction) -> (r: TowerId)
        requires
            self.in_world(),
            0 <= self.x as int + d.spec_dx() < WORLD_SIZE as int,
            0 <= self.y as int + d.spec_dy() < WORLD_SIZE as int,
        ensures
            r.x as int == self.x as int + d.spec_dx(),
            r.y as int == self.y as int + d.spec_dy(),
            r.in_world(),
    {
        let x = match d {
            Direction::NorthEast | Direction::East | Direction::SouthEast => self.x + 1,
            Direction::NorthWest | Direction::West | Direction::SouthWest => self.x - 1,
            _ => self.x,
        };
        let y = match d {
            Direction::North | Direction::NorthEast | Direction::NorthWest => self.y - 1,
            Direction::South | Direction::SouthEast | Direction::SouthWest => self.y + 1,
            _ => self.y,
        };
        TowerId { x, y }
    }

    /// The next cell on the walk toward the world center.
    pub open spec fn spec_connectivity_id(self) -> TowerId {
        TowerId {
            x: (if self.x < CENTER_X {
                self.x as int + 1
            } else if self.x > CENTER_X {
                self.x as int - 1
            } else {
                self.x as int
            }) as u16,
            y: (if self.y < CENTER_Y {
                self.y as int + 1
            } else if self.y > CENTER_Y {
                self.y as int - 1
            } else {
                self.y as int
            }) as u16,
        }
    }

    /// The neighbor one step toward the world center; `None` at the center.
    /// Each step strictly shrinks the distance to the center, so iterated
    /// steps reach it.
    pub fn connectivity_id(self) -> (r: Option<TowerId>)
        requires
            self.in_world(),
        ensures
            r is None <==> self.x == CENTER_X && self.y == CENTER_Y,
            r matches Some(n) ==> {
                &&& n == self.spec_connectivity_id()
                &&& n.in_world()
                &&& n.spec_center_dist() < self.spec_center_dist()
                &&& self.spec_is_neighbor(n)
            },
    {
        match self.connectivity() {
            None => None,
            Some(d) => Some(self.neighbor_unchecked(d)),
        }
    }

    /// `to` lies on the walk from `from` toward the world center.
    pub open spec fn spec_center_walk_contains(from: TowerId, to: TowerId) -> bool
        decreases from.spec_center_dist(),
    {
        from == to || (!(from.x == CENTER_X && from.y == CENTER_Y)
            && Self::spec_center_walk_contains(from.spec_connectivity_id(), to))
    }

    /// A center walk that reaches a cell also reaches the cell's next
    /// step toward the center.
    pub proof fn lemma_center_walk_extend(from: TowerId, to: TowerId)
        requires
            Self::spec_center_walk_contains(from, to),
            !(to.x == CENTER_X && to.y == CENTER_Y),
        ensures
            Self::spec_center_walk_contains(from, to.spec_connectivity_id()),
        decreases from.spec_center_dist(),
    {
        if from == to {
            assert(Self::spec_center_walk_contains(
                to.spec_connectivity_id(),
                to.spec_connectivity_id(),
            ));
        } else {
            Self::lemma_center_walk_extend(from.spec_connectivity_id(), to);
        }
    }

    /// The byte of the cell hash that selects the cell's tower type.
    pub open spec fn spec_type_hash(self) -> u8 {
        ((spec_coord_hash(self.x, self.y) >> 14u64) % 256) as u8
    }

    /// The cell lies in the aquatic biome.
    pub open spec fn spec_is_aquatic_cell(self) -> bool {
        (spec_coord_hash(self.x, self.y) >> 22u64) % 256 < 64
    }

    /// The deterministic pseudo-random tower type of the cell, used before
    /// the cell is materialized.
    pub open spec fn spec_tower_type(self) -> TowerType {
        TowerType::spec_generate(self.spec_type_hash(), self.spec_is_aquatic_cell())
    }

    /// The deterministic pseudo-random tower type of the cell.
    pub fn tower_type(self) -> (r: TowerType)
        ensures
            r == self.spec_tower_type(),
    {
        let h = coord_hash(self.x, self.y);
        let hash = ((h >> 14u64) % 256) as u8;
        let aquatic = (h >> 22u64) % 256 < 64;
        TowerType::generate(hash, aquatic)
    }
}

} // verus!
