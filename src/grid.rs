//! The tile grid: 40 columns by 25 rows, stored row by row.
use crate::tile::{clear_animation_counter, direction_of, has_resource, Direction, direction_spec, resource_of};
use vstd::prelude::*;

verus! {

pub const MAP_WIDTH: u8 = 40;
pub const MAP_HEIGHT: u8 = 25;

/// Number of cells in the grid.
pub const MAP_LEN: usize = 1000;

/// Number of cells that the display pump copies: all rows but the last.
pub const SCREEN_LEN: usize = 960;

/// Why a tile blob could not become a grid.
#[derive(PartialEq, Eq, Structural, Clone, Copy, Debug)]
pub enum GridError {
    /// The blob does not hold exactly one byte per cell.
    WrongLength,
    /// A cell of the outer ring carries a direction.
    DirectedWall,
}

pub struct Grid {
    pub tiles: [u8; 1000],
}

impl View for Grid {
    type V = Seq<u8>;

    open spec fn view(&self) -> Seq<u8> {
        self.tiles@
    }
}

/// The cell index of column `x`, row `y`.
pub open spec fn cell(x: int, y: int) -> int {
    y * 40 + x
}

/// Whether cell `i` lies on the outer ring of the grid.
pub open spec fn is_border(i: int) -> bool {
    i < 40 || i >= 960 || i % 40 == 0 || i % 40 == 39
}

/// Whether no cell of the outer ring carries a direction.
pub open spec fn walls_still(tiles: Seq<u8>) -> bool {
    forall|i: int| 0 <= i < 1000 && is_border(i) ==> direction_spec(#[trigger] tiles[i]) == Direction::Still
}

/// The cell next to `i` in direction `d` (`i` itself for `Still`).
pub open spec fn neighbor(i: int, d: Direction) -> int {
    match d {
        Direction::Left => i - 1,
        Direction::Right => i + 1,
        Direction::Up => i - 40,
        Direction::Down => i + 40,
        Direction::Still => i,
    }
}

/// The cells whose resource flag is set.
pub open spec fn flagged_cells(tiles: Seq<u8>) -> Set<int> {
    Set::new(|c: int| 0 <= c < tiles.len() && resource_of(tiles[c]))
}

/// The flagged cells among the first `k`.
pub open spec fn flagged_below(tiles: Seq<u8>, k: int) -> Set<int> {
    Set::new(|c: int| 0 <= c < k && c < tiles.len() && resource_of(tiles[c]))
}

/// What a blob becomes when loaded: each byte without its animation phase.
pub open spec fn loaded_tiles(blob: Seq<u8>) -> Seq<u8> {
    Seq::new(blob.len(), |i: int| blob[i] & 0x3f)
}

/// The neighbour of a directed cell lies inside the grid, in the same row
/// for a horizontal move.
pub proof fn lemma_neighbor_in_grid(tiles: Seq<u8>, i: int)
    requires
        tiles.len() == 1000,
        walls_still(tiles),
        0 <= i < 1000,
    ensures
        0 <= neighbor(i, direction_spec(tiles[i])) < 1000,
        direction_spec(tiles[i]) != Direction::Still ==> !is_border(i),
        direction_spec(tiles[i]) == Direction::Left ==> i % 40 >= 1,
        direction_spec(tiles[i]) == Direction::Right ==> i % 40 <= 38,
        direction_spec(tiles[i]) == Direction::Up ==> i >= 40,
        direction_spec(tiles[i]) == Direction::Down ==> i < 960,
{
    if direction_spec(tiles[i]) != Direction::Still {
        assert(!is_border(i));
    }
}

impl Grid {
    pub open spec fn wf(&self) -> bool {
        walls_still(self@)
    }

    /// A grid of empty cells.
    pub fn new() -> (r: Grid)
        ensures
            r.wf(),
            r@ == Seq::new(1000, |i: int| 0u8),
    {
        let r = Grid { tiles: [0u8; 1000] };
        assert(r@ =~= Seq::new(1000, |i: int| 0u8));
        assert forall|i: int| 0 <= i < 1000 && is_border(i) implies direction_spec(#[trigger] r@[i])
            == Direction::Still by {
            assert(r@[i] == 0);
            assert(0u8 & 0x2f == 0) by (bit_vector);
        }
        r
    }

    /// Loads a grid from a blob of one byte per cell, row by row, dropping
    /// the animation phase of each byte.
    pub fn load(blob: &[u8]) -> (r: Result<Grid, GridError>)
        ensures
            blob@.len() != 1000 ==> r == Err::<Grid, GridError>(GridError::WrongLength),
            blob@.len() == 1000 && !walls_still(blob@) ==> r == Err::<Grid, GridError>(
                GridError::DirectedWall,
            ),
            blob@.len() == 1000 && walls_still(blob@) ==> r is Ok,
            r matches Ok(g) ==> g.wf() && g@ == loaded_tiles(blob@),
    {
        if blob.len() != MAP_LEN {
            return Err(GridError::WrongLength);
        }
        let mut g = Grid::new();
        let mut i: usize = 0;
        while i < MAP_LEN
            invariant
                blob@.len() == 1000,
                0 <= i <= 1000,
                g@.len() == 1000,
                forall|j: int| 0 <= j < i ==> g@[j] == blob@[j] & 0x3f,
                forall|j: int| 0 <= j < i && is_border(j) ==> direction_spec(#[trigger] blob@[j])
                    == Direction::Still,
            decreases 1000 - i,
        {
            let t = blob[i];
            if is_border_cell(i) {
                if direction_of(t) != Direction::Still {
                    return Err(GridError::DirectedWall);
                }
            }
            g.tiles[i] = clear_animation_counter(t);
            i = i + 1;
        }
        proof {
            assert(g@ =~= loaded_tiles(blob@));
            assert forall|j: int| 0 <= j < 1000 && is_border(j) implies direction_spec(
                #[trigger] g@[j],
            ) == Direction::Still by {
                crate::tile::lemma_direction_independent(blob@[j]);
            }
        }
        Ok(g)
    }

    /// The tile at column `x`, row `y`.
    pub fn read_map(&self, x: u8, y: u8) -> (r: u8)
        requires
            x < 40,
            y < 25,
        ensures
            r == self@[cell(x as int, y as int)],
    {
        self.tiles[y as usize * 40 + x as usize]
    }

    /// Stores `val` at column `x`, row `y`; a cell of the outer ring only
    /// takes a tile without a direction.
    pub fn write_map(&mut self, x: u8, y: u8, val: u8)
        requires
            old(self).wf(),
            x < 40,
            y < 25,
            is_border(cell(x as int, y as int)) ==> direction_spec(val) == Direction::Still,
        ensures
            final(self).wf(),
            final(self)@ == old(self)@.update(cell(x as int, y as int), val),
    {
        let i = y as usize * 40 + x as usize;
        self.tiles[i] = val;
        assert forall|j: int| 0 <= j < 1000 && is_border(j) implies direction_spec(
            #[trigger] self@[j],
        ) == Direction::Still by {
            if j != i {
                assert(self@[j] == old(self)@[j]);
            }
        }
    }

    /// The number of cells whose resource flag is set.
    pub fn resource_count(&self) -> (r: usize)
        ensures
            r == flagged_cells(self@).len(),
    {
        let mut n: usize = 0;
        let mut i: usize = 0;
        proof {
            assert(flagged_below(self@, 0) =~= Set::<int>::empty());
        }
        while i < MAP_LEN
            invariant
                0 <= i <= 1000,
                n <= i,
                flagged_below(self@, i as int).finite(),
                n == flagged_below(self@, i as int).len(),
            decreases 1000 - i,
        {
            if has_resource(self.tiles[i]) {
                assert(flagged_below(self@, i + 1) =~= flagged_below(self@, i as int).insert(
                    i as int,
                ));
                n = n + 1;
            } else {
                assert(flagged_below(self@, i + 1) =~= flagged_below(self@, i as int));
            }
            i = i + 1;
        }
        assert(flagged_below(self@, 1000) =~= flagged_cells(self@));
        n
    }
}

/// Whether cell `i` lies on the outer ring.
pub fn is_border_cell(i: usize) -> (r: bool)
    ensures
        r == is_border(i as int),
{
    i < 40 || i >= 960 || i % 40 == 0 || i % 40 == 39
}

} // verus!
