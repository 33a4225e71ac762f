//! The simulation state: the entity table and the spawner table, and one
//! step of the simulation over them.
use crate::entity::{
    entity_pass, find_initial as find_initial_entities, lemma_pass_keeps_ownership, owns_flags,
    update_entites, Entities,
};
use crate::grid::{flagged_cells, walls_still, Grid};
use crate::spawner::{
    find_initial as find_initial_spawners, lemma_spawner_pass_keeps_ownership, spawner_pass,
    update_spawners, Spawners,
};
use vstd::prelude::*;

verus! {

pub struct State {
    pub entities: Entities,
    pub spawners: Spawners,
}

/// The grid, the token positions and the countdowns after one simulation
/// step: the entity pass, then the spawner pass.
pub open spec fn frame_step(tiles: Seq<u8>, pos: Seq<int>, targets: Seq<int>, times: Seq<u8>) -> (
    Seq<u8>,
    Seq<int>,
    Seq<u8>,
) {
    let (t, p) = entity_pass(tiles, pos, pos.len());
    spawner_pass(t, p, targets, times, targets.len())
}

/// Whether every spawner target lies in the grid.
pub open spec fn targets_in_grid(targets: Seq<int>) -> bool {
    forall|j: int| 0 <= j < targets.len() ==> 0 <= #[trigger] targets[j] < 1000
}

/// A simulation step keeps every flagged cell owned by exactly one token;
/// so the number of flagged cells equals the number of tokens after it, as
/// before it.
pub proof fn lemma_step_keeps_count(
    tiles: Seq<u8>,
    pos: Seq<int>,
    targets: Seq<int>,
    times: Seq<u8>,
)
    requires
        tiles.len() == 1000,
        walls_still(tiles),
        owns_flags(tiles, pos),
        pos.len() <= 64,
        targets.len() <= times.len(),
        targets_in_grid(targets),
    ensures
        walls_still(frame_step(tiles, pos, targets, times).0),
        owns_flags(frame_step(tiles, pos, targets, times).0, frame_step(tiles, pos, targets, times).1),
        flagged_cells(frame_step(tiles, pos, targets, times).0).len() == frame_step(
            tiles,
            pos,
            targets,
            times,
        ).1.len(),
{
    lemma_pass_keeps_ownership(tiles, pos, pos.len());
    let (t, p) = entity_pass(tiles, pos, pos.len());
    lemma_spawner_pass_keeps_ownership(t, p, targets, times, targets.len());
    let (t2, pos2, _) = spawner_pass(t, p, targets, times, targets.len());
    lemma_owned_count(t2, pos2);
}

/// Where tokens own the flagged cells one each, there are as many flagged
/// cells as tokens.
pub proof fn lemma_owned_count(tiles: Seq<u8>, pos: Seq<int>)
    requires
        owns_flags(tiles, pos),
    ensures
        flagged_cells(tiles).len() == pos.len(),
{
    pos.unique_seq_to_set();
}

impl State {
    pub open spec fn wf(&self) -> bool {
        &&& self.entities.wf()
        &&& self.spawners.wf()
    }

    /// Whether the tokens own the flagged cells of `grid` one each.
    pub open spec fn consistent(&self, grid: &Grid) -> bool {
        &&& self.wf()
        &&& grid.wf()
        &&& owns_flags(grid@, self.entities.positions())
    }

    /// Builds both tables from the grid: one token per flagged cell and one
    /// spawner per marker, scanning column by column.
    pub fn bootstrap(grid: &mut Grid) -> (r: State)
        requires
            old(grid).wf(),
        ensures
            r.consistent(&*final(grid)),
            (final(grid)@, r.entities.positions()) == crate::entity::initial_scan(old(grid)@, 1000),
            r.spawners.entries() == crate::spawner::spawner_scan(final(grid)@, 1000),
            flagged_cells(final(grid)@).len() == r.entities.count,
    {
        let entities = find_initial_entities(grid);
        let spawners = find_initial_spawners(grid);
        proof {
            lemma_owned_count(grid@, entities.positions());
        }
        State { entities, spawners }
    }

    /// One simulation step: every token moves, then every spawner ticks.
    pub fn step(&mut self, grid: &mut Grid)
        requires
            old(self).consistent(&*old(grid)),
        ensures
            final(self).consistent(&*final(grid)),
            (final(grid)@, final(self).entities.positions(), final(self).spawners.times())
                == frame_step(
                old(grid)@,
                old(self).entities.positions(),
                old(self).spawners.targets(),
                old(self).spawners.times(),
            ),
            final(self).spawners.count == old(self).spawners.count,
            final(self).spawners.spawn_x == old(self).spawners.spawn_x,
            final(self).spawners.spawn_y == old(self).spawners.spawn_y,
            final(self).spawners.spawn_i == old(self).spawners.spawn_i,
            flagged_cells(final(grid)@).len() == final(self).entities.count,
    {
        let ghost tiles = grid@;
        let ghost pos = self.entities.positions();
        let ghost targets = self.spawners.targets();
        let ghost times = self.spawners.times();
        update_entites(&mut self.entities, grid);
        update_spawners(self, grid);
        proof {
            assert(targets_in_grid(targets)) by {
                assert forall|j: int| 0 <= j < targets.len() implies 0 <= #[trigger] targets[j]
                    < 1000 by {
                    assert(crate::entity::placed(
                        old(self).spawners.spawn_x@[j],
                        old(self).spawners.spawn_y@[j],
                        old(self).spawners.spawn_i@[j],
                    ));
                }
            }
            lemma_step_keeps_count(tiles, pos, targets, times);
        }
    }
}

} // verus!
