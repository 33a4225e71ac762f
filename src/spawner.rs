//! Emitters bound to marker tiles: each one drops a fresh token next to its
//! marker once per period.
use crate::entity::{owns_flags, placed, scan_cell, MAX_ENTITIES};
use crate::grid::{flagged_cells, is_border, walls_still, Grid, MAP_HEIGHT, MAP_WIDTH};
use crate::state::State;
use crate::tile::{
    clear_animation_counter, direction_spec, has_resource, lemma_direction_independent,
    lemma_resource_flag, resource_of, set_resource, Direction,
};
use vstd::prelude::*;

verus! {

/// Capacity of the spawner table.
pub const MAX_SPAWNERS: usize = 64;

/// The bits of a marker's cell index that seed its countdown.
pub const SPAW_TIME_MASK: usize = 0b11111;

/// The number of ticks a spawner waits after each attempt.
pub const SPAW_TIME: u8 = 23;

/// Marker of a spawner that emits into the cell to its left.
pub const LEFT_SPAWNER: u8 = 33;
/// Marker of a spawner that emits into the cell above it.
pub const TOP_SPAWNER: u8 = 34;
/// Marker of a spawner that emits into the cell to its right.
pub const RIGHT_SPAWNER: u8 = 35;
/// Marker of a spawner that emits into the cell below it.
pub const DOWN_SPAWNER: u8 = 36;

/// The spawner table: `count` spawners, the `k`-th one emitting into column
/// `spawn_x[k]`, row `spawn_y[k]`, cell `spawn_i[k]`, after `spawn_time[k]`
/// more ticks.
pub struct Spawners {
    pub count: u8,
    pub spawn_x: [i8; 64],
    pub spawn_y: [i8; 64],
    pub spawn_i: [usize; 64],
    pub spawn_time: [u8; 64],
}

/// One spawner's tick: at zero it emits into `target` when the table has
/// room and `target` is free, and starts its period again; otherwise it
/// counts down.
pub open spec fn spawn_step(tiles: Seq<u8>, pos: Seq<int>, target: int, time: u8) -> (
    Seq<u8>,
    Seq<int>,
    u8,
) {
    if time != 0 {
        (tiles, pos, (time - 1) as u8)
    } else if pos.len() < 64 && !resource_of(tiles[target]) {
        (tiles.update(target, tiles[target] | 0x10), pos.push(target), 23)
    } else {
        (tiles, pos, 23)
    }
}

/// The grid, the token positions and the countdowns after the first `k`
/// spawners ticked, in table order.
pub open spec fn spawner_pass(
    tiles: Seq<u8>,
    pos: Seq<int>,
    targets: Seq<int>,
    times: Seq<u8>,
    k: nat,
) -> (Seq<u8>, Seq<int>, Seq<u8>)
    decreases k,
{
    if k == 0 {
        (tiles, pos, times)
    } else {
        let (t, p, tm) = spawner_pass(tiles, pos, targets, times, (k - 1) as nat);
        let (t2, pos2, time) = spawn_step(t, p, targets[k - 1], tm[k - 1]);
        (t2, pos2, tm.update(k - 1, time))
    }
}

/// Whether `code` is one of the four marker codes.
pub open spec fn is_marker(code: u8) -> bool {
    33 <= code <= 36
}

/// The cell that the marker `code` at cell `c` emits into.
pub open spec fn marker_target(code: u8, c: int) -> int {
    if code == 33 {
        c - 1
    } else if code == 34 {
        c - 40
    } else if code == 35 {
        c + 1
    } else {
        c + 40
    }
}

/// Whether the cell that the marker `code` at cell `c` emits into lies in
/// the grid.
pub open spec fn target_in_grid(code: u8, c: int) -> bool {
    &&& code == 33 ==> c % 40 >= 1
    &&& code == 34 ==> c >= 40
    &&& code == 35 ==> c % 40 <= 38
    &&& code == 36 ==> c < 960
}

/// The spawners (target cell, countdown) found in the first `n` cells of the
/// column-by-column scan: one for each marker whose target lies in the grid,
/// while the table has room, its countdown seeded from the low five bits of
/// the marker's cell index.
pub open spec fn spawner_scan(tiles: Seq<u8>, n: nat) -> Seq<(int, u8)>
    decreases n,
{
    if n == 0 {
        Seq::empty()
    } else {
        let s = spawner_scan(tiles, (n - 1) as nat);
        let c = scan_cell(n - 1);
        let code = tiles[c] & 0x3f;
        if is_marker(code) && target_in_grid(code, c) && s.len() < 64 {
            s.push((marker_target(code, c), (c % 32) as u8))
        } else {
            s
        }
    }
}

impl Spawners {
    pub open spec fn wf(&self) -> bool {
        &&& self.count <= 64
        &&& forall|k: int|
            0 <= k < self.count ==> #[trigger] placed(
                self.spawn_x@[k],
                self.spawn_y@[k],
                self.spawn_i@[k],
            )
    }

    /// The target cells, in table order.
    pub open spec fn targets(&self) -> Seq<int> {
        Seq::new(self.count as nat, |k: int| self.spawn_i@[k] as int)
    }

    /// The countdowns, in table order.
    pub open spec fn times(&self) -> Seq<u8> {
        Seq::new(self.count as nat, |k: int| self.spawn_time@[k])
    }

    /// The (target cell, countdown) pairs, in table order.
    pub open spec fn entries(&self) -> Seq<(int, u8)> {
        Seq::new(self.count as nat, |k: int| (self.spawn_i@[k] as int, self.spawn_time@[k]))
    }

    /// An empty table.
    pub fn new() -> (r: Spawners)
        ensures
            r.wf(),
            r.count == 0,
    {
        Spawners {
            count: 0,
            spawn_x: [0i8; 64],
            spawn_y: [0i8; 64],
            spawn_i: [0usize; 64],
            spawn_time: [0u8; 64],
        }
    }
}

/// One spawner tick keeps each flagged cell owned by exactly one token and
/// the outer ring without directions.
pub proof fn lemma_spawn_step_keeps_ownership(tiles: Seq<u8>, pos: Seq<int>, target: int, time: u8)
    requires
        tiles.len() == 1000,
        walls_still(tiles),
        owns_flags(tiles, pos),
        0 <= target < 1000,
    ensures
        spawn_step(tiles, pos, target, time).0.len() == 1000,
        walls_still(spawn_step(tiles, pos, target, time).0),
        owns_flags(spawn_step(tiles, pos, target, time).0, spawn_step(tiles, pos, target, time).1),
        spawn_step(tiles, pos, target, time).1.len() <= if pos.len() < 64 {
            64
        } else {
            pos.len()
        },
{
    let (t2, pos2, _) = spawn_step(tiles, pos, target, time);
    if time == 0 && pos.len() < 64 && !resource_of(tiles[target]) {
        lemma_resource_flag(tiles[target]);
        assert forall|j: int| 0 <= j < 1000 && is_border(j) implies direction_spec(#[trigger] t2[j])
            == Direction::Still by {
            lemma_direction_independent(tiles[j]);
        }
        assert(!flagged_cells(tiles).contains(target));
        assert(!pos.contains(target));
        assert forall|a: int, b: int| 0 <= a < pos2.len() && 0 <= b < pos2.len() && a != b implies pos2[a]
            != pos2[b] by {
            if a == pos.len() {
                assert(pos.contains(pos2[b]));
            } else if b == pos.len() {
                assert(pos.contains(pos2[a]));
            } else {
                assert(pos[a] != pos[b]);
            }
        }
        assert(flagged_cells(t2) =~= flagged_cells(tiles).insert(target));
        assert forall|c: int| pos2.to_set().contains(c) <==> pos.to_set().insert(target).contains(c) by {
            if pos2.to_set().contains(c) {
                let j = choose|j: int| 0 <= j < pos2.len() && pos2[j] == c;
                if j < pos.len() {
                    assert(pos[j] == c);
                }
            }
            if pos.to_set().insert(target).contains(c) && c != target {
                let j = choose|j: int| 0 <= j < pos.len() && pos[j] == c;
                assert(pos2[j] == c);
            }
            if c == target {
                assert(pos2[pos.len() as int] == target);
            }
        }
        assert(pos2.to_set() =~= pos.to_set().insert(target));
    }
}

/// The spawner pass keeps each flagged cell owned by exactly one token, the
/// outer ring without directions, and the entity table within its capacity.
pub proof fn lemma_spawner_pass_keeps_ownership(
    tiles: Seq<u8>,
    pos: Seq<int>,
    targets: Seq<int>,
    times: Seq<u8>,
    k: nat,
)
    requires
        tiles.len() == 1000,
        walls_still(tiles),
        owns_flags(tiles, pos),
        pos.len() <= 64,
        k <= targets.len(),
        k <= times.len(),
        forall|j: int| 0 <= j < targets.len() ==> 0 <= #[trigger] targets[j] < 1000,
    ensures
        spawner_pass(tiles, pos, targets, times, k).0.len() == 1000,
        spawner_pass(tiles, pos, targets, times, k).1.len() <= 64,
        spawner_pass(tiles, pos, targets, times, k).2.len() == times.len(),
        walls_still(spawner_pass(tiles, pos, targets, times, k).0),
        owns_flags(
            spawner_pass(tiles, pos, targets, times, k).0,
            spawner_pass(tiles, pos, targets, times, k).1,
        ),
    decreases k,
{
    if k > 0 {
        lemma_spawner_pass_keeps_ownership(tiles, pos, targets, times, (k - 1) as nat);
        let (t, p, tm) = spawner_pass(tiles, pos, targets, times, (k - 1) as nat);
        lemma_spawn_step_keeps_ownership(t, p, targets[k - 1], tm[k - 1]);
    }
}

/// Ticks every spawner once, in table order.
pub fn update_spawners(state: &mut State, grid: &mut Grid)
    requires
        old(state).wf(),
        old(grid).wf(),
    ensures
        final(state).wf(),
        final(grid).wf(),
        final(state).spawners.count == old(state).spawners.count,
        final(state).spawners.spawn_x == old(state).spawners.spawn_x,
        final(state).spawners.spawn_y == old(state).spawners.spawn_y,
        final(state).spawners.spawn_i == old(state).spawners.spawn_i,
        (final(grid)@, final(state).entities.positions(), final(state).spawners.times())
            == spawner_pass(
            old(grid)@,
            old(state).entities.positions(),
            old(state).spawners.targets(),
            old(state).spawners.times(),
            old(state).spawners.count as nat,
        ),
{
    let n = state.spawners.count as usize;
    let mut i: usize = 0;
    while i < n
        invariant
            n == old(state).spawners.count,
            state.wf(),
            grid.wf(),
            0 <= i <= n,
            state.spawners.count == n,
            state.spawners.spawn_x == old(state).spawners.spawn_x,
            state.spawners.spawn_y == old(state).spawners.spawn_y,
            state.spawners.spawn_i == old(state).spawners.spawn_i,
            (grid@, state.entities.positions(), state.spawners.times()) == spawner_pass(
                old(grid)@,
                old(state).entities.positions(),
                old(state).spawners.targets(),
                old(state).spawners.times(),
                i as nat,
            ),
        decreases n - i,
    {
        let ghost t0 = grid@;
        let ghost p0 = state.entities.positions();
        let ghost tm0 = state.spawners.times();
        assert(old(state).spawners.targets()[i as int] == state.spawners.spawn_i@[i as int]);
        assert(tm0[i as int] == state.spawners.spawn_time@[i as int]);
        let current_time = state.spawners.spawn_time[i];
        if current_time == 0 {
            if (state.entities.count as usize) < MAX_ENTITIES {
                let spawner_i = state.spawners.spawn_i[i];
                assert(placed(
                    state.spawners.spawn_x@[i as int],
                    state.spawners.spawn_y@[i as int],
                    state.spawners.spawn_i@[i as int],
                ));
                if !has_resource(grid.tiles[spawner_i]) {
                    let e = state.entities.count as usize;
                    state.entities.x[e] = state.spawners.spawn_x[i];
                    state.entities.y[e] = state.spawners.spawn_y[i];
                    state.entities.i[e] = spawner_i;
                    let tile = grid.tiles[spawner_i];
                    grid.tiles[spawner_i] = set_resource(tile);
                    state.entities.count = state.entities.count + 1;
                    proof {
                        assert(state.entities.positions() =~= p0.push(spawner_i as int));
                        assert forall|j: int| 0 <= j < 1000 && is_border(j) implies direction_spec(
                            #[trigger] grid@[j],
                        ) == Direction::Still by {
                            lemma_direction_independent(t0[j]);
                        }
                    }
                }
            }
            state.spawners.spawn_time[i] = SPAW_TIME;
        } else {
            state.spawners.spawn_time[i] = current_time - 1;
        }
        assert(state.spawners.times() =~= tm0.update(
            i as int,
            spawn_step(t0, p0, old(state).spawners.targets()[i as int], tm0[i as int]).2,
        ));
        i = i + 1;
    }
}

/// The target of the marker `tile` at column `x`, row `y` (cell `i`): whether
/// `tile` is a marker whose target lies in the grid, and the target's column,
/// row and cell.
fn marker_target_of(tile: u8, x: i8, y: i8, i: usize) -> (r: (bool, i8, i8, usize))
    requires
        0 <= x < 40,
        0 <= y < 25,
        i == y * 40 + x,
        i % 40 == x,
        i / 40 == y,
    ensures
        r.0 == (is_marker(tile) && target_in_grid(tile, i as int)),
        r.0 ==> r.3 == marker_target(tile, i as int) && placed(r.1, r.2, r.3),
{
    if tile == LEFT_SPAWNER && x >= 1 {
        (true, x - 1, y, i - 1)
    } else if tile == TOP_SPAWNER && y >= 1 {
        (true, x, y - 1, i - MAP_WIDTH as usize)
    } else if tile == RIGHT_SPAWNER && x <= 38 {
        (true, x + 1, y, i + 1)
    } else if tile == DOWN_SPAWNER && y <= 23 {
        (true, x, y + 1, i + MAP_WIDTH as usize)
    } else {
        (false, 0, 0, 0)
    }
}

/// Creates one spawner for each marker tile whose target cell lies in the
/// grid, scanning the grid column by column, while the table has room.
pub fn find_initial(grid: &Grid) -> (r: Spawners)
    requires
        grid.wf(),
    ensures
        r.wf(),
        r.entries() == spawner_scan(grid@, 1000),
{
    let mut spawners = Spawners::new();
    let mut x: i8 = 0;
    assert(spawners.entries() =~= Seq::<(int, u8)>::empty());
    while x < MAP_WIDTH as i8
        invariant
            0 <= x <= 40,
            spawners.wf(),
            spawners.entries() == spawner_scan(grid@, (x * 25) as nat),
        decreases 40 - x,
    {
        let mut y: i8 = 0;
        while y < MAP_HEIGHT as i8
            invariant
                0 <= x < 40,
                0 <= y <= 25,
                spawners.wf(),
                spawners.entries() == spawner_scan(grid@, (x * 25 + y) as nat),
            decreases 25 - y,
        {
            let i: usize = y as usize * MAP_WIDTH as usize + x as usize;
            let ghost n = x * 25 + y;
            let ghost s0 = spawners.entries();
            assert(scan_cell(n) == i) by {
                assert((x * 25 + y) / 25 == x && (x * 25 + y) % 25 == y) by (nonlinear_arith)
                    requires
                        0 <= x < 40,
                        0 <= y < 25,
                ;
            }
            assert(i % 40 == x && i / 40 == y) by (nonlinear_arith)
                requires
                    i == y * 40 + x,
                    0 <= x < 40,
                    0 <= y < 25,
            ;
            let tile = clear_animation_counter(grid.tiles[i]);
            let room = (spawners.count as usize) < MAX_SPAWNERS;
            let (found, sx, sy, si) = marker_target_of(tile, x, y, i);
            if found && room {
                let index = spawners.count as usize;
                spawners.spawn_x[index] = sx;
                spawners.spawn_y[index] = sy;
                spawners.spawn_i[index] = si;
                let time = (i & SPAW_TIME_MASK) as u8;
                assert(i & 31 == i % 32) by (bit_vector);
                spawners.spawn_time[index] = time;
                spawners.count = spawners.count + 1;
                proof {
                    assert(spawners.entries() =~= s0.push((si as int, time)));
                }
            }
            y = y + 1;
        }
        x = x + 1;
    }
    spawners
}

} // verus!
