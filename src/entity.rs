//! Resource tokens that travel along the directed tiles of the grid.
use crate::grid::{cell, flagged_cells, is_border, lemma_neighbor_in_grid, neighbor, walls_still, Grid, MAP_HEIGHT, MAP_WIDTH};
use crate::tile::{
    clear_resource, has_resource, is_dir_down, is_dir_left, is_dir_right, is_dir_up,
    lemma_direction_independent, lemma_resource_flag, resource_of, set_resource, direction_spec,
    Direction,
};
use vstd::prelude::*;

verus! {

/// Capacity of the entity table.
pub const MAX_ENTITIES: usize = 64;

/// The entity table: `count` tokens, each at column `x[k]`, row `y[k]`,
/// which is cell `i[k]` of the grid.
pub struct Entities {
    pub count: u8,
    pub x: [i8; 64],
    pub y: [i8; 64],
    pub i: [usize; 64],
}

/// Whether column `x`, row `y` is cell `i` of the grid.
pub open spec fn placed(x: i8, y: i8, i: usize) -> bool {
    &&& i < 1000
    &&& x == i % 40
    &&& y == i / 40
}

/// Whether the tokens at `pos` own exactly the flagged cells of `tiles`:
/// every flagged cell holds one token, and no two tokens share a cell.
pub open spec fn owns_flags(tiles: Seq<u8>, pos: Seq<int>) -> bool {
    &&& pos.no_duplicates()
    &&& flagged_cells(tiles) == pos.to_set()
}

/// The cell that a token at `p` would move to.
pub open spec fn target(tiles: Seq<u8>, p: int) -> int {
    neighbor(p, direction_spec(tiles[p]))
}

/// The cell where a token at `p` ends up after its move: the neighbour that
/// its tile points to if that is free, else `p`.
pub open spec fn moved_to(tiles: Seq<u8>, p: int) -> int {
    let t = target(tiles, p);
    if t != p && !resource_of(tiles[t]) {
        t
    } else {
        p
    }
}

/// The grid after the token at `p` moved: its flag leaves `p` and is set
/// where it ends up.
pub open spec fn step_tiles(tiles: Seq<u8>, p: int) -> Seq<u8> {
    let cleared = tiles.update(p, tiles[p] & 0xef);
    let q = moved_to(tiles, p);
    cleared.update(q, cleared[q] | 0x10)
}

/// The grid and the token positions after the first `k` tokens moved, in
/// table order.
pub open spec fn entity_pass(tiles: Seq<u8>, pos: Seq<int>, k: nat) -> (Seq<u8>, Seq<int>)
    decreases k,
{
    if k == 0 {
        (tiles, pos)
    } else {
        let (t, s) = entity_pass(tiles, pos, (k - 1) as nat);
        let p = s[k - 1];
        (step_tiles(t, p), s.update(k - 1, moved_to(t, p)))
    }
}

/// The cell visited `n`-th when the grid is scanned column by column.
pub open spec fn scan_cell(n: int) -> int {
    cell(n / 25, n % 25)
}

/// The place of cell `c` in the column-by-column scan.
pub open spec fn scan_index(c: int) -> int {
    (c % 40) * 25 + c / 40
}

/// The grid and the token positions after the first `n` cells of the
/// column-by-column scan: each flagged cell becomes a token while the table
/// has room, and loses its flag when it has none.
pub open spec fn initial_scan(tiles: Seq<u8>, n: nat) -> (Seq<u8>, Seq<int>)
    decreases n,
{
    if n == 0 {
        (tiles, Seq::empty())
    } else {
        let (t, s) = initial_scan(tiles, (n - 1) as nat);
        let c = scan_cell(n - 1);
        if !resource_of(t[c]) {
            (t, s)
        } else if s.len() < 64 {
            (t, s.push(c))
        } else {
            (t.update(c, t[c] & 0xef), s)
        }
    }
}

impl Entities {
    pub open spec fn wf(&self) -> bool {
        &&& self.count <= 64
        &&& forall|k: int|
            0 <= k < self.count ==> #[trigger] placed(self.x@[k], self.y@[k], self.i@[k])
    }

    /// The cells of the tokens, in table order.
    pub open spec fn positions(&self) -> Seq<int> {
        Seq::new(self.count as nat, |k: int| self.i@[k] as int)
    }

    /// An empty table.
    pub fn new() -> (r: Entities)
        ensures
            r.wf(),
            r.count == 0,
    {
        Entities { count: 0, x: [0i8; 64], y: [0i8; 64], i: [0usize; 64] }
    }
}

/// The scan order visits each cell once.
pub proof fn lemma_scan_order(n: int, c: int)
    ensures
        0 <= n < 1000 ==> 0 <= scan_cell(n) < 1000 && scan_index(scan_cell(n)) == n,
        0 <= c < 1000 ==> 0 <= scan_index(c) < 1000 && scan_cell(scan_index(c)) == c,
{
    if 0 <= n < 1000 {
        let a = n / 25;
        let b = n % 25;
        assert(scan_cell(n) == b * 40 + a);
        assert((b * 40 + a) % 40 == a && (b * 40 + a) / 40 == b) by (nonlinear_arith)
            requires
                0 <= a < 40,
                0 <= b < 25,
        ;
    }
    if 0 <= c < 1000 {
        let a = c % 40;
        let b = c / 40;
        assert((a * 25 + b) % 25 == b && (a * 25 + b) / 25 == a) by (nonlinear_arith)
            requires
                0 <= a < 40,
                0 <= b < 25,
        ;
    }
}

/// Moving one token keeps the outer ring without directions, and keeps each
/// flagged cell owned by exactly one token.
pub proof fn lemma_step_keeps_ownership(tiles: Seq<u8>, pos: Seq<int>, k: int)
    requires
        tiles.len() == 1000,
        walls_still(tiles),
        owns_flags(tiles, pos),
        0 <= k < pos.len(),
    ensures
        step_tiles(tiles, pos[k]).len() == 1000,
        walls_still(step_tiles(tiles, pos[k])),
        owns_flags(step_tiles(tiles, pos[k]), pos.update(k, moved_to(tiles, pos[k]))),
        0 <= moved_to(tiles, pos[k]) < 1000,
{
    let p = pos[k];
    assert(pos.to_set().contains(p));
    assert(flagged_cells(tiles).contains(p));
    lemma_neighbor_in_grid(tiles, p);
    let q = moved_to(tiles, p);
    let t2 = step_tiles(tiles, p);
    let pos2 = pos.update(k, q);
    lemma_resource_flag(tiles[p]);
    lemma_resource_flag(tiles[q]);
    assert forall|j: int| 0 <= j < 1000 && is_border(j) implies direction_spec(#[trigger] t2[j])
        == Direction::Still by {
        lemma_direction_independent(tiles[j]);
        lemma_direction_independent(tiles[j] & 0xef);
    }
    if q == p {
        assert(pos2 =~= pos);
        lemma_resource_flag(tiles[p] & 0xef);
        assert(flagged_cells(t2) =~= flagged_cells(tiles));
    } else {
        assert(!flagged_cells(tiles).contains(q));
        assert(!pos.contains(q));
        assert forall|a: int, b: int| 0 <= a < pos2.len() && 0 <= b < pos2.len() && a != b implies pos2[a]
            != pos2[b] by {
            if a != k && b != k {
                assert(pos[a] != pos[b]);
            } else if a == k {
                assert(pos.contains(pos[b]));
            } else {
                assert(pos.contains(pos[a]));
            }
        }
        assert(flagged_cells(t2) =~= flagged_cells(tiles).remove(p).insert(q));
        assert forall|c: int| pos2.to_set().contains(c) <==> pos.to_set().remove(p).insert(q).contains(c) by {
            if pos2.to_set().contains(c) {
                let j = choose|j: int| 0 <= j < pos2.len() && pos2[j] == c;
                if j != k {
                    assert(pos.contains(c));
                    assert(pos[j] != pos[k]);
                }
            }
            if pos.to_set().remove(p).insert(q).contains(c) {
                if c == q {
                    assert(pos2[k] == q);
                } else {
                    let j = choose|j: int| 0 <= j < pos.len() && pos[j] == c;
                    assert(j != k);
                    assert(pos2[j] == c);
                }
            }
        }
        assert(pos2.to_set() =~= pos.to_set().remove(p).insert(q));
    }
}

/// The entity pass keeps every flagged cell owned by exactly one token and
/// the outer ring without directions.
pub proof fn lemma_pass_keeps_ownership(tiles: Seq<u8>, pos: Seq<int>, k: nat)
    requires
        tiles.len() == 1000,
        walls_still(tiles),
        owns_flags(tiles, pos),
        k <= pos.len(),
    ensures
        entity_pass(tiles, pos, k).0.len() == 1000,
        entity_pass(tiles, pos, k).1.len() == pos.len(),
        walls_still(entity_pass(tiles, pos, k).0),
        owns_flags(entity_pass(tiles, pos, k).0, entity_pass(tiles, pos, k).1),
    decreases k,
{
    if k > 0 {
        lemma_pass_keeps_ownership(tiles, pos, (k - 1) as nat);
        let (t, s) = entity_pass(tiles, pos, (k - 1) as nat);
        lemma_step_keeps_ownership(t, s, k - 1);
    }
}

/// The bootstrap scan hands every flagged cell that it keeps to exactly one
/// token, and leaves the outer ring without directions.
pub proof fn lemma_initial_scan(tiles: Seq<u8>, n: nat)
    requires
        tiles.len() == 1000,
        walls_still(tiles),
        n <= 1000,
    ensures
        initial_scan(tiles, n).0.len() == 1000,
        initial_scan(tiles, n).1.len() <= 64,
        initial_scan(tiles, n).1.no_duplicates(),
        walls_still(initial_scan(tiles, n).0),
        forall|j: int|
            0 <= j < initial_scan(tiles, n).1.len() ==> {
                let c = #[trigger] initial_scan(tiles, n).1[j];
                &&& 0 <= c < 1000
                &&& scan_index(c) < n
                &&& resource_of(initial_scan(tiles, n).0[c])
            },
        forall|c: int|
            0 <= c < 1000 && scan_index(c) >= n ==> #[trigger] initial_scan(tiles, n).0[c]
                == tiles[c],
        forall|c: int|
            0 <= c < 1000 && scan_index(c) < n && resource_of(#[trigger] initial_scan(tiles, n).0[c])
                ==> initial_scan(tiles, n).1.contains(c),
    decreases n,
{
    if n > 0 {
        lemma_initial_scan(tiles, (n - 1) as nat);
        let (t, s) = initial_scan(tiles, (n - 1) as nat);
        let c0 = scan_cell(n - 1);
        lemma_scan_order(n - 1, 0);
        let (t2, s2) = initial_scan(tiles, n);
        assert forall|c: int| 0 <= c < 1000 && c != c0 implies scan_index(c) != n - 1 by {
            lemma_scan_order(0, c);
        }
        assert forall|j: int| 0 <= j < s.len() implies s[j] != c0 by {
            assert(scan_index(s[j]) < n - 1);
        }
        lemma_resource_flag(t[c0]);
        assert forall|c: int| 0 <= c < 1000 && is_border(c) implies direction_spec(#[trigger] t2[c])
            == Direction::Still by {
            lemma_direction_independent(t[c]);
        }
        assert forall|c: int|
            0 <= c < 1000 && scan_index(c) < n && resource_of(#[trigger] t2[c]) implies s2.contains(
            c,
        ) by {
            if c != c0 {
                lemma_scan_order(0, c);
                assert(s.contains(c));
                let j = choose|j: int| 0 <= j < s.len() && s[j] == c;
                assert(s2[j] == c);
            } else {
                assert(s2[s2.len() - 1] == c);
            }
        }
        assert forall|j: int| 0 <= j < s2.len() implies {
            let c = #[trigger] s2[j];
            &&& 0 <= c < 1000
            &&& scan_index(c) < n
            &&& resource_of(t2[c])
        } by {
            if j < s.len() {
                assert(s2[j] == s[j]);
            }
        }
    }
}

/// After the bootstrap scan each flagged cell is owned by exactly one token.
pub proof fn lemma_initial_scan_owns(tiles: Seq<u8>)
    requires
        tiles.len() == 1000,
        walls_still(tiles),
    ensures
        owns_flags(initial_scan(tiles, 1000).0, initial_scan(tiles, 1000).1),
{
    lemma_initial_scan(tiles, 1000);
    let (t, s) = initial_scan(tiles, 1000);
    assert forall|c: int| flagged_cells(t).contains(c) <==> s.to_set().contains(c) by {
        if flagged_cells(t).contains(c) {
            lemma_scan_order(0, c);
        }
        if s.to_set().contains(c) {
            let j = choose|j: int| 0 <= j < s.len() && s[j] == c;
            assert(0 <= s[j] < 1000);
        }
    }
    assert(flagged_cells(t) =~= s.to_set());
}

/// Moves every token one step along its tile, in table order: a token whose
/// neighbour is flagged stays where it is, and a token on a tile without a
/// direction never moves.
pub fn update_entites(entities: &mut Entities, grid: &mut Grid)
    requires
        old(entities).wf(),
        old(grid).wf(),
    ensures
        final(entities).wf(),
        final(grid).wf(),
        final(entities).count == old(entities).count,
        (final(grid)@, final(entities).positions()) == entity_pass(
            old(grid)@,
            old(entities).positions(),
            old(entities).count as nat,
        ),
{
    let n = entities.count as usize;
    let mut k: usize = 0;
    while k < n
        invariant
            n == old(entities).count,
            entities.count == n,
            entities.wf(),
            grid.wf(),
            0 <= k <= n,
            (grid@, entities.positions()) == entity_pass(
                old(grid)@,
                old(entities).positions(),
                k as nat,
            ),
        decreases n - k,
    {
        let ghost t0 = grid@;
        let ghost s0 = entities.positions();
        let mut x = entities.x[k];
        let mut y = entities.y[k];
        let mut map_i = entities.i[k];
        assert(placed(entities.x@[k as int], entities.y@[k as int], entities.i@[k as int]));
        let ghost p = map_i as int;
        assert(s0[k as int] == p);
        proof {
            lemma_neighbor_in_grid(t0, p);
            lemma_direction_independent(t0[p]);
            lemma_resource_flag(t0[p]);
        }
        let tile = clear_resource(grid.tiles[map_i]);
        grid.tiles[map_i] = tile;
        if is_dir_down(tile) {
            map_i = map_i + MAP_WIDTH as usize;
            if !has_resource(grid.tiles[map_i]) {
                y = y + 1;
                entities.y[k] = y;
                entities.i[k] = map_i;
            } else {
                map_i = map_i - MAP_WIDTH as usize;
            }
        } else if is_dir_up(tile) {
            map_i = map_i - MAP_WIDTH as usize;
            if !has_resource(grid.tiles[map_i]) {
                y = y - 1;
                entities.y[k] = y;
                entities.i[k] = map_i;
            } else {
                map_i = map_i + MAP_WIDTH as usize;
            }
        } else if is_dir_left(tile) {
            map_i = map_i - 1;
            if !has_resource(grid.tiles[map_i]) {
                x = x - 1;
                entities.x[k] = x;
                entities.i[k] = map_i;
            } else {
                map_i = map_i + 1;
            }
        } else if is_dir_right(tile) {
            map_i = map_i + 1;
            if !has_resource(grid.tiles[map_i]) {
                x = x + 1;
                entities.x[k] = x;
                entities.i[k] = map_i;
            } else {
                map_i = map_i - 1;
            }
        }
        assert(map_i == moved_to(t0, p));
        let new_tile = grid.tiles[map_i];
        grid.tiles[map_i] = set_resource(new_tile);
        proof {
            assert(grid@ =~= step_tiles(t0, p));
            assert(entities.positions() =~= s0.update(k as int, moved_to(t0, p)));
            assert(placed(entities.x@[k as int], entities.y@[k as int], entities.i@[k as int]));
            assert forall|j: int| 0 <= j < 1000 && is_border(j) implies direction_spec(
                #[trigger] grid@[j],
            ) == Direction::Still by {
                lemma_direction_independent(t0[j]);
                lemma_direction_independent(t0[j] & 0xef);
            }
        }
        k = k + 1;
    }
}

/// Creates one token for each flagged cell, scanning the grid column by
/// column; once the table is full, a flagged cell that finds no room loses
/// its flag.
pub fn find_initial(grid: &mut Grid) -> (r: Entities)
    requires
        old(grid).wf(),
    ensures
        r.wf(),
        final(grid).wf(),
        (final(grid)@, r.positions()) == initial_scan(old(grid)@, 1000),
        owns_flags(final(grid)@, r.positions()),
{
    let mut entities = Entities::new();
    let mut x: i8 = 0;
    assert(entities.positions() =~= Seq::<int>::empty());
    while x < MAP_WIDTH as i8
        invariant
            0 <= x <= 40,
            entities.wf(),
            grid.wf(),
            (grid@, entities.positions()) == initial_scan(old(grid)@, (x * 25) as nat),
        decreases 40 - x,
    {
        let mut y: i8 = 0;
        while y < MAP_HEIGHT as i8
            invariant
                0 <= x < 40,
                0 <= y <= 25,
                entities.wf(),
                grid.wf(),
                (grid@, entities.positions()) == initial_scan(old(grid)@, (x * 25 + y) as nat),
            decreases 25 - y,
        {
            let i: usize = y as usize * MAP_WIDTH as usize + x as usize;
            let ghost n = x * 25 + y;
            let ghost t0 = grid@;
            let ghost s0 = entities.positions();
            assert(scan_cell(n) == i) by {
                assert((x * 25 + y) / 25 == x && (x * 25 + y) % 25 == y) by (nonlinear_arith)
                    requires
                        0 <= x < 40,
                        0 <= y < 25,
                ;
            }
            let tile = grid.tiles[i];
            proof {
                lemma_resource_flag(tile);
                lemma_direction_independent(tile);
            }
            if has_resource(tile) {
                if (entities.count as usize) < MAX_ENTITIES {
                    let index = entities.count as usize;
                    entities.x[index] = x;
                    entities.y[index] = y;
                    entities.i[index] = i;
                    entities.count = entities.count + 1;
                    assert(entities.positions() =~= s0.push(i as int));
                } else {
                    grid.tiles[i] = clear_resource(tile);
                    assert(grid@ =~= t0.update(i as int, t0[i as int] & 0xef));
                    assert forall|j: int| 0 <= j < 1000 && is_border(j) implies direction_spec(
                        #[trigger] grid@[j],
                    ) == Direction::Still by {
                        if j != i {
                            assert(grid@[j] == t0[j]);
                        }
                    }
                }
            }
            y = y + 1;
        }
        x = x + 1;
    }
    proof {
        lemma_initial_scan_owns(old(grid)@);
    }
    entities
}

} // verus!
