use tileflow::entity::{find_initial, update_entites, Entities, MAX_ENTITIES};
use tileflow::grid::{Grid, GridError};
use tileflow::spawner::{self, update_spawners, Spawners, RIGHT_SPAWNER, SPAW_TIME};
use tileflow::state::State;

fn grid_with(cells: &[(u8, u8, u8)]) -> Grid {
    let mut g = Grid::new();
    for &(x, y, v) in cells {
        g.write_map(x, y, v);
    }
    g
}

#[test]
fn load_rejects_wrong_length() {
    assert_eq!(Grid::load(&[0u8; 999]).err(), Some(GridError::WrongLength));
    assert_eq!(Grid::load(&[]).err(), Some(GridError::WrongLength));
}

#[test]
fn load_rejects_directed_wall() {
    let mut blob = [0u8; 1000];
    blob[39] = 3;
    assert_eq!(Grid::load(&blob).err(), Some(GridError::DirectedWall));
}

#[test]
fn load_masks_animation_phase() {
    let mut blob = [0u8; 1000];
    blob[41] = 0xd3;
    blob[0] = 35;
    let g = Grid::load(&blob).ok().unwrap();
    assert_eq!(g.read_map(1, 1), 0x13);
    assert_eq!(g.read_map(0, 0), 35);
    assert_eq!(g.resource_count(), 1);
}

#[test]
fn read_and_write_by_row() {
    let mut g = Grid::new();
    g.write_map(7, 3, 0x12);
    assert_eq!(g.read_map(7, 3), 0x12);
    assert_eq!(g.tiles[3 * 40 + 7], 0x12);
    assert_eq!(g.read_map(8, 3), 0);
}

#[test]
fn find_initial_keeps_flags_and_scans_by_column() {
    let mut g = grid_with(&[(5, 2, 0x13), (3, 9, 0x11), (3, 4, 0x12)]);
    let e = find_initial(&mut g);
    assert_eq!(e.count, 3);
    assert_eq!((e.x[0], e.y[0], e.i[0]), (3, 4, 4 * 40 + 3));
    assert_eq!((e.x[1], e.y[1], e.i[1]), (3, 9, 9 * 40 + 3));
    assert_eq!((e.x[2], e.y[2], e.i[2]), (5, 2, 2 * 40 + 5));
    assert_eq!(g.resource_count(), 3);
}

#[test]
fn find_initial_drops_flags_beyond_capacity() {
    let mut g = Grid::new();
    for k in 0..70u8 {
        g.write_map(1 + k % 38, 1 + k / 38, 0x10);
    }
    let e = find_initial(&mut g);
    assert_eq!(e.count as usize, MAX_ENTITIES);
    assert_eq!(g.resource_count(), MAX_ENTITIES);
}

#[test]
fn straight_chain_carries_token_to_the_wall() {
    let mut g = grid_with(&[(10, 5, 0x13), (11, 5, 3), (12, 5, 3)]);
    let mut e = find_initial(&mut g);
    update_entites(&mut e, &mut g);
    assert_eq!((e.x[0], e.y[0], e.i[0]), (11, 5, 5 * 40 + 11));
    assert_eq!(g.read_map(10, 5), 3);
    assert_eq!(g.read_map(11, 5), 0x13);
    update_entites(&mut e, &mut g);
    update_entites(&mut e, &mut g);
    assert_eq!((e.x[0], e.y[0], e.i[0]), (13, 5, 5 * 40 + 13));
    for _ in 0..5 {
        update_entites(&mut e, &mut g);
        assert_eq!((e.x[0], e.y[0], e.i[0]), (13, 5, 5 * 40 + 13));
        assert_eq!(g.read_map(13, 5), 0x10);
        assert_eq!(g.resource_count(), 1);
    }
    assert_eq!(e.count, 1);
}

#[test]
fn moves_in_all_four_directions() {
    let mut g = grid_with(&[(10, 10, 0x11), (20, 10, 0x12), (30, 10, 0x14)]);
    let mut e = find_initial(&mut g);
    update_entites(&mut e, &mut g);
    assert_eq!((e.x[0], e.y[0]), (9, 10));
    assert_eq!((e.x[1], e.y[1]), (20, 9));
    assert_eq!((e.x[2], e.y[2]), (30, 11));
    assert_eq!(g.read_map(9, 10), 0x10);
    assert_eq!(g.read_map(20, 9), 0x10);
    assert_eq!(g.read_map(30, 11), 0x10);
}

#[test]
fn contention_goes_to_the_first_in_table_order() {
    let mut g = grid_with(&[(10, 5, 0x13), (12, 5, 0x11)]);
    let mut e = find_initial(&mut g);
    update_entites(&mut e, &mut g);
    assert_eq!((e.x[0], e.y[0]), (11, 5));
    assert_eq!((e.x[1], e.y[1]), (12, 5));
    assert_eq!(g.read_map(12, 5), 0x11);
    assert_eq!(g.resource_count(), 2);
}

#[test]
fn contention_follows_table_order_not_position() {
    let mut g = grid_with(&[(10, 5, 0x13), (12, 5, 0x11)]);
    let mut e = Entities::new();
    e.count = 2;
    e.x[0] = 12;
    e.y[0] = 5;
    e.i[0] = 5 * 40 + 12;
    e.x[1] = 10;
    e.y[1] = 5;
    e.i[1] = 5 * 40 + 10;
    update_entites(&mut e, &mut g);
    assert_eq!((e.x[0], e.y[0]), (11, 5));
    assert_eq!((e.x[1], e.y[1]), (10, 5));
    assert_eq!(g.read_map(10, 5), 0x13);
}

#[test]
fn blocked_token_waits_behind_another() {
    let mut g = grid_with(&[(10, 5, 0x13), (11, 5, 0x10)]);
    let mut e = find_initial(&mut g);
    update_entites(&mut e, &mut g);
    assert_eq!((e.x[0], e.x[1]), (10, 11));
    assert_eq!(g.read_map(10, 5), 0x13);
    assert_eq!(g.resource_count(), 2);
}

fn spawner_grid() -> Grid {
    grid_with(&[(0, 5, RIGHT_SPAWNER), (1, 5, 3), (2, 5, 3)])
}

#[test]
fn spawner_find_initial_targets_the_adjacent_cell() {
    let g = grid_with(&[(0, 5, RIGHT_SPAWNER), (39, 7, 33), (9, 0, 36), (9, 24, 34), (0, 9, 33)]);
    let s = spawner::find_initial(&g);
    assert_eq!(s.count, 4);
    assert_eq!((s.spawn_x[0], s.spawn_y[0], s.spawn_i[0]), (1, 5, 5 * 40 + 1));
    assert_eq!(s.spawn_time[0], ((5 * 40) & 31) as u8);
    assert_eq!((s.spawn_x[1], s.spawn_y[1], s.spawn_i[1]), (9, 1, 40 + 9));
    assert_eq!((s.spawn_x[2], s.spawn_y[2], s.spawn_i[2]), (9, 23, 23 * 40 + 9));
    assert_eq!((s.spawn_x[3], s.spawn_y[3], s.spawn_i[3]), (38, 7, 7 * 40 + 38));
    assert_eq!(s.spawn_time[3], ((7 * 40 + 39) & 31) as u8);
}

#[test]
fn spawner_at_zero_emits_one_token() {
    let mut g = spawner_grid();
    let mut st = State::bootstrap(&mut g);
    st.spawners.spawn_time[0] = 0;
    update_spawners(&mut st, &mut g);
    assert_eq!(st.entities.count, 1);
    assert_eq!((st.entities.x[0], st.entities.y[0], st.entities.i[0]), (1, 5, 5 * 40 + 1));
    assert_eq!(g.read_map(1, 5), 0x13);
    assert_eq!(st.spawners.spawn_time[0], SPAW_TIME);
    assert_eq!(st.spawners.spawn_time[0], 23);
}

#[test]
fn spawner_at_capacity_emits_nothing() {
    let mut g = spawner_grid();
    let mut st = State::bootstrap(&mut g);
    st.entities.count = MAX_ENTITIES as u8;
    for k in 0..MAX_ENTITIES {
        st.entities.x[k] = (k % 40) as i8;
        st.entities.y[k] = (10 + k / 40) as i8;
        st.entities.i[k] = 400 + k;
    }
    st.spawners.spawn_time[0] = 0;
    update_spawners(&mut st, &mut g);
    assert_eq!(st.entities.count as usize, MAX_ENTITIES);
    assert_eq!(g.read_map(1, 5), 3);
    assert_eq!(st.spawners.spawn_time[0], 23);
}

#[test]
fn spawner_with_occupied_target_skips() {
    let mut g = grid_with(&[(0, 5, RIGHT_SPAWNER), (1, 5, 0x13)]);
    let mut st = State::bootstrap(&mut g);
    st.spawners.spawn_time[0] = 0;
    update_spawners(&mut st, &mut g);
    assert_eq!(st.entities.count, 1);
    assert_eq!(st.spawners.spawn_time[0], 23);
}

#[test]
fn spawner_counts_down() {
    let mut g = spawner_grid();
    let mut st = State::bootstrap(&mut g);
    st.spawners.spawn_time[0] = 5;
    update_spawners(&mut st, &mut g);
    assert_eq!(st.spawners.spawn_time[0], 4);
    assert_eq!(st.entities.count, 0);
}

#[test]
fn spawners_new_is_empty() {
    let s = Spawners::new();
    assert_eq!(s.count, 0);
}

#[test]
fn flagged_cells_match_token_count_every_step() {
    let mut g = grid_with(&[
        (0, 5, RIGHT_SPAWNER),
        (1, 5, 3),
        (2, 5, 3),
        (3, 5, 3),
        (4, 5, 4),
        (4, 6, 4),
        (4, 7, 0x13),
        (5, 7, 3),
        (6, 7, 3),
        (20, 0, 36),
        (20, 1, 4),
        (20, 2, 4),
        (20, 3, 1),
        (19, 3, 1),
    ]);
    let mut st = State::bootstrap(&mut g);
    assert_eq!(g.resource_count(), st.entities.count as usize);
    for _ in 0..400 {
        st.step(&mut g);
        assert_eq!(g.resource_count(), st.entities.count as usize);
        assert!(st.entities.count as usize <= MAX_ENTITIES);
    }
    assert!(st.entities.count > 1);
}

#[test]
fn empty_grid_has_no_tokens_and_no_spawners() {
    let mut g = Grid::new();
    let mut st = State::bootstrap(&mut g);
    assert_eq!(st.entities.count, 0);
    assert_eq!(st.spawners.count, 0);
    st.step(&mut g);
    assert_eq!(st.entities.count, 0);
    assert_eq!(g.resource_count(), 0);
    assert!(g.tiles.iter().all(|&t| t == 0));
}

#[test]
fn spawned_token_then_travels() {
    let mut g = spawner_grid();
    let mut st = State::bootstrap(&mut g);
    st.spawners.spawn_time[0] = 0;
    st.step(&mut g);
    assert_eq!(st.entities.count, 1);
    assert_eq!(st.entities.x[0], 1);
    st.step(&mut g);
    assert_eq!(st.entities.x[0], 2);
    assert_eq!(st.spawners.spawn_time[0], 22);
    st.step(&mut g);
    st.step(&mut g);
    assert_eq!(st.entities.x[0], 3);
    assert_eq!(g.resource_count(), 1);
}
