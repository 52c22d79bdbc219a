use life::game::GameState;
use life::generation::{compute_next, publish};
use life::life_matrix::LifeMatrix;

fn live_cells(g: &LifeMatrix) -> Vec<(i32, i32)> {
    let mut out = Vec::new();
    for y in 0..g.rows() as i32 {
        for x in 0..g.cols() as i32 {
            if g.get(x, y) {
                out.push((x, y));
            }
        }
    }
    out.sort();
    out
}

fn grid_with(cols: usize, rows: usize, cells: &[(i32, i32)]) -> LifeMatrix {
    let mut g = LifeMatrix::new(cols, rows);
    for &(x, y) in cells {
        g.set(x, y, true);
    }
    g
}

fn state_with(cols: usize, rows: usize, cells: &[(i32, i32)]) -> GameState {
    let mut s = GameState::new(cols, rows);
    for &(x, y) in cells {
        s.edit(x, y, true);
    }
    s
}

fn sorted(mut v: Vec<(i32, i32)>) -> Vec<(i32, i32)> {
    v.sort();
    v
}

#[test]
fn vertical_blinker_on_three_by_three() {
    let mut state = state_with(3, 3, &[(1, 0), (1, 1), (1, 2)]);
    state.tick();
    state.finalize_tick();
    assert_eq!(live_cells(state.data()), sorted(vec![(0, 1), (1, 1), (2, 1)]));
    state.tick();
    state.finalize_tick();
    assert_eq!(live_cells(state.data()), sorted(vec![(1, 0), (1, 1), (1, 2)]));
}

#[test]
fn lonely_cells_die() {
    let mut next = LifeMatrix::new(6, 6);
    // One cell alone, and a pair whose cells each have one neighbour.
    let current = grid_with(6, 6, &[(1, 1), (4, 4), (4, 5)]);
    compute_next(&current, &mut next);
    assert_eq!(live_cells(&next), Vec::<(i32, i32)>::new());
}

#[test]
fn square_is_stable() {
    for &(x, y) in [(0, 0), (2, 1), (4, 4)].iter() {
        let cells = [(x, y), (x + 1, y), (x, y + 1), (x + 1, y + 1)];
        let mut state = state_with(6, 6, &cells);
        for _ in 0..5 {
            state.tick();
            state.finalize_tick();
            assert_eq!(live_cells(state.data()), sorted(cells.to_vec()));
        }
    }
}

#[test]
fn horizontal_blinker_has_period_two() {
    let row = [(1, 2), (2, 2), (3, 2)];
    let column = [(2, 1), (2, 2), (2, 3)];
    let mut state = state_with(5, 5, &row);
    for _ in 0..3 {
        state.tick();
        state.finalize_tick();
        assert_eq!(live_cells(state.data()), sorted(column.to_vec()));
        state.tick();
        state.finalize_tick();
        assert_eq!(live_cells(state.data()), sorted(row.to_vec()));
    }
}

#[test]
fn birth_needs_exactly_three() {
    // An L of three cells: the fourth corner is born, and all three survive.
    let current = grid_with(4, 4, &[(1, 1), (2, 1), (1, 2)]);
    let mut next = LifeMatrix::new(4, 4);
    compute_next(&current, &mut next);
    assert_eq!(live_cells(&next), sorted(vec![(1, 1), (2, 1), (1, 2), (2, 2)]));
}

#[test]
fn overcrowded_cell_dies() {
    // A plus sign: the centre has four neighbours and dies.
    let current = grid_with(5, 5, &[(2, 1), (1, 2), (2, 2), (3, 2), (2, 3)]);
    let mut next = LifeMatrix::new(5, 5);
    compute_next(&current, &mut next);
    assert!(!next.get(2, 2));
    assert!(next.get(1, 1));
    assert!(next.get(2, 1));
}

#[test]
fn tick_leaves_current_untouched_and_overwrites_spare() {
    let mut state = state_with(4, 4, &[(0, 0), (1, 0), (2, 0)]);
    state.tick();
    assert_eq!(live_cells(state.data()), sorted(vec![(0, 0), (1, 0), (2, 0)]));
    state.tick();
    assert_eq!(live_cells(state.data()), sorted(vec![(0, 0), (1, 0), (2, 0)]));
    let (current, spare) = state.into_buffers();
    assert_eq!(live_cells(&current), sorted(vec![(0, 0), (1, 0), (2, 0)]));
    // At the top border the column cannot extend upward.
    assert_eq!(live_cells(&spare), sorted(vec![(1, 0), (1, 1)]));
}

#[test]
fn publish_shows_exactly_one_generation() {
    let start = [(1, 1), (2, 1), (3, 1), (0, 3), (1, 3), (3, 3), (2, 4)];
    let mut expected = LifeMatrix::new(6, 6);
    compute_next(&grid_with(6, 6, &start), &mut expected);

    let mut state = state_with(6, 6, &start);
    state.tick();
    state.finalize_tick();
    let shown: Vec<bool> = state.data().get_iter().copied().collect();
    let want: Vec<bool> = expected.get_iter().copied().collect();
    assert_eq!(shown, want);
    let (_, spare) = state.into_buffers();
    assert_eq!(live_cells(&spare), sorted(start.to_vec()));
}

#[test]
fn publish_swaps_buffers() {
    let mut current = grid_with(3, 3, &[(0, 0)]);
    let mut next = grid_with(3, 3, &[(2, 2)]);
    publish(&mut current, &mut next);
    assert_eq!(live_cells(&current), vec![(2, 2)]);
    assert_eq!(live_cells(&next), vec![(0, 0)]);
}

#[test]
fn randomize_keeps_size() {
    let mut grid = LifeMatrix::new(7, 5);
    grid.randomize();
    assert_eq!(grid.cols(), 7);
    assert_eq!(grid.rows(), 5);
    assert_eq!(grid.get_iter().count(), 35);
    assert!(!grid.get(7, 0));
    assert!(!grid.get(0, 5));
}
