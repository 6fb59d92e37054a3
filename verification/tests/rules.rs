use game_of_life::engine::GameOfLife;

fn grid(cells: Vec<Vec<u8>>) -> GameOfLife {
    GameOfLife::from_cells(cells, 1).unwrap()
}

fn snapshot(g: &GameOfLife) -> Vec<Vec<u8>> {
    let mut rows = Vec::new();
    for r in 0..g.row_count() {
        let mut row = Vec::new();
        for c in 0..g.column_count() {
            row.push(g.cell(r, c));
        }
        rows.push(row);
    }
    rows
}

#[test]
fn lone_cell_dies_of_underpopulation() {
    let mut g = grid(vec![vec![0, 0, 0], vec![0, 1, 0], vec![0, 0, 0]]);
    assert_eq!(g.apply_rule(1, 1), 0);
    g.change_state();
    assert_eq!(snapshot(&g), vec![vec![0, 0, 0], vec![0, 0, 0], vec![0, 0, 0]]);
}

#[test]
fn live_cell_with_one_neighbour_dies() {
    let mut g = grid(vec![vec![0, 0, 0], vec![0, 1, 1], vec![0, 0, 0]]);
    assert_eq!(g.apply_rule(1, 1), 0);
    assert_eq!(g.apply_rule(1, 2), 0);
    g.change_state();
    assert_eq!(snapshot(&g), vec![vec![0, 0, 0], vec![0, 0, 0], vec![0, 0, 0]]);
}

#[test]
fn dead_centre_with_eight_neighbours_stays_dead() {
    let mut g = grid(vec![vec![1, 1, 1], vec![1, 0, 1], vec![1, 1, 1]]);
    assert_eq!(g.apply_rule(1, 1), 0);
    g.change_state();
    assert_eq!(g.cell(1, 1), 0);
    assert_eq!(snapshot(&g), vec![vec![1, 0, 1], vec![0, 0, 0], vec![1, 0, 1]]);
}

#[test]
fn live_cell_with_four_or_more_neighbours_dies() {
    let four = grid(vec![vec![0, 1, 0], vec![1, 1, 1], vec![0, 1, 0]]);
    assert_eq!(four.apply_rule(1, 1), 0);
    let five = grid(vec![vec![1, 1, 0], vec![1, 1, 1], vec![0, 1, 0]]);
    assert_eq!(five.apply_rule(1, 1), 0);
    let eight = grid(vec![vec![1, 1, 1], vec![1, 1, 1], vec![1, 1, 1]]);
    assert_eq!(eight.apply_rule(1, 1), 0);
}

#[test]
fn live_cell_with_two_neighbours_survives() {
    // An "L": the corner cell touches both of the others.
    let mut g = grid(vec![vec![1, 1, 0], vec![1, 0, 0], vec![0, 0, 0]]);
    assert_eq!(g.apply_rule(0, 0), 1);
    g.change_state();
    assert_eq!(g.cell(0, 0), 1);
    // The fourth cell of the square is born, and the block then stays.
    assert_eq!(snapshot(&g), vec![vec![1, 1, 0], vec![1, 1, 0], vec![0, 0, 0]]);
    g.change_state();
    assert_eq!(snapshot(&g), vec![vec![1, 1, 0], vec![1, 1, 0], vec![0, 0, 0]]);
}

#[test]
fn live_cell_with_three_neighbours_survives() {
    let g = grid(vec![vec![1, 1, 0], vec![1, 1, 0], vec![0, 0, 0]]);
    assert_eq!(g.apply_rule(0, 0), 1);
    assert_eq!(g.apply_rule(0, 1), 1);
    assert_eq!(g.apply_rule(1, 0), 1);
    assert_eq!(g.apply_rule(1, 1), 1);
}

#[test]
fn dead_cell_with_three_neighbours_is_born() {
    let mut g = grid(vec![vec![0, 0, 0], vec![1, 1, 1], vec![0, 0, 0]]);
    assert_eq!(g.apply_rule(0, 1), 1);
    assert_eq!(g.apply_rule(2, 1), 1);
    g.change_state();
    assert_eq!(g.cell(0, 1), 1);
    assert_eq!(g.cell(2, 1), 1);
}

#[test]
fn dead_cell_without_three_neighbours_stays_dead() {
    let two = grid(vec![vec![1, 0, 1], vec![0, 0, 0], vec![0, 0, 0]]);
    assert_eq!(two.apply_rule(1, 1), 0);
    let four = grid(vec![vec![1, 0, 1], vec![0, 0, 0], vec![1, 0, 1]]);
    assert_eq!(four.apply_rule(1, 1), 0);
    let none = grid(vec![vec![0, 0, 0], vec![0, 0, 0], vec![0, 0, 0]]);
    assert_eq!(none.apply_rule(1, 1), 0);
}

#[test]
fn apply_rule_leaves_the_grid_as_it_is() {
    let g = grid(vec![vec![0, 0, 0], vec![1, 1, 1], vec![0, 0, 0]]);
    let before = snapshot(&g);
    for r in 0..3 {
        for c in 0..3 {
            let _ = g.apply_rule(r, c);
        }
    }
    assert_eq!(snapshot(&g), before);
}

#[test]
fn corner_counts_only_the_cells_next_to_it() {
    // The three live cells would touch (0, 0) if the grid wrapped around.
    let mut wrapped = grid(vec![
        vec![0, 0, 0, 1],
        vec![0, 0, 0, 0],
        vec![0, 0, 0, 0],
        vec![1, 0, 0, 1],
    ]);
    assert_eq!(wrapped.apply_rule(0, 0), 0);
    wrapped.change_state();
    assert_eq!(wrapped.cell(0, 0), 0);

    // The three cells of the two-by-two window bring the corner to life.
    let window = grid(vec![
        vec![0, 1, 0, 0],
        vec![1, 1, 0, 0],
        vec![0, 0, 0, 0],
        vec![0, 0, 0, 0],
    ]);
    assert_eq!(window.apply_rule(0, 0), 1);
}

#[test]
fn live_corner_follows_its_three_neighbours() {
    let alone = grid(vec![vec![1, 0, 0], vec![0, 0, 0], vec![0, 0, 1]]);
    assert_eq!(alone.apply_rule(0, 0), 0);
    let one = grid(vec![vec![1, 1, 0], vec![0, 0, 0], vec![0, 0, 0]]);
    assert_eq!(one.apply_rule(0, 0), 0);
    let two = grid(vec![vec![1, 1, 0], vec![0, 1, 0], vec![0, 0, 0]]);
    assert_eq!(two.apply_rule(0, 0), 1);
    let three = grid(vec![vec![1, 1, 0], vec![1, 1, 0], vec![0, 0, 0]]);
    assert_eq!(three.apply_rule(0, 0), 1);
    // Cells two steps away do not count, whatever their number.
    let far = grid(vec![vec![1, 0, 1], vec![0, 0, 1], vec![1, 1, 1]]);
    assert_eq!(far.apply_rule(0, 0), 0);
}

#[test]
fn edge_cell_counts_five_neighbours() {
    // (0, 1) has the neighbours (0, 0), (0, 2), (1, 0), (1, 1), (1, 2).
    let three = grid(vec![vec![1, 0, 1], vec![0, 1, 0], vec![1, 1, 1]]);
    assert_eq!(three.apply_rule(0, 1), 1);
    let five = grid(vec![vec![1, 1, 1], vec![1, 1, 1], vec![0, 0, 0]]);
    assert_eq!(five.apply_rule(0, 1), 0);
}

#[test]
fn single_cell_grid_dies_out() {
    let mut g = grid(vec![vec![1]]);
    assert_eq!(g.apply_rule(0, 0), 0);
    g.change_state();
    assert_eq!(snapshot(&g), vec![vec![0]]);
    g.change_state();
    assert_eq!(snapshot(&g), vec![vec![0]]);
}

#[test]
fn single_row_keeps_only_cells_between_two_live_ones() {
    let mut g = grid(vec![vec![1, 1, 1, 0, 1]]);
    g.change_state();
    assert_eq!(snapshot(&g), vec![vec![0, 1, 0, 0, 0]]);
}

#[test]
fn single_column_keeps_only_cells_between_two_live_ones() {
    let mut g = grid(vec![vec![1], vec![1], vec![1], vec![1]]);
    g.change_state();
    assert_eq!(snapshot(&g), vec![vec![0], vec![1], vec![1], vec![0]]);
}
