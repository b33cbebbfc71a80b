use fives::{Direction, Gameboard, MAX_TOTAL};

fn board(rows: [[u64; 5]; 5]) -> Gameboard {
    let mut cells = [0u64; 25];
    for y in 0..5 {
        for x in 0..5 {
            cells[5 * y + x] = rows[y][x];
        }
    }
    Gameboard { cells, score: 0 }
}

fn rows(b: &Gameboard) -> [[u64; 5]; 5] {
    let mut r = [[0u64; 5]; 5];
    for y in 0..5 {
        for x in 0..5 {
            r[y][x] = b.get_val([x, y]);
        }
    }
    r
}

fn score_formula(b: &Gameboard) -> u64 {
    let sum: u64 = b.cells.iter().sum();
    let max: u64 = *b.cells.iter().max().unwrap();
    sum + 5 * max
}

#[test]
fn new_board_is_empty() {
    let b = Gameboard::new();
    assert!(b.cells.iter().all(|&v| v == 0));
    assert_eq!(b.score, 0);
    assert_eq!(b.get_score(), "0");
    assert_eq!(b.get_string([2, 3]), None);
}

#[test]
fn new_game_places_four_distinct_small_tiles() {
    for _ in 0..50 {
        let mut b = Gameboard::new();
        b.new_game();
        let occupied: Vec<u64> = b.cells.iter().copied().filter(|&v| v != 0).collect();
        assert_eq!(occupied.len(), 4);
        assert!(occupied.iter().all(|&v| v == 5 || v == 10));
        assert_eq!(b.score, 0);
    }
}

#[test]
fn new_game_clears_previous_board() {
    let mut b = board([[20, 20, 20, 20, 20]; 5]);
    b.score = 99;
    b.new_game();
    assert_eq!(b.cells.iter().filter(|&&v| v != 0).count(), 4);
    assert_eq!(b.score, 0);
}

#[test]
fn merge_equal_tiles_doubles() {
    let mut b = board([[10, 10, 0, 0, 0], [0; 5], [0; 5], [0; 5], [0; 5]]);
    assert!(b.merge([1, 0], [0, 0]));
    assert_eq!(b.get_val([0, 0]), 20);
    assert_eq!(b.get_val([1, 0]), 0);
}

#[test]
fn merge_into_empty_moves_tile() {
    let mut b = board([[0; 5], [0; 5], [0, 0, 5, 0, 0], [0; 5], [0; 5]]);
    assert!(b.merge([2, 2], [2, 1]));
    assert_eq!(b.get_val([2, 1]), 5);
    assert_eq!(b.get_val([2, 2]), 0);
}

#[test]
fn merge_unequal_tiles_rejected() {
    let mut b = board([[5, 10, 0, 0, 0], [0; 5], [0; 5], [0; 5], [0; 5]]);
    let before = b.cells;
    assert!(!b.merge([1, 0], [0, 0]));
    assert_eq!(b.cells, before);
    assert_eq!(b.get_val([0, 0]), 5);
    assert_eq!(b.get_val([1, 0]), 10);
}

#[test]
fn merge_from_empty_rejected() {
    let mut b = board([[5, 0, 0, 0, 0], [0; 5], [0; 5], [0; 5], [0; 5]]);
    let before = b.cells;
    assert!(!b.merge([1, 0], [0, 0]));
    assert_eq!(b.cells, before);
}

#[test]
fn left_move_merges_then_spawns_on_right_edge() {
    for _ in 0..50 {
        let mut b = board([[5, 5, 0, 0, 0], [0; 5], [0; 5], [0; 5], [0; 5]]);
        b.shift_board_left();
        let r = rows(&b);
        assert_eq!(r[0][0], 10);
        let mut spawned = 0;
        for y in 0..5 {
            for x in 0..5 {
                if (x, y) == (0, 0) {
                    continue;
                }
                if x == 4 && r[y][x] != 0 {
                    assert!(r[y][x] == 5 || r[y][x] == 10 || r[y][x] == 20);
                    spawned += 1;
                } else {
                    assert_eq!(r[y][x], 0);
                }
            }
        }
        assert_eq!(spawned, 1);
        assert_eq!(b.score, score_formula(&b));
    }
}

#[test]
fn failed_move_changes_nothing() {
    let mut b = board([[5, 10, 0, 0, 0], [20, 0, 0, 0, 0], [0; 5], [0; 5], [0; 5]]);
    let before = b.cells;
    b.shift_board_left();
    assert_eq!(b.cells, before);
    assert_eq!(b.score, 35 + 5 * 20);
}

#[test]
fn shifting_a_settled_board_again_changes_nothing() {
    let mut b = board([[0; 5], [0; 5], [0; 5], [0, 0, 0, 5, 0], [0, 0, 0, 10, 0]]);
    assert!(!b.shift_cells(Direction::Down));
    let before = b.cells;
    b.shift_board_down();
    assert_eq!(b.cells, before);
    b.shift_board_down();
    assert_eq!(b.cells, before);
}

#[test]
fn sweep_is_one_pass() {
    let mut b = board([[5, 5, 5, 0, 0], [0, 0, 0, 5, 5], [0; 5], [0; 5], [0; 5]]);
    assert!(b.shift_cells(Direction::Left));
    let r = rows(&b);
    assert_eq!(r[0], [10, 5, 0, 0, 0]);
    assert_eq!(r[1], [0, 0, 5, 5, 0]);
}

#[test]
fn sweep_right() {
    let mut b = board([[0, 0, 10, 10, 0], [0; 5], [0; 5], [0; 5], [0; 5]]);
    assert!(b.shift_cells(Direction::Right));
    assert_eq!(rows(&b)[0], [0, 0, 0, 10, 10]);
}

#[test]
fn sweep_up_and_down() {
    let mut b = board([[0; 5], [5, 0, 0, 0, 0], [5, 0, 0, 0, 0], [0; 5], [0; 5]]);
    assert!(b.shift_cells(Direction::Up));
    let r = rows(&b);
    assert_eq!([r[0][0], r[1][0], r[2][0], r[3][0], r[4][0]], [5, 5, 0, 0, 0]);
    let mut c = board([[20, 0, 0, 0, 0], [20, 0, 0, 0, 0], [0; 5], [0; 5], [0; 5]]);
    assert!(c.shift_cells(Direction::Down));
    let r = rows(&c);
    assert_eq!([r[0][0], r[1][0], r[2][0], r[3][0], r[4][0]], [0, 20, 20, 0, 0]);
}

#[test]
fn move_totals_score_exactly() {
    let mut b = board([[5, 10, 20, 0, 0], [0; 5], [0; 5], [0; 5], [0; 5]]);
    b.update_score();
    assert_eq!(b.score, 135);
    assert_eq!(b.get_score(), "135");
}

#[test]
fn empty_board_scores_zero() {
    let mut b = Gameboard::new();
    b.score = 7;
    b.update_score();
    assert_eq!(b.score, 0);
}

#[test]
fn event_without_direction_only_rescores() {
    let mut b = board([[5, 5, 0, 0, 0], [0; 5], [0; 5], [0; 5], [0; 5]]);
    let before = b.cells;
    b.event(None);
    assert_eq!(b.cells, before);
    assert_eq!(b.score, 10 + 25);
}

#[test]
fn event_with_direction_moves() {
    let mut b = board([[0; 5], [0; 5], [0; 5], [0; 5], [0, 0, 0, 40, 40]]);
    b.event(Some(Direction::Right));
    assert_eq!(b.get_val([4, 4]), 80);
    assert_eq!(b.get_val([3, 4]), 0);
    let spawned: Vec<u64> = (0..5).map(|y| b.get_val([0, y])).filter(|&v| v != 0).collect();
    assert_eq!(spawned.len(), 1);
    assert!(spawned[0] == 5 || spawned[0] == 10 || spawned[0] == 20);
    assert_eq!(b.score, score_formula(&b));
}

#[test]
fn cells_stay_multiples_of_five_through_play() {
    let keys = [Direction::Up, Direction::Left, Direction::Down, Direction::Right];
    let mut b = Gameboard::new();
    b.new_game();
    for i in 0..200 {
        assert!(b.room_for_move());
        b.event(Some(keys[i % 4]));
        assert!(b.cells.iter().all(|&v| v % 5 == 0));
        assert_eq!(b.score, score_formula(&b));
    }
}

#[test]
fn spawn_fills_the_only_free_edge_cell() {
    let mut b = board([
        [5, 5, 0, 0, 10],
        [5, 10, 5, 10, 20],
        [10, 5, 10, 5, 10],
        [5, 10, 5, 10, 20],
        [10, 5, 10, 5, 10],
    ]);
    b.shift_board_left();
    let r = rows(&b);
    assert_eq!(r[0][0], 10);
    assert_eq!(r[0][3], 10);
    assert!(r[0][4] == 5 || r[0][4] == 10 || r[0][4] == 20);
    assert_eq!(r[1], [5, 10, 5, 10, 20]);
}

#[test]
fn edge_vacancies_lists_empty_edge_lines() {
    let b = board([[0, 0, 0, 0, 5], [0; 5], [0, 0, 0, 0, 10], [0; 5], [0; 5]]);
    assert_eq!(b.edge_vacancies(Direction::Left), vec![1, 3, 4]);
    assert_eq!(b.edge_vacancies(Direction::Right), vec![0, 1, 2, 3, 4]);
    assert_eq!(b.edge_vacancies(Direction::Down), vec![0, 1, 2, 3]);
}

#[test]
fn vacancies_lists_empty_cells() {
    let mut b = Gameboard::new();
    b.set([1, 0], 5);
    b.set([4, 4], 10);
    let v = b.vacancies();
    assert_eq!(v.len(), 23);
    assert!(!v.contains(&1));
    assert!(!v.contains(&24));
}

#[test]
fn spawn_values_are_powers_of_two_times_five() {
    assert_eq!(Gameboard::spawn_tile_value(0), 5);
    assert_eq!(Gameboard::spawn_tile_value(1), 10);
    assert_eq!(Gameboard::spawn_tile_value(2), 20);
    let b = Gameboard::new();
    for _ in 0..50 {
        let v = b.new_val();
        assert!(v == 5 || v == 10 || v == 20);
    }
}

#[test]
fn get_string_shows_value() {
    let b = board([[0, 640, 0, 0, 0], [0; 5], [0; 5], [0; 5], [0; 5]]);
    assert_eq!(b.get_string([1, 0]), Some("640".to_string()));
    assert_eq!(b.get_string([0, 1]), None);
    assert_eq!(b.get_val([1, 0]), 640);
}

#[test]
fn set_and_line_cell_use_column_then_row() {
    let mut b = Gameboard::new();
    b.set([3, 1], 15);
    assert_eq!(b.cells[8], 15);
    assert_eq!(Gameboard::line_cell(Direction::Left, 1, 0), [0, 1]);
    assert_eq!(Gameboard::line_cell(Direction::Right, 1, 0), [4, 1]);
    assert_eq!(Gameboard::line_cell(Direction::Up, 2, 4), [2, 4]);
    assert_eq!(Gameboard::line_cell(Direction::Down, 2, 4), [2, 0]);
}

#[test]
fn room_for_move_near_the_bound() {
    assert!(Gameboard::new().room_for_move());
    let mut b = Gameboard::new();
    b.cells[0] = MAX_TOTAL - 1;
    assert!(!b.room_for_move());
}
