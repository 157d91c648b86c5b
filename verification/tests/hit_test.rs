use gomoku::{Board, BoardGeometry, GridPos, Message, CLICK_TOLERANCE_PERMILLE};

fn at(col: usize, row: usize) -> Option<GridPos> {
    Some(GridPos { col, row })
}

#[test]
fn hit_exactly_on_an_intersection() {
    let board = Board::default();
    assert_eq!(board.grid_pos(45 + 48, 45 + 48, 600), at(1, 1));
    assert_eq!(board.grid_pos(93, 93, 600), at(1, 1));
}

#[test]
fn miss_beyond_the_tolerance() {
    let board = Board::default();
    assert_eq!(board.grid_pos(93 + 30, 93, 600), None);
}

#[test]
fn first_intersection_is_rejected() {
    let board = Board::default();
    assert_eq!(board.grid_pos(45, 45, 600), None);
}

#[test]
fn first_row_and_column_are_never_hit() {
    let board = Board::default();
    for line in 0..15i64 {
        assert_eq!(board.grid_pos(45, 45 + 48 * line, 600), None);
        assert_eq!(board.grid_pos(45 + 48 * line, 45, 600), None);
    }
    assert_eq!(board.grid_pos(45 + 10, 93, 1000), None);
    assert_eq!(board.grid_pos(93, 45 + 23, 1000), None);
}

#[test]
fn every_inner_intersection_is_hit_on_the_spot() {
    let board = Board::default();
    for row in 1..15usize {
        for col in 1..15usize {
            let x = 45 + 48 * col as i64;
            let y = 45 + 48 * row as i64;
            assert_eq!(board.grid_pos(x, y, 600), at(col, row));
            assert_eq!(board.grid_pos(x, y, 0), at(col, row));
        }
    }
}

#[test]
fn last_line_is_hit_and_the_one_after_is_not() {
    let board = Board::default();
    let last = 45 + 48 * 14;
    let after = 45 + 48 * 15;
    assert_eq!(board.grid_pos(last, last, 600), at(14, 14));
    assert_eq!(board.grid_pos(last, 93, 600), at(14, 1));
    assert_eq!(board.grid_pos(after, 93, 600), None);
    assert_eq!(board.grid_pos(93, after, 600), None);
    assert_eq!(board.grid_pos(after, after, 600), None);
    assert_eq!(board.grid_pos(last + 14, 93, 600), at(14, 1));
    assert_eq!(board.grid_pos(last + 24, 93, 1000), None);
}

#[test]
fn tolerance_radius_is_three_tenths_of_the_spacing() {
    let board = Board::default();
    // 0.6 * 48 / 2 = 14.4
    assert_eq!(board.grid_pos(93 + 14, 93, 600), at(1, 1));
    assert_eq!(board.grid_pos(93 - 14, 93, 600), at(1, 1));
    assert_eq!(board.grid_pos(93, 93 + 14, 600), at(1, 1));
    assert_eq!(board.grid_pos(93, 93 - 14, 600), at(1, 1));
    assert_eq!(board.grid_pos(93 + 15, 93, 600), None);
    assert_eq!(board.grid_pos(93 - 15, 93, 600), None);
    assert_eq!(board.grid_pos(93, 93 + 15, 600), None);
    assert_eq!(board.grid_pos(93, 93 - 15, 600), None);
}

#[test]
fn tolerance_is_a_disc_not_a_square() {
    let board = Board::default();
    // 10^2 + 10^2 = 200 <= 14.4^2 = 207.36 < 11^2 + 10^2 = 221
    assert_eq!(board.grid_pos(93 + 10, 93 + 10, 600), at(1, 1));
    assert_eq!(board.grid_pos(93 + 11, 93 + 10, 600), None);
    assert_eq!(board.grid_pos(93 - 10, 93 + 11, 600), None);
    assert_eq!(board.grid_pos(93 + 14, 93 + 3, 600), at(1, 1));
    assert_eq!(board.grid_pos(93 + 14, 93 + 4, 600), None);
}

#[test]
fn tolerance_bound_is_inclusive() {
    // With a spacing of 50 and a tolerance of 0.6 the radius is exactly 15.
    let board = Board::new(0, 50, 40, 2);
    assert_eq!(board.grid_pos(50 + 15, 50, 600), at(1, 1));
    assert_eq!(board.grid_pos(50 + 16, 50, 600), None);
    assert_eq!(board.grid_pos(50 + 9, 50 + 12, 600), at(1, 1));
    assert_eq!(board.grid_pos(50 + 9, 50 + 13, 600), None);
}

#[test]
fn zero_tolerance_accepts_only_the_spot() {
    let board = Board::default();
    assert_eq!(board.grid_pos(93, 93, 0), at(1, 1));
    assert_eq!(board.grid_pos(94, 93, 0), None);
    assert_eq!(board.grid_pos(93, 92, 0), None);
}

#[test]
fn half_way_goes_to_the_further_line() {
    let board = Board::default();
    // 45 + 72 is half-way between the lines 1 and 2.
    assert_eq!(board.grid_pos(45 + 72, 93, 1000), at(2, 1));
    assert_eq!(board.grid_pos(45 + 71, 93, 1000), at(1, 1));
    assert_eq!(board.grid_pos(93, 45 + 72, 1000), at(1, 2));
    assert_eq!(board.grid_pos(45 + 72, 93, 999), None);
    // Half-way between the lines 0 and 1 snaps to line 1.
    assert_eq!(board.grid_pos(45 + 24, 93, 1000), at(1, 1));
    assert_eq!(board.grid_pos(45 + 23, 93, 1000), None);
}

#[test]
fn wide_tolerance_still_snaps_to_the_nearest_line() {
    let board = Board::default();
    assert_eq!(board.grid_pos(93 + 20, 93 + 20, 2000), at(1, 1));
    assert_eq!(board.grid_pos(93 + 25, 93 + 20, 2000), at(2, 1));
    assert_eq!(board.grid_pos(93 + 24, 93 + 24, u32::MAX), at(2, 2));
}

#[test]
fn pointer_off_the_surface_hits_nothing() {
    let board = Board::default();
    assert_eq!(board.grid_pos(-3, 93, 600), None);
    assert_eq!(board.grid_pos(93, -3, 600), None);
    assert_eq!(board.grid_pos(-93, -93, 600), None);
    assert_eq!(board.grid_pos(i64::MIN, i64::MIN, u32::MAX), None);
    assert_eq!(board.grid_pos(i64::MAX, i64::MAX, u32::MAX), None);
    assert_eq!(board.grid_pos(i64::MAX, 93, 600), None);
    assert_eq!(board.grid_pos(93, i64::MIN, 600), None);
}

#[test]
fn zero_spacing_hits_nothing() {
    let board = Board::new(45, 0, 42, 2);
    assert_eq!(board.grid_pos(45, 45, 600), None);
    assert_eq!(board.grid_pos(46, 46, 600), None);
    assert_eq!(board.grid_pos(0, 0, u32::MAX), None);
}

#[test]
fn other_measurements_move_the_grid() {
    let board = Board::new(10, 20, 18, 3);
    assert_eq!(board.grid_pos(10 + 20 * 3, 10 + 20 * 7, 600), at(3, 7));
    assert_eq!(board.grid_pos(10 + 20 * 3 + 6, 10 + 20 * 7, 600), at(3, 7));
    assert_eq!(board.grid_pos(10 + 20 * 3 + 7, 10 + 20 * 7, 600), None);
    assert_eq!(board.grid_pos(93, 93, 600), at(4, 4));
    assert_eq!(board.grid_pos(100, 93, 600), None);
}

#[test]
fn largest_measurements_do_not_overflow() {
    let board = Board::new(u32::MAX, u32::MAX, u32::MAX, u32::MAX);
    let unit = u32::MAX as i64;
    assert_eq!(board.grid_pos(unit + unit, unit + 2 * unit, u32::MAX), at(1, 2));
    assert_eq!(board.grid_pos(unit + 14 * unit, unit + 14 * unit, 0), at(14, 14));
    assert_eq!(board.grid_pos(unit + 15 * unit, unit + unit, 600), None);
    assert_eq!(board.grid_pos(unit + unit + unit / 2, unit + unit, 1000), at(1, 1));
    assert_eq!(board.grid_pos(unit + unit + unit / 2 + 1, unit + unit, 1000), at(2, 1));
}

#[test]
fn locate_agrees_with_grid_pos() {
    let board = Board::default();
    let geometry: BoardGeometry = board.geometry();
    for y in (0..800i64).step_by(7) {
        for x in (0..800i64).step_by(5) {
            assert_eq!(geometry.locate(15, x, y, 600), board.grid_pos(x, y, 600));
        }
    }
}

#[test]
fn hits_are_the_points_within_the_tolerance_of_an_inner_intersection() {
    let board = Board::default();
    for y in 0..200i64 {
        for x in 0..200i64 {
            let mut expected = None;
            for row in 1..15usize {
                for col in 1..15usize {
                    let dx = x - 45 - 48 * col as i64;
                    let dy = y - 45 - 48 * row as i64;
                    if 4_000_000 * (dx * dx + dy * dy) <= (48 * 600) * (48 * 600) {
                        assert_eq!(expected, None);
                        expected = at(col, row);
                    }
                }
            }
            assert_eq!(board.grid_pos(x, y, 600), expected);
        }
    }
}

#[test]
fn press_becomes_a_click_on_the_cell() {
    let board = Board::default();
    assert_eq!(CLICK_TOLERANCE_PERMILLE, 600);
    assert_eq!(board.click_message(93, 93), Some(Message::ClickBoard(16)));
    assert_eq!(board.click_message(45 + 48 * 5 + 3, 93 - 2), Some(Message::ClickBoard(20)));
    assert_eq!(board.click_message(45 + 48 * 14, 45 + 48 * 14), Some(Message::ClickBoard(224)));
    assert_eq!(board.click_message(93 + 30, 93), None);
    assert_eq!(board.click_message(45, 45), None);
    assert_eq!(board.click_message(45 + 48 * 15, 93), None);
}

#[test]
fn pointer_shows_where_a_press_would_click() {
    let board = Board::default();
    assert!(board.is_clickable(93, 93));
    assert!(board.is_clickable(93 + 14, 93));
    assert!(!board.is_clickable(93 + 15, 93));
    assert!(!board.is_clickable(45, 45));
    assert!(!board.is_clickable(-1, -1));
    for y in (0..800i64).step_by(3) {
        for x in (0..800i64).step_by(3) {
            assert_eq!(board.is_clickable(x, y), board.click_message(x, y).is_some());
        }
    }
}
