use gomoku::{Board, BoardError, BoardGeometry, CellState, Chess, ChessColor, GridPos};

fn occupied_cells(board: &Board) -> usize {
    let cells = board.cells_per_row() * board.cells_per_row();
    (0..cells).filter(|&index| board.cell_at(index) != Some(CellState::Empty)).count()
}

#[test]
fn default_geometry_is_standard() {
    let board = Board::default();
    let expected = BoardGeometry {
        padding: 45,
        cell_size: 48,
        chess_size: 42,
        line_width: 2,
        grid_size: 674,
    };
    assert_eq!(board.geometry(), expected);
    assert_eq!(board.cells_per_row(), 15);
}

#[test]
fn new_derives_grid_size() {
    let board = Board::new(10, 20, 18, 3);
    assert_eq!(board.geometry().padding, 10);
    assert_eq!(board.geometry().cell_size, 20);
    assert_eq!(board.geometry().chess_size, 18);
    assert_eq!(board.geometry().line_width, 3);
    assert_eq!(board.geometry().grid_size, 14 * 20 + 3);
    let widest = Board::new(u32::MAX, u32::MAX, u32::MAX, u32::MAX);
    assert_eq!(widest.geometry().grid_size, 15 * (u32::MAX as u64));
}

#[test]
fn new_board_is_empty() {
    let board = Board::default();
    assert_eq!(board.chess_count(), 0);
    assert_eq!(board.last_chess(), None);
    assert_eq!(board.chess_at(0), None);
    for index in 0..225 {
        assert!(board.is_empty_at(index));
        assert_eq!(board.cell_at(index), Some(CellState::Empty));
    }
    assert_eq!(occupied_cells(&board), 0);
}

#[test]
fn index_beyond_board_is_not_empty() {
    let board = Board::default();
    assert!(board.valid_index(0));
    assert!(board.valid_index(224));
    assert!(!board.valid_index(225));
    assert!(!board.is_empty_at(225));
    assert!(!board.is_empty_at(usize::MAX));
    assert_eq!(board.cell_at(225), None);
}

#[test]
fn valid_pos_is_strict_at_the_last_line() {
    let board = Board::default();
    assert!(board.valid_pos(0, 0));
    assert!(board.valid_pos(14, 14));
    assert!(!board.valid_pos(15, 0));
    assert!(!board.valid_pos(0, 15));
    assert!(!board.valid_pos(15, 15));
}

#[test]
fn index_and_position_are_row_major() {
    let board = Board::default();
    assert_eq!(board.index_to_pos(0), GridPos { col: 0, row: 0 });
    assert_eq!(board.index_to_pos(16), GridPos { col: 1, row: 1 });
    assert_eq!(board.index_to_pos(20), GridPos { col: 5, row: 1 });
    assert_eq!(board.index_to_pos(224), GridPos { col: 14, row: 14 });
    assert_eq!(board.pos_to_index(GridPos { col: 1, row: 1 }), 16);
    assert_eq!(board.pos_to_index(GridPos { col: 5, row: 1 }), 20);
    assert_eq!(board.pos_to_index(GridPos { col: 14, row: 14 }), 224);
}

#[test]
fn index_and_position_round_trip() {
    let board = Board::default();
    for index in 0..225 {
        let pos = board.index_to_pos(index);
        assert!(board.valid_pos(pos.col, pos.row));
        assert_eq!(board.pos_to_index(pos), index);
    }
    for row in 0..15 {
        for col in 0..15 {
            let pos = GridPos { col, row };
            assert_eq!(board.index_to_pos(board.pos_to_index(pos)), pos);
        }
    }
}

#[test]
fn put_then_remove_round_trip() {
    let mut board = Board::default();
    for index in [0usize, 16, 100, 224] {
        assert!(board.is_empty_at(index));
        assert_eq!(board.put_chess(index, ChessColor::Black), Ok(()));
        assert!(!board.is_empty_at(index));
        assert_eq!(board.cell_at(index), Some(CellState::Black));
        let stone = Chess { pos: board.index_to_pos(index), color: ChessColor::Black };
        assert_eq!(board.last_chess(), Some(stone));
        assert_eq!(board.remove_last_chess(), Ok(stone));
        assert!(board.is_empty_at(index));
        assert_eq!(board.cell_at(index), Some(CellState::Empty));
        assert_eq!(board.chess_count(), 0);
    }
}

#[test]
fn put_white_shows_white() {
    let mut board = Board::default();
    assert_eq!(board.put_chess(20, ChessColor::White), Ok(()));
    assert_eq!(board.cell_at(20), Some(CellState::White));
    assert_eq!(
        board.chess_at(0),
        Some(Chess { pos: GridPos { col: 5, row: 1 }, color: ChessColor::White })
    );
}

#[test]
fn put_chess_out_of_range() {
    let mut board = Board::default();
    assert_eq!(board.put_chess(225, ChessColor::Black), Err(BoardError::OutOfRange));
    assert_eq!(board.put_chess(usize::MAX, ChessColor::White), Err(BoardError::OutOfRange));
    assert_eq!(board.chess_count(), 0);
    assert_eq!(occupied_cells(&board), 0);
}

#[test]
fn put_chess_on_occupied_cell() {
    let mut board = Board::default();
    assert_eq!(board.put_chess(7, ChessColor::White), Ok(()));
    assert_eq!(board.put_chess(7, ChessColor::Black), Err(BoardError::OccupiedCell));
    assert_eq!(board.put_chess(7, ChessColor::White), Err(BoardError::OccupiedCell));
    assert_eq!(board.cell_at(7), Some(CellState::White));
    assert_eq!(board.chess_count(), 1);
}

#[test]
fn remove_from_empty_history() {
    let mut board = Board::default();
    assert_eq!(board.remove_last_chess(), Err(BoardError::EmptyHistory));
    assert_eq!(board.chess_count(), 0);
    assert_eq!(board.put_chess(3, ChessColor::Black), Ok(()));
    assert!(board.remove_last_chess().is_ok());
    assert_eq!(board.remove_last_chess(), Err(BoardError::EmptyHistory));
}

#[test]
fn history_keeps_the_order_of_play() {
    let mut board = Board::default();
    let moves = [(16usize, ChessColor::Black), (20, ChessColor::White), (0, ChessColor::Black)];
    for (index, color) in moves {
        assert_eq!(board.put_chess(index, color), Ok(()));
    }
    assert_eq!(board.chess_count(), 3);
    for (nth, (index, color)) in moves.into_iter().enumerate() {
        assert_eq!(board.chess_at(nth), Some(Chess { pos: board.index_to_pos(index), color }));
    }
    assert_eq!(board.chess_at(3), None);
    assert_eq!(
        board.last_chess(),
        Some(Chess { pos: GridPos { col: 0, row: 0 }, color: ChessColor::Black })
    );
    assert_eq!(
        board.remove_last_chess(),
        Ok(Chess { pos: GridPos { col: 0, row: 0 }, color: ChessColor::Black })
    );
    assert_eq!(
        board.last_chess(),
        Some(Chess { pos: GridPos { col: 5, row: 1 }, color: ChessColor::White })
    );
    assert!(board.is_empty_at(0));
    assert!(!board.is_empty_at(16));
    assert!(!board.is_empty_at(20));
}

#[test]
fn occupancy_matches_history_after_every_operation() {
    let mut board = Board::default();
    assert_eq!(occupied_cells(&board), board.chess_count());
    let mut expected = 0;
    for step in 0..60usize {
        let index = (step * 37) % 225;
        let color = if step % 2 == 0 { ChessColor::Black } else { ChessColor::White };
        assert_eq!(board.put_chess(index, color), Ok(()));
        expected += 1;
        assert_eq!(board.chess_count(), expected);
        assert_eq!(occupied_cells(&board), expected);
        assert_eq!(board.put_chess(index, color), Err(BoardError::OccupiedCell));
        assert_eq!(occupied_cells(&board), board.chess_count());
        if step % 5 == 4 {
            assert!(board.remove_last_chess().is_ok());
            expected -= 1;
            assert_eq!(board.chess_count(), expected);
            assert_eq!(occupied_cells(&board), expected);
        }
    }
    board.clear();
    assert_eq!(occupied_cells(&board), 0);
    assert_eq!(board.chess_count(), 0);
}

#[test]
fn clear_empties_the_board_and_keeps_the_geometry() {
    let mut board = Board::new(10, 20, 18, 3);
    let geometry = board.geometry();
    for index in [1usize, 2, 3, 50, 224] {
        assert_eq!(board.put_chess(index, ChessColor::Black), Ok(()));
    }
    board.clear();
    assert_eq!(board.geometry(), geometry);
    assert_eq!(board.cells_per_row(), 15);
    assert_eq!(board.chess_count(), 0);
    assert_eq!(board.last_chess(), None);
    for index in 0..225 {
        assert!(board.is_empty_at(index));
    }
    assert_eq!(board.put_chess(1, ChessColor::White), Ok(()));
    assert_eq!(board.cell_at(1), Some(CellState::White));
}

#[test]
fn changes_ask_for_a_repaint() {
    let mut board = Board::default();
    assert!(board.take_redraw());
    assert!(!board.take_redraw());
    assert_eq!(board.put_chess(225, ChessColor::Black), Err(BoardError::OutOfRange));
    assert_eq!(board.remove_last_chess(), Err(BoardError::EmptyHistory));
    assert!(!board.take_redraw());
    assert_eq!(board.put_chess(5, ChessColor::Black), Ok(()));
    assert!(board.take_redraw());
    assert!(!board.take_redraw());
    assert_eq!(board.put_chess(5, ChessColor::White), Err(BoardError::OccupiedCell));
    assert!(!board.take_redraw());
    assert!(board.remove_last_chess().is_ok());
    assert!(board.take_redraw());
    board.clear();
    assert!(board.take_redraw());
    assert!(!board.take_redraw());
}
