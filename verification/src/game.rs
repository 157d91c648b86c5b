//! Whose turn it is, and how a click on the board changes that.

use vstd::prelude::*;
use crate::board::Board;
use crate::cell::{CellState, ChessColor};
use crate::geometry::{BoardGeometry, CELLS_PER_ROW};
use crate::message::Message;
use crate::model::{occupied_count, BoardModel};

verus! {

/// The turn: a colour is either awaited or has just moved.
///
/// `CheckBlack` and `CheckWhite` stand between putting a stone down and
/// passing the turn on; they are where a test for the end of the game would
/// go. An update passes through them in one go.
#[derive(Clone, Copy, Debug, PartialEq, Eq, Structural)]
pub enum GameState {
    WaitBlack,
    WaitWhite,
    CheckBlack,
    CheckWhite,
}

impl GameState {
    /// The colour whose stone is awaited, if any is.
    pub open spec fn mover(self) -> Option<ChessColor> {
        match self {
            GameState::WaitBlack => Some(ChessColor::Black),
            GameState::WaitWhite => Some(ChessColor::White),
            _ => None,
        }
    }

    /// The state right after a stone of `color` is put down.
    pub open spec fn moved(color: ChessColor) -> GameState {
        match color {
            ChessColor::Black => GameState::CheckBlack,
            ChessColor::White => GameState::CheckWhite,
        }
    }

    /// The state an update ends in: after a move the other colour is awaited;
    /// a state that awaits a colour stays.
    pub open spec fn settled(self) -> GameState {
        match self {
            GameState::CheckBlack => GameState::WaitWhite,
            GameState::CheckWhite => GameState::WaitBlack,
            _ => self,
        }
    }

    /// Whether a colour is awaited.
    pub open spec fn is_waiting(self) -> bool {
        self == GameState::WaitBlack || self == GameState::WaitWhite
    }
}

/// What a game stands for: its board and its turn.
pub struct GameModel {
    pub board: BoardModel,
    pub state: GameState,
}

impl GameModel {
    /// A game at its start: an empty board, Black to move.
    pub open spec fn initial(geometry: BoardGeometry, cells_per_row: nat) -> GameModel {
        GameModel {
            board: BoardModel::empty(geometry, cells_per_row),
            state: GameState::WaitBlack,
        }
    }

    /// Consistency of the game: that of its board.
    pub open spec fn wf(self) -> bool {
        self.board.wf()
    }

    /// Whether a click on the cell `index` puts a stone down: a colour is
    /// awaited and the cell is an empty cell of the board.
    pub open spec fn accepts(self, index: int) -> bool {
        self.state.mover().is_some() && self.board.is_empty_at(index)
    }

    /// The game right after a click on the cell `index`, before the turn is
    /// passed on. An accepted click puts a stone of the awaited colour there
    /// and leaves the game checking that move; any other click changes
    /// nothing.
    pub open spec fn place(self, index: int) -> GameModel {
        if self.accepts(index) {
            let color = self.state.mover().unwrap();
            GameModel { board: self.board.put(index, color), state: GameState::moved(color) }
        } else {
            self
        }
    }

    /// The game after a checked move is let stand: the other colour is
    /// awaited. A game that awaits a colour stays as it is.
    pub open spec fn settle(self) -> GameModel {
        GameModel { state: self.state.settled(), ..self }
    }

    /// The game after a click on the cell `index`. An accepted click puts a
    /// stone of the awaited colour there and passes the turn; any other
    /// click changes nothing.
    pub open spec fn click(self, index: int) -> GameModel {
        if self.accepts(index) {
            self.place(index).settle()
        } else {
            self
        }
    }

    /// The game after `message` is handled.
    pub open spec fn step(self, message: Message) -> GameModel {
        match message {
            Message::ClickBoard(index) => self.click(index as int),
        }
    }

    /// The game after a reset: the same measurements, no stones, Black to
    /// move.
    pub open spec fn cleared(self) -> GameModel {
        GameModel { board: self.board.cleared(), state: GameState::WaitBlack }
    }

    /// The game after the cells `clicks` are clicked one after the other.
    pub open spec fn play(self, clicks: Seq<int>) -> GameModel
        decreases clicks.len(),
    {
        if clicks.len() == 0 {
            self
        } else {
            self.play(clicks.drop_last()).click(clicks.last())
        }
    }

    /// Whether turn and history agree: a colour is awaited, it is Black
    /// exactly after an even number of stones, and the stones of the history
    /// are Black and White in turn, Black first.
    pub open spec fn in_turn(self) -> bool {
        &&& self.state.is_waiting()
        &&& self.state == GameState::WaitBlack <==> self.board.history.len() % 2 == 0
        &&& forall|j: int|
            0 <= j < self.board.history.len() ==> (#[trigger] self.board.history[j]).color == if j
                % 2 == 0 {
                ChessColor::Black
            } else {
                ChessColor::White
            }
    }

    /// A click keeps the game consistent, keeps the board's measurements,
    /// and keeps turn and history in agreement.
    pub proof fn lemma_click_keeps_invariants(self, index: int)
        requires
            self.wf(),
        ensures
            self.click(index).wf(),
            self.click(index).board.geometry == self.board.geometry,
            self.click(index).board.cells_per_row == self.board.cells_per_row,
            self.state.is_waiting() ==> self.click(index).state.is_waiting(),
            self.in_turn() ==> self.click(index).in_turn(),
    {
        if self.accepts(index) {
            self.board.lemma_put_wf(index, self.state.mover().unwrap());
        }
    }

    /// A click on a cell that holds a stone, or beyond the board, changes
    /// neither the board nor the turn.
    pub proof fn lemma_click_on_occupied_changes_nothing(self, index: int)
        requires
            !self.board.is_empty_at(index),
        ensures
            self.click(index) == self,
    {
    }

    /// While a move is being checked every click is dropped.
    pub proof fn lemma_click_while_checking_changes_nothing(self, index: int)
        requires
            !self.state.is_waiting(),
        ensures
            self.click(index) == self,
    {
    }

    /// Turns alternate. With Black to move, clicks on three different empty
    /// cells put down a black stone, a white one, and a black one again, and
    /// the turn passes each time.
    pub proof fn lemma_turns_alternate(self, first: int, second: int, third: int)
        requires
            self.wf(),
            self.state == GameState::WaitBlack,
            self.board.is_empty_at(first),
            self.board.is_empty_at(second),
            self.board.is_empty_at(third),
            first != second,
            first != third,
            second != third,
        ensures
            ({
                let one = self.click(first);
                let two = one.click(second);
                let three = two.click(third);
                &&& one.state == GameState::WaitWhite
                &&& one.board == self.board.put(first, ChessColor::Black)
                &&& two.state == GameState::WaitBlack
                &&& two.board == self.board.put(first, ChessColor::Black).put(
                    second,
                    ChessColor::White,
                )
                &&& two.board.cells[first] == CellState::Black
                &&& two.board.cells[second] == CellState::White
                &&& two.board.history.len() == self.board.history.len() + 2
                &&& three.state == GameState::WaitWhite
                &&& three.board == two.board.put(third, ChessColor::Black)
                &&& three.board.cells[third] == CellState::Black
                &&& three.board.history.len() == self.board.history.len() + 3
            }),
    {
    }

    /// Whatever is clicked, in whatever order, from a consistent game: the
    /// game stays consistent, the measurements stay, and the number of
    /// occupied cells equals the number of stones in the history.
    pub proof fn lemma_play_keeps_invariants(self, clicks: Seq<int>)
        requires
            self.wf(),
        ensures
            self.play(clicks).wf(),
            self.play(clicks).board.geometry == self.board.geometry,
            self.play(clicks).board.cells_per_row == self.board.cells_per_row,
            occupied_count(self.play(clicks).board.cells) == self.play(
                clicks,
            ).board.history.len(),
            self.state.is_waiting() ==> self.play(clicks).state.is_waiting(),
            self.in_turn() ==> self.play(clicks).in_turn(),
        decreases clicks.len(),
    {
        if clicks.len() > 0 {
            self.lemma_play_keeps_invariants(clicks.drop_last());
            self.play(clicks.drop_last()).lemma_click_keeps_invariants(clicks.last());
        }
        self.play(clicks).board.lemma_history_matches_occupancy();
    }

    /// A game at its start is consistent, and turn and history agree in it.
    pub proof fn lemma_initial_invariants(geometry: BoardGeometry, cells_per_row: nat)
        requires
            0 < cells_per_row,
            cells_per_row * cells_per_row <= usize::MAX,
            geometry.wf(cells_per_row),
        ensures
            GameModel::initial(geometry, cells_per_row).wf(),
            GameModel::initial(geometry, cells_per_row).in_turn(),
    {
        BoardModel::lemma_empty_wf(geometry, cells_per_row);
    }

    /// A reset after any clicks gives the game at its start: every cell is
    /// empty, the history is empty, and Black is to move.
    pub proof fn lemma_cleared_is_initial(self, clicks: Seq<int>)
        requires
            self.wf(),
        ensures
            self.play(clicks).cleared() == GameModel::initial(
                self.board.geometry,
                self.board.cells_per_row,
            ),
            self.play(clicks).cleared().wf(),
            self.play(clicks).cleared().state == GameState::WaitBlack,
            self.play(clicks).cleared().board.history.len() == 0,
            forall|i: int|
                self.board.valid_index(i) ==> self.play(clicks).cleared().board.is_empty_at(i),
    {
        self.lemma_play_keeps_invariants(clicks);
        self.play(clicks).board.lemma_cleared_is_empty();
    }
}

/// One session of the game: a board and the turn.
pub struct GomokuGame {
    board: Board,
    state: GameState,
}

impl View for GomokuGame {
    type V = GameModel;

    closed spec fn view(&self) -> GameModel {
        GameModel { board: self.board@, state: self.state }
    }
}

impl GomokuGame {
    /// Consistency of the game; see [`GameModel::wf`].
    pub open spec fn wf(&self) -> bool {
        self@.wf()
    }

    /// Whether what is painted of the stones is out of date.
    pub closed spec fn redraw_pending(&self) -> bool {
        self.board.redraw_pending()
    }

    /// A game on the standard board, Black to move.
    pub fn new() -> (res: GomokuGame)
        ensures
            res.wf(),
            res@ == GameModel::initial(BoardGeometry::standard(), CELLS_PER_ROW as nat),
            res.redraw_pending(),
    {
        GomokuGame { board: Board::default(), state: GameState::WaitBlack }
    }

    /// A game on an empty board with the given measurements, Black to move.
    pub fn with_geometry(padding: u32, cell_size: u32, chess_size: u32, line_width: u32) -> (res:
        GomokuGame)
        ensures
            res.wf(),
            res@ == GameModel::initial(res@.board.geometry, CELLS_PER_ROW as nat),
            res@.board.geometry.padding == padding,
            res@.board.geometry.cell_size == cell_size,
            res@.board.geometry.chess_size == chess_size,
            res@.board.geometry.line_width == line_width,
            res.redraw_pending(),
    {
        GomokuGame {
            board: Board::new(padding, cell_size, chess_size, line_width),
            state: GameState::WaitBlack,
        }
    }

    /// The turn.
    pub fn state(&self) -> (res: GameState)
        ensures
            res == self@.state,
    {
        self.state
    }

    /// The board, for queries.
    pub fn board(&self) -> (res: &Board)
        ensures
            res@ == self@.board,
            res.redraw_pending() == self.redraw_pending(),
    {
        &self.board
    }

    /// Puts a stone of the awaited colour on the cell `index` and leaves the
    /// game checking that move, so that the caller can look at the board
    /// before the turn is passed on with [`GomokuGame::settle`].
    ///
    /// Returns whether a stone was put: a colour was awaited and the cell
    /// was an empty cell of the board. A repaint is then asked for.
    /// Otherwise the game is left as it was.
    pub fn place(&mut self, index: usize) -> (placed: bool)
        requires
            old(self).wf(),
        ensures
            final(self).wf(),
            placed == old(self)@.accepts(index as int),
            final(self)@ == old(self)@.place(index as int),
            final(self).redraw_pending() == (old(self).redraw_pending() || placed),
    {
        if !self.board.is_empty_at(index) {
            return false;
        }
        let color = match self.state {
            GameState::WaitBlack => ChessColor::Black,
            GameState::WaitWhite => ChessColor::White,
            _ => { return false; },
        };
        match self.board.put_chess(index, color) {
            Ok(_) => {
                self.state = match color {
                    ChessColor::Black => GameState::CheckBlack,
                    ChessColor::White => GameState::CheckWhite,
                };
                true
            },
            Err(_) => false,
        }
    }

    /// Lets a checked move stand and awaits the other colour. A game that
    /// awaits a colour is left as it was.
    pub fn settle(&mut self)
        ensures
            final(self)@ == old(self)@.settle(),
            final(self).redraw_pending() == old(self).redraw_pending(),
    {
        match self.state {
            GameState::CheckBlack => {
                self.state = GameState::WaitWhite;
            },
            GameState::CheckWhite => {
                self.state = GameState::WaitBlack;
            },
            _ => (),
        };
    }

    /// Handles one message from the input surface.
    ///
    /// A click on an empty cell while a colour is awaited puts a stone of
    /// that colour there, asks for a repaint, and passes the turn to the
    /// other colour. Any other click leaves the game as it was.
    pub fn update(&mut self, message: Message)
        requires
            old(self).wf(),
        ensures
            final(self).wf(),
            final(self)@ == old(self)@.step(message),
            final(self).redraw_pending() == (old(self).redraw_pending() || match message {
                Message::ClickBoard(index) => old(self)@.accepts(index as int),
            }),
    {
        match message {
            Message::ClickBoard(index) => {
                if self.place(index) {
                    self.settle();
                }
            },
        };
    }

    /// Starts over: all stones leave the board, Black is to move, and a
    /// repaint is asked for. The measurements stay.
    pub fn clear(&mut self)
        requires
            old(self).wf(),
        ensures
            final(self).wf(),
            final(self)@ == old(self)@.cleared(),
            final(self).redraw_pending(),
    {
        self.board.clear();
        self.state = GameState::WaitBlack;
    }

    /// Reports whether a repaint was asked for since the last call, and
    /// withdraws the request.
    pub fn take_redraw(&mut self) -> (res: bool)
        ensures
            res == old(self).redraw_pending(),
            !final(self).redraw_pending(),
            final(self)@ == old(self)@,
    {
        self.board.take_redraw()
    }
}

} // verus!
