use vstd::prelude::*;
use crate::board::{
    lemma_board_len,
    all_tiles, is_fresh, is_lost, has_2048, slid_grid, spawned, sum_cells, Board, Direction,
};

verus! {

broadcast use lemma_board_len;

/// The screen the game shows.
#[derive(Clone, Copy, Debug, PartialEq, Eq, Structural)]
pub enum State {
    Menu,
    Playing,
    Won,
    Lost,
}

/// The key of a key event.
#[derive(Clone, Copy, Debug, PartialEq, Eq, Structural)]
pub enum KeyCode {
    Left,
    Right,
    Up,
    Down,
    Esc,
    Char(char),
    Other,
}

/// A key event: the key, whether Control was held, and whether it is a press (rather
/// than a release or a repeat).
#[derive(Clone, Copy, Debug, PartialEq, Eq, Structural)]
pub struct KeyEvent {
    pub code: KeyCode,
    pub ctrl: bool,
    pub press: bool,
}

/// What the caller has to do after a key event.
#[derive(Clone, Copy, Debug, PartialEq, Eq, Structural)]
pub enum Action {
    /// Nothing beyond redrawing.
    Nothing,
    /// Ask the application to quit.
    Quit,
    /// The game just ended: record this final score.
    SaveScore(u64),
}

/// Control-C.
pub open spec fn is_interrupt(k: KeyEvent) -> bool {
    k.code == KeyCode::Char('c') && k.ctrl
}

/// Escape or `q`.
pub open spec fn is_back(k: KeyEvent) -> bool {
    k.code == KeyCode::Esc || k.code == KeyCode::Char('q')
}

/// The left arrow or `h`.
pub open spec fn is_prev(k: KeyEvent) -> bool {
    k.code == KeyCode::Left || k.code == KeyCode::Char('h')
}

/// The right arrow or `l`.
pub open spec fn is_next(k: KeyEvent) -> bool {
    k.code == KeyCode::Right || k.code == KeyCode::Char('l')
}

/// `e` or `E`.
pub open spec fn is_confirm(k: KeyEvent) -> bool {
    k.code == KeyCode::Char('e') || k.code == KeyCode::Char('E')
}

/// The direction an arrow key slides the tiles in.
pub open spec fn direction_of(k: KeyEvent) -> Option<Direction> {
    match k.code {
        KeyCode::Up => Some(Direction::Up),
        KeyCode::Down => Some(Direction::Down),
        KeyCode::Left => Some(Direction::Left),
        KeyCode::Right => Some(Direction::Right),
        _ => None,
    }
}

/// The selected button of a two-button screen after `k`.
pub open spec fn next_selection(sel: usize, k: KeyEvent) -> usize {
    if is_prev(k) && sel > 0 {
        (sel - 1) as usize
    } else if is_next(k) && sel < 1 {
        (sel + 1) as usize
    } else {
        sel
    }
}

/// The screen after a move in play that left grid `g`.
pub open spec fn state_after_move(g: Seq<u32>) -> State {
    if has_2048(g) {
        State::Won
    } else if is_lost(g) {
        State::Lost
    } else {
        State::Playing
    }
}

/// The application: its screen, the selected menu button and the board.
pub struct App {
    /// Is the application running?
    pub running: bool,
    pub state: State,
    pub selected_button: usize,
    pub board: Board,
}

impl App {
    /// A running application on the menu screen, with an empty board.
    pub fn new() -> (r: App)
        ensures
            r.running,
            r.state == State::Menu,
            r.selected_button == 0,
            r.board@ == Seq::new(16, |i: int| 0u32),
            all_tiles(r.board@),
    {
        App { running: true, state: State::Menu, selected_button: 0, board: Board::new() }
    }

    /// Handles the tick event of the terminal; the game has nothing to update on it.
    pub fn tick(&self) {
    }

    /// Stops the application.
    pub fn quit(&mut self)
        ensures
            !final(self).running,
            final(self).state == old(self).state,
            final(self).selected_button == old(self).selected_button,
            final(self).board@ == old(self).board@,
    {
        self.running = false;
    }

    /// Empties the board and puts `2` into two distinct cells drawn at random.
    pub fn init_board(&mut self)
        ensures
            final(self).state == old(self).state,
            final(self).running == old(self).running,
            final(self).selected_button == old(self).selected_button,
            is_fresh(final(self).board@),
            all_tiles(final(self).board@),
    {
        self.board.reset();
    }

    /// Starts a new game on a freshly seeded board.
    fn start(&mut self)
        ensures
            final(self).state == State::Playing,
            final(self).running == old(self).running,
            final(self).selected_button == old(self).selected_button,
            is_fresh(final(self).board@),
            all_tiles(final(self).board@),
    {
        self.state = State::Playing;
        self.init_board();
    }

    /// Moves the selection of a two-button screen.
    fn select(&mut self, key: KeyEvent)
        ensures
            final(self).selected_button == next_selection(old(self).selected_button, key),
            final(self).state == old(self).state,
            final(self).running == old(self).running,
            final(self).board@ == old(self).board@,
    {
        if (key.code == KeyCode::Left || key.code == KeyCode::Char('h')) && self.selected_button > 0 {
            self.selected_button = self.selected_button - 1;
        } else if (key.code == KeyCode::Right || key.code == KeyCode::Char('l'))
            && self.selected_button < 1 {
            self.selected_button = self.selected_button + 1;
        }
    }

    /// Updates the application for one key event and says what the caller has to do.
    ///
    /// Only presses count. On the menu, Escape, `q` and Control-C quit; the arrows (or `h`,
    /// `l`) choose between Start and Quit, and `e` confirms. In play, an arrow slides the
    /// tiles, and a new tile appears only when the slide changed the board. After every
    /// arrow, moved or not, a `2048` tile wins and a full board with no equal neighbours
    /// loses, and either asks for the final score to be saved. Escape or `q` go back to the menu. On the end
    /// screens Control-C quits, and `e` starts a new game or, on the second button, goes
    /// back to the menu.
    pub fn handle_key_event(&mut self, key: KeyEvent) -> (r: Action)
        ensures
            final(self).running == old(self).running,
            all_tiles(old(self).board@) ==> all_tiles(final(self).board@),
            !key.press ==> r == Action::Nothing && final(self).state == old(self).state
                && final(self).selected_button == old(self).selected_button
                && final(self).board@ == old(self).board@,
            key.press && old(self).state == State::Menu ==> {
                &&& r == if is_back(key) || is_interrupt(key) || (is_confirm(key)
                    && old(self).selected_button == 1) {
                    Action::Quit
                } else {
                    Action::Nothing
                }
                &&& final(self).selected_button == next_selection(old(self).selected_button, key)
                &&& if is_confirm(key) && old(self).selected_button == 0 {
                    final(self).state == State::Playing && is_fresh(final(self).board@)
                } else {
                    final(self).state == State::Menu && final(self).board@ == old(self).board@
                }
            },
            key.press && old(self).state == State::Playing ==> {
                &&& final(self).selected_button == old(self).selected_button
                &&& match direction_of(key) {
                    Some(d) => {
                        &&& if slid_grid(old(self).board@, d) == old(self).board@ {
                            final(self).board@ == old(self).board@
                        } else {
                            spawned(slid_grid(old(self).board@, d), final(self).board@)
                        }
                        &&& final(self).state == state_after_move(final(self).board@)
                        &&& r == if final(self).state == State::Playing {
                            Action::Nothing
                        } else {
                            Action::SaveScore(sum_cells(final(self).board@) as u64)
                        }
                    },
                    None => r == Action::Nothing && final(self).board@ == old(self).board@
                        && final(self).state == if is_back(key) {
                        State::Menu
                    } else {
                        State::Playing
                    },
                }
            },
            key.press && (old(self).state == State::Won || old(self).state == State::Lost) ==> {
                &&& r == if is_interrupt(key) {
                    Action::Quit
                } else {
                    Action::Nothing
                }
                &&& final(self).selected_button == next_selection(old(self).selected_button, key)
                &&& if is_confirm(key) && old(self).selected_button == 0 {
                    final(self).state == State::Playing && is_fresh(final(self).board@)
                } else if is_confirm(key) && old(self).selected_button == 1 {
                    final(self).state == State::Menu && final(self).board@ == old(self).board@
                } else {
                    final(self).state == old(self).state && final(self).board@ == old(self).board@
                }
            },
    {
        if !key.press {
            return Action::Nothing;
        }
        let confirm = key.code == KeyCode::Char('e') || key.code == KeyCode::Char('E');
        let interrupt = key.code == KeyCode::Char('c') && key.ctrl;
        match self.state {
            State::Menu => {
                if key.code == KeyCode::Esc || key.code == KeyCode::Char('q') || interrupt {
                    return Action::Quit;
                }
                self.select(key);
                if confirm && self.selected_button == 0 {
                    self.start();
                } else if confirm && self.selected_button == 1 {
                    return Action::Quit;
                }
                Action::Nothing
            },
            State::Playing => {
                let d = match key.code {
                    KeyCode::Up => Direction::Up,
                    KeyCode::Down => Direction::Down,
                    KeyCode::Left => Direction::Left,
                    KeyCode::Right => Direction::Right,
                    _ => {
                        if key.code == KeyCode::Esc || key.code == KeyCode::Char('q') {
                            self.state = State::Menu;
                        }
                        return Action::Nothing;
                    },
                };
                if self.board.slide(d) {
                    self.board.spawn();
                }
                if self.board.won() {
                    self.state = State::Won;
                } else if self.board.lost() {
                    self.state = State::Lost;
                } else {
                    return Action::Nothing;
                }
                Action::SaveScore(self.board.score())
            },
            State::Won | State::Lost => {
                if interrupt {
                    return Action::Quit;
                }
                self.select(key);
                if confirm && self.selected_button == 0 {
                    self.start();
                } else if confirm && self.selected_button == 1 {
                    self.state = State::Menu;
                }
                Action::Nothing
            },
        }
    }
}

} // verus!
