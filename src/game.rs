//! The game: a wall grid, Theseus, the Minotaur and the goal.
use vstd::prelude::*;
use crate::board::{
    BoardError, before, board_error, fault_error, has_fault, is_cell, is_fault, is_first_fault,
    lemma_first_fault_unique, lines_of, rows_error, split_lines, wall_rows,
};
use crate::command::Command;

verus! {

/// The outcome of the game as it stands.
#[derive(Clone, Copy, Debug, PartialEq, Eq, Structural)]
pub enum GameStatus {
    Win,
    Lose,
    Continue,
}

/// The walls, row by row; rows may differ in length.
#[derive(Clone)]
pub struct Grid {
    board: Vec<Vec<bool>>,
}

/// A position is (column, row).
pub type Pos = (usize, usize);

/// The cell at column `x`, row `y` lies inside the grid and is no wall.
pub open spec fn can_enter(walls: Seq<Seq<bool>>, x: int, y: int) -> bool {
    0 <= y < walls.len() && 0 <= x < walls[y].len() && !walls[y][x]
}

/// Each row count and row length of the grid is a `usize`.
pub open spec fn grid_fits(walls: Seq<Seq<bool>>) -> bool {
    &&& walls.len() <= usize::MAX
    &&& forall|y: int| 0 <= y < walls.len() ==> #[trigger] walls[y].len() <= usize::MAX
}

/// One game in play.
pub struct Game {
    grid: Grid,
    theseus: Pos,
    minotaur: Pos,
    goal: Pos,
}

/// The position of the one cell holding `ch`.
pub open spec fn marker_at(rows: Seq<Seq<char>>, ch: char, p: Pos) -> bool {
    is_cell(rows, p.1 as int, p.0 as int) && rows[p.1 as int][p.0 as int] == ch
}

/// What the scan of rows `rows` has found of marker `ch` before cell (y, x).
spec fn marker_seen(rows: Seq<Seq<char>>, ch: char, m: Option<Pos>, y: int, x: int) -> bool {
    match m {
        None => forall|r: int, c: int|
            is_cell(rows, r, c) && before(r, c, y, x) ==> #[trigger] rows[r][c] != ch,
        Some(p) => marker_at(rows, ch, p) && before(p.1 as int, p.0 as int, y, x),
    }
}

impl Game {
    /// The wall grid.
    pub closed spec fn walls(&self) -> Seq<Seq<bool>> {
        self.grid.board.deep_view()
    }

    pub closed spec fn theseus_pos(&self) -> Pos {
        self.theseus
    }

    pub closed spec fn minotaur_pos(&self) -> Pos {
        self.minotaur
    }

    pub closed spec fn goal_pos(&self) -> Pos {
        self.goal
    }

    /// Theseus, the Minotaur and the goal stand on open cells of the grid.
    #[verifier::type_invariant]
    spec fn positions_open(&self) -> bool {
        let w = self.grid.board.deep_view();
        &&& can_enter(w, self.theseus.0 as int, self.theseus.1 as int)
        &&& can_enter(w, self.minotaur.0 as int, self.minotaur.1 as int)
        &&& can_enter(w, self.goal.0 as int, self.goal.1 as int)
    }

    /// The game that board text `s` describes.
    pub open spec fn describes(&self, s: Seq<char>) -> bool {
        let rows = lines_of(s);
        &&& self.walls() == wall_rows(rows)
        &&& marker_at(rows, 'T', self.theseus_pos())
        &&& marker_at(rows, 'M', self.minotaur_pos())
        &&& marker_at(rows, 'G', self.goal_pos())
    }

    /// Reads a board: one line per row, `X` a wall, a space an open cell,
    /// `T`, `M` and `G` open cells holding Theseus, the Minotaur and the goal.
    pub fn from_board(board: &str) -> (r: Result<Game, BoardError>)
        ensures
            r is Ok <==> board_error(board@) is None,
            r is Ok ==> r->Ok_0.describes(board@),
            r is Err ==> board_error(board@) == Some(r->Err_0),
    {
        let lines = split_lines(board);
        let ghost rows = lines.deep_view();
        let mut walls: Vec<Vec<bool>> = Vec::new();
        let mut theseus: Option<Pos> = None;
        let mut minotaur: Option<Pos> = None;
        let mut goal: Option<Pos> = None;
        let mut y: usize = 0;
        while y < lines.len()
            invariant
                rows == lines.deep_view(),
                rows == lines_of(board@),
                y <= lines.len(),
                walls.deep_view() == wall_rows(rows).take(y as int),
                forall|r: int, c: int|
                    is_cell(rows, r, c) && before(r, c, y as int, 0) ==> !#[trigger] is_fault(
                        rows,
                        r,
                        c,
                    ),
                marker_seen(rows, 'T', theseus, y as int, 0),
                marker_seen(rows, 'M', minotaur, y as int, 0),
                marker_seen(rows, 'G', goal, y as int, 0),
            decreases lines.len() - y,
        {
            let line = &lines[y];
            let mut row: Vec<bool> = Vec::new();
            let mut x: usize = 0;
            assert(line@ == rows[y as int]);
            while x < line.len()
                invariant
                    rows == lines.deep_view(),
                    rows == lines_of(board@),
                    y < lines.len(),
                    line@ == rows[y as int],
                    x <= line.len(),
                    walls.deep_view() == wall_rows(rows).take(y as int),
                    row@ == rows[y as int].take(x as int).map_values(|ch: char| ch == 'X'),
                    forall|r: int, c: int|
                        is_cell(rows, r, c) && before(r, c, y as int, x as int)
                            ==> !#[trigger] is_fault(rows, r, c),
                    marker_seen(rows, 'T', theseus, y as int, x as int),
                    marker_seen(rows, 'M', minotaur, y as int, x as int),
                    marker_seen(rows, 'G', goal, y as int, x as int),
                decreases line.len() - x,
            {
                let ch = line[x];
                assert(ch == rows[y as int][x as int]);
                if ch == 'X' || ch == ' ' {
                    row.push(ch == 'X');
                } else if ch == 'T' || ch == 'M' || ch == 'G' {
                    let seen = if ch == 'T' {
                        theseus
                    } else if ch == 'M' {
                        minotaur
                    } else {
                        goal
                    };
                    if let Some(p) = seen {
                        proof {
                            assert(rows[p.1 as int][p.0 as int] == rows[y as int][x as int]);
                            assert(is_fault(rows, y as int, x as int));
                            lemma_error_at_first_fault(rows, y as int, x as int);
                        }
                        return Err(
                            if ch == 'T' {
                                BoardError::MultipleTheseus
                            } else if ch == 'M' {
                                BoardError::MultipleMinotaur
                            } else {
                                BoardError::MultipleGoal
                            },
                        );
                    }
                    proof {
                        assert(!is_fault(rows, y as int, x as int));
                    }
                    if ch == 'T' {
                        theseus = Some((x, y));
                    } else if ch == 'M' {
                        minotaur = Some((x, y));
                    } else {
                        goal = Some((x, y));
                    }
                    row.push(false);
                } else {
                    proof {
                        lemma_error_at_first_fault(rows, y as int, x as int);
                    }
                    return Err(BoardError::InvalidCharacter(ch));
                }
                proof {
                    assert(rows[y as int].take(x + 1) =~= rows[y as int].take(x as int).push(ch));
                    assert(row@ =~= rows[y as int].take(x + 1).map_values(|ch: char| ch == 'X'));
                }
                x += 1;
            }
            proof {
                assert(rows[y as int].take(x as int) =~= rows[y as int]);
                assert(row.deep_view() =~= row@);
                assert(wall_rows(rows).take(y + 1) =~= wall_rows(rows).take(y as int).push(row@));
            }
            walls.push(row);
            y += 1;
        }
        proof {
            assert(wall_rows(rows).take(y as int) =~= wall_rows(rows));
            assert(!has_fault(rows));
        }
        let t = match theseus {
            Some(p) => p,
            None => {
                return Err(BoardError::NoTheseus);
            },
        };
        let m = match minotaur {
            Some(p) => p,
            None => {
                return Err(BoardError::NoMinotaur);
            },
        };
        let g = match goal {
            Some(p) => p,
            None => {
                return Err(BoardError::NoGoal);
            },
        };
        Ok(Game { grid: Grid { board: walls }, theseus: t, minotaur: m, goal: g })
    }
}

/// Where `cmd` would take a piece standing at `p`, as (column, row).
pub open spec fn step_target(p: Pos, cmd: Command) -> (int, int) {
    let (x, y) = (p.0 as int, p.1 as int);
    match cmd {
        Command::Up => (x, y - 1),
        Command::Down => (x, y + 1),
        Command::Left => (x - 1, y),
        Command::Right => (x + 1, y),
        Command::Skip => (x, y),
    }
}

/// Where Theseus stands after `cmd`: on the target cell if it can be
/// entered, else where he stood.
pub open spec fn theseus_step(walls: Seq<Seq<bool>>, p: Pos, cmd: Command) -> Pos {
    let (x, y) = step_target(p, cmd);
    if can_enter(walls, x, y) {
        (x as usize, y as usize)
    } else {
        p
    }
}

/// Where the Minotaur at `m` stands after one move toward Theseus at `t`:
/// right, left, down, up, the first that brings him closer on its axis and
/// enters an open cell; else where he stood.
pub open spec fn chase_step(walls: Seq<Seq<bool>>, m: Pos, t: Pos) -> Pos {
    let (x, y) = (m.0 as int, m.1 as int);
    if m.0 < t.0 && can_enter(walls, x + 1, y) {
        ((x + 1) as usize, m.1)
    } else if m.0 > t.0 && can_enter(walls, x - 1, y) {
        ((x - 1) as usize, m.1)
    } else if m.1 < t.1 && can_enter(walls, x, y + 1) {
        (m.0, (y + 1) as usize)
    } else if m.1 > t.1 && can_enter(walls, x, y - 1) {
        (m.0, (y - 1) as usize)
    } else {
        m
    }
}

/// Win where Theseus stands on the goal, else Lose where he stands on the
/// Minotaur, else Continue.
pub open spec fn status_of(t: Pos, m: Pos, g: Pos) -> GameStatus {
    if t == g {
        GameStatus::Win
    } else if t == m {
        GameStatus::Lose
    } else {
        GameStatus::Continue
    }
}

impl Game {
    /// Moves the Minotaur one cell toward Theseus (see `chase_step`).
    pub fn minotaur_move(&mut self)
        ensures
            final(self).minotaur_pos() == chase_step(
                old(self).walls(),
                old(self).minotaur_pos(),
                old(self).theseus_pos(),
            ),
            final(self).walls() == old(self).walls(),
            final(self).theseus_pos() == old(self).theseus_pos(),
            final(self).goal_pos() == old(self).goal_pos(),
    {
        proof {
            use_type_invariant(&*self);
        }
        let (x, y) = self.minotaur;
        let (tx, ty) = self.theseus;
        let row_len = self.grid.board[y].len();
        if x < tx && x + 1 < row_len && !self.is_wall(y, x + 1) {
            self.minotaur = (x + 1, y);
        } else if x > tx && !self.is_wall(y, x - 1) {
            self.minotaur = (x - 1, y);
        } else if y < ty && y + 1 < self.grid.board.len() && x < self.grid.board[y + 1].len()
            && !self.is_wall(y + 1, x) {
            self.minotaur = (x, y + 1);
        } else if y > ty && x < self.grid.board[y - 1].len() && !self.is_wall(y - 1, x) {
            self.minotaur = (x, y - 1);
        }
    }

    /// Moves Theseus one cell as `command` says, where that cell lies in the
    /// grid and is no wall; else he stays (see `theseus_step`).
    pub fn theseus_move(&mut self, command: Command)
        ensures
            final(self).theseus_pos() == theseus_step(
                old(self).walls(),
                old(self).theseus_pos(),
                command,
            ),
            final(self).walls() == old(self).walls(),
            final(self).minotaur_pos() == old(self).minotaur_pos(),
            final(self).goal_pos() == old(self).goal_pos(),
    {
        proof {
            use_type_invariant(&*self);
        }
        let (x, y) = self.theseus;
        proof {
            assert(can_enter(self.walls(), x as int, y as int));
            assert(y < self.grid.board.len());
            assert(self.grid.board.deep_view()[y as int] == self.grid.board[y as int]@);
            assert(x < self.grid.board[y as int].len());
        }
        match command {
            Command::Left => {
                if x > 0 && !self.is_wall(y, x - 1) {
                    self.theseus = (x - 1, y);
                }
            },
            Command::Right => {
                if x + 1 < self.grid.board[y].len() && !self.is_wall(y, x + 1) {
                    self.theseus = (x + 1, y);
                }
            },
            Command::Up => {
                if y > 0 && x < self.grid.board[y - 1].len() && !self.is_wall(y - 1, x) {
                    self.theseus = (x, y - 1);
                }
            },
            Command::Down => {
                if y + 1 < self.grid.board.len() && x < self.grid.board[y + 1].len()
                    && !self.is_wall(y + 1, x) {
                    self.theseus = (x, y + 1);
                }
            },
            Command::Skip => {},
        }
    }

    /// Win, Lose or Continue (see `status_of`).
    pub fn status(&self) -> (s: GameStatus)
        ensures
            s == status_of(self.theseus_pos(), self.minotaur_pos(), self.goal_pos()),
    {
        if self.theseus.0 == self.goal.0 && self.theseus.1 == self.goal.1 {
            GameStatus::Win
        } else if self.theseus.0 == self.minotaur.0 && self.theseus.1 == self.minotaur.1 {
            GameStatus::Lose
        } else {
            GameStatus::Continue
        }
    }

    /// Theseus stands at `row`, `col`.
    pub fn is_theseus(&self, row: usize, col: usize) -> (b: bool)
        ensures
            b == (self.theseus_pos() == (col, row)),
    {
        self.theseus.0 == col && self.theseus.1 == row
    }

    /// The Minotaur stands at `row`, `col`.
    pub fn is_minotaur(&self, row: usize, col: usize) -> (b: bool)
        ensures
            b == (self.minotaur_pos() == (col, row)),
    {
        self.minotaur.0 == col && self.minotaur.1 == row
    }

    /// The cell at `row`, `col` of the grid is a wall.
    pub fn is_wall(&self, row: usize, col: usize) -> (b: bool)
        requires
            row < self.walls().len(),
            col < self.walls()[row as int].len(),
        ensures
            b == self.walls()[row as int][col as int],
    {
        self.grid.board[row][col]
    }

    /// The number of rows of the grid.
    pub fn row_count(&self) -> (n: usize)
        ensures
            n == self.walls().len(),
    {
        self.grid.board.len()
    }

    /// The number of cells in row `row` of the grid.
    pub fn row_len(&self, row: usize) -> (n: usize)
        requires
            row < self.walls().len(),
        ensures
            n == self.walls()[row as int].len(),
    {
        proof {
            assert(self.grid.board.deep_view()[row as int] == self.grid.board[row as int]@);
        }
        self.grid.board[row].len()
    }

    /// The goal lies at `row`, `col`.
    pub fn is_goal(&self, row: usize, col: usize) -> (b: bool)
        ensures
            b == (self.goal_pos() == (col, row)),
    {
        self.goal.0 == col && self.goal.1 == row
    }

    /// The cell at `row`, `col` of the grid is neither a wall nor where
    /// Theseus, the Minotaur or the goal stands.
    pub fn is_empty(&self, row: usize, col: usize) -> (b: bool)
        requires
            row < self.walls().len(),
            col < self.walls()[row as int].len(),
        ensures
            b == (!self.walls()[row as int][col as int] && self.theseus_pos() != (col, row)
                && self.minotaur_pos() != (col, row) && self.goal_pos() != (col, row)),
    {
        !self.is_wall(row, col) && !self.is_theseus(row, col) && !self.is_minotaur(row, col)
            && !self.is_goal(row, col)
    }
}

/// Where no cell before (r, c) is faulty and (r, c) is, the board's error is
/// the one for the character at (r, c).
proof fn lemma_error_at_first_fault(rows: Seq<Seq<char>>, r: int, c: int)
    requires
        is_cell(rows, r, c),
        is_fault(rows, r, c),
        forall|r2: int, c2: int|
            is_cell(rows, r2, c2) && before(r2, c2, r, c) ==> !#[trigger] is_fault(rows, r2, c2),
    ensures
        rows_error(rows) == Some(fault_error(rows[r][c])),
{
    assert(is_first_fault(rows, r, c));
    assert(has_fault(rows));
    let (r1, c1) = choose|r1: int, c1: int| is_first_fault(rows, r1, c1);
    lemma_first_fault_unique(rows, r1, c1, r, c);
}

} // verus!
