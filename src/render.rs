//! A picture of the game: one line of glyphs per row of the grid.
use vstd::prelude::*;
use crate::game::{Game, Pos};

verus! {

/// The box-drawing glyph of a wall, from whether a wall lies to its left,
/// right, above and below.
pub open spec fn wall_glyph(left: bool, right: bool, up: bool, down: bool) -> char {
    match (left, right, up, down) {
        (false, false, false, false) => '\u{25FB}',
        (_, _, false, false) => '\u{2550}',
        (false, false, _, _) => '\u{2551}',
        (true, false, true, false) => '\u{255D}',
        (true, false, false, true) => '\u{2557}',
        (false, true, true, false) => '\u{255A}',
        (false, true, false, true) => '\u{2554}',
        (true, true, true, false) => '\u{2569}',
        (true, true, false, true) => '\u{2566}',
        (true, false, true, true) => '\u{2563}',
        (false, true, true, true) => '\u{2560}',
        (true, true, true, true) => '\u{256C}',
    }
}

/// The wall grid has a wall at column `x`, row `y`; no cell outside it does.
pub open spec fn wall_at(walls: Seq<Seq<bool>>, x: int, y: int) -> bool {
    0 <= y < walls.len() && 0 <= x < walls[y].len() && walls[y][x]
}

pub open spec fn stands_at(p: Pos, x: int, y: int) -> bool {
    p.0 == x && p.1 == y
}

/// The glyph of column `x`, row `y`: the Minotaur, Theseus or the goal where
/// one stands there (in that order), a space on an open cell, and for a wall
/// the glyph that joins it to its neighbouring walls.
pub open spec fn cell_glyph(walls: Seq<Seq<bool>>, t: Pos, m: Pos, g: Pos, x: int, y: int) -> char {
    if stands_at(m, x, y) {
        'M'
    } else if stands_at(t, x, y) {
        'T'
    } else if stands_at(g, x, y) {
        'G'
    } else if !walls[y][x] {
        ' '
    } else {
        wall_glyph(
            wall_at(walls, x - 1, y),
            wall_at(walls, x + 1, y),
            wall_at(walls, x, y - 1),
            wall_at(walls, x, y + 1),
        )
    }
}

/// The glyph of a wall (see `wall_glyph`).
pub fn wall_char(left: bool, right: bool, up: bool, down: bool) -> (c: char)
    ensures
        c == wall_glyph(left, right, up, down),
{
    match (left, right, up, down) {
        (false, false, false, false) => '\u{25FB}',
        (_, _, false, false) => '\u{2550}',
        (false, false, _, _) => '\u{2551}',
        (true, false, true, false) => '\u{255D}',
        (true, false, false, true) => '\u{2557}',
        (false, true, true, false) => '\u{255A}',
        (false, true, false, true) => '\u{2554}',
        (true, true, true, false) => '\u{2569}',
        (true, true, false, true) => '\u{2566}',
        (true, false, true, true) => '\u{2563}',
        (false, true, true, true) => '\u{2560}',
        (true, true, true, true) => '\u{256C}',
    }
}

impl Game {
    /// The picture of the game: for each row of the grid, the glyph of each
    /// of its cells (see `cell_glyph`).
    pub fn render(&self) -> (lines: Vec<Vec<char>>)
        ensures
            lines@.len() == self.walls().len(),
            forall|y: int| 0 <= y < lines@.len() ==> #[trigger] lines@[y]@.len() == self.walls()[y].len(),
            forall|y: int, x: int|
                0 <= y < lines@.len() && 0 <= x < lines@[y]@.len() ==> #[trigger] lines@[y]@[x]
                    == cell_glyph(
                    self.walls(),
                    self.theseus_pos(),
                    self.minotaur_pos(),
                    self.goal_pos(),
                    x,
                    y,
                ),
    {
        let mut lines: Vec<Vec<char>> = Vec::new();
        let rows = self.row_count();
        let mut y: usize = 0;
        while y < rows
            invariant
                rows == self.walls().len(),
                y <= rows,
                lines@.len() == y,
                forall|j: int| 0 <= j < y ==> #[trigger] lines@[j]@.len() == self.walls()[j].len(),
                forall|j: int, x: int|
                    0 <= j < y && 0 <= x < lines@[j]@.len() ==> #[trigger] lines@[j]@[x]
                        == cell_glyph(
                        self.walls(),
                        self.theseus_pos(),
                        self.minotaur_pos(),
                        self.goal_pos(),
                        x,
                        j,
                    ),
            decreases rows - y,
        {
            let width = self.row_len(y);
            let mut line: Vec<char> = Vec::new();
            let mut x: usize = 0;
            while x < width
                invariant
                    rows == self.walls().len(),
                    y < rows,
                    width == self.walls()[y as int].len(),
                    x <= width,
                    line@.len() == x,
                    forall|i: int| 0 <= i < x ==> #[trigger] line@[i] == cell_glyph(
                        self.walls(),
                        self.theseus_pos(),
                        self.minotaur_pos(),
                        self.goal_pos(),
                        i,
                        y as int,
                    ),
                decreases width - x,
            {
                let glyph = if self.is_minotaur(y, x) {
                    'M'
                } else if self.is_theseus(y, x) {
                    'T'
                } else if self.is_goal(y, x) {
                    'G'
                } else if !self.is_wall(y, x) {
                    ' '
                } else {
                    let left = x > 0 && self.is_wall(y, x - 1);
                    let right = x + 1 < width && self.is_wall(y, x + 1);
                    let up = y > 0 && x < self.row_len(y - 1) && self.is_wall(y - 1, x);
                    let down = y + 1 < rows && x < self.row_len(y + 1) && self.is_wall(y + 1, x);
                    wall_char(left, right, up, down)
                };
                line.push(glyph);
                x += 1;
            }
            lines.push(line);
            y += 1;
        }
        lines
    }
}

} // verus!
