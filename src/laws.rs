//! Properties of reading boards and of the two movement rules.
use vstd::prelude::*;
use crate::board::{
    BoardError, before, board_error, fault_error, has_fault, has_marker, is_cell, is_fault,
    is_first_fault, is_known, is_marker, lemma_first_fault_exists, lines_of,
};
use crate::command::Command;
use crate::game::{Game, Pos, can_enter, chase_step, grid_fits, step_target, theseus_step};

verus! {

/// At most one cell of the rows holds `ch`.
pub open spec fn at_most_once(rows: Seq<Seq<char>>, ch: char) -> bool {
    forall|r1: int, c1: int, r2: int, c2: int|
        is_cell(rows, r1, c1) && is_cell(rows, r2, c2) && #[trigger] rows[r1][c1] == ch
            && #[trigger] rows[r2][c2] == ch ==> r1 == r2 && c1 == c2
}

/// A board without faulty cells holds each marker at most once.
proof fn lemma_no_fault_unique_marker(rows: Seq<Seq<char>>, ch: char)
    requires
        !has_fault(rows),
        is_marker(ch),
    ensures
        at_most_once(rows, ch),
{
    assert forall|r1: int, c1: int, r2: int, c2: int|
        is_cell(rows, r1, c1) && is_cell(rows, r2, c2) && #[trigger] rows[r1][c1] == ch
            && #[trigger] rows[r2][c2] == ch implies r1 == r2 && c1 == c2 by {
        if before(r1, c1, r2, c2) {
            assert(rows[r1][c1] == rows[r2][c2]);
            assert(is_fault(rows, r2, c2));
        } else if before(r2, c2, r1, c1) {
            assert(rows[r2][c2] == rows[r1][c1]);
            assert(is_fault(rows, r1, c1));
        }
    }
}

/// Reading a board and then asking of each cell what it holds gives back the
/// character class of that cell: a wall for `X`, Theseus for `T`, the
/// Minotaur for `M`, the goal for `G`, and an empty cell for a space.
pub proof fn lemma_board_round_trip(s: Seq<char>, g: Game, r: usize, c: usize)
    requires
        board_error(s) is None,
        g.describes(s),
        is_cell(lines_of(s), r as int, c as int),
    ensures
        ({
            let ch = lines_of(s)[r as int][c as int];
            let here: Pos = (c, r);
            &&& r < g.walls().len() && c < g.walls()[r as int].len()
            &&& (ch == 'X') == g.walls()[r as int][c as int]
            &&& (ch == 'T') == (g.theseus_pos() == here)
            &&& (ch == 'M') == (g.minotaur_pos() == here)
            &&& (ch == 'G') == (g.goal_pos() == here)
            &&& (ch == ' ') == (!g.walls()[r as int][c as int] && g.theseus_pos() != here && g.minotaur_pos()
                != here && g.goal_pos() != here)
        }),
{
    let rows = lines_of(s);
    assert(!has_fault(rows));
    assert(!is_fault(rows, r as int, c as int));
    lemma_no_fault_unique_marker(rows, 'T');
    lemma_no_fault_unique_marker(rows, 'M');
    lemma_no_fault_unique_marker(rows, 'G');
    assert(g.walls()[r as int][c as int] == (rows[r as int][c as int] == 'X'));
    let t = g.theseus_pos();
    let m = g.minotaur_pos();
    let gl = g.goal_pos();
    assert(rows[t.1 as int][t.0 as int] == 'T');
    assert(rows[m.1 as int][m.0 as int] == 'M');
    assert(rows[gl.1 as int][gl.0 as int] == 'G');
}

/// A board with no unknown character and no repeated marker that lacks a
/// marker is refused for the first missing one of Theseus, the Minotaur and
/// the goal, in that order.
pub proof fn lemma_missing_marker(s: Seq<char>)
    requires
        !has_fault(lines_of(s)),
    ensures
        !has_marker(lines_of(s), 'T') ==> board_error(s) == Some(BoardError::NoTheseus),
        has_marker(lines_of(s), 'T') && !has_marker(lines_of(s), 'M') ==> board_error(s) == Some(
            BoardError::NoMinotaur,
        ),
        has_marker(lines_of(s), 'T') && has_marker(lines_of(s), 'M') && !has_marker(
            lines_of(s),
            'G',
        ) ==> board_error(s) == Some(BoardError::NoGoal),
{
}

/// A board of known characters whose only repeated marker is `ch`, which two
/// cells hold, is refused as holding that marker more than once.
pub proof fn lemma_repeated_marker(s: Seq<char>, ch: char, r1: int, c1: int, r2: int, c2: int)
    requires
        is_marker(ch),
        is_cell(lines_of(s), r1, c1),
        is_cell(lines_of(s), r2, c2),
        before(r1, c1, r2, c2),
        lines_of(s)[r1][c1] == ch,
        lines_of(s)[r2][c2] == ch,
        forall|r: int, c: int| is_cell(lines_of(s), r, c) ==> is_known(#[trigger] lines_of(s)[r][c]),
        forall|other: char| is_marker(other) && other != ch ==> at_most_once(lines_of(s), other),
    ensures
        board_error(s) == Some(fault_error(ch)),
{
    let rows = lines_of(s);
    assert(rows[r1][c1] == rows[r2][c2]);
    assert(is_fault(rows, r2, c2));
    lemma_first_fault_exists(rows, r2, c2);
    let (r, c) = choose|r: int, c: int| is_first_fault(rows, r, c);
    let (r0, c0) = choose|r0: int, c0: int|
        is_cell(rows, r0, c0) && before(r0, c0, r, c) && #[trigger] rows[r0][c0] == rows[r][c];
    if rows[r][c] != ch {
        assert(at_most_once(rows, rows[r][c]));
    }
}

/// A board whose one unknown character is `bad` and that repeats no marker
/// is refused for holding `bad`.
pub proof fn lemma_unknown_character(s: Seq<char>, bad: char, r1: int, c1: int)
    requires
        !is_known(bad),
        is_cell(lines_of(s), r1, c1),
        lines_of(s)[r1][c1] == bad,
        forall|r: int, c: int|
            is_cell(lines_of(s), r, c) ==> is_known(#[trigger] lines_of(s)[r][c])
                || lines_of(s)[r][c] == bad,
        forall|m: char| is_marker(m) ==> at_most_once(lines_of(s), m),
    ensures
        board_error(s) == Some(BoardError::InvalidCharacter(bad)),
{
    let rows = lines_of(s);
    assert(is_fault(rows, r1, c1));
    lemma_first_fault_exists(rows, r1, c1);
    let (r, c) = choose|r: int, c: int| is_first_fault(rows, r, c);
    if is_known(rows[r][c]) {
        let (r0, c0) = choose|r0: int, c0: int|
            is_cell(rows, r0, c0) && before(r0, c0, r, c) && #[trigger] rows[r0][c0] == rows[r][c];
        assert(at_most_once(rows, rows[r][c]));
    }
}

/// A move of Theseus toward a wall or off the grid leaves him in place; one
/// into an open cell changes exactly the one coordinate of its direction, by
/// exactly one.
pub proof fn lemma_theseus_step_shape(walls: Seq<Seq<bool>>, p: Pos, cmd: Command)
    requires
        grid_fits(walls),
    ensures
        ({
            let (x, y) = step_target(p, cmd);
            let q = theseus_step(walls, p, cmd);
            &&& !can_enter(walls, x, y) ==> q == p
            &&& can_enter(walls, x, y) ==> q.0 == x && q.1 == y
            &&& cmd == Command::Left ==> y == p.1 && x == p.0 - 1
            &&& cmd == Command::Right ==> y == p.1 && x == p.0 + 1
            &&& cmd == Command::Up ==> x == p.0 && y == p.1 - 1
            &&& cmd == Command::Down ==> x == p.0 && y == p.1 + 1
            &&& cmd == Command::Skip ==> q == p
        }),
{
}

/// A Minotaur left of Theseus that can step right does so, wherever the two
/// stand vertically; likewise one right of Theseus that can step left.
pub proof fn lemma_horizontal_first(walls: Seq<Seq<bool>>, m: Pos, t: Pos)
    ensures
        m.0 < t.0 && can_enter(walls, m.0 + 1, m.1 as int) ==> chase_step(walls, m, t) == (
            (m.0 + 1) as usize,
            m.1,
        ),
        m.0 > t.0 && can_enter(walls, m.0 - 1, m.1 as int) ==> chase_step(walls, m, t) == (
            (m.0 - 1) as usize,
            m.1,
        ),
{
}

/// Where the Minotaur stands after `n` moves toward Theseus standing at `t`.
pub open spec fn chase_n(walls: Seq<Seq<bool>>, m: Pos, t: Pos, n: nat) -> Pos
    decreases n,
{
    if n == 0 {
        m
    } else {
        chase_n(walls, chase_step(walls, m, t), t, (n - 1) as nat)
    }
}

/// A Minotaur walled in on each side that leads toward Theseus stays where
/// he is however many times he moves.
pub proof fn lemma_boxed_minotaur_stays(walls: Seq<Seq<bool>>, m: Pos, t: Pos, n: nat)
    requires
        m.0 < t.0 ==> !can_enter(walls, m.0 + 1, m.1 as int),
        m.0 > t.0 ==> !can_enter(walls, m.0 - 1, m.1 as int),
        m.1 < t.1 ==> !can_enter(walls, m.0 as int, m.1 + 1),
        m.1 > t.1 ==> !can_enter(walls, m.0 as int, m.1 - 1),
    ensures
        chase_n(walls, m, t, n) == m,
    decreases n,
{
    if n > 0 {
        lemma_boxed_minotaur_stays(walls, m, t, (n - 1) as nat);
    }
}

} // verus!
