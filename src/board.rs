//! The board text format: lines of cells, one character per cell.
use vstd::prelude::*;

verus! {

/// Why a board text could not be read.
#[derive(Clone, Copy, Debug, PartialEq, Eq, Structural)]
pub enum BoardError {
    /// A character that is neither a wall, an open cell nor a marker.
    InvalidCharacter(char),
    /// Kept for boards of degenerate shape; no board text is refused for its shape.
    InvalidSize,
    NoMinotaur,
    NoTheseus,
    NoGoal,
    MultipleMinotaur,
    MultipleTheseus,
    MultipleGoal,
}

/// The pieces of `s` between its newline characters, in order; there is
/// always one more piece than there are newlines.
pub open spec fn pieces(s: Seq<char>) -> Seq<Seq<char>>
    decreases s.len(),
{
    if s.len() == 0 {
        seq![Seq::empty()]
    } else {
        let p = pieces(s.drop_last());
        if s.last() == '\n' {
            p.push(Seq::empty())
        } else {
            p.update(p.len() - 1, p.last().push(s.last()))
        }
    }
}

/// A line ended by "\r\n" loses its carriage return.
pub open spec fn strip_cr(l: Seq<char>) -> Seq<char> {
    if l.len() > 0 && l.last() == '\r' {
        l.drop_last()
    } else {
        l
    }
}

/// The lines of a text: the pieces between newlines, where an empty piece
/// after the last newline is no line, and each line that a newline ends
/// drops a carriage return just before that newline.
pub open spec fn lines_of(s: Seq<char>) -> Seq<Seq<char>> {
    let p = pieces(s);
    let n = if p.last().len() == 0 {
        p.len() - 1
    } else {
        p.len() as int
    };
    Seq::new(n as nat, |i: int| if i < p.len() - 1 { strip_cr(p[i]) } else { p[i] })
}

/// Row `r`, column `c` is a cell of the board.
pub open spec fn is_cell(rows: Seq<Seq<char>>, r: int, c: int) -> bool {
    0 <= r < rows.len() && 0 <= c < rows[r].len()
}

/// Cell (r1, c1) comes before cell (r2, c2) in reading order.
pub open spec fn before(r1: int, c1: int, r2: int, c2: int) -> bool {
    r1 < r2 || (r1 == r2 && c1 < c2)
}

pub open spec fn is_marker(ch: char) -> bool {
    ch == 'T' || ch == 'M' || ch == 'G'
}

pub open spec fn is_known(ch: char) -> bool {
    ch == 'X' || ch == ' ' || is_marker(ch)
}

/// The cell holds an unknown character, or a marker that an earlier cell
/// already holds.
pub open spec fn is_fault(rows: Seq<Seq<char>>, r: int, c: int) -> bool {
    ||| !is_known(rows[r][c])
    ||| (is_marker(rows[r][c]) && exists|r2: int, c2: int|
        is_cell(rows, r2, c2) && before(r2, c2, r, c) && #[trigger] rows[r2][c2] == rows[r][c])
}

/// The first faulty cell in reading order.
pub open spec fn is_first_fault(rows: Seq<Seq<char>>, r: int, c: int) -> bool {
    &&& is_cell(rows, r, c)
    &&& is_fault(rows, r, c)
    &&& forall|r2: int, c2: int|
        is_cell(rows, r2, c2) && before(r2, c2, r, c) ==> !#[trigger] is_fault(rows, r2, c2)
}

pub open spec fn has_fault(rows: Seq<Seq<char>>) -> bool {
    exists|r: int, c: int| is_cell(rows, r, c) && #[trigger] is_fault(rows, r, c)
}

pub open spec fn has_marker(rows: Seq<Seq<char>>, ch: char) -> bool {
    exists|r: int, c: int| is_cell(rows, r, c) && #[trigger] rows[r][c] == ch
}

/// The error that a faulty cell holding `ch` is reported with.
pub open spec fn fault_error(ch: char) -> BoardError {
    if ch == 'T' {
        BoardError::MultipleTheseus
    } else if ch == 'M' {
        BoardError::MultipleMinotaur
    } else if ch == 'G' {
        BoardError::MultipleGoal
    } else {
        BoardError::InvalidCharacter(ch)
    }
}

/// What is wrong with a board of these rows, if anything: its first faulty
/// cell, else the first missing marker of Theseus, Minotaur, Goal.
pub open spec fn rows_error(rows: Seq<Seq<char>>) -> Option<BoardError> {
    if has_fault(rows) {
        let (r, c) = choose|r: int, c: int| is_first_fault(rows, r, c);
        Some(fault_error(rows[r][c]))
    } else if !has_marker(rows, 'T') {
        Some(BoardError::NoTheseus)
    } else if !has_marker(rows, 'M') {
        Some(BoardError::NoMinotaur)
    } else if !has_marker(rows, 'G') {
        Some(BoardError::NoGoal)
    } else {
        None
    }
}

/// What is wrong with a board text, if anything.
pub open spec fn board_error(s: Seq<char>) -> Option<BoardError> {
    rows_error(lines_of(s))
}

/// The wall grid that rows of board characters describe.
pub open spec fn wall_rows(rows: Seq<Seq<char>>) -> Seq<Seq<bool>> {
    rows.map_values(|l: Seq<char>| l.map_values(|ch: char| ch == 'X'))
}

pub proof fn lemma_pieces_nonempty(s: Seq<char>)
    ensures
        pieces(s).len() >= 1,
    decreases s.len(),
{
    if s.len() > 0 {
        lemma_pieces_nonempty(s.drop_last());
    }
}

/// Two first faults are the same cell.
pub proof fn lemma_first_fault_unique(rows: Seq<Seq<char>>, r1: int, c1: int, r2: int, c2: int)
    requires
        is_first_fault(rows, r1, c1),
        is_first_fault(rows, r2, c2),
    ensures
        r1 == r2 && c1 == c2,
{
    if before(r1, c1, r2, c2) {
        assert(!is_fault(rows, r1, c1));
    } else if before(r2, c2, r1, c1) {
        assert(!is_fault(rows, r2, c2));
    }
}

/// A board with a faulty cell has a first one.
pub proof fn lemma_first_fault_exists(rows: Seq<Seq<char>>, r: int, c: int)
    requires
        is_cell(rows, r, c),
        is_fault(rows, r, c),
    ensures
        exists|r1: int, c1: int| is_first_fault(rows, r1, c1),
    decreases r, c,
{
    if !is_first_fault(rows, r, c) {
        let (r2, c2) = choose|r2: int, c2: int|
            is_cell(rows, r2, c2) && before(r2, c2, r, c) && #[trigger] is_fault(rows, r2, c2);
        lemma_first_fault_exists(rows, r2, c2);
    }
}

/// The rows of `text` (see `lines_of`), one character per cell.
pub fn split_lines(text: &str) -> (rows: Vec<Vec<char>>)
    ensures
        rows.deep_view() == lines_of(text@),
{
    let mut done: Vec<Vec<char>> = Vec::new();
    let mut cur: Vec<char> = Vec::new();
    proof {
        lemma_pieces_nonempty(text@);
    }
    for ch in it: text.chars()
        invariant
            it.seq() == text@,
            pieces(text@.take(it.index() as int)).len() >= 1,
            done.deep_view() == pieces(text@.take(it.index() as int)).drop_last().map_values(
                |l: Seq<char>| strip_cr(l),
            ),
            cur@ == pieces(text@.take(it.index() as int)).last(),
    {
        let ghost pre = text@.take(it.index() as int);
        let ghost post = text@.take(it.index() + 1);
        proof {
            assert(post.drop_last() =~= pre);
            assert(post.last() == ch);
            lemma_pieces_nonempty(post);
        }
        if ch == '\n' {
            let ghost old_cur = cur@;
            let ghost old_done = done.deep_view();
            let ghost ps = pieces(pre);
            if cur.len() > 0 && cur[cur.len() - 1] == '\r' {
                cur.pop();
            }
            proof {
                assert(cur@ =~= strip_cr(old_cur));
                assert(cur.deep_view() =~= cur@);
            }
            done.push(cur);
            cur = Vec::new();
            proof {
                assert(done.deep_view() =~= old_done.push(strip_cr(old_cur)));
                assert(pieces(post).drop_last() =~= ps);
                assert(ps =~= ps.drop_last().push(ps.last()));
                assert(done.deep_view() =~= pieces(post).drop_last().map_values(
                    |l: Seq<char>| strip_cr(l),
                ));
            }
        } else {
            cur.push(ch);
            proof {
                assert(done.deep_view() =~= pieces(post).drop_last().map_values(
                    |l: Seq<char>| strip_cr(l),
                ));
            }
        }
    }
    proof {
        assert(text@.take(text@.len() as int) =~= text@);
    }
    let ghost p = pieces(text@);
    let ghost old_done = done.deep_view();
    if cur.len() > 0 {
        proof {
            assert(cur.deep_view() =~= cur@);
        }
        done.push(cur);
        proof {
            assert(p =~= p.drop_last().push(p.last()));
            assert(done.deep_view() =~= old_done.push(p.last()));
        }
    }
    proof {
        assert(done.deep_view() =~= lines_of(text@));
    }
    done
}

} // verus!
