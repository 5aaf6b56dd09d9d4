use vstd::prelude::*;

verus! {

/// A move chosen by the player for Theseus.
#[derive(Clone, Copy, Debug, PartialEq, Eq, Structural)]
pub enum Command {
    /// Move one tile up
    Up,
    /// Move one tile down
    Down,
    /// Move one tile left
    Left,
    /// Move one tile right
    Right,
    /// Don't move at all
    Skip,
}

} // verus!

verus! {

/// The command that a player's word names, ignoring case: "w" or "up",
/// "a" or "left", "s" or "down", "d" or "right", and "skip".
pub open spec fn command_named(w: Seq<char>) -> Option<Command> {
    if w == seq!['w'] || w == seq!['u', 'p'] {
        Some(Command::Up)
    } else if w == seq!['a'] || w == seq!['l', 'e', 'f', 't'] {
        Some(Command::Left)
    } else if w == seq!['s'] || w == seq!['d', 'o', 'w', 'n'] {
        Some(Command::Down)
    } else if w == seq!['d'] || w == seq!['r', 'i', 'g', 'h', 't'] {
        Some(Command::Right)
    } else if w == seq!['s', 'k', 'i', 'p'] {
        Some(Command::Skip)
    } else {
        None
    }
}

/// The lowercase form of a string.
pub uninterp spec fn lower_of(s: Seq<char>) -> Seq<char>;

/// Relies on str::to_lowercase, whose result depends on the characters of
/// the string alone.
#[verifier::external_body]
fn lowercase(s: &str) -> (r: String)
    ensures
        r@ == lower_of(s@),
{
    s.to_lowercase()
}

fn same_word(word: &String, lit: &str) -> (b: bool)
    ensures
        b == (word@ == lit@),
{
    *word == lit.to_owned()
}

/// The command that an already lowercased word names.
pub fn command_of_word(word: &String) -> (r: Option<Command>)
    ensures
        r == command_named(word@),
{
    proof {
        reveal_strlit("w");
        reveal_strlit("up");
        reveal_strlit("a");
        reveal_strlit("left");
        reveal_strlit("s");
        reveal_strlit("down");
        reveal_strlit("d");
        reveal_strlit("right");
        reveal_strlit("skip");
        assert("w"@ =~= seq!['w']);
        assert("up"@ =~= seq!['u', 'p']);
        assert("a"@ =~= seq!['a']);
        assert("left"@ =~= seq!['l', 'e', 'f', 't']);
        assert("s"@ =~= seq!['s']);
        assert("down"@ =~= seq!['d', 'o', 'w', 'n']);
        assert("d"@ =~= seq!['d']);
        assert("right"@ =~= seq!['r', 'i', 'g', 'h', 't']);
        assert("skip"@ =~= seq!['s', 'k', 'i', 'p']);
    }
    if same_word(word, "w") || same_word(word, "up") {
        Some(Command::Up)
    } else if same_word(word, "a") || same_word(word, "left") {
        Some(Command::Left)
    } else if same_word(word, "s") || same_word(word, "down") {
        Some(Command::Down)
    } else if same_word(word, "d") || same_word(word, "right") {
        Some(Command::Right)
    } else if same_word(word, "skip") {
        Some(Command::Skip)
    } else {
        None
    }
}

/// The command that a line of player input names, in any case; `None` for
/// a line that names none.
pub fn input(line: &str) -> (r: Option<Command>)
    ensures
        r == command_named(lower_of(line@)),
{
    let word = lowercase(line);
    command_of_word(&word)
}

} // verus!
