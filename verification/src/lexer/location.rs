//! Lines and columns of positions in a text.
//!
//! A text is a sequence of characters and a position is a number of
//! characters from its start.

use crate::token::Location;
use vstd::prelude::*;

verus! {

/// The line of position `pos` of `s`: one more than the number of newlines
/// before it.
pub open spec fn line_at(s: Seq<char>, pos: int) -> int
    decreases pos,
{
    if pos <= 0 {
        1
    } else if s[pos - 1] == '\n' {
        line_at(s, pos - 1) + 1
    } else {
        line_at(s, pos - 1)
    }
}

/// The column of position `pos` of `s`: one more than the number of
/// characters between the last newline before it and itself.
pub open spec fn column_at(s: Seq<char>, pos: int) -> int
    decreases pos,
{
    if pos <= 0 {
        1
    } else if s[pos - 1] == '\n' {
        1
    } else {
        column_at(s, pos - 1) + 1
    }
}

/// The location of position `pos` of `s`.
pub open spec fn location_at(s: Seq<char>, pos: int) -> Location {
    Location { line: line_at(s, pos) as u32, col: column_at(s, pos) as u32 }
}

/// Lines and columns start at one and grow by at most one per character.
pub proof fn lemma_location_bounds(s: Seq<char>, pos: int)
    requires
        0 <= pos,
    ensures
        1 <= line_at(s, pos) <= pos + 1,
        1 <= column_at(s, pos) <= pos + 1,
    decreases pos,
{
    if pos > 0 {
        lemma_location_bounds(s, pos - 1);
    }
}

} // verus!
