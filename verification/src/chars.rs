//! Character classes that the tokenizer dispatches on.
//!
//! White space is decided here. Whether a character is alphabetic or numeric
//! is read off Unicode's tables by the standard library; the tokenizer takes
//! those two answers as a [`CharClass`] beside each character, and is proved
//! for every such classification.

use vstd::prelude::*;
use vstd::std_specs::iter::IteratorSpec;
use vstd::string::*;

verus! {

/// Whether `c` is `Alphabetic` in the Unicode character database.
pub uninterp spec fn alphabetic(c: char) -> bool;

/// Whether `c` is in one of the Unicode general categories for numbers
/// (`Nd`, `Nl`, `No`).
pub uninterp spec fn numeric(c: char) -> bool;

/// `char::is_alphabetic` of the standard library. Its answer is read off
/// Unicode's tables; the contract only gives that answer the name
/// [`alphabetic`].
pub assume_specification[ char::is_alphabetic ](c: char) -> (b: bool)
    ensures
        b == alphabetic(c),
;

/// `char::is_numeric` of the standard library. Its answer is read off
/// Unicode's tables; the contract only gives that answer the name
/// [`numeric`].
pub assume_specification[ char::is_numeric ](c: char) -> (b: bool)
    ensures
        b == numeric(c),
;

/// Whether `c` is `White_Space` in the Unicode character database.
pub open spec fn whitespace(c: char) -> bool {
    let n = c as u32;
    ||| 0x09 <= n <= 0x0D
    ||| n == 0x20
    ||| n == 0x85
    ||| n == 0xA0
    ||| n == 0x1680
    ||| 0x2000 <= n <= 0x200A
    ||| n == 0x2028
    ||| n == 0x2029
    ||| n == 0x202F
    ||| n == 0x205F
    ||| n == 0x3000
}

/// Whether `c` is Unicode white space.
pub fn is_whitespace(c: char) -> (b: bool)
    ensures
        b == whitespace(c),
{
    let n: u32 = c as u32;
    (0x09 <= n && n <= 0x0D) || n == 0x20 || n == 0x85 || n == 0xA0 || n == 0x1680 || (0x2000 <= n
        && n <= 0x200A) || n == 0x2028 || n == 0x2029 || n == 0x202F || n == 0x205F || n == 0x3000
}

/// What the tokenizer knows of a character beside the character itself.
#[derive(Debug, Clone, Copy, PartialEq, Eq, Structural)]
pub struct CharClass {
    /// The character may start a word and stand in one.
    pub alphabetic: bool,
    /// The character may start an integer literal and stand in one, and may
    /// stand in a word.
    pub numeric: bool,
}

impl CharClass {
    /// Whether a character of this class may stand in a word.
    pub open spec fn alphanumeric(self) -> bool {
        self.alphabetic || self.numeric
    }

    /// Whether a character of this class may stand in a word.
    pub fn is_alphanumeric(self) -> (b: bool)
        ensures
            b == self.alphanumeric(),
    {
        self.alphabetic || self.numeric
    }
}

/// The class that Unicode gives `c`.
pub open spec fn class_of(c: char) -> CharClass {
    CharClass { alphabetic: alphabetic(c), numeric: numeric(c) }
}

/// The classes that Unicode gives the characters of `s`, in the same order.
pub open spec fn classes_of(s: Seq<char>) -> Seq<CharClass> {
    s.map_values(|c: char| class_of(c))
}

/// The class that Unicode gives `c`.
pub fn classify(c: char) -> (class: CharClass)
    ensures
        class == class_of(c),
{
    CharClass { alphabetic: c.is_alphabetic(), numeric: c.is_numeric() }
}

/// The classes that Unicode gives the characters of `text`, in the same
/// order.
pub fn classify_text(text: &str) -> (classes: Vec<CharClass>)
    ensures
        classes@ == classes_of(text@),
{
    let mut classes: Vec<CharClass> = Vec::new();
    let mut rest = text.chars();
    loop
        invariant
            classes@.len() <= text@.len(),
            rest.remaining() == text@.subrange(classes@.len() as int, text@.len() as int),
            classes@ == classes_of(text@.subrange(0, classes@.len() as int)),
        ensures
            classes@ == classes_of(text@),
        decreases text@.len() - classes@.len(),
    {
        let ghost done = classes@.len() as int;
        match rest.next() {
            Some(c) => {
                classes.push(classify(c));
                assert(rest.remaining() == text@.subrange(done + 1, text@.len() as int));
                assert(classes@ =~= classes_of(text@.subrange(0, done + 1)));
            },
            None => {
                assert(text@.subrange(0, done) =~= text@);
                break ;
            },
        }
    }
    classes
}

} // verus!
