//! The language of the tokenizer, as functions on a source and a position in
//! it.
//!
//! Everything here is specification: the executable tokenizer is proved to
//! compute exactly these functions.

use crate::chars::{classes_of, whitespace, CharClass};
use crate::lexer::location::location_at;
use crate::lexer::LexError;
use crate::token::{TokenType, TokenView};
use vstd::prelude::*;

verus! {

/// What is scanned: a text, and the class of each of its characters.
pub struct Source {
    pub text: Seq<char>,
    pub classes: Seq<CharClass>,
}

impl Source {
    /// Every character has its class.
    pub open spec fn wf(self) -> bool {
        self.classes.len() == self.text.len()
    }

    /// The number of characters.
    pub open spec fn len(self) -> int {
        self.text.len() as int
    }
}

/// The text `s` with the classes that Unicode gives its characters.
pub open spec fn unicode(s: Seq<char>) -> Source {
    Source { text: s, classes: classes_of(s) }
}

/// The kinds of runs of characters that the tokenizer consumes as a whole.
#[derive(Debug, Clone, Copy, PartialEq, Eq)]
pub enum Run {
    /// White space.
    Blank,
    /// The digits of an integer literal.
    Digits,
    /// The characters of an identifier or keyword after its first.
    Word,
    /// The inside of a string literal: everything but a double quote.
    Quoted,
    /// What may follow a strict end-of-line marker: `!` and newlines.
    Marker,
}

/// Whether the character `c` of class `class` may stand in a run of kind
/// `run`.
pub open spec fn belongs(run: Run, c: char, class: CharClass) -> bool {
    match run {
        Run::Blank => whitespace(c),
        Run::Digits => class.numeric,
        Run::Word => class.alphanumeric(),
        Run::Quoted => c != '"',
        Run::Marker => c == '!' || c == '\n',
    }
}

/// Whether the character at `at` may stand in a run of kind `run`.
pub open spec fn belongs_at(src: Source, at: int, run: Run) -> bool {
    belongs(run, src.text[at], src.classes[at])
}

/// Where the longest run of kind `run` that starts at `from` ends: the first
/// position at or after `from` whose character does not belong to the run, or
/// the end of the text.
pub open spec fn run_end(src: Source, from: int, run: Run) -> int
    decreases src.len() - from,
{
    if 0 <= from < src.len() && belongs_at(src, from, run) {
        run_end(src, from + 1, run)
    } else {
        from
    }
}

/// The kind of the word `word`: one of the reserved words, or an identifier.
///
/// A function declaration is written as `function` or as any shorter
/// beginning of that word.
pub open spec fn keyword_kind(word: Seq<char>) -> TokenType {
    if word == "f"@ || word == "fu"@ || word == "fun"@ || word == "func"@ || word == "funct"@
        || word == "functi"@ || word == "functio"@ || word == "function"@ {
        TokenType::FunctionDeclaration
    } else if word == "Int"@ || word == "String"@ || word == "Char"@ || word == "Digit"@ || word
        == "Bool"@ {
        TokenType::Primitive
    } else if word == "true"@ || word == "false"@ || word == "maybe"@ {
        TokenType::BoolLiteral
    } else if word == "return"@ {
        TokenType::Return
    } else {
        TokenType::Identifier
    }
}

/// The kind of the token that the single character `c` stands for, if it
/// stands for one by itself.
pub open spec fn punctuation(c: char) -> Option<TokenType> {
    if c == ',' {
        Some(TokenType::Comma)
    } else if c == '(' {
        Some(TokenType::Lparen)
    } else if c == ')' {
        Some(TokenType::Rparen)
    } else if c == '{' {
        Some(TokenType::Lbrace)
    } else if c == '}' {
        Some(TokenType::Rbrace)
    } else if c == ';' {
        Some(TokenType::Not)
    } else {
        None
    }
}

/// The position after the character at `pos`, or `pos` itself at the end of
/// the text.
pub open spec fn advance(src: Source, pos: int) -> int {
    if pos < src.len() {
        pos + 1
    } else {
        pos
    }
}

/// The token of kind `ty` whose text runs from `from` to `to`, emitted with
/// the cursor at `at`.
pub open spec fn token_at(ty: TokenType, src: Source, from: int, to: int, at: int) -> TokenView {
    TokenView { ty, value: src.text.subrange(from, to), location: location_at(src.text, at) }
}

/// What the tokenizer does at one character.
pub enum Step {
    /// It emits `emitted`, which may be empty, and goes on at `next`.
    Continue { emitted: Seq<TokenView>, next: int },
    /// It emits `token` and stops: the line has been terminated.
    Finish { token: TokenView },
    /// It gives up with `error`.
    Fail { error: LexError },
}

/// At a double quote at `p`: the string literal runs to the next double quote,
/// which is consumed, and the token is emitted with the cursor on the closing
/// quote. Without a closing quote the scan fails at the end of the text.
pub open spec fn string_step(src: Source, p: int) -> Step {
    let close = run_end(src, p + 1, Run::Quoted);
    if close < src.len() {
        Step::Continue {
            emitted: seq![token_at(TokenType::StringLiteral, src, p + 1, close, close)],
            next: close + 1,
        }
    } else {
        Step::Fail { error: LexError::UnterminatedString(location_at(src.text, close)) }
    }
}

/// At a `!` at `p`: white space is skipped, and after it only `!` and
/// newlines may stand, to the end of the text. The first other character is
/// dead code. The token's text is the `!` and what follows the white space.
pub open spec fn strict_marker_step(src: Source, p: int) -> Step {
    let tail = run_end(src, p + 1, Run::Blank);
    let stop = run_end(src, tail, Run::Marker);
    if stop < src.len() {
        Step::Fail { error: LexError::DeadCode(location_at(src.text, stop)) }
    } else {
        Step::Finish {
            token: TokenView {
                ty: TokenType::Eol,
                value: seq!['!'] + src.text.subrange(tail, stop),
                location: location_at(src.text, stop),
            },
        }
    }
}

/// At a `?` at `p`: white space is skipped, and whatever is left after it is
/// dead code.
pub open spec fn debug_marker_step(src: Source, p: int) -> Step {
    let tail = run_end(src, p + 1, Run::Blank);
    if tail < src.len() {
        Step::Fail { error: LexError::DeadCode(location_at(src.text, tail)) }
    } else {
        Step::Finish {
            token: TokenView {
                ty: TokenType::EolDebug,
                value: seq!['?'],
                location: location_at(src.text, tail),
            },
        }
    }
}

/// At a `=` at `p`: together with a `>` right after it, it is an arrow,
/// emitted with the cursor on the `>`; by itself it is an equals sign.
pub open spec fn equals_step(src: Source, p: int) -> Step {
    if p + 1 < src.len() && src.text[p + 1] == '>' {
        Step::Continue {
            emitted: seq![token_at(TokenType::Arrow, src, p, p + 2, p + 1)],
            next: p + 2,
        }
    } else {
        Step::Continue { emitted: seq![token_at(TokenType::Equals, src, p, p + 1, p)], next: p + 1 }
    }
}

/// Where the integer literal that starts at `p` ends.
pub open spec fn number_end(src: Source, p: int) -> int {
    run_end(src, p, Run::Digits)
}

/// The token of the integer literal that starts at `p`.
pub open spec fn number_token(src: Source, p: int) -> TokenView {
    token_at(TokenType::IntLiteral, src, p, number_end(src, p), number_end(src, p))
}

/// Where the word that starts at `p` ends: after its first character,
/// whatever that is, and the alphanumeric characters that follow it.
pub open spec fn word_end(src: Source, p: int) -> int {
    run_end(src, advance(src, p), Run::Word)
}

/// The token of the word that starts at `p`.
pub open spec fn word_token(src: Source, p: int) -> TokenView {
    let end = word_end(src, p);
    token_at(keyword_kind(src.text.subrange(p, end)), src, p, end, end)
}

/// At any other character at `p`, by its class.
///
/// If it is numeric, an integer literal runs from `p` as far as the numeric
/// characters do, and the character after it is dropped. If it is
/// alphabetic, a word runs from `p`, or from the end of the integer literal
/// if it is numeric as well, and the scan goes on right after the word. If
/// it is neither, it is skipped.
pub open spec fn other_step(src: Source, p: int) -> Step {
    let class = src.classes[p];
    let digits = if class.numeric {
        seq![number_token(src, p)]
    } else {
        Seq::empty()
    };
    let after_digits = if class.numeric {
        number_end(src, p)
    } else {
        p
    };
    if class.alphabetic {
        Step::Continue {
            emitted: digits.push(word_token(src, after_digits)),
            next: advance(src, word_end(src, after_digits) - 1),
        }
    } else {
        Step::Continue { emitted: digits, next: advance(src, after_digits) }
    }
}

/// What the tokenizer does at the character at `p`.
pub open spec fn step(src: Source, p: int) -> Step {
    let c = src.text[p];
    if c == ' ' {
        Step::Continue { emitted: Seq::empty(), next: p + 1 }
    } else if c == '"' {
        string_step(src, p)
    } else if c == '!' {
        strict_marker_step(src, p)
    } else if c == '?' {
        debug_marker_step(src, p)
    } else if c == '=' {
        equals_step(src, p)
    } else if let Some(ty) = punctuation(c) {
        Step::Continue { emitted: seq![token_at(ty, src, p, p + 1, p)], next: p + 1 }
    } else {
        other_step(src, p)
    }
}

/// Where the white space that starts at `pos` ends. A single space that is
/// the whole rest of the text is not skipped.
pub open spec fn skip_blanks(src: Source, pos: int) -> int {
    if pos + 1 == src.len() && src.text[pos] == ' ' {
        pos
    } else {
        run_end(src, pos, Run::Blank)
    }
}

/// The result of a scan that ends at `pos` with `tokens` emitted: the tokens,
/// unless there are some and the last of them does not terminate its line.
pub open spec fn finish(src: Source, pos: int, tokens: Seq<TokenView>) -> Result<
    Seq<TokenView>,
    LexError,
> {
    if tokens.len() > 0 && !tokens.last().ty.is_terminator() {
        Err(LexError::UnterminatedLine(location_at(src.text, pos)))
    } else {
        Ok(tokens)
    }
}

/// The result of scanning `src` from `pos` on, with `tokens` emitted so far.
///
/// While characters are left, white space is skipped and a step is taken at
/// the character after it. A step that fails ends the scan with its error,
/// and one that finishes ends it with the tokens. At the end of the text the
/// scan ends as [`finish`] says.
pub open spec fn lex_from(src: Source, pos: int, tokens: Seq<TokenView>) -> Result<
    Seq<TokenView>,
    LexError,
>
    decreases src.len() - pos,
    via lex_from_decreases
{
    if 0 <= pos < src.len() {
        let p = skip_blanks(src, pos);
        if p < src.len() {
            match step(src, p) {
                Step::Continue { emitted, next } => lex_from(src, next, tokens + emitted),
                Step::Finish { token } => Ok(tokens.push(token)),
                Step::Fail { error } => Err(error),
            }
        } else {
            finish(src, p, tokens)
        }
    } else {
        finish(src, pos, tokens)
    }
}

#[via_fn]
proof fn lex_from_decreases(src: Source, pos: int, tokens: Seq<TokenView>) {
    if 0 <= pos < src.len() {
        let p = skip_blanks(src, pos);
        lemma_run_end_bounds(src, pos, Run::Blank);
        if p < src.len() {
            lemma_step_advances(src, p);
        }
    }
}

/// The result of scanning the whole of the text `s`, classified by Unicode.
pub open spec fn lex_text(s: Seq<char>) -> Result<Seq<TokenView>, LexError> {
    lex_from(unicode(s), 0, Seq::empty())
}

/// A run ends at or after its start and within the text.
pub proof fn lemma_run_end_bounds(src: Source, from: int, run: Run)
    ensures
        from <= run_end(src, from, run),
        from <= src.len() ==> run_end(src, from, run) <= src.len(),
    decreases src.len() - from,
{
    if 0 <= from < src.len() && belongs_at(src, from, run) {
        lemma_run_end_bounds(src, from + 1, run);
    }
}

/// A position that every character from `from` on belongs up to, and that is
/// the end of the text or holds a character that does not belong, is where
/// the run ends.
pub proof fn lemma_run_end_unique(src: Source, from: int, end: int, run: Run)
    requires
        0 <= from <= end <= src.len(),
        forall|i: int| from <= i < end ==> #[trigger] belongs_at(src, i, run),
        end < src.len() ==> !belongs_at(src, end, run),
    ensures
        run_end(src, from, run) == end,
    decreases end - from,
{
    if from < end {
        assert(belongs_at(src, from, run));
        lemma_run_end_unique(src, from + 1, end, run);
    }
}

/// A step that goes on does so after the character it was taken at, and
/// within the text.
pub proof fn lemma_step_advances(src: Source, p: int)
    requires
        0 <= p < src.len(),
    ensures
        step(src, p) matches Step::Continue { next, .. } ==> p < next <= src.len(),
{
    lemma_run_end_bounds(src, p + 1, Run::Quoted);
    lemma_run_end_bounds(src, p, Run::Digits);
    let after_digits = if src.classes[p].numeric {
        number_end(src, p)
    } else {
        p
    };
    lemma_run_end_bounds(src, advance(src, after_digits), Run::Word);
}

} // verus!
