//! The tokenizer: a cursor over the source text and the scan loop on top of it.

pub mod grammar;
pub mod laws;
pub mod location;

use crate::chars::{classes_of, classify_text, is_whitespace, whitespace, CharClass};
use crate::token::{token_views, Location, Token, TokenType, TokenView};
use grammar::{
    advance, belongs, debug_marker_step, equals_step, finish, keyword_kind, lemma_run_end_bounds,
    lemma_run_end_unique, lemma_step_advances, lex_from, lex_text, number_end, number_token,
    punctuation, run_end, skip_blanks, step, strict_marker_step, string_step, token_at, unicode,
    word_end, word_token, Run, Source, Step,
};
use location::{column_at, lemma_location_bounds, line_at, location_at};
use vstd::prelude::*;
use vstd::std_specs::iter::IteratorSpec;
use vstd::string::*;

verus! {

/// The source text together with the scan position in it, counted in
/// characters.
#[derive(Debug, Clone)]
pub struct Input {
    pub input: String,
    pub cursor: u32,
}

/// Why a scan failed, and where.
#[derive(Debug, Clone, Copy, PartialEq, Eq)]
pub enum LexError {
    /// The text ended inside a string literal.
    UnterminatedString(Location),
    /// The scan ended after a token that is not an end-of-line marker.
    UnterminatedLine(Location),
    /// Something stands after an end-of-line marker that may not.
    DeadCode(Location),
}

impl LexError {
    /// The name of the kind of error.
    pub open spec fn name_spec(&self) -> Seq<char> {
        match self {
            LexError::UnterminatedString(_) => "UnterminatedString"@,
            LexError::UnterminatedLine(_) => "UnterminatedLine"@,
            LexError::DeadCode(_) => "DeadCode"@,
        }
    }

    /// Where the error was found.
    pub open spec fn location_spec(&self) -> Location {
        match self {
            LexError::UnterminatedString(at) => *at,
            LexError::UnterminatedLine(at) => *at,
            LexError::DeadCode(at) => *at,
        }
    }

    /// The name of the kind of error.
    pub fn name(&self) -> (r: String)
        ensures
            r@ == self.name_spec(),
    {
        match self {
            Self::UnterminatedString(_) => "UnterminatedString".to_owned(),
            Self::UnterminatedLine(_) => "UnterminatedLine".to_owned(),
            Self::DeadCode(_) => "DeadCode".to_owned(),
        }
    }

    /// Where the error was found.
    pub fn location(&self) -> (r: Location)
        ensures
            r == self.location_spec(),
    {
        match self {
            Self::UnterminatedString(at) => *at,
            Self::UnterminatedLine(at) => *at,
            Self::DeadCode(at) => *at,
        }
    }
}

/// Whether the character `c` of class `class` may stand in a run of kind
/// `run`.
pub fn belongs_to(run: Run, c: char, class: CharClass) -> (b: bool)
    ensures
        b == belongs(run, c, class),
{
    match run {
        Run::Blank => is_whitespace(c),
        Run::Digits => class.numeric,
        Run::Word => class.is_alphanumeric(),
        Run::Quoted => c != '"',
        Run::Marker => c == '!' || c == '\n',
    }
}

/// Whether `a` and `b` are the same text.
pub fn same_text(a: &str, b: &str) -> (same: bool)
    ensures
        same == (a@ == b@),
{
    let len = a.unicode_len();
    if len != b.unicode_len() {
        return false;
    }
    let mut i: usize = 0;
    while i < len
        invariant
            len == a@.len(),
            len == b@.len(),
            i <= len,
            forall|j: int| 0 <= j < i ==> a@[j] == b@[j],
        decreases len - i,
    {
        if a.get_char(i) != b.get_char(i) {
            return false;
        }
        i += 1;
    }
    assert(a@ =~= b@);
    true
}

/// The kind of the word `word`: one of the reserved words, or an identifier.
pub fn classify_word(word: &str) -> (ty: TokenType)
    ensures
        ty == keyword_kind(word@),
{
    if same_text(word, "f") || same_text(word, "fu") || same_text(word, "fun") || same_text(
        word,
        "func",
    ) || same_text(word, "funct") || same_text(word, "functi") || same_text(word, "functio")
        || same_text(word, "function") {
        TokenType::FunctionDeclaration
    } else if same_text(word, "Int") || same_text(word, "String") || same_text(word, "Char")
        || same_text(word, "Digit") || same_text(word, "Bool") {
        TokenType::Primitive
    } else if same_text(word, "true") || same_text(word, "false") || same_text(word, "maybe") {
        TokenType::BoolLiteral
    } else if same_text(word, "return") {
        TokenType::Return
    } else {
        TokenType::Identifier
    }
}

/// The kind of the token that the single character `c` stands for, if it
/// stands for one by itself.
pub fn punctuation_kind(c: char) -> (ty: Option<TokenType>)
    ensures
        ty == punctuation(c),
{
    match c {
        ',' => Some(TokenType::Comma),
        '(' => Some(TokenType::Lparen),
        ')' => Some(TokenType::Rparen),
        '{' => Some(TokenType::Lbrace),
        '}' => Some(TokenType::Rbrace),
        ';' => Some(TokenType::Not),
        _ => None,
    }
}

impl Input {
    /// The cursor lies within the text, and the text is short enough for
    /// every position in it, and every line and column, to fit in a `u32`.
    pub open spec fn wf(&self) -> bool {
        self.cursor <= self.input@.len() < u32::MAX
    }

    /// The number of characters from the cursor to the end of the text.
    pub open spec fn remaining(&self) -> int {
        self.input@.len() - self.cursor
    }

    /// The next `chars` characters, or nothing where fewer are left.
    pub open spec fn upcoming(&self, chars: int) -> Seq<char> {
        if chars <= self.remaining() {
            self.input@.subrange(self.cursor as int, self.cursor + chars)
        } else {
            Seq::empty()
        }
    }

    /// Wraps a text, with the cursor at its start.
    pub fn of(input: String) -> (r: Input)
        ensures
            r.input@ == input@,
            r.cursor == 0,
    {
        Self { input, cursor: 0 }
    }

    /// Whether [`Input::wf`] holds.
    pub fn is_well_formed(&self) -> (b: bool)
        ensures
            b == self.wf(),
    {
        let len = self.input.as_str().unicode_len();
        self.cursor as usize <= len && len < u32::MAX as usize
    }

    /// Moves the cursor `chars` characters on, or leaves it where it is if
    /// that would take it past the end of the text.
    pub fn move_cursor(&mut self, chars: u32)
        requires
            old(self).wf(),
        ensures
            final(self).input == old(self).input,
            final(self).cursor == if chars <= old(self).remaining() {
                old(self).cursor + chars
            } else {
                old(self).cursor as int
            },
    {
        let len = self.input.as_str().unicode_len();
        if chars as usize > len - self.cursor as usize {
            return ;
        }
        self.cursor += chars;
    }

    /// The number of characters that have not been read yet.
    pub fn remaining_length(&self) -> (n: u32)
        requires
            self.wf(),
        ensures
            n == self.remaining(),
    {
        (self.input.as_str().unicode_len() - self.cursor as usize) as u32
    }

    /// The character at the cursor, if any is left.
    pub fn peek(&self) -> (c: Option<char>)
        ensures
            c == if self.cursor < self.input@.len() {
                Some(self.input@[self.cursor as int])
            } else {
                None
            },
    {
        let text = self.input.as_str();
        if (self.cursor as usize) < text.unicode_len() {
            Some(text.get_char(self.cursor as usize))
        } else {
            None
        }
    }

    /// Whether any character is left to read.
    pub fn has_remaining_input(&self) -> (b: bool)
        ensures
            b == (self.cursor < self.input@.len()),
    {
        (self.cursor as usize) < self.input.as_str().unicode_len()
    }

    /// Whether the whole rest of the text is one plain space.
    pub open spec fn lone_space(&self) -> bool {
        self.remaining() == 1 && self.input@[self.cursor as int] == ' '
    }

    /// Moves the cursor past white space: past at most `max_spaces`
    /// characters, stopping early at the first that is not white space.
    ///
    /// With `preserve_single`, a text whose whole rest is one plain space is
    /// left as it is.
    pub fn skip_whitespace(&mut self, max_spaces: u32, preserve_single: bool)
        requires
            old(self).wf(),
        ensures
            final(self).input == old(self).input,
            old(self).cursor <= final(self).cursor <= old(self).cursor + max_spaces,
            final(self).cursor <= final(self).input@.len(),
            forall|i: int|
                old(self).cursor <= i < final(self).cursor ==> whitespace(
                    #[trigger] final(self).input@[i],
                ),
            if preserve_single && old(self).lone_space() {
                final(self).cursor == old(self).cursor
            } else {
                ||| final(self).cursor == old(self).cursor + max_spaces
                ||| final(self).remaining() == 0
                ||| !whitespace(final(self).input@[final(self).cursor as int])
            },
    {
        if preserve_single && self.remaining_length() == 1 && self.peek() == Some(' ') {
            return ;
        }
        let mut i: u32 = 0;
        while i < max_spaces && self.blank_ahead()
            invariant
                self.wf(),
                self.input == old(self).input,
                self.cursor == old(self).cursor + i,
                i <= max_spaces,
                forall|j: int|
                    old(self).cursor <= j < self.cursor ==> whitespace(#[trigger] self.input@[j]),
            decreases max_spaces - i,
        {
            self.move_cursor(1);
            i += 1;
        }
    }

    /// Whether a white space character stands at the cursor.
    fn blank_ahead(&self) -> (b: bool)
        ensures
            b == (self.cursor < self.input@.len() && whitespace(self.input@[self.cursor as int])),
    {
        match self.peek() {
            Some(c) => is_whitespace(c),
            None => false,
        }
    }

    /// The text from the cursor to the end.
    pub fn remaining_input(&self) -> (r: String)
        requires
            self.cursor <= self.input@.len(),
        ensures
            r@ == self.input@.subrange(self.cursor as int, self.input@.len() as int),
    {
        let text = self.input.as_str();
        text.substring_char(self.cursor as usize, text.unicode_len()).to_owned()
    }

    /// The next `chars` characters without moving the cursor, or the empty
    /// text if fewer than `chars` are left.
    pub fn peek_string_chars(&self, chars: u32) -> (r: String)
        requires
            self.wf(),
        ensures
            r@ == self.upcoming(chars as int),
    {
        let text = self.input.as_str();
        if chars as usize > text.unicode_len() - self.cursor as usize {
            return String::new();
        }
        text.substring_char(self.cursor as usize, self.cursor as usize + chars as usize).to_owned()
    }

    /// Reads the next `chars` characters and moves the cursor past them. If
    /// fewer are left, nothing is read and the cursor stays.
    pub fn read(&mut self, chars: u32) -> (r: String)
        requires
            old(self).wf(),
        ensures
            final(self).input == old(self).input,
            r@ == old(self).upcoming(chars as int),
            final(self).cursor == old(self).cursor + r@.len(),
            chars <= old(self).remaining() ==> r@.len() == chars,
    {
        let read_string = self.peek_string_chars(chars);
        self.move_cursor(chars);
        read_string
    }

    /// The line and column of the cursor.
    pub fn current_location(&self) -> (r: Location)
        requires
            self.wf(),
        ensures
            r == location_at(self.input@, self.cursor as int),
    {
        let mut rest = self.input.as_str().chars();
        let mut line: u32 = 1;
        let mut col: u32 = 1;
        let mut i: u32 = 0;
        while i < self.cursor
            invariant
                self.wf(),
                i <= self.cursor,
                rest.remaining() == self.input@.subrange(i as int, self.input@.len() as int),
                line == line_at(self.input@, i as int),
                col == column_at(self.input@, i as int),
            decreases self.cursor - i,
        {
            proof {
                lemma_location_bounds(self.input@, i as int);
            }
            let ghost before = rest.remaining();
            let c = rest.next();
            assert(c == Some(self.input@[i as int]));
            assert(rest.remaining() == self.input@.subrange(i + 1, self.input@.len() as int));
            if c == Some('\n') {
                line += 1;
                col = 1;
            } else {
                col += 1;
            }
            i += 1;
        }
        Location { line, col }
    }
}

/// A scan in progress: the input, the tokens emitted so far, and the class of
/// each character of the input.
pub struct Lexer {
    pub input: Input,
    pub tokens: Vec<Token>,
    pub classes: Vec<CharClass>,
}

/// What a scan returned, with the tokens as their views.
pub open spec fn outcome(r: Result<Vec<Token>, LexError>) -> Result<Seq<TokenView>, LexError> {
    match r {
        Ok(tokens) => Ok(token_views(tokens@)),
        Err(error) => Err(error),
    }
}

impl Lexer {
    /// The input is well formed and every character of it has its class.
    pub open spec fn wf(&self) -> bool {
        self.input.wf() && self.source().wf()
    }

    /// What is scanned.
    pub open spec fn source(&self) -> Source {
        Source { text: self.input.input@, classes: self.classes@ }
    }

    /// The position of the cursor in the text.
    pub open spec fn position(&self) -> int {
        self.input.cursor as int
    }

    /// The tokens emitted so far.
    pub open spec fn emitted(&self) -> Seq<TokenView> {
        token_views(self.tokens@)
    }

    /// A scan of `input` from its cursor on, with no token emitted yet and
    /// the characters classified by Unicode.
    pub fn new(input: Input) -> (r: Lexer)
        ensures
            r.input == input,
            r.tokens@ == Seq::<Token>::empty(),
            r.classes@ == classes_of(input.input@),
            input.wf() ==> r.wf(),
    {
        let classes = classify_text(input.input.as_str());
        Lexer { input, tokens: Vec::new(), classes }
    }

    /// A scan of `input` from its cursor on, with no token emitted yet and
    /// the characters classified by `classes`.
    pub fn with_classes(input: Input, classes: Vec<CharClass>) -> (r: Lexer)
        ensures
            r.input == input,
            r.tokens@ == Seq::<Token>::empty(),
            r.classes == classes,
    {
        Lexer { input, tokens: Vec::new(), classes }
    }

    /// Whether [`Lexer::wf`] holds.
    pub fn is_well_formed(&self) -> (b: bool)
        ensures
            b == self.wf(),
    {
        self.input.is_well_formed() && self.classes.len() == self.input.input.as_str().unicode_len()
    }

    /// Emits a token of kind `token` with text `value`, located at the
    /// cursor.
    pub fn add_token(&mut self, token: TokenType, value: String)
        requires
            old(self).input.wf(),
        ensures
            final(self).input == old(self).input,
            final(self).classes == old(self).classes,
            final(self).tokens@ == old(self).tokens@.push(
                Token {
                    ty: token,
                    value,
                    location: location_at(old(self).input.input@, old(self).position()),
                },
            ),
            final(self).emitted() == old(self).emitted().push(
                TokenView {
                    ty: token,
                    value: value@,
                    location: location_at(old(self).input.input@, old(self).position()),
                },
            ),
    {
        let location = self.input.current_location();
        let token = Token { ty: token, value, location };
        assert(token_views(self.tokens@.push(token)) =~= token_views(self.tokens@).push(token@));
        self.tokens.push(token);
    }

    /// Whether a character stands at the cursor that belongs to a run of
    /// kind `run`.
    fn next_belongs(&self, run: Run) -> (b: bool)
        requires
            self.wf(),
        ensures
            b == (self.position() < self.source().len() && grammar::belongs_at(
                self.source(),
                self.position(),
                run,
            )),
    {
        match self.input.peek() {
            Some(c) => belongs_to(run, c, self.classes[self.input.cursor as usize]),
            None => false,
        }
    }

    /// Whether `self` scans what `before` scanned, and is well formed.
    pub open spec fn follows(&self, before: &Lexer) -> bool {
        &&& self.wf()
        &&& self.input.input == before.input.input
        &&& self.classes == before.classes
    }

    /// Skips white space without a bound, as [`Input::skip_whitespace`] does.
    fn skip_blanks(&mut self, preserve_single: bool)
        requires
            old(self).wf(),
        ensures
            final(self).follows(old(self)),
            final(self).tokens == old(self).tokens,
            final(self).position() == if preserve_single {
                skip_blanks(old(self).source(), old(self).position())
            } else {
                run_end(old(self).source(), old(self).position(), Run::Blank)
            },
    {
        self.input.skip_whitespace(u32::MAX, preserve_single);
        proof {
            let src = self.source();
            let from = old(self).position();
            if preserve_single && old(self).input.lone_space() {
                assert(run_end(src, from + 1, Run::Blank) == from + 1);
            } else {
                assert forall|i: int| from <= i < self.position() implies #[trigger] grammar::belongs_at(
                    src,
                    i,
                    Run::Blank,
                ) by {
                    assert(whitespace(self.input.input@[i]));
                }
                lemma_run_end_unique(src, from, self.position(), Run::Blank);
            }
        }
    }

    /// Reads characters for as long as they belong to a run of kind `run`
    /// and appends them to `text`.
    fn read_run(&mut self, run: Run, text: &mut String)
        requires
            old(self).wf(),
        ensures
            final(self).follows(old(self)),
            final(self).tokens == old(self).tokens,
            final(self).position() == run_end(old(self).source(), old(self).position(), run),
            final(text)@ == old(text)@ + old(self).input.input@.subrange(
                old(self).position(),
                final(self).position(),
            ),
    {
        let ghost src = self.source();
        let ghost from = self.position();
        assert(text@ =~= old(text)@ + src.text.subrange(from, from));
        while self.next_belongs(run)
            invariant
                self.follows(old(self)),
                self.tokens == old(self).tokens,
                src == self.source(),
                0 <= from <= self.position(),
                run_end(src, self.position(), run) == run_end(src, from, run),
                text@ == old(text)@ + src.text.subrange(from, self.position()),
            decreases src.len() - self.position(),
        {
            let ghost at = self.position();
            let piece = self.input.read(1);
            text.append(piece.as_str());
            assert(text@ =~= old(text)@ + src.text.subrange(from, at + 1));
        }
    }

    /// Scans an integer literal from the cursor on and emits it.
    fn lex_number(&mut self)
        requires
            old(self).wf(),
        ensures
            final(self).follows(old(self)),
            final(self).position() == number_end(old(self).source(), old(self).position()),
            final(self).emitted() == old(self).emitted().push(
                number_token(old(self).source(), old(self).position()),
            ),
    {
        let mut number = String::new();
        self.read_run(Run::Digits, &mut number);
        assert(number@ =~= self.input.input@.subrange(old(self).position(), self.position()));
        self.add_token(TokenType::IntLiteral, number);
    }

    /// Scans a word from the cursor on and emits it as the reserved word that
    /// it is, or as an identifier. The cursor is left on the last character
    /// of the word, for the scan loop to step over.
    fn lex_identifier(&mut self)
        requires
            old(self).wf(),
            old(self).source().len() > 0,
        ensures
            final(self).follows(old(self)),
            final(self).position() == word_end(old(self).source(), old(self).position()) - 1,
            final(self).emitted() == old(self).emitted().push(
                word_token(old(self).source(), old(self).position()),
            ),
    {
        let ghost src = self.source();
        let ghost from = self.position();
        let mut ident = self.input.read(1);
        self.read_run(Run::Word, &mut ident);
        proof {
            lemma_run_end_bounds(src, advance(src, from), Run::Word);
        }
        assert(ident@ =~= src.text.subrange(from, self.position()));
        let ty = classify_word(ident.as_str());
        self.add_token(ty, ident);
        self.input.cursor -= 1;
    }

    /// Scans a string literal whose opening quote stands at the cursor, and
    /// emits it. The cursor is left on the closing quote.
    fn lex_string(&mut self) -> (r: Result<(), LexError>)
        requires
            old(self).wf(),
            old(self).position() < old(self).source().len(),
        ensures
            final(self).follows(old(self)),
            match string_step(old(self).source(), old(self).position()) {
                Step::Continue { emitted, next } => r is Ok && final(self).emitted() == old(
                    self,
                ).emitted() + emitted && final(self).position() + 1 == next,
                Step::Finish { token } => false,
                Step::Fail { error } => r == Err::<(), LexError>(error),
            },
    {
        let ghost src = self.source();
        let ghost from = self.position();
        let mut text = String::new();
        self.input.move_cursor(1);
        self.read_run(Run::Quoted, &mut text);
        if !self.input.has_remaining_input() {
            return Err(LexError::UnterminatedString(self.input.current_location()));
        }
        assert(text@ =~= src.text.subrange(from + 1, self.position()));
        self.add_token(TokenType::StringLiteral, text);
        assert(self.emitted() =~= old(self).emitted() + seq![
            token_at(TokenType::StringLiteral, src, from + 1, self.position(), self.position()),
        ]);
        Ok(())
    }

    /// Scans a strict end-of-line marker whose `!` stands at the cursor, to
    /// the end of the text, and emits it.
    fn lex_strict_marker(&mut self) -> (r: Result<(), LexError>)
        requires
            old(self).wf(),
            old(self).position() < old(self).source().len(),
            old(self).source().text[old(self).position()] == '!',
        ensures
            final(self).follows(old(self)),
            match strict_marker_step(old(self).source(), old(self).position()) {
                Step::Continue { emitted, next } => false,
                Step::Finish { token } => r is Ok && final(self).emitted() == old(
                    self,
                ).emitted().push(token),
                Step::Fail { error } => r == Err::<(), LexError>(error),
            },
    {
        let mut eol = self.input.read(1);
        assert(eol@ =~= seq!['!']);
        self.skip_blanks(false);
        self.read_run(Run::Marker, &mut eol);
        if self.input.has_remaining_input() {
            return Err(LexError::DeadCode(self.input.current_location()));
        }
        self.add_token(TokenType::Eol, eol);
        Ok(())
    }

    /// Scans a debug end-of-line marker whose `?` stands at the cursor, and
    /// emits it.
    ///
    /// Only a newline may follow the marker and the white space after it. The
    /// white space includes every newline, so whatever is left after it is
    /// dead code.
    fn lex_debug_marker(&mut self) -> (r: Result<(), LexError>)
        requires
            old(self).wf(),
            old(self).position() < old(self).source().len(),
            old(self).source().text[old(self).position()] == '?',
        ensures
            final(self).follows(old(self)),
            match debug_marker_step(old(self).source(), old(self).position()) {
                Step::Continue { emitted, next } => false,
                Step::Finish { token } => r is Ok && final(self).emitted() == old(
                    self,
                ).emitted().push(token),
                Step::Fail { error } => r == Err::<(), LexError>(error),
            },
    {
        let mark = self.input.read(1);
        assert(mark@ =~= seq!['?']);
        self.skip_blanks(false);
        if self.input.has_remaining_input() {
            return Err(LexError::DeadCode(self.input.current_location()));
        }
        self.add_token(TokenType::EolDebug, mark);
        Ok(())
    }

    /// Scans an arrow or an equals sign whose `=` stands at the cursor, and
    /// emits it. The cursor is left on the last character of the token.
    fn lex_equals(&mut self)
        requires
            old(self).wf(),
            old(self).position() < old(self).source().len(),
        ensures
            final(self).follows(old(self)),
            match equals_step(old(self).source(), old(self).position()) {
                Step::Continue { emitted, next } => final(self).emitted() == old(self).emitted()
                    + emitted && final(self).position() + 1 == next,
                Step::Finish { token } => false,
                Step::Fail { error } => false,
            },
    {
        let ghost src = self.source();
        let ghost from = self.position();
        let pair = self.input.peek_string_chars(2);
        if pair.as_str().unicode_len() == 2 && pair.as_str().get_char(1) == '>' {
            self.input.move_cursor(1);
            self.add_token(TokenType::Arrow, pair);
            assert(self.emitted() =~= old(self).emitted() + seq![
                token_at(TokenType::Arrow, src, from, from + 2, from + 1),
            ]);
        } else {
            let sign = self.input.peek_string_chars(1);
            self.add_token(TokenType::Equals, sign);
            assert(self.emitted() =~= old(self).emitted() + seq![
                token_at(TokenType::Equals, src, from, from + 1, from),
            ]);
        }
    }

    /// Scans the text from the cursor to its end, or to the end-of-line
    /// marker that terminates it.
    ///
    /// The result is [`lex_from`] of the source, the cursor and the tokens
    /// emitted before: the tokens in source order, or the first error. Tokens
    /// that are returned are empty or end in an end-of-line marker.
    pub fn lex(self) -> (r: Result<Vec<Token>, LexError>)
        requires
            self.wf(),
        ensures
            outcome(r) == lex_from(self.source(), self.position(), self.emitted()),
            r matches Ok(tokens) ==> tokens@.len() == 0 || tokens@.last().ty.is_terminator(),
    {
        let mut lexer = self;
        let ghost src = lexer.source();
        let ghost goal = lex_from(src, lexer.position(), lexer.emitted());
        while lexer.input.has_remaining_input()
            invariant_except_break
                lex_from(src, lexer.position(), lexer.emitted()) == goal,
            invariant
                lexer.wf(),
                lexer.source() == src,
                goal == lex_from(self.source(), self.position(), self.emitted()),
            ensures
                finish(src, lexer.position(), lexer.emitted()) == goal,
            decreases src.len() - lexer.position(),
        {
            let ghost before = lexer.emitted();
            let ghost from = lexer.position();
            lexer.skip_blanks(true);
            let ghost p = lexer.position();
            proof {
                lemma_run_end_bounds(src, from, Run::Blank);
            }
            let next = lexer.input.peek();
            if next.is_none() {
                break ;
            }
            let current = next.unwrap();
            proof {
                lemma_step_advances(src, p);
            }
            if current == ' ' {
            } else if current == '"' {
                match lexer.lex_string() {
                    Ok(()) => {},
                    Err(error) => {
                        return Err(error);
                    },
                }
            } else if current == '!' {
                match lexer.lex_strict_marker() {
                    Ok(()) => {
                        break ;
                    },
                    Err(error) => {
                        return Err(error);
                    },
                }
            } else if current == '?' {
                match lexer.lex_debug_marker() {
                    Ok(()) => {
                        break ;
                    },
                    Err(error) => {
                        return Err(error);
                    },
                }
            } else if current == '=' {
                lexer.lex_equals();
            } else if let Some(ty) = punctuation_kind(current) {
                let text = lexer.input.peek_string_chars(1);
                lexer.add_token(ty, text);
                assert(lexer.emitted() =~= before + seq![token_at(ty, src, p, p + 1, p)]);
            } else {
                let class = lexer.classes[lexer.input.cursor as usize];
                if class.numeric {
                    lexer.lex_number();
                }
                if class.alphabetic {
                    lexer.lex_identifier();
                }
                assert(lexer.emitted() =~= before + step(src, p)->emitted);
            }
            lexer.input.move_cursor(1);
        }
        if lexer.tokens.len() > 0 && !lexer.tokens[lexer.tokens.len() - 1].ty.ends_line() {
            return Err(LexError::UnterminatedLine(lexer.input.current_location()));
        }
        Ok(lexer.tokens)
    }
}

/// Scans the text of `input` from its cursor on, with the characters
/// classified by Unicode: see [`Lexer::lex`].
pub fn lex(input: Input) -> (r: Result<Vec<Token>, LexError>)
    requires
        input.wf(),
    ensures
        outcome(r) == lex_from(unicode(input.input@), input.cursor as int, Seq::empty()),
        input.cursor == 0 ==> outcome(r) == lex_text(input.input@),
        r matches Ok(tokens) ==> tokens@.len() == 0 || tokens@.last().ty.is_terminator(),
{
    let lexer = Lexer::new(input);
    assert(lexer.emitted() =~= Seq::empty());
    lexer.lex()
}

} // verus!
