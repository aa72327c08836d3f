//! Tokens, their kinds and their source locations.

use vstd::prelude::*;
use vstd::string::*;

verus! {

/// The kind of a token.
#[derive(Debug, Clone, Copy, PartialEq, Eq, PartialOrd, Ord, Structural)]
pub enum TokenType {
    FunctionDeclaration,
    Identifier,
    Lparen,
    Rparen,
    Arrow,
    Lbrace,
    Rbrace,
    StringLiteral,
    Eol,
    EolDebug,
    IntLiteral,
    Primitive,
    Comma,
    BoolLiteral,
    Return,
    Not,
    Equals,
}

/// A one-based line and column in the source text.
#[derive(Debug, Clone, Copy, PartialEq, Eq, PartialOrd, Ord, Structural)]
pub struct Location {
    pub line: u32,
    pub col: u32,
}

/// A token: its kind, its text, and the location at which it was emitted.
#[derive(Clone, PartialEq, Eq, PartialOrd, Ord)]
pub struct Token {
    pub ty: TokenType,
    pub value: String,
    pub location: Location,
}

/// What a [`Token`] holds, with its text as a sequence of characters.
pub struct TokenView {
    pub ty: TokenType,
    pub value: Seq<char>,
    pub location: Location,
}

impl View for Token {
    type V = TokenView;

    open spec fn view(&self) -> TokenView {
        TokenView { ty: self.ty, value: self.value@, location: self.location }
    }
}

/// The views of a sequence of tokens, in the same order.
pub open spec fn token_views(tokens: Seq<Token>) -> Seq<TokenView> {
    tokens.map_values(|t: Token| t@)
}

impl TokenType {
    /// Whether a token of this kind ends a line: the strict marker and the
    /// debug marker do.
    pub open spec fn is_terminator(self) -> bool {
        self == TokenType::Eol || self == TokenType::EolDebug
    }

    /// Whether a token of this kind ends a line.
    pub fn ends_line(self) -> (b: bool)
        ensures
            b == self.is_terminator(),
    {
        self == TokenType::Eol || self == TokenType::EolDebug
    }

    /// Whether the text of a token of this kind is shown when the token is
    /// rendered.
    pub open spec fn has_payload(self) -> bool {
        ||| self == TokenType::Identifier
        ||| self == TokenType::StringLiteral
        ||| self == TokenType::IntLiteral
        ||| self == TokenType::Primitive
        ||| self == TokenType::BoolLiteral
    }

    /// The name of this kind.
    pub open spec fn name_spec(self) -> Seq<char> {
        match self {
            TokenType::FunctionDeclaration => "FunctionDeclaration"@,
            TokenType::Identifier => "Identifier"@,
            TokenType::Lparen => "Lparen"@,
            TokenType::Rparen => "Rparen"@,
            TokenType::Arrow => "Arrow"@,
            TokenType::Lbrace => "Lbrace"@,
            TokenType::Rbrace => "Rbrace"@,
            TokenType::StringLiteral => "StringLiteral"@,
            TokenType::Eol => "Eol"@,
            TokenType::EolDebug => "EolDebug"@,
            TokenType::IntLiteral => "IntLiteral"@,
            TokenType::Primitive => "Primitive"@,
            TokenType::Comma => "Comma"@,
            TokenType::BoolLiteral => "BoolLiteral"@,
            TokenType::Return => "Return"@,
            TokenType::Not => "Not"@,
            TokenType::Equals => "Equals"@,
        }
    }

    /// The name of this kind.
    pub fn name(self) -> (r: &'static str)
        ensures
            r@ == self.name_spec(),
    {
        match self {
            TokenType::FunctionDeclaration => "FunctionDeclaration",
            TokenType::Identifier => "Identifier",
            TokenType::Lparen => "Lparen",
            TokenType::Rparen => "Rparen",
            TokenType::Arrow => "Arrow",
            TokenType::Lbrace => "Lbrace",
            TokenType::Rbrace => "Rbrace",
            TokenType::StringLiteral => "StringLiteral",
            TokenType::Eol => "Eol",
            TokenType::EolDebug => "EolDebug",
            TokenType::IntLiteral => "IntLiteral",
            TokenType::Primitive => "Primitive",
            TokenType::Comma => "Comma",
            TokenType::BoolLiteral => "BoolLiteral",
            TokenType::Return => "Return",
            TokenType::Not => "Not",
            TokenType::Equals => "Equals",
        }
    }
}

/// The text that `Debug` formatting writes for a string: the string between
/// double quotes, with the characters that cannot stand for themselves
/// escaped.
pub uninterp spec fn debug_quoted(s: Seq<char>) -> Seq<char>;

/// `Debug` formatting of `str`, from the standard library. The contract only
/// gives the text that it writes the name [`debug_quoted`].
#[verifier::external_body]
fn quote(s: &str) -> (r: String)
    ensures
        r@ == debug_quoted(s@),
{
    format!("{:?}", s)
}

/// How a token of kind `ty` with text `value` is rendered, where `quoted` is
/// the text in its quoted form: the name of the kind, followed in parentheses
/// by the text for the kinds that show it, which for a string literal is the
/// quoted form.
pub open spec fn rendering(ty: TokenType, value: Seq<char>, quoted: Seq<char>) -> Seq<char> {
    if ty == TokenType::StringLiteral {
        ty.name_spec() + "("@ + quoted + ")"@
    } else if ty.has_payload() {
        ty.name_spec() + "("@ + value + ")"@
    } else {
        ty.name_spec()
    }
}

/// Renders a token of kind `ty` with text `value`, given the quoted form of
/// the text.
pub fn render_parts(ty: TokenType, value: &str, quoted: &str) -> (r: String)
    ensures
        r@ == rendering(ty, value@, quoted@),
{
    let mut r = String::from_str(ty.name());
    match ty {
        TokenType::StringLiteral => {
            r.append("(");
            r.append(quoted);
            r.append(")");
        },
        TokenType::Identifier
        | TokenType::IntLiteral
        | TokenType::Primitive
        | TokenType::BoolLiteral => {
            r.append("(");
            r.append(value);
            r.append(")");
        },
        _ => {},
    }
    r
}

impl Token {
    /// The stable textual form of the token: see [`rendering`].
    pub fn render(&self) -> (r: String)
        ensures
            r@ == rendering(self.ty, self.value@, debug_quoted(self.value@)),
    {
        let quoted = quote(self.value.as_str());
        render_parts(self.ty, self.value.as_str(), quoted.as_str())
    }
}

} // verus!
