//! What holds of every scan, proved from the grammar.
//!
//! The laws are stated for any source, whatever the classes of its
//! characters, and for any position and any tokens emitted before it: so they
//! hold at every point that a scan can reach.

use crate::chars::whitespace;
use crate::lexer::grammar::{
    belongs_at, keyword_kind, lemma_run_end_bounds, lemma_run_end_unique, lemma_step_advances,
    lex_from, run_end, skip_blanks, step, Run, Source, Step,
};
use crate::lexer::location::location_at;
use crate::lexer::LexError;
use crate::token::{TokenType, TokenView};
use vstd::prelude::*;

verus! {

/// A scan that succeeds returns no token at all, or tokens of which the last
/// is an end-of-line marker.
pub proof fn accepted_tokens_end_in_marker(src: Source, pos: int, tokens: Seq<TokenView>)
    ensures
        lex_from(src, pos, tokens) matches Ok(found) ==> found.len() == 0
            || found.last().ty.is_terminator(),
    decreases src.len() - pos,
{
    if 0 <= pos < src.len() {
        let p = skip_blanks(src, pos);
        lemma_run_end_bounds(src, pos, Run::Blank);
        if p < src.len() {
            lemma_step_advances(src, p);
            if let Step::Continue { emitted, next } = step(src, p) {
                accepted_tokens_end_in_marker(src, next, tokens + emitted);
            }
        }
    }
}

/// A scan that succeeds returns the tokens emitted before it, followed by
/// those that it emits: tokens come in source order and none is taken back.
pub proof fn accepted_tokens_extend_earlier_ones(src: Source, pos: int, tokens: Seq<TokenView>)
    ensures
        lex_from(src, pos, tokens) matches Ok(found) ==> tokens.len() <= found.len()
            && found.subrange(0, tokens.len() as int) == tokens,
    decreases src.len() - pos,
{
    if let Ok(found) = lex_from(src, pos, tokens) {
        if 0 <= pos < src.len() && skip_blanks(src, pos) < src.len() {
            let p = skip_blanks(src, pos);
            lemma_run_end_bounds(src, pos, Run::Blank);
            lemma_step_advances(src, p);
            if let Step::Continue { emitted, next } = step(src, p) {
                accepted_tokens_extend_earlier_ones(src, next, tokens + emitted);
                assert(found.subrange(0, tokens.len() as int) =~= found.subrange(
                    0,
                    (tokens + emitted).len() as int,
                ).subrange(0, tokens.len() as int));
            }
        }
        assert(found.subrange(0, tokens.len() as int) =~= tokens);
    }
}

/// Every character of a run belongs to it, and the character after it, if
/// there is one, does not.
pub proof fn runs_are_maximal(src: Source, from: int, run: Run)
    requires
        0 <= from <= src.len(),
    ensures
        forall|i: int| from <= i < run_end(src, from, run) ==> #[trigger] belongs_at(src, i, run),
        run_end(src, from, run) < src.len() ==> !belongs_at(src, run_end(src, from, run), run),
    decreases src.len() - from,
{
    if from < src.len() && belongs_at(src, from, run) {
        runs_are_maximal(src, from + 1, run);
    }
}

/// A word is a function declaration exactly if it is a beginning of
/// `function`, of one character or more. So `functions` is an identifier.
pub proof fn function_keyword_is_any_beginning(word: Seq<char>)
    ensures
        keyword_kind(word) == TokenType::FunctionDeclaration <==> 1 <= word.len() <= 8 && word
            == "function"@.subrange(0, word.len() as int),
        keyword_kind("functions"@) == TokenType::Identifier,
{
    reveal_keywords();
    reveal_strlit("functions");
    assert("functions"@.len() == 9);
    let full = "function"@;
    if 1 <= word.len() <= 8 && word == full.subrange(0, word.len() as int) {
        assert(word =~= "f"@ || word =~= "fu"@ || word =~= "fun"@ || word =~= "func"@ || word
            =~= "funct"@ || word =~= "functi"@ || word =~= "functio"@ || word =~= "function"@);
    }
    if keyword_kind(word) == TokenType::FunctionDeclaration {
        assert(word =~= full.subrange(0, word.len() as int));
    }
}

/// A word is a boolean literal exactly if it is `true`, `false` or `maybe`.
pub proof fn boolean_literals_are_three(word: Seq<char>)
    ensures
        keyword_kind(word) == TokenType::BoolLiteral <==> word == "true"@ || word == "false"@
            || word == "maybe"@,
{
    reveal_keywords();
    if word == "true"@ || word == "false"@ || word == "maybe"@ {
        assert(word.len() == 4 || word.len() == 5);
        assert(word[1] == 'r' || word[1] == 'a');
        assert("func"@[1] == 'u' && "funct"@[1] == 'u');
        assert("Char"@[1] == 'h' && "Bool"@[1] == 'o' && "Digit"@[1] == 'i');
    }
}

/// A word is an identifier exactly if it is none of the reserved words.
pub proof fn identifiers_are_the_other_words(word: Seq<char>)
    ensures
        keyword_kind(word) == TokenType::Identifier <==> !(1 <= word.len() <= 8 && word
            == "function"@.subrange(0, word.len() as int)) && word != "Int"@ && word != "String"@
            && word != "Char"@ && word != "Digit"@ && word != "Bool"@ && word != "true"@ && word
            != "false"@ && word != "maybe"@ && word != "return"@,
{
    function_keyword_is_any_beginning(word);
}

/// A string literal that is opened at `p` and not closed before the end of
/// the text fails the scan as unterminated, at the end of the text.
pub proof fn unclosed_string_fails_at_end(src: Source, p: int, tokens: Seq<TokenView>)
    requires
        0 <= p < src.len(),
        src.text[p] == '"',
        forall|i: int| p < i < src.len() ==> src.text[i] != '"',
    ensures
        lex_from(src, p, tokens) == Err::<Seq<TokenView>, LexError>(
            LexError::UnterminatedString(location_at(src.text, src.len())),
        ),
{
    assert(!whitespace('"'));
    assert(skip_blanks(src, p) == p);
    assert forall|i: int| p + 1 <= i < src.len() implies #[trigger] belongs_at(
        src,
        i,
        Run::Quoted,
    ) by {}
    lemma_run_end_unique(src, p + 1, src.len(), Run::Quoted);
}

/// A strict marker at `p` ends the scan with success if only `!` and
/// newlines follow the white space after it. Its token comes last, holds the
/// `!` and what follows the white space, and is located at the end of the
/// text.
pub proof fn strict_marker_accepts_marker_tail(src: Source, p: int, tokens: Seq<TokenView>)
    requires
        0 <= p < src.len(),
        src.text[p] == '!',
        forall|i: int|
            run_end(src, p + 1, Run::Blank) <= i < src.len() ==> src.text[i] == '!' || src.text[i]
                == '\n',
    ensures
        lex_from(src, p, tokens) == Ok::<Seq<TokenView>, LexError>(
            tokens.push(
                TokenView {
                    ty: TokenType::Eol,
                    value: seq!['!'] + src.text.subrange(
                        run_end(src, p + 1, Run::Blank),
                        src.len(),
                    ),
                    location: location_at(src.text, src.len()),
                },
            ),
        ),
{
    let tail = run_end(src, p + 1, Run::Blank);
    assert(!whitespace('!'));
    assert(skip_blanks(src, p) == p);
    lemma_run_end_bounds(src, p + 1, Run::Blank);
    assert forall|i: int| tail <= i < src.len() implies #[trigger] belongs_at(
        src,
        i,
        Run::Marker,
    ) by {}
    lemma_run_end_unique(src, tail, src.len(), Run::Marker);
}

/// A strict marker at `p` fails the scan with dead code at `d`, if `d` is the
/// first position after the marker and the white space after it that holds
/// neither a `!` nor a newline.
pub proof fn strict_marker_rejects_dead_code(src: Source, p: int, d: int, tokens: Seq<TokenView>)
    requires
        0 <= p < src.len(),
        src.text[p] == '!',
        run_end(src, p + 1, Run::Blank) <= d < src.len(),
        forall|i: int|
            run_end(src, p + 1, Run::Blank) <= i < d ==> src.text[i] == '!' || src.text[i] == '\n',
        src.text[d] != '!' && src.text[d] != '\n',
    ensures
        lex_from(src, p, tokens) == Err::<Seq<TokenView>, LexError>(
            LexError::DeadCode(location_at(src.text, d)),
        ),
{
    let tail = run_end(src, p + 1, Run::Blank);
    assert(!whitespace('!'));
    assert(skip_blanks(src, p) == p);
    lemma_run_end_bounds(src, p + 1, Run::Blank);
    assert forall|i: int| tail <= i < d implies #[trigger] belongs_at(src, i, Run::Marker) by {}
    lemma_run_end_unique(src, tail, d, Run::Marker);
}

/// A debug marker at `p` ends the scan with success if only white space
/// follows it, newlines included. Its token comes last, holds the `?`, and is
/// located at the end of the text.
pub proof fn debug_marker_accepts_blank_tail(src: Source, p: int, tokens: Seq<TokenView>)
    requires
        0 <= p < src.len(),
        src.text[p] == '?',
        forall|i: int| p < i < src.len() ==> whitespace(src.text[i]),
    ensures
        lex_from(src, p, tokens) == Ok::<Seq<TokenView>, LexError>(
            tokens.push(
                TokenView {
                    ty: TokenType::EolDebug,
                    value: seq!['?'],
                    location: location_at(src.text, src.len()),
                },
            ),
        ),
{
    assert(!whitespace('?'));
    assert(skip_blanks(src, p) == p);
    assert forall|i: int| p + 1 <= i < src.len() implies #[trigger] belongs_at(
        src,
        i,
        Run::Blank,
    ) by {}
    lemma_run_end_unique(src, p + 1, src.len(), Run::Blank);
}

/// A debug marker at `p` fails the scan with dead code at `d`, if `d` holds
/// the first character after the marker that is not white space: whatever
/// that character is, and whatever follows it.
pub proof fn debug_marker_rejects_dead_code(src: Source, p: int, d: int, tokens: Seq<TokenView>)
    requires
        0 <= p < d < src.len(),
        src.text[p] == '?',
        forall|i: int| p < i < d ==> whitespace(src.text[i]),
        !whitespace(src.text[d]),
    ensures
        lex_from(src, p, tokens) == Err::<Seq<TokenView>, LexError>(
            LexError::DeadCode(location_at(src.text, d)),
        ),
{
    assert(!whitespace('?'));
    assert(skip_blanks(src, p) == p);
    assert forall|i: int| p + 1 <= i < d implies #[trigger] belongs_at(src, i, Run::Blank) by {}
    lemma_run_end_unique(src, p + 1, d, Run::Blank);
}

/// A scan that ends at the end of the text after a token that is no
/// end-of-line marker fails as an unterminated line, at the end of the text.
pub proof fn missing_marker_fails_at_end(src: Source, pos: int, tokens: Seq<TokenView>)
    requires
        pos >= src.len(),
        tokens.len() > 0,
        !tokens.last().ty.is_terminator(),
    ensures
        lex_from(src, pos, tokens) == Err::<Seq<TokenView>, LexError>(
            LexError::UnterminatedLine(location_at(src.text, pos)),
        ),
{
}

/// What the reserved words are, character by character.
proof fn reveal_keywords()
    ensures
        "f"@ == seq!['f'],
        "fu"@ == seq!['f', 'u'],
        "fun"@ == seq!['f', 'u', 'n'],
        "func"@ == seq!['f', 'u', 'n', 'c'],
        "funct"@ == seq!['f', 'u', 'n', 'c', 't'],
        "functi"@ == seq!['f', 'u', 'n', 'c', 't', 'i'],
        "functio"@ == seq!['f', 'u', 'n', 'c', 't', 'i', 'o'],
        "function"@ == seq!['f', 'u', 'n', 'c', 't', 'i', 'o', 'n'],
        "Int"@ == seq!['I', 'n', 't'],
        "String"@ == seq!['S', 't', 'r', 'i', 'n', 'g'],
        "Char"@ == seq!['C', 'h', 'a', 'r'],
        "Digit"@ == seq!['D', 'i', 'g', 'i', 't'],
        "Bool"@ == seq!['B', 'o', 'o', 'l'],
        "true"@ == seq!['t', 'r', 'u', 'e'],
        "false"@ == seq!['f', 'a', 'l', 's', 'e'],
        "maybe"@ == seq!['m', 'a', 'y', 'b', 'e'],
        "return"@ == seq!['r', 'e', 't', 'u', 'r', 'n'],
{
    reveal_strlit("f");
    reveal_strlit("fu");
    reveal_strlit("fun");
    reveal_strlit("func");
    reveal_strlit("funct");
    reveal_strlit("functi");
    reveal_strlit("functio");
    reveal_strlit("function");
    reveal_strlit("Int");
    reveal_strlit("String");
    reveal_strlit("Char");
    reveal_strlit("Digit");
    reveal_strlit("Bool");
    reveal_strlit("true");
    reveal_strlit("false");
    reveal_strlit("maybe");
    reveal_strlit("return");
    assert("f"@ =~= seq!['f']);
    assert("fu"@ =~= seq!['f', 'u']);
    assert("fun"@ =~= seq!['f', 'u', 'n']);
    assert("func"@ =~= seq!['f', 'u', 'n', 'c']);
    assert("funct"@ =~= seq!['f', 'u', 'n', 'c', 't']);
    assert("functi"@ =~= seq!['f', 'u', 'n', 'c', 't', 'i']);
    assert("functio"@ =~= seq!['f', 'u', 'n', 'c', 't', 'i', 'o']);
    assert("function"@ =~= seq!['f', 'u', 'n', 'c', 't', 'i', 'o', 'n']);
    assert("Int"@ =~= seq!['I', 'n', 't']);
    assert("String"@ =~= seq!['S', 't', 'r', 'i', 'n', 'g']);
    assert("Char"@ =~= seq!['C', 'h', 'a', 'r']);
    assert("Digit"@ =~= seq!['D', 'i', 'g', 'i', 't']);
    assert("Bool"@ =~= seq!['B', 'o', 'o', 'l']);
    assert("true"@ =~= seq!['t', 'r', 'u', 'e']);
    assert("false"@ =~= seq!['f', 'a', 'l', 's', 'e']);
    assert("maybe"@ =~= seq!['m', 'a', 'y', 'b', 'e']);
    assert("return"@ =~= seq!['r', 'e', 't', 'u', 'r', 'n']);
}

} // verus!
