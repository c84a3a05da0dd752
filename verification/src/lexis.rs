//! The lexical grammar, as mathematics: where the next token starts, what
//! it is, and where it ends. The scanner's contracts say that it computes
//! these functions.

use vstd::prelude::*;
use crate::token::{keyword_kind, TokenType, TokenView};

verus! {

/// A class of characters.
#[derive(Debug, Clone, Copy, PartialEq, Eq, Structural)]
pub enum CharClass {
    /// `0` to `9`.
    Decimal,
    /// `0` to `7`.
    Octal,
    /// A decimal digit, or `a` to `f` in either case.
    Hex,
    /// An ASCII letter, a decimal digit, or `_`.
    Word,
    /// Anything but a line feed and a carriage return.
    InLine,
}

/// Whether `c` is a decimal digit.
pub open spec fn decimal(c: char) -> bool {
    '0' <= c <= '9'
}

/// Whether `c` is an octal digit.
pub open spec fn octal(c: char) -> bool {
    '0' <= c <= '7'
}

/// Whether `c` is a hexadecimal digit.
pub open spec fn hex(c: char) -> bool {
    ('0' <= c <= '9') || ('a' <= c <= 'f') || ('A' <= c <= 'F')
}

/// Whether `c` may follow a backslash in a character or string literal.
pub open spec fn escape(c: char) -> bool {
    c == 'a' || c == 'b' || c == 'f' || c == 'n' || c == 'r' || c == 't' || c == 'v' || c == '\''
        || c == '?' || c == '"' || c == '\\' || c == '0'
}

/// Whether `c` is a blank between tokens.
pub open spec fn space(c: char) -> bool {
    c == ' ' || c == '\t' || c == '\n' || c == '\r'
}

/// Whether `c` can start an identifier.
pub open spec fn letter(c: char) -> bool {
    ('a' <= c <= 'z') || ('A' <= c <= 'Z') || c == '_'
}

/// Whether `c` is an ASCII character.
pub open spec fn ascii(c: char) -> bool {
    c <= '\x7f'
}

/// Whether `c` belongs to `class`.
pub open spec fn in_class(class: CharClass, c: char) -> bool {
    match class {
        CharClass::Decimal => decimal(c),
        CharClass::Octal => octal(c),
        CharClass::Hex => hex(c),
        CharClass::Word => letter(c) || decimal(c),
        CharClass::InLine => c != '\n' && c != '\r',
    }
}

/// The character at `pos`; the null character outside the text.
pub open spec fn at(s: Seq<char>, pos: int) -> char {
    if 0 <= pos < s.len() {
        s[pos]
    } else {
        '\0'
    }
}

/// Where the longest run of characters of `class` that starts at `pos` ends.
pub open spec fn run_end(s: Seq<char>, pos: int, class: CharClass) -> int
    decreases s.len() - pos,
{
    if 0 <= pos < s.len() && in_class(class, s[pos]) {
        run_end(s, pos + 1, class)
    } else {
        pos
    }
}

/// A run ends inside the text, not before its start, and behind its first
/// character where that belongs to the class.
pub proof fn lemma_run_end(s: Seq<char>, pos: int, class: CharClass)
    requires
        0 <= pos <= s.len(),
    ensures
        pos <= run_end(s, pos, class) <= s.len(),
        pos < s.len() && in_class(class, s[pos]) ==> pos < run_end(s, pos, class),
    decreases s.len() - pos,
{
    if pos < s.len() && in_class(class, s[pos]) {
        lemma_run_end(s, pos + 1, class);
    }
}

/// Where the next token starts, from `pos`, and whether a block comment is
/// still open there: blanks, line comments and block comments are passed
/// over. A line comment ends before the end of its line; a block comment
/// that does not end runs to the end of the text.
pub open spec fn token_start(s: Seq<char>, pos: int, in_comment: bool) -> (int, bool)
    decreases s.len() - pos,
{
    if pos < 0 || pos >= s.len() {
        (pos, in_comment)
    } else if in_comment {
        if s[pos] == '*' && at(s, pos + 1) == '/' {
            token_start(s, pos + 2, false)
        } else {
            token_start(s, pos + 1, true)
        }
    } else if space(s[pos]) {
        token_start(s, pos + 1, false)
    } else if s[pos] == '/' && at(s, pos + 1) == '/' {
        let end = run_end(s, pos + 2, CharClass::InLine);
        if pos + 2 <= end <= s.len() {
            token_start(s, end, false)
        } else {
            (pos, false)
        }
    } else if s[pos] == '/' && at(s, pos + 1) == '*' {
        token_start(s, pos + 2, true)
    } else {
        (pos, false)
    }
}

/// Where a token starts, nothing is passed over: asking again from there,
/// with the comment state found there, gives the same place.
pub proof fn lemma_token_start_stays(s: Seq<char>, pos: int, in_comment: bool)
    ensures
        token_start(s, token_start(s, pos, in_comment).0, token_start(s, pos, in_comment).1)
            == token_start(s, pos, in_comment),
    decreases s.len() - pos,
{
    if pos < 0 || pos >= s.len() {
    } else if in_comment {
        if s[pos] == '*' && at(s, pos + 1) == '/' {
            lemma_token_start_stays(s, pos + 2, false);
        } else {
            lemma_token_start_stays(s, pos + 1, true);
        }
    } else if space(s[pos]) {
        lemma_token_start_stays(s, pos + 1, false);
    } else if s[pos] == '/' && at(s, pos + 1) == '/' {
        let end = run_end(s, pos + 2, CharClass::InLine);
        if pos + 2 <= end <= s.len() {
            lemma_token_start_stays(s, end, false);
        }
    } else if s[pos] == '/' && at(s, pos + 1) == '*' {
        lemma_token_start_stays(s, pos + 2, true);
    }
}

/// A token as the text gives it: its kind, the part of the text that is its
/// literal, and where the scanning goes on.
pub ghost struct Lexeme {
    pub kind: TokenType,
    pub from: int,
    pub to: int,
    pub next: int,
}

/// The token of kind `kind` whose literal is the text from `from` to `to`.
pub open spec fn lexeme(kind: TokenType, from: int, to: int) -> Lexeme {
    Lexeme { kind, from, to, next: to }
}

/// What stands for text that is no token: `ILLEGAL`, with an empty literal;
/// one character is consumed.
pub open spec fn illegal(pos: int) -> Lexeme {
    Lexeme { kind: TokenType::ILLEGAL, from: pos, to: pos, next: pos + 1 }
}

/// Where the fraction and the exponent that start at `pos` end, if they
/// are well formed: a `.` is followed by at least one digit, an `e` or `E`
/// by an optional sign and at least one digit.
pub open spec fn real_end(s: Seq<char>, pos: int) -> Option<int> {
    let fraction = if at(s, pos) == '.' {
        run_end(s, pos + 1, CharClass::Decimal)
    } else {
        pos
    };
    if at(s, pos) == '.' && fraction == pos + 1 {
        None
    } else if at(s, fraction) == 'e' || at(s, fraction) == 'E' {
        let digits = if at(s, fraction + 1) == '+' || at(s, fraction + 1) == '-' {
            fraction + 2
        } else {
            fraction + 1
        };
        let end = run_end(s, digits, CharClass::Decimal);
        if end == digits {
            None
        } else {
            Some(end)
        }
    } else {
        Some(fraction)
    }
}

/// The number that starts with the digit at `pos`: `0x` and hexadecimal
/// digits; `0` and octal digits; decimal digits; or decimal digits with a
/// fraction, an exponent or both, which is a real number.
pub open spec fn number(s: Seq<char>, pos: int) -> Lexeme {
    if s[pos] == '0' && at(s, pos + 1) == 'x' {
        lexeme(TokenType::CT_INT, pos, run_end(s, pos + 2, CharClass::Hex))
    } else if s[pos] == '0' && octal(at(s, pos + 1)) {
        lexeme(TokenType::CT_INT, pos, run_end(s, pos, CharClass::Octal))
    } else if s[pos] == '0' && at(s, pos + 1) != '.' {
        lexeme(TokenType::CT_INT, pos, pos + 1)
    } else {
        let whole = run_end(s, pos, CharClass::Decimal);
        if at(s, whole) == '.' || at(s, whole) == 'e' || at(s, whole) == 'E' {
            match real_end(s, whole) {
                Some(end) => lexeme(TokenType::CT_REAL, pos, end),
                None => illegal(pos),
            }
        } else {
            lexeme(TokenType::CT_INT, pos, whole)
        }
    }
}

/// Where the body of the character literal ends whose opening quote is at
/// `pos`: behind one ASCII character other than a quote, or behind a
/// backslash and an escape character.
pub open spec fn char_body_end(s: Seq<char>, pos: int) -> Option<int> {
    let c = at(s, pos + 1);
    if pos + 1 >= s.len() {
        None
    } else if c == '\\' {
        if pos + 2 < s.len() && escape(s[pos + 2]) {
            Some(pos + 3)
        } else {
            None
        }
    } else if c == '\'' || !ascii(c) {
        None
    } else {
        Some(pos + 2)
    }
}

/// The character literal whose opening quote is at `pos`. Its literal is
/// what stands between the quotes.
pub open spec fn char_literal(s: Seq<char>, pos: int) -> Lexeme {
    match char_body_end(s, pos) {
        Some(end) => if at(s, end) == '\'' {
            Lexeme { kind: TokenType::CT_CHAR, from: pos + 1, to: end, next: end + 1 }
        } else {
            illegal(pos)
        },
        None => illegal(pos),
    }
}

/// Where the closing quote of a string stands whose body goes on at `pos`:
/// the body is made of ASCII characters, and a backslash in it is followed
/// by an escape character.
pub open spec fn string_end(s: Seq<char>, pos: int) -> Option<int>
    decreases s.len() - pos,
{
    if pos < 0 || pos >= s.len() {
        None
    } else if s[pos] == '"' {
        Some(pos)
    } else if s[pos] == '\\' {
        if pos + 1 < s.len() && escape(s[pos + 1]) {
            string_end(s, pos + 2)
        } else {
            None
        }
    } else if ascii(s[pos]) {
        string_end(s, pos + 1)
    } else {
        None
    }
}

/// The string literal whose opening quote is at `pos`. Its literal is what
/// stands between the quotes.
pub open spec fn string_literal(s: Seq<char>, pos: int) -> Lexeme {
    match string_end(s, pos + 1) {
        Some(end) => Lexeme { kind: TokenType::CT_STRING, from: pos + 1, to: end, next: end + 1 },
        None => illegal(pos),
    }
}

/// The kind of the delimiter or one-character operator `c`, if it is one.
pub open spec fn single(c: char) -> Option<TokenType> {
    if c == ',' {
        Some(TokenType::COMMA)
    } else if c == ';' {
        Some(TokenType::SEMICOLON)
    } else if c == '(' {
        Some(TokenType::LPAR)
    } else if c == ')' {
        Some(TokenType::RPAR)
    } else if c == '[' {
        Some(TokenType::LBRACKET)
    } else if c == ']' {
        Some(TokenType::RBRACKET)
    } else if c == '{' {
        Some(TokenType::LACC)
    } else if c == '}' {
        Some(TokenType::RACC)
    } else if c == '+' {
        Some(TokenType::ADD)
    } else if c == '-' {
        Some(TokenType::SUB)
    } else if c == '*' {
        Some(TokenType::MUL)
    } else if c == '/' {
        Some(TokenType::DIV)
    } else if c == '.' {
        Some(TokenType::DOT)
    } else {
        None
    }
}

/// The operator that starts with `c` and may go on with `d`: `&&` and `||`,
/// and the operators that `=` may follow.
pub open spec fn operator(s: Seq<char>, pos: int) -> Option<Lexeme> {
    let c = at(s, pos);
    let d = at(s, pos + 1);
    if c == '|' || c == '&' {
        if d == c {
            Some(
                lexeme(
                    if c == '|' {
                        TokenType::OR
                    } else {
                        TokenType::AND
                    },
                    pos,
                    pos + 2,
                ),
            )
        } else {
            Some(illegal(pos))
        }
    } else if c == '!' || c == '<' || c == '>' || c == '=' {
        if d == '=' {
            Some(
                lexeme(
                    if c == '!' {
                        TokenType::NOTEQ
                    } else if c == '<' {
                        TokenType::LESSEQ
                    } else if c == '>' {
                        TokenType::GREATEREQ
                    } else {
                        TokenType::EQUAL
                    },
                    pos,
                    pos + 2,
                ),
            )
        } else {
            Some(
                lexeme(
                    if c == '!' {
                        TokenType::NOT
                    } else if c == '<' {
                        TokenType::LESS
                    } else if c == '>' {
                        TokenType::GREATER
                    } else {
                        TokenType::ASSIGN
                    },
                    pos,
                    pos + 1,
                ),
            )
        }
    } else {
        None
    }
}

/// The token that starts at `pos`, where `pos` is where a token starts.
/// Behind the text stands the end of input, with an empty literal.
pub open spec fn lexeme_at(s: Seq<char>, pos: int) -> Lexeme {
    if pos < 0 || pos >= s.len() {
        Lexeme { kind: TokenType::EOF, from: pos, to: pos, next: pos }
    } else if single(s[pos]) is Some {
        lexeme(single(s[pos])->0, pos, pos + 1)
    } else if operator(s, pos) is Some {
        operator(s, pos)->0
    } else if decimal(s[pos]) {
        number(s, pos)
    } else if s[pos] == '\'' {
        char_literal(s, pos)
    } else if s[pos] == '"' {
        string_literal(s, pos)
    } else if letter(s[pos]) {
        let end = run_end(s, pos, CharClass::Word);
        lexeme(keyword_kind(s.subrange(pos, end)), pos, end)
    } else {
        illegal(pos)
    }
}

/// A line or column number after one more step; it stays at the largest
/// number there is.
pub open spec fn bump(x: i32) -> i32 {
    if x < i32::MAX {
        (x + 1) as i32
    } else {
        x
    }
}

/// The line, and the number of characters passed in it, after the text from
/// `from` to `to` has been passed, when they were `place` before: a line
/// feed starts a line.
pub open spec fn moved(s: Seq<char>, from: int, to: int, place: (i32, i32)) -> (i32, i32)
    decreases to - from,
{
    if to <= from {
        place
    } else {
        let before = moved(s, from, to - 1, place);
        if at(s, to - 1) == '\n' {
            (bump(before.0), 0i32)
        } else {
            (before.0, bump(before.1))
        }
    }
}

/// The tokens of the text from `pos` on, without the end of input: each
/// with its literal, and with the line and the column of its first
/// character, where `place` is the line at `pos` and the number of
/// characters passed in it.
pub open spec fn stream(s: Seq<char>, pos: int, in_comment: bool, place: (i32, i32)) -> Seq<
    TokenView,
>
    decreases s.len() - pos,
{
    let start = token_start(s, pos, in_comment);
    let found = lexeme_at(s, start.0);
    let at = moved(s, pos, start.0, place);
    if start.0 < 0 || start.0 >= s.len() || found.next <= pos || found.next > s.len() {
        Seq::empty()
    } else {
        seq![
            TokenView {
                kind: found.kind,
                literal: s.subrange(found.from, found.to),
                line: at.0,
                column: bump(at.1),
            },
        ] + stream(s, found.next, start.1, moved(s, start.0, found.next, at))
    }
}

/// No token of a text is the end of input.
pub proof fn lemma_stream_has_no_end(s: Seq<char>, pos: int, in_comment: bool, place: (i32, i32))
    ensures
        forall|i: int|
            0 <= i < stream(s, pos, in_comment, place).len() ==> (#[trigger] stream(
                s,
                pos,
                in_comment,
                place,
            )[i]).kind != TokenType::EOF,
    decreases s.len() - pos,
{
    let start = token_start(s, pos, in_comment);
    let found = lexeme_at(s, start.0);
    let at = moved(s, pos, start.0, place);
    if !(start.0 < 0 || start.0 >= s.len() || found.next <= pos || found.next > s.len()) {
        lemma_stream_has_no_end(s, found.next, start.1, moved(s, start.0, found.next, at));
        lemma_no_end_inside(s, start.0);
    }
}

/// Inside the text no token is the end of input.
pub proof fn lemma_no_end_inside(s: Seq<char>, pos: int)
    requires
        0 <= pos < s.len(),
    ensures
        lexeme_at(s, pos).kind != TokenType::EOF,
{
    assert(keyword_kind(s.subrange(pos, run_end(s, pos, CharClass::Word))) != TokenType::EOF);
}

} // verus!
