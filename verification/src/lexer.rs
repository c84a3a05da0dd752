//! The scanner: it cuts a text into tokens, one at each call.

use vstd::prelude::*;
use vstd::string::*;
use crate::lexis;
use crate::lexis::{
    at, bump, lemma_run_end, lemma_token_start_stays, lexeme_at, moved, run_end, stream,
    token_start, CharClass, Lexeme,
};
use crate::token::{lookup_identifier, models, Token, TokenType, TokenView};

verus! {

/// A token as the scanner found it: its kind, the part of the text that is
/// its literal, and where the scanning goes on.
#[derive(Debug, Clone, Copy, PartialEq, Eq, Structural)]
pub struct Scan {
    pub kind: TokenType,
    pub from: usize,
    pub to: usize,
    pub next: usize,
}

impl Scan {
    /// The mathematical value of the scan.
    pub open spec fn model(self) -> Lexeme {
        Lexeme {
            kind: self.kind,
            from: self.from as int,
            to: self.to as int,
            next: self.next as int,
        }
    }

    /// The scan stays inside a text of `len` characters and consumes its
    /// literal.
    pub open spec fn inside(self, len: nat) -> bool {
        self.from <= self.to <= self.next <= len
    }
}

/// The scanner: the text, whether it is all ASCII, the same text as
/// characters, the position of the next character, the line and the number
/// of characters passed in it, and whether a block comment is open.
pub struct Lexer {
    pub input: String,
    pub ascii: bool,
    pub chars: Vec<char>,
    pub position: usize,
    pub line: i32,
    pub column: i32,
    pub block_comment: bool,
}

/// The characters of `text`, in order. A text of ASCII characters is read
/// byte by byte.
fn characters(text: &str) -> (chars: Vec<char>)
    ensures
        chars@ == text@,
{
    let mut chars: Vec<char> = Vec::new();
    if text.is_ascii() {
        let bytes = text.as_bytes();
        let n = bytes.len();
        proof {
            is_ascii_spec_bytes(text);
        }
        let mut i: usize = 0;
        while i < n
            invariant
                i <= n,
                n == text@.len(),
                is_ascii(text),
                bytes@ == text.spec_bytes(),
                text.spec_bytes() =~= Seq::new(text@.len(), |j: int| text@.index(j) as u8),
                chars@ == text@.take(i as int),
            decreases n - i,
        {
            let b = bytes[i];
            assert(b == text@[i as int] as u8);
            assert('\0' <= text@[i as int] <= '\u{7f}');
            chars.push(b as char);
            i = i + 1;
            assert(chars@ =~= text@.take(i as int));
        }
        assert(text@.take(n as int) =~= text@);
    } else {
        let n = text.unicode_len();
        let mut i: usize = 0;
        while i < n
            invariant
                i <= n,
                n == text@.len(),
                chars@ == text@.take(i as int),
            decreases n - i,
        {
            chars.push(text.get_char(i));
            i = i + 1;
            assert(chars@ =~= text@.take(i as int));
        }
        assert(text@.take(n as int) =~= text@);
    }
    chars
}

/// A line or column number after one more step.
fn bumped(x: i32) -> (r: i32)
    ensures
        r == bump(x),
{
    if x < i32::MAX {
        x + 1
    } else {
        x
    }
}

impl Lexer {
    /// The characters mirror the text, and the position is inside it or
    /// just behind it.
    pub open spec fn wf(self) -> bool {
        &&& self.chars@ == self.input@
        &&& self.ascii ==> string_is_ascii(&self.input)
        &&& self.position <= self.chars@.len()
    }

    /// A scanner at the start of `input`, on line 0.
    pub fn new(input: String) -> (lexer: Lexer)
        ensures
            lexer.wf(),
            lexer.input == input,
            lexer.position == 0,
            lexer.line == 0,
            lexer.column == 0,
            !lexer.block_comment,
    {
        let chars = characters(input.as_str());
        let ascii = input.as_str().is_ascii();
        Lexer { input, ascii, chars, position: 0, line: 0, column: 0, block_comment: false }
    }

    /// The current line.
    pub fn get_line(&self) -> (line: i32)
        ensures
            line == self.line,
    {
        self.line
    }

    /// Goes on with `input`, which is the next line: an open block comment
    /// stays open.
    pub fn set_input(&mut self, input: String)
        ensures
            final(self).wf(),
            final(self).input == input,
            final(self).position == 0,
            final(self).line == bump(old(self).line),
            final(self).column == 0,
            final(self).block_comment == old(self).block_comment,
    {
        self.chars = characters(input.as_str());
        self.ascii = input.as_str().is_ascii();
        self.input = input;
        self.position = 0;
        self.line = bumped(self.line);
        self.column = 0;
    }

    /// Whether `ch` may follow a backslash in a literal.
    pub fn is_escape(ch: char) -> (r: bool)
        ensures
            r == lexis::escape(ch),
    {
        ch == 'a' || ch == 'b' || ch == 'f' || ch == 'n' || ch == 'r' || ch == 't' || ch == 'v'
            || ch == '\'' || ch == '?' || ch == '"' || ch == '\\' || ch == '0'
    }

    /// Whether `ch` is a decimal digit.
    pub fn is_decimal(ch: char) -> (r: bool)
        ensures
            r == lexis::decimal(ch),
    {
        ch >= '0' && ch <= '9'
    }

    /// Whether `ch` is an octal digit.
    pub fn is_octal(ch: char) -> (r: bool)
        ensures
            r == lexis::octal(ch),
    {
        ch >= '0' && ch <= '7'
    }

    /// Whether `ch` is a hexadecimal digit.
    pub fn is_hex(ch: char) -> (r: bool)
        ensures
            r == lexis::hex(ch),
    {
        (ch >= '0' && ch <= '9') || (ch >= 'a' && ch <= 'f') || (ch >= 'A' && ch <= 'F')
    }

    /// Whether `ch` can start an identifier.
    fn is_letter(ch: char) -> (r: bool)
        ensures
            r == lexis::letter(ch),
    {
        (ch >= 'a' && ch <= 'z') || (ch >= 'A' && ch <= 'Z') || ch == '_'
    }

    /// Whether `ch` belongs to `class`.
    fn belongs(class: CharClass, ch: char) -> (r: bool)
        ensures
            r == lexis::in_class(class, ch),
    {
        match class {
            CharClass::Decimal => Self::is_decimal(ch),
            CharClass::Octal => Self::is_octal(ch),
            CharClass::Hex => Self::is_hex(ch),
            CharClass::Word => Self::is_letter(ch) || Self::is_decimal(ch),
            CharClass::InLine => ch != '\n' && ch != '\r',
        }
    }

    /// The character at `pos`; the null character outside the text.
    pub fn peek_char(&self, pos: usize) -> (ch: char)
        ensures
            ch == at(self.chars@, pos as int),
            self.chars@.len() <= usize::MAX,
    {
        if pos < self.chars.len() {
            self.chars[pos]
        } else {
            '\0'
        }
    }

    /// Where the longest run of characters of `class` from `pos` ends.
    fn run(&self, pos: usize, class: CharClass) -> (end: usize)
        requires
            pos <= self.chars@.len(),
        ensures
            end == run_end(self.chars@, pos as int, class),
            pos <= end <= self.chars@.len(),
    {
        let n = self.chars.len();
        let mut i = pos;
        while i < n && Self::belongs(class, self.chars[i])
            invariant
                pos <= i <= n,
                n == self.chars@.len(),
                run_end(self.chars@, i as int, class) == run_end(self.chars@, pos as int, class),
            decreases n - i,
        {
            i = i + 1;
        }
        i
    }

    /// Where the identifier that starts at `pos` ends.
    pub fn read_identifier(&self, pos: usize) -> (end: usize)
        requires
            pos <= self.chars@.len(),
        ensures
            end == run_end(self.chars@, pos as int, CharClass::Word),
            pos <= end <= self.chars@.len(),
    {
        self.run(pos, CharClass::Word)
    }

    /// Where the decimal digits that start at `pos` end.
    pub fn read_int(&self, pos: usize) -> (end: usize)
        requires
            pos <= self.chars@.len(),
        ensures
            end == run_end(self.chars@, pos as int, CharClass::Decimal),
            pos <= end <= self.chars@.len(),
    {
        self.run(pos, CharClass::Decimal)
    }

    /// Where the octal digits that start at `pos` end.
    pub fn read_octal(&self, pos: usize) -> (end: usize)
        requires
            pos <= self.chars@.len(),
        ensures
            end == run_end(self.chars@, pos as int, CharClass::Octal),
            pos <= end <= self.chars@.len(),
    {
        self.run(pos, CharClass::Octal)
    }

    /// Where the hexadecimal number ends whose `0x` starts at `pos`.
    pub fn read_hex(&self, pos: usize) -> (end: usize)
        requires
            pos + 2 <= self.chars@.len(),
        ensures
            end == run_end(self.chars@, pos + 2, CharClass::Hex),
            pos + 2 <= end <= self.chars@.len(),
    {
        let n = self.chars.len();
        self.run(pos + 2, CharClass::Hex)
    }

    /// Where the line comment ends whose body goes on at `pos`.
    pub fn skip_line_comment(&self, pos: usize) -> (end: usize)
        requires
            pos <= self.chars@.len(),
        ensures
            end == run_end(self.chars@, pos as int, CharClass::InLine),
            pos <= end <= self.chars@.len(),
    {
        self.run(pos, CharClass::InLine)
    }

    /// Where the fraction and the exponent that start at `pos` end, if they
    /// are well formed.
    pub fn read_real(&self, pos: usize) -> (r: Option<usize>)
        requires
            pos < self.chars@.len(),
        ensures
            match r {
                Some(end) => lexis::real_end(self.chars@, pos as int) == Some(end as int) && pos
                    <= end <= self.chars@.len(),
                None => lexis::real_end(self.chars@, pos as int) is None,
            },
    {
        let fraction = if self.peek_char(pos) == '.' {
            let end = self.run(pos + 1, CharClass::Decimal);
            if end == pos + 1 {
                return None;
            }
            end
        } else {
            pos
        };
        let mark = self.peek_char(fraction);
        if mark == 'e' || mark == 'E' {
            let sign = self.peek_char(fraction + 1);
            let digits = if sign == '+' || sign == '-' {
                fraction + 2
            } else {
                fraction + 1
            };
            let end = self.run(digits, CharClass::Decimal);
            if end == digits {
                None
            } else {
                Some(end)
            }
        } else {
            Some(fraction)
        }
    }

    /// What stands for text that is no token.
    fn illegal(pos: usize) -> (r: Scan)
        requires
            pos < usize::MAX,
        ensures
            r.model() == lexis::illegal(pos as int),
    {
        Scan { kind: TokenType::ILLEGAL, from: pos, to: pos, next: pos + 1 }
    }

    /// The number that starts with the digit at `pos`.
    pub fn read_number(&self, pos: usize) -> (r: Scan)
        requires
            pos < self.chars@.len(),
            lexis::decimal(self.chars@[pos as int]),
        ensures
            r.model() == lexis::number(self.chars@, pos as int),
            r.inside(self.chars@.len()),
            pos < r.next,
    {
        let first = self.peek_char(pos);
        let second = self.peek_char(pos + 1);
        proof {
            lemma_run_end(self.chars@, pos as int, CharClass::Octal);
            lemma_run_end(self.chars@, pos as int, CharClass::Decimal);
        }
        if first == '0' && second == 'x' {
            let end = self.read_hex(pos);
            Scan { kind: TokenType::CT_INT, from: pos, to: end, next: end }
        } else if first == '0' && Self::is_octal(second) {
            let end = self.read_octal(pos);
            Scan { kind: TokenType::CT_INT, from: pos, to: end, next: end }
        } else if first == '0' && second != '.' {
            Scan { kind: TokenType::CT_INT, from: pos, to: pos + 1, next: pos + 1 }
        } else {
            let whole = self.read_int(pos);
            let mark = self.peek_char(whole);
            if mark == '.' || mark == 'e' || mark == 'E' {
                match self.read_real(whole) {
                    Some(end) => Scan { kind: TokenType::CT_REAL, from: pos, to: end, next: end },
                    None => Self::illegal(pos),
                }
            } else {
                Scan { kind: TokenType::CT_INT, from: pos, to: whole, next: whole }
            }
        }
    }

    /// The character literal whose opening quote is at `pos`.
    pub fn read_char_literal(&self, pos: usize) -> (r: Scan)
        requires
            pos < self.chars@.len(),
        ensures
            r.model() == lexis::char_literal(self.chars@, pos as int),
            r.inside(self.chars@.len()),
            pos < r.next,
    {
        let n = self.chars.len();
        if pos + 1 >= n {
            return Self::illegal(pos);
        }
        let c = self.chars[pos + 1];
        let end = if c == '\\' {
            if pos + 2 < n && Self::is_escape(self.chars[pos + 2]) {
                pos + 3
            } else {
                return Self::illegal(pos);
            }
        } else if c == '\'' || c > '\x7f' {
            return Self::illegal(pos);
        } else {
            pos + 2
        };
        if self.peek_char(end) == '\'' {
            Scan { kind: TokenType::CT_CHAR, from: pos + 1, to: end, next: end + 1 }
        } else {
            Self::illegal(pos)
        }
    }

    /// The string literal whose opening quote is at `pos`.
    pub fn read_string(&self, pos: usize) -> (r: Scan)
        requires
            pos < self.chars@.len(),
        ensures
            r.model() == lexis::string_literal(self.chars@, pos as int),
            r.inside(self.chars@.len()),
            pos < r.next,
    {
        let n = self.chars.len();
        let mut i = pos + 1;
        while i < n
            invariant
                pos < i <= n,
                n == self.chars@.len(),
                lexis::string_end(self.chars@, i as int) == lexis::string_end(
                    self.chars@,
                    pos + 1,
                ),
            decreases n - i,
        {
            let c = self.chars[i];
            if c == '"' {
                return Scan { kind: TokenType::CT_STRING, from: pos + 1, to: i, next: i + 1 };
            } else if c == '\\' {
                if i + 1 < n && Self::is_escape(self.chars[i + 1]) {
                    i = i + 2;
                } else {
                    return Self::illegal(pos);
                }
            } else if c <= '\x7f' {
                i = i + 1;
            } else {
                return Self::illegal(pos);
            }
        }
        Self::illegal(pos)
    }

    /// The text from `from` to `to`.
    pub fn text(&self, from: usize, to: usize) -> (t: String)
        requires
            self.wf(),
            from <= to <= self.chars@.len(),
        ensures
            t@ == self.chars@.subrange(from as int, to as int),
    {
        let input = self.input.as_str();
        if self.ascii {
            String::from_str(input.substring_ascii(from, to))
        } else {
            String::from_str(input.substring_char(from, to))
        }
    }

    /// The delimiter or one-character operator `ch`, if it is one.
    fn single(ch: char) -> (r: Option<TokenType>)
        ensures
            r == lexis::single(ch),
    {
        if ch == ',' {
            Some(TokenType::COMMA)
        } else if ch == ';' {
            Some(TokenType::SEMICOLON)
        } else if ch == '(' {
            Some(TokenType::LPAR)
        } else if ch == ')' {
            Some(TokenType::RPAR)
        } else if ch == '[' {
            Some(TokenType::LBRACKET)
        } else if ch == ']' {
            Some(TokenType::RBRACKET)
        } else if ch == '{' {
            Some(TokenType::LACC)
        } else if ch == '}' {
            Some(TokenType::RACC)
        } else if ch == '+' {
            Some(TokenType::ADD)
        } else if ch == '-' {
            Some(TokenType::SUB)
        } else if ch == '*' {
            Some(TokenType::MUL)
        } else if ch == '/' {
            Some(TokenType::DIV)
        } else if ch == '.' {
            Some(TokenType::DOT)
        } else {
            None
        }
    }

    /// The operator of one or two characters that starts at `pos`, if one
    /// of `|`, `&`, `!`, `<`, `>` and `=` stands there.
    fn operator(&self, pos: usize) -> (r: Option<Scan>)
        requires
            pos < self.chars@.len(),
        ensures
            match r {
                Some(scan) => lexis::operator(self.chars@, pos as int) == Some(scan.model())
                    && scan.inside(self.chars@.len()) && pos < scan.next,
                None => lexis::operator(self.chars@, pos as int) is None,
            },
    {
        let c = self.peek_char(pos);
        let d = self.peek_char(pos + 1);
        if c == '|' || c == '&' {
            if d == c {
                let kind = if c == '|' {
                    TokenType::OR
                } else {
                    TokenType::AND
                };
                Some(Scan { kind, from: pos, to: pos + 2, next: pos + 2 })
            } else {
                Some(Self::illegal(pos))
            }
        } else if c == '!' || c == '<' || c == '>' || c == '=' {
            if d == '=' {
                let kind = if c == '!' {
                    TokenType::NOTEQ
                } else if c == '<' {
                    TokenType::LESSEQ
                } else if c == '>' {
                    TokenType::GREATEREQ
                } else {
                    TokenType::EQUAL
                };
                Some(Scan { kind, from: pos, to: pos + 2, next: pos + 2 })
            } else {
                let kind = if c == '!' {
                    TokenType::NOT
                } else if c == '<' {
                    TokenType::LESS
                } else if c == '>' {
                    TokenType::GREATER
                } else {
                    TokenType::ASSIGN
                };
                Some(Scan { kind, from: pos, to: pos + 1, next: pos + 1 })
            }
        } else {
            None
        }
    }

    /// The token that starts at `pos`.
    pub fn scan(&self, pos: usize) -> (r: Scan)
        requires
            self.wf(),
            pos <= self.chars@.len(),
        ensures
            r.model() == lexeme_at(self.chars@, pos as int),
            r.inside(self.chars@.len()),
            pos <= r.next,
            pos < self.chars@.len() ==> pos < r.next,
    {
        let n = self.chars.len();
        if pos >= n {
            return Scan { kind: TokenType::EOF, from: pos, to: pos, next: pos };
        }
        let c = self.chars[pos];
        match Self::single(c) {
            Some(kind) => {
                return Scan { kind, from: pos, to: pos + 1, next: pos + 1 };
            },
            None => {},
        }
        match self.operator(pos) {
            Some(scan) => {
                return scan;
            },
            None => {},
        }
        if Self::is_decimal(c) {
            self.read_number(pos)
        } else if c == '\'' {
            self.read_char_literal(pos)
        } else if c == '"' {
            self.read_string(pos)
        } else if Self::is_letter(c) {
            proof {
                lemma_run_end(self.chars@, pos as int, CharClass::Word);
            }
            let end = self.read_identifier(pos);
            let word = self.text(pos, end);
            Scan { kind: lookup_identifier(word.as_str()), from: pos, to: end, next: end }
        } else {
            Self::illegal(pos)
        }
    }

    /// Where the next token starts, from `pos`, and whether a block comment
    /// is still open there.
    pub fn skip_whitespace(&self, pos: usize, in_comment: bool) -> (r: (usize, bool))
        requires
            pos <= self.chars@.len(),
        ensures
            token_start(self.chars@, pos as int, in_comment) == (r.0 as int, r.1),
            pos <= r.0 <= self.chars@.len(),
    {
        let n = self.chars.len();
        let mut i = pos;
        let mut open = in_comment;
        while i < n
            invariant
                pos <= i <= n,
                n == self.chars@.len(),
                token_start(self.chars@, i as int, open) == token_start(
                    self.chars@,
                    pos as int,
                    in_comment,
                ),
            decreases n - i,
        {
            let c = self.chars[i];
            let d = self.peek_char(i + 1);
            if open {
                if c == '*' && d == '/' {
                    i = i + 2;
                    open = false;
                } else {
                    i = i + 1;
                }
            } else if c == ' ' || c == '\t' || c == '\n' || c == '\r' {
                i = i + 1;
            } else if c == '/' && d == '/' {
                i = self.skip_line_comment(i + 2);
            } else if c == '/' && d == '*' {
                i = i + 2;
                open = true;
            } else {
                return (i, false);
            }
        }
        (i, open)
    }

    /// Passes the text up to `target`, counting lines and columns.
    pub fn read_char(&mut self, target: usize)
        requires
            old(self).wf(),
            old(self).position <= target <= old(self).chars@.len(),
        ensures
            final(self).wf(),
            final(self).input == old(self).input,
            final(self).ascii == old(self).ascii,
            final(self).chars == old(self).chars,
            final(self).block_comment == old(self).block_comment,
            final(self).position == target,
            (final(self).line, final(self).column) == moved(
                old(self).chars@,
                old(self).position as int,
                target as int,
                (old(self).line, old(self).column),
            ),
    {
        let mut i = self.position;
        let mut line = self.line;
        let mut column = self.column;
        while i < target
            invariant
                self.position <= i <= target <= self.chars@.len(),
                (line, column) == moved(
                    self.chars@,
                    self.position as int,
                    i as int,
                    (self.line, self.column),
                ),
            decreases target - i,
        {
            if self.chars[i] == '\n' {
                line = bumped(line);
                column = 0;
            } else {
                column = bumped(column);
            }
            i = i + 1;
        }
        self.position = target;
        self.line = line;
        self.column = column;
    }

    /// The next token. Blanks and comments before it are passed over; its
    /// line and column are those of its first character; behind the text
    /// stands the end of input, as often as it is asked for.
    pub fn next_token(&mut self) -> (tok: Token)
        requires
            old(self).wf(),
        ensures
            final(self).wf(),
            final(self).input == old(self).input,
            final(self).ascii == old(self).ascii,
            final(self).chars == old(self).chars,
            ({
                let s = old(self).chars@;
                let start = token_start(s, old(self).position as int, old(self).block_comment);
                let found = lexeme_at(s, start.0);
                let place = moved(
                    s,
                    old(self).position as int,
                    start.0,
                    (old(self).line, old(self).column),
                );
                &&& tok.kind == found.kind
                &&& tok.literal@ == s.subrange(found.from, found.to)
                &&& tok.line == place.0
                &&& tok.column == bump(place.1)
                &&& final(self).position == found.next
                &&& final(self).block_comment == start.1
                &&& (final(self).line, final(self).column) == moved(s, start.0, found.next, place)
                &&& (tok.kind == TokenType::EOF <==> start.0 >= s.len())
                &&& (tok.kind != TokenType::EOF ==> old(self).position < final(self).position)
            }),
    {
        let (start, open) = self.skip_whitespace(self.position, self.block_comment);
        self.read_char(start);
        self.block_comment = open;
        let found = self.scan(start);
        let tok = Token {
            kind: found.kind,
            literal: self.text(found.from, found.to),
            line: self.line,
            column: bumped(self.column),
        };
        self.read_char(found.next);
        tok
    }

    /// Appends the tokens of the rest of the text to `tokens`, and leaves
    /// the scanner at the end of the text.
    pub fn scan_line(&mut self, tokens: &mut Vec<Token>)
        requires
            old(self).wf(),
        ensures
            final(self).wf(),
            final(self).input == old(self).input,
            final(self).ascii == old(self).ascii,
            final(self).chars == old(self).chars,
            models(final(tokens)@) == models(old(tokens)@) + stream(
                old(self).chars@,
                old(self).position as int,
                old(self).block_comment,
                (old(self).line, old(self).column),
            ),
            token_start(
                old(self).chars@,
                final(self).position as int,
                final(self).block_comment,
            ).0 >= old(self).chars@.len(),
            old(tokens)@.len() <= final(tokens)@.len(),
            forall|i: int|
                0 <= i < final(tokens)@.len() ==> if i < old(tokens)@.len() {
                    final(tokens)@[i] == old(tokens)@[i]
                } else {
                    final(tokens)@[i].kind != TokenType::EOF
                },
    {
        let ghost s = self.chars@;
        let ghost goal = models(tokens@) + stream(
            s,
            self.position as int,
            self.block_comment,
            (self.line, self.column),
        );
        loop
            invariant
                self.wf(),
                self.input == old(self).input,
                self.ascii == old(self).ascii,
                self.chars == old(self).chars,
                s == self.chars@,
                models(tokens@) + stream(
                    s,
                    self.position as int,
                    self.block_comment,
                    (self.line, self.column),
                ) == goal,
                goal == models(old(tokens)@) + stream(
                    s,
                    old(self).position as int,
                    old(self).block_comment,
                    (old(self).line, old(self).column),
                ),
                old(tokens)@.len() <= tokens@.len(),
                forall|i: int|
                    0 <= i < tokens@.len() ==> if i < old(tokens)@.len() {
                        tokens@[i] == old(tokens)@[i]
                    } else {
                        tokens@[i].kind != TokenType::EOF
                    },
            decreases s.len() - self.position,
        {
            let ghost before = tokens@;
            let ghost rest = stream(
                s,
                self.position as int,
                self.block_comment,
                (self.line, self.column),
            );
            let ghost from = self.position;
            let ghost open = self.block_comment;
            let tok = self.next_token();
            if tok.kind == TokenType::EOF {
                proof {
                    assert(rest =~= Seq::<TokenView>::empty());
                    assert(models(before) + rest =~= models(before));
                    let (start, still) = token_start(s, from as int, open);
                    assert(lexeme_at(s, start).next == start);
                    lemma_token_start_stays(s, from as int, open);
                }
                return ;
            }
            proof {
                let first = tok.model();
                let after = stream(
                    s,
                    self.position as int,
                    self.block_comment,
                    (self.line, self.column),
                );
                assert(rest =~= seq![first] + after);
                assert(models(before.push(tok)) =~= models(before) + seq![first]);
                assert(models(before.push(tok)) + after =~= models(before) + rest);
            }
            tokens.push(tok);
        }
    }

    /// The token that ends a stream of tokens: the end of input, on the
    /// current line.
    pub fn end_token(&self) -> (tok: Token)
        ensures
            tok.kind == TokenType::EOF,
            tok.literal@ == "EOF"@,
            tok.line == self.line,
            tok.column == 1,
    {
        Token { kind: TokenType::EOF, literal: String::from_str("EOF"), line: self.line, column: 1 }
    }
}

} // verus!
