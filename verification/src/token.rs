//! Tokens: the kinds the scanner produces and the parser consumes.

use vstd::prelude::*;
use vstd::string::*;

verus! {

/// The kind of a token.
#[allow(non_camel_case_types)]
#[derive(Debug, Clone, Copy, PartialEq, Eq, Structural)]
pub enum TokenType {
    // identifiers
    ID,
    // keywords
    BREAK,
    CHAR,
    DOUBLE,
    ELSE,
    FOR,
    IF,
    INT,
    RETURN,
    STRUCT,
    VOID,
    WHILE,
    // constants
    CT_INT,
    CT_REAL,
    CT_CHAR,
    CT_STRING,
    // delimiters
    COMMA,
    SEMICOLON,
    LPAR,
    RPAR,
    LBRACKET,
    RBRACKET,
    LACC,
    RACC,
    // operators
    ADD,
    SUB,
    MUL,
    DIV,
    DOT,
    AND,
    OR,
    NOT,
    ASSIGN,
    EQUAL,
    NOTEQ,
    LESS,
    LESSEQ,
    GREATER,
    GREATEREQ,
    // end of input, and anything the scanner cannot classify
    EOF,
    ILLEGAL,
}

/// One token: its kind, its text, and where it started.
#[derive(Debug, Clone, PartialEq)]
pub struct Token {
    pub kind: TokenType,
    pub literal: String,
    pub line: i32,
    pub column: i32,
}

/// The mathematical value of a token.
pub ghost struct TokenView {
    pub kind: TokenType,
    pub literal: Seq<char>,
    pub line: i32,
    pub column: i32,
}

impl Token {
    /// The mathematical value of the token.
    pub open spec fn model(self) -> TokenView {
        TokenView {
            kind: self.kind,
            literal: self.literal@,
            line: self.line,
            column: self.column,
        }
    }
}

/// The values of `tokens`, in order.
pub open spec fn models(tokens: Seq<Token>) -> Seq<TokenView> {
    tokens.map_values(|t: Token| t.model())
}

/// The kind of the word `s`: the keyword it spells, or `ID`.
pub open spec fn keyword_kind(s: Seq<char>) -> TokenType {
    if s == "break"@ {
        TokenType::BREAK
    } else if s == "char"@ {
        TokenType::CHAR
    } else if s == "double"@ {
        TokenType::DOUBLE
    } else if s == "else"@ {
        TokenType::ELSE
    } else if s == "for"@ {
        TokenType::FOR
    } else if s == "if"@ {
        TokenType::IF
    } else if s == "int"@ {
        TokenType::INT
    } else if s == "return"@ {
        TokenType::RETURN
    } else if s == "struct"@ {
        TokenType::STRUCT
    } else if s == "void"@ {
        TokenType::VOID
    } else if s == "while"@ {
        TokenType::WHILE
    } else {
        TokenType::ID
    }
}

/// Whether two strings hold the same characters.
pub fn same_text(a: &str, b: &str) -> (r: bool)
    ensures
        r == (a@ == b@),
{
    let x = String::from_str(a);
    let y = String::from_str(b);
    x == y
}

/// Tells a keyword from an identifier.
pub fn lookup_identifier(identifier: &str) -> (kind: TokenType)
    ensures
        kind == keyword_kind(identifier@),
{
    if same_text(identifier, "break") {
        TokenType::BREAK
    } else if same_text(identifier, "char") {
        TokenType::CHAR
    } else if same_text(identifier, "double") {
        TokenType::DOUBLE
    } else if same_text(identifier, "else") {
        TokenType::ELSE
    } else if same_text(identifier, "for") {
        TokenType::FOR
    } else if same_text(identifier, "if") {
        TokenType::IF
    } else if same_text(identifier, "int") {
        TokenType::INT
    } else if same_text(identifier, "return") {
        TokenType::RETURN
    } else if same_text(identifier, "struct") {
        TokenType::STRUCT
    } else if same_text(identifier, "void") {
        TokenType::VOID
    } else if same_text(identifier, "while") {
        TokenType::WHILE
    } else {
        TokenType::ID
    }
}

} // verus!
