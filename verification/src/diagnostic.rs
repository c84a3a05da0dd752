//! Diagnostics: what went wrong, in words, and where in the source.

use vstd::prelude::*;
use vstd::string::*;
use crate::parser::{Parser, Verdict};
use crate::rules::{CastError, SemanticError};
use crate::token::Token;

verus! {

/// What went wrong and where: the violated rule, or none where the input is
/// not of the language's form; the same in words; and the line and column
/// of the token at which it was found.
#[derive(Debug, Clone, PartialEq)]
pub struct Diagnostic {
    pub error: Option<SemanticError>,
    pub message: String,
    pub line: i32,
    pub column: i32,
}

/// A violation in words; without a violation, a syntax error.
pub open spec fn message_of(error: Option<SemanticError>) -> Seq<char> {
    match error {
        None => "syntax error"@,
        Some(SemanticError::UndefinedSymbol) => "undefined symbol"@,
        Some(SemanticError::Redefinition) => "symbol redefinition"@,
        Some(SemanticError::NotAStruct) => "not a struct"@,
        Some(SemanticError::UndefinedMember) => "the struct has no such member"@,
        Some(SemanticError::NotAFunction) => "call of a non-function"@,
        Some(SemanticError::MissingCall) => "a function can only be called"@,
        Some(SemanticError::NotAValue) => "not a value"@,
        Some(SemanticError::TooManyArguments) => "too many arguments in call"@,
        Some(SemanticError::TooFewArguments) => "too few arguments in call"@,
        Some(SemanticError::NotAnArray) => "only an array can be indexed"@,
        Some(SemanticError::NotAnLvalue) => "cannot assign to a non-lvalue"@,
        Some(SemanticError::ArrayOperand) => "an array cannot be an operand"@,
        Some(SemanticError::StructOperand) => "a struct cannot be an operand"@,
        Some(SemanticError::VoidReturn) => "a void function cannot return a value"@,
        Some(SemanticError::Cast(CastError::ArrayMismatch)) =>
            "an array converts only to an array of the same type"@,
        Some(SemanticError::Cast(CastError::IncompatibleStruct)) =>
            "a struct cannot be converted to another one"@,
        Some(SemanticError::Cast(CastError::IncompatibleTypes)) => "incompatible types"@,
        Some(SemanticError::Cast(CastError::VoidOperand)) => "void is not a value"@,
    }
}

/// The line and column of the token at `at`; those of the last token
/// behind the input, and zeros where there is no token.
pub open spec fn place_of(toks: Seq<Token>, at: int) -> (i32, i32) {
    if 0 <= at < toks.len() {
        (toks[at].line, toks[at].column)
    } else if toks.len() > 0 {
        (toks.last().line, toks.last().column)
    } else {
        (0i32, 0i32)
    }
}

/// A violation in words.
pub fn message(error: Option<SemanticError>) -> (m: String)
    ensures
        m@ == message_of(error),
{
    let text = match error {
        None => "syntax error",
        Some(SemanticError::UndefinedSymbol) => "undefined symbol",
        Some(SemanticError::Redefinition) => "symbol redefinition",
        Some(SemanticError::NotAStruct) => "not a struct",
        Some(SemanticError::UndefinedMember) => "the struct has no such member",
        Some(SemanticError::NotAFunction) => "call of a non-function",
        Some(SemanticError::MissingCall) => "a function can only be called",
        Some(SemanticError::NotAValue) => "not a value",
        Some(SemanticError::TooManyArguments) => "too many arguments in call",
        Some(SemanticError::TooFewArguments) => "too few arguments in call",
        Some(SemanticError::NotAnArray) => "only an array can be indexed",
        Some(SemanticError::NotAnLvalue) => "cannot assign to a non-lvalue",
        Some(SemanticError::ArrayOperand) => "an array cannot be an operand",
        Some(SemanticError::StructOperand) => "a struct cannot be an operand",
        Some(SemanticError::VoidReturn) => "a void function cannot return a value",
        Some(SemanticError::Cast(CastError::ArrayMismatch)) =>
            "an array converts only to an array of the same type",
        Some(SemanticError::Cast(CastError::IncompatibleStruct)) =>
            "a struct cannot be converted to another one",
        Some(SemanticError::Cast(CastError::IncompatibleTypes)) => "incompatible types",
        Some(SemanticError::Cast(CastError::VoidOperand)) => "void is not a value",
    };
    String::from_str(text)
}

impl Parser {
    /// The line and column of the token at `at`.
    pub fn place(&self, at: usize) -> (r: (i32, i32))
        ensures
            r == place_of(self.tokens@, at as int),
    {
        let n = self.tokens.len();
        if at < n {
            (self.tokens[at].line, self.tokens[at].column)
        } else if n > 0 {
            (self.tokens[n - 1].line, self.tokens[n - 1].column)
        } else {
            (0, 0)
        }
    }

    /// The diagnostic for a production that ended with `verdict`: none for
    /// a match; for a violation, its rule and the place of its token; else a
    /// syntax error at the cursor.
    pub fn diagnose(&self, verdict: Verdict) -> (d: Option<Diagnostic>)
        ensures
            match verdict {
                Verdict::Match => d is None,
                Verdict::NoMatch => d matches Some(x) && x.error is None && x.message@
                    == message_of(None) && (x.line, x.column) == place_of(
                    self.tokens@,
                    self.current_token_index as int,
                ),
                Verdict::Fail(v) => d matches Some(x) && x.error == Some(v.error) && x.message@
                    == message_of(Some(v.error)) && (x.line, x.column) == place_of(
                    self.tokens@,
                    v.at as int,
                ),
            },
    {
        match verdict {
            Verdict::Match => None,
            Verdict::NoMatch => {
                let (line, column) = self.place(self.current_token_index);
                Some(Diagnostic { error: None, message: message(None), line, column })
            },
            Verdict::Fail(v) => {
                let (line, column) = self.place(v.at);
                Some(
                    Diagnostic {
                        error: Some(v.error),
                        message: message(Some(v.error)),
                        line,
                        column,
                    },
                )
            },
        }
    }
}

} // verus!
