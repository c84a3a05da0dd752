//! The recursive-descent parser. Every production computes the function of
//! the same name in `grammar`; a production that does not match leaves the
//! parser as it found it.

use vstd::prelude::*;
use vstd::string::*;
use crate::grammar;
use crate::grammar::{kind_at, text_at, Parsed, Scope};
use crate::rules::{SemanticError, Violation};
use crate::symbols::{
    has_members, is_prefix, without_members, Attr, Class, Memory, RetVal, Symbol, SymbolTable,
    SymbolView, Type, TypeBase,
};
use crate::token::{Token, TokenType};

verus! {

/// How a production that reads the tokens without changing the parser ended:
/// with a match that stops before the given position and yields a value,
/// with no match, or with a violation of the language's rules.
#[derive(Debug, Clone, PartialEq)]
pub enum Outcome<A> {
    Match(usize, A),
    NoMatch,
    Fail(Violation),
}

/// How a production that moves the parser ended.
#[derive(Debug, Clone, Copy, PartialEq, Eq, Structural)]
pub enum Verdict {
    Match,
    NoMatch,
    Fail(Violation),
}

/// The mathematical value of an outcome that yields attributes.
pub open spec fn attributed(r: Outcome<RetVal>) -> Parsed<Attr> {
    match r {
        Outcome::Match(next, out) => Parsed::Match { next: next as int, out: out.model() },
        Outcome::NoMatch => Parsed::NoMatch,
        Outcome::Fail(err) => Parsed::Fail { err },
    }
}

/// The mathematical value of an outcome that yields a type.
pub open spec fn typed(r: Outcome<Type>) -> Parsed<Type> {
    match r {
        Outcome::Match(next, out) => Parsed::Match { next: next as int, out },
        Outcome::NoMatch => Parsed::NoMatch,
        Outcome::Fail(err) => Parsed::Fail { err },
    }
}

/// The mathematical value of an outcome that yields nothing.
pub open spec fn plain(r: Outcome<()>) -> Parsed<()> {
    match r {
        Outcome::Match(next, out) => Parsed::Match { next: next as int, out: () },
        Outcome::NoMatch => Parsed::NoMatch,
        Outcome::Fail(err) => Parsed::Fail { err },
    }
}

/// The mathematical value of an outcome that yields an optional type.
pub open spec fn optional(r: Outcome<Option<Type>>) -> Parsed<Option<Type>> {
    match r {
        Outcome::Match(next, out) => Parsed::Match { next: next as int, out },
        Outcome::NoMatch => Parsed::NoMatch,
        Outcome::Fail(err) => Parsed::Fail { err },
    }
}

/// The table that is left when what a declaration added is taken back: in
/// a struct, its members from `saved_members` on; elsewhere, the symbols
/// from `saved_len` on.
pub open spec fn rolled_back(
    table: Seq<SymbolView>,
    crt_struct: Option<usize>,
    saved_len: int,
    saved_members: int,
) -> Seq<SymbolView> {
    match crt_struct {
        Some(si) => if has_members(table, si as int) {
            without_members(table, si as int, saved_members)
        } else {
            table
        },
        None => table.take(saved_len),
    }
}

/// What a declaration leaves of the table `before`: outside a struct all of
/// it, as the beginning of the table `after`; inside the struct at `si`
/// every symbol but that one.
pub open spec fn kept(before: Seq<SymbolView>, after: Seq<SymbolView>, crt_struct: Option<usize>)
    -> bool {
    match crt_struct {
        None => is_prefix(before, after),
        Some(si) => after.len() == before.len() && forall|j: int|
            0 <= j < before.len() && j != si ==> after[j] == before[j],
    }
}

/// The number that a digit stands for.
fn digit(c: char) -> (d: u8)
    ensures
        d == grammar::digit_value(c),
        d <= 16,
{
    if c >= '0' && c <= '9' {
        (c as u32 - '0' as u32) as u8
    } else if c >= 'a' && c <= 'f' {
        (c as u32 - 'a' as u32) as u8 + 10
    } else if c >= 'A' && c <= 'F' {
        (c as u32 - 'A' as u32) as u8 + 10
    } else {
        16
    }
}

/// No run of digits spells a negative number.
proof fn lemma_digits_nonnegative(s: Seq<char>, base: int)
    requires
        base > 0,
        grammar::digits_value(s, base) is Some,
    ensures
        grammar::digits_value(s, base)->0 >= 0,
    decreases s.len(),
{
    if s.len() > 0 {
        lemma_digits_nonnegative(s.drop_last(), base);
        let v = grammar::digits_value(s.drop_last(), base)->0;
        assert(v * base >= 0) by (nonlinear_arith)
            requires
                v >= 0,
                base > 0,
        ;
    }
}

/// A run of digits spells at least what any of its prefixes spells.
proof fn lemma_digits_grow(s: Seq<char>, base: int, n: int)
    requires
        base > 0,
        0 <= n <= s.len(),
        grammar::digits_value(s, base) is Some,
    ensures
        grammar::digits_value(s.take(n), base) is Some,
        0 <= grammar::digits_value(s.take(n), base)->0 <= grammar::digits_value(s, base)->0,
    decreases s.len() - n,
{
    if n == s.len() {
        assert(s.take(n) =~= s);
        lemma_digits_nonnegative(s, base);
    } else {
        let rest = s.drop_last();
        assert(rest.take(n) =~= s.take(n));
        lemma_digits_grow(rest, base, n);
        let v = grammar::digits_value(rest, base)->0;
        lemma_digits_nonnegative(rest, base);
        assert(v * base >= v) by (nonlinear_arith)
            requires
                v >= 0,
                base > 0,
        ;
    }
}

/// The value of an integer literal.
pub fn int_literal(text: &str) -> (r: Option<i64>)
    ensures
        r == grammar::int_literal_value(text@),
{
    let n = text.unicode_len();
    let (base, start): (i64, usize) = if n >= 2 && text.get_char(0) == '0' {
        if text.get_char(1) == 'x' {
            (16, 2)
        } else {
            (8, 0)
        }
    } else {
        (10, 0)
    };
    if start == n {
        return None;
    }
    let ghost digits = grammar::literal_digits(text@);
    proof {
        assert(digits.take(0) =~= Seq::<char>::empty());
        assert(digits.len() == n - start);
    }
    let mut acc: i64 = 0;
    let mut i: usize = start;
    while i < n
        invariant
            start <= i <= n,
            n == text@.len(),
            base == grammar::literal_base(text@),
            base == 8 || base == 10 || base == 16,
            digits == grammar::literal_digits(text@),
            digits.len() == n - start,
            forall|j: int| 0 <= j < digits.len() ==> digits[j] == text@[start + j],
            grammar::digits_value(digits.take(i - start), base as int) == Some(acc as int),
            acc >= 0,
        decreases n - i,
    {
        let c = text.get_char(i);
        let ghost before = digits.take(i - start);
        let ghost after = digits.take(i - start + 1);
        proof {
            assert(after.drop_last() =~= before);
            assert(after.last() == c);
        }
        let d = digit(c) as i64;
        if d >= base {
            proof {
                if grammar::digits_value(digits, base as int) is Some {
                    lemma_digits_grow(digits, base as int, i - start + 1);
                }
            }
            return None;
        }
        let limit = (i64::MAX - d) / base;
        let ghost (a, b, dd, lim, max) = (
            acc as int,
            base as int,
            d as int,
            limit as int,
            i64::MAX as int,
        );
        assert(lim == (max - dd) / b);
        if acc > limit {
            proof {
                assert(a * b + dd > max) by (nonlinear_arith)
                    requires
                        a > lim,
                        lim == (max - dd) / b,
                        b > 0,
                ;
                if grammar::digits_value(digits, base as int) is Some {
                    lemma_digits_grow(digits, base as int, i - start + 1);
                }
            }
            return None;
        }
        assert(0 <= a * b && a * b + dd <= max) by (nonlinear_arith)
            requires
                0 <= a <= lim,
                lim == (max - dd) / b,
                b > 0,
                dd >= 0,
        ;
        acc = acc * base + d;
        i = i + 1;
    }
    proof {
        assert(digits.take(n - start) =~= digits);
    }
    Some(acc)
}

/// The value of a character literal.
pub fn char_literal(text: &str) -> (r: Option<char>)
    ensures
        r == grammar::char_literal_value(text@),
{
    if text.unicode_len() == 1 {
        Some(text.get_char(0))
    } else {
        None
    }
}

/// The parser: the tokens, the cursor, the nesting depth, the struct or the
/// function whose body is being read, and the symbol table.
pub struct Parser {
    pub tokens: Vec<Token>,
    pub current_token_index: usize,
    pub crt_depth: usize,
    pub crt_struct: Option<usize>,
    pub crt_func: Option<usize>,
    pub symbols_table: SymbolTable,
}

impl Parser {
    /// The cursor is inside the input or just behind it, and the depth has
    /// not outrun the cursor.
    pub open spec fn wf(self) -> bool {
        &&& self.current_token_index <= self.tokens@.len()
        &&& self.crt_depth <= self.current_token_index
    }

    /// What surrounds the cursor.
    pub open spec fn scope(self) -> Scope {
        Scope {
            depth: self.crt_depth as int,
            crt_struct: self.crt_struct,
            crt_func: self.crt_func,
            table: self.symbols_table.model(),
        }
    }

    /// A parser at the start of `tokens`, with an empty table.
    pub fn new(tokens: Vec<Token>) -> (parser: Parser)
        ensures
            parser.wf(),
            parser.tokens == tokens,
            parser.current_token_index == 0,
            parser.scope() == (Scope {
                depth: 0,
                crt_struct: None,
                crt_func: None,
                table: Seq::empty(),
            }),
    {
        Parser {
            tokens,
            current_token_index: 0,
            crt_depth: 0,
            crt_struct: None,
            crt_func: None,
            symbols_table: SymbolTable::new(),
        }
    }

    /// The kind of the token at `pos`; `ILLEGAL` outside the input.
    pub fn kind(&self, pos: usize) -> (k: TokenType)
        ensures
            k == kind_at(self.tokens@, pos as int),
            self.tokens@.len() <= usize::MAX,
    {
        if pos < self.tokens.len() {
            self.tokens[pos].kind
        } else {
            TokenType::ILLEGAL
        }
    }

    /// `type_base` at `pos`.
    pub fn type_base(&self, pos: usize) -> (r: Outcome<Type>)
        ensures
            typed(r) == grammar::type_base(self.tokens@, self.symbols_table.model(), pos as int),
            r matches Outcome::Match(next, _) ==> pos < next <= self.tokens@.len(),
    {
        match self.kind(pos) {
            TokenType::INT => Outcome::Match(pos + 1, Type::new(TypeBase::Int, -1)),
            TokenType::DOUBLE => Outcome::Match(pos + 1, Type::new(TypeBase::Double, -1)),
            TokenType::CHAR => Outcome::Match(pos + 1, Type::new(TypeBase::Char, -1)),
            TokenType::STRUCT => {
                if self.kind(pos + 1) == TokenType::ID {
                    match self.symbols_table.find_last_index(self.tokens[pos + 1].literal.as_str()) {
                        None => Outcome::Fail(
                            Violation { error: SemanticError::UndefinedSymbol, at: pos + 1 },
                        ),
                        Some(i) => {
                            if self.symbols_table.class_of(i) == Class::Struct {
                                Outcome::Match(
                                    pos + 2,
                                    Type { type_base: TypeBase::Struct, s: Some(i), n_elements: -1 },
                                )
                            } else {
                                Outcome::Fail(
                                    Violation { error: SemanticError::NotAStruct, at: pos + 1 },
                                )
                            }
                        },
                    }
                } else {
                    Outcome::NoMatch
                }
            },
            _ => Outcome::NoMatch,
        }
    }

    /// How a production relates the parser before it to the parser after it,
    /// where `g` is what the grammar says of the production. A match moves
    /// the cursor forward by at least `least` tokens and yields the table;
    /// without a match nothing has changed; the tokens, the depth and the
    /// context stay in every case but that of a violation, in which only the
    /// tokens are sure to stay.
    pub open spec fn advance(
        pre: Parser,
        post: Parser,
        r: Verdict,
        g: Parsed<Seq<SymbolView>>,
        least: int,
    ) -> bool {
        &&& post.tokens == pre.tokens
        &&& post.wf()
        &&& match g {
            Parsed::Match { next, out } => {
                &&& r == Verdict::Match
                &&& post.current_token_index == next
                &&& pre.current_token_index + least <= next
                &&& post.scope() == (Scope { table: out, ..pre.scope() })
            },
            Parsed::NoMatch => {
                &&& r == Verdict::NoMatch
                &&& post.current_token_index == pre.current_token_index
                &&& post.scope() == pre.scope()
            },
            Parsed::Fail { err } => r == Verdict::Fail(err),
        }
    }

    /// `advance` for a production whose match consumes at least one token.
    pub open spec fn step(pre: Parser, post: Parser, r: Verdict, g: Parsed<Seq<SymbolView>>)
        -> bool {
        Self::advance(pre, post, r, g, 1)
    }

    /// Declares the variable named by the token at `pos`, with type `ty`, in
    /// the current context.
    pub fn add_var(&mut self, pos: usize, ty: Type) -> (r: Result<(), SemanticError>)
        requires
            pos < old(self).tokens@.len(),
        ensures
            final(self).tokens == old(self).tokens,
            final(self).current_token_index == old(self).current_token_index,
            final(self).crt_depth == old(self).crt_depth,
            final(self).crt_struct == old(self).crt_struct,
            final(self).crt_func == old(self).crt_func,
            match grammar::add_var(old(self).scope(), text_at(old(self).tokens@, pos as int), ty) {
                Ok(table) => r is Ok && final(self).symbols_table.model() == table,
                Err(err) => r == Err::<(), SemanticError>(err) && final(self).symbols_table.model()
                    == old(self).symbols_table.model(),
            },
    {
        let name = self.tokens[pos].literal.clone();
        let depth = self.crt_depth;
        match self.crt_struct {
            Some(si) => match self.symbols_table.member_count(si) {
                None => Err(SemanticError::NotAStruct),
                Some(_) => {
                    if self.symbols_table.has_member_named(si, name.as_str()) {
                        Err(SemanticError::Redefinition)
                    } else {
                        self.symbols_table.add_member(
                            si,
                            Symbol::new(name, Class::Var, None, Some(ty), depth, None, None),
                        );
                        Ok(())
                    }
                },
            },
            None => {
                let found = self.symbols_table.find_last_index(name.as_str());
                let taken = match self.crt_func {
                    Some(_) => match found {
                        Some(i) => self.symbols_table.depth_of(i) == depth,
                        None => false,
                    },
                    None => found.is_some(),
                };
                if taken {
                    Err(SemanticError::Redefinition)
                } else {
                    let memory = match self.crt_func {
                        Some(_) => Memory::Local,
                        None => Memory::Global,
                    };
                    self.symbols_table.push(
                        Symbol::new(name, Class::Var, Some(memory), Some(ty), depth, None, None),
                    );
                    Ok(())
                }
            },
        }
    }

    /// Takes back what a declaration added to the table.
    fn roll_back(&mut self, saved_len: usize, saved_members: usize)
        requires
            match old(self).crt_struct {
                Some(si) => has_members(old(self).symbols_table.model(), si as int)
                    ==> saved_members <= old(self).symbols_table.model()[si as int].members->0.len(),
                None => saved_len <= old(self).symbols_table.model().len(),
            },
        ensures
            final(self).tokens == old(self).tokens,
            final(self).current_token_index == old(self).current_token_index,
            final(self).crt_depth == old(self).crt_depth,
            final(self).crt_struct == old(self).crt_struct,
            final(self).crt_func == old(self).crt_func,
            final(self).symbols_table.model() == rolled_back(
                old(self).symbols_table.model(),
                old(self).crt_struct,
                saved_len as int,
                saved_members as int,
            ),
    {
        match self.crt_struct {
            Some(si) => match self.symbols_table.member_count(si) {
                Some(_) => {
                    self.symbols_table.truncate_members(si, saved_members);
                },
                None => {},
            },
            None => {
                self.symbols_table.truncate(saved_len);
            },
        }
    }

    /// `decl_var` at the cursor.
    #[verifier::rlimit(40)]
    pub fn decl_var(&mut self) -> (r: Verdict)
        requires
            old(self).wf(),
        ensures
            Self::step(
                *old(self),
                *final(self),
                r,
                grammar::decl_var(
                    old(self).tokens@,
                    old(self).scope(),
                    old(self).current_token_index as int,
                ),
            ),
            r == Verdict::Match ==> kept(
                old(self).symbols_table.model(),
                final(self).symbols_table.model(),
                old(self).crt_struct,
            ),
    {
        let start = self.current_token_index;
        let (first, base) = match self.type_base(start) {
            Outcome::Fail(err) => {
                return Verdict::Fail(err);
            },
            Outcome::NoMatch => {
                return Verdict::NoMatch;
            },
            Outcome::Match(next, base) => (next, base),
        };
        let saved_len = self.symbols_table.len();
        let saved_members = match self.crt_struct {
            Some(si) => match self.symbols_table.member_count(si) {
                Some(n) => n,
                None => 0,
            },
            None => 0,
        };
        let ghost toks = self.tokens@;
        let ghost before = self.symbols_table.model();
        let ghost goal = grammar::decl_var(toks, old(self).scope(), start as int);
        proof {
            match self.crt_struct {
                Some(si) => {
                    if has_members(before, si as int) {
                        assert(before[si as int].members->0.take(saved_members as int)
                            =~= before[si as int].members->0);
                        assert(rolled_back(
                            before,
                            self.crt_struct,
                            saved_len as int,
                            saved_members as int,
                        ) =~= before);
                    }
                },
                None => {
                    assert(before.take(saved_len as int) =~= before);
                },
            }
        }
        let mut p = first;
        loop
            invariant
                self.tokens == old(self).tokens,
                toks == self.tokens@,
                before == old(self).symbols_table.model(),
                self.current_token_index == start,
                self.crt_depth == old(self).crt_depth,
                self.crt_struct == old(self).crt_struct,
                self.crt_func == old(self).crt_func,
                old(self).wf(),
                start == old(self).current_token_index,
                start < p <= toks.len(),
                goal == grammar::decl_var(toks, old(self).scope(), start as int),
                grammar::declarators(toks, self.scope(), p as int, base) == goal,
                saved_len == before.len(),
                kept(before, self.symbols_table.model(), self.crt_struct),
                match self.crt_struct {
                    Some(si) => has_members(self.symbols_table.model(), si as int) ==> saved_members
                        <= self.symbols_table.model()[si as int].members->0.len(),
                    None => true,
                },
                rolled_back(
                    self.symbols_table.model(),
                    self.crt_struct,
                    saved_len as int,
                    saved_members as int,
                ) == before,
            decreases toks.len() - p,
        {
            if self.kind(p) != TokenType::ID {
                self.roll_back(saved_len, saved_members);
                return Verdict::NoMatch;
            }
            match self.declarator_type(p + 1, base) {
                Outcome::Fail(err) => {
                    return Verdict::Fail(err);
                },
                Outcome::NoMatch => {
                    self.roll_back(saved_len, saved_members);
                    return Verdict::NoMatch;
                },
                Outcome::Match(next, ty) => {
                    let ghost prior = self.symbols_table.model();
                    match self.add_var(p, ty) {
                        Err(err) => {
                            return Verdict::Fail(Violation { error: err, at: p });
                        },
                        Ok(_) => {},
                    }
                    proof {
                        let now = self.symbols_table.model();
                        match self.crt_struct {
                            Some(si) => {
                                let ms = prior[si as int].members->0;
                                assert(now[si as int].members->0.take(saved_members as int)
                                    =~= ms.take(saved_members as int));
                                assert(rolled_back(
                                    now,
                                    self.crt_struct,
                                    saved_len as int,
                                    saved_members as int,
                                ) =~= rolled_back(
                                    prior,
                                    self.crt_struct,
                                    saved_len as int,
                                    saved_members as int,
                                ));
                            },
                            None => {
                                assert(now.take(saved_len as int) =~= prior.take(saved_len as int));
                            },
                        }
                    }
                    if self.kind(next) == TokenType::COMMA {
                        p = next + 1;
                    } else if self.kind(next) == TokenType::SEMICOLON {
                        self.current_token_index = next + 1;
                        return Verdict::Match;
                    } else {
                        self.roll_back(saved_len, saved_members);
                        return Verdict::NoMatch;
                    }
                },
            }
        }
    }
}

} // verus!
