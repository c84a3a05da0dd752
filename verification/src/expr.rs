//! The expression analyser: the productions of the expression grammar, each
//! with the attributes that it gives to what it matched. Expressions read
//! the tokens and the table and change neither.

use vstd::prelude::*;
use vstd::string::*;
use crate::grammar;
use crate::grammar::text_at;
use crate::parser::{attributed, char_literal, int_literal, plain, typed, Outcome, Parser};
use crate::rules::{
    check_assign, check_binary, check_conversion, check_index, check_unary, SemanticError,
    Violation,
};
use crate::symbols::{Class, CtVal, RetVal, Type, TypeBase};
use crate::token::TokenType;

verus! {

/// The attributes of a computed value of type `ty`.
fn rvalue(ty: Type) -> (r: RetVal)
    ensures
        r.model() == grammar::rvalue(ty),
{
    RetVal { ty, is_lval: false, is_ctval: false, ct_val: None }
}

/// The attributes of a storage location of type `ty`.
fn lvalue(ty: Type) -> (r: RetVal)
    ensures
        r.model() == grammar::lvalue(ty),
{
    RetVal { ty, is_lval: true, is_ctval: false, ct_val: None }
}

/// The attributes of a literal of type `ty` and value `value`.
fn constant(ty: Type, value: Option<CtVal>) -> (r: RetVal)
    ensures
        r.model() == grammar::constant(
            ty,
            match value {
                Some(v) => Some(v.model()),
                None => None,
            },
        ),
{
    RetVal { ty, is_lval: false, is_ctval: true, ct_val: value }
}

/// The level of the binary operator `kind`, if it is one.
fn level_of(kind: TokenType) -> (r: Option<u8>)
    ensures
        match r {
            Some(l) => grammar::op_level(kind) == Some(l as nat) && l <= 5,
            None => grammar::op_level(kind) is None,
        },
{
    match kind {
        TokenType::MUL => Some(0),
        TokenType::DIV => Some(0),
        TokenType::ADD => Some(1),
        TokenType::SUB => Some(1),
        TokenType::LESS => Some(2),
        TokenType::LESSEQ => Some(2),
        TokenType::GREATER => Some(2),
        TokenType::GREATEREQ => Some(2),
        TokenType::EQUAL => Some(3),
        TokenType::NOTEQ => Some(3),
        TokenType::AND => Some(4),
        TokenType::OR => Some(5),
        _ => None,
    }
}

impl Parser {
    /// The text of the token at `pos`.
    pub fn text(&self, pos: usize) -> (t: &str)
        requires
            pos < self.tokens@.len(),
        ensures
            t@ == text_at(self.tokens@, pos as int),
    {
        self.tokens[pos].literal.as_str()
    }

    /// What closes an argument list after `given` arguments.
    fn close_call(&self, pos: usize, fi: usize, given: usize) -> (r: Outcome<()>)
        requires
            fi < self.symbols_table.model().len(),
        ensures
            plain(r) == grammar::close_call(
                self.tokens@,
                pos as int,
                grammar::params_of(self.symbols_table.model()[fi as int]),
                given as int,
            ),
            r matches Outcome::Match(next, _) ==> pos < next <= self.tokens@.len(),
    {
        if self.kind(pos) == TokenType::RPAR {
            let expected = match self.symbols_table.args_of(fi) {
                Some(a) => a.len(),
                None => 0,
            };
            if given < expected {
                Outcome::Fail(Violation { error: SemanticError::TooFewArguments, at: pos })
            } else {
                Outcome::Match(pos + 1, ())
            }
        } else {
            Outcome::NoMatch
        }
    }

    /// Checks argument number `k`, of type `arg`, against the parameters of
    /// the function at `fi`.
    fn check_argument(&self, fi: usize, k: usize, arg: &Type) -> (r: Result<(), SemanticError>)
        requires
            fi < self.symbols_table.model().len(),
        ensures
            r == grammar::argument_result(
                grammar::params_of(self.symbols_table.model()[fi as int]),
                k as int,
                *arg,
            ),
    {
        match self.symbols_table.args_of(fi) {
            None => Err(SemanticError::TooManyArguments),
            Some(a) => {
                if k >= a.len() {
                    Err(SemanticError::TooManyArguments)
                } else {
                    match a.type_of(k) {
                        Some(t) => check_conversion(&t, arg),
                        None => Ok(()),
                    }
                }
            },
        }
    }

    /// The arguments of a call of the function at `fi` and the `)` behind
    /// them, from the token after `(`.
    #[verifier::rlimit(40)]
    pub fn call_args(&self, pos: usize, fi: usize) -> (r: Outcome<()>)
        requires
            fi < self.symbols_table.model().len(),
        ensures
            plain(r) == grammar::call_args(
                self.tokens@,
                self.symbols_table.model(),
                pos as int,
                grammar::params_of(self.symbols_table.model()[fi as int]),
            ),
            r matches Outcome::Match(next, _) ==> pos < next <= self.tokens@.len(),
        decreases self.tokens@.len() - pos, 11int, 0int,
    {
        let ghost toks = self.tokens@;
        let ghost table = self.symbols_table.model();
        let ghost params = grammar::params_of(table[fi as int]);
        match self.expr_assign(pos) {
            Outcome::Fail(err) => Outcome::Fail(err),
            Outcome::NoMatch => self.close_call(pos, fi, 0),
            Outcome::Match(next, out) => {
                let mut p = next;
                let mut k: usize = 0;
                let mut arg = out.ty;
                loop
                    invariant
                        toks == self.tokens@,
                        table == self.symbols_table.model(),
                        params == grammar::params_of(table[fi as int]),
                        fi < self.symbols_table.model().len(),
                        pos < p <= toks.len(),
                        k < p - pos,
                        grammar::more_args(toks, table, p as int, params, k as int, arg)
                            == grammar::call_args(toks, table, pos as int, params),
                    decreases toks.len() - p,
                {
                    match self.check_argument(fi, k, &arg) {
                        Err(err) => {
                            return Outcome::Fail(Violation { error: err, at: p });
                        },
                        Ok(_) => {},
                    }
                    if self.kind(p) == TokenType::COMMA {
                        match self.expr_assign(p + 1) {
                            Outcome::Fail(err) => {
                                return Outcome::Fail(err);
                            },
                            Outcome::NoMatch => {
                                return Outcome::NoMatch;
                            },
                            Outcome::Match(next, out) => {
                                p = next;
                                k = k + 1;
                                arg = out.ty;
                            },
                        }
                    } else {
                        return self.close_call(p, fi, k + 1);
                    }
                }
            },
        }
    }

    /// `expr_primary` at `pos`.
    #[verifier::rlimit(40)]
    pub fn expr_primary(&self, pos: usize) -> (r: Outcome<RetVal>)
        ensures
            attributed(r) == grammar::expr_primary(
                self.tokens@,
                self.symbols_table.model(),
                pos as int,
            ),
            r matches Outcome::Match(next, _) ==> pos < next <= self.tokens@.len(),
        decreases self.tokens@.len() - pos, 0int, 0int,
    {
        match self.kind(pos) {
            TokenType::ID => {
                match self.symbols_table.find_last_index(self.text(pos)) {
                    None => Outcome::Fail(
                        Violation { error: SemanticError::UndefinedSymbol, at: pos },
                    ),
                    Some(i) => {
                        let class = self.symbols_table.class_of(i);
                        let ty = self.symbols_table.type_of(i);
                        let callable = class == Class::Func || class == Class::ExtFunc;
                        if self.kind(pos + 1) == TokenType::LPAR {
                            if !callable {
                                Outcome::Fail(
                                    Violation { error: SemanticError::NotAFunction, at: pos },
                                )
                            } else {
                                match self.call_args(pos + 2, i) {
                                    Outcome::Fail(err) => Outcome::Fail(err),
                                    Outcome::NoMatch => Outcome::NoMatch,
                                    Outcome::Match(next, _) => match ty {
                                        Some(t) => Outcome::Match(next, rvalue(t)),
                                        None => Outcome::Fail(
                                            Violation { error: SemanticError::NotAValue, at: pos },
                                        ),
                                    },
                                }
                            }
                        } else if callable {
                            Outcome::Fail(
                                Violation { error: SemanticError::MissingCall, at: pos },
                            )
                        } else {
                            match ty {
                                Some(t) => Outcome::Match(pos + 1, lvalue(t)),
                                None => Outcome::Fail(
                                            Violation { error: SemanticError::NotAValue, at: pos },
                                        ),
                            }
                        }
                    },
                }
            },
            TokenType::CT_INT => {
                let value = match int_literal(self.text(pos)) {
                    Some(v) => Some(CtVal::Int(v)),
                    None => None,
                };
                Outcome::Match(pos + 1, constant(Type::new(TypeBase::Int, -1), value))
            },
            TokenType::CT_REAL => {
                let value = Some(CtVal::Double(self.tokens[pos].literal.clone()));
                Outcome::Match(pos + 1, constant(Type::new(TypeBase::Double, -1), value))
            },
            TokenType::CT_CHAR => {
                let value = match char_literal(self.text(pos)) {
                    Some(c) => Some(CtVal::Char(c)),
                    None => None,
                };
                Outcome::Match(pos + 1, constant(Type::new(TypeBase::Char, -1), value))
            },
            TokenType::CT_STRING => {
                let value = Some(CtVal::Str(self.tokens[pos].literal.clone()));
                Outcome::Match(pos + 1, constant(Type::new(TypeBase::Char, 0), value))
            },
            TokenType::LPAR => match self.expr_assign(pos + 1) {
                Outcome::Fail(err) => Outcome::Fail(err),
                Outcome::NoMatch => Outcome::NoMatch,
                Outcome::Match(next, out) => {
                    if self.kind(next) == TokenType::RPAR {
                        Outcome::Match(next + 1, out)
                    } else {
                        Outcome::NoMatch
                    }
                },
            },
            _ => Outcome::NoMatch,
        }
    }

    /// `expr`, which is `expr_assign`, at `pos`.
    pub fn expr(&self, pos: usize) -> (r: Outcome<RetVal>)
        ensures
            attributed(r) == grammar::expr_assign(
                self.tokens@,
                self.symbols_table.model(),
                pos as int,
            ),
            r matches Outcome::Match(next, _) ==> pos < next <= self.tokens@.len(),
    {
        self.expr_assign(pos)
    }

    /// `expr_assign` at `pos`. The unary expression at `pos` is read once:
    /// where no assignment follows, the run of operators goes on from it.
    pub fn expr_assign(&self, pos: usize) -> (r: Outcome<RetVal>)
        ensures
            attributed(r) == grammar::expr_assign(
                self.tokens@,
                self.symbols_table.model(),
                pos as int,
            ),
            r matches Outcome::Match(next, _) ==> pos < next <= self.tokens@.len(),
        decreases self.tokens@.len() - pos, 10int, 0int,
    {
        match self.expr_unary(pos) {
            Outcome::Fail(err) => Outcome::Fail(err),
            Outcome::NoMatch => self.binary_chain(pos, Outcome::NoMatch),
            Outcome::Match(next, lhs) => {
                if self.kind(next) == TokenType::ASSIGN {
                    match self.expr_assign(next + 1) {
                        Outcome::Fail(err) => Outcome::Fail(err),
                        Outcome::NoMatch => self.binary_chain(pos, Outcome::Match(next, lhs)),
                        Outcome::Match(behind, rhs) => match check_assign(
                            &lhs.ty,
                            lhs.is_lval,
                            &rhs.ty,
                        ) {
                            Err(err) => Outcome::Fail(Violation { error: err, at: pos }),
                            Ok(t) => Outcome::Match(behind, rvalue(t)),
                        },
                    }
                } else {
                    self.binary_chain(pos, Outcome::Match(next, lhs))
                }
            },
        }
    }

    /// The run of `||` at `pos`, given the unary expression `unary` that
    /// stands there: the operators of each level are read behind what the
    /// level below gave.
    fn binary_chain(&self, pos: usize, unary: Outcome<RetVal>) -> (r: Outcome<RetVal>)
        requires
            attributed(unary) == grammar::expr_unary(
                self.tokens@,
                self.symbols_table.model(),
                pos as int,
            ),
            unary matches Outcome::Match(next, _) ==> pos < next <= self.tokens@.len(),
        ensures
            attributed(r) == grammar::expr_binary(
                self.tokens@,
                self.symbols_table.model(),
                5,
                pos as int,
            ),
            r matches Outcome::Match(next, _) ==> pos < next <= self.tokens@.len(),
        decreases self.tokens@.len() - pos, 9int, 5int,
    {
        let cast = self.cast_from(pos, unary);
        let mul = self.climb(0, pos, cast);
        let add = self.climb(1, pos, mul);
        let rel = self.climb(2, pos, add);
        let eq = self.climb(3, pos, rel);
        let and = self.climb(4, pos, eq);
        self.climb(5, pos, and)
    }

    /// `expr_cast` at `pos`, given the unary expression `unary` that stands
    /// there.
    fn cast_from(&self, pos: usize, unary: Outcome<RetVal>) -> (r: Outcome<RetVal>)
        requires
            attributed(unary) == grammar::expr_unary(
                self.tokens@,
                self.symbols_table.model(),
                pos as int,
            ),
            unary matches Outcome::Match(next, _) ==> pos < next <= self.tokens@.len(),
        ensures
            attributed(r) == grammar::expr_cast(
                self.tokens@,
                self.symbols_table.model(),
                pos as int,
            ),
            r matches Outcome::Match(next, _) ==> pos < next <= self.tokens@.len(),
        decreases self.tokens@.len() - pos, 3int, 1int,
    {
        if self.kind(pos) == TokenType::LPAR {
            match self.type_spec(pos + 1) {
                Outcome::Fail(err) => Outcome::Fail(err),
                Outcome::NoMatch => unary,
                Outcome::Match(next, dst) => {
                    if self.kind(next) == TokenType::RPAR {
                        match self.expr_cast(next + 1) {
                            Outcome::Fail(err) => Outcome::Fail(err),
                            Outcome::NoMatch => unary,
                            Outcome::Match(behind, out) => match check_conversion(&dst, &out.ty) {
                                Err(err) => Outcome::Fail(Violation { error: err, at: pos }),
                                Ok(_) => Outcome::Match(behind, rvalue(dst)),
                            },
                        }
                    } else {
                        unary
                    }
                },
            }
        } else {
            unary
        }
    }

    /// The operand of an operator of `level`: a cast expression at level 0,
    /// an expression of the level below elsewhere.
    fn operand(&self, level: u8, pos: usize) -> (r: Outcome<RetVal>)
        requires
            level <= 5,
        ensures
            attributed(r) == if level == 0 {
                grammar::expr_cast(self.tokens@, self.symbols_table.model(), pos as int)
            } else {
                grammar::expr_binary(
                    self.tokens@,
                    self.symbols_table.model(),
                    (level - 1) as nat,
                    pos as int,
                )
            },
            r matches Outcome::Match(next, _) ==> pos < next <= self.tokens@.len(),
        decreases self.tokens@.len() - pos, 3 + level, 1int,
    {
        if level == 0 {
            self.expr_cast(pos)
        } else {
            self.expr_binary(level - 1, pos)
        }
    }

    /// One level of binary operators at `pos`: level 0 is `*` and `/`, level
    /// 5 is `||`.
    pub fn expr_binary(&self, level: u8, pos: usize) -> (r: Outcome<RetVal>)
        requires
            level <= 5,
        ensures
            attributed(r) == grammar::expr_binary(
                self.tokens@,
                self.symbols_table.model(),
                level as nat,
                pos as int,
            ),
            r matches Outcome::Match(next, _) ==> pos < next <= self.tokens@.len(),
        decreases self.tokens@.len() - pos, 4 + level, 0int,
    {
        let first = self.operand(level, pos);
        self.climb(level, pos, first)
    }

    /// The operators of `level` at `pos`, given what the level below gave
    /// there: its run of operators is read behind that, from the left.
    #[verifier::rlimit(40)]
    fn climb(&self, level: u8, pos: usize, lower: Outcome<RetVal>) -> (r: Outcome<RetVal>)
        requires
            level <= 5,
            attributed(lower) == if level == 0 {
                grammar::expr_cast(self.tokens@, self.symbols_table.model(), pos as int)
            } else {
                grammar::expr_binary(
                    self.tokens@,
                    self.symbols_table.model(),
                    (level - 1) as nat,
                    pos as int,
                )
            },
            lower matches Outcome::Match(next, _) ==> pos < next <= self.tokens@.len(),
        ensures
            attributed(r) == grammar::expr_binary(
                self.tokens@,
                self.symbols_table.model(),
                level as nat,
                pos as int,
            ),
            r matches Outcome::Match(next, _) ==> pos < next <= self.tokens@.len(),
        decreases self.tokens@.len() - pos, 3 + level, 2int,
    {
        let ghost toks = self.tokens@;
        let ghost table = self.symbols_table.model();
        match lower {
            Outcome::Fail(err) => Outcome::Fail(err),
            Outcome::NoMatch => Outcome::NoMatch,
            Outcome::Match(next, out) => {
                let mut p = next;
                let mut lhs = out;
                loop
                    invariant
                        toks == self.tokens@,
                        table == self.symbols_table.model(),
                        level <= 5,
                        pos < p <= toks.len(),
                        grammar::binary_tail(toks, table, level as nat, p as int, lhs.model())
                            == grammar::expr_binary(toks, table, level as nat, pos as int),
                    decreases toks.len() - p,
                {
                    let op = self.kind(p);
                    if level_of(op) == Some(level) {
                        match self.operand(level, p + 1) {
                            Outcome::Fail(err) => {
                                return Outcome::Fail(err);
                            },
                            Outcome::NoMatch => {
                                return Outcome::NoMatch;
                            },
                            Outcome::Match(next, rhs) => match check_binary(op, &lhs.ty, &rhs.ty) {
                                Err(err) => {
                                    return Outcome::Fail(Violation { error: err, at: p });
                                },
                                Ok(t) => {
                                    p = next;
                                    lhs = rvalue(t);
                                },
                            },
                        }
                    } else {
                        return Outcome::Match(p, lhs);
                    }
                }
            },
        }
    }

    /// `expr_cast` at `pos`.
    pub fn expr_cast(&self, pos: usize) -> (r: Outcome<RetVal>)
        ensures
            attributed(r) == grammar::expr_cast(
                self.tokens@,
                self.symbols_table.model(),
                pos as int,
            ),
            r matches Outcome::Match(next, _) ==> pos < next <= self.tokens@.len(),
        decreases self.tokens@.len() - pos, 3int, 0int,
    {
        if self.kind(pos) == TokenType::LPAR {
            match self.type_spec(pos + 1) {
                Outcome::Fail(err) => Outcome::Fail(err),
                Outcome::NoMatch => self.expr_unary(pos),
                Outcome::Match(next, dst) => {
                    if self.kind(next) == TokenType::RPAR {
                        match self.expr_cast(next + 1) {
                            Outcome::Fail(err) => Outcome::Fail(err),
                            Outcome::NoMatch => self.expr_unary(pos),
                            Outcome::Match(next, out) => match check_conversion(&dst, &out.ty) {
                                Err(err) => Outcome::Fail(Violation { error: err, at: pos }),
                                Ok(_) => Outcome::Match(next, rvalue(dst)),
                            },
                        }
                    } else {
                        self.expr_unary(pos)
                    }
                },
            }
        } else {
            self.expr_unary(pos)
        }
    }

    /// `expr_unary` at `pos`.
    pub fn expr_unary(&self, pos: usize) -> (r: Outcome<RetVal>)
        ensures
            attributed(r) == grammar::expr_unary(
                self.tokens@,
                self.symbols_table.model(),
                pos as int,
            ),
            r matches Outcome::Match(next, _) ==> pos < next <= self.tokens@.len(),
        decreases self.tokens@.len() - pos, 2int, 0int,
    {
        let op = self.kind(pos);
        if op == TokenType::SUB || op == TokenType::NOT {
            match self.expr_unary(pos + 1) {
                Outcome::Fail(err) => Outcome::Fail(err),
                Outcome::NoMatch => Outcome::NoMatch,
                Outcome::Match(next, out) => match check_unary(op, &out.ty) {
                    Err(err) => Outcome::Fail(Violation { error: err, at: pos }),
                    Ok(t) => Outcome::Match(next, rvalue(t)),
                },
            }
        } else {
            self.expr_postfix(pos)
        }
    }

    /// The type of member `name` of a value of type `base`.
    pub fn member_type(&self, base: &Type, name: &str) -> (r: Result<Type, SemanticError>)
        ensures
            r == grammar::member_result(self.symbols_table.model(), *base, name@),
    {
        if base.type_base != TypeBase::Struct {
            return Err(SemanticError::NotAStruct);
        }
        match base.s {
            None => Err(SemanticError::NotAStruct),
            Some(i) => {
                if i < self.symbols_table.len() {
                    match self.symbols_table.members_of(i) {
                        None => Err(SemanticError::NotAStruct),
                        Some(members) => match members.find_last_index(name) {
                            None => Err(SemanticError::UndefinedMember),
                            Some(j) => match members.type_of(j) {
                                Some(t) => Ok(t),
                                None => Err(SemanticError::NotAValue),
                            },
                        },
                    }
                } else {
                    Err(SemanticError::NotAStruct)
                }
            },
        }
    }

    /// `expr_postfix` at `pos`.
    #[verifier::rlimit(40)]
    pub fn expr_postfix(&self, pos: usize) -> (r: Outcome<RetVal>)
        ensures
            attributed(r) == grammar::expr_postfix(
                self.tokens@,
                self.symbols_table.model(),
                pos as int,
            ),
            r matches Outcome::Match(next, _) ==> pos < next <= self.tokens@.len(),
        decreases self.tokens@.len() - pos, 1int, 0int,
    {
        let ghost toks = self.tokens@;
        let ghost table = self.symbols_table.model();
        match self.expr_primary(pos) {
            Outcome::Fail(err) => Outcome::Fail(err),
            Outcome::NoMatch => Outcome::NoMatch,
            Outcome::Match(next, out) => {
                let mut p = next;
                let mut base = out;
                loop
                    invariant
                        toks == self.tokens@,
                        table == self.symbols_table.model(),
                        pos < p <= toks.len(),
                        grammar::postfix_tail(toks, table, p as int, base.model())
                            == grammar::expr_postfix(toks, table, pos as int),
                    decreases toks.len() - p,
                {
                    match self.kind(p) {
                        TokenType::LBRACKET => match self.expr_assign(p + 1) {
                            Outcome::Fail(err) => {
                                return Outcome::Fail(err);
                            },
                            Outcome::NoMatch => {
                                return Outcome::NoMatch;
                            },
                            Outcome::Match(next, index) => match check_index(&base.ty, &index.ty) {
                                Err(err) => {
                                    return Outcome::Fail(Violation { error: err, at: p });
                                },
                                Ok(t) => {
                                    if self.kind(next) == TokenType::RBRACKET {
                                        p = next + 1;
                                        base = lvalue(t);
                                    } else {
                                        return Outcome::NoMatch;
                                    }
                                },
                            },
                        },
                        TokenType::DOT => {
                            if self.kind(p + 1) == TokenType::ID {
                                match self.member_type(&base.ty, self.text(p + 1)) {
                                    Err(err) => {
                                        return Outcome::Fail(Violation { error: err, at: p + 1 });
                                    },
                                    Ok(t) => {
                                        p = p + 2;
                                        base = lvalue(t);
                                    },
                                }
                            } else {
                                return Outcome::NoMatch;
                            }
                        },
                        _ => {
                            return Outcome::Match(p, base);
                        },
                    }
                }
            },
        }
    }

    /// `array_decl` at `pos`.
    pub fn array_decl(&self, pos: usize) -> (r: Outcome<()>)
        ensures
            plain(r) == grammar::array_decl(self.tokens@, self.symbols_table.model(), pos as int),
            r matches Outcome::Match(next, _) ==> pos < next <= self.tokens@.len(),
        decreases self.tokens@.len() - pos, 0int, 0int,
    {
        if self.kind(pos) == TokenType::LBRACKET {
            match self.expr_assign(pos + 1) {
                Outcome::Fail(err) => Outcome::Fail(err),
                Outcome::NoMatch => {
                    if self.kind(pos + 1) == TokenType::RBRACKET {
                        Outcome::Match(pos + 2, ())
                    } else {
                        Outcome::NoMatch
                    }
                },
                Outcome::Match(next, _) => {
                    if self.kind(next) == TokenType::RBRACKET {
                        Outcome::Match(next + 1, ())
                    } else {
                        Outcome::NoMatch
                    }
                },
            }
        } else {
            Outcome::NoMatch
        }
    }

    /// The type that a declarator gives to a name, from the position behind
    /// the name.
    pub fn declarator_type(&self, pos: usize, base: Type) -> (r: Outcome<Type>)
        requires
            pos <= self.tokens@.len(),
        ensures
            typed(r) == grammar::declarator_type(
                self.tokens@,
                self.symbols_table.model(),
                pos as int,
                base,
            ),
            r matches Outcome::Match(next, _) ==> pos <= next <= self.tokens@.len(),
            !(r is NoMatch),
        decreases self.tokens@.len() - pos, 1int, 0int,
    {
        match self.array_decl(pos) {
            Outcome::Fail(err) => Outcome::Fail(err),
            Outcome::NoMatch => Outcome::Match(pos, base),
            Outcome::Match(next, _) => Outcome::Match(
                next,
                Type { type_base: base.type_base, s: base.s, n_elements: 0 },
            ),
        }
    }

    /// `type_spec` at `pos`: a `type_base` and, optionally, an `array_decl`.
    pub fn type_spec(&self, pos: usize) -> (r: Outcome<Type>)
        ensures
            typed(r) == grammar::type_spec(self.tokens@, self.symbols_table.model(), pos as int),
            r matches Outcome::Match(next, _) ==> pos < next <= self.tokens@.len(),
        decreases self.tokens@.len() - pos, 2int, 0int,
    {
        match self.type_base(pos) {
            Outcome::Fail(err) => Outcome::Fail(err),
            Outcome::NoMatch => Outcome::NoMatch,
            Outcome::Match(next, base) => self.declarator_type(next, base),
        }
    }
}

} // verus!
