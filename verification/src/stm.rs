//! Statements. A statement that matches leaves the table as it found it:
//! what a block declares is gone at the block's end.

use vstd::prelude::*;
use crate::grammar;

use crate::parser::{optional, plain, Outcome, Parser, Verdict};
use crate::rules::{
    check_for_condition, check_operand, check_return, SemanticError, Violation,
};
use crate::symbols::{is_prefix, lemma_prefix_chain, Type};
use crate::token::TokenType;

verus! {

impl Parser {
    /// An optional expression at `pos`.
    pub fn optional_expr(&self, pos: usize) -> (r: Outcome<Option<Type>>)
        requires
            pos <= self.tokens@.len(),
        ensures
            optional(r) == grammar::optional_expr(
                self.tokens@,
                self.symbols_table.model(),
                pos as int,
            ),
            r matches Outcome::Match(next, _) ==> pos <= next <= self.tokens@.len(),
            !(r is NoMatch),
    {
        match self.expr_assign(pos) {
            Outcome::Fail(err) => Outcome::Fail(err),
            Outcome::NoMatch => Outcome::Match(pos, None),
            Outcome::Match(next, out) => Outcome::Match(next, Some(out.ty)),
        }
    }

    /// The condition of `if` and `while` in parentheses, from the position
    /// of `(`.
    pub fn condition(&self, pos: usize) -> (r: Outcome<()>)
        ensures
            plain(r) == grammar::condition(self.tokens@, self.symbols_table.model(), pos as int),
            r matches Outcome::Match(next, _) ==> pos < next <= self.tokens@.len(),
    {
        if self.kind(pos) == TokenType::LPAR {
            match self.expr_assign(pos + 1) {
                Outcome::Fail(err) => Outcome::Fail(err),
                Outcome::NoMatch => Outcome::NoMatch,
                Outcome::Match(next, out) => match check_operand(&out.ty) {
                    Err(err) => Outcome::Fail(Violation { error: err, at: pos }),
                    Ok(_) => {
                        if self.kind(next) == TokenType::RPAR {
                            Outcome::Match(next + 1, ())
                        } else {
                            Outcome::NoMatch
                        }
                    },
                },
            }
        } else {
            Outcome::NoMatch
        }
    }

    /// The three optional expressions of a `for` in parentheses, from the
    /// position of `(`.
    pub fn for_heading(&self, pos: usize) -> (r: Outcome<()>)
        ensures
            plain(r) == grammar::for_heading(self.tokens@, self.symbols_table.model(), pos as int),
            r matches Outcome::Match(next, _) ==> pos < next <= self.tokens@.len(),
    {
        if self.kind(pos) != TokenType::LPAR {
            return Outcome::NoMatch;
        }
        let first = match self.optional_expr(pos + 1) {
            Outcome::Fail(err) => {
                return Outcome::Fail(err);
            },
            Outcome::NoMatch => {
                return Outcome::NoMatch;
            },
            Outcome::Match(next, _) => next,
        };
        if self.kind(first) != TokenType::SEMICOLON {
            return Outcome::NoMatch;
        }
        let second = match self.optional_expr(first + 1) {
            Outcome::Fail(err) => {
                return Outcome::Fail(err);
            },
            Outcome::NoMatch => {
                return Outcome::NoMatch;
            },
            Outcome::Match(next, cond) => {
                match cond {
                    Some(t) => match check_for_condition(&t) {
                        Err(err) => {
                            return Outcome::Fail(Violation { error: err, at: pos });
                        },
                        Ok(_) => {},
                    },
                    None => {},
                }
                next
            },
        };
        if self.kind(second) != TokenType::SEMICOLON {
            return Outcome::NoMatch;
        }
        let third = match self.optional_expr(second + 1) {
            Outcome::Fail(err) => {
                return Outcome::Fail(err);
            },
            Outcome::NoMatch => {
                return Outcome::NoMatch;
            },
            Outcome::Match(next, _) => next,
        };
        if self.kind(third) == TokenType::RPAR {
            Outcome::Match(third + 1, ())
        } else {
            Outcome::NoMatch
        }
    }

    /// Checks a returned value of type `value` against the function whose
    /// body is being read.
    pub fn return_check(&self, value: &Type) -> (r: Result<(), SemanticError>)
        ensures
            r == grammar::return_check(self.scope(), *value),
    {
        match self.crt_func {
            Some(fi) => {
                if fi < self.symbols_table.len() {
                    match self.symbols_table.type_of(fi) {
                        Some(ret) => check_return(&ret, value),
                        None => Ok(()),
                    }
                } else {
                    Ok(())
                }
            },
            None => Ok(()),
        }
    }

    /// Moves the cursor behind the `;` at `pos`, if there is one.
    fn semicolon(&mut self, pos: usize) -> (r: Verdict)
        requires
            old(self).wf(),
            old(self).current_token_index <= pos,
        ensures
            Self::step(
                *old(self),
                *final(self),
                r,
                grammar::semicolon(old(self).tokens@, pos as int, old(self).symbols_table.model()),
            ),
            final(self).symbols_table == old(self).symbols_table,
    {
        if self.kind(pos) == TokenType::SEMICOLON {
            self.current_token_index = pos + 1;
            Verdict::Match
        } else {
            Verdict::NoMatch
        }
    }

    /// `stm` at the cursor.
    #[verifier::rlimit(40)]
    pub fn stm(&mut self) -> (r: Verdict)
        requires
            old(self).wf(),
        ensures
            Self::step(
                *old(self),
                *final(self),
                r,
                grammar::stm(
                    old(self).tokens@,
                    old(self).scope(),
                    old(self).current_token_index as int,
                ),
            ),
            r == Verdict::Match ==> final(self).symbols_table.model() == old(
                self,
            ).symbols_table.model(),
        decreases old(self).tokens@.len() - old(self).current_token_index, 14int,
    {
        let start = self.current_token_index;
        match self.kind(start) {
            TokenType::LACC => self.stm_compound(),
            TokenType::IF => {
                let body = match self.condition(start + 1) {
                    Outcome::Fail(err) => {
                        return Verdict::Fail(err);
                    },
                    Outcome::NoMatch => {
                        return Verdict::NoMatch;
                    },
                    Outcome::Match(next, _) => next,
                };
                self.current_token_index = body;
                match self.stm() {
                    Verdict::Fail(err) => Verdict::Fail(err),
                    Verdict::NoMatch => {
                        self.current_token_index = start;
                        Verdict::NoMatch
                    },
                    Verdict::Match => {
                        let behind = self.current_token_index;
                        if self.kind(behind) == TokenType::ELSE {
                            self.current_token_index = behind + 1;
                            match self.stm() {
                                Verdict::Fail(err) => Verdict::Fail(err),
                                Verdict::NoMatch => {
                                    self.current_token_index = start;
                                    Verdict::NoMatch
                                },
                                Verdict::Match => Verdict::Match,
                            }
                        } else {
                            Verdict::Match
                        }
                    },
                }
            },
            TokenType::WHILE => {
                let body = match self.condition(start + 1) {
                    Outcome::Fail(err) => {
                        return Verdict::Fail(err);
                    },
                    Outcome::NoMatch => {
                        return Verdict::NoMatch;
                    },
                    Outcome::Match(next, _) => next,
                };
                self.current_token_index = body;
                match self.stm() {
                    Verdict::Fail(err) => Verdict::Fail(err),
                    Verdict::NoMatch => {
                        self.current_token_index = start;
                        Verdict::NoMatch
                    },
                    Verdict::Match => Verdict::Match,
                }
            },
            TokenType::FOR => {
                let body = match self.for_heading(start + 1) {
                    Outcome::Fail(err) => {
                        return Verdict::Fail(err);
                    },
                    Outcome::NoMatch => {
                        return Verdict::NoMatch;
                    },
                    Outcome::Match(next, _) => next,
                };
                self.current_token_index = body;
                match self.stm() {
                    Verdict::Fail(err) => Verdict::Fail(err),
                    Verdict::NoMatch => {
                        self.current_token_index = start;
                        Verdict::NoMatch
                    },
                    Verdict::Match => Verdict::Match,
                }
            },
            TokenType::BREAK => self.semicolon(start + 1),
            TokenType::RETURN => match self.optional_expr(start + 1) {
                Outcome::Fail(err) => Verdict::Fail(err),
                Outcome::NoMatch => Verdict::NoMatch,
                Outcome::Match(next, value) => {
                    match value {
                        Some(t) => match self.return_check(&t) {
                            Err(err) => {
                                return Verdict::Fail(Violation { error: err, at: start });
                            },
                            Ok(_) => {},
                        },
                        None => {},
                    }
                    self.semicolon(next)
                },
            },
            _ => match self.optional_expr(start) {
                Outcome::Fail(err) => Verdict::Fail(err),
                Outcome::NoMatch => Verdict::NoMatch,
                Outcome::Match(next, _) => self.semicolon(next),
            },
        }
    }

    /// The contents of a block at the cursor: declarations and statements,
    /// as many as match.
    #[verifier::rlimit(40)]
    pub fn block_items(&mut self) -> (r: Verdict)
        requires
            old(self).wf(),
            old(self).crt_struct is None,
        ensures
            Self::advance(
                *old(self),
                *final(self),
                r,
                grammar::block_items(
                    old(self).tokens@,
                    old(self).scope(),
                    old(self).current_token_index as int,
                ),
                0,
            ),
            r == Verdict::Match ==> is_prefix(
                old(self).symbols_table.model(),
                final(self).symbols_table.model(),
            ),
            !(r == Verdict::NoMatch),
        decreases old(self).tokens@.len() - old(self).current_token_index, 15int,
    {
        let ghost toks = self.tokens@;
        let ghost before = self.symbols_table.model();
        let ghost goal = grammar::block_items(
            toks,
            self.scope(),
            self.current_token_index as int,
        );
        proof {
            assert(before.take(before.len() as int) =~= before);
        }
        loop
            invariant
                self.tokens == old(self).tokens,
                toks == self.tokens@,
                self.wf(),
                self.crt_depth == old(self).crt_depth,
                self.crt_struct == old(self).crt_struct,
                self.crt_struct is None,
                self.crt_func == old(self).crt_func,
                old(self).current_token_index <= self.current_token_index,
                before == old(self).symbols_table.model(),
                is_prefix(before, self.symbols_table.model()),
                grammar::block_items(toks, self.scope(), self.current_token_index as int) == goal,
                goal == grammar::block_items(
                    toks,
                    old(self).scope(),
                    old(self).current_token_index as int,
                ),
            decreases toks.len() - self.current_token_index,
        {
            let ghost prior = self.symbols_table.model();
            match self.decl_var() {
                Verdict::Fail(err) => {
                    return Verdict::Fail(err);
                },
                Verdict::Match => {
                    proof {
                        lemma_prefix_chain(before, prior, self.symbols_table.model());
                    }
                },
                Verdict::NoMatch => match self.stm() {
                    Verdict::Fail(err) => {
                        return Verdict::Fail(err);
                    },
                    Verdict::Match => {},
                    Verdict::NoMatch => {
                        return Verdict::Match;
                    },
                },
            }
        }
    }

    /// `stm_compound` at the cursor.
    #[verifier::rlimit(40)]
    pub fn stm_compound(&mut self) -> (r: Verdict)
        requires
            old(self).wf(),
        ensures
            Self::step(
                *old(self),
                *final(self),
                r,
                grammar::stm_compound(
                    old(self).tokens@,
                    old(self).scope(),
                    old(self).current_token_index as int,
                ),
            ),
            r == Verdict::Match ==> final(self).symbols_table.model() == old(
                self,
            ).symbols_table.model(),
        decreases old(self).tokens@.len() - old(self).current_token_index, 13int,
    {
        let start = self.current_token_index;
        if self.kind(start) != TokenType::LACC {
            return Verdict::NoMatch;
        }
        let saved_len = self.symbols_table.len();
        let saved_struct = self.crt_struct;
        self.current_token_index = start + 1;
        self.crt_depth = self.crt_depth + 1;
        self.crt_struct = None;
        match self.block_items() {
            Verdict::Fail(err) => Verdict::Fail(err),
            Verdict::NoMatch => {
                self.current_token_index = start;
                self.crt_depth = self.crt_depth - 1;
                self.crt_struct = saved_struct;
                Verdict::NoMatch
            },
            Verdict::Match => {
                let behind = self.current_token_index;
                self.crt_depth = self.crt_depth - 1;
                self.crt_struct = saved_struct;
                self.symbols_table.truncate(saved_len);
                if self.kind(behind) == TokenType::RACC {
                    self.current_token_index = behind + 1;
                    Verdict::Match
                } else {
                    self.current_token_index = start;
                    Verdict::NoMatch
                }
            },
        }
    }
}

} // verus!
