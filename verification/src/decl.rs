//! The declarations of a unit: structs, functions, and the unit itself.

use vstd::prelude::*;
use vstd::string::*;
use crate::grammar;
use crate::grammar::{kind_at, text_at, Parsed, Scope};
use crate::parser::{kept, Outcome, Parser, Verdict};
use crate::rules::{SemanticError, Violation};
use crate::symbols::{
    has_args, is_prefix, with_arg, Class, Memory, Symbol, SymbolTable, SymbolView, Type, TypeBase,
};
use crate::token::TokenType;

verus! {

/// Whether the last token of `toks`, and no other, is the end of input.
pub open spec fn eof_terminated(toks: Seq<crate::token::Token>) -> bool {
    &&& toks.len() > 0
    &&& toks.last().kind == TokenType::EOF
    &&& forall|i: int| 0 <= i < toks.len() - 1 ==> toks[i].kind != TokenType::EOF
}

/// What two declarations in a row keep, the two together keep.
pub proof fn lemma_kept_chain(
    a: Seq<SymbolView>,
    b: Seq<SymbolView>,
    c: Seq<SymbolView>,
    crt_struct: Option<usize>,
)
    requires
        kept(a, b, crt_struct),
        kept(b, c, crt_struct),
    ensures
        kept(a, c, crt_struct),
{
    if crt_struct is None {
        assert(c.take(a.len() as int) =~= b.take(a.len() as int));
    }
}

/// What the reading of a parameter list leaves of the table `before`: every
/// symbol but the function at `crt_func`, and nothing goes.
pub open spec fn heading_kept(
    before: Seq<SymbolView>,
    after: Seq<SymbolView>,
    crt_func: Option<usize>,
) -> bool {
    &&& before.len() <= after.len()
    &&& forall|j: int|
        0 <= j < before.len() && crt_func != Some(j as usize) ==> after[j] == before[j]
}

impl Parser {
    /// The body of a struct from the cursor, which is behind `{`: the
    /// members, then `}` and `;`. Without a match the cursor and the members
    /// are where the last member left them.
    #[verifier::rlimit(40)]
    fn struct_rest(&mut self) -> (r: Verdict)
        requires
            old(self).wf(),
        ensures
            final(self).tokens == old(self).tokens,
            final(self).wf(),
            match grammar::struct_rest(
                old(self).tokens@,
                old(self).scope(),
                old(self).current_token_index as int,
            ) {
                Parsed::Match { next, out } => {
                    &&& r == Verdict::Match
                    &&& final(self).current_token_index == next
                    &&& old(self).current_token_index < next
                    &&& final(self).symbols_table.model() == out
                },
                Parsed::NoMatch => r == Verdict::NoMatch,
                Parsed::Fail { err } => r == Verdict::Fail(err),
            },
            !(r is Fail) ==> {
                &&& final(self).crt_depth == old(self).crt_depth
                &&& final(self).crt_struct == old(self).crt_struct
                &&& final(self).crt_func == old(self).crt_func
                &&& kept(
                    old(self).symbols_table.model(),
                    final(self).symbols_table.model(),
                    old(self).crt_struct,
                )
            },
    {
        let ghost toks = self.tokens@;
        let ghost before = self.symbols_table.model();
        let ghost goal = grammar::struct_rest(toks, self.scope(), self.current_token_index as int);
        proof {
            assert(before.take(before.len() as int) =~= before);
        }
        loop
            invariant
                self.tokens == old(self).tokens,
                toks == self.tokens@,
                self.wf(),
                old(self).current_token_index <= self.current_token_index,
                self.crt_depth == old(self).crt_depth,
                self.crt_struct == old(self).crt_struct,
                self.crt_func == old(self).crt_func,
                before == old(self).symbols_table.model(),
                kept(before, self.symbols_table.model(), self.crt_struct),
                grammar::struct_rest(toks, self.scope(), self.current_token_index as int) == goal,
                goal == grammar::struct_rest(
                    toks,
                    old(self).scope(),
                    old(self).current_token_index as int,
                ),
            decreases toks.len() - self.current_token_index,
        {
            let ghost prior = self.symbols_table.model();
            match self.decl_var() {
                Verdict::Fail(err) => {
                    return Verdict::Fail(err);
                },
                Verdict::Match => {
                    proof {
                        lemma_kept_chain(
                            before,
                            prior,
                            self.symbols_table.model(),
                            self.crt_struct,
                        );
                    }
                },
                Verdict::NoMatch => {
                    let behind = self.current_token_index;
                    if self.kind(behind) == TokenType::RACC && self.kind(behind + 1)
                        == TokenType::SEMICOLON {
                        self.current_token_index = behind + 2;
                        return Verdict::Match;
                    } else {
                        return Verdict::NoMatch;
                    }
                },
            }
        }
    }

    /// `decl_struct` at the cursor.
    #[verifier::rlimit(40)]
    pub fn decl_struct(&mut self) -> (r: Verdict)
        requires
            old(self).wf(),
        ensures
            Self::step(
                *old(self),
                *final(self),
                r,
                grammar::decl_struct(
                    old(self).tokens@,
                    old(self).scope(),
                    old(self).current_token_index as int,
                ),
            ),
            r == Verdict::Match ==> is_prefix(
                old(self).symbols_table.model(),
                final(self).symbols_table.model(),
            ),
    {
        let start = self.current_token_index;
        if !(self.kind(start) == TokenType::STRUCT && self.kind(start + 1) == TokenType::ID
            && self.kind(start + 2) == TokenType::LACC) {
            return Verdict::NoMatch;
        }
        let name = self.tokens[start + 1].literal.clone();
        if self.symbols_table.find_last_index(name.as_str()).is_some() {
            return Verdict::Fail(Violation { error: SemanticError::Redefinition, at: start + 1 });
        }
        let saved_len = self.symbols_table.len();
        let saved_struct = self.crt_struct;
        let ghost before = self.symbols_table.model();
        self.symbols_table.push(
            Symbol::new(
                name,
                Class::Struct,
                None,
                None,
                self.crt_depth,
                None,
                Some(SymbolTable::new()),
            ),
        );
        self.crt_struct = Some(saved_len);
        self.current_token_index = start + 3;
        let ghost inner = self.symbols_table.model();
        proof {
            assert(inner.take(saved_len as int) =~= before);
            assert(self.scope() == grammar::struct_scope(old(self).scope(), name@));
        }
        match self.struct_rest() {
            Verdict::Fail(err) => Verdict::Fail(err),
            Verdict::NoMatch => {
                proof {
                    assert(self.symbols_table.model().take(saved_len as int) =~= inner.take(
                        saved_len as int,
                    ));
                }
                self.symbols_table.truncate(saved_len);
                self.crt_struct = saved_struct;
                self.current_token_index = start;
                Verdict::NoMatch
            },
            Verdict::Match => {
                proof {
                    assert(self.symbols_table.model().take(saved_len as int) =~= inner.take(
                        saved_len as int,
                    ));
                }
                self.crt_struct = saved_struct;
                Verdict::Match
            },
        }
    }

    /// Declares the parameter named by the token at `pos`, with type `ty`.
    pub fn add_param(&mut self, pos: usize, ty: Type) -> (r: Result<(), SemanticError>)
        requires
            pos < old(self).tokens@.len(),
        ensures
            final(self).tokens == old(self).tokens,
            final(self).current_token_index == old(self).current_token_index,
            final(self).crt_depth == old(self).crt_depth,
            final(self).crt_struct == old(self).crt_struct,
            final(self).crt_func == old(self).crt_func,
            match grammar::add_param(old(self).scope(), text_at(old(self).tokens@, pos as int), ty) {
                Ok(table) => r is Ok && final(self).symbols_table.model() == table,
                Err(err) => r == Err::<(), SemanticError>(err) && final(self).symbols_table.model()
                    == old(self).symbols_table.model(),
            },
    {
        let name = self.tokens[pos].literal.clone();
        let depth = self.crt_depth;
        match self.symbols_table.find_last_index(name.as_str()) {
            Some(i) => {
                if self.symbols_table.depth_of(i) == depth {
                    return Err(SemanticError::Redefinition);
                }
            },
            None => {},
        }
        let listed = match self.crt_func {
            Some(fi) => self.symbols_table.takes_args(fi),
            None => false,
        };
        let copy = name.clone();
        self.symbols_table.push(
            Symbol::new(name, Class::Var, Some(Memory::Arg), Some(ty), depth, None, None),
        );
        if listed {
            match self.crt_func {
                Some(fi) => {
                    self.symbols_table.add_arg(
                        fi,
                        Symbol::new(copy, Class::Var, Some(Memory::Arg), Some(ty), depth, None, None),
                    );
                },
                None => {},
            }
        }
        Ok(())
    }

    /// `func_arg` at the cursor.
    pub fn func_arg(&mut self) -> (r: Verdict)
        requires
            old(self).wf(),
        ensures
            Self::step(
                *old(self),
                *final(self),
                r,
                grammar::func_arg(
                    old(self).tokens@,
                    old(self).scope(),
                    old(self).current_token_index as int,
                ),
            ),
            r == Verdict::Match ==> heading_kept(
                old(self).symbols_table.model(),
                final(self).symbols_table.model(),
                old(self).crt_func,
            ),
    {
        let start = self.current_token_index;
        match self.type_base(start) {
            Outcome::Fail(err) => Verdict::Fail(err),
            Outcome::NoMatch => Verdict::NoMatch,
            Outcome::Match(next, base) => {
                if self.kind(next) != TokenType::ID {
                    return Verdict::NoMatch;
                }
                match self.declarator_type(next + 1, base) {
                    Outcome::Fail(err) => Verdict::Fail(err),
                    Outcome::NoMatch => Verdict::NoMatch,
                    Outcome::Match(behind, ty) => match self.add_param(next, ty) {
                        Err(err) => Verdict::Fail(Violation { error: err, at: start }),
                        Ok(_) => {
                            self.current_token_index = behind;
                            Verdict::Match
                        },
                    },
                }
            },
        }
    }

    /// The parameters of a function and the `)` behind them, from the
    /// cursor. Without a match the cursor and the table are where the last
    /// parameter left them.
    #[verifier::rlimit(40)]
    fn params(&mut self) -> (r: Verdict)
        requires
            old(self).wf(),
        ensures
            final(self).tokens == old(self).tokens,
            final(self).wf(),
            match grammar::params(
                old(self).tokens@,
                old(self).scope(),
                old(self).current_token_index as int,
            ) {
                Parsed::Match { next, out } => {
                    &&& r == Verdict::Match
                    &&& final(self).current_token_index == next
                    &&& old(self).current_token_index < next
                    &&& final(self).scope() == (Scope { table: out, ..old(self).scope() })
                },
                Parsed::NoMatch => r == Verdict::NoMatch,
                Parsed::Fail { err } => r == Verdict::Fail(err),
            },
            !(r is Fail) ==> {
                &&& final(self).crt_depth == old(self).crt_depth
                &&& final(self).crt_struct == old(self).crt_struct
                &&& final(self).crt_func == old(self).crt_func
                &&& old(self).current_token_index <= final(self).current_token_index
                &&& heading_kept(
                    old(self).symbols_table.model(),
                    final(self).symbols_table.model(),
                    old(self).crt_func,
                )
            },
    {
        let ghost toks = self.tokens@;
        let ghost before = self.symbols_table.model();
        let ghost goal = grammar::params(toks, self.scope(), self.current_token_index as int);
        match self.func_arg() {
            Verdict::Fail(err) => {
                return Verdict::Fail(err);
            },
            Verdict::NoMatch => {
                let here = self.current_token_index;
                if self.kind(here) == TokenType::RPAR {
                    self.current_token_index = here + 1;
                    return Verdict::Match;
                } else {
                    return Verdict::NoMatch;
                }
            },
            Verdict::Match => {},
        }
        loop
            invariant
                self.tokens == old(self).tokens,
                toks == self.tokens@,
                self.wf(),
                self.crt_depth == old(self).crt_depth,
                self.crt_struct == old(self).crt_struct,
                self.crt_func == old(self).crt_func,
                old(self).current_token_index < self.current_token_index,
                before == old(self).symbols_table.model(),
                heading_kept(before, self.symbols_table.model(), self.crt_func),
                grammar::more_params(toks, self.scope(), self.current_token_index as int) == goal,
                goal == grammar::params(
                    toks,
                    old(self).scope(),
                    old(self).current_token_index as int,
                ),
            decreases toks.len() - self.current_token_index,
        {
            let here = self.current_token_index;
            if self.kind(here) == TokenType::COMMA {
                self.current_token_index = here + 1;
                match self.func_arg() {
                    Verdict::Fail(err) => {
                        return Verdict::Fail(err);
                    },
                    Verdict::NoMatch => {
                        return Verdict::NoMatch;
                    },
                    Verdict::Match => {},
                }
            } else if self.kind(here) == TokenType::RPAR {
                self.current_token_index = here + 1;
                return Verdict::Match;
            } else {
                return Verdict::NoMatch;
            }
        }
    }

    /// The type that a function returns, at `pos`.
    pub fn return_type(&self, pos: usize) -> (r: Outcome<Type>)
        ensures
            crate::parser::typed(r) == grammar::return_type(
                self.tokens@,
                self.symbols_table.model(),
                pos as int,
            ),
            r matches Outcome::Match(next, _) ==> pos < next <= self.tokens@.len(),
    {
        match self.type_base(pos) {
            Outcome::Fail(err) => Outcome::Fail(err),
            Outcome::NoMatch => {
                if self.kind(pos) == TokenType::VOID {
                    Outcome::Match(pos + 1, Type::new(TypeBase::Void, -1))
                } else {
                    Outcome::NoMatch
                }
            },
            Outcome::Match(next, base) => {
                if self.kind(next) == TokenType::MUL {
                    Outcome::Match(
                        next + 1,
                        Type { type_base: base.type_base, s: base.s, n_elements: 0 },
                    )
                } else {
                    Outcome::Match(next, base)
                }
            },
        }
    }

    /// A function from the cursor, which is behind `(`: the parameters and
    /// `)`, then the body. Without a match the cursor and the table are
    /// where the reading stopped.
    #[verifier::rlimit(40)]
    fn func_rest(&mut self) -> (r: Verdict)
        requires
            old(self).wf(),
            old(self).crt_depth > 0,
            old(self).crt_struct is None,
            old(self).crt_func matches Some(fi) && fi + 1 == old(self).symbols_table.model().len(),
        ensures
            final(self).tokens == old(self).tokens,
            final(self).wf(),
            match grammar::func_rest(
                old(self).tokens@,
                old(self).scope(),
                old(self).current_token_index as int,
            ) {
                Parsed::Match { next, out } => {
                    &&& r == Verdict::Match
                    &&& final(self).current_token_index == next
                    &&& old(self).current_token_index < next
                    &&& final(self).symbols_table.model() == out
                },
                Parsed::NoMatch => r == Verdict::NoMatch,
                Parsed::Fail { err } => r == Verdict::Fail(err),
            },
            !(r is Fail) ==> heading_kept(
                old(self).symbols_table.model(),
                final(self).symbols_table.model(),
                old(self).crt_func,
            ),
    {
        let depth = self.crt_depth;
        let keep = self.symbols_table.len();
        match self.params() {
            Verdict::Fail(err) => {
                return Verdict::Fail(err);
            },
            Verdict::NoMatch => {
                return Verdict::NoMatch;
            },
            Verdict::Match => {},
        }
        self.crt_depth = depth - 1;
        match self.stm_compound() {
            Verdict::Fail(err) => Verdict::Fail(err),
            Verdict::NoMatch => Verdict::NoMatch,
            Verdict::Match => {
                self.symbols_table.truncate(keep);
                Verdict::Match
            },
        }
    }

    /// A function that returns `ret` and whose name stands at `at_name`,
    /// behind the cursor.
    #[verifier::rlimit(40)]
    fn func_named(&mut self, at_name: usize, ret: Type) -> (r: Verdict)
        requires
            old(self).wf(),
            old(self).current_token_index <= at_name,
        ensures
            final(self).tokens == old(self).tokens,
            final(self).wf(),
            match grammar::func_named(old(self).tokens@, old(self).scope(), at_name as int, ret) {
                Parsed::Match { next, out } => {
                    &&& r == Verdict::Match
                    &&& final(self).current_token_index == next
                    &&& at_name < next
                    &&& final(self).scope() == (Scope { table: out, ..old(self).scope() })
                },
                Parsed::NoMatch => {
                    &&& r == Verdict::NoMatch
                    &&& final(self).current_token_index == old(self).current_token_index
                    &&& final(self).scope() == old(self).scope()
                },
                Parsed::Fail { err } => r == Verdict::Fail(err),
            },
            r == Verdict::Match ==> is_prefix(
                old(self).symbols_table.model(),
                final(self).symbols_table.model(),
            ),
    {
        let start = self.current_token_index;
        if !(self.kind(at_name) == TokenType::ID && self.kind(at_name + 1) == TokenType::LPAR) {
            return Verdict::NoMatch;
        }
        let name = self.tokens[at_name].literal.clone();
        if self.symbols_table.find_last_index(name.as_str()).is_some() {
            return Verdict::Fail(Violation { error: SemanticError::Redefinition, at: at_name });
        }
        let saved_len = self.symbols_table.len();
        let saved_struct = self.crt_struct;
        let saved_func = self.crt_func;
        let depth = self.crt_depth;
        let ghost before = self.symbols_table.model();
        self.symbols_table.push(
            Symbol::new(
                name,
                Class::Func,
                None,
                Some(ret),
                depth,
                Some(SymbolTable::new()),
                None,
            ),
        );
        self.crt_func = Some(saved_len);
        self.crt_struct = None;
        self.crt_depth = depth + 1;
        self.current_token_index = at_name + 2;
        let ghost inner = self.symbols_table.model();
        proof {
            assert(inner.take(saved_len as int) =~= before);
            assert(self.scope() == grammar::func_scope(old(self).scope(), name@, ret));
        }
        let r = self.func_rest();
        proof {
            if !(r is Fail) {
                assert(self.symbols_table.model().take(saved_len as int) =~= inner.take(
                    saved_len as int,
                ));
            }
        }
        match r {
            Verdict::Fail(err) => Verdict::Fail(err),
            Verdict::NoMatch => {
                self.symbols_table.truncate(saved_len);
                self.crt_depth = depth;
                self.crt_struct = saved_struct;
                self.crt_func = saved_func;
                self.current_token_index = start;
                Verdict::NoMatch
            },
            Verdict::Match => {
                self.crt_depth = depth;
                self.crt_struct = saved_struct;
                self.crt_func = saved_func;
                Verdict::Match
            },
        }
    }

    /// `decl_func` at the cursor.
    pub fn decl_func(&mut self) -> (r: Verdict)
        requires
            old(self).wf(),
        ensures
            Self::step(
                *old(self),
                *final(self),
                r,
                grammar::decl_func(
                    old(self).tokens@,
                    old(self).scope(),
                    old(self).current_token_index as int,
                ),
            ),
            r == Verdict::Match ==> is_prefix(
                old(self).symbols_table.model(),
                final(self).symbols_table.model(),
            ),
    {
        match self.return_type(self.current_token_index) {
            Outcome::Fail(err) => Verdict::Fail(err),
            Outcome::NoMatch => Verdict::NoMatch,
            Outcome::Match(next, ret) => self.func_named(next, ret),
        }
    }

    /// Registers the built-in function `name`, which returns `func_type` and
    /// has no parameter yet; gives its position in the table.
    pub fn add_ext_func(&mut self, name: &str, func_type: Type) -> (fi: usize)
        ensures
            final(self).tokens == old(self).tokens,
            final(self).current_token_index == old(self).current_token_index,
            final(self).crt_depth == old(self).crt_depth,
            final(self).crt_struct == old(self).crt_struct,
            final(self).crt_func == old(self).crt_func,
            fi == old(self).symbols_table.model().len(),
            final(self).symbols_table.model() == old(self).symbols_table.model().push(
                grammar::builtin(name@, func_type, Seq::empty(), old(self).crt_depth as int),
            ),
    {
        let fi = self.symbols_table.len();
        self.symbols_table.push(
            Symbol::new(
                String::from_str(name),
                Class::ExtFunc,
                None,
                Some(func_type),
                self.crt_depth,
                Some(SymbolTable::new()),
                None,
            ),
        );
        fi
    }

    /// Gives the built-in function at `fi` one more parameter.
    pub fn add_func_arg(&mut self, fi: usize, name: &str, arg_type: Type)
        requires
            has_args(old(self).symbols_table.model(), fi as int),
        ensures
            final(self).tokens == old(self).tokens,
            final(self).current_token_index == old(self).current_token_index,
            final(self).crt_depth == old(self).crt_depth,
            final(self).crt_struct == old(self).crt_struct,
            final(self).crt_func == old(self).crt_func,
            final(self).symbols_table.model() == with_arg(
                old(self).symbols_table.model(),
                fi as int,
                grammar::builtin_arg(name@, arg_type, old(self).crt_depth as int),
            ),
    {
        self.symbols_table.add_arg(
            fi,
            Symbol::new(
                String::from_str(name),
                Class::Var,
                None,
                Some(arg_type),
                self.crt_depth,
                None,
                None,
            ),
        );
    }

    /// Registers a built-in function with one parameter.
    fn add_ext_func_of(&mut self, name: &str, func_type: Type, arg: &str, arg_type: Type)
        ensures
            final(self).tokens == old(self).tokens,
            final(self).current_token_index == old(self).current_token_index,
            final(self).crt_depth == old(self).crt_depth,
            final(self).crt_struct == old(self).crt_struct,
            final(self).crt_func == old(self).crt_func,
            final(self).symbols_table.model() == old(self).symbols_table.model().push(
                grammar::builtin(
                    name@,
                    func_type,
                    seq![grammar::builtin_arg(arg@, arg_type, old(self).crt_depth as int)],
                    old(self).crt_depth as int,
                ),
            ),
    {
        let fi = self.add_ext_func(name, func_type);
        self.add_func_arg(fi, arg, arg_type);
        assert(self.symbols_table.model() =~= old(self).symbols_table.model().push(
            grammar::builtin(
                name@,
                func_type,
                seq![grammar::builtin_arg(arg@, arg_type, old(self).crt_depth as int)],
                old(self).crt_depth as int,
            ),
        )) by {
            assert(Seq::<SymbolView>::empty().push(
                grammar::builtin_arg(arg@, arg_type, old(self).crt_depth as int),
            ) =~= seq![grammar::builtin_arg(arg@, arg_type, old(self).crt_depth as int)]);
        }
    }

    /// Registers the built-in functions.
    pub fn add_ext_functions(&mut self)
        ensures
            final(self).tokens == old(self).tokens,
            final(self).current_token_index == old(self).current_token_index,
            final(self).crt_depth == old(self).crt_depth,
            final(self).crt_struct == old(self).crt_struct,
            final(self).crt_func == old(self).crt_func,
            final(self).symbols_table.model() == old(self).symbols_table.model()
                + grammar::builtins(old(self).crt_depth as int),
    {
        let void = Type::new(TypeBase::Void, -1);
        self.add_ext_func_of("put_s", void, "s", Type::new(TypeBase::Char, 0));
        self.add_ext_func_of("get_s", void, "s", Type::new(TypeBase::Char, 0));
        self.add_ext_func_of("put_i", void, "i", Type::new(TypeBase::Int, -1));
        self.add_ext_func("get_i", Type::new(TypeBase::Int, -1));
        self.add_ext_func_of("put_d", void, "d", Type::new(TypeBase::Double, -1));
        self.add_ext_func("get_d", Type::new(TypeBase::Double, -1));
        self.add_ext_func_of("put_c", void, "c", Type::new(TypeBase::Char, -1));
        self.add_ext_func("get_c", Type::new(TypeBase::Char, -1));
        assert(self.symbols_table.model() =~= old(self).symbols_table.model() + grammar::builtins(
            old(self).crt_depth as int,
        ));
    }

    /// The declarations of a unit at the cursor: structs, functions and
    /// variables, as many as match.
    #[verifier::rlimit(40)]
    pub fn declarations(&mut self) -> (r: Verdict)
        requires
            old(self).wf(),
        ensures
            Self::advance(
                *old(self),
                *final(self),
                r,
                grammar::declarations(
                    old(self).tokens@,
                    old(self).scope(),
                    old(self).current_token_index as int,
                ),
                0,
            ),
            !(r == Verdict::NoMatch),
    {
        let ghost toks = self.tokens@;
        let ghost goal = grammar::declarations(
            toks,
            self.scope(),
            self.current_token_index as int,
        );
        loop
            invariant
                self.tokens == old(self).tokens,
                toks == self.tokens@,
                self.wf(),
                self.crt_depth == old(self).crt_depth,
                self.crt_struct == old(self).crt_struct,
                self.crt_func == old(self).crt_func,
                old(self).current_token_index <= self.current_token_index,
                grammar::declarations(toks, self.scope(), self.current_token_index as int) == goal,
                goal == grammar::declarations(
                    toks,
                    old(self).scope(),
                    old(self).current_token_index as int,
                ),
            decreases toks.len() - self.current_token_index,
        {
            match self.decl_struct() {
                Verdict::Fail(err) => {
                    return Verdict::Fail(err);
                },
                Verdict::Match => {},
                Verdict::NoMatch => match self.decl_func() {
                    Verdict::Fail(err) => {
                        return Verdict::Fail(err);
                    },
                    Verdict::Match => {},
                    Verdict::NoMatch => match self.decl_var() {
                        Verdict::Fail(err) => {
                            return Verdict::Fail(err);
                        },
                        Verdict::Match => {},
                        Verdict::NoMatch => {
                            return Verdict::Match;
                        },
                    },
                },
            }
        }
    }

    /// `unit` at the cursor, with the reason where the input is refused: the
    /// built-in functions are registered, the declarations are read, and
    /// the end of the input is consumed. Where the input is refused for its
    /// form, the cursor stands at the first token that starts no
    /// declaration, and the table holds what was declared before it.
    pub fn parse_unit(&mut self) -> (r: Verdict)
        requires
            old(self).wf(),
        ensures
            final(self).tokens == old(self).tokens,
            final(self).wf(),
            match grammar::unit(
                old(self).tokens@,
                old(self).scope(),
                old(self).current_token_index as int,
            ) {
                Parsed::Match { next, out } => {
                    &&& r == Verdict::Match
                    &&& final(self).current_token_index == next
                    &&& old(self).current_token_index < next
                    &&& kind_at(old(self).tokens@, next - 1) == TokenType::EOF
                    &&& final(self).scope() == (Scope { table: out, ..old(self).scope() })
                },
                Parsed::NoMatch => {
                    &&& r == Verdict::NoMatch
                    &&& kind_at(old(self).tokens@, final(self).current_token_index as int)
                        != TokenType::EOF
                    &&& grammar::declarations(
                        old(self).tokens@,
                        grammar::unit_scope(old(self).scope()),
                        old(self).current_token_index as int,
                    ) == (Parsed::Match {
                        next: final(self).current_token_index as int,
                        out: final(self).symbols_table.model(),
                    })
                },
                Parsed::Fail { err } => r == Verdict::Fail(err),
            },
    {
        self.add_ext_functions();
        match self.declarations() {
            Verdict::Fail(err) => Verdict::Fail(err),
            Verdict::NoMatch => Verdict::NoMatch,
            Verdict::Match => {
                let here = self.current_token_index;
                if self.kind(here) == TokenType::EOF {
                    self.current_token_index = here + 1;
                    Verdict::Match
                } else {
                    Verdict::NoMatch
                }
            },
        }
    }

    /// `unit` at the cursor: whether the input is a unit of the language.
    /// Where it is, the cursor stands behind the end-of-input token, so that
    /// every token has been consumed where that token is the last.
    pub fn unit(&mut self) -> (ok: bool)
        requires
            old(self).wf(),
        ensures
            final(self).tokens == old(self).tokens,
            final(self).wf(),
            ok == (grammar::unit(
                old(self).tokens@,
                old(self).scope(),
                old(self).current_token_index as int,
            ) is Match),
            ok ==> {
                let g = grammar::unit(
                    old(self).tokens@,
                    old(self).scope(),
                    old(self).current_token_index as int,
                );
                &&& final(self).current_token_index == g->next
                &&& final(self).scope() == (Scope { table: g->out, ..old(self).scope() })
                &&& final(self).current_token_index > 0
                &&& kind_at(final(self).tokens@, final(self).current_token_index - 1)
                    == TokenType::EOF
                &&& eof_terminated(final(self).tokens@) ==> final(self).current_token_index
                    == final(self).tokens@.len()
            },
    {
        match self.parse_unit() {
            Verdict::Match => true,
            _ => false,
        }
    }
}

} // verus!
