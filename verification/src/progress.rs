//! Every production that matches consumes at least one token and ends
//! inside the input. The grammar's definitions guard each position at which
//! they go on; by what is shown here no guard ever changes a result.

use vstd::prelude::*;
use crate::grammar::{
    array_decl, binary_tail, block_items, call_args, condition, decl_func, decl_var, decl_struct,
    declarations, declarator_type, declarators, expr_assign, expr_binary, expr_cast, expr_postfix,
    expr_primary, expr_unary, for_heading, func_arg, func_scope, kind_at, members, more_args,
    more_params, onward, optional_expr, params, params_of, postfix_tail, return_type, stm,
    stm_compound, struct_scope, type_base, type_spec, unit, within, Parsed, Scope,
};
use crate::symbols::{Attr, SymbolView, Type};
use crate::token::{Token, TokenType};

verus! {

/// Whether `r`, if it is a match, ends behind `pos` and inside the input.
pub open spec fn consumes<A>(r: Parsed<A>, pos: int, len: nat) -> bool {
    r matches Parsed::Match { next, .. } ==> pos < next <= len
}

/// Whether `r`, if it is a match, ends at `pos` or behind it, and inside
/// the input.
pub open spec fn goes_on<A>(r: Parsed<A>, pos: int, len: nat) -> bool {
    r matches Parsed::Match { next, .. } ==> pos <= next <= len
}

/// A result that consumes passes its guard unchanged.
pub proof fn lemma_guards<A>(r: Parsed<A>, pos: int, len: nat)
    ensures
        consumes(r, pos, len) ==> within(r, pos, len) == r,
        goes_on(r, pos, len) ==> onward(r, pos, len) == r,
{
}

/// A match of `type_base` consumes.
pub proof fn lemma_type_base(toks: Seq<Token>, table: Seq<SymbolView>, pos: int)
    ensures
        consumes(type_base(toks, table, pos), pos, toks.len()),
{
}

/// A match of `expr_primary` consumes.
pub proof fn lemma_primary(toks: Seq<Token>, table: Seq<SymbolView>, pos: int)
    ensures
        consumes(expr_primary(toks, table, pos), pos, toks.len()),
    decreases toks.len() - pos, 0int,
{
    match kind_at(toks, pos) {
        TokenType::ID => {
            if kind_at(toks, pos + 1) == TokenType::LPAR {
                let i = crate::symbols::last_index_of(table, crate::grammar::text_at(toks, pos));
                if i is Some {
                    lemma_call_args(toks, table, pos + 2, params_of(table[i->0]));
                }
            }
        },
        TokenType::LPAR => {
            lemma_assign(toks, table, pos + 1);
        },
        _ => {},
    }
}

/// A match of the arguments of a call, with the `)` behind them, consumes.
pub proof fn lemma_call_args(
    toks: Seq<Token>,
    table: Seq<SymbolView>,
    pos: int,
    params: Seq<SymbolView>,
)
    ensures
        consumes(call_args(toks, table, pos, params), pos, toks.len()),
    decreases toks.len() - pos, 11int,
{
    match within(expr_assign(toks, table, pos), pos, toks.len()) {
        Parsed::Match { next, out } => {
            lemma_more_args(toks, table, next, params, 0, out.ty);
        },
        _ => {},
    }
}

/// A match of the rest of an argument list consumes.
pub proof fn lemma_more_args(
    toks: Seq<Token>,
    table: Seq<SymbolView>,
    pos: int,
    params: Seq<SymbolView>,
    k: int,
    arg: Type,
)
    ensures
        consumes(more_args(toks, table, pos, params, k, arg), pos, toks.len()),
    decreases toks.len() - pos, 11int,
{
    if kind_at(toks, pos) == TokenType::COMMA {
        match within(expr_assign(toks, table, pos + 1), pos + 1, toks.len()) {
            Parsed::Match { next, out } => {
                lemma_more_args(toks, table, next, params, k + 1, out.ty);
            },
            _ => {},
        }
    }
}

/// A match of `expr_postfix` consumes.
pub proof fn lemma_postfix(toks: Seq<Token>, table: Seq<SymbolView>, pos: int)
    ensures
        consumes(expr_postfix(toks, table, pos), pos, toks.len()),
    decreases toks.len() - pos, 1int,
{
    lemma_primary(toks, table, pos);
    match within(expr_primary(toks, table, pos), pos, toks.len()) {
        Parsed::Match { next, out } => {
            lemma_postfix_tail(toks, table, next, out);
        },
        _ => {},
    }
}

/// A run of `[index]` and `.member` does not go back.
pub proof fn lemma_postfix_tail(toks: Seq<Token>, table: Seq<SymbolView>, pos: int, base: Attr)
    requires
        pos <= toks.len(),
    ensures
        goes_on(postfix_tail(toks, table, pos, base), pos, toks.len()),
    decreases toks.len() - pos, 0int,
{
    match kind_at(toks, pos) {
        TokenType::LBRACKET => {
            match within(expr_assign(toks, table, pos + 1), pos + 1, toks.len()) {
                Parsed::Match { next, out } => {
                    match crate::rules::index_result(base.ty, out.ty) {
                        Ok(t) => {
                            if kind_at(toks, next) == TokenType::RBRACKET {
                                lemma_postfix_tail(
                                    toks,
                                    table,
                                    next + 1,
                                    crate::grammar::lvalue(t),
                                );
                            }
                        },
                        Err(_) => {},
                    }
                },
                _ => {},
            }
        },
        TokenType::DOT => {
            if kind_at(toks, pos + 1) == TokenType::ID {
                match crate::grammar::member_result(
                    table,
                    base.ty,
                    crate::grammar::text_at(toks, pos + 1),
                ) {
                    Ok(t) => {
                        lemma_postfix_tail(toks, table, pos + 2, crate::grammar::lvalue(t));
                    },
                    Err(_) => {},
                }
            }
        },
        _ => {},
    }
}

/// A match of `expr_unary` consumes.
pub proof fn lemma_unary(toks: Seq<Token>, table: Seq<SymbolView>, pos: int)
    ensures
        consumes(expr_unary(toks, table, pos), pos, toks.len()),
    decreases toks.len() - pos, 2int,
{
    let op = kind_at(toks, pos);
    if op == TokenType::SUB || op == TokenType::NOT {
    } else {
        lemma_postfix(toks, table, pos);
    }
}

/// A match of `expr_cast` consumes.
pub proof fn lemma_cast(toks: Seq<Token>, table: Seq<SymbolView>, pos: int)
    ensures
        consumes(expr_cast(toks, table, pos), pos, toks.len()),
    decreases toks.len() - pos, 3int,
{
    lemma_unary(toks, table, pos);
}

/// A match of one level of binary operators consumes.
pub proof fn lemma_binary(toks: Seq<Token>, table: Seq<SymbolView>, level: nat, pos: int)
    ensures
        consumes(expr_binary(toks, table, level, pos), pos, toks.len()),
    decreases toks.len() - pos, 4 + level,
{
    let first = if level == 0 {
        expr_cast(toks, table, pos)
    } else {
        expr_binary(toks, table, (level - 1) as nat, pos)
    };
    match within(first, pos, toks.len()) {
        Parsed::Match { next, out } => {
            lemma_binary_tail(toks, table, level, next, out);
        },
        _ => {},
    }
}

/// A run of binary operators of one level does not go back.
pub proof fn lemma_binary_tail(
    toks: Seq<Token>,
    table: Seq<SymbolView>,
    level: nat,
    pos: int,
    lhs: Attr,
)
    requires
        pos <= toks.len(),
    ensures
        goes_on(binary_tail(toks, table, level, pos, lhs), pos, toks.len()),
    decreases toks.len() - pos, 4 + level,
{
    let op = kind_at(toks, pos);
    if crate::grammar::op_level(op) == Some(level) {
        let operand = if level == 0 {
            expr_cast(toks, table, pos + 1)
        } else {
            expr_binary(toks, table, (level - 1) as nat, pos + 1)
        };
        match within(operand, pos + 1, toks.len()) {
            Parsed::Match { next, out } => {
                match crate::rules::binary_result(op, lhs.ty, out.ty) {
                    Ok(t) => {
                        lemma_binary_tail(toks, table, level, next, crate::grammar::rvalue(t));
                    },
                    Err(_) => {},
                }
            },
            _ => {},
        }
    }
}

/// A match of `expr_assign`, which is `expr`, consumes.
pub proof fn lemma_assign(toks: Seq<Token>, table: Seq<SymbolView>, pos: int)
    ensures
        consumes(expr_assign(toks, table, pos), pos, toks.len()),
    decreases toks.len() - pos, 10int,
{
    lemma_binary(toks, table, 5, pos);
}

/// A match of `array_decl` consumes.
pub proof fn lemma_array_decl(toks: Seq<Token>, table: Seq<SymbolView>, pos: int)
    ensures
        consumes(array_decl(toks, table, pos), pos, toks.len()),
{
}

/// A declarator's type ends at its start or behind it.
pub proof fn lemma_declarator_type(
    toks: Seq<Token>,
    table: Seq<SymbolView>,
    pos: int,
    base: Type,
)
    requires
        pos <= toks.len(),
    ensures
        goes_on(declarator_type(toks, table, pos, base), pos, toks.len()),
{
}

/// A match of `type_spec` consumes.
pub proof fn lemma_type_spec(toks: Seq<Token>, table: Seq<SymbolView>, pos: int)
    ensures
        consumes(type_spec(toks, table, pos), pos, toks.len()),
{
}

/// A match of the declarators of a declaration, with the `;` behind them,
/// consumes.
pub proof fn lemma_declarators(toks: Seq<Token>, sc: Scope, pos: int, base: Type)
    ensures
        consumes(declarators(toks, sc, pos, base), pos, toks.len()),
    decreases toks.len() - pos,
{
    if kind_at(toks, pos) == TokenType::ID {
        match onward(declarator_type(toks, sc.table, pos + 1, base), pos + 1, toks.len()) {
            Parsed::Match { next, out } => {
                match crate::grammar::add_var(sc, crate::grammar::text_at(toks, pos), out) {
                    Ok(table) => {
                        if kind_at(toks, next) == TokenType::COMMA {
                            lemma_declarators(toks, Scope { table, ..sc }, next + 1, base);
                        }
                    },
                    Err(_) => {},
                }
            },
            _ => {},
        }
    }
}

/// A match of `decl_var` consumes.
pub proof fn lemma_decl_var(toks: Seq<Token>, sc: Scope, pos: int)
    ensures
        consumes(decl_var(toks, sc, pos), pos, toks.len()),
{
    match within(type_base(toks, sc.table, pos), pos, toks.len()) {
        Parsed::Match { next, out } => {
            lemma_declarators(toks, sc, next, out);
        },
        _ => {},
    }
}

/// The members of a struct do not go back.
pub proof fn lemma_members(toks: Seq<Token>, sc: Scope, pos: int)
    requires
        pos <= toks.len(),
    ensures
        goes_on(members(toks, sc, pos), pos, toks.len()),
    decreases toks.len() - pos,
{
    match within(decl_var(toks, sc, pos), pos, toks.len()) {
        Parsed::Match { next, out } => {
            lemma_members(toks, Scope { table: out, ..sc }, next);
        },
        _ => {},
    }
}

/// A match of `decl_struct` consumes.
pub proof fn lemma_decl_struct(toks: Seq<Token>, sc: Scope, pos: int)
    ensures
        consumes(decl_struct(toks, sc, pos), pos, toks.len()),
{
    if kind_at(toks, pos) == TokenType::STRUCT && kind_at(toks, pos + 1) == TokenType::ID
        && kind_at(toks, pos + 2) == TokenType::LACC {
        lemma_members(
            toks,
            struct_scope(sc, crate::grammar::text_at(toks, pos + 1)),
            pos + 3,
        );
    }
}

/// A match of `func_arg` consumes.
pub proof fn lemma_func_arg(toks: Seq<Token>, sc: Scope, pos: int)
    ensures
        consumes(func_arg(toks, sc, pos), pos, toks.len()),
{
}

/// A match of the rest of a parameter list consumes.
pub proof fn lemma_more_params(toks: Seq<Token>, sc: Scope, pos: int)
    ensures
        consumes(more_params(toks, sc, pos), pos, toks.len()),
    decreases toks.len() - pos,
{
    if kind_at(toks, pos) == TokenType::COMMA {
        match within(func_arg(toks, sc, pos + 1), pos + 1, toks.len()) {
            Parsed::Match { next, out } => {
                lemma_more_params(toks, Scope { table: out, ..sc }, next);
            },
            _ => {},
        }
    }
}

/// A match of a parameter list, with the `)` behind it, consumes.
pub proof fn lemma_params(toks: Seq<Token>, sc: Scope, pos: int)
    ensures
        consumes(params(toks, sc, pos), pos, toks.len()),
{
    match within(func_arg(toks, sc, pos), pos, toks.len()) {
        Parsed::Match { next, out } => {
            lemma_more_params(toks, Scope { table: out, ..sc }, next);
        },
        _ => {},
    }
}

/// A match of a function's return type consumes.
pub proof fn lemma_return_type(toks: Seq<Token>, table: Seq<SymbolView>, pos: int)
    ensures
        consumes(return_type(toks, table, pos), pos, toks.len()),
{
}

/// An optional expression does not go back.
pub proof fn lemma_optional_expr(toks: Seq<Token>, table: Seq<SymbolView>, pos: int)
    requires
        pos <= toks.len(),
    ensures
        goes_on(optional_expr(toks, table, pos), pos, toks.len()),
{
}

/// A match of the condition of `if` and `while` consumes.
pub proof fn lemma_condition(toks: Seq<Token>, table: Seq<SymbolView>, pos: int)
    ensures
        consumes(condition(toks, table, pos), pos, toks.len()),
{
}

/// A match of the heading of a `for` consumes.
pub proof fn lemma_for_heading(toks: Seq<Token>, table: Seq<SymbolView>, pos: int)
    ensures
        consumes(for_heading(toks, table, pos), pos, toks.len()),
{
}

/// A match of `stm` consumes.
pub proof fn lemma_stm(toks: Seq<Token>, sc: Scope, pos: int)
    ensures
        consumes(stm(toks, sc, pos), pos, toks.len()),
    decreases toks.len() - pos, 14int,
{
    match kind_at(toks, pos) {
        TokenType::LACC => {
            lemma_stm_compound(toks, sc, pos);
        },
        TokenType::RETURN => {
            lemma_optional_expr(toks, sc.table, pos + 1);
        },
        TokenType::IF => {},
        TokenType::WHILE => {},
        TokenType::FOR => {},
        TokenType::BREAK => {},
        _ => {
            if pos <= toks.len() {
                lemma_optional_expr(toks, sc.table, pos);
            }
        },
    }
}

/// The contents of a block do not go back.
pub proof fn lemma_block_items(toks: Seq<Token>, sc: Scope, pos: int)
    requires
        pos <= toks.len(),
    ensures
        goes_on(block_items(toks, sc, pos), pos, toks.len()),
    decreases toks.len() - pos, 15int,
{
    match within(decl_var(toks, sc, pos), pos, toks.len()) {
        Parsed::Match { next, out } => {
            lemma_block_items(toks, Scope { table: out, ..sc }, next);
        },
        Parsed::NoMatch => {
            match within(stm(toks, sc, pos), pos, toks.len()) {
                Parsed::Match { next, out } => {
                    lemma_block_items(toks, Scope { table: out, ..sc }, next);
                },
                _ => {},
            }
        },
        _ => {},
    }
}

/// A match of `stm_compound` consumes.
pub proof fn lemma_stm_compound(toks: Seq<Token>, sc: Scope, pos: int)
    ensures
        consumes(stm_compound(toks, sc, pos), pos, toks.len()),
    decreases toks.len() - pos, 13int,
{
    if kind_at(toks, pos) == TokenType::LACC {
        lemma_block_items(
            toks,
            Scope { depth: sc.depth + 1, crt_struct: None, ..sc },
            pos + 1,
        );
    }
}

/// A match of `decl_func` consumes.
pub proof fn lemma_decl_func(toks: Seq<Token>, sc: Scope, pos: int)
    ensures
        consumes(decl_func(toks, sc, pos), pos, toks.len()),
{
    lemma_return_type(toks, sc.table, pos);
    match return_type(toks, sc.table, pos) {
        Parsed::Match { next, out } => {
            if kind_at(toks, next) == TokenType::ID && kind_at(toks, next + 1) == TokenType::LPAR {
                let heading = func_scope(sc, crate::grammar::text_at(toks, next), out);
                lemma_params(toks, heading, next + 2);
                match params(toks, heading, next + 2) {
                    Parsed::Match { next, out } => {
                        lemma_stm_compound(
                            toks,
                            Scope { depth: heading.depth - 1, table: out, ..heading },
                            next,
                        );
                    },
                    _ => {},
                }
            }
        },
        _ => {},
    }
}

/// The declarations of a unit do not go back.
pub proof fn lemma_declarations(toks: Seq<Token>, sc: Scope, pos: int)
    requires
        pos <= toks.len(),
    ensures
        goes_on(declarations(toks, sc, pos), pos, toks.len()),
    decreases toks.len() - pos,
{
    match within(decl_struct(toks, sc, pos), pos, toks.len()) {
        Parsed::Match { next, out } => {
            lemma_declarations(toks, Scope { table: out, ..sc }, next);
        },
        Parsed::NoMatch => {
            match within(decl_func(toks, sc, pos), pos, toks.len()) {
                Parsed::Match { next, out } => {
                    lemma_declarations(toks, Scope { table: out, ..sc }, next);
                },
                Parsed::NoMatch => {
                    match within(decl_var(toks, sc, pos), pos, toks.len()) {
                        Parsed::Match { next, out } => {
                            lemma_declarations(toks, Scope { table: out, ..sc }, next);
                        },
                        _ => {},
                    }
                },
                _ => {},
            }
        },
        _ => {},
    }
}

/// A unit that matches ends behind the end-of-input token, inside the
/// input: every token up to that one has been consumed.
pub proof fn lemma_unit(toks: Seq<Token>, sc: Scope, pos: int)
    requires
        pos <= toks.len(),
    ensures
        consumes(unit(toks, sc, pos), pos, toks.len()),
        unit(toks, sc, pos) matches Parsed::Match { next, .. } ==> kind_at(toks, next - 1)
            == TokenType::EOF,
{
    lemma_declarations(toks, crate::grammar::unit_scope(sc), pos);
}

} // verus!
