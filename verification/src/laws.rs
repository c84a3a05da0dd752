//! What holds of the rules and of the table for all inputs.

use vstd::prelude::*;
use crate::grammar;
use crate::grammar::{
    add_var, block_items, call_args, condition, decl_var, declarator_type, declarators,
    declared_at, expr_assign, for_heading, kind_at, more_args, onward, stm, stm_compound,
    type_base, within, Parsed, Scope,
};
use crate::rules::{cast_result, castable, is_numeric, CastError, SemanticError};
use crate::symbols::{
    is_prefix, last_index_of, lemma_prefix_chain, SymbolView, Type, TypeBase,
};
use crate::token::{Token, TokenType};

verus! {

/// Scalars of the bases `int`, `char` and `double` convert to one another.
pub proof fn law_numbers_convert(dst: Type, src: Type)
    requires
        is_numeric(dst.type_base),
        is_numeric(src.type_base),
        !dst.is_array(),
        !src.is_array(),
    ensures
        castable(dst, src),
{
}

/// A struct converts to a type exactly when that type is the struct with the
/// same declaring symbol, and both are arrays or both are not: two structs
/// with equal members but different declarations do not convert.
pub proof fn law_structs_are_nominal(dst: Type, src: Type)
    requires
        src.type_base == TypeBase::Struct,
    ensures
        castable(dst, src) <==> (dst.type_base == TypeBase::Struct && dst.is_array()
            == src.is_array() && src.s is Some && dst.s == src.s),
        dst.type_base == TypeBase::Struct && dst.is_array() == src.is_array() && dst.s != src.s
            ==> cast_result(dst, src) == Err::<(), CastError>(CastError::IncompatibleStruct),
{
}

/// An array converts to no scalar, and a scalar to no array.
pub proof fn law_arrays_stay_arrays(dst: Type, src: Type)
    requires
        dst.is_array() != src.is_array(),
    ensures
        cast_result(dst, src) == Err::<(), CastError>(CastError::ArrayMismatch),
{
}

/// `void` converts to nothing and nothing converts to `void`.
pub proof fn law_void_never_converts(dst: Type, src: Type)
    requires
        dst.type_base == TypeBase::Void || src.type_base == TypeBase::Void,
    ensures
        !castable(dst, src),
{
}

/// Whether one type converts to another does not depend on the direction.
pub proof fn law_cast_symmetric(a: Type, b: Type)
    ensures
        castable(a, b) == castable(b, a),
{
}

/// Lookup finds the symbol that was appended last.
pub proof fn law_last_declaration_wins(table: Seq<SymbolView>, symbol: SymbolView)
    ensures
        last_index_of(table.push(symbol), symbol.name) == Some(table.len() as int),
{
    assert(table.push(symbol).last() == symbol);
}

/// Appending a symbol of another name changes no lookup of `name`.
pub proof fn law_other_names_untouched(table: Seq<SymbolView>, symbol: SymbolView, name: Seq<char>)
    requires
        symbol.name != name,
    ensures
        last_index_of(table.push(symbol), name) == last_index_of(table, name),
{
    assert(table.push(symbol).last() == symbol);
    assert(table.push(symbol).drop_last() =~= table);
}

/// Shadowing: a symbol declared in a block hides an outer symbol of the same
/// name while the block lasts; once the table is cut back to what it held
/// before the block, however much the block declared, the name resolves as
/// it did before.
pub proof fn law_shadowing(
    outer: Seq<SymbolView>,
    local: SymbolView,
    rest: Seq<SymbolView>,
)
    ensures
        last_index_of(outer.push(local), local.name) == Some(outer.len() as int),
        last_index_of((outer.push(local) + rest).take(outer.len() as int), local.name)
            == last_index_of(outer, local.name),
{
    law_last_declaration_wins(outer, local);
    assert((outer.push(local) + rest).take(outer.len() as int) =~= outer);
}

/// Redefinition: a name that has just been declared cannot be declared again
/// in the same scope at the same depth.
pub proof fn law_redefinition_refused(sc: Scope, name: Seq<char>, first: Type, second: Type)
    requires
        add_var(sc, name, first) is Ok,
    ensures
        add_var(Scope { table: add_var(sc, name, first)->Ok_0, ..sc }, name, second) == Err::<
            Seq<SymbolView>,
            SemanticError,
        >(SemanticError::Redefinition),
{
    let table = add_var(sc, name, first)->Ok_0;
    match sc.crt_struct {
        Some(si) => {
            let members = sc.table[si as int].members->0;
            let symbol = grammar::var_symbol(name, None, first, sc.depth);
            law_last_declaration_wins(members, symbol);
            assert(table[si as int].members->0 == members.push(symbol));
        },
        None => {
            let symbol = table.last();
            assert(table == sc.table.push(symbol));
            law_last_declaration_wins(sc.table, symbol);
        },
    }
}

/// Inside a function a name may be declared again at another depth: the new
/// declaration hides the old one.
pub proof fn law_shadowing_accepted(sc: Scope, name: Seq<char>, ty: Type)
    requires
        sc.crt_struct is None,
        sc.crt_func is Some,
        !declared_at(sc.table, name, sc.depth),
    ensures
        add_var(sc, name, ty) is Ok,
        last_index_of(add_var(sc, name, ty)->Ok_0, name) == Some(sc.table.len() as int),
{
    law_last_declaration_wins(
        sc.table,
        grammar::var_symbol(name, Some(crate::symbols::Memory::Local), ty, sc.depth),
    );
}

/// The types of the arguments that stand at `pos`, in order.
pub open spec fn argument_types(toks: Seq<Token>, table: Seq<SymbolView>, pos: int) -> Seq<Type>
    decreases toks.len() - pos, 1int,
{
    match within(expr_assign(toks, table, pos), pos, toks.len()) {
        Parsed::Match { next, out } => seq![out.ty] + more_types(toks, table, next),
        _ => Seq::empty(),
    }
}

/// The types of the arguments that follow a `,` at `pos`, in order.
pub open spec fn more_types(toks: Seq<Token>, table: Seq<SymbolView>, pos: int) -> Seq<Type>
    decreases toks.len() - pos, 0int,
{
    if kind_at(toks, pos) == TokenType::COMMA {
        argument_types(toks, table, pos + 1)
    } else {
        Seq::empty()
    }
}

/// Whether a value of type `arg` converts to the type of `param`.
pub open spec fn fits(param: SymbolView, arg: Type) -> bool {
    match param.ty {
        Some(t) => castable(t, arg),
        None => true,
    }
}

/// Whether `args` are as many as `params` and each converts to the
/// parameter at its position.
pub open spec fn arguments_fit(params: Seq<SymbolView>, args: Seq<Type>) -> bool {
    &&& args.len() == params.len()
    &&& forall|k: int| 0 <= k < args.len() ==> fits(params[k], #[trigger] args[k])
}

/// The rest of an argument list matches only where the arguments from
/// number `k` on are as many as the parameters from `k` on, and each
/// converts to its parameter.
proof fn lemma_more_args(
    toks: Seq<Token>,
    table: Seq<SymbolView>,
    pos: int,
    params: Seq<SymbolView>,
    k: int,
    arg: Type,
)
    requires
        0 <= k,
        more_args(toks, table, pos, params, k, arg) is Match,
    ensures
        k + 1 + more_types(toks, table, pos).len() == params.len(),
        fits(params[k], arg),
        forall|j: int|
            0 <= j < more_types(toks, table, pos).len() ==> fits(
                params[k + 1 + j],
                #[trigger] more_types(toks, table, pos)[j],
            ),
    decreases toks.len() - pos,
{
    if kind_at(toks, pos) == TokenType::COMMA {
        match within(expr_assign(toks, table, pos + 1), pos + 1, toks.len()) {
            Parsed::Match { next, out } => {
                lemma_more_args(toks, table, next, params, k + 1, out.ty);
                let tail = more_types(toks, table, next);
                let here = more_types(toks, table, pos);
                assert(here =~= seq![out.ty] + tail);
                assert forall|j: int| 0 <= j < here.len() implies fits(
                    params[k + 1 + j],
                    #[trigger] here[j],
                ) by {
                    if j > 0 {
                        assert(here[j] == tail[j - 1]);
                    }
                }
            },
            _ => {},
        }
    }
}

/// Calls: an argument list matches only where the call gives exactly as
/// many arguments as the function has parameters, and each argument
/// converts to the type of its parameter.
pub proof fn law_call_arguments(
    toks: Seq<Token>,
    table: Seq<SymbolView>,
    pos: int,
    params: Seq<SymbolView>,
)
    requires
        call_args(toks, table, pos, params) is Match,
    ensures
        arguments_fit(params, argument_types(toks, table, pos)),
{
    match within(expr_assign(toks, table, pos), pos, toks.len()) {
        Parsed::Match { next, out } => {
            lemma_more_args(toks, table, next, params, 0, out.ty);
            let tail = more_types(toks, table, next);
            let all = argument_types(toks, table, pos);
            assert(all =~= seq![out.ty] + tail);
            assert forall|k: int| 0 <= k < all.len() implies fits(params[k], #[trigger] all[k]) by {
                if k > 0 {
                    assert(all[k] == tail[k - 1]);
                }
            }
        },
        _ => {},
    }
}

/// Outside a struct, the declarators of a declaration only append to the
/// table.
pub proof fn law_declarators_append(toks: Seq<Token>, sc: Scope, pos: int, base: Type)
    requires
        sc.crt_struct is None,
    ensures
        declarators(toks, sc, pos, base) matches Parsed::Match { out, .. } ==> is_prefix(
            sc.table,
            out,
        ),
    decreases toks.len() - pos,
{
    if kind_at(toks, pos) == TokenType::ID {
        match onward(declarator_type(toks, sc.table, pos + 1, base), pos + 1, toks.len()) {
            Parsed::Match { next, out } => {
                match add_var(sc, grammar::text_at(toks, pos), out) {
                    Ok(table) => {
                        assert(table.take(sc.table.len() as int) =~= sc.table);
                        if kind_at(toks, next) == TokenType::COMMA {
                            let rest = Scope { table, ..sc };
                            law_declarators_append(toks, rest, next + 1, base);
                            match declarators(toks, rest, next + 1, base) {
                                Parsed::Match { out, .. } => {
                                    lemma_prefix_chain(sc.table, table, out);
                                },
                                _ => {},
                            }
                        }
                    },
                    Err(_) => {},
                }
            },
            _ => {},
        }
    }
}

/// Outside a struct, a declaration of variables only appends to the table.
pub proof fn law_declaration_appends(toks: Seq<Token>, sc: Scope, pos: int)
    requires
        sc.crt_struct is None,
    ensures
        decl_var(toks, sc, pos) matches Parsed::Match { out, .. } ==> is_prefix(sc.table, out),
{
    match within(type_base(toks, sc.table, pos), pos, toks.len()) {
        Parsed::Match { next, out } => {
            law_declarators_append(toks, sc, next, out);
        },
        _ => {},
    }
}

/// Scopes: a statement that matches leaves the table as it found it. What a
/// block declares is gone when the block ends, so that a name that the
/// block hid resolves as before.
pub proof fn law_statement_keeps_table(toks: Seq<Token>, sc: Scope, pos: int)
    ensures
        stm(toks, sc, pos) matches Parsed::Match { out, .. } ==> out == sc.table,
    decreases toks.len() - pos, 14int,
{
    match kind_at(toks, pos) {
        TokenType::LACC => {
            law_block_keeps_table(toks, sc, pos);
        },
        TokenType::IF => {
            match within(condition(toks, sc.table, pos + 1), pos + 1, toks.len()) {
                Parsed::Match { next, out } => {
                    law_statement_keeps_table(toks, sc, next);
                    match within(stm(toks, sc, next), next, toks.len()) {
                        Parsed::Match { next, out } => {
                            if kind_at(toks, next) == TokenType::ELSE {
                                law_statement_keeps_table(
                                    toks,
                                    Scope { table: out, ..sc },
                                    next + 1,
                                );
                            }
                        },
                        _ => {},
                    }
                },
                _ => {},
            }
        },
        TokenType::WHILE => {
            match within(condition(toks, sc.table, pos + 1), pos + 1, toks.len()) {
                Parsed::Match { next, out } => {
                    law_statement_keeps_table(toks, sc, next);
                },
                _ => {},
            }
        },
        TokenType::FOR => {
            match within(for_heading(toks, sc.table, pos + 1), pos + 1, toks.len()) {
                Parsed::Match { next, out } => {
                    law_statement_keeps_table(toks, sc, next);
                },
                _ => {},
            }
        },
        _ => {},
    }
}

/// The contents of a block outside a struct only append to the table.
pub proof fn law_block_items_append(toks: Seq<Token>, sc: Scope, pos: int)
    requires
        sc.crt_struct is None,
    ensures
        block_items(toks, sc, pos) matches Parsed::Match { out, .. } ==> is_prefix(sc.table, out),
    decreases toks.len() - pos, 15int,
{
    assert(sc.table.take(sc.table.len() as int) =~= sc.table);
    match within(decl_var(toks, sc, pos), pos, toks.len()) {
        Parsed::Match { next, out } => {
            law_declaration_appends(toks, sc, pos);
            let rest = Scope { table: out, ..sc };
            law_block_items_append(toks, rest, next);
            match block_items(toks, rest, next) {
                Parsed::Match { out: end, .. } => {
                    lemma_prefix_chain(sc.table, out, end);
                },
                _ => {},
            }
        },
        Parsed::NoMatch => {
            match within(stm(toks, sc, pos), pos, toks.len()) {
                Parsed::Match { next, out } => {
                    law_statement_keeps_table(toks, sc, pos);
                    law_block_items_append(toks, Scope { table: out, ..sc }, next);
                },
                _ => {},
            }
        },
        _ => {},
    }
}

/// A compound statement that matches leaves the table as it found it.
pub proof fn law_block_keeps_table(toks: Seq<Token>, sc: Scope, pos: int)
    ensures
        stm_compound(toks, sc, pos) matches Parsed::Match { out, .. } ==> out == sc.table,
    decreases toks.len() - pos, 13int,
{
    if kind_at(toks, pos) == TokenType::LACC {
        law_block_items_append(
            toks,
            Scope { depth: sc.depth + 1, crt_struct: None, ..sc },
            pos + 1,
        );
    }
}

} // verus!
