//! The language, as mathematics: for every production a function from the
//! tokens, the symbol table and a position to what the production yields
//! there. The parser's contracts say that it computes these functions.

use vstd::prelude::*;
use crate::rules::{
    assign_result, binary_result, conversion_result, for_condition_result, index_result,
    operand_result, return_result, unary_result, SemanticError, Violation,
};
use crate::symbols::{
    has_args, has_members, last_index_of, with_arg, with_member, Attr, Class, CtValView, Memory,
    SymbolView, Type, TypeBase,
};
use crate::token::{Token, TokenType};

verus! {

/// What a production yields at a position: a match that ends before `next`
/// and gives `out`, no match, or a violation of the language's rules with
/// the token at which it was found.
pub ghost enum Parsed<A> {
    Match { next: int, out: A },
    NoMatch,
    Fail { err: Violation },
}

/// The violation `error`, found at the token at `at`.
pub open spec fn fail<A>(error: SemanticError, at: int) -> Parsed<A> {
    Parsed::Fail { err: Violation { error, at: at as usize } }
}

/// What surrounds a declaration or a statement: the nesting depth, the
/// struct or the function whose body is being read, each by its position in
/// the table, and the table itself.
pub ghost struct Scope {
    pub depth: int,
    pub crt_struct: Option<usize>,
    pub crt_func: Option<usize>,
    pub table: Seq<SymbolView>,
}

/// `r`, if it is a match that consumed at least one token and stays inside
/// the input; every production's match does.
pub open spec fn within<A>(r: Parsed<A>, pos: int, len: nat) -> Parsed<A> {
    match r {
        Parsed::Match { next, out } => if pos < next <= len {
            r
        } else {
            Parsed::NoMatch
        },
        _ => r,
    }
}

/// `r`, if it is a match that stays inside the input and does not go back.
pub open spec fn onward<A>(r: Parsed<A>, pos: int, len: nat) -> Parsed<A> {
    match r {
        Parsed::Match { next, out } => if pos <= next <= len {
            r
        } else {
            Parsed::NoMatch
        },
        _ => r,
    }
}

/// The kind of the token at `pos`; `ILLEGAL` outside the input.
pub open spec fn kind_at(toks: Seq<Token>, pos: int) -> TokenType {
    if 0 <= pos < toks.len() {
        toks[pos].kind
    } else {
        TokenType::ILLEGAL
    }
}

/// The text of the token at `pos`.
pub open spec fn text_at(toks: Seq<Token>, pos: int) -> Seq<char> {
    if 0 <= pos < toks.len() {
        toks[pos].literal@
    } else {
        Seq::empty()
    }
}

/// A scalar type of the given base.
pub open spec fn scalar(base: TypeBase) -> Type {
    Type { type_base: base, s: None, n_elements: -1i32 }
}

/// `base` as an array of unknown size.
pub open spec fn array_of(base: Type) -> Type {
    Type { n_elements: 0i32, ..base }
}

/// The attributes of a computed value of type `ty`.
pub open spec fn rvalue(ty: Type) -> Attr {
    Attr { ty, is_lval: false, is_ctval: false, ct_val: None }
}

/// The attributes of a storage location of type `ty`.
pub open spec fn lvalue(ty: Type) -> Attr {
    Attr { ty, is_lval: true, is_ctval: false, ct_val: None }
}

/// The attributes of a literal of type `ty` and value `value`.
pub open spec fn constant(ty: Type, value: Option<CtValView>) -> Attr {
    Attr { ty, is_lval: false, is_ctval: true, ct_val: value }
}

/// The symbol that a variable declaration introduces.
pub open spec fn var_symbol(name: Seq<char>, memory: Option<Memory>, ty: Type, depth: int)
    -> SymbolView {
    SymbolView {
        name,
        class: Class::Var,
        memory,
        ty: Some(ty),
        depth,
        args: None,
        members: None,
    }
}

/// The symbol that a struct declaration introduces, before its members.
pub open spec fn struct_symbol(name: Seq<char>, depth: int) -> SymbolView {
    SymbolView {
        name,
        class: Class::Struct,
        memory: None,
        ty: None,
        depth,
        args: None,
        members: Some(Seq::empty()),
    }
}

/// The symbol that a function introduces, before its parameters.
pub open spec fn func_symbol(name: Seq<char>, class: Class, ret: Type, depth: int) -> SymbolView {
    SymbolView {
        name,
        class,
        memory: None,
        ty: Some(ret),
        depth,
        args: Some(Seq::empty()),
        members: None,
    }
}

/// `type_base`: `int`, `double`, `char`, or `struct` and the name of a
/// declared struct.
pub open spec fn type_base(toks: Seq<Token>, table: Seq<SymbolView>, pos: int) -> Parsed<Type> {
    match kind_at(toks, pos) {
        TokenType::INT => Parsed::Match { next: pos + 1, out: scalar(TypeBase::Int) },
        TokenType::DOUBLE => Parsed::Match { next: pos + 1, out: scalar(TypeBase::Double) },
        TokenType::CHAR => Parsed::Match { next: pos + 1, out: scalar(TypeBase::Char) },
        TokenType::STRUCT => if kind_at(toks, pos + 1) == TokenType::ID {
            match last_index_of(table, text_at(toks, pos + 1)) {
                None => fail(SemanticError::UndefinedSymbol, pos + 1),
                Some(i) => if table[i].class == Class::Struct {
                    Parsed::Match {
                        next: pos + 2,
                        out: Type {
                            type_base: TypeBase::Struct,
                            s: Some(i as usize),
                            n_elements: -1i32,
                        },
                    }
                } else {
                    fail(SemanticError::NotAStruct, pos + 1)
                },
            }
        } else {
            Parsed::NoMatch
        },
        _ => Parsed::NoMatch,
    }
}

/// The type of member `name` of a value of type `base`.
pub open spec fn member_result(table: Seq<SymbolView>, base: Type, name: Seq<char>) -> Result<
    Type,
    SemanticError,
> {
    if base.type_base != TypeBase::Struct {
        Err(SemanticError::NotAStruct)
    } else {
        match base.s {
            None => Err(SemanticError::NotAStruct),
            Some(i) => if i < table.len() && table[i as int].members is Some {
                let members = table[i as int].members->0;
                match last_index_of(members, name) {
                    None => Err(SemanticError::UndefinedMember),
                    Some(j) => match members[j].ty {
                        Some(t) => Ok(t),
                        None => Err(SemanticError::NotAValue),
                    },
                }
            } else {
                Err(SemanticError::NotAStruct)
            },
        }
    }
}

/// The value of a digit: 0 to 9, and 10 to 15 for `a` to `f` in either
/// case; 16 for any other character.
pub open spec fn digit_value(c: char) -> int {
    if '0' <= c <= '9' {
        c as int - '0' as int
    } else if 'a' <= c <= 'f' {
        c as int - 'a' as int + 10
    } else if 'A' <= c <= 'F' {
        c as int - 'A' as int + 10
    } else {
        16
    }
}

/// The number that a run of digits spells in `base`; none if a character is
/// no digit of that base. The empty run spells 0.
pub open spec fn digits_value(s: Seq<char>, base: int) -> Option<int>
    decreases s.len(),
{
    if s.len() == 0 {
        Some(0)
    } else {
        match digits_value(s.drop_last(), base) {
            Some(v) => if digit_value(s.last()) < base {
                Some(v * base + digit_value(s.last()))
            } else {
                None
            },
            None => None,
        }
    }
}

/// The base of an integer literal: 16 behind `0x`, 8 behind another `0`
/// that is not the whole literal, else 10.
pub open spec fn literal_base(s: Seq<char>) -> int {
    if s.len() >= 2 && s[0] == '0' && s[1] == 'x' {
        16
    } else if s.len() >= 2 && s[0] == '0' {
        8
    } else {
        10
    }
}

/// The digits of an integer literal: what stands behind `0x`, or the whole.
pub open spec fn literal_digits(s: Seq<char>) -> Seq<char> {
    if literal_base(s) == 16 {
        s.skip(2)
    } else {
        s
    }
}

/// The value of an integer literal: that of its digits in its base, where
/// there is at least one digit, all are digits of the base, and the number
/// fits.
pub open spec fn int_literal_value(s: Seq<char>) -> Option<i64> {
    if literal_digits(s).len() == 0 {
        None
    } else {
        match digits_value(literal_digits(s), literal_base(s)) {
            Some(v) => if v <= i64::MAX {
                Some(v as i64)
            } else {
                None
            },
            None => None,
        }
    }
}

/// The value of a character literal: its one character, if it has just one.
pub open spec fn char_literal_value(s: Seq<char>) -> Option<char> {
    if s.len() == 1 {
        Some(s[0])
    } else {
        None
    }
}

/// The level of a binary operator: 0 for `*` and `/`, then `+` and `-`, the
/// four relations, `==` and `!=`, `&&`, and 5 for `||`.
pub open spec fn op_level(kind: TokenType) -> Option<nat> {
    match kind {
        TokenType::MUL => Some(0),
        TokenType::DIV => Some(0),
        TokenType::ADD => Some(1),
        TokenType::SUB => Some(1),
        TokenType::LESS => Some(2),
        TokenType::LESSEQ => Some(2),
        TokenType::GREATER => Some(2),
        TokenType::GREATEREQ => Some(2),
        TokenType::EQUAL => Some(3),
        TokenType::NOTEQ => Some(3),
        TokenType::AND => Some(4),
        TokenType::OR => Some(5),
        _ => None,
    }
}

/// What closes an argument list after `given` arguments: `)`, and no
/// parameter left without an argument.
pub open spec fn close_call(toks: Seq<Token>, pos: int, params: Seq<SymbolView>, given: int)
    -> Parsed<()> {
    if kind_at(toks, pos) == TokenType::RPAR {
        if given < params.len() {
            fail(SemanticError::TooFewArguments, pos)
        } else {
            Parsed::Match { next: pos + 1, out: () }
        }
    } else {
        Parsed::NoMatch
    }
}

/// What argument number `k` of type `arg` needs: a parameter of that number,
/// to whose type the argument converts.
pub open spec fn argument_result(params: Seq<SymbolView>, k: int, arg: Type) -> Result<
    (),
    SemanticError,
> {
    if k >= params.len() || k < 0 {
        Err(SemanticError::TooManyArguments)
    } else {
        match params[k].ty {
            Some(t) => conversion_result(t, arg),
            None => Ok(()),
        }
    }
}

/// The parameters of a function symbol, in order.
pub open spec fn params_of(sym: SymbolView) -> Seq<SymbolView> {
    match sym.args {
        Some(a) => a,
        None => Seq::empty(),
    }
}

/// `expr_primary`: a name, a call, a literal, or an expression in parentheses.
pub open spec fn expr_primary(toks: Seq<Token>, table: Seq<SymbolView>, pos: int) -> Parsed<Attr>
    decreases toks.len() - pos, 0int,
{
    match kind_at(toks, pos) {
        TokenType::ID => match last_index_of(table, text_at(toks, pos)) {
            None => fail(SemanticError::UndefinedSymbol, pos),
            Some(i) => {
                let sym = table[i];
                let callable = sym.class == Class::Func || sym.class == Class::ExtFunc;
                if kind_at(toks, pos + 1) == TokenType::LPAR {
                    if !callable {
                        fail(SemanticError::NotAFunction, pos)
                    } else {
                        match call_args(toks, table, pos + 2, params_of(sym)) {
                            Parsed::Match { next, out } => match sym.ty {
                                Some(t) => Parsed::Match { next, out: rvalue(t) },
                                None => fail(SemanticError::NotAValue, pos),
                            },
                            Parsed::NoMatch => Parsed::NoMatch,
                            Parsed::Fail { err } => Parsed::Fail { err },
                        }
                    }
                } else if callable {
                    fail(SemanticError::MissingCall, pos)
                } else {
                    match sym.ty {
                        Some(t) => Parsed::Match { next: pos + 1, out: lvalue(t) },
                        None => fail(SemanticError::NotAValue, pos),
                    }
                }
            },
        },
        TokenType::CT_INT => Parsed::Match {
            next: pos + 1,
            out: constant(
                scalar(TypeBase::Int),
                match int_literal_value(text_at(toks, pos)) {
                    Some(v) => Some(CtValView::Int(v)),
                    None => None,
                },
            ),
        },
        TokenType::CT_REAL => Parsed::Match {
            next: pos + 1,
            out: constant(
                scalar(TypeBase::Double),
                Some(CtValView::Double(text_at(toks, pos))),
            ),
        },
        TokenType::CT_CHAR => Parsed::Match {
            next: pos + 1,
            out: constant(
                scalar(TypeBase::Char),
                match char_literal_value(text_at(toks, pos)) {
                    Some(c) => Some(CtValView::Char(c)),
                    None => None,
                },
            ),
        },
        TokenType::CT_STRING => Parsed::Match {
            next: pos + 1,
            out: constant(
                array_of(scalar(TypeBase::Char)),
                Some(CtValView::Str(text_at(toks, pos))),
            ),
        },
        TokenType::LPAR => match within(expr_assign(toks, table, pos + 1), pos + 1, toks.len()) {
            Parsed::Match { next, out } => if kind_at(toks, next) == TokenType::RPAR {
                Parsed::Match { next: next + 1, out }
            } else {
                Parsed::NoMatch
            },
            Parsed::NoMatch => Parsed::NoMatch,
            Parsed::Fail { err } => Parsed::Fail { err },
        },
        _ => Parsed::NoMatch,
    }
}

/// The arguments of a call and the `)` behind them, from the token after `(`.
pub open spec fn call_args(
    toks: Seq<Token>,
    table: Seq<SymbolView>,
    pos: int,
    params: Seq<SymbolView>,
) -> Parsed<()>
    decreases toks.len() - pos, 11int,
{
    match within(expr_assign(toks, table, pos), pos, toks.len()) {
        Parsed::Match { next, out } => more_args(toks, table, next, params, 0, out.ty),
        Parsed::NoMatch => close_call(toks, pos, params, 0),
        Parsed::Fail { err } => Parsed::Fail { err },
    }
}

/// The rest of an argument list, argument number `k` of type `arg` having
/// been read up to `pos`.
pub open spec fn more_args(
    toks: Seq<Token>,
    table: Seq<SymbolView>,
    pos: int,
    params: Seq<SymbolView>,
    k: int,
    arg: Type,
) -> Parsed<()>
    decreases toks.len() - pos, 11int,
{
    match argument_result(params, k, arg) {
        Err(err) => fail(err, pos),
        Ok(_) => if kind_at(toks, pos) == TokenType::COMMA {
            match within(expr_assign(toks, table, pos + 1), pos + 1, toks.len()) {
                Parsed::Match { next, out } => more_args(toks, table, next, params, k + 1, out.ty),
                Parsed::NoMatch => Parsed::NoMatch,
                Parsed::Fail { err } => Parsed::Fail { err },
            }
        } else {
            close_call(toks, pos, params, k + 1)
        },
    }
}

/// `expr_postfix`: a primary expression and any run of `[index]` and `.member`.
pub open spec fn expr_postfix(toks: Seq<Token>, table: Seq<SymbolView>, pos: int) -> Parsed<Attr>
    decreases toks.len() - pos, 1int,
{
    match within(expr_primary(toks, table, pos), pos, toks.len()) {
        Parsed::Match { next, out } => postfix_tail(toks, table, next, out),
        Parsed::NoMatch => Parsed::NoMatch,
        Parsed::Fail { err } => Parsed::Fail { err },
    }
}

/// The run of `[index]` and `.member` behind a value `base` that ends at `pos`.
pub open spec fn postfix_tail(toks: Seq<Token>, table: Seq<SymbolView>, pos: int, base: Attr)
    -> Parsed<Attr>
    decreases toks.len() - pos, 0int,
{
    match kind_at(toks, pos) {
        TokenType::LBRACKET => match within(
            expr_assign(toks, table, pos + 1),
            pos + 1,
            toks.len(),
        ) {
            Parsed::Match { next, out } => match index_result(base.ty, out.ty) {
                Err(err) => fail(err, pos),
                Ok(t) => if kind_at(toks, next) == TokenType::RBRACKET {
                    postfix_tail(toks, table, next + 1, lvalue(t))
                } else {
                    Parsed::NoMatch
                },
            },
            Parsed::NoMatch => Parsed::NoMatch,
            Parsed::Fail { err } => Parsed::Fail { err },
        },
        TokenType::DOT => if kind_at(toks, pos + 1) == TokenType::ID {
            match member_result(table, base.ty, text_at(toks, pos + 1)) {
                Err(err) => fail(err, pos + 1),
                Ok(t) => postfix_tail(toks, table, pos + 2, lvalue(t)),
            }
        } else {
            Parsed::NoMatch
        },
        _ => Parsed::Match { next: pos, out: base },
    }
}

/// `expr_unary`: `-` or `!` before a unary expression, or a postfix expression.
pub open spec fn expr_unary(toks: Seq<Token>, table: Seq<SymbolView>, pos: int) -> Parsed<Attr>
    decreases toks.len() - pos, 2int,
{
    let op = kind_at(toks, pos);
    if op == TokenType::SUB || op == TokenType::NOT {
        match within(expr_unary(toks, table, pos + 1), pos + 1, toks.len()) {
            Parsed::Match { next, out } => match unary_result(op, out.ty) {
                Err(err) => fail(err, pos),
                Ok(t) => Parsed::Match { next, out: rvalue(t) },
            },
            Parsed::NoMatch => Parsed::NoMatch,
            Parsed::Fail { err } => Parsed::Fail { err },
        }
    } else {
        expr_postfix(toks, table, pos)
    }
}

/// `expr_cast`: a type in parentheses before a cast expression, or a unary
/// expression.
pub open spec fn expr_cast(toks: Seq<Token>, table: Seq<SymbolView>, pos: int) -> Parsed<Attr>
    decreases toks.len() - pos, 3int,
{
    if kind_at(toks, pos) == TokenType::LPAR {
        match within(type_spec(toks, table, pos + 1), pos + 1, toks.len()) {
            Parsed::Fail { err } => Parsed::Fail { err },
            Parsed::NoMatch => expr_unary(toks, table, pos),
            Parsed::Match { next, out } => if kind_at(toks, next) == TokenType::RPAR {
                let dst = out;
                match within(expr_cast(toks, table, next + 1), next + 1, toks.len()) {
                    Parsed::Match { next, out } => match conversion_result(dst, out.ty) {
                        Err(err) => fail(err, pos),
                        Ok(_) => Parsed::Match { next, out: rvalue(dst) },
                    },
                    Parsed::NoMatch => expr_unary(toks, table, pos),
                    Parsed::Fail { err } => Parsed::Fail { err },
                }
            } else {
                expr_unary(toks, table, pos)
            },
        }
    } else {
        expr_unary(toks, table, pos)
    }
}

/// One level of binary operators: an operand of the level below, and any
/// run of this level's operators, each with such an operand, taken from the
/// left. Level 0 is `*` and `/`, whose operands are cast expressions.
pub open spec fn expr_binary(toks: Seq<Token>, table: Seq<SymbolView>, level: nat, pos: int)
    -> Parsed<Attr>
    decreases toks.len() - pos, 4 + level,
{
    let first = if level == 0 {
        expr_cast(toks, table, pos)
    } else {
        expr_binary(toks, table, (level - 1) as nat, pos)
    };
    match within(first, pos, toks.len()) {
        Parsed::Match { next, out } => binary_tail(toks, table, level, next, out),
        Parsed::NoMatch => Parsed::NoMatch,
        Parsed::Fail { err } => Parsed::Fail { err },
    }
}

/// The run of operators of `level` behind a left operand `lhs` that ends
/// at `pos`.
pub open spec fn binary_tail(
    toks: Seq<Token>,
    table: Seq<SymbolView>,
    level: nat,
    pos: int,
    lhs: Attr,
) -> Parsed<Attr>
    decreases toks.len() - pos, 4 + level,
{
    let op = kind_at(toks, pos);
    if op_level(op) == Some(level) {
        let operand = if level == 0 {
            expr_cast(toks, table, pos + 1)
        } else {
            expr_binary(toks, table, (level - 1) as nat, pos + 1)
        };
        match within(operand, pos + 1, toks.len()) {
            Parsed::Match { next, out } => match binary_result(op, lhs.ty, out.ty) {
                Err(err) => fail(err, pos),
                Ok(t) => binary_tail(toks, table, level, next, rvalue(t)),
            },
            Parsed::NoMatch => Parsed::NoMatch,
            Parsed::Fail { err } => Parsed::Fail { err },
        }
    } else {
        Parsed::Match { next: pos, out: lhs }
    }
}

/// `expr_assign`, which is `expr`: a unary expression, `=` and an
/// assignment; or, where that does not match, a run of `||`.
pub open spec fn expr_assign(toks: Seq<Token>, table: Seq<SymbolView>, pos: int) -> Parsed<Attr>
    decreases toks.len() - pos, 10int,
{
    match within(expr_unary(toks, table, pos), pos, toks.len()) {
        Parsed::Fail { err } => Parsed::Fail { err },
        Parsed::NoMatch => expr_binary(toks, table, 5, pos),
        Parsed::Match { next, out } => if kind_at(toks, next) == TokenType::ASSIGN {
            let lhs = out;
            match within(expr_assign(toks, table, next + 1), next + 1, toks.len()) {
                Parsed::Match { next, out } => match assign_result(lhs.ty, lhs.is_lval, out.ty) {
                    Err(err) => fail(err, pos),
                    Ok(t) => Parsed::Match { next, out: rvalue(t) },
                },
                Parsed::NoMatch => expr_binary(toks, table, 5, pos),
                Parsed::Fail { err } => Parsed::Fail { err },
            }
        } else {
            expr_binary(toks, table, 5, pos)
        },
    }
}

/// `array_decl`: `[`, an expression or nothing, and `]`.
pub open spec fn array_decl(toks: Seq<Token>, table: Seq<SymbolView>, pos: int) -> Parsed<()>
    decreases toks.len() - pos, 0int,
{
    if kind_at(toks, pos) == TokenType::LBRACKET {
        match within(expr_assign(toks, table, pos + 1), pos + 1, toks.len()) {
            Parsed::Match { next, out } => if kind_at(toks, next) == TokenType::RBRACKET {
                Parsed::Match { next: next + 1, out: () }
            } else {
                Parsed::NoMatch
            },
            Parsed::NoMatch => if kind_at(toks, pos + 1) == TokenType::RBRACKET {
                Parsed::Match { next: pos + 2, out: () }
            } else {
                Parsed::NoMatch
            },
            Parsed::Fail { err } => Parsed::Fail { err },
        }
    } else {
        Parsed::NoMatch
    }
}

/// The type that a declarator gives to a name: `base`, or an array of it
/// where an `array_decl` follows at `pos`.
pub open spec fn declarator_type(toks: Seq<Token>, table: Seq<SymbolView>, pos: int, base: Type)
    -> Parsed<Type>
    decreases toks.len() - pos, 1int,
{
    match within(array_decl(toks, table, pos), pos, toks.len()) {
        Parsed::Match { next, out } => Parsed::Match { next, out: array_of(base) },
        Parsed::NoMatch => Parsed::Match { next: pos, out: base },
        Parsed::Fail { err } => Parsed::Fail { err },
    }
}

/// `type_spec`: a `type_base` and, optionally, an `array_decl`.
pub open spec fn type_spec(toks: Seq<Token>, table: Seq<SymbolView>, pos: int) -> Parsed<Type>
    decreases toks.len() - pos, 2int,
{
    match within(type_base(toks, table, pos), pos, toks.len()) {
        Parsed::Match { next, out } => declarator_type(toks, table, next, out),
        Parsed::NoMatch => Parsed::NoMatch,
        Parsed::Fail { err } => Parsed::Fail { err },
    }
}

/// Whether the most recent symbol called `name` was declared at `depth`.
pub open spec fn declared_at(table: Seq<SymbolView>, name: Seq<char>, depth: int) -> bool {
    match last_index_of(table, name) {
        Some(i) => table[i].depth == depth,
        None => false,
    }
}

/// The table after a variable `name` of type `ty` has been declared in `sc`.
/// Inside a struct it becomes a member, unless the struct has one of that
/// name. Inside a function it becomes a local, unless the name it would hide
/// was declared at the same depth. Elsewhere it becomes a global, unless the
/// name is taken.
pub open spec fn add_var(sc: Scope, name: Seq<char>, ty: Type) -> Result<
    Seq<SymbolView>,
    SemanticError,
> {
    match sc.crt_struct {
        Some(si) => if has_members(sc.table, si as int) {
            if last_index_of(sc.table[si as int].members->0, name) is Some {
                Err(SemanticError::Redefinition)
            } else {
                Ok(with_member(sc.table, si as int, var_symbol(name, None, ty, sc.depth)))
            }
        } else {
            Err(SemanticError::NotAStruct)
        },
        None => match sc.crt_func {
            Some(_) => if declared_at(sc.table, name, sc.depth) {
                Err(SemanticError::Redefinition)
            } else {
                Ok(sc.table.push(var_symbol(name, Some(Memory::Local), ty, sc.depth)))
            },
            None => if last_index_of(sc.table, name) is Some {
                Err(SemanticError::Redefinition)
            } else {
                Ok(sc.table.push(var_symbol(name, Some(Memory::Global), ty, sc.depth)))
            },
        },
    }
}

/// The table after a parameter `name` of type `ty` has been declared in
/// `sc`: it joins the table, and the parameter list of the function being
/// read; a name declared at the same depth is refused.
pub open spec fn add_param(sc: Scope, name: Seq<char>, ty: Type) -> Result<
    Seq<SymbolView>,
    SemanticError,
> {
    if declared_at(sc.table, name, sc.depth) {
        Err(SemanticError::Redefinition)
    } else {
        let symbol = var_symbol(name, Some(Memory::Arg), ty, sc.depth);
        let table = sc.table.push(symbol);
        match sc.crt_func {
            Some(fi) => if has_args(sc.table, fi as int) {
                Ok(with_arg(table, fi as int, symbol))
            } else {
                Ok(table)
            },
            None => Ok(table),
        }
    }
}

/// The declarators of a variable declaration and the `;` behind them, from
/// the position of the first name: each is a name and, optionally, an
/// `array_decl`, and they are separated by `,`.
pub open spec fn declarators(toks: Seq<Token>, sc: Scope, pos: int, base: Type) -> Parsed<
    Seq<SymbolView>,
>
    decreases toks.len() - pos, 2int,
{
    if kind_at(toks, pos) == TokenType::ID {
        match onward(declarator_type(toks, sc.table, pos + 1, base), pos + 1, toks.len()) {
            Parsed::Match { next, out } => match add_var(sc, text_at(toks, pos), out) {
                Err(err) => fail(err, pos),
                Ok(table) => if kind_at(toks, next) == TokenType::COMMA {
                    declarators(toks, Scope { table, ..sc }, next + 1, base)
                } else if kind_at(toks, next) == TokenType::SEMICOLON {
                    Parsed::Match { next: next + 1, out: table }
                } else {
                    Parsed::NoMatch
                },
            },
            Parsed::NoMatch => Parsed::NoMatch,
            Parsed::Fail { err } => Parsed::Fail { err },
        }
    } else {
        Parsed::NoMatch
    }
}

/// `decl_var`: a `type_base`, one or more declarators, and `;`. Yields the
/// table with the declared variables.
pub open spec fn decl_var(toks: Seq<Token>, sc: Scope, pos: int) -> Parsed<Seq<SymbolView>>
    decreases toks.len() - pos, 11int,
{
    match within(type_base(toks, sc.table, pos), pos, toks.len()) {
        Parsed::Match { next, out } => declarators(toks, sc, next, out),
        Parsed::NoMatch => Parsed::NoMatch,
        Parsed::Fail { err } => Parsed::Fail { err },
    }
}

/// The members of a struct: as many `decl_var` as match.
pub open spec fn members(toks: Seq<Token>, sc: Scope, pos: int) -> Parsed<Seq<SymbolView>>
    decreases toks.len() - pos, 12int,
{
    match within(decl_var(toks, sc, pos), pos, toks.len()) {
        Parsed::Match { next, out } => members(toks, Scope { table: out, ..sc }, next),
        Parsed::NoMatch => Parsed::Match { next: pos, out: sc.table },
        Parsed::Fail { err } => Parsed::Fail { err },
    }
}

/// The body of a struct from the token after `{`: the members, then `}`
/// and `;`.
pub open spec fn struct_rest(toks: Seq<Token>, sc: Scope, pos: int) -> Parsed<Seq<SymbolView>> {
    match members(toks, sc, pos) {
        Parsed::Match { next, out } => if kind_at(toks, next) == TokenType::RACC && kind_at(
            toks,
            next + 1,
        ) == TokenType::SEMICOLON {
            Parsed::Match { next: next + 2, out }
        } else {
            Parsed::NoMatch
        },
        Parsed::NoMatch => Parsed::NoMatch,
        Parsed::Fail { err } => Parsed::Fail { err },
    }
}

/// The scope in which the members of a new struct `name` are read.
pub open spec fn struct_scope(sc: Scope, name: Seq<char>) -> Scope {
    Scope {
        crt_struct: Some(sc.table.len() as usize),
        table: sc.table.push(struct_symbol(name, sc.depth)),
        ..sc
    }
}

/// `decl_struct`: `struct`, a name that is not taken, and the members in
/// braces, then `;`. The struct is in the table while its members are read.
pub open spec fn decl_struct(toks: Seq<Token>, sc: Scope, pos: int) -> Parsed<Seq<SymbolView>> {
    if kind_at(toks, pos) == TokenType::STRUCT && kind_at(toks, pos + 1) == TokenType::ID
        && kind_at(toks, pos + 2) == TokenType::LACC {
        let name = text_at(toks, pos + 1);
        if last_index_of(sc.table, name) is Some {
            fail(SemanticError::Redefinition, pos + 1)
        } else {
            struct_rest(toks, struct_scope(sc, name), pos + 3)
        }
    } else {
        Parsed::NoMatch
    }
}

/// `func_arg`: a `type_base`, a name and, optionally, an `array_decl`.
/// Yields the table with the parameter.
pub open spec fn func_arg(toks: Seq<Token>, sc: Scope, pos: int) -> Parsed<Seq<SymbolView>>
    decreases toks.len() - pos, 3int,
{
    match within(type_base(toks, sc.table, pos), pos, toks.len()) {
        Parsed::Match { next, out } => if kind_at(toks, next) == TokenType::ID {
            let name = text_at(toks, next);
            match onward(declarator_type(toks, sc.table, next + 1, out), next + 1, toks.len()) {
                Parsed::Match { next, out } => match add_param(sc, name, out) {
                    Err(err) => fail(err, pos),
                    Ok(table) => Parsed::Match { next, out: table },
                },
                Parsed::NoMatch => Parsed::NoMatch,
                Parsed::Fail { err } => Parsed::Fail { err },
            }
        } else {
            Parsed::NoMatch
        },
        Parsed::NoMatch => Parsed::NoMatch,
        Parsed::Fail { err } => Parsed::Fail { err },
    }
}

/// The rest of a parameter list and the `)` behind it, a parameter having
/// been read up to `pos`.
pub open spec fn more_params(toks: Seq<Token>, sc: Scope, pos: int) -> Parsed<Seq<SymbolView>>
    decreases toks.len() - pos, 4int,
{
    if kind_at(toks, pos) == TokenType::COMMA {
        match within(func_arg(toks, sc, pos + 1), pos + 1, toks.len()) {
            Parsed::Match { next, out } => more_params(toks, Scope { table: out, ..sc }, next),
            Parsed::NoMatch => Parsed::NoMatch,
            Parsed::Fail { err } => Parsed::Fail { err },
        }
    } else if kind_at(toks, pos) == TokenType::RPAR {
        Parsed::Match { next: pos + 1, out: sc.table }
    } else {
        Parsed::NoMatch
    }
}

/// The parameters of a function and the `)` behind them, from the token
/// after `(`.
pub open spec fn params(toks: Seq<Token>, sc: Scope, pos: int) -> Parsed<Seq<SymbolView>>
    decreases toks.len() - pos, 5int,
{
    match within(func_arg(toks, sc, pos), pos, toks.len()) {
        Parsed::Match { next, out } => more_params(toks, Scope { table: out, ..sc }, next),
        Parsed::NoMatch => if kind_at(toks, pos) == TokenType::RPAR {
            Parsed::Match { next: pos + 1, out: sc.table }
        } else {
            Parsed::NoMatch
        },
        Parsed::Fail { err } => Parsed::Fail { err },
    }
}

/// The type that a function returns: a `type_base`, as an array where `*`
/// follows, or `void`.
pub open spec fn return_type(toks: Seq<Token>, table: Seq<SymbolView>, pos: int) -> Parsed<Type> {
    match type_base(toks, table, pos) {
        Parsed::Match { next, out } => if kind_at(toks, next) == TokenType::MUL {
            Parsed::Match { next: next + 1, out: array_of(out) }
        } else {
            Parsed::Match { next, out }
        },
        Parsed::NoMatch => if kind_at(toks, pos) == TokenType::VOID {
            Parsed::Match { next: pos + 1, out: scalar(TypeBase::Void) }
        } else {
            Parsed::NoMatch
        },
        Parsed::Fail { err } => Parsed::Fail { err },
    }
}

/// The scope in which the parameters of a new function `name` that returns
/// `ret` are read: one level deeper, outside any struct, the function in the
/// table.
pub open spec fn func_scope(sc: Scope, name: Seq<char>, ret: Type) -> Scope {
    Scope {
        depth: sc.depth + 1,
        crt_struct: None,
        crt_func: Some(sc.table.len() as usize),
        table: sc.table.push(func_symbol(name, Class::Func, ret, sc.depth)),
    }
}

/// The table without what was declared behind the function at `crt_func`.
pub open spec fn function_alone(table: Seq<SymbolView>, crt_func: Option<usize>) -> Seq<
    SymbolView,
> {
    match crt_func {
        Some(fi) => table.take(fi + 1),
        None => table,
    }
}

/// A function from the token after `(`, in the scope `heading` of its
/// parameters: the parameters and `)`, then the body, which is read at the
/// depth of the function itself. What is declared behind the function is
/// dropped at the end.
pub open spec fn func_rest(toks: Seq<Token>, heading: Scope, pos: int) -> Parsed<Seq<SymbolView>> {
    match params(toks, heading, pos) {
        Parsed::Match { next, out } => {
            let body = Scope { depth: heading.depth - 1, table: out, ..heading };
            match stm_compound(toks, body, next) {
                Parsed::Match { next, out } => Parsed::Match {
                    next,
                    out: function_alone(out, heading.crt_func),
                },
                Parsed::NoMatch => Parsed::NoMatch,
                Parsed::Fail { err } => Parsed::Fail { err },
            }
        },
        Parsed::NoMatch => Parsed::NoMatch,
        Parsed::Fail { err } => Parsed::Fail { err },
    }
}

/// A function that returns `ret`, from the position of its name: a name
/// that is not taken, `(`, and the rest of the function.
pub open spec fn func_named(toks: Seq<Token>, sc: Scope, pos: int, ret: Type) -> Parsed<
    Seq<SymbolView>,
> {
    if kind_at(toks, pos) == TokenType::ID && kind_at(toks, pos + 1) == TokenType::LPAR {
        let name = text_at(toks, pos);
        if last_index_of(sc.table, name) is Some {
            fail(SemanticError::Redefinition, pos)
        } else {
            func_rest(toks, func_scope(sc, name, ret), pos + 2)
        }
    } else {
        Parsed::NoMatch
    }
}

/// `decl_func`: a return type, a name that is not taken, the parameters in
/// parentheses, and a compound statement. The function is in the table, with
/// its parameters, while its body is read.
pub open spec fn decl_func(toks: Seq<Token>, sc: Scope, pos: int) -> Parsed<Seq<SymbolView>> {
    match return_type(toks, sc.table, pos) {
        Parsed::Match { next, out } => func_named(toks, sc, next, out),
        Parsed::NoMatch => Parsed::NoMatch,
        Parsed::Fail { err } => Parsed::Fail { err },
    }
}

/// What ends a statement at `pos`: `;`.
pub open spec fn semicolon(toks: Seq<Token>, pos: int, table: Seq<SymbolView>) -> Parsed<
    Seq<SymbolView>,
> {
    if kind_at(toks, pos) == TokenType::SEMICOLON {
        Parsed::Match { next: pos + 1, out: table }
    } else {
        Parsed::NoMatch
    }
}

/// What a returned value of type `value` needs in `sc`: inside a function,
/// what its return type asks; elsewhere nothing.
pub open spec fn return_check(sc: Scope, value: Type) -> Result<(), SemanticError> {
    match sc.crt_func {
        Some(fi) => if fi < sc.table.len() {
            match sc.table[fi as int].ty {
                Some(ret) => return_result(ret, value),
                None => Ok(()),
            }
        } else {
            Ok(())
        },
        None => Ok(()),
    }
}

/// An optional expression at `pos`: where one matches, the position behind
/// it and its type; else `pos` and no type.
pub open spec fn optional_expr(toks: Seq<Token>, table: Seq<SymbolView>, pos: int) -> Parsed<
    Option<Type>,
>
    decreases toks.len() - pos, 11int,
{
    match within(expr_assign(toks, table, pos), pos, toks.len()) {
        Parsed::Match { next, out } => Parsed::Match { next, out: Some(out.ty) },
        Parsed::NoMatch => Parsed::Match { next: pos, out: None },
        Parsed::Fail { err } => Parsed::Fail { err },
    }
}

/// What the optional condition of a `for` needs.
pub open spec fn optional_condition(ty: Option<Type>) -> Result<(), SemanticError> {
    match ty {
        Some(t) => for_condition_result(t),
        None => Ok(()),
    }
}

/// The condition of `if` and `while` in parentheses, from the position of
/// `(`: an expression that is no array and no struct.
pub open spec fn condition(toks: Seq<Token>, table: Seq<SymbolView>, pos: int) -> Parsed<()>
    decreases toks.len() - pos, 11int,
{
    if kind_at(toks, pos) == TokenType::LPAR {
        match within(expr_assign(toks, table, pos + 1), pos + 1, toks.len()) {
            Parsed::Match { next, out } => match operand_result(out.ty) {
                Err(err) => fail(err, pos),
                Ok(_) => if kind_at(toks, next) == TokenType::RPAR {
                    Parsed::Match { next: next + 1, out: () }
                } else {
                    Parsed::NoMatch
                },
            },
            Parsed::NoMatch => Parsed::NoMatch,
            Parsed::Fail { err } => Parsed::Fail { err },
        }
    } else {
        Parsed::NoMatch
    }
}

/// The three optional expressions of a `for` in parentheses, from the
/// position of `(`; the second is the condition.
pub open spec fn for_heading(toks: Seq<Token>, table: Seq<SymbolView>, pos: int) -> Parsed<()> {
    if kind_at(toks, pos) == TokenType::LPAR {
        match optional_expr(toks, table, pos + 1) {
            Parsed::Match { next, out } => if kind_at(toks, next) == TokenType::SEMICOLON {
                match optional_expr(toks, table, next + 1) {
                    Parsed::Match { next, out } => match optional_condition(out) {
                        Err(err) => fail(err, pos),
                        Ok(_) => if kind_at(toks, next) == TokenType::SEMICOLON {
                            match optional_expr(toks, table, next + 1) {
                                Parsed::Match { next, out } => if kind_at(toks, next)
                                    == TokenType::RPAR {
                                    Parsed::Match { next: next + 1, out: () }
                                } else {
                                    Parsed::NoMatch
                                },
                                Parsed::NoMatch => Parsed::NoMatch,
                                Parsed::Fail { err } => Parsed::Fail { err },
                            }
                        } else {
                            Parsed::NoMatch
                        },
                    },
                    Parsed::NoMatch => Parsed::NoMatch,
                    Parsed::Fail { err } => Parsed::Fail { err },
                }
            } else {
                Parsed::NoMatch
            },
            Parsed::NoMatch => Parsed::NoMatch,
            Parsed::Fail { err } => Parsed::Fail { err },
        }
    } else {
        Parsed::NoMatch
    }
}

/// `stm`: a compound statement, `if`, `while`, `for`, `break`, `return`, or
/// an optional expression and `;`. Yields the table behind the statement.
pub open spec fn stm(toks: Seq<Token>, sc: Scope, pos: int) -> Parsed<Seq<SymbolView>>
    decreases toks.len() - pos, 14int,
{
    match kind_at(toks, pos) {
        TokenType::LACC => stm_compound(toks, sc, pos),
        TokenType::IF => match within(condition(toks, sc.table, pos + 1), pos + 1, toks.len()) {
            Parsed::Match { next, out } => match within(stm(toks, sc, next), next, toks.len()) {
                Parsed::Match { next, out } => if kind_at(toks, next) == TokenType::ELSE {
                    within(stm(toks, Scope { table: out, ..sc }, next + 1), next + 1, toks.len())
                } else {
                    Parsed::Match { next, out }
                },
                Parsed::NoMatch => Parsed::NoMatch,
                Parsed::Fail { err } => Parsed::Fail { err },
            },
            Parsed::NoMatch => Parsed::NoMatch,
            Parsed::Fail { err } => Parsed::Fail { err },
        },
        TokenType::WHILE => match within(
            condition(toks, sc.table, pos + 1),
            pos + 1,
            toks.len(),
        ) {
            Parsed::Match { next, out } => within(stm(toks, sc, next), next, toks.len()),
            Parsed::NoMatch => Parsed::NoMatch,
            Parsed::Fail { err } => Parsed::Fail { err },
        },
        TokenType::FOR => match within(
            for_heading(toks, sc.table, pos + 1),
            pos + 1,
            toks.len(),
        ) {
            Parsed::Match { next, out } => within(stm(toks, sc, next), next, toks.len()),
            Parsed::NoMatch => Parsed::NoMatch,
            Parsed::Fail { err } => Parsed::Fail { err },
        },
        TokenType::BREAK => semicolon(toks, pos + 1, sc.table),
        TokenType::RETURN => match optional_expr(toks, sc.table, pos + 1) {
            Parsed::Match { next, out } => match out {
                Some(value) => match return_check(sc, value) {
                    Err(err) => fail(err, pos),
                    Ok(_) => semicolon(toks, next, sc.table),
                },
                None => semicolon(toks, next, sc.table),
            },
            Parsed::NoMatch => Parsed::NoMatch,
            Parsed::Fail { err } => Parsed::Fail { err },
        },
        _ => match optional_expr(toks, sc.table, pos) {
            Parsed::Match { next, out } => semicolon(toks, next, sc.table),
            Parsed::NoMatch => Parsed::NoMatch,
            Parsed::Fail { err } => Parsed::Fail { err },
        },
    }
}

/// The contents of a block: declarations and statements, as many as match.
pub open spec fn block_items(toks: Seq<Token>, sc: Scope, pos: int) -> Parsed<Seq<SymbolView>>
    decreases toks.len() - pos, 15int,
{
    match within(decl_var(toks, sc, pos), pos, toks.len()) {
        Parsed::Match { next, out } => block_items(toks, Scope { table: out, ..sc }, next),
        Parsed::Fail { err } => Parsed::Fail { err },
        Parsed::NoMatch => match within(stm(toks, sc, pos), pos, toks.len()) {
            Parsed::Match { next, out } => block_items(toks, Scope { table: out, ..sc }, next),
            Parsed::NoMatch => Parsed::Match { next: pos, out: sc.table },
            Parsed::Fail { err } => Parsed::Fail { err },
        },
    }
}

/// `stm_compound`: declarations and statements in braces, one level deeper
/// and outside any struct. What the block declared is dropped at its end.
pub open spec fn stm_compound(toks: Seq<Token>, sc: Scope, pos: int) -> Parsed<Seq<SymbolView>>
    decreases toks.len() - pos, 13int,
{
    if kind_at(toks, pos) == TokenType::LACC {
        let inner = Scope { depth: sc.depth + 1, crt_struct: None, ..sc };
        match block_items(toks, inner, pos + 1) {
            Parsed::Match { next, out } => if kind_at(toks, next) == TokenType::RACC {
                Parsed::Match { next: next + 1, out: out.take(sc.table.len() as int) }
            } else {
                Parsed::NoMatch
            },
            Parsed::NoMatch => Parsed::NoMatch,
            Parsed::Fail { err } => Parsed::Fail { err },
        }
    } else {
        Parsed::NoMatch
    }
}

/// The declarations of a unit: structs, functions and variables, tried in
/// that order, as many as match.
pub open spec fn declarations(toks: Seq<Token>, sc: Scope, pos: int) -> Parsed<Seq<SymbolView>>
    decreases toks.len() - pos, 16int,
{
    match within(decl_struct(toks, sc, pos), pos, toks.len()) {
        Parsed::Match { next, out } => declarations(toks, Scope { table: out, ..sc }, next),
        Parsed::Fail { err } => Parsed::Fail { err },
        Parsed::NoMatch => match within(decl_func(toks, sc, pos), pos, toks.len()) {
            Parsed::Match { next, out } => declarations(toks, Scope { table: out, ..sc }, next),
            Parsed::Fail { err } => Parsed::Fail { err },
            Parsed::NoMatch => match within(decl_var(toks, sc, pos), pos, toks.len()) {
                Parsed::Match { next, out } => declarations(
                    toks,
                    Scope { table: out, ..sc },
                    next,
                ),
                Parsed::NoMatch => Parsed::Match { next: pos, out: sc.table },
                Parsed::Fail { err } => Parsed::Fail { err },
            },
        },
    }
}

/// A built-in function `name` that returns `ret` and takes the parameters
/// `args`.
pub open spec fn builtin(name: Seq<char>, ret: Type, args: Seq<SymbolView>, depth: int)
    -> SymbolView {
    SymbolView { args: Some(args), ..func_symbol(name, Class::ExtFunc, ret, depth) }
}

/// The parameter of a built-in function.
pub open spec fn builtin_arg(name: Seq<char>, ty: Type, depth: int) -> SymbolView {
    var_symbol(name, None, ty, depth)
}

/// The functions that every unit starts with: output and input of a string,
/// an `int`, a `double` and a `char`.
pub open spec fn builtins(depth: int) -> Seq<SymbolView> {
    seq![
        builtin(
            "put_s"@,
            scalar(TypeBase::Void),
            seq![builtin_arg("s"@, array_of(scalar(TypeBase::Char)), depth)],
            depth,
        ),
        builtin(
            "get_s"@,
            scalar(TypeBase::Void),
            seq![builtin_arg("s"@, array_of(scalar(TypeBase::Char)), depth)],
            depth,
        ),
        builtin(
            "put_i"@,
            scalar(TypeBase::Void),
            seq![builtin_arg("i"@, scalar(TypeBase::Int), depth)],
            depth,
        ),
        builtin("get_i"@, scalar(TypeBase::Int), Seq::empty(), depth),
        builtin(
            "put_d"@,
            scalar(TypeBase::Void),
            seq![builtin_arg("d"@, scalar(TypeBase::Double), depth)],
            depth,
        ),
        builtin("get_d"@, scalar(TypeBase::Double), Seq::empty(), depth),
        builtin(
            "put_c"@,
            scalar(TypeBase::Void),
            seq![builtin_arg("c"@, scalar(TypeBase::Char), depth)],
            depth,
        ),
        builtin("get_c"@, scalar(TypeBase::Char), Seq::empty(), depth),
    ]
}

/// The scope in which the declarations of a unit are read: the built-in
/// functions have joined the table.
pub open spec fn unit_scope(sc: Scope) -> Scope {
    Scope { table: sc.table + builtins(sc.depth), ..sc }
}

/// `unit`: the built-in functions join the table, then come the
/// declarations, then the end of the input.
pub open spec fn unit(toks: Seq<Token>, sc: Scope, pos: int) -> Parsed<Seq<SymbolView>> {
    match declarations(toks, unit_scope(sc), pos) {
        Parsed::Match { next, out } => if kind_at(toks, next) == TokenType::EOF {
            Parsed::Match { next: next + 1, out }
        } else {
            Parsed::NoMatch
        },
        Parsed::NoMatch => Parsed::NoMatch,
        Parsed::Fail { err } => Parsed::Fail { err },
    }
}

} // verus!
