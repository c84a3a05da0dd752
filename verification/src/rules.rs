//! The cast rules and the checks that each operator makes on its operands.

use vstd::prelude::*;
use crate::symbols::{Type, TypeBase};
use crate::token::TokenType;

verus! {

/// Why one type does not convert to another.
#[derive(Debug, Clone, Copy, PartialEq, Eq, Structural)]
pub enum CastError {
    /// An array met a scalar, or an array of another base type.
    ArrayMismatch,
    /// Two struct types that were not declared by the same symbol.
    IncompatibleStruct,
    /// A struct met a number.
    IncompatibleTypes,
    /// One side is `void`.
    VoidOperand,
}

/// A violation of the language's rules, found while parsing.
#[derive(Debug, Clone, Copy, PartialEq, Eq, Structural)]
pub enum SemanticError {
    /// A name that no visible declaration introduces.
    UndefinedSymbol,
    /// A second declaration of a name in the same scope.
    Redefinition,
    /// A struct type or a member access that names something else than a struct.
    NotAStruct,
    /// A member that the struct does not have.
    UndefinedMember,
    /// A call of something that is no function.
    NotAFunction,
    /// A function named without being called.
    MissingCall,
    /// A name used as a value that has no type, such as a struct's name.
    NotAValue,
    /// More arguments than the function has parameters.
    TooManyArguments,
    /// Fewer arguments than the function has parameters.
    TooFewArguments,
    /// An index applied to something that is no array.
    NotAnArray,
    /// An assignment to something that designates no storage.
    NotAnLvalue,
    /// An array where an operator or a condition needs a scalar.
    ArrayOperand,
    /// A struct where an operator or a condition needs a number.
    StructOperand,
    /// A value returned from a `void` function.
    VoidReturn,
    /// A conversion that the cast rules refuse.
    Cast(CastError),
}

/// A violation, and the index of the token at which it was found.
#[derive(Debug, Clone, Copy, PartialEq, Eq, Structural)]
pub struct Violation {
    pub error: SemanticError,
    pub at: usize,
}

/// Whether `base` is one of the three arithmetic bases.
pub open spec fn is_numeric(base: TypeBase) -> bool {
    base == TypeBase::Int || base == TypeBase::Double || base == TypeBase::Char
}

/// The outcome of converting a value of type `src` to type `dst`.
pub open spec fn cast_result(dst: Type, src: Type) -> Result<(), CastError> {
    if src.is_array() != dst.is_array() {
        Err(CastError::ArrayMismatch)
    } else if src.is_array() && src.type_base != dst.type_base {
        Err(CastError::ArrayMismatch)
    } else if src.type_base == TypeBase::Void || dst.type_base == TypeBase::Void {
        Err(CastError::VoidOperand)
    } else if is_numeric(src.type_base) && is_numeric(dst.type_base) {
        Ok(())
    } else if src.type_base == TypeBase::Struct && dst.type_base == TypeBase::Struct {
        if src.s is Some && src.s == dst.s {
            Ok(())
        } else {
            Err(CastError::IncompatibleStruct)
        }
    } else {
        Err(CastError::IncompatibleTypes)
    }
}

/// Whether a value of type `src` converts to type `dst`.
pub open spec fn castable(dst: Type, src: Type) -> bool {
    cast_result(dst, src) is Ok
}

fn numeric(base: TypeBase) -> (r: bool)
    ensures
        r == is_numeric(base),
{
    match base {
        TypeBase::Int => true,
        TypeBase::Double => true,
        TypeBase::Char => true,
        _ => false,
    }
}

fn same_struct(a: Option<usize>, b: Option<usize>) -> (r: bool)
    ensures
        r == (a is Some && a == b),
{
    match (a, b) {
        (Some(x), Some(y)) => x == y,
        _ => false,
    }
}

/// Checks that a value of type `src` converts to type `dst`.
pub fn cast(dst: &Type, src: &Type) -> (r: Result<(), CastError>)
    ensures
        r == cast_result(*dst, *src),
{
    let src_array = src.n_elements >= 0;
    let dst_array = dst.n_elements >= 0;
    if src_array != dst_array {
        Err(CastError::ArrayMismatch)
    } else if src_array && src.type_base != dst.type_base {
        Err(CastError::ArrayMismatch)
    } else if src.type_base == TypeBase::Void || dst.type_base == TypeBase::Void {
        Err(CastError::VoidOperand)
    } else if numeric(src.type_base) && numeric(dst.type_base) {
        Ok(())
    } else if src.type_base == TypeBase::Struct && dst.type_base == TypeBase::Struct {
        if same_struct(src.s, dst.s) {
            Ok(())
        } else {
            Err(CastError::IncompatibleStruct)
        }
    } else {
        Err(CastError::IncompatibleTypes)
    }
}

/// The scalar `int` type.
pub open spec fn int_type() -> Type {
    Type { type_base: TypeBase::Int, s: None, n_elements: -1i32 }
}

/// What an operand must be: no array and no struct.
pub open spec fn operand_result(ty: Type) -> Result<(), SemanticError> {
    if ty.is_array() {
        Err(SemanticError::ArrayOperand)
    } else if ty.type_base == TypeBase::Struct {
        Err(SemanticError::StructOperand)
    } else {
        Ok(())
    }
}

/// Checks one operand of an operator, or the condition of `if` and `while`.
pub fn check_operand(ty: &Type) -> (r: Result<(), SemanticError>)
    ensures
        r == operand_result(*ty),
{
    if ty.n_elements >= 0 {
        Err(SemanticError::ArrayOperand)
    } else if ty.type_base == TypeBase::Struct {
        Err(SemanticError::StructOperand)
    } else {
        Ok(())
    }
}

/// Whether `op` is an operator whose result is an `int` truth value.
pub open spec fn yields_int(op: TokenType) -> bool {
    op == TokenType::OR || op == TokenType::AND || op == TokenType::EQUAL || op == TokenType::NOTEQ
        || op == TokenType::LESS || op == TokenType::LESSEQ || op == TokenType::GREATER || op
        == TokenType::GREATEREQ || op == TokenType::NOT
}

/// The type of `lhs op rhs`: an array on either side is refused first, then
/// a struct on either side; a comparison or a logical operator gives `int`,
/// an arithmetic operator the type of its left operand.
pub open spec fn binary_result(op: TokenType, lhs: Type, rhs: Type) -> Result<Type, SemanticError> {
    if lhs.is_array() || rhs.is_array() {
        Err(SemanticError::ArrayOperand)
    } else if lhs.type_base == TypeBase::Struct || rhs.type_base == TypeBase::Struct {
        Err(SemanticError::StructOperand)
    } else if yields_int(op) {
        Ok(int_type())
    } else {
        Ok(lhs)
    }
}

fn truth_valued(op: TokenType) -> (r: bool)
    ensures
        r == yields_int(op),
{
    match op {
        TokenType::OR => true,
        TokenType::AND => true,
        TokenType::EQUAL => true,
        TokenType::NOTEQ => true,
        TokenType::LESS => true,
        TokenType::LESSEQ => true,
        TokenType::GREATER => true,
        TokenType::GREATEREQ => true,
        TokenType::NOT => true,
        _ => false,
    }
}

/// Checks the operands of a binary operator and gives the type of the result.
pub fn check_binary(op: TokenType, lhs: &Type, rhs: &Type) -> (r: Result<Type, SemanticError>)
    ensures
        r == binary_result(op, *lhs, *rhs),
{
    if lhs.n_elements >= 0 || rhs.n_elements >= 0 {
        Err(SemanticError::ArrayOperand)
    } else if lhs.type_base == TypeBase::Struct || rhs.type_base == TypeBase::Struct {
        Err(SemanticError::StructOperand)
    } else if truth_valued(op) {
        Ok(Type::new(TypeBase::Int, -1))
    } else {
        Ok(*lhs)
    }
}

/// The type of `op operand` for unary `-` and `!`: the operand is checked as
/// any operand is; `!` gives `int`, `-` the operand's type.
pub open spec fn unary_result(op: TokenType, operand: Type) -> Result<Type, SemanticError> {
    match operand_result(operand) {
        Err(e) => Err(e),
        Ok(_) => if yields_int(op) {
            Ok(int_type())
        } else {
            Ok(operand)
        },
    }
}

/// Checks the operand of a unary operator and gives the type of the result.
pub fn check_unary(op: TokenType, operand: &Type) -> (r: Result<Type, SemanticError>)
    ensures
        r == unary_result(op, *operand),
{
    match check_operand(operand) {
        Err(e) => Err(e),
        Ok(_) => if truth_valued(op) {
            Ok(Type::new(TypeBase::Int, -1))
        } else {
            Ok(*operand)
        },
    }
}

/// The type of `lhs = rhs`: the left side must designate storage, neither
/// side may be an array, and the right side must convert to the left.
pub open spec fn assign_result(lhs: Type, lhs_is_lval: bool, rhs: Type) -> Result<
    Type,
    SemanticError,
> {
    if !lhs_is_lval {
        Err(SemanticError::NotAnLvalue)
    } else if lhs.is_array() || rhs.is_array() {
        Err(SemanticError::ArrayOperand)
    } else {
        match cast_result(lhs, rhs) {
            Err(e) => Err(SemanticError::Cast(e)),
            Ok(_) => Ok(lhs),
        }
    }
}

/// Checks an assignment and gives the type of its value.
pub fn check_assign(lhs: &Type, lhs_is_lval: bool, rhs: &Type) -> (r: Result<Type, SemanticError>)
    ensures
        r == assign_result(*lhs, lhs_is_lval, *rhs),
{
    if !lhs_is_lval {
        Err(SemanticError::NotAnLvalue)
    } else if lhs.n_elements >= 0 || rhs.n_elements >= 0 {
        Err(SemanticError::ArrayOperand)
    } else {
        match cast(lhs, rhs) {
            Err(e) => Err(SemanticError::Cast(e)),
            Ok(_) => Ok(*lhs),
        }
    }
}

/// The type of `base[index]`: the base must be an array and the index must
/// convert to `int`; the result is one element of the array.
pub open spec fn index_result(base: Type, index: Type) -> Result<Type, SemanticError> {
    if !base.is_array() {
        Err(SemanticError::NotAnArray)
    } else {
        match cast_result(int_type(), index) {
            Err(e) => Err(SemanticError::Cast(e)),
            Ok(_) => Ok(base.element()),
        }
    }
}

/// Checks an index expression and gives the type of the element.
pub fn check_index(base: &Type, index: &Type) -> (r: Result<Type, SemanticError>)
    ensures
        r == index_result(*base, *index),
{
    if base.n_elements < 0 {
        Err(SemanticError::NotAnArray)
    } else {
        let int_ty = Type::new(TypeBase::Int, -1);
        match cast(&int_ty, index) {
            Err(e) => Err(SemanticError::Cast(e)),
            Ok(_) => Ok(Type { type_base: base.type_base, s: base.s, n_elements: -1 }),
        }
    }
}

/// What `(dst) operand` needs: the operand converts to `dst`.
pub open spec fn conversion_result(dst: Type, src: Type) -> Result<(), SemanticError> {
    match cast_result(dst, src) {
        Err(e) => Err(SemanticError::Cast(e)),
        Ok(_) => Ok(()),
    }
}

/// Checks a conversion that the program asks for: an explicit cast, an
/// argument passed to a parameter, a value returned from a function.
pub fn check_conversion(dst: &Type, src: &Type) -> (r: Result<(), SemanticError>)
    ensures
        r == conversion_result(*dst, *src),
{
    match cast(dst, src) {
        Err(e) => Err(SemanticError::Cast(e)),
        Ok(_) => Ok(()),
    }
}

/// What `return value;` needs inside a function that returns `ret`: the
/// function is not `void`, and the value converts to `ret`.
pub open spec fn return_result(ret: Type, value: Type) -> Result<(), SemanticError> {
    if ret.type_base == TypeBase::Void {
        Err(SemanticError::VoidReturn)
    } else {
        conversion_result(ret, value)
    }
}

/// Checks the value of a `return` statement against the function's type.
pub fn check_return(ret: &Type, value: &Type) -> (r: Result<(), SemanticError>)
    ensures
        r == return_result(*ret, *value),
{
    if ret.type_base == TypeBase::Void {
        Err(SemanticError::VoidReturn)
    } else {
        check_conversion(ret, value)
    }
}

/// What the condition of a `for` needs: it is no struct.
pub open spec fn for_condition_result(ty: Type) -> Result<(), SemanticError> {
    if ty.type_base == TypeBase::Struct {
        Err(SemanticError::StructOperand)
    } else {
        Ok(())
    }
}

/// Checks the condition of a `for` statement.
pub fn check_for_condition(ty: &Type) -> (r: Result<(), SemanticError>)
    ensures
        r == for_condition_result(*ty),
{
    if ty.type_base == TypeBase::Struct {
        Err(SemanticError::StructOperand)
    } else {
        Ok(())
    }
}

} // verus!
