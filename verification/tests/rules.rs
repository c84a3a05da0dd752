use minic::rules::{
    cast, check_assign, check_binary, check_conversion, check_for_condition, check_index,
    check_operand, check_return, check_unary, CastError, SemanticError,
};
use minic::symbols::{Type, TypeBase};
use minic::token::TokenType;

fn scalar(base: TypeBase) -> Type {
    Type::new(base, -1)
}

fn array(base: TypeBase) -> Type {
    Type::new(base, 0)
}

fn record(id: usize) -> Type {
    Type { type_base: TypeBase::Struct, s: Some(id), n_elements: -1 }
}

#[test]
fn type_new_names_no_struct() {
    let t = Type::new(TypeBase::Double, 4);
    assert_eq!(t, Type { type_base: TypeBase::Double, s: None, n_elements: 4 });
}

#[test]
fn numbers_cast_to_one_another() {
    let bases = [TypeBase::Int, TypeBase::Char, TypeBase::Double];
    for dst in bases {
        for src in bases {
            assert_eq!(cast(&scalar(dst), &scalar(src)), Ok(()), "{:?} <- {:?}", dst, src);
        }
    }
}

#[test]
fn struct_casts_only_to_itself() {
    assert_eq!(cast(&record(3), &record(3)), Ok(()));
    assert_eq!(cast(&record(3), &record(4)), Err(CastError::IncompatibleStruct));
    assert_eq!(cast(&scalar(TypeBase::Int), &record(3)), Err(CastError::IncompatibleTypes));
    assert_eq!(cast(&record(3), &scalar(TypeBase::Double)), Err(CastError::IncompatibleTypes));
    // a struct type that names no declaration is no struct's type
    let nameless = scalar(TypeBase::Struct);
    assert_eq!(cast(&nameless, &nameless), Err(CastError::IncompatibleStruct));
}

#[test]
fn arrays_never_cast_to_scalars() {
    assert_eq!(
        cast(&scalar(TypeBase::Int), &array(TypeBase::Int)),
        Err(CastError::ArrayMismatch)
    );
    assert_eq!(
        cast(&array(TypeBase::Int), &scalar(TypeBase::Int)),
        Err(CastError::ArrayMismatch)
    );
    assert_eq!(
        cast(&array(TypeBase::Int), &array(TypeBase::Char)),
        Err(CastError::ArrayMismatch)
    );
    assert_eq!(cast(&array(TypeBase::Char), &Type::new(TypeBase::Char, 16)), Ok(()));
    let records = Type { type_base: TypeBase::Struct, s: Some(1), n_elements: 0 };
    assert_eq!(cast(&records, &records), Ok(()));
    assert_eq!(cast(&records, &record(1)), Err(CastError::ArrayMismatch));
}

#[test]
fn void_never_casts() {
    let void = scalar(TypeBase::Void);
    assert_eq!(cast(&void, &void), Err(CastError::VoidOperand));
    assert_eq!(cast(&scalar(TypeBase::Int), &void), Err(CastError::VoidOperand));
    assert_eq!(cast(&void, &scalar(TypeBase::Int)), Err(CastError::VoidOperand));
    assert_eq!(cast(&void, &record(0)), Err(CastError::VoidOperand));
}

#[test]
fn operands_are_scalar_numbers() {
    assert_eq!(check_operand(&scalar(TypeBase::Int)), Ok(()));
    assert_eq!(check_operand(&array(TypeBase::Int)), Err(SemanticError::ArrayOperand));
    assert_eq!(check_operand(&record(0)), Err(SemanticError::StructOperand));
    let records = Type { type_base: TypeBase::Struct, s: Some(0), n_elements: 2 };
    assert_eq!(check_operand(&records), Err(SemanticError::ArrayOperand));
    assert_eq!(check_for_condition(&array(TypeBase::Int)), Ok(()));
    assert_eq!(check_for_condition(&record(0)), Err(SemanticError::StructOperand));
}

#[test]
fn binary_operators() {
    let int = scalar(TypeBase::Int);
    let double = scalar(TypeBase::Double);
    for op in [TokenType::ADD, TokenType::SUB, TokenType::MUL, TokenType::DIV] {
        assert_eq!(check_binary(op, &double, &int), Ok(double));
        assert_eq!(check_binary(op, &int, &double), Ok(int));
    }
    for op in [
        TokenType::LESS,
        TokenType::LESSEQ,
        TokenType::GREATER,
        TokenType::GREATEREQ,
        TokenType::EQUAL,
        TokenType::NOTEQ,
        TokenType::AND,
        TokenType::OR,
    ] {
        assert_eq!(check_binary(op, &double, &double), Ok(int));
        assert_eq!(check_binary(op, &array(TypeBase::Int), &int), Err(SemanticError::ArrayOperand));
        assert_eq!(check_binary(op, &int, &record(0)), Err(SemanticError::StructOperand));
        assert_eq!(
            check_binary(op, &record(0), &array(TypeBase::Int)),
            Err(SemanticError::ArrayOperand)
        );
    }
}

#[test]
fn unary_operators() {
    let double = scalar(TypeBase::Double);
    assert_eq!(check_unary(TokenType::SUB, &double), Ok(double));
    assert_eq!(check_unary(TokenType::NOT, &double), Ok(scalar(TypeBase::Int)));
    assert_eq!(check_unary(TokenType::SUB, &array(TypeBase::Int)), Err(SemanticError::ArrayOperand));
    assert_eq!(check_unary(TokenType::NOT, &array(TypeBase::Int)), Err(SemanticError::ArrayOperand));
    assert_eq!(check_unary(TokenType::NOT, &record(1)), Err(SemanticError::StructOperand));
}

#[test]
fn assignment() {
    let int = scalar(TypeBase::Int);
    assert_eq!(check_assign(&int, true, &scalar(TypeBase::Char)), Ok(int));
    assert_eq!(check_assign(&int, false, &int), Err(SemanticError::NotAnLvalue));
    assert_eq!(check_assign(&array(TypeBase::Int), true, &int), Err(SemanticError::ArrayOperand));
    assert_eq!(check_assign(&int, true, &array(TypeBase::Int)), Err(SemanticError::ArrayOperand));
    assert_eq!(
        check_assign(&record(1), true, &record(2)),
        Err(SemanticError::Cast(CastError::IncompatibleStruct))
    );
    assert_eq!(check_assign(&record(1), true, &record(1)), Ok(record(1)));
    assert_eq!(
        check_assign(&int, true, &scalar(TypeBase::Void)),
        Err(SemanticError::Cast(CastError::VoidOperand))
    );
}

#[test]
fn indexing() {
    let doubles = Type::new(TypeBase::Double, 8);
    assert_eq!(check_index(&doubles, &scalar(TypeBase::Char)), Ok(scalar(TypeBase::Double)));
    assert_eq!(check_index(&scalar(TypeBase::Double), &scalar(TypeBase::Int)), Err(SemanticError::NotAnArray));
    assert_eq!(
        check_index(&doubles, &record(0)),
        Err(SemanticError::Cast(CastError::IncompatibleTypes))
    );
    assert_eq!(
        check_index(&doubles, &array(TypeBase::Int)),
        Err(SemanticError::Cast(CastError::ArrayMismatch))
    );
    let records = Type { type_base: TypeBase::Struct, s: Some(5), n_elements: 3 };
    assert_eq!(check_index(&records, &scalar(TypeBase::Int)), Ok(record(5)));
}

#[test]
fn conversions_and_returns() {
    let int = scalar(TypeBase::Int);
    assert_eq!(check_conversion(&int, &scalar(TypeBase::Double)), Ok(()));
    assert_eq!(
        check_conversion(&int, &array(TypeBase::Int)),
        Err(SemanticError::Cast(CastError::ArrayMismatch))
    );
    assert_eq!(check_return(&int, &scalar(TypeBase::Char)), Ok(()));
    assert_eq!(check_return(&scalar(TypeBase::Void), &int), Err(SemanticError::VoidReturn));
    assert_eq!(
        check_return(&int, &record(0)),
        Err(SemanticError::Cast(CastError::IncompatibleTypes))
    );
}
