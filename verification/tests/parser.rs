use minic::parser::{Parser, Verdict};
use minic::diagnostic::{message, Diagnostic};
use minic::rules::{CastError, SemanticError, Violation};
use minic::symbols::{Class, Memory, Type, TypeBase};
use minic::token::{Token, TokenType};

fn tok(kind: TokenType, literal: &str) -> Token {
    Token { kind, literal: String::from(literal), line: 1, column: 1 }
}

/// Splits a small program into tokens: words, numbers and punctuation
/// separated by spaces.
fn tokens(source: &str) -> Vec<Token> {
    let mut out: Vec<Token> = Vec::new();
    for word in source.split_whitespace() {
        let kind = match word {
            "," => TokenType::COMMA,
            ";" => TokenType::SEMICOLON,
            "(" => TokenType::LPAR,
            ")" => TokenType::RPAR,
            "[" => TokenType::LBRACKET,
            "]" => TokenType::RBRACKET,
            "{" => TokenType::LACC,
            "}" => TokenType::RACC,
            "+" => TokenType::ADD,
            "-" => TokenType::SUB,
            "*" => TokenType::MUL,
            "/" => TokenType::DIV,
            "." => TokenType::DOT,
            "&&" => TokenType::AND,
            "||" => TokenType::OR,
            "!" => TokenType::NOT,
            "=" => TokenType::ASSIGN,
            "==" => TokenType::EQUAL,
            "!=" => TokenType::NOTEQ,
            "<" => TokenType::LESS,
            "<=" => TokenType::LESSEQ,
            ">" => TokenType::GREATER,
            ">=" => TokenType::GREATEREQ,
            _ => {
                let first = word.chars().next().unwrap();
                if first.is_ascii_digit() {
                    if word.contains('.') {
                        TokenType::CT_REAL
                    } else {
                        TokenType::CT_INT
                    }
                } else if first == '"' {
                    TokenType::CT_STRING
                } else if first == '\'' {
                    TokenType::CT_CHAR
                } else {
                    minic::token::lookup_identifier(word)
                }
            },
        };
        let literal = match kind {
            TokenType::CT_STRING | TokenType::CT_CHAR => &word[1..word.len() - 1],
            _ => word,
        };
        out.push(tok(kind, literal));
    }
    out.push(tok(TokenType::EOF, "EOF"));
    out
}

fn parse(source: &str) -> (Verdict, Parser) {
    let mut parser = Parser::new(tokens(source));
    let verdict = parser.parse_unit();
    (verdict, parser)
}

fn accepts(source: &str) -> bool {
    Parser::new(tokens(source)).unit()
}

fn refusal(source: &str) -> SemanticError {
    match parse(source).0 {
        Verdict::Fail(v) => v.error,
        other => panic!("expected a violation, got {:?}", other),
    }
}

const BUILTINS: usize = 8;

#[test]
fn test_rules() {
    let t_lacc = tok(TokenType::LACC, "{");
    let t_racc = tok(TokenType::RACC, "}");
    let t_id = tok(TokenType::ID, "x");
    let t_id1 = tok(TokenType::ID, "y");
    let t_semicolon = tok(TokenType::SEMICOLON, "");
    let t_struct = tok(TokenType::STRUCT, "struct");
    let t_eof = tok(TokenType::EOF, "eof");

    let mut tokens: Vec<Token> = Vec::new();
    tokens.push(t_struct.clone());
    tokens.push(t_id.clone());
    tokens.push(t_lacc.clone());
    tokens.push(t_racc.clone());
    tokens.push(t_semicolon.clone());

    tokens.push(t_struct.clone());
    tokens.push(t_id1.clone());
    tokens.push(t_lacc.clone());
    tokens.push(t_racc.clone());
    tokens.push(t_semicolon.clone());
    tokens.push(t_eof.clone());
    let mut parser = Parser::new(tokens);
    assert_eq!(parser.unit(), true, "{:?}", parser.current_token_index);
}

#[test]
fn two_empty_structs_are_accepted() {
    let (verdict, parser) = parse("struct A { } ; struct B { } ;");
    assert_eq!(verdict, Verdict::Match);
    let table = &parser.symbols_table.table;
    assert_eq!(table.len(), BUILTINS + 2);
    let structs: Vec<_> = table.iter().filter(|s| s.class == Class::Struct).collect();
    assert_eq!(structs.len(), 2);
    assert_eq!(structs[0].name, "A");
    assert_eq!(structs[1].name, "B");
    assert!(structs[0].members.as_ref().unwrap().table.is_empty());
    assert!(structs[1].members.as_ref().unwrap().table.is_empty());
}

#[test]
fn accepted_unit_consumes_every_token() {
    let toks = tokens("int x ; int f ( int a ) { return a ; }");
    let n = toks.len();
    let mut parser = Parser::new(toks);
    assert!(parser.unit());
    assert_eq!(parser.current_token_index, n);
    assert_eq!(parser.tokens[n - 1].kind, TokenType::EOF);
    assert_eq!(parser.crt_depth, 0);
    assert_eq!(parser.crt_func, None);
    assert_eq!(parser.crt_struct, None);
}

#[test]
fn global_redefinition_is_rejected() {
    assert!(!accepts("int x ; int x ;"));
    assert_eq!(refusal("int x ; int x ;"), SemanticError::Redefinition);
}

#[test]
fn function_keeps_its_parameter_and_drops_its_locals() {
    let (verdict, parser) = parse("int f ( int x ) { int y ; return x ; }");
    assert_eq!(verdict, Verdict::Match);
    let table = &parser.symbols_table.table;
    assert_eq!(table.len(), BUILTINS + 1);
    let f = parser.symbols_table.find_symbol("f").unwrap();
    assert_eq!(f.class, Class::Func);
    assert_eq!(f.ty, Some(Type::new(TypeBase::Int, -1)));
    let args = &f.args.as_ref().unwrap().table;
    assert_eq!(args.len(), 1);
    assert_eq!(args[0].name, "x");
    assert_eq!(args[0].ty, Some(Type::new(TypeBase::Int, -1)));
    assert_eq!(args[0].memory, Some(Memory::Arg));
    assert!(parser.symbols_table.find_symbol("x").is_none());
    assert!(parser.symbols_table.find_symbol("y").is_none());
}

#[test]
fn array_element_takes_an_int() {
    assert!(accepts("int a [ 5 ] ; void f ( ) { a [ 0 ] = 1 ; }"));
    let (_, parser) = parse("int a [ 5 ] ;");
    let a = parser.symbols_table.find_symbol("a").unwrap();
    assert_eq!(a.ty, Some(Type::new(TypeBase::Int, 0)));
    assert_eq!(a.memory, Some(Memory::Global));
}

#[test]
fn unknown_member_is_rejected() {
    let source = "struct P { int x ; } ; struct P p ; void f ( ) { p . y ; }";
    assert!(!accepts(source));
    assert_eq!(refusal(source), SemanticError::UndefinedMember);
    assert!(accepts("struct P { int x ; } ; struct P p ; void f ( ) { p . x ; }"));
}

#[test]
fn local_shadows_global_inside_its_block_only() {
    // inside the block `x` is the struct-typed local, so `x . m` is fine;
    // behind the block `x` is the global int again, so `x . m` is refused
    let inside = "struct S { int m ; } ; int x ; void f ( ) { { struct S x ; x . m = 1 ; } x = 2 ; }";
    assert!(accepts(inside));
    let behind = "struct S { int m ; } ; int x ; void f ( ) { { struct S x ; } x . m = 1 ; }";
    assert_eq!(refusal(behind), SemanticError::NotAStruct);
}

#[test]
fn same_name_at_another_depth_is_accepted() {
    assert!(accepts("int x ; void f ( ) { int x ; { int x ; } }"));
    assert_eq!(refusal("void f ( ) { int x ; int x ; }"), SemanticError::Redefinition);
    assert_eq!(refusal("void f ( int x ) { int x ; }"), SemanticError::Redefinition);
    assert_eq!(refusal("void f ( int x , int x ) { }"), SemanticError::Redefinition);
    assert_eq!(refusal("struct S { int a ; int a ; } ;"), SemanticError::Redefinition);
    assert_eq!(refusal("struct S { } ; struct S { } ;"), SemanticError::Redefinition);
    assert_eq!(refusal("int f ; int f ( ) { }"), SemanticError::Redefinition);
    assert!(accepts("struct S { int a ; } ; struct T { int a ; } ; int a ;"));
}

#[test]
fn calls_check_count_and_types() {
    let head = "struct S { int m ; } ; struct S s ; int g ( int a , double b ) { return a ; } ";
    assert!(accepts(&format!("{} void f ( ) {{ g ( 1 , 2.5 ) ; }}", head)));
    assert!(accepts(&format!("{} void f ( ) {{ g ( 'c' , 2 ) ; }}", head)));
    assert_eq!(
        refusal(&format!("{} void f ( ) {{ g ( 1 ) ; }}", head)),
        SemanticError::TooFewArguments
    );
    assert_eq!(
        refusal(&format!("{} void f ( ) {{ g ( 1 , 2 , 3 ) ; }}", head)),
        SemanticError::TooManyArguments
    );
    assert_eq!(
        refusal(&format!("{} void f ( ) {{ g ( s , 2 ) ; }}", head)),
        SemanticError::Cast(CastError::IncompatibleTypes)
    );
    assert_eq!(
        refusal(&format!("{} void f ( ) {{ g ( ) ; }}", head)),
        SemanticError::TooFewArguments
    );
}

#[test]
fn builtins_are_callable() {
    assert!(accepts("void f ( ) { put_i ( 1 ) ; put_d ( 2.5 ) ; put_c ( 'c' ) ; put_s ( \"hi\" ) ; }"));
    assert!(accepts("void f ( ) { int i ; i = get_i ( ) ; } "));
    assert_eq!(
        refusal("void f ( ) { put_s ( 1 ) ; }"),
        SemanticError::Cast(CastError::ArrayMismatch)
    );
    let (_, parser) = parse("");
    assert_eq!(parser.symbols_table.table.len(), BUILTINS);
    let put_s = parser.symbols_table.find_symbol("put_s").unwrap();
    assert_eq!(put_s.class, Class::ExtFunc);
    assert_eq!(put_s.ty, Some(Type::new(TypeBase::Void, -1)));
    assert_eq!(put_s.args.as_ref().unwrap().table[0].ty, Some(Type::new(TypeBase::Char, 0)));
    let get_d = parser.symbols_table.find_symbol("get_d").unwrap();
    assert_eq!(get_d.ty, Some(Type::new(TypeBase::Double, -1)));
    assert!(get_d.args.as_ref().unwrap().table.is_empty());
}

#[test]
fn statement_behind_a_declaration() {
    // `int a[5]; a[0] = 1;`: the declaration, then the statement
    let mut parser = Parser::new(tokens("int a [ 5 ] ; a [ 0 ] = 1 ;"));
    assert_eq!(parser.decl_var(), Verdict::Match);
    assert_eq!(parser.current_token_index, 6);
    match parser.expr_postfix(6) {
        minic::parser::Outcome::Match(next, rv) => {
            assert_eq!(next, 10);
            assert_eq!(rv.ty, Type::new(TypeBase::Int, -1));
            assert!(rv.is_lval && !rv.is_ctval);
        }
        other => panic!("{:?}", other),
    }
    assert_eq!(parser.stm(), Verdict::Match);
    assert_eq!(parser.current_token_index, 13);
    assert_eq!(parser.symbols_table.table.len(), 1);
}

#[test]
fn production_without_a_match_changes_nothing() {
    // the struct and its member are taken back when `;` is missing
    let mut parser = Parser::new(tokens("struct S { int a ; } int x ;"));
    assert_eq!(parser.decl_struct(), Verdict::NoMatch);
    assert_eq!(parser.current_token_index, 0);
    assert!(parser.symbols_table.table.is_empty());
    assert_eq!(parser.crt_struct, None);
    // so are a function, its parameters and its locals
    let mut parser = Parser::new(tokens("int f ( int a , int b ) { int c ; "));
    assert_eq!(parser.decl_func(), Verdict::NoMatch);
    assert_eq!(parser.current_token_index, 0);
    assert!(parser.symbols_table.table.is_empty());
    assert_eq!((parser.crt_depth, parser.crt_func), (0, None));
    // and the variables of a declaration that does not end
    let mut parser = Parser::new(tokens("int a , b , c"));
    assert_eq!(parser.decl_var(), Verdict::NoMatch);
    assert_eq!(parser.current_token_index, 0);
    assert!(parser.symbols_table.table.is_empty());
    // a block that does not close
    let mut parser = Parser::new(tokens("{ int a ; a = 1 ;"));
    parser.crt_func = None;
    assert_eq!(parser.stm_compound(), Verdict::NoMatch);
    assert_eq!((parser.current_token_index, parser.crt_depth), (0, 0));
    assert!(parser.symbols_table.table.is_empty());
}

#[test]
fn every_violation_has_an_input() {
    let s = "struct S { int m ; } ; struct S s ; struct S t ; int a [ 3 ] ; int n ; void v ( ) { } int g ( int p ) { return p ; } ";
    let inside = |body: &str| refusal(&format!("{} void f ( ) {{ {} }}", s, body));
    assert_eq!(inside("u = 1 ;"), SemanticError::UndefinedSymbol);
    assert_eq!(inside("int n ; int n ;"), SemanticError::Redefinition);
    assert_eq!(inside("struct n q ;"), SemanticError::NotAStruct);
    assert_eq!(inside("n . m ;"), SemanticError::NotAStruct);
    assert_eq!(inside("s . q ;"), SemanticError::UndefinedMember);
    assert_eq!(inside("n ( ) ;"), SemanticError::NotAFunction);
    assert_eq!(inside("g ;"), SemanticError::MissingCall);
    assert_eq!(inside("S ;"), SemanticError::NotAValue);
    assert_eq!(inside("g ( 1 , 2 ) ;"), SemanticError::TooManyArguments);
    assert_eq!(inside("g ( ) ;"), SemanticError::TooFewArguments);
    assert_eq!(inside("n [ 0 ] ;"), SemanticError::NotAnArray);
    assert_eq!(inside("1 = n ;"), SemanticError::NotAnLvalue);
    assert_eq!(inside("g ( 1 ) = n ;"), SemanticError::NotAnLvalue);
    assert_eq!(inside("n + a ;"), SemanticError::ArrayOperand);
    assert_eq!(inside("a = a ;"), SemanticError::ArrayOperand);
    assert_eq!(inside("- a ;"), SemanticError::ArrayOperand);
    assert_eq!(inside("if ( a ) ; "), SemanticError::ArrayOperand);
    assert_eq!(inside("n * s ;"), SemanticError::StructOperand);
    assert_eq!(inside("! s ;"), SemanticError::StructOperand);
    assert_eq!(inside("while ( s ) ; "), SemanticError::StructOperand);
    assert_eq!(inside("for ( ; s ; ) ; "), SemanticError::StructOperand);
    assert_eq!(inside("s && n ;"), SemanticError::StructOperand);
    assert_eq!(inside("return 1 ;"), SemanticError::VoidReturn);
    assert_eq!(inside("n = s ;"), SemanticError::Cast(CastError::IncompatibleTypes));
    assert_eq!(inside("n = ( int ) s ;"), SemanticError::Cast(CastError::IncompatibleTypes));
    assert_eq!(inside("n = v ( ) ;"), SemanticError::Cast(CastError::VoidOperand));
    assert_eq!(inside("a [ s ] ;"), SemanticError::Cast(CastError::IncompatibleTypes));
    assert_eq!(inside("g ( a ) ;"), SemanticError::Cast(CastError::ArrayMismatch));
    assert_eq!(
        refusal("struct A { } ; struct B { } ; struct A a ; struct B b ; void f ( ) { a = b ; }"),
        SemanticError::Cast(CastError::IncompatibleStruct)
    );
    assert_eq!(
        refusal("struct S { int m ; } ; int g ( ) { struct S s ; return s ; }"),
        SemanticError::Cast(CastError::IncompatibleTypes)
    );
    assert_eq!(refusal("struct U u ;"), SemanticError::UndefinedSymbol);
}

#[test]
fn expressions_are_accepted() {
    let s = "struct S { int m ; double d [ 4 ] ; } ; struct S s ; struct S t ; int a [ 3 ] ; int n ; double x ; char c ; int g ( int p , double q ) { return p ; } ";
    let ok = |body: &str| {
        let source = format!("{} void f ( ) {{ {} }}", s, body);
        assert_eq!(parse(&source).0, Verdict::Match, "{}", body);
    };
    ok("n = 1 ;");
    ok("n = x = c = 2 ;");
    ok("s = t ;");
    ok("s . m = a [ n + 1 ] * 2 - - n ;");
    ok("s . d [ 2 ] = x / 2.5 ;");
    ok("n = ( n + 1 ) * ( n - 1 ) ;");
    ok("x = ( double ) n + ( int ) x ;");
    ok("n = ! n || n < 2 && x >= 1.5 == c != n ;");
    ok("n = g ( g ( 1 , 2 ) , x ) ;");
    ok("if ( n ) n = 1 ; else { n = 2 ; }");
    ok("if ( n ) if ( x ) ; else ;");
    ok("while ( n < 10 ) { n = n + 1 ; break ; }");
    ok("for ( ; ; ) { }");
    ok("for ( n = 0 ; n < 3 ; n = n + 1 ) a [ n ] = n ;");
    ok("for ( ; a ; ) ;");
    ok("return ;");
    ok(";");
    ok("{ { { int n ; } } }");
    ok("int k , l [ 2 ] , m ; k = l [ 0 ] + m ;");
    ok("put_s ( \"text\" ) ; c = get_c ( ) ;");
    assert!(accepts("int * p ( ) { } double q ( char s [ ] , struct R r ) { }") == false);
    assert!(accepts("struct R { } ; int * p ( ) { } double q ( char s [ ] , struct R r ) { }"));
}

#[test]
fn syntax_errors_are_no_match() {
    for source in [
        "int ;",
        "int x",
        "int x [ ;",
        "int n ; void f ( ) { n = ; }",
        "int n ; void f ( ) { if n ; }",
        "void f ( ) { while ( ) ; }",
        "void f ( ) { for ( ; ) ; }",
        "void f ( int ) { }",
        "void f ( int a , ) { }",
        "void f ( ) ",
        "void f ( ) { break }",
        "x = 1 ;",
        "int x ; }",
    ] {
        assert_eq!(parse(source).0, Verdict::NoMatch, "{}", source);
        assert!(!accepts(source));
    }
    // the struct is taken back with its body, so that what follows names
    // a struct that does not exist
    assert_eq!(refusal("struct S { int a ; }"), SemanticError::UndefinedSymbol);
}

#[test]
fn tokens_behind_the_end_are_not_read() {
    let mut toks = tokens("int x ;");
    toks.push(tok(TokenType::INT, "int"));
    let mut parser = Parser::new(toks);
    assert!(parser.unit());
    assert_eq!(parser.current_token_index, 4);
    assert_eq!(parser.tokens.len(), 5);
    // without an end of input there is no unit
    let mut toks = tokens("int x ;");
    toks.pop();
    assert!(!Parser::new(toks).unit());
    assert!(!Parser::new(Vec::new()).unit());
}

#[test]
fn violations_name_their_token() {
    //                0   1 2 3    4 5 6 7 8 9 10 11 12 13
    let (verdict, _) = parse("int x ; void f ( ) { x = y + 1 ; }");
    assert_eq!(verdict, Verdict::Fail(Violation { error: SemanticError::UndefinedSymbol, at: 10 }));
    let at = |source: &str| match parse(source).0 {
        Verdict::Fail(v) => v.at,
        other => panic!("{:?}", other),
    };
    assert_eq!(at("int x ; int x ;"), 4);
    assert_eq!(at("struct S { } ; struct S { } ;"), 6);
    assert_eq!(at("int f ; int f ( ) { }"), 4);
    assert_eq!(at("struct U u ;"), 1);
    // an operator's operands are blamed on the operator, a member on its name
    assert_eq!(at("int a [ 2 ] ; int n ; void f ( ) { n = a + n ; }"), 17);
    assert_eq!(at("struct S { int m ; } ; struct S s ; void f ( ) { s . q ; }"), 19);
    assert_eq!(at("void f ( ) { return 1 ; }"), 5);
}

#[test]
fn diagnostics_give_line_and_column() {
    let mut toks = tokens("int x ; int x ;");
    for (i, t) in toks.iter_mut().enumerate() {
        t.line = 3;
        t.column = 10 * (i as i32) + 1;
    }
    let mut parser = Parser::new(toks);
    let verdict = parser.parse_unit();
    assert_eq!(
        parser.diagnose(verdict),
        Some(Diagnostic {
            error: Some(SemanticError::Redefinition),
            message: String::from("symbol redefinition"),
            line: 3,
            column: 41,
        })
    );
    assert_eq!(parser.diagnose(Verdict::Match), None);
    let mut parser = Parser::new(tokens("int x ; ) int y ;"));
    let verdict = parser.parse_unit();
    assert_eq!(verdict, Verdict::NoMatch);
    let d = parser.diagnose(verdict).unwrap();
    assert_eq!((d.error, d.message.as_str()), (None, "syntax error"));
    assert_eq!(parser.place(3), (1, 1));
    assert_eq!(parser.place(99), (1, 1));
    assert_eq!(Parser::new(Vec::new()).place(0), (0, 0));
    assert_eq!(message(Some(SemanticError::Cast(CastError::VoidOperand))), "void is not a value");
    assert_eq!(message(Some(SemanticError::TooFewArguments)), "too few arguments in call");
}

#[test]
fn recursion_and_self_reference() {
    assert!(accepts("int f ( int n ) { if ( n < 1 ) return 0 ; return f ( n - 1 ) + 1 ; }"));
    assert!(accepts("struct N { int v ; struct N next [ ] ; } ;"));
    assert!(accepts(
        "struct S { int m ; } ; struct S arr [ 3 ] ; void f ( ) { arr [ 0 ] . m = 1 ; }"
    ));
    assert!(accepts("int n ; void f ( ) { ( n ) = 1 ; n = ( ( ( n ) ) ) ; }"));
    assert_eq!(
        refusal("int a [ 3 ] ; void f ( ) { a [ 1 ] [ 2 ] = 0 ; }"),
        SemanticError::NotAnArray
    );
    // a function is known inside its own body, and nowhere before it
    assert_eq!(
        refusal("void f ( ) { g ( ) ; } void g ( ) { }"),
        SemanticError::UndefinedSymbol
    );
    // a function cannot be declared inside a function, nor a void variable
    assert!(!accepts("void f ( ) { void g ( ) { } }"));
    assert!(!accepts("void x ;"));
}

#[test]
fn depth_and_memory_of_declarations() {
    let mut parser = Parser::new(tokens("int g ; struct S { int m ; } ; int f ( int p ) { int l ; { int k ; }"));
    assert_eq!(parser.decl_var(), Verdict::Match);
    assert_eq!(parser.decl_struct(), Verdict::Match);
    {
        let g = parser.symbols_table.find_symbol("g").unwrap();
        assert_eq!((g.class, g.memory, g.depth), (Class::Var, Some(Memory::Global), 0));
        let s = parser.symbols_table.find_symbol("S").unwrap();
        assert_eq!((s.class, s.memory, s.ty, s.depth), (Class::Struct, None, None, 0));
        let m = &s.members.as_ref().unwrap().table[0];
        assert_eq!((m.name.as_str(), m.class, m.memory, m.depth), ("m", Class::Var, None, 0));
    }
    // read the heading and the start of the body by hand, to look in
    assert_eq!(
        parser.return_type(11),
        minic::parser::Outcome::Match(12, Type::new(TypeBase::Int, -1))
    );
    let fi = parser.symbols_table.len();
    parser.symbols_table.push(minic::symbols::Symbol::new(
        String::from("f"),
        Class::Func,
        None,
        Some(Type::new(TypeBase::Int, -1)),
        0,
        Some(minic::symbols::SymbolTable::new()),
        None,
    ));
    parser.crt_func = Some(fi);
    parser.crt_depth = 1;
    parser.current_token_index = 14;
    assert_eq!(parser.func_arg(), Verdict::Match);
    parser.current_token_index = 18;
    assert_eq!(parser.decl_var(), Verdict::Match);
    assert_eq!(parser.current_token_index, 21);
    let p = parser.symbols_table.find_symbol("p").unwrap();
    assert_eq!((p.memory, p.depth), (Some(Memory::Arg), 1));
    let l = parser.symbols_table.find_symbol("l").unwrap();
    assert_eq!((l.memory, l.depth), (Some(Memory::Local), 1));
    assert_eq!(parser.symbols_table.args_of(fi).unwrap().table.len(), 1);
    // the inner block declares at depth 2 and forgets when it ends
    let before = parser.symbols_table.len();
    assert_eq!(parser.stm(), Verdict::Match);
    assert_eq!(parser.symbols_table.len(), before);
    assert_eq!(parser.crt_depth, 1);
    assert!(parser.symbols_table.find_symbol("k").is_none());
}

#[test]
fn deep_nesting_is_read_once() {
    let depth = 300;
    let source = format!(
        "int n ; void f ( ) {{ n = {} n {} + {} 1 {} ; }}",
        "( ".repeat(depth),
        ") ".repeat(depth),
        "- ( ".repeat(depth),
        ") ".repeat(depth)
    );
    assert!(accepts(&source));
    let blocks = format!("void f ( ) {} {}", "{ ".repeat(depth), "} ".repeat(depth));
    assert!(accepts(&blocks));
}
