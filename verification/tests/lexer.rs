use minic::lexer::Lexer;
use minic::parser::{char_literal, int_literal, Parser, Verdict};
use minic::rules::{SemanticError, Violation};
use minic::symbols::{CtVal, Type, TypeBase};
use minic::token::{lookup_identifier, Token, TokenType};

fn lex(source: &str) -> Vec<Token> {
    let mut lexer = Lexer::new(String::from(source));
    let mut out = Vec::new();
    loop {
        let tok = lexer.next_token();
        let done = tok.kind == TokenType::EOF;
        out.push(tok);
        if done {
            return out;
        }
    }
}

fn kinds(source: &str) -> Vec<TokenType> {
    lex(source).iter().map(|t| t.kind).collect()
}

fn texts(source: &str) -> Vec<String> {
    lex(source).iter().map(|t| t.literal.clone()).collect()
}

#[test]
fn keywords_and_identifiers() {
    assert_eq!(lookup_identifier("break"), TokenType::BREAK);
    assert_eq!(lookup_identifier("char"), TokenType::CHAR);
    assert_eq!(lookup_identifier("double"), TokenType::DOUBLE);
    assert_eq!(lookup_identifier("else"), TokenType::ELSE);
    assert_eq!(lookup_identifier("for"), TokenType::FOR);
    assert_eq!(lookup_identifier("if"), TokenType::IF);
    assert_eq!(lookup_identifier("int"), TokenType::INT);
    assert_eq!(lookup_identifier("return"), TokenType::RETURN);
    assert_eq!(lookup_identifier("struct"), TokenType::STRUCT);
    assert_eq!(lookup_identifier("void"), TokenType::VOID);
    assert_eq!(lookup_identifier("while"), TokenType::WHILE);
    assert_eq!(lookup_identifier("whilst"), TokenType::ID);
    assert_eq!(lookup_identifier("Int"), TokenType::ID);
    assert_eq!(lookup_identifier(""), TokenType::ID);
    assert_eq!(
        kinds("int x_1 while2 _a"),
        vec![TokenType::INT, TokenType::ID, TokenType::ID, TokenType::ID, TokenType::EOF]
    );
    assert_eq!(texts("int x_1 while2 _a"), vec!["int", "x_1", "while2", "_a", ""]);
}

#[test]
fn delimiters_and_operators() {
    assert_eq!(
        kinds(", ; ( ) [ ] { } + - * / ."),
        vec![
            TokenType::COMMA,
            TokenType::SEMICOLON,
            TokenType::LPAR,
            TokenType::RPAR,
            TokenType::LBRACKET,
            TokenType::RBRACKET,
            TokenType::LACC,
            TokenType::RACC,
            TokenType::ADD,
            TokenType::SUB,
            TokenType::MUL,
            TokenType::DIV,
            TokenType::DOT,
            TokenType::EOF
        ]
    );
    assert_eq!(
        kinds("&& || ! = == != < <= > >="),
        vec![
            TokenType::AND,
            TokenType::OR,
            TokenType::NOT,
            TokenType::ASSIGN,
            TokenType::EQUAL,
            TokenType::NOTEQ,
            TokenType::LESS,
            TokenType::LESSEQ,
            TokenType::GREATER,
            TokenType::GREATEREQ,
            TokenType::EOF
        ]
    );
    assert_eq!(texts("a<=b==c"), vec!["a", "<=", "b", "==", "c", ""]);
    assert_eq!(
        kinds("a===b"),
        vec![TokenType::ID, TokenType::EQUAL, TokenType::ASSIGN, TokenType::ID, TokenType::EOF]
    );
}

#[test]
fn lone_ampersand_and_bar_are_illegal() {
    assert_eq!(kinds("a & b"), vec![TokenType::ID, TokenType::ILLEGAL, TokenType::ID, TokenType::EOF]);
    assert_eq!(kinds("|"), vec![TokenType::ILLEGAL, TokenType::EOF]);
    assert_eq!(kinds("#"), vec![TokenType::ILLEGAL, TokenType::EOF]);
    assert_eq!(texts("#"), vec!["", ""]);
}

#[test]
fn integer_literals() {
    assert_eq!(kinds("0 7 42 017 0x1F 0xff"), vec![
        TokenType::CT_INT,
        TokenType::CT_INT,
        TokenType::CT_INT,
        TokenType::CT_INT,
        TokenType::CT_INT,
        TokenType::CT_INT,
        TokenType::EOF
    ]);
    assert_eq!(texts("0 7 42 017 0x1F 0xff"), vec!["0", "7", "42", "017", "0x1F", "0xff", ""]);
    // an octal number ends before a digit that is not octal
    assert_eq!(texts("0189"), vec!["01", "89", ""]);
    assert_eq!(texts("12ab"), vec!["12", "ab", ""]);
}

#[test]
fn real_literals() {
    assert_eq!(kinds("1.5 0.25 3e8 2.5e-3 7E+2"), vec![
        TokenType::CT_REAL,
        TokenType::CT_REAL,
        TokenType::CT_REAL,
        TokenType::CT_REAL,
        TokenType::CT_REAL,
        TokenType::EOF
    ]);
    assert_eq!(texts("1.5 0.25 3e8 2.5e-3 7E+2"), vec!["1.5", "0.25", "3e8", "2.5e-3", "7E+2", ""]);
    // a fraction needs a digit, and so does an exponent
    assert_eq!(kinds("1.")[0], TokenType::ILLEGAL);
    assert_eq!(kinds("1e")[0], TokenType::ILLEGAL);
    assert_eq!(kinds("1.5e+")[0], TokenType::ILLEGAL);
    assert_eq!(texts("1.")[0], "");
}

#[test]
fn char_literals() {
    assert_eq!(kinds("'a' '\\n' '\\'' '\\\\' '\\0'"), vec![
        TokenType::CT_CHAR,
        TokenType::CT_CHAR,
        TokenType::CT_CHAR,
        TokenType::CT_CHAR,
        TokenType::CT_CHAR,
        TokenType::EOF
    ]);
    assert_eq!(texts("'a' '\\n' '\\''"), vec!["a", "\\n", "\\'", ""]);
    assert_eq!(kinds("''")[0], TokenType::ILLEGAL);
    assert_eq!(kinds("'ab'")[0], TokenType::ILLEGAL);
    assert_eq!(kinds("'\\q'")[0], TokenType::ILLEGAL);
    assert_eq!(kinds("'a")[0], TokenType::ILLEGAL);
    assert_eq!(kinds("'\u{e9}'")[0], TokenType::ILLEGAL);
}

#[test]
fn string_literals() {
    assert_eq!(kinds("\"hello\" \"\" \"a\\tb\\\"c\""), vec![
        TokenType::CT_STRING,
        TokenType::CT_STRING,
        TokenType::CT_STRING,
        TokenType::EOF
    ]);
    assert_eq!(texts("\"hello\" \"\" \"a\\tb\\\"c\""), vec!["hello", "", "a\\tb\\\"c", ""]);
    assert_eq!(kinds("\"open")[0], TokenType::ILLEGAL);
    assert_eq!(kinds("\"bad \\q escape\"")[0], TokenType::ILLEGAL);
    assert_eq!(kinds("\"caf\u{e9}\"")[0], TokenType::ILLEGAL);
}

#[test]
fn every_escape_is_known() {
    for c in ['a', 'b', 'f', 'n', 'r', 't', 'v', '\'', '?', '"', '\\', '0'] {
        assert!(Lexer::is_escape(c), "{:?}", c);
    }
    for c in ['c', 'x', '1', ' ', 'A'] {
        assert!(!Lexer::is_escape(c), "{:?}", c);
    }
    assert!(Lexer::is_decimal('0') && Lexer::is_decimal('9') && !Lexer::is_decimal('a'));
    assert!(Lexer::is_octal('7') && !Lexer::is_octal('8'));
    assert!(Lexer::is_hex('f') && Lexer::is_hex('A') && Lexer::is_hex('5') && !Lexer::is_hex('g'));
}

#[test]
fn comments_and_blanks_are_skipped() {
    assert_eq!(texts("a // rest of line\nb"), vec!["a", "b", ""]);
    assert_eq!(texts("a /* in\nbetween */ b"), vec!["a", "b", ""]);
    assert_eq!(texts("a/**/b"), vec!["a", "b", ""]);
    assert_eq!(texts("  \t\r\n  "), vec![""]);
    assert_eq!(texts("a / b"), vec!["a", "/", "b", ""]);
    assert_eq!(texts("/* a */ /* b */ // c"), vec![""]);
}

#[test]
fn block_comment_stays_open_over_lines() {
    let mut lexer = Lexer::new(String::new());
    lexer.set_input(String::from("int a; /* starts here"));
    assert_eq!(lexer.next_token().kind, TokenType::INT);
    assert_eq!(lexer.next_token().kind, TokenType::ID);
    assert_eq!(lexer.next_token().kind, TokenType::SEMICOLON);
    assert_eq!(lexer.next_token().kind, TokenType::EOF);
    assert!(lexer.block_comment);
    lexer.set_input(String::from("still inside"));
    assert_eq!(lexer.next_token().kind, TokenType::EOF);
    lexer.set_input(String::from("ends */ int b;"));
    let tok = lexer.next_token();
    assert_eq!(tok.kind, TokenType::INT);
    assert_eq!(tok.line, 3);
    assert_eq!(tok.column, 9);
    assert!(!lexer.block_comment);
    assert_eq!(lexer.get_line(), 3);
}

#[test]
fn lines_and_columns() {
    let toks = lex("int x;\n  x = 1;");
    let places: Vec<(i32, i32)> = toks.iter().map(|t| (t.line, t.column)).collect();
    assert_eq!(places, vec![(0, 1), (0, 5), (0, 6), (1, 3), (1, 5), (1, 7), (1, 8), (1, 9)]);
    let mut lexer = Lexer::new(String::new());
    assert_eq!(lexer.get_line(), 0);
    lexer.set_input(String::from("a"));
    assert_eq!(lexer.get_line(), 1);
    let tok = lexer.next_token();
    assert_eq!((tok.line, tok.column), (1, 1));
}

#[test]
fn end_of_input_repeats() {
    let mut lexer = Lexer::new(String::from("x"));
    assert_eq!(lexer.next_token().kind, TokenType::ID);
    assert_eq!(lexer.next_token().kind, TokenType::EOF);
    assert_eq!(lexer.next_token().kind, TokenType::EOF);
    let mut empty = Lexer::new(String::new());
    let tok = empty.next_token();
    assert_eq!(tok, Token { kind: TokenType::EOF, literal: String::new(), line: 0, column: 1 });
}

fn parse(source: &str) -> (Verdict, Parser) {
    let mut parser = Parser::new(lex(source));
    let verdict = parser.parse_unit();
    (verdict, parser)
}

#[test]
fn scanned_program_is_accepted() {
    let source = "
        struct Point { int x; int y; };
        struct Point origin;
        double scale[10];
        /* the distance, more or less */
        int dist(struct Point p, int bias) {
            int d;
            d = p.x * p.x + p.y * p.y;   // no square root here
            if (d < 0 || bias == 0) return 0; else d = d + bias;
            while (d > 100) { d = d / 2; }
            for (d = 0; d < 10; d = d + 1) { scale[d] = (double)d * 1.5e1; }
            return -d;
        }
        void main() {
            put_i(dist(origin, 3));
            put_s(\"done\\n\");
            put_c('\\n');
        }
    ";
    let (verdict, parser) = parse(source);
    assert_eq!(verdict, Verdict::Match);
    assert_eq!(parser.current_token_index, parser.tokens.len());
    let names: Vec<&str> =
        parser.symbols_table.table.iter().skip(8).map(|s| s.name.as_str()).collect();
    assert_eq!(names, vec!["Point", "origin", "scale", "dist", "main"]);
    let dist = parser.symbols_table.find_symbol("dist").unwrap();
    let args = &dist.args.as_ref().unwrap().table;
    assert_eq!(args.len(), 2);
    assert_eq!(args[0].ty, Some(Type { type_base: TypeBase::Struct, s: Some(8), n_elements: -1 }));
    assert_eq!(args[1].ty, Some(Type::new(TypeBase::Int, -1)));
}

#[test]
fn illegal_token_is_no_unit() {
    let (verdict, _) = parse("int x; # int y;");
    assert_eq!(verdict, Verdict::NoMatch);
    assert_eq!(parse("int x = ;").0, Verdict::NoMatch);
    let (verdict, parser) = parse("void f() {\n  y = 1; }");
    assert_eq!(verdict, Verdict::Fail(Violation { error: SemanticError::UndefinedSymbol, at: 5 }));
    let d = parser.diagnose(verdict).unwrap();
    assert_eq!((d.line, d.column), (1, 3));
    assert_eq!(d.message, "undefined symbol");
}

#[test]
fn literals_carry_their_values() {
    let parser = Parser::new(lex("42 1.5 'c' \"hi\" 99999999999999999999 0x10 '\\n'"));
    let expect = |pos: usize| match parser.expr(pos) {
        minic::parser::Outcome::Match(next, rv) => {
            assert_eq!(next, pos + 1);
            assert!(rv.is_ctval && !rv.is_lval);
            rv
        }
        other => panic!("{:?}", other),
    };
    let int = expect(0);
    assert_eq!(int.ty, Type::new(TypeBase::Int, -1));
    assert_eq!(int.ct_val, Some(CtVal::Int(42)));
    let real = expect(1);
    assert_eq!(real.ty, Type::new(TypeBase::Double, -1));
    assert_eq!(real.ct_val, Some(CtVal::Double(String::from("1.5"))));
    let ch = expect(2);
    assert_eq!(ch.ty, Type::new(TypeBase::Char, -1));
    assert_eq!(ch.ct_val, Some(CtVal::Char('c')));
    let st = expect(3);
    assert_eq!(st.ty, Type::new(TypeBase::Char, 0));
    assert_eq!(st.ct_val, Some(CtVal::Str(String::from("hi"))));
    // a number that does not fit and an escape have no value
    assert_eq!(expect(4).ct_val, None);
    assert_eq!(expect(5).ct_val, Some(CtVal::Int(16)));
    assert_eq!(expect(6).ct_val, None);
}

#[test]
fn integer_literals_have_the_value_of_their_base() {
    assert_eq!(int_literal("0"), Some(0));
    assert_eq!(int_literal("7"), Some(7));
    assert_eq!(int_literal("1234567890"), Some(1234567890));
    assert_eq!(int_literal("017"), Some(15));
    assert_eq!(int_literal("00"), Some(0));
    assert_eq!(int_literal("0x1F"), Some(31));
    assert_eq!(int_literal("0xff"), Some(255));
    assert_eq!(int_literal("0xAbC"), Some(2748));
    assert_eq!(int_literal("9223372036854775807"), Some(i64::MAX));
    assert_eq!(int_literal("9223372036854775808"), None);
    assert_eq!(int_literal("0x7fffffffffffffff"), Some(i64::MAX));
    assert_eq!(int_literal("0x8000000000000000"), None);
    assert_eq!(int_literal("0777777777777777777777"), Some(i64::MAX));
    assert_eq!(int_literal("01000000000000000000000"), None);
    assert_eq!(int_literal(""), None);
    assert_eq!(int_literal("0x"), None);
    assert_eq!(int_literal("08"), None);
    assert_eq!(int_literal("12a"), None);
    assert_eq!(int_literal("0xg"), None);
    assert_eq!(int_literal("-1"), None);
    assert_eq!(char_literal("a"), Some('a'));
    assert_eq!(char_literal(""), None);
    assert_eq!(char_literal("\\n"), None);
}

#[test]
fn scan_line_collects_the_tokens_of_each_line() {
    let mut lexer = Lexer::new(String::new());
    let mut tokens = vec![Token {
        kind: TokenType::ID,
        literal: String::from("kept"),
        line: 0,
        column: 1,
    }];
    for line in ["int x; /* a comment", "that goes on */ x = 2;", "", "// nothing", "}"] {
        lexer.set_input(String::from(line));
        lexer.scan_line(&mut tokens);
    }
    tokens.push(lexer.end_token());
    let seen: Vec<(TokenType, &str, i32, i32)> =
        tokens.iter().map(|t| (t.kind, t.literal.as_str(), t.line, t.column)).collect();
    assert_eq!(
        seen,
        vec![
            (TokenType::ID, "kept", 0, 1),
            (TokenType::INT, "int", 1, 1),
            (TokenType::ID, "x", 1, 5),
            (TokenType::SEMICOLON, ";", 1, 6),
            (TokenType::ID, "x", 2, 17),
            (TokenType::ASSIGN, "=", 2, 19),
            (TokenType::CT_INT, "2", 2, 21),
            (TokenType::SEMICOLON, ";", 2, 22),
            (TokenType::RACC, "}", 5, 1),
            (TokenType::EOF, "EOF", 5, 1),
        ]
    );
    // the scanner stands at the end of its text
    assert_eq!(lexer.next_token().kind, TokenType::EOF);
    // what it collects is what token after token gives
    let source = "while (a<=b) { a = a + 0x1F; } // end";
    let mut all = Vec::new();
    Lexer::new(String::from(source)).scan_line(&mut all);
    let mut one_by_one = lex(source);
    assert_eq!(one_by_one.pop().unwrap().kind, TokenType::EOF);
    assert_eq!(all, one_by_one);
}

#[test]
fn long_text_is_scanned_quickly() {
    let mut source = String::new();
    for i in 0..20000 {
        source.push_str(&format!("int v{} ; // line {}\n", i, i));
    }
    let toks = lex(&source);
    assert_eq!(toks.len(), 3 * 20000 + 1);
    assert_eq!(toks[3 * 19999 + 1].literal, "v19999");
    assert_eq!(toks[3 * 19999 + 1].line, 19999);
    let mut parser = Parser::new(toks);
    assert!(parser.unit());
}

#[test]
fn text_beyond_ascii() {
    // outside literals a character beyond ASCII is no token; what stands
    // around it is scanned as ever
    let toks = lex("int \u{e9}t\u{e9} = 1; // caf\u{e9}\nx");
    let seen: Vec<(TokenType, &str, i32, i32)> =
        toks.iter().map(|t| (t.kind, t.literal.as_str(), t.line, t.column)).collect();
    assert_eq!(
        seen,
        vec![
            (TokenType::INT, "int", 0, 1),
            (TokenType::ILLEGAL, "", 0, 5),
            (TokenType::ID, "t", 0, 6),
            (TokenType::ILLEGAL, "", 0, 7),
            (TokenType::ASSIGN, "=", 0, 9),
            (TokenType::CT_INT, "1", 0, 11),
            (TokenType::SEMICOLON, ";", 0, 12),
            (TokenType::ID, "x", 1, 1),
            (TokenType::EOF, "", 1, 2),
        ]
    );
}
