use ebnf_parser::parse_error::{ErrorKind, ParseError};
use ebnf_parser::parser::Parser;
use ebnf_parser::scanner::Scanner;
use ebnf_parser::token::{Token, TokenType};

fn parser_for(text: &str) -> Parser {
    let mut s = Scanner::new(text);
    s.scan_all();
    Parser::new(s)
}

fn drain(p: &mut Parser) -> Vec<Token> {
    let mut out = Vec::new();
    while let Some(t) = p.out_token() {
        out.push(t);
    }
    out
}

const PROGRAM: &str = "int f(int a);\nvoid main() {\n  float y = 2.5;\n  x = f(3) + 4 * 2;\n  while (x < 10) {\n    x = x + 1;\n  }\n  return x;\n}\n";

#[test]
fn parses_a_program() {
    let mut p = parser_for(PROGRAM);
    assert_eq!(p.program(), Ok(()));
    let toks = drain(&mut p);
    assert_eq!(p.get_num_parsed() as usize, toks.len());
    let texts: Vec<&str> = toks.iter().map(|t| t.get_text()).collect();
    assert_eq!(
        texts,
        vec![
            "int", "f", "(", "int", "a", ")", ";", "void", "main", "(", ")", "{", "float", "y",
            "=", "2.5", ";", "x", "=", "f", "(", "3", ")", "+", "4", "*", "2", ";", "while", "(",
            "x", "<", "10", ")", "{", "x", "=", "x", "+", "1", ";", "}", "return", "x", ";", "}"
        ]
    );
    // Called and declared functions are retyped; plain identifiers stay variables.
    assert_eq!(toks[1].get_type(), TokenType::FUNCTION);
    assert_eq!(toks[4].get_type(), TokenType::VARIABLE);
    assert_eq!(toks[19].get_type(), TokenType::FUNCTION);
    assert_eq!(toks[17].get_type(), TokenType::VARIABLE);
    assert_eq!(toks[15].get_type(), TokenType::FLOATCONSTANT);
    assert_eq!(toks[21].get_type(), TokenType::INTCONSTANT);
    assert_eq!(toks[0].get_line_number(), 0);
    assert_eq!(toks[45].get_line_number(), 8);
}

#[test]
fn minimal_program() {
    let mut p = parser_for("void main() {\n}\n");
    assert_eq!(p.program(), Ok(()));
    assert_eq!(p.get_num_parsed(), 6);
}

#[test]
fn integer_initialiser_is_refused() {
    let mut p = parser_for("void main() {\n  int x = 2;\n}\n");
    assert_eq!(p.program(), Err(ParseError { kind: ErrorKind::ConstantExpected, line: 1 }));
}

#[test]
fn missing_expression_in_assignment() {
    let mut p = parser_for("void main() {\n  x = ;\n}\n");
    assert_eq!(p.program(), Err(ParseError { kind: ErrorKind::ExpressionExpected, line: 1 }));
}

#[test]
fn missing_void() {
    let mut p = parser_for("main() {\n}\n");
    assert_eq!(p.program(), Err(ParseError { kind: ErrorKind::MainMissingVoid, line: 0 }));
}

#[test]
fn missing_semicolon_after_declaration() {
    let mut p = parser_for("int a\nvoid main() {\n}\n");
    assert_eq!(
        p.program(),
        Err(ParseError { kind: ErrorKind::MissingDeclContinuation, line: 1 })
    );
}

#[test]
fn unsigned_needs_a_type() {
    let mut p = parser_for("void main() {\n unsigned float x;\n}\n");
    // `unsigned float` does not start a declaration, and is no statement either.
    assert_eq!(p.program(), Err(ParseError { kind: ErrorKind::MissingCloseBrace, line: 1 }));
    let mut q = parser_for("unsigned float x;\n");
    assert_eq!(q.int_type(), Err(ParseError { kind: ErrorKind::ExpectedTypeAfterUnsigned, line: 0 }));
}

#[test]
fn check_decl_does_not_consume() {
    let mut p = parser_for("int x;\n");
    assert!(p.check_decl());
    assert!(p.check_decl());
    assert_eq!(p.get_num_parsed(), 0);
    assert_eq!(p.decl(), Ok(true));
    assert_eq!(p.get_num_parsed(), 3);
}

#[test]
fn check_decl_after_unsigned_looks_at_the_next_token() {
    let mut p = parser_for("unsigned int ab;\n");
    assert!(p.check_decl());
    assert_eq!(p.get_num_parsed(), 0);
    let mut q = parser_for("unsigned x int;\n");
    assert!(!q.check_decl());
    let mut r = parser_for("unsigned\n");
    assert!(!r.check_decl());
}

#[test]
fn expect_str_and_type() {
    let mut p = parser_for("a + 1;\n");
    assert!(!p.expect_str("b".to_string()));
    assert_eq!(p.get_num_parsed(), 0);
    assert!(p.expect_tok_type(TokenType::VARIABLE));
    assert!(!p.expect_tok_type(TokenType::VARIABLE));
    assert!(p.expect_str("+".to_string()));
    assert!(p.expect_tok_type(TokenType::INTCONSTANT));
    assert_eq!(p.get_num_parsed(), 3);
}

#[test]
fn expressions() {
    let mut p = parser_for("( a * 2) == f(b, 3.5) ;\n");
    assert_eq!(p.expr(), Ok(true));
    assert!(p.expect_str(";".to_string()));
    let mut q = parser_for(") ;\n");
    assert_eq!(q.expr(), Ok(false));
    assert_eq!(q.get_num_parsed(), 0);
    let mut r = parser_for("a + ; b\n");
    assert_eq!(r.smpl_expr(), Err(ParseError { kind: ErrorKind::InvalidTerm, line: 0 }));
    let mut t = parser_for("a *\n; b\n");
    assert_eq!(t.term(), Err(ParseError { kind: ErrorKind::InvalidFactor, line: 1 }));
    // With nothing after the operator the second operand is not looked for.
    let mut u = parser_for("a + ;\n");
    assert_eq!(u.smpl_expr(), Ok(true));
}

#[test]
fn chained_assignment_records_every_token() {
    let mut p = parser_for("a = b = 5;\n");
    assert_eq!(p.assign(), Ok(true));
    assert_eq!(p.get_num_parsed(), 6);
    let texts: Vec<String> = drain(&mut p).iter().map(|t| t.get_text().to_string()).collect();
    assert_eq!(texts, vec!["a", "=", "b", "=", "5", ";"]);
}

#[test]
fn successful_parse_hands_out_the_whole_input() {
    let mut sc = Scanner::new(PROGRAM);
    sc.scan_all();
    let scanned: Vec<(String, i32)> =
        sc.tokens().iter().map(|t| (t.get_text().to_string(), t.get_line_number())).collect();
    let mut p = Parser::new(sc);
    assert_eq!(p.program(), Ok(()));
    assert_eq!(p.get_num_parsed() as usize, scanned.len());
    let out: Vec<(String, i32)> =
        drain(&mut p).iter().map(|t| (t.get_text().to_string(), t.get_line_number())).collect();
    assert_eq!(out, scanned);
}

#[test]
fn text_after_the_program_is_refused() {
    let mut p = parser_for("void main() {\n}\nx\n");
    assert_eq!(p.program(), Err(ParseError { kind: ErrorKind::TrailingInput, line: 2 }));
}

#[test]
fn nothing_is_accepted_after_the_last_token() {
    let mut p = parser_for("void main ( ) { x = 1 ; int f ( ) { }\n");
    assert_eq!(p.program(), Err(ParseError { kind: ErrorKind::MissingCloseBrace, line: 0 }));
}

#[test]
fn operators_and_types() {
    let mut p = parser_for("<= + / double char\n");
    assert!(p.rel_op());
    assert!(!p.rel_op());
    assert!(p.add_op());
    assert!(p.mult_op());
    assert!(p.float_type());
    assert_eq!(p.data_type(), Ok(true));
    assert_eq!(p.get_num_parsed(), 5);
}

#[test]
fn constants_accept_only_floats() {
    let mut p = parser_for("1.5 2\n");
    assert!(p.constant());
    assert!(!p.constant());
}

#[test]
fn if_and_while_statements() {
    let mut p = parser_for("if (a) { return 1; } while (b) { }\n");
    assert_eq!(p.if_stmnt(), Ok(true));
    assert_eq!(p.while_loop(), Ok(true));
    let mut q = parser_for("if a\n");
    assert_eq!(q.if_stmnt(), Err(ParseError { kind: ErrorKind::IfMissingOpenParen, line: 0 }));
    let mut r = parser_for("while (a {\n");
    assert_eq!(r.while_loop(), Err(ParseError { kind: ErrorKind::WhileMissingCloseParen, line: 0 }));
}

#[test]
fn blocks_with_nested_function_definitions() {
    let mut p = parser_for("{ int a; a = 1; int g(int b, float c) { return b; } }\n");
    assert_eq!(p.block(), Ok(true));
    let mut q = parser_for("{ a = 1;\n");
    assert_eq!(q.block(), Err(ParseError { kind: ErrorKind::MissingCloseBrace, line: 0 }));
}

#[test]
fn parameter_blocks() {
    let mut p = parser_for("( int a, long b) x\n");
    assert_eq!(p.param_block(), Ok(true));
    let mut q = parser_for("( int a, ) x\n");
    assert_eq!(q.param_block(), Ok(true));
    let mut r = parser_for("( int) x\n");
    assert_eq!(r.param_block(), Err(ParseError { kind: ErrorKind::ParamIdentifierExpected, line: 0 }));
}

#[test]
fn output_cursor_reports_lines() {
    let mut p = parser_for("void main() {\n}\n");
    assert_eq!(p.program(), Ok(()));
    assert_eq!(p.peek_ahead_token(), Some(0));
    let first = p.out_token().unwrap();
    assert_eq!(first.get_text(), "void");
    for _ in 0..4 {
        p.out_token();
    }
    assert_eq!(p.peek_ahead_token(), Some(1));
    assert_eq!(p.out_token().unwrap().get_text(), "}");
    assert_eq!(p.peek_ahead_token(), None);
    assert!(p.out_token().is_none());
}

#[test]
fn function_names_are_followed_by_open_paren() {
    let mut p = parser_for(PROGRAM);
    assert_eq!(p.program(), Ok(()));
    let toks = drain(&mut p);
    let mut marked = 0;
    for i in 0..toks.len() {
        if toks[i].get_type() == TokenType::FUNCTION {
            marked += 1;
            assert_eq!(toks[i + 1].get_text(), "(");
        }
    }
    assert_eq!(marked, 2);
}

#[test]
fn out_token_hands_out_in_order_then_nothing() {
    let mut p = parser_for("void main() {\n}\n");
    assert_eq!(p.program(), Ok(()));
    let expected = ["void", "main", "(", ")", "{", "}"];
    for k in 0..expected.len() {
        assert_eq!(p.out_token().unwrap().get_text(), expected[k]);
        assert_eq!(p.get_num_parsed(), 6);
    }
    assert!(p.out_token().is_none());
    assert!(p.out_token().is_none());
    assert_eq!(p.get_num_parsed(), 6);
}

#[test]
fn scan_and_parse_checks_then_parses() {
    let (mut p, res) = ebnf_parser::parse_safety::scan_and_parse(PROGRAM).unwrap();
    assert_eq!(res, Ok(()));
    assert_eq!(drain(&mut p).len(), 46);
    let (_, res) = ebnf_parser::parse_safety::scan_and_parse("void main() {\nab = 1\n}\n").unwrap();
    assert_eq!(res, Err(ParseError { kind: ErrorKind::ExpectedSemicolon, line: 2 }));
    assert!(ebnf_parser::parse_safety::scan_and_parse("void main() {}").is_none());
    assert!(ebnf_parser::parse_safety::scan_and_parse("\n").is_none());
}
