use ebnf_parser::parse_error::{ErrorKind, ParseError};
use ebnf_parser::parser::Parser;
use ebnf_parser::scanner::Scanner;

fn parser_for(text: &str) -> Parser {
    let mut s = Scanner::new(text);
    s.scan_all();
    Parser::new(s)
}

fn err(kind: ErrorKind, line: i32) -> ParseError {
    ParseError { kind, line }
}

#[test]
fn program_errors() {
    let cases: Vec<(&str, ErrorKind, i32)> = vec![
        ("void x() {\n}\n", ErrorKind::MainMissingMain, 0),
        ("void main {\n}\n", ErrorKind::MainMissingOpenParen, 0),
        ("void main ( {\n}\n", ErrorKind::MainMissingCloseParen, 0),
        ("void main ( ) x\n", ErrorKind::MissingOpenBrace, 0),
        ("int 5;\nvoid main() {\n}\n", ErrorKind::IdentifierExpected, 0),
        ("int a = 1.5\nvoid main() {\n}\n", ErrorKind::ExpectedSemicolon, 1),
        ("void main() {\n( ;\n}\n", ErrorKind::InvalidStatement, 1),
        ("void main() {\nreturn ;\n}\n", ErrorKind::ReturnMissingExpression, 1),
        ("void main() {\nwhile ( ) {\n}\n}\n", ErrorKind::WhileMissingExpression, 1),
        ("void main() {\nwhile x\n}\n", ErrorKind::WhileMissingOpenParen, 1),
        ("void main() {\nif ( ) {\n}\n}\n", ErrorKind::IfMissingExpression, 1),
        ("void main() {\nif (a {\n}\n}\n", ErrorKind::IfMissingCloseParen, 1),
        ("void main() {\na < ( ;\n}\n", ErrorKind::RelOpOperandExpected, 1),
        ("void main() {\nf(1;\n}\n", ErrorKind::MissingCloseParen, 1),
        ("void main() {\nx = 1.5\n}\n", ErrorKind::ExpectedSemicolon, 2),
        ("int f(unsigned x);\nvoid main() {\n}\n", ErrorKind::ExpectedTypeAfterUnsigned, 0),
        ("unsigned x int;\nvoid main() {\n}\n", ErrorKind::MainMissingVoid, 0),
        ("void main() {\n}\nx\n", ErrorKind::TrailingInput, 2),
    ];
    for (text, kind, line) in cases {
        let mut p = parser_for(text);
        assert_eq!(p.program(), Err(err(kind, line)), "input {:?}", text);
    }
}

#[test]
fn direct_calls_refuse() {
    let mut p = parser_for("x = 1;\n");
    assert_eq!(p.decl(), Err(err(ErrorKind::ExpectedDataType, 0)));
    let mut p = parser_for("x = 1;\n");
    assert_eq!(p.param_block(), Err(err(ErrorKind::ParamBlockOpenParen, 0)));
    let mut p = parser_for("1 = 1;\n");
    assert_eq!(p.assign(), Err(err(ErrorKind::ExpectedVariable, 0)));
    let mut p = parser_for("a b;\n");
    assert_eq!(p.assign(), Err(err(ErrorKind::MissingAssignEquals, 0)));
    let mut p = parser_for("x ( a ) { }\n");
    assert_eq!(p.while_loop(), Err(err(ErrorKind::WhileMissingKeyword, 0)));
    let mut p = parser_for("x ( a ) { }\n");
    assert_eq!(p.if_stmnt(), Err(err(ErrorKind::IfMissingKeyword, 0)));
    let mut p = parser_for("x ( a ) { }\n");
    assert_eq!(p.block(), Err(err(ErrorKind::MissingOpenBrace, 0)));
    let mut p = parser_for("int 3;\n");
    assert_eq!(p.decl_type(), Err(err(ErrorKind::IdentifierExpected, 0)));
    let mut p = parser_for("= 2 ;\n");
    assert_eq!(p.var_decl(), Err(err(ErrorKind::ConstantExpected, 0)));
    let mut p = parser_for("( ) x\n");
    assert_eq!(p.func_decl(), Err(err(ErrorKind::ExpectedSemicolon, 0)));
    let mut p = parser_for("int ;\n");
    assert_eq!(p.param(), Err(err(ErrorKind::ParamIdentifierExpected, 0)));
    let mut p = parser_for("a = ;\nb\n");
    assert_eq!(p.stmnt(), Err(err(ErrorKind::ExpressionExpected, 0)));
    let mut p = parser_for("foo(1 x\n");
    assert_eq!(p.factor(), Err(err(ErrorKind::MissingCloseParen, 0)));
}

#[test]
fn successful_pieces() {
    let mut p = parser_for("= 2.5 ;\n");
    assert_eq!(p.var_decl(), Ok(true));
    let mut p = parser_for("( float a) ;\n");
    assert_eq!(p.func_decl(), Ok(true));
    let mut p = parser_for("return a + 1 ;\n");
    assert_eq!(p.ret_stmnt(), Ok(true));
    let mut p = parser_for("int g( ) { return 0; }\n");
    assert_eq!(p.func_def(), Ok(true));
    let mut p = parser_for("double d;\n");
    assert_eq!(p.decl_type(), Ok(true));
    assert!(p.expect_str(";".to_string()));
    let mut p = parser_for("x y\n");
    assert_eq!(p.param(), Ok(false));
    assert_eq!(p.get_num_parsed(), 0);
}
