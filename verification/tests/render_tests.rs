use ebnf_parser::parser::Parser;
use ebnf_parser::render::render_xhtml;
use ebnf_parser::scanner::Scanner;

const HEADER: &str = "<!DOCTYPE html PUBLIC \"-//W3C//DTD XHTML 1.0 Transitional//EN\" \"http://www.w3.org/TR/xhtml1/DTD/xhtml1-transitional.dtd\">\n<html xmlns=\"http://www.w3.org/1999/xhtml\" xml:lang=\"en\">\n<head>\n<title>\nX Formatted file</title>\n</head>\n<body bgcolor=\"navy\" text=\"yellow\" link=\"yellow\" vlink=\"yellow\">\n<font face=\"Courier New\">\n";
const FOOTER: &str = "</font>\n</body>\n</html>\n";

fn parsed(text: &str) -> Parser {
    let mut s = Scanner::new(text);
    s.scan_all();
    let mut p = Parser::new(s);
    assert_eq!(p.program(), Ok(()));
    p
}

#[test]
fn renders_a_small_program() {
    let mut p = parsed("void main() {\n x = 1.5;\n}\n");
    let page = render_xhtml(&mut p).unwrap();
    let body = [
        "<font color=\"white\"><b>void</b></font> ",
        "<font color=\"white\"><b>main</b></font> ",
        "<font color=\"white\"><b>(</b></font> ",
        "<font color=\"white\"><b>)</b></font> ",
        "<font color=\"white\"><b>{</b></font> <br />\n",
        "&nbsp;&nbsp; &nbsp;<font color=\"yellow\">x</font> ",
        "<font color=\"white\"><b>=</b></font> ",
        "<font color=\"aqua\"><b>1.5</b></font> ",
        "<font color=\"white\"><b>;</b></font> <br />\n",
        "<font color=\"white\"><b>}</b></font> ",
    ]
    .join("");
    assert_eq!(page, format!("{}{}{}", HEADER, body, FOOTER));
    assert!(p.out_token().is_none());
}

#[test]
fn nested_blocks_indent_deeper() {
    let mut p = parsed("void main() {\nwhile (a) {\nf(1);\n}\n}\n");
    let page = render_xhtml(&mut p).unwrap();
    assert!(page.contains("<br />\n&nbsp; &nbsp;&nbsp; &nbsp;<font color=\"orange\">f</font> "));
    assert!(page.contains("<br />\n&nbsp;&nbsp; &nbsp;<font color=\"white\"><b>}</b></font> "));
    assert!(page.ends_with(FOOTER));
}

#[test]
fn uncoloured_token_is_not_rendered() {
    // `!` alone is no lexeme of the language: it is recorded without a type,
    // which has no colour.
    let mut s = ebnf_parser::scanner::Scanner::new("! x\n");
    s.scan_all();
    let mut p = ebnf_parser::parser::Parser::new(s);
    assert!(p.expect_tok_type(ebnf_parser::token::TokenType::INVALID));
    assert!(render_xhtml(&mut p).is_none());
}
