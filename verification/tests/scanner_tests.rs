use ebnf_parser::scan_safety::is_scannable;
use ebnf_parser::character_stream::CharStream;
use ebnf_parser::scanner::Scanner;
use ebnf_parser::token::{Token, TokenType};

fn texts(tokens: &Vec<Token>) -> Vec<String> {
    tokens.iter().map(|t| t.get_text().to_string()).collect()
}

fn types(tokens: &Vec<Token>) -> Vec<TokenType> {
    tokens.iter().map(|t| t.get_type()).collect()
}

#[test]
fn token_type_names() {
    assert_eq!(TokenType::KEYWORD.as_str(), "Keyword");
    assert_eq!(TokenType::OPERATOR.as_str(), "Operator");
    assert_eq!(TokenType::INTCONSTANT.as_str(), "IntConstant");
    assert_eq!(TokenType::FLOATCONSTANT.as_str(), "FloatConstant");
    assert_eq!(TokenType::VARIABLE.as_str(), "Variable");
    assert_eq!(TokenType::FUNCTION.as_str(), "Function");
    assert_eq!(TokenType::INVALID.as_str(), "Invalid");
    assert_eq!(TokenType::NONE.as_str(), "None");
}

#[test]
fn token_accessors() {
    let mut t = Token::new("abc".to_string(), TokenType::VARIABLE, 3, 7);
    assert_eq!(t.get_text(), "abc");
    assert_eq!(t.get_type(), TokenType::VARIABLE);
    assert_eq!(t.get_line_number(), 3);
    assert_eq!(t.get_char_pos(), 7);
    t.set_token_type(TokenType::FUNCTION);
    assert_eq!(t.get_type(), TokenType::FUNCTION);
}

#[test]
fn char_stream_walks_text() {
    let mut cs = CharStream::new("ab\ncd");
    assert_eq!(cs.get_len(), 5);
    assert!(cs.more_available());
    assert_eq!(cs.get_cur_char(), Some('a'));
    assert_eq!(cs.peek_next_char(), Some('b'));
    assert_eq!(cs.peek_ahead_char(0), Some('b'));
    assert_eq!(cs.peek_ahead_char(2), Some('c'));
    assert_eq!(cs.get_next_char(), Some('b'));
    assert_eq!(cs.get_idx(), 1);
    assert_eq!(cs.get_line_no(), 0);
    assert_eq!(cs.get_next_char(), Some('\n'));
    assert_eq!(cs.get_next_char(), Some('c'));
    assert_eq!(cs.get_line_no(), 1);
    assert_eq!(cs.get_next_char(), Some('d'));
    assert_eq!(cs.get_idx(), 4);
    assert!(!cs.more_available());
    assert_eq!(cs.peek_next_char(), None);
    assert_eq!(cs.get_cur_char(), Some('d'));
    assert_eq!(cs.get_next_char(), None);
    assert_eq!(cs.get_idx(), 4);
}

#[test]
fn peek_ahead_is_relative_to_the_index() {
    let mut cs = CharStream::new("abcd");
    assert_eq!(cs.peek_ahead_char(0), cs.peek_next_char());
    cs.get_next_char();
    assert_eq!(cs.get_idx(), 1);
    assert_eq!(cs.peek_ahead_char(0), cs.peek_next_char());
    assert_eq!(cs.peek_ahead_char(0), Some('c'));
    assert_eq!(cs.peek_ahead_char(1), Some('d'));
    assert_eq!(cs.peek_ahead_char(2), None);
    assert_eq!(cs.peek_ahead_char(5), None);
    cs.get_next_char();
    cs.get_next_char();
    assert_eq!(cs.peek_ahead_char(0), None);
    assert_eq!(cs.peek_ahead_char(0), cs.peek_next_char());
}

#[test]
fn current_character_up_to_the_last() {
    let mut cs = CharStream::new("ab");
    assert_eq!(cs.get_cur_char(), Some('a'));
    assert_eq!(cs.get_next_char(), Some('b'));
    assert_eq!(cs.get_cur_char(), Some('b'));
    assert_eq!(cs.get_idx(), 1);
    assert_eq!(cs.get_line_no(), 0);
}

#[test]
fn more_available_on_short_texts() {
    assert!(!CharStream::new("").more_available());
    assert!(!CharStream::new("a").more_available());
    assert!(CharStream::new("ab").more_available());
}

#[test]
fn line_count_follows_newlines() {
    let text = "a\n\nb\nc";
    let mut cs = CharStream::new(text);
    while cs.more_available() {
        cs.get_next_char();
        let idx = cs.get_idx() as usize;
        assert_eq!(cs.get_line_no() as usize, text[..idx].matches('\n').count());
    }
    assert_eq!(cs.get_line_no(), 3);
}

#[test]
fn one_lex_call_per_lexeme() {
    let mut sc = Scanner::new("(ab\n");
    sc.lex();
    sc.get_non_blank();
    sc.lex();
    assert_eq!(sc.get_num_tokens(), 2);
    assert_eq!(sc.get_next_token().unwrap().get_text(), "(");
    assert_eq!(sc.get_next_token().unwrap().get_text(), "ab");
    assert!(sc.get_next_token().is_none());
}

#[test]
fn one_character_text_is_accepted() {
    let mut sc = Scanner::new("a");
    assert!(!sc.check_more_available());
    sc.scan_all();
    assert_eq!(sc.get_num_tokens(), 0);
}

#[test]
fn get_class_kinds() {
    let s = Scanner::new("a\n");
    assert_eq!(s.get_class('a'), 0);
    assert_eq!(s.get_class('_'), 0);
    assert_eq!(s.get_class('7'), 1);
    assert_eq!(s.get_class('-'), 3);
    assert_eq!(s.get_class('+'), 2);
    assert_eq!(s.get_class(' '), 2);
}

#[test]
fn scans_a_declaration() {
    let mut s = Scanner::new("int x = 5;\n");
    assert!(s.check_more_available());
    s.scan_all();
    assert!(!s.check_more_available());
    assert_eq!(s.get_num_tokens(), 5);
    assert_eq!(texts(s.tokens()), vec!["int", "x", "=", "5", ";"]);
    assert_eq!(
        types(s.tokens()),
        vec![
            TokenType::KEYWORD,
            TokenType::VARIABLE,
            TokenType::OPERATOR,
            TokenType::INTCONSTANT,
            TokenType::OPERATOR
        ]
    );
    let positions: Vec<i32> = s.tokens().iter().map(|t| t.get_char_pos()).collect();
    assert_eq!(positions, vec![2, 4, 6, 8, 9]);
}

#[test]
fn scans_numbers_operators_and_lines() {
    let mut s = Scanner::new("a1_b <= 3.25 -7 !x\n y2\n");
    s.scan_all();
    assert_eq!(texts(s.tokens()), vec!["a1_b", "<=", "3.25", "-7", "!", "x", "y2"]);
    assert_eq!(
        types(s.tokens()),
        vec![
            TokenType::VARIABLE,
            TokenType::OPERATOR,
            TokenType::FLOATCONSTANT,
            TokenType::INTCONSTANT,
            TokenType::INVALID,
            TokenType::VARIABLE,
            TokenType::VARIABLE
        ]
    );
    let lines: Vec<i32> = s.tokens().iter().map(|t| t.get_line_number()).collect();
    assert_eq!(lines, vec![0, 0, 0, 0, 0, 0, 1]);
}

#[test]
fn lex_adds_one_token_per_call() {
    let mut s = Scanner::new("while (x)\n");
    s.lex();
    assert_eq!(s.get_num_tokens(), 1);
    assert_eq!(s.get_non_blank(), ' ');
    s.lex();
    assert_eq!(s.get_num_tokens(), 2);
    assert_eq!(texts(s.tokens()), vec!["while", "("]);
    assert_eq!(s.tokens()[0].get_type(), TokenType::KEYWORD);
}

#[test]
fn add_token_looks_up_reserved_lexemes() {
    let mut s = Scanner::new("a\n");
    s.add_token(&"return".to_string(), 4);
    s.add_token(&"==".to_string(), -1);
    s.add_token(&"12".to_string(), 2);
    s.add_token(&"1.5".to_string(), 3);
    s.add_token(&"?".to_string(), -1);
    assert_eq!(
        types(s.tokens()),
        vec![
            TokenType::KEYWORD,
            TokenType::OPERATOR,
            TokenType::INTCONSTANT,
            TokenType::FLOATCONSTANT,
            TokenType::INVALID
        ]
    );
}

#[test]
fn hands_out_tokens_in_order() {
    let mut s = Scanner::new("a b c\n");
    s.scan_all();
    assert_eq!(s.get_cur_num_token(), -1);
    assert_eq!(s.peek_ahead_token(0), Some("a".to_string()));
    assert_eq!(s.peek_ahead_token(2), Some("c".to_string()));
    assert_eq!(s.get_next_token().unwrap().get_text(), "a");
    assert_eq!(s.get_cur_num_token(), 0);
    assert_eq!(s.peek_ahead_token(0), Some("b".to_string()));
    assert_eq!(s.get_next_token().unwrap().get_text(), "b");
    assert_eq!(s.get_next_token().unwrap().get_text(), "c");
    assert_eq!(s.peek_ahead_token(0), None);
    assert!(s.get_next_token().is_none());
}

#[test]
fn scanner_types_identifiers_as_variables() {
    let mut s = Scanner::new("int f(int a_1);\nwhile g(x) main\n");
    s.scan_all();
    let toks = s.tokens();
    for t in toks.iter() {
        assert_ne!(t.get_type(), TokenType::FUNCTION);
    }
    assert_eq!(
        texts(toks),
        vec!["int", "f", "(", "int", "a_1", ")", ";", "while", "g", "(", "x", ")", "main"]
    );
    assert_eq!(
        types(toks),
        vec![
            TokenType::KEYWORD,
            TokenType::VARIABLE,
            TokenType::OPERATOR,
            TokenType::KEYWORD,
            TokenType::VARIABLE,
            TokenType::OPERATOR,
            TokenType::OPERATOR,
            TokenType::KEYWORD,
            TokenType::VARIABLE,
            TokenType::OPERATOR,
            TokenType::VARIABLE,
            TokenType::OPERATOR,
            TokenType::KEYWORD,
        ]
    );
}

#[test]
fn hand_out_counter_counts_requests() {
    let mut sc = Scanner::new("a b\n");
    assert_eq!(sc.get_cur_num_token(), -1);
    sc.scan_all();
    assert_eq!(sc.get_cur_num_token(), -1);
    for m in 1..=5 {
        let t = sc.get_next_token();
        assert_eq!(sc.get_cur_num_token(), m - 1);
        assert_eq!(sc.get_num_tokens(), 2);
        assert_eq!(t.is_some(), m <= 2);
    }
}

#[test]
fn scannable_texts() {
    assert!(is_scannable("int x;\n"));
    assert!(is_scannable(" "));
    assert!(!is_scannable("int x;"));
    assert!(!is_scannable(""));
    assert!(!is_scannable("caf\u{e9}\n"));
}
