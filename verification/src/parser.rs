use vstd::prelude::*;

use crate::parse_error::{ErrorKind, ParseError};
use crate::parse_model::{
    aborts, add_op_step, consume, arg_list_step, assign_chain_step, assign_step, block_decl_list_step,
    block_func_list_step, block_step, check_decl_step, constant_step, data_type_step,
    decl_step, decl_type_step, expect_text, expect_type, expr_step, factor_step,
    float_type_step, func_decl_step, func_def_step, guarded_block_step, if_stmnt_step,
    int_type_step, main_decl_step, mult_op_step, param_block_step, param_list_step,
    param_step, program_decl_list_step, program_func_list_step, program_step, rel_op_step,
    ret_stmnt_step, smpl_expr_step, start_view, starts_stmnt, stmnt_list_step, stmnt_step, term_step,
    var_decl_step, while_loop_step, Outcome, ParserView,
};
use crate::scanner::{opt_token_view, token_views, Scanner};
use crate::text::str_eq;
use crate::token::{Token, TokenType};

verus! {

/// How a parsing result stands to the outcome of the step it carries out.
pub open spec fn result_is(r: Result<bool, ParseError>, o: Outcome) -> bool {
    match o {
        Outcome::Value(b) => r == Ok::<bool, ParseError>(b),
        Outcome::Failed(e) => r == Err::<bool, ParseError>(e),
        Outcome::Abort => false,
    }
}

/// A recursive-descent parser over the tokens of a scanner; it records the
/// tokens it accepts, with identifiers of called functions retyped.
pub struct Parser {
    scanner: Scanner,
    cur_token: Token,
    parsed_token_stream: Vec<Token>,
    num_parsed: i32,
    cur_token_num: i32,
    at_end: bool,
}

impl View for Parser {
    type V = ParserView;

    closed spec fn view(&self) -> ParserView {
        ParserView {
            scanner: self.scanner@,
            cur: self.cur_token@,
            parsed: token_views(self.parsed_token_stream@),
            num_parsed: self.num_parsed,
            out_cur: self.cur_token_num,
            ended: self.at_end,
        }
    }
}

impl Parser {
    /// A parser standing on the scanner's first token.
    pub fn new(s: Scanner) -> (p: Parser)
        requires
            s@.num_tokens > 0,
            s@.next_token_safe(),
            s@.next_token().1 is Some,
        ensures
            p@ == start_view(s@),
    {
        let mut s = s;
        let first_token = s.get_next_token().unwrap();
        let parsed_token_vec: Vec<Token> = Vec::new();
        let p = Parser {
            scanner: s,
            cur_token: first_token,
            parsed_token_stream: parsed_token_vec,
            num_parsed: 0,
            cur_token_num: -1,
            at_end: false,
        };
        assert(token_views(p.parsed_token_stream@) =~= Seq::empty());
        p
    }

    fn error(&self, kind: ErrorKind) -> (e: ParseError)
        ensures
            e == (ParseError { kind, line: self@.cur.line_number }),
    {
        ParseError { kind, line: self.cur_token.get_line_number() }
    }

    fn cur_is(&self, t: &str) -> (r: bool)
        ensures
            r == self@.cur_is(t@),
    {
        str_eq(self.cur_token.get_text(), t)
    }

    /// Moves to the next token; after the last one, marks the end of the text.
    pub fn inc_token_ptr(&mut self)
        requires
            old(self)@.inc() is Some,
        ensures
            final(self)@ == old(self)@.inc().unwrap(),
    {
        if self.scanner.get_cur_num_token() == (self.scanner.get_num_tokens() - 1) as i32 {
            self.at_end = true;
        } else {
            self.cur_token = self.scanner.get_next_token().unwrap();
        }
    }

    /// Records the current token as accepted.
    pub fn add_parsed_token(&mut self)
        requires
            old(self)@.recorded() is Some,
        ensures
            final(self)@ == old(self)@.recorded().unwrap(),
    {
        let t = self.cur_token.get_type();
        let tt = if t == TokenType::NONE {
            TokenType::NONE
        } else if t == TokenType::INTCONSTANT {
            TokenType::INTCONSTANT
        } else if t == TokenType::FLOATCONSTANT {
            TokenType::FLOATCONSTANT
        } else if t == TokenType::KEYWORD {
            TokenType::KEYWORD
        } else if t == TokenType::VARIABLE {
            TokenType::VARIABLE
        } else if t == TokenType::FUNCTION {
            TokenType::FUNCTION
        } else if t == TokenType::OPERATOR {
            TokenType::OPERATOR
        } else {
            TokenType::NONE
        };
        let token = Token::new(
            self.cur_token.get_text().to_owned(),
            tt,
            self.cur_token.get_line_number(),
            self.cur_token.get_char_pos(),
        );
        self.parsed_token_stream.push(token);
        self.num_parsed = self.num_parsed + 1;
        proof {
            assert(token_views(self.parsed_token_stream@) =~= token_views(
                old(self).parsed_token_stream@,
            ).push(token@));
        }
    }

    /// Records the current token as accepted and moves on.
    fn accept(&mut self)
        requires
            !aborts(consume(old(self)@)),
        ensures
            final(self)@ == consume(old(self)@).0,
    {
        self.add_parsed_token();
        self.inc_token_ptr();
    }

    pub fn get_num_parsed(&self) -> (r: i32)
        ensures
            r == self@.num_parsed,
    {
        self.num_parsed
    }

    /// Accepts the current token if its text is `s`.
    pub fn expect_str(&mut self, s: String) -> (r: bool)
        requires
            !aborts(expect_text(old(self)@, s@)),
        ensures
            (final(self)@, Outcome::Value(r)) == expect_text(old(self)@, s@),
    {
        if !self.at_end && str_eq(self.cur_token.get_text(), s.as_str()) {
            self.accept();
            true
        } else {
            false
        }
    }

    /// Accepts the current token if its type is `tt`.
    pub fn expect_tok_type(&mut self, tt: TokenType) -> (r: bool)
        requires
            !aborts(expect_type(old(self)@, tt)),
        ensures
            (final(self)@, Outcome::Value(r)) == expect_type(old(self)@, tt),
    {
        if !self.at_end && tt == self.cur_token.get_type() {
            self.accept();
            true
        } else {
            false
        }
    }


    /// Whether a declaration starts at the current token; nothing is consumed.
    pub fn check_decl(&mut self) -> (r: bool)
        requires
            !aborts(check_decl_step(old(self)@)),
        ensures
            (final(self)@, Outcome::Value(r)) == check_decl_step(old(self)@),
            final(self)@ == old(self)@,
    {
        reveal(check_decl_step);
        if self.cur_is("unsigned") {
            let peek_ahead_option = self.scanner.peek_ahead_token(0);
            if let Some(i) = peek_ahead_option {
                let t = i.as_str();
                return str_eq(t, "char") || str_eq(t, "short") || str_eq(t, "int") || str_eq(
                    t,
                    "long",
                );
            }
        }
        self.cur_is("char") || self.cur_is("short") || self.cur_is("int") || self.cur_is("long")
            || self.cur_is("float") || self.cur_is("double")
    }

    pub fn rel_op(&mut self) -> (r: bool)
        requires
            !aborts(rel_op_step(old(self)@)),
        ensures
            (final(self)@, Outcome::Value(r)) == rel_op_step(old(self)@),
    {
        reveal(rel_op_step);
        self.expect_str("==".to_owned()) || self.expect_str(">".to_owned()) || self.expect_str(
            "<".to_owned(),
        ) || self.expect_str("<=".to_owned()) || self.expect_str(">=".to_owned())
            || self.expect_str("!=".to_owned())
    }

    pub fn add_op(&mut self) -> (r: bool)
        requires
            !aborts(add_op_step(old(self)@)),
        ensures
            (final(self)@, Outcome::Value(r)) == add_op_step(old(self)@),
    {
        reveal(add_op_step);
        self.expect_str("+".to_owned()) || self.expect_str("-".to_owned())
    }

    pub fn mult_op(&mut self) -> (r: bool)
        requires
            !aborts(mult_op_step(old(self)@)),
        ensures
            (final(self)@, Outcome::Value(r)) == mult_op_step(old(self)@),
    {
        reveal(mult_op_step);
        self.expect_str("*".to_owned()) || self.expect_str("/".to_owned())
    }

    pub fn float_type(&mut self) -> (r: bool)
        requires
            !aborts(float_type_step(old(self)@)),
        ensures
            (final(self)@, Outcome::Value(r)) == float_type_step(old(self)@),
    {
        reveal(float_type_step);
        self.expect_str("float".to_owned()) || self.expect_str("double".to_owned())
    }

    /// Two attempts at a floating constant.
    pub fn constant(&mut self) -> (r: bool)
        requires
            !aborts(constant_step(old(self)@)),
        ensures
            (final(self)@, Outcome::Value(r)) == constant_step(old(self)@),
    {
        reveal(constant_step);
        let float_tt = TokenType::FLOATCONSTANT;
        let int_tt = TokenType::FLOATCONSTANT;
        self.expect_tok_type(float_tt) || self.expect_tok_type(int_tt)
    }

    /// An optional `unsigned` and one of `char`, `short`, `int`, `long`.
    pub fn int_type(&mut self) -> (r: Result<bool, ParseError>)
        requires
            !aborts(int_type_step(old(self)@)),
        ensures
            final(self)@ == int_type_step(old(self)@).0,
            result_is(r, int_type_step(old(self)@).1),
    {
        reveal(int_type_step);
        let seen_unsigned = self.expect_str("unsigned".to_owned());
        if self.expect_str("char".to_owned()) || self.expect_str("short".to_owned())
            || self.expect_str("int".to_owned()) || self.expect_str("long".to_owned()) {
            Ok(true)
        } else {
            if seen_unsigned {
                return Err(self.error(ErrorKind::ExpectedTypeAfterUnsigned));
            }
            Ok(false)
        }
    }

    pub fn data_type(&mut self) -> (r: Result<bool, ParseError>)
        requires
            !aborts(data_type_step(old(self)@)),
        ensures
            final(self)@ == data_type_step(old(self)@).0,
            result_is(r, data_type_step(old(self)@).1),
    {
        reveal(data_type_step);
        match self.int_type() {
            Ok(true) => Ok(true),
            Ok(false) => Ok(self.float_type()),
            Err(e) => Err(e),
        }
    }


    /// A data type and an identifier; the identifier becomes a function name
    /// when `(` follows it.
    pub fn decl_type(&mut self) -> (r: Result<bool, ParseError>)
        requires
            !aborts(decl_type_step(old(self)@)),
        ensures
            final(self)@ == decl_type_step(old(self)@).0,
            result_is(r, decl_type_step(old(self)@).1),
    {
        reveal(decl_type_step);
        match self.data_type() {
            Ok(true) => {},
            Ok(false) => return Ok(false),
            Err(e) => return Err(e),
        }
        let mut tt = TokenType::VARIABLE;
        let peek_ahead_option = self.scanner.peek_ahead_token(0);
        if let Some(i) = peek_ahead_option {
            if str_eq(i.as_str(), "(") {
                self.cur_token.set_token_type(TokenType::FUNCTION);
                tt = TokenType::FUNCTION;
            }
        }
        let ident = self.expect_tok_type(tt);
        if !ident {
            Err(self.error(ErrorKind::IdentifierExpected))
        } else {
            Ok(true)
        }
    }

    /// An optional `= constant`, then `;`.
    pub fn var_decl(&mut self) -> (r: Result<bool, ParseError>)
        requires
            !aborts(var_decl_step(old(self)@)),
        ensures
            final(self)@ == var_decl_step(old(self)@).0,
            result_is(r, var_decl_step(old(self)@).1),
    {
        reveal(var_decl_step);
        if self.expect_str("=".to_owned()) {
            if !self.constant() {
                return Err(self.error(ErrorKind::ConstantExpected));
            }
        }
        let semi_cln = self.expect_str(";".to_owned());
        if !semi_cln {
            Err(self.error(ErrorKind::ExpectedSemicolon))
        } else {
            Ok(true)
        }
    }

    /// A parameter block, then `;`.
    pub fn func_decl(&mut self) -> (r: Result<bool, ParseError>)
        requires
            !aborts(func_decl_step(old(self)@)),
        ensures
            final(self)@ == func_decl_step(old(self)@).0,
            result_is(r, func_decl_step(old(self)@).1),
    {
        reveal(func_decl_step);
        match self.param_block() {
            Ok(true) => {},
            Ok(false) => return Ok(false),
            Err(e) => return Err(e),
        }
        let semi_cln = self.expect_str(";".to_owned());
        if !semi_cln {
            return Err(self.error(ErrorKind::ExpectedSemicolon));
        }
        Ok(true)
    }

    /// A data type and an identifier.
    pub fn param(&mut self) -> (r: Result<bool, ParseError>)
        requires
            !aborts(param_step(old(self)@)),
        ensures
            final(self)@ == param_step(old(self)@).0,
            result_is(r, param_step(old(self)@).1),
    {
        reveal(param_step);
        match self.data_type() {
            Ok(true) => {},
            Ok(false) => return Ok(false),
            Err(e) => return Err(e),
        }
        let ret_ident = self.expect_tok_type(TokenType::VARIABLE);
        if !ret_ident {
            Err(self.error(ErrorKind::ParamIdentifierExpected))
        } else {
            Ok(true)
        }
    }

    /// `(`, parameters separated by `,`, `)`.
    pub fn param_block(&mut self) -> (r: Result<bool, ParseError>)
        requires
            !aborts(param_block_step(old(self)@)),
        ensures
            final(self)@ == param_block_step(old(self)@).0,
            result_is(r, param_block_step(old(self)@).1),
    {
        reveal(param_block_step);
        let open_paren = self.expect_str("(".to_owned());
        if !open_paren {
            return Err(self.error(ErrorKind::ParamBlockOpenParen));
        }
        let first = match self.param() {
            Ok(b) => b,
            Err(e) => return Err(e),
        };
        if first {
            let ghost entry = self@;
            #[verifier::loop_isolation(false)]
            loop
                invariant
                    param_list_step(self@) == param_list_step(entry),
                    !aborts(param_list_step(self@)),
                decreases self@.rem(),
            {
                reveal(param_list_step);
                if !self.expect_str(",".to_owned()) {
                    break;
                }
                match self.param() {
                    Ok(true) => {},
                    Ok(false) => break,
                    Err(e) => return Err(e),
                }
            }
        }
        let close_paren = self.expect_str(")".to_owned());
        if !close_paren {
            Err(self.error(ErrorKind::MissingCloseParen))
        } else {
            Ok(true)
        }
    }

    /// A declaration: a data type and identifier, then a variable declaration
    /// (at `=` or `;`) or a function declaration (at `(`).
    pub fn decl(&mut self) -> (r: Result<bool, ParseError>)
        requires
            !aborts(decl_step(old(self)@)),
        ensures
            final(self)@ == decl_step(old(self)@).0,
            result_is(r, decl_step(old(self)@).1),
    {
        reveal(decl_step);
        match self.decl_type() {
            Ok(true) => {},
            Ok(false) => return Err(self.error(ErrorKind::ExpectedDataType)),
            Err(e) => return Err(e),
        }
        if self.cur_is("=") || self.cur_is(";") {
            match self.var_decl() {
                Ok(true) => Ok(true),
                Ok(false) => Err(self.error(ErrorKind::ExpectedVarDecl)),
                Err(e) => Err(e),
            }
        } else if self.cur_is("(") {
            match self.func_decl() {
                Ok(true) => Ok(true),
                Ok(false) => Err(self.error(ErrorKind::ExpectedFuncDecl)),
                Err(e) => Err(e),
            }
        } else {
            Err(self.error(ErrorKind::MissingDeclContinuation))
        }
    }


    /// A simple expression, optionally a relational operator and a second
    /// simple expression; the value is whether the first one was found.
    pub fn expr(&mut self) -> (r: Result<bool, ParseError>)
        requires
            !aborts(expr_step(old(self)@)),
        ensures
            final(self)@ == expr_step(old(self)@).0,
            result_is(r, expr_step(old(self)@).1),
        decreases old(self)@.rem(), 3nat,
    {
        reveal(expr_step);
        reveal(smpl_expr_step);
        reveal(term_step);
        reveal(factor_step);
        reveal(arg_list_step);
        let smpl_expr = match self.smpl_expr() {
            Ok(b) => b,
            Err(e) => return Err(e),
        };
        if self.rel_op() {
            if self.cur_token.get_type() == TokenType::INTCONSTANT || self.cur_token.get_type()
                == TokenType::FLOATCONSTANT || self.cur_is("(") || self.cur_token.get_type()
                == TokenType::VARIABLE {
                match self.smpl_expr() {
                    Ok(true) => {},
                    Ok(false) => return Err(self.error(ErrorKind::RelOpOperandExpected)),
                    Err(e) => return Err(e),
                }
            }
        }
        Ok(smpl_expr)
    }

    /// A term, optionally an additive operator and one more term.
    pub fn smpl_expr(&mut self) -> (r: Result<bool, ParseError>)
        requires
            !aborts(smpl_expr_step(old(self)@)),
        ensures
            final(self)@ == smpl_expr_step(old(self)@).0,
            result_is(r, smpl_expr_step(old(self)@).1),
        decreases old(self)@.rem(), 2nat,
    {
        reveal(expr_step);
        reveal(smpl_expr_step);
        reveal(term_step);
        reveal(factor_step);
        reveal(arg_list_step);
        let term = match self.term() {
            Ok(b) => b,
            Err(e) => return Err(e),
        };
        if self.cur_is("+") || self.cur_is("-") {
            if !self.add_op() {
                return Err(self.error(ErrorKind::MissingAddOp));
            }
            let peek_ahead_option = self.scanner.peek_ahead_token(0);
            if let Some(_i) = peek_ahead_option {
                match self.term() {
                    Ok(true) => {},
                    Ok(false) => return Err(self.error(ErrorKind::InvalidTerm)),
                    Err(e) => return Err(e),
                }
            }
        }
        Ok(term)
    }

    /// A factor, optionally a multiplicative operator and one more factor.
    pub fn term(&mut self) -> (r: Result<bool, ParseError>)
        requires
            !aborts(term_step(old(self)@)),
        ensures
            final(self)@ == term_step(old(self)@).0,
            result_is(r, term_step(old(self)@).1),
        decreases old(self)@.rem(), 1nat,
    {
        reveal(expr_step);
        reveal(smpl_expr_step);
        reveal(term_step);
        reveal(factor_step);
        reveal(arg_list_step);
        let factor = match self.factor() {
            Ok(b) => b,
            Err(e) => return Err(e),
        };
        if self.cur_is("*") || self.cur_is("/") {
            if !self.mult_op() {
                return Err(self.error(ErrorKind::MissingMultOp));
            }
            let peek_ahead_option = self.scanner.peek_ahead_token(0);
            if let Some(_i) = peek_ahead_option {
                match self.factor() {
                    Ok(true) => {},
                    Ok(false) => return Err(self.error(ErrorKind::InvalidFactor)),
                    Err(e) => return Err(e),
                }
            }
        }
        Ok(factor)
    }

    /// A constant, an identifier or call, or a parenthesised expression.
    #[verifier::rlimit(40)]
    pub fn factor(&mut self) -> (r: Result<bool, ParseError>)
        requires
            !aborts(factor_step(old(self)@)),
        ensures
            final(self)@ == factor_step(old(self)@).0,
            result_is(r, factor_step(old(self)@).1),
        decreases old(self)@.rem(), 0nat,
    {
        reveal(expr_step);
        reveal(smpl_expr_step);
        reveal(term_step);
        reveal(factor_step);
        reveal(arg_list_step);
        if self.expect_tok_type(TokenType::FLOATCONSTANT) || self.expect_tok_type(
            TokenType::INTCONSTANT,
        ) {
            return Ok(true);
        }
        if self.cur_token.get_type() == TokenType::VARIABLE {
            let mut var_func_type = TokenType::VARIABLE;
            let peek_ahead_option = self.scanner.peek_ahead_token(0);
            if let Some(i) = peek_ahead_option {
                if str_eq(i.as_str(), "(") {
                    self.cur_token.set_token_type(TokenType::FUNCTION);
                    var_func_type = TokenType::FUNCTION;
                }
            }
            if !self.expect_tok_type(var_func_type) {
                return Err(self.error(ErrorKind::MissingIdentifier));
            }
            let open_paren_two = self.expect_str("(".to_owned());
            if open_paren_two {
                match self.expr() {
                    Ok(true) => {},
                    Ok(false) => return Ok(false),
                    Err(e) => return Err(e),
                }
                let ghost entry = self@;
                #[verifier::loop_isolation(false)]
                loop
                    invariant
                        arg_list_step(self@) == arg_list_step(entry),
                        !aborts(arg_list_step(self@)),
                        self@.rem() <= entry.rem(),
                    decreases self@.rem(),
                {
                    if !self.expect_str(",".to_owned()) {
                        break;
                    }
                    match self.expr() {
                        Ok(true) => {},
                        Ok(false) => break,
                        Err(e) => return Err(e),
                    }
                }
                let close_paren_two = self.expect_str(")".to_owned());
                if !close_paren_two {
                    return Err(self.error(ErrorKind::MissingCloseParen));
                }
            }
            Ok(true)
        } else if self.expect_str("(".to_owned()) {
            match self.expr() {
                Ok(true) => {},
                Ok(false) => return Ok(false),
                Err(e) => return Err(e),
            }
            let close_paren = self.expect_str(")".to_owned());
            if !close_paren {
                Err(self.error(ErrorKind::MissingCloseParen))
            } else {
                Ok(true)
            }
        } else {
            Ok(false)
        }
    }


    fn starts_stmnt(&self) -> (r: bool)
        ensures
            r == starts_stmnt(self@),
    {
        self.cur_is("while") || self.cur_is("if") || self.cur_is("return") || self.cur_is("(")
            || self.cur_token.get_type() == TokenType::VARIABLE
    }

    /// `variable = expression ;`; further `variable =` pairs after the first
    /// are accepted in turn.
    pub fn assign(&mut self) -> (r: Result<bool, ParseError>)
        requires
            !aborts(assign_step(old(self)@)),
        ensures
            final(self)@ == assign_step(old(self)@).0,
            result_is(r, assign_step(old(self)@).1),
    {
        reveal(assign_step);
        if !self.expect_tok_type(TokenType::VARIABLE) {
            return Err(self.error(ErrorKind::ExpectedVariable));
        }
        let equal = self.expect_str("=".to_owned());
        if !equal {
            return Err(self.error(ErrorKind::MissingAssignEquals));
        }
        if !self.scanner.peek_ahead_token(0).is_none() {
            let mut next_str = self.scanner.peek_ahead_token(0).unwrap();
            let ghost entry = self@;
            let ghost entry_next = next_str@;
            #[verifier::loop_isolation(false)]
            loop
                invariant
                    assign_chain_step(self@, next_str@) == assign_chain_step(entry, entry_next),
                    !aborts(assign_chain_step(self@, next_str@)),
                decreases self@.rem(),
            {
                reveal(assign_chain_step);
                if !(!self.at_end && self.cur_token.get_type() == TokenType::VARIABLE && str_eq(
                    next_str.as_str(),
                    "=",
                )) {
                    break;
                }
                self.accept();
                self.expect_str("=".to_owned());
                if self.scanner.peek_ahead_token(0).is_none() {
                    break;
                }
                next_str = self.scanner.peek_ahead_token(0).unwrap();
            }
        }
        match self.expr() {
            Ok(true) => {},
            Ok(false) => return Err(self.error(ErrorKind::ExpressionExpected)),
            Err(e) => return Err(e),
        }
        let semi_cln = self.expect_str(";".to_owned());
        if !semi_cln {
            return Err(self.error(ErrorKind::ExpectedSemicolon));
        }
        Ok(true)
    }

    /// `return expression ;`.
    pub fn ret_stmnt(&mut self) -> (r: Result<bool, ParseError>)
        requires
            !aborts(ret_stmnt_step(old(self)@)),
        ensures
            final(self)@ == ret_stmnt_step(old(self)@).0,
            result_is(r, ret_stmnt_step(old(self)@).1),
    {
        reveal(ret_stmnt_step);
        self.expect_str("return".to_owned());
        match self.expr() {
            Ok(true) => {},
            Ok(false) => return Err(self.error(ErrorKind::ReturnMissingExpression)),
            Err(e) => return Err(e),
        }
        let semi = self.expect_str(";".to_owned());
        if !semi {
            return Err(self.error(ErrorKind::ExpectedSemicolon));
        }
        Ok(true)
    }

    /// An assignment, a while loop, an if statement, a return statement, or
    /// an expression followed by `;`.
    pub fn stmnt(&mut self) -> (r: Result<bool, ParseError>)
        requires
            !aborts(stmnt_step(old(self)@)),
        ensures
            final(self)@ == stmnt_step(old(self)@).0,
            result_is(r, stmnt_step(old(self)@).1),
        decreases old(self)@.rem(), 3nat,
    {
        reveal(block_step);
        reveal(stmnt_list_step);
        reveal(block_func_list_step);
        reveal(stmnt_step);
        reveal(guarded_block_step);
        reveal(while_loop_step);
        reveal(if_stmnt_step);
        reveal(func_def_step);
        let peek_ahead_option = self.scanner.peek_ahead_token(0);
        if let Some(i) = peek_ahead_option {
            if self.cur_token.get_type() == TokenType::VARIABLE && str_eq(i.as_str(), "=") {
                return match self.assign() {
                    Ok(true) => Ok(true),
                    Ok(false) => Err(self.error(ErrorKind::ExpectedAssignment)),
                    Err(e) => Err(e),
                };
            }
        }
        if self.cur_is("while") {
            self.while_loop()
        } else if self.cur_is("if") {
            self.if_stmnt()
        } else if self.cur_is("return") {
            self.ret_stmnt()
        } else {
            match self.expr() {
                Ok(true) => {
                    if !self.expect_str(";".to_owned()) {
                        Err(self.error(ErrorKind::ExpectedSemicolon))
                    } else {
                        Ok(true)
                    }
                },
                Ok(false) => Ok(false),
                Err(e) => Err(e),
            }
        }
    }

    /// `while ( expression ) block`.
    pub fn while_loop(&mut self) -> (r: Result<bool, ParseError>)
        requires
            !aborts(while_loop_step(old(self)@)),
        ensures
            final(self)@ == while_loop_step(old(self)@).0,
            result_is(r, while_loop_step(old(self)@).1),
        decreases old(self)@.rem(), 2nat,
    {
        reveal(block_step);
        reveal(stmnt_list_step);
        reveal(block_func_list_step);
        reveal(stmnt_step);
        reveal(guarded_block_step);
        reveal(while_loop_step);
        reveal(if_stmnt_step);
        reveal(func_def_step);
        if !self.expect_str("while".to_owned()) {
            return Err(self.error(ErrorKind::WhileMissingKeyword));
        }
        if !self.expect_str("(".to_owned()) {
            return Err(self.error(ErrorKind::WhileMissingOpenParen));
        }
        match self.expr() {
            Ok(true) => {},
            Ok(false) => return Err(self.error(ErrorKind::WhileMissingExpression)),
            Err(e) => return Err(e),
        }
        if !self.expect_str(")".to_owned()) {
            return Err(self.error(ErrorKind::WhileMissingCloseParen));
        }
        match self.block() {
            Ok(true) => Ok(true),
            Ok(false) => Err(self.error(ErrorKind::WhileBlockExpected)),
            Err(e) => Err(e),
        }
    }

    /// `if ( expression ) block`.
    pub fn if_stmnt(&mut self) -> (r: Result<bool, ParseError>)
        requires
            !aborts(if_stmnt_step(old(self)@)),
        ensures
            final(self)@ == if_stmnt_step(old(self)@).0,
            result_is(r, if_stmnt_step(old(self)@).1),
        decreases old(self)@.rem(), 2nat,
    {
        reveal(block_step);
        reveal(stmnt_list_step);
        reveal(block_func_list_step);
        reveal(stmnt_step);
        reveal(guarded_block_step);
        reveal(while_loop_step);
        reveal(if_stmnt_step);
        reveal(func_def_step);
        if !self.expect_str("if".to_owned()) {
            return Err(self.error(ErrorKind::IfMissingKeyword));
        }
        if !self.expect_str("(".to_owned()) {
            return Err(self.error(ErrorKind::IfMissingOpenParen));
        }
        match self.expr() {
            Ok(true) => {},
            Ok(false) => return Err(self.error(ErrorKind::IfMissingExpression)),
            Err(e) => return Err(e),
        }
        if !self.expect_str(")".to_owned()) {
            return Err(self.error(ErrorKind::IfMissingCloseParen));
        }
        match self.block() {
            Ok(true) => Ok(true),
            Ok(false) => Err(self.error(ErrorKind::IfBlockExpected)),
            Err(e) => Err(e),
        }
    }

    /// `{`, declarations, statements, function definitions, `}`.
    pub fn block(&mut self) -> (r: Result<bool, ParseError>)
        requires
            !aborts(block_step(old(self)@)),
        ensures
            final(self)@ == block_step(old(self)@).0,
            result_is(r, block_step(old(self)@).1),
        decreases old(self)@.rem(), 5nat,
    {
        reveal(block_step);
        reveal(stmnt_list_step);
        reveal(block_func_list_step);
        reveal(stmnt_step);
        reveal(guarded_block_step);
        reveal(while_loop_step);
        reveal(if_stmnt_step);
        reveal(func_def_step);
        let open_bracket = self.expect_str("{".to_owned());
        if !open_bracket {
            return Err(self.error(ErrorKind::MissingOpenBrace));
        }
        let ghost s1 = self@;
        #[verifier::loop_isolation(false)]
        loop
            invariant
                block_decl_list_step(self@) == block_decl_list_step(s1),
                !aborts(block_decl_list_step(self@)),
            decreases self@.rem(),
        {
            reveal(block_decl_list_step);
            if !self.check_decl() {
                break;
            }
            match self.decl() {
                Ok(true) => {},
                Ok(false) => return Err(self.error(ErrorKind::InvalidDeclaration)),
                Err(e) => return Err(e),
            }
        }
        let ghost s2 = self@;
        #[verifier::loop_isolation(false)]
        loop
            invariant
                stmnt_list_step(self@) == stmnt_list_step(s2),
                !aborts(stmnt_list_step(self@)),
                self@.rem() <= old(self)@.rem(),
            decreases self@.rem(),
        {
            if !self.starts_stmnt() {
                break;
            }
            match self.stmnt() {
                Ok(true) => {},
                Ok(false) => return Err(self.error(ErrorKind::InvalidStatement)),
                Err(e) => return Err(e),
            }
        }
        let ghost s3 = self@;
        #[verifier::loop_isolation(false)]
        loop
            invariant
                block_func_list_step(self@) == block_func_list_step(s3),
                !aborts(block_func_list_step(self@)),
                self@.rem() <= old(self)@.rem(),
            decreases self@.rem(),
        {
            if !self.check_decl() {
                break;
            }
            match self.func_def() {
                Ok(true) => {},
                Ok(false) => return Err(self.error(ErrorKind::InvalidFunctionDef)),
                Err(e) => return Err(e),
            }
        }
        let close_bracket = self.expect_str("}".to_owned());
        if !close_bracket {
            return Err(self.error(ErrorKind::MissingCloseBrace));
        }
        Ok(open_bracket && close_bracket)
    }

    /// A data type and name, a parameter block and a body.
    pub fn func_def(&mut self) -> (r: Result<bool, ParseError>)
        requires
            !aborts(func_def_step(old(self)@)),
        ensures
            final(self)@ == func_def_step(old(self)@).0,
            result_is(r, func_def_step(old(self)@).1),
        decreases old(self)@.rem(), 1nat,
    {
        reveal(block_step);
        reveal(stmnt_list_step);
        reveal(block_func_list_step);
        reveal(stmnt_step);
        reveal(guarded_block_step);
        reveal(while_loop_step);
        reveal(if_stmnt_step);
        reveal(func_def_step);
        match self.decl_type() {
            Ok(true) => {},
            Ok(false) => return Err(self.error(ErrorKind::FuncDefTypeExpected)),
            Err(e) => return Err(e),
        }
        match self.param_block() {
            Ok(true) => {},
            Ok(false) => return Err(self.error(ErrorKind::FuncDefParamBlockExpected)),
            Err(e) => return Err(e),
        }
        match self.block() {
            Ok(true) => Ok(true),
            Ok(false) => Err(self.error(ErrorKind::FuncDefBlockExpected)),
            Err(e) => Err(e),
        }
    }

    /// `void main ( ) block`.
    pub fn main_decl(&mut self) -> (r: Result<bool, ParseError>)
        requires
            !aborts(main_decl_step(old(self)@)),
        ensures
            final(self)@ == main_decl_step(old(self)@).0,
            result_is(r, main_decl_step(old(self)@).1),
    {
        reveal(main_decl_step);
        if !self.expect_str("void".to_owned()) {
            return Err(self.error(ErrorKind::MainMissingVoid));
        }
        if !self.expect_str("main".to_owned()) {
            return Err(self.error(ErrorKind::MainMissingMain));
        }
        if !self.expect_str("(".to_owned()) {
            return Err(self.error(ErrorKind::MainMissingOpenParen));
        }
        if !self.expect_str(")".to_owned()) {
            return Err(self.error(ErrorKind::MainMissingCloseParen));
        }
        match self.block() {
            Ok(true) => Ok(true),
            Ok(false) => Err(self.error(ErrorKind::MainBlockExpected)),
            Err(e) => Err(e),
        }
    }

    /// The whole program: declarations, the main declaration, then function
    /// definitions, ending with the text; anything left after them is
    /// refused.
    pub fn program(&mut self) -> (r: Result<(), ParseError>)
        requires
            !aborts(program_step(old(self)@)),
        ensures
            final(self)@ == program_step(old(self)@).0,
            program_step(old(self)@).1 == match r {
                Ok(_) => Outcome::Value(true),
                Err(e) => Outcome::Failed(e),
            },
    {
        reveal(program_step);
        let ghost s0 = self@;
        #[verifier::loop_isolation(false)]
        loop
            invariant
                program_decl_list_step(self@) == program_decl_list_step(s0),
                !aborts(program_decl_list_step(self@)),
            decreases self@.rem(),
        {
            reveal(program_decl_list_step);
            if !self.check_decl() {
                break;
            }
            match self.decl() {
                Ok(_) => {},
                Err(e) => return Err(e),
            }
        }
        match self.main_decl() {
            Ok(true) => {},
            Ok(false) => return Err(self.error(ErrorKind::MissingMainDecl)),
            Err(e) => return Err(e),
        }
        let ghost s2 = self@;
        #[verifier::loop_isolation(false)]
        loop
            invariant
                program_func_list_step(self@) == program_func_list_step(s2),
                !aborts(program_func_list_step(self@)),
            decreases self@.rem(),
        {
            reveal(program_func_list_step);
            if !self.check_decl() {
                break;
            }
            match self.func_def() {
                Ok(_) => {},
                Err(e) => return Err(e),
            }
        }
        if !self.at_end {
            return Err(self.error(ErrorKind::TrailingInput));
        }
        Ok(())
    }

    /// Whether the next accepted token can be handed out without an
    /// arithmetic failure.
    pub fn can_hand_out(&self) -> (r: bool)
        ensures
            r == self@.out_safe(),
    {
        self.cur_token_num < i32::MAX && (self.num_parsed <= self.cur_token_num + 1
            || self.parsed_token_stream.len() >= 1)
    }

    /// Hands out the next accepted token, or `None` once all have been.
    pub fn out_token(&mut self) -> (r: Option<Token>)
        requires
            old(self)@.out_safe(),
        ensures
            final(self)@ == old(self)@.out().0,
            opt_token_view(r) == old(self)@.out().1,
    {
        self.cur_token_num = self.cur_token_num + 1;
        if self.num_parsed <= self.cur_token_num {
            None
        } else {
            let t = self.parsed_token_stream.remove(0);
            proof {
                assert(token_views(self.parsed_token_stream@) =~= token_views(
                    old(self).parsed_token_stream@,
                ).drop_first());
            }
            Some(t)
        }
    }

    /// The line of the next accepted token to be handed out, if any.
    pub fn peek_ahead_token(&mut self) -> (r: Option<i32>)
        requires
            old(self)@.out_safe(),
        ensures
            final(self)@ == old(self)@,
            r == old(self)@.peek_out(),
    {
        if self.num_parsed <= self.cur_token_num + 1 {
            None
        } else {
            Some(self.parsed_token_stream[0].get_line_number())
        }
    }
}

} // verus!
