use vstd::prelude::*;

use crate::parse_error::{ErrorKind, ParseError};
use crate::scanner::ScannerView;
use crate::token::{TokenType, TokenView};

verus! {

/// The state of a parser: the scanner it reads tokens from, the token it
/// stands on, the tokens it has accepted and not yet handed out, how many it
/// has accepted, the index of the last one handed out, and whether the last
/// token of the text has been accepted (then no further token is accepted).
pub struct ParserView {
    pub scanner: ScannerView,
    pub cur: TokenView,
    pub parsed: Seq<TokenView>,
    pub num_parsed: i32,
    pub out_cur: i32,
    pub ended: bool,
}

/// What a parsing step ends in: a value, a refusal with its diagnostic, or
/// an abort (the step fails at run time or never finishes).
pub enum Outcome {
    Value(bool),
    Failed(ParseError),
    Abort,
}

pub type Step = (ParserView, Outcome);

pub open spec fn aborts(r: Step) -> bool {
    r.1 is Abort
}

/// The type an accepted token is recorded with: an invalid token is recorded
/// with no type, every other keeps its own.
pub open spec fn recorded_type(tt: TokenType) -> TokenType {
    if tt == TokenType::INVALID {
        TokenType::NONE
    } else {
        tt
    }
}

pub open spec fn is_int_type_word(t: Seq<char>) -> bool {
    t == "char"@ || t == "short"@ || t == "int"@ || t == "long"@
}

pub open spec fn is_float_type_word(t: Seq<char>) -> bool {
    t == "float"@ || t == "double"@
}

pub open spec fn is_rel_op(t: Seq<char>) -> bool {
    t == "=="@ || t == ">"@ || t == "<"@ || t == "<="@ || t == ">="@ || t == "!="@
}

pub open spec fn is_add_op(t: Seq<char>) -> bool {
    t == "+"@ || t == "-"@
}

pub open spec fn is_mult_op(t: Seq<char>) -> bool {
    t == "*"@ || t == "/"@
}

impl ParserView {
    /// The number of tokens not yet accepted: those the scanner still holds
    /// and, until the end of the text is reached, the current one.
    pub open spec fn rem(self) -> nat {
        self.scanner.tokens.len() + if self.ended {
            0nat
        } else {
            1nat
        }
    }

    /// The number of tokens the scanner has not yet handed out.
    pub open spec fn held(self) -> nat {
        self.scanner.tokens.len()
    }

    pub open spec fn cur_is(self, t: Seq<char>) -> bool {
        self.cur.text == t
    }

    pub open spec fn cur_type_is(self, tt: TokenType) -> bool {
        self.cur.token_type == tt
    }

    /// Refuses the parse at the current token.
    pub open spec fn fail(self, kind: ErrorKind) -> Step {
        (self, Outcome::Failed(ParseError { kind, line: self.cur.line_number }))
    }

    /// Moves to the next token; after the last one the parser has reached the
    /// end of the text. `None` when this fails at run time.
    pub open spec fn inc(self) -> Option<ParserView> {
        let sc = self.scanner;
        if sc.num_tokens < 1 || sc.num_tokens - 1 > i32::MAX {
            None
        } else if sc.cur == sc.num_tokens - 1 {
            Some(ParserView { ended: true, ..self })
        } else if !sc.next_token_safe() {
            None
        } else {
            match sc.next_token() {
                (sc1, Some(t)) => Some(ParserView { scanner: sc1, cur: t, ..self }),
                (_, None) => None,
            }
        }
    }

    /// The parser after recording the current token as accepted; `None` when
    /// the count of accepted tokens would overflow.
    pub open spec fn recorded(self) -> Option<ParserView> {
        if self.num_parsed >= i32::MAX {
            None
        } else {
            Some(
                ParserView {
                    parsed: self.parsed.push(
                        TokenView { token_type: recorded_type(self.cur.token_type), ..self.cur },
                    ),
                    num_parsed: (self.num_parsed + 1) as i32,
                    ..self
                },
            )
        }
    }

    /// The text of the `i`-th token after the current one: `None` when
    /// peeking fails at run time, `Some(None)` when no token follows.
    pub open spec fn peek(self, i: int) -> Option<Option<Seq<char>>> {
        if !self.scanner.peek_token_safe(i) {
            None
        } else {
            Some(self.scanner.peek_token(i))
        }
    }
}

/// A parser standing on the scanner's first token, with nothing accepted.
pub open spec fn start_view(sc: ScannerView) -> ParserView {
    ParserView {
        scanner: sc.next_token().0,
        cur: sc.next_token().1.unwrap(),
        parsed: Seq::empty(),
        num_parsed: 0,
        out_cur: -1i32,
        ended: false,
    }
}

/// Accepts the current token: records it and moves on.
pub open spec fn consume(s: ParserView) -> Step {
    match s.recorded() {
        None => (s, Outcome::Abort),
        Some(s1) => match s1.inc() {
            None => (s1, Outcome::Abort),
            Some(s2) => (s2, Outcome::Value(true)),
        },
    }
}

/// Accepts the current token if its text is `t` and the end of the text
/// has not been reached.
pub open spec fn expect_text(s: ParserView, t: Seq<char>) -> Step {
    if !s.ended && s.cur_is(t) {
        consume(s)
    } else {
        (s, Outcome::Value(false))
    }
}

/// Accepts the current token if its type is `tt` and the end of the text
/// has not been reached.
pub open spec fn expect_type(s: ParserView, tt: TokenType) -> Step {
    if !s.ended && s.cur_type_is(tt) {
        consume(s)
    } else {
        (s, Outcome::Value(false))
    }
}

/// Accepts the current token if `ok` holds of its text and the end of the
/// text has not been reached.
pub open spec fn expect_if(s: ParserView, ok: bool) -> Step {
    if !s.ended && ok {
        consume(s)
    } else {
        (s, Outcome::Value(false))
    }
}

#[verifier::opaque]
pub open spec fn rel_op_step(s: ParserView) -> Step {
    expect_if(s, is_rel_op(s.cur.text))
}

#[verifier::opaque]
pub open spec fn add_op_step(s: ParserView) -> Step {
    expect_if(s, is_add_op(s.cur.text))
}

#[verifier::opaque]
pub open spec fn mult_op_step(s: ParserView) -> Step {
    expect_if(s, is_mult_op(s.cur.text))
}

#[verifier::opaque]
pub open spec fn float_type_step(s: ParserView) -> Step {
    expect_if(s, is_float_type_word(s.cur.text))
}

/// Both attempts look for a floating constant, so an integer constant is
/// never accepted here.
#[verifier::opaque]
pub open spec fn constant_step(s: ParserView) -> Step {
    expect_type(s, TokenType::FLOATCONSTANT)
}

#[verifier::opaque]
pub open spec fn int_type_step(s: ParserView) -> Step {
    let (s1, o1) = expect_text(s, "unsigned"@);
    match o1 {
        Outcome::Value(seen_unsigned) => {
            let (s2, o2) = expect_if(s1, is_int_type_word(s1.cur.text));
            match o2 {
                Outcome::Value(true) => (s2, o2),
                Outcome::Value(false) => if seen_unsigned {
                    s2.fail(ErrorKind::ExpectedTypeAfterUnsigned)
                } else {
                    (s2, o2)
                },
                _ => (s2, o2),
            }
        },
        _ => (s1, o1),
    }
}

#[verifier::opaque]
pub open spec fn data_type_step(s: ParserView) -> Step {
    let (s1, o1) = int_type_step(s);
    match o1 {
        Outcome::Value(false) => float_type_step(s1),
        _ => (s1, o1),
    }
}

/// Whether a declaration starts here; nothing is consumed. After `unsigned`
/// the token that follows it is what is looked at.
#[verifier::opaque]
pub open spec fn check_decl_step(s: ParserView) -> Step {
    let after_unsigned = if s.cur_is("unsigned"@) {
        s.peek(0)
    } else {
        Some(None)
    };
    match after_unsigned {
        None => (s, Outcome::Abort),
        Some(Some(t)) => (s, Outcome::Value(is_int_type_word(t))),
        Some(None) => (
            s,
            Outcome::Value(is_int_type_word(s.cur.text) || is_float_type_word(s.cur.text)),
        ),
    }
}

/// A data type followed by an identifier, which becomes a function name when
/// `(` follows it.
#[verifier::opaque]
pub open spec fn decl_type_step(s: ParserView) -> Step {
    let (s1, o1) = data_type_step(s);
    match o1 {
        Outcome::Value(true) => match s1.peek(0) {
            None => (s1, Outcome::Abort),
            Some(p) => {
                let is_fn = p == Some("("@);
                let s2 = if is_fn {
                    ParserView {
                        cur: TokenView { token_type: TokenType::FUNCTION, ..s1.cur },
                        ..s1
                    }
                } else {
                    s1
                };
                let tt = if is_fn {
                    TokenType::FUNCTION
                } else {
                    TokenType::VARIABLE
                };
                let (s3, o3) = expect_type(s2, tt);
                match o3 {
                    Outcome::Value(false) => s3.fail(ErrorKind::IdentifierExpected),
                    _ => (s3, o3),
                }
            },
        },
        _ => (s1, o1),
    }
}

#[verifier::opaque]
pub open spec fn var_decl_step(s: ParserView) -> Step {
    let (s1, o1) = expect_text(s, "="@);
    match o1 {
        Outcome::Value(eq) => {
            let (s2, o2) = if eq {
                constant_step(s1)
            } else {
                (s1, Outcome::Value(true))
            };
            match o2 {
                Outcome::Value(false) => s2.fail(ErrorKind::ConstantExpected),
                Outcome::Value(true) => {
                    let (s3, o3) = expect_text(s2, ";"@);
                    match o3 {
                        Outcome::Value(false) => s3.fail(ErrorKind::ExpectedSemicolon),
                        _ => (s3, o3),
                    }
                },
                _ => (s2, o2),
            }
        },
        _ => (s1, o1),
    }
}

#[verifier::opaque]
pub open spec fn param_step(s: ParserView) -> Step {
    let (s1, o1) = data_type_step(s);
    match o1 {
        Outcome::Value(true) => {
            let (s2, o2) = expect_type(s1, TokenType::VARIABLE);
            match o2 {
                Outcome::Value(false) => s2.fail(ErrorKind::ParamIdentifierExpected),
                _ => (s2, o2),
            }
        },
        _ => (s1, o1),
    }
}

/// Further parameters, each after a `,`; ends when one is missing.
#[verifier::opaque]
pub open spec fn param_list_step(s: ParserView) -> Step
    decreases s.rem(),
{
    let (s1, o1) = expect_text(s, ","@);
    match o1 {
        Outcome::Value(false) => (s1, Outcome::Value(true)),
        Outcome::Value(true) => {
            let (s2, o2) = param_step(s1);
            match o2 {
                Outcome::Value(false) => (s2, Outcome::Value(true)),
                Outcome::Value(true) => if s2.rem() < s.rem() {
                    param_list_step(s2)
                } else {
                    (s2, Outcome::Abort)
                },
                _ => (s2, o2),
            }
        },
        _ => (s1, o1),
    }
}

#[verifier::opaque]
pub open spec fn param_block_step(s: ParserView) -> Step {
    let (s1, o1) = expect_text(s, "("@);
    match o1 {
        Outcome::Value(false) => s1.fail(ErrorKind::ParamBlockOpenParen),
        Outcome::Value(true) => {
            let (s2, o2) = param_step(s1);
            match o2 {
                Outcome::Value(first) => {
                    let (s3, o3) = if first {
                        param_list_step(s2)
                    } else {
                        (s2, Outcome::Value(true))
                    };
                    match o3 {
                        Outcome::Value(_) => {
                            let (s4, o4) = expect_text(s3, ")"@);
                            match o4 {
                                Outcome::Value(false) => s4.fail(ErrorKind::MissingCloseParen),
                                _ => (s4, o4),
                            }
                        },
                        _ => (s3, o3),
                    }
                },
                _ => (s2, o2),
            }
        },
        _ => (s1, o1),
    }
}

#[verifier::opaque]
pub open spec fn func_decl_step(s: ParserView) -> Step {
    let (s1, o1) = param_block_step(s);
    match o1 {
        Outcome::Value(true) => {
            let (s2, o2) = expect_text(s1, ";"@);
            match o2 {
                Outcome::Value(false) => s2.fail(ErrorKind::ExpectedSemicolon),
                _ => (s2, o2),
            }
        },
        _ => (s1, o1),
    }
}

#[verifier::opaque]
pub open spec fn decl_step(s: ParserView) -> Step {
    let (s1, o1) = decl_type_step(s);
    match o1 {
        Outcome::Value(false) => s1.fail(ErrorKind::ExpectedDataType),
        Outcome::Value(true) => if s1.cur_is("="@) || s1.cur_is(";"@) {
            let (s2, o2) = var_decl_step(s1);
            match o2 {
                Outcome::Value(false) => s2.fail(ErrorKind::ExpectedVarDecl),
                _ => (s2, o2),
            }
        } else if s1.cur_is("("@) {
            let (s2, o2) = func_decl_step(s1);
            match o2 {
                Outcome::Value(false) => s2.fail(ErrorKind::ExpectedFuncDecl),
                _ => (s2, o2),
            }
        } else {
            s1.fail(ErrorKind::MissingDeclContinuation)
        },
        _ => (s1, o1),
    }
}

// ---------------------------------------------------------------------------
// Expressions. Each step is measured by the tokens not yet accepted and
// by its place in the call order (arguments 4, expression 3, simple expression
// 2, term 1, factor 0). A call that could not lower that measure is one the
// parser repeats without end, and is an abort.
/// An expression: a simple expression, optionally a relational operator and
/// another simple expression. Its value is that of the first one.
#[verifier::opaque]
pub open spec fn expr_step(s: ParserView) -> Step
    decreases s.rem(), 3nat,
{
    let (s1, o1) = smpl_expr_step(s);
    match o1 {
        Outcome::Value(smpl) => {
            let (s2, o2) = rel_op_step(s1);
            match o2 {
                Outcome::Value(true) => if s2.cur_type_is(TokenType::INTCONSTANT) || s2.cur_type_is(
                    TokenType::FLOATCONSTANT,
                ) || s2.cur_is("("@) || s2.cur_type_is(TokenType::VARIABLE) {
                    if s2.rem() <= s.rem() {
                        let (s3, o3) = smpl_expr_step(s2);
                        match o3 {
                            Outcome::Value(false) => s3.fail(ErrorKind::RelOpOperandExpected),
                            Outcome::Value(true) => (s3, Outcome::Value(smpl)),
                            _ => (s3, o3),
                        }
                    } else {
                        (s2, Outcome::Abort)
                    }
                } else {
                    (s2, Outcome::Value(smpl))
                },
                Outcome::Value(false) => (s2, Outcome::Value(smpl)),
                _ => (s2, o2),
            }
        },
        _ => (s1, o1),
    }
}

/// A term, optionally followed by an additive operator and one more term
/// (only one, and only when a token follows the operator).
#[verifier::opaque]
pub open spec fn smpl_expr_step(s: ParserView) -> Step
    decreases s.rem(), 2nat,
{
    let (s1, o1) = term_step(s);
    match o1 {
        Outcome::Value(t) => if s1.cur_is("+"@) || s1.cur_is("-"@) {
            let (s2, o2) = add_op_step(s1);
            match o2 {
                Outcome::Value(false) => s2.fail(ErrorKind::MissingAddOp),
                Outcome::Value(true) => match s2.peek(0) {
                    None => (s2, Outcome::Abort),
                    Some(None) => (s2, Outcome::Value(t)),
                    Some(Some(_)) => if s2.rem() <= s.rem() {
                        let (s3, o3) = term_step(s2);
                        match o3 {
                            Outcome::Value(false) => s3.fail(ErrorKind::InvalidTerm),
                            Outcome::Value(true) => (s3, Outcome::Value(t)),
                            _ => (s3, o3),
                        }
                    } else {
                        (s2, Outcome::Abort)
                    },
                },
                _ => (s2, o2),
            }
        } else {
            (s1, o1)
        },
        _ => (s1, o1),
    }
}

/// A factor, optionally followed by a multiplicative operator and one more
/// factor (only one, and only when a token follows the operator).
#[verifier::opaque]
pub open spec fn term_step(s: ParserView) -> Step
    decreases s.rem(), 1nat,
{
    let (s1, o1) = factor_step(s);
    match o1 {
        Outcome::Value(f) => if s1.cur_is("*"@) || s1.cur_is("/"@) {
            let (s2, o2) = mult_op_step(s1);
            match o2 {
                Outcome::Value(false) => s2.fail(ErrorKind::MissingMultOp),
                Outcome::Value(true) => match s2.peek(0) {
                    None => (s2, Outcome::Abort),
                    Some(None) => (s2, Outcome::Value(f)),
                    Some(Some(_)) => if s2.rem() <= s.rem() {
                        let (s3, o3) = factor_step(s2);
                        match o3 {
                            Outcome::Value(false) => s3.fail(ErrorKind::InvalidFactor),
                            Outcome::Value(true) => (s3, Outcome::Value(f)),
                            _ => (s3, o3),
                        }
                    } else {
                        (s2, Outcome::Abort)
                    },
                },
                _ => (s2, o2),
            }
        } else {
            (s1, o1)
        },
        _ => (s1, o1),
    }
}

/// A constant, an identifier (a call when `(` follows: the identifier
/// becomes a function name and its arguments are parsed), or a parenthesised
/// expression.
#[verifier::opaque]
pub open spec fn factor_step(s: ParserView) -> Step
    decreases s.rem(), 0nat,
{
    let (s1, o1) = expect_type(s, TokenType::FLOATCONSTANT);
    match o1 {
        Outcome::Value(true) => (s1, o1),
        Outcome::Value(false) => {
            let (s2, o2) = expect_type(s1, TokenType::INTCONSTANT);
            match o2 {
                Outcome::Value(true) => (s2, o2),
                Outcome::Value(false) => if s2.cur_type_is(TokenType::VARIABLE) {
                    match s2.peek(0) {
                        None => (s2, Outcome::Abort),
                        Some(p) => {
                            let is_fn = p == Some("("@);
                            let s3 = if is_fn {
                                ParserView {
                                    cur: TokenView { token_type: TokenType::FUNCTION, ..s2.cur },
                                    ..s2
                                }
                            } else {
                                s2
                            };
                            let tt = if is_fn {
                                TokenType::FUNCTION
                            } else {
                                TokenType::VARIABLE
                            };
                            let (s4, o4) = expect_type(s3, tt);
                            match o4 {
                                Outcome::Value(false) => s4.fail(ErrorKind::MissingIdentifier),
                                Outcome::Value(true) => {
                                    let (s5, o5) = expect_text(s4, "("@);
                                    match o5 {
                                        Outcome::Value(false) => (s5, Outcome::Value(true)),
                                        Outcome::Value(true) => if s5.rem() < s.rem() {
                                            let (s6, o6) = expr_step(s5);
                                            match o6 {
                                                Outcome::Value(false) => (s6, o6),
                                                Outcome::Value(true) => if s6.rem() < s.rem() {
                                                    let (s7, o7) = arg_list_step(s6);
                                                    match o7 {
                                                        Outcome::Value(_) => {
                                                            let (s8, o8) = expect_text(s7, ")"@);
                                                            match o8 {
                                                                Outcome::Value(false) => s8.fail(
                                                                    ErrorKind::MissingCloseParen,
                                                                ),
                                                                _ => (s8, o8),
                                                            }
                                                        },
                                                        _ => (s7, o7),
                                                    }
                                                } else {
                                                    (s6, Outcome::Abort)
                                                },
                                                _ => (s6, o6),
                                            }
                                        } else {
                                            (s5, Outcome::Abort)
                                        },
                                        _ => (s5, o5),
                                    }
                                },
                                _ => (s4, o4),
                            }
                        },
                    }
                } else {
                    let (s3, o3) = expect_text(s2, "("@);
                    match o3 {
                        Outcome::Value(false) => (s3, o3),
                        Outcome::Value(true) => if s3.rem() < s.rem() {
                            let (s4, o4) = expr_step(s3);
                            match o4 {
                                Outcome::Value(false) => (s4, o4),
                                Outcome::Value(true) => {
                                    let (s5, o5) = expect_text(s4, ")"@);
                                    match o5 {
                                        Outcome::Value(false) => s5.fail(
                                            ErrorKind::MissingCloseParen,
                                        ),
                                        _ => (s5, o5),
                                    }
                                },
                                _ => (s4, o4),
                            }
                        } else {
                            (s3, Outcome::Abort)
                        },
                        _ => (s3, o3),
                    }
                },
                _ => (s2, o2),
            }
        },
        _ => (s1, o1),
    }
}

/// Further call arguments, each after a `,`; ends when one is missing.
#[verifier::opaque]
pub open spec fn arg_list_step(s: ParserView) -> Step
    decreases s.rem(), 4nat,
{
    let (s1, o1) = expect_text(s, ","@);
    match o1 {
        Outcome::Value(false) => (s1, Outcome::Value(true)),
        Outcome::Value(true) => if s1.rem() <= s.rem() {
            let (s2, o2) = expr_step(s1);
            match o2 {
                Outcome::Value(false) => (s2, Outcome::Value(true)),
                Outcome::Value(true) => if s2.rem() < s.rem() {
                    arg_list_step(s2)
                } else {
                    (s2, Outcome::Abort)
                },
                _ => (s2, o2),
            }
        } else {
            (s1, Outcome::Abort)
        },
        _ => (s1, o1),
    }
}

// ---------------------------------------------------------------------------
// Statements, blocks and the program.
/// After `x =`, further `y =` pairs are accepted in turn.
#[verifier::opaque]
pub open spec fn assign_chain_step(s: ParserView, next: Seq<char>) -> Step
    decreases s.rem(),
{
    if !s.ended && s.cur_type_is(TokenType::VARIABLE) && next == "="@ {
        let (s1, o1) = consume(s);
        match o1 {
            Outcome::Value(_) => {
                let (s2, o2) = expect_text(s1, "="@);
                match o2 {
                    Outcome::Value(_) => match s2.peek(0) {
                        None => (s2, Outcome::Abort),
                        Some(None) => (s2, Outcome::Value(true)),
                        Some(Some(n)) => if s2.rem() < s.rem() {
                            assign_chain_step(s2, n)
                        } else {
                            (s2, Outcome::Abort)
                        },
                    },
                    _ => (s2, o2),
                }
            },
            _ => (s1, o1),
        }
    } else {
        (s, Outcome::Value(true))
    }
}

#[verifier::opaque]
pub open spec fn assign_step(s: ParserView) -> Step {
    let (s1, o1) = expect_type(s, TokenType::VARIABLE);
    match o1 {
        Outcome::Value(false) => s1.fail(ErrorKind::ExpectedVariable),
        Outcome::Value(true) => {
            let (s2, o2) = expect_text(s1, "="@);
            match o2 {
                Outcome::Value(false) => s2.fail(ErrorKind::MissingAssignEquals),
                Outcome::Value(true) => {
                    let (s3, o3) = match s2.peek(0) {
                        None => (s2, Outcome::Abort),
                        Some(None) => (s2, Outcome::Value(true)),
                        Some(Some(n)) => assign_chain_step(s2, n),
                    };
                    match o3 {
                        Outcome::Value(_) => {
                            let (s4, o4) = expr_step(s3);
                            match o4 {
                                Outcome::Value(false) => s4.fail(ErrorKind::ExpressionExpected),
                                Outcome::Value(true) => {
                                    let (s5, o5) = expect_text(s4, ";"@);
                                    match o5 {
                                        Outcome::Value(false) => s5.fail(
                                            ErrorKind::ExpectedSemicolon,
                                        ),
                                        _ => (s5, o5),
                                    }
                                },
                                _ => (s4, o4),
                            }
                        },
                        _ => (s3, o3),
                    }
                },
                _ => (s2, o2),
            }
        },
        _ => (s1, o1),
    }
}

#[verifier::opaque]
pub open spec fn ret_stmnt_step(s: ParserView) -> Step {
    let (s1, o1) = expect_text(s, "return"@);
    match o1 {
        Outcome::Value(_) => {
            let (s2, o2) = expr_step(s1);
            match o2 {
                Outcome::Value(false) => s2.fail(ErrorKind::ReturnMissingExpression),
                Outcome::Value(true) => {
                    let (s3, o3) = expect_text(s2, ";"@);
                    match o3 {
                        Outcome::Value(false) => s3.fail(ErrorKind::ExpectedSemicolon),
                        _ => (s3, o3),
                    }
                },
                _ => (s2, o2),
            }
        },
        _ => (s1, o1),
    }
}

/// Whether the current token can start a statement.
pub open spec fn starts_stmnt(s: ParserView) -> bool {
    ||| s.cur_is("while"@)
    ||| s.cur_is("if"@)
    ||| s.cur_is("return"@)
    ||| s.cur_is("("@)
    ||| s.cur_type_is(TokenType::VARIABLE)
}

/// Declarations at the head of a block.
#[verifier::opaque]
pub open spec fn block_decl_list_step(s: ParserView) -> Step
    decreases s.rem(),
{
    match check_decl_step(s).1 {
        Outcome::Value(true) => {
            let (s1, o1) = decl_step(s);
            match o1 {
                Outcome::Value(false) => s1.fail(ErrorKind::InvalidDeclaration),
                Outcome::Value(true) => if s1.rem() < s.rem() {
                    block_decl_list_step(s1)
                } else {
                    (s1, Outcome::Abort)
                },
                _ => (s1, o1),
            }
        },
        Outcome::Value(false) => (s, Outcome::Value(true)),
        _ => (s, Outcome::Abort),
    }
}

// The measure of the statement steps: tokens left, then block 5, the lists
// of statements and of function definitions 4, statement 3, while and if 2,
// their common body and function definition 1.
/// `{`, declarations, statements, function definitions, `}`.
#[verifier::opaque]
pub open spec fn block_step(s: ParserView) -> Step
    decreases s.rem(), 5nat,
{
    let (s1, o1) = expect_text(s, "{"@);
    match o1 {
        Outcome::Value(false) => s1.fail(ErrorKind::MissingOpenBrace),
        Outcome::Value(true) => {
            let (s2, o2) = block_decl_list_step(s1);
            match o2 {
                Outcome::Value(_) => if s2.rem() <= s.rem() {
                    let (s3, o3) = stmnt_list_step(s2);
                    match o3 {
                        Outcome::Value(_) => if s3.rem() <= s.rem() {
                            let (s4, o4) = block_func_list_step(s3);
                            match o4 {
                                Outcome::Value(_) => {
                                    let (s5, o5) = expect_text(s4, "}"@);
                                    match o5 {
                                        Outcome::Value(false) => s5.fail(
                                            ErrorKind::MissingCloseBrace,
                                        ),
                                        _ => (s5, o5),
                                    }
                                },
                                _ => (s4, o4),
                            }
                        } else {
                            (s3, Outcome::Abort)
                        },
                        _ => (s3, o3),
                    }
                } else {
                    (s2, Outcome::Abort)
                },
                _ => (s2, o2),
            }
        },
        _ => (s1, o1),
    }
}

/// Statements, while the current token can start one.
#[verifier::opaque]
pub open spec fn stmnt_list_step(s: ParserView) -> Step
    decreases s.rem(), 4nat,
{
    if starts_stmnt(s) {
        let (s1, o1) = stmnt_step(s);
        match o1 {
            Outcome::Value(false) => s1.fail(ErrorKind::InvalidStatement),
            Outcome::Value(true) => if s1.rem() < s.rem() {
                stmnt_list_step(s1)
            } else {
                (s1, Outcome::Abort)
            },
            _ => (s1, o1),
        }
    } else {
        (s, Outcome::Value(true))
    }
}

/// Function definitions at the end of a block.
#[verifier::opaque]
pub open spec fn block_func_list_step(s: ParserView) -> Step
    decreases s.rem(), 4nat,
{
    match check_decl_step(s).1 {
        Outcome::Value(true) => {
            let (s1, o1) = func_def_step(s);
            match o1 {
                Outcome::Value(false) => s1.fail(ErrorKind::InvalidFunctionDef),
                Outcome::Value(true) => if s1.rem() < s.rem() {
                    block_func_list_step(s1)
                } else {
                    (s1, Outcome::Abort)
                },
                _ => (s1, o1),
            }
        },
        Outcome::Value(false) => (s, Outcome::Value(true)),
        _ => (s, Outcome::Abort),
    }
}

/// An assignment (a variable followed by `=`), a while loop, an if
/// statement, a return statement, or an expression followed by `;`.
#[verifier::opaque]
pub open spec fn stmnt_step(s: ParserView) -> Step
    decreases s.rem(), 3nat,
{
    match s.peek(0) {
        None => (s, Outcome::Abort),
        Some(p) => if s.cur_type_is(TokenType::VARIABLE) && p == Some("="@) {
            let (s1, o1) = assign_step(s);
            match o1 {
                Outcome::Value(false) => s1.fail(ErrorKind::ExpectedAssignment),
                _ => (s1, o1),
            }
        } else if s.cur_is("while"@) {
            while_loop_step(s)
        } else if s.cur_is("if"@) {
            if_stmnt_step(s)
        } else if s.cur_is("return"@) {
            ret_stmnt_step(s)
        } else {
            let (s1, o1) = expr_step(s);
            match o1 {
                Outcome::Value(true) => {
                    let (s2, o2) = expect_text(s1, ";"@);
                    match o2 {
                        Outcome::Value(false) => s2.fail(ErrorKind::ExpectedSemicolon),
                        _ => (s2, o2),
                    }
                },
                _ => (s1, o1),
            }
        },
    }
}

/// `keyword ( expression ) block`, with the diagnostics of a while loop
/// (`is_while`) or of an if statement.
#[verifier::opaque]
pub open spec fn guarded_block_step(s: ParserView, is_while: bool) -> Step
    decreases s.rem(), 1nat,
{
    let (s1, o1) = expect_text(
        s,
        if is_while {
            "while"@
        } else {
            "if"@
        },
    );
    match o1 {
        Outcome::Value(false) => s1.fail(
            if is_while {
                ErrorKind::WhileMissingKeyword
            } else {
                ErrorKind::IfMissingKeyword
            },
        ),
        Outcome::Value(true) => {
            let (s2, o2) = expect_text(s1, "("@);
            match o2 {
                Outcome::Value(false) => s2.fail(
                    if is_while {
                        ErrorKind::WhileMissingOpenParen
                    } else {
                        ErrorKind::IfMissingOpenParen
                    },
                ),
                Outcome::Value(true) => {
                    let (s3, o3) = expr_step(s2);
                    match o3 {
                        Outcome::Value(false) => s3.fail(
                            if is_while {
                                ErrorKind::WhileMissingExpression
                            } else {
                                ErrorKind::IfMissingExpression
                            },
                        ),
                        Outcome::Value(true) => {
                            let (s4, o4) = expect_text(s3, ")"@);
                            match o4 {
                                Outcome::Value(false) => s4.fail(
                                    if is_while {
                                        ErrorKind::WhileMissingCloseParen
                                    } else {
                                        ErrorKind::IfMissingCloseParen
                                    },
                                ),
                                Outcome::Value(true) => if s4.rem() < s.rem() {
                                    let (s5, o5) = block_step(s4);
                                    match o5 {
                                        Outcome::Value(false) => s5.fail(
                                            if is_while {
                                                ErrorKind::WhileBlockExpected
                                            } else {
                                                ErrorKind::IfBlockExpected
                                            },
                                        ),
                                        _ => (s5, o5),
                                    }
                                } else {
                                    (s4, Outcome::Abort)
                                },
                                _ => (s4, o4),
                            }
                        },
                        _ => (s3, o3),
                    }
                },
                _ => (s2, o2),
            }
        },
        _ => (s1, o1),
    }
}

#[verifier::opaque]
pub open spec fn while_loop_step(s: ParserView) -> Step
    decreases s.rem(), 2nat,
{
    guarded_block_step(s, true)
}

#[verifier::opaque]
pub open spec fn if_stmnt_step(s: ParserView) -> Step
    decreases s.rem(), 2nat,
{
    guarded_block_step(s, false)
}

/// A data type and name, a parameter block and a body.
#[verifier::opaque]
pub open spec fn func_def_step(s: ParserView) -> Step
    decreases s.rem(), 1nat,
{
    let (s1, o1) = decl_type_step(s);
    match o1 {
        Outcome::Value(false) => s1.fail(ErrorKind::FuncDefTypeExpected),
        Outcome::Value(true) => {
            let (s2, o2) = param_block_step(s1);
            match o2 {
                Outcome::Value(false) => s2.fail(ErrorKind::FuncDefParamBlockExpected),
                Outcome::Value(true) => if s2.rem() < s.rem() {
                    let (s3, o3) = block_step(s2);
                    match o3 {
                        Outcome::Value(false) => s3.fail(ErrorKind::FuncDefBlockExpected),
                        _ => (s3, o3),
                    }
                } else {
                    (s2, Outcome::Abort)
                },
                _ => (s2, o2),
            }
        },
        _ => (s1, o1),
    }
}

/// `void main ( ) block`.
#[verifier::opaque]
pub open spec fn main_decl_step(s: ParserView) -> Step {
    let (s1, o1) = expect_text(s, "void"@);
    match o1 {
        Outcome::Value(false) => s1.fail(ErrorKind::MainMissingVoid),
        Outcome::Value(true) => {
            let (s2, o2) = expect_text(s1, "main"@);
            match o2 {
                Outcome::Value(false) => s2.fail(ErrorKind::MainMissingMain),
                Outcome::Value(true) => {
                    let (s3, o3) = expect_text(s2, "("@);
                    match o3 {
                        Outcome::Value(false) => s3.fail(ErrorKind::MainMissingOpenParen),
                        Outcome::Value(true) => {
                            let (s4, o4) = expect_text(s3, ")"@);
                            match o4 {
                                Outcome::Value(false) => s4.fail(ErrorKind::MainMissingCloseParen),
                                Outcome::Value(true) => {
                                    let (s5, o5) = block_step(s4);
                                    match o5 {
                                        Outcome::Value(false) => s5.fail(
                                            ErrorKind::MainBlockExpected,
                                        ),
                                        _ => (s5, o5),
                                    }
                                },
                                _ => (s4, o4),
                            }
                        },
                        _ => (s3, o3),
                    }
                },
                _ => (s2, o2),
            }
        },
        _ => (s1, o1),
    }
}

/// Declarations before `main`.
#[verifier::opaque]
pub open spec fn program_decl_list_step(s: ParserView) -> Step
    decreases s.rem(),
{
    match check_decl_step(s).1 {
        Outcome::Value(true) => {
            let (s1, o1) = decl_step(s);
            match o1 {
                Outcome::Value(_) => if s1.rem() < s.rem() {
                    program_decl_list_step(s1)
                } else {
                    (s1, Outcome::Abort)
                },
                _ => (s1, o1),
            }
        },
        Outcome::Value(false) => (s, Outcome::Value(true)),
        _ => (s, Outcome::Abort),
    }
}

/// Function definitions after `main`.
#[verifier::opaque]
pub open spec fn program_func_list_step(s: ParserView) -> Step
    decreases s.rem(),
{
    match check_decl_step(s).1 {
        Outcome::Value(true) => {
            let (s1, o1) = func_def_step(s);
            match o1 {
                Outcome::Value(_) => if s1.rem() < s.rem() {
                    program_func_list_step(s1)
                } else {
                    (s1, Outcome::Abort)
                },
                _ => (s1, o1),
            }
        },
        Outcome::Value(false) => (s, Outcome::Value(true)),
        _ => (s, Outcome::Abort),
    }
}

/// Declarations, the main declaration, then function definitions, which must
/// reach the end of the text.
#[verifier::opaque]
pub open spec fn program_step(s: ParserView) -> Step {
    let (s1, o1) = program_decl_list_step(s);
    match o1 {
        Outcome::Value(_) => {
            let (s2, o2) = main_decl_step(s1);
            match o2 {
                Outcome::Value(false) => s2.fail(ErrorKind::MissingMainDecl),
                Outcome::Value(true) => {
                    let (s3, o3) = program_func_list_step(s2);
                    match o3 {
                        Outcome::Value(_) => if s3.ended {
                            (s3, Outcome::Value(true))
                        } else {
                            s3.fail(ErrorKind::TrailingInput)
                        },
                        _ => (s3, o3),
                    }
                },
                _ => (s2, o2),
            }
        },
        _ => (s1, o1),
    }
}

impl ParserView {
    pub open spec fn out_safe(self) -> bool {
        &&& self.out_cur < i32::MAX
        &&& self.num_parsed > self.out_cur + 1 ==> self.parsed.len() >= 1
    }

    /// The parser after handing out the next accepted token, and that token.
    pub open spec fn out(self) -> (ParserView, Option<TokenView>) {
        let c = (self.out_cur + 1) as i32;
        if self.num_parsed <= c {
            (ParserView { out_cur: c, ..self }, None)
        } else {
            (ParserView { out_cur: c, parsed: self.parsed.drop_first(), ..self }, Some(self.parsed[0]))
        }
    }

    /// The line of the next accepted token to be handed out, if any.
    pub open spec fn peek_out(self) -> Option<i32> {
        if self.num_parsed <= self.out_cur + 1 {
            None
        } else {
            Some(self.parsed[0].line_number)
        }
    }
}

} // verus!
