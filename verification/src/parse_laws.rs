use vstd::prelude::*;

use crate::parse_model::{
    add_op_step, arg_list_step, assign_chain_step, assign_step, block_decl_list_step,
    block_func_list_step, block_step, check_decl_step, constant_step, consume, data_type_step,
    decl_step, decl_type_step, expect_if, expect_text, expect_type, expr_step, factor_step,
    float_type_step, func_decl_step, func_def_step, guarded_block_step, if_stmnt_step,
    int_type_step, is_float_type_word, is_int_type_word, main_decl_step, mult_op_step,
    param_block_step, param_list_step, param_step, program_decl_list_step,
    program_func_list_step, program_step, rel_op_step, ret_stmnt_step, smpl_expr_step,
    stmnt_list_step, stmnt_step, term_step, var_decl_step, while_loop_step, Outcome, ParserView,
};
use crate::parse_model::{aborts, start_view};
use crate::scanner::{all_scanner_typed, lemma_scanned_reads_all, lemma_scanned_typed, ScannerView};
use crate::token::{TokenType, TokenView};

verus! {

/// Identifiers are marked as called functions only where a call follows:
/// every accepted token typed `FUNCTION` is followed by `(` (the next
/// accepted token, or the current one after the last accepted); the current
/// token is typed `FUNCTION` only when the scanner's next token is `(`, and
/// is typed as an operator or a function when its text is `(`; no token the
/// scanner still holds is typed `FUNCTION`, and one with the text `(` is
/// typed as an operator; and there are at most `i32::MAX + 1` tokens.
#[verifier::opaque]
pub open spec fn calls_marked(s: ParserView) -> bool {
    &&& forall|i: int|
        0 <= i < s.parsed.len() && (#[trigger] s.parsed[i]).token_type == TokenType::FUNCTION
            ==> if i + 1 < s.parsed.len() {
            s.parsed[i + 1].text == "("@
        } else {
            s.cur.text == "("@
        }
    &&& s.cur.token_type == TokenType::FUNCTION ==> {
        &&& 0 <= s.scanner.cur + 1 < s.scanner.num_tokens
        &&& s.scanner.tokens.len() >= 1
        &&& s.scanner.tokens[0].text == "("@
    }
    &&& s.cur.text == "("@ ==> s.cur.token_type == TokenType::OPERATOR || s.cur.token_type
        == TokenType::FUNCTION
    &&& forall|i: int|
        0 <= i < s.scanner.tokens.len() ==> {
            &&& (#[trigger] s.scanner.tokens[i]).token_type != TokenType::FUNCTION
            &&& s.scanner.tokens[i].text == "("@ ==> s.scanner.tokens[i].token_type
                == TokenType::OPERATOR
        }
    &&& s.scanner.num_tokens - 1 <= i32::MAX
}

/// `t` is a state the parser can reach from `s` by going forward: the
/// scanner's remaining tokens are a suffix of those it had, the accepted
/// tokens of `s` are a prefix of those of `t`, the count of accepted tokens
/// grew with the record, and nothing else of the scanner or of the output
/// cursor changed.
pub open spec fn moves_forward(s: ParserView, t: ParserView) -> bool {
    &&& t.rem() <= s.rem()
    &&& t.held() <= s.held()
    &&& s.ended ==> t.ended
    &&& t.scanner.tokens == s.scanner.tokens.skip(s.held() - t.held())
    &&& t.scanner.num_tokens == s.scanner.num_tokens
    &&& t.scanner.cs == s.scanner.cs
    &&& t.scanner.cur - s.scanner.cur == s.held() - t.held()
    &&& s.parsed.len() <= t.parsed.len()
    &&& t.parsed.subrange(0, s.parsed.len() as int) == s.parsed
    &&& t.num_parsed - t.parsed.len() == s.num_parsed - s.parsed.len()
    &&& t.out_cur == s.out_cur
}

/// The text and line of a token: what the coloured page shows of it.
pub open spec fn text_line(t: TokenView) -> (Seq<char>, i32) {
    (t.text, t.line_number)
}

pub open spec fn texts_lines(ts: Seq<TokenView>) -> Seq<(Seq<char>, i32)> {
    ts.map_values(|t: TokenView| text_line(t))
}

/// The tokens a parser state accounts for, by text and line: those it has
/// accepted, then, until the end of the text is reached, the current token
/// and those the scanner still holds.
pub open spec fn seen(s: ParserView) -> Seq<(Seq<char>, i32)> {
    texts_lines(s.parsed) + if s.ended {
        Seq::empty()
    } else {
        seq![text_line(s.cur)] + texts_lines(s.scanner.tokens)
    }
}

/// The scanner's index and count agree with the tokens it still holds, there
/// are between one and `i32::MAX + 1` tokens, and once the end of the text
/// is reached none remains.
pub open spec fn linked(s: ParserView) -> bool {
    &&& s.scanner.cur >= -1
    &&& s.scanner.cur + 1 + s.scanner.tokens.len() == s.scanner.num_tokens
    &&& 1 <= s.scanner.num_tokens
    &&& s.scanner.num_tokens - 1 <= i32::MAX
    &&& s.ended ==> s.scanner.tokens.len() == 0
}

/// `t` is reached from `s` by going forward; calls stay marked (when
/// `calls_marked` holds of `s` it holds of `t`); and no token is lost or
/// repeated (when `linked` holds of `s`, it holds of `t` and both account
/// for the same tokens).
#[verifier::opaque]
pub open spec fn advances(s: ParserView, t: ParserView) -> bool {
    &&& moves_forward(s, t)
    &&& calls_marked(s) ==> calls_marked(t)
    &&& linked(s) ==> linked(t) && seen(t) == seen(s)
}

pub proof fn lemma_advances_refl(s: ParserView)
    ensures
        advances(s, s),
{
    reveal(advances);
    assert(s.scanner.tokens.skip(0) =~= s.scanner.tokens);
    assert(s.parsed.subrange(0, s.parsed.len() as int) =~= s.parsed);
}

pub proof fn lemma_moves_forward_trans(a: ParserView, b: ParserView, c: ParserView)
    requires
        moves_forward(a, b),
        moves_forward(b, c),
    ensures
        moves_forward(a, c),
{
    assert(c.scanner.tokens =~= a.scanner.tokens.skip(a.held() - c.held()));
    assert(c.parsed.subrange(0, a.parsed.len() as int) =~= a.parsed) by {
        assert(c.parsed.subrange(0, a.parsed.len() as int) =~= c.parsed.subrange(
            0,
            b.parsed.len() as int,
        ).subrange(0, a.parsed.len() as int));
    }
}

pub proof fn lemma_advances_trans(a: ParserView, b: ParserView, c: ParserView)
    requires
        advances(a, b),
        advances(b, c),
    ensures
        advances(a, c),
{
    reveal(advances);
    lemma_moves_forward_trans(a, b, c);
}

/// Marking the current token as a function name, when `(` is the next
/// token, goes nowhere and keeps calls marked.
pub proof fn lemma_retype_advances(s: ParserView, tt: TokenType)
    requires
        tt == TokenType::FUNCTION,
        s.peek(0) == Some(Some("("@)),
    ensures
        advances(s, ParserView { cur: TokenView { token_type: tt, ..s.cur }, ..s }),
{
    reveal(advances);
    reveal(calls_marked);
    lemma_advances_refl(s);
}

/// Recording a token that is no function name keeps calls marked.
#[verifier::spinoff_prover]
#[verifier::rlimit(40)]
proof fn lemma_recorded_marked(s: ParserView)
    requires
        calls_marked(s),
        s.recorded() is Some,
        s.cur.token_type != TokenType::FUNCTION,
    ensures
        calls_marked(s.recorded().unwrap()),
        s.recorded().unwrap().parsed.last().token_type != TokenType::FUNCTION,
{
    reveal(calls_marked);
    let s1 = s.recorded().unwrap();
    assert forall|i: int|
        0 <= i < s1.parsed.len() && (#[trigger] s1.parsed[i]).token_type
            == TokenType::FUNCTION implies if i + 1 < s1.parsed.len() {
        s1.parsed[i + 1].text == "("@
    } else {
        s1.cur.text == "("@
    } by {
        if i + 1 < s.parsed.len() {
            assert(s1.parsed[i] == s.parsed[i]);
            assert(s1.parsed[i + 1] == s.parsed[i + 1]);
        } else if i + 1 == s.parsed.len() {
            assert(s1.parsed[i] == s.parsed[i]);
        }
    }
}

/// Accepting a function name moves on to the `(` after it and keeps calls
/// marked.
#[verifier::spinoff_prover]
#[verifier::rlimit(40)]
proof fn lemma_consume_call_marked(s: ParserView)
    requires
        calls_marked(s),
        s.recorded() is Some,
        s.cur.token_type == TokenType::FUNCTION,
    ensures
        s.recorded().unwrap().inc() is Some,
        calls_marked(s.recorded().unwrap().inc().unwrap()),
{
    reveal(calls_marked);
    let s1 = s.recorded().unwrap();
    let s2 = s1.inc().unwrap();
    assert(s2.cur == s.scanner.tokens[0]);
    assert(s2.parsed == s1.parsed);
    assert forall|i: int|
        0 <= i < s2.parsed.len() && (#[trigger] s2.parsed[i]).token_type
            == TokenType::FUNCTION implies if i + 1 < s2.parsed.len() {
        s2.parsed[i + 1].text == "("@
    } else {
        s2.cur.text == "("@
    } by {
        if i + 1 < s.parsed.len() {
            assert(s2.parsed[i] == s.parsed[i]);
            assert(s2.parsed[i + 1] == s.parsed[i + 1]);
        } else if i + 1 == s.parsed.len() {
            assert(s2.parsed[i] == s.parsed[i]);
        }
    }
    assert forall|i: int| 0 <= i < s2.scanner.tokens.len() implies {
        &&& (#[trigger] s2.scanner.tokens[i]).token_type != TokenType::FUNCTION
        &&& s2.scanner.tokens[i].text == "("@ ==> s2.scanner.tokens[i].token_type
            == TokenType::OPERATOR
    } by {
        assert(s2.scanner.tokens[i] == s.scanner.tokens[i + 1]);
    }
}

/// Accepting the current token before the end of the text keeps the
/// tokens accounted for: it moves from the current token to the accepted
/// ones.
proof fn lemma_consume_linked(s: ParserView)
    requires
        linked(s),
        !s.ended,
    ensures
        linked(consume(s).0),
        seen(consume(s).0) == seen(s),
{
    if let Some(s1) = s.recorded() {
        let r = TokenView { token_type: crate::parse_model::recorded_type(s.cur.token_type), ..s.cur };
        assert(texts_lines(s1.parsed) =~= texts_lines(s.parsed).push(text_line(s.cur))) by {
            assert(s1.parsed =~= s.parsed.push(r));
        }
        let s2 = s1.inc().unwrap();
        if s.scanner.cur == s.scanner.num_tokens - 1 {
            assert(texts_lines(s.scanner.tokens) =~= Seq::empty());
            assert(seen(s2) =~= seen(s));
        } else {
            assert(s2.scanner.tokens =~= s.scanner.tokens.drop_first());
            assert(s2.cur == s.scanner.tokens[0]);
            assert(texts_lines(s.scanner.tokens) =~= seq![text_line(s.scanner.tokens[0])]
                + texts_lines(s2.scanner.tokens));
            assert(seen(s2) =~= seen(s));
        }
    }
}

/// Accepting the current token before the end of the text goes forward,
/// keeps calls marked and keeps the tokens accounted for.
pub proof fn lemma_consume_advances(s: ParserView)
    requires
        !s.ended,
    ensures
        advances(s, consume(s).0),
{
    reveal(advances);
    lemma_advances_refl(s);
    if linked(s) {
        lemma_consume_linked(s);
    }
    if let Some(s1) = s.recorded() {
        assert(moves_forward(s, s1)) by {
            assert(s1.parsed.subrange(0, s.parsed.len() as int) =~= s.parsed);
            assert(s1.scanner.tokens.skip(0) =~= s1.scanner.tokens);
        }
        if calls_marked(s) && s.cur.token_type == TokenType::FUNCTION {
            lemma_consume_call_marked(s);
            lemma_inc_advances(s1);
            lemma_moves_forward_trans(s, s1, s1.inc().unwrap());
        } else {
            if calls_marked(s) {
                lemma_recorded_marked(s);
            }
            if s1.inc() is Some {
                lemma_inc_advances(s1);
                lemma_moves_forward_trans(s, s1, s1.inc().unwrap());
            }
        }
    }
}

pub proof fn lemma_expect_text_advances(s: ParserView, t: Seq<char>)
    ensures
        advances(s, expect_text(s, t).0),
{
    reveal(advances);
    lemma_advances_refl(s);
    if !s.ended {
        lemma_consume_advances(s);
    }
}

pub proof fn lemma_expect_type_advances(s: ParserView, tt: TokenType)
    ensures
        advances(s, expect_type(s, tt).0),
{
    reveal(advances);
    lemma_advances_refl(s);
    if !s.ended {
        lemma_consume_advances(s);
    }
}

pub proof fn lemma_expect_if_advances(s: ParserView, ok: bool)
    ensures
        advances(s, expect_if(s, ok).0),
{
    reveal(advances);
    lemma_advances_refl(s);
    if !s.ended {
        lemma_consume_advances(s);
    }
}

pub proof fn lemma_rel_op_advances(s: ParserView)
    ensures
        advances(s, rel_op_step(s).0),
{
    reveal(rel_op_step);
    lemma_expect_if_advances(s, crate::parse_model::is_rel_op(s.cur.text));
}

pub proof fn lemma_add_op_advances(s: ParserView)
    ensures
        advances(s, add_op_step(s).0),
{
    reveal(add_op_step);
    lemma_expect_if_advances(s, crate::parse_model::is_add_op(s.cur.text));
}

pub proof fn lemma_mult_op_advances(s: ParserView)
    ensures
        advances(s, mult_op_step(s).0),
{
    reveal(mult_op_step);
    lemma_expect_if_advances(s, crate::parse_model::is_mult_op(s.cur.text));
}

pub proof fn lemma_float_type_advances(s: ParserView)
    ensures
        advances(s, float_type_step(s).0),
{
    reveal(float_type_step);
    lemma_expect_if_advances(s, is_float_type_word(s.cur.text));
}

pub proof fn lemma_constant_advances(s: ParserView)
    ensures
        advances(s, constant_step(s).0),
{
    reveal(constant_step);
    lemma_expect_type_advances(s, TokenType::FLOATCONSTANT);
}

pub proof fn lemma_check_decl_unchanged(s: ParserView)
    ensures
        check_decl_step(s).0 == s,
        advances(s, check_decl_step(s).0),
{
    reveal(advances);
    reveal(check_decl_step);
    lemma_advances_refl(s);
}

pub proof fn lemma_int_type_advances(s: ParserView)
    ensures
        advances(s, int_type_step(s).0),
{
    reveal(int_type_step);
    let (s1, o1) = expect_text(s, "unsigned"@);
    lemma_expect_text_advances(s, "unsigned"@);
    let ok = is_int_type_word(s1.cur.text);
    lemma_expect_if_advances(s1, ok);
    lemma_advances_trans(s, s1, expect_if(s1, ok).0);
}

pub proof fn lemma_data_type_advances(s: ParserView)
    ensures
        advances(s, data_type_step(s).0),
{
    reveal(data_type_step);
    lemma_int_type_advances(s);
    let (s1, o1) = int_type_step(s);
    lemma_float_type_advances(s1);
    lemma_advances_trans(s, s1, float_type_step(s1).0);
}

pub proof fn lemma_decl_type_advances(s: ParserView)
    ensures
        advances(s, decl_type_step(s).0),
{
    reveal(decl_type_step);
    lemma_data_type_advances(s);
    let (s1, o1) = data_type_step(s);
    if o1 == Outcome::Value(true) && s1.peek(0) is Some {
        let p = s1.peek(0).unwrap();
        let is_fn = p == Some("("@);
        let s2 = if is_fn {
            ParserView { cur: TokenView { token_type: TokenType::FUNCTION, ..s1.cur }, ..s1 }
        } else {
            s1
        };
        if is_fn {
            lemma_retype_advances(s1, TokenType::FUNCTION);
        }
        lemma_advances_refl(s1);
        lemma_advances_trans(s, s1, s2);
        let tt = if is_fn {
            TokenType::FUNCTION
        } else {
            TokenType::VARIABLE
        };
        lemma_expect_type_advances(s2, tt);
        lemma_advances_trans(s, s2, expect_type(s2, tt).0);
    }
}

pub proof fn lemma_var_decl_advances(s: ParserView)
    ensures
        advances(s, var_decl_step(s).0),
{
    reveal(var_decl_step);
    lemma_expect_text_advances(s, "="@);
    let (s1, o1) = expect_text(s, "="@);
    lemma_constant_advances(s1);
    lemma_advances_trans(s, s1, constant_step(s1).0);
    let s2 = if o1 == Outcome::Value(true) {
        constant_step(s1).0
    } else {
        s1
    };
    lemma_expect_text_advances(s2, ";"@);
    lemma_advances_trans(s, s2, expect_text(s2, ";"@).0);
}

pub proof fn lemma_param_advances(s: ParserView)
    ensures
        advances(s, param_step(s).0),
{
    reveal(param_step);
    lemma_data_type_advances(s);
    let (s1, o1) = data_type_step(s);
    lemma_expect_type_advances(s1, TokenType::VARIABLE);
    lemma_advances_trans(s, s1, expect_type(s1, TokenType::VARIABLE).0);
}

pub proof fn lemma_param_list_advances(s: ParserView)
    ensures
        advances(s, param_list_step(s).0),
    decreases s.rem(),
{
    reveal(param_list_step);
    lemma_expect_text_advances(s, ","@);
    let (s1, o1) = expect_text(s, ","@);
    lemma_param_advances(s1);
    let (s2, o2) = param_step(s1);
    lemma_advances_trans(s, s1, s2);
    if o1 == Outcome::Value(true) && o2 == Outcome::Value(true) && s2.rem() < s.rem() {
        lemma_param_list_advances(s2);
        lemma_advances_trans(s, s2, param_list_step(s2).0);
    }
}

pub proof fn lemma_param_block_advances(s: ParserView)
    ensures
        advances(s, param_block_step(s).0),
{
    reveal(param_block_step);
    lemma_expect_text_advances(s, "("@);
    let (s1, o1) = expect_text(s, "("@);
    lemma_param_advances(s1);
    let (s2, o2) = param_step(s1);
    lemma_advances_trans(s, s1, s2);
    lemma_param_list_advances(s2);
    lemma_advances_trans(s, s2, param_list_step(s2).0);
    let s3 = if o2 == Outcome::Value(true) {
        param_list_step(s2).0
    } else {
        s2
    };
    lemma_expect_text_advances(s3, ")"@);
    lemma_advances_trans(s, s3, expect_text(s3, ")"@).0);
}

pub proof fn lemma_func_decl_advances(s: ParserView)
    ensures
        advances(s, func_decl_step(s).0),
{
    reveal(func_decl_step);
    lemma_param_block_advances(s);
    let (s1, o1) = param_block_step(s);
    lemma_expect_text_advances(s1, ";"@);
    lemma_advances_trans(s, s1, expect_text(s1, ";"@).0);
}

pub proof fn lemma_decl_advances(s: ParserView)
    ensures
        advances(s, decl_step(s).0),
{
    reveal(decl_step);
    lemma_decl_type_advances(s);
    let (s1, o1) = decl_type_step(s);
    lemma_var_decl_advances(s1);
    lemma_advances_trans(s, s1, var_decl_step(s1).0);
    lemma_func_decl_advances(s1);
    lemma_advances_trans(s, s1, func_decl_step(s1).0);
}

pub proof fn lemma_expr_advances(s: ParserView)
    ensures
        advances(s, expr_step(s).0),
    decreases s.rem(), 3nat,
{
    reveal(expr_step);
    reveal(smpl_expr_step);
    reveal(term_step);
    reveal(factor_step);
    reveal(arg_list_step);
    lemma_smpl_expr_advances(s);
    let (s1, o1) = smpl_expr_step(s);
    lemma_rel_op_advances(s1);
    let (s2, o2) = rel_op_step(s1);
    lemma_advances_trans(s, s1, s2);
    if s2.rem() <= s.rem() {
        lemma_smpl_expr_advances(s2);
        lemma_advances_trans(s, s2, smpl_expr_step(s2).0);
    }
}

pub proof fn lemma_smpl_expr_advances(s: ParserView)
    ensures
        advances(s, smpl_expr_step(s).0),
    decreases s.rem(), 2nat,
{
    reveal(expr_step);
    reveal(smpl_expr_step);
    reveal(term_step);
    reveal(factor_step);
    reveal(arg_list_step);
    lemma_term_advances(s);
    let (s1, o1) = term_step(s);
    lemma_add_op_advances(s1);
    let (s2, o2) = add_op_step(s1);
    lemma_advances_trans(s, s1, s2);
    if s2.rem() <= s.rem() {
        lemma_term_advances(s2);
        lemma_advances_trans(s, s2, term_step(s2).0);
    }
}

pub proof fn lemma_term_advances(s: ParserView)
    ensures
        advances(s, term_step(s).0),
    decreases s.rem(), 1nat,
{
    reveal(expr_step);
    reveal(smpl_expr_step);
    reveal(term_step);
    reveal(factor_step);
    reveal(arg_list_step);
    lemma_factor_advances(s);
    let (s1, o1) = factor_step(s);
    lemma_mult_op_advances(s1);
    let (s2, o2) = mult_op_step(s1);
    lemma_advances_trans(s, s1, s2);
    if s2.rem() <= s.rem() {
        lemma_factor_advances(s2);
        lemma_advances_trans(s, s2, factor_step(s2).0);
    }
}

#[verifier::rlimit(40)]
pub proof fn lemma_factor_advances(s: ParserView)
    ensures
        advances(s, factor_step(s).0),
    decreases s.rem(), 0nat,
{
    reveal(expr_step);
    reveal(smpl_expr_step);
    reveal(term_step);
    reveal(factor_step);
    reveal(arg_list_step);
    lemma_expect_type_advances(s, TokenType::FLOATCONSTANT);
    let (s1, o1) = expect_type(s, TokenType::FLOATCONSTANT);
    lemma_expect_type_advances(s1, TokenType::INTCONSTANT);
    let (s2, o2) = expect_type(s1, TokenType::INTCONSTANT);
    lemma_advances_trans(s, s1, s2);
    if s2.peek(0) is Some {
        let p = s2.peek(0).unwrap();
        let is_fn = p == Some("("@);
        let s3 = if is_fn {
            ParserView { cur: TokenView { token_type: TokenType::FUNCTION, ..s2.cur }, ..s2 }
        } else {
            s2
        };
        if is_fn {
            lemma_retype_advances(s2, TokenType::FUNCTION);
        }
        lemma_advances_refl(s2);
        lemma_advances_trans(s, s2, s3);
        let tt = if is_fn {
            TokenType::FUNCTION
        } else {
            TokenType::VARIABLE
        };
        lemma_expect_type_advances(s3, tt);
        let (s4, o4) = expect_type(s3, tt);
        lemma_advances_trans(s, s3, s4);
        lemma_expect_text_advances(s4, "("@);
        let (s5, o5) = expect_text(s4, "("@);
        lemma_advances_trans(s, s4, s5);
        if s5.rem() < s.rem() {
            lemma_expr_advances(s5);
            let (s6, o6) = expr_step(s5);
            lemma_advances_trans(s, s5, s6);
            if s6.rem() < s.rem() {
                lemma_arg_list_advances(s6);
                let (s7, o7) = arg_list_step(s6);
                lemma_advances_trans(s, s6, s7);
                lemma_expect_text_advances(s7, ")"@);
                lemma_advances_trans(s, s7, expect_text(s7, ")"@).0);
            }
        }
    }
    lemma_expect_text_advances(s2, "("@);
    let (s3, o3) = expect_text(s2, "("@);
    lemma_advances_trans(s, s2, s3);
    if s3.rem() < s.rem() {
        lemma_expr_advances(s3);
        let (s4, o4) = expr_step(s3);
        lemma_advances_trans(s, s3, s4);
        lemma_expect_text_advances(s4, ")"@);
        lemma_advances_trans(s, s4, expect_text(s4, ")"@).0);
    }
}

pub proof fn lemma_arg_list_advances(s: ParserView)
    ensures
        advances(s, arg_list_step(s).0),
    decreases s.rem(), 4nat,
{
    reveal(expr_step);
    reveal(smpl_expr_step);
    reveal(term_step);
    reveal(factor_step);
    reveal(arg_list_step);
    lemma_expect_text_advances(s, ","@);
    let (s1, o1) = expect_text(s, ","@);
    if s1.rem() <= s.rem() {
        lemma_expr_advances(s1);
        let (s2, o2) = expr_step(s1);
        lemma_advances_trans(s, s1, s2);
        if s2.rem() < s.rem() {
            lemma_arg_list_advances(s2);
            lemma_advances_trans(s, s2, arg_list_step(s2).0);
        }
    }
}

pub proof fn lemma_assign_chain_advances(s: ParserView, next: Seq<char>)
    ensures
        advances(s, assign_chain_step(s, next).0),
    decreases s.rem(),
{
    reveal(assign_chain_step);
    lemma_advances_refl(s);
    if !s.ended && s.cur.token_type == TokenType::VARIABLE && next == "="@ {
        lemma_consume_advances(s);
        let (s1, o1) = consume(s);
        lemma_expect_text_advances(s1, "="@);
        let (s2, o2) = expect_text(s1, "="@);
        lemma_advances_trans(s, s1, s2);
        if let Some(Some(n)) = s2.peek(0) {
            if s2.rem() < s.rem() {
                lemma_assign_chain_advances(s2, n);
                lemma_advances_trans(s, s2, assign_chain_step(s2, n).0);
            }
        }
    }
}

/// Moving to the next token when neither the current token nor the last one
/// accepted is a function name keeps calls marked.
proof fn lemma_inc_marked(s: ParserView)
    requires
        s.inc() is Some,
        calls_marked(s),
        s.cur.token_type != TokenType::FUNCTION,
        s.parsed.len() > 0 ==> s.parsed.last().token_type != TokenType::FUNCTION,
    ensures
        calls_marked(s.inc().unwrap()),
{
    if s.scanner.cur != s.scanner.num_tokens - 1 {
        lemma_next_marked(s);
    } else {
        reveal(calls_marked);
    }
}

/// Handing out the scanner's next token as the current one, when neither
/// the current token nor the last one accepted is a function name, keeps
/// calls marked.
#[verifier::spinoff_prover]
#[verifier::rlimit(40)]
proof fn lemma_next_marked(s: ParserView)
    requires
        calls_marked(s),
        s.cur.token_type != TokenType::FUNCTION,
        s.parsed.len() > 0 ==> s.parsed.last().token_type != TokenType::FUNCTION,
        s.scanner.tokens.len() >= 1,
    ensures
        calls_marked(
            ParserView {
                scanner: s.scanner.next_token().0,
                cur: s.scanner.tokens[0],
                ..s
            },
        ),
{
    reveal(calls_marked);
    let s1 = ParserView { scanner: s.scanner.next_token().0, cur: s.scanner.tokens[0], ..s };
    assert(s1.scanner.tokens.len() <= s.scanner.tokens.len());
    assert forall|i: int| 0 <= i < s1.scanner.tokens.len() implies {
        &&& (#[trigger] s1.scanner.tokens[i]).token_type != TokenType::FUNCTION
        &&& s1.scanner.tokens[i].text == "("@ ==> s1.scanner.tokens[i].token_type
            == TokenType::OPERATOR
    } by {
        if s1.scanner.tokens.len() < s.scanner.tokens.len() {
            assert(s1.scanner.tokens[i] == s.scanner.tokens[i + 1]);
        } else {
            assert(s1.scanner.tokens[i] == s.scanner.tokens[i]);
        }
    }
    assert(s.scanner.tokens[0].token_type != TokenType::FUNCTION);
    assert forall|i: int|
        0 <= i < s1.parsed.len() && (#[trigger] s1.parsed[i]).token_type
            == TokenType::FUNCTION implies if i + 1 < s1.parsed.len() {
        s1.parsed[i + 1].text == "("@
    } else {
        s1.cur.text == "("@
    } by {
        assert(s.parsed[i].token_type == TokenType::FUNCTION);
        if i + 1 == s.parsed.len() {
            assert(s.parsed.last() == s.parsed[i]);
        }
    }
}

/// Moving to the next token goes forward, and keeps calls marked when
/// neither the current token nor the last one accepted is a function name.
pub proof fn lemma_inc_advances(s: ParserView)
    requires
        s.inc() is Some,
    ensures
        moves_forward(s, s.inc().unwrap()),
        calls_marked(s) && s.cur.token_type != TokenType::FUNCTION && (s.parsed.len() > 0
            ==> s.parsed.last().token_type != TokenType::FUNCTION) ==> calls_marked(
            s.inc().unwrap(),
        ),
{
    assert(s.scanner.tokens.skip(0) =~= s.scanner.tokens);
    assert(s.parsed.subrange(0, s.parsed.len() as int) =~= s.parsed);
    let s1 = s.inc().unwrap();
    if s.scanner.cur != s.scanner.num_tokens - 1 {
        assert(s1.scanner.tokens =~= s.scanner.tokens.skip(1));
    }
    if calls_marked(s) && s.cur.token_type != TokenType::FUNCTION && (s.parsed.len() > 0
        ==> s.parsed.last().token_type != TokenType::FUNCTION) {
        lemma_inc_marked(s);
    }
}

pub proof fn lemma_assign_advances(s: ParserView)
    ensures
        advances(s, assign_step(s).0),
{
    reveal(assign_step);
    lemma_expect_type_advances(s, TokenType::VARIABLE);
    let (s1, o1) = expect_type(s, TokenType::VARIABLE);
    lemma_expect_text_advances(s1, "="@);
    let (s2, o2) = expect_text(s1, "="@);
    lemma_advances_trans(s, s1, s2);
    lemma_advances_refl(s2);
    let s3 = match s2.peek(0) {
        Some(Some(n)) => {
            lemma_assign_chain_advances(s2, n);
            assign_chain_step(s2, n).0
        },
        _ => s2,
    };
    lemma_advances_trans(s, s2, s3);
    lemma_expr_advances(s3);
    let (s4, o4) = expr_step(s3);
    lemma_advances_trans(s, s3, s4);
    lemma_expect_text_advances(s4, ";"@);
    lemma_advances_trans(s, s4, expect_text(s4, ";"@).0);
}

pub proof fn lemma_ret_stmnt_advances(s: ParserView)
    ensures
        advances(s, ret_stmnt_step(s).0),
{
    reveal(ret_stmnt_step);
    lemma_expect_text_advances(s, "return"@);
    let (s1, o1) = expect_text(s, "return"@);
    lemma_expr_advances(s1);
    let (s2, o2) = expr_step(s1);
    lemma_advances_trans(s, s1, s2);
    lemma_expect_text_advances(s2, ";"@);
    lemma_advances_trans(s, s2, expect_text(s2, ";"@).0);
}

pub proof fn lemma_block_decl_list_advances(s: ParserView)
    ensures
        advances(s, block_decl_list_step(s).0),
    decreases s.rem(),
{
    reveal(block_decl_list_step);
    lemma_advances_refl(s);
    lemma_decl_advances(s);
    let (s1, o1) = decl_step(s);
    if s1.rem() < s.rem() {
        lemma_block_decl_list_advances(s1);
        lemma_advances_trans(s, s1, block_decl_list_step(s1).0);
    }
}

pub proof fn lemma_block_advances(s: ParserView)
    ensures
        advances(s, block_step(s).0),
    decreases s.rem(), 5nat,
{
    reveal(block_step);
    reveal(stmnt_list_step);
    reveal(block_func_list_step);
    reveal(stmnt_step);
    reveal(guarded_block_step);
    reveal(while_loop_step);
    reveal(if_stmnt_step);
    reveal(func_def_step);
    lemma_expect_text_advances(s, "{"@);
    let (s1, o1) = expect_text(s, "{"@);
    lemma_block_decl_list_advances(s1);
    let (s2, o2) = block_decl_list_step(s1);
    lemma_advances_trans(s, s1, s2);
    if s2.rem() <= s.rem() {
        lemma_stmnt_list_advances(s2);
        let (s3, o3) = stmnt_list_step(s2);
        lemma_advances_trans(s, s2, s3);
        if s3.rem() <= s.rem() {
            lemma_block_func_list_advances(s3);
            let (s4, o4) = block_func_list_step(s3);
            lemma_advances_trans(s, s3, s4);
            lemma_expect_text_advances(s4, "}"@);
            lemma_advances_trans(s, s4, expect_text(s4, "}"@).0);
        }
    }
}

pub proof fn lemma_stmnt_list_advances(s: ParserView)
    ensures
        advances(s, stmnt_list_step(s).0),
    decreases s.rem(), 4nat,
{
    reveal(block_step);
    reveal(stmnt_list_step);
    reveal(block_func_list_step);
    reveal(stmnt_step);
    reveal(guarded_block_step);
    reveal(while_loop_step);
    reveal(if_stmnt_step);
    reveal(func_def_step);
    lemma_advances_refl(s);
    lemma_stmnt_advances(s);
    let (s1, o1) = stmnt_step(s);
    if s1.rem() < s.rem() {
        lemma_stmnt_list_advances(s1);
        lemma_advances_trans(s, s1, stmnt_list_step(s1).0);
    }
}

pub proof fn lemma_block_func_list_advances(s: ParserView)
    ensures
        advances(s, block_func_list_step(s).0),
    decreases s.rem(), 4nat,
{
    reveal(block_step);
    reveal(stmnt_list_step);
    reveal(block_func_list_step);
    reveal(stmnt_step);
    reveal(guarded_block_step);
    reveal(while_loop_step);
    reveal(if_stmnt_step);
    reveal(func_def_step);
    lemma_advances_refl(s);
    lemma_func_def_advances(s);
    let (s1, o1) = func_def_step(s);
    if s1.rem() < s.rem() {
        lemma_block_func_list_advances(s1);
        lemma_advances_trans(s, s1, block_func_list_step(s1).0);
    }
}

pub proof fn lemma_stmnt_advances(s: ParserView)
    ensures
        advances(s, stmnt_step(s).0),
    decreases s.rem(), 3nat,
{
    reveal(block_step);
    reveal(stmnt_list_step);
    reveal(block_func_list_step);
    reveal(stmnt_step);
    reveal(guarded_block_step);
    reveal(while_loop_step);
    reveal(if_stmnt_step);
    reveal(func_def_step);
    lemma_assign_advances(s);
    lemma_while_loop_advances(s);
    lemma_if_stmnt_advances(s);
    lemma_ret_stmnt_advances(s);
    lemma_expr_advances(s);
    let (s1, o1) = expr_step(s);
    lemma_expect_text_advances(s1, ";"@);
    lemma_advances_trans(s, s1, expect_text(s1, ";"@).0);
    lemma_advances_refl(s);
}

pub proof fn lemma_guarded_block_advances(s: ParserView, is_while: bool)
    ensures
        advances(s, guarded_block_step(s, is_while).0),
    decreases s.rem(), 1nat,
{
    reveal(block_step);
    reveal(stmnt_list_step);
    reveal(block_func_list_step);
    reveal(stmnt_step);
    reveal(guarded_block_step);
    reveal(while_loop_step);
    reveal(if_stmnt_step);
    reveal(func_def_step);
    let kw = if is_while {
        "while"@
    } else {
        "if"@
    };
    lemma_expect_text_advances(s, kw);
    let (s1, o1) = expect_text(s, kw);
    lemma_expect_text_advances(s1, "("@);
    let (s2, o2) = expect_text(s1, "("@);
    lemma_advances_trans(s, s1, s2);
    lemma_expr_advances(s2);
    let (s3, o3) = expr_step(s2);
    lemma_advances_trans(s, s2, s3);
    lemma_expect_text_advances(s3, ")"@);
    let (s4, o4) = expect_text(s3, ")"@);
    lemma_advances_trans(s, s3, s4);
    if s4.rem() < s.rem() {
        lemma_block_advances(s4);
        lemma_advances_trans(s, s4, block_step(s4).0);
    }
}

pub proof fn lemma_while_loop_advances(s: ParserView)
    ensures
        advances(s, while_loop_step(s).0),
    decreases s.rem(), 2nat,
{
    reveal(block_step);
    reveal(stmnt_list_step);
    reveal(block_func_list_step);
    reveal(stmnt_step);
    reveal(guarded_block_step);
    reveal(while_loop_step);
    reveal(if_stmnt_step);
    reveal(func_def_step);
    lemma_guarded_block_advances(s, true);
}

pub proof fn lemma_if_stmnt_advances(s: ParserView)
    ensures
        advances(s, if_stmnt_step(s).0),
    decreases s.rem(), 2nat,
{
    reveal(block_step);
    reveal(stmnt_list_step);
    reveal(block_func_list_step);
    reveal(stmnt_step);
    reveal(guarded_block_step);
    reveal(while_loop_step);
    reveal(if_stmnt_step);
    reveal(func_def_step);
    lemma_guarded_block_advances(s, false);
}

pub proof fn lemma_func_def_advances(s: ParserView)
    ensures
        advances(s, func_def_step(s).0),
    decreases s.rem(), 1nat,
{
    reveal(block_step);
    reveal(stmnt_list_step);
    reveal(block_func_list_step);
    reveal(stmnt_step);
    reveal(guarded_block_step);
    reveal(while_loop_step);
    reveal(if_stmnt_step);
    reveal(func_def_step);
    lemma_decl_type_advances(s);
    let (s1, o1) = decl_type_step(s);
    lemma_param_block_advances(s1);
    let (s2, o2) = param_block_step(s1);
    lemma_advances_trans(s, s1, s2);
    if s2.rem() < s.rem() {
        lemma_block_advances(s2);
        lemma_advances_trans(s, s2, block_step(s2).0);
    }
}

pub proof fn lemma_main_decl_advances(s: ParserView)
    ensures
        advances(s, main_decl_step(s).0),
{
    reveal(main_decl_step);
    lemma_expect_text_advances(s, "void"@);
    let (s1, o1) = expect_text(s, "void"@);
    lemma_expect_text_advances(s1, "main"@);
    let (s2, o2) = expect_text(s1, "main"@);
    lemma_advances_trans(s, s1, s2);
    lemma_expect_text_advances(s2, "("@);
    let (s3, o3) = expect_text(s2, "("@);
    lemma_advances_trans(s, s2, s3);
    lemma_expect_text_advances(s3, ")"@);
    let (s4, o4) = expect_text(s3, ")"@);
    lemma_advances_trans(s, s3, s4);
    lemma_block_advances(s4);
    lemma_advances_trans(s, s4, block_step(s4).0);
}

pub proof fn lemma_program_decl_list_advances(s: ParserView)
    ensures
        advances(s, program_decl_list_step(s).0),
    decreases s.rem(),
{
    reveal(program_decl_list_step);
    lemma_advances_refl(s);
    lemma_decl_advances(s);
    let (s1, o1) = decl_step(s);
    if s1.rem() < s.rem() {
        lemma_program_decl_list_advances(s1);
        lemma_advances_trans(s, s1, program_decl_list_step(s1).0);
    }
}

pub proof fn lemma_program_func_list_advances(s: ParserView)
    ensures
        advances(s, program_func_list_step(s).0),
    decreases s.rem(),
{
    reveal(program_func_list_step);
    lemma_advances_refl(s);
    lemma_func_def_advances(s);
    let (s1, o1) = func_def_step(s);
    if s1.rem() < s.rem() {
        lemma_program_func_list_advances(s1);
        lemma_advances_trans(s, s1, program_func_list_step(s1).0);
    }
}

/// Parsing a program only goes forward: the scanner's remaining tokens
/// shrink to a suffix, the accepted tokens grow by appending, the count of
/// accepted tokens keeps pace with them, calls stay marked, and no token is
/// lost or accepted twice.
pub proof fn lemma_program_advances(s: ParserView)
    ensures
        advances(s, program_step(s).0),
{
    reveal(program_step);
    lemma_program_decl_list_advances(s);
    let (s1, o1) = program_decl_list_step(s);
    lemma_main_decl_advances(s1);
    let (s2, o2) = main_decl_step(s1);
    lemma_advances_trans(s, s1, s2);
    lemma_program_func_list_advances(s2);
    lemma_advances_trans(s, s2, program_func_list_step(s2).0);
}

/// The line a peek at the output shows is the line of the token handed out
/// next, and it shows nothing exactly when no token is handed out.
pub proof fn lemma_peek_out_is_next_out(s: ParserView)
    requires
        s.out_safe(),
    ensures
        s.peek_out() is None <==> s.out().1 is None,
        s.out().1 matches Some(t) ==> s.peek_out() == Some(t.line_number),
{
}

/// Handing out accepted tokens gives them in the order they were accepted:
/// the first of the record, with the rest left for later.
pub proof fn lemma_out_in_order(s: ParserView)
    requires
        s.out_safe(),
        s.num_parsed - s.parsed.len() == s.out_cur + 1,
    ensures
        s.parsed.len() > 0 ==> s.out().1 == Some(s.parsed[0]) && s.out().0.parsed
            == s.parsed.drop_first(),
        s.parsed.len() == 0 ==> s.out().1 is None,
        s.parsed.len() > 0 ==> s.out().0.num_parsed - s.out().0.parsed.len() == s.out().0.out_cur
            + 1,
{
}

/// The parser after `k` requests for accepted tokens.
pub open spec fn after_outs(s: ParserView, k: nat) -> ParserView
    decreases k,
{
    if k == 0 {
        s
    } else {
        after_outs(s, (k - 1) as nat).out().0
    }
}

/// Accepted tokens are handed out in the order they were accepted: while the
/// count of accepted tokens matches those not yet handed out, the `k + 1`-th
/// request gives the `k`-th of them while any remain and nothing after
/// that; the count of accepted tokens stays as it was.
pub proof fn lemma_out_order(s: ParserView, k: nat)
    requires
        s.num_parsed - s.parsed.len() == s.out_cur + 1,
        s.out_cur + 1 + k < i32::MAX,
    ensures
        after_outs(s, k).out_safe(),
        after_outs(s, k).num_parsed == s.num_parsed,
        after_outs(s, k).out_cur == s.out_cur + k,
        after_outs(s, k).parsed == if k <= s.parsed.len() {
            s.parsed.skip(k as int)
        } else {
            Seq::empty()
        },
        after_outs(s, k).out().1 == if k < s.parsed.len() {
            Some(s.parsed[k as int])
        } else {
            None
        },
    decreases k,
{
    if k == 0 {
        assert(s.parsed.skip(0) =~= s.parsed);
    } else {
        lemma_out_order(s, (k - 1) as nat);
        let a = after_outs(s, (k - 1) as nat);
        if k <= s.parsed.len() {
            assert(a.parsed.drop_first() =~= s.parsed.skip(k as int));
        } else {
            assert(s.parsed.skip(s.parsed.len() as int) =~= Seq::<TokenView>::empty());
        }
    }
}

/// Before the end of the text, accepting a token by its text records it and
/// moves on; refusing it changes nothing. At the end nothing is accepted.
pub proof fn lemma_expect_text_records(s: ParserView, t: Seq<char>)
    requires
        !(expect_text(s, t).1 is Abort),
    ensures
        expect_text(s, t).1 == Outcome::Value(!s.ended && s.cur.text == t),
        s.ended || s.cur.text != t ==> expect_text(s, t).0 == s,
        !s.ended && s.cur.text == t ==> expect_text(s, t).0.parsed == s.parsed.push(
            TokenView { token_type: crate::parse_model::recorded_type(s.cur.token_type), ..s.cur },
        ),
{
}

/// `(` is listed as an operator in the table of reserved lexemes.
pub proof fn lemma_open_paren_is_operator()
    ensures
        crate::scanner::lookup_code("("@) == Some(1i32),
{
    reveal_strlit("(");
    assert("("@.len() == 1);
    reveal_strlit("unsigned");
    assert("unsigned"@.len() == 8);
    reveal_strlit("char");
    assert("char"@.len() == 4);
    reveal_strlit("short");
    assert("short"@.len() == 5);
    reveal_strlit("int");
    assert("int"@.len() == 3);
    reveal_strlit("long");
    assert("long"@.len() == 4);
    reveal_strlit("float");
    assert("float"@.len() == 5);
    reveal_strlit("double");
    assert("double"@.len() == 6);
    reveal_strlit("while");
    assert("while"@.len() == 5);
    reveal_strlit("if");
    assert("if"@.len() == 2);
    reveal_strlit("return");
    assert("return"@.len() == 6);
    reveal_strlit("void");
    assert("void"@.len() == 4);
    reveal_strlit("main");
    assert("main"@.len() == 4);
    assert(!crate::scanner::is_keyword_text("("@));
    assert(crate::scanner::is_operator_text("("@));
}

/// Parsing keeps calls marked: from any state in which `calls_marked`
/// holds, parsing a program leads to one in which it holds.
pub proof fn lemma_program_marks_calls(s: ParserView)
    requires
        calls_marked(s),
    ensures
        calls_marked(program_step(s).0),
{
    reveal(advances);
    lemma_program_advances(s);
}

/// Identifiers are typed as function names only before a call: when a
/// whole text has been scanned from the start and parsed as a program, every
/// token the parser accepted typed `FUNCTION` is followed by `(`, the next
/// accepted token or, after the last accepted one, the current token.
pub proof fn lemma_scan_and_parse_mark_calls(sc: ScannerView)
    requires
        sc.tokens.len() == 0,
        sc.num_tokens == 0,
        sc.cur == -1,
        sc.scanned() is Some,
        sc.scanned().unwrap().num_tokens > 0,
        sc.scanned().unwrap().num_tokens - 1 <= i32::MAX,
    ensures
        calls_marked(program_step(start_view(sc.scanned().unwrap())).0),
        ({
            let r = program_step(start_view(sc.scanned().unwrap())).0;
            forall|i: int|
                0 <= i < r.parsed.len() && (#[trigger] r.parsed[i]).token_type
                    == TokenType::FUNCTION ==> if i + 1 < r.parsed.len() {
                    r.parsed[i + 1].text == "("@
                } else {
                    r.cur.text == "("@
                }
        }),
{
    reveal(advances);
    let t = sc.scanned().unwrap();
    lemma_scanned_reads_all(sc);
    lemma_scanned_typed(sc);
    let p = start_view(t);
    assert(calls_marked(p)) by {
        reveal(calls_marked);
        assert(crate::scanner::scanner_typed(t.tokens[0]));
        lemma_open_paren_is_operator();
        assert forall|i: int| 0 <= i < p.scanner.tokens.len() implies {
            &&& (#[trigger] p.scanner.tokens[i]).token_type != TokenType::FUNCTION
            &&& p.scanner.tokens[i].text == "("@ ==> p.scanner.tokens[i].token_type
                == TokenType::OPERATOR
        } by {
            assert(p.scanner.tokens[i] == t.tokens[i + 1]);
            assert(crate::scanner::scanner_typed(t.tokens[i + 1]));
            lemma_open_paren_is_operator();
        }
    }
    lemma_program_marks_calls(p);
    reveal(calls_marked);
}

/// A successful parse accepts the whole text: when a text scanned from the
/// start is parsed as a program, the tokens accepted, followed (unless the
/// end was reached) by the current token and the unread ones, are the
/// scanned tokens in order, with the same texts and lines; when the parse
/// succeeds, the accepted tokens alone are all of them, and their count is
/// the number of scanned tokens.
pub proof fn lemma_scan_and_parse_accepts_all(sc: ScannerView)
    requires
        sc.tokens.len() == 0,
        sc.num_tokens == 0,
        sc.cur == -1,
        sc.scanned() is Some,
        sc.scanned().unwrap().num_tokens > 0,
        sc.scanned().unwrap().num_tokens - 1 <= i32::MAX,
    ensures
        ({
            let t = sc.scanned().unwrap();
            let (r, o) = program_step(start_view(t));
            &&& seen(r) == texts_lines(t.tokens)
            &&& o == Outcome::Value(true) ==> texts_lines(r.parsed) == texts_lines(t.tokens)
                && r.num_parsed == t.tokens.len()
        }),
{
    reveal(advances);
    let t = sc.scanned().unwrap();
    lemma_scanned_reads_all(sc);
    let p = start_view(t);
    assert(p.scanner.tokens =~= t.tokens.drop_first());
    assert(texts_lines(t.tokens) =~= seq![text_line(t.tokens[0])] + texts_lines(
        p.scanner.tokens,
    ));
    assert(texts_lines(p.parsed) =~= Seq::empty());
    assert(seen(p) =~= texts_lines(t.tokens));
    assert(linked(p));
    lemma_program_advances(p);
    reveal(program_step);
    let (r, o) = program_step(p);
    if o == Outcome::Value(true) {
        assert(r.ended);
        assert(seen(r) =~= texts_lines(r.parsed));
    }
}


/// A parser state after accepting its current token: the token is recorded
/// (an invalid one without a type) and nothing else has been recorded.
pub open spec fn accepted_cur(s: ParserView, t: ParserView) -> bool {
    &&& t.parsed == s.parsed.push(
        TokenView { token_type: crate::parse_model::recorded_type(s.cur.token_type), ..s.cur },
    )
    &&& t.rem() < s.rem()
}

/// The relational operators are exactly `==`, `>`, `<`, `<=`, `>=`, `!=`:
/// before the end of the text, `rel_op` accepts the current token when its
/// text is one of them and otherwise refuses it, changing nothing.
pub proof fn lemma_rel_op_accepts_exactly(s: ParserView)
    requires
        !aborts(rel_op_step(s)),
    ensures
        ({
            let t = s.cur.text;
            rel_op_step(s).1 == Outcome::Value(
                !s.ended && (t == "=="@ || t == ">"@ || t == "<"@ || t == "<="@ || t == ">="@ || t
                    == "!="@),
            )
        }),
        rel_op_step(s).1 == Outcome::Value(true) ==> accepted_cur(s, rel_op_step(s).0),
        rel_op_step(s).1 == Outcome::Value(false) ==> rel_op_step(s).0 == s,
{
    reveal(rel_op_step);
    if !s.ended && crate::parse_model::is_rel_op(s.cur.text) {
        lemma_consume_accepts(s);
    }
}

/// The additive operators are exactly `+` and `-`.
pub proof fn lemma_add_op_accepts_exactly(s: ParserView)
    requires
        !aborts(add_op_step(s)),
    ensures
        add_op_step(s).1 == Outcome::Value(
            !s.ended && (s.cur.text == "+"@ || s.cur.text == "-"@),
        ),
        add_op_step(s).1 == Outcome::Value(true) ==> accepted_cur(s, add_op_step(s).0),
        add_op_step(s).1 == Outcome::Value(false) ==> add_op_step(s).0 == s,
{
    reveal(add_op_step);
    if !s.ended && crate::parse_model::is_add_op(s.cur.text) {
        lemma_consume_accepts(s);
    }
}

/// The multiplicative operators are exactly `*` and `/`.
pub proof fn lemma_mult_op_accepts_exactly(s: ParserView)
    requires
        !aborts(mult_op_step(s)),
    ensures
        mult_op_step(s).1 == Outcome::Value(
            !s.ended && (s.cur.text == "*"@ || s.cur.text == "/"@),
        ),
        mult_op_step(s).1 == Outcome::Value(true) ==> accepted_cur(s, mult_op_step(s).0),
        mult_op_step(s).1 == Outcome::Value(false) ==> mult_op_step(s).0 == s,
{
    reveal(mult_op_step);
    if !s.ended && crate::parse_model::is_mult_op(s.cur.text) {
        lemma_consume_accepts(s);
    }
}

/// Accepting the current token, when it does not fail, records it and takes
/// it from the tokens still to accept.
pub proof fn lemma_consume_accepts(s: ParserView)
    requires
        !s.ended ==> !aborts(consume(s)),
    ensures
        !s.ended ==> consume(s).1 == Outcome::Value(true) && accepted_cur(s, consume(s).0),
{
    if !s.ended {
        let s1 = s.recorded().unwrap();
        let s2 = s1.inc().unwrap();
        if s.scanner.cur != s.scanner.num_tokens - 1 {
            assert(s2.scanner.tokens.len() + 1 == s.scanner.tokens.len());
        }
    }
}

/// A declaration can start at every data-type word: `check_decl` answers
/// yes when the current token is `char`, `short`, `int`, `long`, `float` or
/// `double`, or `unsigned` followed by `char`, `short`, `int` or `long`, and
/// no at any other token; it consumes nothing.
pub proof fn lemma_check_decl_sees_data_types(s: ParserView)
    requires
        !aborts(check_decl_step(s)),
    ensures
        check_decl_step(s).0 == s,
        ({
            let t = s.cur.text;
            let after = s.peek(0).unwrap();
            check_decl_step(s).1 == Outcome::Value(
                (t == "char"@ || t == "short"@ || t == "int"@ || t == "long"@ || t == "float"@ || t
                    == "double"@) || (t == "unsigned"@ && (after == Some("char"@) || after == Some(
                    "short"@,
                ) || after == Some("int"@) || after == Some("long"@))),
            )
        }),
{
    reveal(check_decl_step);
    lemma_type_words_distinct();
}

/// `unsigned` is none of the other data-type words.
pub proof fn lemma_type_words_distinct()
    ensures
        "unsigned"@ != "char"@,
        "unsigned"@ != "short"@,
        "unsigned"@ != "int"@,
        "unsigned"@ != "long"@,
        "unsigned"@ != "float"@,
        "unsigned"@ != "double"@,
        !is_int_type_word("float"@),
        !is_int_type_word("double"@),
        !is_int_type_word("unsigned"@),
        !is_float_type_word("unsigned"@),
{
    reveal_strlit("unsigned");
    reveal_strlit("char");
    reveal_strlit("short");
    reveal_strlit("int");
    reveal_strlit("long");
    reveal_strlit("float");
    reveal_strlit("double");
    assert("unsigned"@.len() == 8);
    assert("char"@.len() == 4);
    assert("short"@.len() == 5);
    assert("int"@.len() == 3);
    assert("long"@.len() == 4);
    assert("float"@.len() == 5);
    assert("double"@.len() == 6);
    assert("float"@[0] == 'f');
    assert("short"@[0] == 's');
}


/// In an expression, an identifier followed by `(` is a call and is
/// recorded as a `FUNCTION`; one not followed by `(` is recorded as a
/// `VARIABLE`. The identifier is the first token the factor records.
pub proof fn lemma_factor_marks_calls(s: ParserView)
    requires
        !aborts(factor_step(s)),
        !s.ended,
        s.cur.token_type == TokenType::VARIABLE,
        s.peek(0) is Some,
    ensures
        ({
            let r = factor_step(s).0;
            let tt = if s.peek(0) == Some(Some("("@)) {
                TokenType::FUNCTION
            } else {
                TokenType::VARIABLE
            };
            &&& r.parsed.len() > s.parsed.len()
            &&& r.parsed[s.parsed.len() as int] == TokenView { token_type: tt, ..s.cur }
        }),
{
    reveal(expr_step);
    reveal(smpl_expr_step);
    reveal(term_step);
    reveal(factor_step);
    reveal(arg_list_step);
    let is_fn = s.peek(0) == Some(Some("("@));
    let tt = if is_fn {
        TokenType::FUNCTION
    } else {
        TokenType::VARIABLE
    };
    let s3 = if is_fn {
        ParserView { cur: TokenView { token_type: TokenType::FUNCTION, ..s.cur }, ..s }
    } else {
        s
    };
    let (s4, o4) = expect_type(s3, tt);
    lemma_consume_accepts(s3);
    assert(s4.parsed[s.parsed.len() as int] == TokenView { token_type: tt, ..s.cur });
    let r = factor_step(s).0;
    lemma_advances_refl(s4);
    lemma_expect_text_advances(s4, "("@);
    let (s5, o5) = expect_text(s4, "("@);
    let mut last = s5;
    if o5 == Outcome::Value(true) && s5.rem() < s.rem() {
        lemma_expr_advances(s5);
        let (s6, o6) = expr_step(s5);
        lemma_advances_trans(s4, s5, s6);
        last = s6;
        if o6 == Outcome::Value(true) && s6.rem() < s.rem() {
            lemma_arg_list_advances(s6);
            let (s7, o7) = arg_list_step(s6);
            lemma_advances_trans(s4, s6, s7);
            last = s7;
            if o7 is Value {
                lemma_expect_text_advances(s7, ")"@);
                lemma_advances_trans(s4, s7, expect_text(s7, ")"@).0);
                last = expect_text(s7, ")"@).0;
            }
        }
    }
    assert(r == last);
    lemma_prefix_kept(s4, r, s.parsed.len() as int);
}

/// Going forward keeps every token already recorded.
pub proof fn lemma_prefix_kept(s: ParserView, t: ParserView, i: int)
    requires
        advances(s, t),
        0 <= i < s.parsed.len(),
    ensures
        t.parsed.len() >= s.parsed.len(),
        t.parsed[i] == s.parsed[i],
{
    reveal(advances);
    assert(t.parsed.subrange(0, s.parsed.len() as int)[i] == t.parsed[i]);
}


/// In a declaration, the declared identifier is recorded as a `FUNCTION`
/// when `(` follows it and as a `VARIABLE` otherwise: when `decl_type`
/// succeeds, the last token it records is the identifier after the data
/// type, with that type.
pub proof fn lemma_decl_type_marks_functions(s: ParserView)
    requires
        !aborts(decl_type_step(s)),
        decl_type_step(s).1 == Outcome::Value(true),
    ensures
        ({
            let s1 = data_type_step(s).0;
            let tt = if s1.peek(0) == Some(Some("("@)) {
                TokenType::FUNCTION
            } else {
                TokenType::VARIABLE
            };
            &&& decl_type_step(s).0.parsed.len() > 0
            &&& decl_type_step(s).0.parsed.last() == TokenView { token_type: tt, ..s1.cur }
        }),
{
    reveal(decl_type_step);
    let s1 = data_type_step(s).0;
    let is_fn = s1.peek(0) == Some(Some("("@));
    let s2 = if is_fn {
        ParserView { cur: TokenView { token_type: TokenType::FUNCTION, ..s1.cur }, ..s1 }
    } else {
        s1
    };
    let tt = if is_fn {
        TokenType::FUNCTION
    } else {
        TokenType::VARIABLE
    };
    lemma_consume_accepts(s2);
}


/// A statement is chosen by its first tokens: an identifier followed by `=`
/// is an assignment; otherwise `while` starts a while loop, `if` an if
/// statement, `return` a return statement; anything else is an expression
/// statement.
pub proof fn lemma_stmnt_dispatch(s: ParserView)
    requires
        s.peek(0) is Some,
    ensures
        s.cur.token_type == TokenType::VARIABLE && s.peek(0) == Some(Some("="@)) ==> ({
            let (r, o) = assign_step(s);
            stmnt_step(s) == if o == Outcome::Value(false) {
                r.fail(crate::parse_error::ErrorKind::ExpectedAssignment)
            } else {
                (r, o)
            }
        }),
        !(s.cur.token_type == TokenType::VARIABLE && s.peek(0) == Some(Some("="@)))
            && s.cur.text == "while"@ ==> stmnt_step(s) == while_loop_step(s),
        !(s.cur.token_type == TokenType::VARIABLE && s.peek(0) == Some(Some("="@)))
            && s.cur.text == "if"@ ==> stmnt_step(s) == if_stmnt_step(s),
        !(s.cur.token_type == TokenType::VARIABLE && s.peek(0) == Some(Some("="@)))
            && s.cur.text == "return"@ ==> stmnt_step(s) == ret_stmnt_step(s),
{
    reveal(block_step);
    reveal(stmnt_list_step);
    reveal(block_func_list_step);
    reveal(stmnt_step);
    reveal(guarded_block_step);
    reveal(while_loop_step);
    reveal(if_stmnt_step);
    reveal(func_def_step);
    reveal_strlit("while");
    reveal_strlit("if");
    reveal_strlit("return");
    assert("while"@.len() == 5);
    assert("if"@.len() == 2);
    assert("return"@.len() == 6);
}

/// A while loop is `while ( expression ) block` and an if statement
/// `if ( expression ) block`, with their own diagnostics.
pub proof fn lemma_loops_are_guarded_blocks(s: ParserView)
    ensures
        while_loop_step(s) == guarded_block_step(s, true),
        if_stmnt_step(s) == guarded_block_step(s, false),
{
    reveal(block_step);
    reveal(stmnt_list_step);
    reveal(block_func_list_step);
    reveal(stmnt_step);
    reveal(guarded_block_step);
    reveal(while_loop_step);
    reveal(if_stmnt_step);
    reveal(func_def_step);
}

} // verus!
