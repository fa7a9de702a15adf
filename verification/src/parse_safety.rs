use vstd::prelude::*;

use crate::parse_laws::{
    advances, lemma_add_op_advances, lemma_arg_list_advances, lemma_assign_chain_advances,
    lemma_block_advances, lemma_block_decl_list_advances, lemma_block_func_list_advances,
    lemma_constant_advances, lemma_data_type_advances, lemma_decl_advances,
    lemma_decl_type_advances, lemma_expect_if_advances, lemma_expect_text_advances,
    lemma_expect_type_advances, lemma_expr_advances, lemma_factor_advances,
    lemma_float_type_advances, lemma_func_decl_advances, lemma_func_def_advances,
    lemma_guarded_block_advances, lemma_int_type_advances, lemma_main_decl_advances,
    lemma_mult_op_advances, lemma_param_advances, lemma_param_block_advances,
    lemma_param_list_advances, lemma_program_decl_list_advances,
    lemma_program_func_list_advances, lemma_rel_op_advances, lemma_retype_advances,
    lemma_smpl_expr_advances, lemma_stmnt_advances, lemma_stmnt_list_advances,
    lemma_term_advances, lemma_advances_refl, lemma_assign_advances, lemma_ret_stmnt_advances,
    lemma_var_decl_advances, linked, seen,
};
use crate::parse_model::{
    add_op_step, arg_list_step, assign_chain_step, assign_step, block_decl_list_step,
    block_func_list_step, block_step, check_decl_step, constant_step, consume, data_type_step,
    decl_step, decl_type_step, expect_if, expect_text, expect_type, expr_step, factor_step,
    float_type_step, func_decl_step, func_def_step, guarded_block_step, if_stmnt_step,
    int_type_step, is_add_op, is_float_type_word, is_int_type_word, is_mult_op, is_rel_op,
    main_decl_step, mult_op_step, param_block_step, param_list_step, param_step,
    program_decl_list_step, program_func_list_step, program_step, rel_op_step,
    ret_stmnt_step, smpl_expr_step, stmnt_list_step, stmnt_step, term_step, var_decl_step,
    while_loop_step, Outcome, ParserView, Step, aborts,
};
use crate::parse_error::ParseError;
use crate::parse_model::start_view;
use crate::parser::Parser;
use crate::scan_safety::{is_scannable, lemma_scan_never_fails, new_scanner_view, scannable};
use crate::scanner::{lemma_scanned_reads_all, Scanner, ScannerView};
use crate::token::{TokenType, TokenView};

verus! {

/// A parser state from which no step can fail at run time: the scanner's
/// index and count agree with the tokens it holds, and the tokens accepted
/// and still to accept fit the counters.
pub open spec fn parse_safe(s: ParserView) -> bool {
    &&& linked(s)
    &&& s.scanner.num_tokens < i32::MAX
    &&& 0 <= s.num_parsed
    &&& s.num_parsed + s.rem() < i32::MAX
}

/// A step that does not abort, and that takes at least one token when it
/// yields `true`.
pub open spec fn sound(s: ParserView, r: Step) -> bool {
    &&& !aborts(r)
    &&& r.1 == Outcome::Value(true) ==> r.0.rem() < s.rem()
}

/// A step that does not abort, and that takes at least one token whenever
/// it yields a value.
pub open spec fn sound_value(s: ParserView, r: Step) -> bool {
    &&& !aborts(r)
    &&& r.1 is Value ==> r.0.rem() < s.rem()
}

/// Safety is kept by every step that goes forward, and the tokens still to
/// accept never grow.
proof fn lemma_safe_after(s: ParserView, t: ParserView)
    requires
        parse_safe(s),
        advances(s, t),
    ensures
        parse_safe(t),
        t.rem() <= s.rem(),
{
    reveal(advances);
    assert(seen(t).len() == seen(s).len());
}

/// Accepting the current token before the end of the text does not fail,
/// and takes it.
proof fn lemma_consume_safe(s: ParserView)
    requires
        parse_safe(s),
        !s.ended,
    ensures
        consume(s).1 == Outcome::Value(true),
        consume(s).0.rem() + 1 == s.rem(),
{
    let s1 = s.recorded().unwrap();
    if s.scanner.cur != s.scanner.num_tokens - 1 {
        assert(s.scanner.tokens.len() >= 1);
    }
}

proof fn lemma_expect_text_safe(s: ParserView, t: Seq<char>)
    requires
        parse_safe(s),
    ensures
        sound(s, expect_text(s, t)),
{
    if !s.ended {
        lemma_consume_safe(s);
    }
}

proof fn lemma_expect_type_safe(s: ParserView, tt: TokenType)
    requires
        parse_safe(s),
    ensures
        sound(s, expect_type(s, tt)),
{
    if !s.ended {
        lemma_consume_safe(s);
    }
}

proof fn lemma_expect_if_safe(s: ParserView, ok: bool)
    requires
        parse_safe(s),
    ensures
        sound(s, expect_if(s, ok)),
{
    if !s.ended {
        lemma_consume_safe(s);
    }
}

/// Under safety, peeking at the next token does not fail.
proof fn lemma_peek_safe(s: ParserView)
    requires
        parse_safe(s),
    ensures
        s.peek(0) is Some,
{
}


/// Each of these steps, from a safe state, does not fail at run time and
/// takes a token when it yields `true`.
pub proof fn lemma_rel_op_safe(s: ParserView)
    requires
        parse_safe(s),
    ensures
        sound(s, rel_op_step(s)),
{
    reveal(rel_op_step);
    lemma_expect_if_safe(s, is_rel_op(s.cur.text));
}

pub proof fn lemma_add_op_safe(s: ParserView)
    requires
        parse_safe(s),
    ensures
        sound(s, add_op_step(s)),
{
    reveal(add_op_step);
    lemma_expect_if_safe(s, is_add_op(s.cur.text));
}

pub proof fn lemma_mult_op_safe(s: ParserView)
    requires
        parse_safe(s),
    ensures
        sound(s, mult_op_step(s)),
{
    reveal(mult_op_step);
    lemma_expect_if_safe(s, is_mult_op(s.cur.text));
}

pub proof fn lemma_float_type_safe(s: ParserView)
    requires
        parse_safe(s),
    ensures
        sound(s, float_type_step(s)),
{
    reveal(float_type_step);
    lemma_expect_if_safe(s, is_float_type_word(s.cur.text));
}

pub proof fn lemma_constant_safe(s: ParserView)
    requires
        parse_safe(s),
    ensures
        sound(s, constant_step(s)),
{
    reveal(constant_step);
    lemma_expect_type_safe(s, TokenType::FLOATCONSTANT);
}

pub proof fn lemma_check_decl_safe(s: ParserView)
    requires
        parse_safe(s),
    ensures
        check_decl_step(s).1 is Value,
{
    reveal(check_decl_step);
}

pub proof fn lemma_int_type_safe(s: ParserView)
    requires
        parse_safe(s),
    ensures
        sound(s, int_type_step(s)),
{
    reveal(int_type_step);
    lemma_expect_text_safe(s, "unsigned"@);
    lemma_expect_text_advances(s, "unsigned"@);
    let (s1, o1) = expect_text(s, "unsigned"@);
    lemma_safe_after(s, s1);
    lemma_expect_if_safe(s1, is_int_type_word(s1.cur.text));
}

pub proof fn lemma_data_type_safe(s: ParserView)
    requires
        parse_safe(s),
    ensures
        sound(s, data_type_step(s)),
{
    reveal(data_type_step);
    lemma_int_type_safe(s);
    lemma_int_type_advances(s);
    let (s1, o1) = int_type_step(s);
    lemma_safe_after(s, s1);
    lemma_float_type_safe(s1);
}

pub proof fn lemma_decl_type_safe(s: ParserView)
    requires
        parse_safe(s),
    ensures
        sound(s, decl_type_step(s)),
{
    reveal(decl_type_step);
    lemma_data_type_safe(s);
    lemma_data_type_advances(s);
    let (s1, o1) = data_type_step(s);
    lemma_safe_after(s, s1);
    if o1 == Outcome::Value(true) {
        lemma_peek_safe(s1);
        let p = s1.peek(0).unwrap();
        let is_fn = p == Some("("@);
        let s2 = if is_fn {
            ParserView { cur: TokenView { token_type: TokenType::FUNCTION, ..s1.cur }, ..s1 }
        } else {
            s1
        };
        assert(parse_safe(s2));
        let tt = if is_fn {
            TokenType::FUNCTION
        } else {
            TokenType::VARIABLE
        };
        lemma_expect_type_safe(s2, tt);
    }
}

pub proof fn lemma_var_decl_safe(s: ParserView)
    requires
        parse_safe(s),
    ensures
        sound(s, var_decl_step(s)),
{
    reveal(var_decl_step);
    lemma_expect_text_safe(s, "="@);
    lemma_expect_text_advances(s, "="@);
    let (s1, o1) = expect_text(s, "="@);
    lemma_safe_after(s, s1);
    lemma_constant_safe(s1);
    lemma_constant_advances(s1);
    let s2 = if o1 == Outcome::Value(true) {
        constant_step(s1).0
    } else {
        s1
    };
    lemma_safe_after(s1, constant_step(s1).0);
    lemma_expect_text_safe(s2, ";"@);
}

pub proof fn lemma_param_safe(s: ParserView)
    requires
        parse_safe(s),
    ensures
        sound(s, param_step(s)),
{
    reveal(param_step);
    lemma_data_type_safe(s);
    lemma_data_type_advances(s);
    let (s1, o1) = data_type_step(s);
    lemma_safe_after(s, s1);
    lemma_expect_type_safe(s1, TokenType::VARIABLE);
}

pub proof fn lemma_param_list_safe(s: ParserView)
    requires
        parse_safe(s),
    ensures
        !aborts(param_list_step(s)),
    decreases s.rem(),
{
    reveal(param_list_step);
    lemma_expect_text_safe(s, ","@);
    lemma_expect_text_advances(s, ","@);
    let (s1, o1) = expect_text(s, ","@);
    lemma_safe_after(s, s1);
    if o1 == Outcome::Value(true) {
        lemma_param_safe(s1);
        lemma_param_advances(s1);
        let (s2, o2) = param_step(s1);
        lemma_safe_after(s1, s2);
        if o2 == Outcome::Value(true) {
            lemma_param_list_safe(s2);
        }
    }
}

pub proof fn lemma_param_block_safe(s: ParserView)
    requires
        parse_safe(s),
    ensures
        sound(s, param_block_step(s)),
{
    reveal(param_block_step);
    lemma_expect_text_safe(s, "("@);
    lemma_expect_text_advances(s, "("@);
    let (s1, o1) = expect_text(s, "("@);
    lemma_safe_after(s, s1);
    lemma_param_safe(s1);
    lemma_param_advances(s1);
    let (s2, o2) = param_step(s1);
    lemma_safe_after(s1, s2);
    lemma_param_list_safe(s2);
    lemma_param_list_advances(s2);
    lemma_safe_after(s2, param_list_step(s2).0);
    let s3 = if o2 == Outcome::Value(true) {
        param_list_step(s2).0
    } else {
        s2
    };
    lemma_expect_text_safe(s3, ")"@);
}

pub proof fn lemma_func_decl_safe(s: ParserView)
    requires
        parse_safe(s),
    ensures
        sound(s, func_decl_step(s)),
{
    reveal(func_decl_step);
    lemma_param_block_safe(s);
    lemma_param_block_advances(s);
    let (s1, o1) = param_block_step(s);
    lemma_safe_after(s, s1);
    lemma_expect_text_safe(s1, ";"@);
}

pub proof fn lemma_decl_safe(s: ParserView)
    requires
        parse_safe(s),
    ensures
        sound_value(s, decl_step(s)),
{
    reveal(decl_step);
    lemma_decl_type_safe(s);
    lemma_decl_type_advances(s);
    let (s1, o1) = decl_type_step(s);
    lemma_safe_after(s, s1);
    lemma_var_decl_safe(s1);
    lemma_var_decl_advances(s1);
    lemma_safe_after(s1, var_decl_step(s1).0);
    lemma_func_decl_safe(s1);
    lemma_func_decl_advances(s1);
    lemma_safe_after(s1, func_decl_step(s1).0);
}


#[verifier::spinoff_prover]
#[verifier::rlimit(100)]
pub proof fn lemma_expr_safe(s: ParserView)
    requires
        parse_safe(s),
    ensures
        sound(s, expr_step(s)),
    decreases s.rem(), 3nat,
{
    reveal(expr_step);
    reveal(smpl_expr_step);
    reveal(term_step);
    reveal(factor_step);
    reveal(arg_list_step);
    lemma_smpl_expr_safe(s);
    lemma_smpl_expr_advances(s);
    let (s1, o1) = smpl_expr_step(s);
    lemma_safe_after(s, s1);
    lemma_rel_op_safe(s1);
    lemma_rel_op_advances(s1);
    let (s2, o2) = rel_op_step(s1);
    lemma_safe_after(s1, s2);
    lemma_smpl_expr_safe(s2);
    lemma_smpl_expr_advances(s2);
    lemma_safe_after(s2, smpl_expr_step(s2).0);
}

#[verifier::spinoff_prover]
#[verifier::rlimit(100)]
pub proof fn lemma_smpl_expr_safe(s: ParserView)
    requires
        parse_safe(s),
    ensures
        sound(s, smpl_expr_step(s)),
    decreases s.rem(), 2nat,
{
    reveal(expr_step);
    reveal(smpl_expr_step);
    reveal(term_step);
    reveal(factor_step);
    reveal(arg_list_step);
    lemma_term_safe(s);
    lemma_term_advances(s);
    let (s1, o1) = term_step(s);
    lemma_safe_after(s, s1);
    lemma_add_op_safe(s1);
    lemma_add_op_advances(s1);
    let (s2, o2) = add_op_step(s1);
    lemma_safe_after(s1, s2);
    lemma_peek_safe(s2);
    lemma_term_safe(s2);
    lemma_term_advances(s2);
    lemma_safe_after(s2, term_step(s2).0);
}

#[verifier::spinoff_prover]
#[verifier::rlimit(100)]
pub proof fn lemma_term_safe(s: ParserView)
    requires
        parse_safe(s),
    ensures
        sound(s, term_step(s)),
    decreases s.rem(), 1nat,
{
    reveal(expr_step);
    reveal(smpl_expr_step);
    reveal(term_step);
    reveal(factor_step);
    reveal(arg_list_step);
    lemma_factor_safe(s);
    lemma_factor_advances(s);
    let (s1, o1) = factor_step(s);
    lemma_safe_after(s, s1);
    lemma_mult_op_safe(s1);
    lemma_mult_op_advances(s1);
    let (s2, o2) = mult_op_step(s1);
    lemma_safe_after(s1, s2);
    lemma_peek_safe(s2);
    lemma_factor_safe(s2);
    lemma_factor_advances(s2);
    lemma_safe_after(s2, factor_step(s2).0);
}

#[verifier::spinoff_prover]
#[verifier::rlimit(100)]
pub proof fn lemma_factor_safe(s: ParserView)
    requires
        parse_safe(s),
    ensures
        sound(s, factor_step(s)),
    decreases s.rem(), 0nat,
{
    reveal(expr_step);
    reveal(smpl_expr_step);
    reveal(term_step);
    reveal(factor_step);
    reveal(arg_list_step);
    lemma_expect_type_safe(s, TokenType::FLOATCONSTANT);
    lemma_expect_type_advances(s, TokenType::FLOATCONSTANT);
    let (s1, o1) = expect_type(s, TokenType::FLOATCONSTANT);
    lemma_safe_after(s, s1);
    lemma_expect_type_safe(s1, TokenType::INTCONSTANT);
    lemma_expect_type_advances(s1, TokenType::INTCONSTANT);
    let (s2, o2) = expect_type(s1, TokenType::INTCONSTANT);
    lemma_safe_after(s1, s2);
    lemma_peek_safe(s2);
    let p = s2.peek(0).unwrap();
    let is_fn = p == Some("("@);
    let s3 = if is_fn {
        ParserView { cur: TokenView { token_type: TokenType::FUNCTION, ..s2.cur }, ..s2 }
    } else {
        s2
    };
    assert(parse_safe(s3));
    let tt = if is_fn {
        TokenType::FUNCTION
    } else {
        TokenType::VARIABLE
    };
    if is_fn {
        lemma_retype_advances(s2, TokenType::FUNCTION);
    }
    lemma_advances_refl(s2);
    lemma_expect_type_safe(s3, tt);
    lemma_expect_type_advances(s3, tt);
    let (s4, o4) = expect_type(s3, tt);
    lemma_safe_after(s3, s4);
    lemma_expect_text_safe(s4, "("@);
    lemma_expect_text_advances(s4, "("@);
    let (s5, o5) = expect_text(s4, "("@);
    lemma_safe_after(s4, s5);
    if s5.rem() < s.rem() {
        lemma_expr_safe(s5);
        lemma_expr_advances(s5);
        let (s6, o6) = expr_step(s5);
        lemma_safe_after(s5, s6);
        if s6.rem() < s.rem() {
            lemma_arg_list_safe(s6);
            lemma_arg_list_advances(s6);
            let (s7, o7) = arg_list_step(s6);
            lemma_safe_after(s6, s7);
            lemma_expect_text_safe(s7, ")"@);
        }
    }
    lemma_expect_text_safe(s2, "("@);
    lemma_expect_text_advances(s2, "("@);
    let (t3, p3) = expect_text(s2, "("@);
    lemma_safe_after(s2, t3);
    if t3.rem() < s.rem() {
        lemma_expr_safe(t3);
        lemma_expr_advances(t3);
        let (t4, p4) = expr_step(t3);
        lemma_safe_after(t3, t4);
        lemma_expect_text_safe(t4, ")"@);
    }
}

pub proof fn lemma_arg_list_safe(s: ParserView)
    requires
        parse_safe(s),
    ensures
        !aborts(arg_list_step(s)),
    decreases s.rem(), 4nat,
{
    reveal(expr_step);
    reveal(smpl_expr_step);
    reveal(term_step);
    reveal(factor_step);
    reveal(arg_list_step);
    lemma_expect_text_safe(s, ","@);
    lemma_expect_text_advances(s, ","@);
    let (s1, o1) = expect_text(s, ","@);
    lemma_safe_after(s, s1);
    if o1 == Outcome::Value(true) {
        lemma_expr_safe(s1);
        lemma_expr_advances(s1);
        let (s2, o2) = expr_step(s1);
        lemma_safe_after(s1, s2);
        if o2 == Outcome::Value(true) {
            lemma_arg_list_safe(s2);
        }
    }
}

pub proof fn lemma_assign_chain_safe(s: ParserView, next: Seq<char>)
    requires
        parse_safe(s),
    ensures
        !aborts(assign_chain_step(s, next)),
    decreases s.rem(),
{
    reveal(assign_chain_step);
    if !s.ended && s.cur.token_type == TokenType::VARIABLE && next == "="@ {
        lemma_consume_safe(s);
        lemma_expect_text_advances(s, s.cur.text);
        let (s1, o1) = consume(s);
        assert(expect_text(s, s.cur.text).0 == s1);
        lemma_safe_after(s, s1);
        lemma_expect_text_safe(s1, "="@);
        lemma_expect_text_advances(s1, "="@);
        let (s2, o2) = expect_text(s1, "="@);
        lemma_safe_after(s1, s2);
        lemma_peek_safe(s2);
        if let Some(Some(n)) = s2.peek(0) {
            lemma_assign_chain_safe(s2, n);
        }
    }
}

pub proof fn lemma_assign_safe(s: ParserView)
    requires
        parse_safe(s),
    ensures
        sound(s, assign_step(s)),
{
    reveal(assign_step);
    lemma_expect_type_safe(s, TokenType::VARIABLE);
    lemma_expect_type_advances(s, TokenType::VARIABLE);
    let (s1, o1) = expect_type(s, TokenType::VARIABLE);
    lemma_safe_after(s, s1);
    lemma_expect_text_safe(s1, "="@);
    lemma_expect_text_advances(s1, "="@);
    let (s2, o2) = expect_text(s1, "="@);
    lemma_safe_after(s1, s2);
    lemma_peek_safe(s2);
    lemma_advances_refl(s2);
    let s3 = match s2.peek(0) {
        Some(Some(n)) => {
            lemma_assign_chain_safe(s2, n);
            lemma_assign_chain_advances(s2, n);
            assign_chain_step(s2, n).0
        },
        _ => s2,
    };
    lemma_safe_after(s2, s3);
    lemma_expr_safe(s3);
    lemma_expr_advances(s3);
    let (s4, o4) = expr_step(s3);
    lemma_safe_after(s3, s4);
    lemma_expect_text_safe(s4, ";"@);
    lemma_expect_text_advances(s4, ";"@);
    lemma_safe_after(s4, expect_text(s4, ";"@).0);
}

pub proof fn lemma_ret_stmnt_safe(s: ParserView)
    requires
        parse_safe(s),
    ensures
        sound(s, ret_stmnt_step(s)),
{
    reveal(ret_stmnt_step);
    lemma_expect_text_safe(s, "return"@);
    lemma_expect_text_advances(s, "return"@);
    let (s1, o1) = expect_text(s, "return"@);
    lemma_safe_after(s, s1);
    lemma_expr_safe(s1);
    lemma_expr_advances(s1);
    let (s2, o2) = expr_step(s1);
    lemma_safe_after(s1, s2);
    lemma_expect_text_safe(s2, ";"@);
    lemma_expect_text_advances(s2, ";"@);
    lemma_safe_after(s2, expect_text(s2, ";"@).0);
}


pub proof fn lemma_block_decl_list_safe(s: ParserView)
    requires
        parse_safe(s),
    ensures
        !aborts(block_decl_list_step(s)),
    decreases s.rem(),
{
    reveal(block_decl_list_step);
    lemma_check_decl_safe(s);
    lemma_decl_safe(s);
    lemma_decl_advances(s);
    let (s1, o1) = decl_step(s);
    lemma_safe_after(s, s1);
    if o1 == Outcome::Value(true) {
        lemma_block_decl_list_safe(s1);
    }
}

pub proof fn lemma_block_safe(s: ParserView)
    requires
        parse_safe(s),
    ensures
        sound(s, block_step(s)),
    decreases s.rem(), 5nat,
{
    reveal(block_step);
    reveal(stmnt_list_step);
    reveal(block_func_list_step);
    reveal(stmnt_step);
    reveal(guarded_block_step);
    reveal(while_loop_step);
    reveal(if_stmnt_step);
    reveal(func_def_step);
    lemma_expect_text_safe(s, "{"@);
    lemma_expect_text_advances(s, "{"@);
    let (s1, o1) = expect_text(s, "{"@);
    lemma_safe_after(s, s1);
    lemma_block_decl_list_safe(s1);
    lemma_block_decl_list_advances(s1);
    let (s2, o2) = block_decl_list_step(s1);
    lemma_safe_after(s1, s2);
    lemma_stmnt_list_safe(s2);
    lemma_stmnt_list_advances(s2);
    let (s3, o3) = stmnt_list_step(s2);
    lemma_safe_after(s2, s3);
    lemma_block_func_list_safe(s3);
    lemma_block_func_list_advances(s3);
    let (s4, o4) = block_func_list_step(s3);
    lemma_safe_after(s3, s4);
    lemma_expect_text_safe(s4, "}"@);
    lemma_expect_text_advances(s4, "}"@);
    lemma_safe_after(s4, expect_text(s4, "}"@).0);
}

pub proof fn lemma_stmnt_list_safe(s: ParserView)
    requires
        parse_safe(s),
    ensures
        !aborts(stmnt_list_step(s)),
    decreases s.rem(), 4nat,
{
    reveal(block_step);
    reveal(stmnt_list_step);
    reveal(block_func_list_step);
    reveal(stmnt_step);
    reveal(guarded_block_step);
    reveal(while_loop_step);
    reveal(if_stmnt_step);
    reveal(func_def_step);
    if crate::parse_model::starts_stmnt(s) {
        lemma_stmnt_safe(s);
        lemma_stmnt_advances(s);
        let (s1, o1) = stmnt_step(s);
        lemma_safe_after(s, s1);
        if o1 == Outcome::Value(true) {
            lemma_stmnt_list_safe(s1);
        }
    }
}

pub proof fn lemma_block_func_list_safe(s: ParserView)
    requires
        parse_safe(s),
    ensures
        !aborts(block_func_list_step(s)),
    decreases s.rem(), 4nat,
{
    reveal(block_step);
    reveal(stmnt_list_step);
    reveal(block_func_list_step);
    reveal(stmnt_step);
    reveal(guarded_block_step);
    reveal(while_loop_step);
    reveal(if_stmnt_step);
    reveal(func_def_step);
    lemma_check_decl_safe(s);
    lemma_func_def_safe(s);
    lemma_func_def_advances(s);
    let (s1, o1) = func_def_step(s);
    lemma_safe_after(s, s1);
    if o1 == Outcome::Value(true) {
        lemma_block_func_list_safe(s1);
    }
}

pub proof fn lemma_stmnt_safe(s: ParserView)
    requires
        parse_safe(s),
    ensures
        sound(s, stmnt_step(s)),
    decreases s.rem(), 3nat,
{
    reveal(block_step);
    reveal(stmnt_list_step);
    reveal(block_func_list_step);
    reveal(stmnt_step);
    reveal(guarded_block_step);
    reveal(while_loop_step);
    reveal(if_stmnt_step);
    reveal(func_def_step);
    lemma_peek_safe(s);
    lemma_assign_safe(s);
    lemma_while_loop_safe(s);
    lemma_if_stmnt_safe(s);
    lemma_ret_stmnt_safe(s);
    lemma_expr_safe(s);
    lemma_expr_advances(s);
    let (s1, o1) = expr_step(s);
    lemma_safe_after(s, s1);
    lemma_expect_text_safe(s1, ";"@);
}

pub proof fn lemma_guarded_block_safe(s: ParserView, is_while: bool)
    requires
        parse_safe(s),
    ensures
        sound(s, guarded_block_step(s, is_while)),
    decreases s.rem(), 1nat,
{
    reveal(block_step);
    reveal(stmnt_list_step);
    reveal(block_func_list_step);
    reveal(stmnt_step);
    reveal(guarded_block_step);
    reveal(while_loop_step);
    reveal(if_stmnt_step);
    reveal(func_def_step);
    let kw = if is_while {
        "while"@
    } else {
        "if"@
    };
    lemma_expect_text_safe(s, kw);
    lemma_expect_text_advances(s, kw);
    let (s1, o1) = expect_text(s, kw);
    lemma_safe_after(s, s1);
    lemma_expect_text_safe(s1, "("@);
    lemma_expect_text_advances(s1, "("@);
    let (s2, o2) = expect_text(s1, "("@);
    lemma_safe_after(s1, s2);
    lemma_expr_safe(s2);
    lemma_expr_advances(s2);
    let (s3, o3) = expr_step(s2);
    lemma_safe_after(s2, s3);
    lemma_expect_text_safe(s3, ")"@);
    lemma_expect_text_advances(s3, ")"@);
    let (s4, o4) = expect_text(s3, ")"@);
    lemma_safe_after(s3, s4);
    if s4.rem() < s.rem() {
        lemma_block_safe(s4);
        lemma_block_advances(s4);
        lemma_safe_after(s4, block_step(s4).0);
    }
}

pub proof fn lemma_while_loop_safe(s: ParserView)
    requires
        parse_safe(s),
    ensures
        sound(s, while_loop_step(s)),
    decreases s.rem(), 2nat,
{
    reveal(block_step);
    reveal(stmnt_list_step);
    reveal(block_func_list_step);
    reveal(stmnt_step);
    reveal(guarded_block_step);
    reveal(while_loop_step);
    reveal(if_stmnt_step);
    reveal(func_def_step);
    lemma_guarded_block_safe(s, true);
}

pub proof fn lemma_if_stmnt_safe(s: ParserView)
    requires
        parse_safe(s),
    ensures
        sound(s, if_stmnt_step(s)),
    decreases s.rem(), 2nat,
{
    reveal(block_step);
    reveal(stmnt_list_step);
    reveal(block_func_list_step);
    reveal(stmnt_step);
    reveal(guarded_block_step);
    reveal(while_loop_step);
    reveal(if_stmnt_step);
    reveal(func_def_step);
    lemma_guarded_block_safe(s, false);
}

pub proof fn lemma_func_def_safe(s: ParserView)
    requires
        parse_safe(s),
    ensures
        sound_value(s, func_def_step(s)),
    decreases s.rem(), 1nat,
{
    reveal(block_step);
    reveal(stmnt_list_step);
    reveal(block_func_list_step);
    reveal(stmnt_step);
    reveal(guarded_block_step);
    reveal(while_loop_step);
    reveal(if_stmnt_step);
    reveal(func_def_step);
    lemma_decl_type_safe(s);
    lemma_decl_type_advances(s);
    let (s1, o1) = decl_type_step(s);
    lemma_safe_after(s, s1);
    lemma_param_block_safe(s1);
    lemma_param_block_advances(s1);
    let (s2, o2) = param_block_step(s1);
    lemma_safe_after(s1, s2);
    if s2.rem() < s.rem() {
        lemma_block_safe(s2);
        lemma_block_advances(s2);
        lemma_safe_after(s2, block_step(s2).0);
    }
}

pub proof fn lemma_main_decl_safe(s: ParserView)
    requires
        parse_safe(s),
    ensures
        !aborts(main_decl_step(s)),
{
    reveal(main_decl_step);
    lemma_expect_text_safe(s, "void"@);
    lemma_expect_text_advances(s, "void"@);
    let (s1, o1) = expect_text(s, "void"@);
    lemma_safe_after(s, s1);
    lemma_expect_text_safe(s1, "main"@);
    lemma_expect_text_advances(s1, "main"@);
    let (s2, o2) = expect_text(s1, "main"@);
    lemma_safe_after(s1, s2);
    lemma_expect_text_safe(s2, "("@);
    lemma_expect_text_advances(s2, "("@);
    let (s3, o3) = expect_text(s2, "("@);
    lemma_safe_after(s2, s3);
    lemma_expect_text_safe(s3, ")"@);
    lemma_expect_text_advances(s3, ")"@);
    let (s4, o4) = expect_text(s3, ")"@);
    lemma_safe_after(s3, s4);
    lemma_block_safe(s4);
}

pub proof fn lemma_program_decl_list_safe(s: ParserView)
    requires
        parse_safe(s),
    ensures
        !aborts(program_decl_list_step(s)),
    decreases s.rem(),
{
    reveal(program_decl_list_step);
    lemma_check_decl_safe(s);
    lemma_decl_safe(s);
    lemma_decl_advances(s);
    let (s1, o1) = decl_step(s);
    lemma_safe_after(s, s1);
    if o1 is Value {
        lemma_program_decl_list_safe(s1);
    }
}

pub proof fn lemma_program_func_list_safe(s: ParserView)
    requires
        parse_safe(s),
    ensures
        !aborts(program_func_list_step(s)),
    decreases s.rem(),
{
    reveal(program_func_list_step);
    lemma_check_decl_safe(s);
    lemma_func_def_safe(s);
    lemma_func_def_advances(s);
    let (s1, o1) = func_def_step(s);
    lemma_safe_after(s, s1);
    if o1 is Value {
        lemma_program_func_list_safe(s1);
    }
}

/// Parsing a program from a safe state never fails at run time: it either
/// accepts the program or refuses it with a diagnostic.
pub proof fn lemma_program_safe(s: ParserView)
    requires
        parse_safe(s),
    ensures
        !aborts(program_step(s)),
{
    reveal(program_step);
    lemma_program_decl_list_safe(s);
    lemma_program_decl_list_advances(s);
    let (s1, o1) = program_decl_list_step(s);
    lemma_safe_after(s, s1);
    lemma_main_decl_safe(s1);
    lemma_main_decl_advances(s1);
    let (s2, o2) = main_decl_step(s1);
    lemma_safe_after(s1, s2);
    lemma_program_func_list_safe(s2);
}


/// Parsing the tokens of a text scanned from the start never fails at run
/// time, when there is at least one token and fewer than `i32::MAX - 1`.
pub proof fn lemma_parse_never_fails(sc: ScannerView)
    requires
        sc.tokens.len() == 0,
        sc.num_tokens == 0,
        sc.cur == -1,
        sc.scanned() is Some,
        0 < sc.scanned().unwrap().num_tokens < i32::MAX - 1,
    ensures
        !aborts(program_step(start_view(sc.scanned().unwrap()))),
{
    let t = sc.scanned().unwrap();
    lemma_scanned_reads_all(sc);
    let p = start_view(t);
    assert(p.scanner.tokens =~= t.tokens.drop_first());
    assert(parse_safe(p));
    lemma_program_safe(p);
}

/// Scans and parses a text as a program. `None` when the text is not
/// scannable, or yields no token or `i32::MAX - 1` tokens or more; then
/// nothing was parsed. Otherwise the parser after parsing and its result,
/// as `program` gives them.
pub fn scan_and_parse(text: &str) -> (r: Option<(Parser, Result<(), ParseError>)>)
    ensures
        r is Some <==> scannable(text@) && 0 < new_scanner_view(text@).scanned().unwrap().num_tokens
            < i32::MAX - 1,
        r matches Some((p, res)) ==> ({
            let (q, o) = program_step(start_view(new_scanner_view(text@).scanned().unwrap()));
            &&& p@ == q
            &&& o == match res {
                Ok(_) => Outcome::Value(true),
                Err(e) => Outcome::Failed(e),
            }
        }),
{
    if !is_scannable(text) {
        return None;
    }
    proof {
        lemma_scan_never_fails(text@);
    }
    let mut sc = Scanner::new(text);
    sc.scan_all();
    let n = sc.get_num_tokens();
    if n == 0 || n >= 2147483646u32 {
        return None;
    }
    proof {
        lemma_parse_never_fails(new_scanner_view(text@));
        lemma_scanned_reads_all(new_scanner_view(text@));
    }
    let mut p = Parser::new(sc);
    let res = p.program();
    Some((p, res))
}


/// `data_type` accepts every data-type word at which `check_decl` sees a
/// declaration start: from a safe state before the end of the text, when
/// the current token is `char`, `short`, `int`, `long`, `float` or `double`,
/// `data_type` yields true and accepts exactly that token.
pub proof fn lemma_data_type_accepts_type_words(s: ParserView)
    requires
        parse_safe(s),
        !s.ended,
        s.cur.text == "char"@ || s.cur.text == "short"@ || s.cur.text == "int"@ || s.cur.text
            == "long"@ || s.cur.text == "float"@ || s.cur.text == "double"@,
    ensures
        data_type_step(s).1 == Outcome::Value(true),
        crate::parse_laws::accepted_cur(s, data_type_step(s).0),
{
    reveal(data_type_step);
    reveal(int_type_step);
    reveal(float_type_step);
    crate::parse_laws::lemma_type_words_distinct();
    lemma_consume_safe(s);
    crate::parse_laws::lemma_consume_accepts(s);
}


/// Each state of `st` but the last is at a token where a declaration can
/// start, and a function definition parsed from it succeeds and leads to the
/// next state.
#[verifier::opaque]
pub open spec fn func_def_chain(st: Seq<ParserView>) -> bool {
    forall|j: int|
        0 <= j < st.len() - 1 ==> check_decl_step(#[trigger] st[j]).1 == Outcome::Value(true)
            && func_def_step(st[j]) == (st[j + 1], Outcome::Value(true))
}

proof fn lemma_func_defs_to_end(st: Seq<ParserView>, i: int)
    requires
        0 <= i < st.len(),
        parse_safe(st[i]),
        func_def_chain(st),
        check_decl_step(st.last()).1 == Outcome::Value(false),
    ensures
        program_func_list_step(st[i]) == (st.last(), Outcome::Value(true)),
    decreases st.len() - i,
{
    reveal(program_func_list_step);
    if i < st.len() - 1 {
        assert(check_decl_step(st[i]).1 == Outcome::Value(true) && func_def_step(st[i]) == (
        st[i + 1], Outcome::Value(true))) by {
            reveal(func_def_chain);
        }
        lemma_func_def_safe(st[i]);
        lemma_func_def_advances(st[i]);
        lemma_safe_after(st[i], st[i + 1]);
        lemma_func_defs_to_end(st, i + 1);
    }
}

/// A program made of global declarations, `void main() block`, then function
/// definitions reaching the end of the text is accepted: when, from a safe
/// state, the declarations and the main declaration are parsed, and after
/// them the states `st` are passed through by function definitions (each at
/// a token where a declaration can start), the last of them at the end of
/// the text with no declaration starting there, `program` yields true and
/// stops at that last state.
pub proof fn lemma_program_accepts_function_definitions(s: ParserView, st: Seq<ParserView>)
    requires
        parse_safe(s),
        st.len() >= 1,
        program_decl_list_step(s).1 is Value,
        main_decl_step(program_decl_list_step(s).0) == (st[0], Outcome::Value(true)),
        func_def_chain(st),
        check_decl_step(st.last()).1 == Outcome::Value(false),
        st.last().ended,
    ensures
        program_step(s) == (st.last(), Outcome::Value(true)),
{
    reveal(program_step);
    lemma_program_decl_list_advances(s);
    let s1 = program_decl_list_step(s).0;
    lemma_safe_after(s, s1);
    lemma_main_decl_advances(s1);
    lemma_safe_after(s1, st[0]);
    lemma_func_defs_to_end(st, 0);
}


/// Accepting the current token when more tokens follow moves on to the
/// scanner's next token.
proof fn lemma_consume_moves_on(s: ParserView)
    requires
        parse_safe(s),
        !s.ended,
        s.scanner.tokens.len() >= 1,
    ensures
        consume(s).1 == Outcome::Value(true),
        consume(s).0.cur == s.scanner.tokens[0],
        consume(s).0.scanner.tokens == s.scanner.tokens.drop_first(),
        !consume(s).0.ended,
        consume(s).0.parsed.len() == s.parsed.len() + 1,
        parse_safe(consume(s).0),
{
    lemma_consume_safe(s);
    crate::parse_laws::lemma_consume_advances(s);
    lemma_safe_after(s, consume(s).0);
}

/// A variable declaration's tail is `;` or `= constant ;`: from a safe
/// state, `;` alone is accepted as one token, `=` followed by a floating
/// constant and `;` as three tokens, and a token that is neither `=` nor `;`
/// is refused with a missing-semicolon diagnostic at its line.
pub proof fn lemma_var_decl_shapes(s: ParserView)
    requires
        parse_safe(s),
        !s.ended,
    ensures
        s.cur.text == ";"@ ==> var_decl_step(s).1 == Outcome::Value(true)
            && var_decl_step(s).0.parsed.len() == s.parsed.len() + 1,
        s.cur.text == "="@ && s.scanner.tokens.len() >= 2 && s.scanner.tokens[0].token_type
            == TokenType::FLOATCONSTANT && s.scanner.tokens[1].text == ";"@ ==> var_decl_step(s).1
            == Outcome::Value(true) && var_decl_step(s).0.parsed.len() == s.parsed.len() + 3,
        s.cur.text != "="@ && s.cur.text != ";"@ ==> var_decl_step(s) == s.fail(
            crate::parse_error::ErrorKind::ExpectedSemicolon,
        ),
{
    reveal(var_decl_step);
    reveal(constant_step);
    reveal_strlit("=");
    reveal_strlit(";");
    assert("="@[0] == '=' && ";"@[0] == ';');
    assert("="@ != ";"@);
    if s.cur.text == ";"@ {
        lemma_consume_safe(s);
        crate::parse_laws::lemma_consume_accepts(s);
    }
    if s.cur.text == "="@ && s.scanner.tokens.len() >= 2 && s.scanner.tokens[0].token_type
        == TokenType::FLOATCONSTANT && s.scanner.tokens[1].text == ";"@ {
        lemma_consume_moves_on(s);
        let s1 = consume(s).0;
        assert(s1.scanner.tokens[0] == s.scanner.tokens[1]);
        lemma_consume_moves_on(s1);
        let s2 = consume(s1).0;
        lemma_consume_safe(s2);
        crate::parse_laws::lemma_consume_accepts(s2);
    }
}

} // verus!
