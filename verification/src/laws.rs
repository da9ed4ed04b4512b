//! Engine-wide laws, stated over the spec-level semantics and proved once
//! and for all: checked arithmetic, branch-stack balance, and what plain
//! text renders to.

use vstd::prelude::*;

use crate::metadata::SegModel;
use crate::scan::digits_end;
use crate::scan::id_end;
use crate::scan::is_id_char;
use crate::scan::is_lower;
use crate::scan::is_op_char;
use crate::scan::op_kind;
use crate::scan::sp_tokenize;
use crate::scan::string_end;
use crate::text::all_digits;
use crate::text::is_digit;
use crate::context::CtxModel;
use crate::context::EnvVal;
use crate::context::Val;
use crate::context::sp_branch_top;
use crate::parser::sp_addition;
use crate::parser::sp_addition_rest;
use crate::parser::sp_comparison;
use crate::parser::sp_comparison_rest;
use crate::parser::sp_compute_binary;
use crate::parser::sp_equality;
use crate::parser::sp_equality_rest;
use crate::parser::sp_eval;
use crate::parser::sp_expression;
use crate::parser::sp_logical;
use crate::parser::sp_logical_rest;
use crate::parser::sp_multiplication;
use crate::parser::sp_multiplication_rest;
use crate::parser::sp_primary;
use crate::parser::sp_segments;
use crate::parser::sp_statement;
use crate::parser::sp_unary;
use crate::text::spec_i64_dec;
use crate::token::TokenModel;
use crate::token_types::TokenTypes;
use crate::token_types::spec_keyword;

verus! {

/// Law: a binary operation on two numbers is exactly the checked 64-bit
/// arithmetic of the operator, and every checked failure is the stated
/// diagnostic, naming `overflows`, `underflows`, or `division by 0`.
pub proof fn theorem_checked_arithmetic(a: i64, b: i64)
    ensures
        sp_compute_binary(Val::Num(a), Val::Num(b), TokenTypes::PLUS) == (match a.checked_add(b) {
            Some(q) => Ok::<Val, Seq<char>>(Val::Num(q)),
            None => Err(spec_i64_dec(a as int) + " + "@ + spec_i64_dec(b as int) + " overflows"@),
        }),
        sp_compute_binary(Val::Num(a), Val::Num(b), TokenTypes::MINUS) == (match a.checked_sub(b) {
            Some(q) => Ok::<Val, Seq<char>>(Val::Num(q)),
            None => Err(spec_i64_dec(a as int) + " - "@ + spec_i64_dec(b as int) + " underflows"@),
        }),
        sp_compute_binary(Val::Num(a), Val::Num(b), TokenTypes::STAR) == (match a.checked_mul(b) {
            Some(q) => Ok::<Val, Seq<char>>(Val::Num(q)),
            None => Err(spec_i64_dec(a as int) + " * "@ + spec_i64_dec(b as int) + " overflows"@),
        }),
        sp_compute_binary(Val::Num(a), Val::Num(b), TokenTypes::SLASH) == (match a.checked_div(b) {
            Some(q) => Ok::<Val, Seq<char>>(Val::Num(q)),
            None => Err(
                spec_i64_dec(a as int) + " / "@ + spec_i64_dec(b as int) + " division by 0"@,
            ),
        }),
        sp_compute_binary(Val::Num(a), Val::Num(b), TokenTypes::PERCENT) == (
        match a.checked_rem(b) {
            Some(q) => Ok::<Val, Seq<char>>(Val::Num(q)),
            None => Err(
                spec_i64_dec(a as int) + " / "@ + spec_i64_dec(b as int) + " division by 0"@,
            ),
        }),
{
}

/// Two context models that agree on everything the branch controller reads
/// and writes: expression evaluation only moves the value stack and the
/// diagnostics.
pub open spec fn same_control(a: CtxModel, b: CtxModel) -> bool {
    a.branches == b.branches && a.env == b.env && a.output == b.output
}

#[verifier::rlimit(100)]
#[verifier::spinoff_prover]
proof fn lemma_primary_preserves(toks: Seq<TokenModel>, i: int, c: CtxModel)
    ensures
        same_control(c, sp_primary(toks, i, c).1),
    decreases toks.len() - i, 0int,
{
    if 0 <= i < toks.len() && toks[i].kind == TokenTypes::LPAREN {
        lemma_expression_preserves(toks, i + 1, c);
    } else if 0 <= i < toks.len() && toks[i].kind == TokenTypes::IDENTIFIER && !(0 <= i
        < toks.len() && (toks[i].kind == TokenTypes::NUMBER || toks[i].kind == TokenTypes::STRING
        || toks[i].kind == TokenTypes::TRUE || toks[i].kind == TokenTypes::FALSE)) {
        if i + 1 < toks.len() && toks[i + 1].kind == TokenTypes::LBRACKET {
            lemma_primary_preserves(
                toks,
                i + 2,
                if crate::context::sp_lookup(c.env, toks[i].data) is None {
                    crate::context::sp_err(c, "invalid identifier "@ + toks[i].data)
                } else {
                    c
                },
            );
        }
    }
}

#[verifier::rlimit(100)]
#[verifier::spinoff_prover]
proof fn lemma_unary_preserves(toks: Seq<TokenModel>, i: int, c: CtxModel)
    ensures
        same_control(c, sp_unary(toks, i, c).1),
    decreases toks.len() - i, 1int,
{
    if 0 <= i < toks.len() && (toks[i].kind == TokenTypes::MINUS || toks[i].kind
        == TokenTypes::NOT) {
        lemma_unary_preserves(toks, i + 1, c);
    } else {
        lemma_primary_preserves(toks, i, c);
    }
}

#[verifier::rlimit(100)]
#[verifier::spinoff_prover]
proof fn lemma_multiplication_rest_preserves(toks: Seq<TokenModel>, i: int, c: CtxModel)
    ensures
        same_control(c, sp_multiplication_rest(toks, i, c).1),
    decreases toks.len() - i, 2int,
{
    if 0 <= i < toks.len() && (toks[i].kind == TokenTypes::STAR || toks[i].kind
        == TokenTypes::PERCENT || toks[i].kind == TokenTypes::SLASH) {
        let (j, c1) = sp_unary(toks, i + 1, c);
        lemma_unary_preserves(toks, i + 1, c);
        let c2 = crate::parser::sp_binary_step(c1, toks[i].kind);
        if i + 1 <= j <= toks.len() {
            lemma_multiplication_rest_preserves(toks, j, c2);
        }
    }
}

#[verifier::rlimit(100)]
#[verifier::spinoff_prover]
proof fn lemma_multiplication_preserves(toks: Seq<TokenModel>, i: int, c: CtxModel)
    ensures
        same_control(c, sp_multiplication(toks, i, c).1),
    decreases toks.len() - i, 3int,
{
    let (j, c1) = sp_unary(toks, i, c);
    lemma_unary_preserves(toks, i, c);
    if i <= j <= toks.len() {
        lemma_multiplication_rest_preserves(toks, j, c1);
    }
}

#[verifier::rlimit(100)]
#[verifier::spinoff_prover]
proof fn lemma_addition_rest_preserves(toks: Seq<TokenModel>, i: int, c: CtxModel)
    ensures
        same_control(c, sp_addition_rest(toks, i, c).1),
    decreases toks.len() - i, 4int,
{
    if 0 <= i < toks.len() && (toks[i].kind == TokenTypes::PLUS || toks[i].kind
        == TokenTypes::MINUS) {
        let (j, c1) = sp_multiplication(toks, i + 1, c);
        lemma_multiplication_preserves(toks, i + 1, c);
        let c2 = crate::parser::sp_binary_step(c1, toks[i].kind);
        if i + 1 <= j <= toks.len() {
            lemma_addition_rest_preserves(toks, j, c2);
        }
    }
}

#[verifier::rlimit(100)]
#[verifier::spinoff_prover]
proof fn lemma_addition_preserves(toks: Seq<TokenModel>, i: int, c: CtxModel)
    ensures
        same_control(c, sp_addition(toks, i, c).1),
    decreases toks.len() - i, 5int,
{
    let (j, c1) = sp_multiplication(toks, i, c);
    lemma_multiplication_preserves(toks, i, c);
    if i <= j <= toks.len() {
        lemma_addition_rest_preserves(toks, j, c1);
    }
}

#[verifier::rlimit(100)]
#[verifier::spinoff_prover]
proof fn lemma_comparison_rest_preserves(toks: Seq<TokenModel>, i: int, c: CtxModel)
    ensures
        same_control(c, sp_comparison_rest(toks, i, c).1),
    decreases toks.len() - i, 6int,
{
    if 0 <= i < toks.len() && (toks[i].kind == TokenTypes::GT || toks[i].kind == TokenTypes::GE
        || toks[i].kind == TokenTypes::LT || toks[i].kind == TokenTypes::LE) {
        let (j, c1) = sp_addition(toks, i + 1, c);
        lemma_addition_preserves(toks, i + 1, c);
        let c2 = crate::parser::sp_binary_step(c1, toks[i].kind);
        if i + 1 <= j <= toks.len() {
            lemma_comparison_rest_preserves(toks, j, c2);
        }
    }
}

#[verifier::rlimit(100)]
#[verifier::spinoff_prover]
proof fn lemma_comparison_preserves(toks: Seq<TokenModel>, i: int, c: CtxModel)
    ensures
        same_control(c, sp_comparison(toks, i, c).1),
    decreases toks.len() - i, 7int,
{
    let (j, c1) = sp_addition(toks, i, c);
    lemma_addition_preserves(toks, i, c);
    if i <= j <= toks.len() {
        lemma_comparison_rest_preserves(toks, j, c1);
    }
}

#[verifier::rlimit(100)]
#[verifier::spinoff_prover]
proof fn lemma_logical_rest_preserves(toks: Seq<TokenModel>, i: int, c: CtxModel)
    ensures
        same_control(c, sp_logical_rest(toks, i, c).1),
    decreases toks.len() - i, 8int,
{
    if 0 <= i < toks.len() && (toks[i].kind == TokenTypes::AND || toks[i].kind == TokenTypes::OR) {
        let (j, c1) = sp_comparison(toks, i + 1, c);
        lemma_comparison_preserves(toks, i + 1, c);
        let c2 = crate::parser::sp_binary_step(c1, toks[i].kind);
        if i + 1 <= j <= toks.len() {
            lemma_logical_rest_preserves(toks, j, c2);
        }
    }
}

#[verifier::rlimit(100)]
#[verifier::spinoff_prover]
proof fn lemma_logical_preserves(toks: Seq<TokenModel>, i: int, c: CtxModel)
    ensures
        same_control(c, sp_logical(toks, i, c).1),
    decreases toks.len() - i, 9int,
{
    let (j, c1) = sp_comparison(toks, i, c);
    lemma_comparison_preserves(toks, i, c);
    if i <= j <= toks.len() {
        lemma_logical_rest_preserves(toks, j, c1);
    }
}

#[verifier::rlimit(100)]
#[verifier::spinoff_prover]
proof fn lemma_equality_rest_preserves(toks: Seq<TokenModel>, i: int, c: CtxModel)
    ensures
        same_control(c, sp_equality_rest(toks, i, c).1),
    decreases toks.len() - i, 10int,
{
    if 0 <= i < toks.len() && (toks[i].kind == TokenTypes::EQ || toks[i].kind == TokenTypes::NE) {
        let (j, c1) = sp_logical(toks, i + 1, c);
        lemma_logical_preserves(toks, i + 1, c);
        let c2 = crate::parser::sp_binary_step(c1, toks[i].kind);
        if i + 1 <= j <= toks.len() {
            lemma_equality_rest_preserves(toks, j, c2);
        }
    }
}

#[verifier::rlimit(100)]
#[verifier::spinoff_prover]
proof fn lemma_equality_preserves(toks: Seq<TokenModel>, i: int, c: CtxModel)
    ensures
        same_control(c, sp_equality(toks, i, c).1),
    decreases toks.len() - i, 11int,
{
    let (j, c1) = sp_logical(toks, i, c);
    lemma_logical_preserves(toks, i, c);
    if i <= j <= toks.len() {
        lemma_equality_rest_preserves(toks, j, c1);
    }
}

/// Expression evaluation never touches the branch stack, the environment,
/// or the output: it moves only the value stack and the diagnostics.
pub proof fn lemma_expression_preserves(toks: Seq<TokenModel>, i: int, c: CtxModel)
    ensures
        same_control(c, sp_expression(toks, i, c).1),
    decreases toks.len() - i, 12int,
{
    lemma_equality_preserves(toks, i, c);
}

/// Every open frame was opened by `if` or by `else`.
pub open spec fn frames_ok(c: CtxModel) -> bool {
    forall|k: int|
        0 <= k < c.branches.len() ==> (#[trigger] c.branches[k]).0 == TokenTypes::IF
            || c.branches[k].0 == TokenTypes::ELSE
}

/// The statement kind a segment's token sequence opens with, if any.
pub open spec fn seg_first_kind(toks: Seq<TokenModel>) -> Option<TokenTypes> {
    if toks.len() == 0 {
        None
    } else {
        Some(toks[0].kind)
    }
}

/// How one statement moves the branch-stack depth: `if` opens a frame,
/// `endif` closes one where one is open, and everything else is neutral.
pub open spec fn next_depth(k: Option<TokenTypes>, d: int) -> int {
    match k {
        Some(TokenTypes::IF) => d + 1,
        Some(TokenTypes::ENDIF) => if d >= 1 {
            d - 1
        } else {
            d
        },
        _ => d,
    }
}

/// One statement keeps every frame an `if` or `else` frame, and moves the
/// depth exactly as `next_depth` says.
proof fn lemma_statement_branches(toks: Seq<TokenModel>, c: CtxModel)
    requires
        frames_ok(c),
    ensures
        frames_ok(sp_statement(toks, c)),
        sp_statement(toks, c).branches.len() == next_depth(
            seg_first_kind(toks),
            c.branches.len() as int,
        ),
{
    if toks.len() == 0 {
    } else {
        match toks[0].kind {
            TokenTypes::PRINT => {
                if 1 < toks.len() {
                    lemma_expression_preserves(toks, 1, c);
                }
            },
            TokenTypes::IF => {
                lemma_if_branches(toks, 1, c);
            },
            TokenTypes::ELIF => {
                let top = sp_branch_top(c);
                if top.0 == TokenTypes::IF && !top.1 {
                    lemma_if_branches(toks, 1, crate::context::sp_branch_pop(c));
                }
            },
            TokenTypes::ELSE => {},
            TokenTypes::ENDIF => {},
            _ => {},
        }
    }
}

/// An `if` statement always pushes exactly one `if` frame.
proof fn lemma_if_branches(toks: Seq<TokenModel>, i: int, c: CtxModel)
    requires
        frames_ok(c),
    ensures
        frames_ok(crate::parser::sp_if(toks, i, c)),
        crate::parser::sp_if(toks, i, c).branches == c.branches.push(
            (TokenTypes::IF, sp_branch_top(crate::parser::sp_if(toks, i, c)).1),
        ),
        crate::parser::sp_if(toks, i, c).branches.len() == c.branches.len() + 1,
{
    if crate::context::sp_active(c) {
        lemma_expression_preserves(toks, i, c);
    }
    assert(crate::parser::sp_if(toks, i, c).branches.last().0 == TokenTypes::IF);
    assert forall|k: int|
        0 <= k < crate::parser::sp_if(toks, i, c).branches.len() implies (#[trigger] crate::parser::sp_if(
        toks,
        i,
        c,
    ).branches[k]).0 == TokenTypes::IF || crate::parser::sp_if(toks, i, c).branches[k].0
        == TokenTypes::ELSE by {
        if k < c.branches.len() {
            assert(crate::parser::sp_if(toks, i, c).branches[k] == c.branches[k]);
        }
    }
}

/// Balanced chains: scanning the statement kinds with a depth counter,
/// every `endif` closes an open chain and the template ends with none open.
pub open spec fn balanced_chains(segs: Seq<SegModel>, i: int, d: int) -> bool
    decreases segs.len() - i,
{
    if i < 0 || i >= segs.len() {
        d == 0
    } else {
        let k = match segs[i].tokens {
            Some(t) => seg_first_kind(t),
            None => None,
        };
        (match k {
            Some(TokenTypes::ENDIF) => d >= 1,
            _ => true,
        }) && balanced_chains(segs, i + 1, next_depth(k, d))
    }
}

/// Processing segments from a state whose depth the chains balance leaves
/// the branch stack empty.
proof fn lemma_segments_balance(segs: Seq<SegModel>, i: int, c: CtxModel)
    requires
        frames_ok(c),
        balanced_chains(segs, i, c.branches.len() as int),
    ensures
        sp_segments(segs, i, c).branches.len() == 0,
    decreases segs.len() - i,
{
    if i < 0 || i >= segs.len() {
    } else {
        match segs[i].tokens {
            Some(t) => {
                lemma_statement_branches(t, c);
                lemma_segments_balance(segs, i + 1, sp_statement(t, c));
            },
            None => {
                lemma_segments_balance(segs, i + 1, c);
            },
        }
    }
}

/// Law (a chain takes at most one arm): once an arm of a chain has been
/// taken, the `elif` or `else` that follows it marks the whole chain done:
/// the top frame becomes a closed `else` frame, every later `elif` or
/// `else` of the chain keeps it closed, and a print under it appends
/// nothing to the output.
pub proof fn theorem_chain_takes_at_most_one_arm(toks: Seq<TokenModel>, i: int, c: CtxModel)
    requires
        sp_branch_top(c) == (TokenTypes::IF, true) || sp_branch_top(c) == (
            TokenTypes::ELSE,
            false,
        ),
    ensures
        sp_branch_top(crate::parser::sp_elif(toks, i, c)) == (TokenTypes::ELSE, false),
        sp_branch_top(crate::parser::sp_else(c)) == (TokenTypes::ELSE, false),
        sp_branch_top(c) == (TokenTypes::ELSE, false) ==> crate::parser::sp_print(
            toks,
            i,
            c,
        ).output == c.output,
{
    if i < toks.len() {
        lemma_expression_preserves(toks, i, c);
    }
}

/// Law (output discipline): a statement never rewrites what was already
/// output — the old output is a prefix of the new — and a statement run
/// while the active test is false appends nothing at all. An arm of a
/// chain therefore produces output only while its frame's taken-flag
/// holds, which at most one arm's frame does.
pub proof fn theorem_output_discipline(toks: Seq<TokenModel>, c: CtxModel)
    ensures
        c.output.is_prefix_of(sp_statement(toks, c).output),
        !crate::context::sp_active(c) ==> sp_statement(toks, c).output == c.output,
{
    let c2 = sp_statement(toks, c);
    if toks.len() == 0 {
        assert(c.output.is_prefix_of(c.output));
    } else {
        match toks[0].kind {
            TokenTypes::PRINT => {
                if 1 < toks.len() {
                    lemma_expression_preserves(toks, 1, c);
                }
                assert(c2.output == c.output || c2.output == c.output.push(
                    crate::parser::sp_text_of(
                        crate::context::sp_pop(sp_expression(toks, 1, c).1).1.unwrap(),
                    ),
                ));
                assert(c.output.is_prefix_of(c2.output)) by {
                    if c2.output != c.output {
                        assert(c.output =~= c2.output.subrange(0, c.output.len() as int));
                    }
                }
            },
            TokenTypes::IF => {
                if crate::context::sp_active(c) {
                    lemma_expression_preserves(toks, 1, c);
                }
                assert(c2.output == c.output);
            },
            TokenTypes::ELIF => {
                let top = sp_branch_top(c);
                if top.0 == TokenTypes::IF && !top.1 {
                    let popped = crate::context::sp_branch_pop(c);
                    if crate::context::sp_active(popped) {
                        lemma_expression_preserves(toks, 1, popped);
                    }
                }
                assert(c2.output == c.output);
            },
            _ => {
                assert(c2.output == c.output);
            },
        }
    }
}

/// Law (an untaken arm closes its frame): an `if` whose guard evaluates to
/// a false boolean pushes a closed frame, under which, by the law below, an
/// arm body appends nothing to the output.
pub proof fn theorem_untaken_guard_closes_frame(toks: Seq<TokenModel>, i: int, c: CtxModel)
    requires
        crate::context::sp_active(c),
        crate::context::sp_pop(sp_expression(toks, i, c).1).1 == Some(Val::Bool(false)),
    ensures
        sp_branch_top(crate::parser::sp_if(toks, i, c)) == (TokenTypes::IF, false),
{
}

/// The shape of one arm's body: every `endif` or `elif` in it closes or
/// continues a chain opened inside the body itself, the body closes every
/// chain it opens, and no `else` occurs.
pub open spec fn body_ok(segs: Seq<SegModel>, i: int, d: int) -> bool
    decreases segs.len() - i,
{
    if i < 0 || i >= segs.len() {
        d == 0
    } else {
        let k = match segs[i].tokens {
            Some(t) => seg_first_kind(t),
            None => None,
        };
        k != Some(TokenTypes::ELSE) && (k == Some(TokenTypes::ELIF) ==> d >= 1) && (k == Some(
            TokenTypes::ENDIF,
        ) ==> d >= 1) && body_ok(segs, i + 1, next_depth(k, d))
    }
}

/// While the active test is false, a print statement appends nothing.
proof fn lemma_suppressed_print(toks: Seq<TokenModel>, i: int, c: CtxModel)
    requires
        !crate::context::sp_active(c),
    ensures
        crate::parser::sp_print(toks, i, c).output == c.output,
        crate::parser::sp_print(toks, i, c).branches == c.branches,
{
    if i < toks.len() {
        lemma_expression_preserves(toks, i, c);
    }
}

/// Law (a suppressed arm is silent): an arm body in the stated shape, run
/// while the active test is false, appends nothing to the output and
/// returns the branch stack exactly as it found it.
pub proof fn theorem_suppressed_arm_produces_no_output(segs: Seq<SegModel>, i: int, c: CtxModel)
    requires
        c.branches.len() >= 1,
        !c.branches.last().1,
        body_ok(segs, i, 0),
    ensures
        sp_segments(segs, i, c).output == c.output,
        sp_segments(segs, i, c).branches == c.branches,
{
    lemma_suppressed_segments(segs, i, c, c.branches.len() as int);
    assert(sp_segments(segs, i, c).branches =~= c.branches);
}

/// The induction behind the suppressed-arm law: the frames above the
/// suppressed base are exactly the closed `if` frames of chains the body
/// opened, and their count tracks the body automaton's depth.
proof fn lemma_suppressed_segments(segs: Seq<SegModel>, i: int, c: CtxModel, base: int)
    requires
        1 <= base <= c.branches.len(),
        !c.branches[base - 1].1,
        forall|k: int|
            base <= k < c.branches.len() ==> (#[trigger] c.branches[k]) == (TokenTypes::IF, false),
        body_ok(segs, i, c.branches.len() - base),
    ensures
        sp_segments(segs, i, c).output == c.output,
        sp_segments(segs, i, c).branches == c.branches.subrange(0, base),
    decreases segs.len() - i,
{
    if i < 0 || i >= segs.len() {
        assert(c.branches =~= c.branches.subrange(0, base));
    } else {
        assert(!crate::context::sp_active(c));
        match segs[i].tokens {
            Some(t) => {
                let c1 = sp_statement(t, c);
                if t.len() == 0 {
                    lemma_suppressed_segments(segs, i + 1, c1, base);
                } else {
                    match t[0].kind {
                        TokenTypes::PRINT => {
                            lemma_suppressed_print(t, 1, c);
                            lemma_suppressed_segments(segs, i + 1, c1, base);
                        },
                        TokenTypes::IF => {
                            assert(c1.branches =~= c.branches.push((TokenTypes::IF, false)));
                            lemma_suppressed_segments(segs, i + 1, c1, base);
                        },
                        TokenTypes::ELIF => {
                            let popped = crate::context::sp_branch_pop(c);
                            assert(!crate::context::sp_active(popped));
                            assert(c1.branches =~= popped.branches.push((TokenTypes::IF, false)));
                            assert(c1.branches =~= c.branches.subrange(
                                0,
                                c.branches.len() - 1,
                            ).push((TokenTypes::IF, false)));
                            lemma_suppressed_segments(segs, i + 1, c1, base);
                        },
                        TokenTypes::ELSE => {
                            assert(false);
                        },
                        TokenTypes::ENDIF => {
                            assert(c1.branches =~= c.branches.subrange(
                                0,
                                c.branches.len() - 1,
                            ));
                            lemma_suppressed_segments(segs, i + 1, c1, base);
                        },
                        _ => {
                            lemma_suppressed_segments(segs, i + 1, c1, base);
                        },
                    }
                }
            },
            None => {
                lemma_suppressed_segments(segs, i + 1, c, base);
            },
        }
    }
}

proof fn lemma_line_break_all(t: Seq<char>, i: int)
    requires
        0 <= i,
        forall|k: int| 0 <= k < t.len() ==> t[k] != '\n',
    ensures
        crate::scan::line_break(t, i) == t.len(),
    decreases t.len() - i,
{
    if i < t.len() {
        lemma_line_break_all(t, i + 1);
    }
}

proof fn lemma_text_end_bounds(line: Seq<char>, i: int)
    requires
        0 <= i < line.len(),
    ensures
        i < crate::scan::text_end(line, i) <= line.len(),
    decreases line.len() - i,
{
    if i + 1 >= line.len() {
    } else if line[i + 1] == '{' {
    } else {
        lemma_text_end_bounds(line, i + 1);
    }
}

proof fn lemma_segments_tail(segs: Seq<SegModel>, i: int, c: CtxModel)
    requires
        1 <= i,
        segs.len() >= 1,
    ensures
        sp_segments(segs, i, c) == sp_segments(
            segs.subrange(1, segs.len() as int),
            i - 1,
            c,
        ),
    decreases segs.len() - i,
{
    let rest = segs.subrange(1, segs.len() as int);
    if i >= segs.len() {
    } else {
        assert(rest[i - 1] == segs[i]);
        let c1 = match segs[i].tokens {
            Some(t) => sp_statement(t, c),
            None => c,
        };
        lemma_segments_tail(segs, i + 1, c1);
    }
}

proof fn lemma_segments_cons(s: SegModel, rest: Seq<SegModel>, c: CtxModel)
    ensures
        sp_segments(seq![s] + rest, 0, c) == sp_segments(
            rest,
            0,
            (match s.tokens {
                Some(t) => sp_statement(t, c),
                None => c,
            }),
        ),
{
    let whole = seq![s] + rest;
    assert(whole[0] == s);
    let c1 = match s.tokens {
        Some(t) => sp_statement(t, c),
        None => c,
    };
    assert(whole.len() == 1 + rest.len());
    assert(sp_segments(whole, 0, c) == sp_segments(whole, 1, c1));
    if whole.len() > 1 {
        lemma_segments_tail(whole, 1, c1);
        assert(whole.subrange(1, whole.len() as int) =~= rest);
    } else {
        assert(rest =~= Seq::<SegModel>::empty());
    }
}

proof fn lemma_concat_prefix_same(a: Seq<Seq<char>>, b: Seq<Seq<char>>, i: int)
    requires
        0 <= i <= a.len(),
        i <= b.len(),
        forall|k: int| 0 <= k < i ==> a[k] == b[k],
    ensures
        crate::parser::sp_concat_prefix(a, i) == crate::parser::sp_concat_prefix(b, i),
    decreases i,
{
    if i > 0 {
        lemma_concat_prefix_same(a, b, i - 1);
    }
}

proof fn lemma_concat_push(chunks: Seq<Seq<char>>, d: Seq<char>)
    ensures
        crate::parser::sp_concat_all(chunks.push(d)) == crate::parser::sp_concat_all(chunks) + d,
{
    let pushed = chunks.push(d);
    assert(pushed[pushed.len() - 1] == d);
    lemma_concat_prefix_same(pushed, chunks, chunks.len() as int);
}

/// A text segment's synthetic statement appends exactly its literal text.
proof fn lemma_print_string(d: Seq<char>, c: CtxModel)
    requires
        c.stack.len() == 0,
        crate::context::sp_active(c),
    ensures
        sp_statement(
            seq![
                crate::scan::print_token(),
                TokenModel { kind: TokenTypes::STRING, data: d },
            ],
            c,
        ) == crate::context::sp_out(c, d),
{
    let toks = seq![
        crate::scan::print_token(),
        TokenModel { kind: TokenTypes::STRING, data: d },
    ];
    let cp = crate::context::sp_push(c, Val::Text(d));
    assert(sp_primary(toks, 1, c) == (2int, cp));
    assert(sp_unary(toks, 1, c) == (2int, cp));
    assert(sp_multiplication_rest(toks, 2, cp) == (2int, cp));
    assert(sp_multiplication(toks, 1, c) == (2int, cp));
    assert(sp_addition_rest(toks, 2, cp) == (2int, cp));
    assert(sp_addition(toks, 1, c) == (2int, cp));
    assert(sp_comparison_rest(toks, 2, cp) == (2int, cp));
    assert(sp_comparison(toks, 1, c) == (2int, cp));
    assert(sp_logical_rest(toks, 2, cp) == (2int, cp));
    assert(sp_logical(toks, 1, c) == (2int, cp));
    assert(sp_equality_rest(toks, 2, cp) == (2int, cp));
    assert(sp_equality(toks, 1, c) == (2int, cp));
    assert(sp_expression(toks, 1, c) == (2int, cp));
    let (c2, v) = crate::context::sp_pop(cp);
    assert(cp.stack.drop_last() =~= c.stack);
    assert(c2 =~~= c);
    assert(v == Some(Val::Text(d)));
}

/// A line in which no directive matches anywhere is pure text: running its
/// segments appends exactly the line and touches nothing else.
proof fn lemma_text_only_line(line: Seq<char>, i: int, c: CtxModel)
    requires
        0 <= i <= line.len(),
        forall|j: int| crate::scan::code_end(line, j) is None,
        forall|j: int| crate::scan::echo_end(line, j) is None,
        c.stack.len() == 0,
        crate::context::sp_active(c),
    ensures
        ({
            let c2 = sp_segments(crate::scan::sp_segment_line(line, i), 0, c);
            &&& c2.errors == c.errors
            &&& c2.branches == c.branches
            &&& c2.env == c.env
            &&& c2.stack == c.stack
            &&& crate::parser::sp_concat_all(c2.output) == crate::parser::sp_concat_all(c.output)
                + line.subrange(i, line.len() as int)
        }),
    decreases line.len() - i,
{
    if i >= line.len() {
        assert(line.subrange(i, line.len() as int) =~= Seq::<char>::empty());
        assert(crate::parser::sp_concat_all(c.output) + Seq::<char>::empty()
            =~= crate::parser::sp_concat_all(c.output));
    } else {
        let j = crate::scan::text_end(line, i);
        lemma_text_end_bounds(line, i);
        let d = line.subrange(i, j);
        let seg = crate::scan::text_seg(d);
        let rest = crate::scan::sp_segment_line(line, j);
        assert(crate::scan::sp_segment_line(line, i) == seq![seg] + rest);
        lemma_segments_cons(seg, rest, c);
        lemma_print_string(d, c);
        let c1 = crate::context::sp_out(c, d);
        lemma_text_only_line(line, j, c1);
        lemma_concat_push(c.output, d);
        assert((crate::parser::sp_concat_all(c.output) + d) + line.subrange(
            j,
            line.len() as int,
        ) =~= crate::parser::sp_concat_all(c.output) + line.subrange(i, line.len() as int));
    }
}

/// Law: a template without a line break, a stray trailing carriage return,
/// or a directive match anywhere renders verbatim, with no diagnostics,
/// against any environment.
pub proof fn theorem_plain_text_renders_verbatim(t: Seq<char>, pairs: Seq<(Seq<char>, EnvVal)>)
    requires
        forall|k: int| 0 <= k < t.len() ==> t[k] != '\n',
        t.len() > 0 ==> t[t.len() - 1] != '\r',
        forall|i: int| crate::scan::code_end(t, i) is None,
        forall|i: int| crate::scan::echo_end(t, i) is None,
    ensures
        crate::amps::sp_render(t, pairs).0 == t,
        crate::amps::sp_render(t, pairs).1 == Seq::<Seq<char>>::empty(),
{
    let env0 = crate::parser::sp_build_env(Seq::empty(), pairs, 0);
    let c0 = crate::context::sp_empty_ctx(env0);
    if t.len() == 0 {
        assert(crate::scan::sp_scan(t, 0) =~= Seq::<SegModel>::empty());
        assert(crate::parser::sp_concat_all(c0.output) =~= Seq::<char>::empty());
        assert(crate::amps::sp_render(t, pairs).0 =~= t);
    } else {
        lemma_line_break_all(t, 0);
        assert(t.subrange(0, t.len() as int) =~= t);
        assert(crate::scan::strip_cr(t) == t);
        assert(crate::scan::sp_scan(t, 0) == crate::scan::sp_segment_line(t, 0));
        lemma_text_only_line(t, 0, c0);
        assert(crate::parser::sp_concat_all(c0.output) =~= Seq::<char>::empty());
        assert(Seq::<char>::empty() + t.subrange(0, t.len() as int) =~= t);
    }
}

/// Law: at the end of any well-formed template — one whose `if`, `elif`,
/// `else` and `endif` segments form balanced chains — the branch stack is
/// empty.
pub proof fn theorem_branch_stack_balance(
    segs: Seq<SegModel>,
    pairs: Seq<(Seq<char>, EnvVal)>,
)
    requires
        balanced_chains(segs, 0, 0),
    ensures
        sp_eval(segs, pairs).branches.len() == 0,
{
    let c = crate::context::sp_empty_ctx(crate::parser::sp_build_env(Seq::empty(), pairs, 0));
    lemma_segments_balance(segs, 0, c);
}


/// The shape of every token the tokenizer produces other than a string
/// literal: a nonempty digit run, a lowercase-led word resolved against the
/// keyword table, or a single operator character.
pub open spec fn reprintable_token(tm: TokenModel) -> bool {
    ||| (tm.kind == TokenTypes::NUMBER && tm.data.len() > 0 && all_digits(tm.data))
    ||| (tm.data.len() > 0 && is_lower(tm.data[0]) && (forall|k: int|
        0 <= k < tm.data.len() ==> is_id_char(#[trigger] tm.data[k])) && tm.kind == (
    match spec_keyword(tm.data) {
        Some(k) => k,
        None => TokenTypes::IDENTIFIER,
    }))
    ||| (tm.data.len() == 1 && is_op_char(tm.data[0]) && tm.kind == op_kind(tm.data[0]))
}

/// The payloads of a token sequence, reprinted with one separating space.
pub open spec fn sp_join(toks: Seq<TokenModel>) -> Seq<char>
    decreases toks.len(),
{
    if toks.len() == 0 {
        Seq::empty()
    } else if toks.len() == 1 {
        toks[0].data
    } else {
        toks[0].data + seq![' '] + sp_join(toks.skip(1))
    }
}

proof fn lemma_tail_eq(s1: Seq<char>, i1: int, s2: Seq<char>, i2: int)
    requires
        0 <= i1 < s1.len(),
        0 <= i2 < s2.len(),
        s1.len() - i1 == s2.len() - i2,
        s1.subrange(i1, s1.len() as int) == s2.subrange(i2, s2.len() as int),
    ensures
        s1[i1] == s2[i2],
        s1.subrange(i1 + 1, s1.len() as int) == s2.subrange(i2 + 1, s2.len() as int),
{
    assert(s1.subrange(i1, s1.len() as int)[0] == s1[i1]);
    assert(s2.subrange(i2, s2.len() as int)[0] == s2[i2]);
    assert forall|k: int| 0 <= k < s1.len() - i1 - 1 implies #[trigger] s1.subrange(
        i1 + 1,
        s1.len() as int,
    )[k] == s2.subrange(i2 + 1, s2.len() as int)[k] by {
        assert(s1.subrange(i1, s1.len() as int)[k + 1] == s1[i1 + 1 + k]);
        assert(s2.subrange(i2, s2.len() as int)[k + 1] == s2[i2 + 1 + k]);
    }
    assert(s1.subrange(i1 + 1, s1.len() as int) =~= s2.subrange(i2 + 1, s2.len() as int));
}

proof fn lemma_string_end_shift(s1: Seq<char>, i1: int, s2: Seq<char>, i2: int)
    requires
        0 <= i1 <= s1.len(),
        0 <= i2 <= s2.len(),
        s1.len() - i1 == s2.len() - i2,
        s1.subrange(i1, s1.len() as int) == s2.subrange(i2, s2.len() as int),
    ensures
        string_end(s1, i1) - i1 == string_end(s2, i2) - i2,
    decreases s1.len() - i1,
{
    if i1 < s1.len() {
        lemma_tail_eq(s1, i1, s2, i2);
        if s1[i1] != '"' {
            lemma_string_end_shift(s1, i1 + 1, s2, i2 + 1);
        }
    }
}

proof fn lemma_digits_end_shift(s1: Seq<char>, i1: int, s2: Seq<char>, i2: int)
    requires
        0 <= i1 <= s1.len(),
        0 <= i2 <= s2.len(),
        s1.len() - i1 == s2.len() - i2,
        s1.subrange(i1, s1.len() as int) == s2.subrange(i2, s2.len() as int),
    ensures
        digits_end(s1, i1) - i1 == digits_end(s2, i2) - i2,
    decreases s1.len() - i1,
{
    if i1 < s1.len() {
        lemma_tail_eq(s1, i1, s2, i2);
        if is_digit(s1[i1]) {
            lemma_digits_end_shift(s1, i1 + 1, s2, i2 + 1);
        }
    }
}

proof fn lemma_id_end_shift(s1: Seq<char>, i1: int, s2: Seq<char>, i2: int)
    requires
        0 <= i1 <= s1.len(),
        0 <= i2 <= s2.len(),
        s1.len() - i1 == s2.len() - i2,
        s1.subrange(i1, s1.len() as int) == s2.subrange(i2, s2.len() as int),
    ensures
        id_end(s1, i1) - i1 == id_end(s2, i2) - i2,
    decreases s1.len() - i1,
{
    if i1 < s1.len() {
        lemma_tail_eq(s1, i1, s2, i2);
        if is_id_char(s1[i1]) {
            lemma_id_end_shift(s1, i1 + 1, s2, i2 + 1);
        }
    }
}

proof fn lemma_digits_end_props(s: Seq<char>, i: int)
    requires
        0 <= i <= s.len(),
    ensures
        i <= digits_end(s, i) <= s.len(),
        forall|k: int| i <= k < digits_end(s, i) ==> is_digit(#[trigger] s[k]),
        digits_end(s, i) < s.len() ==> !is_digit(s[digits_end(s, i)]),
    decreases s.len() - i,
{
    if i < s.len() && is_digit(s[i]) {
        lemma_digits_end_props(s, i + 1);
    }
}

proof fn lemma_id_end_props(s: Seq<char>, i: int)
    requires
        0 <= i <= s.len(),
    ensures
        i <= id_end(s, i) <= s.len(),
        forall|k: int| i <= k < id_end(s, i) ==> is_id_char(#[trigger] s[k]),
        id_end(s, i) < s.len() ==> !is_id_char(s[id_end(s, i)]),
    decreases s.len() - i,
{
    if i < s.len() && is_id_char(s[i]) {
        lemma_id_end_props(s, i + 1);
    }
}

proof fn lemma_string_end_bounds(s: Seq<char>, i: int)
    requires
        0 <= i <= s.len(),
    ensures
        i <= string_end(s, i) <= s.len(),
    decreases s.len() - i,
{
    if i < s.len() && s[i] != '"' {
        lemma_string_end_bounds(s, i + 1);
    }
}

proof fn lemma_digits_end_exact(s: Seq<char>, i: int, e: int)
    requires
        0 <= i <= e <= s.len(),
        forall|k: int| i <= k < e ==> is_digit(#[trigger] s[k]),
        e == s.len() || !is_digit(s[e]),
    ensures
        digits_end(s, i) == e,
    decreases e - i,
{
    if i < e {
        lemma_digits_end_exact(s, i + 1, e);
    }
}

proof fn lemma_id_end_exact(s: Seq<char>, i: int, e: int)
    requires
        0 <= i <= e <= s.len(),
        forall|k: int| i <= k < e ==> is_id_char(#[trigger] s[k]),
        e == s.len() || !is_id_char(s[e]),
    ensures
        id_end(s, i) == e,
    decreases e - i,
{
    if i < e {
        lemma_id_end_exact(s, i + 1, e);
    }
}

/// Tokenization reads only the characters from the cursor on.
proof fn lemma_tokenize_shift(s1: Seq<char>, i1: int, s2: Seq<char>, i2: int)
    requires
        0 <= i1 <= s1.len(),
        0 <= i2 <= s2.len(),
        s1.len() - i1 == s2.len() - i2,
        s1.subrange(i1, s1.len() as int) == s2.subrange(i2, s2.len() as int),
    ensures
        sp_tokenize(s1, i1) == sp_tokenize(s2, i2),
    decreases s1.len() - i1,
{
    if i1 >= s1.len() {
    } else {
        lemma_tail_eq(s1, i1, s2, i2);
        let c = s1[i1];
        if c == ' ' || c == '\t' || c == '\r' {
            lemma_tokenize_shift(s1, i1 + 1, s2, i2 + 1);
        } else if c == '"' {
            lemma_string_end_shift(s1, i1 + 1, s2, i2 + 1);
            lemma_string_end_bounds(s1, i1 + 1);
            let e1 = string_end(s1, i1 + 1);
            let e2 = string_end(s2, i2 + 1);
            assert forall|k: int| 0 <= k < e1 - i1 - 1 implies #[trigger] s1.subrange(
                i1 + 1,
                e1,
            )[k] == s2.subrange(i2 + 1, e2)[k] by {
                assert(s1.subrange(i1, s1.len() as int)[k + 1] == s1[i1 + 1 + k]);
                assert(s2.subrange(i2, s2.len() as int)[k + 1] == s2[i2 + 1 + k]);
            }
            assert(s1.subrange(i1 + 1, e1) =~= s2.subrange(i2 + 1, e2));
            if i1 <= e1 && e1 < s1.len() {
                assert forall|k: int| 0 <= k < s1.len() - e1 - 1 implies #[trigger] s1.subrange(
                    e1 + 1,
                    s1.len() as int,
                )[k] == s2.subrange(e2 + 1, s2.len() as int)[k] by {
                    assert(s1.subrange(i1, s1.len() as int)[e1 + 1 + k - i1] == s1[e1 + 1 + k]);
                    assert(s2.subrange(i2, s2.len() as int)[e2 + 1 + k - i2] == s2[e2 + 1 + k]);
                }
                assert(s1.subrange(e1 + 1, s1.len() as int) =~= s2.subrange(
                    e2 + 1,
                    s2.len() as int,
                ));
                lemma_tokenize_shift(s1, e1 + 1, s2, e2 + 1);
            }
        } else if is_digit(c) {
            lemma_digits_end_shift(s1, i1, s2, i2);
            lemma_digits_end_props(s1, i1);
            let e1 = digits_end(s1, i1);
            let e2 = digits_end(s2, i2);
            assert forall|k: int| 0 <= k < e1 - i1 implies #[trigger] s1.subrange(i1, e1)[k]
                == s2.subrange(i2, e2)[k] by {
                assert(s1.subrange(i1, s1.len() as int)[k] == s1[i1 + k]);
                assert(s2.subrange(i2, s2.len() as int)[k] == s2[i2 + k]);
            }
            assert(s1.subrange(i1, e1) =~= s2.subrange(i2, e2));
            if i1 < e1 && e1 <= s1.len() {
                assert forall|k: int| 0 <= k < s1.len() - e1 implies #[trigger] s1.subrange(
                    e1,
                    s1.len() as int,
                )[k] == s2.subrange(e2, s2.len() as int)[k] by {
                    assert(s1.subrange(i1, s1.len() as int)[e1 + k - i1] == s1[e1 + k]);
                    assert(s2.subrange(i2, s2.len() as int)[e2 + k - i2] == s2[e2 + k]);
                }
                assert(s1.subrange(e1, s1.len() as int) =~= s2.subrange(e2, s2.len() as int));
                lemma_tokenize_shift(s1, e1, s2, e2);
            }
        } else if is_lower(c) {
            lemma_id_end_shift(s1, i1, s2, i2);
            lemma_id_end_props(s1, i1);
            let e1 = id_end(s1, i1);
            let e2 = id_end(s2, i2);
            assert forall|k: int| 0 <= k < e1 - i1 implies #[trigger] s1.subrange(i1, e1)[k]
                == s2.subrange(i2, e2)[k] by {
                assert(s1.subrange(i1, s1.len() as int)[k] == s1[i1 + k]);
                assert(s2.subrange(i2, s2.len() as int)[k] == s2[i2 + k]);
            }
            assert(s1.subrange(i1, e1) =~= s2.subrange(i2, e2));
            if i1 < e1 && e1 <= s1.len() {
                assert forall|k: int| 0 <= k < s1.len() - e1 implies #[trigger] s1.subrange(
                    e1,
                    s1.len() as int,
                )[k] == s2.subrange(e2, s2.len() as int)[k] by {
                    assert(s1.subrange(i1, s1.len() as int)[e1 + k - i1] == s1[e1 + k]);
                    assert(s2.subrange(i2, s2.len() as int)[e2 + k - i2] == s2[e2 + k]);
                }
                assert(s1.subrange(e1, s1.len() as int) =~= s2.subrange(e2, s2.len() as int));
                lemma_tokenize_shift(s1, e1, s2, e2);
            }
        } else if is_op_char(c) {
            lemma_tokenize_shift(s1, i1 + 1, s2, i2 + 1);
        }
    }
}

/// Every token the tokenizer produces is a string literal or has a
/// reprintable shape.
proof fn lemma_tokenize_shapes(s: Seq<char>, i: int)
    requires
        0 <= i <= s.len(),
    ensures
        forall|k: int|
            0 <= k < sp_tokenize(s, i).len() ==> ((#[trigger] sp_tokenize(s, i)[k]).kind
                == TokenTypes::STRING || reprintable_token(sp_tokenize(s, i)[k])),
    decreases s.len() - i,
{
    if i >= s.len() {
    } else {
        let c = s[i];
        if c == ' ' || c == '\t' || c == '\r' {
            lemma_tokenize_shapes(s, i + 1);
        } else if c == '"' {
            lemma_string_end_bounds(s, i + 1);
            let e = string_end(s, i + 1);
            if i <= e && e < s.len() {
                lemma_tokenize_shapes(s, e + 1);
            }
        } else if is_digit(c) {
            lemma_digits_end_props(s, i);
            let e = digits_end(s, i);
            let tok = TokenModel { kind: TokenTypes::NUMBER, data: s.subrange(i, e) };
            assert(reprintable_token(tok));
            if i < e && e <= s.len() {
                lemma_tokenize_shapes(s, e);
            }
        } else if is_lower(c) {
            lemma_id_end_props(s, i);
            let e = id_end(s, i);
            let w = s.subrange(i, e);
            assert(w.len() > 0 && w[0] == s[i]);
            let kind = match spec_keyword(w) {
                Some(k) => k,
                None => TokenTypes::IDENTIFIER,
            };
            assert(reprintable_token(TokenModel { kind: kind, data: w }));
            if i < e && e <= s.len() {
                lemma_tokenize_shapes(s, e);
            }
        } else if is_op_char(c) {
            assert(reprintable_token(TokenModel { kind: op_kind(c), data: seq![c] }));
            lemma_tokenize_shapes(s, i + 1);
        }
    }
}

/// Reprintable characters are never whitespace or quotes, and the three
/// shape classes start with distinct characters.
proof fn lemma_shape_first_char(c: char)
    ensures
        is_digit(c) ==> c != ' ' && c != '\t' && c != '\r' && c != '"',
        is_lower(c) ==> c != ' ' && c != '\t' && c != '\r' && c != '"' && !is_digit(c),
        is_op_char(c) ==> c != ' ' && c != '\t' && c != '\r' && c != '"' && !is_digit(c)
            && !is_lower(c),
{
}

/// Retokenizing the reprint of reprintable tokens yields them back.
proof fn lemma_retokenize_join(toks: Seq<TokenModel>)
    requires
        forall|k: int| 0 <= k < toks.len() ==> reprintable_token(#[trigger] toks[k]),
    ensures
        sp_tokenize(sp_join(toks), 0) == toks,
    decreases toks.len(),
{
    let s = sp_join(toks);
    if toks.len() == 0 {
        assert(sp_tokenize(s, 0) =~= toks);
    } else {
        let t0 = toks[0];
        let w = t0.data;
        let rest = toks.skip(1);
        assert(reprintable_token(t0));
        lemma_shape_first_char(w[0]);
        assert(s[0] == w[0]);
        assert(forall|k: int| 0 <= k < w.len() ==> #[trigger] s[k] == w[k]);
        let e: int = w.len() as int;
        assert(e <= s.len());
        assert(toks.len() > 1 ==> s[e] == ' ');
        assert(toks.len() == 1 ==> e == s.len());
        assert forall|k: int| 0 <= k < rest.len() implies reprintable_token(
            #[trigger] rest[k],
        ) by {
            assert(rest[k] == toks[k + 1]);
        }
        lemma_retokenize_join(rest);
        let s2 = sp_join(rest);
        // after the head token and the separating space, the rest reprint
        // stands verbatim
        if toks.len() > 1 {
            assert(s.len() == e + 1 + s2.len());
            assert forall|k: int| 0 <= k < s2.len() implies #[trigger] s.subrange(
                e + 1,
                s.len() as int,
            )[k] == s2.subrange(0, s2.len() as int)[k] by {
                assert(s[e + 1 + k] == s2[k]);
            }
            assert(s.subrange(e + 1, s.len() as int) =~= s2.subrange(0, s2.len() as int));
        }
        if t0.kind == TokenTypes::NUMBER && w.len() > 0 && all_digits(w) {
            assert forall|k: int| 0 <= k < e implies is_digit(#[trigger] s[k]) by {
                assert(s[k] == w[k]);
                assert(is_digit(w[k]));
            }
            lemma_digits_end_exact(s, 0, e);
            assert(s.subrange(0, e) =~= w);
            let tok = TokenModel { kind: TokenTypes::NUMBER, data: s.subrange(0, e) };
            assert(tok =~~= t0);
            finish_tail(s, e, toks, rest, s2);
        } else if w.len() == 1 && is_op_char(w[0]) && t0.kind == op_kind(w[0]) {
            assert(seq![s[0]] =~= w);
            assert(TokenModel { kind: op_kind(s[0]), data: seq![s[0]] } =~~= t0);
            finish_tail(s, e, toks, rest, s2);
        } else {
            assert(is_lower(w[0]));
            assert forall|k: int| 0 <= k < e implies is_id_char(#[trigger] s[k]) by {
                assert(s[k] == w[k]);
            }
            assert(e == s.len() || !is_id_char(s[e]));
            lemma_id_end_exact(s, 0, e);
            assert(s.subrange(0, e) =~= w);
            let kind = match spec_keyword(w) {
                Some(k) => k,
                None => TokenTypes::IDENTIFIER,
            };
            assert(TokenModel { kind: kind, data: s.subrange(0, e) } =~~= t0);
            finish_tail(s, e, toks, rest, s2);
        }
    }
}

/// After the head token, the tokenizer skips the separating space and reads
/// the remaining reprint; shared tail step of `lemma_retokenize_join`.
proof fn finish_tail(
    s: Seq<char>,
    e: int,
    toks: Seq<TokenModel>,
    rest: Seq<TokenModel>,
    s2: Seq<char>,
)
    requires
        toks.len() >= 1,
        rest == toks.skip(1),
        s2 == sp_join(rest),
        0 < e <= s.len(),
        toks.len() == 1 ==> e == s.len(),
        toks.len() > 1 ==> e < s.len() && s[e] == ' ' && s.len() == e + 1 + s2.len()
            && s.subrange(e + 1, s.len() as int) == s2.subrange(0, s2.len() as int),
        sp_tokenize(s2, 0) == rest,
        sp_tokenize(s, 0) == seq![toks[0]] + sp_tokenize(s, e),
    ensures
        sp_tokenize(s, 0) == toks,
{
    if toks.len() == 1 {
        assert(sp_tokenize(s, e) =~= Seq::<TokenModel>::empty());
        assert(seq![toks[0]] + Seq::<TokenModel>::empty() =~= toks);
    } else {
        assert(sp_tokenize(s, e) == sp_tokenize(s, e + 1));
        assert(s2.subrange(0, s2.len() as int) =~= s2);
        lemma_tokenize_shift(s, e + 1, s2, 0);
        assert(seq![toks[0]] + rest =~= toks);
    }
}

/// Law (lex idempotence): tokenize a directive interior, reprint the token
/// payloads with one separating space, and tokenize the reprint: the same
/// token sequence comes back, whenever no string literal is among the
/// tokens. A string literal's payload drops its quotes, so its reprint
/// reads as a different token.
pub proof fn theorem_lex_idempotent(s: Seq<char>)
    requires
        forall|k: int|
            0 <= k < sp_tokenize(s, 0).len() ==> (#[trigger] sp_tokenize(s, 0)[k]).kind
                != TokenTypes::STRING,
    ensures
        sp_tokenize(sp_join(sp_tokenize(s, 0)), 0) == sp_tokenize(s, 0),
{
    lemma_tokenize_shapes(s, 0);
    lemma_retokenize_join(sp_tokenize(s, 0));
}

} // verus!
