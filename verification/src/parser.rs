//! The recursive-descent evaluator: one statement handler per segment, a
//! precedence-climbing expression evaluator over the context's value stack,
//! and the branch controller that decides whether statements execute.
//!
//! The grammar, lowest to highest precedence:
//!
//! ```text
//! expression   := equality
//! equality     := logical    ( (eq|ne)          logical    )*
//! logical      := comparison ( (and|or)         comparison )*
//! comparison   := addition   ( (gt|ge|lt|le)    addition   )*
//! addition     := multiplicn ( (+|-)            multiplicn )*
//! multiplicn   := unary      ( (*|/|%)          unary      )*
//! unary        := (-|not) unary | primary
//! primary      := NUMBER | STRING | true | false
//!               | ( expression )
//!               | IDENTIFIER ( [ primary ] )?
//! ```
//!
//! All binary operators are left-associative, and each spec function below is
//! the meaning of the production of the same name: it takes the token
//! sequence, the position, and the context model, and gives the position and
//! context after parsing and evaluating that production.

use vstd::prelude::*;
use vstd::string::StrSliceExecFns;
use vstd::string::StringExecFns;

use crate::context::Context;
use crate::context::CtxModel;
use crate::context::EnvType;
use crate::context::EnvVal;
use crate::context::StackType;
use crate::context::Val;
use crate::context::sp_active;
use crate::context::sp_branch_pop;
use crate::context::sp_branch_push;
use crate::context::sp_branch_top;
use crate::context::sp_empty_ctx;
use crate::context::sp_err;
use crate::context::sp_invalid_vec_msg;
use crate::context::sp_lookup;
use crate::context::sp_out;
use crate::context::sp_pop;
use crate::context::sp_push;
use crate::context::sp_push_from_env;
use crate::context::sp_push_from_env_map;
use crate::context::sp_push_from_env_vector;
use crate::metadata::Metadata;
use crate::metadata::Metainfo;
use crate::metadata::SegModel;
use crate::metadata::Tokenator;
use crate::metadata::TokenatorTrait;
use crate::text::i64_text;
use crate::text::sp_lex_lt;
use crate::text::sp_parse_i64;
use crate::text::spec_i64_dec;
use crate::text::str_lt;
use crate::text::parse_i64_digits;
use crate::token::TokenModel;
use crate::token_types::TokenTypes;

verus! {

/// The printed name of a token category, as it appears in diagnostics.
pub open spec fn sp_kind_name(t: TokenTypes) -> Seq<char> {
    match t {
        TokenTypes::IDENTIFIER => "IDENTIFIER"@,
        TokenTypes::VARIABLE => "VARIABLE"@,
        TokenTypes::STRING => "STRING"@,
        TokenTypes::NUMBER => "NUMBER"@,
        TokenTypes::BOOLEAN => "BOOLEAN"@,
        TokenTypes::TRUE => "TRUE"@,
        TokenTypes::FALSE => "FALSE"@,
        TokenTypes::NIL => "NIL"@,
        TokenTypes::AND => "AND"@,
        TokenTypes::OR => "OR"@,
        TokenTypes::NOT => "NOT"@,
        TokenTypes::EQ => "EQ"@,
        TokenTypes::NE => "NE"@,
        TokenTypes::LT => "LT"@,
        TokenTypes::LE => "LE"@,
        TokenTypes::GT => "GT"@,
        TokenTypes::GE => "GE"@,
        TokenTypes::PLUS => "PLUS"@,
        TokenTypes::MINUS => "MINUS"@,
        TokenTypes::SLASH => "SLASH"@,
        TokenTypes::STAR => "STAR"@,
        TokenTypes::PERCENT => "PERCENT"@,
        TokenTypes::ASSIGN => "ASSIGN"@,
        TokenTypes::COMMA => "COMMA"@,
        TokenTypes::IF => "IF"@,
        TokenTypes::ELSE => "ELSE"@,
        TokenTypes::ELIF => "ELIF"@,
        TokenTypes::ENDIF => "ENDIF"@,
        TokenTypes::FOR => "FOR"@,
        TokenTypes::IN => "IN"@,
        TokenTypes::ENDFOR => "ENDFOR"@,
        TokenTypes::LPAREN => "LPAREN"@,
        TokenTypes::LBRACKET => "LBRACKET"@,
        TokenTypes::RPAREN => "RPAREN"@,
        TokenTypes::RBRACKET => "RBRACKET"@,
        TokenTypes::RANGE => "RANGE"@,
        TokenTypes::PRINT => "PRINT"@,
        TokenTypes::EXCEPT => "EXCEPT"@,
        TokenTypes::INSERT => "INSERT"@,
        TokenTypes::INVALID => "INVALID"@,
    }
}

/// The printed description of a value, as it appears in type-mismatch
/// diagnostics.
pub open spec fn sp_val_desc(v: Val) -> Seq<char> {
    match v {
        Val::Text(t) => "text("@ + t + ")"@,
        Val::Bool(b) => "bool("@ + (if b {
            "true"@
        } else {
            "false"@
        }) + ")"@,
        Val::Num(n) => "number("@ + spec_i64_dec(n as int) + ")"@,
    }
}

/// The textual form a printed value takes in the output.
pub open spec fn sp_text_of(v: Val) -> Seq<char> {
    match v {
        Val::Text(t) => t,
        Val::Num(n) => spec_i64_dec(n as int),
        Val::Bool(b) => if b {
            "true"@
        } else {
            "false"@
        },
    }
}

/// A binary operation on two texts. Comparisons are lexicographic; `+` is
/// concatenation; anything else is a diagnostic.
pub open spec fn sp_compute_strings(l: Val, r: Val, oper: TokenTypes) -> Result<Val, Seq<char>> {
    match (l, r) {
        (Val::Text(a), Val::Text(b)) => match oper {
            TokenTypes::NE => Ok(Val::Bool(a != b)),
            TokenTypes::EQ => Ok(Val::Bool(a == b)),
            TokenTypes::GT => Ok(Val::Bool(sp_lex_lt(b, a))),
            TokenTypes::GE => Ok(Val::Bool(!sp_lex_lt(a, b))),
            TokenTypes::LT => Ok(Val::Bool(sp_lex_lt(a, b))),
            TokenTypes::LE => Ok(Val::Bool(!sp_lex_lt(b, a))),
            TokenTypes::PLUS => Ok(Val::Text(a + b)),
            _ => Err("Operator "@ + sp_kind_name(oper) + " invalid for strings"@),
        },
        _ => Err("run to the hills"@),
    }
}

/// A binary operation on two numbers. Arithmetic is checked: overflow,
/// underflow, and division or remainder by zero are diagnostics.
pub open spec fn sp_compute_numbers(l: Val, r: Val, oper: TokenTypes) -> Result<Val, Seq<char>> {
    match (l, r) {
        (Val::Num(a), Val::Num(b)) => match oper {
            TokenTypes::NE => Ok(Val::Bool(a != b)),
            TokenTypes::EQ => Ok(Val::Bool(a == b)),
            TokenTypes::GT => Ok(Val::Bool(a > b)),
            TokenTypes::GE => Ok(Val::Bool(a >= b)),
            TokenTypes::LT => Ok(Val::Bool(a < b)),
            TokenTypes::LE => Ok(Val::Bool(a <= b)),
            TokenTypes::PLUS => if a + b > i64::MAX || a + b < i64::MIN {
                Err(spec_i64_dec(a as int) + " + "@ + spec_i64_dec(b as int) + " overflows"@)
            } else {
                Ok(Val::Num((a + b) as i64))
            },
            TokenTypes::MINUS => if a - b > i64::MAX || a - b < i64::MIN {
                Err(spec_i64_dec(a as int) + " - "@ + spec_i64_dec(b as int) + " underflows"@)
            } else {
                Ok(Val::Num((a - b) as i64))
            },
            TokenTypes::STAR => if a * b > i64::MAX || a * b < i64::MIN {
                Err(spec_i64_dec(a as int) + " * "@ + spec_i64_dec(b as int) + " overflows"@)
            } else {
                Ok(Val::Num((a * b) as i64))
            },
            TokenTypes::SLASH => if b == 0 {
                Err(spec_i64_dec(a as int) + " / "@ + spec_i64_dec(b as int) + " division by 0"@)
            } else {
                let x = a as int;
                let d = b as int;
                let output = if x == 0 {
                    0
                } else if x > 0 && d > 0 {
                    x / d
                } else if x < 0 && d < 0 {
                    (x * -1) / (d * -1)
                } else if x < 0 {
                    ((x * -1) / d) * -1
                } else {
                    (x / (d * -1)) * -1
                };
                if output < i64::MIN || output > i64::MAX {
                    Err(
                        spec_i64_dec(a as int) + " / "@ + spec_i64_dec(b as int)
                            + " division by 0"@,
                    )
                } else {
                    Ok(Val::Num(output as i64))
                }
            },
            TokenTypes::PERCENT => if b == 0 || (a == i64::MIN && b == -1) {
                Err(spec_i64_dec(a as int) + " / "@ + spec_i64_dec(b as int) + " division by 0"@)
            } else {
                let x = a as int;
                let d = b as int;
                let output = if x == 0 {
                    0
                } else if x > 0 && d > 0 {
                    x % d
                } else if x < 0 && d < 0 {
                    ((x * -1) % (d * -1)) * -1
                } else if x < 0 {
                    ((x * -1) % d) * -1
                } else {
                    x % (d * -1)
                };
                if output < i64::MIN || output > i64::MAX {
                    Err(
                        spec_i64_dec(a as int) + " / "@ + spec_i64_dec(b as int)
                            + " division by 0"@,
                    )
                } else {
                    Ok(Val::Num(output as i64))
                }
            },
            _ => Err("Operator "@ + sp_kind_name(oper) + " invalid for numbers"@),
        },
        _ => Err("run to the hills"@),
    }
}

/// A binary operation: dispatched by the operand types; mixed types are a
/// diagnostic.
pub open spec fn sp_compute_binary(l: Val, r: Val, oper: TokenTypes) -> Result<Val, Seq<char>> {
    match (l, r) {
        (Val::Text(_), Val::Text(_)) => sp_compute_strings(l, r, oper),
        (Val::Num(_), Val::Num(_)) => sp_compute_numbers(l, r, oper),
        (Val::Bool(a), Val::Bool(b)) => match oper {
            TokenTypes::AND => Ok(Val::Bool(a && b)),
            TokenTypes::OR => Ok(Val::Bool(a || b)),
            TokenTypes::EQ => Ok(Val::Bool(a == b)),
            TokenTypes::NE => Ok(Val::Bool(a != b)),
            _ => Err("Operator "@ + sp_kind_name(oper) + " invalid for booleans"@),
        },
        _ => Err(
            "mismatch types "@ + sp_val_desc(l) + " "@ + sp_kind_name(oper) + " "@ + sp_val_desc(
                r,
            ),
        ),
    }
}

/// One binary evaluation step on the value stack: pop the right operand,
/// then the left, combine, and push the result or record the diagnostic.
/// A missing operand is replaced by the synthetic text `<null>`.
pub open spec fn sp_binary_step(c: CtxModel, oper: TokenTypes) -> CtxModel {
    let (c1, r) = sp_pop(c);
    let (c2, l) = sp_pop(c1);
    let rv = match r {
        Some(v) => v,
        None => Val::Text("<null>"@),
    };
    let lv = match l {
        Some(v) => v,
        None => Val::Text("<null>"@),
    };
    match sp_compute_binary(lv, rv, oper) {
        Ok(v) => sp_push(c2, v),
        Err(e) => sp_err(c2, e),
    }
}

/// One unary evaluation step: pop the operand and negate or complement it.
pub open spec fn sp_unary_step(c: CtxModel, oper: TokenTypes) -> CtxModel {
    let (c1, v) = sp_pop(c);
    if oper == TokenTypes::MINUS {
        match v {
            Some(Val::Text(t)) => sp_err(c1, "invalid -"@ + t),
            Some(Val::Bool(b)) => sp_err(
                c1,
                "invalid -"@ + (if b {
                    "true"@
                } else {
                    "false"@
                }),
            ),
            Some(Val::Num(n)) => if n == i64::MIN {
                sp_err(c1, spec_i64_dec(n as int) + " negation overflows"@)
            } else {
                sp_push(c1, Val::Num((-n) as i64))
            },
            None => sp_err(c1, "no data retrieved from the stack"@),
        }
    } else {
        match v {
            Some(Val::Text(t)) => sp_err(c1, "invalid !"@ + t),
            Some(Val::Bool(b)) => sp_push(c1, Val::Bool(!b)),
            Some(Val::Num(n)) => sp_push(c1, Val::Num((-(n as int) - 1) as i64)),
            None => sp_err(c1, "no data retrieved from the stack"@),
        }
    }
}

/// The meaning of the `primary` production at position `i`.
pub open spec fn sp_primary(toks: Seq<TokenModel>, i: int, c: CtxModel) -> (int, CtxModel)
    decreases toks.len() - i, 0int,
{
    if 0 <= i < toks.len() && toks[i].kind == TokenTypes::NUMBER {
        let c1 = match sp_parse_i64(toks[i].data) {
            Some(n) => sp_push(c, Val::Num(n)),
            None => sp_err(c, "impossible converting "@ + toks[i].data + " to number"@),
        };
        (i + 1, c1)
    } else if 0 <= i < toks.len() && toks[i].kind == TokenTypes::STRING {
        (i + 1, sp_push(c, Val::Text(toks[i].data)))
    } else if 0 <= i < toks.len() && toks[i].kind == TokenTypes::TRUE {
        (i + 1, sp_push(c, Val::Bool(true)))
    } else if 0 <= i < toks.len() && toks[i].kind == TokenTypes::FALSE {
        (i + 1, sp_push(c, Val::Bool(false)))
    } else if 0 <= i < toks.len() && toks[i].kind == TokenTypes::LPAREN {
        let (j, c1) = sp_expression(toks, i + 1, c);
        if i + 1 <= j <= toks.len() {
            if j < toks.len() && toks[j].kind == TokenTypes::RPAREN {
                (j + 1, c1)
            } else {
                (j, sp_err(c1, "missing closing"@))
            }
        } else {
            (j, c1)
        }
    } else if 0 <= i < toks.len() && toks[i].kind == TokenTypes::IDENTIFIER {
        let key = toks[i].data;
        let c1 = if sp_lookup(c.env, key) is None {
            sp_err(c, "invalid identifier "@ + key)
        } else {
            c
        };
        if i + 1 < toks.len() && toks[i + 1].kind == TokenTypes::LBRACKET {
            let (j, c2) = sp_primary(toks, i + 2, c1);
            if i + 2 <= j <= toks.len() {
                let (k, c3) = if j < toks.len() && toks[j].kind == TokenTypes::RBRACKET {
                    (j + 1, c2)
                } else {
                    (j, sp_err(c2, "missing closing ]"@))
                };
                let (c4, v) = sp_pop(c3);
                let c5 = match v {
                    Some(Val::Text(id)) => sp_push_from_env_map(c4, key, id),
                    Some(Val::Num(n)) => if 0 <= n <= usize::MAX {
                        sp_push_from_env_vector(c4, key, n as int)
                    } else {
                        sp_err(c4, sp_invalid_vec_msg(key, n as int))
                    },
                    Some(Val::Bool(_)) => sp_err(c4, "invalid id"@),
                    None => sp_err(c4, "no data retrieved from the stack"@),
                };
                (k, c5)
            } else {
                (j, c2)
            }
        } else {
            (i + 1, sp_push_from_env(c1, key))
        }
    } else {
        let c1 = if 0 <= i < toks.len() {
            sp_err(c, "unexpected token "@ + toks[i].data)
        } else {
            sp_err(c, "unexpected token"@)
        };
        (i, c1)
    }
}

/// The meaning of the `unary` production: chains of unary operators apply
/// right to left.
pub open spec fn sp_unary(toks: Seq<TokenModel>, i: int, c: CtxModel) -> (int, CtxModel)
    decreases toks.len() - i, 1int,
{
    if 0 <= i < toks.len() && (toks[i].kind == TokenTypes::MINUS || toks[i].kind
        == TokenTypes::NOT) {
        let oper = toks[i].kind;
        let (j, c1) = sp_unary(toks, i + 1, c);
        (j, sp_unary_step(c1, oper))
    } else {
        sp_primary(toks, i, c)
    }
}

/// The left-associative run of `* / %` operations after a `unary`.
pub open spec fn sp_multiplication_rest(toks: Seq<TokenModel>, i: int, c: CtxModel) -> (
    int,
    CtxModel,
)
    decreases toks.len() - i, 2int,
{
    if 0 <= i < toks.len() && (toks[i].kind == TokenTypes::STAR || toks[i].kind
        == TokenTypes::PERCENT || toks[i].kind == TokenTypes::SLASH) {
        let oper = toks[i].kind;
        let (j, c1) = sp_unary(toks, i + 1, c);
        let c2 = sp_binary_step(c1, oper);
        if i + 1 <= j <= toks.len() {
            sp_multiplication_rest(toks, j, c2)
        } else {
            (j, c2)
        }
    } else {
        (i, c)
    }
}

/// The meaning of the `multiplication` production.
pub open spec fn sp_multiplication(toks: Seq<TokenModel>, i: int, c: CtxModel) -> (int, CtxModel)
    decreases toks.len() - i, 3int,
{
    let (j, c1) = sp_unary(toks, i, c);
    if i <= j <= toks.len() {
        sp_multiplication_rest(toks, j, c1)
    } else {
        (j, c1)
    }
}

/// The left-associative run of `+ -` operations after a `multiplication`.
pub open spec fn sp_addition_rest(toks: Seq<TokenModel>, i: int, c: CtxModel) -> (int, CtxModel)
    decreases toks.len() - i, 4int,
{
    if 0 <= i < toks.len() && (toks[i].kind == TokenTypes::PLUS || toks[i].kind
        == TokenTypes::MINUS) {
        let oper = toks[i].kind;
        let (j, c1) = sp_multiplication(toks, i + 1, c);
        let c2 = sp_binary_step(c1, oper);
        if i + 1 <= j <= toks.len() {
            sp_addition_rest(toks, j, c2)
        } else {
            (j, c2)
        }
    } else {
        (i, c)
    }
}

/// The meaning of the `addition` production.
pub open spec fn sp_addition(toks: Seq<TokenModel>, i: int, c: CtxModel) -> (int, CtxModel)
    decreases toks.len() - i, 5int,
{
    let (j, c1) = sp_multiplication(toks, i, c);
    if i <= j <= toks.len() {
        sp_addition_rest(toks, j, c1)
    } else {
        (j, c1)
    }
}

/// The left-associative run of comparison operations after an `addition`.
pub open spec fn sp_comparison_rest(toks: Seq<TokenModel>, i: int, c: CtxModel) -> (int, CtxModel)
    decreases toks.len() - i, 6int,
{
    if 0 <= i < toks.len() && (toks[i].kind == TokenTypes::GT || toks[i].kind == TokenTypes::GE
        || toks[i].kind == TokenTypes::LT || toks[i].kind == TokenTypes::LE) {
        let oper = toks[i].kind;
        let (j, c1) = sp_addition(toks, i + 1, c);
        let c2 = sp_binary_step(c1, oper);
        if i + 1 <= j <= toks.len() {
            sp_comparison_rest(toks, j, c2)
        } else {
            (j, c2)
        }
    } else {
        (i, c)
    }
}

/// The meaning of the `comparison` production.
pub open spec fn sp_comparison(toks: Seq<TokenModel>, i: int, c: CtxModel) -> (int, CtxModel)
    decreases toks.len() - i, 7int,
{
    let (j, c1) = sp_addition(toks, i, c);
    if i <= j <= toks.len() {
        sp_comparison_rest(toks, j, c1)
    } else {
        (j, c1)
    }
}

/// The left-associative run of `and or` operations after a `comparison`.
pub open spec fn sp_logical_rest(toks: Seq<TokenModel>, i: int, c: CtxModel) -> (int, CtxModel)
    decreases toks.len() - i, 8int,
{
    if 0 <= i < toks.len() && (toks[i].kind == TokenTypes::AND || toks[i].kind == TokenTypes::OR) {
        let oper = toks[i].kind;
        let (j, c1) = sp_comparison(toks, i + 1, c);
        let c2 = sp_binary_step(c1, oper);
        if i + 1 <= j <= toks.len() {
            sp_logical_rest(toks, j, c2)
        } else {
            (j, c2)
        }
    } else {
        (i, c)
    }
}

/// The meaning of the `logical` production.
pub open spec fn sp_logical(toks: Seq<TokenModel>, i: int, c: CtxModel) -> (int, CtxModel)
    decreases toks.len() - i, 9int,
{
    let (j, c1) = sp_comparison(toks, i, c);
    if i <= j <= toks.len() {
        sp_logical_rest(toks, j, c1)
    } else {
        (j, c1)
    }
}

/// The left-associative run of `eq ne` operations after a `logical`.
pub open spec fn sp_equality_rest(toks: Seq<TokenModel>, i: int, c: CtxModel) -> (int, CtxModel)
    decreases toks.len() - i, 10int,
{
    if 0 <= i < toks.len() && (toks[i].kind == TokenTypes::EQ || toks[i].kind == TokenTypes::NE) {
        let oper = toks[i].kind;
        let (j, c1) = sp_logical(toks, i + 1, c);
        let c2 = sp_binary_step(c1, oper);
        if i + 1 <= j <= toks.len() {
            sp_equality_rest(toks, j, c2)
        } else {
            (j, c2)
        }
    } else {
        (i, c)
    }
}

/// The meaning of the `equality` production.
pub open spec fn sp_equality(toks: Seq<TokenModel>, i: int, c: CtxModel) -> (int, CtxModel)
    decreases toks.len() - i, 11int,
{
    let (j, c1) = sp_logical(toks, i, c);
    if i <= j <= toks.len() {
        sp_equality_rest(toks, j, c1)
    } else {
        (j, c1)
    }
}

/// The meaning of a whole expression at position `i`.
pub open spec fn sp_expression(toks: Seq<TokenModel>, i: int, c: CtxModel) -> (int, CtxModel)
    decreases toks.len() - i, 12int,
{
    sp_equality(toks, i, c)
}

/// The meaning of a `print` statement whose expression starts at `i`: the
/// expression always runs, so its diagnostics surface, but the popped value
/// reaches the output only while the active branch test holds.
pub open spec fn sp_print(toks: Seq<TokenModel>, i: int, c: CtxModel) -> CtxModel {
    let active = sp_active(c);
    if i >= toks.len() {
        c
    } else {
        let (j, c1) = sp_expression(toks, i, c);
        let (c2, v) = sp_pop(c1);
        match v {
            Some(v) => if active {
                sp_out(c2, sp_text_of(v))
            } else {
                c2
            },
            None => c2,
        }
    }
}

/// The meaning of an `if` statement: under a false active test the segment
/// is suppressed and a closed frame is pushed to keep the stack balanced;
/// otherwise the guard is evaluated and must be a boolean.
pub open spec fn sp_if(toks: Seq<TokenModel>, i: int, c: CtxModel) -> CtxModel {
    if !sp_active(c) {
        sp_branch_push(c, TokenTypes::IF, false)
    } else {
        let (j, c1) = sp_expression(toks, i, c);
        let (c2, v) = sp_pop(c1);
        match v {
            Some(Val::Bool(b)) => sp_branch_push(c2, TokenTypes::IF, b),
            Some(_) => sp_branch_push(
                sp_err(c2, "if expression must evaluate to boolean"@),
                TokenTypes::IF,
                false,
            ),
            None => sp_branch_push(
                sp_err(c2, "if expression cannot be evaluated"@),
                TokenTypes::IF,
                false,
            ),
        }
    }
}

/// The meaning of an `elif` statement: it must continue an open `if` chain;
/// after a taken arm the whole chain is marked done, otherwise the frame is
/// reopened as if this were an `if`.
pub open spec fn sp_elif(toks: Seq<TokenModel>, i: int, c: CtxModel) -> CtxModel {
    let top = sp_branch_top(c);
    if top.0 != TokenTypes::IF {
        sp_err(c, "mismatch elif"@)
    } else if top.1 {
        sp_branch_push(sp_branch_pop(c), TokenTypes::ELSE, false)
    } else {
        sp_if(toks, i, sp_branch_pop(c))
    }
}

/// The meaning of an `else` statement: it must continue an open `if` chain;
/// after a taken arm the chain is marked done, otherwise the `else` arm is
/// taken.
pub open spec fn sp_else(c: CtxModel) -> CtxModel {
    let top = sp_branch_top(c);
    if top.0 != TokenTypes::IF {
        sp_err(c, "mismatch else"@)
    } else if top.1 {
        sp_branch_push(sp_branch_pop(c), TokenTypes::ELSE, false)
    } else {
        sp_branch_push(sp_branch_pop(c), TokenTypes::ELSE, true)
    }
}

/// The meaning of an `endif` statement: it must close an open frame.
pub open spec fn sp_endif(c: CtxModel) -> CtxModel {
    let top = sp_branch_top(c);
    if top.0 != TokenTypes::IF && top.0 != TokenTypes::ELSE {
        sp_err(c, "mismatch endif"@)
    } else {
        sp_branch_pop(c)
    }
}

/// The meaning of one statement segment: its first token dispatches.
pub open spec fn sp_statement(toks: Seq<TokenModel>, c: CtxModel) -> CtxModel {
    if toks.len() == 0 {
        c
    } else {
        match toks[0].kind {
            TokenTypes::PRINT => sp_print(toks, 1, c),
            TokenTypes::IF => sp_if(toks, 1, c),
            TokenTypes::ELIF => sp_elif(toks, 1, c),
            TokenTypes::ELSE => sp_else(c),
            TokenTypes::ENDIF => sp_endif(c),
            _ => sp_err(c, "unexpected statement "@ + toks[0].data),
        }
    }
}

/// The meaning of a segment sequence from segment `i` on: segments are
/// processed strictly in source order; segments without tokens are skipped.
pub open spec fn sp_segments(segs: Seq<SegModel>, i: int, c: CtxModel) -> CtxModel
    decreases segs.len() - i,
{
    if i < 0 || i >= segs.len() {
        c
    } else {
        let c1 = match segs[i].tokens {
            Some(t) => sp_statement(t, c),
            None => c,
        };
        sp_segments(segs, i + 1, c1)
    }
}

/// Binding a name unless it is already bound.
pub open spec fn sp_env_insert(
    env: Seq<(Seq<char>, EnvVal)>,
    k: Seq<char>,
    v: EnvVal,
) -> Seq<(Seq<char>, EnvVal)> {
    if sp_lookup(env, k) is Some {
        env
    } else {
        env.push((k, v))
    }
}

/// The environment built from caller-supplied pairs, first binding of a
/// name winning, starting from the bindings in `acc`.
pub open spec fn sp_build_env(
    acc: Seq<(Seq<char>, EnvVal)>,
    pairs: Seq<(Seq<char>, EnvVal)>,
    i: int,
) -> Seq<(Seq<char>, EnvVal)>
    decreases pairs.len() - i,
{
    if i < 0 || i >= pairs.len() {
        acc
    } else {
        sp_build_env(sp_env_insert(acc, pairs[i].0, pairs[i].1), pairs, i + 1)
    }
}

/// The context after evaluating a segment sequence against an environment.
pub open spec fn sp_eval(segs: Seq<SegModel>, pairs: Seq<(Seq<char>, EnvVal)>) -> CtxModel {
    sp_segments(segs, 0, sp_empty_ctx(sp_build_env(Seq::empty(), pairs, 0)))
}

/// The first `i` output chunks, concatenated in order.
pub open spec fn sp_concat_prefix(chunks: Seq<Seq<char>>, i: int) -> Seq<char>
    decreases i,
{
    if i <= 0 {
        Seq::empty()
    } else {
        sp_concat_prefix(chunks, i - 1) + chunks[i - 1]
    }
}

/// All output chunks, concatenated in order.
pub open spec fn sp_concat_all(chunks: Seq<Seq<char>>) -> Seq<char> {
    sp_concat_prefix(chunks, chunks.len() as int)
}

/// The printed name of a token category.
fn kind_name(t: TokenTypes) -> (r: &'static str)
    ensures
        r@ == sp_kind_name(t),
{
    match t {
        TokenTypes::IDENTIFIER => "IDENTIFIER",
        TokenTypes::VARIABLE => "VARIABLE",
        TokenTypes::STRING => "STRING",
        TokenTypes::NUMBER => "NUMBER",
        TokenTypes::BOOLEAN => "BOOLEAN",
        TokenTypes::TRUE => "TRUE",
        TokenTypes::FALSE => "FALSE",
        TokenTypes::NIL => "NIL",
        TokenTypes::AND => "AND",
        TokenTypes::OR => "OR",
        TokenTypes::NOT => "NOT",
        TokenTypes::EQ => "EQ",
        TokenTypes::NE => "NE",
        TokenTypes::LT => "LT",
        TokenTypes::LE => "LE",
        TokenTypes::GT => "GT",
        TokenTypes::GE => "GE",
        TokenTypes::PLUS => "PLUS",
        TokenTypes::MINUS => "MINUS",
        TokenTypes::SLASH => "SLASH",
        TokenTypes::STAR => "STAR",
        TokenTypes::PERCENT => "PERCENT",
        TokenTypes::ASSIGN => "ASSIGN",
        TokenTypes::COMMA => "COMMA",
        TokenTypes::IF => "IF",
        TokenTypes::ELSE => "ELSE",
        TokenTypes::ELIF => "ELIF",
        TokenTypes::ENDIF => "ENDIF",
        TokenTypes::FOR => "FOR",
        TokenTypes::IN => "IN",
        TokenTypes::ENDFOR => "ENDFOR",
        TokenTypes::LPAREN => "LPAREN",
        TokenTypes::LBRACKET => "LBRACKET",
        TokenTypes::RPAREN => "RPAREN",
        TokenTypes::RBRACKET => "RBRACKET",
        TokenTypes::RANGE => "RANGE",
        TokenTypes::PRINT => "PRINT",
        TokenTypes::EXCEPT => "EXCEPT",
        TokenTypes::INSERT => "INSERT",
        TokenTypes::INVALID => "INVALID",
    }
}

/// The textual form a printed value takes in the output.
pub fn text_of(v: StackType) -> (r: String)
    ensures
        r@ == sp_text_of(v@),
{
    match v {
        StackType::Text(t) => t,
        StackType::Number(n) => i64_text(n),
        StackType::Bool(b) => if b {
            String::from_str("true")
        } else {
            String::from_str("false")
        },
    }
}

/// The printed description of a value in type-mismatch diagnostics.
fn val_desc(v: &StackType) -> (r: String)
    ensures
        r@ == sp_val_desc(v@),
{
    match v {
        StackType::Text(t) => {
            let mut s = String::from_str("text(");
            s.append(t.as_str());
            s.append(")");
            s
        },
        StackType::Bool(b) => {
            let mut s = String::from_str("bool(");
            s.append(if *b {
                "true"
            } else {
                "false"
            });
            s.append(")");
            s
        },
        StackType::Number(n) => {
            let mut s = String::from_str("number(");
            let t = i64_text(*n);
            s.append(t.as_str());
            s.append(")");
            s
        },
    }
}

/// Builds a checked-arithmetic diagnostic such as `2 + 3 overflows`.
fn arith_message(a: i64, mid: &str, b: i64, tail: &str) -> (r: String)
    ensures
        r@ == spec_i64_dec(a as int) + mid@ + spec_i64_dec(b as int) + tail@,
{
    let mut s = i64_text(a);
    s.append(mid);
    let t = i64_text(b);
    s.append(t.as_str());
    s.append(tail);
    s
}

/// Builds an operator-misuse diagnostic such as `Operator PLUS invalid for
/// booleans`.
fn operator_message(oper: TokenTypes, tail: &str) -> (r: String)
    ensures
        r@ == "Operator "@ + sp_kind_name(oper) + tail@,
{
    let mut s = String::from_str("Operator ");
    s.append(kind_name(oper));
    s.append(tail);
    s
}

/// A binary operation on two texts; see `sp_compute_strings`.
pub fn compute_strings(left: StackType, right: StackType, oper: TokenTypes) -> (r: Result<
    StackType,
    String,
>)
    ensures
        (match r {
            Ok(v) => sp_compute_strings(left@, right@, oper) == Ok::<Val, Seq<char>>(v@),
            Err(e) => sp_compute_strings(left@, right@, oper) == Err::<Val, Seq<char>>(e@),
        }),
{
    let a = match left {
        StackType::Text(b) => b,
        _ => {
            return Err(String::from_str("run to the hills"));
        },
    };
    let b = match right {
        StackType::Text(b) => b,
        _ => {
            return Err(String::from_str("run to the hills"));
        },
    };
    match oper {
        TokenTypes::NE => Ok(StackType::Bool(!str_eq_owned(&a, &b))),
        TokenTypes::EQ => Ok(StackType::Bool(str_eq_owned(&a, &b))),
        TokenTypes::GT => Ok(StackType::Bool(str_lt(b.as_str(), a.as_str()))),
        TokenTypes::GE => Ok(StackType::Bool(!str_lt(a.as_str(), b.as_str()))),
        TokenTypes::LT => Ok(StackType::Bool(str_lt(a.as_str(), b.as_str()))),
        TokenTypes::LE => Ok(StackType::Bool(!str_lt(b.as_str(), a.as_str()))),
        TokenTypes::PLUS => {
            let mut s = a;
            s.append(b.as_str());
            Ok(StackType::Text(s))
        },
        _ => Err(operator_message(oper, " invalid for strings")),
    }
}

fn str_eq_owned(a: &String, b: &String) -> (r: bool)
    ensures
        r == (a@ == b@),
{
    crate::text::str_eq(a.as_str(), b.as_str())
}

/// A binary operation on two numbers; see `sp_compute_numbers`.
pub fn compute_numbers(left: StackType, right: StackType, oper: TokenTypes) -> (r: Result<
    StackType,
    String,
>)
    ensures
        (match r {
            Ok(v) => sp_compute_numbers(left@, right@, oper) == Ok::<Val, Seq<char>>(v@),
            Err(e) => sp_compute_numbers(left@, right@, oper) == Err::<Val, Seq<char>>(e@),
        }),
{
    let a = match left {
        StackType::Number(b) => b,
        _ => {
            return Err(String::from_str("run to the hills"));
        },
    };
    let b = match right {
        StackType::Number(b) => b,
        _ => {
            return Err(String::from_str("run to the hills"));
        },
    };
    match oper {
        TokenTypes::NE => Ok(StackType::Bool(a != b)),
        TokenTypes::EQ => Ok(StackType::Bool(a == b)),
        TokenTypes::GT => Ok(StackType::Bool(a > b)),
        TokenTypes::GE => Ok(StackType::Bool(a >= b)),
        TokenTypes::LT => Ok(StackType::Bool(a < b)),
        TokenTypes::LE => Ok(StackType::Bool(a <= b)),
        TokenTypes::PLUS => {
            match a.checked_add(b) {
                Some(i) => Ok(StackType::Number(i)),
                None => Err(arith_message(a, " + ", b, " overflows")),
            }
        },
        TokenTypes::MINUS => {
            match a.checked_sub(b) {
                Some(i) => Ok(StackType::Number(i)),
                None => Err(arith_message(a, " - ", b, " underflows")),
            }
        },
        TokenTypes::STAR => {
            match a.checked_mul(b) {
                Some(i) => Ok(StackType::Number(i)),
                None => Err(arith_message(a, " * ", b, " overflows")),
            }
        },
        TokenTypes::SLASH => {
            match a.checked_div(b) {
                Some(i) => Ok(StackType::Number(i)),
                None => Err(arith_message(a, " / ", b, " division by 0")),
            }
        },
        TokenTypes::PERCENT => {
            match a.checked_rem(b) {
                Some(i) => Ok(StackType::Number(i)),
                None => Err(arith_message(a, " / ", b, " division by 0")),
            }
        },
        _ => Err(operator_message(oper, " invalid for numbers")),
    }
}

/// A binary operation dispatched on the operand types; see
/// `sp_compute_binary`.
pub fn compute_binary(left: StackType, right: StackType, oper: TokenTypes) -> (r: Result<
    StackType,
    String,
>)
    ensures
        (match r {
            Ok(v) => sp_compute_binary(left@, right@, oper) == Ok::<Val, Seq<char>>(v@),
            Err(e) => sp_compute_binary(left@, right@, oper) == Err::<Val, Seq<char>>(e@),
        }),
{
    if matches!(left, StackType::Text(_)) && matches!(right, StackType::Text(_)) {
        compute_strings(left, right, oper)
    } else if matches!(left, StackType::Number(_)) && matches!(right, StackType::Number(_)) {
        compute_numbers(left, right, oper)
    } else if matches!(left, StackType::Bool(_)) && matches!(right, StackType::Bool(_)) {
        let a = match left {
            StackType::Bool(b) => b,
            _ => {
                return Err(String::from_str("run to the hills"));
            },
        };
        let b = match right {
            StackType::Bool(b) => b,
            _ => {
                return Err(String::from_str("run to the hills"));
            },
        };
        match oper {
            TokenTypes::AND => Ok(StackType::Bool(a && b)),
            TokenTypes::OR => Ok(StackType::Bool(a || b)),
            TokenTypes::EQ => Ok(StackType::Bool(a == b)),
            TokenTypes::NE => Ok(StackType::Bool(a != b)),
            _ => Err(operator_message(oper, " invalid for booleans")),
        }
    } else {
        let mut s = String::from_str("mismatch types ");
        let dl = val_desc(&left);
        s.append(dl.as_str());
        s.append(" ");
        s.append(kind_name(oper));
        s.append(" ");
        let dr = val_desc(&right);
        s.append(dr.as_str());
        Err(s)
    }
}

/// One binary evaluation step on the value stack; see `sp_binary_step`.
fn binary_step(ctx: &mut Context, oper: TokenTypes)
    ensures
        final(ctx)@ == sp_binary_step(old(ctx)@, oper),
{
    let right = match ctx.stack_pop() {
        Some(v) => v,
        None => StackType::Text(String::from_str("<null>")),
    };
    let left = match ctx.stack_pop() {
        Some(v) => v,
        None => StackType::Text(String::from_str("<null>")),
    };
    match compute_binary(left, right, oper) {
        Ok(stk) => ctx.stack_push(stk),
        Err(e) => ctx.errors_push(e),
    }
}

/// One unary evaluation step on the value stack; see `sp_unary_step`.
fn unary_step(ctx: &mut Context, oper: TokenTypes)
    ensures
        final(ctx)@ == sp_unary_step(old(ctx)@, oper),
{
    let last_eval = ctx.stack_pop();
    if oper == TokenTypes::MINUS {
        match last_eval {
            Some(d) => match d {
                StackType::Text(t) => {
                    let mut m = String::from_str("invalid -");
                    m.append(t.as_str());
                    ctx.errors_push(m);
                },
                StackType::Bool(b) => {
                    let mut m = String::from_str("invalid -");
                    m.append(
                        if b {
                            "true"
                        } else {
                            "false"
                        },
                    );
                    ctx.errors_push(m);
                },
                StackType::Number(n) => {
                    if n == i64::MIN {
                        let mut m = i64_text(n);
                        m.append(" negation overflows");
                        ctx.errors_push(m);
                    } else {
                        ctx.stack_push(StackType::Number(-n));
                    }
                },
            },
            None => ctx.errors_push(String::from_str("no data retrieved from the stack")),
        }
    } else {
        match last_eval {
            Some(d) => match d {
                StackType::Text(t) => {
                    let mut m = String::from_str("invalid !");
                    m.append(t.as_str());
                    ctx.errors_push(m);
                },
                StackType::Bool(b) => ctx.stack_push(StackType::Bool(!b)),
                StackType::Number(n) => {
                    let c: i64 = if n >= 0 {
                        -n - 1
                    } else {
                        -(n + 1)
                    };
                    ctx.stack_push(StackType::Number(c));
                },
            },
            None => ctx.errors_push(String::from_str("no data retrieved from the stack")),
        }
    }
}

/// Parses and evaluates one `primary`; see `sp_primary`.
pub fn parse_primary<'a, I: TokenatorTrait<'a>>(iter: &mut I, ctx: &mut Context)
    requires
        0 <= old(iter).at() <= old(iter).toks().len(),
    ensures
        0 <= final(iter).at() <= final(iter).toks().len(),
        final(iter).toks() == old(iter).toks(),
        old(iter).at() <= final(iter).at(),
        final(iter).at() == sp_primary(old(iter).toks(), old(iter).at(), old(ctx)@).0,
        final(ctx)@ == sp_primary(old(iter).toks(), old(iter).at(), old(ctx)@).1,
    decreases old(iter).toks().len() - old(iter).at(), 0int,
{
    if iter.match_next(TokenTypes::NUMBER) {
        let data = iter.look_back().unwrap().get_data();
        match parse_i64_digits(data.as_str()) {
            Some(n) => ctx.stack_push(StackType::Number(n)),
            None => {
                let mut m = String::from_str("impossible converting ");
                m.append(data.as_str());
                m.append(" to number");
                ctx.errors_push(m);
            },
        }
    } else if iter.match_next(TokenTypes::STRING) {
        let data = iter.look_back().unwrap().get_data();
        ctx.stack_push(StackType::Text(data));
    } else if iter.match_next(TokenTypes::TRUE) {
        ctx.stack_push(StackType::Bool(true));
    } else if iter.match_next(TokenTypes::FALSE) {
        ctx.stack_push(StackType::Bool(false));
    } else if iter.match_next(TokenTypes::LPAREN) {
        parse_expression(iter, ctx);
        if !iter.match_next(TokenTypes::RPAREN) {
            ctx.errors_push(String::from_str("missing closing"));
        }
    } else if iter.match_next(TokenTypes::IDENTIFIER) {
        let key = iter.look_back().unwrap().get_data();
        if !ctx.env_key_exists(&key) {
            let mut m = String::from_str("invalid identifier ");
            m.append(key.as_str());
            ctx.errors_push(m);
        }
        let found_left_bracket = match iter.look() {
            Some(tk) => tk.get_type() == TokenTypes::LBRACKET,
            None => false,
        };
        if found_left_bracket {
            iter.next();
            parse_primary(iter, ctx);
            if !iter.match_next(TokenTypes::RBRACKET) {
                ctx.errors_push(String::from_str("missing closing ]"));
            }
            match ctx.stack_pop() {
                Some(d) => match d {
                    StackType::Text(id) => ctx.stack_push_from_env_map(&key, &id),
                    StackType::Number(id) => {
                        if id >= 0 && id as u64 <= usize::MAX as u64 {
                            ctx.stack_push_from_env_vector(&key, id as usize);
                        } else {
                            ctx.errors_push(invalid_vec_message_signed(&key, id));
                        }
                    },
                    _ => ctx.errors_push(String::from_str("invalid id")),
                },
                None => ctx.errors_push(String::from_str("no data retrieved from the stack")),
            }
        } else {
            ctx.stack_push_from_env(&key);
        }
    } else {
        let m: String = match iter.look() {
            Some(tk) => {
                let mut m = String::from_str("unexpected token ");
                m.append(tk.get_data().as_str());
                m
            },
            None => String::from_str("unexpected token"),
        };
        ctx.errors_push(m);
    }
}

/// Builds the out-of-bounds diagnostic for a signed vector index.
fn invalid_vec_message_signed(key: &String, id: i64) -> (r: String)
    ensures
        r@ == sp_invalid_vec_msg(key@, id as int),
{
    let mut s = String::from_str("invalid id ");
    s.append(key.as_str());
    s.append("[");
    let t = i64_text(id);
    s.append(t.as_str());
    s.append("]");
    proof {
        assert(s@ =~= sp_invalid_vec_msg(key@, id as int));
    }
    s
}

/// Parses and evaluates one `unary`; see `sp_unary`.
pub fn parse_unary<'a, I: TokenatorTrait<'a>>(iter: &mut I, ctx: &mut Context)
    requires
        0 <= old(iter).at() <= old(iter).toks().len(),
    ensures
        0 <= final(iter).at() <= final(iter).toks().len(),
        final(iter).toks() == old(iter).toks(),
        old(iter).at() <= final(iter).at(),
        final(iter).at() == sp_unary(old(iter).toks(), old(iter).at(), old(ctx)@).0,
        final(ctx)@ == sp_unary(old(iter).toks(), old(iter).at(), old(ctx)@).1,
    decreases old(iter).toks().len() - old(iter).at(), 1int,
{
    let m = iter.match_next(TokenTypes::MINUS);
    let m = if m {
        true
    } else {
        iter.match_next(TokenTypes::NOT)
    };
    if m {
        let operator = iter.look_back().unwrap().get_type();
        parse_unary(iter, ctx);
        unary_step(ctx, operator);
    } else {
        parse_primary(iter, ctx);
    }
}

/// Parses and evaluates the operator run of one `multiplication`; see
/// `sp_multiplication_rest`.
fn parse_multiplication_rest<'a, I: TokenatorTrait<'a>>(iter: &mut I, ctx: &mut Context)
    requires
        0 <= old(iter).at() <= old(iter).toks().len(),
    ensures
        0 <= final(iter).at() <= final(iter).toks().len(),
        final(iter).toks() == old(iter).toks(),
        old(iter).at() <= final(iter).at(),
        final(iter).at() == sp_multiplication_rest(old(iter).toks(), old(iter).at(), old(ctx)@).0,
        final(ctx)@ == sp_multiplication_rest(old(iter).toks(), old(iter).at(), old(ctx)@).1,
    decreases old(iter).toks().len() - old(iter).at(), 2int,
{
    let m = iter.match_next(TokenTypes::STAR);
    let m = if m {
        true
    } else {
        iter.match_next(TokenTypes::PERCENT)
    };
    let m = if m {
        true
    } else {
        iter.match_next(TokenTypes::SLASH)
    };
    if m {
        let oper = iter.look_back().unwrap().get_type();
        parse_unary(iter, ctx);
        binary_step(ctx, oper);
        parse_multiplication_rest(iter, ctx);
    }
}

/// Parses and evaluates one `multiplication`; see `sp_multiplication`.
pub fn parse_multiplication<'a, I: TokenatorTrait<'a>>(iter: &mut I, ctx: &mut Context)
    requires
        0 <= old(iter).at() <= old(iter).toks().len(),
    ensures
        0 <= final(iter).at() <= final(iter).toks().len(),
        final(iter).toks() == old(iter).toks(),
        old(iter).at() <= final(iter).at(),
        final(iter).at() == sp_multiplication(old(iter).toks(), old(iter).at(), old(ctx)@).0,
        final(ctx)@ == sp_multiplication(old(iter).toks(), old(iter).at(), old(ctx)@).1,
    decreases old(iter).toks().len() - old(iter).at(), 3int,
{
    parse_unary(iter, ctx);
    parse_multiplication_rest(iter, ctx);
}

/// Parses and evaluates the operator run of one `addition`; see
/// `sp_addition_rest`.
fn parse_addition_rest<'a, I: TokenatorTrait<'a>>(iter: &mut I, ctx: &mut Context)
    requires
        0 <= old(iter).at() <= old(iter).toks().len(),
    ensures
        0 <= final(iter).at() <= final(iter).toks().len(),
        final(iter).toks() == old(iter).toks(),
        old(iter).at() <= final(iter).at(),
        final(iter).at() == sp_addition_rest(old(iter).toks(), old(iter).at(), old(ctx)@).0,
        final(ctx)@ == sp_addition_rest(old(iter).toks(), old(iter).at(), old(ctx)@).1,
    decreases old(iter).toks().len() - old(iter).at(), 4int,
{
    let m = iter.match_next(TokenTypes::PLUS);
    let m = if m {
        true
    } else {
        iter.match_next(TokenTypes::MINUS)
    };
    if m {
        let oper = iter.look_back().unwrap().get_type();
        parse_multiplication(iter, ctx);
        binary_step(ctx, oper);
        parse_addition_rest(iter, ctx);
    }
}

/// Parses and evaluates one `addition`; see `sp_addition`.
pub fn parse_addition<'a, I: TokenatorTrait<'a>>(iter: &mut I, ctx: &mut Context)
    requires
        0 <= old(iter).at() <= old(iter).toks().len(),
    ensures
        0 <= final(iter).at() <= final(iter).toks().len(),
        final(iter).toks() == old(iter).toks(),
        old(iter).at() <= final(iter).at(),
        final(iter).at() == sp_addition(old(iter).toks(), old(iter).at(), old(ctx)@).0,
        final(ctx)@ == sp_addition(old(iter).toks(), old(iter).at(), old(ctx)@).1,
    decreases old(iter).toks().len() - old(iter).at(), 5int,
{
    parse_multiplication(iter, ctx);
    parse_addition_rest(iter, ctx);
}

/// Parses and evaluates the operator run of one `comparison`; see
/// `sp_comparison_rest`.
fn parse_comparison_rest<'a, I: TokenatorTrait<'a>>(iter: &mut I, ctx: &mut Context)
    requires
        0 <= old(iter).at() <= old(iter).toks().len(),
    ensures
        0 <= final(iter).at() <= final(iter).toks().len(),
        final(iter).toks() == old(iter).toks(),
        old(iter).at() <= final(iter).at(),
        final(iter).at() == sp_comparison_rest(old(iter).toks(), old(iter).at(), old(ctx)@).0,
        final(ctx)@ == sp_comparison_rest(old(iter).toks(), old(iter).at(), old(ctx)@).1,
    decreases old(iter).toks().len() - old(iter).at(), 6int,
{
    let m = iter.match_next(TokenTypes::GT);
    let m = if m {
        true
    } else {
        iter.match_next(TokenTypes::GE)
    };
    let m = if m {
        true
    } else {
        iter.match_next(TokenTypes::LT)
    };
    let m = if m {
        true
    } else {
        iter.match_next(TokenTypes::LE)
    };
    if m {
        let oper = iter.look_back().unwrap().get_type();
        parse_addition(iter, ctx);
        binary_step(ctx, oper);
        parse_comparison_rest(iter, ctx);
    }
}

/// Parses and evaluates one `comparison`; see `sp_comparison`.
pub fn parse_comparison<'a, I: TokenatorTrait<'a>>(iter: &mut I, ctx: &mut Context)
    requires
        0 <= old(iter).at() <= old(iter).toks().len(),
    ensures
        0 <= final(iter).at() <= final(iter).toks().len(),
        final(iter).toks() == old(iter).toks(),
        old(iter).at() <= final(iter).at(),
        final(iter).at() == sp_comparison(old(iter).toks(), old(iter).at(), old(ctx)@).0,
        final(ctx)@ == sp_comparison(old(iter).toks(), old(iter).at(), old(ctx)@).1,
    decreases old(iter).toks().len() - old(iter).at(), 7int,
{
    parse_addition(iter, ctx);
    parse_comparison_rest(iter, ctx);
}

/// Parses and evaluates the operator run of one `logical`; see
/// `sp_logical_rest`.
fn parse_logical_rest<'a, I: TokenatorTrait<'a>>(iter: &mut I, ctx: &mut Context)
    requires
        0 <= old(iter).at() <= old(iter).toks().len(),
    ensures
        0 <= final(iter).at() <= final(iter).toks().len(),
        final(iter).toks() == old(iter).toks(),
        old(iter).at() <= final(iter).at(),
        final(iter).at() == sp_logical_rest(old(iter).toks(), old(iter).at(), old(ctx)@).0,
        final(ctx)@ == sp_logical_rest(old(iter).toks(), old(iter).at(), old(ctx)@).1,
    decreases old(iter).toks().len() - old(iter).at(), 8int,
{
    let m = iter.match_next(TokenTypes::AND);
    let m = if m {
        true
    } else {
        iter.match_next(TokenTypes::OR)
    };
    if m {
        let oper = iter.look_back().unwrap().get_type();
        parse_comparison(iter, ctx);
        binary_step(ctx, oper);
        parse_logical_rest(iter, ctx);
    }
}

/// Parses and evaluates one `logical`; see `sp_logical`.
pub fn parse_logical<'a, I: TokenatorTrait<'a>>(iter: &mut I, ctx: &mut Context)
    requires
        0 <= old(iter).at() <= old(iter).toks().len(),
    ensures
        0 <= final(iter).at() <= final(iter).toks().len(),
        final(iter).toks() == old(iter).toks(),
        old(iter).at() <= final(iter).at(),
        final(iter).at() == sp_logical(old(iter).toks(), old(iter).at(), old(ctx)@).0,
        final(ctx)@ == sp_logical(old(iter).toks(), old(iter).at(), old(ctx)@).1,
    decreases old(iter).toks().len() - old(iter).at(), 9int,
{
    parse_comparison(iter, ctx);
    parse_logical_rest(iter, ctx);
}

/// Parses and evaluates the operator run of one `equality`; see
/// `sp_equality_rest`.
fn parse_equality_rest<'a, I: TokenatorTrait<'a>>(iter: &mut I, ctx: &mut Context)
    requires
        0 <= old(iter).at() <= old(iter).toks().len(),
    ensures
        0 <= final(iter).at() <= final(iter).toks().len(),
        final(iter).toks() == old(iter).toks(),
        old(iter).at() <= final(iter).at(),
        final(iter).at() == sp_equality_rest(old(iter).toks(), old(iter).at(), old(ctx)@).0,
        final(ctx)@ == sp_equality_rest(old(iter).toks(), old(iter).at(), old(ctx)@).1,
    decreases old(iter).toks().len() - old(iter).at(), 10int,
{
    let m = iter.match_next(TokenTypes::EQ);
    let m = if m {
        true
    } else {
        iter.match_next(TokenTypes::NE)
    };
    if m {
        let oper = iter.look_back().unwrap().get_type();
        parse_logical(iter, ctx);
        binary_step(ctx, oper);
        parse_equality_rest(iter, ctx);
    }
}

/// Parses and evaluates one `equality`; see `sp_equality`.
pub fn parse_equality<'a, I: TokenatorTrait<'a>>(iter: &mut I, ctx: &mut Context)
    requires
        0 <= old(iter).at() <= old(iter).toks().len(),
    ensures
        0 <= final(iter).at() <= final(iter).toks().len(),
        final(iter).toks() == old(iter).toks(),
        old(iter).at() <= final(iter).at(),
        final(iter).at() == sp_equality(old(iter).toks(), old(iter).at(), old(ctx)@).0,
        final(ctx)@ == sp_equality(old(iter).toks(), old(iter).at(), old(ctx)@).1,
    decreases old(iter).toks().len() - old(iter).at(), 11int,
{
    parse_logical(iter, ctx);
    parse_equality_rest(iter, ctx);
}

/// Parses and evaluates one whole expression; see `sp_expression`.
pub fn parse_expression<'a, I: TokenatorTrait<'a>>(iter: &mut I, ctx: &mut Context)
    requires
        0 <= old(iter).at() <= old(iter).toks().len(),
    ensures
        0 <= final(iter).at() <= final(iter).toks().len(),
        final(iter).toks() == old(iter).toks(),
        old(iter).at() <= final(iter).at(),
        final(iter).at() == sp_expression(old(iter).toks(), old(iter).at(), old(ctx)@).0,
        final(ctx)@ == sp_expression(old(iter).toks(), old(iter).at(), old(ctx)@).1,
    decreases old(iter).toks().len() - old(iter).at(), 12int,
{
    parse_equality(iter, ctx);
}

/// Handles a `print` statement (an echo block or `{% print ... %}`);
/// see `sp_print`.
pub fn parse_print<'a, I: TokenatorTrait<'a>>(iter: &mut I, ctx: &mut Context)
    requires
        0 <= old(iter).at() <= old(iter).toks().len(),
    ensures
        final(ctx)@ == sp_print(old(iter).toks(), old(iter).at(), old(ctx)@),
{
    let active = ctx.branch_is_taken().1;
    match iter.look() {
        Some(_) => {
            parse_expression(iter, ctx);
            match ctx.stack_pop() {
                Some(d) => {
                    if active {
                        let chunk = text_of(d);
                        ctx.output_push(chunk);
                    }
                },
                None => {},
            }
        },
        None => {},
    }
}

/// Handles an `if` statement; see `sp_if`.
pub fn parse_if<'a, I: TokenatorTrait<'a>>(iter: &mut I, ctx: &mut Context)
    requires
        0 <= old(iter).at() <= old(iter).toks().len(),
    ensures
        final(ctx)@ == sp_if(old(iter).toks(), old(iter).at(), old(ctx)@),
{
    if !ctx.branch_is_taken().1 {
        iter.skip_all();
        ctx.branch_push(TokenTypes::IF, false);
        return ;
    }
    parse_expression(iter, ctx);
    match ctx.stack_pop() {
        Some(d) => match d {
            StackType::Bool(b) => ctx.branch_push(TokenTypes::IF, b),
            _ => {
                ctx.errors_push(String::from_str("if expression must evaluate to boolean"));
                ctx.branch_push(TokenTypes::IF, false);
            },
        },
        None => {
            ctx.errors_push(String::from_str("if expression cannot be evaluated"));
            ctx.branch_push(TokenTypes::IF, false);
        },
    }
}

/// Handles an `elif` statement; see `sp_elif`.
pub fn parse_elif<'a, I: TokenatorTrait<'a>>(iter: &mut I, ctx: &mut Context)
    requires
        0 <= old(iter).at() <= old(iter).toks().len(),
    ensures
        final(ctx)@ == sp_elif(old(iter).toks(), old(iter).at(), old(ctx)@),
{
    let branch = ctx.branch_is_taken();
    if branch.0 != TokenTypes::IF {
        ctx.errors_push(String::from_str("mismatch elif"));
        return ;
    }
    if branch.1 {
        iter.skip_all();
        let _ = ctx.branch_pop();
        ctx.branch_push(TokenTypes::ELSE, false);
        return ;
    }
    let _ = ctx.branch_pop();
    parse_if(iter, ctx);
}

/// Handles an `else` statement; see `sp_else`.
pub fn parse_else<'a, I: TokenatorTrait<'a>>(iter: &mut I, ctx: &mut Context)
    requires
        0 <= old(iter).at() <= old(iter).toks().len(),
    ensures
        final(ctx)@ == sp_else(old(ctx)@),
{
    let branch = ctx.branch_is_taken();
    if branch.0 != TokenTypes::IF {
        ctx.errors_push(String::from_str("mismatch else"));
        return ;
    }
    if branch.1 {
        iter.skip_all();
        let _ = ctx.branch_pop();
        ctx.branch_push(TokenTypes::ELSE, false);
        return ;
    }
    let _ = ctx.branch_pop();
    ctx.branch_push(TokenTypes::ELSE, true);
}

/// Handles an `endif` statement; see `sp_endif`.
pub fn parse_endif(ctx: &mut Context)
    ensures
        final(ctx)@ == sp_endif(old(ctx)@),
{
    let branch = ctx.branch_is_taken();
    if branch.0 != TokenTypes::IF && branch.0 != TokenTypes::ELSE {
        ctx.errors_push(String::from_str("mismatch endif"));
        return ;
    }
    let _ = ctx.branch_pop();
}

/// Dispatches one statement segment on its first token; see `sp_statement`.
pub fn parse_statement<'a, I: TokenatorTrait<'a>>(iter: &mut I, ctx: &mut Context)
    requires
        old(iter).at() == 0,
        old(iter).toks().len() >= 0,
    ensures
        final(ctx)@ == sp_statement(old(iter).toks(), old(ctx)@),
{
    match iter.next() {
        Some(tk) => {
            match tk.get_type() {
                TokenTypes::PRINT => parse_print(iter, ctx),
                TokenTypes::IF => parse_if(iter, ctx),
                TokenTypes::ELIF => parse_elif(iter, ctx),
                TokenTypes::ELSE => parse_else(iter, ctx),
                TokenTypes::ENDIF => parse_endif(ctx),
                _ => {
                    let mut m = String::from_str("unexpected statement ");
                    m.append(tk.get_data().as_str());
                    ctx.errors_push(m);
                },
            }
        },
        None => {},
    }
}

/// Renders a parsed template against a caller-supplied environment: the
/// segments are processed strictly in source order, and the call returns the
/// concatenated output and the diagnostics, in the order they occurred.
pub fn parse(meta: &Metainfo, env: Vec<(String, EnvType)>) -> (r: (String, Vec<String>))
    ensures
        r.0@ == sp_concat_all(
            sp_eval(
                meta@.map_values(|m: Metadata| m@),
                env@.map_values(|p: (String, EnvType)| (p.0@, p.1@)),
            ).output,
        ),
        r.1@.map_values(|s: String| s@) == sp_eval(
            meta@.map_values(|m: Metadata| m@),
            env@.map_values(|p: (String, EnvType)| (p.0@, p.1@)),
        ).errors,
{
    let ghost pairs0 = env@.map_values(|p: (String, EnvType)| (p.0@, p.1@));
    let mut env = env;
    let mut ctx: Context = Context::new();
    let ghost target_env = sp_build_env(Seq::empty(), pairs0, 0);
    proof {
        assert(env@.map_values(|p: (String, EnvType)| (p.0@, p.1@)) =~= pairs0.subrange(
            0,
            pairs0.len() as int,
        ));
    }
    let ghost mut gi: int = 0;
    while env.len() > 0
        invariant
            0 <= gi <= pairs0.len(),
            env@.map_values(|p: (String, EnvType)| (p.0@, p.1@)) =~= pairs0.subrange(
                gi,
                pairs0.len() as int,
            ),
            sp_build_env(ctx@.env, pairs0, gi) == target_env,
            ctx@.stack =~= Seq::<Val>::empty(),
            ctx@.errors =~= Seq::<Seq<char>>::empty(),
            ctx@.branches =~= Seq::<(TokenTypes, bool)>::empty(),
            ctx@.output =~= Seq::<Seq<char>>::empty(),
        decreases env.len(),
    {
        let ghost prev_env = ctx@.env;
        let ghost old_vec = env@;
        proof {
            assert(env@.map_values(|p: (String, EnvType)| (p.0@, p.1@)).len() == env@.len());
            assert(env@.map_values(|p: (String, EnvType)| (p.0@, p.1@))[0] == pairs0[gi]);
        }
        let p = env.remove(0);
        ctx.env_add_or_update(&p.0, p.1);
        proof {
            assert(ctx@.env == sp_env_insert(prev_env, pairs0[gi].0, pairs0[gi].1));
            gi = gi + 1;
            assert(env@ =~= old_vec.subrange(1, old_vec.len() as int));
            assert forall|k2: int| 0 <= k2 < env@.len() implies env@.map_values(
                |q: (String, EnvType)| (q.0@, q.1@),
            )[k2] == pairs0.subrange(gi, pairs0.len() as int)[k2] by {
                assert(env@[k2] == old_vec[k2 + 1]);
                assert(old_vec.map_values(|q: (String, EnvType)| (q.0@, q.1@))[k2 + 1]
                    == pairs0.subrange(gi - 1, pairs0.len() as int)[k2 + 1]);
            }
            assert(env@.map_values(|p: (String, EnvType)| (p.0@, p.1@)) =~= pairs0.subrange(
                gi,
                pairs0.len() as int,
            ));
        }
    }
    proof {
        assert(ctx@ =~~= sp_empty_ctx(target_env));
    }
    let ghost ctx0 = ctx@;
    let ghost segs = meta@.map_values(|m: Metadata| m@);
    let mut k: usize = 0;
    while k < meta.len()
        invariant
            0 <= k <= meta.len(),
            segs == meta@.map_values(|m: Metadata| m@),
            sp_segments(segs, k as int, ctx@) == sp_segments(segs, 0, ctx0),
        decreases meta.len() - k,
    {
        match meta[k].get_tokens() {
            Some(tks) => {
                let mut it = Tokenator::new(tks);
                parse_statement(&mut it, &mut ctx);
            },
            None => {},
        }
        k = k + 1;
    }
    let mut rendered = String::new();
    let mut j: usize = 0;
    while j < ctx.the_output.len()
        invariant
            0 <= j <= ctx.the_output.len(),
            rendered@ == sp_concat_prefix(ctx@.output, j as int),
            sp_segments(segs, 0, ctx0) == ctx@,
        decreases ctx.the_output.len() - j,
    {
        rendered.append(ctx.the_output[j].as_str());
        j = j + 1;
    }
    (rendered, ctx.the_problems)
}

} // verus!
