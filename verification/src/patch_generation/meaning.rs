//! What the saturating rewrite computes.
//!
//! The trees carry no types, so meaning is given for integers of one
//! width, from `lo` to `hi`: enough to say what `+`, `-` and their
//! saturating forms come to on names and decimal literals.

use vstd::prelude::*;
use crate::fault_localization::text::decimal;
use crate::patch_generation::ast::{BinOpView, ExprView, Span};
use crate::patch_generation::patch::{lit, saturated};

verus! {

/// `v` kept within `lo..=hi`.
pub open spec fn clamped(v: int, lo: int, hi: int) -> int {
    if v < lo {
        lo
    } else if v > hi {
        hi
    } else {
        v
    }
}

/// `v` if it lies within `lo..=hi`; none if it overflows.
pub open spec fn within(v: int, lo: int, hi: int) -> Option<int> {
    if lo <= v <= hi {
        Some(v)
    } else {
        None
    }
}

/// The value of an expression of names, decimal literals, `+`, `-`,
/// `saturating_add` and `saturating_sub`, where `env` gives the values of
/// the names. None for any other expression, and where a plain `+` or `-`
/// overflows.
pub open spec fn value_of(e: ExprView, env: spec_fn(Seq<char>) -> int, lo: int, hi: int)
    -> Option<int>
    decreases e,
{
    match e {
        ExprView::Lit { text } => match decimal(text) {
            Some(v) => within(v as int, lo, hi),
            None => None,
        },
        ExprView::Path { name } => within(env(name), lo, hi),
        ExprView::Binary { left, op, right, .. } => match (
            value_of(*left, env, lo, hi),
            value_of(*right, env, lo, hi),
        ) {
            (Some(a), Some(b)) => match op {
                BinOpView::Add => within(a + b, lo, hi),
                BinOpView::Sub => within(a - b, lo, hi),
                _ => None,
            },
            _ => None,
        },
        ExprView::MethodCall { receiver, method, args, .. } => if args.len() == 1 {
            match (value_of(*receiver, env, lo, hi), value_of(args[0], env, lo, hi)) {
                (Some(a), Some(b)) => if method == "saturating_add"@ {
                    Some(clamped(a + b, lo, hi))
                } else if method == "saturating_sub"@ {
                    Some(clamped(a - b, lo, hi))
                } else {
                    None
                },
                _ => None,
            }
        } else {
            None
        },
        _ => None,
    }
}

/// The saturating form of `left + right` computes the saturating sum of
/// the operands, for all values of the operands; it does so without
/// overflow in the `0 +` in front; and where `left + right` itself does
/// not overflow, it computes the same as `left + right`.
pub proof fn lemma_saturated_add_computes_the_sum(
    span: Span,
    left: ExprView,
    right: ExprView,
    env: spec_fn(Seq<char>) -> int,
    lo: int,
    hi: int,
    a: int,
    b: int,
)
    requires
        lo <= 0 <= hi,
        value_of(left, env, lo, hi) == Some(a),
        value_of(right, env, lo, hi) == Some(b),
    ensures
        value_of(saturated(span, left, "saturating_add"@, right), env, lo, hi) == Some(
            clamped(a + b, lo, hi),
        ),
        lo <= a + b <= hi ==> value_of(
            saturated(span, left, "saturating_add"@, right),
            env,
            lo,
            hi,
        ) == value_of(
            ExprView::Binary {
                span,
                left: Box::new(left),
                op: BinOpView::Add,
                right: Box::new(right),
            },
            env,
            lo,
            hi,
        ),
{
    reveal_strlit("0");
    assert(decimal("0"@) == Some(0nat));
    let call = ExprView::MethodCall {
        span,
        receiver: Box::new(left),
        method: "saturating_add"@,
        turbofish: None,
        args: seq![right],
    };
    assert(value_of(call, env, lo, hi) == Some(clamped(a + b, lo, hi)));
    assert(value_of(lit("0"@), env, lo, hi) == Some(0int));
}

/// The saturating form of `left - right` computes the saturating
/// difference of the operands, and the same as `left - right` where that
/// does not overflow.
pub proof fn lemma_saturated_sub_computes_the_difference(
    span: Span,
    left: ExprView,
    right: ExprView,
    env: spec_fn(Seq<char>) -> int,
    lo: int,
    hi: int,
    a: int,
    b: int,
)
    requires
        lo <= 0 <= hi,
        value_of(left, env, lo, hi) == Some(a),
        value_of(right, env, lo, hi) == Some(b),
    ensures
        value_of(saturated(span, left, "saturating_sub"@, right), env, lo, hi) == Some(
            clamped(a - b, lo, hi),
        ),
        lo <= a - b <= hi ==> value_of(
            saturated(span, left, "saturating_sub"@, right),
            env,
            lo,
            hi,
        ) == value_of(
            ExprView::Binary {
                span,
                left: Box::new(left),
                op: BinOpView::Sub,
                right: Box::new(right),
            },
            env,
            lo,
            hi,
        ),
{
    reveal_strlit("0");
    reveal_strlit("saturating_add");
    reveal_strlit("saturating_sub");
    assert(decimal("0"@) == Some(0nat));
    assert("saturating_sub"@ != "saturating_add"@) by {
        assert("saturating_sub"@[11] == 's');
        assert("saturating_add"@[11] == 'a');
    }
    let call = ExprView::MethodCall {
        span,
        receiver: Box::new(left),
        method: "saturating_sub"@,
        turbofish: None,
        args: seq![right],
    };
    assert(value_of(call, env, lo, hi) == Some(clamped(a - b, lo, hi)));
    assert(value_of(lit("0"@), env, lo, hi) == Some(0int));
}

} // verus!
