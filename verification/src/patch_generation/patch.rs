//! Location-scoped rewriting of expression trees by the pattern catalog.
//!
//! A visitor carries one candidate location and one pattern. It walks a
//! tree and rewrites the nodes whose lines cover the candidate's line and
//! whose shape the pattern matches. A node that a rewrite makes anew stands
//! nowhere in the source: its span covers no line, so no pattern applied
//! later rewrites it, though each still walks through it.

use vstd::prelude::*;
use crate::fault_localization::extract::FaultLoc;
use crate::fault_localization::text::texts_view;
use crate::patch_generation::ast::{
    binary_view, duplicate_all, duplicate_opt, duplicate_opt_text, exprs_view, index_view,
    method_call_view, nowhere, opt_expr_view, opt_text_view, BinOp, BinOpView, Expr, ExprAssign,
    ExprBinary, ExprClosure, ExprIndex, ExprMethodCall, ExprRange, ExprView, File, Span,
};
use crate::patch_generation::patterns::{AddType, ChangeType, PATTERN};

verus! {

/// A literal with the given source text.
pub open spec fn lit(text: Seq<char>) -> ExprView {
    ExprView::Lit { text }
}

/// `left - right`.
pub open spec fn minus(span: Span, left: ExprView, right: ExprView) -> ExprView {
    ExprView::Binary { span, left: Box::new(left), op: BinOpView::Sub, right: Box::new(right) }
}

/// A call `receiver.method()` without arguments.
pub open spec fn bare_call(span: Span, receiver: ExprView, method: Seq<char>) -> ExprView {
    ExprView::MethodCall {
        span,
        receiver: Box::new(receiver),
        method,
        turbofish: None,
        args: Seq::empty(),
    }
}

/// The saturating method that stands for an operator: `saturating_add` for
/// `+` and `+=`, `saturating_sub` for `-` and `-=`, none for any other.
pub open spec fn saturating_method(op: BinOpView) -> Option<Seq<char>> {
    match op {
        BinOpView::Add | BinOpView::AddAssign => Some("saturating_add"@),
        BinOpView::Sub | BinOpView::SubAssign => Some("saturating_sub"@),
        BinOpView::Other(_) => None,
    }
}

/// `0 + left.method(right)`: the saturating form of a binary expression,
/// itself a binary expression.
pub open spec fn saturated(span: Span, left: ExprView, method: Seq<char>, right: ExprView)
    -> ExprView {
    ExprView::Binary {
        span,
        left: Box::new(lit("0"@)),
        op: BinOpView::Add,
        right: Box::new(
            ExprView::MethodCall {
                span,
                receiver: Box::new(left),
                method,
                turbofish: None,
                args: seq![right],
            },
        ),
    }
}

/// An index moved down by one. A range has its lower bound moved: `a..`
/// becomes `a - 1..`, and an absent lower bound becomes `0 - 0`, which
/// leaves it at zero. Any other index `i` becomes `i - 1`.
pub open spec fn shifted_index(span: Span, index: ExprView) -> ExprView {
    match index {
        ExprView::Range { start, inclusive, end } => ExprView::Range {
            start: Some(
                Box::new(
                    match start {
                        Some(s) => minus(span, *s, lit("1"@)),
                        None => minus(span, lit("0"@), lit("0"@)),
                    },
                ),
            ),
            inclusive,
            end,
        },
        _ => minus(span, index, lit("1"@)),
    }
}

/// The name that a pattern gives to a method called `method`, if the
/// pattern renames it.
pub open spec fn renamed(pattern: PATTERN, method: Seq<char>) -> Option<Seq<char>> {
    match pattern {
        PATTERN::McAdd(AddType::AddAsBytes) => if method == "add"@ {
            Some("as_bytes"@)
        } else {
            None
        },
        PATTERN::McAdd(AddType::AddMax) => if method == "add"@ {
            Some("max"@)
        } else {
            None
        },
        PATTERN::McChange(ChangeType::ToExtendFromSlice) => if method == "copy_from_slice"@ {
            Some("extend_from_slice"@)
        } else {
            None
        },
        PATTERN::McChange(ChangeType::ToSaturating) => if method == "abs"@ {
            Some("saturating_abs"@)
        } else {
            None
        },
        PATTERN::McChange(ChangeType::ToUnwrapOrElse) => if method == "expect"@ {
            Some("unwrap_or_else"@)
        } else {
            None
        },
        PATTERN::McChange(ChangeType::ToUnwrapOrFault) => if method == "expect"@ {
            Some("unwrap_or_default"@)
        } else {
            None
        },
        _ => None,
    }
}

/// `|| 1.into()`: the closure that `unwrap_or_else` is given.
pub open spec fn default_closure(span: Span) -> ExprView {
    ExprView::Closure { head: "||"@, body: Box::new(bare_call(span, lit("1"@), "into"@)) }
}

/// The arguments that a renaming pattern puts in place of the call's own,
/// if it replaces them: `unwrap_or_else` takes the default closure alone,
/// `unwrap_or_default` takes nothing. Every other renaming keeps the
/// arguments.
pub open spec fn replaced_args(pattern: PATTERN, span: Span) -> Option<Seq<ExprView>> {
    match pattern {
        PATTERN::McChange(ChangeType::ToUnwrapOrElse) => Some(seq![default_closure(span)]),
        PATTERN::McChange(ChangeType::ToUnwrapOrFault) => Some(Seq::empty()),
        _ => None,
    }
}

/// The names of the methods of a call chain, outermost call first: for
/// `x.a().b()` they are `b`, `a`. An expression that is no method call has
/// none.
pub open spec fn chain_idents(e: ExprView) -> Seq<Seq<char>>
    decreases e,
{
    match e {
        ExprView::MethodCall { receiver, method, .. } => seq![method] + chain_idents(*receiver),
        _ => Seq::empty(),
    }
}

/// Where a call chain first unwraps, in the order the calls are made: the
/// `unwrap` call itself, and the names of the calls that follow it, in
/// call order. None if no call of the chain is named `unwrap`.
pub open spec fn first_unwrap(e: ExprView) -> Option<(ExprView, Seq<Seq<char>>)>
    decreases e,
{
    match e {
        ExprView::MethodCall { receiver, method, .. } => match first_unwrap(*receiver) {
            Some((call, rest)) => Some((call, rest.push(method))),
            None => if method == "unwrap"@ {
                Some((e, Seq::empty()))
            } else {
                None
            },
        },
        _ => None,
    }
}

/// `base.n0().n1()...`: the calls named by `names`, made in order on
/// `base`, none with arguments.
pub open spec fn chain_on(span: Span, base: ExprView, names: Seq<Seq<char>>) -> ExprView
    decreases names.len(),
{
    if names.len() == 0 {
        base
    } else {
        bare_call(span, chain_on(span, base, names.drop_last()), names.last())
    }
}

/// A closure body without its first `unwrap`. With `p` the receiver of
/// that `unwrap`: where calls follow it, `p.map(|a| a.n0().n1()...)`, in
/// which the `map` call keeps the span and turbofish of the `unwrap` call
/// and the calls that followed lose their arguments; where none follows,
/// `p` alone. None if the body is no call chain, or never unwraps.
pub open spec fn unwrap_dropped(span: Span, body: ExprView) -> Option<ExprView> {
    match first_unwrap(body) {
        Some((ExprView::MethodCall { span: at, receiver, turbofish, .. }, rest)) => if rest.len()
            == 0 {
            Some(*receiver)
        } else {
            Some(
                ExprView::MethodCall {
                    span: at,
                    receiver,
                    method: "map"@,
                    turbofish,
                    args: seq![
                        ExprView::Closure {
                            head: "|a|"@,
                            body: Box::new(
                                chain_on(span, ExprView::Path { name: "a"@ }, rest),
                            ),
                        },
                    ],
                },
            )
        },
        _ => None,
    }
}

/// Whether a call is `map` over a closure whose body is a method call:
/// the shape that the `filter_map` pattern looks at.
pub open spec fn maps_over_chain(method: Seq<char>, args: Seq<ExprView>) -> bool {
    &&& method == "map"@
    &&& args.len() > 0
    &&& args[0] matches ExprView::Closure { body, .. }
    &&& *body is MethodCall
}

/// An optional sub-expression after the walk.
pub open spec fn rewritten_opt(e: Option<Box<ExprView>>, line: usize, pattern: PATTERN) -> Option<
    Box<ExprView>,
>
    decreases e,
{
    match e {
        Some(b) => Some(Box::new(rewritten(*b, line, pattern))),
        None => None,
    }
}

/// A list of expressions after the walk: each one rewritten, in order.
pub open spec fn rewritten_all(s: Seq<ExprView>, line: usize, pattern: PATTERN) -> Seq<ExprView>
    decreases s,
{
    Seq::new(
        s.len(),
        |i: int|
            if 0 <= i < s.len() {
                rewritten(s[i], line, pattern)
            } else {
                s[i]
            },
    )
}

/// An expression after the walk of a visitor for `line` and `pattern`.
///
/// - A binary or indexing node whose span covers `line` and whose shape
///   the pattern matches is rewritten; what the rewrite is made of is not
///   walked again.
/// - A method call whose span covers `line` and whose shape the pattern
///   matches is rewritten; then its receiver is walked, and so are its
///   arguments unless the pattern has just put them there.
/// - Every other node is kept, and its sub-expressions are walked: also a
///   node that covers `line` and that the pattern does not match, so that
///   a match nested in it is still found.
pub open spec fn rewritten(e: ExprView, line: usize, pattern: PATTERN) -> ExprView
    decreases e,
{
    match e {
        ExprView::Lit { .. } | ExprView::Path { .. } => e,
        ExprView::Binary { span, left, op, right } => if span.covers(line) && pattern
            == PATTERN::McChange(ChangeType::ToSaturating) && saturating_method(op) is Some {
            saturated(nowhere(), *left, saturating_method(op)->0, *right)
        } else {
            ExprView::Binary {
                span,
                left: Box::new(rewritten(*left, line, pattern)),
                op,
                right: Box::new(rewritten(*right, line, pattern)),
            }
        },
        ExprView::Index { span, base, index } => if span.covers(line) && pattern
            == PATTERN::IndexMutate {
            ExprView::Index { span, base, index: Box::new(shifted_index(nowhere(), *index)) }
        } else {
            ExprView::Index {
                span,
                base: Box::new(rewritten(*base, line, pattern)),
                index: Box::new(rewritten(*index, line, pattern)),
            }
        },
        ExprView::Range { start, inclusive, end } => ExprView::Range {
            start: rewritten_opt(start, line, pattern),
            inclusive,
            end: rewritten_opt(end, line, pattern),
        },
        ExprView::MethodCall { span, receiver, method, turbofish, args } => {
            if span.covers(line) && pattern == PATTERN::McChange(ChangeType::ToFilterMap)
                && maps_over_chain(method, args) && unwrap_dropped(
                nowhere(),
                *args[0]->Closure_body,
            ) is Some {
                ExprView::MethodCall {
                    span,
                    receiver: Box::new(rewritten(*receiver, line, pattern)),
                    method: "filter_map"@,
                    turbofish,
                    args: seq![
                        ExprView::Closure {
                            head: args[0]->Closure_head,
                            body: Box::new(unwrap_dropped(nowhere(), *args[0]->Closure_body)->0),
                        },
                    ] + rewritten_all(args.skip(1), line, pattern),
                }
            } else if span.covers(line) && renamed(pattern, method) is Some {
                ExprView::MethodCall {
                    span,
                    receiver: Box::new(rewritten(*receiver, line, pattern)),
                    method: renamed(pattern, method)->0,
                    turbofish,
                    args: match replaced_args(pattern, nowhere()) {
                        Some(fresh) => fresh,
                        None => rewritten_all(args, line, pattern),
                    },
                }
            } else {
                ExprView::MethodCall {
                    span,
                    receiver: Box::new(rewritten(*receiver, line, pattern)),
                    method,
                    turbofish,
                    args: rewritten_all(args, line, pattern),
                }
            }
        },
        ExprView::Closure { head, body } => ExprView::Closure {
            head,
            body: Box::new(rewritten(*body, line, pattern)),
        },
        ExprView::Assign { left_span, left, right } => ExprView::Assign {
            left_span,
            left: Box::new(rewritten(*left, line, pattern)),
            right: Box::new(rewritten(*right, line, pattern)),
        },
        ExprView::Other { text, children } => ExprView::Other {
            text,
            children: rewritten_all(children, line, pattern),
        },
    }
}

/// Whether `line` lies outside every binary, indexing and method-call node
/// of `e`, at any depth.
pub open spec fn clear_of(e: ExprView, line: usize) -> bool
    decreases e,
{
    match e {
        ExprView::Lit { .. } | ExprView::Path { .. } => true,
        ExprView::Binary { span, left, right, .. } => !span.covers(line) && clear_of(*left, line)
            && clear_of(*right, line),
        ExprView::Index { span, base, index } => !span.covers(line) && clear_of(*base, line)
            && clear_of(*index, line),
        ExprView::Range { start, end, .. } => (start matches Some(s) ==> clear_of(*s, line)) && (
        end matches Some(t) ==> clear_of(*t, line)),
        ExprView::MethodCall { span, receiver, args, .. } => !span.covers(line) && clear_of(
            *receiver,
            line,
        ) && all_clear_of(args, line),
        ExprView::Closure { body, .. } => clear_of(*body, line),
        ExprView::Assign { left, right, .. } => clear_of(*left, line) && clear_of(*right, line),
        ExprView::Other { children, .. } => all_clear_of(children, line),
    }
}

/// Whether `line` lies outside every binary, indexing and method-call node
/// of every expression of `s`.
pub open spec fn all_clear_of(s: Seq<ExprView>, line: usize) -> bool
    decreases s,
{
    forall|i: int| 0 <= i < s.len() ==> clear_of(#[trigger] s[i], line)
}

/// Rewriting is confined to the candidate's line: a tree none of whose
/// binary, indexing or method-call nodes covers the line comes out of the
/// walk as it went in, whatever the pattern.
pub proof fn lemma_clear_is_kept(e: ExprView, line: usize, pattern: PATTERN)
    requires
        clear_of(e, line),
    ensures
        rewritten(e, line, pattern) == e,
    decreases e,
{
    match e {
        ExprView::Lit { .. } | ExprView::Path { .. } => {},
        ExprView::Binary { span, left, op, right } => {
            lemma_clear_is_kept(*left, line, pattern);
            lemma_clear_is_kept(*right, line, pattern);
        },
        ExprView::Index { span, base, index } => {
            lemma_clear_is_kept(*base, line, pattern);
            lemma_clear_is_kept(*index, line, pattern);
        },
        ExprView::Range { start, inclusive, end } => {
            if let Some(s) = start {
                lemma_clear_is_kept(*s, line, pattern);
            }
            if let Some(t) = end {
                lemma_clear_is_kept(*t, line, pattern);
            }
            assert(rewritten_opt(start, line, pattern) == start);
            assert(rewritten_opt(end, line, pattern) == end);
        },
        ExprView::MethodCall { span, receiver, method, turbofish, args } => {
            lemma_clear_is_kept(*receiver, line, pattern);
            lemma_all_clear_are_kept(args, line, pattern);
        },
        ExprView::Closure { head, body } => {
            lemma_clear_is_kept(*body, line, pattern);
        },
        ExprView::Assign { left_span, left, right } => {
            lemma_clear_is_kept(*left, line, pattern);
            lemma_clear_is_kept(*right, line, pattern);
        },
        ExprView::Other { text, children } => {
            lemma_all_clear_are_kept(children, line, pattern);
        },
    }
}

/// Rewriting is confined to the candidate's line, for a list of trees.
pub proof fn lemma_all_clear_are_kept(s: Seq<ExprView>, line: usize, pattern: PATTERN)
    requires
        all_clear_of(s, line),
    ensures
        rewritten_all(s, line, pattern) == s,
    decreases s,
{
    assert forall|i: int| 0 <= i < s.len() implies rewritten(s[i], line, pattern) == s[i] by {
        lemma_clear_is_kept(s[i], line, pattern);
    }
    assert(rewritten_all(s, line, pattern) =~= s);
}

/// Whether a string reads exactly `text`.
fn text_is(s: &String, text: &str) -> (r: bool)
    ensures
        r == (s@ == text@),
{
    let other = String::from_str(text);
    *s == other
}

/// A literal with the given source text.
pub(crate) fn make_lit(text: &str) -> (r: Expr)
    ensures
        r@ == lit(text@),
{
    Expr::Lit { text: String::from_str(text) }
}

/// `left - right`.
pub(crate) fn make_minus(span: Span, left: Expr, right: Expr) -> (r: Expr)
    ensures
        r@ == minus(span, left@, right@),
{
    Expr::Binary(ExprBinary { span, left: Box::new(left), op: BinOp::Sub, right: Box::new(right) })
}

/// A call `receiver.method()` without arguments.
fn make_bare_call(span: Span, receiver: Expr, method: String) -> (r: Expr)
    ensures
        r@ == bare_call(span, receiver@, method@),
{
    let args: Vec<Expr> = Vec::new();
    assert(exprs_view(args@) =~= Seq::empty());
    Expr::MethodCall(
        ExprMethodCall { span, receiver: Box::new(receiver), method, turbofish: None, args },
    )
}

/// The saturating method that stands for an operator, if there is one.
fn saturating_method_of(op: &BinOp) -> (r: Option<String>)
    ensures
        opt_text_view(&r) == saturating_method(op@),
{
    match op {
        BinOp::Add | BinOp::AddAssign => Some(String::from_str("saturating_add")),
        BinOp::Sub | BinOp::SubAssign => Some(String::from_str("saturating_sub")),
        BinOp::Other(_) => None,
    }
}

/// An index moved down by one.
fn shift_index(span: Span, index: &Expr) -> (r: Expr)
    ensures
        r@ == shifted_index(span, index@),
{
    match index {
        Expr::Range(range) => {
            let start = match &range.start {
                Some(s) => make_minus(span, s.duplicate(), make_lit("1")),
                None => make_minus(span, make_lit("0"), make_lit("0")),
            };
            let shifted = ExprRange {
                start: Some(Box::new(start)),
                inclusive: range.inclusive,
                end: duplicate_opt(&range.end),
            };
            assert(opt_expr_view(&shifted.start) == Some(Box::new(start@)));
            assert(opt_expr_view(&range.start) matches Some(s) ==> range.start is Some && *s
                == range.start->0@);
            Expr::Range(shifted)
        },
        _ => make_minus(span, index.duplicate(), make_lit("1")),
    }
}

/// `|| 1.into()`.
fn make_default_closure(span: Span) -> (r: Expr)
    ensures
        r@ == default_closure(span),
{
    let body = make_bare_call(span, make_lit("1"), String::from_str("into"));
    Expr::Closure(ExprClosure { head: String::from_str("||"), body: Box::new(body) })
}

/// Where a call chain first unwraps: the `unwrap` call, and the names of
/// the calls that follow it.
fn find_first_unwrap<'a>(e: &'a Expr) -> (r: Option<(&'a ExprMethodCall, Vec<String>)>)
    ensures
        match r {
            Some((call, rest)) => first_unwrap(e@) == Some((call@, texts_view(rest@))),
            None => first_unwrap(e@) is None,
        },
    decreases e,
{
    match e {
        Expr::MethodCall(m) => match find_first_unwrap(&m.receiver) {
            Some((call, rest)) => {
                let mut rest = rest;
                let ghost before = texts_view(rest@);
                rest.push(m.method.clone());
                assert(texts_view(rest@) =~= before.push(m.method@));
                Some((call, rest))
            },
            None => if text_is(&m.method, "unwrap") {
                let rest: Vec<String> = Vec::new();
                assert(texts_view(rest@) =~= Seq::empty());
                Some((m, rest))
            } else {
                None
            },
        },
        _ => None,
    }
}

/// The calls named by `names`, made in order on `base`.
fn make_chain_on(span: Span, base: Expr, names: &Vec<String>) -> (r: Expr)
    ensures
        r@ == chain_on(span, base@, texts_view(names@)),
{
    let mut acc = base;
    let mut i: usize = 0;
    while i < names.len()
        invariant
            i <= names.len(),
            acc@ == chain_on(span, base@, texts_view(names@).take(i as int)),
        decreases names.len() - i,
    {
        let ghost upto = texts_view(names@).take(i as int + 1);
        assert(upto.drop_last() =~= texts_view(names@).take(i as int));
        assert(upto.last() == names@[i as int]@);
        acc = make_bare_call(span, acc, names[i].clone());
        i += 1;
    }
    assert(texts_view(names@).take(i as int) =~= texts_view(names@));
    acc
}

/// A closure body without its first `unwrap`.
fn drop_unwrap(span: Span, body: &Expr) -> (r: Option<Expr>)
    ensures
        match r {
            Some(b) => unwrap_dropped(span, body@) == Some(b@),
            None => unwrap_dropped(span, body@) is None,
        },
{
    match find_first_unwrap(body) {
        Some((call, rest)) => {
            if rest.len() == 0 {
                Some(call.receiver.duplicate())
            } else {
                let param = Expr::Path { name: String::from_str("a") };
                let inner = make_chain_on(span, param, &rest);
                let closure = Expr::Closure(
                    ExprClosure { head: String::from_str("|a|"), body: Box::new(inner) },
                );
                let mut args: Vec<Expr> = Vec::new();
                args.push(closure);
                assert(exprs_view(args@) =~= seq![closure@]);
                Some(
                    Expr::MethodCall(
                        ExprMethodCall {
                            span: call.span,
                            receiver: Box::new(call.receiver.duplicate()),
                            method: String::from_str("map"),
                            turbofish: duplicate_opt_text(&call.turbofish),
                            args,
                        },
                    ),
                )
            }
        },
        None => None,
    }
}

/// The closure that a call maps over, where the call is `map` over a
/// closure whose body is a method call.
fn mapped_closure<'a>(m: &'a ExprMethodCall) -> (r: Option<&'a ExprClosure>)
    ensures
        r.is_some() == maps_over_chain(m.method@, exprs_view(m.args@)),
        r.is_some() ==> exprs_view(m.args@)[0] == r.unwrap()@,
{
    if text_is(&m.method, "map") && m.args.len() > 0 {
        assert(exprs_view(m.args@)[0] == m.args@[0]@);
        match &m.args[0] {
            Expr::Closure(closure) => {
                assert(m.args@[0]@ == closure@);
                match &*closure.body {
                    Expr::MethodCall(call) => {
                        assert(closure.body@ == call@);
                        Some(closure)
                    },
                    _ => None,
                }
            },
            _ => None,
        }
    } else {
        None
    }
}

/// Rewrites the expressions of one file for one candidate and one pattern.
pub struct AstVisitor<'ast> {
    fault_loc: &'ast FaultLoc,
    fix_pattern: PATTERN,
}

impl<'ast> AstVisitor<'ast> {
    /// The line of the candidate.
    pub closed spec fn line(&self) -> usize {
        self.fault_loc.line_num
    }

    /// The column of the candidate.
    pub closed spec fn column(&self) -> usize {
        self.fault_loc.col_num
    }

    /// The pattern that the visitor applies.
    pub closed spec fn pattern(&self) -> PATTERN {
        self.fix_pattern
    }

    /// A visitor for the line of `fault_loc` that applies `fix_pattern`.
    pub fn new(fault_loc: &'ast FaultLoc, fix_pattern: PATTERN) -> (r: Self)
        ensures
            r.line() == fault_loc.line_num,
            r.column() == fault_loc.col_num,
            r.pattern() == fix_pattern,
    {
        AstVisitor { fault_loc, fix_pattern }
    }

    /// The line and the column of the candidate.
    pub fn get_loc_num(&self) -> (r: (usize, usize))
        ensures
            r.0 == self.line(),
            r.1 == self.column(),
    {
        (self.fault_loc.line_num, self.fault_loc.col_num)
    }

    /// The method names of a call chain, outermost call first.
    pub fn get_mc_idents(&self, expr: &ExprMethodCall) -> (r: Vec<String>)
        ensures
            texts_view(r@) == chain_idents(expr@),
    {
        let mut idents: Vec<String> = Vec::new();
        idents.push(expr.method.clone());
        let mut current: &Expr = &expr.receiver;
        assert(texts_view(idents@) =~= seq![expr.method@]);
        loop
            invariant
                texts_view(idents@) + chain_idents(current@) == chain_idents(expr@),
            ensures
                texts_view(idents@) == chain_idents(expr@),
            decreases current,
        {
            match current {
                Expr::MethodCall(inner) => {
                    let ghost before = texts_view(idents@);
                    idents.push(inner.method.clone());
                    assert(texts_view(idents@) =~= before.push(inner.method@));
                    assert(before + chain_idents(current@) =~= texts_view(idents@) + chain_idents(
                        inner.receiver@,
                    ));
                    current = &inner.receiver;
                },
                _ => {
                    assert(texts_view(idents@) + chain_idents(current@) =~= texts_view(idents@));
                    break ;
                },
            }
        }
        idents
    }

    /// The name that the visitor's pattern gives to a method, if any.
    fn renamed_to(&self, method: &String) -> (r: Option<String>)
        ensures
            opt_text_view(&r) == renamed(self.pattern(), method@),
    {
        match self.fix_pattern {
            PATTERN::McAdd(AddType::AddAsBytes) => if text_is(method, "add") {
                Some(String::from_str("as_bytes"))
            } else {
                None
            },
            PATTERN::McAdd(AddType::AddMax) => if text_is(method, "add") {
                Some(String::from_str("max"))
            } else {
                None
            },
            PATTERN::McChange(ChangeType::ToExtendFromSlice) => if text_is(
                method,
                "copy_from_slice",
            ) {
                Some(String::from_str("extend_from_slice"))
            } else {
                None
            },
            PATTERN::McChange(ChangeType::ToSaturating) => if text_is(method, "abs") {
                Some(String::from_str("saturating_abs"))
            } else {
                None
            },
            PATTERN::McChange(ChangeType::ToUnwrapOrElse) => if text_is(method, "expect") {
                Some(String::from_str("unwrap_or_else"))
            } else {
                None
            },
            PATTERN::McChange(ChangeType::ToUnwrapOrFault) => if text_is(method, "expect") {
                Some(String::from_str("unwrap_or_default"))
            } else {
                None
            },
            _ => None,
        }
    }

    /// The arguments that the visitor's pattern puts in place of a renamed
    /// call's own, if it replaces them.
    fn fresh_args(&self, span: Span) -> (r: Option<Vec<Expr>>)
        ensures
            match r {
                Some(args) => replaced_args(self.pattern(), span) == Some(exprs_view(args@)),
                None => replaced_args(self.pattern(), span) is None,
            },
    {
        match self.fix_pattern {
            PATTERN::McChange(ChangeType::ToUnwrapOrElse) => {
                let closure = make_default_closure(span);
                let mut args: Vec<Expr> = Vec::new();
                args.push(closure);
                assert(exprs_view(args@) =~= seq![default_closure(span)]);
                Some(args)
            },
            PATTERN::McChange(ChangeType::ToUnwrapOrFault) => {
                let args: Vec<Expr> = Vec::new();
                assert(exprs_view(args@) =~= Seq::empty());
                Some(args)
            },
            _ => None,
        }
    }

    /// An optional sub-expression after the walk.
    fn walk_opt(&self, e: &Option<Box<Expr>>) -> (r: Option<Box<Expr>>)
        ensures
            opt_expr_view(&r) == rewritten_opt(opt_expr_view(e), self.line(), self.pattern()),
        decreases e,
    {
        match e {
            Some(b) => Some(Box::new(self.walk(b))),
            None => None,
        }
    }

    /// `out`, followed by the expressions of `v` from index `from` on, each
    /// after the walk.
    fn walk_onto(&self, out: Vec<Expr>, v: &Vec<Expr>, from: usize) -> (r: Vec<Expr>)
        requires
            from <= v.len(),
        ensures
            exprs_view(r@) == exprs_view(out@) + rewritten_all(
                exprs_view(v@).skip(from as int),
                self.line(),
                self.pattern(),
            ),
        decreases v, 1nat,
    {
        let ghost head = exprs_view(out@);
        let ghost tail = rewritten_all(
            exprs_view(v@).skip(from as int),
            self.line(),
            self.pattern(),
        );
        let mut out = out;
        let mut i: usize = from;
        while i < v.len()
            invariant
                from <= i <= v.len(),
                head.len() + (i - from) == out@.len(),
                tail == rewritten_all(
                    exprs_view(v@).skip(from as int),
                    self.line(),
                    self.pattern(),
                ),
                exprs_view(out@) == head + tail.take(i - from),
            decreases v.len() - i,
        {
            let ghost before = exprs_view(out@);
            let walked = self.walk(&v[i]);
            out.push(walked);
            assert(exprs_view(out@) =~= before.push(walked@));
            assert(exprs_view(v@).skip(from as int)[i - from] == v@[i as int]@);
            assert(tail[i - from] == rewritten(
                exprs_view(v@).skip(from as int)[i - from],
                self.line(),
                self.pattern(),
            ));
            assert(tail.take(i - from + 1) =~= tail.take(i - from).push(tail[i - from]));
            assert(head + tail.take(i - from + 1) =~= before.push(walked@));
            i += 1;
        }
        assert(tail.take(i - from) =~= tail);
        out
    }

    /// The expressions of a list, each after the walk.
    fn walk_all(&self, v: &Vec<Expr>) -> (r: Vec<Expr>)
        ensures
            exprs_view(r@) == rewritten_all(exprs_view(v@), self.line(), self.pattern()),
        decreases v, 2nat,
    {
        let out: Vec<Expr> = Vec::new();
        assert(exprs_view(v@).skip(0) =~= exprs_view(v@));
        assert(exprs_view(out@) =~= Seq::empty());
        let walked = self.walk_onto(out, v, 0);
        assert(Seq::<ExprView>::empty() + rewritten_all(
            exprs_view(v@),
            self.line(),
            self.pattern(),
        ) =~= rewritten_all(exprs_view(v@), self.line(), self.pattern()));
        walked
    }

    /// A binary expression after the walk.
    fn walk_binary(&self, b: &ExprBinary) -> (r: ExprBinary)
        ensures
            r@ == rewritten(b@, self.line(), self.pattern()),
        decreases b,
    {
        proof {
            assert(b@ == binary_view(b));
        }
        if b.span.contains_line(self.fault_loc.line_num) {
            if let PATTERN::McChange(ChangeType::ToSaturating) = self.fix_pattern {
                if let Some(method) = saturating_method_of(&b.op) {
                    let mut args: Vec<Expr> = Vec::new();
                    args.push(b.right.duplicate());
                    assert(exprs_view(args@) =~= seq![b.right@]);
                    let call = ExprMethodCall {
                        span: Span::nowhere(),
                        receiver: Box::new(b.left.duplicate()),
                        method,
                        turbofish: None,
                        args,
                    };
                    assert(call@ == method_call_view(&call));
                    let call = Expr::MethodCall(call);
                    return ExprBinary {
                        span: Span::nowhere(),
                        left: Box::new(make_lit("0")),
                        op: BinOp::Add,
                        right: Box::new(call),
                    };
                }
            }
        }
        ExprBinary {
            span: b.span,
            left: Box::new(self.walk(&b.left)),
            op: b.op.duplicate(),
            right: Box::new(self.walk(&b.right)),
        }
    }

    /// An indexing expression after the walk.
    fn walk_index(&self, i: &ExprIndex) -> (r: ExprIndex)
        ensures
            r@ == rewritten(i@, self.line(), self.pattern()),
        decreases i,
    {
        proof {
            assert(i@ == index_view(i));
        }
        if i.span.contains_line(self.fault_loc.line_num) {
            if let PATTERN::IndexMutate = self.fix_pattern {
                return ExprIndex {
                    span: i.span,
                    base: Box::new(i.base.duplicate()),
                    index: Box::new(shift_index(Span::nowhere(), &i.index)),
                };
            }
        }
        ExprIndex {
            span: i.span,
            base: Box::new(self.walk(&i.base)),
            index: Box::new(self.walk(&i.index)),
        }
    }

    /// A method call after the walk.
    fn walk_method_call(&self, m: &ExprMethodCall) -> (r: ExprMethodCall)
        ensures
            r@ == rewritten(m@, self.line(), self.pattern()),
        decreases m,
    {
        let hit = m.span.contains_line(self.fault_loc.line_num);
        proof {
            assert(m@ == method_call_view(m));
        }
        if hit {
            if let PATTERN::McChange(ChangeType::ToFilterMap) = self.fix_pattern {
                if let Some(closure) = mapped_closure(m) {
                    if let Some(body) = drop_unwrap(Span::nowhere(), &closure.body) {
                        let first = Expr::Closure(
                            ExprClosure { head: closure.head.clone(), body: Box::new(body) },
                        );
                        let mut args: Vec<Expr> = Vec::new();
                        args.push(first);
                        assert(exprs_view(args@) =~= seq![first@]);
                        return ExprMethodCall {
                            span: m.span,
                            receiver: Box::new(self.walk(&m.receiver)),
                            method: String::from_str("filter_map"),
                            turbofish: duplicate_opt_text(&m.turbofish),
                            args: self.walk_onto(args, &m.args, 1),
                        };
                    }
                }
            }
            if let Some(name) = self.renamed_to(&m.method) {
                return ExprMethodCall {
                    span: m.span,
                    receiver: Box::new(self.walk(&m.receiver)),
                    method: name,
                    turbofish: duplicate_opt_text(&m.turbofish),
                    args: match self.fresh_args(Span::nowhere()) {
                        Some(fresh) => fresh,
                        None => self.walk_all(&m.args),
                    },
                };
            }
        }
        ExprMethodCall {
            span: m.span,
            receiver: Box::new(self.walk(&m.receiver)),
            method: m.method.clone(),
            turbofish: duplicate_opt_text(&m.turbofish),
            args: self.walk_all(&m.args),
        }
    }

    /// An expression after the walk.
    fn walk(&self, e: &Expr) -> (r: Expr)
        ensures
            r@ == rewritten(e@, self.line(), self.pattern()),
        decreases e,
    {
        match e {
            Expr::Lit { text } => Expr::Lit { text: text.clone() },
            Expr::Path { name } => Expr::Path { name: name.clone() },
            Expr::Binary(b) => Expr::Binary(self.walk_binary(b)),
            Expr::Index(i) => Expr::Index(self.walk_index(i)),
            Expr::Range(r) => Expr::Range(
                ExprRange {
                    start: self.walk_opt(&r.start),
                    inclusive: r.inclusive,
                    end: self.walk_opt(&r.end),
                },
            ),
            Expr::MethodCall(m) => Expr::MethodCall(self.walk_method_call(m)),
            Expr::Closure(c) => Expr::Closure(
                ExprClosure { head: c.head.clone(), body: Box::new(self.walk(&c.body)) },
            ),
            Expr::Assign(a) => Expr::Assign(
                ExprAssign {
                    left_span: a.left_span,
                    left: Box::new(self.walk(&a.left)),
                    right: Box::new(self.walk(&a.right)),
                },
            ),
            Expr::Other { text, children } => Expr::Other {
                text: text.clone(),
                children: self.walk_all(children),
            },
        }
    }

    /// Rewrites a binary expression in place.
    pub fn visit_expr_binary_mut(&self, i: &mut ExprBinary)
        ensures
            final(i)@ == rewritten(old(i)@, self.line(), self.pattern()),
    {
        let walked = self.walk_binary(i);
        *i = walked;
    }

    /// Rewrites an indexing expression in place.
    pub fn visit_expr_index_mut(&self, i: &mut ExprIndex)
        ensures
            final(i)@ == rewritten(old(i)@, self.line(), self.pattern()),
    {
        let walked = self.walk_index(i);
        *i = walked;
    }

    /// Rewrites a method call in place.
    pub fn visit_expr_method_call_mut(&self, i: &mut ExprMethodCall)
        ensures
            final(i)@ == rewritten(old(i)@, self.line(), self.pattern()),
    {
        let walked = self.walk_method_call(i);
        *i = walked;
    }

    /// Rewrites an expression of any kind in place.
    pub fn visit_expr_mut(&self, e: &mut Expr)
        ensures
            final(e)@ == rewritten(old(e)@, self.line(), self.pattern()),
    {
        let walked = self.walk(e);
        *e = walked;
    }

    /// Rewrites every expression of a file in place.
    pub fn visit_file_mut(&self, f: &mut File)
        ensures
            final(f)@ == rewritten_all(old(f)@, self.line(), self.pattern()),
    {
        let walked = self.walk_all(&f.exprs);
        f.exprs = walked;
    }
}

/// Why a candidate's file was not patched.
#[derive(Clone, Copy, Debug, PartialEq, Eq, Structural)]
pub enum PatchError {
    /// The candidate's file could not be parsed into expressions.
    ParseError,
    /// There is no output path to write a patched file to.
    IoError,
}

/// The catalog: every pattern, in the order in which it is applied.
pub open spec fn catalog() -> Seq<PATTERN> {
    seq![
        PATTERN::IndexMutate,
        PATTERN::McAdd(AddType::AddAsBytes),
        PATTERN::McAdd(AddType::AddMax),
        PATTERN::McChange(ChangeType::ToSaturating),
        PATTERN::McChange(ChangeType::ToCheck),
        PATTERN::McChange(ChangeType::ToWrapping),
        PATTERN::McChange(ChangeType::ToFilterMap),
        PATTERN::McChange(ChangeType::ToUnwrap),
        PATTERN::McChange(ChangeType::ToUnwrapOrElse),
        PATTERN::McChange(ChangeType::ToUnwrapOrFault),
        PATTERN::McChange(ChangeType::ToExtendFromSlice),
    ]
}

/// A file after the first `n` patterns of `patterns` have been applied in
/// turn, each to what the one before it left, all for the same line.
pub open spec fn patched_by(file: Seq<ExprView>, line: usize, patterns: Seq<PATTERN>, n: nat) -> Seq<
    ExprView,
>
    decreases n,
{
    if n == 0 {
        file
    } else {
        rewritten_all(
            patched_by(file, line, patterns, (n - 1) as nat),
            line,
            patterns[n - 1],
        )
    }
}

/// A file after the whole catalog has been applied for `line`.
pub open spec fn patched(file: Seq<ExprView>, line: usize) -> Seq<ExprView> {
    patched_by(file, line, catalog(), catalog().len())
}

/// The file handed in for the candidate at `i`: none where the list ends
/// before `i`.
pub open spec fn source_of(sources: Seq<Option<File>>, i: int) -> Option<File> {
    if 0 <= i < sources.len() {
        sources[i]
    } else {
        None
    }
}

/// Whether `result` is what a candidate on `line` comes to: its file with
/// the whole catalog applied, or `ParseError` where there is no file.
pub open spec fn is_outcome(line: usize, source: Option<File>, result: Result<File, PatchError>)
    -> bool {
    match source {
        Some(file) => result is Ok && result->Ok_0@ == patched(file@, line),
        None => result is Err && result->Err_0 == PatchError::ParseError,
    }
}

/// The patch generator: the candidates to patch, and where the patched
/// files go.
pub struct Transform {
    pub output_path: Option<String>,
    pub fault_locs: Vec<FaultLoc>,
}

impl Transform {
    /// A generator for the given candidates.
    pub fn new(output_path: Option<String>, fault_locs: Vec<FaultLoc>) -> (r: Self)
        ensures
            r.output_path == output_path,
            r.fault_locs == fault_locs,
    {
        Transform { output_path, fault_locs }
    }

    /// The catalog: every pattern, in the order in which it is applied.
    pub fn patterns() -> (r: Vec<PATTERN>)
        ensures
            r@ == catalog(),
    {
        let mut patterns: Vec<PATTERN> = Vec::new();
        patterns.push(PATTERN::IndexMutate);
        patterns.push(PATTERN::McAdd(AddType::AddAsBytes));
        patterns.push(PATTERN::McAdd(AddType::AddMax));
        patterns.push(PATTERN::McChange(ChangeType::ToSaturating));
        patterns.push(PATTERN::McChange(ChangeType::ToCheck));
        patterns.push(PATTERN::McChange(ChangeType::ToWrapping));
        patterns.push(PATTERN::McChange(ChangeType::ToFilterMap));
        patterns.push(PATTERN::McChange(ChangeType::ToUnwrap));
        patterns.push(PATTERN::McChange(ChangeType::ToUnwrapOrElse));
        patterns.push(PATTERN::McChange(ChangeType::ToUnwrapOrFault));
        patterns.push(PATTERN::McChange(ChangeType::ToExtendFromSlice));
        assert(patterns@ =~= catalog());
        patterns
    }

    /// The file of one candidate after the whole catalog has been applied
    /// to it, pattern after pattern.
    pub fn patch_file(fault_loc: &FaultLoc, file: &File) -> (r: File)
        ensures
            r@ == patched(file@, fault_loc.line_num),
    {
        let patterns = Self::patterns();
        let mut current = File { exprs: duplicate_all(&file.exprs) };
        let mut n: usize = 0;
        while n < patterns.len()
            invariant
                n <= patterns.len(),
                patterns@ == catalog(),
                current@ == patched_by(file@, fault_loc.line_num, catalog(), n as nat),
            decreases patterns.len() - n,
        {
            let visitor = AstVisitor::new(fault_loc, patterns[n]);
            visitor.visit_file_mut(&mut current);
            n += 1;
        }
        current
    }

    /// Patches the file of every candidate.
    ///
    /// `sources` holds, for each candidate in order, the expressions of its
    /// file, or nothing where the file could not be parsed; a candidate
    /// beyond the end of `sources` counts as not parsed. A candidate whose
    /// file was not parsed gets `ParseError`, and the others go on. Without
    /// an output path nothing can be written: `IoError` for the whole run.
    pub fn transform(&self, sources: &Vec<Option<File>>) -> (r: Result<
        Vec<Result<File, PatchError>>,
        PatchError,
    >)
        ensures
            self.output_path is None ==> r is Err && r->Err_0 == PatchError::IoError,
            self.output_path is Some ==> r is Ok && r->Ok_0@.len() == self.fault_locs@.len(),
            self.output_path is Some ==> forall|i: int|
                0 <= i < self.fault_locs@.len() ==> is_outcome(
                    self.fault_locs@[i].line_num,
                    source_of(sources@, i),
                    #[trigger] r->Ok_0@[i],
                ),
    {
        if self.output_path.is_none() {
            return Err(PatchError::IoError);
        }
        let mut out: Vec<Result<File, PatchError>> = Vec::new();
        let mut i: usize = 0;
        while i < self.fault_locs.len()
            invariant
                i <= self.fault_locs@.len(),
                out@.len() == i,
                forall|j: int|
                    0 <= j < i ==> is_outcome(
                        self.fault_locs@[j].line_num,
                        source_of(sources@, j),
                        #[trigger] out@[j],
                    ),
            decreases self.fault_locs@.len() - i,
        {
            if i < sources.len() {
                match &sources[i] {
                    Some(file) => out.push(Ok(Self::patch_file(&self.fault_locs[i], file))),
                    None => out.push(Err(PatchError::ParseError)),
                }
            } else {
                out.push(Err(PatchError::ParseError));
            }
            i += 1;
        }
        Ok(out)
    }
}

} // verus!
