//! The expression trees that patterns rewrite.
//!
//! A tree holds exactly what the rewrite rules read: the shape of binary,
//! indexing, range, method-call, closure and assignment expressions, the
//! source lines each rewritable node spans, and, for every other kind of
//! expression, its source text together with its direct sub-expressions.

use vstd::prelude::*;

verus! {

/// The source lines a node covers, both ends included.
#[derive(Clone, Copy, Debug, PartialEq, Eq, Structural)]
pub struct Span {
    pub start_line: usize,
    pub end_line: usize,
}

/// The span of a node that a rewrite has made: it covers no line, since
/// such a node stands nowhere in the source.
pub open spec fn nowhere() -> Span {
    Span { start_line: 1, end_line: 0 }
}

impl Span {
    /// Whether `line` lies within the span.
    pub open spec fn covers(self, line: usize) -> bool {
        self.start_line <= line && line <= self.end_line
    }

    /// The span of a node that a rewrite has made.
    pub fn nowhere() -> (r: Span)
        ensures
            r == nowhere(),
            forall|line: usize| !r.covers(line),
    {
        Span { start_line: 1, end_line: 0 }
    }

    /// Whether `line` lies within the span.
    pub fn contains_line(&self, line: usize) -> (r: bool)
        ensures
            r == self.covers(line),
    {
        self.start_line <= line && line <= self.end_line
    }
}

/// A binary operator. Only addition and subtraction, plain or compound, are
/// told apart; any other operator is carried by its source text.
#[derive(Debug, PartialEq, Eq)]
pub enum BinOp {
    Add,
    Sub,
    AddAssign,
    SubAssign,
    Other(String),
}

/// The mathematical value of a [`BinOp`].
pub enum BinOpView {
    Add,
    Sub,
    AddAssign,
    SubAssign,
    Other(Seq<char>),
}

impl View for BinOp {
    type V = BinOpView;

    open spec fn view(&self) -> BinOpView {
        match self {
            BinOp::Add => BinOpView::Add,
            BinOp::Sub => BinOpView::Sub,
            BinOp::AddAssign => BinOpView::AddAssign,
            BinOp::SubAssign => BinOpView::SubAssign,
            BinOp::Other(text) => BinOpView::Other(text@),
        }
    }
}

/// `left op right`; compound assignments such as `+=` are binary too.
#[derive(Debug, PartialEq, Eq)]
pub struct ExprBinary {
    pub span: Span,
    pub left: Box<Expr>,
    pub op: BinOp,
    pub right: Box<Expr>,
}

/// `base[index]`.
#[derive(Debug, PartialEq, Eq)]
pub struct ExprIndex {
    pub span: Span,
    pub base: Box<Expr>,
    pub index: Box<Expr>,
}

/// `start..end` or `start..=end`, either bound possibly absent.
#[derive(Debug, PartialEq, Eq)]
pub struct ExprRange {
    pub start: Option<Box<Expr>>,
    pub inclusive: bool,
    pub end: Option<Box<Expr>>,
}

/// `receiver.method::<turbofish>(args)`.
#[derive(Debug, PartialEq, Eq)]
pub struct ExprMethodCall {
    pub span: Span,
    pub receiver: Box<Expr>,
    pub method: String,
    pub turbofish: Option<String>,
    pub args: Vec<Expr>,
}

/// A closure: `head` is everything before the body, e.g. `|a|`.
#[derive(Debug, PartialEq, Eq)]
pub struct ExprClosure {
    pub head: String,
    pub body: Box<Expr>,
}

/// `left = right`; `left_span` is the span of the left side alone.
#[derive(Debug, PartialEq, Eq)]
pub struct ExprAssign {
    pub left_span: Span,
    pub left: Box<Expr>,
    pub right: Box<Expr>,
}

/// An expression tree.
#[derive(Debug, PartialEq, Eq)]
pub enum Expr {
    /// A literal, by its source text.
    Lit { text: String },
    /// A path such as a variable name, by its source text.
    Path { name: String },
    Binary(ExprBinary),
    Index(ExprIndex),
    Range(ExprRange),
    MethodCall(ExprMethodCall),
    Closure(ExprClosure),
    Assign(ExprAssign),
    /// Any other expression: its source text and its direct sub-expressions,
    /// in source order.
    Other { text: String, children: Vec<Expr> },
}

/// The mathematical value of an [`Expr`], and of each kind of node.
#[verifier::ext_equal]
pub enum ExprView {
    Lit { text: Seq<char> },
    Path { name: Seq<char> },
    Binary { span: Span, left: Box<ExprView>, op: BinOpView, right: Box<ExprView> },
    Index { span: Span, base: Box<ExprView>, index: Box<ExprView> },
    Range { start: Option<Box<ExprView>>, inclusive: bool, end: Option<Box<ExprView>> },
    MethodCall {
        span: Span,
        receiver: Box<ExprView>,
        method: Seq<char>,
        turbofish: Option<Seq<char>>,
        args: Seq<ExprView>,
    },
    Closure { head: Seq<char>, body: Box<ExprView> },
    Assign { left_span: Span, left: Box<ExprView>, right: Box<ExprView> },
    Other { text: Seq<char>, children: Seq<ExprView> },
}

/// The value of an optional sub-expression.
pub open spec fn opt_expr_view(e: &Option<Box<Expr>>) -> Option<Box<ExprView>>
    decreases e,
{
    match e {
        Some(b) => Some(Box::new(expr_view(b))),
        None => None,
    }
}

/// The value of an optional piece of text.
pub open spec fn opt_text_view(t: &Option<String>) -> Option<Seq<char>> {
    match t {
        Some(s) => Some(s@),
        None => None,
    }
}

/// The values of a list of expressions, in order.
pub open spec fn exprs_view(v: Seq<Expr>) -> Seq<ExprView>
    decreases v,
{
    Seq::new(
        v.len(),
        |i: int|
            if 0 <= i < v.len() {
                expr_view(&v[i])
            } else {
                ExprView::Lit { text: Seq::empty() }
            },
    )
}

/// The value of a binary expression.
pub open spec fn binary_view(b: &ExprBinary) -> ExprView
    decreases b,
{
    ExprView::Binary {
        span: b.span,
        left: Box::new(expr_view(&b.left)),
        op: b.op@,
        right: Box::new(expr_view(&b.right)),
    }
}

/// The value of an indexing expression.
pub open spec fn index_view(i: &ExprIndex) -> ExprView
    decreases i,
{
    ExprView::Index {
        span: i.span,
        base: Box::new(expr_view(&i.base)),
        index: Box::new(expr_view(&i.index)),
    }
}

/// The value of a range expression.
pub open spec fn range_view(r: &ExprRange) -> ExprView
    decreases r,
{
    ExprView::Range {
        start: opt_expr_view(&r.start),
        inclusive: r.inclusive,
        end: opt_expr_view(&r.end),
    }
}

/// The value of a method call.
pub open spec fn method_call_view(m: &ExprMethodCall) -> ExprView
    decreases m,
{
    ExprView::MethodCall {
        span: m.span,
        receiver: Box::new(expr_view(&m.receiver)),
        method: m.method@,
        turbofish: opt_text_view(&m.turbofish),
        args: exprs_view(m.args@),
    }
}

/// The value of a closure.
pub open spec fn closure_view(c: &ExprClosure) -> ExprView
    decreases c,
{
    ExprView::Closure { head: c.head@, body: Box::new(expr_view(&c.body)) }
}

/// The value of an assignment.
pub open spec fn assign_view(a: &ExprAssign) -> ExprView
    decreases a,
{
    ExprView::Assign {
        left_span: a.left_span,
        left: Box::new(expr_view(&a.left)),
        right: Box::new(expr_view(&a.right)),
    }
}

/// The value of an expression tree.
pub open spec fn expr_view(e: &Expr) -> ExprView
    decreases e,
{
    match e {
        Expr::Lit { text } => ExprView::Lit { text: text@ },
        Expr::Path { name } => ExprView::Path { name: name@ },
        Expr::Binary(b) => binary_view(b),
        Expr::Index(i) => index_view(i),
        Expr::Range(r) => range_view(r),
        Expr::MethodCall(m) => method_call_view(m),
        Expr::Closure(c) => closure_view(c),
        Expr::Assign(a) => assign_view(a),
        Expr::Other { text, children } => ExprView::Other {
            text: text@,
            children: exprs_view(children@),
        },
    }
}

impl View for Expr {
    type V = ExprView;

    open spec fn view(&self) -> ExprView {
        expr_view(self)
    }
}

impl View for ExprBinary {
    type V = ExprView;

    open spec fn view(&self) -> ExprView {
        binary_view(self)
    }
}

impl View for ExprIndex {
    type V = ExprView;

    open spec fn view(&self) -> ExprView {
        index_view(self)
    }
}

impl View for ExprRange {
    type V = ExprView;

    open spec fn view(&self) -> ExprView {
        range_view(self)
    }
}

impl View for ExprMethodCall {
    type V = ExprView;

    open spec fn view(&self) -> ExprView {
        method_call_view(self)
    }
}

impl View for ExprClosure {
    type V = ExprView;

    open spec fn view(&self) -> ExprView {
        closure_view(self)
    }
}

impl View for ExprAssign {
    type V = ExprView;

    open spec fn view(&self) -> ExprView {
        assign_view(self)
    }
}

impl BinOp {
    /// A copy of the operator.
    pub fn duplicate(&self) -> (r: BinOp)
        ensures
            r@ == self@,
    {
        match self {
            BinOp::Add => BinOp::Add,
            BinOp::Sub => BinOp::Sub,
            BinOp::AddAssign => BinOp::AddAssign,
            BinOp::SubAssign => BinOp::SubAssign,
            BinOp::Other(text) => BinOp::Other(text.clone()),
        }
    }
}

/// A copy of an optional piece of text.
pub fn duplicate_opt_text(t: &Option<String>) -> (r: Option<String>)
    ensures
        opt_text_view(&r) == opt_text_view(t),
{
    match t {
        Some(s) => Some(s.clone()),
        None => None,
    }
}

/// A copy of an optional sub-expression.
pub fn duplicate_opt(e: &Option<Box<Expr>>) -> (r: Option<Box<Expr>>)
    ensures
        opt_expr_view(&r) == opt_expr_view(e),
    decreases e,
{
    match e {
        Some(b) => Some(Box::new(b.duplicate())),
        None => None,
    }
}

/// Copies of the expressions of a list, in order.
pub fn duplicate_all(v: &Vec<Expr>) -> (r: Vec<Expr>)
    ensures
        exprs_view(r@) == exprs_view(v@),
    decreases v,
{
    let mut out: Vec<Expr> = Vec::new();
    let mut i: usize = 0;
    while i < v.len()
        invariant
            i <= v.len(),
            out@.len() == i,
            forall|j: int| 0 <= j < i ==> expr_view(&out@[j]) == expr_view(&v@[j]),
        decreases v.len() - i,
    {
        out.push(v[i].duplicate());
        i += 1;
    }
    assert(exprs_view(out@) =~= exprs_view(v@));
    out
}

impl Expr {
    /// A deep copy of the tree.
    pub fn duplicate(&self) -> (r: Expr)
        ensures
            r@ == self@,
        decreases self,
    {
        match self {
            Expr::Lit { text } => Expr::Lit { text: text.clone() },
            Expr::Path { name } => Expr::Path { name: name.clone() },
            Expr::Binary(b) => Expr::Binary(
                ExprBinary {
                    span: b.span,
                    left: Box::new(b.left.duplicate()),
                    op: b.op.duplicate(),
                    right: Box::new(b.right.duplicate()),
                },
            ),
            Expr::Index(i) => Expr::Index(
                ExprIndex {
                    span: i.span,
                    base: Box::new(i.base.duplicate()),
                    index: Box::new(i.index.duplicate()),
                },
            ),
            Expr::Range(r) => Expr::Range(
                ExprRange {
                    start: duplicate_opt(&r.start),
                    inclusive: r.inclusive,
                    end: duplicate_opt(&r.end),
                },
            ),
            Expr::MethodCall(m) => Expr::MethodCall(
                ExprMethodCall {
                    span: m.span,
                    receiver: Box::new(m.receiver.duplicate()),
                    method: m.method.clone(),
                    turbofish: duplicate_opt_text(&m.turbofish),
                    args: duplicate_all(&m.args),
                },
            ),
            Expr::Closure(c) => Expr::Closure(
                ExprClosure { head: c.head.clone(), body: Box::new(c.body.duplicate()) },
            ),
            Expr::Assign(a) => Expr::Assign(
                ExprAssign {
                    left_span: a.left_span,
                    left: Box::new(a.left.duplicate()),
                    right: Box::new(a.right.duplicate()),
                },
            ),
            Expr::Other { text, children } => Expr::Other {
                text: text.clone(),
                children: duplicate_all(children),
            },
        }
    }
}

/// The expressions of one source file: every expression that is not part
/// of a larger one, in source order.
#[derive(Debug, PartialEq, Eq)]
pub struct File {
    pub exprs: Vec<Expr>,
}

impl View for File {
    type V = Seq<ExprView>;

    open spec fn view(&self) -> Seq<ExprView> {
        exprs_view(self.exprs@)
    }
}

} // verus!
