//! The plain repair: subtract one from what is assigned at the candidate's
//! line. It knows no patterns.

use vstd::prelude::*;
use crate::fault_localization::extract::FaultLoc;
use crate::patch_generation::ast::{
    assign_view, duplicate_opt_text, exprs_view, nowhere, opt_expr_view, Expr, ExprAssign,
    ExprBinary, ExprClosure, ExprIndex, ExprMethodCall, ExprRange, ExprView, File, Span,
};
use crate::patch_generation::patch::{source_of, lit, minus, make_lit, make_minus, PatchError};

verus! {

/// An optional sub-expression after the walk.
pub open spec fn lowered_opt(e: Option<Box<ExprView>>, line: usize) -> Option<Box<ExprView>>
    decreases e,
{
    match e {
        Some(b) => Some(Box::new(lowered(*b, line))),
        None => None,
    }
}

/// A list of expressions after the walk: each one rewritten, in order.
pub open spec fn lowered_all(s: Seq<ExprView>, line: usize) -> Seq<ExprView>
    decreases s,
{
    Seq::new(
        s.len(),
        |i: int|
            if 0 <= i < s.len() {
                lowered(s[i], line)
            } else {
                s[i]
            },
    )
}

/// An expression after the walk for `line`: an assignment whose left side
/// covers `line` has `- 1` put behind its right side, and is not entered
/// (the subtraction, made anew, stands nowhere in the source);
/// every other node is kept, and its sub-expressions are walked.
pub open spec fn lowered(e: ExprView, line: usize) -> ExprView
    decreases e,
{
    match e {
        ExprView::Lit { .. } | ExprView::Path { .. } => e,
        ExprView::Assign { left_span, left, right } => if left_span.covers(line) {
            ExprView::Assign {
                left_span,
                left,
                right: Box::new(minus(nowhere(), *right, lit("1"@))),
            }
        } else {
            ExprView::Assign {
                left_span,
                left: Box::new(lowered(*left, line)),
                right: Box::new(lowered(*right, line)),
            }
        },
        ExprView::Binary { span, left, op, right } => ExprView::Binary {
            span,
            left: Box::new(lowered(*left, line)),
            op,
            right: Box::new(lowered(*right, line)),
        },
        ExprView::Index { span, base, index } => ExprView::Index {
            span,
            base: Box::new(lowered(*base, line)),
            index: Box::new(lowered(*index, line)),
        },
        ExprView::Range { start, inclusive, end } => ExprView::Range {
            start: lowered_opt(start, line),
            inclusive,
            end: lowered_opt(end, line),
        },
        ExprView::MethodCall { span, receiver, method, turbofish, args } => ExprView::MethodCall {
            span,
            receiver: Box::new(lowered(*receiver, line)),
            method,
            turbofish,
            args: lowered_all(args, line),
        },
        ExprView::Closure { head, body } => ExprView::Closure {
            head,
            body: Box::new(lowered(*body, line)),
        },
        ExprView::Other { text, children } => ExprView::Other {
            text,
            children: lowered_all(children, line),
        },
    }
}

/// The plain patch generator: the candidates to patch, and where the
/// patched files go.
pub struct Transform {
    pub output_path: Option<String>,
    pub fault_locs: Vec<FaultLoc>,
}

/// Whether `result` is what a candidate on `line` comes to: its file after
/// the walk, or `ParseError` where there is no file.
pub open spec fn is_lowered(line: usize, source: Option<File>, result: Result<File, PatchError>)
    -> bool {
    match source {
        Some(file) => result is Ok && result->Ok_0@ == lowered_all(file@, line),
        None => result is Err && result->Err_0 == PatchError::ParseError,
    }
}

impl Transform {
    /// A generator for the given candidates.
    pub fn new(output_path: Option<String>, fault_locs: Vec<FaultLoc>) -> (r: Self)
        ensures
            r.output_path == output_path,
            r.fault_locs == fault_locs,
    {
        Transform { output_path, fault_locs }
    }

    /// Patches the file of every candidate.
    ///
    /// `sources` holds, for each candidate in order, the expressions of its
    /// file, or nothing where the file could not be parsed; a candidate
    /// beyond the end of `sources` counts as not parsed. A candidate whose
    /// file was not parsed gets `ParseError`, and the others go on. Without
    /// an output path nothing can be written: `IoError` for the whole run.
    pub fn transform(&self, sources: &Vec<Option<File>>) -> (r: Result<
        Vec<Result<File, PatchError>>,
        PatchError,
    >)
        ensures
            self.output_path is None ==> r is Err && r->Err_0 == PatchError::IoError,
            self.output_path is Some ==> r is Ok && r->Ok_0@.len() == self.fault_locs@.len(),
            self.output_path is Some ==> forall|i: int|
                0 <= i < self.fault_locs@.len() ==> is_lowered(
                    self.fault_locs@[i].line_num,
                    source_of(sources@, i),
                    #[trigger] r->Ok_0@[i],
                ),
    {
        if self.output_path.is_none() {
            return Err(PatchError::IoError);
        }
        let mut out: Vec<Result<File, PatchError>> = Vec::new();
        let mut i: usize = 0;
        while i < self.fault_locs.len()
            invariant
                i <= self.fault_locs@.len(),
                out@.len() == i,
                forall|j: int|
                    0 <= j < i ==> is_lowered(
                        self.fault_locs@[j].line_num,
                        source_of(sources@, j),
                        #[trigger] out@[j],
                    ),
            decreases self.fault_locs@.len() - i,
        {
            if i < sources.len() {
                match &sources[i] {
                    Some(file) => {
                        let visitor = AstVisitor::new(&self.fault_locs[i]);
                        out.push(Ok(File { exprs: visitor.walk_all(&file.exprs) }));
                    },
                    None => out.push(Err(PatchError::ParseError)),
                }
            } else {
                out.push(Err(PatchError::ParseError));
            }
            i += 1;
        }
        Ok(out)
    }
}

/// Rewrites the assignments of one file for one candidate.
pub struct AstVisitor<'ast> {
    fault_loc: &'ast FaultLoc,
}

impl<'ast> AstVisitor<'ast> {
    /// The line of the candidate.
    pub closed spec fn line(&self) -> usize {
        self.fault_loc.line_num
    }

    /// The column of the candidate.
    pub closed spec fn column(&self) -> usize {
        self.fault_loc.col_num
    }

    /// A visitor for the line of `fault_loc`.
    pub fn new(fault_loc: &'ast FaultLoc) -> (r: Self)
        ensures
            r.line() == fault_loc.line_num,
            r.column() == fault_loc.col_num,
    {
        AstVisitor { fault_loc }
    }

    /// The line and the column of the candidate.
    pub fn get_loc_num(&self) -> (r: (usize, usize))
        ensures
            r.0 == self.line(),
            r.1 == self.column(),
    {
        (self.fault_loc.line_num, self.fault_loc.col_num)
    }

    /// An optional sub-expression after the walk.
    fn walk_opt(&self, e: &Option<Box<Expr>>) -> (r: Option<Box<Expr>>)
        ensures
            opt_expr_view(&r) == lowered_opt(opt_expr_view(e), self.line()),
        decreases e,
    {
        match e {
            Some(b) => Some(Box::new(self.walk(b))),
            None => None,
        }
    }

    /// The expressions of a list, each after the walk.
    fn walk_all(&self, v: &Vec<Expr>) -> (r: Vec<Expr>)
        ensures
            exprs_view(r@) == lowered_all(exprs_view(v@), self.line()),
        decreases v,
    {
        let mut out: Vec<Expr> = Vec::new();
        let mut i: usize = 0;
        while i < v.len()
            invariant
                i <= v.len(),
                out@.len() == i,
                forall|j: int| 0 <= j < i ==> (#[trigger] out@[j])@ == lowered(v@[j]@, self.line()),
            decreases v.len() - i,
        {
            out.push(self.walk(&v[i]));
            i += 1;
        }
        assert(exprs_view(out@) =~= lowered_all(exprs_view(v@), self.line()));
        out
    }

    /// An expression after the walk.
    fn walk(&self, e: &Expr) -> (r: Expr)
        ensures
            r@ == lowered(e@, self.line()),
        decreases e,
    {
        match e {
            Expr::Lit { text } => Expr::Lit { text: text.clone() },
            Expr::Path { name } => Expr::Path { name: name.clone() },
            Expr::Assign(a) => {
                assert(a@ == assign_view(a));
                if a.left_span.contains_line(self.fault_loc.line_num) {
                    Expr::Assign(
                        ExprAssign {
                            left_span: a.left_span,
                            left: Box::new(a.left.duplicate()),
                            right: Box::new(
                                make_minus(Span::nowhere(), a.right.duplicate(), make_lit("1")),
                            ),
                        },
                    )
                } else {
                    Expr::Assign(
                        ExprAssign {
                            left_span: a.left_span,
                            left: Box::new(self.walk(&a.left)),
                            right: Box::new(self.walk(&a.right)),
                        },
                    )
                }
            },
            Expr::Binary(b) => {
                assert(b@ == crate::patch_generation::ast::binary_view(b));
                Expr::Binary(
                    ExprBinary {
                        span: b.span,
                        left: Box::new(self.walk(&b.left)),
                        op: b.op.duplicate(),
                        right: Box::new(self.walk(&b.right)),
                    },
                )
            },
            Expr::Index(i) => {
                assert(i@ == crate::patch_generation::ast::index_view(i));
                Expr::Index(
                    ExprIndex {
                        span: i.span,
                        base: Box::new(self.walk(&i.base)),
                        index: Box::new(self.walk(&i.index)),
                    },
                )
            },
            Expr::Range(r) => Expr::Range(
                ExprRange {
                    start: self.walk_opt(&r.start),
                    inclusive: r.inclusive,
                    end: self.walk_opt(&r.end),
                },
            ),
            Expr::MethodCall(m) => {
                assert(m@ == crate::patch_generation::ast::method_call_view(m));
                Expr::MethodCall(
                    ExprMethodCall {
                        span: m.span,
                        receiver: Box::new(self.walk(&m.receiver)),
                        method: m.method.clone(),
                        turbofish: duplicate_opt_text(&m.turbofish),
                        args: self.walk_all(&m.args),
                    },
                )
            },
            Expr::Closure(c) => Expr::Closure(
                ExprClosure { head: c.head.clone(), body: Box::new(self.walk(&c.body)) },
            ),
            Expr::Other { text, children } => Expr::Other {
                text: text.clone(),
                children: self.walk_all(children),
            },
        }
    }

    /// Rewrites an expression in place.
    pub fn visit_expr_mut(&self, e: &mut Expr)
        ensures
            final(e)@ == lowered(old(e)@, self.line()),
    {
        let walked = self.walk(e);
        *e = walked;
    }

    /// Rewrites every expression of a file in place.
    pub fn visit_file_mut(&self, f: &mut File)
        ensures
            final(f)@ == lowered_all(old(f)@, self.line()),
    {
        let walked = self.walk_all(&f.exprs);
        f.exprs = walked;
    }
}

} // verus!
