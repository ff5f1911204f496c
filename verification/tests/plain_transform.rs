use fault_repair::fault_localization::extract::{FaultLoc, Score};
use fault_repair::patch_generation::ast::{
    BinOp, Expr, ExprAssign, ExprBinary, ExprMethodCall, File, Span,
};
use fault_repair::patch_generation::patch::PatchError;
use fault_repair::patch_generation::transform::{AstVisitor, Transform};

fn candidate(line: usize) -> FaultLoc {
    FaultLoc {
        ident: String::from("f"),
        line_num: line,
        col_num: 3,
        file_path: String::from("/proj/src/a.rs"),
        is_dep: false,
        depth: 0,
        score: Score { num: 0, den: 1 },
    }
}

fn on(line: usize) -> Span {
    Span { start_line: line, end_line: line }
}

fn path(name: &str) -> Expr {
    Expr::Path { name: String::from(name) }
}

fn assign(line: usize, left: Expr, right: Expr) -> Expr {
    Expr::Assign(ExprAssign { left_span: on(line), left: Box::new(left), right: Box::new(right) })
}

fn minus_one(e: Expr) -> Expr {
    Expr::Binary(ExprBinary {
        span: Span::nowhere(),
        left: Box::new(e),
        op: BinOp::Sub,
        right: Box::new(Expr::Lit { text: String::from("1") }),
    })
}

#[test]
fn an_assignment_on_the_line_gets_one_less() {
    let loc = candidate(4);
    let visitor = AstVisitor::new(&loc);
    assert_eq!(visitor.get_loc_num(), (4, 3));
    let mut e = assign(4, path("x"), path("y"));
    visitor.visit_expr_mut(&mut e);
    assert_eq!(e, assign(4, path("x"), minus_one(path("y"))));
}

#[test]
fn an_assignment_elsewhere_is_walked_through() {
    let loc = candidate(4);
    let visitor = AstVisitor::new(&loc);
    let inner = assign(4, path("a"), path("b"));
    let call = Expr::MethodCall(ExprMethodCall {
        span: on(4),
        receiver: Box::new(path("v")),
        method: String::from("push"),
        turbofish: None,
        args: vec![inner],
    });
    let mut f = File { exprs: vec![assign(9, path("x"), call), path("z")] };
    visitor.visit_file_mut(&mut f);
    let want_call = Expr::MethodCall(ExprMethodCall {
        span: on(4),
        receiver: Box::new(path("v")),
        method: String::from("push"),
        turbofish: None,
        args: vec![assign(4, path("a"), minus_one(path("b")))],
    });
    assert_eq!(f, File { exprs: vec![assign(9, path("x"), want_call), path("z")] });
}

#[test]
fn the_plain_transform_patches_each_candidate() {
    let t = Transform::new(Some(String::from("out.rs")), vec![candidate(1), candidate(2)]);
    let sources = vec![Some(File { exprs: vec![assign(1, path("x"), path("y"))] }), None];
    let got = t.transform(&sources).unwrap();
    assert_eq!(got[0], Ok(File { exprs: vec![assign(1, path("x"), minus_one(path("y")))] }));
    assert_eq!(got[1], Err(PatchError::ParseError));
    let t = Transform::new(None, vec![candidate(1)]);
    assert_eq!(t.transform(&sources), Err(PatchError::IoError));
}
