use fault_repair::fault_localization::extract::{FaultLoc, Score};
use fault_repair::patch_generation::ast::{
    BinOp, Expr, ExprBinary, ExprClosure, ExprIndex, ExprMethodCall, ExprRange, File, Span,
};
use fault_repair::patch_generation::patch::{AstVisitor, PatchError, Transform};
use fault_repair::patch_generation::patterns::{AddType, ChangeType, PATTERN};

fn candidate(line: usize) -> FaultLoc {
    FaultLoc {
        ident: String::from("f"),
        line_num: line,
        col_num: 1,
        file_path: String::from("/proj/src/a.rs"),
        is_dep: false,
        depth: 0,
        score: Score { num: 0, den: 1 },
    }
}

/// The span of a node that a rewrite has made.
fn made() -> Span {
    Span::nowhere()
}

fn on(line: usize) -> Span {
    Span { start_line: line, end_line: line }
}

fn path(name: &str) -> Expr {
    Expr::Path { name: String::from(name) }
}

fn lit(text: &str) -> Expr {
    Expr::Lit { text: String::from(text) }
}

fn binary(span: Span, left: Expr, op: BinOp, right: Expr) -> Expr {
    Expr::Binary(ExprBinary { span, left: Box::new(left), op, right: Box::new(right) })
}

fn index(span: Span, base: Expr, index: Expr) -> Expr {
    Expr::Index(ExprIndex { span, base: Box::new(base), index: Box::new(index) })
}

fn call(span: Span, receiver: Expr, method: &str, args: Vec<Expr>) -> Expr {
    Expr::MethodCall(ExprMethodCall {
        span,
        receiver: Box::new(receiver),
        method: String::from(method),
        turbofish: None,
        args,
    })
}

fn closure(head: &str, body: Expr) -> Expr {
    Expr::Closure(ExprClosure { head: String::from(head), body: Box::new(body) })
}

fn apply(line: usize, pattern: PATTERN, e: Expr) -> Expr {
    let loc = candidate(line);
    let visitor = AstVisitor::new(&loc, pattern);
    let mut e = e;
    visitor.visit_expr_mut(&mut e);
    e
}

#[test]
fn index_shift_subtracts_one_from_a_plain_index() {
    let got = apply(10, PATTERN::IndexMutate, index(on(10), path("arr"), path("i")));
    let want = index(on(10), path("arr"), binary(made(), path("i"), BinOp::Sub, lit("1")));
    assert_eq!(got, want);
}

#[test]
fn index_shift_moves_the_start_of_a_range() {
    let range = Expr::Range(ExprRange {
        start: Some(Box::new(path("a"))),
        inclusive: false,
        end: None,
    });
    let got = apply(10, PATTERN::IndexMutate, index(on(10), path("arr"), range));
    let want = index(
        on(10),
        path("arr"),
        Expr::Range(ExprRange {
            start: Some(Box::new(binary(made(), path("a"), BinOp::Sub, lit("1")))),
            inclusive: false,
            end: None,
        }),
    );
    assert_eq!(got, want);
}

#[test]
fn index_shift_gives_an_open_range_a_zero_start() {
    let range = Expr::Range(ExprRange {
        start: None,
        inclusive: true,
        end: Some(Box::new(path("n"))),
    });
    let got = apply(3, PATTERN::IndexMutate, index(on(3), path("arr"), range));
    let want = index(
        on(3),
        path("arr"),
        Expr::Range(ExprRange {
            start: Some(Box::new(binary(made(), lit("0"), BinOp::Sub, lit("0")))),
            inclusive: true,
            end: Some(Box::new(path("n"))),
        }),
    );
    assert_eq!(got, want);
}

#[test]
fn index_shift_leaves_other_lines_alone() {
    let got = apply(11, PATTERN::IndexMutate, index(on(10), path("arr"), path("i")));
    assert_eq!(got, index(on(10), path("arr"), path("i")));
}

#[test]
fn index_shift_needs_its_own_pattern() {
    let got = apply(
        10,
        PATTERN::McChange(ChangeType::ToSaturating),
        index(on(10), path("arr"), path("i")),
    );
    assert_eq!(got, index(on(10), path("arr"), path("i")));
}

#[test]
fn saturating_add_keeps_the_binary_shape() {
    let got = apply(
        7,
        PATTERN::McChange(ChangeType::ToSaturating),
        binary(on(7), path("x"), BinOp::Add, path("y")),
    );
    let want = binary(made(),
        lit("0"),
        BinOp::Add,
        call(made(), path("x"), "saturating_add", vec![path("y")]),
    );
    assert_eq!(got, want);
}

#[test]
fn saturating_covers_compound_and_subtraction() {
    let pattern = PATTERN::McChange(ChangeType::ToSaturating);
    let got = apply(7, pattern, binary(on(7), path("x"), BinOp::AddAssign, path("y")));
    assert_eq!(
        got,
        binary(made(), lit("0"), BinOp::Add, call(made(), path("x"), "saturating_add", vec![path("y")]))
    );
    let got = apply(7, pattern, binary(on(7), path("x"), BinOp::Sub, path("y")));
    assert_eq!(
        got,
        binary(made(), lit("0"), BinOp::Add, call(made(), path("x"), "saturating_sub", vec![path("y")]))
    );
    let got = apply(7, pattern, binary(on(7), path("x"), BinOp::SubAssign, path("y")));
    assert_eq!(
        got,
        binary(made(), lit("0"), BinOp::Add, call(made(), path("x"), "saturating_sub", vec![path("y")]))
    );
}

#[test]
fn saturating_leaves_other_operators() {
    let pattern = PATTERN::McChange(ChangeType::ToSaturating);
    let product = || binary(on(7), path("x"), BinOp::Other(String::from("*")), path("y"));
    assert_eq!(apply(7, pattern, product()), product());
}

#[test]
fn a_multi_line_node_is_rewritten_on_each_of_its_lines() {
    let span = Span { start_line: 4, end_line: 6 };
    let pattern = PATTERN::McChange(ChangeType::ToSaturating);
    for line in 4..=6 {
        let got = apply(line, pattern, binary(span, path("x"), BinOp::Add, path("y")));
        assert_eq!(
            got,
            binary(made(), lit("0"), BinOp::Add, call(made(), path("x"), "saturating_add", vec![path("y")]))
        );
    }
    let sum = || binary(span, path("x"), BinOp::Add, path("y"));
    assert_eq!(apply(3, pattern, sum()), sum());
    assert_eq!(apply(7, pattern, sum()), sum());
}

#[test]
fn a_covered_node_that_does_not_match_is_entered() {
    // arr[i] + 2 under the index shift: the sum is kept, the index moves.
    let sum = binary(on(5), index(on(5), path("arr"), path("i")), BinOp::Add, lit("2"));
    let want = binary(
        on(5),
        index(on(5), path("arr"), binary(made(), path("i"), BinOp::Sub, lit("1"))),
        BinOp::Add,
        lit("2"),
    );
    assert_eq!(apply(5, PATTERN::IndexMutate, sum), want);

    // (a + b) * c under the saturating pattern: the product is kept, the
    // sum in it is rewritten.
    let product = binary(
        on(1),
        binary(on(1), path("a"), BinOp::Add, path("b")),
        BinOp::Other(String::from("*")),
        path("c"),
    );
    let want = binary(
        on(1),
        binary(made(), lit("0"), BinOp::Add, call(made(), path("a"), "saturating_add", vec![path("b")])),
        BinOp::Other(String::from("*")),
        path("c"),
    );
    assert_eq!(apply(1, PATTERN::McChange(ChangeType::ToSaturating), product), want);

    // arr[x + y] under the saturating pattern: the index node is kept,
    // the sum in it is rewritten.
    let at = index(on(2), path("arr"), binary(on(2), path("x"), BinOp::Add, path("y")));
    let want = index(
        on(2),
        path("arr"),
        binary(made(), lit("0"), BinOp::Add, call(made(), path("x"), "saturating_add", vec![path("y")])),
    );
    assert_eq!(apply(2, PATTERN::McChange(ChangeType::ToSaturating), at), want);
}

#[test]
fn a_rewritten_binary_node_is_not_entered_again() {
    // (a + b) + c: the outer sum is rewritten, its operands are taken as
    // they are.
    let inner = || binary(on(1), path("a"), BinOp::Add, path("b"));
    let sum = binary(on(1), inner(), BinOp::Add, path("c"));
    let want = binary(made(),
        lit("0"),
        BinOp::Add,
        call(made(), inner(), "saturating_add", vec![path("c")]),
    );
    assert_eq!(apply(1, PATTERN::McChange(ChangeType::ToSaturating), sum), want);
}

#[test]
fn an_uncovered_binary_node_is_entered() {
    let outer = Span { start_line: 1, end_line: 1 };
    let tree = binary(outer, index(on(5), path("arr"), path("i")), BinOp::Add, lit("2"));
    let want = binary(
        outer,
        index(on(5), path("arr"), binary(made(), path("i"), BinOp::Sub, lit("1"))),
        BinOp::Add,
        lit("2"),
    );
    assert_eq!(apply(5, PATTERN::IndexMutate, tree), want);
}

#[test]
fn abs_becomes_saturating_abs() {
    let got = apply(2, PATTERN::McChange(ChangeType::ToSaturating), call(on(2), path("x"), "abs", vec![]));
    assert_eq!(got, call(on(2), path("x"), "saturating_abs", vec![]));
}

#[test]
fn add_becomes_as_bytes_or_max() {
    let got = apply(2, PATTERN::McAdd(AddType::AddAsBytes), call(on(2), path("x"), "add", vec![path("y")]));
    assert_eq!(got, call(on(2), path("x"), "as_bytes", vec![path("y")]));
    let got = apply(2, PATTERN::McAdd(AddType::AddMax), call(on(2), path("x"), "add", vec![path("y")]));
    assert_eq!(got, call(on(2), path("x"), "max", vec![path("y")]));
    let got = apply(2, PATTERN::McAdd(AddType::AddMax), call(on(2), path("x"), "added", vec![]));
    assert_eq!(got, call(on(2), path("x"), "added", vec![]));
}

#[test]
fn copy_from_slice_becomes_extend_from_slice() {
    let got = apply(
        2,
        PATTERN::McChange(ChangeType::ToExtendFromSlice),
        call(on(2), path("v"), "copy_from_slice", vec![path("s")]),
    );
    assert_eq!(got, call(on(2), path("v"), "extend_from_slice", vec![path("s")]));
}

#[test]
fn expect_becomes_unwrap_or_else() {
    let got = apply(
        2,
        PATTERN::McChange(ChangeType::ToUnwrapOrElse),
        call(on(2), path("r"), "expect", vec![lit("\"no value\"")]),
    );
    let want = call(
        on(2),
        path("r"),
        "unwrap_or_else",
        vec![closure("||", call(made(), lit("1"), "into", vec![]))],
    );
    assert_eq!(got, want);
}

#[test]
fn expect_becomes_unwrap_or_default() {
    let got = apply(
        2,
        PATTERN::McChange(ChangeType::ToUnwrapOrFault),
        call(on(2), path("r"), "expect", vec![lit("\"no value\"")]),
    );
    assert_eq!(got, call(on(2), path("r"), "unwrap_or_default", vec![]));
}

#[test]
fn reserved_patterns_rewrite_nothing() {
    let tree = || {
        binary(
            on(1),
            call(on(1), path("r"), "expect", vec![lit("\"m\"")]),
            BinOp::Add,
            index(on(1), path("arr"), path("i")),
        )
    };
    for change in [ChangeType::ToCheck, ChangeType::ToWrapping, ChangeType::ToUnwrap] {
        assert_eq!(apply(1, PATTERN::McChange(change), tree()), tree());
    }
}

#[test]
fn map_over_an_unwrapping_closure_becomes_filter_map() {
    // xs.map(|x| x.parse().unwrap().abs().pow())
    let body = call(
        on(9),
        call(on(9), call(on(9), call(on(9), path("x"), "parse", vec![]), "unwrap", vec![]), "abs", vec![]),
        "pow",
        vec![lit("2")],
    );
    let tree = call(on(9), path("xs"), "map", vec![closure("|x|", body)]);
    // xs.filter_map(|x| x.parse().map(|a| a.abs().pow()))
    let resumed = call(made(), call(made(), path("a"), "abs", vec![]), "pow", vec![]);
    let new_body = call(
        on(9),
        call(on(9), path("x"), "parse", vec![]),
        "map",
        vec![closure("|a|", resumed)],
    );
    let want = call(on(9), path("xs"), "filter_map", vec![closure("|x|", new_body)]);
    assert_eq!(apply(9, PATTERN::McChange(ChangeType::ToFilterMap), tree), want);
}

#[test]
fn map_over_a_closure_that_ends_in_unwrap_loses_the_unwrap() {
    let body = call(on(9), call(on(9), path("x"), "parse", vec![]), "unwrap", vec![]);
    let tree = call(on(9), path("xs"), "map", vec![closure("|x|", body)]);
    let want = call(
        on(9),
        path("xs"),
        "filter_map",
        vec![closure("|x|", call(on(9), path("x"), "parse", vec![]))],
    );
    assert_eq!(apply(9, PATTERN::McChange(ChangeType::ToFilterMap), tree), want);
}

#[test]
fn map_without_unwrap_is_left_alone() {
    let tree = || {
        call(
            on(9),
            path("xs"),
            "map",
            vec![closure("|x|", call(on(9), path("x"), "parse", vec![]))],
        )
    };
    assert_eq!(apply(9, PATTERN::McChange(ChangeType::ToFilterMap), tree()), tree());
    let plain = || call(on(9), path("xs"), "map", vec![path("f")]);
    assert_eq!(apply(9, PATTERN::McChange(ChangeType::ToFilterMap), plain()), plain());
    let bare = || call(on(9), path("xs"), "map", vec![]);
    assert_eq!(apply(9, PATTERN::McChange(ChangeType::ToFilterMap), bare()), bare());
}

#[test]
fn a_map_that_never_unwraps_is_entered() {
    // ys.map(|y| y.get().unwrap()).map(|x| x.parse()): the outer map has
    // nothing to drop, the map it is called on has.
    let inner = call(
        on(9),
        path("ys"),
        "map",
        vec![closure("|y|", call(on(9), call(on(9), path("y"), "get", vec![]), "unwrap", vec![]))],
    );
    let tree = call(on(9), inner, "map", vec![closure("|x|", call(on(9), path("x"), "parse", vec![]))]);
    let want = call(
        on(9),
        call(on(9), path("ys"), "filter_map", vec![closure("|y|", call(on(9), path("y"), "get", vec![]))]),
        "map",
        vec![closure("|x|", call(on(9), path("x"), "parse", vec![]))],
    );
    assert_eq!(apply(9, PATTERN::McChange(ChangeType::ToFilterMap), tree), want);
}

#[test]
fn method_calls_are_entered_after_their_own_rewrite() {
    // a.add(b).add(c), both calls on the line
    let tree = call(on(2), call(on(2), path("a"), "add", vec![path("b")]), "add", vec![path("c")]);
    let want = call(on(2), call(on(2), path("a"), "max", vec![path("b")]), "max", vec![path("c")]);
    assert_eq!(apply(2, PATTERN::McAdd(AddType::AddMax), tree), want);
}

#[test]
fn get_mc_idents_lists_the_outermost_call_first() {
    let loc = candidate(1);
    let visitor = AstVisitor::new(&loc, PATTERN::IndexMutate);
    let chain = ExprMethodCall {
        span: on(1),
        receiver: Box::new(call(on(1), call(on(1), path("x"), "a", vec![]), "b", vec![])),
        method: String::from("c"),
        turbofish: None,
        args: vec![],
    };
    assert_eq!(visitor.get_mc_idents(&chain), vec!["c", "b", "a"]);
    assert_eq!(visitor.get_loc_num(), (1, 1));
}

#[test]
fn the_catalog_is_applied_in_order() {
    let patterns = Transform::patterns();
    assert_eq!(patterns.len(), 11);
    assert_eq!(patterns[0], PATTERN::IndexMutate);
    assert_eq!(patterns[1], PATTERN::McAdd(AddType::AddAsBytes));
    assert_eq!(patterns[2], PATTERN::McAdd(AddType::AddMax));
    assert_eq!(patterns[10], PATTERN::McChange(ChangeType::ToExtendFromSlice));
    // `add` is taken by the first of the two patterns that rename it.
    let file = File { exprs: vec![call(on(2), path("x"), "add", vec![path("y")])] };
    let got = Transform::patch_file(&candidate(2), &file);
    assert_eq!(got, File { exprs: vec![call(on(2), path("x"), "as_bytes", vec![path("y")])] });
}

#[test]
fn expect_meets_unwrap_or_else_before_unwrap_or_default() {
    let file = File { exprs: vec![call(on(2), path("r"), "expect", vec![lit("\"m\"")])] };
    let got = Transform::patch_file(&candidate(2), &file);
    let want = call(
        on(2),
        path("r"),
        "unwrap_or_else",
        vec![closure("||", call(made(), lit("1"), "into", vec![]))],
    );
    assert_eq!(got, File { exprs: vec![want] });
}

#[test]
fn transform_needs_an_output_path() {
    let t = Transform::new(None, vec![candidate(2)]);
    let sources = vec![Some(File { exprs: vec![] })];
    assert_eq!(t.transform(&sources), Err(PatchError::IoError));
}

#[test]
fn transform_reports_unparsed_files_and_goes_on() {
    let t = Transform::new(Some(String::from("out.rs")), vec![candidate(2), candidate(3), candidate(4)]);
    let sources = vec![
        None,
        Some(File { exprs: vec![index(on(3), path("arr"), path("i"))] }),
    ];
    let got = t.transform(&sources).unwrap();
    assert_eq!(got.len(), 3);
    assert_eq!(got[0], Err(PatchError::ParseError));
    assert_eq!(
        got[1],
        Ok(File {
            exprs: vec![index(on(3), path("arr"), binary(made(), path("i"), BinOp::Sub, lit("1")))]
        })
    );
    assert_eq!(got[2], Err(PatchError::ParseError));
}
