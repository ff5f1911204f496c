use fault_repair::fault_localization::extract::{FaultLoc, Score};
use fault_repair::patch_generation::ast::{BinOp, Expr, ExprBinary, ExprIndex, ExprRange, Span};
use fault_repair::patch_generation::patch::AstVisitor;
use fault_repair::patch_generation::patterns::{ChangeType, PATTERN};

fn at_line(line: usize) -> FaultLoc {
    FaultLoc {
        ident: String::from("f"),
        line_num: line,
        col_num: 1,
        file_path: String::from("/proj/src/a.rs"),
        is_dep: false,
        depth: 0,
        score: Score { num: 0, den: 1 },
    }
}

fn name(text: &str) -> Expr {
    Expr::Path { name: String::from(text) }
}

fn operator(op: &BinOp) -> String {
    match op {
        BinOp::Add => String::from("+"),
        BinOp::Sub => String::from("-"),
        BinOp::AddAssign => String::from("+="),
        BinOp::SubAssign => String::from("-="),
        BinOp::Other(text) => text.clone(),
    }
}

fn operand(e: &Expr) -> String {
    match e {
        Expr::Binary(_) | Expr::Range(_) | Expr::Closure(_) | Expr::Assign(_) => {
            format!("({})", written(e))
        }
        _ => written(e),
    }
}

/// An expression tree as source text, for the parser to read.
fn written(e: &Expr) -> String {
    match e {
        Expr::Lit { text } => text.clone(),
        Expr::Path { name } => name.clone(),
        Expr::Binary(b) => {
            format!("{} {} {}", operand(&b.left), operator(&b.op), operand(&b.right))
        }
        Expr::Index(i) => format!("{}[{}]", operand(&i.base), written(&i.index)),
        Expr::Range(r) => {
            let start = r.start.as_ref().map_or(String::new(), |s| operand(s));
            let end = r.end.as_ref().map_or(String::new(), |s| operand(s));
            let dots = if r.inclusive { "..=" } else { ".." };
            format!("{}{}{}", start, dots, end)
        }
        Expr::MethodCall(m) => {
            let args: Vec<String> = m.args.iter().map(written).collect();
            let turbofish = m.turbofish.as_ref().map_or(String::new(), |t| format!("::{}", t));
            format!("{}.{}{}({})", operand(&m.receiver), m.method, turbofish, args.join(", "))
        }
        Expr::Closure(c) => format!("{} {}", c.head, written(&c.body)),
        Expr::Assign(a) => format!("{} = {}", operand(&a.left), written(&a.right)),
        Expr::Other { text, .. } => text.clone(),
    }
}

fn patched(line: usize, pattern: PATTERN, e: Expr) -> String {
    let loc = at_line(line);
    let visitor = AstVisitor::new(&loc, pattern);
    let mut e = e;
    visitor.visit_expr_mut(&mut e);
    format!("fn f() {{ let _ = {}; }}", written(&e))
}

/// The source as `prettyplease` prints it, once `syn` has parsed it.
fn pretty_printed(source: &str) -> String {
    let file = syn::parse_file(source).expect("the source parses");
    prettyplease::unparse(&file)
}

#[test]
fn printing_a_shifted_index_again_changes_nothing() {
    let e = Expr::Index(ExprIndex {
        span: Span { start_line: 10, end_line: 10 },
        base: Box::new(name("arr")),
        index: Box::new(name("i")),
    });
    let once = pretty_printed(&patched(10, PATTERN::IndexMutate, e));
    assert!(once.contains("arr[i - 1]"));
    let twice = pretty_printed(&once);
    assert_eq!(once, twice);
}

#[test]
fn printing_a_shifted_range_again_changes_nothing() {
    let range = Expr::Range(ExprRange {
        start: Some(Box::new(name("a"))),
        inclusive: false,
        end: None,
    });
    let e = Expr::Index(ExprIndex {
        span: Span { start_line: 4, end_line: 4 },
        base: Box::new(name("arr")),
        index: Box::new(range),
    });
    let once = pretty_printed(&patched(4, PATTERN::IndexMutate, e));
    assert!(once.contains("arr[(a - 1)..]"));
    let twice = pretty_printed(&once);
    assert_eq!(once, twice);
}

#[test]
fn printing_a_saturating_sum_again_changes_nothing() {
    let e = Expr::Binary(ExprBinary {
        span: Span { start_line: 7, end_line: 7 },
        left: Box::new(name("x")),
        op: BinOp::Add,
        right: Box::new(name("y")),
    });
    let once = pretty_printed(&patched(7, PATTERN::McChange(ChangeType::ToSaturating), e));
    assert!(once.contains("0 + x.saturating_add(y)"));
    let twice = pretty_printed(&once);
    assert_eq!(once, twice);
}
