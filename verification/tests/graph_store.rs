use fault_repair::database::model::{Dependency, LocInfo, NewLocInfo};
use fault_repair::graph::{
    BodyId, Declaration, DependencyGraph, Expr, GraphEntry, GraphVisitor, Item, Local, Node,
    NodeKind, Pat, PatKind, Path, Res, Segment, SourcePos,
};
use fault_repair::utils::{
    insert_dependency, insert_dependency_graph, insert_loc_info, select_dep, select_loc_info,
    select_loc_info_by_id, GraphStore, StoreError,
};

fn row(id: i32, ident: &str, line: i32, col: i32, path: &str) -> LocInfo {
    LocInfo { id, ident: ident.to_string(), line_num: line, col_num: col, file_path: path.to_string() }
}

fn pos(path: &str, line: usize, col: usize) -> SourcePos {
    SourcePos { line, col, file_path: path.to_string() }
}

fn loc(ident: &str, path: &str, line: usize, col: usize) -> fault_repair::graph::LocInfo {
    fault_repair::graph::LocInfo {
        ident: ident.to_string(),
        line_num: line,
        col_num: col,
        file_path: path.to_string(),
    }
}

/// A path that names the local `ident`, written at `at`, declared at `decl`.
fn local(ident: &str, at: SourcePos, decl: Option<(NodeKind, SourcePos)>) -> Expr {
    Expr::Path(Some(Path {
        res: Res::Local(decl.map(|(kind, pos)| Declaration { kind, pos })),
        last_segment: Some(Segment { ident: ident.to_string(), pos: at }),
    }))
}

fn binding(ident: &str, at: SourcePos) -> Pat {
    Pat { kind: PatKind::Binding { ident: ident.to_string(), subpattern: false }, pos: at }
}

#[test]
fn an_inserted_location_is_found_at_its_coordinate() {
    let mut store = GraphStore::new();
    let id = insert_loc_info(
        &mut store,
        NewLocInfo { ident: "x", line_num: 3, col_num: 9, file_path: "/p/a.rs" },
    );
    assert_eq!(id, 1);
    let found = select_loc_info(&store, "/p/a.rs".to_string(), 3, 9);
    assert_eq!(found, Ok(row(1, "x", 3, 9, "/p/a.rs")));
    assert_eq!(select_loc_info_by_id(&store, 1), Ok(row(1, "x", 3, 9, "/p/a.rs")));
}

#[test]
fn a_missing_location_is_not_found() {
    let mut store = GraphStore::new();
    assert_eq!(select_loc_info(&store, "/p/a.rs".to_string(), 3, 9), Err(StoreError::NotFound));
    assert_eq!(select_loc_info_by_id(&store, 1), Err(StoreError::NotFound));
    insert_loc_info(&mut store, NewLocInfo { ident: "x", line_num: 3, col_num: 9, file_path: "/p/a.rs" });
    assert_eq!(select_loc_info(&store, "/p/a.rs".to_string(), 3, 8), Err(StoreError::NotFound));
    assert_eq!(select_loc_info(&store, "/p/a.rs".to_string(), 4, 9), Err(StoreError::NotFound));
    assert_eq!(select_loc_info(&store, "/p/b.rs".to_string(), 3, 9), Err(StoreError::NotFound));
    assert_eq!(select_loc_info_by_id(&store, 2), Err(StoreError::NotFound));
}

#[test]
fn inserting_twice_stores_twice_and_the_first_is_found() {
    let mut store = GraphStore::new();
    let a = insert_loc_info(&mut store, NewLocInfo { ident: "old", line_num: 1, col_num: 1, file_path: "/p/a.rs" });
    let b = insert_loc_info(&mut store, NewLocInfo { ident: "new", line_num: 1, col_num: 1, file_path: "/p/a.rs" });
    assert_eq!((a, b), (1, 2));
    assert_eq!(store.locations().len(), 2);
    assert_eq!(select_loc_info(&store, "/p/a.rs".to_string(), 1, 1), Ok(row(1, "old", 1, 1, "/p/a.rs")));
    assert_eq!(select_loc_info_by_id(&store, 2), Ok(row(2, "new", 1, 1, "/p/a.rs")));
}

#[test]
fn the_edges_from_a_location_are_exactly_those_that_leave_it() {
    let mut store = GraphStore::new();
    insert_dependency(&mut store, 1, 2);
    insert_dependency(&mut store, 2, 3);
    insert_dependency(&mut store, 1, 3);
    insert_dependency(&mut store, 1, 2);
    insert_dependency(&mut store, 3, 1);
    let from_one = select_dep(&store, &row(1, "a", 0, 0, "/p"));
    assert_eq!(
        from_one,
        vec![
            Dependency { id: 1, lhs_id: 1, rhs_id: 2 },
            Dependency { id: 3, lhs_id: 1, rhs_id: 3 },
            Dependency { id: 4, lhs_id: 1, rhs_id: 2 },
        ]
    );
    assert_eq!(select_dep(&store, &row(2, "b", 0, 0, "/p")), vec![Dependency { id: 2, lhs_id: 2, rhs_id: 3 }]);
    assert_eq!(select_dep(&store, &row(9, "z", 0, 0, "/p")), vec![]);
    assert_eq!(store.edges().len(), 5);
}

#[test]
fn a_store_read_from_rows_goes_on_above_their_identifiers() {
    let rows = vec![row(7, "a", 1, 1, "/p"), row(3, "b", 2, 2, "/p")];
    let deps = vec![Dependency { id: 40, lhs_id: 7, rhs_id: 3 }];
    let mut store = GraphStore::from_rows(rows, deps).unwrap();
    let id = insert_loc_info(&mut store, NewLocInfo { ident: "c", line_num: 3, col_num: 3, file_path: "/p" });
    assert_eq!(id, 8);
    insert_dependency(&mut store, 3, 8);
    assert_eq!(select_dep(&store, &row(3, "b", 2, 2, "/p")), vec![Dependency { id: 41, lhs_id: 3, rhs_id: 8 }]);
    assert!(GraphStore::from_rows(vec![row(i32::MAX, "a", 1, 1, "/p")], vec![]).is_none());
    assert!(GraphStore::from_rows(vec![], vec![Dependency { id: i32::MAX, lhs_id: 1, rhs_id: 1 }]).is_none());
}

#[test]
fn an_assignment_records_what_its_value_comes_from() {
    // x = y + f(z)   in /p/a.rs
    let y = local("y", pos("/p/a.rs", 5, 9), Some((NodeKind::Local, pos("/p/a.rs", 2, 5))));
    let f = local("f", pos("/p/a.rs", 5, 13), Some((NodeKind::Item, pos("/p/a.rs", 20, 1))));
    let rhs = Expr::Binary(Box::new(y), Box::new(Expr::Call(Box::new(f))));
    let lhs = local("x", pos("/p/a.rs", 5, 5), Some((NodeKind::Local, pos("/p/a.rs", 1, 5))));
    let mut visitor = GraphVisitor::new(DependencyGraph::new());
    visitor.visit_expr(&Expr::Assign(Box::new(lhs), Box::new(rhs)));
    assert_eq!(
        visitor.graph.entries(),
        &vec![GraphEntry {
            lhs: loc("x", "/p/a.rs", 5, 5),
            rhs: vec![loc("y", "/p/a.rs", 2, 5), loc("f", "/p/a.rs", 20, 1)],
        }]
    );
}

#[test]
fn a_second_assignment_to_a_location_adds_to_its_entry() {
    let a = || local("a", pos("/p/a.rs", 9, 9), Some((NodeKind::Pat, pos("/p/a.rs", 1, 1))));
    let b = || local("b", pos("/p/a.rs", 9, 9), Some((NodeKind::Expr, pos("/p/a.rs", 2, 2))));
    let x = |name: &str| local(name, pos("/p/a.rs", 5, 5), None);
    let mut visitor = GraphVisitor::new(DependencyGraph::new());
    visitor.visit_expr(&Expr::Assign(Box::new(x("x")), Box::new(a())));
    visitor.visit_expr(&Expr::AssignOp(Box::new(x("renamed")), Box::new(b())));
    visitor.visit_expr(&Expr::AssignOp(Box::new(x("x")), Box::new(a())));
    assert_eq!(
        visitor.graph.entries(),
        &vec![GraphEntry {
            lhs: loc("x", "/p/a.rs", 5, 5),
            rhs: vec![loc("a", "/p/a.rs", 1, 1), loc("b", "/p/a.rs", 2, 2), loc("a", "/p/a.rs", 1, 1)],
        }]
    );
}

#[test]
fn what_does_not_resolve_contributes_nothing() {
    let x = || local("x", pos("/p/a.rs", 5, 5), None);
    let mut visitor = GraphVisitor::new(DependencyGraph::new());
    // The value names a local whose declaration is unknown, a node of
    // another kind, a path that is not resolved, and a literal.
    let unknown = local("u", pos("/p/a.rs", 5, 9), None);
    let other = local("o", pos("/p/a.rs", 5, 9), Some((NodeKind::Other, pos("/p/a.rs", 1, 1))));
    let global = Expr::Path(Some(Path {
        res: Res::Other,
        last_segment: Some(Segment { ident: "G".to_string(), pos: pos("/p/a.rs", 5, 9) }),
    }));
    for value in [unknown, other, global, Expr::Path(None), Expr::Other] {
        visitor.visit_expr(&Expr::Assign(Box::new(x()), Box::new(value)));
    }
    // The target is neither a path nor a field access.
    let y = local("y", pos("/p/a.rs", 6, 9), Some((NodeKind::Local, pos("/p/a.rs", 2, 5))));
    visitor.visit_expr(&Expr::Assign(Box::new(Expr::Call(Box::new(x()))), Box::new(y)));
    visitor.visit_expr(&Expr::Other);
    assert_eq!(visitor.graph.entries(), &vec![]);
    assert_eq!(visitor.extract_loc_infos(&Expr::Binary(Box::new(Expr::Other), Box::new(Expr::Other))), Some(vec![]));
}

#[test]
fn an_assignment_to_a_field_is_recorded_for_the_field() {
    // s.f = v, with v declared at 2:9
    let s = local("s", pos("/p/a.rs", 7, 5), Some((NodeKind::Local, pos("/p/a.rs", 1, 9))));
    let v = || local("v", pos("/p/a.rs", 7, 11), Some((NodeKind::Local, pos("/p/a.rs", 2, 9))));
    let field = Segment { ident: "f".to_string(), pos: pos("/p/a.rs", 7, 7) };
    let target = Expr::Field(Box::new(s), field);
    let mut visitor = GraphVisitor::new(DependencyGraph::new());
    assert_eq!(visitor.extract_loc_info(&target), Some(loc("f", "/p/a.rs", 7, 7)));
    visitor.visit_expr(&Expr::Assign(Box::new(target), Box::new(v())));
    assert_eq!(
        visitor.graph.entries(),
        &vec![GraphEntry { lhs: loc("f", "/p/a.rs", 7, 7), rhs: vec![loc("v", "/p/a.rs", 2, 9)] }]
    );
}

#[test]
fn an_item_contributes_its_declaration() {
    // x = f(..) and x = LIMIT, with f and LIMIT items of the program
    let item = |name: &str, at: SourcePos, decl: SourcePos| {
        Expr::Path(Some(Path {
            res: Res::Item(Some(Declaration { kind: NodeKind::Item, pos: decl })),
            last_segment: Some(Segment { ident: name.to_string(), pos: at }),
        }))
    };
    let visitor = GraphVisitor::new(DependencyGraph::new());
    let call = Expr::Call(Box::new(item("f", pos("/p/a.rs", 5, 9), pos("/p/lib.rs", 40, 1))));
    assert_eq!(visitor.extract_loc_infos(&call), Some(vec![loc("f", "/p/lib.rs", 40, 1)]));
    let constant = item("LIMIT", pos("/p/a.rs", 6, 9), pos("/p/lib.rs", 3, 1));
    assert_eq!(visitor.extract_loc_infos(&constant), Some(vec![loc("LIMIT", "/p/lib.rs", 3, 1)]));
    let unknown = Expr::Path(Some(Path {
        res: Res::Item(None),
        last_segment: Some(Segment { ident: "g".to_string(), pos: pos("/p/a.rs", 7, 9) }),
    }));
    assert_eq!(visitor.extract_loc_infos(&unknown), None);
}

#[test]
fn a_method_call_needs_a_current_body() {
    let call = || Expr::MethodCall {
        method_name: "len".to_string(),
        implementation: Some(pos("/p/v.rs", 30, 5)),
    };
    let unresolved = Expr::MethodCall { method_name: "len".to_string(), implementation: None };
    let mut visitor = GraphVisitor::new(DependencyGraph::new());
    assert_eq!(visitor.extract_loc_infos(&call()), None);
    visitor.visit_item(&Item::Other);
    assert_eq!(visitor.current_body_id, None);
    visitor.visit_item(&Item::Trait(vec![None, None]));
    assert_eq!(visitor.current_body_id, None);
    visitor.visit_item(&Item::Trait(vec![Some(BodyId { id: 4 }), None, Some(BodyId { id: 6 }), None]));
    assert_eq!(visitor.current_body_id, Some(BodyId { id: 6 }));
    visitor.visit_item(&Item::Fn(BodyId { id: 9 }));
    assert_eq!(visitor.current_body_id, Some(BodyId { id: 9 }));
    assert_eq!(visitor.extract_loc_infos(&call()), Some(vec![loc("len", "/p/v.rs", 30, 5)]));
    assert_eq!(visitor.extract_loc_infos(&unresolved), None);
}

#[test]
fn an_initialized_local_is_an_assignment_to_its_name() {
    let y = || local("y", pos("/p/a.rs", 3, 13), Some((NodeKind::Local, pos("/p/a.rs", 2, 9))));
    let mut visitor = GraphVisitor::new(DependencyGraph::new());
    visitor.visit_local(&Local { pat: binding("x", pos("/p/a.rs", 3, 9)), init: Some(y()) });
    visitor.visit_local(&Local { pat: binding("z", pos("/p/a.rs", 4, 9)), init: None });
    visitor.visit_local(&Local {
        pat: Pat { kind: PatKind::Other, pos: pos("/p/a.rs", 5, 9) },
        init: Some(y()),
    });
    visitor.visit_local(&Local {
        pat: Pat {
            kind: PatKind::Binding { ident: "w".to_string(), subpattern: true },
            pos: pos("/p/a.rs", 6, 9),
        },
        init: Some(y()),
    });
    visitor.visit_local(&Local { pat: binding("v", pos("/p/a.rs", 7, 9)), init: Some(Expr::Other) });
    assert_eq!(
        visitor.graph.entries(),
        &vec![GraphEntry { lhs: loc("x", "/p/a.rs", 3, 9), rhs: vec![loc("y", "/p/a.rs", 2, 9)] }]
    );
}

#[test]
fn a_file_without_assignments_gets_no_entry() {
    let y = || local("y", pos("/p/b.rs", 3, 13), Some((NodeKind::Local, pos("/p/quiet.rs", 2, 9))));
    let nodes = vec![
        Node::Item(Item::Fn(BodyId { id: 1 })),
        Node::Expr(y()),
        Node::Expr(Expr::MethodCall { method_name: "m".to_string(), implementation: Some(pos("/p/quiet.rs", 1, 1)) }),
        Node::Local(Local { pat: binding("x", pos("/p/b.rs", 3, 9)), init: Some(y()) }),
        Node::Local(Local { pat: binding("q", pos("/p/quiet.rs", 3, 9)), init: None }),
        Node::Expr(Expr::Assign(Box::new(local("x", pos("/p/b.rs", 4, 1), None)), Box::new(y()))),
    ];
    let mut visitor = GraphVisitor::new(DependencyGraph::new());
    visitor.visit_all(&nodes);
    let entries = visitor.graph.entries();
    assert_eq!(entries.len(), 2);
    assert!(entries.iter().all(|e| e.lhs.file_path != "/p/quiet.rs"));
    assert!(entries.iter().all(|e| e.lhs.file_path == "/p/b.rs"));
}

#[test]
fn a_graph_is_stored_entry_by_entry() {
    let y = || local("y", pos("/p/a.rs", 9, 9), Some((NodeKind::Local, pos("/p/a.rs", 2, 5))));
    let z = || local("z", pos("/p/a.rs", 9, 9), Some((NodeKind::Local, pos("/p/a.rs", 3, 5))));
    let mut visitor = GraphVisitor::new(DependencyGraph::new());
    visitor.visit_expr(&Expr::Assign(
        Box::new(local("x", pos("/p/a.rs", 5, 5), None)),
        Box::new(Expr::Binary(Box::new(y()), Box::new(z()))),
    ));
    visitor.visit_expr(&Expr::Assign(Box::new(local("w", pos("/p/a.rs", 6, 5), None)), Box::new(y())));
    let mut store = GraphStore::new();
    assert!(insert_dependency_graph(&mut store, &visitor.graph));
    assert_eq!(
        store.locations(),
        &vec![
            row(1, "x", 5, 5, "/p/a.rs"),
            row(2, "y", 2, 5, "/p/a.rs"),
            row(3, "z", 3, 5, "/p/a.rs"),
            row(4, "w", 6, 5, "/p/a.rs"),
            row(5, "y", 2, 5, "/p/a.rs"),
        ]
    );
    assert_eq!(
        store.edges(),
        &vec![
            Dependency { id: 1, lhs_id: 1, rhs_id: 2 },
            Dependency { id: 2, lhs_id: 1, rhs_id: 3 },
            Dependency { id: 3, lhs_id: 4, rhs_id: 5 },
        ]
    );
}

#[test]
fn a_graph_too_large_for_the_identifiers_left_is_not_stored() {
    let y = || local("y", pos("/p/a.rs", 9, 9), Some((NodeKind::Local, pos("/p/a.rs", 2, 5))));
    let mut visitor = GraphVisitor::new(DependencyGraph::new());
    visitor.visit_expr(&Expr::Assign(Box::new(local("x", pos("/p/a.rs", 5, 5), None)), Box::new(y())));
    let mut store = GraphStore::from_rows(vec![row(i32::MAX - 2, "a", 1, 1, "/p")], vec![]).unwrap();
    assert!(!insert_dependency_graph(&mut store, &visitor.graph));
    assert_eq!(store.locations().len(), 1);
    assert_eq!(store.edges().len(), 0);
    let mut store = GraphStore::from_rows(vec![row(i32::MAX - 3, "a", 1, 1, "/p")], vec![]).unwrap();
    assert!(insert_dependency_graph(&mut store, &visitor.graph));
    assert_eq!(store.locations().len(), 3);
}
