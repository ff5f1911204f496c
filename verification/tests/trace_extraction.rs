use fault_repair::database::model::NewLocInfo;
use fault_repair::fault_localization::extract::{
    add_frame, extract_backtrace, find_dependencies, frame_header, frame_location, FaultLoc,
    FrameHeader, FrameLocation, Score,
};
use fault_repair::fault_localization::text::{last_segment_of, parse_decimal, starts_with_text};
use fault_repair::utils::{insert_dependency, insert_loc_info, GraphStore};

fn lines(text: &[&str]) -> Vec<String> {
    text.iter().map(|l| l.to_string()).collect()
}

fn groups(text: &[&str]) -> Vec<Option<String>> {
    text.iter().map(|l| Some(l.to_string())).collect()
}

fn frame(ident: &str, path: &str, line: usize, col: usize, depth: i32) -> FaultLoc {
    FaultLoc {
        ident: ident.to_string(),
        line_num: line,
        col_num: col,
        file_path: path.to_string(),
        is_dep: false,
        depth,
        score: Score { num: 0, den: 1 },
    }
}

fn dep(ident: &str, path: &str, line: usize, col: usize, depth: i32) -> FaultLoc {
    FaultLoc { is_dep: true, ..frame(ident, path, line, col, depth) }
}

fn store_with_edge() -> GraphStore {
    let mut store = GraphStore::new();
    let a = insert_loc_info(
        &mut store,
        NewLocInfo { ident: "total", line_num: 10, col_num: 5, file_path: "/proj/src/a.rs" },
    );
    let b = insert_loc_info(
        &mut store,
        NewLocInfo { ident: "count", line_num: 4, col_num: 9, file_path: "/proj/src/b.rs" },
    );
    let c = insert_loc_info(
        &mut store,
        NewLocInfo { ident: "step", line_num: 7, col_num: 1, file_path: "/proj/src/a.rs" },
    );
    insert_dependency(&mut store, a, b);
    insert_dependency(&mut store, a, c);
    insert_dependency(&mut store, b, c);
    store
}

#[test]
fn a_single_frame_without_edges_gives_one_candidate() {
    let store = GraphStore::new();
    let trace = lines(&["0: 0x1 - foo::bar", "   at /proj/src/a.rs:10:5"]);
    let got = extract_backtrace(&store, &trace);
    assert_eq!(got, vec![frame("bar", "/proj/src/a.rs", 10, 5, 0)]);
}

#[test]
fn the_name_is_the_last_segment_of_the_path() {
    let store = GraphStore::new();
    let trace = lines(&[
        "  12: 0x55d0aa - app::engine::run::h0123",
        "             at /proj/src/engine.rs:42:17",
        "  13: 0x55d0ab - main",
        "             at /proj/src/main.rs:3:1",
    ]);
    let got = extract_backtrace(&store, &trace);
    assert_eq!(
        got,
        vec![
            frame("h0123", "/proj/src/engine.rs", 42, 17, 12),
            frame("main", "/proj/src/main.rs", 3, 1, 13),
        ]
    );
}

#[test]
fn frames_of_the_runtime_are_left_out() {
    let store = GraphStore::new();
    let trace = lines(&[
        "0: 0xabc - core::panicking::panic",
        "   at /rustc/9f1bc/library/core/src/panicking.rs:66:5",
        "1: 0xabd - app::f",
        "   at /proj/src/lib.rs:8:2",
    ]);
    let got = extract_backtrace(&store, &trace);
    assert_eq!(got, vec![frame("f", "/proj/src/lib.rs", 8, 2, 1)]);
}

#[test]
fn a_header_without_its_location_is_dropped() {
    let store = GraphStore::new();
    let trace = lines(&[
        "0: 0x1 - app::lost",
        "1: 0x2 - app::also_lost",
        "   at /proj/src/a.rs:1:1",
        "note: some text",
        "2: 0x3 - app::kept",
        "   at /proj/src/a.rs:2:2",
    ]);
    // The line after a header is read as a location only: the second
    // header is consumed with the first, and the location that follows
    // stands alone.
    let got = extract_backtrace(&store, &trace);
    assert_eq!(got, vec![frame("kept", "/proj/src/a.rs", 2, 2, 2)]);
}

#[test]
fn malformed_lines_are_passed_over() {
    let store = GraphStore::new();
    let trace = lines(&[
        "thread 'main' panicked at src/main.rs:2:5:",
        "stack backtrace:",
        "",
        "   at /proj/src/a.rs:1:1",
        "x: 0x1 - app::f",
    ]);
    assert_eq!(extract_backtrace(&store, &trace), vec![]);
    assert_eq!(extract_backtrace(&store, &vec![]), vec![]);
}

#[test]
fn a_depth_too_large_for_the_machine_drops_the_frame() {
    let store = GraphStore::new();
    let trace = lines(&["99999999999: 0x1 - app::f", "   at /proj/src/a.rs:1:1"]);
    assert_eq!(extract_backtrace(&store, &trace), vec![]);
    let trace = lines(&["2147483647: 0x1 - app::f", "   at /proj/src/a.rs:1:1"]);
    assert_eq!(
        extract_backtrace(&store, &trace),
        vec![frame("f", "/proj/src/a.rs", 1, 1, 2147483647)]
    );
}

#[test]
fn a_line_number_too_large_counts_as_zero() {
    let store = GraphStore::new();
    let trace = lines(&["0: 0x1 - app::f", "   at /proj/src/a.rs:99999999999999999999999:7"]);
    assert_eq!(extract_backtrace(&store, &trace), vec![frame("f", "/proj/src/a.rs", 0, 7, 0)]);
}

#[test]
fn dependencies_follow_their_frame() {
    let store = store_with_edge();
    let trace = lines(&[
        "3: 0x1 - app::total",
        "   at /proj/src/a.rs:10:5",
        "4: 0x2 - app::other",
        "   at /proj/src/c.rs:1:1",
    ]);
    let got = extract_backtrace(&store, &trace);
    assert_eq!(
        got,
        vec![
            frame("total", "/proj/src/a.rs", 10, 5, 3),
            dep("count", "/proj/src/b.rs", 4, 9, 3),
            dep("step", "/proj/src/a.rs", 7, 1, 3),
            frame("other", "/proj/src/c.rs", 1, 1, 4),
        ]
    );
}

#[test]
fn expansion_goes_one_step_only() {
    // b depends on c, but b is reached as a dependency: its own edges are
    // not followed.
    let store = store_with_edge();
    let got = find_dependencies(&store, frame("count", "/proj/src/b.rs", 4, 9, 2));
    assert_eq!(got, vec![dep("step", "/proj/src/a.rs", 7, 1, 2)]);
    let got = find_dependencies(&store, frame("total", "/proj/src/a.rs", 10, 5, 6));
    assert_eq!(
        got,
        vec![dep("count", "/proj/src/b.rs", 4, 9, 6), dep("step", "/proj/src/a.rs", 7, 1, 6)]
    );
}

#[test]
fn a_location_without_a_record_has_no_dependencies() {
    let store = store_with_edge();
    assert_eq!(find_dependencies(&store, frame("x", "/proj/src/zz.rs", 1, 1, 0)), vec![]);
    assert_eq!(find_dependencies(&store, frame("x", "/proj/src/a.rs", usize::MAX, 5, 0)), vec![]);
}

#[test]
fn an_edge_to_a_missing_record_is_skipped() {
    let mut store = GraphStore::new();
    let a = insert_loc_info(
        &mut store,
        NewLocInfo { ident: "a", line_num: 1, col_num: 1, file_path: "/p/a.rs" },
    );
    insert_dependency(&mut store, a, 77);
    assert_eq!(find_dependencies(&store, frame("a", "/p/a.rs", 1, 1, 0)), vec![]);
}

#[test]
fn no_coordinate_is_given_twice() {
    let store = store_with_edge();
    let trace = lines(&[
        "0: 0x1 - app::step",
        "   at /proj/src/a.rs:7:1",
        "1: 0x2 - app::total",
        "   at /proj/src/a.rs:10:5",
        "2: 0x3 - app::total_again",
        "   at /proj/src/a.rs:10:5",
        "3: 0x4 - app::count",
        "   at /proj/src/b.rs:4:9",
    ]);
    let got = extract_backtrace(&store, &trace);
    assert_eq!(
        got,
        vec![
            frame("step", "/proj/src/a.rs", 7, 1, 0),
            frame("total", "/proj/src/a.rs", 10, 5, 1),
            dep("count", "/proj/src/b.rs", 4, 9, 1),
        ]
    );
    for i in 0..got.len() {
        for j in (i + 1)..got.len() {
            assert!(
                (&got[i].file_path, got[i].line_num, got[i].col_num)
                    != (&got[j].file_path, got[j].line_num, got[j].col_num)
            );
        }
    }
}

#[test]
fn frame_header_reads_depth_and_name() {
    let got = frame_header(&groups(&["3: 0x1f - a::b::c", "3", "a::b::c"]));
    assert_eq!(got, Some(FrameHeader { depth: 3, ident: "c".to_string() }));
    assert_eq!(frame_header(&groups(&["x", "3"])), None);
    assert_eq!(frame_header(&groups(&["x", "", "a"])), None);
    assert_eq!(frame_header(&groups(&["x", "-3", "a"])), None);
    assert_eq!(frame_header(&groups(&["x", "2147483648", "a"])), None);
    assert_eq!(frame_header(&groups(&["x", "٣", "a"])), None);
    assert_eq!(frame_header(&vec![Some("x".to_string()), Some("3".to_string()), None]), None);
    assert_eq!(frame_header(&vec![Some("x".to_string()), None, Some("a".to_string())]), None);
}

#[test]
fn frame_location_reads_path_line_and_column() {
    let got = frame_location(&groups(&["at /p/a.rs:10:5", "/p/a.rs", "10", "5"]));
    assert_eq!(
        got,
        Some(FrameLocation { file_path: "/p/a.rs".to_string(), line_num: 10, col_num: 5 })
    );
    let got = frame_location(&groups(&["at /p/a.rs:x:5", "/p/a.rs", "x", "5"]));
    assert_eq!(
        got,
        Some(FrameLocation { file_path: "/p/a.rs".to_string(), line_num: 0, col_num: 5 })
    );
    assert_eq!(frame_location(&groups(&["at /p/a.rs:10:5", "/p/a.rs", "10"])), None);
    let missing = vec![Some("x".to_string()), Some("/p/a.rs".to_string()), None, Some("5".to_string())];
    assert_eq!(frame_location(&missing), None);
}

#[test]
fn add_frame_keeps_what_was_there() {
    let store = store_with_edge();
    let mut out = vec![frame("count", "/proj/src/b.rs", 4, 9, 0)];
    add_frame(
        &mut out,
        &store,
        FrameHeader { depth: 5, ident: "total".to_string() },
        FrameLocation { file_path: "/proj/src/a.rs".to_string(), line_num: 10, col_num: 5 },
    );
    assert_eq!(
        out,
        vec![
            frame("count", "/proj/src/b.rs", 4, 9, 0),
            frame("total", "/proj/src/a.rs", 10, 5, 5),
            dep("step", "/proj/src/a.rs", 7, 1, 5),
        ]
    );
}

#[test]
fn decimal_numbers_are_read_exactly() {
    assert_eq!(parse_decimal("0", 10), Some(0));
    assert_eq!(parse_decimal("007", 10), Some(7));
    assert_eq!(parse_decimal("10", 10), Some(10));
    assert_eq!(parse_decimal("11", 10), None);
    assert_eq!(parse_decimal("", 10), None);
    assert_eq!(parse_decimal("1a", 100), None);
    assert_eq!(parse_decimal("+1", 100), None);
    assert_eq!(parse_decimal("18446744073709551615", u64::MAX), Some(u64::MAX));
    assert_eq!(parse_decimal("18446744073709551616", u64::MAX), None);
}

#[test]
fn segments_are_split_left_to_right() {
    assert_eq!(last_segment_of("a::b::c"), "c");
    assert_eq!(last_segment_of("abc"), "abc");
    assert_eq!(last_segment_of("a::"), "");
    assert_eq!(last_segment_of(""), "");
    assert_eq!(last_segment_of("a:::b"), ":b");
    assert_eq!(last_segment_of("a:b"), "a:b");
}

#[test]
fn a_prefix_is_found_at_the_start_only() {
    assert!(starts_with_text("/rustc/9f1bc/library/core/src/panicking.rs", "/rustc"));
    assert!(starts_with_text("/rustc", "/rustc"));
    assert!(!starts_with_text("/home/u/.rustup/rustc/lib.rs", "/rustc"));
    assert!(!starts_with_text("/rust/c", "/rustc"));
    assert!(!starts_with_text("/rus", "/rustc"));
    assert!(starts_with_text("abc", ""));
}

#[test]
fn a_path_that_only_holds_the_marker_is_kept() {
    let store = GraphStore::new();
    let trace = lines(&["2: 0x1 - app::g", "   at /home/u/rustc/src/lib.rs:8:2"]);
    let got = extract_backtrace(&store, &trace);
    assert_eq!(got, vec![frame("g", "/home/u/rustc/src/lib.rs", 8, 2, 2)]);
}
