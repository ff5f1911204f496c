//! Dependency trees: a location together with everything that its value
//! comes from, step after step along the edges of the store.
//!
//! The graph may hold cycles. A tree never enters a location that it holds
//! already, so it is finite, and no larger than the store.

use vstd::prelude::*;
use std::collections::HashSet;
use crate::database::model::{Dependency, LocInfo, LocInfoView};
use crate::fault_localization::text::{
    decimal_up_to, fields, occurs_at, parse_decimal, split_fields, starts_with_text, texts_view,
};
use crate::utils::{
    edges_leaving, first_at, first_with_id, select_dep, select_loc_info, select_loc_info_by_id,
    GraphStore, GraphStoreView,
};

verus! {

/// A location and the trees of the locations that its value comes from.
#[derive(Debug, PartialEq, Eq)]
pub struct LocInfoWithDep {
    pub ident: String,
    pub line_num: usize,
    pub col_num: usize,
    pub file_path: String,
    /// `None` where the value comes from nothing that is stored.
    pub dep: Option<Vec<LocInfoWithDep>>,
}

/// The mathematical value of a [`LocInfoWithDep`].
#[verifier::ext_equal]
pub struct LocInfoWithDepView {
    pub ident: Seq<char>,
    pub line_num: nat,
    pub col_num: nat,
    pub file_path: Seq<char>,
    pub dep: Option<Seq<LocInfoWithDepView>>,
}

/// The values of a list of trees, in order.
pub open spec fn trees_view(v: Seq<LocInfoWithDep>) -> Seq<LocInfoWithDepView>
    decreases v,
{
    Seq::new(
        v.len(),
        |i: int|
            if 0 <= i < v.len() {
                tree_view(&v[i])
            } else {
                leaf(Seq::empty(), 0, 0, Seq::empty())
            },
    )
}

/// A tree without branches.
pub open spec fn leaf(ident: Seq<char>, line_num: nat, col_num: nat, file_path: Seq<char>)
    -> LocInfoWithDepView {
    LocInfoWithDepView { ident, line_num, col_num, file_path, dep: None }
}

/// The value of a tree.
pub open spec fn tree_view(t: &LocInfoWithDep) -> LocInfoWithDepView
    decreases t,
{
    LocInfoWithDepView {
        ident: t.ident@,
        line_num: t.line_num as nat,
        col_num: t.col_num as nat,
        file_path: t.file_path@,
        dep: match &t.dep {
            Some(branches) => Some(trees_view(branches@)),
            None => None,
        },
    }
}

impl View for LocInfoWithDep {
    type V = LocInfoWithDepView;

    open spec fn view(&self) -> LocInfoWithDepView {
        tree_view(self)
    }
}

/// The identifiers of a set as numbers.
pub open spec fn marked(ids: Set<i32>) -> Set<int> {
    Set::new(|id: int| i32::MIN <= id <= i32::MAX && ids.contains(id as i32))
}

/// The tree of a stored location, `steps` steps deep at most, and the
/// identifiers visited once it is built. `visited` holds the identifiers
/// visited before, that of the location itself among them.
pub open spec fn tree_of(store: GraphStoreView, row: LocInfoView, visited: Set<int>, steps: nat)
    -> (LocInfoWithDepView, Set<int>)
    decreases steps, 0nat,
{
    let (branches, after) = if steps == 0 {
        (Seq::empty(), visited)
    } else {
        let edges = edges_leaving(store.dependencies, row.id);
        branches_of(store, edges, visited, (steps - 1) as nat, edges.len())
    };
    (
        LocInfoWithDepView {
            ident: row.ident,
            line_num: (row.line_num as usize) as nat,
            col_num: (row.col_num as usize) as nat,
            file_path: row.file_path,
            dep: if branches.len() == 0 {
                None
            } else {
                Some(branches)
            },
        },
        after,
    )
}

/// The trees behind the first `n` of `edges`, and the identifiers visited
/// once they are built: for each edge in order, the tree of the stored
/// location it leads to. An edge that leads to no stored location, or to
/// one visited before, in this branch or in any built earlier, gives none.
pub open spec fn branches_of(
    store: GraphStoreView,
    edges: Seq<Dependency>,
    visited: Set<int>,
    steps: nat,
    n: nat,
) -> (Seq<LocInfoWithDepView>, Set<int>)
    decreases steps, n,
{
    if n == 0 {
        (Seq::empty(), visited)
    } else {
        let (before, so_far) = branches_of(store, edges, visited, steps, (n - 1) as nat);
        match first_with_id(store.loc_info, edges[n - 1].rhs_id as int) {
            Some(row) => if so_far.contains(row.id) {
                (before, so_far)
            } else {
                let (tree, after) = tree_of(store, row, so_far.insert(row.id), steps);
                (before.push(tree), after)
            },
            None => (before, so_far),
        }
    }
}

/// The tree of a stored location whose identifier is among `visited`,
/// `steps` steps deep at most.
fn grow(store: &GraphStore, row: LocInfo, visited: &mut HashSet<i32>, steps: usize) -> (r:
    LocInfoWithDep)
    ensures
        (r@, marked(final(visited)@)) == tree_of(
            store@,
            row@,
            marked(old(visited)@),
            steps as nat,
        ),
    decreases steps,
{
    let ghost start = marked(visited@);
    let mut buf: Vec<LocInfoWithDep> = Vec::new();
    assert(trees_view(buf@) =~= Seq::empty());
    if steps > 0 {
        let dep_vec = select_dep(store, &row);
        let mut i: usize = 0;
        while i < dep_vec.len()
            invariant
                i <= dep_vec@.len(),
                steps > 0,
                (trees_view(buf@), marked(visited@)) == branches_of(
                    store@,
                    dep_vec@,
                    start,
                    (steps - 1) as nat,
                    i as nat,
                ),
            decreases dep_vec@.len() - i,
        {
            let ghost before = trees_view(buf@);
            let ghost so_far = marked(visited@);
            match select_loc_info_by_id(store, dep_vec[i].rhs_id) {
                Ok(r_loc_info) => {
                    if !visited.contains(&r_loc_info.id) {
                        visited.insert(r_loc_info.id);
                        assert(marked(visited@) =~= so_far.insert(r_loc_info.id as int));
                        let branch = grow(store, r_loc_info, visited, steps - 1);
                        buf.push(branch);
                        assert(trees_view(buf@) =~= before.push(branch@));
                    }
                },
                Err(_) => {},
            }
            i += 1;
        }
    }
    let dep = if buf.len() == 0 {
        None
    } else {
        Some(buf)
    };
    LocInfoWithDep {
        ident: row.ident,
        line_num: row.line_num as usize,
        col_num: row.col_num as usize,
        file_path: row.file_path,
        dep,
    }
}

/// The dependency tree of a stored location. The tree follows every edge
/// that leaves a location, in their order, except into a location that
/// the tree holds already: no location stands in a tree twice, so a cycle
/// is not followed round, and a location reached by two ways is expanded
/// on the first only. The tree is never deeper than the store has
/// locations.
#[allow(non_snake_case)]
pub fn create_LocInfoWithDep(store: &GraphStore, newloc: LocInfo) -> (r: LocInfoWithDep)
    ensures
        r@ == tree_of(store@, newloc@, set![newloc.id as int], store@.loc_info.len()).0,
{
    let mut visited: HashSet<i32> = HashSet::new();
    visited.insert(newloc.id);
    assert(marked(visited@) =~= set![newloc.id as int]);
    let steps = store.locations().len();
    grow(store, newloc, &mut visited, steps)
}

/// The pattern of a source coordinate in a trace line: an absolute path
/// to a `.rs` file, a line, and the first digit of a column.
pub open spec fn coordinate_pattern() -> Seq<char> {
    r"(/.*)+\.rs:[0-9]+:[0-9]"@
}

/// The texts that a regular expression matches in a text: the successive
/// matches that do not overlap, in order; none at all if the pattern is no
/// valid regular expression.
pub uninterp spec fn regex_matches(pattern: Seq<char>, text: Seq<char>) -> Seq<Seq<char>>;

/// Compiles `pattern` with `regex::Regex::new` and walks `text` with
/// `Regex::captures_iter`, taking the whole of each match. The contract
/// only names the outcome: it is whatever the regex crate matches for
/// this pattern in this text, an invalid pattern matching nothing.
#[verifier::external_body]
fn matches(pattern: &str, text: &str) -> (r: Vec<String>)
    ensures
        texts_view(r@) == regex_matches(pattern@, text@),
{
    match regex::Regex::new(pattern) {
        Ok(re) => re.captures_iter(text).map(|cap| cap[0].to_string()).collect(),
        Err(_) => Vec::new(),
    }
}

/// The coordinate that a matched text writes: path, line and column, the
/// three fields between its colons. None if the text starts with
/// `/rustc`, has not exactly three fields, or writes a line or a column
/// that is no number of 32 bits with a sign.
pub open spec fn coordinate_of(found: Seq<char>) -> Option<(Seq<char>, int, int)> {
    let parts = fields(found);
    if occurs_at(found, "/rustc"@, 0) || parts.len() != 3 {
        None
    } else {
        match (
            decimal_up_to(parts[1], i32::MAX as nat),
            decimal_up_to(parts[2], i32::MAX as nat),
        ) {
            (Some(line), Some(col)) => Some((parts[0], line as int, col as int)),
            _ => None,
        }
    }
}

/// The coordinate that a matched text writes.
pub fn read_coordinate(found: &str) -> (r: Option<(String, i32, i32)>)
    ensures
        match r {
            Some((path, line, col)) => coordinate_of(found@) == Some(
                (path@, line as int, col as int),
            ),
            None => coordinate_of(found@) is None,
        },
{
    if starts_with_text(found, "/rustc") {
        return None;
    }
    let parts = split_fields(found);
    if parts.len() != 3 {
        return None;
    }
    let line = parse_decimal(parts[1].as_str(), 0x7fff_ffff);
    let col = parse_decimal(parts[2].as_str(), 0x7fff_ffff);
    match (line, col) {
        (Some(line), Some(col)) => Some((parts[0].clone(), line as i32, col as i32)),
        _ => None,
    }
}

/// The trees gathered so far, and the identifiers of their roots.
pub struct Gathered {
    pub trees: Vec<LocInfoWithDep>,
    pub mark: HashSet<i32>,
}

/// The mathematical value of a [`Gathered`].
pub struct GatheredView {
    pub trees: Seq<LocInfoWithDepView>,
    pub mark: Set<int>,
}


impl View for Gathered {
    type V = GatheredView;

    open spec fn view(&self) -> GatheredView {
        GatheredView { trees: trees_view(self.trees@), mark: marked(self.mark@) }
    }
}

/// What is gathered after a matched text: if it writes the coordinate of
/// a stored location that is no root yet, the tree of that location is
/// added and the location marked; else nothing changes.
pub open spec fn with_match(so_far: GatheredView, store: GraphStoreView, found: Seq<char>)
    -> GatheredView {
    match coordinate_of(found) {
        Some((path, line, col)) => match first_at(store.loc_info, path, line, col) {
            Some(row) => if so_far.mark.contains(row.id) {
                so_far
            } else {
                GatheredView {
                    trees: so_far.trees.push(
                        tree_of(store, row, set![row.id], store.loc_info.len()).0,
                    ),
                    mark: so_far.mark.insert(row.id),
                }
            },
            None => so_far,
        },
        None => so_far,
    }
}

/// What is gathered after the first `n` of the matched texts.
pub open spec fn with_matches(
    so_far: GatheredView,
    store: GraphStoreView,
    found: Seq<Seq<char>>,
    n: nat,
) -> GatheredView
    decreases n,
{
    if n == 0 {
        so_far
    } else {
        with_match(with_matches(so_far, store, found, (n - 1) as nat), store, found[n - 1])
    }
}

/// What is gathered after the first `n` lines of a trace.
pub open spec fn traced(store: GraphStoreView, lines: Seq<Seq<char>>, n: nat) -> GatheredView
    decreases n,
{
    if n == 0 {
        GatheredView { trees: Seq::empty(), mark: Set::empty() }
    } else {
        let found = regex_matches(coordinate_pattern(), lines[n - 1]);
        with_matches(traced(store, lines, (n - 1) as nat), store, found, found.len())
    }
}

/// Takes a matched text into what is gathered.
pub fn add_match(so_far: &mut Gathered, store: &GraphStore, found: &str)
    ensures
        final(so_far)@ == with_match(old(so_far)@, store@, found@),
{
    if let Some((path, line, col)) = read_coordinate(found) {
        if let Ok(temp) = select_loc_info(store, path, line, col) {
            if !so_far.mark.contains(&temp.id) {
                let ghost trees = trees_view(so_far.trees@);
                let ghost mark = marked(so_far.mark@);
                let id = temp.id;
                let newquery = create_LocInfoWithDep(store, temp);
                so_far.trees.push(newquery);
                so_far.mark.insert(id);
                assert(trees_view(so_far.trees@) =~= trees.push(newquery@));
                assert(marked(so_far.mark@) =~= mark.insert(id as int));
            }
        }
    }
}

/// The dependency trees of the stored locations that a trace names, in the
/// order of the trace, one tree for each location.
pub fn extract_backtrace(store: &GraphStore, lines: &Vec<String>) -> (r: Vec<LocInfoWithDep>)
    ensures
        trees_view(r@) == traced(store@, texts_view(lines@), lines@.len()).trees,
{
    let mut so_far = Gathered { trees: Vec::new(), mark: HashSet::new() };
    assert(trees_view(so_far.trees@) =~= Seq::empty());
    assert(marked(so_far.mark@) =~= Set::empty());
    let mut i: usize = 0;
    while i < lines.len()
        invariant
            i <= lines@.len(),
            so_far@ == traced(store@, texts_view(lines@), i as nat),
        decreases lines@.len() - i,
    {
        let found = matches(r"(/.*)+\.rs:[0-9]+:[0-9]", lines[i].as_str());
        assert(texts_view(lines@)[i as int] == lines@[i as int]@);
        let ghost start = so_far@;
        let mut k: usize = 0;
        while k < found.len()
            invariant
                k <= found@.len(),
                so_far@ == with_matches(start, store@, texts_view(found@), k as nat),
            decreases found@.len() - k,
        {
            add_match(&mut so_far, store, found[k].as_str());
            k += 1;
        }
        i += 1;
    }
    so_far.trees
}

} // verus!
