//! The graph store: locations and dependency edges, kept in the order in
//! which they were inserted, with identifiers given out by the store.
//!
//! Nothing keeps two locations from lying at the same coordinate; a lookup
//! by coordinate answers with the first one that was inserted.

use vstd::prelude::*;
use crate::database::model::{Dependency, LocInfo, LocInfoView, NewDependency, NewLocInfo};
use crate::graph::{DependencyGraph, GraphEntryView};

verus! {

/// Why a lookup gave no record.
#[derive(Clone, Copy, Debug, PartialEq, Eq, Structural)]
pub enum StoreError {
    /// No record matches.
    NotFound,
}

/// The values of a list of location records, in order.
pub open spec fn locs_view(rows: Seq<LocInfo>) -> Seq<LocInfoView> {
    Seq::new(rows.len(), |i: int| rows[i]@)
}

/// The first of `rows` that lies at the given coordinate.
pub open spec fn first_at(rows: Seq<LocInfoView>, path: Seq<char>, line: int, col: int) -> Option<
    LocInfoView,
>
    decreases rows.len(),
{
    if rows.len() == 0 {
        None
    } else if rows[0].is_at(path, line, col) {
        Some(rows[0])
    } else {
        first_at(rows.drop_first(), path, line, col)
    }
}

/// The first of `rows` that has the identifier `id`.
pub open spec fn first_with_id(rows: Seq<LocInfoView>, id: int) -> Option<LocInfoView>
    decreases rows.len(),
{
    if rows.len() == 0 {
        None
    } else if rows[0].id == id {
        Some(rows[0])
    } else {
        first_with_id(rows.drop_first(), id)
    }
}

/// The edges of `rows` that leave the location `lhs_id`, in order.
pub open spec fn edges_leaving(rows: Seq<Dependency>, lhs_id: int) -> Seq<Dependency> {
    rows.filter(|d: Dependency| d.lhs_id == lhs_id)
}

/// The mathematical value of a [`GraphStore`]: its two tables.
pub struct GraphStoreView {
    pub loc_info: Seq<LocInfoView>,
    pub dependencies: Seq<Dependency>,
}

/// The graph store.
pub struct GraphStore {
    loc_info: Vec<LocInfo>,
    dependencies: Vec<Dependency>,
    next_loc_id: i32,
    next_dep_id: i32,
}

impl View for GraphStore {
    type V = GraphStoreView;

    closed spec fn view(&self) -> GraphStoreView {
        GraphStoreView { loc_info: locs_view(self.loc_info@), dependencies: self.dependencies@ }
    }
}

impl GraphStore {
    /// The identifier that the next inserted location gets.
    pub closed spec fn next_loc_id(&self) -> int {
        self.next_loc_id as int
    }

    /// The identifier that the next inserted edge gets.
    pub closed spec fn next_dep_id(&self) -> int {
        self.next_dep_id as int
    }

    /// What holds of every store: the identifiers still to be given out are
    /// positive and above every identifier already in a table.
    pub closed spec fn wf(&self) -> bool {
        &&& 1 <= self.next_loc_id
        &&& 1 <= self.next_dep_id
        &&& forall|i: int|
            0 <= i < self.loc_info@.len() ==> (#[trigger] self.loc_info@[i]).id < self.next_loc_id
        &&& forall|i: int|
            0 <= i < self.dependencies@.len() ==> (#[trigger] self.dependencies@[i]).id
                < self.next_dep_id
    }

    /// Every identifier in a table is below the one that comes next.
    pub proof fn lemma_ids_are_fresh(&self)
        requires
            self.wf(),
        ensures
            1 <= self.next_loc_id() <= i32::MAX,
            1 <= self.next_dep_id() <= i32::MAX,
            forall|i: int|
                0 <= i < self@.loc_info.len() ==> (#[trigger] self@.loc_info[i]).id
                    < self.next_loc_id(),
            forall|i: int|
                0 <= i < self@.dependencies.len() ==> (#[trigger] self@.dependencies[i]).id
                    < self.next_dep_id(),
    {
        assert forall|i: int| 0 <= i < self@.loc_info.len() implies (#[trigger] self@.loc_info[i]).id
            < self.next_loc_id() by {
            assert(self@.loc_info[i] == self.loc_info@[i]@);
        }
    }

    /// An empty store, whose first identifiers will be 1.
    pub fn new() -> (r: Self)
        ensures
            r.wf(),
            r@.loc_info == Seq::<LocInfoView>::empty(),
            r@.dependencies == Seq::<Dependency>::empty(),
            r.next_loc_id() == 1,
            r.next_dep_id() == 1,
    {
        let r = GraphStore {
            loc_info: Vec::new(),
            dependencies: Vec::new(),
            next_loc_id: 1,
            next_dep_id: 1,
        };
        assert(locs_view(r.loc_info@) =~= Seq::empty());
        r
    }

    /// A store that holds the given records, as read from elsewhere. None
    /// if an identifier is so large that none could come after it.
    pub fn from_rows(loc_info: Vec<LocInfo>, dependencies: Vec<Dependency>) -> (r: Option<Self>)
        ensures
            r is Some <==> (forall|i: int|
                0 <= i < loc_info@.len() ==> (#[trigger] loc_info@[i]).id < i32::MAX) && (forall|
                i: int,
            | 0 <= i < dependencies@.len() ==> (#[trigger] dependencies@[i]).id < i32::MAX),
            r is Some ==> r->0.wf() && r->0@.loc_info == locs_view(loc_info@)
                && r->0@.dependencies == dependencies@,
    {
        let mut next_loc_id: i32 = 1;
        let mut i: usize = 0;
        while i < loc_info.len()
            invariant
                i <= loc_info@.len(),
                1 <= next_loc_id,
                forall|j: int| 0 <= j < i ==> (#[trigger] loc_info@[j]).id < next_loc_id,
            decreases loc_info@.len() - i,
        {
            let id = loc_info[i].id;
            if id == i32::MAX {
                return None;
            }
            if id >= next_loc_id {
                next_loc_id = id + 1;
            }
            i += 1;
        }
        let mut next_dep_id: i32 = 1;
        let mut k: usize = 0;
        while k < dependencies.len()
            invariant
                k <= dependencies@.len(),
                1 <= next_dep_id,
                forall|j: int| 0 <= j < k ==> (#[trigger] dependencies@[j]).id < next_dep_id,
            decreases dependencies@.len() - k,
        {
            let id = dependencies[k].id;
            if id == i32::MAX {
                return None;
            }
            if id >= next_dep_id {
                next_dep_id = id + 1;
            }
            k += 1;
        }
        Some(GraphStore { loc_info, dependencies, next_loc_id, next_dep_id })
    }

    /// The identifier that the next inserted location gets.
    pub fn next_location_id(&self) -> (r: i32)
        ensures
            r == self.next_loc_id(),
    {
        self.next_loc_id
    }

    /// The identifier that the next inserted edge gets.
    pub fn next_edge_id(&self) -> (r: i32)
        ensures
            r == self.next_dep_id(),
    {
        self.next_dep_id
    }

    /// The location records, in the order of their insertion.
    pub fn locations(&self) -> (r: &Vec<LocInfo>)
        ensures
            locs_view(r@) == self@.loc_info,
    {
        &self.loc_info
    }

    /// The edge records, in the order of their insertion.
    pub fn edges(&self) -> (r: &Vec<Dependency>)
        ensures
            r@ == self@.dependencies,
    {
        &self.dependencies
    }
}

/// Stores a location and gives back the identifier it got. The store does
/// not look for the coordinate among the records it has: inserting twice
/// stores twice.
pub fn insert_loc_info(store: &mut GraphStore, new_loc: NewLocInfo<'_>) -> (id: i32)
    requires
        old(store).next_loc_id() < i32::MAX,
    ensures
        old(store).wf() ==> final(store).wf(),
        id == old(store).next_loc_id(),
        final(store).next_loc_id() == id + 1,
        final(store).next_dep_id() == old(store).next_dep_id(),
        final(store)@.loc_info == old(store)@.loc_info.push(new_loc.stored_as(id as int)),
        final(store)@.dependencies == old(store)@.dependencies,
{
    let id = store.next_loc_id;
    let row = LocInfo {
        id,
        ident: String::from_str(new_loc.ident),
        line_num: new_loc.line_num,
        col_num: new_loc.col_num,
        file_path: String::from_str(new_loc.file_path),
    };
    store.loc_info.push(row);
    store.next_loc_id = id + 1;
    assert(locs_view(store.loc_info@) =~= locs_view(old(store).loc_info@).push(
        new_loc.stored_as(id as int),
    ));
    id
}

/// Stores an edge from `dep_lhs_id` to `dep_rhs_id`. The store does not
/// look for the pair among the edges it has.
pub fn insert_dependency(store: &mut GraphStore, dep_lhs_id: i32, dep_rhs_id: i32)
    requires
        old(store).next_dep_id() < i32::MAX,
    ensures
        old(store).wf() ==> final(store).wf(),
        final(store).next_dep_id() == old(store).next_dep_id() + 1,
        final(store).next_loc_id() == old(store).next_loc_id(),
        final(store)@.loc_info == old(store)@.loc_info,
        final(store)@.dependencies == old(store)@.dependencies.push(
            Dependency {
                id: old(store).next_dep_id() as i32,
                lhs_id: dep_lhs_id,
                rhs_id: dep_rhs_id,
            },
        ),
{
    let new_dep = NewDependency { lhs_id: dep_lhs_id, rhs_id: dep_rhs_id };
    let id = store.next_dep_id;
    store.dependencies.push(Dependency { id, lhs_id: new_dep.lhs_id, rhs_id: new_dep.rhs_id });
    store.next_dep_id = id + 1;
}

/// Whether a string reads exactly as another.
fn same_text(a: &String, b: &String) -> (r: bool)
    ensures
        r == (a@ == b@),
{
    *a == *b
}

/// The first stored location at the given coordinate; `NotFound` if there
/// is none.
pub fn select_loc_info(store: &GraphStore, path: String, line: i32, col: i32) -> (r: Result<
    LocInfo,
    StoreError,
>)
    ensures
        match first_at(store@.loc_info, path@, line as int, col as int) {
            Some(row) => r is Ok && r->Ok_0@ == row,
            None => r is Err && r->Err_0 == StoreError::NotFound,
        },
{
    let ghost rows = locs_view(store.loc_info@);
    let mut i: usize = 0;
    assert(rows.skip(0) =~= rows);
    while i < store.loc_info.len()
        invariant
            i <= store.loc_info@.len(),
            rows == locs_view(store.loc_info@),
            first_at(rows, path@, line as int, col as int) == first_at(
                rows.skip(i as int),
                path@,
                line as int,
                col as int,
            ),
        decreases store.loc_info@.len() - i,
    {
        let row = &store.loc_info[i];
        assert(rows.skip(i as int)[0] == row@);
        assert(rows.skip(i as int).drop_first() =~= rows.skip(i as int + 1));
        if same_text(&row.file_path, &path) && row.line_num == line && row.col_num == col {
            return Ok(row.duplicate());
        }
        i += 1;
    }
    assert(rows.skip(i as int).len() == 0);
    Err(StoreError::NotFound)
}

/// The stored edges that leave `loc`, in the order of their insertion;
/// none if no edge leaves it.
pub fn select_dep(store: &GraphStore, loc: &LocInfo) -> (r: Vec<Dependency>)
    ensures
        r@ == edges_leaving(store@.dependencies, loc.id as int),
        forall|d: Dependency|
            r@.contains(d) <==> store@.dependencies.contains(d) && d.lhs_id == loc.id,
{
    let ghost leaves = |d: Dependency| d.lhs_id == loc.id as int;
    let mut out: Vec<Dependency> = Vec::new();
    let mut i: usize = 0;
    assert(store.dependencies@.take(0) =~= Seq::empty());
    while i < store.dependencies.len()
        invariant
            i <= store.dependencies@.len(),
            leaves == (|d: Dependency| d.lhs_id == loc.id as int),
            out@ == store.dependencies@.take(i as int).filter(leaves),
        decreases store.dependencies@.len() - i,
    {
        let d = store.dependencies[i];
        assert(store.dependencies@.take(i as int + 1).drop_last() =~= store.dependencies@.take(
            i as int,
        ));
        assert(store.dependencies@.take(i as int + 1).last() == d);
        reveal(Seq::filter);
        if d.lhs_id == loc.id {
            out.push(d);
        }
        i += 1;
    }
    assert(store.dependencies@.take(i as int) =~= store.dependencies@);
    proof {
        lemma_edges_leaving_are_exact(store@.dependencies, loc.id as int);
    }
    out
}

/// The first stored location with the identifier `id_in`; `NotFound` if
/// there is none.
pub fn select_loc_info_by_id(store: &GraphStore, id_in: i32) -> (r: Result<LocInfo, StoreError>)
    ensures
        match first_with_id(store@.loc_info, id_in as int) {
            Some(row) => r is Ok && r->Ok_0@ == row,
            None => r is Err && r->Err_0 == StoreError::NotFound,
        },
{
    let ghost rows = locs_view(store.loc_info@);
    let mut i: usize = 0;
    assert(rows.skip(0) =~= rows);
    while i < store.loc_info.len()
        invariant
            i <= store.loc_info@.len(),
            rows == locs_view(store.loc_info@),
            first_with_id(rows, id_in as int) == first_with_id(rows.skip(i as int), id_in as int),
        decreases store.loc_info@.len() - i,
    {
        let row = &store.loc_info[i];
        assert(rows.skip(i as int)[0] == row@);
        assert(rows.skip(i as int).drop_first() =~= rows.skip(i as int + 1));
        if row.id == id_in {
            return Ok(row.duplicate());
        }
        i += 1;
    }
    assert(rows.skip(i as int).len() == 0);
    Err(StoreError::NotFound)
}

/// The record that a location of the graph becomes once the store has
/// given it the identifier `id`. Lines and columns are stored in 32 bits.
pub open spec fn as_row(loc: crate::graph::LocInfoView, id: int) -> LocInfoView {
    LocInfoView {
        id,
        ident: loc.ident,
        line_num: (loc.line_num as i32) as int,
        col_num: (loc.col_num as i32) as int,
        file_path: loc.file_path,
    }
}

/// The store after the first `n` of the locations `rhs` have been stored,
/// each followed by an edge to it from `lhs_id`. The locations get the
/// identifiers from `first_loc` on, the edges those from `first_dep` on.
pub open spec fn with_rhs(
    store: GraphStoreView,
    lhs_id: int,
    first_loc: int,
    first_dep: int,
    rhs: Seq<crate::graph::LocInfoView>,
    n: nat,
) -> GraphStoreView
    decreases n,
{
    if n == 0 {
        store
    } else {
        let before = with_rhs(store, lhs_id, first_loc, first_dep, rhs, (n - 1) as nat);
        GraphStoreView {
            loc_info: before.loc_info.push(as_row(rhs[n - 1], first_loc + n - 1)),
            dependencies: before.dependencies.push(
                Dependency {
                    id: (first_dep + n - 1) as i32,
                    lhs_id: lhs_id as i32,
                    rhs_id: (first_loc + n - 1) as i32,
                },
            ),
        }
    }
}

/// The store after one entry of the graph has been stored: the location
/// assigned to under `next_loc`, then each contributing location with its
/// edge.
pub open spec fn with_entry(
    store: GraphStoreView,
    next_loc: int,
    next_dep: int,
    entry: GraphEntryView,
) -> GraphStoreView {
    with_rhs(
        GraphStoreView {
            loc_info: store.loc_info.push(as_row(entry.lhs, next_loc)),
            dependencies: store.dependencies,
        },
        next_loc,
        next_loc + 1,
        next_dep,
        entry.rhs,
        entry.rhs.len(),
    )
}

/// How many locations the first `n` entries hold: each its own and its
/// contributing ones, counted as often as they occur.
pub open spec fn location_count(entries: Seq<GraphEntryView>, n: nat) -> nat
    decreases n,
{
    if n == 0 {
        0
    } else {
        location_count(entries, (n - 1) as nat) + 1 + entries[n - 1].rhs.len()
    }
}

/// How many edges the first `n` entries hold.
pub open spec fn edge_count(entries: Seq<GraphEntryView>, n: nat) -> nat
    decreases n,
{
    if n == 0 {
        0
    } else {
        edge_count(entries, (n - 1) as nat) + entries[n - 1].rhs.len()
    }
}

/// The store after the first `n` entries of the graph have been stored, in
/// order, with identifiers from `next_loc` and `next_dep` on.
pub open spec fn with_entries(
    store: GraphStoreView,
    next_loc: int,
    next_dep: int,
    entries: Seq<GraphEntryView>,
    n: nat,
) -> GraphStoreView
    decreases n,
{
    if n == 0 {
        store
    } else {
        with_entry(
            with_entries(store, next_loc, next_dep, entries, (n - 1) as nat),
            next_loc + location_count(entries, (n - 1) as nat),
            next_dep + edge_count(entries, (n - 1) as nat),
            entries[n - 1],
        )
    }
}

/// Whether the store has identifiers left for every location and edge of
/// the graph.
pub open spec fn has_room(next_loc: int, next_dep: int, entries: Seq<GraphEntryView>) -> bool {
    next_loc + location_count(entries, entries.len()) <= i32::MAX && next_dep + edge_count(
        entries,
        entries.len(),
    ) <= i32::MAX
}

/// The counts grow with the number of entries counted.
proof fn lemma_counts_grow(entries: Seq<GraphEntryView>, i: nat, n: nat)
    requires
        i <= n,
    ensures
        location_count(entries, i) <= location_count(entries, n),
        edge_count(entries, i) <= edge_count(entries, n),
    decreases n,
{
    if i < n {
        lemma_counts_grow(entries, i, (n - 1) as nat);
    }
}

/// Whether the store has identifiers left for every location and edge of
/// the graph.
fn check_room(store: &GraphStore, graph: &DependencyGraph) -> (r: bool)
    requires
        store.wf(),
    ensures
        r == has_room(store.next_loc_id(), store.next_dep_id(), graph@),
{
    let entries = graph.entries();
    let loc_limit: u64 = (i32::MAX - store.next_loc_id) as u64;
    let dep_limit: u64 = (i32::MAX - store.next_dep_id) as u64;
    let mut locs: u64 = 0;
    let mut deps: u64 = 0;
    let mut i: usize = 0;
    while i < entries.len()
        invariant
            i <= entries@.len(),
            crate::graph::entries_view(entries@) == graph@,
            loc_limit == i32::MAX - store.next_loc_id(),
            dep_limit == i32::MAX - store.next_dep_id(),
            locs == location_count(graph@, i as nat),
            deps == edge_count(graph@, i as nat),
            locs <= loc_limit,
            deps <= dep_limit,
        decreases entries@.len() - i,
    {
        let n = entries[i].rhs.len();
        proof {
            assert(graph@[i as int].rhs.len() == n);
            lemma_counts_grow(graph@, (i + 1) as nat, graph@.len());
        }
        if n as u64 >= loc_limit - locs || n as u64 > dep_limit - deps {
            return false;
        }
        locs = locs + 1 + n as u64;
        deps = deps + n as u64;
        i += 1;
    }
    true
}

/// Stores the whole graph: entry after entry, the location assigned to,
/// then each contributing location and the edge to it. Every location is
/// stored anew, also one that the store or the graph holds elsewhere.
///
/// If the store has not enough identifiers left for all of it, nothing is
/// stored, and the answer is `false`.
pub fn insert_dependency_graph(store: &mut GraphStore, graph: &DependencyGraph) -> (stored: bool)
    requires
        old(store).wf(),
    ensures
        final(store).wf(),
        stored == has_room(old(store).next_loc_id(), old(store).next_dep_id(), graph@),
        stored ==> final(store)@ == with_entries(
            old(store)@,
            old(store).next_loc_id(),
            old(store).next_dep_id(),
            graph@,
            graph@.len(),
        ),
        stored ==> final(store).next_loc_id() == old(store).next_loc_id() + location_count(
            graph@,
            graph@.len(),
        ),
        stored ==> final(store).next_dep_id() == old(store).next_dep_id() + edge_count(
            graph@,
            graph@.len(),
        ),
        !stored ==> final(store)@ == old(store)@ && final(store).next_loc_id() == old(
            store,
        ).next_loc_id() && final(store).next_dep_id() == old(store).next_dep_id(),
{
    if !check_room(store, graph) {
        return false;
    }
    let entries = graph.entries();
    let ghost loc0 = store.next_loc_id();
    let ghost dep0 = store.next_dep_id();
    let mut i: usize = 0;
    while i < entries.len()
        invariant
            i <= entries@.len(),
            crate::graph::entries_view(entries@) == graph@,
            store.wf(),
            has_room(loc0, dep0, graph@),
            loc0 == old(store).next_loc_id(),
            dep0 == old(store).next_dep_id(),
            store.next_loc_id() == loc0 + location_count(graph@, i as nat),
            store.next_dep_id() == dep0 + edge_count(graph@, i as nat),
            store@ == with_entries(old(store)@, loc0, dep0, graph@, i as nat),
        decreases entries@.len() - i,
    {
        let entry = &entries[i];
        proof {
            assert(graph@[i as int] == entry@);
            lemma_counts_grow(graph@, (i + 1) as nat, graph@.len());
        }
        let ghost entry_loc = store.next_loc_id();
        let ghost entry_dep = store.next_dep_id();
        let dep_lhs_id = insert_loc_info(
            store,
            NewLocInfo {
                ident: entry.lhs.ident.as_str(),
                line_num: entry.lhs.line_num as i32,
                col_num: entry.lhs.col_num as i32,
                file_path: entry.lhs.file_path.as_str(),
            },
        );
        let ghost with_lhs = store@;
        let mut k: usize = 0;
        while k < entry.rhs.len()
            invariant
                k <= entry.rhs@.len(),
                store.wf(),
                dep_lhs_id == entry_loc,
                entry_loc + 1 + entry.rhs@.len() <= i32::MAX,
                entry_dep + entry.rhs@.len() <= i32::MAX,
                store.next_loc_id() == entry_loc + 1 + k,
                store.next_dep_id() == entry_dep + k,
                store@ == with_rhs(
                    with_lhs,
                    entry_loc,
                    entry_loc + 1,
                    entry_dep,
                    crate::graph::locs_view(entry.rhs@),
                    k as nat,
                ),
            decreases entry.rhs@.len() - k,
        {
            let rhs = &entry.rhs[k];
            let dep_rhs_id = insert_loc_info(
                store,
                NewLocInfo {
                    ident: rhs.ident.as_str(),
                    line_num: rhs.line_num as i32,
                    col_num: rhs.col_num as i32,
                    file_path: rhs.file_path.as_str(),
                },
            );
            insert_dependency(store, dep_lhs_id, dep_rhs_id);
            k += 1;
        }
        i += 1;
    }
    true
}

/// The edges that leave a location are exactly the stored edges whose
/// left end is that location: none is added, none is left out.
pub proof fn lemma_edges_leaving_are_exact(rows: Seq<Dependency>, lhs_id: int)
    ensures
        forall|d: Dependency|
            edges_leaving(rows, lhs_id).contains(d) <==> rows.contains(d) && d.lhs_id == lhs_id,
{
    let leaves = |d: Dependency| d.lhs_id == lhs_id;
    assert forall|d: Dependency| edges_leaving(rows, lhs_id).contains(d) <==> rows.contains(d)
        && d.lhs_id == lhs_id by {
        if edges_leaving(rows, lhs_id).contains(d) {
            rows.lemma_filter_contains_rev(leaves, d);
        }
        if rows.contains(d) && d.lhs_id == lhs_id {
            let i = choose|i: int| 0 <= i < rows.len() && rows[i] == d;
            rows.lemma_filter_contains(leaves, i);
        }
    }
}

/// A lookup after an insertion, at the coordinate of what was inserted:
/// it finds what a lookup found there before, and the inserted location if
/// that found nothing.
pub proof fn lemma_lookup_after_insertion(rows: Seq<LocInfoView>, inserted: LocInfoView)
    ensures
        first_at(
            rows.push(inserted),
            inserted.file_path,
            inserted.line_num,
            inserted.col_num,
        ) == match first_at(rows, inserted.file_path, inserted.line_num, inserted.col_num) {
            Some(earlier) => Some(earlier),
            None => Some(inserted),
        },
    decreases rows.len(),
{
    let all = rows.push(inserted);
    if rows.len() == 0 {
        assert(all[0] == inserted);
    } else {
        assert(all[0] == rows[0]);
        if !rows[0].is_at(inserted.file_path, inserted.line_num, inserted.col_num) {
            assert(all.drop_first() =~= rows.drop_first().push(inserted));
            lemma_lookup_after_insertion(rows.drop_first(), inserted);
        }
    }
}

/// A location that has just been inserted is found at its coordinate, and
/// under its own name, unless the store already held a location at the
/// same coordinate and finds that one under another name.
pub proof fn lemma_inserted_location_is_found(rows: Seq<LocInfoView>, inserted: LocInfoView)
    requires
        first_at(rows, inserted.file_path, inserted.line_num, inserted.col_num) is Some ==> first_at(
            rows,
            inserted.file_path,
            inserted.line_num,
            inserted.col_num,
        )->0.ident == inserted.ident,
    ensures
        first_at(
            rows.push(inserted),
            inserted.file_path,
            inserted.line_num,
            inserted.col_num,
        ) is Some,
        first_at(
            rows.push(inserted),
            inserted.file_path,
            inserted.line_num,
            inserted.col_num,
        )->0.ident == inserted.ident,
{
    lemma_lookup_after_insertion(rows, inserted);
}

} // verus!
