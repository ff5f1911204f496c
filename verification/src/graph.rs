//! Building the dependency graph: for every assignment and every
//! initialized local, an edge from the location assigned to each location
//! that contributes to the value.
//!
//! The builder is driven from outside: whoever walks the program hands it
//! each item, local and expression in turn, as plain data in which names
//! have already been resolved and nodes located. The builder looks at the
//! node it is handed and at nothing below it, except for the operands of
//! binary operators.

use vstd::prelude::*;
use crate::fx::{new_index, position_of, positions, set_position, Place, PlaceIndex};

verus! {

/// A location in the source: a coordinate and the name found there. Two
/// locations at the same coordinate are the same node of the graph,
/// whatever their names.
#[derive(Debug, PartialEq, Eq)]
pub struct LocInfo {
    pub ident: String,
    pub line_num: usize,
    pub col_num: usize,
    pub file_path: String,
}

/// The mathematical value of a [`LocInfo`].
pub struct LocInfoView {
    pub ident: Seq<char>,
    pub line_num: nat,
    pub col_num: nat,
    pub file_path: Seq<char>,
}

impl LocInfoView {
    /// Whether two locations lie at the same coordinate.
    pub open spec fn same_place(self, other: LocInfoView) -> bool {
        self.file_path == other.file_path && self.line_num == other.line_num && self.col_num
            == other.col_num
    }
}

impl View for LocInfo {
    type V = LocInfoView;

    open spec fn view(&self) -> LocInfoView {
        LocInfoView {
            ident: self.ident@,
            line_num: self.line_num as nat,
            col_num: self.col_num as nat,
            file_path: self.file_path@,
        }
    }
}

/// The values of a list of locations, in order.
pub open spec fn locs_view(v: Seq<LocInfo>) -> Seq<LocInfoView> {
    Seq::new(v.len(), |i: int| v[i]@)
}

impl LocInfo {
    /// A copy of the location.
    pub fn duplicate(&self) -> (r: LocInfo)
        ensures
            r@ == self@,
    {
        LocInfo {
            ident: self.ident.clone(),
            line_num: self.line_num,
            col_num: self.col_num,
            file_path: self.file_path.clone(),
        }
    }

    /// Whether two locations lie at the same coordinate.
    pub fn same_place(&self, other: &LocInfo) -> (r: bool)
        ensures
            r == self@.same_place(other@),
    {
        self.line_num == other.line_num && self.col_num == other.col_num && self.file_path
            == other.file_path
    }
}

/// Where a node starts: file, line and column.
#[derive(Debug, PartialEq, Eq)]
pub struct SourcePos {
    pub line: usize,
    pub col: usize,
    pub file_path: String,
}

impl SourcePos {
    /// The location named `ident` at this position.
    pub open spec fn named(&self, ident: Seq<char>) -> LocInfoView {
        LocInfoView {
            ident,
            line_num: self.line as nat,
            col_num: self.col as nat,
            file_path: self.file_path@,
        }
    }

    /// The location named `ident` at this position.
    pub fn locate(&self, ident: &String) -> (r: LocInfo)
        ensures
            r@ == self.named(ident@),
    {
        LocInfo {
            ident: ident.clone(),
            line_num: self.line,
            col_num: self.col,
            file_path: self.file_path.clone(),
        }
    }
}

/// The kind of node that declares a name.
#[derive(Clone, Copy, Debug, PartialEq, Eq, Structural)]
pub enum NodeKind {
    Expr,
    Item,
    Local,
    Pat,
    /// Any other kind of node; such a node is no declaration to depend on.
    Other,
}

/// The node that a name resolves to.
#[derive(Debug, PartialEq, Eq)]
pub struct Declaration {
    pub kind: NodeKind,
    pub pos: SourcePos,
}

/// What a path resolves to.
#[derive(Debug, PartialEq, Eq)]
pub enum Res {
    /// A local name: a local binding or a pattern binding, with the node
    /// that declares it if that node is known.
    Local(Option<Declaration>),
    /// An item, such as a function, a constant or a static, with the node
    /// that declares it if that node is known.
    Item(Option<Declaration>),
    /// Anything else: nothing that a value can come from.
    Other,
}

/// A name in the source, and where it stands: the last segment of a path,
/// or the field of a field access.
#[derive(Debug, PartialEq, Eq)]
pub struct Segment {
    pub ident: String,
    pub pos: SourcePos,
}

/// A resolved path.
#[derive(Debug, PartialEq, Eq)]
pub struct Path {
    pub res: Res,
    pub last_segment: Option<Segment>,
}

/// An expression, as far as the builder reads it.
#[derive(Debug, PartialEq, Eq)]
pub enum Expr {
    /// A path; `None` where the path is not a resolved one.
    Path(Option<Path>),
    /// A binary operator with its two operands.
    Binary(Box<Expr>, Box<Expr>),
    /// A call, with the expression that is called.
    Call(Box<Expr>),
    /// A method call: the method's name, and where its implementation
    /// stands if type information resolves the call.
    MethodCall { method_name: String, implementation: Option<SourcePos> },
    /// A field access: the expression whose field it is, and the field.
    Field(Box<Expr>, Segment),
    /// `lhs = rhs`.
    Assign(Box<Expr>, Box<Expr>),
    /// `lhs op= rhs`.
    AssignOp(Box<Expr>, Box<Expr>),
    /// Any other expression.
    Other,
}

/// The kind of a pattern.
#[derive(Debug, PartialEq, Eq)]
pub enum PatKind {
    /// A binding of one name, possibly with a pattern behind `@`.
    Binding { ident: String, subpattern: bool },
    /// Any other pattern.
    Other,
}

/// A pattern, and where it starts.
#[derive(Debug, PartialEq, Eq)]
pub struct Pat {
    pub kind: PatKind,
    pub pos: SourcePos,
}

/// A `let` statement.
#[derive(Debug, PartialEq, Eq)]
pub struct Local {
    pub pat: Pat,
    pub init: Option<Expr>,
}

/// The body of a function, by the number the program gives it.
#[derive(Clone, Copy, Debug, PartialEq, Eq, Structural)]
pub struct BodyId {
    pub id: u64,
}

/// An item, as far as the builder reads it.
#[derive(Debug, PartialEq, Eq)]
pub enum Item {
    /// A function with its body.
    Fn(BodyId),
    /// A trait: for each of its items in order, the body of the function
    /// it provides, if it is a function and provides one.
    Trait(Vec<Option<BodyId>>),
    /// Any other item.
    Other,
}

/// One node of the program, as it is handed to the builder.
#[derive(Debug, PartialEq, Eq)]
pub enum Node {
    Item(Item),
    Local(Local),
    Expr(Expr),
}

/// The location that an expression names as the target of an assignment:
/// the last segment of a resolved path, or the field of a field access.
/// None for any other expression.
pub open spec fn target_of(e: &Expr) -> Option<LocInfoView> {
    match e {
        Expr::Path(Some(path)) => match &path.last_segment {
            Some(segment) => Some(segment.pos.named(segment.ident@)),
            None => None,
        },
        Expr::Field(_, field) => Some(field.pos.named(field.ident@)),
        _ => None,
    }
}

/// The declaration that a name resolves to, by the name's last segment:
/// for a resolved path to a local or to an item, with a last segment, the
/// declaring node if known, and the segment's name.
pub open spec fn resolved_name(e: &Expr) -> Option<(Option<Declaration>, Seq<char>)> {
    match e {
        Expr::Path(Some(path)) => match (&path.res, &path.last_segment) {
            (Res::Local(decl), Some(segment)) => Some((*decl, segment.ident@)),
            (Res::Item(decl), Some(segment)) => Some((*decl, segment.ident@)),
            _ => None,
        },
        _ => None,
    }
}

/// Where a declaration stands, under the name `ident`: the start of the
/// declaring node if it is an expression, an item, a local or a pattern.
/// None if the node is unknown or of another kind.
pub open spec fn declared_at(decl: &Option<Declaration>, ident: Seq<char>) -> Option<LocInfoView> {
    match decl {
        Some(d) => match d.kind {
            NodeKind::Other => None,
            _ => Some(d.pos.named(ident)),
        },
        None => None,
    }
}

/// The declaration behind an expression that is the name of a local or
/// of an item.
pub open spec fn declaration_of(e: &Expr) -> Option<LocInfoView> {
    match resolved_name(e) {
        Some((decl, ident)) => declared_at(&decl, ident),
        None => None,
    }
}

/// One location, or none, as a list.
pub open spec fn one_or_none(loc: Option<LocInfoView>) -> Option<Seq<LocInfoView>> {
    match loc {
        Some(l) => Some(seq![l]),
        None => None,
    }
}

/// What an optional list holds: nothing if there is no list.
pub open spec fn or_empty(locs: Option<Seq<LocInfoView>>) -> Seq<LocInfoView> {
    match locs {
        Some(l) => l,
        None => Seq::empty(),
    }
}

/// The locations that contribute to the value of an expression.
///
/// - A binary operator: what its left operand contributes, then what its
///   right operand contributes; this list may be empty.
/// - A call: the declaration of what is called, if that is the name of a
///   local or of an item.
/// - A method call: the method's implementation under the method's name,
///   if a function body is current and the call is resolved.
/// - A field access: the declaration of the expression whose field it is.
/// - A path: its own declaration.
/// - Anything else, and whatever does not resolve: none.
pub open spec fn contributions(e: &Expr, in_body: bool) -> Option<Seq<LocInfoView>>
    decreases e,
{
    match e {
        Expr::Binary(left, right) => Some(
            or_empty(contributions(left, in_body)) + or_empty(contributions(right, in_body)),
        ),
        Expr::Call(callee) => one_or_none(declaration_of(callee)),
        Expr::MethodCall { method_name, implementation } => match implementation {
            Some(pos) => if in_body {
                Some(seq![pos.named(method_name@)])
            } else {
                None
            },
            None => None,
        },
        Expr::Field(base, _) => one_or_none(declaration_of(base)),
        Expr::Path(_) => one_or_none(declaration_of(e)),
        _ => None,
    }
}

/// One entry of the graph: a location assigned to, and the locations its
/// value was computed from, in the order they were found. A location may
/// occur among them more than once.
#[derive(Debug, PartialEq, Eq)]
pub struct GraphEntry {
    pub lhs: LocInfo,
    pub rhs: Vec<LocInfo>,
}

/// The mathematical value of a [`GraphEntry`].
pub struct GraphEntryView {
    pub lhs: LocInfoView,
    pub rhs: Seq<LocInfoView>,
}

impl View for GraphEntry {
    type V = GraphEntryView;

    open spec fn view(&self) -> GraphEntryView {
        GraphEntryView { lhs: self.lhs@, rhs: locs_view(self.rhs@) }
    }
}

/// The values of a list of entries, in order.
pub open spec fn entries_view(v: Seq<GraphEntry>) -> Seq<GraphEntryView> {
    Seq::new(v.len(), |i: int| v[i]@)
}

/// Whether no two of the entries are for the same coordinate.
pub open spec fn distinct_places(entries: Seq<GraphEntryView>) -> bool {
    forall|i: int, j: int|
        0 <= i < j < entries.len() ==> !(#[trigger] entries[i]).lhs.same_place(
            (#[trigger] entries[j]).lhs,
        )
}

/// The index of the entry for the coordinate of `lhs`, if there is one.
pub open spec fn entry_index(entries: Seq<GraphEntryView>, lhs: LocInfoView) -> Option<int>
    decreases entries.len(),
{
    if entries.len() == 0 {
        None
    } else if entries.last().lhs.same_place(lhs) {
        Some(entries.len() - 1)
    } else {
        entry_index(entries.drop_last(), lhs)
    }
}

/// The graph after `rhs` has been recorded for `lhs`: added to the end of
/// the entry for that coordinate if there is one, which keeps the name it
/// has; else a new last entry.
pub open spec fn recorded(entries: Seq<GraphEntryView>, lhs: LocInfoView, rhs: Seq<LocInfoView>)
    -> Seq<GraphEntryView> {
    match entry_index(entries, lhs) {
        Some(i) => entries.update(
            i,
            GraphEntryView { lhs: entries[i].lhs, rhs: entries[i].rhs + rhs },
        ),
        None => entries.push(GraphEntryView { lhs, rhs }),
    }
}

/// The graph after an assignment to `target` of the value of `value`: if
/// the target names a location and anything contributes to the value, the
/// contributions are recorded for the target; else the graph is as it was.
pub open spec fn assigned(
    entries: Seq<GraphEntryView>,
    target: Option<LocInfoView>,
    value: &Expr,
    in_body: bool,
) -> Seq<GraphEntryView> {
    match target {
        Some(lhs) => {
            let rhs = or_empty(contributions(value, in_body));
            if rhs.len() > 0 {
                recorded(entries, lhs, rhs)
            } else {
                entries
            }
        },
        None => entries,
    }
}

/// The name that a pattern binds, if it is a plain binding of one name,
/// with no pattern behind it.
pub open spec fn bound_name(pat: &Pat) -> Option<Seq<char>> {
    match &pat.kind {
        PatKind::Binding { ident, subpattern } => if *subpattern {
            None
        } else {
            Some(ident@)
        },
        PatKind::Other => None,
    }
}

/// The location that a `let` statement assigns to: the name it binds, at
/// the start of its pattern. None if it binds no plain name.
pub open spec fn local_target(local: &Local) -> Option<LocInfoView> {
    match bound_name(&local.pat) {
        Some(ident) => Some(local.pat.pos.named(ident)),
        None => None,
    }
}

/// The graph after a `let` statement: one with an initializer is an
/// assignment to the name it binds; one without leaves the graph as it was.
pub open spec fn after_local(entries: Seq<GraphEntryView>, local: &Local, in_body: bool) -> Seq<
    GraphEntryView,
> {
    match &local.init {
        Some(init) => assigned(entries, local_target(local), init, in_body),
        None => entries,
    }
}

/// The graph after an expression: an assignment, plain or compound, is
/// recorded; any other expression leaves the graph as it was.
pub open spec fn after_expr(entries: Seq<GraphEntryView>, ex: &Expr, in_body: bool) -> Seq<
    GraphEntryView,
> {
    match ex {
        Expr::Assign(lhs, rhs) => assigned(entries, target_of(lhs), rhs, in_body),
        Expr::AssignOp(lhs, rhs) => assigned(entries, target_of(lhs), rhs, in_body),
        _ => entries,
    }
}

/// The last function body among a trait's items, or `current` if the trait
/// provides none.
pub open spec fn last_provided(items: Seq<Option<BodyId>>, current: Option<BodyId>) -> Option<
    BodyId,
>
    decreases items.len(),
{
    if items.len() == 0 {
        current
    } else {
        match items.last() {
            Some(body) => Some(body),
            None => last_provided(items.drop_last(), current),
        }
    }
}

/// The current body after an item: a function makes its body current, a
/// trait the body of the last function it provides; any other item, and a
/// trait that provides no function, leaves it as it was.
pub open spec fn body_after(current: Option<BodyId>, item: &Item) -> Option<BodyId> {
    match item {
        Item::Fn(body) => Some(*body),
        Item::Trait(items) => last_provided(items@, current),
        Item::Other => current,
    }
}

/// The location that a node assigns to, if it is an assignment or an
/// initialized `let` that names one.
pub open spec fn node_target(node: &Node) -> Option<LocInfoView> {
    match node {
        Node::Local(local) => if local.init is Some {
            local_target(local)
        } else {
            None
        },
        Node::Expr(Expr::Assign(lhs, _)) => target_of(lhs),
        Node::Expr(Expr::AssignOp(lhs, _)) => target_of(lhs),
        _ => None,
    }
}

/// The graph and the current body after one node.
pub open spec fn after_node(entries: Seq<GraphEntryView>, current: Option<BodyId>, node: &Node)
    -> (Seq<GraphEntryView>, Option<BodyId>) {
    match node {
        Node::Item(item) => (entries, body_after(current, item)),
        Node::Local(local) => (after_local(entries, local, current is Some), current),
        Node::Expr(ex) => (after_expr(entries, ex, current is Some), current),
    }
}

/// The graph and the current body after the first `n` of `nodes`, taken in
/// order.
pub open spec fn after_nodes(
    entries: Seq<GraphEntryView>,
    current: Option<BodyId>,
    nodes: Seq<Node>,
    n: nat,
) -> (Seq<GraphEntryView>, Option<BodyId>)
    decreases n,
{
    if n == 0 {
        (entries, current)
    } else {
        let before = after_nodes(entries, current, nodes, (n - 1) as nat);
        after_node(before.0, before.1, &nodes[n - 1])
    }
}

/// Whether a node assigns to a location in `file`.
pub open spec fn assigns_in(node: &Node, file: Seq<char>) -> bool {
    match node_target(node) {
        Some(target) => target.file_path == file,
        None => false,
    }
}

/// Whether no entry of the graph is for a location in `file`.
pub open spec fn no_entry_in(entries: Seq<GraphEntryView>, file: Seq<char>) -> bool {
    forall|k: int| 0 <= k < entries.len() ==> (#[trigger] entries[k]).lhs.file_path != file
}

/// Recording adds at most the location recorded for: every entry of the
/// graph after is for a location the graph had an entry for, or for `lhs`.
pub proof fn lemma_recorded_entries(
    entries: Seq<GraphEntryView>,
    lhs: LocInfoView,
    rhs: Seq<LocInfoView>,
    file: Seq<char>,
)
    requires
        no_entry_in(entries, file),
        lhs.file_path != file,
    ensures
        no_entry_in(recorded(entries, lhs, rhs), file),
{
    lemma_entry_index_in_range(entries, lhs);
}

/// The index of an entry lies within the graph.
pub proof fn lemma_entry_index_in_range(entries: Seq<GraphEntryView>, lhs: LocInfoView)
    ensures
        entry_index(entries, lhs) matches Some(i) ==> 0 <= i < entries.len()
            && entries[i].lhs.same_place(lhs),
    decreases entries.len(),
{
    if entries.len() > 0 && !entries.last().lhs.same_place(lhs) {
        lemma_entry_index_in_range(entries.drop_last(), lhs);
    }
}

/// A file in which nothing is assigned to gets no entry: if no node
/// assigns to a location in `file`, and the graph has no entry for a
/// location in `file` to begin with, then it has none after the nodes.
pub proof fn lemma_no_assignment_no_entry(
    entries: Seq<GraphEntryView>,
    current: Option<BodyId>,
    nodes: Seq<Node>,
    n: nat,
    file: Seq<char>,
)
    requires
        n <= nodes.len(),
        no_entry_in(entries, file),
        forall|i: int| 0 <= i < n ==> !#[trigger] assigns_in(&nodes[i], file),
    ensures
        no_entry_in(after_nodes(entries, current, nodes, n).0, file),
    decreases n,
{
    if n > 0 {
        lemma_no_assignment_no_entry(entries, current, nodes, (n - 1) as nat, file);
        let before = after_nodes(entries, current, nodes, (n - 1) as nat);
        let node = &nodes[n - 1];
        assert(!assigns_in(node, file));
        match node_target(node) {
            Some(t) => {
                assert(t.file_path != file);
                assert forall|rhs: Seq<LocInfoView>|
                    no_entry_in(#[trigger] recorded(before.0, t, rhs), file) by {
                    lemma_recorded_entries(before.0, t, rhs, file);
                }
            },
            None => {},
        }
    }
}

/// The dependency graph: for each location assigned to, the locations that
/// its value was computed from. Entries stand in the order in which their
/// locations were first assigned to, and no two are for one coordinate. A
/// hash map from coordinates to positions finds the entry of a location.
pub struct DependencyGraph {
    lhs_to_loc_info: Vec<GraphEntry>,
    places: PlaceIndex,
}

impl View for DependencyGraph {
    type V = Seq<GraphEntryView>;

    closed spec fn view(&self) -> Seq<GraphEntryView> {
        entries_view(self.lhs_to_loc_info@)
    }
}

/// The coordinate of a location, as the hash map holds it.
pub open spec fn place_of(loc: &LocInfo) -> (Seq<char>, usize, usize) {
    (loc.file_path@, loc.line_num, loc.col_num)
}

/// No entry is for the coordinate of `lhs`: the graph has no index for it.
proof fn lemma_no_entry_index(entries: Seq<GraphEntryView>, lhs: LocInfoView)
    requires
        forall|j: int| 0 <= j < entries.len() ==> !(#[trigger] entries[j]).lhs.same_place(lhs),
    ensures
        entry_index(entries, lhs) is None,
    decreases entries.len(),
{
    if entries.len() > 0 {
        assert(!entries[entries.len() - 1].lhs.same_place(lhs));
        assert forall|j: int| 0 <= j < entries.drop_last().len() implies !(
        #[trigger] entries.drop_last()[j]).lhs.same_place(lhs) by {
            assert(entries.drop_last()[j] == entries[j]);
        }
        lemma_no_entry_index(entries.drop_last(), lhs);
    }
}

/// The entry at `i` is the only one for the coordinate of `lhs`: `i` is
/// the index the graph has for it.
proof fn lemma_only_entry_index(entries: Seq<GraphEntryView>, lhs: LocInfoView, i: int)
    requires
        0 <= i < entries.len(),
        entries[i].lhs.same_place(lhs),
        forall|j: int|
            0 <= j < entries.len() && j != i ==> !(#[trigger] entries[j]).lhs.same_place(lhs),
    ensures
        entry_index(entries, lhs) == Some(i),
    decreases entries.len(),
{
    if i != entries.len() - 1 {
        assert(!entries[entries.len() - 1].lhs.same_place(lhs));
        assert(entries.drop_last()[i] == entries[i]);
        assert forall|j: int| 0 <= j < entries.drop_last().len() && j != i implies !(
        #[trigger] entries.drop_last()[j]).lhs.same_place(lhs) by {
            assert(entries.drop_last()[j] == entries[j]);
        }
        lemma_only_entry_index(entries.drop_last(), lhs, i);
    }
}

impl DependencyGraph {
    /// What holds of every graph: the hash map holds the coordinate of each
    /// entry with the entry's position, and nothing else.
    pub closed spec fn wf(&self) -> bool {
        &&& forall|i: int|
            0 <= i < self.lhs_to_loc_info@.len() ==> {
                let place = place_of(&(#[trigger] self.lhs_to_loc_info@[i]).lhs);
                positions(self.places).contains_key(place) && positions(self.places)[place] == i
            }
        &&& forall|place: (Seq<char>, usize, usize)| #[trigger]
            positions(self.places).contains_key(place) ==> {
                let i = positions(self.places)[place];
                i < self.lhs_to_loc_info@.len() && place_of(&self.lhs_to_loc_info@[i as int].lhs)
                    == place
            }
    }

    /// No two entries of a graph are for the same coordinate.
    pub proof fn lemma_places_are_distinct(&self)
        requires
            self.wf(),
        ensures
            distinct_places(self@),
    {
        assert forall|i: int, j: int| 0 <= i < j < self@.len() implies !(#[trigger] self@[i]).lhs.same_place(
            (#[trigger] self@[j]).lhs,
        ) by {
            let a = self.lhs_to_loc_info@[i].lhs;
            let b = self.lhs_to_loc_info@[j].lhs;
            assert(self@[i].lhs == a@ && self@[j].lhs == b@);
            if a@.same_place(b@) {
                assert(place_of(&a) == place_of(&b));
            }
        }
    }

    /// The empty graph.
    pub fn new() -> (r: Self)
        ensures
            r@ == Seq::<GraphEntryView>::empty(),
            r.wf(),
    {
        let r = DependencyGraph { lhs_to_loc_info: Vec::new(), places: new_index() };
        assert(entries_view(r.lhs_to_loc_info@) =~= Seq::empty());
        r
    }

    /// The entries, in order.
    pub fn entries(&self) -> (r: &Vec<GraphEntry>)
        ensures
            entries_view(r@) == self@,
    {
        &self.lhs_to_loc_info
    }

    /// The index of the entry for the coordinate of `lhs`, if there is one.
    fn find(&self, lhs: &LocInfo) -> (r: Option<usize>)
        requires
            self.wf(),
        ensures
            match r {
                Some(i) => entry_index(self@, lhs@) == Some(i as int) && i < self@.len(),
                None => entry_index(self@, lhs@) is None,
            },
            r is None <==> !positions(self.places).contains_key(place_of(lhs)),
    {
        let place: Place = (lhs.file_path.clone(), lhs.line_num, lhs.col_num);
        let found = position_of(&self.places, &place);
        proof {
            assert(place@ == place_of(lhs));
            assert forall|j: int| 0 <= j < self@.len() implies ((#[trigger] self@[j]).lhs.same_place(
                lhs@,
            ) <==> place_of(&self.lhs_to_loc_info@[j].lhs) == place_of(lhs)) by {
                assert(self@[j].lhs == self.lhs_to_loc_info@[j].lhs@);
            }
            match found {
                Some(i) => {
                    lemma_only_entry_index(self@, lhs@, i as int);
                },
                None => {
                    lemma_no_entry_index(self@, lhs@);
                },
            }
        }
        found
    }

    /// Records `rhs` for `lhs`.
    fn record(&mut self, lhs: LocInfo, rhs: Vec<LocInfo>)
        requires
            old(self).wf(),
        ensures
            final(self)@ == recorded(old(self)@, lhs@, locs_view(rhs@)),
            final(self).wf(),
    {
        let ghost before = self@;
        match self.find(&lhs) {
            Some(i) => {
                let mut rhs = rhs;
                let ghost added = locs_view(rhs@);
                let ghost had = locs_view(self.lhs_to_loc_info@[i as int].rhs@);
                let ghost rows = self.lhs_to_loc_info@;
                let mut entries: Vec<GraphEntry> = Vec::new();
                std::mem::swap(&mut entries, &mut self.lhs_to_loc_info);
                let mut entry = entries.remove(i);
                entry.rhs.append(&mut rhs);
                assert(locs_view(entry.rhs@) =~= had + added);
                entries.insert(i, entry);
                assert(entries_view(entries@) =~= before.update(
                    i as int,
                    GraphEntryView { lhs: before[i as int].lhs, rhs: had + added },
                ));
                assert forall|j: int| 0 <= j < entries@.len() implies (#[trigger] entries@[j]).lhs
                    == rows[j].lhs by {}
                self.lhs_to_loc_info = entries;
            },
            None => {
                let place: Place = (lhs.file_path.clone(), lhs.line_num, lhs.col_num);
                let position = self.lhs_to_loc_info.len();
                assert(place@ == place_of(&lhs));
                set_position(&mut self.places, place, position);
                self.lhs_to_loc_info.push(GraphEntry { lhs, rhs });
                assert(entries_view(self.lhs_to_loc_info@) =~= before.push(
                    GraphEntryView { lhs: lhs@, rhs: locs_view(rhs@) },
                ));
            },
        }
    }
}

/// The value of a location that may be missing.
pub open spec fn opt_loc_view(loc: Option<LocInfo>) -> Option<LocInfoView> {
    match loc {
        Some(l) => Some(l@),
        None => None,
    }
}

/// The value of a piece of text that may be missing.
pub open spec fn opt_text_view(t: Option<String>) -> Option<Seq<char>> {
    match t {
        Some(s) => Some(s@),
        None => None,
    }
}

/// The values of a list of locations that may be missing.
pub open spec fn opt_locs_view(locs: Option<Vec<LocInfo>>) -> Option<Seq<LocInfoView>> {
    match locs {
        Some(l) => Some(locs_view(l@)),
        None => None,
    }
}

/// Walks a program's nodes and builds the dependency graph from them.
pub struct GraphVisitor {
    pub graph: DependencyGraph,
    pub current_body_id: Option<BodyId>,
}

impl GraphVisitor {
    /// The body that method calls are resolved in, if any item has set one.
    pub open spec fn current_body(&self) -> Option<BodyId> {
        self.current_body_id
    }

    /// A builder that adds to `graph`. No body is current yet.
    pub fn new(graph: DependencyGraph) -> (r: Self)
        ensures
            r.current_body() is None,
            r.graph == graph,
    {
        GraphVisitor { graph, current_body_id: None }
    }

    /// Makes `body_id` the current body.
    fn update_current_body_id(&mut self, body_id: Option<BodyId>)
        ensures
            final(self).current_body() == body_id,
            final(self).graph == old(self).graph,
    {
        self.current_body_id = body_id;
    }

    /// The location that an expression names as the target of an
    /// assignment.
    pub fn extract_loc_info(&self, expr: &Expr) -> (r: Option<LocInfo>)
        ensures
            opt_loc_view(r) == target_of(expr),
    {
        match expr {
            Expr::Path(Some(path)) => match &path.last_segment {
                Some(segment) => Some(segment.pos.locate(&segment.ident)),
                None => None,
            },
            Expr::Field(_, field) => Some(field.pos.locate(&field.ident)),
            _ => None,
        }
    }

    /// The declaration that the name of a local or of an item resolves
    /// to, and the name.
    pub fn get_hir_id_and_ident<'e>(&self, expr: &'e Expr) -> (r: Option<
        (&'e Option<Declaration>, String),
    >)
        ensures
            match r {
                Some((decl, ident)) => resolved_name(expr) == Some((*decl, ident@)),
                None => resolved_name(expr) is None,
            },
    {
        match expr {
            Expr::Path(Some(path)) => match (&path.res, &path.last_segment) {
                (Res::Local(decl), Some(segment)) => Some((decl, segment.ident.clone())),
                (Res::Item(decl), Some(segment)) => Some((decl, segment.ident.clone())),
                _ => None,
            },
            _ => None,
        }
    }

    /// Where a declaration stands, under the name `ident`.
    pub fn extract_loc_info_from_hir_id(&self, decl: &Option<Declaration>, ident: String) -> (r:
        Option<LocInfo>)
        ensures
            opt_loc_view(r) == declared_at(decl, ident@),
    {
        match decl {
            Some(d) => match d.kind {
                NodeKind::Other => None,
                _ => Some(d.pos.locate(&ident)),
            },
            None => None,
        }
    }

    /// The declaration behind an expression that is such a name, as a
    /// list of one.
    fn extract_declaration(&self, expr: &Expr) -> (r: Option<Vec<LocInfo>>)
        ensures
            opt_locs_view(r) == one_or_none(declaration_of(expr)),
    {
        match self.get_hir_id_and_ident(expr) {
            Some((decl, ident)) => match self.extract_loc_info_from_hir_id(decl, ident) {
                Some(loc_info) => {
                    let mut found: Vec<LocInfo> = Vec::new();
                    found.push(loc_info);
                    assert(locs_view(found@) =~= seq![loc_info@]);
                    Some(found)
                },
                None => None,
            },
            None => None,
        }
    }

    /// The locations that contribute to the value of an expression.
    pub fn extract_loc_infos(&self, expr: &Expr) -> (r: Option<Vec<LocInfo>>)
        ensures
            opt_locs_view(r) == contributions(expr, self.current_body() is Some),
        decreases expr,
    {
        match expr {
            Expr::Binary(lhs, rhs) => {
                let mut loc_infos: Vec<LocInfo> = Vec::new();
                assert(locs_view(loc_infos@) =~= Seq::empty());
                if let Some(lhs_loc_infos) = self.extract_loc_infos(lhs) {
                    let mut lhs_loc_infos = lhs_loc_infos;
                    let ghost left = locs_view(lhs_loc_infos@);
                    loc_infos.append(&mut lhs_loc_infos);
                    assert(locs_view(loc_infos@) =~= left);
                }
                if let Some(rhs_loc_infos) = self.extract_loc_infos(rhs) {
                    let mut rhs_loc_infos = rhs_loc_infos;
                    let ghost left = locs_view(loc_infos@);
                    let ghost right = locs_view(rhs_loc_infos@);
                    loc_infos.append(&mut rhs_loc_infos);
                    assert(locs_view(loc_infos@) =~= left + right);
                }
                assert(locs_view(loc_infos@) =~= or_empty(
                    contributions(lhs, self.current_body() is Some),
                ) + or_empty(contributions(rhs, self.current_body() is Some)));
                Some(loc_infos)
            },
            Expr::Call(callee) => self.extract_declaration(callee),
            Expr::MethodCall { method_name, implementation } => match self.current_body_id {
                Some(_) => match implementation {
                    Some(pos) => {
                        let loc_info = pos.locate(method_name);
                        let mut found: Vec<LocInfo> = Vec::new();
                        found.push(loc_info);
                        assert(locs_view(found@) =~= seq![loc_info@]);
                        Some(found)
                    },
                    None => None,
                },
                None => None,
            },
            Expr::Field(base, _) => self.extract_declaration(base),
            Expr::Path(_) => self.extract_declaration(expr),
            _ => None,
        }
    }

    /// The name that a pattern binds, if it is a plain binding of one name.
    pub fn extract_ident_from_pat(&self, pat: &Pat) -> (r: Option<String>)
        ensures
            opt_text_view(r) == bound_name(pat),
    {
        match &pat.kind {
            PatKind::Binding { ident, subpattern } => if *subpattern {
                None
            } else {
                Some(ident.clone())
            },
            PatKind::Other => None,
        }
    }

    /// Records an assignment to `target` of the value of `value`.
    fn record_assignment(&mut self, target: Option<LocInfo>, value: &Expr)
        requires
            old(self).graph.wf(),
        ensures
            final(self).graph@ == assigned(
                old(self).graph@,
                opt_loc_view(target),
                value,
                old(self).current_body() is Some,
            ),
            final(self).current_body() == old(self).current_body(),
            final(self).graph.wf(),
    {
        if let Some(lhs_loc_info) = target {
            let mut rhs_loc_infos: Vec<LocInfo> = Vec::new();
            assert(locs_view(rhs_loc_infos@) =~= Seq::empty());
            if let Some(rhs_info) = self.extract_loc_infos(value) {
                rhs_loc_infos = rhs_info;
            }
            if rhs_loc_infos.len() > 0 {
                self.graph.record(lhs_loc_info, rhs_loc_infos);
            }
        }
    }

    /// Takes note of an item: the body in which the method calls that
    /// follow are resolved.
    pub fn visit_item(&mut self, item: &Item)
        ensures
            final(self).current_body() == body_after(old(self).current_body(), item),
            final(self).graph@ == old(self).graph@,
            old(self).graph.wf() ==> final(self).graph.wf(),
    {
        match item {
            Item::Fn(body_id) => {
                self.update_current_body_id(Some(*body_id));
            },
            Item::Trait(trait_items) => {
                let ghost start = self.current_body_id;
                let mut i: usize = 0;
                assert(trait_items@.take(0) =~= Seq::empty());
                while i < trait_items.len()
                    invariant
                        i <= trait_items@.len(),
                        self.current_body() == last_provided(trait_items@.take(i as int), start),
                        self.graph == old(self).graph,
                    decreases trait_items@.len() - i,
                {
                    assert(trait_items@.take(i as int + 1).drop_last() =~= trait_items@.take(
                        i as int,
                    ));
                    assert(trait_items@.take(i as int + 1).last() == trait_items@[i as int]);
                    if let Some(body_id) = &trait_items[i] {
                        self.update_current_body_id(Some(*body_id));
                    }
                    i += 1;
                }
                assert(trait_items@.take(i as int) =~= trait_items@);
            },
            Item::Other => {},
        }
    }

    /// Records a `let` statement.
    pub fn visit_local(&mut self, local: &Local)
        requires
            old(self).graph.wf(),
        ensures
            final(self).graph@ == after_local(
                old(self).graph@,
                local,
                old(self).current_body() is Some,
            ),
            final(self).current_body() == old(self).current_body(),
            final(self).graph.wf(),
    {
        if let Some(init_expr) = &local.init {
            let target = match self.extract_ident_from_pat(&local.pat) {
                Some(ident) => Some(local.pat.pos.locate(&ident)),
                None => None,
            };
            self.record_assignment(target, init_expr);
        }
    }

    /// Records an expression, if it is an assignment.
    pub fn visit_expr(&mut self, ex: &Expr)
        requires
            old(self).graph.wf(),
        ensures
            final(self).graph@ == after_expr(
                old(self).graph@,
                ex,
                old(self).current_body() is Some,
            ),
            final(self).current_body() == old(self).current_body(),
            final(self).graph.wf(),
    {
        match ex {
            Expr::Assign(lhs, rhs) => {
                let target = self.extract_loc_info(lhs);
                self.record_assignment(target, rhs);
            },
            Expr::AssignOp(lhs, rhs) => {
                let target = self.extract_loc_info(lhs);
                self.record_assignment(target, rhs);
            },
            _ => {},
        }
    }
    /// Takes the nodes of a program in order, each as `visit_item`,
    /// `visit_local` or `visit_expr` takes it.
    pub fn visit_all(&mut self, nodes: &Vec<Node>)
        requires
            old(self).graph.wf(),
        ensures
            (final(self).graph@, final(self).current_body()) == after_nodes(
                old(self).graph@,
                old(self).current_body(),
                nodes@,
                nodes@.len(),
            ),
            final(self).graph.wf(),
    {
        let mut i: usize = 0;
        while i < nodes.len()
            invariant
                i <= nodes@.len(),
                (self.graph@, self.current_body()) == after_nodes(
                    old(self).graph@,
                    old(self).current_body(),
                    nodes@,
                    i as nat,
                ),
                self.graph.wf(),
            decreases nodes@.len() - i,
        {
            match &nodes[i] {
                Node::Item(item) => self.visit_item(item),
                Node::Local(local) => self.visit_local(local),
                Node::Expr(ex) => self.visit_expr(ex),
            }
            i += 1;
        }
    }
}

} // verus!
