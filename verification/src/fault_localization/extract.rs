//! Candidates for a fault, read off a failure trace.

use vstd::prelude::*;
use crate::database::model::LocInfo;
use crate::fault_localization::text::{
    decimal_up_to, last_segment, last_segment_of, occurs_at, parse_decimal, starts_with_text,
    texts_view,
};
use crate::utils::{
    edges_leaving, first_at, first_with_id, select_dep, select_loc_info, select_loc_info_by_id,
    GraphStore, GraphStoreView,
};

verus! {

/// A suspiciousness score as an exact fraction `num / den`; lower is more
/// suspicious.
#[derive(Clone, Copy, Debug, PartialEq, Eq, Structural)]
pub struct Score {
    pub num: u64,
    pub den: u64,
}

/// A candidate location for the fault.
#[derive(Debug, PartialEq, Eq)]
pub struct FaultLoc {
    /// The name found at the location.
    pub ident: String,
    pub line_num: usize,
    pub col_num: usize,
    pub file_path: String,
    /// Whether the candidate was reached through a dependency edge rather
    /// than named by a stack frame.
    pub is_dep: bool,
    /// The stack depth of the frame that led here; after ranking, the
    /// 1-based position in depth order.
    pub depth: i32,
    /// Zero until the candidate has been ranked.
    pub score: Score,
}

/// The mathematical value of a [`FaultLoc`].
pub struct FaultLocView {
    pub ident: Seq<char>,
    pub line_num: nat,
    pub col_num: nat,
    pub file_path: Seq<char>,
    pub is_dep: bool,
    pub depth: int,
    pub score_num: nat,
    pub score_den: nat,
}

impl View for FaultLoc {
    type V = FaultLocView;

    open spec fn view(&self) -> FaultLocView {
        FaultLocView {
            ident: self.ident@,
            line_num: self.line_num as nat,
            col_num: self.col_num as nat,
            file_path: self.file_path@,
            is_dep: self.is_dep,
            depth: self.depth as int,
            score_num: self.score.num as nat,
            score_den: self.score.den as nat,
        }
    }
}

impl FaultLoc {
    /// A copy of the candidate.
    pub fn duplicate(&self) -> (r: FaultLoc)
        ensures
            r@ == self@,
    {
        FaultLoc {
            ident: self.ident.clone(),
            line_num: self.line_num,
            col_num: self.col_num,
            file_path: self.file_path.clone(),
            is_dep: self.is_dep,
            depth: self.depth,
            score: self.score,
        }
    }
}

impl FaultLocView {
    /// Whether two candidates lie at the same coordinate.
    pub open spec fn same_place(self, other: FaultLocView) -> bool {
        self.file_path == other.file_path && self.line_num == other.line_num && self.col_num
            == other.col_num
    }
}

/// The values of a list of candidates, in order.
pub open spec fn fault_locs_view(v: Seq<FaultLoc>) -> Seq<FaultLocView> {
    Seq::new(v.len(), |i: int| v[i]@)
}

/// The candidate that a stored location makes: not ranked yet, so its
/// score is zero.
pub open spec fn candidate(loc: crate::database::model::LocInfoView, is_dep: bool, depth: int)
    -> FaultLocView {
    FaultLocView {
        ident: loc.ident,
        line_num: (loc.line_num as usize) as nat,
        col_num: (loc.col_num as usize) as nat,
        file_path: loc.file_path,
        is_dep,
        depth,
        score_num: 0,
        score_den: 1,
    }
}

impl FaultLoc {
    /// The candidate that a stored location makes.
    pub fn new(loc_info: LocInfo, is_dep: bool, depth: i32) -> (r: Self)
        ensures
            r@ == candidate(loc_info@, is_dep, depth as int),
    {
        FaultLoc {
            ident: loc_info.ident,
            line_num: loc_info.line_num as usize,
            col_num: loc_info.col_num as usize,
            file_path: loc_info.file_path,
            is_dep,
            depth,
            score: Score { num: 0, den: 1 },
        }
    }

    /// Whether two candidates lie at the same coordinate.
    pub fn same_place(&self, other: &FaultLoc) -> (r: bool)
        ensures
            r == self@.same_place(other@),
    {
        self.line_num == other.line_num && self.col_num == other.col_num && self.file_path
            == other.file_path
    }
}

/// The pattern of a frame header: depth, address, and a name that may be
/// qualified by a path.
pub open spec fn header_pattern() -> Seq<char> {
    r"(\d+):\s+0x[0-9a-f]+ - (.+)$"@
}

/// The pattern of a frame location: `at`, an absolute path, line, column.
pub open spec fn location_pattern() -> Seq<char> {
    r"^\s*at (/.+?):(\d+):(\d+)"@
}

/// What the first match of a regular expression in a text captured: the
/// whole match, then each group of the pattern in order, a group that took
/// no part in the match as `None`. None if the pattern is no valid regular
/// expression, or matches nowhere in the text.
pub uninterp spec fn regex_captures(pattern: Seq<char>, text: Seq<char>) -> Option<Seq<Option<Seq<char>>>>;

/// The texts of a list of capture groups.
pub open spec fn groups_view(v: Seq<Option<String>>) -> Seq<Option<Seq<char>>> {
    Seq::new(
        v.len(),
        |i: int|
            match v[i] {
                Some(text) => Some(text@),
                None => None,
            },
    )
}

/// The texts of a list of capture groups that may be missing.
pub open spec fn opt_groups_view(v: Option<Vec<Option<String>>>) -> Option<Seq<Option<Seq<char>>>> {
    match v {
        Some(groups) => Some(groups_view(groups@)),
        None => None,
    }
}

/// Compiles `pattern` with `regex::Regex::new` and searches `text` with
/// `Regex::captures`. The contract only names the outcome: it is whatever
/// the regex crate finds for this pattern in this text, with an invalid
/// pattern and a text without a match both answered by `None`.
#[verifier::external_body]
fn captures(pattern: &str, text: &str) -> (r: Option<Vec<Option<String>>>)
    ensures
        opt_groups_view(r) == regex_captures(pattern@, text@),
{
    let re = regex::Regex::new(pattern).ok()?;
    let caps = re.captures(text)?;
    Some(caps.iter().map(|m| m.map(|m| m.as_str().to_string())).collect())
}

/// The header of a frame: its depth in the stack and the name of what
/// ran there.
#[derive(Debug, PartialEq, Eq)]
pub struct FrameHeader {
    pub depth: i32,
    pub ident: String,
}

/// The mathematical value of a [`FrameHeader`].
pub struct FrameHeaderView {
    pub depth: int,
    pub ident: Seq<char>,
}

impl View for FrameHeader {
    type V = FrameHeaderView;

    open spec fn view(&self) -> FrameHeaderView {
        FrameHeaderView { depth: self.depth as int, ident: self.ident@ }
    }
}

/// Where a frame ran: file, line and column.
#[derive(Debug, PartialEq, Eq)]
pub struct FrameLocation {
    pub file_path: String,
    pub line_num: usize,
    pub col_num: usize,
}

/// The mathematical value of a [`FrameLocation`].
pub struct FrameLocationView {
    pub file_path: Seq<char>,
    pub line_num: nat,
    pub col_num: nat,
}

impl View for FrameLocation {
    type V = FrameLocationView;

    open spec fn view(&self) -> FrameLocationView {
        FrameLocationView {
            file_path: self.file_path@,
            line_num: self.line_num as nat,
            col_num: self.col_num as nat,
        }
    }
}

/// The header that the captures of the header pattern give: the depth,
/// which must fit 32 bits with a sign, and the last segment of the name.
/// None if there are not exactly the whole match and two groups, a group
/// took no part in the match, or the depth is no such number.
pub open spec fn header_from(groups: Seq<Option<Seq<char>>>) -> Option<FrameHeaderView> {
    if groups.len() != 3 {
        None
    } else {
        match (groups[1], groups[2]) {
            (Some(number), Some(name)) => match decimal_up_to(number, i32::MAX as nat) {
                Some(depth) => Some(
                    FrameHeaderView { depth: depth as int, ident: last_segment(name) },
                ),
                None => None,
            },
            _ => None,
        }
    }
}

/// A line or column number: what the text writes, or zero if it writes no
/// number that the machine can hold.
pub open spec fn number_or_zero(text: Seq<char>) -> nat {
    match decimal_up_to(text, usize::MAX as nat) {
        Some(v) => v,
        None => 0,
    }
}

/// The location that the captures of the location pattern give. None if
/// there are not exactly the whole match and three groups, or a group took
/// no part in the match.
pub open spec fn location_from(groups: Seq<Option<Seq<char>>>) -> Option<FrameLocationView> {
    if groups.len() != 4 {
        None
    } else {
        match (groups[1], groups[2], groups[3]) {
            (Some(path), Some(line), Some(column)) => Some(
                FrameLocationView {
                    file_path: path,
                    line_num: number_or_zero(line),
                    col_num: number_or_zero(column),
                },
            ),
            _ => None,
        }
    }
}

/// Whether a path lies in the tree of the compiler and its runtime, whose
/// frames are never candidates: whether it begins with `/rustc`.
pub open spec fn is_excluded(path: Seq<char>) -> bool {
    occurs_at(path, "/rustc"@, 0)
}

/// The header that the captures of the header pattern give.
pub fn frame_header(groups: &Vec<Option<String>>) -> (r: Option<FrameHeader>)
    ensures
        match r {
            Some(h) => header_from(groups_view(groups@)) == Some(h@),
            None => header_from(groups_view(groups@)) is None,
        },
{
    if groups.len() != 3 {
        return None;
    }
    match &groups[1] {
        Some(number) => match &groups[2] {
            Some(name) => match parse_decimal(number.as_str(), 0x7fff_ffff) {
                Some(depth) => Some(
                    FrameHeader { depth: depth as i32, ident: last_segment_of(name.as_str()) },
                ),
                None => None,
            },
            None => None,
        },
        None => None,
    }
}

/// A line or column number, or zero.
fn parse_number_or_zero(text: &str) -> (r: usize)
    ensures
        r == number_or_zero(text@),
{
    match parse_decimal(text, usize::MAX as u64) {
        Some(v) => v as usize,
        None => 0,
    }
}

/// The location that the captures of the location pattern give.
pub fn frame_location(groups: &Vec<Option<String>>) -> (r: Option<FrameLocation>)
    ensures
        match r {
            Some(l) => location_from(groups_view(groups@)) == Some(l@),
            None => location_from(groups_view(groups@)) is None,
        },
{
    if groups.len() != 4 {
        return None;
    }
    match &groups[1] {
        Some(path) => match &groups[2] {
            Some(line) => match &groups[3] {
                Some(column) => Some(
                    FrameLocation {
                        file_path: path.clone(),
                        line_num: parse_number_or_zero(line.as_str()),
                        col_num: parse_number_or_zero(column.as_str()),
                    },
                ),
                None => None,
            },
            None => None,
        },
        None => None,
    }
}

/// The candidates behind the edges `edges[0..n]`: for each edge in order,
/// the stored location it leads to, under `depth`; an edge that leads to
/// no stored location gives none.
pub open spec fn edge_targets(
    store: GraphStoreView,
    edges: Seq<crate::database::model::Dependency>,
    depth: int,
    n: nat,
) -> Seq<FaultLocView>
    decreases n,
{
    if n == 0 {
        Seq::empty()
    } else {
        let before = edge_targets(store, edges, depth, (n - 1) as nat);
        match first_with_id(store.loc_info, edges[n - 1].rhs_id as int) {
            Some(row) => before.push(candidate(row, true, depth)),
            None => before,
        }
    }
}

/// The candidates that a candidate depends on: the stored locations that
/// the edges leaving its coordinate lead to, in the order of the edges,
/// each under the candidate's depth. There are none if the store has no
/// location at the coordinate, which is so whenever line or column exceed
/// the 32 bits in which the store keeps them.
pub open spec fn stored_dependencies(store: GraphStoreView, lhs: FaultLocView) -> Seq<
    FaultLocView,
> {
    if lhs.line_num > i32::MAX || lhs.col_num > i32::MAX {
        Seq::empty()
    } else {
        match first_at(store.loc_info, lhs.file_path, lhs.line_num as int, lhs.col_num as int) {
            Some(row) => {
                let edges = edges_leaving(store.dependencies, row.id);
                edge_targets(store, edges, lhs.depth, edges.len())
            },
            None => Seq::empty(),
        }
    }
}

/// The candidates that `lhs` depends on, by one step along the edges of
/// the store.
pub fn find_dependencies(store: &GraphStore, lhs: FaultLoc) -> (r: Vec<FaultLoc>)
    ensures
        fault_locs_view(r@) == stored_dependencies(store@, lhs@),
{
    let mut dependencies: Vec<FaultLoc> = Vec::new();
    assert(fault_locs_view(dependencies@) =~= Seq::empty());
    if lhs.line_num > 0x7fff_ffff || lhs.col_num > 0x7fff_ffff {
        return dependencies;
    }
    let lhs_loc = match select_loc_info(
        store,
        lhs.file_path.clone(),
        lhs.line_num as i32,
        lhs.col_num as i32,
    ) {
        Ok(loc) => loc,
        Err(_) => {
            return dependencies;
        },
    };
    let deps = select_dep(store, &lhs_loc);
    let mut i: usize = 0;
    while i < deps.len()
        invariant
            i <= deps@.len(),
            fault_locs_view(dependencies@) == edge_targets(
                store@,
                deps@,
                lhs.depth as int,
                i as nat,
            ),
        decreases deps@.len() - i,
    {
        let ghost before = fault_locs_view(dependencies@);
        match select_loc_info_by_id(store, deps[i].rhs_id) {
            Ok(rhs_loc) => {
                let rhs_dep = FaultLoc::new(rhs_loc, true, lhs.depth);
                dependencies.push(rhs_dep);
                assert(fault_locs_view(dependencies@) =~= before.push(rhs_dep@));
            },
            Err(_) => {},
        }
        i += 1;
    }
    dependencies
}

/// Whether a candidate at the coordinate of `c` is among `out`.
pub open spec fn seen(out: Seq<FaultLocView>, c: FaultLocView) -> bool {
    exists|i: int| 0 <= i < out.len() && (#[trigger] out[i]).same_place(c)
}

/// Whether no two of the candidates lie at the same coordinate.
pub open spec fn no_repeats(out: Seq<FaultLocView>) -> bool {
    forall|i: int, j: int|
        0 <= i < j < out.len() ==> !(#[trigger] out[i]).same_place(#[trigger] out[j])
}

/// `out`, followed by those of the first `n` of `cands` whose coordinate
/// has not been seen before them.
pub open spec fn with_unseen(out: Seq<FaultLocView>, cands: Seq<FaultLocView>, n: nat) -> Seq<
    FaultLocView,
>
    decreases n,
{
    if n == 0 {
        out
    } else {
        let before = with_unseen(out, cands, (n - 1) as nat);
        if seen(before, cands[n - 1]) {
            before
        } else {
            before.push(cands[n - 1])
        }
    }
}

/// The candidate that a frame names directly.
pub open spec fn frame_candidate(header: FrameHeaderView, location: FrameLocationView)
    -> FaultLocView {
    FaultLocView {
        ident: header.ident,
        line_num: location.line_num,
        col_num: location.col_num,
        file_path: location.file_path,
        is_dep: false,
        depth: header.depth,
        score_num: 0,
        score_den: 1,
    }
}

/// The candidates after a frame: unless the frame lies in an excluded
/// path or at a coordinate already seen, the frame itself, then what it
/// depends on, as far as not seen before.
pub open spec fn with_frame(
    out: Seq<FaultLocView>,
    store: GraphStoreView,
    header: FrameHeaderView,
    location: FrameLocationView,
) -> Seq<FaultLocView> {
    let frame = frame_candidate(header, location);
    if is_excluded(location.file_path) || seen(out, frame) {
        out
    } else {
        let deps = stored_dependencies(store, frame);
        with_unseen(out.push(frame), deps, deps.len())
    }
}

/// Whether a candidate at the coordinate of `c` is among `out`.
fn already_seen(out: &Vec<FaultLoc>, c: &FaultLoc) -> (r: bool)
    ensures
        r == seen(fault_locs_view(out@), c@),
{
    let mut i: usize = 0;
    while i < out.len()
        invariant
            i <= out@.len(),
            forall|k: int| 0 <= k < i ==> !(#[trigger] fault_locs_view(out@)[k]).same_place(c@),
        decreases out@.len() - i,
    {
        if out[i].same_place(c) {
            assert(fault_locs_view(out@)[i as int].same_place(c@));
            return true;
        }
        i += 1;
    }
    false
}

/// Adds a candidate unless its coordinate has been seen.
fn push_unseen(out: &mut Vec<FaultLoc>, c: FaultLoc)
    ensures
        fault_locs_view(final(out)@) == (if seen(fault_locs_view(old(out)@), c@) {
            fault_locs_view(old(out)@)
        } else {
            fault_locs_view(old(out)@).push(c@)
        }),
        no_repeats(fault_locs_view(old(out)@)) ==> no_repeats(fault_locs_view(final(out)@)),
{
    let ghost before = fault_locs_view(out@);
    if !already_seen(out, &c) {
        out.push(c);
        assert(fault_locs_view(out@) =~= before.push(c@));
    }
}

/// Takes a frame into the list of candidates: the frame itself, then what
/// it depends on.
pub fn add_frame(
    out: &mut Vec<FaultLoc>,
    store: &GraphStore,
    header: FrameHeader,
    location: FrameLocation,
)
    ensures
        fault_locs_view(final(out)@) == with_frame(
            fault_locs_view(old(out)@),
            store@,
            header@,
            location@,
        ),
        no_repeats(fault_locs_view(old(out)@)) ==> no_repeats(fault_locs_view(final(out)@)),
{
    if starts_with_text(location.file_path.as_str(), "/rustc") {
        return ;
    }
    let lhs = FaultLoc {
        ident: header.ident,
        line_num: location.line_num,
        col_num: location.col_num,
        file_path: location.file_path,
        is_dep: false,
        depth: header.depth,
        score: Score { num: 0, den: 1 },
    };
    if already_seen(out, &lhs) {
        return ;
    }
    let ghost start = fault_locs_view(out@).push(lhs@);
    let dependencies = find_dependencies(store, lhs.duplicate());
    let ghost deps = fault_locs_view(dependencies@);
    push_unseen(out, lhs);
    let mut i: usize = 0;
    while i < dependencies.len()
        invariant
            i <= dependencies@.len(),
            deps == fault_locs_view(dependencies@),
            fault_locs_view(out@) == with_unseen(start, deps, i as nat),
            no_repeats(fault_locs_view(old(out)@)) ==> no_repeats(fault_locs_view(out@)),
        decreases dependencies@.len() - i,
    {
        push_unseen(out, dependencies[i].duplicate());
        i += 1;
    }
}

/// The header that a line holds, if it is a frame header.
pub open spec fn header_of(line: Seq<char>) -> Option<FrameHeaderView> {
    match regex_captures(header_pattern(), line) {
        Some(groups) => header_from(groups),
        None => None,
    }
}

/// The location that a line holds, if it is a frame location.
pub open spec fn location_of(line: Seq<char>) -> Option<FrameLocationView> {
    match regex_captures(location_pattern(), line) {
        Some(groups) => location_from(groups),
        None => None,
    }
}

/// The candidates after the first `n` lines of a trace, and the header
/// that waits for its location, if the last of those lines was one.
///
/// A line is looked at as a header unless a header waits. The line after
/// a header is looked at as its location: if it is one, the frame is
/// taken; if not, header and line are both dropped. Any other line is
/// passed over.
pub open spec fn scanned(store: GraphStoreView, lines: Seq<Seq<char>>, n: nat) -> (
    Seq<FaultLocView>,
    Option<FrameHeaderView>,
)
    decreases n,
{
    if n == 0 {
        (Seq::empty(), None)
    } else {
        let (out, waiting) = scanned(store, lines, (n - 1) as nat);
        let line = lines[n - 1];
        match waiting {
            Some(header) => (
                match location_of(line) {
                    Some(location) => with_frame(out, store, header, location),
                    None => out,
                },
                None,
            ),
            None => (out, header_of(line)),
        }
    }
}

/// The header that a line holds, if it is a frame header.
fn read_header(line: &str) -> (r: Option<FrameHeader>)
    ensures
        match r {
            Some(h) => header_of(line@) == Some(h@),
            None => header_of(line@) is None,
        },
{
    match captures(r"(\d+):\s+0x[0-9a-f]+ - (.+)$", line) {
        Some(groups) => frame_header(&groups),
        None => None,
    }
}

/// The location that a line holds, if it is a frame location.
fn read_location(line: &str) -> (r: Option<FrameLocation>)
    ensures
        match r {
            Some(l) => location_of(line@) == Some(l@),
            None => location_of(line@) is None,
        },
{
    match captures(r"^\s*at (/.+?):(\d+):(\d+)", line) {
        Some(groups) => frame_location(&groups),
        None => None,
    }
}

/// The value of a header that may be missing.
pub open spec fn opt_header_view(h: Option<FrameHeader>) -> Option<FrameHeaderView> {
    match h {
        Some(header) => Some(header@),
        None => None,
    }
}

/// The candidates that a trace names, in the order of the trace: each
/// frame outside the excluded paths, followed at once by what it depends
/// on in the store. No coordinate is given twice.
pub fn extract_backtrace(store: &GraphStore, lines: &Vec<String>) -> (r: Vec<FaultLoc>)
    ensures
        fault_locs_view(r@) == scanned(store@, texts_view(lines@), lines@.len()).0,
        no_repeats(fault_locs_view(r@)),
{
    let mut fault_locs: Vec<FaultLoc> = Vec::new();
    let mut waiting: Option<FrameHeader> = None;
    assert(fault_locs_view(fault_locs@) =~= Seq::empty());
    let mut i: usize = 0;
    while i < lines.len()
        invariant
            i <= lines@.len(),
            (fault_locs_view(fault_locs@), opt_header_view(waiting)) == scanned(
                store@,
                texts_view(lines@),
                i as nat,
            ),
            no_repeats(fault_locs_view(fault_locs@)),
        decreases lines@.len() - i,
    {
        let line = lines[i].as_str();
        assert(texts_view(lines@)[i as int] == line@);
        match waiting {
            Some(header) => {
                if let Some(location) = read_location(line) {
                    add_frame(&mut fault_locs, store, header, location);
                }
                waiting = None;
            },
            None => {
                waiting = read_header(line);
            },
        }
        i += 1;
    }
    fault_locs
}

} // verus!
