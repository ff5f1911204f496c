//! The two kinds of record that the graph store keeps: locations and
//! dependency edges between them.

use vstd::prelude::*;

verus! {

/// A stored location: a source coordinate, the name found there, and the
/// identifier that the store gave it.
#[derive(Debug, PartialEq, Eq)]
pub struct LocInfo {
    pub id: i32,
    pub ident: String,
    pub line_num: i32,
    pub col_num: i32,
    pub file_path: String,
}

/// The mathematical value of a [`LocInfo`].
pub struct LocInfoView {
    pub id: int,
    pub ident: Seq<char>,
    pub line_num: int,
    pub col_num: int,
    pub file_path: Seq<char>,
}

impl LocInfoView {
    /// Whether the location lies at the given coordinate. The name plays
    /// no part in where a location is.
    pub open spec fn is_at(self, path: Seq<char>, line: int, col: int) -> bool {
        self.file_path == path && self.line_num == line && self.col_num == col
    }
}

impl View for LocInfo {
    type V = LocInfoView;

    open spec fn view(&self) -> LocInfoView {
        LocInfoView {
            id: self.id as int,
            ident: self.ident@,
            line_num: self.line_num as int,
            col_num: self.col_num as int,
            file_path: self.file_path@,
        }
    }
}

impl LocInfo {
    /// A copy of the record.
    pub fn duplicate(&self) -> (r: LocInfo)
        ensures
            r@ == self@,
    {
        LocInfo {
            id: self.id,
            ident: self.ident.clone(),
            line_num: self.line_num,
            col_num: self.col_num,
            file_path: self.file_path.clone(),
        }
    }
}

/// A location that has not been stored yet, and so has no identifier.
#[derive(Debug, PartialEq, Eq)]
pub struct NewLocInfo<'a> {
    pub ident: &'a str,
    pub line_num: i32,
    pub col_num: i32,
    pub file_path: &'a str,
}

impl<'a> NewLocInfo<'a> {
    /// The record that the location becomes once the store has given it
    /// the identifier `id`.
    pub open spec fn stored_as(self, id: int) -> LocInfoView {
        LocInfoView {
            id,
            ident: self.ident@,
            line_num: self.line_num as int,
            col_num: self.col_num as int,
            file_path: self.file_path@,
        }
    }
}

/// A stored edge: the value at `lhs_id` is computed from the value at
/// `rhs_id`.
#[derive(Clone, Copy, Debug, PartialEq, Eq, Structural)]
pub struct Dependency {
    pub id: i32,
    pub lhs_id: i32,
    pub rhs_id: i32,
}

/// An edge that has not been stored yet.
#[derive(Clone, Copy, Debug, PartialEq, Eq, Structural)]
pub struct NewDependency {
    pub lhs_id: i32,
    pub rhs_id: i32,
}

} // verus!
