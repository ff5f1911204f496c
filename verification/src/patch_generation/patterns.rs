//! The closed vocabulary of repair patterns.

use vstd::prelude::*;

verus! {

/// A repair pattern: one named rewrite rule of the catalog.
#[derive(Clone, Copy, Debug, PartialEq, Eq, Structural)]
pub enum PATTERN {
    /// Subtract one from the index of an indexing expression.
    IndexMutate,
    /// Replace a method literally named `add`.
    McAdd(AddType),
    /// Replace a method call, or an arithmetic operator, by a safer variant.
    McChange(ChangeType),
}

/// What a method call (or operator) is changed into.
#[derive(Clone, Copy, Debug, PartialEq, Eq, Structural)]
pub enum ChangeType {
    /// `+`, `-`, `abs` become their saturating variants.
    ToSaturating,
    /// Reserved: arithmetic into its checked variant. Rewrites nothing.
    ToCheck,
    /// Reserved: arithmetic into its wrapping variant. Rewrites nothing.
    ToWrapping,
    /// `map` over a closure that unwraps becomes `filter_map`.
    ToFilterMap,
    /// Reserved: `expect` into `unwrap`. Rewrites nothing.
    ToUnwrap,
    /// `expect` becomes `unwrap_or_else` with a default-producing closure.
    ToUnwrapOrElse,
    /// `expect` becomes `unwrap_or_default`.
    ToUnwrapOrFault,
    /// `copy_from_slice` becomes `extend_from_slice`.
    ToExtendFromSlice,
}

/// What a method named `add` is replaced by.
#[derive(Clone, Copy, Debug, PartialEq, Eq, Structural)]
pub enum AddType {
    /// `add` becomes `as_bytes`.
    AddAsBytes,
    /// `add` becomes `max`.
    AddMax,
}

} // verus!
