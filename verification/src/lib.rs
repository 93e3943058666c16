//! Source-to-source rewriting of pattern matches against a pinned data type
//! into matches against its generated projection type.
//!
//! The rewriters here operate on a small model of the host language's syntax
//! tree holding exactly what the rewrite reads: pattern shapes, path segment
//! names, marker attributes, `use` trees and `impl` headers. A bridge outside
//! this library converts between the full syntax tree and this model.

use vstd::prelude::*;

pub mod ast;
pub mod entry;
pub mod expr;
pub mod fnbody;
pub mod ident;
pub mod items;
pub mod laws;
pub mod pattern;

pub use ident::Ident;

verus! {

/// Which projection method a rewrite targets. Threaded unchanged through
/// every rewriter call; it only selects the derived names.
#[derive(Clone, Copy, PartialEq, Eq, Structural)]
pub enum Mutability {
    Mutable,
    Immutable,
    Owned,
}

/// Why a rewrite was refused.
#[derive(Clone, Copy, Debug, PartialEq, Eq, Structural)]
pub enum RewriteError {
    /// The outer attribute, or an opt-in marker, was given argument tokens.
    UnexpectedArgument,
    /// Both the initializer of a `let` and its binding pattern would rewrite.
    AmbiguousLet,
    /// The rewrite was asked for on a glob import.
    GlobImport,
    /// The rewrite was asked for on a renamed import.
    RenamedImport,
}

} // verus!
