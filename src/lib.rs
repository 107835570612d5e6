//! Strongly typed access to weakly typed data.
//!
//! The runtime half (`runtime`) holds the capabilities that a weak-data
//! domain implements once: a `Descriptor` that projects a weak value onto its
//! strong shape, field access, and variant filtering, together with the
//! routed accessors and the variant dispatch that generated wrappers call.
//! `object` implements them for string-keyed maps.
//!
//! The generative half plans the wrapper types and accessors for a
//! declaration (`decl`): it reads the attribute argument grammar (`tokens`,
//! `grammar`, `args`), derives keys from name templates (`names`, `casing`,
//! `numbers`), and lays out the methods and companion types of structs,
//! unions and enums (`plan`). Problems are collected as `diagnostics`, never
//! fatal.
use vstd::prelude::*;

pub mod tokens;
pub mod casing;
pub mod numbers;
pub mod diagnostics;
pub mod names;
pub mod grammar;
pub mod args;
pub mod decl;
pub mod plan;
pub mod runtime;
pub mod object;

pub use runtime::{
    Descriptor, Error, Faible, FieldAccess, TransparentView, UnionFieldAccess, VariantFieldAccess,
    VariantFilter,
};
