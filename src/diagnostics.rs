//! The diagnostics that planning a declaration can report.
use vstd::prelude::*;

verus! {

/// What a name is being derived for.
#[derive(Clone, Copy, Debug, PartialEq, Eq, Structural)]
pub enum ItemKind {
    Field,
    Variant,
}

/// A problem found while reading the attribute arguments or deriving names.
/// Problems are collected, never fatal: planning always goes on.
#[derive(Clone, Copy, Debug, PartialEq, Eq, Structural)]
pub enum Diagnostic {
    /// An expression was expected at this point.
    ExpectedExpression,
    /// A `=` was expected after a keyword.
    ExpectedEquals,
    /// A path was expected.
    ExpectedPath,
    /// A field or variant attribute must hold a parenthesised list.
    ExpectedParenthesized,
    /// One of `faible`, `names` or `no_weak_conversions` was expected.
    ExpectedTopLevelKeyword,
    /// One of `name` or `names` was expected.
    ExpectedInnerKeyword,
    /// Tokens were left over after the arguments.
    UnexpectedTokens,
    /// `name = ` was given twice for one item.
    DuplicateName,
    /// No name template reaches this item.
    NameRequired(ItemKind),
    /// `discriminant` was used on a variant without an explicit discriminant.
    DiscriminantRequired,
    /// A casing was asked for on an item that has no identifier.
    UnnamedInterpolation,
    /// A string literal in a name template names no casing.
    UnrecognisedLiteral,
    /// An identifier in a name template names no casing.
    UnrecognisedIdent,
    /// The descriptor expression does not start with a path to its type.
    DescriptorTypeUnknown,
    /// The attribute stands on an item that is not a struct, union or enum.
    UnsupportedItem,
}

} // verus!
