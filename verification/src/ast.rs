//! The syntax tree the rule reads: an immutable, already-parsed expression
//! tree owned by the host. The rule never mutates it and never re-parses
//! source text; every type here is a plain value the host fills in.

use vstd::prelude::*;

verus! {

/// A range over source text: the byte offsets `[lo, hi)` of the token
/// sequence a node was parsed from. Used to locate and replace tokens.
#[derive(Clone, Copy, Debug, PartialEq, Eq, Structural)]
pub struct Span {
    pub lo: usize,
    pub hi: usize,
}

/// A path expression: one or more identifier segments, such as `bar` or
/// `module::bar`.
#[derive(Debug, PartialEq, Eq)]
pub struct PathExpr {
    /// The segments in source order; a parsed path has at least one.
    pub segments: Vec<String>,
}

/// One `name: value` (or shorthand `name`) initializer inside a struct
/// literal.
pub struct FieldInit {
    /// The field identifier text.
    pub name: String,
    /// The value expression; for a shorthand field it is definitionally the
    /// bare identifier itself.
    pub value: Expr,
    /// Whether the field was written in field-init shorthand (`name` alone).
    pub is_shorthand: bool,
    /// The span of the whole `name: value` (or `name`) token sequence.
    pub span: Span,
}

/// A struct-literal expression: an optional type path, the field
/// initializers in source order, and whether a `..rest` (update syntax) tail
/// was written.
pub struct StructLiteral {
    /// The type path before the braces, where the grammar has one.
    pub path: Option<PathExpr>,
    /// The field initializers, in the order they stand in the source.
    pub fields: Vec<FieldInit>,
    /// Whether the literal ends in update syntax (`..rest`).
    pub has_rest: bool,
}

/// An expression node. The rule distinguishes struct literals, which it
/// inspects, and paths, which the detector classifies; every other kind is
/// opaque apart from the child expressions it carries.
pub enum Expr {
    /// A struct literal such as `Foo { bar: 1 }`.
    Struct(StructLiteral),
    /// A path such as `bar` or `module::bar`.
    Path(PathExpr),
    /// A literal token; it carries no child expressions.
    Lit,
    /// Any other expression kind (a call, a field access, ...), reduced to
    /// the child expressions it contains, in source order.
    Other(Vec<Expr>),
}

/// The parsed compilation unit handed over by the host: its top-level
/// expressions in source order.
pub struct SyntaxTree {
    pub exprs: Vec<Expr>,
}

} // verus!
