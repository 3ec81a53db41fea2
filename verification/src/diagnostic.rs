//! The record the rule produces: one diagnostic per redundant field, handed
//! to the host's reporting interface and not retained. The host supplies
//! severity and category through its registry; they are not computed here.

use vstd::prelude::*;
use crate::ast::Span;

verus! {

/// A report for one redundant field: a message, the source range to
/// highlight, and a suggested replacement for the host's fix-application
/// tooling to perform.
#[derive(Debug, PartialEq, Eq)]
pub struct Diagnostic {
    /// The stable identifier of the lint that produced the report.
    pub lint_id: String,
    /// The human-readable explanation.
    pub message: String,
    /// The short label introducing the suggested replacement.
    pub help: String,
    /// The source range to highlight: the whole field initializer.
    pub span: Span,
    /// The replacement text: the field identifier alone, in shorthand form.
    pub replacement: String,
    /// Where the replacement applies; the same range that is highlighted.
    pub replacement_span: Span,
}

/// The mathematical value of a [`Diagnostic`]: its strings as character
/// sequences.
#[verifier::ext_equal]
pub struct DiagView {
    pub lint_id: Seq<char>,
    pub message: Seq<char>,
    pub help: Seq<char>,
    pub span: Span,
    pub replacement: Seq<char>,
    pub replacement_span: Span,
}

impl View for Diagnostic {
    type V = DiagView;

    open spec fn view(&self) -> DiagView {
        DiagView {
            lint_id: self.lint_id@,
            message: self.message@,
            help: self.help@,
            span: self.span,
            replacement: self.replacement@,
            replacement_span: self.replacement_span,
        }
    }
}

/// The views of a sequence of diagnostics, in order.
pub open spec fn diag_views(s: Seq<Diagnostic>) -> Seq<DiagView> {
    s.map_values(|d: Diagnostic| d@)
}

/// Appending one diagnostic appends its view.
pub proof fn lemma_diag_views_push(s: Seq<Diagnostic>, d: Diagnostic)
    ensures
        diag_views(s.push(d)) == diag_views(s).push(d@),
{
    assert(diag_views(s.push(d)) =~= diag_views(s).push(d@));
}

/// The views of an empty sequence of diagnostics are empty.
pub proof fn lemma_diag_views_empty(s: Seq<Diagnostic>)
    requires
        s.len() == 0,
    ensures
        diag_views(s) == Seq::<DiagView>::empty(),
{
    assert(diag_views(s) =~= Seq::<DiagView>::empty());
}

} // verus!
