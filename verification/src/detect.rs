//! The Redundancy Detector and the Suggestion Emitter: decide, per field
//! initializer, whether the written-out `name: value` is redundant, and build
//! the diagnostic for each field that is.

use vstd::prelude::*;
use crate::ast::{Expr, FieldInit};
use crate::diagnostic::{Diagnostic, DiagView};

verus! {

/// The stable identifier of this rule.
pub open spec fn lint_id_text() -> Seq<char> {
    "redundant_field_names"@
}

/// The explanation attached to every report of this rule.
pub open spec fn message_text() -> Seq<char> {
    "redundant field names in struct initialization"@
}

/// The label introducing the suggested replacement.
pub open spec fn help_text() -> Seq<char> {
    "replace it with"@
}

/// Whether a field initializer is a redundant-name candidate: it is not
/// shorthand, its value is a bare (single-segment) path, and that segment's
/// text equals the field name exactly, case-sensitively.
pub open spec fn candidate(f: FieldInit) -> bool {
    !f.is_shorthand && (f.value matches Expr::Path(p)
        && p.segments@.len() == 1
        && p.segments@[0]@ == f.name@)
}

/// The Redundancy Detector: decides whether one field initializer should be
/// flagged. A pure, total decision; no input is an error.
pub fn field_is_redundant(f: &FieldInit) -> (r: bool)
    ensures
        r == candidate(*f),
{
    if f.is_shorthand {
        false
    } else {
        match &f.value {
            Expr::Path(p) => p.segments.len() == 1 && p.segments[0] == f.name,
            _ => false,
        }
    }
}

/// The value of the diagnostic the emitter builds for a candidate field: the
/// highlighted span is the whole field initializer, and the suggested
/// replacement is the field identifier text alone, applied at that same span.
pub open spec fn diag_for(f: FieldInit) -> DiagView {
    DiagView {
        lint_id: lint_id_text(),
        message: message_text(),
        help: help_text(),
        span: f.span,
        replacement: f.name@,
        replacement_span: f.span,
    }
}

/// The Suggestion Emitter's constructor: the report for one candidate field.
pub fn diagnostic_for(f: &FieldInit) -> (d: Diagnostic)
    ensures
        d@ == diag_for(*f),
{
    let d = Diagnostic {
        lint_id: "redundant_field_names".to_owned(),
        message: "redundant field names in struct initialization".to_owned(),
        help: "replace it with".to_owned(),
        span: f.span,
        replacement: f.name.clone(),
        replacement_span: f.span,
    };
    proof {
        assert(d@ =~= diag_for(*f));
    }
    d
}

/// The diagnostics one struct literal's own field list produces, in field
/// declaration order: exactly one per candidate field.
pub open spec fn fields_own_diags(fields: Seq<FieldInit>) -> Seq<DiagView>
    decreases fields.len(),
{
    if fields.len() == 0 {
        Seq::empty()
    } else {
        let rest = fields_own_diags(fields.drop_last());
        if candidate(fields.last()) {
            rest.push(diag_for(fields.last()))
        } else {
            rest
        }
    }
}

/// Extending a field list by one field extends its diagnostics by that
/// field's diagnostic exactly when the field is a candidate.
pub proof fn lemma_own_diags_take_step(fields: Seq<FieldInit>, i: int)
    requires
        0 <= i < fields.len(),
    ensures
        fields_own_diags(fields.take(i + 1)) == (if candidate(fields[i]) {
            fields_own_diags(fields.take(i)).push(diag_for(fields[i]))
        } else {
            fields_own_diags(fields.take(i))
        }),
{
    assert(fields.take(i + 1).drop_last() =~= fields.take(i));
    assert(fields.take(i + 1).last() == fields[i]);
}

/// Law: a field that is not shorthand, whose value is a bare single-segment
/// path whose text equals the field name, always yields a diagnostic, and the
/// suggested replacement of that diagnostic is exactly the identifier text.
pub proof fn lemma_candidate_field_flagged(fields: Seq<FieldInit>, i: int)
    requires
        0 <= i < fields.len(),
        !fields[i].is_shorthand,
        fields[i].value matches Expr::Path(p) && p.segments@.len() == 1
            && p.segments@[0]@ == fields[i].name@,
    ensures
        fields_own_diags(fields).contains(diag_for(fields[i])),
        diag_for(fields[i]).replacement == fields[i].name@,
    decreases fields.len(),
{
    let own = fields_own_diags(fields);
    if i == fields.len() - 1 {
        assert(own.last() == diag_for(fields[i]));
    } else {
        lemma_candidate_field_flagged(fields.drop_last(), i);
        let prefix = fields_own_diags(fields.drop_last());
        let j = choose|j: int| 0 <= j < prefix.len() && prefix[j] == diag_for(
            fields.drop_last()[i],
        );
        assert(own[j] == diag_for(fields[i]));
    }
}

/// Law: a field that is not a candidate contributes nothing — the
/// diagnostics are exactly those of the field list with that field removed.
pub proof fn lemma_non_candidate_ignored(fields: Seq<FieldInit>, i: int)
    requires
        0 <= i < fields.len(),
        !candidate(fields[i]),
    ensures
        fields_own_diags(fields) == fields_own_diags(fields.remove(i)),
    decreases fields.len(),
{
    if i == fields.len() - 1 {
        assert(fields.remove(i) =~= fields.drop_last());
    } else {
        lemma_non_candidate_ignored(fields.drop_last(), i);
        assert(fields.remove(i).drop_last() =~= fields.drop_last().remove(i));
        assert(fields.remove(i).last() == fields.last());
    }
}

/// Law: a shorthand field is never flagged — the diagnostics are those of
/// the field list without it.
pub proof fn lemma_shorthand_ignored(fields: Seq<FieldInit>, i: int)
    requires
        0 <= i < fields.len(),
        fields[i].is_shorthand,
    ensures
        fields_own_diags(fields) == fields_own_diags(fields.remove(i)),
{
    lemma_non_candidate_ignored(fields, i);
}

/// Law: a field whose value is a qualified (multi-segment) path is never
/// flagged, even when its last segment equals the field name — the
/// diagnostics are those of the field list without it.
pub proof fn lemma_qualified_path_ignored(fields: Seq<FieldInit>, i: int)
    requires
        0 <= i < fields.len(),
        fields[i].value matches Expr::Path(p) && p.segments@.len() > 1,
    ensures
        fields_own_diags(fields) == fields_own_diags(fields.remove(i)),
{
    lemma_non_candidate_ignored(fields, i);
}

/// Law: a field whose value is not a path expression at all (a literal, a
/// call, a field access, a nested struct literal, ...) is never flagged —
/// the diagnostics are those of the field list without it.
pub proof fn lemma_non_path_ignored(fields: Seq<FieldInit>, i: int)
    requires
        0 <= i < fields.len(),
        !(fields[i].value is Path),
    ensures
        fields_own_diags(fields) == fields_own_diags(fields.remove(i)),
{
    lemma_non_candidate_ignored(fields, i);
}

/// Law: every diagnostic stems from a candidate field; nothing else is ever
/// reported.
pub proof fn lemma_diag_has_source(fields: Seq<FieldInit>, j: int)
    requires
        0 <= j < fields_own_diags(fields).len(),
    ensures
        exists|i: int|
            0 <= i < fields.len() && candidate(fields[i]) && fields_own_diags(fields)[j]
                == diag_for(fields[i]),
    decreases fields.len(),
{
    let own = fields_own_diags(fields);
    let prefix = fields_own_diags(fields.drop_last());
    if candidate(fields.last()) && j == prefix.len() {
        assert(own[j] == diag_for(fields[fields.len() - 1]));
    } else {
        lemma_diag_has_source(fields.drop_last(), j);
        let i = choose|i: int|
            0 <= i < fields.drop_last().len() && candidate(fields.drop_last()[i]) && prefix[j]
                == diag_for(fields.drop_last()[i]);
        assert(candidate(fields[i]) && own[j] == diag_for(fields[i]));
    }
}

} // verus!
