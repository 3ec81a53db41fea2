//! The Tree Walker and the Struct-Literal Matcher: drive the rule over every
//! expression of a tree exactly once, depth-first, and collect the
//! diagnostics in deterministic source order.

use vstd::prelude::*;
use crate::ast::{Expr, FieldInit, StructLiteral, SyntaxTree};
use crate::detect::{
    diag_for, diagnostic_for, field_is_redundant, fields_own_diags, lemma_own_diags_take_step,
};
use crate::diagnostic::{
    diag_views, lemma_diag_views_empty, lemma_diag_views_push, Diagnostic, DiagView,
};
use crate::lint::{redundant_field_names_lint, Lint, LintCategory, LintRegistry};

verus! {

/// The diagnostics one expression node yields on its own, nested expressions
/// aside: its candidate fields if it is a struct literal, nothing otherwise.
pub open spec fn node_diags(e: Expr) -> Seq<DiagView> {
    match e {
        Expr::Struct(lit) => fields_own_diags(lit.fields@),
        _ => Seq::empty(),
    }
}

/// The diagnostics of an expression and of every expression nested inside
/// it, depth-first: the node's own diagnostics first, then those of each
/// child expression, in source order.
pub open spec fn expr_diags(e: Expr) -> Seq<DiagView>
    decreases e,
{
    match e {
        Expr::Struct(lit) => fields_own_diags(lit.fields@) + fields_nested_diags(lit.fields@),
        Expr::Other(children) => exprs_diags(children@),
        _ => Seq::empty(),
    }
}

/// The diagnostics nested inside a field list: those of each field's value
/// expression, in field declaration order.
pub open spec fn fields_nested_diags(fields: Seq<FieldInit>) -> Seq<DiagView>
    decreases fields,
{
    if fields.len() == 0 {
        Seq::empty()
    } else {
        fields_nested_diags(fields.drop_last()) + expr_diags(fields.last().value)
    }
}

/// The diagnostics of a sequence of expressions, in order.
pub open spec fn exprs_diags(es: Seq<Expr>) -> Seq<DiagView>
    decreases es,
{
    if es.len() == 0 {
        Seq::empty()
    } else {
        exprs_diags(es.drop_last()) + expr_diags(es.last())
    }
}

/// The diagnostics of a whole compilation unit.
pub open spec fn tree_diags(t: SyntaxTree) -> Seq<DiagView> {
    exprs_diags(t.exprs@)
}

/// Extending a field list by one field appends the diagnostics nested in
/// that field's value.
proof fn lemma_nested_diags_take_step(fields: Seq<FieldInit>, i: int)
    requires
        0 <= i < fields.len(),
    ensures
        fields_nested_diags(fields.take(i + 1)) == fields_nested_diags(fields.take(i))
            + expr_diags(fields[i].value),
{
    assert(fields.take(i + 1).drop_last() =~= fields.take(i));
    assert(fields.take(i + 1).last() == fields[i]);
}

/// Extending an expression list by one expression appends its diagnostics.
proof fn lemma_exprs_diags_take_step(es: Seq<Expr>, i: int)
    requires
        0 <= i < es.len(),
    ensures
        exprs_diags(es.take(i + 1)) == exprs_diags(es.take(i)) + expr_diags(es[i]),
{
    assert(es.take(i + 1).drop_last() =~= es.take(i));
    assert(es.take(i + 1).last() == es[i]);
}

/// Law: nested struct literals are evaluated independently — a struct
/// literal's diagnostics are exactly its own field diagnostics followed by
/// the diagnostics each field's value expression yields on its own, in field
/// order; the enclosing literal adds nothing to them and takes nothing away.
pub proof fn lemma_nested_literals_independent(lit: StructLiteral)
    ensures
        expr_diags(Expr::Struct(lit)) == fields_own_diags(lit.fields@) + fields_nested_diags(
            lit.fields@,
        ),
        forall|i: int| 0 <= i < lit.fields@.len() ==> fields_nested_diags(lit.fields@.take(i + 1))
            == fields_nested_diags(lit.fields@.take(i)) + expr_diags(#[trigger] lit.fields@[i].value),
{
    assert forall|i: int| 0 <= i < lit.fields@.len() implies fields_nested_diags(
        lit.fields@.take(i + 1),
    ) == fields_nested_diags(lit.fields@.take(i)) + expr_diags(
        #[trigger] lit.fields@[i].value,
    ) by {
        lemma_nested_diags_take_step(lit.fields@, i);
    }
}

/// Law: the pass is deterministic — the diagnostic sequence is a function of
/// the read-only tree alone, so re-running the pass on an unchanged tree
/// yields an identical sequence.
pub proof fn lemma_rerun_identical(t: SyntaxTree, first: Seq<DiagView>, second: Seq<DiagView>)
    requires
        first == tree_diags(t),
        second == tree_diags(t),
    ensures
        first == second,
{
}

/// The lint pass. It keeps no state across invocations: every run is a pure
/// function of the read-only tree it is given, so re-running it on an
/// unchanged tree yields an identical diagnostic sequence.
pub struct RedundantFieldNames;

impl RedundantFieldNames {
    /// The lints this pass provides: exactly one, the redundant field names
    /// rule, with its stable identifier, its category and its description.
    pub fn get_lints(&self) -> (lints: Vec<Lint>)
        ensures
            lints@.len() == 1,
            lints@[0]@ == redundant_field_names_lint(),
    {
        let l = Lint {
            id: "redundant_field_names".to_owned(),
            category: LintCategory::Style,
            description: "checks for fields in struct literals where shorthands could be used"
                .to_owned(),
        };
        proof {
            assert(l@ =~= redundant_field_names_lint());
        }
        let mut lints: Vec<Lint> = Vec::new();
        lints.push(l);
        lints
    }

    /// Register this pass with the host's registry, once at startup: its one
    /// lint goes in under its stable identifier, unless that identifier is
    /// already taken.
    pub fn register(&self, registry: &mut LintRegistry) -> (added: bool)
        ensures
            added == !old(registry).contains_id(redundant_field_names_lint().id),
            (if added {
                final (registry)@ == old(registry)@.push(redundant_field_names_lint())
            } else {
                final (registry)@ == old(registry)@
            }),
            old(registry).wf() ==> final (registry).wf(),
    {
        let mut lints = self.get_lints();
        let l = lints.pop().unwrap();
        registry.register(l)
    }

    /// The Struct-Literal Matcher: the ordered field-initializer list if the
    /// node is a struct literal, `None` otherwise. A total, pure
    /// classification with no error path.
    pub fn match_struct_literal(e: &Expr) -> (r: Option<&Vec<FieldInit>>)
        ensures
            (match r {
                Some(fields) => *e matches Expr::Struct(lit) && fields@ == lit.fields@,
                None => !(*e is Struct),
            }),
    {
        match e {
            Expr::Struct(lit) => Some(&lit.fields),
            _ => None,
        }
    }

    /// The Detector and Emitter run over one struct literal's field list:
    /// append one diagnostic per candidate field, in declaration order.
    #[verifier::loop_isolation(false)]
    pub fn check_fields(fields: &Vec<FieldInit>, diags: &mut Vec<Diagnostic>)
        ensures
            diag_views(final(diags)@) == diag_views(old(diags)@) + fields_own_diags(fields@),
    {
        let mut i: usize = 0;
        proof {
            assert(fields@.take(0) =~= Seq::<FieldInit>::empty());
            assert(diag_views(diags@) =~= diag_views(old(diags)@) + fields_own_diags(
                fields@.take(0),
            ));
        }
        while i < fields.len()
            invariant
                i <= fields.len(),
                diag_views(diags@) == diag_views(old(diags)@) + fields_own_diags(
                    fields@.take(i as int),
                ),
            decreases fields.len() - i,
        {
            let f = &fields[i];
            if field_is_redundant(f) {
                let ghost before = diags@;
                let d = diagnostic_for(f);
                diags.push(d);
                proof {
                    lemma_diag_views_push(before, d);
                    lemma_own_diags_take_step(fields@, i as int);
                    assert(diag_views(old(diags)@) + fields_own_diags(fields@.take(i + 1))
                        =~= (diag_views(old(diags)@) + fields_own_diags(fields@.take(i as int))).push(
                        diag_for(fields@[i as int]),
                    ));
                }
            } else {
                proof {
                    lemma_own_diags_take_step(fields@, i as int);
                }
            }
            i = i + 1;
        }
        proof {
            assert(fields@.take(fields@.len() as int) =~= fields@);
        }
    }

    /// One visit of the walker's callback, as the host would make it for a
    /// single node: emit this node's own diagnostics and nothing else;
    /// expressions nested inside it are visited separately.
    pub fn check_expr(&self, e: &Expr, diags: &mut Vec<Diagnostic>)
        ensures
            diag_views(final(diags)@) == diag_views(old(diags)@) + node_diags(*e),
    {
        match Self::match_struct_literal(e) {
            Some(fields) => {
                Self::check_fields(fields, diags);
            },
            None => {
                proof {
                    assert(diag_views(diags@) =~= diag_views(old(diags)@) + node_diags(*e));
                }
            },
        }
    }

    /// The Tree Walker's descent: visit one expression and every expression
    /// nested inside it, depth-first, each node exactly once, appending the
    /// node's own diagnostics before those of its children.
    #[verifier::loop_isolation(false)]
    pub fn visit_expr(&self, e: &Expr, diags: &mut Vec<Diagnostic>)
        ensures
            diag_views(final(diags)@) == diag_views(old(diags)@) + expr_diags(*e),
        decreases *e,
    {
        self.check_expr(e, diags);
        match e {
            Expr::Struct(lit) => {
                let ghost after_own = diags@;
                let mut i: usize = 0;
                proof {
                    assert(lit.fields@.take(0) =~= Seq::<FieldInit>::empty());
                    assert(diag_views(diags@) =~= diag_views(after_own) + fields_nested_diags(
                        lit.fields@.take(0),
                    ));
                }
                while i < lit.fields.len()
                    invariant
                        i <= lit.fields.len(),
                        diag_views(diags@) == diag_views(after_own) + fields_nested_diags(
                            lit.fields@.take(i as int),
                        ),
                    decreases lit.fields.len() - i,
                {
                    proof {
                        assert(decreases_to!(*e => lit.fields@[i as int].value));
                    }
                    self.visit_expr(&lit.fields[i].value, diags);
                    proof {
                        lemma_nested_diags_take_step(lit.fields@, i as int);
                    }
                    i = i + 1;
                }
                proof {
                    assert(lit.fields@.take(lit.fields@.len() as int) =~= lit.fields@);
                    assert(diag_views(diags@) =~= diag_views(old(diags)@) + expr_diags(*e));
                }
            },
            Expr::Other(children) => {
                let ghost after_own = diags@;
                let mut i: usize = 0;
                proof {
                    assert(children@.take(0) =~= Seq::<Expr>::empty());
                    assert(diag_views(diags@) =~= diag_views(after_own) + exprs_diags(
                        children@.take(0),
                    ));
                }
                while i < children.len()
                    invariant
                        i <= children.len(),
                        diag_views(diags@) == diag_views(after_own) + exprs_diags(
                            children@.take(i as int),
                        ),
                    decreases children.len() - i,
                {
                    proof {
                        assert(decreases_to!(*e => children@[i as int]));
                    }
                    self.visit_expr(&children[i], diags);
                    proof {
                        lemma_exprs_diags_take_step(children@, i as int);
                    }
                    i = i + 1;
                }
                proof {
                    assert(children@.take(children@.len() as int) =~= children@);
                    assert(diag_views(diags@) =~= diag_views(old(diags)@) + expr_diags(*e));
                }
            },
            _ => {
                proof {
                    assert(diag_views(diags@) =~= diag_views(old(diags)@) + expr_diags(*e));
                }
            },
        }
    }

    /// The Tree Walker's entry: visit every expression of the tree exactly
    /// once, depth-first, and return the finite diagnostic sequence in
    /// deterministic source order. The tree itself is only read.
    #[verifier::loop_isolation(false)]
    pub fn visit(&self, tree: &SyntaxTree) -> (diags: Vec<Diagnostic>)
        ensures
            diag_views(diags@) == tree_diags(*tree),
    {
        let mut diags: Vec<Diagnostic> = Vec::new();
        proof {
            lemma_diag_views_empty(diags@);
            assert(tree.exprs@.take(0) =~= Seq::<Expr>::empty());
            assert(diag_views(diags@) =~= exprs_diags(tree.exprs@.take(0)));
        }
        let mut i: usize = 0;
        while i < tree.exprs.len()
            invariant
                i <= tree.exprs.len(),
                diag_views(diags@) == exprs_diags(tree.exprs@.take(i as int)),
            decreases tree.exprs.len() - i,
        {
            self.visit_expr(&tree.exprs[i], &mut diags);
            proof {
                lemma_exprs_diags_take_step(tree.exprs@, i as int);
            }
            i = i + 1;
        }
        proof {
            assert(tree.exprs@.take(tree.exprs@.len() as int) =~= tree.exprs@);
        }
        diags
    }
}

} // verus!
