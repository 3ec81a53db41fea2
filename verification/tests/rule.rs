use redundant_field_names::ast::{Expr, FieldInit, PathExpr, Span, StructLiteral, SyntaxTree};
use redundant_field_names::diagnostic::Diagnostic;
use redundant_field_names::detect::{diagnostic_for, field_is_redundant};
use redundant_field_names::pass::RedundantFieldNames;

fn span(lo: usize, hi: usize) -> Span {
    Span { lo, hi }
}

fn path(segments: &[&str]) -> Expr {
    Expr::Path(PathExpr { segments: segments.iter().map(|s| s.to_string()).collect() })
}

fn field(name: &str, value: Expr, lo: usize, hi: usize) -> FieldInit {
    FieldInit { name: name.to_string(), value, is_shorthand: false, span: span(lo, hi) }
}

fn shorthand_field(name: &str, lo: usize, hi: usize) -> FieldInit {
    FieldInit {
        name: name.to_string(),
        value: path(&[name]),
        is_shorthand: true,
        span: span(lo, hi),
    }
}

fn struct_literal(fields: Vec<FieldInit>) -> Expr {
    Expr::Struct(StructLiteral {
        path: Some(PathExpr { segments: vec!["Foo".to_string()] }),
        fields,
        has_rest: false,
    })
}

fn run(exprs: Vec<Expr>) -> Vec<Diagnostic> {
    let pass = RedundantFieldNames;
    pass.visit(&SyntaxTree { exprs })
}

#[test]
fn redundant_field_yields_suggestion() {
    let tree = vec![struct_literal(vec![field("bar", path(&["bar"]), 5, 13)])];
    let diags = run(tree);
    assert_eq!(diags.len(), 1);
    let d = &diags[0];
    assert_eq!(d.lint_id.as_str(), "redundant_field_names");
    assert_eq!(d.message.as_str(), "redundant field names in struct initialization");
    assert_eq!(d.help.as_str(), "replace it with");
    assert_eq!(d.span, span(5, 13));
    assert_eq!(d.replacement.as_str(), "bar");
    assert_eq!(d.replacement_span, span(5, 13));
}

#[test]
fn shorthand_field_not_flagged() {
    let tree = vec![struct_literal(vec![shorthand_field("bar", 5, 8)])];
    assert!(run(tree).is_empty());
}

#[test]
fn qualified_path_not_flagged() {
    let tree = vec![struct_literal(vec![field("bar", path(&["a", "bar"]), 5, 15)])];
    assert!(run(tree).is_empty());
}

#[test]
fn non_path_values_not_flagged() {
    let call = Expr::Other(vec![path(&["bar"]), Expr::Lit]);
    let tree = vec![struct_literal(vec![
        field("bar", Expr::Lit, 5, 11),
        field("baz", call, 13, 25),
    ])];
    assert!(run(tree).is_empty());
}

#[test]
fn mismatched_name_not_flagged() {
    let tree = vec![struct_literal(vec![field("bar", path(&["baz"]), 5, 13)])];
    assert!(run(tree).is_empty());
}

#[test]
fn comparison_is_case_sensitive() {
    let tree = vec![struct_literal(vec![field("Bar", path(&["bar"]), 5, 13)])];
    assert!(run(tree).is_empty());
}

#[test]
fn two_of_three_fields_flagged_in_order() {
    let tree = vec![struct_literal(vec![
        field("a", path(&["a"]), 5, 9),
        field("b", Expr::Lit, 11, 15),
        field("c", path(&["c"]), 17, 21),
    ])];
    let diags = run(tree);
    assert_eq!(diags.len(), 2);
    assert_eq!(diags[0].replacement.as_str(), "a");
    assert_eq!(diags[0].span, span(5, 9));
    assert_eq!(diags[1].replacement.as_str(), "c");
    assert_eq!(diags[1].span, span(17, 21));
}

#[test]
fn nested_literal_checked_independently() {
    let inner = struct_literal(vec![field("bar", path(&["bar"]), 20, 28)]);
    let tree = vec![struct_literal(vec![field("inner", inner, 10, 30)])];
    let diags = run(tree);
    assert_eq!(diags.len(), 1);
    assert_eq!(diags[0].replacement.as_str(), "bar");
    assert_eq!(diags[0].span, span(20, 28));
}

#[test]
fn outer_diagnostics_precede_nested_ones() {
    let inner = struct_literal(vec![field("bar", path(&["bar"]), 20, 28)]);
    let tree = vec![struct_literal(vec![
        field("inner", inner, 10, 30),
        field("q", path(&["q"]), 32, 36),
    ])];
    let diags = run(tree);
    assert_eq!(diags.len(), 2);
    assert_eq!(diags[0].replacement.as_str(), "q");
    assert_eq!(diags[1].replacement.as_str(), "bar");
}

#[test]
fn literal_nested_inside_other_expressions_found() {
    let lit = struct_literal(vec![field("x", path(&["x"]), 40, 44)]);
    let tree = vec![Expr::Other(vec![Expr::Lit, Expr::Other(vec![lit])])];
    let diags = run(tree);
    assert_eq!(diags.len(), 1);
    assert_eq!(diags[0].replacement.as_str(), "x");
}

#[test]
fn update_syntax_and_missing_type_path_do_not_matter() {
    let lit = Expr::Struct(StructLiteral {
        path: None,
        fields: vec![field("a", path(&["a"]), 5, 9)],
        has_rest: true,
    });
    let diags = run(vec![lit]);
    assert_eq!(diags.len(), 1);
    assert_eq!(diags[0].replacement.as_str(), "a");
}

#[test]
fn empty_literal_and_empty_tree_yield_nothing() {
    assert!(run(vec![]).is_empty());
    assert!(run(vec![struct_literal(vec![])]).is_empty());
    assert!(run(vec![Expr::Lit, path(&["a"])]).is_empty());
}

#[test]
fn top_level_expressions_reported_in_source_order() {
    let first = struct_literal(vec![field("a", path(&["a"]), 1, 5)]);
    let second = struct_literal(vec![field("b", path(&["b"]), 7, 11)]);
    let diags = run(vec![first, second]);
    assert_eq!(diags.len(), 2);
    assert_eq!(diags[0].replacement.as_str(), "a");
    assert_eq!(diags[1].replacement.as_str(), "b");
}

#[test]
fn rerun_on_unchanged_tree_is_identical() {
    let inner = struct_literal(vec![field("bar", path(&["bar"]), 20, 28)]);
    let tree = SyntaxTree {
        exprs: vec![struct_literal(vec![
            field("inner", inner, 10, 30),
            shorthand_field("s", 32, 33),
            field("q", path(&["q"]), 35, 39),
        ])],
    };
    let pass = RedundantFieldNames;
    let first = pass.visit(&tree);
    let second = pass.visit(&tree);
    assert_eq!(first, second);
    assert_eq!(first.len(), 2);
}

#[test]
fn detector_applies_each_gate() {
    let candidate = field("a", path(&["a"]), 0, 4);
    assert!(field_is_redundant(&candidate));
    assert!(!field_is_redundant(&shorthand_field("a", 0, 1)));
    assert!(!field_is_redundant(&field("a", path(&["m", "a"]), 0, 7)));
    assert!(!field_is_redundant(&field("a", Expr::Lit, 0, 4)));
    assert!(!field_is_redundant(&field("a", path(&["b"]), 0, 4)));
}

#[test]
fn emitter_builds_the_suggestion_from_the_field() {
    let f = field("total", path(&["total"]), 9, 21);
    let d = diagnostic_for(&f);
    assert_eq!(d.replacement.as_str(), "total");
    assert_eq!(d.span, span(9, 21));
    assert_eq!(d.replacement_span, span(9, 21));
    assert_eq!(d.message.as_str(), "redundant field names in struct initialization");
}

#[test]
fn check_expr_reports_the_node_alone() {
    let nested = struct_literal(vec![field("bar", path(&["bar"]), 20, 28)]);
    let outer = struct_literal(vec![field("inner", nested, 10, 30)]);
    let pass = RedundantFieldNames;

    let mut node_only: Vec<Diagnostic> = Vec::new();
    pass.check_expr(&outer, &mut node_only);
    assert!(node_only.is_empty());

    let mut deep: Vec<Diagnostic> = Vec::new();
    pass.visit_expr(&outer, &mut deep);
    assert_eq!(deep.len(), 1);
    assert_eq!(deep[0].replacement.as_str(), "bar");
}

#[test]
fn matcher_classifies_nodes() {
    let lit = struct_literal(vec![field("a", path(&["a"]), 0, 4)]);
    let fields = RedundantFieldNames::match_struct_literal(&lit);
    assert!(fields.is_some());
    assert_eq!(fields.unwrap().len(), 1);
    assert!(RedundantFieldNames::match_struct_literal(&path(&["a"])).is_none());
    assert!(RedundantFieldNames::match_struct_literal(&Expr::Lit).is_none());
}
