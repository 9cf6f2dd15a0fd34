//! End-to-end tests of the schema-view generator pipeline.

use structur::ast::{Ident, PathArg, RawAttr, RawField, RawSchema, ViewMapping};
use structur::diag::DiagKind;

fn ident(s: &str, loc: u64) -> Ident {
    Ident { text: s.to_string(), loc }
}

fn arg(s: &str, loc: u64) -> PathArg {
    PathArg { ident: ident(s, loc), segments: 1 }
}

fn block(cat: &str, loc: u64, names: &[&str]) -> RawAttr {
    let mut args = Vec::new();
    let mut l = loc * 100;
    for n in names {
        args.push(arg(n, l));
        l += 1;
    }
    RawAttr::List { category: ident(cat, loc), args }
}

fn field(name: &str, ty: &str, attrs: Vec<RawAttr>) -> RawField {
    RawField {
        name: ident(name, 0),
        ty: ty.to_string(),
        vis: "pub".to_string(),
        attrs,
    }
}

fn schema(fields: Vec<RawField>) -> RawSchema {
    RawSchema {
        name: ident("Record", 0),
        vis: "pub".to_string(),
        attrs: vec!["#[derive(Debug)]".to_string()],
        fields,
    }
}

fn mapping(p: &str, v: &str) -> ViewMapping {
    ViewMapping {
        pseudonym: p.to_string(),
        view_name: v.to_string(),
    }
}

fn two_views() -> Vec<ViewMapping> {
    vec![mapping("public", "PublicView"), mapping("admin", "AdminView")]
}

#[test]
fn no_directives_field_in_every_view() {
    let s = schema(vec![field("id", "u64", vec![])]);
    let maps = two_views();
    let views = structur::structur(&s, &maps).expect("plain schema generates");
    assert_eq!(views.len(), 2);
    for v in &views {
        assert_eq!(v.fields.len(), 1);
        assert_eq!(v.fields[0].name, "id");
        assert_eq!(v.fields[0].ty, "u64");
        assert!(!v.fields[0].optional);
    }
    assert_eq!(views[0].name, "PublicView");
    assert_eq!(views[1].name, "AdminView");
}

#[test]
fn hide_removes_field_from_named_view_only() {
    let s = schema(vec![field(
        "secret",
        "String",
        vec![block("hide", 1, &["public"])],
    )]);
    let maps = two_views();
    let views = structur::structur(&s, &maps).expect("hide directive is valid");
    assert_eq!(views[0].name, "PublicView");
    assert!(views[0].fields.is_empty());
    assert_eq!(views[1].name, "AdminView");
    assert_eq!(views[1].fields.len(), 1);
    assert_eq!(views[1].fields[0].name, "secret");
    assert!(!views[1].fields[0].optional);
}

#[test]
fn show_keeps_field_in_named_view_only() {
    let s = schema(vec![field("x", "i32", vec![block("show", 1, &["admin"])])]);
    let maps = vec![mapping("public", "P"), mapping("admin", "A")];
    let views = structur::structur(&s, &maps).expect("show directive is valid");
    assert_eq!(views[0].name, "P");
    assert!(views[0].fields.is_empty());
    assert_eq!(views[1].name, "A");
    assert_eq!(views[1].fields.len(), 1);
    assert_eq!(views[1].fields[0].name, "x");
    assert_eq!(views[1].fields[0].ty, "i32");
    assert!(!views[1].fields[0].optional);
}

#[test]
fn optional_wraps_field_in_named_view() {
    let s = schema(vec![field(
        "note",
        "String",
        vec![block("optional", 1, &["public"])],
    )]);
    let maps = two_views();
    let views = structur::structur(&s, &maps).expect("optional directive is valid");
    assert_eq!(views[0].fields.len(), 1);
    assert!(views[0].fields[0].optional);
    assert_eq!(views[1].fields.len(), 1);
    assert!(!views[1].fields[0].optional);
}

#[test]
fn show_and_optional_on_same_pseudonym_is_permitted() {
    let s = schema(vec![field(
        "extra",
        "u8",
        vec![block("show", 1, &["admin"]), block("optional", 2, &["admin"])],
    )]);
    let maps = two_views();
    let views = structur::structur(&s, &maps).expect("show+optional is permitted");
    // Default policy flipped to hide by the show block.
    assert!(views[0].fields.is_empty());
    assert_eq!(views[1].fields.len(), 1);
    assert!(views[1].fields[0].optional);
}

#[test]
fn hide_then_show_is_a_contradiction() {
    let s = schema(vec![field(
        "f",
        "u8",
        vec![block("hide", 1, &["public"]), block("show", 2, &["admin"])],
    )]);
    let ds = structur::structur(&s, &two_views()).expect_err("hide then show must fail");
    assert_eq!(ds.len(), 1);
    assert_eq!(ds[0].kind, DiagKind::DoubleOverride);
    assert_eq!(ds[0].name, "f");
    assert_eq!(ds[0].loc, 2);
}

#[test]
fn show_then_hide_is_a_contradiction() {
    let s = schema(vec![field(
        "f",
        "u8",
        vec![block("show", 1, &["admin"]), block("hide", 2, &["public"])],
    )]);
    let ds = structur::structur(&s, &two_views()).expect_err("show then hide must fail");
    assert_eq!(ds.len(), 1);
    assert_eq!(ds[0].kind, DiagKind::DoubleOverride);
    assert_eq!(ds[0].loc, 2);
}

#[test]
fn repeated_blocks_of_one_category_are_concatenated() {
    let s = schema(vec![field(
        "f",
        "u8",
        vec![block("hide", 1, &["public"]), block("hide", 2, &["admin"])],
    )]);
    let maps = two_views();
    let views = structur::structur(&s, &maps).expect("repeated hide blocks never conflict");
    assert!(views[0].fields.is_empty());
    assert!(views[1].fields.is_empty());
}

#[test]
fn hide_and_optional_on_same_pseudonym_is_a_contradiction() {
    let s = schema(vec![field(
        "f",
        "u8",
        vec![block("hide", 1, &["public"]), block("optional", 2, &["public"])],
    )]);
    let ds = structur::structur(&s, &two_views()).expect_err("hide+optional must fail");
    assert_eq!(ds.len(), 1);
    assert_eq!(ds[0].kind, DiagKind::HideOptionalConflict);
    assert_eq!(ds[0].name, "public");
    // Reported at the pseudonym's first occurrence, inside the hide block.
    assert_eq!(ds[0].loc, 100);
}

#[test]
fn emission_preserves_declaration_order() {
    let s = schema(vec![
        field("a", "u8", vec![]),
        field("b", "u16", vec![block("hide", 1, &["public"])]),
        field("c", "u32", vec![]),
    ]);
    let maps = two_views();
    let views = structur::structur(&s, &maps).expect("order schema is valid");
    let public_names: Vec<&str> = views[0].fields.iter().map(|f| f.name.as_str()).collect();
    assert_eq!(public_names, vec!["a", "c"]);
    let admin_names: Vec<&str> = views[1].fields.iter().map(|f| f.name.as_str()).collect();
    assert_eq!(admin_names, vec!["a", "b", "c"]);
}

#[test]
fn three_field_scenario() {
    let s = schema(vec![
        field("id", "u64", vec![]),
        field("secret", "String", vec![block("hide", 1, &["public"])]),
        field("note", "String", vec![block("optional", 2, &["public"])]),
    ]);
    let maps = two_views();
    let views = structur::structur(&s, &maps).expect("scenario schema is valid");
    assert_eq!(views.len(), 2);

    let public = &views[0];
    assert_eq!(public.name, "PublicView");
    assert_eq!(public.vis, "pub");
    assert_eq!(public.attrs, vec!["#[derive(Debug)]".to_string()]);
    assert_eq!(public.fields.len(), 2);
    assert_eq!(public.fields[0].name, "id");
    assert!(!public.fields[0].optional);
    assert_eq!(public.fields[1].name, "note");
    assert!(public.fields[1].optional);

    let admin = &views[1];
    assert_eq!(admin.name, "AdminView");
    assert_eq!(admin.fields.len(), 3);
    assert_eq!(admin.fields[0].name, "id");
    assert_eq!(admin.fields[1].name, "secret");
    assert_eq!(admin.fields[2].name, "note");
    assert!(!admin.fields[2].optional);
}

#[test]
fn undeclared_pseudonym_is_reported_and_nothing_is_generated() {
    let s = schema(vec![field(
        "f",
        "u8",
        vec![block("hide", 7, &["staff"])],
    )]);
    let ds = structur::structur(&s, &two_views()).expect_err("undeclared view must fail");
    assert_eq!(ds.len(), 1);
    assert_eq!(ds[0].kind, DiagKind::UndeclaredView);
    assert_eq!(ds[0].name, "staff");
    assert_eq!(ds[0].loc, 700);
    assert_eq!(ds[0].message(), "undeclared view: staff");
}

#[test]
fn multiple_undeclared_references_on_one_field_are_batched() {
    let s = schema(vec![field(
        "f",
        "u8",
        vec![block("hide", 1, &["alpha"]), block("optional", 2, &["beta"])],
    )]);
    let ds = structur::structur(&s, &two_views()).expect_err("two undeclared views must fail");
    assert_eq!(ds.len(), 2);
    assert_eq!(ds[0].kind, DiagKind::UndeclaredView);
    assert_eq!(ds[0].name, "alpha");
    assert_eq!(ds[1].kind, DiagKind::UndeclaredView);
    assert_eq!(ds[1].name, "beta");
}

#[test]
fn first_failing_field_stops_the_run() {
    let s = schema(vec![
        field("good", "u8", vec![]),
        field("bad1", "u8", vec![block("hide", 1, &["nowhere"])]),
        field("bad2", "u8", vec![block("hide", 2, &["elsewhere"])]),
    ]);
    let ds = structur::structur(&s, &two_views()).expect_err("undeclared views must fail");
    // Only the first failing field's diagnostics are produced.
    assert_eq!(ds.len(), 1);
    assert_eq!(ds[0].name, "nowhere");
}

#[test]
fn unknown_category_is_reported() {
    let s = schema(vec![field(
        "f",
        "u8",
        vec![block("frobnicate", 3, &["public"])],
    )]);
    let ds = structur::structur(&s, &two_views()).expect_err("unknown category must fail");
    assert_eq!(ds.len(), 1);
    assert_eq!(ds[0].kind, DiagKind::UnknownCategory);
    assert_eq!(ds[0].name, "frobnicate");
    assert_eq!(ds[0].loc, 3);
    assert_eq!(ds[0].message(), "unknown directive: frobnicate");
}

#[test]
fn non_list_annotation_is_reported() {
    let s = schema(vec![field("f", "u8", vec![RawAttr::Other { loc: 9 }])]);
    let ds = structur::structur(&s, &two_views()).expect_err("non-list annotation must fail");
    assert_eq!(ds.len(), 1);
    assert_eq!(ds[0].kind, DiagKind::NotAList);
    assert_eq!(ds[0].loc, 9);
    assert_eq!(ds[0].message(), "expected a directive list");
}

#[test]
fn multi_segment_reference_is_reported() {
    let mut attr_args = vec![arg("ok", 10)];
    attr_args.push(PathArg {
        ident: ident("bad", 11),
        segments: 2,
    });
    let s = schema(vec![field(
        "f",
        "u8",
        vec![RawAttr::List { category: ident("hide", 1), args: attr_args }],
    )]);
    let ds = structur::structur(&s, &two_views()).expect_err("multi-segment path must fail");
    assert_eq!(ds.len(), 1);
    assert_eq!(ds[0].kind, DiagKind::MultiSegment);
    assert_eq!(ds[0].name, "bad");
    assert_eq!(ds[0].loc, 11);
    assert_eq!(ds[0].message(), "expected single-segment identifier");
}

#[test]
fn empty_mapping_set_generates_nothing() {
    let s = schema(vec![field("id", "u64", vec![])]);
    let maps: Vec<ViewMapping> = Vec::new();
    let views = structur::structur(&s, &maps).expect("no mappings is valid");
    assert!(views.is_empty());
}

#[test]
fn contradiction_is_reported_even_with_no_mappings() {
    let s = schema(vec![field(
        "f",
        "u8",
        vec![block("hide", 1, &["public"]), block("show", 2, &["public"])],
    )]);
    let maps: Vec<ViewMapping> = Vec::new();
    let ds = structur::structur(&s, &maps).expect_err("contradiction must fail");
    assert_eq!(ds[0].kind, DiagKind::DoubleOverride);
}

#[test]
fn generation_is_pure_and_repeatable() {
    let s = schema(vec![
        field("id", "u64", vec![]),
        field("secret", "String", vec![block("hide", 1, &["public"])]),
    ]);
    let maps = two_views();
    let first = structur::structur(&s, &maps).expect("valid schema");
    let second = structur::structur(&s, &maps).expect("valid schema");
    assert_eq!(first.len(), second.len());
    for (a, b) in first.iter().zip(second.iter()) {
        assert_eq!(a.name, b.name);
        assert_eq!(a.fields.len(), b.fields.len());
        for (fa, fb) in a.fields.iter().zip(b.fields.iter()) {
            assert_eq!(fa.name, fb.name);
            assert_eq!(fa.ty, fb.ty);
            assert_eq!(fa.vis, fb.vis);
            assert_eq!(fa.optional, fb.optional);
        }
    }
}
