//! Unit tests of directive interpretation and validation.

use structur::ast::{Ident, PathArg, RawAttr, RawField};
use structur::diag::DiagKind;
use structur::directives::{parse_modifiers, symbol_mods, Modifier, VisDefault};
use structur::validate::validate_modifiers;

fn ident(s: &str, loc: u64) -> Ident {
    Ident { text: s.to_string(), loc }
}

fn arg(s: &str, loc: u64) -> PathArg {
    PathArg { ident: ident(s, loc), segments: 1 }
}

fn block(cat: &str, loc: u64, names: &[&str]) -> RawAttr {
    let mut args = Vec::new();
    let mut l = loc * 100;
    for n in names {
        args.push(arg(n, l));
        l += 1;
    }
    RawAttr::List { category: ident(cat, loc), args }
}

fn field_with(attrs: Vec<RawAttr>) -> RawField {
    RawField {
        name: ident("f", 0),
        ty: "u8".to_string(),
        vis: "pub".to_string(),
        attrs,
    }
}

#[test]
fn modifier_name_and_name_id() {
    let m = Modifier::Hide(ident("public", 42));
    assert_eq!(m.name(), "public");
    let id = m.name_id();
    assert_eq!(id.text, "public");
    assert_eq!(id.loc, 42);
    let m = Modifier::Optional(ident("admin", 7));
    assert_eq!(m.name(), "admin");
    assert_eq!(m.name_id().loc, 7);
}

#[test]
fn symbol_mods_collects_categories_for_one_pseudonym() {
    let mods = vec![
        Modifier::Hide(ident("a", 1)),
        Modifier::Show(ident("b", 2)),
        Modifier::Optional(ident("a", 3)),
    ];
    let info = symbol_mods(&mods, "a".to_string());
    assert!(info.has_hide);
    assert!(!info.has_show);
    assert!(info.has_option);
    let info = symbol_mods(&mods, "b".to_string());
    assert!(!info.has_hide);
    assert!(info.has_show);
    assert!(!info.has_option);
    let info = symbol_mods(&mods, "c".to_string());
    assert!(!info.has_hide && !info.has_show && !info.has_option);
}

#[test]
fn parse_keeps_default_show_without_show_blocks() {
    let f = field_with(vec![block("hide", 1, &["a", "b"]), block("optional", 2, &["c"])]);
    let pm = parse_modifiers(&f).expect("well-formed list");
    assert_eq!(pm.default_vis, VisDefault::Show);
    assert_eq!(pm.mods.len(), 3);
    assert_eq!(pm.mods[0].name(), "a");
    assert_eq!(pm.mods[1].name(), "b");
    assert_eq!(pm.mods[2].name(), "c");
    assert!(matches!(pm.mods[0], Modifier::Hide(_)));
    assert!(matches!(pm.mods[2], Modifier::Optional(_)));
}

#[test]
fn parse_flips_default_to_hide_on_show_block() {
    let f = field_with(vec![block("show", 1, &["a"])]);
    let pm = parse_modifiers(&f).expect("well-formed list");
    assert_eq!(pm.default_vis, VisDefault::Hide);
    assert_eq!(pm.mods.len(), 1);
    assert!(matches!(pm.mods[0], Modifier::Show(_)));
}

#[test]
fn parse_accepts_empty_annotation_list() {
    let f = field_with(vec![]);
    let pm = parse_modifiers(&f).expect("empty list is well-formed");
    assert_eq!(pm.default_vis, VisDefault::Show);
    assert!(pm.mods.is_empty());
}

#[test]
fn parse_rejects_show_after_hide() {
    let f = field_with(vec![block("hide", 1, &["a"]), block("show", 5, &["b"])]);
    let d = parse_modifiers(&f).expect_err("double override");
    assert_eq!(d.kind, DiagKind::DoubleOverride);
    assert_eq!(d.name, "f");
    assert_eq!(d.loc, 5);
    assert_eq!(d.message(), "conflicting visibility declarations for field f");
}

#[test]
fn parse_allows_repeated_blocks_of_one_category() {
    let f = field_with(vec![
        block("show", 1, &["a"]),
        block("show", 2, &["b"]),
        block("optional", 3, &["a"]),
    ]);
    let pm = parse_modifiers(&f).expect("repeated show blocks are fine");
    assert_eq!(pm.default_vis, VisDefault::Hide);
    assert_eq!(pm.mods.len(), 3);
}

#[test]
fn parse_reports_first_offending_block() {
    let f = field_with(vec![
        block("bogus", 4, &["a"]),
        block("hide", 5, &["b"]),
    ]);
    let d = parse_modifiers(&f).expect_err("unknown category");
    assert_eq!(d.kind, DiagKind::UnknownCategory);
    assert_eq!(d.name, "bogus");
    assert_eq!(d.loc, 4);
}

#[test]
fn validate_accepts_conflict_free_modifiers() {
    let mods = vec![
        Modifier::Show(ident("a", 1)),
        Modifier::Optional(ident("a", 2)),
        Modifier::Show(ident("b", 3)),
    ];
    assert!(validate_modifiers(&mods).is_ok());
}

#[test]
fn validate_rejects_show_and_hide_of_one_pseudonym() {
    let mods = vec![
        Modifier::Hide(ident("a", 1)),
        Modifier::Show(ident("a", 2)),
    ];
    let ds = validate_modifiers(&mods).expect_err("show+hide conflict");
    assert_eq!(ds.len(), 1);
    assert_eq!(ds[0].kind, DiagKind::ShowHideConflict);
    assert_eq!(ds[0].name, "a");
    assert_eq!(ds[0].loc, 1);
    assert_eq!(ds[0].message(), "conflicting show/hide for a");
}

#[test]
fn validate_rejects_hide_and_optional_of_one_pseudonym() {
    let mods = vec![
        Modifier::Optional(ident("a", 1)),
        Modifier::Hide(ident("a", 2)),
    ];
    let ds = validate_modifiers(&mods).expect_err("hide+optional conflict");
    assert_eq!(ds.len(), 1);
    assert_eq!(ds[0].kind, DiagKind::HideOptionalConflict);
    assert_eq!(ds[0].name, "a");
    assert_eq!(ds[0].loc, 1);
    assert_eq!(ds[0].message(), "conflicting hide/optional for a");
}

#[test]
fn validate_reports_each_conflicted_pseudonym_once() {
    let mods = vec![
        Modifier::Hide(ident("a", 1)),
        Modifier::Show(ident("a", 2)),
        Modifier::Hide(ident("b", 3)),
        Modifier::Optional(ident("b", 4)),
        Modifier::Hide(ident("a", 5)),
    ];
    let ds = validate_modifiers(&mods).expect_err("two conflicts");
    assert_eq!(ds.len(), 2);
    assert_eq!(ds[0].kind, DiagKind::ShowHideConflict);
    assert_eq!(ds[0].name, "a");
    assert_eq!(ds[1].kind, DiagKind::HideOptionalConflict);
    assert_eq!(ds[1].name, "b");
}

#[test]
fn validation_is_idempotent() {
    let mods = vec![
        Modifier::Hide(ident("a", 1)),
        Modifier::Show(ident("a", 2)),
    ];
    let first = validate_modifiers(&mods).expect_err("conflict");
    let second = validate_modifiers(&mods).expect_err("conflict");
    assert_eq!(first.len(), second.len());
    assert_eq!(first[0].kind, second[0].kind);
    assert_eq!(first[0].name, second[0].name);
    assert_eq!(first[0].loc, second[0].loc);
}
