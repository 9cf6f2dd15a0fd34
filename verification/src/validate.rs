//! Conflict and reference validation.
//!
//! Once a field's directives are interpreted, two static checks remain:
//! no pseudonym may be named by contradictory categories on one field
//! (`show`+`hide`, or `hide`+`optional`), and every pseudonym named
//! anywhere must be declared in the view-mapping namespace.  Both checks
//! are pure and idempotent; their diagnostics are batched per field.

use vstd::prelude::*;

use crate::ast::ViewMapping;
use crate::diag::{DiagKind, DiagModel, Diagnostic};
use crate::directives::{has_hide, has_optional, has_show, symbol_mods, Modifier};

verus! {

/// Pseudonym `p` is named by both a `show` and a `hide` directive.
pub open spec fn show_hide_conflict(mods: Seq<Modifier>, p: Seq<char>) -> bool {
    has_hide(mods, p) && has_show(mods, p)
}

/// Pseudonym `p` is named by both a `hide` and an `optional` directive.
/// (`show`+`optional` is deliberately permitted: present and wrapped.)
pub open spec fn hide_optional_conflict(mods: Seq<Modifier>, p: Seq<char>) -> bool {
    has_hide(mods, p) && has_optional(mods, p)
}

/// Pseudonym `p` is named contradictorily by the directive set.
pub open spec fn conflicted(mods: Seq<Modifier>, p: Seq<char>) -> bool {
    show_hide_conflict(mods, p) || hide_optional_conflict(mods, p)
}

/// The directive set is free of cross-category contradictions.
pub open spec fn conflict_free(mods: Seq<Modifier>) -> bool {
    forall|i: int| 0 <= i < mods.len() ==> !conflicted(mods, (#[trigger] mods[i]).pseudonym())
}

/// Is modifier `i` the first of the set to name its pseudonym?
pub open spec fn first_occurrence(mods: Seq<Modifier>, i: int) -> bool {
    forall|j: int| 0 <= j < i ==> (#[trigger] mods[j]).pseudonym() != mods[i].pseudonym()
}

/// The conflict diagnostics contributed by modifier `i`: one per
/// conflicted pseudonym, reported at the pseudonym's first occurrence,
/// a `show`+`hide` contradiction taking precedence.
pub open spec fn conflict_diag_at(mods: Seq<Modifier>, i: int) -> Seq<DiagModel> {
    if first_occurrence(mods, i) && show_hide_conflict(mods, mods[i].pseudonym()) {
        seq![
            DiagModel {
                kind: DiagKind::ShowHideConflict,
                name: mods[i].pseudonym(),
                loc: mods[i].ident_spec().loc,
            },
        ]
    } else if first_occurrence(mods, i) && hide_optional_conflict(mods, mods[i].pseudonym()) {
        seq![
            DiagModel {
                kind: DiagKind::HideOptionalConflict,
                name: mods[i].pseudonym(),
                loc: mods[i].ident_spec().loc,
            },
        ]
    } else {
        Seq::empty()
    }
}

/// The conflict diagnostics of the first `n` modifiers, in order.
pub open spec fn conflict_diags_upto(mods: Seq<Modifier>, n: int) -> Seq<DiagModel>
    decreases n,
{
    if n <= 0 {
        Seq::empty()
    } else {
        conflict_diags_upto(mods, n - 1) + conflict_diag_at(mods, n - 1)
    }
}

/// All conflict diagnostics of a directive set.
pub open spec fn conflict_diags(mods: Seq<Modifier>) -> Seq<DiagModel> {
    conflict_diags_upto(mods, mods.len() as int)
}

/// Every modifier's pseudonym is declared in the mapping namespace.
pub open spec fn declared(mappings: Seq<ViewMapping>, p: Seq<char>) -> bool {
    exists|k: int| 0 <= k < mappings.len() && (#[trigger] mappings[k]).pseudonym@ == p
}

/// Every pseudonym the directive set names is declared.
pub open spec fn refs_declared(mods: Seq<Modifier>, mappings: Seq<ViewMapping>) -> bool {
    forall|i: int|
        0 <= i < mods.len() ==> declared(mappings, (#[trigger] mods[i]).pseudonym())
}

/// The reference diagnostic contributed by modifier `i`: one per
/// occurrence of an undeclared pseudonym.
pub open spec fn undeclared_diag_at(
    mods: Seq<Modifier>,
    mappings: Seq<ViewMapping>,
    i: int,
) -> Seq<DiagModel> {
    if !declared(mappings, mods[i].pseudonym()) {
        seq![
            DiagModel {
                kind: DiagKind::UndeclaredView,
                name: mods[i].pseudonym(),
                loc: mods[i].ident_spec().loc,
            },
        ]
    } else {
        Seq::empty()
    }
}

/// The reference diagnostics of the first `n` modifiers, in order.
pub open spec fn undeclared_diags_upto(
    mods: Seq<Modifier>,
    mappings: Seq<ViewMapping>,
    n: int,
) -> Seq<DiagModel>
    decreases n,
{
    if n <= 0 {
        Seq::empty()
    } else {
        undeclared_diags_upto(mods, mappings, n - 1) + undeclared_diag_at(mods, mappings, n - 1)
    }
}

/// All reference diagnostics of a directive set: one per directive
/// occurrence whose pseudonym has no declared view mapping.
pub open spec fn undeclared_diags(mods: Seq<Modifier>, mappings: Seq<ViewMapping>) -> Seq<
    DiagModel,
> {
    undeclared_diags_upto(mods, mappings, mods.len() as int)
}

/// Every pseudonym has a first occurrence at or before any occurrence.
proof fn lemma_first_occurrence_exists(mods: Seq<Modifier>, i: int)
    requires
        0 <= i < mods.len(),
    ensures
        exists|j: int|
            {
                &&& 0 <= j <= i
                &&& #[trigger] first_occurrence(mods, j)
                &&& mods[j].pseudonym() == mods[i].pseudonym()
            },
    decreases i,
{
    if first_occurrence(mods, i) {
        assert(first_occurrence(mods, i) && 0 <= i <= i && mods[i].pseudonym() == mods[
            i
        ].pseudonym());
    } else {
        let j = choose|j: int| 0 <= j < i && (#[trigger] mods[j]).pseudonym() == mods[i].pseudonym();
        lemma_first_occurrence_exists(mods, j);
        let j0 = choose|j0: int|
            {
                &&& 0 <= j0 <= j
                &&& #[trigger] first_occurrence(mods, j0)
                &&& mods[j0].pseudonym() == mods[j].pseudonym()
            };
        assert(first_occurrence(mods, j0) && 0 <= j0 <= i && mods[j0].pseudonym() == mods[
            i
        ].pseudonym());
    }
}

/// The diagnostic prefix only grows.
proof fn lemma_conflict_upto_monotone(mods: Seq<Modifier>, a: int, b: int)
    requires
        a <= b,
    ensures
        conflict_diags_upto(mods, a).len() <= conflict_diags_upto(mods, b).len(),
    decreases b - a,
{
    if a < b {
        lemma_conflict_upto_monotone(mods, a, b - 1);
    }
}

/// Under a conflict-free directive set no prefix contributes a
/// diagnostic.
proof fn lemma_conflict_upto_empty(mods: Seq<Modifier>, n: int)
    requires
        conflict_free(mods),
        n <= mods.len(),
    ensures
        conflict_diags_upto(mods, n).len() == 0,
    decreases n,
{
    if n > 0 {
        lemma_conflict_upto_empty(mods, n - 1);
        assert(!conflicted(mods, mods[n - 1].pseudonym()));
    }
}

/// The conflict check and its diagnostics agree: the diagnostic list is
/// empty exactly when the directive set is conflict-free.
pub proof fn lemma_conflict_diags_empty_iff(mods: Seq<Modifier>)
    ensures
        conflict_diags(mods).len() == 0 <==> conflict_free(mods),
{
    if conflict_free(mods) {
        lemma_conflict_upto_empty(mods, mods.len() as int);
    } else {
        let i = choose|i: int|
            0 <= i < mods.len() && conflicted(mods, (#[trigger] mods[i]).pseudonym());
        lemma_first_occurrence_exists(mods, i);
        let j = choose|j: int|
            {
                &&& 0 <= j <= i
                &&& #[trigger] first_occurrence(mods, j)
                &&& mods[j].pseudonym() == mods[i].pseudonym()
            };
        assert(conflict_diag_at(mods, j).len() >= 1);
        assert(conflict_diags_upto(mods, j + 1).len() >= 1);
        lemma_conflict_upto_monotone(mods, j + 1, mods.len() as int);
    }
}

/// Check one field's directive set for cross-category contradictions.
///
/// Succeeds exactly when the set is conflict-free; otherwise returns one
/// diagnostic per conflicted pseudonym, at its first occurrence, in
/// order of first occurrence.  The check reads nothing but its
/// arguments, so re-running it is safe and yields the same answer.
pub fn validate_modifiers(mods: &Vec<Modifier>) -> (r: Result<(), Vec<Diagnostic>>)
    ensures
        r is Ok <==> conflict_free(mods@),
        r matches Err(ds) ==> {
            &&& !conflict_free(mods@)
            &&& ds@.map_values(|d: Diagnostic| d@) == conflict_diags(mods@)
            &&& ds@.len() >= 1
        },
{
    let mut errors: Vec<Diagnostic> = Vec::new();
    let n = mods.len();
    for i in 0..n
        invariant
            n == mods@.len(),
            errors@.map_values(|d: Diagnostic| d@) == conflict_diags_upto(mods@, i as int),
    {
        let name = mods[i].name();
        let mut first = true;
        for j in 0..i
            invariant
                n == mods@.len(),
                0 <= i as int && (i as int) < n,
                name@ == mods@[i as int].pseudonym(),
                first <==> (forall|jj: int|
                    0 <= jj < j ==> (#[trigger] mods@[jj]).pseudonym() != name@),
        {
            if mods[j].name() == name {
                first = false;
            }
        }
        if first {
            let info = symbol_mods(mods, name.clone());
            if info.has_hide && info.has_show {
                let loc = mods[i].name_id().loc;
                errors.push(Diagnostic { kind: DiagKind::ShowHideConflict, name, loc });
            } else if info.has_hide && info.has_option {
                let loc = mods[i].name_id().loc;
                errors.push(Diagnostic { kind: DiagKind::HideOptionalConflict, name, loc });
            }
        }
        proof {
            assert(errors@.map_values(|d: Diagnostic| d@) =~= conflict_diags_upto(
                mods@,
                i as int,
            ) + conflict_diag_at(mods@, i as int));
        }
    }
    if errors.len() == 0 {
        proof {
            lemma_conflict_diags_empty_iff(mods@);
            assert(errors@.map_values(|d: Diagnostic| d@).len() == 0);
        }
        Ok(())
    } else {
        proof {
            lemma_conflict_diags_empty_iff(mods@);
        }
        Err(errors)
    }
}

/// Check every directive reference of one field against the declared
/// view-mapping namespace.
///
/// Returns one diagnostic per occurrence of an undeclared pseudonym, in
/// directive order; the empty list exactly when every reference is
/// declared.
pub fn check_references(mods: &Vec<Modifier>, mappings: &Vec<ViewMapping>) -> (ds: Vec<Diagnostic>)
    ensures
        ds@.map_values(|d: Diagnostic| d@) == undeclared_diags(mods@, mappings@),
        ds@.len() == 0 <==> refs_declared(mods@, mappings@),
{
    let mut errors: Vec<Diagnostic> = Vec::new();
    let n = mods.len();
    for i in 0..n
        invariant
            n == mods@.len(),
            errors@.map_values(|d: Diagnostic| d@) == undeclared_diags_upto(
                mods@,
                mappings@,
                i as int,
            ),
            errors@.len() == 0 <==> (forall|ii: int|
                0 <= ii < i ==> declared(mappings@, (#[trigger] mods@[ii]).pseudonym())),
    {
        let name = mods[i].name();
        let mut found = false;
        let m = mappings.len();
        for k in 0..m
            invariant
                m == mappings@.len(),
                0 <= i as int && (i as int) < n,
                n == mods@.len(),
                name@ == mods@[i as int].pseudonym(),
                found <==> (exists|kk: int|
                    0 <= kk < k && (#[trigger] mappings@[kk]).pseudonym@ == name@),
        {
            if mappings[k].pseudonym == name {
                found = true;
            }
        }
        proof {
            assert(found == declared(mappings@, mods@[i as int].pseudonym()));
        }
        if !found {
            let loc = mods[i].name_id().loc;
            errors.push(Diagnostic { kind: DiagKind::UndeclaredView, name, loc });
        }
        proof {
            assert(errors@.map_values(|d: Diagnostic| d@) =~= undeclared_diags_upto(
                mods@,
                mappings@,
                i as int,
            ) + undeclared_diag_at(mods@, mappings@, i as int));
        }
    }
    errors
}

} // verus!
