//! Emission laws.
//!
//! Public proofs of the guarantees the emitter gives: where a field
//! stands in an emitted view, that emission preserves declaration order,
//! how each directive category governs a field's presence, and that
//! contradictory directive sets never reach emission.

use vstd::prelude::*;

use crate::ast::{RawAttr, RawField, RawSchema, ViewMapping};
use crate::directives::{
    default_show_of, has_hide, has_optional, has_show, has_hide_block, has_show_block,
    is_hide_block, is_show_block, lemma_categories_distinct, mods_of, Modifier,
};
use crate::emit::{
    emitted_fields, entry_model_of, field_ok, resolve, schema_ok, view_field_of, EntryModel,
    ViewFieldModel,
};
use crate::validate::{conflict_free, conflicted};

verus! {

/// The position at which field `i` stands in the emitted view, counting
/// the included fields that precede it.
pub open spec fn emitted_pos(es: Seq<EntryModel>, p: Seq<char>, i: int) -> int {
    emitted_fields(es.take(i), p).len() as int
}

/// The emitted prefix only grows as more fields are considered.
proof fn lemma_emitted_len_monotone(es: Seq<EntryModel>, p: Seq<char>, a: int, b: int)
    requires
        0 <= a <= b <= es.len(),
    ensures
        emitted_fields(es.take(a), p).len() <= emitted_fields(es.take(b), p).len(),
    decreases b - a,
{
    if a < b {
        lemma_emitted_len_monotone(es, p, a, b - 1);
        assert(es.take(b).drop_last() =~= es.take(b - 1));
        assert(es.take(b).last() == es[b - 1]);
    }
}

/// An included field stands in the emitted view exactly at its position,
/// as its emitted form.
pub proof fn lemma_emitted_at(es: Seq<EntryModel>, p: Seq<char>, i: int)
    requires
        0 <= i < es.len(),
        !(resolve(es[i], p) is Omitted),
    ensures
        0 <= emitted_pos(es, p, i) < emitted_fields(es, p).len(),
        emitted_fields(es, p)[emitted_pos(es, p, i)] == view_field_of(es[i], p),
    decreases es.len(),
{
    assert(es.drop_last() =~= es.take(es.len() - 1));
    if i == es.len() - 1 {
        assert(emitted_pos(es, p, i) == emitted_fields(es.drop_last(), p).len());
    } else {
        lemma_emitted_at(es.drop_last(), p, i);
        assert(es.drop_last().take(i) =~= es.take(i));
        assert(es.drop_last()[i] == es[i]);
    }
}

/// Every emitted field is the emitted form of some included schema
/// field, standing at that field's position.
pub proof fn lemma_emitted_from(es: Seq<EntryModel>, p: Seq<char>, k: int)
    requires
        0 <= k < emitted_fields(es, p).len(),
    ensures
        exists|i: int|
            {
                &&& 0 <= i < es.len()
                &&& !(resolve(#[trigger] es[i], p) is Omitted)
                &&& emitted_fields(es, p)[k] == view_field_of(es[i], p)
            },
    decreases es.len(),
{
    assert(es.len() > 0);
    let rest = es.drop_last();
    if k < emitted_fields(rest, p).len() {
        lemma_emitted_from(rest, p, k);
        let i = choose|i: int|
            {
                &&& 0 <= i < rest.len()
                &&& !(resolve(#[trigger] rest[i], p) is Omitted)
                &&& emitted_fields(rest, p)[k] == view_field_of(rest[i], p)
            };
        assert(es[i] == rest[i]);
        assert(!(resolve(es[i], p) is Omitted) && emitted_fields(es, p)[k] == view_field_of(
            es[i],
            p,
        ));
    } else {
        let i = es.len() - 1;
        assert(!(resolve(es[i], p) is Omitted) && emitted_fields(es, p)[k] == view_field_of(
            es[i],
            p,
        ));
    }
}

/// Field and view emission is order-preserving: two fields both included
/// in a view stand in the emitted view in their declaration order.
pub proof fn lemma_order_preserved(es: Seq<EntryModel>, p: Seq<char>, i: int, j: int)
    requires
        0 <= i < j < es.len(),
        !(resolve(es[i], p) is Omitted),
        !(resolve(es[j], p) is Omitted),
    ensures
        emitted_pos(es, p, i) < emitted_pos(es, p, j),
        emitted_fields(es, p)[emitted_pos(es, p, i)] == view_field_of(es[i], p),
        emitted_fields(es, p)[emitted_pos(es, p, j)] == view_field_of(es[j], p),
{
    lemma_emitted_at(es, p, i);
    lemma_emitted_at(es, p, j);
    assert(es.take(i + 1).drop_last() =~= es.take(i));
    assert(es.take(i + 1).last() == es[i]);
    assert(emitted_fields(es.take(i + 1), p).len() == emitted_pos(es, p, i) + 1);
    lemma_emitted_len_monotone(es, p, i + 1, j);
}

/// A field with no directives resolves to included, with its original
/// type, in every view.
pub proof fn lemma_no_directives_included(es: Seq<EntryModel>, p: Seq<char>, i: int)
    requires
        0 <= i < es.len(),
        es[i].mods.len() == 0,
        es[i].default_show,
    ensures
        resolve(es[i], p) is Included,
        0 <= emitted_pos(es, p, i) < emitted_fields(es, p).len(),
        emitted_fields(es, p)[emitted_pos(es, p, i)] == (ViewFieldModel {
            name: es[i].name,
            ty: es[i].typ,
            vis: es[i].vis,
            optional: false,
        }),
{
    lemma_emitted_at(es, p, i);
}

/// A field whose directives are `hide` blocks alone is absent from every
/// view its hide list names, and present with its original type in every
/// other view.  (Absence is by field name, so the field's name must be
/// unique in the schema.)
pub proof fn lemma_hide_directive(es: Seq<EntryModel>, p: Seq<char>, i: int)
    requires
        0 <= i < es.len(),
        forall|m: int| 0 <= m < es[i].mods.len() ==> (#[trigger] es[i].mods[m]) is Hide,
        es[i].default_show,
        forall|j: int| 0 <= j < es.len() && j != i ==> (#[trigger] es[j]).name != es[i].name,
    ensures
        has_hide(es[i].mods, p) ==> forall|k: int|
            0 <= k < emitted_fields(es, p).len() ==> (#[trigger] emitted_fields(es, p)[k]).name
                != es[i].name,
        !has_hide(es[i].mods, p) ==> {
            &&& 0 <= emitted_pos(es, p, i) < emitted_fields(es, p).len()
            &&& emitted_fields(es, p)[emitted_pos(es, p, i)] == (ViewFieldModel {
                name: es[i].name,
                ty: es[i].typ,
                vis: es[i].vis,
                optional: false,
            })
        },
{
    if has_hide(es[i].mods, p) {
        assert(resolve(es[i], p) is Omitted);
        assert forall|k: int| 0 <= k < emitted_fields(es, p).len() implies (
        #[trigger] emitted_fields(es, p)[k]).name != es[i].name by {
            lemma_emitted_from(es, p, k);
            let j = choose|j: int|
                {
                    &&& 0 <= j < es.len()
                    &&& !(resolve(#[trigger] es[j], p) is Omitted)
                    &&& emitted_fields(es, p)[k] == view_field_of(es[j], p)
                };
            if emitted_fields(es, p)[k].name == es[i].name {
                assert(es[j].name == es[i].name);
                assert(j == i);
            }
        }
    } else {
        assert(resolve(es[i], p) is Included);
        lemma_emitted_at(es, p, i);
    }
}

/// A field whose directives are `show` blocks alone is present with its
/// original type exactly in the views its show list names, and absent
/// from every other view.  (Absence is by field name, so the field's
/// name must be unique in the schema.)
pub proof fn lemma_show_directive(es: Seq<EntryModel>, p: Seq<char>, i: int)
    requires
        0 <= i < es.len(),
        forall|m: int| 0 <= m < es[i].mods.len() ==> (#[trigger] es[i].mods[m]) is Show,
        !es[i].default_show,
        forall|j: int| 0 <= j < es.len() && j != i ==> (#[trigger] es[j]).name != es[i].name,
    ensures
        has_show(es[i].mods, p) ==> {
            &&& 0 <= emitted_pos(es, p, i) < emitted_fields(es, p).len()
            &&& emitted_fields(es, p)[emitted_pos(es, p, i)] == (ViewFieldModel {
                name: es[i].name,
                ty: es[i].typ,
                vis: es[i].vis,
                optional: false,
            })
        },
        !has_show(es[i].mods, p) ==> forall|k: int|
            0 <= k < emitted_fields(es, p).len() ==> (#[trigger] emitted_fields(es, p)[k]).name
                != es[i].name,
{
    if has_show(es[i].mods, p) {
        assert(resolve(es[i], p) is Included);
        lemma_emitted_at(es, p, i);
    } else {
        assert(resolve(es[i], p) is Omitted);
        assert forall|k: int| 0 <= k < emitted_fields(es, p).len() implies (
        #[trigger] emitted_fields(es, p)[k]).name != es[i].name by {
            lemma_emitted_from(es, p, k);
            let j = choose|j: int|
                {
                    &&& 0 <= j < es.len()
                    &&& !(resolve(#[trigger] es[j], p) is Omitted)
                    &&& emitted_fields(es, p)[k] == view_field_of(es[j], p)
                };
            if emitted_fields(es, p)[k].name == es[i].name {
                assert(es[j].name == es[i].name);
                assert(j == i);
            }
        }
    }
}

/// A field with an `optional` directive for a view is present in that
/// view wrapped as optional, whatever its other directives say of other
/// views.
pub proof fn lemma_optional_directive(es: Seq<EntryModel>, p: Seq<char>, i: int)
    requires
        0 <= i < es.len(),
        has_optional(es[i].mods, p),
    ensures
        resolve(es[i], p) is IncludedOptional,
        0 <= emitted_pos(es, p, i) < emitted_fields(es, p).len(),
        emitted_fields(es, p)[emitted_pos(es, p, i)] == (ViewFieldModel {
            name: es[i].name,
            ty: es[i].typ,
            vis: es[i].vis,
            optional: true,
        }),
{
    lemma_emitted_at(es, p, i);
}

/// A field with no annotations interprets to no modifiers under the
/// default policy Show: the hypotheses of the no-directives law.
pub proof fn lemma_no_annotations_model(f: RawField)
    requires
        f.attrs@.len() == 0,
    ensures
        entry_model_of(f).mods.len() == 0,
        entry_model_of(f).default_show,
{
}

/// A field annotated with `hide` blocks alone interprets to `hide`
/// modifiers alone under the default policy Show: the hypotheses of the
/// hide law.
pub proof fn lemma_hide_only_blocks_model(attrs: Seq<RawAttr>)
    requires
        forall|i: int| 0 <= i < attrs.len() ==> is_hide_block(#[trigger] attrs[i]),
    ensures
        forall|m: int| 0 <= m < mods_of(attrs).len() ==> (#[trigger] mods_of(attrs)[m]) is Hide,
        default_show_of(attrs),
    decreases attrs.len(),
{
    lemma_categories_distinct();
    if attrs.len() > 0 {
        lemma_hide_only_blocks_model(attrs.drop_last());
        assert forall|m: int| 0 <= m < mods_of(attrs).len() implies (
        #[trigger] mods_of(attrs)[m]) is Hide by {
            if m < mods_of(attrs.drop_last()).len() {
                assert(mods_of(attrs)[m] == mods_of(attrs.drop_last())[m]);
            }
        }
    }
}

/// A field annotated with `show` blocks alone interprets to `show`
/// modifiers alone under the default policy Hide: the hypotheses of the
/// show law.
pub proof fn lemma_show_only_blocks_model(attrs: Seq<RawAttr>)
    requires
        forall|i: int| 0 <= i < attrs.len() ==> is_show_block(#[trigger] attrs[i]),
        attrs.len() > 0,
    ensures
        forall|m: int| 0 <= m < mods_of(attrs).len() ==> (#[trigger] mods_of(attrs)[m]) is Show,
        !default_show_of(attrs),
    decreases attrs.len(),
{
    lemma_categories_distinct();
    assert(is_show_block(attrs[attrs.len() - 1]));
    if attrs.len() > 1 {
        lemma_show_only_blocks_model(attrs.drop_last());
    } else {
        assert(mods_of(attrs.drop_last()).len() == 0);
    }
    assert forall|m: int| 0 <= m < mods_of(attrs).len() implies (
    #[trigger] mods_of(attrs)[m]) is Show by {
        if m < mods_of(attrs.drop_last()).len() {
            assert(mods_of(attrs)[m] == mods_of(attrs.drop_last())[m]);
        }
    }
}

/// A field carrying both a `hide` block and a `show` block, in either
/// order, fails the pipeline: no view is generated for its schema.
pub proof fn lemma_hide_show_contradiction(
    schema: RawSchema,
    mappings: Seq<ViewMapping>,
    i: int,
)
    requires
        0 <= i < schema.fields@.len(),
        has_hide_block(schema.fields@[i].attrs@),
        has_show_block(schema.fields@[i].attrs@),
    ensures
        !schema_ok(schema, mappings),
{
    assert(!field_ok(schema.fields@[i], mappings));
}

/// A directive set naming one pseudonym under both `hide` and `show` is
/// never conflict-free.
pub proof fn lemma_show_hide_conflict_rejected(mods: Seq<Modifier>, i: int, j: int)
    requires
        0 <= i < mods.len(),
        0 <= j < mods.len(),
        mods[i] is Hide,
        mods[j] is Show,
        mods[i].pseudonym() == mods[j].pseudonym(),
    ensures
        !conflict_free(mods),
{
    assert(has_hide(mods, mods[i].pseudonym()));
    assert(has_show(mods, mods[i].pseudonym()));
    assert(conflicted(mods, mods[i].pseudonym()));
}

/// A field naming one pseudonym under both `hide` and `optional` fails
/// the pipeline: no view is generated for its schema.
pub proof fn lemma_hide_optional_contradiction(
    schema: RawSchema,
    mappings: Seq<ViewMapping>,
    i: int,
    m1: int,
    m2: int,
)
    requires
        0 <= i < schema.fields@.len(),
        0 <= m1 < mods_of(schema.fields@[i].attrs@).len(),
        0 <= m2 < mods_of(schema.fields@[i].attrs@).len(),
        mods_of(schema.fields@[i].attrs@)[m1] is Hide,
        mods_of(schema.fields@[i].attrs@)[m2] is Optional,
        mods_of(schema.fields@[i].attrs@)[m1].pseudonym() == mods_of(
            schema.fields@[i].attrs@,
        )[m2].pseudonym(),
    ensures
        !schema_ok(schema, mappings),
{
    let mods = mods_of(schema.fields@[i].attrs@);
    assert(has_hide(mods, mods[m1].pseudonym()));
    assert(has_optional(mods, mods[m1].pseudonym()));
    assert(conflicted(mods, mods[m1].pseudonym()));
    assert(!conflict_free(mods));
    assert(!field_ok(schema.fields@[i], mappings));
}

} // verus!
