//! View emission.
//!
//! For each declared view mapping, every field of the validated schema
//! resolves independently to one of three fates: omitted, included with
//! its original type, or included wrapped as optional.  The emitted view
//! keeps the canonical declaration order of the surviving fields and
//! copies the record-level access qualifier and pass-through attributes
//! unchanged.  `structur` runs the whole pipeline: interpret each field's
//! directives, validate references and conflicts, and emit one record
//! definition per declared view — or stop at the first failing field with
//! that field's batched diagnostics.

use vstd::prelude::*;

use crate::ast::{Ident, RawField, RawSchema, ViewMapping};
use crate::diag::{DiagModel, Diagnostic};
use crate::directives::{
    attr_parse_bad, attrs_wf, default_show_of, has_hide, has_optional, has_show, mods_of,
    parse_diag_matches, parse_modifiers, symbol_mods, Modifier, VisDefault,
};
use crate::validate::{
    check_references, conflict_diags, conflict_free, lemma_conflict_diags_empty_iff,
    refs_declared, undeclared_diags, validate_modifiers,
};

verus! {

/// One field of the schema after directive interpretation, ready for
/// emission.
pub struct Entry {
    pub modifiers: Vec<Modifier>,
    pub name: Ident,
    pub typ: String,
    pub vis: String,
    pub default_show: VisDefault,
}

/// Mathematical model of an interpreted field.
pub ghost struct EntryModel {
    pub name: Seq<char>,
    pub typ: Seq<char>,
    pub vis: Seq<char>,
    pub mods: Seq<Modifier>,
    pub default_show: bool,
}

impl View for Entry {
    type V = EntryModel;

    open spec fn view(&self) -> EntryModel {
        EntryModel {
            name: self.name.text@,
            typ: self.typ@,
            vis: self.vis@,
            mods: self.modifiers@,
            default_show: self.default_show is Show,
        }
    }
}

/// The fate of one field in one view.
pub enum FieldResolution {
    Omitted,
    Included,
    IncludedOptional,
}

/// Resolve one field's effective inclusion policy for the view known by
/// pseudonym `p`: an `optional` entry wins, then a `hide` entry omits,
/// then a `show` entry includes, and an unmentioned pseudonym falls back
/// to the field's default policy.
pub open spec fn resolve(e: EntryModel, p: Seq<char>) -> FieldResolution {
    if has_optional(e.mods, p) {
        FieldResolution::IncludedOptional
    } else if has_hide(e.mods, p) {
        FieldResolution::Omitted
    } else if has_show(e.mods, p) {
        FieldResolution::Included
    } else if e.default_show {
        FieldResolution::Included
    } else {
        FieldResolution::Omitted
    }
}

/// One field of an emitted view: the field with its original type, or
/// wrapped as optional.
#[derive(Debug)]
pub struct ViewField {
    pub name: String,
    pub ty: String,
    pub vis: String,
    pub optional: bool,
}

/// Mathematical model of an emitted field.
pub ghost struct ViewFieldModel {
    pub name: Seq<char>,
    pub ty: Seq<char>,
    pub vis: Seq<char>,
    pub optional: bool,
}

impl View for ViewField {
    type V = ViewFieldModel;

    open spec fn view(&self) -> ViewFieldModel {
        ViewFieldModel { name: self.name@, ty: self.ty@, vis: self.vis@, optional: self.optional }
    }
}

/// The emitted form of one included field.
pub open spec fn view_field_of(e: EntryModel, p: Seq<char>) -> ViewFieldModel {
    ViewFieldModel {
        name: e.name,
        ty: e.typ,
        vis: e.vis,
        optional: resolve(e, p) is IncludedOptional,
    }
}

/// The fields a view emits: the subsequence of the schema's fields that
/// resolve to included for pseudonym `p`, in declaration order.
pub open spec fn emitted_fields(es: Seq<EntryModel>, p: Seq<char>) -> Seq<ViewFieldModel>
    decreases es.len(),
{
    if es.len() == 0 {
        Seq::empty()
    } else {
        emitted_fields(es.drop_last(), p) + (if resolve(es.last(), p) is Omitted {
            Seq::<ViewFieldModel>::empty()
        } else {
            seq![view_field_of(es.last(), p)]
        })
    }
}

/// One emitted record definition.
#[derive(Debug)]
pub struct GeneratedView {
    pub name: String,
    pub vis: String,
    pub attrs: Vec<String>,
    pub fields: Vec<ViewField>,
}

/// Mathematical model of an emitted record definition.
pub ghost struct GeneratedViewModel {
    pub name: Seq<char>,
    pub vis: Seq<char>,
    pub attrs: Seq<Seq<char>>,
    pub fields: Seq<ViewFieldModel>,
}

impl View for GeneratedView {
    type V = GeneratedViewModel;

    open spec fn view(&self) -> GeneratedViewModel {
        GeneratedViewModel {
            name: self.name@,
            vis: self.vis@,
            attrs: self.attrs@.map_values(|s: String| s@),
            fields: self.fields@.map_values(|f: ViewField| f@),
        }
    }
}

/// Clone a list of opaque attribute strings.
fn clone_strings(v: &Vec<String>) -> (r: Vec<String>)
    ensures
        r@ == v@,
{
    let mut r: Vec<String> = Vec::new();
    let n = v.len();
    for i in 0..n
        invariant
            n == v@.len(),
            r@ == v@.take(i as int),
    {
        r.push(v[i].clone());
        proof {
            assert(r@ =~= v@.take(i as int + 1));
        }
    }
    proof {
        assert(v@.take(n as int) =~= v@);
    }
    r
}

/// Emit one view: resolve every field against the view's pseudonym and
/// keep the included ones, in declaration order, under the view's
/// generated name, with the record-level access qualifier and
/// pass-through attributes copied unchanged.
pub fn emit_view(
    entries: &Vec<Entry>,
    mapping: &ViewMapping,
    vis: &String,
    attrs: &Vec<String>,
) -> (r: GeneratedView)
    ensures
        r@ == (GeneratedViewModel {
            name: mapping.view_name@,
            vis: vis@,
            attrs: attrs@.map_values(|s: String| s@),
            fields: emitted_fields(entries@.map_values(|e: Entry| e@), mapping.pseudonym@),
        }),
{
    let ghost ms = entries@.map_values(|e: Entry| e@);
    let mut fields: Vec<ViewField> = Vec::new();
    let n = entries.len();
    for t in 0..n
        invariant
            n == entries@.len(),
            ms == entries@.map_values(|e: Entry| e@),
            fields@.map_values(|f: ViewField| f@) == emitted_fields(
                ms.take(t as int),
                mapping.pseudonym@,
            ),
    {
        let e = &entries[t];
        let info = symbol_mods(&e.modifiers, mapping.pseudonym.clone());
        if info.has_option {
            fields.push(
                ViewField {
                    name: e.name.text.clone(),
                    ty: e.typ.clone(),
                    vis: e.vis.clone(),
                    optional: true,
                },
            );
        } else if info.has_hide {
            // omitted from this view
        } else if info.has_show {
            fields.push(
                ViewField {
                    name: e.name.text.clone(),
                    ty: e.typ.clone(),
                    vis: e.vis.clone(),
                    optional: false,
                },
            );
        } else {
            match e.default_show {
                VisDefault::Show => {
                    fields.push(
                        ViewField {
                            name: e.name.text.clone(),
                            ty: e.typ.clone(),
                            vis: e.vis.clone(),
                            optional: false,
                        },
                    );
                },
                VisDefault::Hide => {
                    // omitted from this view
                },
            }
        }
        proof {
            assert(ms.take(t as int + 1) =~= ms.take(t as int).push(ms[t as int]));
            assert(ms.take(t as int + 1).drop_last() =~= ms.take(t as int));
            assert(fields@.map_values(|f: ViewField| f@) =~= emitted_fields(
                ms.take(t as int + 1),
                mapping.pseudonym@,
            ));
        }
    }
    proof {
        assert(ms.take(n as int) =~= ms);
    }
    GeneratedView {
        name: mapping.view_name.clone(),
        vis: vis.clone(),
        attrs: clone_strings(attrs),
        fields,
    }
}

/// The interpreted model of one raw field.
pub open spec fn entry_model_of(f: RawField) -> EntryModel {
    EntryModel {
        name: f.name.text@,
        typ: f.ty@,
        vis: f.vis@,
        mods: mods_of(f.attrs@),
        default_show: default_show_of(f.attrs@),
    }
}

/// The batched validation diagnostics of one field: every undeclared
/// reference, then every cross-category conflict.
pub open spec fn field_validation_diags(f: RawField, mappings: Seq<ViewMapping>) -> Seq<
    DiagModel,
> {
    undeclared_diags(mods_of(f.attrs@), mappings) + conflict_diags(mods_of(f.attrs@))
}

/// A field passes the whole static pipeline: its annotations are
/// well-formed, every referenced pseudonym is declared, and its
/// directive set is conflict-free.
pub open spec fn field_ok(f: RawField, mappings: Seq<ViewMapping>) -> bool {
    &&& attrs_wf(f.attrs@)
    &&& refs_declared(mods_of(f.attrs@), mappings)
    &&& conflict_free(mods_of(f.attrs@))
}

/// Every field of the schema passes the static pipeline.
pub open spec fn schema_ok(schema: RawSchema, mappings: Seq<ViewMapping>) -> bool {
    forall|i: int|
        0 <= i < schema.fields@.len() ==> field_ok(#[trigger] schema.fields@[i], mappings)
}

/// Do the diagnostics `ds` correctly describe the failure of field `f`?
/// A field that fails directive interpretation reports the single
/// diagnostic of its first bad block; one that fails validation reports
/// its batched reference and conflict diagnostics.
pub open spec fn failure_diags_match(
    f: RawField,
    mappings: Seq<ViewMapping>,
    ds: Seq<DiagModel>,
) -> bool {
    if !attrs_wf(f.attrs@) {
        &&& ds.len() == 1
        &&& exists|k: int|
            {
                &&& 0 <= k < f.attrs@.len()
                &&& #[trigger] attr_parse_bad(f.attrs@, k)
                &&& (forall|j: int| 0 <= j < k ==> !attr_parse_bad(f.attrs@, j))
                &&& parse_diag_matches(f.attrs@, f.name.text@, k, ds[0])
            }
    } else {
        ds == field_validation_diags(f, mappings)
    }
}

/// The generated view owed to mapping `m` by a schema whose interpreted
/// fields are `es`.
pub open spec fn view_model_of(
    schema: RawSchema,
    es: Seq<EntryModel>,
    m: ViewMapping,
) -> GeneratedViewModel {
    GeneratedViewModel {
        name: m.view_name@,
        vis: schema.vis@,
        attrs: schema.attrs@.map_values(|s: String| s@),
        fields: emitted_fields(es, m.pseudonym@),
    }
}

/// Run the whole generator pipeline on one canonical schema and the
/// declared view mappings.
///
/// On success there is exactly one generated view per declared mapping,
/// in declaration order, each as [`emit_view`] specifies.  The pipeline
/// fails exactly when some field fails interpretation or validation;
/// fields are processed in declaration order and the first failing field
/// stops the run, its diagnostics batched, so no definitions are emitted
/// alongside errors.
pub fn structur(schema: &RawSchema, mappings: &Vec<ViewMapping>) -> (r: Result<
    Vec<GeneratedView>,
    Vec<Diagnostic>,
>)
    ensures
        r is Ok <==> schema_ok(*schema, mappings@),
        r matches Ok(views) ==> {
            &&& views@.len() == mappings@.len()
            &&& forall|k: int|
                0 <= k < mappings@.len() ==> (#[trigger] views@[k])@ == view_model_of(
                    *schema,
                    schema.fields@.map_values(|f: RawField| entry_model_of(f)),
                    mappings@[k],
                )
        },
        r matches Err(ds) ==> exists|i: int|
            {
                &&& 0 <= i < schema.fields@.len()
                &&& !field_ok(#[trigger] schema.fields@[i], mappings@)
                &&& (forall|j: int| 0 <= j < i ==> field_ok(schema.fields@[j], mappings@))
                &&& failure_diags_match(schema.fields@[i], mappings@, ds@.map_values(
                    |d: Diagnostic| d@,
                ))
            },
{
    let ghost fseq = schema.fields@;
    let mut entries: Vec<Entry> = Vec::new();
    let nf = schema.fields.len();
    for i in 0..nf
        invariant
            nf == fseq.len(),
            fseq == schema.fields@,
            forall|j: int| 0 <= j < i ==> field_ok(#[trigger] fseq[j], mappings@),
            entries@.map_values(|e: Entry| e@) == fseq.take(i as int).map_values(
                |f: RawField| entry_model_of(f),
            ),
    {
        let field = &schema.fields[i];
        match parse_modifiers(field) {
            Err(d) => {
                let ghost dm = d@;
                let mut ds: Vec<Diagnostic> = Vec::new();
                ds.push(d);
                proof {
                    assert(ds@.map_values(|d: Diagnostic| d@) =~= seq![dm]);
                    assert(!field_ok(fseq[i as int], mappings@));
                    assert(failure_diags_match(fseq[i as int], mappings@, ds@.map_values(
                        |d: Diagnostic| d@,
                    )));
                }
                return Err(ds);
            },
            Ok(pm) => {
                let mut ds = check_references(&pm.mods, mappings);
                let ghost refs_dm = ds@.map_values(|d: Diagnostic| d@);
                match validate_modifiers(&pm.mods) {
                    Err(mut cds) => {
                        proof {
                            lemma_conflict_diags_empty_iff(pm.mods@);
                        }
                        ds.append(&mut cds);
                    },
                    Ok(()) => {
                        proof {
                            lemma_conflict_diags_empty_iff(pm.mods@);
                        }
                    },
                }
                proof {
                    assert(ds@.map_values(|d: Diagnostic| d@) =~= undeclared_diags(
                        pm.mods@,
                        mappings@,
                    ) + conflict_diags(pm.mods@));
                }
                if ds.len() > 0 {
                    proof {
                        assert(!(refs_declared(pm.mods@, mappings@) && conflict_free(pm.mods@)));
                        assert(!field_ok(fseq[i as int], mappings@));
                        assert(failure_diags_match(fseq[i as int], mappings@, ds@.map_values(
                            |d: Diagnostic| d@,
                        )));
                    }
                    return Err(ds);
                }
                let entry = Entry {
                    modifiers: pm.mods,
                    name: field.name.clone(),
                    typ: field.ty.clone(),
                    vis: field.vis.clone(),
                    default_show: pm.default_vis,
                };
                proof {
                    assert(entry@ == entry_model_of(fseq[i as int]));
                    assert(field_ok(fseq[i as int], mappings@));
                }
                let ghost pre = entries@;
                let ghost em = entry@;
                entries.push(entry);
                proof {
                    assert(entries@ =~= pre.push(entries@.last()));
                    assert(entries@.map_values(|e: Entry| e@) =~= pre.map_values(
                        |e: Entry| e@,
                    ).push(em));
                    assert(fseq.take(i as int + 1) =~= fseq.take(i as int).push(fseq[i as int]));
                    assert(fseq.take(i as int + 1).map_values(|f: RawField| entry_model_of(f))
                        =~= fseq.take(i as int).map_values(|f: RawField| entry_model_of(f)).push(
                        entry_model_of(fseq[i as int]),
                    ));
                    assert(entries@.map_values(|e: Entry| e@) =~= fseq.take(i as int + 1)
                        .map_values(|f: RawField| entry_model_of(f)));
                }
            },
        }
    }
    proof {
        assert(fseq.take(nf as int) =~= fseq);
        assert(schema_ok(*schema, mappings@));
    }
    let ghost es = fseq.map_values(|f: RawField| entry_model_of(f));
    let mut views: Vec<GeneratedView> = Vec::new();
    let nm = mappings.len();
    for k in 0..nm
        invariant
            nm == mappings@.len(),
            es == schema.fields@.map_values(|f: RawField| entry_model_of(f)),
            entries@.map_values(|e: Entry| e@) == es,
            views@.len() == k,
            forall|kk: int|
                0 <= kk < k ==> (#[trigger] views@[kk])@ == view_model_of(
                    *schema,
                    es,
                    mappings@[kk],
                ),
    {
        let gv = emit_view(&entries, &mappings[k], &schema.vis, &schema.attrs);
        views.push(gv);
    }
    Ok(views)
}

} // verus!
