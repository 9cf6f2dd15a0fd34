//! Directive interpretation.
//!
//! Each field of the canonical schema may carry annotation blocks of three
//! categories — `hide`, `show` and `optional` — each listing pseudonyms of
//! views.  The interpreter turns a field's raw annotation list into its
//! [`Modifier`] sequence and derived default policy, rejecting malformed
//! blocks, unknown categories, and contradictory `hide`/`show` mixtures.

use vstd::prelude::*;

use crate::ast::{Ident, PathArg, RawAttr, RawField};
use crate::diag::{DiagKind, DiagModel, Diagnostic};

verus! {

/// One interpreted directive: the category together with the pseudonym it
/// names.  A block listing several pseudonyms yields one modifier each.
#[derive(Debug)]
pub enum Modifier {
    Hide(Ident),
    Show(Ident),
    Optional(Ident),
}

impl Modifier {
    /// The identifier this modifier names.
    pub open spec fn ident_spec(self) -> Ident {
        match self {
            Modifier::Hide(i) => i,
            Modifier::Show(i) => i,
            Modifier::Optional(i) => i,
        }
    }

    /// The pseudonym this modifier names.
    pub open spec fn pseudonym(self) -> Seq<char> {
        self.ident_spec().text@
    }

    /// The pseudonym this modifier names, as text.
    pub fn name(&self) -> (r: String)
        ensures
            r@ == self.pseudonym(),
    {
        match self {
            Modifier::Hide(i) => i.text.clone(),
            Modifier::Show(i) => i.text.clone(),
            Modifier::Optional(i) => i.text.clone(),
        }
    }

    /// The identifier this modifier names, location included.
    pub fn name_id(&self) -> (r: Ident)
        ensures
            r == self.ident_spec(),
    {
        match self {
            Modifier::Hide(i) => i.clone(),
            Modifier::Show(i) => i.clone(),
            Modifier::Optional(i) => i.clone(),
        }
    }
}

/// Does the modifier sequence hide pseudonym `p`?
pub open spec fn has_hide(mods: Seq<Modifier>, p: Seq<char>) -> bool {
    exists|i: int| 0 <= i < mods.len() && mods[i] is Hide && mods[i].pseudonym() == p
}

/// Does the modifier sequence show pseudonym `p`?
pub open spec fn has_show(mods: Seq<Modifier>, p: Seq<char>) -> bool {
    exists|i: int| 0 <= i < mods.len() && mods[i] is Show && mods[i].pseudonym() == p
}

/// Does the modifier sequence mark pseudonym `p` optional?
pub open spec fn has_optional(mods: Seq<Modifier>, p: Seq<char>) -> bool {
    exists|i: int| 0 <= i < mods.len() && mods[i] is Optional && mods[i].pseudonym() == p
}

/// How one field's modifiers treat one particular pseudonym.
#[derive(Debug)]
pub struct ModifierInfo {
    pub has_hide: bool,
    pub has_show: bool,
    pub has_option: bool,
}

/// Collect, for pseudonym `id`, which directive categories of `mods`
/// name it.
pub fn symbol_mods(mods: &Vec<Modifier>, id: String) -> (r: ModifierInfo)
    ensures
        r.has_hide == has_hide(mods@, id@),
        r.has_show == has_show(mods@, id@),
        r.has_option == has_optional(mods@, id@),
{
    let mut found_hide = false;
    let mut found_show = false;
    let mut found_option = false;
    let n = mods.len();
    for k in 0..n
        invariant
            n == mods@.len(),
            found_hide == has_hide(mods@.take(k as int), id@),
            found_show == has_show(mods@.take(k as int), id@),
            found_option == has_optional(mods@.take(k as int), id@),
    {
        match &mods[k] {
            Modifier::Hide(i) => {
                if i.text == id {
                    found_hide = true;
                }
            },
            Modifier::Show(i) => {
                if i.text == id {
                    found_show = true;
                }
            },
            Modifier::Optional(i) => {
                if i.text == id {
                    found_option = true;
                }
            },
        }
        proof {
            assert(mods@.take(k + 1) =~= mods@.take(k as int).push(mods@[k as int]));
            lemma_has_push(mods@.take(k as int), mods@[k as int], id@);
        }
    }
    proof {
        assert(mods@.take(n as int) =~= mods@);
    }
    ModifierInfo { has_option: found_option, has_hide: found_hide, has_show: found_show }
}

/// Extending a modifier sequence by one modifier extends each category
/// predicate by exactly that modifier's contribution.
proof fn lemma_has_push(mods: Seq<Modifier>, m: Modifier, p: Seq<char>)
    ensures
        has_hide(mods.push(m), p) == (has_hide(mods, p) || (m is Hide && m.pseudonym() == p)),
        has_show(mods.push(m), p) == (has_show(mods, p) || (m is Show && m.pseudonym() == p)),
        has_optional(mods.push(m), p) == (has_optional(mods, p) || (m is Optional
            && m.pseudonym() == p)),
{
    let s = mods.push(m);
    assert(s[mods.len() as int] == m);
    assert(forall|i: int| 0 <= i < mods.len() ==> s[i] == mods[i]);
    if has_hide(mods, p) {
        let i = choose|i: int| 0 <= i < mods.len() && mods[i] is Hide && mods[i].pseudonym() == p;
        assert(s[i] is Hide && s[i].pseudonym() == p);
    }
    if has_show(mods, p) {
        let i = choose|i: int| 0 <= i < mods.len() && mods[i] is Show && mods[i].pseudonym() == p;
        assert(s[i] is Show && s[i].pseudonym() == p);
    }
    if has_optional(mods, p) {
        let i = choose|i: int|
            0 <= i < mods.len() && mods[i] is Optional && mods[i].pseudonym() == p;
        assert(s[i] is Optional && s[i].pseudonym() == p);
    }
}

/// The field's default policy: how it behaves in a view its directives do
/// not name.
#[derive(PartialEq, Eq, Structural, Clone, Copy, Debug)]
pub enum VisDefault {
    Hide,
    Show,
}

/// Result of interpreting one field's annotation list.
#[derive(Debug)]
pub struct ParseModifiers {
    pub default_vis: VisDefault,
    pub mods: Vec<Modifier>,
}

/// Is attribute `a` a well-formed `hide` block?
pub open spec fn is_hide_block(a: RawAttr) -> bool {
    a matches RawAttr::List { category, .. } && category.text@ == "hide"@
}

/// Is attribute `a` a well-formed `show` block?
pub open spec fn is_show_block(a: RawAttr) -> bool {
    a matches RawAttr::List { category, .. } && category.text@ == "show"@
}

/// Is attribute `a` a well-formed `optional` block?
pub open spec fn is_optional_block(a: RawAttr) -> bool {
    a matches RawAttr::List { category, .. } && category.text@ == "optional"@
}

/// Are all arguments of attribute `a` single-segment identifiers?
pub open spec fn args_single(a: RawAttr) -> bool {
    a matches RawAttr::List { args, .. } ==> forall|i: int|
        0 <= i < args@.len() ==> (#[trigger] args@[i]).single_segment()
}

/// Is attribute `a` acceptable on its own: a list of single-segment
/// identifiers under a recognized category?
pub open spec fn attr_wf(a: RawAttr) -> bool {
    &&& a is List
    &&& args_single(a)
    &&& (is_hide_block(a) || is_show_block(a) || is_optional_block(a))
}

/// Does the attribute list contain a `hide` block?
pub open spec fn has_hide_block(attrs: Seq<RawAttr>) -> bool {
    exists|i: int| 0 <= i < attrs.len() && is_hide_block(#[trigger] attrs[i])
}

/// Does the attribute list contain a `show` block?
pub open spec fn has_show_block(attrs: Seq<RawAttr>) -> bool {
    exists|i: int| 0 <= i < attrs.len() && is_show_block(#[trigger] attrs[i])
}

/// Is the whole annotation list acceptable?  Every block must be
/// well-formed, and a field may carry `hide` blocks or `show` blocks but
/// never both: one category having claimed the explicit override, a block
/// of the other is a contradiction.
pub open spec fn attrs_wf(attrs: Seq<RawAttr>) -> bool {
    &&& forall|i: int| 0 <= i < attrs.len() ==> attr_wf(#[trigger] attrs[i])
    &&& !(has_hide_block(attrs) && has_show_block(attrs))
}

/// The modifiers contributed by one well-formed block: one per listed
/// pseudonym, in order, under the block's category.
pub open spec fn block_mods(a: RawAttr) -> Seq<Modifier> {
    match a {
        RawAttr::List { category, args } => if category.text@ == "hide"@ {
            Seq::new(args@.len(), |i: int| Modifier::Hide(args@[i].ident))
        } else if category.text@ == "show"@ {
            Seq::new(args@.len(), |i: int| Modifier::Show(args@[i].ident))
        } else if category.text@ == "optional"@ {
            Seq::new(args@.len(), |i: int| Modifier::Optional(args@[i].ident))
        } else {
            Seq::empty()
        },
        RawAttr::Other { .. } => Seq::empty(),
    }
}

/// The modifier sequence of a whole annotation list: the blocks'
/// contributions concatenated in declaration order.
pub open spec fn mods_of(attrs: Seq<RawAttr>) -> Seq<Modifier>
    decreases attrs.len(),
{
    if attrs.len() == 0 {
        Seq::empty()
    } else {
        mods_of(attrs.drop_last()) + block_mods(attrs.last())
    }
}

/// The field's derived default policy is Show unless a `show` block
/// claimed the explicit override (only listed views show the field).
pub open spec fn default_show_of(attrs: Seq<RawAttr>) -> bool {
    !has_show_block(attrs)
}

/// Does attribute `k` of the list fail interpretation, its prefix having
/// succeeded?
pub open spec fn attr_parse_bad(attrs: Seq<RawAttr>, k: int) -> bool {
    let a = attrs[k];
    ||| !(a is List)
    ||| !args_single(a)
    ||| !(is_hide_block(a) || is_show_block(a) || is_optional_block(a))
    ||| (is_hide_block(a) && has_show_block(attrs.take(k)))
    ||| (is_show_block(a) && has_hide_block(attrs.take(k)))
}

/// Does diagnostic `d` correctly describe the failure of attribute `k`,
/// the interpreter checking block shape, then argument shape, then the
/// category, then the double-override rule, and reporting the first
/// offense?  `field_name` is the field the list belongs to.
pub open spec fn parse_diag_matches(
    attrs: Seq<RawAttr>,
    field_name: Seq<char>,
    k: int,
    d: DiagModel,
) -> bool {
    match attrs[k] {
        RawAttr::Other { loc } => d == DiagModel {
            kind: DiagKind::NotAList,
            name: Seq::<char>::empty(),
            loc,
        },
        RawAttr::List { category, args } => if !args_single(attrs[k]) {
            exists|i: int|
                {
                    &&& 0 <= i < args@.len()
                    &&& !(#[trigger] args@[i]).single_segment()
                    &&& (forall|j: int| 0 <= j < i ==> (#[trigger] args@[j]).single_segment())
                    &&& d == DiagModel {
                        kind: DiagKind::MultiSegment,
                        name: args@[i].ident.text@,
                        loc: args@[i].ident.loc,
                    }
                }
        } else if !(is_hide_block(attrs[k]) || is_show_block(attrs[k]) || is_optional_block(
            attrs[k],
        )) {
            d == DiagModel { kind: DiagKind::UnknownCategory, name: category.text@, loc: category.loc }
        } else {
            d == DiagModel { kind: DiagKind::DoubleOverride, name: field_name, loc: category.loc }
        },
    }
}

/// Interpret one field's raw annotation list.
///
/// On success the result carries the field's modifiers, one per pseudonym
/// per block in declaration order, and the derived default policy.  The
/// call fails exactly when some block is malformed, names an unrecognized
/// category, or contradicts an earlier block of the opposite visibility
/// category; the diagnostic describes the first such block.
pub fn parse_modifiers(field: &RawField) -> (r: Result<ParseModifiers, Diagnostic>)
    ensures
        r is Ok <==> attrs_wf(field.attrs@),
        r matches Ok(p) ==> {
            &&& p.mods@ == mods_of(field.attrs@)
            &&& (p.default_vis is Show <==> default_show_of(field.attrs@))
        },
        r matches Err(d) ==> exists|k: int|
            {
                &&& 0 <= k < field.attrs@.len()
                &&& #[trigger] attr_parse_bad(field.attrs@, k)
                &&& (forall|j: int| 0 <= j < k ==> !attr_parse_bad(field.attrs@, j))
                &&& parse_diag_matches(field.attrs@, field.name.text@, k, d@)
            },
{
    let mut ret: Vec<Modifier> = Vec::new();
    let mut def_vis = VisDefault::Show;
    let mut has_explicit_vis = false;
    let ghost attrs = field.attrs@;
    let n = field.attrs.len();
    for k in 0..n
        invariant
            n == attrs.len(),
            attrs == field.attrs@,
            forall|j: int| 0 <= j < k ==> !attr_parse_bad(attrs, j),
            forall|j: int| 0 <= j < k ==> attr_wf(#[trigger] attrs[j]),
            !(has_hide_block(attrs.take(k as int)) && has_show_block(attrs.take(k as int))),
            ret@ == mods_of(attrs.take(k as int)),
            has_explicit_vis == (has_hide_block(attrs.take(k as int)) || has_show_block(
                attrs.take(k as int),
            )),
            def_vis is Show <==> !has_show_block(attrs.take(k as int)),
    {
        proof {
            assert(attrs.take(k + 1).drop_last() =~= attrs.take(k as int));
            assert(attrs.take(k + 1).last() == attrs[k as int]);
            lemma_block_seen(attrs, k as int);
            lemma_categories_distinct();
        }
        match &field.attrs[k] {
            RawAttr::Other { loc } => {
                proof {
                    assert(attr_parse_bad(attrs, k as int));
                    lemma_wf_no_bad(attrs);
                }
                return Err(
                    Diagnostic { kind: DiagKind::NotAList, name: String::new(), loc: *loc },
                );
            },
            RawAttr::List { category, args } => {
                let m = args.len();
                for i in 0..m
                    invariant
                        m == args@.len(),
                        attrs == field.attrs@,
                        0 <= k as int && (k as int) < attrs.len(),
                        attrs[k as int] matches RawAttr::List { args: aa, .. } && aa@ == args@,
                        forall|j: int| 0 <= j < i ==> (#[trigger] args@[j]).single_segment(),
                        forall|j: int| 0 <= j < k ==> !attr_parse_bad(attrs, j),
                {
                    if args[i].segments != 1 {
                        let d = Diagnostic {
                            kind: DiagKind::MultiSegment,
                            name: args[i].ident.text.clone(),
                            loc: args[i].ident.loc,
                        };
                        proof {
                            assert(!args@[i as int].single_segment());
                            assert(!args_single(attrs[k as int]));
                            assert(attr_parse_bad(attrs, k as int));
                            lemma_wf_no_bad(attrs);
                            let ghost aa = attrs[k as int]->List_args;
                            assert(aa@ == args@);
                            assert({
                                &&& 0 <= i as int
                                &&& (i as int) < aa@.len()
                                &&& !aa@[i as int].single_segment()
                                &&& (forall|j: int|
                                    0 <= j < i as int ==> (#[trigger] aa@[j]).single_segment())
                                &&& d@ == DiagModel {
                                    kind: DiagKind::MultiSegment,
                                    name: aa@[i as int].ident.text@,
                                    loc: aa@[i as int].ident.loc,
                                }
                            });
                            assert(parse_diag_matches(attrs, field.name.text@, k as int, d@));
                        }
                        return Err(d);
                    }
                }
                proof {
                    assert(args_single(attrs[k as int]));
                }
                if category.text == "hide".to_owned() {
                    proof {
                        assert(is_hide_block(attrs[k as int]));
                    }
                    if has_explicit_vis && matches!(def_vis, VisDefault::Hide) {
                        proof {
                            assert(has_show_block(attrs.take(k as int)));
                            assert(attr_parse_bad(attrs, k as int));
                            lemma_wf_no_bad(attrs);
                        }
                        return Err(
                            Diagnostic {
                                kind: DiagKind::DoubleOverride,
                                name: field.name.text.clone(),
                                loc: category.loc,
                            },
                        );
                    }
                    let mm = args.len();
                    for i in 0..mm
                        invariant
                            mm == args@.len(),
                            attrs == field.attrs@,
                            0 <= k as int && (k as int) < attrs.len(),
                            attrs[k as int] matches RawAttr::List { args: aa, .. } && aa@ == args@,
                            is_hide_block(attrs[k as int]),
                            ret@ == mods_of(attrs.take(k as int)) + Seq::new(
                                i as nat,
                                |j: int| Modifier::Hide(args@[j].ident),
                            ),
                    {
                        ret.push(Modifier::Hide(args[i].ident.clone()));
                        proof {
                            assert(ret@.drop_last() == mods_of(attrs.take(k as int)) + Seq::new(
                                i as nat,
                                |j: int| Modifier::Hide(args@[j].ident),
                            ));
                            assert(ret@ =~= mods_of(attrs.take(k as int)) + Seq::new(
                                (i + 1) as nat,
                                |j: int| Modifier::Hide(args@[j].ident),
                            ));
                        }
                    }
                    def_vis = VisDefault::Show;
                    has_explicit_vis = true;
                    proof {
                        assert(block_mods(attrs[k as int]) =~= Seq::new(
                            args@.len(),
                            |j: int| Modifier::Hide(args@[j].ident),
                        ));
                        assert(ret@ =~= mods_of(attrs.take(k + 1)));
                    }
                } else if category.text == "show".to_owned() {
                    proof {
                        assert(is_show_block(attrs[k as int]));
                    }
                    if has_explicit_vis && matches!(def_vis, VisDefault::Show) {
                        proof {
                            assert(has_hide_block(attrs.take(k as int)));
                            assert(attr_parse_bad(attrs, k as int));
                            lemma_wf_no_bad(attrs);
                        }
                        return Err(
                            Diagnostic {
                                kind: DiagKind::DoubleOverride,
                                name: field.name.text.clone(),
                                loc: category.loc,
                            },
                        );
                    }
                    def_vis = VisDefault::Hide;
                    has_explicit_vis = true;
                    let mm = args.len();
                    for i in 0..mm
                        invariant
                            mm == args@.len(),
                            attrs == field.attrs@,
                            0 <= k as int && (k as int) < attrs.len(),
                            attrs[k as int] matches RawAttr::List { args: aa, .. } && aa@ == args@,
                            is_show_block(attrs[k as int]),
                            ret@ == mods_of(attrs.take(k as int)) + Seq::new(
                                i as nat,
                                |j: int| Modifier::Show(args@[j].ident),
                            ),
                    {
                        ret.push(Modifier::Show(args[i].ident.clone()));
                        proof {
                            assert(ret@.drop_last() == mods_of(attrs.take(k as int)) + Seq::new(
                                i as nat,
                                |j: int| Modifier::Show(args@[j].ident),
                            ));
                            assert(ret@ =~= mods_of(attrs.take(k as int)) + Seq::new(
                                (i + 1) as nat,
                                |j: int| Modifier::Show(args@[j].ident),
                            ));
                        }
                    }
                    proof {
                        assert(block_mods(attrs[k as int]) =~= Seq::new(
                            args@.len(),
                            |j: int| Modifier::Show(args@[j].ident),
                        ));
                        assert(ret@ =~= mods_of(attrs.take(k + 1)));
                    }
                } else if category.text == "optional".to_owned() {
                    proof {
                        assert(is_optional_block(attrs[k as int]));
                    }
                    let mm = args.len();
                    for i in 0..mm
                        invariant
                            mm == args@.len(),
                            attrs == field.attrs@,
                            0 <= k as int && (k as int) < attrs.len(),
                            attrs[k as int] matches RawAttr::List { args: aa, .. } && aa@ == args@,
                            is_optional_block(attrs[k as int]),
                            ret@ == mods_of(attrs.take(k as int)) + Seq::new(
                                i as nat,
                                |j: int| Modifier::Optional(args@[j].ident),
                            ),
                    {
                        ret.push(Modifier::Optional(args[i].ident.clone()));
                        proof {
                            assert(ret@.drop_last() == mods_of(attrs.take(k as int)) + Seq::new(
                                i as nat,
                                |j: int| Modifier::Optional(args@[j].ident),
                            ));
                            assert(ret@ =~= mods_of(attrs.take(k as int)) + Seq::new(
                                (i + 1) as nat,
                                |j: int| Modifier::Optional(args@[j].ident),
                            ));
                        }
                    }
                    proof {
                        assert(block_mods(attrs[k as int]) =~= Seq::new(
                            args@.len(),
                            |j: int| Modifier::Optional(args@[j].ident),
                        ));
                        assert(ret@ =~= mods_of(attrs.take(k + 1)));
                    }
                } else {
                    proof {
                        assert(!(is_hide_block(attrs[k as int]) || is_show_block(attrs[k as int])
                            || is_optional_block(attrs[k as int])));
                        assert(attr_parse_bad(attrs, k as int));
                        lemma_wf_no_bad(attrs);
                    }
                    return Err(
                        Diagnostic {
                            kind: DiagKind::UnknownCategory,
                            name: category.text.clone(),
                            loc: category.loc,
                        },
                    );
                }
            },
        }
    }
    proof {
        assert(attrs.take(n as int) =~= attrs);
        lemma_attrs_wf_from_prefix(attrs);
    }
    Ok(ParseModifiers { mods: ret, default_vis: def_vis })
}

/// Extending the scanned prefix by attribute `k` extends the block
/// predicates by exactly that attribute's category.
proof fn lemma_block_seen(attrs: Seq<RawAttr>, k: int)
    requires
        0 <= k < attrs.len(),
    ensures
        has_hide_block(attrs.take(k + 1)) == (has_hide_block(attrs.take(k)) || is_hide_block(
            attrs[k],
        )),
        has_show_block(attrs.take(k + 1)) == (has_show_block(attrs.take(k)) || is_show_block(
            attrs[k],
        )),
{
    let pre = attrs.take(k);
    let ext = attrs.take(k + 1);
    assert(forall|i: int| 0 <= i < k ==> ext[i] == pre[i]);
    assert(ext[k] == attrs[k]);
    if has_hide_block(pre) {
        let i = choose|i: int| 0 <= i < pre.len() && is_hide_block(pre[i]);
        assert(is_hide_block(ext[i]));
    }
    if has_show_block(pre) {
        let i = choose|i: int| 0 <= i < pre.len() && is_show_block(pre[i]);
        assert(is_show_block(ext[i]));
    }
    if has_hide_block(ext) {
        let i = choose|i: int| 0 <= i < ext.len() && is_hide_block(ext[i]);
        if i < k {
            assert(is_hide_block(pre[i]));
        }
    }
    if has_show_block(ext) {
        let i = choose|i: int| 0 <= i < ext.len() && is_show_block(ext[i]);
        if i < k {
            assert(is_show_block(pre[i]));
        }
    }
}

/// A list every attribute of which is well-formed and which does not mix
/// `hide` and `show` blocks is well-formed as a whole.
proof fn lemma_attrs_wf_from_prefix(attrs: Seq<RawAttr>)
    requires
        forall|i: int| 0 <= i < attrs.len() ==> attr_wf(#[trigger] attrs[i]),
        !(has_hide_block(attrs) && has_show_block(attrs)),
    ensures
        attrs_wf(attrs),
{
}

/// The three category names are pairwise distinct, so one block belongs
/// to exactly one category.
pub proof fn lemma_categories_distinct()
    ensures
        "hide"@ != "show"@,
        "hide"@ != "optional"@,
        "show"@ != "optional"@,
{
    reveal_strlit("hide");
    reveal_strlit("show");
    reveal_strlit("optional");
    assert("hide"@.len() == 4);
    assert("show"@.len() == 4);
    assert("optional"@.len() == 8);
    assert("hide"@[0] == 'h');
    assert("show"@[0] == 's');
}

/// A well-formed list has no failing attribute; a list with a failing
/// attribute is not well-formed.
pub proof fn lemma_wf_no_bad(attrs: Seq<RawAttr>)
    ensures
        attrs_wf(attrs) ==> forall|k: int| 0 <= k < attrs.len() ==> !attr_parse_bad(attrs, k),
        (exists|k: int|
            0 <= k < attrs.len() && #[trigger] attr_parse_bad(attrs, k)) ==> !attrs_wf(attrs),
{
    if attrs_wf(attrs) {
        assert forall|k: int| 0 <= k < attrs.len() implies !attr_parse_bad(attrs, k) by {
            assert(attr_wf(attrs[k]));
            if is_hide_block(attrs[k]) && has_show_block(attrs.take(k)) {
                let i = choose|i: int|
                    0 <= i < attrs.take(k).len() && is_show_block(attrs.take(k)[i]);
                assert(is_show_block(attrs[i]));
                assert(has_show_block(attrs));
                assert(has_hide_block(attrs));
            }
            if is_show_block(attrs[k]) && has_hide_block(attrs.take(k)) {
                let i = choose|i: int|
                    0 <= i < attrs.take(k).len() && is_hide_block(attrs.take(k)[i]);
                assert(is_hide_block(attrs[i]));
                assert(has_hide_block(attrs));
                assert(has_show_block(attrs));
            }
        }
    }
}

} // verus!
