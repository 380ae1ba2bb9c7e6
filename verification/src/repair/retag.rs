//! Rewriting the tag value of a variant to the literal of its removed
//! field.

use vstd::prelude::*;
use vstd::string::*;
use crate::repair::RepairError;
use crate::repair::claims::{
    find_serde_value, find_variant, first_index, first_serde_value, giving, lemma_first_index,
    lemma_first_index_is, named, optional_index, position_of_serde_value, position_of_variant,
    serde_position, serde_value,
};
use crate::repair::fields::{Retag, RetagView};
use crate::syntax::{
    Attribute, AttributeView, Decl, DeclView, Token, TokenView, TypeRef, TypeRefView, Variant,
    VariantView, attribute_views, clone_attributes, clone_tokens, clone_variants, decl_views,
    optional_variant_view, token_views, variant_views,
};
use crate::text::{clone_texts, optional_text, same_text};

verus! {

/// The name of the enum that the type of a removed tag field leads to: the
/// first segment of its path, looked for inside `Box` as deep as it goes.
pub open spec fn literal_enum_name(ty: TypeRefView) -> Option<Seq<char>>
    decreases ty,
{
    match ty {
        TypeRefView::Path { head, argument } => if head != "Box"@ {
            Some(head)
        } else {
            match argument {
                Some(inner) => literal_enum_name(*inner),
                None => None,
            }
        },
        TypeRefView::Other => None,
    }
}

/// Finds the name of the enum that the type of a removed tag field leads
/// to.
pub fn literal_type_name(ty: &TypeRef) -> (out: Option<String>)
    ensures
        optional_text(out) == literal_enum_name(ty@),
    decreases ty,
{
    match ty {
        TypeRef::Path { head, argument } => {
            if !same_text(head.as_str(), "Box") {
                Some(head.clone())
            } else {
                match argument {
                    Some(inner) => literal_type_name(inner),
                    None => None,
                }
            }
        },
        TypeRef::Other => None,
    }
}

/// The literal that a literal type stands for: where `decl` is an enum
/// with a single variant, the literal that the `serde` attributes of the
/// variant rename it to.
pub open spec fn literal_value(decl: DeclView) -> Option<Seq<char>> {
    match decl {
        DeclView::Enum { variants, .. } => if variants.len() == 1 {
            first_serde_value(variants[0].attrs, "rename"@)
        } else {
            None
        },
        _ => None,
    }
}

/// Reads the literal that a literal type stands for.
pub fn literal_of_enum(decl: &Decl) -> (out: Option<String>)
    ensures
        optional_text(out) == literal_value(decl@),
{
    match decl {
        Decl::Enum { variants, .. } => {
            if variants.len() == 1 {
                find_serde_value(&variants[0].attrs, "rename")
            } else {
                None
            }
        },
        _ => None,
    }
}

/// The enums of the name `name`.
pub open spec fn enum_named(name: Seq<char>) -> spec_fn(DeclView) -> bool {
    |decl: DeclView| decl matches DeclView::Enum { name: n, .. } && n == name
}

/// The position of the first enum of `unit` with the name `name`.
pub open spec fn find_enum(unit: Seq<DeclView>, name: Seq<char>) -> Option<int> {
    first_index(unit, enum_named(name))
}

/// Finds the first enum of `unit` with the name `name`.
pub fn position_of_enum(unit: &Vec<Decl>, name: &str) -> (out: Option<usize>)
    ensures
        optional_index(out) == find_enum(decl_views(unit@), name@),
{
    let ghost all = decl_views(unit@);
    let mut i: usize = 0;
    while i < unit.len()
        invariant
            i <= unit.len(),
            all == decl_views(unit@),
            forall|j: int| 0 <= j < i ==> !enum_named(name@)(#[trigger] all[j]),
        decreases unit.len() - i,
    {
        let found = match &unit[i] {
            Decl::Enum { name: n, .. } => same_text(n.as_str(), name),
            _ => false,
        };
        if found {
            proof {
                lemma_first_index_is(all, enum_named(name@), i as int);
            }
            return Some(i);
        }
        i += 1;
    }
    proof {
        lemma_first_index(all, enum_named(name@));
    }
    None
}

/// The literal that the type `ty` leads to in `unit`.
pub open spec fn literal_for(unit: Seq<DeclView>, ty: TypeRefView) -> Option<Seq<char>> {
    match literal_enum_name(ty) {
        Some(name) => match find_enum(unit, name) {
            Some(i) => literal_value(unit[i]),
            None => None,
        },
        None => None,
    }
}

/// Finds the literal that the type `ty` leads to in `unit`.
pub fn literal_of_type(unit: &Vec<Decl>, ty: &TypeRef) -> (out: Option<String>)
    ensures
        optional_text(out) == literal_for(decl_views(unit@), ty@),
{
    match literal_type_name(ty) {
        Some(name) => match position_of_enum(unit, name.as_str()) {
            Some(i) => {
                proof {
                    lemma_first_index(decl_views(unit@), enum_named(name@));
                }
                literal_of_enum(&unit[i])
            },
            None => None,
        },
        None => None,
    }
}

/// The attribute `attr` with `value` as the literal that it gives to its
/// key.
pub open spec fn with_literal(attr: AttributeView, value: Seq<char>) -> AttributeView {
    match attr {
        AttributeView::List { head, open, tokens, close } => AttributeView::List {
            head,
            open,
            tokens: tokens.update(2, TokenView::Literal(value)),
            close,
        },
        AttributeView::Other { .. } => attr,
    }
}

/// The variant with its tag value rewritten to `value`: the literal that
/// the first of its `serde` attributes to do so renames it to. `None` where
/// it has no such attribute.
pub open spec fn retagged(variant: VariantView, value: Seq<char>) -> Option<VariantView> {
    match serde_position(variant.attrs, "rename"@) {
        Some(k) => Some(
            VariantView {
                attrs: variant.attrs.update(k, with_literal(variant.attrs[k], value)),
                name: variant.name,
                rest: variant.rest,
                mentions: variant.mentions,
            },
        ),
        None => None,
    }
}

/// A rewritten variant is renamed to the new value, and nothing else of it
/// has changed: not its name, not what follows its name, and no other
/// attribute.
pub proof fn lemma_retagged(variant: VariantView, value: Seq<char>)
    requires
        retagged(variant, value) is Some,
    ensures
        first_serde_value(retagged(variant, value)->Some_0.attrs, "rename"@) == Some(value),
        retagged(variant, value)->Some_0.name == variant.name,
        retagged(variant, value)->Some_0.rest == variant.rest,
        retagged(variant, value)->Some_0.mentions == variant.mentions,
        retagged(variant, value)->Some_0.attrs.len() == variant.attrs.len(),
        forall|j: int|
            0 <= j < variant.attrs.len() && Some(j) != serde_position(variant.attrs, "rename"@)
                ==> retagged(variant, value)->Some_0.attrs[j] == variant.attrs[j],
{
    let key = "rename"@;
    let k = serde_position(variant.attrs, key)->Some_0;
    let after = retagged(variant, value)->Some_0.attrs;
    lemma_first_index(variant.attrs, giving(key));
    assert(serde_value(after[k], key) == Some(value));
    assert forall|j: int| 0 <= j < k implies !giving(key)(#[trigger] after[j]) by {
        assert(after[j] == variant.attrs[j]);
    }
    lemma_first_index_is(after, giving(key), k);
}

/// A copy of `variant` with its tag value rewritten to `value`.
pub fn retag_variant(variant: &Variant, value: &str) -> (out: Option<Variant>)
    ensures
        optional_variant_view(out) == retagged(variant@, value@),
{
    let k = match position_of_serde_value(&variant.attrs, "rename") {
        Some(k) => k,
        None => {
            return None;
        },
    };
    proof {
        lemma_first_index(attribute_views(variant.attrs@), giving("rename"@));
    }
    match &variant.attrs[k] {
        Attribute::List { head, open, tokens, close } => {
            let mut attrs = clone_attributes(&variant.attrs);
            let mut edited = clone_tokens(tokens);
            let literal = Token::Literal(String::from_str(value));
            let ghost before = token_views(edited@);
            edited.set(2, literal);
            assert(token_views(edited@) =~= before.update(2, literal@));
            let attr = Attribute::List {
                head: head.clone(),
                open: open.clone(),
                tokens: edited,
                close: close.clone(),
            };
            attrs.set(k, attr);
            assert(attribute_views(attrs@) =~= attribute_views(variant.attrs@).update(
                k as int,
                attr@,
            ));
            Some(
                Variant {
                    attrs,
                    name: variant.name.clone(),
                    rest: variant.rest.clone(),
                    mentions: clone_texts(&variant.mentions),
                },
            )
        },
        Attribute::Other { .. } => None,
    }
}

/// The variants `variants` with the tag of the first variant of the name
/// `variant` rewritten to `value`.
pub open spec fn retag_variants(
    variants: Seq<VariantView>,
    variant: Seq<char>,
    value: Seq<char>,
) -> Result<Seq<VariantView>, RepairError> {
    match find_variant(variants, variant) {
        Some(k) => match retagged(variants[k], value) {
            Some(edited) => Ok(variants.update(k, edited)),
            None => Err(RepairError::VariantTagMissing),
        },
        None => Err(RepairError::VariantTagMissing),
    }
}

/// Rewrites the tag value of the first variant of the name `variant` to
/// `value`. Where that cannot be done, the variants stay as they are.
pub fn edit_tag_value(variants: &mut Vec<Variant>, variant: &str, value: &str) -> (out: Result<
    (),
    RepairError,
>)
    ensures
        match retag_variants(variant_views(old(variants)@), variant@, value@) {
            Ok(edited) => out is Ok && variant_views(final(variants)@) == edited,
            Err(e) => out == Err::<(), RepairError>(e) && *final(variants) == *old(variants),
        },
{
    let k = match position_of_variant(variants, variant) {
        Some(k) => k,
        None => {
            return Err(RepairError::VariantTagMissing);
        },
    };
    proof {
        lemma_first_index(variant_views(variants@), named(variant@));
    }
    match retag_variant(&variants[k], value) {
        Some(edited) => {
            let ghost before = variant_views(variants@);
            variants.set(k, edited);
            assert(variant_views(variants@) =~= before.update(k as int, edited@));
            Ok(())
        },
        None => Err(RepairError::VariantTagMissing),
    }
}

/// The declaration `decl` with the tag of its variant `variant` rewritten
/// to `value`.
pub open spec fn retag_decl(decl: DeclView, variant: Seq<char>, value: Seq<char>) -> Result<
    DeclView,
    RepairError,
> {
    match decl {
        DeclView::Enum { attrs, head, name, generics, variants } => match retag_variants(
            variants,
            variant,
            value,
        ) {
            Ok(variants) => Ok(DeclView::Enum { attrs, head, name, generics, variants }),
            Err(e) => Err(e),
        },
        _ => Err(RepairError::VariantTagMissing),
    }
}

/// The mathematical value of a declaration or a failure.
pub open spec fn decl_result_view(out: Result<Decl, RepairError>) -> Result<DeclView, RepairError> {
    match out {
        Ok(decl) => Ok(decl@),
        Err(e) => Err(e),
    }
}

/// A copy of the sum type `decl` with the tag value of its variant
/// `variant` rewritten to `value`.
pub fn retag_declaration(decl: &Decl, variant: &str, value: &str) -> (out: Result<
    Decl,
    RepairError,
>)
    ensures
        decl_result_view(out) == retag_decl(decl@, variant@, value@),
{
    match decl {
        Decl::Enum { attrs, head, name, generics, variants } => {
            let mut edited = clone_variants(variants);
            match edit_tag_value(&mut edited, variant, value) {
                Ok(()) => Ok(
                    Decl::Enum {
                        attrs: clone_attributes(attrs),
                        head: head.clone(),
                        name: name.clone(),
                        generics: generics.clone(),
                        variants: edited,
                    },
                ),
                Err(e) => Err(e),
            }
        },
        _ => Err(RepairError::VariantTagMissing),
    }
}

/// The unit with one tag value rewritten.
pub open spec fn apply_retag(unit: Seq<DeclView>, retag: RetagView) -> Result<
    Seq<DeclView>,
    RepairError,
> {
    match literal_for(unit, retag.ty) {
        Some(value) => if 0 <= retag.governing < unit.len() {
            match retag_decl(unit[retag.governing], retag.variant, value) {
                Ok(decl) => Ok(unit.update(retag.governing, decl)),
                Err(e) => Err(e),
            }
        } else {
            Err(RepairError::VariantTagMissing)
        },
        None => Err(RepairError::LiteralNotFound),
    }
}

/// Rewrites one tag value of the unit. Where that cannot be done, the unit
/// stays as it is.
pub fn rewrite_tag(unit: &mut Vec<Decl>, retag: &Retag) -> (out: Result<(), RepairError>)
    ensures
        match apply_retag(decl_views(old(unit)@), retag@) {
            Ok(edited) => out is Ok && decl_views(final(unit)@) == edited,
            Err(e) => out == Err::<(), RepairError>(e) && *final(unit) == *old(unit),
        },
{
    let value = match literal_of_type(unit, &retag.ty) {
        Some(value) => value,
        None => {
            return Err(RepairError::LiteralNotFound);
        },
    };
    if retag.governing >= unit.len() {
        return Err(RepairError::VariantTagMissing);
    }
    match retag_declaration(&unit[retag.governing], retag.variant.as_str(), value.as_str()) {
        Ok(decl) => {
            let ghost before = decl_views(unit@);
            unit.set(retag.governing, decl);
            assert(decl_views(unit@) =~= before.update(retag.governing as int, decl@));
            Ok(())
        },
        Err(e) => Err(e),
    }
}

/// A rewriting renames the variant it is for to the literal that the type
/// of the removed field leads to.
pub proof fn lemma_retag_sets_literal(unit: Seq<DeclView>, retag: RetagView)
    requires
        apply_retag(unit, retag) is Ok,
    ensures
        literal_for(unit, retag.ty) is Some,
        0 <= retag.governing < unit.len(),
        unit[retag.governing] is Enum,
        find_variant(unit[retag.governing]->Enum_variants, retag.variant) is Some,
        ({
            let before = unit[retag.governing]->Enum_variants;
            let k = find_variant(before, retag.variant)->Some_0;
            let after = apply_retag(unit, retag)->Ok_0[retag.governing];
            &&& 0 <= k < before.len()
            &&& before[k].name == retag.variant
            &&& after matches DeclView::Enum { variants, .. }
            &&& variants.len() == before.len()
            &&& variants[k].name == retag.variant
            &&& first_serde_value(variants[k].attrs, "rename"@) == literal_for(unit, retag.ty)
        }),
{
    let before = unit[retag.governing]->Enum_variants;
    let value = literal_for(unit, retag.ty)->Some_0;
    lemma_first_index(before, named(retag.variant));
    let k = find_variant(before, retag.variant)->Some_0;
    lemma_retagged(before[k], value);
}

/// The unit with the tag values `retags` rewritten, one after the other.
pub open spec fn apply_retags(unit: Seq<DeclView>, retags: Seq<RetagView>) -> Result<
    Seq<DeclView>,
    RepairError,
>
    decreases retags.len(),
{
    if retags.len() == 0 {
        Ok(unit)
    } else {
        match apply_retags(unit, retags.drop_last()) {
            Ok(front) => apply_retag(front, retags.last()),
            Err(e) => Err(e),
        }
    }
}

/// A failure among the first `k` rewritings is the failure of the whole.
pub(crate) proof fn lemma_retags_failure(unit: Seq<DeclView>, retags: Seq<RetagView>, k: int)
    requires
        0 <= k <= retags.len(),
        apply_retags(unit, retags.take(k)) is Err,
    ensures
        apply_retags(unit, retags) == apply_retags(unit, retags.take(k)),
    decreases retags.len(),
{
    if k < retags.len() {
        assert(retags.drop_last().take(k) == retags.take(k));
        lemma_retags_failure(unit, retags.drop_last(), k);
    } else {
        assert(retags.take(k) == retags);
    }
}

} // verus!
