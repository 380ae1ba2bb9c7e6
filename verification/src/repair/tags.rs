//! The tags of a repaired unit.
//!
//! Where no two structs of a unit have the same name and no literal type is
//! itself a tagged sum type, every variant of a tagged sum type that has a
//! struct in the unit is renamed, after the repair, to the literal of the
//! tag field that the struct has lost.

use vstd::prelude::*;
use crate::repair::claims::{
    claim_on, claiming, claims, find_variant, first_serde_value, giving, lemma_first_index,
    lemma_first_index_alike, named, tag_of,
};
use crate::repair::derives::strip_unit;
use crate::repair::fields::{RetagView, prune_all, prune_decl, removed_field};
use crate::repair::laws::{
    lemma_frame_keeps_claims, lemma_prune_keeps_claims, lemma_pruned_each,
    lemma_strip_keeps_claim_on, lemma_strip_keeps_claims, same_frame,
};
use crate::repair::literals::is_literal_type;
use crate::repair::repair_spec;
use crate::repair::retag::{
    apply_retag, apply_retags, enum_named, find_enum, lemma_retag_sets_literal, lemma_retagged,
    literal_enum_name, literal_for, literal_value, retag_decl,
};
use crate::syntax::{DeclView, TypeRefView};

verus! {

/// Whether `after` is `before` with nothing changed but the tag values of
/// the variants of a tagged sum type.
pub open spec fn kept_but_tags(before: DeclView, after: DeclView) -> bool {
    &&& same_frame(before, after)
    &&& is_literal_type(after) == is_literal_type(before)
    &&& (tag_of(before) is None ==> after == before)
}

/// Whether `after` is `before` with nothing changed but the tag values of
/// the variants of tagged sum types.
pub open spec fn units_kept_but_tags(before: Seq<DeclView>, after: Seq<DeclView>) -> bool {
    &&& after.len() == before.len()
    &&& forall|e: int| 0 <= e < before.len() ==> kept_but_tags(before[e], #[trigger] after[e])
}

/// Whether no literal type of `unit` is a tagged sum type.
pub open spec fn literals_untagged(unit: Seq<DeclView>) -> bool {
    forall|e: int| 0 <= e < unit.len() && is_literal_type(#[trigger] unit[e]) ==> tag_of(unit[e])
        is None
}

/// Whether no two structs of `unit` have the same name.
pub open spec fn structs_distinct(unit: Seq<DeclView>) -> bool {
    forall|a: int, b: int|
        0 <= a < b < unit.len() && (#[trigger] unit[a]) is Struct && (#[trigger] unit[b])
            is Struct ==> unit[a]->Struct_name != unit[b]->Struct_name
}

/// Whether the variant that `retag` is for is renamed to `value` in `unit`.
pub open spec fn tag_corrected(unit: Seq<DeclView>, retag: RetagView, value: Option<Seq<char>>) -> bool {
    &&& value is Some
    &&& 0 <= retag.governing < unit.len()
    &&& unit[retag.governing] is Enum
    &&& find_variant(unit[retag.governing]->Enum_variants, retag.variant) is Some
    &&& first_serde_value(
        unit[retag.governing]->Enum_variants[find_variant(
            unit[retag.governing]->Enum_variants,
            retag.variant,
        )->Some_0].attrs,
        "rename"@,
    ) == value
}

/// The tag value that pruning `decl` leaves to rewrite.
pub open spec fn retag_of(unit: Seq<DeclView>, decl: DeclView) -> Option<RetagView> {
    match prune_decl(unit, decl) {
        Ok(pruned) => pruned.retag,
        Err(_) => None,
    }
}

/// Declarations of the same frame have their variants of a name at the same
/// position.
proof fn lemma_frame_keeps_variants(before: DeclView, after: DeclView, name: Seq<char>)
    requires
        same_frame(before, after),
        before is Enum,
    ensures
        after is Enum,
        find_variant(after->Enum_variants, name) == find_variant(before->Enum_variants, name),
{
    let old_variants = before->Enum_variants;
    let new_variants = after->Enum_variants;
    assert forall|k: int| 0 <= k < old_variants.len() implies named(name)(new_variants[k])
        == named(name)(old_variants[k]) by {
        assert(new_variants[k].name == old_variants[k].name);
    }
    lemma_first_index_alike(new_variants, old_variants, named(name));
}

/// One rewriting changes nothing but tag values of a tagged sum type.
proof fn lemma_retag_keeps(unit: Seq<DeclView>, retag: RetagView)
    requires
        apply_retag(unit, retag) is Ok,
        tag_of(unit[retag.governing]) is Some,
    ensures
        units_kept_but_tags(unit, apply_retag(unit, retag)->Ok_0),
{
    let edited = apply_retag(unit, retag)->Ok_0;
    let governing = retag.governing;
    let value = literal_for(unit, retag.ty)->Some_0;
    let decl = retag_decl(unit[governing], retag.variant, value)->Ok_0;
    let variants = unit[governing]->Enum_variants;
    lemma_first_index(variants, named(retag.variant));
    let k = find_variant(variants, retag.variant)->Some_0;
    lemma_retagged(variants[k], value);
    lemma_first_index(variants[k].attrs, giving("rename"@));
    assert(same_frame(unit[governing], decl));
    assert(is_literal_type(decl) == is_literal_type(unit[governing]));
    assert forall|e: int| 0 <= e < unit.len() implies kept_but_tags(unit[e], #[trigger] edited[e]) by {
        if e != governing {
            assert(edited[e] == unit[e]);
        }
    }
}

/// Units that differ in tag values only lead from a type to the same literal,
/// where no literal type is tagged.
proof fn lemma_literal_for_kept(before: Seq<DeclView>, after: Seq<DeclView>, ty: TypeRefView)
    requires
        units_kept_but_tags(before, after),
        literals_untagged(before),
    ensures
        literal_for(after, ty) == literal_for(before, ty),
{
    match literal_enum_name(ty) {
        Some(name) => {
            assert forall|e: int| 0 <= e < before.len() implies enum_named(name)(after[e])
                == enum_named(name)(before[e]) by {
                assert(kept_but_tags(before[e], after[e]));
            }
            lemma_first_index_alike(after, before, enum_named(name));
            lemma_first_index(before, enum_named(name));
            match find_enum(before, name) {
                Some(found) => {
                    assert(kept_but_tags(before[found], after[found]));
                },
                None => {},
            }
        },
        None => {},
    }
}

/// A rewriting for one variant keeps the tag value of a variant of another
/// name.
proof fn lemma_retag_keeps_others(
    unit: Seq<DeclView>,
    retag: RetagView,
    other: RetagView,
    value: Option<Seq<char>>,
)
    requires
        apply_retag(unit, retag) is Ok,
        tag_corrected(unit, other, value),
        other.variant != retag.variant,
    ensures
        tag_corrected(apply_retag(unit, retag)->Ok_0, other, value),
{
    let edited = apply_retag(unit, retag)->Ok_0;
    let governing = retag.governing;
    if other.governing == governing {
        let literal = literal_for(unit, retag.ty)->Some_0;
        let decl = retag_decl(unit[governing], retag.variant, literal)->Ok_0;
        let variants = unit[governing]->Enum_variants;
        lemma_first_index(variants, named(retag.variant));
        lemma_first_index(variants, named(other.variant));
        let k = find_variant(variants, retag.variant)->Some_0;
        lemma_retagged(variants[k], literal);
        assert(same_frame(unit[governing], decl));
        lemma_frame_keeps_variants(unit[governing], decl, other.variant);
        let at = find_variant(variants, other.variant)->Some_0;
        assert(at != k);
        assert(decl->Enum_variants[at] == variants[at]);
    } else {
        assert(edited[other.governing] == unit[other.governing]);
    }
}

/// After the rewritings `retags`, every variant that one of them is for is
/// renamed to the literal that its type leads to: where the rewritings are
/// for variants of different names in tagged sum types, and no literal type
/// is tagged.
proof fn lemma_retags_correct(unit: Seq<DeclView>, retags: Seq<RetagView>)
    requires
        apply_retags(unit, retags) is Ok,
        literals_untagged(unit),
        forall|i: int, j: int|
            0 <= i < j < retags.len() ==> (#[trigger] retags[i]).variant != (
            #[trigger] retags[j]).variant,
        forall|i: int|
            0 <= i < retags.len() ==> 0 <= (#[trigger] retags[i]).governing < unit.len() && tag_of(
                unit[retags[i].governing],
            ) is Some,
    ensures
        units_kept_but_tags(unit, apply_retags(unit, retags)->Ok_0),
        forall|i: int|
            0 <= i < retags.len() ==> tag_corrected(
                apply_retags(unit, retags)->Ok_0,
                #[trigger] retags[i],
                literal_for(unit, retags[i].ty),
            ),
    decreases retags.len(),
{
    if retags.len() > 0 {
        let earlier = retags.drop_last();
        let retag = retags.last();
        let front = apply_retags(unit, earlier)->Ok_0;
        let edited = apply_retags(unit, retags)->Ok_0;
        assert forall|i: int, j: int| 0 <= i < j < earlier.len() implies (
        #[trigger] earlier[i]).variant != (#[trigger] earlier[j]).variant by {
            assert(earlier[i] == retags[i] && earlier[j] == retags[j]);
        }
        assert forall|i: int| 0 <= i < earlier.len() implies 0 <= (
        #[trigger] earlier[i]).governing < unit.len() && tag_of(unit[earlier[i].governing])
            is Some by {
            assert(earlier[i] == retags[i]);
        }
        lemma_retags_correct(unit, earlier);
        assert(retag == retags[retags.len() - 1]);
        assert(kept_but_tags(unit[retag.governing], front[retag.governing]));
        lemma_frame_keeps_claims(unit[retag.governing], front[retag.governing], Seq::empty());
        lemma_retag_keeps(front, retag);
        lemma_literal_for_kept(unit, front, retag.ty);
        lemma_retag_sets_literal(front, retag);
        assert forall|e: int| 0 <= e < unit.len() implies kept_but_tags(
            unit[e],
            #[trigger] edited[e],
        ) by {
            assert(kept_but_tags(unit[e], front[e]));
            assert(kept_but_tags(front[e], edited[e]));
            lemma_frame_keeps_claims(unit[e], front[e], Seq::empty());
            if unit[e] is Enum {
                let a = unit[e]->Enum_variants;
                let b = front[e]->Enum_variants;
                let c = edited[e]->Enum_variants;
                assert forall|k: int| 0 <= k < a.len() implies (#[trigger] c[k]).name
                    == a[k].name by {
                    assert(b[k].name == a[k].name);
                }
            }
        }
        assert forall|i: int| 0 <= i < retags.len() implies tag_corrected(
            edited,
            #[trigger] retags[i],
            literal_for(unit, retags[i].ty),
        ) by {
            if i < earlier.len() {
                assert(earlier[i] == retags[i]);
                lemma_retag_keeps_others(front, retag, retags[i], literal_for(unit, retags[i].ty));
            } else {
                let variants = front[retag.governing]->Enum_variants;
                lemma_frame_keeps_variants(
                    front[retag.governing],
                    edited[retag.governing],
                    retag.variant,
                );
            }
        }
    } else {
        assert forall|e: int| 0 <= e < unit.len() implies kept_but_tags(unit[e], #[trigger] unit[e]) by {}
    }
}

/// The tag values that pruning leaves to rewrite are those of the claimed
/// structs, each for a variant of another name where no two structs have
/// the same name.
proof fn lemma_pruned_retags(unit: Seq<DeclView>, decls: Seq<DeclView>)
    requires
        prune_all(unit, decls) is Ok,
        structs_distinct(decls),
    ensures
        forall|i: int|
            0 <= i < prune_all(unit, decls)->Ok_0.retags.len() ==> exists|d: int|
                0 <= d < decls.len() && retag_of(unit, #[trigger] decls[d]) == Some(
                    #[trigger] prune_all(unit, decls)->Ok_0.retags[i],
                ),
        forall|d: int|
            0 <= d < decls.len() && retag_of(unit, #[trigger] decls[d]) is Some
                ==> prune_all(unit, decls)->Ok_0.retags.contains(retag_of(unit, decls[d])->Some_0),
        forall|i: int, j: int|
            0 <= i < j < prune_all(unit, decls)->Ok_0.retags.len() ==> (
            #[trigger] prune_all(unit, decls)->Ok_0.retags[i]).variant != (
            #[trigger] prune_all(unit, decls)->Ok_0.retags[j]).variant,
    decreases decls.len(),
{
    if decls.len() > 0 {
        let front = decls.drop_last();
        let before = prune_all(unit, front)->Ok_0.retags;
        let all = prune_all(unit, decls)->Ok_0.retags;
        let last = decls.last();
        assert forall|a: int, b: int|
            0 <= a < b < front.len() && (#[trigger] front[a]) is Struct && (#[trigger] front[b])
                is Struct implies front[a]->Struct_name != front[b]->Struct_name by {
            assert(front[a] == decls[a] && front[b] == decls[b]);
        }
        lemma_pruned_retags(unit, front);
        assert forall|i: int| 0 <= i < all.len() implies exists|d: int|
            0 <= d < decls.len() && retag_of(unit, #[trigger] decls[d]) == Some(#[trigger] all[i]) by {
            if i < before.len() {
                assert(all[i] == before[i]);
                let d = choose|d: int|
                    0 <= d < front.len() && retag_of(unit, #[trigger] front[d]) == Some(before[i]);
                assert(front[d] == decls[d]);
            } else {
                assert(retag_of(unit, decls[decls.len() - 1]) == Some(all[i]));
            }
        }
        assert forall|d: int|
            0 <= d < decls.len() && retag_of(unit, #[trigger] decls[d]) is Some implies all.contains(
            retag_of(unit, decls[d])->Some_0,
        ) by {
            if d < front.len() {
                assert(front[d] == decls[d]);
                let retag = retag_of(unit, decls[d])->Some_0;
                assert(before.contains(retag));
                let i = choose|i: int| 0 <= i < before.len() && before[i] == retag;
                assert(all[i] == retag);
            } else {
                assert(all[all.len() - 1] == retag_of(unit, decls[d])->Some_0);
            }
        }
        assert forall|i: int, j: int| 0 <= i < j < all.len() implies (#[trigger] all[i]).variant != (
        #[trigger] all[j]).variant by {
            if j < before.len() {
                assert(all[i] == before[i] && all[j] == before[j]);
            } else {
                assert(all[i] == before[i]);
                let d = choose|d: int|
                    0 <= d < front.len() && retag_of(unit, #[trigger] front[d]) == Some(before[i]);
                assert(front[d] == decls[d]);
                assert(decls[d] is Struct && decls[decls.len() - 1] is Struct);
            }
        }
    }
}

/// After a repair, the variant of a tagged sum type that stands for a struct
/// of the unit is renamed to the literal of the tag field that the struct
/// has lost: the literal that the type of the field leads to, through `Box`
/// as deep as it goes. This holds where no two structs of the unit have the
/// same name and no literal type is itself a tagged sum type.
pub proof fn lemma_repair_corrects_tags(unit: Seq<DeclView>, d: int)
    requires
        repair_spec(unit) is Ok,
        structs_distinct(unit),
        literals_untagged(unit),
        0 <= d < unit.len(),
        claim_on(unit, unit[d]) is Some,
    ensures
        unit[d] matches DeclView::Struct { name, fields: Some(fields), .. } && removed_field(
            fields,
            claim_on(unit, unit[d])->Some_0.tag,
        ) matches Some(field) && tag_corrected(
            repair_spec(unit)->Ok_0,
            RetagView {
                ty: field.ty,
                governing: claim_on(unit, unit[d])->Some_0.governing,
                variant: name,
            },
            literal_for(unit, field.ty),
        ),
{
    let stripped = strip_unit(unit);
    let claim = claim_on(unit, unit[d])->Some_0;
    let pruned = prune_all(stripped, stripped)->Ok_0;
    let repaired = repair_spec(unit)->Ok_0;
    lemma_strip_keeps_claim_on(unit, d);
    lemma_pruned_each(stripped, stripped);
    assert(prune_decl(stripped, stripped[d]) matches Ok(each) && each.decl == pruned.decls[d]);
    let retag = retag_of(stripped, stripped[d])->Some_0;
    assert forall|a: int, b: int|
        0 <= a < b < stripped.len() && (#[trigger] stripped[a]) is Struct && (
        #[trigger] stripped[b]) is Struct implies stripped[a]->Struct_name
        != stripped[b]->Struct_name by {
        assert(unit[a] is Struct && unit[b] is Struct);
    }
    lemma_pruned_retags(stripped, stripped);
    assert(pruned.retags.contains(retag));
    let at = choose|i: int| 0 <= i < pruned.retags.len() && pruned.retags[i] == retag;
    // The enums of the pruned unit are those of the unit, but for their
    // derive lists.
    assert forall|e: int| 0 <= e < unit.len() implies tag_of(#[trigger] pruned.decls[e]) == tag_of(
        unit[e],
    ) && literal_value(pruned.decls[e]) == literal_value(unit[e]) && (forall|name: Seq<char>|
        enum_named(name)(pruned.decls[e]) == enum_named(name)(unit[e])) by {
        assert(prune_decl(stripped, stripped[e]) matches Ok(each) && each.decl == pruned.decls[e]);
        lemma_prune_keeps_claims(stripped, stripped[e], Seq::empty());
        lemma_strip_keeps_claims(unit[e], Seq::empty());
    }
    assert(literals_untagged(pruned.decls));
    assert forall|i: int| 0 <= i < pruned.retags.len() implies 0 <= (
    #[trigger] pruned.retags[i]).governing < pruned.decls.len() && tag_of(
        pruned.decls[pruned.retags[i].governing],
    ) is Some by {
        let origin = choose|o: int|
            0 <= o < stripped.len() && retag_of(stripped, #[trigger] stripped[o]) == Some(
                pruned.retags[i],
            );
        let name = stripped[origin]->Struct_name;
        lemma_first_index(stripped, claiming(name));
        let governing = pruned.retags[i].governing;
        assert(claims(stripped[governing], name));
        assert(prune_decl(stripped, stripped[governing]) matches Ok(each) && each.decl
            == pruned.decls[governing]);
        lemma_prune_keeps_claims(stripped, stripped[governing], name);
    }
    lemma_retags_correct(pruned.decls, pruned.retags);
    assert(tag_corrected(repaired, pruned.retags[at], literal_for(pruned.decls, retag.ty)));
    // The pruned unit leads from a type to the same literal as the unit.
    match literal_enum_name(retag.ty) {
        Some(name) => {
            assert forall|e: int| 0 <= e < unit.len() implies enum_named(name)(pruned.decls[e])
                == enum_named(name)(unit[e]) by {
                assert(tag_of(pruned.decls[e]) == tag_of(unit[e]));
            }
            lemma_first_index_alike(pruned.decls, unit, enum_named(name));
            lemma_first_index(unit, enum_named(name));
        },
        None => {},
    }
    assert(literal_for(pruned.decls, retag.ty) == literal_for(unit, retag.ty));
}

} // verus!
