//! What holds of every repair.

use vstd::prelude::*;
use crate::repair::{RepairError, repair_spec};
use crate::repair::claims::{
    claim_on, claimant, claimed_twice, claiming, claims, first_serde_value, giving,
    lemma_first_index, lemma_first_index_alike, named, serde_value, tag_of,
};
use crate::repair::derives::{lemma_strip_unit_twice, strip_attributes, strip_decl, strip_unit};
use crate::repair::fields::{
    PrunedUnit, RetagView, lemma_kept_fields, prune_all, prune_decl, wire_name,
};
use crate::repair::literals::includes_literal;
use crate::repair::retag::{apply_retag, apply_retags, literal_for, retag_decl};
use crate::syntax::{AttributeView, DeclView};

verus! {

/// Stripping keeps what the `serde` attributes say.
pub proof fn lemma_strip_keeps_serde(attrs: Seq<AttributeView>, key: Seq<char>)
    ensures
        first_serde_value(strip_attributes(attrs), key) == first_serde_value(attrs, key),
{
    reveal_strlit("derive");
    reveal_strlit("serde");
    assert("derive"@ != "serde"@) by {
        assert("derive"@[0] != "serde"@[0]);
    }
    let stripped = strip_attributes(attrs);
    assert forall|i: int| 0 <= i < attrs.len() implies serde_value(stripped[i], key)
        == serde_value(attrs[i], key) by {}
    lemma_first_index_alike(stripped, attrs, giving(key));
    lemma_first_index(attrs, giving(key));
}

/// Stripping keeps the claims of a declaration.
pub proof fn lemma_strip_keeps_claims(decl: DeclView, name: Seq<char>)
    ensures
        tag_of(strip_decl(decl)) == tag_of(decl),
        claims(strip_decl(decl), name) == claims(decl, name),
{
    match decl {
        DeclView::Enum { attrs, .. } => {
            lemma_strip_keeps_serde(attrs, "tag"@);
        },
        _ => {},
    }
}

/// Stripping keeps the claims on every declaration of a unit.
pub proof fn lemma_strip_keeps_claim_on(unit: Seq<DeclView>, d: int)
    requires
        0 <= d < unit.len(),
    ensures
        claim_on(strip_unit(unit), strip_unit(unit)[d]) == claim_on(unit, unit[d]),
{
    let stripped = strip_unit(unit);
    match unit[d] {
        DeclView::Struct { name, .. } => {
            assert forall|i: int| 0 <= i < unit.len() implies claiming(name)(stripped[i])
                == claiming(name)(unit[i]) by {
                lemma_strip_keeps_claims(unit[i], name);
            }
            lemma_first_index_alike(stripped, unit, claiming(name));
            lemma_first_index(unit, claiming(name));
            match claimant(unit, name) {
                Some(governing) => {
                    lemma_strip_keeps_claims(unit[governing], name);
                },
                None => {},
            }
        },
        _ => {},
    }
}

/// Stripping keeps whether a variant is claimed twice.
pub proof fn lemma_strip_keeps_conflicts(unit: Seq<DeclView>)
    ensures
        claimed_twice(strip_unit(unit)) == claimed_twice(unit),
{
    let stripped = strip_unit(unit);
    if claimed_twice(unit) {
        let (i, j, name) = choose|i: int, j: int, name: Seq<char>|
            0 <= i < j < unit.len() && claims(unit[i], name) && claims(unit[j], name);
        lemma_strip_keeps_claims(unit[i], name);
        lemma_strip_keeps_claims(unit[j], name);
        assert(0 <= i < j < stripped.len() && claims(stripped[i], name) && claims(
            stripped[j],
            name,
        ));
    }
    if claimed_twice(stripped) {
        let (i, j, name) = choose|i: int, j: int, name: Seq<char>|
            0 <= i < j < stripped.len() && claims(stripped[i], name) && claims(stripped[j], name);
        lemma_strip_keeps_claims(unit[i], name);
        lemma_strip_keeps_claims(unit[j], name);
        assert(0 <= i < j < unit.len() && claims(unit[i], name) && claims(unit[j], name));
    }
}

/// Whether `after` is `before` with nothing changed but, in a sum type,
/// the attributes and the rest of its variants.
pub open spec fn same_frame(before: DeclView, after: DeclView) -> bool {
    match before {
        DeclView::Enum { attrs, head, name, generics, variants } => {
            &&& after matches DeclView::Enum {
                attrs: attrs_after,
                head: head_after,
                name: name_after,
                generics: generics_after,
                variants: variants_after,
            }
            &&& attrs_after == attrs
            &&& head_after == head
            &&& name_after == name
            &&& generics_after == generics
            &&& variants_after.len() == variants.len()
            &&& forall|k: int|
                0 <= k < variants.len() ==> (#[trigger] variants_after[k]).name == variants[k].name
        },
        _ => after == before,
    }
}

/// Whether `after` is `before` with nothing changed but the variants of
/// its sum types.
pub open spec fn same_frames(before: Seq<DeclView>, after: Seq<DeclView>) -> bool {
    &&& after.len() == before.len()
    &&& forall|d: int| 0 <= d < before.len() ==> same_frame(before[d], #[trigger] after[d])
}

/// Declarations of the same frame make the same claims.
pub proof fn lemma_frame_keeps_claims(before: DeclView, after: DeclView, name: Seq<char>)
    requires
        same_frame(before, after),
    ensures
        tag_of(after) == tag_of(before),
        claims(after, name) == claims(before, name),
{
    match before {
        DeclView::Enum { variants, .. } => {
            let variants_after = after->Enum_variants;
            assert forall|k: int| 0 <= k < variants.len() implies named(name)(variants_after[k])
                == named(name)(variants[k]) by {
                assert(variants_after[k].name == variants[k].name);
            }
            lemma_first_index_alike(variants_after, variants, named(name));
        },
        _ => {},
    }
}

/// Rewriting tag values changes nothing but the variants of sum types.
pub proof fn lemma_retags_keep_frames(unit: Seq<DeclView>, retags: Seq<RetagView>)
    ensures
        apply_retags(unit, retags) matches Ok(edited) ==> same_frames(unit, edited),
    decreases retags.len(),
{
    if retags.len() > 0 {
        lemma_retags_keep_frames(unit, retags.drop_last());
        match apply_retags(unit, retags.drop_last()) {
            Ok(front) => {
                let retag = retags.last();
                match apply_retag(front, retag) {
                    Ok(edited) => {
                        let value = literal_for(front, retag.ty)->Some_0;
                        let governing = retag.governing;
                        let decl = retag_decl(front[governing], retag.variant, value)->Ok_0;
                        assert(edited == front.update(governing, decl));
                        let variants = front[governing]->Enum_variants;
                        lemma_first_index(variants, named(retag.variant));
                        assert(same_frame(front[governing], decl));
                        assert forall|d: int| 0 <= d < unit.len() implies same_frame(
                            unit[d],
                            #[trigger] edited[d],
                        ) by {
                            assert(same_frame(unit[d], front[d]));
                            if d == governing {
                                assert(edited[d] == decl);
                            } else {
                                assert(edited[d] == front[d]);
                            }
                        }
                    },
                    Err(_) => {},
                }
            },
            Err(_) => {},
        }
    }
}

/// Where the declarations are pruned, each of them is pruned by itself, in
/// its own position.
pub proof fn lemma_pruned_each(unit: Seq<DeclView>, decls: Seq<DeclView>)
    ensures
        prune_all(unit, decls) matches Ok(pruned) ==> {
            &&& pruned.decls.len() == decls.len()
            &&& forall|d: int|
                0 <= d < decls.len() ==> (prune_decl(unit, decls[d]) matches Ok(each) && each.decl
                    == #[trigger] pruned.decls[d])
        },
    decreases decls.len(),
{
    if decls.len() > 0 {
        let front = decls.drop_last();
        lemma_pruned_each(unit, front);
        match prune_all(unit, decls) {
            Ok(pruned) => {
                let before = prune_all(unit, front)->Ok_0;
                assert forall|d: int| 0 <= d < decls.len() implies (prune_decl(
                    unit,
                    decls[d],
                ) matches Ok(each) && each.decl == #[trigger] pruned.decls[d]) by {
                    if d < front.len() {
                        assert(front[d] == decls[d]);
                        assert(pruned.decls[d] == before.decls[d]);
                    }
                }
            },
            Err(_) => {},
        }
    }
}

/// Pruning a declaration keeps the claims it makes and its name.
pub proof fn lemma_prune_keeps_claims(unit: Seq<DeclView>, decl: DeclView, name: Seq<char>)
    ensures
        prune_decl(unit, decl) matches Ok(pruned) ==> {
            &&& tag_of(pruned.decl) == tag_of(decl)
            &&& claims(pruned.decl, name) == claims(decl, name)
            &&& (decl is Struct ==> pruned.decl is Struct && pruned.decl->Struct_name
                == decl->Struct_name)
            &&& (!(decl is Struct) ==> pruned.decl == decl)
        },
{
}

/// The attributes of a sum type or a product type.
pub open spec fn decl_attrs(decl: DeclView) -> Seq<AttributeView> {
    match decl {
        DeclView::Enum { attrs, .. } => attrs,
        DeclView::Struct { attrs, .. } => attrs,
        DeclView::Other { .. } => Seq::empty(),
    }
}

/// After a repair, the derive lists of a declaration whose structure
/// includes a literal type are stripped, and no other attribute of any
/// declaration has changed: the attributes of a declaration that includes
/// no literal type are those it had.
pub proof fn lemma_repair_strips_included(unit: Seq<DeclView>, d: int)
    requires
        repair_spec(unit) is Ok,
        0 <= d < unit.len(),
    ensures
        repair_spec(unit)->Ok_0.len() == unit.len(),
        decl_attrs(repair_spec(unit)->Ok_0[d]) == if includes_literal(unit)[d] {
            strip_attributes(decl_attrs(unit[d]))
        } else {
            decl_attrs(unit[d])
        },
{
    let stripped = strip_unit(unit);
    let pruned = prune_all(stripped, stripped)->Ok_0;
    let repaired = repair_spec(unit)->Ok_0;
    lemma_pruned_each(stripped, stripped);
    assert(prune_decl(stripped, stripped[d]) matches Ok(each) && each.decl == pruned.decls[d]);
    lemma_retags_keep_frames(pruned.decls, pruned.retags);
    assert(same_frame(pruned.decls[d], repaired[d]));
    if includes_literal(unit)[d] {
        if unit[d] is Other {
            assert(strip_attributes(Seq::<AttributeView>::empty()) =~= Seq::empty());
        }
    }
}

/// After a repair, a struct that is a variant of a tagged sum type has no
/// field with the wire name of the tag.
pub proof fn lemma_repair_removes_tag_fields(unit: Seq<DeclView>, d: int)
    requires
        0 <= d < unit.len(),
        repair_spec(unit) is Ok,
        claim_on(unit, unit[d]) is Some,
    ensures
        repair_spec(unit)->Ok_0.len() == unit.len(),
        repair_spec(unit)->Ok_0[d] matches DeclView::Struct { fields: Some(fields), .. }
            && forall|k: int|
            0 <= k < fields.len() ==> wire_name(#[trigger] fields[k]) != claim_on(
                unit,
                unit[d],
            )->Some_0.tag,
{
    let stripped = strip_unit(unit);
    let claim = claim_on(unit, unit[d])->Some_0;
    lemma_strip_keeps_claim_on(unit, d);
    let pruned = prune_all(stripped, stripped)->Ok_0;
    lemma_pruned_each(stripped, stripped);
    assert(prune_decl(stripped, stripped[d]) matches Ok(each) && each.decl == pruned.decls[d]);
    lemma_retags_keep_frames(pruned.decls, pruned.retags);
    let repaired = repair_spec(unit)->Ok_0;
    assert(same_frame(pruned.decls[d], repaired[d]));
    let fields = stripped[d]->Struct_fields->Some_0;
    lemma_kept_fields(fields, claim.tag);
}

/// Whether no struct of `unit` is a variant of a tagged sum type of `unit`.
pub open spec fn unclaimed(unit: Seq<DeclView>) -> bool {
    forall|d: int| 0 <= d < unit.len() ==> claim_on(unit, #[trigger] unit[d]) is None
}

/// Pruning declarations that no sum type claims changes nothing.
proof fn lemma_prune_unclaimed(unit: Seq<DeclView>, decls: Seq<DeclView>)
    requires
        forall|d: int| 0 <= d < decls.len() ==> claim_on(unit, #[trigger] decls[d]) is None,
    ensures
        prune_all(unit, decls) == Ok::<PrunedUnit, RepairError>(
            PrunedUnit { decls, retags: Seq::empty() },
        ),
    decreases decls.len(),
{
    if decls.len() > 0 {
        let front = decls.drop_last();
        assert forall|d: int| 0 <= d < front.len() implies claim_on(unit, #[trigger] front[d])
            is None by {
            assert(front[d] == decls[d]);
        }
        lemma_prune_unclaimed(unit, front);
        assert(claim_on(unit, decls[decls.len() - 1]) is None);
        assert(front.push(decls.last()) =~= decls);
    } else {
        assert(decls =~= Seq::empty());
    }
}

/// Where no struct of a unit is a variant of a tagged sum type, the repair
/// only strips the derived capabilities.
pub proof fn lemma_repair_unclaimed(unit: Seq<DeclView>)
    requires
        unclaimed(unit),
        !claimed_twice(unit),
    ensures
        repair_spec(unit) == Ok::<Seq<DeclView>, RepairError>(strip_unit(unit)),
{
    let stripped = strip_unit(unit);
    lemma_strip_keeps_conflicts(unit);
    assert forall|d: int| 0 <= d < stripped.len() implies claim_on(stripped, #[trigger] stripped[d])
        is None by {
        lemma_strip_keeps_claim_on(unit, d);
    }
    lemma_prune_unclaimed(stripped, stripped);
}

/// Repairing a repaired unit changes nothing, where no struct of the unit
/// is a variant of a tagged sum type: no capability is left to strip. (A
/// struct that is such a variant has lost its tag field in the first run,
/// and the second run fails on it.)
pub proof fn lemma_repair_twice(unit: Seq<DeclView>, repaired: Seq<DeclView>)
    requires
        unclaimed(unit),
        repair_spec(unit) == Ok::<Seq<DeclView>, RepairError>(repaired),
    ensures
        repair_spec(repaired) == Ok::<Seq<DeclView>, RepairError>(repaired),
{
    lemma_strip_keeps_conflicts(unit);
    lemma_repair_unclaimed(unit);
    let stripped = strip_unit(unit);
    assert(repaired == stripped);
    assert forall|d: int| 0 <= d < stripped.len() implies claim_on(stripped, #[trigger] stripped[d])
        is None by {
        lemma_strip_keeps_claim_on(unit, d);
    }
    lemma_strip_unit_twice(unit);
    lemma_repair_unclaimed(stripped);
}

/// Repairing a repaired unit fails where a struct of the unit is a variant
/// of a tagged sum type: the first run has removed the tag field that the
/// second run looks for.
pub proof fn lemma_second_repair_fails(unit: Seq<DeclView>, d: int)
    requires
        0 <= d < unit.len(),
        repair_spec(unit) is Ok,
        claim_on(unit, unit[d]) is Some,
    ensures
        repair_spec(repair_spec(unit)->Ok_0) is Err,
{
    let stripped = strip_unit(unit);
    let claim = claim_on(unit, unit[d])->Some_0;
    let name = unit[d]->Struct_name;
    lemma_strip_keeps_claim_on(unit, d);
    let pruned = prune_all(stripped, stripped)->Ok_0;
    lemma_pruned_each(stripped, stripped);
    lemma_retags_keep_frames(pruned.decls, pruned.retags);
    let repaired = repair_spec(unit)->Ok_0;
    lemma_repair_removes_tag_fields(unit, d);
    let again = strip_unit(repaired);
    assert forall|i: int| 0 <= i < unit.len() implies claiming(name)(again[i]) == claiming(name)(
        stripped[i],
    ) && tag_of(again[i]) == tag_of(stripped[i]) by {
        assert(prune_decl(stripped, stripped[i]) matches Ok(each) && each.decl == pruned.decls[i]);
        lemma_prune_keeps_claims(stripped, stripped[i], name);
        assert(same_frame(pruned.decls[i], repaired[i]));
        lemma_frame_keeps_claims(pruned.decls[i], repaired[i], name);
        lemma_strip_keeps_claims(repaired[i], name);
    }
    lemma_first_index_alike(again, stripped, claiming(name));
    lemma_first_index(stripped, claiming(name));
    assert(prune_decl(stripped, stripped[d]) matches Ok(each) && each.decl == pruned.decls[d]);
    assert(same_frame(pruned.decls[d], repaired[d]));
    assert(claim_on(again, again[d]) == Some(claim));
    let fields = stripped[d]->Struct_fields->Some_0;
    lemma_kept_fields(fields, claim.tag);
    assert(prune_decl(again, again[d]) is Err);
    lemma_pruned_each(again, again);
    if prune_all(again, again) is Ok {
        let twice = prune_all(again, again)->Ok_0;
        assert(prune_decl(again, again[d]) matches Ok(each) && each.decl == twice.decls[d]);
    }
}

} // verus!
