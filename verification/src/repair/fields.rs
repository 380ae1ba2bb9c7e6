//! Removing the tag field from variant structs.

use vstd::prelude::*;
use vstd::string::*;
use crate::repair::RepairError;
use crate::repair::claims::{
    Claim, ClaimView, claim_on, find_claim, find_serde_value, first_serde_value,
    optional_claim_view, unquote, unquoted,
};
use crate::syntax::{
    Decl, DeclView, FieldDecl, FieldDeclView, TypeRef, TypeRefView, decl_views, field_views,
    optional_field_view,
};
use crate::text::same_text;

verus! {

/// The name of a field on the wire: what its first `serde` attribute of the
/// form `#[serde(rename = "..")]` says, else its own name.
pub open spec fn wire_name(field: FieldDeclView) -> Seq<char> {
    match first_serde_value(field.attrs, "rename"@) {
        Some(literal) => unquoted(literal),
        None => field.name,
    }
}

/// The name of a field on the wire.
pub fn field_wire_name(field: &FieldDecl) -> (out: String)
    ensures
        out@ == wire_name(field@),
{
    match find_serde_value(&field.attrs, "rename") {
        Some(literal) => unquote(literal.as_str()),
        None => field.name.clone(),
    }
}

/// The fields of `fields` whose wire name is not `tag`, in order.
pub open spec fn kept_fields(fields: Seq<FieldDeclView>, tag: Seq<char>) -> Seq<FieldDeclView>
    decreases fields.len(),
{
    if fields.len() == 0 {
        fields
    } else if wire_name(fields.last()) == tag {
        kept_fields(fields.drop_last(), tag)
    } else {
        kept_fields(fields.drop_last(), tag).push(fields.last())
    }
}

/// The last of the fields `fields` whose wire name is `tag`.
pub open spec fn removed_field(fields: Seq<FieldDeclView>, tag: Seq<char>) -> Option<FieldDeclView>
    decreases fields.len(),
{
    if fields.len() == 0 {
        None
    } else if wire_name(fields.last()) == tag {
        Some(fields.last())
    } else {
        removed_field(fields.drop_last(), tag)
    }
}

/// Removes from `fields` every field whose wire name is `tag`, and returns
/// the last of them.
pub fn remove_field(fields: &mut Vec<FieldDecl>, tag: &str) -> (removed: Option<FieldDecl>)
    ensures
        field_views(final(fields)@) == kept_fields(field_views(old(fields)@), tag@),
        optional_field_view(removed) == removed_field(field_views(old(fields)@), tag@),
{
    let mut taken: Vec<FieldDecl> = Vec::new();
    std::mem::swap(fields, &mut taken);
    let ghost all = field_views(taken@);
    let mut removed: Option<FieldDecl> = None;
    proof {
        assert(all.take(0) =~= Seq::empty());
        assert(field_views(fields@) =~= Seq::empty());
    }
    for field in it: taken
        invariant
            all == field_views(it.seq()),
            field_views(fields@) == kept_fields(all.take(it.index() as int), tag@),
            optional_field_view(removed) == removed_field(all.take(it.index() as int), tag@),
    {
        proof {
            assert(all.take(it.index() + 1).drop_last() == all.take(it.index() as int));
            assert(all.take(it.index() + 1).last() == field@);
        }
        let ghost before = field_views(fields@);
        if same_text(field_wire_name(&field).as_str(), tag) {
            removed = Some(field);
        } else {
            fields.push(field);
            proof {
                assert(field_views(fields@) =~= before.push(field@));
            }
        }
    }
    proof {
        assert(all.take(all.len() as int) == all);
    }
    removed
}

/// No kept field has the wire name of the tag, so that nothing is left to
/// remove.
pub proof fn lemma_kept_fields(fields: Seq<FieldDeclView>, tag: Seq<char>)
    ensures
        forall|k: int|
            0 <= k < kept_fields(fields, tag).len() ==> wire_name(
                #[trigger] kept_fields(fields, tag)[k],
            ) != tag,
        removed_field(kept_fields(fields, tag), tag) is None,
        kept_fields(kept_fields(fields, tag), tag) == kept_fields(fields, tag),
    decreases fields.len(),
{
    if fields.len() > 0 {
        lemma_kept_fields(fields.drop_last(), tag);
        if wire_name(fields.last()) != tag {
            let kept = kept_fields(fields, tag);
            assert(kept.drop_last() == kept_fields(fields.drop_last(), tag));
        }
    }
}

/// A tag value that is still to be rewritten: the variant `variant` of the
/// sum type at `governing` gets the literal that `ty` leads to.
pub struct RetagView {
    pub ty: TypeRefView,
    pub governing: int,
    pub variant: Seq<char>,
}

/// A tag value that is still to be rewritten.
#[derive(Debug)]
pub struct Retag {
    pub ty: TypeRef,
    pub governing: usize,
    pub variant: String,
}

impl View for Retag {
    type V = RetagView;

    open spec fn view(&self) -> RetagView {
        RetagView { ty: self.ty@, governing: self.governing as int, variant: self.variant@ }
    }
}

/// The views of a list of tag values to rewrite.
pub open spec fn retag_views(retags: Seq<Retag>) -> Seq<RetagView> {
    Seq::new(retags.len(), |i: int| retags[i]@)
}

/// What pruning one declaration gives.
pub struct Pruned {
    pub decl: DeclView,
    pub retag: Option<RetagView>,
}

/// The claimed declaration `decl` without its tag field: it loses every
/// field with the wire name of the tag, and the type of the last of them is
/// kept for the rewriting of the variant's tag.
pub open spec fn prune_claimed(decl: DeclView, claim: ClaimView) -> Result<Pruned, RepairError> {
    match decl {
        DeclView::Struct { attrs, head, name, generics, fields: Some(fields), rest, mentions } => {
            match removed_field(fields, claim.tag) {
                Some(field) => Ok(
                    Pruned {
                        decl: DeclView::Struct {
                            attrs,
                            head,
                            name,
                            generics,
                            fields: Some(kept_fields(fields, claim.tag)),
                            rest,
                            mentions,
                        },
                        retag: Some(
                            RetagView { ty: field.ty, governing: claim.governing, variant: name },
                        ),
                    },
                ),
                None => Err(RepairError::TagFieldMissing),
            }
        },
        _ => Err(RepairError::TagFieldMissing),
    }
}

/// The declaration `decl` of `unit`, pruned where a tagged sum type claims
/// it.
pub open spec fn prune_decl(unit: Seq<DeclView>, decl: DeclView) -> Result<Pruned, RepairError> {
    match claim_on(unit, decl) {
        Some(claim) => prune_claimed(decl, claim),
        None => Ok(Pruned { decl, retag: None }),
    }
}

/// What pruning a list of declarations gives.
pub struct PrunedUnit {
    pub decls: Seq<DeclView>,
    pub retags: Seq<RetagView>,
}

/// The declarations `decls` of `unit`, each pruned, in order, with the tag
/// values that are to be rewritten, in the order of the structs.
pub open spec fn prune_all(unit: Seq<DeclView>, decls: Seq<DeclView>) -> Result<
    PrunedUnit,
    RepairError,
>
    decreases decls.len(),
{
    if decls.len() == 0 {
        Ok(PrunedUnit { decls: Seq::empty(), retags: Seq::empty() })
    } else {
        match prune_all(unit, decls.drop_last()) {
            Ok(front) => match prune_decl(unit, decls.last()) {
                Ok(last) => Ok(
                    PrunedUnit {
                        decls: front.decls.push(last.decl),
                        retags: match last.retag {
                            Some(retag) => front.retags.push(retag),
                            None => front.retags,
                        },
                    },
                ),
                Err(e) => Err(e),
            },
            Err(e) => Err(e),
        }
    }
}

/// The mathematical value of a pruned declaration or a failure.
pub open spec fn pruned_view(out: Result<(Decl, Retag), RepairError>) -> Result<
    Pruned,
    RepairError,
> {
    match out {
        Ok((decl, retag)) => Ok(Pruned { decl: decl@, retag: Some(retag@) }),
        Err(e) => Err(e),
    }
}

/// Removes the tag field from a declaration that a tagged sum type claims.
pub fn prune_struct(decl: Decl, claim: &Claim) -> (out: Result<(Decl, Retag), RepairError>)
    ensures
        pruned_view(out) == prune_claimed(decl@, claim@),
{
    match decl {
        Decl::Struct { attrs, head, name, generics, fields: Some(mut fields), rest, mentions } => {
            match remove_field(&mut fields, claim.tag.as_str()) {
                Some(field) => {
                    let retag = Retag {
                        ty: field.ty,
                        governing: claim.governing,
                        variant: name.clone(),
                    };
                    Ok(
                        (
                            Decl::Struct {
                                attrs,
                                head,
                                name,
                                generics,
                                fields: Some(fields),
                                rest,
                                mentions,
                            },
                            retag,
                        ),
                    )
                },
                None => Err(RepairError::TagFieldMissing),
            }
        },
        _ => Err(RepairError::TagFieldMissing),
    }
}

/// A failure among the first `k` declarations is the failure of the whole.
proof fn lemma_prune_failure(unit: Seq<DeclView>, decls: Seq<DeclView>, k: int)
    requires
        0 <= k <= decls.len(),
        prune_all(unit, decls.take(k)) is Err,
    ensures
        prune_all(unit, decls) == prune_all(unit, decls.take(k)),
    decreases decls.len(),
{
    if k < decls.len() {
        assert(decls.drop_last().take(k) == decls.take(k));
        lemma_prune_failure(unit, decls.drop_last(), k);
    } else {
        assert(decls.take(k) == decls);
    }
}

/// The mathematical value of a pruned unit or a failure.
pub open spec fn pruned_unit_view(out: Result<(Vec<Decl>, Vec<Retag>), RepairError>) -> Result<
    PrunedUnit,
    RepairError,
> {
    match out {
        Ok((decls, retags)) => Ok(
            PrunedUnit { decls: decl_views(decls@), retags: retag_views(retags@) },
        ),
        Err(e) => Err(e),
    }
}

/// Removes the tag field from every struct that is a variant of a tagged
/// sum type, and lists the tag values that are to be rewritten.
pub fn prune_declarations(decls: Vec<Decl>) -> (out: Result<(Vec<Decl>, Vec<Retag>), RepairError>)
    ensures
        pruned_unit_view(out) == prune_all(decl_views(decls@), decl_views(decls@)),
{
    let ghost all = decl_views(decls@);
    let mut claims: Vec<Option<Claim>> = Vec::new();
    let mut i: usize = 0;
    while i < decls.len()
        invariant
            i <= decls.len(),
            all == decl_views(decls@),
            claims.len() == i,
            forall|j: int|
                0 <= j < i ==> optional_claim_view(#[trigger] claims[j]) == claim_on(all, all[j]),
        decreases decls.len() - i,
    {
        claims.push(find_claim(&decls, &decls[i]));
        i += 1;
    }
    let mut out: Vec<Decl> = Vec::new();
    let mut retags: Vec<Retag> = Vec::new();
    proof {
        assert(all.take(0) =~= Seq::empty());
        assert(decl_views(out@) =~= Seq::empty());
        assert(retag_views(retags@) =~= Seq::empty());
    }
    let mut d: usize = 0;
    for decl in it: decls
        invariant
            all == decl_views(it.seq()),
            claims.len() == all.len(),
            d == it.index(),
            forall|j: int|
                0 <= j < all.len() ==> optional_claim_view(#[trigger] claims[j]) == claim_on(
                    all,
                    all[j],
                ),
            prune_all(all, all.take(it.index() as int)) == Ok::<PrunedUnit, RepairError>(
                PrunedUnit { decls: decl_views(out@), retags: retag_views(retags@) },
            ),
    {
        proof {
            assert(all.take(it.index() + 1).drop_last() == all.take(it.index() as int));
            assert(all.take(it.index() + 1).last() == decl@);
        }
        let ghost decls_before = decl_views(out@);
        let ghost retags_before = retag_views(retags@);
        match &claims[d] {
            Some(claim) => match prune_struct(decl, claim) {
                Ok((pruned, retag)) => {
                    out.push(pruned);
                    retags.push(retag);
                    proof {
                        assert(decl_views(out@) =~= decls_before.push(pruned@));
                        assert(retag_views(retags@) =~= retags_before.push(retag@));
                    }
                },
                Err(e) => {
                    proof {
                        lemma_prune_failure(all, all, it.index() + 1);
                    }
                    return Err(e);
                },
            },
            None => {
                out.push(decl);
                proof {
                    assert(decl_views(out@) =~= decls_before.push(decl@));
                }
            },
        }
        d += 1;
    }
    proof {
        assert(all.take(all.len() as int) == all);
    }
    Ok((out, retags))
}

} // verus!
