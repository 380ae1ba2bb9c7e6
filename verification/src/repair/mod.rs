//! The repair pass for generated declarations.
//!
//! A generator that writes one declaration per entity repeats the tag field
//! of a tagged sum type in every variant's struct, and gives the variants
//! default tag values. The pass removes the repeated field from each variant
//! struct, rewrites the tag value of the variant to the literal that the
//! removed field was typed with, and strips the derived capabilities that
//! literal types cannot have.
//!
//! [`generate_models_from_sources`] repairs source fragments, and [`repair`]
//! the syntax tree of a compilation unit. [`source`] joins the fragments
//! that a unit is parsed from, [`literals`], [`derives`], [`claims`],
//! [`fields`] and [`retag`] hold the steps of the pass, and [`laws`] and
//! [`tags`] what holds of every repair.

pub mod claims;
pub mod derives;
pub mod fields;
pub mod laws;
pub mod literals;
pub mod retag;
pub mod source;
pub mod tags;

pub use self::claims::{
    Claim, decl_claims, find_claim, find_claimant, find_serde_tag, find_serde_value,
    position_of_serde_value, position_of_variant, read_serde_value, tag_of_decl, unquote,
    variant_claimed_twice,
};
pub use self::derives::{
    edit_derive_traits, remove_buggy_traits, should_remove_trait, strip_declarations,
};
pub use self::fields::{Retag, field_wire_name, prune_declarations, prune_struct, remove_field};
pub use self::retag::{
    edit_tag_value, literal_of_enum, literal_of_type, literal_type_name, position_of_enum,
    retag_declaration, retag_variant, rewrite_tag,
};
pub use self::source::{join_inputs, remove_all};

use vstd::prelude::*;
use vstd::string::*;
use crate::repair::claims::claimed_twice;
use crate::repair::derives::strip_unit;
use crate::repair::fields::{prune_all, retag_views};
use crate::repair::retag::{apply_retags, lemma_retags_failure};
use crate::repair::source::joined_inputs;
use crate::syntax::{DeclView, Unit, decl_views};
use crate::syntax::parse::{parse_unit, unit_of};
use crate::syntax::render::unit_source;
use crate::text::views;
use crate::tokens::{lex, token_text};

verus! {

/// Why a unit cannot be repaired.
#[derive(Debug, Clone, Copy, PartialEq, Eq, Structural)]
pub enum RepairError {
    /// A struct is a variant of a tagged sum type and has no field with the
    /// wire name of the tag.
    TagFieldMissing,
    /// Two tagged sum types have a variant of the same name.
    VariantClaimedTwice,
    /// The type of a removed tag field does not lead to a literal: it names
    /// no enum of the unit whose first variant has a literal in its first
    /// attribute.
    LiteralNotFound,
    /// The variant whose tag is to be rewritten has no attribute list to
    /// rewrite.
    VariantTagMissing,
    /// The source text is no Rust file.
    NotRust,
}

impl RepairError {
    /// The reason of the failure, in words.
    pub open spec fn reason_text(self) -> Seq<char> {
        match self {
            RepairError::TagFieldMissing =>
                "a variant struct of a tagged enum has no field with the wire name of the tag"@,
            RepairError::VariantClaimedTwice =>
                "two tagged enums have a variant of the same name"@,
            RepairError::LiteralNotFound =>
                "the type of a removed tag field leads to no literal"@,
            RepairError::VariantTagMissing =>
                "a variant of a tagged enum has no attribute list to rewrite its tag in"@,
            RepairError::NotRust => "the source text is no Rust file"@,
        }
    }

    /// The reason of the failure, in words.
    pub fn reason(&self) -> (out: &'static str)
        ensures
            out@ == self.reason_text(),
    {
        match self {
            RepairError::TagFieldMissing =>
                "a variant struct of a tagged enum has no field with the wire name of the tag",
            RepairError::VariantClaimedTwice => "two tagged enums have a variant of the same name",
            RepairError::LiteralNotFound => "the type of a removed tag field leads to no literal",
            RepairError::VariantTagMissing =>
                "a variant of a tagged enum has no attribute list to rewrite its tag in",
            RepairError::NotRust => "the source text is no Rust file",
        }
    }
}

/// The repaired unit: the derived capabilities are stripped from the
/// declarations that include a literal type, the tag field is removed from
/// every struct that is a variant of a tagged sum type, and the tag value of
/// each such variant is the literal of the removed field.
pub open spec fn repair_spec(unit: Seq<DeclView>) -> Result<Seq<DeclView>, RepairError> {
    let stripped = strip_unit(unit);
    if claimed_twice(stripped) {
        Err(RepairError::VariantClaimedTwice)
    } else {
        match prune_all(stripped, stripped) {
            Ok(pruned) => apply_retags(pruned.decls, pruned.retags),
            Err(e) => Err(e),
        }
    }
}

/// The mathematical value of a unit or a failure.
pub open spec fn unit_result_view(out: Result<Unit, RepairError>) -> Result<
    Seq<DeclView>,
    RepairError,
> {
    match out {
        Ok(unit) => Ok(unit@),
        Err(e) => Err(e),
    }
}

/// Repairs a compilation unit.
///
/// Every declaration whose structure includes a literal type loses the
/// derived capabilities that such a type cannot have. Every struct that is a
/// variant of a tagged sum type loses the field with the wire name of the
/// tag, and the tag value of the variant becomes the literal of the removed
/// field. The pass fails where two tagged sum types have a variant of the
/// same name, where a variant struct has no tag field, and where the
/// literal of a removed field or the tag value to rewrite cannot be found.
pub fn repair(unit: Unit) -> (out: Result<Unit, RepairError>)
    ensures
        unit_result_view(out) == repair_spec(unit@),
{
    let stripped = strip_declarations(unit.decls);
    if variant_claimed_twice(&stripped) {
        return Err(RepairError::VariantClaimedTwice);
    }
    let (mut decls, retags) = match prune_declarations(stripped) {
        Ok(pruned) => pruned,
        Err(e) => {
            return Err(e);
        },
    };
    let ghost start = decl_views(decls@);
    let ghost all = retag_views(retags@);
    let mut i: usize = 0;
    proof {
        assert(all.take(0) =~= Seq::empty());
    }
    while i < retags.len()
        invariant
            i <= retags.len(),
            all == retag_views(retags@),
            repair_spec(unit@) == apply_retags(start, all),
            apply_retags(start, all.take(i as int)) == Ok::<Seq<DeclView>, RepairError>(
                decl_views(decls@),
            ),
        decreases retags.len() - i,
    {
        proof {
            assert(all.take(i as int + 1).drop_last() == all.take(i as int));
            assert(all.take(i as int + 1).last() == retags[i as int]@);
        }
        match rewrite_tag(&mut decls, &retags[i]) {
            Ok(()) => {},
            Err(e) => {
                proof {
                    lemma_retags_failure(start, all, i as int + 1);
                }
                return Err(e);
            },
        }
        i += 1;
    }
    proof {
        assert(all.take(retags.len() as int) == all);
    }
    Ok(Unit { decls })
}

/// The mathematical value of a repaired source text or a failure.
pub open spec fn source_result_view(out: Result<String, RepairError>) -> Result<
    Seq<char>,
    RepairError,
> {
    match out {
        Ok(text) => Ok(text@),
        Err(e) => Err(e),
    }
}

/// The repaired source of the fragments `inputs`: the fragments are joined
/// into one compilation unit, the unit is read as a syntax tree and
/// repaired, and the repaired tree is written as the text of its tokens.
pub open spec fn repaired_source(inputs: Seq<Seq<char>>) -> Result<Seq<char>, RepairError> {
    match unit_of(joined_inputs(inputs)) {
        Some(unit) => match repair_spec(unit) {
            Ok(repaired) => match token_text(unit_source(repaired)) {
                Some(text) => Ok(text),
                None => Err(RepairError::NotRust),
            },
            Err(e) => Err(e),
        },
        None => Err(RepairError::NotRust),
    }
}

/// Joins the source fragments `inputs` into one compilation unit and
/// repairs it.
pub fn generate_models_from_sources(inputs: &Vec<String>) -> (out: Result<String, RepairError>)
    ensures
        source_result_view(out) == repaired_source(views(inputs@)),
{
    let joined = join_inputs(inputs);
    let unit = match parse_unit(joined.as_str()) {
        Some(unit) => unit,
        None => {
            return Err(RepairError::NotRust);
        },
    };
    match repair(unit) {
        Ok(repaired) => match lex(repaired.render().as_str()) {
            Some(text) => Ok(text),
            None => Err(RepairError::NotRust),
        },
        Err(e) => Err(e),
    }
}

} // verus!
