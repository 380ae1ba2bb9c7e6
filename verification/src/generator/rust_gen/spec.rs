//! The declaration of an entity, as a function on mathematical values.

use vstd::prelude::*;
use crate::generator::rust_gen::EmitError;
use crate::generator::rust_gen::expand::expand_spec;
use crate::generator::rust_gen::templates::{
    catch_all_text, enum_text, flattened_text, member_text, struct_text, tag_attribute_text,
    untagged_attribute_text, variant_text,
};
use crate::generator::snake_case_spec;
use crate::ir::{EntityDefView, EntityView, FieldTypeView, FieldView, StructDefView};
use crate::syntax::Variant;
use crate::text::join_spec;
use crate::tokens::{string_literal, token_text};

verus! {

/// The tokens of `piece`, or the failure that it has none.
pub open spec fn lexed(piece: Seq<char>) -> Result<Seq<char>, EmitError> {
    match token_text(piece) {
        Some(tokens) => Ok(tokens),
        None => Err(EmitError::NotTokens),
    }
}

/// The declaration of the member `name` of a struct.
pub open spec fn member_code(name: Seq<char>, field: FieldView) -> Result<Seq<char>, EmitError> {
    match expand_spec(field.field_type) {
        Ok(expanded) => match lexed(expanded) {
            Ok(field_type) => match lexed(snake_case_spec(name)) {
                Ok(identifier) => Ok(
                    member_text(string_literal(name), identifier, field_type, field.optional),
                ),
                Err(e) => Err(e),
            },
            Err(e) => Err(e),
        },
        Err(e) => Err(e),
    }
}

/// The declarations of the members `properties`, in order.
pub open spec fn members_code(properties: Seq<(Seq<char>, FieldView)>) -> Result<
    Seq<Seq<char>>,
    EmitError,
>
    decreases properties.len(),
{
    if properties.len() == 0 {
        Ok(Seq::empty())
    } else {
        match members_code(properties.drop_last()) {
            Ok(front) => match member_code(properties.last().0, properties.last().1) {
                Ok(last) => Ok(front.push(last)),
                Err(e) => Err(e),
            },
            Err(e) => Err(e),
        }
    }
}

/// The type of the values that the undeclared wire fields of type `extra`
/// have: the value type where `extra` is a map, any value where that map is
/// unconstrained, else `extra` itself.
pub open spec fn catch_all_value(extra: FieldTypeView) -> Result<Seq<char>, EmitError> {
    match extra {
        FieldTypeView::Object(Some(value)) => expand_spec(*value),
        FieldTypeView::Object(None) => Ok("serde_json::Value"@),
        _ => expand_spec(extra),
    }
}

/// The member that catches undeclared wire fields of type `extra`.
pub open spec fn catch_all_code(extra: FieldTypeView) -> Result<Seq<char>, EmitError> {
    match catch_all_value(extra) {
        Ok(expanded) => match lexed(expanded) {
            Ok(value_type) => Ok(catch_all_text(value_type)),
            Err(e) => Err(e),
        },
        Err(e) => Err(e),
    }
}

/// The member that flattens the composed entity `entity` into its struct.
pub open spec fn flattened_code(entity: Seq<char>) -> Result<Seq<char>, EmitError> {
    match lexed(snake_case_spec(entity)) {
        Ok(name) => match lexed(entity) {
            Ok(field_type) => Ok(flattened_text(name, field_type)),
            Err(e) => Err(e),
        },
        Err(e) => Err(e),
    }
}

/// The variant of a sum type for the entity `entity`.
pub open spec fn variant_code(entity: Seq<char>) -> Result<Seq<char>, EmitError> {
    match lexed(entity) {
        Ok(name) => Ok(variant_text(name)),
        Err(e) => Err(e),
    }
}

/// What an entity name becomes inside a declaration.
#[derive(Debug, Clone, Copy, PartialEq, Eq, Structural)]
pub enum Part {
    /// A member that flattens the named entity.
    Flattened,
    /// A variant that wraps the named entity.
    Variant,
    /// A variant that is the name itself.
    Value,
}

/// The part of a declaration that stands for the name `name`.
pub open spec fn part_code(part: Part, name: Seq<char>) -> Result<Seq<char>, EmitError> {
    match part {
        Part::Flattened => flattened_code(name),
        Part::Variant => variant_code(name),
        Part::Value => lexed(name),
    }
}

/// The parts of a declaration that stand for the names `names`, in order.
pub open spec fn parts_code(part: Part, names: Seq<Seq<char>>) -> Result<Seq<Seq<char>>, EmitError>
    decreases names.len(),
{
    if names.len() == 0 {
        Ok(Seq::empty())
    } else {
        match parts_code(part, names.drop_last()) {
            Ok(front) => match part_code(part, names.last()) {
                Ok(last) => Ok(front.push(last)),
                Err(e) => Err(e),
            },
            Err(e) => Err(e),
        }
    }
}

/// The declaration of a struct entity, of which no two members have the
/// same name.
pub open spec fn struct_code(identifier: Seq<char>, def: StructDefView) -> Result<
    Seq<char>,
    EmitError,
> {
    if !def.distinct_names() {
        Err(EmitError::DuplicateMember)
    } else {
        match members_code(def.properties) {
            Ok(members) => match def.additional_properties {
                Some(extra) => match catch_all_code(extra) {
                    Ok(catch_all) => Ok(struct_text(identifier, members.push(catch_all))),
                    Err(e) => Err(e),
                },
                None => Ok(struct_text(identifier, members)),
            },
            Err(e) => Err(e),
        }
    }
}

/// The declaration that an entity is emitted as.
pub open spec fn entity_code(entity: EntityView) -> Result<Seq<char>, EmitError> {
    match lexed(entity.name) {
        Ok(identifier) => match entity.def {
            EntityDefView::Struct(def) => struct_code(identifier, def),
            EntityDefView::OneOf { discriminant, variants } => match parts_code(
                Part::Variant,
                variants,
            ) {
                Ok(variants) => match discriminant {
                    Some(tag) => Ok(
                        enum_text(tag_attribute_text(string_literal(tag)), identifier, variants),
                    ),
                    None => Ok(enum_text(untagged_attribute_text(), identifier, variants)),
                },
                Err(e) => Err(e),
            },
            EntityDefView::AllOf(composed) => match parts_code(Part::Flattened, composed) {
                Ok(members) => Ok(struct_text(identifier, members)),
                Err(e) => Err(e),
            },
            EntityDefView::Enum(values) => match parts_code(Part::Value, values) {
                Ok(variants) => Ok(enum_text(Seq::empty(), identifier, variants)),
                Err(e) => Err(e),
            },
        },
        Err(e) => Err(e),
    }
}

/// The declarations of the entities `entities`, in order.
pub open spec fn entities_code(entities: Seq<EntityView>) -> Result<Seq<Seq<char>>, EmitError>
    decreases entities.len(),
{
    if entities.len() == 0 {
        Ok(Seq::empty())
    } else {
        match entities_code(entities.drop_last()) {
            Ok(front) => match entity_code(entities.last()) {
                Ok(last) => Ok(front.push(last)),
                Err(e) => Err(e),
            },
            Err(e) => Err(e),
        }
    }
}

/// The source text for the entities `entities`: one declaration for each,
/// in order, on lines of their own.
pub open spec fn code_spec(entities: Seq<EntityView>) -> Result<Seq<char>, EmitError> {
    match entities_code(entities) {
        Ok(declarations) => Ok(join_spec(declarations, "\n"@)),
        Err(e) => Err(e),
    }
}

/// Where the entities are emitted, there is exactly one declaration for
/// each of them, in their order.
pub proof fn lemma_one_declaration_each(entities: Seq<EntityView>)
    ensures
        entities_code(entities) matches Ok(declarations) ==> {
            &&& declarations.len() == entities.len()
            &&& forall|i: int|
                0 <= i < entities.len() ==> entity_code(#[trigger] entities[i]) == Ok::<
                    Seq<char>,
                    EmitError,
                >(declarations[i])
        },
    decreases entities.len(),
{
    if entities.len() > 0 {
        let front = entities.drop_last();
        lemma_one_declaration_each(front);
        match entities_code(entities) {
            Ok(declarations) => {
                let before = entities_code(front)->Ok_0;
                assert forall|i: int| 0 <= i < entities.len() implies entity_code(
                    #[trigger] entities[i],
                ) == Ok::<Seq<char>, EmitError>(declarations[i]) by {
                    if i < front.len() {
                        assert(front[i] == entities[i]);
                        assert(declarations[i] == before[i]);
                    }
                }
            },
            Err(_) => {},
        }
    }
}

} // verus!
