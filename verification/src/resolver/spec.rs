//! What a schema resolves to, as functions on mathematical values.
//!
//! Lists are resolved from the first item to the last, and the naming
//! context of one item is what the item before it left. The first failure
//! is the failure of the whole.

use vstd::prelude::*;
use crate::ir::{EntityDefView, EntityView, FieldTypeView, FieldView, Primitive, StructDefView};
use crate::resolver::ResolveError;
use crate::resolver::naming::{Naming, fresh_enum_name, inline_name};
use crate::schema::{
    AdditionalPropertiesView, Format, PrimitiveTypeView, SchemaDefView, SchemaView, schema_name,
};
use crate::text::{distinct, keys};

verus! {

/// The title of a definition that becomes an entity; `None` for the others.
pub open spec fn entity_title(def: SchemaDefView) -> Option<Option<Seq<char>>> {
    match def {
        SchemaDefView::Object { title, .. } => Some(title),
        SchemaDefView::AllOf { title, .. } => Some(title),
        SchemaDefView::OneOf { title, .. } => Some(title),
        SchemaDefView::AnyOf { title, .. } => Some(title),
        _ => None,
    }
}

/// The primitive kind of a string with the given format.
pub open spec fn string_kind(format: Option<Format>) -> Primitive {
    match format {
        Some(Format::Uuid) => Primitive::Uuid,
        Some(Format::Byte) => Primitive::Bytes,
        _ => Primitive::String,
    }
}

/// The primitive kind of an integer with the given format and lower bound:
/// unsigned where the bound is not negative.
pub open spec fn integer_kind(format: Option<Format>, minimum: Option<i64>) -> Primitive {
    let unsigned = minimum matches Some(m) && m >= 0;
    match format {
        Some(Format::Int64) => if unsigned {
            Primitive::U64
        } else {
            Primitive::Long
        },
        Some(Format::Int32) => if unsigned {
            Primitive::U32
        } else {
            Primitive::Int
        },
        _ => Primitive::Int,
    }
}

/// The primitive kind of a number with the given format.
pub open spec fn number_kind(format: Option<Format>) -> Primitive {
    match format {
        Some(Format::Double) => Primitive::Double,
        _ => Primitive::Float,
    }
}

/// What resolving a schema in field position gives.
pub struct FieldResolution {
    pub field_type: FieldTypeView,
    pub entities: Seq<EntityView>,
    pub names: Naming,
}

/// What resolving the items of a tuple gives.
pub struct TupleResolution {
    pub types: Seq<FieldTypeView>,
    pub entities: Seq<EntityView>,
    pub names: Naming,
}

/// What resolving the `additionalProperties` of an object gives.
pub struct AdditionalResolution {
    pub field_type: Option<FieldTypeView>,
    pub entities: Seq<EntityView>,
    pub names: Naming,
}

/// What resolving the properties of an object gives.
pub struct PropertyResolution {
    pub properties: Seq<(Seq<char>, FieldView)>,
    pub entities: Seq<EntityView>,
    pub names: Naming,
}

/// What resolving the members of a combinator gives.
pub struct MemberResolution {
    pub members: Seq<Seq<char>>,
    pub entities: Seq<EntityView>,
    pub names: Naming,
}

/// What resolving a definition into an entity gives: the entities nested in
/// it first, the entity itself last.
pub struct EntityResolution {
    pub entities: Seq<EntityView>,
    pub names: Naming,
}

/// The field type of `schema` and the entities it brings along.
///
/// A reference is the entity it names. An object without declared
/// properties is a map: over the resolved schema of its undeclared
/// properties where it gives one, else unconstrained. Any other object and
/// any combinator is an entity of its own, under its title or a synthesized
/// name. A string with an `enum` constraint is an enumeration of its own. A
/// string with a `const` constraint is a literal type. Other primitives are
/// told apart by their format.
pub open spec fn resolve_schema(schema: SchemaView, names: Naming) -> Result<
    FieldResolution,
    ResolveError,
>
    decreases schema,
{
    match schema {
        SchemaView::Ref(path) => Ok(
            FieldResolution {
                field_type: FieldTypeView::Named(schema_name(path)),
                entities: Seq::empty(),
                names,
            },
        ),
        SchemaView::Def(def) => match def {
            SchemaDefView::Object {
                properties: None,
                additional_properties: AdditionalPropertiesView::Boolean(_),
                ..
            } => Ok(
                FieldResolution {
                    field_type: FieldTypeView::Object(None),
                    entities: Seq::empty(),
                    names,
                },
            ),
            SchemaDefView::Object {
                properties: None,
                additional_properties: AdditionalPropertiesView::Schema(inner),
                ..
            } => match resolve_schema(*inner, names) {
                Ok(value) => Ok(
                    FieldResolution {
                        field_type: FieldTypeView::Object(Some(Box::new(value.field_type))),
                        entities: value.entities,
                        names: value.names,
                    },
                ),
                Err(e) => Err(e),
            },
            SchemaDefView::String { type_def: PrimitiveTypeView::Const { const_value } } => Ok(
                FieldResolution {
                    field_type: FieldTypeView::Const(Primitive::String, const_value),
                    entities: Seq::empty(),
                    names,
                },
            ),
            SchemaDefView::String { type_def: PrimitiveTypeView::Enum { enum_values } } => match fresh_enum_name(
                names,
            ) {
                Ok((name, after)) => Ok(
                    FieldResolution {
                        field_type: FieldTypeView::Named(name),
                        entities: seq![
                            EntityView { name, def: EntityDefView::Enum(enum_values) },
                        ],
                        names: after,
                    },
                ),
                Err(e) => Err(e),
            },
            SchemaDefView::String { type_def: PrimitiveTypeView::Basic { format, .. } } => Ok(
                FieldResolution {
                    field_type: FieldTypeView::Simple(string_kind(format)),
                    entities: Seq::empty(),
                    names,
                },
            ),
            SchemaDefView::Integer { type_def: PrimitiveTypeView::Basic { format, minimum } } => Ok(
                FieldResolution {
                    field_type: FieldTypeView::Simple(integer_kind(format, minimum)),
                    entities: Seq::empty(),
                    names,
                },
            ),
            SchemaDefView::Integer { .. } => Err(ResolveError::UnsupportedNumericConstraint),
            SchemaDefView::Boolean => Ok(
                FieldResolution {
                    field_type: FieldTypeView::Simple(Primitive::Bool),
                    entities: Seq::empty(),
                    names,
                },
            ),
            SchemaDefView::Number { type_def: PrimitiveTypeView::Basic { format, .. } } => Ok(
                FieldResolution {
                    field_type: FieldTypeView::Simple(number_kind(format)),
                    entities: Seq::empty(),
                    names,
                },
            ),
            SchemaDefView::Number { .. } => Err(ResolveError::UnsupportedNumericConstraint),
            SchemaDefView::Array { items: None } => Ok(
                FieldResolution {
                    field_type: FieldTypeView::Array(None),
                    entities: Seq::empty(),
                    names,
                },
            ),
            SchemaDefView::Array { items: Some(item) } => match resolve_schema(*item, names) {
                Ok(element) => Ok(
                    FieldResolution {
                        field_type: FieldTypeView::Array(Some(Box::new(element.field_type))),
                        entities: element.entities,
                        names: element.names,
                    },
                ),
                Err(e) => Err(e),
            },
            SchemaDefView::Tuple { prefix_items } => match resolve_tuple(prefix_items, names) {
                Ok(items) => Ok(
                    FieldResolution {
                        field_type: FieldTypeView::Tuple(items.types),
                        entities: items.entities,
                        names: items.names,
                    },
                ),
                Err(e) => Err(e),
            },
            _ => match inline_name(entity_title(def).unwrap(), names) {
                Ok((name, after)) => match resolve_entity(def, name, after) {
                    Ok(nested) => Ok(
                        FieldResolution {
                            field_type: FieldTypeView::Named(name),
                            entities: nested.entities,
                            names: nested.names,
                        },
                    ),
                    Err(e) => Err(e),
                },
                Err(e) => Err(e),
            },
        },
    }
}

/// The types of the tuple items `items`, in order, and the entities they
/// bring along, in the order of the items.
pub open spec fn resolve_tuple(items: Seq<SchemaView>, names: Naming) -> Result<
    TupleResolution,
    ResolveError,
>
    decreases items,
{
    if items.len() == 0 {
        Ok(TupleResolution { types: Seq::empty(), entities: Seq::empty(), names })
    } else {
        match resolve_tuple(items.drop_last(), names) {
            Ok(front) => match resolve_schema(items.last(), front.names) {
                Ok(item) => Ok(
                    TupleResolution {
                        types: front.types.push(item.field_type),
                        entities: front.entities + item.entities,
                        names: item.names,
                    },
                ),
                Err(e) => Err(e),
            },
            Err(e) => Err(e),
        }
    }
}

/// The members that the properties `properties` become, in order: a member
/// is optional unless its name is among `required`.
pub open spec fn resolve_properties(
    properties: Seq<(Seq<char>, SchemaView)>,
    required: Seq<Seq<char>>,
    names: Naming,
) -> Result<PropertyResolution, ResolveError>
    decreases properties,
{
    if properties.len() == 0 {
        Ok(PropertyResolution { properties: Seq::empty(), entities: Seq::empty(), names })
    } else {
        match resolve_properties(properties.drop_last(), required, names) {
            Ok(front) => match resolve_schema(properties.last().1, front.names) {
                Ok(member) => Ok(
                    PropertyResolution {
                        properties: front.properties.push(
                            (
                                properties.last().0,
                                FieldView {
                                    optional: !required.contains(properties.last().0),
                                    field_type: member.field_type,
                                },
                            ),
                        ),
                        entities: front.entities + member.entities,
                        names: member.names,
                    },
                ),
                Err(e) => Err(e),
            },
            Err(e) => Err(e),
        }
    }
}

/// The names of the combinator members `members`, in order, and the entities
/// that the inline ones become.
pub open spec fn resolve_members(members: Seq<SchemaView>, names: Naming) -> Result<
    MemberResolution,
    ResolveError,
>
    decreases members,
{
    if members.len() == 0 {
        Ok(MemberResolution { members: Seq::empty(), entities: Seq::empty(), names })
    } else {
        match resolve_members(members.drop_last(), names) {
            Ok(front) => match members.last() {
                SchemaView::Ref(path) => Ok(
                    MemberResolution {
                        members: front.members.push(schema_name(path)),
                        entities: front.entities,
                        names: front.names,
                    },
                ),
                SchemaView::Def(def) => match entity_title(def) {
                    None => Err(ResolveError::MalformedCombinator),
                    Some(title) => match inline_name(title, front.names) {
                        Ok((name, after)) => match resolve_entity(def, name, after) {
                            Ok(nested) => Ok(
                                MemberResolution {
                                    members: front.members.push(name),
                                    entities: front.entities + nested.entities,
                                    names: nested.names,
                                },
                            ),
                            Err(e) => Err(e),
                        },
                        Err(e) => Err(e),
                    },
                },
            },
            Err(e) => Err(e),
        }
    }
}

/// The type of the undeclared members of an object: none where they are
/// forbidden, an unconstrained map where they are allowed, else the map over
/// the resolved schema.
pub open spec fn resolve_additional(extra: AdditionalPropertiesView, names: Naming) -> Result<
    AdditionalResolution,
    ResolveError,
>
    decreases extra,
{
    match extra {
        AdditionalPropertiesView::Boolean(false) => Ok(
            AdditionalResolution { field_type: None, entities: Seq::empty(), names },
        ),
        AdditionalPropertiesView::Boolean(true) => Ok(
            AdditionalResolution {
                field_type: Some(FieldTypeView::Object(None)),
                entities: Seq::empty(),
                names,
            },
        ),
        AdditionalPropertiesView::Schema(inner) => match resolve_schema(*inner, names) {
            Ok(value) => Ok(
                AdditionalResolution {
                    field_type: Some(FieldTypeView::Object(Some(Box::new(value.field_type)))),
                    entities: value.entities,
                    names: value.names,
                },
            ),
            Err(e) => Err(e),
        },
    }
}

/// The entities that the definition `def` becomes under the name `name`.
pub open spec fn resolve_entity(def: SchemaDefView, name: Seq<char>, names: Naming) -> Result<
    EntityResolution,
    ResolveError,
>
    decreases def,
{
    match def {
        SchemaDefView::Object { properties, required, additional_properties, .. } => {
            match resolve_additional(additional_properties, names) {
                Ok(extra) => match (match properties {
                    Some(list) => if distinct(keys(list)) {
                        resolve_properties(list, required, extra.names)
                    } else {
                        Err(ResolveError::DuplicateName)
                    },
                    None => Ok(
                        PropertyResolution {
                            properties: Seq::empty(),
                            entities: Seq::empty(),
                            names: extra.names,
                        },
                    ),
                }) {
                    Ok(members) => Ok(
                        EntityResolution {
                            entities: (extra.entities + members.entities).push(
                                EntityView {
                                    name,
                                    def: EntityDefView::Struct(
                                        StructDefView {
                                            properties: members.properties,
                                            additional_properties: extra.field_type,
                                        },
                                    ),
                                },
                            ),
                            names: members.names,
                        },
                    ),
                    Err(e) => Err(e),
                },
                Err(e) => Err(e),
            }
        },
        SchemaDefView::AllOf { all_of, .. } => match resolve_members(all_of, names) {
            Ok(composed) => Ok(
                EntityResolution {
                    entities: composed.entities.push(
                        EntityView { name, def: EntityDefView::AllOf(composed.members) },
                    ),
                    names: composed.names,
                },
            ),
            Err(e) => Err(e),
        },
        SchemaDefView::OneOf { one_of, discriminator, .. } => match resolve_members(one_of, names) {
            Ok(choice) => Ok(
                EntityResolution {
                    entities: choice.entities.push(
                        EntityView {
                            name,
                            def: EntityDefView::OneOf {
                                discriminant: discriminator,
                                variants: choice.members,
                            },
                        },
                    ),
                    names: choice.names,
                },
            ),
            Err(e) => Err(e),
        },
        SchemaDefView::AnyOf { .. } => Err(ResolveError::UnsupportedAnyOf),
        _ => Err(ResolveError::NotAnEntity),
    }
}

/// The entities of the definitions `document`: those of each definition in
/// turn, under the name it is listed with.
pub open spec fn resolve_entries(
    document: Seq<(Seq<char>, SchemaDefView)>,
    names: Naming,
) -> Result<
    EntityResolution,
    ResolveError,
>
    decreases document.len(),
{
    if document.len() == 0 {
        Ok(EntityResolution { entities: Seq::empty(), names })
    } else {
        match resolve_entries(document.drop_last(), names) {
            Ok(front) => match resolve_entity(
                document.last().1,
                document.last().0,
                front.names,
            ) {
                Ok(entry) => Ok(
                    EntityResolution {
                        entities: front.entities + entry.entities,
                        names: entry.names,
                    },
                ),
                Err(e) => Err(e),
            },
            Err(e) => Err(e),
        }
    }
}

/// The entities of a whole document, in which no name occurs twice: those
/// of each definition in turn, under the name it is listed with.
pub open spec fn resolve_document(
    document: Seq<(Seq<char>, SchemaDefView)>,
    names: Naming,
) -> Result<EntityResolution, ResolveError> {
    if distinct(keys(document)) {
        resolve_entries(document, names)
    } else {
        Err(ResolveError::DuplicateName)
    }
}

} // verus!
