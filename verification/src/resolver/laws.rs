//! What holds of every resolution.

use vstd::prelude::*;
use crate::ir::{EntityDefView, EntityView, FieldTypeView};
use crate::resolver::ResolveError;
use crate::resolver::naming::{
    Naming, anonymous_enum_name, fresh_entity_name, inline_name, lemma_synthesized_names_differ,
};
use crate::resolver::spec::{
    FieldResolution, entity_title, resolve_additional, resolve_document, resolve_entity,
    resolve_members, resolve_properties, resolve_schema, resolve_tuple,
};
use crate::schema::{AdditionalPropertiesView, PrimitiveTypeView, SchemaDefView, SchemaView};
use crate::text::{distinct, keys};

verus! {

/// The entity that a definition is resolved into comes last, after the
/// entities nested in it, and carries the given name.
pub proof fn lemma_entity_comes_last(def: SchemaDefView, name: Seq<char>, names: Naming)
    ensures
        resolve_entity(def, name, names) matches Ok(resolution) ==> resolution.entities.len() > 0
            && resolution.entities.last().name == name,
{
}

/// A property becomes the member of its own name, in its own position, and
/// the member is optional exactly where the name is not required.
pub proof fn lemma_optional_unless_required(
    properties: Seq<(Seq<char>, SchemaView)>,
    required: Seq<Seq<char>>,
    names: Naming,
)
    ensures
        resolve_properties(properties, required, names) matches Ok(resolution) ==> {
            &&& resolution.properties.len() == properties.len()
            &&& forall|i: int|
                0 <= i < properties.len() ==> {
                    &&& (#[trigger] resolution.properties[i]).0 == properties[i].0
                    &&& resolution.properties[i].1.optional == !required.contains(properties[i].0)
                }
        },
    decreases properties.len(),
{
    if properties.len() > 0 {
        lemma_optional_unless_required(properties.drop_last(), required, names);
    }
}

/// The members of the struct that an object is resolved into are its
/// properties, in order, each optional exactly where its name is not
/// required.
pub proof fn lemma_struct_members(def: SchemaDefView, name: Seq<char>, names: Naming)
    requires
        def matches SchemaDefView::Object { properties: Some(_), .. },
    ensures
        resolve_entity(def, name, names) matches Ok(resolution) ==> {
            &&& resolution.entities.last().def matches EntityDefView::Struct(members)
            &&& def matches SchemaDefView::Object { properties: Some(properties), required, .. }
            &&& members.properties.len() == properties.len()
            &&& forall|i: int|
                0 <= i < properties.len() ==> {
                    &&& (#[trigger] members.properties[i]).0 == properties[i].0
                    &&& members.properties[i].1.optional == !required.contains(properties[i].0)
                }
        },
{
    match def {
        SchemaDefView::Object { properties: Some(properties), required, additional_properties, .. } => {
            match resolve_additional(additional_properties, names) {
                Ok(extra) => {
                    lemma_optional_unless_required(properties, required, extra.names);
                },
                Err(_) => {},
            }
        },
        _ => {},
    }
}

/// No two members of the struct that an object is resolved into have the
/// same name.
pub proof fn lemma_members_distinct(def: SchemaDefView, name: Seq<char>, names: Naming)
    requires
        def is Object,
    ensures
        resolve_entity(def, name, names) matches Ok(resolution) ==> (
        resolution.entities.last().def matches EntityDefView::Struct(members)
            && members.distinct_names()),
{
    match def {
        SchemaDefView::Object { properties: Some(properties), required, additional_properties, .. } => {
            lemma_struct_members(def, name, names);
            match resolve_entity(def, name, names) {
                Ok(resolution) => {
                    let members = resolution.entities.last().def->Struct_0;
                    assert(keys(members.properties) =~= keys(properties));
                },
                Err(_) => {},
            }
        },
        _ => {},
    }
}

/// No two entries of a resolved document have the same name.
pub proof fn lemma_document_distinct(document: Seq<(Seq<char>, SchemaDefView)>, names: Naming)
    ensures
        resolve_document(document, names) is Ok ==> distinct(keys(document)),
{
}

/// Resolving a schema never takes a number back.
pub proof fn lemma_schema_names_grow(schema: SchemaView, names: Naming)
    ensures
        resolve_schema(schema, names) matches Ok(resolution) ==> names.precedes(resolution.names),
    decreases schema,
{
    match schema {
        SchemaView::Ref(_) => {},
        SchemaView::Def(def) => match def {
            SchemaDefView::Object {
                properties: None,
                additional_properties: AdditionalPropertiesView::Boolean(_),
                ..
            } => {},
            SchemaDefView::Object {
                properties: None,
                additional_properties: AdditionalPropertiesView::Schema(inner),
                ..
            } => {
                lemma_schema_names_grow(*inner, names);
            },
            SchemaDefView::String { .. } => {},
            SchemaDefView::Integer { .. } => {},
            SchemaDefView::Boolean => {},
            SchemaDefView::Number { .. } => {},
            SchemaDefView::Array { items: None } => {},
            SchemaDefView::Array { items: Some(item) } => {
                lemma_schema_names_grow(*item, names);
            },
            SchemaDefView::Tuple { prefix_items } => {
                lemma_tuple_names_grow(prefix_items, names);
            },
            _ => {
                match inline_name(entity_title(def).unwrap(), names) {
                    Ok((name, after)) => {
                        lemma_entity_names_grow(def, name, after);
                    },
                    Err(_) => {},
                }
            },
        },
    }
}

/// Resolving the items of a tuple never takes a number back.
pub proof fn lemma_tuple_names_grow(items: Seq<SchemaView>, names: Naming)
    ensures
        resolve_tuple(items, names) matches Ok(resolution) ==> names.precedes(resolution.names),
    decreases items,
{
    if items.len() > 0 {
        lemma_tuple_names_grow(items.drop_last(), names);
        match resolve_tuple(items.drop_last(), names) {
            Ok(front) => {
                lemma_schema_names_grow(items.last(), front.names);
            },
            Err(_) => {},
        }
    }
}

/// Resolving the properties of an object never takes a number back.
pub proof fn lemma_properties_names_grow(
    properties: Seq<(Seq<char>, SchemaView)>,
    required: Seq<Seq<char>>,
    names: Naming,
)
    ensures
        resolve_properties(properties, required, names) matches Ok(resolution) ==> names.precedes(
            resolution.names,
        ),
    decreases properties,
{
    if properties.len() > 0 {
        lemma_properties_names_grow(properties.drop_last(), required, names);
        match resolve_properties(properties.drop_last(), required, names) {
            Ok(front) => {
                lemma_schema_names_grow(properties.last().1, front.names);
            },
            Err(_) => {},
        }
    }
}

/// Resolving the members of a combinator never takes a number back.
pub proof fn lemma_members_names_grow(members: Seq<SchemaView>, names: Naming)
    ensures
        resolve_members(members, names) matches Ok(resolution) ==> names.precedes(resolution.names),
    decreases members,
{
    if members.len() > 0 {
        lemma_members_names_grow(members.drop_last(), names);
        match resolve_members(members.drop_last(), names) {
            Ok(front) => match members.last() {
                SchemaView::Ref(_) => {},
                SchemaView::Def(def) => match entity_title(def) {
                    Some(title) => match inline_name(title, front.names) {
                        Ok((name, after)) => {
                            lemma_entity_names_grow(def, name, after);
                        },
                        Err(_) => {},
                    },
                    None => {},
                },
            },
            Err(_) => {},
        }
    }
}

/// Resolving the `additionalProperties` of an object never takes a number
/// back.
pub proof fn lemma_additional_names_grow(extra: AdditionalPropertiesView, names: Naming)
    ensures
        resolve_additional(extra, names) matches Ok(resolution) ==> names.precedes(
            resolution.names,
        ),
    decreases extra,
{
    match extra {
        AdditionalPropertiesView::Schema(inner) => {
            lemma_schema_names_grow(*inner, names);
        },
        _ => {},
    }
}

/// Resolving a definition into an entity never takes a number back.
pub proof fn lemma_entity_names_grow(def: SchemaDefView, name: Seq<char>, names: Naming)
    ensures
        resolve_entity(def, name, names) matches Ok(resolution) ==> names.precedes(resolution.names),
    decreases def,
{
    match def {
        SchemaDefView::Object { properties, required, additional_properties, .. } => {
            lemma_additional_names_grow(additional_properties, names);
            match (resolve_additional(additional_properties, names), properties) {
                (Ok(extra), Some(list)) => {
                    lemma_properties_names_grow(list, required, extra.names);
                },
                _ => {},
            }
        },
        SchemaDefView::AllOf { all_of, .. } => {
            lemma_members_names_grow(all_of, names);
        },
        SchemaDefView::OneOf { one_of, .. } => {
            lemma_members_names_grow(one_of, names);
        },
        _ => {},
    }
}

/// A string schema with an `enum` constraint becomes an enumeration with
/// exactly the listed values, in order, under the next synthesized name.
pub proof fn lemma_enumeration_complete(values: Seq<Seq<char>>, names: Naming)
    requires
        names.next_enum < u64::MAX,
    ensures
        resolve_schema(
            SchemaView::Def(
                SchemaDefView::String { type_def: PrimitiveTypeView::Enum { enum_values: values } },
            ),
            names,
        ) == Ok::<FieldResolution, ResolveError>(
            FieldResolution {
                field_type: FieldTypeView::Named(anonymous_enum_name(names.next_enum as nat)),
                entities: seq![
                    EntityView {
                        name: anonymous_enum_name(names.next_enum as nat),
                        def: EntityDefView::Enum(values),
                    },
                ],
                names: Naming {
                    next_entity: names.next_entity,
                    next_enum: (names.next_enum + 1) as u64,
                },
            },
        ),
{
}

/// Whether a definition in field position becomes an entity with a
/// synthesized name: an object with properties, or a combinator, without a
/// title.
pub open spec fn untitled_entity(def: SchemaDefView) -> bool {
    match def {
        SchemaDefView::Object { title: None, properties: Some(_), .. } => true,
        SchemaDefView::AllOf { title: None, .. } => true,
        SchemaDefView::OneOf { title: None, .. } => true,
        _ => false,
    }
}

/// Two untitled inline entities that are resolved one after the other in
/// one run get different synthesized names, whatever is resolved between
/// them.
pub proof fn lemma_untitled_entities_differ(
    first: SchemaDefView,
    second: SchemaDefView,
    names: Naming,
    between: Naming,
)
    requires
        untitled_entity(first),
        untitled_entity(second),
        resolve_schema(SchemaView::Def(first), names) matches Ok(earlier) && earlier.names.precedes(
            between,
        ),
        resolve_schema(SchemaView::Def(second), between) is Ok,
    ensures
        resolve_schema(SchemaView::Def(first), names)->Ok_0.field_type is Named,
        resolve_schema(SchemaView::Def(second), between)->Ok_0.field_type is Named,
        resolve_schema(SchemaView::Def(first), names)->Ok_0.field_type != resolve_schema(
            SchemaView::Def(second),
            between,
        )->Ok_0.field_type,
{
    let (first_name, after) = fresh_entity_name(names)->Ok_0;
    lemma_entity_names_grow(first, first_name, after);
    lemma_synthesized_names_differ(names.next_entity as nat, between.next_entity as nat);
}

} // verus!
