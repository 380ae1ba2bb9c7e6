//! The resolver: from the schema grammar to a flat list of entities.
//!
//! Every inline object or combinator becomes an entity of its own, named by
//! its title or by a synthesized name. Synthesized names are numbered by a
//! [`Naming`] context that the caller owns and that is handed through the
//! whole resolution: the same document and context always give the same
//! names.
//!
//! [`spec`] says what is resolved to what, the functions here compute it,
//! [`laws`] holds what follows for every document, and [`taken`] that no
//! two untitled entities of a document get the same name.

pub mod laws;
pub mod naming;
pub mod spec;
pub mod taken;

pub use self::naming::{Naming, generate_enum_name, generate_struct_name, inline_entity_name};

use vstd::prelude::*;
use vstd::string::*;
use crate::ir::{
    Entity, EntityDef, EnumDef, Field, FieldType, Primitive, StructDef, entity_views,
    field_type_views, optional_type_view, property_views,
};
use crate::resolver::spec::{
    AdditionalResolution, EntityResolution, FieldResolution, MemberResolution, PropertyResolution,
    TupleResolution, entity_title, resolve_additional, resolve_document, resolve_entity,
    resolve_entries, resolve_members, resolve_properties, resolve_schema, resolve_tuple,
};
use crate::schema::{
    AdditionalProperties, Format, PrimitiveType, Schema, SchemaDef, SchemaDefView, SchemaView,
    distinct_definitions, distinct_properties, document_view, lemma_property_schema_views,
    lemma_schema_views, property_schema_views, schema_views,
};
use crate::text::{clone_texts, contains_text, optional_text, views};

verus! {

/// Why a document cannot be resolved.
#[derive(Debug, Clone, Copy, PartialEq, Eq, Structural)]
pub enum ResolveError {
    /// An `anyOf` combinator, which is not supported.
    UnsupportedAnyOf,
    /// A schema that is no object and no combinator where an entity is needed.
    NotAnEntity,
    /// A `const` or `enum` constraint on an integer or a number.
    UnsupportedNumericConstraint,
    /// A combinator member that is neither a reference, an object nor a
    /// combinator.
    MalformedCombinator,
    /// No number is left for a synthesized name.
    NamesExhausted,
    /// Two properties of an object or two definitions of a document with the
    /// same name.
    DuplicateName,
}

impl ResolveError {
    /// The reason of the failure, in words.
    pub open spec fn reason_text(self) -> Seq<char> {
        match self {
            ResolveError::UnsupportedAnyOf => "anyOf is not supported"@,
            ResolveError::NotAnEntity =>
                "only an object, an allOf or a oneOf can be resolved into an entity"@,
            ResolveError::UnsupportedNumericConstraint =>
                "const and enum are not supported on integers and numbers"@,
            ResolveError::MalformedCombinator =>
                "a combinator member must be a reference, an object or a combinator"@,
            ResolveError::NamesExhausted => "no number is left for a synthesized name"@,
            ResolveError::DuplicateName => "a name occurs twice in a list of named schemas"@,
        }
    }

    /// The reason of the failure, in words.
    pub fn reason(&self) -> (out: &'static str)
        ensures
            out@ == self.reason_text(),
    {
        match self {
            ResolveError::UnsupportedAnyOf => "anyOf is not supported",
            ResolveError::NotAnEntity =>
                "only an object, an allOf or a oneOf can be resolved into an entity",
            ResolveError::UnsupportedNumericConstraint =>
                "const and enum are not supported on integers and numbers",
            ResolveError::MalformedCombinator =>
                "a combinator member must be a reference, an object or a combinator",
            ResolveError::NamesExhausted => "no number is left for a synthesized name",
            ResolveError::DuplicateName => "a name occurs twice in a list of named schemas",
        }
    }
}

/// The mathematical value of what [`parse_schema`] returns.
pub open spec fn field_result_view(
    out: Result<(FieldType, Vec<Entity>, Naming), ResolveError>,
) -> Result<FieldResolution, ResolveError> {
    match out {
        Ok((field_type, entities, names)) => Ok(
            FieldResolution { field_type: field_type@, entities: entity_views(entities@), names },
        ),
        Err(e) => Err(e),
    }
}

/// The mathematical value of what [`parse_tuple`] returns.
pub open spec fn tuple_result_view(
    out: Result<(Vec<FieldType>, Vec<Entity>, Naming), ResolveError>,
) -> Result<TupleResolution, ResolveError> {
    match out {
        Ok((types, entities, names)) => Ok(
            TupleResolution {
                types: field_type_views(types@),
                entities: entity_views(entities@),
                names,
            },
        ),
        Err(e) => Err(e),
    }
}

/// The mathematical value of what [`parse_additional`] returns.
pub open spec fn additional_result_view(
    out: Result<(Option<FieldType>, Vec<Entity>, Naming), ResolveError>,
) -> Result<AdditionalResolution, ResolveError> {
    match out {
        Ok((field_type, entities, names)) => Ok(
            AdditionalResolution {
                field_type: optional_type_view(field_type),
                entities: entity_views(entities@),
                names,
            },
        ),
        Err(e) => Err(e),
    }
}

/// The mathematical value of what [`parse_properties`] returns.
pub open spec fn property_result_view(
    out: Result<(Vec<(String, Field)>, Vec<Entity>, Naming), ResolveError>,
) -> Result<PropertyResolution, ResolveError> {
    match out {
        Ok((properties, entities, names)) => Ok(
            PropertyResolution {
                properties: property_views(properties@),
                entities: entity_views(entities@),
                names,
            },
        ),
        Err(e) => Err(e),
    }
}

/// The mathematical value of what [`parse_combinator_schemas`] returns.
pub open spec fn member_result_view(
    out: Result<(Vec<String>, Vec<Entity>, Naming), ResolveError>,
) -> Result<MemberResolution, ResolveError> {
    match out {
        Ok((members, entities, names)) => Ok(
            MemberResolution { members: views(members@), entities: entity_views(entities@), names },
        ),
        Err(e) => Err(e),
    }
}

/// The mathematical value of what [`parse_entity`] returns.
pub open spec fn entity_result_view(out: Result<(Vec<Entity>, Naming), ResolveError>) -> Result<
    EntityResolution,
    ResolveError,
> {
    match out {
        Ok((entities, names)) => Ok(EntityResolution { entities: entity_views(entities@), names }),
        Err(e) => Err(e),
    }
}

/// The title of a definition that becomes an entity.
fn title_of(def: &SchemaDef) -> (title: Option<&Option<String>>)
    ensures
        match entity_title(def@) {
            Some(t) => title matches Some(found) && optional_text(*found) == t,
            None => title is None,
        },
{
    match def {
        SchemaDef::Object { title, .. } => Some(title),
        SchemaDef::AllOf { title, .. } => Some(title),
        SchemaDef::OneOf { title, .. } => Some(title),
        SchemaDef::AnyOf { title, .. } => Some(title),
        _ => None,
    }
}

/// A failure among the first `k` tuple items is the failure of the whole.
proof fn lemma_tuple_failure(items: Seq<SchemaView>, k: int, names: Naming)
    requires
        0 <= k <= items.len(),
        resolve_tuple(items.take(k), names) is Err,
    ensures
        resolve_tuple(items, names) == resolve_tuple(items.take(k), names),
    decreases items.len(),
{
    if k < items.len() {
        assert(items.drop_last().take(k) == items.take(k));
        lemma_tuple_failure(items.drop_last(), k, names);
    } else {
        assert(items.take(k) == items);
    }
}

/// A failure among the first `k` properties is the failure of the whole.
proof fn lemma_properties_failure(
    properties: Seq<(Seq<char>, SchemaView)>,
    k: int,
    required: Seq<Seq<char>>,
    names: Naming,
)
    requires
        0 <= k <= properties.len(),
        resolve_properties(properties.take(k), required, names) is Err,
    ensures
        resolve_properties(properties, required, names) == resolve_properties(
            properties.take(k),
            required,
            names,
        ),
    decreases properties.len(),
{
    if k < properties.len() {
        assert(properties.drop_last().take(k) == properties.take(k));
        lemma_properties_failure(properties.drop_last(), k, required, names);
    } else {
        assert(properties.take(k) == properties);
    }
}

/// A failure among the first `k` members is the failure of the whole.
proof fn lemma_members_failure(members: Seq<SchemaView>, k: int, names: Naming)
    requires
        0 <= k <= members.len(),
        resolve_members(members.take(k), names) is Err,
    ensures
        resolve_members(members, names) == resolve_members(members.take(k), names),
    decreases members.len(),
{
    if k < members.len() {
        assert(members.drop_last().take(k) == members.take(k));
        lemma_members_failure(members.drop_last(), k, names);
    } else {
        assert(members.take(k) == members);
    }
}

/// A failure among the first `k` definitions is the failure of the whole.
proof fn lemma_document_failure(
    document: Seq<(Seq<char>, SchemaDefView)>,
    k: int,
    names: Naming,
)
    requires
        0 <= k <= document.len(),
        resolve_entries(document.take(k), names) is Err,
    ensures
        resolve_entries(document, names) == resolve_entries(document.take(k), names),
    decreases document.len(),
{
    if k < document.len() {
        assert(document.drop_last().take(k) == document.take(k));
        lemma_document_failure(document.drop_last(), k, names);
    } else {
        assert(document.take(k) == document);
    }
}

/// Resolves a schema in field position: its field type, and the entities
/// that it brings along.
pub fn parse_schema(schema: &Schema, names: Naming) -> (out: Result<
    (FieldType, Vec<Entity>, Naming),
    ResolveError,
>)
    ensures
        field_result_view(out) == resolve_schema(schema@, names),
    decreases schema,
{
    match schema {
        Schema::Ref(reference) => {
            let name = String::from_str(reference.get_schema_name());
            let entities: Vec<Entity> = Vec::new();
            assert(entity_views(entities@) =~= Seq::empty());
            Ok((FieldType::Named(name), entities, names))
        },
        Schema::Def(def) => match def {
            SchemaDef::Object {
                properties: None,
                additional_properties: AdditionalProperties::Boolean(_),
                ..
            } => {
                let entities: Vec<Entity> = Vec::new();
                assert(entity_views(entities@) =~= Seq::empty());
                Ok((FieldType::Object(None), entities, names))
            },
            SchemaDef::Object {
                properties: None,
                additional_properties: AdditionalProperties::Schema(inner),
                ..
            } => match parse_schema(inner, names) {
                Ok((value, entities, after)) => Ok(
                    (FieldType::Object(Some(Box::new(value))), entities, after),
                ),
                Err(e) => Err(e),
            },
            SchemaDef::String { type_def: PrimitiveType::Const { const_value } } => {
                let entities: Vec<Entity> = Vec::new();
                assert(entity_views(entities@) =~= Seq::empty());
                Ok((FieldType::Const(Primitive::String, const_value.clone()), entities, names))
            },
            SchemaDef::String { type_def: PrimitiveType::Enum { enum_values } } => {
                match generate_enum_name(names) {
                    Ok((name, after)) => {
                        let field_type = FieldType::Named(name.clone());
                        let entity = Entity {
                            name,
                            def: EntityDef::Enum(EnumDef { values: clone_texts(enum_values) }),
                        };
                        let mut entities: Vec<Entity> = Vec::new();
                        entities.push(entity);
                        assert(entity_views(entities@) =~= seq![entity@]);
                        Ok((field_type, entities, after))
                    },
                    Err(e) => Err(e),
                }
            },
            SchemaDef::String { type_def: PrimitiveType::Basic { format, .. } } => {
                let kind = match format {
                    Some(Format::Uuid) => Primitive::Uuid,
                    Some(Format::Byte) => Primitive::Bytes,
                    _ => Primitive::String,
                };
                let entities: Vec<Entity> = Vec::new();
                assert(entity_views(entities@) =~= Seq::empty());
                Ok((FieldType::Simple(kind), entities, names))
            },
            SchemaDef::Integer { type_def: PrimitiveType::Basic { format, minimum } } => {
                let unsigned = match minimum {
                    Some(m) => *m >= 0,
                    None => false,
                };
                let kind = match format {
                    Some(Format::Int64) => if unsigned {
                        Primitive::U64
                    } else {
                        Primitive::Long
                    },
                    Some(Format::Int32) => if unsigned {
                        Primitive::U32
                    } else {
                        Primitive::Int
                    },
                    _ => Primitive::Int,
                };
                let entities: Vec<Entity> = Vec::new();
                assert(entity_views(entities@) =~= Seq::empty());
                Ok((FieldType::Simple(kind), entities, names))
            },
            SchemaDef::Integer { .. } => Err(ResolveError::UnsupportedNumericConstraint),
            SchemaDef::Boolean => {
                let entities: Vec<Entity> = Vec::new();
                assert(entity_views(entities@) =~= Seq::empty());
                Ok((FieldType::Simple(Primitive::Bool), entities, names))
            },
            SchemaDef::Number { type_def: PrimitiveType::Basic { format, .. } } => {
                let kind = match format {
                    Some(Format::Double) => Primitive::Double,
                    _ => Primitive::Float,
                };
                let entities: Vec<Entity> = Vec::new();
                assert(entity_views(entities@) =~= Seq::empty());
                Ok((FieldType::Simple(kind), entities, names))
            },
            SchemaDef::Number { .. } => Err(ResolveError::UnsupportedNumericConstraint),
            SchemaDef::Array { items: None } => {
                let entities: Vec<Entity> = Vec::new();
                assert(entity_views(entities@) =~= Seq::empty());
                Ok((FieldType::Array(None), entities, names))
            },
            SchemaDef::Array { items: Some(item) } => match parse_schema(item, names) {
                Ok((element, entities, after)) => Ok(
                    (FieldType::Array(Some(Box::new(element))), entities, after),
                ),
                Err(e) => Err(e),
            },
            SchemaDef::Tuple { prefix_items } => match parse_tuple(prefix_items, names) {
                Ok((types, entities, after)) => {
                    let field_type = FieldType::Tuple(types);
                    Ok((field_type, entities, after))
                },
                Err(e) => Err(e),
            },
            _ => {
                let title = title_of(def).unwrap();
                match inline_entity_name(title, names) {
                    Ok((name, after)) => match parse_entity(def, name.clone(), after) {
                        Ok((entities, last)) => Ok((FieldType::Named(name), entities, last)),
                        Err(e) => Err(e),
                    },
                    Err(e) => Err(e),
                }
            },
        },
    }
}

/// Resolves the items of a tuple, in order.
pub fn parse_tuple(items: &Vec<Schema>, names: Naming) -> (out: Result<
    (Vec<FieldType>, Vec<Entity>, Naming),
    ResolveError,
>)
    ensures
        tuple_result_view(out) == resolve_tuple(schema_views(items@), names),
    decreases items,
{
    let mut types: Vec<FieldType> = Vec::new();
    let mut entities: Vec<Entity> = Vec::new();
    let mut current = names;
    let mut i: usize = 0;
    let ghost all = schema_views(items@);
    proof {
        lemma_schema_views(items@);
    }
    assert(all.take(0) =~= Seq::empty());
    assert(field_type_views(types@) =~= Seq::empty());
    assert(entity_views(entities@) =~= Seq::empty());
    while i < items.len()
        invariant
            i <= items.len(),
            all == schema_views(items@),
            all.len() == items.len(),
            forall|j: int| 0 <= j < items.len() ==> all[j] == items[j]@,
            resolve_tuple(all.take(i as int), names) == Ok::<TupleResolution, ResolveError>(
                TupleResolution {
                    types: field_type_views(types@),
                    entities: entity_views(entities@),
                    names: current,
                },
            ),
        decreases items.len() - i,
    {
        proof {
            assert(all.take(i as int + 1).drop_last() == all.take(i as int));
            assert(all.take(i as int + 1).last() == items[i as int]@);
        }
        let ghost old_types = types@;
        let ghost entities_before = entity_views(entities@);
        match parse_schema(&items[i], current) {
            Ok((item, mut nested, after)) => {
                let ghost nested_view = entity_views(nested@);
                types.push(item);
                entities.append(&mut nested);
                current = after;
                proof {
                    assert(types@.drop_last() == old_types);
                    assert(entity_views(entities@) =~= entities_before + nested_view);
                }
            },
            Err(e) => {
                proof {
                    lemma_tuple_failure(all, i as int + 1, names);
                }
                return Err(e);
            },
        }
        i += 1;
    }
    proof {
        assert(all.take(items.len() as int) == all);
    }
    Ok((types, entities, current))
}

/// Resolves the `additionalProperties` of an object.
pub fn parse_additional(extra: &AdditionalProperties, names: Naming) -> (out: Result<
    (Option<FieldType>, Vec<Entity>, Naming),
    ResolveError,
>)
    ensures
        additional_result_view(out) == resolve_additional(extra@, names),
    decreases extra,
{
    match extra {
        AdditionalProperties::Boolean(false) => {
            let entities: Vec<Entity> = Vec::new();
            assert(entity_views(entities@) =~= Seq::empty());
            Ok((None, entities, names))
        },
        AdditionalProperties::Boolean(true) => {
            let entities: Vec<Entity> = Vec::new();
            assert(entity_views(entities@) =~= Seq::empty());
            Ok((Some(FieldType::Object(None)), entities, names))
        },
        AdditionalProperties::Schema(inner) => match parse_schema(inner, names) {
            Ok((value, entities, after)) => Ok(
                (Some(FieldType::Object(Some(Box::new(value)))), entities, after),
            ),
            Err(e) => Err(e),
        },
    }
}

/// Resolves the properties of an object, in order.
pub fn parse_properties(
    properties: &Vec<(String, Schema)>,
    required: &Vec<String>,
    names: Naming,
) -> (out: Result<(Vec<(String, Field)>, Vec<Entity>, Naming), ResolveError>)
    ensures
        property_result_view(out) == resolve_properties(
            property_schema_views(properties@),
            views(required@),
            names,
        ),
    decreases properties,
{
    let mut members: Vec<(String, Field)> = Vec::new();
    let mut entities: Vec<Entity> = Vec::new();
    let mut current = names;
    let mut i: usize = 0;
    let ghost all = property_schema_views(properties@);
    proof {
        lemma_property_schema_views(properties@);
    }
    assert(all.take(0) =~= Seq::empty());
    assert(property_views(members@) =~= Seq::empty());
    assert(entity_views(entities@) =~= Seq::empty());
    while i < properties.len()
        invariant
            i <= properties.len(),
            all == property_schema_views(properties@),
            all.len() == properties.len(),
            forall|j: int|
                0 <= j < properties.len() ==> all[j] == (properties[j].0@, properties[j].1@),
            resolve_properties(all.take(i as int), views(required@), names) == Ok::<
                PropertyResolution,
                ResolveError,
            >(
                PropertyResolution {
                    properties: property_views(members@),
                    entities: entity_views(entities@),
                    names: current,
                },
            ),
        decreases properties.len() - i,
    {
        proof {
            assert(all.take(i as int + 1).drop_last() == all.take(i as int));
            assert(all.take(i as int + 1).last() == (properties[i as int].0@, properties[i as int].1@));
        }
        let ghost members_before = property_views(members@);
        let ghost entities_before = entity_views(entities@);
        match parse_schema(&properties[i].1, current) {
            Ok((field_type, mut nested, after)) => {
                let ghost nested_view = entity_views(nested@);
                let field = Field {
                    optional: !contains_text(required, &properties[i].0),
                    field_type,
                };
                let ghost member = (properties[i as int].0@, field@);
                members.push((properties[i].0.clone(), field));
                entities.append(&mut nested);
                current = after;
                proof {
                    assert(property_views(members@) =~= members_before.push(member));
                    assert(entity_views(entities@) =~= entities_before + nested_view);
                }
            },
            Err(e) => {
                proof {
                    lemma_properties_failure(all, i as int + 1, views(required@), names);
                }
                return Err(e);
            },
        }
        i += 1;
    }
    proof {
        assert(all.take(properties.len() as int) == all);
    }
    Ok((members, entities, current))
}

/// Resolves the members of a combinator to entity names, in order, and the
/// inline members to entities.
pub fn parse_combinator_schemas(schemas: &Vec<Schema>, names: Naming) -> (out: Result<
    (Vec<String>, Vec<Entity>, Naming),
    ResolveError,
>)
    ensures
        member_result_view(out) == resolve_members(schema_views(schemas@), names),
    decreases schemas,
{
    let mut members: Vec<String> = Vec::new();
    let mut entities: Vec<Entity> = Vec::new();
    let mut current = names;
    let mut i: usize = 0;
    let ghost all = schema_views(schemas@);
    proof {
        lemma_schema_views(schemas@);
    }
    assert(all.take(0) =~= Seq::empty());
    assert(views(members@) =~= Seq::empty());
    assert(entity_views(entities@) =~= Seq::empty());
    while i < schemas.len()
        invariant
            i <= schemas.len(),
            all == schema_views(schemas@),
            all.len() == schemas.len(),
            forall|j: int| 0 <= j < schemas.len() ==> all[j] == schemas[j]@,
            resolve_members(all.take(i as int), names) == Ok::<MemberResolution, ResolveError>(
                MemberResolution {
                    members: views(members@),
                    entities: entity_views(entities@),
                    names: current,
                },
            ),
        decreases schemas.len() - i,
    {
        proof {
            assert(all.take(i as int + 1).drop_last() == all.take(i as int));
            assert(all.take(i as int + 1).last() == schemas[i as int]@);
        }
        let ghost members_before = views(members@);
        let ghost entities_before = entity_views(entities@);
        match &schemas[i] {
            Schema::Ref(reference) => {
                let name = String::from_str(reference.get_schema_name());
                members.push(name);
                proof {
                    assert(views(members@) =~= members_before.push(name@));
                }
            },
            Schema::Def(def) => {
                let title = match title_of(def) {
                    Some(title) => title,
                    None => {
                        proof {
                            lemma_members_failure(all, i as int + 1, names);
                        }
                        return Err(ResolveError::MalformedCombinator);
                    },
                };
                let (name, after) = match inline_entity_name(title, current) {
                    Ok(named) => named,
                    Err(e) => {
                        proof {
                            lemma_members_failure(all, i as int + 1, names);
                        }
                        return Err(e);
                    },
                };
                match parse_entity(def, name.clone(), after) {
                    Ok((mut nested, last)) => {
                        let ghost nested_view = entity_views(nested@);
                        members.push(name);
                        entities.append(&mut nested);
                        current = last;
                        proof {
                            assert(views(members@) =~= members_before.push(name@));
                            assert(entity_views(entities@) =~= entities_before + nested_view);
                        }
                    },
                    Err(e) => {
                        proof {
                            lemma_members_failure(all, i as int + 1, names);
                        }
                        return Err(e);
                    },
                }
            },
        }
        i += 1;
    }
    proof {
        assert(all.take(schemas.len() as int) == all);
    }
    Ok((members, entities, current))
}

/// Resolves a definition into the entity `name`: the entities nested in it
/// come first, the entity itself is the last of the list.
pub fn parse_entity(def: &SchemaDef, name: String, names: Naming) -> (out: Result<
    (Vec<Entity>, Naming),
    ResolveError,
>)
    ensures
        entity_result_view(out) == resolve_entity(def@, name@, names),
    decreases def,
{
    match def {
        SchemaDef::Object { properties, required, additional_properties, .. } => {
            let (extra, mut entities, after) = match parse_additional(additional_properties, names) {
                Ok(extra) => extra,
                Err(e) => {
                    return Err(e);
                },
            };
            let ghost extra_entities = entity_views(entities@);
            let (members, mut nested, last) = match properties {
                Some(list) => match (if distinct_properties(list) {
                    parse_properties(list, required, after)
                } else {
                    Err(ResolveError::DuplicateName)
                }) {
                    Ok(members) => members,
                    Err(e) => {
                        return Err(e);
                    },
                },
                None => {
                    let members: Vec<(String, Field)> = Vec::new();
                    let nested: Vec<Entity> = Vec::new();
                    assert(property_views(members@) =~= Seq::empty());
                    assert(entity_views(nested@) =~= Seq::empty());
                    (members, nested, after)
                },
            };
            let ghost nested_view = entity_views(nested@);
            let entity = Entity {
                name,
                def: EntityDef::Struct(StructDef { properties: members, additional_properties: extra }),
            };
            entities.append(&mut nested);
            entities.push(entity);
            proof {
                assert(entity_views(entities@) =~= (extra_entities + nested_view).push(entity@));
            }
            Ok((entities, last))
        },
        SchemaDef::AllOf { all_of, .. } => match parse_combinator_schemas(all_of, names) {
            Ok((members, mut entities, after)) => {
                let ghost nested_view = entity_views(entities@);
                let entity = Entity { name, def: EntityDef::AllOf(members) };
                entities.push(entity);
                proof {
                    assert(entity_views(entities@) =~= nested_view.push(entity@));
                }
                Ok((entities, after))
            },
            Err(e) => Err(e),
        },
        SchemaDef::OneOf { one_of, discriminator, .. } => match parse_combinator_schemas(
            one_of,
            names,
        ) {
            Ok((variants, mut entities, after)) => {
                let ghost nested_view = entity_views(entities@);
                let entity = Entity {
                    name,
                    def: EntityDef::OneOf { discriminant: discriminator.clone(), variants },
                };
                entities.push(entity);
                proof {
                    assert(entity_views(entities@) =~= nested_view.push(entity@));
                }
                Ok((entities, after))
            },
            Err(e) => Err(e),
        },
        SchemaDef::AnyOf { .. } => Err(ResolveError::UnsupportedAnyOf),
        _ => Err(ResolveError::NotAnEntity),
    }
}

/// Resolves a document with a naming context of the caller's: the entities
/// of each definition in the order of the document, and the context after
/// the run.
pub fn resolve_collection(schema: &Vec<(String, SchemaDef)>, names: Naming) -> (out: Result<
    (Vec<Entity>, Naming),
    ResolveError,
>)
    ensures
        entity_result_view(out) == resolve_document(document_view(schema@), names),
{
    if !distinct_definitions(schema) {
        return Err(ResolveError::DuplicateName);
    }
    let mut entities: Vec<Entity> = Vec::new();
    let mut current = names;
    let mut i: usize = 0;
    let ghost all = document_view(schema@);
    assert(all.take(0) =~= Seq::empty());
    assert(entity_views(entities@) =~= Seq::empty());
    while i < schema.len()
        invariant
            i <= schema.len(),
            all == document_view(schema@),
            resolve_document(document_view(schema@), names) == resolve_entries(all, names),
            resolve_entries(all.take(i as int), names) == Ok::<EntityResolution, ResolveError>(
                EntityResolution { entities: entity_views(entities@), names: current },
            ),
        decreases schema.len() - i,
    {
        proof {
            assert(all.take(i as int + 1).drop_last() == all.take(i as int));
            assert(all.take(i as int + 1).last() == (schema[i as int].0@, schema[i as int].1@));
        }
        let ghost entities_before = entity_views(entities@);
        match parse_entity(&schema[i].1, schema[i].0.clone(), current) {
            Ok((mut entry, after)) => {
                let ghost entry_view = entity_views(entry@);
                entities.append(&mut entry);
                current = after;
                proof {
                    assert(entity_views(entities@) =~= entities_before + entry_view);
                }
            },
            Err(e) => {
                proof {
                    lemma_document_failure(all, i as int + 1, names);
                }
                return Err(e);
            },
        }
        i += 1;
    }
    proof {
        assert(all.take(schema.len() as int) == all);
    }
    Ok((entities, current))
}

/// Resolves a document in a run of its own, with both numberings of
/// synthesized names starting at 1.
pub fn parse_schema_def_collection(schema: Vec<(String, SchemaDef)>) -> (out: Result<
    Vec<Entity>,
    ResolveError,
>)
    ensures
        match resolve_document(document_view(schema@), Naming { next_entity: 1, next_enum: 1 }) {
            Ok(resolution) => out matches Ok(entities) && entity_views(entities@)
                == resolution.entities,
            Err(e) => out matches Err(f) && f == e,
        },
{
    match resolve_collection(&schema, Naming::new()) {
        Ok((entities, _)) => Ok(entities),
        Err(e) => Err(e),
    }
}

} // verus!
