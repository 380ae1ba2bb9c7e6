//! The numbers that a resolution takes for the names of untitled entities.
//!
//! A run takes every number between the context it starts with and the
//! context it ends with, each once and in order: no two untitled entities of
//! a document get the same name.

use vstd::prelude::*;
use crate::ir::EntityView;
use crate::resolver::laws::{
    lemma_additional_names_grow, lemma_entity_names_grow, lemma_members_names_grow,
    lemma_properties_names_grow, lemma_schema_names_grow, lemma_tuple_names_grow,
};
use crate::resolver::naming::{
    Naming, anonymous_entity_name, fresh_entity_name, inline_name, lemma_synthesized_names_differ,
};
use crate::resolver::spec::{
    entity_title, resolve_additional, resolve_document, resolve_entity, resolve_entries,
    resolve_members, resolve_properties, resolve_schema, resolve_tuple,
};
use crate::schema::{AdditionalPropertiesView, SchemaDefView, SchemaView};

verus! {

/// The numbers from `from` up to `to`, without `to`.
pub open spec fn range(from: nat, to: nat) -> Seq<nat> {
    Seq::new((to - from) as nat, |i: int| (from + i) as nat)
}

/// Two ranges that meet make one.
pub proof fn lemma_range_concat(from: nat, middle: nat, to: nat)
    requires
        from <= middle <= to,
    ensures
        range(from, middle) + range(middle, to) == range(from, to),
{
    assert(range(from, middle) + range(middle, to) =~= range(from, to));
}

/// The numbers taken for an inline entity: the next number where it has no
/// title, then those taken for what is nested in it.
pub open spec fn taken_inline(def: SchemaDefView, names: Naming) -> Seq<nat>
    decreases def, 1nat,
{
    match entity_title(def) {
        Some(Some(_)) => taken_by_entity(def, names),
        Some(None) => match fresh_entity_name(names) {
            Ok((_, after)) => seq![names.next_entity as nat] + taken_by_entity(def, after),
            Err(_) => Seq::empty(),
        },
        None => Seq::empty(),
    }
}

/// The numbers taken while `schema` is resolved in field position.
pub open spec fn taken_by_schema(schema: SchemaView, names: Naming) -> Seq<nat>
    decreases schema, 0nat,
{
    match schema {
        SchemaView::Ref(_) => Seq::empty(),
        SchemaView::Def(def) => match def {
            SchemaDefView::Object {
                properties: None,
                additional_properties: AdditionalPropertiesView::Boolean(_),
                ..
            } => Seq::empty(),
            SchemaDefView::Object {
                properties: None,
                additional_properties: AdditionalPropertiesView::Schema(inner),
                ..
            } => taken_by_schema(*inner, names),
            SchemaDefView::String { .. } => Seq::empty(),
            SchemaDefView::Integer { .. } => Seq::empty(),
            SchemaDefView::Boolean => Seq::empty(),
            SchemaDefView::Number { .. } => Seq::empty(),
            SchemaDefView::Array { items: None } => Seq::empty(),
            SchemaDefView::Array { items: Some(item) } => taken_by_schema(*item, names),
            SchemaDefView::Tuple { prefix_items } => taken_by_tuple(prefix_items, names),
            _ => taken_inline(def, names),
        },
    }
}

/// The numbers taken while the tuple items `items` are resolved.
pub open spec fn taken_by_tuple(items: Seq<SchemaView>, names: Naming) -> Seq<nat>
    decreases items, 0nat,
{
    if items.len() == 0 {
        Seq::empty()
    } else {
        match resolve_tuple(items.drop_last(), names) {
            Ok(front) => taken_by_tuple(items.drop_last(), names) + taken_by_schema(
                items.last(),
                front.names,
            ),
            Err(_) => taken_by_tuple(items.drop_last(), names),
        }
    }
}

/// The numbers taken while the properties `properties` are resolved.
pub open spec fn taken_by_properties(
    properties: Seq<(Seq<char>, SchemaView)>,
    required: Seq<Seq<char>>,
    names: Naming,
) -> Seq<nat>
    decreases properties, 0nat,
{
    if properties.len() == 0 {
        Seq::empty()
    } else {
        match resolve_properties(properties.drop_last(), required, names) {
            Ok(front) => taken_by_properties(properties.drop_last(), required, names)
                + taken_by_schema(properties.last().1, front.names),
            Err(_) => taken_by_properties(properties.drop_last(), required, names),
        }
    }
}

/// The numbers taken while the combinator members `members` are resolved.
pub open spec fn taken_by_members(members: Seq<SchemaView>, names: Naming) -> Seq<nat>
    decreases members, 2nat,
{
    if members.len() == 0 {
        Seq::empty()
    } else {
        match (resolve_members(members.drop_last(), names), members.last()) {
            (Ok(front), SchemaView::Def(def)) => taken_by_members(members.drop_last(), names)
                + taken_inline(def, front.names),
            _ => taken_by_members(members.drop_last(), names),
        }
    }
}

/// The numbers taken while the `additionalProperties` of an object are
/// resolved.
pub open spec fn taken_by_additional(extra: AdditionalPropertiesView, names: Naming) -> Seq<nat>
    decreases extra, 0nat,
{
    match extra {
        AdditionalPropertiesView::Schema(inner) => taken_by_schema(*inner, names),
        AdditionalPropertiesView::Boolean(_) => Seq::empty(),
    }
}

/// The numbers taken while `def` is resolved into an entity.
pub open spec fn taken_by_entity(def: SchemaDefView, names: Naming) -> Seq<nat>
    decreases def, 0nat,
{
    match def {
        SchemaDefView::Object { properties, required, additional_properties, .. } => {
            match (resolve_additional(additional_properties, names), properties) {
                (Ok(extra), Some(list)) => taken_by_additional(additional_properties, names)
                    + taken_by_properties(list, required, extra.names),
                _ => taken_by_additional(additional_properties, names),
            }
        },
        SchemaDefView::AllOf { all_of, .. } => taken_by_members(all_of, names),
        SchemaDefView::OneOf { one_of, .. } => taken_by_members(one_of, names),
        _ => Seq::empty(),
    }
}

/// The numbers taken while the definitions `document` are resolved.
pub open spec fn taken_by_entries(document: Seq<(Seq<char>, SchemaDefView)>, names: Naming) -> Seq<
    nat,
>
    decreases document.len(),
{
    if document.len() == 0 {
        Seq::empty()
    } else {
        match resolve_entries(document.drop_last(), names) {
            Ok(front) => taken_by_entries(document.drop_last(), names) + taken_by_entity(
                document.last().1,
                front.names,
            ),
            Err(_) => taken_by_entries(document.drop_last(), names),
        }
    }
}

/// The numbers between the entity numbers of two contexts.
pub open spec fn between(names: Naming, later: Naming) -> Seq<nat> {
    range(names.next_entity as nat, later.next_entity as nat)
}

/// Resolving a schema takes the numbers between its contexts.
pub proof fn lemma_taken_by_schema(schema: SchemaView, names: Naming)
    ensures
        resolve_schema(schema, names) matches Ok(resolution) ==> taken_by_schema(schema, names)
            == between(names, resolution.names),
    decreases schema, 0nat,
{
    match resolve_schema(schema, names) {
        Ok(resolution) => {
            match schema {
                SchemaView::Ref(_) => {
                    assert(between(names, resolution.names) =~= Seq::empty());
                },
                SchemaView::Def(def) => match def {
                    SchemaDefView::Object {
                        properties: None,
                        additional_properties: AdditionalPropertiesView::Boolean(_),
                        ..
                    } => {
                        assert(between(names, resolution.names) =~= Seq::empty());
                    },
                    SchemaDefView::Object {
                        properties: None,
                        additional_properties: AdditionalPropertiesView::Schema(inner),
                        ..
                    } => {
                        lemma_taken_by_schema(*inner, names);
                    },
                    SchemaDefView::String { .. } => {
                        assert(between(names, resolution.names) =~= Seq::empty());
                    },
                    SchemaDefView::Integer { .. } => {
                        assert(between(names, resolution.names) =~= Seq::empty());
                    },
                    SchemaDefView::Boolean => {
                        assert(between(names, resolution.names) =~= Seq::empty());
                    },
                    SchemaDefView::Number { .. } => {
                        assert(between(names, resolution.names) =~= Seq::empty());
                    },
                    SchemaDefView::Array { items: None } => {
                        assert(between(names, resolution.names) =~= Seq::empty());
                    },
                    SchemaDefView::Array { items: Some(item) } => {
                        lemma_taken_by_schema(*item, names);
                    },
                    SchemaDefView::Tuple { prefix_items } => {
                        lemma_taken_by_tuple(prefix_items, names);
                    },
                    _ => {
                        lemma_taken_inline(def, names);
                    },
                },
            }
        },
        Err(_) => {},
    }
}

/// Resolving an inline entity takes the numbers between its contexts.
pub proof fn lemma_taken_inline(def: SchemaDefView, names: Naming)
    ensures
        entity_title(def) matches Some(title) ==> match inline_name(title, names) {
            Ok((name, after)) => resolve_entity(def, name, after) matches Ok(resolution)
                ==> taken_inline(def, names) == between(names, resolution.names),
            Err(_) => true,
        },
    decreases def, 1nat,
{
    match entity_title(def) {
        Some(title) => match inline_name(title, names) {
            Ok((name, after)) => {
                lemma_taken_by_entity(def, name, after);
                lemma_entity_names_grow(def, name, after);
                match resolve_entity(def, name, after) {
                    Ok(resolution) => {
                        if title is None {
                            assert(seq![names.next_entity as nat] =~= between(names, after));
                            lemma_range_concat(
                                names.next_entity as nat,
                                after.next_entity as nat,
                                resolution.names.next_entity as nat,
                            );
                        }
                    },
                    Err(_) => {},
                }
            },
            Err(_) => {},
        },
        None => {},
    }
}

/// Resolving the items of a tuple takes the numbers between its contexts.
pub proof fn lemma_taken_by_tuple(items: Seq<SchemaView>, names: Naming)
    ensures
        resolve_tuple(items, names) matches Ok(resolution) ==> taken_by_tuple(items, names)
            == between(names, resolution.names),
    decreases items, 0nat,
{
    if items.len() > 0 {
        match resolve_tuple(items.drop_last(), names) {
            Ok(front) => {
                lemma_taken_by_tuple(items.drop_last(), names);
                lemma_taken_by_schema(items.last(), front.names);
                lemma_tuple_names_grow(items.drop_last(), names);
                lemma_schema_names_grow(items.last(), front.names);
                match resolve_schema(items.last(), front.names) {
                    Ok(item) => {
                        lemma_range_concat(
                            names.next_entity as nat,
                            front.names.next_entity as nat,
                            item.names.next_entity as nat,
                        );
                    },
                    Err(_) => {},
                }
            },
            Err(_) => {},
        }
    } else {
        assert(between(names, names) =~= Seq::empty());
    }
}

/// Resolving the properties of an object takes the numbers between its
/// contexts.
pub proof fn lemma_taken_by_properties(
    properties: Seq<(Seq<char>, SchemaView)>,
    required: Seq<Seq<char>>,
    names: Naming,
)
    ensures
        resolve_properties(properties, required, names) matches Ok(resolution)
            ==> taken_by_properties(properties, required, names) == between(
            names,
            resolution.names,
        ),
    decreases properties, 0nat,
{
    if properties.len() > 0 {
        match resolve_properties(properties.drop_last(), required, names) {
            Ok(front) => {
                lemma_taken_by_properties(properties.drop_last(), required, names);
                lemma_taken_by_schema(properties.last().1, front.names);
                lemma_properties_names_grow(properties.drop_last(), required, names);
                lemma_schema_names_grow(properties.last().1, front.names);
                match resolve_schema(properties.last().1, front.names) {
                    Ok(member) => {
                        lemma_range_concat(
                            names.next_entity as nat,
                            front.names.next_entity as nat,
                            member.names.next_entity as nat,
                        );
                    },
                    Err(_) => {},
                }
            },
            Err(_) => {},
        }
    } else {
        assert(between(names, names) =~= Seq::empty());
    }
}

/// Resolving the members of a combinator takes the numbers between its
/// contexts.
pub proof fn lemma_taken_by_members(members: Seq<SchemaView>, names: Naming)
    ensures
        resolve_members(members, names) matches Ok(resolution) ==> taken_by_members(members, names)
            == between(names, resolution.names),
    decreases members, 2nat,
{
    if members.len() > 0 {
        match resolve_members(members.drop_last(), names) {
            Ok(front) => {
                lemma_taken_by_members(members.drop_last(), names);
                lemma_members_names_grow(members.drop_last(), names);
                lemma_members_names_grow(members, names);
                match resolve_members(members, names) {
                    Ok(resolution) => {
                        match members.last() {
                            SchemaView::Ref(_) => {},
                            SchemaView::Def(def) => {
                                lemma_taken_inline(def, front.names);
                                match inline_name(entity_title(def)->Some_0, front.names) {
                                    Ok((name, after)) => {
                                        lemma_entity_names_grow(def, name, after);
                                    },
                                    Err(_) => {},
                                }
                                lemma_range_concat(
                                    names.next_entity as nat,
                                    front.names.next_entity as nat,
                                    resolution.names.next_entity as nat,
                                );
                            },
                        }
                    },
                    Err(_) => {},
                }
            },
            Err(_) => {},
        }
    } else {
        assert(between(names, names) =~= Seq::empty());
    }
}

/// Resolving the `additionalProperties` of an object takes the numbers
/// between its contexts.
pub proof fn lemma_taken_by_additional(extra: AdditionalPropertiesView, names: Naming)
    ensures
        resolve_additional(extra, names) matches Ok(resolution) ==> taken_by_additional(
            extra,
            names,
        ) == between(names, resolution.names),
    decreases extra, 0nat,
{
    match extra {
        AdditionalPropertiesView::Schema(inner) => {
            lemma_taken_by_schema(*inner, names);
        },
        AdditionalPropertiesView::Boolean(_) => {
            assert(between(names, names) =~= Seq::empty());
        },
    }
}

/// Resolving a definition into an entity takes the numbers between its
/// contexts.
pub proof fn lemma_taken_by_entity(def: SchemaDefView, name: Seq<char>, names: Naming)
    ensures
        resolve_entity(def, name, names) matches Ok(resolution) ==> taken_by_entity(def, names)
            == between(names, resolution.names),
    decreases def, 0nat,
{
    match resolve_entity(def, name, names) {
        Ok(resolution) => match def {
            SchemaDefView::Object { properties, required, additional_properties, .. } => {
                lemma_taken_by_additional(additional_properties, names);
                lemma_additional_names_grow(additional_properties, names);
                let extra = resolve_additional(additional_properties, names)->Ok_0;
                match properties {
                    Some(list) => {
                        lemma_taken_by_properties(list, required, extra.names);
                        lemma_properties_names_grow(list, required, extra.names);
                        lemma_range_concat(
                            names.next_entity as nat,
                            extra.names.next_entity as nat,
                            resolution.names.next_entity as nat,
                        );
                    },
                    None => {},
                }
            },
            SchemaDefView::AllOf { all_of, .. } => {
                lemma_taken_by_members(all_of, names);
            },
            SchemaDefView::OneOf { one_of, .. } => {
                lemma_taken_by_members(one_of, names);
            },
            _ => {},
        },
        Err(_) => {},
    }
}

/// Resolving definitions one after the other takes the numbers between its
/// contexts.
pub proof fn lemma_taken_by_entries(document: Seq<(Seq<char>, SchemaDefView)>, names: Naming)
    ensures
        resolve_entries(document, names) matches Ok(resolution) ==> names.precedes(resolution.names)
            && taken_by_entries(document, names) == between(names, resolution.names),
    decreases document.len(),
{
    if document.len() > 0 {
        match resolve_entries(document.drop_last(), names) {
            Ok(front) => {
                lemma_taken_by_entries(document.drop_last(), names);
                lemma_taken_by_entity(document.last().1, document.last().0, front.names);
                lemma_entity_names_grow(document.last().1, document.last().0, front.names);
                match resolve_entity(document.last().1, document.last().0, front.names) {
                    Ok(entry) => {
                        lemma_range_concat(
                            names.next_entity as nat,
                            front.names.next_entity as nat,
                            entry.names.next_entity as nat,
                        );
                    },
                    Err(_) => {},
                }
            },
            Err(_) => {},
        }
    } else {
        assert(between(names, names) =~= Seq::empty());
    }
}

/// Whether one of the entities `entities` has the synthesized name with the
/// number `number`.
pub open spec fn is_named(entities: Seq<EntityView>, number: nat) -> bool {
    exists|e: int|
        0 <= e < entities.len() && (#[trigger] entities[e]).name == anonymous_entity_name(number)
}

/// Whether every one of the numbers `numbers` is the number of the name of
/// one of the entities `entities`.
pub open spec fn named_among(entities: Seq<EntityView>, numbers: Seq<nat>) -> bool {
    forall|k: int| 0 <= k < numbers.len() ==> is_named(entities, #[trigger] numbers[k])
}

/// A number that is named among entities is named among more.
proof fn lemma_is_named_among_more(
    before: Seq<EntityView>,
    entities: Seq<EntityView>,
    after: Seq<EntityView>,
    number: nat,
)
    requires
        is_named(entities, number),
    ensures
        is_named(before + entities + after, number),
{
    let e = choose|e: int|
        0 <= e < entities.len() && (#[trigger] entities[e]).name == anonymous_entity_name(number);
    let all = before + entities + after;
    assert(all[before.len() + e] == entities[e]);
}

/// Numbers that are named among two lists of entities are named among the
/// two lists together.
proof fn lemma_named_among_both(
    left: Seq<EntityView>,
    first: Seq<nat>,
    right: Seq<EntityView>,
    second: Seq<nat>,
)
    requires
        named_among(left, first),
        named_among(right, second),
    ensures
        named_among(left + right, first + second),
{
    let numbers = first + second;
    let none = Seq::<EntityView>::empty();
    assert forall|k: int| 0 <= k < numbers.len() implies is_named(
        left + right,
        #[trigger] numbers[k],
    ) by {
        if k < first.len() {
            assert(numbers[k] == first[k]);
            lemma_is_named_among_more(none, left, right, first[k]);
            assert(none + left + right =~= left + right);
        } else {
            assert(numbers[k] == second[k - first.len()]);
            lemma_is_named_among_more(left, right, none, second[k - first.len()]);
            assert(left + right + none =~= left + right);
        }
    }
}

/// Numbers that are named among entities are still named when an entity
/// joins them.
proof fn lemma_named_among_more(entities: Seq<EntityView>, numbers: Seq<nat>, entity: EntityView)
    requires
        named_among(entities, numbers),
    ensures
        named_among(entities.push(entity), numbers),
{
    let none = Seq::<EntityView>::empty();
    assert forall|k: int| 0 <= k < numbers.len() implies is_named(
        entities.push(entity),
        #[trigger] numbers[k],
    ) by {
        lemma_is_named_among_more(none, entities, seq![entity], numbers[k]);
        assert(none + entities + seq![entity] =~= entities.push(entity));
    }
}

/// Every number that resolving a schema takes names one of the entities
/// that the schema brings along.
pub proof fn lemma_schema_names_entities(schema: SchemaView, names: Naming)
    ensures
        resolve_schema(schema, names) matches Ok(resolution) ==> named_among(
            resolution.entities,
            taken_by_schema(schema, names),
        ),
    decreases schema, 0nat,
{
    match resolve_schema(schema, names) {
        Ok(resolution) => {
            match schema {
                SchemaView::Ref(_) => {},
                SchemaView::Def(def) => match def {
                    SchemaDefView::Object {
                        properties: None,
                        additional_properties: AdditionalPropertiesView::Boolean(_),
                        ..
                    } => {},
                    SchemaDefView::Object {
                        properties: None,
                        additional_properties: AdditionalPropertiesView::Schema(inner),
                        ..
                    } => {
                        lemma_schema_names_entities(*inner, names);
                    },
                    SchemaDefView::String { .. } => {},
                    SchemaDefView::Integer { .. } => {},
                    SchemaDefView::Boolean => {},
                    SchemaDefView::Number { .. } => {},
                    SchemaDefView::Array { items: None } => {},
                    SchemaDefView::Array { items: Some(item) } => {
                        lemma_schema_names_entities(*item, names);
                    },
                    SchemaDefView::Tuple { prefix_items } => {
                        lemma_tuple_names_entities(prefix_items, names);
                    },
                    _ => {
                        lemma_inline_names_entities(def, names);
                    },
                },
            }
        },
        Err(_) => {},
    }
}

/// Every number that resolving an inline entity takes names one of the
/// entities that it becomes; the number taken for the entity itself names
/// the last of them.
pub proof fn lemma_inline_names_entities(def: SchemaDefView, names: Naming)
    ensures
        entity_title(def) matches Some(title) ==> match inline_name(title, names) {
            Ok((name, after)) => resolve_entity(def, name, after) matches Ok(resolution)
                ==> named_among(resolution.entities, taken_inline(def, names)),
            Err(_) => true,
        },
    decreases def, 1nat,
{
    match entity_title(def) {
        Some(title) => match inline_name(title, names) {
            Ok((name, after)) => {
                lemma_entity_names_entities(def, name, after);
                match resolve_entity(def, name, after) {
                    Ok(resolution) => {
                        if title is None {
                            let entities = resolution.entities;
                            let nested = taken_by_entity(def, after);
                            let taken = taken_inline(def, names);
                            assert(entities[entities.len() - 1].name == name);
                            assert forall|k: int| 0 <= k < taken.len() implies is_named(
                                entities,
                                #[trigger] taken[k],
                            ) by {
                                if k > 0 {
                                    assert(taken[k] == nested[k - 1]);
                                    assert(is_named(entities, nested[k - 1]));
                                } else {
                                    assert(taken[0] == names.next_entity as nat);
                                }
                            }
                        }
                    },
                    Err(_) => {},
                }
            },
            Err(_) => {},
        },
        None => {},
    }
}

/// Every number that resolving the items of a tuple takes names one of the
/// entities that the items bring along.
pub proof fn lemma_tuple_names_entities(items: Seq<SchemaView>, names: Naming)
    ensures
        resolve_tuple(items, names) matches Ok(resolution) ==> named_among(
            resolution.entities,
            taken_by_tuple(items, names),
        ),
    decreases items, 0nat,
{
    if items.len() > 0 {
        match resolve_tuple(items.drop_last(), names) {
            Ok(front) => {
                lemma_tuple_names_entities(items.drop_last(), names);
                lemma_schema_names_entities(items.last(), front.names);
                match resolve_schema(items.last(), front.names) {
                    Ok(item) => {
                        lemma_named_among_both(
                            front.entities,
                            taken_by_tuple(items.drop_last(), names),
                            item.entities,
                            taken_by_schema(items.last(), front.names),
                        );
                    },
                    Err(_) => {},
                }
            },
            Err(_) => {},
        }
    }
}

/// Every number that resolving the properties of an object takes names one
/// of the entities that the properties bring along.
pub proof fn lemma_properties_names_entities(
    properties: Seq<(Seq<char>, SchemaView)>,
    required: Seq<Seq<char>>,
    names: Naming,
)
    ensures
        resolve_properties(properties, required, names) matches Ok(resolution) ==> named_among(
            resolution.entities,
            taken_by_properties(properties, required, names),
        ),
    decreases properties, 0nat,
{
    if properties.len() > 0 {
        match resolve_properties(properties.drop_last(), required, names) {
            Ok(front) => {
                lemma_properties_names_entities(properties.drop_last(), required, names);
                lemma_schema_names_entities(properties.last().1, front.names);
                match resolve_schema(properties.last().1, front.names) {
                    Ok(member) => {
                        lemma_named_among_both(
                            front.entities,
                            taken_by_properties(properties.drop_last(), required, names),
                            member.entities,
                            taken_by_schema(properties.last().1, front.names),
                        );
                    },
                    Err(_) => {},
                }
            },
            Err(_) => {},
        }
    }
}

/// Every number that resolving the members of a combinator takes names one
/// of the entities that the members become.
pub proof fn lemma_members_names_entities(members: Seq<SchemaView>, names: Naming)
    ensures
        resolve_members(members, names) matches Ok(resolution) ==> named_among(
            resolution.entities,
            taken_by_members(members, names),
        ),
    decreases members, 2nat,
{
    if members.len() > 0 {
        match resolve_members(members.drop_last(), names) {
            Ok(front) => {
                lemma_members_names_entities(members.drop_last(), names);
                match resolve_members(members, names) {
                    Ok(resolution) => {
                        match members.last() {
                            SchemaView::Ref(_) => {},
                            SchemaView::Def(def) => {
                                lemma_inline_names_entities(def, front.names);
                                let (name, after) = inline_name(
                                    entity_title(def)->Some_0,
                                    front.names,
                                )->Ok_0;
                                let nested = resolve_entity(def, name, after)->Ok_0;
                                lemma_named_among_both(
                                    front.entities,
                                    taken_by_members(members.drop_last(), names),
                                    nested.entities,
                                    taken_inline(def, front.names),
                                );
                            },
                        }
                    },
                    Err(_) => {},
                }
            },
            Err(_) => {},
        }
    }
}

/// Every number that resolving the `additionalProperties` of an object
/// takes names one of the entities that they bring along.
pub proof fn lemma_additional_names_entities(extra: AdditionalPropertiesView, names: Naming)
    ensures
        resolve_additional(extra, names) matches Ok(resolution) ==> named_among(
            resolution.entities,
            taken_by_additional(extra, names),
        ),
    decreases extra, 0nat,
{
    match extra {
        AdditionalPropertiesView::Schema(inner) => {
            lemma_schema_names_entities(*inner, names);
        },
        AdditionalPropertiesView::Boolean(_) => {},
    }
}

/// Every number that resolving a definition into an entity takes names one
/// of the entities nested in it.
pub proof fn lemma_entity_names_entities(def: SchemaDefView, name: Seq<char>, names: Naming)
    ensures
        resolve_entity(def, name, names) matches Ok(resolution) ==> named_among(
            resolution.entities,
            taken_by_entity(def, names),
        ),
    decreases def, 0nat,
{
    match resolve_entity(def, name, names) {
        Ok(resolution) => match def {
            SchemaDefView::Object { properties, required, additional_properties, .. } => {
                lemma_additional_names_entities(additional_properties, names);
                let extra = resolve_additional(additional_properties, names)->Ok_0;
                let entity = resolution.entities.last();
                match properties {
                    Some(list) => {
                        lemma_properties_names_entities(list, required, extra.names);
                        let members = resolve_properties(list, required, extra.names)->Ok_0;
                        lemma_named_among_both(
                            extra.entities,
                            taken_by_additional(additional_properties, names),
                            members.entities,
                            taken_by_properties(list, required, extra.names),
                        );
                        lemma_named_among_more(
                            extra.entities + members.entities,
                            taken_by_entity(def, names),
                            entity,
                        );
                    },
                    None => {
                        assert(extra.entities + Seq::<EntityView>::empty() =~= extra.entities);
                        lemma_named_among_more(
                            extra.entities,
                            taken_by_entity(def, names),
                            entity,
                        );
                    },
                }
            },
            SchemaDefView::AllOf { all_of, .. } => {
                lemma_members_names_entities(all_of, names);
                let composed = resolve_members(all_of, names)->Ok_0;
                lemma_named_among_more(
                    composed.entities,
                    taken_by_entity(def, names),
                    resolution.entities.last(),
                );
            },
            SchemaDefView::OneOf { one_of, .. } => {
                lemma_members_names_entities(one_of, names);
                let choice = resolve_members(one_of, names)->Ok_0;
                lemma_named_among_more(
                    choice.entities,
                    taken_by_entity(def, names),
                    resolution.entities.last(),
                );
            },
            _ => {},
        },
        Err(_) => {},
    }
}

/// Every number that resolving definitions one after the other takes names
/// one of the entities of the result.
pub proof fn lemma_entries_names_entities(
    document: Seq<(Seq<char>, SchemaDefView)>,
    names: Naming,
)
    ensures
        resolve_entries(document, names) matches Ok(resolution) ==> named_among(
            resolution.entities,
            taken_by_entries(document, names),
        ),
    decreases document.len(),
{
    if document.len() > 0 {
        match resolve_entries(document.drop_last(), names) {
            Ok(front) => {
                lemma_entries_names_entities(document.drop_last(), names);
                lemma_entity_names_entities(document.last().1, document.last().0, front.names);
                match resolve_entity(document.last().1, document.last().0, front.names) {
                    Ok(entry) => {
                        lemma_named_among_both(
                            front.entities,
                            taken_by_entries(document.drop_last(), names),
                            entry.entities,
                            taken_by_entity(document.last().1, front.names),
                        );
                    },
                    Err(_) => {},
                }
            },
            Err(_) => {},
        }
    }
}

/// The names that a whole document synthesizes for its untitled entities
/// are pairwise different, wherever in the document the entities stand: the
/// numbers taken are those between the contexts of the run, each once, and
/// each names an entity of the result.
pub proof fn lemma_document_names_differ(
    document: Seq<(Seq<char>, SchemaDefView)>,
    names: Naming,
    i: int,
    j: int,
)
    requires
        resolve_document(document, names) is Ok,
        0 <= i < j < taken_by_entries(document, names).len(),
    ensures
        taken_by_entries(document, names) == between(
            names,
            resolve_document(document, names)->Ok_0.names,
        ),
        named_among(
            resolve_document(document, names)->Ok_0.entities,
            taken_by_entries(document, names),
        ),
        anonymous_entity_name(taken_by_entries(document, names)[i]) != anonymous_entity_name(
            taken_by_entries(document, names)[j],
        ),
{
    lemma_taken_by_entries(document, names);
    lemma_entries_names_entities(document, names);
    let taken = taken_by_entries(document, names);
    lemma_synthesized_names_differ(taken[i], taken[j]);
}

} // verus!
