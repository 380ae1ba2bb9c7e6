//! The Rust emitter: one type declaration per entity.
//!
//! Every piece that comes from an entity (a name, a type, a literal) is lexed
//! on its own before it is placed in a declaration, so that no piece can
//! change the structure of the text around it.

pub mod expand;
pub mod spec;
pub mod templates;

pub use self::expand::{expand_field_type, expand_field_types};
pub use self::spec::Part;
pub use self::templates::{
    catch_all_declaration, enum_declaration, flattened_declaration, member_declaration,
    struct_declaration, tag_attribute, variant_declaration,
};

use vstd::prelude::*;
use vstd::string::*;
use crate::generator::{par_map, snake_case};
use crate::generator::rust_gen::spec::{
    code_spec, entities_code, entity_code, lexed, member_code, members_code, part_code, parts_code,
    struct_code,
};
use crate::ir::{
    Entity, EntityDef, EntityView, Field, FieldType, FieldView, StructDef, entity_views,
    property_views,
};
use crate::text::{join, views};
use crate::tokens::{lex, quote_string};

verus! {

/// Why an entity cannot be emitted.
#[derive(Debug, Clone, Copy, PartialEq, Eq, Structural)]
pub enum EmitError {
    /// A literal type of a kind that has no literal form.
    UnsupportedLiteral,
    /// A name, a type or a value that does not lex as Rust tokens.
    NotTokens,
    /// Two members of a struct with the same name.
    DuplicateMember,
}

impl EmitError {
    /// The reason of the failure, in words.
    pub open spec fn reason_text(self) -> Seq<char> {
        match self {
            EmitError::UnsupportedLiteral => "a literal of this kind has no literal type"@,
            EmitError::NotTokens => "a name, a type or a value does not lex as Rust tokens"@,
            EmitError::DuplicateMember => "two members of a struct have the same name"@,
        }
    }

    /// The reason of the failure, in words.
    pub fn reason(&self) -> (out: &'static str)
        ensures
            out@ == self.reason_text(),
    {
        match self {
            EmitError::UnsupportedLiteral => "a literal of this kind has no literal type",
            EmitError::NotTokens => "a name, a type or a value does not lex as Rust tokens",
            EmitError::DuplicateMember => "two members of a struct have the same name",
        }
    }
}

/// The mathematical value of an emitted text or a failure.
pub open spec fn text_result_view(out: Result<String, EmitError>) -> Result<Seq<char>, EmitError> {
    match out {
        Ok(text) => Ok(text@),
        Err(e) => Err(e),
    }
}

/// The mathematical value of a list of emitted texts or a failure.
pub open spec fn texts_result_view(out: Result<Vec<String>, EmitError>) -> Result<
    Seq<Seq<char>>,
    EmitError,
> {
    match out {
        Ok(texts) => Ok(views(texts@)),
        Err(e) => Err(e),
    }
}

/// Lexes one piece of a declaration.
pub fn lex_piece(piece: &str) -> (out: Result<String, EmitError>)
    ensures
        text_result_view(out) == lexed(piece@),
{
    match lex(piece) {
        Some(tokens) => Ok(tokens),
        None => Err(EmitError::NotTokens),
    }
}

/// A failure among the first `k` members is the failure of the whole.
proof fn lemma_members_failure(properties: Seq<(Seq<char>, FieldView)>, k: int)
    requires
        0 <= k <= properties.len(),
        members_code(properties.take(k)) is Err,
    ensures
        members_code(properties) == members_code(properties.take(k)),
    decreases properties.len(),
{
    if k < properties.len() {
        assert(properties.drop_last().take(k) == properties.take(k));
        lemma_members_failure(properties.drop_last(), k);
    } else {
        assert(properties.take(k) == properties);
    }
}

/// A failure among the first `k` parts is the failure of the whole.
proof fn lemma_parts_failure(part: Part, names: Seq<Seq<char>>, k: int)
    requires
        0 <= k <= names.len(),
        parts_code(part, names.take(k)) is Err,
    ensures
        parts_code(part, names) == parts_code(part, names.take(k)),
    decreases names.len(),
{
    if k < names.len() {
        assert(names.drop_last().take(k) == names.take(k));
        lemma_parts_failure(part, names.drop_last(), k);
    } else {
        assert(names.take(k) == names);
    }
}

/// A failure among the first `k` entities is the failure of the whole.
proof fn lemma_entities_failure(entities: Seq<EntityView>, k: int)
    requires
        0 <= k <= entities.len(),
        entities_code(entities.take(k)) is Err,
    ensures
        entities_code(entities) == entities_code(entities.take(k)),
    decreases entities.len(),
{
    if k < entities.len() {
        assert(entities.drop_last().take(k) == entities.take(k));
        lemma_entities_failure(entities.drop_last(), k);
    } else {
        assert(entities.take(k) == entities);
    }
}

/// Emits the member `name` of a struct.
pub fn generate_member(name: &String, field: &Field) -> (out: Result<String, EmitError>)
    ensures
        text_result_view(out) == member_code(name@, field@),
{
    let expanded = match expand_field_type(&field.field_type) {
        Ok(expanded) => expanded,
        Err(e) => {
            return Err(e);
        },
    };
    let field_type = match lex_piece(expanded.as_str()) {
        Ok(field_type) => field_type,
        Err(e) => {
            return Err(e);
        },
    };
    let identifier = match lex_piece(snake_case(name.as_str()).as_str()) {
        Ok(identifier) => identifier,
        Err(e) => {
            return Err(e);
        },
    };
    let wire_literal = quote_string(name.as_str());
    Ok(
        member_declaration(
            wire_literal.as_str(),
            identifier.as_str(),
            field_type.as_str(),
            field.optional,
        ),
    )
}

/// Emits the members `properties` of a struct, in order.
pub fn generate_members(properties: &Vec<(String, Field)>) -> (out: Result<Vec<String>, EmitError>)
    ensures
        texts_result_view(out) == members_code(property_views(properties@)),
{
    let mut members: Vec<String> = Vec::new();
    let mut i: usize = 0;
    let ghost all = property_views(properties@);
    proof {
        assert(all.take(0) =~= Seq::empty());
        assert(views(members@) =~= Seq::empty());
    }
    while i < properties.len()
        invariant
            i <= properties.len(),
            all == property_views(properties@),
            members_code(all.take(i as int)) == Ok::<Seq<Seq<char>>, EmitError>(views(members@)),
        decreases properties.len() - i,
    {
        proof {
            assert(all.take(i as int + 1).drop_last() == all.take(i as int));
            assert(all.take(i as int + 1).last() == (properties[i as int].0@, properties[i as int].1@));
        }
        let ghost before = views(members@);
        match generate_member(&properties[i].0, &properties[i].1) {
            Ok(member) => {
                members.push(member);
                assert(views(members@) =~= before.push(member@));
            },
            Err(e) => {
                proof {
                    lemma_members_failure(all, i as int + 1);
                }
                return Err(e);
            },
        }
        i += 1;
    }
    proof {
        assert(all.take(properties.len() as int) == all);
    }
    Ok(members)
}

/// Emits the part of a declaration that stands for the name `name`.
pub fn generate_part(part: Part, name: &String) -> (out: Result<String, EmitError>)
    ensures
        text_result_view(out) == part_code(part, name@),
{
    match part {
        Part::Flattened => {
            let member = match lex_piece(snake_case(name.as_str()).as_str()) {
                Ok(member) => member,
                Err(e) => {
                    return Err(e);
                },
            };
            match lex_piece(name.as_str()) {
                Ok(field_type) => Ok(flattened_declaration(member.as_str(), field_type.as_str())),
                Err(e) => Err(e),
            }
        },
        Part::Variant => match lex_piece(name.as_str()) {
            Ok(variant) => Ok(variant_declaration(variant.as_str())),
            Err(e) => Err(e),
        },
        Part::Value => lex_piece(name.as_str()),
    }
}

/// Emits the parts of a declaration that stand for the names `names`, in
/// order.
pub fn generate_parts(part: Part, names: &Vec<String>) -> (out: Result<Vec<String>, EmitError>)
    ensures
        texts_result_view(out) == parts_code(part, views(names@)),
{
    let mut parts: Vec<String> = Vec::new();
    let mut i: usize = 0;
    let ghost all = views(names@);
    proof {
        assert(all.take(0) =~= Seq::empty());
        assert(views(parts@) =~= Seq::empty());
    }
    while i < names.len()
        invariant
            i <= names.len(),
            all == views(names@),
            parts_code(part, all.take(i as int)) == Ok::<Seq<Seq<char>>, EmitError>(views(parts@)),
        decreases names.len() - i,
    {
        proof {
            assert(all.take(i as int + 1).drop_last() == all.take(i as int));
            assert(all.take(i as int + 1).last() == names[i as int]@);
        }
        let ghost before = views(parts@);
        match generate_part(part, &names[i]) {
            Ok(piece) => {
                parts.push(piece);
                assert(views(parts@) =~= before.push(piece@));
            },
            Err(e) => {
                proof {
                    lemma_parts_failure(part, all, i as int + 1);
                }
                return Err(e);
            },
        }
        i += 1;
    }
    proof {
        assert(all.take(names.len() as int) == all);
    }
    Ok(parts)
}

/// Emits the declaration of a struct entity.
pub fn generate_struct(identifier: &str, def: &StructDef) -> (out: Result<String, EmitError>)
    ensures
        text_result_view(out) == struct_code(identifier@, def@),
{
    if !def.has_distinct_names() {
        return Err(EmitError::DuplicateMember);
    }
    let mut members = match generate_members(&def.properties) {
        Ok(members) => members,
        Err(e) => {
            return Err(e);
        },
    };
    match &def.additional_properties {
        Some(extra) => {
            let value = match extra {
                FieldType::Object(Some(value)) => expand_field_type(value),
                FieldType::Object(None) => Ok(String::from_str("serde_json::Value")),
                _ => expand_field_type(extra),
            };
            let expanded = match value {
                Ok(expanded) => expanded,
                Err(e) => {
                    return Err(e);
                },
            };
            let value_type = match lex_piece(expanded.as_str()) {
                Ok(value_type) => value_type,
                Err(e) => {
                    return Err(e);
                },
            };
            let ghost before = views(members@);
            let catch_all = catch_all_declaration(value_type.as_str());
            members.push(catch_all);
            assert(views(members@) =~= before.push(catch_all@));
        },
        None => {},
    }
    Ok(struct_declaration(identifier, &members))
}

/// Emits the declaration of one entity.
pub fn generate_entity(entity: &Entity) -> (out: Result<String, EmitError>)
    ensures
        text_result_view(out) == entity_code(entity@),
{
    let identifier = match lex_piece(entity.name.as_str()) {
        Ok(identifier) => identifier,
        Err(e) => {
            return Err(e);
        },
    };
    match &entity.def {
        EntityDef::Struct(def) => generate_struct(identifier.as_str(), def),
        EntityDef::OneOf { discriminant, variants } => match generate_parts(
            Part::Variant,
            variants,
        ) {
            Ok(variants) => match discriminant {
                Some(tag) => {
                    let attribute = tag_attribute(quote_string(tag.as_str()).as_str());
                    Ok(enum_declaration(attribute.as_str(), identifier.as_str(), &variants))
                },
                None => Ok(enum_declaration(" #[serde(untagged)]", identifier.as_str(), &variants)),
            },
            Err(e) => Err(e),
        },
        EntityDef::AllOf(composed) => match generate_parts(Part::Flattened, composed) {
            Ok(members) => Ok(struct_declaration(identifier.as_str(), &members)),
            Err(e) => Err(e),
        },
        EntityDef::Enum(def) => match generate_parts(Part::Value, &def.values) {
            Ok(variants) => {
                proof {
                    reveal_strlit("");
                    assert(""@ =~= Seq::empty());
                }
                Ok(enum_declaration("", identifier.as_str(), &variants))
            },
            Err(e) => Err(e),
        },
    }
}

/// Gathers the declarations of `entities` from what emitting each of them
/// gave: all of them, in order, or the first failure.
pub fn collect_declarations(
    entities: &Vec<Entity>,
    emitted: &Vec<Result<String, EmitError>>,
) -> (out: Result<Vec<String>, EmitError>)
    requires
        emitted.len() == entities.len(),
        forall|i: int|
            0 <= i < emitted.len() ==> text_result_view(#[trigger] emitted[i]) == entity_code(
                entities[i]@,
            ),
    ensures
        texts_result_view(out) == entities_code(entity_views(entities@)),
{
    let mut declarations: Vec<String> = Vec::new();
    let mut i: usize = 0;
    let ghost all = entity_views(entities@);
    proof {
        assert(all.take(0) =~= Seq::empty());
        assert(views(declarations@) =~= Seq::empty());
    }
    while i < emitted.len()
        invariant
            i <= emitted.len(),
            emitted.len() == entities.len(),
            all == entity_views(entities@),
            forall|j: int|
                0 <= j < emitted.len() ==> text_result_view(#[trigger] emitted[j]) == entity_code(
                    entities[j]@,
                ),
            entities_code(all.take(i as int)) == Ok::<Seq<Seq<char>>, EmitError>(
                views(declarations@),
            ),
        decreases emitted.len() - i,
    {
        proof {
            assert(all.take(i as int + 1).drop_last() == all.take(i as int));
            assert(all.take(i as int + 1).last() == entities[i as int]@);
        }
        let ghost before = views(declarations@);
        match &emitted[i] {
            Ok(declaration) => {
                declarations.push(declaration.clone());
                assert(views(declarations@) =~= before.push(declaration@));
            },
            Err(e) => {
                proof {
                    lemma_entities_failure(all, i as int + 1);
                }
                return Err(*e);
            },
        }
        i += 1;
    }
    proof {
        assert(all.take(entities.len() as int) == all);
    }
    Ok(declarations)
}

/// Emits the source text for `entities`: exactly one declaration for each
/// entity, in the order of the entities.
pub fn generate_code(entities: Vec<Entity>) -> (out: Result<String, EmitError>)
    ensures
        text_result_view(out) == code_spec(entity_views(entities@)),
{
    let emitted = par_map(&entities, generate_entity);
    match collect_declarations(&entities, &emitted) {
        Ok(declarations) => Ok(join(&declarations, "\n")),
        Err(e) => Err(e),
    }
}

} // verus!
