//! The intermediate representation: a flat collection of named entities.

use vstd::prelude::*;
use crate::text::{all_distinct, clone_texts, distinct, keys, optional_text, views};

verus! {

/// The primitive kinds a field can have.
#[derive(Debug, Clone, Copy, PartialEq, Eq, Structural)]
pub enum Primitive {
    Int,
    U32,
    U64,
    Long,
    Float,
    Double,
    String,
    Bool,
    Uuid,
    Bytes,
}

/// The type of one struct member or combinator-member position.
#[derive(Debug, PartialEq, Eq)]
pub enum FieldType {
    /// A reference to another entity by its name.
    Named(String),
    /// A sequence of the given element type, or of unconstrained elements.
    Array(Option<Box<FieldType>>),
    /// A mapping from strings to the given value type, or to unconstrained
    /// values.
    Object(Option<Box<FieldType>>),
    /// A fixed-arity tuple of the given types, in order.
    Tuple(Vec<FieldType>),
    /// A primitive of the target language.
    Simple(Primitive),
    /// A type whose only value is the given literal of the given kind.
    Const(Primitive, String),
}

/// The mathematical value of a [`FieldType`].
pub enum FieldTypeView {
    Named(Seq<char>),
    Array(Option<Box<FieldTypeView>>),
    Object(Option<Box<FieldTypeView>>),
    Tuple(Seq<FieldTypeView>),
    Simple(Primitive),
    Const(Primitive, Seq<char>),
}

/// The mathematical value of a field type.
pub open spec fn field_type_view(field_type: FieldType) -> FieldTypeView
    decreases field_type,
{
    match field_type {
        FieldType::Named(name) => FieldTypeView::Named(name@),
        FieldType::Array(None) => FieldTypeView::Array(None),
        FieldType::Array(Some(item)) => FieldTypeView::Array(Some(Box::new(field_type_view(*item)))),
        FieldType::Object(None) => FieldTypeView::Object(None),
        FieldType::Object(Some(value)) => FieldTypeView::Object(
            Some(Box::new(field_type_view(*value))),
        ),
        FieldType::Tuple(items) => FieldTypeView::Tuple(field_type_views(items@)),
        FieldType::Simple(kind) => FieldTypeView::Simple(kind),
        FieldType::Const(kind, value) => FieldTypeView::Const(kind, value@),
    }
}

/// The mathematical values of a list of field types.
pub open spec fn field_type_views(types: Seq<FieldType>) -> Seq<FieldTypeView>
    decreases types,
{
    if types.len() == 0 {
        Seq::empty()
    } else {
        field_type_views(types.drop_last()).push(field_type_view(types.last()))
    }
}

impl View for FieldType {
    type V = FieldTypeView;

    open spec fn view(&self) -> FieldTypeView {
        field_type_view(*self)
    }
}

/// The views of a list are the views of its items, in order.
pub proof fn lemma_field_type_views(types: Seq<FieldType>)
    ensures
        field_type_views(types).len() == types.len(),
        forall|i: int| 0 <= i < types.len() ==> #[trigger] field_type_views(types)[i] == types[i]@,
    decreases types.len(),
{
    if types.len() > 0 {
        lemma_field_type_views(types.drop_last());
    }
}

impl Clone for FieldType {
    fn clone(&self) -> (out: Self)
        ensures
            out@ == self@,
        decreases self,
    {
        match self {
            FieldType::Named(name) => FieldType::Named(name.clone()),
            FieldType::Array(Some(item)) => {
                let item: &FieldType = item;
                FieldType::Array(Some(Box::new(item.clone())))
            },
            FieldType::Array(None) => FieldType::Array(None),
            FieldType::Object(Some(value)) => {
                let value: &FieldType = value;
                FieldType::Object(Some(Box::new(value.clone())))
            },
            FieldType::Object(None) => FieldType::Object(None),
            FieldType::Tuple(items) => FieldType::Tuple(clone_field_types(items)),
            FieldType::Simple(kind) => FieldType::Simple(*kind),
            FieldType::Const(kind, value) => FieldType::Const(*kind, value.clone()),
        }
    }
}

/// A copy of `types`.
pub fn clone_field_types(types: &Vec<FieldType>) -> (out: Vec<FieldType>)
    ensures
        field_type_views(out@) == field_type_views(types@),
    decreases types,
{
    let mut out: Vec<FieldType> = Vec::new();
    let mut i: usize = 0;
    while i < types.len()
        invariant
            i <= types.len(),
            out.len() == i,
            forall|j: int| 0 <= j < i ==> out[j]@ == types[j]@,
        decreases types.len() - i,
    {
        out.push(types[i].clone());
        i += 1;
    }
    proof {
        lemma_field_type_views(out@);
        lemma_field_type_views(types@);
        assert(field_type_views(out@) =~= field_type_views(types@));
    }
    out
}

/// One member of a struct entity.
#[derive(Debug, PartialEq, Eq)]
pub struct Field {
    pub optional: bool,
    pub field_type: FieldType,
}

/// The mathematical value of a [`Field`].
pub struct FieldView {
    pub optional: bool,
    pub field_type: FieldTypeView,
}

impl View for Field {
    type V = FieldView;

    open spec fn view(&self) -> FieldView {
        FieldView { optional: self.optional, field_type: self.field_type@ }
    }
}

impl Clone for Field {
    fn clone(&self) -> (out: Self)
        ensures
            out@ == self@,
    {
        Field { optional: self.optional, field_type: self.field_type.clone() }
    }
}

/// A product type: named members, and the type of the values that further,
/// undeclared members may have.
#[derive(Debug, PartialEq, Eq)]
pub struct StructDef {
    pub properties: Vec<(String, Field)>,
    pub additional_properties: Option<FieldType>,
}

/// The mathematical value of a [`StructDef`].
pub struct StructDefView {
    pub properties: Seq<(Seq<char>, FieldView)>,
    pub additional_properties: Option<FieldTypeView>,
}

/// The views of a list of named members.
pub open spec fn property_views(properties: Seq<(String, Field)>) -> Seq<(Seq<char>, FieldView)> {
    Seq::new(properties.len(), |i: int| (properties[i].0@, properties[i].1@))
}

/// The view of an optional field type.
pub open spec fn optional_type_view(field_type: Option<FieldType>) -> Option<FieldTypeView> {
    match field_type {
        Some(t) => Some(t@),
        None => None,
    }
}

impl View for StructDef {
    type V = StructDefView;

    open spec fn view(&self) -> StructDefView {
        StructDefView {
            properties: property_views(self.properties@),
            additional_properties: optional_type_view(self.additional_properties),
        }
    }
}

impl Clone for StructDef {
    fn clone(&self) -> (out: Self)
        ensures
            out@ == self@,
    {
        let mut properties: Vec<(String, Field)> = Vec::new();
        let mut i: usize = 0;
        while i < self.properties.len()
            invariant
                i <= self.properties.len(),
                properties.len() == i,
                forall|j: int|
                    0 <= j < i ==> properties[j].0@ == self.properties[j].0@ && properties[j].1@
                        == self.properties[j].1@,
            decreases self.properties.len() - i,
        {
            properties.push((self.properties[i].0.clone(), self.properties[i].1.clone()));
            i += 1;
        }
        assert(property_views(properties@) =~= property_views(self.properties@));
        let additional_properties = match &self.additional_properties {
            Some(extra) => Some(extra.clone()),
            None => None,
        };
        StructDef { properties, additional_properties }
    }
}

impl StructDef {
    /// Tells whether no two members have the same name.
    pub fn has_distinct_names(&self) -> (out: bool)
        ensures
            out == self@.distinct_names(),
    {
        let mut names: Vec<String> = Vec::new();
        let mut i: usize = 0;
        while i < self.properties.len()
            invariant
                i <= self.properties.len(),
                names.len() == i,
                forall|j: int| 0 <= j < i ==> names[j]@ == self.properties[j].0@,
            decreases self.properties.len() - i,
        {
            names.push(self.properties[i].0.clone());
            i += 1;
        }
        assert(views(names@) =~= keys(property_views(self.properties@)));
        all_distinct(&names)
    }
}

impl StructDefView {
    /// No two members have the same name.
    pub open spec fn distinct_names(self) -> bool {
        distinct(keys(self.properties))
    }
}

/// A closed set of literal values.
#[derive(Debug, PartialEq, Eq)]
pub struct EnumDef {
    pub values: Vec<String>,
}

impl Clone for EnumDef {
    fn clone(&self) -> (out: Self)
        ensures
            views(out.values@) == views(self.values@),
    {
        EnumDef { values: clone_texts(&self.values) }
    }
}

/// What an entity is.
#[derive(Debug, PartialEq, Eq)]
pub enum EntityDef {
    /// A product type.
    Struct(StructDef),
    /// An exclusive choice between the named entities, selected by the
    /// discriminant field where there is one.
    OneOf { discriminant: Option<String>, variants: Vec<String> },
    /// The composition of the named entities.
    AllOf(Vec<String>),
    /// A plain enumeration.
    Enum(EnumDef),
}

/// The mathematical value of an [`EntityDef`].
pub enum EntityDefView {
    Struct(StructDefView),
    OneOf { discriminant: Option<Seq<char>>, variants: Seq<Seq<char>> },
    AllOf(Seq<Seq<char>>),
    Enum(Seq<Seq<char>>),
}

impl View for EntityDef {
    type V = EntityDefView;

    open spec fn view(&self) -> EntityDefView {
        match self {
            EntityDef::Struct(def) => EntityDefView::Struct(def@),
            EntityDef::OneOf { discriminant, variants } => EntityDefView::OneOf {
                discriminant: optional_text(*discriminant),
                variants: views(variants@),
            },
            EntityDef::AllOf(members) => EntityDefView::AllOf(views(members@)),
            EntityDef::Enum(def) => EntityDefView::Enum(views(def.values@)),
        }
    }
}

impl Clone for EntityDef {
    fn clone(&self) -> (out: Self)
        ensures
            out@ == self@,
    {
        match self {
            EntityDef::Struct(def) => EntityDef::Struct(def.clone()),
            EntityDef::OneOf { discriminant, variants } => EntityDef::OneOf {
                discriminant: match discriminant {
                    Some(tag) => Some(tag.clone()),
                    None => None,
                },
                variants: clone_texts(variants),
            },
            EntityDef::AllOf(members) => EntityDef::AllOf(clone_texts(members)),
            EntityDef::Enum(def) => EntityDef::Enum(def.clone()),
        }
    }
}

/// One named type of the intermediate representation.
#[derive(Debug, PartialEq, Eq)]
pub struct Entity {
    pub name: String,
    pub def: EntityDef,
}

/// The mathematical value of an [`Entity`].
pub struct EntityView {
    pub name: Seq<char>,
    pub def: EntityDefView,
}

impl View for Entity {
    type V = EntityView;

    open spec fn view(&self) -> EntityView {
        EntityView { name: self.name@, def: self.def@ }
    }
}

impl Clone for Entity {
    fn clone(&self) -> (out: Self)
        ensures
            out@ == self@,
    {
        Entity { name: self.name.clone(), def: self.def.clone() }
    }
}

/// The views of a list of entities.
pub open spec fn entity_views(entities: Seq<Entity>) -> Seq<EntityView> {
    Seq::new(entities.len(), |i: int| entities[i]@)
}

} // verus!
