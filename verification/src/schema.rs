//! The schema grammar: the shapes a raw schema document is made of.
//!
//! These types are data only. A document is a list of named definitions; an
//! object's properties are a list of named schemas. Both stand for
//! mappings: the resolver refuses a list in which a name occurs twice.

use vstd::prelude::*;
use vstd::string::*;
use crate::text::{all_distinct, chars_of, clone_texts, distinct, keys, optional_text, views};

verus! {

/// A reference to another top-level definition, by a path that ends in its
/// name.
#[derive(Debug)]
pub struct SchemaRef {
    pub schema_path: String,
}

/// Where the last segment of `path` starts: after the last `/`, or at 0 if
/// there is none.
pub open spec fn last_segment_start(path: Seq<char>) -> int
    decreases path.len(),
{
    if path.len() == 0 {
        0
    } else if path.last() == '/' {
        path.len() as int
    } else {
        last_segment_start(path.drop_last())
    }
}

/// The name a reference path ends in: what follows its last `/`.
pub open spec fn schema_name(path: Seq<char>) -> Seq<char> {
    path.skip(last_segment_start(path))
}

/// `last_segment_start` is the start of the longest suffix without `/`.
pub proof fn lemma_last_segment(path: Seq<char>)
    ensures
        0 <= last_segment_start(path) <= path.len(),
        forall|i: int| last_segment_start(path) <= i < path.len() ==> path[i] != '/',
        last_segment_start(path) > 0 ==> path[last_segment_start(path) - 1] == '/',
    decreases path.len(),
{
    if path.len() > 0 && path.last() != '/' {
        let front = path.drop_last();
        lemma_last_segment(front);
        assert forall|i: int| last_segment_start(path) <= i < path.len() implies path[i] != '/' by {
            if i < front.len() {
                assert(front[i] == path[i]);
            }
        }
        if last_segment_start(path) > 0 {
            assert(front[last_segment_start(path) - 1] == path[last_segment_start(path) - 1]);
        }
    }
}

impl Clone for SchemaRef {
    fn clone(&self) -> (out: Self)
        ensures
            out.schema_path@ == self.schema_path@,
    {
        SchemaRef { schema_path: self.schema_path.clone() }
    }
}

impl SchemaRef {
    /// The name of the definition this reference points to.
    pub fn get_schema_name(&self) -> (name: &str)
        ensures
            name@ == schema_name(self.schema_path@),
    {
        let chars = chars_of(self.schema_path.as_str());
        let mut start: usize = 0;
        let mut i: usize = 0;
        while i < chars.len()
            invariant
                i <= chars.len(),
                start <= i,
                start == last_segment_start(chars@.take(i as int)),
            decreases chars.len() - i,
        {
            proof {
                assert(chars@.take(i as int + 1).drop_last() == chars@.take(i as int));
            }
            if chars[i] == '/' {
                start = i + 1;
            }
            i += 1;
        }
        proof {
            assert(chars@.take(chars.len() as int) == chars@);
        }
        self.schema_path.as_str().substring_char(start, chars.len())
    }
}

/// The `type` keyword of a schema.
#[derive(Debug, Clone, Copy, PartialEq, Eq, Structural)]
pub enum SchemaType {
    Object,
    String,
    Integer,
    Number,
    Array,
}

/// The `format` hint of a primitive schema.
#[derive(Debug, Clone, Copy, PartialEq, Eq, Structural)]
pub enum Format {
    Int32,
    Int64,
    Float,
    Double,
    Byte,
    Binary,
    Date,
    Uuid,
    DateTime,
}

/// The constraint on a primitive schema with values of type `T`.
#[derive(Debug, Clone)]
pub enum PrimitiveType<T> {
    /// Exactly one value is allowed.
    Const { const_value: T },
    /// One of the listed values is allowed.
    Enum { enum_values: Vec<T> },
    /// Any value is allowed, with a format hint and a lower bound.
    Basic { format: Option<Format>, minimum: Option<T> },
}

/// What an object allows besides its declared properties.
#[derive(Debug)]
pub enum AdditionalProperties {
    Boolean(bool),
    Schema(Box<Schema>),
}

impl Default for AdditionalProperties {
    fn default() -> (out: Self)
        ensures
            out == AdditionalProperties::Boolean(false),
    {
        AdditionalProperties::Boolean(false)
    }
}

/// A schema definition. Numbers are kept as their decimal text.
#[allow(inconsistent_fields)]
#[derive(Debug)]
pub enum SchemaDef {
    Object {
        title: Option<String>,
        additional_properties: AdditionalProperties,
        properties: Option<Vec<(String, Schema)>>,
        required: Vec<String>,
    },
    String { type_def: PrimitiveType<String> },
    Integer { type_def: PrimitiveType<i64> },
    Boolean,
    Number { type_def: PrimitiveType<String> },
    Array { items: Option<Box<Schema>> },
    Tuple { prefix_items: Vec<Schema> },
    AllOf { title: Option<String>, all_of: Vec<Schema> },
    OneOf { title: Option<String>, one_of: Vec<Schema>, discriminator: Option<String> },
    AnyOf { title: Option<String>, any_of: Vec<Schema> },
}

/// Either a reference to a definition or a definition itself.
#[derive(Debug)]
pub enum Schema {
    Ref(SchemaRef),
    Def(SchemaDef),
}

/// The mathematical value of a [`PrimitiveType`].
pub enum PrimitiveTypeView<T> {
    Const { const_value: T },
    Enum { enum_values: Seq<T> },
    Basic { format: Option<Format>, minimum: Option<T> },
}

/// The mathematical value of an [`AdditionalProperties`].
pub enum AdditionalPropertiesView {
    Boolean(bool),
    Schema(Box<SchemaView>),
}

/// The mathematical value of a [`SchemaDef`].
#[allow(inconsistent_fields)]
pub enum SchemaDefView {
    Object {
        title: Option<Seq<char>>,
        additional_properties: AdditionalPropertiesView,
        properties: Option<Seq<(Seq<char>, SchemaView)>>,
        required: Seq<Seq<char>>,
    },
    String { type_def: PrimitiveTypeView<Seq<char>> },
    Integer { type_def: PrimitiveTypeView<i64> },
    Boolean,
    Number { type_def: PrimitiveTypeView<Seq<char>> },
    Array { items: Option<Box<SchemaView>> },
    Tuple { prefix_items: Seq<SchemaView> },
    AllOf { title: Option<Seq<char>>, all_of: Seq<SchemaView> },
    OneOf { title: Option<Seq<char>>, one_of: Seq<SchemaView>, discriminator: Option<Seq<char>> },
    AnyOf { title: Option<Seq<char>>, any_of: Seq<SchemaView> },
}

/// The mathematical value of a [`Schema`]: a reference is the path it
/// holds.
pub enum SchemaView {
    Ref(Seq<char>),
    Def(SchemaDefView),
}

/// The mathematical value of a constraint on texts.
pub open spec fn text_constraint_view(constraint: PrimitiveType<String>) -> PrimitiveTypeView<
    Seq<char>,
> {
    match constraint {
        PrimitiveType::Const { const_value } => PrimitiveTypeView::Const {
            const_value: const_value@,
        },
        PrimitiveType::Enum { enum_values } => PrimitiveTypeView::Enum {
            enum_values: views(enum_values@),
        },
        PrimitiveType::Basic { format, minimum } => PrimitiveTypeView::Basic {
            format,
            minimum: optional_text(minimum),
        },
    }
}

/// The mathematical value of a constraint on integers.
pub open spec fn integer_constraint_view(constraint: PrimitiveType<i64>) -> PrimitiveTypeView<i64> {
    match constraint {
        PrimitiveType::Const { const_value } => PrimitiveTypeView::Const { const_value },
        PrimitiveType::Enum { enum_values } => PrimitiveTypeView::Enum { enum_values: enum_values@ },
        PrimitiveType::Basic { format, minimum } => PrimitiveTypeView::Basic { format, minimum },
    }
}

/// The mathematical value of a schema.
pub open spec fn schema_view(schema: Schema) -> SchemaView
    decreases schema,
{
    match schema {
        Schema::Ref(reference) => SchemaView::Ref(reference.schema_path@),
        Schema::Def(def) => SchemaView::Def(schema_def_view(def)),
    }
}

/// The mathematical value of what an object allows besides its properties.
pub open spec fn additional_view(extra: AdditionalProperties) -> AdditionalPropertiesView
    decreases extra,
{
    match extra {
        AdditionalProperties::Boolean(allowed) => AdditionalPropertiesView::Boolean(allowed),
        AdditionalProperties::Schema(inner) => AdditionalPropertiesView::Schema(
            Box::new(schema_view(*inner)),
        ),
    }
}

/// The mathematical value of a definition.
pub open spec fn schema_def_view(def: SchemaDef) -> SchemaDefView
    decreases def,
{
    match def {
        SchemaDef::Object { title, additional_properties, properties, required } => {
            SchemaDefView::Object {
                title: optional_text(title),
                additional_properties: additional_view(additional_properties),
                properties: match properties {
                    Some(list) => Some(property_schema_views(list@)),
                    None => None,
                },
                required: views(required@),
            }
        },
        SchemaDef::String { type_def } => SchemaDefView::String {
            type_def: text_constraint_view(type_def),
        },
        SchemaDef::Integer { type_def } => SchemaDefView::Integer {
            type_def: integer_constraint_view(type_def),
        },
        SchemaDef::Boolean => SchemaDefView::Boolean,
        SchemaDef::Number { type_def } => SchemaDefView::Number {
            type_def: text_constraint_view(type_def),
        },
        SchemaDef::Array { items: Some(item) } => SchemaDefView::Array {
            items: Some(Box::new(schema_view(*item))),
        },
        SchemaDef::Array { items: None } => SchemaDefView::Array { items: None },
        SchemaDef::Tuple { prefix_items } => SchemaDefView::Tuple {
            prefix_items: schema_views(prefix_items@),
        },
        SchemaDef::AllOf { title, all_of } => SchemaDefView::AllOf {
            title: optional_text(title),
            all_of: schema_views(all_of@),
        },
        SchemaDef::OneOf { title, one_of, discriminator } => SchemaDefView::OneOf {
            title: optional_text(title),
            one_of: schema_views(one_of@),
            discriminator: optional_text(discriminator),
        },
        SchemaDef::AnyOf { title, any_of } => SchemaDefView::AnyOf {
            title: optional_text(title),
            any_of: schema_views(any_of@),
        },
    }
}

/// The mathematical values of a list of schemas.
pub open spec fn schema_views(schemas: Seq<Schema>) -> Seq<SchemaView>
    decreases schemas,
{
    if schemas.len() == 0 {
        Seq::empty()
    } else {
        schema_views(schemas.drop_last()).push(schema_view(schemas.last()))
    }
}

/// The mathematical values of a list of named schemas.
pub open spec fn property_schema_views(properties: Seq<(String, Schema)>) -> Seq<
    (Seq<char>, SchemaView),
>
    decreases properties,
{
    if properties.len() == 0 {
        Seq::empty()
    } else {
        property_schema_views(properties.drop_last()).push(
            (properties.last().0@, schema_view(properties.last().1)),
        )
    }
}

/// The mathematical value of a document.
pub open spec fn document_view(document: Seq<(String, SchemaDef)>) -> Seq<
    (Seq<char>, SchemaDefView),
> {
    Seq::new(document.len(), |i: int| (document[i].0@, schema_def_view(document[i].1)))
}

impl View for Schema {
    type V = SchemaView;

    open spec fn view(&self) -> SchemaView {
        schema_view(*self)
    }
}

impl View for SchemaDef {
    type V = SchemaDefView;

    open spec fn view(&self) -> SchemaDefView {
        schema_def_view(*self)
    }
}

impl View for AdditionalProperties {
    type V = AdditionalPropertiesView;

    open spec fn view(&self) -> AdditionalPropertiesView {
        additional_view(*self)
    }
}

/// A copy of a constraint on texts.
pub fn clone_text_constraint(constraint: &PrimitiveType<String>) -> (out: PrimitiveType<String>)
    ensures
        text_constraint_view(out) == text_constraint_view(*constraint),
{
    match constraint {
        PrimitiveType::Const { const_value } => PrimitiveType::Const {
            const_value: const_value.clone(),
        },
        PrimitiveType::Enum { enum_values } => PrimitiveType::Enum {
            enum_values: clone_texts(enum_values),
        },
        PrimitiveType::Basic { format, minimum } => PrimitiveType::Basic {
            format: *format,
            minimum: match minimum {
                Some(bound) => Some(bound.clone()),
                None => None,
            },
        },
    }
}

/// A copy of a constraint on integers.
pub fn clone_integer_constraint(constraint: &PrimitiveType<i64>) -> (out: PrimitiveType<i64>)
    ensures
        integer_constraint_view(out) == integer_constraint_view(*constraint),
{
    match constraint {
        PrimitiveType::Const { const_value } => PrimitiveType::Const { const_value: *const_value },
        PrimitiveType::Enum { enum_values } => {
            let mut values: Vec<i64> = Vec::new();
            let mut i: usize = 0;
            while i < enum_values.len()
                invariant
                    i <= enum_values.len(),
                    values@ == enum_values@.take(i as int),
                decreases enum_values.len() - i,
            {
                values.push(enum_values[i]);
                assert(enum_values@.take(i as int + 1) =~= enum_values@.take(i as int).push(
                    enum_values[i as int],
                ));
                i += 1;
            }
            assert(enum_values@.take(enum_values.len() as int) =~= enum_values@);
            PrimitiveType::Enum { enum_values: values }
        },
        PrimitiveType::Basic { format, minimum } => PrimitiveType::Basic {
            format: *format,
            minimum: *minimum,
        },
    }
}

/// A copy of `schemas`.
pub fn clone_schemas(schemas: &Vec<Schema>) -> (out: Vec<Schema>)
    ensures
        schema_views(out@) == schema_views(schemas@),
    decreases schemas,
{
    let mut out: Vec<Schema> = Vec::new();
    let mut i: usize = 0;
    while i < schemas.len()
        invariant
            i <= schemas.len(),
            out.len() == i,
            forall|j: int| 0 <= j < i ==> out[j]@ == schemas[j]@,
        decreases schemas.len() - i,
    {
        out.push(schemas[i].clone());
        i += 1;
    }
    proof {
        lemma_schema_views(out@);
        lemma_schema_views(schemas@);
        assert(schema_views(out@) =~= schema_views(schemas@));
    }
    out
}

/// A copy of `properties`.
pub fn clone_properties(properties: &Vec<(String, Schema)>) -> (out: Vec<(String, Schema)>)
    ensures
        property_schema_views(out@) == property_schema_views(properties@),
    decreases properties,
{
    let mut out: Vec<(String, Schema)> = Vec::new();
    let mut i: usize = 0;
    while i < properties.len()
        invariant
            i <= properties.len(),
            out.len() == i,
            forall|j: int|
                0 <= j < i ==> out[j].0@ == properties[j].0@ && out[j].1@ == properties[j].1@,
        decreases properties.len() - i,
    {
        out.push((properties[i].0.clone(), properties[i].1.clone()));
        i += 1;
    }
    proof {
        lemma_property_schema_views(out@);
        lemma_property_schema_views(properties@);
        assert(property_schema_views(out@) =~= property_schema_views(properties@));
    }
    out
}

/// A copy of an optional text.
fn clone_optional_text(text: &Option<String>) -> (out: Option<String>)
    ensures
        optional_text(out) == optional_text(*text),
{
    match text {
        Some(t) => Some(t.clone()),
        None => None,
    }
}

impl Clone for Schema {
    fn clone(&self) -> (out: Self)
        ensures
            out@ == self@,
        decreases self,
    {
        match self {
            Schema::Ref(reference) => Schema::Ref(reference.clone()),
            Schema::Def(def) => Schema::Def(def.clone()),
        }
    }
}

impl Clone for AdditionalProperties {
    fn clone(&self) -> (out: Self)
        ensures
            out@ == self@,
        decreases self,
    {
        match self {
            AdditionalProperties::Boolean(allowed) => AdditionalProperties::Boolean(*allowed),
            AdditionalProperties::Schema(inner) => {
                let inner: &Schema = inner;
                AdditionalProperties::Schema(Box::new(inner.clone()))
            },
        }
    }
}

impl Clone for SchemaDef {
    fn clone(&self) -> (out: Self)
        ensures
            out@ == self@,
        decreases self,
    {
        match self {
            SchemaDef::Object { title, additional_properties, properties, required } => {
                SchemaDef::Object {
                    title: clone_optional_text(title),
                    additional_properties: additional_properties.clone(),
                    properties: match properties {
                        Some(list) => Some(clone_properties(list)),
                        None => None,
                    },
                    required: clone_texts(required),
                }
            },
            SchemaDef::String { type_def } => SchemaDef::String {
                type_def: clone_text_constraint(type_def),
            },
            SchemaDef::Integer { type_def } => SchemaDef::Integer {
                type_def: clone_integer_constraint(type_def),
            },
            SchemaDef::Boolean => SchemaDef::Boolean,
            SchemaDef::Number { type_def } => SchemaDef::Number {
                type_def: clone_text_constraint(type_def),
            },
            SchemaDef::Array { items: Some(item) } => {
                let item: &Schema = item;
                SchemaDef::Array { items: Some(Box::new(item.clone())) }
            },
            SchemaDef::Array { items: None } => SchemaDef::Array { items: None },
            SchemaDef::Tuple { prefix_items } => SchemaDef::Tuple {
                prefix_items: clone_schemas(prefix_items),
            },
            SchemaDef::AllOf { title, all_of } => SchemaDef::AllOf {
                title: clone_optional_text(title),
                all_of: clone_schemas(all_of),
            },
            SchemaDef::OneOf { title, one_of, discriminator } => SchemaDef::OneOf {
                title: clone_optional_text(title),
                one_of: clone_schemas(one_of),
                discriminator: clone_optional_text(discriminator),
            },
            SchemaDef::AnyOf { title, any_of } => SchemaDef::AnyOf {
                title: clone_optional_text(title),
                any_of: clone_schemas(any_of),
            },
        }
    }
}

/// Tells whether no two of the properties `properties` have the same name.
pub fn distinct_properties(properties: &Vec<(String, Schema)>) -> (out: bool)
    ensures
        out == distinct(keys(property_schema_views(properties@))),
{
    let mut names: Vec<String> = Vec::new();
    let mut i: usize = 0;
    while i < properties.len()
        invariant
            i <= properties.len(),
            names.len() == i,
            forall|j: int| 0 <= j < i ==> names[j]@ == properties[j].0@,
        decreases properties.len() - i,
    {
        names.push(properties[i].0.clone());
        i += 1;
    }
    proof {
        lemma_property_schema_views(properties@);
        assert(views(names@) =~= keys(property_schema_views(properties@)));
    }
    all_distinct(&names)
}

/// Tells whether no two definitions of the document `document` have the
/// same name.
pub fn distinct_definitions(document: &Vec<(String, SchemaDef)>) -> (out: bool)
    ensures
        out == distinct(keys(document_view(document@))),
{
    let mut names: Vec<String> = Vec::new();
    let mut i: usize = 0;
    while i < document.len()
        invariant
            i <= document.len(),
            names.len() == i,
            forall|j: int| 0 <= j < i ==> names[j]@ == document[j].0@,
        decreases document.len() - i,
    {
        names.push(document[i].0.clone());
        i += 1;
    }
    assert(views(names@) =~= keys(document_view(document@)));
    all_distinct(&names)
}

/// The views of a list are the views of its items, in order.
pub proof fn lemma_schema_views(schemas: Seq<Schema>)
    ensures
        schema_views(schemas).len() == schemas.len(),
        forall|i: int| 0 <= i < schemas.len() ==> #[trigger] schema_views(schemas)[i] == schemas[i]@,
    decreases schemas.len(),
{
    if schemas.len() > 0 {
        lemma_schema_views(schemas.drop_last());
    }
}

/// The views of a list of named schemas are the views of its items, in
/// order.
pub proof fn lemma_property_schema_views(properties: Seq<(String, Schema)>)
    ensures
        property_schema_views(properties).len() == properties.len(),
        forall|i: int|
            0 <= i < properties.len() ==> #[trigger] property_schema_views(properties)[i] == (
                properties[i].0@,
                properties[i].1@,
            ),
    decreases properties.len(),
{
    if properties.len() > 0 {
        lemma_property_schema_views(properties.drop_last());
    }
}

} // verus!
