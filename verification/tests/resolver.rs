use schema2code::ir::{Entity, EntityDef, EnumDef, Field, FieldType, Primitive, StructDef};
use schema2code::resolver::{
    generate_enum_name, generate_struct_name, parse_entity, parse_schema,
    parse_schema_def_collection, resolve_collection, Naming, ResolveError,
};
use schema2code::schema::{
    AdditionalProperties, Format, PrimitiveType, Schema, SchemaDef, SchemaRef,
};

fn reference(path: &str) -> Schema {
    Schema::Ref(SchemaRef { schema_path: path.to_string() })
}

fn string_basic(format: Option<Format>) -> Schema {
    Schema::Def(SchemaDef::String { type_def: PrimitiveType::Basic { format, minimum: None } })
}

fn string_const(value: &str) -> Schema {
    Schema::Def(SchemaDef::String {
        type_def: PrimitiveType::Const { const_value: value.to_string() },
    })
}

fn string_enum(values: &[&str]) -> Schema {
    Schema::Def(SchemaDef::String {
        type_def: PrimitiveType::Enum {
            enum_values: values.iter().map(|v| v.to_string()).collect(),
        },
    })
}

fn integer(format: Option<Format>, minimum: Option<i64>) -> Schema {
    Schema::Def(SchemaDef::Integer { type_def: PrimitiveType::Basic { format, minimum } })
}

fn number(format: Option<Format>) -> Schema {
    Schema::Def(SchemaDef::Number { type_def: PrimitiveType::Basic { format, minimum: None } })
}

fn object(title: Option<&str>, properties: Vec<(&str, Schema)>, required: &[&str]) -> SchemaDef {
    SchemaDef::Object {
        title: title.map(|t| t.to_string()),
        additional_properties: AdditionalProperties::default(),
        properties: Some(properties.into_iter().map(|(n, s)| (n.to_string(), s)).collect()),
        required: required.iter().map(|r| r.to_string()).collect(),
    }
}

fn field_type_of(schema: Schema) -> FieldType {
    let (field_type, entities, names) = parse_schema(&schema, Naming::new()).unwrap();
    assert!(entities.is_empty());
    assert_eq!(names, Naming::new());
    field_type
}

fn named(name: &str) -> FieldType {
    FieldType::Named(name.to_string())
}

fn member(name: &str, optional: bool, field_type: FieldType) -> (String, Field) {
    (name.to_string(), Field { optional, field_type })
}

#[test]
fn schema_name_is_last_segment() {
    let reference = SchemaRef { schema_path: "#/components/schemas/RequestBase".to_string() };
    assert_eq!(reference.get_schema_name(), "RequestBase");
    let bare = SchemaRef { schema_path: "RequestBase".to_string() };
    assert_eq!(bare.get_schema_name(), "RequestBase");
    let trailing = SchemaRef { schema_path: "a/b/".to_string() };
    assert_eq!(trailing.get_schema_name(), "");
    let empty = SchemaRef { schema_path: String::new() };
    assert_eq!(empty.get_schema_name(), "");
    let wide = SchemaRef { schema_path: "schémas/Tête".to_string() };
    assert_eq!(wide.get_schema_name(), "Tête");
}

#[test]
fn additional_properties_default_to_forbidden() {
    assert!(matches!(AdditionalProperties::default(), AdditionalProperties::Boolean(false)));
}

#[test]
fn test_parse_simple_object_schema() {
    let document = vec![(
        "RequestBase".to_string(),
        object(
            None,
            vec![
                ("id", string_basic(None)),
                ("kind", string_const("request")),
                ("myDate", string_basic(Some(Format::DateTime))),
                ("enumProp", string_enum(&["one", "two", "three"])),
                (
                    "deez",
                    Schema::Def(object(None, vec![("value", string_const("nuts"))], &[])),
                ),
                ("refProperty", reference("#/components/schemas/RefProperty")),
            ],
            &["id", "kind"],
        ),
    )];
    let entities = parse_schema_def_collection(document).unwrap();
    assert_eq!(
        entities,
        vec![
            Entity {
                name: "AnonymousEnum1".to_string(),
                def: EntityDef::Enum(EnumDef {
                    values: vec!["one".to_string(), "two".to_string(), "three".to_string()],
                }),
            },
            Entity {
                name: "AnonymousEntity1".to_string(),
                def: EntityDef::Struct(StructDef {
                    properties: vec![member(
                        "value",
                        true,
                        FieldType::Const(Primitive::String, "nuts".to_string()),
                    )],
                    additional_properties: None,
                }),
            },
            Entity {
                name: "RequestBase".to_string(),
                def: EntityDef::Struct(StructDef {
                    properties: vec![
                        member("id", false, FieldType::Simple(Primitive::String)),
                        member(
                            "kind",
                            false,
                            FieldType::Const(Primitive::String, "request".to_string()),
                        ),
                        member("myDate", true, FieldType::Simple(Primitive::String)),
                        member("enumProp", true, named("AnonymousEnum1")),
                        member("deez", true, named("AnonymousEntity1")),
                        member("refProperty", true, named("RefProperty")),
                    ],
                    additional_properties: None,
                }),
            },
        ]
    );
}

#[test]
fn exactly_the_required_properties_are_not_optional() {
    let def = object(
        None,
        vec![
            ("id", string_basic(None)),
            ("kind", string_const("request")),
            ("myDate", string_basic(Some(Format::DateTime))),
            ("enumProp", string_enum(&["one", "two", "three"])),
        ],
        &["id", "kind"],
    );
    let (entities, _) = parse_entity(&def, "RequestBase".to_string(), Naming::new()).unwrap();
    let last = entities.last().unwrap();
    assert_eq!(last.name, "RequestBase");
    let EntityDef::Struct(def) = &last.def else {
        panic!("a struct is expected");
    };
    let optional: Vec<(&str, bool)> =
        def.properties.iter().map(|(name, field)| (name.as_str(), field.optional)).collect();
    assert_eq!(
        optional,
        vec![("id", false), ("kind", false), ("myDate", true), ("enumProp", true)]
    );
}

#[test]
fn test_parse_all_of_combinator_schema() {
    let inline = object(
        None,
        vec![
            ("event", string_const("deezNuts")),
            (
                "data",
                Schema::Def(object(
                    Some("GetUserData"),
                    vec![("userId", string_basic(None))],
                    &["userId"],
                )),
            ),
        ],
        &["data", "event"],
    );
    let document = vec![(
        "GetUser".to_string(),
        SchemaDef::AllOf {
            title: None,
            all_of: vec![reference("#/components/schemas/Balls"), Schema::Def(inline)],
        },
    )];
    let entities = parse_schema_def_collection(document).unwrap();
    assert_eq!(
        entities,
        vec![
            Entity {
                name: "GetUserData".to_string(),
                def: EntityDef::Struct(StructDef {
                    properties: vec![member("userId", false, FieldType::Simple(Primitive::String))],
                    additional_properties: None,
                }),
            },
            Entity {
                name: "AnonymousEntity1".to_string(),
                def: EntityDef::Struct(StructDef {
                    properties: vec![
                        member(
                            "event",
                            false,
                            FieldType::Const(Primitive::String, "deezNuts".to_string()),
                        ),
                        member("data", false, named("GetUserData")),
                    ],
                    additional_properties: None,
                }),
            },
            Entity {
                name: "GetUser".to_string(),
                def: EntityDef::AllOf(vec!["Balls".to_string(), "AnonymousEntity1".to_string()]),
            },
        ]
    );
}

#[test]
fn combinator_is_flattened_into_three_entities() {
    let inline = SchemaDef::Object {
        title: None,
        additional_properties: AdditionalProperties::Boolean(false),
        properties: Some(vec![
            ("event".to_string(), string_const("deezNuts")),
            (
                "data".to_string(),
                Schema::Def(object(
                    Some("GetUserData"),
                    vec![("userId", string_basic(None))],
                    &["userId"],
                )),
            ),
        ]),
        required: vec![],
    };
    let document = vec![(
        "GetUser".to_string(),
        SchemaDef::AllOf {
            title: None,
            all_of: vec![reference("#/components/schemas/RequestBase"), Schema::Def(inline)],
        },
    )];
    let entities = parse_schema_def_collection(document).unwrap();
    let names: Vec<&str> = entities.iter().map(|e| e.name.as_str()).collect();
    assert_eq!(names, vec!["GetUserData", "AnonymousEntity1", "GetUser"]);
    assert_eq!(
        entities[0].def,
        EntityDef::Struct(StructDef {
            properties: vec![member("userId", false, FieldType::Simple(Primitive::String))],
            additional_properties: None,
        })
    );
    assert_eq!(
        entities[2].def,
        EntityDef::AllOf(vec!["RequestBase".to_string(), "AnonymousEntity1".to_string()])
    );
    let code = schema2code::generator::rust_gen::generate_entity(&entities[2]).unwrap();
    assert_eq!(code.matches("#[serde(flatten)]").count(), 2);
    assert!(code.contains("pub request_base: RequestBase"));
    assert!(code.contains("pub anonymous_entity1: AnonymousEntity1"));
}

#[test]
fn two_untitled_inline_objects_get_distinct_names() {
    let nested = |name: &str| Schema::Def(object(None, vec![(name, string_basic(None))], &[]));
    let document = vec![
        ("First".to_string(), object(None, vec![("a", nested("x"))], &[])),
        ("Second".to_string(), object(None, vec![("b", nested("y"))], &[])),
    ];
    let entities = parse_schema_def_collection(document).unwrap();
    let names: Vec<&str> = entities.iter().map(|e| e.name.as_str()).collect();
    assert_eq!(names, vec!["AnonymousEntity1", "First", "AnonymousEntity2", "Second"]);
}

#[test]
fn the_naming_context_is_the_callers() {
    let document = vec![(
        "Holder".to_string(),
        object(
            None,
            vec![
                ("inner", Schema::Def(object(None, vec![], &[]))),
                ("choice", string_enum(&["a"])),
            ],
            &[],
        ),
    )];
    let start = Naming { next_entity: 41, next_enum: 9 };
    let (entities, names) = resolve_collection(&document, start).unwrap();
    let listed: Vec<&str> = entities.iter().map(|e| e.name.as_str()).collect();
    assert_eq!(listed, vec!["AnonymousEntity41", "AnonymousEnum9", "Holder"]);
    assert_eq!(names, Naming { next_entity: 42, next_enum: 10 });
    let (again, _) = resolve_collection(&document, start).unwrap();
    assert_eq!(again, entities);
}

#[test]
fn synthesized_names_count_up_in_decimal() {
    let (name, names) = generate_struct_name(Naming::new()).unwrap();
    assert_eq!(name, "AnonymousEntity1");
    assert_eq!(names, Naming { next_entity: 2, next_enum: 1 });
    let (name, names) = generate_enum_name(Naming { next_entity: 7, next_enum: 1090 }).unwrap();
    assert_eq!(name, "AnonymousEnum1090");
    assert_eq!(names, Naming { next_entity: 7, next_enum: 1091 });
    let (name, _) =
        generate_struct_name(Naming { next_entity: u64::MAX - 1, next_enum: 1 }).unwrap();
    assert_eq!(name, "AnonymousEntity18446744073709551614");
    assert_eq!(
        generate_struct_name(Naming { next_entity: u64::MAX, next_enum: 1 }),
        Err(ResolveError::NamesExhausted)
    );
    assert_eq!(
        generate_enum_name(Naming { next_entity: 1, next_enum: u64::MAX }),
        Err(ResolveError::NamesExhausted)
    );
}

#[test]
fn enum_schema_keeps_exactly_its_literals() {
    let (field_type, entities, names) =
        parse_schema(&string_enum(&["one", "two", "three"]), Naming::new()).unwrap();
    assert_eq!(field_type, named("AnonymousEnum1"));
    assert_eq!(
        entities,
        vec![Entity {
            name: "AnonymousEnum1".to_string(),
            def: EntityDef::Enum(EnumDef {
                values: vec!["one".to_string(), "two".to_string(), "three".to_string()],
            }),
        }]
    );
    assert_eq!(names, Naming { next_entity: 1, next_enum: 2 });
}

#[test]
fn primitives_follow_their_format() {
    assert_eq!(field_type_of(reference("#/a/b/Thing")), named("Thing"));
    assert_eq!(field_type_of(string_basic(None)), FieldType::Simple(Primitive::String));
    assert_eq!(
        field_type_of(string_basic(Some(Format::Uuid))),
        FieldType::Simple(Primitive::Uuid)
    );
    assert_eq!(
        field_type_of(string_basic(Some(Format::Byte))),
        FieldType::Simple(Primitive::Bytes)
    );
    assert_eq!(
        field_type_of(string_basic(Some(Format::Date))),
        FieldType::Simple(Primitive::String)
    );
    assert_eq!(
        field_type_of(string_const("deezNuts")),
        FieldType::Const(Primitive::String, "deezNuts".to_string())
    );
    assert_eq!(field_type_of(integer(None, None)), FieldType::Simple(Primitive::Int));
    assert_eq!(field_type_of(integer(None, Some(0))), FieldType::Simple(Primitive::Int));
    assert_eq!(
        field_type_of(integer(Some(Format::Int32), None)),
        FieldType::Simple(Primitive::Int)
    );
    assert_eq!(
        field_type_of(integer(Some(Format::Int32), Some(0))),
        FieldType::Simple(Primitive::U32)
    );
    assert_eq!(
        field_type_of(integer(Some(Format::Int32), Some(-1))),
        FieldType::Simple(Primitive::Int)
    );
    assert_eq!(
        field_type_of(integer(Some(Format::Int64), None)),
        FieldType::Simple(Primitive::Long)
    );
    assert_eq!(
        field_type_of(integer(Some(Format::Int64), Some(5))),
        FieldType::Simple(Primitive::U64)
    );
    assert_eq!(
        field_type_of(integer(Some(Format::Int64), Some(-5))),
        FieldType::Simple(Primitive::Long)
    );
    assert_eq!(field_type_of(number(None)), FieldType::Simple(Primitive::Float));
    assert_eq!(
        field_type_of(number(Some(Format::Float))),
        FieldType::Simple(Primitive::Float)
    );
    assert_eq!(
        field_type_of(number(Some(Format::Double))),
        FieldType::Simple(Primitive::Double)
    );
    assert_eq!(field_type_of(Schema::Def(SchemaDef::Boolean)), FieldType::Simple(Primitive::Bool));
    assert_eq!(field_type_of(Schema::Def(SchemaDef::Array { items: None })), FieldType::Array(None));
    assert_eq!(
        field_type_of(Schema::Def(SchemaDef::Array {
            items: Some(Box::new(integer(Some(Format::Int64), None))),
        })),
        FieldType::Array(Some(Box::new(FieldType::Simple(Primitive::Long))))
    );
    assert_eq!(
        field_type_of(Schema::Def(SchemaDef::Tuple {
            prefix_items: vec![reference("MyType"), integer(Some(Format::Int64), None)],
        })),
        FieldType::Tuple(vec![named("MyType"), FieldType::Simple(Primitive::Long)])
    );
}

#[test]
fn object_without_properties_is_a_map() {
    let map = |additional_properties| {
        Schema::Def(SchemaDef::Object {
            title: Some("Ignored".to_string()),
            additional_properties,
            properties: None,
            required: vec![],
        })
    };
    assert_eq!(field_type_of(map(AdditionalProperties::Boolean(true))), FieldType::Object(None));
    assert_eq!(field_type_of(map(AdditionalProperties::Boolean(false))), FieldType::Object(None));
    assert_eq!(
        field_type_of(map(AdditionalProperties::Schema(Box::new(reference(
            "#/components/schemas/SomeOtherEntity"
        ))))),
        FieldType::Object(Some(Box::new(named("SomeOtherEntity"))))
    );
}

#[test]
fn additional_properties_of_an_entity() {
    let with = |additional_properties| SchemaDef::Object {
        title: None,
        additional_properties,
        properties: None,
        required: vec![],
    };
    let resolved = |def: SchemaDef| {
        let (mut entities, _) = parse_entity(&def, "Open".to_string(), Naming::new()).unwrap();
        let Entity { def: EntityDef::Struct(def), .. } = entities.pop().unwrap() else {
            panic!("a struct is expected");
        };
        assert!(def.properties.is_empty());
        def.additional_properties
    };
    assert_eq!(resolved(with(AdditionalProperties::Boolean(false))), None);
    assert_eq!(resolved(with(AdditionalProperties::Boolean(true))), Some(FieldType::Object(None)));
    assert_eq!(
        resolved(with(AdditionalProperties::Schema(Box::new(string_basic(None))))),
        Some(FieldType::Object(Some(Box::new(FieldType::Simple(Primitive::String)))))
    );
}

#[test]
fn tuple_items_bring_their_entities_in_order() {
    let tuple = Schema::Def(SchemaDef::Tuple {
        prefix_items: vec![
            string_enum(&["a"]),
            Schema::Def(object(Some("Titled"), vec![], &[])),
            string_enum(&["b"]),
        ],
    });
    let (field_type, entities, names) = parse_schema(&tuple, Naming::new()).unwrap();
    assert_eq!(
        field_type,
        FieldType::Tuple(vec![named("AnonymousEnum1"), named("Titled"), named("AnonymousEnum2")])
    );
    let listed: Vec<&str> = entities.iter().map(|e| e.name.as_str()).collect();
    assert_eq!(listed, vec!["AnonymousEnum1", "Titled", "AnonymousEnum2"]);
    assert_eq!(names, Naming { next_entity: 1, next_enum: 3 });
}

#[test]
fn one_of_carries_its_discriminator() {
    let def = SchemaDef::OneOf {
        title: None,
        one_of: vec![
            reference("#/components/schemas/GetUser"),
            Schema::Def(SchemaDef::AllOf { title: Some("Inner".to_string()), all_of: vec![] }),
        ],
        discriminator: Some("event".to_string()),
    };
    let (entities, _) = parse_entity(&def, "Payload".to_string(), Naming::new()).unwrap();
    assert_eq!(
        entities,
        vec![
            Entity { name: "Inner".to_string(), def: EntityDef::AllOf(vec![]) },
            Entity {
                name: "Payload".to_string(),
                def: EntityDef::OneOf {
                    discriminant: Some("event".to_string()),
                    variants: vec!["GetUser".to_string(), "Inner".to_string()],
                },
            },
        ]
    );
}

#[test]
fn unsupported_shapes_fail() {
    let any_of = || SchemaDef::AnyOf { title: None, any_of: vec![] };
    let top = |def: SchemaDef| parse_schema_def_collection(vec![("Top".to_string(), def)]);
    assert_eq!(top(any_of()), Err(ResolveError::UnsupportedAnyOf));
    assert_eq!(top(SchemaDef::Boolean), Err(ResolveError::NotAnEntity));
    assert_eq!(
        top(SchemaDef::String {
            type_def: PrimitiveType::Basic { format: None, minimum: None },
        }),
        Err(ResolveError::NotAnEntity)
    );
    assert_eq!(
        top(SchemaDef::Tuple { prefix_items: vec![] }),
        Err(ResolveError::NotAnEntity)
    );
    assert_eq!(
        top(object(None, vec![("deep", Schema::Def(any_of()))], &[])),
        Err(ResolveError::UnsupportedAnyOf)
    );
    assert_eq!(
        top(SchemaDef::AllOf { title: None, all_of: vec![string_basic(None)] }),
        Err(ResolveError::MalformedCombinator)
    );
    assert_eq!(
        top(SchemaDef::OneOf {
            title: None,
            one_of: vec![reference("Fine"), Schema::Def(SchemaDef::Boolean)],
            discriminator: None,
        }),
        Err(ResolveError::MalformedCombinator)
    );
    let numeric = |def: SchemaDef| {
        parse_schema(&Schema::Def(def), Naming::new()).map(|resolved| resolved.0)
    };
    assert_eq!(
        numeric(SchemaDef::Integer { type_def: PrimitiveType::Const { const_value: 3 } }),
        Err(ResolveError::UnsupportedNumericConstraint)
    );
    assert_eq!(
        numeric(SchemaDef::Integer { type_def: PrimitiveType::Enum { enum_values: vec![1, 2] } }),
        Err(ResolveError::UnsupportedNumericConstraint)
    );
    assert_eq!(
        numeric(SchemaDef::Number {
            type_def: PrimitiveType::Const { const_value: "1.5".to_string() },
        }),
        Err(ResolveError::UnsupportedNumericConstraint)
    );
    assert_eq!(
        numeric(SchemaDef::Number { type_def: PrimitiveType::Enum { enum_values: vec![] } }),
        Err(ResolveError::UnsupportedNumericConstraint)
    );
    let exhausted = Naming { next_entity: u64::MAX, next_enum: u64::MAX };
    assert_eq!(
        parse_schema(&Schema::Def(object(None, vec![], &[])), exhausted).map(|r| r.0),
        Err(ResolveError::NamesExhausted)
    );
    assert_eq!(
        parse_schema(&string_enum(&["a"]), exhausted).map(|r| r.0),
        Err(ResolveError::NamesExhausted)
    );
}

#[test]
fn undeclared_properties_of_an_entity_are_emitted_as_a_map() {
    let def = SchemaDef::Object {
        title: None,
        additional_properties: AdditionalProperties::Schema(Box::new(reference("#/x/Other"))),
        properties: Some(vec![]),
        required: vec![],
    };
    let (entities, _) = parse_entity(&def, "Open".to_string(), Naming::new()).unwrap();
    let code = schema2code::generator::rust_gen::generate_entity(&entities[0]).unwrap();
    assert!(code
        .replace(' ', "")
        .contains("pubadditional_properties:std::collections::HashMap<String,Other>"));
}

#[test]
fn failures_have_reasons_and_schemas_have_copies() {
    let all = [
        ResolveError::UnsupportedAnyOf,
        ResolveError::NotAnEntity,
        ResolveError::UnsupportedNumericConstraint,
        ResolveError::MalformedCombinator,
        ResolveError::NamesExhausted,
        ResolveError::DuplicateName,
    ];
    for (i, one) in all.iter().enumerate() {
        assert!(!one.reason().is_empty());
        for other in &all[i + 1..] {
            assert_ne!(one.reason(), other.reason());
        }
    }
    let def = SchemaDef::OneOf {
        title: Some("Choice".to_string()),
        one_of: vec![
            reference("#/a/B"),
            Schema::Def(object(
                None,
                vec![
                    ("n", integer(Some(Format::Int64), Some(0))),
                    ("e", string_enum(&["a", "b"])),
                    ("t", Schema::Def(SchemaDef::Tuple { prefix_items: vec![number(None)] })),
                ],
                &["n"],
            )),
        ],
        discriminator: Some("kind".to_string()),
    };
    let copy = def.clone();
    assert_eq!(
        parse_entity(&copy, "Top".to_string(), Naming::new()),
        parse_entity(&def, "Top".to_string(), Naming::new())
    );
    assert_eq!(format!("{:?}", copy), format!("{:?}", def));
}

#[test]
fn a_name_that_occurs_twice_is_refused() {
    let twice = object(None, vec![("a", string_basic(None)), ("b", integer(None, None)),
                                  ("a", string_basic(None))], &[]);
    assert_eq!(
        parse_entity(&twice, "Top".to_string(), Naming::new()),
        Err(ResolveError::DuplicateName)
    );
    let nested = object(None, vec![("inner", Schema::Def(twice))], &[]);
    assert_eq!(
        parse_schema_def_collection(vec![("Top".to_string(), nested)]),
        Err(ResolveError::DuplicateName)
    );
    let document = vec![
        ("Same".to_string(), object(None, vec![], &[])),
        ("Other".to_string(), object(None, vec![], &[])),
        ("Same".to_string(), object(None, vec![], &[])),
    ];
    assert_eq!(parse_schema_def_collection(document), Err(ResolveError::DuplicateName));
}

#[test]
fn the_first_failure_in_document_order_is_reported() {
    let document = vec![
        ("Fine".to_string(), object(None, vec![], &[])),
        ("Bare".to_string(), SchemaDef::Boolean),
        ("Any".to_string(), SchemaDef::AnyOf { title: None, any_of: vec![] }),
    ];
    assert_eq!(parse_schema_def_collection(document), Err(ResolveError::NotAnEntity));
}
