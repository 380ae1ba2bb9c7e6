use schema2code::generator::protobuf_gen;
use schema2code::generator::rust_gen::{
    enum_declaration, expand_field_type, generate_code, generate_entity, member_declaration,
    struct_declaration, EmitError,
};
use schema2code::generator::{generate_rust, snake_case};
use schema2code::ir::{Entity, EntityDef, EnumDef, Field, FieldType, Primitive, StructDef};

fn squeeze(code: &str) -> String {
    code.replace(' ', "")
}

#[test]
fn generator_test_generate_struct() {
    let struct_def = EntityDef::Struct(StructDef {
        properties: vec![(
            "fieldName".to_string(),
            Field { field_type: FieldType::Named("FieldEntityName".to_string()), optional: false },
        )],
        additional_properties: None,
    });
    let entity = Entity { name: "EntityName".to_string(), def: struct_def };
    let code = generate_entity(&entity).unwrap();
    println!("{}", code);
    assert!(code.contains("pub struct EntityName"));
    assert!(squeeze(&code).contains("pubfield_name:FieldEntityName"));
}

#[test]
fn rust_gen_test_snake_case() {
    let s = "DeezNuts";
    let snake = snake_case(s);
    assert_eq!(snake, "deez_nuts");

    let s = "deezNutsOnYourChin69420";
    let snake = snake_case(s);
    assert_eq!(snake, "deez_nuts_on_your_chin69420");
}

#[test]
fn mod_test_snake_case() {
    let s = "DeezNuts";
    let snake = snake_case(s);
    assert_eq!(snake, "deez_nuts");

    let s = "deezNutsOnYourChin69420";
    let snake = snake_case(s);
    assert_eq!(snake, "deez_nuts_on_your_chin69420");
}

#[test]
fn snake_case_edge_cases() {
    assert_eq!(snake_case(""), "");
    assert_eq!(snake_case("A"), "a");
    assert_eq!(snake_case("ABC"), "a_b_c");
    assert_eq!(snake_case("already_snake"), "already_snake");
    assert_eq!(snake_case("Ünit"), "ünit");
    assert_eq!(snake_case("getÉtat"), "get_état");
}

#[test]
fn rust_gen_test_generate_struct() {
    let struct_def = EntityDef::Struct(StructDef {
        properties: vec![
            (
                "fieldName".to_string(),
                Field {
                    field_type: FieldType::Named("FieldEntityName".to_string()),
                    optional: true,
                },
            ),
            (
                "constField".to_string(),
                Field {
                    field_type: FieldType::Const(Primitive::String, "constValue".to_string()),
                    optional: false,
                },
            ),
        ],
        additional_properties: Some(FieldType::Array(None)),
    });
    let entity = Entity { name: "StructEntity".to_string(), def: struct_def };
    let code = generate_entity(&entity).unwrap();
    println!("{}", code);
    assert!(code.contains("pub struct StructEntity"));
    assert!(code.replace(" ", "").contains("field_name:Option<FieldEntityName>"));
    assert!(code
        .replace(" ", "")
        .contains("const_field:monostate::MustBe!(\"constValue\")"));
}

#[test]
fn rust_gen_test_generate_tagged_enum() {
    let enum_def = EntityDef::OneOf {
        discriminant: Some("type".to_string()),
        variants: vec!["Variant1".to_string(), "Variant2".to_string()],
    };
    let entity = Entity { name: "EnumEntity".to_string(), def: enum_def };
    let code = generate_entity(&entity).unwrap();
    println!("{}", code);
    assert!(code.contains("pub enum EnumEntity"));
    assert!(code.replace(" ", "").contains("#[serde(tag=\"type\")]"));
}

#[test]
fn struct_members_carry_wire_names() {
    let entity = Entity {
        name: "Payload".to_string(),
        def: EntityDef::Struct(StructDef {
            properties: vec![(
                "userId".to_string(),
                Field { field_type: FieldType::Simple(Primitive::String), optional: false },
            )],
            additional_properties: Some(FieldType::Object(None)),
        }),
    };
    let code = squeeze(&generate_entity(&entity).unwrap());
    assert!(code.contains("#[serde(rename=\"userId\")]pubuser_id:String"));
    assert!(code.contains(
        "#[serde(flatten)]pubadditional_properties:std::collections::HashMap<String,serde_json::Value>"
    ));
    assert!(code.starts_with(
        "#[derive(Debug,Clone,Eq,PartialEq,serde::Deserialize,serde::Serialize)]pubstructPayload{"
    ));
}

#[test]
fn undeclared_fields_are_caught_in_a_map_of_their_type() {
    let with = |extra: FieldType| {
        let entity = Entity {
            name: "Open".to_string(),
            def: EntityDef::Struct(StructDef { properties: vec![], additional_properties: Some(extra) }),
        };
        squeeze(&generate_entity(&entity).unwrap())
    };
    let member = "pubstructOpen{#[serde(flatten)]pubadditional_properties:";
    assert!(with(FieldType::Object(None))
        .ends_with(&format!("{}std::collections::HashMap<String,serde_json::Value>}}", member)));
    assert!(with(FieldType::Object(Some(Box::new(FieldType::Named("Other".to_string())))))
        .ends_with(&format!("{}std::collections::HashMap<String,Other>}}", member)));
    assert!(with(FieldType::Array(None)).ends_with(&format!(
        "{}std::collections::HashMap<String,Vec<serde_json::Value>>}}",
        member
    )));
    let unsupported = Entity {
        name: "Open".to_string(),
        def: EntityDef::Struct(StructDef {
            properties: vec![],
            additional_properties: Some(FieldType::Object(Some(Box::new(FieldType::Const(
                Primitive::Bytes,
                "x".to_string(),
            ))))),
        }),
    };
    assert_eq!(generate_entity(&unsupported), Err(EmitError::UnsupportedLiteral));
}

#[test]
fn a_struct_with_a_member_twice_is_refused() {
    let member = |name: &str| {
        (name.to_string(), Field { field_type: FieldType::Simple(Primitive::Bool), optional: false })
    };
    let twice = StructDef {
        properties: vec![member("a"), member("b"), member("a")],
        additional_properties: None,
    };
    assert!(!twice.has_distinct_names());
    let entity = Entity { name: "Twice".to_string(), def: EntityDef::Struct(twice) };
    assert_eq!(generate_entity(&entity), Err(EmitError::DuplicateMember));
    let once = StructDef { properties: vec![member("a"), member("b")], additional_properties: None };
    assert!(once.has_distinct_names());
}

#[test]
fn failures_have_reasons_and_values_have_copies() {
    assert_ne!(EmitError::NotTokens.reason(), EmitError::UnsupportedLiteral.reason());
    assert!(EmitError::NotTokens.reason().contains("tokens"));
    let entity = Entity {
        name: "Copy".to_string(),
        def: EntityDef::Struct(StructDef {
            properties: vec![(
                "deep".to_string(),
                Field {
                    field_type: FieldType::Tuple(vec![
                        FieldType::Array(Some(Box::new(FieldType::Named("A".to_string())))),
                        FieldType::Object(Some(Box::new(FieldType::Const(
                            Primitive::String,
                            "c".to_string(),
                        )))),
                    ]),
                    optional: true,
                },
            )],
            additional_properties: Some(FieldType::Simple(Primitive::Uuid)),
        }),
    };
    assert_eq!(entity.clone(), entity);
    let choice = Entity {
        name: "Choice".to_string(),
        def: EntityDef::OneOf { discriminant: Some("t".to_string()), variants: vec!["A".to_string()] },
    };
    assert_eq!(choice.clone(), choice);
}

#[test]
fn wire_name_is_escaped_as_a_string_literal() {
    let entity = Entity {
        name: "Quoted".to_string(),
        def: EntityDef::Struct(StructDef {
            properties: vec![(
                "a\"b".to_string(),
                Field { field_type: FieldType::Simple(Primitive::Bool), optional: false },
            )],
            additional_properties: None,
        }),
    };
    let result = generate_entity(&entity);
    // The member name `a"b` does not lex, whatever its wire name.
    assert_eq!(result, Err(EmitError::NotTokens));
    let oneof = Entity {
        name: "Tagged".to_string(),
        def: EntityDef::OneOf { discriminant: Some("a\"b".to_string()), variants: vec![] },
    };
    let code = generate_entity(&oneof).unwrap();
    assert!(code.contains("#[serde(tag = \"a\\\"b\")]"));
}

#[test]
fn untagged_sum_type() {
    let entity = Entity {
        name: "Either".to_string(),
        def: EntityDef::OneOf {
            discriminant: None,
            variants: vec!["Left".to_string(), "Right".to_string()],
        },
    };
    let code = generate_entity(&entity).unwrap();
    assert_eq!(
        code,
        "#[derive(Debug, Clone, Eq, PartialEq, serde::Deserialize, serde::Serialize)] \
         #[serde(untagged)] pub enum Either { Left(Left), Right(Right) }"
    );
}

#[test]
fn all_of_flattens_every_composed_entity() {
    let entity = Entity {
        name: "GetUser".to_string(),
        def: EntityDef::AllOf(vec!["RequestBase".to_string(), "AnonymousEntity1".to_string()]),
    };
    let code = generate_entity(&entity).unwrap();
    assert_eq!(
        code,
        "#[derive(Debug, Clone, Eq, PartialEq, serde::Deserialize, serde::Serialize)] \
         pub struct GetUser { #[serde(flatten)] pub request_base: RequestBase, \
         #[serde(flatten)] pub anonymous_entity1: AnonymousEntity1 }"
    );
}

#[test]
fn plain_enum_lists_exactly_its_values() {
    let entity = Entity {
        name: "AnonymousEnum1".to_string(),
        def: EntityDef::Enum(EnumDef {
            values: vec!["one".to_string(), "two".to_string(), "three".to_string()],
        }),
    };
    let code = generate_entity(&entity).unwrap();
    assert_eq!(
        code,
        "#[derive(Debug, Clone, Eq, PartialEq, serde::Deserialize, serde::Serialize)] \
         pub enum AnonymousEnum1 { one, two, three }"
    );
}

#[test]
fn field_types_expand_recursively() {
    let expand = |t: FieldType| expand_field_type(&t);
    assert_eq!(expand(FieldType::Named("Thing".to_string())).unwrap(), "Thing");
    assert_eq!(expand(FieldType::Array(None)).unwrap(), "Vec<serde_json::Value>");
    assert_eq!(
        expand(FieldType::Array(Some(Box::new(FieldType::Simple(Primitive::Long))))).unwrap(),
        "Vec<i64>"
    );
    assert_eq!(
        expand(FieldType::Object(None)).unwrap(),
        "std::collections::HashMap<String, serde_json::Value>"
    );
    assert_eq!(
        expand(FieldType::Array(Some(Box::new(FieldType::Object(None))))).unwrap(),
        "Vec<std::collections::HashMap<String, serde_json::Value>>"
    );
    assert_eq!(
        expand(FieldType::Object(Some(Box::new(FieldType::Simple(Primitive::Double))))).unwrap(),
        "std::collections::HashMap<String, f64>"
    );
    assert_eq!(
        expand(FieldType::Tuple(vec![
            FieldType::Named("MyType".to_string()),
            FieldType::Simple(Primitive::Long),
            FieldType::Tuple(vec![]),
        ]))
        .unwrap(),
        "(MyType, i64, ())"
    );
    let kinds = [
        (Primitive::String, "String"),
        (Primitive::Int, "i32"),
        (Primitive::Double, "f64"),
        (Primitive::Bool, "bool"),
        (Primitive::Long, "i64"),
        (Primitive::Float, "f32"),
        (Primitive::Uuid, "uuid::Uuid"),
        (Primitive::Bytes, "Vec<u8>"),
        (Primitive::U32, "u32"),
        (Primitive::U64, "u64"),
    ];
    for (kind, text) in kinds {
        assert_eq!(expand(FieldType::Simple(kind)).unwrap(), text);
    }
    assert_eq!(
        expand(FieldType::Const(Primitive::String, "deezNuts".to_string())).unwrap(),
        "monostate::MustBe!(\"deezNuts\")"
    );
    assert_eq!(
        expand(FieldType::Const(Primitive::Int, "42".to_string())).unwrap(),
        "monostate::MustBe!(42)"
    );
    assert_eq!(
        expand(FieldType::Const(Primitive::Uuid, "x".to_string())),
        Err(EmitError::UnsupportedLiteral)
    );
    assert_eq!(
        expand(FieldType::Tuple(vec![
            FieldType::Simple(Primitive::Int),
            FieldType::Const(Primitive::Bytes, "x".to_string()),
        ])),
        Err(EmitError::UnsupportedLiteral)
    );
}

#[test]
fn pieces_that_do_not_lex_are_refused() {
    let entity = Entity { name: "Broken(".to_string(), def: EntityDef::AllOf(vec![]) };
    assert_eq!(generate_entity(&entity), Err(EmitError::NotTokens));
    let entity = Entity {
        name: "Fine".to_string(),
        def: EntityDef::Enum(EnumDef { values: vec!["ok".to_string(), "\"open".to_string()] }),
    };
    assert_eq!(generate_entity(&entity), Err(EmitError::NotTokens));
}

#[test]
fn a_comment_in_a_name_cannot_swallow_the_declaration() {
    let entity = Entity { name: "Name // rest".to_string(), def: EntityDef::AllOf(vec![]) };
    let code = generate_entity(&entity).unwrap();
    assert!(code.ends_with("pub struct Name {  }"));
}

#[test]
fn templates_place_their_pieces() {
    assert_eq!(
        member_declaration("\"id\"", "id", "String", true),
        "#[serde(rename = \"id\")] pub id: Option<String>"
    );
    assert_eq!(
        member_declaration("\"id\"", "id", "String", false),
        "#[serde(rename = \"id\")] pub id: String"
    );
    assert_eq!(
        struct_declaration("S", &vec!["a: A".to_string(), "b: B".to_string()]),
        "#[derive(Debug, Clone, Eq, PartialEq, serde::Deserialize, serde::Serialize)] \
         pub struct S { a: A, b: B }"
    );
    assert_eq!(
        enum_declaration(" #[serde(untagged)]", "E", &vec![]),
        "#[derive(Debug, Clone, Eq, PartialEq, serde::Deserialize, serde::Serialize)] \
         #[serde(untagged)] pub enum E {  }"
    );
}

#[test]
fn one_declaration_per_entity_in_order() {
    let entities = || {
        vec![
            Entity { name: "First".to_string(), def: EntityDef::AllOf(vec![]) },
            Entity { name: "Second".to_string(), def: EntityDef::Enum(EnumDef { values: vec![] }) },
            Entity { name: "Third".to_string(), def: EntityDef::AllOf(vec![]) },
        ]
    };
    let code = generate_code(entities()).unwrap();
    let lines: Vec<&str> = code.split('\n').collect();
    assert_eq!(lines.len(), 3);
    assert!(lines[0].contains("pub struct First"));
    assert!(lines[1].contains("pub enum Second"));
    assert!(lines[2].contains("pub struct Third"));
    assert_eq!(generate_rust(entities()).unwrap(), code);
    assert_eq!(generate_code(vec![]).unwrap(), "");
    let mut broken = entities();
    broken.push(Entity { name: ")".to_string(), def: EntityDef::AllOf(vec![]) });
    broken.push(Entity {
        name: "Late".to_string(),
        def: EntityDef::Struct(StructDef {
            properties: vec![(
                "x".to_string(),
                Field {
                    field_type: FieldType::Const(Primitive::Uuid, "y".to_string()),
                    optional: false,
                },
            )],
            additional_properties: None,
        }),
    });
    assert_eq!(generate_code(broken), Err(EmitError::NotTokens));
}

#[test]
fn emitted_declarations_parse_as_rust() {
    let entities = vec![
        Entity {
            name: "Record".to_string(),
            def: EntityDef::Struct(StructDef {
                properties: vec![
                    (
                        "firstName".to_string(),
                        Field {
                            field_type: FieldType::Simple(Primitive::String),
                            optional: true,
                        },
                    ),
                    (
                        "pair".to_string(),
                        Field {
                            field_type: FieldType::Tuple(vec![
                                FieldType::Simple(Primitive::U64),
                                FieldType::Array(Some(Box::new(FieldType::Named(
                                    "Other".to_string(),
                                )))),
                            ]),
                            optional: false,
                        },
                    ),
                ],
                additional_properties: Some(FieldType::Simple(Primitive::Int)),
            }),
        },
        Entity {
            name: "Choice".to_string(),
            def: EntityDef::OneOf {
                discriminant: Some("kind".to_string()),
                variants: vec!["Record".to_string()],
            },
        },
    ];
    let code = generate_code(entities).unwrap();
    let file = syn::parse_str::<syn::File>(&code).unwrap();
    assert_eq!(file.items.len(), 2);
    assert!(matches!(file.items[0], syn::Item::Struct(_)));
    assert!(matches!(file.items[1], syn::Item::Enum(_)));
}

#[test]
fn protobuf_messages() {
    let entities = vec![
        Entity { name: "First".to_string(), def: EntityDef::AllOf(vec![]) },
        Entity { name: "Second".to_string(), def: EntityDef::AllOf(vec![]) },
    ];
    assert_eq!(
        protobuf_gen::generate_entity(&entities[0]),
        "\nmessage First {\n    \n}\n    "
    );
    assert_eq!(
        protobuf_gen::generate_code(entities),
        "\nmessage First {\n    \n}\n    \n\nmessage Second {\n    \n}\n    "
    );
}
