use schema2code::repair::{
    edit_derive_traits, edit_tag_value, find_claimant, find_serde_tag, find_serde_value,
    literal_of_enum, literal_of_type, literal_type_name, remove_all, remove_buggy_traits,
    remove_field, repair, should_remove_trait, unquote, variant_claimed_twice, RepairError,
};
use schema2code::syntax::{
    render_tokens, Attribute, Decl, FieldDecl, Token, TypeRef, Unit, Variant,
};

fn ident(name: &str) -> Token {
    Token::Ident(name.to_string())
}

fn comma() -> Token {
    Token::Punct { ch: ',', joint: false }
}

fn equals() -> Token {
    Token::Punct { ch: '=', joint: false }
}

fn literal(text: &str) -> Token {
    Token::Literal(format!("\"{}\"", text))
}

fn list(head: &str, tokens: Vec<Token>) -> Attribute {
    Attribute::List {
        head: head.to_string(),
        open: format!("#[{}(", head),
        tokens,
        close: ")]".to_string(),
    }
}

fn derive(names: &[&str]) -> Attribute {
    let mut tokens = Vec::new();
    for (i, name) in names.iter().enumerate() {
        if i > 0 {
            tokens.push(comma());
        }
        tokens.push(ident(name));
    }
    list("derive", tokens)
}

fn serde(key: &str, value: &str) -> Attribute {
    list("serde", vec![ident(key), equals(), literal(value)])
}

fn boxed(name: &str) -> TypeRef {
    TypeRef::Path {
        head: "Box".to_string(),
        argument: Some(Box::new(TypeRef::Path { head: name.to_string(), argument: None })),
    }
}

fn field(name: &str, type_text: &str, ty: TypeRef) -> FieldDecl {
    FieldDecl {
        attrs: vec![serde("rename", name)],
        head: "pub ".to_string(),
        name: name.to_string(),
        type_text: type_text.to_string(),
        ty,
        mentions: type_text
            .split(|c: char| !c.is_alphanumeric() && c != '_')
            .filter(|name| !name.is_empty())
            .map(|name| name.to_string())
            .collect(),
    }
}

fn plain(name: &str) -> FieldDecl {
    field(name, "String", TypeRef::Path { head: "String".to_string(), argument: None })
}

fn variant(tag: &str, name: &str) -> Variant {
    Variant {
        attrs: vec![serde("rename", tag)],
        name: name.to_string(),
        rest: format!("({})", name),
        mentions: vec![name.to_string()],
    }
}

fn literal_enum(name: &str, value: &str) -> Decl {
    Decl::Enum {
        attrs: vec![derive(&["Clone", "Copy", "Debug", "Eq"])],
        head: "pub enum".to_string(),
        name: name.to_string(),
        generics: String::new(),
        variants: vec![Variant {
            attrs: vec![serde("rename", value)],
            name: "Only".to_string(),
            rest: String::new(),
            mentions: vec![],
        }],
    }
}

fn variant_struct(name: &str, literal_type: &str) -> Decl {
    Decl::Struct {
        attrs: vec![derive(&["Clone", "Debug", "Deserialize", "Serialize"])],
        head: "pub struct".to_string(),
        name: name.to_string(),
        generics: String::new(),
        fields: Some(vec![
            plain("id"),
            field("event", &format!("Box<{}>", literal_type), boxed(literal_type)),
            plain("data"),
        ]),
        rest: String::new(),
        mentions: vec![],
    }
}

fn payload() -> Decl {
    Decl::Enum {
        attrs: vec![
            derive(&[
                "Clone",
                "Debug",
                "Deserialize",
                "Eq",
                "Hash",
                "Ord",
                "PartialEq",
                "PartialOrd",
                "Serialize",
            ]),
            serde("tag", "event"),
        ],
        head: "pub enum".to_string(),
        name: "OneApiRequestPayload".to_string(),
        generics: String::new(),
        variants: vec![
            variant("GetUserRoleForModuleAndFailIfNone", "GetUserRoleForModuleAndFailIfNone"),
            variant("DeletePackageElement", "DeletePackageElement"),
        ],
    }
}

fn generated() -> Unit {
    Unit {
        decls: vec![
            variant_struct("DeletePackageElement", "AnonymousSchema8"),
            variant_struct("GetUserRoleForModuleAndFailIfNone", "AnonymousSchema4"),
            payload(),
            literal_enum("AnonymousSchema4", "getUserRoleForModuleAndFailIfNone"),
            literal_enum("AnonymousSchema8", "deletePackageElement"),
        ],
    }
}

#[test]
fn capabilities_of_literal_types_are_stripped() {
    for name in ["Ord", "PartialOrd", "PartialEq", "Eq", "Hash", "Copy"] {
        assert!(should_remove_trait(name));
    }
    for name in ["Clone", "Debug", "Serialize", "ord", "Eqq", "", "Or"] {
        assert!(!should_remove_trait(name));
    }
}

#[test]
fn a_stripped_capability_takes_its_comma_along() {
    let Attribute::List { tokens, .. } =
        derive(&["Clone", "Debug", "Deserialize", "Eq", "Hash", "Ord", "PartialEq", "Serialize"])
    else {
        panic!("a list is expected");
    };
    let kept = remove_buggy_traits(&tokens);
    assert_eq!(render_tokens(&kept), "Clone , Debug , Deserialize , Serialize");
    let Attribute::List { tokens, .. } = derive(&["Eq", "Clone", "Copy"]) else {
        panic!("a list is expected");
    };
    assert_eq!(render_tokens(&remove_buggy_traits(&tokens)), "Clone ,");
    assert_eq!(remove_buggy_traits(&vec![ident("Eq"), ident("Keep")]), Vec::<Token>::new());
    assert_eq!(remove_buggy_traits(&vec![]), Vec::<Token>::new());
    let path = vec![
        ident("serde"),
        Token::Punct { ch: ':', joint: true },
        Token::Punct { ch: ':', joint: false },
        ident("Serialize"),
        comma(),
        Token::Group("(Eq)".to_string()),
        Token::Literal("\"Eq\"".to_string()),
    ];
    assert_eq!(remove_buggy_traits(&path), path);
    assert_eq!(render_tokens(&path), "serde :: Serialize , (Eq) \"Eq\"");
}

#[test]
fn only_derive_lists_are_edited() {
    let mut attrs = vec![
        derive(&["Eq", "Clone"]),
        list("serde", vec![ident("Eq")]),
        Attribute::Other { text: "#[doc = \"Eq\"]".to_string() },
        list("derive", vec![]),
    ];
    edit_derive_traits(&mut attrs);
    assert_eq!(
        attrs,
        vec![
            list("derive", vec![ident("Clone")]),
            list("serde", vec![ident("Eq")]),
            Attribute::Other { text: "#[doc = \"Eq\"]".to_string() },
            list("derive", vec![]),
        ]
    );
}

#[test]
fn the_tag_is_the_first_serde_tag_literal() {
    let attrs = vec![
        derive(&["Clone"]),
        list("serde", vec![ident("untagged")]),
        list("other", vec![ident("tag"), equals(), literal("wrong")]),
        list("serde", vec![ident("tag"), Token::Punct { ch: ':', joint: false }, literal("x")]),
        list("serde", vec![ident("tag"), equals(), ident("event")]),
        list("serde", vec![ident("tag"), equals(), literal("event"), comma(), ident("more")]),
        serde("tag", "late"),
    ];
    assert_eq!(find_serde_tag(&attrs), Some("\"event\"".to_string()));
    assert_eq!(find_serde_value(&attrs, "rename"), None);
    assert_eq!(find_serde_tag(&vec![list("serde", vec![ident("tag"), equals()])]), None);
    assert_eq!(find_serde_tag(&vec![]), None);
    assert_eq!(unquote("\"event\""), "event");
    assert_eq!(unquote("\"a\\\"b\""), "a\\\"b");
    assert_eq!(unquote("a\"b\"\"c"), "a\"b\"\"c");
    assert_eq!(unquote("\"open"), "\"open");
    assert_eq!(unquote("\"\""), "");
    assert_eq!(unquote("\""), "\"");
    assert_eq!(unquote(""), "");
}

#[test]
fn every_field_with_the_wire_name_is_removed() {
    let mut fields = vec![
        plain("id"),
        field("event", "A", boxed("A")),
        FieldDecl { name: "renamed".to_string(), ..field("event", "B", boxed("B")) },
        FieldDecl { name: "event".to_string(), ..plain("evt") },
        FieldDecl { attrs: vec![], ..plain("event") },
    ];
    let removed = remove_field(&mut fields, "event");
    assert_eq!(removed, Some(FieldDecl { attrs: vec![], ..plain("event") }));
    assert_eq!(
        fields,
        vec![plain("id"), FieldDecl { name: "event".to_string(), ..plain("evt") }]
    );
    assert_eq!(remove_field(&mut fields, "event"), None);
    assert_eq!(fields.len(), 2);
}

#[test]
fn literal_types_are_looked_for_inside_boxes() {
    assert_eq!(literal_type_name(&boxed("Literal")), Some("Literal".to_string()));
    let deep = TypeRef::Path { head: "Box".to_string(), argument: Some(Box::new(boxed("Deep"))) };
    assert_eq!(literal_type_name(&deep), Some("Deep".to_string()));
    let other = TypeRef::Path { head: "Vec".to_string(), argument: Some(Box::new(boxed("X"))) };
    assert_eq!(literal_type_name(&other), Some("Vec".to_string()));
    assert_eq!(literal_type_name(&TypeRef::Path { head: "Box".to_string(), argument: None }), None);
    assert_eq!(literal_type_name(&TypeRef::Other), None);
    let unit = generated().decls;
    assert_eq!(
        literal_of_type(&unit, &boxed("AnonymousSchema8")),
        Some("\"deletePackageElement\"".to_string())
    );
    assert_eq!(literal_of_type(&unit, &boxed("Missing")), None);
    assert_eq!(literal_of_type(&unit, &boxed("DeletePackageElement")), None);
    assert_eq!(literal_of_enum(&unit[3]), Some("\"getUserRoleForModuleAndFailIfNone\"".to_string()));
    assert_eq!(literal_of_enum(&unit[0]), None);
}

#[test]
fn the_tag_value_of_a_variant_is_rewritten() {
    let aliased = |tag: &str| {
        list(
            "serde",
            vec![ident("rename"), equals(), literal(tag), comma(), ident("alias"), equals(),
                 literal("C")],
        )
    };
    let mut variants = vec![
        variant("A", "First"),
        Variant {
            attrs: vec![
                Attribute::Other { text: "#[doc = \"x\"]".to_string() },
                list("serde", vec![ident("alias"), equals(), literal("kept")]),
                aliased("B"),
                serde("rename", "untouched"),
            ],
            name: "Second".to_string(),
            rest: String::new(),
            mentions: vec![],
        },
        variant("D", "Second"),
    ];
    assert_eq!(edit_tag_value(&mut variants, "Second", "\"second\""), Ok(()));
    assert_eq!(variants[0], variant("A", "First"));
    assert_eq!(
        variants[1].attrs,
        vec![
            Attribute::Other { text: "#[doc = \"x\"]".to_string() },
            list("serde", vec![ident("alias"), equals(), literal("kept")]),
            aliased("second"),
            serde("rename", "untouched"),
        ]
    );
    assert_eq!(variants[2], variant("D", "Second"));
    let before = vec![variant("A", "First")];
    let mut missing = vec![variant("A", "First")];
    assert_eq!(edit_tag_value(&mut missing, "Absent", "\"x\""), Err(RepairError::VariantTagMissing));
    assert_eq!(missing, before);
    let mut unnamed = vec![Variant {
        attrs: vec![list("serde", vec![ident("alias"), equals(), literal("a")])],
        name: "First".to_string(),
        rest: String::new(),
        mentions: vec![],
    }];
    assert_eq!(edit_tag_value(&mut unnamed, "First", "\"x\""), Err(RepairError::VariantTagMissing));
}

#[test]
fn claims_are_found() {
    let unit = generated().decls;
    assert_eq!(find_claimant(&unit, "DeletePackageElement"), Some(2));
    assert_eq!(find_claimant(&unit, "Only"), None);
    assert_eq!(find_claimant(&unit, "Absent"), None);
    assert!(!variant_claimed_twice(&unit));
    let mut twice = generated().decls;
    twice.push(Decl::Enum {
        attrs: vec![serde("tag", "kind")],
        head: "enum".to_string(),
        name: "Second".to_string(),
        generics: String::new(),
        variants: vec![variant("x", "Other"), variant("y", "DeletePackageElement")],
    });
    assert!(variant_claimed_twice(&twice));
    assert_eq!(repair(Unit { decls: twice }), Err(RepairError::VariantClaimedTwice));
}

#[test]
fn duplicated_tag_fields_are_removed_and_tags_corrected() {
    let repaired = repair(generated()).unwrap();
    let stripped = derive(&["Clone", "Debug", "Deserialize", "Serialize"]);
    let pruned = |name: &str| Decl::Struct {
        attrs: vec![derive(&["Clone", "Debug", "Deserialize", "Serialize"])],
        head: "pub struct".to_string(),
        name: name.to_string(),
        generics: String::new(),
        fields: Some(vec![plain("id"), plain("data")]),
        rest: String::new(),
        mentions: vec![],
    };
    let literal_only = |name: &str, value: &str| {
        let Decl::Enum { head, name, generics, variants, .. } = literal_enum(name, value) else {
            panic!("an enum is expected");
        };
        Decl::Enum {
            attrs: vec![list("derive", vec![ident("Clone"), comma(), ident("Debug"), comma()])],
            head,
            name,
            generics,
            variants,
        }
    };
    assert_eq!(
        repaired,
        Unit {
            decls: vec![
                pruned("DeletePackageElement"),
                pruned("GetUserRoleForModuleAndFailIfNone"),
                Decl::Enum {
                    attrs: vec![stripped, serde("tag", "event")],
                    head: "pub enum".to_string(),
                    name: "OneApiRequestPayload".to_string(),
                    generics: String::new(),
                    variants: vec![
                        variant(
                            "getUserRoleForModuleAndFailIfNone",
                            "GetUserRoleForModuleAndFailIfNone"
                        ),
                        variant("deletePackageElement", "DeletePackageElement"),
                    ],
                },
                literal_only("AnonymousSchema4", "getUserRoleForModuleAndFailIfNone"),
                literal_only("AnonymousSchema8", "deletePackageElement"),
            ],
        }
    );
    assert_eq!(
        repaired.render().lines().nth(2).unwrap(),
        "#[derive(Clone , Debug , Deserialize , Serialize)] #[serde(tag = \"event\")] \
         pub enum OneApiRequestPayload { \
         #[serde(rename = \"getUserRoleForModuleAndFailIfNone\")] \
         GetUserRoleForModuleAndFailIfNone(GetUserRoleForModuleAndFailIfNone), \
         #[serde(rename = \"deletePackageElement\")] DeletePackageElement(DeletePackageElement) }"
    );
}

#[test]
fn repairing_twice_changes_nothing_where_no_struct_is_a_variant() {
    let unit = || Unit {
        decls: vec![
            payload(),
            literal_enum("AnonymousSchema4", "x"),
            Decl::Struct {
                attrs: vec![derive(&["Eq", "Hash", "Debug"])],
                head: "struct".to_string(),
                name: "Free".to_string(),
                generics: String::new(),
                fields: Some(vec![plain("event")]),
                rest: String::new(),
                mentions: vec![],
            },
            Decl::Other { text: "use serde::{Deserialize, Serialize};".to_string() },
        ],
    };
    let once = repair(unit()).unwrap();
    assert_ne!(once, unit());
    let twice = repair(repair(unit()).unwrap()).unwrap();
    assert_eq!(twice, once);
}

#[test]
fn declarations_are_written_as_source() {
    let unit = Unit {
        decls: vec![
            Decl::Other { text: "use a::b;".to_string() },
            Decl::Struct {
                attrs: vec![],
                head: "struct".to_string(),
                name: "Pair".to_string(),
                generics: String::new(),
                fields: None,
                rest: "(u8, u8);".to_string(),
                mentions: vec![],
            },
            Decl::Struct {
                attrs: vec![Attribute::Other { text: "#[non_exhaustive]".to_string() }],
                head: "pub struct".to_string(),
                name: "Named".to_string(),
                generics: "<T>".to_string(),
                fields: Some(vec![
                    FieldDecl { attrs: vec![], head: String::new(), ..plain("a") },
                    plain("b"),
                ]),
                rest: String::new(),
                mentions: vec![],
            },
            Decl::Enum {
                attrs: vec![],
                head: "enum".to_string(),
                name: "Empty".to_string(),
                generics: String::new(),
                variants: vec![],
            },
        ],
    };
    assert_eq!(
        unit.render(),
        "use a::b;\n\
         struct Pair(u8, u8);\n\
         #[non_exhaustive] pub struct Named<T> { a: String, \
         #[serde(rename = \"b\")] pub b: String }\n\
         enum Empty {  }"
    );
    assert_eq!(Unit { decls: vec![] }.render(), "");
}

#[test]
fn failures_have_reasons_and_trees_have_copies() {
    let all = [
        RepairError::TagFieldMissing,
        RepairError::VariantClaimedTwice,
        RepairError::LiteralNotFound,
        RepairError::VariantTagMissing,
        RepairError::NotRust,
    ];
    for (i, one) in all.iter().enumerate() {
        assert!(!one.reason().is_empty());
        for other in &all[i + 1..] {
            assert_ne!(one.reason(), other.reason());
        }
    }
    assert_eq!(generated().clone(), generated());
}

#[test]
fn occurrences_are_removed_from_the_start() {
    assert_eq!(remove_all("crate::a::crate::b", "crate::"), "a::b");
    assert_eq!(remove_all("aaa", "aa"), "a");
    assert_eq!(remove_all("abab", "ab"), "");
    assert_eq!(remove_all("ccrate::", "crate::"), "c");
    assert_eq!(remove_all("crate:", "crate::"), "crate:");
    assert_eq!(remove_all("", "x"), "");
    assert_eq!(remove_all("abc", ""), "abc");
    assert_eq!(remove_all("été::é", "é"), "t::");
}
