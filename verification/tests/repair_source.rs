use proc_macro2::TokenStream;
use quote::ToTokens;
use schema2code::repair::{generate_models_from_sources, join_inputs, repair, RepairError};
use schema2code::syntax::parse::{list_names_in, parse_attribute, parse_type, parse_unit};
use schema2code::syntax::{Attribute, Decl, FieldDecl, Token, TypeRef, Unit, Variant};

fn unit_of(source: &str) -> Unit {
    parse_unit(source).unwrap()
}

fn tokens_of(source: &str) -> String {
    source.parse::<TokenStream>().unwrap().to_string()
}

fn without_trailing_commas(source: &str) -> String {
    tokens_of(source).replace(char::is_whitespace, "").replace(",}", "}")
}

const GET_USER_ROLE: &str = r#"// GetUserRoleForModuleAndFailIfNone represents a GetUserRoleForModuleAndFailIfNone model.
#[derive(Clone, Debug, Deserialize, Serialize)]
pub struct GetUserRoleForModuleAndFailIfNone {
    #[serde(rename = "id")]
    pub id: String,
    #[serde(rename = "kind")]
    pub kind: Box<crate::AnonymousSchema2>,
    #[serde(rename = "event")]
    pub event: Box<crate::AnonymousSchema4>,
    #[serde(rename = "data")]
    pub data: Box<crate::GetUserRoleForModuleAndFailIfNoneData>,
    #[serde(
        rename = "additionalProperties",
        skip_serializing_if = "Option::is_none"
    )]
    pub additional_properties: Option<std::collections::HashMap<String, serde_json::Value>>,
}
"#;

const DELETE_PACKAGE_ELEMENT: &str = r#"// DeletePackageElement represents a DeletePackageElement model.
#[derive(Clone, Debug, Deserialize, Serialize)]
pub struct DeletePackageElement {
    #[serde(rename="id")]
    pub id: String,
    #[serde(rename="kind")]
    pub kind: Box<crate::AnonymousSchema2>,
    #[serde(rename="event")]
    pub event: Box<crate::AnonymousSchema8>,
    #[serde(rename="data")]
    pub data: Box<crate::DeletePackageElementData>,
    #[serde(rename="additionalProperties", skip_serializing_if = "Option::is_none")]
    pub additional_properties: Option<std::collections::HashMap<String, serde_json::Value>>,
}
"#;

const PAYLOAD: &str = r#"// OneApiRequestPayload represents a union of types: GetUserRoleForModuleAndFailIfNone, DeletePackageElement
#[derive(Clone, Debug, Deserialize, Eq, Hash, Ord, PartialEq, PartialOrd, Serialize)]
#[serde(tag = "event")]
pub enum OneApiRequestPayload {
    #[serde(rename="GetUserRoleForModuleAndFailIfNone")]
    GetUserRoleForModuleAndFailIfNone(crate::GetUserRoleForModuleAndFailIfNone),
    #[serde(rename="DeletePackageElement")]
    DeletePackageElement(crate::DeletePackageElement),
}
"#;

const LITERALS: &str = r#"#[derive(Clone, Copy, Debug, Deserialize, Eq, Hash, Ord, PartialEq, PartialOrd, Serialize)]
pub enum AnonymousSchema2 {
    #[serde(rename="request")]
    Request,
}
#[derive(Clone, Copy, Debug, Deserialize, Eq, Hash, Ord, PartialEq, PartialOrd, Serialize)]
pub enum AnonymousSchema4 {
    #[serde(rename="getUserRoleForModuleAndFailIfNone")]
    GetUserRoleForModuleAndFailIfNone,
}
#[derive(Clone, Copy, Debug, Deserialize, Eq, Hash, Ord, PartialEq, PartialOrd, Serialize)]
pub enum AnonymousSchema8 {
    #[serde(rename="deletePackageElement")]
    DeletePackageElement,
}
"#;

fn fragments() -> Vec<String> {
    vec![
        DELETE_PACKAGE_ELEMENT.to_string(),
        GET_USER_ROLE.to_string(),
        PAYLOAD.to_string(),
        LITERALS.to_string(),
    ]
}

#[test]
fn joined_fragments_refer_to_each_other_directly() {
    let joined = join_inputs(&fragments());
    assert!(joined.starts_with("// DeletePackageElement"));
    assert!(!joined.contains("crate::"));
    assert!(joined.contains("pub event: Box<AnonymousSchema8>,"));
    assert!(joined.ends_with("    DeletePackageElement,\n}\n\n"));
    assert_eq!(join_inputs(&vec![]), "");
    assert_eq!(
        join_inputs(&vec!["crate::crate::a::crate:::crate::".to_string(), "ccrate::".to_string()]),
        "a:::\nc\n"
    );
    let once = join_inputs(&vec!["use a::B;".to_string()]);
    assert_eq!(join_inputs(&vec![once.clone()]).trim_end(), once.trim_end());
}

#[test]
fn a_tree_is_written_back_with_the_same_tokens() {
    let joined = join_inputs(&fragments());
    let unit = unit_of(&joined);
    assert_eq!(without_trailing_commas(&unit.render()), without_trailing_commas(&joined));
    let odd = r#"
        #![allow(dead_code)]
        use std::fmt;
        /// Documented.
        #[derive(Debug)]
        pub(crate) struct Pair<T>(pub T, T) where T: Clone;
        struct Unit;
        #[repr(u8)]
        enum Small<'a, T: 'a> where T: fmt::Debug { A = 1, B { x: &'a T }, C(T, T) }
        struct Named<T> where T: Clone { #[doc = "x"] pub(crate) a: Vec<Vec<T>>, b: (u8, u8) }
        #[cfg_attr(test, derive(Eq, PartialEq))]
        #[path::like[a, b]]
        struct Plain {}
        fn main() {}
    "#;
    assert_eq!(without_trailing_commas(&unit_of(odd).render()), without_trailing_commas(odd));
}

#[test]
fn the_duplicated_tag_field_is_removed_and_the_tag_corrected() {
    let unit = unit_of(&join_inputs(&fragments()));
    let repaired = repair(unit).unwrap();
    let text = repaired.render();
    let file = syn::parse_str::<syn::File>(&text).unwrap();
    let mut seen = 0;
    for item in &file.items {
        match item {
            syn::Item::Struct(item) => {
                let fields: Vec<String> =
                    item.fields.iter().map(|f| f.ident.as_ref().unwrap().to_string()).collect();
                assert_eq!(fields, vec!["id", "kind", "data", "additional_properties"]);
                assert_eq!(
                    tokens_of(&item.attrs[0].to_token_stream().to_string()),
                    tokens_of("#[derive(Clone, Debug, Deserialize, Serialize)]")
                );
                seen += 1;
            }
            syn::Item::Enum(item) if item.ident == "OneApiRequestPayload" => {
                assert_eq!(
                    tokens_of(&item.attrs[0].to_token_stream().to_string()),
                    tokens_of("#[derive(Clone, Debug, Deserialize, Serialize)]")
                );
                assert_eq!(
                    tokens_of(&item.attrs[1].to_token_stream().to_string()),
                    tokens_of("#[serde(tag = \"event\")]")
                );
                let tags: Vec<String> = item
                    .variants
                    .iter()
                    .map(|v| v.attrs[0].to_token_stream().to_string())
                    .collect();
                assert_eq!(
                    tags,
                    vec![
                        tokens_of("#[serde(rename = \"getUserRoleForModuleAndFailIfNone\")]"),
                        tokens_of("#[serde(rename = \"deletePackageElement\")]"),
                    ]
                );
                let wrapped: Vec<String> =
                    item.variants.iter().map(|v| v.fields.to_token_stream().to_string()).collect();
                assert_eq!(
                    wrapped,
                    vec![
                        tokens_of("(GetUserRoleForModuleAndFailIfNone)"),
                        tokens_of("(DeletePackageElement)"),
                    ]
                );
                seen += 1;
            }
            syn::Item::Enum(item) => {
                assert_eq!(
                    tokens_of(&item.attrs[0].to_token_stream().to_string()),
                    tokens_of("#[derive(Clone, Debug, Deserialize, Serialize)]")
                );
                seen += 1;
            }
            _ => {}
        }
    }
    assert_eq!(seen, 6);
}

#[test]
fn fragments_are_repaired_as_source() {
    let text = generate_models_from_sources(&fragments()).unwrap();
    assert_eq!(text, tokens_of(&text));
    let unit = unit_of(&join_inputs(&fragments()));
    assert_eq!(text, tokens_of(&repair(unit).unwrap().render()));
    assert!(text.starts_with(&tokens_of("#[derive(Clone, Debug, Deserialize, Serialize)]")));
    assert!(text.contains(&tokens_of(
        "#[serde(rename = \"deletePackageElement\")] DeletePackageElement(DeletePackageElement)"
    )));
    assert!(!text.contains("event :"));
    assert_eq!(
        generate_models_from_sources(&vec!["struct {".to_string()]),
        Err(RepairError::NotRust)
    );
    assert_eq!(
        generate_models_from_sources(&vec!["struct A { b }".to_string()]),
        Err(RepairError::NotRust)
    );
    assert_eq!(
        generate_models_from_sources(&vec![PAYLOAD.to_string(), "struct DeletePackageElement;".to_string()]),
        Err(RepairError::TagFieldMissing)
    );
    assert_eq!(generate_models_from_sources(&vec![]).unwrap(), "");
}

#[test]
fn parts_of_the_tree_are_read_from_their_text() {
    assert_eq!(
        parse_attribute("#[serde(rename = \"a\", default)]"),
        Attribute::List {
            head: "serde".to_string(),
            open: "#[serde(".to_string(),
            tokens: vec![
                Token::Ident("rename".to_string()),
                Token::Punct { ch: '=', joint: false },
                Token::Literal("\"a\"".to_string()),
                Token::Punct { ch: ',', joint: false },
                Token::Ident("default".to_string()),
            ],
            close: ")]".to_string(),
        }
    );
    assert_eq!(
        parse_attribute("#[a::b{x}]"),
        Attribute::List {
            head: "a".to_string(),
            open: "#[a :: b{".to_string(),
            tokens: vec![Token::Ident("x".to_string())],
            close: "}]".to_string(),
        }
    );
    assert_eq!(
        parse_attribute("#[doc = \"x\"]"),
        Attribute::Other { text: "#[doc = \"x\"]".to_string() }
    );
    assert_eq!(parse_attribute("nothing"), Attribute::Other { text: "nothing".to_string() });
    let boxed = |inner: TypeRef| TypeRef::Path {
        head: "Box".to_string(),
        argument: Some(Box::new(inner)),
    };
    let named = |name: &str| TypeRef::Path { head: name.to_string(), argument: None };
    assert_eq!(parse_type("Box<Box<crate::Literal>>", 9), boxed(boxed(named("crate"))));
    assert_eq!(parse_type("Box<Box<Literal>>", 1), boxed(TypeRef::Path {
        head: "Box".to_string(),
        argument: None,
    }));
    assert_eq!(parse_type("Vec<'a, T>", 9), named("Vec"));
    assert_eq!(parse_type("Box<&str>", 9), boxed(TypeRef::Other));
    assert_eq!(parse_type("(u8, u8)", 9), TypeRef::Other);
    assert_eq!(parse_type("not a type", 9), TypeRef::Other);
    assert_eq!(parse_unit("fn f( {"), None);
    let unit = unit_of("#![allow(x)] pub(crate) enum E<T> where T: Copy { A = 1, #[b] B(T) } struct U;");
    assert_eq!(
        unit,
        Unit {
            decls: vec![
                Decl::Other { text: "# ! [allow (x)]".to_string() },
                Decl::Enum {
                    attrs: vec![],
                    head: "pub (crate) enum".to_string(),
                    name: "E".to_string(),
                    generics: " < T > where T : Copy".to_string(),
                    variants: vec![
                        Variant {
                            attrs: vec![],
                            name: "A".to_string(),
                            rest: " = 1".to_string(),
                            mentions: vec![],
                        },
                        Variant {
                            attrs: vec![Attribute::Other { text: "# [b]".to_string() }],
                            name: "B".to_string(),
                            rest: " (T)".to_string(),
                            mentions: vec!["T".to_string()],
                        },
                    ],
                },
                Decl::Struct {
                    attrs: vec![],
                    head: "struct".to_string(),
                    name: "U".to_string(),
                    generics: String::new(),
                    fields: None,
                    rest: " ;".to_string(),
                    mentions: vec![],
                },
            ],
        }
    );
    let unit = unit_of("struct S { pub a: Box<L>, b: u8 }");
    let Decl::Struct { fields: Some(fields), .. } = &unit.decls[0] else {
        panic!("a struct with named fields is expected");
    };
    assert_eq!(
        fields[0],
        FieldDecl {
            attrs: vec![],
            head: "pub ".to_string(),
            name: "a".to_string(),
            type_text: "Box < L >".to_string(),
            ty: boxed(named("L")),
            mentions: vec!["Box".to_string(), "L".to_string()],
        }
    );
    assert_eq!(fields[1].head, "");
}

#[test]
fn a_second_run_finds_no_tag_field() {
    let unit = unit_of(&join_inputs(&fragments()));
    let repaired = repair(unit).unwrap();
    assert_eq!(repair(repaired), Err(RepairError::TagFieldMissing));
}

#[test]
fn a_second_run_changes_nothing_without_variant_structs() {
    let source = join_inputs(&vec![PAYLOAD.to_string(), LITERALS.to_string()]);
    let once = repair(unit_of(&source)).unwrap();
    let text = once.render();
    let lines: Vec<&str> = text.lines().collect();
    assert!(lines[0].contains("Eq , Hash , Ord , PartialEq , PartialOrd"));
    for literal in &lines[1..] {
        assert!(literal.starts_with("#[derive(Clone , Debug , Deserialize , Serialize)]"));
    }
    let twice = repair(unit_of(&text)).unwrap();
    assert_eq!(twice.render(), text);
    assert_eq!(repair(unit_of(&text)).map(|unit| unit == once), Ok(true));
}

#[test]
fn capabilities_are_stripped_where_a_literal_type_is_included() {
    let source = r#"
        #[derive(Clone, Eq)] enum Outer { Middle(Middle), Free(Free) }
        #[derive(Clone, Hash)] struct Middle { inner: Box<Box<Inner>>, free: Free }
        #[derive(Copy, Clone)] struct Inner { literal: Literal }
        #[derive(Ord, Clone)] enum Literal { #[serde(rename = "x")] Only }
        #[derive(Clone, Eq)] struct Free { text: String, list: Vec<u8> }
        #[derive(Clone, Eq)] enum Two { #[serde(rename = "x")] One, #[serde(rename = "y")] Other }
        #[derive(Clone, Eq)] enum Bare { Only }
        #[derive(Clone, Eq)] struct Listed { list: Vec<Literal> }
        #[derive(Clone, Eq)] struct Maybe { one: Option<Box<Literal>> }
        #[derive(Clone, Eq)] struct Keyed { map: std::collections::HashMap<String, Literal> }
        #[derive(Clone, Eq)] struct Paired { pair: (u8, [Literal; 2]) }
        #[derive(Clone, Eq)] struct Borrowed<'a> { one: &'a Literal }
        #[derive(Clone, Eq)] struct Tuple(u8, Option<Literal>);
        #[derive(Clone, Eq)] struct Unit;
        #[derive(Clone, Eq)] enum Wrapping { Other(u8), Named { inner: Vec<Maybe> } }
        #[derive(Clone, Eq)] enum Unrelated { Literal, Maybe(u8) }
        #[derive(Clone, Eq)] struct Far { far: Vec<Wrapping> }
    "#;
    let text = repair(unit_of(source)).unwrap().render();
    let kept: Vec<(String, bool)> = syn::parse_str::<syn::File>(&text)
        .unwrap()
        .items
        .iter()
        .map(|item| {
            let (name, attrs) = match item {
                syn::Item::Enum(item) => (item.ident.to_string(), &item.attrs),
                syn::Item::Struct(item) => (item.ident.to_string(), &item.attrs),
                _ => panic!("a struct or an enum is expected"),
            };
            let derive = attrs[0].to_token_stream().to_string();
            assert!(derive.contains("Clone"));
            (name, ["Eq", "Hash", "Copy", "Ord"].iter().any(|c| derive.contains(c)))
        })
        .collect();
    let expected = [
        ("Outer", false),
        ("Middle", false),
        ("Inner", false),
        ("Literal", false),
        ("Free", true),
        ("Two", true),
        ("Bare", true),
        ("Listed", false),
        ("Maybe", false),
        ("Keyed", false),
        ("Paired", false),
        ("Borrowed", false),
        ("Tuple", false),
        ("Unit", true),
        ("Wrapping", false),
        ("Unrelated", true),
        ("Far", false),
    ];
    let expected: Vec<(String, bool)> =
        expected.iter().map(|(name, kept)| (name.to_string(), *kept)).collect();
    assert_eq!(kept, expected);
}

#[test]
fn the_names_in_a_type_are_read_wherever_they_stand() {
    assert_eq!(
        list_names_in("std::collections::HashMap<String, (Box<[L; 2]>, &'a dyn Fn(M) -> N)>"),
        vec!["std", "collections", "HashMap", "String", "Box", "L", "a", "dyn", "Fn", "M", "N"]
    );
    assert_eq!(list_names_in("(((Deep)))"), vec!["Deep"]);
    assert_eq!(list_names_in(""), Vec::<String>::new());
    assert_eq!(list_names_in("(unbalanced"), Vec::<String>::new());
}

#[test]
fn the_wire_name_decides_which_field_is_the_tag() {
    let source = r#"
        #[serde(tag = "event")]
        enum Message { #[serde(rename = "A")] Ping(Ping) }
        struct Ping {
            #[serde(rename = "event")]
            kind_of_event: Box<Box<Literal>>,
            #[serde(rename = "evt")]
            event: String,
        }
        enum Literal { #[serde(rename = "ping")] Only }
    "#;
    let repaired = repair(unit_of(source)).unwrap();
    let text = repaired.render();
    let file = syn::parse_str::<syn::File>(&text).unwrap();
    let syn::Item::Struct(ping) = &file.items[1] else {
        panic!("a struct is expected");
    };
    let fields: Vec<String> =
        ping.fields.iter().map(|f| f.ident.as_ref().unwrap().to_string()).collect();
    assert_eq!(fields, vec!["event"]);
    assert!(tokens_of(&text).contains(&tokens_of("#[serde(rename = \"ping\")] Ping(Ping)")));
}

#[test]
fn inconsistent_units_are_refused() {
    let missing = r#"
        #[serde(tag = "event")]
        enum Message { #[serde(rename = "A")] Ping(Ping) }
        struct Ping { other: String }
    "#;
    assert_eq!(repair(unit_of(missing)), Err(RepairError::TagFieldMissing));
    let tuple = r#"
        #[serde(tag = "event")]
        enum Message { #[serde(rename = "A")] Ping(Ping) }
        struct Ping(String);
    "#;
    assert_eq!(repair(unit_of(tuple)), Err(RepairError::TagFieldMissing));
    let twice = r#"
        #[serde(tag = "event")]
        enum Message { Ping(Ping) }
        #[serde(tag = "kind")]
        enum Other { Pong(Pong), Ping(Ping) }
    "#;
    assert_eq!(repair(unit_of(twice)), Err(RepairError::VariantClaimedTwice));
    let untagged = r#"
        #[serde(tag = "event")]
        enum Message { Ping(Ping) }
        #[serde(untagged)]
        enum Other { Ping(Ping) }
    "#;
    assert!(repair(unit_of(untagged)).is_ok());
    let no_literal = r#"
        #[serde(tag = "event")]
        enum Message { #[serde(rename = "A")] Ping(Ping) }
        struct Ping { event: String }
    "#;
    assert_eq!(repair(unit_of(no_literal)), Err(RepairError::LiteralNotFound));
    let bare_box = r#"
        #[serde(tag = "event")]
        enum Message { #[serde(rename = "A")] Ping(Ping) }
        struct Ping { event: Box }
    "#;
    assert_eq!(repair(unit_of(bare_box)), Err(RepairError::LiteralNotFound));
    let reference = r#"
        #[serde(tag = "event")]
        enum Message { #[serde(rename = "A")] Ping(Ping) }
        struct Ping { event: &'static str }
    "#;
    assert_eq!(repair(unit_of(reference)), Err(RepairError::LiteralNotFound));
    let unnamed_literal = r#"
        #[serde(tag = "event")]
        enum Message { #[serde(rename = "A")] Ping(Ping) }
        struct Ping { event: Literal }
        enum Literal { Only }
    "#;
    assert_eq!(repair(unit_of(unnamed_literal)), Err(RepairError::LiteralNotFound));
    let no_tag_to_rewrite = r#"
        #[serde(tag = "event")]
        enum Message { Ping(Ping) }
        struct Ping { event: Literal }
        enum Literal { #[serde(rename = "ping")] Only }
    "#;
    assert_eq!(repair(unit_of(no_tag_to_rewrite)), Err(RepairError::VariantTagMissing));
    let path_tag = r#"
        #[serde(tag = "event")]
        enum Message { #[default] Ping(Ping) }
        struct Ping { event: Literal }
        enum Literal { #[serde(rename = "ping")] Only }
    "#;
    assert_eq!(repair(unit_of(path_tag)), Err(RepairError::VariantTagMissing));
}
