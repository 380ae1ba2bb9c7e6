//! The text of declarations, with places for the pieces of an entity.

use vstd::prelude::*;
use vstd::string::*;
use crate::text::{join, join_spec, views};

verus! {

/// The attribute that every declaration derives its capabilities with.
pub open spec fn derive_text() -> Seq<char> {
    "#[derive(Debug, Clone, Eq, PartialEq, serde::Deserialize, serde::Serialize)]"@
}

/// A struct member: `name` of type `field_type`, in an `Option` where it is
/// optional, with the wire name `wire_literal` (a string literal).
pub open spec fn member_text(
    wire_literal: Seq<char>,
    name: Seq<char>,
    field_type: Seq<char>,
    optional: bool,
) -> Seq<char> {
    if optional {
        "#[serde(rename = "@ + wire_literal + ")] pub "@ + name + ": Option<"@ + field_type + ">"@
    } else {
        "#[serde(rename = "@ + wire_literal + ")] pub "@ + name + ": "@ + field_type
    }
}

/// The member that catches every wire field that no other member names.
pub open spec fn catch_all_text(value_type: Seq<char>) -> Seq<char> {
    "#[serde(flatten)] pub additional_properties: std::collections::HashMap<String, "@
        + value_type + ">"@
}

/// A member whose fields are merged into the fields of its struct.
pub open spec fn flattened_text(name: Seq<char>, field_type: Seq<char>) -> Seq<char> {
    "#[serde(flatten)] pub "@ + name + ": "@ + field_type
}

/// A variant that wraps the type of its own name.
pub open spec fn variant_text(name: Seq<char>) -> Seq<char> {
    name + "("@ + name + ")"@
}

/// A struct declaration with the given members.
pub open spec fn struct_text(identifier: Seq<char>, members: Seq<Seq<char>>) -> Seq<char> {
    derive_text() + " pub struct "@ + identifier + " { "@ + join_spec(members, ", "@) + " }"@
}

/// An enum declaration with the given variants, after the attribute
/// `attribute` where there is one.
pub open spec fn enum_text(
    attribute: Seq<char>,
    identifier: Seq<char>,
    variants: Seq<Seq<char>>,
) -> Seq<char> {
    derive_text() + attribute + " pub enum "@ + identifier + " { "@ + join_spec(variants, ", "@)
        + " }"@
}

/// The attribute of a sum type that is told apart by the field whose name is
/// the string literal `tag_literal`.
pub open spec fn tag_attribute_text(tag_literal: Seq<char>) -> Seq<char> {
    " #[serde(tag = "@ + tag_literal + ")]"@
}

/// The attribute of a sum type whose variants are tried in order.
pub open spec fn untagged_attribute_text() -> Seq<char> {
    " #[serde(untagged)]"@
}

/// Writes a struct member.
pub fn member_declaration(wire_literal: &str, name: &str, field_type: &str, optional: bool) -> (out:
    String)
    ensures
        out@ == member_text(wire_literal@, name@, field_type@, optional),
{
    let mut out = String::from_str("#[serde(rename = ");
    out.append(wire_literal);
    out.append(")] pub ");
    out.append(name);
    if optional {
        out.append(": Option<");
        out.append(field_type);
        out.append(">");
    } else {
        out.append(": ");
        out.append(field_type);
    }
    out
}

/// Writes the member that catches the undeclared wire fields.
pub fn catch_all_declaration(value_type: &str) -> (out: String)
    ensures
        out@ == catch_all_text(value_type@),
{
    let mut out = String::from_str(
        "#[serde(flatten)] pub additional_properties: std::collections::HashMap<String, ",
    );
    out.append(value_type);
    out.append(">");
    out
}

/// Writes a member that is flattened into its struct.
pub fn flattened_declaration(name: &str, field_type: &str) -> (out: String)
    ensures
        out@ == flattened_text(name@, field_type@),
{
    let mut out = String::from_str("#[serde(flatten)] pub ");
    out.append(name);
    out.append(": ");
    out.append(field_type);
    out
}

/// Writes a variant that wraps the type of its own name.
pub fn variant_declaration(name: &str) -> (out: String)
    ensures
        out@ == variant_text(name@),
{
    let mut out = String::from_str(name);
    out.append("(");
    out.append(name);
    out.append(")");
    out
}

/// Writes a struct declaration.
pub fn struct_declaration(identifier: &str, members: &Vec<String>) -> (out: String)
    ensures
        out@ == struct_text(identifier@, views(members@)),
{
    let mut out = String::from_str(
        "#[derive(Debug, Clone, Eq, PartialEq, serde::Deserialize, serde::Serialize)]",
    );
    out.append(" pub struct ");
    out.append(identifier);
    out.append(" { ");
    out.append(join(members, ", ").as_str());
    out.append(" }");
    out
}

/// Writes an enum declaration.
pub fn enum_declaration(attribute: &str, identifier: &str, variants: &Vec<String>) -> (out: String)
    ensures
        out@ == enum_text(attribute@, identifier@, views(variants@)),
{
    let mut out = String::from_str(
        "#[derive(Debug, Clone, Eq, PartialEq, serde::Deserialize, serde::Serialize)]",
    );
    out.append(attribute);
    out.append(" pub enum ");
    out.append(identifier);
    out.append(" { ");
    out.append(join(variants, ", ").as_str());
    out.append(" }");
    out
}

/// Writes the attribute of a sum type that is told apart by a field.
pub fn tag_attribute(tag_literal: &str) -> (out: String)
    ensures
        out@ == tag_attribute_text(tag_literal@),
{
    let mut out = String::from_str(" #[serde(tag = ");
    out.append(tag_literal);
    out.append(")]");
    out
}

} // verus!
