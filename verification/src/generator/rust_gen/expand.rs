//! The Rust types that field types expand to.

use vstd::prelude::*;
use vstd::string::*;
use crate::generator::rust_gen::{EmitError, text_result_view, texts_result_view};
use crate::ir::{FieldType, FieldTypeView, Primitive, field_type_views, lemma_field_type_views};
use crate::text::{join, join_spec, views};

verus! {

/// The Rust type of a primitive kind.
pub open spec fn primitive_text(kind: Primitive) -> Seq<char> {
    match kind {
        Primitive::String => "String"@,
        Primitive::Int => "i32"@,
        Primitive::Double => "f64"@,
        Primitive::Bool => "bool"@,
        Primitive::Long => "i64"@,
        Primitive::Float => "f32"@,
        Primitive::Uuid => "uuid::Uuid"@,
        Primitive::Bytes => "Vec<u8>"@,
        Primitive::U32 => "u32"@,
        Primitive::U64 => "u64"@,
    }
}

/// The Rust type that admits only the literal `value` of kind `kind`.
pub open spec fn literal_type_text(kind: Primitive, value: Seq<char>) -> Result<
    Seq<char>,
    EmitError,
> {
    match kind {
        Primitive::String => Ok("monostate::MustBe!(\""@ + value + "\")"@),
        Primitive::Uuid => Err(EmitError::UnsupportedLiteral),
        Primitive::Bytes => Err(EmitError::UnsupportedLiteral),
        _ => Ok("monostate::MustBe!("@ + value + ")"@),
    }
}

/// The Rust type that a field type expands to.
pub open spec fn expand_spec(field_type: FieldTypeView) -> Result<Seq<char>, EmitError>
    decreases field_type,
{
    match field_type {
        FieldTypeView::Named(name) => Ok(name),
        FieldTypeView::Array(Some(item)) => match expand_spec(*item) {
            Ok(item) => Ok("Vec<"@ + item + ">"@),
            Err(e) => Err(e),
        },
        FieldTypeView::Array(None) => Ok("Vec<serde_json::Value>"@),
        FieldTypeView::Object(Some(value)) => match expand_spec(*value) {
            Ok(value) => Ok("std::collections::HashMap<String, "@ + value + ">"@),
            Err(e) => Err(e),
        },
        FieldTypeView::Object(None) => Ok(
            "std::collections::HashMap<String, serde_json::Value>"@,
        ),
        FieldTypeView::Tuple(items) => match expand_all(items) {
            Ok(items) => Ok("("@ + join_spec(items, ", "@) + ")"@),
            Err(e) => Err(e),
        },
        FieldTypeView::Simple(kind) => Ok(primitive_text(kind)),
        FieldTypeView::Const(kind, value) => literal_type_text(kind, value),
    }
}

/// The Rust types that the field types `types` expand to, in order.
pub open spec fn expand_all(types: Seq<FieldTypeView>) -> Result<Seq<Seq<char>>, EmitError>
    decreases types,
{
    if types.len() == 0 {
        Ok(Seq::empty())
    } else {
        match expand_all(types.drop_last()) {
            Ok(front) => match expand_spec(types.last()) {
                Ok(last) => Ok(front.push(last)),
                Err(e) => Err(e),
            },
            Err(e) => Err(e),
        }
    }
}

/// A failure among the first `k` types is the failure of the whole.
proof fn lemma_expand_failure(types: Seq<FieldTypeView>, k: int)
    requires
        0 <= k <= types.len(),
        expand_all(types.take(k)) is Err,
    ensures
        expand_all(types) == expand_all(types.take(k)),
    decreases types.len(),
{
    if k < types.len() {
        assert(types.drop_last().take(k) == types.take(k));
        lemma_expand_failure(types.drop_last(), k);
    } else {
        assert(types.take(k) == types);
    }
}

/// The Rust type of a primitive kind.
fn primitive_name(kind: Primitive) -> (out: &'static str)
    ensures
        out@ == primitive_text(kind),
{
    match kind {
        Primitive::String => "String",
        Primitive::Int => "i32",
        Primitive::Double => "f64",
        Primitive::Bool => "bool",
        Primitive::Long => "i64",
        Primitive::Float => "f32",
        Primitive::Uuid => "uuid::Uuid",
        Primitive::Bytes => "Vec<u8>",
        Primitive::U32 => "u32",
        Primitive::U64 => "u64",
    }
}

/// Expands a field type to the Rust type that stands for it.
pub fn expand_field_type(field_type: &FieldType) -> (out: Result<String, EmitError>)
    ensures
        text_result_view(out) == expand_spec(field_type@),
    decreases field_type,
{
    match field_type {
        FieldType::Named(name) => Ok(name.clone()),
        FieldType::Array(Some(item)) => match expand_field_type(item) {
            Ok(item) => {
                let mut out = String::from_str("Vec<");
                out.append(item.as_str());
                out.append(">");
                Ok(out)
            },
            Err(e) => Err(e),
        },
        FieldType::Array(None) => Ok(String::from_str("Vec<serde_json::Value>")),
        FieldType::Object(Some(value)) => match expand_field_type(value) {
            Ok(value) => {
                let mut out = String::from_str("std::collections::HashMap<String, ");
                out.append(value.as_str());
                out.append(">");
                Ok(out)
            },
            Err(e) => Err(e),
        },
        FieldType::Object(None) => Ok(
            String::from_str("std::collections::HashMap<String, serde_json::Value>"),
        ),
        FieldType::Tuple(items) => match expand_field_types(items) {
            Ok(parts) => {
                let mut out = String::from_str("(");
                out.append(join(&parts, ", ").as_str());
                out.append(")");
                Ok(out)
            },
            Err(e) => Err(e),
        },
        FieldType::Simple(kind) => Ok(String::from_str(primitive_name(*kind))),
        FieldType::Const(kind, value) => match kind {
            Primitive::String => {
                let mut out = String::from_str("monostate::MustBe!(\"");
                out.append(value.as_str());
                out.append("\")");
                Ok(out)
            },
            Primitive::Uuid => Err(EmitError::UnsupportedLiteral),
            Primitive::Bytes => Err(EmitError::UnsupportedLiteral),
            _ => {
                let mut out = String::from_str("monostate::MustBe!(");
                out.append(value.as_str());
                out.append(")");
                Ok(out)
            },
        },
    }
}

/// Expands the field types `items`, in order.
pub fn expand_field_types(items: &Vec<FieldType>) -> (out: Result<Vec<String>, EmitError>)
    ensures
        texts_result_view(out) == expand_all(field_type_views(items@)),
    decreases items,
{
    let mut parts: Vec<String> = Vec::new();
    let mut i: usize = 0;
    let ghost all = field_type_views(items@);
    proof {
        lemma_field_type_views(items@);
        assert(all.take(0) =~= Seq::empty());
        assert(views(parts@) =~= Seq::empty());
    }
    while i < items.len()
        invariant
            i <= items.len(),
            all == field_type_views(items@),
            all.len() == items.len(),
            forall|j: int| 0 <= j < items.len() ==> all[j] == items[j]@,
            expand_all(all.take(i as int)) == Ok::<Seq<Seq<char>>, EmitError>(views(parts@)),
        decreases items.len() - i,
    {
        proof {
            assert(all.take(i as int + 1).drop_last() == all.take(i as int));
            assert(all.take(i as int + 1).last() == items[i as int]@);
        }
        let ghost before = views(parts@);
        match expand_field_type(&items[i]) {
            Ok(part) => {
                parts.push(part);
                assert(views(parts@) =~= before.push(part@));
            },
            Err(e) => {
                proof {
                    lemma_expand_failure(all, i as int + 1);
                }
                return Err(e);
            },
        }
        i += 1;
    }
    proof {
        assert(all.take(items.len() as int) == all);
    }
    Ok(parts)
}

} // verus!
