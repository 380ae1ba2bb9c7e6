//! Writing a syntax tree back as source text.

use vstd::prelude::*;
use vstd::string::*;
use crate::syntax::{
    Attribute, AttributeView, Decl, DeclView, FieldDecl, FieldDeclView, Token, TokenView, Unit,
    Variant, VariantView, attribute_views, field_views, token_views, variant_views,
};
use crate::text::{join, join_spec, views};

verus! {

/// The source text of a token.
pub open spec fn token_source(token: TokenView) -> Seq<char> {
    match token {
        TokenView::Ident(name) => name,
        TokenView::Punct { ch, .. } => seq![ch],
        TokenView::Literal(text) => text,
        TokenView::Group(text) => text,
    }
}

/// Whether the next token follows `token` without a space.
pub open spec fn glued(token: TokenView) -> bool {
    token matches TokenView::Punct { joint, .. } && joint
}

/// The source text of a list of tokens: a space stands between two tokens
/// unless the first of them is a joint punctuation.
pub open spec fn tokens_source(tokens: Seq<TokenView>) -> Seq<char>
    decreases tokens.len(),
{
    if tokens.len() == 0 {
        Seq::empty()
    } else if tokens.len() == 1 {
        token_source(tokens[0])
    } else if glued(tokens[tokens.len() - 2]) {
        tokens_source(tokens.drop_last()) + token_source(tokens.last())
    } else {
        tokens_source(tokens.drop_last()) + " "@ + token_source(tokens.last())
    }
}

/// The source text of an attribute.
pub open spec fn attribute_source(attr: AttributeView) -> Seq<char> {
    match attr {
        AttributeView::List { open, tokens, close, .. } => open + tokens_source(tokens) + close,
        AttributeView::Other { text } => text,
    }
}

/// The source text of a list of attributes: each is followed by a space.
pub open spec fn attributes_source(attrs: Seq<AttributeView>) -> Seq<char>
    decreases attrs.len(),
{
    if attrs.len() == 0 {
        Seq::empty()
    } else {
        attributes_source(attrs.drop_last()) + attribute_source(attrs.last()) + " "@
    }
}

/// The source text of a variant.
pub open spec fn variant_source(variant: VariantView) -> Seq<char> {
    attributes_source(variant.attrs) + variant.name + variant.rest
}

/// The source text of a field.
pub open spec fn field_source(field: FieldDeclView) -> Seq<char> {
    attributes_source(field.attrs) + field.head + field.name + ": "@ + field.type_text
}

/// The source texts of a list of variants.
pub open spec fn variants_source(variants: Seq<VariantView>) -> Seq<Seq<char>> {
    Seq::new(variants.len(), |i: int| variant_source(variants[i]))
}

/// The source texts of a list of fields.
pub open spec fn fields_source(fields: Seq<FieldDeclView>) -> Seq<Seq<char>> {
    Seq::new(fields.len(), |i: int| field_source(fields[i]))
}

/// The source text of a declaration.
pub open spec fn decl_source(decl: DeclView) -> Seq<char> {
    match decl {
        DeclView::Enum { attrs, head, name, generics, variants } => attributes_source(attrs) + head
            + " "@ + name + generics + " { "@ + join_spec(variants_source(variants), ", "@)
            + " }"@,
        DeclView::Struct { attrs, head, name, generics, fields: Some(fields), rest, .. } => {
            attributes_source(attrs) + head + " "@ + name + generics + " { "@ + join_spec(
                fields_source(fields),
                ", "@,
            ) + " }"@ + rest
        },
        DeclView::Struct { attrs, head, name, generics, fields: None, rest, .. } => attributes_source(
            attrs,
        ) + head + " "@ + name + generics + rest,
        DeclView::Other { text } => text,
    }
}

/// The source texts of a list of declarations.
pub open spec fn decls_source(decls: Seq<DeclView>) -> Seq<Seq<char>> {
    Seq::new(decls.len(), |i: int| decl_source(decls[i]))
}

/// The source text of a unit: its declarations, each on a line of its own.
pub open spec fn unit_source(unit: Seq<DeclView>) -> Seq<char> {
    join_spec(decls_source(unit), "\n"@)
}

/// Writes a list of tokens.
pub fn render_tokens(tokens: &Vec<Token>) -> (out: String)
    ensures
        out@ == tokens_source(token_views(tokens@)),
{
    let mut out = String::new();
    let mut i: usize = 0;
    let ghost all = token_views(tokens@);
    proof {
        assert(all.take(0) =~= Seq::empty());
    }
    while i < tokens.len()
        invariant
            i <= tokens.len(),
            all == token_views(tokens@),
            out@ == tokens_source(all.take(i as int)),
        decreases tokens.len() - i,
    {
        proof {
            let next = all.take(i as int + 1);
            assert(next.drop_last() == all.take(i as int));
            assert(next.last() == tokens[i as int]@);
            if i > 0 {
                assert(next[next.len() - 2] == tokens[i as int - 1]@);
            }
        }
        if i > 0 {
            let glued_to_next = match &tokens[i - 1] {
                Token::Punct { joint, .. } => *joint,
                _ => false,
            };
            if !glued_to_next {
                out.append(" ");
            }
        }
        match &tokens[i] {
            Token::Ident(name) => out.append(name.as_str()),
            Token::Punct { ch, .. } => {
                out.push(*ch);
                proof {
                    assert(seq![*ch] =~= Seq::empty().push(*ch));
                }
            },
            Token::Literal(text) => out.append(text.as_str()),
            Token::Group(text) => out.append(text.as_str()),
        }
        assert(out@ =~= tokens_source(all.take(i as int + 1)));
        i += 1;
    }
    proof {
        assert(all.take(tokens.len() as int) == all);
    }
    out
}

/// Writes an attribute.
pub fn render_attribute(attr: &Attribute) -> (out: String)
    ensures
        out@ == attribute_source(attr@),
{
    match attr {
        Attribute::List { open, tokens, close, .. } => {
            let mut out = open.clone();
            out.append(render_tokens(tokens).as_str());
            out.append(close.as_str());
            out
        },
        Attribute::Other { text } => text.clone(),
    }
}

/// Writes a list of attributes.
pub fn render_attributes(attrs: &Vec<Attribute>) -> (out: String)
    ensures
        out@ == attributes_source(attribute_views(attrs@)),
{
    let mut out = String::new();
    let mut i: usize = 0;
    let ghost all = attribute_views(attrs@);
    proof {
        assert(all.take(0) =~= Seq::empty());
    }
    while i < attrs.len()
        invariant
            i <= attrs.len(),
            all == attribute_views(attrs@),
            out@ == attributes_source(all.take(i as int)),
        decreases attrs.len() - i,
    {
        proof {
            assert(all.take(i as int + 1).drop_last() == all.take(i as int));
            assert(all.take(i as int + 1).last() == attrs[i as int]@);
        }
        out.append(render_attribute(&attrs[i]).as_str());
        out.append(" ");
        i += 1;
    }
    proof {
        assert(all.take(attrs.len() as int) == all);
    }
    out
}

/// Writes a variant.
pub fn render_variant(variant: &Variant) -> (out: String)
    ensures
        out@ == variant_source(variant@),
{
    let mut out = render_attributes(&variant.attrs);
    out.append(variant.name.as_str());
    out.append(variant.rest.as_str());
    out
}

/// Writes a field.
pub fn render_field(field: &FieldDecl) -> (out: String)
    ensures
        out@ == field_source(field@),
{
    let mut out = render_attributes(&field.attrs);
    out.append(field.head.as_str());
    out.append(field.name.as_str());
    out.append(": ");
    out.append(field.type_text.as_str());
    out
}

/// Writes a declaration.
pub fn render_decl(decl: &Decl) -> (out: String)
    ensures
        out@ == decl_source(decl@),
{
    match decl {
        Decl::Enum { attrs, head, name, generics, variants } => {
            let mut parts: Vec<String> = Vec::new();
            let mut i: usize = 0;
            while i < variants.len()
                invariant
                    i <= variants.len(),
                    parts.len() == i,
                    forall|j: int| 0 <= j < i ==> parts[j]@ == variant_source(variants[j]@),
                decreases variants.len() - i,
            {
                parts.push(render_variant(&variants[i]));
                i += 1;
            }
            assert(views(parts@) =~= variants_source(variant_views(variants@)));
            let mut out = render_attributes(attrs);
            out.append(head.as_str());
            out.append(" ");
            out.append(name.as_str());
            out.append(generics.as_str());
            out.append(" { ");
            out.append(join(&parts, ", ").as_str());
            out.append(" }");
            out
        },
        Decl::Struct { attrs, head, name, generics, fields: Some(fields), rest, .. } => {
            let mut parts: Vec<String> = Vec::new();
            let mut i: usize = 0;
            while i < fields.len()
                invariant
                    i <= fields.len(),
                    parts.len() == i,
                    forall|j: int| 0 <= j < i ==> parts[j]@ == field_source(fields[j]@),
                decreases fields.len() - i,
            {
                parts.push(render_field(&fields[i]));
                i += 1;
            }
            assert(views(parts@) =~= fields_source(field_views(fields@)));
            let mut out = render_attributes(attrs);
            out.append(head.as_str());
            out.append(" ");
            out.append(name.as_str());
            out.append(generics.as_str());
            out.append(" { ");
            out.append(join(&parts, ", ").as_str());
            out.append(" }");
            out.append(rest.as_str());
            out
        },
        Decl::Struct { attrs, head, name, generics, fields: None, rest, .. } => {
            let mut out = render_attributes(attrs);
            out.append(head.as_str());
            out.append(" ");
            out.append(name.as_str());
            out.append(generics.as_str());
            out.append(rest.as_str());
            out
        },
        Decl::Other { text } => text.clone(),
    }
}

impl Unit {
    /// Writes the unit as source text.
    pub fn render(&self) -> (out: String)
        ensures
            out@ == unit_source(self@),
    {
        let mut parts: Vec<String> = Vec::new();
        let mut i: usize = 0;
        while i < self.decls.len()
            invariant
                i <= self.decls.len(),
                parts.len() == i,
                forall|j: int| 0 <= j < i ==> parts[j]@ == decl_source(self.decls[j]@),
            decreases self.decls.len() - i,
        {
            parts.push(render_decl(&self.decls[i]));
            i += 1;
        }
        assert(views(parts@) =~= decls_source(self@));
        join(&parts, "\n")
    }
}

} // verus!
