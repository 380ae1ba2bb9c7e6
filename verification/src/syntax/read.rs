//! Reading the parts of source text, with `syn` and `proc_macro2`.
//!
//! Each function here parses a text as one kind of syntax and prints the
//! parts of what it parsed. Nothing is proved of them: what each returns has
//! a name, and the tree that is put together from the parts is stated over
//! these names.

use vstd::prelude::*;
use vstd::string::*;
use proc_macro2::{Spacing, TokenStream, TokenTree};
use quote::ToTokens;
use std::str::FromStr;
use syn::parse::Parser;
use crate::syntax::{Token, TokenView, token_views};
use crate::text::{optional_text, views};

verus! {

/// The printed parts of a sum type or a product type.
#[derive(Debug)]
pub struct RawDecl {
    pub attrs: Vec<String>,
    pub vis: String,
    pub name: String,
    pub generics: String,
    pub where_clause: String,
    /// The variants of an enum or the named fields of a struct.
    pub members: Option<Vec<String>>,
    /// The fields of a struct as a whole.
    pub body: String,
    pub semi: String,
}

/// The mathematical value of a [`RawDecl`].
pub struct RawDeclView {
    pub attrs: Seq<Seq<char>>,
    pub vis: Seq<char>,
    pub name: Seq<char>,
    pub generics: Seq<char>,
    pub where_clause: Seq<char>,
    pub members: Option<Seq<Seq<char>>>,
    pub body: Seq<char>,
    pub semi: Seq<char>,
}

impl View for RawDecl {
    type V = RawDeclView;

    open spec fn view(&self) -> RawDeclView {
        RawDeclView {
            attrs: views(self.attrs@),
            vis: self.vis@,
            name: self.name@,
            generics: self.generics@,
            where_clause: self.where_clause@,
            members: match self.members {
                Some(members) => Some(views(members@)),
                None => None,
            },
            body: self.body@,
            semi: self.semi@,
        }
    }
}

/// The printed parts of a variant or a named field: `rest` is what follows
/// the name of a variant, and the type of a field.
#[derive(Debug)]
pub struct RawMember {
    pub attrs: Vec<String>,
    pub vis: String,
    pub name: String,
    pub rest: String,
}

/// The mathematical value of a [`RawMember`].
pub struct RawMemberView {
    pub attrs: Seq<Seq<char>>,
    pub vis: Seq<char>,
    pub name: Seq<char>,
    pub rest: Seq<char>,
}

impl View for RawMember {
    type V = RawMemberView;

    open spec fn view(&self) -> RawMemberView {
        RawMemberView {
            attrs: views(self.attrs@),
            vis: self.vis@,
            name: self.name@,
            rest: self.rest@,
        }
    }
}

/// The printed parts of an attribute with an argument list: its path, the
/// first segment of it, the delimiters of the list and its tokens.
#[derive(Debug)]
pub struct RawList {
    pub path: String,
    pub head: String,
    pub left: char,
    pub right: char,
    pub tokens: String,
}

/// The mathematical value of a [`RawList`].
pub struct RawListView {
    pub path: Seq<char>,
    pub head: Seq<char>,
    pub left: char,
    pub right: char,
    pub tokens: Seq<char>,
}

impl View for RawList {
    type V = RawListView;

    open spec fn view(&self) -> RawListView {
        RawListView {
            path: self.path@,
            head: self.head@,
            left: self.left,
            right: self.right,
            tokens: self.tokens@,
        }
    }
}

/// The printed parts of a path type: the first segment of the path and,
/// where that segment has generic arguments of which the first is a type,
/// that type.
#[derive(Debug)]
pub struct RawType {
    pub head: String,
    pub argument: Option<String>,
}

/// The mathematical value of a [`RawType`].
pub struct RawTypeView {
    pub head: Seq<char>,
    pub argument: Option<Seq<char>>,
}

impl View for RawType {
    type V = RawTypeView;

    open spec fn view(&self) -> RawTypeView {
        RawTypeView { head: self.head@, argument: optional_text(self.argument) }
    }
}

/// The view of a list of texts, where there is one.
pub open spec fn optional_texts(texts: Option<Vec<String>>) -> Option<Seq<Seq<char>>> {
    match texts {
        Some(texts) => Some(views(texts@)),
        None => None,
    }
}

/// The view of the parts of a declaration, where there are any.
pub open spec fn optional_decl_parts(raw: Option<RawDecl>) -> Option<RawDeclView> {
    match raw {
        Some(raw) => Some(raw@),
        None => None,
    }
}

/// The view of the parts of a member, where there are any.
pub open spec fn optional_member_parts(raw: Option<RawMember>) -> Option<RawMemberView> {
    match raw {
        Some(raw) => Some(raw@),
        None => None,
    }
}

/// The view of the parts of an attribute, where there are any.
pub open spec fn optional_list_parts(raw: Option<RawList>) -> Option<RawListView> {
    match raw {
        Some(raw) => Some(raw@),
        None => None,
    }
}

/// The view of the parts of a type, where there are any.
pub open spec fn optional_type_parts(raw: Option<RawType>) -> Option<RawTypeView> {
    match raw {
        Some(raw) => Some(raw@),
        None => None,
    }
}

/// The view of a list of tokens, where there is one.
pub open spec fn optional_tokens(tokens: Option<Vec<Token>>) -> Option<Seq<TokenView>> {
    match tokens {
        Some(tokens) => Some(token_views(tokens@)),
        None => None,
    }
}

/// The inner attributes and the items of the file that `source` parses as,
/// each as `syn` prints it, in order; `None` where `source` is no file.
pub uninterp spec fn file_parts(source: Seq<char>) -> Option<Seq<Seq<char>>>;

/// Parses `source` with `syn::parse_str::<syn::File>` and prints each inner
/// attribute and each item of the file with `to_token_stream` and
/// `to_string`.
///
/// Trusted: the result is `file_parts` of the source, which is all that is
/// claimed of it.
#[verifier::external_body]
pub(crate) fn split_file(source: &str) -> (out: Option<Vec<String>>)
    ensures
        optional_texts(out) == file_parts(source@),
{
    let file = syn::parse_str::<syn::File>(source).ok()?;
    let attrs = file.attrs.iter().map(|attr| attr.to_token_stream().to_string());
    let items = file.items.iter().map(|item| item.to_token_stream().to_string());
    Some(attrs.chain(items).collect())
}

/// The parts of the enum that `item` parses as; `None` where `item` is no
/// enum.
pub uninterp spec fn enum_parts(item: Seq<char>) -> Option<RawDeclView>;

/// Parses `item` with `syn::parse_str::<syn::ItemEnum>` and prints its parts
/// with `to_token_stream` and `to_string`.
///
/// Trusted: the result is `enum_parts` of the text, which is all that is
/// claimed of it.
#[verifier::external_body]
pub(crate) fn read_enum(item: &str) -> (out: Option<RawDecl>)
    ensures
        optional_decl_parts(out) == enum_parts(item@),
{
    let item = syn::parse_str::<syn::ItemEnum>(item).ok()?;
    Some(RawDecl {
        attrs: item.attrs.iter().map(|attr| attr.to_token_stream().to_string()).collect(),
        vis: item.vis.to_token_stream().to_string(),
        name: item.ident.to_string(),
        generics: item.generics.to_token_stream().to_string(),
        where_clause: item.generics.where_clause.to_token_stream().to_string(),
        members: Some(item.variants.iter().map(|v| v.to_token_stream().to_string()).collect()),
        body: String::new(),
        semi: String::new(),
    })
}

/// The parts of the struct that `item` parses as; `None` where `item` is no
/// struct.
pub uninterp spec fn struct_parts(item: Seq<char>) -> Option<RawDeclView>;

/// Parses `item` with `syn::parse_str::<syn::ItemStruct>` and prints its
/// parts with `to_token_stream` and `to_string`; the members are the named
/// fields, where the struct has named fields.
///
/// Trusted: the result is `struct_parts` of the text, which is all that is
/// claimed of it.
#[verifier::external_body]
pub(crate) fn read_struct(item: &str) -> (out: Option<RawDecl>)
    ensures
        optional_decl_parts(out) == struct_parts(item@),
{
    let item = syn::parse_str::<syn::ItemStruct>(item).ok()?;
    Some(RawDecl {
        attrs: item.attrs.iter().map(|attr| attr.to_token_stream().to_string()).collect(),
        vis: item.vis.to_token_stream().to_string(),
        name: item.ident.to_string(),
        generics: item.generics.to_token_stream().to_string(),
        where_clause: item.generics.where_clause.to_token_stream().to_string(),
        members: match &item.fields {
            syn::Fields::Named(f) => Some(f.named.iter().map(|f| f.to_token_stream().to_string()).collect()),
            _ => None,
        },
        body: item.fields.to_token_stream().to_string(),
        semi: item.semi_token.to_token_stream().to_string(),
    })
}

/// The parts of the variant that `text` parses as; `None` where `text` is no
/// variant.
pub uninterp spec fn variant_parts(text: Seq<char>) -> Option<RawMemberView>;

/// Parses `text` with `syn::parse_str::<syn::Variant>` and prints its parts
/// with `to_token_stream` and `to_string`; the rest is its fields and its
/// discriminant.
///
/// Trusted: the result is `variant_parts` of the text, which is all that is
/// claimed of it.
#[verifier::external_body]
pub(crate) fn read_variant(text: &str) -> (out: Option<RawMember>)
    ensures
        optional_member_parts(out) == variant_parts(text@),
{
    let variant = syn::parse_str::<syn::Variant>(text).ok()?;
    let mut rest = variant.fields.to_token_stream();
    rest.extend(variant.discriminant.iter().map(|(equals, _)| equals.to_token_stream()));
    rest.extend(variant.discriminant.iter().map(|(_, value)| value.to_token_stream()));
    Some(RawMember {
        attrs: variant.attrs.iter().map(|attr| attr.to_token_stream().to_string()).collect(),
        vis: String::new(),
        name: variant.ident.to_string(),
        rest: rest.to_string(),
    })
}

/// The parts of the named field that `text` parses as; `None` where `text`
/// is no named field.
pub uninterp spec fn field_parts(text: Seq<char>) -> Option<RawMemberView>;

/// Parses `text` with `syn::Field::parse_named` and prints its parts with
/// `to_token_stream` and `to_string`; the rest is its type.
///
/// Trusted: the result is `field_parts` of the text, which is all that is
/// claimed of it.
#[verifier::external_body]
pub(crate) fn read_field(text: &str) -> (out: Option<RawMember>)
    ensures
        optional_member_parts(out) == field_parts(text@),
{
    let field = syn::Field::parse_named.parse_str(text).ok()?;
    Some(RawMember {
        attrs: field.attrs.iter().map(|attr| attr.to_token_stream().to_string()).collect(),
        vis: field.vis.to_token_stream().to_string(),
        name: field.ident.as_ref()?.to_string(),
        rest: field.ty.to_token_stream().to_string(),
    })
}

/// The parts of the attribute with an argument list that `text` parses as;
/// `None` where `text` is no such attribute.
pub uninterp spec fn list_parts(text: Seq<char>) -> Option<RawListView>;

/// Parses `text` with `syn::Attribute::parse_outer` and prints the parts of
/// the first attribute with `to_token_stream` and `to_string`, where its
/// meta is a list.
///
/// Trusted: the result is `list_parts` of the text, which is all that is
/// claimed of it.
#[verifier::external_body]
pub(crate) fn read_list(text: &str) -> (out: Option<RawList>)
    ensures
        optional_list_parts(out) == list_parts(text@),
{
    let attrs = syn::Attribute::parse_outer.parse_str(text).ok()?;
    let syn::Meta::List(list) = &attrs.first()?.meta else {
        return None;
    };
    let (left, right) = match list.delimiter {
        syn::MacroDelimiter::Paren(_) => ('(', ')'),
        syn::MacroDelimiter::Brace(_) => ('{', '}'),
        syn::MacroDelimiter::Bracket(_) => ('[', ']'),
    };
    let path = list.path.to_token_stream().to_string();
    let head = list.path.segments.first()?.ident.to_string();
    Some(RawList { path, head, left, right, tokens: list.tokens.to_string() })
}

/// The parts of the path type that `text` parses as; `None` where `text` is
/// no path type.
pub uninterp spec fn type_parts(text: Seq<char>) -> Option<RawTypeView>;

/// Parses `text` with `syn::parse_str::<syn::Type>` and, where it is a path
/// type, prints the first segment of the path and the first of its generic
/// arguments, where that is a type.
///
/// Trusted: the result is `type_parts` of the text, which is all that is
/// claimed of it.
#[verifier::external_body]
pub(crate) fn read_type(text: &str) -> (out: Option<RawType>)
    ensures
        optional_type_parts(out) == type_parts(text@),
{
    let syn::Type::Path(path) = syn::parse_str::<syn::Type>(text).ok()? else {
        return None;
    };
    let first = path.path.segments.first()?;
    let argument = match &first.arguments {
        syn::PathArguments::AngleBracketed(list) => match list.args.first() {
            Some(syn::GenericArgument::Type(inner)) => Some(inner.to_token_stream().to_string()),
            _ => None,
        },
        _ => None,
    };
    Some(RawType { head: first.ident.to_string(), argument })
}

/// The token trees that `text` lexes to, in order; `None` where `text` does
/// not lex as a token stream.
pub uninterp spec fn token_trees(text: Seq<char>) -> Option<Seq<TokenView>>;

/// Lexes `text` with `proc_macro2::TokenStream::from_str` and hands out its
/// token trees: an identifier, a literal and a group as their `to_string`, a
/// punctuation as its `as_char` and whether its `spacing` is joint.
///
/// Trusted: the result is `token_trees` of the text, which is all that is
/// claimed of it.
#[verifier::external_body]
pub(crate) fn lex_trees(text: &str) -> (out: Option<Vec<Token>>)
    ensures
        optional_tokens(out) == token_trees(text@),
{
    let stream = TokenStream::from_str(text).ok()?;
    Some(stream.into_iter().map(|tree| match tree {
        TokenTree::Ident(ident) => Token::Ident(ident.to_string()),
        TokenTree::Punct(p) => Token::Punct { ch: p.as_char(), joint: p.spacing() == Spacing::Joint },
        TokenTree::Literal(literal) => Token::Literal(literal.to_string()),
        TokenTree::Group(group) => Token::Group(group.to_string()),
    }).collect())
}

} // verus!
