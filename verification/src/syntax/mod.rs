//! A syntax tree for generated declarations.
//!
//! The tree holds what the repair pass reads and rewrites (names, attributes
//! and their tokens, fields and the heads of their types) as values of its
//! own, and everything else as the source text it was read from, so that a
//! tree can be written back as source text.
//!
//! [`parse`] reads a tree from source text, through the functions of
//! [`read`], and [`render`] writes one. A tree that is built by hand lists
//! in the `mentions` of its fields and variants the names of the types that
//! they are made of; [`parse`] lists every identifier of their text.

pub mod parse;
pub mod read;
pub mod render;

pub use self::render::{
    render_attribute, render_attributes, render_decl, render_field, render_tokens, render_variant,
};

use vstd::prelude::*;
use crate::text::{clone_texts, views};

verus! {

/// One token of the argument list of an attribute.
#[derive(Debug, PartialEq, Eq)]
pub enum Token {
    /// An identifier.
    Ident(String),
    /// A punctuation character; `joint` where the next token follows it
    /// without a space.
    Punct { ch: char, joint: bool },
    /// A literal, as it is written in the source, quotes included.
    Literal(String),
    /// A delimited group, as it is written in the source.
    Group(String),
}

/// The mathematical value of a [`Token`].
pub enum TokenView {
    Ident(Seq<char>),
    Punct { ch: char, joint: bool },
    Literal(Seq<char>),
    Group(Seq<char>),
}

impl View for Token {
    type V = TokenView;

    open spec fn view(&self) -> TokenView {
        match self {
            Token::Ident(name) => TokenView::Ident(name@),
            Token::Punct { ch, joint } => TokenView::Punct { ch: *ch, joint: *joint },
            Token::Literal(text) => TokenView::Literal(text@),
            Token::Group(text) => TokenView::Group(text@),
        }
    }
}

impl Clone for Token {
    fn clone(&self) -> (out: Self)
        ensures
            out@ == self@,
    {
        match self {
            Token::Ident(name) => Token::Ident(name.clone()),
            Token::Punct { ch, joint } => Token::Punct { ch: *ch, joint: *joint },
            Token::Literal(text) => Token::Literal(text.clone()),
            Token::Group(text) => Token::Group(text.clone()),
        }
    }
}

/// A copy of `tokens`.
pub fn clone_tokens(tokens: &Vec<Token>) -> (out: Vec<Token>)
    ensures
        token_views(out@) == token_views(tokens@),
{
    let mut out: Vec<Token> = Vec::new();
    let mut i: usize = 0;
    while i < tokens.len()
        invariant
            i <= tokens.len(),
            out.len() == i,
            forall|j: int| 0 <= j < i ==> out[j]@ == tokens[j]@,
        decreases tokens.len() - i,
    {
        out.push(tokens[i].clone());
        i += 1;
    }
    assert(token_views(out@) =~= token_views(tokens@));
    out
}

/// The views of a list of tokens.
pub open spec fn token_views(tokens: Seq<Token>) -> Seq<TokenView> {
    Seq::new(tokens.len(), |i: int| tokens[i]@)
}

/// An attribute of a declaration, a variant or a field.
#[derive(Debug, PartialEq, Eq)]
pub enum Attribute {
    /// An attribute with an argument list, such as `#[derive(Debug, Clone)]`:
    /// `head` is the first segment of its path, `open` the text before the
    /// tokens of the list, `close` the text after them.
    List { head: String, open: String, tokens: Vec<Token>, close: String },
    /// Any other attribute, as it is written in the source.
    Other { text: String },
}

/// The mathematical value of an [`Attribute`].
pub enum AttributeView {
    List { head: Seq<char>, open: Seq<char>, tokens: Seq<TokenView>, close: Seq<char> },
    Other { text: Seq<char> },
}

impl View for Attribute {
    type V = AttributeView;

    open spec fn view(&self) -> AttributeView {
        match self {
            Attribute::List { head, open, tokens, close } => AttributeView::List {
                head: head@,
                open: open@,
                tokens: token_views(tokens@),
                close: close@,
            },
            Attribute::Other { text } => AttributeView::Other { text: text@ },
        }
    }
}

impl Clone for Attribute {
    fn clone(&self) -> (out: Self)
        ensures
            out@ == self@,
    {
        match self {
            Attribute::List { head, open, tokens, close } => Attribute::List {
                head: head.clone(),
                open: open.clone(),
                tokens: clone_tokens(tokens),
                close: close.clone(),
            },
            Attribute::Other { text } => Attribute::Other { text: text.clone() },
        }
    }
}

/// A copy of `attrs`.
pub fn clone_attributes(attrs: &Vec<Attribute>) -> (out: Vec<Attribute>)
    ensures
        attribute_views(out@) == attribute_views(attrs@),
{
    let mut out: Vec<Attribute> = Vec::new();
    let mut i: usize = 0;
    while i < attrs.len()
        invariant
            i <= attrs.len(),
            out.len() == i,
            forall|j: int| 0 <= j < i ==> out[j]@ == attrs[j]@,
        decreases attrs.len() - i,
    {
        out.push(attrs[i].clone());
        i += 1;
    }
    assert(attribute_views(out@) =~= attribute_views(attrs@));
    out
}

/// The views of a list of attributes.
pub open spec fn attribute_views(attrs: Seq<Attribute>) -> Seq<AttributeView> {
    Seq::new(attrs.len(), |i: int| attrs[i]@)
}

/// A variant of an enum: `rest` is what follows its name in the source, and
/// `mentions` are the names that occur in it, which are those of the types
/// of its fields.
#[derive(Debug, PartialEq, Eq)]
pub struct Variant {
    pub attrs: Vec<Attribute>,
    pub name: String,
    pub rest: String,
    pub mentions: Vec<String>,
}

/// The mathematical value of a [`Variant`].
pub struct VariantView {
    pub attrs: Seq<AttributeView>,
    pub name: Seq<char>,
    pub rest: Seq<char>,
    pub mentions: Seq<Seq<char>>,
}

impl View for Variant {
    type V = VariantView;

    open spec fn view(&self) -> VariantView {
        VariantView {
            attrs: attribute_views(self.attrs@),
            name: self.name@,
            rest: self.rest@,
            mentions: views(self.mentions@),
        }
    }
}

impl Clone for Variant {
    fn clone(&self) -> (out: Self)
        ensures
            out@ == self@,
    {
        Variant {
            attrs: clone_attributes(&self.attrs),
            name: self.name.clone(),
            rest: self.rest.clone(),
            mentions: clone_texts(&self.mentions),
        }
    }
}

/// A copy of `variants`.
pub fn clone_variants(variants: &Vec<Variant>) -> (out: Vec<Variant>)
    ensures
        variant_views(out@) == variant_views(variants@),
{
    let mut out: Vec<Variant> = Vec::new();
    let mut i: usize = 0;
    while i < variants.len()
        invariant
            i <= variants.len(),
            out.len() == i,
            forall|j: int| 0 <= j < i ==> out[j]@ == variants[j]@,
        decreases variants.len() - i,
    {
        out.push(variants[i].clone());
        i += 1;
    }
    assert(variant_views(out@) =~= variant_views(variants@));
    out
}

/// The view of a variant, where there is one.
pub open spec fn optional_variant_view(variant: Option<Variant>) -> Option<VariantView> {
    match variant {
        Some(variant) => Some(variant@),
        None => None,
    }
}

/// The views of a list of variants.
pub open spec fn variant_views(variants: Seq<Variant>) -> Seq<VariantView> {
    Seq::new(variants.len(), |i: int| variants[i]@)
}

/// The head of a type: for a path type the first segment of the path and,
/// where that segment has generic arguments of which the first is a type,
/// the head of that type.
#[derive(Debug, PartialEq, Eq)]
pub enum TypeRef {
    Path { head: String, argument: Option<Box<TypeRef>> },
    Other,
}

/// The mathematical value of a [`TypeRef`].
pub enum TypeRefView {
    Path { head: Seq<char>, argument: Option<Box<TypeRefView>> },
    Other,
}

/// The mathematical value of the head of a type.
pub open spec fn type_ref_view(ty: TypeRef) -> TypeRefView
    decreases ty,
{
    match ty {
        TypeRef::Path { head, argument: Some(inner) } => TypeRefView::Path {
            head: head@,
            argument: Some(Box::new(type_ref_view(*inner))),
        },
        TypeRef::Path { head, argument: None } => TypeRefView::Path { head: head@, argument: None },
        TypeRef::Other => TypeRefView::Other,
    }
}

impl View for TypeRef {
    type V = TypeRefView;

    open spec fn view(&self) -> TypeRefView {
        type_ref_view(*self)
    }
}

impl Clone for TypeRef {
    fn clone(&self) -> (out: Self)
        ensures
            out@ == self@,
        decreases self,
    {
        match self {
            TypeRef::Path { head, argument: Some(inner) } => {
                let inner: &TypeRef = inner;
                TypeRef::Path { head: head.clone(), argument: Some(Box::new(inner.clone())) }
            },
            TypeRef::Path { head, argument: None } => TypeRef::Path {
                head: head.clone(),
                argument: None,
            },
            TypeRef::Other => TypeRef::Other,
        }
    }
}

/// A named field of a struct: `head` is what precedes its name in the
/// source (its visibility), `type_text` its type as it is written there,
/// `ty` the head of that type, and `mentions` the names that occur in it.
#[derive(Debug, PartialEq, Eq)]
pub struct FieldDecl {
    pub attrs: Vec<Attribute>,
    pub head: String,
    pub name: String,
    pub type_text: String,
    pub ty: TypeRef,
    pub mentions: Vec<String>,
}

/// The mathematical value of a [`FieldDecl`].
pub struct FieldDeclView {
    pub attrs: Seq<AttributeView>,
    pub head: Seq<char>,
    pub name: Seq<char>,
    pub type_text: Seq<char>,
    pub ty: TypeRefView,
    pub mentions: Seq<Seq<char>>,
}

impl View for FieldDecl {
    type V = FieldDeclView;

    open spec fn view(&self) -> FieldDeclView {
        FieldDeclView {
            attrs: attribute_views(self.attrs@),
            head: self.head@,
            name: self.name@,
            type_text: self.type_text@,
            ty: self.ty@,
            mentions: views(self.mentions@),
        }
    }
}

impl Clone for FieldDecl {
    fn clone(&self) -> (out: Self)
        ensures
            out@ == self@,
    {
        FieldDecl {
            attrs: clone_attributes(&self.attrs),
            head: self.head.clone(),
            name: self.name.clone(),
            type_text: self.type_text.clone(),
            ty: self.ty.clone(),
            mentions: clone_texts(&self.mentions),
        }
    }
}

/// A copy of `fields`.
pub fn clone_fields(fields: &Vec<FieldDecl>) -> (out: Vec<FieldDecl>)
    ensures
        field_views(out@) == field_views(fields@),
{
    let mut out: Vec<FieldDecl> = Vec::new();
    let mut i: usize = 0;
    while i < fields.len()
        invariant
            i <= fields.len(),
            out.len() == i,
            forall|j: int| 0 <= j < i ==> out[j]@ == fields[j]@,
        decreases fields.len() - i,
    {
        out.push(fields[i].clone());
        i += 1;
    }
    assert(field_views(out@) =~= field_views(fields@));
    out
}

/// The view of a field, where there is one.
pub open spec fn optional_field_view(field: Option<FieldDecl>) -> Option<FieldDeclView> {
    match field {
        Some(field) => Some(field@),
        None => None,
    }
}

/// The views of a list of fields.
pub open spec fn field_views(fields: Seq<FieldDecl>) -> Seq<FieldDeclView> {
    Seq::new(fields.len(), |i: int| fields[i]@)
}

/// The view of the named fields of a struct, where it has any.
pub open spec fn optional_field_views(fields: Option<Vec<FieldDecl>>) -> Option<
    Seq<FieldDeclView>,
> {
    match fields {
        Some(fields) => Some(field_views(fields@)),
        None => None,
    }
}

/// A declaration of a compilation unit.
#[derive(Debug, PartialEq, Eq)]
pub enum Decl {
    /// A sum type: `head` is what stands between its attributes and its
    /// name, `generics` what stands between its name and its variants.
    Enum { attrs: Vec<Attribute>, head: String, name: String, generics: String, variants: Vec<Variant> },
    /// A product type: `fields` are its named fields; where it has none,
    /// `rest` is what follows its name in the source, and `mentions` are
    /// the names that occur in that, which are those of the types of its
    /// fields.
    Struct {
        attrs: Vec<Attribute>,
        head: String,
        name: String,
        generics: String,
        fields: Option<Vec<FieldDecl>>,
        rest: String,
        mentions: Vec<String>,
    },
    /// Any other item, as it is written in the source.
    Other { text: String },
}

/// The mathematical value of a [`Decl`].
pub enum DeclView {
    Enum {
        attrs: Seq<AttributeView>,
        head: Seq<char>,
        name: Seq<char>,
        generics: Seq<char>,
        variants: Seq<VariantView>,
    },
    Struct {
        attrs: Seq<AttributeView>,
        head: Seq<char>,
        name: Seq<char>,
        generics: Seq<char>,
        fields: Option<Seq<FieldDeclView>>,
        rest: Seq<char>,
        mentions: Seq<Seq<char>>,
    },
    Other { text: Seq<char> },
}

impl View for Decl {
    type V = DeclView;

    open spec fn view(&self) -> DeclView {
        match self {
            Decl::Enum { attrs, head, name, generics, variants } => DeclView::Enum {
                attrs: attribute_views(attrs@),
                head: head@,
                name: name@,
                generics: generics@,
                variants: variant_views(variants@),
            },
            Decl::Struct { attrs, head, name, generics, fields, rest, mentions } => DeclView::Struct {
                attrs: attribute_views(attrs@),
                head: head@,
                name: name@,
                generics: generics@,
                fields: optional_field_views(*fields),
                rest: rest@,
                mentions: views(mentions@),
            },
            Decl::Other { text } => DeclView::Other { text: text@ },
        }
    }
}

impl Clone for Decl {
    fn clone(&self) -> (out: Self)
        ensures
            out@ == self@,
    {
        match self {
            Decl::Enum { attrs, head, name, generics, variants } => Decl::Enum {
                attrs: clone_attributes(attrs),
                head: head.clone(),
                name: name.clone(),
                generics: generics.clone(),
                variants: clone_variants(variants),
            },
            Decl::Struct { attrs, head, name, generics, fields, rest, mentions } => Decl::Struct {
                attrs: clone_attributes(attrs),
                head: head.clone(),
                name: name.clone(),
                generics: generics.clone(),
                fields: match fields {
                    Some(fields) => Some(clone_fields(fields)),
                    None => None,
                },
                rest: rest.clone(),
                mentions: clone_texts(mentions),
            },
            Decl::Other { text } => Decl::Other { text: text.clone() },
        }
    }
}

/// The views of a list of declarations.
pub open spec fn decl_views(decls: Seq<Decl>) -> Seq<DeclView> {
    Seq::new(decls.len(), |i: int| decls[i]@)
}

/// A compilation unit: its declarations, in order.
#[derive(Debug, PartialEq, Eq)]
pub struct Unit {
    pub decls: Vec<Decl>,
}

impl Clone for Unit {
    fn clone(&self) -> (out: Self)
        ensures
            out@ == self@,
    {
        let mut decls: Vec<Decl> = Vec::new();
        let mut i: usize = 0;
        while i < self.decls.len()
            invariant
                i <= self.decls.len(),
                decls.len() == i,
                forall|j: int| 0 <= j < i ==> decls[j]@ == self.decls[j]@,
            decreases self.decls.len() - i,
        {
            decls.push(self.decls[i].clone());
            i += 1;
        }
        assert(decl_views(decls@) =~= decl_views(self.decls@));
        Unit { decls }
    }
}

impl View for Unit {
    type V = Seq<DeclView>;

    open spec fn view(&self) -> Seq<DeclView> {
        decl_views(self.decls@)
    }
}

} // verus!
