//! Reading a syntax tree from source text.
//!
//! The text is parsed as a file, and every item of the file that is an enum
//! or a struct is taken apart: into its attributes, its name, and its
//! variants or its named fields. A part that is read further is parsed again
//! from its own text. Any other item is kept as its text. Of the types of
//! fields and variants the names that occur in them are kept, as the lexer
//! finds them.

use vstd::prelude::*;
use vstd::string::*;
use crate::syntax::{
    Attribute, AttributeView, Decl, DeclView, FieldDecl, FieldDeclView, Token, TokenView, TypeRef,
    TypeRefView, Unit, Variant, VariantView, attribute_views, decl_views, field_views,
    optional_field_view, optional_variant_view, token_views, variant_views,
};
use crate::syntax::read::{
    RawDecl, RawDeclView, enum_parts, field_parts, file_parts, lex_trees, list_parts, read_enum,
    read_field, read_list, read_struct, read_type, read_variant, split_file, struct_parts,
    token_trees, type_parts, variant_parts,
};
use crate::text::views;

verus! {

/// `text` and a space after it, where it is not empty.
pub open spec fn followed(text: Seq<char>) -> Seq<char> {
    if text.len() == 0 {
        text
    } else {
        text + " "@
    }
}

/// `text` and a space before it, where it is not empty.
pub open spec fn led(text: Seq<char>) -> Seq<char> {
    if text.len() == 0 {
        text
    } else {
        " "@ + text
    }
}

/// The attribute that `text` is: a list with its tokens where it parses as
/// one, else the text as it is.
pub open spec fn attribute_of(text: Seq<char>) -> AttributeView {
    match list_parts(text) {
        Some(raw) => match token_trees(raw.tokens) {
            Some(tokens) => AttributeView::List {
                head: raw.head,
                open: ("#["@ + raw.path).push(raw.left),
                tokens,
                close: seq![raw.right] + "]"@,
            },
            None => AttributeView::Other { text },
        },
        None => AttributeView::Other { text },
    }
}

/// The attributes that the texts `texts` are, in order.
pub open spec fn attributes_of(texts: Seq<Seq<char>>) -> Seq<AttributeView> {
    Seq::new(texts.len(), |i: int| attribute_of(texts[i]))
}

/// The head of the type that `text` is, followed through the first type
/// arguments as deep as `depth`.
pub open spec fn type_of(text: Seq<char>, depth: nat) -> TypeRefView
    decreases depth,
{
    match type_parts(text) {
        Some(raw) => TypeRefView::Path {
            head: raw.head,
            argument: match raw.argument {
                Some(inner) => if depth > 0 {
                    Some(Box::new(type_of(inner, (depth - 1) as nat)))
                } else {
                    None
                },
                None => None,
            },
        },
        None => TypeRefView::Other,
    }
}

/// The text between the delimiters of a group.
pub open spec fn within(group: Seq<char>) -> Seq<char> {
    if group.len() >= 2 {
        group.subrange(1, group.len() - 1)
    } else {
        Seq::empty()
    }
}

/// The identifiers among the tokens `tokens`, in order, with those inside
/// groups as deep as `depth`.
pub open spec fn names_among(tokens: Seq<TokenView>, depth: nat) -> Seq<Seq<char>>
    decreases depth, tokens.len(),
{
    if tokens.len() == 0 {
        Seq::empty()
    } else {
        names_among(tokens.drop_last(), depth) + match tokens.last() {
            TokenView::Ident(name) => seq![name],
            TokenView::Group(group) => if depth > 0 {
                match token_trees(within(group)) {
                    Some(inner) => names_among(inner, (depth - 1) as nat),
                    None => Seq::empty(),
                }
            } else {
                Seq::empty()
            },
            _ => Seq::empty(),
        }
    }
}

/// The names that occur in `text`: every identifier of it. In the text of a
/// type these are the names of the types it is made of, wherever in it they
/// stand.
pub open spec fn names_in(text: Seq<char>) -> Seq<Seq<char>> {
    match token_trees(text) {
        Some(tokens) => names_among(tokens, text.len()),
        None => Seq::empty(),
    }
}

/// Lists the identifiers among the tokens `tokens`, with those inside groups
/// as deep as `depth`.
pub fn list_names_among(tokens: &Vec<Token>, depth: usize) -> (out: Vec<String>)
    ensures
        views(out@) == names_among(token_views(tokens@), depth as nat),
    decreases depth,
{
    let mut out: Vec<String> = Vec::new();
    let mut i: usize = 0;
    let ghost all = token_views(tokens@);
    proof {
        assert(all.take(0) =~= Seq::empty());
        assert(views(out@) =~= Seq::empty());
    }
    while i < tokens.len()
        invariant
            i <= tokens.len(),
            all == token_views(tokens@),
            views(out@) == names_among(all.take(i as int), depth as nat),
        decreases tokens.len() - i,
    {
        proof {
            assert(all.take(i as int + 1).drop_last() == all.take(i as int));
            assert(all.take(i as int + 1).last() == tokens[i as int]@);
        }
        let ghost before = views(out@);
        match &tokens[i] {
            Token::Ident(name) => {
                out.push(name.clone());
                assert(views(out@) =~= before + seq![name@]);
            },
            Token::Group(group) => {
                let length = group.as_str().unicode_len();
                if depth > 0 {
                    let inner = if length >= 2 {
                        group.as_str().substring_char(1, length - 1)
                    } else {
                        ""
                    };
                    proof {
                        reveal_strlit("");
                        assert(inner@ =~= within(group@));
                    }
                    match lex_trees(inner) {
                        Some(trees) => {
                            let mut nested = list_names_among(&trees, depth - 1);
                            let ghost more = views(nested@);
                            out.append(&mut nested);
                            assert(views(out@) =~= before + more);
                        },
                        None => {
                            assert(before + Seq::<Seq<char>>::empty() =~= before);
                        },
                    }
                } else {
                    assert(before + Seq::<Seq<char>>::empty() =~= before);
                }
            },
            _ => {
                assert(before + Seq::<Seq<char>>::empty() =~= before);
            },
        }
        i += 1;
    }
    proof {
        assert(all.take(tokens.len() as int) == all);
    }
    out
}

/// Lists the names that occur in `text`.
pub fn list_names_in(text: &str) -> (out: Vec<String>)
    ensures
        views(out@) == names_in(text@),
{
    match lex_trees(text) {
        Some(tokens) => list_names_among(&tokens, text.unicode_len()),
        None => {
            let out: Vec<String> = Vec::new();
            assert(views(out@) =~= Seq::empty());
            out
        },
    }
}

/// The variant that `text` is.
pub open spec fn variant_of(text: Seq<char>) -> Option<VariantView> {
    match variant_parts(text) {
        Some(raw) => Some(
            VariantView {
                attrs: attributes_of(raw.attrs),
                name: raw.name,
                rest: led(raw.rest),
                mentions: names_in(raw.rest),
            },
        ),
        None => None,
    }
}

/// The variants that the texts `texts` are, in order; `None` where one of
/// them is no variant.
pub open spec fn variants_of(texts: Seq<Seq<char>>) -> Option<Seq<VariantView>>
    decreases texts.len(),
{
    if texts.len() == 0 {
        Some(Seq::empty())
    } else {
        match (variants_of(texts.drop_last()), variant_of(texts.last())) {
            (Some(front), Some(last)) => Some(front.push(last)),
            _ => None,
        }
    }
}

/// The named field that `text` is.
pub open spec fn field_of(text: Seq<char>) -> Option<FieldDeclView> {
    match field_parts(text) {
        Some(raw) => Some(
            FieldDeclView {
                attrs: attributes_of(raw.attrs),
                head: followed(raw.vis),
                name: raw.name,
                type_text: raw.rest,
                ty: type_of(raw.rest, raw.rest.len()),
                mentions: names_in(raw.rest),
            },
        ),
        None => None,
    }
}

/// The named fields that the texts `texts` are, in order; `None` where one
/// of them is no named field.
pub open spec fn fields_of(texts: Seq<Seq<char>>) -> Option<Seq<FieldDeclView>>
    decreases texts.len(),
{
    if texts.len() == 0 {
        Some(Seq::empty())
    } else {
        match (fields_of(texts.drop_last()), field_of(texts.last())) {
            (Some(front), Some(last)) => Some(front.push(last)),
            _ => None,
        }
    }
}

/// The sum type with the parts `raw`.
pub open spec fn enum_of(raw: RawDeclView) -> Option<DeclView> {
    match raw.members {
        Some(texts) => match variants_of(texts) {
            Some(variants) => Some(
                DeclView::Enum {
                    attrs: attributes_of(raw.attrs),
                    head: followed(raw.vis) + "enum"@,
                    name: raw.name,
                    generics: led(raw.generics) + led(raw.where_clause),
                    variants,
                },
            ),
            None => None,
        },
        None => None,
    }
}

/// The product type with the parts `raw`.
pub open spec fn struct_of(raw: RawDeclView) -> Option<DeclView> {
    match raw.members {
        Some(texts) => match fields_of(texts) {
            Some(fields) => Some(
                DeclView::Struct {
                    attrs: attributes_of(raw.attrs),
                    head: followed(raw.vis) + "struct"@,
                    name: raw.name,
                    generics: led(raw.generics) + led(raw.where_clause),
                    fields: Some(fields),
                    rest: Seq::empty(),
                    mentions: Seq::empty(),
                },
            ),
            None => None,
        },
        None => Some(
            DeclView::Struct {
                attrs: attributes_of(raw.attrs),
                head: followed(raw.vis) + "struct"@,
                name: raw.name,
                generics: Seq::empty(),
                fields: None,
                rest: led(raw.generics) + led(raw.body) + led(raw.where_clause) + led(raw.semi),
                mentions: names_in(raw.body),
            },
        ),
    }
}

/// The declaration that `text` is: a sum type or a product type where it
/// parses as one, else the text as it is.
pub open spec fn decl_of(text: Seq<char>) -> Option<DeclView> {
    match enum_parts(text) {
        Some(raw) => enum_of(raw),
        None => match struct_parts(text) {
            Some(raw) => struct_of(raw),
            None => Some(DeclView::Other { text }),
        },
    }
}

/// The declarations that the texts `texts` are, in order; `None` where a
/// part of one of them cannot be read.
pub open spec fn decls_of(texts: Seq<Seq<char>>) -> Option<Seq<DeclView>>
    decreases texts.len(),
{
    if texts.len() == 0 {
        Some(Seq::empty())
    } else {
        match (decls_of(texts.drop_last()), decl_of(texts.last())) {
            (Some(front), Some(last)) => Some(front.push(last)),
            _ => None,
        }
    }
}

/// The unit that `source` is: the inner attributes and the items of the
/// file, in order; `None` where `source` is no file.
pub open spec fn unit_of(source: Seq<char>) -> Option<Seq<DeclView>> {
    match file_parts(source) {
        Some(texts) => decls_of(texts),
        None => None,
    }
}

/// Appends a space to `text`, where it is not empty.
fn with_space_after(text: &str) -> (out: String)
    ensures
        out@ == followed(text@),
{
    let mut out = String::from_str(text);
    if text.unicode_len() > 0 {
        out.append(" ");
    }
    out
}

/// Puts a space before `text`, where it is not empty.
fn with_space_before(text: &str) -> (out: String)
    ensures
        out@ == led(text@),
{
    if text.unicode_len() > 0 {
        let mut out = String::from_str(" ");
        out.append(text);
        out
    } else {
        String::from_str(text)
    }
}

/// Reads an attribute.
pub fn parse_attribute(text: &str) -> (out: Attribute)
    ensures
        out@ == attribute_of(text@),
{
    match read_list(text) {
        Some(raw) => match lex_trees(raw.tokens.as_str()) {
            Some(tokens) => {
                let mut open = String::from_str("#[");
                open.append(raw.path.as_str());
                open.push(raw.left);
                let mut close = String::new();
                close.push(raw.right);
                close.append("]");
                assert(close@ =~= seq![raw.right] + "]"@);
                Attribute::List { head: raw.head, open, tokens, close }
            },
            None => Attribute::Other { text: String::from_str(text) },
        },
        None => Attribute::Other { text: String::from_str(text) },
    }
}

/// Reads a list of attributes.
pub fn parse_attributes(texts: &Vec<String>) -> (out: Vec<Attribute>)
    ensures
        attribute_views(out@) == attributes_of(views(texts@)),
{
    let mut out: Vec<Attribute> = Vec::new();
    let mut i: usize = 0;
    while i < texts.len()
        invariant
            i <= texts.len(),
            out.len() == i,
            forall|j: int| 0 <= j < i ==> (#[trigger] out[j])@ == attribute_of(texts[j]@),
        decreases texts.len() - i,
    {
        out.push(parse_attribute(texts[i].as_str()));
        i += 1;
    }
    assert(attribute_views(out@) =~= attributes_of(views(texts@)));
    out
}

/// Reads the head of a type, through the first type arguments as deep as
/// `depth`.
pub fn parse_type(text: &str, depth: usize) -> (out: TypeRef)
    ensures
        out@ == type_of(text@, depth as nat),
    decreases depth,
{
    match read_type(text) {
        Some(raw) => {
            let argument = match raw.argument {
                Some(inner) => {
                    if depth > 0 {
                        Some(Box::new(parse_type(inner.as_str(), depth - 1)))
                    } else {
                        None
                    }
                },
                None => None,
            };
            TypeRef::Path { head: raw.head, argument }
        },
        None => TypeRef::Other,
    }
}

/// The view of a list of variants, where there is one.
pub open spec fn optional_variants(variants: Option<Vec<Variant>>) -> Option<Seq<VariantView>> {
    match variants {
        Some(variants) => Some(variant_views(variants@)),
        None => None,
    }
}

/// The view of a list of fields, where there is one.
pub open spec fn optional_fields(fields: Option<Vec<FieldDecl>>) -> Option<Seq<FieldDeclView>> {
    match fields {
        Some(fields) => Some(field_views(fields@)),
        None => None,
    }
}

/// The view of a declaration, where there is one.
pub open spec fn optional_decl(decl: Option<Decl>) -> Option<DeclView> {
    match decl {
        Some(decl) => Some(decl@),
        None => None,
    }
}

/// The view of a unit, where there is one.
pub open spec fn optional_unit(unit: Option<Unit>) -> Option<Seq<DeclView>> {
    match unit {
        Some(unit) => Some(unit@),
        None => None,
    }
}

/// Reads a variant.
pub fn parse_variant(text: &str) -> (out: Option<Variant>)
    ensures
        optional_variant_view(out) == variant_of(text@),
{
    match read_variant(text) {
        Some(raw) => Some(
            Variant {
                attrs: parse_attributes(&raw.attrs),
                name: raw.name,
                rest: with_space_before(raw.rest.as_str()),
                mentions: list_names_in(raw.rest.as_str()),
            },
        ),
        None => None,
    }
}

/// A text among the first `k` that is no variant makes the whole unreadable.
proof fn lemma_variants_unreadable(texts: Seq<Seq<char>>, k: int)
    requires
        0 <= k <= texts.len(),
        variants_of(texts.take(k)) is None,
    ensures
        variants_of(texts) is None,
    decreases texts.len(),
{
    if k < texts.len() {
        assert(texts.drop_last().take(k) == texts.take(k));
        lemma_variants_unreadable(texts.drop_last(), k);
    } else {
        assert(texts.take(k) == texts);
    }
}

/// Reads a list of variants.
pub fn parse_variants(texts: &Vec<String>) -> (out: Option<Vec<Variant>>)
    ensures
        optional_variants(out) == variants_of(views(texts@)),
{
    let mut out: Vec<Variant> = Vec::new();
    let mut i: usize = 0;
    let ghost all = views(texts@);
    proof {
        assert(all.take(0) =~= Seq::empty());
        assert(variant_views(out@) =~= Seq::empty());
    }
    while i < texts.len()
        invariant
            i <= texts.len(),
            all == views(texts@),
            variants_of(all.take(i as int)) == Some(variant_views(out@)),
        decreases texts.len() - i,
    {
        proof {
            assert(all.take(i as int + 1).drop_last() == all.take(i as int));
            assert(all.take(i as int + 1).last() == texts[i as int]@);
        }
        let ghost before = variant_views(out@);
        match parse_variant(texts[i].as_str()) {
            Some(variant) => {
                out.push(variant);
                assert(variant_views(out@) =~= before.push(variant@));
            },
            None => {
                proof {
                    lemma_variants_unreadable(all, i as int + 1);
                }
                return None;
            },
        }
        i += 1;
    }
    proof {
        assert(all.take(texts.len() as int) == all);
    }
    Some(out)
}

/// Reads a named field.
pub fn parse_field(text: &str) -> (out: Option<FieldDecl>)
    ensures
        optional_field_view(out) == field_of(text@),
{
    match read_field(text) {
        Some(raw) => {
            let ty = parse_type(raw.rest.as_str(), raw.rest.as_str().unicode_len());
            let mentions = list_names_in(raw.rest.as_str());
            Some(
                FieldDecl {
                    attrs: parse_attributes(&raw.attrs),
                    head: with_space_after(raw.vis.as_str()),
                    name: raw.name,
                    type_text: raw.rest,
                    ty,
                    mentions,
                },
            )
        },
        None => None,
    }
}

/// A text among the first `k` that is no field makes the whole unreadable.
proof fn lemma_fields_unreadable(texts: Seq<Seq<char>>, k: int)
    requires
        0 <= k <= texts.len(),
        fields_of(texts.take(k)) is None,
    ensures
        fields_of(texts) is None,
    decreases texts.len(),
{
    if k < texts.len() {
        assert(texts.drop_last().take(k) == texts.take(k));
        lemma_fields_unreadable(texts.drop_last(), k);
    } else {
        assert(texts.take(k) == texts);
    }
}

/// Reads a list of named fields.
pub fn parse_fields(texts: &Vec<String>) -> (out: Option<Vec<FieldDecl>>)
    ensures
        optional_fields(out) == fields_of(views(texts@)),
{
    let mut out: Vec<FieldDecl> = Vec::new();
    let mut i: usize = 0;
    let ghost all = views(texts@);
    proof {
        assert(all.take(0) =~= Seq::empty());
        assert(field_views(out@) =~= Seq::empty());
    }
    while i < texts.len()
        invariant
            i <= texts.len(),
            all == views(texts@),
            fields_of(all.take(i as int)) == Some(field_views(out@)),
        decreases texts.len() - i,
    {
        proof {
            assert(all.take(i as int + 1).drop_last() == all.take(i as int));
            assert(all.take(i as int + 1).last() == texts[i as int]@);
        }
        let ghost before = field_views(out@);
        match parse_field(texts[i].as_str()) {
            Some(field) => {
                out.push(field);
                assert(field_views(out@) =~= before.push(field@));
            },
            None => {
                proof {
                    lemma_fields_unreadable(all, i as int + 1);
                }
                return None;
            },
        }
        i += 1;
    }
    proof {
        assert(all.take(texts.len() as int) == all);
    }
    Some(out)
}

/// Puts a sum type together from its parts.
pub fn build_enum(raw: RawDecl) -> (out: Option<Decl>)
    ensures
        optional_decl(out) == enum_of(raw@),
{
    let variants = match &raw.members {
        Some(texts) => match parse_variants(texts) {
            Some(variants) => variants,
            None => {
                return None;
            },
        },
        None => {
            return None;
        },
    };
    let mut head = with_space_after(raw.vis.as_str());
    head.append("enum");
    let mut generics = with_space_before(raw.generics.as_str());
    generics.append(with_space_before(raw.where_clause.as_str()).as_str());
    Some(
        Decl::Enum { attrs: parse_attributes(&raw.attrs), head, name: raw.name, generics, variants },
    )
}

/// Puts a product type together from its parts.
pub fn build_struct(raw: RawDecl) -> (out: Option<Decl>)
    ensures
        optional_decl(out) == struct_of(raw@),
{
    let mut head = with_space_after(raw.vis.as_str());
    head.append("struct");
    match &raw.members {
        Some(texts) => match parse_fields(texts) {
            Some(fields) => {
                let mut generics = with_space_before(raw.generics.as_str());
                generics.append(with_space_before(raw.where_clause.as_str()).as_str());
                let mentions: Vec<String> = Vec::new();
                assert(views(mentions@) =~= Seq::empty());
                Some(
                    Decl::Struct {
                        attrs: parse_attributes(&raw.attrs),
                        head,
                        name: raw.name,
                        generics,
                        fields: Some(fields),
                        rest: String::new(),
                        mentions,
                    },
                )
            },
            None => None,
        },
        None => {
            let mut rest = with_space_before(raw.generics.as_str());
            rest.append(with_space_before(raw.body.as_str()).as_str());
            rest.append(with_space_before(raw.where_clause.as_str()).as_str());
            rest.append(with_space_before(raw.semi.as_str()).as_str());
            let mentions = list_names_in(raw.body.as_str());
            Some(
                Decl::Struct {
                    attrs: parse_attributes(&raw.attrs),
                    head,
                    name: raw.name,
                    generics: String::new(),
                    fields: None,
                    rest,
                    mentions,
                },
            )
        },
    }
}

/// Reads a declaration.
pub fn parse_decl(text: &str) -> (out: Option<Decl>)
    ensures
        optional_decl(out) == decl_of(text@),
{
    match read_enum(text) {
        Some(raw) => build_enum(raw),
        None => match read_struct(text) {
            Some(raw) => build_struct(raw),
            None => Some(Decl::Other { text: String::from_str(text) }),
        },
    }
}

/// A text among the first `k` that cannot be read makes the whole
/// unreadable.
proof fn lemma_decls_unreadable(texts: Seq<Seq<char>>, k: int)
    requires
        0 <= k <= texts.len(),
        decls_of(texts.take(k)) is None,
    ensures
        decls_of(texts) is None,
    decreases texts.len(),
{
    if k < texts.len() {
        assert(texts.drop_last().take(k) == texts.take(k));
        lemma_decls_unreadable(texts.drop_last(), k);
    } else {
        assert(texts.take(k) == texts);
    }
}

/// Reads a compilation unit from source text.
pub fn parse_unit(source: &str) -> (out: Option<Unit>)
    ensures
        optional_unit(out) == unit_of(source@),
{
    let texts = match split_file(source) {
        Some(texts) => texts,
        None => {
            return None;
        },
    };
    let mut decls: Vec<Decl> = Vec::new();
    let mut i: usize = 0;
    let ghost all = views(texts@);
    proof {
        assert(all.take(0) =~= Seq::empty());
        assert(decl_views(decls@) =~= Seq::empty());
    }
    while i < texts.len()
        invariant
            i <= texts.len(),
            all == views(texts@),
            unit_of(source@) == decls_of(all),
            decls_of(all.take(i as int)) == Some(decl_views(decls@)),
        decreases texts.len() - i,
    {
        proof {
            assert(all.take(i as int + 1).drop_last() == all.take(i as int));
            assert(all.take(i as int + 1).last() == texts[i as int]@);
        }
        let ghost before = decl_views(decls@);
        match parse_decl(texts[i].as_str()) {
            Some(decl) => {
                decls.push(decl);
                assert(decl_views(decls@) =~= before.push(decl@));
            },
            None => {
                proof {
                    lemma_decls_unreadable(all, i as int + 1);
                }
                return None;
            },
        }
        i += 1;
    }
    proof {
        assert(all.take(texts.len() as int) == all);
    }
    Some(Unit { decls })
}

} // verus!
