//! Stripping derived capabilities from declarations.

use vstd::prelude::*;
use vstd::string::*;
use crate::repair::literals::{
    includes_literal, lemma_marks_alike, mark_literal_includers, same_parts,
};
use crate::syntax::{
    Attribute, AttributeView, Decl, DeclView, Token, TokenView, attribute_views, decl_views,
    token_views,
};
use crate::text::same_text;

verus! {

/// Whether `name` is a capability that must not be derived for a type with
/// literal members: an ordering, hashing, structural equality or bitwise
/// copy.
pub open spec fn unsound_capability(name: Seq<char>) -> bool {
    ||| name == "Ord"@
    ||| name == "PartialOrd"@
    ||| name == "PartialEq"@
    ||| name == "Eq"@
    ||| name == "Hash"@
    ||| name == "Copy"@
}

/// Whether `token` names a capability that is stripped.
pub open spec fn stripped(token: TokenView) -> bool {
    token matches TokenView::Ident(name) && unsound_capability(name)
}

/// The tokens of a derive list without the stripped capabilities; the token
/// that follows a stripped one (its comma) goes with it. `skip` tells that
/// the first token follows a stripped one.
pub open spec fn strip_tokens(tokens: Seq<TokenView>, skip: bool) -> Seq<TokenView>
    decreases tokens.len(),
{
    if tokens.len() == 0 {
        tokens
    } else if skip {
        strip_tokens(tokens.skip(1), false)
    } else if stripped(tokens[0]) {
        strip_tokens(tokens.skip(1), true)
    } else {
        seq![tokens[0]] + strip_tokens(tokens.skip(1), false)
    }
}

/// The attribute with its list stripped where it is a `derive`.
pub open spec fn strip_attribute(attr: AttributeView) -> AttributeView {
    match attr {
        AttributeView::List { head, open, tokens, close } => if head == "derive"@ {
            AttributeView::List { head, open, tokens: strip_tokens(tokens, false), close }
        } else {
            attr
        },
        AttributeView::Other { .. } => attr,
    }
}

/// The attributes `attrs`, each with its list stripped where it is a
/// `derive`.
pub open spec fn strip_attributes(attrs: Seq<AttributeView>) -> Seq<AttributeView> {
    Seq::new(attrs.len(), |i: int| strip_attribute(attrs[i]))
}

/// The declaration with the derived capabilities stripped.
pub open spec fn strip_decl(decl: DeclView) -> DeclView {
    match decl {
        DeclView::Enum { attrs, head, name, generics, variants } => DeclView::Enum {
            attrs: strip_attributes(attrs),
            head,
            name,
            generics,
            variants,
        },
        DeclView::Struct { attrs, head, name, generics, fields, rest, mentions } => {
            DeclView::Struct {
                attrs: strip_attributes(attrs),
                head,
                name,
                generics,
                fields,
                rest,
                mentions,
            }
        },
        DeclView::Other { .. } => decl,
    }
}

/// The declaration `decl` with the derived capabilities stripped where it
/// is `marked`.
pub open spec fn strip_where(marked: bool, decl: DeclView) -> DeclView {
    if marked {
        strip_decl(decl)
    } else {
        decl
    }
}

/// The declarations `decls` with the derived capabilities stripped from
/// every declaration whose structure includes a literal type.
pub open spec fn strip_unit(decls: Seq<DeclView>) -> Seq<DeclView> {
    Seq::new(decls.len(), |i: int| strip_where(includes_literal(decls)[i], decls[i]))
}

/// Whether the capability named `ident` is stripped from derive lists.
pub fn should_remove_trait(ident: &str) -> (remove: bool)
    ensures
        remove == unsound_capability(ident@),
{
    same_text(ident, "Ord") || same_text(ident, "PartialOrd") || same_text(ident, "PartialEq")
        || same_text(ident, "Eq") || same_text(ident, "Hash") || same_text(ident, "Copy")
}

/// A copy of `tokens` without the stripped capabilities and the token that
/// follows each of them.
pub fn remove_buggy_traits(tokens: &Vec<Token>) -> (out: Vec<Token>)
    ensures
        token_views(out@) == strip_tokens(token_views(tokens@), false),
{
    let mut out: Vec<Token> = Vec::new();
    let mut skip_next = false;
    let mut i: usize = 0;
    let ghost all = token_views(tokens@);
    proof {
        assert(all.skip(0) =~= all);
        assert(token_views(out@) =~= Seq::empty());
    }
    while i < tokens.len()
        invariant
            i <= tokens.len(),
            all == token_views(tokens@),
            strip_tokens(all, false) == token_views(out@) + strip_tokens(
                all.skip(i as int),
                skip_next,
            ),
        decreases tokens.len() - i,
    {
        proof {
            assert(all.skip(i as int).skip(1) =~= all.skip(i as int + 1));
            assert(all.skip(i as int)[0] == tokens[i as int]@);
        }
        let ghost before = token_views(out@);
        if skip_next {
            skip_next = false;
        } else {
            let remove = match &tokens[i] {
                Token::Ident(name) => should_remove_trait(name.as_str()),
                _ => false,
            };
            if remove {
                skip_next = true;
            } else {
                out.push(tokens[i].clone());
                proof {
                    assert(token_views(out@) =~= before + seq![tokens[i as int]@]);
                }
            }
        }
        i += 1;
    }
    proof {
        assert(all.skip(tokens.len() as int) =~= Seq::empty());
    }
    out
}

/// Strips the derived capabilities from a list of attributes.
pub fn edit_derive_traits(attrs: &mut Vec<Attribute>)
    ensures
        attribute_views(final(attrs)@) == strip_attributes(attribute_views(old(attrs)@)),
{
    let mut out: Vec<Attribute> = Vec::new();
    let mut i: usize = 0;
    while i < attrs.len()
        invariant
            i <= attrs.len(),
            *attrs == *old(attrs),
            out.len() == i,
            forall|j: int| 0 <= j < i ==> out[j]@ == strip_attribute(attrs[j]@),
        decreases attrs.len() - i,
    {
        let edited = match &attrs[i] {
            Attribute::List { head, open, tokens, close } => {
                if same_text(head.as_str(), "derive") {
                    Attribute::List {
                        head: head.clone(),
                        open: open.clone(),
                        tokens: remove_buggy_traits(tokens),
                        close: close.clone(),
                    }
                } else {
                    attrs[i].clone()
                }
            },
            Attribute::Other { .. } => attrs[i].clone(),
        };
        out.push(edited);
        i += 1;
    }
    assert(attribute_views(out@) =~= strip_attributes(attribute_views(attrs@)));
    *attrs = out;
}

/// Strips the derived capabilities from every declaration whose structure
/// includes a literal type.
pub fn strip_declarations(decls: Vec<Decl>) -> (out: Vec<Decl>)
    ensures
        decl_views(out@) == strip_unit(decl_views(decls@)),
{
    let ghost all = decl_views(decls@);
    let marks = mark_literal_includers(&decls);
    let mut out: Vec<Decl> = Vec::new();
    let mut d: usize = 0;
    for decl in it: decls
        invariant
            all == decl_views(it.seq()),
            marks@ == includes_literal(all),
            marks.len() == all.len(),
            d == it.index(),
            out.len() == it.index(),
            forall|j: int|
                0 <= j < out.len() ==> (#[trigger] out[j])@ == strip_where(marks[j], all[j]),
    {
        let edited = if marks[d] {
            match decl {
                Decl::Enum { mut attrs, head, name, generics, variants } => {
                    edit_derive_traits(&mut attrs);
                    Decl::Enum { attrs, head, name, generics, variants }
                },
                Decl::Struct { mut attrs, head, name, generics, fields, rest, mentions } => {
                    edit_derive_traits(&mut attrs);
                    Decl::Struct { attrs, head, name, generics, fields, rest, mentions }
                },
                Decl::Other { text } => Decl::Other { text },
            }
        } else {
            decl
        };
        out.push(edited);
        d += 1;
    }
    assert(decl_views(out@) =~= strip_unit(all));
    out
}

/// No stripped capability is left among stripped tokens.
pub proof fn lemma_strip_tokens_clean(tokens: Seq<TokenView>, skip: bool)
    ensures
        forall|i: int|
            0 <= i < strip_tokens(tokens, skip).len() ==> !stripped(
                #[trigger] strip_tokens(tokens, skip)[i],
            ),
    decreases tokens.len(),
{
    let whole = strip_tokens(tokens, skip);
    if tokens.len() > 0 {
        if skip {
            lemma_strip_tokens_clean(tokens.skip(1), false);
            assert(whole == strip_tokens(tokens.skip(1), false));
        } else if stripped(tokens[0]) {
            lemma_strip_tokens_clean(tokens.skip(1), true);
            assert(whole == strip_tokens(tokens.skip(1), true));
        } else {
            let rest = strip_tokens(tokens.skip(1), false);
            lemma_strip_tokens_clean(tokens.skip(1), false);
            assert(whole == seq![tokens[0]] + rest);
            assert forall|i: int| 0 <= i < whole.len() implies !stripped(#[trigger] whole[i]) by {
                if i > 0 {
                    assert(whole[i] == rest[i - 1]);
                }
            }
        }
    } else {
        assert(whole.len() == 0);
    }
}

/// Tokens without a stripped capability stay as they are.
pub proof fn lemma_strip_tokens_fixed(tokens: Seq<TokenView>)
    requires
        forall|i: int| 0 <= i < tokens.len() ==> !stripped(#[trigger] tokens[i]),
    ensures
        strip_tokens(tokens, false) == tokens,
    decreases tokens.len(),
{
    if tokens.len() > 0 {
        let rest = tokens.skip(1);
        assert forall|i: int| 0 <= i < rest.len() implies !stripped(#[trigger] rest[i]) by {
            assert(rest[i] == tokens[i + 1]);
        }
        lemma_strip_tokens_fixed(rest);
        assert(seq![tokens[0]] + rest =~= tokens);
    }
}

/// Stripping a second time changes nothing.
pub proof fn lemma_strip_attributes_twice(attrs: Seq<AttributeView>)
    ensures
        strip_attributes(strip_attributes(attrs)) == strip_attributes(attrs),
{
    let once = strip_attributes(attrs);
    assert forall|i: int| 0 <= i < once.len() implies strip_attribute(once[i]) == once[i] by {
        match attrs[i] {
            AttributeView::List { head, open, tokens, close } => {
                if head == "derive"@ {
                    lemma_strip_tokens_clean(tokens, false);
                    lemma_strip_tokens_fixed(strip_tokens(tokens, false));
                }
            },
            AttributeView::Other { .. } => {},
        }
    }
    assert(strip_attributes(once) =~= once);
}

/// Stripping keeps the name and the parts of a declaration.
pub proof fn lemma_strip_keeps_parts(marked: bool, decl: DeclView)
    ensures
        same_parts(decl, strip_where(marked, decl)),
{
}

/// Stripping a unit a second time changes nothing.
pub proof fn lemma_strip_unit_twice(unit: Seq<DeclView>)
    ensures
        strip_unit(strip_unit(unit)) == strip_unit(unit),
{
    let once = strip_unit(unit);
    assert forall|d: int| 0 <= d < unit.len() implies same_parts(unit[d], #[trigger] once[d]) by {
        lemma_strip_keeps_parts(includes_literal(unit)[d], unit[d]);
    }
    lemma_marks_alike(unit, once, unit.len());
    assert forall|i: int| 0 <= i < once.len() implies strip_where(
        includes_literal(once)[i],
        once[i],
    ) == once[i] by {
        match unit[i] {
            DeclView::Enum { attrs, .. } => {
                lemma_strip_attributes_twice(attrs);
            },
            DeclView::Struct { attrs, .. } => {
                lemma_strip_attributes_twice(attrs);
            },
            DeclView::Other { .. } => {},
        }
    }
    assert(strip_unit(once) =~= once);
}

} // verus!
