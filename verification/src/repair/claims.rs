//! Tags of sum types and the claims they have on structs.

use vstd::prelude::*;
use vstd::string::*;
use crate::syntax::{
    Attribute, AttributeView, Decl, DeclView, Token, TokenView, Variant, VariantView,
    attribute_views, decl_views, token_views, variant_views,
};
use crate::text::{optional_text, same_text};

verus! {

/// The literal of a list that starts with the identifier `key`, the
/// punctuation `=` and a literal.
pub open spec fn keyed_literal(tokens: Seq<TokenView>, key: Seq<char>) -> Option<Seq<char>> {
    if tokens.len() >= 3 {
        match (tokens[0], tokens[1], tokens[2]) {
            (TokenView::Ident(name), TokenView::Punct { ch, .. }, TokenView::Literal(literal)) => {
                if name == key && ch == '=' {
                    Some(literal)
                } else {
                    None
                }
            },
            _ => None,
        }
    } else {
        None
    }
}

/// The literal that a `serde` attribute gives to `key` at the start of its
/// list.
pub open spec fn serde_value(attr: AttributeView, key: Seq<char>) -> Option<Seq<char>> {
    match attr {
        AttributeView::List { head, tokens, .. } => if head == "serde"@ {
            keyed_literal(tokens, key)
        } else {
            None
        },
        AttributeView::Other { .. } => None,
    }
}

/// The attributes that give a literal to `key`.
pub open spec fn giving(key: Seq<char>) -> spec_fn(AttributeView) -> bool {
    |attr: AttributeView| serde_value(attr, key) is Some
}

/// The position of the first of the attributes `attrs` that gives a literal
/// to `key`.
pub open spec fn serde_position(attrs: Seq<AttributeView>, key: Seq<char>) -> Option<int> {
    first_index(attrs, giving(key))
}

/// The literal that the first of the attributes `attrs` to do so gives to
/// `key`.
pub open spec fn first_serde_value(attrs: Seq<AttributeView>, key: Seq<char>) -> Option<Seq<char>> {
    match serde_position(attrs, key) {
        Some(k) => serde_value(attrs[k], key),
        None => None,
    }
}

/// Reads the literal of a list that starts with the identifier `key`, the
/// punctuation `=` and a literal.
fn read_keyed_literal(tokens: &Vec<Token>, key: &str) -> (out: Option<String>)
    ensures
        optional_text(out) == keyed_literal(token_views(tokens@), key@),
{
    if tokens.len() < 3 {
        return None;
    }
    match (&tokens[0], &tokens[1], &tokens[2]) {
        (Token::Ident(name), Token::Punct { ch, .. }, Token::Literal(literal)) => {
            if same_text(name.as_str(), key) && *ch == '=' {
                Some(literal.clone())
            } else {
                None
            }
        },
        _ => None,
    }
}

/// Reads the literal that an attribute gives to `key`.
pub fn read_serde_value(attr: &Attribute, key: &str) -> (out: Option<String>)
    ensures
        optional_text(out) == serde_value(attr@, key@),
{
    match attr {
        Attribute::List { head, tokens, .. } => {
            if same_text(head.as_str(), "serde") {
                read_keyed_literal(tokens, key)
            } else {
                None
            }
        },
        Attribute::Other { .. } => None,
    }
}

/// Finds the first of the attributes `attrs` that gives a literal to `key`.
pub fn position_of_serde_value(attrs: &Vec<Attribute>, key: &str) -> (out: Option<usize>)
    ensures
        optional_index(out) == serde_position(attribute_views(attrs@), key@),
{
    let ghost all = attribute_views(attrs@);
    let mut i: usize = 0;
    while i < attrs.len()
        invariant
            i <= attrs.len(),
            all == attribute_views(attrs@),
            forall|j: int| 0 <= j < i ==> !giving(key@)(#[trigger] all[j]),
        decreases attrs.len() - i,
    {
        if read_serde_value(&attrs[i], key).is_some() {
            proof {
                lemma_first_index_is(all, giving(key@), i as int);
            }
            return Some(i);
        }
        i += 1;
    }
    proof {
        lemma_first_index(all, giving(key@));
    }
    None
}

/// Finds the literal that the first `serde` attribute to do so gives to
/// `key` at the start of its list.
pub fn find_serde_value(attrs: &Vec<Attribute>, key: &str) -> (out: Option<String>)
    ensures
        optional_text(out) == first_serde_value(attribute_views(attrs@), key@),
{
    match position_of_serde_value(attrs, key) {
        Some(k) => {
            proof {
                lemma_first_index(attribute_views(attrs@), giving(key@));
            }
            read_serde_value(&attrs[k], key)
        },
        None => None,
    }
}

/// Finds the tag of a sum type: the literal of its first attribute of the
/// form `#[serde(tag = "..")]`.
pub fn find_serde_tag(attrs: &Vec<Attribute>) -> (out: Option<String>)
    ensures
        optional_text(out) == first_serde_value(attribute_views(attrs@), "tag"@),
{
    find_serde_value(attrs, "tag")
}

/// The text of a string literal without the quotes that enclose it; any
/// other text as it is.
pub open spec fn unquoted(literal: Seq<char>) -> Seq<char> {
    if literal.len() >= 2 && literal.first() == '"' && literal.last() == '"' {
        literal.subrange(1, literal.len() - 1)
    } else {
        literal
    }
}

/// Removes the enclosing quotes from the text of a string literal.
pub fn unquote(literal: &str) -> (out: String)
    ensures
        out@ == unquoted(literal@),
{
    let length = literal.unicode_len();
    if length >= 2 && literal.get_char(0) == '"' && literal.get_char(length - 1) == '"' {
        String::from_str(literal.substring_char(1, length - 1))
    } else {
        String::from_str(literal)
    }
}

/// The position of the first of `items` that is `wanted`.
pub open spec fn first_index<T>(items: Seq<T>, wanted: spec_fn(T) -> bool) -> Option<int>
    decreases items.len(),
{
    if items.len() == 0 {
        None
    } else {
        match first_index(items.drop_last(), wanted) {
            Some(k) => Some(k),
            None => if wanted(items.last()) {
                Some(items.len() - 1)
            } else {
                None
            },
        }
    }
}

/// What `first_index` finds is wanted and is the first such; where it finds
/// nothing, nothing is wanted.
pub proof fn lemma_first_index<T>(items: Seq<T>, wanted: spec_fn(T) -> bool)
    ensures
        match first_index(items, wanted) {
            Some(k) => 0 <= k < items.len() && wanted(items[k]) && forall|j: int|
                0 <= j < k ==> !wanted(#[trigger] items[j]),
            None => forall|j: int| 0 <= j < items.len() ==> !wanted(#[trigger] items[j]),
        },
    decreases items.len(),
{
    if items.len() > 0 {
        let front = items.drop_last();
        lemma_first_index(front, wanted);
        match first_index(front, wanted) {
            Some(k) => {
                assert(front[k] == items[k]);
                assert forall|j: int| 0 <= j < k implies !wanted(#[trigger] items[j]) by {
                    assert(front[j] == items[j]);
                }
            },
            None => {
                assert forall|j: int| 0 <= j < items.len() - 1 implies !wanted(
                    #[trigger] items[j],
                ) by {
                    assert(front[j] == items[j]);
                }
            },
        }
    }
}

/// The first wanted item at `k`, with none before it, is what `first_index`
/// finds.
pub proof fn lemma_first_index_is<T>(items: Seq<T>, wanted: spec_fn(T) -> bool, k: int)
    requires
        0 <= k < items.len(),
        wanted(items[k]),
        forall|j: int| 0 <= j < k ==> !wanted(#[trigger] items[j]),
    ensures
        first_index(items, wanted) == Some(k),
{
    lemma_first_index(items, wanted);
}

/// Two lists whose items are wanted alike have their first wanted item at
/// the same position.
pub proof fn lemma_first_index_alike<T>(
    left: Seq<T>,
    right: Seq<T>,
    wanted: spec_fn(T) -> bool,
)
    requires
        left.len() == right.len(),
        forall|i: int| 0 <= i < left.len() ==> wanted(left[i]) == wanted(right[i]),
    ensures
        first_index(left, wanted) == first_index(right, wanted),
    decreases left.len(),
{
    if left.len() > 0 {
        lemma_first_index_alike(left.drop_last(), right.drop_last(), wanted);
    }
}

/// The view of a position, where there is one.
pub open spec fn optional_index(position: Option<usize>) -> Option<int> {
    match position {
        Some(k) => Some(k as int),
        None => None,
    }
}

/// The tag of a declaration: for a sum type with an attribute of the form
/// `#[serde(tag = "..")]`, the text of that literal without its quotes.
pub open spec fn tag_of(decl: DeclView) -> Option<Seq<char>> {
    match decl {
        DeclView::Enum { attrs, .. } => match first_serde_value(attrs, "tag"@) {
            Some(literal) => Some(unquoted(literal)),
            None => None,
        },
        _ => None,
    }
}

/// Reads the tag of a declaration.
pub fn tag_of_decl(decl: &Decl) -> (out: Option<String>)
    ensures
        optional_text(out) == tag_of(decl@),
{
    match decl {
        Decl::Enum { attrs, .. } => match find_serde_tag(attrs) {
            Some(literal) => Some(unquote(literal.as_str())),
            None => None,
        },
        _ => None,
    }
}

/// The variants of the name `name`.
pub open spec fn named(name: Seq<char>) -> spec_fn(VariantView) -> bool {
    |v: VariantView| v.name == name
}

/// The position of the first of the variants `variants` with the name
/// `name`.
pub open spec fn find_variant(variants: Seq<VariantView>, name: Seq<char>) -> Option<int> {
    first_index(variants, named(name))
}

/// Whether one of the variants `variants` has the name `name`.
pub open spec fn has_variant(variants: Seq<VariantView>, name: Seq<char>) -> bool {
    find_variant(variants, name) is Some
}

/// Finds the first of the variants `variants` with the name `name`.
pub fn position_of_variant(variants: &Vec<Variant>, name: &str) -> (out: Option<usize>)
    ensures
        optional_index(out) == find_variant(variant_views(variants@), name@),
{
    let ghost all = variant_views(variants@);
    let mut i: usize = 0;
    while i < variants.len()
        invariant
            i <= variants.len(),
            all == variant_views(variants@),
            forall|j: int| 0 <= j < i ==> !named(name@)(#[trigger] all[j]),
        decreases variants.len() - i,
    {
        if same_text(variants[i].name.as_str(), name) {
            proof {
                lemma_first_index_is(all, named(name@), i as int);
            }
            return Some(i);
        }
        i += 1;
    }
    proof {
        lemma_first_index(all, named(name@));
    }
    None
}

/// Whether `decl` is a tagged sum type with a variant of the name `name`.
pub open spec fn claims(decl: DeclView, name: Seq<char>) -> bool {
    match decl {
        DeclView::Enum { variants, .. } => tag_of(decl) is Some && has_variant(variants, name),
        _ => false,
    }
}

/// Tells whether a declaration is a tagged sum type with a variant of the
/// name `name`.
pub fn decl_claims(decl: &Decl, name: &str) -> (out: bool)
    ensures
        out == claims(decl@, name@),
{
    match decl {
        Decl::Enum { variants, .. } => tag_of_decl(decl).is_some() && position_of_variant(
            variants,
            name,
        ).is_some(),
        _ => false,
    }
}

/// The declarations that claim the name `name`.
pub open spec fn claiming(name: Seq<char>) -> spec_fn(DeclView) -> bool {
    |decl: DeclView| claims(decl, name)
}

/// The position of the first tagged sum type of `unit` that has a variant of
/// the name `name`.
pub open spec fn claimant(unit: Seq<DeclView>, name: Seq<char>) -> Option<int> {
    first_index(unit, claiming(name))
}

/// Finds the first tagged sum type of `unit` with a variant of the name
/// `name`.
pub fn find_claimant(unit: &Vec<Decl>, name: &str) -> (out: Option<usize>)
    ensures
        optional_index(out) == claimant(decl_views(unit@), name@),
{
    let ghost all = decl_views(unit@);
    let mut i: usize = 0;
    while i < unit.len()
        invariant
            i <= unit.len(),
            all == decl_views(unit@),
            forall|j: int| 0 <= j < i ==> !claiming(name@)(#[trigger] all[j]),
        decreases unit.len() - i,
    {
        if decl_claims(&unit[i], name) {
            proof {
                lemma_first_index_is(all, claiming(name@), i as int);
            }
            return Some(i);
        }
        i += 1;
    }
    proof {
        lemma_first_index(all, claiming(name@));
    }
    None
}

/// Whether two tagged sum types of `unit` have a variant of the same name.
pub open spec fn claimed_twice(unit: Seq<DeclView>) -> bool {
    exists|i: int, j: int, name: Seq<char>|
        0 <= i < j < unit.len() && claims(unit[i], name) && claims(unit[j], name)
}

/// Whether the tagged sum type at `j`, if it is one, is the first to claim
/// each of its variants.
pub open spec fn owns_variants(unit: Seq<DeclView>, j: int) -> bool {
    match unit[j] {
        DeclView::Enum { variants, .. } => tag_of(unit[j]) is Some ==> forall|k: int|
            0 <= k < variants.len() ==> claimant(unit, (#[trigger] variants[k]).name) == Some(j),
        _ => true,
    }
}

/// Where every tagged sum type is the first to claim each of its variants,
/// no variant is claimed twice.
proof fn lemma_owned_variants(unit: Seq<DeclView>)
    requires
        forall|j: int| 0 <= j < unit.len() ==> owns_variants(unit, j),
    ensures
        !claimed_twice(unit),
{
    if claimed_twice(unit) {
        let (i, j, name) = choose|i: int, j: int, name: Seq<char>|
            0 <= i < j < unit.len() && claims(unit[i], name) && claims(unit[j], name);
        assert(owns_variants(unit, j));
        let variants = unit[j]->Enum_variants;
        lemma_first_index(variants, named(name));
        let k = find_variant(variants, name).unwrap();
        assert(claimant(unit, variants[k].name) == Some(j));
        lemma_first_index(unit, claiming(name));
        assert(claiming(name)(unit[i]));
    }
}

/// Tells whether two tagged sum types of `unit` have a variant of the same
/// name.
pub fn variant_claimed_twice(unit: &Vec<Decl>) -> (out: bool)
    ensures
        out == claimed_twice(decl_views(unit@)),
{
    let ghost all = decl_views(unit@);
    let mut j: usize = 0;
    while j < unit.len()
        invariant
            j <= unit.len(),
            all == decl_views(unit@),
            forall|d: int| 0 <= d < j ==> owns_variants(all, d),
        decreases unit.len() - j,
    {
        match &unit[j] {
            Decl::Enum { variants, .. } => {
                if tag_of_decl(&unit[j]).is_some() {
                    let ghost names = variant_views(variants@);
                    let mut k: usize = 0;
                    while k < variants.len()
                        invariant
                            k <= variants.len(),
                            j < unit.len(),
                            all == decl_views(unit@),
                            names == variant_views(variants@),
                            all[j as int] matches DeclView::Enum { variants: v, .. } && v == names,
                            tag_of(all[j as int]) is Some,
                            forall|c: int|
                                0 <= c < k ==> claimant(all, (#[trigger] names[c]).name) == Some(
                                    j as int,
                                ),
                        decreases variants.len() - k,
                    {
                        let first = find_claimant(unit, variants[k].name.as_str());
                        proof {
                            let name = names[k as int].name;
                            lemma_first_index(all, claiming(name));
                            lemma_first_index(names, named(name));
                            assert(named(name)(names[k as int]));
                            assert(claiming(name)(all[j as int]));
                        }
                        match first {
                            Some(i) => {
                                if i != j {
                                    proof {
                                        let name = names[k as int].name;
                                        assert(claims(all[i as int], name));
                                        assert(claims(all[j as int], name));
                                        assert(0 <= i < j < all.len());
                                    }
                                    return true;
                                }
                            },
                            None => {},
                        }
                        k += 1;
                    }
                }
            },
            _ => {},
        }
        j += 1;
    }
    proof {
        lemma_owned_variants(all);
    }
    false
}

/// The claim of a tagged sum type on one of its variants: the position of
/// the sum type and the wire name of its tag.
pub struct ClaimView {
    pub governing: int,
    pub tag: Seq<char>,
}

/// The claim of a tagged sum type on one of its variants.
#[derive(Debug)]
pub struct Claim {
    pub governing: usize,
    pub tag: String,
}

impl View for Claim {
    type V = ClaimView;

    open spec fn view(&self) -> ClaimView {
        ClaimView { governing: self.governing as int, tag: self.tag@ }
    }
}

/// The view of a claim, where there is one.
pub open spec fn optional_claim_view(claim: Option<Claim>) -> Option<ClaimView> {
    match claim {
        Some(claim) => Some(claim@),
        None => None,
    }
}

/// The claim that `unit` has on the declaration `decl`: that of the first
/// tagged sum type with a variant of the name of `decl`, where `decl` is a
/// struct.
pub open spec fn claim_on(unit: Seq<DeclView>, decl: DeclView) -> Option<ClaimView> {
    match decl {
        DeclView::Struct { name, .. } => match claimant(unit, name) {
            Some(governing) => match tag_of(unit[governing]) {
                Some(tag) => Some(ClaimView { governing, tag }),
                None => None,
            },
            None => None,
        },
        _ => None,
    }
}

/// Finds the claim that `unit` has on the declaration `decl`.
pub fn find_claim(unit: &Vec<Decl>, decl: &Decl) -> (out: Option<Claim>)
    ensures
        optional_claim_view(out) == claim_on(decl_views(unit@), decl@),
{
    match decl {
        Decl::Struct { name, .. } => match find_claimant(unit, name.as_str()) {
            Some(governing) => {
                proof {
                    lemma_first_index(decl_views(unit@), claiming(name@));
                }
                match tag_of_decl(&unit[governing]) {
                    Some(tag) => Some(Claim { governing, tag }),
                    None => None,
                }
            },
            None => None,
        },
        _ => None,
    }
}

} // verus!
