//! Synthesized names and the context that numbers them.

use vstd::prelude::*;
use vstd::string::*;
use crate::resolver::ResolveError;
use crate::text::{
    decimal, lemma_decimal_digits, lemma_decimal_injective, optional_text, push_decimal,
};

verus! {

/// The numbers of the next synthesized names.
#[derive(Debug, Clone, Copy, PartialEq, Eq, Structural)]
pub struct Naming {
    pub next_entity: u64,
    pub next_enum: u64,
}

impl Naming {
    /// The context at the start of a run: both numberings start at 1.
    pub fn new() -> (names: Naming)
        ensures
            names == (Naming { next_entity: 1, next_enum: 1 }),
    {
        Naming { next_entity: 1, next_enum: 1 }
    }
}

impl Naming {
    /// Whether every number of `self` is at most that of `later`.
    pub open spec fn precedes(self, later: Naming) -> bool {
        self.next_entity <= later.next_entity && self.next_enum <= later.next_enum
    }
}

/// The synthesized name of the anonymous entity with number `n`.
pub open spec fn anonymous_entity_name(n: nat) -> Seq<char> {
    "AnonymousEntity"@ + decimal(n)
}

/// The synthesized name of the anonymous enumeration with number `n`.
pub open spec fn anonymous_enum_name(n: nat) -> Seq<char> {
    "AnonymousEnum"@ + decimal(n)
}

/// The next entity name and the context after taking it.
pub open spec fn fresh_entity_name(names: Naming) -> Result<(Seq<char>, Naming), ResolveError> {
    if names.next_entity == u64::MAX {
        Err(ResolveError::NamesExhausted)
    } else {
        Ok(
            (
                anonymous_entity_name(names.next_entity as nat),
                Naming { next_entity: (names.next_entity + 1) as u64, next_enum: names.next_enum },
            ),
        )
    }
}

/// The next enumeration name and the context after taking it.
pub open spec fn fresh_enum_name(names: Naming) -> Result<(Seq<char>, Naming), ResolveError> {
    if names.next_enum == u64::MAX {
        Err(ResolveError::NamesExhausted)
    } else {
        Ok(
            (
                anonymous_enum_name(names.next_enum as nat),
                Naming { next_entity: names.next_entity, next_enum: (names.next_enum + 1) as u64 },
            ),
        )
    }
}

/// The name of an inline entity: its title, or else the next synthesized
/// name.
pub open spec fn inline_name(title: Option<Seq<char>>, names: Naming) -> Result<
    (Seq<char>, Naming),
    ResolveError,
> {
    match title {
        Some(t) => Ok((t, names)),
        None => fresh_entity_name(names),
    }
}

/// The mathematical value of a synthesized name with its context.
pub open spec fn name_result_view(out: Result<(String, Naming), ResolveError>) -> Result<
    (Seq<char>, Naming),
    ResolveError,
> {
    match out {
        Ok((name, names)) => Ok((name@, names)),
        Err(e) => Err(e),
    }
}

/// Synthesizes the name of the next anonymous entity.
pub fn generate_struct_name(names: Naming) -> (out: Result<(String, Naming), ResolveError>)
    ensures
        name_result_view(out) == fresh_entity_name(names),
{
    if names.next_entity == u64::MAX {
        return Err(ResolveError::NamesExhausted);
    }
    let mut name = String::from_str("AnonymousEntity");
    push_decimal(&mut name, names.next_entity);
    Ok((name, Naming { next_entity: names.next_entity + 1, next_enum: names.next_enum }))
}

/// Synthesizes the name of the next anonymous enumeration.
pub fn generate_enum_name(names: Naming) -> (out: Result<(String, Naming), ResolveError>)
    ensures
        name_result_view(out) == fresh_enum_name(names),
{
    if names.next_enum == u64::MAX {
        return Err(ResolveError::NamesExhausted);
    }
    let mut name = String::from_str("AnonymousEnum");
    push_decimal(&mut name, names.next_enum);
    Ok((name, Naming { next_entity: names.next_entity, next_enum: names.next_enum + 1 }))
}

/// The name of an inline entity: a copy of its title, or the next
/// synthesized name.
pub fn inline_entity_name(title: &Option<String>, names: Naming) -> (out: Result<
    (String, Naming),
    ResolveError,
>)
    ensures
        name_result_view(out) == inline_name(optional_text(*title), names),
{
    match title {
        Some(t) => Ok((t.clone(), names)),
        None => generate_struct_name(names),
    }
}

/// Synthesized names with different numbers are different names, and no
/// entity name is an enumeration name.
pub proof fn lemma_synthesized_names_differ(n: nat, m: nat)
    ensures
        n != m ==> anonymous_entity_name(n) != anonymous_entity_name(m),
        n != m ==> anonymous_enum_name(n) != anonymous_enum_name(m),
        anonymous_entity_name(n) != anonymous_enum_name(m),
{
    reveal_strlit("AnonymousEntity");
    reveal_strlit("AnonymousEnum");
    let entity = "AnonymousEntity"@;
    let enumeration = "AnonymousEnum"@;
    lemma_decimal_digits(n);
    lemma_decimal_digits(m);
    assert(anonymous_entity_name(n)[11] == 't');
    assert(anonymous_enum_name(m)[11] == 'u');
    if anonymous_entity_name(n) == anonymous_entity_name(m) {
        assert((entity + decimal(n)).skip(15) =~= decimal(n));
        assert((entity + decimal(m)).skip(15) =~= decimal(m));
        lemma_decimal_injective(n, m);
    }
    if anonymous_enum_name(n) == anonymous_enum_name(m) {
        assert((enumeration + decimal(n)).skip(13) =~= decimal(n));
        assert((enumeration + decimal(m)).skip(13) =~= decimal(m));
        lemma_decimal_injective(n, m);
    }
}

} // verus!
