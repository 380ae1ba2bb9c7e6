//! The emitters: from entities to source text.

pub mod protobuf_gen;
pub mod rust_gen;

use vstd::prelude::*;
use vstd::string::*;
use rayon::iter::{IntoParallelRefIterator, ParallelIterator};
use crate::generator::rust_gen::{EmitError, text_result_view};
use crate::generator::rust_gen::spec::code_spec;
use crate::ir::{Entity, entity_views};
use crate::text::chars_of;

verus! {

/// Emits the Rust source text for `entities`.
pub fn generate_rust(entities: Vec<Entity>) -> (out: Result<String, EmitError>)
    ensures
        text_result_view(out) == code_spec(entity_views(entities@)),
{
    rust_gen::generate_code(entities)
}

/// Whether `c` is an uppercase letter, as `char::is_uppercase` tells.
pub uninterp spec fn is_uppercase(c: char) -> bool;

/// Trusted: `char::is_uppercase` tells whether a character has the Unicode
/// property `Uppercase`; the contract only names its result.
pub assume_specification[ char::is_uppercase ](c: char) -> (b: bool)
    ensures
        b == is_uppercase(c),
;

/// The lowercase form of `s`, as `str::to_lowercase` gives it.
pub uninterp spec fn lowercase(s: Seq<char>) -> Seq<char>;

/// Trusted: `str::to_lowercase` returns the lowercase equivalent of a string
/// slice; the contract only names its result.
pub assume_specification[ str::to_lowercase ](s: &str) -> (out: String)
    ensures
        out@ == lowercase(s@),
;

/// The first character of the lowercase form of `c`; `c` itself where that
/// form is empty.
pub open spec fn lower(c: char) -> char {
    let form = lowercase(seq![c]);
    if form.len() > 0 {
        form[0]
    } else {
        c
    }
}

/// The snake-case form of a camel-case name: the first character in
/// lowercase, and every later uppercase letter as `_` and its lowercase.
pub open spec fn snake_case_spec(s: Seq<char>) -> Seq<char>
    decreases s.len(),
{
    if s.len() == 0 {
        s
    } else if s.len() == 1 {
        seq![lower(s[0])]
    } else if is_uppercase(s.last()) {
        snake_case_spec(s.drop_last()).push('_').push(lower(s.last()))
    } else {
        snake_case_spec(s.drop_last()).push(s.last())
    }
}

/// The first character of the lowercase form of `c`.
fn lower_char(c: char) -> (out: char)
    ensures
        out == lower(c),
{
    let mut one = String::new();
    one.push(c);
    assert(one@ =~= seq![c]);
    let form = one.as_str().to_lowercase();
    if form.as_str().unicode_len() > 0 {
        form.as_str().get_char(0)
    } else {
        c
    }
}

/// Converts a camel-case name to snake case.
pub fn snake_case(s: &str) -> (out: String)
    ensures
        out@ == snake_case_spec(s@),
{
    let chars = chars_of(s);
    let mut out = String::new();
    let mut i: usize = 0;
    assert(chars@.take(0) =~= Seq::empty());
    while i < chars.len()
        invariant
            i <= chars.len(),
            out@ == snake_case_spec(chars@.take(i as int)),
        decreases chars.len() - i,
    {
        proof {
            assert(chars@.take(i as int + 1).drop_last() == chars@.take(i as int));
        }
        let c = chars[i];
        if i == 0 {
            out.push(lower_char(c));
            assert(out@ =~= seq![lower(c)]);
        } else if c.is_uppercase() {
            out.push('_');
            out.push(lower_char(c));
        } else {
            out.push(c);
        }
        i += 1;
    }
    proof {
        assert(chars@.take(chars.len() as int) == chars@);
    }
    out
}

/// Applies `render` to every entity, in parallel, and collects what it
/// returns in the order of the entities.
///
/// Trusted: `rayon`'s `par_iter`, `map` and `collect` into a `Vec` call the
/// function once for each item and keep the order of the items.
#[verifier::external_body]
pub(crate) fn par_map<T: Send, F: Fn(&Entity) -> T + Sync + Send>(
    entities: &Vec<Entity>,
    render: F,
) -> (out: Vec<T>)
    requires
        forall|i: int| 0 <= i < entities.len() ==> call_requires(render, (&#[trigger] entities[i],)),
    ensures
        out.len() == entities.len(),
        forall|i: int|
            0 <= i < out.len() ==> call_ensures(render, (&entities[i],), #[trigger] out[i]),
{
    entities.par_iter().map(render).collect()
}

} // verus!
