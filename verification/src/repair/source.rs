//! Joining source fragments into one compilation unit.

use vstd::prelude::*;
use vstd::string::*;
use crate::text::{chars_of, views};

verus! {

/// The text `text` without the occurrences of `pattern`, which are looked
/// for from the start and do not overlap.
pub open spec fn without(text: Seq<char>, pattern: Seq<char>) -> Seq<char>
    decreases text.len(),
{
    if pattern.len() == 0 || text.len() < pattern.len() {
        text
    } else if text.take(pattern.len() as int) == pattern {
        without(text.skip(pattern.len() as int), pattern)
    } else {
        seq![text[0]] + without(text.skip(1), pattern)
    }
}

/// Removes the occurrences of `pattern` from `text`.
pub fn remove_all(text: &str, pattern: &str) -> (out: String)
    ensures
        out@ == without(text@, pattern@),
{
    let all = chars_of(text);
    let wanted = chars_of(pattern);
    let mut out = String::new();
    let mut i: usize = 0;
    proof {
        assert(all@.skip(0) =~= all@);
    }
    if wanted.len() == 0 {
        return String::from_str(text);
    }
    while i < all.len()
        invariant
            i <= all.len(),
            wanted.len() > 0,
            without(all@, wanted@) == out@ + without(all@.skip(i as int), wanted@),
        decreases all.len() - i,
    {
        let ghost rest = all@.skip(i as int);
        let mut matched = all.len() - i >= wanted.len();
        if matched {
            let mut k: usize = 0;
            while k < wanted.len()
                invariant
                    k <= wanted.len(),
                    i + wanted.len() <= all.len(),
                    rest == all@.skip(i as int),
                    matched ==> forall|j: int| 0 <= j < k ==> all[i + j] == wanted[j],
                    !matched ==> rest.take(wanted.len() as int) != wanted@,
                decreases wanted.len() - k,
            {
                if matched && all[i + k] != wanted[k] {
                    matched = false;
                    assert(rest.take(wanted.len() as int)[k as int] != wanted@[k as int]);
                }
                k += 1;
            }
            proof {
                if matched {
                    assert(rest.take(wanted.len() as int) =~= wanted@);
                }
            }
        }
        if matched {
            proof {
                assert(rest.skip(wanted.len() as int) =~= all@.skip(i + wanted.len()));
            }
            i += wanted.len();
        } else {
            proof {
                assert(rest.skip(1) =~= all@.skip(i + 1));
                if rest.len() < wanted.len() {
                    assert(seq![rest[0]] + rest.skip(1) =~= rest);
                }
                assert(out@.push(all[i as int]) + without(all@.skip(i + 1), wanted@) =~= out@
                    + without(rest, wanted@));
            }
            out.push(all[i]);
            i += 1;
        }
    }
    proof {
        assert(all@.skip(all.len() as int) =~= Seq::empty());
    }
    out
}

/// The compilation unit that the fragments `inputs` are joined to: each
/// fragment on lines of its own, in order, without the qualifications by
/// `crate::`.
pub open spec fn joined_inputs(inputs: Seq<Seq<char>>) -> Seq<char>
    decreases inputs.len(),
{
    if inputs.len() == 0 {
        Seq::empty()
    } else {
        joined_inputs(inputs.drop_last()) + without(inputs.last(), "crate::"@) + "\n"@
    }
}

/// Joins source fragments into one compilation unit.
pub fn join_inputs(inputs: &Vec<String>) -> (out: String)
    ensures
        out@ == joined_inputs(views(inputs@)),
{
    let mut out = String::new();
    let mut i: usize = 0;
    let ghost all = views(inputs@);
    proof {
        assert(all.take(0) =~= Seq::empty());
    }
    while i < inputs.len()
        invariant
            i <= inputs.len(),
            all == views(inputs@),
            out@ == joined_inputs(all.take(i as int)),
        decreases inputs.len() - i,
    {
        proof {
            assert(all.take(i as int + 1).drop_last() == all.take(i as int));
            assert(all.take(i as int + 1).last() == inputs[i as int]@);
        }
        out.append(remove_all(inputs[i].as_str(), "crate::").as_str());
        out.append("\n");
        i += 1;
    }
    proof {
        assert(all.take(inputs.len() as int) == all);
    }
    out
}

} // verus!
