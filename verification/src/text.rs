//! Text building blocks shared by the emitters and the repair pass.

use vstd::prelude::*;
use vstd::string::*;

verus! {

/// Trusted: `String::push` appends the given character to the end of the
/// string.
pub assume_specification[ std::string::String::push ](s: &mut std::string::String, c: char)
    ensures
        final(s)@ == old(s)@.push(c),
;

/// The concatenation of all `parts`, with `sep` between neighbours.
pub open spec fn join_spec(parts: Seq<Seq<char>>, sep: Seq<char>) -> Seq<char>
    decreases parts.len(),
{
    if parts.len() == 0 {
        Seq::empty()
    } else if parts.len() == 1 {
        parts[0]
    } else {
        join_spec(parts.drop_last(), sep) + sep + parts.last()
    }
}

/// The views of a vector of strings.
pub open spec fn views(parts: Seq<String>) -> Seq<Seq<char>> {
    Seq::new(parts.len(), |i: int| parts[i]@)
}

/// The view of a text, where there is one.
pub open spec fn optional_text(text: Option<String>) -> Option<Seq<char>> {
    match text {
        Some(t) => Some(t@),
        None => None,
    }
}

/// The first components of a list of pairs: the names of a list of named
/// values.
pub open spec fn keys<T>(pairs: Seq<(Seq<char>, T)>) -> Seq<Seq<char>> {
    Seq::new(pairs.len(), |i: int| pairs[i].0)
}

/// Whether no text occurs twice in `names`.
pub open spec fn distinct(names: Seq<Seq<char>>) -> bool {
    forall|i: int, j: int| 0 <= i < j < names.len() ==> names[i] != names[j]
}

/// Tells whether no text occurs twice in `names`.
pub fn all_distinct(names: &Vec<String>) -> (out: bool)
    ensures
        out == distinct(views(names@)),
{
    let ghost all = views(names@);
    let mut j: usize = 0;
    while j < names.len()
        invariant
            j <= names.len(),
            all == views(names@),
            forall|a: int, b: int| 0 <= a < b < j ==> all[a] != all[b],
        decreases names.len() - j,
    {
        let mut i: usize = 0;
        while i < j
            invariant
                i <= j < names.len(),
                all == views(names@),
                forall|a: int| 0 <= a < i ==> all[a] != all[j as int],
            decreases j - i,
        {
            if names[i] == names[j] {
                assert(all[i as int] == all[j as int]);
                return false;
            }
            i += 1;
        }
        j += 1;
    }
    true
}

/// A copy of `parts`.
pub fn clone_texts(parts: &Vec<String>) -> (out: Vec<String>)
    ensures
        views(out@) == views(parts@),
{
    let mut out: Vec<String> = Vec::new();
    let mut i: usize = 0;
    while i < parts.len()
        invariant
            i <= parts.len(),
            out.len() == i,
            forall|j: int| 0 <= j < i ==> out[j]@ == parts[j]@,
        decreases parts.len() - i,
    {
        out.push(parts[i].clone());
        i += 1;
    }
    assert(views(out@) =~= views(parts@));
    out
}

/// Whether `name` is one of `list`.
pub fn contains_text(list: &Vec<String>, name: &String) -> (found: bool)
    ensures
        found == views(list@).contains(name@),
{
    let mut i: usize = 0;
    while i < list.len()
        invariant
            i <= list.len(),
            forall|j: int| 0 <= j < i ==> list[j]@ != name@,
        decreases list.len() - i,
    {
        if list[i] == *name {
            assert(views(list@)[i as int] == name@);
            return true;
        }
        i += 1;
    }
    assert forall|j: int| 0 <= j < views(list@).len() implies views(list@)[j] != name@ by {
        assert(views(list@)[j] == list[j]@);
    }
    false
}

/// Whether `a` and `b` are the same text.
pub fn same_text(a: &str, b: &str) -> (same: bool)
    ensures
        same == (a@ == b@),
{
    let left = chars_of(a);
    let right = chars_of(b);
    if left.len() != right.len() {
        return false;
    }
    let mut i: usize = 0;
    while i < left.len()
        invariant
            i <= left.len(),
            left.len() == right.len(),
            left@ == a@,
            right@ == b@,
            forall|j: int| 0 <= j < i ==> left[j] == right[j],
        decreases left.len() - i,
    {
        if left[i] != right[i] {
            assert(a@[i as int] != b@[i as int]);
            return false;
        }
        i += 1;
    }
    assert(left@ =~= right@);
    true
}

/// Joins `parts` with `sep` between neighbours.
pub fn join(parts: &Vec<String>, sep: &str) -> (out: String)
    ensures
        out@ == join_spec(views(parts@), sep@),
{
    let mut out = String::new();
    let mut i: usize = 0;
    while i < parts.len()
        invariant
            i <= parts.len(),
            out@ == join_spec(views(parts@).take(i as int), sep@),
        decreases parts.len() - i,
    {
        if i > 0 {
            out.append(sep);
        }
        out.append(parts[i].as_str());
        proof {
            let all = views(parts@);
            assert(all.take(i as int + 1).drop_last() == all.take(i as int));
            assert(all.take(i as int + 1).last() == parts[i as int]@);
        }
        i += 1;
    }
    proof {
        assert(views(parts@).take(parts.len() as int) == views(parts@));
    }
    out
}

/// The characters of `s`, in order.
pub fn chars_of(s: &str) -> (out: Vec<char>)
    ensures
        out@ == s@,
{
    let mut out: Vec<char> = Vec::new();
    for c in it: s.chars()
        invariant
            out@ == s@.take(it.index() as int),
            it.seq() == s@,
    {
        out.push(c);
        proof {
            assert(s@.take(it.index() + 1) == s@.take(it.index() as int).push(c));
        }
    }
    proof {
        assert(s@.take(s@.len() as int) == s@);
    }
    out
}

/// The decimal digit for `d`, which is below 10.
pub open spec fn digit(d: nat) -> char {
    ((48 + d) as u8) as char
}

/// The decimal numeral of `n`, without leading zeros.
pub open spec fn decimal(n: nat) -> Seq<char>
    decreases n,
{
    if n < 10 {
        seq![digit(n)]
    } else {
        decimal(n / 10).push(digit(n % 10))
    }
}

/// Appends the decimal numeral of `n` to `out`.
pub fn push_decimal(out: &mut String, n: u64)
    ensures
        final(out)@ == old(out)@ + decimal(n as nat),
    decreases n,
{
    if n >= 10 {
        push_decimal(out, n / 10);
    }
    let d: u8 = (n % 10) as u8;
    out.push((48u8 + d) as char);
    proof {
        let before = old(out)@;
        if n >= 10 {
            assert(before + decimal(n as nat) == (before + decimal((n / 10) as nat)).push(
                digit((n % 10) as nat),
            ));
        } else {
            assert(before + decimal(n as nat) == before.push(digit(n as nat)));
        }
    }
}

/// A numeral has at least one digit, and every character of it is a digit.
pub proof fn lemma_decimal_digits(n: nat)
    ensures
        decimal(n).len() >= 1,
        n >= 10 ==> decimal(n).len() >= 2,
        forall|i: int| 0 <= i < decimal(n).len() ==> '0' <= #[trigger] decimal(n)[i] <= '9',
    decreases n,
{
    if n >= 10 {
        lemma_decimal_digits(n / 10);
    }
}

/// Different numbers have different numerals.
pub proof fn lemma_decimal_injective(n: nat, m: nat)
    requires
        decimal(n) == decimal(m),
    ensures
        n == m,
    decreases n,
{
    lemma_decimal_digits(n);
    lemma_decimal_digits(m);
    if n >= 10 && m >= 10 {
        assert(decimal(n).drop_last() == decimal(n / 10));
        assert(decimal(m).drop_last() == decimal(m / 10));
        assert(decimal(n).last() == digit(n % 10));
        assert(decimal(m).last() == digit(m % 10));
        lemma_decimal_injective(n / 10, m / 10);
    } else if n < 10 && m < 10 {
        assert(decimal(n)[0] == digit(n));
        assert(decimal(m)[0] == digit(m));
    }
}

} // verus!
