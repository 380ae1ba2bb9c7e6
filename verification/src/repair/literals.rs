//! Literal types and the declarations whose structure includes one.
//!
//! A literal type is an enum with a single variant that is renamed to a
//! literal. A declaration includes a literal type where it is one, or where
//! a declaration of the unit that includes one is named anywhere in the
//! types of its fields or of the fields of its variants: as the type itself
//! or as an argument of it, at any depth.

use vstd::prelude::*;
use vstd::string::*;
use crate::repair::retag::{literal_of_enum, literal_value};
use crate::syntax::{
    Decl, DeclView, FieldDeclView, VariantView, decl_views, field_views, variant_views,
};
use crate::text::{clone_texts, optional_text, views};

verus! {

/// Whether `decl` is a literal type.
pub open spec fn is_literal_type(decl: DeclView) -> bool {
    literal_value(decl) is Some
}

/// The name of a sum type or a product type.
pub open spec fn decl_name(decl: DeclView) -> Option<Seq<char>> {
    match decl {
        DeclView::Enum { name, .. } => Some(name),
        DeclView::Struct { name, .. } => Some(name),
        DeclView::Other { .. } => None,
    }
}

/// The names that occur in the variants `variants`, in order.
pub open spec fn variant_mentions(variants: Seq<VariantView>) -> Seq<Seq<char>>
    decreases variants.len(),
{
    if variants.len() == 0 {
        Seq::empty()
    } else {
        variant_mentions(variants.drop_last()) + variants.last().mentions
    }
}

/// The names that occur in the types of the fields `fields`, in order.
pub open spec fn field_mentions(fields: Seq<FieldDeclView>) -> Seq<Seq<char>>
    decreases fields.len(),
{
    if fields.len() == 0 {
        Seq::empty()
    } else {
        field_mentions(fields.drop_last()) + fields.last().mentions
    }
}

/// The names that `decl` is made of: every name that occurs in the types
/// of the fields of a struct or of the variants of an enum.
pub open spec fn parts(decl: DeclView) -> Seq<Seq<char>> {
    match decl {
        DeclView::Enum { variants, .. } => variant_mentions(variants),
        DeclView::Struct { fields: Some(fields), mentions, .. } => mentions + field_mentions(fields),
        DeclView::Struct { fields: None, mentions, .. } => mentions,
        DeclView::Other { .. } => Seq::empty(),
    }
}

/// Whether one of the names `names` is the name of a marked declaration of
/// `unit`.
pub open spec fn names_marked(unit: Seq<DeclView>, marks: Seq<bool>, names: Seq<Seq<char>>) -> bool {
    exists|k: int, d: int|
        0 <= k < names.len() && 0 <= d < unit.len() && d < marks.len() && marks[d] && decl_name(
            unit[d],
        ) == Some(#[trigger] names[k]) && #[trigger] marks[d]
}

/// For each declaration of `unit`, whether it includes a literal type
/// within `steps` steps from part to part.
pub open spec fn literal_marks(unit: Seq<DeclView>, steps: nat) -> Seq<bool>
    decreases steps,
{
    if steps == 0 {
        Seq::new(unit.len(), |d: int| is_literal_type(unit[d]))
    } else {
        let before = literal_marks(unit, (steps - 1) as nat);
        Seq::new(unit.len(), |d: int| before[d] || names_marked(unit, before, parts(unit[d])))
    }
}

/// For each declaration of `unit`, whether its structure includes a literal
/// type.
pub open spec fn includes_literal(unit: Seq<DeclView>) -> Seq<bool> {
    literal_marks(unit, unit.len())
}

/// Reads the name of a sum type or a product type.
pub fn name_of_decl(decl: &Decl) -> (out: Option<String>)
    ensures
        optional_text(out) == decl_name(decl@),
{
    match decl {
        Decl::Enum { name, .. } => Some(name.clone()),
        Decl::Struct { name, .. } => Some(name.clone()),
        Decl::Other { .. } => None,
    }
}

/// Lists the names that `decl` is made of.
pub fn parts_of_decl(decl: &Decl) -> (out: Vec<String>)
    ensures
        views(out@) == parts(decl@),
{
    match decl {
        Decl::Enum { variants, .. } => {
            let mut out: Vec<String> = Vec::new();
            let mut k: usize = 0;
            let ghost all = variant_views(variants@);
            proof {
                assert(all.take(0) =~= Seq::empty());
                assert(views(out@) =~= Seq::empty());
            }
            while k < variants.len()
                invariant
                    k <= variants.len(),
                    all == variant_views(variants@),
                    views(out@) == variant_mentions(all.take(k as int)),
                decreases variants.len() - k,
            {
                proof {
                    assert(all.take(k as int + 1).drop_last() == all.take(k as int));
                    assert(all.take(k as int + 1).last() == variants[k as int]@);
                }
                let ghost before = views(out@);
                let mut more = clone_texts(&variants[k].mentions);
                out.append(&mut more);
                assert(views(out@) =~= before + views(variants[k as int].mentions@));
                k += 1;
            }
            proof {
                assert(all.take(variants.len() as int) == all);
            }
            out
        },
        Decl::Struct { fields, mentions, .. } => {
            let mut out = clone_texts(mentions);
            match fields {
                Some(fields) => {
                    let mut k: usize = 0;
                    let ghost all = field_views(fields@);
                    proof {
                        assert(all.take(0) =~= Seq::empty());
                        assert(views(out@) =~= views(mentions@) + Seq::empty());
                    }
                    while k < fields.len()
                        invariant
                            k <= fields.len(),
                            all == field_views(fields@),
                            views(out@) == views(mentions@) + field_mentions(all.take(k as int)),
                        decreases fields.len() - k,
                    {
                        proof {
                            assert(all.take(k as int + 1).drop_last() == all.take(k as int));
                            assert(all.take(k as int + 1).last() == fields[k as int]@);
                        }
                        let ghost before = views(out@);
                        let mut more = clone_texts(&fields[k].mentions);
                        out.append(&mut more);
                        assert(views(out@) =~= before + views(fields[k as int].mentions@));
                        k += 1;
                    }
                    proof {
                        assert(all.take(fields.len() as int) == all);
                    }
                },
                None => {},
            }
            out
        },
        Decl::Other { .. } => {
            let out: Vec<String> = Vec::new();
            assert(views(out@) =~= Seq::empty());
            out
        },
    }
}

/// Tells whether one of the names `names` is the name of a marked
/// declaration of `unit`.
pub fn any_name_marked(unit: &Vec<Decl>, marks: &Vec<bool>, names: &Vec<String>) -> (out: bool)
    requires
        marks.len() == unit.len(),
    ensures
        out == names_marked(decl_views(unit@), marks@, views(names@)),
{
    let ghost all = decl_views(unit@);
    let ghost wanted = views(names@);
    let mut k: usize = 0;
    while k < names.len()
        invariant
            k <= names.len(),
            marks.len() == unit.len(),
            all == decl_views(unit@),
            wanted == views(names@),
            forall|a: int, d: int|
                0 <= a < k && 0 <= d < all.len() && #[trigger] marks@[d] ==> decl_name(all[d])
                    != Some(#[trigger] wanted[a]),
        decreases names.len() - k,
    {
        let mut d: usize = 0;
        while d < unit.len()
            invariant
                d <= unit.len(),
                k < names.len(),
                marks.len() == unit.len(),
                all == decl_views(unit@),
                wanted == views(names@),
                forall|e: int|
                    0 <= e < d && #[trigger] marks@[e] ==> decl_name(all[e]) != Some(
                        wanted[k as int],
                    ),
            decreases unit.len() - d,
        {
            if marks[d] {
                match name_of_decl(&unit[d]) {
                    Some(found) => {
                        if found == names[k] {
                            assert(decl_name(all[d as int]) == Some(wanted[k as int]));
                            assert(marks@[d as int]);
                            return true;
                        }
                    },
                    None => {},
                }
            }
            d += 1;
        }
        k += 1;
    }
    false
}

/// Marks the literal types of `unit`.
pub fn mark_literal_types(unit: &Vec<Decl>) -> (out: Vec<bool>)
    ensures
        out@ == literal_marks(decl_views(unit@), 0),
{
    let mut out: Vec<bool> = Vec::new();
    let mut d: usize = 0;
    while d < unit.len()
        invariant
            d <= unit.len(),
            out.len() == d,
            forall|e: int| 0 <= e < d ==> out[e] == is_literal_type(unit[e]@),
        decreases unit.len() - d,
    {
        out.push(literal_of_enum(&unit[d]).is_some());
        d += 1;
    }
    assert(out@ =~= literal_marks(decl_views(unit@), 0));
    out
}

/// Marks the declarations of `unit` whose structure includes a literal
/// type.
pub fn mark_literal_includers(unit: &Vec<Decl>) -> (out: Vec<bool>)
    ensures
        out@ == includes_literal(decl_views(unit@)),
{
    let ghost all = decl_views(unit@);
    let mut marks = mark_literal_types(unit);
    let mut step: usize = 0;
    while step < unit.len()
        invariant
            step <= unit.len(),
            all == decl_views(unit@),
            marks@ == literal_marks(all, step as nat),
        decreases unit.len() - step,
    {
        let mut next: Vec<bool> = Vec::new();
        let mut d: usize = 0;
        while d < unit.len()
            invariant
                d <= unit.len(),
                all == decl_views(unit@),
                marks@ == literal_marks(all, step as nat),
                marks.len() == unit.len(),
                next.len() == d,
                forall|e: int|
                    0 <= e < d ==> next[e] == (marks[e] || names_marked(
                        all,
                        marks@,
                        parts(all[e]),
                    )),
            decreases unit.len() - d,
        {
            let marked = marks[d] || any_name_marked(unit, &marks, &parts_of_decl(&unit[d]));
            next.push(marked);
            d += 1;
        }
        assert(next@ =~= literal_marks(all, (step + 1) as nat));
        marks = next;
        step += 1;
    }
    marks
}

/// Whether the declarations `before` and `after` have the same name and the
/// same parts, and are both a literal type or neither.
pub open spec fn same_parts(before: DeclView, after: DeclView) -> bool {
    &&& is_literal_type(after) == is_literal_type(before)
    &&& decl_name(after) == decl_name(before)
    &&& parts(after) == parts(before)
}

/// Units whose declarations have the same names and the same parts include
/// literal types in the same declarations.
pub proof fn lemma_marks_alike(before: Seq<DeclView>, after: Seq<DeclView>, steps: nat)
    requires
        after.len() == before.len(),
        forall|d: int| 0 <= d < before.len() ==> same_parts(before[d], #[trigger] after[d]),
    ensures
        literal_marks(after, steps) == literal_marks(before, steps),
    decreases steps,
{
    if steps > 0 {
        lemma_marks_alike(before, after, (steps - 1) as nat);
        let marks = literal_marks(before, (steps - 1) as nat);
        assert forall|d: int| 0 <= d < before.len() implies names_marked(
            after,
            marks,
            parts(after[d]),
        ) == names_marked(before, marks, parts(before[d])) by {
            let names = parts(before[d]);
            assert(same_parts(before[d], after[d]));
            if names_marked(before, marks, names) {
                let (k, e) = choose|k: int, e: int|
                    0 <= k < names.len() && 0 <= e < before.len() && e < marks.len() && marks[e]
                        && decl_name(before[e]) == Some(#[trigger] names[k]) && #[trigger] marks[e];
                assert(same_parts(before[e], after[e]));
                assert(decl_name(after[e]) == Some(names[k]) && marks[e]);
            }
            if names_marked(after, marks, names) {
                let (k, e) = choose|k: int, e: int|
                    0 <= k < names.len() && 0 <= e < after.len() && e < marks.len() && marks[e]
                        && decl_name(after[e]) == Some(#[trigger] names[k]) && #[trigger] marks[e];
                assert(same_parts(before[e], after[e]));
                assert(decl_name(before[e]) == Some(names[k]) && marks[e]);
            }
        }
        assert(literal_marks(after, steps) =~= literal_marks(before, steps));
    } else {
        assert(literal_marks(after, steps) =~= literal_marks(before, steps));
    }
}

/// How many of the marks `marks` are set.
pub open spec fn count(marks: Seq<bool>) -> nat
    decreases marks.len(),
{
    if marks.len() == 0 {
        0
    } else if marks.last() {
        count(marks.drop_last()) + 1
    } else {
        count(marks.drop_last())
    }
}

/// Whether every mark that is set in `fewer` is set in `more`.
pub open spec fn within_marks(fewer: Seq<bool>, more: Seq<bool>) -> bool {
    &&& fewer.len() == more.len()
    &&& forall|d: int| 0 <= d < fewer.len() && fewer[d] ==> #[trigger] more[d]
}

/// No more marks are set than there are, and where none is set, none is.
proof fn lemma_count_bounds(marks: Seq<bool>)
    ensures
        count(marks) <= marks.len(),
        count(marks) == 0 ==> forall|d: int| 0 <= d < marks.len() ==> !#[trigger] marks[d],
    decreases marks.len(),
{
    if marks.len() > 0 {
        let front = marks.drop_last();
        lemma_count_bounds(front);
        if count(marks) == 0 {
            assert forall|d: int| 0 <= d < marks.len() implies !#[trigger] marks[d] by {
                if d < front.len() {
                    assert(front[d] == marks[d]);
                }
            }
        }
    }
}

/// More marks count more: as many where they are the same marks, else at
/// least one more.
proof fn lemma_count_grows(fewer: Seq<bool>, more: Seq<bool>)
    requires
        within_marks(fewer, more),
    ensures
        count(fewer) <= count(more),
        fewer != more ==> count(fewer) < count(more),
    decreases fewer.len(),
{
    if fewer.len() > 0 {
        let a = fewer.drop_last();
        let b = more.drop_last();
        assert forall|d: int| 0 <= d < a.len() && a[d] implies #[trigger] b[d] by {
            assert(fewer[d] == a[d] && more[d] == b[d]);
        }
        lemma_count_grows(a, b);
        if fewer != more {
            if a == b {
                assert(fewer.last() != more.last()) by {
                    if fewer.last() == more.last() {
                        assert(fewer =~= a.push(fewer.last()));
                        assert(more =~= b.push(more.last()));
                    }
                }
            }
        }
    } else {
        assert(fewer =~= more);
    }
}

/// There is a mark for every declaration.
pub proof fn lemma_marks_len(unit: Seq<DeclView>, steps: nat)
    ensures
        literal_marks(unit, steps).len() == unit.len(),
{
}

/// A name that is marked among fewer marks is marked among more.
proof fn lemma_names_marked_more(
    unit: Seq<DeclView>,
    fewer: Seq<bool>,
    more: Seq<bool>,
    names: Seq<Seq<char>>,
)
    requires
        within_marks(fewer, more),
        names_marked(unit, fewer, names),
    ensures
        names_marked(unit, more, names),
{
    let (k, d) = choose|k: int, d: int|
        0 <= k < names.len() && 0 <= d < unit.len() && d < fewer.len() && fewer[d] && decl_name(
            unit[d],
        ) == Some(#[trigger] names[k]) && #[trigger] fewer[d];
    assert(more[d] && decl_name(unit[d]) == Some(names[k]));
}

/// A further step keeps every mark.
proof fn lemma_marks_grow(unit: Seq<DeclView>, steps: nat)
    ensures
        within_marks(literal_marks(unit, steps), literal_marks(unit, steps + 1)),
{
    lemma_marks_len(unit, steps);
    lemma_marks_len(unit, steps + 1);
}

/// After as many steps as there are declarations, a further step marks
/// nothing new.
proof fn lemma_marks_settle(unit: Seq<DeclView>, steps: nat)
    ensures
        literal_marks(unit, steps + 1) == literal_marks(unit, steps) || count(
            literal_marks(unit, steps),
        ) >= steps + 1,
    decreases steps,
{
    let now = literal_marks(unit, steps);
    let next = literal_marks(unit, steps + 1);
    lemma_marks_len(unit, steps);
    lemma_marks_len(unit, steps + 1);
    if steps == 0 {
        lemma_count_bounds(now);
        if count(now) == 0 {
            assert forall|d: int| 0 <= d < unit.len() implies !names_marked(
                unit,
                now,
                parts(unit[d]),
            ) by {}
            assert(next =~= now);
        }
    } else {
        let before = literal_marks(unit, (steps - 1) as nat);
        lemma_marks_settle(unit, (steps - 1) as nat);
        if now == before {
            assert(next =~= now);
        } else {
            lemma_marks_grow(unit, (steps - 1) as nat);
            lemma_count_grows(before, now);
        }
    }
}

/// A declaration includes a literal type exactly where it is one, or where
/// one of the names that occur in the types of its fields and variants is
/// the name of a declaration that includes one.
pub proof fn lemma_includes_closed(unit: Seq<DeclView>, d: int)
    requires
        0 <= d < unit.len(),
    ensures
        includes_literal(unit)[d] == (is_literal_type(unit[d]) || names_marked(
            unit,
            includes_literal(unit),
            parts(unit[d]),
        )),
{
    let steps = unit.len();
    let marks = literal_marks(unit, steps);
    let next = literal_marks(unit, steps + 1);
    lemma_marks_len(unit, steps);
    lemma_marks_settle(unit, steps);
    lemma_count_bounds(marks);
    assert(next == marks);
    assert(next[d] == (marks[d] || names_marked(unit, marks, parts(unit[d]))));
    if marks[d] {
        lemma_marked_for_a_reason(unit, steps, d);
    }
    if is_literal_type(unit[d]) {
        lemma_literal_types_marked(unit, steps, d);
    }
}

/// A literal type is marked at every step.
proof fn lemma_literal_types_marked(unit: Seq<DeclView>, steps: nat, d: int)
    requires
        0 <= d < unit.len(),
        is_literal_type(unit[d]),
    ensures
        literal_marks(unit, steps)[d],
    decreases steps,
{
    if steps > 0 {
        lemma_literal_types_marked(unit, (steps - 1) as nat, d);
    }
}

/// A declaration is only marked where it is a literal type or names a marked
/// declaration.
proof fn lemma_marked_for_a_reason(unit: Seq<DeclView>, steps: nat, d: int)
    requires
        0 <= d < unit.len(),
        literal_marks(unit, steps)[d],
    ensures
        is_literal_type(unit[d]) || names_marked(
            unit,
            literal_marks(unit, steps),
            parts(unit[d]),
        ),
    decreases steps,
{
    if steps > 0 {
        let before = literal_marks(unit, (steps - 1) as nat);
        lemma_marks_len(unit, (steps - 1) as nat);
        lemma_marks_grow(unit, (steps - 1) as nat);
        if before[d] {
            lemma_marked_for_a_reason(unit, (steps - 1) as nat, d);
        }
        if names_marked(unit, before, parts(unit[d])) {
            lemma_names_marked_more(
                unit,
                before,
                literal_marks(unit, steps),
                parts(unit[d]),
            );
        }
    }
}

} // verus!
