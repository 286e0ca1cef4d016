//! Properties of the rendering core, proved over the specifications that the
//! renderers' contracts use.

use vstd::prelude::*;
use crate::date::{abs_nat, part_text};
use crate::element::{DatePartForm, DayForm, YearForm};
use crate::numeral::decimal;
use crate::condition::branch_passes;
use crate::context::Context;
use crate::element::{Choose, Element, Group};
use crate::output::written;
use crate::render::{
    affixed, children_texts, children_usage, delim_of, elem_out, group_use, join_nonempty,
    lemma_first_pass, no_use,
};

verus! {

/// The non-empty parts, in order.
pub open spec fn nonempty_parts(parts: Seq<Seq<char>>) -> Seq<Seq<char>>
    decreases parts.len(),
{
    if parts.len() == 0 {
        Seq::empty()
    } else {
        let prev = nonempty_parts(parts.drop_last());
        if parts.last().len() == 0 { prev } else { prev.push(parts.last()) }
    }
}

/// The parts with `d` between each two neighbours.
pub open spec fn join_all(parts: Seq<Seq<char>>, d: Seq<char>) -> Seq<char>
    decreases parts.len(),
{
    if parts.len() == 0 {
        Seq::empty()
    } else if parts.len() == 1 {
        parts[0]
    } else {
        join_all(parts.drop_last(), d) + d + parts.last()
    }
}

/// Joining non-empty parts gives empty text only for no parts at all.
proof fn lemma_join_all_empty(parts: Seq<Seq<char>>, d: Seq<char>)
    requires
        forall|i: int| 0 <= i < parts.len() ==> (#[trigger] parts[i]).len() > 0,
    ensures
        (join_all(parts, d).len() == 0) == (parts.len() == 0),
    decreases parts.len(),
{
    if parts.len() > 1 {
        lemma_join_all_empty(parts.drop_last(), d);
        assert(parts.last().len() > 0);
    } else if parts.len() == 1 {
        assert(parts[0].len() > 0);
    }
}

proof fn lemma_nonempty_parts_nonempty(parts: Seq<Seq<char>>)
    ensures
        forall|i: int|
            0 <= i < nonempty_parts(parts).len() ==> (#[trigger] nonempty_parts(parts)[i]).len() > 0,
    decreases parts.len(),
{
    if parts.len() > 0 {
        let prev = nonempty_parts(parts.drop_last());
        lemma_nonempty_parts_nonempty(parts.drop_last());
        if parts.last().len() > 0 {
            assert forall|i: int| 0 <= i < prev.push(parts.last()).len() implies (#[trigger] prev.push(
                parts.last(),
            )[i]).len() > 0 by {
                if i < prev.len() {
                    assert(prev.push(parts.last())[i] == prev[i]);
                }
            }
        }
    }
}

/// No orphan delimiters: joining child outputs keeps exactly the non-empty
/// ones, with one delimiter between each two of them; an empty child leaves
/// no delimiter before it, after it or doubled beside it.
pub proof fn lemma_no_orphan_delimiters(parts: Seq<Seq<char>>, d: Seq<char>)
    ensures
        join_nonempty(parts, d) == join_all(nonempty_parts(parts), d),
    decreases parts.len(),
{
    if parts.len() > 0 {
        let prev = parts.drop_last();
        lemma_no_orphan_delimiters(prev, d);
        lemma_nonempty_parts_nonempty(prev);
        lemma_join_all_empty(nonempty_parts(prev), d);
        let np = nonempty_parts(prev);
        if parts.last().len() > 0 && np.len() > 0 {
            assert(np.push(parts.last()).drop_last() =~= np);
        } else if parts.last().len() > 0 {
            assert(np.push(parts.last()).len() == 1);
        }
    }
}

/// No orphan delimiters, for rendered children: a child sequence writes
/// exactly its non-empty children's outputs, one delimiter between each two.
pub proof fn lemma_children_no_orphan_delimiters(
    ctx: &Context,
    cs: Seq<Element>,
    d: Seq<char>,
    s: bool,
    depth: nat,
)
    ensures
        join_nonempty(children_texts(ctx, cs, s, depth), d) == join_all(
            nonempty_parts(children_texts(ctx, cs, s, depth)),
            d,
        ),
{
    lemma_no_orphan_delimiters(children_texts(ctx, cs, s, depth), d);
}

/// Group suppression: a group whose children consulted a variable, where
/// none held a value, no macro printed anything and no nested group
/// survived, writes nothing and tells its parent nothing.
pub proof fn lemma_group_suppressed(ctx: &Context, g: Group, s: bool, depth: nat)
    requires
        children_usage(ctx, g.children@, s, depth).has_vars,
        !children_usage(ctx, g.children@, s, depth).has_non_empty_vars,
        !children_usage(ctx, g.children@, s, depth).has_used_macros,
        !children_usage(ctx, g.children@, s, depth).has_non_empty_group,
    ensures
        elem_out(ctx, Element::Group(g), s, depth) == (Seq::<char>::empty(), no_use()),
{
}

/// Group preservation: a group whose children consulted no variable always
/// survives: it writes its non-empty children joined by its delimiter inside
/// its affixes, and tells its parent that a nested group survived.
pub proof fn lemma_group_preserved(ctx: &Context, g: Group, s: bool, depth: nat)
    requires
        !children_usage(ctx, g.children@, s, depth).has_vars,
    ensures
        elem_out(ctx, Element::Group(g), s, depth) == (
            affixed(
                written(g.affixes.prefix@, s),
                join_nonempty(children_texts(ctx, g.children@, s, depth), delim_of(g.delimiter)),
                written(g.affixes.suffix@, s),
            ),
            group_use(),
        ),
{
}

/// Choose fallback: when no branch passes, a choose element writes what its
/// fallback branch's children write, joined by its delimiter, or nothing
/// when it has no fallback.
pub proof fn lemma_choose_fallback(ctx: &Context, c: Choose, s: bool, depth: nat)
    requires
        forall|j: int| 0 <= j < c.branches@.len() ==> !branch_passes(ctx, #[trigger] c.branches@[j]),
    ensures
        elem_out(ctx, Element::Choose(c), s, depth).0 == match c.otherwise {
            Some(o) => join_nonempty(children_texts(ctx, o@, s, depth), delim_of(c.delimiter)),
            None => Seq::<char>::empty(),
        },
{
    lemma_first_pass(ctx, c.branches@, 0);
}

/// Ordinal days: where the locale leaves day one without a suffix, day one
/// is its bare numeral and every other day is its numeral and suffix.
pub proof fn lemma_ordinal_day_one(val: int, month_name: Option<Seq<char>>, ordinal: Seq<char>)
    ensures
        val == 1 ==> part_text(DatePartForm::Day(DayForm::Ordinal), val, month_name, ordinal, true)
            == decimal(1),
        val != 1 ==> part_text(DatePartForm::Day(DayForm::Ordinal), val, month_name, ordinal, true)
            == decimal(abs_nat(val)) + ordinal,
{
}

/// Era markers: a year below zero is its absolute value and `BC`; a year
/// from zero to 999 is its value and `AD`; later years have no marker.
pub proof fn lemma_era_marker(year: int, month_name: Option<Seq<char>>, ordinal: Seq<char>)
    ensures
        year < 0 ==> part_text(DatePartForm::Year(YearForm::Long), year, month_name, ordinal, false)
            == decimal(abs_nat(year)) + seq!['B', 'C'],
        0 <= year < 1000 ==> part_text(
            DatePartForm::Year(YearForm::Long),
            year,
            month_name,
            ordinal,
            false,
        ) == decimal(abs_nat(year)) + seq!['A', 'D'],
        year >= 1000 ==> part_text(
            DatePartForm::Year(YearForm::Long),
            year,
            month_name,
            ordinal,
            false,
        ) == decimal(abs_nat(year)),
{
    assert(decimal(abs_nat(year)) + Seq::<char>::empty() =~= decimal(abs_nat(year)));
}

} // verus!
