//! The rendering interpreter: walks the element tree and writes into the
//! output buffer, erasing what turned out empty together with the
//! delimiters that would have stood beside it.

use vstd::prelude::*;
use crate::chars::chars_of;
use crate::condition::{branch_passes, select_branch};
use crate::context::{Context, DateValue, macro_lookup, NumberValue, Numeric, numeric_is_plural};
use crate::date::{part_chars, part_text, sort_two, sort_two_chars, sort_year, sort_year_chars};
use crate::element::{
    Choose, ChooseBranch, Date, DateParts, DatePart, DatePartForm, DatePartName, Element, Group, Label,
    LabelPluralize, Layout, MonthForm, Number, NumberForm, NumberVariable, StandardVariable, Term,
    TermForm, Text, TextTarget, Variable, is_number_of, part_name,
};
use crate::numeral::{append_chars, decimal_chars};
use crate::output::{
    Annot, Annotation, Output, UsageInfo, lemma_commit_tag_last, lemma_mark_survives, written,
};
use crate::pages::{format_page_range, page_range_text};
use crate::style::{ElemMeta, Formatting, formatting_is_empty};

verus! {

/// How deeply elements may nest, macros included. Deeper elements, such as
/// those of a macro that expands itself, are not rendered.
pub const MAX_DEPTH: u32 = 64;

/// The non-empty parts joined by `d`: empty parts leave neither text nor a
/// delimiter behind.
pub open spec fn join_nonempty(parts: Seq<Seq<char>>, d: Seq<char>) -> Seq<char>
    decreases parts.len(),
{
    if parts.len() == 0 {
        Seq::empty()
    } else {
        let prev = join_nonempty(parts.drop_last(), d);
        let p = parts.last();
        if p.len() == 0 {
            prev
        } else if prev.len() == 0 {
            p
        } else {
            prev + d + p
        }
    }
}

/// The delimiter as text; none is the empty text.
pub open spec fn delim_text(d: Option<&Vec<char>>) -> Seq<char> {
    match d {
        Some(v) => v@,
        None => Seq::empty(),
    }
}

/// An owned delimiter as text; none is the empty text.
pub open spec fn delim_of(d: Option<Vec<char>>) -> Seq<char> {
    match d {
        Some(v) => v@,
        None => Seq::empty(),
    }
}

/// A usage record with nothing raised.
pub open spec fn no_use() -> UsageInfo {
    UsageInfo {
        has_vars: false,
        has_non_empty_vars: false,
        has_used_macros: false,
        has_non_empty_group: false,
    }
}

/// The record of consulting a variable that did or did not hold a value.
pub open spec fn var_use(present: bool) -> UsageInfo {
    UsageInfo { has_vars: true, has_non_empty_vars: present, ..no_use() }
}

/// The record of a macro that printed something.
pub open spec fn macro_use() -> UsageInfo {
    UsageInfo { has_used_macros: true, ..no_use() }
}

/// The record of a nested group that survived.
pub open spec fn group_use() -> UsageInfo {
    UsageInfo { has_non_empty_group: true, ..no_use() }
}

/// The flags raised in `a` or in `b`.
pub open spec fn raise(a: UsageInfo, b: UsageInfo) -> UsageInfo {
    UsageInfo {
        has_vars: a.has_vars || b.has_vars,
        has_non_empty_vars: a.has_non_empty_vars || b.has_non_empty_vars,
        has_used_macros: a.has_used_macros || b.has_used_macros,
        has_non_empty_group: a.has_non_empty_group || b.has_non_empty_group,
    }
}

/// The usage stack with `e` raised on its innermost record, if any.
pub open spec fn raise_top(st: Seq<UsageInfo>, e: UsageInfo) -> Seq<UsageInfo> {
    if st.len() > 0 {
        st.update(st.len() - 1, raise(st.last(), e))
    } else {
        st
    }
}

/// Whether the innermost record, if any, already holds a non-empty variable.
pub open spec fn usage_settled(st: Seq<UsageInfo>) -> bool {
    st.len() > 0 ==> st.last().has_vars && st.last().has_non_empty_vars
}

proof fn lemma_raise_top_twice(st: Seq<UsageInfo>, a: UsageInfo, b: UsageInfo)
    ensures
        raise_top(raise_top(st, a), b) == raise_top(st, raise(a, b)),
{
    if st.len() > 0 {
        assert(raise_top(raise_top(st, a), b) =~= raise_top(st, raise(a, b)));
    }
}

proof fn lemma_raise_top_none(st: Seq<UsageInfo>)
    ensures
        raise_top(st, no_use()) == st,
{
    if st.len() > 0 {
        assert(raise_top(st, no_use()) =~= st);
    }
}

proof fn lemma_settled_absorbs(st: Seq<UsageInfo>, p: bool)
    requires
        usage_settled(st),
    ensures
        raise_top(st, var_use(p)) == st,
        usage_settled(raise_top(st, var_use(p))),
{
    if st.len() > 0 {
        assert(raise_top(st, var_use(p)) =~= st);
    }
}

/// The year suffix written after each year: the entry's year-suffix
/// variable where the style has no element of its own for it.
pub open spec fn year_suffix_text(ctx: &Context) -> Seq<char> {
    if ctx.year_suffix_implicit {
        match ctx.standard_value(StandardVariable::YearSuffix) {
            Some(v) => v@,
            None => Seq::empty(),
        }
    } else {
        Seq::empty()
    }
}

/// What writing the year suffix records.
pub open spec fn year_suffix_use(ctx: &Context) -> UsageInfo {
    if ctx.year_suffix_implicit {
        var_use(ctx.standard_value(StandardVariable::YearSuffix) is Some)
    } else {
        no_use()
    }
}

/// Whether the last annotation is the tag `t` over `start..end`.
pub open spec fn tagged_last(annots: Seq<Annotation>, start: int, end: int, t: ElemMeta) -> bool {
    annots.len() > 0 && annots.last().start == start && annots.last().end == end
        && annots.last().kind == Annot::Meta(t)
}

/// Whether some annotation of `kind` covers exactly `start..end`.
pub open spec fn has_annot(annots: Seq<Annotation>, start: int, end: int, kind: Annot) -> bool {
    exists|i: int|
        0 <= i < annots.len() && (#[trigger] annots[i]).start as int == start && annots[i].end as int
            == end && annots[i].kind == kind
}

/// Whether no annotation from index `k` on is a tag.
pub open spec fn no_meta_from(annots: Seq<Annotation>, k: int) -> bool {
    forall|i: int| k <= i < annots.len() ==> !((#[trigger] annots[i]).kind is Meta)
}

/// An annotation stays when annotations are only added after it.
pub proof fn lemma_has_annot_grows(
    a: Seq<Annotation>,
    b: Seq<Annotation>,
    start: int,
    end: int,
    kind: Annot,
)
    requires
        has_annot(a, start, end, kind),
        a.len() <= b.len(),
        forall|i: int| 0 <= i < a.len() ==> #[trigger] b[i] == a[i],
    ensures
        has_annot(b, start, end, kind),
{
    let i = choose|i: int|
        0 <= i < a.len() && (#[trigger] a[i]).start as int == start && a[i].end as int == end
            && a[i].kind == kind;
    assert(b[i] == a[i]);
}

/// Whether a group survives: it consulted no variable, or one of them held
/// a value, a macro in it printed something, or a nested group survived.
pub open spec fn group_keeps(info: UsageInfo) -> bool {
    !info.has_vars || info.has_non_empty_vars || info.has_used_macros || info.has_non_empty_group
}

/// Which of year, month and day a sort key holds.
pub open spec fn sort_mask(d: Date) -> (bool, bool, bool) {
    if d.form is Some {
        match d.parts {
            Some(DateParts::Year) => (true, false, false),
            Some(DateParts::YearMonth) => (true, true, false),
            _ => (true, true, true),
        }
    } else {
        (
            exists|i: int| 0 <= i < d.date_part@.len() && part_name(#[trigger] d.date_part@[i].form) == DatePartName::Year,
            exists|i: int| 0 <= i < d.date_part@.len() && part_name(#[trigger] d.date_part@[i].form) == DatePartName::Month,
            exists|i: int| 0 <= i < d.date_part@.len() && part_name(#[trigger] d.date_part@[i].form) == DatePartName::Day,
        )
    }
}

fn has_part(parts: &Vec<DatePart>, name: DatePartName) -> (r: bool)
    ensures
        r == exists|i: int| 0 <= i < parts@.len() && part_name(#[trigger] parts@[i].form) == name,
{
    let mut i: usize = 0;
    while i < parts.len()
        invariant
            i <= parts@.len(),
            forall|j: int| 0 <= j < i ==> part_name(#[trigger] parts@[j].form) != name,
        decreases parts@.len() - i,
    {
        if parts[i].name() == name {
            return true;
        }
        i = i + 1;
    }
    false
}

/// What an element writes when rendered alone with period stripping `s`,
/// and the flags it raises on the innermost usage record. Children are
/// rendered one level deeper; nothing is rendered at depth zero.
pub open spec fn elem_out(ctx: &Context, e: Element, s: bool, depth: nat) -> (Seq<char>, UsageInfo)
    decreases depth, 1nat, 0nat,
{
    match e {
        Element::Text(t) => match t.target {
            TextTarget::Macro(id) => match macro_lookup(ctx.macros@, id) {
                Some(cs) => {
                    let inner = join_nonempty(
                        children_texts(ctx, cs, t.strip_periods, depth),
                        Seq::empty(),
                    );
                    let u = children_usage(ctx, cs, t.strip_periods, depth);
                    (
                        affixed(written(t.affixes.prefix@, s), inner, written(t.affixes.suffix@, s)),
                        if inner.len() > 0 { raise(u, macro_use()) } else { u },
                    )
                },
                None => (Seq::empty(), no_use()),
            },
            _ => text_leaf_out(ctx, t, s),
        },
        Element::Number(n) => number_out(ctx, n, s),
        Element::Label(l) => label_out(ctx, l, s),
        Element::Date(d) => date_out(ctx, d, s),
        Element::Choose(c) => match first_pass(ctx, c.branches@) {
            Some(i) => (
                join_nonempty(
                    children_texts(ctx, c.branches@[i].children@, s, depth),
                    delim_of(c.delimiter),
                ),
                children_usage(ctx, c.branches@[i].children@, s, depth),
            ),
            None => match c.otherwise {
                Some(o) => (
                    join_nonempty(children_texts(ctx, o@, s, depth), delim_of(c.delimiter)),
                    children_usage(ctx, o@, s, depth),
                ),
                None => (Seq::empty(), no_use()),
            },
        },
        Element::Group(g) => {
            let u = children_usage(ctx, g.children@, s, depth);
            if group_keeps(u) {
                (
                    affixed(
                        written(g.affixes.prefix@, s),
                        join_nonempty(
                            children_texts(ctx, g.children@, s, depth),
                            delim_of(g.delimiter),
                        ),
                        written(g.affixes.suffix@, s),
                    ),
                    group_use(),
                )
            } else {
                (Seq::empty(), no_use())
            }
        },
    }
}

/// What each child writes, rendered one level deeper.
pub open spec fn children_texts(ctx: &Context, cs: Seq<Element>, s: bool, depth: nat) -> Seq<
    Seq<char>,
>
    decreases depth, 0nat, cs.len(),
{
    if depth == 0 || cs.len() == 0 {
        Seq::empty()
    } else {
        children_texts(ctx, cs.drop_last(), s, depth).push(
            elem_out(ctx, cs.last(), s, (depth - 1) as nat).0,
        )
    }
}

/// The flags the children raise together, rendered one level deeper.
pub open spec fn children_usage(ctx: &Context, cs: Seq<Element>, s: bool, depth: nat) -> UsageInfo
    decreases depth, 0nat, cs.len(),
{
    if depth == 0 || cs.len() == 0 {
        no_use()
    } else {
        raise(
            children_usage(ctx, cs.drop_last(), s, depth),
            elem_out(ctx, cs.last(), s, (depth - 1) as nat).1,
        )
    }
}

/// The index of the first branch whose tests pass.
pub open spec fn first_pass(ctx: &Context, bs: Seq<ChooseBranch>) -> Option<int>
    decreases bs.len(),
{
    if bs.len() == 0 {
        None
    } else if branch_passes(ctx, bs[0]) {
        Some(0)
    } else {
        match first_pass(ctx, bs.drop_first()) {
            Some(i) => Some(i + 1),
            None => None,
        }
    }
}

/// The branch that passes first, with none before it passing, is the one
/// `first_pass` names; with none passing, it names none.
pub proof fn lemma_first_pass(ctx: &Context, bs: Seq<ChooseBranch>, i: int)
    ensures
        0 <= i < bs.len() && branch_passes(ctx, bs[i]) && (forall|j: int|
            0 <= j < i ==> !branch_passes(ctx, #[trigger] bs[j])) ==> first_pass(ctx, bs) == Some(i),
        (forall|j: int| 0 <= j < bs.len() ==> !branch_passes(ctx, #[trigger] bs[j]))
            ==> first_pass(ctx, bs) is None,
    decreases bs.len(),
{
    if bs.len() > 0 {
        lemma_first_pass(ctx, bs.drop_first(), i - 1);
        if (forall|j: int| 0 <= j < bs.len() ==> !branch_passes(ctx, #[trigger] bs[j])) {
            assert(!branch_passes(ctx, bs[0]));
            assert forall|j: int| 0 <= j < bs.drop_first().len() implies !branch_passes(
                ctx,
                #[trigger] bs.drop_first()[j],
            ) by {
                assert(bs.drop_first()[j] == bs[j + 1]);
            }
        }
        if 0 < i < bs.len() && branch_passes(ctx, bs[i]) && (forall|j: int|
            0 <= j < i ==> !branch_passes(ctx, #[trigger] bs[j])) {
            assert(!branch_passes(ctx, bs[0]));
            assert(bs.drop_first()[i - 1] == bs[i]);
            assert forall|j: int| 0 <= j < i - 1 implies !branch_passes(
                ctx,
                #[trigger] bs.drop_first()[j],
            ) by {
                assert(bs.drop_first()[j] == bs[j + 1]);
            }
        }
    }
}

/// Renders children joined by an optional delimiter. Each child is rendered
/// into a provisional region; one that wrote nothing is erased together with
/// the delimiter before it, so only the non-empty children remain, joined by
/// the delimiter.
pub fn render_with_delimiter(
    children: &Vec<Element>,
    delimiter: Option<&Vec<char>>,
    ctx: &Context,
    out: &mut Output,
    depth: u32,
)
    requires
        old(out).wf(),
    ensures
        final(out).wf(),
        final(out).extends(old(out)),
        final(out).strip_periods == old(out).strip_periods,
        final(out).text@ == old(out).text@ + join_nonempty(
            children_texts(ctx, children@, old(out).strip_periods, depth as nat),
            delim_text(delimiter),
        ),
        final(out).usage@ == raise_top(
            old(out).usage@,
            children_usage(ctx, children@, old(out).strip_periods, depth as nat),
        ),
    decreases depth, 0int,
{
    let ghost d = delim_text(delimiter);
    let ghost st = old(out).strip_periods;
    let ghost dn = depth as nat;
    if depth == 0 {
        proof {
            lemma_raise_top_none(out.usage@);
        }
        assert(old(out).text@ + join_nonempty(Seq::empty(), d) =~= old(out).text@);
        return;
    }
    let mut last_empty = true;
    let mut i: usize = 0;
    proof {
        lemma_raise_top_none(out.usage@);
    }
    assert(children@.subrange(0, 0) =~= Seq::<Element>::empty());
    assert(out.text@ =~= old(out).text@ + join_nonempty(
        children_texts(ctx, children@.subrange(0, 0), st, dn),
        d,
    ));
    while i < children.len()
        invariant
            out.wf(),
            out.extends(old(out)),
            depth > 0,
            dn == depth as nat,
            i <= children@.len(),
            d == delim_text(delimiter),
            st == old(out).strip_periods,
            out.strip_periods == st,
            out.text@ == old(out).text@ + join_nonempty(
                children_texts(ctx, children@.subrange(0, i as int), st, dn),
                d,
            ),
            out.usage@ == raise_top(
                old(out).usage@,
                children_usage(ctx, children@.subrange(0, i as int), st, dn),
            ),
            last_empty == (join_nonempty(
                children_texts(ctx, children@.subrange(0, i as int), st, dn),
                d,
            ).len() == 0),
        decreases children@.len() - i,
    {
        let ghost sub = children@.subrange(0, i as int);
        let ghost sub1 = children@.subrange(0, i + 1);
        proof {
            assert(sub1.drop_last() =~= sub);
            assert(sub1.last() == children@[i as int]);
        }
        let ghost parts = children_texts(ctx, sub, st, dn);
        let ghost u_before = children_usage(ctx, sub, st, dn);
        let ghost start = *out;
        let dmark = out.push_elem(Formatting::plain());
        if !last_empty {
            match delimiter {
                Some(dl) => {
                    let keep = out.strip_periods;
                    out.stop_stripping_periods();
                    out.push_str(dl);
                    out.may_strip_periods(keep);
                },
                None => {},
            }
        }
        let ghost after_delim = *out;
        assert(out.text@ == start.text@ + (if last_empty { Seq::empty() } else { d }));
        let cmark = out.push_elem(Formatting::plain());
        render_element(&children[i], ctx, out, depth - 1);
        let ghost piece = elem_out(ctx, children@[i as int], st, (dn - 1) as nat).0;
        proof {
            lemma_mark_survives(&start, out, dmark);
            lemma_mark_survives(&after_delim, out, cmark);
            assert(out.text@ =~= after_delim.text@ + piece);
            assert(parts.push(piece).drop_last() =~= parts);
            assert(children_texts(ctx, sub1, st, dn) == parts.push(piece));
            lemma_raise_top_twice(
                old(out).usage@,
                u_before,
                elem_out(ctx, children@[i as int], st, (dn - 1) as nat).1,
            );
        }
        if out.is_empty_since(cmark) {
            out.discard_elem(cmark);
            proof {
                lemma_mark_survives(&start, out, dmark);
            }
            out.discard_elem(dmark);
            assert(out.text@ =~= start.text@);
        } else {
            out.commit_elem(cmark, None, None);
            proof {
                lemma_mark_survives(&start, out, dmark);
            }
            out.commit_elem(dmark, None, None);
            last_empty = false;
            assert(out.text@ =~= old(out).text@ + join_nonempty(parts.push(piece), d));
        }
        i = i + 1;
    }
    assert(children@.subrange(0, children@.len() as int) =~= children@);
}

/// Renders an element kind by kind.
pub fn render_element(elem: &Element, ctx: &Context, out: &mut Output, depth: u32)
    requires
        old(out).wf(),
    ensures
        final(out).wf(),
        final(out).extends(old(out)),
        final(out).strip_periods == old(out).strip_periods,
        final(out).text@ == old(out).text@ + elem_out(
            ctx,
            *elem,
            old(out).strip_periods,
            depth as nat,
        ).0,
        final(out).usage@ == raise_top(
            old(out).usage@,
            elem_out(ctx, *elem, old(out).strip_periods, depth as nat).1,
        ),
    decreases depth, 3int,
{
    match elem {
        Element::Text(t) => render_text(t, ctx, out, depth),
        Element::Number(n) => render_number(n, ctx, out),
        Element::Label(l) => render_label(l, ctx, out),
        Element::Date(d) => render_date(d, ctx, out),
        Element::Choose(c) => render_choose(c, ctx, out, depth),
        Element::Group(g) => render_group(g, ctx, out, depth),
    }
}

/// The ordinal suffix of `n`: the term for its last two digits, else for
/// its last digit, else the default ordinal term, else nothing.
pub open spec fn ordinal_suffix(ctx: &Context, n: nat) -> Seq<char> {
    match ctx.term_value(Term::Ordinal((n % 100) as u8), TermForm::Long, false) {
        Some(t) => t@,
        None => match ctx.term_value(Term::Ordinal((n % 10) as u8), TermForm::Long, false) {
            Some(t) => t@,
            None => match ctx.term_value(Term::OrdinalDefault, TermForm::Long, false) {
                Some(t) => t@,
                None => Seq::empty(),
            },
        },
    }
}

/// One number in the given form.
pub open spec fn number_one(ctx: &Context, x: nat, form: NumberForm) -> Seq<char> {
    match form {
        NumberForm::Numeric => crate::numeral::decimal(x),
        NumberForm::Ordinal => crate::numeral::decimal(x) + ordinal_suffix(ctx, x),
        NumberForm::LongOrdinal => match if 1 <= x <= 10 {
            ctx.term_value(Term::LongOrdinal(x as u8), TermForm::Long, false)
        } else {
            None
        } {
            Some(t) => t@,
            None => crate::numeral::decimal(x) + ordinal_suffix(ctx, x),
        },
        NumberForm::Roman => if 1 <= x <= 3999 {
            crate::numeral::roman(x)
        } else {
            crate::numeral::decimal(x)
        },
    }
}

/// A number or a range in the given form; a range's ends are joined by a
/// hyphen.
pub open spec fn number_text(ctx: &Context, n: Numeric, form: NumberForm) -> Seq<char> {
    match n.end {
        Some(e) => number_one(ctx, n.start as nat, form) + seq!['-'] + number_one(ctx, e as nat, form),
        None => number_one(ctx, n.start as nat, form),
    }
}

/// The sort key of a number: ten digits per end.
pub open spec fn number_sort_key(n: Numeric) -> Seq<char> {
    match n.end {
        Some(e) => crate::numeral::padded_decimal(n.start as nat, 10) + seq!['-']
            + crate::numeral::padded_decimal(e as nat, 10),
        None => crate::numeral::padded_decimal(n.start as nat, 10),
    }
}

/// The ordinal suffix of `n`; see `ordinal_suffix`.
pub fn ordinal_suffix_chars(ctx: &Context, n: u64) -> (r: Vec<char>)
    ensures
        r@ == ordinal_suffix(ctx, n as nat),
{
    let mut r: Vec<char> = Vec::new();
    match ctx.term(Term::Ordinal((n % 100) as u8), TermForm::Long, false) {
        Some(t) => append_chars(&mut r, t),
        None => match ctx.term(Term::Ordinal((n % 10) as u8), TermForm::Long, false) {
            Some(t) => append_chars(&mut r, t),
            None => match ctx.term(Term::OrdinalDefault, TermForm::Long, false) {
                Some(t) => append_chars(&mut r, t),
                None => {},
            },
        },
    }
    assert(r@ =~= ordinal_suffix(ctx, n as nat));
    r
}

fn number_one_chars(ctx: &Context, x: u32, form: NumberForm) -> (r: Vec<char>)
    ensures
        r@ == number_one(ctx, x as nat, form),
{
    match form {
        NumberForm::Roman => {
            if 1 <= x && x <= 3999 {
                return crate::numeral::roman_chars(x as u64);
            }
            return decimal_chars(x as u64);
        },
        NumberForm::LongOrdinal => {
            if 1 <= x && x <= 10 {
                match ctx.term(Term::LongOrdinal(x as u8), TermForm::Long, false) {
                    Some(t) => {
                        return copy_chars(t);
                    },
                    None => {},
                }
            }
        },
        _ => {},
    }
    let mut r = decimal_chars(x as u64);
    match form {
        NumberForm::Numeric | NumberForm::Roman => {},
        _ => {
            let suffix = ordinal_suffix_chars(ctx, x as u64);
            append_chars(&mut r, &suffix);
        },
    }
    r
}

/// A number or a range in the given form; see `number_text`.
pub fn number_chars(ctx: &Context, n: Numeric, form: NumberForm) -> (r: Vec<char>)
    ensures
        r@ == number_text(ctx, n, form),
{
    let mut r = number_one_chars(ctx, n.start, form);
    match n.end {
        Some(e) => {
            r.push('-');
            let tail = number_one_chars(ctx, e, form);
            append_chars(&mut r, &tail);
        },
        None => {},
    }
    r
}

/// The sort key of a number; see `number_sort_key`.
pub fn number_sort_chars(n: Numeric) -> (r: Vec<char>)
    ensures
        r@ == number_sort_key(n),
{
    let mut r = crate::numeral::padded_decimal_chars(n.start as u64, 10);
    match n.end {
        Some(e) => {
            r.push('-');
            let tail = crate::numeral::padded_decimal_chars(e as u64, 10);
            append_chars(&mut r, &tail);
        },
        None => {},
    }
    r
}

fn copy_chars(s: &Vec<char>) -> (r: Vec<char>)
    ensures
        r@ == s@,
{
    let mut r: Vec<char> = Vec::new();
    append_chars(&mut r, s);
    assert(r@ =~= s@);
    r
}

/// The address a variable's value is appended to to make a link: the value
/// itself for a URL, a resolver for DOI, PMID and PMCID; none for others.
pub open spec fn link_prefix(v: StandardVariable) -> Option<Seq<char>> {
    match v {
        StandardVariable::Url => Some(Seq::empty()),
        StandardVariable::Doi => Some("https://doi.org/"@),
        StandardVariable::Pmid => Some("https://www.ncbi.nlm.nih.gov/pubmed/"@),
        StandardVariable::Pmcid => Some("https://www.ncbi.nlm.nih.gov/pmc/articles/"@),
        _ => None,
    }
}

/// The address an annotation links to, if it is a link.
pub open spec fn link_of(a: Annot) -> Option<Seq<char>> {
    match a {
        Annot::Link(u) => Some(u@),
        _ => None,
    }
}

/// The address a text element's target links to, if any.
pub open spec fn link_for(ctx: &Context, target: TextTarget) -> Option<Seq<char>> {
    match target {
        TextTarget::Variable(Variable::Standard(v)) => match (link_prefix(v), ctx.standard_value(v)) {
            (Some(p), Some(c)) => Some(p + c@),
            _ => None,
        },
        _ => None,
    }
}

/// Writes a free-text variable; identifiers that resolve to a web address
/// are written as links to it.
fn write_standard(v: StandardVariable, val: &Vec<char>, out: &mut Output)
    requires
        old(out).wf(),
    ensures
        final(out).wf(),
        final(out).extends(old(out)),
        final(out).text@ == old(out).text@ + written(val@, old(out).strip_periods),
        final(out).strip_periods == old(out).strip_periods,
        final(out).usage@ == old(out).usage@,
        link_prefix(v) is None ==> final(out).annots@ == old(out).annots@,
        link_prefix(v) is Some ==> final(out).annots@.len() == old(out).annots@.len() + 1
            && link_of(final(out).annots@.last().kind) == Some(link_prefix(v)->0 + val@),
{
    let base: Option<Vec<char>> = match v {
        StandardVariable::Url => {
            let e: Vec<char> = Vec::new();
            assert(e@ =~= Seq::<char>::empty());
            Some(e)
        },
        StandardVariable::Doi => Some(chars_of("https://doi.org/")),
        StandardVariable::Pmid => Some(chars_of("https://www.ncbi.nlm.nih.gov/pubmed/")),
        StandardVariable::Pmcid => Some(chars_of("https://www.ncbi.nlm.nih.gov/pmc/articles/")),
        _ => None,
    };
    match base {
        Some(mut url) => {
            append_chars(&mut url, val);
            assert(url@ == link_prefix(v)->0 + val@);
            let scope = out.push_link(url);
            out.push_str(val);
            out.close_scope(scope);
        },
        None => out.push_str(val),
    }
}

/// Writes the year suffix after a year, where the style has no element of
/// its own for it.
fn render_year_suffix_implicitly(ctx: &Context, out: &mut Output)
    requires
        old(out).wf(),
    ensures
        final(out).wf(),
        final(out).extends(old(out)),
        final(out).strip_periods == old(out).strip_periods,
        final(out).text@ == old(out).text@ + written(year_suffix_text(ctx), old(out).strip_periods),
        final(out).usage@ == raise_top(old(out).usage@, year_suffix_use(ctx)),
        final(out).annots@ == old(out).annots@,
{
    if !ctx.year_suffix_implicit {
        proof {
            lemma_raise_top_none(out.usage@);
        }
        assert(out.text@ =~= old(out).text@ + written(Seq::<char>::empty(), out.strip_periods));
    } else {
        let v = ctx.standard(StandardVariable::YearSuffix);
        out.record_variable(v.is_some());
        match v {
            Some(s) => out.push_str(s),
            None => {
                assert(out.text@ =~= old(out).text@ + written(Seq::<char>::empty(), out.strip_periods));
            },
        }
    }
}

/// What a text element writes before affixes, for every target but a
/// macro; `None` where nothing is written.
pub open spec fn text_content(ctx: &Context, target: TextTarget) -> Option<Seq<char>> {
    match target {
        TextTarget::Variable(Variable::Standard(v)) => match ctx.standard_value(v) {
            Some(s) => Some(s@),
            None => None,
        },
        TextTarget::Variable(Variable::Number(v)) => match ctx.number_value(v) {
            Some(NumberValue::Typed(x)) => Some(number_text(ctx, x, NumberForm::Numeric)),
            Some(NumberValue::Text(s)) => Some(s@),
            None => None,
        },
        TextTarget::Term { term, form, plural } => match ctx.term_value(term, form, plural) {
            Some(s) => Some(s@),
            None => None,
        },
        TextTarget::Value(v) => Some(v@),
        _ => None,
    }
}

/// What consulting a text element's target records.
pub open spec fn text_var_use(ctx: &Context, target: TextTarget) -> UsageInfo {
    match target {
        TextTarget::Variable(Variable::Standard(v)) => var_use(ctx.standard_value(v) is Some),
        TextTarget::Variable(Variable::Number(v)) => var_use(ctx.number_value(v) is Some),
        _ => no_use(),
    }
}

/// What a text element whose target is not a macro writes, and what it
/// records.
pub open spec fn text_leaf_out(ctx: &Context, t: Text, s: bool) -> (Seq<char>, UsageInfo) {
    if ctx.author_only {
        (Seq::empty(), no_use())
    } else {
        (
            match text_content(ctx, t.target) {
                Some(c) => affixed(
                    written(t.affixes.prefix@, s),
                    written(c, t.strip_periods),
                    written(t.affixes.suffix@, s),
                ),
                None => Seq::empty(),
            },
            text_var_use(ctx, t.target),
        )
    }
}

/// What a macro target's children write together, if the macro exists.
pub open spec fn macro_output(ctx: &Context, t: Text, depth: nat) -> Option<Seq<char>> {
    match t.target {
        TextTarget::Macro(id) => match macro_lookup(ctx.macros@, id) {
            Some(cs) => Some(
                join_nonempty(children_texts(ctx, cs, t.strip_periods, depth), Seq::empty()),
            ),
            None => None,
        },
        _ => None,
    }
}

/// Whether a text element writes nothing and attaches nothing: suppressed
/// in an author-only pass, unresolved, or naming a missing macro.
pub open spec fn text_vanishes(ctx: &Context, t: Text, depth: nat) -> bool {
    if t.target is Macro {
        macro_output(ctx, t, depth) is None
    } else {
        ctx.author_only || text_content(ctx, t.target) is None
    }
}

/// Resolves a text element's content, recording which variables were
/// consulted; `None` for a macro or where nothing is to be written.
fn text_content_chars(t: &Text, ctx: &Context, out: &mut Output) -> (r: Option<Vec<char>>)
    requires
        old(out).wf(),
    ensures
        final(out).wf(),
        final(out).extends(old(out)),
        final(out).text@ == old(out).text@,
        final(out).annots@ == old(out).annots@,
        final(out).strip_periods == old(out).strip_periods,
        final(out).usage@ == raise_top(old(out).usage@, text_var_use(ctx, t.target)),
        match r {
            Some(c) => text_content(ctx, t.target) == Some(c@),
            None => text_content(ctx, t.target) is None,
        },
{
    match &t.target {
        TextTarget::Variable(Variable::Standard(v)) => {
            let val = ctx.standard(*v);
            out.record_variable(val.is_some());
            match val {
                Some(x) => Some(copy_chars(x)),
                None => None,
            }
        },
        TextTarget::Variable(Variable::Number(v)) => {
            let val = ctx.number(*v);
            out.record_variable(val.is_some());
            match val {
                Some(NumberValue::Typed(n)) => Some(number_chars(ctx, *n, NumberForm::Numeric)),
                Some(NumberValue::Text(x)) => Some(copy_chars(x)),
                None => None,
            }
        },
        TextTarget::Term { term, form, plural } => {
            proof {
                lemma_raise_top_none(out.usage@);
            }
            match ctx.term(*term, *form, *plural) {
                Some(x) => Some(copy_chars(x)),
                None => None,
            }
        },
        TextTarget::Value(v) => {
            proof {
                lemma_raise_top_none(out.usage@);
            }
            Some(copy_chars(v))
        },
        _ => {
            proof {
                lemma_raise_top_none(out.usage@);
            }
            None
        },
    }
}

/// Writes a resolved text element's content, as a link where it is an
/// identifier.
fn write_target(t: &Text, content: &Vec<char>, ctx: &Context, out: &mut Output)
    requires
        old(out).wf(),
        text_content(ctx, t.target) == Some(content@),
    ensures
        final(out).wf(),
        final(out).extends(old(out)),
        final(out).strip_periods == old(out).strip_periods,
        final(out).usage@ == old(out).usage@,
        final(out).text@ == old(out).text@ + written(content@, old(out).strip_periods),
        link_for(ctx, t.target) is Some ==> final(out).annots@.len() == old(out).annots@.len() + 1
            && link_of(final(out).annots@.last().kind) == link_for(ctx, t.target),
        link_for(ctx, t.target) is None ==> final(out).annots@ == old(out).annots@,
{
    match &t.target {
        TextTarget::Variable(Variable::Standard(v)) => write_standard(*v, content, out),
        _ => out.push_str(content),
    }
}

/// Writes a resolved text element's content inside its quotes, period
/// stripping and case.
fn write_scoped_content(t: &Text, content: &Vec<char>, ctx: &Context, out: &mut Output)
    requires
        old(out).wf(),
        text_content(ctx, t.target) == Some(content@),
    ensures
        final(out).wf(),
        final(out).extends(old(out)),
        final(out).strip_periods == old(out).strip_periods,
        final(out).usage@ == old(out).usage@,
        final(out).text@ == old(out).text@ + written(content@, t.strip_periods),
        no_meta_from(final(out).annots@, old(out).annots@.len() as int),
        t.text_case is Some ==> has_annot(
            final(out).annots@,
            old(out).text@.len() as int,
            final(out).text@.len() as int,
            Annot::Case(t.text_case->0),
        ),
        t.quotes ==> has_annot(
            final(out).annots@,
            old(out).text@.len() as int,
            final(out).text@.len() as int,
            Annot::Quoted,
        ),
        link_for(ctx, t.target) is Some ==> old(out).annots@.len() < final(out).annots@.len()
            && link_of(final(out).annots@[old(out).annots@.len() as int].kind) == link_for(
            ctx,
            t.target,
        ),
{
    let saved = out.strip_periods;
    let quotes = if t.quotes {
        Some(out.push_quotes())
    } else {
        None
    };
    out.may_strip_periods(t.strip_periods);
    let case = out.push_case(t.text_case);
    write_target(t, content, ctx, out);
    let ghost k1 = out.annots@.len() as int;
    out.close_scope(case);
    out.may_strip_periods(saved);
    let ghost k2 = out.annots@.len() as int;
    match quotes {
        Some(q) => out.close_scope(q),
        None => {},
    }
    proof {
        if t.text_case is Some {
            assert(out.annots@[k1].kind == Annot::Case(t.text_case->0));
        }
        if t.quotes {
            assert(out.annots@[k2].kind == Annot::Quoted);
        }
    }
}

/// Writes a resolved text element's content inside its formatting, affixes,
/// quotes and case, tagging a variable's text and linking an identifier.
fn write_text_content(t: &Text, content: &Vec<char>, ctx: &Context, out: &mut Output)
    requires
        old(out).wf(),
        !ctx.author_only,
        text_content(ctx, t.target) == Some(content@),
    ensures
        final(out).wf(),
        final(out).extends(old(out)),
        final(out).strip_periods == old(out).strip_periods,
        final(out).usage@ == old(out).usage@,
        final(out).text@ == old(out).text@ + affixed(
            written(t.affixes.prefix@, old(out).strip_periods),
            written(content@, t.strip_periods),
            written(t.affixes.suffix@, old(out).strip_periods),
        ),
        t.target is Variable ==> tagged_last(
            final(out).annots@,
            old(out).text@.len() as int,
            final(out).text@.len() as int,
            ElemMeta::Text,
        ),
        !(t.target is Variable) ==> no_meta_from(final(out).annots@, old(out).annots@.len() as int),
        !formatting_is_empty(t.formatting) ==> has_annot(
            final(out).annots@,
            old(out).text@.len() as int,
            final(out).text@.len() as int,
            Annot::Format(t.formatting),
        ),
        t.text_case is Some && written(content@, t.strip_periods).len() > 0 ==> has_annot(
            final(out).annots@,
            (old(out).text@.len() + written(t.affixes.prefix@, old(out).strip_periods).len()) as int,
            final(out).text@.len() - written(t.affixes.suffix@, old(out).strip_periods).len(),
            Annot::Case(t.text_case->0),
        ),
        t.quotes && written(content@, t.strip_periods).len() > 0 ==> has_annot(
            final(out).annots@,
            (old(out).text@.len() + written(t.affixes.prefix@, old(out).strip_periods).len()) as int,
            final(out).text@.len() - written(t.affixes.suffix@, old(out).strip_periods).len(),
            Annot::Quoted,
        ),
        link_for(ctx, t.target) is Some && written(content@, t.strip_periods).len() > 0
            ==> old(out).annots@.len() < final(out).annots@.len() && link_of(
            final(out).annots@[old(out).annots@.len() as int].kind,
        ) == link_for(ctx, t.target),
{
    let ghost s0 = *out;
    let mark = out.push_elem(t.formatting);
    let loc = out.apply_prefix(&t.affixes);
    let ghost s1 = *out;
    write_scoped_content(t, content, ctx, out);
    let ghost s2 = *out;
    proof {
        lemma_mark_survives(&s0, out, loc.before);
    }
    out.apply_suffix(&t.affixes, loc);
    proof {
        lemma_mark_survives(&s0, out, mark);
        if written(content@, t.strip_periods).len() > 0 {
            if t.text_case is Some {
                lemma_has_annot_grows(s2.annots@, out.annots@, s1.text@.len() as int, s2.text@.len() as int, Annot::Case(t.text_case->0));
            }
            if t.quotes {
                lemma_has_annot_grows(s2.annots@, out.annots@, s1.text@.len() as int, s2.text@.len() as int, Annot::Quoted);
            }
        }
    }
    let meta = match &t.target {
        TextTarget::Variable(_) => Some(ElemMeta::Text),
        _ => None,
    };
    let ghost a0 = out.annots@;
    let ghost end = out.text@.len();
    out.commit_elem(mark, t.display, meta);
    proof {
        match meta {
            Some(m) => lemma_commit_tag_last(a0, mark.text_len, end as usize, mark.formatting, t.display, m),
            None => {},
        }
        if written(content@, t.strip_periods).len() > 0 {
            if t.text_case is Some {
                lemma_has_annot_grows(a0, out.annots@, s1.text@.len() as int, s2.text@.len() as int, Annot::Case(t.text_case->0));
            }
            if t.quotes {
                lemma_has_annot_grows(a0, out.annots@, s1.text@.len() as int, s2.text@.len() as int, Annot::Quoted);
            }
        }
        if !formatting_is_empty(t.formatting) {
            assert(out.annots@[a0.len() as int].kind == Annot::Format(t.formatting));
        }
    }
}

/// Renders a text element: a variable, a macro's output, a term or a literal,
/// inside its affixes, quotes, case and formatting. In an author-only pass
/// only macros are rendered.
pub fn render_text(t: &Text, ctx: &Context, out: &mut Output, depth: u32)
    requires
        old(out).wf(),
    ensures
        final(out).wf(),
        final(out).extends(old(out)),
        final(out).strip_periods == old(out).strip_periods,
        final(out).text@ == old(out).text@ + elem_out(
            ctx,
            Element::Text(*t),
            old(out).strip_periods,
            depth as nat,
        ).0,
        final(out).usage@ == raise_top(
            old(out).usage@,
            elem_out(ctx, Element::Text(*t), old(out).strip_periods, depth as nat).1,
        ),
        !ctx.author_only && t.target is Variable && text_content(ctx, t.target) is Some ==> tagged_last(
            final(out).annots@,
            old(out).text@.len() as int,
            final(out).text@.len() as int,
            ElemMeta::Text,
        ),
        !ctx.author_only && link_for(ctx, t.target) is Some && written(
            text_content(ctx, t.target)->0,
            t.strip_periods,
        ).len() > 0 ==> old(out).annots@.len() < final(out).annots@.len() && link_of(
            final(out).annots@[old(out).annots@.len() as int].kind,
        ) == link_for(ctx, t.target),
        text_vanishes(ctx, *t, depth as nat) ==> final(out).annots@ == old(out).annots@,
        !ctx.author_only && (t.target is Term || t.target is Value) ==> no_meta_from(
            final(out).annots@,
            old(out).annots@.len() as int,
        ),
        !text_vanishes(ctx, *t, depth as nat) && !formatting_is_empty(t.formatting) ==> has_annot(
            final(out).annots@,
            old(out).text@.len() as int,
            final(out).text@.len() as int,
            Annot::Format(t.formatting),
        ),
        !text_vanishes(ctx, *t, depth as nat) && t.text_case is Some && (if t.target is Macro {
            macro_output(ctx, *t, depth as nat)->0
        } else {
            written(text_content(ctx, t.target)->0, t.strip_periods)
        }).len() > 0 ==> has_annot(
            final(out).annots@,
            (old(out).text@.len() + written(t.affixes.prefix@, old(out).strip_periods).len()) as int,
            final(out).text@.len() - written(t.affixes.suffix@, old(out).strip_periods).len(),
            Annot::Case(t.text_case->0),
        ),
        !text_vanishes(ctx, *t, depth as nat) && t.quotes && (if t.target is Macro {
            macro_output(ctx, *t, depth as nat)->0
        } else {
            written(text_content(ctx, t.target)->0, t.strip_periods)
        }).len() > 0 ==> has_annot(
            final(out).annots@,
            (old(out).text@.len() + written(t.affixes.prefix@, old(out).strip_periods).len()) as int,
            final(out).text@.len() - written(t.affixes.suffix@, old(out).strip_periods).len(),
            Annot::Quoted,
        ),
    decreases depth, 2int,
{
    match &t.target {
        TextTarget::Macro(id) => {
            render_text_macro(t, *id, ctx, out, depth);
            return;
        },
        _ => {},
    }
    assert(elem_out(ctx, Element::Text(*t), old(out).strip_periods, depth as nat) == text_leaf_out(
        ctx,
        *t,
        old(out).strip_periods,
    ));
    if ctx.author_only {
        proof {
            lemma_raise_top_none(out.usage@);
        }
        assert(out.text@ =~= old(out).text@ + Seq::<char>::empty());
        return;
    }
    let content = match text_content_chars(t, ctx, out) {
        Some(c) => c,
        None => {
            assert(out.text@ =~= old(out).text@ + Seq::<char>::empty());
            return;
        },
    };
    write_text_content(t, &content, ctx, out);

}

/// Renders a text element that expands a macro, reporting to the enclosing
/// group whether the macro printed anything.
fn render_text_macro(t: &Text, id: u32, ctx: &Context, out: &mut Output, depth: u32)
    requires
        old(out).wf(),
        t.target == TextTarget::Macro(id),
    ensures
        final(out).wf(),
        final(out).extends(old(out)),
        final(out).strip_periods == old(out).strip_periods,
        final(out).text@ == old(out).text@ + elem_out(
            ctx,
            Element::Text(*t),
            old(out).strip_periods,
            depth as nat,
        ).0,
        final(out).usage@ == raise_top(
            old(out).usage@,
            elem_out(ctx, Element::Text(*t), old(out).strip_periods, depth as nat).1,
        ),
        text_vanishes(ctx, *t, depth as nat) ==> final(out).annots@ == old(out).annots@,
        !ctx.author_only && (t.target is Term || t.target is Value) ==> no_meta_from(
            final(out).annots@,
            old(out).annots@.len() as int,
        ),
        !text_vanishes(ctx, *t, depth as nat) && !formatting_is_empty(t.formatting) ==> has_annot(
            final(out).annots@,
            old(out).text@.len() as int,
            final(out).text@.len() as int,
            Annot::Format(t.formatting),
        ),
        !text_vanishes(ctx, *t, depth as nat) && t.text_case is Some && (if t.target is Macro {
            macro_output(ctx, *t, depth as nat)->0
        } else {
            written(text_content(ctx, t.target)->0, t.strip_periods)
        }).len() > 0 ==> has_annot(
            final(out).annots@,
            (old(out).text@.len() + written(t.affixes.prefix@, old(out).strip_periods).len()) as int,
            final(out).text@.len() - written(t.affixes.suffix@, old(out).strip_periods).len(),
            Annot::Case(t.text_case->0),
        ),
        !text_vanishes(ctx, *t, depth as nat) && t.quotes && (if t.target is Macro {
            macro_output(ctx, *t, depth as nat)->0
        } else {
            written(text_content(ctx, t.target)->0, t.strip_periods)
        }).len() > 0 ==> has_annot(
            final(out).annots@,
            (old(out).text@.len() + written(t.affixes.prefix@, old(out).strip_periods).len()) as int,
            final(out).text@.len() - written(t.affixes.suffix@, old(out).strip_periods).len(),
            Annot::Quoted,
        ),
    decreases depth, 1int,
{
    let m = match ctx.get_macro(id) {
        Some(m) => m,
        None => {
            proof {
                lemma_raise_top_none(out.usage@);
            }
            assert(out.text@ =~= old(out).text@ + Seq::<char>::empty());
            return;
        },
    };
    let ghost s0 = *out;
    let saved = out.strip_periods;
    let mark = out.push_elem(t.formatting);
    let loc = out.apply_prefix(&t.affixes);
    let quotes = if t.quotes {
        Some(out.push_quotes())
    } else {
        None
    };
    out.may_strip_periods(t.strip_periods);
    let case = out.push_case(t.text_case);
    let len = out.len();
    let ghost u0 = out.usage@;
    render_with_delimiter(&m.children, None, ctx, out, depth);
    let ghost cu = children_usage(ctx, m.children@, t.strip_periods, depth as nat);
    if len < out.len() {
        out.printed_non_empty_macro();
        proof {
            lemma_raise_top_twice(u0, cu, macro_use());
        }
    }
    let ghost s1 = *out;
    let ghost k1 = out.annots@.len() as int;
    out.close_scope(case);
    out.may_strip_periods(saved);
    let ghost k2 = out.annots@.len() as int;
    match quotes {
        Some(q) => out.close_scope(q),
        None => {},
    }
    let ghost s2 = *out;
    proof {
        lemma_mark_survives(&s0, out, loc.before);
        if t.text_case is Some {
            assert(out.annots@[k1].kind == Annot::Case(t.text_case->0));
        }
        if t.quotes {
            assert(out.annots@[k2].kind == Annot::Quoted);
        }
    }
    out.apply_suffix(&t.affixes, loc);
    proof {
        lemma_mark_survives(&s0, out, mark);
    }
    let ghost a0 = out.annots@;
    out.commit_elem(mark, t.display, None);
    proof {
        if len < s1.text@.len() {
            if t.text_case is Some {
                lemma_has_annot_grows(s2.annots@, a0, len as int, s1.text@.len() as int, Annot::Case(t.text_case->0));
                lemma_has_annot_grows(a0, out.annots@, len as int, s1.text@.len() as int, Annot::Case(t.text_case->0));
            }
            if t.quotes {
                lemma_has_annot_grows(s2.annots@, a0, len as int, s1.text@.len() as int, Annot::Quoted);
                lemma_has_annot_grows(a0, out.annots@, len as int, s1.text@.len() as int, Annot::Quoted);
            }
        }
        if !formatting_is_empty(t.formatting) {
            assert(out.annots@[a0.len() as int].kind == Annot::Format(t.formatting));
        }
    }
}

/// The separator between the ends of a page range: the locale's term, or
/// an en dash.
pub open spec fn page_sep(ctx: &Context) -> Seq<char> {
    match ctx.term_value(Term::PageRangeDelimiter, TermForm::Long, false) {
        Some(t) => t@,
        None => seq!['\u{2013}'],
    }
}

/// What a number element writes for a value, before affixes.
pub open spec fn number_content(ctx: &Context, n: Number, v: NumberValue) -> Seq<char> {
    match v {
        NumberValue::Typed(x) => if n.form == NumberForm::Numeric && n.variable
            == NumberVariable::Page && x.end is Some {
            page_range_text(
                ctx.page_range_format,
                crate::numeral::decimal(x.start as nat),
                crate::numeral::decimal(x.end->0 as nat),
                page_sep(ctx),
            )
        } else {
            number_text(ctx, x, n.form)
        },
        NumberValue::Text(t) => t@,
    }
}

/// `body` between `prefix` and `suffix`, or nothing at all if it is empty.
pub open spec fn affixed(prefix: Seq<char>, body: Seq<char>, suffix: Seq<char>) -> Seq<char> {
    if body.len() == 0 { Seq::empty() } else { prefix + body + suffix }
}

fn number_content_chars(n: &Number, ctx: &Context, v: &NumberValue) -> (r: Vec<char>)
    ensures
        r@ == number_content(ctx, *n, *v),
{
    match v {
        NumberValue::Typed(x) => {
            if n.form == NumberForm::Numeric && n.variable == NumberVariable::Page
                && x.end.is_some() {
                let sep = match ctx.term(Term::PageRangeDelimiter, TermForm::Long, false) {
                    Some(t) => copy_chars(t),
                    None => {
                        let mut d = Vec::new();
                        d.push('\u{2013}');
                        assert(d@ =~= seq!['\u{2013}']);
                        d
                    },
                };
                let a = decimal_chars(x.start as u64);
                let b = decimal_chars(x.end.unwrap() as u64);
                format_page_range(ctx.page_range_format, &a, &b, &sep)
            } else {
                number_chars(ctx, *x, n.form)
            }
        },
        NumberValue::Text(t) => copy_chars(t),
    }
}

/// What a number element writes, and what it records.
pub open spec fn number_out(ctx: &Context, n: Number, s: bool) -> (Seq<char>, UsageInfo) {
    if ctx.author_only {
        (Seq::empty(), no_use())
    } else {
        let u = var_use(ctx.number_value(n.variable) is Some);
        match ctx.number_value(n.variable) {
            Some(NumberValue::Typed(x)) => if ctx.sorting {
                (number_sort_key(x), u)
            } else {
                (
                    affixed(
                        written(n.affixes.prefix@, s),
                        written(number_content(ctx, n, NumberValue::Typed(x)), s),
                        written(n.affixes.suffix@, s),
                    ),
                    u,
                )
            },
            Some(v) => (
                affixed(
                    written(n.affixes.prefix@, s),
                    written(number_content(ctx, n, v), s),
                    written(n.affixes.suffix@, s),
                ),
                u,
            ),
            None => (Seq::empty(), u),
        }
    }
}

/// Renders a number element. In a sort pass a parsed number is written as
/// its sort key alone; otherwise a page range is compacted by the style's
/// page-range format, with the locale's page-range delimiter or an en dash
/// between its ends.
pub fn render_number(n: &Number, ctx: &Context, out: &mut Output)
    requires
        old(out).wf(),
    ensures
        final(out).wf(),
        final(out).extends(old(out)),
        final(out).strip_periods == old(out).strip_periods,
        final(out).text@ == old(out).text@ + number_out(ctx, *n, old(out).strip_periods).0,
        final(out).usage@ == raise_top(old(out).usage@, number_out(ctx, *n, old(out).strip_periods).1),
        ctx.author_only || (ctx.sorting && ctx.number_value(n.variable) is Some && ctx.number_value(
            n.variable,
        )->0 is Typed) ==> final(out).annots@ == old(out).annots@,
        !ctx.author_only && !(ctx.sorting && ctx.number_value(n.variable) is Some
            && ctx.number_value(n.variable)->0 is Typed) ==> tagged_last(
            final(out).annots@,
            old(out).text@.len() as int,
            final(out).text@.len() as int,
            if n.variable == NumberVariable::CitationNumber {
                ElemMeta::CitationNumber
            } else {
                ElemMeta::Number
            },
        ),
        !ctx.author_only && !(ctx.sorting && ctx.number_value(n.variable) is Some
            && ctx.number_value(n.variable)->0 is Typed) && !formatting_is_empty(n.formatting)
            ==> has_annot(
            final(out).annots@,
            old(out).text@.len() as int,
            final(out).text@.len() as int,
            Annot::Format(n.formatting),
        ),
        !ctx.author_only && !(ctx.sorting && ctx.number_value(n.variable) is Some
            && ctx.number_value(n.variable)->0 is Typed) && n.text_case is Some
            && final(out).text@.len() > old(out).text@.len() ==> has_annot(
            final(out).annots@,
            (old(out).text@.len() + written(n.affixes.prefix@, old(out).strip_periods).len()) as int,
            final(out).text@.len() - written(n.affixes.suffix@, old(out).strip_periods).len(),
            Annot::Case(n.text_case->0),
        ),
{
    if ctx.author_only {
        proof {
            lemma_raise_top_none(out.usage@);
        }
        assert(out.text@ =~= old(out).text@ + Seq::<char>::empty());
        return;
    }
    let value = ctx.number(n.variable);
    out.record_variable(value.is_some());
    if ctx.sorting {
        match value {
            Some(NumberValue::Typed(x)) => {
                let key = number_sort_chars(*x);
                let saved = out.strip_periods;
                out.stop_stripping_periods();
                out.push_str(&key);
                out.may_strip_periods(saved);
                return;
            },
            _ => {},
        }
    }
    let empty: Vec<char> = Vec::new();
    let content = match value {
        Some(v) => number_content_chars(n, ctx, v),
        None => empty,
    };
    let ghost s0 = *out;
    let mark = out.push_elem(n.formatting);
    let loc = out.apply_prefix(&n.affixes);
    let case = out.push_case(n.text_case);
    out.push_str(&content);
    let ghost s1 = *out;
    let ghost k1 = out.annots@.len() as int;
    out.close_scope(case);
    let ghost s2 = *out;
    proof {
        if n.text_case is Some {
            assert(out.annots@[k1].kind == Annot::Case(n.text_case->0));
        }
    }
    proof {
        lemma_mark_survives(&s0, out, loc.before);
    }
    out.apply_suffix(&n.affixes, loc);
    proof {
        lemma_mark_survives(&s0, out, mark);
    }
    let meta = if n.variable == NumberVariable::CitationNumber {
        ElemMeta::CitationNumber
    } else {
        ElemMeta::Number
    };
    let ghost a0 = out.annots@;
    let ghost end = out.text@.len();
    out.commit_elem(mark, n.display, Some(meta));
    proof {
        lemma_commit_tag_last(a0, mark.text_len, end as usize, mark.formatting, n.display, meta);
        if n.text_case is Some && end > s0.text@.len() {
            lemma_has_annot_grows(s2.annots@, a0, loc.after as int, s1.text@.len() as int, Annot::Case(n.text_case->0));
            lemma_has_annot_grows(a0, out.annots@, loc.after as int, s1.text@.len() as int, Annot::Case(n.text_case->0));
        }
        if !formatting_is_empty(n.formatting) {
            assert(out.annots@[a0.len() as int].kind == Annot::Format(n.formatting));
        }
    }
}

/// Whether a label's term is plural for the variable's value.
pub open spec fn label_plural(l: Label, value: NumberValue) -> bool {
    match l.plural {
        LabelPluralize::Always => true,
        LabelPluralize::Never => false,
        LabelPluralize::Contextual => match value {
            NumberValue::Text(_) => false,
            NumberValue::Typed(x) => numeric_is_plural(x, is_number_of(l.variable)),
        },
    }
}

/// The term that labels a number variable with value `v`, or nothing.
pub open spec fn label_term(ctx: &Context, l: Label, v: NumberValue) -> Seq<char> {
    match ctx.term_value(Term::Number(l.variable), l.form, label_plural(l, v)) {
        Some(t) => t@,
        None => Seq::empty(),
    }
}

/// What a label writes, and what it records.
pub open spec fn label_out(ctx: &Context, l: Label, s: bool) -> (Seq<char>, UsageInfo) {
    if ctx.author_only {
        (Seq::empty(), no_use())
    } else {
        match ctx.number_value(l.variable) {
            None => (Seq::empty(), var_use(false)),
            Some(v) => (
                affixed(
                    written(l.affixes.prefix@, s),
                    written(label_term(ctx, l, v), l.strip_periods),
                    written(l.affixes.suffix@, s),
                ),
                var_use(true),
            ),
        }
    }
}

/// Renders the term that labels a number variable, in the plural form where
/// the value asks for it. A missing or empty term writes nothing at all.
pub fn render_label(l: &Label, ctx: &Context, out: &mut Output)
    requires
        old(out).wf(),
    ensures
        final(out).wf(),
        final(out).extends(old(out)),
        final(out).strip_periods == old(out).strip_periods,
        final(out).text@ == old(out).text@ + label_out(ctx, *l, old(out).strip_periods).0,
        final(out).usage@ == raise_top(old(out).usage@, label_out(ctx, *l, old(out).strip_periods).1),
        ctx.author_only || ctx.number_value(l.variable) is None ==> final(out).annots@
            == old(out).annots@,
        !ctx.author_only && ctx.number_value(l.variable) is Some ==> tagged_last(
            final(out).annots@,
            old(out).text@.len() as int,
            final(out).text@.len() as int,
            ElemMeta::Label,
        ),
        !ctx.author_only && ctx.number_value(l.variable) is Some && label_term(
            ctx,
            *l,
            ctx.number_value(l.variable)->0,
        ).len() == 0 ==> final(out).annots@ == old(out).annots@.push(
            Annotation {
                start: old(out).text@.len() as usize,
                end: old(out).text@.len() as usize,
                kind: Annot::Meta(ElemMeta::Label),
            },
        ),
        !ctx.author_only && ctx.number_value(l.variable) is Some && l.text_case is Some && written(
            label_term(ctx, *l, ctx.number_value(l.variable)->0),
            l.strip_periods,
        ).len() > 0 ==> has_annot(
            final(out).annots@,
            (old(out).text@.len() + written(l.affixes.prefix@, old(out).strip_periods).len()) as int,
            final(out).text@.len() - written(l.affixes.suffix@, old(out).strip_periods).len(),
            Annot::Case(l.text_case->0),
        ),
        !ctx.author_only && ctx.number_value(l.variable) is Some && !formatting_is_empty(
            l.formatting,
        ) && written(label_term(ctx, *l, ctx.number_value(l.variable)->0), l.strip_periods).len()
            > 0 ==> has_annot(
            final(out).annots@,
            old(out).text@.len() as int,
            final(out).text@.len() as int,
            Annot::Format(l.formatting),
        ),
{
    if ctx.author_only {
        proof {
            lemma_raise_top_none(out.usage@);
        }
        assert(out.text@ =~= old(out).text@ + Seq::<char>::empty());
        return;
    }
    let value = ctx.number(l.variable);
    out.record_variable(value.is_some());
    let value = match value {
        Some(v) => v,
        None => {
            assert(out.text@ =~= old(out).text@ + Seq::<char>::empty());
            return;
        },
    };
    let ghost s0 = *out;
    let mark = out.push_elem(Formatting::plain());
    let plural = match l.plural {
        LabelPluralize::Always => true,
        LabelPluralize::Never => false,
        LabelPluralize::Contextual => match value {
            NumberValue::Text(_) => false,
            NumberValue::Typed(x) => x.is_plural(l.variable.is_number_of_variable()),
        },
    };
    let empty: Vec<char> = Vec::new();
    let content = match ctx.term(Term::Number(l.variable), l.form, plural) {
        Some(t) => t,
        None => &empty,
    };
    assert(content@ == label_term(ctx, *l, *value));
    render_label_with_var(l, content, out);
    proof {
        lemma_mark_survives(&s0, out, mark);
    }
    let ghost a0 = out.annots@;
    let ghost end = out.text@.len();
    out.commit_elem(mark, None, Some(ElemMeta::Label));
    proof {
        lemma_commit_tag_last(a0, mark.text_len, end as usize, mark.formatting, None, ElemMeta::Label);
        let tw = written(content@, l.strip_periods);
        if tw.len() > 0 {
            if l.text_case is Some {
                lemma_has_annot_grows(
                    a0,
                    out.annots@,
                    (s0.text@.len() + written(l.affixes.prefix@, s0.strip_periods).len()) as int,
                    end as int - written(l.affixes.suffix@, s0.strip_periods).len(),
                    Annot::Case(l.text_case->0),
                );
            }
            if !formatting_is_empty(l.formatting) {
                lemma_has_annot_grows(a0, out.annots@, s0.text@.len() as int, end as int, Annot::Format(l.formatting));
            }
        }
        if content@.len() == 0 {
            assert(out.annots@ =~= old(out).annots@.push(
                Annotation {
                    start: old(out).text@.len() as usize,
                    end: old(out).text@.len() as usize,
                    kind: Annot::Meta(ElemMeta::Label),
                },
            ));
        }
    }
}

/// Writes a label's term inside its formatting, affixes and case; an empty
/// term writes nothing.
fn render_label_with_var(l: &Label, content: &Vec<char>, out: &mut Output)
    requires
        old(out).wf(),
    ensures
        final(out).wf(),
        final(out).extends(old(out)),
        final(out).strip_periods == old(out).strip_periods,
        final(out).usage@ == old(out).usage@,
        final(out).text@ == old(out).text@ + affixed(
            written(l.affixes.prefix@, old(out).strip_periods),
            written(content@, l.strip_periods),
            written(l.affixes.suffix@, old(out).strip_periods),
        ),
        content@.len() == 0 ==> final(out).annots@ == old(out).annots@,
        l.text_case is Some && written(content@, l.strip_periods).len() > 0 ==> has_annot(
            final(out).annots@,
            (old(out).text@.len() + written(l.affixes.prefix@, old(out).strip_periods).len()) as int,
            final(out).text@.len() - written(l.affixes.suffix@, old(out).strip_periods).len(),
            Annot::Case(l.text_case->0),
        ),
        !formatting_is_empty(l.formatting) && written(content@, l.strip_periods).len() > 0
            ==> has_annot(
            final(out).annots@,
            old(out).text@.len() as int,
            final(out).text@.len() as int,
            Annot::Format(l.formatting),
        ),
{
    if content.len() == 0 {
        assert(written(content@, l.strip_periods) =~= Seq::empty());
        assert(out.text@ =~= old(out).text@ + Seq::empty());
        return;
    }
    let ghost s0 = *out;
    let saved = out.strip_periods;
    let fmt = out.push_format(l.formatting);
    let loc = out.apply_prefix(&l.affixes);
    out.may_strip_periods(l.strip_periods);
    let case = out.push_case(l.text_case);
    out.push_str(content);
    let ghost k1 = out.annots@.len() as int;
    let ghost case_end = out.text@.len() as int;
    out.close_scope(case);
    out.may_strip_periods(saved);
    proof {
        lemma_mark_survives(&s0, out, loc.before);
    }
    out.apply_suffix(&l.affixes, loc);
    let ghost k2 = out.annots@.len() as int;
    out.close_scope(fmt);
    proof {
        if l.text_case is Some && written(content@, l.strip_periods).len() > 0 {
            assert(out.annots@[k1].start as int == case.start && out.annots@[k1].end as int
                == case_end);
        }
        if !formatting_is_empty(l.formatting) && written(content@, l.strip_periods).len() > 0 {
            assert(out.annots@[k2].kind == Annot::Format(l.formatting));
        }
    }
}

/// Whether the shown-parts setting leaves a part out.
pub open spec fn part_skipped(name: DatePartName, shown: DateParts) -> bool {
    (name == DatePartName::Month && shown is Year) || (name == DatePartName::Day
        && !(shown is YearMonthDay))
}

/// The first part of the given name.
pub open spec fn first_named(parts: Seq<DatePart>, name: DatePartName) -> Option<DatePart>
    decreases parts.len(),
{
    if parts.len() == 0 {
        None
    } else if part_name(parts[0].form) == name {
        Some(parts[0])
    } else {
        first_named(parts.drop_first(), name)
    }
}

/// What one part of a date element writes, affixes and year suffix
/// included, with period stripping `s` around it; a localized form takes
/// overrides from the element's own parts.
pub open spec fn date_part_piece(
    ctx: &Context,
    d: Date,
    localized: bool,
    shown: DateParts,
    p: DatePart,
    date: DateValue,
    s: bool,
) -> Seq<char> {
    if part_skipped(part_name(p.form), shown) {
        Seq::empty()
    } else {
        let over = if localized { first_named(d.date_part@, part_name(p.form)) } else { None };
        let form = match over {
            Some(o) => o.form,
            None => p.form,
        };
        part_text_out(ctx, p, form, date, s)
    }
}

/// What each of the parts writes.
pub open spec fn date_pieces(
    ctx: &Context,
    d: Date,
    src: Seq<DatePart>,
    localized: bool,
    shown: DateParts,
    date: DateValue,
    s: bool,
) -> Seq<Seq<char>> {
    Seq::new(src.len(), |i: int| date_part_piece(ctx, d, localized, shown, src[i], date, s))
}

/// What a date part written in `form` writes, affixes and year suffix
/// included, with period stripping `s` around it.
pub open spec fn part_text_out(ctx: &Context, p: DatePart, form: DatePartForm, date: DateValue, s: bool) -> Seq<char> {
    let ms = month_strip(p, s);
    match part_value(part_name(p.form), date) {
        Some(v) => affixed(
            written(p.affixes.prefix@, s),
            written(date_part_content(ctx, form, v, date), ms) + if form is Year {
                written(year_suffix_text(ctx), ms)
            } else {
                Seq::empty()
            },
            written(p.affixes.suffix@, ms),
        ),
        None => Seq::empty(),
    }
}

/// A date's sort key: the parts the mask selects, the year followed by the
/// year suffix.
pub open spec fn date_sort_text(ctx: &Context, mask: (bool, bool, bool), d: DateValue) -> Seq<char> {
    (if mask.0 { sort_year(d.year as int) + year_suffix_text(ctx) } else { Seq::empty() }) + (
    if mask.1 {
        sort_two(d.month)
    } else {
        Seq::empty()
    }) + (if mask.2 { sort_two(d.day) } else { Seq::empty() })
}

/// A date in its own parts or in the localized form `base`, inside the
/// element's affixes.
pub open spec fn date_form_text(ctx: &Context, d: Date, base: Option<Date>, v: DateValue, s: bool) -> Seq<char> {
    affixed(
        written(d.affixes.prefix@, s),
        join_nonempty(
            date_pieces(
                ctx,
                d,
                match base {
                    Some(b) => b.date_part@,
                    None => d.date_part@,
                },
                base is Some,
                shown_parts(d, base),
                v,
                s,
            ),
            written(delim_of(d.delimiter), s),
        ),
        written(d.affixes.suffix@, s),
    )
}

/// A date element's formatting: its own merged over its localized form's.
pub open spec fn date_formatting(d: Date, base: Option<Date>) -> Formatting {
    match base {
        Some(b) => crate::style::formatting_applied(d.formatting, b.formatting),
        None => d.formatting,
    }
}

/// A date element's case: its own, else its localized form's.
pub open spec fn date_case(d: Date, base: Option<Date>) -> Option<crate::style::TextCase> {
    match d.text_case {
        Some(c) => Some(c),
        None => match base {
            Some(b) => b.text_case,
            None => None,
        },
    }
}

/// The localized form a date element names, if any.
pub open spec fn date_base(ctx: &Context, d: Date) -> Option<Date> {
    match d.form {
        Some(f) => ctx.localized_date(f),
        None => None,
    }
}

/// What a date element writes, and what it records.
pub open spec fn date_out(ctx: &Context, d: Date, s: bool) -> (Seq<char>, UsageInfo) {
    if ctx.author_only || d.variable is None {
        (Seq::empty(), no_use())
    } else {
        match ctx.date_value(d.variable->0) {
            None => (Seq::empty(), var_use(false)),
            Some(v) => (
                if ctx.sorting {
                    date_sort_text(ctx, sort_mask(d), v)
                } else {
                    match d.form {
                        None => date_form_text(ctx, d, None, v, s),
                        Some(f) => match ctx.localized_date(f) {
                            Some(b) => date_form_text(ctx, d, Some(b), v, s),
                            None => Seq::empty(),
                        },
                    }
                },
                var_use(true),
            ),
        }
    }
}

/// Which parts a date element shows: its own setting, else its localized
/// form's, else all.
pub open spec fn shown_parts(d: Date, base: Option<Date>) -> DateParts {
    match d.parts {
        Some(p) => p,
        None => match base {
            Some(b) => match b.parts {
                Some(p) => p,
                None => DateParts::YearMonthDay,
            },
            None => DateParts::YearMonthDay,
        },
    }
}

/// Writes the parts of a date that `shown` selects, joined by the element's
/// delimiter; a part that wrote nothing leaves no delimiter behind.
fn render_date_parts(
    d: &Date,
    src: &Vec<DatePart>,
    localized: bool,
    shown: DateParts,
    date: &DateValue,
    ctx: &Context,
    out: &mut Output,
)
    requires
        old(out).wf(),
        usage_settled(old(out).usage@),
    ensures
        final(out).wf(),
        final(out).extends(old(out)),
        final(out).strip_periods == old(out).strip_periods,
        final(out).usage@ == old(out).usage@,
        final(out).text@ == old(out).text@ + join_nonempty(
            date_pieces(ctx, *d, src@, localized, shown, *date, old(out).strip_periods),
            written(delim_of(d.delimiter), old(out).strip_periods),
        ),
{
    let ghost st = old(out).strip_periods;
    let ghost dl = written(delim_of(d.delimiter), st);
    let mut any = false;
    let mut i: usize = 0;
    assert(out.text@ =~= old(out).text@ + join_nonempty(
        date_pieces(ctx, *d, src@.subrange(0, 0), localized, shown, *date, st),
        dl,
    ));
    while i < src.len()
        invariant
            out.wf(),
            out.extends(old(out)),
            i <= src@.len(),
            out.strip_periods == st,
            st == old(out).strip_periods,
            out.usage@ == old(out).usage@,
            usage_settled(old(out).usage@),
            dl == written(delim_of(d.delimiter), st),
            out.text@ == old(out).text@ + join_nonempty(
                date_pieces(ctx, *d, src@.subrange(0, i as int), localized, shown, *date, st),
                dl,
            ),
            any == (join_nonempty(
                date_pieces(ctx, *d, src@.subrange(0, i as int), localized, shown, *date, st),
                dl,
            ).len() > 0),
        decreases src@.len() - i,
    {
        let ghost prev = date_pieces(ctx, *d, src@.subrange(0, i as int), localized, shown, *date, st);
        let ghost next = date_pieces(ctx, *d, src@.subrange(0, i + 1), localized, shown, *date, st);
        proof {
            assert(next.drop_last() =~= prev);
        }
        let part = &src[i];
        let name = part.name();
        let skip = match name {
            DatePartName::Month => match shown {
                DateParts::Year => true,
                _ => false,
            },
            DatePartName::Day => match shown {
                DateParts::YearMonthDay => false,
                _ => true,
            },
            DatePartName::Year => false,
        };
        if !skip {
            let ghost start = *out;
            let dmark = out.push_elem(Formatting::plain());
            if any {
                match &d.delimiter {
                    Some(t) => out.push_str(t),
                    None => {
                        assert(out.text@ =~= start.text@ + written(Seq::<char>::empty(), st));
                    },
                }
            }
            let ghost after_delim = *out;
            let pmark = out.push_elem(Formatting::plain());
            let over = if localized {
                find_part(&d.date_part, name)
            } else {
                None
            };
            render_date_part(part, date, ctx, out, over);
            proof {
                lemma_mark_survives(&start, out, dmark);
                lemma_mark_survives(&after_delim, out, pmark);
                assert(out.text@ =~= after_delim.text@ + next.last());
            }
            if out.is_empty_since(pmark) {
                out.discard_elem(pmark);
                out.discard_elem(dmark);
                assert(out.text@ =~= old(out).text@ + join_nonempty(next, dl));
            } else {
                out.commit_elem(pmark, None, None);
                out.commit_elem(dmark, None, None);
                any = true;
                assert(out.text@ =~= old(out).text@ + join_nonempty(next, dl));
            }
        } else {
            assert(next.last() =~= Seq::<char>::empty());
        }
        i = i + 1;
    }
    assert(src@.subrange(0, src@.len() as int) =~= src@);
}

/// Renders a date element. A sort pass writes the zero-padded digits of the
/// parts the element selects; otherwise the parts of the element or of its
/// localized form are written, joined by the delimiter with the same
/// discipline as `render_with_delimiter`.
pub fn render_date(d: &Date, ctx: &Context, out: &mut Output)
    requires
        old(out).wf(),
    ensures
        final(out).wf(),
        final(out).extends(old(out)),
        final(out).strip_periods == old(out).strip_periods,
        final(out).text@ == old(out).text@ + date_out(ctx, *d, old(out).strip_periods).0,
        final(out).usage@ == raise_top(old(out).usage@, date_out(ctx, *d, old(out).strip_periods).1),
        ctx.sorting || ctx.author_only || d.variable is None ==> final(out).annots@
            == old(out).annots@,
        !ctx.author_only && !ctx.sorting && d.variable is Some && ctx.date_value(d.variable->0) is Some
            && (d.form is None || ctx.localized_date(d.form->0) is Some) ==> tagged_last(
            final(out).annots@,
            old(out).text@.len() as int,
            final(out).text@.len() as int,
            ElemMeta::Date,
        ),
        !ctx.author_only && !ctx.sorting && d.variable is Some && ctx.date_value(d.variable->0) is Some
            && (d.form is None || ctx.localized_date(d.form->0) is Some) && !formatting_is_empty(
            date_formatting(*d, date_base(ctx, *d)),
        ) ==> has_annot(
            final(out).annots@,
            old(out).text@.len() as int,
            final(out).text@.len() as int,
            Annot::Format(date_formatting(*d, date_base(ctx, *d))),
        ),
        !ctx.author_only && !ctx.sorting && d.variable is Some && date_case(*d, date_base(ctx, *d))
            is Some && final(out).text@.len() > old(out).text@.len() ==> has_annot(
            final(out).annots@,
            (old(out).text@.len() + written(d.affixes.prefix@, old(out).strip_periods).len()) as int,
            final(out).text@.len() - written(d.affixes.suffix@, old(out).strip_periods).len(),
            Annot::Case(date_case(*d, date_base(ctx, *d))->0),
        ),
{
    if ctx.author_only {
        proof {
            lemma_raise_top_none(out.usage@);
        }
        assert(out.text@ =~= old(out).text@ + Seq::<char>::empty());
        return;
    }
    let var = match d.variable {
        Some(v) => v,
        None => {
            proof {
                lemma_raise_top_none(out.usage@);
            }
            assert(out.text@ =~= old(out).text@ + Seq::<char>::empty());
            return;
        },
    };
    let date = ctx.date(var);
    out.record_variable(date.is_some());
    let date = match date {
        Some(x) => x,
        None => {
            return;
        },
    };
    assert(usage_settled(out.usage@));
    if ctx.sorting {
        render_date_sort_key(d, &date, ctx, out);
        return;
    }
    let base: Option<&Date> = match d.form {
        Some(f) => match ctx.localized(f) {
            Some(b) => Some(b),
            None => {
                assert(out.text@ =~= old(out).text@ + Seq::<char>::empty());
                return;
            },
        },
        None => None,
    };
    render_date_in_form(d, base, &date, ctx, out);
}


/// Writes a date's sort key: the zero-padded digits of the parts the
/// element selects, with no delimiters.
fn render_date_sort_key(d: &Date, date: &DateValue, ctx: &Context, out: &mut Output)
    requires
        old(out).wf(),
        usage_settled(old(out).usage@),
    ensures
        final(out).wf(),
        final(out).extends(old(out)),
        final(out).strip_periods == old(out).strip_periods,
        final(out).usage@ == old(out).usage@,
        final(out).text@ == old(out).text@ + date_sort_text(ctx, sort_mask(*d), *date),
        final(out).annots@ == old(out).annots@,
{
    let (year, month, day) = if d.form.is_some() {
        match d.parts {
            Some(DateParts::Year) => (true, false, false),
            Some(DateParts::YearMonth) => (true, true, false),
            _ => (true, true, true),
        }
    } else {
        (
            has_part(&d.date_part, DatePartName::Year),
            has_part(&d.date_part, DatePartName::Month),
            has_part(&d.date_part, DatePartName::Day),
        )
    };
    let saved = out.strip_periods;
    out.stop_stripping_periods();
    let ghost t0 = out.text@;
    if year {
        let y = sort_year_chars(date.year);
        out.push_str(&y);
        proof {
            lemma_settled_absorbs(out.usage@, ctx.standard_value(StandardVariable::YearSuffix) is Some);
        }
        render_year_suffix_implicitly(ctx, out);
    }
    if month {
        let m = sort_two_chars(date.month);
        out.push_str(&m);
    }
    if day {
        let dd = sort_two_chars(date.day);
        out.push_str(&dd);
    }
    assert(out.text@ =~= t0 + date_sort_text(ctx, sort_mask(*d), *date));
    out.may_strip_periods(saved);
}

/// Writes a date in its own parts or in a localized form, inside the
/// element's affixes, case and formatting.
#[verifier::rlimit(50)]
fn render_date_in_form(
    d: &Date,
    base: Option<&Date>,
    date: &DateValue,
    ctx: &Context,
    out: &mut Output,
)
    requires
        old(out).wf(),
        usage_settled(old(out).usage@),
    ensures
        final(out).wf(),
        final(out).extends(old(out)),
        final(out).strip_periods == old(out).strip_periods,
        final(out).usage@ == old(out).usage@,
        final(out).text@ == old(out).text@ + date_form_text(
            ctx,
            *d,
            match base {
                Some(b) => Some(*b),
                None => None,
            },
            *date,
            old(out).strip_periods,
        ),
        tagged_last(
            final(out).annots@,
            old(out).text@.len() as int,
            final(out).text@.len() as int,
            ElemMeta::Date,
        ),
        !formatting_is_empty(
            date_formatting(
                *d,
                match base {
                    Some(b) => Some(*b),
                    None => None,
                },
            ),
        ) ==> has_annot(
            final(out).annots@,
            old(out).text@.len() as int,
            final(out).text@.len() as int,
            Annot::Format(
                date_formatting(
                    *d,
                    match base {
                        Some(b) => Some(*b),
                        None => None,
                    },
                ),
            ),
        ),
        date_case(
            *d,
            match base {
                Some(b) => Some(*b),
                None => None,
            },
        ) is Some && final(out).text@.len() > old(out).text@.len() ==> has_annot(
            final(out).annots@,
            (old(out).text@.len() + written(d.affixes.prefix@, old(out).strip_periods).len()) as int,
            final(out).text@.len() - written(d.affixes.suffix@, old(out).strip_periods).len(),
            Annot::Case(
                date_case(
                    *d,
                    match base {
                        Some(b) => Some(*b),
                        None => None,
                    },
                )->0,
            ),
        ),
{
    let formatting = match base {
        Some(b) => d.formatting.apply(b.formatting),
        None => d.formatting,
    };
    let ghost s0 = *out;
    let mark = out.push_elem(formatting);
    let loc = out.apply_prefix(&d.affixes);
    let text_case = match d.text_case {
        Some(c) => Some(c),
        None => match base {
            Some(b) => b.text_case,
            None => None,
        },
    };
    let case = out.push_case(text_case);
    let ghost s_in = *out;
    let parts = match d.parts {
        Some(p) => p,
        None => match base {
            Some(b) => match b.parts {
                Some(p) => p,
                None => DateParts::YearMonthDay,
            },
            None => DateParts::YearMonthDay,
        },
    };
    let src: &Date = match base {
        Some(b) => b,
        None => d,
    };
    render_date_parts(d, &src.date_part, base.is_some(), parts, date, ctx, out);
    let ghost s1 = *out;
    let ghost k1 = out.annots@.len() as int;
    out.close_scope(case);
    let ghost s2 = *out;
    proof {
        lemma_mark_survives(&s0, out, loc.before);
        if text_case is Some {
            assert(out.annots@[k1].kind == Annot::Case(text_case->0));
        }
    }
    out.apply_suffix(&d.affixes, loc);
    proof {
        lemma_mark_survives(&s0, out, mark);
    }
    let ghost a0 = out.annots@;
    let ghost end = out.text@.len();
    out.commit_elem(mark, d.display, Some(ElemMeta::Date));
    proof {
        lemma_commit_tag_last(a0, mark.text_len, end as usize, mark.formatting, d.display, ElemMeta::Date);
        if text_case is Some && end > s0.text@.len() {
            lemma_has_annot_grows(s2.annots@, a0, loc.after as int, s1.text@.len() as int, Annot::Case(text_case->0));
            lemma_has_annot_grows(a0, out.annots@, loc.after as int, s1.text@.len() as int, Annot::Case(text_case->0));
        }
        if !formatting_is_empty(formatting) {
            assert(out.annots@[a0.len() as int].kind == Annot::Format(formatting));
        }
    }
}

/// The first part of the given name.
fn find_part(parts: &Vec<DatePart>, name: DatePartName) -> (r: Option<&DatePart>)
    ensures
        match r {
            Some(p) => first_named(parts@, name) == Some(*p),
            None => first_named(parts@, name) is None,
        },
{
    let mut i: usize = 0;
    assert(parts@.subrange(0, parts@.len() as int) =~= parts@);
    while i < parts.len()
        invariant
            i <= parts@.len(),
            first_named(parts@, name) == first_named(parts@.subrange(i as int, parts@.len() as int), name),
        decreases parts@.len() - i,
    {
        assert(parts@.subrange(i as int, parts@.len() as int).drop_first() =~= parts@.subrange(
            i + 1,
            parts@.len() as int,
        ));
        if parts[i].name() == name {
            return Some(&parts[i]);
        }
        i = i + 1;
    }
    assert(parts@.subrange(i as int, parts@.len() as int) =~= Seq::empty());
    None
}

/// The one-indexed value of a date part, if the date has it.
pub open spec fn part_value(name: DatePartName, d: DateValue) -> Option<int> {
    match name {
        DatePartName::Day => match d.day {
            Some(x) => Some(x as int + 1),
            None => None,
        },
        DatePartName::Month => match d.month {
            Some(x) => Some(x as int + 1),
            None => None,
        },
        DatePartName::Year => Some(d.year as int),
    }
}

/// The form a part is written in: the override's where there is one.
pub open spec fn effective_form(part: DatePart, over: Option<&DatePart>) -> DatePartForm {
    match over {
        Some(o) => o.form,
        None => part.form,
    }
}

/// Whether a part's text drops full stops: months follow their own setting,
/// other parts the surrounding one.
pub open spec fn month_strip(part: DatePart, outer: bool) -> bool {
    if part_name(part.form) == DatePartName::Month { part.strip_periods } else { outer }
}

/// The localized name of the date's month, for a month in long or short form.
pub open spec fn month_name_of(ctx: &Context, form: DatePartForm, d: DateValue) -> Option<Seq<char>> {
    match (form, d.month) {
        (DatePartForm::Month(MonthForm::Long), Some(m)) => match ctx.term_value(
            Term::Month(m),
            TermForm::Long,
            false,
        ) {
            Some(t) => Some(t@),
            None => None,
        },
        (DatePartForm::Month(MonthForm::Short), Some(m)) => match ctx.term_value(
            Term::Month(m),
            TermForm::Short,
            false,
        ) {
            Some(t) => Some(t@),
            None => None,
        },
        _ => None,
    }
}

/// What a date part writes for value `v`, before affixes.
pub open spec fn date_part_content(ctx: &Context, form: DatePartForm, v: int, d: DateValue) -> Seq<
    char,
> {
    part_text(
        form,
        v,
        month_name_of(ctx, form, d),
        if v > 0 { ordinal_suffix(ctx, v as nat) } else { Seq::empty() },
        ctx.locale.limit_day_ordinals_to_day_1,
    )
}

/// What a date part writes for value `val`; see `date_part_content`.
fn date_part_chars(ctx: &Context, form: DatePartForm, val: i32, date: &DateValue) -> (r: Vec<char>)
    ensures
        r@ == date_part_content(ctx, form, val as int, *date),
{
    let month_name = match (form, date.month) {
        (DatePartForm::Month(MonthForm::Long), Some(m)) => ctx.term(Term::Month(m), TermForm::Long, false),
        (DatePartForm::Month(MonthForm::Short), Some(m)) => ctx.term(Term::Month(m), TermForm::Short, false),
        _ => None,
    };
    let ordinal = if val > 0 {
        ordinal_suffix_chars(ctx, val as u64)
    } else {
        Vec::new()
    };
    assert(val <= 0 ==> ordinal@ =~= Seq::empty());
    part_chars(form, val, month_name, &ordinal, ctx.locale.limit_day_ordinals_to_day_1)
}

/// Writes a date part's text, and the year suffix after a year.
fn write_part_body(form: DatePartForm, text: &Vec<char>, ctx: &Context, out: &mut Output)
    requires
        old(out).wf(),
        usage_settled(old(out).usage@),
    ensures
        final(out).wf(),
        final(out).extends(old(out)),
        final(out).strip_periods == old(out).strip_periods,
        final(out).usage@ == old(out).usage@,
        final(out).text@ == old(out).text@ + (written(text@, old(out).strip_periods) + if form is Year {
            written(year_suffix_text(ctx), old(out).strip_periods)
        } else {
            Seq::<char>::empty()
        }),
{
    let ghost before_text = out.text@;
    out.push_str(text);
    match form {
        DatePartForm::Year(_) => {
            proof {
                lemma_settled_absorbs(out.usage@, ctx.standard_value(StandardVariable::YearSuffix) is Some);
            }
            render_year_suffix_implicitly(ctx, out);
        },
        _ => {},
    }
    assert(out.text@ =~= before_text + (written(text@, old(out).strip_periods) + if form is Year {
        written(year_suffix_text(ctx), old(out).strip_periods)
    } else {
        Seq::<char>::empty()
    }));
}

/// Writes a date part's text inside its formatting, affixes and case.
fn write_affixed_part(
    part: &DatePart,
    formatting: Formatting,
    text_case: Option<crate::style::TextCase>,
    form: DatePartForm,
    text: &Vec<char>,
    ctx: &Context,
    out: &mut Output,
)
    requires
        old(out).wf(),
        usage_settled(old(out).usage@),
    ensures
        final(out).strip_periods == old(out).strip_periods,
        final(out).usage@ == old(out).usage@,
        final(out).wf(),
        final(out).extends(old(out)),
        final(out).text@ == old(out).text@ + affixed(
            written(part.affixes.prefix@, old(out).strip_periods),
            written(text@, month_strip(*part, old(out).strip_periods)) + if form is Year {
                written(year_suffix_text(ctx), month_strip(*part, old(out).strip_periods))
            } else {
                Seq::empty()
            },
            written(part.affixes.suffix@, month_strip(*part, old(out).strip_periods)),
        ),
{
    let ghost s0 = *out;
    let saved = out.strip_periods;
    let fmt = out.push_format(formatting);
    let loc = out.apply_prefix(&part.affixes);
    if part.name() == DatePartName::Month {
        out.may_strip_periods(part.strip_periods);
    }
    let case = out.push_case(text_case);
    write_part_body(form, text, ctx, out);
    proof {
        lemma_mark_survives(&s0, out, loc.before);
    }
    out.apply_suffix(&part.affixes, loc);
    out.may_strip_periods(saved);
    out.close_scope(case);
    out.close_scope(fmt);
}

/// Renders one date part. Where a localized form is used, a part of the
/// same name on the element overrides its formatting, case and form.
fn render_date_part(
    part: &DatePart,
    date: &DateValue,
    ctx: &Context,
    out: &mut Output,
    over: Option<&DatePart>,
)
    requires
        old(out).wf(),
        usage_settled(old(out).usage@),
    ensures
        final(out).strip_periods == old(out).strip_periods,
        final(out).usage@ == old(out).usage@,
        final(out).wf(),
        final(out).extends(old(out)),
        final(out).text@ == old(out).text@ + part_text_out(
            ctx,
            *part,
            effective_form(*part, over),
            *date,
            old(out).strip_periods,
        ),
        part_value(part_name(part.form), *date) is None ==> final(out).annots@ == old(out).annots@,
{
    let val: i32 = match part.name() {
        DatePartName::Day => match date.day {
            Some(x) => x as i32 + 1,
            None => {
                return;
            },
        },
        DatePartName::Month => match date.month {
            Some(x) => x as i32 + 1,
            None => {
                return;
            },
        },
        DatePartName::Year => date.year,
    };
    let formatting = match over {
        Some(o) => o.formatting.apply(part.formatting),
        None => part.formatting,
    };
    let text_case = match over {
        Some(o) => match o.text_case {
            Some(c) => Some(c),
            None => part.text_case,
        },
        None => part.text_case,
    };
    let form = match over {
        Some(o) => o.form,
        None => part.form,
    };
    let text = date_part_chars(ctx, form, val, date);
    write_affixed_part(part, formatting, text_case, form, &text, ctx, out);
}

/// Renders the children of the first branch whose tests pass, or else those
/// of the fallback branch, joined by the choose element's delimiter. With
/// neither, nothing is written.
pub fn render_choose(c: &Choose, ctx: &Context, out: &mut Output, depth: u32)
    requires
        old(out).wf(),
    ensures
        final(out).wf(),
        final(out).extends(old(out)),
        final(out).strip_periods == old(out).strip_periods,
        final(out).text@ == old(out).text@ + elem_out(
            ctx,
            Element::Choose(*c),
            old(out).strip_periods,
            depth as nat,
        ).0,
        final(out).usage@ == raise_top(
            old(out).usage@,
            elem_out(ctx, Element::Choose(*c), old(out).strip_periods, depth as nat).1,
        ),
        first_pass(ctx, c.branches@) is None && c.otherwise is None ==> final(out).annots@
            == old(out).annots@,
    decreases depth, 1int,
{
    let delimiter = c.delimiter.as_ref();
    assert(delim_text(delimiter) == delim_of(c.delimiter));
    match select_branch(ctx, &c.branches) {
        Some(i) => {
            proof {
                lemma_first_pass(ctx, c.branches@, i as int);
            }
            render_with_delimiter(&c.branches[i].children, delimiter, ctx, out, depth);
        },
        None => {
            proof {
                lemma_first_pass(ctx, c.branches@, 0);
            }
            match &c.otherwise {
                Some(o) => render_with_delimiter(o, delimiter, ctx, out, depth),
                None => {
                    proof {
                        lemma_raise_top_none(out.usage@);
                    }
                    assert(out.text@ =~= old(out).text@ + Seq::<char>::empty());
                },
            }
        },
    }
}

/// Renders a group: its children joined by its delimiter inside its affixes.
/// The whole group is erased when it consulted variables and none of them
/// held a value, no macro in it printed anything and no nested group
/// survived; a group that stays tells the enclosing group so.
pub fn render_group(g: &Group, ctx: &Context, out: &mut Output, depth: u32)
    requires
        old(out).wf(),
    ensures
        final(out).wf(),
        final(out).extends(old(out)),
        final(out).strip_periods == old(out).strip_periods,
        final(out).text@ == old(out).text@ + elem_out(
            ctx,
            Element::Group(*g),
            old(out).strip_periods,
            depth as nat,
        ).0,
        final(out).usage@ == raise_top(
            old(out).usage@,
            elem_out(ctx, Element::Group(*g), old(out).strip_periods, depth as nat).1,
        ),
        !group_keeps(children_usage(ctx, g.children@, old(out).strip_periods, depth as nat))
            ==> final(out).annots@ == old(out).annots@,
        group_keeps(children_usage(ctx, g.children@, old(out).strip_periods, depth as nat))
            && g.display is Some ==> has_annot(
            final(out).annots@,
            old(out).text@.len() as int,
            final(out).text@.len() as int,
            Annot::Wrap(g.display->0),
        ),
        group_keeps(children_usage(ctx, g.children@, old(out).strip_periods, depth as nat))
            && !formatting_is_empty(g.formatting) ==> has_annot(
            final(out).annots@,
            old(out).text@.len() as int,
            final(out).text@.len() as int,
            Annot::Format(g.formatting),
        ),
    decreases depth, 1int,
{
    let ghost st = old(out).strip_periods;
    let ghost cu = children_usage(ctx, g.children@, st, depth as nat);
    out.push_usage_info();
    let ghost s0 = *out;
    let mark = out.push_elem(g.formatting);
    let loc = out.apply_prefix(&g.affixes);
    let delimiter = g.delimiter.as_ref();
    assert(delim_text(delimiter) == delim_of(g.delimiter));
    render_with_delimiter(&g.children, delimiter, ctx, out, depth);
    assert(out.usage@ =~= old(out).usage@.push(cu));
    proof {
        lemma_mark_survives(&s0, out, loc.before);
    }
    out.apply_suffix(&g.affixes, loc);
    proof {
        lemma_mark_survives(&s0, out, mark);
    }
    let info = out.pop_usage_info();
    assert(out.usage@ =~= old(out).usage@);
    if info.has_vars && !info.has_non_empty_vars && !info.has_used_macros
        && !info.has_non_empty_group {
        out.discard_elem(mark);
        proof {
            lemma_raise_top_none(out.usage@);
        }
        assert(out.text@ =~= old(out).text@ + Seq::<char>::empty());
    } else {
        let ghost a0 = out.annots@;
        out.commit_elem(mark, g.display, None);
        out.printed_non_empty_group();
        proof {
            if !formatting_is_empty(g.formatting) {
                assert(out.annots@[a0.len() as int].kind == Annot::Format(g.formatting));
            }
            if g.display is Some {
                let k = if formatting_is_empty(g.formatting) { a0.len() as int } else { (a0.len() + 1) as int };
                assert(out.annots@[k].kind == Annot::Wrap(g.display->0));
            }
        }
    }
}

/// Renders a layout's elements in order inside its formatting, into a fresh
/// buffer: the text is the elements' outputs one after another.
pub fn render_layout(layout: &Layout, ctx: &Context) -> (out: Output)
    ensures
        out.wf(),
        out.usage@.len() == 0,
        out.text@ == join_nonempty(
            children_texts(ctx, layout.elements@, false, MAX_DEPTH as nat),
            Seq::empty(),
        ),
{
    let mut out = Output::new();
    let fmt = out.push_format(layout.formatting);
    render_with_delimiter(&layout.elements, None, ctx, &mut out, MAX_DEPTH);
    out.close_scope(fmt);
    assert(out.text@ =~= join_nonempty(
        children_texts(ctx, layout.elements@, false, MAX_DEPTH as nat),
        Seq::empty(),
    ));
    out
}

} // verus!
