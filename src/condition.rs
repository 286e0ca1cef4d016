//! Branch conditions: each branch's fields flattened into one sequence of
//! tests, in a fixed field order, and the reduction of that sequence by the
//! branch's match mode.

use vstd::prelude::*;
use crate::context::{Context, IbidState, NumberValue};
use crate::element::{
    ChooseBranch, ChooseMatch, Conditions, DateVariable, EntryKind, Locator, TestPosition, Variable,
};

verus! {

/// Whether a character has Unicode's White_Space property.
pub open spec fn is_white(c: char) -> bool {
    ('\u{9}' <= c <= '\u{d}') || c == ' ' || c == '\u{85}' || c == '\u{a0}' || c == '\u{1680}'
        || ('\u{2000}' <= c <= '\u{200a}') || c == '\u{2028}' || c == '\u{2029}' || c
        == '\u{202f}' || c == '\u{205f}' || c == '\u{3000}'
}

/// Whether a character has Unicode's White_Space property, as
/// `char::is_whitespace` decides it.
fn whitespace(c: char) -> (r: bool)
    ensures
        r == is_white(c),
{
    ('\u{9}' <= c && c <= '\u{d}') || c == ' ' || c == '\u{85}' || c == '\u{a0}' || c
        == '\u{1680}' || ('\u{2000}' <= c && c <= '\u{200a}') || c == '\u{2028}' || c
        == '\u{2029}' || c == '\u{202f}' || c == '\u{205f}' || c == '\u{3000}'
}

/// Whether every character of `s` is whitespace (true of the empty text).
pub open spec fn all_white(s: Seq<char>) -> bool {
    forall|i: int| 0 <= i < s.len() ==> is_white(#[trigger] s[i])
}

/// Whether a character is a decimal digit.
pub open spec fn is_digit(c: char) -> bool {
    '0' <= c <= '9'
}

/// Whether a character may stand between the numbers of a numeric value:
/// a hyphen, an en dash, a comma or an ampersand.
pub open spec fn is_number_separator(c: char) -> bool {
    c == '-' || c == '\u{2013}' || c == ',' || c == '&'
}

/// Whether `s` reads as a number, a range or a list of numbers: digits and
/// separators, starting and ending with a digit.
pub open spec fn is_numeric_text(s: Seq<char>) -> bool {
    &&& s.len() > 0
    &&& is_digit(s[0])
    &&& is_digit(s.last())
    &&& forall|i: int|
        0 <= i < s.len() ==> is_digit(#[trigger] s[i]) || is_number_separator(s[i])
}

fn blank(s: &Vec<char>) -> (r: bool)
    ensures
        r == all_white(s@),
{
    let mut i: usize = 0;
    while i < s.len()
        invariant
            i <= s@.len(),
            forall|j: int| 0 <= j < i ==> is_white(#[trigger] s@[j]),
        decreases s@.len() - i,
    {
        if !whitespace(s[i]) {
            return false;
        }
        i = i + 1;
    }
    true
}

fn numeric_text(s: &Vec<char>) -> (r: bool)
    ensures
        r == is_numeric_text(s@),
{
    if s.len() == 0 {
        return false;
    }
    let first = s[0];
    let last = s[s.len() - 1];
    if !('0' <= first && first <= '9') || !('0' <= last && last <= '9') {
        return false;
    }
    let mut i: usize = 0;
    while i < s.len()
        invariant
            i <= s@.len(),
            forall|j: int|
                0 <= j < i ==> is_digit(#[trigger] s@[j]) || is_number_separator(s@[j]),
        decreases s@.len() - i,
    {
        let c = s[i];
        if !(('0' <= c && c <= '9') || c == '-' || c == '\u{2013}' || c == ',' || c == '&') {
            return false;
        }
        i = i + 1;
    }
    true
}

/// Whether a variable's value reads as a number.
pub open spec fn numeric_test(ctx: &Context, v: Variable) -> bool {
    match v {
        Variable::Standard(s) => match ctx.standard_value(s) {
            Some(t) => is_numeric_text(t@),
            None => false,
        },
        Variable::Number(n) => match ctx.number_value(n) {
            Some(NumberValue::Typed(_)) => true,
            _ => false,
        },
        _ => false,
    }
}

/// Whether a date variable is present and marked approximate.
pub open spec fn uncertain_test(ctx: &Context, v: DateVariable) -> bool {
    match ctx.date_value(v) {
        Some(d) => d.approximate,
        None => false,
    }
}

/// Whether the cite's locator is of the given kind.
pub open spec fn locator_test(ctx: &Context, l: Locator) -> bool {
    ctx.cite.locator == Some(l)
}

/// Whether the cite stands at the given position.
pub open spec fn position_test(ctx: &Context, p: TestPosition) -> bool {
    match p {
        TestPosition::First => ctx.cite.is_first,
        TestPosition::Subsequent => !ctx.cite.is_first,
        TestPosition::Ibid => ctx.cite.ibid == IbidState::Ibid,
        TestPosition::IbidWithLocator => ctx.cite.ibid == IbidState::IbidWithLocator,
        TestPosition::NearNote => ctx.cite.is_near_note,
    }
}

/// Whether the entry is of the given type.
pub open spec fn type_test(ctx: &Context, k: EntryKind) -> bool {
    ctx.entry.kind == k
}

/// Whether a variable holds a non-blank value.
pub open spec fn variable_test(ctx: &Context, v: Variable) -> bool {
    match v {
        Variable::Standard(s) => match ctx.standard_value(s) {
            Some(t) => !all_white(t@),
            None => false,
        },
        Variable::Number(n) => ctx.number_value(n) is Some,
        Variable::Date(d) => ctx.date_value(d) is Some,
        Variable::Name(n) => match ctx.name_count(n) {
            Some(c) => c > 0,
            None => false,
        },
    }
}

/// The `is_numeric` tests of a branch: one per listed value, none if unset.
pub open spec fn numeric_tests(ctx: &Context, c: Conditions) -> Seq<bool> {
    match c.is_numeric {
        Some(v) => Seq::new(v@.len(), |i: int| numeric_test(ctx, v@[i])),
        None => Seq::empty(),
    }
}

/// The `is_uncertain_date` tests of a branch: one per listed value, none if unset.
pub open spec fn uncertain_tests(ctx: &Context, c: Conditions) -> Seq<bool> {
    match c.is_uncertain_date {
        Some(v) => Seq::new(v@.len(), |i: int| uncertain_test(ctx, v@[i])),
        None => Seq::empty(),
    }
}

/// The `locator` tests of a branch: one per listed value, none if unset.
pub open spec fn locator_tests(ctx: &Context, c: Conditions) -> Seq<bool> {
    match c.locator {
        Some(v) => Seq::new(v@.len(), |i: int| locator_test(ctx, v@[i])),
        None => Seq::empty(),
    }
}

/// The `position` tests of a branch: one per listed value, none if unset.
pub open spec fn position_tests(ctx: &Context, c: Conditions) -> Seq<bool> {
    match c.position {
        Some(v) => Seq::new(v@.len(), |i: int| position_test(ctx, v@[i])),
        None => Seq::empty(),
    }
}

/// The `type_` tests of a branch: one per listed value, none if unset.
pub open spec fn type_tests(ctx: &Context, c: Conditions) -> Seq<bool> {
    match c.type_ {
        Some(v) => Seq::new(v@.len(), |i: int| type_test(ctx, v@[i])),
        None => Seq::empty(),
    }
}

/// The `variable` tests of a branch: one per listed value, none if unset.
pub open spec fn variable_tests(ctx: &Context, c: Conditions) -> Seq<bool> {
    match c.variable {
        Some(v) => Seq::new(v@.len(), |i: int| variable_test(ctx, v@[i])),
        None => Seq::empty(),
    }
}

/// All tests of a branch, field by field in the fixed order: disambiguate,
/// is-numeric, is-uncertain-date, locator, position, type, variable.
pub open spec fn branch_tests(ctx: &Context, c: Conditions) -> Seq<bool> {
    let d = match c.disambiguate {
        Some(b) => seq![b == ctx.disambiguate],
        None => Seq::empty(),
    };
    d + numeric_tests(ctx, c) + uncertain_tests(ctx, c) + locator_tests(ctx, c) + position_tests(
        ctx,
        c,
    ) + type_tests(ctx, c) + variable_tests(ctx, c)
}

/// Whether a sequence of tests satisfies a match mode.
pub open spec fn match_holds(m: ChooseMatch, tests: Seq<bool>) -> bool {
    match m {
        ChooseMatch::All => forall|i: int| 0 <= i < tests.len() ==> #[trigger] tests[i],
        ChooseMatch::Any => exists|i: int| 0 <= i < tests.len() && #[trigger] tests[i],
        ChooseMatch::Nothing => forall|i: int| 0 <= i < tests.len() ==> !#[trigger] tests[i],
    }
}

/// Whether a branch's tests pass.
pub open spec fn branch_passes(ctx: &Context, b: ChooseBranch) -> bool {
    match_holds(b.match_, branch_tests(ctx, b.conditions))
}

/// Whether a variable's value reads as a number.
pub fn is_numeric(ctx: &Context, v: Variable) -> (r: bool)
    ensures
        r == numeric_test(ctx, v),
{
    match v {
        Variable::Standard(s) => match ctx.standard(s) {
            Some(t) => numeric_text(t),
            None => false,
        },
        Variable::Number(n) => match ctx.number(n) {
            Some(NumberValue::Typed(_)) => true,
            _ => false,
        },
        _ => false,
    }
}

/// Whether a variable holds a non-blank value.
pub fn is_present(ctx: &Context, v: Variable) -> (r: bool)
    ensures
        r == variable_test(ctx, v),
{
    match v {
        Variable::Standard(s) => match ctx.standard(s) {
            Some(t) => !blank(t),
            None => false,
        },
        Variable::Number(n) => ctx.number(n).is_some(),
        Variable::Date(d) => ctx.date(d).is_some(),
        Variable::Name(n) => match ctx.names(n) {
            Some(c) => c > 0,
            None => false,
        },
    }
}

/// Whether the cite stands at the given position.
pub fn at_position(ctx: &Context, p: TestPosition) -> (r: bool)
    ensures
        r == position_test(ctx, p),
{
    match p {
        TestPosition::First => ctx.cite.is_first,
        TestPosition::Subsequent => !ctx.cite.is_first,
        TestPosition::Ibid => ctx.cite.ibid == IbidState::Ibid,
        TestPosition::IbidWithLocator => ctx.cite.ibid == IbidState::IbidWithLocator,
        TestPosition::NearNote => ctx.cite.is_near_note,
    }
}

fn push_numeric_tests(ctx: &Context, c: &Conditions, out: &mut Vec<bool>)
    ensures
        final(out)@ == old(out)@ + numeric_tests(ctx, *c),
{
    match &c.is_numeric {
        Some(v) => {
            let ghost base = out@;
            let mut i: usize = 0;
            while i < v.len()
                invariant
                    i <= v@.len(),
                    base == old(out)@,
                    out@.len() == base.len() + i,
                    forall|j: int| 0 <= j < base.len() ==> out@[j] == base[j],
                    forall|j: int| 0 <= j < i ==> out@[base.len() + j] == numeric_test(ctx, v@[j]),
                decreases v@.len() - i,
            {
                let x = v[i];
                let b = is_numeric(ctx, x);
                out.push(b);
                i = i + 1;
            }
            assert(out@ =~= base + numeric_tests(ctx, *c));
        },
        None => {
            assert(out@ =~= old(out)@ + numeric_tests(ctx, *c));
        },
    }
}

fn push_uncertain_tests(ctx: &Context, c: &Conditions, out: &mut Vec<bool>)
    ensures
        final(out)@ == old(out)@ + uncertain_tests(ctx, *c),
{
    match &c.is_uncertain_date {
        Some(v) => {
            let ghost base = out@;
            let mut i: usize = 0;
            while i < v.len()
                invariant
                    i <= v@.len(),
                    base == old(out)@,
                    out@.len() == base.len() + i,
                    forall|j: int| 0 <= j < base.len() ==> out@[j] == base[j],
                    forall|j: int| 0 <= j < i ==> out@[base.len() + j] == uncertain_test(ctx, v@[j]),
                decreases v@.len() - i,
            {
                let x = v[i];
                let b = match ctx.date(x) { Some(d) => d.approximate, None => false };
                out.push(b);
                i = i + 1;
            }
            assert(out@ =~= base + uncertain_tests(ctx, *c));
        },
        None => {
            assert(out@ =~= old(out)@ + uncertain_tests(ctx, *c));
        },
    }
}

fn push_locator_tests(ctx: &Context, c: &Conditions, out: &mut Vec<bool>)
    ensures
        final(out)@ == old(out)@ + locator_tests(ctx, *c),
{
    match &c.locator {
        Some(v) => {
            let ghost base = out@;
            let mut i: usize = 0;
            while i < v.len()
                invariant
                    i <= v@.len(),
                    base == old(out)@,
                    out@.len() == base.len() + i,
                    forall|j: int| 0 <= j < base.len() ==> out@[j] == base[j],
                    forall|j: int| 0 <= j < i ==> out@[base.len() + j] == locator_test(ctx, v@[j]),
                decreases v@.len() - i,
            {
                let x = v[i];
                let b = ctx.cite.locator == Some(x);
                out.push(b);
                i = i + 1;
            }
            assert(out@ =~= base + locator_tests(ctx, *c));
        },
        None => {
            assert(out@ =~= old(out)@ + locator_tests(ctx, *c));
        },
    }
}

fn push_position_tests(ctx: &Context, c: &Conditions, out: &mut Vec<bool>)
    ensures
        final(out)@ == old(out)@ + position_tests(ctx, *c),
{
    match &c.position {
        Some(v) => {
            let ghost base = out@;
            let mut i: usize = 0;
            while i < v.len()
                invariant
                    i <= v@.len(),
                    base == old(out)@,
                    out@.len() == base.len() + i,
                    forall|j: int| 0 <= j < base.len() ==> out@[j] == base[j],
                    forall|j: int| 0 <= j < i ==> out@[base.len() + j] == position_test(ctx, v@[j]),
                decreases v@.len() - i,
            {
                let x = v[i];
                let b = at_position(ctx, x);
                out.push(b);
                i = i + 1;
            }
            assert(out@ =~= base + position_tests(ctx, *c));
        },
        None => {
            assert(out@ =~= old(out)@ + position_tests(ctx, *c));
        },
    }
}

fn push_type_tests(ctx: &Context, c: &Conditions, out: &mut Vec<bool>)
    ensures
        final(out)@ == old(out)@ + type_tests(ctx, *c),
{
    match &c.type_ {
        Some(v) => {
            let ghost base = out@;
            let mut i: usize = 0;
            while i < v.len()
                invariant
                    i <= v@.len(),
                    base == old(out)@,
                    out@.len() == base.len() + i,
                    forall|j: int| 0 <= j < base.len() ==> out@[j] == base[j],
                    forall|j: int| 0 <= j < i ==> out@[base.len() + j] == type_test(ctx, v@[j]),
                decreases v@.len() - i,
            {
                let x = v[i];
                let b = ctx.entry.kind == x;
                out.push(b);
                i = i + 1;
            }
            assert(out@ =~= base + type_tests(ctx, *c));
        },
        None => {
            assert(out@ =~= old(out)@ + type_tests(ctx, *c));
        },
    }
}

fn push_variable_tests(ctx: &Context, c: &Conditions, out: &mut Vec<bool>)
    ensures
        final(out)@ == old(out)@ + variable_tests(ctx, *c),
{
    match &c.variable {
        Some(v) => {
            let ghost base = out@;
            let mut i: usize = 0;
            while i < v.len()
                invariant
                    i <= v@.len(),
                    base == old(out)@,
                    out@.len() == base.len() + i,
                    forall|j: int| 0 <= j < base.len() ==> out@[j] == base[j],
                    forall|j: int| 0 <= j < i ==> out@[base.len() + j] == variable_test(ctx, v@[j]),
                decreases v@.len() - i,
            {
                let x = v[i];
                let b = is_present(ctx, x);
                out.push(b);
                i = i + 1;
            }
            assert(out@ =~= base + variable_tests(ctx, *c));
        },
        None => {
            assert(out@ =~= old(out)@ + variable_tests(ctx, *c));
        },
    }
}

/// The tests of a branch, in field order, one per listed value.
pub fn branch_conditions(ctx: &Context, c: &Conditions) -> (r: Vec<bool>)
    ensures
        r@ == branch_tests(ctx, *c),
{
    let mut out: Vec<bool> = Vec::new();
    match c.disambiguate {
        Some(d) => {
            out.push(d == ctx.disambiguate);
        },
        None => {},
    }
    push_numeric_tests(ctx, c, &mut out);
    push_uncertain_tests(ctx, c, &mut out);
    push_locator_tests(ctx, c, &mut out);
    push_position_tests(ctx, c, &mut out);
    push_type_tests(ctx, c, &mut out);
    push_variable_tests(ctx, c, &mut out);
    assert(out@ =~= branch_tests(ctx, *c));
    out
}

/// Whether a sequence of tests satisfies a match mode: all true, any true,
/// or none true.
pub fn test_match(m: ChooseMatch, tests: &Vec<bool>) -> (r: bool)
    ensures
        r == match_holds(m, tests@),
{
    let mut i: usize = 0;
    while i < tests.len()
        invariant
            i <= tests@.len(),
            m is All ==> forall|j: int| 0 <= j < i ==> #[trigger] tests@[j],
            m is Any ==> forall|j: int| 0 <= j < i ==> !#[trigger] tests@[j],
            m is Nothing ==> forall|j: int| 0 <= j < i ==> !#[trigger] tests@[j],
        decreases tests@.len() - i,
    {
        let t = tests[i];
        match m {
            ChooseMatch::All => if !t {
                return false;
            },
            ChooseMatch::Any => if t {
                return true;
            },
            ChooseMatch::Nothing => if t {
                return false;
            },
        }
        i = i + 1;
    }
    match m {
        ChooseMatch::Any => false,
        _ => true,
    }
}

/// Whether a branch's tests pass under its match mode.
pub fn branch_matches(ctx: &Context, b: &ChooseBranch) -> (r: bool)
    ensures
        r == branch_passes(ctx, *b),
{
    let tests = branch_conditions(ctx, &b.conditions);
    test_match(b.match_, &tests)
}

/// The index of the first branch whose tests pass, if any.
pub fn select_branch(ctx: &Context, bs: &Vec<ChooseBranch>) -> (r: Option<usize>)
    ensures
        match r {
            Some(i) => i < bs@.len() && branch_passes(ctx, bs@[i as int]) && forall|j: int|
                0 <= j < i ==> !branch_passes(ctx, #[trigger] bs@[j]),
            None => forall|j: int| 0 <= j < bs@.len() ==> !branch_passes(ctx, #[trigger] bs@[j]),
        },
{
    let mut i: usize = 0;
    while i < bs.len()
        invariant
            i <= bs@.len(),
            forall|j: int| 0 <= j < i ==> !branch_passes(ctx, #[trigger] bs@[j]),
        decreases bs@.len() - i,
    {
        if branch_matches(ctx, &bs[i]) {
            return Some(i);
        }
        i = i + 1;
    }
    None
}

} // verus!
