//! The text of date parts and of date sort keys, as pure functions of the
//! values they are made from.

use vstd::prelude::*;
use crate::element::{DatePartForm, DayForm, MonthForm, YearForm};
use crate::numeral::{decimal, decimal_chars, padded_decimal, padded_decimal_chars, append_chars};

verus! {

/// The absolute value of an integer, as a natural number.
pub open spec fn abs_nat(v: int) -> nat {
    if v < 0 { (-v) as nat } else { v as nat }
}

/// A year in a sort key: four digits, or a minus sign and three digits.
pub open spec fn sort_year(y: int) -> Seq<char> {
    if y < 0 { seq!['-'] + padded_decimal(abs_nat(y), 3) } else { padded_decimal(y as nat, 4) }
}

/// A month or day in a sort key: two digits of the one-indexed value, or
/// `00` when absent.
pub open spec fn sort_two(v: Option<u8>) -> Seq<char> {
    match v {
        Some(x) => padded_decimal(x as nat + 1, 2),
        None => padded_decimal(0, 2),
    }
}

/// The era marker that follows a year below 1000.
pub open spec fn era_marker(y: int) -> Seq<char> {
    if y >= 1000 {
        Seq::empty()
    } else if y < 0 {
        seq!['B', 'C']
    } else {
        seq!['A', 'D']
    }
}

/// The text of one date part with value `val` (one-indexed for months and
/// days), given the localized month name, if any, the ordinal suffix for
/// `val`, and whether the locale leaves day one without an ordinal suffix.
pub open spec fn part_text(
    form: DatePartForm,
    val: int,
    month_name: Option<Seq<char>>,
    ordinal: Seq<char>,
    limit_day_1: bool,
) -> Seq<char> {
    match form {
        DatePartForm::Day(DayForm::NumericLeadingZeros) => padded_decimal(abs_nat(val), 2),
        DatePartForm::Month(MonthForm::NumericLeadingZeros) => padded_decimal(abs_nat(val), 2),
        DatePartForm::Day(DayForm::Ordinal) => if val != 1 || !limit_day_1 {
            decimal(abs_nat(val)) + ordinal
        } else {
            decimal(abs_nat(val))
        },
        DatePartForm::Day(DayForm::Numeric) => decimal(abs_nat(val)),
        DatePartForm::Month(MonthForm::Numeric) => decimal(abs_nat(val)),
        DatePartForm::Month(_) => match month_name {
            Some(m) => m,
            None => decimal(abs_nat(val)),
        },
        DatePartForm::Year(YearForm::Short) => padded_decimal(abs_nat(val) % 100, 2) + era_marker(
            val,
        ),
        DatePartForm::Year(YearForm::Long) => decimal(abs_nat(val)) + era_marker(val),
    }
}

fn abs_u64(v: i32) -> (r: u64)
    ensures
        r as nat == abs_nat(v as int),
{
    if v < 0 {
        (-(v as i64)) as u64
    } else {
        v as u64
    }
}

/// The sort-key text of a year.
pub fn sort_year_chars(y: i32) -> (r: Vec<char>)
    ensures
        r@ == sort_year(y as int),
{
    if y < 0 {
        let mut r = Vec::new();
        r.push('-');
        let digits = padded_decimal_chars(abs_u64(y), 3);
        append_chars(&mut r, &digits);
        assert(r@ =~= sort_year(y as int));
        r
    } else {
        padded_decimal_chars(y as u64, 4)
    }
}

/// The sort-key text of a month or day.
pub fn sort_two_chars(v: Option<u8>) -> (r: Vec<char>)
    ensures
        r@ == sort_two(v),
{
    match v {
        Some(x) => padded_decimal_chars(x as u64 + 1, 2),
        None => padded_decimal_chars(0, 2),
    }
}

fn era_chars(y: i32) -> (r: Vec<char>)
    ensures
        r@ == era_marker(y as int),
{
    let mut r = Vec::new();
    if y < 1000 {
        if y < 0 {
            r.push('B');
            r.push('C');
        } else {
            r.push('A');
            r.push('D');
        }
    }
    assert(r@ =~= era_marker(y as int));
    r
}

/// The text of one date part; see `part_text`.
pub fn part_chars(
    form: DatePartForm,
    val: i32,
    month_name: Option<&Vec<char>>,
    ordinal: &Vec<char>,
    limit_day_1: bool,
) -> (r: Vec<char>)
    ensures
        r@ == part_text(
            form,
            val as int,
            match month_name {
                Some(m) => Some(m@),
                None => None,
            },
            ordinal@,
            limit_day_1,
        ),
{
    let a = abs_u64(val);
    match form {
        DatePartForm::Day(DayForm::NumericLeadingZeros)
        | DatePartForm::Month(MonthForm::NumericLeadingZeros) => padded_decimal_chars(a, 2),
        DatePartForm::Day(DayForm::Ordinal) => {
            let mut r = decimal_chars(a);
            if val != 1 || !limit_day_1 {
                append_chars(&mut r, ordinal);
            }
            r
        },
        DatePartForm::Day(DayForm::Numeric) | DatePartForm::Month(MonthForm::Numeric) => {
            decimal_chars(a)
        },
        DatePartForm::Month(_) => match month_name {
            Some(m) => {
                let mut r = Vec::new();
                append_chars(&mut r, m);
                assert(r@ =~= m@);
                r
            },
            None => decimal_chars(a),
        },
        DatePartForm::Year(YearForm::Short) => {
            let mut r = padded_decimal_chars(a % 100, 2);
            let e = era_chars(val);
            append_chars(&mut r, &e);
            r
        },
        DatePartForm::Year(YearForm::Long) => {
            let mut r = decimal_chars(a);
            let e = era_chars(val);
            append_chars(&mut r, &e);
            r
        },
    }
}

} // verus!
