use citeproc_core::condition::{branch_conditions, test_match};
use citeproc_core::context::{
    CiteProps, Context, DateValue, EntryData, IbidState, Locale, NumberValue, Numeric,
    PageRangeFormat,
};
use citeproc_core::element::{
    ChooseMatch, Conditions, DateVariable, EntryKind, Locator, NameVariable, NumberVariable,
    StandardVariable, TestPosition, Variable,
};
use citeproc_core::style::{FontStyle, FontWeight, Formatting};

fn ctx() -> Context {
    Context {
        entry: EntryData {
            kind: EntryKind(4),
            standard: vec![(StandardVariable::Other(1), "12".chars().collect())],
            numbers: vec![(NumberVariable::Page, NumberValue::Typed(Numeric { start: 1, end: None }))],
            dates: vec![(DateVariable(1), DateValue { year: 1900, month: None, day: None, approximate: true })],
            names: vec![(NameVariable(1), 0)],
        },
        locale: Locale { terms: vec![], limit_day_ordinals_to_day_1: false },
        macros: vec![],
        localized_dates: vec![],
        cite: CiteProps {
            is_first: false,
            is_near_note: true,
            ibid: IbidState::IbidWithLocator,
            locator: Some(Locator(3)),
        },
        sorting: false,
        author_only: false,
        disambiguate: true,
        page_range_format: PageRangeFormat::Expanded,
        year_suffix_implicit: false,
    }
}

#[test]
fn conditions_flatten_in_field_order() {
    let c = Conditions {
        disambiguate: Some(false),
        is_numeric: Some(vec![
            Variable::Standard(StandardVariable::Other(1)),
            Variable::Number(NumberVariable::Page),
            Variable::Standard(StandardVariable::Other(2)),
        ]),
        is_uncertain_date: Some(vec![DateVariable(1), DateVariable(2)]),
        locator: Some(vec![Locator(3), Locator(4)]),
        position: Some(vec![
            TestPosition::First,
            TestPosition::Subsequent,
            TestPosition::Ibid,
            TestPosition::IbidWithLocator,
            TestPosition::NearNote,
        ]),
        type_: Some(vec![EntryKind(4)]),
        variable: Some(vec![
            Variable::Date(DateVariable(1)),
            Variable::Name(NameVariable(1)),
            Variable::Standard(StandardVariable::Other(1)),
        ]),
    };
    let got = branch_conditions(&ctx(), &c);
    assert_eq!(
        got,
        vec![
            false, true, true, false, true, false, true, false, false, true, false, true, true,
            true, true, false, true
        ]
    );
}

#[test]
fn absent_fields_contribute_nothing() {
    let c = Conditions {
        disambiguate: None,
        is_numeric: None,
        is_uncertain_date: None,
        locator: None,
        position: None,
        type_: Some(vec![EntryKind(5)]),
        variable: None,
    };
    assert_eq!(branch_conditions(&ctx(), &c), vec![false]);
}

#[test]
fn match_modes_reduce_tests() {
    let tests = vec![true, false];
    assert!(!test_match(ChooseMatch::All, &tests));
    assert!(test_match(ChooseMatch::Any, &tests));
    assert!(!test_match(ChooseMatch::Nothing, &tests));
    let none: Vec<bool> = vec![];
    assert!(test_match(ChooseMatch::All, &none));
    assert!(!test_match(ChooseMatch::Any, &none));
    assert!(test_match(ChooseMatch::Nothing, &none));
}

#[test]
fn formatting_apply_prefers_child_fields() {
    let child = Formatting { font_style: Some(FontStyle::Italic), ..Formatting::plain() };
    let base = Formatting {
        font_style: Some(FontStyle::Normal),
        font_weight: Some(FontWeight::Bold),
        ..Formatting::plain()
    };
    let merged = child.apply(base);
    assert_eq!(merged.font_style, Some(FontStyle::Italic));
    assert_eq!(merged.font_weight, Some(FontWeight::Bold));
    assert!(Formatting::plain().is_empty());
    assert!(!merged.is_empty());
}

#[test]
fn numeric_text_accepts_ranges() {
    let mut c = ctx();
    c.entry.standard = vec![
        (StandardVariable::Other(1), "5-8".chars().collect()),
        (StandardVariable::Other(2), "5-".chars().collect()),
        (StandardVariable::Other(3), "iv".chars().collect()),
    ];
    let cond = Conditions {
        disambiguate: None,
        is_numeric: Some(vec![
            Variable::Standard(StandardVariable::Other(1)),
            Variable::Standard(StandardVariable::Other(2)),
            Variable::Standard(StandardVariable::Other(3)),
        ]),
        is_uncertain_date: None,
        locator: None,
        position: None,
        type_: None,
        variable: None,
    };
    assert_eq!(branch_conditions(&c, &cond), vec![true, false, false]);
}
