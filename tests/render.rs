use citeproc_core::context::{
    CiteProps, Context, DateValue, EntryData, IbidState, Locale, NumberValue, Numeric,
    PageRangeFormat,
};
use citeproc_core::element::{
    Choose, ChooseBranch, ChooseMatch, Conditions, Date, DateForm, DatePart, DatePartForm, DayForm,
    DateVariable, Element, EntryKind, Group, Label, LabelPluralize, Layout, Macro, MonthForm,
    Number, NumberForm, NumberVariable, StandardVariable, Term, TermForm, Text, TextTarget,
    Variable, YearForm,
};
use citeproc_core::output::{Annot, Output};
use citeproc_core::render::{render_date, render_element, render_layout, render_number};
use citeproc_core::style::{Affixes, Formatting};

fn cs(s: &str) -> Vec<char> {
    s.chars().collect()
}

fn text_of(out: &Output) -> String {
    out.text.iter().collect()
}

fn ctx() -> Context {
    Context {
        entry: EntryData {
            kind: EntryKind(1),
            standard: vec![],
            numbers: vec![],
            dates: vec![],
            names: vec![],
        },
        locale: Locale { terms: vec![], limit_day_ordinals_to_day_1: false },
        macros: vec![],
        localized_dates: vec![],
        cite: CiteProps {
            is_first: true,
            is_near_note: false,
            ibid: IbidState::Different,
            locator: None,
        },
        sorting: false,
        author_only: false,
        disambiguate: false,
        page_range_format: PageRangeFormat::Expanded,
        year_suffix_implicit: false,
    }
}

fn text(target: TextTarget) -> Element {
    Element::Text(Text {
        target,
        formatting: Formatting::plain(),
        affixes: Affixes::none(),
        quotes: false,
        strip_periods: false,
        text_case: None,
        display: None,
    })
}

fn value(s: &str) -> Element {
    text(TextTarget::Value(cs(s)))
}

fn var(code: u16) -> Element {
    text(TextTarget::Variable(Variable::Standard(StandardVariable::Other(code))))
}

fn group(children: Vec<Element>, delimiter: Option<&str>) -> Element {
    Element::Group(Group {
        children,
        delimiter: delimiter.map(cs),
        formatting: Formatting::plain(),
        affixes: Affixes::none(),
        display: None,
    })
}

fn layout(elements: Vec<Element>) -> Layout {
    Layout { elements, formatting: Formatting::plain() }
}

fn render(elements: Vec<Element>, c: &Context) -> String {
    text_of(&render_layout(&layout(elements), c))
}

fn part(form: DatePartForm) -> DatePart {
    DatePart {
        form,
        formatting: Formatting::plain(),
        affixes: Affixes::none(),
        strip_periods: false,
        text_case: None,
    }
}

fn date_elem(parts: Vec<DatePart>, delimiter: Option<&str>) -> Date {
    Date {
        variable: Some(DateVariable(1)),
        form: None,
        parts: None,
        date_part: parts,
        delimiter: delimiter.map(cs),
        formatting: Formatting::plain(),
        affixes: Affixes::none(),
        text_case: None,
        display: None,
    }
}

fn with_date(year: i32, month: Option<u8>, day: Option<u8>) -> Context {
    let mut c = ctx();
    c.entry.dates = vec![(DateVariable(1), DateValue { year, month, day, approximate: false })];
    c
}

fn render_one_date(d: &Date, c: &Context) -> String {
    let mut out = Output::new();
    render_date(d, c, &mut out);
    text_of(&out)
}

fn branch(conditions: Conditions, match_: ChooseMatch, children: Vec<Element>) -> ChooseBranch {
    ChooseBranch { conditions, match_, children }
}

fn no_conditions() -> Conditions {
    Conditions {
        disambiguate: None,
        is_numeric: None,
        is_uncertain_date: None,
        locator: None,
        position: None,
        type_: None,
        variable: None,
    }
}

fn type_is(k: u16) -> Conditions {
    Conditions { type_: Some(vec![EntryKind(k)]), ..no_conditions() }
}

#[test]
fn delimiter_skips_empty_middle_child() {
    let mut c = ctx();
    c.entry.standard = vec![
        (StandardVariable::Other(1), cs("A")),
        (StandardVariable::Other(3), cs("C")),
    ];
    let g = group(vec![var(1), var(2), var(3)], Some(", "));
    assert_eq!(render(vec![g], &c), "A, C");
}

#[test]
fn delimiter_skips_leading_and_trailing_empty_children() {
    let mut c = ctx();
    c.entry.standard = vec![
        (StandardVariable::Other(1), cs("A")),
        (StandardVariable::Other(3), cs("C")),
    ];
    let g = group(vec![var(9), var(1), var(8), var(7), var(3), var(6)], Some(", "));
    assert_eq!(render(vec![g], &c), "A, C");
}

#[test]
fn group_with_only_absent_variable_is_suppressed() {
    let c = ctx();
    let g = group(vec![value("Vol. "), var(5)], None);
    assert_eq!(render(vec![g], &c), "");
}

#[test]
fn group_with_present_variable_renders_literals() {
    let mut c = ctx();
    c.entry.standard = vec![(StandardVariable::Other(5), cs("3"))];
    let g = group(vec![value("Vol. "), var(5)], None);
    assert_eq!(render(vec![g], &c), "Vol. 3");
}

#[test]
fn group_without_variables_is_preserved() {
    let c = ctx();
    let g = group(vec![value("X"), value("Y")], Some("-"));
    let empty_sibling = group(vec![var(4)], None);
    assert_eq!(render(vec![empty_sibling, g, var(2)], &c), "X-Y");
}

#[test]
fn date_sort_mode_writes_eight_digits() {
    let mut c = with_date(2020, Some(0), Some(14));
    c.sorting = true;
    let d = date_elem(
        vec![
            part(DatePartForm::Year(YearForm::Long)),
            part(DatePartForm::Month(MonthForm::Long)),
            part(DatePartForm::Day(DayForm::Numeric)),
        ],
        Some(" "),
    );
    assert_eq!(render_one_date(&d, &c), "20200115");
}

#[test]
fn date_sort_mode_negative_year_and_missing_parts() {
    let mut c = with_date(-44, None, None);
    c.sorting = true;
    let d = date_elem(
        vec![
            part(DatePartForm::Year(YearForm::Long)),
            part(DatePartForm::Month(MonthForm::Long)),
        ],
        None,
    );
    assert_eq!(render_one_date(&d, &c), "-04400");
}

fn ordinal_ctx(day: u8, limit: bool) -> Context {
    let mut c = with_date(2021, Some(2), Some(day));
    c.locale.limit_day_ordinals_to_day_1 = limit;
    c.locale.terms = vec![
        ((Term::Ordinal(1), TermForm::Long, false), cs("st")),
        ((Term::Ordinal(2), TermForm::Long, false), cs("nd")),
        ((Term::OrdinalDefault, TermForm::Long, false), cs("th")),
    ];
    c
}

#[test]
fn ordinal_day_one_suppressed_when_limited() {
    let d = date_elem(vec![part(DatePartForm::Day(DayForm::Ordinal))], None);
    assert_eq!(render_one_date(&d, &ordinal_ctx(0, true)), "1");
    assert_eq!(render_one_date(&d, &ordinal_ctx(1, true)), "2nd");
}

#[test]
fn ordinal_day_one_suffixed_when_not_limited() {
    let d = date_elem(vec![part(DatePartForm::Day(DayForm::Ordinal))], None);
    assert_eq!(render_one_date(&d, &ordinal_ctx(0, false)), "1st");
    assert_eq!(render_one_date(&d, &ordinal_ctx(3, false)), "4th");
}

#[test]
fn era_markers_follow_short_years() {
    let d = date_elem(vec![part(DatePartForm::Year(YearForm::Long))], None);
    assert_eq!(render_one_date(&d, &with_date(-44, None, None)), "44BC");
    assert_eq!(render_one_date(&d, &with_date(44, None, None)), "44AD");
    assert_eq!(render_one_date(&d, &with_date(1999, None, None)), "1999");
    let s = date_elem(vec![part(DatePartForm::Year(YearForm::Short))], None);
    assert_eq!(render_one_date(&s, &with_date(1999, None, None)), "99");
}

#[test]
fn date_parts_joined_without_orphan_delimiter() {
    let mut c = with_date(2020, Some(4), None);
    c.locale.terms = vec![((Term::Month(4), TermForm::Long, false), cs("May"))];
    let d = date_elem(
        vec![
            part(DatePartForm::Day(DayForm::Numeric)),
            part(DatePartForm::Month(MonthForm::Long)),
            part(DatePartForm::Year(YearForm::Long)),
        ],
        Some(" "),
    );
    assert_eq!(render_one_date(&d, &c), "May 2020");
}

#[test]
fn month_name_falls_back_to_numeral() {
    let c = with_date(2020, Some(4), Some(6));
    let d = date_elem(
        vec![
            part(DatePartForm::Month(MonthForm::Short)),
            part(DatePartForm::Day(DayForm::NumericLeadingZeros)),
        ],
        Some("/"),
    );
    assert_eq!(render_one_date(&d, &c), "5/07");
}

fn number_elem(variable: NumberVariable, form: NumberForm) -> Number {
    Number {
        variable,
        form,
        formatting: Formatting::plain(),
        affixes: Affixes::none(),
        text_case: None,
        display: None,
    }
}

fn render_one_number(n: &Number, c: &Context) -> String {
    let mut out = Output::new();
    render_number(n, c, &mut out);
    text_of(&out)
}

#[test]
fn page_range_default_separator_is_en_dash() {
    let mut c = ctx();
    c.entry.numbers =
        vec![(NumberVariable::Page, NumberValue::Typed(Numeric { start: 5, end: Some(8) }))];
    let n = number_elem(NumberVariable::Page, NumberForm::Numeric);
    assert_eq!(render_one_number(&n, &c), "5\u{2013}8");
}

#[test]
fn page_range_compacted_by_format_and_locale_delimiter() {
    let mut c = ctx();
    c.page_range_format = PageRangeFormat::Minimal;
    c.locale.terms = vec![((Term::PageRangeDelimiter, TermForm::Long, false), cs("-"))];
    c.entry.numbers =
        vec![(NumberVariable::Page, NumberValue::Typed(Numeric { start: 321, end: Some(328) }))];
    let n = number_elem(NumberVariable::Page, NumberForm::Numeric);
    assert_eq!(render_one_number(&n, &c), "321-8");
}

#[test]
fn number_ordinal_and_sort_key() {
    let mut c = ordinal_ctx(0, false);
    c.entry.numbers =
        vec![(NumberVariable::Other(2), NumberValue::Typed(Numeric { start: 2, end: None }))];
    let n = number_elem(NumberVariable::Other(2), NumberForm::Ordinal);
    assert_eq!(render_one_number(&n, &c), "2nd");
    c.sorting = true;
    assert_eq!(render_one_number(&n, &c), "0000000002");
}

#[test]
fn number_text_value_written_verbatim() {
    let mut c = ctx();
    c.entry.numbers = vec![(NumberVariable::Other(3), NumberValue::Text(cs("IV")))];
    let n = number_elem(NumberVariable::Other(3), NumberForm::Numeric);
    assert_eq!(render_one_number(&n, &c), "IV");
}

#[test]
fn citation_number_is_tagged() {
    let mut c = ctx();
    c.entry.numbers =
        vec![(NumberVariable::CitationNumber, NumberValue::Typed(Numeric { start: 7, end: None }))];
    let n = number_elem(NumberVariable::CitationNumber, NumberForm::Numeric);
    let mut out = Output::new();
    render_number(&n, &c, &mut out);
    assert_eq!(text_of(&out), "7");
    assert!(out.annots.iter().any(|a| a.kind
        == Annot::Meta(citeproc_core::style::ElemMeta::CitationNumber)
        && a.start == 0
        && a.end == 1));
}

fn choose_of(branches: Vec<ChooseBranch>, otherwise: Option<Vec<Element>>) -> Element {
    Element::Choose(Choose { branches, otherwise, delimiter: None })
}

#[test]
fn choose_falls_back_to_otherwise() {
    let c = ctx();
    let ch = choose_of(
        vec![
            branch(type_is(2), ChooseMatch::All, vec![value("two")]),
            branch(type_is(3), ChooseMatch::Any, vec![value("three")]),
        ],
        Some(vec![value("other")]),
    );
    assert_eq!(render(vec![ch], &c), "other");
}

#[test]
fn choose_without_match_or_fallback_writes_nothing() {
    let c = ctx();
    let ch = choose_of(
        vec![
            branch(type_is(2), ChooseMatch::All, vec![value("two")]),
            branch(type_is(3), ChooseMatch::All, vec![value("three")]),
        ],
        None,
    );
    let mut out = Output::new();
    out.push_str(&cs("before"));
    render_element(&ch, &c, &mut out, 8);
    assert_eq!(text_of(&out), "before");
    assert!(out.annots.is_empty());
}

#[test]
fn choose_takes_first_matching_branch() {
    let c = ctx();
    let ch = choose_of(
        vec![
            branch(type_is(2), ChooseMatch::All, vec![value("two")]),
            branch(type_is(1), ChooseMatch::All, vec![value("one")]),
            branch(no_conditions(), ChooseMatch::All, vec![value("any")]),
        ],
        Some(vec![value("other")]),
    );
    assert_eq!(render(vec![ch], &c), "one");
}

#[test]
fn choose_nothing_mode_and_variable_test() {
    let mut c = ctx();
    c.entry.standard = vec![(StandardVariable::Other(1), cs("   "))];
    let blank = Conditions {
        variable: Some(vec![Variable::Standard(StandardVariable::Other(1))]),
        ..no_conditions()
    };
    let ch = choose_of(vec![branch(blank, ChooseMatch::Nothing, vec![value("blank")])], None);
    assert_eq!(render(vec![ch], &c), "blank");
}

#[test]
fn label_uses_plural_term_for_ranges() {
    let mut c = ctx();
    c.entry.numbers =
        vec![(NumberVariable::Page, NumberValue::Typed(Numeric { start: 5, end: Some(8) }))];
    c.locale.terms = vec![
        ((Term::Number(NumberVariable::Page), TermForm::Short, false), cs("p.")),
        ((Term::Number(NumberVariable::Page), TermForm::Short, true), cs("pp.")),
    ];
    let l = Label {
        variable: NumberVariable::Page,
        form: TermForm::Short,
        plural: LabelPluralize::Contextual,
        formatting: Formatting::plain(),
        affixes: Affixes { prefix: cs("["), suffix: cs("]") },
        strip_periods: false,
        text_case: None,
    };
    assert_eq!(render(vec![Element::Label(l)], &c), "[pp.]");
}

#[test]
fn label_with_missing_term_writes_nothing() {
    let mut c = ctx();
    c.entry.numbers =
        vec![(NumberVariable::Page, NumberValue::Typed(Numeric { start: 5, end: None }))];
    let l = Label {
        variable: NumberVariable::Page,
        form: TermForm::Long,
        plural: LabelPluralize::Never,
        formatting: Formatting::plain(),
        affixes: Affixes { prefix: cs("("), suffix: cs(")") },
        strip_periods: false,
        text_case: None,
    };
    assert_eq!(render(vec![Element::Label(l)], &c), "");
}

#[test]
fn affixes_vanish_around_empty_content() {
    let c = ctx();
    let t = Element::Text(Text {
        target: TextTarget::Term { term: Term::Other(4), form: TermForm::Long, plural: false },
        formatting: Formatting::plain(),
        affixes: Affixes { prefix: cs("("), suffix: cs(")") },
        quotes: false,
        strip_periods: false,
        text_case: None,
        display: None,
    });
    assert_eq!(render(vec![t], &c), "");
    let empty_macro = Element::Text(Text {
        target: TextTarget::Macro(1),
        formatting: Formatting::plain(),
        affixes: Affixes { prefix: cs("("), suffix: cs(")") },
        quotes: false,
        strip_periods: false,
        text_case: None,
        display: None,
    });
    let mut c2 = ctx();
    c2.macros = vec![Macro { id: 1, children: vec![var(3)] }];
    assert_eq!(render(vec![empty_macro], &c2), "");
}

#[test]
fn strip_periods_drops_full_stops() {
    let c = ctx();
    let t = Element::Text(Text {
        target: TextTarget::Value(cs("e.g. this")),
        formatting: Formatting::plain(),
        affixes: Affixes { prefix: cs("<"), suffix: cs(">") },
        quotes: true,
        strip_periods: true,
        text_case: Some(citeproc_core::style::TextCase::Uppercase),
        display: None,
    });
    let out = render_layout(&layout(vec![t]), &c);
    assert_eq!(text_of(&out), "<eg this>");
    assert!(out.annots.iter().any(|a| a.kind == Annot::Quoted && a.start == 1 && a.end == 8));
}

#[test]
fn doi_is_linked_to_resolver() {
    let mut c = ctx();
    c.entry.standard = vec![(StandardVariable::Doi, cs("10.1/x"))];
    let t = text(TextTarget::Variable(Variable::Standard(StandardVariable::Doi)));
    let out = render_layout(&layout(vec![t]), &c);
    assert_eq!(text_of(&out), "10.1/x");
    assert!(out
        .annots
        .iter()
        .any(|a| a.kind == Annot::Link(cs("https://doi.org/10.1/x"))));
}

#[test]
fn macro_output_keeps_group_alive() {
    let mut c = ctx();
    c.macros = vec![Macro { id: 2, children: vec![value("Anon.")] }];
    let g = group(vec![var(9), text(TextTarget::Macro(2))], Some(" "));
    assert_eq!(render(vec![g], &c), "Anon.");
}

#[test]
fn author_only_renders_macros_alone() {
    let mut c = ctx();
    c.author_only = true;
    c.macros = vec![Macro { id: 2, children: vec![value("Smith")] }];
    assert_eq!(render(vec![value("lit"), text(TextTarget::Macro(2))], &c), "");
    c.author_only = false;
    assert_eq!(render(vec![value("lit"), text(TextTarget::Macro(2))], &c), "litSmith");
}

#[test]
fn self_referencing_macro_stops() {
    let mut c = ctx();
    c.macros = vec![Macro { id: 1, children: vec![value("a"), text(TextTarget::Macro(1))] }];
    let out = render(vec![text(TextTarget::Macro(1))], &c);
    assert!(out.len() > 0);
    assert!(out.chars().all(|ch| ch == 'a'));
}

#[test]
fn roman_and_long_ordinal_forms() {
    let mut c = ordinal_ctx(0, false);
    c.locale.terms.push(((Term::LongOrdinal(2), TermForm::Long, false), cs("second")));
    c.entry.numbers = vec![
        (NumberVariable::Other(1), NumberValue::Typed(Numeric { start: 1994, end: None })),
        (NumberVariable::Other(2), NumberValue::Typed(Numeric { start: 2, end: None })),
        (NumberVariable::Other(3), NumberValue::Typed(Numeric { start: 12, end: None })),
    ];
    let roman = number_elem(NumberVariable::Other(1), NumberForm::Roman);
    assert_eq!(render_one_number(&roman, &c), "mcmxciv");
    let long = number_elem(NumberVariable::Other(2), NumberForm::LongOrdinal);
    assert_eq!(render_one_number(&long, &c), "second");
    let fallback = number_elem(NumberVariable::Other(3), NumberForm::LongOrdinal);
    assert_eq!(render_one_number(&fallback, &c), "12nd");
}

#[test]
fn number_range_and_affixes() {
    let mut c = ctx();
    c.entry.numbers =
        vec![(NumberVariable::Other(4), NumberValue::Typed(Numeric { start: 3, end: Some(4) }))];
    let mut n = number_elem(NumberVariable::Other(4), NumberForm::Numeric);
    n.affixes = Affixes { prefix: cs("vols. "), suffix: cs(";") };
    assert_eq!(render_one_number(&n, &c), "vols. 3-4;");
    let absent = number_elem(NumberVariable::Other(5), NumberForm::Numeric);
    assert_eq!(render_one_number(&absent, &c), "");
}

#[test]
fn group_affixes_surround_joined_children() {
    let mut c = ctx();
    c.entry.standard = vec![
        (StandardVariable::Other(1), cs("A")),
        (StandardVariable::Other(2), cs("B")),
    ];
    let g = Element::Group(Group {
        children: vec![var(1), var(3), var(2)],
        delimiter: Some(cs("; ")),
        formatting: Formatting::plain(),
        affixes: Affixes { prefix: cs("("), suffix: cs(")") },
        display: None,
    });
    assert_eq!(render(vec![g], &c), "(A; B)");
}

#[test]
fn localized_date_form_with_override() {
    let mut c = with_date(2020, Some(4), Some(6));
    c.locale.terms = vec![((Term::Month(4), TermForm::Short, false), cs("May"))];
    c.localized_dates = vec![(
        DateForm::Text,
        date_elem(
            vec![
                part(DatePartForm::Day(DayForm::Numeric)),
                part(DatePartForm::Month(MonthForm::Long)),
                part(DatePartForm::Year(YearForm::Long)),
            ],
            None,
        ),
    )];
    let mut d = date_elem(vec![part(DatePartForm::Month(MonthForm::Short))], Some(" "));
    d.form = Some(DateForm::Text);
    d.parts = Some(citeproc_core::element::DateParts::YearMonth);
    assert_eq!(render_one_date(&d, &c), "May 2020");
}

#[test]
fn implicit_year_suffix_follows_year() {
    let mut c = with_date(1999, Some(0), None);
    c.year_suffix_implicit = true;
    c.entry.standard = vec![(StandardVariable::YearSuffix, cs("a"))];
    let d = date_elem(
        vec![
            part(DatePartForm::Month(MonthForm::Numeric)),
            part(DatePartForm::Year(YearForm::Long)),
        ],
        Some("/"),
    );
    assert_eq!(render_one_date(&d, &c), "1/1999a");
    c.sorting = true;
    assert_eq!(render_one_date(&d, &c), "1999a01");
}

#[test]
fn nested_surviving_group_keeps_parent() {
    let c = ctx();
    let inner = group(vec![value("X")], None);
    let outer = group(vec![inner, var(7)], Some(", "));
    assert_eq!(render(vec![outer], &c), "X");
}

#[test]
fn literal_text_gets_no_tag_and_keeps_case_scope() {
    let c = ctx();
    let t = Element::Text(Text {
        target: TextTarget::Value(cs("ed.")),
        formatting: Formatting::plain(),
        affixes: Affixes { prefix: cs("("), suffix: cs(")") },
        quotes: false,
        strip_periods: false,
        text_case: Some(citeproc_core::style::TextCase::Uppercase),
        display: None,
    });
    let out = render_layout(&layout(vec![t]), &c);
    assert_eq!(text_of(&out), "(ed.)");
    assert!(!out.annots.iter().any(|a| matches!(a.kind, Annot::Meta(_))));
    assert!(out.annots.iter().any(|a| a.kind
        == Annot::Case(citeproc_core::style::TextCase::Uppercase)
        && a.start == 1
        && a.end == 4));
}

#[test]
fn unresolved_text_attaches_nothing() {
    let c = ctx();
    let mut out = Output::new();
    render_element(&var(9), &c, &mut out, 8);
    render_element(&text(TextTarget::Macro(4)), &c, &mut out, 8);
    assert_eq!(text_of(&out), "");
    assert!(out.annots.is_empty());
}

#[test]
fn surviving_group_is_wrapped_in_its_display() {
    let c = ctx();
    let g = Element::Group(Group {
        children: vec![value("X")],
        delimiter: None,
        formatting: Formatting::plain(),
        affixes: Affixes::none(),
        display: Some(citeproc_core::style::Display::Block),
    });
    let out = render_layout(&layout(vec![g]), &c);
    assert!(out.annots.iter().any(|a| a.kind == Annot::Wrap(citeproc_core::style::Display::Block)
        && a.start == 0
        && a.end == 1));
}

#[test]
fn label_term_is_in_its_case_scope() {
    let mut c = ctx();
    c.entry.numbers =
        vec![(NumberVariable::Page, NumberValue::Typed(Numeric { start: 5, end: None }))];
    c.locale.terms = vec![((Term::Number(NumberVariable::Page), TermForm::Long, false), cs("page"))];
    let l = Label {
        variable: NumberVariable::Page,
        form: TermForm::Long,
        plural: LabelPluralize::Contextual,
        formatting: Formatting::plain(),
        affixes: Affixes::none(),
        strip_periods: false,
        text_case: Some(citeproc_core::style::TextCase::CapitalizeFirst),
    };
    let out = render_layout(&layout(vec![Element::Label(l)]), &c);
    assert_eq!(text_of(&out), "page");
    assert!(out.annots.iter().any(|a| a.kind
        == Annot::Case(citeproc_core::style::TextCase::CapitalizeFirst)
        && a.start == 0
        && a.end == 4));
}
