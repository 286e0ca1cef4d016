//! The rendering-element tree of a style: immutable during a render pass.

use vstd::prelude::*;
use crate::style::{Affixes, Display, Formatting, TextCase};

verus! {

/// A free-text variable.
#[derive(Copy, Clone, Debug, PartialEq, Eq, Structural, Hash)]
pub enum StandardVariable {
    Url,
    Doi,
    Pmid,
    Pmcid,
    YearSuffix,
    /// Any other free-text variable, by its code.
    Other(u16),
}

/// A number variable.
#[derive(Copy, Clone, Debug, PartialEq, Eq, Structural, Hash)]
pub enum NumberVariable {
    Page,
    CitationNumber,
    NumberOfPages,
    NumberOfVolumes,
    /// Any other number variable, by its code.
    Other(u16),
}

/// Whether the variable counts something ("number-of-X").
pub open spec fn is_number_of(v: NumberVariable) -> bool {
    v is NumberOfPages || v is NumberOfVolumes
}

impl NumberVariable {
    /// Whether the variable counts something ("number-of-X").
    pub fn is_number_of_variable(self) -> (r: bool)
        ensures
            r == is_number_of(self),
    {
        match self {
            NumberVariable::NumberOfPages | NumberVariable::NumberOfVolumes => true,
            _ => false,
        }
    }
}

/// A date variable, by its code.
#[derive(Copy, Clone, Debug, PartialEq, Eq, Structural, Hash)]
pub struct DateVariable(pub u16);

/// A name-list variable, by its code.
#[derive(Copy, Clone, Debug, PartialEq, Eq, Structural, Hash)]
pub struct NameVariable(pub u16);

/// A variable of any kind.
#[derive(Copy, Clone, Debug, PartialEq, Eq, Structural, Hash)]
pub enum Variable {
    Standard(StandardVariable),
    Number(NumberVariable),
    Date(DateVariable),
    Name(NameVariable),
}

/// A localized term.
#[derive(Copy, Clone, Debug, PartialEq, Eq, Structural, Hash)]
pub enum Term {
    /// The label of a number variable ("page", "volume").
    Number(NumberVariable),
    /// A month, zero-indexed.
    Month(u8),
    /// The ordinal suffix for numbers that end in the given one or two digits.
    Ordinal(u8),
    /// The ordinal suffix used when no more specific one exists.
    OrdinalDefault,
    /// The ordinal word for a number from one to ten.
    LongOrdinal(u8),
    /// The separator between the ends of a page range.
    PageRangeDelimiter,
    /// Any other term, by its code.
    Other(u16),
}

/// The grammatical form of a term.
#[derive(Copy, Clone, Debug, PartialEq, Eq, Structural, Hash)]
pub enum TermForm {
    Long,
    Short,
    Verb,
    VerbShort,
    Symbol,
}

/// What a text element writes.
#[derive(Clone, Debug)]
pub enum TextTarget {
    Variable(Variable),
    /// A macro, by its identifier.
    Macro(u32),
    Term { term: Term, form: TermForm, plural: bool },
    Value(Vec<char>),
}

/// Writes a variable, a macro's output, a term or a literal.
#[derive(Clone, Debug)]
pub struct Text {
    pub target: TextTarget,
    pub formatting: Formatting,
    pub affixes: Affixes,
    pub quotes: bool,
    pub strip_periods: bool,
    pub text_case: Option<TextCase>,
    pub display: Option<Display>,
}

/// How a number is written.
#[derive(Copy, Clone, Debug, PartialEq, Eq, Structural, Hash)]
pub enum NumberForm {
    Numeric,
    Ordinal,
    /// A word ("first", "second") for one to ten, else as `Ordinal`.
    LongOrdinal,
    /// A lower-case roman numeral for one to 3999, else as `Numeric`.
    Roman,
}

/// Writes a number variable.
#[derive(Clone, Debug)]
pub struct Number {
    pub variable: NumberVariable,
    pub form: NumberForm,
    pub formatting: Formatting,
    pub affixes: Affixes,
    pub text_case: Option<TextCase>,
    pub display: Option<Display>,
}

/// Whether a label's term is plural.
#[derive(Copy, Clone, Debug, PartialEq, Eq, Structural, Hash)]
pub enum LabelPluralize {
    Contextual,
    Always,
    Never,
}

/// Writes the term that labels a number variable.
#[derive(Clone, Debug)]
pub struct Label {
    pub variable: NumberVariable,
    pub form: TermForm,
    pub plural: LabelPluralize,
    pub formatting: Formatting,
    pub affixes: Affixes,
    pub strip_periods: bool,
    pub text_case: Option<TextCase>,
}

/// Forms of a day.
#[derive(Copy, Clone, Debug, PartialEq, Eq, Structural, Hash)]
pub enum DayForm {
    Numeric,
    NumericLeadingZeros,
    Ordinal,
}

/// Forms of a month.
#[derive(Copy, Clone, Debug, PartialEq, Eq, Structural, Hash)]
pub enum MonthForm {
    Long,
    Short,
    Numeric,
    NumericLeadingZeros,
}

/// Forms of a year.
#[derive(Copy, Clone, Debug, PartialEq, Eq, Structural, Hash)]
pub enum YearForm {
    Long,
    Short,
}

/// Which part of a date, and in what form.
#[derive(Copy, Clone, Debug, PartialEq, Eq, Structural, Hash)]
pub enum DatePartForm {
    Day(DayForm),
    Month(MonthForm),
    Year(YearForm),
}

/// The name of a date part, without its form.
#[derive(Copy, Clone, Debug, PartialEq, Eq, Structural, Hash)]
pub enum DatePartName {
    Day,
    Month,
    Year,
}

/// The name of the part that a form belongs to.
pub open spec fn part_name(f: DatePartForm) -> DatePartName {
    match f {
        DatePartForm::Day(_) => DatePartName::Day,
        DatePartForm::Month(_) => DatePartName::Month,
        DatePartForm::Year(_) => DatePartName::Year,
    }
}

/// One part of a date element.
#[derive(Clone, Debug)]
pub struct DatePart {
    pub form: DatePartForm,
    pub formatting: Formatting,
    pub affixes: Affixes,
    pub strip_periods: bool,
    pub text_case: Option<TextCase>,
}

impl DatePart {
    /// The name of this part.
    pub fn name(&self) -> (r: DatePartName)
        ensures
            r == part_name(self.form),
    {
        match self.form {
            DatePartForm::Day(_) => DatePartName::Day,
            DatePartForm::Month(_) => DatePartName::Month,
            DatePartForm::Year(_) => DatePartName::Year,
        }
    }
}

/// Which parts of a date are shown.
#[derive(Copy, Clone, Debug, PartialEq, Eq, Structural, Hash)]
pub enum DateParts {
    Year,
    YearMonth,
    YearMonthDay,
}

/// A localized date form.
#[derive(Copy, Clone, Debug, PartialEq, Eq, Structural, Hash)]
pub enum DateForm {
    Numeric,
    Text,
}

/// Writes a date variable, from its own parts or from a localized form.
#[derive(Clone, Debug)]
pub struct Date {
    pub variable: Option<DateVariable>,
    pub form: Option<DateForm>,
    pub parts: Option<DateParts>,
    pub date_part: Vec<DatePart>,
    pub delimiter: Option<Vec<char>>,
    pub formatting: Formatting,
    pub affixes: Affixes,
    pub text_case: Option<TextCase>,
    pub display: Option<Display>,
}

/// A cite position a branch can test for.
#[derive(Copy, Clone, Debug, PartialEq, Eq, Structural, Hash)]
pub enum TestPosition {
    First,
    Subsequent,
    Ibid,
    IbidWithLocator,
    NearNote,
}

/// The kind of a locator ("page", "chapter"), by its code.
#[derive(Copy, Clone, Debug, PartialEq, Eq, Structural, Hash)]
pub struct Locator(pub u16);

/// The type of an entry ("book", "article"), by its code.
#[derive(Copy, Clone, Debug, PartialEq, Eq, Structural, Hash)]
pub struct EntryKind(pub u16);

/// How a branch combines its tests.
#[derive(Copy, Clone, Debug, PartialEq, Eq, Structural, Hash)]
pub enum ChooseMatch {
    All,
    Any,
    Nothing,
}

/// The tests of one branch; a field that is `None` contributes no test.
#[derive(Clone, Debug)]
pub struct Conditions {
    pub disambiguate: Option<bool>,
    pub is_numeric: Option<Vec<Variable>>,
    pub is_uncertain_date: Option<Vec<DateVariable>>,
    pub locator: Option<Vec<Locator>>,
    pub position: Option<Vec<TestPosition>>,
    pub type_: Option<Vec<EntryKind>>,
    pub variable: Option<Vec<Variable>>,
}

/// A branch of a choose element.
#[derive(Debug)]
pub struct ChooseBranch {
    pub conditions: Conditions,
    pub match_: ChooseMatch,
    pub children: Vec<Element>,
}

/// Renders the children of the first branch whose tests pass.
#[derive(Debug)]
pub struct Choose {
    pub branches: Vec<ChooseBranch>,
    pub otherwise: Option<Vec<Element>>,
    pub delimiter: Option<Vec<char>>,
}

/// Joins its children with a delimiter; vanishes when every variable it
/// consulted was empty.
#[derive(Debug)]
pub struct Group {
    pub children: Vec<Element>,
    pub delimiter: Option<Vec<char>>,
    pub formatting: Formatting,
    pub affixes: Affixes,
    pub display: Option<Display>,
}

/// A rendering element.
#[derive(Debug)]
pub enum Element {
    Text(Text),
    Number(Number),
    Label(Label),
    Date(Date),
    Choose(Choose),
    Group(Group),
}

/// The top-level element sequence of a citation or bibliography.
#[derive(Debug)]
pub struct Layout {
    pub elements: Vec<Element>,
    pub formatting: Formatting,
}

/// A named, reusable subtree.
#[derive(Debug)]
pub struct Macro {
    pub id: u32,
    pub children: Vec<Element>,
}

} // verus!
