//! The read-only inputs of a render pass: the entry's variables, the
//! locale's terms, the macros, and the cite's position.

use vstd::prelude::*;
use crate::element::{
    Date, DateForm, DateVariable, EntryKind, Locator, Macro, NameVariable, NumberVariable,
    StandardVariable, Term, TermForm,
};

verus! {

/// The value of the first pair in `s` whose key is `k`.
pub open spec fn assoc<K, V>(s: Seq<(K, V)>, k: K) -> Option<V>
    decreases s.len(),
{
    if s.len() == 0 {
        None
    } else if s[0].0 == k {
        Some(s[0].1)
    } else {
        assoc(s.drop_first(), k)
    }
}

/// Looking past a pair whose key is not `k` changes nothing; a pair whose
/// key is `k` decides.
pub proof fn lemma_assoc_step<K, V>(s: Seq<(K, V)>, i: int, k: K)
    requires
        0 <= i < s.len(),
    ensures
        s[i].0 == k ==> assoc(s.subrange(i, s.len() as int), k) == Some(s[i].1),
        s[i].0 != k ==> assoc(s.subrange(i, s.len() as int), k) == assoc(
            s.subrange(i + 1, s.len() as int),
            k,
        ),
{
    assert(s.subrange(i, s.len() as int).drop_first() =~= s.subrange(i + 1, s.len() as int));
}

/// A number: a single value or a range.
#[derive(Copy, Clone, Debug, PartialEq, Eq, Structural, Hash)]
pub struct Numeric {
    pub start: u32,
    pub end: Option<u32>,
}

/// Whether a number asks for the plural form of its label.
pub open spec fn numeric_is_plural(n: Numeric, number_of: bool) -> bool {
    if number_of { n.start != 1 } else { n.end is Some }
}

impl Numeric {
    /// Whether the number asks for the plural form of its label: for a
    /// count, any count but one; otherwise a range.
    pub fn is_plural(&self, number_of: bool) -> (r: bool)
        ensures
            r == numeric_is_plural(*self, number_of),
    {
        if number_of {
            self.start != 1
        } else {
            self.end.is_some()
        }
    }
}

/// The value of a number variable: parsed as a number, or kept as text.
#[derive(Clone, Debug, PartialEq, Eq)]
pub enum NumberValue {
    Typed(Numeric),
    Text(Vec<char>),
}

/// A date; month and day are zero-indexed.
#[derive(Copy, Clone, Debug, PartialEq, Eq, Structural, Hash)]
pub struct DateValue {
    pub year: i32,
    pub month: Option<u8>,
    pub day: Option<u8>,
    pub approximate: bool,
}

/// The variables of one bibliographic entry.
#[derive(Clone, Debug)]
pub struct EntryData {
    pub kind: EntryKind,
    pub standard: Vec<(StandardVariable, Vec<char>)>,
    pub numbers: Vec<(NumberVariable, NumberValue)>,
    pub dates: Vec<(DateVariable, DateValue)>,
    /// How many names each name-list variable holds.
    pub names: Vec<(NameVariable, usize)>,
}

/// A locale's terms and options.
#[derive(Clone, Debug)]
pub struct Locale {
    pub terms: Vec<((Term, TermForm, bool), Vec<char>)>,
    /// Whether ordinal day numbers drop their suffix except on day one.
    pub limit_day_ordinals_to_day_1: bool,
}

/// Whether a cite repeats the one before it.
#[derive(Copy, Clone, Debug, PartialEq, Eq, Structural, Hash)]
pub enum IbidState {
    Different,
    Ibid,
    IbidWithLocator,
}

/// Where a cite stands, as tracked before rendering.
#[derive(Copy, Clone, Debug, PartialEq, Eq, Structural, Hash)]
pub struct CiteProps {
    pub is_first: bool,
    pub is_near_note: bool,
    pub ibid: IbidState,
    pub locator: Option<Locator>,
}

/// How to reformat page ranges.
#[derive(Copy, Clone, Debug, PartialEq, Eq, Structural, Hash)]
pub enum PageRangeFormat {
    Chicago15,
    Chicago16,
    Expanded,
    Minimal,
    MinimalTwo,
}

/// Everything a render pass reads.
#[derive(Debug)]
pub struct Context {
    pub entry: EntryData,
    pub locale: Locale,
    pub macros: Vec<Macro>,
    pub localized_dates: Vec<(DateForm, Date)>,
    pub cite: CiteProps,
    /// Render sort keys instead of display text.
    pub sorting: bool,
    /// Render only what macros produce (an author-only cite).
    pub author_only: bool,
    /// The disambiguation verdict for this entry.
    pub disambiguate: bool,
    pub page_range_format: PageRangeFormat,
    /// Whether the year suffix follows each year without its own element.
    pub year_suffix_implicit: bool,
}

/// The children of the first macro with identifier `id`.
pub open spec fn macro_lookup(s: Seq<Macro>, id: u32) -> Option<Seq<crate::element::Element>>
    decreases s.len(),
{
    if s.len() == 0 {
        None
    } else if s[0].id == id {
        Some(s[0].children@)
    } else {
        macro_lookup(s.drop_first(), id)
    }
}

impl Context {
    /// The value of a free-text variable.
    pub open spec fn standard_value(&self, v: StandardVariable) -> Option<Vec<char>> {
        assoc(self.entry.standard@, v)
    }

    /// The value of a number variable.
    pub open spec fn number_value(&self, v: NumberVariable) -> Option<NumberValue> {
        assoc(self.entry.numbers@, v)
    }

    /// The value of a date variable.
    pub open spec fn date_value(&self, v: DateVariable) -> Option<DateValue> {
        assoc(self.entry.dates@, v)
    }

    /// The number of names of a name-list variable.
    pub open spec fn name_count(&self, v: NameVariable) -> Option<usize> {
        assoc(self.entry.names@, v)
    }

    /// The localized text of a term.
    pub open spec fn term_value(&self, t: Term, form: TermForm, plural: bool) -> Option<Vec<char>> {
        assoc(self.locale.terms@, (t, form, plural))
    }

    /// The localized date form of the given kind.
    pub open spec fn localized_date(&self, f: DateForm) -> Option<Date> {
        assoc(self.localized_dates@, f)
    }

    /// Looks up a free-text variable.
    pub fn standard(&self, v: StandardVariable) -> (r: Option<&Vec<char>>)
        ensures
            match r {
                Some(x) => self.standard_value(v) == Some(*x),
                None => self.standard_value(v) is None,
            },
    {
        let s = &self.entry.standard;
        let mut i: usize = 0;
        assert(s@.subrange(0, s@.len() as int) =~= s@);
        while i < s.len()
            invariant
                s@ == self.entry.standard@,
                i <= s@.len(),
                assoc(s@, v) == assoc(s@.subrange(i as int, s@.len() as int), v),
            decreases s@.len() - i,
        {
            proof {
                lemma_assoc_step(s@, i as int, v);
            }
            if s[i].0 == v {
                return Some(&s[i].1);
            }
            i = i + 1;
        }
        assert(s@.subrange(i as int, s@.len() as int) =~= Seq::empty());
        None
    }

    /// Looks up a number variable.
    pub fn number(&self, v: NumberVariable) -> (r: Option<&NumberValue>)
        ensures
            match r {
                Some(x) => self.number_value(v) == Some(*x),
                None => self.number_value(v) is None,
            },
    {
        let s = &self.entry.numbers;
        let mut i: usize = 0;
        assert(s@.subrange(0, s@.len() as int) =~= s@);
        while i < s.len()
            invariant
                s@ == self.entry.numbers@,
                i <= s@.len(),
                assoc(s@, v) == assoc(s@.subrange(i as int, s@.len() as int), v),
            decreases s@.len() - i,
        {
            proof {
                lemma_assoc_step(s@, i as int, v);
            }
            if s[i].0 == v {
                return Some(&s[i].1);
            }
            i = i + 1;
        }
        assert(s@.subrange(i as int, s@.len() as int) =~= Seq::empty());
        None
    }

    /// Looks up a date variable.
    pub fn date(&self, v: DateVariable) -> (r: Option<DateValue>)
        ensures
            r == self.date_value(v),
    {
        let s = &self.entry.dates;
        let mut i: usize = 0;
        assert(s@.subrange(0, s@.len() as int) =~= s@);
        while i < s.len()
            invariant
                s@ == self.entry.dates@,
                i <= s@.len(),
                assoc(s@, v) == assoc(s@.subrange(i as int, s@.len() as int), v),
            decreases s@.len() - i,
        {
            proof {
                lemma_assoc_step(s@, i as int, v);
            }
            if s[i].0 == v {
                return Some(s[i].1);
            }
            i = i + 1;
        }
        assert(s@.subrange(i as int, s@.len() as int) =~= Seq::empty());
        None
    }

    /// Looks up how many names a name-list variable holds.
    pub fn names(&self, v: NameVariable) -> (r: Option<usize>)
        ensures
            r == self.name_count(v),
    {
        let s = &self.entry.names;
        let mut i: usize = 0;
        assert(s@.subrange(0, s@.len() as int) =~= s@);
        while i < s.len()
            invariant
                s@ == self.entry.names@,
                i <= s@.len(),
                assoc(s@, v) == assoc(s@.subrange(i as int, s@.len() as int), v),
            decreases s@.len() - i,
        {
            proof {
                lemma_assoc_step(s@, i as int, v);
            }
            if s[i].0 == v {
                return Some(s[i].1);
            }
            i = i + 1;
        }
        assert(s@.subrange(i as int, s@.len() as int) =~= Seq::empty());
        None
    }

    /// Looks up a term in the given form and number.
    pub fn term(&self, t: Term, form: TermForm, plural: bool) -> (r: Option<&Vec<char>>)
        ensures
            match r {
                Some(x) => self.term_value(t, form, plural) == Some(*x),
                None => self.term_value(t, form, plural) is None,
            },
    {
        let s = &self.locale.terms;
        let k = (t, form, plural);
        let mut i: usize = 0;
        assert(s@.subrange(0, s@.len() as int) =~= s@);
        while i < s.len()
            invariant
                s@ == self.locale.terms@,
                i <= s@.len(),
                k == (t, form, plural),
                assoc(s@, k) == assoc(s@.subrange(i as int, s@.len() as int), k),
            decreases s@.len() - i,
        {
            proof {
                lemma_assoc_step(s@, i as int, k);
            }
            let e = &s[i].0;
            if e.0 == t && e.1 == form && e.2 == plural {
                return Some(&s[i].1);
            }
            i = i + 1;
        }
        assert(s@.subrange(i as int, s@.len() as int) =~= Seq::empty());
        None
    }

    /// Looks up a localized date form.
    pub fn localized(&self, f: DateForm) -> (r: Option<&Date>)
        ensures
            match r {
                Some(x) => self.localized_date(f) == Some(*x),
                None => self.localized_date(f) is None,
            },
    {
        let s = &self.localized_dates;
        let mut i: usize = 0;
        assert(s@.subrange(0, s@.len() as int) =~= s@);
        while i < s.len()
            invariant
                s@ == self.localized_dates@,
                i <= s@.len(),
                assoc(s@, f) == assoc(s@.subrange(i as int, s@.len() as int), f),
            decreases s@.len() - i,
        {
            proof {
                lemma_assoc_step(s@, i as int, f);
            }
            if s[i].0 == f {
                return Some(&s[i].1);
            }
            i = i + 1;
        }
        assert(s@.subrange(i as int, s@.len() as int) =~= Seq::empty());
        None
    }

    /// Looks up a macro by its identifier.
    pub fn get_macro(&self, id: u32) -> (r: Option<&Macro>)
        ensures
            match r {
                Some(m) => macro_lookup(self.macros@, id) == Some(m.children@),
                None => macro_lookup(self.macros@, id) is None,
            },
    {
        let s = &self.macros;
        let mut i: usize = 0;
        assert(s@.subrange(0, s@.len() as int) =~= s@);
        while i < s.len()
            invariant
                s@ == self.macros@,
                i <= s@.len(),
                macro_lookup(s@, id) == macro_lookup(s@.subrange(i as int, s@.len() as int), id),
            decreases s@.len() - i,
        {
            assert(s@.subrange(i as int, s@.len() as int).drop_first() =~= s@.subrange(
                i + 1,
                s@.len() as int,
            ));
            if s[i].id == id {
                return Some(&s[i]);
            }
            i = i + 1;
        }
        assert(s@.subrange(i as int, s@.len() as int) =~= Seq::empty());
        None
    }
}

} // verus!
