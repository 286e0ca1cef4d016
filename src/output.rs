//! The output assembly: a growing text buffer, scoped annotations over it,
//! and provisional regions that are either committed or discarded.

use vstd::prelude::*;
use crate::style::{Affixes, Display, ElemMeta, Formatting, TextCase, formatting_is_empty};

verus! {

/// What an annotation says of the text it covers.
#[derive(Clone, Debug, PartialEq, Eq)]
pub enum Annot {
    Format(Formatting),
    Case(TextCase),
    Quoted,
    Wrap(Display),
    Meta(ElemMeta),
    /// The text links to this address.
    Link(Vec<char>),
}

/// An annotation over the half-open character range `start..end`.
#[derive(Clone, Debug, PartialEq, Eq)]
pub struct Annotation {
    pub start: usize,
    pub end: usize,
    pub kind: Annot,
}

/// Per-group record of which variables were consulted and what survived.
#[derive(Copy, Clone, Debug, PartialEq, Eq, Structural)]
pub struct UsageInfo {
    pub has_vars: bool,
    pub has_non_empty_vars: bool,
    pub has_used_macros: bool,
    pub has_non_empty_group: bool,
}

/// The usage record of a group that has not consulted anything yet.
pub open spec fn fresh_usage() -> UsageInfo {
    UsageInfo {
        has_vars: false,
        has_non_empty_vars: false,
        has_used_macros: false,
        has_non_empty_group: false,
    }
}

/// A handle on a provisional region: the buffer's extent when it was opened.
#[derive(Copy, Clone, Debug, PartialEq, Eq, Structural)]
pub struct Mark {
    pub text_len: usize,
    pub annot_len: usize,
    pub formatting: Formatting,
}

/// Where an element's prefix was written: before it and after it.
#[derive(Copy, Clone, Debug, PartialEq, Eq, Structural)]
pub struct AffixLoc {
    pub before: Mark,
    pub after: usize,
}

/// An open scope (case, formatting, quotes or link) and where it began.
#[derive(Clone, Debug, PartialEq, Eq)]
pub struct Scope {
    pub start: usize,
    pub kind: Option<Annot>,
}

/// `s` without its full stops.
pub open spec fn without_periods(s: Seq<char>) -> Seq<char>
    decreases s.len(),
{
    if s.len() == 0 {
        s
    } else {
        let rest = without_periods(s.drop_last());
        if s.last() == '.' { rest } else { rest.push(s.last()) }
    }
}

/// What writing `s` adds to the buffer, with or without period stripping.
pub open spec fn written(s: Seq<char>, strip: bool) -> Seq<char> {
    if strip { without_periods(s) } else { s }
}

/// The annotations that committing a region over `start..end` attaches.
pub open spec fn commit_tags(
    start: usize,
    end: usize,
    fmt: Formatting,
    display: Option<Display>,
    meta: Option<ElemMeta>,
) -> Seq<Annotation> {
    let f = if formatting_is_empty(fmt) {
        Seq::<Annotation>::empty()
    } else {
        seq![Annotation { start, end, kind: Annot::Format(fmt) }]
    };
    let d = match display {
        Some(d) => seq![Annotation { start, end, kind: Annot::Wrap(d) }],
        None => Seq::<Annotation>::empty(),
    };
    let m = match meta {
        Some(m) => seq![Annotation { start, end, kind: Annot::Meta(m) }],
        None => Seq::<Annotation>::empty(),
    };
    f + d + m
}

/// The formatted output of one render pass.
#[derive(Clone, Debug)]
pub struct Output {
    /// The text written so far.
    pub text: Vec<char>,
    /// Annotations over ranges of `text`, in the order they were attached.
    pub annots: Vec<Annotation>,
    /// One usage record per group being rendered, innermost last.
    pub usage: Vec<UsageInfo>,
    /// Whether writes currently drop full stops.
    pub strip_periods: bool,
}

impl Output {
    /// Every annotation lies within the text.
    pub open spec fn wf(&self) -> bool {
        forall|i: int|
            0 <= i < self.annots@.len() ==> (#[trigger] self.annots@[i]).start
                <= self.annots@[i].end <= self.text@.len()
    }

    /// `m` can still be committed or discarded: nothing before it was erased.
    pub open spec fn valid_mark(&self, m: Mark) -> bool {
        &&& m.text_len <= self.text@.len()
        &&& m.annot_len <= self.annots@.len()
        &&& forall|i: int| 0 <= i < m.annot_len ==> (#[trigger] self.annots@[i]).end <= m.text_len
    }

    /// `self` is `prev` with text and annotations only added at the end and
    /// the same depth of usage records.
    pub open spec fn extends(&self, prev: &Output) -> bool {
        &&& prev.text@.len() <= self.text@.len()
        &&& forall|i: int| 0 <= i < prev.text@.len() ==> #[trigger] self.text@[i] == prev.text@[i]
        &&& prev.annots@.len() <= self.annots@.len()
        &&& forall|i: int|
            0 <= i < prev.annots@.len() ==> #[trigger] self.annots@[i] == prev.annots@[i]
        &&& self.usage@.len() == prev.usage@.len()
    }

    /// An empty buffer with no open group.
    pub fn new() -> (r: Output)
        ensures
            r.wf(),
            r.text@.len() == 0,
            r.annots@.len() == 0,
            r.usage@.len() == 0,
            !r.strip_periods,
    {
        Output { text: Vec::new(), annots: Vec::new(), usage: Vec::new(), strip_periods: false }
    }

    /// The number of characters written.
    pub fn len(&self) -> (r: usize)
        ensures
            r == self.text@.len(),
    {
        self.text.len()
    }

    /// Opens a provisional region that will carry `formatting` if committed.
    pub fn push_elem(&self, formatting: Formatting) -> (m: Mark)
        requires
            self.wf(),
        ensures
            self.valid_mark(m),
            m.text_len == self.text@.len(),
            m.annot_len == self.annots@.len(),
            m.formatting == formatting,
    {
        Mark { text_len: self.text.len(), annot_len: self.annots.len(), formatting }
    }

    /// Whether nothing was written since `m` was opened.
    pub fn is_empty_since(&self, m: Mark) -> (r: bool)
        ensures
            r == (self.text@.len() == m.text_len),
    {
        self.text.len() == m.text_len
    }

    /// Keeps the region opened at `m`, attaching its formatting, display and tag.
    pub fn commit_elem(&mut self, m: Mark, display: Option<Display>, meta: Option<ElemMeta>)
        requires
            old(self).wf(),
            old(self).valid_mark(m),
        ensures
            final(self).wf(),
            final(self).text@ == old(self).text@,
            final(self).annots@ == old(self).annots@ + commit_tags(
                m.text_len,
                old(self).text.len(),
                m.formatting,
                display,
                meta,
            ),
            final(self).usage@ == old(self).usage@,
            final(self).strip_periods == old(self).strip_periods,
            final(self).extends(old(self)),
    {
        let end = self.text.len();
        let ghost a0 = self.annots@;
        if !m.formatting.is_empty() {
            self.annots.push(Annotation { start: m.text_len, end, kind: Annot::Format(m.formatting) });
        }
        let ghost a1 = self.annots@;
        match display {
            Some(d) => {
                self.annots.push(Annotation { start: m.text_len, end, kind: Annot::Wrap(d) });
            },
            None => {},
        }
        let ghost a2 = self.annots@;
        match meta {
            Some(t) => {
                self.annots.push(Annotation { start: m.text_len, end, kind: Annot::Meta(t) });
            },
            None => {},
        }
        assert(self.annots@ =~= a0 + commit_tags(m.text_len, end, m.formatting, display, meta));
    }

    /// Erases everything written since `m` was opened, annotations included.
    pub fn discard_elem(&mut self, m: Mark)
        requires
            old(self).wf(),
            old(self).valid_mark(m),
        ensures
            final(self).wf(),
            final(self).text@ == old(self).text@.subrange(0, m.text_len as int),
            final(self).annots@ == old(self).annots@.subrange(0, m.annot_len as int),
            final(self).usage@ == old(self).usage@,
            final(self).strip_periods == old(self).strip_periods,
    {
        self.text.truncate(m.text_len);
        self.annots.truncate(m.annot_len);
    }

    /// Writes `s`, dropping full stops while period stripping is on.
    pub fn push_str(&mut self, s: &Vec<char>)
        requires
            old(self).wf(),
        ensures
            final(self).wf(),
            final(self).text@ == old(self).text@ + written(s@, old(self).strip_periods),
            final(self).annots@ == old(self).annots@,
            final(self).usage@ == old(self).usage@,
            final(self).strip_periods == old(self).strip_periods,
            final(self).extends(old(self)),
    {
        let ghost t0 = self.text@;
        let mut i: usize = 0;
        while i < s.len()
            invariant
                0 <= i <= s@.len(),
                self.wf(),
                self.text@ == t0 + written(s@.subrange(0, i as int), self.strip_periods),
                self.annots@ == old(self).annots@,
                self.usage@ == old(self).usage@,
                self.strip_periods == old(self).strip_periods,
                t0 == old(self).text@,
            decreases s@.len() - i,
        {
            let c = s[i];
            if !(self.strip_periods && c == '.') {
                self.text.push(c);
            }
            proof {
                assert(s@.subrange(0, i + 1).drop_last() =~= s@.subrange(0, i as int));
            }
            i = i + 1;
            assert(self.text@ =~= t0 + written(s@.subrange(0, i as int), self.strip_periods));
        }
        assert(s@.subrange(0, s@.len() as int) =~= s@);
    }

    /// Writes the prefix and records where content starts.
    pub fn apply_prefix(&mut self, affixes: &Affixes) -> (loc: AffixLoc)
        requires
            old(self).wf(),
        ensures
            final(self).wf(),
            final(self).text@ == old(self).text@ + written(affixes.prefix@, old(self).strip_periods),
            final(self).annots@ == old(self).annots@,
            final(self).usage@ == old(self).usage@,
            final(self).strip_periods == old(self).strip_periods,
            loc.before.text_len == old(self).text@.len(),
            loc.before.annot_len == old(self).annots@.len(),
            loc.after == final(self).text@.len(),
            final(self).valid_mark(loc.before),
            final(self).extends(old(self)),
    {
        let before = self.push_elem(Formatting::plain());
        self.push_str(&affixes.prefix);
        AffixLoc { before, after: self.text.len() }
    }

    /// Writes the suffix if content followed the prefix; otherwise erases the
    /// prefix as well, so that affixes alone never make content non-empty.
    pub fn apply_suffix(&mut self, affixes: &Affixes, loc: AffixLoc)
        requires
            old(self).wf(),
            old(self).valid_mark(loc.before),
            loc.before.text_len <= loc.after <= old(self).text@.len(),
        ensures
            final(self).wf(),
            old(self).text@.len() == loc.after ==> final(self).text@ == old(self).text@.subrange(
                0,
                loc.before.text_len as int,
            ) && final(self).annots@ == old(self).annots@.subrange(
                0,
                loc.before.annot_len as int,
            ),
            old(self).text@.len() != loc.after ==> final(self).text@ == old(self).text@ + written(
                affixes.suffix@,
                old(self).strip_periods,
            ) && final(self).annots@ == old(self).annots@,
            final(self).usage@ == old(self).usage@,
            final(self).strip_periods == old(self).strip_periods,
    {
        if self.text.len() == loc.after {
            self.discard_elem(loc.before);
        } else {
            self.push_str(&affixes.suffix);
        }
    }

    /// Opens a scope that will attach `kind`, if any, to what is written in it.
    fn open_scope(&self, kind: Option<Annot>) -> (s: Scope)
        ensures
            s.start == self.text@.len(),
            s.kind == kind,
    {
        Scope { start: self.text.len(), kind }
    }

    /// Closes a scope, attaching its annotation over what was written in it.
    /// A scope whose start was erased by an enclosing discard attaches
    /// nothing.
    pub fn close_scope(&mut self, s: Scope)
        requires
            old(self).wf(),
        ensures
            final(self).wf(),
            final(self).text@ == old(self).text@,
            final(self).annots@ == match s.kind {
                Some(k) => if s.start <= old(self).text@.len() {
                    old(self).annots@.push(
                        Annotation { start: s.start, end: old(self).text.len(), kind: k },
                    )
                } else {
                    old(self).annots@
                },
                None => old(self).annots@,
            },
            final(self).usage@ == old(self).usage@,
            final(self).strip_periods == old(self).strip_periods,
            final(self).extends(old(self)),
    {
        match s.kind {
            Some(k) => {
                let end = self.text.len();
                if s.start <= end {
                    self.annots.push(Annotation { start: s.start, end, kind: k });
                }
            },
            None => {},
        }
    }

    /// Opens a case-transform scope (none if `case` is `None`).
    pub fn push_case(&self, case: Option<TextCase>) -> (s: Scope)
        ensures
            s.start == self.text@.len(),
            s.kind == match case {
                Some(c) => Some(Annot::Case(c)),
                None => None::<Annot>,
            },
    {
        match case {
            Some(c) => self.open_scope(Some(Annot::Case(c))),
            None => self.open_scope(None),
        }
    }

    /// Opens a formatting scope; empty formatting attaches nothing.
    pub fn push_format(&self, formatting: Formatting) -> (s: Scope)
        ensures
            s.start == self.text@.len(),
            s.kind == if formatting_is_empty(formatting) {
                None::<Annot>
            } else {
                Some(Annot::Format(formatting))
            },
    {
        if formatting.is_empty() {
            self.open_scope(None)
        } else {
            self.open_scope(Some(Annot::Format(formatting)))
        }
    }

    /// Opens a scope whose text links to `url`.
    pub fn push_link(&self, url: Vec<char>) -> (s: Scope)
        ensures
            s.start == self.text@.len(),
            s.kind == Some(Annot::Link(url)),
    {
        self.open_scope(Some(Annot::Link(url)))
    }

    /// Opens a quotation scope.
    pub fn push_quotes(&self) -> (s: Scope)
        ensures
            s.start == self.text@.len(),
            s.kind == Some(Annot::Quoted),
    {
        self.open_scope(Some(Annot::Quoted))
    }

    /// Sets whether the following writes drop full stops.
    pub fn may_strip_periods(&mut self, strip: bool)
        ensures
            final(self).text@ == old(self).text@,
            final(self).annots@ == old(self).annots@,
            final(self).usage@ == old(self).usage@,
            final(self).strip_periods == strip,
            final(self).extends(old(self)),
    {
        self.strip_periods = strip;
    }

    /// Stops dropping full stops.
    pub fn stop_stripping_periods(&mut self)
        ensures
            final(self).text@ == old(self).text@,
            final(self).annots@ == old(self).annots@,
            final(self).usage@ == old(self).usage@,
            !final(self).strip_periods,
            final(self).extends(old(self)),
    {
        self.strip_periods = false;
    }

    /// Opens a fresh usage record for a group.
    pub fn push_usage_info(&mut self)
        ensures
            final(self).text@ == old(self).text@,
            final(self).annots@ == old(self).annots@,
            final(self).usage@ == old(self).usage@.push(fresh_usage()),
            final(self).strip_periods == old(self).strip_periods,
    {
        self.usage.push(
            UsageInfo {
                has_vars: false,
                has_non_empty_vars: false,
                has_used_macros: false,
                has_non_empty_group: false,
            },
        );
    }

    /// Closes the innermost usage record and returns it.
    pub fn pop_usage_info(&mut self) -> (info: UsageInfo)
        requires
            old(self).usage@.len() > 0,
        ensures
            final(self).text@ == old(self).text@,
            final(self).annots@ == old(self).annots@,
            final(self).usage@ == old(self).usage@.drop_last(),
            info == old(self).usage@.last(),
            final(self).strip_periods == old(self).strip_periods,
    {
        self.usage.pop().unwrap()
    }

    /// Replaces the innermost usage record, if a group is open.
    fn update_usage(&mut self, info: UsageInfo)
        ensures
            final(self).text@ == old(self).text@,
            final(self).annots@ == old(self).annots@,
            old(self).usage@.len() > 0 ==> final(self).usage@ == old(self).usage@.update(
                old(self).usage@.len() - 1,
                info,
            ),
            old(self).usage@.len() == 0 ==> final(self).usage@ == old(self).usage@,
            final(self).strip_periods == old(self).strip_periods,
    {
        if self.usage.len() > 0 {
            let _ = self.usage.pop();
            self.usage.push(info);
        }
    }

    /// The innermost usage record, or a fresh one outside any group.
    fn current_usage(&self) -> (r: UsageInfo)
        ensures
            self.usage@.len() > 0 ==> r == self.usage@.last(),
    {
        if self.usage.len() > 0 {
            self.usage[self.usage.len() - 1]
        } else {
            UsageInfo {
                has_vars: false,
                has_non_empty_vars: false,
                has_used_macros: false,
                has_non_empty_group: false,
            }
        }
    }

    /// Records that a variable was consulted, and whether it held a value.
    pub fn record_variable(&mut self, non_empty: bool)
        ensures
            final(self).text@ == old(self).text@,
            final(self).annots@ == old(self).annots@,
            final(self).usage@.len() == old(self).usage@.len(),
            old(self).usage@.len() > 0 ==> final(self).usage@ == old(self).usage@.update(
                old(self).usage@.len() - 1,
                UsageInfo {
                    has_vars: true,
                    has_non_empty_vars: old(self).usage@.last().has_non_empty_vars || non_empty,
                    ..old(self).usage@.last()
                },
            ),
            final(self).strip_periods == old(self).strip_periods,
            final(self).extends(old(self)),
    {
        let cur = self.current_usage();
        self.update_usage(
            UsageInfo { has_vars: true, has_non_empty_vars: cur.has_non_empty_vars || non_empty, ..cur },
        );
    }

    /// Records that a macro printed something.
    pub fn printed_non_empty_macro(&mut self)
        ensures
            final(self).text@ == old(self).text@,
            final(self).annots@ == old(self).annots@,
            final(self).usage@.len() == old(self).usage@.len(),
            old(self).usage@.len() > 0 ==> final(self).usage@ == old(self).usage@.update(
                old(self).usage@.len() - 1,
                UsageInfo { has_used_macros: true, ..old(self).usage@.last() },
            ),
            final(self).strip_periods == old(self).strip_periods,
            final(self).extends(old(self)),
    {
        let cur = self.current_usage();
        self.update_usage(UsageInfo { has_used_macros: true, ..cur });
    }

    /// Records that a nested group survived.
    pub fn printed_non_empty_group(&mut self)
        ensures
            final(self).text@ == old(self).text@,
            final(self).annots@ == old(self).annots@,
            final(self).usage@.len() == old(self).usage@.len(),
            old(self).usage@.len() > 0 ==> final(self).usage@ == old(self).usage@.update(
                old(self).usage@.len() - 1,
                UsageInfo { has_non_empty_group: true, ..old(self).usage@.last() },
            ),
            final(self).strip_periods == old(self).strip_periods,
            final(self).extends(old(self)),
    {
        let cur = self.current_usage();
        self.update_usage(UsageInfo { has_non_empty_group: true, ..cur });
    }
}

/// Committing with a tag makes that tag, over the committed range, the last
/// annotation.
pub proof fn lemma_commit_tag_last(
    prev: Seq<Annotation>,
    start: usize,
    end: usize,
    fmt: Formatting,
    display: Option<Display>,
    t: ElemMeta,
)
    ensures
        (prev + commit_tags(start, end, fmt, display, Some(t))).len() > prev.len(),
        (prev + commit_tags(start, end, fmt, display, Some(t))).last() == (Annotation {
            start,
            end,
            kind: Annot::Meta(t),
        }),
{
}

/// A mark stays valid while the buffer only grows.
pub proof fn lemma_mark_survives(prev: &Output, next: &Output, m: Mark)
    requires
        prev.valid_mark(m),
        next.extends(prev),
    ensures
        next.valid_mark(m),
{
}

} // verus!
