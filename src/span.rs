//! Mapping of values to the locations they originate from in source code.

use vstd::prelude::*;

verus! {

/// Annotate a value with a span.
pub trait SpanWith: Sized {
    /// Wraps `self` in a `Spanned` with the given span.
    fn span_with(self, span: Span) -> (r: Spanned<Self>)
        ensures
            r.v == self,
            r.span == span,
    {
        Spanned { v: self, span }
    }
}

impl<T> SpanWith for T {}

/// Span offsetting: shifts every position held in a value by a fixed amount.
pub trait Offset: Sized {
    /// Whether every shifted position still fits in a `u32`.
    spec fn offset_ok(&self, by: Pos) -> bool;

    /// Whether `r` is `self` with all its positions shifted by `by`.
    spec fn is_offset(&self, by: Pos, r: &Self) -> bool;

    /// Offset all spans contained in `Self` by the given position.
    fn offset(self, by: Pos) -> (r: Self)
        requires
            self.offset_ok(by),
        ensures
            self.is_offset(by, &r),
    ;
}

/// Whether a position can be shifted by `by` without leaving `u32`.
pub open spec fn pos_offset_ok(p: Pos, by: Pos) -> bool {
    p.0 + by.0 <= u32::MAX
}

/// Whether both ends of a span can be shifted by `by`.
pub open spec fn span_offset_ok(s: Span, by: Pos) -> bool {
    pos_offset_ok(s.start, by) && pos_offset_ok(s.end, by)
}

/// A span with both ends shifted by `by`.
pub open spec fn span_shifted(s: Span, by: Pos) -> Span {
    Span { start: Pos((s.start.0 + by.0) as u32), end: Pos((s.end.0 + by.0) as u32) }
}

/// A vector of spanned values of type `T`.
pub type SpanVec<T> = Vec<Spanned<T>>;

impl<T> Offset for Vec<Spanned<T>> {
    open spec fn offset_ok(&self, by: Pos) -> bool {
        forall|i: int| 0 <= i < self@.len() ==> span_offset_ok(#[trigger] self@[i].span, by)
    }

    open spec fn is_offset(&self, by: Pos, r: &Self) -> bool {
        &&& r@.len() == self@.len()
        &&& forall|i: int|
            0 <= i < self@.len() ==> (#[trigger] r@[i]).v == self@[i].v && r@[i].span
                == span_shifted(self@[i].span, by)
    }

    fn offset(self, by: Pos) -> (r: Self) {
        let ghost orig = self@;
        let mut src = self;
        let mut rev: Vec<Spanned<T>> = Vec::new();
        while src.len() > 0
            invariant
                src@ == orig.subrange(0, src@.len() as int),
                rev@.len() + src@.len() == orig.len(),
                forall|i: int| 0 <= i < orig.len() ==> span_offset_ok(#[trigger] orig[i].span, by),
                forall|j: int|
                    0 <= j < rev@.len() ==> (#[trigger] rev@[j]).v == orig[orig.len() - 1 - j].v
                        && rev@[j].span == span_shifted(orig[orig.len() - 1 - j].span, by),
            decreases src@.len(),
        {
            let item = src.pop().unwrap();
            let Spanned { v, span } = item;
            let shifted = span.offset(by);
            rev.push(Spanned { v, span: shifted });
        }
        let mut out: Vec<Spanned<T>> = Vec::new();
        while rev.len() > 0
            invariant
                out@.len() + rev@.len() == orig.len(),
                forall|j: int|
                    0 <= j < rev@.len() ==> (#[trigger] rev@[j]).v == orig[orig.len() - 1 - j].v
                        && rev@[j].span == span_shifted(orig[orig.len() - 1 - j].span, by),
                forall|j: int|
                    0 <= j < out@.len() ==> (#[trigger] out@[j]).v == orig[j].v && out@[j].span
                        == span_shifted(orig[j].span, by),
            decreases rev@.len(),
        {
            let item = rev.pop().unwrap();
            out.push(item);
        }
        out
    }
}

/// A value with the span it corresponds to in the source code.
#[derive(Default, Copy, Clone, Debug, Eq, PartialEq, Ord, PartialOrd, Hash)]
pub struct Spanned<T> {
    /// The spanned value.
    pub v: T,
    /// The location in source code of the value.
    pub span: Span,
}

impl<T> Spanned<T> {
    /// Create a new instance from a value and its span.
    pub fn new(v: T, span: Span) -> (r: Spanned<T>)
        ensures
            r.v == v,
            r.span == span,
    {
        Spanned { v, span }
    }

    /// Create a new instance from a value with the zero span.
    pub fn zero(v: T) -> (r: Spanned<T>)
        ensures
            r.v == v,
            r.span == span_zero(),
    {
        Spanned { v, span: Span::zero() }
    }

    /// Access the value.
    pub fn value(self) -> (r: T)
        ensures
            r == self.v,
    {
        self.v
    }

    /// Convert from `&Spanned<T>` to `Spanned<&T>`
    pub fn as_ref(&self) -> (r: Spanned<&T>)
        ensures
            *r.v == self.v,
            r.span == self.span,
    {
        Spanned { v: &self.v, span: self.span }
    }

    /// Map the value using a function while keeping the span.
    pub fn map<U, F: FnOnce(T) -> U>(self, f: F) -> (r: Spanned<U>)
        requires
            f.requires((self.v,)),
        ensures
            f.ensures((self.v,), r.v),
            r.span == self.span,
    {
        let Spanned { v, span } = self;
        Spanned { v: f(v), span }
    }

    /// Maps the span while keeping the value.
    pub fn map_span<F: FnOnce(Span) -> Span>(self, f: F) -> (r: Spanned<T>)
        requires
            f.requires((self.span,)),
        ensures
            f.ensures((self.span,), r.span),
            r.v == self.v,
    {
        let Spanned { v, span } = self;
        Spanned { v, span: f(span) }
    }
}

impl<T> Spanned<Option<T>> {
    /// Swap the spanned and the option.
    pub fn transpose(self) -> (r: Option<Spanned<T>>)
        ensures
            self.v is None ==> r is None,
            self.v is Some ==> r is Some && r->0.v == self.v->0 && r->0.span == self.span,
    {
        let Spanned { v, span } = self;
        match v {
            Some(v) => Some(v.span_with(span)),
            None => None,
        }
    }
}

impl<T> Offset for Spanned<T> {
    open spec fn offset_ok(&self, by: Pos) -> bool {
        span_offset_ok(self.span, by)
    }

    open spec fn is_offset(&self, by: Pos, r: &Self) -> bool {
        r.v == self.v && r.span == span_shifted(self.span, by)
    }

    fn offset(self, by: Pos) -> (r: Self) {
        let Spanned { v, span } = self;
        Spanned { v, span: span.offset(by) }
    }
}

impl Offset for Span {
    open spec fn offset_ok(&self, by: Pos) -> bool {
        span_offset_ok(*self, by)
    }

    open spec fn is_offset(&self, by: Pos, r: &Self) -> bool {
        *r == span_shifted(*self, by)
    }

    fn offset(self, by: Pos) -> (r: Self) {
        Span { start: self.start.offset(by), end: self.end.offset(by) }
    }
}

impl Offset for Pos {
    open spec fn offset_ok(&self, by: Pos) -> bool {
        pos_offset_ok(*self, by)
    }

    open spec fn is_offset(&self, by: Pos, r: &Self) -> bool {
        r.0 == self.0 + by.0
    }

    fn offset(self, by: Pos) -> (r: Self) {
        Pos(self.0 + by.0)
    }
}

/// A byte position in source code.
#[derive(Copy, Clone, Debug, PartialEq, Eq, Structural, PartialOrd, Ord, Hash)]
pub struct Pos(pub u32);

impl Pos {
    /// The zero position.
    pub fn zero() -> (r: Pos)
        ensures
            r.0 == 0,
    {
        Pos(0)
    }

    /// Convert to a usize for indexing.
    pub fn to_usize(self) -> (r: usize)
        ensures
            r as int == self.0 as int,
    {
        self.0 as usize
    }
}

impl From<u32> for Pos {
    fn from(index: u32) -> (r: Pos) {
        Pos(index)
    }
}

impl vstd::std_specs::convert::FromSpecImpl<u32> for Pos {
    open spec fn obeys_from_spec() -> bool {
        true
    }

    open spec fn from_spec(index: u32) -> Pos {
        Pos(index)
    }
}

impl From<i32> for Pos {
    fn from(index: i32) -> (r: Pos) {
        Pos(index as u32)
    }
}

impl vstd::std_specs::convert::FromSpecImpl<i32> for Pos {
    open spec fn obeys_from_spec() -> bool {
        true
    }

    open spec fn from_spec(index: i32) -> Pos {
        Pos(index as u32)
    }
}

impl From<usize> for Pos {
    fn from(index: usize) -> (r: Pos) {
        Pos(index as u32)
    }
}

impl vstd::std_specs::convert::FromSpecImpl<usize> for Pos {
    open spec fn obeys_from_spec() -> bool {
        true
    }

    open spec fn from_spec(index: usize) -> Pos {
        Pos(index as u32)
    }
}

/// Locates a slice of source code.
#[derive(Copy, Clone, Debug, PartialEq, Eq, Structural, PartialOrd, Ord, Hash)]
pub struct Span {
    /// The inclusive start position.
    pub start: Pos,
    /// The inclusive end position.
    pub end: Pos,
}

/// The span that starts and ends at position zero.
pub open spec fn span_zero() -> Span {
    Span { start: Pos(0), end: Pos(0) }
}

/// The smaller of two positions.
pub open spec fn pos_min(a: Pos, b: Pos) -> Pos {
    if a.0 <= b.0 { a } else { b }
}

/// The larger of two positions.
pub open spec fn pos_max(a: Pos, b: Pos) -> Pos {
    if a.0 >= b.0 { a } else { b }
}

/// The span covering both spans: earlier start, later end.
pub open spec fn span_join(a: Span, b: Span) -> Span {
    Span { start: pos_min(a.start, b.start), end: pos_max(a.end, b.end) }
}

impl Span {
    /// The zero span.
    pub fn zero() -> (r: Span)
        ensures
            r == span_zero(),
    {
        Span { start: Pos::zero(), end: Pos::zero() }
    }

    /// Create a new span from start and end positions.
    pub fn new(start: Pos, end: Pos) -> (r: Span)
        ensures
            r.start == start,
            r.end == end,
    {
        Span { start, end }
    }

    /// Create a span including just a single position.
    pub fn at(pos: Pos) -> (r: Span)
        ensures
            r.start == pos,
            r.end == pos,
    {
        Span::new(pos, pos)
    }

    /// Create a new span with the earlier start and later end position.
    pub fn join(self, other: Span) -> (r: Span)
        ensures
            r == span_join(self, other),
    {
        let start = if self.start.0 <= other.start.0 { self.start } else { other.start };
        let end = if self.end.0 >= other.end.0 { self.end } else { other.end };
        Span { start, end }
    }

    /// Expand a span by merging it with another span.
    pub fn expand(&mut self, other: Span)
        ensures
            *final(self) == span_join(*old(self), other),
    {
        *self = self.join(other);
    }

    /// Convert to a `Range<usize>` for indexing.
    pub fn to_range(self) -> (r: std::ops::Range<usize>)
        ensures
            r.start as int == self.start.0 as int,
            r.end as int == self.end.0 as int,
    {
        std::ops::Range { start: self.start.to_usize(), end: self.end.to_usize() }
    }
}

impl Default for Span {
    fn default() -> (r: Span)
        ensures
            r == span_zero(),
    {
        Span::zero()
    }
}

impl From<Pos> for Span {
    fn from(pos: Pos) -> (r: Span) {
        Span::at(pos)
    }
}

impl vstd::std_specs::convert::FromSpecImpl<Pos> for Span {
    open spec fn obeys_from_spec() -> bool {
        true
    }

    open spec fn from_spec(pos: Pos) -> Span {
        Span { start: pos, end: pos }
    }
}

/// A one-indexed line-column position in source code.
#[derive(Copy, Clone, Debug, PartialEq, Eq, Structural, PartialOrd, Ord, Hash)]
pub struct Location {
    /// The one-indexed line.
    pub line: u32,
    /// The one-indexed column.
    pub column: u32,
}

impl Location {
    /// Create a new location from line and column.
    pub fn new(line: u32, column: u32) -> (r: Location)
        ensures
            r.line == line,
            r.column == column,
    {
        Location { line, column }
    }
}

} // verus!
