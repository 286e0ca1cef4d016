use citeproc_core::span::{Location, Offset, Pos, Span, SpanWith, Spanned};

#[test]
fn span_new_and_at() {
    let s = Span::new(Pos(3), Pos(7));
    assert_eq!(s.start, Pos(3));
    assert_eq!(s.end, Pos(7));
    let a = Span::at(Pos(5));
    assert_eq!(a, Span::new(Pos(5), Pos(5)));
}

#[test]
fn span_join_takes_outer_bounds() {
    let a = Span::new(Pos(4), Pos(9));
    let b = Span::new(Pos(2), Pos(6));
    assert_eq!(a.join(b), Span::new(Pos(2), Pos(9)));
    assert_eq!(b.join(a), Span::new(Pos(2), Pos(9)));
}

#[test]
fn span_expand_in_place() {
    let mut a = Span::new(Pos(4), Pos(9));
    a.expand(Span::new(Pos(8), Pos(12)));
    assert_eq!(a, Span::new(Pos(4), Pos(12)));
}

#[test]
fn span_to_range_and_default() {
    assert_eq!(Span::new(Pos(1), Pos(4)).to_range(), 1..4);
    assert_eq!(Span::default(), Span::zero());
    assert_eq!(Span::zero(), Span::new(Pos(0), Pos(0)));
    assert_eq!(Span::from(Pos(6)), Span::at(Pos(6)));
}

#[test]
fn pos_conversions() {
    assert_eq!(Pos(17).to_usize(), 17usize);
    assert_eq!(Pos::from(9u32), Pos(9));
    assert_eq!(Pos::zero(), Pos(0));
    assert_eq!(Pos::from(12i32), Pos(12));
    assert_eq!(Pos::from(40usize), Pos(40));
}

#[test]
fn location_new() {
    let l = Location::new(3, 14);
    assert_eq!(l.line, 3);
    assert_eq!(l.column, 14);
}

#[test]
fn spanned_accessors() {
    let s = Spanned::new(5u8, Span::new(Pos(1), Pos(2)));
    assert_eq!(s.as_ref().v, &5u8);
    assert_eq!(s.value(), 5u8);
    let z = Spanned::zero('x');
    assert_eq!(z.span, Span::zero());
    let m = Spanned::new(2u32, Span::at(Pos(8))).map(|v| v * 10);
    assert_eq!(m.v, 20);
    assert_eq!(m.span, Span::at(Pos(8)));
    let ms = Spanned::new(1u8, Span::at(Pos(1))).map_span(|_| Span::at(Pos(4)));
    assert_eq!(ms.span, Span::at(Pos(4)));
    assert_eq!(ms.v, 1);
    let w = 'q'.span_with(Span::at(Pos(2)));
    assert_eq!(w.v, 'q');
}

#[test]
fn spanned_transpose() {
    let some = Spanned::new(Some(3u8), Span::at(Pos(1))).transpose();
    assert_eq!(some, Some(Spanned::new(3u8, Span::at(Pos(1)))));
    let none: Option<Spanned<u8>> = Spanned::new(None, Span::at(Pos(1))).transpose();
    assert_eq!(none, None);
}

#[test]
fn offsets_shift_every_position() {
    assert_eq!(Pos(3).offset(Pos(4)), Pos(7));
    assert_eq!(Span::new(Pos(1), Pos(2)).offset(Pos(10)), Span::new(Pos(11), Pos(12)));
    let s = Spanned::new('a', Span::new(Pos(0), Pos(1))).offset(Pos(5));
    assert_eq!(s, Spanned::new('a', Span::new(Pos(5), Pos(6))));
    let v = vec![
        Spanned::new(1u8, Span::new(Pos(0), Pos(1))),
        Spanned::new(2u8, Span::new(Pos(2), Pos(3))),
        Spanned::new(3u8, Span::new(Pos(4), Pos(5))),
    ];
    let shifted = v.offset(Pos(100));
    assert_eq!(
        shifted,
        vec![
            Spanned::new(1u8, Span::new(Pos(100), Pos(101))),
            Spanned::new(2u8, Span::new(Pos(102), Pos(103))),
            Spanned::new(3u8, Span::new(Pos(104), Pos(105))),
        ]
    );
}
