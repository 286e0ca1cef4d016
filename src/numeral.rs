//! Decimal numerals: digits of a natural number and zero padding.

use vstd::prelude::*;

verus! {

/// The character of a decimal digit.
pub open spec fn digit_char(d: nat) -> char {
    if d == 0 {
        '0'
    } else if d == 1 {
        '1'
    } else if d == 2 {
        '2'
    } else if d == 3 {
        '3'
    } else if d == 4 {
        '4'
    } else if d == 5 {
        '5'
    } else if d == 6 {
        '6'
    } else if d == 7 {
        '7'
    } else if d == 8 {
        '8'
    } else {
        '9'
    }
}

/// The decimal numeral of `n`, without leading zeros.
pub open spec fn decimal(n: nat) -> Seq<char>
    decreases n,
{
    if n < 10 {
        seq![digit_char(n)]
    } else {
        decimal(n / 10).push(digit_char(n % 10))
    }
}

/// `s` preceded by as many zeros as it takes to reach `width` characters.
pub open spec fn zero_padded(s: Seq<char>, width: nat) -> Seq<char> {
    if s.len() >= width {
        s
    } else {
        Seq::new((width - s.len()) as nat, |i: int| '0') + s
    }
}

/// The decimal numeral of `n`, at least `width` characters wide.
pub open spec fn padded_decimal(n: nat, width: nat) -> Seq<char> {
    zero_padded(decimal(n), width)
}

fn digit(d: u64) -> (c: char)
    requires
        d < 10,
    ensures
        c == digit_char(d as nat),
{
    if d == 0 {
        '0'
    } else if d == 1 {
        '1'
    } else if d == 2 {
        '2'
    } else if d == 3 {
        '3'
    } else if d == 4 {
        '4'
    } else if d == 5 {
        '5'
    } else if d == 6 {
        '6'
    } else if d == 7 {
        '7'
    } else if d == 8 {
        '8'
    } else {
        '9'
    }
}

/// The decimal numeral of `n`.
pub fn decimal_chars(n: u64) -> (r: Vec<char>)
    ensures
        r@ == decimal(n as nat),
    decreases n,
{
    if n < 10 {
        let mut v = Vec::new();
        v.push(digit(n));
        v
    } else {
        let mut v = decimal_chars(n / 10);
        v.push(digit(n % 10));
        v
    }
}

/// The decimal numeral of `n`, zero-padded to `width` characters.
pub fn padded_decimal_chars(n: u64, width: usize) -> (r: Vec<char>)
    ensures
        r@ == padded_decimal(n as nat, width as nat),
{
    let digits = decimal_chars(n);
    if digits.len() >= width {
        return digits;
    }
    let mut r: Vec<char> = Vec::new();
    let pad = width - digits.len();
    while r.len() < pad
        invariant
            r@.len() <= pad,
            forall|i: int| 0 <= i < r@.len() ==> r@[i] == '0',
        decreases pad - r@.len(),
    {
        r.push('0');
    }
    let mut j: usize = 0;
    while j < digits.len()
        invariant
            j <= digits@.len(),
            r@.len() == pad + j,
            forall|i: int| 0 <= i < pad ==> r@[i] == '0',
            forall|i: int| 0 <= i < j ==> r@[pad + i] == digits@[i],
        decreases digits@.len() - j,
    {
        r.push(digits[j]);
        j = j + 1;
    }
    assert(r@ =~= padded_decimal(n as nat, width as nat));
    r
}

/// The lower-case roman numeral of `n`, built greedily from the largest
/// symbols down.
pub open spec fn roman(n: nat) -> Seq<char>
    decreases n,
{
    if n >= 1000 {
        seq!['m'] + roman((n - 1000) as nat)
    } else if n >= 900 {
        seq!['c', 'm'] + roman((n - 900) as nat)
    } else if n >= 500 {
        seq!['d'] + roman((n - 500) as nat)
    } else if n >= 400 {
        seq!['c', 'd'] + roman((n - 400) as nat)
    } else if n >= 100 {
        seq!['c'] + roman((n - 100) as nat)
    } else if n >= 90 {
        seq!['x', 'c'] + roman((n - 90) as nat)
    } else if n >= 50 {
        seq!['l'] + roman((n - 50) as nat)
    } else if n >= 40 {
        seq!['x', 'l'] + roman((n - 40) as nat)
    } else if n >= 10 {
        seq!['x'] + roman((n - 10) as nat)
    } else if n >= 9 {
        seq!['i', 'x'] + roman((n - 9) as nat)
    } else if n >= 5 {
        seq!['v'] + roman((n - 5) as nat)
    } else if n >= 4 {
        seq!['i', 'v'] + roman((n - 4) as nat)
    } else if n >= 1 {
        seq!['i'] + roman((n - 1) as nat)
    } else {
        Seq::empty()
    }
}

/// The lower-case roman numeral of `n`; see `roman`.
pub fn roman_chars(n: u64) -> (r: Vec<char>)
    ensures
        r@ == roman(n as nat),
    decreases n,
{
    let mut r: Vec<char> = Vec::new();
    if n >= 1000 {
        r.push('m');
        let rest = roman_chars(n - 1000);
        append_chars(&mut r, &rest);
    } else if n >= 900 {
        r.push('c');
        r.push('m');
        let rest = roman_chars(n - 900);
        append_chars(&mut r, &rest);
    } else if n >= 500 {
        r.push('d');
        let rest = roman_chars(n - 500);
        append_chars(&mut r, &rest);
    } else if n >= 400 {
        r.push('c');
        r.push('d');
        let rest = roman_chars(n - 400);
        append_chars(&mut r, &rest);
    } else if n >= 100 {
        r.push('c');
        let rest = roman_chars(n - 100);
        append_chars(&mut r, &rest);
    } else if n >= 90 {
        r.push('x');
        r.push('c');
        let rest = roman_chars(n - 90);
        append_chars(&mut r, &rest);
    } else if n >= 50 {
        r.push('l');
        let rest = roman_chars(n - 50);
        append_chars(&mut r, &rest);
    } else if n >= 40 {
        r.push('x');
        r.push('l');
        let rest = roman_chars(n - 40);
        append_chars(&mut r, &rest);
    } else if n >= 10 {
        r.push('x');
        let rest = roman_chars(n - 10);
        append_chars(&mut r, &rest);
    } else if n >= 9 {
        r.push('i');
        r.push('x');
        let rest = roman_chars(n - 9);
        append_chars(&mut r, &rest);
    } else if n >= 5 {
        r.push('v');
        let rest = roman_chars(n - 5);
        append_chars(&mut r, &rest);
    } else if n >= 4 {
        r.push('i');
        r.push('v');
        let rest = roman_chars(n - 4);
        append_chars(&mut r, &rest);
    } else if n >= 1 {
        r.push('i');
        let rest = roman_chars(n - 1);
        append_chars(&mut r, &rest);
    }
    assert(r@ =~= roman(n as nat));
    r
}

/// Appends `s` to `v`.
pub fn append_chars(v: &mut Vec<char>, s: &Vec<char>)
    ensures
        final(v)@ == old(v)@ + s@,
{
    let mut j: usize = 0;
    let ghost v0 = v@;
    while j < s.len()
        invariant
            j <= s@.len(),
            v@ == v0 + s@.subrange(0, j as int),
            v0 == old(v)@,
        decreases s@.len() - j,
    {
        v.push(s[j]);
        j = j + 1;
        assert(v@ =~= v0 + s@.subrange(0, j as int));
    }
    assert(s@.subrange(0, s@.len() as int) =~= s@);
}

} // verus!
