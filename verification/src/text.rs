//! Building blocks for text output: appending to a `String` and decimal numbers.

use vstd::prelude::*;

verus! {

/// `String::push` appends the one character to the end of the string.
pub assume_specification[ String::push ](s: &mut String, c: char)
    ensures
        final(s)@ == old(s)@.push(c),
;

/// The character of a decimal digit.
pub open spec fn digit_char(d: nat) -> char
    recommends
        d < 10,
{
    if d == 0 {
        '0'
    } else if d == 1 {
        '1'
    } else if d == 2 {
        '2'
    } else if d == 3 {
        '3'
    } else if d == 4 {
        '4'
    } else if d == 5 {
        '5'
    } else if d == 6 {
        '6'
    } else if d == 7 {
        '7'
    } else if d == 8 {
        '8'
    } else {
        '9'
    }
}

/// The decimal numeral of `n`, without sign and without leading zeros.
pub open spec fn decimal(n: nat) -> Seq<char>
    decreases n,
{
    if n < 10 {
        seq![digit_char(n)]
    } else {
        decimal(n / 10).push(digit_char(n % 10))
    }
}

fn digit(d: u64) -> (c: char)
    requires
        d < 10,
    ensures
        c == digit_char(d as nat),
{
    if d == 0 {
        '0'
    } else if d == 1 {
        '1'
    } else if d == 2 {
        '2'
    } else if d == 3 {
        '3'
    } else if d == 4 {
        '4'
    } else if d == 5 {
        '5'
    } else if d == 6 {
        '6'
    } else if d == 7 {
        '7'
    } else if d == 8 {
        '8'
    } else {
        '9'
    }
}

/// Appends the decimal numeral of `n` to `out`.
pub fn push_decimal(out: &mut String, n: u64)
    ensures
        final(out)@ == old(out)@ + decimal(n as nat),
    decreases n,
{
    if n >= 10 {
        push_decimal(out, n / 10);
    }
    out.push(digit(n % 10));
}

/// The decimal numeral of `n` as a string of its own.
pub fn decimal_string(n: u64) -> (s: String)
    ensures
        s@ == decimal(n as nat),
{
    let mut s = String::new();
    push_decimal(&mut s, n);
    s
}

/// Appending two texts one after the other appends their concatenation.
pub proof fn lemma_append2<T>(d: Seq<T>, a: Seq<T>, b: Seq<T>)
    ensures
        (d + a) + b == d + (a + b),
{
    assert((d + a) + b =~= d + (a + b));
}

/// Appending three texts one after the other appends their concatenation.
pub proof fn lemma_append3<T>(d: Seq<T>, a: Seq<T>, b: Seq<T>, c: Seq<T>)
    ensures
        ((d + a) + b) + c == d + (a + b + c),
{
    assert(((d + a) + b) + c =~= d + (a + b + c));
}

/// Appending four texts one after the other appends their concatenation.
pub proof fn lemma_append4<T>(d: Seq<T>, a: Seq<T>, b: Seq<T>, c: Seq<T>, e: Seq<T>)
    ensures
        (((d + a) + b) + c) + e == d + (a + b + c + e),
{
    assert((((d + a) + b) + c) + e =~= d + (a + b + c + e));
}

/// Appending five texts one after the other appends their concatenation.
pub proof fn lemma_append5<T>(d: Seq<T>, a: Seq<T>, b: Seq<T>, c: Seq<T>, e: Seq<T>, f: Seq<T>)
    ensures
        ((((d + a) + b) + c) + e) + f == d + (a + b + c + e + f),
{
    assert(((((d + a) + b) + c) + e) + f =~= d + (a + b + c + e + f));
}

/// Appending nothing changes nothing.
pub proof fn lemma_append_empty<T>(d: Seq<T>)
    ensures
        d + Seq::<T>::empty() == d,
        Seq::<T>::empty() + d == d,
{
    assert(d + Seq::<T>::empty() =~= d);
    assert(Seq::<T>::empty() + d =~= d);
}

/// Whether two strings hold the same characters.
pub fn str_eq(a: &str, b: &str) -> (eq: bool)
    ensures
        eq == (a@ == b@),
{
    let x = a.to_owned();
    let y = b.to_owned();
    x == y
}

} // verus!
