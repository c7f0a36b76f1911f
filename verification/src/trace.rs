//! Filter for diagnostic output: a range of polygon numbers, written
//! `start..end`.

use vstd::prelude::*;

verus! {

/// Position of the first `..` at or after `i`.
pub open spec fn dots_from(text: Seq<u8>, i: int) -> Option<int>
    decreases text.len() - i,
{
    if i < 0 || i + 1 >= text.len() {
        None
    } else if text[i] == 0x2E && text[i + 1] == 0x2E {
        Some(i)
    } else {
        dots_from(text, i + 1)
    }
}

pub open spec fn is_digit(c: u8) -> bool {
    0x30 <= c <= 0x39
}

/// The value of some decimal digits.
pub open spec fn digits_value(digits: Seq<u8>) -> int
    decreases digits.len(),
{
    if digits.len() == 0 {
        0
    } else {
        digits_value(digits.drop_last()) * 10 + (digits.last() - 0x30)
    }
}

/// The digits of a number that may carry a plus sign.
pub open spec fn unsigned_part(text: Seq<u8>) -> Seq<u8> {
    if text.len() > 0 && text[0] == 0x2B {
        text.skip(1)
    } else {
        text
    }
}

/// A number: at least one digit, nothing else but a plus sign in front, and
/// small enough for an index.
pub open spec fn number(text: Seq<u8>) -> Option<int> {
    let digits = unsigned_part(text);
    if digits.len() > 0 && (forall|i: int| 0 <= i < digits.len() ==> is_digit(#[trigger] digits[i]))
        && digits_value(digits) <= usize::MAX {
        Some(digits_value(digits))
    } else {
        None
    }
}

/// Whether a polygon number passes the filter. A filter that cannot be read lets
/// everything pass.
pub open spec fn passes(filter: Seq<u8>, index: int) -> bool {
    match dots_from(filter, 0) {
        None => true,
        Some(at) => match (number(filter.take(at)), number(filter.skip(at + 2))) {
            (Some(start), Some(end)) => start <= index < end,
            _ => true,
        },
    }
}

proof fn lemma_value_grows(digits: Seq<u8>, n: int)
    requires
        0 <= n <= digits.len(),
        forall|i: int| 0 <= i < digits.len() ==> is_digit(#[trigger] digits[i]),
    ensures
        0 <= digits_value(digits.take(n)) <= digits_value(digits),
    decreases digits.len(),
{
    if n == digits.len() {
        assert(digits.take(n) =~= digits);
        if digits.len() > 0 {
            lemma_value_grows(digits.drop_last(), digits.len() - 1);
            assert(digits.drop_last().take(digits.len() - 1) =~= digits.drop_last());
        }
    } else {
        lemma_value_grows(digits.drop_last(), n);
        assert(digits.drop_last().take(n) =~= digits.take(n));
    }
}

/// Read a number from the bytes from `from` up to `to`.
fn parse_number(text: &[u8], from: usize, to: usize) -> (r: Option<usize>)
    requires
        from <= to <= text@.len(),
    ensures
        match r {
            Some(v) => number(text@.subrange(from as int, to as int)) == Some(v as int),
            None => number(text@.subrange(from as int, to as int)) is None,
        },
{
    let ghost part = text@.subrange(from as int, to as int);
    let ghost digits = unsigned_part(part);
    let start: usize = if from < to && text[from] == 0x2B {
        from + 1
    } else {
        from
    };
    assert(digits =~= text@.subrange(start as int, to as int));
    if start == to {
        return None;
    }
    let mut value: usize = 0;
    for i in start..to
        invariant
            start < to <= text@.len(),
            digits == text@.subrange(start as int, to as int),
            digits == unsigned_part(part),
            part == text@.subrange(from as int, to as int),
            value == digits_value(digits.take(i - start)),
            forall|k: int| 0 <= k < i - start ==> is_digit(#[trigger] digits[k]),
    {
        let c: u8 = text[i];
        let ghost n = i - start;
        assert(digits[n] == c);
        if c < 0x30 || c > 0x39 {
            assert(!is_digit(digits[n]));
            return None;
        }
        assert(digits.take(n + 1).drop_last() =~= digits.take(n));
        let d: usize = (c - 0x30) as usize;
        if value > (usize::MAX - d) / 10 {
            proof {
                assert(digits_value(digits.take(n + 1)) > usize::MAX);
                if forall|k: int| 0 <= k < digits.len() ==> is_digit(#[trigger] digits[k]) {
                    lemma_value_grows(digits, n + 1);
                }
            }
            return None;
        }
        value = value * 10 + d;
    }
    assert(digits.take(digits.len() as int) =~= digits);
    Some(value)
}

/// Find the first `..`.
fn find_dots(text: &[u8]) -> (r: Option<usize>)
    ensures
        match r {
            Some(at) => dots_from(text@, 0) == Some(at as int) && at + 1 < text@.len(),
            None => dots_from(text@, 0) is None,
        },
{
    let mut i: usize = 0;
    while i < text.len() && text.len() - i >= 2
        invariant
            i <= text@.len(),
            dots_from(text@, 0) == dots_from(text@, i as int),
        decreases text@.len() - i,
    {
        if text[i] == 0x2E && text[i + 1] == 0x2E {
            return Some(i);
        }
        i = i + 1;
    }
    None
}

/// Whether a polygon number passes a filter.
pub fn index_matches(filter: &[u8], index: usize) -> (r: bool)
    ensures
        r == passes(filter@, index as int),
{
    let len: usize = filter.len();
    match find_dots(filter) {
        None => true,
        Some(at) => {
            assert(filter@.take(at as int) =~= filter@.subrange(0, at as int));
            assert(filter@.skip(at + 2) =~= filter@.subrange(at + 2, filter@.len() as int));
            match (parse_number(filter, 0, at), parse_number(filter, at + 2, len)) {
                (Some(start), Some(end)) => start <= index && index < end,
                _ => true,
            }
        },
    }
}

/// Digits and nothing else.
pub open spec fn all_digits(text: Seq<u8>) -> bool {
    forall|i: int| 0 <= i < text.len() ==> is_digit(#[trigger] text[i])
}

proof fn lemma_first_dots(a: Seq<u8>, b: Seq<u8>, i: int)
    requires
        all_digits(a),
        0 <= i <= a.len(),
    ensures
        dots_from(a + seq![0x2Eu8, 0x2Eu8] + b, i) == Some(a.len() as int),
    decreases a.len() - i,
{
    let text = a + seq![0x2Eu8, 0x2Eu8] + b;
    if i < a.len() {
        assert(text[i] == a[i]);
        assert(is_digit(a[i]));
        lemma_first_dots(a, b, i + 1);
    } else {
        assert(text[i] == 0x2E && text[i + 1] == 0x2E);
    }
}

/// Two numbers with two dots between them let the polygon numbers from the first up to
/// but not including the second pass.
pub proof fn law_filter_is_a_range(a: Seq<u8>, b: Seq<u8>, index: int)
    requires
        a.len() > 0,
        b.len() > 0,
        all_digits(a),
        all_digits(b),
        digits_value(a) <= usize::MAX,
        digits_value(b) <= usize::MAX,
    ensures
        passes(a + seq![0x2Eu8, 0x2Eu8] + b, index) == (digits_value(a) <= index < digits_value(b)),
{
    let text = a + seq![0x2Eu8, 0x2Eu8] + b;
    let at = a.len() as int;
    lemma_first_dots(a, b, 0);
    assert(text.take(at) =~= a);
    assert(text.skip(at + 2) =~= b);
    assert(is_digit(a[0]) && is_digit(b[0]));
    assert(unsigned_part(a) == a && unsigned_part(b) == b);
}

/// A digit behind a number makes it ten times as large and adds its own value; digits
/// count from zero, and zeros in front do not matter.
pub proof fn law_decimal_digits(digits: Seq<u8>, d: u8)
    ensures
        digits_value(digits.push(d)) == 10 * digits_value(digits) + (d - 0x30),
        digits_value(seq![0x30u8] + digits) == digits_value(digits),
    decreases digits.len(),
{
    assert(digits.push(d).drop_last() =~= digits);
    let zero = seq![0x30u8] + digits;
    if digits.len() == 0 {
        assert(zero =~= Seq::<u8>::empty().push(0x30u8));
        assert(zero.drop_last() =~= digits);
        assert(digits_value(zero) == digits_value(digits) * 10);
    } else {
        law_decimal_digits(digits.drop_last(), d);
        assert(zero.drop_last() =~= seq![0x30u8] + digits.drop_last());
        assert(zero.last() == digits.last());
    }
}

/// A filter without two dots, or without a number on either side of them, lets every
/// polygon pass.
pub proof fn law_unreadable_filter_passes(filter: Seq<u8>, index: int)
    requires
        forall|i: int| 0 <= i < filter.len() - 1 ==> !(#[trigger] filter[i] == 0x2E && filter[i + 1] == 0x2E),
    ensures
        passes(filter, index),
{
    lemma_no_dots(filter, 0);
}

proof fn lemma_no_dots(text: Seq<u8>, i: int)
    requires
        0 <= i,
        forall|k: int| 0 <= k < text.len() - 1 ==> !(#[trigger] text[k] == 0x2E && text[k + 1] == 0x2E),
    ensures
        dots_from(text, i) is None,
    decreases text.len() - i,
{
    if i + 1 < text.len() {
        lemma_no_dots(text, i + 1);
    }
}

} // verus!
