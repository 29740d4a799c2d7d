//! Reading a count from text.
//!
//! A count is written as decimal digits, with an optional `+` in front, and
//! has to fit the machine's word. Nothing else is a count: no sign alone, no
//! blank, no digit outside `0` to `9`.

use vstd::prelude::*;

verus! {

/// Whether `ch` is one of the digits `0` to `9`.
pub open spec fn is_digit(ch: char) -> bool {
    '0' <= ch <= '9'
}

/// The number that the digits `digits` write in base ten.
pub open spec fn decimal_value(digits: Seq<char>) -> nat
    decreases digits.len(),
{
    if digits.len() == 0 {
        0
    } else {
        (10 * decimal_value(digits.drop_last()) + (digits.last() as nat - '0' as nat)) as nat
    }
}

/// The digits of `text`: the text without a leading `+`.
pub open spec fn digits_of(text: Seq<char>) -> Seq<char> {
    if text.len() > 0 && text[0] == '+' {
        text.drop_first()
    } else {
        text
    }
}

/// The count that `text` writes, if it writes one.
pub open spec fn count_of(text: Seq<char>) -> Option<usize> {
    let digits = digits_of(text);
    if digits.len() > 0 && (forall|i: int| 0 <= i < digits.len() ==> is_digit(#[trigger] digits[i]))
        && decimal_value(digits) <= usize::MAX {
        Some(decimal_value(digits) as usize)
    } else {
        None
    }
}

proof fn lemma_decimal_value_grows(digits: Seq<char>, n: int)
    requires
        0 <= n <= digits.len(),
        forall|i: int| 0 <= i < digits.len() ==> is_digit(#[trigger] digits[i]),
    ensures
        decimal_value(digits.take(n)) <= decimal_value(digits),
    decreases digits.len() - n,
{
    if n == digits.len() {
        assert(digits.take(n) =~= digits);
    } else {
        let longer = digits.take(n + 1);
        assert(longer.drop_last() =~= digits.take(n));
        assert(is_digit(digits[n]));
        assert(longer.last() == digits[n]);
        lemma_decimal_value_grows(digits, n + 1);
    }
}

/// Reads a count.
pub fn parse_count(text: &str) -> (count: Option<usize>)
    ensures
        count == count_of(text@),
{
    let ghost digits = digits_of(text@);
    let mut value: usize = 0;
    let ghost mut seen: int = 0;
    let mut any = false;
    let mut first = true;
    for ch in it: text.chars()
        invariant
            it.seq() == text@,
            digits == digits_of(text@),
            first == (it.index() == 0),
            it.index() > 0 ==> seen + (text@.len() - digits.len()) == it.index(),
            it.index() == 0 ==> seen == 0,
            0 <= seen <= digits.len(),
            any == (seen > 0),
            forall|i: int| 0 <= i < seen ==> is_digit(#[trigger] digits[i]),
            value == decimal_value(digits.take(seen)),
    {
        if first && ch == '+' {
            first = false;
        } else {
            first = false;
            assert(digits[seen] == ch);
            if !('0' <= ch && ch <= '9') {
                return None;
            }
            let digit = (ch as u32 - '0' as u32) as usize;
            proof {
                assert(digits.take(seen + 1).drop_last() =~= digits.take(seen));
                assert(digits.take(seen + 1).last() == ch);
                if forall|i: int| 0 <= i < digits.len() ==> is_digit(#[trigger] digits[i]) {
                    lemma_decimal_value_grows(digits, seen + 1);
                }
            }
            let next = match value.checked_mul(10) {
                Some(tens) => tens.checked_add(digit),
                None => None,
            };
            match next {
                Some(next) => {
                    value = next;
                },
                None => {
                    return None;
                },
            }
            any = true;
            proof {
                seen = seen + 1;
            }
        }
    }
    assert(digits.take(seen) =~= digits);
    if any {
        Some(value)
    } else {
        None
    }
}

} // verus!
