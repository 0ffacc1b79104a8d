//! Decimal numbers in option values.

use vstd::prelude::*;

verus! {

/// Whether `c` is one of the ten ASCII decimal digits.
pub open spec fn is_digit(c: char) -> bool {
    '0' <= c <= '9'
}

/// Whether `text` holds decimal digits only.
pub open spec fn all_digits(text: Seq<char>) -> bool {
    forall|i: int| 0 <= i < text.len() ==> is_digit(#[trigger] text[i])
}

/// The number that a sequence of decimal digits writes, most significant
/// digit first. The empty sequence writes 0.
pub open spec fn digits_value(digits: Seq<char>) -> nat
    decreases digits.len(),
{
    if digits.len() == 0 {
        0
    } else {
        (digits_value(digits.drop_last()) * 10 + (digits.last() as nat - '0' as nat)) as nat
    }
}

/// The digits of a numeral: the text without the plus sign that may
/// stand at its start.
pub open spec fn numeral_digits(text: Seq<char>) -> Seq<char> {
    if text.len() > 0 && text[0] == '+' {
        text.drop_first()
    } else {
        text
    }
}

/// Whether `text` is a decimal numeral: at least one digit, with or
/// without a plus sign before the first, and nothing else.
pub open spec fn is_numeral(text: Seq<char>) -> bool {
    numeral_digits(text).len() > 0 && all_digits(numeral_digits(text))
}

/// The positive integer that `text` writes, if it writes one that a
/// `usize` can hold.
pub open spec fn positive_int(text: Seq<char>) -> Option<usize> {
    if is_numeral(text) && 0 < digits_value(numeral_digits(text)) <= usize::MAX {
        Some(digits_value(numeral_digits(text)) as usize)
    } else {
        None
    }
}

/// The value of a sequence of digits is at least the value of each of
/// its beginnings.
pub proof fn lemma_digits_value_grows(digits: Seq<char>, upto: int)
    requires
        all_digits(digits),
        0 <= upto <= digits.len(),
    ensures
        digits_value(digits.take(upto)) <= digits_value(digits),
    decreases digits.len(),
{
    if upto == digits.len() {
        assert(digits.take(upto) == digits);
    } else {
        assert(is_digit(digits.last()));
        lemma_digits_value_grows(digits.drop_last(), upto);
        assert(digits.drop_last().take(upto) == digits.take(upto));
    }
}

/// Reads `val` as a positive integer in decimal notation. The text is
/// accepted if it is a numeral, that is digits with at most a plus sign
/// before them, whose value is greater than 0 and fits the result type.
/// Every other text is handed back as the error.
pub fn parse_positive_int(val: &str) -> (result: Result<usize, String>)
    ensures
        match positive_int(val@) {
            Some(n) => result == Ok::<usize, String>(n),
            None => result is Err && result->Err_0@ == val@,
        },
{
    let ghost digits = numeral_digits(val@);
    let ghost signed: int = if val@.len() > 0 && val@[0] == '+' {
        1
    } else {
        0
    };
    let mut value: usize = 0;
    let ghost mut count: int = 0;
    let mut first = true;
    for c in it: val.chars()
        invariant
            it.seq() == val@,
            digits == numeral_digits(val@),
            signed == (if val@.len() > 0 && val@[0] == '+' {
                1int
            } else {
                0int
            }),
            first == (it.index() == 0),
            !first ==> count == it.index() - signed,
            first ==> count == 0,
            count <= it.index(),
            all_digits(digits.take(count)),
            value == digits_value(digits.take(count)),
    {
        proof {
            assert(c == val@[it.index()]);
            assert(digits.len() == val@.len() - signed);
            if !(first && c == '+') {
                assert(digits[count] == c);
            }
        }
        if first && c == '+' {
            first = false;
        } else if '0' <= c && c <= '9' {
            first = false;
            let digit: usize = (c as u32 - 48) as usize;
            proof {
                let next = digits.take(count + 1);
                assert(next.drop_last() == digits.take(count));
                assert(next.last() == c);
            }
            if value > (usize::MAX - digit) / 10 {
                proof {
                    if all_digits(digits) {
                        lemma_digits_value_grows(digits, count + 1);
                    }
                }
                return Err(val.to_owned());
            }
            value = value * 10 + digit;
            proof {
                count = count + 1;
            }
        } else {
            assert(!is_digit(digits[count]));
            return Err(val.to_owned());
        }
    }
    assert(digits.take(count) == digits);
    if value > 0 {
        Ok(value)
    } else {
        Err(val.to_owned())
    }
}

} // verus!
