//! Unsigned numbers in positional notation.

use vstd::prelude::*;

verus! {

/// The value of a character as a digit of the radix, if it is one: `0` to
/// `9`, then the letters in either case from ten on.
pub open spec fn digit_of(c: char, radix: u32) -> Option<u32> {
    let code = c as u32;
    let value: u32 = if 48 <= code <= 57 {
        (code - 48) as u32
    } else if 97 <= code <= 122 {
        (code - 97 + 10) as u32
    } else if 65 <= code <= 90 {
        (code - 65 + 10) as u32
    } else {
        36
    };
    if value < radix {
        Some(value)
    } else {
        None
    }
}

/// Every character is a digit of the radix.
pub open spec fn all_digits(digits: Seq<char>, radix: u32) -> bool {
    forall|i: int| 0 <= i < digits.len() ==> digit_of(#[trigger] digits[i], radix) is Some
}

/// The number that a run of digits denotes, most significant digit first.
pub open spec fn value_of(digits: Seq<char>, radix: u32) -> nat
    decreases digits.len(),
{
    if digits.len() == 0 {
        0
    } else {
        let last: nat = match digit_of(digits.last(), radix) {
            Some(value) => value as nat,
            None => 0,
        };
        value_of(digits.drop_last(), radix) * (radix as nat) + last
    }
}

/// A text without the plus sign that may lead it.
pub open spec fn without_plus(text: Seq<char>) -> Seq<char> {
    if text.len() > 0 && text[0] == '+' {
        text.drop_first()
    } else {
        text
    }
}

/// The number that a text denotes: an optional plus sign, then at least one
/// digit, nothing else, and a value that fits 32 bits.
pub open spec fn unsigned_in_radix(text: Seq<char>, radix: u32) -> Option<u32> {
    let digits = without_plus(text);
    if digits.len() > 0 && all_digits(digits, radix) && value_of(digits, radix) <= u32::MAX {
        Some(value_of(digits, radix) as u32)
    } else {
        None
    }
}

/// The digits read so far never denote more than all of them.
pub proof fn lemma_value_grows(digits: Seq<char>, radix: u32, k: int)
    requires
        radix >= 1,
        0 <= k <= digits.len(),
    ensures
        value_of(digits.take(k), radix) <= value_of(digits, radix),
    decreases digits.len(),
{
    if k == digits.len() {
        assert(digits.take(k) =~= digits);
    } else {
        let shorter = digits.drop_last();
        lemma_value_grows(shorter, radix, k);
        assert(shorter.take(k) =~= digits.take(k));
        let high = value_of(shorter, radix);
        assert(high <= high * (radix as nat)) by (nonlinear_arith)
            requires
                radix >= 1,
        ;
    }
}

/// The value of a character as a digit of the radix.
pub fn digit(c: char, radix: u32) -> (value: Option<u32>)
    ensures
        value == digit_of(c, radix),
{
    let code: u32 = c as u32;
    let value: u32 = if 48 <= code && code <= 57 {
        code - 48
    } else if 97 <= code && code <= 122 {
        code - 97 + 10
    } else if 65 <= code && code <= 90 {
        code - 65 + 10
    } else {
        36
    };
    if value < radix {
        Some(value)
    } else {
        None
    }
}

/// Reads the characters from `from` up to `to` as an unsigned number.
pub fn parse_unsigned(chars: &Vec<char>, from: usize, to: usize, radix: u32) -> (number: Option<u32>)
    requires
        from <= to <= chars@.len(),
        2 <= radix <= 36,
    ensures
        number == unsigned_in_radix(chars@.subrange(from as int, to as int), radix),
{
    let ghost text = chars@.subrange(from as int, to as int);
    let start: usize = if from < to && chars[from] == '+' {
        from + 1
    } else {
        from
    };
    let ghost digits = without_plus(text);
    assert(digits =~= chars@.subrange(start as int, to as int));
    if start == to {
        return None;
    }
    let mut total: u64 = 0;
    let mut i: usize = start;
    while i < to
        invariant
            start <= i <= to <= chars@.len(),
            2 <= radix <= 36,
            from <= to,
            digits == chars@.subrange(start as int, to as int),
            digits == without_plus(chars@.subrange(from as int, to as int)),
            digits.len() > 0,
            all_digits(digits.take(i - start), radix),
            total == value_of(digits.take(i - start), radix),
            total <= u32::MAX,
        decreases to - i,
    {
        let ghost read = digits.take(i - start);
        let ghost more = digits.take(i - start + 1);
        proof {
            assert(more.drop_last() =~= read);
            assert(more.last() == chars@[i as int]);
            assert(digits[i - start] == chars@[i as int]);
        }
        match digit(chars[i], radix) {
            None => {
                proof {
                    assert(digit_of(digits[i - start], radix) is None);
                    assert(!all_digits(digits, radix));
                }
                return None;
            },
            Some(value) => {
                assert(total * (radix as u64) <= 0xFFFF_FFFF * 36) by (nonlinear_arith)
                    requires
                        total <= 0xFFFF_FFFF,
                        radix <= 36,
                ;
                let next: u64 = total * (radix as u64) + (value as u64);
                proof {
                    assert(next == value_of(more, radix));
                    assert forall|k: int| 0 <= k < more.len() implies digit_of(
                        #[trigger] more[k],
                        radix,
                    ) is Some by {
                        if k < read.len() {
                            assert(more[k] == read[k]);
                        }
                    }
                }
                if next > 0xFFFF_FFFF {
                    proof {
                        lemma_value_grows(digits, radix, i - start + 1);
                        assert(value_of(digits, radix) >= next);
                    }
                    return None;
                }
                total = next;
            },
        }
        i += 1;
    }
    proof {
        assert(digits.take(to - start) =~= digits);
    }
    Some(total as u32)
}

} // verus!
