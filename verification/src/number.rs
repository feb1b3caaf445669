//! Decimal numbers in configuration text: an optional `+` sign followed by
//! at least one ASCII digit, with no other character before or after.

use vstd::prelude::*;

verus! {

/// Whether `c` is one of the ASCII digits `0` to `9`.
pub open spec fn is_digit(c: char) -> bool {
    0x30 <= c as u32 <= 0x39
}

/// Whether every character of `s` is an ASCII digit.
pub open spec fn all_digits(s: Seq<char>) -> bool {
    forall|i: int| 0 <= i < s.len() ==> is_digit(#[trigger] s[i])
}

/// The number that a sequence of digits writes in base ten.
pub open spec fn digits_value(s: Seq<char>) -> nat
    decreases s.len(),
{
    if s.len() == 0 {
        0
    } else {
        (digits_value(s.drop_last()) * 10 + (s.last() as u32 - 0x30)) as nat
    }
}

/// The digits of a number text: the text without its leading `+`, if any.
pub open spec fn unsigned_part(s: Seq<char>) -> Seq<char> {
    if s.len() > 0 && s[0] == '+' {
        s.skip(1)
    } else {
        s
    }
}

/// The number that `s` writes, if `s` is a well-formed decimal number that
/// is not greater than `max`.
pub open spec fn decimal_spec(s: Seq<char>, max: nat) -> Option<nat> {
    let body = unsigned_part(s);
    if body.len() > 0 && all_digits(body) && digits_value(body) <= max {
        Some(digits_value(body))
    } else {
        None
    }
}

/// Reading more digits never makes the number smaller.
pub proof fn lemma_digits_monotone(s: Seq<char>, k: int)
    requires
        0 <= k <= s.len(),
        all_digits(s),
    ensures
        digits_value(s.take(k)) <= digits_value(s),
    decreases s.len(),
{
    if k < s.len() {
        let shorter = s.drop_last();
        assert(all_digits(shorter)) by {
            assert forall|i: int| 0 <= i < shorter.len() implies is_digit(#[trigger] shorter[i]) by {
                assert(shorter[i] == s[i]);
            }
        }
        lemma_digits_monotone(shorter, k);
        assert(shorter.take(k) =~= s.take(k));
        assert(is_digit(s[s.len() - 1]));
    } else {
        assert(s.take(k) =~= s);
    }
}

/// Reads a decimal number not greater than `max`.
pub fn parse_decimal(s: &Vec<char>, max: u64) -> (r: Option<u64>)
    ensures
        match r {
            Some(n) => decimal_spec(s@, max as nat) == Some(n as nat),
            None => decimal_spec(s@, max as nat).is_none(),
        },
{
    let start: usize = if s.len() > 0 && s[0] == '+' {
        1
    } else {
        0
    };
    let ghost body = unsigned_part(s@);
    if start >= s.len() {
        return None;
    }
    let mut acc: u64 = 0;
    let mut i: usize = start;
    proof {
        assert(body.take(0) =~= Seq::<char>::empty());
    }
    while i < s.len()
        invariant
            start <= i <= s.len(),
            start <= 1,
            body == unsigned_part(s@),
            body.len() == s.len() - start,
            forall|j: int| 0 <= j < body.len() ==> body[j] == s@[j + start],
            all_digits(body.take(i - start)),
            acc == digits_value(body.take(i - start)),
            acc <= max,
        decreases s.len() - i,
    {
        let n: u32 = s[i] as u32;
        let ghost k = i - start;
        proof {
            assert(body.take(k + 1).drop_last() =~= body.take(k));
            assert(body.take(k + 1).last() == s@[i as int]);
        }
        if n < 0x30 || n > 0x39 {
            proof {
                assert(!is_digit(body[k]));
            }
            return None;
        }
        let d: u64 = (n - 0x30) as u64;
        proof {
            assert(all_digits(body.take(k + 1))) by {
                assert forall|j: int| 0 <= j < body.take(k + 1).len() implies is_digit(
                    #[trigger] body.take(k + 1)[j],
                ) by {
                    if j < k {
                        assert(body.take(k)[j] == body.take(k + 1)[j]);
                    }
                }
            }
        }
        if d > max || acc > (max - d) / 10 {
            proof {
                assert(digits_value(body.take(k + 1)) > max);
                if all_digits(body) {
                    lemma_digits_monotone(body, k + 1);
                }
            }
            return None;
        }
        acc = acc * 10 + d;
        i = i + 1;
    }
    proof {
        assert(body.take(i - start) =~= body);
    }
    Some(acc)
}

} // verus!
