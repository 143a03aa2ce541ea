//! Parsing decimal TXT property values.
//!
//! A value parses exactly when, after an optional leading `'+'`, it is a
//! non-empty run of decimal digits whose value fits the target width.
//! Anything else — an empty string, a stray character, a value out of
//! range — yields `None`: a malformed property leaves the channel field
//! unset rather than aborting discovery.

use vstd::prelude::*;
use vstd::string::StrSliceExecFns;

verus! {

/// True for the ten decimal digit characters.
pub open spec fn is_digit(c: char) -> bool {
    48 <= c as u32 <= 57
}

/// The numeric value of a digit character.
pub open spec fn digit_val(c: char) -> int {
    c as u32 - 48
}

/// The digits with an optional leading `'+'` removed.
pub open spec fn digits_part(s: Seq<char>) -> Seq<char> {
    if s.len() > 0 && s[0] == '+' {
        s.drop_first()
    } else {
        s
    }
}

/// True when every character is a decimal digit.
pub open spec fn all_digits(s: Seq<char>) -> bool {
    forall|i: int| 0 <= i < s.len() ==> is_digit(#[trigger] s[i])
}

/// The value of a digit run, most significant digit first.
pub open spec fn digits_value(s: Seq<char>) -> int
    decreases s.len(),
{
    if s.len() == 0 {
        0
    } else {
        digits_value(s.drop_last()) * 10 + digit_val(s.last())
    }
}

/// True when `s` parses as an unsigned decimal number no greater than
/// `max`.
pub open spec fn parses_to_u64(s: Seq<char>, max: int) -> bool {
    &&& digits_part(s).len() > 0
    &&& all_digits(digits_part(s))
    &&& digits_value(digits_part(s)) <= max
}

/// What `parse_u64` returns, as a function of the characters.
pub open spec fn spec_parse_u64(s: Seq<char>) -> Option<u64> {
    if parses_to_u64(s, u64::MAX as int) {
        Some(digits_value(digits_part(s)) as u64)
    } else {
        None
    }
}

/// What `parse_u32` returns, as a function of the characters.
pub open spec fn spec_parse_u32(s: Seq<char>) -> Option<u32> {
    if parses_to_u64(s, u32::MAX as int) {
        Some(digits_value(digits_part(s)) as u32)
    } else {
        None
    }
}

/// What `parse_u16` returns, as a function of the characters.
pub open spec fn spec_parse_u16(s: Seq<char>) -> Option<u16> {
    if parses_to_u64(s, u16::MAX as int) {
        Some(digits_value(digits_part(s)) as u16)
    } else {
        None
    }
}

/// A run of digits has a non-negative value.
proof fn lemma_digits_value_nonneg(s: Seq<char>)
    requires
        all_digits(s),
    ensures
        digits_value(s) >= 0,
    decreases s.len(),
{
    if s.len() > 0 {
        assert(all_digits(s.drop_last())) by {
            assert(forall|i: int| 0 <= i < s.len() - 1 ==> s.drop_last()[i] == s[i]);
        }
        lemma_digits_value_nonneg(s.drop_last());
        assert(is_digit(s.last()));
    }
}

/// Extending a run of digits never decreases its value.
proof fn lemma_digits_value_prefix_le(s: Seq<char>, i: int)
    requires
        all_digits(s),
        0 <= i <= s.len(),
    ensures
        digits_value(s.subrange(0, i)) <= digits_value(s),
    decreases s.len() - i,
{
    if i < s.len() {
        let p = s.subrange(0, i);
        let q = s.subrange(0, i + 1);
        assert(q.drop_last() =~= p);
        assert(q.last() == s[i]);
        assert(all_digits(p)) by {
            assert(forall|j: int| 0 <= j < p.len() ==> p[j] == s[j]);
        }
        lemma_digits_value_nonneg(p);
        assert(digits_value(q) == digits_value(p) * 10 + digit_val(s[i]));
        assert(digits_value(p) * 10 >= digits_value(p));
        assert(digit_val(s[i]) >= 0);
        lemma_digits_value_prefix_le(s, i + 1);
        assert(s.subrange(0, s.len() as int) =~= s);
    } else {
        assert(s.subrange(0, s.len() as int) =~= s);
    }
}

/// Parses an unsigned 64-bit decimal number. `None` exactly when the
/// input is empty (after an optional `'+'`), holds a non-digit, or exceeds
/// the width.
pub fn parse_u64(s: &str) -> (r: Option<u64>)
    ensures
        r == spec_parse_u64(s@),
        r is Some <==> parses_to_u64(s@, u64::MAX as int),
        match r {
            Some(v) => v as int == digits_value(digits_part(s@)),
            None => true,
        },
{
    let n: usize = s.unicode_len();
    let start: usize = if n > 0 && s.get_char(0) == '+' {
        1
    } else {
        0
    };
    proof {
        if start == 1 {
            assert(digits_part(s@) =~= s@.subrange(1, n as int));
        } else {
            assert(digits_part(s@) =~= s@.subrange(0, n as int));
            assert(s@.subrange(0, n as int) =~= s@);
        }
    }
    let ghost part = digits_part(s@);
    if start >= n {
        return None;
    }
    let mut acc: u64 = 0;
    let mut i: usize = start;
    while i < n
        invariant
            start <= i <= n,
            n == s@.len(),
            start == 0 || start == 1,
            part == digits_part(s@),
            part =~= s@.subrange(start as int, n as int),
            part.len() == n - start,
            forall|j: int| start <= j < i ==> is_digit(#[trigger] s@[j]),
            acc as int == digits_value(part.subrange(0, i - start)),
        decreases n - i,
    {
        let c: char = s.get_char(i);
        let cv: u32 = c as u32;
        if cv < 48 || cv > 57 {
            proof {
                assert(part[i - start] == s@[i as int]);
                assert(!is_digit(part[i - start]));
            }
            return None;
        }
        let d: u64 = (cv - 48) as u64;
        proof {
            assert(part.subrange(0, i - start + 1).drop_last() =~= part.subrange(0, i - start));
            assert(part.subrange(0, i - start + 1).last() == s@[i as int]);
        }
        if acc > (u64::MAX - d) / 10 {
            proof {
                let j = i - start + 1;
                assert(digits_value(part.subrange(0, j)) == acc * 10 + d);
                assert(acc * 10 + d > u64::MAX) by (nonlinear_arith)
                    requires
                        acc > (u64::MAX - d) / 10,
                        0 <= d <= 9,
                {
                }
                if all_digits(part) {
                    lemma_digits_value_prefix_le(part, j);
                    assert(digits_value(part) > u64::MAX);
                }
            }
            return None;
        }
        proof {
            assert(acc * 10 + d <= u64::MAX) by (nonlinear_arith)
                requires
                    acc <= (u64::MAX - d) / 10,
                    0 <= d <= 9,
            {
            }
        }
        acc = acc * 10 + d;
        i = i + 1;
    }
    proof {
        assert(part.subrange(0, n - start) =~= part);
        assert forall|j: int| 0 <= j < part.len() implies is_digit(#[trigger] part[j]) by {
            assert(part[j] == s@[j + start]);
        }
    }
    Some(acc)
}

/// Parses an unsigned 32-bit decimal number.
pub fn parse_u32(s: &str) -> (r: Option<u32>)
    ensures
        r == spec_parse_u32(s@),
        r is Some <==> parses_to_u64(s@, u32::MAX as int),
        match r {
            Some(v) => v as int == digits_value(digits_part(s@)),
            None => true,
        },
{
    match parse_u64(s) {
        Some(v) => if v <= 0xFFFF_FFFF {
            Some(v as u32)
        } else {
            None
        },
        None => None,
    }
}

/// Parses an unsigned 16-bit decimal number.
pub fn parse_u16(s: &str) -> (r: Option<u16>)
    ensures
        r == spec_parse_u16(s@),
        r is Some <==> parses_to_u64(s@, u16::MAX as int),
        match r {
            Some(v) => v as int == digits_value(digits_part(s@)),
            None => true,
        },
{
    match parse_u64(s) {
        Some(v) => if v <= 0xFFFF {
            Some(v as u16)
        } else {
            None
        },
        None => None,
    }
}

} // verus!
