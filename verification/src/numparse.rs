//! Parsing unsigned 16-bit numbers the way `u16::from_str_radix` does.
use vstd::prelude::*;

verus! {

/// The value of a digit character in the given radix (10 or 16).
pub open spec fn digit_value(c: char, radix: u32) -> Option<u32> {
    let v = c as u32;
    if 0x30 <= v <= 0x39 && v - 0x30 < radix {
        Some((v - 0x30) as u32)
    } else if radix == 16 && 0x61 <= v <= 0x66 {
        Some((v - 0x61 + 10) as u32)
    } else if radix == 16 && 0x41 <= v <= 0x46 {
        Some((v - 0x41 + 10) as u32)
    } else {
        None
    }
}

/// The number the digits spell, or `None` when a character is not a digit.
pub open spec fn digits_value(s: Seq<char>, radix: u32) -> Option<int>
    decreases s.len(),
{
    if s.len() == 0 {
        Some(0)
    } else {
        match (digits_value(s.drop_last(), radix), digit_value(s.last(), radix)) {
            (Some(a), Some(d)) => Some(a * radix + d),
            _ => None,
        }
    }
}

/// What `u16::from_str_radix` accepts: an optional `+` followed by at least
/// one digit, with a value that fits in 16 bits.
pub open spec fn spec_parse_u16(s: Seq<char>, radix: u32) -> Option<u16> {
    let digits = if s.len() > 0 && s[0] == '+' {
        s.drop_first()
    } else {
        s
    };
    if digits.len() == 0 {
        None
    } else {
        match digits_value(digits, radix) {
            Some(v) => if v <= 0xFFFF {
                Some(v as u16)
            } else {
                None
            },
            None => None,
        }
    }
}

proof fn lemma_digits_monotone(s: Seq<char>, radix: u32, k: int)
    requires
        0 <= k <= s.len(),
        radix >= 2,
        digits_value(s, radix) is Some,
    ensures
        digits_value(s.take(k), radix) is Some,
        digits_value(s.take(k), radix).unwrap() <= digits_value(s, radix).unwrap(),
        digits_value(s, radix).unwrap() >= 0,
    decreases s.len(),
{
    if s.len() > 0 {
        lemma_digits_monotone(s.drop_last(), radix, if k < s.len() { k } else { 0 });
        let a = digits_value(s.drop_last(), radix).unwrap();
        assert(a * radix >= a) by (nonlinear_arith)
            requires
                a >= 0,
                radix >= 2,
        ;
        if k < s.len() {
            assert(s.drop_last().take(k) == s.take(k));
        } else {
            assert(s.take(k) == s);
        }
    } else {
        assert(s.take(k) == s);
    }
}

/// Parses an unsigned 16-bit number in radix 10 or 16.
pub fn parse_u16_radix(s: &[char], radix: u32) -> (r: Option<u16>)
    requires
        radix == 10 || radix == 16,
    ensures
        r == spec_parse_u16(s@, radix),
{
    let start: usize = if s.len() > 0 && s[0] == '+' {
        1
    } else {
        0
    };
    let ghost digits = s@.skip(start as int);
    proof {
        if start == 1 {
            assert(digits == s@.drop_first());
        } else {
            assert(digits == s@);
        }
    }
    if s.len() == start {
        return None;
    }
    let mut value: u32 = 0;
    let mut i = start;
    while i < s.len()
        invariant
            start <= i <= s@.len(),
            digits == s@.skip(start as int),
            digits == (if s@.len() > 0 && s@[0] == '+' {
                s@.drop_first()
            } else {
                s@
            }),
            digits.len() > 0,
            radix == 10 || radix == 16,
            value <= 0xFFFF,
            digits_value(digits.take(i - start), radix) == Some(value as int),
        decreases s.len() - i,
    {
        let c = s[i];
        let v = c as u32;
        let d: u32 = if 0x30 <= v && v <= 0x39 && v - 0x30 < radix {
            v - 0x30
        } else if radix == 16 && 0x61 <= v && v <= 0x66 {
            v - 0x61 + 10
        } else if radix == 16 && 0x41 <= v && v <= 0x46 {
            v - 0x41 + 10
        } else {
            proof {
                assert(digits.take(i - start + 1).drop_last() == digits.take(i - start));
                assert(digits.take(i - start + 1).last() == c);
                assert(digits_value(digits.take(i - start + 1), radix) is None);
                if digits_value(digits, radix) is Some {
                    lemma_digits_monotone(digits, radix, i - start + 1);
                }
            }
            return None;
        };
        proof {
            assert(digits.take(i - start + 1).drop_last() == digits.take(i - start));
            assert(digits.take(i - start + 1).last() == c);
        }
        let next = value * radix + d;
        if next > 0xFFFF {
            proof {
                if digits_value(digits, radix) is Some {
                    lemma_digits_monotone(digits, radix, i - start + 1);
                }
            }
            return None;
        }
        value = next;
        i = i + 1;
    }
    assert(digits.take(s@.len() - start) == digits);
    Some(value as u16)
}

} // verus!
