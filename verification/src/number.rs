//! Classification and parsing of numeric-literal text.
//!
//! A literal is first read as a plain decimal: digits with at most one dot.
//! A decimal with no nonzero fraction is an `Untyped` integer, one with a
//! nonzero fraction is a `Float`. Anything else is read as an integer under a
//! radix selected by a base marker (`x`, `y`, `z`, `s`, `o`, `b`) after a
//! leading `0`, or under radix 10 when there is no leading `0`.

use vstd::prelude::*;

use crate::token::Number;
use crate::token::NumberParseError;
use crate::token::NumberValue;

verus! {

/// Whether `c` is an ASCII decimal digit.
pub open spec fn is_ascii_digit_char(c: char) -> bool {
    48 <= c as u32 <= 57
}

/// Whether `c` selects a radix when it follows a leading `0`.
pub open spec fn is_base_marker_char(c: char) -> bool {
    c == 'x' || c == 'y' || c == 'z' || c == 's' || c == 'o' || c == 'b'
}

/// Whether `c` may appear in a plain decimal literal.
pub open spec fn is_decimal_char(c: char) -> bool {
    is_ascii_digit_char(c) || c == '.'
}

/// The radix selected by the base marker `c`, if it is one.
pub open spec fn marker_radix(c: char) -> Option<u64> {
    if c == 'x' {
        Some(16u64)
    } else if c == 'y' {
        Some(14u64)
    } else if c == 'z' {
        Some(12u64)
    } else if c == 'o' {
        Some(8u64)
    } else if c == 'b' {
        Some(2u64)
    } else if c == 's' {
        Some(13u64)
    } else {
        None
    }
}

/// The value of `c` as a digit under radix `r`: ASCII digits and letters
/// (either case) count, as long as their value is below `r`.
pub open spec fn radix_digit(c: char, r: int) -> Option<u64> {
    let u = c as u32;
    let v: int = if 48 <= u <= 57 {
        u - 48
    } else if 97 <= u <= 122 {
        u - 87
    } else if 65 <= u <= 90 {
        u - 55
    } else {
        -1
    };
    if 0 <= v < r {
        Some(v as u64)
    } else {
        None
    }
}

/// How many times `c` occurs in `s`.
pub open spec fn count_char(s: Seq<char>, c: char) -> int
    decreases s.len(),
{
    if s.len() == 0 {
        0
    } else {
        count_char(s.drop_last(), c) + if s.last() == c {
            1int
        } else {
            0int
        }
    }
}

/// The index of the first `.` in `s`, or `s.len()` if there is none.
pub open spec fn dot_index(s: Seq<char>) -> int
    decreases s.len(),
{
    if s.len() == 0 {
        0
    } else if s[0] == '.' {
        0
    } else {
        1 + dot_index(s.drop_first())
    }
}

/// Whether `s` reads as a plain decimal: nonempty, only digits and dots, at
/// most one dot, and at least one digit.
pub open spec fn decimal_syntax(s: Seq<char>) -> bool {
    &&& s.len() > 0
    &&& (forall|k: int| 0 <= k < s.len() ==> is_decimal_char(s[k]))
    &&& count_char(s, '.') <= 1
    &&& (exists|k: int| 0 <= k < s.len() && is_ascii_digit_char(s[k]))
}

/// Whether the fraction of decimal literal `s` has a nonzero digit.
pub open spec fn fraction_nonzero(s: Seq<char>) -> bool {
    exists|k: int| dot_index(s) < k < s.len() && s[k] != '0'
}

/// The value of the ASCII digit string `s` in base 10.
pub open spec fn decimal_value(s: Seq<char>) -> int
    decreases s.len(),
{
    if s.len() == 0 {
        0
    } else {
        decimal_value(s.drop_last()) * 10 + (s.last() as u32 - 48)
    }
}

/// The value of the digit string `s` under radix `r`, counting each invalid
/// digit as 0; meaningful only when `all_radix_digits(s, r)` holds.
pub open spec fn radix_value(s: Seq<char>, r: int) -> int
    decreases s.len(),
{
    if s.len() == 0 {
        0
    } else {
        radix_value(s.drop_last(), r) * r + match radix_digit(s.last(), r) {
            Some(d) => d as int,
            None => 0int,
        }
    }
}

/// Whether every character of `s` is a valid digit under radix `r`.
pub open spec fn all_radix_digits(s: Seq<char>, r: int) -> bool {
    forall|k: int| 0 <= k < s.len() ==> radix_digit(s[k], r) is Some
}

/// `v` clamped into the unsigned 64-bit range.
pub open spec fn clip_u64(v: int) -> u64 {
    if v > u64::MAX {
        u64::MAX
    } else if v < 0 {
        0u64
    } else {
        v as u64
    }
}

/// What integer parsing under radix `r` yields for the digit string `s`:
/// the value, unless `s` is empty, holds a character outside the radix's
/// digit set, or overflows 64 bits.
pub open spec fn radix_result(s: Seq<char>, r: int) -> Result<NumberValue, NumberParseError> {
    if s.len() > 0 && all_radix_digits(s, r) && radix_value(s, r) <= u64::MAX {
        Ok(NumberValue::Integer(radix_value(s, r) as u64))
    } else {
        Err(NumberParseError::InvalidInteger)
    }
}

/// The reading of the literal text `s` as a [`NumberValue`].
///
/// A plain decimal is `Untyped` when its fraction is absent or all zeros
/// (with its integer part clamped to 64 bits) and `Float` otherwise, the
/// float keeping its exact source text. Any other literal is an integer: a
/// leading `0` followed by a second character demands a base marker there
/// (else the base is invalid), and the remaining digits are read under the
/// selected radix, radix 10 when there is no leading `0`.
pub open spec fn number_of_literal(s: Seq<char>) -> Result<NumberValue, NumberParseError> {
    if decimal_syntax(s) {
        if dot_index(s) < s.len() && fraction_nonzero(s) {
            Ok(NumberValue::Float(s))
        } else {
            Ok(NumberValue::Untyped(clip_u64(decimal_value(s.subrange(0, dot_index(s))))))
        }
    } else if s.len() >= 2 && s[0] == '0' {
        match marker_radix(s[1]) {
            Some(r) => radix_result(s.subrange(2, s.len() as int), r as int),
            None => Err(NumberParseError::InvalidBase),
        }
    } else {
        radix_result(s, 10)
    }
}

/// Whether the executable result `r` agrees with the specified result `v`.
pub open spec fn result_matches(
    r: Result<Number, NumberParseError>,
    v: Result<NumberValue, NumberParseError>,
) -> bool {
    match r {
        Ok(n) => v matches Ok(nv) && n@ == nv,
        Err(e) => v matches Err(ev) && e == ev,
    }
}

/// Extending a subrange by one character drops down to the same subrange.
pub(crate) proof fn lemma_subrange_extend(s: Seq<char>, i: int, j: int)
    requires
        0 <= i <= j < s.len(),
    ensures
        s.subrange(i, j + 1).drop_last() == s.subrange(i, j),
        s.subrange(i, j + 1).last() == s[j],
{
    assert(s.subrange(i, j + 1).drop_last() =~= s.subrange(i, j));
}

/// `dot_index` is the position of the first dot, or the length if none.
proof fn lemma_dot_index_at(s: Seq<char>, i: int)
    requires
        0 <= i <= s.len(),
        forall|k: int| 0 <= k < i ==> s[k] != '.',
        i == s.len() || s[i] == '.',
    ensures
        dot_index(s) == i,
    decreases s.len(),
{
    if s.len() == 0 {
    } else if s[0] == '.' {
        assert(i == 0);
    } else {
        assert(i >= 1);
        lemma_dot_index_at(s.drop_first(), i - 1);
    }
}

/// A string of ASCII digits has a nonnegative decimal value.
proof fn lemma_decimal_value_nonneg(s: Seq<char>)
    requires
        forall|k: int| 0 <= k < s.len() ==> is_ascii_digit_char(s[k]),
    ensures
        decimal_value(s) >= 0,
    decreases s.len(),
{
    if s.len() > 0 {
        lemma_decimal_value_nonneg(s.drop_last());
    }
}

/// A digit string under a positive radix has a nonnegative value.
proof fn lemma_radix_value_nonneg(s: Seq<char>, r: int)
    requires
        r >= 1,
    ensures
        radix_value(s, r) >= 0,
    decreases s.len(),
{
    if s.len() > 0 {
        lemma_radix_value_nonneg(s.drop_last(), r);
        let v = radix_value(s.drop_last(), r);
        assert(v * r >= 0) by (nonlinear_arith)
            requires
                v >= 0,
                r >= 1,
        ;
    }
}

/// Whether `c` is an ASCII decimal digit.
pub(crate) fn ascii_digit(c: char) -> (r: bool)
    ensures
        r == is_ascii_digit_char(c),
{
    let u = c as u32;
    48 <= u && u <= 57
}

/// The value of `c` as a digit under radix `r`, as `u64::from_str_radix`
/// counts digits.
fn digit_in_radix(c: char, r: u64) -> (o: Option<u64>)
    requires
        2 <= r <= 36,
    ensures
        o == radix_digit(c, r as int),
{
    let u = c as u32;
    let v: u64 = if 48 <= u && u <= 57 {
        (u - 48) as u64
    } else if 97 <= u && u <= 122 {
        (u - 87) as u64
    } else if 65 <= u && u <= 90 {
        (u - 55) as u64
    } else {
        return None;
    };
    if v < r {
        Some(v)
    } else {
        None
    }
}

/// Reads the digits of `s` from position `from` on under radix `r`.
fn parse_radix(s: &str, from: usize, r: u64) -> (res: Result<Number, NumberParseError>)
    requires
        from <= s@.len(),
        2 <= r <= 36,
    ensures
        result_matches(res, radix_result(s@.subrange(from as int, s@.len() as int), r as int)),
{
    let n = s.unicode_len();
    let ghost t = s@.subrange(from as int, s@.len() as int);
    if from == n {
        return Err(NumberParseError::InvalidInteger);
    }
    let mut value: u64 = 0;
    let mut clipped = false;
    let mut k: usize = from;
    while k < n
        invariant
            from <= k <= n,
            n == s@.len(),
            2 <= r <= 36,
            t == s@.subrange(from as int, s@.len() as int),
            forall|j: int| from <= j < k ==> radix_digit(s@[j], r as int) is Some,
            !clipped ==> value == radix_value(s@.subrange(from as int, k as int), r as int),
            clipped ==> radix_value(s@.subrange(from as int, k as int), r as int) > u64::MAX,
        decreases n - k,
    {
        let c = s.get_char(k);
        let d = match digit_in_radix(c, r) {
            Some(d) => d,
            None => {
                assert(t[k - from] == s@[k as int]);
                return Err(NumberParseError::InvalidInteger);
            },
        };
        proof {
            lemma_subrange_extend(s@, from as int, k as int);
            lemma_radix_value_nonneg(s@.subrange(from as int, k as int), r as int);
        }
        let ghost prev = radix_value(s@.subrange(from as int, k as int), r as int);
        if !clipped {
            match value.checked_mul(r) {
                Some(v1) => match v1.checked_add(d) {
                    Some(v2) => {
                        value = v2;
                    },
                    None => {
                        clipped = true;
                    },
                },
                None => {
                    clipped = true;
                },
            }
        } else {
            proof {
                assert(prev * (r as int) >= prev) by (nonlinear_arith)
                    requires
                        prev >= 0,
                        r >= 1,
                ;
            }
        }
        k += 1;
    }
    proof {
        assert(s@.subrange(from as int, k as int) == t);
    }
    if clipped {
        Err(NumberParseError::InvalidInteger)
    } else {
        Ok(Number::Integer(value))
    }
}

impl Number {
    /// Classifies and parses the literal text `s`, as
    /// [`number_of_literal`] specifies.
    pub fn from_str(s: &str) -> (res: Result<Number, NumberParseError>)
        ensures
            result_matches(res, number_of_literal(s@)),
    {
        let n = s.unicode_len();
        let mut i: usize = 0;
        let mut dots: usize = 0;
        let mut dot_at: usize = n;
        let mut all_dec = true;
        let mut has_digit = false;
        while i < n
            invariant
                0 <= i <= n,
                n == s@.len(),
                all_dec == (forall|k: int| 0 <= k < i ==> is_decimal_char(s@[k])),
                has_digit == (exists|k: int| 0 <= k < i && is_ascii_digit_char(s@[k])),
                dots == count_char(s@.subrange(0, i as int), '.'),
                dots <= i,
                dots == 0 ==> dot_at == n && (forall|k: int| 0 <= k < i ==> s@[k] != '.'),
                dots > 0 ==> dot_at < i && s@[dot_at as int] == '.' && (forall|k: int|
                    0 <= k < dot_at ==> s@[k] != '.'),
            decreases n - i,
        {
            let c = s.get_char(i);
            proof {
                lemma_subrange_extend(s@, 0, i as int);
            }
            if ascii_digit(c) {
                has_digit = true;
            } else if c == '.' {
                if dots == 0 {
                    dot_at = i;
                }
                dots = dots + 1;
            } else {
                all_dec = false;
            }
            i += 1;
        }
        proof {
            assert(s@.subrange(0, n as int) == s@);
        }
        if n > 0 && all_dec && dots <= 1 && has_digit {
            proof {
                lemma_dot_index_at(s@, dot_at as int);
            }
            if dot_at < n {
                let mut j: usize = dot_at + 1;
                let mut found = false;
                while j < n
                    invariant
                        dot_at < j <= n,
                        n == s@.len(),
                        found == (exists|k: int| dot_at < k < j && s@[k] != '0'),
                    decreases n - j,
                {
                    if s.get_char(j) != '0' {
                        found = true;
                    }
                    j += 1;
                }
                if found {
                    return Ok(Number::Float(String::from_str(s)));
                }
            }
            let ghost ip = s@.subrange(0, dot_at as int);
            assert(forall|k: int| 0 <= k < ip.len() ==> is_ascii_digit_char(#[trigger] ip[k]));
            let mut value: u64 = 0;
            let mut clipped = false;
            let mut k: usize = 0;
            while k < dot_at
                invariant
                    0 <= k <= dot_at <= n,
                    n == s@.len(),
                    forall|j: int| 0 <= j < dot_at ==> is_ascii_digit_char(s@[j]),
                    !clipped ==> value == decimal_value(s@.subrange(0, k as int)),
                    clipped ==> decimal_value(s@.subrange(0, k as int)) > u64::MAX,
                decreases dot_at - k,
            {
                let c = s.get_char(k);
                let d = (c as u32 - 48) as u64;
                proof {
                    lemma_subrange_extend(s@, 0, k as int);
                    lemma_decimal_value_nonneg(s@.subrange(0, k as int));
                }
                let ghost prev = decimal_value(s@.subrange(0, k as int));
                if !clipped {
                    match value.checked_mul(10) {
                        Some(v1) => match v1.checked_add(d) {
                            Some(v2) => {
                                value = v2;
                            },
                            None => {
                                clipped = true;
                            },
                        },
                        None => {
                            clipped = true;
                        },
                    }
                } else {
                    assert(prev * 10 >= prev);
                }
                k += 1;
            }
            if clipped {
                return Ok(Number::Untyped(u64::MAX));
            }
            return Ok(Number::Untyped(value));
        }
        if n >= 2 && s.get_char(0) == '0' {
            let m = s.get_char(1);
            let r: u64 = if m == 'x' {
                16
            } else if m == 'y' {
                14
            } else if m == 'z' {
                12
            } else if m == 'o' {
                8
            } else if m == 'b' {
                2
            } else if m == 's' {
                13
            } else {
                return Err(NumberParseError::InvalidBase);
            };
            parse_radix(s, 2, r)
        } else {
            parse_radix(s, 0, 10)
        }
    }
}

} // verus!
