use vstd::prelude::*;
use vstd::string::StrSliceExecFns;

verus! {

/// Why a text of decimal digits does not give a number of the wanted type,
/// as the standard library's integer parsing reports it.
#[derive(Debug, Clone, Copy, PartialEq, Eq)]
pub enum NumberError {
    /// The text is empty.
    Empty,
    /// A character is not a decimal digit.
    InvalidDigit,
    /// The number exceeds the largest value of the wanted type.
    TooLarge,
}

/// Whether `c` is one of the characters `0` to `9`.
pub open spec fn is_decimal_digit(c: char) -> bool {
    '0' <= c && c <= '9'
}

/// The value of the decimal digit `c`.
pub open spec fn digit_value(c: char) -> int {
    (c as int) - ('0' as int)
}

/// Reads the first `n` characters of `s` from left to right, as an unsigned
/// integer no greater than `max`, stopping at the first character that is not
/// a digit or at the first digit that makes the value exceed `max`.
pub open spec fn scan_decimal(s: Seq<char>, n: nat, max: u64) -> Result<int, NumberError>
    decreases n,
{
    if n == 0 {
        Ok(0)
    } else {
        match scan_decimal(s, (n - 1) as nat, max) {
            Err(e) => Err(e),
            Ok(v) => if !is_decimal_digit(s[n - 1]) {
                Err(NumberError::InvalidDigit)
            } else if v * 10 + digit_value(s[n - 1]) > max {
                Err(NumberError::TooLarge)
            } else {
                Ok(v * 10 + digit_value(s[n - 1]))
            },
        }
    }
}

/// The number that the decimal text `s` denotes in a type whose largest
/// value is `max`.
pub open spec fn parse_decimal_spec(s: Seq<char>, max: u64) -> Result<int, NumberError> {
    if s.len() == 0 {
        Err(NumberError::Empty)
    } else {
        scan_decimal(s, s.len(), max)
    }
}

proof fn lemma_scan_bounded(s: Seq<char>, n: nat, max: u64)
    ensures
        scan_decimal(s, n, max) matches Ok(v) ==> 0 <= v <= max,
    decreases n,
{
    if n > 0 {
        lemma_scan_bounded(s, (n - 1) as nat, max);
    }
}

/// Parses the decimal digits of an integer literal into an unsigned integer
/// no greater than `max` (the largest value of the wanted integer type).
pub fn parse_decimal(digits: &str, max: u64) -> (r: Result<u64, NumberError>)
    ensures
        match r {
            Ok(v) => parse_decimal_spec(digits@, max) == Ok::<int, NumberError>(v as int),
            Err(e) => parse_decimal_spec(digits@, max) == Err::<int, NumberError>(e),
        },
        r matches Ok(v) ==> v <= max,
{
    let len = digits.unicode_len();
    if len == 0 {
        return Err(NumberError::Empty);
    }
    let mut value: u64 = 0;
    let mut i: usize = 0;
    while i < len
        invariant
            len == digits@.len(),
            0 <= i <= len,
            scan_decimal(digits@, i as nat, max) == Ok::<int, NumberError>(value as int),
            value <= max,
        decreases len - i,
    {
        let c = digits.get_char(i);
        if !('0' <= c && c <= '9') {
            proof {
                assert(scan_decimal(digits@, (i + 1) as nat, max) == Err::<int, NumberError>(
                    NumberError::InvalidDigit,
                ));
                lemma_scan_error_sticks(digits@, (i + 1) as nat, len as nat, max);
            }
            return Err(NumberError::InvalidDigit);
        }
        let d: u64 = ((c as u32) - ('0' as u32)) as u64;
        assert(d as int == digit_value(c));
        if d > max || value > (max - d) / 10 {
            proof {
                if d <= max {
                    assert(value * 10 + d > max) by (nonlinear_arith)
                        requires
                            value > (max - d) / 10,
                            d <= max,
                    ;
                }
                assert(scan_decimal(digits@, (i + 1) as nat, max) == Err::<int, NumberError>(
                    NumberError::TooLarge,
                ));
                lemma_scan_error_sticks(digits@, (i + 1) as nat, len as nat, max);
            }
            return Err(NumberError::TooLarge);
        }
        assert(value * 10 + d <= max) by (nonlinear_arith)
            requires
                value <= (max - d) / 10,
                d <= max,
        ;
        value = value * 10 + d;
        i = i + 1;
    }
    Ok(value)
}

proof fn lemma_scan_error_sticks(s: Seq<char>, n: nat, m: nat, max: u64)
    requires
        n <= m,
        scan_decimal(s, n, max) is Err,
    ensures
        scan_decimal(s, m, max) == scan_decimal(s, n, max),
    decreases m - n,
{
    if n < m {
        lemma_scan_error_sticks(s, n, (m - 1) as nat, max);
    }
}

} // verus!
