//! Numbers as text, in a radix between two and sixteen.
use vstd::prelude::*;
use vstd::string::*;

use crate::text::chars_of;

verus! {

/// Why a text is not a number.
#[derive(Debug, Clone, Copy, PartialEq, Eq, Structural)]
pub enum NumberError {
    /// There is no character at all.
    Empty,
    /// A character is not a digit of the radix, or a sign stands alone.
    InvalidDigit,
    /// The value does not fit the type that was asked for.
    TooLarge,
}

impl NumberError {
    /// The error in words.
    pub open spec fn words(self) -> Seq<char> {
        match self {
            NumberError::Empty => "cannot parse integer from empty string"@,
            NumberError::InvalidDigit => "invalid digit found in string"@,
            NumberError::TooLarge => "number too large to fit in target type"@,
        }
    }

    /// The error in words.
    pub fn message(&self) -> (r: &'static str)
        ensures
            r@ == self.words(),
    {
        match self {
            NumberError::Empty => "cannot parse integer from empty string",
            NumberError::InvalidDigit => "invalid digit found in string",
            NumberError::TooLarge => "number too large to fit in target type",
        }
    }
}

/// The digit that stands for `d`, in lower case above nine.
pub open spec fn digit_char(d: int) -> char {
    if d < 10 {
        (48 + d) as char
    } else {
        (87 + d) as char
    }
}

/// The digits of `n`, most significant first, without leading zeros.
pub open spec fn digits(n: nat, radix: nat) -> Seq<char>
    decreases n,
{
    if radix < 2 || n < radix {
        seq![digit_char(n as int)]
    } else {
        proof {
            assert(n / radix < n) by (nonlinear_arith)
                requires
                    n >= radix >= 2,
            ;
        }
        digits(n / radix, radix).push(digit_char((n % radix) as int))
    }
}

/// The decimal digits of `n`.
pub open spec fn decimal(n: int) -> Seq<char> {
    digits(n as nat, 10)
}

/// The octal digits of `n`.
pub open spec fn octal(n: int) -> Seq<char> {
    digits(n as nat, 8)
}

/// The value of a letter or decimal digit in a radix; `None` if it is no digit there.
pub open spec fn digit_value(c: char, radix: int) -> Option<int> {
    let u = c as u32 as int;
    let d = if 48 <= u <= 57 {
        u - 48
    } else if 97 <= u <= 122 {
        u - 87
    } else if 65 <= u <= 90 {
        u - 55
    } else {
        36
    };
    if d < radix {
        Some(d)
    } else {
        None
    }
}

/// The value of a row of digits read from the left, or the first thing that is
/// wrong with it: a character that is no digit, or a value beyond `max`.
pub open spec fn digits_value(s: Seq<char>, radix: int, max: int) -> Result<int, NumberError>
    decreases s.len(),
{
    if s.len() == 0 {
        Ok(0)
    } else {
        match digits_value(s.drop_last(), radix, max) {
            Err(e) => Err(e),
            Ok(v) => match digit_value(s.last(), radix) {
                None => Err(NumberError::InvalidDigit),
                Some(d) => if v * radix + d > max {
                    Err(NumberError::TooLarge)
                } else {
                    Ok(v * radix + d)
                },
            },
        }
    }
}

/// The unsigned number that a text stands for: digits, with or without a
/// leading `+`.
pub open spec fn number(s: Seq<char>, radix: int, max: int) -> Result<int, NumberError> {
    if s.len() == 0 {
        Err(NumberError::Empty)
    } else if s.len() == 1 && (s[0] == '+' || s[0] == '-') {
        Err(NumberError::InvalidDigit)
    } else if s[0] == '+' {
        digits_value(s.skip(1), radix, max)
    } else {
        digits_value(s, radix, max)
    }
}

proof fn lemma_digits_value_not_negative(s: Seq<char>, radix: int, max: int)
    requires
        radix >= 0,
    ensures
        digits_value(s, radix, max) matches Ok(n) ==> n >= 0,
    decreases s.len(),
{
    if s.len() > 0 {
        lemma_digits_value_not_negative(s.drop_last(), radix, max);
        if let Ok(v) = digits_value(s.drop_last(), radix, max) {
            assert(v * radix >= 0) by (nonlinear_arith)
                requires
                    v >= 0,
                    radix >= 0,
            ;
        }
    }
}

/// An unsigned number is never negative.
pub proof fn number_is_not_negative(s: Seq<char>, radix: int, max: int)
    requires
        radix >= 0,
    ensures
        number(s, radix, max) matches Ok(n) ==> n >= 0,
{
    lemma_digits_value_not_negative(s, radix, max);
    if s.len() > 0 {
        lemma_digits_value_not_negative(s.skip(1), radix, max);
    }
}

fn digit(c: char, radix: u64) -> (r: Option<u64>)
    requires
        2 <= radix <= 16,
    ensures
        match r {
            Some(d) => digit_value(c, radix as int) == Some(d as int) && d < radix,
            None => digit_value(c, radix as int) is None,
        },
{
    let u: u32 = c as u32;
    let d: u32 = if 48 <= u && u <= 57 {
        u - 48
    } else if 97 <= u && u <= 122 {
        u - 87
    } else if 65 <= u && u <= 90 {
        u - 55
    } else {
        36
    };
    if (d as u64) < radix {
        Some(d as u64)
    } else {
        None
    }
}

proof fn lemma_digits_value_fails(s: Seq<char>, n: int, radix: int, max: int)
    requires
        0 <= n <= s.len(),
        digits_value(s.take(n), radix, max) is Err,
    ensures
        digits_value(s, radix, max) == digits_value(s.take(n), radix, max),
    decreases s.len() - n,
{
    if n < s.len() {
        assert(s.take(n + 1).drop_last() =~= s.take(n));
        lemma_digits_value_fails(s, n + 1, radix, max);
    } else {
        assert(s.take(n) =~= s);
    }
}

/// Reads an unsigned number of the given radix that is at most `max`.
pub fn parse_number(s: &str, radix: u64, max: u64) -> (r: Result<u64, NumberError>)
    requires
        2 <= radix <= 16,
    ensures
        match r {
            Ok(v) => number(s@, radix as int, max as int) == Ok::<int, NumberError>(v as int)
                && v <= max,
            Err(e) => number(s@, radix as int, max as int) == Err::<int, NumberError>(e),
        },
{
    let chars = chars_of(s);
    let n: usize = chars.len();
    if n == 0 {
        return Err(NumberError::Empty);
    }
    if n == 1 && (chars[0] == '+' || chars[0] == '-') {
        return Err(NumberError::InvalidDigit);
    }
    let first: usize = if chars[0] == '+' {
        1
    } else {
        0
    };
    let ghost row = s@.skip(first as int);
    assert(first == 0 ==> row =~= s@);
    let mut v: u64 = 0;
    let mut i: usize = first;
    assert(row.take(0) =~= Seq::<char>::empty());
    while i < n
        invariant
            2 <= radix <= 16,
            n == chars@.len(),
            chars@ == s@,
            first <= i <= n,
            row == s@.skip(first as int),
            number(s@, radix as int, max as int) == digits_value(row, radix as int, max as int),
            digits_value(row.take(i - first), radix as int, max as int) == Ok::<int, NumberError>(
                v as int,
            ),
            v <= max,
        decreases n - i,
    {
        let ghost k = i - first;
        assert(row.take(k + 1).drop_last() =~= row.take(k));
        assert(row.take(k + 1).last() == chars@[i as int]);
        match digit(chars[i], radix) {
            None => {
                proof {
                    lemma_digits_value_fails(row, k + 1, radix as int, max as int);
                }
                return Err(NumberError::InvalidDigit);
            },
            Some(d) => {
                assert(v * radix + d <= 0xffff_ffff_ffff_ffff * 16 + 16) by (nonlinear_arith)
                    requires
                        0 <= v <= 0xffff_ffff_ffff_ffff,
                        0 <= radix <= 16,
                        0 <= d <= 16,
                ;
                assert(0 <= v * radix) by (nonlinear_arith)
                    requires
                        0 <= v,
                        0 <= radix,
                ;
                let next: u128 = (v as u128) * (radix as u128) + (d as u128);
                if next > (max as u128) {
                    proof {
                        lemma_digits_value_fails(row, k + 1, radix as int, max as int);
                    }
                    return Err(NumberError::TooLarge);
                }
                v = next as u64;
            },
        }
        i = i + 1;
    }
    assert(row.take(n - first) =~= row);
    Ok(v)
}

/// The digits of `n` in the given radix.
pub fn number_text(n: u64, radix: u64) -> (r: String)
    requires
        2 <= radix <= 16,
    ensures
        r@ == digits(n as nat, radix as nat),
    decreases n,
{
    let d: u64 = n % radix;
    let c: char = if d < 10 {
        (48 + d as u8) as char
    } else {
        (87 + d as u8) as char
    };
    if n < radix {
        assert(d == n) by (nonlinear_arith)
            requires
                0 <= n < radix,
                d == n % radix,
        ;
        let mut r = String::new();
        r.push(c);
        assert(r@ =~= digits(n as nat, radix as nat));
        r
    } else {
        assert(n / radix < n) by (nonlinear_arith)
            requires
                n >= radix,
                radix >= 2,
        ;
        let mut r = number_text(n / radix, radix);
        r.push(c);
        r
    }
}

/// The decimal digits of `n`.
pub fn decimal_text(n: u64) -> (r: String)
    ensures
        r@ == decimal(n as int),
{
    number_text(n, 10)
}

proof fn lemma_digit_round_trip(d: int, radix: int)
    requires
        2 <= radix <= 16,
        0 <= d < radix,
    ensures
        digit_value(digit_char(d), radix) == Some(d),
        digit_char(d) != '+',
        digit_char(d) != '-',
{
}

/// Reading the digits of `n` gives `n` back.
pub proof fn digits_round_trip(n: nat, radix: nat, max: int)
    requires
        2 <= radix <= 16,
        n <= max,
    ensures
        digits_value(digits(n, radix), radix as int, max) == Ok::<int, NumberError>(n as int),
        number(digits(n, radix), radix as int, max) == Ok::<int, NumberError>(n as int),
        digits(n, radix).len() > 0,
    decreases n,
{
    let row = digits(n, radix);
    if n < radix {
        lemma_digit_round_trip(n as int, radix as int);
        assert(row.drop_last() =~= Seq::<char>::empty());
        assert(digits_value(row.drop_last(), radix as int, max) == Ok::<int, NumberError>(0));
        assert(0 * (radix as int) + n == n) by (nonlinear_arith);
    } else {
        assert(n / radix < n && (n / radix) * radix + n % radix == n && n % radix < radix)
            by (nonlinear_arith)
            requires
                n >= radix,
                radix >= 2,
        ;
        digits_round_trip(n / radix, radix, max);
        lemma_digit_round_trip((n % radix) as int, radix as int);
        assert(row.drop_last() =~= digits(n / radix, radix));
        assert(row.last() == digit_char((n % radix) as int));
    }
    lemma_first_is_digit(n, radix);
}

proof fn lemma_first_is_digit(n: nat, radix: nat)
    requires
        2 <= radix <= 16,
    ensures
        digits(n, radix).len() > 0,
        digits(n, radix)[0] != '+',
        digits(n, radix)[0] != '-',
    decreases n,
{
    if n >= radix {
        assert(n / radix < n && n % radix < radix) by (nonlinear_arith)
            requires
                n >= radix,
                radix >= 2,
        ;
        lemma_first_is_digit(n / radix, radix);
    } else {
        lemma_digit_round_trip(n as int, radix as int);
    }
}

} // verus!
