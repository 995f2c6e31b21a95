//! What holds of numbers as text.
use vstd::prelude::*;

use crate::number;
use crate::number::NumberError;

verus! {

/// Whether a character is a digit that stands for `d`: the decimal digits come
/// first, then the letters, in either case.
pub open spec fn is_digit(c: char, d: int) -> bool {
    ||| 0 <= d <= 9 && c as u32 == '0' as u32 + d
    ||| 10 <= d <= 35 && c as u32 == 'a' as u32 + d - 10
    ||| 10 <= d <= 35 && c as u32 == 'A' as u32 + d - 10
}

/// A character has a value as a digit exactly if it stands for less than the
/// radix.
pub proof fn digits_and_their_values(c: char, d: int, radix: int)
    requires
        is_digit(c, d),
        radix <= 36,
    ensures
        number::digit_value(c, radix) == if d < radix {
            Some(d)
        } else {
            None
        },
{
}

/// A character that stands for nothing has no value.
pub proof fn other_characters_have_none(c: char, radix: int)
    requires
        radix <= 36,
        forall|d: int| !is_digit(c, d),
    ensures
        number::digit_value(c, radix) is None,
{
    let u = c as u32 as int;
    assert(!is_digit(c, u - 48));
    assert(!is_digit(c, u - 87));
    assert(!is_digit(c, u - 55));
}

/// A digit alone is read as what it stands for.
pub proof fn one_digit(c: char, d: int, radix: int, max: int)
    requires
        is_digit(c, d),
        d < radix <= 36,
    ensures
        number::number(seq![c], radix, max) == if d <= max {
            Ok::<int, NumberError>(d)
        } else {
            Err(NumberError::TooLarge)
        },
{
    let s = seq![c];
    digits_and_their_values(c, d, radix);
    assert(s.drop_last() =~= Seq::<char>::empty());
    assert(number::digits_value(s.drop_last(), radix, max) == Ok::<int, NumberError>(0));
    assert(0 * radix == 0);
}

/// Another digit at the end moves the others up one place, however many there
/// are, until the number is larger than it may be.
pub proof fn another_digit(s: Seq<char>, v: int, c: char, d: int, radix: int, max: int)
    requires
        number::number(s, radix, max) == Ok::<int, NumberError>(v),
        is_digit(c, d),
        d < radix <= 36,
    ensures
        number::number(s.push(c), radix, max) == if v * radix + d <= max {
            Ok::<int, NumberError>(v * radix + d)
        } else {
            Err(NumberError::TooLarge)
        },
{
    digits_and_their_values(c, d, radix);
    if s[0] == '+' {
        assert(s.push(c).skip(1) =~= s.skip(1).push(c));
        assert(s.skip(1).push(c).drop_last() =~= s.skip(1));
    } else {
        assert(s.push(c).drop_last() =~= s);
    }
}

/// What cannot be read stays so, whatever follows; a sign alone, a text without
/// characters and one that ends in no digit cannot be read, nor can one with
/// another sign than a plus.
pub proof fn what_is_no_number(s: Seq<char>, c: char, x: char, radix: int, max: int)
    requires
        0 <= radix <= 36,
        0 <= max,
        forall|d: int| !is_digit(c, d),
    ensures
        number::number(Seq::<char>::empty(), radix, max) == Err::<int, NumberError>(
            NumberError::Empty,
        ),
        number::number(seq!['+'], radix, max) == Err::<int, NumberError>(NumberError::InvalidDigit),
        number::number(seq!['-'] + s, radix, max) is Err,
        s.len() > 0 && s != seq!['+'] && number::number(s, radix, max) is Err ==> number::number(
            s.push(x),
            radix,
            max,
        ) is Err,
        number::number(s, radix, max) is Ok ==> number::number(s.push(c), radix, max) == Err::<
            int,
            NumberError,
        >(NumberError::InvalidDigit),
{
    other_characters_have_none(c, radix);
    if number::number(s, radix, max) is Ok {
        if s[0] == '+' {
            assert(s.push(c).skip(1) =~= s.skip(1).push(c));
            assert(s.skip(1).push(c).drop_last() =~= s.skip(1));
        } else {
            assert(s.push(c).drop_last() =~= s);
        }
    }
    lemma_no_minus(radix);
    if s.len() > 0 {
        lemma_bad_first(seq!['-'] + s, radix, max);
    } else {
        assert(seq!['-'] + s =~= seq!['-']);
    }
    if s.len() > 0 && s != seq!['+'] && number::number(s, radix, max) is Err {
        if s[0] == '+' {
            assert(s.len() == 1 ==> s =~= seq!['+']);
            assert(s.push(x).skip(1) =~= s.skip(1).push(x));
            assert(s.skip(1).push(x).drop_last() =~= s.skip(1));
        } else if s[0] == '-' {
            lemma_bad_first(s.push(x), radix, max);
        } else {
            assert(s.push(x).drop_last() =~= s);
        }
    }
}

proof fn lemma_no_minus(radix: int)
    requires
        radix <= 36,
    ensures
        number::digit_value('-', radix) is None,
{
}

proof fn lemma_bad_first(s: Seq<char>, radix: int, max: int)
    requires
        s.len() > 0,
        number::digit_value(s[0], radix) is None,
        max >= 0,
    ensures
        number::digits_value(s, radix, max) is Err,
    decreases s.len(),
{
    if s.len() > 1 {
        lemma_bad_first(s.drop_last(), radix, max);
    } else {
        assert(number::digits_value(s.drop_last(), radix, max) == Ok::<int, NumberError>(0));
    }
}

/// Each error has its words.
pub proof fn what_errors_say()
    ensures
        NumberError::Empty.words() == "cannot parse integer from empty string"@,
        NumberError::InvalidDigit.words() == "invalid digit found in string"@,
        NumberError::TooLarge.words() == "number too large to fit in target type"@,
{
}

/// A plus in front makes no difference to a number.
pub proof fn a_plus_is_read_over(s: Seq<char>, radix: int, max: int)
    requires
        s.len() > 0,
        s[0] != '+',
        s[0] != '-',
    ensures
        number::number(seq!['+'] + s, radix, max) == number::number(s, radix, max),
{
    assert((seq!['+'] + s).skip(1) =~= s);
}

/// The digits of a number are those of what is left of it, and one more, without
/// a zero in front; letters are small.
pub proof fn digits_one_by_one(n: nat, d: nat, radix: nat)
    requires
        2 <= radix <= 16,
        d < radix,
    ensures
        n > 0 ==> number::digits(n * radix + d, radix) == number::digits(n, radix).push(
            number::digits(d, radix)[0],
        ),
        number::digits(d, radix).len() == 1,
        is_digit(number::digits(d, radix)[0], d as int),
        !('A' <= number::digits(d, radix)[0] <= 'Z'),
        number::decimal(n as int) == number::digits(n, 10),
        number::octal(n as int) == number::digits(n, 8),
{
    if n > 0 {
        let m = n * radix + d;
        assert(m >= radix && m / radix == n && m % radix == d) by (nonlinear_arith)
            requires
                n > 0,
                radix >= 2,
                d < radix,
                m == n * radix + d,
        ;
    }
}

} // verus!
