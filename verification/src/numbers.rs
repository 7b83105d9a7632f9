//! Decimal numbers in texts.

use crate::text::chars_of;
use crate::text::is_digit;
use vstd::prelude::*;

verus! {

/// The character of a decimal digit.
pub open spec fn digit_char(d: nat) -> char {
    (48 + d) as char
}

/// The digits of `n`, without leading zeros.
pub open spec fn decimal(n: nat) -> Seq<char>
    decreases n,
{
    if n < 10 {
        seq![digit_char(n)]
    } else {
        decimal(n / 10).push(digit_char(n % 10))
    }
}

/// `n` in decimal digits, with a minus sign where it is negative.
pub open spec fn signed_decimal(n: int) -> Seq<char> {
    if n < 0 {
        seq!['-'] + decimal((-n) as nat)
    } else {
        decimal(n as nat)
    }
}

pub open spec fn all_digits(s: Seq<char>) -> bool {
    forall|i: int| 0 <= i < s.len() ==> is_digit(#[trigger] s[i])
}

/// The number that a sequence of digits stands for.
pub open spec fn digits_value(s: Seq<char>) -> nat
    decreases s.len(),
{
    if s.len() == 0 {
        0
    } else {
        (10 * digits_value(s.drop_last()) + (s.last() as int - 48)) as nat
    }
}

/// The number below 256 that a text holds: digits, behind a plus sign or none.
pub open spec fn parsed_u8(s: Seq<char>) -> Option<u8> {
    let body = if s.len() > 0 && s[0] == '+' {
        s.drop_first()
    } else {
        s
    };
    if body.len() > 0 && all_digits(body) && digits_value(body) <= 255 {
        Some(digits_value(body) as u8)
    } else {
        None
    }
}

/// Appends the digits of `n`.
pub fn push_decimal(out: &mut String, n: u128)
    ensures
        final(out)@ == old(out)@ + decimal(n as nat),
    decreases n,
{
    if n >= 10 {
        push_decimal(out, n / 10);
    }
    let digit: u8 = 48 + (n % 10) as u8;
    out.push(digit as char);
    proof {
        let d = digit_char((n % 10) as nat);
        if n >= 10 {
            assert(old(out)@ + decimal((n / 10) as nat).push(d) == (old(out)@ + decimal(
                (n / 10) as nat,
            )).push(d));
        } else {
            assert(old(out)@ + seq![d] == old(out)@.push(d));
        }
    }
}

/// The digits of `n`.
pub fn decimal_text(n: u128) -> (r: String)
    ensures
        r@ == decimal(n as nat),
{
    let mut s = String::new();
    push_decimal(&mut s, n);
    assert(Seq::<char>::empty() + decimal(n as nat) == decimal(n as nat));
    s
}

/// The decimal text of a number that may be negative.
pub fn signed_text(n: i32) -> (r: String)
    ensures
        r@ == signed_decimal(n as int),
{
    if n < 0 {
        let mut s = String::new();
        s.push('-');
        let magnitude: i64 = -(n as i64);
        push_decimal(&mut s, magnitude as u128);
        assert(Seq::<char>::empty().push('-') == seq!['-']);
        s
    } else {
        decimal_text(n as u128)
    }
}

/// The number below 256 that the text holds.
pub fn parse_u8(s: &str) -> (r: Option<u8>)
    ensures
        r == parsed_u8(s@),
{
    let v = chars_of(s);
    let start: usize = if v.len() > 0 && v[0] == '+' {
        1
    } else {
        0
    };
    let ghost body = if start == 1 {
        s@.drop_first()
    } else {
        s@
    };
    assert(body == v@.skip(start as int));
    if start == v.len() {
        return None;
    }
    let mut value: u32 = 0;
    let mut i: usize = start;
    while i < v.len()
        invariant
            start <= i <= v.len(),
            body == v@.skip(start as int),
            body == (if s@.len() > 0 && s@[0] == '+' {
                s@.drop_first()
            } else {
                s@
            }),
            all_digits(body.take(i - start)),
            value <= 256,
            value <= 255 ==> digits_value(body.take(i - start)) == value,
            value == 256 ==> digits_value(body.take(i - start)) >= 256,
        decreases v.len() - i,
    {
        let c = v[i];
        assert(body[i - start] == c);
        assert(body.take(i - start + 1).drop_last() == body.take(i - start));
        assert(body.take(i - start + 1).last() == c);
        if !('0' <= c && c <= '9') {
            assert(!is_digit(body[i - start]));
            return None;
        }
        if value <= 255 {
            value = value * 10 + (c as u32 - 48);
            if value > 256 {
                value = 256;
            }
        }
        assert(forall|j: int|
            0 <= j < i - start + 1 ==> body.take(i - start + 1)[j] == #[trigger] body[j]);
        assert(forall|j: int| 0 <= j < i - start ==> body.take(i - start)[j] == #[trigger] body[j]);
        assert(forall|j: int| 0 <= j < i - start ==> is_digit(#[trigger] body[j]));
        i += 1;
    }
    assert(body.take(body.len() as int) == body);
    if value <= 255 {
        Some(value as u8)
    } else {
        None
    }
}

/// The digits of a number are digits, and there is at least one.
pub proof fn decimal_is_digits(n: nat)
    ensures
        decimal(n).len() > 0,
        all_digits(decimal(n)),
    decreases n,
{
    if n >= 10 {
        decimal_is_digits(n / 10);
    }
}

/// The digits of a number stand for that number.
pub proof fn digits_of_decimal(n: nat)
    ensures
        digits_value(decimal(n)) == n,
    decreases n,
{
    reveal_with_fuel(digits_value, 2);
    if n < 10 {
        assert(decimal(n).drop_last() == Seq::<char>::empty());
        assert(decimal(n).last() as int == 48 + n);
    } else {
        assert(decimal(n).last() as int == 48 + n % 10);
        digits_of_decimal(n / 10);
        assert(decimal(n).drop_last() == decimal(n / 10));
    }
}

/// What is written in decimal is read back: the text of a number below 256 parses to it.
pub proof fn parse_of_decimal(n: u8)
    ensures
        parsed_u8(decimal(n as nat)) == Some(n),
{
    decimal_is_digits(n as nat);
    digits_of_decimal(n as nat);
    assert(is_digit(decimal(n as nat)[0]));
}

/// A negative number is a minus sign and the digits of its amount; any other is its digits. The digits
/// stand for the amount, and only 0 begins with a zero.
pub proof fn signs_and_digits_of_a_number(n: int)
    ensures
        n < 0 ==> signed_decimal(n)[0] == '-' && digits_value(signed_decimal(n).skip(1)) == -n
            && all_digits(signed_decimal(n).skip(1)),
        n >= 0 ==> all_digits(signed_decimal(n)) && digits_value(signed_decimal(n)) == n,
        n > 0 ==> signed_decimal(n)[0] != '0',
{
    if n < 0 {
        digits_of_decimal((-n) as nat);
        decimal_is_digits((-n) as nat);
        assert(signed_decimal(n).skip(1) =~= decimal((-n) as nat));
    } else {
        digits_of_decimal(n as nat);
        decimal_is_digits(n as nat);
        if n > 0 {
            lemma_no_leading_zero(n as nat);
        }
    }
}

proof fn lemma_no_leading_zero(n: nat)
    requires
        n > 0,
    ensures
        decimal(n).len() > 0,
        decimal(n)[0] != '0',
    decreases n,
{
    if n >= 10 {
        lemma_no_leading_zero(n / 10);
        assert(decimal(n)[0] == decimal(n / 10)[0]);
    } else {
        assert(decimal(n)[0] as int == 48 + n);
    }
}

} // verus!
