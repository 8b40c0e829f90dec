//! Numbers written as text: decimal output, and digits read back in a radix.

use vstd::prelude::*;

use crate::text::{chars_of, string_of};

verus! {

/// The value of a digit of any radix up to 36, or -1.
pub open spec fn digit(c: char) -> int {
    if '0' <= c <= '9' {
        c as int - '0' as int
    } else if 'a' <= c <= 'z' {
        c as int - 'a' as int + 10
    } else if 'A' <= c <= 'Z' {
        c as int - 'A' as int + 10
    } else {
        -1
    }
}

/// Whether `s` holds digits of the radix only, and at least one.
pub open spec fn is_digits(s: Seq<char>, radix: int) -> bool {
    s.len() > 0 && forall|i: int| 0 <= i < s.len() ==> 0 <= #[trigger] digit(s[i]) < radix
}

/// The number that a run of digits denotes.
pub open spec fn digits_value(s: Seq<char>, radix: int) -> int
    decreases s.len(),
{
    if s.len() == 0 {
        0
    } else {
        digits_value(s.drop_last(), radix) * radix + digit(s.last())
    }
}

/// `s` without one leading plus sign.
pub open spec fn without_plus(s: Seq<char>) -> Seq<char> {
    if s.len() > 0 && s[0] == '+' {
        s.subrange(1, s.len() as int)
    } else {
        s
    }
}

/// The unsigned number up to `max` that `s` denotes: an optional plus sign, then
/// digits. A number above `max` is none.
pub open spec fn unsigned_value(s: Seq<char>, radix: int, max: int) -> Option<int> {
    let body = without_plus(s);
    if is_digits(body, radix) && digits_value(body, radix) <= max {
        Some(digits_value(body, radix))
    } else {
        None
    }
}

/// The value of a digit, as `digit` has it, or 255.
fn digit_of(c: char) -> (d: u8)
    ensures
        digit(c) >= 0 ==> d == digit(c),
        digit(c) < 0 ==> d == 255,
{
    if '0' <= c && c <= '9' {
        (c as u8) - ('0' as u8)
    } else if 'a' <= c && c <= 'z' {
        (c as u8) - ('a' as u8) + 10
    } else if 'A' <= c && c <= 'Z' {
        (c as u8) - ('A' as u8) + 10
    } else {
        255
    }
}

proof fn lemma_value_nonneg(s: Seq<char>, radix: int)
    requires
        radix > 0,
        forall|i: int| 0 <= i < s.len() ==> 0 <= #[trigger] digit(s[i]) < radix,
    ensures
        digits_value(s, radix) >= 0,
    decreases s.len(),
{
    if s.len() > 0 {
        lemma_value_nonneg(s.drop_last(), radix);
        assert(0 <= digit(s[s.len() - 1]));
        assert(digits_value(s.drop_last(), radix) * radix >= 0) by (nonlinear_arith)
            requires
                digits_value(s.drop_last(), radix) >= 0,
                radix > 0,
        ;
    }
}

/// The value of a run of digits is at least that of each of its beginnings.
proof fn lemma_value_grows(s: Seq<char>, radix: int, i: int)
    requires
        radix > 0,
        0 <= i <= s.len(),
        forall|k: int| 0 <= k < s.len() ==> 0 <= #[trigger] digit(s[k]) < radix,
    ensures
        digits_value(s.take(i), radix) <= digits_value(s, radix),
    decreases s.len() - i,
{
    if i == s.len() {
        assert(s.take(i) =~= s);
    } else {
        assert(s.take(i + 1).drop_last() =~= s.take(i));
        assert(s.take(i + 1).last() == s[i]);
        lemma_value_nonneg(s.take(i), radix);
        let v = digits_value(s.take(i), radix);
        assert(v * radix >= v) by (nonlinear_arith)
            requires
                v >= 0,
                radix > 0,
        ;
        assert(0 <= digit(s[i]));
        lemma_value_grows(s, radix, i + 1);
    }
}

/// Reads an unsigned number of at most `max`.
pub fn parse_unsigned(s: &str, radix: u32, max: u128) -> (out: Option<u128>)
    requires
        2 <= radix <= 36,
    ensures
        match out {
            Some(n) => unsigned_value(s@, radix as int, max as int) == Some(n as int),
            None => unsigned_value(s@, radix as int, max as int) is None,
        },
{
    let all = chars_of(s);
    let start: usize = if all.len() > 0 && all[0] == '+' {
        1
    } else {
        0
    };
    let ghost body = without_plus(s@);
    assert(body == s@.subrange(start as int, s@.len() as int)) by {
        assert(s@.subrange(0, s@.len() as int) =~= s@);
    }
    if start == all.len() {
        return None;
    }
    let mut value: u128 = 0;
    let mut i: usize = start;
    assert(body.take(0) =~= Seq::<char>::empty());
    while i < all.len()
        invariant
            start <= i <= all@.len(),
            start <= 1,
            all@ == s@,
            body == s@.subrange(start as int, s@.len() as int),
            body == without_plus(s@),
            2 <= radix <= 36,
            value <= max,
            value == digits_value(body.take(i - start), radix as int),
            forall|k: int| 0 <= k < i - start ==> 0 <= #[trigger] digit(body[k]) < radix,
        decreases all@.len() - i,
    {
        let d: u8 = digit_of(all[i]);
        assert(all@[i as int] == body[i - start]);
        if d as u32 >= radix {
            assert(!(0 <= digit(body[i - start]) < radix));
            return None;
        }
        proof {
            assert(body.take(i + 1 - start).drop_last() =~= body.take(i - start));
            assert(body.take(i + 1 - start).last() == body[i - start]);
        }
        let ghost next = digits_value(body.take(i + 1 - start), radix as int);
        assert(next == value * radix + d);
        let scaled = value.checked_mul(radix as u128);
        let sum = match scaled {
            Some(x) => x.checked_add(d as u128),
            None => None,
        };
        match sum {
            Some(x) if x <= max => {
                assert(x == next);
                value = x;
            },
            _ => {
                assert(next > max);
                proof {
                    if is_digits(body, radix as int) {
                        lemma_value_grows(body, radix as int, i + 1 - start);
                    }
                }
                return None;
            },
        }
        i += 1;
    }
    assert(body.take(body.len() as int) =~= body);
    Some(value)
}

/// The decimal digit for a number below ten.
pub open spec fn digit_char(n: int) -> char {
    ((n + '0' as int) as u8) as char
}

/// The decimal text of a number.
pub open spec fn decimal(n: nat) -> Seq<char>
    decreases n,
{
    if n < 10 {
        seq![digit_char(n as int)]
    } else {
        decimal(n / 10).push(digit_char((n % 10) as int))
    }
}

/// Appends the decimal text of `n` to `out`.
fn push_decimal(out: &mut String, n: u128)
    ensures
        final(out)@ == old(out)@ + decimal(n as nat),
    decreases n,
{
    if n >= 10 {
        push_decimal(out, n / 10);
    }
    let d: u8 = (n % 10) as u8;
    out.push((d + ('0' as u8)) as char);
    assert(out@ =~= old(out)@ + decimal(n as nat));
}

/// The decimal text of `n`.
pub fn decimal_text(n: u128) -> (out: String)
    ensures
        out@ == decimal(n as nat),
{
    let mut out = String::new();
    push_decimal(&mut out, n);
    assert(out@ =~= decimal(n as nat));
    out
}

/// Decimal text holds decimal digits only, and denotes the number it was made of.
pub proof fn lemma_decimal_reads_back(n: nat)
    ensures
        is_digits(decimal(n), 10),
        digits_value(decimal(n), 10) == n,
    decreases n,
{
    if n < 10 {
        reveal_with_fuel(digits_value, 2);
        assert(decimal(n).drop_last() =~= Seq::<char>::empty());
        assert(digit(digit_char(n as int)) == n);
    } else {
        lemma_decimal_reads_back(n / 10);
        assert(decimal(n).drop_last() =~= decimal(n / 10));
        assert(digit(digit_char((n % 10) as int)) == n % 10);
    }
}

/// The decimal text of a signed number.
pub open spec fn signed_decimal(n: int) -> Seq<char> {
    if n < 0 {
        seq!['-'] + decimal((-n) as nat)
    } else {
        decimal(n as nat)
    }
}

/// The decimal text of a signed 64-bit number.
pub fn signed_decimal_text(n: i64) -> (out: String)
    ensures
        out@ == signed_decimal(n as int),
{
    if n < 0 {
        let mut out = String::new();
        out.push('-');
        let magnitude: u128 = (-(n as i128)) as u128;
        push_decimal(&mut out, magnitude);
        assert(out@ =~= signed_decimal(n as int));
        out
    } else {
        decimal_text(n as u128)
    }
}

/// The signed 64-bit number that decimal text denotes: an optional sign, then
/// digits.
pub open spec fn signed_value(s: Seq<char>) -> Option<int> {
    if s.len() > 0 && s[0] == '-' {
        let body = s.subrange(1, s.len() as int);
        if is_digits(body, 10) && digits_value(body, 10) <= -(i64::MIN as int) {
            Some(-digits_value(body, 10))
        } else {
            None
        }
    } else {
        unsigned_value(s, 10, i64::MAX as int)
    }
}

/// Reads a signed 64-bit decimal number.
pub fn parse_i64(s: &str) -> (out: Option<i64>)
    ensures
        match out {
            Some(n) => signed_value(s@) == Some(n as int),
            None => signed_value(s@) is None,
        },
{
    let all = chars_of(s);
    if all.len() > 0 && all[0] == '-' {
        let rest = string_of(
            vstd::slice::slice_subrange(all.as_slice(), 1, all.len()),
        );
        let ghost body = s@.subrange(1, s@.len() as int);
        if all.len() > 1 && all[1] == '+' {
            assert(digit(body[0]) < 0);
            return None;
        }
        assert(without_plus(body) == body);
        match parse_unsigned(rest.as_str(), 10, 9223372036854775808) {
            Some(m) => {
                let negated: i128 = -(m as i128);
                Some(negated as i64)
            },
            None => None,
        }
    } else {
        match parse_unsigned(s, 10, 9223372036854775807) {
            Some(m) => Some(m as i64),
            None => None,
        }
    }
}

/// Reading the decimal text of a number gives the number back.
pub proof fn lemma_signed_decimal_reads_back(n: i64)
    ensures
        signed_value(signed_decimal(n as int)) == Some(n as int),
{
    let m: nat = if n < 0 {
        (-(n as int)) as nat
    } else {
        n as nat
    };
    lemma_decimal_reads_back(m);
    let t = decimal(m);
    assert(0 <= digit(t[0]));
    if n < 0 {
        assert(signed_decimal(n as int).subrange(1, t.len() as int + 1) =~= t);
    } else {
        assert(without_plus(t) == t);
    }
}

} // verus!
