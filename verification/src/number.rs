//! Decimal text of integers: how a number is written and how a token is read back.

use vstd::prelude::*;
use crate::error::DecodeError;

verus! {

/// The largest magnitude that a token is followed up to: the magnitude of
/// the most negative number that the widest machine integer holds.
pub const MAGNITUDE_LIMIT: u128 = 170141183460469231731687303715884105728u128;

/// `c` is one of the ten decimal digits.
pub open spec fn is_digit(c: char) -> bool {
    '0' <= c && c <= '9'
}

/// The character that writes the digit `d`.
pub open spec fn digit_of(d: nat) -> char {
    ((48 + d) as u8) as char
}

/// The number that the digit character `c` stands for.
pub open spec fn digit_value(c: char) -> nat {
    (c as u32 - 48) as nat
}

/// Every character of `s` is a decimal digit.
pub open spec fn all_digits(s: Seq<char>) -> bool {
    forall|i: int| 0 <= i < s.len() ==> is_digit(#[trigger] s[i])
}

/// Decimal text of a natural number: no sign, no leading zero but for zero itself.
pub open spec fn nat_text(n: nat) -> Seq<char>
    decreases n,
{
    if n < 10 {
        seq![digit_of(n)]
    } else {
        nat_text(n / 10).push(digit_of(n % 10))
    }
}

/// Decimal text of an integer: a minus sign for negative numbers, never a plus sign.
pub open spec fn int_text(i: int) -> Seq<char> {
    if i < 0 {
        seq!['-'] + nat_text((-i) as nat)
    } else {
        nat_text(i as nat)
    }
}

/// The number that a run of digits writes, most significant digit first.
pub open spec fn digits_value(s: Seq<char>) -> nat
    decreases s.len(),
{
    if s.len() == 0 {
        0
    } else {
        digits_value(s.drop_last()) * 10 + digit_value(s.last())
    }
}

/// The integer that a token writes, if it is one: an optional sign and at
/// least one digit. A minus sign is read only where `signed` holds.
pub open spec fn parse_int_text(s: Seq<char>, signed: bool) -> Option<int> {
    if s.len() == 0 {
        None
    } else if s[0] == '+' {
        if s.len() > 1 && all_digits(s.skip(1)) {
            Some(digits_value(s.skip(1)) as int)
        } else {
            None
        }
    } else if s[0] == '-' {
        if signed && s.len() > 1 && all_digits(s.skip(1)) {
            Some(-(digits_value(s.skip(1)) as int))
        } else {
            None
        }
    } else if all_digits(s) {
        Some(digits_value(s) as int)
    } else {
        None
    }
}

/// What reading a token as an integer between `lo` and `hi` gives.
pub open spec fn parse_int_in_range(s: Seq<char>, signed: bool, lo: int, hi: int) -> Result<
    int,
    DecodeError,
> {
    match parse_int_text(s, signed) {
        None => Err(DecodeError::Malformed),
        Some(v) => if lo <= v && v <= hi {
            Ok(v)
        } else {
            Err(DecodeError::OutOfRange)
        },
    }
}

/// A run of digits extended by one digit is worth ten times the run plus the digit.
pub proof fn lemma_digits_value_push(s: Seq<char>, c: char)
    ensures
        digits_value(s.push(c)) == digits_value(s) * 10 + digit_value(c),
{
    assert(s.push(c).drop_last() =~= s);
    assert(s.push(c).last() == c);
}

/// The text of a natural number is a non-empty run of digits worth that number.
pub proof fn lemma_nat_text(n: nat)
    ensures
        nat_text(n).len() >= 1,
        all_digits(nat_text(n)),
        digits_value(nat_text(n)) == n,
    decreases n,
{
    if n < 10 {
        let s = seq![digit_of(n)];
        assert(s.len() == 1);
        assert(s[0] == digit_of(n));
        assert(is_digit(digit_of(n)));
        assert(s.drop_last() =~= Seq::<char>::empty());
        assert(digits_value(s.drop_last()) == 0);
        assert(digit_value(digit_of(n)) == n);
    } else {
        lemma_nat_text(n / 10);
        let d = digit_of(n % 10);
        lemma_digits_value_push(nat_text(n / 10), d);
        assert(is_digit(d));
        assert(digit_value(d) == n % 10);
        assert forall|i: int| 0 <= i < nat_text(n).len() implies is_digit(
            #[trigger] nat_text(n)[i],
        ) by {
            if i < nat_text(n / 10).len() {
                assert(nat_text(n)[i] == nat_text(n / 10)[i]);
            }
        }
    }
}

/// Writing an integer and reading the text back gives the integer; a
/// non-negative one is read back without the signed grammar too.
pub proof fn lemma_int_text_round_trip(i: int, signed: bool)
    requires
        signed || i >= 0,
    ensures
        parse_int_text(int_text(i), signed) == Some(i),
        int_text(i).len() >= 1,
        int_text(i)[0] == '-' || is_digit(int_text(i)[0]),
        forall|k: int|
            0 <= k < int_text(i).len() ==> #[trigger] int_text(i)[k] == '-' || is_digit(
                int_text(i)[k],
            ),
{
    if i < 0 {
        let m = (-i) as nat;
        lemma_nat_text(m);
        let t = int_text(i);
        assert(t.skip(1) =~= nat_text(m));
        assert(t[0] == '-');
        assert forall|k: int| 0 <= k < t.len() implies #[trigger] t[k] == '-' || is_digit(
            t[k],
        ) by {
            if k > 0 {
                assert(t[k] == nat_text(m)[k - 1]);
            }
        }
    } else {
        lemma_nat_text(i as nat);
        let t = int_text(i);
        assert(is_digit(t[0]));
        assert(t[0] != '+' && t[0] != '-');
    }
}

/// The character of one digit.
pub fn digit_char(d: u8) -> (c: char)
    requires
        d < 10,
    ensures
        c == digit_of(d as nat),
{
    (48u8 + d) as char
}

/// Appends the decimal text of a natural number.
pub fn push_nat(out: &mut Vec<char>, n: u128)
    ensures
        final(out)@ == old(out)@ + nat_text(n as nat),
    decreases n,
{
    if n < 10 {
        let d: u8 = n as u8;
        out.push(digit_char(d));
        assert(final(out)@ =~= old(out)@ + nat_text(n as nat));
    } else {
        push_nat(out, n / 10);
        let d: u8 = (n % 10) as u8;
        out.push(digit_char(d));
        assert(final(out)@ =~= old(out)@ + nat_text(n as nat));
    }
}

/// Appends the decimal text of an integer.
pub fn push_int(out: &mut Vec<char>, i: i128)
    ensures
        final(out)@ == old(out)@ + int_text(i as int),
{
    if i < 0 {
        out.push('-');
        let m: u128 = if i == i128::MIN {
            MAGNITUDE_LIMIT
        } else {
            (-i) as u128
        };
        push_nat(out, m);
        assert(final(out)@ =~= old(out)@ + int_text(i as int));
    } else {
        push_nat(out, i as u128);
    }
}

/// Whether `c` is a decimal digit.
pub fn digit_test(c: char) -> (b: bool)
    ensures
        b == is_digit(c),
{
    c >= '0' && c <= '9'
}

/// Reads the digits of `text` from `start` on. Gives `None` where a
/// character is no digit; else the value of the run, capped just above
/// `MAGNITUDE_LIMIT` where the run is worth more.
fn read_digits(text: &Vec<char>, start: usize) -> (r: Option<u128>)
    requires
        start <= text.len(),
    ensures
        r is None <==> !all_digits(text@.skip(start as int)),
        r matches Some(m) ==> {
            let v = digits_value(text@.skip(start as int));
            if v <= MAGNITUDE_LIMIT {
                m == v
            } else {
                m == MAGNITUDE_LIMIT + 1
            }
        },
{
    let ghost run = text@.skip(start as int);
    let mut acc: u128 = 0;
    let mut i: usize = start;
    while i < text.len()
        invariant
            start <= i <= text.len(),
            run == text@.skip(start as int),
            all_digits(run.take(i - start)),
            acc <= MAGNITUDE_LIMIT + 1,
            digits_value(run.take(i - start)) <= MAGNITUDE_LIMIT ==> acc == digits_value(
                run.take(i - start),
            ),
            digits_value(run.take(i - start)) > MAGNITUDE_LIMIT ==> acc == MAGNITUDE_LIMIT + 1,
        decreases text.len() - i,
    {
        let c: char = text[i];
        if !digit_test(c) {
            proof {
                assert(run[i - start] == c);
            }
            return None;
        }
        let d: u128 = (c as u32 - 48) as u128;
        proof {
            let before = run.take(i - start);
            let after = run.take(i + 1 - start);
            assert(after =~= before.push(c));
            lemma_digits_value_push(before, c);
            assert forall|k: int| 0 <= k < after.len() implies is_digit(#[trigger] after[k]) by {
                if k < before.len() {
                    assert(after[k] == before[k]);
                }
            }
        }
        if acc > MAGNITUDE_LIMIT / 10 {
            acc = MAGNITUDE_LIMIT + 1;
        } else {
            let next: u128 = acc * 10 + d;
            if next > MAGNITUDE_LIMIT {
                acc = MAGNITUDE_LIMIT + 1;
            } else {
                acc = next;
            }
        }
        i += 1;
    }
    proof {
        assert(run.take(i - start) =~= run);
    }
    Some(acc)
}

/// Reads a whole token as an integer between `lo` and `hi`.
pub fn parse_int(text: &Vec<char>, signed: bool, lo: i128, hi: i128) -> (r: Result<
    i128,
    DecodeError,
>)
    ensures
        match parse_int_in_range(text@, signed, lo as int, hi as int) {
            Ok(v) => r == Ok::<i128, DecodeError>(v as i128) && v == (v as i128) as int,
            Err(e) => r == Err::<i128, DecodeError>(e),
        },
{
    if text.len() == 0 {
        return Err(DecodeError::Malformed);
    }
    let first: char = text[0];
    let negative: bool = first == '-';
    let start: usize = if first == '+' || first == '-' {
        1
    } else {
        0
    };
    if negative && !signed {
        return Err(DecodeError::Malformed);
    }
    if start == 1 && text.len() == 1 {
        return Err(DecodeError::Malformed);
    }
    proof {
        assert(text@.skip(0) =~= text@);
    }
    match read_digits(text, start) {
        None => Err(DecodeError::Malformed),
        Some(m) => {
            if m > MAGNITUDE_LIMIT {
                return Err(DecodeError::OutOfRange);
            }
            let v: i128 = if negative {
                if m == MAGNITUDE_LIMIT {
                    i128::MIN
                } else {
                    -(m as i128)
                }
            } else {
                if m == MAGNITUDE_LIMIT {
                    return Err(DecodeError::OutOfRange);
                }
                m as i128
            };
            if lo <= v && v <= hi {
                Ok(v)
            } else {
                Err(DecodeError::OutOfRange)
            }
        },
    }
}

} // verus!
