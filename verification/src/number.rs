//! Decimal numbers, written and read.

use vstd::prelude::*;

verus! {

/// The digit with the value `d`.
pub open spec fn digit(d: int) -> char
    recommends
        0 <= d < 10,
{
    (48 + d) as char
}

/// Whether `c` is one of the ten ASCII digits.
pub open spec fn is_digit(c: char) -> bool {
    '0' <= c <= '9'
}

/// `n` in decimal, without leading zeros.
pub open spec fn decimal(n: nat) -> Seq<char>
    decreases n,
{
    if n < 10 {
        seq![digit(n as int)]
    } else {
        decimal(n / 10).push(digit((n % 10) as int))
    }
}

/// The value of a row of digits.
pub open spec fn digits_value(s: Seq<char>) -> nat
    decreases s.len(),
{
    if s.len() == 0 {
        0
    } else {
        digits_value(s.drop_last()) * 10 + (s.last() as nat - 48) as nat
    }
}

/// Whether `s` is made of digits only.
pub open spec fn all_digits(s: Seq<char>) -> bool {
    forall|i: int| 0 <= i < s.len() ==> is_digit(#[trigger] s[i])
}

/// `s` without a leading plus sign.
pub open spec fn unsigned(s: Seq<char>) -> Seq<char> {
    if s.len() > 0 && s[0] == '+' {
        s.skip(1)
    } else {
        s
    }
}

/// The number that `s` writes: an optional plus sign and at least one digit,
/// nothing else, with a value of at most `max`.
pub open spec fn number(s: Seq<char>, max: nat) -> Option<nat> {
    let d = unsigned(s);
    if d.len() > 0 && all_digits(d) && digits_value(d) <= max {
        Some(digits_value(d))
    } else {
        None
    }
}

proof fn lemma_value_grows(s: Seq<char>, n: int)
    requires
        0 <= n <= s.len(),
        all_digits(s),
    ensures
        digits_value(s.take(n)) <= digits_value(s),
    decreases s.len() - n,
{
    if n == s.len() {
        assert(s.take(n) =~= s);
    } else {
        lemma_value_grows(s, n + 1);
        assert(s.take(n + 1).drop_last() =~= s.take(n));
    }
}

/// Decimal numbers are written with digits only, and at least one.
pub proof fn lemma_decimal_digits(n: nat)
    ensures
        decimal(n).len() > 0,
        all_digits(decimal(n)),
        digits_value(decimal(n)) == n,
    decreases n,
{
    if n < 10 {
        assert(decimal(n).drop_last() =~= seq![]);
        assert(digits_value(decimal(n).drop_last()) == 0);
        assert(decimal(n).last() == digit(n as int));
    } else {
        lemma_decimal_digits(n / 10);
        assert(decimal(n).drop_last() =~= decimal(n / 10));
        assert(decimal(n).last() == digit((n % 10) as int));
    }
}

/// A number that was written in decimal is read back as it was.
pub proof fn law_decimal_reads_back(n: nat, max: nat)
    requires
        n <= max,
    ensures
        number(decimal(n), max) == Some(n),
{
    lemma_decimal_digits(n);
    assert(is_digit(decimal(n)[0]));
}

/// Reads a decimal number of at most `max`.
pub fn parse_number(s: &[char], max: u64) -> (out: Option<u64>)
    ensures
        match out {
            Some(n) => number(s@, max as nat) == Some(n as nat),
            None => number(s@, max as nat) is None,
        },
{
    let start: usize = if s.len() > 0 && s[0] == '+' {
        1
    } else {
        0
    };
    let ghost d = unsigned(s@);
    proof {
        assert(d =~= s@.skip(start as int));
    }
    if s.len() == start {
        return None;
    }
    let mut n: u64 = 0;
    let mut i: usize = start;
    while i < s.len()
        invariant
            start <= i <= s.len(),
            d == s@.skip(start as int),
            d == unsigned(s@),
            d.len() == s.len() - start,
            n == digits_value(d.take(i - start)),
            n <= max,
            forall|j: int| 0 <= j < i - start ==> is_digit(#[trigger] d[j]),
        decreases s.len() - i,
    {
        let c = s[i];
        proof {
            assert(d[i - start] == c);
            assert(d.take(i - start + 1).drop_last() =~= d.take(i - start));
        }
        if !('0' <= c && c <= '9') {
            return None;
        }
        let v: u64 = (c as u32 - 48) as u64;
        if n > max / 10 || max - n * 10 < v {
            proof {
                if all_digits(d) {
                    lemma_value_grows(d, i - start + 1);
                }
            }
            return None;
        }
        n = n * 10 + v;
        i = i + 1;
    }
    proof {
        assert(d.take(i - start) =~= d);
    }
    Some(n)
}

/// Appends `n` in decimal.
pub fn push_decimal(out: &mut String, n: u64)
    ensures
        final(out)@ == old(out)@ + decimal(n as nat),
    decreases n,
{
    if n >= 10 {
        push_decimal(out, n / 10);
    }
    out.push(digit_of(n % 10));
    assert(out@ =~= old(out)@ + decimal(n as nat));
}

fn digit_of(d: u64) -> (c: char)
    requires
        d < 10,
    ensures
        c == digit(d as int),
{
    (48 + d as u8) as char
}

/// A number is read digit by digit: one more digit makes it ten times as large
/// and adds the digit. A character that is no digit, and a value past the
/// limit, end it.
pub proof fn law_number_by_digits(s: Seq<char>, c: char, max: nat)
    requires
        s != seq!['+'],
    ensures
        number(Seq::empty(), max) is None,
        number(s.push(c), max) == {
            let first = if s.len() == 0 {
                Some(0nat)
            } else {
                number(s, max)
            };
            match first {
                Some(n) if '0' <= c <= '9' && n * 10 + (c as int - '0' as int) <= max => Some(
                    (n * 10 + (c as int - '0' as int)) as nat,
                ),
                _ => None,
            }
        },
{
    let t = s.push(c);
    if s.len() == 0 {
        if c == '+' {
            assert(unsigned(t) =~= seq![]);
        } else {
            assert(t.drop_last() =~= s);
            assert(digits_value(s) == 0);
            assert(t.last() == c && t[0] == c);
        }
    } else {
        assert(t[0] == s[0]);
        let d = unsigned(t);
        let e = unsigned(s);
        assert(d =~= e.push(c));
        if s[0] == '+' && s.len() == 1 {
            assert(s =~= seq!['+']);
        }
        assert(d.drop_last() =~= e);
        if all_digits(d) {
            assert forall|i: int| 0 <= i < e.len() implies is_digit(#[trigger] e[i]) by {
                assert(d[i] == e[i]);
            }
            assert(is_digit(d[e.len() as int]));
        }
        if all_digits(e) && is_digit(c) {
            assert(all_digits(d));
        }
    }
}

/// One plus sign may stand before a number, and changes nothing.
pub proof fn law_number_signed(s: Seq<char>, max: nat)
    ensures
        number(seq!['+'] + s, max) == if s.len() > 0 && s[0] == '+' {
            None
        } else {
            number(s, max)
        },
{
    assert((seq!['+'] + s).skip(1) =~= s);
    if s.len() > 0 && s[0] == '+' {
        assert(!is_digit(s[0]));
    }
}

/// A number is written without leading zeros, its last digit last.
pub proof fn law_decimal(n: nat, d: nat)
    requires
        d < 10,
    ensures
        decimal(d) == seq![(48 + d) as char],
        n > 0 ==> decimal(n * 10 + d) == decimal(n).push((48 + d) as char),
        n > 0 ==> decimal(n)[0] != '0',
    decreases n,
{
    if n > 0 {
        assert((n * 10 + d) / 10 == n && (n * 10 + d) % 10 == d);
        if n >= 10 {
            law_decimal(n / 10, 0);
            lemma_decimal_digits(n / 10);
            assert(decimal(n)[0] == decimal(n / 10)[0]);
        }
    }
}

} // verus!
