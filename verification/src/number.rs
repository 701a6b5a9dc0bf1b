//! Whole numbers as decimal text.
use vstd::prelude::*;

use crate::text::{fail, Error, Text};
use crate::text::chars_of;

verus! {

pub open spec fn digit(n: nat) -> char {
    if n == 0 {
        '0'
    } else if n == 1 {
        '1'
    } else if n == 2 {
        '2'
    } else if n == 3 {
        '3'
    } else if n == 4 {
        '4'
    } else if n == 5 {
        '5'
    } else if n == 6 {
        '6'
    } else if n == 7 {
        '7'
    } else if n == 8 {
        '8'
    } else {
        '9'
    }
}

/// The decimal digits of `n`, without leading zeros.
pub open spec fn decimal(n: nat) -> Text
    decreases n,
{
    if n < 10 {
        seq![digit(n)]
    } else {
        decimal(n / 10).push(digit(n % 10))
    }
}

/// `decimal` with a minus sign before a negative number.
pub open spec fn signed_decimal(n: int) -> Text {
    if n < 0 {
        seq!['-'] + decimal((-n) as nat)
    } else {
        decimal(n as nat)
    }
}

fn digit_char(n: u64) -> (r: char)
    requires
        n < 10,
    ensures
        r == digit(n as nat),
{
    match n {
        0 => '0',
        1 => '1',
        2 => '2',
        3 => '3',
        4 => '4',
        5 => '5',
        6 => '6',
        7 => '7',
        8 => '8',
        _ => '9',
    }
}

pub(crate) fn u64_text(n: u64) -> (r: String)
    ensures
        r@ == decimal(n as nat),
    decreases n,
{
    if n < 10 {
        let mut r = String::new();
        r.push(digit_char(n));
        assert(r@ =~= seq![digit(n as nat)]);
        r
    } else {
        let mut r = u64_text(n / 10);
        r.push(digit_char(n % 10));
        r
    }
}

pub(crate) fn usize_text(n: usize) -> (r: String)
    ensures
        r@ == decimal(n as nat),
{
    u64_text(n as u64)
}

pub(crate) fn i64_text(n: i64) -> (r: String)
    ensures
        r@ == signed_decimal(n as int),
{
    if n < 0 {
        let below: i64 = -(n + 1);
        let size: u64 = below as u64 + 1;
        let mut r = String::new();
        r.push('-');
        assert(r@ =~= seq!['-']);
        r.append(u64_text(size).as_str());
        r
    } else {
        u64_text(n as u64)
    }
}

/// The value of a decimal digit.
pub open spec fn digit_value(c: char) -> Option<nat> {
    if '0' <= c <= '9' {
        Some((c as int - '0' as int) as nat)
    } else {
        None
    }
}

/// The number that a run of digits gives: the first character that is no
/// digit, or that takes the value past the largest `u64`, decides the failure.
pub open spec fn read_digits(s: Text) -> Result<nat, Text>
    decreases s.len(),
{
    if s.len() == 0 {
        Ok(0)
    } else {
        match read_digits(s.drop_last()) {
            Err(problem) => Err(problem),
            Ok(value) => match digit_value(s.last()) {
                None => Err("invalid digit found in string"@),
                Some(d) => if value * 10 + d > u64::MAX {
                    Err("number too large to fit in target type"@)
                } else {
                    Ok(value * 10 + d)
                },
            },
        }
    }
}

/// A count as git prints it: digits, with a plus sign allowed before them.
pub open spec fn read_count(s: Text) -> Result<nat, Text> {
    if s.len() == 0 {
        Err("cannot parse integer from empty string"@)
    } else if s.len() > 1 && s[0] == '+' {
        read_digits(s.drop_first())
    } else {
        read_digits(s)
    }
}

pub(crate) fn parse_count(s: &str) -> (r: Result<u64, Error>)
    ensures
        match (r, read_count(s@)) {
            (Ok(value), Ok(expected)) => value == expected,
            (Err(error), Err(problem)) => error@ == problem,
            _ => false,
        },
{
    let chars = chars_of(s);
    if chars.len() == 0 {
        return Err(fail("cannot parse integer from empty string".to_owned()));
    }
    let start: usize = if chars.len() > 1 && chars[0] == '+' {
        1
    } else {
        0
    };
    let ghost digits = chars@.skip(start as int);
    proof {
        assert(chars@.skip(0) =~= chars@);
        assert(chars@.skip(1) =~= chars@.drop_first());
        assert(read_count(s@) == read_digits(digits));
    }
    let mut value: u64 = 0;
    let mut i: usize = start;
    while i < chars.len()
        invariant
            start <= i <= chars@.len(),
            digits == chars@.skip(start as int),
            read_count(s@) == read_digits(digits),
            read_digits(digits.take(i - start)) == Ok::<nat, Text>(value as nat),
        decreases chars@.len() - i,
    {
        let c = chars[i];
        let ghost seen = digits.take(i + 1 - start);
        proof {
            assert(seen.drop_last() =~= digits.take(i - start));
            assert(seen.last() == c);
        }
        if !('0' <= c && c <= '9') {
            proof {
                lemma_read_digits_stops(digits, i + 1 - start);
            }
            return Err(fail("invalid digit found in string".to_owned()));
        }
        let d: u64 = (c as u32 - '0' as u32) as u64;
        if value > (u64::MAX - d) / 10 {
            proof {
                lemma_read_digits_stops(digits, i + 1 - start);
            }
            return Err(fail("number too large to fit in target type".to_owned()));
        }
        value = value * 10 + d;
        i += 1;
    }
    assert(digits.take(i - start) =~= digits);
    Ok(value)
}

proof fn lemma_read_digits_stops(s: Text, n: int)
    requires
        0 <= n <= s.len(),
        read_digits(s.take(n)) is Err,
    ensures
        read_digits(s) == read_digits(s.take(n)),
    decreases s.len(),
{
    if n == s.len() {
        assert(s.take(n) =~= s);
    } else {
        assert(s.drop_last().take(n) =~= s.take(n));
        lemma_read_digits_stops(s.drop_last(), n);
    }
}

/// Reading the decimal text of a `u64` gives the number back.
pub proof fn decimal_reads_back(n: u64)
    ensures
        read_count(decimal(n as nat)) == Ok::<nat, Text>(n as nat),
{
    lemma_decimal_digits(n as nat);
    let s = decimal(n as nat);
    assert(digit_value(s[0]) is Some);
}

proof fn lemma_decimal_digits(n: nat)
    requires
        n <= u64::MAX,
    ensures
        decimal(n).len() > 0,
        digit_value(decimal(n)[0]) is Some,
        read_digits(decimal(n)) == Ok::<nat, Text>(n),
    decreases n,
{
    let s = decimal(n);
    if n < 10 {
        assert(s.drop_last() =~= Seq::<char>::empty());
        assert(s.last() == digit(n));
        assert(digit_value(digit(n)) == Some(n));
        assert(read_digits(s.drop_last()) == Ok::<nat, Text>(0));
    } else {
        lemma_decimal_digits(n / 10);
        assert(s.drop_last() =~= decimal(n / 10));
        assert(digit_value(digit(n % 10)) == Some(n % 10));
        assert(s[0] == decimal(n / 10)[0]);
    }
}

} // verus!
