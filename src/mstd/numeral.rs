//! Decimal numerals: their values, their canonical spelling, and parsing them
//! with bounds.

use vstd::prelude::*;
use vstd::string::*;
use crate::mstd::text::push_char;

verus! {

pub open spec fn is_digit(c: char) -> bool {
    '0' <= c && c <= '9'
}

pub open spec fn all_digits(s: Seq<char>) -> bool {
    forall|i: int| 0 <= i < s.len() ==> is_digit(#[trigger] s[i])
}

/// The digit character for `d < 10`.
pub open spec fn digit_char(d: nat) -> char {
    (d + 48) as char
}

/// The value of one digit character.
pub open spec fn digit_value(c: char) -> nat {
    (c as u32 - 48) as nat
}

/// The value of a run of digits, most significant first.
pub open spec fn digits_value(s: Seq<char>) -> nat
    decreases s.len(),
{
    if s.len() == 0 {
        0
    } else {
        digits_value(s.drop_last()) * 10 + digit_value(s.last())
    }
}

/// The canonical decimal spelling of `n`: no sign, no leading zero.
pub open spec fn decimal(n: nat) -> Seq<char>
    decreases n,
{
    if n < 10 {
        seq![digit_char(n)]
    } else {
        decimal(n / 10).push(digit_char(n % 10))
    }
}

/// The spelling of `i`: a minus sign before the magnitude of a negative number.
pub open spec fn signed_decimal(i: int) -> Seq<char> {
    if i < 0 {
        seq!['-'] + decimal((-i) as nat)
    } else {
        decimal(i as nat)
    }
}

/// A numeral: at least one digit, and nothing else.
pub open spec fn is_numeral(d: Seq<char>) -> bool {
    d.len() > 0 && all_digits(d)
}

/// The value of an unsigned integer literal: digits after an optional `+`.
pub open spec fn unsigned_literal(s: Seq<char>) -> Option<nat> {
    let d = if s.len() > 0 && s[0] == '+' {
        s.skip(1)
    } else {
        s
    };
    if is_numeral(d) {
        Some(digits_value(d))
    } else {
        None
    }
}

/// The value of a signed integer literal: digits after an optional `+` or `-`.
pub open spec fn signed_literal(s: Seq<char>) -> Option<int> {
    if s.len() > 0 && s[0] == '-' {
        if is_numeral(s.skip(1)) {
            Some(-digits_value(s.skip(1)))
        } else {
            None
        }
    } else {
        match unsigned_literal(s) {
            Some(n) => Some(n as int),
            None => None,
        }
    }
}

/// A longer run of digits is worth at least as much as its prefix.
pub proof fn lemma_digits_value_prefix(s: Seq<char>, k: int)
    requires
        all_digits(s),
        0 <= k <= s.len(),
    ensures
        digits_value(s.take(k)) <= digits_value(s),
    decreases s.len(),
{
    if k < s.len() {
        assert(s.drop_last().take(k) =~= s.take(k));
        lemma_digits_value_prefix(s.drop_last(), k);
    } else {
        assert(s.take(k) =~= s);
    }
}

/// The spelling of `n` is a numeral with value `n`.
pub proof fn lemma_decimal(n: nat)
    ensures
        is_numeral(decimal(n)),
        digits_value(decimal(n)) == n,
    decreases n,
{
    if n < 10 {
        assert(digit_char(n) as u32 == n + 48);
        assert(decimal(n).drop_last() =~= Seq::<char>::empty());
        assert(digit_value(decimal(n).last()) == n);
        assert(digits_value(decimal(n)) == digits_value(Seq::<char>::empty()) * 10 + n);
    } else {
        lemma_decimal(n / 10);
        assert(digit_char(n % 10) as u32 == n % 10 + 48);
        assert(decimal(n).drop_last() =~= decimal(n / 10));
        assert(n == (n / 10) * 10 + n % 10);
        assert(digit_value(decimal(n).last()) == n % 10);
        assert(digits_value(decimal(n)) == digits_value(decimal(n / 10)) * 10 + n % 10);
    }
}

/// Literals read back what their spelling says.
pub proof fn lemma_unsigned_literal_of_decimal(n: nat)
    ensures
        unsigned_literal(decimal(n)) == Some(n),
{
    lemma_decimal(n);
}

pub proof fn lemma_signed_literal_of_decimal(i: int)
    ensures
        signed_literal(signed_decimal(i)) == Some(i),
{
    if i < 0 {
        lemma_decimal((-i) as nat);
        assert((seq!['-'] + decimal((-i) as nat)).skip(1) =~= decimal((-i) as nat));
    } else {
        lemma_decimal(i as nat);
    }
}

/// Reads the characters of `s` from index `from` on as a numeral whose value is
/// at most `limit`.
pub fn parse_digits(s: &str, from: usize, limit: u64) -> (r: Option<u64>)
    requires
        from <= s@.len(),
    ensures
        match r {
            Some(v) => is_numeral(s@.skip(from as int)) && v == digits_value(s@.skip(from as int))
                && v <= limit,
            None => !(is_numeral(s@.skip(from as int)) && digits_value(s@.skip(from as int))
                <= limit),
        },
{
    let n = s.unicode_len();
    if from == n {
        return None;
    }
    let ghost d = s@.skip(from as int);
    let mut acc: u64 = 0;
    let mut i: usize = from;
    assert(d.take(0) =~= Seq::<char>::empty());
    while i < n
        invariant
            n == s@.len(),
            from <= i <= n,
            d == s@.skip(from as int),
            all_digits(d.take(i - from)),
            acc == digits_value(d.take(i - from)),
            acc <= limit,
        decreases n - i,
    {
        let c = s.get_char(i);
        assert(d[i - from] == c);
        if c < '0' || c > '9' {
            return None;
        }
        let next: u128 = acc as u128 * 10 + (c as u32 - 48) as u128;
        assert(d.take(i - from + 1).drop_last() =~= d.take(i - from));
        if next > limit as u128 {
            proof {
                if all_digits(d) {
                    lemma_digits_value_prefix(d, i - from + 1);
                }
            }
            return None;
        }
        acc = next as u64;
        i += 1;
    }
    assert(d.take(n - from) =~= d);
    Some(acc)
}

/// Writes the decimal spelling of `n`.
pub fn decimal_string(n: u64) -> (r: String)
    ensures
        r@ == decimal(n as nat),
    decreases n,
{
    if n < 10 {
        let mut s = String::new();
        push_char(&mut s, ((n as u8) + 48) as char);
        s
    } else {
        let mut s = decimal_string(n / 10);
        push_char(&mut s, ((n % 10) as u8 + 48) as char);
        s
    }
}

/// Writes the decimal spelling of `i`, with a minus sign where it is negative.
pub fn signed_decimal_string(i: i64) -> (r: String)
    ensures
        r@ == signed_decimal(i as int),
{
    if i < 0 {
        let magnitude: u64 = (0 - (i as i128)) as u64;
        let digits = decimal_string(magnitude);
        let mut s = String::new();
        push_char(&mut s, '-');
        s.append(digits.as_str());
        s
    } else {
        decimal_string(i as u64)
    }
}

} // verus!

verus! {

/// Reads an unsigned integer literal whose value is at most `limit`.
pub fn parse_unsigned(s: &str, limit: u64) -> (r: Option<u64>)
    ensures
        r is Some <==> (unsigned_literal(s@) is Some && unsigned_literal(s@)->0 <= limit),
        r is Some ==> r->0 == unsigned_literal(s@)->0,
{
    let n = s.unicode_len();
    let from: usize = if n > 0 && s.get_char(0) == '+' {
        1
    } else {
        0
    };
    assert(from == 0 ==> s@.skip(0) =~= s@);
    parse_digits(s, from, limit)
}

/// Reads a signed integer literal whose value lies between `lower` and `upper`.
pub fn parse_signed(s: &str, lower: i64, upper: i64) -> (r: Option<i64>)
    requires
        lower <= 0 <= upper,
    ensures
        r is Some <==> (signed_literal(s@) is Some && lower <= signed_literal(s@)->0 <= upper),
        r is Some ==> r->0 == signed_literal(s@)->0,
{
    let n = s.unicode_len();
    if n > 0 && s.get_char(0) == '-' {
        let magnitude_limit: u64 = (0 - (lower as i128)) as u64;
        match parse_digits(s, 1, magnitude_limit) {
            Some(m) => Some((0 - (m as i128)) as i64),
            None => None,
        }
    } else {
        match parse_unsigned(s, upper as u64) {
            Some(v) => Some(v as i64),
            None => None,
        }
    }
}

} // verus!
