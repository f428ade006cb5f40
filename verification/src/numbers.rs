//! Decimal text of integers: formatting (as `Display` writes them) and parsing
//! (as the integer `FromStr` impls accept them).
use vstd::prelude::*;
use crate::text::{chars_to_string, str_to_chars};

verus! {

/// The ASCII character of a decimal digit.
pub open spec fn digit_char(d: nat) -> char
    recommends
        d < 10,
{
    (d + 48) as char
}

/// Whether `c` is an ASCII decimal digit.
pub open spec fn is_digit(c: char) -> bool {
    '0' <= c <= '9'
}

/// The value of an ASCII decimal digit.
pub open spec fn digit_value(c: char) -> nat {
    (c as int - 48) as nat
}

/// The decimal text of `n`, without sign or leading zeros.
pub open spec fn decimal(n: nat) -> Seq<char>
    decreases n,
{
    if n < 10 {
        seq![digit_char(n)]
    } else {
        decimal(n / 10).push(digit_char(n % 10))
    }
}

/// Whether every character of `s` is a decimal digit.
pub open spec fn all_digits(s: Seq<char>) -> bool {
    forall|i: int| 0 <= i < s.len() ==> is_digit(#[trigger] s[i])
}

/// The value of a string of decimal digits.
pub open spec fn digits_value(s: Seq<char>) -> nat
    decreases s.len(),
{
    if s.len() == 0 {
        0
    } else {
        digits_value(s.drop_last()) * 10 + digit_value(s.last())
    }
}

/// The value that the unsigned integer `FromStr` impls read from `s` before the
/// range check: an optional `+`, then one or more decimal digits.
pub open spec fn unsigned_text_value(s: Seq<char>) -> Option<nat> {
    let d = if s.len() > 0 && s[0] == '+' {
        s.drop_first()
    } else {
        s
    };
    if d.len() > 0 && all_digits(d) {
        Some(digits_value(d))
    } else {
        None
    }
}

/// What `s.parse::<T>()` gives for an unsigned integer type `T` whose largest value is `max`.
pub open spec fn parse_unsigned_spec(s: Seq<char>, max: nat) -> Option<nat> {
    match unsigned_text_value(s) {
        Some(v) => if v <= max {
            Some(v)
        } else {
            None
        },
        None => None,
    }
}

/// What `s.parse::<T>()` gives for a signed integer type `T` ranging over `min..=max`:
/// an optional sign, then one or more decimal digits, in range.
pub open spec fn parse_signed_spec(s: Seq<char>, min: int, max: int) -> Option<int> {
    let neg = s.len() > 0 && s[0] == '-';
    let d = if s.len() > 0 && (s[0] == '+' || s[0] == '-') {
        s.drop_first()
    } else {
        s
    };
    if d.len() > 0 && all_digits(d) {
        let v: int = if neg {
            -digits_value(d)
        } else {
            digits_value(d) as int
        };
        if min <= v <= max {
            Some(v)
        } else {
            None
        }
    } else {
        None
    }
}

proof fn lemma_digits_value_prefix(s: Seq<char>, k: int)
    requires
        0 <= k <= s.len(),
    ensures
        digits_value(s.take(k)) <= digits_value(s),
    decreases s.len() - k,
{
    if k < s.len() {
        lemma_digits_value_prefix(s, k + 1);
        assert(s.take(k + 1).drop_last() == s.take(k));
    } else {
        assert(s.take(k) == s);
    }
}

/// The decimal text of `n` is a nonempty run of digits whose value is `n`.
pub proof fn lemma_decimal_digits(n: nat)
    ensures
        decimal(n).len() > 0,
        all_digits(decimal(n)),
        digits_value(decimal(n)) == n,
    decreases n,
{
    let d = n % 10;
    assert(((d + 48) as char) as int == d + 48);
    assert(digit_value(digit_char(d)) == d);
    if n >= 10 {
        lemma_decimal_digits(n / 10);
        assert(decimal(n).drop_last() == decimal(n / 10));
        assert(decimal(n).last() == digit_char(d));
        assert(n == (n / 10) * 10 + n % 10);
        assert(digits_value(decimal(n)) == digits_value(decimal(n / 10)) * 10 + digit_value(
            digit_char(d),
        ));
    } else {
        assert(decimal(n).drop_last() =~= Seq::<char>::empty());
        assert(digits_value(Seq::<char>::empty()) == 0);
        assert(decimal(n).last() == digit_char(d));
    }
}

/// Formatting a number in decimal and parsing the text back gives the number.
pub proof fn lemma_parse_decimal(n: nat, max: nat)
    requires
        n <= max,
    ensures
        parse_unsigned_spec(decimal(n), max) == Some(n),
{
    lemma_decimal_digits(n);
    assert(is_digit(decimal(n)[0]));
}

fn digits_of(n: u64) -> (v: Vec<char>)
    ensures
        v@ == decimal(n as nat),
    decreases n,
{
    if n < 10 {
        let c = ((n as u8) + 48) as char;
        let mut v: Vec<char> = Vec::new();
        v.push(c);
        v
    } else {
        let mut v = digits_of(n / 10);
        let c = (((n % 10) as u8) + 48) as char;
        v.push(c);
        v
    }
}

/// The decimal text of `n` (what `n.to_string()` gives).
pub fn u64_to_string(n: u64) -> (s: String)
    ensures
        s@ == decimal(n as nat),
{
    let v = digits_of(n);
    chars_to_string(&v)
}

/// The decimal text of `n` (what `n.to_string()` gives).
pub fn usize_to_string(n: usize) -> (s: String)
    ensures
        s@ == decimal(n as nat),
{
    u64_to_string(n as u64)
}

/// Reads the digits of `d` as a number, or `None` when it exceeds `max`.
fn digits_to_u64(d: &[char], start: usize, max: u64) -> (r: Option<u64>)
    requires
        start <= d.len(),
        all_digits(d@.skip(start as int)),
    ensures
        match r {
            Some(v) => v == digits_value(d@.skip(start as int)) && v <= max,
            None => digits_value(d@.skip(start as int)) > max,
        },
{
    let ghost t = d@.skip(start as int);
    let mut acc: u64 = 0;
    let mut i: usize = start;
    while i < d.len()
        invariant
            start <= i <= d.len(),
            t == d@.skip(start as int),
            all_digits(t),
            acc == digits_value(t.take(i - start)),
            acc <= max,
        decreases d.len() - i,
    {
        assert(is_digit(t[i - start]));
        assert(t[i - start] == d@[i as int]);
        let dv = (d[i] as u32 - 48) as u128;
        let next: u128 = (acc as u128) * 10 + dv;
        assert(t.take(i - start + 1).drop_last() == t.take(i - start));
        if next > max as u128 {
            proof {
                lemma_digits_value_prefix(t, i - start + 1);
            }
            return None;
        }
        acc = next as u64;
        i = i + 1;
    }
    assert(t.take(i - start) == t);
    Some(acc)
}

/// Parses `s` as an unsigned integer no larger than `max` (as the unsigned integer
/// `FromStr` impls do).
pub fn parse_unsigned(s: &[char], max: u64) -> (r: Option<u64>)
    ensures
        match r {
            Some(v) => parse_unsigned_spec(s@, max as nat) == Some(v as nat),
            None => parse_unsigned_spec(s@, max as nat) is None,
        },
{
    let start: usize = if s.len() > 0 && s[0] == '+' {
        1
    } else {
        0
    };
    let ghost d = if s@.len() > 0 && s@[0] == '+' {
        s@.drop_first()
    } else {
        s@
    };
    assert(d == s@.skip(start as int));
    if start >= s.len() {
        return None;
    }
    let mut i: usize = start;
    while i < s.len()
        invariant
            start <= i <= s.len(),
            d == s@.skip(start as int),
            d == (if s@.len() > 0 && s@[0] == '+' {
                s@.drop_first()
            } else {
                s@
            }),
            forall|k: int| start <= k < i ==> is_digit(#[trigger] s@[k]),
        decreases s.len() - i,
    {
        if !('0' <= s[i] && s[i] <= '9') {
            assert(d[i - start] == s@[i as int]);
            assert(!is_digit(d[i - start]));
            assert(!all_digits(d));
            return None;
        }
        i = i + 1;
    }
    assert forall|k: int| 0 <= k < d.len() implies is_digit(#[trigger] d[k]) by {
        assert(d[k] == s@[k + start]);
    }
    digits_to_u64(s, start, max)
}

/// Parses `s` as a `usize` (as `str::parse::<usize>` does).
pub fn parse_usize(s: &str) -> (r: Option<usize>)
    ensures
        match r {
            Some(v) => parse_unsigned_spec(s@, usize::MAX as nat) == Some(v as nat),
            None => parse_unsigned_spec(s@, usize::MAX as nat) is None,
        },
{
    let v = str_to_chars(s);
    match parse_unsigned(&v, usize::MAX as u64) {
        Some(n) => Some(n as usize),
        None => None,
    }
}

/// Parses `s` as a `u16` (as `str::parse::<u16>` does).
pub fn parse_u16(s: &str) -> (r: Option<u16>)
    ensures
        match r {
            Some(v) => parse_unsigned_spec(s@, u16::MAX as nat) == Some(v as nat),
            None => parse_unsigned_spec(s@, u16::MAX as nat) is None,
        },
{
    let v = str_to_chars(s);
    match parse_unsigned(&v, u16::MAX as u64) {
        Some(n) => Some(n as u16),
        None => None,
    }
}

/// Parses `s` as an `i32` (as `str::parse::<i32>` does).
pub fn parse_i32(s: &str) -> (r: Option<i32>)
    ensures
        match r {
            Some(v) => parse_signed_spec(s@, i32::MIN as int, i32::MAX as int) == Some(v as int),
            None => parse_signed_spec(s@, i32::MIN as int, i32::MAX as int) is None,
        },
{
    let v = str_to_chars(s);
    if v.len() > 0 && v[0] == '-' {
        let mut rest: Vec<char> = Vec::new();
        let mut i: usize = 1;
        while i < v.len()
            invariant
                1 <= i <= v.len(),
                rest@ == v@.subrange(1, i as int),
            decreases v.len() - i,
        {
            rest.push(v[i]);
            i = i + 1;
            assert(v@.subrange(1, i as int) == v@.subrange(1, i - 1).push(v@[i - 1]));
        }
        assert(rest@ == v@.drop_first());
        if rest.len() == 0 || rest[0] == '+' {
            return None;
        }
        match parse_unsigned(&rest, 2147483648) {
            Some(m) => Some((0 - (m as i64)) as i32),
            None => None,
        }
    } else {
        match parse_unsigned(&v, 2147483647) {
            Some(m) => Some(m as i32),
            None => None,
        }
    }
}

/// Why an unsigned integer `FromStr` impl refuses a text, as its error says it.
#[derive(Debug, Clone, Copy, PartialEq, Eq, Structural)]
pub enum IntErrorKind {
    /// `cannot parse integer from empty string`
    Empty,
    /// `invalid digit found in string`
    InvalidDigit,
    /// `number too large to fit in target type`
    PosOverflow,
}

/// Reads digits left to right from the value `acc`: the first non-digit, or the
/// first digit that takes the value above `max`, is an error.
pub open spec fn scan_digits(d: Seq<char>, acc: nat, max: nat) -> Option<IntErrorKind>
    decreases d.len(),
{
    if d.len() == 0 {
        None
    } else if !is_digit(d[0]) {
        Some(IntErrorKind::InvalidDigit)
    } else if acc * 10 + digit_value(d[0]) > max {
        Some(IntErrorKind::PosOverflow)
    } else {
        scan_digits(d.drop_first(), acc * 10 + digit_value(d[0]), max)
    }
}

/// The error of an unsigned integer `FromStr` impl (largest value `max`) for `s`,
/// or `None` when it parses.
pub open spec fn unsigned_parse_error(s: Seq<char>, max: nat) -> Option<IntErrorKind> {
    if s.len() == 0 {
        Some(IntErrorKind::Empty)
    } else if s.len() == 1 && (s[0] == '+' || s[0] == '-') {
        Some(IntErrorKind::InvalidDigit)
    } else {
        scan_digits(if s[0] == '+' {
            s.drop_first()
        } else {
            s
        }, 0, max)
    }
}

/// The message of an integer parse error.
pub open spec fn int_error_message(k: IntErrorKind) -> Seq<char> {
    match k {
        IntErrorKind::Empty => "cannot parse integer from empty string"@,
        IntErrorKind::InvalidDigit => "invalid digit found in string"@,
        IntErrorKind::PosOverflow => "number too large to fit in target type"@,
    }
}

/// The message of an integer parse error.
pub fn int_error_text(k: IntErrorKind) -> (r: String)
    ensures
        r@ == int_error_message(k),
{
    match k {
        IntErrorKind::Empty => String::from_str("cannot parse integer from empty string"),
        IntErrorKind::InvalidDigit => String::from_str("invalid digit found in string"),
        IntErrorKind::PosOverflow => String::from_str("number too large to fit in target type"),
    }
}

/// Why `s` is not an unsigned integer no larger than `max` (`None` when it is one).
pub fn unsigned_parse_error_of(s: &[char], max: u64) -> (r: Option<IntErrorKind>)
    ensures
        r == unsigned_parse_error(s@, max as nat),
{
    if s.len() == 0 {
        return Some(IntErrorKind::Empty);
    }
    if s.len() == 1 && (s[0] == '+' || s[0] == '-') {
        return Some(IntErrorKind::InvalidDigit);
    }
    let start: usize = if s[0] == '+' {
        1
    } else {
        0
    };
    let ghost d = if s@[0] == '+' {
        s@.drop_first()
    } else {
        s@
    };
    assert(d =~= s@.skip(start as int));
    assert(unsigned_parse_error(s@, max as nat) == scan_digits(d, 0, max as nat));
    let mut acc: u64 = 0;
    let mut i: usize = start;
    while i < s.len()
        invariant
            start <= i <= s.len(),
            unsigned_parse_error(s@, max as nat) == scan_digits(d, 0, max as nat),
            d == s@.skip(start as int),
            acc <= max,
            scan_digits(d, 0, max as nat) == scan_digits(s@.skip(i as int), acc as nat, max as nat),
        decreases s.len() - i,
    {
        let c = s[i];
        assert(s@.skip(i as int)[0] == c);
        if !('0' <= c && c <= '9') {
            return Some(IntErrorKind::InvalidDigit);
        }
        let next: u128 = (acc as u128) * 10 + ((c as u32 - 48) as u128);
        if next > max as u128 {
            return Some(IntErrorKind::PosOverflow);
        }
        assert(s@.skip(i as int).drop_first() =~= s@.skip(i + 1));
        acc = next as u64;
        i = i + 1;
    }
    None
}

} // verus!
