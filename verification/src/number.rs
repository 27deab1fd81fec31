//! Decimal numbers in text.
use vstd::prelude::*;

verus! {

/// Whether a character is an ASCII digit.
pub open spec fn is_digit(c: char) -> bool {
    '0' <= c <= '9'
}

/// Whether every character is an ASCII digit, as in the empty text too.
pub open spec fn all_digits(s: Seq<char>) -> bool {
    forall|i: int| 0 <= i < s.len() ==> is_digit(#[trigger] s[i])
}

/// The number that the digits write in base ten.
pub open spec fn digits_value(s: Seq<char>) -> int
    decreases s.len(),
{
    if s.len() == 0 {
        0
    } else {
        10 * digits_value(s.drop_last()) + (s.last() as int - '0' as int)
    }
}

/// Whether an integer is one of `i64`.
pub open spec fn in_i64(n: int) -> bool {
    i64::MIN <= n <= i64::MAX
}

/// The `i64` that a text writes: a sign that may be missing, then at least one
/// digit and nothing else.
pub open spec fn parse_i64(s: Seq<char>) -> Option<int> {
    let signed = s.len() > 0 && (s[0] == '+' || s[0] == '-');
    let digits = if signed {
        s.skip(1)
    } else {
        s
    };
    let value = if signed && s[0] == '-' {
        -digits_value(digits)
    } else {
        digits_value(digits)
    };
    if digits.len() > 0 && all_digits(digits) && in_i64(value) {
        Some(value)
    } else {
        None
    }
}

/// Whether every character is an ASCII digit.
pub fn only_digits(s: &[char]) -> (r: bool)
    ensures
        r == all_digits(s@),
{
    let mut i: usize = 0;
    while i < s.len()
        invariant
            i <= s.len(),
            forall|j: int| 0 <= j < i ==> is_digit(#[trigger] s@[j]),
        decreases s.len() - i,
    {
        if !('0' <= s[i] && s[i] <= '9') {
            return false;
        }
        i = i + 1;
    }
    true
}

proof fn lemma_digits_value_grows(s: Seq<char>, n: int)
    requires
        0 <= n <= s.len(),
        all_digits(s),
    ensures
        0 <= digits_value(s.take(n)) <= digits_value(s),
    decreases s.len(),
{
    if n == s.len() {
        assert(s.take(n) == s);
        if s.len() > 0 {
            lemma_digits_value_grows(s.drop_last(), s.len() - 1);
            assert(s.drop_last().take(s.len() - 1) == s.drop_last());
            assert(is_digit(s.last()));
        }
    } else {
        lemma_digits_value_grows(s.drop_last(), n);
        assert(s.drop_last().take(n) == s.take(n));
        assert(is_digit(s.last()));
    }
}

/// The number that the digits from index `from` on write, up to 2^63.
fn magnitude(s: &[char], from: usize) -> (r: Option<u64>)
    requires
        from <= s.len(),
        all_digits(s@.skip(from as int)),
    ensures
        match r {
            Some(v) => v == digits_value(s@.skip(from as int)) && v <= 0x8000_0000_0000_0000,
            None => digits_value(s@.skip(from as int)) > 0x8000_0000_0000_0000,
        },
{
    let ghost t = s@.skip(from as int);
    let mut value: u64 = 0;
    let mut i: usize = from;
    while i < s.len()
        invariant
            from <= i <= s.len(),
            t == s@.skip(from as int),
            all_digits(t),
            value == digits_value(t.take(i - from)),
            value <= 0x8000_0000_0000_0000,
        decreases s.len() - i,
    {
        let c: char = s[i];
        assert(t[i - from] == c);
        assert(is_digit(t[i - from]));
        let digit: u64 = (c as u64) - ('0' as u64);
        proof {
            assert(t.take(i + 1 - from).drop_last() == t.take(i - from));
            lemma_digits_value_grows(t, i + 1 - from);
        }
        if value > 922_337_203_685_477_580 {
            return None;
        }
        let next: u64 = value * 10 + digit;
        if next > 0x8000_0000_0000_0000 {
            return None;
        }
        value = next;
        i = i + 1;
    }
    assert(t.take(s.len() - from) == t);
    Some(value)
}

/// The `i64` that a text writes.
pub fn read_i64(s: &[char]) -> (r: Option<i64>)
    ensures
        match r {
            Some(v) => parse_i64(s@) == Some(v as int),
            None => parse_i64(s@) is None,
        },
{
    let negative: bool = s.len() > 0 && s[0] == '-';
    let from: usize = if s.len() > 0 && (s[0] == '+' || s[0] == '-') { 1 } else { 0 };
    assert(s@.skip(0) == s@);
    let digits: &[char] = vstd::slice::slice_subrange(s, from, s.len());
    assert(digits@ == s@.skip(from as int));
    if digits.len() == 0 || !only_digits(digits) {
        return None;
    }
    match magnitude(s, from) {
        None => None,
        Some(v) => if negative {
            if v == 0x8000_0000_0000_0000 {
                Some(i64::MIN)
            } else {
                Some(-(v as i64))
            }
        } else if v < 0x8000_0000_0000_0000 {
            Some(v as i64)
        } else {
            None
        },
    }
}

/// The digit that writes a number below ten.
pub open spec fn digit_char(n: int) -> char {
    (n + '0' as int) as char
}

/// A natural number written in base ten.
pub open spec fn decimal(n: nat) -> Seq<char>
    decreases n,
{
    if n < 10 {
        seq![digit_char(n as int)]
    } else {
        decimal(n / 10).push(digit_char(n as int % 10))
    }
}

/// A number written in base ten.
pub fn write_decimal(n: usize) -> (r: Vec<char>)
    ensures
        r@ == decimal(n as nat),
    decreases n,
{
    let digit: char = (((n % 10) as u8) + 48u8) as char;
    let mut out: Vec<char> = if n < 10 { Vec::new() } else { write_decimal(n / 10) };
    out.push(digit);
    assert(n < 10 ==> out@ == seq![digit]);
    out
}

} // verus!
