//! Decimal notation of integers.

use crate::text::chars_of;
use vstd::prelude::*;

verus! {

pub open spec fn digit(value: int) -> char {
    if value == 0 {
        '0'
    } else if value == 1 {
        '1'
    } else if value == 2 {
        '2'
    } else if value == 3 {
        '3'
    } else if value == 4 {
        '4'
    } else if value == 5 {
        '5'
    } else if value == 6 {
        '6'
    } else if value == 7 {
        '7'
    } else if value == 8 {
        '8'
    } else {
        '9'
    }
}

pub open spec fn is_digit(c: char) -> bool {
    '0' <= c <= '9'
}

pub open spec fn digit_value(c: char) -> int {
    c as int - '0' as int
}

/// The decimal digits of a natural number, without leading zeros.
pub open spec fn digits(n: nat) -> Seq<char>
    decreases n,
{
    if n < 10 {
        seq![digit(n as int)]
    } else {
        digits(n / 10).push(digit((n % 10) as int))
    }
}

/// The decimal notation of an integer, as `to_string` gives it.
pub open spec fn decimal(n: int) -> Seq<char> {
    if n < 0 {
        seq!['-'] + digits((-n) as nat)
    } else {
        digits(n as nat)
    }
}

/// The number that a sequence of digits stands for.
pub open spec fn digits_value(s: Seq<char>) -> int
    decreases s.len(),
{
    if s.len() == 0 {
        0
    } else {
        digits_value(s.drop_last()) * 10 + digit_value(s.last())
    }
}

pub open spec fn all_digits(s: Seq<char>) -> bool {
    s.len() > 0 && forall|i: int| 0 <= i < s.len() ==> is_digit(#[trigger] s[i])
}

pub open spec fn in_range(value: int, min: int, max: int) -> Option<int> {
    if min <= value <= max {
        Some(value)
    } else {
        None
    }
}

/// What `str::parse` gives for an integer type with the range `min..=max`: an optional `+`, or a
/// `-` where the type has negative values, then at least one digit and nothing else, and a value
/// inside the range.
pub open spec fn parsed(s: Seq<char>, min: int, max: int) -> Option<int> {
    if all_digits(s) {
        in_range(digits_value(s), min, max)
    } else if s.len() > 0 && s[0] == '+' && all_digits(s.skip(1)) {
        in_range(digits_value(s.skip(1)), min, max)
    } else if s.len() > 0 && s[0] == '-' && min < 0 && all_digits(s.skip(1)) {
        in_range(-digits_value(s.skip(1)), min, max)
    } else {
        None
    }
}

proof fn lemma_digits_value_bound(s: Seq<char>)
    requires
        forall|i: int| 0 <= i < s.len() ==> is_digit(#[trigger] s[i]),
    ensures
        0 <= digits_value(s),
    decreases s.len(),
{
    if s.len() > 0 {
        lemma_digits_value_bound(s.drop_last());
    }
}

proof fn lemma_digits_value_prefix(s: Seq<char>, n: int)
    requires
        0 <= n <= s.len(),
        forall|i: int| 0 <= i < s.len() ==> is_digit(#[trigger] s[i]),
    ensures
        digits_value(s.take(n)) <= digits_value(s),
    decreases s.len(),
{
    if n == s.len() {
        assert(s.take(n) =~= s);
    } else {
        lemma_digits_value_prefix(s.drop_last(), n);
        assert(s.drop_last().take(n) =~= s.take(n));
        lemma_digits_value_bound(s.drop_last());
    }
}

/// Decimal digits of a number are digits, and stand for that number.
pub proof fn lemma_digits_round_trip(n: nat)
    ensures
        all_digits(digits(n)),
        digits_value(digits(n)) == n,
    decreases n,
{
    if n < 10 {
        assert(digits(n).drop_last() =~= Seq::<char>::empty());
        reveal_with_fuel(digits_value, 2);
        assert(digits(n).last() == digit(n as int));
    } else {
        lemma_digits_round_trip(n / 10);
        assert(digits(n).drop_last() =~= digits(n / 10));
    }
}

/// Reading back the decimal notation of an integer gives that integer.
pub proof fn decimal_round_trip(n: int, min: int, max: int)
    requires
        min <= n <= max,
    ensures
        parsed(decimal(n), min, max) == Some(n),
{
    if n < 0 {
        let d = digits((-n) as nat);
        lemma_digits_round_trip((-n) as nat);
        assert(decimal(n).skip(1) =~= d);
        assert(!is_digit(decimal(n)[0]));
    } else {
        lemma_digits_round_trip(n as nat);
    }
}

fn digit_char(value: u64) -> (c: char)
    requires
        value < 10,
    ensures
        c == digit(value as int),
{
    match value {
        0 => '0',
        1 => '1',
        2 => '2',
        3 => '3',
        4 => '4',
        5 => '5',
        6 => '6',
        7 => '7',
        8 => '8',
        _ => '9',
    }
}

/// The decimal notation of an unsigned integer.
pub fn decimal_u64(n: u64) -> (r: String)
    ensures
        r@ == decimal(n as int),
    decreases n,
{
    if n < 10 {
        let mut r = String::new();
        r.push(digit_char(n));
        assert(r@ =~= digits(n as nat));
        r
    } else {
        let mut r = decimal_u64(n / 10);
        r.push(digit_char(n % 10));
        r
    }
}

/// The decimal notation of a signed integer.
pub fn decimal_i64(n: i64) -> (r: String)
    ensures
        r@ == decimal(n as int),
{
    if n >= 0 {
        decimal_u64(n as u64)
    } else {
        let magnitude: u64 = ((-(n + 1)) as u64) + 1;
        let mut r = String::new();
        r.push('-');
        let rest = decimal_u64(magnitude);
        r.append(rest.as_str());
        assert(r@ =~= decimal(n as int));
        r
    }
}

fn parse_digits(chars: &Vec<char>, from: usize) -> (r: Option<i128>)
    requires
        from <= chars@.len(),
    ensures
        match r {
            Some(value) => all_digits(chars@.skip(from as int)) && value == digits_value(
                chars@.skip(from as int),
            ) && value <= u64::MAX,
            None => !all_digits(chars@.skip(from as int)) || digits_value(chars@.skip(from as int))
                > u64::MAX,
        },
{
    let ghost s = chars@.skip(from as int);
    if from == chars.len() {
        return None;
    }
    let mut value: i128 = 0;
    let mut overflow = false;
    let mut i: usize = from;
    assert(s.take(0) =~= Seq::<char>::empty());
    while i < chars.len()
        invariant
            from <= i <= chars@.len(),
            s == chars@.skip(from as int),
            !overflow ==> 0 <= value <= u64::MAX && value == digits_value(s.take(i - from)),
            overflow ==> exists|n: int|
                0 <= n <= i - from && digits_value(#[trigger] s.take(n)) > u64::MAX,
            forall|k: int| 0 <= k < i - from ==> is_digit(#[trigger] s[k]),
        decreases chars@.len() - i,
    {
        let c = chars[i];
        assert(c == s[i - from]);
        if !('0' <= c && c <= '9') {
            return None;
        }
        assert(s.take(i - from + 1).drop_last() =~= s.take(i - from));
        if !overflow {
            value = value * 10 + ((c as u32 - '0' as u32) as i128);
            assert(value == digits_value(s.take(i - from + 1)));
            if value > u64::MAX as i128 {
                overflow = true;
            }
        }
        i = i + 1;
    }
    assert(s.take(i - from) =~= s);
    if overflow {
        proof {
            let n = choose|n: int| 0 <= n <= i - from && digits_value(#[trigger] s.take(n)) > u64::MAX;
            lemma_digits_value_prefix(s, n);
        }
        None
    } else {
        Some(value)
    }
}

/// Reads an integer of the range `min..=max`.
pub fn parse_integer(text: &str, min: i64, max: u64) -> (r: Option<i128>)
    requires
        min <= 0,
    ensures
        match r {
            Some(value) => parsed(text@, min as int, max as int) == Some(value as int),
            None => parsed(text@, min as int, max as int) is None,
        },
{
    let chars = chars_of(text);
    if chars.len() == 0 {
        return None;
    }
    let signed = chars[0] == '+' || (chars[0] == '-' && min < 0);
    let from: usize = if signed { 1 } else { 0 };
    assert(chars@.skip(0) =~= chars@);
    let negative = chars[0] == '-';
    let magnitude = parse_digits(&chars, from);
    assert(signed ==> !all_digits(chars@)) by {
        if signed {
            assert(!is_digit(chars@[0]));
        }
    }
    assert(all_digits(chars@.skip(1)) ==> chars@.skip(1).len() > 0);
    proof {
        if all_digits(chars@.skip(from as int)) {
            lemma_digits_value_bound(chars@.skip(from as int));
        }
    }
    match magnitude {
        None => None,
        Some(value) => {
            let value: i128 = if negative && signed { -value } else { value };
            if (min as i128) <= value && value <= max as i128 {
                Some(value)
            } else {
                None
            }
        },
    }
}

} // verus!
