//! Decimal integers in text: `str::parse` for the integer types and
//! `to_string` for unsigned ones.

use vstd::prelude::*;

use crate::text::{string_from_chars, trim_spec, trim_start_spec, trim_end_spec, is_ws};

verus! {

pub open spec fn is_digit(c: char) -> bool {
    '0' <= c <= '9'
}

pub open spec fn digit_val(c: char) -> nat {
    ((c as u32) - 48) as nat
}

pub open spec fn all_digits(s: Seq<char>) -> bool {
    forall|i: int| 0 <= i < s.len() ==> is_digit(#[trigger] s[i])
}

/// The number that the decimal digits `s` spell.
pub open spec fn digits_value(s: Seq<char>) -> nat
    decreases s.len(),
{
    if s.len() == 0 {
        0
    } else {
        digits_value(s.drop_last()) * 10 + digit_val(s.last())
    }
}

/// `str::parse` for an unsigned integer type whose largest value is `max`:
/// an optional `+`, then one or more ASCII digits, and a value in range.
pub open spec fn parse_unsigned(s: Seq<char>, max: nat) -> Option<nat> {
    let d = if s.len() > 0 && s[0] == '+' {
        s.drop_first()
    } else {
        s
    };
    if d.len() > 0 && all_digits(d) && digits_value(d) <= max {
        Some(digits_value(d))
    } else {
        None
    }
}

/// `str::parse` for a signed integer type with range `[min, max]`: an
/// optional `+` or `-`, then one or more ASCII digits, and a value in range.
pub open spec fn parse_signed(s: Seq<char>, min: int, max: int) -> Option<int> {
    if s.len() > 0 && s[0] == '-' {
        let d = s.drop_first();
        if d.len() > 0 && all_digits(d) && min <= -(digits_value(d) as int) {
            Some(-(digits_value(d) as int))
        } else {
            None
        }
    } else {
        match parse_unsigned(s, if max < 0 { 0 } else { max as nat }) {
            Some(v) => Some(v as int),
            None => None,
        }
    }
}

pub open spec fn digit_char(d: nat) -> char {
    ((d + 48) as u32) as char
}

/// `to_string` of a non-negative integer: its decimal digits, no leading
/// zero unless the number is zero.
pub open spec fn decimal(n: nat) -> Seq<char>
    decreases n,
{
    if n < 10 {
        seq![digit_char(n)]
    } else {
        decimal(n / 10).push(digit_char(n % 10))
    }
}

proof fn lemma_digits_value_prefix(s: Seq<char>, k: int, j: int)
    requires
        0 <= k <= j <= s.len(),
    ensures
        digits_value(s.subrange(0, k)) <= digits_value(s.subrange(0, j)),
    decreases j - k,
{
    if k < j {
        lemma_digits_value_prefix(s, k, j - 1);
        assert(s.subrange(0, j).drop_last() =~= s.subrange(0, j - 1));
    }
}

/// The digits of `v[from..]` read as a number, if they are all digits,
/// there is at least one, and the number is at most `max`.
fn parse_digits(v: &Vec<char>, from: usize, max: u64) -> (r: Option<u64>)
    requires
        from <= v.len(),
    ensures
        ({
            let d = v@.subrange(from as int, v@.len() as int);
            match r {
                Some(x) => d.len() > 0 && all_digits(d) && digits_value(d) <= max && x as nat
                    == digits_value(d),
                None => !(d.len() > 0 && all_digits(d) && digits_value(d) <= max),
            }
        }),
{
    let n = v.len();
    let ghost d = v@.subrange(from as int, n as int);
    if from == n {
        return None;
    }
    let mut acc: u64 = 0;
    let mut i = from;
    while i < n
        invariant
            from <= i <= n == v.len(),
            d == v@.subrange(from as int, n as int),
            acc as nat == digits_value(d.subrange(0, i - from)),
            acc <= max,
            all_digits(d.subrange(0, i - from)),
        decreases n - i,
    {
        let c = v[i];
        assert(d[i - from] == c);
        if !('0' <= c && c <= '9') {
            assert(!all_digits(d));
            return None;
        }
        let dv = (c as u32 - 48) as u64;
        let next: u128 = (acc as u128) * 10 + (dv as u128);
        assert(d.subrange(0, i - from + 1).drop_last() =~= d.subrange(0, i - from));
        assert(next == digits_value(d.subrange(0, i - from + 1)));
        if next > max as u128 {
            proof {
                if all_digits(d) {
                    lemma_digits_value_prefix(d, i - from + 1, d.len() as int);
                    assert(d.subrange(0, d.len() as int) =~= d);
                }
            }
            return None;
        }
        acc = next as u64;
        i = i + 1;
        assert forall|k: int| 0 <= k < i - from implies is_digit(#[trigger] d.subrange(0, i - from)[k]) by {
            if k < i - 1 - from {
                assert(d.subrange(0, i - from)[k] == d.subrange(0, i - 1 - from)[k]);
            }
        }
    }
    assert(d.subrange(0, n - from) =~= d);
    Some(acc)
}

/// `str::parse::<uN>` for an unsigned type whose largest value is `max`.
pub fn parse_unsigned_chars(v: &Vec<char>, max: u64) -> (r: Option<u64>)
    ensures
        r matches Some(x) ==> parse_unsigned(v@, max as nat) == Some(x as nat),
        r is None ==> parse_unsigned(v@, max as nat) is None,
{
    if v.len() > 0 && v[0] == '+' {
        assert(v@.drop_first() =~= v@.subrange(1, v@.len() as int));
        parse_digits(v, 1, max)
    } else {
        assert(v@ =~= v@.subrange(0, v@.len() as int));
        parse_digits(v, 0, max)
    }
}

/// `str::parse::<u64>`.
pub fn parse_u64(v: &Vec<char>) -> (r: Option<u64>)
    ensures
        r matches Some(x) ==> parse_unsigned(v@, u64::MAX as nat) == Some(x as nat),
        r is None ==> parse_unsigned(v@, u64::MAX as nat) is None,
{
    parse_unsigned_chars(v, u64::MAX)
}

/// `str::parse::<u32>`.
pub fn parse_u32(v: &Vec<char>) -> (r: Option<u32>)
    ensures
        r matches Some(x) ==> parse_unsigned(v@, u32::MAX as nat) == Some(x as nat),
        r is None ==> parse_unsigned(v@, u32::MAX as nat) is None,
{
    match parse_unsigned_chars(v, u32::MAX as u64) {
        Some(x) => Some(x as u32),
        None => None,
    }
}

/// `str::parse::<iN>` for a signed type with range `[-(neg_max), pos_max]`.
pub fn parse_signed_chars(v: &Vec<char>, neg_max: u64, pos_max: u64) -> (r: Option<i128>)
    ensures
        r matches Some(x) ==> parse_signed(v@, -(neg_max as int), pos_max as int) == Some(
            x as int,
        ),
        r is None ==> parse_signed(v@, -(neg_max as int), pos_max as int) is None,
{
    if v.len() > 0 && v[0] == '-' {
        assert(v@.drop_first() =~= v@.subrange(1, v@.len() as int));
        match parse_digits(v, 1, neg_max) {
            Some(x) => Some(-(x as i128)),
            None => None,
        }
    } else {
        match parse_unsigned_chars(v, pos_max) {
            Some(x) => Some(x as i128),
            None => None,
        }
    }
}

/// `str::parse::<i64>`.
pub fn parse_i64(v: &Vec<char>) -> (r: Option<i64>)
    ensures
        r matches Some(x) ==> parse_signed(v@, i64::MIN as int, i64::MAX as int) == Some(x as int),
        r is None ==> parse_signed(v@, i64::MIN as int, i64::MAX as int) is None,
{
    match parse_signed_chars(v, 0x8000_0000_0000_0000u64, i64::MAX as u64) {
        Some(x) => Some(x as i64),
        None => None,
    }
}

/// `str::parse::<i32>`.
pub fn parse_i32(v: &Vec<char>) -> (r: Option<i32>)
    ensures
        r matches Some(x) ==> parse_signed(v@, i32::MIN as int, i32::MAX as int) == Some(x as int),
        r is None ==> parse_signed(v@, i32::MIN as int, i32::MAX as int) is None,
{
    match parse_signed_chars(v, 0x8000_0000u64, i32::MAX as u64) {
        Some(x) => Some(x as i32),
        None => None,
    }
}

/// Appends the decimal digits of `n` to `out`.
pub fn push_decimal(out: &mut Vec<char>, n: u64)
    ensures
        final(out)@ == old(out)@ + decimal(n as nat),
    decreases n,
{
    if n >= 10 {
        push_decimal(out, n / 10);
    }
    let d = (n % 10) as u32 + 48;
    let c = digit_from_code(d);
    out.push(c);
    proof {
        if n >= 10 {
            assert(old(out)@ + decimal(n as nat) =~= old(out)@ + decimal((n / 10) as nat) + seq![
                digit_char((n % 10) as nat),
            ]);
        } else {
            assert(old(out)@ + decimal(n as nat) =~= old(out)@.push(digit_char(n as nat)));
        }
    }
}

/// The ASCII digit with code `d`.
fn digit_from_code(d: u32) -> (c: char)
    requires
        48 <= d <= 57,
    ensures
        c == d as char,
{
    let b: u8 = d as u8;
    b as char
}

/// `n.to_string()` as characters.
pub fn decimal_chars(n: u64) -> (r: Vec<char>)
    ensures
        r@ == decimal(n as nat),
{
    let mut out: Vec<char> = Vec::new();
    push_decimal(&mut out, n);
    assert(out@ =~= decimal(n as nat));
    out
}

/// `n.to_string()`.
pub fn u64_to_string(n: u64) -> (s: String)
    ensures
        s@ == decimal(n as nat),
{
    let v = decimal_chars(n);
    string_from_chars(&v)
}

pub proof fn lemma_decimal_digits(n: nat)
    ensures
        decimal(n).len() > 0,
        all_digits(decimal(n)),
        digits_value(decimal(n)) == n,
    decreases n,
{
    assert(digit_val(digit_char(n % 10)) == n % 10);
    if n < 10 {
        assert(decimal(n).drop_last() =~= Seq::<char>::empty());
        assert(digits_value(decimal(n)) == digits_value(decimal(n).drop_last()) * 10 + digit_val(decimal(n).last()));
        assert(digits_value(decimal(n)) == n);
    }
    if n >= 10 {
        lemma_decimal_digits(n / 10);
        let s = decimal(n);
        assert(s.drop_last() =~= decimal(n / 10));
        assert(n == (n / 10) * 10 + n % 10);
        assert(s.last() == digit_char(n % 10));
        assert(digits_value(s) == digits_value(s.drop_last()) * 10 + digit_val(s.last()));
        assert(digits_value(s) == n);
        assert forall|i: int| 0 <= i < s.len() implies is_digit(#[trigger] s[i]) by {
            if i < s.len() - 1 {
                assert(s[i] == decimal(n / 10)[i]);
            }
        }
    }
}

/// Reading back the text that `to_string` writes gives the number again.
pub proof fn lemma_parse_decimal(n: nat, max: nat)
    requires
        n <= max,
    ensures
        parse_unsigned(decimal(n), max) == Some(n),
{
    lemma_decimal_digits(n);
}

/// Decimal digits carry no whitespace, so trimming leaves them alone.
pub proof fn lemma_trim_decimal(n: nat)
    ensures
        trim_spec(decimal(n), false) == decimal(n),
{
    lemma_decimal_digits(n);
    let s = decimal(n);
    assert(!is_ws(s[0]));
    assert(trim_start_spec(s, false) == s);
    assert(!is_ws(s.last()));
}

} // verus!
