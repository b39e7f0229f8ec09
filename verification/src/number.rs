//! Decimal numbers in text: reading them and writing them.

use vstd::prelude::*;

verus! {

/// Whether `c` is a decimal digit.
pub open spec fn is_digit(c: char) -> bool {
    '0' <= c <= '9'
}

/// The value of a decimal digit; 0 for any other character.
pub open spec fn digit_value(c: char) -> nat {
    if is_digit(c) {
        (c as u32 - '0' as u32) as nat
    } else {
        0
    }
}

/// Whether `s` holds decimal digits only.
pub open spec fn all_digits(s: Seq<char>) -> bool {
    forall|i: int| 0 <= i < s.len() ==> is_digit(#[trigger] s[i])
}

/// The number that a string of decimal digits denotes, most significant
/// digit first; 0 for the empty string.
pub open spec fn decimal_value(s: Seq<char>) -> nat
    decreases s.len(),
{
    if s.len() == 0 {
        0
    } else {
        decimal_value(s.drop_last()) * 10 + digit_value(s.last())
    }
}

/// What follows an optional leading `+`.
pub open spec fn unsigned_digits(s: Seq<char>) -> Seq<char> {
    if s.len() > 0 && s[0] == '+' {
        s.skip(1)
    } else {
        s
    }
}

/// The unsigned number that `s` spells: an optional `+`, then one or more
/// decimal digits and nothing else, with a value that fits in `usize`.
pub open spec fn parse_usize_spec(s: Seq<char>) -> Option<usize> {
    let digits = unsigned_digits(s);
    if digits.len() > 0 && all_digits(digits) && decimal_value(digits) <= usize::MAX {
        Some(decimal_value(digits) as usize)
    } else {
        None
    }
}

/// Whether `s` begins with a minus sign.
pub open spec fn is_negative(s: Seq<char>) -> bool {
    s.len() > 0 && s[0] == '-'
}

/// What follows an optional leading `+` or `-`.
pub open spec fn signed_digits(s: Seq<char>) -> Seq<char> {
    if s.len() > 0 && (s[0] == '+' || s[0] == '-') {
        s.skip(1)
    } else {
        s
    }
}

/// The signed number that `s` spells: an optional `+` or `-`, then one or
/// more decimal digits and nothing else, with a value that fits in `i64`.
pub open spec fn parse_i64_spec(s: Seq<char>) -> Option<i64> {
    let digits = signed_digits(s);
    let magnitude = decimal_value(digits);
    if digits.len() == 0 || !all_digits(digits) {
        None
    } else if is_negative(s) {
        if magnitude <= 0x8000_0000_0000_0000 {
            Some((-magnitude) as i64)
        } else {
            None
        }
    } else if magnitude <= i64::MAX {
        Some(magnitude as i64)
    } else {
        None
    }
}

/// A longer string of digits denotes at least what its prefix denotes.
pub proof fn lemma_decimal_value_prefix(s: Seq<char>, k: int)
    requires
        0 <= k <= s.len(),
    ensures
        decimal_value(s.take(k)) <= decimal_value(s),
    decreases s.len() - k,
{
    if k == s.len() {
        assert(s.take(k) == s);
    } else {
        lemma_decimal_value_prefix(s, k + 1);
        assert(s.take(k + 1).drop_last() == s.take(k));
    }
}

/// The value of the digits `s[from..to]`, or `None` where one of them is no
/// digit, there is none, or the value exceeds `limit`.
fn read_digits(s: &Vec<char>, from: usize, to: usize, limit: u64) -> (value: Option<u64>)
    requires
        from <= to <= s.len(),
    ensures
        value == if from < to && all_digits(s@.subrange(from as int, to as int))
            && decimal_value(s@.subrange(from as int, to as int)) <= limit {
            Some(decimal_value(s@.subrange(from as int, to as int)) as u64)
        } else {
            None
        },
{
    let ghost digits = s@.subrange(from as int, to as int);
    if from == to {
        return None;
    }
    let mut acc: u64 = 0;
    let mut i: usize = from;
    while i < to
        invariant
            from <= i <= to <= s.len(),
            digits == s@.subrange(from as int, to as int),
            all_digits(digits.take(i - from)),
            acc == decimal_value(digits.take(i - from)),
            acc <= limit,
        decreases to - i,
    {
        let c = s[i];
        proof {
            assert(digits.take(i - from + 1).drop_last() == digits.take(i - from));
            lemma_decimal_value_prefix(digits, i - from + 1);
        }
        if c < '0' || c > '9' {
            return None;
        }
        let d: u64 = (c as u32 - '0' as u32) as u64;
        if d > limit || acc > (limit - d) / 10 {
            return None;
        }
        acc = acc * 10 + d;
        i += 1;
    }
    proof {
        assert(digits.take(to - from) == digits);
    }
    Some(acc)
}

/// Reads `s[from..to]` as an unsigned decimal number.
pub fn parse_usize(s: &Vec<char>, from: usize, to: usize) -> (value: Option<usize>)
    requires
        from <= to <= s.len(),
    ensures
        value == parse_usize_spec(s@.subrange(from as int, to as int)),
{
    let ghost text = s@.subrange(from as int, to as int);
    let start: usize = if from < to && s[from] == '+' {
        from + 1
    } else {
        from
    };
    proof {
        assert(unsigned_digits(text) == s@.subrange(start as int, to as int));
    }
    match read_digits(s, start, to, usize::MAX as u64) {
        Some(v) => Some(v as usize),
        None => None,
    }
}

/// Reads `s[from..to]` as a signed decimal number.
pub fn parse_i64(s: &Vec<char>, from: usize, to: usize) -> (value: Option<i64>)
    requires
        from <= to <= s.len(),
    ensures
        value == parse_i64_spec(s@.subrange(from as int, to as int)),
{
    let ghost text = s@.subrange(from as int, to as int);
    let negative: bool = from < to && s[from] == '-';
    let start: usize = if from < to && (s[from] == '+' || s[from] == '-') {
        from + 1
    } else {
        from
    };
    proof {
        assert(signed_digits(text) == s@.subrange(start as int, to as int));
    }
    if negative {
        match read_digits(s, start, to, 0x8000_0000_0000_0000u64) {
            Some(v) => {
                if v == 0x8000_0000_0000_0000u64 {
                    Some(i64::MIN)
                } else {
                    Some(-(v as i64))
                }
            },
            None => None,
        }
    } else {
        match read_digits(s, start, to, 0x7fff_ffff_ffff_ffffu64) {
            Some(v) => Some(v as i64),
            None => None,
        }
    }
}

/// The character of a decimal digit.
pub open spec fn digit_char(d: nat) -> char
    recommends
        d < 10,
{
    ('0' as u32 + d as u32) as char
}

/// The decimal digits of `n`, most significant first, without leading zeros.
pub open spec fn decimal_digits(n: nat) -> Seq<char>
    decreases n,
{
    if n < 10 {
        seq![digit_char(n)]
    } else {
        decimal_digits(n / 10).push(digit_char(n % 10))
    }
}

/// `text` preceded by as many copies of `fill` as bring it to `width`
/// characters; `text` itself where it is that long already.
pub open spec fn pad_left(text: Seq<char>, width: nat, fill: char) -> Seq<char> {
    if text.len() >= width {
        text
    } else {
        Seq::new((width - text.len()) as nat, |i: int| fill) + text
    }
}

/// The character of a decimal digit.
fn digit_to_char(d: u128) -> (c: char)
    requires
        d < 10,
    ensures
        c == digit_char(d as nat),
{
    if d == 0 {
        '0'
    } else if d == 1 {
        '1'
    } else if d == 2 {
        '2'
    } else if d == 3 {
        '3'
    } else if d == 4 {
        '4'
    } else if d == 5 {
        '5'
    } else if d == 6 {
        '6'
    } else if d == 7 {
        '7'
    } else if d == 8 {
        '8'
    } else {
        '9'
    }
}

/// Appends `n` in decimal to `out`, filled on the left with `fill` up to
/// `width` characters.
pub fn push_decimal(out: &mut Vec<char>, n: u128, width: usize, fill: char)
    ensures
        final(out)@ == old(out)@ + pad_left(decimal_digits(n as nat), width as nat, fill),
{
    let mut reversed: Vec<char> = Vec::new();
    let mut rest: u128 = n;
    while rest >= 10
        invariant
            decimal_digits(n as nat) == decimal_digits(rest as nat) + reversed@.reverse(),
        decreases rest,
    {
        let c = digit_to_char(rest % 10);
        reversed.push(c);
        rest = rest / 10;
    }
    let c = digit_to_char(rest);
    reversed.push(c);
    let ghost digits = decimal_digits(n as nat);
    let mut k: usize = reversed.len();
    while k < width
        invariant
            reversed.len() <= k,
            reversed.len() < width ==> k <= width,
            reversed.len() >= width ==> k == reversed.len(),
            out@ == old(out)@ + Seq::new((k - reversed.len()) as nat, |i: int| fill),
        decreases width - k,
    {
        out.push(fill);
        k += 1;
    }
    let ghost before = out@;
    let mut j: usize = reversed.len();
    while j > 0
        invariant
            j <= reversed.len(),
            digits == reversed@.reverse(),
            out@ == before + digits.take(reversed.len() - j),
        decreases j,
    {
        j -= 1;
        out.push(reversed[j]);
    }
}

} // verus!
