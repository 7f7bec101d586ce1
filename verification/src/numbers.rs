//! Verified decimal rendering and parsing of integers.

use vstd::prelude::*;

verus! {

/// The decimal digit character for `d` (0 through 9).
pub open spec fn digit_char(d: int) -> char {
    if d == 0 {
        '0'
    } else if d == 1 {
        '1'
    } else if d == 2 {
        '2'
    } else if d == 3 {
        '3'
    } else if d == 4 {
        '4'
    } else if d == 5 {
        '5'
    } else if d == 6 {
        '6'
    } else if d == 7 {
        '7'
    } else if d == 8 {
        '8'
    } else {
        '9'
    }
}

/// The decimal rendering of `n`, most significant digit first, no sign and
/// no leading zeros (`0` renders as "0").
pub open spec fn dec_digits(n: nat) -> Seq<char>
    decreases n,
{
    if n < 10 {
        seq![digit_char(n as int)]
    } else {
        dec_digits(n / 10).push(digit_char((n % 10) as int))
    }
}

/// `k` zero characters.
pub open spec fn zeros(k: nat) -> Seq<char>
    decreases k,
{
    if k == 0 {
        Seq::empty()
    } else {
        seq!['0'] + zeros((k - 1) as nat)
    }
}

/// The decimal rendering of `n`, left-padded with zeros to at least `width`
/// characters.
pub open spec fn padded_digits(n: nat, width: nat) -> Seq<char> {
    if dec_digits(n).len() >= width {
        dec_digits(n)
    } else {
        zeros((width - dec_digits(n).len()) as nat) + dec_digits(n)
    }
}

/// Whether `c` is a decimal digit.
pub open spec fn is_digit(c: char) -> bool {
    '0' <= c <= '9'
}

/// The numeric value of digit `c`.
pub open spec fn digit_val(c: char) -> nat {
    (c as int - '0' as int) as nat
}

/// Whether every character of `s` is a decimal digit.
pub open spec fn all_digits(s: Seq<char>) -> bool {
    forall|i: int| 0 <= i < s.len() ==> is_digit(#[trigger] s[i])
}

/// The value of a digit string, most significant digit first.
pub open spec fn digits_val(s: Seq<char>) -> nat
    decreases s.len(),
{
    if s.len() == 0 {
        0
    } else {
        digits_val(s.drop_last()) * 10 + digit_val(s.last())
    }
}

/// What parsing an unsigned decimal integer yields: the value of a non-empty
/// all-digit string when it fits in a `u64`, nothing otherwise.
pub open spec fn parse_u64_spec(s: Seq<char>) -> Option<u64> {
    if s.len() > 0 && all_digits(s) && digits_val(s) <= u64::MAX {
        Some(digits_val(s) as u64)
    } else {
        None
    }
}

/// What parsing a signed decimal integer yields. An optional leading `+` or
/// `-` precedes the digits, as `str::parse::<i64>` accepts.
pub open spec fn parse_i64_spec(s: Seq<char>) -> Option<i64> {
    if s.len() == 0 {
        None
    } else if s[0] == '-' {
        let rest = s.skip(1);
        if rest.len() > 0 && all_digits(rest) && digits_val(rest) <= 0x8000_0000_0000_0000 {
            Some((0 - digits_val(rest)) as i64)
        } else {
            None
        }
    } else {
        let rest = if s[0] == '+' {
            s.skip(1)
        } else {
            s
        };
        if rest.len() > 0 && all_digits(rest) && digits_val(rest) <= i64::MAX {
            Some(digits_val(rest) as i64)
        } else {
            None
        }
    }
}

/// The digit character for `d`.
pub fn digit_char_exec(d: u64) -> (c: char)
    requires
        d < 10,
    ensures
        c == digit_char(d as int),
{
    if d == 0 {
        '0'
    } else if d == 1 {
        '1'
    } else if d == 2 {
        '2'
    } else if d == 3 {
        '3'
    } else if d == 4 {
        '4'
    } else if d == 5 {
        '5'
    } else if d == 6 {
        '6'
    } else if d == 7 {
        '7'
    } else if d == 8 {
        '8'
    } else {
        '9'
    }
}

/// The decimal rendering of `n` as characters.
pub fn u64_digits(n: u64) -> (v: Vec<char>)
    ensures
        v@ == dec_digits(n as nat),
    decreases n,
{
    if n < 10 {
        let mut v: Vec<char> = Vec::new();
        v.push(digit_char_exec(n));
        proof {
            assert(v@ =~= dec_digits(n as nat));
        }
        v
    } else {
        let mut v = u64_digits(n / 10);
        v.push(digit_char_exec(n % 10));
        v
    }
}

/// The decimal rendering of `n`, left-padded with zeros to `width`.
pub fn u64_padded(n: u64, width: usize) -> (v: Vec<char>)
    ensures
        v@ == padded_digits(n as nat, width as nat),
{
    let digits = u64_digits(n);
    let mut v: Vec<char> = Vec::new();
    let mut k: usize = digits.len();
    while k < width
        invariant
            digits@ == dec_digits(n as nat),
            digits@.len() <= k <= vstd::math::max(width as int, digits@.len() as int),
            v@ == zeros((k - digits@.len()) as nat),
        decreases width - k,
    {
        v.push('0');
        k = k + 1;
        proof {
            lemma_zeros_push((k - digits@.len()) as nat);
        }
    }
    let mut i: usize = 0;
    while i < digits.len()
        invariant
            digits@ == dec_digits(n as nat),
            i <= digits@.len(),
            v@ == zeros(
                if width >= digits@.len() {
                    (width - digits@.len()) as nat
                } else {
                    0
                },
            ) + digits@.take(i as int),
        decreases digits@.len() - i,
    {
        v.push(digits[i]);
        i = i + 1;
        proof {
            assert(digits@.take(i as int) =~= digits@.take(i - 1).push(digits@[i - 1]));
        }
    }
    proof {
        assert(digits@.take(digits@.len() as int) =~= digits@);
        assert(zeros(0) =~= Seq::<char>::empty());
        assert(v@ =~= padded_digits(n as nat, width as nat));
    }
    v
}

/// Appending one more zero to the front of `zeros(k)` gives `zeros(k + 1)`.
proof fn lemma_zeros_push(k: nat)
    requires
        k >= 1,
    ensures
        zeros(k) == zeros((k - 1) as nat).push('0'),
    decreases k,
{
    if k > 1 {
        lemma_zeros_push((k - 1) as nat);
        assert(zeros(k) =~= zeros((k - 1) as nat).push('0'));
    } else {
        assert(zeros(1) =~= zeros(0).push('0'));
    }
}

/// Whether `c` is a decimal digit.
pub fn is_digit_char(c: char) -> (r: bool)
    ensures
        r == is_digit(c),
{
    '0' <= c && c <= '9'
}

/// The numeric value of digit `c`.
pub fn digit_val_exec(c: char) -> (d: u64)
    requires
        is_digit(c),
    ensures
        d == digit_val(c),
{
    (c as u32 - '0' as u32) as u64
}

/// Extending a digit prefix can only grow its value.
proof fn lemma_digits_val_prefix_grows(s: Seq<char>, i: int)
    requires
        0 <= i < s.len(),
        all_digits(s),
    ensures
        digits_val(s.take(i)) <= digits_val(s.take(i + 1)),
{
    assert(s.take(i + 1).drop_last() =~= s.take(i));
    assert(digits_val(s.take(i + 1)) == digits_val(s.take(i)) * 10 + digit_val(s[i]));
}

/// A digit string is worth at least any of its prefixes.
proof fn lemma_digits_val_monotone(s: Seq<char>, i: int)
    requires
        0 <= i <= s.len(),
        all_digits(s),
    ensures
        digits_val(s.take(i)) <= digits_val(s),
    decreases s.len() - i,
{
    if i < s.len() {
        lemma_digits_val_prefix_grows(s, i);
        lemma_digits_val_monotone(s, i + 1);
    } else {
        assert(s.take(i) =~= s);
    }
}

/// Parses a non-empty all-digit string as a `u64`; `None` on a character
/// that is not a digit, on an empty string, and on overflow.
pub fn parse_u64(v: &Vec<char>) -> (r: Option<u64>)
    ensures
        r == parse_u64_spec(v@),
{
    if v.len() == 0 {
        return None;
    }
    let mut acc: u64 = 0;
    let mut i: usize = 0;
    while i < v.len()
        invariant
            i <= v@.len(),
            v@.len() > 0,
            forall|j: int| 0 <= j < i ==> is_digit(#[trigger] v@[j]),
            acc == digits_val(v@.take(i as int)),
        decreases v@.len() - i,
    {
        let c = v[i];
        if !is_digit_char(c) {
            return None;
        }
        let d = digit_val_exec(c);
        let shifted = match acc.checked_mul(10) {
            Some(x) => x,
            None => {
                proof {
                    lemma_overflow_whole(v@, i as int);
                }
                return None;
            },
        };
        let next = match shifted.checked_add(d) {
            Some(x) => x,
            None => {
                proof {
                    lemma_overflow_whole(v@, i as int);
                }
                return None;
            },
        };
        acc = next;
        i = i + 1;
        proof {
            assert(v@.take(i as int).drop_last() =~= v@.take(i - 1));
        }
    }
    proof {
        assert(v@.take(i as int) =~= v@);
    }
    Some(acc)
}

/// If the value through digit `i` already exceeds `u64::MAX`, so does the
/// value of the whole string (assuming the scanned prefix is all digits).
proof fn lemma_overflow_whole(s: Seq<char>, i: int)
    requires
        0 <= i < s.len(),
        is_digit(s[i]),
        forall|j: int| 0 <= j < i ==> is_digit(#[trigger] s[j]),
        digits_val(s.take(i)) * 10 + digit_val(s[i]) > u64::MAX,
    ensures
        !(all_digits(s) && digits_val(s) <= u64::MAX),
{
    if all_digits(s) {
        assert(s.take(i + 1).drop_last() =~= s.take(i));
        assert(digits_val(s.take(i + 1)) > u64::MAX);
        lemma_digits_val_monotone(s, i + 1);
    }
}

/// Parses a signed decimal integer as `str::parse::<i64>` would: an optional
/// leading `+` or `-`, then digits; `None` on anything else or on overflow.
pub fn parse_i64(v: &Vec<char>) -> (r: Option<i64>)
    ensures
        r == parse_i64_spec(v@),
{
    if v.len() == 0 {
        return None;
    }
    let negative = v[0] == '-';
    let signed = negative || v[0] == '+';
    let mut rest: Vec<char> = Vec::new();
    let mut i: usize = if signed {
        1
    } else {
        0
    };
    let ghost start = i as int;
    while i < v.len()
        invariant
            start <= i <= v@.len(),
            start == 0 || start == 1,
            rest@ == v@.subrange(start, i as int),
        decreases v@.len() - i,
    {
        rest.push(v[i]);
        i = i + 1;
        proof {
            assert(rest@ =~= v@.subrange(start, i as int));
        }
    }
    proof {
        if start == 1 {
            assert(rest@ =~= v@.skip(1));
        } else {
            assert(rest@ =~= v@);
        }
    }
    let mag = match parse_u64(&rest) {
        Some(m) => m,
        None => {
            return None;
        },
    };
    if negative {
        if mag <= 0x8000_0000_0000_0000u64 {
            if mag == 0x8000_0000_0000_0000u64 {
                Some(i64::MIN)
            } else {
                Some(-(mag as i64))
            }
        } else {
            None
        }
    } else {
        if mag <= i64::MAX as u64 {
            Some(mag as i64)
        } else {
            None
        }
    }
}

} // verus!
