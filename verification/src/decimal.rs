//! Decimal text of integers: how numbers are written into a command line and
//! read back from a reply.

use vstd::prelude::*;

verus! {

/// `String::push` appends one character to the end of the string and leaves
/// the characters before it as they were.
pub assume_specification[ std::string::String::push ](s: &mut std::string::String, c: char)
    ensures
        final(s)@ == old(s)@.push(c),
;

/// The character of the decimal digit `d`, for `0 <= d <= 9`.
pub open spec fn digit(d: int) -> char {
    (d + 48) as char
}

/// Whether `c` is one of `'0'` to `'9'`.
pub open spec fn is_digit(c: char) -> bool {
    '0' <= c <= '9'
}

/// Whether every character of `s` is a decimal digit.
pub open spec fn all_digits(s: Seq<char>) -> bool {
    forall|i: int| 0 <= i < s.len() ==> is_digit(#[trigger] s[i])
}

/// The canonical decimal text of a natural number: no sign, no leading zero,
/// and `"0"` for zero.
pub open spec fn digits(n: nat) -> Seq<char>
    decreases n,
{
    if n < 10 {
        seq![digit(n as int)]
    } else {
        digits(n / 10).push(digit((n % 10) as int))
    }
}

/// The decimal text of an integer: the digits of its magnitude, behind a `'-'`
/// when it is negative.
pub open spec fn signed_digits(i: int) -> Seq<char> {
    if i < 0 {
        seq!['-'] + digits((-i) as nat)
    } else {
        digits(i as nat)
    }
}

/// `count` times the character `'0'`.
pub open spec fn zeros(count: nat) -> Seq<char> {
    Seq::new(count, |i: int| '0')
}

/// The decimal text of `n` with zeros in front of it up to `width` characters.
/// A number that has more than `width` digits keeps all of them.
pub open spec fn padded(n: nat, width: nat) -> Seq<char> {
    if digits(n).len() >= width {
        digits(n)
    } else {
        zeros((width - digits(n).len()) as nat) + digits(n)
    }
}

/// The number that a string of digits denotes, read most significant digit
/// first; the empty string denotes 0.
pub open spec fn value(s: Seq<char>) -> nat
    decreases s.len(),
{
    if s.len() == 0 {
        0
    } else {
        (value(s.drop_last()) * 10 + (s.last() as int - 48)) as nat
    }
}

/// What is left of `s` behind an optional leading `'+'`.
pub open spec fn unsigned_body(s: Seq<char>) -> Seq<char> {
    if s.len() > 0 && s[0] == '+' {
        s.skip(1)
    } else {
        s
    }
}

/// What is left of `s` behind an optional leading `'+'` or `'-'`.
pub open spec fn signed_body(s: Seq<char>) -> Seq<char> {
    if s.len() > 0 && (s[0] == '+' || s[0] == '-') {
        s.skip(1)
    } else {
        s
    }
}

/// The unsigned 32-bit number that `s` spells: an optional `'+'`, then one or
/// more digits and nothing else, denoting a number that fits. Leading zeros
/// are allowed. `None` for every other string.
pub open spec fn unsigned_value(s: Seq<char>) -> Option<u32> {
    let body = unsigned_body(s);
    if body.len() > 0 && all_digits(body) && value(body) <= u32::MAX {
        Some(value(body) as u32)
    } else {
        None
    }
}

/// The signed 32-bit number that `s` spells: an optional `'+'` or `'-'`, then
/// one or more digits and nothing else, denoting a number that fits. `None`
/// for every other string.
pub open spec fn signed_value(s: Seq<char>) -> Option<i32> {
    let body = signed_body(s);
    let negative = s.len() > 0 && s[0] == '-';
    if body.len() == 0 || !all_digits(body) {
        None
    } else if negative {
        if value(body) <= 2147483648 {
            Some((-(value(body) as int)) as i32)
        } else {
            None
        }
    } else {
        if value(body) <= i32::MAX {
            Some(value(body) as i32)
        } else {
            None
        }
    }
}

/// The canonical text of a number is made of digits, at least one.
pub proof fn lemma_digits_are_digits(n: nat)
    ensures
        digits(n).len() >= 1,
        all_digits(digits(n)),
    decreases n,
{
    if n >= 10 {
        lemma_digits_are_digits(n / 10);
    }
}

/// Reading the canonical text of a number gives the number back.
pub proof fn lemma_value_of_digits(n: nat)
    ensures
        value(digits(n)) == n,
    decreases n,
{
    if n < 10 {
        assert(digits(n).drop_last() =~= Seq::<char>::empty());
        assert(value(digits(n).drop_last()) == 0);
        assert(digits(n).last() == digit(n as int));
    } else {
        lemma_value_of_digits(n / 10);
        assert(digits(n).drop_last() =~= digits(n / 10));
        assert(digits(n).last() == digit((n % 10) as int));
    }
}

/// Zeros in front of a string do not change the number it denotes.
pub proof fn lemma_value_ignores_leading_zeros(count: nat, s: Seq<char>)
    ensures
        value(zeros(count) + s) == value(s),
    decreases s.len(), count,
{
    let t = zeros(count) + s;
    if s.len() > 0 {
        lemma_value_ignores_leading_zeros(count, s.drop_last());
        assert(t.drop_last() =~= zeros(count) + s.drop_last());
    } else if count > 0 {
        lemma_value_ignores_leading_zeros((count - 1) as nat, s);
        assert(t.drop_last() =~= zeros((count - 1) as nat) + s);
    } else {
        assert(t =~= s);
    }
}

/// A padded number is made of digits, is at least `width` long, and denotes
/// the number that was padded.
pub proof fn lemma_padded(n: nat, width: nat)
    ensures
        all_digits(padded(n, width)),
        padded(n, width).len() >= width,
        padded(n, width).len() >= 1,
        value(padded(n, width)) == n,
{
    lemma_digits_are_digits(n);
    lemma_value_of_digits(n);
    if digits(n).len() < width {
        lemma_value_ignores_leading_zeros((width - digits(n).len()) as nat, digits(n));
    }
}

/// A number below 100000 has at most five digits, so padded to five it is
/// exactly five characters long.
pub proof fn lemma_padded_five(n: nat)
    requires
        n < 100000,
    ensures
        padded(n, 5).len() == 5,
{
    reveal_with_fuel(digits, 6);
}

/// A string of digits denotes at least what any of its prefixes denotes.
pub proof fn lemma_value_grows(s: Seq<char>, k: int)
    requires
        all_digits(s),
        0 <= k <= s.len(),
    ensures
        value(s.take(k)) <= value(s),
    decreases s.len() - k,
{
    if k < s.len() {
        lemma_value_grows(s, k + 1);
        assert(s.take(k + 1).drop_last() =~= s.take(k));
        assert(is_digit(s[k]));
    } else {
        assert(s.take(k) =~= s);
    }
}

/// Reading what was written gives the number back: the canonical text of an
/// unsigned 32-bit number spells that number.
pub proof fn lemma_unsigned_round_trip(n: u32)
    ensures
        unsigned_value(digits(n as nat)) == Some(n),
{
    lemma_digits_are_digits(n as nat);
    lemma_value_of_digits(n as nat);
    assert(is_digit(digits(n as nat)[0]));
}

/// Reading what was written gives the number back: the decimal text of a
/// signed 32-bit number spells that number.
pub proof fn lemma_signed_round_trip(i: i32)
    ensures
        signed_value(signed_digits(i as int)) == Some(i),
{
    let magnitude = if i < 0 {
        (-i) as nat
    } else {
        i as nat
    };
    lemma_digits_are_digits(magnitude);
    lemma_value_of_digits(magnitude);
    assert(is_digit(digits(magnitude)[0]));
    if i < 0 {
        assert(signed_digits(i as int).skip(1) =~= digits(magnitude));
    }
}

/// Computes the character of a decimal digit.
fn digit_char(d: u8) -> (c: char)
    requires
        d <= 9,
    ensures
        c == digit(d as int),
        is_digit(c),
{
    (d + 48) as char
}

/// Appends the canonical decimal text of `n` to `out`.
pub fn push_digits(out: &mut String, n: u64)
    ensures
        final(out)@ == old(out)@ + digits(n as nat),
    decreases n,
{
    if n >= 10 {
        push_digits(out, n / 10);
    }
    out.push(digit_char((n % 10) as u8));
    proof {
        if n < 10 {
            assert(old(out)@.push(digit(n as int)) =~= old(out)@ + digits(n as nat));
        } else {
            assert((old(out)@ + digits((n / 10) as nat)).push(digit((n % 10) as int)) =~= old(out)@
                + digits(n as nat));
        }
    }
}

/// Appends the decimal text of `i` to `out`, with a `'-'` in front of a
/// negative number.
pub fn push_signed_digits(out: &mut String, i: i32)
    ensures
        final(out)@ == old(out)@ + signed_digits(i as int),
{
    if i < 0 {
        out.push('-');
        let magnitude: u64 = (-(i as i64)) as u64;
        push_digits(out, magnitude);
        assert(old(out)@.push('-') + digits(magnitude as nat) =~= old(out)@ + signed_digits(
            i as int,
        ));
    } else {
        push_digits(out, i as u64);
    }
}

/// Counts the digits of the canonical decimal text of `n`.
pub fn digit_count(n: u64) -> (count: usize)
    ensures
        count == digits(n as nat).len(),
        1 <= count <= 20,
{
    let mut count: usize = 1;
    let mut rest: u64 = n;
    proof {
        let one = pow10(0);
        assert(one == 1);
        assert(rest as nat * one == n);
    }
    while rest >= 10
        invariant
            1 <= count,
            digits(n as nat).len() == digits(rest as nat).len() + count - 1,
            rest as nat * pow10((count - 1) as nat) <= n,
            count <= 20,
        decreases rest,
    {
        proof {
            lemma_pow10_step(rest as nat, (count - 1) as nat, n as nat);
        }
        rest = rest / 10;
        count = count + 1;
    }
    count
}

/// 10 to the power `e`.
spec fn pow10(e: nat) -> nat
    decreases e,
{
    if e == 0 {
        1
    } else {
        10 * pow10((e - 1) as nat)
    }
}

proof fn lemma_pow10_step(rest: nat, e: nat, n: nat)
    requires
        rest >= 10,
        rest * pow10(e) <= n,
        n <= u64::MAX,
        e <= 19,
    ensures
        (rest / 10) * pow10(e + 1) <= n,
        e + 1 <= 19,
{
    let p = pow10(e);
    assert((rest / 10) * (10 * p) <= rest * p) by (nonlinear_arith)
        requires
            rest >= 10,
            p >= 0,
    ;
    if e == 19 {
        reveal_with_fuel(pow10, 20);
        assert(pow10(19) == 10000000000000000000);
        assert(rest * p >= 10 * p) by (nonlinear_arith)
            requires
                rest >= 10,
                p >= 0,
        ;
    }
}

/// Appends the decimal text of `n` to `out`, with zeros in front of it up to
/// `width` characters.
pub fn push_padded(out: &mut String, n: u64, width: usize)
    ensures
        final(out)@ == old(out)@ + padded(n as nat, width as nat),
{
    let count = digit_count(n);
    let mut i: usize = count;
    while i < width
        invariant
            count <= i,
            i == count || i <= width,
            out@ == old(out)@ + zeros((i - count) as nat),
        decreases width - i,
    {
        out.push('0');
        assert(zeros((i - count) as nat).push('0') =~= zeros((i + 1 - count) as nat));
        assert((old(out)@ + zeros((i - count) as nat)).push('0') =~= old(out)@ + zeros(
            (i - count) as nat,
        ).push('0'));
        i = i + 1;
    }
    let ghost before = out@;
    push_digits(out, n);
    proof {
        if count >= width {
            assert(i == count);
            assert(zeros(0) =~= Seq::<char>::empty());
            assert(before =~= old(out)@);
        } else {
            assert(i == width);
            assert(before + digits(n as nat) =~= old(out)@ + (zeros((width - count) as nat)
                + digits(n as nat)));
        }
    }
}

/// Reads a string of digits as a number: `None` if the string is empty, if a
/// character of it is no digit, or if the number is above `limit`.
pub fn parse_digits(s: &[char], limit: u64) -> (r: Option<u64>)
    ensures
        r == if s@.len() > 0 && all_digits(s@) && value(s@) <= limit {
            Some(value(s@) as u64)
        } else {
            None::<u64>
        },
{
    if s.len() == 0 {
        return None;
    }
    let mut acc: u64 = 0;
    let mut i: usize = 0;
    while i < s.len()
        invariant
            0 <= i <= s.len(),
            all_digits(s@.take(i as int)),
            acc == value(s@.take(i as int)),
            acc <= limit,
        decreases s.len() - i,
    {
        let c = s[i];
        if !('0' <= c && c <= '9') {
            assert(!is_digit(s@[i as int]));
            return None;
        }
        assert(s@.take(i + 1).drop_last() =~= s@.take(i as int));
        assert(all_digits(s@.take(i + 1))) by {
            assert forall|j: int| 0 <= j < i + 1 implies is_digit(#[trigger] s@.take(i + 1)[j]) by {
                if j < i {
                    assert(s@.take(i as int)[j] == s@[j]);
                }
            }
        }
        proof {
            if all_digits(s@) {
                lemma_value_grows(s@, i + 1);
            }
        }
        let next = match acc.checked_mul(10) {
            Some(tens) => tens.checked_add(c as u64 - 48),
            None => None,
        };
        match next {
            Some(v) if v <= limit => {
                acc = v;
            },
            _ => {
                return None;
            },
        }
        i = i + 1;
    }
    assert(s@.take(i as int) =~= s@);
    Some(acc)
}

/// Reads an unsigned 32-bit number: an optional `'+'`, then digits only.
pub fn parse_u32(s: &[char]) -> (r: Option<u32>)
    ensures
        r == unsigned_value(s@),
{
    let body = if s.len() > 0 && s[0] == '+' {
        let rest = &s[1..s.len()];
        assert(rest@ =~= s@.skip(1));
        rest
    } else {
        s
    };
    match parse_digits(body, 0xffff_ffff) {
        Some(v) => Some(v as u32),
        None => None,
    }
}

/// Reads a signed 32-bit number: an optional `'+'` or `'-'`, then digits
/// only.
pub fn parse_i32(s: &[char]) -> (r: Option<i32>)
    ensures
        r == signed_value(s@),
{
    let negative = s.len() > 0 && s[0] == '-';
    let body = if s.len() > 0 && (s[0] == '+' || s[0] == '-') {
        let rest = &s[1..s.len()];
        assert(rest@ =~= s@.skip(1));
        rest
    } else {
        s
    };
    if negative {
        match parse_digits(body, 2147483648) {
            Some(v) => Some((-(v as i64)) as i32),
            None => None,
        }
    } else {
        match parse_digits(body, 2147483647) {
            Some(v) => Some(v as i32),
            None => None,
        }
    }
}

} // verus!
