//! Decimal text of natural numbers, without sign and without leading zeros.

use vstd::prelude::*;

use crate::text::has_at;

verus! {

/// Whether `c` is a decimal digit.
pub open spec fn is_digit(c: char) -> bool {
    '0' <= c && c <= '9'
}

/// The decimal digit for `d`, where `d` is below 10.
pub open spec fn digit_char(d: int) -> char {
    ('0' as int + d) as char
}

/// The number that the decimal digit `c` stands for.
pub open spec fn digit_value(c: char) -> int {
    c as int - '0' as int
}

/// The decimal text of `n`: at least one digit, no leading zero but for 0.
pub open spec fn decimal(n: nat) -> Seq<char>
    decreases n,
{
    if n < 10 {
        seq![digit_char(n as int)]
    } else {
        decimal(n / 10).push(digit_char((n % 10) as int))
    }
}

/// The number that a string of decimal digits stands for.
pub open spec fn value_of(digits: Seq<char>) -> nat
    decreases digits.len(),
{
    if digits.len() == 0 {
        0
    } else {
        (10 * value_of(digits.drop_last()) + digit_value(digits.last())) as nat
    }
}

/// Whether `digits` is the decimal text of some number.
pub open spec fn is_decimal(digits: Seq<char>) -> bool {
    &&& digits.len() > 0
    &&& forall|i: int| 0 <= i < digits.len() ==> is_digit(#[trigger] digits[i])
    &&& digits.len() > 1 ==> digits[0] != '0'
}

/// Whether no digit stands in `s` at `pos`.
pub open spec fn no_digit_at(s: Seq<char>, pos: int) -> bool {
    pos >= s.len() || !is_digit(s[pos])
}

/// The position behind the longest run of digits that starts at `pos`.
pub open spec fn digits_end(s: Seq<char>, pos: int) -> int
    decreases s.len() - pos,
{
    if 0 <= pos < s.len() && is_digit(s[pos]) {
        digits_end(s, pos + 1)
    } else {
        pos
    }
}

/// Reads the decimal number that starts at `pos` and is at most `max`: the
/// number and the position behind it.
pub open spec fn parse_decimal(s: Seq<char>, pos: int, max: nat) -> Option<(nat, int)> {
    let end = digits_end(s, pos);
    let digits = s.subrange(pos, end);
    if pos < 0 || end == pos {
        None
    } else if !is_decimal(digits) {
        None
    } else if value_of(digits) > max {
        None
    } else {
        Some((value_of(digits), end))
    }
}

/// The decimal text of a number is well formed.
pub proof fn lemma_decimal_is_decimal(n: nat)
    ensures
        is_decimal(decimal(n)),
        n >= 10 ==> decimal(n).len() > 1,
        n < 10 ==> decimal(n).len() == 1,
    decreases n,
{
    if n >= 10 {
        lemma_decimal_is_decimal(n / 10);
        let d = decimal(n / 10);
        let e = decimal(n);
        assert(e == d.push(digit_char((n % 10) as int)));
        assert forall|i: int| 0 <= i < e.len() implies is_digit(#[trigger] e[i]) by {
            if i < d.len() {
                assert(e[i] == d[i]);
            }
        }
        assert(e[0] == d[0]);
        if n / 10 < 10 {
            assert(d[0] == digit_char((n / 10) as int));
        }
    }
}

/// The decimal text of a number stands for that number.
pub proof fn lemma_value_of_decimal(n: nat)
    ensures
        value_of(decimal(n)) == n,
    decreases n,
{
    if n < 10 {
        let e = decimal(n);
        assert(e.drop_last() =~= Seq::<char>::empty());
        assert(value_of(e.drop_last()) == 0);
    } else {
        lemma_value_of_decimal(n / 10);
        let d = decimal(n / 10);
        let e = decimal(n);
        assert(e.drop_last() =~= d);
        assert(e.last() == digit_char((n % 10) as int));
    }
}

/// A well formed decimal text is the decimal text of the number it stands for.
pub proof fn lemma_decimal_of_value(digits: Seq<char>)
    requires
        is_decimal(digits),
    ensures
        decimal(value_of(digits)) == digits,
    decreases digits.len(),
{
    let v = value_of(digits);
    let front = digits.drop_last();
    let last = digits.last();
    assert(is_digit(last));
    if digits.len() == 1 {
        assert(front =~= Seq::<char>::empty());
        assert(value_of(front) == 0);
        assert(v == digit_value(last));
        assert(decimal(v) =~= digits);
    } else {
        assert forall|i: int| 0 <= i < front.len() implies is_digit(#[trigger] front[i]) by {
            assert(front[i] == digits[i]);
        }
        assert(front[0] == digits[0]);
        assert(is_decimal(front));
        lemma_decimal_of_value(front);
        lemma_value_positive(front);
        let w = value_of(front);
        assert(v == 10 * w + digit_value(last));
        assert(v / 10 == w && v % 10 == digit_value(last));
        assert(v >= 10);
        assert(decimal(v) == decimal(w).push(digit_char(digit_value(last))));
        assert(decimal(v) =~= digits);
    }
}

/// A well formed decimal text of more than one digit, or whose one digit is
/// not `0`, stands for a positive number.
pub proof fn lemma_value_positive(digits: Seq<char>)
    requires
        is_decimal(digits),
        digits[0] != '0',
    ensures
        value_of(digits) > 0,
    decreases digits.len(),
{
    if digits.len() > 1 {
        let front = digits.drop_last();
        assert forall|i: int| 0 <= i < front.len() implies is_digit(#[trigger] front[i]) by {
            assert(front[i] == digits[i]);
        }
        assert(front[0] == digits[0]);
        lemma_value_positive(front);
    } else {
        assert(digits.drop_last() =~= Seq::<char>::empty());
        assert(is_digit(digits[0]));
    }
}

/// The run of digits from `pos` ends where `digits_end` says, and nowhere
/// else.
pub proof fn lemma_digits_end(s: Seq<char>, pos: int)
    requires
        0 <= pos <= s.len(),
    ensures
        pos <= digits_end(s, pos) <= s.len(),
        forall|i: int| pos <= i < digits_end(s, pos) ==> is_digit(#[trigger] s[i]),
        no_digit_at(s, digits_end(s, pos)),
    decreases s.len() - pos,
{
    if pos < s.len() && is_digit(s[pos]) {
        lemma_digits_end(s, pos + 1);
    }
}

/// A run of digits from `pos` to `end` that no digit follows is the longest.
pub proof fn lemma_digits_end_unique(s: Seq<char>, pos: int, end: int)
    requires
        0 <= pos <= end <= s.len(),
        forall|i: int| pos <= i < end ==> is_digit(#[trigger] s[i]),
        no_digit_at(s, end),
    ensures
        digits_end(s, pos) == end,
    decreases end - pos,
{
    if pos < end {
        lemma_digits_end_unique(s, pos + 1, end);
    }
}

/// What `parse_decimal` reads is the decimal text of the number it gives.
pub proof fn lemma_parse_decimal_sound(s: Seq<char>, pos: int, max: nat)
    requires
        0 <= pos <= s.len(),
    ensures
        match parse_decimal(s, pos, max) {
            Some((v, end)) => {
                &&& pos < end <= s.len()
                &&& v <= max
                &&& s.subrange(pos, end) == decimal(v)
                &&& no_digit_at(s, end)
            },
            None => true,
        },
{
    lemma_digits_end(s, pos);
    if let Some((v, end)) = parse_decimal(s, pos, max) {
        lemma_decimal_of_value(s.subrange(pos, end));
    }
}

/// Where the decimal text of `v` stands at `pos` and no digit follows it,
/// `parse_decimal` reads `v`.
pub proof fn lemma_parse_decimal_complete(s: Seq<char>, pos: int, max: nat, v: nat)
    requires
        has_at(s, pos, decimal(v)),
        no_digit_at(s, pos + decimal(v).len()),
        v <= max,
    ensures
        parse_decimal(s, pos, max) == Some((v, pos + decimal(v).len())),
{
    let d = decimal(v);
    let end = pos + d.len();
    lemma_decimal_is_decimal(v);
    lemma_value_of_decimal(v);
    assert forall|i: int| pos <= i < end implies is_digit(#[trigger] s[i]) by {
        assert(s[i] == s.subrange(pos, end)[i - pos]);
        assert(is_digit(d[i - pos]));
    }
    lemma_digits_end_unique(s, pos, end);
}

/// Decides whether `c` is a decimal digit.
pub fn char_is_digit(c: char) -> (r: bool)
    ensures
        r == is_digit(c),
{
    '0' <= c && c <= '9'
}

/// Appends the decimal text of `n` to `out`.
pub fn push_decimal(out: &mut Vec<char>, n: u64)
    ensures
        final(out)@ == old(out)@ + decimal(n as nat),
    decreases n,
{
    if n >= 10 {
        push_decimal(out, n / 10);
    }
    let d: u8 = (n % 10) as u8;
    out.push((48u8 + d) as char);
    assert(out@ =~= old(out)@ + decimal(n as nat));
}

/// Reads the decimal number that starts at `pos`, if it is at most `max`.
pub fn parse_decimal_at(s: &Vec<char>, pos: usize, max: u64) -> (r: Option<(u64, usize)>)
    ensures
        match r {
            Some((v, end)) => parse_decimal(s@, pos as int, max as nat) == Some(
                (v as nat, end as int),
            ),
            None => parse_decimal(s@, pos as int, max as nat) is None,
        },
{
    if pos > s.len() {
        return None;
    }
    let mut end: usize = pos;
    let mut acc: u64 = 0;
    let mut over = false;
    while end < s.len() && char_is_digit(s[end])
        invariant
            pos <= end <= s.len(),
            digits_end(s@, pos as int) == digits_end(s@, end as int),
            forall|i: int| pos <= i < end ==> is_digit(#[trigger] s@[i]),
            !over ==> acc == value_of(s@.subrange(pos as int, end as int)) && acc <= max,
            over ==> value_of(s@.subrange(pos as int, end as int)) > max,
        decreases s.len() - end,
    {
        let d: u64 = (s[end] as u32 - '0' as u32) as u64;
        proof {
            let longer = s@.subrange(pos as int, end + 1);
            assert(longer.drop_last() =~= s@.subrange(pos as int, end as int));
            assert(longer.last() == s@[end as int]);
        }
        if !over {
            let next: u128 = acc as u128 * 10 + d as u128;
            if next > max as u128 {
                over = true;
            } else {
                acc = next as u64;
            }
        }
        end += 1;
    }
    proof {
        assert(digits_end(s@, end as int) == end);
    }
    if end == pos {
        return None;
    }
    if end - pos > 1 && s[pos] == '0' {
        assert(s@.subrange(pos as int, end as int)[0] == '0');
        return None;
    }
    if over {
        return None;
    }
    proof {
        let digits = s@.subrange(pos as int, end as int);
        assert forall|i: int| 0 <= i < digits.len() implies is_digit(#[trigger] digits[i]) by {
            assert(digits[i] == s@[pos + i]);
        }
        assert(digits[0] == s@[pos as int]);
    }
    Some((acc, end))
}

} // verus!
