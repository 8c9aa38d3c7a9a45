//! Decimal digit strings and the numbers they stand for.

use vstd::prelude::*;

verus! {

/// Whether `c` is one of the ten ASCII decimal digits.
pub open spec fn is_digit(c: char) -> bool {
    '0' <= c <= '9'
}

/// The value of the decimal digit `c`.
pub open spec fn digit_value(c: char) -> nat
    recommends
        is_digit(c),
{
    (c as int - '0' as int) as nat
}

/// Whether every character of `s` is a decimal digit.
pub open spec fn all_digits(s: Seq<char>) -> bool {
    forall|i: int| 0 <= i < s.len() ==> is_digit(#[trigger] s[i])
}

/// The number that the digit string `s` stands for in base ten. Leading
/// zeros do not count, and the empty string stands for zero.
pub open spec fn digits_value(s: Seq<char>) -> nat
    decreases s.len(),
{
    if s.len() == 0 {
        0
    } else {
        digits_value(s.drop_last()) * 10 + digit_value(s.last())
    }
}

/// Whether `text` spells the number `n`: it begins with decimal digits that
/// stand for `n`, and what follows them, if anything, begins with `/`.
pub open spec fn spells_number(text: Seq<char>, n: nat) -> bool {
    exists|cut: int|
        0 < cut <= text.len() && all_digits(#[trigger] text.take(cut)) && digits_value(
            text.take(cut),
        ) == n && (cut < text.len() ==> text[cut] == '/')
}

/// A digit string never stands for less than one of its prefixes does.
pub proof fn lemma_digits_value_prefix(s: Seq<char>, n: int)
    requires
        0 <= n <= s.len(),
    ensures
        digits_value(s.take(n)) <= digits_value(s),
    decreases s.len(),
{
    if n == s.len() {
        assert(s.take(n) =~= s);
    } else {
        lemma_digits_value_prefix(s.drop_last(), n);
        assert(s.drop_last().take(n) =~= s.take(n));
    }
}

/// Tells whether `c` is a decimal digit.
pub fn is_digit_char(c: char) -> (r: bool)
    ensures
        r == is_digit(c),
{
    '0' <= c && c <= '9'
}

/// Reads `chars[from..to]` as a number in decimal digits. Returns `None`
/// when a character there is no digit or the number does not fit in 32
/// bits. An empty range reads as zero.
pub fn parse_digits(chars: &Vec<char>, from: usize, to: usize) -> (r: Option<u32>)
    requires
        from <= to <= chars.len(),
    ensures
        r is Some <==> all_digits(chars@.subrange(from as int, to as int)) && digits_value(
            chars@.subrange(from as int, to as int),
        ) <= u32::MAX,
        r matches Some(n) ==> n == digits_value(chars@.subrange(from as int, to as int)),
{
    let ghost whole = chars@.subrange(from as int, to as int);
    let mut value: u32 = 0;
    let mut at: usize = from;
    while at < to
        invariant
            from <= at <= to <= chars.len(),
            whole == chars@.subrange(from as int, to as int),
            all_digits(whole.take(at - from)),
            value == digits_value(whole.take(at - from)),
        decreases to - at,
    {
        let c = chars[at];
        assert(c == whole[at - from]);
        if !is_digit_char(c) {
            return None;
        }
        let digit: u32 = c as u32 - '0' as u32;
        proof {
            let longer = whole.take(at - from + 1);
            assert(longer.drop_last() =~= whole.take(at - from));
            assert(longer.last() == c);
            assert(digits_value(longer) == value * 10 + digit);
            assert forall|i: int| 0 <= i < longer.len() implies is_digit(#[trigger] longer[i]) by {
                if i < at - from {
                    assert(longer[i] == whole.take(at - from)[i]);
                }
            }
            lemma_digits_value_prefix(whole, at - from + 1);
        }
        if value > (u32::MAX - digit) / 10 {
            return None;
        }
        value = value * 10 + digit;
        at = at + 1;
    }
    assert(whole.take(to - from) =~= whole);
    Some(value)
}

} // verus!
