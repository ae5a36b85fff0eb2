use vstd::prelude::*;
use vstd::string::StrSliceExecFns;

verus! {

/// The character that writes the digit `d`.
pub open spec fn digit_char(d: nat) -> char
    recommends
        d < 10,
{
    (48 + d) as char
}

/// The digits of `n` in base ten, the highest first, without leading zeros;
/// zero is written as one digit.
pub open spec fn decimal_text(n: nat) -> Seq<char>
    decreases n,
{
    if n < 10 {
        seq![digit_char(n)]
    } else {
        decimal_text(n / 10).push(digit_char(n % 10))
    }
}

/// Whether `c` is one of the ten digits.
pub open spec fn is_digit(c: char) -> bool {
    '0' <= c <= '9'
}

/// The number that the digit `c` stands for.
pub open spec fn digit_value(c: char) -> nat
    recommends
        is_digit(c),
{
    (c as nat - 48) as nat
}

/// Whether `s` holds digits only.
pub open spec fn all_digits(s: Seq<char>) -> bool {
    forall|i: int| 0 <= i < s.len() ==> is_digit(#[trigger] s[i])
}

/// The number that a run of digits writes in base ten.
pub open spec fn digits_value(s: Seq<char>) -> nat
    decreases s.len(),
{
    if s.len() == 0 {
        0
    } else {
        digits_value(s.drop_last()) * 10 + digit_value(s.last())
    }
}

/// The digits that write a number are digits, and they write that number.
pub proof fn lemma_decimal_text_value(n: nat)
    ensures
        decimal_text(n).len() > 0,
        all_digits(decimal_text(n)),
        digits_value(decimal_text(n)) == n,
    decreases n,
{
    if n < 10 {
        assert(digits_value(decimal_text(n).drop_last()) == 0);
    } else {
        lemma_decimal_text_value(n / 10);
        assert(decimal_text(n).drop_last() =~= decimal_text(n / 10));
    }
}

/// The digits of `n`, with a zero in front where `n` has one digit only.
pub open spec fn two_digit_text(n: nat) -> Seq<char> {
    if n < 10 {
        seq!['0', digit_char(n)]
    } else {
        decimal_text(n)
    }
}

/// `String::push` of the standard library: the character is added at the end
/// of the text and the rest stays as it was.
pub assume_specification[ String::push ](text: &mut String, ch: char)
    ensures
        final(text)@ == old(text)@.push(ch),
;

/// The character of one digit.
pub fn digit_to_char(d: u8) -> (ch: char)
    requires
        d < 10,
    ensures
        ch == digit_char(d as nat),
{
    (48u8 + d) as char
}

/// Writes `n` in base ten at the end of `text`.
pub fn push_decimal(text: &mut String, n: u64)
    ensures
        final(text)@ == old(text)@ + decimal_text(n as nat),
    decreases n,
{
    if n >= 10 {
        push_decimal(text, n / 10);
    }
    text.push(digit_to_char((n % 10) as u8));
}

/// Writes `n` in base ten at the end of `text`, in two digits at least.
pub fn push_two_digits(text: &mut String, n: u64)
    ensures
        final(text)@ == old(text)@ + two_digit_text(n as nat),
{
    if n < 10 {
        text.push('0');
    }
    push_decimal(text, n);
}

/// The character of `token` at place `i`. `ascii` says whether the token is
/// ASCII, in which case the character is found in one step.
pub fn char_at(token: &str, ascii: bool, i: usize) -> (c: char)
    requires
        ascii == token.is_ascii(),
        i < token@.len(),
    ensures
        c == token@[i as int],
{
    if ascii {
        token.get_ascii(i) as char
    } else {
        token.get_char(i)
    }
}

/// Whether two texts are the same.
pub fn same_text(left: &str, right: &str) -> (same: bool)
    ensures
        same == (left@ == right@),
{
    let len = left.unicode_len();
    if right.unicode_len() != len {
        return false;
    }
    let left_ascii = left.is_ascii();
    let right_ascii = right.is_ascii();
    let mut i: usize = 0;
    while i < len
        invariant
            i <= len,
            len == left@.len(),
            len == right@.len(),
            left_ascii == left.is_ascii(),
            right_ascii == right.is_ascii(),
            left@.subrange(0, i as int) == right@.subrange(0, i as int),
        decreases len - i,
    {
        if char_at(left, left_ascii, i) != char_at(right, right_ascii, i) {
            return false;
        }
        i = i + 1;
    }
    assert(left@ =~= left@.subrange(0, len as int));
    assert(right@ =~= right@.subrange(0, len as int));
    true
}

} // verus!
