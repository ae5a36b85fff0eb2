use vstd::prelude::*;
use vstd::string::StrSliceExecFns;
use vstd::string::StringExecFns;
use crate::text::{
    all_digits, char_at, decimal_text, digits_value, is_digit, lemma_decimal_text_value,
};
use crate::error::{Error, ErrorView};
use crate::reach::{
    is_in_reach, is_short_unit, lemma_short_units_stay_in_reach, overruns, span_limit, spelled,
    sum_nanos, unit_letters, Unit,
};
use crate::span::TimeSpan;

verus! {

/// A token without the plus sign that may stand in front of a bare number.
pub open spec fn unsigned_part(s: Seq<char>) -> Seq<char> {
    if s.len() > 0 && s[0] == '+' {
        s.subrange(1, s.len() as int)
    } else {
        s
    }
}

/// The seconds that a bare number stands for: a token of one or more digits,
/// with or without a plus sign in front, whose number fits in 64 bits. Any
/// other token is no bare number.
pub open spec fn bare_seconds(s: Seq<char>) -> Option<u64> {
    let body = unsigned_part(s);
    if body.len() > 0 && all_digits(body) && digits_value(body) <= u64::MAX {
        Some(digits_value(body) as u64)
    } else {
        None
    }
}

/// What a token with units stands for: seconds and nanoseconds, or the text
/// that says why it stands for nothing.
pub uninterp spec fn compound_outcome(text: Seq<char>) -> Result<(u64, u32), Seq<char>>;

/// What came back from the parser of tokens with units, as plain values.
pub open spec fn parts_of(parsed: Result<TimeSpan, String>) -> Result<(u64, u32), Seq<char>> {
    match parsed {
        Ok(span) => Ok((span.secs, span.nanos)),
        Err(why) => Err(why@),
    }
}

/// What the resolver says of a token that the parser of tokens with units
/// cannot be asked about.
pub open spec fn too_long_text() -> Seq<char> {
    "the duration is too long"@
}

/// What the resolver makes of a token: a span, or the text of the error. A
/// bare number counts whole seconds. Any other token is worth what the parser
/// of tokens with units makes of it, and where that parser fails the error has
/// the parser's text. The one token that the parser is not asked about is one
/// that `overruns`: its whole seconds come to the largest 64-bit number and
/// its nanoseconds carry one second more.
pub open spec fn resolved(text: Seq<char>) -> Result<TimeSpan, Seq<char>> {
    match bare_seconds(text) {
        Some(secs) => Ok(TimeSpan { secs, nanos: 0 }),
        None => if overruns(text) {
            Err(too_long_text())
        } else {
            match compound_outcome(text) {
                Ok(parts) => Ok(TimeSpan { secs: parts.0, nanos: parts.1 }),
                Err(why) => Err(why),
            }
        },
    }
}

/// A run of digits is worth at least as much as any run that it starts with.
proof fn lemma_prefix_value(s: Seq<char>, k: int)
    requires
        0 <= k <= s.len(),
    ensures
        digits_value(s.subrange(0, k)) <= digits_value(s),
    decreases s.len(),
{
    if k == s.len() {
        assert(s.subrange(0, k) =~= s);
    } else {
        lemma_prefix_value(s.drop_last(), k);
        assert(s.drop_last().subrange(0, k) =~= s.subrange(0, k));
    }
}

/// Reads a bare number of seconds: `None` where the token is no such number.
pub fn parse_seconds(token: &str) -> (seconds: Option<u64>)
    ensures
        seconds == bare_seconds(token@),
{
    let ascii = token.is_ascii();
    let len = token.unicode_len();
    let start: usize = if len > 0 && char_at(token, ascii, 0) == '+' {
        1
    } else {
        0
    };
    let ghost body = unsigned_part(token@);
    if start == len {
        return None;
    }
    let mut value: u64 = 0;
    let mut i: usize = start;
    while i < len
        invariant
            start <= i <= len,
            len == token@.len(),
            ascii == token.is_ascii(),
            body == unsigned_part(token@),
            body == token@.subrange(start as int, len as int),
            all_digits(body.subrange(0, i - start)),
            value == digits_value(body.subrange(0, i - start)),
        decreases len - i,
    {
        let c = char_at(token, ascii, i);
        if c < '0' || c > '9' {
            assert(!is_digit(body[i - start]));
            return None;
        }
        let digit: u64 = (c as u8 - 48) as u64;
        proof {
            let before = body.subrange(0, i - start);
            let after = body.subrange(0, i - start + 1);
            assert(after.drop_last() =~= before);
            lemma_prefix_value(body, i - start + 1);
        }
        if value > (u64::MAX - digit) / 10 {
            return None;
        }
        value = value * 10 + digit;
        i = i + 1;
    }
    assert(body.subrange(0, i - start) =~= body);
    Some(value)
}

/// `humantime::parse_duration`, with the duration it gives taken apart into
/// seconds and nanoseconds, and its error turned into the text that the error
/// shows. What the parser makes of a text depends on the text alone and is not
/// restated here: it goes by the name `compound_outcome`. The nanoseconds of a
/// duration are below one second.
///
/// The parser adds up whole seconds in 64 bits. Every sum it makes is checked
/// and ends in an error, but the last: where the seconds have come to the
/// largest 64-bit number and the nanoseconds have come to one second exactly,
/// the carry of that second stops it with a panic. `overruns` says of a token
/// whether it comes there. It follows the parser character by character, with
/// its white space, its numbers, its points, its names of units and its sums;
/// where the parser gives up with an error, it says no.
#[verifier::external_body]
fn parse_compound(token: &str) -> (parsed: Result<TimeSpan, String>)
    requires
        !overruns(token@),
    ensures
        parts_of(parsed) == compound_outcome(token@),
        parsed matches Ok(span) ==> span.wf(),
{
    match humantime::parse_duration(token) {
        Ok(duration) => Ok(TimeSpan { secs: duration.as_secs(), nanos: duration.subsec_nanos() }),
        Err(error) => Err(error.to_string()),
    }
}

/// Turns what the parser of tokens with units said into the resolver's answer:
/// its span as it is, its complaint as an invalid duration with the same text.
pub fn from_compound(parsed: Result<TimeSpan, String>) -> (outcome: Result<TimeSpan, Error>)
    ensures
        match parsed {
            Ok(span) => outcome == Ok::<TimeSpan, Error>(span),
            Err(why) => outcome matches Err(error) && error@ == ErrorView::InvalidDuration(why@),
        },
{
    match parsed {
        Ok(span) => Ok(span),
        Err(why) => Err(Error::InvalidDuration(why)),
    }
}

/// Resolves the duration that a token stands for. A bare number counts whole
/// seconds. Any other token is read as a duration with units, unless its
/// seconds could pass what 64 bits hold. A token that is neither a bare number
/// nor a duration with units is an invalid duration.
pub fn resolve_duration(token: &str) -> (outcome: Result<TimeSpan, Error>)
    ensures
        match resolved(token@) {
            Ok(span) => outcome == Ok::<TimeSpan, Error>(span),
            Err(why) => outcome matches Err(error) && error@ == ErrorView::InvalidDuration(why),
        },
        outcome matches Ok(span) ==> span.wf(),
{
    match parse_seconds(token) {
        Some(secs) => Ok(TimeSpan::from_secs(secs)),
        None => {
            if is_in_reach(token) {
                from_compound(parse_compound(token))
            } else {
                Err(Error::InvalidDuration(String::from_str("the duration is too long")))
            }
        },
    }
}

/// Every number of seconds that 64 bits hold, written as a bare number,
/// resolves to exactly that many seconds.
pub proof fn lemma_bare_number_resolves(n: u64)
    ensures
        bare_seconds(decimal_text(n as nat)) == Some(n),
        resolved(decimal_text(n as nat)) == Ok::<TimeSpan, Seq<char>>(
            TimeSpan { secs: n, nanos: 0 },
        ),
{
    lemma_decimal_text_value(n as nat);
}

/// What the parser of tokens with units makes of a token, as the resolver
/// hands it on.
pub open spec fn handed_on(text: Seq<char>) -> Result<TimeSpan, Seq<char>> {
    match compound_outcome(text) {
        Ok(parts) => Ok(TimeSpan { secs: parts.0, nanos: parts.1 }),
        Err(why) => Err(why),
    }
}

/// Every token of numbers with the units `h`, `m`, `s` and `ms` whose sum
/// has its whole seconds within 64 bits is resolved as the parser of tokens
/// with units reads it: none of them is held back.
pub proof fn lemma_short_units_reach_the_parser(groups: Seq<(u64, Unit)>)
    requires
        groups.len() > 0,
        forall|i: int| 0 <= i < groups.len() ==> is_short_unit(#[trigger] groups[i].1),
        sum_nanos(groups) < span_limit(),
    ensures
        resolved(spelled(groups)) == handed_on(spelled(groups)),
{
    lemma_short_units_stay_in_reach(groups);
    let text = spelled(groups);
    let number = decimal_text(groups.last().0 as nat);
    let letters = unit_letters(groups.last().1);
    assert(is_short_unit(groups[groups.len() - 1].1));
    lemma_decimal_text_value(groups.last().0 as nat);
    assert(text == spelled(groups.drop_last()) + number + letters);
    assert(text.len() >= 2);
    assert(text.last() == letters.last());
    assert(!is_digit(text.last()));
    let body = unsigned_part(text);
    assert(body.len() > 0 && body.last() == text.last());
    assert(!is_digit(body[body.len() - 1]));
}

} // verus!
