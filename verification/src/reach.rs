use vstd::prelude::*;
use vstd::string::StrSliceExecFns;
use crate::text::{
    all_digits, char_at, decimal_text, digit_value, digits_value, is_digit, lemma_decimal_text_value,
};

verus! {

/// The units that a duration is written in.
#[derive(Clone, Copy, Debug, PartialEq, Eq, Structural)]
pub enum Unit {
    Nanosecond,
    Microsecond,
    Millisecond,
    Second,
    Minute,
    Hour,
    Day,
    Week,
    Month,
    Year,
}

/// The unit that a name stands for, and none where the name is no unit's.
#[verifier::opaque]
pub open spec fn unit_named(word: Seq<char>) -> Option<Unit> {
    if word == "s"@ {
        Some(Unit::Second)
    } else if word == "m"@ {
        Some(Unit::Minute)
    } else if word == "h"@ {
        Some(Unit::Hour)
    } else if word == "ms"@ {
        Some(Unit::Millisecond)
    } else if word == "sec"@ || word == "secs"@ || word == "second"@ || word == "seconds"@ {
        Some(Unit::Second)
    } else if word == "min"@ || word == "mins"@ || word == "minute"@ || word == "minutes"@ {
        Some(Unit::Minute)
    } else if word == "hr"@ || word == "hrs"@ || word == "hour"@ || word == "hours"@ {
        Some(Unit::Hour)
    } else if word == "msec"@ || word == "millis"@ {
        Some(Unit::Millisecond)
    } else if word == "us"@ || word == "usec"@ || word == "\u{b5}s"@ {
        Some(Unit::Microsecond)
    } else if word == "ns"@ || word == "nsec"@ || word == "nanos"@ {
        Some(Unit::Nanosecond)
    } else if word == "d"@ || word == "day"@ || word == "days"@ {
        Some(Unit::Day)
    } else if word == "w"@ || word == "wk"@ || word == "wks"@ || word == "week"@ || word
        == "weeks"@ {
        Some(Unit::Week)
    } else if word == "M"@ || word == "month"@ || word == "months"@ {
        Some(Unit::Month)
    } else if word == "y"@ || word == "yr"@ || word == "yrs"@ || word == "year"@ || word
        == "years"@ {
        Some(Unit::Year)
    } else {
        None
    }
}

/// The seconds of one of a unit that is a second or longer; the nanoseconds
/// of one of a shorter unit.
pub open spec fn unit_size(unit: Unit) -> nat {
    match unit {
        Unit::Nanosecond => 1,
        Unit::Microsecond => 1_000,
        Unit::Millisecond => 1_000_000,
        Unit::Second => 1,
        Unit::Minute => 60,
        Unit::Hour => 3_600,
        Unit::Day => 86_400,
        Unit::Week => 604_800,
        Unit::Month => 2_630_016,
        Unit::Year => 31_557_600,
    }
}

/// Whether a unit is shorter than a second, so that its numbers count
/// nanoseconds.
pub open spec fn is_brief(unit: Unit) -> bool {
    unit == Unit::Nanosecond || unit == Unit::Microsecond || unit == Unit::Millisecond
}

/// What becomes of the reading of a token.
#[derive(Clone, Copy, Debug, PartialEq, Eq, Structural)]
pub enum Fate {
    /// The reading goes on.
    Going,
    /// The reading is over without harm: the parser has given up with an
    /// error, or has come to the end.
    Over,
    /// The seconds have come to the largest 64-bit number, and the
    /// nanoseconds carry one second more: the parser's sum runs over.
    Overrun,
}

/// The seconds and nanoseconds that a token has come to, and what has become
/// of the reading.
pub struct Tally {
    pub fate: Fate,
    pub secs: nat,
    pub nanos: nat,
}

/// The tally after `sec` seconds and `nsec` nanoseconds more, added as the
/// parser adds them: in 64 bits, the nanoseconds first and what they carry
/// with the seconds. A sum beyond 64 bits is an error to the parser. The one
/// sum that it does not check is the last carry: whole seconds at the largest
/// 64-bit number, and nanoseconds that come to one second exactly.
pub open spec fn added(secs: nat, nanos: nat, sec: nat, nsec: nat) -> Tally {
    let sum = nanos + nsec;
    let carry = if sum > 1_000_000_000 {
        sum / 1_000_000_000
    } else {
        0
    };
    let rest = if sum > 1_000_000_000 {
        sum % 1_000_000_000
    } else {
        sum
    };
    if sum > u64::MAX || sec + carry > u64::MAX || secs + sec + carry > u64::MAX {
        Tally { fate: Fate::Over, secs, nanos }
    } else if rest == 1_000_000_000 {
        if secs + sec + carry == u64::MAX {
            Tally { fate: Fate::Overrun, secs, nanos }
        } else {
            Tally { fate: Fate::Going, secs: secs + sec + carry + 1, nanos: 0 }
        }
    } else {
        Tally { fate: Fate::Going, secs: secs + sec + carry, nanos: rest }
    }
}

/// The tally after the number in front of a unit: so many of the unit, in
/// seconds or in nanoseconds. A product beyond 64 bits is an error to the
/// parser.
pub open spec fn whole_added(secs: nat, nanos: nat, unit: Unit, number: nat) -> Tally {
    let amount = number * unit_size(unit);
    if amount > u64::MAX {
        Tally { fate: Fate::Over, secs, nanos }
    } else if is_brief(unit) {
        added(secs, nanos, 0, amount)
    } else {
        added(secs, nanos, amount, 0)
    }
}

/// The nanoseconds of one of a unit up to a minute, in which the digits
/// behind a point are counted.
pub open spec fn fine_size(unit: Unit) -> nat {
    match unit {
        Unit::Microsecond => 1_000,
        Unit::Millisecond => 1_000_000,
        Unit::Second => 1_000_000_000,
        _ => 60_000_000_000,
    }
}

/// Whether the digits behind a point count nanoseconds with a unit.
pub open spec fn is_fine(unit: Unit) -> bool {
    unit == Unit::Microsecond || unit == Unit::Millisecond || unit == Unit::Second || unit
        == Unit::Minute
}

/// The tally after the digits behind a point: `numerator` parts of
/// `denominator` of the unit, in nanoseconds up to minutes and in seconds from
/// hours on. A part of a nanosecond, a product beyond 64 bits and a part that
/// does not come out even are errors to the parser.
pub open spec fn part_added(
    secs: nat,
    nanos: nat,
    unit: Unit,
    numerator: nat,
    denominator: nat,
) -> Tally {
    let size = if is_fine(unit) {
        fine_size(unit)
    } else {
        unit_size(unit)
    };
    let amount = numerator * size;
    if unit == Unit::Nanosecond || denominator == 0 || amount > u64::MAX || amount % denominator
        != 0 {
        Tally { fate: Fate::Over, secs, nanos }
    } else if is_fine(unit) {
        added(secs, nanos, 0, amount / denominator)
    } else {
        added(secs, nanos, amount / denominator, 0)
    }
}

/// Where in a token the reading stands.
#[derive(Clone, Copy, Debug, PartialEq, Eq, Structural)]
pub enum Place {
    /// In front of a number.
    Gap,
    /// In the digits of a number.
    Number,
    /// In the digits behind a point.
    Part,
    /// In the letters of a unit.
    Name,
}

/// How far a token has been read: what it has come to, where the reading
/// stands, the number at hand, the digits behind its point as a numerator and
/// a denominator, and the letters of its unit.
pub struct Reading {
    pub fate: Fate,
    pub secs: nat,
    pub nanos: nat,
    pub place: Place,
    pub number: nat,
    pub pointed: bool,
    pub numerator: nat,
    pub denominator: nat,
    pub word: Seq<char>,
}

/// Nothing read yet.
pub open spec fn reading_start() -> Reading {
    Reading {
        fate: Fate::Going,
        secs: 0,
        nanos: 0,
        place: Place::Gap,
        number: 0,
        pointed: false,
        numerator: 0,
        denominator: 1,
        word: Seq::<char>::empty(),
    }
}

/// The tally after a number with its unit: the number in front of the point
/// first, then the digits behind it. A name that is no unit's is an error to
/// the parser.
#[verifier::opaque]
pub open spec fn group_tally(
    secs: nat,
    nanos: nat,
    word: Seq<char>,
    number: nat,
    pointed: bool,
    numerator: nat,
    denominator: nat,
) -> Tally {
    match unit_named(word) {
        None => Tally { fate: Fate::Over, secs, nanos },
        Some(unit) => {
            let whole = whole_added(secs, nanos, unit, number);
            if whole.fate == Fate::Going && pointed {
                part_added(whole.secs, whole.nanos, unit, numerator, denominator)
            } else {
                whole
            }
        },
    }
}

/// The tally after the number at hand with its unit.
pub open spec fn group_added(r: Reading) -> Tally {
    group_tally(r.secs, r.nanos, r.word, r.number, r.pointed, r.numerator, r.denominator)
}

/// The reading in front of the next number, with what it has come to.
pub open spec fn at_gap(r: Reading, tally: Tally) -> Reading {
    Reading {
        fate: tally.fate,
        secs: tally.secs,
        nanos: tally.nanos,
        place: Place::Gap,
        number: 0,
        pointed: false,
        numerator: 0,
        denominator: 1,
        word: Seq::<char>::empty(),
    }
}

/// The reading that is over without harm.
pub open spec fn given_up(r: Reading) -> Reading {
    at_gap(r, Tally { fate: Fate::Over, secs: r.secs, nanos: r.nanos })
}

/// The letters that a unit is written in.
pub open spec fn is_unit_letter(c: char) -> bool {
    ('a' <= c <= 'z') || ('A' <= c <= 'Z') || c == '\u{b5}'
}

/// Whether a character is white space, as `char::is_whitespace` of the
/// standard library tells it. The parser asks the same.
pub uninterp spec fn white_space(c: char) -> bool;

/// Reads one character more, as the parser does. A character that has no
/// place where it stands is an error to the parser, and so is a number
/// beyond 64 bits. A digit, a letter and a point are told first, being no
/// white space.
/// - In front of a number: white space is passed over and a digit begins the
///   number.
/// - In a number: digits go to the number and white space is passed over; a
///   letter begins the unit and a point the digits behind it.
/// - Behind a point: digits go to numerator and denominator and white space
///   is passed over; a letter begins the unit, if there was a digit.
/// - In a unit: letters go to the name; a digit or white space ends it, and
///   the number is added.
#[verifier::opaque]
pub open spec fn read_char(r: Reading, c: char) -> Reading {
    if r.fate != Fate::Going {
        r
    } else if is_digit(c) {
        match r.place {
            Place::Gap => Reading { place: Place::Number, number: digit_value(c), ..r },
            Place::Number => if r.number * 10 + digit_value(c) > u64::MAX {
                given_up(r)
            } else {
                Reading { number: r.number * 10 + digit_value(c), ..r }
            },
            Place::Part => if r.denominator * 10 > u64::MAX || r.numerator * 10 + digit_value(c)
                > u64::MAX {
                given_up(r)
            } else {
                Reading {
                    numerator: r.numerator * 10 + digit_value(c),
                    denominator: r.denominator * 10,
                    ..r
                }
            },
            Place::Name => {
                let next = at_gap(r, group_added(r));
                if next.fate != Fate::Going {
                    next
                } else {
                    Reading { place: Place::Number, number: digit_value(c), ..next }
                }
            },
        }
    } else if is_unit_letter(c) {
        match r.place {
            Place::Gap => given_up(r),
            Place::Number => Reading { place: Place::Name, word: seq![c], ..r },
            Place::Part => if r.denominator == 1 {
                given_up(r)
            } else {
                Reading { place: Place::Name, word: seq![c], ..r }
            },
            Place::Name => Reading { word: r.word.push(c), ..r },
        }
    } else if c == '.' {
        if r.place == Place::Number {
            Reading { place: Place::Part, pointed: true, numerator: 0, denominator: 1, ..r }
        } else {
            given_up(r)
        }
    } else if white_space(c) {
        if r.place == Place::Name {
            at_gap(r, group_added(r))
        } else {
            r
        }
    } else {
        given_up(r)
    }
}

/// The reading `r` after `count` characters of `text` more.
pub open spec fn read_on(r: Reading, text: Seq<char>, count: int) -> Reading
    decreases count,
{
    if count <= 0 {
        r
    } else {
        read_char(read_on(r, text, count - 1), text[count - 1])
    }
}

/// The reading after the first `count` characters of `text`.
pub open spec fn reading(text: Seq<char>, count: int) -> Reading {
    read_on(reading_start(), text, count)
}

/// What becomes of a reading at the end of the text: a unit that stands last
/// has its number added.
pub open spec fn last_fate(r: Reading) -> Fate {
    if r.fate == Fate::Going && r.place == Place::Name {
        group_added(r).fate
    } else {
        r.fate
    }
}

/// Whether a token brings the parser of tokens with units to the one sum that
/// it does not check: whole seconds at the largest 64-bit number, and
/// nanoseconds that carry one second more.
pub open spec fn overruns(text: Seq<char>) -> bool {
    last_fate(reading(text, text.len() as int)) == Fate::Overrun
}

/// `char::is_whitespace` of the standard library: whether a character has the
/// property White_Space of Unicode. Which characters have it is not restated
/// here: it goes by the name `white_space`.
#[verifier::external_body]
fn is_space(c: char) -> (space: bool)
    ensures
        space == white_space(c),
{
    c.is_whitespace()
}

/// A tally in 64 bits.
#[derive(Clone, Copy, Debug, PartialEq, Eq, Structural)]
struct Count {
    fate: Fate,
    secs: u64,
    nanos: u64,
}

impl Count {
    /// The tally that is counted.
    spec fn tally(self) -> Tally {
        Tally { fate: self.fate, secs: self.secs as nat, nanos: self.nanos as nat }
    }
}

/// Adds seconds and nanoseconds to a tally.
fn add_span(secs: u64, nanos: u64, sec: u64, nsec: u64) -> (count: Count)
    ensures
        count.tally() == added(secs as nat, nanos as nat, sec as nat, nsec as nat),
{
    let sum: u128 = nanos as u128 + nsec as u128;
    let carry: u128 = if sum > 1_000_000_000 {
        sum / 1_000_000_000
    } else {
        0
    };
    let rest: u128 = if sum > 1_000_000_000 {
        sum % 1_000_000_000
    } else {
        sum
    };
    let most: u128 = u64::MAX as u128;
    if sum > most || sec as u128 + carry > most || secs as u128 + sec as u128 + carry > most {
        Count { fate: Fate::Over, secs, nanos }
    } else {
        let total: u64 = (secs as u128 + sec as u128 + carry) as u64;
        if rest == 1_000_000_000 {
            if total == u64::MAX {
                Count { fate: Fate::Overrun, secs, nanos }
            } else {
                Count { fate: Fate::Going, secs: total + 1, nanos: 0 }
            }
        } else {
            Count { fate: Fate::Going, secs: total, nanos: rest as u64 }
        }
    }
}

/// The seconds, or for the shorter units the nanoseconds, of one of a unit.
fn size_of(unit: Unit) -> (size: u64)
    ensures
        size == unit_size(unit),
        size <= 31_557_600,
{
    match unit {
        Unit::Nanosecond => 1,
        Unit::Microsecond => 1_000,
        Unit::Millisecond => 1_000_000,
        Unit::Second => 1,
        Unit::Minute => 60,
        Unit::Hour => 3_600,
        Unit::Day => 86_400,
        Unit::Week => 604_800,
        Unit::Month => 2_630_016,
        Unit::Year => 31_557_600,
    }
}

/// Whether a unit is shorter than a second.
fn brief(unit: Unit) -> (yes: bool)
    ensures
        yes == is_brief(unit),
{
    match unit {
        Unit::Nanosecond => true,
        Unit::Microsecond => true,
        Unit::Millisecond => true,
        _ => false,
    }
}

/// Whether the digits behind a point count nanoseconds with a unit.
fn fine(unit: Unit) -> (yes: bool)
    ensures
        yes == is_fine(unit),
{
    match unit {
        Unit::Microsecond => true,
        Unit::Millisecond => true,
        Unit::Second => true,
        Unit::Minute => true,
        _ => false,
    }
}

/// Adds the number in front of a unit to a tally.
fn add_whole(secs: u64, nanos: u64, unit: Unit, number: u64) -> (count: Count)
    ensures
        count.tally() == whole_added(secs as nat, nanos as nat, unit, number as nat),
{
    let size: u64 = size_of(unit);
    assert(number * size <= 0xFFFF_FFFF_FFFF_FFFF * 31_557_600) by (nonlinear_arith)
        requires
            0 <= number <= 0xFFFF_FFFF_FFFF_FFFF,
            0 <= size <= 31_557_600,
    ;
    let amount: u128 = number as u128 * size as u128;
    if amount > u64::MAX as u128 {
        Count { fate: Fate::Over, secs, nanos }
    } else if brief(unit) {
        add_span(secs, nanos, 0, amount as u64)
    } else {
        add_span(secs, nanos, amount as u64, 0)
    }
}

/// Adds the digits behind a point to a tally.
fn add_part(secs: u64, nanos: u64, unit: Unit, numerator: u64, denominator: u64) -> (count: Count)
    ensures
        count.tally() == part_added(
            secs as nat,
            nanos as nat,
            unit,
            numerator as nat,
            denominator as nat,
        ),
{
    let size: u64 = if fine(unit) {
        match unit {
            Unit::Microsecond => 1_000,
            Unit::Millisecond => 1_000_000,
            Unit::Second => 1_000_000_000,
            _ => 60_000_000_000,
        }
    } else {
        size_of(unit)
    };
    assert(numerator * size <= 0xFFFF_FFFF_FFFF_FFFF * 60_000_000_000) by (nonlinear_arith)
        requires
            0 <= numerator <= 0xFFFF_FFFF_FFFF_FFFF,
            0 <= size <= 60_000_000_000,
    ;
    let amount: u128 = numerator as u128 * size as u128;
    let nano = match unit {
        Unit::Nanosecond => true,
        _ => false,
    };
    if nano || denominator == 0 || amount > u64::MAX as u128 || amount % (denominator as u128)
        != 0 {
        Count { fate: Fate::Over, secs, nanos }
    } else {
        let share: u64 = (amount / (denominator as u128)) as u64;
        if fine(unit) {
            add_span(secs, nanos, 0, share)
        } else {
            add_span(secs, nanos, share, 0)
        }
    }
}

/// Whether the characters of `token` from `start` up to `end` spell `name`.
fn spells(token: &str, ascii: bool, start: usize, end: usize, name: &str) -> (same: bool)
    requires
        ascii == token.is_ascii(),
        start <= end <= token@.len(),
    ensures
        same == (token@.subrange(start as int, end as int) == name@),
{
    let len = name.unicode_len();
    if end - start != len {
        return false;
    }
    let plain = name.is_ascii();
    let mut k: usize = 0;
    while k < len
        invariant
            k <= len,
            len == name@.len(),
            len == end - start,
            start <= end <= token@.len(),
            ascii == token.is_ascii(),
            plain == name.is_ascii(),
            forall|j: int| 0 <= j < k ==> token@[start + j] == name@[j],
        decreases len - k,
    {
        if char_at(token, ascii, start + k) != char_at(name, plain, k) {
            assert(token@.subrange(start as int, end as int)[k as int] != name@[k as int]);
            return false;
        }
        k = k + 1;
    }
    assert(token@.subrange(start as int, end as int) =~= name@);
    true
}

/// The unit that the characters of `token` from `start` up to `end` name.
fn unit_at(token: &str, ascii: bool, start: usize, end: usize) -> (unit: Option<Unit>)
    requires
        ascii == token.is_ascii(),
        start <= end <= token@.len(),
    ensures
        unit == unit_named(token@.subrange(start as int, end as int)),
{
    reveal(unit_named);
    if spells(token, ascii, start, end, "s") {
        Some(Unit::Second)
    } else if spells(token, ascii, start, end, "m") {
        Some(Unit::Minute)
    } else if spells(token, ascii, start, end, "h") {
        Some(Unit::Hour)
    } else if spells(token, ascii, start, end, "ms") {
        Some(Unit::Millisecond)
    } else if spells(token, ascii, start, end, "sec") || spells(token, ascii, start, end, "secs")
        || spells(token, ascii, start, end, "second") || spells(
        token,
        ascii,
        start,
        end,
        "seconds",
    ) {
        Some(Unit::Second)
    } else if spells(token, ascii, start, end, "min") || spells(token, ascii, start, end, "mins")
        || spells(token, ascii, start, end, "minute") || spells(
        token,
        ascii,
        start,
        end,
        "minutes",
    ) {
        Some(Unit::Minute)
    } else if spells(token, ascii, start, end, "hr") || spells(token, ascii, start, end, "hrs")
        || spells(token, ascii, start, end, "hour") || spells(token, ascii, start, end, "hours") {
        Some(Unit::Hour)
    } else if spells(token, ascii, start, end, "msec") || spells(
        token,
        ascii,
        start,
        end,
        "millis",
    ) {
        Some(Unit::Millisecond)
    } else if spells(token, ascii, start, end, "us") || spells(token, ascii, start, end, "usec")
        || spells(token, ascii, start, end, "\u{b5}s") {
        Some(Unit::Microsecond)
    } else if spells(token, ascii, start, end, "ns") || spells(token, ascii, start, end, "nsec")
        || spells(token, ascii, start, end, "nanos") {
        Some(Unit::Nanosecond)
    } else if spells(token, ascii, start, end, "d") || spells(token, ascii, start, end, "day")
        || spells(token, ascii, start, end, "days") {
        Some(Unit::Day)
    } else if spells(token, ascii, start, end, "w") || spells(token, ascii, start, end, "wk")
        || spells(token, ascii, start, end, "wks") || spells(token, ascii, start, end, "week")
        || spells(token, ascii, start, end, "weeks") {
        Some(Unit::Week)
    } else if spells(token, ascii, start, end, "M") || spells(token, ascii, start, end, "month")
        || spells(token, ascii, start, end, "months") {
        Some(Unit::Month)
    } else if spells(token, ascii, start, end, "y") || spells(token, ascii, start, end, "yr")
        || spells(token, ascii, start, end, "yrs") || spells(token, ascii, start, end, "year")
        || spells(token, ascii, start, end, "years") {
        Some(Unit::Year)
    } else {
        None
    }
}

/// Adds a number with its unit to a tally.
fn add_group(
    token: &str,
    ascii: bool,
    start: usize,
    end: usize,
    secs: u64,
    nanos: u64,
    number: u64,
    pointed: bool,
    numerator: u64,
    denominator: u64,
) -> (count: Count)
    requires
        ascii == token.is_ascii(),
        start <= end <= token@.len(),
    ensures
        count.tally() == group_tally(
            secs as nat,
            nanos as nat,
            token@.subrange(start as int, end as int),
            number as nat,
            pointed,
            numerator as nat,
            denominator as nat,
        ),
{
    reveal(group_tally);
    match unit_at(token, ascii, start, end) {
        None => Count { fate: Fate::Over, secs, nanos },
        Some(unit) => {
            let whole = add_whole(secs, nanos, unit, number);
            let going = match whole.fate {
                Fate::Going => true,
                _ => false,
            };
            if going && pointed {
                add_part(whole.secs, whole.nanos, unit, numerator, denominator)
            } else {
                whole
            }
        },
    }
}

/// A reading in 64 bits. The letters of the unit are those of the token from
/// `start` on.
#[derive(Clone, Copy, Debug, PartialEq, Eq, Structural)]
struct Scan {
    count: Count,
    place: Place,
    number: u64,
    pointed: bool,
    numerator: u64,
    denominator: u64,
    start: usize,
}

impl Scan {
    /// Whether this is the reading `r` of the first `count` characters of
    /// `text`.
    spec fn shows(self, r: Reading, text: Seq<char>, count: int) -> bool {
        &&& self.count.tally() == (Tally { fate: r.fate, secs: r.secs, nanos: r.nanos })
        &&& self.place == r.place
        &&& r.fate != Fate::Going ==> r.place == Place::Gap
        &&& self.number == r.number
        &&& self.pointed == r.pointed
        &&& self.numerator == r.numerator
        &&& self.denominator == r.denominator
        &&& self.place == Place::Name ==> 0 <= self.start <= count <= text.len() && r.word
            == text.subrange(self.start as int, count)
    }

    /// Whether the reading goes on.
    fn is_going(self) -> (going: bool)
        ensures
            going == (self.count.fate == Fate::Going),
    {
        match self.count.fate {
            Fate::Going => true,
            _ => false,
        }
    }

    /// The reading in front of the next number, with what it has come to.
    fn gap(self, count: Count) -> (next: Scan)
        ensures
            next == (Scan {
                count,
                place: Place::Gap,
                number: 0,
                pointed: false,
                numerator: 0,
                denominator: 1,
                start: self.start,
            }),
    {
        Scan {
            count,
            place: Place::Gap,
            number: 0,
            pointed: false,
            numerator: 0,
            denominator: 1,
            start: self.start,
        }
    }

    /// The reading that is over without harm.
    fn give_up(self) -> (next: Scan)
        ensures
            next == (Scan {
                count: Count { fate: Fate::Over, secs: self.count.secs, nanos: self.count.nanos },
                place: Place::Gap,
                number: 0,
                pointed: false,
                numerator: 0,
                denominator: 1,
                start: self.start,
            }),
    {
        self.gap(Count { fate: Fate::Over, secs: self.count.secs, nanos: self.count.nanos })
    }

    /// Adds the number at hand with its unit, whose letters end in front of
    /// place `end`.
    fn close(self, token: &str, ascii: bool, end: usize, Ghost(r): Ghost<Reading>) -> (count: Count)
        requires
            ascii == token.is_ascii(),
            self.place == Place::Name,
            self.shows(r, token@, end as int),
        ensures
            count.tally() == group_added(r),
    {
        add_group(
            token,
            ascii,
            self.start,
            end,
            self.count.secs,
            self.count.nanos,
            self.number,
            self.pointed,
            self.numerator,
            self.denominator,
        )
    }

    /// Reads a digit.
    fn read_digit(self, token: &str, ascii: bool, i: usize, c: char, Ghost(r): Ghost<Reading>) -> (next:
        Scan)
        requires
            ascii == token.is_ascii(),
            i < token@.len(),
            c == token@[i as int],
            is_digit(c),
            r.fate == Fate::Going,
            self.shows(r, token@, i as int),
        ensures
            next.shows(read_char(r, c), token@, i + 1),
    {
        reveal(read_char);
        let digit: u128 = (c as u8 - 48) as u128;
        match self.place {
            Place::Gap => Scan { place: Place::Number, number: digit as u64, ..self },
            Place::Number => {
                let more: u128 = self.number as u128 * 10 + digit;
                if more > u64::MAX as u128 {
                    self.give_up()
                } else {
                    Scan { number: more as u64, ..self }
                }
            },
            Place::Part => {
                let above: u128 = self.numerator as u128 * 10 + digit;
                let below: u128 = self.denominator as u128 * 10;
                if below > u64::MAX as u128 || above > u64::MAX as u128 {
                    self.give_up()
                } else {
                    Scan { numerator: above as u64, denominator: below as u64, ..self }
                }
            },
            Place::Name => {
                let next = self.gap(self.close(token, ascii, i, Ghost(r)));
                if next.is_going() {
                    Scan { place: Place::Number, number: digit as u64, ..next }
                } else {
                    next
                }
            },
        }
    }

    /// Reads a letter.
    fn read_letter(self, token: &str, i: usize, c: char, Ghost(r): Ghost<Reading>) -> (next: Scan)
        requires
            i < token@.len(),
            c == token@[i as int],
            is_unit_letter(c),
            !is_digit(c),
            r.fate == Fate::Going,
            self.shows(r, token@, i as int),
        ensures
            next.shows(read_char(r, c), token@, i + 1),
    {
        reveal(read_char);
        match self.place {
            Place::Gap => self.give_up(),
            Place::Number => {
                assert(token@.subrange(i as int, i + 1) =~= seq![c]);
                Scan { place: Place::Name, start: i, ..self }
            },
            Place::Part => {
                if self.denominator == 1 {
                    self.give_up()
                } else {
                    assert(token@.subrange(i as int, i + 1) =~= seq![c]);
                    Scan { place: Place::Name, start: i, ..self }
                }
            },
            Place::Name => {
                assert(token@.subrange(self.start as int, i + 1) =~= token@.subrange(
                    self.start as int,
                    i as int,
                ).push(c));
                self
            },
        }
    }

    /// Reads a character that is no digit and no letter.
    fn read_other(self, token: &str, ascii: bool, i: usize, c: char, Ghost(r): Ghost<Reading>) -> (next:
        Scan)
        requires
            ascii == token.is_ascii(),
            i < token@.len(),
            c == token@[i as int],
            !is_unit_letter(c),
            !is_digit(c),
            r.fate == Fate::Going,
            self.shows(r, token@, i as int),
        ensures
            next.shows(read_char(r, c), token@, i + 1),
    {
        reveal(read_char);
        if c == '.' {
            match self.place {
                Place::Number => Scan {
                    place: Place::Part,
                    pointed: true,
                    numerator: 0,
                    denominator: 1,
                    ..self
                },
                _ => self.give_up(),
            }
        } else if is_space(c) {
            match self.place {
                Place::Name => self.gap(self.close(token, ascii, i, Ghost(r))),
                _ => self,
            }
        } else {
            self.give_up()
        }
    }
}

/// Whether a token keeps the parser of tokens with units away from the one
/// sum that it does not check.
pub fn is_in_reach(token: &str) -> (in_reach: bool)
    ensures
        in_reach == !overruns(token@),
{
    let ascii = token.is_ascii();
    let len = token.unicode_len();
    let mut scan = Scan {
        count: Count { fate: Fate::Going, secs: 0, nanos: 0 },
        place: Place::Gap,
        number: 0,
        pointed: false,
        numerator: 0,
        denominator: 1,
        start: 0,
    };
    let mut i: usize = 0;
    while i < len
        invariant
            i <= len,
            len == token@.len(),
            ascii == token.is_ascii(),
            scan.shows(reading(token@, i as int), token@, i as int),
        decreases len - i,
    {
        let c = char_at(token, ascii, i);
        let ghost r = reading(token@, i as int);
        assert(reading(token@, i + 1) == read_char(r, c));
        if !scan.is_going() {
            proof {
                reveal(read_char);
            }
        } else if '0' <= c && c <= '9' {
            scan = scan.read_digit(token, ascii, i, c, Ghost(r));
        } else if ('a' <= c && c <= 'z') || ('A' <= c && c <= 'Z') || c == '\u{b5}' {
            scan = scan.read_letter(token, i, c, Ghost(r));
        } else {
            scan = scan.read_other(token, ascii, i, c, Ghost(r));
        }
        i = i + 1;
    }
    let named = match scan.place {
        Place::Name => true,
        _ => false,
    };
    let last = if scan.is_going() && named {
        scan.close(token, ascii, len, Ghost(reading(token@, len as int))).fate
    } else {
        scan.count.fate
    };
    match last {
        Fate::Overrun => false,
        _ => true,
    }
}

/// The units of the short names `h`, `m`, `s` and `ms`.
pub open spec fn is_short_unit(unit: Unit) -> bool {
    unit == Unit::Hour || unit == Unit::Minute || unit == Unit::Second || unit
        == Unit::Millisecond
}

/// The short name of a unit.
pub open spec fn unit_letters(unit: Unit) -> Seq<char> {
    match unit {
        Unit::Hour => seq!['h'],
        Unit::Minute => seq!['m'],
        Unit::Second => seq!['s'],
        Unit::Millisecond => seq!['m', 's'],
        _ => Seq::<char>::empty(),
    }
}

/// The nanoseconds of one of a unit with a short name.
pub open spec fn short_unit_nanos(unit: Unit) -> nat {
    match unit {
        Unit::Hour => 3_600_000_000_000,
        Unit::Minute => 60_000_000_000,
        Unit::Second => 1_000_000_000,
        _ => 1_000_000,
    }
}

/// The token that writes numbers with their units one behind the other.
pub open spec fn spelled(groups: Seq<(u64, Unit)>) -> Seq<char>
    decreases groups.len(),
{
    if groups.len() == 0 {
        Seq::<char>::empty()
    } else {
        spelled(groups.drop_last()) + decimal_text(groups.last().0 as nat) + unit_letters(
            groups.last().1,
        )
    }
}

/// What numbers with their units are worth together, in nanoseconds: an hour
/// 3600 seconds, a minute 60 seconds, a millisecond the thousandth of a
/// second.
pub open spec fn sum_nanos(groups: Seq<(u64, Unit)>) -> nat
    decreases groups.len(),
{
    if groups.len() == 0 {
        0
    } else {
        sum_nanos(groups.drop_last()) + (groups.last().0 as nat) * short_unit_nanos(
            groups.last().1,
        )
    }
}

/// The first span that is too long for whole seconds in 64 bits, in
/// nanoseconds.
pub open spec fn span_limit() -> nat {
    0x1_0000_0000_0000_0000 * 1_000_000_000
}

/// What is read of the front of a text does not depend on what follows it.
proof fn lemma_read_front(r: Reading, front: Seq<char>, rest: Seq<char>, count: int)
    requires
        0 <= count <= front.len(),
    ensures
        read_on(r, front + rest, count) == read_on(r, front, count),
    decreases count,
{
    if count > 0 {
        lemma_read_front(r, front, rest, count - 1);
    }
}

/// Reading two texts one behind the other is reading the second from where
/// the first has led.
proof fn lemma_read_joined(r: Reading, front: Seq<char>, rest: Seq<char>, count: int)
    requires
        0 <= count <= rest.len(),
    ensures
        read_on(r, front + rest, front.len() + count) == read_on(
            read_on(r, front, front.len() as int),
            rest,
            count,
        ),
    decreases count,
{
    if count == 0 {
        lemma_read_front(r, front, rest, front.len() as int);
    } else {
        lemma_read_joined(r, front, rest, count - 1);
    }
}

/// A reading that is over stays as it is.
proof fn lemma_read_over(r: Reading, text: Seq<char>, count: int)
    requires
        r.fate != Fate::Going,
    ensures
        read_on(r, text, count) == r,
    decreases count,
{
    reveal(read_char);
    if count > 0 {
        lemma_read_over(r, text, count - 1);
    }
}

/// The reading from which a number is read: behind a unit, the number in
/// front of that unit is added first.
pub open spec fn number_base(r: Reading) -> Reading {
    if r.place == Place::Name {
        at_gap(r, group_added(r))
    } else {
        r
    }
}

/// Digits that write a number within 64 bits are read as that number.
proof fn lemma_read_digits(r: Reading, digits: Seq<char>, count: int)
    requires
        1 <= count <= digits.len(),
        all_digits(digits),
        digits_value(digits.subrange(0, count)) <= u64::MAX,
        r.fate == Fate::Going,
        r.place == Place::Gap || r.place == Place::Name,
    ensures
        read_on(r, digits, count) == if number_base(r).fate != Fate::Going {
            number_base(r)
        } else {
            Reading {
                place: Place::Number,
                number: digits_value(digits.subrange(0, count)),
                ..number_base(r)
            }
        },
    decreases count,
{
    reveal(read_char);
    let upto = digits.subrange(0, count);
    assert(upto.drop_last() =~= digits.subrange(0, count - 1));
    assert(upto.last() == digits[count - 1]);
    assert(is_digit(digits[count - 1]));
    if count == 1 {
        assert(digits_value(upto.drop_last()) == 0);
        assert(read_on(r, digits, 0) == r);
    } else {
        lemma_read_digits(r, digits, count - 1);
    }
}

/// A short name is the name of its unit.
proof fn lemma_short_names(unit: Unit)
    requires
        is_short_unit(unit),
    ensures
        unit_named(unit_letters(unit)) == Some(unit),
{
    reveal(unit_named);
    reveal_strlit("s");
    reveal_strlit("m");
    reveal_strlit("h");
    reveal_strlit("ms");
    assert("s"@ =~= seq!['s']);
    assert("m"@ =~= seq!['m']);
    assert("h"@ =~= seq!['h']);
    assert("ms"@ =~= seq!['m', 's']);
    assert(seq!['s'][0] == 's' && seq!['m'][0] == 'm' && seq!['h'][0] == 'h');
    assert(seq!['m', 's'].len() == 2 && seq!['s'].len() == 1 && seq!['m'].len() == 1 && seq!['h'].len()
        == 1);
}

/// A number with a short unit is added for what it is worth, unless a sum
/// passes 64 bits; and it is the largest span of whole seconds and one second
/// more that cannot be added.
proof fn lemma_short_added(secs: nat, nanos: nat, unit: Unit, number: nat)
    requires
        is_short_unit(unit),
        nanos < 1_000_000_000,
        secs <= u64::MAX,
    ensures
        ({
            let tally = whole_added(secs, nanos, unit, number);
            let sum = secs * 1_000_000_000 + nanos + number * short_unit_nanos(unit);
            &&& tally.fate == Fate::Overrun ==> sum == span_limit()
            &&& tally.fate == Fate::Going ==> tally.nanos < 1_000_000_000 && tally.secs
                <= u64::MAX && tally.secs * 1_000_000_000 + tally.nanos == sum
        }),
{
}

/// Whether the reading `r` goes on with the number `number` and the short
/// unit `unit` at hand, the numbers in front of it being added to `sum`
/// nanoseconds.
pub open spec fn holds_group(r: Reading, number: nat, unit: Unit, sum: nat) -> bool {
    &&& r.fate == Fate::Going
    &&& r.place == Place::Name
    &&& r.word == unit_letters(unit)
    &&& r.number == number
    &&& !r.pointed
    &&& r.nanos < 1_000_000_000
    &&& r.secs <= u64::MAX
    &&& r.secs * 1_000_000_000 + r.nanos == sum
}

/// The number at hand with its short unit is added for what it is worth.
proof fn lemma_group_closed(r: Reading, number: nat, unit: Unit, sum: nat)
    requires
        is_short_unit(unit),
        holds_group(r, number, unit, sum),
    ensures
        ({
            let tally = group_added(r);
            let more = sum + number * short_unit_nanos(unit);
            &&& tally.fate == Fate::Overrun ==> more == span_limit()
            &&& tally.fate == Fate::Going ==> tally.nanos < 1_000_000_000 && tally.secs
                <= u64::MAX && tally.secs * 1_000_000_000 + tally.nanos == more
        }),
{
    reveal(group_tally);
    lemma_short_names(unit);
    lemma_short_added(r.secs, r.nanos, unit, number);
}

/// The digits of a number within 64 bits are read as that number.
proof fn lemma_number_read(r: Reading, number: u64)
    requires
        r.fate == Fate::Going,
        r.place == Place::Gap || r.place == Place::Name,
    ensures
        read_on(r, decimal_text(number as nat), decimal_text(number as nat).len() as int)
            == if number_base(r).fate != Fate::Going {
            number_base(r)
        } else {
            Reading { place: Place::Number, number: number as nat, ..number_base(r) }
        },
{
    let digits = decimal_text(number as nat);
    lemma_decimal_text_value(number as nat);
    assert(digits.subrange(0, digits.len() as int) =~= digits);
    lemma_read_digits(r, digits, digits.len() as int);
}

/// The letters of a short unit behind a number are read as its name.
proof fn lemma_name_read(r: Reading, unit: Unit)
    requires
        is_short_unit(unit),
        r.fate == Fate::Going,
        r.place == Place::Number,
    ensures
        read_on(r, unit_letters(unit), unit_letters(unit).len() as int) == (Reading {
            place: Place::Name,
            word: unit_letters(unit),
            ..r
        }),
{
    reveal(read_char);
    let letters = unit_letters(unit);
    assert(read_on(r, letters, 0) == r);
    assert(read_on(r, letters, 1) == read_char(r, letters[0]));
    assert(seq![letters[0]] =~= letters.subrange(0, 1));
    if unit == Unit::Millisecond {
        assert(read_on(r, letters, 2) == read_char(read_on(r, letters, 1), letters[1]));
        assert(seq!['m'].push('s') =~= letters);
    } else {
        assert(letters.subrange(0, 1) =~= letters);
    }
}

/// One number with its short unit more: the number in front of it is added,
/// and the new one is at hand.
proof fn lemma_group_read(led: Reading, number: u64, unit: Unit, sum: nat)
    requires
        is_short_unit(unit),
        led.fate == Fate::Going,
        led.place == Place::Gap || led.place == Place::Name,
        number_base(led).fate != Fate::Overrun,
        number_base(led).fate != Fate::Going ==> number_base(led).place == Place::Gap,
        number_base(led).fate == Fate::Going ==> {
            &&& !number_base(led).pointed
            &&& number_base(led).nanos < 1_000_000_000
            &&& number_base(led).secs <= u64::MAX
            &&& number_base(led).secs * 1_000_000_000 + number_base(led).nanos == sum
        },
    ensures
        ({
            let digits = decimal_text(number as nat);
            let letters = unit_letters(unit);
            let r = read_on(
                read_on(led, digits, digits.len() as int),
                letters,
                letters.len() as int,
            );
            &&& r.fate != Fate::Overrun
            &&& r.fate != Fate::Going ==> r.place == Place::Gap
            &&& r.fate == Fate::Going ==> holds_group(r, number as nat, unit, sum)
        }),
{
    let digits = decimal_text(number as nat);
    let letters = unit_letters(unit);
    lemma_number_read(led, number);
    let numbered = read_on(led, digits, digits.len() as int);
    if numbered.fate != Fate::Going {
        lemma_read_over(numbered, letters, letters.len() as int);
    } else {
        lemma_name_read(numbered, unit);
    }
}

/// A token of numbers with short units is read group by group: at its end the
/// last number and its unit are at hand, and the others are added for what
/// they are worth.
proof fn lemma_read_spelled(groups: Seq<(u64, Unit)>)
    requires
        groups.len() > 0,
        forall|i: int| 0 <= i < groups.len() ==> is_short_unit(#[trigger] groups[i].1),
        sum_nanos(groups.drop_last()) < span_limit(),
    ensures
        ({
            let r = reading(spelled(groups), spelled(groups).len() as int);
            &&& r.fate != Fate::Overrun
            &&& r.fate != Fate::Going ==> r.place == Place::Gap
            &&& r.fate == Fate::Going ==> holds_group(
                r,
                groups.last().0 as nat,
                groups.last().1,
                sum_nanos(groups.drop_last()),
            )
        }),
    decreases groups.len(),
{
    let before = groups.drop_last();
    let front = spelled(before);
    let number = groups.last().0;
    let unit = groups.last().1;
    let digits = decimal_text(number as nat);
    let letters = unit_letters(unit);
    let start = reading_start();
    let led = read_on(start, front, front.len() as int);
    assert(is_short_unit(groups[groups.len() - 1].1));
    lemma_read_joined(start, front, digits, digits.len() as int);
    lemma_read_joined(start, front + digits, letters, letters.len() as int);
    assert(spelled(groups) == front + digits + letters);
    let numbered = read_on(led, digits, digits.len() as int);
    let r = read_on(numbered, letters, letters.len() as int);
    assert(reading(spelled(groups), spelled(groups).len() as int) == r);
    if before.len() == 0 {
        assert(front =~= Seq::<char>::empty());
        assert(led == start);
        lemma_group_read(led, number, unit, 0);
    } else {
        assert forall|i: int| 0 <= i < before.len() implies is_short_unit(
            #[trigger] before[i].1,
        ) by {
            assert(before[i] == groups[i]);
        }
        assert(is_short_unit(before[before.len() - 1].1));
        lemma_read_spelled(before);
        if led.fate != Fate::Going {
            lemma_read_over(led, digits, digits.len() as int);
            lemma_read_over(led, letters, letters.len() as int);
        } else {
            lemma_group_closed(
                led,
                before.last().0 as nat,
                before.last().1,
                sum_nanos(before.drop_last()),
            );
            lemma_group_read(led, number, unit, sum_nanos(before));
        }
    }
}

/// A token of numbers with the units `h`, `m`, `s` and `ms` whose sum stays
/// below the first span that is too long for 64 bits never brings the parser
/// to the sum that it does not check.
pub proof fn lemma_short_units_stay_in_reach(groups: Seq<(u64, Unit)>)
    requires
        forall|i: int| 0 <= i < groups.len() ==> is_short_unit(#[trigger] groups[i].1),
        sum_nanos(groups) < span_limit(),
    ensures
        !overruns(spelled(groups)),
{
    if groups.len() > 0 {
        assert(is_short_unit(groups[groups.len() - 1].1));
        lemma_read_spelled(groups);
        let r = reading(spelled(groups), spelled(groups).len() as int);
        if r.fate == Fate::Going {
            lemma_group_closed(
                r,
                groups.last().0 as nat,
                groups.last().1,
                sum_nanos(groups.drop_last()),
            );
        }
    }
}

} // verus!
