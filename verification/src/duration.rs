//! Spans of time in configuration text.
use vstd::prelude::*;
use vstd::string::*;
use crate::text::{chars_of, digits_from, same_chars, slice_of};

verus! {

/// How many leading characters of `s` are digits.
pub open spec fn leading_digits(s: Seq<char>) -> nat
    decreases s.len(),
{
    if s.len() > 0 && crate::text::is_digit(s[0]) {
        1 + leading_digits(s.drop_first())
    } else {
        0
    }
}

/// The number in front of the unit.
pub open spec fn duration_number(s: Seq<char>) -> nat {
    crate::text::digits_value(s.take(leading_digits(s) as int))
}

/// What stands behind the number.
pub open spec fn duration_unit(s: Seq<char>) -> Seq<char> {
    s.skip(leading_digits(s) as int)
}

/// The seconds in `n` seconds, minutes, hours or days, as the unit says.
pub open spec fn span_seconds(n: nat, unit: Seq<char>) -> Option<nat> {
    if unit == "s"@ {
        Some(n)
    } else if unit == "m"@ {
        Some(n * 60)
    } else if unit == "h"@ {
        Some(n * 60 * 60)
    } else if unit == "d"@ {
        Some(n * 60 * 60 * 24)
    } else {
        None
    }
}

/// The span that the text gives, in seconds.
pub open spec fn duration_seconds(s: Seq<char>) -> Option<nat> {
    span_seconds(duration_number(s), duration_unit(s))
}

/// Whether the text has a usable number wherever it has a unit: there is one, it fits a signed
/// 64-bit number, and the span in seconds fits 64 bits.
pub open spec fn readable(s: Seq<char>) -> bool {
    duration_unit(s).len() > 0 ==> {
        &&& leading_digits(s) > 0
        &&& duration_number(s) <= i64::MAX
        &&& duration_seconds(s) matches Some(n) ==> n <= u64::MAX
    }
}

proof fn lemma_leading_digits(s: Seq<char>)
    ensures
        leading_digits(s) <= s.len(),
        forall|i: int| 0 <= i < leading_digits(s) ==> crate::text::is_digit(#[trigger] s[i]),
        leading_digits(s) < s.len() ==> !crate::text::is_digit(s[leading_digits(s) as int]),
    decreases s.len(),
{
    if s.len() > 0 && crate::text::is_digit(s[0]) {
        lemma_leading_digits(s.drop_first());
        assert forall|i: int| 0 <= i < leading_digits(s) implies crate::text::is_digit(
            #[trigger] s[i],
        ) by {
            if i > 0 {
                assert(s[i] == s.drop_first()[i - 1]);
            }
        }
    }
}

/// Counts the digits that `s` begins with.
fn count_digits(s: &Vec<char>) -> (n: usize)
    ensures
        n == leading_digits(s@),
        n <= s.len(),
{
    let mut i: usize = 0;
    assert(s@.skip(0) =~= s@);
    while i < s.len() && '0' <= s[i] && s[i] <= '9'
        invariant
            i <= s.len(),
            leading_digits(s@) == i + leading_digits(s@.skip(i as int)),
        decreases s.len() - i,
    {
        assert(s@.skip(i as int).drop_first() =~= s@.skip(i + 1));
        i += 1;
    }
    i
}

/// Whether `parse_duration` can read the text: see `readable`.
pub fn can_parse_duration(src: &str) -> (yes: bool)
    ensures
        yes == readable(src@),
{
    let chars: Vec<char> = chars_of(src);
    let n: usize = count_digits(&chars);
    if n == chars.len() {
        return true;
    }
    if n == 0 {
        return false;
    }
    let number: Vec<char> = slice_of(&chars, 0, n);
    let unit: Vec<char> = slice_of(&chars, n, chars.len());
    proof {
        lemma_leading_digits(src@);
        assert(number@ =~= src@.take(n as int));
        assert(number@.skip(0) =~= number@);
        assert(unit@ =~= src@.skip(n as int));
    }
    match digits_from(&number, 0, 0x7fff_ffff_ffff_ffff) {
        Some(v) => match span(v, &unit) {
            Some(total) => total <= 0xffff_ffff_ffff_ffff,
            None => true,
        },
        None => false,
    }
}

/// The seconds in `n` units.
fn span(n: u64, unit: &Vec<char>) -> (secs: Option<u128>)
    requires
        n <= i64::MAX,
    ensures
        match secs {
            Some(total) => span_seconds(n as nat, unit@) == Some(total as nat),
            None => span_seconds(n as nat, unit@) is None,
        },
{
    let n: u128 = n as u128;
    if same_chars(unit, &chars_of("s")) {
        Some(n)
    } else if same_chars(unit, &chars_of("m")) {
        Some(n * 60)
    } else if same_chars(unit, &chars_of("h")) {
        Some(n * 60 * 60)
    } else if same_chars(unit, &chars_of("d")) {
        Some(n * 60 * 60 * 24)
    } else {
        None
    }
}

/// What reading a span of time comes to: its seconds, or what is wrong with its unit.
pub open spec fn duration_outcome(s: Seq<char>) -> Result<nat, Seq<char>> {
    if duration_unit(s).len() == 0 {
        Err("not set unit"@)
    } else {
        match duration_seconds(s) {
            Some(n) => Ok(n),
            None => Err("unit only can be s,h,m,d"@),
        }
    }
}

/// Reads a span of time: a number and a unit (`s`, `m`, `h` or `d`), as a number of seconds.
pub fn parse_duration(src: &str) -> (secs: Result<u64, &'static str>)
    requires
        readable(src@),
    ensures
        match secs {
            Ok(n) => duration_unit(src@).len() > 0 && duration_seconds(src@) == Some(n as nat),
            Err(why) => if duration_unit(src@).len() > 0 {
                duration_seconds(src@) is None && why@ == "unit only can be s,h,m,d"@
            } else {
                why@ == "not set unit"@
            },
        },
        match secs {
            Ok(n) => duration_outcome(src@) == Ok::<nat, Seq<char>>(n as nat),
            Err(why) => duration_outcome(src@) == Err::<nat, Seq<char>>(why@),
        },
{
    let chars: Vec<char> = chars_of(src);
    let n: usize = count_digits(&chars);
    if n == chars.len() {
        return Err("not set unit");
    }
    let number: Vec<char> = slice_of(&chars, 0, n);
    let unit: Vec<char> = slice_of(&chars, n, chars.len());
    proof {
        lemma_leading_digits(src@);
        assert(number@ =~= src@.take(n as int));
        assert(number@.skip(0) =~= number@);
        assert(unit@ =~= src@.skip(n as int));
    }
    match digits_from(&number, 0, 0x7fff_ffff_ffff_ffff) {
        Some(v) => match span(v, &unit) {
            Some(total) => Ok(total as u64),
            None => Err("unit only can be s,h,m,d"),
        },
        None => vstd::pervasive::unreached(),
    }
}

/// Digits in front of something else are the leading digits.
proof fn lemma_digits_lead(digits: Seq<char>, rest: Seq<char>)
    requires
        forall|i: int| 0 <= i < digits.len() ==> crate::text::is_digit(#[trigger] digits[i]),
        rest.len() > 0 ==> !crate::text::is_digit(rest[0]),
    ensures
        leading_digits(digits + rest) == digits.len(),
    decreases digits.len(),
{
    let s = digits + rest;
    if digits.len() > 0 {
        let tail = digits.drop_first();
        assert(s[0] == digits[0]);
        assert(s.drop_first() =~= tail + rest);
        assert forall|i: int| 0 <= i < tail.len() implies crate::text::is_digit(#[trigger] tail[i]) by {
            assert(tail[i] == digits[i + 1]);
        }
        lemma_digits_lead(tail, rest);
    } else {
        assert(s =~= rest);
    }
}

/// A number written in decimal, with a unit behind it, is read as so many of that unit; text that
/// is a number alone has no unit.
pub proof fn law_duration_roundtrip(n: nat, unit: Seq<char>)
    requires
        unit.len() > 0 ==> !crate::text::is_digit(unit[0]),
    ensures
        duration_number(crate::text::decimal(n) + unit) == n,
        duration_unit(crate::text::decimal(n) + unit) == unit,
        duration_seconds(crate::text::decimal(n) + unit) == span_seconds(n, unit),
{
    let digits = crate::text::decimal(n);
    crate::text::lemma_decimal(n);
    lemma_digits_lead(digits, unit);
    assert((digits + unit).take(digits.len() as int) =~= digits);
    assert((digits + unit).skip(digits.len() as int) =~= unit);
}

/// A minute is sixty seconds, an hour sixty minutes, a day twenty-four hours; there is no other unit.
pub proof fn law_units(n: nat, unit: Seq<char>)
    ensures
        span_seconds(n, "s"@) == Some(n),
        span_seconds(n, "m"@) == span_seconds(60 * n, "s"@),
        span_seconds(n, "h"@) == span_seconds(60 * n, "m"@),
        span_seconds(n, "d"@) == span_seconds(24 * n, "h"@),
        unit != "s"@ && unit != "m"@ && unit != "h"@ && unit != "d"@ ==> span_seconds(n, unit) is None,
{
    reveal_strlit("s");
    reveal_strlit("m");
    reveal_strlit("h");
    reveal_strlit("d");
    assert("s"@[0] == 's' && "m"@[0] == 'm' && "h"@[0] == 'h' && "d"@[0] == 'd');
}

/// A number with a unit behind it can be read wherever it and its seconds fit, and a number alone too.
pub proof fn law_duration_is_readable(n: nat, unit: Seq<char>)
    requires
        unit.len() > 0 ==> !crate::text::is_digit(unit[0]),
        unit.len() > 0 ==> n <= i64::MAX,
        unit.len() > 0 ==> (span_seconds(n, unit) matches Some(secs) ==> secs <= u64::MAX),
    ensures
        readable(crate::text::decimal(n) + unit),
{
    law_duration_roundtrip(n, unit);
    crate::text::lemma_decimal(n);
    lemma_digits_lead(crate::text::decimal(n), unit);
}

/// All digits in front of the unit are the number, zeros in front among them.
pub proof fn law_duration_takes_all_digits(digits: Seq<char>, unit: Seq<char>)
    requires
        crate::text::all_digits(digits),
        unit.len() > 0 ==> !crate::text::is_digit(unit[0]),
    ensures
        duration_number(digits + unit) == crate::text::digits_value(digits),
        duration_unit(digits + unit) == unit,
{
    lemma_digits_lead(digits, unit);
    assert((digits + unit).take(digits.len() as int) =~= digits);
    assert((digits + unit).skip(digits.len() as int) =~= unit);
}

/// A number with a unit behind it is read as that many seconds, minutes, hours or days, in seconds; a
/// number alone lacks a unit, and with anything else behind it the unit is none.
pub proof fn law_durations_are_read(digits: Seq<char>, unit: Seq<char>)
    requires
        crate::text::all_digits(digits),
        unit.len() > 0 ==> !crate::text::is_digit(unit[0]),
    ensures
        ({
            let n = crate::text::digits_value(digits);
            let read = duration_outcome(digits + unit);
            &&& unit == "s"@ ==> read == Ok::<nat, Seq<char>>(n)
            &&& unit == "m"@ ==> read == Ok::<nat, Seq<char>>(60 * n)
            &&& unit == "h"@ ==> read == Ok::<nat, Seq<char>>(3600 * n)
            &&& unit == "d"@ ==> read == Ok::<nat, Seq<char>>(86400 * n)
            &&& unit.len() == 0 ==> read == Err::<nat, Seq<char>>("not set unit"@)
            &&& unit.len() > 0 && unit != "s"@ && unit != "m"@ && unit != "h"@ && unit != "d"@
                ==> read == Err::<nat, Seq<char>>("unit only can be s,h,m,d"@)
        }),
{
    let n = crate::text::digits_value(digits);
    law_duration_takes_all_digits(digits, unit);
    law_units(n, unit);
    law_units(60 * n, unit);
    law_units(24 * n, unit);
    law_units(60 * (60 * n), unit);
    law_units(60 * (24 * n), unit);
    reveal_strlit("s");
    reveal_strlit("m");
    reveal_strlit("h");
    reveal_strlit("d");
    assert("s"@[0] == 's' && "m"@[0] == 'm' && "h"@[0] == 'h' && "d"@[0] == 'd');
}

} // verus!
