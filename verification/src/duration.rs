//! How long something took, in words.
use crate::text::{
    a_decimal_reads_back, a_sum_is_framed, decimal, decimal_text, digit, digit_text, framed,
    read_back,
};
use vstd::prelude::*;
use vstd::string::*;

verus! {

/// How a time is written.
#[derive(Debug, PartialEq, Eq)]
pub enum DurationFormat {
    /// Just so.
    Text(String),
    /// As the number of nanoseconds divided by `divisor`, to two places, with
    /// `unit` behind it.
    Quotient { divisor: u64, unit: &'static str },
}

/// A number of hundredths as a number with two places.
pub open spec fn two_places(hundredths: nat) -> Seq<char> {
    decimal(hundredths / 100) + "."@ + seq![digit(hundredths / 10 % 10)] + seq![
        digit(hundredths % 10),
    ]
}

/// A time of at least a hundredth of a second: minutes, where it takes any,
/// and seconds to two places.
pub open spec fn clock(hundredths: nat) -> Seq<char> {
    if hundredths >= 6000 {
        decimal(hundredths / 6000) + "m "@ + two_places(hundredths % 6000) + "s"@
    } else {
        two_places(hundredths) + "s"@
    }
}

/// Writes a number of hundredths as a number with two places.
fn two_places_text(hundredths: u64) -> (res: String)
    ensures
        res@ == two_places(hundredths as nat),
{
    decimal_text(hundredths / 100).concat(".").concat(digit_text(hundredths / 10 % 10)).concat(
        digit_text(hundredths % 10),
    )
}

/// Writes a time of `nanos` nanoseconds, which is `hundredths` hundredths of a
/// second when it is rounded, in the unit that suits it best.
pub fn format_duration(hundredths: u64, nanos: u128) -> (res: DurationFormat)
    ensures
        match res {
            DurationFormat::Text(text) => if hundredths >= 1 {
                text@ == clock(hundredths as nat)
            } else {
                nanos <= 1_000 && text@ == decimal(nanos as nat) + "ns"@
            },
            DurationFormat::Quotient { divisor, unit } => {
                &&& hundredths == 0
                &&& nanos > 1_000
                &&& if nanos > 1_000_000 {
                    divisor == 1_000_000 && unit@ == "ms"@
                } else {
                    divisor == 1_000 && unit@ == "us"@
                }
            },
        },
{
    if hundredths >= 6000 {
        let minutes: u64 = hundredths / 6000;
        let rest: u64 = hundredths % 6000;
        return DurationFormat::Text(
            decimal_text(minutes).concat("m ").concat(two_places_text(rest).as_str()).concat("s"),
        );
    } else if hundredths >= 1 {
        return DurationFormat::Text(two_places_text(hundredths).concat("s"));
    }
    if nanos > 1_000_000 {
        return DurationFormat::Quotient { divisor: 1_000_000, unit: "ms" };
    } else if nanos > 1_000 {
        return DurationFormat::Quotient { divisor: 1_000, unit: "us" };
    }
    DurationFormat::Text(decimal_text(nanos as u64).concat("ns"))
}

/// A number with two places reads back as the hundredths that it was written
/// for: a number, a point and two digits.
pub proof fn two_places_read_back(hundredths: nat)
    ensures
        ({
            let text = two_places(hundredths);
            let point = text.len() - 3;
            &&& point > 0
            &&& text[point] == '.'
            &&& read_back(text.take(point)) * 100 + read_back(text.skip(point + 1)) == hundredths
            &&& text.take(point) == decimal(hundredths / 100)
            &&& '0' <= text[point + 1] <= '9'
            &&& '0' <= text[point + 2] <= '9'
        }),
{
    reveal_strlit(".");
    let text = two_places(hundredths);
    let whole = decimal(hundredths / 100);
    let tens = digit(hundredths / 10 % 10);
    let ones = digit(hundredths % 10);
    let point = text.len() - 3;
    a_decimal_reads_back(hundredths / 100);
    assert(text.take(point) =~= whole);
    let places = text.skip(point + 1);
    assert(places =~= seq![tens, ones]);
    assert(places.drop_last() =~= seq![tens]);
    assert(seq![tens].drop_last() =~= Seq::empty());
    assert(read_back(seq![tens].drop_last()) == 0);
    assert(read_back(seq![tens]) == hundredths / 10 % 10);
    assert(read_back(places) == (hundredths / 10 % 10) * 10 + hundredths % 10);
}

/// A time is told in minutes and seconds if and only if it takes a minute; the
/// minutes and the seconds, which are fewer than sixty, make up the time.
pub proof fn minutes_and_seconds_make_up_the_time(hundredths: nat)
    ensures
        hundredths < 6000 ==> framed(
            clock(hundredths),
            Seq::empty(),
            two_places(hundredths),
            "s"@,
        ),
        hundredths >= 6000 ==> exists|minutes: nat, rest: nat|
            {
                &&& minutes > 0
                &&& rest < 6000
                &&& minutes * 6000 + rest == hundredths
                &&& #[trigger] framed(
                    clock(hundredths),
                    decimal(minutes) + "m "@,
                    two_places(rest),
                    "s"@,
                )
            },
{
    if hundredths < 6000 {
        assert(Seq::empty() + two_places(hundredths) + "s"@ =~= clock(hundredths));
        a_sum_is_framed(Seq::empty(), two_places(hundredths), "s"@);
    } else {
        let minutes = hundredths / 6000;
        let rest = hundredths % 6000;
        a_sum_is_framed(decimal(minutes) + "m "@, two_places(rest), "s"@);
        assert(minutes * 6000 + rest == hundredths);
        assert(framed(clock(hundredths), decimal(minutes) + "m "@, two_places(rest), "s"@));
    }
}

} // verus!
