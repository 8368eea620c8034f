//! One-line texts of the measurements, as a report shows them.

use vstd::prelude::*;
use vstd::string::*;
use crate::latency::{LatencyResult, LatencyView, Mean};
use crate::text::{append_decimal, append_hundredths, decimal, hundredths};
use crate::throughput::{Rate, SpeedResult, SpeedView};

verus! {

/// The whole number nearest to `num / den`, a half counting upwards.
pub open spec fn rounded_quotient(num: nat, den: nat) -> nat
    recommends
        den > 0,
{
    (2 * num + den) / (2 * den)
}

/// A duration in milliseconds with two decimal places.
pub open spec fn millis_text(micros: u64) -> Seq<char> {
    hundredths(rounded_quotient(micros as nat, 10))
}

/// A mean duration in milliseconds with two decimal places; a mean of no
/// samples is no number.
pub open spec fn mean_text(mean: Mean) -> Seq<char> {
    if mean.count == 0 {
        "NaN"@
    } else {
        hundredths(rounded_quotient(mean.total as nat, (10 * mean.count) as nat))
    }
}

/// A rate in megabits per second with two decimal places; a rate over no
/// time is infinite with bytes and no number without.
pub open spec fn rate_text(rate: Rate) -> Seq<char> {
    if rate.elapsed_nanos > 0 {
        hundredths(rounded_quotient((rate.bytes * 800_000) as nat, rate.elapsed_nanos as nat))
    } else if rate.bytes > 0 {
        "inf"@
    } else {
        "NaN"@
    }
}

/// The text of a latency classification.
pub open spec fn latency_text(latency: LatencyView) -> Seq<char> {
    match latency {
        LatencyView::Success { median, average, minimum, maximum } => millis_text(median) + "/"@
            + mean_text(average) + "/"@ + millis_text(minimum) + "/"@ + millis_text(maximum),
        LatencyView::Unstable { valid_count, total_count } => "Unstable ("@ + decimal(
            valid_count as nat,
        ) + "/"@ + decimal(total_count as nat) + ")"@,
        LatencyView::AllFailed => "All Failed"@,
        LatencyView::SessionError(reason) => "Session Error: "@ + reason,
    }
}

/// The text of a throughput result.
pub open spec fn speed_text(speed: SpeedView) -> Seq<char> {
    match speed {
        SpeedView::Success(rate) => rate_text(rate) + " Mbps"@,
        SpeedView::Failed(reason) => "Failed: "@ + reason,
    }
}

/// Rounding the quotient to the nearest whole number adds one to it exactly
/// where twice the remainder reaches the divisor.
pub proof fn lemma_rounded_quotient(num: nat, den: nat)
    requires
        den > 0,
    ensures
        rounded_quotient(num, den) == num / den + if 2 * (num % den) >= den {
            1nat
        } else {
            0nat
        },
{
    let q = num / den;
    let r = num % den;
    vstd::arithmetic::div_mod::lemma_fundamental_div_mod(num as int, den as int);
    let up: int = if 2 * r >= den {
        1
    } else {
        0
    };
    let rest = 2 * r + den - up * (2 * den);
    assert(2 * num + den == (q + up) * (2 * den) + rest) by (nonlinear_arith)
        requires
            num == den * q + r,
            rest == 2 * r + den - up * (2 * den),
    ;
    assert(0 <= rest < 2 * den);
    vstd::arithmetic::div_mod::lemma_fundamental_div_mod_converse(
        (2 * num + den) as int,
        (2 * den) as int,
        q + up,
        rest,
    );
}

/// The whole number nearest to `num / den`, a half counting upwards.
fn round_quotient(num: u128, den: u128) -> (rounded: u128)
    requires
        0 < den <= u128::MAX / 2,
    ensures
        rounded == rounded_quotient(num as nat, den as nat),
{
    proof {
        lemma_rounded_quotient(num as nat, den as nat);
    }
    let quotient = num / den;
    let remainder = num % den;
    if 2 * remainder >= den {
        assert(quotient < u128::MAX) by (nonlinear_arith)
            requires
                quotient == num / den,
                den >= 1,
                2 * (num % den) >= den,
                num <= u128::MAX,
        ;
        quotient + 1
    } else {
        quotient
    }
}

/// Appends a duration in milliseconds with two decimal places.
fn append_millis(text: &mut String, micros: u64)
    ensures
        final(text)@ == old(text)@ + millis_text(micros),
{
    let rounded = round_quotient(micros as u128, 10);
    append_hundredths(text, rounded);
}

/// Appends a mean duration in milliseconds with two decimal places.
fn append_mean(text: &mut String, mean: &Mean)
    ensures
        final(text)@ == old(text)@ + mean_text(*mean),
{
    if mean.count == 0 {
        text.append("NaN");
    } else {
        let rounded = round_quotient(mean.total, 10 * (mean.count as u128));
        append_hundredths(text, rounded);
    }
}

/// Appends a rate in megabits per second with two decimal places.
fn append_rate(text: &mut String, rate: &Rate)
    ensures
        final(text)@ == old(text)@ + rate_text(*rate),
{
    if rate.elapsed_nanos > 0 {
        let rounded = round_quotient((rate.bytes as u128) * 800_000, rate.elapsed_nanos as u128);
        append_hundredths(text, rounded);
    } else if rate.bytes > 0 {
        text.append("inf");
    } else {
        text.append("NaN");
    }
}

impl LatencyResult {
    /// The classification in one line: the median, mean, minimum and maximum
    /// in milliseconds, or what took their place.
    pub fn describe(&self) -> (text: String)
        ensures
            text@ == latency_text(self@),
    {
        let mut text = String::new();
        match self {
            LatencyResult::Success { median, average, minimum, maximum } => {
                append_millis(&mut text, *median);
                text.append("/");
                append_mean(&mut text, average);
                text.append("/");
                append_millis(&mut text, *minimum);
                text.append("/");
                append_millis(&mut text, *maximum);
                assert(text@ =~= latency_text(self@));
            },
            LatencyResult::Unstable { valid_count, total_count } => {
                text.append("Unstable (");
                append_decimal(&mut text, *valid_count as u128);
                text.append("/");
                append_decimal(&mut text, *total_count as u128);
                text.append(")");
                assert(text@ =~= latency_text(self@));
            },
            LatencyResult::AllFailed => {
                text.append("All Failed");
                assert(text@ =~= latency_text(self@));
            },
            LatencyResult::SessionError(reason) => {
                text.append("Session Error: ");
                text.append(reason.as_str());
                assert(text@ =~= latency_text(self@));
            },
        }
        text
    }
}

impl SpeedResult {
    /// The result in one line: the rate in megabits per second, or the
    /// reason why there is none.
    pub fn describe(&self) -> (text: String)
        ensures
            text@ == speed_text(self@),
    {
        let mut text = String::new();
        match self {
            SpeedResult::Success(rate) => {
                append_rate(&mut text, rate);
                text.append(" Mbps");
                assert(text@ =~= speed_text(self@));
            },
            SpeedResult::Failed(reason) => {
                text.append("Failed: ");
                text.append(reason.as_str());
                assert(text@ =~= speed_text(self@));
            },
        }
        text
    }
}

} // verus!
