//! Reduction of one timed download to a rate.

use vstd::prelude::*;
use vstd::string::*;
use crate::sampler::{session_failure, session_failure_text, SessionStage};
use crate::text::prefixed;

verus! {

/// Nanoseconds in a second.
pub const NANOS_PER_SECOND: u64 = 1_000_000_000;

/// Bits in a megabit.
pub const BITS_PER_MEGABIT: u64 = 1_000_000;

/// The product of two 64-bit values fits in 128 bits.
pub proof fn lemma_product_fits(a: u64, b: u64)
    ensures
        0 <= a * b <= 0xFFFF_FFFF_FFFF_FFFE_0000_0000_0000_0001,
{
    assert(0 <= a * b <= 0xFFFF_FFFF_FFFF_FFFF * 0xFFFF_FFFF_FFFF_FFFF) by (nonlinear_arith)
        requires
            0 <= a <= 0xFFFF_FFFF_FFFF_FFFF,
            0 <= b <= 0xFFFF_FFFF_FFFF_FFFF,
    ;
}

/// A transfer rate, kept exactly as the bytes received and the time they took.
///
/// The rate in megabits per second is `bytes * 8 / 1_000_000` divided by the
/// elapsed seconds. Two rates are compared by cross-multiplication, so no
/// rounding enters an order. A rate over no time at all is not finite: with
/// bytes it is above every finite rate, without bytes it is undefined and
/// compares as equal to every rate.
#[derive(Clone, Copy, Debug, PartialEq, Eq, Structural)]
pub struct Rate {
    /// Bytes received.
    pub bytes: u64,
    /// Time from sending the request to holding the whole body, in nanoseconds.
    pub elapsed_nanos: u64,
}

impl Rate {
    /// The rate is a number, finite or not.
    pub open spec fn defined(self) -> bool {
        self.bytes > 0 || self.elapsed_nanos > 0
    }

    /// The rate is a finite number.
    pub open spec fn finite(self) -> bool {
        self.elapsed_nanos > 0
    }

    /// Bits received.
    pub open spec fn bits(self) -> int {
        self.bytes * 8
    }

    /// `self` is `factor` times `other`.
    pub open spec fn is_multiple_of(self, other: Rate, factor: int) -> bool {
        self.bits() * other.elapsed_nanos == factor * (other.bits() * self.elapsed_nanos)
    }

    /// `self` is a strictly higher rate than `other`.
    pub open spec fn exceeds(self, other: Rate) -> bool {
        self.bits() * other.elapsed_nanos > other.bits() * self.elapsed_nanos
    }

    /// `self` is the same rate as `other`.
    pub open spec fn equals(self, other: Rate) -> bool {
        self.bits() * other.elapsed_nanos == other.bits() * self.elapsed_nanos
    }

    /// The whole bits per second of a finite rate: the megabits per second
    /// times a million, rounded down.
    pub open spec fn whole_bits_per_second(self) -> int
        recommends
            self.finite(),
    {
        self.bits() * NANOS_PER_SECOND / (self.elapsed_nanos as int)
    }

    /// Whether `self` is a strictly higher rate than `other`.
    pub fn faster_than(&self, other: &Rate) -> (faster: bool)
        ensures
            faster == self.exceeds(*other),
    {
        proof {
            lemma_product_fits(self.bytes, other.elapsed_nanos);
            lemma_product_fits(other.bytes, self.elapsed_nanos);
        }
        let left: u128 = (self.bytes as u128) * (other.elapsed_nanos as u128);
        let right: u128 = (other.bytes as u128) * (self.elapsed_nanos as u128);
        proof {
            assert(self.bytes * 8 * other.elapsed_nanos == 8 * (self.bytes * other.elapsed_nanos))
                by (nonlinear_arith);
            assert(other.bytes * 8 * self.elapsed_nanos == 8 * (other.bytes * self.elapsed_nanos))
                by (nonlinear_arith);
        }
        left > right
    }

    /// The rate in whole bits per second, where it is finite and fits.
    pub fn bits_per_second(&self) -> (rate: Option<u64>)
        ensures
            rate is Some <==> self.finite() && self.whole_bits_per_second() <= u64::MAX,
            rate is Some ==> rate->Some_0 == self.whole_bits_per_second(),
    {
        if self.elapsed_nanos == 0 {
            return None;
        }
        let bits: u128 = (self.bytes as u128) * 8;
        assert(bits * NANOS_PER_SECOND == self.bits() * NANOS_PER_SECOND <= 0x8_0000_0000_0000_0000
            * 1_000_000_000) by (nonlinear_arith)
            requires
                bits == self.bits(),
                0 <= bits <= 0x8_0000_0000_0000_0000,
                NANOS_PER_SECOND == 1_000_000_000,
        ;
        let scaled: u128 = bits * (NANOS_PER_SECOND as u128);
        let whole: u128 = scaled / (self.elapsed_nanos as u128);
        if whole > u64::MAX as u128 {
            None
        } else {
            Some(whole as u64)
        }
    }
}

/// At a fixed elapsed time the rate grows with the bytes received: more bytes
/// never give a lower rate, and over a positive time they give a higher one.
pub proof fn lemma_rate_grows_with_bytes(fewer: Rate, more: Rate)
    requires
        fewer.elapsed_nanos == more.elapsed_nanos,
        fewer.bytes <= more.bytes,
    ensures
        !fewer.exceeds(more),
        fewer.bytes < more.bytes && more.finite() ==> more.exceeds(fewer),
        more.finite() ==> fewer.whole_bits_per_second() <= more.whole_bits_per_second(),
{
    let t = more.elapsed_nanos as int;
    assert(fewer.bits() * t <= more.bits() * t) by (nonlinear_arith)
        requires
            fewer.bits() <= more.bits(),
            0 <= t,
    ;
    if t > 0 {
        if fewer.bytes < more.bytes {
            assert(fewer.bits() * t < more.bits() * t) by (nonlinear_arith)
                requires
                    fewer.bits() < more.bits(),
                    0 < t,
            ;
        }
        let x = fewer.bits() * NANOS_PER_SECOND;
        let y = more.bits() * NANOS_PER_SECOND;
        assert(x <= y) by (nonlinear_arith)
            requires
                x == fewer.bits() * NANOS_PER_SECOND,
                y == more.bits() * NANOS_PER_SECOND,
                fewer.bits() <= more.bits(),
        ;
        vstd::arithmetic::div_mod::lemma_div_is_ordered(x, y, t);
    }
}

/// For the same bytes received the rate falls as the elapsed time grows: a
/// longer time never gives a higher rate, and with bytes received it gives a
/// lower one.
pub proof fn lemma_rate_falls_with_time(quicker: Rate, slower: Rate)
    requires
        quicker.bytes == slower.bytes,
        quicker.elapsed_nanos <= slower.elapsed_nanos,
    ensures
        !slower.exceeds(quicker),
        quicker.elapsed_nanos < slower.elapsed_nanos && quicker.bytes > 0 ==> quicker.exceeds(
            slower,
        ),
        quicker.finite() ==> slower.whole_bits_per_second() <= quicker.whole_bits_per_second(),
{
    let b = quicker.bits();
    let t1 = quicker.elapsed_nanos as int;
    let t2 = slower.elapsed_nanos as int;
    assert(b * t1 <= b * t2) by (nonlinear_arith)
        requires
            0 <= b,
            t1 <= t2,
    ;
    if t1 < t2 && quicker.bytes > 0 {
        assert(b * t1 < b * t2) by (nonlinear_arith)
            requires
                0 < b,
                t1 < t2,
        ;
    }
    if t1 > 0 {
        let x = b * NANOS_PER_SECOND;
        assert(0 <= x) by (nonlinear_arith)
            requires
                x == b * NANOS_PER_SECOND,
                0 <= b,
        ;
        vstd::arithmetic::div_mod::lemma_div_is_ordered_by_denominator(x, t1, t2);
    }
}

/// Twice the bytes in the same time is twice the rate.
pub proof fn lemma_double_bytes_double_rate(single: Rate, double: Rate)
    requires
        single.elapsed_nanos == double.elapsed_nanos,
        double.bytes == 2 * single.bytes,
    ensures
        double.is_multiple_of(single, 2),
        double.finite() && single.bits() * NANOS_PER_SECOND % (single.elapsed_nanos as int) == 0
            ==> double.whole_bits_per_second() == 2 * single.whole_bits_per_second(),
{
    let t = single.elapsed_nanos as int;
    assert(double.bits() * t == 2 * (single.bits() * t)) by (nonlinear_arith)
        requires
            double.bits() == 2 * single.bits(),
    ;
    if t > 0 && single.bits() * NANOS_PER_SECOND % t == 0 {
        let x = single.bits() * NANOS_PER_SECOND;
        let q = x / t;
        vstd::arithmetic::div_mod::lemma_fundamental_div_mod(x, t);
        assert(double.bits() * NANOS_PER_SECOND == 2 * x) by (nonlinear_arith)
            requires
                double.bits() == 2 * single.bits(),
                x == single.bits() * NANOS_PER_SECOND,
        ;
        assert(2 * x == (2 * q) * t) by (nonlinear_arith)
            requires
                x == t * q,
        ;
        vstd::arithmetic::div_mod::lemma_div_multiples_vanish(2 * q, t);
    }
}

/// Among defined rates, "does not exceed" carries over a middle rate.
pub proof fn lemma_rate_order_transitive(a: Rate, b: Rate, c: Rate)
    requires
        b.defined(),
        !a.exceeds(b),
        !b.exceeds(c),
    ensures
        !a.exceeds(c),
{
    let (ab, an) = (a.bits(), a.elapsed_nanos as int);
    let (bb, bn) = (b.bits(), b.elapsed_nanos as int);
    let (cb, cn) = (c.bits(), c.elapsed_nanos as int);
    if bn > 0 {
        assert(ab * cn <= cb * an) by (nonlinear_arith)
            requires
                ab * bn <= bb * an,
                bb * cn <= cb * bn,
                bn > 0,
                0 <= ab,
                0 <= an,
                0 <= bb,
                0 <= cb,
                0 <= cn,
        ;
    } else {
        assert(bb > 0);
        assert(cn == 0) by (nonlinear_arith)
            requires
                bb * cn <= cb * bn,
                bn == 0,
                bb > 0,
                0 <= cn,
        ;
        assert(ab * cn == 0) by (nonlinear_arith)
            requires
                cn == 0,
        ;
        assert(0 <= cb * an) by (nonlinear_arith)
            requires
                0 <= cb,
                0 <= an,
        ;
    }
}

/// What the one download of a throughput probe came to.
#[derive(Clone, Debug, PartialEq, Eq)]
pub enum TransferOutcome {
    /// The whole body arrived: its length in bytes, and the time from just
    /// before the request was sent until the body was held in full.
    Completed { bytes: u64, elapsed_nanos: u64 },
    /// The deadline passed first.
    Timeout,
    /// A response arrived with a status outside the success range; the text
    /// is that status as the transport shows it.
    Status(String),
    /// The request could not be sent or answered; the text is the transport's.
    Transport(String),
    /// The response began and its body could not be read to the end.
    BodyRead(String),
    /// The session could not be set up; the text is the transport's.
    Session { stage: SessionStage, detail: String },
}

/// The throughput of one node: a rate, or the reason why there is none.
#[derive(Clone, Debug, PartialEq, Eq)]
pub enum SpeedResult {
    Success(Rate),
    Failed(String),
}

/// A `SpeedResult` with its text as a sequence of characters.
pub enum SpeedView {
    Success(Rate),
    Failed(Seq<char>),
}

impl View for SpeedResult {
    type V = SpeedView;

    open spec fn view(&self) -> SpeedView {
        match *self {
            SpeedResult::Success(rate) => SpeedView::Success(rate),
            SpeedResult::Failed(reason) => SpeedView::Failed(reason@),
        }
    }
}

/// The result that a transfer outcome reduces to.
pub open spec fn speed_of(outcome: TransferOutcome) -> SpeedView {
    match outcome {
        TransferOutcome::Completed { bytes, elapsed_nanos } => SpeedView::Success(
            Rate { bytes, elapsed_nanos },
        ),
        TransferOutcome::Timeout => SpeedView::Failed("Timeout"@),
        TransferOutcome::Status(status) => SpeedView::Failed("HTTP Error: "@ + status@),
        TransferOutcome::Transport(detail) => SpeedView::Failed("Request error: "@ + detail@),
        TransferOutcome::BodyRead(detail) => SpeedView::Failed(
            "Failed to read response: "@ + detail@,
        ),
        TransferOutcome::Session { stage, detail } => SpeedView::Failed(
            session_failure_text(stage, detail@),
        ),
    }
}

/// Reduces the outcome of a node's download to its throughput result.
///
/// A body received in full gives the rate of its bytes over the elapsed
/// time; every other outcome gives a failure with a short reason. Nothing is
/// retried.
pub fn reduce_throughput(outcome: &TransferOutcome) -> (result: SpeedResult)
    ensures
        result@ == speed_of(*outcome),
{
    match outcome {
        TransferOutcome::Completed { bytes, elapsed_nanos } => SpeedResult::Success(
            Rate { bytes: *bytes, elapsed_nanos: *elapsed_nanos },
        ),
        TransferOutcome::Timeout => SpeedResult::Failed(String::from_str("Timeout")),
        TransferOutcome::Status(status) => SpeedResult::Failed(
            prefixed("HTTP Error: ", status.as_str()),
        ),
        TransferOutcome::Transport(detail) => SpeedResult::Failed(
            prefixed("Request error: ", detail.as_str()),
        ),
        TransferOutcome::BodyRead(detail) => SpeedResult::Failed(
            prefixed("Failed to read response: ", detail.as_str()),
        ),
        TransferOutcome::Session { stage, detail } => SpeedResult::Failed(
            session_failure(*stage, detail.as_str()),
        ),
    }
}

} // verus!
