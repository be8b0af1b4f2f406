//! Timed transcript segments and their clock-time rendering.

use vstd::prelude::*;
use vstd::string::*;

verus! {

/// Fixed-point scale of confidences and probabilities: a value `v` stands for
/// `v / CONFIDENCE_SCALE`, so `CONFIDENCE_SCALE` is certainty.
pub const CONFIDENCE_SCALE: u32 = 10000;

/// One recognized token and its probability, in units of `1 / CONFIDENCE_SCALE`.
#[derive(Clone, Debug)]
pub struct Token {
    pub text: String,
    pub probability: u32,
}

/// A span of recognized speech, timed in milliseconds; `confidence` is in
/// units of `1 / CONFIDENCE_SCALE`.
#[derive(Clone, Debug)]
pub struct Segment {
    pub id: i32,
    pub start_ms: i64,
    pub end_ms: i64,
    pub text: String,
    pub confidence: u32,
    pub tokens: Vec<Token>,
}

/// The segments recognized in one buffer and the language they were heard in.
#[derive(Clone, Debug)]
pub struct TranscriptionResult {
    pub language: String,
    pub segments: Vec<Segment>,
}

/// The decimal digit `d`.
pub open spec fn digit_char(d: nat) -> char {
    "0123456789"@[d as int]
}

/// The decimal representation of `n`, without leading zeros.
pub open spec fn decimal(n: nat) -> Seq<char>
    decreases n,
{
    if n < 10 {
        seq![digit_char(n)]
    } else {
        decimal(n / 10).push(digit_char(n % 10))
    }
}

/// The decimal representation of `n`, left-padded with zeros to `width`.
pub open spec fn padded(n: nat, width: nat) -> Seq<char> {
    if decimal(n).len() < width {
        Seq::new((width - decimal(n).len()) as nat, |_i: int| digit_char(0)) + decimal(n)
    } else {
        decimal(n)
    }
}

/// `HH:MM:SS` followed by `frac_sep` and three digits of milliseconds; the
/// hours are not wrapped and take as many digits as they need.
pub open spec fn clock_text(ms: nat, frac_sep: Seq<char>) -> Seq<char> {
    let secs = ms / 1000;
    padded(secs / 3600, 2) + ":"@ + padded((secs / 60) % 60, 2) + ":"@ + padded(secs % 60, 2)
        + frac_sep + padded(ms % 1000, 3)
}

fn digit_str(d: u64) -> (r: &'static str)
    requires
        d < 10,
    ensures
        r@ == seq![digit_char(d as nat)],
{
    let digits = "0123456789";
    proof {
        reveal_strlit("0123456789");
    }
    let r = digits.substring_char(d as usize, d as usize + 1);
    assert(r@ =~= seq![digit_char(d as nat)]);
    r
}

fn decimal_len(n: u64) -> (r: u64)
    ensures
        r == decimal(n as nat).len(),
        r <= n + 1,
    decreases n,
{
    if n < 10 {
        1
    } else {
        decimal_len(n / 10) + 1
    }
}

/// Appends the decimal representation of `n`.
pub(crate) fn push_decimal(out: &mut String, n: u64)
    ensures
        final(out)@ == old(out)@ + decimal(n as nat),
    decreases n,
{
    if n >= 10 {
        push_decimal(out, n / 10);
    }
    out.append(digit_str(n % 10));
    assert(final(out)@ =~= old(out)@ + decimal(n as nat));
}

fn push_padded(out: &mut String, n: u64, width: u64)
    ensures
        final(out)@ == old(out)@ + padded(n as nat, width as nat),
{
    let len = decimal_len(n);
    let mut k: u64 = len;
    let ghost start = out@;
    while k < width
        invariant
            len == decimal(n as nat).len(),
            len <= k,
            k <= width || k == len,
            out@ == start + Seq::new((k - len) as nat, |_i: int| digit_char(0)),
        decreases width - k,
    {
        out.append(digit_str(0));
        k = k + 1;
        assert(out@ =~= start + Seq::new((k - len) as nat, |_i: int| digit_char(0)));
    }
    push_decimal(out, n);
    if len < width {
        assert(out@ =~= start + padded(n as nat, width as nat));
    } else {
        assert(out@ =~= start + padded(n as nat, width as nat));
    }
}

/// Appends the clock text of `ms` with `frac_sep` before the milliseconds.
pub(crate) fn push_clock(out: &mut String, ms: i64, frac_sep: &str)
    requires
        ms >= 0,
    ensures
        final(out)@ == old(out)@ + clock_text(ms as nat, frac_sep@),
{
    let secs = (ms / 1000) as u64;
    let ghost start = out@;
    push_padded(out, secs / 3600, 2);
    out.append(":");
    push_padded(out, (secs / 60) % 60, 2);
    out.append(":");
    push_padded(out, secs % 60, 2);
    out.append(frac_sep);
    push_padded(out, (ms % 1000) as u64, 3);
    assert(out@ =~= start + clock_text(ms as nat, frac_sep@));
}

/// Renders a time in milliseconds as `HH:MM:SS.mmm`.
pub fn format_timestamp(ms: i64) -> (r: String)
    requires
        ms >= 0,
    ensures
        r@ == clock_text(ms as nat, "."@),
{
    let mut out = String::new();
    push_clock(&mut out, ms, ".");
    assert(out@ =~= clock_text(ms as nat, "."@));
    out
}

impl Segment {
    /// The start time as `HH:MM:SS.mmm`.
    pub fn start_time_formatted(&self) -> (r: String)
        requires
            self.start_ms >= 0,
        ensures
            r@ == clock_text(self.start_ms as nat, "."@),
    {
        format_timestamp(self.start_ms)
    }

    /// The end time as `HH:MM:SS.mmm`.
    pub fn end_time_formatted(&self) -> (r: String)
        requires
            self.end_ms >= 0,
        ensures
            r@ == clock_text(self.end_ms as nat, "."@),
    {
        format_timestamp(self.end_ms)
    }
}

/// The texts of `segs` joined by single spaces.
pub open spec fn joined_text(segs: Seq<Segment>) -> Seq<char>
    decreases segs.len(),
{
    if segs.len() == 0 {
        Seq::empty()
    } else if segs.len() == 1 {
        segs[0].text@
    } else {
        joined_text(segs.drop_last()) + " "@ + segs.last().text@
    }
}

/// The sum of the confidences of `segs`.
pub open spec fn confidence_sum(segs: Seq<Segment>) -> nat
    decreases segs.len(),
{
    if segs.len() == 0 {
        0
    } else {
        confidence_sum(segs.drop_last()) + segs.last().confidence as nat
    }
}

impl TranscriptionResult {
    /// The whole transcript: the segment texts joined by single spaces.
    pub fn full_text(&self) -> (r: String)
        ensures
            r@ == joined_text(self.segments@),
    {
        let mut out = String::new();
        let mut i: usize = 0;
        while i < self.segments.len()
            invariant
                0 <= i <= self.segments@.len(),
                out@ == joined_text(self.segments@.take(i as int)),
            decreases self.segments@.len() - i,
        {
            let ghost prev = self.segments@.take(i as int);
            assert(self.segments@.take(i as int + 1).drop_last() =~= prev);
            if i > 0 {
                out.append(" ");
            }
            out.append(self.segments[i].text.as_str());
            i = i + 1;
            assert(self.segments@.take(i as int).last() == self.segments@[i - 1]);
        }
        assert(self.segments@.take(i as int) =~= self.segments@);
        out
    }

    /// The mean confidence of the segments, rounded down, in units of
    /// `1 / CONFIDENCE_SCALE`; zero when there are none.
    pub fn average_confidence(&self) -> (r: u128)
        ensures
            self.segments@.len() == 0 ==> r == 0,
            self.segments@.len() > 0 ==> r == confidence_sum(self.segments@) / self.segments@.len(),
    {
        let n = self.segments.len();
        if n == 0 {
            return 0;
        }
        let mut sum: u128 = 0;
        let mut i: usize = 0;
        while i < n
            invariant
                n == self.segments@.len(),
                0 <= i <= n,
                sum == confidence_sum(self.segments@.take(i as int)),
                sum <= i * (u32::MAX as nat),
            decreases n - i,
        {
            assert(self.segments@.take(i as int + 1).drop_last() =~= self.segments@.take(i as int));
            assert(sum + self.segments[i as int].confidence <= (i + 1) * (u32::MAX as nat)) by (nonlinear_arith)
                requires
                    sum <= i * (u32::MAX as nat),
                    self.segments[i as int].confidence <= u32::MAX,
            ;
            assert((i + 1) * (u32::MAX as nat) <= u128::MAX) by (nonlinear_arith)
                requires
                    i < usize::MAX,
            ;
            sum = sum + self.segments[i].confidence as u128;
            i = i + 1;
        }
        assert(self.segments@.take(n as int) =~= self.segments@);
        sum / n as u128
    }
}

} // verus!
