//! Conversions between video frame numbers and nanosecond timestamps at a
//! rational frame rate, and the single backward step of the scheduler.

use vstd::prelude::*;
use vstd::arithmetic::div_mod::lemma_div_is_ordered;

verus! {

/// Nanoseconds in one second.
pub const NANOS_PER_SECOND: u64 = 1_000_000_000;

/// Largest numerator or denominator of a frame rate.
pub const MAX_FPS: u64 = 2_147_483_647;

/// `val * num / denom`, rounded to the nearest integer with halves rounded up,
/// and held at `u64::MAX` where the quotient does not fit in 64 bits.
pub open spec fn scale_round_spec(val: int, num: int, denom: int) -> int {
    let quotient = (val * num + denom / 2) / denom;
    if quotient > u64::MAX {
        u64::MAX as int
    } else {
        quotient
    }
}

/// The timestamp, in nanoseconds, at which frame `frame_no` starts when
/// `fps_n / fps_d` frames are shown per second.
pub open spec fn frames_to_time_spec(frame_no: int, fps_n: int, fps_d: int) -> int {
    scale_round_spec(frame_no * NANOS_PER_SECOND, fps_d, fps_n)
}

/// The number of whole frames that have elapsed at `time` nanoseconds.
pub open spec fn time_to_frames_spec(time: int, fps_n: int, fps_d: int) -> int {
    scale_round_spec(time, fps_n, fps_d) / (NANOS_PER_SECOND as int)
}

/// Whether `fps_n / fps_d` is a frame rate that the encoder accepts.
pub open spec fn valid_fps(fps_n: int, fps_d: int) -> bool {
    1 <= fps_n <= MAX_FPS && 1 <= fps_d <= MAX_FPS
}

proof fn lemma_product_bound(a: int, b: int, amax: int, bmax: int)
    by (nonlinear_arith)
    requires
        0 <= a <= amax,
        0 <= b <= bmax,
    ensures
        0 <= a * b <= amax * bmax,
{
}

proof fn lemma_product_monotonic(a: int, b: int, c: int)
    by (nonlinear_arith)
    requires
        a <= b,
        0 <= c,
    ensures
        a * c <= b * c,
{
}

/// Rounded scaling is monotonic in the scaled value.
pub proof fn lemma_scale_round_monotonic(val1: int, val2: int, num: int, denom: int)
    requires
        val1 <= val2,
        0 <= num,
        0 < denom,
    ensures
        scale_round_spec(val1, num, denom) <= scale_round_spec(val2, num, denom),
{
    lemma_product_monotonic(val1, val2, num);
    lemma_div_is_ordered(val1 * num + denom / 2, val2 * num + denom / 2, denom);
}

/// Rounded scaling of a non-negative value is a `u64`.
pub proof fn lemma_scale_round_range(val: int, num: int, denom: int)
    requires
        0 <= val,
        0 <= num,
        0 < denom,
    ensures
        0 <= scale_round_spec(val, num, denom) <= u64::MAX,
{
    lemma_product_bound(val, num, val, num);
    lemma_div_is_ordered(0, val * num + denom / 2, denom);
}

/// Scales a 128-bit value by `num / denom` with rounding.
fn scale_round_wide(val: u128, num: u64, denom: u64) -> (scaled: u64)
    requires
        denom != 0,
        val * num + denom / 2 <= u128::MAX,
    ensures
        scaled == scale_round_spec(val as int, num as int, denom as int),
{
    proof {
        lemma_product_bound(val as int, num as int, val as int, num as int);
    }
    let wide: u128 = val * (num as u128) + ((denom / 2) as u128);
    let quotient: u128 = wide / (denom as u128);
    if quotient > u64::MAX as u128 {
        u64::MAX
    } else {
        quotient as u64
    }
}

/// Scales `val` by the rational `num / denom` without intermediate overflow,
/// rounding to the nearest integer (halves up); a result that does not fit is
/// `u64::MAX`.
pub fn scale_round(val: u64, num: u64, denom: u64) -> (scaled: u64)
    requires
        denom != 0,
    ensures
        scaled == scale_round_spec(val as int, num as int, denom as int),
{
    proof {
        lemma_product_bound(val as int, num as int, u64::MAX as int, u64::MAX as int);
        assert(0xffff_ffff_ffff_ffffint * 0xffff_ffff_ffff_ffffint + 0xffff_ffff_ffff_ffffint / 2
            <= u128::MAX);
    }
    scale_round_wide(val as u128, num, denom)
}

/// The start of frame `frame_no`, in nanoseconds, at `fps_n / fps_d` frames
/// per second.
pub fn frames_to_time(frame_no: u64, fps_n: u64, fps_d: u64) -> (time: u64)
    requires
        valid_fps(fps_n as int, fps_d as int),
    ensures
        time == frames_to_time_spec(frame_no as int, fps_n as int, fps_d as int),
{
    proof {
        lemma_product_bound(
            frame_no as int,
            NANOS_PER_SECOND as int,
            u64::MAX as int,
            NANOS_PER_SECOND as int,
        );
        lemma_product_bound(
            frame_no * NANOS_PER_SECOND,
            fps_d as int,
            u64::MAX * NANOS_PER_SECOND,
            MAX_FPS as int,
        );
        assert(0xffff_ffff_ffff_ffffint * 1_000_000_000int * 2_147_483_647int + 2_147_483_647int
            / 2 <= u128::MAX);
    }
    let nanos: u128 = (frame_no as u128) * (NANOS_PER_SECOND as u128);
    scale_round_wide(nanos, fps_d, fps_n)
}

/// The number of whole frames elapsed at `time` nanoseconds, at
/// `fps_n / fps_d` frames per second.
pub fn time_to_frames(time: u64, fps_n: u64, fps_d: u64) -> (frame_no: u64)
    requires
        valid_fps(fps_n as int, fps_d as int),
    ensures
        frame_no == time_to_frames_spec(time as int, fps_n as int, fps_d as int),
{
    scale_round(time, fps_n, fps_d) / NANOS_PER_SECOND
}

/// A later frame never starts before an earlier one.
pub proof fn lemma_frames_to_time_monotonic(frame1: int, frame2: int, fps_n: int, fps_d: int)
    requires
        frame1 <= frame2,
        valid_fps(fps_n, fps_d),
    ensures
        frames_to_time_spec(frame1, fps_n, fps_d) <= frames_to_time_spec(frame2, fps_n, fps_d),
{
    lemma_scale_round_monotonic(
        frame1 * NANOS_PER_SECOND,
        frame2 * NANOS_PER_SECOND,
        fps_d,
        fps_n,
    );
}

/// The start of a frame is a timestamp of 64 bits.
pub proof fn lemma_frames_to_time_range(frame_no: int, fps_n: int, fps_d: int)
    requires
        0 <= frame_no,
        valid_fps(fps_n, fps_d),
    ensures
        0 <= frames_to_time_spec(frame_no, fps_n, fps_d) <= u64::MAX,
{
    lemma_scale_round_range(frame_no * NANOS_PER_SECOND, fps_d, fps_n);
}

/// A later time never lies in an earlier frame.
pub proof fn lemma_time_to_frames_monotonic(time1: int, time2: int, fps_n: int, fps_d: int)
    requires
        time1 <= time2,
        valid_fps(fps_n, fps_d),
    ensures
        time_to_frames_spec(time1, fps_n, fps_d) <= time_to_frames_spec(time2, fps_n, fps_d),
{
    lemma_scale_round_monotonic(time1, time2, fps_n, fps_d);
    lemma_div_is_ordered(
        scale_round_spec(time1, fps_n, fps_d),
        scale_round_spec(time2, fps_n, fps_d),
        NANOS_PER_SECOND as int,
    );
}

/// The frame of a timestamp of 64 bits leaves room for a few frames more.
pub proof fn lemma_time_to_frames_range(time: int, fps_n: int, fps_d: int)
    requires
        0 <= time,
        valid_fps(fps_n, fps_d),
    ensures
        0 <= time_to_frames_spec(time, fps_n, fps_d) <= u64::MAX / NANOS_PER_SECOND,
{
    lemma_scale_round_range(time, fps_n, fps_d);
}

/// The frame that one backward step reaches from `frame_no`: the frame before
/// it, unless `frame_no` already stands at or below the floor `min_frame_no`.
pub open spec fn decrement_frame(min_frame_no: int, frame_no: int) -> int {
    if frame_no > min_frame_no {
        frame_no - 1
    } else {
        frame_no
    }
}

/// Takes one step backward from `frame_no`, not below `min_frame_no`, and
/// returns the timestamp of the frame reached and the time from there to the
/// frame left. A duration of zero says that the floor has been reached and the
/// frame shares its timestamp with the one scheduled before it.
pub fn decrement_pts(min_frame_no: u64, frame_no: &mut u64, fps_n: u64, fps_d: u64) -> (stamp: (
    u64,
    u64,
))
    requires
        valid_fps(fps_n as int, fps_d as int),
    ensures
        *final(frame_no) == decrement_frame(min_frame_no as int, *old(frame_no) as int),
        stamp.0 == frames_to_time_spec(*final(frame_no) as int, fps_n as int, fps_d as int),
        stamp.1 == frames_to_time_spec(*old(frame_no) as int, fps_n as int, fps_d as int)
            - frames_to_time_spec(*final(frame_no) as int, fps_n as int, fps_d as int),
{
    let old_pts: u64 = frames_to_time(*frame_no, fps_n, fps_d);

    if *frame_no > min_frame_no {
        *frame_no -= 1;
    }

    let new_pts: u64 = frames_to_time(*frame_no, fps_n, fps_d);
    proof {
        lemma_frames_to_time_monotonic(
            *frame_no as int,
            *old(frame_no) as int,
            fps_n as int,
            fps_d as int,
        );
    }
    let duration: u64 = old_pts - new_pts;

    (new_pts, duration)
}

/// A frame rate: `numer / denom` frames per second.
#[derive(Clone, Copy, Debug, PartialEq, Eq)]
pub struct FrameRate {
    pub numer: i32,
    pub denom: i32,
}

/// Numerator of the frame rate of a stream that does not ask for another.
pub const DEFAULT_FPS_N: i32 = 30;

/// Denominator of the frame rate of a stream that does not ask for another.
pub const DEFAULT_FPS_D: i32 = 1;

impl FrameRate {
    /// A frame rate is well formed when it is positive.
    pub open spec fn wf(&self) -> bool {
        valid_fps(self.numer as int, self.denom as int)
    }

    /// The start of frame `frame_no` at this rate, in nanoseconds.
    pub open spec fn frames_to_time(&self, frame_no: int) -> int {
        frames_to_time_spec(frame_no, self.numer as int, self.denom as int)
    }

    /// The number of whole frames elapsed at `time` nanoseconds at this rate.
    pub open spec fn time_to_frames(&self, time: int) -> int {
        time_to_frames_spec(time, self.numer as int, self.denom as int)
    }

    /// The rate `numer / denom`, where that is a positive rational.
    pub fn new(numer: i32, denom: i32) -> (rate: Option<FrameRate>)
        ensures
            rate == if numer >= 1 && denom >= 1 {
                Some(FrameRate { numer, denom })
            } else {
                None
            },
            rate matches Some(r) ==> r.wf(),
    {
        if numer >= 1 && denom >= 1 {
            Some(FrameRate { numer, denom })
        } else {
            None
        }
    }

    /// The numerator, widened.
    pub fn fps_n(&self) -> (fps_n: u64)
        requires
            self.wf(),
        ensures
            fps_n == self.numer,
    {
        self.numer as u64
    }

    /// The denominator, widened.
    pub fn fps_d(&self) -> (fps_d: u64)
        requires
            self.wf(),
        ensures
            fps_d == self.denom,
    {
        self.denom as u64
    }
}

impl Default for FrameRate {
    fn default() -> (rate: FrameRate)
        ensures
            rate == (FrameRate { numer: DEFAULT_FPS_N, denom: DEFAULT_FPS_D }),
            rate.wf(),
    {
        FrameRate { numer: DEFAULT_FPS_N, denom: DEFAULT_FPS_D }
    }
}

} // verus!
