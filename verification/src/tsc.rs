//! Time stamp counter: reading it and turning its ticks into time.
use vstd::prelude::*;

verus! {

/// Number of calibration samples.
pub const CALIBRATION_SAMPLES: usize = 5;

/// Length in milliseconds of one calibration sample.
pub const CALIBRATION_MS: u32 = 100;

/// The 64-bit counter from the high (`top`) and low (`bottom`) halves the
/// processor returns.
pub fn tsc(top: u32, bottom: u32) -> (r: u64)
    ensures
        r == top * 0x1_0000_0000 + bottom,
{
    let r = ((top as u64) << 32) | (bottom as u64);
    assert(((top as u64) << 32) | (bottom as u64) == (top as u64) * 0x1_0000_0000u64 + (bottom as u64))
        by (bit_vector);
    r
}

/// Sum of the tick counts of `samples` (pairs of counter readings at the
/// start and end of a 100 ms wait), each scaled to one second.
pub open spec fn scaled_sum(samples: Seq<(u64, u64)>) -> int
    decreases samples.len(),
{
    if samples.len() == 0 {
        0
    } else {
        scaled_sum(samples.drop_last()) + (samples.last().1 - samples.last().0) * 10
    }
}

/// `true` when every sample's end reading is not below its start reading and
/// adding up the scaled tick counts never overflows.
pub open spec fn samples_fit(samples: Seq<(u64, u64)>) -> bool {
    &&& forall|i: int| 0 <= i < samples.len() ==> (#[trigger] samples[i]).0 <= samples[i].1
    &&& forall|n: int| 0 <= n <= samples.len() ==> #[trigger] scaled_sum(samples.subrange(0, n)) <= u64::MAX
    &&& forall|i: int| 0 <= i < samples.len() ==> (#[trigger] samples[i]).1 - samples[i].0 <= u64::MAX / 10
}

/// The counter frequency in Hz: the average over the samples of the ticks
/// seen in 100 ms, times ten.
pub fn calibrate_tsc(samples: &[(u64, u64)]) -> (hz: u64)
    requires
        samples@.len() > 0,
        samples_fit(samples@),
    ensures
        hz == scaled_sum(samples@) / (samples@.len() as int),
{
    let mut sum: u64 = 0;
    let mut i: usize = 0;
    while i < samples.len()
        invariant
            0 <= i <= samples@.len(),
            samples_fit(samples@),
            sum == scaled_sum(samples@.subrange(0, i as int)),
        decreases samples@.len() - i,
    {
        let (start, end) = samples[i];
        proof {
            assert(samples@[i as int].0 <= samples@[i as int].1);
            assert(samples@.subrange(0, i + 1).drop_last() =~= samples@.subrange(0, i as int));
            assert(scaled_sum(samples@.subrange(0, i + 1)) <= u64::MAX);
            assert((end - start) * 10 <= u64::MAX) by (nonlinear_arith)
                requires
                    end - start <= u64::MAX / 10,
            ;
        }
        sum = sum + (end - start) * 10;
        i = i + 1;
    }
    proof {
        assert(samples@.subrange(0, samples@.len() as int) =~= samples@);
    }
    sum / (samples.len() as u64)
}

/// Milliseconds for a counter reading `ticks` at `hz` ticks per second.
pub fn get_ms(ticks: u64, hz: u64) -> (r: u64)
    requires
        hz > 0,
        ticks * 1000 <= u64::MAX,
    ensures
        r == ticks * 1000 / (hz as int),
{
    ticks * 1000 / hz
}

/// Microseconds for a counter reading `ticks` at `hz` ticks per second.
pub fn get_us(ticks: u64, hz: u64) -> (r: u64)
    requires
        hz > 0,
        ticks * 1_000_000 <= u64::MAX,
    ensures
        r == ticks * 1_000_000 / (hz as int),
{
    ticks * 1_000_000 / hz
}

/// The reading in milliseconds a sleep of `ms` from `now` ends at.
pub fn sleep_target(now: u64, ms: u64) -> (r: u64)
    requires
        now + ms <= u64::MAX,
    ensures
        r == now + ms,
{
    now + ms
}

} // verus!
