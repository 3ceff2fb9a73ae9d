//! Programmable interval timer: the millisecond clock it drives and the
//! waits built on it.
use vstd::prelude::*;
use vstd::arithmetic::div_mod::lemma_add_mod_noop;

verus! {

/// Input frequency of the timer chip, in Hz.
pub const PIT_FREQUENCY: u32 = 1193182;

/// Reload value that makes the timer fire once per millisecond.
pub fn pit_divisor() -> (r: u16)
    ensures
        r == PIT_FREQUENCY / 1000,
{
    (PIT_FREQUENCY / 1000) as u16
}

/// The two bytes sent to the timer's data port for reload value `count`,
/// low byte first.
pub fn pit_count_bytes(count: u16) -> (r: (u8, u8))
    ensures
        r.0 == count % 256,
        r.1 == count / 256,
{
    let lo = (count & 0xFF) as u8;
    let hi = ((count & 0xFF00) >> 8) as u8;
    assert(count & 0xFF == count % 256) by (bit_vector);
    assert((count & 0xFF00) >> 8 == count / 256) by (bit_vector);
    (lo, hi)
}

/// The reload value read back from the timer's low and high bytes.
pub fn pit_count_from_bytes(lo: u8, hi: u8) -> (r: u16)
    ensures
        r == lo + 256 * hi,
{
    let count = (lo as u16) | ((((hi as u32) << 8) as u16));
    assert((lo as u16) | ((((hi as u32) << 8) as u16)) == lo + 256 * hi) by (bit_vector);
    count
}

/// The port writes that remap the two interrupt controllers so that their
/// interrupts arrive on vectors 0x20..0x30, as (port, value): start the
/// initialisation of both, give their vector offsets, wire them together,
/// set 8086 mode, and restore the masks `mask1` and `mask2` read before.
pub fn remap_pic(mask1: u8, mask2: u8) -> (r: Vec<(u16, u8)>)
    ensures
        r@ == seq![
            (0x20u16, 0x11u8),
            (0xA0u16, 0x11u8),
            (0x21u16, 0x20u8),
            (0xA1u16, 0x28u8),
            (0x21u16, 0x04u8),
            (0xA1u16, 0x02u8),
            (0x21u16, 0x01u8),
            (0xA1u16, 0x01u8),
            (0x21u16, mask1),
            (0xA1u16, mask2),
        ],
{
    let mut w: Vec<(u16, u8)> = Vec::new();
    w.push((0x20, 0x11));
    w.push((0xA0, 0x11));
    w.push((0x21, 0x20));
    w.push((0xA1, 0x28));
    w.push((0x21, 0x04));
    w.push((0xA1, 0x02));
    w.push((0x21, 0x01));
    w.push((0xA1, 0x01));
    w.push((0x21, mask1));
    w.push((0xA1, mask2));
    proof {
        assert(w@ =~= seq![
            (0x20u16, 0x11u8),
            (0xA0u16, 0x11u8),
            (0x21u16, 0x20u8),
            (0xA1u16, 0x28u8),
            (0x21u16, 0x04u8),
            (0xA1u16, 0x02u8),
            (0x21u16, 0x01u8),
            (0xA1u16, 0x01u8),
            (0x21u16, mask1),
            (0xA1u16, mask2),
        ]);
    }
    w
}

/// The interrupt mask of the first controller with the timer line (line 0) unmasked.
pub fn unmask_timer(mask: u8) -> (r: u8)
    ensures
        r == mask & 0xFE,
{
    mask & 0xFE
}

/// One timer interrupt on a clock reading `ms` with `countdown` milliseconds
/// left to sleep: one more millisecond (wrapping around at 2^32), one less to
/// sleep (stopping at zero).
pub open spec fn tick_step(ms: u32, countdown: u32) -> (u32, u32) {
    (((ms + 1) % 0x1_0000_0000) as u32, if countdown == 0 { 0 } else { (countdown - 1) as u32 })
}

/// The clock reading and countdown after `k` timer interrupts.
pub open spec fn ticks(ms: u32, countdown: u32, k: nat) -> (u32, u32)
    decreases k,
{
    if k == 0 {
        (ms, countdown)
    } else {
        let prev = ticks(ms, countdown, (k - 1) as nat);
        tick_step(prev.0, prev.1)
    }
}

/// `k` timer interrupts advance the clock by `k` milliseconds (wrapping
/// around at 2^32) and count a sleep down by `k`, stopping at zero.
pub proof fn law_ticks(ms: u32, countdown: u32, k: nat)
    ensures
        ticks(ms, countdown, k).0 == (ms + k) % 0x1_0000_0000,
        ticks(ms, countdown, k).1 == if countdown >= k { countdown - k } else { 0 },
    decreases k,
{
    if k > 0 {
        law_ticks(ms, countdown, (k - 1) as nat);
        lemma_add_mod_noop(ms + k - 1, 1, 0x1_0000_0000);
    }
}

/// The clock the timer interrupt drives: milliseconds since start (wrapping
/// around at 2^32) and the countdown a sleep waits on.
pub struct PitClock {
    ms_tick: u32,
    count_down: u32,
}

impl PitClock {
    /// Milliseconds counted so far.
    pub closed spec fn ms(&self) -> u32 {
        self.ms_tick
    }

    /// Milliseconds left to sleep.
    pub closed spec fn countdown(&self) -> u32 {
        self.count_down
    }

    /// A clock at zero with nothing to wait for.
    pub fn new() -> (r: Self)
        ensures
            r.ms() == 0,
            r.countdown() == 0,
    {
        Self { ms_tick: 0, count_down: 0 }
    }

    /// Milliseconds counted so far.
    pub fn get_ms(&self) -> (r: u32)
        ensures
            r == self.ms(),
    {
        self.ms_tick
    }

    /// What the timer interrupt does each millisecond: one more millisecond
    /// (wrapping around), one less to sleep (stopping at zero).
    pub fn tick(&mut self)
        ensures
            final(self).ms() == (old(self).ms() + 1) % 0x1_0000_0000,
            final(self).countdown() == if old(self).countdown() == 0 { 0 } else { (old(self).countdown() - 1) as u32 },
            (final(self).ms(), final(self).countdown()) == tick_step(old(self).ms(), old(self).countdown()),
    {
        self.ms_tick = self.ms_tick.wrapping_add(1);
        self.count_down = self.count_down.saturating_sub(1);
    }

    /// Starts a sleep of `ms` milliseconds.
    pub fn start_sleep(&mut self, ms: u32)
        ensures
            final(self).ms() == old(self).ms(),
            final(self).countdown() == ms,
    {
        self.count_down = ms;
    }

    /// Whether the sleep still has time left.
    pub fn sleeping(&self) -> (r: bool)
        ensures
            r == (self.countdown() > 0),
    {
        self.count_down > 0
    }
}

/// The millisecond count a wait of `ms` from `start` ends at (wrapping around).
pub fn wait_end(start: u32, ms: u32) -> (r: u32)
    ensures
        r == (start + ms) % 0x1_0000_0000,
{
    start.wrapping_add(ms)
}

/// Whether a wait that began at `start` and ends at `end` goes on when the
/// clock reads `now`. When the end did not wrap around, the wait goes on
/// while `now` is below it; when it did, while `now` has not yet wrapped
/// (is at or above `start`) or is below the end.
pub fn waiting(start: u32, end: u32, now: u32) -> (r: bool)
    ensures
        r == if end >= start { now < end } else { now >= start || now < end },
{
    if end >= start {
        now < end
    } else {
        now >= start || now < end
    }
}

/// A wait of `ms` from `start` goes on exactly while fewer than `ms`
/// milliseconds have gone by, as long as the clock, when the end did not wrap
/// around, has not wrapped around itself either.
pub proof fn law_wait_elapsed(start: u32, ms: u32, elapsed: u32)
    requires
        start + ms >= 0x1_0000_0000 || start + elapsed < 0x1_0000_0000,
    ensures
        ({
            let end = ((start + ms) % 0x1_0000_0000) as u32;
            let now = ((start + elapsed) % 0x1_0000_0000) as u32;
            (if end >= start { now < end } else { now >= start || now < end }) <==> elapsed < ms
        }),
{
}

} // verus!
