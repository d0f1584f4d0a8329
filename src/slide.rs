use vstd::prelude::*;

verus! {

/// A slide's time is kept in millionths: this value stands for a full
/// displacement.
pub const TIME_SCALE: u32 = 1000000;

/// Each frame keeps four fifths of the remaining displacement.
pub const DECAY_NUMERATOR: u32 = 4;

pub const DECAY_DENOMINATOR: u32 = 5;

/// Once the time is at most this (a thousandth of a full displacement), the
/// slide settles and asks for no more frames.
pub const SETTLE_THRESHOLD: u32 = 1000;

/// The time after one frame: decayed while above the threshold, else settled
/// at zero.
pub open spec fn tick(time: int) -> int {
    if time > SETTLE_THRESHOLD {
        time * DECAY_NUMERATOR / DECAY_DENOMINATOR as int
    } else {
        0
    }
}

/// The time after `frames` frames.
pub open spec fn ticks(time: int, frames: nat) -> int
    decreases frames,
{
    if frames == 0 {
        time
    } else {
        ticks(tick(time), (frames - 1) as nat)
    }
}

/// The animated gap between items while a drag hovers over the list: it
/// moves from slot `from` to slot `to`, and `time` is the share of the gap
/// still at `from`, in millionths.
#[derive(Clone, Copy, Debug, PartialEq, Eq, Structural)]
pub struct Slide {
    pub to: usize,
    pub from: usize,
    pub time: u32,
}

impl Slide {
    pub open spec fn wf(&self) -> bool {
        self.time <= TIME_SCALE
    }

    /// The share of the dragged item's extent that slot `index` is pushed
    /// by, for a dragged extent of `size`.
    pub open spec fn offset_spec(&self, index: int, size: int) -> int {
        if index == self.to {
            size * (TIME_SCALE - self.time) / TIME_SCALE as int
        } else if index == self.from {
            size * self.time / TIME_SCALE as int
        } else {
            0
        }
    }

    /// A slide that rests at `index`, where the drag started.
    pub fn new(index: usize) -> (r: Self)
        ensures
            r == (Slide { to: index, from: index, time: 0 }),
            r.wf(),
    {
        Slide { to: index, from: index, time: 0 }
    }

    /// Retargets the gap to `to`: it now moves from the previous target,
    /// with the whole displacement still ahead.
    pub fn slide(&mut self, to: usize)
        ensures
            *final(self) == (Slide { to, from: old(self).to, time: TIME_SCALE }),
            final(self).wf(),
    {
        self.from = self.to;
        self.to = to;
        self.time = TIME_SCALE;
    }

    /// How far slot `index` is pushed along the axis, for a dragged item of
    /// extent `size`.
    pub fn get_offset(&self, index: usize, size: u32) -> (r: u32)
        requires
            self.wf(),
        ensures
            r == self.offset_spec(index as int, size as int),
            r <= size,
    {
        let share: u32 = if index == self.to {
            TIME_SCALE - self.time
        } else if index == self.from {
            self.time
        } else {
            0
        };
        if index == self.to || index == self.from {
            assert(0 <= size as int * share as int <= size as int * TIME_SCALE as int)
                by (nonlinear_arith)
                requires
                    share <= TIME_SCALE,
            ;
            assert(size as int * share as int / TIME_SCALE as int <= size as int)
                by (nonlinear_arith)
                requires
                    size as int * share as int <= size as int * TIME_SCALE as int,
            ;
            let product: u64 = size as u64 * share as u64;
            (product / TIME_SCALE as u64) as u32
        } else {
            0
        }
    }

    /// Advances the animation by one frame. Returns whether another frame
    /// is wanted: true while the slide has not settled.
    pub fn update(&mut self) -> (r: bool)
        requires
            old(self).wf(),
        ensures
            final(self).to == old(self).to,
            final(self).from == old(self).from,
            final(self).time == tick(old(self).time as int),
            r == (old(self).time > SETTLE_THRESHOLD),
            final(self).wf(),
    {
        if self.time > SETTLE_THRESHOLD {
            self.time = self.time * DECAY_NUMERATOR / DECAY_DENOMINATOR;
            true
        } else {
            self.time = 0;
            false
        }
    }
}

proof fn lemma_tick_bound(time: int)
    requires
        time >= 0,
    ensures
        0 <= tick(time),
        tick(time) * 5 <= time * 4,
{
    if time > SETTLE_THRESHOLD {
        assert(time * 4 / 5 * 5 <= time * 4) by (nonlinear_arith)
            requires
                time >= 0,
        ;
    }
}

proof fn lemma_four_ticks_halve(time: int)
    requires
        time >= 0,
    ensures
        0 <= ticks(time, 4),
        2 * ticks(time, 4) <= time,
{
    let t1 = tick(time);
    lemma_tick_bound(time);
    let t2 = tick(t1);
    lemma_tick_bound(t1);
    let t3 = tick(t2);
    lemma_tick_bound(t2);
    let t4 = tick(t3);
    lemma_tick_bound(t3);
    assert(ticks(time, 4) == t4) by {
        assert(ticks(t4, 0) == t4);
        assert(ticks(t3, 1) == t4);
        assert(ticks(t2, 2) == ticks(t3, 1));
        assert(ticks(t1, 3) == ticks(t2, 2));
    }
    assert(t4 * 625 <= time * 256) by (nonlinear_arith)
        requires
            t4 * 5 <= t3 * 4,
            t3 * 5 <= t2 * 4,
            t2 * 5 <= t1 * 4,
            t1 * 5 <= time * 4,
            t1 >= 0,
            t2 >= 0,
            t3 >= 0,
            t4 >= 0,
    ;
}

proof fn lemma_ticks_split(time: int, a: nat, b: nat)
    ensures
        ticks(time, a + b) == ticks(ticks(time, a), b),
    decreases a,
{
    if a > 0 {
        lemma_ticks_split(tick(time), (a - 1) as nat, b);
        assert((a + b - 1) as nat == (a - 1) as nat + b);
    }
}

proof fn lemma_ticks_halve_repeatedly(time: int, k: nat)
    requires
        time >= 0,
    ensures
        0 <= ticks(time, 4 * k),
        ticks(time, 4 * k) * vstd::arithmetic::power2::pow2(k) <= time,
    decreases k,
{
    if k == 0 {
        vstd::arithmetic::power2::lemma2_to64();
    } else {
        vstd::arithmetic::power2::lemma_pow2_unfold(k);
        let k1 = (k - 1) as nat;
        lemma_four_ticks_halve(time);
        let u = ticks(time, 4);
        lemma_ticks_halve_repeatedly(u, k1);
        lemma_ticks_split(time, 4, 4 * k1);
        assert(4 + 4 * k1 == 4 * k);
        let p = vstd::arithmetic::power2::pow2(k1);
        let v = ticks(u, 4 * k1);
        assert(v * (2 * p) <= time) by (nonlinear_arith)
            requires
                v * p <= u,
                2 * u <= time,
                v >= 0,
                p >= 0,
        ;
        assert(vstd::arithmetic::power2::pow2(k) == 2 * p);
    }
}

/// Each frame of an unsettled slide takes displacement away: a positive time
/// strictly decreases.
pub proof fn lemma_tick_decreases(time: int)
    requires
        0 < time,
    ensures
        0 <= tick(time) < time,
{
    lemma_tick_bound(time);
}

/// A slide settles within forty frames: from any time up to a full
/// displacement, forty frames bring it to the threshold or below.
pub proof fn lemma_settles_within_forty_frames(time: int)
    requires
        0 <= time <= TIME_SCALE,
    ensures
        0 <= ticks(time, 40) <= SETTLE_THRESHOLD,
{
    lemma_ticks_halve_repeatedly(time, 10);
    vstd::arithmetic::power2::lemma2_to64();
    assert(4 * 10nat == 40nat);
}

} // verus!
