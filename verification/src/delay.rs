//! Circular delay line and a stereo feedback delay.
use crate::fpu::{Fpu, Op};
use crate::nums::{F0_25, F0_3, F0_4, F0_99, ONE, ZERO};
use crate::plain::{self, num, Plain};
use vstd::arithmetic::{div_mod, mul, power2};
use vstd::prelude::*;

verus! {

broadcast use crate::plain::group_by_rank;

/// The contents of a circular buffer: its cells and the next one to be written.
#[verifier::ext_equal]
pub struct Ring {
    pub cells: Seq<Plain>,
    pub head: int,
}

impl Ring {
    pub open spec fn wf(self) -> bool {
        2 <= self.cells.len() && 0 <= self.head < self.cells.len()
    }

    /// `n` silent cells.
    pub open spec fn silent(n: nat) -> Ring {
        Ring { cells: Seq::new(n, |i: int| num(ZERO)), head: 0 }
    }

    /// The ring after one more sample.
    pub open spec fn written(self, x: Plain) -> Ring {
        Ring {
            cells: self.cells.update(self.head, x),
            head: (self.head + 1) % self.cells.len() as int,
        }
    }

    /// The sample written `k` samples before the last one.
    pub open spec fn history(self, k: int) -> Plain {
        self.cells[(self.head - 1 - k) % self.cells.len() as int]
    }

    /// Cell `i`, counted round the ring.
    pub open spec fn around(self, i: int) -> Plain {
        self.cells[i % self.cells.len() as int]
    }

    /// The ring read a fractional number of samples behind the last write,
    /// interpolating between neighbours.
    pub open spec fn reading<A: Fn(Op, Plain, Plain) -> Plain>(
        self,
        fpu: &Fpu<A>,
        delay_samples: Plain,
    ) -> Plain {
        let len = self.cells.len() as usize;
        let d = delay_samples.clamp(num(ONE), Plain::from_index((len - 2) as usize));
        let behind = fpu.sub(fpu.sub(Plain::from_index(self.head as usize), num(ONE)), d);
        let pos = fpu.add(behind, Plain::from_index(len));
        let i = pos.to_index();
        let frac = fpu.sub(pos, Plain::from_index(i));
        let a = self.around(i as int);
        let b = self.around(i + 1);
        fpu.add(a, fpu.mul(fpu.sub(b, a), frac))
    }

    /// A whole delay that leaves two cells to spare is read as it is asked for.
    pub proof fn lemma_whole_delay_passes(self, d: usize)
        requires
            self.wf(),
            1 <= d <= self.cells.len() - 2,
            self.cells.len() <= usize::MAX,
        ensures
            Plain::from_index(d).clamp(
                num(ONE),
                Plain::from_index((self.cells.len() - 2) as usize),
            ) == Plain::from_index(d),
    {
        plain::lemma_index_order(d, (self.cells.len() - 2) as usize);
        plain::lemma_one_at_most_count(Plain::from_index(d), d as int);
    }

    /// A whole delay reads back the very sample that was written so long ago, on a unit that
    /// places the read exactly and for which a step of nothing changes nothing.
    pub proof fn lemma_whole_delay_reads_back<A: Fn(Op, Plain, Plain) -> Plain>(
        self,
        fpu: &Fpu<A>,
        d: usize,
    )
        requires
            self.wf(),
            1 <= d <= self.cells.len() - 2,
            self.cells.len() <= 0x80_0000,
            ({
                let len = self.cells.len() as usize;
                let at = Plain::from_index((self.head - 1 - d + len) as usize);
                let (a, b) = (self.history(d as int), self.history(d - 1));
                &&& fpu.add(
                    fpu.sub(
                        fpu.sub(Plain::from_index(self.head as usize), num(ONE)),
                        Plain::from_index(d),
                    ),
                    Plain::from_index(len),
                ) == at
                &&& fpu.sub(at, at) == num(ZERO)
                &&& fpu.add(a, fpu.mul(fpu.sub(b, a), num(ZERO))) == a
            }),
        ensures
            self.reading(fpu, Plain::from_index(d)) == self.history(d as int),
    {
        let len = self.cells.len() as int;
        let i = self.head - 1 - d + len;
        self.lemma_whole_delay_passes(d);
        plain::lemma_exact_index(i as usize);
        div_mod::lemma_mod_add_multiples_vanish(self.head - 1 - d, len);
        div_mod::lemma_mod_add_multiples_vanish(self.head - 1 - (d - 1), len);
    }

    /// The ring repeats after a whole turn.
    pub proof fn lemma_history_repeats(self, k: int, turns: int)
        requires
            self.wf(),
        ensures
            self.history(k + turns * self.cells.len() as int) == self.history(k),
    {
        let n = self.cells.len() as int;
        assert(self.head - 1 - (k + turns * n) == n * (-turns) + (self.head - 1 - k))
            by (nonlinear_arith);
        div_mod::lemma_mod_multiples_vanish(-turns, self.head - 1 - k, n);
    }

    /// Just after a write, the last sample is the one written.
    pub proof fn lemma_last_write(self, x: Plain)
        requires
            self.wf(),
        ensures
            self.written(x).wf(),
            self.written(x).history(0) == x,
    {
        let n = self.cells.len() as int;
        let head = (self.head + 1) % n;
        if self.head + 1 == n {
            div_mod::lemma_mod_self_0(n);
            assert((0 - 1 - 0) % n == n - 1) by {
                div_mod::lemma_fundamental_div_mod_converse(-1, n, -1, n - 1);
            }
        } else {
            assert(head == self.head + 1) by {
                div_mod::lemma_small_mod((self.head + 1) as nat, n as nat);
            }
            div_mod::lemma_small_mod(self.head as nat, n as nat);
        }
    }

    /// Every write ages what was written before by one sample: a sample comes back
    /// `k` writes later at delay `k`, for as long as the ring has room.
    pub proof fn lemma_write_ages(self, x: Plain, k: int)
        requires
            self.wf(),
            0 <= k < self.cells.len() - 1,
        ensures
            self.written(x).history(k + 1) == self.history(k),
    {
        let n = self.cells.len() as int;
        let i = (self.head - 1 - k) % n;
        let head = (self.head + 1) % n;
        div_mod::lemma_mod_bound(self.head - 1 - k, n);
        if self.head + 1 == n {
            assert(head == 0) by {
                div_mod::lemma_mod_self_0(n);
            }
            assert((head - 1 - (k + 1)) % n == i) by {
                div_mod::lemma_mod_add_multiples_vanish(-2 - k, n);
            }
        } else {
            div_mod::lemma_small_mod((self.head + 1) as nat, n as nat);
        }
        assert(i != self.head) by {
            if self.head - 1 - k >= 0 {
                div_mod::lemma_small_mod((self.head - 1 - k) as nat, n as nat);
            } else {
                div_mod::lemma_mod_add_multiples_vanish(self.head - 1 - k, n);
                div_mod::lemma_small_mod((self.head - 1 - k + n) as nat, n as nat);
            }
        }
    }
}

/// Whether `n` is a power of two.
pub open spec fn is_pow2(n: int) -> bool {
    exists|k: nat| n == #[trigger] power2::pow2(k)
}

/// The least power of two that is at least two and at least `n`.
pub open spec fn is_capacity(cap: int, n: int) -> bool {
    is_pow2(cap) && 2 <= cap && n <= cap && (cap == 2 || cap < 2 * n)
}

/// The least power of two that is at least two and at least `n`.
pub fn capacity_for(n: usize) -> (cap: usize)
    requires
        n <= usize::MAX / 2 + 1,
    ensures
        is_capacity(cap as int, n as int),
{
    let mut cap: usize = 2;
    proof {
        power2::lemma2_to64();
        assert(power2::pow2(1) == 2);
    }
    while cap < n
        invariant
            n <= usize::MAX / 2 + 1,
            is_pow2(cap as int),
            2 <= cap,
            cap == 2 || cap < 2 * n,
        decreases 2 * n - cap,
    {
        proof {
            let k = choose|k: nat| cap == power2::pow2(k);
            power2::lemma_pow2_unfold(k + 1);
            assert(2 * cap == power2::pow2(k + 1));
        }
        cap = cap * 2;
    }
    cap
}

/// Circular buffer of a power-of-two size, with fractional reads.
pub struct DelayLine {
    pub buf: Vec<Plain>,
    pub write: usize,
}

impl View for DelayLine {
    type V = Ring;

    open spec fn view(&self) -> Ring {
        Ring { cells: self.buf@, head: self.write as int }
    }
}

impl DelayLine {
    /// A silent line that can hold at least `max_samples` of delay: a read reaches that far
    /// behind the last write.
    pub fn new(max_samples: usize) -> (r: Self)
        requires
            max_samples <= usize::MAX / 2 - 1,
        ensures
            r@.wf(),
            is_capacity(r@.cells.len() as int, max_samples + 2),
            r@ == Ring::silent(r@.cells.len()),
            forall|d: usize|
                1 <= d <= max_samples ==> (#[trigger] Plain::from_index(d)).clamp(
                    num(ONE),
                    Plain::from_index((r@.cells.len() - 2) as usize),
                ) == Plain::from_index(d),
    {
        let r = DelayLine::with_cells(max_samples + 2);
        proof {
            assert forall|d: usize| 1 <= d <= max_samples implies (#[trigger] Plain::from_index(
                d,
            )).clamp(num(ONE), Plain::from_index((r@.cells.len() - 2) as usize))
                == Plain::from_index(d) by {
                r@.lemma_whole_delay_passes(d);
            }
        }
        r
    }

    /// A silent line of the least power of two of cells that is at least `cells`.
    pub fn with_cells(cells: usize) -> (r: Self)
        requires
            cells <= usize::MAX / 2 + 1,
        ensures
            r@.wf(),
            is_capacity(r@.cells.len() as int, cells as int),
            r@ == Ring::silent(r@.cells.len()),
    {
        let cap: usize = capacity_for(cells);
        let r = DelayLine { buf: vec![num(ZERO);cap], write: 0 };
        assert(r@.cells =~= Seq::new(cap as nat, |i: int| num(ZERO)));
        r
    }

    pub fn clear(&mut self)
        ensures
            final(self)@ == Ring::silent(old(self)@.cells.len()),
    {
        let mut i: usize = 0;
        while i < self.buf.len()
            invariant
                self.buf@.len() == old(self).buf@.len(),
                i <= self.buf@.len(),
                forall|j: int| 0 <= j < i ==> self.buf@[j] == num(ZERO),
            decreases self.buf@.len() - i,
        {
            self.buf.set(i, num(ZERO));
            i = i + 1;
        }
        self.write = 0;
        assert(self@.cells =~= Seq::new(old(self)@.cells.len(), |i: int| num(ZERO)));
    }

    pub fn capacity(&self) -> (r: usize)
        ensures
            r == self@.cells.len(),
    {
        self.buf.len()
    }

    /// Write one sample at the head and advance.
    pub fn write(&mut self, x: Plain)
        requires
            old(self)@.wf(),
        ensures
            final(self)@ == old(self)@.written(x),
            final(self)@.wf(),
    {
        let len: usize = self.buf.len();
        self.buf.set(self.write, x);
        self.write = (self.write + 1) % len;
    }

    /// Cell `i`, counted round the ring.
    pub fn at(&self, i: usize) -> (r: Plain)
        requires
            self@.wf(),
        ensures
            r == self@.around(i as int),
    {
        self.buf[i % self.buf.len()]
    }

    /// The sample written `k` samples before the last one.
    pub fn past(&self, k: usize) -> (r: Plain)
        requires
            self@.wf(),
            k < self@.cells.len(),
            2 * self@.cells.len() <= usize::MAX,
        ensures
            r == self@.history(k as int),
    {
        let len: usize = self.buf.len();
        proof {
            div_mod::lemma_mod_add_multiples_vanish(self.write - 1 - k, len as int);
        }
        self.at(self.write + (len - 1 - k))
    }

    /// As [`Self::past`], round the ring for as many turns as it takes.
    pub fn past_around(&self, k: usize) -> (r: Plain)
        requires
            self@.wf(),
            2 * self@.cells.len() <= usize::MAX,
        ensures
            r == self@.history(k as int),
    {
        let len: usize = self.buf.len();
        proof {
            div_mod::lemma_fundamental_div_mod(k as int, len as int);
            mul::lemma_mul_is_commutative(len as int, k as int / len as int);
            self@.lemma_history_repeats(k as int % len as int, k as int / len as int);
        }
        self.past(k % len)
    }

    /// Read `delay_samples` (fractional) behind the last write.
    pub fn read<A: Fn(Op, Plain, Plain) -> Plain>(
        &self,
        fpu: &Fpu<A>,
        delay_samples: Plain,
    ) -> (r: Plain)
        requires
            fpu.valid(),
            self@.wf(),
            self@.cells.len() >= 4,
        ensures
            r == self@.reading(fpu, delay_samples),
    {
        let len: usize = self.buf.len();
        let top = Plain::from_index(len - 2);
        proof {
            plain::lemma_one_at_most_count(top, len - 2);
        }
        let d = delay_samples.clamp(num(ONE), top);
        let behind = fpu.sub(fpu.sub(Plain::from_index(self.write), num(ONE)), d);
        let pos = fpu.add(behind, Plain::from_index(len));
        let i: usize = pos.to_index();
        let frac = fpu.sub(pos, Plain::from_index(i));
        let a = self.at(i);
        let b = self.at(i % len + 1);
        proof {
            div_mod::lemma_add_mod_noop(i as int, 1, len as int);
            div_mod::lemma_add_mod_noop(i as int % len as int, 1, len as int);
            div_mod::lemma_mod_twice(i as int, len as int);
        }
        fpu.add(a, fpu.mul(fpu.sub(b, a), frac))
    }
}

/// The state of a [`StereoDelay`].
#[verifier::ext_equal]
pub struct StereoDelayState {
    pub left: Ring,
    pub right: Ring,
    pub fb_lp_l: Plain,
    pub fb_lp_r: Plain,
}

/// The parameters of a [`StereoDelay`].
#[derive(Clone, Copy, Debug, PartialEq, Eq, Structural)]
pub struct DelayParams {
    pub delay_samples_l: Plain,
    pub delay_samples_r: Plain,
    pub feedback: Plain,
    pub damping: Plain,
    pub mix: Plain,
    pub ping_pong: bool,
}

pub open spec fn spec_one_pole_toward<A: Fn(Op, Plain, Plain) -> Plain>(
    fpu: &Fpu<A>,
    state: Plain,
    target: Plain,
    hold: Plain,
) -> Plain {
    fpu.add(state, fpu.mul(fpu.sub(num(ONE), hold), fpu.sub(target, state)))
}

/// A one-pole lowpass step: `hold` of the state stays.
#[verifier::when_used_as_spec(spec_one_pole_toward)]
pub fn one_pole_toward<A: Fn(Op, Plain, Plain) -> Plain>(
    fpu: &Fpu<A>,
    state: Plain,
    target: Plain,
    hold: Plain,
) -> (r: Plain)
    requires
        fpu.valid(),
    ensures
        r == one_pole_toward(fpu, state, target, hold),
{
    fpu.add(state, fpu.mul(fpu.sub(num(ONE), hold), fpu.sub(target, state)))
}

pub open spec fn spec_dry_wet<A: Fn(Op, Plain, Plain) -> Plain>(
    fpu: &Fpu<A>,
    dry: Plain,
    wet: Plain,
    mix: Plain,
) -> Plain {
    fpu.add(fpu.mul(dry, fpu.sub(num(ONE), mix)), fpu.mul(wet, mix))
}

/// A dry and a wet sample, mixed.
#[verifier::when_used_as_spec(spec_dry_wet)]
pub fn dry_wet<A: Fn(Op, Plain, Plain) -> Plain>(
    fpu: &Fpu<A>,
    dry: Plain,
    wet: Plain,
    mix: Plain,
) -> (r: Plain)
    requires
        fpu.valid(),
    ensures
        r == dry_wet(fpu, dry, wet, mix),
{
    fpu.add(fpu.mul(dry, fpu.sub(num(ONE), mix)), fpu.mul(wet, mix))
}

impl DelayParams {
    /// The parameters of a new delay.
    pub open spec fn initial<A: Fn(Op, Plain, Plain) -> Plain>(
        fpu: &Fpu<A>,
        sample_rate: Plain,
    ) -> Self {
        DelayParams {
            delay_samples_l: fpu.mul(sample_rate, num(F0_3)),
            delay_samples_r: fpu.mul(sample_rate, num(F0_3)),
            feedback: num(F0_4),
            damping: num(F0_3),
            mix: num(F0_25),
            ping_pong: false,
        }
    }
}

impl StereoDelayState {
    pub open spec fn wf(self) -> bool {
        &&& self.left.wf() && self.left.cells.len() >= 4
        &&& self.right.wf() && self.right.cells.len() >= 4
    }

    /// One stereo sample on: both lines take their input and the damped feedback of
    /// their own output, or of each other's with ping-pong.
    #[verifier::opaque]
    pub open spec fn processed<A: Fn(Op, Plain, Plain) -> Plain>(
        self,
        fpu: &Fpu<A>,
        p: DelayParams,
        in_l: Plain,
        in_r: Plain,
    ) -> (Self, (Plain, Plain)) {
        let wet_l = self.left.reading(fpu, p.delay_samples_l);
        let wet_r = self.right.reading(fpu, p.delay_samples_r);
        let fb_lp_l = one_pole_toward(fpu, self.fb_lp_l, wet_l, p.damping);
        let fb_lp_r = one_pole_toward(fpu, self.fb_lp_r, wet_r, p.damping);
        let fb_l = fpu.mul(fb_lp_l, p.feedback);
        let fb_r = fpu.mul(fb_lp_r, p.feedback);
        let (to_l, to_r) = if p.ping_pong {
            (fb_r, fb_l)
        } else {
            (fb_l, fb_r)
        };
        (
            StereoDelayState {
                left: self.left.written(fpu.add(in_l, to_l)),
                right: self.right.written(fpu.add(in_r, to_r)),
                fb_lp_l,
                fb_lp_r,
            },
            (dry_wet(fpu, in_l, wet_l, p.mix), dry_wet(fpu, in_r, wet_r, p.mix)),
        )
    }
}

/// Stereo feedback delay with a one-pole damping in the feedback path and a
/// dry/wet mix.
pub struct StereoDelay {
    pub sample_rate: Plain,
    pub left: DelayLine,
    pub right: DelayLine,
    pub fb_lp_l: Plain,
    pub fb_lp_r: Plain,
    pub params: DelayParams,
}

impl View for StereoDelay {
    type V = StereoDelayState;

    open spec fn view(&self) -> StereoDelayState {
        StereoDelayState {
            left: self.left@,
            right: self.right@,
            fb_lp_l: self.fb_lp_l,
            fb_lp_r: self.fb_lp_r,
        }
    }
}

impl StereoDelay {
    pub fn new<A: Fn(Op, Plain, Plain) -> Plain>(
        fpu: &Fpu<A>,
        sample_rate: Plain,
        max_seconds: Plain,
    ) -> (r: Self)
        requires
            fpu.valid(),
            fpu.mul(sample_rate, max_seconds).to_index() <= usize::MAX / 2 - 5,
        ensures
            r@.wf(),
            is_capacity(
                r.left@.cells.len() as int,
                fpu.mul(sample_rate, max_seconds).to_index() + 6,
            ),
            r.right@ == r.left@,
            r.left@ == Ring::silent(r.left@.cells.len()),
            r.fb_lp_l == num(ZERO),
            r.fb_lp_r == num(ZERO),
            r.sample_rate == sample_rate,
            r.params == DelayParams::initial(fpu, sample_rate),
    {
        let max: usize = fpu.mul(sample_rate, max_seconds).to_index() + 4;
        let left = DelayLine::new(max);
        let right = DelayLine::new(max);
        proof {
            lemma_capacity_unique(left@.cells.len() as int, right@.cells.len() as int, max + 2);
            assert(left@.cells.len() >= 4);
        }
        StereoDelay {
            sample_rate,
            left,
            right,
            fb_lp_l: num(ZERO),
            fb_lp_r: num(ZERO),
            params: DelayParams {
                delay_samples_l: fpu.mul(sample_rate, num(F0_3)),
                delay_samples_r: fpu.mul(sample_rate, num(F0_3)),
                feedback: num(F0_4),
                damping: num(F0_3),
                mix: num(F0_25),
                ping_pong: false,
            },
        }
    }

    pub fn clear(&mut self)
        ensures
            final(self)@ == (StereoDelayState {
                left: Ring::silent(old(self).left@.cells.len()),
                right: Ring::silent(old(self).right@.cells.len()),
                fb_lp_l: num(ZERO),
                fb_lp_r: num(ZERO),
            }),
            final(self).params == old(self).params,
            final(self).sample_rate == old(self).sample_rate,
            old(self)@.wf() ==> final(self)@.wf(),
    {
        self.left.clear();
        self.right.clear();
        self.fb_lp_l = num(ZERO);
        self.fb_lp_r = num(ZERO);
    }

    pub open spec fn params_for<A: Fn(Op, Plain, Plain) -> Plain>(
        fpu: &Fpu<A>,
        sample_rate: Plain,
        time_l: Plain,
        time_r: Plain,
        feedback: Plain,
        damping: Plain,
        mix: Plain,
        ping_pong: bool,
    ) -> DelayParams {
        DelayParams {
            delay_samples_l: fpu.mul(time_l, sample_rate).max(num(ONE)),
            delay_samples_r: fpu.mul(time_r, sample_rate).max(num(ONE)),
            feedback: feedback.clamp(num(ZERO), num(F0_99)),
            damping: damping.clamp(num(ZERO), num(ONE)),
            mix: mix.clamp(num(ZERO), num(ONE)),
            ping_pong,
        }
    }

    /// Set parameters for the next control block. Times in seconds, the rest in
    /// `[0, 1]`.
    pub fn set_params<A: Fn(Op, Plain, Plain) -> Plain>(
        &mut self,
        fpu: &Fpu<A>,
        time_l: Plain,
        time_r: Plain,
        feedback: Plain,
        damping: Plain,
        mix: Plain,
        ping_pong: bool,
    )
        requires
            fpu.valid(),
        ensures
            final(self).params == StereoDelay::params_for(
                fpu,
                old(self).sample_rate,
                time_l,
                time_r,
                feedback,
                damping,
                mix,
                ping_pong,
            ),
            final(self)@ == old(self)@,
            final(self).sample_rate == old(self).sample_rate,
    {
        self.params = DelayParams {
            delay_samples_l: fpu.mul(time_l, self.sample_rate).max(num(ONE)),
            delay_samples_r: fpu.mul(time_r, self.sample_rate).max(num(ONE)),
            feedback: feedback.clamp(num(ZERO), num(F0_99)),
            damping: damping.clamp(num(ZERO), num(ONE)),
            mix: mix.clamp(num(ZERO), num(ONE)),
            ping_pong,
        };
    }

    /// Process one stereo sample.
    pub fn process<A: Fn(Op, Plain, Plain) -> Plain>(
        &mut self,
        fpu: &Fpu<A>,
        in_l: Plain,
        in_r: Plain,
    ) -> (r: (Plain, Plain))
        requires
            fpu.valid(),
            old(self)@.wf(),
        ensures
            (final(self)@, r) == old(self)@.processed(fpu, old(self).params, in_l, in_r),
            final(self)@.wf(),
            final(self).params == old(self).params,
            final(self).sample_rate == old(self).sample_rate,
    {
        reveal(StereoDelayState::processed);
        let p = self.params;
        let wet_l = self.left.read(fpu, p.delay_samples_l);
        let wet_r = self.right.read(fpu, p.delay_samples_r);
        self.fb_lp_l = one_pole_toward(fpu, self.fb_lp_l, wet_l, p.damping);
        self.fb_lp_r = one_pole_toward(fpu, self.fb_lp_r, wet_r, p.damping);
        let fb_l = fpu.mul(self.fb_lp_l, p.feedback);
        let fb_r = fpu.mul(self.fb_lp_r, p.feedback);
        if p.ping_pong {
            self.left.write(fpu.add(in_l, fb_r));
            self.right.write(fpu.add(in_r, fb_l));
        } else {
            self.left.write(fpu.add(in_l, fb_l));
            self.right.write(fpu.add(in_r, fb_r));
        }
        (dry_wet(fpu, in_l, wet_l, p.mix), dry_wet(fpu, in_r, wet_r, p.mix))
    }
}

/// A size has one capacity.
pub proof fn lemma_capacity_unique(a: int, b: int, n: int)
    requires
        is_capacity(a, n),
        is_capacity(b, n),
    ensures
        a == b,
{
    let i = choose|k: nat| a == power2::pow2(k);
    let j = choose|k: nat| b == power2::pow2(k);
    if i < j {
        power2::lemma_pow2_unfold(j);
        lemma_pow2_at_most(i, (j - 1) as nat);
    } else if j < i {
        power2::lemma_pow2_unfold(i);
        lemma_pow2_at_most(j, (i - 1) as nat);
    }
}

proof fn lemma_pow2_at_most(a: nat, b: nat)
    requires
        a <= b,
    ensures
        power2::pow2(a) <= power2::pow2(b),
{
    if a < b {
        power2::lemma_pow2_strictly_increases(a, b);
    }
}

/// Without any wet a mix is the dry sample, and with nothing else it is the wet one.
pub proof fn lemma_mix_ends<A: Fn(Op, Plain, Plain) -> Plain>(
    fpu: &Fpu<A>,
    dry: Plain,
    wet: Plain,
    mix: Plain,
)
    requires
        fpu.rounds(),
        dry.is_number() && wet.is_number(),
    ensures
        mix.is_zero() ==> dry_wet(fpu, dry, wet, mix).equals(dry),
        mix == num(ONE) ==> dry_wet(fpu, dry, wet, mix).equals(wet),
{
    plain::lemma_small_values();
    let rest = fpu.sub(num(ONE), mix);
    if mix.is_zero() {
        fpu.lemma_nothing_added(num(ONE), mix);
        assert(rest == num(ONE));
        fpu.lemma_all_of(dry);
        fpu.lemma_none_of(wet, mix);
        let d = fpu.mul(dry, rest);
        plain::lemma_equal_scaled(d, dry);
        fpu.lemma_add_side(d, fpu.mul(wet, mix), dry);
        plain::lemma_zero_scaled(fpu.mul(wet, mix));
    }
    if mix == num(ONE) {
        fpu.lemma_sub_side(num(ONE), mix, num(ZERO));
        fpu.lemma_none_of(dry, rest);
        fpu.lemma_all_of(wet);
        let w = fpu.mul(wet, mix);
        plain::lemma_equal_scaled(w, wet);
        fpu.lemma_add_side(fpu.mul(dry, rest), w, wet);
        plain::lemma_zero_scaled(fpu.mul(dry, rest));
    }
}

/// A mix of two samples rises with either of them.
pub proof fn lemma_mix_rises<A: Fn(Op, Plain, Plain) -> Plain>(
    fpu: &Fpu<A>,
    dry1: Plain,
    wet1: Plain,
    dry2: Plain,
    wet2: Plain,
    mix: Plain,
)
    requires
        fpu.rounds(),
        dry1.is_finite() && wet1.is_finite() && dry2.is_finite() && wet2.is_finite(),
        mix.is_finite() && 0 <= mix.scaled() <= plain::unit(),
        dry1.at_most(dry2) && wet1.at_most(wet2),
        fpu.mul(dry1, fpu.sub(num(ONE), mix)).is_finite(),
        fpu.mul(dry2, fpu.sub(num(ONE), mix)).is_finite(),
        fpu.mul(wet1, mix).is_finite() && fpu.mul(wet2, mix).is_finite(),
    ensures
        dry_wet(fpu, dry1, wet1, mix).at_most(dry_wet(fpu, dry2, wet2, mix)),
{
    plain::lemma_small_values();
    let rest = fpu.sub(num(ONE), mix);
    fpu.lemma_sub_side(num(ONE), mix, num(ZERO));
    fpu.lemma_sub_side(num(ONE), mix, num(ONE));
    plain::lemma_between_finite(num(ZERO), rest, num(ONE));
    fpu.lemma_scaling_rises(dry1, dry2, rest);
    fpu.lemma_scaling_rises(wet1, wet2, mix);
    let (a, b) = (fpu.mul(dry1, rest), fpu.mul(dry2, rest));
    let (c, d) = (fpu.mul(wet1, mix), fpu.mul(wet2, mix));
    plain::lemma_equal_scaled(a, b);
    plain::lemma_equal_scaled(c, d);
    fpu.lemma_add_order(a, c, b, d);
}

/// A one-pole step that holds everything stays, and one that holds nothing arrives, wherever
/// the way between is a number.
pub proof fn lemma_step_ends<A: Fn(Op, Plain, Plain) -> Plain>(
    fpu: &Fpu<A>,
    state: Plain,
    target: Plain,
    hold: Plain,
    way: Plain,
)
    requires
        fpu.rounds(),
        state.is_number() && target.is_number() && way.is_number(),
        way.scaled() == target.scaled() - state.scaled(),
    ensures
        hold.is_zero() ==> one_pole_toward(fpu, state, target, hold).equals(target),
        hold == num(ONE) ==> one_pole_toward(fpu, state, target, hold).equals(state),
{
    plain::lemma_small_values();
    let share = fpu.sub(num(ONE), hold);
    let d = fpu.sub(target, state);
    fpu.lemma_sub_side(target, state, way);
    plain::lemma_equal_scaled(d, way);
    if hold.is_zero() {
        fpu.lemma_nothing_added(num(ONE), hold);
        assert(share == num(ONE));
        fpu.lemma_all_of(d);
        plain::lemma_equal_scaled(fpu.mul(share, d), d);
        fpu.lemma_add_side(state, fpu.mul(share, d), target);
    }
    if hold == num(ONE) {
        fpu.lemma_sub_side(num(ONE), hold, num(ZERO));
        fpu.lemma_none_of(d, share);
        fpu.lemma_nothing_added(state, fpu.mul(share, d));
    }
}

/// What a delay feeds back. With a silent input and no damping, the newest sample of each line
/// is the feedback times what that line read at its delay, or what the other line read with
/// ping-pong, wherever the way of the damping filter there is a number.
pub proof fn lemma_echo_is_fed_back<A: Fn(Op, Plain, Plain) -> Plain>(
    fpu: &Fpu<A>,
    s: StereoDelayState,
    p: DelayParams,
    in_l: Plain,
    in_r: Plain,
    way_l: Plain,
    way_r: Plain,
)
    requires
        fpu.rounds(),
        s.wf(),
        in_l.is_zero() && in_r.is_zero(),
        p.damping.is_zero(),
        p.feedback.is_finite(),
        s.fb_lp_l.is_number() && s.fb_lp_r.is_number(),
        way_l.is_number() && way_r.is_number(),
        ({
            let (a, b) = (
                s.left.reading(fpu, p.delay_samples_l),
                s.right.reading(fpu, p.delay_samples_r),
            );
            &&& a.is_number() && b.is_number()
            &&& way_l.scaled() == a.scaled() - s.fb_lp_l.scaled()
            &&& way_r.scaled() == b.scaled() - s.fb_lp_r.scaled()
            &&& fpu.mul(a, p.feedback).is_number()
            &&& fpu.mul(b, p.feedback).is_number()
        }),
    ensures
        ({
            let (a, b) = (
                s.left.reading(fpu, p.delay_samples_l),
                s.right.reading(fpu, p.delay_samples_r),
            );
            let next = s.processed(fpu, p, in_l, in_r).0;
            let (to_l, to_r) = if p.ping_pong {
                (b, a)
            } else {
                (a, b)
            };
            &&& next.left.history(0).equals(fpu.mul(to_l, p.feedback))
            &&& next.right.history(0).equals(fpu.mul(to_r, p.feedback))
        }),
{
    reveal(StereoDelayState::processed);
    let a = s.left.reading(fpu, p.delay_samples_l);
    let b = s.right.reading(fpu, p.delay_samples_r);
    lemma_step_ends(fpu, s.fb_lp_l, a, p.damping, way_l);
    lemma_step_ends(fpu, s.fb_lp_r, b, p.damping, way_r);
    let la = one_pole_toward(fpu, s.fb_lp_l, a, p.damping);
    let lb = one_pole_toward(fpu, s.fb_lp_r, b, p.damping);
    lemma_same_product(fpu, la, a, p.feedback);
    lemma_same_product(fpu, lb, b, p.feedback);
    let (fa, fb) = (fpu.mul(la, p.feedback), fpu.mul(lb, p.feedback));
    let next = s.processed(fpu, p, in_l, in_r).0;
    if p.ping_pong {
        fpu.lemma_nothing_added(fb, in_l);
        fpu.lemma_nothing_added(fa, in_r);
        s.left.lemma_last_write(fpu.add(in_l, fb));
        s.right.lemma_last_write(fpu.add(in_r, fa));
    } else {
        fpu.lemma_nothing_added(fa, in_l);
        fpu.lemma_nothing_added(fb, in_r);
        s.left.lemma_last_write(fpu.add(in_l, fa));
        s.right.lemma_last_write(fpu.add(in_r, fb));
    }
}

proof fn lemma_same_product<A: Fn(Op, Plain, Plain) -> Plain>(
    fpu: &Fpu<A>,
    x: Plain,
    y: Plain,
    k: Plain,
)
    requires
        fpu.rounds(),
        x.equals(y) && y.is_finite() && k.is_finite(),
        fpu.mul(y, k).is_number(),
    ensures
        fpu.mul(x, k).equals(fpu.mul(y, k)),
        fpu.mul(x, k).is_number(),
{
    plain::lemma_equal_scaled(x, y);
    fpu.lemma_mul_order(x, k, y, k);
    fpu.lemma_mul_order(y, k, x, k);
}

/// Without feedback each line takes its own input and nothing else, and what is heard is its
/// own echo.
pub proof fn lemma_no_feedback_writes_the_input<A: Fn(Op, Plain, Plain) -> Plain>(
    fpu: &Fpu<A>,
    s: StereoDelayState,
    p: DelayParams,
    in_l: Plain,
    in_r: Plain,
)
    requires
        fpu.rounds(),
        s.wf(),
        p.feedback.is_zero(),
        in_l.is_number() && in_r.is_number(),
        s.processed(fpu, p, in_l, in_r).0.fb_lp_l.is_finite(),
        s.processed(fpu, p, in_l, in_r).0.fb_lp_r.is_finite(),
    ensures
        s.processed(fpu, p, in_l, in_r).0.left.history(0).equals(in_l),
        s.processed(fpu, p, in_l, in_r).0.right.history(0).equals(in_r),
{
    reveal(StereoDelayState::processed);
    let next = s.processed(fpu, p, in_l, in_r).0;
    let (fa, fb) = (fpu.mul(next.fb_lp_l, p.feedback), fpu.mul(next.fb_lp_r, p.feedback));
    fpu.lemma_none_of(next.fb_lp_l, p.feedback);
    fpu.lemma_none_of(next.fb_lp_r, p.feedback);
    fpu.lemma_nothing_added(in_l, fa);
    fpu.lemma_nothing_added(in_l, fb);
    fpu.lemma_nothing_added(in_r, fa);
    fpu.lemma_nothing_added(in_r, fb);
    if p.ping_pong {
        s.left.lemma_last_write(fpu.add(in_l, fb));
        s.right.lemma_last_write(fpu.add(in_r, fa));
    } else {
        s.left.lemma_last_write(fpu.add(in_l, fa));
        s.right.lemma_last_write(fpu.add(in_r, fb));
    }
}

/// More feedback writes no less of an echo that is not negative.
pub proof fn lemma_feedback_raises_the_echo<A: Fn(Op, Plain, Plain) -> Plain>(
    fpu: &Fpu<A>,
    s: StereoDelayState,
    weak: DelayParams,
    strong: DelayParams,
    in_l: Plain,
    in_r: Plain,
)
    requires
        fpu.rounds(),
        s.wf(),
        strong == (DelayParams { feedback: strong.feedback, ..weak }),
        weak.feedback.is_finite() && strong.feedback.is_finite(),
        weak.feedback.at_most(strong.feedback),
        in_l.is_finite() && in_r.is_finite(),
        ({
            let next = s.processed(fpu, weak, in_l, in_r).0;
            &&& next.fb_lp_l.is_finite() && next.fb_lp_l.scaled() >= 0
            &&& next.fb_lp_r.is_finite() && next.fb_lp_r.scaled() >= 0
            &&& fpu.mul(next.fb_lp_l, weak.feedback).is_finite()
            &&& fpu.mul(next.fb_lp_l, strong.feedback).is_finite()
            &&& fpu.mul(next.fb_lp_r, weak.feedback).is_finite()
            &&& fpu.mul(next.fb_lp_r, strong.feedback).is_finite()
        }),
    ensures
        ({
            let a = s.processed(fpu, weak, in_l, in_r).0;
            let b = s.processed(fpu, strong, in_l, in_r).0;
            &&& a.fb_lp_l == b.fb_lp_l && a.fb_lp_r == b.fb_lp_r
            &&& a.left.history(0).at_most(b.left.history(0))
            &&& a.right.history(0).at_most(b.right.history(0))
        }),
{
    reveal(StereoDelayState::processed);
    let next = s.processed(fpu, weak, in_l, in_r).0;
    let (l, r) = (next.fb_lp_l, next.fb_lp_r);
    let (lw, ls) = (fpu.mul(l, weak.feedback), fpu.mul(l, strong.feedback));
    let (rw, rs) = (fpu.mul(r, weak.feedback), fpu.mul(r, strong.feedback));
    fpu.lemma_scaling_rises(weak.feedback, strong.feedback, l);
    fpu.lemma_scaling_rises(weak.feedback, strong.feedback, r);
    plain::lemma_equal_scaled(lw, ls);
    plain::lemma_equal_scaled(rw, rs);
    fpu.lemma_add_order(in_l, lw, in_l, ls);
    fpu.lemma_add_order(in_l, rw, in_l, rs);
    fpu.lemma_add_order(in_r, lw, in_r, ls);
    fpu.lemma_add_order(in_r, rw, in_r, rs);
    s.left.lemma_last_write(fpu.add(in_l, lw));
    s.left.lemma_last_write(fpu.add(in_l, ls));
    s.left.lemma_last_write(fpu.add(in_l, rw));
    s.left.lemma_last_write(fpu.add(in_l, rs));
    s.right.lemma_last_write(fpu.add(in_r, lw));
    s.right.lemma_last_write(fpu.add(in_r, ls));
    s.right.lemma_last_write(fpu.add(in_r, rw));
    s.right.lemma_last_write(fpu.add(in_r, rs));
}

/// A delay that is mixed out is not heard, and one that is mixed in alone is heard as what each
/// side read at its own delay.
pub proof fn lemma_delay_mix_ends<A: Fn(Op, Plain, Plain) -> Plain>(
    fpu: &Fpu<A>,
    s: StereoDelayState,
    p: DelayParams,
    in_l: Plain,
    in_r: Plain,
)
    requires
        fpu.rounds(),
        in_l.is_number() && in_r.is_number(),
        s.left.reading(fpu, p.delay_samples_l).is_number(),
        s.right.reading(fpu, p.delay_samples_r).is_number(),
    ensures
        ({
            let out = s.processed(fpu, p, in_l, in_r).1;
            &&& p.mix.is_zero() ==> out.0.equals(in_l) && out.1.equals(in_r)
            &&& p.mix == num(ONE) ==> {
                &&& out.0.equals(s.left.reading(fpu, p.delay_samples_l))
                &&& out.1.equals(s.right.reading(fpu, p.delay_samples_r))
            }
        }),
{
    reveal(StereoDelayState::processed);
    lemma_mix_ends(fpu, in_l, s.left.reading(fpu, p.delay_samples_l), p.mix);
    lemma_mix_ends(fpu, in_r, s.right.reading(fpu, p.delay_samples_r), p.mix);
}

/// The settings of a delay: the longer a time the longer the delay, of time times rate
/// wherever that is a number of one sample or more; each side by its own time; the feedback
/// held under one; and the damping and the mix as they are within `[0, 1]`.
pub proof fn lemma_delay_settings<A: Fn(Op, Plain, Plain) -> Plain>(
    fpu: &Fpu<A>,
    sample_rate: Plain,
    time_l: Plain,
    time_r: Plain,
    feedback: Plain,
    damping: Plain,
    mix: Plain,
    ping_pong: bool,
    n_l: Plain,
    n_r: Plain,
)
    requires
        fpu.rounds(),
        sample_rate.is_finite() && time_l.is_finite() && time_r.is_finite(),
        n_l.is_number() && n_r.is_number(),
        num(ONE).at_most(n_l) && num(ONE).at_most(n_r),
        n_l.scaled() * plain::unit() == time_l.scaled() * sample_rate.scaled(),
        n_r.scaled() * plain::unit() == time_r.scaled() * sample_rate.scaled(),
    ensures
        ({
            let p = StereoDelay::params_for(
                fpu,
                sample_rate,
                time_l,
                time_r,
                feedback,
                damping,
                mix,
                ping_pong,
            );
            &&& p.delay_samples_l == n_l && p.delay_samples_r == n_r
            &&& num(ZERO).at_most(feedback) && feedback.at_most(num(F0_99)) ==> p.feedback
                == feedback
            &&& num(F0_99).at_most(feedback) ==> p.feedback == num(F0_99)
            &&& num(ZERO).at_most(damping) && damping.at_most(num(ONE)) ==> p.damping == damping
            &&& num(ZERO).at_most(mix) && mix.at_most(num(ONE)) ==> p.mix == mix
            &&& p.ping_pong == ping_pong
        }),
{
    fpu.lemma_mul_side(time_l, sample_rate, n_l);
    fpu.lemma_mul_side(time_r, sample_rate, n_r);
    assert(fpu.mul(time_l, sample_rate) == n_l);
    assert(fpu.mul(time_r, sample_rate) == n_r);
}

/// A whole delay is heard as the very sample that was written so long ago.
pub proof fn lemma_whole_delay_is_heard<A: Fn(Op, Plain, Plain) -> Plain>(
    fpu: &Fpu<A>,
    ring: Ring,
    d: usize,
)
    requires
        fpu.rounds(),
        ring.wf(),
        1 <= d <= ring.cells.len() - 2,
        ring.cells.len() <= 0x40_0000,
        ring.history(d as int).is_number(),
        fpu.sub(ring.history(d - 1), ring.history(d as int)).is_finite(),
    ensures
        ring.reading(fpu, Plain::from_index(d)).equals(ring.history(d as int)),
{
    let len = ring.cells.len() as int;
    let h = ring.head;
    let i = h - 1 - d + len;
    plain::lemma_small_values();
    ring.lemma_whole_delay_passes(d);
    plain::lemma_exact_index(i as usize);
    plain::lemma_exact_int(h as i64);
    plain::lemma_exact_int((h - 1) as i64);
    plain::lemma_exact_int((h - 1 - d) as i64);
    plain::lemma_exact_int(i as i64);
    plain::lemma_exact_int(len as i64);
    plain::lemma_exact_int(d as i64);
    let u = plain::unit();
    let k = d as int;
    assert(h * u - u == (h - 1) * u && (h - 1) * u - k * u == (h - 1 - k) * u && (h - 1 - k) * u
        + len * u == i * u) by (nonlinear_arith)
        requires
            i == h - 1 - k + len,
    ;
    let a = fpu.sub(Plain::from_index(h as usize), num(ONE));
    fpu.lemma_sub_side(Plain::from_index(h as usize), num(ONE), Plain::from_int((h - 1) as i64));
    plain::lemma_equal_scaled(a, Plain::from_int((h - 1) as i64));
    let b = fpu.sub(a, Plain::from_index(d));
    fpu.lemma_sub_side(a, Plain::from_index(d), Plain::from_int((h - 1 - d) as i64));
    plain::lemma_equal_scaled(b, Plain::from_int((h - 1 - d) as i64));
    let pos = fpu.add(b, Plain::from_index(len as usize));
    let at = Plain::from_index(i as usize);
    fpu.lemma_add_side(b, Plain::from_index(len as usize), at);
    plain::lemma_equal_scaled(pos, at);
    plain::lemma_scaled_sign(at);
    assert(i * u > 0) by (nonlinear_arith)
        requires
            i > 0,
            u > 0,
    ;
    assert(pos == at);
    fpu.lemma_sub_side(at, at, num(ZERO));
    let frac = fpu.sub(at, at);
    let (x, y) = (ring.history(k), ring.history(k - 1));
    div_mod::lemma_mod_add_multiples_vanish(h - 1 - k, len);
    div_mod::lemma_mod_add_multiples_vanish(h - 1 - (k - 1), len);
    fpu.lemma_none_of(fpu.sub(y, x), frac);
    fpu.lemma_nothing_added(x, fpu.mul(fpu.sub(y, x), frac));
}

} // verus!
