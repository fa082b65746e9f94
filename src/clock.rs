use vstd::prelude::*;
use vstd::arithmetic::power::pow;
use vstd::arithmetic::div_mod::{lemma_fundamental_div_mod, lemma_mod_pos_bound};

verus! {

/// The corruption clock: a repeating countdown, in nanoseconds. Each
/// successful corruption event multiplies its period by
/// `decay_num / decay_den` (a factor below one, rounded down to whole
/// nanoseconds); a firing that corrupts nothing leaves the period as it is.
pub struct CorruptionTimer {
    /// The current period.
    pub period: u64,
    /// Time counted so far towards the current period.
    pub elapsed: u64,
    pub decay_num: u64,
    pub decay_den: u64,
    /// The period the clock was started with.
    pub initial_period: Ghost<nat>,
    /// How many times the period has decayed: one per corruption event.
    pub events: Ghost<nat>,
}

/// One decay step: `p * num / den`, rounded down.
pub open spec fn decay_once(p: nat, num: nat, den: nat) -> nat {
    (p * num / den) as nat
}

/// The period after `n` decay steps from `p0`.
pub open spec fn decayed(p0: nat, num: nat, den: nat, n: nat) -> nat
    decreases n,
{
    if n == 0 {
        p0
    } else {
        decay_once(decayed(p0, num, den, (n - 1) as nat), num, den)
    }
}

proof fn lemma_decay_once_bounds(p: nat, num: nat, den: nat)
    requires
        0 < den,
        num < den,
    ensures
        decay_once(p, num, den) * den <= p * num,
        p * num < (decay_once(p, num, den) + 1) * den,
        decay_once(p, num, den) <= p,
{
    let x = (p * num) as int;
    let d = den as int;
    assert(0 <= x) by (nonlinear_arith)
        requires x == p * num, 0 <= p, 0 <= num;
    lemma_fundamental_div_mod(x, d);
    lemma_mod_pos_bound(x, d);
    let q = x / d;
    let m = x % d;
    assert(0 <= q) by (nonlinear_arith)
        requires x == d * q + m, 0 <= m < d, 0 <= x;
    assert(q * d <= x) by (nonlinear_arith)
        requires x == d * q + m, 0 <= m;
    assert(x < (q + 1) * d) by (nonlinear_arith)
        requires x == d * q + m, m < d;
    assert(x <= p * den) by (nonlinear_arith)
        requires x == p * num, num < den, 0 <= p;
    assert(q <= p) by (nonlinear_arith)
        requires q * den <= x, x <= p * den, 0 < den;
}

proof fn lemma_pow_nonneg(b: int, e: nat)
    requires
        0 <= b,
    ensures
        0 <= pow(b, e),
    decreases e,
{
    reveal(pow);
    if e > 0 {
        lemma_pow_nonneg(b, (e - 1) as nat);
        assert(0 <= b * pow(b, (e - 1) as nat)) by (nonlinear_arith)
            requires 0 <= b, 0 <= pow(b, (e - 1) as nat);
    }
}

/// Period decay: after `n` decay steps from period `p0` with factor `d = num / den`,
/// the period equals `p0 * d^n` up to rounding, and the rounding loses less
/// than one nanosecond per step:
/// `period * den^n <= p0 * num^n <= (period + n) * den^n`.
pub proof fn lemma_period_decay(p0: nat, num: nat, den: nat, n: nat)
    requires
        0 < den,
        num < den,
    ensures
        decayed(p0, num, den, n) * pow(den as int, n) <= p0 * pow(num as int, n),
        p0 * pow(num as int, n) <= (decayed(p0, num, den, n) + n) * pow(den as int, n),
    decreases n,
{
    reveal(pow);
    if n > 0 {
        let k = (n - 1) as nat;
        lemma_period_decay(p0, num, den, k);
        let pk = decayed(p0, num, den, k);
        let pn = decayed(p0, num, den, n);
        lemma_decay_once_bounds(pk, num, den);
        let dk = pow(den as int, k);
        let nk = pow(num as int, k);
        vstd::arithmetic::power::lemma_pow_positive(den as int, k);
        lemma_pow_nonneg(num as int, k);
        assert(pow(den as int, n) == den * dk);
        assert(pow(num as int, n) == num * nk);
        assert(pn * (den * dk) <= p0 * (num * nk)) by (nonlinear_arith)
            requires
                pn * den <= pk * num,
                pk * dk <= p0 * nk,
                0 < dk,
                0 <= num,
                0 <= nk,
        ;
        assert(p0 * (num * nk) <= (pn + n) * (den * dk)) by (nonlinear_arith)
            requires
                p0 * nk <= (pk + k) * dk,
                pk * num < (pn + 1) * den,
                n == k + 1,
                num < den,
                0 <= num,
                0 <= k,
                0 < dk,
                0 <= pk,
        ;
    }
}

impl CorruptionTimer {
    pub open spec fn wf(&self) -> bool {
        &&& 0 < self.decay_den
        &&& self.decay_num < self.decay_den
        &&& self.elapsed <= self.period
        &&& self.period == decayed(
            self.initial_period@,
            self.decay_num as nat,
            self.decay_den as nat,
            self.events@,
        )
    }

    /// A clock that first fires after `period` nanoseconds, with decay factor
    /// `decay_num / decay_den`.
    pub fn new(period: u64, decay_num: u64, decay_den: u64) -> (r: CorruptionTimer)
        requires
            decay_num < decay_den,
        ensures
            r.wf(),
            r.period == period,
            r.elapsed == 0,
            r.decay_num == decay_num,
            r.decay_den == decay_den,
            r.initial_period@ == period,
            r.events@ == 0,
    {
        CorruptionTimer {
            period,
            elapsed: 0,
            decay_num,
            decay_den,
            initial_period: Ghost(period as nat),
            events: Ghost(0),
        }
    }

    /// Counts `delta` nanoseconds. When the current period is used up, the
    /// clock fires once and the countdown restarts from zero (time beyond the
    /// period is dropped). The period itself does not change here. Returns
    /// whether it fired.
    pub fn advance(&mut self, delta: u64) -> (fired: bool)
        requires
            old(self).wf(),
        ensures
            final(self).wf(),
            fired == (delta >= old(self).period - old(self).elapsed),
            final(self).period == old(self).period,
            final(self).decay_num == old(self).decay_num,
            final(self).decay_den == old(self).decay_den,
            final(self).initial_period == old(self).initial_period,
            final(self).events == old(self).events,
            fired ==> final(self).elapsed == 0,
            !fired ==> final(self).elapsed == old(self).elapsed + delta,
    {
        if delta >= self.period - self.elapsed {
            self.elapsed = 0;
            true
        } else {
            self.elapsed = self.elapsed + delta;
            false
        }
    }

    /// Records one corruption event: the period is multiplied by the decay
    /// factor, rounded down, and the countdown restarts from zero.
    pub fn decay(&mut self)
        requires
            old(self).wf(),
        ensures
            final(self).wf(),
            final(self).period == decay_once(
                old(self).period as nat,
                old(self).decay_num as nat,
                old(self).decay_den as nat,
            ),
            final(self).elapsed == 0,
            final(self).decay_num == old(self).decay_num,
            final(self).decay_den == old(self).decay_den,
            final(self).initial_period == old(self).initial_period,
            final(self).events@ == old(self).events@ + 1,
    {
        proof {
            lemma_decay_once_bounds(self.period as nat, self.decay_num as nat, self.decay_den as nat);
            assert((self.period as int) * (self.decay_num as int) <= u64::MAX * u64::MAX)
                by (nonlinear_arith)
                requires
                    0 <= self.period <= u64::MAX,
                    0 <= self.decay_num <= u64::MAX,
            ;
        }
        let next = (self.period as u128) * (self.decay_num as u128) / (self.decay_den as u128);
        self.period = next as u64;
        self.elapsed = 0;
        self.events = Ghost(self.events@ + 1);
    }
}

/// What the decay law says of a running clock: after `events` corruption
/// events, its period is its starting period times
/// `(decay_num / decay_den)^events`, rounded down by less than one nanosecond
/// per event.
pub proof fn lemma_timer_period(t: CorruptionTimer)
    requires
        t.wf(),
    ensures
        t.period * pow(t.decay_den as int, t.events@) <= t.initial_period@ * pow(
            t.decay_num as int,
            t.events@,
        ),
        t.initial_period@ * pow(t.decay_num as int, t.events@) <= (t.period + t.events@) * pow(
            t.decay_den as int,
            t.events@,
        ),
{
    lemma_period_decay(t.initial_period@, t.decay_num as nat, t.decay_den as nat, t.events@);
}

} // verus!
