use vstd::prelude::*;

verus! {

/// The smoothness of a channel is `smoothness / SMOOTHNESS_ONE`, a fraction in (0, 1).
pub const SMOOTHNESS_ONE: i128 = 65536;

/// `n * s / SMOOTHNESS_ONE`, rounded up.
pub open spec fn scaled_up(n: int, s: int) -> int {
    (n * s + (SMOOTHNESS_ONE - 1) as int) / (SMOOTHNESS_ONE as int)
}

/// One relaxation step: `value` moves toward `target` by the fraction `smoothness` of the gap,
/// rounded away from `value`, so that a non-zero gap always shrinks.
pub open spec fn relax(value: int, target: int, smoothness: int) -> int {
    if target >= value {
        value + scaled_up(target - value, smoothness)
    } else {
        value - scaled_up(value - target, smoothness)
    }
}

pub open spec fn clamp(v: int, min: int, max: int) -> int {
    if v > max {
        max
    } else if v < min {
        min
    } else {
        v
    }
}

pub open spec fn dist(a: int, b: int) -> int {
    if a >= b { a - b } else { b - a }
}

/// For a gap `n` and a smoothness in (0, 1), the rounded-up step lies in `1..=n`.
proof fn lemma_scaled_up_bounds(n: int, s: int)
    requires
        n >= 0,
        0 < s < SMOOTHNESS_ONE,
    ensures
        0 <= scaled_up(n, s) <= n,
        n > 0 ==> scaled_up(n, s) >= 1,
{
    assert(0 <= n * s <= n * (SMOOTHNESS_ONE - 1)) by (nonlinear_arith)
        requires n >= 0, 0 < s < SMOOTHNESS_ONE;
    assert(n > 0 ==> n * s >= 1) by (nonlinear_arith)
        requires n >= 0, 0 < s;
    let p = n * s;
    let q = (p + (SMOOTHNESS_ONE - 1) as int) / (SMOOTHNESS_ONE as int);
    assert(q * 65536 <= p + 65535 < q * 65536 + 65536);
    assert(q <= n) by (nonlinear_arith)
        requires q * 65536 <= p + 65535, p <= n * 65535, n >= 0;
}

/// A relaxation step lands between `value` and `target`, and strictly closer to `target`
/// whenever the two differ.
pub proof fn lemma_relax_approaches(value: int, target: int, smoothness: int)
    requires
        0 < smoothness < SMOOTHNESS_ONE,
    ensures
        value <= target ==> value <= relax(value, target, smoothness) <= target,
        target <= value ==> target <= relax(value, target, smoothness) <= value,
        value != target ==> dist(relax(value, target, smoothness), target) < dist(value, target),
{
    if target >= value {
        lemma_scaled_up_bounds(target - value, smoothness);
    } else {
        lemma_scaled_up_bounds(value - target, smoothness);
    }
}

/// Computes `relax(value, target, smoothness)`.
fn relax_exec(value: i64, target: i64, smoothness: u16) -> (r: i64)
    requires
        smoothness > 0,
    ensures
        r == relax(value as int, target as int, smoothness as int),
{
    proof {
        lemma_relax_approaches(value as int, target as int, smoothness as int);
    }
    let s = smoothness as i128;
    let v = value as i128;
    let t = target as i128;
    if t >= v {
        let n = t - v;
        proof {
            lemma_scaled_up_bounds(n as int, s as int);
            assert(0 <= n * s <= n * (SMOOTHNESS_ONE - 1)) by (nonlinear_arith)
                requires 0 <= n <= 0x10000000000000000, 0 < s < SMOOTHNESS_ONE;
        }
        (v + (n * s + (SMOOTHNESS_ONE - 1)) / SMOOTHNESS_ONE) as i64
    } else {
        let n = v - t;
        proof {
            lemma_scaled_up_bounds(n as int, s as int);
            assert(0 <= n * s <= n * (SMOOTHNESS_ONE - 1)) by (nonlinear_arith)
                requires 0 <= n <= 0x10000000000000000, 0 < s < SMOOTHNESS_ONE;
        }
        (v - (n * s + (SMOOTHNESS_ONE - 1)) / SMOOTHNESS_ONE) as i64
    }
}

/// The product of two 64-bit integers fits well within 128 bits.
proof fn lemma_product_fits(a: int, b: int)
    requires
        i64::MIN <= a <= i64::MAX,
        i64::MIN <= b <= i64::MAX,
    ensures
        -0x40000000000000000000000000000000 <= a * b <= 0x40000000000000000000000000000000,
{
    assert(-0x40000000000000000000000000000000 <= a * b <= 0x40000000000000000000000000000000)
        by (nonlinear_arith)
        requires
            -0x8000000000000000 <= a <= 0x8000000000000000,
            -0x8000000000000000 <= b <= 0x8000000000000000;
}

/// The abstract state of an unbounded smoothing channel.
pub struct ChannelModel {
    pub value: int,
    pub target: int,
    pub speed: int,
    pub smoothness: int,
}

impl ChannelModel {
    pub open spec fn wf(self) -> bool {
        0 < self.smoothness < SMOOTHNESS_ONE
    }

    /// The state after one read: the value relaxes toward the target.
    pub open spec fn relaxed(self) -> ChannelModel {
        ChannelModel { value: relax(self.value, self.target, self.smoothness), ..self }
    }

    /// The state after an input of `delta`: the target moves by `delta * speed`.
    pub open spec fn changed(self, delta: int) -> ChannelModel {
        ChannelModel { target: self.target + delta * self.speed, ..self }
    }
}

/// An exponential smoothing channel: the target is driven from outside, and the value
/// follows it a fraction of the way on every read.
#[derive(Clone, Copy, Debug)]
pub struct SmoothValue {
    value: i64,
    target: i64,
    smoothness: u16,
    speed: i64,
}

impl View for SmoothValue {
    type V = ChannelModel;

    closed spec fn view(&self) -> ChannelModel {
        ChannelModel {
            value: self.value as int,
            target: self.target as int,
            speed: self.speed as int,
            smoothness: self.smoothness as int,
        }
    }
}

impl SmoothValue {
    /// A channel at rest at `value`; `smoothness` is a fraction of `SMOOTHNESS_ONE`.
    pub fn new(value: i64, speed: i64, smoothness: u16) -> (r: Self)
        requires
            smoothness > 0,
        ensures
            r@ == (ChannelModel {
                value: value as int,
                target: value as int,
                speed: speed as int,
                smoothness: smoothness as int,
            }),
            r@.wf(),
    {
        SmoothValue { value, target: value, smoothness, speed }
    }

    /// Moves the value one step toward the target and returns it.
    pub fn get(&mut self) -> (r: i64)
        requires
            old(self)@.wf(),
        ensures
            final(self)@ == old(self)@.relaxed(),
            r == final(self)@.value,
    {
        self.value = relax_exec(self.value, self.target, self.smoothness);
        self.value
    }

    /// Moves the target by `delta * speed`.
    pub fn change(&mut self, delta: i64)
        requires
            i64::MIN <= old(self)@.changed(delta as int).target <= i64::MAX,
        ensures
            final(self)@ == old(self)@.changed(delta as int),
    {
        proof {
            lemma_product_fits(delta as int, self.speed as int);
        }
        let t = self.target as i128 + delta as i128 * self.speed as i128;
        self.target = t as i64;
    }

    /// Moves the target by `delta * speed` where the new target is representable, and returns
    /// whether it did; otherwise leaves the channel as it is.
    pub fn try_change(&mut self, delta: i64) -> (r: bool)
        ensures
            r == (i64::MIN <= old(self)@.changed(delta as int).target <= i64::MAX),
            r ==> final(self)@ == old(self)@.changed(delta as int),
            !r ==> final(self)@ == old(self)@,
    {
        proof {
            lemma_product_fits(delta as int, self.speed as int);
        }
        let t = self.target as i128 + delta as i128 * self.speed as i128;
        if t < i64::MIN as i128 || t > i64::MAX as i128 {
            return false;
        }
        self.target = t as i64;
        true
    }
}


/// The abstract state of a smoothing channel whose target is kept within `[min, max]`.
pub struct BoundedModel {
    pub value: int,
    pub target: int,
    pub speed: int,
    pub smoothness: int,
    pub min: int,
    pub max: int,
}

impl BoundedModel {
    pub open spec fn wf(self) -> bool {
        &&& 0 < self.smoothness < SMOOTHNESS_ONE
        &&& self.min <= self.max
        &&& self.min <= self.value <= self.max
        &&& self.min <= self.target <= self.max
    }

    /// The state after one read: the value relaxes toward the target.
    pub open spec fn relaxed(self) -> BoundedModel {
        BoundedModel { value: relax(self.value, self.target, self.smoothness), ..self }
    }

    /// The state after an input of `delta`: the target moves by `delta * speed`, then is
    /// clamped to `[min, max]`.
    pub open spec fn changed(self, delta: int) -> BoundedModel {
        BoundedModel { target: clamp(self.target + delta * self.speed, self.min, self.max), ..self }
    }

    /// The state after `n` frames that each apply the input `delta` and then read the value.
    pub open spec fn driven(self, delta: int, n: nat) -> BoundedModel
        decreases n,
    {
        if n == 0 {
            self
        } else {
            self.driven(delta, (n - 1) as nat).changed(delta).relaxed()
        }
    }
}

impl ChannelModel {
    /// The state after `n` frames that each apply the input `delta` and then read the value.
    pub open spec fn driven(self, delta: int, n: nat) -> ChannelModel
        decreases n,
    {
        if n == 0 {
            self
        } else {
            self.driven(delta, (n - 1) as nat).changed(delta).relaxed()
        }
    }
}

/// An exponential smoothing channel whose target stays within `[min, max]`; since the value
/// only ever moves toward the target, it stays within those bounds too.
#[derive(Clone, Copy, Debug)]
pub struct SmoothValueBounded {
    value: i64,
    target: i64,
    speed: i64,
    smoothness: u16,
    min: i64,
    max: i64,
}

impl View for SmoothValueBounded {
    type V = BoundedModel;

    closed spec fn view(&self) -> BoundedModel {
        BoundedModel {
            value: self.value as int,
            target: self.target as int,
            speed: self.speed as int,
            smoothness: self.smoothness as int,
            min: self.min as int,
            max: self.max as int,
        }
    }
}

impl SmoothValueBounded {
    /// A channel at rest at `value` clamped to `[min, max]`.
    pub fn new(value: i64, speed: i64, smoothness: u16, min: i64, max: i64) -> (r: Self)
        requires
            smoothness > 0,
            min <= max,
        ensures
            r@ == (BoundedModel {
                value: clamp(value as int, min as int, max as int),
                target: clamp(value as int, min as int, max as int),
                speed: speed as int,
                smoothness: smoothness as int,
                min: min as int,
                max: max as int,
            }),
            r@.wf(),
    {
        let v = if value > max {
            max
        } else if value < min {
            min
        } else {
            value
        };
        SmoothValueBounded { value: v, target: v, speed, smoothness, min, max }
    }

    /// Moves the value one step toward the target and returns it.
    pub fn get(&mut self) -> (r: i64)
        requires
            old(self)@.wf(),
        ensures
            final(self)@ == old(self)@.relaxed(),
            final(self)@.wf(),
            r == final(self)@.value,
    {
        proof {
            lemma_relax_approaches(self.value as int, self.target as int, self.smoothness as int);
        }
        self.value = relax_exec(self.value, self.target, self.smoothness);
        self.value
    }

    /// Moves the target by `delta * speed`, then clamps it to `[min, max]`.
    pub fn change(&mut self, delta: i64)
        requires
            old(self)@.wf(),
        ensures
            final(self)@ == old(self)@.changed(delta as int),
            final(self)@.wf(),
    {
        proof {
            lemma_product_fits(delta as int, self.speed as int);
        }
        let t = self.target as i128 + delta as i128 * self.speed as i128;
        if t > self.max as i128 {
            self.target = self.max;
        } else if t < self.min as i128 {
            self.target = self.min;
        } else {
            self.target = t as i64;
        }
    }
}

/// Under a constant input, every frame moves a bounded channel's value strictly closer to
/// its current target without passing it, and the value never leaves `[min, max]`.
pub proof fn lemma_bounded_drive_converges(m: BoundedModel, delta: int, n: nat)
    requires
        m.wf(),
    ensures
        forall|k: nat| k <= n ==> (#[trigger] m.driven(delta, k)).wf(),
        forall|k: nat|
            k < n ==> {
                let before = m.driven(delta, k).value;
                let after = #[trigger] m.driven(delta, k + 1);
                &&& before <= after.target ==> before <= after.value <= after.target
                &&& after.target <= before ==> after.target <= after.value <= before
                &&& before != after.target ==> dist(after.value, after.target) < dist(before, after.target)
            },
    decreases n,
{
    if n > 0 {
        lemma_bounded_drive_converges(m, delta, (n - 1) as nat);
        let prev = m.driven(delta, (n - 1) as nat);
        let c = prev.changed(delta);
        lemma_relax_approaches(c.value, c.target, c.smoothness);
        assert(m.driven(delta, n) == c.relaxed());
    }
}

/// However far the input drives a bounded channel, a read never returns more than `max`
/// nor less than `min`.
pub proof fn lemma_bounded_read_within(m: BoundedModel, delta: int)
    requires
        m.wf(),
    ensures
        m.changed(delta).target <= m.max,
        m.min <= m.changed(delta).relaxed().value <= m.max,
{
    let c = m.changed(delta);
    lemma_relax_approaches(c.value, c.target, c.smoothness);
}

/// Under a constant input, every frame moves an unbounded channel's value strictly closer to
/// its current target without passing it.
pub proof fn lemma_drive_converges(m: ChannelModel, delta: int, n: nat)
    requires
        m.wf(),
    ensures
        forall|k: nat|
            k < n ==> {
                let before = m.driven(delta, k).value;
                let after = #[trigger] m.driven(delta, k + 1);
                &&& before <= after.target ==> before <= after.value <= after.target
                &&& after.target <= before ==> after.target <= after.value <= before
                &&& before != after.target ==> dist(after.value, after.target) < dist(before, after.target)
            },
    decreases n,
{
    if n > 0 {
        lemma_drive_converges(m, delta, (n - 1) as nat);
        let prev = m.driven(delta, (n - 1) as nat);
        let c = prev.changed(delta);
        assert(prev.smoothness == m.smoothness) by {
            lemma_driven_keeps_smoothness(m, delta, (n - 1) as nat);
        }
        lemma_relax_approaches(c.value, c.target, c.smoothness);
        assert(m.driven(delta, n) == c.relaxed());
    }
}

proof fn lemma_driven_keeps_smoothness(m: ChannelModel, delta: int, n: nat)
    ensures
        m.driven(delta, n).smoothness == m.smoothness,
    decreases n,
{
    if n > 0 {
        lemma_driven_keeps_smoothness(m, delta, (n - 1) as nat);
    }
}

} // verus!
