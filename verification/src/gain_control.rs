//! The gain ramp controller.
//!
//! [`GainControl`] applies a gain multiplier to each sample of an audio
//! stream and can transition that multiplier linearly from its current
//! value to a target over a scheduled number of samples. Its behaviour
//! is specified by a mathematical model [`GainModel`] with transition
//! functions [`sched`] (schedule a ramp) and [`advanced`] (consume one
//! sample); every method's contract pins the new state and the output
//! to those functions.

use crate::rational::{lemma_i64_product_bounded, lemma_pos_product, Rat, Ratio};
use vstd::prelude::*;

verus! {

/// The mathematical state of a controller: the gain applied to the next
/// sample, the gain the ramp converges to, the per-sample increment,
/// and the number of samples until the target is reached.
pub ghost struct GainModel {
    pub current_gain: Ratio,
    pub target_gain: Ratio,
    pub step: Ratio,
    pub samples_left: nat,
}

impl GainModel {
    /// The state invariant. A stable controller (no samples left) sits
    /// exactly on its target with a zero step. A ramping controller
    /// keeps its step on the same denominator as its current gain, so
    /// that each sample adds numerators exactly, and the remaining
    /// steps land exactly on the target:
    /// `current_gain + samples_left * step == target_gain`.
    pub open spec fn wf(self) -> bool {
        &&& self.current_gain.wf()
        &&& self.target_gain.wf()
        &&& self.step.wf()
        &&& (self.samples_left == 0 ==> self.current_gain == self.target_gain
            && self.step.num == 0)
        &&& (self.samples_left > 0 ==> self.step.den == self.current_gain.den
            && (self.current_gain.num + self.samples_left * self.step.num)
                * self.target_gain.den == self.target_gain.num * self.current_gain.den)
    }
}

/// The state of a freshly constructed controller: stable at `g`.
pub open spec fn init_model(g: Ratio) -> GainModel {
    GainModel {
        current_gain: g,
        target_gain: g,
        step: Ratio { num: 0, den: 1 },
        samples_left: 0,
    }
}

/// The state after scheduling a ramp to `g` over `n` samples. A ramp of
/// length 1 is an immediate jump. Otherwise the step is the exact
/// quotient `(g - current) / n`, and the current gain is rewritten to
/// the common denominator so that each sample adds numerators.
pub open spec fn sched(m: GainModel, g: Ratio, n: nat) -> GainModel {
    if n == 1 {
        GainModel {
            current_gain: g,
            target_gain: g,
            step: Ratio { num: 0, den: 1 },
            samples_left: 0,
        }
    } else {
        let c = m.current_gain;
        GainModel {
            current_gain: Ratio { num: c.num * g.den * n, den: c.den * g.den * n },
            target_gain: g,
            step: Ratio { num: g.num * c.den - c.num * g.den, den: c.den * g.den * n },
            samples_left: n,
        }
    }
}

/// The state after processing one sample: while ramping, the step is
/// added to the current gain; the sample that completes a ramp snaps
/// the current gain to exactly the target.
pub open spec fn advanced(m: GainModel) -> GainModel {
    if m.samples_left == 0 {
        m
    } else if m.samples_left == 1 {
        GainModel {
            current_gain: m.target_gain,
            target_gain: m.target_gain,
            step: Ratio { num: 0, den: 1 },
            samples_left: 0,
        }
    } else {
        GainModel {
            current_gain: Ratio {
                num: m.current_gain.num + m.step.num,
                den: m.current_gain.den,
            },
            target_gain: m.target_gain,
            step: m.step,
            samples_left: (m.samples_left - 1) as nat,
        }
    }
}

/// The output for one sample `x`: the input times the gain *after* this
/// sample's ramp movement.
pub open spec fn sample_out(m: GainModel, x: Ratio) -> Ratio {
    x.times(advanced(m).current_gain)
}

/// The state after processing `k` samples.
pub open spec fn advanced_by(m: GainModel, k: nat) -> GainModel
    decreases k,
{
    if k == 0 {
        m
    } else {
        advanced(advanced_by(m, (k - 1) as nat))
    }
}

/// The outputs of a block: sample `i` is scaled by the gain reached
/// after `i + 1` samples.
pub open spec fn block_out(m: GainModel, xs: Seq<Ratio>) -> Seq<Ratio> {
    Seq::new(xs.len(), |i: int| sample_out(advanced_by(m, i as nat), xs[i]))
}

/// The mathematical values of a sequence of rationals.
pub open spec fn ratios_of(s: Seq<Rat>) -> Seq<Ratio> {
    s.map_values(|r: Rat| r@)
}

/// Machine limit: the numerator the ramp ends on fits in 64 bits. Each
/// numerator on the way lies between the current one and it.
pub open spec fn ramp_end_fits(m: GainModel) -> bool {
    i64::MIN <= m.current_gain.num + m.samples_left * m.step.num <= i64::MAX
}

/// Machine limit: scaling `x` by the gain reached after this sample
/// stays within 64 bits.
pub open spec fn sample_fits(m: GainModel, x: Ratio) -> bool {
    let c = advanced(m).current_gain;
    &&& i64::MIN <= x.num * c.num <= i64::MAX
    &&& x.den * c.den <= i64::MAX
}

/// Machine limit: scaling each sample of a block in turn stays within
/// 64 bits.
pub open spec fn block_fits(m: GainModel, xs: Seq<Ratio>) -> bool {
    forall|i: int|
        0 <= i < xs.len() ==> sample_fits(#[trigger] advanced_by(m, i as nat), xs[i])
}

/// Machine limit: the numerators and denominators a ramp to `g` over
/// `n` samples is built from fit in 64 bits.
pub open spec fn sched_fits(m: GainModel, g: Ratio, n: nat) -> bool {
    n == 1 || {
        let c = m.current_gain;
        &&& i64::MIN <= g.num * c.den - c.num * g.den <= i64::MAX
        &&& c.den * g.den * n <= i64::MAX
        &&& i64::MIN <= c.num * g.den * n <= i64::MAX
        &&& i64::MIN <= g.num * c.den * n <= i64::MAX
    }
}

/// Processing one sample preserves the state invariant.
pub proof fn lemma_advanced_wf(m: GainModel)
    requires
        m.wf(),
    ensures
        advanced(m).wf(),
{
    if m.samples_left >= 2 {
        let l = m.samples_left as int;
        let s = m.step.num;
        let c = m.current_gain.num;
        let td = m.target_gain.den;
        assert((c + s + (l - 1) * s) * td == (c + l * s) * td) by (nonlinear_arith);
    }
}

/// Processing one sample keeps the ramp's final numerator, so the
/// machine limit on it is preserved.
pub proof fn lemma_advanced_end_fits(m: GainModel)
    requires
        m.wf(),
        ramp_end_fits(m),
        i64::MIN <= m.target_gain.num <= i64::MAX,
    ensures
        ramp_end_fits(advanced(m)),
{
    if m.samples_left >= 2 {
        let l = m.samples_left as int;
        let s = m.step.num;
        let c = m.current_gain.num;
        assert(c + s + (l - 1) * s == c + l * s) by (nonlinear_arith);
    }
}

/// One step's movement stays between the current numerator and the
/// ramp's final numerator, so it fits in 64 bits.
pub proof fn lemma_step_num_fits(m: GainModel)
    by (nonlinear_arith)
    requires
        m.samples_left >= 1,
        i64::MIN <= m.current_gain.num <= i64::MAX,
        ramp_end_fits(m),
    ensures
        i64::MIN <= m.current_gain.num + m.step.num <= i64::MAX,
{
}

/// Scheduling a ramp preserves the state invariant.
pub proof fn lemma_sched_wf(m: GainModel, g: Ratio, n: nat)
    requires
        m.wf(),
        g.wf(),
        n >= 1,
    ensures
        sched(m, g, n).wf(),
{
    if n >= 2 {
        let cn = m.current_gain.num;
        let cd = m.current_gain.den;
        let tn = g.num;
        let td = g.den;
        let ni = n as int;
        lemma_pos_product(cd, td);
        lemma_pos_product(cd * td, ni);
        assert((cn * td * ni + ni * (tn * cd - cn * td)) * td == tn * (cd * td * ni))
            by (nonlinear_arith);
    }
}

/// The gain ramp controller. It owns the current gain, the target the
/// ramp converges to, the per-sample step, and the count of samples
/// until the target is reached.
pub struct GainControl {
    current_gain: Rat,
    target_gain: Rat,
    step: Rat,
    samples_left: usize,
}

impl View for GainControl {
    type V = GainModel;

    closed spec fn view(&self) -> GainModel {
        GainModel {
            current_gain: self.current_gain@,
            target_gain: self.target_gain@,
            step: self.step@,
            samples_left: self.samples_left as nat,
        }
    }
}

impl GainControl {
    /// Builds a controller stable at `initial_gain`.
    pub fn new(initial_gain: Rat) -> (r: GainControl)
        requires
            initial_gain@.wf(),
        ensures
            r@ == init_model(initial_gain@),
            r@.wf(),
            ramp_end_fits(r@),
    {
        GainControl {
            current_gain: initial_gain,
            target_gain: initial_gain,
            step: Rat { num: 0, den: 1 },
            samples_left: 0,
        }
    }

    /// Schedules a linear ramp from the current gain to `new_gain` over
    /// `ramp_length` samples, discarding any ramp in flight. A ramp of
    /// length 1 jumps immediately.
    pub fn set_gain(&mut self, new_gain: Rat, ramp_length: usize)
        requires
            old(self)@.wf(),
            new_gain@.wf(),
            ramp_length >= 1,
            sched_fits(old(self)@, new_gain@, ramp_length as nat),
        ensures
            final(self)@ == sched(old(self)@, new_gain@, ramp_length as nat),
            final(self)@.wf(),
            ramp_end_fits(final(self)@),
    {
        proof {
            lemma_sched_wf(old(self)@, new_gain@, ramp_length as nat);
        }
        if ramp_length == 1 {
            *self = GainControl {
                current_gain: new_gain,
                target_gain: new_gain,
                step: Rat { num: 0, den: 1 },
                samples_left: 0,
            };
        } else {
            let ghost cni: int = self@.current_gain.num;
            let ghost cdi: int = self@.current_gain.den;
            let ghost tni: int = new_gain@.num;
            let ghost tdi: int = new_gain@.den;
            let ghost ni: int = ramp_length as int;
            let cn = self.current_gain.num as i128;
            let cd = self.current_gain.den as i128;
            let tn = new_gain.num as i128;
            let td = new_gain.den as i128;
            let n = ramp_length as i128;
            proof {
                lemma_i64_product_bounded(tni, cdi);
                lemma_i64_product_bounded(cni, tdi);
                lemma_i64_product_bounded(cdi, tdi);
                lemma_pos_product(cdi, tdi);
                lemma_pos_product(cdi * tdi, ni);
            }
            let step_num = tn * cd - cn * td;
            let den = (cd * td) * n;
            let cur_num = (cn * td) * n;
            *self = GainControl {
                current_gain: Rat { num: cur_num as i64, den: den as i64 },
                target_gain: new_gain,
                step: Rat { num: step_num as i64, den: den as i64 },
                samples_left: ramp_length,
            };
            proof {
                assert(cni * tdi * ni + ni * (tni * cdi - cni * tdi) == tni * cdi * ni)
                    by (nonlinear_arith);
            }
        }
    }

    /// Processes one sample: advances the ramp by one step (snapping to
    /// the target on the last one) and returns `x` scaled by the
    /// updated gain.
    pub fn process_sample(&mut self, x: Rat) -> (y: Rat)
        requires
            old(self)@.wf(),
            ramp_end_fits(old(self)@),
            x@.wf(),
            sample_fits(old(self)@, x@),
        ensures
            final(self)@ == advanced(old(self)@),
            final(self)@.wf(),
            ramp_end_fits(final(self)@),
            y@ == sample_out(old(self)@, x@),
            y@.wf(),
    {
        proof {
            lemma_advanced_wf(old(self)@);
            lemma_advanced_end_fits(old(self)@);
        }
        if self.samples_left > 0 {
            proof {
                lemma_step_num_fits(old(self)@);
            }
            self.current_gain = Rat {
                num: self.current_gain.num + self.step.num,
                den: self.current_gain.den,
            };
            self.samples_left = self.samples_left - 1;
            if self.samples_left == 0 {
                self.current_gain = self.target_gain;
                self.step = Rat { num: 0, den: 1 };
            }
        }
        proof {
            lemma_pos_product(x@.den, advanced(old(self)@).current_gain.den);
        }
        Rat { num: x.num * self.current_gain.num, den: x.den * self.current_gain.den }
    }

    /// Processes a block: writes `output[i] = x * gain` for each input
    /// sample in order, advancing the ramp sample by sample exactly as
    /// repeated `process_sample` calls would.
    pub fn process_block(&mut self, input: &Vec<Rat>, output: &mut Vec<Rat>)
        requires
            old(self)@.wf(),
            ramp_end_fits(old(self)@),
            input@.len() == old(output)@.len(),
            forall|i: int| 0 <= i < input@.len() ==> (#[trigger] input@[i])@.wf(),
            block_fits(old(self)@, ratios_of(input@)),
        ensures
            final(self)@ == advanced_by(old(self)@, input@.len() as nat),
            final(self)@.wf(),
            ramp_end_fits(final(self)@),
            final(output)@.len() == old(output)@.len(),
            ratios_of(final(output)@) == block_out(old(self)@, ratios_of(input@)),
    {
        let ghost m0 = self@;
        let ghost xs = ratios_of(input@);
        let n = input.len();
        for i in 0..n
            invariant
                self@ == advanced_by(m0, i as nat),
                self@.wf(),
                ramp_end_fits(self@),
                input@.len() == n,
                output@.len() == n,
                xs == ratios_of(input@),
                m0.wf(),
                forall|j: int| 0 <= j < n ==> (#[trigger] input@[j])@.wf(),
                block_fits(m0, xs),
                forall|j: int| 0 <= j < i ==> (#[trigger] output@[j])@ == block_out(m0, xs)[j],
        {
            proof {
                let j: int = i as int;
                assert(sample_fits(advanced_by(m0, j as nat), xs[j]));
            }
            let y = self.process_sample(input[i]);
            output.set(i, y);
        }
        proof {
            assert(ratios_of(output@) =~= block_out(m0, xs));
        }
    }

    /// The gain that will multiply the next processed sample.
    pub fn current_gain(&self) -> (r: Rat)
        ensures
            r@ == self@.current_gain,
    {
        self.current_gain
    }

    /// How many samples remain until the target gain is reached; zero
    /// means stable.
    pub fn samples_left(&self) -> (r: usize)
        ensures
            r == self@.samples_left,
    {
        self.samples_left
    }
}

} // verus!
