//! Proved laws of the gain ramp controller.
//!
//! Each lemma states a property of the controller's mathematical model
//! ([`GainModel`] and its transition functions), so it holds of every
//! controller through the contracts of the executable methods.

use crate::gain_control::{
    advanced, advanced_by, block_out, init_model, lemma_advanced_wf, sample_out, sched, GainModel,
};
use crate::rational::Ratio;
use vstd::prelude::*;

verus! {

/// Stability at construction: a freshly constructed controller is
/// stable, scales any sample by its initial gain, and does not move.
pub proof fn lemma_initial_stability(g: Ratio, x: Ratio)
    requires
        g.wf(),
        x.wf(),
    ensures
        init_model(g).samples_left == 0,
        sample_out(init_model(g), x) == x.times(g),
        advanced(init_model(g)) == init_model(g),
{
}

/// Instant change: a ramp of length 1 jumps to the new gain at once;
/// the next sample is scaled by exactly that gain and the controller is
/// stable.
pub proof fn lemma_instant_change(m: GainModel, g: Ratio, x: Ratio)
    requires
        m.wf(),
        g.wf(),
        x.wf(),
    ensures
        sched(m, g, 1).samples_left == 0,
        sched(m, g, 1).current_gain == g,
        sample_out(sched(m, g, 1), x) == x.times(g),
        advanced(sched(m, g, 1)) == sched(m, g, 1),
{
}

/// During a ramp of length `n >= 2` the state keeps its exact shape:
/// after `k <= n - 1` samples the step and denominator are unchanged
/// and the numerator has moved by `k` steps.
proof fn lemma_ramp_progress(m: GainModel, t: Ratio, n: nat, k: nat)
    requires
        m.wf(),
        t.wf(),
        n >= 2,
        k <= n - 1,
    ensures
        advanced_by(sched(m, t, n), k).samples_left == n - k,
        advanced_by(sched(m, t, n), k).target_gain == t,
        advanced_by(sched(m, t, n), k).step == sched(m, t, n).step,
        advanced_by(sched(m, t, n), k).current_gain.den == sched(m, t, n).current_gain.den,
        advanced_by(sched(m, t, n), k).current_gain.num == sched(m, t, n).current_gain.num + k
            * sched(m, t, n).step.num,
    decreases k,
{
    let m1 = sched(m, t, n);
    if k > 0 {
        lemma_ramp_progress(m, t, n, (k - 1) as nat);
        let ki = k as int;
        let s = m1.step.num;
        assert(m1.current_gain.num + (ki - 1) * s + s == m1.current_gain.num + ki * s)
            by (nonlinear_arith);
    }
}

/// Linear ramp exactness: scheduling a ramp to `t` over `n` samples
/// from gain `g0` and processing `k` of them leaves the gain at exactly
/// `g0 + k * (t - g0) / n`, with `n - k` samples to go, so the `k`-th
/// unit sample's output is exactly that value; the sample that
/// completes the ramp leaves the gain at exactly `t`.
pub proof fn lemma_ramp_exactness(m: GainModel, t: Ratio, n: nat, k: nat)
    requires
        m.wf(),
        t.wf(),
        n >= 1,
        1 <= k <= n,
    ensures
        advanced_by(sched(m, t, n), k).samples_left == n - k,
        advanced_by(sched(m, t, n), k).current_gain.same_value(
            m.current_gain.plus(t.minus(m.current_gain).times_int(k as int).div_int(n as int)),
        ),
        sample_out(advanced_by(sched(m, t, n), (k - 1) as nat), (Ratio { num: 1, den: 1 }))
            .same_value(
            m.current_gain.plus(t.minus(m.current_gain).times_int(k as int).div_int(n as int)),
        ),
        k == n ==> advanced_by(sched(m, t, n), k).current_gain == t,
{
    assert(advanced_by(sched(m, t, n), k) == advanced(advanced_by(sched(m, t, n), (k - 1) as nat)));
    let c = m.current_gain;
    let cn = c.num;
    let cd = c.den;
    let tn = t.num;
    let td = t.den;
    let ki = k as int;
    let ni = n as int;
    let goal = c.plus(t.minus(c).times_int(ki).div_int(ni));
    assert(goal.num == cn * (td * cd * ni) + (tn * cd - cn * td) * ki * cd);
    assert(goal.den == cd * (td * cd * ni));
    if n == 1 {
        let m1 = sched(m, t, n);
        assert(advanced_by(m1, 1) == advanced(advanced_by(m1, 0)));
        assert(advanced_by(m1, k).current_gain == t);
        assert(tn * (cd * (td * cd * 1)) == (cn * (td * cd * 1) + (tn * cd - cn * td) * 1 * cd)
            * td) by (nonlinear_arith);
    } else {
        let m1 = sched(m, t, n);
        let s = m1.step.num;
        let u = cn * td * ni + ki * s;
        let d = cd * td * ni;
        assert(goal.num == cd * u) by (nonlinear_arith)
            requires
                goal.num == cn * (td * cd * ni) + s * ki * cd,
                u == cn * td * ni + ki * s,
        ;
        assert(goal.den == cd * d) by (nonlinear_arith)
            requires
                goal.den == cd * (td * cd * ni),
                d == cd * td * ni,
        ;
        if k < n {
            lemma_ramp_progress(m, t, n, k);
            assert(u * (cd * d) == (cd * u) * d) by (nonlinear_arith);
        } else {
            lemma_ramp_progress(m, t, n, (n - 1) as nat);
            let mk1 = advanced_by(m1, (n - 1) as nat);
            assert(mk1.samples_left == 1);
            assert(advanced_by(m1, n).current_gain == t);
            assert(tn * (cd * d) == (cd * u) * td) by {
                assert(u * td == tn * d) by (nonlinear_arith)
                    requires
                        u == cn * td * ni + ki * s,
                        ki == ni,
                        s == tn * cd - cn * td,
                        d == cd * td * ni,
                ;
                assert(tn * (cd * d) == cd * (tn * d)) by (nonlinear_arith);
                assert((cd * u) * td == cd * (u * td)) by (nonlinear_arith);
            }
        }
    }
}

/// Processing `a + b` samples is processing `a`, then `b`: the state a
/// block ends in does not depend on how the stream was chunked.
pub proof fn lemma_advanced_by_compose(m: GainModel, a: nat, b: nat)
    ensures
        advanced_by(m, a + b) == advanced_by(advanced_by(m, a), b),
    decreases b,
{
    if b > 0 {
        lemma_advanced_by_compose(m, a, (b - 1) as nat);
        assert(advanced_by(m, a + b) == advanced(advanced_by(m, (a + b - 1) as nat)));
    }
}

/// Chunking invariance: splitting a stream into two blocks gives the
/// same final state and the same concatenated outputs as one block.
pub proof fn lemma_chunking(m: GainModel, xs: Seq<Ratio>, ys: Seq<Ratio>)
    ensures
        advanced_by(m, xs.len() + ys.len()) == advanced_by(advanced_by(m, xs.len()), ys.len()),
        block_out(m, xs + ys) == block_out(m, xs) + block_out(advanced_by(m, xs.len()), ys),
{
    lemma_advanced_by_compose(m, xs.len(), ys.len());
    let whole = block_out(m, xs + ys);
    let parts = block_out(m, xs) + block_out(advanced_by(m, xs.len()), ys);
    assert forall|i: int| 0 <= i < whole.len() implies whole[i] == parts[i] by {
        if i < xs.len() {
            assert((xs + ys)[i] == xs[i]);
        } else {
            lemma_advanced_by_compose(m, xs.len(), (i - xs.len()) as nat);
            assert((xs + ys)[i] == ys[i - xs.len()]);
        }
    }
    assert(whole =~= parts);
}

/// A stable controller is a fixed point of sample processing.
proof fn lemma_stable_stays(m: GainModel, k: nat)
    requires
        m.samples_left == 0,
    ensures
        advanced_by(m, k) == m,
    decreases k,
{
    if k > 0 {
        lemma_stable_stays(m, (k - 1) as nat);
    }
}

/// Terminal convergence: once at least `samples_left` further samples
/// are processed, the ramp is complete and the gain sits exactly on the
/// scheduled target, with no residual drift.
pub proof fn lemma_terminal_convergence(m: GainModel, k: nat)
    requires
        m.wf(),
        k >= m.samples_left,
    ensures
        advanced_by(m, k).samples_left == 0,
        advanced_by(m, k).current_gain == m.target_gain,
        advanced_by(m, k).target_gain == m.target_gain,
    decreases k,
{
    if m.samples_left == 0 {
        lemma_stable_stays(m, k);
    } else {
        lemma_advanced_wf(m);
        lemma_advanced_by_compose(m, 1nat, (k - 1) as nat);
        assert(advanced_by(m, 1) == advanced(advanced_by(m, 0)));
        lemma_terminal_convergence(advanced(m), (k - 1) as nat);
    }
}

/// Re-scheduling mid-ramp discards the prior trajectory: the new state
/// depends only on the gain at the moment of re-scheduling, and the new
/// step is exactly `(g - current) / n`.
pub proof fn lemma_reschedule(m: GainModel, g: Ratio, n: nat)
    requires
        m.wf(),
        g.wf(),
        n >= 1,
    ensures
        sched(m, g, n) == sched(init_model(m.current_gain), g, n),
        n >= 2 ==> sched(m, g, n).step.same_value(g.minus(m.current_gain).div_int(n as int)),
{
    if n >= 2 {
        let c = m.current_gain;
        let s = g.num * c.den - c.num * g.den;
        let ni = n as int;
        assert(s * (g.den * c.den * ni) == s * (c.den * g.den * ni)) by (nonlinear_arith);
    }
}

} // verus!
