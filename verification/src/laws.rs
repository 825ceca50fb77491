//! Laws about sequences of exact rationals: the arithmetic-progression
//! and endpoint properties of the generator, proved for [`Rat`]
//! wherever its arithmetic stays exact.

use vstd::prelude::*;

use crate::num::{
    add_exact, div_exact, fits_i64, rat_add, rat_div, rat_from_count, rat_sub, sub_exact, Rat,
};
use crate::{linspace_step, spaced_seq, value_at};

verus! {

/// Every addition performed while stepping `k` times from `c` by `s`
/// stays exact (no overflow fallback).
pub open spec fn chain_exact(c: Rat, s: Rat, k: nat) -> bool {
    forall|i: nat| i < k ==> #[trigger] add_exact(value_at(c, s, i), s)
}

/// Multiplying two equal values by the same nonzero factor can be
/// cancelled.
proof fn lemma_mul_cancel(c: int, x: int, y: int)
    by (nonlinear_arith)
    requires
        c != 0,
        c * x == c * y,
    ensures
        x == y,
{
}

/// Arithmetic progression, value form: advancing a rational by one
/// step and subtracting the rational again leaves exactly the step,
/// as a value, whenever both operations stay exact.
pub proof fn lemma_step_difference(x: Rat, s: Rat)
    requires
        x.valid(),
        s.valid(),
        add_exact(x, s),
        sub_exact(rat_add(x, s), x),
    ensures
        rat_sub(rat_add(x, s), x).same_value(s),
{
    let v = rat_add(x, s);
    let w = rat_sub(v, x);
    assert(v.num == x.num * s.den + s.num * x.den && v.den == x.den * s.den);
    assert(w.num == v.num * x.den - x.num * v.den && w.den == v.den * x.den);
    assert(w.num * s.den == s.num * w.den) by (nonlinear_arith)
        requires
            v.num == x.num * s.den + s.num * x.den,
            v.den == x.den * s.den,
            w.num == v.num * x.den - x.num * v.den,
            w.den == v.den * x.den,
    ;
}

/// After `k` exact steps from `c` by `s` the value reached is
/// `c + k * s`, stated by cross multiplication against the components
/// of the start and the step.
proof fn lemma_value_at_affine(c: Rat, s: Rat, k: nat)
    requires
        c.valid(),
        s.valid(),
        chain_exact(c, s, k),
    ensures
        value_at(c, s, k).valid(),
        value_at(c, s, k).num * (c.den * s.den) == (c.num * s.den + k * (s.num * c.den))
            * value_at(c, s, k).den,
    decreases k,
{
    if k == 0 {
        assert(value_at(c, s, 0) == c);
        assert(c.num * (c.den * s.den) == (c.num * s.den + 0 * (s.num * c.den)) * c.den)
            by (nonlinear_arith);
    } else {
        let prev = value_at(c, s, (k - 1) as nat);
        assert(chain_exact(c, s, (k - 1) as nat)) by {
            assert forall|i: nat| i < (k - 1) as nat implies #[trigger] add_exact(
                value_at(c, s, i),
                s,
            ) by {
                assert(i < k);
            }
        }
        lemma_value_at_affine(c, s, (k - 1) as nat);
        assert(add_exact(value_at(c, s, ((k - 1) as nat)), s));
        let w = value_at(c, s, k);
        assert(w == rat_add(prev, s));
        assert(w.num == prev.num * s.den + s.num * prev.den && w.den == prev.den * s.den);
        assert(w.den != 0) by (nonlinear_arith)
            requires
                prev.den != 0,
                s.den != 0,
                w.den == prev.den * s.den,
        ;
        let j: int = k - 1;
        let pn: int = prev.num as int;
        let pd: int = prev.den as int;
        let wn: int = w.num as int;
        let wd: int = w.den as int;
        let cn: int = c.num as int;
        let cd: int = c.den as int;
        let sn: int = s.num as int;
        let sd: int = s.den as int;
        let base: int = cn * sd;
        let slope: int = sn * cd;
        let q: int = pd * sd;
        assert(pn * (cd * sd) == (base + j * slope) * pd);
        assert(wn * (cd * sd) == (pn * (cd * sd)) * sd + sn * (pd * (cd * sd)))
            by (nonlinear_arith)
            requires
                wn == pn * sd + sn * pd,
        ;
        assert((pn * (cd * sd)) * sd == ((base + j * slope) * pd) * sd) by (nonlinear_arith)
            requires
                pn * (cd * sd) == (base + j * slope) * pd,
        ;
        assert(((base + j * slope) * pd) * sd == (base + j * slope) * q) by (nonlinear_arith)
            requires
                q == pd * sd,
        ;
        assert(sn * (pd * (cd * sd)) == slope * q) by (nonlinear_arith)
            requires
                slope == sn * cd,
                q == pd * sd,
        ;
        assert((base + j * slope) * q + slope * q == (base + (j + 1) * slope) * q)
            by (nonlinear_arith);
        assert(wn * (cd * sd) == (base + (j + 1) * slope) * q);
        assert((base + (j + 1) * slope) * q == (base + k * slope) * wd) by (nonlinear_arith)
            requires
                k == j + 1,
                q == wd,
        ;
        assert(wn * (cd * sd) == (base + k * slope) * wd);
    }
}

/// Arithmetic progression on the emitted sequence: the difference
/// between consecutive emitted rationals denotes the same value as the
/// step, wherever the arithmetic stays exact.
pub proof fn lemma_rat_progression(start: Rat, step: Rat, n: nat, i: int)
    requires
        start.valid(),
        step.valid(),
        0 <= i,
        i + 1 < n,
        chain_exact(start, step, (i + 1) as nat),
        sub_exact(rat_add(value_at(start, step, i as nat), step), value_at(start, step, i as nat)),
    ensures
        rat_sub(spaced_seq(start, step, n)[i + 1], spaced_seq(start, step, n)[i]).same_value(step),
{
    assert(chain_exact(start, step, i as nat)) by {
        assert forall|j: nat| j < i as nat implies #[trigger] add_exact(
            value_at(start, step, j),
            step,
        ) by {
            assert(j < (i + 1) as nat);
        }
    }
    lemma_value_at_affine(start, step, i as nat);
    let v = value_at(start, step, i as nat);
    assert(add_exact(v, step));
    assert(value_at(start, step, (i + 1) as nat) == rat_add(v, step));
    lemma_step_difference(v, step);
}

/// Endpoint: the sequence of a generator over `a .. b` with `n >= 2`
/// elements starts exactly at `a`, and ends at a rational denoting
/// exactly the value of `b`, as long as every arithmetic operation
/// involved stays exact.
pub proof fn lemma_rat_endpoints(a: Rat, b: Rat, n: usize)
    requires
        a.valid(),
        b.valid(),
        2 <= n,
        n as int <= i64::MAX as int,
        sub_exact(b, a),
        div_exact(rat_sub(b, a), rat_sub(rat_from_count(n), rat_from_count(1))),
        chain_exact(a, linspace_step(a, b, n), (n - 1) as nat),
    ensures
        spaced_seq(a, linspace_step(a, b, n), n as nat)[0] == a,
        spaced_seq(a, linspace_step(a, b, n), n as nat)[n - 1].same_value(b),
{
    let s = linspace_step(a, b, n);
    let cnt = rat_from_count(n);
    let one = rat_from_count(1);
    assert(cnt.num == n && cnt.den == 1);
    assert(one.num == 1 && one.den == 1);
    let d = rat_sub(cnt, one);
    assert(d.num == n - 1 && d.den == 1);
    let diff = rat_sub(b, a);
    assert(s == rat_div(diff, d));
    let k: int = n - 1;
    let an: int = a.num as int;
    let ad: int = a.den as int;
    let bn: int = b.num as int;
    let bd: int = b.den as int;
    let dn: int = bn * ad - an * bd;
    let de: int = bd * ad;
    assert(diff.num == dn && diff.den == de);
    assert(fits_i64(diff.num * d.den) && fits_i64(diff.den * d.num));
    assert(s.num == diff.num * d.den && s.den == diff.den * d.num);
    assert(s.num == dn && s.den == de * k) by (nonlinear_arith)
        requires
            s.num == diff.num * d.den,
            s.den == diff.den * d.num,
            diff.num == dn,
            diff.den == de,
            d.den == 1,
            d.num == k,
    ;
    assert(de * k != 0) by (nonlinear_arith)
        requires
            bd != 0,
            ad != 0,
            de == bd * ad,
            k >= 1,
    ;
    assert(s.valid());
    lemma_value_at_affine(a, s, (n - 1) as nat);
    let v = value_at(a, s, (n - 1) as nat);
    let vn: int = v.num as int;
    let vd: int = v.den as int;
    assert(vn * (ad * s.den) == (an * s.den + k * (s.num * ad)) * vd);
    assert(vn * (ad * (de * k)) == (an * (de * k) + k * (dn * ad)) * vd) by (nonlinear_arith)
        requires
            vn * (ad * s.den) == (an * s.den + k * (s.num * ad)) * vd,
            s.num == dn,
            s.den == de * k,
    ;
    let adsq: int = ad * ad;
    assert(an * (de * k) == k * ((an * bd) * ad)) by (nonlinear_arith)
        requires
            de == bd * ad,
    ;
    assert(k * (dn * ad) == k * ((bn * ad) * ad) - k * ((an * bd) * ad)) by (nonlinear_arith)
        requires
            dn == bn * ad - an * bd,
    ;
    assert(k * ((bn * ad) * ad) == k * (bn * adsq)) by (nonlinear_arith)
        requires
            adsq == ad * ad,
    ;
    assert(an * (de * k) + k * (dn * ad) == k * (bn * adsq));
    assert(ad * (de * k) == k * (bd * adsq)) by (nonlinear_arith)
        requires
            de == bd * ad,
            adsq == ad * ad,
    ;
    assert(vn * (ad * (de * k)) == vn * (k * (bd * adsq))) by (nonlinear_arith)
        requires
            ad * (de * k) == k * (bd * adsq),
    ;
    assert((an * (de * k) + k * (dn * ad)) * vd == (k * (bn * adsq)) * vd) by (nonlinear_arith)
        requires
            an * (de * k) + k * (dn * ad) == k * (bn * adsq),
    ;
    assert(vn * (k * (bd * adsq)) == (k * (bn * adsq)) * vd);
    assert(vn * (k * (bd * adsq)) == (k * adsq) * (vn * bd)) by (nonlinear_arith);
    assert((k * (bn * adsq)) * vd == (k * adsq) * (bn * vd)) by (nonlinear_arith);
    assert((k * adsq) * (vn * bd) == (k * adsq) * (bn * vd));
    assert(k * adsq != 0) by (nonlinear_arith)
        requires
            k >= 1,
            adsq == ad * ad,
            ad != 0,
    ;
    lemma_mul_cancel(k * adsq, vn * bd, bn * vd);
    assert(vn * bd == bn * vd);
    assert(v.same_value(b));
    assert(value_at(a, s, 0) == a);
    assert(spaced_seq(a, s, n as nat)[0] == a);
    assert(spaced_seq(a, s, n as nat)[n - 1] == v);
}

} // verus!
