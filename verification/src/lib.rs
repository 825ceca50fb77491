//! A lazily evaluated generator of evenly spaced values.
//!
//! [`linspace`] builds a [`Linspace`] generator that emits `n` evenly
//! spaced values from `a` to `b` inclusive, one per call to
//! [`Linspace::next`], without materializing the whole sequence. The
//! element type is anything implementing [`num::Numeric`]; this crate
//! supplies [`num::Rat`], an exact rational number.

use vstd::prelude::*;

pub mod laws;
pub mod num;

use crate::num::Numeric;

verus! {

/// The value emitted `i` steps after `start` when advancing by `step`.
pub open spec fn value_at<F: Numeric>(start: F, step: F, i: nat) -> F
    decreases i,
{
    if i == 0 {
        start
    } else {
        value_at(start, step, (i - 1) as nat).plus_spec(step)
    }
}

/// The whole sequence of `n` values emitted from `start`, advancing by
/// `step` after each one.
pub open spec fn spaced_seq<F: Numeric>(start: F, step: F, n: nat) -> Seq<F> {
    Seq::new(n, |i: int| value_at(start, step, i as nat))
}

/// The step a generator over `a .. b` with `n` elements advances by:
/// `(b - a) / (n - 1)`, with the count difference taken in the element
/// type itself.
pub open spec fn linspace_step<F: Numeric>(a: F, b: F, n: usize) -> F {
    b.minus_spec(a).divided_by_spec(F::from_count_spec(n).minus_spec(F::from_count_spec(1)))
}

/// Stepping once and then taking `i` steps is taking `i + 1` steps.
proof fn lemma_value_at_shift<F: Numeric>(start: F, step: F, i: nat)
    ensures
        value_at(start.plus_spec(step), step, i) == value_at(start, step, i + 1),
    decreases i,
{
    if i == 0 {
        assert(value_at(start, step, 1) == value_at(start, step, 0).plus_spec(step));
    } else {
        lemma_value_at_shift(start, step, (i - 1) as nat);
        assert(value_at(start, step, i + 1) == value_at(start, step, i).plus_spec(step));
    }
}

/// Emitting the first value of a nonempty sequence leaves the rest of it.
proof fn lemma_spaced_seq_shift<F: Numeric>(start: F, step: F, n: nat)
    requires
        n >= 1,
    ensures
        spaced_seq(start, step, n)[0] == start,
        spaced_seq(start.plus_spec(step), step, (n - 1) as nat) == spaced_seq(start, step, n).skip(
            1,
        ),
{
    assert forall|i: int| 0 <= i < n - 1 implies spaced_seq(
        start.plus_spec(step),
        step,
        (n - 1) as nat,
    )[i] == spaced_seq(start, step, n).skip(1)[i] by {
        lemma_value_at_shift(start, step, i as nat);
    }
    assert(spaced_seq(start.plus_spec(step), step, (n - 1) as nat) =~= spaced_seq(
        start,
        step,
        n,
    ).skip(1));
}

/// Exact count: draining a generator over `n` values fully yields a
/// sequence of length exactly `n` — its whole future has that length,
/// and each emission shortens the future by exactly one.
pub proof fn lemma_exact_count<F: Numeric>(start: F, step: F, n: nat)
    ensures
        spaced_seq(start, step, n).len() == n,
{
}

/// Endpoint, first half: the first value a nonempty generator emits is
/// its start value, exactly, for every element type.
pub proof fn lemma_first_value<F: Numeric>(start: F, step: F, n: nat)
    requires
        n >= 1,
    ensures
        spaced_seq(start, step, n)[0] == start,
{
    assert(value_at(start, step, 0) == start);
}

/// Arithmetic progression, stepping form: each emitted value is the
/// previous one advanced by the fixed step, for every element type.
pub proof fn lemma_progression<F: Numeric>(start: F, step: F, n: nat, i: int)
    requires
        0 <= i,
        i + 1 < n,
    ensures
        spaced_seq(start, step, n)[i + 1] == spaced_seq(start, step, n)[i].plus_spec(step),
{
    assert(value_at(start, step, (i + 1) as nat) == value_at(start, step, i as nat).plus_spec(
        step,
    ));
}

/// A lazily evaluated sequence of evenly spaced values.
///
/// Built by [`linspace`]. Emits its values one at a time through
/// [`Linspace::next`]; [`Linspace::remaining_count`] gives the exact
/// number of values not yet emitted.
pub struct Linspace<F> {
    start: F,
    step: F,
    len: usize,
}

impl<F: Numeric> Linspace<F> {
    /// The next value the generator will emit, if any remains.
    pub closed spec fn current(self) -> F {
        self.start
    }

    /// The fixed increment applied after each emission.
    pub closed spec fn step(self) -> F {
        self.step
    }

    /// How many values remain to be emitted.
    pub closed spec fn remaining(self) -> nat {
        self.len as nat
    }

    /// All values still to be emitted, in order.
    pub open spec fn future(self) -> Seq<F> {
        spaced_seq(self.current(), self.step(), self.remaining())
    }

    /// Emits the next value of the sequence, or `None` once all `n`
    /// values have been emitted. Exhaustion is stable: an exhausted
    /// generator is left unchanged and keeps answering `None`.
    pub fn next(&mut self) -> (r: Option<F>)
        ensures
            final(self).step() == old(self).step(),
            old(self).remaining() == 0 ==> (r is None) && *final(self) == *old(self),
            old(self).remaining() > 0 ==> ({
                &&& r == Some(old(self).current())
                &&& r == Some(old(self).future()[0])
                &&& final(self).current() == old(self).current().plus_spec(old(self).step())
                &&& final(self).remaining() == old(self).remaining() - 1
                &&& final(self).future() == old(self).future().skip(1)
            }),
    {
        if self.len == 0 {
            None
        } else {
            self.len = self.len - 1;
            let elt = self.start;
            self.start = self.start.plus(self.step);
            proof {
                lemma_spaced_seq_shift(old(self).current(), old(self).step(), old(self).remaining());
            }
            Some(elt)
        }
    }

    /// The exact count of values not yet emitted.
    pub fn remaining_count(&self) -> (r: usize)
        ensures
            r as nat == self.remaining(),
    {
        self.len
    }
}

/// Returns a generator of `n` evenly spaced values, the first equal to
/// `a` and the last equal to `b` (exactly, for exact element types, and
/// as long as the arithmetic of the element type stays exact).
///
/// The step is computed as `(b - a) / (n - 1)` in the element type.
/// For `n == 1` that divides by a zero-valued count difference; the
/// resulting step is undefined (for [`num::Rat`], a `den == 0` value)
/// but is never applied, since the single emitted value is `a` itself.
/// For `n == 0` the step divides by a negative one count difference and
/// is likewise never applied.
pub fn linspace<F: Numeric>(a: F, b: F, n: usize) -> (r: Linspace<F>)
    ensures
        r.current() == a,
        r.step() == linspace_step(a, b, n),
        r.remaining() == n as nat,
{
    let nf: F = F::from_count(n);
    let one: F = F::from_count(1);
    let step = b.minus(a).divided_by(nf.minus(one));
    Linspace { start: a, step: step, len: n }
}

} // verus!
