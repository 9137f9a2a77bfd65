//! Rotation policy: decide whether accumulated diff size warrants a fresh
//! baseline generation.
//!
//! The decision compares the diff size against the baseline size scaled by a
//! configurable ratio. The ratio is kept as an exact rational number so the
//! comparison `diff > base * ratio` can be decided without rounding.

use vstd::prelude::*;

verus! {

/// Working files at or below this size (in bytes) never trigger a rotation,
/// whatever the diff ratio says.
pub const ROTATION_MIN_WORK_SIZE: u64 = 100 * 1024;

/// A rotation threshold ratio, held exactly as `num / den`.
#[derive(Clone, Copy, Debug)]
pub struct Threshold {
    pub num: u64,
    pub den: u64,
}

impl Threshold {
    /// A threshold is usable only with a nonzero denominator.
    pub open spec fn wf(self) -> bool {
        self.den >= 1
    }

    pub fn new(num: u64, den: u64) -> (r: Threshold)
        requires
            den >= 1,
        ensures
            r.wf(),
            r.num == num,
            r.den == den,
    {
        Threshold { num, den }
    }

    /// The ratio used whenever the configured value is not positive: 0.8.
    pub fn default_ratio() -> (r: Threshold)
        ensures
            r.wf(),
            r.num == 4,
            r.den == 5,
    {
        Threshold { num: 4, den: 5 }
    }
}

/// `diff_size` strictly exceeds `base_size * t`, and the baseline is nonempty.
pub open spec fn spec_should_rotate(base_size: u64, diff_size: u64, t: Threshold) -> bool {
    base_size != 0 && diff_size * t.den > base_size * t.num
}

/// The full orchestrator gate: the rotation ratio is consulted only for
/// working files strictly larger than the minimum size floor.
pub open spec fn spec_rotation_due(work_size: u64, diff_size: u64, t: Threshold) -> bool {
    work_size > ROTATION_MIN_WORK_SIZE && spec_should_rotate(work_size, diff_size, t)
}

proof fn lemma_u64_product_fits_u128(a: u64, b: u64)
    ensures
        a * b <= u128::MAX,
{
    assert(a * b <= u64::MAX * u64::MAX) by (nonlinear_arith)
        requires
            a <= u64::MAX,
            b <= u64::MAX,
    ;
    assert(u64::MAX * u64::MAX < u128::MAX) by (nonlinear_arith);
}

/// False when the baseline is empty; otherwise true exactly when the diff
/// size strictly exceeds the baseline size scaled by the threshold ratio.
pub fn should_rotate(base_size: u64, diff_size: u64, t: &Threshold) -> (r: bool)
    requires
        t.wf(),
    ensures
        r == spec_should_rotate(base_size, diff_size, *t),
{
    if base_size == 0 {
        return false;
    }
    proof {
        lemma_u64_product_fits_u128(diff_size, t.den);
        lemma_u64_product_fits_u128(base_size, t.num);
    }
    (diff_size as u128) * (t.den as u128) > (base_size as u128) * (t.num as u128)
}

/// The orchestrator's rotation gate: the working file must exceed the size
/// floor, and the diff must exceed the working-file size scaled by the ratio.
pub fn rotation_due(work_size: u64, diff_size: u64, t: &Threshold) -> (r: bool)
    requires
        t.wf(),
    ensures
        r == spec_rotation_due(work_size, diff_size, *t),
{
    work_size > ROTATION_MIN_WORK_SIZE && should_rotate(work_size, diff_size, t)
}

/// An empty baseline never rotates, whatever the diff size and threshold.
pub proof fn lemma_zero_baseline_never_rotates(diff_size: u64, t: Threshold)
    ensures
        !spec_should_rotate(0, diff_size, t),
{
}

/// A working file at or below the size floor never rotates, whatever the
/// diff size and threshold.
pub proof fn lemma_small_file_never_rotates(work_size: u64, diff_size: u64, t: Threshold)
    requires
        work_size <= ROTATION_MIN_WORK_SIZE,
    ensures
        !spec_rotation_due(work_size, diff_size, t),
{
}

} // verus!
