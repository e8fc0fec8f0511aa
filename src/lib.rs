//! Host-side preprocessing for a software ray-tracing runtime.
//!
//! The bottom- and top-level builders turn descriptor buffers into stackless
//! BVH node arrays in std430 layout (`blas`, `tlas`, over `bvh`, `aabb` and
//! `std430`), held in a store of staging buffers (`staging`). The shader
//! lowering decides what becomes of each ray-tracing construct (`analysis`),
//! which parameters the entry point gains (`entry`) and where each packed
//! element lies in the word buffers (`packing`).
use vstd::prelude::*;

pub mod aabb;
pub mod analysis;
pub mod blas;
pub mod builtins;
pub mod bvh;
pub mod bytes;
pub mod entry;
pub mod packing;
pub mod processed;
pub mod staging;
pub mod std430;
pub mod text;
pub mod tlas;

verus! {

/// Rounds `x` up to the next multiple of `to`.
pub fn align_to(x: usize, to: usize) -> (r: usize)
    requires
        to > 0,
        x + to - 1 <= usize::MAX,
    ensures
        r as int % (to as int) == 0,
        x <= r < x + to,
{
    let q = (x + (to - 1)) / to;
    proof {
        let a = (x + to - 1) as int;
        let t = to as int;
        vstd::arithmetic::div_mod::lemma_fundamental_div_mod(a, t);
        vstd::arithmetic::div_mod::lemma_mod_multiples_basic(q as int, t);
        assert(q * t <= a && q * t > a - t) by (nonlinear_arith)
            requires q == a / t, t > 0, a >= 0, a == t * (a / t) + a % t, 0 <= a % t < t;
    }
    q * to
}

} // verus!
