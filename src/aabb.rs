//! Axis-aligned boxes over the bit patterns of 32-bit floats.
//!
//! A float's bit pattern is mapped to an order key: a 32-bit integer whose
//! unsigned order is the order of the (non-NaN) floats, with -0 just below +0.
//! Minimum and maximum of floats are then minimum and maximum of keys, so
//! every bound below is computed and compared without floating point.
use vstd::prelude::*;

verus! {

pub const SIGN_BIT: u32 = 0x8000_0000;

/// The order key of a float's bit pattern.
pub open spec fn key_of_bits(bits: u32) -> u32 {
    if bits >= SIGN_BIT {
        (0xFFFF_FFFFu32 - bits) as u32
    } else {
        (bits + SIGN_BIT) as u32
    }
}

/// The bit pattern that has order key `key`.
pub open spec fn bits_of_key(key: u32) -> u32 {
    if key >= SIGN_BIT {
        (key - SIGN_BIT) as u32
    } else {
        (0xFFFF_FFFFu32 - key) as u32
    }
}

pub fn order_key(bits: u32) -> (r: u32)
    ensures
        r == key_of_bits(bits),
        bits_of_key(r) == bits,
{
    if bits >= SIGN_BIT {
        0xFFFF_FFFFu32 - bits
    } else {
        bits + SIGN_BIT
    }
}

pub fn float_bits(key: u32) -> (r: u32)
    ensures
        r == bits_of_key(key),
        key_of_bits(r) == key,
{
    if key >= SIGN_BIT {
        key - SIGN_BIT
    } else {
        0xFFFF_FFFFu32 - key
    }
}

pub open spec fn min_u32(a: u32, b: u32) -> u32 {
    if a <= b { a } else { b }
}

pub open spec fn max_u32(a: u32, b: u32) -> u32 {
    if a >= b { a } else { b }
}

/// A box whose corners are held as order keys, one per axis.
#[derive(Clone, Copy, Debug)]
pub struct Aabb {
    pub min: [u32; 3],
    pub max: [u32; 3],
}

/// `a` encloses `b` on every axis.
pub open spec fn contains(a: Aabb, b: Aabb) -> bool {
    forall|k: int| 0 <= k < 3 ==> a.min[k] <= b.min[k] && b.max[k] <= a.max[k]
}

/// `r` is the smallest box enclosing `a` and `b`.
pub open spec fn is_union(r: Aabb, a: Aabb, b: Aabb) -> bool {
    forall|k: int|
        0 <= k < 3 ==> r.min[k] == min_u32(a.min[k], b.min[k]) && r.max[k] == max_u32(
            a.max[k],
            b.max[k],
        )
}

/// `r` is the smallest box enclosing the three points given by their keys.
pub open spec fn bounds_points(r: Aabb, p: [u32; 3], q: [u32; 3], s: [u32; 3]) -> bool {
    forall|k: int|
        0 <= k < 3 ==> r.min[k] == min_u32(min_u32(p[k], q[k]), s[k]) && r.max[k] == max_u32(
            max_u32(p[k], q[k]),
            s[k],
        )
}

/// The union of two boxes encloses both.
pub proof fn lemma_union_contains(r: Aabb, a: Aabb, b: Aabb)
    requires
        is_union(r, a, b),
    ensures
        contains(r, a),
        contains(r, b),
{
}

fn umin(a: u32, b: u32) -> (r: u32)
    ensures
        r == min_u32(a, b),
{
    if a <= b {
        a
    } else {
        b
    }
}

fn umax(a: u32, b: u32) -> (r: u32)
    ensures
        r == max_u32(a, b),
{
    if a >= b {
        a
    } else {
        b
    }
}

impl Aabb {
    /// The box with corners given as float bit patterns.
    pub fn from_bits(min_bits: [u32; 3], max_bits: [u32; 3]) -> (r: Aabb)
        ensures
            forall|k: int|
                0 <= k < 3 ==> r.min[k] == key_of_bits(min_bits[k]) && r.max[k] == key_of_bits(
                    max_bits[k],
                ),
    {
        Aabb {
            min: [order_key(min_bits[0]), order_key(min_bits[1]), order_key(min_bits[2])],
            max: [order_key(max_bits[0]), order_key(max_bits[1]), order_key(max_bits[2])],
        }
    }

    /// The float bit patterns of the lower corner.
    pub fn min_bits(&self) -> (r: [u32; 3])
        ensures
            forall|k: int| 0 <= k < 3 ==> r[k] == bits_of_key(self.min[k]),
    {
        [float_bits(self.min[0]), float_bits(self.min[1]), float_bits(self.min[2])]
    }

    /// The float bit patterns of the upper corner.
    pub fn max_bits(&self) -> (r: [u32; 3])
        ensures
            forall|k: int| 0 <= k < 3 ==> r[k] == bits_of_key(self.max[k]),
    {
        [float_bits(self.max[0]), float_bits(self.max[1]), float_bits(self.max[2])]
    }

    /// The smallest box enclosing `self` and `other`.
    pub fn union(&self, other: &Aabb) -> (r: Aabb)
        ensures
            is_union(r, *self, *other),
    {
        Aabb {
            min: [
                umin(self.min[0], other.min[0]),
                umin(self.min[1], other.min[1]),
                umin(self.min[2], other.min[2]),
            ],
            max: [
                umax(self.max[0], other.max[0]),
                umax(self.max[1], other.max[1]),
                umax(self.max[2], other.max[2]),
            ],
        }
    }

    /// The smallest box enclosing three points, each given by the keys of its
    /// coordinates.
    pub fn of_points(p: [u32; 3], q: [u32; 3], s: [u32; 3]) -> (r: Aabb)
        ensures
            bounds_points(r, p, q, s),
    {
        Aabb {
            min: [
                umin(umin(p[0], q[0]), s[0]),
                umin(umin(p[1], q[1]), s[1]),
                umin(umin(p[2], q[2]), s[2]),
            ],
            max: [
                umax(umax(p[0], q[0]), s[0]),
                umax(umax(p[1], q[1]), s[1]),
                umax(umax(p[2], q[2]), s[2]),
            ],
        }
    }

    /// The centre of the box along `axis`, in key space.
    pub fn centroid(&self, axis: usize) -> (r: u32)
        requires
            axis < 3,
        ensures
            r == (self.min[axis as int] as int + self.max[axis as int] as int) / 2,
    {
        ((self.min[axis] as u64 + self.max[axis] as u64) / 2) as u32
    }
}

} // verus!
