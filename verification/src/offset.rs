//! Offsets measured in grid cells.
use vstd::prelude::*;

verus! {

/// An offset in x and y direction, measured in cells.
#[derive(Debug, Clone, Copy, PartialEq, Eq, Structural)]
pub struct CellOffset(pub i32, pub i32);

/// The componentwise maximum of two integers.
pub open spec fn max_int(a: int, b: int) -> int {
    if a >= b { a } else { b }
}

/// The componentwise minimum of two integers.
pub open spec fn min_int(a: int, b: int) -> int {
    if a <= b { a } else { b }
}

/// Whether `a + b` fits in an `i32`.
pub open spec fn fits_i32(v: int) -> bool {
    i32::MIN <= v <= i32::MAX
}

impl CellOffset {
    /// The componentwise sum of two offsets.
    pub fn add_other(&self, other: &CellOffset) -> (r: CellOffset)
        requires
            fits_i32(self.0 + other.0),
            fits_i32(self.1 + other.1),
        ensures
            r.0 == self.0 + other.0,
            r.1 == self.1 + other.1,
    {
        CellOffset(self.0 + other.0, self.1 + other.1)
    }

    /// The componentwise difference of two offsets.
    pub fn subtract_other(&self, other: &CellOffset) -> (r: CellOffset)
        requires
            fits_i32(self.0 - other.0),
            fits_i32(self.1 - other.1),
        ensures
            r.0 == self.0 - other.0,
            r.1 == self.1 - other.1,
    {
        CellOffset(self.0 - other.0, self.1 - other.1)
    }

    /// Adds the two components of a tuple to the two components of this offset.
    pub fn add_tuple(&self, other: (i32, i32)) -> (r: CellOffset)
        requires
            fits_i32(self.0 + other.0),
            fits_i32(self.1 + other.1),
        ensures
            r.0 == self.0 + other.0,
            r.1 == self.1 + other.1,
    {
        CellOffset(self.0 + other.0, self.1 + other.1)
    }

    /// The componentwise maximum of two offsets.
    pub fn max(&self, other: CellOffset) -> (r: CellOffset)
        ensures
            r.0 == max_int(self.0 as int, other.0 as int),
            r.1 == max_int(self.1 as int, other.1 as int),
    {
        CellOffset(
            if self.0 >= other.0 { self.0 } else { other.0 },
            if self.1 >= other.1 { self.1 } else { other.1 },
        )
    }

    /// The componentwise minimum of two offsets.
    pub fn min(&self, other: CellOffset) -> (r: CellOffset)
        ensures
            r.0 == min_int(self.0 as int, other.0 as int),
            r.1 == min_int(self.1 as int, other.1 as int),
    {
        CellOffset(
            if self.0 <= other.0 { self.0 } else { other.0 },
            if self.1 <= other.1 { self.1 } else { other.1 },
        )
    }
}


/// `v` clamped to the range of `i32`, as a cast from a floating point value does it.
pub open spec fn saturate_i32(v: int) -> int {
    if v > i32::MAX { i32::MAX as int } else if v < i32::MIN { i32::MIN as int } else { v }
}

/// `v` clamped to the range of `u32`, as a cast from a floating point value does it.
pub open spec fn saturate_u32(v: int) -> int {
    if v > u32::MAX { u32::MAX as int } else if v < 0 { 0 } else { v }
}

/// `p / s` rounded to the nearest integer, halfway cases away from zero.
pub open spec fn round_div(p: int, s: int) -> int
    recommends
        s > 0,
{
    if p >= 0 { (2 * p + s) / (2 * s) } else { -((-2 * p + s) / (2 * s)) }
}

/// Clamps a 64 bit value to the range of `i32`.
pub fn saturating_i32(v: i64) -> (r: i32)
    ensures
        r == saturate_i32(v as int),
{
    if v > i32::MAX as i64 {
        i32::MAX
    } else if v < i32::MIN as i64 {
        i32::MIN
    } else {
        v as i32
    }
}

/// Clamps a 64 bit value to the range of `u32`.
pub fn saturating_u32(v: i64) -> (r: u32)
    ensures
        r == saturate_u32(v as int),
{
    if v > u32::MAX as i64 {
        u32::MAX
    } else if v < 0 {
        0
    } else {
        v as u32
    }
}

/// Divides `p` by `s` and rounds to the nearest integer, halfway cases away from zero.
///
/// A division by zero saturates: positive values give `i32::MAX`, negative values
/// `i32::MIN`, and zero gives zero.
pub fn rounded_div(p: i32, s: u32) -> (r: i32)
    ensures
        s > 0 ==> r == round_div(p as int, s as int),
        s == 0 ==> r == (if p > 0 { i32::MAX as int } else if p < 0 { i32::MIN as int } else { 0 }),
{
    if s == 0 {
        if p > 0 {
            i32::MAX
        } else if p < 0 {
            i32::MIN
        } else {
            0
        }
    } else {
        let pp = p as i64;
        let ss = s as i64;
        if pp >= 0 {
            let q = (2 * pp + ss) / (2 * ss);
            assert(0 <= q <= pp) by (nonlinear_arith)
                requires q == (2 * pp + ss) / (2 * ss), pp >= 0, ss >= 1;
            q as i32
        } else {
            let q = (-2 * pp + ss) / (2 * ss);
            assert(0 <= q <= -pp) by (nonlinear_arith)
                requires q == (-2 * pp + ss) / (2 * ss), pp < 0, ss >= 1;
            (-q) as i32
        }
    }
}

} // verus!
