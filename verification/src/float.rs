//! Floating-point values as IEEE 754 binary32 bit patterns.
//!
//! Comparisons are decided here, on the bits. Arithmetic and text are not:
//! they come from the embedder, see [`crate::interpreter::Interpreter`].

use vstd::prelude::*;

verus! {

/// The arithmetic operations of the machine, on integers and on
/// floating-point values.
#[derive(Clone, Copy, Debug, PartialEq, Eq, Structural)]
pub enum Arith {
    Add,
    Sub,
    Mul,
}

/// The comparisons of the machine.
#[derive(Clone, Copy, Debug, PartialEq, Eq, Structural)]
pub enum Comparison {
    Eq,
    Ne,
    Lt,
    Le,
    Gt,
    Ge,
}

/// The bits without the sign bit.
pub open spec fn magnitude(bits: u32) -> u32 {
    bits & 0x7fff_ffff
}

/// Whether the sign bit is set.
pub open spec fn negative(bits: u32) -> bool {
    bits & 0x8000_0000 != 0
}

/// Whether the bits are a NaN: the exponent is all ones and the fraction is
/// not zero.
pub open spec fn is_nan(bits: u32) -> bool {
    magnitude(bits) > 0x7f80_0000
}

/// A number that orders the bits of a non-NaN value as the value itself is
/// ordered. Both zeros have rank zero.
pub open spec fn rank(bits: u32) -> int {
    if negative(bits) {
        -(magnitude(bits) as int)
    } else {
        magnitude(bits) as int
    }
}

/// Whether the comparison holds of two integers.
pub open spec fn int_holds(c: Comparison, a: int, b: int) -> bool {
    match c {
        Comparison::Eq => a == b,
        Comparison::Ne => a != b,
        Comparison::Lt => a < b,
        Comparison::Le => a <= b,
        Comparison::Gt => a > b,
        Comparison::Ge => a >= b,
    }
}

/// Whether the comparison holds of two floating-point values: as of their
/// ranks, but with a NaN on either side only `Ne` holds.
pub open spec fn float_holds(c: Comparison, a: u32, b: u32) -> bool {
    if is_nan(a) || is_nan(b) {
        c == Comparison::Ne
    } else {
        int_holds(c, rank(a), rank(b))
    }
}

/// Decides a comparison of two integers.
pub fn compare_ints(c: Comparison, a: i32, b: i32) -> (holds: bool)
    ensures
        holds == int_holds(c, a as int, b as int),
{
    match c {
        Comparison::Eq => a == b,
        Comparison::Ne => a != b,
        Comparison::Lt => a < b,
        Comparison::Le => a <= b,
        Comparison::Gt => a > b,
        Comparison::Ge => a >= b,
    }
}

/// Computes the rank of a bit pattern.
fn rank_of(bits: u32) -> (r: i64)
    ensures
        r == rank(bits),
{
    let m: u32 = bits & 0x7fff_ffff;
    if bits & 0x8000_0000 != 0 {
        -(m as i64)
    } else {
        m as i64
    }
}

/// Decides a comparison of two floating-point values.
pub fn compare_floats(c: Comparison, a: u32, b: u32) -> (holds: bool)
    ensures
        holds == float_holds(c, a, b),
{
    if (a & 0x7fff_ffff) > 0x7f80_0000 || (b & 0x7fff_ffff) > 0x7f80_0000 {
        match c {
            Comparison::Ne => true,
            _ => false,
        }
    } else {
        let x: i64 = rank_of(a);
        let y: i64 = rank_of(b);
        match c {
            Comparison::Eq => x == y,
            Comparison::Ne => x != y,
            Comparison::Lt => x < y,
            Comparison::Le => x <= y,
            Comparison::Gt => x > y,
            Comparison::Ge => x >= y,
        }
    }
}

} // verus!
