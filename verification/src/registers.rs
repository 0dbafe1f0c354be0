//! Register sizes and vector arrangements that operand formatting selects.

use vstd::prelude::*;

verus! {

/// The width of a scalar floating-point / SIMD register view.
#[derive(Clone, Copy, Debug, PartialEq, Eq, Structural)]
pub enum FpRegSize {
    B8,
    H16,
    S32,
    D64,
    Q128,
}

/// The arrangement of a vector register: lane count and lane width.
#[derive(Clone, Copy, Debug, PartialEq, Eq, Structural)]
pub enum SimdRegArrangement {
    Vector8B,
    Vector16B,
    Vector2H,
    Vector4H,
    Vector8H,
    Vector2S,
    Vector4S,
    Vector1D,
    Vector2D,
    Vector1Q,
}

/// The width in bits of a register view.
pub open spec fn fp_reg_bits(size: FpRegSize) -> nat {
    match size {
        FpRegSize::B8 => 8,
        FpRegSize::H16 => 16,
        FpRegSize::S32 => 32,
        FpRegSize::D64 => 64,
        FpRegSize::Q128 => 128,
    }
}

/// The number of lanes of a vector arrangement.
pub open spec fn arrangement_lanes(a: SimdRegArrangement) -> nat {
    match a {
        SimdRegArrangement::Vector8B => 8,
        SimdRegArrangement::Vector16B => 16,
        SimdRegArrangement::Vector2H => 2,
        SimdRegArrangement::Vector4H => 4,
        SimdRegArrangement::Vector8H => 8,
        SimdRegArrangement::Vector2S => 2,
        SimdRegArrangement::Vector4S => 4,
        SimdRegArrangement::Vector1D => 1,
        SimdRegArrangement::Vector2D => 2,
        SimdRegArrangement::Vector1Q => 1,
    }
}

/// The width in bits of one lane of a vector arrangement.
pub open spec fn arrangement_lane_bits(a: SimdRegArrangement) -> nat {
    match a {
        SimdRegArrangement::Vector8B | SimdRegArrangement::Vector16B => 8,
        SimdRegArrangement::Vector2H | SimdRegArrangement::Vector4H | SimdRegArrangement::Vector8H => 16,
        SimdRegArrangement::Vector2S | SimdRegArrangement::Vector4S => 32,
        SimdRegArrangement::Vector1D | SimdRegArrangement::Vector2D => 64,
        SimdRegArrangement::Vector1Q => 128,
    }
}

} // verus!
