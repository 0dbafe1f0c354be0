//! Qualifier mapping and indexing helpers for ARM64 operand formatting.

use crate::bits::{bit_of, bit_range, bit_set};
use crate::defn::{InsnFlags, InsnOperandQualifier};
use crate::registers::{arrangement_lane_bits, arrangement_lanes, fp_reg_bits, FpRegSize, SimdRegArrangement};
use crate::text::dec_digits;
use vstd::arithmetic::power2::*;
use vstd::prelude::*;

verus! {

/// The scalar register size that a scalar qualifier names.
pub open spec fn fp_size_of(q: InsnOperandQualifier) -> Option<FpRegSize> {
    match q {
        InsnOperandQualifier::S_B => Some(FpRegSize::B8),
        InsnOperandQualifier::S_H => Some(FpRegSize::H16),
        InsnOperandQualifier::S_S => Some(FpRegSize::S32),
        InsnOperandQualifier::S_D => Some(FpRegSize::D64),
        InsnOperandQualifier::S_Q => Some(FpRegSize::Q128),
        _ => None,
    }
}

/// Map a scalar qualifier to FpRegSize.
pub fn qualifier_to_fp_size(qual: &InsnOperandQualifier) -> (size: Option<FpRegSize>)
    ensures
        size == fp_size_of(*qual),
{
    match qual {
        InsnOperandQualifier::S_B => Some(FpRegSize::B8),
        InsnOperandQualifier::S_H => Some(FpRegSize::H16),
        InsnOperandQualifier::S_S => Some(FpRegSize::S32),
        InsnOperandQualifier::S_D => Some(FpRegSize::D64),
        InsnOperandQualifier::S_Q => Some(FpRegSize::Q128),
        _ => None,
    }
}

/// The element size category of a vector qualifier: 0=B, 1=H, 2=S, 3=D,
/// 0xFF for a qualifier that names no vector arrangement of those lanes.
pub open spec fn element_size_of(q: InsnOperandQualifier) -> u8 {
    match q {
        InsnOperandQualifier::V_8B | InsnOperandQualifier::V_16B => 0,
        InsnOperandQualifier::V_2H | InsnOperandQualifier::V_4H | InsnOperandQualifier::V_8H => 1,
        InsnOperandQualifier::V_2S | InsnOperandQualifier::V_4S => 2,
        InsnOperandQualifier::V_1D | InsnOperandQualifier::V_2D => 3,
        _ => 0xFF,
    }
}

/// Extract the element size category from a vector qualifier.
/// Returns 0=B, 1=H, 2=S, 3=D, or 0xFF for non-vector qualifiers.
pub fn qualifier_element_size(q: &InsnOperandQualifier) -> (size: u8)
    ensures
        size == element_size_of(*q),
{
    match q {
        InsnOperandQualifier::V_8B | InsnOperandQualifier::V_16B => 0,
        InsnOperandQualifier::V_2H | InsnOperandQualifier::V_4H | InsnOperandQualifier::V_8H => 1,
        InsnOperandQualifier::V_2S | InsnOperandQualifier::V_4S => 2,
        InsnOperandQualifier::V_1D | InsnOperandQualifier::V_2D => 3,
        _ => 0xFF,
    }
}

/// The qualifier index that a scalar size/level value selects in a list of
/// `len` qualifiers: the size itself for three or more entries, the size less
/// one for two (widening/narrowing), 0 otherwise; none past the list.
pub open spec fn scalar_size_index(len: nat, size: nat) -> Option<nat> {
    let idx: int = if len >= 3 {
        size as int
    } else if len == 2 {
        size - 1
    } else {
        0
    };
    if 0 <= idx < len {
        Some(idx as nat)
    } else {
        None
    }
}

/// Compute qualifier index for scalar ASISD from a size/level value.
/// For lists with 3+ entries: idx = size (direct mapping).
/// For 2-entry lists: idx = size - 1 (widening/narrowing offset).
/// FP scalar [S_S,S_D] with bit22-only indexing should be handled separately.
pub fn scalar_size_qualifier_idx(qualifiers: &[InsnOperandQualifier], size: usize) -> (idx: Option<
    usize,
>)
    ensures
        idx matches Some(i) ==> scalar_size_index(qualifiers@.len(), size as nat) == Some(i as nat),
        idx is None ==> scalar_size_index(qualifiers@.len(), size as nat) is None,
{
    let idx = if qualifiers.len() >= 3 {
        size
    } else if qualifiers.len() == 2 {
        // 2-element widening/narrowing: size encodes source level,
        // qualifier index is offset by 1 regardless of starting qualifier.
        // [S_H,S_S]: size=1→0, size=2→1
        // [S_S,S_D]: size=1→0, size=2→1
        match size.checked_sub(1) {
            Some(i) => i,
            None => return None,
        }
    } else {
        0
    };
    if idx < qualifiers.len() {
        Some(idx)
    } else {
        None
    }
}

/// The immh field, bits 22:19.
pub open spec fn immh_field(bits: u32) -> nat {
    (bits as nat / pow2(19)) % pow2(4)
}

/// The position of the highest set bit of immh: 0=B, 1=H, 2=S, 3=D; none
/// for immh = 0, which is reserved.
pub open spec fn immh_level_of(bits: u32) -> Option<usize> {
    let immh = immh_field(bits);
    if immh >= 8 {
        Some(3)
    } else if immh >= 4 {
        Some(2)
    } else if immh >= 2 {
        Some(1)
    } else if immh >= 1 {
        Some(0)
    } else {
        None
    }
}

/// Compute immh level from bits[22:19] for shift instructions.
/// Returns 0=B, 1=H, 2=S, 3=D, or None if immh=0 (reserved).
pub fn immh_level(bits: u32) -> (level: Option<usize>)
    ensures
        level == immh_level_of(bits),
{
    let immh = bit_range(bits, 19, 4);
    if immh >= 8 {
        Some(3)
    } else if immh >= 4 {
        Some(2)
    } else if immh >= 2 {
        Some(1)
    } else if immh >= 1 {
        Some(0)
    } else {
        None
    }
}

/// The imm5 field, bits 20:16.
pub open spec fn imm5_field(bits: u32) -> nat {
    (bits as nat / pow2(16)) % pow2(5)
}

/// The qualifier index that imm5 and Q select for ASIMDINS: the lowest set
/// bit of imm5<3:0> picks B, H, S or D (index pairs 0-1, 2-3, 4-5, and 6 for
/// D, which only exists with Q=1), Q picks within the pair.
pub open spec fn asimdins_index_of(bits: u32) -> Option<usize> {
    let imm5 = imm5_field(bits);
    let q: usize = if bit_of(bits as nat, 30) { 1 } else { 0 };
    if bit_of(imm5, 0) {
        Some(q)
    } else if bit_of(imm5, 1) {
        Some((2 + q) as usize)
    } else if bit_of(imm5, 2) {
        Some((4 + q) as usize)
    } else if bit_of(imm5, 3) {
        if q == 0 {
            None
        } else {
            Some(6)
        }
    } else {
        None
    }
}

/// `x & 2^i != 0` tests bit `i` of `x`.
proof fn lemma_and_pow2_bit(x: u32, i: u32)
    requires
        i < 5,
    ensures
        (x & (1u32 << i) != 0) == bit_of(x as nat, i as nat),
{
    vstd::bits::lemma_u32_shr_is_div(x, i);
    let y = x >> i;
    assert((x & (1u32 << i) != 0) == ((x >> i) & 1 == 1)) by (bit_vector)
        requires
            i < 5,
    ;
    assert(y & 1 == y % 2) by (bit_vector);
}

/// Compute qualifier index for ASIMDINS from imm5 level and Q bit.
/// Returns None if imm5<3:0> == 0 or D-level with Q=0.
pub fn asimdins_qualifier_idx(bits: u32) -> (idx: Option<usize>)
    ensures
        idx == asimdins_index_of(bits),
{
    let imm5 = bit_range(bits, 16, 5);
    let q = bit_set(bits, 30) as usize;
    proof {
        lemma_and_pow2_bit(imm5, 0);
        lemma_and_pow2_bit(imm5, 1);
        lemma_and_pow2_bit(imm5, 2);
        lemma_and_pow2_bit(imm5, 3);
        assert(1u32 << 0u32 == 1 && 1u32 << 1u32 == 2 && 1u32 << 2u32 == 4 && 1u32 << 3u32 == 8)
            by (bit_vector);
    }
    if imm5 & 1 != 0 {
        Some(q)  // B: 0 or 1
    } else if imm5 & 2 != 0 {
        Some(2 + q)  // H: 2 or 3
    } else if imm5 & 4 != 0 {
        Some(4 + q)  // S: 4 or 5
    } else if imm5 & 8 != 0 {
        if q == 0 {
            None  // D with Q=0 is undefined
        } else {
            Some(6)  // D: only Q=1
        }
    } else {
        None  // imm5<3:0> == 0 is reserved

    }
}

/// The element suffix and lane index that an imm5 encoding names: the lowest
/// set bit of imm5<3:0> selects b, h, s or d, and the bits above it are the
/// index.
pub open spec fn imm5_element_of(imm5: u32) -> Option<(char, u32)> {
    if bit_of(imm5 as nat, 0) {
        Some(('b', (imm5 as nat / 2) as u32))
    } else if bit_of(imm5 as nat, 1) {
        Some(('h', (imm5 as nat / 4) as u32))
    } else if bit_of(imm5 as nat, 2) {
        Some(('s', (imm5 as nat / 8) as u32))
    } else if bit_of(imm5 as nat, 3) {
        Some(('d', (imm5 as nat / 16) as u32))
    } else {
        None
    }
}

/// Determine element size suffix from imm5 encoding.
/// Returns (suffix char, index) or None if imm5<3:0> == 0.
pub fn decode_imm5_element(imm5: u32) -> (element: Option<(char, u32)>)
    ensures
        element == imm5_element_of(imm5),
{
    proof {
        lemma_and_pow2_bit(imm5, 0);
        lemma_and_pow2_bit(imm5, 1);
        lemma_and_pow2_bit(imm5, 2);
        lemma_and_pow2_bit(imm5, 3);
        assert(1u32 << 0u32 == 1 && 1u32 << 1u32 == 2 && 1u32 << 2u32 == 4 && 1u32 << 3u32 == 8)
            by (bit_vector);
        assert(imm5 >> 1 == imm5 / 2 && imm5 >> 2 == imm5 / 4 && imm5 >> 3 == imm5 / 8 && imm5
            >> 4 == imm5 / 16) by (bit_vector);
    }
    if imm5 & 1 != 0 {
        Some(('b', imm5 >> 1))
    } else if imm5 & 2 != 0 {
        Some(('h', imm5 >> 2))
    } else if imm5 & 4 != 0 {
        Some(('s', imm5 >> 3))
    } else if imm5 & 8 != 0 {
        Some(('d', imm5 >> 4))
    } else {
        None
    }
}

/// The vector arrangement that a vector qualifier names.
pub open spec fn simd_arrangement_of(q: InsnOperandQualifier) -> Option<SimdRegArrangement> {
    match q {
        InsnOperandQualifier::V_8B => Some(SimdRegArrangement::Vector8B),
        InsnOperandQualifier::V_16B => Some(SimdRegArrangement::Vector16B),
        InsnOperandQualifier::V_2H => Some(SimdRegArrangement::Vector2H),
        InsnOperandQualifier::V_4H => Some(SimdRegArrangement::Vector4H),
        InsnOperandQualifier::V_8H => Some(SimdRegArrangement::Vector8H),
        InsnOperandQualifier::V_2S => Some(SimdRegArrangement::Vector2S),
        InsnOperandQualifier::V_4S => Some(SimdRegArrangement::Vector4S),
        InsnOperandQualifier::V_1D => Some(SimdRegArrangement::Vector1D),
        InsnOperandQualifier::V_2D => Some(SimdRegArrangement::Vector2D),
        InsnOperandQualifier::V_1Q => Some(SimdRegArrangement::Vector1Q),
        _ => None,
    }
}

/// Map a qualifier to a SimdRegArrangement.
pub fn qualifier_to_simd_reg(qual: &InsnOperandQualifier) -> (arrangement: Option<
    SimdRegArrangement,
>)
    ensures
        arrangement == simd_arrangement_of(*qual),
{
    match qual {
        InsnOperandQualifier::V_8B => Some(SimdRegArrangement::Vector8B),
        InsnOperandQualifier::V_16B => Some(SimdRegArrangement::Vector16B),
        InsnOperandQualifier::V_2H => Some(SimdRegArrangement::Vector2H),
        InsnOperandQualifier::V_4H => Some(SimdRegArrangement::Vector4H),
        InsnOperandQualifier::V_8H => Some(SimdRegArrangement::Vector8H),
        InsnOperandQualifier::V_2S => Some(SimdRegArrangement::Vector2S),
        InsnOperandQualifier::V_4S => Some(SimdRegArrangement::Vector4S),
        InsnOperandQualifier::V_1D => Some(SimdRegArrangement::Vector1D),
        InsnOperandQualifier::V_2D => Some(SimdRegArrangement::Vector2D),
        InsnOperandQualifier::V_1Q => Some(SimdRegArrangement::Vector1Q),
        _ => None,
    }
}

/// The assembler suffix of a vector arrangement qualifier.
pub open spec fn arrangement_suffix_of(q: InsnOperandQualifier) -> Option<&'static str> {
    match q {
        InsnOperandQualifier::V_8B => Some("8b"),
        InsnOperandQualifier::V_16B => Some("16b"),
        InsnOperandQualifier::V_4H => Some("4h"),
        InsnOperandQualifier::V_8H => Some("8h"),
        InsnOperandQualifier::V_2S => Some("2s"),
        InsnOperandQualifier::V_4S => Some("4s"),
        InsnOperandQualifier::V_1D => Some("1d"),
        InsnOperandQualifier::V_2D => Some("2d"),
        InsnOperandQualifier::V_1Q => Some("1q"),
        _ => None,
    }
}

/// Map a qualifier to a vector arrangement suffix string.
pub fn qualifier_arrangement(qual: InsnOperandQualifier) -> (suffix: Option<&'static str>)
    ensures
        suffix == arrangement_suffix_of(qual),
{
    match qual {
        InsnOperandQualifier::V_8B => Some("8b"),
        InsnOperandQualifier::V_16B => Some("16b"),
        InsnOperandQualifier::V_4H => Some("4h"),
        InsnOperandQualifier::V_8H => Some("8h"),
        InsnOperandQualifier::V_2S => Some("2s"),
        InsnOperandQualifier::V_4S => Some("4s"),
        InsnOperandQualifier::V_1D => Some("1d"),
        InsnOperandQualifier::V_2D => Some("2d"),
        InsnOperandQualifier::V_1Q => Some("1q"),
        _ => None,
    }
}

/// The index that size and Q select in a list of vector arrangements
/// ordered 8B, 16B, 4H, 8H, 2S, 4S, 2D: `size * 2 + Q`, with size 3 (D)
/// only valid with Q = 1 and then index 6; an abbreviated list that starts
/// with 8B clamps the index to its last entry; none where the selection is
/// undefined.
pub open spec fn sizeq_index(qualifiers: Seq<InsnOperandQualifier>, size: nat, q: bool) -> Option<
    int,
> {
    let len = qualifiers.len();
    let natural: int = size * 2 + if q { 1int } else { 0 };
    if len >= 7 {
        if size == 3 {
            if !q { None } else { Some(6) }
        } else {
            Some(natural)
        }
    } else if len >= 4 && qualifiers[0] == InsnOperandQualifier::V_8B {
        if size == 3 {
            if !q { None } else { Some(if 6 < len - 1 { 6 } else { len - 1 }) }
        } else {
            Some(if natural < len - 1 { natural } else { len - 1 })
        }
    } else {
        Some(natural)
    }
}

/// The arrangement suffix that size and Q select from a qualifier list.
pub open spec fn sizeq_arrangement_of(qualifiers: Seq<InsnOperandQualifier>, size: nat, q: bool) -> Option<
    &'static str,
> {
    match sizeq_index(qualifiers, size, q) {
        Some(idx) => if 0 <= idx < qualifiers.len() {
            arrangement_suffix_of(qualifiers[idx])
        } else {
            None
        },
        None => None,
    }
}

/// Resolve vector arrangement from size and Q bits using a qualifier list.
pub fn resolve_sizeq_arrangement(qualifiers: &[InsnOperandQualifier], size: u32, q: bool) -> (suffix: Option<&'static str>)
    requires
        size as int * 2 + 1 <= usize::MAX,
    ensures
        suffix == sizeq_arrangement_of(qualifiers@, size as nat, q),
{
    let idx = if qualifiers.len() >= 7 {
        // Full [8B,16B,4H,8H,2S,4S,2D]: idx = size*2+Q, D only with Q=1
        if size == 3 {
            if !q {
                return None;
            }
            6
        } else {
            size as usize * 2 + q as usize
        }
    } else if qualifiers.len() >= 4 && qualifiers[0] == InsnOperandQualifier::V_8B {
        // Same as above, abbreviated
        if size == 3 {
            if !q {
                return None;
            }
            6usize.min(qualifiers.len() - 1)
        } else {
            (size as usize * 2 + q as usize).min(qualifiers.len() - 1)
        }
    } else {
        size as usize * 2 + q as usize
    };
    match qualifiers.get(idx) {
        Some(qual) => qualifier_arrangement(*qual),
        None => None,
    }
}

/// The size field, bits 23:22.
pub open spec fn size_field(bits: u32) -> nat {
    (bits as nat / pow2(22)) % pow2(2)
}

/// The Q bit, bit 30, as 0 or 1.
pub open spec fn q_field(bits: u32) -> nat {
    if bit_of(bits as nat, 30) { 1 } else { 0 }
}

/// The qualifier index for an Em/Em16 operand: with a size:Q field the
/// index follows the list's shape, with an AdvSIMD scalar size field it is
/// bit 22 for an FP [S_S, S_D] pair whose bit 23 is fixed by the mask and the
/// scalar size index otherwise (0 where that has none); 0 in every other case.
pub open spec fn em_qualifier_index(
    qualifiers: Seq<InsnOperandQualifier>,
    flags: InsnFlags,
    bits: u32,
    mask: u32,
) -> nat {
    let size = size_field(bits);
    let q = q_field(bits);
    let len = qualifiers.len();
    if flags.bits & InsnFlags::HAS_SIZEQ_FIELD == InsnFlags::HAS_SIZEQ_FIELD {
        if len == 4 {
            if size >= 1 { ((size - 1) * 2 + q) as nat } else { 0 }
        } else if len == 3 {
            if qualifiers[0] == InsnOperandQualifier::S_S {
                if size % 2 == 1 { 2 } else { q }
            } else if size >= 1 {
                let i = ((size - 1) * 2 + q) as nat;
                if i < len - 1 { i } else { (len - 1) as nat }
            } else {
                0
            }
        } else if len == 2 {
            if qualifiers[0] == qualifiers[1] {
                q
            } else if size >= 1 {
                (size - 1) as nat
            } else {
                0
            }
        } else {
            0
        }
    } else if flags.bits & InsnFlags::HAS_ADVSIMD_SCALAR_SIZE == InsnFlags::HAS_ADVSIMD_SCALAR_SIZE {
        if len == 2 && qualifiers[0] == InsnOperandQualifier::S_S && bit_of(mask as nat, 23) {
            if bit_of(bits as nat, 22) { 1 } else { 0 }
        } else {
            match scalar_size_index(len, size) {
                Some(i) => i,
                None => 0,
            }
        }
    } else {
        0
    }
}

/// Resolve qualifier index for Em/Em16 from size and Q bits.
pub fn resolve_em_qualifier_idx(
    qualifiers: &[InsnOperandQualifier],
    flags: InsnFlags,
    bits: u32,
    mask: u32,
) -> (idx: usize)
    ensures
        idx == em_qualifier_index(qualifiers@, flags, bits, mask),
{
    let size = bit_range(bits, 22, 2) as usize;
    let q = bit_set(bits, 30) as usize;
    let len = qualifiers.len();
    proof {
        lemma2_to64();
    }

    if flags.contains(InsnFlags::HAS_SIZEQ_FIELD) {
        if len == 4 {
            // [S_H, S_H, S_S, S_S]: (size-1)*2 + Q
            if size >= 1 {
                (size - 1) * 2 + q
            } else {
                0
            }
        } else if len == 3 {
            if qualifiers[0] == InsnOperandQualifier::S_S {
                // [S_S, S_S, S_D]: FP — bit22 selects S/D, Q selects width
                assert(size & 1 == size % 2) by (bit_vector);
                if size & 1 != 0 {
                    2  // D
                } else {
                    q  // S, Q selects idx 0 or 1
                }
            } else {
                // [S_H, S_H, S_S]: size-level, (size-1)*2+Q clamped
                if size >= 1 {
                    ((size - 1) * 2 + q).min(len - 1)
                } else {
                    0
                }
            }
        } else if len == 2 {
            if qualifiers[0] == qualifiers[1] {
                q  // Same qualifier: Q selects variant
            } else {
                size.saturating_sub(1)
            }
        } else {
            0
        }
    } else if flags.contains(InsnFlags::HAS_ADVSIMD_SCALAR_SIZE) {
        // FP [S_S,S_D] with bit23 constrained: use bit22 alone
        let fp_scalar = len == 2 && qualifiers[0] == InsnOperandQualifier::S_S && (mask >> 23) & 1
            != 0;
        proof {
            crate::bits::lemma_u32_shr_bit(mask, 23);
            let m = mask >> 23;
            assert((m & 1 != 0) == (m & 1 == 1)) by (bit_vector);
        }
        if fp_scalar {
            let b = bit_range(bits, 22, 1) as usize;
            proof {
                crate::bits::lemma_u32_shr_bit(bits, 22);
                assert(pow2(1) == 2) by {
                    lemma2_to64();
                }
            }
            b
        } else {
            match scalar_size_qualifier_idx(qualifiers, size) {
                Some(i) => i,
                None => 0,
            }
        }
    } else {
        0
    }
}

/// The lane size, as a power of two of bytes, that an element suffix names.
pub open spec fn lane_log2(c: char) -> nat {
    if c == 'b' { 0 } else if c == 'h' { 1 } else if c == 's' { 2 } else { 3 }
}

/// Decoding imm5 loses nothing: the element suffix and the index encode
/// imm5 back as the index shifted above a single set bit at the lane size.
pub proof fn lemma_imm5_element_roundtrip(imm5: u32)
    ensures
        imm5_element_of(imm5) matches Some((c, index)) ==> imm5 as nat == index as nat * pow2(
            lane_log2(c) + 1,
        ) + pow2(lane_log2(c)),
{
    lemma2_to64();
    let x = imm5 as nat;
    assert(x == 2 * (x / 2) + x % 2);
    assert(x / 2 == 2 * (x / 4) + (x / 2) % 2);
    assert(x / 4 == 2 * (x / 8) + (x / 4) % 2);
    assert(x / 8 == 2 * (x / 16) + (x / 8) % 2);
    assert(bit_of(x, 1) == ((x / 2) % 2 == 1));
    assert(bit_of(x, 2) == ((x / 4) % 2 == 1));
    assert(bit_of(x, 3) == ((x / 8) % 2 == 1));
    assert(x / 2 / 2 == x / 4) by {
        vstd::arithmetic::div_mod::lemma_div_denominator(x as int, 2, 2);
    }
    assert(x / 4 / 2 == x / 8) by {
        vstd::arithmetic::div_mod::lemma_div_denominator(x as int, 4, 2);
    }
    assert(x / 8 / 2 == x / 16) by {
        vstd::arithmetic::div_mod::lemma_div_denominator(x as int, 8, 2);
    }
    if bit_of(x, 0) {
        assert(x == (x / 2) * 2 + 1);
    } else if bit_of(x, 1) {
        assert(x == (x / 4) * 4 + 2);
    } else if bit_of(x, 2) {
        assert(x == (x / 8) * 8 + 4);
    } else if bit_of(x, 3) {
        assert(x == (x / 16) * 16 + 8);
    }
}

/// The element size that ASIMDINS selects from imm5 and Q is the one that
/// the imm5 encoding names: indices 0-1 are B, 2-3 H, 4-5 S and 6 D.
pub proof fn lemma_asimdins_matches_imm5(bits: u32)
    ensures
        asimdins_index_of(bits) matches Some(i) ==> imm5_element_of(imm5_field(bits) as u32) matches Some((c, _))
            && lane_log2(c) == i / 2,
{
    lemma2_to64();
    assert(imm5_field(bits) < 32);
}

/// The width in bits of the scalar a scalar qualifier names; 0 for others.
pub open spec fn scalar_bits(q: InsnOperandQualifier) -> nat {
    match q {
        InsnOperandQualifier::S_B => 8,
        InsnOperandQualifier::S_H => 16,
        InsnOperandQualifier::S_S => 32,
        InsnOperandQualifier::S_D => 64,
        InsnOperandQualifier::S_Q => 128,
        _ => 0,
    }
}

/// The number of lanes of a vector qualifier; 0 for others.
pub open spec fn vector_lanes(q: InsnOperandQualifier) -> nat {
    match q {
        InsnOperandQualifier::V_8B => 8,
        InsnOperandQualifier::V_16B => 16,
        InsnOperandQualifier::V_2H => 2,
        InsnOperandQualifier::V_4H => 4,
        InsnOperandQualifier::V_8H => 8,
        InsnOperandQualifier::V_2S => 2,
        InsnOperandQualifier::V_4S => 4,
        InsnOperandQualifier::V_1D => 1,
        InsnOperandQualifier::V_2D => 2,
        InsnOperandQualifier::V_1Q => 1,
        _ => 0,
    }
}

/// The width in bits of one lane of a vector qualifier; 0 for others.
pub open spec fn vector_lane_bits(q: InsnOperandQualifier) -> nat {
    match q {
        InsnOperandQualifier::V_8B | InsnOperandQualifier::V_16B => 8,
        InsnOperandQualifier::V_2H | InsnOperandQualifier::V_4H | InsnOperandQualifier::V_8H => 16,
        InsnOperandQualifier::V_2S | InsnOperandQualifier::V_4S => 32,
        InsnOperandQualifier::V_1D | InsnOperandQualifier::V_2D => 64,
        InsnOperandQualifier::V_1Q => 128,
        _ => 0,
    }
}

/// The assembler letter of a lane or scalar width.
pub open spec fn width_letter(bits: nat) -> char {
    if bits == 8 { 'b' } else if bits == 16 { 'h' } else if bits == 32 { 's' } else if bits == 64 { 'd' } else { 'q' }
}

/// A scalar qualifier names a register view exactly as wide as its scalar.
pub proof fn lemma_fp_size_is_scalar_width(q: InsnOperandQualifier)
    ensures
        fp_size_of(q) is Some <==> scalar_bits(q) > 0,
        fp_size_of(q) matches Some(s) ==> fp_reg_bits(s) == scalar_bits(q),
{
}

/// The element size category of a vector qualifier is log2 of its lane
/// width in bytes, for lanes of 8 to 64 bits; every other qualifier gets 0xFF.
pub proof fn lemma_element_size_is_lane_width(q: InsnOperandQualifier)
    ensures
        8 <= vector_lane_bits(q) <= 64 ==> element_size_of(q) < 4 && 8 * pow2(
            element_size_of(q) as nat,
        ) == vector_lane_bits(q),
        !(8 <= vector_lane_bits(q) <= 64) ==> element_size_of(q) == 0xFF,
{
    lemma2_to64();
}

/// The arrangement suffix of a vector qualifier is its lane count followed
/// by the letter of its lane width.
pub proof fn lemma_arrangement_suffix_text(q: InsnOperandQualifier)
    ensures
        arrangement_suffix_of(q) matches Some(s) ==> s@ == dec_digits(vector_lanes(q)) + seq![
            width_letter(vector_lane_bits(q)),
        ],
        vector_lanes(q) == 0 ==> arrangement_suffix_of(q) is None,
{
    reveal_strlit("8b");
    reveal_strlit("16b");
    reveal_strlit("4h");
    reveal_strlit("8h");
    reveal_strlit("2s");
    reveal_strlit("4s");
    reveal_strlit("1d");
    reveal_strlit("2d");
    reveal_strlit("1q");
    reveal_with_fuel(dec_digits, 2);
    assert(dec_digits(16) =~= seq!['1', '6']);
    assert("16b"@ =~= seq!['1', '6', 'b']);
    assert("8b"@ =~= seq!['8', 'b']);
    assert("4h"@ =~= seq!['4', 'h']);
    assert("8h"@ =~= seq!['8', 'h']);
    assert("2s"@ =~= seq!['2', 's']);
    assert("4s"@ =~= seq!['4', 's']);
    assert("1d"@ =~= seq!['1', 'd']);
    assert("2d"@ =~= seq!['2', 'd']);
    assert("1q"@ =~= seq!['1', 'q']);
}

/// The seven vector arrangements ordered by size field then Q.
pub open spec fn full_sizeq_list() -> Seq<InsnOperandQualifier> {
    seq![
        InsnOperandQualifier::V_8B,
        InsnOperandQualifier::V_16B,
        InsnOperandQualifier::V_4H,
        InsnOperandQualifier::V_8H,
        InsnOperandQualifier::V_2S,
        InsnOperandQualifier::V_4S,
        InsnOperandQualifier::V_2D,
    ]
}

/// With the full list, lanes are `8 * 2^size` bits wide and fill 64 bits,
/// or 128 when Q is set: the suffix is the lane count and the lane letter.
/// Size 3 (64-bit lanes) exists only as 2d, with Q set.
pub proof fn lemma_sizeq_arrangement_full(size: nat, q: bool)
    ensures
        size < 3 ==> (sizeq_arrangement_of(full_sizeq_list(), size, q) matches Some(s) && s@ == dec_digits(
            (if q { 128nat } else { 64nat }) / (8 * pow2(size)),
        ) + seq![width_letter(8 * pow2(size))]),
        size == 3 && q ==> (sizeq_arrangement_of(full_sizeq_list(), size, q) matches Some(s) && s@
            == dec_digits(2) + seq!['d']),
        size == 3 && !q ==> sizeq_arrangement_of(full_sizeq_list(), size, q) is None,
{
    lemma2_to64();
    let l = full_sizeq_list();
    let i: int = if size < 3 { size * 2 + if q { 1int } else { 0 } } else { 6 };
    if size < 3 || (size == 3 && q) {
        assert(sizeq_index(l, size, q) == Some(i));
        lemma_arrangement_suffix_text(l[i]);
        if size == 0 {
            assert(128nat / 8 == 16 && 64nat / 8 == 8);
        } else if size == 1 {
            assert(128nat / 16 == 8 && 64nat / 16 == 4);
        } else if size == 2 {
            assert(128nat / 32 == 4 && 64nat / 32 == 2);
        }
    }
}

/// With an abbreviated list that starts 8B, 16B, 4H, 8H, byte and halfword
/// lanes are selected as with the full list.
pub proof fn lemma_sizeq_arrangement_abbreviated(qualifiers: Seq<InsnOperandQualifier>, size: nat, q: bool)
    requires
        4 <= qualifiers.len() < 7,
        qualifiers.take(4) == full_sizeq_list().take(4),
        size < 2,
    ensures
        sizeq_arrangement_of(qualifiers, size, q) matches Some(s) && s@ == dec_digits(
            (if q { 128nat } else { 64nat }) / (8 * pow2(size)),
        ) + seq![width_letter(8 * pow2(size))],
{
    lemma2_to64();
    let i: int = size * 2 + if q { 1int } else { 0 };
    assert(qualifiers[0] == qualifiers.take(4)[0]);
    assert(qualifiers[i] == qualifiers.take(4)[i]);
    assert(full_sizeq_list().take(4)[i] == full_sizeq_list()[i]);
    assert(sizeq_index(qualifiers, size, q) == Some(i));
    lemma_arrangement_suffix_text(qualifiers[i]);
    if size == 0 {
        assert(128nat / 8 == 16 && 64nat / 8 == 8);
    } else {
        assert(128nat / 16 == 8 && 64nat / 16 == 4);
    }
}

/// The lowest set bit of `x` is bit `l`.
pub open spec fn lowest_set_bit(x: nat, l: nat) -> bool {
    bit_of(x, l) && forall|k: nat| k < l ==> !#[trigger] bit_of(x, k)
}

/// ASIMDINS: the lowest set bit `l` of imm5<3:0> gives the element level,
/// and the index is `2 * l + Q` into [8B, 16B, 4H, 8H, 2S, 4S, 2D]; for
/// doublewords only Q = 1 exists. Without a set bit in imm5<3:0> there is no
/// index.
pub proof fn lemma_asimdins_index_from_fields(bits: u32)
    ensures
        forall|l: nat|
            l < 3 && #[trigger] lowest_set_bit(imm5_field(bits), l) ==> asimdins_index_of(bits) == Some(
                (2 * l + q_field(bits)) as usize,
            ),
        lowest_set_bit(imm5_field(bits), 3) ==> asimdins_index_of(bits) == if q_field(bits) == 1 {
            Some(6usize)
        } else {
            None
        },
        imm5_field(bits) % 16 == 0 ==> asimdins_index_of(bits) is None,
        asimdins_index_of(bits) matches Some(i) ==> i <= 6 && (i < 6 ==> i % 2 == q_field(bits)
            && lowest_set_bit(imm5_field(bits), (i / 2) as nat)),
{
    lemma2_to64();
    let x = imm5_field(bits);
    assert(x < 32);
    assert(x == 2 * (x / 2) + x % 2);
    assert(x / 2 == 2 * (x / 4) + (x / 2) % 2);
    assert(x / 4 == 2 * (x / 8) + (x / 4) % 2);
    assert(x / 8 == 2 * (x / 16) + (x / 8) % 2);
    assert(x / 2 / 2 == x / 4) by {
        vstd::arithmetic::div_mod::lemma_div_denominator(x as int, 2, 2);
    }
    assert(x / 4 / 2 == x / 8) by {
        vstd::arithmetic::div_mod::lemma_div_denominator(x as int, 4, 2);
    }
    assert(x / 8 / 2 == x / 16) by {
        vstd::arithmetic::div_mod::lemma_div_denominator(x as int, 8, 2);
    }
    assert(pow2(0) == 1 && pow2(1) == 2 && pow2(2) == 4 && pow2(3) == 8);
    if asimdins_index_of(bits) is Some {
        let i = asimdins_index_of(bits).unwrap();
        assert forall|k: nat| k < (i / 2) as nat implies !#[trigger] bit_of(x, k) by {}
    }
    if x % 16 == 0 {
        assert(x == 16 * (x / 16));
    }
}

/// The immh level is the position of the highest set bit of immh: the level
/// `l` has `2^l <= immh < 2^(l+1)`, and there is none exactly for immh 0.
pub proof fn lemma_immh_level_is_highest_bit(bits: u32)
    ensures
        immh_level_of(bits) is None <==> immh_field(bits) == 0,
        immh_level_of(bits) matches Some(l) ==> l < 4 && pow2(l as nat) <= immh_field(bits) < pow2(
            l as nat + 1,
        ),
        forall|l: nat|
            l < 4 && #[trigger] pow2(l) <= immh_field(bits) < pow2(l + 1) ==> immh_level_of(bits) == Some(l as usize),
{
    lemma2_to64();
}

/// Em/Em16 with a size:Q field and the list [S_H, S_H, S_S, S_S]: for size 1
/// and 2 the selected entry is a scalar of level `size` (halfword, word) and
/// Q picks between the two entries of that level.
pub proof fn lemma_em_index_sizeq_four(flags: InsnFlags, bits: u32, mask: u32)
    requires
        flags.bits & InsnFlags::HAS_SIZEQ_FIELD == InsnFlags::HAS_SIZEQ_FIELD,
        1 <= size_field(bits) <= 2,
    ensures
        ({
            let qs = seq![
                InsnOperandQualifier::S_H,
                InsnOperandQualifier::S_H,
                InsnOperandQualifier::S_S,
                InsnOperandQualifier::S_S,
            ];
            let i = em_qualifier_index(qs, flags, bits, mask);
            &&& i < 4
            &&& scalar_bits(qs[i as int]) == 8 * pow2(size_field(bits))
            &&& i % 2 == q_field(bits)
        }),
{
    lemma2_to64();
}

/// Em/Em16 with a size:Q field and the FP list [S_S, S_S, S_D]: an odd size
/// selects the doubleword entry, an even one the word entry that Q picks.
pub proof fn lemma_em_index_sizeq_fp(flags: InsnFlags, bits: u32, mask: u32)
    requires
        flags.bits & InsnFlags::HAS_SIZEQ_FIELD == InsnFlags::HAS_SIZEQ_FIELD,
    ensures
        ({
            let qs = seq![InsnOperandQualifier::S_S, InsnOperandQualifier::S_S, InsnOperandQualifier::S_D];
            let i = em_qualifier_index(qs, flags, bits, mask);
            &&& i < 3
            &&& scalar_bits(qs[i as int]) == if size_field(bits) % 2 == 1 { 64nat } else { 32nat }
            &&& size_field(bits) % 2 == 0 ==> i == q_field(bits)
        }),
{
    lemma2_to64();
}

/// Em/Em16 with a size:Q field and two equal qualifiers: Q picks the entry.
pub proof fn lemma_em_index_sizeq_pair(qualifiers: Seq<InsnOperandQualifier>, flags: InsnFlags, bits: u32, mask: u32)
    requires
        flags.bits & InsnFlags::HAS_SIZEQ_FIELD == InsnFlags::HAS_SIZEQ_FIELD,
        qualifiers.len() == 2,
        qualifiers[0] == qualifiers[1],
    ensures
        em_qualifier_index(qualifiers, flags, bits, mask) == q_field(bits),
{
}

/// Em/Em16 with an AdvSIMD scalar size field and an FP [S_S, S_D] pair whose
/// bit 23 the mask fixes: the entry is `32 * 2^bit22` bits wide.
pub proof fn lemma_em_index_fp_scalar(flags: InsnFlags, bits: u32, mask: u32)
    requires
        flags.bits & InsnFlags::HAS_SIZEQ_FIELD != InsnFlags::HAS_SIZEQ_FIELD,
        flags.bits & InsnFlags::HAS_ADVSIMD_SCALAR_SIZE == InsnFlags::HAS_ADVSIMD_SCALAR_SIZE,
        bit_of(mask as nat, 23),
    ensures
        ({
            let qs = seq![InsnOperandQualifier::S_S, InsnOperandQualifier::S_D];
            let i = em_qualifier_index(qs, flags, bits, mask);
            &&& i < 2
            &&& scalar_bits(qs[i as int]) == 32 * pow2(if bit_of(bits as nat, 22) { 1nat } else { 0nat })
        }),
{
    lemma2_to64();
}

/// Em/Em16 without a size:Q or scalar size field always takes the first entry.
pub proof fn lemma_em_index_no_field(qualifiers: Seq<InsnOperandQualifier>, flags: InsnFlags, bits: u32, mask: u32)
    requires
        flags.bits & InsnFlags::HAS_SIZEQ_FIELD != InsnFlags::HAS_SIZEQ_FIELD,
        flags.bits & InsnFlags::HAS_ADVSIMD_SCALAR_SIZE != InsnFlags::HAS_ADVSIMD_SCALAR_SIZE,
    ensures
        em_qualifier_index(qualifiers, flags, bits, mask) == 0,
{
}

/// A scalar size index for a list of three or more entries is the size
/// itself, for two entries the size less one, while it stays in the list.
pub proof fn lemma_scalar_size_index_in_list(len: nat, size: nat)
    ensures
        scalar_size_index(len, size) matches Some(i) ==> i < len && (len >= 3 ==> i == size) && (len
            == 2 ==> i + 1 == size),
        len >= 3 && size < len ==> scalar_size_index(len, size) == Some(size),
        len == 2 && 1 <= size <= 2 ==> scalar_size_index(len, size) == Some((size - 1) as nat),
{
}

/// A vector qualifier names the arrangement with the same lanes: as many,
/// as wide; other qualifiers name none.
pub proof fn lemma_simd_arrangement_lanes(q: InsnOperandQualifier)
    ensures
        simd_arrangement_of(q) is Some <==> vector_lanes(q) > 0,
        simd_arrangement_of(q) matches Some(a) ==> arrangement_lanes(a) == vector_lanes(q)
            && arrangement_lane_bits(a) == vector_lane_bits(q),
{
}

} // verus!
