//! Floating-point register and immediate selection.

use crate::bits::{bit_of, bit_range, bit_set};
use crate::defn::{Insn, InsnClass, InsnFlags, InsnOperand, InsnOperandKind, InsnOperandQualifier};
use crate::qualifier::{fp_size_of, immh_level, immh_level_of, qualifier_to_fp_size, scalar_size_index, scalar_size_qualifier_idx};
use crate::registers::{fp_reg_bits, FpRegSize};
use vstd::arithmetic::power2::*;
use vstd::prelude::*;

verus! {

/// What a floating-point register operand prints as.
#[derive(Clone, Copy, Debug, PartialEq, Eq, Structural)]
pub enum FpRegOperand {
    /// Register `number` viewed at `size`.
    Register { size: FpRegSize, number: u32 },
    /// The encoding names no register view: printed as `<undefined>`.
    Undefined,
    /// The operand carries no field to read: printed as its kind between colons.
    KindPlaceholder,
}

/// The `width`-bit field of `bits` at `lsb`.
pub open spec fn field(bits: u32, lsb: nat, width: nat) -> nat {
    (bits as nat / pow2(lsb)) % pow2(width)
}

/// A register of the given size, or undefined where there is none.
pub open spec fn register_or_undefined(size: Option<FpRegSize>, number: u32) -> FpRegOperand {
    match size {
        Some(s) => FpRegOperand::Register { size: s, number },
        None => FpRegOperand::Undefined,
    }
}

/// The register size that a qualifier list entry selects, if the index is in the list.
pub open spec fn listed_fp_size(qualifiers: Seq<InsnOperandQualifier>, idx: Option<int>) -> Option<FpRegSize> {
    match idx {
        Some(i) => if 0 <= i < qualifiers.len() { fp_size_of(qualifiers[i]) } else { None },
        None => None,
    }
}

/// The absolute level (B=0, H=1, S=2, D=3) of a scalar qualifier that starts a list.
pub open spec fn scalar_base_level(q: InsnOperandQualifier) -> Option<nat> {
    match q {
        InsnOperandQualifier::S_B => Some(0),
        InsnOperandQualifier::S_H => Some(1),
        InsnOperandQualifier::S_S => Some(2),
        InsnOperandQualifier::S_D => Some(3),
        _ => None,
    }
}

/// Whether the class is one of the load/store register classes whose size
/// and opc fields select the register view.
pub open spec fn is_ldst_reg_class(c: InsnClass) -> bool {
    c == InsnClass::LDST_IMM9 || c == InsnClass::LDST_POS || c == InsnClass::LDST_REGOFF || c
        == InsnClass::LDST_UNSCALED
}

/// Whether the class is one of the load/store pair or literal classes whose
/// opc field selects the register view.
pub open spec fn is_ldst_pair_class(c: InsnClass) -> bool {
    c == InsnClass::LDSTPAIR_OFF || c == InsnClass::LDSTNAPAIR_OFFS || c
        == InsnClass::LDSTPAIR_INDEXED || c == InsnClass::LOADLIT
}

/// The register view of a floating-point register operand whose number is
/// `number`, for instruction word `bits`.
pub open spec fn fp_reg_view(
    bits: u32,
    kind: InsnOperandKind,
    qualifiers: Seq<InsnOperandQualifier>,
    class: InsnClass,
    flags: InsnFlags,
    mask: u32,
    number: u32,
) -> FpRegOperand {
    if is_ldst_reg_class(class) {
        let size = field(bits, 30, 2);
        let opc = field(bits, 22, 2);
        if opc == 0 || opc == 1 {
            FpRegOperand::Register {
                size: if size == 0 {
                    FpRegSize::B8
                } else if size == 1 {
                    FpRegSize::H16
                } else if size == 2 {
                    FpRegSize::S32
                } else {
                    FpRegSize::D64
                },
                number,
            }
        } else if size == 0 {
            FpRegOperand::Register { size: FpRegSize::Q128, number }
        } else {
            FpRegOperand::Undefined
        }
    } else if is_ldst_pair_class(class) {
        let opc = field(bits, 30, 2);
        if opc == 0 {
            FpRegOperand::Register { size: FpRegSize::S32, number }
        } else if opc == 1 {
            FpRegOperand::Register { size: FpRegSize::D64, number }
        } else if opc == 2 {
            FpRegOperand::Register { size: FpRegSize::Q128, number }
        } else {
            FpRegOperand::Undefined
        }
    } else if class == InsnClass::BFLOAT16 {
        if kind == InsnOperandKind::Fd {
            FpRegOperand::Register { size: FpRegSize::H16, number }
        } else if kind == InsnOperandKind::Fn {
            FpRegOperand::Register { size: FpRegSize::S32, number }
        } else {
            FpRegOperand::Undefined
        }
    } else if class == InsnClass::ASIMDALL {
        let size = field(bits, 22, 2);
        if size == 3 {
            FpRegOperand::Undefined
        } else if bit_of(bits as nat, 15) {
            FpRegOperand::Register {
                size: if size == 0 { FpRegSize::B8 } else if size == 1 { FpRegSize::H16 } else { FpRegSize::S32 },
                number,
            }
        } else {
            FpRegOperand::Register {
                size: if size == 0 { FpRegSize::H16 } else if size == 1 { FpRegSize::S32 } else { FpRegSize::D64 },
                number,
            }
        }
    } else if flags.bits & InsnFlags::HAS_FPTYPE_FIELD == InsnFlags::HAS_FPTYPE_FIELD {
        let fp_type = field(bits, 22, 2);
        if fp_type == 0 {
            FpRegOperand::Register { size: FpRegSize::S32, number }
        } else if fp_type == 1 {
            FpRegOperand::Register { size: FpRegSize::D64, number }
        } else if fp_type == 2 {
            FpRegOperand::Undefined
        } else {
            FpRegOperand::Register { size: FpRegSize::H16, number }
        }
    } else if flags.bits & InsnFlags::HAS_ADVSIMD_SCALAR_SIZE == InsnFlags::HAS_ADVSIMD_SCALAR_SIZE
        && qualifiers.len() > 1 {
        // FP [S_S, S_D] with bit 23 fixed by the mask: bit 22 alone selects S/D;
        // otherwise the size field indexes the list.
        let idx = if qualifiers.len() == 2 && qualifiers[0] == InsnOperandQualifier::S_S && bit_of(
            mask as nat,
            23,
        ) {
            Some(field(bits, 22, 1) as int)
        } else {
            match scalar_size_index(qualifiers.len(), field(bits, 22, 2)) {
                Some(i) => Some(i as int),
                None => None,
            }
        };
        register_or_undefined(listed_fp_size(qualifiers, idx), number)
    } else if qualifiers.len() > 1 {
        // The immh level indexes the list, offset by the level of its first entry
        // when the list has two entries.
        match (immh_level_of(bits), scalar_base_level(qualifiers[0])) {
            (Some(level), Some(base)) => {
                let idx: int = if qualifiers.len() >= 3 {
                    level as int
                } else if level >= base {
                    level - base
                } else {
                    0
                };
                register_or_undefined(listed_fp_size(qualifiers, Some(idx)), number)
            },
            _ => FpRegOperand::Undefined,
        }
    } else if qualifiers.len() == 1 {
        register_or_undefined(fp_size_of(qualifiers[0]), number)
    } else {
        FpRegOperand::KindPlaceholder
    }
}

/// What the floating-point register operand `operand` of `definition`
/// prints as for instruction word `bits`: the register its first bit field
/// numbers, at the view that the instruction's class, flags and the
/// operand's qualifiers select.
pub open spec fn fp_reg_operand_of(bits: u32, operand: InsnOperand, definition: Insn) -> FpRegOperand {
    if operand.bit_fields@.len() == 0 {
        FpRegOperand::KindPlaceholder
    } else {
        let bf = operand.bit_fields@[0];
        fp_reg_view(
            bits,
            operand.kind,
            operand.qualifiers@,
            definition.class,
            definition.flags,
            definition.mask,
            field(bits, bf.lsb as nat, bf.width as nat) as u32,
        )
    }
}

/// Select the register view of a floating-point register operand.
pub fn fp_reg_operand(bits: u32, operand: &InsnOperand, definition: &Insn) -> (reg: FpRegOperand)
    requires
        operand.bit_fields@.len() > 0 ==> operand.bit_fields@[0].lsb < 32
            && operand.bit_fields@[0].width < 32,
    ensures
        reg == fp_reg_operand_of(bits, *operand, *definition),
{
    let kind = operand.kind;
    if operand.bit_fields.len() == 0 {
        return FpRegOperand::KindPlaceholder;
    }
    let bit_field = operand.bit_fields[0];
    let reg_no = bit_range(bits, bit_field.lsb as u32, bit_field.width as u32);
    proof {
        lemma2_to64();
    }
    let qualifiers = &operand.qualifiers;

    match definition.class {
        InsnClass::LDST_IMM9
        | InsnClass::LDST_POS
        | InsnClass::LDST_REGOFF
        | InsnClass::LDST_UNSCALED => {
            let size = bit_range(bits, 30, 2);
            let opc = bit_range(bits, 22, 2);
            if opc == 0 || opc == 1 {
                let fp_size = if size == 0 {
                    FpRegSize::B8
                } else if size == 1 {
                    FpRegSize::H16
                } else if size == 2 {
                    FpRegSize::S32
                } else {
                    FpRegSize::D64
                };
                FpRegOperand::Register { size: fp_size, number: reg_no }
            } else if (opc == 0b10 || opc == 0b11) && size == 0 {
                FpRegOperand::Register { size: FpRegSize::Q128, number: reg_no }
            } else {
                FpRegOperand::Undefined
            }
        },
        InsnClass::LDSTPAIR_OFF
        | InsnClass::LDSTNAPAIR_OFFS
        | InsnClass::LDSTPAIR_INDEXED
        | InsnClass::LOADLIT => {
            let opc = bit_range(bits, 30, 2);
            if opc == 0 {
                FpRegOperand::Register { size: FpRegSize::S32, number: reg_no }
            } else if opc == 1 {
                FpRegOperand::Register { size: FpRegSize::D64, number: reg_no }
            } else if opc == 2 {
                FpRegOperand::Register { size: FpRegSize::Q128, number: reg_no }
            } else {
                FpRegOperand::Undefined
            }
        },
        InsnClass::BFLOAT16 => match kind {
            InsnOperandKind::Fd => FpRegOperand::Register { size: FpRegSize::H16, number: reg_no },
            InsnOperandKind::Fn => FpRegOperand::Register { size: FpRegSize::S32, number: reg_no },
            _ => FpRegOperand::Undefined,
        },
        InsnClass::ASIMDALL => {
            let size = bit_range(bits, 22, 2);
            let cross_lane = bit_set(bits, 15);
            if cross_lane {
                if size == 0b00 {
                    FpRegOperand::Register { size: FpRegSize::B8, number: reg_no }
                } else if size == 0b01 {
                    FpRegOperand::Register { size: FpRegSize::H16, number: reg_no }
                } else if size == 0b10 {
                    FpRegOperand::Register { size: FpRegSize::S32, number: reg_no }
                } else {
                    FpRegOperand::Undefined
                }
            } else {
                if size == 0b00 {
                    FpRegOperand::Register { size: FpRegSize::H16, number: reg_no }
                } else if size == 0b01 {
                    FpRegOperand::Register { size: FpRegSize::S32, number: reg_no }
                } else if size == 0b10 {
                    FpRegOperand::Register { size: FpRegSize::D64, number: reg_no }
                } else {
                    FpRegOperand::Undefined
                }
            }
        },
        _ => {
            if definition.flags.contains(InsnFlags::HAS_FPTYPE_FIELD) {
                let fp_type = bit_range(bits, 22, 2);
                if fp_type == 0b00 {
                    FpRegOperand::Register { size: FpRegSize::S32, number: reg_no }
                } else if fp_type == 0b01 {
                    FpRegOperand::Register { size: FpRegSize::D64, number: reg_no }
                } else if fp_type == 0b10 {
                    FpRegOperand::Undefined
                } else {
                    FpRegOperand::Register { size: FpRegSize::H16, number: reg_no }
                }
            } else if definition.flags.contains(InsnFlags::HAS_ADVSIMD_SCALAR_SIZE)
                && qualifiers.len() > 1 {
                // Scalar ASISD: size bits[23:22] index into qualifier list.
                // FP [S_S,S_D] with bit23 constrained: bit22 alone selects S/D.
                // Integer widening [S_H,S_S] or [S_S,S_D]: size-1 as index.
                let size = bit_range(bits, 22, 2) as usize;
                let fp_scalar = qualifiers.len() == 2 && qualifiers[0] == InsnOperandQualifier::S_S
                    && (definition.mask >> 23) & 1 != 0;
                proof {
                    crate::bits::lemma_u32_shr_bit(definition.mask, 23);
                    let m = definition.mask >> 23;
                    assert((m & 1 != 0) == (m & 1 == 1)) by (bit_vector);
                }
                let idx = if fp_scalar {
                    // FP: bit22=0→S(idx 0), bit22=1→D(idx 1)
                    Some(bit_range(bits, 22, 1) as usize)
                } else {
                    scalar_size_qualifier_idx(qualifiers.as_slice(), size)
                };
                let fp_size = match idx {
                    Some(i) => if i < qualifiers.len() {
                        qualifier_to_fp_size(&qualifiers[i])
                    } else {
                        None
                    },
                    None => None,
                };
                match fp_size {
                    Some(fp) => FpRegOperand::Register { size: fp, number: reg_no },
                    None => FpRegOperand::Undefined,
                }
            } else if qualifiers.len() > 1 {
                // Multi-qualifier without ADVSIMD_SCALAR_SIZE (e.g., ASISDSHF):
                // use immh level to index, offset by first qualifier's absolute level
                let level = match immh_level(bits) {
                    Some(l) => l,
                    None => return FpRegOperand::Undefined,
                };
                let base: usize = match qualifiers[0] {
                    InsnOperandQualifier::S_B => 0,
                    InsnOperandQualifier::S_H => 1,
                    InsnOperandQualifier::S_S => 2,
                    InsnOperandQualifier::S_D => 3,
                    _ => return FpRegOperand::Undefined,
                };
                // For len>=3 lists, idx=level (direct mapping).
                // For len=2 lists, idx=level-base (offset by first qualifier level).
                let idx = if qualifiers.len() >= 3 {
                    level
                } else {
                    match level.checked_sub(base) {
                        Some(i) => i,
                        None => 0,
                    }
                };
                let fp_size = if idx < qualifiers.len() {
                    qualifier_to_fp_size(&qualifiers[idx])
                } else {
                    None
                };
                match fp_size {
                    Some(fp) => FpRegOperand::Register { size: fp, number: reg_no },
                    None => FpRegOperand::Undefined,
                }
            } else if qualifiers.len() == 1 {
                match qualifier_to_fp_size(&qualifiers[0]) {
                    Some(fp) => FpRegOperand::Register { size: fp, number: reg_no },
                    None => FpRegOperand::Undefined,
                }
            } else {
                FpRegOperand::KindPlaceholder
            }
        },
    }
}

/// The bit pattern of an expanded floating-point immediate.
#[derive(Clone, Copy, Debug, PartialEq, Eq, Structural)]
pub enum FpImmBits {
    /// An IEEE 754 double-precision pattern.
    Double(u64),
    /// An IEEE 754 single-precision pattern.
    Single(u32),
}

/// Bit `i` of `imm8` as 0 or 1.
pub open spec fn imm8_bit(imm8: u32, i: nat) -> nat {
    if bit_of(imm8 as nat, i) { 1 } else { 0 }
}

/// VFPExpandImm(imm8, 64): sign imm8<7>, exponent NOT(imm8<6>) followed by
/// imm8<6> eight times and imm8<5:4>, fraction imm8<3:0> followed by zeros.
pub open spec fn expand_imm_double(imm8: u32) -> nat {
    (imm8_bit(imm8, 7) * pow2(63) + (1 - imm8_bit(imm8, 6)) * pow2(62) + imm8_bit(imm8, 6) * 0xff
        * pow2(54) + (imm8 as nat % 64) * pow2(48)) as nat
}

/// VFPExpandImm(imm8, 32): sign imm8<7>, exponent NOT(imm8<6>) followed by
/// imm8<6> five times and imm8<5:4>, fraction imm8<3:0> followed by zeros.
pub open spec fn expand_imm_single(imm8: u32) -> nat {
    (imm8_bit(imm8, 7) * pow2(31) + (1 - imm8_bit(imm8, 6)) * pow2(30) + imm8_bit(imm8, 6) * 0x1f
        * pow2(25) + (imm8 as nat % 64) * pow2(19)) as nat
}

/// Follows `bits(N) VFPExpandImm(bits(8) imm8, integer N)` in the A64
/// reference, for a register of `size` bytes: the double-precision pattern
/// for 8 bytes, the single-precision one for 4 and 2 (a half-precision value
/// is exactly representable in single precision), none otherwise.
pub fn fp_expand_imm_bits(size: i32, imm8: u32) -> (imm: Option<FpImmBits>)
    ensures
        size == 8 ==> imm == Some(FpImmBits::Double(expand_imm_double(imm8) as u64)),
        size == 4 || size == 2 ==> imm == Some(FpImmBits::Single(expand_imm_single(imm8) as u32)),
        size != 8 && size != 4 && size != 2 ==> imm is None,
{
    let imm8_7 = (imm8 >> 7) & 0x01;  // imm8<7>
    let imm8_6_0 = imm8 & 0x7f;  // imm8<6:0>
    let imm8_6 = imm8_6_0 >> 6;  // imm8<6>
    let imm8_6_repl4 = (imm8_6 << 3) | (imm8_6 << 2) | (imm8_6 << 1) | imm8_6;  // Replicate(imm8<6>,4)
    proof {
        lemma2_to64();
        lemma2_to64_rest();
        crate::bits::lemma_u32_shr_bit(imm8, 7);
        crate::bits::lemma_u32_shr_bit(imm8, 6);
        assert(imm8_6 == (imm8 >> 6) & 1) by (bit_vector)
            requires
                imm8_6_0 == imm8 & 0x7f,
                imm8_6 == imm8_6_0 >> 6,
        ;
        assert(imm8 & 0x3f == imm8 % 64) by (bit_vector);
        assert(imm8_7 <= 1 && (imm8 >> 6) & 1 <= 1) by (bit_vector)
            requires
                imm8_7 == (imm8 >> 7) & 0x01,
        ;
        assert(imm8_bit(imm8, 7) == imm8_7 as nat && imm8_bit(imm8, 6) == imm8_6 as nat);
        assert(imm8_6_0 == (imm8 & 0x3f) + imm8_6 * 64) by (bit_vector)
            requires
                imm8_6_0 == imm8 & 0x7f,
                imm8_6 == imm8_6_0 >> 6,
        ;
        assert(imm8_6_repl4 == imm8_6 * 15) by (bit_vector)
            requires
                imm8_6 <= 1,
                imm8_6_repl4 == (imm8_6 << 3) | (imm8_6 << 2) | (imm8_6 << 1) | imm8_6,
        ;
    }
    if size == 8 {
        // Double-precision
        let imm: u64 = ((imm8_7 as u64) << (63 - 32))  // imm8<7>
         | (((imm8_6 ^ 1) as u64) << (62 - 32))  // NOT(imm8<6>)
         | ((imm8_6_repl4 as u64) << (58 - 32)) | ((imm8_6 as u64) << (57 - 32)) | ((imm8_6 as u64)
            << (56 - 32)) | ((imm8_6 as u64) << (55 - 32))  // Replicate(imm8<6>,7)
         | ((imm8_6_0 as u64) << (48 - 32));  // imm8<6>:imm8<5:0>
        let lo = (imm8 & 0x3f) as u64;
        let b7 = imm8_7 as u64;
        let b6 = imm8_6 as u64;
        assert((imm8_6 ^ 1) as u64 == b6 ^ 1) by (bit_vector)
            requires
                b6 == imm8_6,
        ;
        assert(imm8_6_repl4 as u64 == (b6 * 15) as u64 && imm8_6_0 as u64 == (lo + b6 * 64) as u64);
        assert(imm << 32 == b7 * 0x8000_0000_0000_0000 + (1 - b6) * 0x4000_0000_0000_0000 + b6
            * 0xff * 0x40_0000_0000_0000 + lo * 0x1_0000_0000_0000) by (bit_vector)
            requires
                b7 <= 1,
                b6 <= 1,
                lo < 64,
                imm == (b7 << 31) | ((b6 ^ 1) << 30) | (((b6 * 15) as u64) << 26) | (b6 << 25) | (b6
                    << 24) | (b6 << 23) | (((lo + b6 * 64) as u64) << 16),
        ;
        Some(FpImmBits::Double(imm << 32))
    } else if size == 4 || size == 2 {
        // Single precision | Half-precision
        let imm = ((imm8_7 as u64) << 31)  // imm8<7>
         | (((imm8_6 ^ 1) as u64) << 30)  // NOT(imm8<6>)
         | ((imm8_6_repl4 as u64) << 26)  // Replicate(imm8<6>,4)
         | ((imm8_6_0 as u64) << 19);  // imm8<6>:imm8<5:0>
        let lo = (imm8 & 0x3f) as u64;
        let b7 = imm8_7 as u64;
        let b6 = imm8_6 as u64;
        assert((imm8_6 ^ 1) as u64 == b6 ^ 1) by (bit_vector)
            requires
                b6 == imm8_6,
        ;
        assert(imm8_6_repl4 as u64 == (b6 * 15) as u64 && imm8_6_0 as u64 == (lo + b6 * 64) as u64);
        assert(imm == b7 * 0x8000_0000 + (1 - b6) * 0x4000_0000 + b6 * 0x1f * 0x200_0000 + lo
            * 0x8_0000) by (bit_vector)
            requires
                b7 <= 1,
                b6 <= 1,
                lo < 64,
                imm == (b7 << 31) | ((b6 ^ 1) << 30) | (((b6 * 15) as u64) << 26) | (((lo + b6 * 64)
                    as u64) << 19),
        ;
        Some(FpImmBits::Single(imm as u32))
    } else {
        None
    }
}

/// The single- and double-precision expansions of one `imm8` encode the same
/// number: the same sign (imm8<7>), the same unbiased exponent, which lies
/// in -3..=4, and the same four leading fraction bits (imm8<3:0>), with every
/// lower fraction bit zero.
pub proof fn lemma_fp_expand_imm_same_value(imm8: u32)
    ensures
        ({
            let s = expand_imm_single(imm8);
            let d = expand_imm_double(imm8);
            let exp_s = (s / pow2(23)) % 256 - 127;
            let exp_d = (d / pow2(52)) % 2048 - 1023;
            &&& s < pow2(32) && d < pow2(64)
            &&& s / pow2(31) == imm8_bit(imm8, 7) && d / pow2(63) == imm8_bit(imm8, 7)
            &&& exp_s == exp_d
            &&& -3 <= exp_s <= 4
            &&& (s / pow2(19)) % 16 == imm8 % 16 && (d / pow2(48)) % 16 == imm8 % 16
            &&& s % pow2(19) == 0 && d % pow2(48) == 0
        }),
{
    lemma2_to64();
    lemma2_to64_rest();
    let b7 = imm8_bit(imm8, 7) as int;
    let b6 = imm8_bit(imm8, 6) as int;
    let lo = (imm8 as nat % 64) as int;
    let e2 = lo / 16;
    let f = lo % 16;
    assert(lo == 16 * e2 + f);
    assert(imm8 % 16 == f) by {
        vstd::arithmetic::div_mod::lemma_mod_mod(imm8 as int, 16, 4);
    }
    let es = (1 - b6) * 128 + b6 * 124 + e2;
    let ed = (1 - b6) * 1024 + b6 * 1020 + e2;
    let s = expand_imm_single(imm8) as int;
    let d = expand_imm_double(imm8) as int;
    assert(s == b7 * 0x8000_0000 + es * 0x80_0000 + f * 0x8_0000);
    assert(d == b7 * 0x8000_0000_0000_0000 + ed * 0x10_0000_0000_0000 + f * 0x1_0000_0000_0000);
    vstd::arithmetic::div_mod::lemma_fundamental_div_mod_converse(s, 0x8_0000, b7 * 0x1000 + es * 16 + f, 0);
    vstd::arithmetic::div_mod::lemma_fundamental_div_mod_converse(b7 * 0x1000 + es * 16 + f, 16, b7 * 0x100 + es, f);
    vstd::arithmetic::div_mod::lemma_fundamental_div_mod_converse(s, 0x80_0000, b7 * 256 + es, f * 0x8_0000);
    vstd::arithmetic::div_mod::lemma_fundamental_div_mod_converse(b7 * 256 + es, 256, b7, es);
    vstd::arithmetic::div_mod::lemma_fundamental_div_mod_converse(s, 0x8000_0000, b7, es * 0x80_0000 + f * 0x8_0000);
    vstd::arithmetic::div_mod::lemma_fundamental_div_mod_converse(d, 0x1_0000_0000_0000, b7 * 0x8000 + ed * 16 + f, 0);
    vstd::arithmetic::div_mod::lemma_fundamental_div_mod_converse(b7 * 0x8000 + ed * 16 + f, 16, b7 * 0x800 + ed, f);
    vstd::arithmetic::div_mod::lemma_fundamental_div_mod_converse(d, 0x10_0000_0000_0000, b7 * 2048 + ed, f * 0x1_0000_0000_0000);
    vstd::arithmetic::div_mod::lemma_fundamental_div_mod_converse(b7 * 2048 + ed, 2048, b7, ed);
    vstd::arithmetic::div_mod::lemma_fundamental_div_mod_converse(d, 0x8000_0000_0000_0000, b7, ed * 0x10_0000_0000_0000 + f * 0x1_0000_0000_0000);
}

/// `r` is register `number` viewed `width` bits wide.
pub open spec fn is_register_of_width(r: FpRegOperand, width: nat, number: u32) -> bool {
    r matches FpRegOperand::Register { size, number: n } && fp_reg_bits(size) == width && n == number
}

/// The register number that the first bit field of an operand reads.
pub open spec fn operand_number(bits: u32, operand: InsnOperand) -> u32 {
    field(bits, operand.bit_fields@[0].lsb as nat, operand.bit_fields@[0].width as nat) as u32
}

/// Whether the class is one that neither the load/store rules nor the
/// BFLOAT16 and across-lanes rules cover.
pub open spec fn is_other_class(c: InsnClass) -> bool {
    !is_ldst_reg_class(c) && !is_ldst_pair_class(c) && c != InsnClass::BFLOAT16 && c
        != InsnClass::ASIMDALL
}

/// Loads and stores of a single register: with opc 0 or 1 the register is
/// `8 * 2^size` bits wide (b, h, s, d); with opc 2 or 3 and size 0 it is the
/// 128-bit q register; any other combination names no register.
pub proof fn lemma_fp_ldst_register_width(bits: u32, operand: InsnOperand, definition: Insn)
    requires
        is_ldst_reg_class(definition.class),
        operand.bit_fields@.len() > 0,
    ensures
        field(bits, 22, 2) < 2 ==> is_register_of_width(
            fp_reg_operand_of(bits, operand, definition),
            8 * pow2(field(bits, 30, 2)),
            operand_number(bits, operand),
        ),
        field(bits, 22, 2) >= 2 && field(bits, 30, 2) == 0 ==> is_register_of_width(
            fp_reg_operand_of(bits, operand, definition),
            128,
            operand_number(bits, operand),
        ),
        field(bits, 22, 2) >= 2 && field(bits, 30, 2) != 0 ==> fp_reg_operand_of(bits, operand, definition)
            == FpRegOperand::Undefined,
{
    lemma2_to64();
}

/// Loads and stores of a register pair and literal loads: opc 0, 1, 2 give
/// a register `32 * 2^opc` bits wide (s, d, q); opc 3 names none.
pub proof fn lemma_fp_ldst_pair_register_width(bits: u32, operand: InsnOperand, definition: Insn)
    requires
        is_ldst_pair_class(definition.class),
        !is_ldst_reg_class(definition.class),
        operand.bit_fields@.len() > 0,
    ensures
        field(bits, 30, 2) < 3 ==> is_register_of_width(
            fp_reg_operand_of(bits, operand, definition),
            32 * pow2(field(bits, 30, 2)),
            operand_number(bits, operand),
        ),
        field(bits, 30, 2) == 3 ==> fp_reg_operand_of(bits, operand, definition) == FpRegOperand::Undefined,
{
    lemma2_to64();
}

/// BFLOAT16 conversions write a 16-bit h register from a 32-bit s register.
pub proof fn lemma_fp_bfloat16_register_width(bits: u32, operand: InsnOperand, definition: Insn)
    requires
        definition.class == InsnClass::BFLOAT16,
        operand.bit_fields@.len() > 0,
    ensures
        operand.kind == InsnOperandKind::Fd ==> is_register_of_width(
            fp_reg_operand_of(bits, operand, definition),
            16,
            operand_number(bits, operand),
        ),
        operand.kind == InsnOperandKind::Fn ==> is_register_of_width(
            fp_reg_operand_of(bits, operand, definition),
            32,
            operand_number(bits, operand),
        ),
        operand.kind != InsnOperandKind::Fd && operand.kind != InsnOperandKind::Fn
            ==> fp_reg_operand_of(bits, operand, definition) == FpRegOperand::Undefined,
{
}

/// Across-lanes reductions: the scalar result is as wide as one lane,
/// `8 * 2^size` bits, for the integer forms (bit 15 set) and twice that for
/// the others; size 3 names no register.
pub proof fn lemma_fp_across_lanes_register_width(bits: u32, operand: InsnOperand, definition: Insn)
    requires
        definition.class == InsnClass::ASIMDALL,
        operand.bit_fields@.len() > 0,
    ensures
        field(bits, 22, 2) < 3 ==> is_register_of_width(
            fp_reg_operand_of(bits, operand, definition),
            (if bit_of(bits as nat, 15) { 8nat } else { 16nat }) * pow2(field(bits, 22, 2)),
            operand_number(bits, operand),
        ),
        field(bits, 22, 2) == 3 ==> fp_reg_operand_of(bits, operand, definition) == FpRegOperand::Undefined,
{
    lemma2_to64();
}

/// The ftype field of floating-point data processing: 0 single (32 bits),
/// 1 double (64), 3 half (16), 2 none.
pub proof fn lemma_fp_ftype_register_width(bits: u32, operand: InsnOperand, definition: Insn)
    requires
        is_other_class(definition.class),
        definition.flags.bits & InsnFlags::HAS_FPTYPE_FIELD == InsnFlags::HAS_FPTYPE_FIELD,
        operand.bit_fields@.len() > 0,
    ensures
        field(bits, 22, 2) == 0 ==> is_register_of_width(fp_reg_operand_of(bits, operand, definition), 32, operand_number(bits, operand)),
        field(bits, 22, 2) == 1 ==> is_register_of_width(fp_reg_operand_of(bits, operand, definition), 64, operand_number(bits, operand)),
        field(bits, 22, 2) == 3 ==> is_register_of_width(fp_reg_operand_of(bits, operand, definition), 16, operand_number(bits, operand)),
        field(bits, 22, 2) == 2 ==> fp_reg_operand_of(bits, operand, definition) == FpRegOperand::Undefined,
{
}

/// A floating-point scalar with an [S, D] qualifier pair whose bit 23 the
/// mask fixes: bit 22 picks a register `32 * 2^bit22` bits wide.
pub proof fn lemma_fp_scalar_pair_register_width(bits: u32, operand: InsnOperand, definition: Insn)
    requires
        is_other_class(definition.class),
        definition.flags.bits & InsnFlags::HAS_FPTYPE_FIELD != InsnFlags::HAS_FPTYPE_FIELD,
        definition.flags.bits & InsnFlags::HAS_ADVSIMD_SCALAR_SIZE == InsnFlags::HAS_ADVSIMD_SCALAR_SIZE,
        operand.qualifiers@ == seq![InsnOperandQualifier::S_S, InsnOperandQualifier::S_D],
        bit_of(definition.mask as nat, 23),
        operand.bit_fields@.len() > 0,
    ensures
        is_register_of_width(
            fp_reg_operand_of(bits, operand, definition),
            32 * pow2(field(bits, 22, 1)),
            operand_number(bits, operand),
        ),
{
    lemma2_to64();
}

/// Shifts by immediate with a full [B, H, S, D] qualifier list: the immh
/// level `l` (the highest set bit of immh) gives a register `8 * 2^l` bits
/// wide; immh 0 names none.
pub proof fn lemma_fp_immh_register_width(bits: u32, operand: InsnOperand, definition: Insn)
    requires
        is_other_class(definition.class),
        definition.flags.bits & InsnFlags::HAS_FPTYPE_FIELD != InsnFlags::HAS_FPTYPE_FIELD,
        definition.flags.bits & InsnFlags::HAS_ADVSIMD_SCALAR_SIZE != InsnFlags::HAS_ADVSIMD_SCALAR_SIZE,
        operand.qualifiers@ == seq![
            InsnOperandQualifier::S_B,
            InsnOperandQualifier::S_H,
            InsnOperandQualifier::S_S,
            InsnOperandQualifier::S_D,
        ],
        operand.bit_fields@.len() > 0,
    ensures
        crate::qualifier::immh_field(bits) == 0 ==> fp_reg_operand_of(bits, operand, definition)
            == FpRegOperand::Undefined,
        forall|l: nat|
            l < 4 && pow2(l) <= crate::qualifier::immh_field(bits) < pow2(l + 1) ==> is_register_of_width(
                fp_reg_operand_of(bits, operand, definition),
                8 * pow2(l),
                operand_number(bits, operand),
            ),
{
    lemma2_to64();
    crate::qualifier::lemma_immh_level_is_highest_bit(bits);
}

/// Scalar instructions with an AdvSIMD size field: with the full list
/// [S_B, S_H, S_S, S_D], or the widening pair [S_H, S_S] for size 1 and 2, the
/// register is `8 * 2^size` bits wide.
pub proof fn lemma_fp_scalar_size_register_width(bits: u32, operand: InsnOperand, definition: Insn)
    requires
        is_other_class(definition.class),
        definition.flags.bits & InsnFlags::HAS_FPTYPE_FIELD != InsnFlags::HAS_FPTYPE_FIELD,
        definition.flags.bits & InsnFlags::HAS_ADVSIMD_SCALAR_SIZE == InsnFlags::HAS_ADVSIMD_SCALAR_SIZE,
        operand.bit_fields@.len() > 0,
    ensures
        operand.qualifiers@ == seq![
            InsnOperandQualifier::S_B,
            InsnOperandQualifier::S_H,
            InsnOperandQualifier::S_S,
            InsnOperandQualifier::S_D,
        ] ==> is_register_of_width(
            fp_reg_operand_of(bits, operand, definition),
            8 * pow2(field(bits, 22, 2)),
            operand_number(bits, operand),
        ),
        operand.qualifiers@ == seq![InsnOperandQualifier::S_H, InsnOperandQualifier::S_S] && 1 <= field(
            bits,
            22,
            2,
        ) <= 2 ==> is_register_of_width(
            fp_reg_operand_of(bits, operand, definition),
            8 * pow2(field(bits, 22, 2)),
            operand_number(bits, operand),
        ),
{
    lemma2_to64();
}

/// Shifts by immediate with a two-entry list of consecutive scalar widths:
/// an immh level `l` at one of the two widths gives a register `8 * 2^l`
/// bits wide.
pub proof fn lemma_fp_immh_pair_register_width(bits: u32, operand: InsnOperand, definition: Insn, l: nat)
    requires
        is_other_class(definition.class),
        definition.flags.bits & InsnFlags::HAS_FPTYPE_FIELD != InsnFlags::HAS_FPTYPE_FIELD,
        definition.flags.bits & InsnFlags::HAS_ADVSIMD_SCALAR_SIZE != InsnFlags::HAS_ADVSIMD_SCALAR_SIZE,
        operand.qualifiers@.len() == 2,
        crate::qualifier::scalar_bits(operand.qualifiers@[0]) == 8 * pow2(l) || crate::qualifier::scalar_bits(
            operand.qualifiers@[0],
        ) * 2 == 8 * pow2(l),
        crate::qualifier::scalar_bits(operand.qualifiers@[1]) == 2 * crate::qualifier::scalar_bits(
            operand.qualifiers@[0],
        ),
        8 <= crate::qualifier::scalar_bits(operand.qualifiers@[0]) <= 32,
        l < 4,
        pow2(l) <= crate::qualifier::immh_field(bits) < pow2(l + 1),
        operand.bit_fields@.len() > 0,
    ensures
        is_register_of_width(
            fp_reg_operand_of(bits, operand, definition),
            8 * pow2(l),
            operand_number(bits, operand),
        ),
{
    lemma2_to64();
    crate::qualifier::lemma_immh_level_is_highest_bit(bits);
}

/// With a single scalar qualifier and no field that selects a size, the
/// register is as wide as that scalar.
pub proof fn lemma_fp_single_qualifier_register_width(bits: u32, operand: InsnOperand, definition: Insn)
    requires
        is_other_class(definition.class),
        definition.flags.bits & InsnFlags::HAS_FPTYPE_FIELD != InsnFlags::HAS_FPTYPE_FIELD,
        operand.qualifiers@.len() == 1,
        operand.bit_fields@.len() > 0,
    ensures
        crate::qualifier::scalar_bits(operand.qualifiers@[0]) > 0 ==> is_register_of_width(
            fp_reg_operand_of(bits, operand, definition),
            crate::qualifier::scalar_bits(operand.qualifiers@[0]),
            operand_number(bits, operand),
        ),
        crate::qualifier::scalar_bits(operand.qualifiers@[0]) == 0 ==> fp_reg_operand_of(bits, operand, definition)
            == FpRegOperand::Undefined,
{
}

} // verus!
