use disarm64::defn::{BitField, Insn, InsnClass, InsnFlags, InsnOperand, InsnOperandKind, InsnOperandQualifier as Q};
use disarm64::fp::{fp_expand_imm_bits, fp_reg_operand, FpImmBits, FpRegOperand};
use disarm64::registers::FpRegSize;

fn operand(kind: InsnOperandKind, qualifiers: Vec<Q>) -> InsnOperand {
    InsnOperand { kind, qualifiers, bit_fields: vec![BitField { lsb: 0, width: 5 }] }
}

fn insn(class: InsnClass, flags: u64, mask: u32) -> Insn {
    Insn { class, flags: InsnFlags { bits: flags }, mask }
}

fn reg(size: FpRegSize, number: u32) -> FpRegOperand {
    FpRegOperand::Register { size, number }
}

#[test]
fn load_store_register_views() {
    let op = operand(InsnOperandKind::Ft, vec![]);
    let ldst = insn(InsnClass::LDST_POS, 0, 0);
    // size = 0b11, opc = 0b01: a D register.
    let bits = (0b11 << 30) | (0b01 << 22) | 7;
    assert_eq!(fp_reg_operand(bits, &op, &ldst), reg(FpRegSize::D64, 7));
    assert_eq!(fp_reg_operand((0b00 << 30) | 3, &op, &ldst), reg(FpRegSize::B8, 3));
    assert_eq!(fp_reg_operand((0b01 << 30) | 31, &op, &ldst), reg(FpRegSize::H16, 31));
    // opc = 0b10 with size 0: a Q register; with another size: undefined.
    assert_eq!(fp_reg_operand((0b10 << 22) | 1, &op, &ldst), reg(FpRegSize::Q128, 1));
    assert_eq!(fp_reg_operand((0b01 << 30) | (0b11 << 22), &op, &ldst), FpRegOperand::Undefined);
}

#[test]
fn load_store_pair_views() {
    let op = operand(InsnOperandKind::Ft, vec![]);
    let pair = insn(InsnClass::LDSTPAIR_OFF, 0, 0);
    assert_eq!(fp_reg_operand(2, &op, &pair), reg(FpRegSize::S32, 2));
    assert_eq!(fp_reg_operand((1 << 30) | 2, &op, &pair), reg(FpRegSize::D64, 2));
    assert_eq!(fp_reg_operand((2 << 30) | 2, &op, &pair), reg(FpRegSize::Q128, 2));
    assert_eq!(fp_reg_operand(3 << 30, &op, &pair), FpRegOperand::Undefined);
    let lit = insn(InsnClass::LOADLIT, 0, 0);
    assert_eq!(fp_reg_operand((1 << 30) | 9, &op, &lit), reg(FpRegSize::D64, 9));
}

#[test]
fn bfloat16_views_by_operand_kind() {
    let bf = insn(InsnClass::BFLOAT16, 0, 0);
    assert_eq!(fp_reg_operand(4, &operand(InsnOperandKind::Fd, vec![]), &bf), reg(FpRegSize::H16, 4));
    assert_eq!(fp_reg_operand(4, &operand(InsnOperandKind::Fn, vec![]), &bf), reg(FpRegSize::S32, 4));
    assert_eq!(fp_reg_operand(4, &operand(InsnOperandKind::Fm, vec![]), &bf), FpRegOperand::Undefined);
}

#[test]
fn across_lanes_views() {
    let op = operand(InsnOperandKind::Fd, vec![]);
    let all = insn(InsnClass::ASIMDALL, 0, 0);
    let cross = 1 << 15;
    assert_eq!(fp_reg_operand(cross | 5, &op, &all), reg(FpRegSize::B8, 5));
    assert_eq!(fp_reg_operand(cross | (2 << 22) | 5, &op, &all), reg(FpRegSize::S32, 5));
    assert_eq!(fp_reg_operand(cross | (3 << 22), &op, &all), FpRegOperand::Undefined);
    assert_eq!(fp_reg_operand(5, &op, &all), reg(FpRegSize::H16, 5));
    assert_eq!(fp_reg_operand((2 << 22) | 5, &op, &all), reg(FpRegSize::D64, 5));
    assert_eq!(fp_reg_operand(3 << 22, &op, &all), FpRegOperand::Undefined);
}

#[test]
fn fp_type_field_views() {
    let op = operand(InsnOperandKind::Fd, vec![]);
    let fp = insn(InsnClass::FLOATDP2, InsnFlags::HAS_FPTYPE_FIELD, 0);
    assert_eq!(fp_reg_operand(1, &op, &fp), reg(FpRegSize::S32, 1));
    assert_eq!(fp_reg_operand((1 << 22) | 1, &op, &fp), reg(FpRegSize::D64, 1));
    assert_eq!(fp_reg_operand(2 << 22, &op, &fp), FpRegOperand::Undefined);
    assert_eq!(fp_reg_operand((3 << 22) | 1, &op, &fp), reg(FpRegSize::H16, 1));
}

#[test]
fn scalar_size_field_views() {
    let scalar = insn(InsnClass::ASISDSAME, InsnFlags::HAS_ADVSIMD_SCALAR_SIZE, 1 << 23);
    let fp = operand(InsnOperandKind::Sd, vec![Q::S_S, Q::S_D]);
    assert_eq!(fp_reg_operand((1 << 22) | 6, &fp, &scalar), reg(FpRegSize::D64, 6));
    assert_eq!(fp_reg_operand(6, &fp, &scalar), reg(FpRegSize::S32, 6));
    let unconstrained = insn(InsnClass::ASISDSAME, InsnFlags::HAS_ADVSIMD_SCALAR_SIZE, 0);
    let widening = operand(InsnOperandKind::Sd, vec![Q::S_H, Q::S_S]);
    assert_eq!(fp_reg_operand((2 << 22) | 6, &widening, &unconstrained), reg(FpRegSize::S32, 6));
    assert_eq!(fp_reg_operand(6, &widening, &unconstrained), FpRegOperand::Undefined);
    let full = operand(InsnOperandKind::Sd, vec![Q::S_B, Q::S_H, Q::S_S, Q::S_D]);
    assert_eq!(fp_reg_operand((1 << 22) | 6, &full, &unconstrained), reg(FpRegSize::H16, 6));
}

#[test]
fn immh_level_views() {
    let shift = insn(InsnClass::ASISDSHF, 0, 0);
    let pair = operand(InsnOperandKind::Sd, vec![Q::S_S, Q::S_D]);
    // immh = 0b1xxx: level 3 (D), index 3 - 2 = 1.
    assert_eq!(fp_reg_operand((0b1000 << 19) | 2, &pair, &shift), reg(FpRegSize::D64, 2));
    // immh = 0b01xx: level 2 (S), index 0.
    assert_eq!(fp_reg_operand((0b0100 << 19) | 2, &pair, &shift), reg(FpRegSize::S32, 2));
    // immh = 0b0001: level 0, below the base: index 0.
    assert_eq!(fp_reg_operand((0b0001 << 19) | 2, &pair, &shift), reg(FpRegSize::S32, 2));
    // immh = 0: reserved.
    assert_eq!(fp_reg_operand(2, &pair, &shift), FpRegOperand::Undefined);
    let full = operand(InsnOperandKind::Sd, vec![Q::S_B, Q::S_H, Q::S_S, Q::S_D]);
    assert_eq!(fp_reg_operand((0b0010 << 19) | 2, &full, &shift), reg(FpRegSize::H16, 2));
    let vector_first = operand(InsnOperandKind::Sd, vec![Q::V_4S, Q::S_D]);
    assert_eq!(fp_reg_operand((0b1000 << 19) | 2, &vector_first, &shift), FpRegOperand::Undefined);
}

#[test]
fn single_qualifier_and_fallbacks() {
    let other = insn(InsnClass::FLOATDP1, 0, 0);
    assert_eq!(fp_reg_operand(12, &operand(InsnOperandKind::Sd, vec![Q::S_Q]), &other), reg(FpRegSize::Q128, 12));
    assert_eq!(fp_reg_operand(12, &operand(InsnOperandKind::Sd, vec![Q::V_4S]), &other), FpRegOperand::Undefined);
    assert_eq!(fp_reg_operand(12, &operand(InsnOperandKind::Sd, vec![]), &other), FpRegOperand::KindPlaceholder);
    let no_field = InsnOperand { kind: InsnOperandKind::Sd, qualifiers: vec![Q::S_S], bit_fields: vec![] };
    assert_eq!(fp_reg_operand(12, &no_field, &other), FpRegOperand::KindPlaceholder);
}

#[test]
fn register_number_from_first_bit_field() {
    let op = InsnOperand {
        kind: InsnOperandKind::Sd,
        qualifiers: vec![Q::S_H],
        bit_fields: vec![BitField { lsb: 16, width: 5 }, BitField { lsb: 0, width: 5 }],
    };
    let other = insn(InsnClass::FLOATDP1, 0, 0);
    assert_eq!(fp_reg_operand((21 << 16) | 3, &op, &other), reg(FpRegSize::H16, 21));
}

#[test]
fn expand_imm_one() {
    assert_eq!(fp_expand_imm_bits(8, 0x70), Some(FpImmBits::Double(0x3ff0_0000_0000_0000)));
    assert_eq!(fp_expand_imm_bits(4, 0x70), Some(FpImmBits::Single(0x3f80_0000)));
    assert_eq!(fp_expand_imm_bits(2, 0x70), Some(FpImmBits::Single(0x3f80_0000)));
}

#[test]
fn expand_imm_values() {
    // 2.0, -2.0, 0.125 and 31.0.
    assert_eq!(fp_expand_imm_bits(8, 0x00), Some(FpImmBits::Double(0x4000_0000_0000_0000)));
    assert_eq!(fp_expand_imm_bits(8, 0x80), Some(FpImmBits::Double(0xc000_0000_0000_0000)));
    assert_eq!(fp_expand_imm_bits(4, 0x40), Some(FpImmBits::Single(0x3e00_0000)));
    assert_eq!(fp_expand_imm_bits(4, 0x3f), Some(FpImmBits::Single(0x41f8_0000)));
    if let Some(FpImmBits::Double(b)) = fp_expand_imm_bits(8, 0x3f) {
        assert_eq!(f64::from_bits(b), 31.0);
    }
    if let Some(FpImmBits::Single(b)) = fp_expand_imm_bits(4, 0xc0) {
        assert_eq!(f32::from_bits(b), -0.125);
    }
}

#[test]
fn expand_imm_other_sizes() {
    assert_eq!(fp_expand_imm_bits(1, 0x70), None);
    assert_eq!(fp_expand_imm_bits(16, 0x70), None);
    assert_eq!(fp_expand_imm_bits(-8, 0x70), None);
}
