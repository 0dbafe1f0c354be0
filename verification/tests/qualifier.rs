use disarm64::defn::{InsnFlags, InsnOperandQualifier as Q};
use disarm64::qualifier::{
    asimdins_qualifier_idx, decode_imm5_element, immh_level, qualifier_arrangement,
    qualifier_element_size, qualifier_to_fp_size, qualifier_to_simd_reg, resolve_em_qualifier_idx,
    resolve_sizeq_arrangement, scalar_size_qualifier_idx,
};
use disarm64::registers::{FpRegSize, SimdRegArrangement};

#[test]
fn scalar_qualifiers_name_register_sizes() {
    assert_eq!(qualifier_to_fp_size(&Q::S_B), Some(FpRegSize::B8));
    assert_eq!(qualifier_to_fp_size(&Q::S_H), Some(FpRegSize::H16));
    assert_eq!(qualifier_to_fp_size(&Q::S_S), Some(FpRegSize::S32));
    assert_eq!(qualifier_to_fp_size(&Q::S_D), Some(FpRegSize::D64));
    assert_eq!(qualifier_to_fp_size(&Q::S_Q), Some(FpRegSize::Q128));
    assert_eq!(qualifier_to_fp_size(&Q::V_4S), None);
    assert_eq!(qualifier_to_fp_size(&Q::W), None);
}

#[test]
fn vector_qualifiers_name_element_sizes() {
    assert_eq!(qualifier_element_size(&Q::V_8B), 0);
    assert_eq!(qualifier_element_size(&Q::V_16B), 0);
    assert_eq!(qualifier_element_size(&Q::V_2H), 1);
    assert_eq!(qualifier_element_size(&Q::V_8H), 1);
    assert_eq!(qualifier_element_size(&Q::V_4S), 2);
    assert_eq!(qualifier_element_size(&Q::V_1D), 3);
    assert_eq!(qualifier_element_size(&Q::V_2D), 3);
    assert_eq!(qualifier_element_size(&Q::V_1Q), 0xFF);
    assert_eq!(qualifier_element_size(&Q::S_S), 0xFF);
}

#[test]
fn scalar_size_index_by_list_length() {
    let widening = [Q::S_H, Q::S_S];
    assert_eq!(scalar_size_qualifier_idx(&widening, 0), None);
    assert_eq!(scalar_size_qualifier_idx(&widening, 1), Some(0));
    assert_eq!(scalar_size_qualifier_idx(&widening, 2), Some(1));
    assert_eq!(scalar_size_qualifier_idx(&widening, 3), None);
    let full = [Q::S_B, Q::S_H, Q::S_S, Q::S_D];
    assert_eq!(scalar_size_qualifier_idx(&full, 3), Some(3));
    assert_eq!(scalar_size_qualifier_idx(&full, 4), None);
    assert_eq!(scalar_size_qualifier_idx(&[Q::S_S], 5), Some(0));
    assert_eq!(scalar_size_qualifier_idx(&[], 0), None);
}

#[test]
fn immh_level_is_highest_set_bit() {
    assert_eq!(immh_level(0), None);
    assert_eq!(immh_level(0b0001 << 19), Some(0));
    assert_eq!(immh_level(0b0011 << 19), Some(1));
    assert_eq!(immh_level(0b0101 << 19), Some(2));
    assert_eq!(immh_level(0b1111 << 19), Some(3));
    assert_eq!(immh_level(!(0b1111 << 19)), None);
}

#[test]
fn asimdins_index_from_imm5_and_q() {
    let q = 1 << 30;
    assert_eq!(asimdins_qualifier_idx(0b00001 << 16), Some(0));
    assert_eq!(asimdins_qualifier_idx((0b00011 << 16) | q), Some(1));
    assert_eq!(asimdins_qualifier_idx(0b00010 << 16), Some(2));
    assert_eq!(asimdins_qualifier_idx((0b00010 << 16) | q), Some(3));
    assert_eq!(asimdins_qualifier_idx((0b00100 << 16) | q), Some(5));
    assert_eq!(asimdins_qualifier_idx(0b01000 << 16), None);
    assert_eq!(asimdins_qualifier_idx((0b01000 << 16) | q), Some(6));
    assert_eq!(asimdins_qualifier_idx((0b10000 << 16) | q), None);
}

#[test]
fn imm5_element_suffix_and_index() {
    assert_eq!(decode_imm5_element(0b11011), Some(('b', 13)));
    assert_eq!(decode_imm5_element(0b00110), Some(('h', 1)));
    assert_eq!(decode_imm5_element(0b11100), Some(('s', 3)));
    assert_eq!(decode_imm5_element(0b11000), Some(('d', 1)));
    assert_eq!(decode_imm5_element(0b10000), None);
    assert_eq!(decode_imm5_element(0), None);
}

#[test]
fn imm5_element_round_trip() {
    for imm5 in 0..32u32 {
        if let Some((c, index)) = decode_imm5_element(imm5) {
            let lane = match c {
                'b' => 0,
                'h' => 1,
                's' => 2,
                _ => 3,
            };
            assert_eq!(imm5, (index << (lane + 1)) | (1 << lane));
        }
    }
}

#[test]
fn asimdins_agrees_with_imm5_element() {
    for imm5 in 0..32u32 {
        for q in [0u32, 1 << 30] {
            if let Some(i) = asimdins_qualifier_idx((imm5 << 16) | q) {
                let (c, _) = decode_imm5_element(imm5).unwrap();
                assert_eq!(c, ['b', 'h', 's', 'd'][i / 2]);
            }
        }
    }
}

#[test]
fn vector_qualifiers_name_arrangements() {
    assert_eq!(qualifier_to_simd_reg(&Q::V_8B), Some(SimdRegArrangement::Vector8B));
    assert_eq!(qualifier_to_simd_reg(&Q::V_2H), Some(SimdRegArrangement::Vector2H));
    assert_eq!(qualifier_to_simd_reg(&Q::V_1Q), Some(SimdRegArrangement::Vector1Q));
    assert_eq!(qualifier_to_simd_reg(&Q::S_D), None);
    assert_eq!(qualifier_arrangement(Q::V_16B), Some("16b"));
    assert_eq!(qualifier_arrangement(Q::V_2D), Some("2d"));
    assert_eq!(qualifier_arrangement(Q::V_2H), None);
    assert_eq!(qualifier_arrangement(Q::X), None);
}

#[test]
fn sizeq_arrangement_full_list() {
    let full = [Q::V_8B, Q::V_16B, Q::V_4H, Q::V_8H, Q::V_2S, Q::V_4S, Q::V_2D];
    assert_eq!(resolve_sizeq_arrangement(&full, 0, false), Some("8b"));
    assert_eq!(resolve_sizeq_arrangement(&full, 1, true), Some("8h"));
    assert_eq!(resolve_sizeq_arrangement(&full, 2, true), Some("4s"));
    assert_eq!(resolve_sizeq_arrangement(&full, 3, false), None);
    assert_eq!(resolve_sizeq_arrangement(&full, 3, true), Some("2d"));
}

#[test]
fn sizeq_arrangement_abbreviated_and_other_lists() {
    let abbreviated = [Q::V_8B, Q::V_16B, Q::V_4H, Q::V_8H];
    assert_eq!(resolve_sizeq_arrangement(&abbreviated, 2, true), Some("8h"));
    assert_eq!(resolve_sizeq_arrangement(&abbreviated, 3, true), Some("8h"));
    assert_eq!(resolve_sizeq_arrangement(&abbreviated, 3, false), None);
    let other = [Q::V_4S, Q::V_2D];
    assert_eq!(resolve_sizeq_arrangement(&other, 0, true), Some("2d"));
    assert_eq!(resolve_sizeq_arrangement(&other, 1, false), None);
}

#[test]
fn em_index_with_sizeq_field() {
    let flags = InsnFlags { bits: InsnFlags::HAS_SIZEQ_FIELD };
    let size = |s: u32| s << 22;
    let q = 1 << 30;
    let four = [Q::S_H, Q::S_H, Q::S_S, Q::S_S];
    assert_eq!(resolve_em_qualifier_idx(&four, flags, size(2) | q, 0), 3);
    assert_eq!(resolve_em_qualifier_idx(&four, flags, size(0) | q, 0), 0);
    let fp = [Q::S_S, Q::S_S, Q::S_D];
    assert_eq!(resolve_em_qualifier_idx(&fp, flags, size(1), 0), 2);
    assert_eq!(resolve_em_qualifier_idx(&fp, flags, size(2) | q, 0), 1);
    let int3 = [Q::S_H, Q::S_H, Q::S_S];
    assert_eq!(resolve_em_qualifier_idx(&int3, flags, size(2) | q, 0), 2);
    assert_eq!(resolve_em_qualifier_idx(&int3, flags, size(1) | q, 0), 1);
    let same = [Q::S_S, Q::S_S];
    assert_eq!(resolve_em_qualifier_idx(&same, flags, size(3) | q, 0), 1);
    let pair = [Q::S_H, Q::S_S];
    assert_eq!(resolve_em_qualifier_idx(&pair, flags, size(2), 0), 1);
    assert_eq!(resolve_em_qualifier_idx(&pair, flags, size(0), 0), 0);
    assert_eq!(resolve_em_qualifier_idx(&[Q::S_S], flags, size(3) | q, 0), 0);
}

#[test]
fn em_index_with_scalar_size_field() {
    let flags = InsnFlags { bits: InsnFlags::HAS_ADVSIMD_SCALAR_SIZE };
    let fp = [Q::S_S, Q::S_D];
    assert_eq!(resolve_em_qualifier_idx(&fp, flags, 1 << 22, 1 << 23), 1);
    assert_eq!(resolve_em_qualifier_idx(&fp, flags, 0, 1 << 23), 0);
    // Without bit 23 in the mask the size field indexes the list.
    assert_eq!(resolve_em_qualifier_idx(&fp, flags, 2 << 22, 0), 1);
    assert_eq!(resolve_em_qualifier_idx(&fp, flags, 0, 0), 0);
    let full = [Q::S_B, Q::S_H, Q::S_S, Q::S_D];
    assert_eq!(resolve_em_qualifier_idx(&full, flags, 3 << 22, 0), 3);
    assert_eq!(resolve_em_qualifier_idx(&full, InsnFlags { bits: 0 }, 3 << 22, 0), 0);
}

#[test]
fn flags_contain_their_bits() {
    let flags = InsnFlags { bits: InsnFlags::HAS_SIZEQ_FIELD | InsnFlags::IS_ALIAS };
    assert!(flags.contains(InsnFlags::HAS_SIZEQ_FIELD));
    assert!(flags.contains(InsnFlags::HAS_SIZEQ_FIELD | InsnFlags::IS_ALIAS));
    assert!(!flags.contains(InsnFlags::HAS_FPTYPE_FIELD));
}
