use disarm64::bits::{bit_range, bit_set, cond_name, decode_limm, sign_extend};

#[test]
fn cond_name_reads_low_four_bits() {
    assert_eq!(cond_name(0), "eq");
    assert_eq!(cond_name(1), "ne");
    assert_eq!(cond_name(11), "lt");
    assert_eq!(cond_name(14), "al");
    assert_eq!(cond_name(15), "nv");
    assert_eq!(cond_name(0x1e), "al");
    assert_eq!(cond_name(0xffff_fff0), "eq");
}

#[test]
fn bit_set_tests_one_bit() {
    assert!(bit_set(0b100, 2));
    assert!(!bit_set(0b100, 1));
    assert!(bit_set(0x8000_0000, 31));
    assert!(!bit_set(0x7fff_ffff, 31));
}

#[test]
fn bit_range_extracts_fields() {
    assert_eq!(bit_range(0xdead_beef, 8, 8), 0xbe);
    assert_eq!(bit_range(0xdead_beef, 28, 4), 0xd);
    assert_eq!(bit_range(0xdead_beef, 0, 0), 0);
    assert_eq!(bit_range(0xdead_beef, 30, 4), 0b11);
    assert_eq!(bit_range(0xffff_ffff, 0, 31), 0x7fff_ffff);
}

#[test]
fn sign_extend_reads_field_as_signed() {
    assert_eq!(sign_extend(0b1000, 3), 0xffff_ffff_ffff_fff8);
    assert_eq!(sign_extend(0b0111, 3), 7);
    assert_eq!(sign_extend(0x1ff, 8) as i64, -1);
    assert_eq!(sign_extend(0x100, 8) as i64, -256);
    assert_eq!(sign_extend(0x0ff, 8) as i64, 255);
    assert_eq!(sign_extend(0x8000_0000, 31) as i64, -(1i64 << 31));
    assert_eq!(sign_extend(0, 0), 0);
    assert_eq!(sign_extend(1, 0) as i64, -1);
}

#[test]
fn sign_extend_with_bits_above_the_field() {
    // Bits above the sign bit take part in the subtraction.
    assert_eq!(sign_extend(0b110, 1), 2);
    assert_eq!(sign_extend(0b101, 1), 5);
}

#[test]
fn decode_limm_single_ones() {
    assert_eq!(decode_limm(8, 1, 0, 0), Some(1));
    assert_eq!(decode_limm(4, 0, 0, 0), Some(1));
    assert_eq!(decode_limm(8, 0, 0, 0), Some(0x0000_0001_0000_0001));
}

#[test]
fn decode_limm_rotated_and_replicated() {
    // 16-bit elements of eight ones rotated right by eight.
    assert_eq!(decode_limm(8, 0, 8, 0x27), Some(0xff00_ff00_ff00_ff00));
    // 2-bit elements 0b01.
    assert_eq!(decode_limm(8, 0, 0, 0x3c), Some(0x5555_5555_5555_5555));
    assert_eq!(decode_limm(4, 0, 1, 0x3c), Some(0xaaaa_aaaa));
    // 64-bit element: 63 ones rotated right by one.
    assert_eq!(decode_limm(8, 1, 1, 62), Some(0xbfff_ffff_ffff_ffff));
    // 32 bits: 0x0000_ffff rotated right by 16.
    assert_eq!(decode_limm(4, 0, 16, 15), Some(0xffff_0000));
    // 8-bit elements of three ones rotated right by two.
    assert_eq!(decode_limm(8, 0, 2, 0x32), Some(0xc1c1_c1c1_c1c1_c1c1));
    // 4-bit elements of one one.
    assert_eq!(decode_limm(4, 0, 0, 0x38), Some(0x1111_1111));
}

#[test]
fn decode_limm_reserved_encodings() {
    // All ones within the element.
    assert_eq!(decode_limm(8, 0, 0, 0x3d), None);
    assert_eq!(decode_limm(8, 1, 0, 63), None);
    assert_eq!(decode_limm(4, 0, 0, 0x1f), None);
    // No element size.
    assert_eq!(decode_limm(8, 0, 0, 0x3e), None);
    assert_eq!(decode_limm(8, 0, 0, 0x3f), None);
    // A 64-bit element in a 32-bit register.
    assert_eq!(decode_limm(4, 1, 0, 0), None);
}

#[test]
fn decode_limm_rotation_masked_to_element() {
    // With N = 0 the rotation is taken modulo the element size.
    assert_eq!(decode_limm(8, 0, 0x21, 0x3c), decode_limm(8, 0, 1, 0x3c));
}

#[test]
fn decode_limm_never_trivial() {
    for n in 0..2u32 {
        for immr in 0..64u32 {
            for imms in 0..64u32 {
                for bytes in [4u32, 8] {
                    if let Some(v) = decode_limm(bytes, n, immr, imms) {
                        let width_mask = if bytes == 8 { u64::MAX } else { (1u64 << (bytes * 8)) - 1 };
                        assert_ne!(v, 0);
                        assert_ne!(v, width_mask);
                        assert_eq!(v & !width_mask, 0);
                    }
                }
            }
        }
    }
}

#[test]
fn decode_limm_is_periodic() {
    // 0x00ff_00ff: 16-bit elements repeat.
    let v = decode_limm(8, 0, 0, 0x27).unwrap();
    assert_eq!(v, 0x00ff_00ff_00ff_00ff);
    for j in 0..48 {
        assert_eq!((v >> j) & 1, (v >> (j + 16)) & 1);
    }
}

#[test]
fn decode_limm_32_bit_is_64_bit_cut() {
    for immr in 0..64u32 {
        for imms in 0..64u32 {
            match decode_limm(8, 0, immr, imms) {
                Some(v) => {
                    assert_eq!(decode_limm(4, 0, immr, imms), Some(v & 0xffff_ffff));
                    assert_eq!(v, (v & 0xffff_ffff) * 0x1_0000_0001);
                }
                None => assert_eq!(decode_limm(4, 0, immr, imms), None),
            }
        }
    }
}

#[test]
fn cond_names_distinct_and_masked() {
    let names: Vec<&str> = (0..16u32).map(cond_name).collect();
    for a in 0..16 {
        for b in (a + 1)..16 {
            assert_ne!(names[a], names[b]);
        }
    }
    for c in 0..64u32 {
        assert_eq!(cond_name(c), cond_name(c & 0xf));
    }
}

#[test]
fn cond_low_bit_gives_inverse() {
    let pairs = [("eq", "ne"), ("cs", "cc"), ("mi", "pl"), ("vs", "vc"), ("hi", "ls"), ("ge", "lt"), ("gt", "le")];
    for (k, (a, b)) in pairs.iter().enumerate() {
        assert_eq!(cond_name(2 * k as u32), *a);
        assert_eq!(cond_name(2 * k as u32 ^ 1), *b);
    }
}

#[test]
fn decode_limm_rotation_shifts_elements() {
    // 8-bit elements of three ones; rotating by one more moves each bit down one place.
    let v0 = decode_limm(8, 0, 0, 0x32).unwrap();
    let v1 = decode_limm(8, 0, 1, 0x32).unwrap();
    assert_eq!(v0, 0x0707_0707_0707_0707);
    assert_eq!(v1, 0x8383_8383_8383_8383);
    for j in 0..64u64 {
        let base = j - j % 8;
        let k = base + (j % 8 + 1) % 8;
        assert_eq!((v1 >> j) & 1, (v0 >> k) & 1);
    }
}
