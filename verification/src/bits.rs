//! Bit manipulation utilities for instruction decoding.

use vstd::arithmetic::power2::*;
use vstd::bits::*;
use vstd::prelude::*;

verus! {

/// Bit `i` of `x`, read arithmetically.
pub open spec fn bit_of(x: nat, i: nat) -> bool {
    (x / pow2(i)) % 2 == 1
}

/// The assembler name of condition code `c` (0 to 15).
pub open spec fn cond_mnemonic(c: int) -> &'static str {
    if c == 0 { "eq" }
    else if c == 1 { "ne" }
    else if c == 2 { "cs" }
    else if c == 3 { "cc" }
    else if c == 4 { "mi" }
    else if c == 5 { "pl" }
    else if c == 6 { "vs" }
    else if c == 7 { "vc" }
    else if c == 8 { "hi" }
    else if c == 9 { "ls" }
    else if c == 10 { "ge" }
    else if c == 11 { "lt" }
    else if c == 12 { "gt" }
    else if c == 13 { "le" }
    else if c == 14 { "al" }
    else { "nv" }
}

/// The name of the condition held in the low four bits of `cond`.
pub fn cond_name(cond: u32) -> (name: &'static str)
    ensures
        name == cond_mnemonic((cond % 16) as int),
        name == cond_mnemonic((cond & 0xf) as int),
{
    let c = cond & 0b1111;
    assert(cond & 0b1111 == cond % 16) by (bit_vector);
    match c {
        0 => "eq",
        1 => "ne",
        2 => "cs",
        3 => "cc",
        4 => "mi",
        5 => "pl",
        6 => "vs",
        7 => "vc",
        8 => "hi",
        9 => "ls",
        10 => "ge",
        11 => "lt",
        12 => "gt",
        13 => "le",
        14 => "al",
        _ => "nv",
    }
}

/// Whether condition code `c` (0 to 15) holds for the flags N, Z, C and V.
pub open spec fn condition_holds(c: int, n: bool, z: bool, carry: bool, v: bool) -> bool {
    if c == 0 { z }
    else if c == 1 { !z }
    else if c == 2 { carry }
    else if c == 3 { !carry }
    else if c == 4 { n }
    else if c == 5 { !n }
    else if c == 6 { v }
    else if c == 7 { !v }
    else if c == 8 { carry && !z }
    else if c == 9 { !(carry && !z) }
    else if c == 10 { n == v }
    else if c == 11 { n != v }
    else if c == 12 { !z && n == v }
    else if c == 13 { !(!z && n == v) }
    else { true }
}

/// Whether the condition with assembler name `name` holds for the flags N,
/// Z, C and V, as the A64 reference defines each name.
pub open spec fn condition_by_name(name: Seq<char>, n: bool, z: bool, carry: bool, v: bool) -> bool {
    if name == seq!['e', 'q'] { z }
    else if name == seq!['n', 'e'] { !z }
    else if name == seq!['c', 's'] { carry }
    else if name == seq!['c', 'c'] { !carry }
    else if name == seq!['m', 'i'] { n }
    else if name == seq!['p', 'l'] { !n }
    else if name == seq!['v', 's'] { v }
    else if name == seq!['v', 'c'] { !v }
    else if name == seq!['h', 'i'] { carry && !z }
    else if name == seq!['l', 's'] { !(carry && !z) }
    else if name == seq!['g', 'e'] { n == v }
    else if name == seq!['l', 't'] { n != v }
    else if name == seq!['g', 't'] { !z && n == v }
    else if name == seq!['l', 'e'] { !(!z && n == v) }
    else { true }
}

/// The name of each condition code is the name of the condition that the
/// code tests.
pub proof fn lemma_cond_mnemonic_names_condition(c: int, n: bool, z: bool, carry: bool, v: bool)
    requires
        0 <= c < 16,
    ensures
        condition_by_name(cond_mnemonic(c)@, n, z, carry, v) == condition_holds(c, n, z, carry, v),
{
    reveal_strlit("eq");
    reveal_strlit("ne");
    reveal_strlit("cs");
    reveal_strlit("cc");
    reveal_strlit("mi");
    reveal_strlit("pl");
    reveal_strlit("vs");
    reveal_strlit("vc");
    reveal_strlit("hi");
    reveal_strlit("ls");
    reveal_strlit("ge");
    reveal_strlit("lt");
    reveal_strlit("gt");
    reveal_strlit("le");
    reveal_strlit("al");
    reveal_strlit("nv");
    let x = cond_mnemonic(c)@;
    assert(x.len() == 2);
    assert(x =~= seq![x[0], x[1]]);
}

/// `c` with its lowest bit flipped.
pub open spec fn flip_low_bit(c: int) -> int {
    if c % 2 == 0 { c + 1 } else { c - 1 }
}

/// The sixteen condition names are all different.
pub proof fn lemma_cond_mnemonics_distinct(a: int, b: int)
    requires
        0 <= a < b < 16,
    ensures
        cond_mnemonic(a)@ != cond_mnemonic(b)@,
{
    reveal_strlit("eq");
    reveal_strlit("ne");
    reveal_strlit("cs");
    reveal_strlit("cc");
    reveal_strlit("mi");
    reveal_strlit("pl");
    reveal_strlit("vs");
    reveal_strlit("vc");
    reveal_strlit("hi");
    reveal_strlit("ls");
    reveal_strlit("ge");
    reveal_strlit("lt");
    reveal_strlit("gt");
    reveal_strlit("le");
    reveal_strlit("al");
    reveal_strlit("nv");
    let x = cond_mnemonic(a)@;
    let y = cond_mnemonic(b)@;
    assert(x[0] != y[0] || x[1] != y[1]);
}

/// Below 14 (AL), flipping the lowest bit of a condition code gives the
/// condition that holds exactly when the first does not.
pub proof fn lemma_cond_low_bit_negates(c: int, n: bool, z: bool, carry: bool, v: bool)
    requires
        0 <= c < 14,
    ensures
        condition_holds(flip_low_bit(c), n, z, carry, v) == !condition_holds(c, n, z, carry, v),
{
}

/// `x >> i` keeps bit `i` of `x` as its lowest bit.
pub proof fn lemma_u32_shr_bit(x: u32, i: u32)
    requires
        i < 32,
    ensures
        (x >> i) == x as nat / pow2(i as nat),
        ((x >> i) & 1 == 1) == bit_of(x as nat, i as nat),
{
    lemma_u32_shr_is_div(x, i);
    let y = x >> i;
    assert(y & 1 == y % 2) by (bit_vector);
}

/// Whether bit `bit` of `bits` is set.
pub fn bit_set(bits: u32, bit: u32) -> (set: bool)
    requires
        bit < 32,
    ensures
        set == bit_of(bits as nat, bit as nat),
{
    proof {
        lemma_u32_shr_bit(bits, bit);
    }
    assert((bits & (1u32 << bit) != 0) == ((bits >> bit) & 1 == 1)) by (bit_vector)
        requires
            bit < 32,
    ;
    bits & (1 << bit) != 0
}

/// `(1 << w) - 1` is the mask of the low `w` bits.
proof fn lemma_u32_low_mask(w: u32)
    requires
        w < 32,
    ensures
        (1u32 << w) as nat == pow2(w as nat),
        ((1u32 << w) - 1) as nat == low_bits_mask(w as nat),
        1u32 << w >= 1,
{
    lemma_u32_pow2_no_overflow(w as nat);
    lemma_u32_shl_is_mul(1, w);
}

/// The `width`-bit field of `bits` that starts at bit `start`.
pub fn bit_range(bits: u32, start: u32, width: u32) -> (field: u32)
    requires
        start < 32,
        width < 32,
    ensures
        field as nat == (bits as nat / pow2(start as nat)) % pow2(width as nat),
{
    proof {
        lemma_u32_shr_is_div(bits, start);
        lemma_u32_low_mask(width);
        lemma_u32_low_bits_mask_is_mod(bits >> start, width as nat);
    }
    (bits >> start) & ((1 << width) - 1)
}

/// The two's-complement reading of a 64-bit word.
pub open spec fn signed64(x: u64) -> int {
    if x < 0x8000_0000_0000_0000u64 {
        x as int
    } else {
        x - 0x1_0000_0000_0000_0000int
    }
}

/// Sign-extends the `n + 1`-bit value `v`, whose sign bit is bit `n`, to 64 bits.
pub fn sign_extend(v: u32, n: u8) -> (r: u64)
    requires
        n < 32,
    ensures
        r as int == (v - if bit_of(v as nat, n as nat) { pow2(n as nat + 1) as int } else { 0 })
            % (pow2(64) as int),
        v < pow2(n as nat + 1) ==> signed64(r) == v - if bit_of(v as nat, n as nat) {
            pow2(n as nat + 1) as int
        } else {
            0
        },
{
    let w = v as u64;
    let mask = 1u64 << n;
    proof {
        lemma_u64_pow2_no_overflow(n as nat);
        lemma_u64_shl_is_mul(1, n as u64);
        lemma_u32_shr_bit(v, n as u32);
        lemma_pow2_adds(n as nat, 1);
        lemma2_to64();
        lemma2_to64_rest();
        lemma_pow2_strictly_increases(n as nat + 1, 64);
        assert(pow2(n as nat + 1) == 2 * pow2(n as nat));
        let nn = n as u64;
        let n32 = n as u32;
        assert(((v >> n32) & 1 == 1) ==> (w ^ (1u64 << nn)) == w - (1u64 << nn)) by (bit_vector)
            requires
                nn < 32,
                n32 == nn,
                w == v,
        ;
        assert(((v >> n32) & 1 != 1) ==> (w ^ (1u64 << nn)) == w + (1u64 << nn)) by (bit_vector)
            requires
                nn < 32,
                n32 == nn,
                w == v,
        ;
    }
    let r = (w ^ mask).wrapping_sub(mask);
    proof {
        let m = pow2(n as nat + 1) as int;
        let p = pow2(64) as int;
        if bit_of(v as nat, n as nat) {
            if v >= m {
                assert((v - m) % p == v - m) by { vstd::arithmetic::div_mod::lemma_small_mod((v - m) as nat, p as nat); }
            } else {
                assert((v - m) % p == v - m + p) by { vstd::arithmetic::div_mod::lemma_fundamental_div_mod_converse(v - m, p, -1, v - m + p); }
            }
        } else {
            assert((v - 0) % p == v) by { vstd::arithmetic::div_mod::lemma_small_mod(v as nat, p as nat); }
        }
    }
    r
}

/// Element size, in bits, that the fields N and imms of a logical immediate
/// select; 0 where the encoding is reserved.
pub open spec fn limm_element_bits(n: u32, imms: u32) -> nat {
    if n != 0 {
        64
    } else if imms <= 0x1f {
        32
    } else if imms <= 0x2f {
        16
    } else if imms <= 0x37 {
        8
    } else if imms <= 0x3b {
        4
    } else if imms <= 0x3d {
        2
    } else {
        0
    }
}

/// One less than the number of consecutive ones in each element.
pub open spec fn limm_ones(n: u32, imms: u32) -> nat {
    imms as nat % limm_element_bits(n, imms)
}

/// The right rotation applied to each element.
pub open spec fn limm_rotation(n: u32, immr: u32, imms: u32) -> nat {
    immr as nat % limm_element_bits(n, imms)
}

/// Whether N:immr:imms encodes a logical immediate for a `byte_count`-byte register.
pub open spec fn limm_valid(byte_count: u32, n: u32, immr: u32, imms: u32) -> bool {
    let e = limm_element_bits(n, imms);
    &&& e != 0
    &&& e <= 8 * byte_count
    &&& limm_ones(n, imms) != e - 1
}

/// Bit `j` of the logical immediate N:immr:imms in a `byte_count`-byte register:
/// a run of `limm_ones + 1` ones rotated right by `limm_rotation` within each
/// element, the element repeated across the register.
pub open spec fn limm_bit(byte_count: u32, n: u32, immr: u32, imms: u32, j: nat) -> bool {
    let e = limm_element_bits(n, imms);
    &&& j < 8 * byte_count
    &&& j < 64
    &&& ((j % e) + limm_rotation(n, immr, imms)) % e <= limm_ones(n, imms)
}

/// Bit `j` of `x`, read with a shift.
spec fn bit64(x: u64, j: u64) -> bool {
    (x >> j) & 1 == 1
}

proof fn lemma_bit64_is_bit_of(x: u64, j: u64)
    requires
        j < 64,
    ensures
        bit64(x, j) == bit_of(x as nat, j as nat),
{
    lemma_u64_shr_is_div(x, j);
    let y = x >> j;
    assert(y & 1 == y % 2) by (bit_vector);
}

/// The bits of `2^(s+1) - 1` are the bits `0..=s`.
proof fn lemma_ones_bits(x: u64, s: u64, k: u64, e: u64)
    by (bit_vector)
    requires
        s < 63,
        k < 64,
        x == ((1u64 << ((s + 1) as u64)) - 1) as u64,
    ensures
        ((x >> k) & 1 == 1) == (k <= s),
        (s + 1 <= e && e < 64) ==> x >> e == 0,
{
}

/// Bits at or above `e` of a value below `2^e` are clear.
proof fn lemma_high_bits_zero(x: u64, e: u64, j: u64)
    by (bit_vector)
    requires
        e <= j < 64,
        x >> e == 0,
    ensures
        (x >> j) & 1 == 0,
{
}

/// Bits of `x` shifted right by `rot`.
proof fn lemma_shr_bits(x: u64, rot: u64, k: u64, e: u64)
    by (bit_vector)
    requires
        rot < 64,
        k < 64,
        e <= 64,
        e < 64 ==> x >> e == 0,
    ensures
        k + rot < 64 ==> (((x >> rot) >> k) & 1 == 1 <==> (x >> ((k + rot) as u64)) & 1 == 1),
        k + rot >= e ==> ((x >> rot) >> k) & 1 == 0,
        e < 64 ==> (x >> rot) >> e == 0,
{
}

/// Bits of `x` shifted left by `t` and cut to the low `e` bits.
proof fn lemma_shl_mask_bits(x: u64, t: u64, k: u64, e: u64, mask: u64)
    by (bit_vector)
    requires
        t < 64,
        k < 64,
        e <= 64,
        e == 64 ==> mask == 0xffff_ffff_ffff_ffffu64,
        e < 64 ==> mask == ((1u64 << e) - 1) as u64,
    ensures
        ((((x << t) & mask) >> k) & 1 == 1) <==> (k < e && k >= t && (x >> ((k - t) as u64)) & 1
            == 1),
        e < 64 ==> ((x << t) & mask) >> e == 0,
{
}

/// Bits of a disjunction.
proof fn lemma_or_bits(a: u64, b: u64, k: u64)
    by (bit_vector)
    requires
        k < 64,
    ensures
        (((a | b) >> k) & 1 == 1) <==> ((a >> k) & 1 == 1 || (b >> k) & 1 == 1),
        (a >> k == 0 && b >> k == 0) ==> (a | b) >> k == 0,
{
}

/// OR-ing `x` with itself shifted up by `r` repeats its low `r` bits once.
proof fn lemma_repeat_bits(x: u64, r: u64, j: u64)
    by (bit_vector)
    requires
        0 < r < 64,
        j < 64,
        x >> r == 0,
    ensures
        (((x | (x << r)) >> j) & 1 == 1) <==> (if j < r {
            (x >> j) & 1 == 1
        } else if j < r + r {
            (x >> ((j - r) as u64)) & 1 == 1
        } else {
            false
        }),
        r + r < 64 ==> (x | (x << r)) >> ((r + r) as u64) == 0,
{
}

/// Clearing every bit at or above `8 * b`.
proof fn lemma_truncate_bits(x: u64, b: u64, j: u64)
    by (bit_vector)
    requires
        b < 16,
        j < 64,
    ensures
        (((x & !((0xffff_ffff_ffff_ffffu64 << ((b * 4) as u64)) << ((b * 4) as u64))) >> j) & 1 == 1) <==> (
        (x >> j) & 1 == 1 && j < b * 8),
{
}

/// `(k + rot) % e` for `k`, `rot` below `e`.
proof fn lemma_wrap_index(k: int, rot: int, e: int)
    requires
        0 <= k < e,
        0 <= rot < e,
    ensures
        (k + rot) % e == if k + rot < e { k + rot } else { k + rot - e },
{
    if k + rot < e {
        vstd::arithmetic::div_mod::lemma_fundamental_div_mod_converse(k + rot, e, 0, k + rot);
    } else {
        vstd::arithmetic::div_mod::lemma_fundamental_div_mod_converse(k + rot, e, 1, k + rot - e);
    }
}

/// One element of a logical immediate: `s + 1` ones rotated right by `rot`
/// within `e` bits.
fn limm_element(e: u32, s: u32, rot: u32, mask: u64) -> (elem: u64)
    requires
        e == 2 || e == 4 || e == 8 || e == 16 || e == 32 || e == 64,
        s < e - 1,
        rot < e,
        e == 64 ==> mask == 0xffff_ffff_ffff_ffffu64,
        e < 64 ==> mask == ((1u64 << e) - 1) as u64,
    ensures
        forall|k: u64|
            k < 64 ==> #[trigger] bit64(elem, k) == (k < e && ((k as int + rot) % (e as int))
                <= s),
        e < 64 ==> elem >> (e as u64) == 0,
{
    assert(1u64 << (s + 1) >= 1) by (bit_vector)
        requires
            s < 63,
    ;
    let ones = (1u64 << (s + 1)) - 1;
    let ghost ee = e as u64;
    let ghost ss = s as u64;
    let ghost rr = rot as u64;
    assert(ones == ((1u64 << ((ss + 1) as u64)) - 1) as u64) by (bit_vector)
        requires
            s < 63,
            ss == s,
            ones == ((1u64 << (s + 1) as u32) - 1) as u64,
    ;
    proof {
        lemma_ones_bits(ones, ss, 0, ee);
    }
    if rot != 0 {
        let high = (ones << (e - rot)) & mask;
        let low = ones >> rot;
        let elem = high | low;
        proof {
            let t = (ee - rr) as u64;
            assert(high == (ones << t) & mask);
            assert(low == ones >> rr);
            assert forall|k: u64| k < 64 implies #[trigger] bit64(elem, k) == (k < e && ((k as int
                + rot) % (e as int)) <= s) by {
                lemma_shl_mask_bits(ones, t, k, ee, mask);
                lemma_shr_bits(ones, rr, k, ee);
                lemma_or_bits(high, low, k);
                if k + rr < 64 {
                    lemma_ones_bits(ones, ss, (k + rr) as u64, ee);
                }
                if k >= t && k < 64 {
                    lemma_ones_bits(ones, ss, (k - t) as u64, ee);
                }
                if k < e {
                    lemma_wrap_index(k as int, rot as int, e as int);
                }
            }
            if e < 64 {
                lemma_shl_mask_bits(ones, t, 0, ee, mask);
                lemma_shr_bits(ones, rr, 0, ee);
                lemma_or_bits(high, low, ee);
            }
        }
        elem
    } else {
        proof {
            assert forall|k: u64| k < 64 implies #[trigger] bit64(ones, k) == (k < e && ((k as int
                + rot) % (e as int)) <= s) by {
                lemma_ones_bits(ones, ss, k, ee);
                if k < e {
                    lemma_wrap_index(k as int, 0, e as int);
                }
            }
        }
        ones
    }
}

/// Repeats the `e`-bit element `elem` across all 64 bits.
fn limm_replicate(elem: u64, e: u32) -> (rep: u64)
    requires
        e == 2 || e == 4 || e == 8 || e == 16 || e == 32 || e == 64,
        e < 64 ==> elem >> (e as u64) == 0,
    ensures
        forall|j: u64| j < 64 ==> #[trigger] bit64(rep, j) == bit64(elem, j % (e as u64)),
{
    let ghost ee = e as u64;
    let mut imm = elem;
    let mut width: u64 = e as u64;
    proof {
        assert forall|j: u64| j < 64 implies #[trigger] bit64(imm, j) == (j < width && bit64(
            elem,
            j % ee,
        )) by {
            if j >= ee {
                lemma_high_bits_zero(elem, ee, j);
            } else {
                vstd::arithmetic::div_mod::lemma_small_mod(j as nat, ee as nat);
            }
        }
    }
    while width < 64
        invariant
            ee == e,
            e == 2 || e == 4 || e == 8 || e == 16 || e == 32 || e == 64,
            width == 2 || width == 4 || width == 8 || width == 16 || width == 32 || width == 64,
            ee <= width,
            width % ee == 0,
            width < 64 ==> imm >> width == 0,
            forall|j: u64| j < 64 ==> #[trigger] bit64(imm, j) == (j < width && bit64(elem, j % ee)),
        decreases 64 - width,
    {
        let ghost old_imm = imm;
        let ghost w = width;
        imm = imm | (imm << width);
        width = width * 2;
        proof {
            assert forall|j: u64| j < 64 implies #[trigger] bit64(imm, j) == (j < width && bit64(
                elem,
                j % ee,
            )) by {
                lemma_repeat_bits(old_imm, w, j);
                if w <= j && j < width {
                    let jr = (j - w) as u64;
                    assert(bit64(old_imm, jr) == (jr < w && bit64(elem, jr % ee)));
                    let q = (w / ee) as int;
                    assert(w as int == (ee as int) * q) by {
                        vstd::arithmetic::div_mod::lemma_fundamental_div_mod(w as int, ee as int);
                    }
                    vstd::arithmetic::div_mod::lemma_mod_multiples_vanish(q, jr as int, ee as int);
                } else if j < w {
                    assert(bit64(old_imm, j) == (j < w && bit64(elem, j % ee)));
                }
            }
            lemma_repeat_bits(old_imm, w, 0);
        }
    }
    imm
}

/// The replicated element cut to `8 * byte_count` bits has the bits of the
/// logical-immediate pattern.
proof fn lemma_limm_truncated(limm: u64, imm: u64, elem: u64, byte_count: u32, e: u32, s: u32, rot: u32)
    requires
        byte_count < 16,
        0 < e <= 64,
        limm == imm & !((0xffff_ffff_ffff_ffffu64 << ((byte_count * 4) as u32)) << ((byte_count * 4) as u32)),
        forall|k: u64|
            k < 64 ==> #[trigger] bit64(elem, k) == (k < e && ((k as int + rot) % (e as int))
                <= s),
        forall|j: u64| j < 64 ==> #[trigger] bit64(imm, j) == bit64(elem, j % (e as u64)),
    ensures
        forall|j: nat|
            j < 64 ==> #[trigger] bit_of(limm as nat, j) == (j < 8 * byte_count && ((j % (e as nat))
                + rot as nat) % (e as nat) <= s),
{
    assert forall|j: nat| j < 64 implies #[trigger] bit_of(limm as nat, j) == (j < 8 * byte_count
        && ((j % (e as nat)) + rot as nat) % (e as nat) <= s) by {
        let jj = j as u64;
        let bb = byte_count as u64;
        assert(limm == imm & !((0xffff_ffff_ffff_ffffu64 << ((bb * 4) as u64)) << ((bb * 4) as u64))) by (bit_vector)
            requires
                bb == byte_count,
                byte_count < 16,
                limm == imm & !((0xffff_ffff_ffff_ffffu64 << ((byte_count * 4) as u32)) << ((byte_count * 4) as u32)),
        ;
        lemma_truncate_bits(imm, bb, jj);
        lemma_bit64_is_bit_of(limm, jj);
        let jm = jj % (e as u64);
        assert(bit64(imm, jj) == bit64(elem, jm));
        assert(bit64(elem, jm) == (jm < e && ((jm as int + rot) % (e as int)) <= s));
        vstd::arithmetic::div_mod::lemma_mod_bound(j as int, e as int);
    }
}

/// Decodes the logical immediate N:immr:imms for a `byte_count`-byte register.
pub fn decode_limm(byte_count: u32, n: u32, immr: u32, imms: u32) -> (limm: Option<u64>)
    requires
        byte_count < 16,
        n != 0 && 8 <= byte_count && imms != 63 ==> immr < 64 && imms < 64,
    ensures
        limm is Some <==> limm_valid(byte_count, n, immr, imms),
        limm matches Some(v) ==> forall|j: nat|
            j < 64 ==> (#[trigger] bit_of(v as nat, j) == limm_bit(byte_count, n, immr, imms, j)),
{
    let ghost e = limm_element_bits(n, imms);
    let ghost s_ones = limm_ones(n, imms);
    let ghost rot = limm_rotation(n, immr, imms);
    let ghost orig_immr = immr;
    let ghost orig_imms = imms;
    let mut immr = immr;
    let mut imms = imms;
    let bit_count: u32;
    let mask: u64;

    if n != 0 {
        bit_count = 64;
        mask = !0;
        assert(mask == 0xffff_ffff_ffff_ffffu64) by (bit_vector)
            requires
                mask == !0u64,
        ;
    } else {
        if imms <= 0x1f {
            bit_count = 32;
            assert(imms as nat % 32 == imms);
        } else if imms <= 0x2f {
            assert(imms & 0xf == imms % 16) by (bit_vector);
            imms = imms & 0xf;
            bit_count = 16;
        } else if imms <= 0x37 {
            assert(imms & 0x7 == imms % 8) by (bit_vector);
            imms = imms & 0x7;
            bit_count = 8;
        } else if imms <= 0x3b {
            assert(imms & 0x3 == imms % 4) by (bit_vector);
            imms = imms & 0x3;
            bit_count = 4;
        } else if imms <= 0x3d {
            assert(imms & 0x1 == imms % 2) by (bit_vector);
            imms = imms & 0x1;
            bit_count = 2;
        } else {
            return None;
        }
        assert(immr & 31 == immr % 32 && immr & 15 == immr % 16 && immr & 7 == immr % 8 && immr
            & 3 == immr % 4 && immr & 1 == immr % 2) by (bit_vector);
        assert(1u64 << bit_count >= 1) by (bit_vector)
            requires
                bit_count <= 32,
        ;
        mask = (1u64 << bit_count) - 1;
        immr = immr & (bit_count - 1);
    }
    assert(bit_count == e);
    assert(n == 0 ==> imms == s_ones && immr == rot);

    if bit_count > byte_count * 8 {
        return None;
    }
    if imms == bit_count - 1 {
        return None;
    }
    assert(immr as nat % e == immr && imms as nat % e == imms);
    assert(imms == s_ones && immr == rot);
    assert(imms < bit_count - 1);
    assert(bit_count == 64 ==> mask == 0xffff_ffff_ffff_ffffu64);

    let elem = limm_element(bit_count, imms, immr, mask);
    let imm = limm_replicate(elem, bit_count);

    let high = !0u64 << (byte_count * 4) << (byte_count * 4);
    let limm = imm & !high;
    proof {
        let b4 = (byte_count * 4) as u32;
        assert(high == (0xffff_ffff_ffff_ffffu64 << b4) << b4) by (bit_vector)
            requires
                high == (!0u64 << b4) << b4,
        ;
        lemma_limm_truncated(limm, imm, elem, byte_count, bit_count, imms, immr);
        assert forall|j: nat| j < 64 implies #[trigger] bit_of(limm as nat, j) == limm_bit(
            byte_count,
            n,
            orig_immr,
            orig_imms,
            j,
        ) by {
            assert(bit_of(limm as nat, j) == (j < 8 * byte_count && ((j % (bit_count as nat))
                + immr as nat) % (bit_count as nat) <= imms));
        }
    }
    Some(limm)
}

/// A logical immediate is never all zeros nor all ones: within the register
/// width it has at least one set bit and at least one clear bit.
pub proof fn lemma_limm_not_trivial(byte_count: u32, n: u32, immr: u32, imms: u32)
    requires
        limm_valid(byte_count, n, immr, imms),
    ensures
        exists|j: nat| j < 8 * byte_count && j < 64 && #[trigger] limm_bit(byte_count, n, immr, imms, j),
        exists|j: nat| j < 8 * byte_count && j < 64 && !#[trigger] limm_bit(byte_count, n, immr, imms, j),
{
    let e = limm_element_bits(n, imms);
    let r = limm_rotation(n, immr, imms);
    let s = limm_ones(n, imms);
    vstd::arithmetic::div_mod::lemma_mod_bound(immr as int, e as int);
    let set_bit: nat = if r == 0 { 0 } else { (e - r) as nat };
    let clear_bit: nat = if r == 0 { (e - 1) as nat } else { (e - 1 - r + e) as nat % e };
    vstd::arithmetic::div_mod::lemma_small_mod(set_bit, e);
    lemma_wrap_index(set_bit as int, r as int, e as int);
    if r == 0 {
        vstd::arithmetic::div_mod::lemma_small_mod(clear_bit, e);
        lemma_wrap_index(clear_bit as int, 0, e as int);
    } else {
        lemma_wrap_index((e - 1 - r) as int, e as int - 1 - r, e as int);
        vstd::arithmetic::div_mod::lemma_small_mod((e - 1 - r) as nat, e);
        assert(clear_bit == e - 1 - r) by {
            vstd::arithmetic::div_mod::lemma_fundamental_div_mod_converse((e - 1 - r + e) as int, e as int, 1, (e - 1 - r) as int);
        }
        vstd::arithmetic::div_mod::lemma_small_mod(clear_bit, e);
        lemma_wrap_index(clear_bit as int, r as int, e as int);
    }
    assert(limm_bit(byte_count, n, immr, imms, set_bit));
    assert(!limm_bit(byte_count, n, immr, imms, clear_bit));
}

/// The pattern of a logical immediate repeats with the element size.
pub proof fn lemma_limm_periodic(byte_count: u32, n: u32, immr: u32, imms: u32, j: nat)
    requires
        limm_valid(byte_count, n, immr, imms),
        j + limm_element_bits(n, imms) < 8 * byte_count,
        j + limm_element_bits(n, imms) < 64,
    ensures
        limm_bit(byte_count, n, immr, imms, j) == limm_bit(
            byte_count,
            n,
            immr,
            imms,
            j + limm_element_bits(n, imms),
        ),
{
    let e = limm_element_bits(n, imms);
    vstd::arithmetic::div_mod::lemma_mod_multiples_vanish(1, j as int, e as int);
}

/// One step down: equal bit `k` and equal bits above it give equal bits from `k` up.
proof fn lemma_shr_step(a: u64, b: u64, k: u64)
    by (bit_vector)
    requires
        k < 63,
        a >> ((k + 1) as u64) == b >> ((k + 1) as u64),
        (a >> k) & 1 == (b >> k) & 1,
    ensures
        a >> k == b >> k,
{
}

/// Words that agree on bits `k..64` agree shifted right by `k`.
proof fn lemma_high_bits_agree(a: u64, b: u64, k: u64)
    requires
        k < 64,
        forall|j: u64| k <= j < 64 ==> #[trigger] bit64(a, j) == bit64(b, j),
    ensures
        a >> k == b >> k,
    decreases 64 - k,
{
    if k == 63 {
        assert(bit64(a, 63) == bit64(b, 63));
        assert(((a >> 63u64) & 1 == 1) == ((b >> 63u64) & 1 == 1));
        assert((a >> 63u64) == (a >> 63u64) & 1 && (b >> 63u64) == (b >> 63u64) & 1) by (bit_vector);
        assert((a >> 63u64) & 1 <= 1 && (b >> 63u64) & 1 <= 1) by (bit_vector);
    } else {
        lemma_high_bits_agree(a, b, (k + 1) as u64);
        assert(bit64(a, k) == bit64(b, k));
        assert(((a >> k) & 1 == 1) == ((b >> k) & 1 == 1));
        assert((a >> k) & 1 <= 1 && (b >> k) & 1 <= 1) by (bit_vector);
        lemma_shr_step(a, b, k);
    }
}

/// Two words with the same 64 bits are equal.
proof fn lemma_bits_determine_word(a: u64, b: u64)
    requires
        forall|j: nat| j < 64 ==> #[trigger] bit_of(a as nat, j) == bit_of(b as nat, j),
    ensures
        a == b,
{
    assert forall|j: u64| 0 <= j < 64 implies #[trigger] bit64(a, j) == bit64(b, j) by {
        lemma_bit64_is_bit_of(a, j);
        lemma_bit64_is_bit_of(b, j);
        assert(bit_of(a as nat, j as nat) == bit_of(b as nat, j as nat));
    }
    lemma_high_bits_agree(a, b, 0);
    assert(a >> 0u64 == a && b >> 0u64 == b) by (bit_vector);
}

/// With N = 0 a logical immediate is valid for a 32-bit register exactly
/// when it is valid for a 64-bit one.
pub proof fn lemma_limm_widths_valid(immr: u32, imms: u32)
    ensures
        limm_valid(8, 0, immr, imms) == limm_valid(4, 0, immr, imms),
{
}

/// With N = 0 the 32-bit logical immediate is the 64-bit one cut to its low
/// 32 bits, and the 64-bit one is the 32-bit one repeated in both halves.
pub proof fn lemma_limm_widths(immr: u32, imms: u32, v8: u64, v4: u64)
    requires
        limm_valid(8, 0, immr, imms),
        forall|j: nat| j < 64 ==> #[trigger] bit_of(v8 as nat, j) == limm_bit(8, 0, immr, imms, j),
        forall|j: nat| j < 64 ==> #[trigger] bit_of(v4 as nat, j) == limm_bit(4, 0, immr, imms, j),
    ensures
        v4 == v8 & 0xffff_ffff,
        v8 == v4 * 0x1_0000_0001,
{
    let e = limm_element_bits(0, imms);
    let low = v8 & 0xffff_ffffu64;
    assert forall|j: nat| j < 64 implies #[trigger] bit_of(low as nat, j) == bit_of(v4 as nat, j) by {
        let jj = j as u64;
        lemma_bit64_is_bit_of(low, jj);
        lemma_bit64_is_bit_of(v8, jj);
        assert(bit64(low, jj) == (bit64(v8, jj) && jj < 32)) by (bit_vector)
            requires
                low == v8 & 0xffff_ffffu64,
                jj < 64,
        ;
        assert(bit_of(v8 as nat, j) == limm_bit(8, 0, immr, imms, j));
        assert(bit_of(v4 as nat, j) == limm_bit(4, 0, immr, imms, j));
    }
    lemma_bits_determine_word(low, v4);
    assert(low <= 0xffff_ffff) by (bit_vector)
        requires
            low == v8 & 0xffff_ffffu64,
    ;
    let twice = (v4 << 32u64) | v4;
    assert(v4 * 0x1_0000_0001 == twice as int) by (bit_vector)
        requires
            v4 <= 0xffff_ffff,
            twice == (v4 << 32u64) | v4,
    ;
    assert forall|j: nat| j < 64 implies #[trigger] bit_of(twice as nat, j) == bit_of(v8 as nat, j) by {
        let jj = j as u64;
        lemma_bit64_is_bit_of(twice, jj);
        lemma_bit64_is_bit_of(v4, jj);
        assert(bit64(twice, jj) == if jj < 32 { bit64(v4, jj) } else { bit64(v4, (jj - 32) as u64) }) by (bit_vector)
            requires
                v4 <= 0xffff_ffff,
                twice == (v4 << 32u64) | v4,
                jj < 64,
        ;
        assert(bit_of(v8 as nat, j) == limm_bit(8, 0, immr, imms, j));
        if j < 32 {
            assert(bit_of(v4 as nat, j) == limm_bit(4, 0, immr, imms, j));
        } else {
            let j0 = (j - 32) as nat;
            lemma_bit64_is_bit_of(v4, j0 as u64);
            assert(bit_of(v4 as nat, j0) == limm_bit(4, 0, immr, imms, j0));
            assert(e == 2 || e == 4 || e == 8 || e == 16 || e == 32);
            let q: int = 32int / (e as int);
            assert((e as int) * q == 32);
            vstd::arithmetic::div_mod::lemma_mod_multiples_vanish(q, j0 as int, e as int);
            assert(j % e == j0 % e);
        }
    }
    lemma_bits_determine_word(twice, v8);
}

/// Changing immr by `d` rotates each element by `d` more: bit `j` of the
/// new immediate is the bit `d` places further along (cyclically) in the same
/// element of the old one.
pub proof fn lemma_limm_rotation(byte_count: u32, n: u32, immr: u32, immr2: u32, imms: u32, d: nat, j: nat)
    requires
        limm_valid(byte_count, n, immr, imms),
        limm_rotation(n, immr2, imms) == (limm_rotation(n, immr, imms) + d) % limm_element_bits(n, imms),
        j - j % limm_element_bits(n, imms) + limm_element_bits(n, imms) <= 8 * byte_count,
        j - j % limm_element_bits(n, imms) + limm_element_bits(n, imms) <= 64,
    ensures
        limm_bit(byte_count, n, immr2, imms, j) == limm_bit(
            byte_count,
            n,
            immr,
            imms,
            (j - j % limm_element_bits(n, imms) + (j % limm_element_bits(n, imms) + d) % limm_element_bits(n, imms)) as nat,
        ),
{
    let e = limm_element_bits(n, imms) as int;
    let r = limm_rotation(n, immr, imms) as int;
    let jm = (j as int) % e;
    let base = j as int - jm;
    let off = (jm + d) % e;
    let j2 = base + off;
    vstd::arithmetic::div_mod::lemma_mod_bound(j as int, e);
    vstd::arithmetic::div_mod::lemma_mod_bound(jm + d, e);
    vstd::arithmetic::div_mod::lemma_fundamental_div_mod(j as int, e);
    assert(base == e * ((j as int) / e));
    vstd::arithmetic::div_mod::lemma_mod_multiples_vanish((j as int) / e, off, e);
    vstd::arithmetic::div_mod::lemma_small_mod(off as nat, e as nat);
    assert(j2 % e == off);
    // (off + r) % e == (jm + (r + d) % e) % e: both are (jm + d + r) % e.
    vstd::arithmetic::div_mod::lemma_add_mod_noop(jm + d, r, e);
    vstd::arithmetic::div_mod::lemma_add_mod_noop(jm, r + d, e);
    vstd::arithmetic::div_mod::lemma_mod_bound(r + d, e);
    vstd::arithmetic::div_mod::lemma_small_mod(jm as nat, e as nat);
    vstd::arithmetic::div_mod::lemma_small_mod(r as nat, e as nat);
    assert((off + r) % e == (jm + (r + d) % e) % e);
}

} // verus!
