//! Instruction metadata that the decoder logic reads: the instruction
//! classes, operand kinds and operand qualifiers of the AArch64 tables, and
//! the instruction flags.

use vstd::prelude::*;

verus! {

/// The AArch64 instruction classes.
#[allow(non_camel_case_types)]
#[derive(Clone, Copy, Debug, PartialEq, Eq, Structural)]
pub enum InsnClass {
    AARCH64_MISC,
    ADDSUB_CARRY,
    ADDSUB_EXT,
    ADDSUB_IMM,
    ADDSUB_SHIFT,
    ASIMDALL,
    ASIMDDIFF,
    ASIMDELEM,
    ASIMDEXT,
    ASIMDIMM,
    ASIMDINS,
    ASIMDMISC,
    ASIMDPERM,
    ASIMDSAME,
    ASIMDSHF,
    ASIMDTBL,
    ASISDDIFF,
    ASISDELEM,
    ASISDLSE,
    ASISDLSEP,
    ASISDLSO,
    ASISDLSOP,
    ASISDMISC,
    ASISDONE,
    ASISDPAIR,
    ASISDSAME,
    ASISDSHF,
    BFLOAT16,
    BITFIELD,
    BRANCH_IMM,
    BRANCH_REG,
    COMPBRANCH,
    CONDBRANCH,
    CONDCMP_IMM,
    CONDCMP_REG,
    CONDSEL,
    CRYPTOAES,
    CRYPTOSHA2,
    CRYPTOSHA3,
    CRYPTOSM3,
    CRYPTOSM4,
    CSSC,
    DOTPRODUCT,
    DP_1SRC,
    DP_2SRC,
    DP_3SRC,
    EXCEPTION,
    EXTRACT,
    FLOAT2FIX,
    FLOAT2INT,
    FLOATCCMP,
    FLOATCMP,
    FLOATDP1,
    FLOATDP2,
    FLOATDP3,
    FLOATIMM,
    FLOATSEL,
    FPRCVTFLOAT2INT,
    FPRCVTINT2FLOAT,
    GCS,
    IC_SYSTEM,
    LDST_IMM10,
    LDST_IMM9,
    LDST_POS,
    LDST_REGOFF,
    LDST_UNPRIV,
    LDST_UNSCALED,
    LDSTEXCL,
    LDSTNAPAIR_OFFS,
    LDSTPAIR_INDEXED,
    LDSTPAIR_OFF,
    LOADLIT,
    LOG_IMM,
    LOG_SHIFT,
    LSE_ATOMIC,
    LSE128_ATOMIC,
    LUT,
    MOVEWIDE,
    PCRELADDR,
    RCPC3,
    SME_FP_SD,
    SME_INT_SD,
    SME_LDR,
    SME_MISC,
    SME_MOV,
    SME_PSEL,
    SME_SHIFT,
    SME_SIZE_12_B,
    SME_SIZE_12_BH,
    SME_SIZE_12_BHS,
    SME_SIZE_12_HS,
    SME_SIZE_22_HSD,
    SME_SIZE_22,
    SME_START,
    SME_STOP,
    SME_STR,
    SME_SZ_23,
    SME2_MOV,
    SVE_CPY,
    SVE_INDEX,
    SVE_LIMM,
    SVE_MISC,
    SVE_MOVPRFX,
    SVE_PRED_ZM,
    SVE_SHIFT_PRED,
    SVE_SHIFT_TSZ_BHSD,
    SVE_SHIFT_TSZ_HSD,
    SVE_SHIFT_UNPRED,
    SVE_SIZE_13,
    SVE_SIZE_BH,
    SVE_SIZE_BHS,
    SVE_SIZE_BHSD,
    SVE_SIZE_HSD,
    SVE_SIZE_HSD2,
    SVE_SIZE_HSD3,
    SVE_SIZE_SD,
    SVE_SIZE_SD2,
    SVE_SIZE_SD3,
    SVE_SIZE_SD4,
    SVE_SIZE_TSZ_BHS,
    SVE2_URQVS,
    TESTBRANCH,
    THE,
}

/// The AArch64 instruction operand kinds.
#[allow(non_camel_case_types)]
#[derive(Clone, Copy, Debug, PartialEq, Eq, Structural)]
pub enum InsnOperandKind {
    ADDR_ADRP,
    ADDR_OFFSET,
    ADDR_PCREL14,
    ADDR_PCREL19,
    ADDR_PCREL21,
    ADDR_PCREL26,
    ADDR_PCREL9,
    ADDR_REGOFF,
    ADDR_SIMM10,
    ADDR_SIMM11,
    ADDR_SIMM13,
    ADDR_SIMM7,
    ADDR_SIMM9,
    ADDR_SIMPLE,
    ADDR_UIMM12,
    AIMM,
    BARRIER_DSB_NXS,
    BARRIER_GCSB,
    BARRIER_ISB,
    BARRIER_PSB,
    BARRIER,
    BIT_NUM,
    BRBOP,
    BTI_TARGET,
    CCMP_IMM,
    COND,
    COND1,
    CRm,
    CRn,
    CSSC_SIMM8,
    CSSC_UIMM8,
    Ed,
    Em,
    Em16,
    Em8,
    Em_INDEX1_14,
    Em_INDEX2_13,
    Em_INDEX3_12,
    En,
    EXCEPTION,
    Fa,
    FBITS,
    Fd,
    Fm,
    Fn,
    FPIMM,
    FPIMM0,
    Ft,
    Ft2,
    GIC,
    GICR,
    GSB,
    HALF,
    IDX,
    IMM_2,
    IMM_MOV,
    IMM_ROT1,
    IMM_ROT2,
    IMM_ROT3,
    IMM_VLSL,
    IMM_VLSR,
    IMM,
    IMM0,
    IMMP1_2,
    IMMR,
    IMMS,
    IMMS1_2,
    LEt,
    LIMM,
    LSE128_Rt,
    LSE128_Rt2,
    LVn,
    LVn_LUT,
    LVt_AL,
    LVt,
    MASK,
    MOPS_ADDR_Rd,
    MOPS_ADDR_Rs,
    MOPS_WB_Rn,
    NOT_BALANCED_10,
    NOT_BALANCED_17,
    NZCV,
    PAIRREG_OR_XZR,
    PAIRREG,
    PRFOP,
    PSTATEFIELD,
    Ra,
    RCPC3_ADDR_OFFSET,
    RCPC3_ADDR_OPT_POSTIND,
    RCPC3_ADDR_OPT_PREIND_WB,
    RCPC3_ADDR_POSTIND,
    RCPC3_ADDR_PREIND_WB,
    Rd_SP,
    Rd,
    Rm_EXT,
    Rm_LSL,
    Rm_SFT,
    Rm_SP,
    Rm,
    Rn_SP,
    Rn,
    RPRFMOP,
    Rs,
    Rt_IN_SYS_ALIASES,
    Rt_LS64,
    Rt_SP,
    Rt_SYS,
    Rt,
    Rt2,
    Sd,
    SHLL_IMM,
    SHUH_PHINT,
    SIMD_ADDR_POST,
    SIMD_ADDR_SIMPLE,
    SIMD_FPIMM,
    SIMD_IMM_SFT,
    SIMD_IMM,
    SIMM5,
    Sm,
    SME_ADDR_RI_U4xVL,
    SME_list_of_64bit_tiles,
    SME_Pdx2,
    SME_PdxN,
    SME_Pm,
    SME_PNd3,
    SME_PNg3,
    SME_PNn,
    SME_PNn3_INDEX1,
    SME_PNn3_INDEX2,
    SME_PnT_Wm_imm,
    SME_SHRIMM3,
    SME_SHRIMM4,
    SME_SHRIMM5,
    SME_SM_ZA,
    SME_VLxN_10,
    SME_VLxN_13,
    SME_ZA_ARRAY4,
    SME_ZA_array_off1x4,
    SME_ZA_array_off2x2,
    SME_ZA_array_off2x4,
    SME_ZA_array_off3_0,
    SME_ZA_array_off3_5,
    SME_ZA_array_off3x2,
    SME_ZA_array_off4,
    SME_ZA_array_vrsb_1,
    SME_ZA_array_vrsb_2,
    SME_ZA_array_vrsd_1,
    SME_ZA_array_vrsd_2,
    SME_ZA_array_vrsh_1,
    SME_ZA_array_vrsh_2,
    SME_ZA_array_vrss_1,
    SME_ZA_array_vrss_2,
    SME_ZA_HV_idx_dest,
    SME_ZA_HV_idx_destxN,
    SME_ZA_HV_idx_ldstr,
    SME_ZA_HV_idx_src,
    SME_ZA_HV_idx_srcxN,
    SME_ZAda_1b,
    SME_ZAda_2b,
    SME_ZAda_3b,
    SME_Zdnx2,
    SME_Zdnx4,
    SME_Zk_INDEX,
    SME_Zm_17,
    SME_Zm_17_3,
    SME_Zm_INDEX1,
    SME_Zm_INDEX2,
    SME_Zm_INDEX2_3,
    SME_Zm_INDEX3_1,
    SME_Zm_INDEX3_10,
    SME_Zm_INDEX3_2,
    SME_Zm_INDEX3_3,
    SME_Zm_INDEX4_1,
    SME_Zm_INDEX4_10,
    SME_Zm,
    SME_Zm_INDEX4_2,
    SME_Zm_INDEX4_3,
    SME_Zmx2,
    SME_Zmx2_17_3,
    SME_Zmx2_INDEX_22,
    SME_Zmx4,
    SME_Zn7xN_UNTYPED,
    SME_Zn_6_3,
    SME_Zn_INDEX1_16,
    SME_Zn_INDEX2_15,
    SME_Zn_INDEX2_16,
    SME_Zn_INDEX2_19,
    SME_Zn_INDEX3_14,
    SME_Zn_INDEX3_15,
    SME_Zn_INDEX4_14,
    SME_Znx2,
    SME_Znx2_6_3,
    SME_Znx2_BIT_INDEX,
    SME_Znx4,
    SME_ZT0_INDEX,
    SME_ZT0_INDEX_MUL_VL,
    SME_ZT0_LIST,
    SME_ZT0,
    SME_Ztx2_STRIDED,
    SME_Ztx4_STRIDED,
    Sn,
    STSHH_POLICY,
    SVE_ADDR_RI_S4x16,
    SVE_ADDR_RI_S4x2xVL,
    SVE_ADDR_RI_S4x32,
    SVE_ADDR_RI_S4x3xVL,
    SVE_ADDR_RI_S4x4xVL,
    SVE_ADDR_RI_S4xVL,
    SVE_ADDR_RI_S6xVL,
    SVE_ADDR_RI_S9xVL,
    SVE_ADDR_RI_U6,
    SVE_ADDR_RI_U6x2,
    SVE_ADDR_RI_U6x4,
    SVE_ADDR_RI_U6x8,
    SVE_ADDR_RM,
    SVE_ADDR_RM_LSL1,
    SVE_ADDR_RM_LSL2,
    SVE_ADDR_RM_LSL3,
    SVE_ADDR_RR_LSL1,
    SVE_ADDR_RR_LSL2,
    SVE_ADDR_RR_LSL3,
    SVE_ADDR_RR_LSL4,
    SVE_ADDR_RR,
    SVE_ADDR_RX_LSL1,
    SVE_ADDR_RX_LSL2,
    SVE_ADDR_RX_LSL3,
    SVE_ADDR_RX,
    SVE_ADDR_RX_LSL4,
    SVE_ADDR_RZ_LSL1,
    SVE_ADDR_RZ_LSL2,
    SVE_ADDR_RZ_LSL3,
    SVE_ADDR_RZ_XTW_14,
    SVE_ADDR_RZ_XTW_22,
    SVE_ADDR_RZ_XTW1_14,
    SVE_ADDR_RZ_XTW1_22,
    SVE_ADDR_RZ_XTW2_14,
    SVE_ADDR_RZ_XTW2_22,
    SVE_ADDR_RZ_XTW3_14,
    SVE_ADDR_RZ_XTW3_22,
    SVE_ADDR_RZ,
    SVE_ADDR_ZI_U5,
    SVE_ADDR_ZI_U5x2,
    SVE_ADDR_ZI_U5x4,
    SVE_ADDR_ZI_U5x8,
    SVE_ADDR_ZX,
    SVE_ADDR_ZZ_LSL,
    SVE_ADDR_ZZ_SXTW,
    SVE_ADDR_ZZ_UXTW,
    SVE_AIMM,
    SVE_ASIMM,
    SVE_FPIMM8,
    SVE_I1_HALF_ONE,
    SVE_I1_HALF_TWO,
    SVE_I1_ZERO_ONE,
    SVE_IMM_ROT1,
    SVE_IMM_ROT2,
    SVE_IMM_ROT3,
    SVE_INV_LIMM,
    SVE_LIMM_MOV,
    SVE_LIMM,
    SVE_PATTERN_SCALED,
    SVE_PATTERN,
    SVE_Pd,
    SVE_Pg3,
    SVE_Pg4_10,
    SVE_Pg4_16,
    SVE_Pg4_5,
    SVE_Pm,
    SVE_Pn,
    SVE_PNd,
    SVE_PNg4_10,
    SVE_PNn,
    SVE_PNt,
    SVE_PRFOP,
    SVE_Pt,
    SVE_Rm,
    SVE_Rn_SP,
    SVE_SHLIMM_PRED,
    SVE_SHLIMM_UNPRED_22,
    SVE_SHLIMM_UNPRED,
    SVE_SHRIMM_PRED,
    SVE_SHRIMM_UNPRED_22,
    SVE_SHRIMM_UNPRED,
    SVE_SIMM5,
    SVE_SIMM5B,
    SVE_SIMM6,
    SVE_SIMM8,
    SVE_UIMM3,
    SVE_UIMM4,
    SVE_UIMM7,
    SVE_UIMM8_53,
    SVE_UIMM8,
    SVE_Vd,
    SVE_Vm,
    SVE_Vn,
    SVE_VZn,
    SVE_Za_16,
    SVE_Za_5,
    SVE_Zd,
    SVE_Zd0_INDEX,
    SVE_Zd1_17_INDEX,
    SVE_Zd2_18_INDEX,
    SVE_Zd3_22_INDEX,
    SVE_Zm1_23_INDEX,
    SVE_Zm2_22_INDEX,
    SVE_Zm3_10_INDEX,
    SVE_Zm3_12_INDEX,
    SVE_Zm_16,
    SVE_Zm_5,
    SVE_Zm3_11_INDEX,
    SVE_Zm3_19_INDEX,
    SVE_Zm3_22_INDEX,
    SVE_Zm3_INDEX,
    SVE_Zm4_11_INDEX,
    SVE_Zm4_INDEX,
    SVE_Zn0_INDEX,
    SVE_Zn1_17_INDEX,
    SVE_Zn2_18_INDEX,
    SVE_Zn3_22_INDEX,
    SVE_Zn_5_INDEX,
    SVE_Zn_INDEX,
    SVE_Zn,
    SVE_ZnxN,
    SVE_Zt,
    SVE_ZtxN,
    SYSREG_AT,
    SYSREG_DC,
    SYSREG_IC,
    SYSREG_MLBI,
    SYSREG_PLBI,
    SYSREG_SR,
    SYSREG_TLBI,
    SYSREG_TLBIP,
    SYSREG,
    SYSREG128,
    TME_UIMM16,
    UIMM10,
    UIMM3_OP1,
    UIMM3_OP2,
    UIMM4_ADDG,
    UIMM4,
    UIMM7,
    UNDEFINED,
    Va,
    Vd,
    VdD1,
    Vm,
    Vn,
    VnD1,
    WIDTH,
    X16,
}

/// The AArch64 instruction operand qualifiers.
#[allow(non_camel_case_types)]
#[derive(Clone, Copy, Debug, PartialEq, Eq, Structural)]
pub enum InsnOperandQualifier {
    imm_0_15,
    imm_0_31,
    imm_0_63,
    imm_0_7,
    imm_1_32,
    imm_1_64,
    imm_tag,
    LSL,
    MSL,
    P_M,
    P_Z,
    S_2B,
    S_2H,
    S_4B,
    S_B,
    S_D,
    S_H,
    S_Q,
    S_S,
    V_16B,
    V_1D,
    V_1Q,
    V_2D,
    V_2H,
    V_2S,
    V_4H,
    V_4S,
    V_8B,
    V_8H,
    W,
    WSP,
    X,
    SP,
}

/// The AArch64 instruction flags, as a set of bits.
#[derive(Clone, Copy, Debug, PartialEq, Eq, Structural)]
pub struct InsnFlags {
    pub bits: u64,
}

impl InsnFlags {
    pub const HAS_ADVSIMD_SCALAR_SIZE: u64 = 1u64 << 0;
    pub const HAS_ADVSIMV_GPRSIZE_IN_Q: u64 = 1u64 << 1;
    pub const HAS_ADVSIMV_VEC_IN_Q: u64 = 1u64 << 2;
    pub const HAS_ALIAS: u64 = 1u64 << 3;
    pub const HAS_FPTYPE_FIELD: u64 = 1u64 << 4;
    pub const HAS_LDS_SIZE_IN_BIT_22: u64 = 1u64 << 5;
    pub const HAS_LSE_SZ_FIELD: u64 = 1u64 << 6;
    pub const HAS_LSFE_SZ_FIELD: u64 = 1u64 << 26;
    pub const HAS_NARROW: u64 = 1u64 << 7;
    pub const HAS_N_FIELD: u64 = 1u64 << 8;
    pub const HAS_OPCODE_DEPENDENT_FIELD_1: u64 = 1u64 << 9;
    pub const HAS_OPCODE_DEPENDENT_FIELD_2: u64 = 1u64 << 10;
    pub const HAS_OPCODE_DEPENDENT_FIELD_3: u64 = 1u64 << 11;
    pub const HAS_OPCODE_DEPENDENT_FIELD_4: u64 = 1u64 << 12;
    pub const HAS_OPCODE_DEPENDENT_FIELD_5: u64 = 1u64 << 13;
    pub const HAS_OPCODE_DEPENDENT_FIELD_6: u64 = 1u64 << 14;
    pub const HAS_OPCODE_DEPENDENT_FIELD_7: u64 = 1u64 << 15;
    pub const HAS_RCPC3_SIZE: u64 = 1u64 << 16;
    pub const HAS_SF_FIELD: u64 = 1u64 << 17;
    pub const HAS_SIZE: u64 = 1u64 << 18;
    pub const HAS_SIZEQ_FIELD: u64 = 1u64 << 19;
    pub const HAS_SPEC_DECODE_RULES: u64 = 1u64 << 20;
    pub const IS_ALIAS: u64 = 1u64 << 21;
    pub const IS_COND: u64 = 1u64 << 22;
    pub const IS_SYS_READ: u64 = 1u64 << 23;
    pub const IS_SYS_WRITE: u64 = 1u64 << 24;
    pub const RESTRICTED_NEXT_INSN_SET: u64 = 1u64 << 25;

    /// Whether every bit of `flag` is set.
    pub fn contains(&self, flag: u64) -> (r: bool)
        ensures
            r == (self.bits & flag == flag),
    {
        self.bits & flag == flag
    }
}

/// A bit field of an operand: `width` bits starting at bit `lsb`.
#[derive(Clone, Copy, Debug, PartialEq, Eq, Structural)]
pub struct BitField {
    pub lsb: u8,
    pub width: u8,
}

/// An instruction operand, as far as operand formatting reads it.
#[derive(Clone, Debug)]
pub struct InsnOperand {
    pub kind: InsnOperandKind,
    pub qualifiers: Vec<InsnOperandQualifier>,
    pub bit_fields: Vec<BitField>,
}

/// An instruction definition, as far as operand formatting reads it.
#[derive(Clone, Copy, Debug)]
pub struct Insn {
    pub class: InsnClass,
    pub flags: InsnFlags,
    pub mask: u32,
}

} // verus!
