use disarm64::generate_c::{
    check_decision_bits, decision_tree_to_rust_recursive_conditionals, insn_flags_expression,
    plan_decoder, plan_insn_structs, write_prelude, BitFieldRecord, DecisionTree, DecisionTreeNode,
    InsnRecord, InsnStructsPlan, LeafInsn, OperandRecord,
};
use disarm64::text::{hex_literal, hex_u64, hex_word, sorted_distinct, str_less};

fn operand(kind: &str, qualifiers: &[&str]) -> OperandRecord {
    OperandRecord {
        kind: kind.to_string(),
        class: "FP_REG".to_string(),
        qualifiers: qualifiers.iter().map(|q| q.to_string()).collect(),
        bit_fields: vec![BitFieldRecord { name: "Rd".to_string(), lsb: 0, width: 5 }],
    }
}

fn insn(mnemonic: &str, opcode: u32, mask: u32, class: &str, operands: Vec<OperandRecord>) -> LeafInsn {
    LeafInsn {
        insn: InsnRecord {
            mnemonic: mnemonic.to_string(),
            opcode,
            mask,
            class: class.to_string(),
            feature_set: "V8".to_string(),
            operands,
            flags: vec![],
        },
    }
}

fn leaf(insns: Vec<LeafInsn>) -> DecisionTree {
    Some(Box::new(DecisionTreeNode::Leaf { insns }))
}

fn sample_tree() -> DecisionTree {
    let zero = leaf(vec![
        insn("fmov", 0x1e20_4000, 0xff20_fc00, "FLOATDP1", vec![operand("Fd", &["S_S"]), operand("Fn", &["S_S"])]),
        insn("add", 0x0b00_0000, 0xff20_0000, "ADDSUB_SHIFT", vec![operand("Rd", &[])]),
    ]);
    let one = leaf(vec![
        insn("fmov", 0x1e60_4000, 0xff20_fc00, "FLOATDP1", vec![operand("Fd", &["S_D"]), operand("Fn", &["S_D"])]),
        insn("nop", 0xd503_201f, 0xffff_ffff, "IC_SYSTEM", vec![]),
        insn("b.cond", 0x5400_0000, 0xff00_0010, "CONDBRANCH", vec![operand("ADDR_PCREL19", &[])]),
    ]);
    Some(Box::new(DecisionTreeNode::Branch { decision_bit: 22, zero, one }))
}

#[test]
fn hex_formats() {
    assert_eq!(hex_literal(0x1234), "0x001234");
    assert_eq!(hex_literal(0), "0x000000");
    assert_eq!(hex_literal(0xd503_201f), "0xd503201f");
    assert_eq!(hex_literal(0x0040_0000), "0x400000");
    assert_eq!(hex_word(0x1e), "0000001e");
    assert_eq!(hex_word(0xffff_ffff), "ffffffff");
    assert_eq!(hex_u64(0), "0");
    assert_eq!(hex_u64(0x80000), "80000");
    assert_eq!(hex_u64(u64::MAX), "ffffffffffffffff");
    for v in [0u32, 1, 0xabc, 0x12_3456, 0x1234_5678, u32::MAX] {
        assert_eq!(hex_literal(v), format!("{:#08x}", v));
        assert_eq!(hex_word(v), format!("{:08x}", v));
    }
}

#[test]
fn string_order_is_byte_order() {
    assert!(str_less("add", "adds"));
    assert!(str_less("ADD", "add"));
    assert!(str_less("b", "b.cond"));
    assert!(!str_less("fmov", "fmov"));
    assert!(!str_less("sub", "add"));
    assert!(str_less("", "a"));
}

#[test]
fn sorted_distinct_strings() {
    let input: Vec<String> = ["fmov", "add", "fmov", "b_cond", "add"].iter().map(|s| s.to_string()).collect();
    let sorted = sorted_distinct(&input);
    assert_eq!(sorted, vec!["add".to_string(), "b_cond".to_string(), "fmov".to_string()]);
    assert_eq!(sorted_distinct(&Vec::new()), Vec::<String>::new());
}

#[test]
fn plan_orders_by_mnemonic_keeping_tree_order() {
    let tree = sample_tree();
    let plan = plan_insn_structs(&tree);
    let order: Vec<(&str, u32)> = plan.insns.iter().map(|i| (i.mnemonic.as_str(), i.opcode)).collect();
    assert_eq!(
        order,
        vec![
            ("add", 0x0b00_0000),
            ("b.cond", 0x5400_0000),
            ("fmov", 0x1e20_4000),
            ("fmov", 0x1e60_4000),
            ("nop", 0xd503_201f),
        ]
    );
}

#[test]
fn plan_struct_names() {
    let tree = sample_tree();
    let plan = plan_insn_structs(&tree);
    assert_eq!(
        plan.names,
        vec![
            "ADD_Rd".to_string(),
            "B_COND_ADDR_PCREL19".to_string(),
            "FMOV_Fd_Fn".to_string(),
            "FMOV_Fd_S_D_Fn_S_D".to_string(),
            "NOP".to_string(),
        ]
    );
}

#[test]
fn struct_name_falls_back_to_opcode() {
    let tree = leaf(vec![
        insn("mov", 0x1000, 0xffff, "LOG_SHIFT", vec![operand("Rd", &[])]),
        insn("mov", 0x2000, 0xffff, "LOG_SHIFT", vec![operand("Rd", &[])]),
        insn("mov", 0x3000, 0xffff, "LOG_SHIFT", vec![operand("Rd", &[])]),
    ]);
    let plan = plan_insn_structs(&tree);
    assert_eq!(
        plan.names,
        vec!["MOV_Rd".to_string(), "MOV_Rd_00002000".to_string(), "MOV_Rd_00003000".to_string()]
    );
}

#[test]
fn plan_mnemonics_and_classes() {
    let tree = sample_tree();
    let plan = plan_insn_structs(&tree);
    assert_eq!(plan.mnemonics, vec!["add", "b_cond", "fmov", "nop"]);
    assert_eq!(plan.classes, vec!["ADDSUB_SHIFT", "CONDBRANCH", "FLOATDP1", "IC_SYSTEM"]);
}

#[test]
fn mnemonics_are_lowercased() {
    let tree = leaf(vec![insn("LD1.B", 0x1, 0xf, "ASISDLSE", vec![])]);
    let plan = plan_insn_structs(&tree);
    assert_eq!(plan.mnemonics, vec!["ld1_b"]);
    assert_eq!(plan.names, vec!["LD1_B"]);
}

#[test]
fn empty_tree_plans_nothing() {
    let tree: DecisionTree = None;
    let plan = plan_insn_structs(&tree);
    assert!(plan.insns.is_empty() && plan.names.is_empty() && plan.mnemonics.is_empty() && plan.classes.is_empty());
    assert_eq!(decision_tree_to_rust_recursive_conditionals(&tree, &plan), Vec::<String>::new());
}

#[test]
fn decoder_conditionals() {
    let tree = sample_tree();
    let lines = plan_decoder(&tree).1.unwrap();
    let expected = vec![
        "if((insn & 0x400000) == 0) {",
        "if((insn & 0xff20fc00) == 0x1e204000) {",
        "return DA64_FMOV_Fd_Fn_make_opcode(insn);",
        "}",
        "if((insn & 0xff200000) == 0xb000000) {",
        "return DA64_ADD_Rd_make_opcode(insn);",
        "}",
        "} else {",
        "if((insn & 0xff20fc00) == 0x1e604000) {",
        "return DA64_FMOV_Fd_S_D_Fn_S_D_make_opcode(insn);",
        "}",
        "if(insn == 0xd503201f) {",
        "return DA64_NOP_make_opcode(insn);",
        "}",
        "if((insn & 0xff000010) == 0x54000000) {",
        "return DA64_B_COND_ADDR_PCREL19_make_opcode(insn);",
        "}",
        "}",
    ];
    assert_eq!(lines, expected);
}

#[test]
fn decoder_uses_last_name_for_repeated_opcode() {
    let tree = leaf(vec![
        insn("mov", 0x1000, 0xffff, "LOG_SHIFT", vec![operand("Rd", &[])]),
        insn("mov", 0x1000, 0xffff, "LOG_SHIFT", vec![operand("Rn", &[])]),
    ]);
    let (plan, lines) = plan_decoder(&tree);
    let lines = lines.unwrap();
    assert_eq!(plan.names, vec!["MOV_Rd", "MOV_Rn"]);
    assert_eq!(lines[1], "return DA64_MOV_Rn_make_opcode(insn);");
    assert_eq!(lines[4], "return DA64_MOV_Rn_make_opcode(insn);");
}

#[test]
fn decision_bit_outside_the_word() {
    let tree: DecisionTree = Some(Box::new(DecisionTreeNode::Branch { decision_bit: 32, zero: None, one: None }));
    assert!(!check_decision_bits(&tree));
    assert!(plan_decoder(&tree).1.is_none());
    let top: DecisionTree = Some(Box::new(DecisionTreeNode::Branch { decision_bit: 31, zero: None, one: None }));
    let lines = plan_decoder(&top).1.unwrap();
    assert_eq!(lines, vec!["if((insn & 0x80000000) == 0) {", "} else {", "}"]);
}

#[test]
fn flags_expressions() {
    assert_eq!(insn_flags_expression(&vec![]), "DA64_InsnFlag_EMPTY");
    assert_eq!(insn_flags_expression(&vec![0x80000]), "0x80000");
    assert_eq!(insn_flags_expression(&vec![0x1, 0x4000000, 0x10]), "0x1|0x4000000|0x10");
}

#[test]
fn prelude_text() {
    let tree: DecisionTree = None;
    assert_eq!(
        write_prelude(&tree, "typedef unsigned int da64_u32;"),
        "// Auto-generated.\n// The changes will be LOST.\n\ntypedef unsigned int da64_u32;\n"
    );
}

#[test]
fn builder_mnemonic_idents_are_declared() {
    let tree = sample_tree();
    let plan = plan_insn_structs(&tree);
    assert_eq!(plan.mnemonic_idents, vec!["add", "b_cond", "fmov", "fmov", "nop"]);
    for ident in plan.mnemonic_idents.iter() {
        assert!(plan.mnemonics.contains(ident));
    }
}

#[test]
fn builder_mnemonic_ident_keeps_case() {
    let tree = leaf(vec![insn("LD1.B", 0x1, 0xf, "ASISDLSE", vec![])]);
    let plan = plan_insn_structs(&tree);
    assert_eq!(plan.mnemonic_idents, vec!["LD1_B"]);
    assert_eq!(plan.mnemonics, vec!["ld1_b"]);
}

use disarm64::c_tables::{c_decoder_text, decoder_function_text, write_insn_structs};

fn expected_tables(plan: &InsnStructsPlan) -> String {
    let mut out = String::new();
    let mut struct_definitions = vec![];
    let mut struct_impls = vec![];

    struct_definitions.push("typedef enum DA64_Mnemonic DA64_Mnemonic;".to_owned());
    struct_definitions.push("enum DA64_Mnemonic {".to_owned());
    struct_definitions.extend(plan.mnemonics.iter().map(|m| format!("    DA64_Mnemonic_{m},")));
    struct_definitions.push("};".to_owned());

    for (insn, opcode_struct_name) in plan.insns.iter().zip(plan.names.iter()) {
        let opcode_hex = format!("{:#08x}", insn.opcode);
        let mask_hex = format!("{:#08x}", insn.mask);
        let mnemonic = insn.mnemonic.as_str();
        let feature_set = format!("DA64_InsnFeatureSet_{}", insn.feature_set);
        let class = &insn.class;

        let mut insn_operands = Vec::new();
        for operand in insn.operands.iter() {
            let kind = &operand.kind;
            let class = &operand.class;
            let qualifiers: Vec<String> = operand
                .qualifiers
                .iter()
                .map(|q| format!("DA64_InsnOperandQualifier_{q}"))
                .collect();
            let bit_fields: Vec<String> = operand
                .bit_fields
                .iter()
                .map(|bf| {
                    format!(" {{ DA64_InsnBitField_{}, {}, {} }}", bf.name, bf.lsb, bf.width)
                })
                .collect();

            let qualifier_count = qualifiers.len();
            let qualifiers_formatted = qualifiers.join(",");

            let bitfield_count = bit_fields.len();
            let bitfields_formatted = bit_fields.join(",");

            insn_operands.push(format!(
                "
            {{
                .kind = DA64_InsnOperandKind_{kind},
                .class = DA64_InsnOperandClass_{class},
                .qualifiers = (DA64_InsnOperandQualifier[]){{ {qualifiers_formatted} }},
                .qualifier_count = {qualifier_count},
                .bit_fields = (DA64_BitfieldSpec[]){{ {bitfields_formatted} }},
                .bit_field_count = {bitfield_count},
            }}"
            ));
        }

        let flags: Vec<String> = insn.flags.iter().map(|flag| format!("0x{flag:x}")).collect();
        let flags: String = if flags.is_empty() {
            "DA64_InsnFlag_EMPTY".to_owned()
        } else {
            flags.join("|")
        };

        let mnemonic_ident = format!("DA64_Mnemonic_{}", mnemonic.replace('.', "_"));
        let mnemonic_len = mnemonic.len();

        let operands_formatted = insn_operands.join(",");
        let operand_count = insn_operands.len();

        struct_impls.push(format!(
            "
        
static const DA64_Insn {opcode_struct_name}_DEFINITION = {{
    .mnemonic = {mnemonic:?},
    .mnemonic_size = {mnemonic_len},
    .aliases = 0,
    .alias_count = 0,
    .opcode = {opcode_hex},
    .mask = {mask_hex},
    .class = DA64_InsnClass_{class},
    .feature_set = {feature_set},
    .operands = (DA64_InsnOperand[]) {{ {operands_formatted} }},
    .operand_count = {operand_count},
    .flags = {flags},
}};


DA64_Opcode DA64_{opcode_struct_name}_make_opcode(da64_u32 bits) {{
    DA64_Opcode result = {{
        .mnemonic = {mnemonic_ident},
        .operation = DA64_Operation_{class},
        .ident = DA64_InsnIdent_{opcode_struct_name},
        .definition = &{opcode_struct_name}_DEFINITION,
        .bits = bits,
    }};
    return result;
}}        
        "
        ));
    }

    struct_definitions.push("typedef enum DA64_InsnIdent DA64_InsnIdent;".to_owned());
    struct_definitions.push("enum DA64_InsnIdent {".to_owned());
    struct_definitions.extend(plan.names.iter().map(|name| format!("DA64_InsnIdent_{name},")));
    struct_definitions.push("};".to_owned());

    out.push_str(&format!("{}", struct_definitions.join("\n")));
    out.push('\n');

    out.push_str(&format!("typedef enum DA64_Operation DA64_Operation;"));
    out.push('\n');
    out.push_str(&format!("enum DA64_Operation {{"));
    out.push('\n');
    for class in plan.classes.iter() {
        out.push_str(&format!("DA64_Operation_{class},"));
        out.push('\n');
    }
    out.push_str(&format!("}};"));
    out.push('\n');

    out.push_str(&format!("{}",
        "
typedef struct DA64_Opcode DA64_Opcode;
struct DA64_Opcode {
    DA64_Mnemonic    mnemonic;
    DA64_Operation   operation;
    DA64_InsnIdent   ident;
    const DA64_Insn *definition;
    da64_u32         bits;
};
    "));
    out.push('\n');

    out.push_str(&format!("{}", struct_impls.join("\n")));
    out.push('\n');

    out
}


#[test]
fn tables_text_matches_templates() {
    let tree = sample_tree();
    let plan = plan_insn_structs(&tree);
    assert_eq!(write_insn_structs(&plan), expected_tables(&plan));
}

#[test]
fn tables_text_with_flags_and_bit_fields() {
    let mut record = insn("ld1.b", 0x0c40_7000, 0xbfff_f000, "ASISDLSE", vec![operand("LVt", &["V_8B", "V_16B"])]).insn;
    record.flags = vec![0x4, 0x80000];
    record.operands[0].bit_fields.push(BitFieldRecord { name: "Q".to_string(), lsb: 30, width: 1 });
    let tree = leaf(vec![LeafInsn { insn: record }]);
    let plan = plan_insn_structs(&tree);
    let text = write_insn_structs(&plan);
    assert_eq!(text, expected_tables(&plan));
    assert!(text.contains(".mnemonic = \"ld1.b\","));
    assert!(text.contains(".mnemonic = DA64_Mnemonic_ld1_b,"));
    assert!(text.contains(".flags = 0x4|0x80000,"));
    assert!(text.contains(" { DA64_InsnBitField_Q, 30, 1 }"));
}

#[test]
fn decoder_function_text_wraps_lines() {
    let lines = vec!["if(insn == 0xd503201f) {".to_string(), "}".to_string()];
    let expected = format!(
        "
DA64_Opcode da64_decode(da64_u32 insn) {{
    {}
    DA64_Opcode error = {{ 0 }};
    printf(\"Failed to decode %lx\\n\", insn);
    return error;
}}
\n",
        lines.join("\n")
    );
    assert_eq!(decoder_function_text(&lines), expected);
}

#[test]
fn whole_decoder_source() {
    let tree = sample_tree();
    let (plan, text) = c_decoder_text(&tree, "#define X 1");
    let lines = plan_decoder(&tree).1.unwrap();
    let expected = format!(
        "{}{}{}",
        write_prelude(&tree, "#define X 1"),
        write_insn_structs(&plan),
        decoder_function_text(&lines)
    );
    assert_eq!(text.unwrap(), expected);
    assert!(expected.starts_with("// Auto-generated.\n// The changes will be LOST.\n\n#define X 1\ntypedef enum DA64_Mnemonic DA64_Mnemonic;\n"));
    let bad: DecisionTree = Some(Box::new(DecisionTreeNode::Branch { decision_bit: 40, zero: None, one: None }));
    assert!(c_decoder_text(&bad, "").1.is_none());
}
