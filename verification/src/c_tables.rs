//! The C text of the instruction tables: the mnemonic, instruction and
//! operation enums, and the definition and opcode builder of each
//! instruction.

use crate::generate_c::{
    conditional_lines, decision_bits_valid, flags_expression, insn_flags_expression,
    is_insn_structs_plan, plan_decoder, prelude_text, records, write_prelude, DecisionTree, BitFieldRecord, InsnRecord, InsnStructsPlan,
    OperandRecord,
};
use crate::text::{debug_quoted, dec_digits, decimal, hex_literal, str_debug, texts};
use vstd::prelude::*;

verus! {

/// Items joined by a separator.
pub open spec fn joined(items: Seq<Seq<char>>, sep: Seq<char>) -> Seq<char>
    decreases items.len(),
{
    if items.len() == 0 {
        seq![]
    } else if items.len() == 1 {
        items[0]
    } else {
        joined(items.drop_last(), sep) + sep + items.last()
    }
}

/// Items one after the other.
pub open spec fn concatenated(items: Seq<Seq<char>>) -> Seq<char>
    decreases items.len(),
{
    if items.len() == 0 {
        seq![]
    } else {
        concatenated(items.drop_last()) + items.last()
    }
}

/// The strings of `items` joined by `sep`.
pub fn joined_text(items: &Vec<String>, sep: &str) -> (s: String)
    ensures
        s@ == joined(texts(items@), sep@),
{
    let mut s = String::new();
    let mut k: usize = 0;
    while k < items.len()
        invariant
            k <= items@.len(),
            s@ == joined(texts(items@).take(k as int), sep@),
        decreases items@.len() - k,
    {
        let ghost prev = texts(items@).take(k as int);
        if k > 0 {
            s.append(sep);
        }
        s.append(items[k].as_str());
        proof {
            let next = texts(items@).take(k + 1);
            assert(next.drop_last() =~= prev);
            assert(next.last() == items@[k as int]@);
            if k == 0 {
                assert(prev =~= Seq::<Seq<char>>::empty());
                assert(s@ =~= joined(next, sep@));
            }
        }
        k = k + 1;
    }
    assert(texts(items@).take(items@.len() as int) =~= texts(items@));
    s
}

/// The strings of `items` one after the other.
pub fn concatenated_text(items: &Vec<String>) -> (s: String)
    ensures
        s@ == concatenated(texts(items@)),
{
    let mut s = String::new();
    let mut k: usize = 0;
    while k < items.len()
        invariant
            k <= items@.len(),
            s@ == concatenated(texts(items@).take(k as int)),
        decreases items@.len() - k,
    {
        s.append(items[k].as_str());
        assert(texts(items@).take(k + 1).drop_last() =~= texts(items@).take(k as int));
        k = k + 1;
    }
    assert(texts(items@).take(items@.len() as int) =~= texts(items@));
    s
}

/// `prefix` followed by each of `items` and then `suffix`.
pub open spec fn wrapped(items: Seq<Seq<char>>, prefix: Seq<char>, suffix: Seq<char>) -> Seq<Seq<char>> {
    items.map_values(|t: Seq<char>| prefix + t + suffix)
}

/// Each string of `items` between `prefix` and `suffix`.
pub fn wrapped_texts(items: &Vec<String>, prefix: &str, suffix: &str) -> (out: Vec<String>)
    ensures
        texts(out@) == wrapped(texts(items@), prefix@, suffix@),
{
    let mut out: Vec<String> = Vec::new();
    let mut k: usize = 0;
    while k < items.len()
        invariant
            k <= items@.len(),
            texts(out@) == wrapped(texts(items@).take(k as int), prefix@, suffix@),
        decreases items@.len() - k,
    {
        let mut t = String::from_str(prefix);
        t.append(items[k].as_str());
        t.append(suffix);
        let ghost prev = out@;
        out.push(t);
        assert(texts(out@) =~= texts(prev).push(prefix@ + items@[k as int]@ + suffix@));
        assert(wrapped(texts(items@).take(k + 1), prefix@, suffix@) =~= wrapped(texts(items@).take(k as int), prefix@, suffix@).push(prefix@ + items@[k as int]@ + suffix@));
        k = k + 1;
    }
    assert(texts(items@).take(items@.len() as int) =~= texts(items@));
    out
}

/// The table entry of a bit field.
pub open spec fn bit_field_entry(bf: BitFieldRecord) -> Seq<char> {
    " { DA64_InsnBitField_"@ + bf.name@ + ", "@ + dec_digits(bf.lsb as nat) + ", "@ + dec_digits(
        bf.width as nat,
    ) + " }"@
}

/// The table entry of an operand.
pub open spec fn operand_entry(op: OperandRecord) -> Seq<char> {
    "\n            {\n                .kind = DA64_InsnOperandKind_"@ + op.kind@
        + ",\n                .class = DA64_InsnOperandClass_"@ + op.class@
        + ",\n                .qualifiers = (DA64_InsnOperandQualifier[]){ "@ + joined(
        wrapped(texts(op.qualifiers@), "DA64_InsnOperandQualifier_"@, ""@),
        ","@,
    ) + " },\n                .qualifier_count = "@ + dec_digits(op.qualifiers@.len())
        + ",\n                .bit_fields = (DA64_BitfieldSpec[]){ "@ + joined(
        op.bit_fields@.map_values(|bf: BitFieldRecord| bit_field_entry(bf)),
        ","@,
    ) + " },\n                .bit_field_count = "@ + dec_digits(op.bit_fields@.len())
        + ",\n            }"@
}

/// The table entry of an operand.
fn operand_entry_text(op: &OperandRecord) -> (s: String)
    ensures
        s@ == operand_entry(*op),
{
    let qualifiers = wrapped_texts(&op.qualifiers, "DA64_InsnOperandQualifier_", "");
    let mut bit_fields: Vec<String> = Vec::new();
    let mut k: usize = 0;
    while k < op.bit_fields.len()
        invariant
            k <= op.bit_fields@.len(),
            texts(bit_fields@) == op.bit_fields@.take(k as int).map_values(
                |bf: BitFieldRecord| bit_field_entry(bf),
            ),
        decreases op.bit_fields@.len() - k,
    {
        let bf = &op.bit_fields[k];
        let mut t = String::from_str(" { DA64_InsnBitField_");
        t.append(bf.name.as_str());
        t.append(", ");
        let lsb = decimal(bf.lsb as u64);
        t.append(lsb.as_str());
        t.append(", ");
        let width = decimal(bf.width as u64);
        t.append(width.as_str());
        t.append(" }");
        let ghost prev = bit_fields@;
        bit_fields.push(t);
        assert(texts(bit_fields@) =~= texts(prev).push(bit_field_entry(*bf)));
        assert(op.bit_fields@.take(k + 1).map_values(|bf: BitFieldRecord| bit_field_entry(bf))
            =~= op.bit_fields@.take(k as int).map_values(|bf: BitFieldRecord| bit_field_entry(bf)).push(
            bit_field_entry(*bf),
        ));
        k = k + 1;
    }
    assert(op.bit_fields@.take(op.bit_fields@.len() as int) =~= op.bit_fields@);
    let mut s = String::from_str("\n            {\n                .kind = DA64_InsnOperandKind_");
    s.append(op.kind.as_str());
    s.append(",\n                .class = DA64_InsnOperandClass_");
    s.append(op.class.as_str());
    s.append(",\n                .qualifiers = (DA64_InsnOperandQualifier[]){ ");
    let q = joined_text(&qualifiers, ",");
    s.append(q.as_str());
    s.append(" },\n                .qualifier_count = ");
    let qc = decimal(op.qualifiers.len() as u64);
    s.append(qc.as_str());
    s.append(",\n                .bit_fields = (DA64_BitfieldSpec[]){ ");
    let b = joined_text(&bit_fields, ",");
    s.append(b.as_str());
    s.append(" },\n                .bit_field_count = ");
    let bc = decimal(op.bit_fields.len() as u64);
    s.append(bc.as_str());
    s.append(",\n            }");
    s
}

/// The byte length of a string.
pub open spec fn byte_len(s: Seq<char>) -> nat {
    vstd::utf8::encode_utf8(s).len()
}

/// The definition and opcode builder of an instruction named `name` whose
/// builder uses the mnemonic identifier `ident`.
pub open spec fn insn_definition(insn: InsnRecord, name: Seq<char>, ident: Seq<char>) -> Seq<char> {
    "\n        \nstatic const DA64_Insn "@ + name + "_DEFINITION = {\n    .mnemonic = "@ + str_debug(
        insn.mnemonic@,
    ) + ",\n    .mnemonic_size = "@ + dec_digits(byte_len(insn.mnemonic@))
        + ",\n    .aliases = 0,\n    .alias_count = 0,\n    .opcode = "@ + crate::generate_c::hex_lit(
        insn.opcode,
    ) + ",\n    .mask = "@ + crate::generate_c::hex_lit(insn.mask) + ",\n    .class = DA64_InsnClass_"@
        + insn.class@ + ",\n    .feature_set = DA64_InsnFeatureSet_"@ + insn.feature_set@
        + ",\n    .operands = (DA64_InsnOperand[]) { "@ + joined(
        insn.operands@.map_values(|op: OperandRecord| operand_entry(op)),
        ","@,
    ) + " },\n    .operand_count = "@ + dec_digits(insn.operands@.len()) + ",\n    .flags = "@
        + flags_expression(insn.flags@)
        + ",\n};\n\n\nDA64_Opcode DA64_"@ + name
        + "_make_opcode(da64_u32 bits) {\n    DA64_Opcode result = {\n        .mnemonic = DA64_Mnemonic_"@
        + ident + ",\n        .operation = DA64_Operation_"@ + insn.class@
        + ",\n        .ident = DA64_InsnIdent_"@ + name + ",\n        .definition = &"@ + name
        + "_DEFINITION,\n        .bits = bits,\n    };\n    return result;\n}        \n        "@
}

/// The definition and opcode builder of an instruction.
pub fn insn_definition_text(insn: &InsnRecord, name: &String, ident: &String) -> (s: String)
    ensures
        s@ == insn_definition(*insn, name@, ident@),
{
    proof {
        reveal_strlit("0x");
    }
    let mut operands: Vec<String> = Vec::new();
    let mut k: usize = 0;
    while k < insn.operands.len()
        invariant
            k <= insn.operands@.len(),
            texts(operands@) == insn.operands@.take(k as int).map_values(
                |op: OperandRecord| operand_entry(op),
            ),
        decreases insn.operands@.len() - k,
    {
        let ghost prev = operands@;
        operands.push(operand_entry_text(&insn.operands[k]));
        assert(texts(operands@) =~= texts(prev).push(operand_entry(insn.operands@[k as int])));
        assert(insn.operands@.take(k + 1).map_values(|op: OperandRecord| operand_entry(op))
            =~= insn.operands@.take(k as int).map_values(|op: OperandRecord| operand_entry(op)).push(
            operand_entry(insn.operands@[k as int]),
        ));
        k = k + 1;
    }
    assert(insn.operands@.take(insn.operands@.len() as int) =~= insn.operands@);

    let mut s = String::from_str("\n        \nstatic const DA64_Insn ");
    s.append(name.as_str());
    s.append("_DEFINITION = {\n    .mnemonic = ");
    let quoted = debug_quoted(insn.mnemonic.as_str());
    s.append(quoted.as_str());
    s.append(",\n    .mnemonic_size = ");
    let size = decimal(insn.mnemonic.as_str().as_bytes().len() as u64);
    assert(size@ == dec_digits(byte_len(insn.mnemonic@)));
    s.append(size.as_str());
    s.append(",\n    .aliases = 0,\n    .alias_count = 0,\n    .opcode = ");
    let opcode = hex_literal(insn.opcode);
    assert(opcode@ == crate::generate_c::hex_lit(insn.opcode));
    s.append(opcode.as_str());
    s.append(",\n    .mask = ");
    let mask = hex_literal(insn.mask);
    assert(mask@ == crate::generate_c::hex_lit(insn.mask));
    s.append(mask.as_str());
    s.append(",\n    .class = DA64_InsnClass_");
    s.append(insn.class.as_str());
    s.append(",\n    .feature_set = DA64_InsnFeatureSet_");
    s.append(insn.feature_set.as_str());
    s.append(",\n    .operands = (DA64_InsnOperand[]) { ");
    let ops = joined_text(&operands, ",");
    assert(ops@ == joined(insn.operands@.map_values(|op: OperandRecord| operand_entry(op)), ","@));
    s.append(ops.as_str());
    s.append(" },\n    .operand_count = ");
    let count = decimal(insn.operands.len() as u64);
    s.append(count.as_str());
    s.append(",\n    .flags = ");
    let flags = insn_flags_expression(&insn.flags);
    s.append(flags.as_str());
    s.append(",\n};\n\n\nDA64_Opcode DA64_");
    s.append(name.as_str());
    s.append("_make_opcode(da64_u32 bits) {\n    DA64_Opcode result = {\n        .mnemonic = DA64_Mnemonic_");
    s.append(ident.as_str());
    s.append(",\n        .operation = DA64_Operation_");
    s.append(insn.class.as_str());
    s.append(",\n        .ident = DA64_InsnIdent_");
    s.append(name.as_str());
    s.append(",\n        .definition = &");
    s.append(name.as_str());
    s.append("_DEFINITION,\n        .bits = bits,\n    };\n    return result;\n}        \n        ");
    s
}

/// The lines that declare the mnemonic and instruction enums.
pub open spec fn enum_lines(mnemonics: Seq<Seq<char>>, names: Seq<Seq<char>>) -> Seq<Seq<char>> {
    seq!["typedef enum DA64_Mnemonic DA64_Mnemonic;"@, "enum DA64_Mnemonic {"@] + wrapped(
        mnemonics,
        "    DA64_Mnemonic_"@,
        ","@,
    ) + seq!["};"@, "typedef enum DA64_InsnIdent DA64_InsnIdent;"@, "enum DA64_InsnIdent {"@]
        + wrapped(names, "DA64_InsnIdent_"@, ","@) + seq!["};"@]
}

/// The declaration of the opcode struct.
pub open spec fn opcode_struct_decl() -> Seq<char> {
    "\ntypedef struct DA64_Opcode DA64_Opcode;\nstruct DA64_Opcode {\n    DA64_Mnemonic    mnemonic;\n    DA64_Operation   operation;\n    DA64_InsnIdent   ident;\n    const DA64_Insn *definition;\n    da64_u32         bits;\n};\n    "@
}

/// The definitions of the planned instructions, in emission order.
pub open spec fn insn_definitions(insns: Seq<InsnRecord>, names: Seq<Seq<char>>, idents: Seq<Seq<char>>) -> Seq<Seq<char>> {
    Seq::new(insns.len(), |k: int| insn_definition(insns[k], names[k], idents[k]))
}

/// The C text of the instruction tables: the enum declarations, the
/// operation enum, the opcode struct, then each instruction's definition and
/// builder, each part ending in a newline.
pub open spec fn insn_structs_text(
    mnemonics: Seq<Seq<char>>,
    names: Seq<Seq<char>>,
    classes: Seq<Seq<char>>,
    insns: Seq<InsnRecord>,
    idents: Seq<Seq<char>>,
) -> Seq<char> {
    joined(enum_lines(mnemonics, names), "\n"@) + "\n"@
        + "typedef enum DA64_Operation DA64_Operation;\n"@ + "enum DA64_Operation {\n"@
        + concatenated(wrapped(classes, "DA64_Operation_"@, ",\n"@)) + "};\n"@
        + opcode_struct_decl() + "\n"@ + joined(insn_definitions(insns, names, idents), "\n"@)
        + "\n"@
}

/// The lines that declare the mnemonic and instruction enums of a plan.
fn enum_lines_of(plan: &InsnStructsPlan) -> (lines: Vec<String>)
    ensures
        texts(lines@) == enum_lines(texts(plan.mnemonics@), texts(plan.names@)),
{
    let mut lines: Vec<String> = Vec::new();
    lines.push(String::from_str("typedef enum DA64_Mnemonic DA64_Mnemonic;"));
    lines.push(String::from_str("enum DA64_Mnemonic {"));
    let mut mnemonic_lines = wrapped_texts(&plan.mnemonics, "    DA64_Mnemonic_", ",");
    lines.append(&mut mnemonic_lines);
    lines.push(String::from_str("};"));
    lines.push(String::from_str("typedef enum DA64_InsnIdent DA64_InsnIdent;"));
    lines.push(String::from_str("enum DA64_InsnIdent {"));
    let mut ident_lines = wrapped_texts(&plan.names, "DA64_InsnIdent_", ",");
    lines.append(&mut ident_lines);
    lines.push(String::from_str("};"));
    assert(texts(lines@) =~= enum_lines(texts(plan.mnemonics@), texts(plan.names@)));
    lines
}

/// The definitions of a plan's instructions, in emission order.
fn insn_definitions_of(plan: &InsnStructsPlan) -> (definitions: Vec<String>)
    requires
        plan.names@.len() == plan.insns@.len(),
        plan.mnemonic_idents@.len() == plan.insns@.len(),
    ensures
        texts(definitions@) == insn_definitions(
            records(plan.insns@),
            texts(plan.names@),
            texts(plan.mnemonic_idents@),
        ),
{
    let ghost all = insn_definitions(records(plan.insns@), texts(plan.names@), texts(plan.mnemonic_idents@));
    let mut definitions: Vec<String> = Vec::new();
    let mut k: usize = 0;
    while k < plan.insns.len()
        invariant
            k <= plan.insns@.len(),
            plan.names@.len() == plan.insns@.len(),
            plan.mnemonic_idents@.len() == plan.insns@.len(),
            all == insn_definitions(records(plan.insns@), texts(plan.names@), texts(plan.mnemonic_idents@)),
            texts(definitions@) == all.take(k as int),
        decreases plan.insns@.len() - k,
    {
        let ghost prev = definitions@;
        assert(records(plan.insns@)[k as int] == *plan.insns@[k as int]);
        assert(texts(plan.names@)[k as int] == plan.names@[k as int]@);
        assert(texts(plan.mnemonic_idents@)[k as int] == plan.mnemonic_idents@[k as int]@);
        assert(all[k as int] == insn_definition(*plan.insns@[k as int], plan.names@[k as int]@, plan.mnemonic_idents@[k as int]@));
        let d = insn_definition_text(plan.insns[k], &plan.names[k], &plan.mnemonic_idents[k]);
        definitions.push(d);
        assert(texts(definitions@) =~= texts(prev).push(all[k as int]));
        assert(all.take(k + 1) =~= all.take(k as int).push(all[k as int]));
        k = k + 1;
    }
    assert(all.take(plan.insns@.len() as int) =~= all);
    definitions
}

/// The C text of the planned instruction tables.
pub fn write_insn_structs(plan: &InsnStructsPlan) -> (text: String)
    requires
        plan.names@.len() == plan.insns@.len(),
        plan.mnemonic_idents@.len() == plan.insns@.len(),
    ensures
        text@ == insn_structs_text(
            texts(plan.mnemonics@),
            texts(plan.names@),
            texts(plan.classes@),
            records(plan.insns@),
            texts(plan.mnemonic_idents@),
        ),
{
    let lines = enum_lines_of(plan);
    let definitions = insn_definitions_of(plan);
    let mut text = joined_text(&lines, "\n");
    text.append("\n");
    text.append("typedef enum DA64_Operation DA64_Operation;\n");
    text.append("enum DA64_Operation {\n");
    let operations = wrapped_texts(&plan.classes, "DA64_Operation_", ",\n");
    let operation_text = concatenated_text(&operations);
    text.append(operation_text.as_str());
    text.append("};\n");
    text.append("\ntypedef struct DA64_Opcode DA64_Opcode;\nstruct DA64_Opcode {\n    DA64_Mnemonic    mnemonic;\n    DA64_Operation   operation;\n    DA64_InsnIdent   ident;\n    const DA64_Insn *definition;\n    da64_u32         bits;\n};\n    ");
    text.append("\n");
    let definitions_text = joined_text(&definitions, "\n");
    text.append(definitions_text.as_str());
    text.append("\n");
    text
}

/// The C decoding function around the decoder's conditionals.
pub open spec fn decoder_function(lines: Seq<Seq<char>>) -> Seq<char> {
    "\nDA64_Opcode da64_decode(da64_u32 insn) {\n    "@ + joined(lines, "\n"@)
        + "\n    DA64_Opcode error = { 0 };\n    printf(\"Failed to decode %lx\\n\", insn);\n    return error;\n}\n\n"@
}

/// The C decoding function around the decoder's conditionals.
pub fn decoder_function_text(lines: &Vec<String>) -> (text: String)
    ensures
        text@ == decoder_function(texts(lines@)),
{
    let mut text = String::from_str("\nDA64_Opcode da64_decode(da64_u32 insn) {\n    ");
    let body = joined_text(lines, "\n");
    text.append(body.as_str());
    text.append("\n    DA64_Opcode error = { 0 };\n    printf(\"Failed to decode %lx\\n\", insn);\n    return error;\n}\n\n");
    text
}

/// The whole C source of the decoder for `tree`, written with the plan
/// `plan`: the prelude with the C definitions `c_defs`, the instruction
/// tables, then the decoding function.
pub open spec fn c_decoder(tree: DecisionTree, plan: InsnStructsPlan, c_defs: Seq<char>) -> Seq<char> {
    prelude_text(c_defs) + insn_structs_text(
        texts(plan.mnemonics@),
        texts(plan.names@),
        texts(plan.classes@),
        records(plan.insns@),
        texts(plan.mnemonic_idents@),
    ) + decoder_function(conditional_lines(tree, records(plan.insns@), texts(plan.names@)))
}

/// Plans the tables of `tree` and writes the whole C source of its decoder;
/// no source where a decision bit lies outside a 32-bit word.
pub fn c_decoder_text<'a>(tree: &'a DecisionTree, c_defs: &str) -> (out: (InsnStructsPlan<'a>, Option<String>))
    ensures
        is_insn_structs_plan(*tree, out.0),
        out.1 is Some <==> decision_bits_valid(*tree),
        out.1 matches Some(text) ==> text@ == c_decoder(*tree, out.0, c_defs@),
{
    let (plan, conditionals) = plan_decoder(tree);
    match conditionals {
        None => (plan, None),
        Some(lines) => {
            let mut text = write_prelude(tree, c_defs);
            let tables = write_insn_structs(&plan);
            text.append(tables.as_str());
            let decoder = decoder_function_text(&lines);
            text.append(decoder.as_str());
            (plan, Some(text))
        },
    }
}

} // verus!
