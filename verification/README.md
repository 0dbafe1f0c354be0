# disarm64

Verified building blocks of an AArch64 instruction decoder and of its C
decoder generator, written in Verus.

- `src/bits.rs`: bit-field extraction, sign extension, condition names and
  logical-immediate decoding, with the bit pattern of every decoded immediate
  stated and proved.
- `src/defn.rs`, `src/registers.rs`: the instruction classes, operand kinds,
  qualifiers and flags the logic reads, and the register views it selects.
- `src/qualifier.rs`: qualifier tables and the indices that size, Q, immh and
  imm5 fields select.
- `src/fp.rs`: the register view of a floating-point register operand and the
  bit pattern of an expanded floating-point immediate.
- `src/text.rs`: hexadecimal literals, byte-wise string order and ASCII case
  mapping for the generated C source.
- `src/generate_c.rs`: the planning half of the C generator: instruction
  order, unique struct names, mnemonic and class enums, and the decoding
  conditionals.
- `src/c_tables.rs`: the C text of the instruction tables and of the
  decoding function.
- `app/`: conversion from the `disarm64_defn` tables, writing formatted
  operands and floating-point values, and writing the C source.
