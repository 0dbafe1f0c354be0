//! Verified building blocks of an AArch64 instruction decoder: bit-field
//! extraction, logical-immediate decoding, operand-qualifier resolution,
//! floating-point register and immediate selection, and the planning half of
//! the C decoder generator.

pub mod bits;
pub mod defn;
pub mod registers;
pub mod qualifier;
pub mod fp;
pub mod text;
pub mod generate_c;
pub mod c_tables;
