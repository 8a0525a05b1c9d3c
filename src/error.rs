use vstd::prelude::*;

verus! {

/// Why a compilation stopped. Lowering, resolution and encoding stop at the
/// first error they meet.
#[derive(Debug, Clone, PartialEq, Eq)]
pub enum CompileError {
    /// An AST form outside the supported subset (division, pointers, casts,
    /// named arguments, structs, ...), or an instruction the encoder has no
    /// recipe for.
    UnsupportedConstruct,
    /// A name that is neither an argument nor a local of the current function.
    UnknownIdentifier(String),
    /// An operand of a shape that the opcode cannot take (an `Int` where a
    /// memory cell is required, or an offset outside the 16-bit field).
    InvalidOperandShape,
    /// A call to a label that the program never defines.
    UnknownLabel(String),
    /// Folding two literals overflowed 64 bits.
    LiteralOverflow,
    /// A frame offset or a jump distance does not fit in 32 bits.
    OffsetOverflow,
}

} // verus!
