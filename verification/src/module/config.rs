//! File name extensions of the files that the analysis reads and writes.
use vstd::prelude::*;

verus! {

/// Extension of the compiled (binary) programs.
pub const BINARY_EXT: &'static str = ".run";

/// Extension of the disassembled programs as the disassembler wrote them.
pub const ASSEMBLY_EXT_ORGINAL: &'static str = ".asm";

/// Extension of the disassembled programs without comments.
pub const ASSEMBLY_EXT_UNCOMMENTED: &'static str = ".uncommented.asm";

/// Extension of the disassembled programs reduced to their subroutines.
pub const ASSEMBLY_EXT_CLEANED: &'static str = ".cleaned.asm";

/// Extension of the branch traces of a simulated run.
pub const TRACE_EXT: &'static str = ".trace";

/// Suffix of the files that hold a control flow graph.
pub const CFG_EXT: &'static str = ".cfg";

} // verus!
