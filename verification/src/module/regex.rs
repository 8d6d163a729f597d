//! The regular expressions that the analysis uses.
use vstd::prelude::*;
use crate::module::config::BINARY_EXT;
use crate::module::error::AfdError;
use crate::pattern::{escape, escaped, regex_compiles, Pattern};

verus! {

/// Paths of C source files under a `benchmarks` tree.
pub const SRC_FILE_PATTERN: &'static str = r"(benchmarks(?:\w|\/)*)sources((?:\w|\/)*)\.(?:c|cc)$";

/// Paths of binaries under a `benchmarks` tree, up to the binary extension.
pub const BIN_FILE_PATTERN_PREFIX: &'static str = r"(benchmarks(?:\w|\/)*)binaries((?:\w|\/)*)";

/// The mnemonic of a branch instruction in a disassembled line.
pub const BRANCHES_PATTERN: &'static str = r"\b\s+((?:b\.\w+)|(?:bc\.\w+)|(?:blrabz)|(?:blrab)|(?:blraaz)|(?:blraa)|(?:bl)|(?:blr)|(?:br)|(?:ret)|(?:b)|(?:cbnz)|(?:cbz)|(?:tbnz)|(?:tbz))\s+\b";

/// A target label at the end of a line.
pub const TARGET_LABEL_PATTERN: &'static str = r"<\w+>$";

/// The target address at the end of a branch line, before an optional label.
pub const TARGET_ADDRESS_PATTERN: &'static str = r"(\w+)(?:\s+<.+>)?$";

/// An indirect branch in a simulator branch trace: its address and its target.
pub const GEM5_TRACE_INDIRECT_BRANCH_PATTERN: &'static str = r"Commit branch:.*PC:0x(\w+) .*Indirect.*target:0x(\w+)";

/// An indirect branch in a disassembled line.
pub const INDIRECT_BRANCH_PATTERN: &'static str = r"(\w+):.+(?:(?:blrabz)|(?:blrab)|(?:blraaz)|(?:blraa)|(?:blr)|(?:br)|(?:ret)|(?:cbnz)|(?:cbz)|(?:tbnz)|(?:tbz))\s+x[0123]+";

/// The line that opens a subroutine in a disassembly, such as `0000000000400580 <main>:`.
pub const DEFINITION_LABEL_PATTERN: &'static str = r"^\w+ <.+>:$";

/// The mnemonic of a disassembled instruction line, such as `400580:	f81f0ffe 	str	x30, [sp]`.
pub const INSTRUCTION_NAME_PATTERN: &'static str = r"^\w+:\s+\w+\s+(\S+)";

/// The name of a binary before its `.run` extension, as group 1.
pub const RUN_FILE_NAME_PATTERN: &'static str = r"(\w*)\.run$";

/// The pattern of binary paths: the prefix, the escaped binary extension, and the end anchor.
pub open spec fn bin_file_pattern() -> Seq<char> {
    BIN_FILE_PATTERN_PREFIX@ + escaped(BINARY_EXT@) + "$"@
}

/// Whether all expressions of the analysis compile.
pub open spec fn all_patterns_compile() -> bool {
    &&& regex_compiles(SRC_FILE_PATTERN@)
    &&& regex_compiles(bin_file_pattern())
    &&& regex_compiles(BRANCHES_PATTERN@)
    &&& regex_compiles(TARGET_LABEL_PATTERN@)
    &&& regex_compiles(TARGET_ADDRESS_PATTERN@)
    &&& regex_compiles(GEM5_TRACE_INDIRECT_BRANCH_PATTERN@)
    &&& regex_compiles(INDIRECT_BRANCH_PATTERN@)
    &&& regex_compiles(DEFINITION_LABEL_PATTERN@)
    &&& regex_compiles(INSTRUCTION_NAME_PATTERN@)
}

/// The expressions of the analysis, in the order in which they are compiled.
pub open spec fn analysis_patterns() -> Seq<Seq<char>> {
    seq![
        SRC_FILE_PATTERN@,
        bin_file_pattern(),
        BRANCHES_PATTERN@,
        TARGET_LABEL_PATTERN@,
        TARGET_ADDRESS_PATTERN@,
        GEM5_TRACE_INDIRECT_BRANCH_PATTERN@,
        INDIRECT_BRANCH_PATTERN@,
        DEFINITION_LABEL_PATTERN@,
        INSTRUCTION_NAME_PATTERN@,
    ]
}

/// The compiled regular expressions of the analysis.
pub struct RegexContainer {
    pub src_file_regex: Pattern,
    pub bin_file_regex: Pattern,
    pub branches: Pattern,
    pub target_label: Pattern,
    pub target_address: Pattern,
    pub gem5_trace_indirect_branch: Pattern,
    pub indirect_branch: Pattern,
    pub definition_label: Pattern,
    pub instruction_name: Pattern,
}

impl RegexContainer {
    /// Whether each field holds the expression of its name.
    pub open spec fn holds_the_patterns(&self) -> bool {
        &&& self.src_file_regex@ == SRC_FILE_PATTERN@
        &&& self.bin_file_regex@ == bin_file_pattern()
        &&& self.branches@ == BRANCHES_PATTERN@
        &&& self.target_label@ == TARGET_LABEL_PATTERN@
        &&& self.target_address@ == TARGET_ADDRESS_PATTERN@
        &&& self.gem5_trace_indirect_branch@ == GEM5_TRACE_INDIRECT_BRANCH_PATTERN@
        &&& self.indirect_branch@ == INDIRECT_BRANCH_PATTERN@
        &&& self.definition_label@ == DEFINITION_LABEL_PATTERN@
        &&& self.instruction_name@ == INSTRUCTION_NAME_PATTERN@
    }

    /// Compiles the expressions of the analysis. The first one that does not
    /// compile is the error.
    pub fn new() -> (r: Result<Self, AfdError>)
        ensures
            r is Ok <==> all_patterns_compile(),
            r matches Ok(c) ==> c.holds_the_patterns(),
            r matches Err(e) ==> first_failure(e),
    {
        let src_file_regex = compile_at(SRC_FILE_PATTERN, 0)?;
        let bin = String::from_str(BIN_FILE_PATTERN_PREFIX).concat(escape(BINARY_EXT).as_str()).concat("$");
        let bin_file_regex = compile_at(bin.as_str(), 1)?;
        let branches = compile_at(BRANCHES_PATTERN, 2)?;
        let target_label = compile_at(TARGET_LABEL_PATTERN, 3)?;
        let target_address = compile_at(TARGET_ADDRESS_PATTERN, 4)?;
        let gem5_trace_indirect_branch = compile_at(GEM5_TRACE_INDIRECT_BRANCH_PATTERN, 5)?;
        let indirect_branch = compile_at(INDIRECT_BRANCH_PATTERN, 6)?;
        let definition_label = compile_at(DEFINITION_LABEL_PATTERN, 7)?;
        let instruction_name = compile_at(INSTRUCTION_NAME_PATTERN, 8)?;
        Ok(
            Self {
                src_file_regex,
                bin_file_regex,
                branches,
                target_label,
                target_address,
                gem5_trace_indirect_branch,
                indirect_branch,
                definition_label,
                instruction_name,
            },
        )
    }
}

/// `e` names the first expression of the analysis that does not compile.
pub open spec fn first_failure(e: AfdError) -> bool {
    exists|k: int|
        0 <= k < 9 && !regex_compiles(#[trigger] analysis_patterns()[k]) && (forall|m: int|
            0 <= m < k ==> regex_compiles(#[trigger] analysis_patterns()[m])) && (e matches AfdError::InvalidPattern(
            p,
        ) && p@ == analysis_patterns()[k])
}

/// Compiles expression `k` of the analysis, all before it having compiled.
fn compile_at(source: &str, k: usize) -> (r: Result<Pattern, AfdError>)
    requires
        k < 9,
        source@ == analysis_patterns()[k as int],
        forall|m: int| 0 <= m < k ==> regex_compiles(#[trigger] analysis_patterns()[m]),
    ensures
        r is Ok <==> regex_compiles(source@),
        r matches Ok(p) ==> p@ == source@,
        r matches Err(e) ==> first_failure(e),
{
    let r = Pattern::new(source);
    assert(r matches Err(e) ==> first_failure(e)) by {
        if let Err(e) = r {
            assert(!regex_compiles(analysis_patterns()[k as int]));
        }
    }
    r
}

} // verus!
