//! Checkpoints of the analysis: the text that saves the programs' data (their
//! subroutines, instructions, basic blocks and edges), and the data read back
//! from that text.
use vstd::prelude::*;
use crate::module::instruction::{
    branch_type_of, branch_type_named, AssemblyInstruction, BranchType, CtiData,
    CtiView, InstructionType, InstructionTypeView, InstructionView, TargetAddress, TargetView,
};
use crate::module::cfg::{Edge, EdgeView};
use crate::pattern::{regex_all_captures, regex_compiles, Pattern, RegexMatch};
use crate::text::{digits_str, occurs_at, parse_bool, parse_bounded, split_once};

verus! {

/// A target address in a checkpoint, such as `Direct(400580)`.
pub open spec fn target_text(t: TargetView) -> Seq<char> {
    match t {
        TargetView::Direct(s) => "Direct("@ + s + ")"@,
        TargetView::Indirect(s) => "Indirect("@ + s + ")"@,
    }
}

/// A branch type in a checkpoint, such as `ConditionalBranch(b.eq)`.
pub open spec fn branch_text(b: BranchType) -> Seq<char> {
    match b {
        BranchType::ConditionalBranch(c) => "ConditionalBranch("@ + c.spec_value() + ")"@,
        BranchType::UnconditionalBranch(u) => "UnconditionalBranch("@ + u.spec_value() + ")"@,
    }
}

/// A boolean as `{}` writes it.
pub open spec fn bool_text(b: bool) -> Seq<char> {
    if b {
        "true"@
    } else {
        "false"@
    }
}

/// The kind of an instruction in a checkpoint: `Ncti`, or `Cti(...)` with the
/// target address, the branch type and whether the branch is reachable.
pub open spec fn inst_type_text(t: InstructionTypeView) -> Seq<char> {
    match t {
        InstructionTypeView::Cti(c) => "Cti(\n                  cti_data:{\n                    target_adr:"@
            + target_text(c.target_address) + ",\n                    branch_type:"@ + branch_text(
            c.branch_type,
        ) + ",\n                    reachable:"@ + bool_text(c.reachable)
            + "\n                  }\n                )"@,
        InstructionTypeView::Ncti => "Ncti"@,
    }
}

/// The entry of an instruction in a checkpoint.
pub open spec fn instruction_text(i: InstructionView) -> Seq<char> {
    "              asm_inst:{\n                raw_content:\""@ + i.raw_content
        + "\",\n                line_number:"@ + digits_str(i.line_number as nat, 10)
        + ",\n                address:\""@ + i.address + "\",\n                inst_type:"@
        + inst_type_text(i.instruction_type) + "\n              },"@
}

fn bool_string(b: bool) -> (r: &'static str)
    ensures
        r@ == bool_text(b),
{
    if b {
        "true"
    } else {
        "false"
    }
}

fn target_string(t: &TargetAddress) -> (r: String)
    ensures
        r@ == target_text(t@),
{
    match t {
        TargetAddress::Direct(s) => String::from_str("Direct(").concat(s.as_str()).concat(")"),
        TargetAddress::Indirect(s) => String::from_str("Indirect(").concat(s.as_str()).concat(")"),
    }
}

fn branch_string(b: &BranchType) -> (r: String)
    ensures
        r@ == branch_text(*b),
{
    match b {
        BranchType::ConditionalBranch(c) => String::from_str("ConditionalBranch(").concat(c.value()).concat(")"),
        BranchType::UnconditionalBranch(u) => String::from_str("UnconditionalBranch(").concat(u.value()).concat(
            ")",
        ),
    }
}

/// The entry of `inst` in a checkpoint (see [`instruction_text`]).
pub fn instruction_checkpoint(inst: &AssemblyInstruction) -> (r: String)
    ensures
        r@ == instruction_text(inst@),
{
    let inst_type = match &inst.instruction_type {
        InstructionType::Cti(c) => String::from_str("Cti(\n                  cti_data:{\n                    target_adr:").concat(
            target_string(&c.target_address).as_str(),
        ).concat(",\n                    branch_type:").concat(branch_string(&c.branch_type).as_str()).concat(
            ",\n                    reachable:",
        ).concat(bool_string(c.reachable)).concat("\n                  }\n                )"),
        InstructionType::Ncti => String::from_str("Ncti"),
    };
    String::from_str("              asm_inst:{\n                raw_content:\"").concat(inst.raw_content.as_str()).concat(
        "\",\n                line_number:",
    ).concat(crate::text::format_radix(inst.line_number as usize, 10).as_str()).concat(
        ",\n                address:\"",
    ).concat(inst.address.as_str()).concat("\",\n                inst_type:").concat(inst_type.as_str()).concat(
        "\n              },",
    )
}

} // verus!

verus! {

/// Why the checkpoint entry of an instruction could not be read.
#[derive(PartialEq, Eq, Clone, Copy, Debug, Structural)]
pub enum CheckpointError {
    /// The capture group of this number took no part in the match.
    MissingGroup(usize),
    /// The line number is not a `u32`.
    BadLineNumber,
    /// The target address is neither `Direct(...)` nor `Indirect(...)`.
    BadTarget,
    /// The branch type names no branch of its kind.
    BadBranchType,
    /// The reachability is neither `true` nor `false`.
    BadReachable,
    /// A line number or the necessary flag of a subroutine cannot be read.
    BadSubroutine,
    /// The subroutine index of a basic block cannot be read.
    BadBlock,
    /// The destination index of an edge cannot be read.
    BadEdge,
    /// An expression that reads checkpoints does not compile.
    InvalidPattern,
}

/// Capture group `k` of `groups`, where it took part in the match.
pub open spec fn group_of(groups: Seq<Option<Seq<char>>>, k: int) -> Option<Seq<char>> {
    if 0 <= k < groups.len() {
        groups[k]
    } else {
        None
    }
}

/// `s` without its closing character, where there is one and it takes a
/// single byte.
pub open spec fn drop_closing(s: Seq<char>) -> Option<Seq<char>> {
    if s.len() > 0 && (s.last() as u32) < 128 {
        Some(s.drop_last())
    } else {
        None
    }
}

/// The target address that `s` writes (see [`target_text`]).
pub open spec fn parse_target(s: Seq<char>) -> Option<TargetView> {
    match split_once(s, "("@) {
        None => None,
        Some(parts) => match drop_closing(parts.1) {
            None => None,
            Some(v) => if parts.0 == "Direct"@ {
                Some(TargetView::Direct(v))
            } else if parts.0 == "Indirect"@ {
                Some(TargetView::Indirect(v))
            } else {
                None
            },
        },
    }
}

/// The branch type that `s` writes (see [`branch_text`]).
pub open spec fn parse_branch(s: Seq<char>) -> Option<BranchType> {
    match split_once(s, "("@) {
        None => None,
        Some(parts) => match drop_closing(parts.1) {
            None => None,
            Some(v) => if parts.0 == "ConditionalBranch"@ {
                match branch_type_named(v) {
                    Some(BranchType::ConditionalBranch(c)) => Some(BranchType::ConditionalBranch(c)),
                    _ => None,
                }
            } else if parts.0 == "UnconditionalBranch"@ {
                match branch_type_named(v) {
                    Some(BranchType::UnconditionalBranch(u)) => Some(BranchType::UnconditionalBranch(u)),
                    _ => None,
                }
            } else {
                None
            },
        },
    }
}

/// The control transfer data that groups 5 to 7 write.
pub open spec fn cti_from_groups(groups: Seq<Option<Seq<char>>>) -> Result<CtiView, CheckpointError> {
    match group_of(groups, 5) {
        None => Err(CheckpointError::MissingGroup(5)),
        Some(t) => match parse_target(t) {
            None => Err(CheckpointError::BadTarget),
            Some(target_address) => match group_of(groups, 6) {
                None => Err(CheckpointError::MissingGroup(6)),
                Some(b) => match parse_branch(b) {
                    None => Err(CheckpointError::BadBranchType),
                    Some(branch_type) => match group_of(groups, 7) {
                        None => Err(CheckpointError::MissingGroup(7)),
                        Some(r) => match parse_bool(r) {
                            None => Err(CheckpointError::BadReachable),
                            Some(reachable) => Ok(CtiView { target_address, branch_type, reachable }),
                        },
                    },
                },
            },
        },
    }
}

/// The instruction that the capture groups of a checkpoint entry write: 1 the
/// line, 2 its line number, 3 its address, 4 its kind (a control transfer
/// where it starts with `Cti`), then 5 to 7 the target address, the branch
/// type and the reachability of a control transfer.
pub open spec fn instruction_from_groups(groups: Seq<Option<Seq<char>>>) -> Result<
    InstructionView,
    CheckpointError,
> {
    match group_of(groups, 1) {
        None => Err(CheckpointError::MissingGroup(1)),
        Some(raw_content) => match group_of(groups, 2) {
            None => Err(CheckpointError::MissingGroup(2)),
            Some(l) => match parse_bounded(l, 10, u32::MAX as nat) {
                None => Err(CheckpointError::BadLineNumber),
                Some(line_number) => match group_of(groups, 3) {
                    None => Err(CheckpointError::MissingGroup(3)),
                    Some(address) => match group_of(groups, 4) {
                        None => Err(CheckpointError::MissingGroup(4)),
                        Some(kind) => if occurs_at(kind, "Cti"@, 0) {
                            match cti_from_groups(groups) {
                                Err(e) => Err(e),
                                Ok(c) => Ok(
                                    InstructionView {
                                        raw_content,
                                        line_number: line_number as u32,
                                        address,
                                        instruction_type: InstructionTypeView::Cti(c),
                                    },
                                ),
                            }
                        } else {
                            Ok(
                                InstructionView {
                                    raw_content,
                                    line_number: line_number as u32,
                                    address,
                                    instruction_type: InstructionTypeView::Ncti,
                                },
                            )
                        },
                    },
                },
            },
        },
    }
}

/// The abstract value of a read instruction, or of the error met in reading it.
pub open spec fn read_result(r: Result<AssemblyInstruction, CheckpointError>) -> Result<
    InstructionView,
    CheckpointError,
> {
    match r {
        Ok(i) => Ok(i@),
        Err(e) => Err(e),
    }
}

fn group_at(groups: &Vec<Option<String>>, k: usize) -> (r: Option<String>)
    ensures
        r.deep_view() == group_of(groups.deep_view(), k as int),
{
    if k < groups.len() {
        match &groups[k] {
            Some(g) => Some(g.clone()),
            None => None,
        }
    } else {
        None
    }
}

fn drop_closing_str(s: &str) -> (r: Option<String>)
    ensures
        r.deep_view() == drop_closing(s@),
{
    let v = crate::text::chars_of(s);
    let n = v.len();
    if n > 0 && (v[n - 1] as u32) < 128 {
        Some(crate::text::string_of(v.as_slice(), 0, n - 1))
    } else {
        None
    }
}

fn read_target(s: &str) -> (r: Option<TargetAddress>)
    ensures
        r matches Some(t) ==> parse_target(s@) == Some(t@),
        r is None ==> parse_target(s@) is None,
{
    let (key, rest) = match crate::text::split_once_str(s, "(") {
        Some(p) => p,
        None => {
            return None;
        },
    };
    let v = match drop_closing_str(rest.as_str()) {
        Some(v) => v,
        None => {
            return None;
        },
    };
    if crate::text::str_eq(key.as_str(), "Direct") {
        Some(TargetAddress::Direct(v))
    } else if crate::text::str_eq(key.as_str(), "Indirect") {
        Some(TargetAddress::Indirect(v))
    } else {
        None
    }
}

fn read_branch(s: &str) -> (r: Option<BranchType>)
    ensures
        r == parse_branch(s@),
{
    let (key, rest) = match crate::text::split_once_str(s, "(") {
        Some(p) => p,
        None => {
            return None;
        },
    };
    let v = match drop_closing_str(rest.as_str()) {
        Some(v) => v,
        None => {
            return None;
        },
    };
    if crate::text::str_eq(key.as_str(), "ConditionalBranch") {
        match branch_type_of(v.as_str()) {
            Some(BranchType::ConditionalBranch(c)) => Some(BranchType::ConditionalBranch(c)),
            _ => None,
        }
    } else if crate::text::str_eq(key.as_str(), "UnconditionalBranch") {
        match branch_type_of(v.as_str()) {
            Some(BranchType::UnconditionalBranch(u)) => Some(BranchType::UnconditionalBranch(u)),
            _ => None,
        }
    } else {
        None
    }
}

/// Reads an instruction back from the capture groups of its checkpoint entry
/// (see [`instruction_from_groups`]); the groups must write an instruction.
pub fn capture_assembly_instruction(asm_inst_caps: &RegexMatch) -> (r: AssemblyInstruction)
    requires
        instruction_from_groups(asm_inst_caps.groups.deep_view()) is Ok,
    ensures
        instruction_from_groups(asm_inst_caps.groups.deep_view()) == Ok::<InstructionView, CheckpointError>(r@),
{
    instruction_from_group_vec(&asm_inst_caps.groups).unwrap()
}

fn instruction_from_group_vec(groups: &Vec<Option<String>>) -> (r: Result<AssemblyInstruction, CheckpointError>)
    ensures
        read_result(r) == instruction_from_groups(groups.deep_view()),
{
    let raw_content = match group_at(groups, 1) {
        Some(g) => g,
        None => {
            return Err(CheckpointError::MissingGroup(1));
        },
    };
    let line = match group_at(groups, 2) {
        Some(g) => g,
        None => {
            return Err(CheckpointError::MissingGroup(2));
        },
    };
    let line_number = match crate::text::parse_radix(line.as_str(), 10, u32::MAX as usize) {
        Some(n) => n as u32,
        None => {
            return Err(CheckpointError::BadLineNumber);
        },
    };
    let address = match group_at(groups, 3) {
        Some(g) => g,
        None => {
            return Err(CheckpointError::MissingGroup(3));
        },
    };
    let kind = match group_at(groups, 4) {
        Some(g) => g,
        None => {
            return Err(CheckpointError::MissingGroup(4));
        },
    };
    let instruction_type = if crate::text::starts_with_str(kind.as_str(), "Cti") {
        let t = match group_at(groups, 5) {
            Some(g) => g,
            None => {
                return Err(CheckpointError::MissingGroup(5));
            },
        };
        let target_address = match read_target(t.as_str()) {
            Some(t) => t,
            None => {
                return Err(CheckpointError::BadTarget);
            },
        };
        let b = match group_at(groups, 6) {
            Some(g) => g,
            None => {
                return Err(CheckpointError::MissingGroup(6));
            },
        };
        let branch_type = match read_branch(b.as_str()) {
            Some(b) => b,
            None => {
                return Err(CheckpointError::BadBranchType);
            },
        };
        let r = match group_at(groups, 7) {
            Some(g) => g,
            None => {
                return Err(CheckpointError::MissingGroup(7));
            },
        };
        let reachable = match crate::text::parse_bool_str(r.as_str()) {
            Some(b) => b,
            None => {
                return Err(CheckpointError::BadReachable);
            },
        };
        InstructionType::Cti(CtiData { target_address, branch_type, reachable })
    } else {
        InstructionType::Ncti
    };
    Ok(AssemblyInstruction { raw_content, line_number, address, instruction_type })
}

} // verus!

verus! {

/// The capture groups that the checkpoint entry of `i` yields where it is
/// read: the entry, the line, its line number, its address, its kind, and for
/// a control transfer its target address, branch type and reachability.
pub open spec fn checkpoint_groups(i: InstructionView) -> Seq<Option<Seq<char>>> {
    let head = seq![
        Some(instruction_text(i)),
        Some(i.raw_content),
        Some(digits_str(i.line_number as nat, 10)),
        Some(i.address),
        Some(inst_type_text(i.instruction_type)),
    ];
    match i.instruction_type {
        InstructionTypeView::Cti(c) => head + seq![
            Some(target_text(c.target_address)),
            Some(branch_text(c.branch_type)),
            Some(bool_text(c.reachable)),
        ],
        InstructionTypeView::Ncti => head + seq![None, None, None],
    }
}

proof fn lemma_find_paren(s: Seq<char>, k: int, m: int)
    requires
        0 <= m <= k < s.len(),
        s[k] == '(',
        forall|j: int| 0 <= j < k ==> s[j] != '(',
    ensures
        crate::text::find_from(s, "("@, m) == Some(k),
    decreases k - m,
{
    reveal_strlit("(");
    if m < k {
        assert(!occurs_at(s, "("@, m)) by {
            assert(s.subrange(m, m + 1)[0] == s[m]);
        }
        lemma_find_paren(s, k, m + 1);
    } else {
        assert(s.subrange(m, m + 1) =~= "("@);
    }
}

/// Splitting `key(rest` at its first `(`, where `key` holds none, gives `key`
/// and `rest`.
proof fn lemma_split_after_key(key: Seq<char>, rest: Seq<char>)
    requires
        forall|j: int| 0 <= j < key.len() ==> key[j] != '(',
    ensures
        split_once(key + "("@ + rest, "("@) == Some((key, rest)),
{
    reveal_strlit("(");
    let s = key + "("@ + rest;
    lemma_find_paren(s, key.len() as int, 0);
    assert(s.subrange(0, key.len() as int) =~= key);
    assert(s.subrange(key.len() + 1 as int, s.len() as int) =~= rest);
}

proof fn lemma_target_roundtrip(t: TargetView)
    ensures
        parse_target(target_text(t)) == Some(t),
{
    reveal_strlit("Direct(");
    reveal_strlit("Indirect(");
    reveal_strlit("Direct");
    reveal_strlit("Indirect");
    reveal_strlit("(");
    reveal_strlit(")");
    match t {
        TargetView::Direct(s) => {
            assert("Direct("@ + s + ")"@ =~= "Direct"@ + "("@ + (s + ")"@));
            lemma_split_after_key("Direct"@, s + ")"@);
            assert((s + ")"@).drop_last() =~= s);
        },
        TargetView::Indirect(s) => {
            assert("Indirect("@ + s + ")"@ =~= "Indirect"@ + "("@ + (s + ")"@));
            lemma_split_after_key("Indirect"@, s + ")"@);
            assert((s + ")"@).drop_last() =~= s);
            assert("Indirect"@ != "Direct"@) by {
                assert("Indirect"@.len() != "Direct"@.len());
            }
        },
    }
}

proof fn lemma_branch_roundtrip(b: BranchType)
    ensures
        parse_branch(branch_text(b)) == Some(b),
{
    reveal_strlit("ConditionalBranch(");
    reveal_strlit("UnconditionalBranch(");
    reveal_strlit("ConditionalBranch");
    reveal_strlit("UnconditionalBranch");
    reveal_strlit("(");
    reveal_strlit(")");
    crate::module::instruction::lemma_branch_type_named_value(b);
    match b {
        BranchType::ConditionalBranch(c) => {
            let v = c.spec_value();
            assert("ConditionalBranch("@ + v + ")"@ =~= "ConditionalBranch"@ + "("@ + (v + ")"@));
            lemma_split_after_key("ConditionalBranch"@, v + ")"@);
            assert((v + ")"@).drop_last() =~= v);
        },
        BranchType::UnconditionalBranch(u) => {
            let v = u.spec_value();
            assert("UnconditionalBranch("@ + v + ")"@ =~= "UnconditionalBranch"@ + "("@ + (v + ")"@));
            lemma_split_after_key("UnconditionalBranch"@, v + ")"@);
            assert((v + ")"@).drop_last() =~= v);
            assert("UnconditionalBranch"@ != "ConditionalBranch"@) by {
                assert("UnconditionalBranch"@.len() != "ConditionalBranch"@.len());
            }
        },
    }
}

/// Reading back the fields that the checkpoint entry of an instruction writes
/// gives the instruction.
pub proof fn lemma_checkpoint_roundtrip(i: InstructionView)
    ensures
        instruction_from_groups(checkpoint_groups(i)) == Ok::<InstructionView, CheckpointError>(i),
{
    let groups = checkpoint_groups(i);
    crate::text::lemma_digits_roundtrip(i.line_number as nat, 10);
    assert(parse_bounded(digits_str(i.line_number as nat, 10), 10, u32::MAX as nat) == Some(
        i.line_number as nat,
    ));
    reveal_strlit("Cti");
    reveal_strlit("Ncti");
    reveal_strlit("true");
    reveal_strlit("false");
    match i.instruction_type {
        InstructionTypeView::Cti(c) => {
            reveal_strlit("Cti(\n                  cti_data:{\n                    target_adr:");
            let kind = inst_type_text(i.instruction_type);
            assert(kind.subrange(0, 3) =~= "Cti"@);
            assert(occurs_at(kind, "Cti"@, 0));
            lemma_target_roundtrip(c.target_address);
            lemma_branch_roundtrip(c.branch_type);
            assert(group_of(groups, 5) == Some(target_text(c.target_address)));
            assert(group_of(groups, 6) == Some(branch_text(c.branch_type)));
            assert(group_of(groups, 7) == Some(bool_text(c.reachable)));
            assert(cti_from_groups(groups) == Ok::<CtiView, CheckpointError>(c));
        },
        InstructionTypeView::Ncti => {
            assert(!occurs_at("Ncti"@, "Cti"@, 0)) by {
                assert("Ncti"@.subrange(0, 3)[0] != "Cti"@[0]);
            }
        },
    }
}

} // verus!

verus! {

/// A subroutine as a checkpoint holds it.
#[derive(Debug, PartialEq, Eq)]
pub struct CheckpointSubroutine {
    pub definition_label: String,
    pub start_line: u32,
    pub end_line: u32,
    pub assembly_instructions: Vec<AssemblyInstruction>,
    pub necessary: bool,
}

/// A basic block as a checkpoint holds it: its instructions, its edges and the
/// index of its subroutine.
#[derive(Debug, PartialEq, Eq)]
pub struct CheckpointBlock {
    pub assembly_instructions: Vec<AssemblyInstruction>,
    pub edges: Vec<Edge>,
    pub subroutine_index: usize,
}

/// The data of one program as a checkpoint holds it.
#[derive(Debug, PartialEq, Eq)]
pub struct CheckpointData {
    pub asm_path: String,
    pub subroutines: Vec<CheckpointSubroutine>,
    pub basic_blocks: Vec<CheckpointBlock>,
}

/// The analysis that a checkpoint holds: the data of each program.
#[derive(Debug, PartialEq, Eq)]
pub struct Checkpoint {
    pub asm_data_vec: Vec<CheckpointData>,
}

/// The abstract value of a [`CheckpointSubroutine`].
pub struct CheckpointSubroutineView {
    pub definition_label: Seq<char>,
    pub start_line: u32,
    pub end_line: u32,
    pub assembly_instructions: Seq<InstructionView>,
    pub necessary: bool,
}

/// The abstract value of a [`CheckpointBlock`].
pub struct CheckpointBlockView {
    pub assembly_instructions: Seq<InstructionView>,
    pub edges: Seq<EdgeView>,
    pub subroutine_index: usize,
}

/// The abstract value of a [`CheckpointData`].
pub struct CheckpointDataView {
    pub asm_path: Seq<char>,
    pub subroutines: Seq<CheckpointSubroutineView>,
    pub basic_blocks: Seq<CheckpointBlockView>,
}

impl View for CheckpointSubroutine {
    type V = CheckpointSubroutineView;

    open spec fn view(&self) -> CheckpointSubroutineView {
        CheckpointSubroutineView {
            definition_label: self.definition_label@,
            start_line: self.start_line,
            end_line: self.end_line,
            assembly_instructions: self.assembly_instructions.deep_view(),
            necessary: self.necessary,
        }
    }
}

impl DeepView for CheckpointSubroutine {
    type V = CheckpointSubroutineView;

    open spec fn deep_view(&self) -> CheckpointSubroutineView {
        self@
    }
}

impl View for CheckpointBlock {
    type V = CheckpointBlockView;

    open spec fn view(&self) -> CheckpointBlockView {
        CheckpointBlockView {
            assembly_instructions: self.assembly_instructions.deep_view(),
            edges: self.edges.deep_view(),
            subroutine_index: self.subroutine_index,
        }
    }
}

impl DeepView for CheckpointBlock {
    type V = CheckpointBlockView;

    open spec fn deep_view(&self) -> CheckpointBlockView {
        self@
    }
}

impl View for CheckpointData {
    type V = CheckpointDataView;

    open spec fn view(&self) -> CheckpointDataView {
        CheckpointDataView {
            asm_path: self.asm_path@,
            subroutines: self.subroutines.deep_view(),
            basic_blocks: self.basic_blocks.deep_view(),
        }
    }
}

impl DeepView for CheckpointData {
    type V = CheckpointDataView;

    open spec fn deep_view(&self) -> CheckpointDataView {
        self@
    }
}

impl View for Checkpoint {
    type V = Seq<CheckpointDataView>;

    open spec fn view(&self) -> Seq<CheckpointDataView> {
        self.asm_data_vec.deep_view()
    }
}

/// The lines of `parts`, one part after the other.
pub open spec fn concat_lines(parts: Seq<Seq<Seq<char>>>) -> Seq<Seq<char>>
    decreases parts.len(),
{
    if parts.len() == 0 {
        seq![]
    } else {
        concat_lines(parts.drop_last()) + parts.last()
    }
}

/// `n` in decimal.
pub open spec fn decimal_text(n: nat) -> Seq<char> {
    digits_str(n, 10)
}

/// The lines of a subroutine in a checkpoint.
pub open spec fn subroutine_lines(s: CheckpointSubroutineView) -> Seq<Seq<char>> {
    seq![
        "          subroutine:{\n            definition_label:\""@ + s.definition_label
            + "\",\n            start_line:"@ + decimal_text(s.start_line as nat) + ",\n            end_line:"@
            + decimal_text(s.end_line as nat) + ",\n            asm_insts:["@,
    ] + s.assembly_instructions.map_values(|i: InstructionView| instruction_text(i)) + seq![
        "            ],\n            necessary:"@ + bool_text(s.necessary) + "\n          },"@,
    ]
}

/// The entry of an edge in a checkpoint.
pub open spec fn edge_text(e: EdgeView) -> Seq<char> {
    "              edge:{\n                condition:\""@ + e.condition + "\",\n                dest_index:"@
        + decimal_text(e.destination_index as nat) + "\n              },"@
}

/// The lines of a basic block in a checkpoint.
pub open spec fn block_lines(b: CheckpointBlockView) -> Seq<Seq<char>> {
    seq!["          basic_block:{\n            asm_insts:["@] + b.assembly_instructions.map_values(
        |i: InstructionView| instruction_text(i),
    ) + seq!["            ],\n            edges:["@] + b.edges.map_values(|e: EdgeView| edge_text(e)) + seq![
        "            ],\n            subr_index:"@ + decimal_text(b.subroutine_index as nat) + "\n          },"@,
    ]
}

/// The lines of the data of a program in a checkpoint.
pub open spec fn data_lines(d: CheckpointDataView) -> Seq<Seq<char>> {
    seq!["      asm_data:{\n        asm_path:\""@ + d.asm_path + "\",\n        subroutines:["@] + concat_lines(
        d.subroutines.map_values(|s: CheckpointSubroutineView| subroutine_lines(s)),
    ) + seq!["        ],\n        basic_blocks:["@] + concat_lines(
        d.basic_blocks.map_values(|b: CheckpointBlockView| block_lines(b)),
    ) + seq!["        ]\n      },"@]
}

/// The text of a checkpoint of the analysis `c`: its lines joined by line breaks.
pub open spec fn checkpoint_text(c: Seq<CheckpointDataView>) -> Seq<char> {
    crate::text::join(
        seq!["asm_analyzer:{\n  cfg:{\n    asm_data_vec:["@] + concat_lines(
            c.map_values(|d: CheckpointDataView| data_lines(d)),
        ) + seq!["    ]\n  }\n}"@],
        "\n"@,
    )
}

fn decimal_string(n: usize) -> (r: String)
    ensures
        r@ == decimal_text(n as nat),
{
    crate::text::format_radix(n, 10)
}

fn push_line(lines: &mut Vec<String>, line: String)
    ensures
        final(lines).deep_view() == old(lines).deep_view().push(line@),
{
    lines.push(line);
    assert(lines.deep_view() =~= old(lines).deep_view().push(line@));
}

fn push_instruction_lines(lines: &mut Vec<String>, insts: &Vec<AssemblyInstruction>)
    ensures
        final(lines).deep_view() == old(lines).deep_view() + insts.deep_view().map_values(
            |i: InstructionView| instruction_text(i),
        ),
{
    let ghost start = lines.deep_view();
    let mut k: usize = 0;
    while k < insts.len()
        invariant
            k <= insts@.len(),
            lines.deep_view() == start + insts.deep_view().take(k as int).map_values(
                |i: InstructionView| instruction_text(i),
            ),
        decreases insts@.len() - k,
    {
        push_line(lines, instruction_checkpoint(&insts[k]));
        assert(insts.deep_view().take(k + 1).map_values(|i: InstructionView| instruction_text(i))
            =~= insts.deep_view().take(k as int).map_values(|i: InstructionView| instruction_text(i)).push(
            instruction_text(insts@[k as int]@),
        ));
        k = k + 1;
    }
    assert(insts.deep_view().take(insts@.len() as int) =~= insts.deep_view());
}

fn push_subroutine_lines(lines: &mut Vec<String>, s: &CheckpointSubroutine)
    ensures
        final(lines).deep_view() == old(lines).deep_view() + subroutine_lines(s@),
{
    push_line(
        lines,
        String::from_str("          subroutine:{\n            definition_label:\"").concat(
            s.definition_label.as_str(),
        ).concat("\",\n            start_line:").concat(decimal_string(s.start_line as usize).as_str()).concat(
            ",\n            end_line:",
        ).concat(decimal_string(s.end_line as usize).as_str()).concat(",\n            asm_insts:["),
    );
    push_instruction_lines(lines, &s.assembly_instructions);
    push_line(
        lines,
        String::from_str("            ],\n            necessary:").concat(bool_string(s.necessary)).concat(
            "\n          },",
        ),
    );
    assert(lines.deep_view() =~= old(lines).deep_view() + subroutine_lines(s@));
}

fn push_block_lines(lines: &mut Vec<String>, b: &CheckpointBlock)
    ensures
        final(lines).deep_view() == old(lines).deep_view() + block_lines(b@),
{
    push_line(lines, String::from_str("          basic_block:{\n            asm_insts:["));
    push_instruction_lines(lines, &b.assembly_instructions);
    push_line(lines, String::from_str("            ],\n            edges:["));
    let ghost mid = lines.deep_view();
    let mut k: usize = 0;
    while k < b.edges.len()
        invariant
            k <= b.edges@.len(),
            lines.deep_view() == mid + b.edges.deep_view().take(k as int).map_values(|e: EdgeView| edge_text(e)),
        decreases b.edges@.len() - k,
    {
        let e = &b.edges[k];
        push_line(
            lines,
            String::from_str("              edge:{\n                condition:\"").concat(e.condition.as_str()).concat(
                "\",\n                dest_index:",
            ).concat(decimal_string(e.destination_index).as_str()).concat("\n              },"),
        );
        assert(b.edges.deep_view().take(k + 1).map_values(|e: EdgeView| edge_text(e)) =~= b.edges.deep_view().take(
            k as int,
        ).map_values(|e: EdgeView| edge_text(e)).push(edge_text(b.edges@[k as int]@)));
        k = k + 1;
    }
    assert(b.edges.deep_view().take(b.edges@.len() as int) =~= b.edges.deep_view());
    push_line(
        lines,
        String::from_str("            ],\n            subr_index:").concat(decimal_string(b.subroutine_index).as_str()).concat(
            "\n          },",
        ),
    );
    assert(lines.deep_view() =~= old(lines).deep_view() + block_lines(b@));
}

fn push_data_lines(lines: &mut Vec<String>, d: &CheckpointData)
    ensures
        final(lines).deep_view() == old(lines).deep_view() + data_lines(d@),
{
    push_line(
        lines,
        String::from_str("      asm_data:{\n        asm_path:\"").concat(d.asm_path.as_str()).concat(
            "\",\n        subroutines:[",
        ),
    );
    let ghost mid = lines.deep_view();
    let ghost subs = d.subroutines.deep_view().map_values(|s: CheckpointSubroutineView| subroutine_lines(s));
    let mut k: usize = 0;
    while k < d.subroutines.len()
        invariant
            k <= d.subroutines@.len(),
            subs == d.subroutines.deep_view().map_values(|s: CheckpointSubroutineView| subroutine_lines(s)),
            lines.deep_view() == mid + concat_lines(subs.take(k as int)),
        decreases d.subroutines@.len() - k,
    {
        push_subroutine_lines(lines, &d.subroutines[k]);
        assert(subs.take(k + 1).drop_last() =~= subs.take(k as int));
        k = k + 1;
    }
    assert(subs.take(d.subroutines@.len() as int) =~= subs);
    push_line(lines, String::from_str("        ],\n        basic_blocks:["));
    let ghost mid2 = lines.deep_view();
    let ghost blocks = d.basic_blocks.deep_view().map_values(|b: CheckpointBlockView| block_lines(b));
    let mut k: usize = 0;
    while k < d.basic_blocks.len()
        invariant
            k <= d.basic_blocks@.len(),
            blocks == d.basic_blocks.deep_view().map_values(|b: CheckpointBlockView| block_lines(b)),
            lines.deep_view() == mid2 + concat_lines(blocks.take(k as int)),
        decreases d.basic_blocks@.len() - k,
    {
        push_block_lines(lines, &d.basic_blocks[k]);
        assert(blocks.take(k + 1).drop_last() =~= blocks.take(k as int));
        k = k + 1;
    }
    assert(blocks.take(d.basic_blocks@.len() as int) =~= blocks);
    push_line(lines, String::from_str("        ]\n      },"));
    assert(lines.deep_view() =~= old(lines).deep_view() + data_lines(d@));
}

/// The text of a checkpoint of the analysis (see [`checkpoint_text`]).
pub fn save_checkpoint(assembly_analyzer: &Checkpoint) -> (r: String)
    ensures
        r@ == checkpoint_text(assembly_analyzer@),
{
    let mut lines: Vec<String> = Vec::new();
    push_line(&mut lines, String::from_str("asm_analyzer:{\n  cfg:{\n    asm_data_vec:["));
    let ghost mid = lines.deep_view();
    let ghost datas = assembly_analyzer@.map_values(|d: CheckpointDataView| data_lines(d));
    let mut k: usize = 0;
    while k < assembly_analyzer.asm_data_vec.len()
        invariant
            k <= assembly_analyzer@.len(),
            datas == assembly_analyzer@.map_values(|d: CheckpointDataView| data_lines(d)),
            lines.deep_view() == mid + concat_lines(datas.take(k as int)),
        decreases assembly_analyzer@.len() - k,
    {
        push_data_lines(&mut lines, &assembly_analyzer.asm_data_vec[k]);
        assert(datas.take(k + 1).drop_last() =~= datas.take(k as int));
        k = k + 1;
    }
    assert(datas.take(assembly_analyzer@.len() as int) =~= datas);
    push_line(&mut lines, String::from_str("    ]\n  }\n}"));
    assert(lines.deep_view() =~= seq!["asm_analyzer:{\n  cfg:{\n    asm_data_vec:["@] + concat_lines(
        assembly_analyzer@.map_values(|d: CheckpointDataView| data_lines(d)),
    ) + seq!["    ]\n  }\n}"@]);
    crate::text::join_strings(&lines, "\n")
}

} // verus!

verus! {

/// The entry of the data of a program in a checkpoint; group 1 is its path.
pub const CHECKPOINT_DATA_PATTERN: &'static str = r#"asm_data:\{\s*asm_path:"(.*)"[\s\S]*?subr_index:[\s\S]*?\]\s*\},"#;

/// The entry of a subroutine: its label, first and last line, and necessary flag.
pub const CHECKPOINT_SUBROUTINE_PATTERN: &'static str = r#"subroutine:\{\s*definition_label:"(.*)",\s*start_line:(\d+),\s*end_line:(\d+),[\s\S]*?necessary:(\w+)\s*\},"#;

/// The entry of an instruction (see [`instruction_from_groups`]).
pub const CHECKPOINT_INSTRUCTION_PATTERN: &'static str = r#"asm_inst:\{\s*raw_content:"(.*)",\s*line_number:(\d+),\s*address:"(\w+)",\s*inst_type:(Cti\(\s*cti_data:\{\s*target_adr:(.+),\s*branch_type:(.+),\s*reachable:(\w+)\s*\}\s*\)|Ncti)\s*\},"#;

/// The entry of a basic block; group 1 is the index of its subroutine.
pub const CHECKPOINT_BLOCK_PATTERN: &'static str = r"basic_block:\{[\s\S]*?subr_index:(\d+)[\s\S]*?\},";

/// The entry of an edge: its condition and its destination.
pub const CHECKPOINT_EDGE_PATTERN: &'static str = r#"edge:\{\s*condition:"(.*)",\s*dest_index:(\d+)\s*\},"#;

/// `f` of each item of `xs`, or the first error.
pub open spec fn all_ok<A, B>(xs: Seq<A>, f: spec_fn(A) -> Result<B, CheckpointError>) -> Result<
    Seq<B>,
    CheckpointError,
>
    decreases xs.len(),
{
    if xs.len() == 0 {
        Ok(seq![])
    } else {
        match all_ok(xs.drop_last(), f) {
            Err(e) => Err(e),
            Ok(done) => match f(xs.last()) {
                Ok(b) => Ok(done.push(b)),
                Err(e) => Err(e),
            },
        }
    }
}

proof fn lemma_all_ok_prefix_err<A, B>(xs: Seq<A>, f: spec_fn(A) -> Result<B, CheckpointError>, n: int)
    requires
        0 <= n <= xs.len(),
        all_ok(xs.take(n), f) is Err,
    ensures
        all_ok(xs, f) == all_ok(xs.take(n), f),
    decreases xs.len() - n,
{
    if n < xs.len() {
        assert(xs.take(n + 1).drop_last() =~= xs.take(n));
        lemma_all_ok_prefix_err(xs, f, n + 1);
    } else {
        assert(xs.take(n) =~= xs);
    }
}

/// The abstract value of what was read, or of the error met in reading it.
pub open spec fn read_all<T: DeepView>(r: Result<Vec<T>, CheckpointError>) -> Result<Seq<T::V>, CheckpointError> {
    match r {
        Ok(v) => Ok(v.deep_view()),
        Err(e) => Err(e),
    }
}

/// The text of the whole match that `groups` come from.
pub open spec fn whole_match(groups: Seq<Option<Seq<char>>>) -> Seq<char> {
    match group_of(groups, 0) {
        Some(t) => t,
        None => seq![],
    }
}

pub open spec fn instruction_reader() -> spec_fn(Seq<Option<Seq<char>>>) -> Result<InstructionView, CheckpointError> {
    |g: Seq<Option<Seq<char>>>| instruction_from_groups(g)
}

/// The instructions whose entries `text` holds.
pub open spec fn instructions_in(text: Seq<char>) -> Result<Seq<InstructionView>, CheckpointError> {
    all_ok(regex_all_captures(CHECKPOINT_INSTRUCTION_PATTERN@, text), instruction_reader())
}

/// The subroutine whose entry matched with `groups`: its label, its line
/// numbers and flag, then the instructions of the entry.
pub open spec fn subroutine_from_groups(groups: Seq<Option<Seq<char>>>) -> Result<
    CheckpointSubroutineView,
    CheckpointError,
> {
    match group_of(groups, 1) {
        None => Err(CheckpointError::MissingGroup(1)),
        Some(definition_label) => match group_of(groups, 2) {
            None => Err(CheckpointError::MissingGroup(2)),
            Some(a) => match parse_bounded(a, 10, u32::MAX as nat) {
                None => Err(CheckpointError::BadSubroutine),
                Some(start_line) => match group_of(groups, 3) {
                    None => Err(CheckpointError::MissingGroup(3)),
                    Some(b) => match parse_bounded(b, 10, u32::MAX as nat) {
                        None => Err(CheckpointError::BadSubroutine),
                        Some(end_line) => match group_of(groups, 4) {
                            None => Err(CheckpointError::MissingGroup(4)),
                            Some(n) => match parse_bool(n) {
                                None => Err(CheckpointError::BadSubroutine),
                                Some(necessary) => match instructions_in(whole_match(groups)) {
                                    Err(e) => Err(e),
                                    Ok(assembly_instructions) => Ok(
                                        CheckpointSubroutineView {
                                            definition_label,
                                            start_line: start_line as u32,
                                            end_line: end_line as u32,
                                            assembly_instructions,
                                            necessary,
                                        },
                                    ),
                                },
                            },
                        },
                    },
                },
            },
        },
    }
}

pub open spec fn subroutine_reader() -> spec_fn(Seq<Option<Seq<char>>>) -> Result<
    CheckpointSubroutineView,
    CheckpointError,
> {
    |g: Seq<Option<Seq<char>>>| subroutine_from_groups(g)
}

/// The edge whose entry matched with `groups`.
pub open spec fn edge_from_groups(groups: Seq<Option<Seq<char>>>) -> Result<EdgeView, CheckpointError> {
    match group_of(groups, 1) {
        None => Err(CheckpointError::MissingGroup(1)),
        Some(condition) => match group_of(groups, 2) {
            None => Err(CheckpointError::MissingGroup(2)),
            Some(d) => match parse_bounded(d, 10, usize::MAX as nat) {
                None => Err(CheckpointError::BadEdge),
                Some(destination_index) => Ok(EdgeView { condition, destination_index: destination_index as usize }),
            },
        },
    }
}

pub open spec fn edge_reader() -> spec_fn(Seq<Option<Seq<char>>>) -> Result<EdgeView, CheckpointError> {
    |g: Seq<Option<Seq<char>>>| edge_from_groups(g)
}

/// The basic block whose entry matched with `groups`: the index of its
/// subroutine, then the instructions and the edges of the entry.
pub open spec fn block_from_groups(groups: Seq<Option<Seq<char>>>) -> Result<CheckpointBlockView, CheckpointError> {
    match group_of(groups, 1) {
        None => Err(CheckpointError::MissingGroup(1)),
        Some(i) => match parse_bounded(i, 10, usize::MAX as nat) {
            None => Err(CheckpointError::BadBlock),
            Some(subroutine_index) => match instructions_in(whole_match(groups)) {
                Err(e) => Err(e),
                Ok(assembly_instructions) => match all_ok(
                    regex_all_captures(CHECKPOINT_EDGE_PATTERN@, whole_match(groups)),
                    edge_reader(),
                ) {
                    Err(e) => Err(e),
                    Ok(edges) => Ok(
                        CheckpointBlockView {
                            assembly_instructions,
                            edges,
                            subroutine_index: subroutine_index as usize,
                        },
                    ),
                },
            },
        },
    }
}

pub open spec fn block_reader() -> spec_fn(Seq<Option<Seq<char>>>) -> Result<CheckpointBlockView, CheckpointError> {
    |g: Seq<Option<Seq<char>>>| block_from_groups(g)
}

/// The data of the program whose entry matched with `groups`: its path, then
/// the subroutines and the basic blocks of the entry.
pub open spec fn data_from_groups(groups: Seq<Option<Seq<char>>>) -> Result<CheckpointDataView, CheckpointError> {
    match group_of(groups, 1) {
        None => Err(CheckpointError::MissingGroup(1)),
        Some(asm_path) => match all_ok(
            regex_all_captures(CHECKPOINT_SUBROUTINE_PATTERN@, whole_match(groups)),
            subroutine_reader(),
        ) {
            Err(e) => Err(e),
            Ok(subroutines) => match all_ok(
                regex_all_captures(CHECKPOINT_BLOCK_PATTERN@, whole_match(groups)),
                block_reader(),
            ) {
                Err(e) => Err(e),
                Ok(basic_blocks) => Ok(CheckpointDataView { asm_path, subroutines, basic_blocks }),
            },
        },
    }
}

pub open spec fn data_reader() -> spec_fn(Seq<Option<Seq<char>>>) -> Result<CheckpointDataView, CheckpointError> {
    |g: Seq<Option<Seq<char>>>| data_from_groups(g)
}

/// Whether the expressions that read checkpoints compile.
pub open spec fn checkpoint_patterns_compile() -> bool {
    &&& regex_compiles(CHECKPOINT_DATA_PATTERN@)
    &&& regex_compiles(CHECKPOINT_SUBROUTINE_PATTERN@)
    &&& regex_compiles(CHECKPOINT_INSTRUCTION_PATTERN@)
    &&& regex_compiles(CHECKPOINT_BLOCK_PATTERN@)
    &&& regex_compiles(CHECKPOINT_EDGE_PATTERN@)
}

/// The analysis that the checkpoint `text` holds: the data of each program
/// entry in turn, or the first error.
pub open spec fn checkpoint_from_text(text: Seq<char>) -> Result<Seq<CheckpointDataView>, CheckpointError> {
    if !checkpoint_patterns_compile() {
        Err(CheckpointError::InvalidPattern)
    } else {
        all_ok(regex_all_captures(CHECKPOINT_DATA_PATTERN@, text), data_reader())
    }
}

fn whole_match_of(groups: &Vec<Option<String>>) -> (r: String)
    ensures
        r@ == whole_match(groups.deep_view()),
{
    match group_at(groups, 0) {
        Some(t) => t,
        None => String::new(),
    }
}

fn read_instructions(text: &str, instruction: &Pattern) -> (r: Result<Vec<AssemblyInstruction>, CheckpointError>)
    requires
        instruction@ == CHECKPOINT_INSTRUCTION_PATTERN@,
    ensures
        read_all(r) == instructions_in(text@),
{
    let entries = instruction.all_captures(text);
    let ghost xs = entries.deep_view();
    let mut out: Vec<AssemblyInstruction> = Vec::new();
    let mut k: usize = 0;
    assert(xs.take(0) =~= Seq::<Seq<Option<Seq<char>>>>::empty());
    assert(out.deep_view() =~= Seq::<InstructionView>::empty());
    while k < entries.len()
        invariant
            xs == entries.deep_view(),
            xs == regex_all_captures(CHECKPOINT_INSTRUCTION_PATTERN@, text@),
            k <= entries@.len(),
            all_ok(xs.take(k as int), instruction_reader()) == Ok::<Seq<InstructionView>, CheckpointError>(
                out.deep_view(),
            ),
        decreases entries@.len() - k,
    {
        assert(xs.take(k + 1).drop_last() =~= xs.take(k as int));
        assert(xs.take(k + 1).last() == entries@[k as int].deep_view());
        match instruction_from_group_vec(&entries[k]) {
            Ok(i) => {
                let ghost before = out.deep_view();
                out.push(i);
                assert(out.deep_view() =~= before.push(i@));
            },
            Err(e) => {
                proof {
                    assert(all_ok(xs.take(k + 1), instruction_reader()) == Err::<Seq<InstructionView>, CheckpointError>(e));
                    lemma_all_ok_prefix_err(xs, instruction_reader(), k + 1);
                }
                return Err(e);
            },
        }
        k = k + 1;
    }
    assert(xs.take(entries@.len() as int) =~= xs);
    Ok(out)
}

fn subroutine_from_vec(groups: &Vec<Option<String>>, instruction: &Pattern) -> (r: Result<
    CheckpointSubroutine,
    CheckpointError,
>)
    requires
        instruction@ == CHECKPOINT_INSTRUCTION_PATTERN@,
    ensures
        match r {
            Ok(s) => subroutine_from_groups(groups.deep_view()) == Ok::<CheckpointSubroutineView, CheckpointError>(s@),
            Err(e) => subroutine_from_groups(groups.deep_view()) == Err::<CheckpointSubroutineView, CheckpointError>(e),
        },
{
    let definition_label = match group_at(groups, 1) {
        Some(g) => g,
        None => {
            return Err(CheckpointError::MissingGroup(1));
        },
    };
    let a = match group_at(groups, 2) {
        Some(g) => g,
        None => {
            return Err(CheckpointError::MissingGroup(2));
        },
    };
    let start_line = match crate::text::parse_radix(a.as_str(), 10, u32::MAX as usize) {
        Some(n) => n as u32,
        None => {
            return Err(CheckpointError::BadSubroutine);
        },
    };
    let b = match group_at(groups, 3) {
        Some(g) => g,
        None => {
            return Err(CheckpointError::MissingGroup(3));
        },
    };
    let end_line = match crate::text::parse_radix(b.as_str(), 10, u32::MAX as usize) {
        Some(n) => n as u32,
        None => {
            return Err(CheckpointError::BadSubroutine);
        },
    };
    let n = match group_at(groups, 4) {
        Some(g) => g,
        None => {
            return Err(CheckpointError::MissingGroup(4));
        },
    };
    let necessary = match crate::text::parse_bool_str(n.as_str()) {
        Some(v) => v,
        None => {
            return Err(CheckpointError::BadSubroutine);
        },
    };
    let whole = whole_match_of(groups);
    let assembly_instructions = read_instructions(whole.as_str(), instruction)?;
    Ok(CheckpointSubroutine { definition_label, start_line, end_line, assembly_instructions, necessary })
}

fn edge_from_vec(groups: &Vec<Option<String>>) -> (r: Result<Edge, CheckpointError>)
    ensures
        match r {
            Ok(e) => edge_from_groups(groups.deep_view()) == Ok::<EdgeView, CheckpointError>(e@),
            Err(e) => edge_from_groups(groups.deep_view()) == Err::<EdgeView, CheckpointError>(e),
        },
{
    let condition = match group_at(groups, 1) {
        Some(g) => g,
        None => {
            return Err(CheckpointError::MissingGroup(1));
        },
    };
    let d = match group_at(groups, 2) {
        Some(g) => g,
        None => {
            return Err(CheckpointError::MissingGroup(2));
        },
    };
    match crate::text::parse_radix(d.as_str(), 10, usize::MAX) {
        Some(destination_index) => Ok(Edge::new(condition, destination_index)),
        None => Err(CheckpointError::BadEdge),
    }
}

fn read_edges(text: &str, edge: &Pattern) -> (r: Result<Vec<Edge>, CheckpointError>)
    requires
        edge@ == CHECKPOINT_EDGE_PATTERN@,
    ensures
        read_all(r) == all_ok(regex_all_captures(CHECKPOINT_EDGE_PATTERN@, text@), edge_reader()),
{
    let entries = edge.all_captures(text);
    let ghost xs = entries.deep_view();
    let mut out: Vec<Edge> = Vec::new();
    let mut k: usize = 0;
    assert(xs.take(0) =~= Seq::<Seq<Option<Seq<char>>>>::empty());
    assert(out.deep_view() =~= Seq::<EdgeView>::empty());
    while k < entries.len()
        invariant
            xs == entries.deep_view(),
            xs == regex_all_captures(CHECKPOINT_EDGE_PATTERN@, text@),
            k <= entries@.len(),
            all_ok(xs.take(k as int), edge_reader()) == Ok::<Seq<EdgeView>, CheckpointError>(out.deep_view()),
        decreases entries@.len() - k,
    {
        assert(xs.take(k + 1).drop_last() =~= xs.take(k as int));
        assert(xs.take(k + 1).last() == entries@[k as int].deep_view());
        match edge_from_vec(&entries[k]) {
            Ok(e) => {
                let ghost before = out.deep_view();
                out.push(e);
                assert(out.deep_view() =~= before.push(e@));
            },
            Err(e) => {
                proof {
                    assert(all_ok(xs.take(k + 1), edge_reader()) == Err::<Seq<EdgeView>, CheckpointError>(e));
                    lemma_all_ok_prefix_err(xs, edge_reader(), k + 1);
                }
                return Err(e);
            },
        }
        k = k + 1;
    }
    assert(xs.take(entries@.len() as int) =~= xs);
    Ok(out)
}

fn block_from_vec(groups: &Vec<Option<String>>, instruction: &Pattern, edge: &Pattern) -> (r: Result<
    CheckpointBlock,
    CheckpointError,
>)
    requires
        instruction@ == CHECKPOINT_INSTRUCTION_PATTERN@,
        edge@ == CHECKPOINT_EDGE_PATTERN@,
    ensures
        match r {
            Ok(b) => block_from_groups(groups.deep_view()) == Ok::<CheckpointBlockView, CheckpointError>(b@),
            Err(e) => block_from_groups(groups.deep_view()) == Err::<CheckpointBlockView, CheckpointError>(e),
        },
{
    let i = match group_at(groups, 1) {
        Some(g) => g,
        None => {
            return Err(CheckpointError::MissingGroup(1));
        },
    };
    let subroutine_index = match crate::text::parse_radix(i.as_str(), 10, usize::MAX) {
        Some(n) => n,
        None => {
            return Err(CheckpointError::BadBlock);
        },
    };
    let whole = whole_match_of(groups);
    let assembly_instructions = read_instructions(whole.as_str(), instruction)?;
    let edges = read_edges(whole.as_str(), edge)?;
    Ok(CheckpointBlock { assembly_instructions, edges, subroutine_index })
}

} // verus!

verus! {

fn read_subroutines(text: &str, subroutine: &Pattern, instruction: &Pattern) -> (r: Result<
    Vec<CheckpointSubroutine>,
    CheckpointError,
>)
    requires
        subroutine@ == CHECKPOINT_SUBROUTINE_PATTERN@,
        instruction@ == CHECKPOINT_INSTRUCTION_PATTERN@,
    ensures
        read_all(r) == all_ok(regex_all_captures(CHECKPOINT_SUBROUTINE_PATTERN@, text@), subroutine_reader()),
{
    let entries = subroutine.all_captures(text);
    let ghost xs = entries.deep_view();
    let mut out: Vec<CheckpointSubroutine> = Vec::new();
    let mut k: usize = 0;
    assert(xs.take(0) =~= Seq::<Seq<Option<Seq<char>>>>::empty());
    assert(out.deep_view() =~= Seq::<CheckpointSubroutineView>::empty());
    while k < entries.len()
        invariant
            instruction@ == CHECKPOINT_INSTRUCTION_PATTERN@,
            xs == entries.deep_view(),
            xs == regex_all_captures(CHECKPOINT_SUBROUTINE_PATTERN@, text@),
            k <= entries@.len(),
            all_ok(xs.take(k as int), subroutine_reader()) == Ok::<Seq<CheckpointSubroutineView>, CheckpointError>(
                out.deep_view(),
            ),
        decreases entries@.len() - k,
    {
        assert(xs.take(k + 1).drop_last() =~= xs.take(k as int));
        assert(xs.take(k + 1).last() == entries@[k as int].deep_view());
        match subroutine_from_vec(&entries[k], instruction) {
            Ok(s) => {
                let ghost before = out.deep_view();
                out.push(s);
                assert(out.deep_view() =~= before.push(s@));
            },
            Err(e) => {
                proof {
                    assert(all_ok(xs.take(k + 1), subroutine_reader()) == Err::<Seq<CheckpointSubroutineView>, CheckpointError>(e));
                    lemma_all_ok_prefix_err(xs, subroutine_reader(), k + 1);
                }
                return Err(e);
            },
        }
        k = k + 1;
    }
    assert(xs.take(entries@.len() as int) =~= xs);
    Ok(out)
}

fn read_blocks(text: &str, block: &Pattern, instruction: &Pattern, edge: &Pattern) -> (r: Result<
    Vec<CheckpointBlock>,
    CheckpointError,
>)
    requires
        block@ == CHECKPOINT_BLOCK_PATTERN@,
        instruction@ == CHECKPOINT_INSTRUCTION_PATTERN@,
        edge@ == CHECKPOINT_EDGE_PATTERN@,
    ensures
        read_all(r) == all_ok(regex_all_captures(CHECKPOINT_BLOCK_PATTERN@, text@), block_reader()),
{
    let entries = block.all_captures(text);
    let ghost xs = entries.deep_view();
    let mut out: Vec<CheckpointBlock> = Vec::new();
    let mut k: usize = 0;
    assert(xs.take(0) =~= Seq::<Seq<Option<Seq<char>>>>::empty());
    assert(out.deep_view() =~= Seq::<CheckpointBlockView>::empty());
    while k < entries.len()
        invariant
            instruction@ == CHECKPOINT_INSTRUCTION_PATTERN@,
            edge@ == CHECKPOINT_EDGE_PATTERN@,
            xs == entries.deep_view(),
            xs == regex_all_captures(CHECKPOINT_BLOCK_PATTERN@, text@),
            k <= entries@.len(),
            all_ok(xs.take(k as int), block_reader()) == Ok::<Seq<CheckpointBlockView>, CheckpointError>(
                out.deep_view(),
            ),
        decreases entries@.len() - k,
    {
        assert(xs.take(k + 1).drop_last() =~= xs.take(k as int));
        assert(xs.take(k + 1).last() == entries@[k as int].deep_view());
        match block_from_vec(&entries[k], instruction, edge) {
            Ok(b) => {
                let ghost before = out.deep_view();
                out.push(b);
                assert(out.deep_view() =~= before.push(b@));
            },
            Err(e) => {
                proof {
                    assert(all_ok(xs.take(k + 1), block_reader()) == Err::<Seq<CheckpointBlockView>, CheckpointError>(e));
                    lemma_all_ok_prefix_err(xs, block_reader(), k + 1);
                }
                return Err(e);
            },
        }
        k = k + 1;
    }
    assert(xs.take(entries@.len() as int) =~= xs);
    Ok(out)
}

/// The expressions that read checkpoints, compiled.
struct CheckpointPatterns {
    data: Pattern,
    subroutine: Pattern,
    instruction: Pattern,
    block: Pattern,
    edge: Pattern,
}

fn data_from_vec(groups: &Vec<Option<String>>, p: &CheckpointPatterns) -> (r: Result<
    CheckpointData,
    CheckpointError,
>)
    requires
        p.subroutine@ == CHECKPOINT_SUBROUTINE_PATTERN@,
        p.instruction@ == CHECKPOINT_INSTRUCTION_PATTERN@,
        p.block@ == CHECKPOINT_BLOCK_PATTERN@,
        p.edge@ == CHECKPOINT_EDGE_PATTERN@,
    ensures
        match r {
            Ok(d) => data_from_groups(groups.deep_view()) == Ok::<CheckpointDataView, CheckpointError>(d@),
            Err(e) => data_from_groups(groups.deep_view()) == Err::<CheckpointDataView, CheckpointError>(e),
        },
{
    let asm_path = match group_at(groups, 1) {
        Some(g) => g,
        None => {
            return Err(CheckpointError::MissingGroup(1));
        },
    };
    let whole = whole_match_of(groups);
    let subroutines = read_subroutines(whole.as_str(), &p.subroutine, &p.instruction)?;
    let basic_blocks = read_blocks(whole.as_str(), &p.block, &p.instruction, &p.edge)?;
    Ok(CheckpointData { asm_path, subroutines, basic_blocks })
}

fn compile_checkpoint_pattern(source: &str) -> (r: Result<Pattern, CheckpointError>)
    ensures
        r is Ok <==> regex_compiles(source@),
        r matches Ok(p) ==> p@ == source@,
        r matches Err(e) ==> e == CheckpointError::InvalidPattern,
{
    match Pattern::new(source) {
        Ok(p) => Ok(p),
        Err(_) => Err(CheckpointError::InvalidPattern),
    }
}

/// Reads the analysis back from the checkpoint `text` (see
/// [`checkpoint_from_text`]).
pub fn load_checkpoint(text: &str) -> (r: Result<Checkpoint, CheckpointError>)
    ensures
        match r {
            Ok(c) => checkpoint_from_text(text@) == Ok::<Seq<CheckpointDataView>, CheckpointError>(c@),
            Err(e) => checkpoint_from_text(text@) == Err::<Seq<CheckpointDataView>, CheckpointError>(e),
        },
{
    let p = CheckpointPatterns {
        data: compile_checkpoint_pattern(CHECKPOINT_DATA_PATTERN)?,
        subroutine: compile_checkpoint_pattern(CHECKPOINT_SUBROUTINE_PATTERN)?,
        instruction: compile_checkpoint_pattern(CHECKPOINT_INSTRUCTION_PATTERN)?,
        block: compile_checkpoint_pattern(CHECKPOINT_BLOCK_PATTERN)?,
        edge: compile_checkpoint_pattern(CHECKPOINT_EDGE_PATTERN)?,
    };
    let entries = p.data.all_captures(text);
    let ghost xs = entries.deep_view();
    let mut out: Vec<CheckpointData> = Vec::new();
    let mut k: usize = 0;
    assert(xs.take(0) =~= Seq::<Seq<Option<Seq<char>>>>::empty());
    assert(out.deep_view() =~= Seq::<CheckpointDataView>::empty());
    while k < entries.len()
        invariant
            p.subroutine@ == CHECKPOINT_SUBROUTINE_PATTERN@,
            p.instruction@ == CHECKPOINT_INSTRUCTION_PATTERN@,
            p.block@ == CHECKPOINT_BLOCK_PATTERN@,
            p.edge@ == CHECKPOINT_EDGE_PATTERN@,
            checkpoint_patterns_compile(),
            xs == entries.deep_view(),
            xs == regex_all_captures(CHECKPOINT_DATA_PATTERN@, text@),
            k <= entries@.len(),
            all_ok(xs.take(k as int), data_reader()) == Ok::<Seq<CheckpointDataView>, CheckpointError>(
                out.deep_view(),
            ),
        decreases entries@.len() - k,
    {
        assert(xs.take(k + 1).drop_last() =~= xs.take(k as int));
        assert(xs.take(k + 1).last() == entries@[k as int].deep_view());
        match data_from_vec(&entries[k], &p) {
            Ok(d) => {
                let ghost before = out.deep_view();
                out.push(d);
                assert(out.deep_view() =~= before.push(d@));
            },
            Err(e) => {
                proof {
                    assert(all_ok(xs.take(k + 1), data_reader()) == Err::<Seq<CheckpointDataView>, CheckpointError>(e));
                    lemma_all_ok_prefix_err(xs, data_reader(), k + 1);
                }
                return Err(e);
            },
        }
        k = k + 1;
    }
    assert(xs.take(entries@.len() as int) =~= xs);
    Ok(Checkpoint { asm_data_vec: out })
}

} // verus!
