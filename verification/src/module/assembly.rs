//! The subroutines and instructions of a disassembled program, and the
//! resolution of the targets of its control transfer instructions.
use vstd::prelude::*;
use crate::module::instruction::{branch_type_named, BranchType, ConditionalBranch, UnconditionalBranch};
use crate::pattern::{capture_group, regex_captures, Pattern};
use crate::text::{before_first, chars_of, find, find_exec, lemma_find_from, str_eq};

verus! {

/// Represents a subroutine in an assembly source file.
///
/// It cotains some useful info about a subroutine in an assembly file.
pub struct Subroutine {
    pub definition_label: String,
    pub start_line: usize,
    pub end_line: usize,
    pub asm_insts: Vec<AssemblyInstruction>,
    pub necessary: bool,
}

/// The position of an instruction: its subroutine and its index there.
#[derive(PartialEq, Eq, PartialOrd, Ord, Clone, Copy, Hash, Debug, Structural)]
pub struct AssemblyInstructionId {
    pub subroutine_index: usize,
    pub asm_inst_index: usize,
}

/// Represents a control transfaer instruction (aka, jump instruction) in an assembly file.
///
/// It contains some useful information about each CTI.
#[derive(PartialEq, Eq, Hash, Debug)]
pub struct AssemblyInstruction {
    pub id: AssemblyInstructionId,
    pub source_line_number: usize,
    pub asm_line_number: usize,
    pub content: String,
    pub inst_type: AssemblyInstructionType,
}

/// The kind of an instruction, with its mnemonic and, for a control transfer
/// instruction, the position of its target once that is known.
#[derive(PartialEq, Eq, Hash, Debug)]
pub enum AssemblyInstructionType {
    CtiConditional(String, Option<AssemblyInstructionId>),
    CtiUnconditional(String, Option<AssemblyInstructionId>),
    Ncti(String),
}

/// The abstract value of an [`AssemblyInstructionType`].
pub enum InstTypeView {
    CtiConditional(Seq<char>, Option<AssemblyInstructionId>),
    CtiUnconditional(Seq<char>, Option<AssemblyInstructionId>),
    Ncti(Seq<char>),
}

/// The abstract value of an [`AssemblyInstruction`].
pub struct InstView {
    pub id: AssemblyInstructionId,
    pub source_line_number: usize,
    pub asm_line_number: usize,
    pub content: Seq<char>,
    pub inst_type: InstTypeView,
}

/// The abstract value of a [`Subroutine`].
pub struct SubroutineView {
    pub definition_label: Seq<char>,
    pub start_line: usize,
    pub end_line: usize,
    pub asm_insts: Seq<InstView>,
    pub necessary: bool,
}

impl View for AssemblyInstructionType {
    type V = InstTypeView;

    open spec fn view(&self) -> InstTypeView {
        match self {
            AssemblyInstructionType::CtiConditional(n, t) => InstTypeView::CtiConditional(n@, *t),
            AssemblyInstructionType::CtiUnconditional(n, t) => InstTypeView::CtiUnconditional(n@, *t),
            AssemblyInstructionType::Ncti(n) => InstTypeView::Ncti(n@),
        }
    }
}

impl View for AssemblyInstruction {
    type V = InstView;

    open spec fn view(&self) -> InstView {
        InstView {
            id: self.id,
            source_line_number: self.source_line_number,
            asm_line_number: self.asm_line_number,
            content: self.content@,
            inst_type: self.inst_type@,
        }
    }
}

impl DeepView for AssemblyInstruction {
    type V = InstView;

    open spec fn deep_view(&self) -> InstView {
        self@
    }
}

impl View for Subroutine {
    type V = SubroutineView;

    open spec fn view(&self) -> SubroutineView {
        SubroutineView {
            definition_label: self.definition_label@,
            start_line: self.start_line,
            end_line: self.end_line,
            asm_insts: self.asm_insts.deep_view(),
            necessary: self.necessary,
        }
    }
}

impl DeepView for Subroutine {
    type V = SubroutineView;

    open spec fn deep_view(&self) -> SubroutineView {
        self@
    }
}

impl Clone for AssemblyInstructionType {
    fn clone(&self) -> (r: Self)
        ensures
            r == *self,
    {
        match self {
            AssemblyInstructionType::CtiConditional(n, t) => AssemblyInstructionType::CtiConditional(n.clone(), *t),
            AssemblyInstructionType::CtiUnconditional(n, t) => AssemblyInstructionType::CtiUnconditional(n.clone(), *t),
            AssemblyInstructionType::Ncti(n) => AssemblyInstructionType::Ncti(n.clone()),
        }
    }
}

impl Clone for AssemblyInstruction {
    fn clone(&self) -> (r: Self)
        ensures
            r == *self,
    {
        AssemblyInstruction {
            id: self.id,
            source_line_number: self.source_line_number,
            asm_line_number: self.asm_line_number,
            content: self.content.clone(),
            inst_type: self.inst_type.clone(),
        }
    }
}

/// Whether `name` is the mnemonic of a conditional branch.
pub open spec fn is_conditional_name(name: Seq<char>) -> bool {
    branch_type_named(name) matches Some(BranchType::ConditionalBranch(_))
}

/// Whether `name` is the mnemonic of one of the unconditional branches that
/// the target resolution follows: `b`, `bl`, `ret`, `br`, `blr`, `b.al`,
/// `bc.al`, `b.nv` and `bc.nv`.
pub open spec fn is_unconditional_name(name: Seq<char>) -> bool {
    branch_type_named(name) matches Some(BranchType::UnconditionalBranch(u)) && (u
        == UnconditionalBranch::B || u == UnconditionalBranch::Bl || u == UnconditionalBranch::Ret
        || u == UnconditionalBranch::Br || u == UnconditionalBranch::Blr || u
        == UnconditionalBranch::BDotAl || u == UnconditionalBranch::BCDotAl || u
        == UnconditionalBranch::BDotNv || u == UnconditionalBranch::BCDotNv)
}

/// The kind of an instruction with mnemonic `name`, before its target is known.
pub open spec fn inst_type_of_name(name: Seq<char>) -> InstTypeView {
    if is_conditional_name(name) {
        InstTypeView::CtiConditional(name, None)
    } else if is_unconditional_name(name) {
        InstTypeView::CtiUnconditional(name, None)
    } else {
        InstTypeView::Ncti(name)
    }
}

/// The branch condition of a control transfer instruction with mnemonic `name`.
pub open spec fn condition_of_name(name: Seq<char>) -> Seq<char> {
    match branch_type_named(name) {
        Some(BranchType::ConditionalBranch(c)) => c.spec_branch_condition(),
        _ => "true"@,
    }
}

/// The complement of the branch condition of a control transfer instruction
/// with mnemonic `name`.
pub open spec fn condition_complement_of_name(name: Seq<char>) -> Seq<char> {
    match branch_type_named(name) {
        Some(BranchType::ConditionalBranch(c)) => c.spec_branch_condition_complement(),
        _ => "false"@,
    }
}

/// The address of an instruction line: what precedes its first `:`.
pub open spec fn address_of(content: Seq<char>) -> Seq<char> {
    before_first(content, ":"@)
}

/// Whether an instruction line has an address.
pub open spec fn has_address(content: Seq<char>) -> bool {
    find(content, ":"@) is Some
}

impl InstTypeView {
    pub open spec fn name(self) -> Seq<char> {
        match self {
            InstTypeView::CtiConditional(n, _) => n,
            InstTypeView::CtiUnconditional(n, _) => n,
            InstTypeView::Ncti(n) => n,
        }
    }

    pub open spec fn target(self) -> Option<AssemblyInstructionId> {
        match self {
            InstTypeView::CtiConditional(_, t) => t,
            InstTypeView::CtiUnconditional(_, t) => t,
            InstTypeView::Ncti(_) => None,
        }
    }

    pub open spec fn is_cti(self) -> bool {
        !(self is Ncti)
    }
}

fn is_conditional_name_exec(name: &str) -> (r: bool)
    ensures
        r == is_conditional_name(name@),
{
    match crate::module::instruction::branch_type_of(name) {
        Some(BranchType::ConditionalBranch(_)) => true,
        _ => false,
    }
}

fn is_unconditional_name_exec(name: &str) -> (r: bool)
    ensures
        r == is_unconditional_name(name@),
{
    match crate::module::instruction::branch_type_of(name) {
        Some(BranchType::UnconditionalBranch(u)) => match u {
            UnconditionalBranch::B | UnconditionalBranch::Bl | UnconditionalBranch::Ret
            | UnconditionalBranch::Br | UnconditionalBranch::Blr | UnconditionalBranch::BDotAl
            | UnconditionalBranch::BCDotAl | UnconditionalBranch::BDotNv
            | UnconditionalBranch::BCDotNv => true,
            _ => false,
        },
        _ => false,
    }
}

impl AssemblyInstruction {
    /// Builds the instruction of a disassembled line; its mnemonic is group 1 of
    /// `instruction_name_regex`.
    pub fn new(
        id: AssemblyInstructionId,
        source_line_number: usize,
        asm_line_number: usize,
        content: &str,
        instruction_name_regex: &Pattern,
    ) -> (r: Self)
        requires
            capture_group(instruction_name_regex@, content@, 1) is Some,
        ensures
            r@ == (InstView {
                id,
                source_line_number,
                asm_line_number,
                content: content@,
                inst_type: inst_type_of_name(
                    capture_group(instruction_name_regex@, content@, 1).unwrap(),
                ),
            }),
    {
        let instruction_name = instruction_name_regex.group(content, 1).unwrap();
        let inst_type = if is_conditional_name_exec(instruction_name.as_str()) {
            AssemblyInstructionType::CtiConditional(instruction_name, None)
        } else if is_unconditional_name_exec(instruction_name.as_str()) {
            AssemblyInstructionType::CtiUnconditional(instruction_name, None)
        } else {
            AssemblyInstructionType::Ncti(instruction_name)
        };
        Self { id, source_line_number, asm_line_number, content: String::from_str(content), inst_type }
    }

    /// Builds the instruction of a disassembled line, or `None` where the
    /// expression finds no mnemonic in it.
    pub fn try_new(
        id: AssemblyInstructionId,
        source_line_number: usize,
        asm_line_number: usize,
        content: &str,
        instruction_name_regex: &Pattern,
    ) -> (r: Option<Self>)
        ensures
            r is Some <==> capture_group(instruction_name_regex@, content@, 1) is Some,
            r matches Some(i) ==> i@ == (InstView {
                id,
                source_line_number,
                asm_line_number,
                content: content@,
                inst_type: inst_type_of_name(
                    capture_group(instruction_name_regex@, content@, 1).unwrap(),
                ),
            }),
    {
        match instruction_name_regex.group(content, 1) {
            Some(_) => Some(Self::new(id, source_line_number, asm_line_number, content, instruction_name_regex)),
            None => None,
        }
    }

    /// The condition under which a control transfer instruction branches.
    pub fn branch_condition(&self) -> (r: Result<String, String>)
        ensures
            self@.inst_type.is_cti() ==> (r matches Ok(c) && c@ == condition_of_name(
                self@.inst_type.name(),
            )),
            !self@.inst_type.is_cti() ==> (r matches Err(e) && e@ == "NCTI Instruction: \""@
                + self@.content + "\" has no branch condition!"@),
    {
        match &self.inst_type {
            AssemblyInstructionType::CtiConditional(inst_name, _)
            | AssemblyInstructionType::CtiUnconditional(inst_name, _) => {
                match crate::module::instruction::branch_type_of(inst_name.as_str()) {
                    Some(BranchType::ConditionalBranch(c)) => Ok(String::from_str(c.branch_condition())),
                    _ => Ok(String::from_str("true")),
                }
            },
            AssemblyInstructionType::Ncti(_) => Err(
                String::from_str("NCTI Instruction: \"").concat(self.content.as_str()).concat(
                    "\" has no branch condition!",
                ),
            ),
        }
    }

    /// The condition under which a control transfer instruction does not branch.
    pub fn branch_condition_complement(&self) -> (r: Result<String, String>)
        ensures
            self@.inst_type.is_cti() ==> (r matches Ok(c) && c@ == condition_complement_of_name(
                self@.inst_type.name(),
            )),
            !self@.inst_type.is_cti() ==> (r matches Err(e) && e@ == "NCTI Instruction: \""@
                + self@.content + "\" has no complement branch condition!"@),
    {
        match &self.inst_type {
            AssemblyInstructionType::CtiConditional(inst_name, _)
            | AssemblyInstructionType::CtiUnconditional(inst_name, _) => {
                match crate::module::instruction::branch_type_of(inst_name.as_str()) {
                    Some(BranchType::ConditionalBranch(c)) => Ok(String::from_str(c.branch_condition_complement())),
                    _ => Ok(String::from_str("false")),
                }
            },
            AssemblyInstructionType::Ncti(_) => Err(
                String::from_str("NCTI Instruction: \"").concat(self.content.as_str()).concat(
                    "\" has no complement branch condition!",
                ),
            ),
        }
    }

    /// The address of the instruction: what precedes the first `:` of its line.
    pub fn get_address(&self) -> (r: &str)
        requires
            has_address(self@.content),
        ensures
            r@ == address_of(self@.content),
    {
        let v = chars_of(self.content.as_str());
        let colon = chars_of(":");
        let k = find_exec(v.as_slice(), colon.as_slice());
        proof {
            lemma_find_from(v@, colon@, 0);
        }
        self.content.as_str().substring_char(0, k.unwrap())
    }
}

/// The position `(i, j)` names an instruction of `subs`.
pub open spec fn valid_pos(subs: Seq<SubroutineView>, i: int, j: int) -> bool {
    0 <= i < subs.len() && 0 <= j < subs[i].asm_insts.len()
}

/// The instruction at position `(i, j)`.
pub open spec fn inst_at(subs: Seq<SubroutineView>, i: int, j: int) -> InstView {
    subs[i].asm_insts[j]
}

/// Position `(i2, j2)` comes before `(i, j)` in program order.
pub open spec fn precedes(i2: int, j2: int, i: int, j: int) -> bool {
    i2 < i || (i2 == i && j2 < j)
}

/// The instruction at `(i, j)` has the address `addr`.
pub open spec fn address_at(subs: Seq<SubroutineView>, i: int, j: int, addr: Seq<char>) -> bool {
    has_address(inst_at(subs, i, j).content) && address_of(inst_at(subs, i, j).content) == addr
}

/// `(i, j)` is the first instruction of `subs` with address `addr`, and every
/// instruction before it has an address.
pub open spec fn first_with_address(subs: Seq<SubroutineView>, addr: Seq<char>, i: int, j: int) -> bool {
    &&& valid_pos(subs, i, j)
    &&& address_at(subs, i, j, addr)
    &&& forall|i2: int, j2: int|
        valid_pos(subs, i2, j2) && precedes(i2, j2, i, j) ==> has_address(
            #[trigger] inst_at(subs, i2, j2).content,
        ) && address_of(inst_at(subs, i2, j2).content) != addr
}

/// No instruction of `subs` has the address `addr`.
pub open spec fn no_address(subs: Seq<SubroutineView>, addr: Seq<char>) -> bool {
    forall|i: int, j: int| valid_pos(subs, i, j) ==> !address_at(subs, i, j, addr)
}

/// Searching `subs` for `addr` in program order meets no instruction without an
/// address before it finds one with `addr`.
pub open spec fn address_search_defined(subs: Seq<SubroutineView>, addr: Seq<char>) -> bool {
    forall|i: int, j: int|
        valid_pos(subs, i, j) && !has_address(#[trigger] inst_at(subs, i, j).content) ==> exists|
            i2: int,
            j2: int,
        | valid_pos(subs, i2, j2) && precedes(i2, j2, i, j) && address_at(subs, i2, j2, addr)
}

pub proof fn lemma_first_with_address_unique(
    subs: Seq<SubroutineView>,
    addr: Seq<char>,
    i: int,
    j: int,
    i2: int,
    j2: int,
)
    requires
        first_with_address(subs, addr, i, j),
        first_with_address(subs, addr, i2, j2),
    ensures
        i == i2 && j == j2,
{
    if precedes(i2, j2, i, j) {
        assert(has_address(inst_at(subs, i2, j2).content));
    } else if precedes(i, j, i2, j2) {
        assert(has_address(inst_at(subs, i, j).content));
    }
}

/// The position of the first instruction with address `addr`, if any.
pub open spec fn position_of_address(subs: Seq<SubroutineView>, addr: Seq<char>) -> Option<(int, int)> {
    if exists|i: int, j: int| first_with_address(subs, addr, i, j) {
        Some(choose|i: int, j: int| first_with_address(subs, addr, i, j))
    } else {
        None
    }
}

/// The instruction after the first one with address `addr`, if that one is not
/// the last of its subroutine.
pub open spec fn next_in_same_subroutine(subs: Seq<SubroutineView>, addr: Seq<char>) -> Option<
    AssemblyInstructionId,
> {
    match position_of_address(subs, addr) {
        Some((i, j)) => if j + 1 < subs[i].asm_insts.len() {
            Some(AssemblyInstructionId { subroutine_index: i as usize, asm_inst_index: (j + 1) as usize })
        } else {
            None
        },
        None => None,
    }
}

/// The instructions that control can reach from `inst`: the target of a branch,
/// the next instruction after a conditional branch, and after a `ret` the next
/// instruction of its subroutine where there is one.
pub open spec fn target_ids_of(inst: InstView, subs: Seq<SubroutineView>) -> Seq<AssemblyInstructionId> {
    match inst.inst_type {
        InstTypeView::CtiConditional(_, t) => seq![
            t.unwrap(),
            AssemblyInstructionId {
                subroutine_index: inst.id.subroutine_index,
                asm_inst_index: (inst.id.asm_inst_index + 1) as usize,
            },
        ],
        InstTypeView::CtiUnconditional(name, t) => if name == "ret"@ && next_in_same_subroutine(
            subs,
            address_of(inst.content),
        ) is Some {
            seq![t.unwrap(), next_in_same_subroutine(subs, address_of(inst.content)).unwrap()]
        } else {
            seq![t.unwrap()]
        },
        InstTypeView::Ncti(_) => seq![],
    }
}

/// What `get_target_ids` needs: a resolved target, a next instruction after a
/// conditional branch, and for a `ret` an address that the search finds.
pub open spec fn target_ids_defined(inst: InstView, subs: Seq<SubroutineView>) -> bool {
    match inst.inst_type {
        InstTypeView::CtiConditional(_, t) => t is Some && inst.id.subroutine_index < subs.len()
            && inst.id.asm_inst_index + 1 < subs[inst.id.subroutine_index as int].asm_insts.len(),
        InstTypeView::CtiUnconditional(name, t) => t is Some && (name == "ret"@ ==> has_address(
            inst.content,
        ) && address_search_defined(subs, address_of(inst.content)) && !no_address(
            subs,
            address_of(inst.content),
        )),
        InstTypeView::Ncti(_) => true,
    }
}

/// Whether `label` opens the `main` subroutine.
pub open spec fn is_main_label(label: Seq<char>) -> bool {
    find(label, "<main>:"@) is Some
}

/// The name of a subroutine: the last space-separated word of its trimmed label.
pub open spec fn subroutine_name(label: Seq<char>) -> Seq<char> {
    crate::text::after_last(crate::text::trim(label), ' ')
}

/// `i` is the first subroutine whose label opens `main`.
pub open spec fn is_first_main(subs: Seq<SubroutineView>, i: int) -> bool {
    0 <= i < subs.len() && is_main_label(subs[i].definition_label) && forall|k: int|
        0 <= k < i ==> !is_main_label(#[trigger] subs[k].definition_label)
}

impl Subroutine {
    pub fn get_name(&self) -> (r: String)
        ensures
            r@ == subroutine_name(self@.definition_label),
    {
        let trimmed = crate::text::trim_str(self.definition_label.as_str());
        crate::text::after_last_str(trimmed.as_str(), ' ')
    }

    /// The index of the `main` subroutine (the first whose label holds `<main>:`).
    pub fn get_main_subroutine_index(subroutines: &[Subroutine]) -> (r: usize)
        requires
            exists|i: int|
                0 <= i < subroutines@.len() && is_main_label(
                    #[trigger] subroutines.deep_view()[i].definition_label,
                ),
        ensures
            is_first_main(subroutines.deep_view(), r as int),
    {
        let r = find_main_subroutine(subroutines);
        r.unwrap()
    }
}

/// The index of the first subroutine whose label holds `<main>:`, if any.
pub fn find_main_subroutine(subroutines: &[Subroutine]) -> (r: Option<usize>)
    ensures
        r matches Some(i) ==> is_first_main(subroutines.deep_view(), i as int),
        r is None ==> forall|i: int|
            0 <= i < subroutines@.len() ==> !is_main_label(
                #[trigger] subroutines.deep_view()[i].definition_label,
            ),
{
    let mut i: usize = 0;
    while i < subroutines.len()
        invariant
            i <= subroutines@.len(),
            forall|k: int|
                0 <= k < i ==> !is_main_label(#[trigger] subroutines.deep_view()[k].definition_label),
        decreases subroutines@.len() - i,
    {
        if crate::text::contains_str(subroutines[i].definition_label.as_str(), "<main>:") {
            return Some(i);
        }
        i = i + 1;
    }
    None
}

/// Searches `subroutines` in program order for the first instruction with
/// address `address`: `Err` where an instruction without an address comes first.
pub(crate) fn scan_address(subroutines: &[Subroutine], address: &str) -> (r: Result<Option<(usize, usize)>, ()>)
    ensures
        r is Err <==> !address_search_defined(subroutines.deep_view(), address@),
        r matches Ok(Some(p)) ==> first_with_address(subroutines.deep_view(), address@, p.0 as int, p.1 as int),
        r matches Ok(None) ==> no_address(subroutines.deep_view(), address@),
{
    let ghost subs = subroutines.deep_view();
    let mut i: usize = 0;
    while i < subroutines.len()
        invariant
            subs == subroutines.deep_view(),
            i <= subs.len(),
            forall|i2: int, j2: int|
                valid_pos(subs, i2, j2) && i2 < i ==> has_address(
                    #[trigger] inst_at(subs, i2, j2).content,
                ) && address_of(inst_at(subs, i2, j2).content) != address@,
        decreases subs.len() - i,
    {
        let insts = &subroutines[i].asm_insts;
        let mut j: usize = 0;
        while j < insts.len()
            invariant
                subs == subroutines.deep_view(),
                i < subs.len(),
                insts.deep_view() == subs[i as int].asm_insts,
                j <= insts@.len(),
                forall|i2: int, j2: int|
                    valid_pos(subs, i2, j2) && precedes(i2, j2, i as int, j as int) ==> has_address(
                        #[trigger] inst_at(subs, i2, j2).content,
                    ) && address_of(inst_at(subs, i2, j2).content) != address@,
            decreases insts@.len() - j,
        {
            assert(inst_at(subs, i as int, j as int) == insts[j as int]@);
            let v = chars_of(insts[j].content.as_str());
            let colon = chars_of(":");
            if find_exec(v.as_slice(), colon.as_slice()).is_none() {
                proof {
                    assert(!has_address(inst_at(subs, i as int, j as int).content));
                    if address_search_defined(subs, address@) {
                        let (qi, qj) = choose|i2: int, j2: int|
                            valid_pos(subs, i2, j2) && precedes(i2, j2, i as int, j as int)
                                && address_at(subs, i2, j2, address@);
                        assert(has_address(inst_at(subs, qi, qj).content));
                    }
                }
                return Err(());
            }
            if str_eq(insts[j].get_address(), address) {
                proof {
                    assert(address_at(subs, i as int, j as int, address@));
                    assert forall|a: int, b: int|
                        valid_pos(subs, a, b) && !has_address(
                            #[trigger] inst_at(subs, a, b).content,
                        ) implies exists|i2: int, j2: int|
                        valid_pos(subs, i2, j2) && precedes(i2, j2, a, b) && address_at(
                            subs,
                            i2,
                            j2,
                            address@,
                        ) by {
                        if precedes(a, b, i as int, j as int) {
                            assert(has_address(inst_at(subs, a, b).content));
                        }
                        assert(valid_pos(subs, i as int, j as int) && precedes(i as int, j as int, a, b)
                            && address_at(subs, i as int, j as int, address@));
                    }
                }
                return Ok(Some((i, j)));
            }
            j = j + 1;
        }
        i = i + 1;
    }
    assert forall|a: int, b: int|
        valid_pos(subs, a, b) && !has_address(#[trigger] inst_at(subs, a, b).content) implies exists|
        i2: int,
        j2: int,
    | valid_pos(subs, i2, j2) && precedes(i2, j2, a, b) && address_at(subs, i2, j2, address@) by {
        assert(has_address(inst_at(subs, a, b).content));
    }
    Ok(None)
}

/// The position of the first instruction with address `address`.
fn search_address(subroutines: &[Subroutine], address: &str) -> (r: Option<(usize, usize)>)
    requires
        address_search_defined(subroutines.deep_view(), address@),
    ensures
        r matches Some(p) ==> first_with_address(subroutines.deep_view(), address@, p.0 as int, p.1 as int),
        r is None ==> no_address(subroutines.deep_view(), address@),
{
    match scan_address(subroutines, address) {
        Ok(found) => found,
        Err(_) => None,
    }
}

impl AssemblyInstruction {
    /// The position of the target of a control transfer instruction, once known.
    pub fn get_target_id(&self) -> (r: Result<AssemblyInstructionId, String>)
        ensures
            self@.inst_type.is_cti() && self@.inst_type.target() is Some ==> r == Ok::<
                AssemblyInstructionId,
                String,
            >(self@.inst_type.target().unwrap()),
            self@.inst_type.is_cti() && self@.inst_type.target() is None ==> (r matches Err(e)
                && e@
                == "Target Address is not previously extracted for the assembly instruction: \""@
                + self@.content + "\""@),
            !self@.inst_type.is_cti() ==> (r matches Err(e) && e@
                == "NCTI (Non Control Transfer Instruction) has no target address: \""@
                + self@.content + "\""@),
    {
        match &self.inst_type {
            AssemblyInstructionType::CtiConditional(_, ta)
            | AssemblyInstructionType::CtiUnconditional(_, ta) => {
                match ta {
                    Some(ta) => Ok(*ta),
                    None => Err(
                        String::from_str(
                            "Target Address is not previously extracted for the assembly instruction: \"",
                        ).concat(self.content.as_str()).concat("\""),
                    ),
                }
            },
            AssemblyInstructionType::Ncti(_) => Err(
                String::from_str(
                    "NCTI (Non Control Transfer Instruction) has no target address: \"",
                ).concat(self.content.as_str()).concat("\""),
            ),
        }
    }

    /// The line number of the first instruction of the subroutine that holds
    /// the first instruction with address `address` (its `start_line`), or
    /// `None` where the address lies outside the program.
    pub fn get_subroutine_index_from_address(&self, subroutines: &[Subroutine], address: &str) -> (r:
        Option<usize>)
        requires
            address_search_defined(subroutines.deep_view(), address@),
        ensures
            r is None <==> no_address(subroutines.deep_view(), address@),
            r matches Some(l) ==> exists|i: int, j: int|
                #[trigger] first_with_address(subroutines.deep_view(), address@, i, j) && l
                    == subroutines.deep_view()[i].start_line,
    {
        match search_address(subroutines, address) {
            Some((i, j)) => {
                let l = subroutines[i].start_line;
                assert(first_with_address(subroutines.deep_view(), address@, i as int, j as int));
                assert(l == subroutines.deep_view()[i as int].start_line);
                Some(l)
            },
            None => None,
        }
    }

    /// The position of the first instruction with address `address`.
    pub fn get_asm_inst_id_by_address(subroutines: &[Subroutine], address: &str) -> (r: Result<
        AssemblyInstructionId,
        String,
    >)
        requires
            address_search_defined(subroutines.deep_view(), address@),
        ensures
            r matches Ok(id) ==> first_with_address(
                subroutines.deep_view(),
                address@,
                id.subroutine_index as int,
                id.asm_inst_index as int,
            ),
            r matches Err(e) ==> e@ == "No asssembly instruction was found with the address: \""@
                + address@ + "\""@,
            r is Err <==> no_address(subroutines.deep_view(), address@),
    {
        match search_address(subroutines, address) {
            Some((i, j)) => Ok(AssemblyInstructionId { subroutine_index: i, asm_inst_index: j }),
            None => Err(
                String::from_str("No asssembly instruction was found with the address: \"").concat(
                    address,
                ).concat("\""),
            ),
        }
    }

    /// The position of the instruction after this one in its subroutine.
    pub fn next_asm_inst_id(&self, subroutines: &[Subroutine]) -> (r: AssemblyInstructionId)
        requires
            self.id.subroutine_index < subroutines@.len(),
            self.id.asm_inst_index + 1 < subroutines@[self.id.subroutine_index as int].asm_insts@.len(),
        ensures
            r == (AssemblyInstructionId {
                subroutine_index: self.id.subroutine_index,
                asm_inst_index: (self.id.asm_inst_index + 1) as usize,
            }),
    {
        let n = subroutines[self.id.subroutine_index].asm_insts.len();
        AssemblyInstructionId {
            subroutine_index: self.id.subroutine_index,
            asm_inst_index: self.id.asm_inst_index + 1,
        }
    }

    /// The address four bytes after this instruction's, in lowercase hexadecimal.
    pub fn next_asm_inst_address(&self) -> (r: String)
        requires
            has_address(self@.content),
            crate::text::parse_bounded(address_of(self@.content), 16, usize::MAX as nat) matches Some(
                v,
            ) && v + 4 <= usize::MAX,
        ensures
            r@ == crate::text::digits_str(
                crate::text::parse_bounded(address_of(self@.content), 16, usize::MAX as nat).unwrap()
                    + 4,
                16,
            ),
    {
        let address = crate::text::parse_radix(self.get_address(), 16, usize::MAX).unwrap();
        crate::text::format_radix(address + 4, 16)
    }

    /// The position of the instruction after the first one with this
    /// instruction's address, where that one is not the last of its subroutine.
    pub fn next_asm_inst_id_in_the_same_subroutine(&self, subroutines: &[Subroutine]) -> (r: Option<
        AssemblyInstructionId,
    >)
        requires
            has_address(self@.content),
            address_search_defined(subroutines.deep_view(), address_of(self@.content)),
            !no_address(subroutines.deep_view(), address_of(self@.content)),
        ensures
            r == next_in_same_subroutine(subroutines.deep_view(), address_of(self@.content)),
    {
        let found = search_address(subroutines, self.get_address());
        let (i, j) = found.unwrap();
        proof {
            let ghost subs = subroutines.deep_view();
            let ghost addr = address_of(self@.content);
            assert(exists|a: int, b: int| first_with_address(subs, addr, a, b));
            let (a, b) = choose|a: int, b: int| first_with_address(subs, addr, a, b);
            lemma_first_with_address_unique(subs, addr, a, b, i as int, j as int);
        }
        let n = subroutines[i].asm_insts.len();
        assert(j < n);
        if j + 1 < n {
            Some(AssemblyInstructionId { subroutine_index: i, asm_inst_index: j + 1 })
        } else {
            None
        }
    }

    /// The instructions that control can reach from this one.
    pub fn get_target_ids(&self, subroutines: &[Subroutine]) -> (r: Vec<AssemblyInstructionId>)
        requires
            target_ids_defined(self@, subroutines.deep_view()),
        ensures
            r@ == target_ids_of(self@, subroutines.deep_view()),
    {
        match &self.inst_type {
            AssemblyInstructionType::CtiConditional(_, ta) => {
                let target_inst_id = ta.unwrap();
                let next_inst_id = self.next_asm_inst_id(subroutines);
                let mut v = Vec::new();
                v.push(target_inst_id);
                v.push(next_inst_id);
                assert(v@ =~= target_ids_of(self@, subroutines.deep_view()));
                v
            },
            AssemblyInstructionType::CtiUnconditional(inst_name, ta) => {
                let target_id = ta.unwrap();
                let mut v = Vec::new();
                v.push(target_id);
                if str_eq(inst_name.as_str(), "ret") {
                    if let Some(next_id) = self.next_asm_inst_id_in_the_same_subroutine(subroutines) {
                        v.push(next_id);
                    }
                }
                assert(v@ =~= target_ids_of(self@, subroutines.deep_view()));
                v
            },
            AssemblyInstructionType::Ncti(_) => {
                let v = Vec::new();
                assert(v@ =~= target_ids_of(self@, subroutines.deep_view()));
                v
            },
        }
    }
}

} // verus!


verus! {

/// What a branch trace says of the target of an indirect branch.
pub enum TraceLookup {
    /// The target address of the first committed indirect branch at the address.
    Found(Seq<char>),
    /// No line of the trace records a branch at the address.
    NotFound,
    /// A matching line lacks a group the lookup reads, or the instruction has no address.
    Malformed,
}

/// Looks through `lines` from line `k` on for an indirect branch recorded at the
/// address of `content`: group 1 of `pattern` is the branch's address, group 2
/// its target.
pub open spec fn trace_lookup_from(
    pattern: Seq<char>,
    lines: Seq<Seq<char>>,
    content: Seq<char>,
    k: int,
) -> TraceLookup
    decreases lines.len() - k,
{
    if k < 0 || k >= lines.len() {
        TraceLookup::NotFound
    } else {
        match regex_captures(pattern, lines[k]) {
            None => trace_lookup_from(pattern, lines, content, k + 1),
            Some(m) => if m.1.len() < 2 || m.1[1] is None || !has_address(content) {
                TraceLookup::Malformed
            } else if m.1[1].unwrap() == address_of(content) {
                if m.1.len() < 3 || m.1[2] is None {
                    TraceLookup::Malformed
                } else {
                    TraceLookup::Found(m.1[2].unwrap())
                }
            } else {
                trace_lookup_from(pattern, lines, content, k + 1)
            },
        }
    }
}

/// The target that the branch trace `trace` records for the instruction `content`.
pub open spec fn trace_lookup(pattern: Seq<char>, trace: Seq<char>, content: Seq<char>) -> TraceLookup {
    trace_lookup_from(pattern, crate::text::lines(trace), content, 0)
}

/// `Err` for a malformed lookup, `Ok(None)` where the trace has no record.
fn trace_target(content: &str, lines: &Vec<String>, regex: &Pattern) -> (r: Result<Option<String>, ()>)
    ensures
        r is Err <==> trace_lookup_from(regex@, lines.deep_view(), content@, 0) is Malformed,
        r matches Ok(Some(t)) ==> trace_lookup_from(regex@, lines.deep_view(), content@, 0)
            == TraceLookup::Found(t@),
        r matches Ok(None) ==> trace_lookup_from(regex@, lines.deep_view(), content@, 0) is NotFound,
{
    let v = chars_of(content);
    let colon = chars_of(":");
    let found = find_exec(v.as_slice(), colon.as_slice());
    let address: Option<String> = match found {
        Some(k) => {
            proof {
                lemma_find_from(v@, colon@, 0);
            }
            Some(crate::text::string_of(v.as_slice(), 0, k))
        },
        None => None,
    };
    assert(address matches Some(a) ==> has_address(content@) && a@ == address_of(content@));
    let mut k: usize = 0;
    while k < lines.len()
        invariant
            address is None <==> !has_address(content@),
            address matches Some(a) ==> a@ == address_of(content@),
            k <= lines@.len(),
            trace_lookup_from(regex@, lines.deep_view(), content@, 0) == trace_lookup_from(
                regex@,
                lines.deep_view(),
                content@,
                k as int,
            ),
        decreases lines@.len() - k,
    {
        match regex.captures(lines[k].as_str()) {
            None => {},
            Some(m) => {
                if m.groups.len() < 2 {
                    return Err(());
                }
                let g1 = match &m.groups[1] {
                    Some(g) => g,
                    None => {
                        return Err(());
                    },
                };
                let a = match &address {
                    Some(a) => a,
                    None => {
                        return Err(());
                    },
                };
                if str_eq(g1.as_str(), a.as_str()) {
                    if m.groups.len() < 3 {
                        return Err(());
                    }
                    return match &m.groups[2] {
                        Some(t) => Ok(Some(t.clone())),
                        None => Err(()),
                    };
                }
            },
        }
        k = k + 1;
    }
    Ok(None)
}

impl AssemblyInstruction {
    /// The target of this indirect branch as the branch trace `trace` records it:
    /// group 2 of the first line where `indirect_branch_in_trace_regex` matches
    /// with group 1 equal to this instruction's address.
    pub fn extract_target_address_from_gem5_trace(
        &self,
        trace: &str,
        indirect_branch_in_trace_regex: &Pattern,
    ) -> (r: Result<String, String>)
        requires
            !(trace_lookup(indirect_branch_in_trace_regex@, trace@, self@.content) is Malformed),
        ensures
            trace_lookup(indirect_branch_in_trace_regex@, trace@, self@.content) matches TraceLookup::Found(t)
                ==> (r matches Ok(s) && s@ == t),
            trace_lookup(indirect_branch_in_trace_regex@, trace@, self@.content) is NotFound
                ==> (r matches Err(e) && e@
                == "No dynamic target address was found for the assembly instruction: \""@
                + self@.content + "\" on line: "@ + crate::text::digits_str(
                self.asm_line_number as nat,
                10,
            )),
    {
        let lines = crate::text::lines_of(trace);
        match trace_target(self.content.as_str(), &lines, indirect_branch_in_trace_regex) {
            Ok(Some(t)) => Ok(t),
            _ => Err(
                String::from_str("No dynamic target address was found for the assembly instruction: \"").concat(
                    self.content.as_str(),
                ).concat("\" on line: ").concat(
                    crate::text::format_radix(self.asm_line_number, 10).as_str(),
                ),
            ),
        }
    }

    /// The target of this indirect branch as the branch trace `trace` records
    /// it (see [`Self::extract_target_address_from_gem5_trace`]), or `None`
    /// where a line of the trace matches the expression without the groups
    /// that the lookup reads, or this instruction has no address.
    pub fn try_extract_target_address_from_gem5_trace(
        &self,
        trace: &str,
        indirect_branch_in_trace_regex: &Pattern,
    ) -> (r: Option<Result<String, String>>)
        ensures
            r is None <==> trace_lookup(indirect_branch_in_trace_regex@, trace@, self@.content) is Malformed,
            trace_lookup(indirect_branch_in_trace_regex@, trace@, self@.content) matches TraceLookup::Found(t)
                ==> (r matches Some(Ok(s)) && s@ == t),
            trace_lookup(indirect_branch_in_trace_regex@, trace@, self@.content) is NotFound
                ==> (r matches Some(Err(e)) && e@
                == "No dynamic target address was found for the assembly instruction: \""@
                + self@.content + "\" on line: "@ + crate::text::digits_str(
                self.asm_line_number as nat,
                10,
            )),
    {
        let lines = crate::text::lines_of(trace);
        match trace_target(self.content.as_str(), &lines, indirect_branch_in_trace_regex) {
            Err(()) => None,
            Ok(_) => Some(self.extract_target_address_from_gem5_trace(trace, indirect_branch_in_trace_regex)),
        }
    }
}

} // verus!

verus! {

/// Why the targets of a program's control transfer instructions could not be
/// resolved; each names the instruction where the resolution stopped.
#[derive(PartialEq, Eq, Clone, Copy, Debug, Structural)]
pub enum ResolveError {
    /// No subroutine label holds `<main>:`.
    NoMainSubroutine,
    /// A direct branch line has fewer than four whitespace-separated words.
    NoTargetOperand(AssemblyInstructionId),
    /// No instruction has the target address (or the search met a line without an address).
    UnknownTarget(AssemblyInstructionId),
    /// The branch trace records no target for an indirect branch.
    NoTraceTarget(AssemblyInstructionId),
    /// A `ret` with no pending call that is not the last instruction of `main`.
    EmptyReturnStack(AssemblyInstructionId),
    /// The resolution went on for more steps than a `u64` counts.
    StepLimit,
}

/// `t` with its target set to `tid` (an instruction of no control transfer keeps none).
pub open spec fn with_target(t: InstTypeView, tid: AssemblyInstructionId) -> InstTypeView {
    match t {
        InstTypeView::CtiConditional(n, _) => InstTypeView::CtiConditional(n, Some(tid)),
        InstTypeView::CtiUnconditional(n, _) => InstTypeView::CtiUnconditional(n, Some(tid)),
        InstTypeView::Ncti(n) => InstTypeView::Ncti(n),
    }
}

/// `subs` with the target of the instruction at `(i, j)` set to `tid`.
pub open spec fn set_target(
    subs: Seq<SubroutineView>,
    i: int,
    j: int,
    tid: AssemblyInstructionId,
) -> Seq<SubroutineView> {
    subs.update(
        i,
        SubroutineView {
            asm_insts: subs[i].asm_insts.update(
                j,
                InstView { inst_type: with_target(subs[i].asm_insts[j].inst_type, tid), ..subs[i].asm_insts[j] },
            ),
            ..subs[i]
        },
    )
}

/// The position of the instruction at address `addr`, where the search finds one.
pub open spec fn lookup_address(subs: Seq<SubroutineView>, addr: Seq<char>) -> Option<AssemblyInstructionId> {
    if address_search_defined(subs, addr) && !no_address(subs, addr) {
        let (i, j) = position_of_address(subs, addr).unwrap();
        Some(AssemblyInstructionId { subroutine_index: i as usize, asm_inst_index: j as usize })
    } else {
        None
    }
}

/// The target of a direct branch: the instruction at the address that is the
/// fourth word of its line.
pub open spec fn operand_target(
    subs: Seq<SubroutineView>,
    content: Seq<char>,
    here: AssemblyInstructionId,
) -> Result<AssemblyInstructionId, ResolveError> {
    let words = crate::text::tokens(content);
    if words.len() <= 3 {
        Err(ResolveError::NoTargetOperand(here))
    } else {
        match lookup_address(subs, words[3]) {
            Some(tid) => Ok(tid),
            None => Err(ResolveError::UnknownTarget(here)),
        }
    }
}

/// The target of an indirect branch: the instruction at the address that the
/// branch trace records for it.
pub open spec fn trace_branch_target(
    subs: Seq<SubroutineView>,
    content: Seq<char>,
    here: AssemblyInstructionId,
    trace: Seq<char>,
    pattern: Seq<char>,
) -> Result<AssemblyInstructionId, ResolveError> {
    match trace_lookup(pattern, trace, content) {
        TraceLookup::Found(a) => match lookup_address(subs, a) {
            Some(tid) => Ok(tid),
            None => Err(ResolveError::UnknownTarget(here)),
        },
        _ => Err(ResolveError::NoTraceTarget(here)),
    }
}

/// The state of the target resolution: the subroutines so far, the position of
/// the instruction to look at next, the return positions of the pending calls,
/// and the outcome once the resolution has stopped.
pub struct ResolveState {
    pub subs: Seq<SubroutineView>,
    pub i: int,
    pub j: int,
    pub stack: Seq<AssemblyInstructionId>,
    pub outcome: Option<Result<(), ResolveError>>,
}

/// `s` stopped with `outcome`.
pub open spec fn stop(s: ResolveState, outcome: Result<(), ResolveError>) -> ResolveState {
    ResolveState { outcome: Some(outcome), ..s }
}

/// `s` after the instruction at its position got the target `tid` and the
/// resolution moved on to the next instruction.
pub open spec fn resolved_next(s: ResolveState, tid: AssemblyInstructionId) -> ResolveState {
    ResolveState { subs: set_target(s.subs, s.i, s.j, tid), j: s.j + 1, ..s }
}

/// `s` after the instruction at its position got the target `tid` and the
/// resolution went on at `tid`, with `stack` as the pending calls.
pub open spec fn resolved_jump(
    s: ResolveState,
    tid: AssemblyInstructionId,
    stack: Seq<AssemblyInstructionId>,
) -> ResolveState {
    ResolveState {
        subs: set_target(s.subs, s.i, s.j, tid),
        i: tid.subroutine_index as int,
        j: tid.asm_inst_index as int,
        stack,
        ..s
    }
}

/// One step of the resolution, which follows the program from `main` along
/// calls (`bl`, `blr`) and returns (`ret`), and records at each control transfer
/// instruction the position of its target.
pub open spec fn resolve_step(
    s: ResolveState,
    trace: Seq<char>,
    pattern: Seq<char>,
    main: int,
) -> ResolveState {
    let subs = s.subs;
    if s.i < 0 || s.j < 0 || s.i >= subs.len() {
        stop(s, Ok(()))
    } else if s.j >= subs[s.i].asm_insts.len() {
        ResolveState { i: s.i + 1, ..s }
    } else {
        let inst = subs[s.i].asm_insts[s.j];
        let here = AssemblyInstructionId { subroutine_index: s.i as usize, asm_inst_index: s.j as usize };
        let return_id = AssemblyInstructionId {
            subroutine_index: s.i as usize,
            asm_inst_index: (s.j + 1) as usize,
        };
        match inst.inst_type {
            InstTypeView::Ncti(_) => ResolveState { j: s.j + 1, ..s },
            InstTypeView::CtiConditional(_, _) => match operand_target(subs, inst.content, here) {
                Ok(tid) => resolved_next(s, tid),
                Err(e) => stop(s, Err(e)),
            },
            InstTypeView::CtiUnconditional(name, _) => if name == "bl"@ {
                match operand_target(subs, inst.content, here) {
                    Ok(tid) => resolved_jump(s, tid, s.stack.push(return_id)),
                    Err(e) => stop(s, Err(e)),
                }
            } else if name == "blr"@ {
                match trace_branch_target(subs, inst.content, here, trace, pattern) {
                    Ok(tid) => resolved_jump(s, tid, s.stack.push(return_id)),
                    Err(e) => stop(s, Err(e)),
                }
            } else if name == "br"@ {
                match trace_branch_target(subs, inst.content, here, trace, pattern) {
                    Ok(tid) => resolved_next(s, tid),
                    Err(e) => stop(s, Err(e)),
                }
            } else if name == "ret"@ {
                if s.stack.len() > 0 {
                    resolved_jump(s, s.stack.last(), s.stack.drop_last())
                } else if s.i == main && s.j == subs[s.i].asm_insts.len() - 1 {
                    stop(s, Ok(()))
                } else {
                    stop(s, Err(ResolveError::EmptyReturnStack(here)))
                }
            } else {
                match operand_target(subs, inst.content, here) {
                    Ok(tid) => resolved_next(s, tid),
                    Err(e) => stop(s, Err(e)),
                }
            },
        }
    }
}

/// At most `fuel` steps of the resolution from `s`.
pub open spec fn resolve_run(
    s: ResolveState,
    trace: Seq<char>,
    pattern: Seq<char>,
    main: int,
    fuel: nat,
) -> ResolveState
    decreases fuel,
{
    if s.outcome is Some || fuel == 0 {
        s
    } else {
        resolve_run(resolve_step(s, trace, pattern, main), trace, pattern, main, (fuel - 1) as nat)
    }
}

/// The number of steps the resolution may take.
pub open spec fn resolve_fuel() -> nat {
    u64::MAX as nat
}

/// The index of the `main` subroutine, if there is one.
pub open spec fn main_index(subs: Seq<SubroutineView>) -> Option<int> {
    if exists|i: int| is_first_main(subs, i) {
        Some(choose|i: int| is_first_main(subs, i))
    } else {
        None
    }
}

/// The outcome of resolving the targets of `subs`, with the subroutines as the
/// resolution left them.
pub open spec fn resolve_targets(subs: Seq<SubroutineView>, trace: Seq<char>, pattern: Seq<char>) -> ResolveState {
    match main_index(subs) {
        None => ResolveState {
            subs,
            i: 0,
            j: 0,
            stack: seq![],
            outcome: Some(Err(ResolveError::NoMainSubroutine)),
        },
        Some(main) => finish_resolution(
            resolve_run(
                ResolveState { subs, i: main, j: 0, stack: seq![], outcome: None },
                trace,
                pattern,
                main,
                resolve_fuel(),
            ),
        ),
    }
}

/// The state that the resolution ends in: `last`, or `last` stopped at the step limit.
pub open spec fn finish_resolution(last: ResolveState) -> ResolveState {
    if last.outcome is None {
        stop(last, Err(ResolveError::StepLimit))
    } else {
        last
    }
}

pub proof fn lemma_first_main_unique(subs: Seq<SubroutineView>, a: int, b: int)
    requires
        is_first_main(subs, a),
        is_first_main(subs, b),
    ensures
        a == b,
{
    if a < b {
        assert(!is_main_label(subs[a].definition_label));
    } else if b < a {
        assert(!is_main_label(subs[b].definition_label));
    }
}

proof fn lemma_lookup_address(subs: Seq<SubroutineView>, addr: Seq<char>, i: int, j: int)
    requires
        first_with_address(subs, addr, i, j),
    ensures
        position_of_address(subs, addr) == Some((i, j)),
{
    let (a, b) = choose|a: int, b: int| first_with_address(subs, addr, a, b);
    lemma_first_with_address_unique(subs, addr, a, b, i, j);
}

/// The position of the instruction at address `address`, where the search finds one.
fn lookup_address_exec(subroutines: &[Subroutine], address: &str) -> (r: Option<AssemblyInstructionId>)
    ensures
        r == lookup_address(subroutines.deep_view(), address@),
{
    match scan_address(subroutines, address) {
        Ok(Some((i, j))) => {
            proof {
                lemma_lookup_address(subroutines.deep_view(), address@, i as int, j as int);
            }
            Some(AssemblyInstructionId { subroutine_index: i, asm_inst_index: j })
        },
        _ => None,
    }
}

fn operand_target_exec(subroutines: &[Subroutine], content: &str, here: AssemblyInstructionId) -> (r:
    Result<AssemblyInstructionId, ResolveError>)
    ensures
        r == operand_target(subroutines.deep_view(), content@, here),
{
    match crate::text::nth_token(content, 3) {
        None => Err(ResolveError::NoTargetOperand(here)),
        Some(address) => match lookup_address_exec(subroutines, address.as_str()) {
            Some(tid) => Ok(tid),
            None => Err(ResolveError::UnknownTarget(here)),
        },
    }
}

fn trace_branch_target_exec(
    subroutines: &[Subroutine],
    content: &str,
    here: AssemblyInstructionId,
    trace_lines: &Vec<String>,
    trace: Ghost<Seq<char>>,
    regex: &Pattern,
) -> (r: Result<AssemblyInstructionId, ResolveError>)
    requires
        trace_lines.deep_view() == crate::text::lines(trace@),
    ensures
        r == trace_branch_target(subroutines.deep_view(), content@, here, trace@, regex@),
{
    match trace_target(content, trace_lines, regex) {
        Ok(Some(address)) => match lookup_address_exec(subroutines, address.as_str()) {
            Some(tid) => Ok(tid),
            None => Err(ResolveError::UnknownTarget(here)),
        },
        _ => Err(ResolveError::NoTraceTarget(here)),
    }
}

/// Sets the target of the instruction at `(i, j)`.
fn set_target_exec(subroutines: &mut [Subroutine], i: usize, j: usize, tid: AssemblyInstructionId)
    requires
        valid_pos(old(subroutines).deep_view(), i as int, j as int),
    ensures
        final(subroutines).deep_view() == set_target(old(subroutines).deep_view(), i as int, j as int, tid),
{
    let t = match &subroutines[i].asm_insts[j].inst_type {
        AssemblyInstructionType::CtiConditional(n, _) => AssemblyInstructionType::CtiConditional(n.clone(), Some(tid)),
        AssemblyInstructionType::CtiUnconditional(n, _) => AssemblyInstructionType::CtiUnconditional(n.clone(), Some(tid)),
        AssemblyInstructionType::Ncti(n) => AssemblyInstructionType::Ncti(n.clone()),
    };
    subroutines[i].asm_insts[j].inst_type = t;
    assert(subroutines.deep_view()[i as int].asm_insts =~= set_target(old(subroutines).deep_view(), i as int, j as int, tid)[i as int].asm_insts);
    assert(subroutines.deep_view() =~= set_target(old(subroutines).deep_view(), i as int, j as int, tid));
}

} // verus!

verus! {

/// What the resolution does at an instruction, by its kind and mnemonic.
enum Action {
    Next,
    Conditional,
    Call,
    IndirectCall,
    IndirectJump,
    Return,
    Jump,
}

fn action_of(t: &AssemblyInstructionType) -> (r: Action)
    ensures
        match t@ {
            InstTypeView::Ncti(_) => r is Next,
            InstTypeView::CtiConditional(_, _) => r is Conditional,
            InstTypeView::CtiUnconditional(name, _) => if name == "bl"@ {
                r is Call
            } else if name == "blr"@ {
                r is IndirectCall
            } else if name == "br"@ {
                r is IndirectJump
            } else if name == "ret"@ {
                r is Return
            } else {
                r is Jump
            },
        },
{
    match t {
        AssemblyInstructionType::Ncti(_) => Action::Next,
        AssemblyInstructionType::CtiConditional(_, _) => Action::Conditional,
        AssemblyInstructionType::CtiUnconditional(name, _) => {
            if str_eq(name.as_str(), "bl") {
                Action::Call
            } else if str_eq(name.as_str(), "blr") {
                Action::IndirectCall
            } else if str_eq(name.as_str(), "br") {
                Action::IndirectJump
            } else if str_eq(name.as_str(), "ret") {
                Action::Return
            } else {
                Action::Jump
            }
        },
    }
}

/// Follows the program from its `main` subroutine along calls and returns and
/// records at each control transfer instruction it meets the position of its
/// target: for a direct branch the instruction at the address that is the
/// fourth word of its line, for `blr` and `br` the instruction at the address
/// that the branch trace `trace` records, for `ret` the instruction after the
/// pending call. It stops at the `ret` that ends `main`, or after the last
/// subroutine. Some subroutine label must hold `<main>:`.
pub fn compute_target_ids(
    subroutines: &mut [Subroutine],
    trace: &str,
    gem5_trace_indirect_branch_regex: &Pattern,
) -> (r: Result<(), ResolveError>)
    requires
        main_index(old(subroutines).deep_view()) is Some,
    ensures
        final(subroutines).deep_view() == resolve_targets(
            old(subroutines).deep_view(),
            trace@,
            gem5_trace_indirect_branch_regex@,
        ).subs,
        Some(r) == resolve_targets(
            old(subroutines).deep_view(),
            trace@,
            gem5_trace_indirect_branch_regex@,
        ).outcome,
{
    let ghost pattern = gem5_trace_indirect_branch_regex@;
    let ghost subs0 = subroutines.deep_view();
    let main = match find_main_subroutine(subroutines) {
        Some(m) => m,
        None => {
            return Err(ResolveError::NoMainSubroutine);
        },
    };
    proof {
        let m = choose|k: int| is_first_main(subs0, k);
        lemma_first_main_unique(subs0, m, main as int);
    }
    let trace_lines = crate::text::lines_of(trace);
    let mut i: usize = main;
    let mut j: usize = 0;
    let mut stack: Vec<AssemblyInstructionId> = Vec::new();
    let mut fuel: u64 = u64::MAX;
    let ghost init = ResolveState { subs: subs0, i: main as int, j: 0, stack: seq![], outcome: None };
    loop
        invariant
            trace_lines.deep_view() == crate::text::lines(trace@),
            pattern == gem5_trace_indirect_branch_regex@,
            subs0 == old(subroutines).deep_view(),
            main_index(subs0) == Some(main as int),
            resolve_targets(subs0, trace@, pattern) == finish_resolution(
                resolve_run(init, trace@, pattern, main as int, resolve_fuel()),
            ),
            resolve_run(
                ResolveState {
                    subs: subroutines.deep_view(),
                    i: i as int,
                    j: j as int,
                    stack: stack@,
                    outcome: None,
                },
                trace@,
                pattern,
                main as int,
                fuel as nat,
            ) == resolve_run(init, trace@, pattern, main as int, resolve_fuel()),
        decreases fuel,
    {
        let ghost cur = ResolveState {
            subs: subroutines.deep_view(),
            i: i as int,
            j: j as int,
            stack: stack@,
            outcome: None,
        };
        if fuel == 0 {
            assert(resolve_run(cur, trace@, pattern, main as int, 0) == cur);
            assert(resolve_targets(subs0, trace@, pattern) == stop(cur, Err(ResolveError::StepLimit)));
            assert(cur.subs == subroutines.deep_view());
            assert(subs0 == old(subroutines).deep_view());
            return Err(ResolveError::StepLimit);
        }
        let ghost next = resolve_step(cur, trace@, pattern, main as int);
        assert(resolve_run(cur, trace@, pattern, main as int, fuel as nat) == resolve_run(
            next,
            trace@,
            pattern,
            main as int,
            (fuel - 1) as nat,
        ));
        if i >= subroutines.len() {
            assert(resolve_run(next, trace@, pattern, main as int, (fuel - 1) as nat) == next);
                assert(resolve_targets(subs0, trace@, pattern) == next);
                assert(next.subs == subroutines.deep_view());
                assert(subs0 == old(subroutines).deep_view());
            return Ok(());
        }
        let len = subroutines[i].asm_insts.len();
        if j >= len {
            i = i + 1;
            fuel = fuel - 1;
            continue;
        }
        let here = AssemblyInstructionId { subroutine_index: i, asm_inst_index: j };
        let return_id = AssemblyInstructionId { subroutine_index: i, asm_inst_index: j + 1 };
        let action = action_of(&subroutines[i].asm_insts[j].inst_type);
        let content = subroutines[i].asm_insts[j].content.clone();
        assert(content@ == cur.subs[i as int].asm_insts[j as int].content);
        match action {
            Action::Next => {
                j = j + 1;
            },
            Action::Conditional | Action::Jump => {
                match operand_target_exec(subroutines, content.as_str(), here) {
                    Ok(tid) => {
                        set_target_exec(subroutines, i, j, tid);
                        j = j + 1;
                    },
                    Err(e) => {
                        assert(resolve_run(next, trace@, pattern, main as int, (fuel - 1) as nat) == next);
                assert(resolve_targets(subs0, trace@, pattern) == next);
                assert(next.subs == subroutines.deep_view());
                assert(subs0 == old(subroutines).deep_view());
                        return Err(e);
                    },
                }
            },
            Action::Call => {
                match operand_target_exec(subroutines, content.as_str(), here) {
                    Ok(tid) => {
                        set_target_exec(subroutines, i, j, tid);
                        stack.push(return_id);
                        i = tid.subroutine_index;
                        j = tid.asm_inst_index;
                    },
                    Err(e) => {
                        assert(resolve_run(next, trace@, pattern, main as int, (fuel - 1) as nat) == next);
                assert(resolve_targets(subs0, trace@, pattern) == next);
                assert(next.subs == subroutines.deep_view());
                assert(subs0 == old(subroutines).deep_view());
                        return Err(e);
                    },
                }
            },
            Action::IndirectCall | Action::IndirectJump => {
                match trace_branch_target_exec(
                    subroutines,
                    content.as_str(),
                    here,
                    &trace_lines,
                    Ghost(trace@),
                    gem5_trace_indirect_branch_regex,
                ) {
                    Ok(tid) => {
                        set_target_exec(subroutines, i, j, tid);
                        if let Action::IndirectCall = action {
                            stack.push(return_id);
                            i = tid.subroutine_index;
                            j = tid.asm_inst_index;
                        } else {
                            j = j + 1;
                        }
                    },
                    Err(e) => {
                        assert(resolve_run(next, trace@, pattern, main as int, (fuel - 1) as nat) == next);
                assert(resolve_targets(subs0, trace@, pattern) == next);
                assert(next.subs == subroutines.deep_view());
                assert(subs0 == old(subroutines).deep_view());
                        return Err(e);
                    },
                }
            },
            Action::Return => {
                if stack.len() > 0 {
                    let rid = stack.pop().unwrap();
                    set_target_exec(subroutines, i, j, rid);
                    i = rid.subroutine_index;
                    j = rid.asm_inst_index;
                } else if i == main && j == len - 1 {
                    assert(resolve_run(next, trace@, pattern, main as int, (fuel - 1) as nat) == next);
                assert(resolve_targets(subs0, trace@, pattern) == next);
                assert(next.subs == subroutines.deep_view());
                assert(subs0 == old(subroutines).deep_view());
                    return Ok(());
                } else {
                    assert(resolve_run(next, trace@, pattern, main as int, (fuel - 1) as nat) == next);
                assert(resolve_targets(subs0, trace@, pattern) == next);
                assert(next.subs == subroutines.deep_view());
                assert(subs0 == old(subroutines).deep_view());
                    return Err(ResolveError::EmptyReturnStack(here));
                }
            },
        }
        assert(ResolveState {
            subs: subroutines.deep_view(),
            i: i as int,
            j: j as int,
            stack: stack@,
            outcome: None,
        } == next);
        fuel = fuel - 1;
    }
}

} // verus!

verus! {

impl AssemblyInstruction {
    /// Whether `get_target_ids` can be called on this instruction.
    pub fn target_ids_are_defined(&self, subroutines: &[Subroutine]) -> (r: bool)
        ensures
            r == target_ids_defined(self@, subroutines.deep_view()),
    {
        match &self.inst_type {
            AssemblyInstructionType::CtiConditional(_, ta) => {
                ta.is_some() && self.id.subroutine_index < subroutines.len()
                    && self.id.asm_inst_index < subroutines[self.id.subroutine_index].asm_insts.len()
                    && self.id.asm_inst_index + 1 < subroutines[self.id.subroutine_index].asm_insts.len()
            },
            AssemblyInstructionType::CtiUnconditional(name, ta) => {
                if ta.is_none() {
                    return false;
                }
                if !str_eq(name.as_str(), "ret") {
                    return true;
                }
                let v = chars_of(self.content.as_str());
                let colon = chars_of(":");
                if find_exec(v.as_slice(), colon.as_slice()).is_none() {
                    return false;
                }
                match scan_address(subroutines, self.get_address()) {
                    Ok(Some(_)) => true,
                    _ => false,
                }
            },
            AssemblyInstructionType::Ncti(_) => true,
        }
    }
}

} // verus!

verus! {

/// An instruction whose mnemonic is that of the branch type `b` has the branch
/// condition of `b`, and its complement.
pub proof fn lemma_condition_of_mnemonic(b: BranchType)
    ensures
        condition_of_name(b.spec_value()) == b.spec_branch_condition(),
        condition_complement_of_name(b.spec_value()) == b.spec_branch_condition_complement(),
{
    crate::module::instruction::lemma_branch_type_named_value(b);
}

} // verus!

verus! {

/// `t` without its target.
pub open spec fn untargeted(t: InstTypeView) -> InstTypeView {
    match t {
        InstTypeView::CtiConditional(n, _) => InstTypeView::CtiConditional(n, None),
        InstTypeView::CtiUnconditional(n, _) => InstTypeView::CtiUnconditional(n, None),
        InstTypeView::Ncti(n) => InstTypeView::Ncti(n),
    }
}

/// `subs` with the targets of all instructions forgotten.
pub open spec fn without_targets(subs: Seq<SubroutineView>) -> Seq<SubroutineView> {
    subs.map_values(
        |s: SubroutineView|
            SubroutineView {
                asm_insts: s.asm_insts.map_values(|x: InstView| InstView { inst_type: untargeted(x.inst_type), ..x }),
                ..s
            },
    )
}

proof fn lemma_set_target_keeps(subs: Seq<SubroutineView>, i: int, j: int, tid: AssemblyInstructionId)
    requires
        valid_pos(subs, i, j),
    ensures
        without_targets(set_target(subs, i, j, tid)) == without_targets(subs),
{
    let a = without_targets(set_target(subs, i, j, tid));
    let b = without_targets(subs);
    assert forall|k: int| 0 <= k < a.len() implies a[k] == b[k] by {
        if k == i {
            assert(a[k].asm_insts =~= b[k].asm_insts);
        }
    }
    assert(a =~= b);
}

proof fn lemma_resolve_step_keeps(s: ResolveState, trace: Seq<char>, pattern: Seq<char>, main: int)
    ensures
        without_targets(resolve_step(s, trace, pattern, main).subs) == without_targets(s.subs),
{
    if 0 <= s.i < s.subs.len() && 0 <= s.j < s.subs[s.i].asm_insts.len() {
        let r = resolve_step(s, trace, pattern, main);
        if r.subs != s.subs {
            let tid = choose|tid: AssemblyInstructionId| r.subs == set_target(s.subs, s.i, s.j, tid);
            lemma_set_target_keeps(s.subs, s.i, s.j, tid);
        }
    }
}

proof fn lemma_resolve_run_keeps(s: ResolveState, trace: Seq<char>, pattern: Seq<char>, main: int, fuel: nat)
    ensures
        without_targets(resolve_run(s, trace, pattern, main, fuel).subs) == without_targets(s.subs),
    decreases fuel,
{
    if s.outcome is None && fuel > 0 {
        lemma_resolve_step_keeps(s, trace, pattern, main);
        lemma_resolve_run_keeps(resolve_step(s, trace, pattern, main), trace, pattern, main, (fuel - 1) as nat);
    }
}

/// Resolving the targets changes nothing but the targets of the control
/// transfer instructions: the subroutines, their labels, lines and flags, and
/// the instructions with their positions, lines, texts and mnemonics stay.
pub proof fn lemma_resolution_keeps_instructions(subs: Seq<SubroutineView>, trace: Seq<char>, pattern: Seq<char>)
    ensures
        without_targets(resolve_targets(subs, trace, pattern).subs) == without_targets(subs),
{
    if let Some(main) = main_index(subs) {
        lemma_resolve_run_keeps(
            ResolveState { subs, i: main, j: 0, stack: seq![], outcome: None },
            trace,
            pattern,
            main,
            resolve_fuel(),
        );
    }
}

} // verus!

verus! {

/// The condition of a control transfer instruction with mnemonic `name`.
pub open spec fn condition_formula_of_name(name: Seq<char>) -> crate::module::instruction::Condition {
    match branch_type_named(name) {
        Some(BranchType::ConditionalBranch(c)) => c.condition(),
        _ => crate::module::instruction::Condition::Always,
    }
}

/// The complement branch condition of an instruction is the negation of its
/// branch condition: the two texts write a condition and its negation, and the
/// complement holds exactly where the condition does not.
pub proof fn lemma_instruction_complement_is_negation(name: Seq<char>, f: crate::module::instruction::Flags)
    ensures
        crate::module::instruction::condition_text(condition_formula_of_name(name)) == condition_of_name(name),
        crate::module::instruction::condition_text(
            crate::module::instruction::negated(condition_formula_of_name(name)),
        ) == condition_complement_of_name(name),
        crate::module::instruction::condition_holds(
            crate::module::instruction::negated(condition_formula_of_name(name)),
            f,
        ) == !crate::module::instruction::condition_holds(condition_formula_of_name(name), f),
{
    if let Some(b) = branch_type_named(name) {
        crate::module::instruction::lemma_complement_is_negation(b, f);
    }
}

} // verus!

verus! {

/// The branch conditions that the mnemonics of the architecture stand for:
/// each conditional mnemonic names a conditional branch with its condition and
/// complement, and each unconditional one an unconditional branch, taken always.
#[verifier::spinoff_prover]
#[verifier::rlimit(100)]
pub proof fn lemma_mnemonic_conditions()
    ensures
        is_conditional_name("b.eq"@) && condition_of_name("b.eq"@) == "Z == 1"@ && condition_complement_of_name("b.eq"@) == "Z != 1"@,
        is_conditional_name("b.ne"@) && condition_of_name("b.ne"@) == "Z == 0"@ && condition_complement_of_name("b.ne"@) == "Z != 0"@,
        is_conditional_name("b.cs"@) && condition_of_name("b.cs"@) == "C == 1"@ && condition_complement_of_name("b.cs"@) == "C != 1"@,
        is_conditional_name("b.cc"@) && condition_of_name("b.cc"@) == "C == 0"@ && condition_complement_of_name("b.cc"@) == "C != 0"@,
        is_conditional_name("b.mi"@) && condition_of_name("b.mi"@) == "N == 1"@ && condition_complement_of_name("b.mi"@) == "N != 1"@,
        is_conditional_name("b.pl"@) && condition_of_name("b.pl"@) == "N == 0"@ && condition_complement_of_name("b.pl"@) == "N != 0"@,
        is_conditional_name("b.vs"@) && condition_of_name("b.vs"@) == "V == 1"@ && condition_complement_of_name("b.vs"@) == "V != 1"@,
        is_conditional_name("b.vc"@) && condition_of_name("b.vc"@) == "V == 0"@ && condition_complement_of_name("b.vc"@) == "V != 0"@,
        is_conditional_name("b.hi"@) && condition_of_name("b.hi"@) == "C == 1 and Z == 0"@ && condition_complement_of_name("b.hi"@) == "C != 1 or Z != 0"@,
        is_conditional_name("b.ls"@) && condition_of_name("b.ls"@) == "C == 0 or Z == 1"@ && condition_complement_of_name("b.ls"@) == "C != 0 and Z != 1"@,
        is_conditional_name("b.ge"@) && condition_of_name("b.ge"@) == "N == V"@ && condition_complement_of_name("b.ge"@) == "N != V"@,
        is_conditional_name("b.lt"@) && condition_of_name("b.lt"@) == "N != V"@ && condition_complement_of_name("b.lt"@) == "N == V"@,
        is_conditional_name("b.gt"@) && condition_of_name("b.gt"@) == "Z == 0 and N == V"@ && condition_complement_of_name("b.gt"@) == "Z != 0 or N != V"@,
        is_conditional_name("b.le"@) && condition_of_name("b.le"@) == "Z == 1 or N != V"@ && condition_complement_of_name("b.le"@) == "Z != 1 and N == V"@,
        is_conditional_name("bc.eq"@) && condition_of_name("bc.eq"@) == "Z == 1"@ && condition_complement_of_name("bc.eq"@) == "Z != 1"@,
        is_conditional_name("bc.ne"@) && condition_of_name("bc.ne"@) == "Z == 0"@ && condition_complement_of_name("bc.ne"@) == "Z != 0"@,
        is_conditional_name("bc.cs"@) && condition_of_name("bc.cs"@) == "C == 1"@ && condition_complement_of_name("bc.cs"@) == "C != 1"@,
        is_conditional_name("bc.cc"@) && condition_of_name("bc.cc"@) == "C == 0"@ && condition_complement_of_name("bc.cc"@) == "C != 0"@,
        is_conditional_name("bc.mi"@) && condition_of_name("bc.mi"@) == "N == 1"@ && condition_complement_of_name("bc.mi"@) == "N != 1"@,
        is_conditional_name("bc.pl"@) && condition_of_name("bc.pl"@) == "N == 0"@ && condition_complement_of_name("bc.pl"@) == "N != 0"@,
        is_conditional_name("bc.vs"@) && condition_of_name("bc.vs"@) == "V == 1"@ && condition_complement_of_name("bc.vs"@) == "V != 1"@,
        is_conditional_name("bc.vc"@) && condition_of_name("bc.vc"@) == "V == 0"@ && condition_complement_of_name("bc.vc"@) == "V != 0"@,
        is_conditional_name("bc.hi"@) && condition_of_name("bc.hi"@) == "C == 1 and Z == 0"@ && condition_complement_of_name("bc.hi"@) == "C != 1 or Z != 0"@,
        is_conditional_name("bc.ls"@) && condition_of_name("bc.ls"@) == "C == 0 or Z == 1"@ && condition_complement_of_name("bc.ls"@) == "C != 0 and Z != 1"@,
        is_conditional_name("bc.ge"@) && condition_of_name("bc.ge"@) == "N == V"@ && condition_complement_of_name("bc.ge"@) == "N != V"@,
        is_conditional_name("bc.lt"@) && condition_of_name("bc.lt"@) == "N != V"@ && condition_complement_of_name("bc.lt"@) == "N == V"@,
        is_conditional_name("bc.gt"@) && condition_of_name("bc.gt"@) == "Z == 0 and N == V"@ && condition_complement_of_name("bc.gt"@) == "Z != 0 or N != V"@,
        is_conditional_name("bc.le"@) && condition_of_name("bc.le"@) == "Z == 1 or N != V"@ && condition_complement_of_name("bc.le"@) == "Z != 1 and N == V"@,
        is_conditional_name("cbz"@) && condition_of_name("cbz"@) == "register == 0"@ && condition_complement_of_name("cbz"@) == "register != 0"@,
        is_conditional_name("cbnz"@) && condition_of_name("cbnz"@) == "register != 0"@ && condition_complement_of_name("cbnz"@) == "register == 0"@,
        is_conditional_name("tbz"@) && condition_of_name("tbz"@) == "selected bit == 0"@ && condition_complement_of_name("tbz"@) == "selected bit != 0"@,
        is_conditional_name("tbnz"@) && condition_of_name("tbnz"@) == "selected bit == 1"@ && condition_complement_of_name("tbnz"@) == "selected bit != 1"@,
        branch_type_named("b"@) == Some(BranchType::UnconditionalBranch(UnconditionalBranch::B)) && condition_of_name("b"@) == "true"@ && condition_complement_of_name("b"@) == "false"@,
        branch_type_named("bl"@) == Some(BranchType::UnconditionalBranch(UnconditionalBranch::Bl)) && condition_of_name("bl"@) == "true"@ && condition_complement_of_name("bl"@) == "false"@,
        branch_type_named("ret"@) == Some(BranchType::UnconditionalBranch(UnconditionalBranch::Ret)) && condition_of_name("ret"@) == "true"@ && condition_complement_of_name("ret"@) == "false"@,
        branch_type_named("br"@) == Some(BranchType::UnconditionalBranch(UnconditionalBranch::Br)) && condition_of_name("br"@) == "true"@ && condition_complement_of_name("br"@) == "false"@,
        branch_type_named("blr"@) == Some(BranchType::UnconditionalBranch(UnconditionalBranch::Blr)) && condition_of_name("blr"@) == "true"@ && condition_complement_of_name("blr"@) == "false"@,
        branch_type_named("blraa"@) == Some(BranchType::UnconditionalBranch(UnconditionalBranch::Blraa)) && condition_of_name("blraa"@) == "true"@ && condition_complement_of_name("blraa"@) == "false"@,
        branch_type_named("blraaz"@) == Some(BranchType::UnconditionalBranch(UnconditionalBranch::Blraaz)) && condition_of_name("blraaz"@) == "true"@ && condition_complement_of_name("blraaz"@) == "false"@,
        branch_type_named("blrab"@) == Some(BranchType::UnconditionalBranch(UnconditionalBranch::Blrab)) && condition_of_name("blrab"@) == "true"@ && condition_complement_of_name("blrab"@) == "false"@,
        branch_type_named("blrabz"@) == Some(BranchType::UnconditionalBranch(UnconditionalBranch::Blrabz)) && condition_of_name("blrabz"@) == "true"@ && condition_complement_of_name("blrabz"@) == "false"@,
        branch_type_named("b.al"@) == Some(BranchType::UnconditionalBranch(UnconditionalBranch::BDotAl)) && condition_of_name("b.al"@) == "true"@ && condition_complement_of_name("b.al"@) == "false"@,
        branch_type_named("bc.al"@) == Some(BranchType::UnconditionalBranch(UnconditionalBranch::BCDotAl)) && condition_of_name("bc.al"@) == "true"@ && condition_complement_of_name("bc.al"@) == "false"@,
        branch_type_named("b.nv"@) == Some(BranchType::UnconditionalBranch(UnconditionalBranch::BDotNv)) && condition_of_name("b.nv"@) == "true"@ && condition_complement_of_name("b.nv"@) == "false"@,
        branch_type_named("bc.nv"@) == Some(BranchType::UnconditionalBranch(UnconditionalBranch::BCDotNv)) && condition_of_name("bc.nv"@) == "true"@ && condition_complement_of_name("bc.nv"@) == "false"@,
{
    crate::module::instruction::lemma_branch_type_named_value(BranchType::ConditionalBranch(ConditionalBranch::BDotEq));
    crate::module::instruction::lemma_branch_type_named_value(BranchType::ConditionalBranch(ConditionalBranch::BDotNe));
    crate::module::instruction::lemma_branch_type_named_value(BranchType::ConditionalBranch(ConditionalBranch::BDotCs));
    crate::module::instruction::lemma_branch_type_named_value(BranchType::ConditionalBranch(ConditionalBranch::BDotCc));
    crate::module::instruction::lemma_branch_type_named_value(BranchType::ConditionalBranch(ConditionalBranch::BDotMi));
    crate::module::instruction::lemma_branch_type_named_value(BranchType::ConditionalBranch(ConditionalBranch::BDotPl));
    crate::module::instruction::lemma_branch_type_named_value(BranchType::ConditionalBranch(ConditionalBranch::BDotVs));
    crate::module::instruction::lemma_branch_type_named_value(BranchType::ConditionalBranch(ConditionalBranch::BDotVc));
    crate::module::instruction::lemma_branch_type_named_value(BranchType::ConditionalBranch(ConditionalBranch::BDotHi));
    crate::module::instruction::lemma_branch_type_named_value(BranchType::ConditionalBranch(ConditionalBranch::BDotLs));
    crate::module::instruction::lemma_branch_type_named_value(BranchType::ConditionalBranch(ConditionalBranch::BDotGe));
    crate::module::instruction::lemma_branch_type_named_value(BranchType::ConditionalBranch(ConditionalBranch::BDotLt));
    crate::module::instruction::lemma_branch_type_named_value(BranchType::ConditionalBranch(ConditionalBranch::BDotGt));
    crate::module::instruction::lemma_branch_type_named_value(BranchType::ConditionalBranch(ConditionalBranch::BDotLe));
    crate::module::instruction::lemma_branch_type_named_value(BranchType::ConditionalBranch(ConditionalBranch::BCDotEq));
    crate::module::instruction::lemma_branch_type_named_value(BranchType::ConditionalBranch(ConditionalBranch::BCDotNe));
    crate::module::instruction::lemma_branch_type_named_value(BranchType::ConditionalBranch(ConditionalBranch::BCDotCs));
    crate::module::instruction::lemma_branch_type_named_value(BranchType::ConditionalBranch(ConditionalBranch::BCDotCc));
    crate::module::instruction::lemma_branch_type_named_value(BranchType::ConditionalBranch(ConditionalBranch::BCDotMi));
    crate::module::instruction::lemma_branch_type_named_value(BranchType::ConditionalBranch(ConditionalBranch::BCDotPl));
    crate::module::instruction::lemma_branch_type_named_value(BranchType::ConditionalBranch(ConditionalBranch::BCDotVs));
    crate::module::instruction::lemma_branch_type_named_value(BranchType::ConditionalBranch(ConditionalBranch::BCDotVc));
    crate::module::instruction::lemma_branch_type_named_value(BranchType::ConditionalBranch(ConditionalBranch::BCDotHi));
    crate::module::instruction::lemma_branch_type_named_value(BranchType::ConditionalBranch(ConditionalBranch::BCDotLs));
    crate::module::instruction::lemma_branch_type_named_value(BranchType::ConditionalBranch(ConditionalBranch::BCDotGe));
    crate::module::instruction::lemma_branch_type_named_value(BranchType::ConditionalBranch(ConditionalBranch::BCDotLt));
    crate::module::instruction::lemma_branch_type_named_value(BranchType::ConditionalBranch(ConditionalBranch::BCDotGt));
    crate::module::instruction::lemma_branch_type_named_value(BranchType::ConditionalBranch(ConditionalBranch::BCDotLe));
    crate::module::instruction::lemma_branch_type_named_value(BranchType::ConditionalBranch(ConditionalBranch::Cbz));
    crate::module::instruction::lemma_branch_type_named_value(BranchType::ConditionalBranch(ConditionalBranch::Cbnz));
    crate::module::instruction::lemma_branch_type_named_value(BranchType::ConditionalBranch(ConditionalBranch::Tbz));
    crate::module::instruction::lemma_branch_type_named_value(BranchType::ConditionalBranch(ConditionalBranch::Tbnz));
    crate::module::instruction::lemma_branch_type_named_value(BranchType::UnconditionalBranch(UnconditionalBranch::B));
    crate::module::instruction::lemma_branch_type_named_value(BranchType::UnconditionalBranch(UnconditionalBranch::Bl));
    crate::module::instruction::lemma_branch_type_named_value(BranchType::UnconditionalBranch(UnconditionalBranch::Ret));
    crate::module::instruction::lemma_branch_type_named_value(BranchType::UnconditionalBranch(UnconditionalBranch::Br));
    crate::module::instruction::lemma_branch_type_named_value(BranchType::UnconditionalBranch(UnconditionalBranch::Blr));
    crate::module::instruction::lemma_branch_type_named_value(BranchType::UnconditionalBranch(UnconditionalBranch::Blraa));
    crate::module::instruction::lemma_branch_type_named_value(BranchType::UnconditionalBranch(UnconditionalBranch::Blraaz));
    crate::module::instruction::lemma_branch_type_named_value(BranchType::UnconditionalBranch(UnconditionalBranch::Blrab));
    crate::module::instruction::lemma_branch_type_named_value(BranchType::UnconditionalBranch(UnconditionalBranch::Blrabz));
    crate::module::instruction::lemma_branch_type_named_value(BranchType::UnconditionalBranch(UnconditionalBranch::BDotAl));
    crate::module::instruction::lemma_branch_type_named_value(BranchType::UnconditionalBranch(UnconditionalBranch::BCDotAl));
    crate::module::instruction::lemma_branch_type_named_value(BranchType::UnconditionalBranch(UnconditionalBranch::BDotNv));
    crate::module::instruction::lemma_branch_type_named_value(BranchType::UnconditionalBranch(UnconditionalBranch::BCDotNv));
}

} // verus!

verus! {

/// An instruction kind whose target is the address written as the fourth word
/// of its line: a conditional branch, or an unconditional one other than
/// `blr`, `br` and `ret`.
pub open spec fn is_direct_branch(t: InstTypeView) -> bool {
    match t {
        InstTypeView::CtiConditional(_, _) => true,
        InstTypeView::CtiUnconditional(n, _) => n != "blr"@ && n != "br"@ && n != "ret"@,
        InstTypeView::Ncti(_) => false,
    }
}

/// An instruction kind whose target the branch trace records: `blr` or `br`.
pub open spec fn is_indirect_branch(t: InstTypeView) -> bool {
    match t {
        InstTypeView::CtiUnconditional(n, _) => n == "blr"@ || n == "br"@,
        _ => false,
    }
}

/// A `ret`.
pub open spec fn is_return(t: InstTypeView) -> bool {
    match t {
        InstTypeView::CtiUnconditional(n, _) => n == "ret"@,
        _ => false,
    }
}

/// A call: `bl` or `blr`.
pub open spec fn is_call_kind(t: InstTypeView) -> bool {
    match t {
        InstTypeView::CtiUnconditional(n, _) => n == "bl"@ || n == "blr"@,
        _ => false,
    }
}

/// `t` is the instruction right after a call of `subs`, in the same subroutine.
pub open spec fn follows_call(subs: Seq<SubroutineView>, t: AssemblyInstructionId) -> bool {
    t.asm_inst_index >= 1 && valid_pos(subs, t.subroutine_index as int, t.asm_inst_index - 1) && is_call_kind(
        inst_at(subs, t.subroutine_index as int, t.asm_inst_index - 1).inst_type,
    )
}

/// The target of `inst` is the first instruction of `subs` whose address is the
/// fourth whitespace-separated word of the line of `inst`.
pub open spec fn targets_operand_address(subs: Seq<SubroutineView>, inst: InstView) -> bool {
    let words = crate::text::tokens(inst.content);
    match inst.inst_type.target() {
        Some(t) => words.len() > 3 && first_with_address(
            subs,
            words[3],
            t.subroutine_index as int,
            t.asm_inst_index as int,
        ),
        None => false,
    }
}

/// The target of `inst` is the first instruction of `subs` at the address that
/// the branch trace records for the address of `inst`.
pub open spec fn targets_traced_address(
    subs: Seq<SubroutineView>,
    inst: InstView,
    trace: Seq<char>,
    pattern: Seq<char>,
) -> bool {
    match (inst.inst_type.target(), trace_lookup(pattern, trace, inst.content)) {
        (Some(t), TraceLookup::Found(a)) => first_with_address(
            subs,
            a,
            t.subroutine_index as int,
            t.asm_inst_index as int,
        ),
        _ => false,
    }
}

/// Every branch of `subs` whose target differs from the one it has in `subs0`
/// targets the first instruction of `subs0` at its operand address (a direct
/// branch), at the address that the trace records for it (`blr`, `br`), or
/// right after a call (`ret`).
pub open spec fn targets_sound(
    subs0: Seq<SubroutineView>,
    subs: Seq<SubroutineView>,
    trace: Seq<char>,
    pattern: Seq<char>,
) -> bool {
    forall|i: int, j: int|
        valid_pos(subs, i, j) && inst_at(subs, i, j).inst_type.target() != inst_at(
            subs0,
            i,
            j,
        ).inst_type.target() ==> (is_direct_branch(inst_at(subs, i, j).inst_type) ==> targets_operand_address(
            subs0,
            #[trigger] inst_at(subs, i, j),
        )) && (is_indirect_branch(inst_at(subs, i, j).inst_type) ==> targets_traced_address(
            subs0,
            inst_at(subs, i, j),
            trace,
            pattern,
        )) && (is_return(inst_at(subs, i, j).inst_type) ==> inst_at(subs, i, j).inst_type.target() is Some
            && follows_call(subs0, inst_at(subs, i, j).inst_type.target().unwrap()))
}

/// Every pending return position of `stack` comes right after a call of `subs`.
pub open spec fn stack_sound(subs: Seq<SubroutineView>, stack: Seq<AssemblyInstructionId>) -> bool {
    forall|k: int| 0 <= k < stack.len() ==> follows_call(subs, #[trigger] stack[k])
}

/// Every position of `subs` fits in a `usize`.
pub open spec fn positions_fit(subs: Seq<SubroutineView>) -> bool {
    subs.len() <= usize::MAX && forall|k: int| 0 <= k < subs.len() ==> #[trigger] subs[k].asm_insts.len() <= usize::MAX
}

proof fn lemma_same_skeleton(x: Seq<SubroutineView>, y: Seq<SubroutineView>)
    requires
        without_targets(x) == without_targets(y),
    ensures
        x.len() == y.len(),
        forall|k: int| 0 <= k < x.len() ==> #[trigger] x[k].asm_insts.len() == y[k].asm_insts.len(),
        forall|i: int, j: int| valid_pos(x, i, j) ==> #[trigger] inst_at(x, i, j).content == inst_at(y, i, j).content,
        forall|i: int, j: int|
            valid_pos(x, i, j) ==> untargeted(#[trigger] inst_at(x, i, j).inst_type) == untargeted(
                inst_at(y, i, j).inst_type,
            ),
{
    assert(x.len() == without_targets(x).len());
    assert(y.len() == without_targets(y).len());
    assert forall|k: int| 0 <= k < x.len() implies #[trigger] x[k].asm_insts.len() == y[k].asm_insts.len() by {
        assert(without_targets(x)[k].asm_insts.len() == x[k].asm_insts.len());
        assert(without_targets(y)[k].asm_insts.len() == y[k].asm_insts.len());
    }
    assert forall|i: int, j: int| valid_pos(x, i, j) implies #[trigger] inst_at(x, i, j).content == inst_at(
        y,
        i,
        j,
    ).content by {
        assert(without_targets(x)[i].asm_insts[j].content == x[i].asm_insts[j].content);
        assert(without_targets(y)[i].asm_insts.len() == y[i].asm_insts.len());
        assert(without_targets(y)[i].asm_insts[j].content == y[i].asm_insts[j].content);
    }
    assert forall|i: int, j: int| valid_pos(x, i, j) implies untargeted(#[trigger] inst_at(x, i, j).inst_type)
        == untargeted(inst_at(y, i, j).inst_type) by {
        assert(without_targets(x)[i].asm_insts[j].inst_type == untargeted(x[i].asm_insts[j].inst_type));
        assert(without_targets(y)[i].asm_insts.len() == y[i].asm_insts.len());
        assert(without_targets(y)[i].asm_insts[j].inst_type == untargeted(y[i].asm_insts[j].inst_type));
    }
}

proof fn lemma_scan_for_address(subs: Seq<SubroutineView>, addr: Seq<char>, i: int, j: int)
    requires
        address_search_defined(subs, addr),
        !no_address(subs, addr),
        0 <= i <= subs.len(),
        i < subs.len() ==> 0 <= j <= subs[i].asm_insts.len(),
        forall|i2: int, j2: int|
            valid_pos(subs, i2, j2) && precedes(i2, j2, i, j) ==> has_address(
                #[trigger] inst_at(subs, i2, j2).content,
            ) && address_of(inst_at(subs, i2, j2).content) != addr,
    ensures
        exists|a: int, b: int| first_with_address(subs, addr, a, b),
    decreases subs.len() - i, if i < subs.len() {
        subs[i].asm_insts.len() - j
    } else {
        0
    },
{
    if i == subs.len() {
        let (a, b) = choose|a: int, b: int| valid_pos(subs, a, b) && address_at(subs, a, b, addr);
        assert(precedes(a, b, i, j));
        assert(has_address(inst_at(subs, a, b).content));
    } else if j == subs[i].asm_insts.len() {
        assert forall|i2: int, j2: int|
            valid_pos(subs, i2, j2) && precedes(i2, j2, i + 1, 0) implies has_address(
                #[trigger] inst_at(subs, i2, j2).content,
            ) && address_of(inst_at(subs, i2, j2).content) != addr by {
            assert(precedes(i2, j2, i, j));
        }
        lemma_scan_for_address(subs, addr, i + 1, 0);
    } else {
        if !has_address(inst_at(subs, i, j).content) {
            let (a, b) = choose|a: int, b: int|
                valid_pos(subs, a, b) && precedes(a, b, i, j) && address_at(subs, a, b, addr);
            assert(has_address(inst_at(subs, a, b).content));
        }
        if address_of(inst_at(subs, i, j).content) == addr {
            assert(first_with_address(subs, addr, i, j));
        } else {
            assert forall|i2: int, j2: int|
                valid_pos(subs, i2, j2) && precedes(i2, j2, i, j + 1) implies has_address(
                    #[trigger] inst_at(subs, i2, j2).content,
                ) && address_of(inst_at(subs, i2, j2).content) != addr by {
                if !(i2 == i && j2 == j) {
                    assert(precedes(i2, j2, i, j));
                }
            }
            lemma_scan_for_address(subs, addr, i, j + 1);
        }
    }
}

proof fn lemma_lookup_address_first(subs: Seq<SubroutineView>, addr: Seq<char>)
    requires
        positions_fit(subs),
        lookup_address(subs, addr) is Some,
    ensures
        first_with_address(
            subs,
            addr,
            lookup_address(subs, addr).unwrap().subroutine_index as int,
            lookup_address(subs, addr).unwrap().asm_inst_index as int,
        ),
{
    lemma_scan_for_address(subs, addr, 0, 0);
    let (a, b) = choose|a: int, b: int| first_with_address(subs, addr, a, b);
    lemma_lookup_address(subs, addr, a, b);
    assert(subs[a].asm_insts.len() <= usize::MAX);
}

proof fn lemma_first_with_address_same_skeleton(
    x: Seq<SubroutineView>,
    y: Seq<SubroutineView>,
    addr: Seq<char>,
    i: int,
    j: int,
)
    requires
        without_targets(x) == without_targets(y),
        first_with_address(x, addr, i, j),
    ensures
        first_with_address(y, addr, i, j),
{
    lemma_same_skeleton(x, y);
    assert(inst_at(x, i, j).content == inst_at(y, i, j).content);
    assert forall|i2: int, j2: int| valid_pos(y, i2, j2) && precedes(i2, j2, i, j) implies has_address(
        #[trigger] inst_at(y, i2, j2).content,
    ) && address_of(inst_at(y, i2, j2).content) != addr by {
        assert(inst_at(x, i2, j2).content == inst_at(y, i2, j2).content);
    }
}

proof fn lemma_operand_target_first(
    subs: Seq<SubroutineView>,
    subs0: Seq<SubroutineView>,
    content: Seq<char>,
    here: AssemblyInstructionId,
)
    requires
        without_targets(subs) == without_targets(subs0),
        positions_fit(subs0),
        operand_target(subs, content, here) is Ok,
    ensures
        crate::text::tokens(content).len() > 3,
        first_with_address(
            subs0,
            crate::text::tokens(content)[3],
            operand_target(subs, content, here)->Ok_0.subroutine_index as int,
            operand_target(subs, content, here)->Ok_0.asm_inst_index as int,
        ),
{
    let addr = crate::text::tokens(content)[3];
    lemma_same_skeleton(subs, subs0);
    assert forall|k: int| 0 <= k < subs.len() implies #[trigger] subs[k].asm_insts.len() <= usize::MAX by {
        assert(subs0[k].asm_insts.len() <= usize::MAX);
    }
    lemma_lookup_address_first(subs, addr);
    let t = lookup_address(subs, addr).unwrap();
    lemma_first_with_address_same_skeleton(subs, subs0, addr, t.subroutine_index as int, t.asm_inst_index as int);
}

proof fn lemma_trace_target_first(
    subs: Seq<SubroutineView>,
    subs0: Seq<SubroutineView>,
    content: Seq<char>,
    here: AssemblyInstructionId,
    trace: Seq<char>,
    pattern: Seq<char>,
)
    requires
        without_targets(subs) == without_targets(subs0),
        positions_fit(subs0),
        trace_branch_target(subs, content, here, trace, pattern) is Ok,
    ensures
        trace_lookup(pattern, trace, content) is Found,
        first_with_address(
            subs0,
            trace_lookup(pattern, trace, content)->Found_0,
            trace_branch_target(subs, content, here, trace, pattern)->Ok_0.subroutine_index as int,
            trace_branch_target(subs, content, here, trace, pattern)->Ok_0.asm_inst_index as int,
        ),
{
    let addr = trace_lookup(pattern, trace, content)->Found_0;
    lemma_same_skeleton(subs, subs0);
    assert forall|k: int| 0 <= k < subs.len() implies #[trigger] subs[k].asm_insts.len() <= usize::MAX by {
        assert(subs0[k].asm_insts.len() <= usize::MAX);
    }
    lemma_lookup_address_first(subs, addr);
    let t = lookup_address(subs, addr).unwrap();
    lemma_first_with_address_same_skeleton(subs, subs0, addr, t.subroutine_index as int, t.asm_inst_index as int);
}

proof fn lemma_set_target_sound(
    subs: Seq<SubroutineView>,
    subs0: Seq<SubroutineView>,
    i: int,
    j: int,
    tid: AssemblyInstructionId,
    trace: Seq<char>,
    pattern: Seq<char>,
)
    requires
        valid_pos(subs, i, j),
        targets_sound(subs0, subs, trace, pattern),
        is_direct_branch(inst_at(subs, i, j).inst_type) ==> crate::text::tokens(inst_at(subs, i, j).content).len()
            > 3 && first_with_address(
            subs0,
            crate::text::tokens(inst_at(subs, i, j).content)[3],
            tid.subroutine_index as int,
            tid.asm_inst_index as int,
        ),
        is_indirect_branch(inst_at(subs, i, j).inst_type) ==> trace_lookup(
            pattern,
            trace,
            inst_at(subs, i, j).content,
        ) is Found && first_with_address(
            subs0,
            trace_lookup(pattern, trace, inst_at(subs, i, j).content)->Found_0,
            tid.subroutine_index as int,
            tid.asm_inst_index as int,
        ),
        is_return(inst_at(subs, i, j).inst_type) ==> follows_call(subs0, tid),
    ensures
        targets_sound(subs0, set_target(subs, i, j, tid), trace, pattern),
{
    let r = set_target(subs, i, j, tid);
    assert forall|a: int, b: int|
        valid_pos(r, a, b) && inst_at(r, a, b).inst_type.target() != inst_at(
            subs0,
            a,
            b,
        ).inst_type.target() implies (is_direct_branch(inst_at(r, a, b).inst_type) ==> targets_operand_address(
        subs0,
        #[trigger] inst_at(r, a, b),
    )) && (is_indirect_branch(inst_at(r, a, b).inst_type) ==> targets_traced_address(
        subs0,
        inst_at(r, a, b),
        trace,
        pattern,
    )) && (is_return(inst_at(r, a, b).inst_type) ==> inst_at(r, a, b).inst_type.target() is Some
        && follows_call(subs0, inst_at(r, a, b).inst_type.target().unwrap())) by {
        if a == i && b == j {
            assert(inst_at(r, a, b).content == inst_at(subs, i, j).content);
        } else {
            assert(inst_at(r, a, b) == inst_at(subs, a, b));
        }
    }
}

proof fn lemma_resolve_step_sound(
    s: ResolveState,
    trace: Seq<char>,
    pattern: Seq<char>,
    main: int,
    subs0: Seq<SubroutineView>,
)
    requires
        without_targets(s.subs) == without_targets(subs0),
        positions_fit(subs0),
        targets_sound(subs0, s.subs, trace, pattern),
        stack_sound(subs0, s.stack),
    ensures
        targets_sound(subs0, resolve_step(s, trace, pattern, main).subs, trace, pattern),
        stack_sound(subs0, resolve_step(s, trace, pattern, main).stack),
{
    let subs = s.subs;
    lemma_same_skeleton(subs, subs0);
    if 0 <= s.i < subs.len() && 0 <= s.j < subs[s.i].asm_insts.len() {
        let inst = subs[s.i].asm_insts[s.j];
        let here = AssemblyInstructionId { subroutine_index: s.i as usize, asm_inst_index: s.j as usize };
        let op = operand_target(subs, inst.content, here);
        if op is Ok {
            lemma_operand_target_first(subs, subs0, inst.content, here);
        }
        let tr = trace_branch_target(subs, inst.content, here, trace, pattern);
        if tr is Ok {
            lemma_trace_target_first(subs, subs0, inst.content, here, trace, pattern);
        }
        let r = resolve_step(s, trace, pattern, main);
        match inst.inst_type {
            InstTypeView::Ncti(_) => {
                assert(r.subs == subs);
            },
            InstTypeView::CtiConditional(_, _) => {
                if op is Ok {
                    lemma_set_target_sound(subs, subs0, s.i, s.j, op->Ok_0, trace, pattern);
                    assert(r.subs == set_target(subs, s.i, s.j, op->Ok_0));
                } else {
                    assert(r.subs == subs);
                }
            },
            InstTypeView::CtiUnconditional(name, _) => {
                reveal_strlit("bl");
                reveal_strlit("blr");
                reveal_strlit("br");
                reveal_strlit("ret");
                assert("bl"@ != "blr"@ && "br"@ != "blr"@ && "ret"@ != "blr"@) by {
                    assert("bl"@.len() != "blr"@.len() && "ret"@[0] != "blr"@[0]);
                }
                assert("bl"@ != "br"@ && "ret"@ != "br"@) by {
                    assert("bl"@[1] != "br"@[1] && "ret"@.len() != "br"@.len());
                }
                assert("bl"@ != "ret"@) by {
                    assert("bl"@.len() != "ret"@.len());
                }
                let return_id = AssemblyInstructionId {
                    subroutine_index: s.i as usize,
                    asm_inst_index: (s.j + 1) as usize,
                };
                if name == "bl"@ || name == "blr"@ {
                    assert(untargeted(inst_at(subs, s.i, s.j).inst_type) == untargeted(inst_at(subs0, s.i, s.j).inst_type));
                    assert(subs0[s.i].asm_insts.len() <= usize::MAX);
                    assert(follows_call(subs0, return_id));
                    assert(stack_sound(subs0, s.stack.push(return_id))) by {
                        assert forall|k: int| 0 <= k < s.stack.push(return_id).len() implies follows_call(
                            subs0,
                            #[trigger] s.stack.push(return_id)[k],
                        ) by {
                            if k < s.stack.len() {
                                assert(s.stack.push(return_id)[k] == s.stack[k]);
                            }
                        }
                    }
                }
                if name == "ret"@ && s.stack.len() > 0 {
                    assert(follows_call(subs0, s.stack[s.stack.len() - 1]));
                    assert(stack_sound(subs0, s.stack.drop_last())) by {
                        assert forall|k: int| 0 <= k < s.stack.drop_last().len() implies follows_call(
                            subs0,
                            #[trigger] s.stack.drop_last()[k],
                        ) by {
                            assert(s.stack.drop_last()[k] == s.stack[k]);
                        }
                    }
                }
                if name == "blr"@ || name == "br"@ {
                    if tr is Ok {
                        lemma_set_target_sound(subs, subs0, s.i, s.j, tr->Ok_0, trace, pattern);
                        assert(r.subs == set_target(subs, s.i, s.j, tr->Ok_0));
                    } else {
                        assert(r.subs == subs);
                    }
                } else if name == "ret"@ {
                    if s.stack.len() > 0 {
                        lemma_set_target_sound(subs, subs0, s.i, s.j, s.stack.last(), trace, pattern);
                        assert(r.subs == set_target(subs, s.i, s.j, s.stack.last()));
                    } else {
                        assert(r.subs == subs);
                    }
                } else if op is Ok {
                    lemma_set_target_sound(subs, subs0, s.i, s.j, op->Ok_0, trace, pattern);
                    assert(r.subs == set_target(subs, s.i, s.j, op->Ok_0));
                } else {
                    assert(r.subs == subs);
                }
            },
        }
    } else {
        assert(resolve_step(s, trace, pattern, main).subs == subs);
    }
}

proof fn lemma_resolve_run_sound(
    s: ResolveState,
    trace: Seq<char>,
    pattern: Seq<char>,
    main: int,
    fuel: nat,
    subs0: Seq<SubroutineView>,
)
    requires
        without_targets(s.subs) == without_targets(subs0),
        positions_fit(subs0),
        targets_sound(subs0, s.subs, trace, pattern),
        stack_sound(subs0, s.stack),
    ensures
        targets_sound(subs0, resolve_run(s, trace, pattern, main, fuel).subs, trace, pattern),
    decreases fuel,
{
    if s.outcome is None && fuel > 0 {
        lemma_resolve_step_keeps(s, trace, pattern, main);
        lemma_resolve_step_sound(s, trace, pattern, main, subs0);
        lemma_resolve_run_sound(resolve_step(s, trace, pattern, main), trace, pattern, main, (fuel - 1) as nat, subs0);
    }
}

/// Each branch that the resolution gives a target targets the first
/// instruction of the program at the address written for it: for a direct
/// branch (a conditional branch, `b`, `bl`, or any unconditional branch but
/// `blr`, `br` and `ret`) the fourth whitespace-separated word of its line,
/// for `blr` and `br` the target address that the branch trace records for
/// the branch's address; and each `ret` returns to the instruction right after
/// a call (`bl`, `blr`) in the same subroutine. `compute_target_ids` leaves
/// its subroutines as `resolve_targets` describes.
pub proof fn lemma_resolution_branch_targets(subs: Seq<SubroutineView>, trace: Seq<char>, pattern: Seq<char>)
    requires
        positions_fit(subs),
    ensures
        forall|i: int, j: int|
            #![trigger inst_at(resolve_targets(subs, trace, pattern).subs, i, j)]
            valid_pos(resolve_targets(subs, trace, pattern).subs, i, j) && is_direct_branch(
                inst_at(resolve_targets(subs, trace, pattern).subs, i, j).inst_type,
            ) && inst_at(resolve_targets(subs, trace, pattern).subs, i, j).inst_type.target() != inst_at(
                subs,
                i,
                j,
            ).inst_type.target() ==> targets_operand_address(
                subs,
                inst_at(resolve_targets(subs, trace, pattern).subs, i, j),
            ),
        forall|i: int, j: int|
            #![trigger inst_at(resolve_targets(subs, trace, pattern).subs, i, j)]
            valid_pos(resolve_targets(subs, trace, pattern).subs, i, j) && is_indirect_branch(
                inst_at(resolve_targets(subs, trace, pattern).subs, i, j).inst_type,
            ) && inst_at(resolve_targets(subs, trace, pattern).subs, i, j).inst_type.target() != inst_at(
                subs,
                i,
                j,
            ).inst_type.target() ==> targets_traced_address(
                subs,
                inst_at(resolve_targets(subs, trace, pattern).subs, i, j),
                trace,
                pattern,
            ),
        forall|i: int, j: int|
            #![trigger inst_at(resolve_targets(subs, trace, pattern).subs, i, j)]
            valid_pos(resolve_targets(subs, trace, pattern).subs, i, j) && is_return(
                inst_at(resolve_targets(subs, trace, pattern).subs, i, j).inst_type,
            ) && inst_at(resolve_targets(subs, trace, pattern).subs, i, j).inst_type.target() != inst_at(
                subs,
                i,
                j,
            ).inst_type.target() ==> inst_at(
                resolve_targets(subs, trace, pattern).subs,
                i,
                j,
            ).inst_type.target() is Some && follows_call(
                subs,
                inst_at(resolve_targets(subs, trace, pattern).subs, i, j).inst_type.target().unwrap(),
            ),
{
    if let Some(main) = main_index(subs) {
        lemma_resolve_run_sound(
            ResolveState { subs, i: main, j: 0, stack: seq![], outcome: None },
            trace,
            pattern,
            main,
            resolve_fuel(),
            subs,
        );
    }
    assert(targets_sound(subs, resolve_targets(subs, trace, pattern).subs, trace, pattern));
}

} // verus!
