//! The analysis of disassembled programs: their subroutines, basic blocks and
//! control flow graphs.
use vstd::prelude::*;
use crate::module::assembly::{
    compute_target_ids, find_main_subroutine, is_first_main, is_main_label, ResolveError, inst_at, inst_type_of_name, valid_pos, resolve_targets, AssemblyInstruction,
    AssemblyInstructionId, InstView, Subroutine, SubroutineView,
};
use crate::module::basic_block::{
    blocks_from, extract_basic_blocks, extract_leaders_ids, find_leaders, BasicBlock,
    BasicBlockView, LeaderError,
};
use crate::module::cfg::{decimal, decimal_string, ControlFlowGraph, EdgeView};
use crate::module::error::AfdError;
use crate::module::regex::RegexContainer;
use crate::pattern::{capture_group, regex_captures, Pattern};
use crate::text::{before_first, lines, trim};

verus! {

/// The text that an instruction line keeps: what precedes a `//` comment, trimmed.
pub open spec fn cleaned_line(line: Seq<char>) -> Seq<char> {
    trim(before_first(line, "//"@))
}

/// A cleaned line holds no `//`: the comment, and all after it, are gone.
pub proof fn lemma_cleaned_line_has_no_comment(line: Seq<char>)
    ensures
        crate::text::find(cleaned_line(line), "//"@) is None,
{
    reveal_strlit("//");
    let pat = "//"@;
    let b = before_first(line, pat);
    crate::text::lemma_find_from(line, pat, 0);
    assert forall|m: int| !crate::text::occurs_at(b, pat, m) by {
        if crate::text::occurs_at(b, pat, m) {
            assert(b.subrange(m, m + pat.len()) =~= line.subrange(m, m + pat.len()));
            assert(crate::text::occurs_at(line, pat, m));
        }
    }
    let a = crate::text::skip_white(b, 0);
    crate::text::lemma_skip_white(b, 0);
    crate::text::lemma_skip_white_back(b, a, b.len() as int);
    let t = trim(b);
    assert forall|m: int| !crate::text::occurs_at(t, pat, m) by {
        if crate::text::occurs_at(t, pat, m) {
            assert(t.subrange(m, m + pat.len()) =~= b.subrange(a + m, a + m + pat.len()));
            assert(crate::text::occurs_at(b, pat, a + m));
        }
    }
    crate::text::lemma_find_from(t, pat, 0);
}

/// A subroutine whose closing blank line has not come yet: its label, its first
/// line number, and its instructions so far.
pub struct OpenSubroutine {
    pub label: Seq<char>,
    pub start: int,
    pub insts: Seq<InstView>,
}

/// The subroutines of `lines` from line `k` (counted from zero) on: a line that
/// `labels` matches opens a subroutine, each following line up to a blank one is
/// an instruction whose mnemonic is group 1 of `names` in the line cleaned of
/// its comment, and the blank line closes the subroutine. A subroutine that no
/// blank line closes is dropped. `Err` gives the line number (from one) of an
/// instruction without mnemonic.
pub open spec fn parse_subroutines_from(
    lines: Seq<Seq<char>>,
    k: int,
    subs: Seq<SubroutineView>,
    open: Option<OpenSubroutine>,
    labels: Seq<char>,
    names: Seq<char>,
) -> Result<Seq<SubroutineView>, usize>
    decreases lines.len() - k,
{
    if k < 0 || k >= lines.len() {
        Ok(subs)
    } else {
        let line = lines[k];
        match open {
            None => if regex_captures(labels, line) is Some {
                parse_subroutines_from(
                    lines,
                    k + 1,
                    subs,
                    Some(OpenSubroutine { label: line, start: k + 2, insts: seq![] }),
                    labels,
                    names,
                )
            } else {
                parse_subroutines_from(lines, k + 1, subs, None, labels, names)
            },
            Some(o) => if trim(line).len() == 0 {
                parse_subroutines_from(
                    lines,
                    k + 1,
                    subs.push(
                        SubroutineView {
                            definition_label: o.label,
                            start_line: o.start as usize,
                            end_line: k as usize,
                            asm_insts: o.insts,
                            necessary: false,
                        },
                    ),
                    None,
                    labels,
                    names,
                )
            } else {
                let cleaned = cleaned_line(line);
                match capture_group(names, cleaned, 1) {
                    None => Err((k + 1) as usize),
                    Some(name) => parse_subroutines_from(
                        lines,
                        k + 1,
                        subs,
                        Some(
                            OpenSubroutine {
                                insts: o.insts.push(
                                    InstView {
                                        id: AssemblyInstructionId {
                                            subroutine_index: subs.len() as usize,
                                            asm_inst_index: o.insts.len() as usize,
                                        },
                                        source_line_number: 0,
                                        asm_line_number: (k + 1) as usize,
                                        content: cleaned,
                                        inst_type: inst_type_of_name(name),
                                    },
                                ),
                                ..o
                            },
                        ),
                        labels,
                        names,
                    ),
                }
            },
        }
    }
}

/// The abstract value of a subroutine being read.
pub open spec fn open_view(o: Option<(String, usize, Vec<AssemblyInstruction>)>) -> Option<OpenSubroutine> {
    match o {
        None => None,
        Some(o) => Some(OpenSubroutine { label: o.0@, start: o.1 as int, insts: o.2.deep_view() }),
    }
}

/// The subroutines of the disassembly `assembly`.
pub open spec fn parse_subroutines(assembly: Seq<char>, labels: Seq<char>, names: Seq<char>) -> Result<
    Seq<SubroutineView>,
    usize,
> {
    parse_subroutines_from(lines(assembly), 0, seq![], None, labels, names)
}

/// Extracts the subroutines of a disassembly (with the comments removed from
/// its instruction lines).
pub fn extract_subroutines(assembly: &str, regex_container: &RegexContainer) -> (r: Result<
    Vec<Subroutine>,
    AfdError,
>)
    requires
        assembly@.len() + 2 < usize::MAX,
    ensures
        parse_subroutines(assembly@, regex_container.definition_label@, regex_container.instruction_name@) matches Ok(subs)
            ==> (r matches Ok(v) && v.deep_view() == subs),
        parse_subroutines(assembly@, regex_container.definition_label@, regex_container.instruction_name@) matches Err(line)
            ==> (r matches Err(e) && e == AfdError::NoMnemonic(line)),
{
    let ghost labels = regex_container.definition_label@;
    let ghost names = regex_container.instruction_name@;
    let all = crate::text::lines_of(assembly);
    proof {
        crate::text::lemma_lines_len(assembly@, 0);
    }
    let mut subroutines: Vec<Subroutine> = Vec::new();
    let mut open: Option<(String, usize, Vec<AssemblyInstruction>)> = None;
    let mut k: usize = 0;
    assert(subroutines.deep_view() =~= Seq::<SubroutineView>::empty());
    while k < all.len()
        invariant
            all.deep_view() == lines(assembly@),
            all@.len() + 2 < usize::MAX,
            k <= all@.len(),
            labels == regex_container.definition_label@,
            names == regex_container.instruction_name@,
            parse_subroutines(assembly@, labels, names) == parse_subroutines_from(
                lines(assembly@),
                k as int,
                subroutines.deep_view(),
                open_view(open),
                labels,
                names,
            ),
        decreases all@.len() - k,
    {
        let line = all[k].as_str();
        assert(line@ == lines(assembly@)[k as int]);
        let ghost subs_before = subroutines.deep_view();
        let ghost open_before = open_view(open);
        match open {
            None => {
                if regex_container.definition_label.is_match(line) {
                    let insts: Vec<AssemblyInstruction> = Vec::new();
                    assert(insts.deep_view() =~= Seq::<InstView>::empty());
                    open = Some((String::from_str(line), k + 2, insts));
                } else {
                    open = None;
                }
                assert(parse_subroutines_from(lines(assembly@), k as int, subs_before, open_before, labels, names)
                    == parse_subroutines_from(lines(assembly@), k + 1, subroutines.deep_view(), open_view(open), labels, names));
            },
            Some((label, start, mut insts)) => {
                let trimmed = crate::text::trim_str(line);
                if trimmed.as_str().unicode_len() == 0 {
                    let ghost before = subroutines.deep_view();
                    subroutines.push(
                        Subroutine {
                            definition_label: label,
                            start_line: start,
                            end_line: k,
                            asm_insts: insts,
                            necessary: false,
                        },
                    );
                    assert(subroutines.deep_view() =~= before.push(subroutines@.last()@));
                    open = None;
                    assert(parse_subroutines_from(lines(assembly@), k as int, subs_before, open_before, labels, names)
                        == parse_subroutines_from(lines(assembly@), k + 1, subroutines.deep_view(), open_view(open), labels, names));
                } else {
                    let uncommented = crate::text::before_first_str(line, "//");
                    let cleaned = crate::text::trim_str(uncommented.as_str());
                    let id = AssemblyInstructionId {
                        subroutine_index: subroutines.len(),
                        asm_inst_index: insts.len(),
                    };
                    match AssemblyInstruction::try_new(
                        id,
                        0,
                        k + 1,
                        cleaned.as_str(),
                        &regex_container.instruction_name,
                    ) {
                        None => {
                            return Err(AfdError::NoMnemonic(k + 1));
                        },
                        Some(inst) => {
                            let ghost before = insts.deep_view();
                            insts.push(inst);
                            assert(insts.deep_view() =~= before.push(inst@));
                            open = Some((label, start, insts));
                            assert(parse_subroutines_from(lines(assembly@), k as int, subs_before, open_before, labels, names)
                                == parse_subroutines_from(lines(assembly@), k + 1, subroutines.deep_view(), open_view(open), labels, names));
                        },
                    }
                }
            },
        }
        k = k + 1;
    }
    Ok(subroutines)
}

} // verus!

verus! {

/// The outcome of the analysis of the subroutines `subs` of a program with
/// branch trace `trace`: the subroutines with their targets resolved and their
/// necessary ones marked, and the instruction positions of its basic blocks.
pub open spec fn analyze(subs: Seq<SubroutineView>, trace: Seq<char>, pattern: Seq<char>) -> Result<
    (Seq<SubroutineView>, Seq<Seq<AssemblyInstructionId>>),
    AfdError,
> {
    let resolved = resolve_targets(subs, trace, pattern);
    match resolved.outcome {
        Some(Ok(())) => {
            let found = find_leaders(resolved.subs);
            match found.outcome {
                Some(Ok(())) => match blocks_from(
                    found.subs,
                    crate::module::basic_block::sorted_ids(found.leaders.to_set()),
                    0,
                ) {
                    Ok(blocks) => Ok((found.subs, blocks)),
                    Err(e) => Err(AfdError::Blocks(e)),
                },
                Some(Err(e)) => Err(AfdError::Leaders(e)),
                None => Err(AfdError::Leaders(LeaderError::StepLimit)),
            }
        },
        Some(Err(e)) => Err(AfdError::Resolve(e)),
        None => Err(AfdError::Resolve(crate::module::assembly::ResolveError::StepLimit)),
    }
}

/// The instruction positions of `bbs`.
pub open spec fn block_ids(bbs: Seq<BasicBlock>) -> Seq<Seq<AssemblyInstructionId>> {
    bbs.map_values(|b: BasicBlock| b.asm_inst_ids@)
}

/// Contains the assembly path to an assembly source file, and it's extracted necessary subroutines.
pub struct AssemblyData {
    pub asm_path: String,
    pub subroutines: Vec<Subroutine>,
    pub basic_blocks: Vec<BasicBlock>,
}

impl AssemblyData {
    /// Analyzes the disassembly `assembly` (read from `asm_path`) of a program
    /// whose run left the branch trace `trace`: extracts its subroutines,
    /// resolves the targets of its branches, finds its leaders and splits it
    /// into basic blocks.
    pub fn new(trace: &str, asm_path: String, assembly: &str, regex_container: &RegexContainer) -> (r:
        Result<Self, AfdError>)
        requires
            assembly@.len() + 2 < usize::MAX,
        ensures
            parse_subroutines(
                assembly@,
                regex_container.definition_label@,
                regex_container.instruction_name@,
            ) matches Err(line) ==> (r matches Err(e) && e == AfdError::NoMnemonic(line)),
            parse_subroutines(
                assembly@,
                regex_container.definition_label@,
                regex_container.instruction_name@,
            ) matches Ok(subs) ==> match analyze(subs, trace@, regex_container.gem5_trace_indirect_branch@) {
                Ok((final_subs, blocks)) => r matches Ok(d) && d.asm_path == asm_path
                    && d.subroutines.deep_view() == final_subs && block_ids(d.basic_blocks@) == blocks
                    && forall|k: int| 0 <= k < d.basic_blocks@.len() ==> (#[trigger] d.basic_blocks@[k]).edges@.len() == 0,
                Err(e) => r matches Err(f) && f == e,
            },
    {
        let mut subroutines = extract_subroutines(assembly, regex_container)?;
        let basic_blocks = Self::extract_basic_blocks(
            &mut subroutines,
            trace,
            &regex_container.gem5_trace_indirect_branch,
        )?;
        Ok(Self { asm_path, subroutines, basic_blocks })
    }

    /// Resolves the targets of the branches of `subroutines`, finds the leaders
    /// and splits the program into basic blocks.
    fn extract_basic_blocks(
        subroutines: &mut Vec<Subroutine>,
        trace: &str,
        gem5_trace_indirect_branch_regex: &Pattern,
    ) -> (r: Result<Vec<BasicBlock>, AfdError>)
        ensures
            match analyze(old(subroutines).deep_view(), trace@, gem5_trace_indirect_branch_regex@) {
                Ok((final_subs, blocks)) => r matches Ok(bbs) && final(subroutines).deep_view()
                    == final_subs && block_ids(bbs@) == blocks
                    && forall|k: int| 0 <= k < bbs@.len() ==> (#[trigger] bbs@[k]).edges@.len() == 0,
                Err(e) => r matches Err(f) && f == e,
            },
    {
        let ghost subs0 = subroutines.deep_view();
        let sl = subroutines.as_slice();
        let found = find_main_subroutine(sl);
        if found.is_none() {
            assert(sl.deep_view() =~= subroutines.deep_view());
            assert forall|i: int| !is_first_main(subroutines.deep_view(), i) by {
                if 0 <= i < subroutines.deep_view().len() {
                    assert(!is_main_label(subroutines.deep_view()[i].definition_label));
                }
            }
            return Err(AfdError::Resolve(ResolveError::NoMainSubroutine));
        }
        match compute_target_ids(subroutines.as_mut_slice(), trace, gem5_trace_indirect_branch_regex) {
            Ok(()) => {},
            Err(e) => {
                return Err(AfdError::Resolve(e));
            },
        }
        let sl = subroutines.as_slice();
        let found = find_main_subroutine(sl);
        if found.is_none() {
            assert(sl.deep_view() =~= subroutines.deep_view());
            assert forall|i: int| !is_first_main(subroutines.deep_view(), i) by {
                if 0 <= i < subroutines.deep_view().len() {
                    assert(!is_main_label(subroutines.deep_view()[i].definition_label));
                }
            }
            return Err(AfdError::Leaders(LeaderError::NoMainSubroutine));
        }
        let leader_ids = match extract_leaders_ids(subroutines.as_mut_slice()) {
            Ok(v) => v,
            Err(e) => {
                return Err(AfdError::Leaders(e));
            },
        };
        match extract_basic_blocks(subroutines.as_slice(), leader_ids) {
            Ok(bbs) => {
                assert(block_ids(bbs@) =~= blocks_from(subroutines.deep_view(), leader_ids@, 0).unwrap());
                Ok(bbs)
            },
            Err(e) => Err(AfdError::Blocks(e)),
        }
    }
}

} // verus!

verus! {

/// The lines that a subroutine takes in a listing: its label, its instructions,
/// and a blank line.
pub open spec fn subroutine_listing(s: SubroutineView) -> Seq<Seq<char>> {
    seq![s.definition_label] + s.asm_insts.map_values(|i: InstView| i.content) + seq![seq![]]
}

/// The lines of the listing of `subs` (of the necessary ones only, where
/// `only_necessary` holds).
pub open spec fn listing_lines(subs: Seq<SubroutineView>, only_necessary: bool) -> Seq<Seq<char>>
    decreases subs.len(),
{
    if subs.len() == 0 {
        seq![]
    } else if !only_necessary || subs.last().necessary {
        listing_lines(subs.drop_last(), only_necessary) + subroutine_listing(subs.last())
    } else {
        listing_lines(subs.drop_last(), only_necessary)
    }
}

fn listing(subroutines: &[Subroutine], only_necessary: bool) -> (r: String)
    ensures
        r@ == crate::text::join(listing_lines(subroutines.deep_view(), only_necessary), "\n"@),
{
    let mut buffer: Vec<String> = Vec::new();
    let mut k: usize = 0;
    while k < subroutines.len()
        invariant
            k <= subroutines@.len(),
            buffer.deep_view() == listing_lines(subroutines.deep_view().take(k as int), only_necessary),
        decreases subroutines@.len() - k,
    {
        let sub = &subroutines[k];
        assert(subroutines.deep_view().take(k + 1).drop_last() =~= subroutines.deep_view().take(k as int));
        assert(subroutines.deep_view().take(k + 1).last() == sub@);
        if !only_necessary || sub.necessary {
            let ghost before = buffer.deep_view();
            buffer.push(sub.definition_label.clone());
            let mut m: usize = 0;
            while m < sub.asm_insts.len()
                invariant
                    m <= sub.asm_insts@.len(),
                    buffer.deep_view() == before + seq![sub@.definition_label] + sub@.asm_insts.take(m as int).map_values(|i: InstView| i.content),
                decreases sub.asm_insts@.len() - m,
            {
                let ghost b = buffer.deep_view();
                buffer.push(sub.asm_insts[m].content.clone());
                assert(buffer.deep_view() =~= b.push(sub@.asm_insts[m as int].content));
                assert(sub@.asm_insts.take(m + 1).map_values(|i: InstView| i.content) =~= sub@.asm_insts.take(m as int).map_values(|i: InstView| i.content).push(sub@.asm_insts[m as int].content));
                m = m + 1;
            }
            let ghost b = buffer.deep_view();
            buffer.push(String::new());
            assert(buffer.deep_view() =~= b.push(seq![]));
            assert(sub@.asm_insts.take(sub@.asm_insts.len() as int) =~= sub@.asm_insts);
            assert(buffer.deep_view() =~= before + subroutine_listing(sub@));
        }
        k = k + 1;
    }
    assert(subroutines.deep_view().take(subroutines@.len() as int) =~= subroutines.deep_view());
    crate::text::join_strings(&buffer, "\n")
}

impl AssemblyData {
    /// The text of the listing of all the subroutines: each label, the cleaned
    /// instruction lines, and a blank line.
    pub fn subroutines_text(subroutines: &[Subroutine]) -> (r: String)
        ensures
            r@ == crate::text::join(listing_lines(subroutines.deep_view(), false), "\n"@),
    {
        listing(subroutines, false)
    }

    /// The text of the listing of the necessary subroutines.
    pub fn necessary_subroutines_text(subroutines: &[Subroutine]) -> (r: String)
        ensures
            r@ == crate::text::join(listing_lines(subroutines.deep_view(), true), "\n"@),
    {
        listing(subroutines, true)
    }
}

} // verus!

verus! {

/// The abstract value of an [`AssemblyData`].
pub struct DataView {
    pub asm_path: Seq<char>,
    pub subroutines: Seq<SubroutineView>,
    pub basic_blocks: Seq<crate::module::basic_block::BasicBlockView>,
}

impl View for AssemblyData {
    type V = DataView;

    open spec fn view(&self) -> DataView {
        DataView {
            asm_path: self.asm_path@,
            subroutines: self.subroutines.deep_view(),
            basic_blocks: self.basic_blocks.deep_view(),
        }
    }
}

impl DeepView for AssemblyData {
    type V = DataView;

    open spec fn deep_view(&self) -> DataView {
        self@
    }
}

} // verus!

verus! {

/// The outcome of the analysis of one program: the disassembly `assembly`, read
/// from `asm_path`, of a program whose run left the branch trace `trace`. Its
/// blocks have no edges yet.
pub open spec fn program_analysis(
    asm_path: Seq<char>,
    assembly: Seq<char>,
    trace: Seq<char>,
    labels: Seq<char>,
    names: Seq<char>,
    pattern: Seq<char>,
) -> Result<DataView, AfdError> {
    match parse_subroutines(assembly, labels, names) {
        Err(line) => Err(AfdError::NoMnemonic(line)),
        Ok(subs) => match analyze(subs, trace, pattern) {
            Ok((final_subs, blocks)) => Ok(
                DataView {
                    asm_path,
                    subroutines: final_subs,
                    basic_blocks: blocks.map_values(
                        |ids: Seq<AssemblyInstructionId>| BasicBlockView { asm_inst_ids: ids, edges: seq![] },
                    ),
                },
            ),
            Err(e) => Err(e),
        },
    }
}

/// What the analysis of one program reads: the path of its disassembly, the
/// disassembly itself and the branch trace of its run.
pub struct ProgramInput {
    pub asm_path: String,
    pub assembly: String,
    pub trace: String,
}

/// The outcome of the analysis of `p` with the expressions of `rc`.
pub open spec fn input_analysis(p: ProgramInput, rc: RegexContainer) -> Result<DataView, AfdError> {
    program_analysis(
        p.asm_path@,
        p.assembly@,
        p.trace@,
        rc.definition_label@,
        rc.instruction_name@,
        rc.gem5_trace_indirect_branch@,
    )
}

proof fn lemma_data_view(d: AssemblyData, asm_path: Seq<char>, subs: Seq<SubroutineView>, blocks: Seq<Seq<AssemblyInstructionId>>)
    requires
        d.asm_path@ == asm_path,
        d.subroutines.deep_view() == subs,
        block_ids(d.basic_blocks@) == blocks,
        forall|k: int| 0 <= k < d.basic_blocks@.len() ==> (#[trigger] d.basic_blocks@[k]).edges@.len() == 0,
    ensures
        d@ == (DataView {
            asm_path,
            subroutines: subs,
            basic_blocks: blocks.map_values(
                |ids: Seq<AssemblyInstructionId>| BasicBlockView { asm_inst_ids: ids, edges: seq![] },
            ),
        }),
{
    let bbs = blocks.map_values(
        |ids: Seq<AssemblyInstructionId>| BasicBlockView { asm_inst_ids: ids, edges: seq![] },
    );
    assert(block_ids(d.basic_blocks@).len() == d.basic_blocks@.len());
    assert forall|k: int| 0 <= k < bbs.len() implies d.basic_blocks.deep_view()[k] == bbs[k] by {
        assert(block_ids(d.basic_blocks@)[k] == d.basic_blocks@[k].asm_inst_ids@);
        assert(d.basic_blocks@[k].edges.deep_view() =~= Seq::<EdgeView>::empty());
    }
    assert(d.basic_blocks.deep_view() =~= bbs);
}

/// Provides some functions for working with assembly data.
pub struct AssemblyAnalyzer {
    pub cfg: ControlFlowGraph,
}

impl AssemblyAnalyzer {
    /// Analyzes each program of `programs` in turn (see [`AssemblyData::new`])
    /// and gathers their data in a control flow graph without edges. The first
    /// program whose analysis fails stops the work, and its error is returned.
    pub fn new(programs: &[ProgramInput], regex_container: &RegexContainer) -> (r: Result<Self, AfdError>)
        requires
            forall|i: int| 0 <= i < programs@.len() ==> (#[trigger] programs@[i]).assembly@.len() + 2 < usize::MAX,
        ensures
            r is Ok <==> forall|i: int| 0 <= i < programs@.len() ==> (input_analysis(#[trigger] programs@[i], *regex_container) is Ok),
            r matches Ok(a) ==> a.cfg@.len() == programs@.len() && forall|i: int|
                0 <= i < programs@.len() ==> input_analysis(#[trigger] programs@[i], *regex_container) == Ok::<DataView, AfdError>(a.cfg@[i]),
            r matches Err(e) ==> exists|i: int|
                0 <= i < programs@.len() && input_analysis(#[trigger] programs@[i], *regex_container) == Err::<DataView, AfdError>(e)
                    && forall|m: int| 0 <= m < i ==> (input_analysis(#[trigger] programs@[m], *regex_container) is Ok),
    {
        let mut asm_data_vec: Vec<AssemblyData> = Vec::new();
        let mut i: usize = 0;
        while i < programs.len()
            invariant
                forall|m: int| 0 <= m < programs@.len() ==> (#[trigger] programs@[m]).assembly@.len() + 2 < usize::MAX,
                i <= programs@.len(),
                asm_data_vec@.len() == i,
                forall|m: int| 0 <= m < i ==> input_analysis(#[trigger] programs@[m], *regex_container) == Ok::<DataView, AfdError>(asm_data_vec.deep_view()[m]),
            decreases programs@.len() - i,
        {
            let p = &programs[i];
            let d = AssemblyData::new(p.trace.as_str(), p.asm_path.clone(), p.assembly.as_str(), regex_container);
            match d {
                Ok(d) => {
                    proof {
                        let parsed = parse_subroutines(p.assembly@, regex_container.definition_label@, regex_container.instruction_name@);
                        let subs = parsed->Ok_0;
                        let (final_subs, blocks) = analyze(subs, p.trace@, regex_container.gem5_trace_indirect_branch@)->Ok_0;
                        lemma_data_view(d, p.asm_path@, final_subs, blocks);
                    }
                    let ghost before = asm_data_vec.deep_view();
                    asm_data_vec.push(d);
                    assert(asm_data_vec.deep_view() =~= before.push(d@));
                },
                Err(e) => {
                    assert(input_analysis(programs@[i as int], *regex_container) == Err::<DataView, AfdError>(e));
                    return Err(e);
                },
            }
            i = i + 1;
        }
        Ok(Self { cfg: ControlFlowGraph::new(asm_data_vec) })
    }
}

} // verus!

verus! {

/// Every position in every block of `d` names an instruction of its subroutines.
pub open spec fn positions_valid(d: DataView) -> bool {
    forall|j: int, k: int|
        0 <= j < d.basic_blocks.len() && 0 <= k < d.basic_blocks[j].asm_inst_ids.len() ==> valid_pos(
            d.subroutines,
            (#[trigger] d.basic_blocks[j].asm_inst_ids[k]).subroutine_index as int,
            d.basic_blocks[j].asm_inst_ids[k].asm_inst_index as int,
        )
}

/// The line that shows instruction `k` of block `j` of `d`: its number in the
/// block, its line in the disassembly and its text.
pub open spec fn instruction_line(d: DataView, j: int, k: int) -> Seq<char> {
    let id = d.basic_blocks[j].asm_inst_ids[k];
    let inst = inst_at(d.subroutines, id.subroutine_index as int, id.asm_inst_index as int);
    "  Instruction #"@ + decimal(k + 1) + " => ["@ + decimal(inst.asm_line_number as int) + "]: \""@
        + inst.content + "\""@
}

/// The lines that show the first `n` instructions of block `j` of `d`.
pub open spec fn instruction_lines(d: DataView, j: int, n: int) -> Seq<Seq<char>>
    decreases n,
{
    if n <= 0 {
        seq![]
    } else {
        instruction_lines(d, j, n - 1).push(instruction_line(d, j, n - 1))
    }
}

/// The lines that show block `j` of `d`: a header with its number, one line per
/// instruction, and a closing brace.
pub open spec fn block_lines(d: DataView, j: int) -> Seq<Seq<char>> {
    seq!["Basic block #"@ + decimal(j + 1) + ": {"@] + instruction_lines(
        d,
        j,
        d.basic_blocks[j].asm_inst_ids.len() as int,
    ) + seq!["}"@]
}

/// The lines that show the first `n` blocks of `d`.
pub open spec fn blocks_lines(d: DataView, n: int) -> Seq<Seq<char>>
    decreases n,
{
    if n <= 0 {
        seq![]
    } else {
        blocks_lines(d, n - 1) + block_lines(d, n - 1)
    }
}

/// The lines that show the blocks of the first `n` programs of `g`.
pub open spec fn programs_lines(g: Seq<DataView>, n: int) -> Seq<Seq<char>>
    decreases n,
{
    if n <= 0 {
        seq![]
    } else {
        programs_lines(g, n - 1) + blocks_lines(g[n - 1], g[n - 1].basic_blocks.len() as int)
    }
}

fn push_block_lines(d: &AssemblyData, j: usize, out: &mut Vec<String>)
    requires
        j < d@.basic_blocks.len(),
        positions_valid(d@),
    ensures
        final(out).deep_view() == old(out).deep_view() + block_lines(d@, j as int),
{
    let n = d.basic_blocks.len();
    let ids = &d.basic_blocks[j].asm_inst_ids;
    assert(ids@ == d@.basic_blocks[j as int].asm_inst_ids);
    let ghost start = out.deep_view();
    out.push(String::from_str("Basic block #").concat(decimal_string(j + 1).as_str()).concat(": {"));
    let mut k: usize = 0;
    while k < ids.len()
        invariant
            j < n,
            n == d@.basic_blocks.len(),
            positions_valid(d@),
            ids@ == d@.basic_blocks[j as int].asm_inst_ids,
            k <= ids@.len(),
            out.deep_view() == start + seq!["Basic block #"@ + decimal(j + 1) + ": {"@] + instruction_lines(d@, j as int, k as int),
        decreases ids@.len() - k,
    {
        let id = ids[k];
        assert(valid_pos(d@.subroutines, id.subroutine_index as int, id.asm_inst_index as int));
        let inst = &d.subroutines[id.subroutine_index].asm_insts[id.asm_inst_index];
        assert(inst@ == inst_at(d@.subroutines, id.subroutine_index as int, id.asm_inst_index as int));
        let line = String::from_str("  Instruction #").concat(decimal_string(k + 1).as_str()).concat(" => [").concat(
            decimal_string(inst.asm_line_number).as_str(),
        ).concat("]: \"").concat(inst.content.as_str()).concat("\"");
        assert(line@ == instruction_line(d@, j as int, k as int));
        let ghost before = out.deep_view();
        out.push(line);
        assert(out.deep_view() =~= before.push(line@));
        k = k + 1;
    }
    let ghost before = out.deep_view();
    out.push(String::from_str("}"));
    assert(out.deep_view() =~= before.push("}"@));
    assert(out.deep_view() =~= start + block_lines(d@, j as int));
}

impl AssemblyAnalyzer {
    /// The lines that show the basic blocks of every program: for each block
    /// its number, then each instruction with its number in the block, its line
    /// in the disassembly and its text.
    pub fn basic_blocks_in_text(&self) -> (r: Vec<String>)
        requires
            forall|i: int| 0 <= i < self.cfg@.len() ==> positions_valid(#[trigger] self.cfg@[i]),
        ensures
            r.deep_view() == programs_lines(self.cfg@, self.cfg@.len() as int),
    {
        let mut out: Vec<String> = Vec::new();
        let mut i: usize = 0;
        while i < self.cfg.asm_data_vec.len()
            invariant
                forall|m: int| 0 <= m < self.cfg@.len() ==> positions_valid(#[trigger] self.cfg@[m]),
                i <= self.cfg@.len(),
                out.deep_view() == programs_lines(self.cfg@, i as int),
            decreases self.cfg@.len() - i,
        {
            let d = &self.cfg.asm_data_vec[i];
            assert(d@ == self.cfg@[i as int]);
            let mut j: usize = 0;
            while j < d.basic_blocks.len()
                invariant
                    i < self.cfg@.len(),
                    d@ == self.cfg@[i as int],
                    positions_valid(d@),
                    j <= d@.basic_blocks.len(),
                    out.deep_view() == programs_lines(self.cfg@, i as int) + blocks_lines(d@, j as int),
                decreases d@.basic_blocks.len() - j,
            {
                let ghost before = out.deep_view();
                push_block_lines(d, j, &mut out);
                assert(out.deep_view() =~= programs_lines(self.cfg@, i as int) + blocks_lines(d@, j + 1));
                j = j + 1;
            }
            assert(out.deep_view() =~= programs_lines(self.cfg@, i + 1));
            i = i + 1;
        }
        out
    }
}

} // verus!

verus! {

/// The analysis of simulator branch traces by their addresses.
pub struct Gem5TraceAnalyzer {
    pub gem5_trace_addresses: Pattern,
}

impl Gem5TraceAnalyzer {
    pub fn new(gem5_trace_addresses: Pattern) -> (r: Self)
        ensures
            r.gem5_trace_addresses == gem5_trace_addresses,
    {
        Self { gem5_trace_addresses }
    }

    /// Shows the analysis; there is nothing to show yet.
    pub fn print(&self) {
    }

    /// Saves the analysis; there is nothing to save yet.
    pub fn save_to_file(&self) {
    }
}

} // verus!
