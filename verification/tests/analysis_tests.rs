use afd::module::analyzer::{
    extract_subroutines, AssemblyAnalyzer, AssemblyData, Gem5TraceAnalyzer, ProgramInput,
};
use afd::module::assembly::{
    compute_target_ids, find_main_subroutine, AssemblyInstruction, AssemblyInstructionId,
    AssemblyInstructionType, ResolveError, Subroutine,
};
use afd::module::basic_block::{
    extract_basic_blocks, extract_leaders_ids, find_basic_block_index_by_id, BasicBlock, LeaderError,
};
use afd::module::cfg::{ControlFlowGraph, Edge};
use afd::module::error::AfdError;
use afd::module::regex::RegexContainer;
use afd::pattern::Pattern;

const PROGRAM: &str = "\nprog.run:     file format elf64-littleaarch64\n\n\nDisassembly of section .text:\n\n0000000000400580 <main>:\n  400580:\ta9bf7bfd \tstp\tx29, x30, [sp, #-16]!\n  400584:\t94000003 \tbl\t400590 <foo>\n  400588:\ta8c17bfd \tldp\tx29, x30, [sp], #16   // restore\n  40058c:\td65f03c0 \tret\n\n0000000000400590 <foo>:\n  400590:\td2800000 \tmov\tx0, #0x0\n  400594:\t54000040 \tb.eq\t40059c <foo+0xc>\n  400598:\td2800020 \tmov\tx0, #0x1\n  40059c:\td65f03c0 \tret\n\n";

const STP: &str = "400580:\ta9bf7bfd \tstp\tx29, x30, [sp, #-16]!";
const BL: &str = "400584:\t94000003 \tbl\t400590 <foo>";
const LDP: &str = "400588:\ta8c17bfd \tldp\tx29, x30, [sp], #16";
const RET_MAIN: &str = "40058c:\td65f03c0 \tret";
const MOV0: &str = "400590:\td2800000 \tmov\tx0, #0x0";
const BEQ: &str = "400594:\t54000040 \tb.eq\t40059c <foo+0xc>";
const MOV1: &str = "400598:\td2800020 \tmov\tx0, #0x1";
const RET_FOO: &str = "40059c:\td65f03c0 \tret";

fn id(s: usize, i: usize) -> AssemblyInstructionId {
    AssemblyInstructionId { subroutine_index: s, asm_inst_index: i }
}

fn program() -> (RegexContainer, Vec<Subroutine>) {
    let rc = RegexContainer::new().unwrap();
    let subs = extract_subroutines(PROGRAM, &rc).unwrap();
    (rc, subs)
}

#[test]
fn subroutines_are_extracted() {
    let (_, subs) = program();
    assert_eq!(subs.len(), 2);
    assert_eq!(subs[0].definition_label, "0000000000400580 <main>:");
    assert_eq!((subs[0].start_line, subs[0].end_line), (8, 11));
    assert_eq!(subs[1].definition_label, "0000000000400590 <foo>:");
    assert_eq!((subs[1].start_line, subs[1].end_line), (14, 17));
    assert!(!subs[0].necessary && !subs[1].necessary);
    let contents: Vec<&str> = subs.iter().flat_map(|s| s.asm_insts.iter().map(|i| i.content.as_str())).collect();
    assert_eq!(contents, vec![STP, BL, LDP, RET_MAIN, MOV0, BEQ, MOV1, RET_FOO]);
    assert_eq!(subs[0].asm_insts[2].asm_line_number, 10);
    assert_eq!(subs[1].asm_insts[3].id, id(1, 3));
    assert_eq!(subs[0].asm_insts[1].inst_type, AssemblyInstructionType::CtiUnconditional("bl".to_string(), None));
    assert_eq!(subs[1].asm_insts[1].inst_type, AssemblyInstructionType::CtiConditional("b.eq".to_string(), None));
    assert_eq!(subs[1].asm_insts[0].inst_type, AssemblyInstructionType::Ncti("mov".to_string()));
    assert_eq!(subs[0].get_name(), "<main>:");
    assert_eq!(find_main_subroutine(&subs), Some(0));
    assert_eq!(Subroutine::get_main_subroutine_index(&subs), 0);
}

#[test]
fn unclosed_subroutine_is_dropped() {
    let rc = RegexContainer::new().unwrap();
    let subs = extract_subroutines("0000000000400580 <main>:\n  400580:\ta9bf7bfd \tstp\tx29, x30, [sp, #-16]!", &rc).unwrap();
    assert!(subs.is_empty());
}

#[test]
fn instruction_without_mnemonic() {
    let rc = RegexContainer::new().unwrap();
    let r = extract_subroutines("0000000000400580 <main>:\n  garbage\n\n", &rc);
    assert_eq!(r.err(), Some(AfdError::NoMnemonic(2)));
}

#[test]
fn instruction_queries() {
    let rc = RegexContainer::new().unwrap();
    let i = AssemblyInstruction::new(id(0, 1), 0, 9, BL, &rc.instruction_name);
    assert_eq!(i.get_address(), "400584");
    assert_eq!(i.branch_condition(), Ok("true".to_string()));
    assert_eq!(i.branch_condition_complement(), Ok("false".to_string()));
    assert_eq!(i.next_asm_inst_address(), "400588");
    assert!(i.get_target_id().is_err());
    let c = AssemblyInstruction::new(id(1, 1), 0, 15, BEQ, &rc.instruction_name);
    assert_eq!(c.branch_condition(), Ok("Z == 1".to_string()));
    assert_eq!(c.branch_condition_complement(), Ok("Z != 1".to_string()));
    let beq = afd::module::instruction::ConditionalBranch::BDotEq;
    assert_eq!(c.branch_condition(), Ok(beq.branch_condition().to_string()));
    assert_eq!(c.branch_condition_complement(), Ok(beq.branch_condition_complement().to_string()));
    let n = AssemblyInstruction::new(id(0, 0), 0, 8, STP, &rc.instruction_name);
    assert_eq!(
        n.branch_condition(),
        Err(format!("NCTI Instruction: \"{}\" has no branch condition!", STP))
    );
    assert_eq!(
        n.branch_condition_complement(),
        Err(format!("NCTI Instruction: \"{}\" has no complement branch condition!", STP))
    );
    assert_eq!(
        n.get_target_id(),
        Err(format!("NCTI (Non Control Transfer Instruction) has no target address: \"{}\"", STP))
    );
    assert!(AssemblyInstruction::try_new(id(0, 0), 0, 1, "no mnemonic", &rc.instruction_name).is_none());
    let mut x = AssemblyInstruction::new(id(0, 0), 0, 8, "40fffc:\t00000000 \tnop", &rc.instruction_name);
    assert_eq!(x.next_asm_inst_address(), "410000");
    x.content = "ffc:\t0 \tnop".to_string();
    assert_eq!(x.next_asm_inst_address(), "1000");
}

#[test]
fn address_lookups() {
    let (_, subs) = program();
    assert_eq!(AssemblyInstruction::get_asm_inst_id_by_address(&subs, "400598"), Ok(id(1, 2)));
    assert_eq!(
        AssemblyInstruction::get_asm_inst_id_by_address(&subs, "4005a0"),
        Err("No asssembly instruction was found with the address: \"4005a0\"".to_string())
    );
    let i = &subs[1].asm_insts[3];
    assert_eq!(i.get_subroutine_index_from_address(&subs, "400588"), Some(8));
    assert_eq!(i.get_subroutine_index_from_address(&subs, "400598"), Some(14));
    assert_eq!(i.get_subroutine_index_from_address(&subs, "4005a0"), None);
    assert_eq!(i.next_asm_inst_id_in_the_same_subroutine(&subs), None);
    assert_eq!(subs[1].asm_insts[2].next_asm_inst_id_in_the_same_subroutine(&subs), Some(id(1, 3)));
    assert_eq!(subs[0].asm_insts[0].next_asm_inst_id(&subs), id(0, 1));
}

#[test]
fn targets_are_resolved_along_calls() {
    let (rc, mut subs) = program();
    assert_eq!(compute_target_ids(&mut subs, "", &rc.gem5_trace_indirect_branch), Ok(()));
    assert_eq!(subs[0].asm_insts[1].get_target_id(), Ok(id(1, 0)));
    assert_eq!(subs[1].asm_insts[1].get_target_id(), Ok(id(1, 3)));
    assert_eq!(subs[1].asm_insts[3].get_target_id(), Ok(id(0, 2)));
    assert!(subs[0].asm_insts[3].get_target_id().is_err());
    assert_eq!(subs[1].asm_insts[1].get_target_ids(&subs), vec![id(1, 3), id(1, 2)]);
    assert_eq!(subs[1].asm_insts[3].get_target_ids(&subs), vec![id(0, 2)]);
    assert_eq!(subs[0].asm_insts[1].get_target_ids(&subs), vec![id(1, 0)]);
    assert!(subs[0].asm_insts[0].get_target_ids(&subs).is_empty());
    assert!(subs[1].asm_insts[1].target_ids_are_defined(&subs));
    let (_, before) = program();
    for (a, b) in subs.iter().zip(before.iter()) {
        assert_eq!(a.definition_label, b.definition_label);
        assert_eq!(a.necessary, b.necessary);
        let ca: Vec<&String> = a.asm_insts.iter().map(|i| &i.content).collect();
        let cb: Vec<&String> = b.asm_insts.iter().map(|i| &i.content).collect();
        assert_eq!(ca, cb);
    }
    assert!(!subs[0].asm_insts[3].target_ids_are_defined(&subs));
}

#[test]
fn resolution_errors() {
    let rc = RegexContainer::new().unwrap();
    let mut subs = extract_subroutines(
        "0000000000400580 <main>:\n  400580:\t94000003 \tbl\t400990 <far>\n  400584:\td65f03c0 \tret\n\n",
        &rc,
    )
    .unwrap();
    assert_eq!(
        compute_target_ids(&mut subs, "", &rc.gem5_trace_indirect_branch),
        Err(ResolveError::UnknownTarget(id(0, 0)))
    );
    let mut subs = extract_subroutines(
        "0000000000400580 <main>:\n  400580:\td63f0200 \tblr\tx16\n  400584:\td65f03c0 \tret\n\n",
        &rc,
    )
    .unwrap();
    assert_eq!(
        compute_target_ids(&mut subs, "", &rc.gem5_trace_indirect_branch),
        Err(ResolveError::NoTraceTarget(id(0, 0)))
    );
}

#[test]
fn indirect_targets_come_from_the_trace() {
    let rc = RegexContainer::new().unwrap();
    let text = "0000000000400580 <main>:\n  400580:\td63f0200 \tblr\tx16\n  400584:\td65f03c0 \tret\n\n0000000000400590 <foo>:\n  400590:\td65f03c0 \tret\n\n";
    let trace = "1000: system.cpu: Commit branch: PC:0x400580 (blr) Indirect target:0x400590\n";
    let mut subs = extract_subroutines(text, &rc).unwrap();
    let i = &subs[0].asm_insts[0];
    assert_eq!(
        i.extract_target_address_from_gem5_trace(trace, &rc.gem5_trace_indirect_branch),
        Ok("400590".to_string())
    );
    assert_eq!(
        i.try_extract_target_address_from_gem5_trace(trace, &rc.gem5_trace_indirect_branch),
        Some(Ok("400590".to_string()))
    );
    assert_eq!(
        i.extract_target_address_from_gem5_trace("", &rc.gem5_trace_indirect_branch),
        Err(format!(
            "No dynamic target address was found for the assembly instruction: \"{}\" on line: 2",
            i.content
        ))
    );
    assert_eq!(compute_target_ids(&mut subs, trace, &rc.gem5_trace_indirect_branch), Ok(()));
    assert_eq!(subs[0].asm_insts[0].get_target_id(), Ok(id(1, 0)));
    assert_eq!(subs[1].asm_insts[0].get_target_id(), Ok(id(0, 1)));
}

#[test]
fn leaders_and_blocks() {
    let (rc, mut subs) = program();
    compute_target_ids(&mut subs, "", &rc.gem5_trace_indirect_branch).unwrap();
    let leaders = extract_leaders_ids(&mut subs).unwrap();
    assert_eq!(leaders, vec![id(0, 0), id(0, 2), id(1, 0), id(1, 2), id(1, 3)]);
    assert!(subs[0].necessary && subs[1].necessary);
    let blocks = extract_basic_blocks(&subs, leaders).unwrap();
    let ids: Vec<Vec<AssemblyInstructionId>> = blocks.iter().map(|b| b.asm_inst_ids.clone()).collect();
    assert_eq!(
        ids,
        vec![
            vec![id(0, 0), id(0, 1)],
            vec![id(0, 2), id(0, 3)],
            vec![id(1, 0), id(1, 1)],
            vec![id(1, 2)],
            vec![id(1, 3)],
        ]
    );
    assert!(blocks.iter().all(|b| b.edges.is_empty()));
    assert_eq!(blocks[2].last_asm_instruction(&subs).content, BEQ);
    assert_eq!(find_basic_block_index_by_id(&blocks, &id(1, 2)), Some(3));
    assert_eq!(find_basic_block_index_by_id(&blocks, &id(1, 1)), None);
}

#[test]
fn leader_errors() {
    let (_, mut subs) = program();
    assert_eq!(extract_leaders_ids(&mut subs), Err(LeaderError::UndefinedTargets(id(0, 1))));
}

#[test]
fn single_block_program() {
    let b = BasicBlock::new(vec![id(0, 0)], vec![Edge::new("true".to_string(), 0)]);
    assert_eq!(b.edges[0].condition, "true");
    assert_eq!(b.edges[0].destination_index, 0);
}

fn analyzed() -> (RegexContainer, AssemblyData) {
    let rc = RegexContainer::new().unwrap();
    let d = AssemblyData::new("", "prog.asm".to_string(), PROGRAM, &rc).unwrap();
    (rc, d)
}

#[test]
fn assembly_data_of_a_program() {
    let (_, d) = analyzed();
    assert_eq!(d.asm_path, "prog.asm");
    assert_eq!(d.subroutines.len(), 2);
    assert_eq!(d.basic_blocks.len(), 5);
    let listing = AssemblyData::subroutines_text(&d.subroutines);
    assert_eq!(
        listing,
        format!(
            "0000000000400580 <main>:\n{}\n{}\n{}\n{}\n\n0000000000400590 <foo>:\n{}\n{}\n{}\n{}\n",
            STP, BL, LDP, RET_MAIN, MOV0, BEQ, MOV1, RET_FOO
        )
    );
    assert_eq!(AssemblyData::necessary_subroutines_text(&d.subroutines), listing);
}

#[test]
fn analysis_errors_are_reported() {
    let rc = RegexContainer::new().unwrap();
    let r = AssemblyData::new("", "p".to_string(), "0000000000400590 <foo>:\n  400590:\td2800000 \tmov\tx0, #0x0\n\n", &rc);
    assert_eq!(r.err(), Some(AfdError::Resolve(ResolveError::NoMainSubroutine)));
}

#[test]
fn control_flow_of_a_program() {
    let (_, d) = analyzed();
    let mut cfg = ControlFlowGraph::new(vec![d]);
    assert!(cfg.is_well_formed());
    assert_eq!(cfg.find_edge_failure(), None);
    cfg.compute_control_flow();
    let edges: Vec<Vec<(String, usize)>> = cfg.asm_data_vec[0]
        .basic_blocks
        .iter()
        .map(|b| b.edges.iter().map(|e| (e.condition.clone(), e.destination_index)).collect())
        .collect();
    assert_eq!(
        edges,
        vec![
            vec![("true".to_string(), 2)],
            vec![],
            vec![("Z == 1".to_string(), 4), ("Z != 1".to_string(), 3)],
            vec![],
            vec![("true".to_string(), 1)],
        ]
    );
    assert_eq!(cfg.find_edge_failure(), None);
    cfg.compute_control_flow();
    let again: Vec<Vec<(String, usize)>> = cfg.asm_data_vec[0]
        .basic_blocks
        .iter()
        .map(|b| b.edges.iter().map(|e| (e.condition.clone(), e.destination_index)).collect())
        .collect();
    assert_eq!(again, edges);
}

#[test]
fn control_flow_in_text_and_dot() {
    let (_, d) = analyzed();
    let mut cfg = ControlFlowGraph::new(vec![d]);
    cfg.compute_control_flow();
    let texts = cfg.programs_basic_blocks_flows_in_text();
    assert_eq!(texts.len(), 1);
    assert_eq!(texts[0].len(), 5);
    assert_eq!(
        texts[0][0],
        format!("Program #1, BB #1:\n  Content:\n    {}\n    {}\n  Edges:\n    E #1 => BB #3\n", STP, BL)
    );
    assert_eq!(
        texts[0][1],
        format!("Program #1, BB #2:\n  Content:\n    {}\n    {}\n  Edges:\n    None\n", LDP, RET_MAIN)
    );
    assert_eq!(
        texts[0][2],
        format!(
            "Program #1, BB #3:\n  Content:\n    {}\n    {}\n  Edges:\n    E #1 => BB #5, E #2 => BB #4\n",
            MOV0, BEQ
        )
    );
    let dot = cfg.graphviz_dot(0);
    let expected = format!(
        "digraph cfg {{\n    1 [label=\"BB 1\\n\\n{}\\l{}\"];\n    1 -> 3 [label=\"true\"];\n    2 [label=\"BB 2\\n\\n{}\\l{}\"];\n    3 [label=\"BB 3\\n\\n{}\\l{}\"];\n    3 -> 5 [label=\"Z == 1\"];\n    3 -> 4 [label=\"Z != 1\"];\n    4 [label=\"BB 4\\n\\n{}\"];\n    5 [label=\"BB 5\\n\\n{}\"];\n    5 -> 2 [label=\"true\"];\n}}",
        STP, BL, LDP, RET_MAIN, MOV0, BEQ, MOV1, RET_FOO
    );
    assert_eq!(dot, expected);
}

#[test]
fn analyzer_over_programs() {
    let rc = RegexContainer::new().unwrap();
    let input = ProgramInput { asm_path: "prog.asm".to_string(), assembly: PROGRAM.to_string(), trace: String::new() };
    let a = AssemblyAnalyzer::new(&[input], &rc).unwrap();
    assert_eq!(a.cfg.asm_data_vec.len(), 1);
    let lines = a.basic_blocks_in_text();
    assert_eq!(lines[0], "Basic block #1: {");
    assert_eq!(lines[1], format!("  Instruction #1 => [8]: \"{}\"", STP));
    assert_eq!(lines[2], format!("  Instruction #2 => [9]: \"{}\"", BL));
    assert_eq!(lines[3], "}");
    assert_eq!(lines.len(), 5 + 8 + 5);
    let bad = ProgramInput { asm_path: "b".to_string(), assembly: "0000000000400580 <main>:\n  x\n\n".to_string(), trace: String::new() };
    let good = ProgramInput { asm_path: "prog.asm".to_string(), assembly: PROGRAM.to_string(), trace: String::new() };
    assert_eq!(AssemblyAnalyzer::new(&[good, bad], &rc).err(), Some(AfdError::NoMnemonic(2)));
    let g = Gem5TraceAnalyzer::new(Pattern::new("x").unwrap());
    g.print();
    g.save_to_file();
    assert_eq!(g.gem5_trace_addresses.as_str(), "x");
}

use afd::module::basic_block::BlockError;
use afd::module::cfg::{CfgError, EdgeFailure};

#[test]
fn more_resolution_errors() {
    let rc = RegexContainer::new().unwrap();
    let mut subs = extract_subroutines("0000000000400580 <main>:\n  400580:\t54000040 \tb.eq\n  400584:\td65f03c0 \tret\n\n", &rc).unwrap();
    assert_eq!(
        compute_target_ids(&mut subs, "", &rc.gem5_trace_indirect_branch),
        Err(ResolveError::NoTargetOperand(id(0, 0)))
    );
    let mut subs = extract_subroutines(
        "0000000000400580 <main>:\n  400580:\td65f03c0 \tret\n  400584:\td2800000 \tmov\tx0, #0x0\n\n",
        &rc,
    )
    .unwrap();
    assert_eq!(
        compute_target_ids(&mut subs, "", &rc.gem5_trace_indirect_branch),
        Err(ResolveError::EmptyReturnStack(id(0, 0)))
    );
}

fn inst(at: AssemblyInstructionId, content: &str, inst_type: AssemblyInstructionType) -> AssemblyInstruction {
    AssemblyInstruction { id: at, source_line_number: 0, asm_line_number: 0, content: content.to_string(), inst_type }
}

fn main_of(insts: Vec<AssemblyInstruction>) -> Subroutine {
    Subroutine { definition_label: "0000000000400580 <main>:".to_string(), start_line: 1, end_line: 2, asm_insts: insts, necessary: false }
}

#[test]
fn more_leader_and_block_errors() {
    let rc = RegexContainer::new().unwrap();
    let mut empty = extract_subroutines("0000000000400580 <main>:\n\n", &rc).unwrap();
    assert_eq!(extract_leaders_ids(&mut empty), Err(LeaderError::Unfinished));
    let r = AssemblyData::new("", "p".to_string(), "0000000000400580 <main>:\n\n", &rc);
    assert_eq!(r.err(), Some(AfdError::Leaders(LeaderError::Unfinished)));
    let mut subs = vec![main_of(vec![
        inst(id(0, 0), "400580:\t94000003 \tbl\t400990", AssemblyInstructionType::CtiUnconditional("bl".to_string(), Some(id(5, 0)))),
        inst(id(0, 1), "400584:\td65f03c0 \tret", AssemblyInstructionType::CtiUnconditional("ret".to_string(), None)),
    ])];
    assert_eq!(extract_leaders_ids(&mut subs), Err(LeaderError::TargetOutOfRange(id(0, 0))));
    assert_eq!(extract_basic_blocks(&subs, vec![id(3, 0)]).err(), Some(BlockError::OutOfRange(id(3, 0))));
}

#[test]
fn edges_that_cannot_be_found() {
    let subs = vec![main_of(vec![
        inst(id(0, 0), "400580:\td2800000 \tmov\tx0, #0x0", AssemblyInstructionType::Ncti("mov".to_string())),
        inst(id(0, 1), "400584:\t17ffffff \tb\t400584", AssemblyInstructionType::CtiUnconditional("b".to_string(), Some(id(0, 1)))),
    ])];
    let copy = |subs: &Vec<Subroutine>| -> Vec<Subroutine> {
        subs.iter()
            .map(|s| Subroutine {
                definition_label: s.definition_label.clone(),
                start_line: s.start_line,
                end_line: s.end_line,
                asm_insts: s.asm_insts.clone(),
                necessary: s.necessary,
            })
            .collect()
    };
    let data = AssemblyData {
        asm_path: "p".to_string(),
        subroutines: copy(&subs),
        basic_blocks: vec![BasicBlock::new(vec![id(0, 0), id(0, 1)], vec![])],
    };
    let mut cfg = ControlFlowGraph::new(vec![data]);
    assert_eq!(
        cfg.find_edge_failure(),
        Some(CfgError { failure: EdgeFailure::NoBlockAtTarget, program: 0, block: 0 })
    );
    let data = AssemblyData {
        asm_path: "p".to_string(),
        subroutines: copy(&subs),
        basic_blocks: vec![
            BasicBlock::new(vec![id(0, 0)], vec![]),
            BasicBlock::new(vec![], vec![]),
            BasicBlock::new(vec![id(0, 1)], vec![]),
        ],
    };
    let mut cfg = ControlFlowGraph::new(vec![data]);
    assert_eq!(
        cfg.find_edge_failure(),
        Some(CfgError { failure: EdgeFailure::NoLastInstruction, program: 0, block: 1 })
    );
    let data = AssemblyData {
        asm_path: "p".to_string(),
        subroutines: copy(&subs),
        basic_blocks: vec![BasicBlock::new(vec![], vec![]), BasicBlock::new(vec![id(0, 0), id(0, 1)], vec![])],
    };
    let mut cfg = ControlFlowGraph::new(vec![data]);
    assert!(!cfg.is_well_formed());
    assert_eq!(
        cfg.find_edge_failure(),
        Some(CfgError { failure: EdgeFailure::NoLastInstruction, program: 0, block: 0 })
    );
}
