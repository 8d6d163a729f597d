use afd::module::checkpoint::{capture_assembly_instruction, instruction_checkpoint, CheckpointError};
use afd::module::instruction::{
    extract_address, extract_target_address, AssemblyInstruction, BranchType, ConditionalBranch,
    CtiData, InstructionType, TargetAddress, UnconditionalBranch,
};
use afd::module::regex::RegexContainer;
use afd::pattern::{Pattern, RegexMatch};

const BL_LINE: &str = "400584:\t94000003 \tbl\t400590 <foo>";
const BEQ_LINE: &str = "400594:\t54000040 \tb.eq\t40059c <foo+0xc>";
const STP_LINE: &str = "400580:\ta9bf7bfd \tstp\tx29, x30, [sp, #-16]!";
const BR_LINE: &str = "4005a0:\td61f0200 \tbr\tx16";

const ASM_INST_PATTERN: &str = r#"asm_inst:\{\s*raw_content:"(.*)",\s*line_number:(\d+),\s*address:"(\w+)",\s*inst_type:(Cti\(\s*cti_data:\{\s*target_adr:(.+),\s*branch_type:(.+),\s*reachable:(\w+)\s*\}\s*\)|Ncti)\s*\},"#;

#[test]
fn mnemonics_and_conditions() {
    assert_eq!(ConditionalBranch::BDotEq.value(), "b.eq");
    assert_eq!(ConditionalBranch::BDotEq.branch_condition(), "Z == 1");
    assert_eq!(ConditionalBranch::BDotEq.branch_condition_complement(), "Z != 1");
    assert_eq!(ConditionalBranch::BDotHi.branch_condition(), "C == 1 and Z == 0");
    assert_eq!(ConditionalBranch::BDotHi.branch_condition_complement(), "C != 1 or Z != 0");
    assert_eq!(ConditionalBranch::Cbnz.value(), "cbnz");
    assert_eq!(ConditionalBranch::Tbz.branch_condition(), "selected bit == 0");
    assert_eq!(UnconditionalBranch::Ret.value(), "ret");
    assert_eq!(UnconditionalBranch::BCDotNv.value(), "bc.nv");
    assert_eq!(UnconditionalBranch::Bl.branch_condition(), "true");
    assert_eq!(UnconditionalBranch::Bl.branch_condition_complement(), "false");
    let b = BranchType::ConditionalBranch(ConditionalBranch::BCDotLe);
    assert_eq!(b.value(), "bc.le");
    assert_eq!(b.branch_condition(), "Z == 1 or N != V");
    assert_eq!(b.branch_condition_complement(), "Z != 1 and N == V");
    let u = BranchType::UnconditionalBranch(UnconditionalBranch::Blraaz);
    assert_eq!(u.value(), "blraaz");
    assert_eq!(u.branch_condition(), "true");
    assert_eq!(u.branch_condition_complement(), "false");
}

#[test]
fn call_line_is_a_direct_control_transfer() {
    let rc = RegexContainer::new().unwrap();
    let i = AssemblyInstruction::new(BL_LINE, 9, &rc);
    assert_eq!(i.raw_content(), BL_LINE);
    assert_eq!(i.address(), "400584");
    assert_eq!(i.line_number, 9);
    assert_eq!(
        i.instruction_type,
        InstructionType::Cti(CtiData {
            target_address: TargetAddress::Direct("400590".to_string()),
            branch_type: BranchType::UnconditionalBranch(UnconditionalBranch::Bl),
            reachable: true,
        })
    );
    assert_eq!(i.cti_condtions(), ("bl", "400590", "400584"));
    assert_eq!(i.get_target_address(), Some(TargetAddress::Direct("400590".to_string())));
}

#[test]
fn conditional_line_and_register_branch() {
    let rc = RegexContainer::new().unwrap();
    let i = AssemblyInstruction::new(BEQ_LINE, 16, &rc);
    assert_eq!(i.cti_condtions(), ("b.eq", "40059c", "400594"));
    let r = AssemblyInstruction::new(BR_LINE, 20, &rc);
    assert_eq!(r.get_target_address(), Some(TargetAddress::Indirect("x16".to_string())));
}

#[test]
fn other_lines_are_not_control_transfers() {
    let rc = RegexContainer::new().unwrap();
    let i = AssemblyInstruction::new(STP_LINE, 3, &rc);
    assert_eq!(i.instruction_type, InstructionType::Ncti);
    assert_eq!(i.get_target_address(), None);
    assert_eq!(i.formatted_string(), "Line Number: 3, Address: 400580, Type: [NCTI]");
    assert!(AssemblyInstruction::try_new(STP_LINE, 3, &rc).is_some());
}

#[test]
fn formatted_control_transfer() {
    let rc = RegexContainer::new().unwrap();
    let i = AssemblyInstruction::new(BL_LINE, 9, &rc);
    assert_eq!(
        i.formatted_string(),
        "Line Number: 9, Address: 400584, Type: [CTI] ==> Target Address: Direct(\"400590\"), Branch Type: UnconditionalBranch(Bl)"
    );
    let c = AssemblyInstruction::new(BEQ_LINE, 16, &rc);
    assert_eq!(
        c.formatted_string(),
        "Line Number: 16, Address: 400594, Type: [CTI] ==> Target Address: Direct(\"40059c\"), Branch Type: ConditionalBranch(BDotEq)"
    );
}

#[test]
fn targets_can_be_set_and_flagged() {
    let rc = RegexContainer::new().unwrap();
    let mut i = AssemblyInstruction::new(BR_LINE, 20, &rc);
    i.set_direct_target_address("400600".to_string());
    i.flag_as_unreachable();
    assert_eq!(
        i.instruction_type,
        InstructionType::Cti(CtiData {
            target_address: TargetAddress::Direct("400600".to_string()),
            branch_type: BranchType::UnconditionalBranch(UnconditionalBranch::Br),
            reachable: false,
        })
    );
    assert_eq!(TargetAddress::Indirect("x1".to_string()).value(), "x1");
}

#[test]
fn addresses_of_lines() {
    assert_eq!(extract_address(BL_LINE), "400584");
    assert_eq!(extract_address("no tab"), "no tab");
    let p = Pattern::new(r"(\w+)(?:\s+<.+>)?$").unwrap();
    assert_eq!(
        extract_target_address(BL_LINE, &p, &BranchType::UnconditionalBranch(UnconditionalBranch::Bl)),
        TargetAddress::Direct("400590".to_string())
    );
    assert_eq!(
        extract_target_address("x\tret\tx30", &p, &BranchType::UnconditionalBranch(UnconditionalBranch::Ret)),
        TargetAddress::Indirect("x30".to_string())
    );
}

#[test]
fn checkpoint_entry_of_an_instruction() {
    let rc = RegexContainer::new().unwrap();
    let i = AssemblyInstruction::new(BL_LINE, 9, &rc);
    assert_eq!(
        instruction_checkpoint(&i),
        "              asm_inst:{\n                raw_content:\"400584:\t94000003 \tbl\t400590 <foo>\",\n                line_number:9,\n                address:\"400584\",\n                inst_type:Cti(\n                  cti_data:{\n                    target_adr:Direct(400590),\n                    branch_type:UnconditionalBranch(bl),\n                    reachable:true\n                  }\n                )\n              },"
    );
    let n = AssemblyInstruction::new(STP_LINE, 3, &rc);
    assert!(instruction_checkpoint(&n).ends_with("inst_type:Ncti\n              },"));
}

#[test]
fn checkpoint_entries_read_back() {
    let rc = RegexContainer::new().unwrap();
    let p = Pattern::new(ASM_INST_PATTERN).unwrap();
    for (line, n) in [(BL_LINE, 9u32), (BEQ_LINE, 16), (STP_LINE, 3), (BR_LINE, 20)] {
        let i = AssemblyInstruction::new(line, n, &rc);
        let text = instruction_checkpoint(&i);
        let caps = p.captures(&text).unwrap();
        assert_eq!(capture_assembly_instruction(&caps), i);
    }
}

fn caps(groups: Vec<Option<&str>>) -> RegexMatch {
    RegexMatch {
        before: String::new(),
        groups: groups.into_iter().map(|g| g.map(|s| s.to_string())).collect(),
        after: String::new(),
    }
}

#[test]
fn checkpoint_fields_read_back() {
    let ok = vec![
        Some("x"),
        Some("raw"),
        Some("12"),
        Some("4005a0"),
        Some("Cti(...)"),
        Some("Indirect(x16)"),
        Some("UnconditionalBranch(br)"),
        Some("false"),
    ];
    let i = capture_assembly_instruction(&caps(ok));
    assert_eq!(i.line_number, 12);
    assert_eq!(
        i.instruction_type,
        InstructionType::Cti(CtiData {
            target_address: TargetAddress::Indirect("x16".to_string()),
            branch_type: BranchType::UnconditionalBranch(UnconditionalBranch::Br),
            reachable: false,
        })
    );
    let n = capture_assembly_instruction(&caps(vec![Some("x"), Some("r"), Some("1"), Some("a"), Some("Ncti")]));
    assert_eq!(n.instruction_type, InstructionType::Ncti);
}

#[test]
fn unreadable_checkpoint_instructions() {
    let text = save_checkpoint(&sample_checkpoint());
    assert_eq!(load_checkpoint(&text.replace("target_adr:Direct(400590)", "target_adr:Far(400590)")), Err(CheckpointError::BadTarget));
    assert_eq!(
        load_checkpoint(&text.replace("branch_type:UnconditionalBranch(bl)", "branch_type:ConditionalBranch(bl)")),
        Err(CheckpointError::BadBranchType)
    );
    assert_eq!(
        load_checkpoint(&text.replace("line_number:9,", "line_number:99999999999,")),
        Err(CheckpointError::BadLineNumber)
    );
}

use afd::module::cfg::Edge;
use afd::module::checkpoint::{
    load_checkpoint, save_checkpoint, Checkpoint, CheckpointBlock, CheckpointData, CheckpointSubroutine,
};

fn sample_checkpoint() -> Checkpoint {
    let rc = RegexContainer::new().unwrap();
    let stp = AssemblyInstruction::new(STP_LINE, 8, &rc);
    let bl = AssemblyInstruction::new(BL_LINE, 9, &rc);
    let beq = AssemblyInstruction::new(BEQ_LINE, 15, &rc);
    Checkpoint {
        asm_data_vec: vec![CheckpointData {
            asm_path: "prog.asm".to_string(),
            subroutines: vec![
                CheckpointSubroutine {
                    definition_label: "0000000000400580 <main>:".to_string(),
                    start_line: 8,
                    end_line: 11,
                    assembly_instructions: vec![stp.clone(), bl.clone()],
                    necessary: true,
                },
                CheckpointSubroutine {
                    definition_label: "0000000000400590 <foo>:".to_string(),
                    start_line: 14,
                    end_line: 17,
                    assembly_instructions: vec![beq.clone()],
                    necessary: false,
                },
            ],
            basic_blocks: vec![
                CheckpointBlock {
                    assembly_instructions: vec![stp, bl],
                    edges: vec![Edge::new("true".to_string(), 2)],
                    subroutine_index: 0,
                },
                CheckpointBlock {
                    assembly_instructions: vec![beq],
                    edges: vec![Edge::new("Z == 1".to_string(), 4), Edge::new("Z != 1".to_string(), 3)],
                    subroutine_index: 1,
                },
            ],
        }],
    }
}

#[test]
fn checkpoint_text_layout() {
    let text = save_checkpoint(&sample_checkpoint());
    assert!(text.starts_with("asm_analyzer:{\n  cfg:{\n    asm_data_vec:[\n      asm_data:{\n        asm_path:\"prog.asm\",\n        subroutines:[\n          subroutine:{\n            definition_label:\"0000000000400580 <main>:\",\n            start_line:8,\n            end_line:11,\n            asm_insts:[\n"));
    assert!(text.contains("            ],\n            necessary:true\n          },\n"));
    assert!(text.contains("              edge:{\n                condition:\"Z != 1\",\n                dest_index:3\n              },\n            ],\n            subr_index:1\n          },\n        ]\n      },\n    ]\n  }\n}"));
    assert!(text.ends_with("    ]\n  }\n}"));
    assert_eq!(save_checkpoint(&Checkpoint { asm_data_vec: vec![] }), "asm_analyzer:{\n  cfg:{\n    asm_data_vec:[\n    ]\n  }\n}");
}

#[test]
fn checkpoint_is_read_back() {
    let c = sample_checkpoint();
    let text = save_checkpoint(&c);
    assert_eq!(load_checkpoint(&text), Ok(c));
    assert_eq!(load_checkpoint(""), Ok(Checkpoint { asm_data_vec: vec![] }));
}

#[test]
fn unreadable_checkpoint_numbers() {
    let text = save_checkpoint(&sample_checkpoint()).replace("start_line:8", "start_line:99999999999");
    assert_eq!(load_checkpoint(&text), Err(CheckpointError::BadSubroutine));
    let text = save_checkpoint(&sample_checkpoint()).replace("subr_index:1", "subr_index:99999999999999999999999");
    assert_eq!(load_checkpoint(&text), Err(CheckpointError::BadBlock));
    let text = save_checkpoint(&sample_checkpoint()).replace("reachable:true", "reachable:maybe");
    assert_eq!(load_checkpoint(&text), Err(CheckpointError::BadReachable));
}

#[test]
fn unreadable_edge_destination() {
    let text = save_checkpoint(&sample_checkpoint()).replace("dest_index:3", "dest_index:x3");
    assert_eq!(load_checkpoint(&text).map(|c| c.asm_data_vec[0].basic_blocks[1].edges.len()), Ok(1));
    let text = save_checkpoint(&sample_checkpoint()).replace("dest_index:3", "dest_index:99999999999999999999999");
    assert_eq!(load_checkpoint(&text), Err(CheckpointError::BadEdge));
}

fn eval_atom(a: &str, f: &[(&str, i64)]) -> bool {
    let (l, r, eq) = match a.split_once(" == ") {
        Some((l, r)) => (l, r, true),
        None => {
            let (l, r) = a.split_once(" != ").unwrap();
            (l, r, false)
        }
    };
    let v = |x: &str| f.iter().find(|p| p.0 == x).map(|p| p.1).unwrap_or_else(|| x.parse().unwrap());
    (v(l) == v(r)) == eq
}

fn eval(c: &str, f: &[(&str, i64)]) -> bool {
    match c {
        "true" => true,
        "false" => false,
        _ => match c.split_once(" and ") {
            Some((a, b)) => eval_atom(a, f) && eval_atom(b, f),
            None => match c.split_once(" or ") {
                Some((a, b)) => eval_atom(a, f) || eval_atom(b, f),
                None => eval_atom(c, f),
            },
        },
    }
}

#[test]
fn complement_conditions_negate_conditions() {
    let all = [
        ConditionalBranch::BDotEq,
        ConditionalBranch::BDotNe,
        ConditionalBranch::BDotCs,
        ConditionalBranch::BDotCc,
        ConditionalBranch::BDotMi,
        ConditionalBranch::BDotPl,
        ConditionalBranch::BDotVs,
        ConditionalBranch::BDotVc,
        ConditionalBranch::BDotHi,
        ConditionalBranch::BDotLs,
        ConditionalBranch::BDotGe,
        ConditionalBranch::BDotLt,
        ConditionalBranch::BDotGt,
        ConditionalBranch::BDotLe,
        ConditionalBranch::BCDotEq,
        ConditionalBranch::BCDotNe,
        ConditionalBranch::BCDotCs,
        ConditionalBranch::BCDotCc,
        ConditionalBranch::BCDotMi,
        ConditionalBranch::BCDotPl,
        ConditionalBranch::BCDotVs,
        ConditionalBranch::BCDotVc,
        ConditionalBranch::BCDotHi,
        ConditionalBranch::BCDotLs,
        ConditionalBranch::BCDotGe,
        ConditionalBranch::BCDotLt,
        ConditionalBranch::BCDotGt,
        ConditionalBranch::BCDotLe,
        ConditionalBranch::Cbz,
        ConditionalBranch::Cbnz,
        ConditionalBranch::Tbz,
        ConditionalBranch::Tbnz,
    ];
    for cb in all {
        for bits in 0..64u32 {
            let b = |k: u32| ((bits >> k) & 1) as i64;
            let f = [("N", b(0)), ("Z", b(1)), ("C", b(2)), ("V", b(3)), ("register", b(4) * 7), ("selected bit", b(5))];
            assert_eq!(eval(cb.branch_condition_complement(), &f), !eval(cb.branch_condition(), &f));
        }
    }
    let u = BranchType::UnconditionalBranch(UnconditionalBranch::B);
    assert_eq!(eval(&u.branch_condition_complement(), &[]), !eval(&u.branch_condition(), &[]));
}
