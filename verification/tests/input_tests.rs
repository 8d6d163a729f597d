use afd::module::input::{
    parent_dir, process_input_files, uncommented_text, Cli, FileType, InputError, InputManager, Step,
};
use afd::module::regex::RegexContainer;

const SRC: &str = "/home/u/benchmarks/wcet/sources/fib.c";
const BIN: &str = "/home/u/benchmarks/wcet/binaries/fib.run";

fn from_sources(rc: &RegexContainer) -> InputManager {
    let cli = Cli { source_path: Some("benchmarks/wcet/sources".to_string()), binary_path: None };
    InputManager::new(&cli, vec![SRC.to_string()], &rc.src_file_regex).unwrap()
}

#[test]
fn input_path_prefers_sources() {
    let both = Cli { source_path: Some("s".to_string()), binary_path: Some("b".to_string()) };
    assert_eq!(both.input_path(), Some("s".to_string()));
    let bin = Cli { source_path: None, binary_path: Some("b".to_string()) };
    assert_eq!(bin.input_path(), Some("b".to_string()));
    let none = Cli { source_path: None, binary_path: None };
    assert_eq!(none.input_path(), None);
}

#[test]
fn binaries_of_sources() {
    let rc = RegexContainer::new().unwrap();
    let m = from_sources(&rc);
    assert_eq!(m.get_binary_paths(), &vec![BIN.to_string()]);
    assert_eq!(m.get_source_paths(), Some(&vec![SRC.to_string()]));
}

#[test]
fn input_errors() {
    let rc = RegexContainer::new().unwrap();
    let bin = Cli { source_path: None, binary_path: Some("b".to_string()) };
    let m = InputManager::new(&bin, vec!["x/prog.run".to_string()], &rc.src_file_regex).unwrap();
    assert_eq!(m.get_source_paths(), None);
    assert_eq!(m.get_binary_paths(), &vec!["x/prog.run".to_string()]);
    assert_eq!(parent_dir("noslash"), Err(InputError::NoParentDir("noslash".to_string())));
    assert_eq!(parent_dir("a/b/c.txt"), Ok("a/b".to_string()));
}

#[test]
fn paths_of_the_disassemblies() {
    let rc = RegexContainer::new().unwrap();
    let mut m = from_sources(&rc);
    assert_eq!(
        m.get_assembly_paths(&rc.bin_file_regex, FileType::Original),
        Ok(vec!["/home/u/benchmarks/wcet/assemblies/original/fib.asm".to_string()])
    );
    assert_eq!(
        m.get_assembly_paths(&rc.bin_file_regex, FileType::Uncommented),
        Ok(vec!["/home/u/benchmarks/wcet/assemblies/uncommented/fib.uncommented.asm".to_string()])
    );
    assert_eq!(
        m.get_assembly_paths(&rc.bin_file_regex, FileType::Cleaned),
        Ok(vec!["/home/u/workspace/cleaned_assemblies/fib.cleaned.asm".to_string()])
    );
    assert_eq!(
        m.gem5_trace_paths(&rc.bin_file_regex),
        Ok(vec!["/home/u/workspace/gem5_branch_traces/fib.trace".to_string()])
    );
    assert_eq!(m.get_cfg_paths(&rc.bin_file_regex), Ok(vec!["/home/u/workspace/cfgs/fib".to_string()]));
}

#[test]
fn original_paths_are_kept() {
    let rc = RegexContainer::new().unwrap();
    let mut m = from_sources(&rc);
    let first = m.get_assembly_paths(&rc.bin_file_regex, FileType::Original).unwrap();
    let again = m.get_assembly_paths(&rc.src_file_regex, FileType::Original).unwrap();
    assert_eq!(first, again);
    let t1 = m.gem5_trace_paths(&rc.bin_file_regex).unwrap();
    let t2 = m.gem5_trace_paths(&rc.src_file_regex).unwrap();
    assert_eq!(t1, t2);
}

#[test]
fn plan_of_the_preparation() {
    let rc = RegexContainer::new().unwrap();
    let mut m = from_sources(&rc);
    let plan = process_input_files(&mut m, &rc).unwrap();
    let original = "/home/u/benchmarks/wcet/assemblies/original/fib.asm".to_string();
    let uncommented = "/home/u/benchmarks/wcet/assemblies/uncommented/fib.uncommented.asm".to_string();
    assert_eq!(
        plan,
        vec![
            Step::Compile { source: SRC.to_string(), binary: BIN.to_string() },
            Step::CreateDir("/home/u/benchmarks/wcet/assemblies/original".to_string()),
            Step::CreateDir("/home/u/benchmarks/wcet/assemblies/uncommented".to_string()),
            Step::Disassemble { binary: BIN.to_string(), assembly: original.clone() },
            Step::Uncomment { assembly: original, uncommented: uncommented },
            Step::Simulate { binary: BIN.to_string(), trace_name: "fib".to_string() },
        ]
    );
}

#[test]
fn plan_for_a_binary_without_run_extension() {
    let rc = RegexContainer::new().unwrap();
    let bin = Cli { source_path: None, binary_path: Some("b".to_string()) };
    let mut m = InputManager::new(&bin, vec!["x/prog.bin".to_string()], &rc.src_file_regex).unwrap();
    assert_eq!(process_input_files(&mut m, &rc), Err(InputError::NoFileName("x/prog.bin".to_string())));
    let mut e = InputManager::new(&bin, vec![], &rc.src_file_regex).unwrap();
    assert_eq!(process_input_files(&mut e, &rc), Err(InputError::NoFiles));
    let mut n = InputManager::new(&bin, vec!["prog.run".to_string()], &rc.src_file_regex).unwrap();
    assert_eq!(process_input_files(&mut n, &rc), Err(InputError::NoParentDir("prog.run".to_string())));
}

#[test]
fn comments_are_removed() {
    assert_eq!(
        uncommented_text("  400580:\tstp x29 // save\n\n  mov x0, #0\t\r\n// only comment"),
        "400580:\tstp x29\n\nmov x0, #0\n"
    );
    assert_eq!(uncommented_text(""), "");
}

#[test]
fn path_without_the_groups_of_the_pattern() {
    let p = afd::pattern::Pattern::new("(a)?(b)?").unwrap();
    let src = Cli { source_path: Some("s".to_string()), binary_path: None };
    assert_eq!(
        InputManager::new(&src, vec!["c".to_string()], &p).err(),
        Some(InputError::PathMismatch("c".to_string()))
    );
}
