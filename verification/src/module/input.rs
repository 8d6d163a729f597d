//! The input files of the analysis: where the sources, binaries, disassemblies
//! and branch traces of the programs lie, and what must be run to make them.
use vstd::prelude::*;
use crate::module::analyzer::cleaned_line;
use crate::module::config::{
    ASSEMBLY_EXT_CLEANED, ASSEMBLY_EXT_ORGINAL, ASSEMBLY_EXT_UNCOMMENTED, BINARY_EXT, TRACE_EXT,
};
use crate::module::regex::RegexContainer;
use crate::pattern::{regex_captures, Pattern};
use crate::text::{before_last, before_last_str, join, lines};

verus! {

/// The command line options of the program.
pub struct Cli {
    /// Path to the source files. If set, '--binary_path' option will be ignored.
    pub source_path: Option<String>,
    /// Path to the binary files. If no '--source_path' option is set this option will be used.
    pub binary_path: Option<String>,
}

impl Cli {
    /// The path whose files the program reads: the source path where it is
    /// set, else the binary path.
    pub fn input_path(&self) -> (r: Option<String>)
        ensures
            r.deep_view() == (if self.source_path is Some {
                self.source_path.deep_view()
            } else {
                self.binary_path.deep_view()
            }),
    {
        match &self.source_path {
            Some(s) => Some(s.clone()),
            None => match &self.binary_path {
                Some(b) => Some(b.clone()),
                None => None,
            },
        }
    }
}

/// The kinds of disassembly files.
pub enum FileType {
    /// The disassembly as the disassembler wrote it.
    Original,
    /// The disassembly without its comments.
    Uncommented,
    /// The disassembly reduced to its subroutines.
    Cleaned,
}

/// Why the input files could not be named.
#[derive(Debug, PartialEq, Eq)]
pub enum InputError {
    /// There is no input file.
    NoFiles,
    /// The path expression matched this path without a group that the new
    /// path takes.
    PathMismatch(String),
    /// This path holds no `/`, so it names no parent directory.
    NoParentDir(String),
    /// The name of this binary, before its `.run` extension, could not be read.
    NoFileName(String),
    /// This expression does not compile.
    InvalidPattern(String),
}

/// The abstract value of an [`InputError`].
pub enum InputErrorView {
    NoFiles,
    PathMismatch(Seq<char>),
    NoParentDir(Seq<char>),
    NoFileName(Seq<char>),
    InvalidPattern(Seq<char>),
}

impl View for InputError {
    type V = InputErrorView;

    open spec fn view(&self) -> InputErrorView {
        match self {
            InputError::NoFiles => InputErrorView::NoFiles,
            InputError::PathMismatch(p) => InputErrorView::PathMismatch(p@),
            InputError::NoParentDir(p) => InputErrorView::NoParentDir(p@),
            InputError::NoFileName(p) => InputErrorView::NoFileName(p@),
            InputError::InvalidPattern(p) => InputErrorView::InvalidPattern(p@),
        }
    }
}

/// The abstract value of a list of paths, or of the error met in naming them.
pub open spec fn paths_result(r: Result<Vec<String>, InputError>) -> Result<Seq<Seq<char>>, InputErrorView> {
    match r {
        Ok(v) => Ok(v.deep_view()),
        Err(e) => Err(e@),
    }
}

/// `path` with the first match of `pattern` replaced by group 1 (where
/// `keep_first` holds), `middle`, group 2 and `ext`; `path` itself where the
/// expression does not match. `None` where a group that the new path takes
/// took no part in the match.
pub open spec fn replaced_path(
    pattern: Seq<char>,
    path: Seq<char>,
    keep_first: bool,
    middle: Seq<char>,
    ext: Seq<char>,
) -> Option<Seq<char>> {
    match regex_captures(pattern, path) {
        None => Some(path),
        Some(m) => if m.1.len() > 2 && m.1[2] is Some && (keep_first ==> m.1[1] is Some) {
            Some(
                m.0 + (if keep_first {
                    m.1[1].unwrap()
                } else {
                    seq![]
                }) + middle + m.1[2].unwrap() + ext + m.2,
            )
        } else {
            None
        },
    }
}

/// Each path of `paths` replaced as [`replaced_path`] says, or the first path
/// that cannot be.
pub open spec fn paths_of(
    pattern: Seq<char>,
    paths: Seq<Seq<char>>,
    keep_first: bool,
    middle: Seq<char>,
    ext: Seq<char>,
) -> Result<Seq<Seq<char>>, InputErrorView>
    decreases paths.len(),
{
    if paths.len() == 0 {
        Ok(seq![])
    } else {
        match paths_of(pattern, paths.drop_last(), keep_first, middle, ext) {
            Err(e) => Err(e),
            Ok(done) => match replaced_path(pattern, paths.last(), keep_first, middle, ext) {
                Some(q) => Ok(done.push(q)),
                None => Err(InputErrorView::PathMismatch(paths.last())),
            },
        }
    }
}

/// The first match of `pattern` in `path` replaced as [`replaced_path`] says.
/// (This is `Regex::replace` with a replacement made of the capture groups:
/// the text before the match, the replacement, and the text after it.)
fn replace_path(pattern: &Pattern, path: &str, keep_first: bool, middle: &str, ext: &str) -> (r: Option<String>)
    ensures
        r.deep_view() == replaced_path(pattern@, path@, keep_first, middle@, ext@),
{
    match pattern.captures(path) {
        None => Some(String::from_str(path)),
        Some(m) => {
            if m.groups.len() <= 2 {
                return None;
            }
            let second = match &m.groups[2] {
                Some(g) => g,
                None => {
                    return None;
                },
            };
            let lead = if keep_first {
                match &m.groups[1] {
                    Some(g) => g.clone(),
                    None => {
                        return None;
                    },
                }
            } else {
                String::new()
            };
            proof {
                let groups = m.groups.deep_view();
                assert(groups[2] == Some(second@));
                assert(keep_first ==> groups[1] == Some(lead@));
                assert(!keep_first ==> lead@ == Seq::<char>::empty());
            }
            Some(
                m.before.clone().concat(lead.as_str()).concat(middle).concat(second.as_str()).concat(
                    ext,
                ).concat(m.after.as_str()),
            )
        },
    }
}

/// Each path of `paths` replaced as [`replaced_path`] says.
fn replace_paths(pattern: &Pattern, paths: &Vec<String>, keep_first: bool, middle: &str, ext: &str) -> (r:
    Result<Vec<String>, InputError>)
    ensures
        paths_result(r) == paths_of(pattern@, paths.deep_view(), keep_first, middle@, ext@),
{
    let mut out: Vec<String> = Vec::new();
    let mut i: usize = 0;
    assert(paths.deep_view().take(0) =~= Seq::<Seq<char>>::empty());
    assert(out.deep_view() =~= Seq::<Seq<char>>::empty());
    while i < paths.len()
        invariant
            i <= paths@.len(),
            paths_of(pattern@, paths.deep_view().take(i as int), keep_first, middle@, ext@) == Ok::<
                Seq<Seq<char>>,
                InputErrorView,
            >(out.deep_view()),
        decreases paths@.len() - i,
    {
        assert(paths.deep_view().take(i + 1).drop_last() =~= paths.deep_view().take(i as int));
        assert(paths.deep_view().take(i + 1).last() == paths@[i as int]@);
        match replace_path(pattern, paths[i].as_str(), keep_first, middle, ext) {
            Some(q) => {
                let ghost before = out.deep_view();
                out.push(q);
                assert(out.deep_view() =~= before.push(q@));
            },
            None => {
                let p = paths[i].clone();
                proof {
                    lemma_paths_of_prefix_err(pattern@, paths.deep_view(), (i + 1) as int, keep_first, middle@, ext@);
                }
                return Err(InputError::PathMismatch(p));
            },
        }
        i = i + 1;
    }
    assert(paths.deep_view().take(paths@.len() as int) =~= paths.deep_view());
    Ok(out)
}

/// An error on a prefix of the paths is the error on all of them.
proof fn lemma_paths_of_prefix_err(
    pattern: Seq<char>,
    paths: Seq<Seq<char>>,
    n: int,
    keep_first: bool,
    middle: Seq<char>,
    ext: Seq<char>,
)
    requires
        0 <= n <= paths.len(),
        paths_of(pattern, paths.take(n), keep_first, middle, ext) is Err,
    ensures
        paths_of(pattern, paths, keep_first, middle, ext) == paths_of(pattern, paths.take(n), keep_first, middle, ext),
    decreases paths.len() - n,
{
    if n < paths.len() {
        assert(paths.take(n + 1).drop_last() =~= paths.take(n));
        lemma_paths_of_prefix_err(pattern, paths, n + 1, keep_first, middle, ext);
    } else {
        assert(paths.take(n) =~= paths);
    }
}

/// The directory part of `path`: what precedes its last `/`.
pub fn parent_dir(path: &str) -> (r: Result<String, InputError>)
    ensures
        before_last(path@, '/') matches Some(d) ==> (r matches Ok(s) && s@ == d),
        before_last(path@, '/') is None ==> (r matches Err(e) && e@ == InputErrorView::NoParentDir(path@)),
{
    match before_last_str(path, '/') {
        Some(d) => Ok(d),
        None => Err(InputError::NoParentDir(String::from_str(path))),
    }
}

/// The disassembly `disassembly` without its comments: each line cut before its first
/// `//` and trimmed, the lines joined by line breaks.
pub fn uncommented_text(disassembly: &str) -> (r: String)
    ensures
        r@ == join(lines(disassembly@).map_values(|l: Seq<char>| cleaned_line(l)), "\n"@),
{
    let ls = crate::text::lines_of(disassembly);
    let mut cleaned: Vec<String> = Vec::new();
    let mut i: usize = 0;
    while i < ls.len()
        invariant
            ls.deep_view() == lines(disassembly@),
            i <= ls@.len(),
            cleaned.deep_view() == lines(disassembly@).take(i as int).map_values(|l: Seq<char>| cleaned_line(l)),
        decreases ls@.len() - i,
    {
        let c = crate::text::trim_str(crate::text::before_first_str(ls[i].as_str(), "//").as_str());
        let ghost before = cleaned.deep_view();
        cleaned.push(c);
        assert(cleaned.deep_view() =~= before.push(c@));
        assert(lines(disassembly@).take(i + 1).map_values(|l: Seq<char>| cleaned_line(l)) =~= lines(disassembly@).take(
            i as int,
        ).map_values(|l: Seq<char>| cleaned_line(l)).push(cleaned_line(ls@[i as int]@)));
        i = i + 1;
    }
    assert(lines(disassembly@).take(ls@.len() as int) =~= lines(disassembly@));
    crate::text::join_strings(&cleaned, "\n")
}

} // verus!

verus! {

/// The paths of the input files of the analyzed programs.
pub struct InputManager {
    src_paths: Option<Vec<String>>,
    bin_paths: Vec<String>,
    asm_paths: Option<Vec<String>>,
    trace_paths: Option<Vec<String>>,
}

/// The abstract value of an [`InputManager`]: the source paths (where the
/// programs are compiled here), the binary paths, and the disassembly and
/// trace paths once they have been named.
pub struct InputView {
    pub src_paths: Option<Seq<Seq<char>>>,
    pub bin_paths: Seq<Seq<char>>,
    pub asm_paths: Option<Seq<Seq<char>>>,
    pub trace_paths: Option<Seq<Seq<char>>>,
}

impl View for InputManager {
    type V = InputView;

    closed spec fn view(&self) -> InputView {
        InputView {
            src_paths: self.src_paths.deep_view(),
            bin_paths: self.bin_paths.deep_view(),
            asm_paths: self.asm_paths.deep_view(),
            trace_paths: self.trace_paths.deep_view(),
        }
    }
}

/// Every list of paths has one path per binary.
pub open spec fn paths_line_up(v: InputView) -> bool {
    &&& (v.src_paths matches Some(s) ==> s.len() == v.bin_paths.len())
    &&& (v.asm_paths matches Some(a) ==> a.len() == v.bin_paths.len())
    &&& (v.trace_paths matches Some(t) ==> t.len() == v.bin_paths.len())
}

/// The binary paths that the sources compile to, each replacing the match of
/// the source expression by group 1, `binaries`, group 2 and the binary extension.
pub open spec fn binary_paths_of(pattern: Seq<char>, sources: Seq<Seq<char>>) -> Result<Seq<Seq<char>>, InputErrorView> {
    paths_of(pattern, sources, true, "binaries"@, BINARY_EXT@)
}

/// The input paths that the options `cli` and the files `files` of the path
/// they name give: where a source path is set, the sources and the binaries
/// they compile to; else the binaries.
pub open spec fn input_view(cli: Cli, files: Seq<Seq<char>>, pattern: Seq<char>) -> Result<InputView, InputErrorView> {
    if cli.source_path is Some {
        match binary_paths_of(pattern, files) {
            Ok(bins) => Ok(InputView { src_paths: Some(files), bin_paths: bins, asm_paths: None, trace_paths: None }),
            Err(e) => Err(e),
        }
    } else {
        Ok(InputView { src_paths: None, bin_paths: files, asm_paths: None, trace_paths: None })
    }
}

/// The paths of the original disassemblies: those named before, or each binary
/// path with `assemblies/original` and the original extension.
pub open spec fn original_paths(v: InputView, pattern: Seq<char>) -> Result<Seq<Seq<char>>, InputErrorView> {
    match v.asm_paths {
        Some(a) => Ok(a),
        None => paths_of(pattern, v.bin_paths, true, "assemblies/original"@, ASSEMBLY_EXT_ORGINAL@),
    }
}

/// The paths of the disassemblies of kind `file_type`.
pub open spec fn assembly_paths(v: InputView, pattern: Seq<char>, file_type: FileType) -> Result<
    Seq<Seq<char>>,
    InputErrorView,
> {
    match original_paths(v, pattern) {
        Err(e) => Err(e),
        Ok(o) => match file_type {
            FileType::Original => Ok(o),
            FileType::Uncommented => paths_of(
                pattern,
                v.bin_paths,
                true,
                "assemblies/uncommented"@,
                ASSEMBLY_EXT_UNCOMMENTED@,
            ),
            FileType::Cleaned => paths_of(
                pattern,
                v.bin_paths,
                false,
                "workspace/cleaned_assemblies"@,
                ASSEMBLY_EXT_CLEANED@,
            ),
        },
    }
}

/// `v` once the original disassembly paths are named.
pub open spec fn with_originals(v: InputView, pattern: Seq<char>) -> InputView {
    match original_paths(v, pattern) {
        Ok(o) => InputView { asm_paths: Some(o), ..v },
        Err(_) => v,
    }
}

/// The paths of the branch traces: those named before, or each binary path
/// with `workspace/gem5_branch_traces` and the trace extension.
pub open spec fn trace_paths(v: InputView, pattern: Seq<char>) -> Result<Seq<Seq<char>>, InputErrorView> {
    match v.trace_paths {
        Some(t) => Ok(t),
        None => paths_of(pattern, v.bin_paths, false, "workspace/gem5_branch_traces"@, TRACE_EXT@),
    }
}

/// A copy of `v`.
fn copy_paths(v: &Vec<String>) -> (r: Vec<String>)
    ensures
        r.deep_view() == v.deep_view(),
{
    let mut r: Vec<String> = Vec::new();
    let mut i: usize = 0;
    while i < v.len()
        invariant
            i <= v@.len(),
            r.deep_view() == v.deep_view().take(i as int),
        decreases v@.len() - i,
    {
        let ghost before = r.deep_view();
        r.push(v[i].clone());
        assert(r.deep_view() =~= before.push(v@[i as int]@));
        assert(v.deep_view().take(i + 1) =~= v.deep_view().take(i as int).push(v@[i as int]@));
        i = i + 1;
    }
    assert(v.deep_view().take(v@.len() as int) =~= v.deep_view());
    r
}

impl InputManager {
    #[verifier::type_invariant]
    spec fn paths_agree(self) -> bool {
        paths_line_up(self@)
    }

    /// The paths of the programs that the options `cli` name: where a source
    /// path is set, its files `files` and the binaries they compile to; else,
    /// where a binary path is set, its files `files`. One of the two paths must
    /// be set, and a source path must hold files. A path that the source
    /// expression matches without the groups the binary path takes is refused
    /// with [`InputError::PathMismatch`].
    pub fn new(cli: &Cli, files: Vec<String>, src_file_regex: &Pattern) -> (r: Result<Self, InputError>)
        requires
            cli.source_path is Some || cli.binary_path is Some,
            cli.source_path is Some ==> files@.len() > 0,
        ensures
            match input_view(*cli, files.deep_view(), src_file_regex@) {
                Ok(v) => r matches Ok(m) && m@ == v,
                Err(e) => r matches Err(f) && f@ == e,
            },
            r matches Ok(m) ==> paths_line_up(m@),
    {
        if cli.source_path.is_some() {
            let bin_paths = replace_paths(src_file_regex, &files, true, "binaries", BINARY_EXT)?;
            proof {
                lemma_paths_of_len(src_file_regex@, files.deep_view(), true, "binaries"@, BINARY_EXT@);
            }
            Ok(Self { src_paths: Some(files), bin_paths, asm_paths: None, trace_paths: None })
        } else {
            Ok(Self { src_paths: None, bin_paths: files, asm_paths: None, trace_paths: None })
        }
    }

    /// The paths of the source files, where the programs are compiled here.
    pub fn get_source_paths(&self) -> (r: Option<&Vec<String>>)
        ensures
            r.deep_view() == self@.src_paths,
    {
        self.src_paths.as_ref()
    }

    pub fn get_binary_paths(&self) -> (r: &Vec<String>)
        ensures
            r.deep_view() == self@.bin_paths,
    {
        &self.bin_paths
    }

    /// The paths of the disassemblies of kind `file_type`. The original paths
    /// are named once and kept. There must be binaries. A binary path that the
    /// expression matches without the groups the new path takes is refused
    /// with [`InputError::PathMismatch`].
    pub fn get_assembly_paths(&mut self, bin_file_regex: &Pattern, file_type: FileType) -> (r: Result<
        Vec<String>,
        InputError,
    >)
        requires
            old(self)@.bin_paths.len() > 0,
        ensures
            final(self)@ == with_originals(old(self)@, bin_file_regex@),
            paths_result(r) == assembly_paths(old(self)@, bin_file_regex@, file_type),
    {
        proof {
            use_type_invariant(&*self);
        }
        if self.asm_paths.is_none() {
            let originals = replace_paths(
                bin_file_regex,
                &self.bin_paths,
                true,
                "assemblies/original",
                ASSEMBLY_EXT_ORGINAL,
            )?;
            proof {
                lemma_paths_of_len(bin_file_regex@, self.bin_paths.deep_view(), true, "assemblies/original"@, ASSEMBLY_EXT_ORGINAL@);
            }
            self.asm_paths = Some(originals);
        }
        match file_type {
            FileType::Original => {
                match &self.asm_paths {
                    Some(a) => Ok(copy_paths(a)),
                    None => Ok(Vec::new()),
                }
            },
            FileType::Uncommented => replace_paths(
                bin_file_regex,
                &self.bin_paths,
                true,
                "assemblies/uncommented",
                ASSEMBLY_EXT_UNCOMMENTED,
            ),
            FileType::Cleaned => replace_paths(
                bin_file_regex,
                &self.bin_paths,
                false,
                "workspace/cleaned_assemblies",
                ASSEMBLY_EXT_CLEANED,
            ),
        }
    }

    /// The paths of the branch traces of the simulated runs, named once and kept.
    pub fn gem5_trace_paths(&mut self, bin_file_regex: &Pattern) -> (r: Result<Vec<String>, InputError>)
        ensures
            paths_result(r) == trace_paths(old(self)@, bin_file_regex@),
            match trace_paths(old(self)@, bin_file_regex@) {
                Ok(t) => final(self)@ == InputView { trace_paths: Some(t), ..old(self)@ },
                Err(_) => final(self)@ == old(self)@,
            },
    {
        proof {
            use_type_invariant(&*self);
        }
        if self.trace_paths.is_none() {
            let traces = replace_paths(
                bin_file_regex,
                &self.bin_paths,
                false,
                "workspace/gem5_branch_traces",
                TRACE_EXT,
            )?;
            proof {
                lemma_paths_of_len(bin_file_regex@, self.bin_paths.deep_view(), false, "workspace/gem5_branch_traces"@, TRACE_EXT@);
            }
            self.trace_paths = Some(traces);
        }
        match &self.trace_paths {
            Some(t) => Ok(copy_paths(t)),
            None => Ok(Vec::new()),
        }
    }
}

/// Replacing keeps the number of paths.
proof fn lemma_paths_of_len(
    pattern: Seq<char>,
    paths: Seq<Seq<char>>,
    keep_first: bool,
    middle: Seq<char>,
    ext: Seq<char>,
)
    ensures
        paths_of(pattern, paths, keep_first, middle, ext) matches Ok(ps) ==> ps.len() == paths.len(),
    decreases paths.len(),
{
    if paths.len() > 0 {
        lemma_paths_of_len(pattern, paths.drop_last(), keep_first, middle, ext);
    }
}

} // verus!

verus! {

/// One piece of outside work that preparing the input files takes.
#[derive(Debug, PartialEq, Eq)]
pub enum Step {
    /// Create this directory, with its parents.
    CreateDir(String),
    /// Compile the C source `source` into the binary `binary`.
    Compile { source: String, binary: String },
    /// Disassemble `binary` into the file `assembly`.
    Disassemble { binary: String, assembly: String },
    /// Write the disassembly in `assembly` without its comments to `uncommented`.
    Uncomment { assembly: String, uncommented: String },
    /// Simulate a run of `binary`; its branch trace takes the name `trace_name`.
    Simulate { binary: String, trace_name: String },
}

/// The abstract value of a [`Step`].
pub enum StepView {
    CreateDir(Seq<char>),
    Compile { source: Seq<char>, binary: Seq<char> },
    Disassemble { binary: Seq<char>, assembly: Seq<char> },
    Uncomment { assembly: Seq<char>, uncommented: Seq<char> },
    Simulate { binary: Seq<char>, trace_name: Seq<char> },
}

impl View for Step {
    type V = StepView;

    open spec fn view(&self) -> StepView {
        match self {
            Step::CreateDir(d) => StepView::CreateDir(d@),
            Step::Compile { source, binary } => StepView::Compile { source: source@, binary: binary@ },
            Step::Disassemble { binary, assembly } => StepView::Disassemble {
                binary: binary@,
                assembly: assembly@,
            },
            Step::Uncomment { assembly, uncommented } => StepView::Uncomment {
                assembly: assembly@,
                uncommented: uncommented@,
            },
            Step::Simulate { binary, trace_name } => StepView::Simulate {
                binary: binary@,
                trace_name: trace_name@,
            },
        }
    }
}

impl DeepView for Step {
    type V = StepView;

    open spec fn deep_view(&self) -> StepView {
        self@
    }
}

/// The abstract value of a plan, or of the error met in making it.
pub open spec fn steps_result(r: Result<Vec<Step>, InputError>) -> Result<Seq<StepView>, InputErrorView> {
    match r {
        Ok(v) => Ok(v.deep_view()),
        Err(e) => Err(e@),
    }
}

/// Compiling each source into the binary of the same rank.
pub open spec fn compile_steps(sources: Seq<Seq<char>>, binaries: Seq<Seq<char>>) -> Seq<StepView> {
    Seq::new(sources.len(), |i: int| StepView::Compile { source: sources[i], binary: binaries[i] })
}

/// Disassembling each binary into the disassembly path of the same rank.
pub open spec fn disassemble_steps(binaries: Seq<Seq<char>>, assemblies: Seq<Seq<char>>) -> Seq<StepView> {
    Seq::new(binaries.len(), |i: int| StepView::Disassemble { binary: binaries[i], assembly: assemblies[i] })
}

/// Writing each disassembly without comments to the path of the same rank.
pub open spec fn uncomment_steps(assemblies: Seq<Seq<char>>, uncommented: Seq<Seq<char>>) -> Seq<StepView> {
    Seq::new(
        assemblies.len(),
        |i: int| StepView::Uncomment { assembly: assemblies[i], uncommented: uncommented[i] },
    )
}

/// Simulating each binary, its trace named by group 1 of `names` in its path;
/// the first binary without such a name is the error.
pub open spec fn simulate_steps(names: Seq<char>, binaries: Seq<Seq<char>>) -> Result<Seq<StepView>, InputErrorView>
    decreases binaries.len(),
{
    if binaries.len() == 0 {
        Ok(seq![])
    } else {
        match simulate_steps(names, binaries.drop_last()) {
            Err(e) => Err(e),
            Ok(done) => match crate::pattern::capture_group(names, binaries.last(), 1) {
                Some(n) => Ok(done.push(StepView::Simulate { binary: binaries.last(), trace_name: n })),
                None => Err(InputErrorView::NoFileName(binaries.last())),
            },
        }
    }
}

/// The outside work that prepares the input files of `v`, in order: compile
/// the sources (where there are any), create the directories of the original
/// and of the uncommented disassemblies, disassemble the binaries, write the
/// uncommented disassemblies, and simulate the binaries. `pattern` names the
/// disassembly paths after the binary paths.
pub open spec fn input_plan(v: InputView, pattern: Seq<char>) -> Result<Seq<StepView>, InputErrorView> {
    let compiles = match v.src_paths {
        Some(s) => compile_steps(s, v.bin_paths),
        None => seq![],
    };
    if v.bin_paths.len() == 0 {
        Err(InputErrorView::NoFiles)
    } else {
    match assembly_paths(v, pattern, FileType::Original) {
        Err(e) => Err(e),
        Ok(originals) => if originals.len() == 0 {
            Err(InputErrorView::NoFiles)
        } else {
            match before_last(originals[0], '/') {
                None => Err(InputErrorView::NoParentDir(originals[0])),
                Some(d1) => match assembly_paths(with_originals(v, pattern), pattern, FileType::Uncommented) {
                    Err(e) => Err(e),
                    Ok(uncommented) => if uncommented.len() == 0 {
                        Err(InputErrorView::NoFiles)
                    } else {
                        match before_last(uncommented[0], '/') {
                            None => Err(InputErrorView::NoParentDir(uncommented[0])),
                            Some(d2) => if !crate::pattern::regex_compiles(
                                crate::module::regex::RUN_FILE_NAME_PATTERN@,
                            ) {
                                Err(
                                    InputErrorView::InvalidPattern(
                                        crate::module::regex::RUN_FILE_NAME_PATTERN@,
                                    ),
                                )
                            } else {
                                match simulate_steps(
                                    crate::module::regex::RUN_FILE_NAME_PATTERN@,
                                    v.bin_paths,
                                ) {
                                    Err(e) => Err(e),
                                    Ok(sims) => Ok(
                                        compiles + seq![StepView::CreateDir(d1), StepView::CreateDir(d2)]
                                            + disassemble_steps(v.bin_paths, originals) + uncomment_steps(
                                            originals,
                                            uncommented,
                                        ) + sims,
                                    ),
                                }
                            }
                        }
                    }
                },
            }
        },
    }
    }
}

} // verus!

verus! {

/// An error on a prefix of the binaries is the error on all of them.
proof fn lemma_simulate_prefix_err(names: Seq<char>, binaries: Seq<Seq<char>>, n: int)
    requires
        0 <= n <= binaries.len(),
        simulate_steps(names, binaries.take(n)) is Err,
    ensures
        simulate_steps(names, binaries) == simulate_steps(names, binaries.take(n)),
    decreases binaries.len() - n,
{
    if n < binaries.len() {
        assert(binaries.take(n + 1).drop_last() =~= binaries.take(n));
        lemma_simulate_prefix_err(names, binaries, n + 1);
    } else {
        assert(binaries.take(n) =~= binaries);
    }
}

/// Simulating each binary of `binaries`, as [`simulate_steps`] says.
fn simulate_plan(names: &Pattern, binaries: &Vec<String>) -> (r: Result<Vec<Step>, InputError>)
    ensures
        steps_result(r) == simulate_steps(names@, binaries.deep_view()),
{
    let mut out: Vec<Step> = Vec::new();
    let mut i: usize = 0;
    assert(binaries.deep_view().take(0) =~= Seq::<Seq<char>>::empty());
    assert(out.deep_view() =~= Seq::<StepView>::empty());
    while i < binaries.len()
        invariant
            i <= binaries@.len(),
            simulate_steps(names@, binaries.deep_view().take(i as int)) == Ok::<Seq<StepView>, InputErrorView>(
                out.deep_view(),
            ),
        decreases binaries@.len() - i,
    {
        assert(binaries.deep_view().take(i + 1).drop_last() =~= binaries.deep_view().take(i as int));
        assert(binaries.deep_view().take(i + 1).last() == binaries@[i as int]@);
        match names.group(binaries[i].as_str(), 1) {
            Some(n) => {
                let ghost before = out.deep_view();
                let step = Step::Simulate { binary: binaries[i].clone(), trace_name: n };
                out.push(step);
                assert(out.deep_view() =~= before.push(step@));
            },
            None => {
                proof {
                    lemma_simulate_prefix_err(names@, binaries.deep_view(), (i + 1) as int);
                }
                return Err(InputError::NoFileName(binaries[i].clone()));
            },
        }
        i = i + 1;
    }
    assert(binaries.deep_view().take(binaries@.len() as int) =~= binaries.deep_view());
    Ok(out)
}

/// Plans the preparation of the input files: what to compile, which
/// directories to create, what to disassemble, which disassemblies to write
/// without comments, and what to simulate (see [`input_plan`]). The original
/// disassembly paths are named on the way and kept. The plan is made whole
/// before any of it is carried out, so a plan that cannot be made leaves
/// nothing half done.
pub fn process_input_files(input_manager: &mut InputManager, regex_container: &RegexContainer) -> (r: Result<
    Vec<Step>,
    InputError,
>)
    ensures
        old(input_manager)@.bin_paths.len() > 0 ==> final(input_manager)@ == with_originals(
            old(input_manager)@,
            regex_container.bin_file_regex@,
        ),
        old(input_manager)@.bin_paths.len() == 0 ==> final(input_manager)@ == old(input_manager)@,
        steps_result(r) == input_plan(old(input_manager)@, regex_container.bin_file_regex@),
{
    proof {
        use_type_invariant(&*input_manager);
    }
    let ghost v = input_manager@;
    let pattern = &regex_container.bin_file_regex;
    let mut steps: Vec<Step> = Vec::new();
    let ghost compiles = match v.src_paths {
        Some(s) => compile_steps(s, v.bin_paths),
        None => seq![],
    };
    match input_manager.get_source_paths() {
        Some(sources) => {
            let binaries = input_manager.get_binary_paths();
            let mut i: usize = 0;
            while i < sources.len()
                invariant
                    sources.deep_view() == v.src_paths.unwrap(),
                    binaries.deep_view() == v.bin_paths,
                    sources@.len() == binaries@.len(),
                    i <= sources@.len(),
                    steps.deep_view() == compile_steps(v.src_paths.unwrap(), v.bin_paths).take(i as int),
                decreases sources@.len() - i,
            {
                let step = Step::Compile { source: sources[i].clone(), binary: binaries[i].clone() };
                let ghost before = steps.deep_view();
                steps.push(step);
                assert(steps.deep_view() =~= before.push(step@));
                assert(compile_steps(v.src_paths.unwrap(), v.bin_paths).take(i + 1) =~= before.push(step@));
                i = i + 1;
            }
            assert(compile_steps(v.src_paths.unwrap(), v.bin_paths).take(sources@.len() as int) =~= compiles);
        },
        None => {
            assert(steps.deep_view() =~= compiles);
        },
    }
    if input_manager.get_binary_paths().len() == 0 {
        return Err(InputError::NoFiles);
    }
    let originals = input_manager.get_assembly_paths(pattern, FileType::Original)?;
    proof {
        use_type_invariant(&*input_manager);
    }
    if originals.len() == 0 {
        return Err(InputError::NoFiles);
    }
    let d1 = parent_dir(originals[0].as_str())?;
    let uncommented = input_manager.get_assembly_paths(pattern, FileType::Uncommented)?;
    proof {
        lemma_paths_of_len(pattern@, v.bin_paths, true, "assemblies/uncommented"@, ASSEMBLY_EXT_UNCOMMENTED@);
    }
    if uncommented.len() == 0 {
        return Err(InputError::NoFiles);
    }
    let d2 = parent_dir(uncommented[0].as_str())?;
    let ghost head = compiles + seq![StepView::CreateDir(d1@), StepView::CreateDir(d2@)];
    let ghost before = steps.deep_view();
    steps.push(Step::CreateDir(d1));
    steps.push(Step::CreateDir(d2));
    assert(steps.deep_view() =~= head);
    let binaries = input_manager.get_binary_paths();
    let mut i: usize = 0;
    while i < binaries.len()
        invariant
            binaries.deep_view() == v.bin_paths,
            originals@.len() == binaries@.len(),
            i <= binaries@.len(),
            steps.deep_view() == head + disassemble_steps(v.bin_paths, originals.deep_view()).take(i as int),
        decreases binaries@.len() - i,
    {
        let step = Step::Disassemble { binary: binaries[i].clone(), assembly: originals[i].clone() };
        let ghost before = steps.deep_view();
        steps.push(step);
        assert(steps.deep_view() =~= before.push(step@));
        assert(disassemble_steps(v.bin_paths, originals.deep_view()).take(i + 1) =~= disassemble_steps(
            v.bin_paths,
            originals.deep_view(),
        ).take(i as int).push(step@));
        i = i + 1;
    }
    let ghost head2 = head + disassemble_steps(v.bin_paths, originals.deep_view());
    assert(steps.deep_view() =~= head2);
    let mut i: usize = 0;
    while i < originals.len()
        invariant
            uncommented@.len() == originals@.len(),
            i <= originals@.len(),
            steps.deep_view() == head2 + uncomment_steps(originals.deep_view(), uncommented.deep_view()).take(i as int),
        decreases originals@.len() - i,
    {
        let step = Step::Uncomment { assembly: originals[i].clone(), uncommented: uncommented[i].clone() };
        let ghost before = steps.deep_view();
        steps.push(step);
        assert(steps.deep_view() =~= before.push(step@));
        assert(uncomment_steps(originals.deep_view(), uncommented.deep_view()).take(i + 1) =~= uncomment_steps(
            originals.deep_view(),
            uncommented.deep_view(),
        ).take(i as int).push(step@));
        i = i + 1;
    }
    let ghost head3 = head2 + uncomment_steps(originals.deep_view(), uncommented.deep_view());
    assert(steps.deep_view() =~= head3);
    let names = match Pattern::new(crate::module::regex::RUN_FILE_NAME_PATTERN) {
        Ok(p) => p,
        Err(_) => {
            return Err(InputError::InvalidPattern(String::from_str(crate::module::regex::RUN_FILE_NAME_PATTERN)));
        },
    };
    let mut sims = simulate_plan(&names, binaries)?;
    let ghost sims_view = sims.deep_view();
    steps.append(&mut sims);
    assert(steps.deep_view() =~= head3 + sims_view);
    Ok(steps)
}

} // verus!

verus! {

impl InputManager {
    /// The paths where the control flow graphs of the programs go: each binary
    /// path with `workspace/cfgs` before its group 2 and no extension (the
    /// writer adds the extension of the format).
    pub fn get_cfg_paths(&self, bin_file_regex: &Pattern) -> (r: Result<Vec<String>, InputError>)
        ensures
            paths_result(r) == paths_of(bin_file_regex@, self@.bin_paths, false, "workspace/cfgs"@, ""@),
    {
        replace_paths(bin_file_regex, &self.bin_paths, false, "workspace/cfgs", "")
    }
}

} // verus!

verus! {

/// The original disassembly paths are named once and kept: once named, naming
/// them again (with any expression) changes nothing and gives the same paths.
pub proof fn lemma_original_paths_kept(v: InputView, pattern: Seq<char>, later: Seq<char>)
    requires
        original_paths(v, pattern) is Ok,
    ensures
        with_originals(with_originals(v, pattern), later) == with_originals(v, pattern),
        original_paths(with_originals(v, pattern), later) == original_paths(v, pattern),
{
}

} // verus!
