//! The control flow graph of a program: the edges between its basic blocks.
use vstd::prelude::*;
use crate::module::analyzer::{AssemblyData, DataView};
use crate::module::assembly::{
    condition_complement_of_name, condition_of_name, inst_at, valid_pos, AssemblyInstructionId,
    AssemblyInstructionType, InstTypeView, InstView, Subroutine, SubroutineView,
};
use crate::module::basic_block::{
    block_search_defined, first_block_with, no_block_with, scan_blocks, starts_with_id, BasicBlock, BasicBlockView,
};

verus! {

/// An edge of the control flow graph: the condition under which control passes
/// to the block at `destination_index`.
#[derive(Debug, PartialEq, Eq)]
pub struct Edge {
    pub condition: String,
    pub destination_index: usize,
}

/// The abstract value of an [`Edge`].
pub struct EdgeView {
    pub condition: Seq<char>,
    pub destination_index: usize,
}

impl View for Edge {
    type V = EdgeView;

    open spec fn view(&self) -> EdgeView {
        EdgeView { condition: self.condition@, destination_index: self.destination_index }
    }
}

impl DeepView for Edge {
    type V = EdgeView;

    open spec fn deep_view(&self) -> EdgeView {
        self@
    }
}

impl Edge {
    pub fn new(condition: String, destination_index: usize) -> (r: Self)
        ensures
            r.condition == condition,
            r.destination_index == destination_index,
    {
        Self { condition, destination_index }
    }
}

/// Why the edges of a block could not be found.
#[derive(PartialEq, Eq, Clone, Copy, Debug, Structural)]
pub enum EdgeFailure {
    /// The block is empty, or its last position names no instruction.
    NoLastInstruction,
    /// Looking for the block at the branch target met an empty block first.
    EmptyBlockInSearch,
    /// No block starts at the target of the branch that ends the block.
    NoBlockAtTarget,
}

/// Why a control flow graph could not be computed: the failure, the program
/// and the block where it happened.
#[derive(PartialEq, Eq, Clone, Copy, Debug, Structural)]
pub struct CfgError {
    pub failure: EdgeFailure,
    pub program: usize,
    pub block: usize,
}

/// The last instruction of the block with positions `ids`.
pub open spec fn last_instruction(subs: Seq<SubroutineView>, ids: Seq<AssemblyInstructionId>) -> Option<InstView> {
    if ids.len() == 0 {
        None
    } else if valid_pos(subs, ids.last().subroutine_index as int, ids.last().asm_inst_index as int) {
        Some(inst_at(subs, ids.last().subroutine_index as int, ids.last().asm_inst_index as int))
    } else {
        None
    }
}

/// The index of the first block that starts with `id`.
pub open spec fn block_index(bbs: Seq<BasicBlockView>, id: AssemblyInstructionId) -> int {
    choose|k: int| first_block_with(bbs, id, k)
}

/// The edge to the block at the target `target` of a branch with mnemonic
/// `name`; none where the target is not known, which is the case of a branch
/// that the resolution of targets never reached.
pub open spec fn target_edge(bbs: Seq<BasicBlockView>, name: Seq<char>, target: Option<AssemblyInstructionId>) -> Result<Seq<EdgeView>, EdgeFailure> {
    match target {
        None => Ok(seq![]),
        Some(t) => if !block_search_defined(bbs, t) {
            Err(EdgeFailure::EmptyBlockInSearch)
        } else if no_block_with(bbs, t) {
            Err(EdgeFailure::NoBlockAtTarget)
        } else {
            Ok(seq![EdgeView { condition: condition_of_name(name), destination_index: block_index(bbs, t) as usize }])
        },
    }
}

/// The edges out of block `j`: to the block at the target of the branch that
/// ends it (under the branch condition), and after a conditional branch also to
/// the next block (under the complement of the condition).
pub open spec fn block_edges(subs: Seq<SubroutineView>, bbs: Seq<BasicBlockView>, j: int) -> Result<Seq<EdgeView>, EdgeFailure> {
    match last_instruction(subs, bbs[j].asm_inst_ids) {
        None => Err(EdgeFailure::NoLastInstruction),
        Some(inst) => match inst.inst_type {
            InstTypeView::Ncti(_) => Ok(seq![]),
            InstTypeView::CtiConditional(name, t) => match target_edge(bbs, name, t) {
                Ok(es) => Ok(es.push(EdgeView { condition: condition_complement_of_name(name), destination_index: (j + 1) as usize })),
                Err(e) => Err(e),
            },
            InstTypeView::CtiUnconditional(name, t) => target_edge(bbs, name, t),
        },
    }
}

proof fn lemma_first_block_unique(bbs: Seq<BasicBlockView>, id: AssemblyInstructionId, a: int, b: int)
    requires
        first_block_with(bbs, id, a),
        first_block_with(bbs, id, b),
    ensures
        a == b,
{
    if a < b {
        assert(bbs[a].asm_inst_ids[0] != id);
    } else if b < a {
        assert(bbs[b].asm_inst_ids[0] != id);
    }
}

fn target_edge_exec(basic_blocks: &[BasicBlock], name: &String, target: Option<AssemblyInstructionId>) -> (r: Result<Vec<Edge>, EdgeFailure>)
    ensures
        r matches Ok(v) ==> target_edge(basic_blocks.deep_view(), name@, target) == Ok::<Seq<EdgeView>, EdgeFailure>(v.deep_view()),
        r matches Err(e) ==> target_edge(basic_blocks.deep_view(), name@, target) == Err::<Seq<EdgeView>, EdgeFailure>(e),
{
    let mut edges: Vec<Edge> = Vec::new();
    match target {
        None => {
            assert(edges.deep_view() =~= Seq::<EdgeView>::empty());
            Ok(edges)
        },
        Some(t) => match scan_blocks(basic_blocks, &t) {
            Err(_) => Err(EdgeFailure::EmptyBlockInSearch),
            Ok(None) => Err(EdgeFailure::NoBlockAtTarget),
            Ok(Some(k)) => {
                proof {
                    let c = choose|c: int| first_block_with(basic_blocks.deep_view(), t, c);
                    lemma_first_block_unique(basic_blocks.deep_view(), t, c, k as int);
                }
                let condition = branch_condition_of(name);
                edges.push(Edge::new(condition, k));
                assert(edges.deep_view() =~= seq![EdgeView { condition: condition_of_name(name@), destination_index: k }]);
                Ok(edges)
            },
        },
    }
}

fn branch_condition_of(name: &String) -> (r: String)
    ensures
        r@ == condition_of_name(name@),
{
    match crate::module::instruction::branch_type_of(name.as_str()) {
        Some(crate::module::instruction::BranchType::ConditionalBranch(c)) => String::from_str(c.branch_condition()),
        _ => String::from_str("true"),
    }
}

fn branch_condition_complement_of(name: &String) -> (r: String)
    ensures
        r@ == condition_complement_of_name(name@),
{
    match crate::module::instruction::branch_type_of(name.as_str()) {
        Some(crate::module::instruction::BranchType::ConditionalBranch(c)) => String::from_str(c.branch_condition_complement()),
        _ => String::from_str("false"),
    }
}

/// The edges out of block `j`.
pub fn block_edges_exec(subroutines: &[Subroutine], basic_blocks: &[BasicBlock], j: usize) -> (r: Result<Vec<Edge>, EdgeFailure>)
    requires
        j < basic_blocks@.len(),
    ensures
        r matches Ok(v) ==> block_edges(subroutines.deep_view(), basic_blocks.deep_view(), j as int) == Ok::<Seq<EdgeView>, EdgeFailure>(v.deep_view()),
        r matches Err(e) ==> block_edges(subroutines.deep_view(), basic_blocks.deep_view(), j as int) == Err::<Seq<EdgeView>, EdgeFailure>(e),
{
    let ids = &basic_blocks[j].asm_inst_ids;
    assert(basic_blocks.deep_view()[j as int].asm_inst_ids == ids@);
    if ids.len() == 0 {
        return Err(EdgeFailure::NoLastInstruction);
    }
    let last = ids[ids.len() - 1];
    if last.subroutine_index >= subroutines.len() || last.asm_inst_index >= subroutines[last.subroutine_index].asm_insts.len() {
        return Err(EdgeFailure::NoLastInstruction);
    }
    let inst = &subroutines[last.subroutine_index].asm_insts[last.asm_inst_index];
    assert(inst@ == inst_at(subroutines.deep_view(), last.subroutine_index as int, last.asm_inst_index as int));
    match &inst.inst_type {
        AssemblyInstructionType::Ncti(_) => {
            let edges: Vec<Edge> = Vec::new();
            assert(edges.deep_view() =~= Seq::<EdgeView>::empty());
            Ok(edges)
        },
        AssemblyInstructionType::CtiUnconditional(name, t) => target_edge_exec(basic_blocks, name, *t),
        AssemblyInstructionType::CtiConditional(name, t) => {
            let mut edges = target_edge_exec(basic_blocks, name, *t)?;
            let ghost before = edges.deep_view();
            edges.push(Edge::new(branch_condition_complement_of(name), j + 1));
            assert(edges.deep_view() =~= before.push(EdgeView { condition: condition_complement_of_name(name@), destination_index: (j + 1) as usize }));
            Ok(edges)
        },
    }
}

} // verus!

verus! {

/// The control flow graphs of the analyzed programs.
pub struct ControlFlowGraph {
    pub asm_data_vec: Vec<AssemblyData>,
}

impl View for ControlFlowGraph {
    type V = Seq<DataView>;

    open spec fn view(&self) -> Seq<DataView> {
        self.asm_data_vec.deep_view()
    }
}

/// Every block of every program has edges.
pub open spec fn all_edges_found(programs: Seq<DataView>) -> bool {
    forall|i: int, j: int|
        0 <= i < programs.len() && 0 <= j < programs[i].basic_blocks.len() ==> block_edges(
            programs[i].subroutines,
            programs[i].basic_blocks,
            j,
        ) is Ok
}

/// `d` with the edges of each block set.
pub open spec fn with_edges(d: DataView) -> DataView {
    DataView {
        basic_blocks: Seq::new(
            d.basic_blocks.len(),
            |j: int|
                BasicBlockView {
                    asm_inst_ids: d.basic_blocks[j].asm_inst_ids,
                    edges: block_edges(d.subroutines, d.basic_blocks, j).unwrap(),
                },
        ),
        ..d
    }
}

/// Block `(i2, j2)` comes before block `(i, j)`.
pub open spec fn block_before(i2: int, j2: int, i: int, j: int) -> bool {
    i2 < i || (i2 == i && j2 < j)
}

fn copy_ids(ids: &Vec<AssemblyInstructionId>) -> (r: Vec<AssemblyInstructionId>)
    ensures
        r@ == ids@,
{
    let mut r: Vec<AssemblyInstructionId> = Vec::new();
    let mut k: usize = 0;
    while k < ids.len()
        invariant
            k <= ids@.len(),
            r@ == ids@.take(k as int),
        decreases ids@.len() - k,
    {
        r.push(ids[k]);
        assert(ids@.take(k + 1) =~= ids@.take(k as int).push(ids@[k as int]));
        k = k + 1;
    }
    assert(ids@.take(ids@.len() as int) =~= ids@);
    r
}

impl ControlFlowGraph {
    pub fn new(asm_data_vec: Vec<AssemblyData>) -> (r: Self)
        ensures
            r.asm_data_vec == asm_data_vec,
    {
        Self { asm_data_vec }
    }

    /// The first block (in program order) whose edges cannot be found, with
    /// the reason, or `None` where the edges of every block can be found.
    pub fn find_edge_failure(&self) -> (r: Option<CfgError>)
        ensures
            r is None <==> all_edges_found(self@),
            r matches Some(e) ==> {
                &&& e.program < self@.len()
                &&& e.block < self@[e.program as int].basic_blocks.len()
                &&& block_edges(
                    self@[e.program as int].subroutines,
                    self@[e.program as int].basic_blocks,
                    e.block as int,
                ) == Err::<Seq<EdgeView>, EdgeFailure>(e.failure)
                &&& forall|i: int, j: int|
                    0 <= i < self@.len() && 0 <= j < self@[i].basic_blocks.len()
                        && block_before(i, j, e.program as int, e.block as int) ==> block_edges(
                        self@[i].subroutines,
                        self@[i].basic_blocks,
                        j,
                    ) is Ok
            },
    {
        let ghost g = self@;
        let mut i: usize = 0;
        while i < self.asm_data_vec.len()
            invariant
                g == self@,
                self.asm_data_vec@.len() == g.len(),
                i <= g.len(),
                forall|i2: int, j2: int|
                    0 <= i2 < i && 0 <= j2 < g[i2].basic_blocks.len() ==> #[trigger] block_edges(
                        g[i2].subroutines,
                        g[i2].basic_blocks,
                        j2,
                    ) is Ok,
            decreases g.len() - i,
        {
            let data = &self.asm_data_vec[i];
            assert(data@ == g[i as int]);
            let subs = data.subroutines.as_slice();
            let bbs = data.basic_blocks.as_slice();
            assert(subs.deep_view() =~= g[i as int].subroutines);
            assert(bbs.deep_view() =~= g[i as int].basic_blocks);
            let mut j: usize = 0;
            while j < bbs.len()
                invariant
                    g == self@,
                    i < g.len(),
                    subs.deep_view() == g[i as int].subroutines,
                    bbs.deep_view() == g[i as int].basic_blocks,
                    bbs@.len() == g[i as int].basic_blocks.len(),
                    j <= g[i as int].basic_blocks.len(),
                    forall|i2: int, j2: int|
                        0 <= i2 < g.len() && 0 <= j2 < g[i2].basic_blocks.len() && block_before(i2, j2, i as int, j as int) ==> #[trigger] block_edges(
                            g[i2].subroutines,
                            g[i2].basic_blocks,
                            j2,
                        ) is Ok,
                decreases g[i as int].basic_blocks.len() - j,
            {
                match block_edges_exec(subs, bbs, j) {
                    Ok(_) => {},
                    Err(failure) => {
                        return Some(CfgError { failure, program: i, block: j });
                    },
                }
                assert(block_edges(g[i as int].subroutines, g[i as int].basic_blocks, j as int) is Ok);
                j = j + 1;
            }
            i = i + 1;
        }
        None
    }

    /// Computes the edges of every basic block: to the block at the target of
    /// the branch that ends it, and after a conditional branch also to the
    /// next block. The edges of every block must be found (see
    /// [`Self::find_edge_failure`]).
    pub fn compute_control_flow(&mut self)
        requires
            all_edges_found(old(self)@),
        ensures
            final(self)@ == old(self)@.map_values(|d: DataView| with_edges(d)),
    {
        let ghost g = self@;
        let mut i: usize = 0;
        while i < self.asm_data_vec.len()
            invariant
                all_edges_found(g),
                self@.len() == g.len(),
                self.asm_data_vec@.len() == g.len(),
                i <= g.len(),
                forall|k: int| 0 <= k < i ==> self@[k] == with_edges(g[k]),
                forall|k: int| i <= k < g.len() ==> self@[k] == g[k],
            decreases g.len() - i,
        {
            let mut blocks: Vec<BasicBlock> = Vec::new();
            let data = &self.asm_data_vec[i];
            assert(data@ == g[i as int]);
            let subs = data.subroutines.as_slice();
            let bbs = data.basic_blocks.as_slice();
            assert(subs.deep_view() =~= g[i as int].subroutines);
            assert(bbs.deep_view() =~= g[i as int].basic_blocks);
            let n = bbs.len();
            let mut j: usize = 0;
            while j < n
                invariant
                    all_edges_found(g),
                    i < g.len(),
                    subs.deep_view() == g[i as int].subroutines,
                    bbs.deep_view() == g[i as int].basic_blocks,
                    n == g[i as int].basic_blocks.len(),
                    j <= n,
                    blocks@.len() == j,
                    forall|k: int| 0 <= k < j ==> (#[trigger] blocks.deep_view()[k]) == with_edges(g[i as int]).basic_blocks[k],
                decreases n - j,
            {
                let edges = block_edges_exec(subs, bbs, j);
                let ids = copy_ids(&bbs[j].asm_inst_ids);
                assert(ids@ == g[i as int].basic_blocks[j as int].asm_inst_ids);
                match edges {
                    Ok(edges) => {
                        let ghost before = blocks.deep_view();
                        blocks.push(BasicBlock::new(ids, edges));
                        assert(blocks.deep_view() =~= before.push(with_edges(g[i as int]).basic_blocks[j as int]));
                    },
                    Err(_) => {
                        assert(false);
                    },
                }
                j = j + 1;
            }
            assert(blocks.deep_view() =~= with_edges(g[i as int]).basic_blocks);
            let ghost before = self@;
            self.asm_data_vec[i].basic_blocks = blocks;
            assert(self@[i as int] == with_edges(g[i as int]));
            assert(forall|k: int| 0 <= k < g.len() && k != i ==> self@[k] == before[k]);
            assert forall|k: int| 0 <= k < i + 1 implies self@[k] == with_edges(g[k]) by {
                if k < i {
                    assert(before[k] == with_edges(g[k]));
                }
            }
            i = i + 1;
        }
        assert(self@ =~= g.map_values(|d: DataView| with_edges(d)));
    }
}

} // verus!

verus! {

/// The blocks of `d` are not empty, name instructions of its subroutines, and
/// their edges lead to indices below `usize::MAX`.
pub open spec fn blocks_well_formed(d: DataView) -> bool {
    forall|j: int|
        0 <= j < d.basic_blocks.len() ==> {
            &&& (#[trigger] d.basic_blocks[j]).asm_inst_ids.len() > 0
            &&& forall|k: int|
                0 <= k < d.basic_blocks[j].asm_inst_ids.len() ==> valid_pos(
                    d.subroutines,
                    (#[trigger] d.basic_blocks[j].asm_inst_ids[k]).subroutine_index as int,
                    d.basic_blocks[j].asm_inst_ids[k].asm_inst_index as int,
                )
            &&& forall|k: int|
                0 <= k < d.basic_blocks[j].edges.len() ==> (#[trigger] d.basic_blocks[j].edges[k]).destination_index < usize::MAX
        }
}

/// Block `j` of `d` lies in a necessary subroutine (that of its first instruction).
pub open spec fn block_is_necessary(d: DataView, j: int) -> bool {
    d.subroutines[d.basic_blocks[j].asm_inst_ids[0].subroutine_index as int].necessary
}

/// The instruction lines of block `j` of `d`.
pub open spec fn block_contents(d: DataView, j: int) -> Seq<Seq<char>> {
    d.basic_blocks[j].asm_inst_ids.map_values(
        |id: AssemblyInstructionId|
            inst_at(d.subroutines, id.subroutine_index as int, id.asm_inst_index as int).content,
    )
}

/// `n` in decimal.
pub open spec fn decimal(n: int) -> Seq<char> {
    crate::text::digits_str(n as nat, 10)
}

/// The description of the edges of block `j` of `d`.
pub open spec fn edges_text(d: DataView, j: int) -> Seq<char> {
    let edges = d.basic_blocks[j].edges;
    if edges.len() > 0 {
        crate::text::join(
            Seq::new(
                edges.len(),
                |k: int| "E #"@ + decimal(k + 1) + " => BB #"@ + decimal(edges[k].destination_index + 1),
            ),
            ", "@,
        )
    } else {
        "None"@
    }
}

/// The text of block `j` of program `i`: its number, its instruction lines and its edges.
pub open spec fn block_text(i: int, d: DataView, j: int) -> Seq<char> {
    "Program #"@ + decimal(i + 1) + ", BB #"@ + decimal(j + 1) + ":\n  Content:\n  "@ + crate::text::join(
        block_contents(d, j).map_values(|c: Seq<char>| "  "@ + c),
        "\n  "@,
    ) + "\n  Edges:\n    "@ + edges_text(d, j) + "\n"@
}

/// The texts of the necessary blocks among the first `n` blocks of program `i`.
pub open spec fn program_text_upto(i: int, d: DataView, n: int) -> Seq<Seq<char>>
    decreases n,
{
    if n <= 0 {
        seq![]
    } else if block_is_necessary(d, n - 1) {
        program_text_upto(i, d, n - 1).push(block_text(i, d, n - 1))
    } else {
        program_text_upto(i, d, n - 1)
    }
}

/// The texts of the necessary blocks of program `i`.
pub open spec fn program_text(i: int, d: DataView) -> Seq<Seq<char>> {
    program_text_upto(i, d, d.basic_blocks.len() as int)
}

/// The Graphviz lines of block `j` of `d`: its node, labelled with its number
/// and its instruction lines, and its edges, labelled with their conditions.
pub open spec fn dot_block(d: DataView, j: int) -> Seq<char> {
    let b = d.basic_blocks[j];
    "    "@ + decimal(j + 1) + " [label=\"BB "@ + decimal(j + 1) + "\\n\\n"@ + crate::text::join(
        block_contents(d, j),
        "\\l"@,
    ) + "\"];\n"@ + dot_edges(d, j, b.edges.len() as int)
}

/// The Graphviz lines of the first `n` edges of block `j` of `d`.
pub open spec fn dot_edges(d: DataView, j: int, n: int) -> Seq<char>
    decreases n,
{
    if n <= 0 {
        seq![]
    } else {
        let e = d.basic_blocks[j].edges[n - 1];
        dot_edges(d, j, n - 1) + "    "@ + decimal(j + 1) + " -> "@ + decimal(e.destination_index + 1)
            + " [label=\""@ + e.condition + "\"];\n"@
    }
}

/// The Graphviz lines of the necessary blocks among the first `n` blocks of `d`.
pub open spec fn dot_blocks(d: DataView, n: int) -> Seq<char>
    decreases n,
{
    if n <= 0 {
        seq![]
    } else if block_is_necessary(d, n - 1) {
        dot_blocks(d, n - 1) + dot_block(d, n - 1)
    } else {
        dot_blocks(d, n - 1)
    }
}

/// The control flow graph of `d` in the Graphviz dot language.
pub open spec fn dot_text(d: DataView) -> Seq<char> {
    "digraph cfg {\n"@ + dot_blocks(d, d.basic_blocks.len() as int) + "}"@
}

pub(crate) fn decimal_string(n: usize) -> (r: String)
    ensures
        r@ == decimal(n as int),
{
    crate::text::format_radix(n, 10)
}

/// The instruction lines of block `j`, each with the prefix `prefix`.
fn contents_of(data: &AssemblyData, j: usize, prefix: &str) -> (r: Vec<String>)
    requires
        j < data@.basic_blocks.len(),
        blocks_well_formed(data@),
    ensures
        r.deep_view() == block_contents(data@, j as int).map_values(|c: Seq<char>| prefix@ + c),
{
    let ids = &data.basic_blocks[j].asm_inst_ids;
    assert(ids@ == data@.basic_blocks[j as int].asm_inst_ids);
    let mut r: Vec<String> = Vec::new();
    let mut k: usize = 0;
    while k < ids.len()
        invariant
            j < data@.basic_blocks.len(),
            blocks_well_formed(data@),
            ids@ == data@.basic_blocks[j as int].asm_inst_ids,
            k <= ids@.len(),
            r.deep_view() == block_contents(data@, j as int).take(k as int).map_values(|c: Seq<char>| prefix@ + c),
        decreases ids@.len() - k,
    {
        let id = ids[k];
        assert(valid_pos(data@.subroutines, id.subroutine_index as int, id.asm_inst_index as int));
        let content = &data.subroutines[id.subroutine_index].asm_insts[id.asm_inst_index].content;
        assert(content@ == block_contents(data@, j as int)[k as int]);
        let ghost before = r.deep_view();
        r.push(String::from_str(prefix).concat(content.as_str()));
        assert(r.deep_view() =~= before.push(prefix@ + content@));
        assert(block_contents(data@, j as int).take(k + 1).map_values(|c: Seq<char>| prefix@ + c) =~= block_contents(data@, j as int).take(k as int).map_values(|c: Seq<char>| prefix@ + c).push(prefix@ + content@));
        k = k + 1;
    }
    assert(block_contents(data@, j as int).take(ids@.len() as int) =~= block_contents(data@, j as int));
    r
}

fn block_is_necessary_exec(data: &AssemblyData, j: usize) -> (r: bool)
    requires
        j < data@.basic_blocks.len(),
        blocks_well_formed(data@),
    ensures
        r == block_is_necessary(data@, j as int),
{
    assert(data@.basic_blocks[j as int] == data.basic_blocks@[j as int]@);
    assert(data@.basic_blocks[j as int].asm_inst_ids.len() > 0);
    let first = data.basic_blocks[j].asm_inst_ids[0];
    assert(data@.basic_blocks[j as int].asm_inst_ids[0] == first);
    assert(valid_pos(data@.subroutines, first.subroutine_index as int, first.asm_inst_index as int));
    data.subroutines[first.subroutine_index].necessary
}

impl AssemblyData {
    /// Whether the blocks are not empty, name instructions, and have edges to
    /// indices below `usize::MAX`.
    pub fn blocks_are_well_formed(&self) -> (r: bool)
        ensures
            r == blocks_well_formed(self@),
    {
        let mut j: usize = 0;
        while j < self.basic_blocks.len()
            invariant
                j <= self@.basic_blocks.len(),
                forall|m: int| 0 <= m < j ==> {
                    &&& (#[trigger] self@.basic_blocks[m]).asm_inst_ids.len() > 0
                    &&& forall|k: int|
                        0 <= k < self@.basic_blocks[m].asm_inst_ids.len() ==> valid_pos(
                            self@.subroutines,
                            (#[trigger] self@.basic_blocks[m].asm_inst_ids[k]).subroutine_index as int,
                            self@.basic_blocks[m].asm_inst_ids[k].asm_inst_index as int,
                        )
                    &&& forall|k: int|
                        0 <= k < self@.basic_blocks[m].edges.len() ==> (#[trigger] self@.basic_blocks[m].edges[k]).destination_index < usize::MAX
                },
            decreases self@.basic_blocks.len() - j,
        {
            let b = &self.basic_blocks[j];
            assert(b@ == self@.basic_blocks[j as int]);
            if b.asm_inst_ids.len() == 0 {
                return false;
            }
            let mut k: usize = 0;
            while k < b.asm_inst_ids.len()
                invariant
                    j < self@.basic_blocks.len(),
                    b@ == self@.basic_blocks[j as int],
                    k <= b@.asm_inst_ids.len(),
                    forall|m: int| 0 <= m < k ==> valid_pos(
                        self@.subroutines,
                        (#[trigger] b@.asm_inst_ids[m]).subroutine_index as int,
                        b@.asm_inst_ids[m].asm_inst_index as int,
                    ),
                decreases b@.asm_inst_ids.len() - k,
            {
                let id = b.asm_inst_ids[k];
                if id.subroutine_index >= self.subroutines.len() || id.asm_inst_index >= self.subroutines[id.subroutine_index].asm_insts.len() {
                    assert(b@.asm_inst_ids[k as int] == id);
                    assert(!valid_pos(self@.subroutines, id.subroutine_index as int, id.asm_inst_index as int));
                    assert(self@.basic_blocks[j as int].asm_inst_ids[k as int] == id);
                    return false;
                }
                k = k + 1;
            }
            let mut k: usize = 0;
            while k < b.edges.len()
                invariant
                    j < self@.basic_blocks.len(),
                    b@ == self@.basic_blocks[j as int],
                    k <= b@.edges.len(),
                    forall|m: int| 0 <= m < k ==> (#[trigger] b@.edges[m]).destination_index < usize::MAX,
                decreases b@.edges.len() - k,
            {
                if b.edges[k].destination_index == usize::MAX {
                    assert(b@.edges[k as int] == b.edges@[k as int]@);
                    assert(self@.basic_blocks[j as int].edges[k as int].destination_index == usize::MAX);
                    return false;
                }
                assert(b@.edges[k as int] == b.edges@[k as int]@);
                k = k + 1;
            }
            j = j + 1;
        }
        true
    }
}

} // verus!

verus! {

fn edges_text_exec(data: &AssemblyData, j: usize) -> (r: String)
    requires
        j < data@.basic_blocks.len(),
        blocks_well_formed(data@),
    ensures
        r@ == edges_text(data@, j as int),
{
    let edges = &data.basic_blocks[j].edges;
    assert(edges.deep_view() == data@.basic_blocks[j as int].edges);
    if edges.len() == 0 {
        return String::from_str("None");
    }
    let ghost infos = Seq::new(
        edges@.len(),
        |k: int| "E #"@ + decimal(k + 1) + " => BB #"@ + decimal(edges.deep_view()[k].destination_index + 1),
    );
    let mut parts: Vec<String> = Vec::new();
    let mut k: usize = 0;
    while k < edges.len()
        invariant
            j < data@.basic_blocks.len(),
            blocks_well_formed(data@),
            edges.deep_view() == data@.basic_blocks[j as int].edges,
            k <= edges@.len(),
            infos.len() == edges@.len(),
            forall|m: int| 0 <= m < edges@.len() ==> #[trigger] infos[m] == "E #"@ + decimal(m + 1) + " => BB #"@ + decimal(edges.deep_view()[m].destination_index + 1),
            parts.deep_view() == infos.take(k as int),
        decreases edges@.len() - k,
    {
        let dest = edges[k].destination_index;
        assert(edges.deep_view()[k as int].destination_index == dest);
        assert(data@.basic_blocks[j as int].edges[k as int].destination_index < usize::MAX);
        let text = String::from_str("E #").concat(decimal_string(k + 1).as_str()).concat(" => BB #").concat(
            decimal_string(dest + 1).as_str(),
        );
        let ghost before = parts.deep_view();
        parts.push(text);
        assert(parts.deep_view() =~= before.push(infos[k as int]));
        assert(infos.take(k + 1) =~= infos.take(k as int).push(infos[k as int]));
        k = k + 1;
    }
    assert(infos.take(edges@.len() as int) =~= infos);
    crate::text::join_strings(&parts, ", ")
}

fn block_text_exec(i: usize, data: &AssemblyData, j: usize) -> (r: String)
    requires
        j < data@.basic_blocks.len(),
        blocks_well_formed(data@),
        i < usize::MAX,
    ensures
        r@ == block_text(i as int, data@, j as int),
{
    let n = data.basic_blocks.len();
    assert(j + 1 <= n);
    let contents = contents_of(data, j, "  ");
    String::from_str("Program #").concat(decimal_string(i + 1).as_str()).concat(", BB #").concat(
        decimal_string(j + 1).as_str(),
    ).concat(":\n  Content:\n  ").concat(crate::text::join_strings(&contents, "\n  ").as_str()).concat(
        "\n  Edges:\n    ",
    ).concat(edges_text_exec(data, j).as_str()).concat("\n")
}

fn dot_edges_exec(data: &AssemblyData, j: usize) -> (r: String)
    requires
        j < data@.basic_blocks.len(),
        blocks_well_formed(data@),
    ensures
        r@ == dot_edges(data@, j as int, data@.basic_blocks[j as int].edges.len() as int),
{
    let n = data.basic_blocks.len();
    assert(j + 1 <= n);
    let edges = &data.basic_blocks[j].edges;
    assert(edges.deep_view() == data@.basic_blocks[j as int].edges);
    let mut r = String::new();
    let mut k: usize = 0;
    while k < edges.len()
        invariant
            j < data@.basic_blocks.len(),
            blocks_well_formed(data@),
            edges.deep_view() == data@.basic_blocks[j as int].edges,
            k <= edges@.len(),
            j < usize::MAX,
            r@ == dot_edges(data@, j as int, k as int),
        decreases edges@.len() - k,
    {
        let e = &edges[k];
        assert(edges.deep_view()[k as int] == e@);
        assert(data@.basic_blocks[j as int].edges[k as int].destination_index < usize::MAX);
        r.append("    ");
        r.append(decimal_string(j + 1).as_str());
        r.append(" -> ");
        r.append(decimal_string(e.destination_index + 1).as_str());
        r.append(" [label=\"");
        r.append(e.condition.as_str());
        r.append("\"];\n");
        k = k + 1;
    }
    r
}

impl ControlFlowGraph {
    /// Whether the blocks of every program are well formed.
    pub fn is_well_formed(&self) -> (r: bool)
        ensures
            r == forall|i: int| 0 <= i < self@.len() ==> blocks_well_formed(#[trigger] self@[i]),
    {
        let mut i: usize = 0;
        while i < self.asm_data_vec.len()
            invariant
                i <= self@.len(),
                forall|m: int| 0 <= m < i ==> blocks_well_formed(#[trigger] self@[m]),
            decreases self@.len() - i,
        {
            assert(self.asm_data_vec@[i as int]@ == self@[i as int]);
            if !self.asm_data_vec[i].blocks_are_well_formed() {
                return false;
            }
            i = i + 1;
        }
        true
    }

    /// For each program, the text of each of its necessary blocks: its number,
    /// its instruction lines and its edges.
    pub fn programs_basic_blocks_flows_in_text(&self) -> (r: Vec<Vec<String>>)
        requires
            forall|i: int| 0 <= i < self@.len() ==> blocks_well_formed(#[trigger] self@[i]),
        ensures
            r@.len() == self@.len(),
            forall|i: int| 0 <= i < self@.len() ==> (#[trigger] r@[i]).deep_view() == program_text(i, self@[i]),
    {
        let mut programs: Vec<Vec<String>> = Vec::new();
        let mut i: usize = 0;
        while i < self.asm_data_vec.len()
            invariant
                forall|m: int| 0 <= m < self@.len() ==> blocks_well_formed(#[trigger] self@[m]),
                i <= self@.len(),
                programs@.len() == i,
                forall|m: int| 0 <= m < i ==> (#[trigger] programs@[m]).deep_view() == program_text(m, self@[m]),
            decreases self@.len() - i,
        {
            let data = &self.asm_data_vec[i];
            assert(data@ == self@[i as int]);
            assert(i < usize::MAX) by {
                assert(self.asm_data_vec@.len() <= usize::MAX);
            }
            let mut program: Vec<String> = Vec::new();
            let mut j: usize = 0;
            while j < data.basic_blocks.len()
                invariant
                    i < self@.len(),
                    i < usize::MAX,
                    data@ == self@[i as int],
                    blocks_well_formed(data@),
                    j <= data@.basic_blocks.len(),
                    program.deep_view() == program_text_upto(i as int, data@, j as int),
                decreases data@.basic_blocks.len() - j,
            {
                if block_is_necessary_exec(data, j) {
                    let text = block_text_exec(i, data, j);
                    let ghost before = program.deep_view();
                    program.push(text);
                    assert(program.deep_view() =~= before.push(text@));
                }
                j = j + 1;
            }
            programs.push(program);
            i = i + 1;
        }
        programs
    }

    /// The control flow graph of program `i` in the Graphviz dot language: a
    /// node for each necessary block, labelled with its instruction lines, and
    /// its edges, labelled with their conditions.
    pub fn graphviz_dot(&self, i: usize) -> (r: String)
        requires
            i < self@.len(),
            blocks_well_formed(self@[i as int]),
        ensures
            r@ == dot_text(self@[i as int]),
    {
        let data = &self.asm_data_vec[i];
        assert(data@ == self@[i as int]);
        let mut r = String::from_str("digraph cfg {\n");
        let mut j: usize = 0;
        while j < data.basic_blocks.len()
            invariant
                blocks_well_formed(data@),
                j <= data@.basic_blocks.len(),
                r@ == "digraph cfg {\n"@ + dot_blocks(data@, j as int),
            decreases data@.basic_blocks.len() - j,
        {
            if block_is_necessary_exec(data, j) {
                let contents = contents_of(data, j, "");
                proof {
                    reveal_strlit("");
                }
                assert(block_contents(data@, j as int).map_values(|c: Seq<char>| ""@ + c) =~= block_contents(data@, j as int));
                let ghost before = r@;
                r.append("    ");
                r.append(decimal_string(j + 1).as_str());
                r.append(" [label=\"BB ");
                r.append(decimal_string(j + 1).as_str());
                r.append("\\n\\n");
                r.append(crate::text::join_strings(&contents, "\\l").as_str());
                r.append("\"];\n");
                r.append(dot_edges_exec(data, j).as_str());
                assert(r@ =~= before + dot_block(data@, j as int));
            }
            j = j + 1;
        }
        r.append("}");
        r
    }
}

} // verus!

verus! {

/// The blocks `a` and `b` hold the same instructions, whatever their edges.
pub open spec fn same_ids(a: Seq<BasicBlockView>, b: Seq<BasicBlockView>) -> bool {
    a.len() == b.len() && forall|j: int| 0 <= j < a.len() ==> (#[trigger] a[j]).asm_inst_ids == b[j].asm_inst_ids
}

proof fn lemma_min_start(bbs: Seq<BasicBlockView>, t: AssemblyInstructionId, k: int) -> (m: int)
    requires
        0 <= k < bbs.len(),
        starts_with_id(bbs, k, t),
    ensures
        0 <= m <= k,
        starts_with_id(bbs, m, t),
        forall|j: int| 0 <= j < m ==> !starts_with_id(bbs, j, t),
    decreases k,
{
    if exists|j: int| 0 <= j < k && starts_with_id(bbs, j, t) {
        let j = choose|j: int| 0 <= j < k && starts_with_id(bbs, j, t);
        lemma_min_start(bbs, t, j)
    } else {
        k
    }
}

proof fn lemma_first_block_exists(bbs: Seq<BasicBlockView>, t: AssemblyInstructionId)
    requires
        block_search_defined(bbs, t),
        !no_block_with(bbs, t),
    ensures
        first_block_with(bbs, t, block_index(bbs, t)),
{
    let k = choose|k: int| 0 <= k < bbs.len() && starts_with_id(bbs, k, t);
    let m = lemma_min_start(bbs, t, k);
    assert forall|j: int| 0 <= j < m implies (#[trigger] bbs[j]).asm_inst_ids.len() > 0 && bbs[j].asm_inst_ids[0] != t by {
        if bbs[j].asm_inst_ids.len() == 0 {
            let m2 = choose|m2: int| 0 <= m2 < j && starts_with_id(bbs, m2, t);
        }
        assert(!starts_with_id(bbs, j, t));
    }
    assert(first_block_with(bbs, t, m));
}

proof fn lemma_target_edge_ids_only(
    a: Seq<BasicBlockView>,
    b: Seq<BasicBlockView>,
    name: Seq<char>,
    target: Option<AssemblyInstructionId>,
)
    requires
        same_ids(a, b),
    ensures
        target_edge(a, name, target) == target_edge(b, name, target),
{
    if let Some(t) = target {
        assert forall|k: int| 0 <= k < a.len() implies (starts_with_id(a, k, t) == starts_with_id(b, k, t)
            && #[trigger] a[k].asm_inst_ids.len() == b[k].asm_inst_ids.len()) by {
            assert(a[k].asm_inst_ids == b[k].asm_inst_ids);
        }
        assert(block_search_defined(a, t) == block_search_defined(b, t)) by {
            if block_search_defined(a, t) {
                assert forall|k: int|
                    0 <= k < b.len() && (#[trigger] b[k]).asm_inst_ids.len() == 0 implies exists|m: int|
                        0 <= m < k && starts_with_id(b, m, t) by {
                    assert(a[k].asm_inst_ids == b[k].asm_inst_ids);
                    let m = choose|m: int| 0 <= m < k && starts_with_id(a, m, t);
                    assert(starts_with_id(a, m, t) == starts_with_id(b, m, t));
                }
            } else {
                let k = choose|k: int|
                    0 <= k < a.len() && (#[trigger] a[k]).asm_inst_ids.len() == 0 && !exists|m: int|
                        0 <= m < k && starts_with_id(a, m, t);
                assert(b[k].asm_inst_ids.len() == 0);
                assert forall|m: int| 0 <= m < k implies !starts_with_id(b, m, t) by {
                    assert(starts_with_id(a, m, t) == starts_with_id(b, m, t));
                }
            }
        }
        assert(no_block_with(a, t) == no_block_with(b, t)) by {
            if !no_block_with(a, t) {
                let k = choose|k: int| 0 <= k < a.len() && starts_with_id(a, k, t);
                assert(starts_with_id(b, k, t));
            }
            if !no_block_with(b, t) {
                let k = choose|k: int| 0 <= k < b.len() && starts_with_id(b, k, t);
                assert(starts_with_id(a, k, t));
            }
        }
        if block_search_defined(a, t) && !no_block_with(a, t) {
            let ka = block_index(a, t);
            let kb = block_index(b, t);
            lemma_first_block_exists(a, t);
            lemma_first_block_exists(b, t);
            assert(first_block_with(b, t, ka)) by {
                assert forall|m: int| 0 <= m < ka implies (#[trigger] b[m]).asm_inst_ids.len() > 0 && b[m].asm_inst_ids[0] != t by {
                    assert(a[m].asm_inst_ids == b[m].asm_inst_ids);
                }
                assert(a[ka].asm_inst_ids == b[ka].asm_inst_ids);
            }
            lemma_first_block_unique(b, t, ka, kb);
        }
    }
}

/// Block edges are read from the instructions of the blocks alone.
proof fn lemma_block_edges_ids_only(subs: Seq<SubroutineView>, a: Seq<BasicBlockView>, b: Seq<BasicBlockView>, j: int)
    requires
        same_ids(a, b),
        0 <= j < a.len(),
    ensures
        block_edges(subs, a, j) == block_edges(subs, b, j),
{
    assert(a[j].asm_inst_ids == b[j].asm_inst_ids);
    match last_instruction(subs, a[j].asm_inst_ids) {
        None => {},
        Some(inst) => match inst.inst_type {
            InstTypeView::Ncti(_) => {},
            InstTypeView::CtiConditional(name, t) => lemma_target_edge_ids_only(a, b, name, t),
            InstTypeView::CtiUnconditional(name, t) => lemma_target_edge_ids_only(a, b, name, t),
        },
    }
}

/// Computing the control flow changes nothing but the edges of the blocks: the
/// programs, their paths, subroutines and the instructions of their blocks stay.
/// Computing it a second time finds every edge again and changes nothing.
pub proof fn lemma_control_flow_idempotent(g: Seq<DataView>)
    requires
        all_edges_found(g),
    ensures
        g.map_values(|d: DataView| with_edges(d)).len() == g.len(),
        forall|i: int| 0 <= i < g.len() ==> {
            &&& (#[trigger] with_edges(g[i])).asm_path == g[i].asm_path
            &&& with_edges(g[i]).subroutines == g[i].subroutines
            &&& same_ids(with_edges(g[i]).basic_blocks, g[i].basic_blocks)
        },
        all_edges_found(g.map_values(|d: DataView| with_edges(d))),
        g.map_values(|d: DataView| with_edges(d)).map_values(|d: DataView| with_edges(d)) == g.map_values(
            |d: DataView| with_edges(d),
        ),
{
    let h = g.map_values(|d: DataView| with_edges(d));
    assert forall|i: int| 0 <= i < g.len() implies #[trigger] with_edges(h[i]) == h[i] && forall|j: int|
        0 <= j < h[i].basic_blocks.len() ==> block_edges(h[i].subroutines, h[i].basic_blocks, j) is Ok by {
        let d = g[i];
        let e = with_edges(d);
        assert(same_ids(d.basic_blocks, e.basic_blocks));
        assert forall|j: int| 0 <= j < e.basic_blocks.len() implies block_edges(e.subroutines, e.basic_blocks, j)
            == block_edges(d.subroutines, d.basic_blocks, j) by {
            lemma_block_edges_ids_only(d.subroutines, d.basic_blocks, e.basic_blocks, j);
        }
        assert(with_edges(e).basic_blocks =~= e.basic_blocks);
    }
    assert(h.map_values(|d: DataView| with_edges(d)) =~= h);
}

} // verus!

verus! {

/// The head of the text of block `j` of program `i`: `Program #`, the number of
/// the program and `, BB #`, the number of the block (both counted from one),
/// and a colon.
pub open spec fn block_text_head(i: int, j: int) -> Seq<char> {
    "Program #"@ + crate::text::digits_str((i + 1) as nat, 10) + ", BB #"@ + crate::text::digits_str(
        (j + 1) as nat,
        10,
    ) + ":"@
}

proof fn lemma_block_text_head(i: int, d: DataView, j: int)
    ensures
        block_text_head(i, j).is_prefix_of(block_text(i, d, j)),
{
    reveal_strlit(":");
    reveal_strlit(":\n  Content:\n  ");
    let h = "Program #"@ + decimal(i + 1) + ", BB #"@ + decimal(j + 1);
    let t = block_text(i, d, j);
    assert(t.subrange(0, h.len() + 1 as int) =~= block_text_head(i, j));
}

/// `text` begins with the head of a necessary block among the first `n` blocks
/// of program `i` with data `d`.
pub open spec fn headed_by_block(i: int, d: DataView, n: int, text: Seq<char>) -> bool {
    exists|j: int|
        #![trigger block_text_head(i, j)]
        0 <= j < n && block_is_necessary(d, j) && block_text_head(i, j).is_prefix_of(text)
}

proof fn lemma_program_text_upto_heads(i: int, d: DataView, n: int)
    ensures
        forall|k: int|
            0 <= k < program_text_upto(i, d, n).len() ==> headed_by_block(i, d, n, #[trigger] program_text_upto(i, d, n)[k]),
    decreases n,
{
    if n > 0 {
        lemma_program_text_upto_heads(i, d, n - 1);
        let prev = program_text_upto(i, d, n - 1);
        let cur = program_text_upto(i, d, n);
        if block_is_necessary(d, n - 1) {
            lemma_block_text_head(i, d, n - 1);
        }
        assert forall|k: int| 0 <= k < cur.len() implies headed_by_block(i, d, n, #[trigger] cur[k]) by {
            if k < prev.len() {
                assert(cur[k] == prev[k]);
                assert(headed_by_block(i, d, n - 1, prev[k]));
                let j = choose|j: int|
                    #![trigger block_text_head(i, j)]
                    0 <= j < n - 1 && block_is_necessary(d, j) && block_text_head(i, j).is_prefix_of(prev[k]);
                assert(block_text_head(i, j).is_prefix_of(cur[k]));
            } else {
                assert(cur[k] == block_text(i, d, n - 1));
                assert(block_text_head(i, n - 1).is_prefix_of(cur[k]));
            }
        }
    }
}

/// Each text of program `i` (counted from zero) that
/// `programs_basic_blocks_flows_in_text` gives for the data `d` begins with
/// `Program #`, the number `i + 1`, `, BB #` and the number (from one) of a
/// necessary block of `d`.
pub proof fn lemma_program_texts_numbered(i: int, d: DataView)
    ensures
        forall|k: int|
            0 <= k < program_text(i, d).len() ==> headed_by_block(
                i,
                d,
                d.basic_blocks.len() as int,
                #[trigger] program_text(i, d)[k],
            ),
{
    lemma_program_text_upto_heads(i, d, d.basic_blocks.len() as int);
}

} // verus!

verus! {

/// The last instruction of block `j` of `d`.
pub open spec fn last_of_block(d: DataView, j: int) -> InstView {
    let ids = d.basic_blocks[j].asm_inst_ids;
    inst_at(d.subroutines, ids.last().subroutine_index as int, ids.last().asm_inst_index as int)
}

/// The edges that the control flow computation gives block `j` follow the
/// instruction that ends it: none after an instruction that transfers no
/// control; after a branch with a known target `t`, first an edge under the
/// branch condition to the first block that starts with `t`; after a
/// conditional branch, last an edge under the complement of the condition to
/// the next block; and no other edge.
pub proof fn lemma_edges_follow_last_instruction(d: DataView, j: int)
    requires
        0 <= j < d.basic_blocks.len() <= usize::MAX,
        block_edges(d.subroutines, d.basic_blocks, j) is Ok,
    ensures
        d.basic_blocks[j].asm_inst_ids.len() > 0,
        ({
            let es = with_edges(d).basic_blocks[j].edges;
            match last_of_block(d, j).inst_type {
                InstTypeView::Ncti(_) => es.len() == 0,
                InstTypeView::CtiConditional(n, t) => {
                    &&& es.len() == (if t is Some { 2int } else { 1int })
                    &&& (t matches Some(tt) ==> first_block_with(d.basic_blocks, tt, es[0].destination_index as int)
                        && es[0].condition == condition_of_name(n))
                    &&& es.last() == (EdgeView {
                        condition: condition_complement_of_name(n),
                        destination_index: (j + 1) as usize,
                    })
                },
                InstTypeView::CtiUnconditional(n, t) => {
                    &&& es.len() == (if t is Some { 1int } else { 0int })
                    &&& (t matches Some(tt) ==> first_block_with(d.basic_blocks, tt, es[0].destination_index as int)
                        && es[0].condition == condition_of_name(n))
                },
            }
        }),
{
    let bbs = d.basic_blocks;
    let inst = last_of_block(d, j);
    assert(last_instruction(d.subroutines, bbs[j].asm_inst_ids) == Some(inst));
    assert(with_edges(d).basic_blocks[j].edges == block_edges(d.subroutines, bbs, j).unwrap());
    match inst.inst_type {
        InstTypeView::Ncti(_) => {
            assert(block_edges(d.subroutines, bbs, j) == Ok::<Seq<EdgeView>, EdgeFailure>(seq![]));
            assert(with_edges(d).basic_blocks[j].edges.len() == 0);
        },
        InstTypeView::CtiConditional(n, t) => {
            if let Some(tt) = t {
                lemma_first_block_exists(bbs, tt);
            }
        },
        InstTypeView::CtiUnconditional(n, t) => {
            if let Some(tt) = t {
                lemma_first_block_exists(bbs, tt);
            }
        },
    }
}

} // verus!
