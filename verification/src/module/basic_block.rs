//! Basic blocks: the leaders of a program and the blocks they start.
use vstd::prelude::*;
use crate::module::assembly::{
    find_main_subroutine, is_call_kind, is_first_main, lemma_first_main_unique, main_index, target_ids_defined,
    target_ids_of,
    AssemblyInstruction, AssemblyInstructionId, AssemblyInstructionType, InstTypeView,
    Subroutine, SubroutineView,
};
use crate::module::cfg::{Edge, EdgeView};

verus! {

/// A basic block: the positions of its instructions, and its outgoing edges.
pub struct BasicBlock {
    pub asm_inst_ids: Vec<AssemblyInstructionId>,
    pub edges: Vec<Edge>,
}

/// The abstract value of a [`BasicBlock`].
pub struct BasicBlockView {
    pub asm_inst_ids: Seq<AssemblyInstructionId>,
    pub edges: Seq<EdgeView>,
}

impl View for BasicBlock {
    type V = BasicBlockView;

    open spec fn view(&self) -> BasicBlockView {
        BasicBlockView { asm_inst_ids: self.asm_inst_ids@, edges: self.edges.deep_view() }
    }
}

impl DeepView for BasicBlock {
    type V = BasicBlockView;

    open spec fn deep_view(&self) -> BasicBlockView {
        self@
    }
}

impl BasicBlock {
    pub fn new(asm_inst_ids: Vec<AssemblyInstructionId>, edges: Vec<Edge>) -> (r: Self)
        ensures
            r.asm_inst_ids == asm_inst_ids,
            r.edges == edges,
    {
        Self { asm_inst_ids, edges }
    }

    /// The last instruction of the block.
    pub fn last_asm_instruction<'a>(&self, subroutines: &'a [Subroutine]) -> (r: &'a AssemblyInstruction)
        requires
            self.asm_inst_ids@.len() > 0,
            self.asm_inst_ids@.last().subroutine_index < subroutines@.len(),
            self.asm_inst_ids@.last().asm_inst_index < subroutines@[self.asm_inst_ids@.last().subroutine_index as int].asm_insts@.len(),
        ensures
            *r == subroutines@[self.asm_inst_ids@.last().subroutine_index as int].asm_insts@[self.asm_inst_ids@.last().asm_inst_index as int],
    {
        let last = self.asm_inst_ids[self.asm_inst_ids.len() - 1];
        &subroutines[last.subroutine_index].asm_insts[last.asm_inst_index]
    }
}

/// `a` comes before `b`: by subroutine, then by position in the subroutine
/// (the order that `AssemblyInstructionId`'s derived `Ord` gives).
pub open spec fn id_lt(a: AssemblyInstructionId, b: AssemblyInstructionId) -> bool {
    a.subroutine_index < b.subroutine_index || (a.subroutine_index == b.subroutine_index
        && a.asm_inst_index < b.asm_inst_index)
}

/// `s` is in increasing order without repetitions.
pub open spec fn strictly_sorted(s: Seq<AssemblyInstructionId>) -> bool {
    forall|k: int, l: int| 0 <= k < l < s.len() ==> id_lt(#[trigger] s[k], #[trigger] s[l])
}

fn id_less(a: AssemblyInstructionId, b: AssemblyInstructionId) -> (r: bool)
    ensures
        r == id_lt(a, b),
{
    a.subroutine_index < b.subroutine_index || (a.subroutine_index == b.subroutine_index
        && a.asm_inst_index < b.asm_inst_index)
}

/// The union of two sorted sequences, sorted.
fn merge_unique(a: &Vec<AssemblyInstructionId>, b: &Vec<AssemblyInstructionId>) -> (r: Vec<
    AssemblyInstructionId,
>)
    requires
        strictly_sorted(a@),
        strictly_sorted(b@),
    ensures
        strictly_sorted(r@),
        r@.to_set() == a@.to_set() + b@.to_set(),
{
    let mut r: Vec<AssemblyInstructionId> = Vec::new();
    let mut i: usize = 0;
    let mut j: usize = 0;
    while i < a.len() || j < b.len()
        invariant
            strictly_sorted(a@),
            strictly_sorted(b@),
            i <= a@.len(),
            j <= b@.len(),
            strictly_sorted(r@),
            r@.to_set() == a@.subrange(0, i as int).to_set() + b@.subrange(0, j as int).to_set(),
            forall|k: int| 0 <= k < r@.len() && i < a@.len() ==> id_lt(#[trigger] r@[k], a@[i as int]),
            forall|k: int| 0 <= k < r@.len() && j < b@.len() ==> id_lt(#[trigger] r@[k], b@[j as int]),
        decreases a@.len() + b@.len() - i - j,
    {
        let ghost old_r = r@;
        let take_a = i < a.len() && (j >= b.len() || !id_less(b[j], a[i]));
        let take_b = j < b.len() && (i >= a.len() || !id_less(a[i], b[j]));
        let x = if take_a {
            a[i]
        } else {
            b[j]
        };
        r.push(x);
        proof {
            old_r.lemma_push_to_set_commute(x);
            if take_a {
                assert(a@.subrange(0, i + 1) =~= a@.subrange(0, i as int).push(x));
                a@.subrange(0, i as int).lemma_push_to_set_commute(x);
            }
            if take_b {
                assert(b@.subrange(0, j + 1) =~= b@.subrange(0, j as int).push(b@[j as int]));
                b@.subrange(0, j as int).lemma_push_to_set_commute(b@[j as int]);
            }
        }
        if take_a {
            i = i + 1;
        }
        if take_b {
            j = j + 1;
        }
        assert(r@.to_set() =~= a@.subrange(0, i as int).to_set() + b@.subrange(0, j as int).to_set());
    }
    assert(a@.subrange(0, a@.len() as int) =~= a@);
    assert(b@.subrange(0, b@.len() as int) =~= b@);
    r
}

proof fn lemma_concat_to_set(x: Seq<AssemblyInstructionId>, y: Seq<AssemblyInstructionId>)
    ensures
        (x + y).to_set() == x.to_set() + y.to_set(),
{
    assert forall|e: AssemblyInstructionId|
        (x + y).to_set().contains(e) <==> (x.to_set() + y.to_set()).contains(e) by {
        if (x + y).contains(e) {
            let k = choose|k: int| 0 <= k < (x + y).len() && (x + y)[k] == e;
            if k < x.len() {
                assert(x[k] == e);
            } else {
                assert(y[k - x.len()] == e);
            }
        }
        if x.contains(e) {
            let k = choose|k: int| 0 <= k < x.len() && x[k] == e;
            assert((x + y)[k] == e);
        }
        if y.contains(e) {
            let k = choose|k: int| 0 <= k < y.len() && y[k] == e;
            assert((x + y)[k + x.len()] == e);
        }
    }
    assert((x + y).to_set() =~= x.to_set() + y.to_set());
}

/// The elements of `v[lo..hi]`, sorted, each once.
fn sort_unique(v: &Vec<AssemblyInstructionId>, lo: usize, hi: usize) -> (r: Vec<AssemblyInstructionId>)
    requires
        lo <= hi <= v@.len(),
    ensures
        strictly_sorted(r@),
        r@.to_set() == v@.subrange(lo as int, hi as int).to_set(),
    decreases hi - lo,
{
    if hi - lo == 0 {
        let r: Vec<AssemblyInstructionId> = Vec::new();
        assert(r@.to_set() =~= v@.subrange(lo as int, hi as int).to_set());
        r
    } else if hi - lo == 1 {
        let mut r: Vec<AssemblyInstructionId> = Vec::new();
        r.push(v[lo]);
        assert(v@.subrange(lo as int, hi as int) =~= r@);
        r
    } else {
        let mid = lo + (hi - lo) / 2;
        let a = sort_unique(v, lo, mid);
        let b = sort_unique(v, mid, hi);
        proof {
            assert(v@.subrange(lo as int, hi as int) =~= v@.subrange(lo as int, mid as int) + v@.subrange(mid as int, hi as int));
            lemma_concat_to_set(v@.subrange(lo as int, mid as int), v@.subrange(mid as int, hi as int));
        }
        merge_unique(&a, &b)
    }
}

} // verus!

verus! {

/// Why the leaders of a program could not be found; each names the instruction
/// where the search stopped.
#[derive(PartialEq, Eq, Clone, Copy, Debug, Structural)]
pub enum LeaderError {
    /// No subroutine label holds `<main>:`.
    NoMainSubroutine,
    /// An instruction whose successors are not known (see `target_ids_defined`).
    UndefinedTargets(AssemblyInstructionId),
    /// A call whose target lies in no subroutine.
    TargetOutOfRange(AssemblyInstructionId),
    /// A `ret` outside `main` with no pending call.
    EmptyReturnStack(AssemblyInstructionId),
    /// The search ran out of subroutines before the last instruction of `main`.
    Unfinished,
    /// The search went on for more steps than a `u64` counts.
    StepLimit,
}

/// `subs` with subroutine `k` marked as necessary.
pub open spec fn set_necessary(subs: Seq<SubroutineView>, k: int) -> Seq<SubroutineView> {
    subs.update(k, SubroutineView { necessary: true, ..subs[k] })
}

/// The state of the search for leaders: the subroutines (with the necessary
/// ones marked), the leaders found so far (each time found), the necessary
/// subroutines, the queue of subroutines still to scan, the return positions of
/// the pending calls, the position of the instruction to look at next, whether
/// a subroutine is being scanned, and the outcome once the search has stopped.
pub struct LeaderState {
    pub subs: Seq<SubroutineView>,
    pub leaders: Seq<AssemblyInstructionId>,
    pub necessary: Set<int>,
    pub queue: Seq<usize>,
    pub stack: Seq<AssemblyInstructionId>,
    pub i: int,
    pub j: int,
    pub scanning: bool,
    pub outcome: Option<Result<(), LeaderError>>,
}

pub open spec fn leader_stop(s: LeaderState, outcome: Result<(), LeaderError>) -> LeaderState {
    LeaderState { outcome: Some(outcome), ..s }
}

/// One step of the search for leaders. Starting at `main` it scans the
/// subroutines in the order in which calls reach them for the first time; at
/// each instruction it adds the instructions that control can reach from it as
/// leaders, follows the first call of each subroutine and the return after it,
/// and it stops at the last instruction of `main`.
pub open spec fn leader_step(s: LeaderState, main: int) -> LeaderState {
    if !s.scanning {
        if s.queue.len() == 0 {
            leader_stop(s, Err(LeaderError::Unfinished))
        } else {
            LeaderState { i: s.queue[0] as int, queue: s.queue.drop_first(), scanning: true, ..s }
        }
    } else if s.i < 0 || s.i >= s.subs.len() || s.j < 0 {
        leader_stop(s, Err(LeaderError::Unfinished))
    } else if s.j >= s.subs[s.i].asm_insts.len() {
        LeaderState { scanning: false, ..s }
    } else if s.i == main && s.j == s.subs[s.i].asm_insts.len() - 1 {
        leader_stop(s, Ok(()))
    } else {
        let inst = s.subs[s.i].asm_insts[s.j];
        let here = AssemblyInstructionId { subroutine_index: s.i as usize, asm_inst_index: s.j as usize };
        if !target_ids_defined(inst, s.subs) {
            leader_stop(s, Err(LeaderError::UndefinedTargets(here)))
        } else {
            let tids = target_ids_of(inst, s.subs);
            let s1 = LeaderState { leaders: s.leaders + tids, ..s };
            match inst.inst_type {
                InstTypeView::CtiUnconditional(name, _) => if name == "bl"@ || name == "blr"@ {
                    let t = tids[0];
                    if s.necessary.contains(t.subroutine_index as int) {
                        LeaderState { j: s.j + 1, ..s1 }
                    } else if t.subroutine_index >= s.subs.len() {
                        leader_stop(s1, Err(LeaderError::TargetOutOfRange(here)))
                    } else {
                        LeaderState {
                            subs: set_necessary(s.subs, t.subroutine_index as int),
                            necessary: s.necessary.insert(t.subroutine_index as int),
                            queue: s.queue.push(t.subroutine_index),
                            stack: s.stack.push(
                                AssemblyInstructionId {
                                    subroutine_index: s.i as usize,
                                    asm_inst_index: (s.j + 1) as usize,
                                },
                            ),
                            i: t.subroutine_index as int,
                            j: t.asm_inst_index as int,
                            ..s1
                        }
                    }
                } else if name == "ret"@ {
                    if s.stack.len() > 0 {
                        LeaderState {
                            i: s.stack.last().subroutine_index as int,
                            j: s.stack.last().asm_inst_index as int,
                            stack: s.stack.drop_last(),
                            ..s1
                        }
                    } else if s.i != main {
                        leader_stop(s1, Err(LeaderError::EmptyReturnStack(here)))
                    } else {
                        LeaderState { j: s.j + 1, ..s1 }
                    }
                } else {
                    LeaderState { j: s.j + 1, ..s1 }
                },
                _ => LeaderState { j: s.j + 1, ..s1 },
            }
        }
    }
}

/// At most `fuel` steps of the search from `s`.
pub open spec fn leader_run(s: LeaderState, main: int, fuel: nat) -> LeaderState
    decreases fuel,
{
    if s.outcome is Some || fuel == 0 {
        s
    } else {
        leader_run(leader_step(s, main), main, (fuel - 1) as nat)
    }
}

/// The state that the search ends in: `last`, or `last` stopped at the step limit.
pub open spec fn finish_leaders(last: LeaderState) -> LeaderState {
    if last.outcome is None {
        leader_stop(last, Err(LeaderError::StepLimit))
    } else {
        last
    }
}

/// The state the search starts in: `main` marked necessary and its first
/// instruction a leader.
pub open spec fn leader_start(subs: Seq<SubroutineView>, main: int) -> LeaderState {
    LeaderState {
        subs: set_necessary(subs, main),
        leaders: seq![AssemblyInstructionId { subroutine_index: main as usize, asm_inst_index: 0 }],
        necessary: set![main],
        queue: seq![main as usize],
        stack: seq![],
        i: 0,
        j: 0,
        scanning: false,
        outcome: None,
    }
}

/// The outcome of the search for the leaders of `subs`.
pub open spec fn find_leaders(subs: Seq<SubroutineView>) -> LeaderState {
    match main_index(subs) {
        None => LeaderState {
            subs,
            leaders: seq![],
            necessary: Set::empty(),
            queue: seq![],
            stack: seq![],
            i: 0,
            j: 0,
            scanning: false,
            outcome: Some(Err(LeaderError::NoMainSubroutine)),
        },
        Some(main) => finish_leaders(leader_run(leader_start(subs, main), main, u64::MAX as nat)),
    }
}

} // verus!

verus! {

/// What the search for leaders does after an instruction.
enum LeaderAction {
    Call,
    Return,
    Next,
}

fn leader_action(t: &AssemblyInstructionType) -> (r: LeaderAction)
    ensures
        match t@ {
            InstTypeView::CtiUnconditional(name, _) => if name == "bl"@ || name == "blr"@ {
                r is Call
            } else if name == "ret"@ {
                r is Return
            } else {
                r is Next
            },
            _ => r is Next,
        },
{
    match t {
        AssemblyInstructionType::CtiUnconditional(name, _) => {
            if crate::text::str_eq(name.as_str(), "bl") || crate::text::str_eq(name.as_str(), "blr") {
                LeaderAction::Call
            } else if crate::text::str_eq(name.as_str(), "ret") {
                LeaderAction::Return
            } else {
                LeaderAction::Next
            }
        },
        _ => LeaderAction::Next,
    }
}

/// Marks subroutine `k` as necessary.
fn mark_necessary(subroutines: &mut [Subroutine], k: usize)
    requires
        k < old(subroutines)@.len(),
    ensures
        final(subroutines).deep_view() == set_necessary(old(subroutines).deep_view(), k as int),
        final(subroutines)@.len() == old(subroutines)@.len(),
{
    subroutines[k].necessary = true;
    assert(subroutines.deep_view() =~= set_necessary(old(subroutines).deep_view(), k as int));
}

/// Finds the leaders of a program whose targets are resolved: the first
/// instruction of `main` and every instruction that a control transfer
/// instruction on the way from there to the end of `main` can pass control to.
/// The subroutines that calls reach are marked as necessary. The leaders come
/// sorted by position, each once. Some subroutine label must hold `<main>:`.
pub fn extract_leaders_ids(subroutines: &mut [Subroutine]) -> (r: Result<
    Vec<AssemblyInstructionId>,
    LeaderError,
>)
    requires
        main_index(old(subroutines).deep_view()) is Some,
    ensures
        final(subroutines).deep_view() == find_leaders(old(subroutines).deep_view()).subs,
        find_leaders(old(subroutines).deep_view()).outcome == Some(
            match r {
                Ok(_) => Ok::<(), LeaderError>(()),
                Err(e) => Err(e),
            },
        ),
        r matches Ok(v) ==> strictly_sorted(v@) && v@.to_set() == find_leaders(
            old(subroutines).deep_view(),
        ).leaders.to_set() && v@ == sorted_ids(find_leaders(old(subroutines).deep_view()).leaders.to_set()),
{
    let ghost subs0 = subroutines.deep_view();
    let main = match find_main_subroutine(subroutines) {
        Some(m) => m,
        None => {
            return Err(LeaderError::NoMainSubroutine);
        },
    };
    proof {
        let m = choose|k: int| is_first_main(subs0, k);
        lemma_first_main_unique(subs0, m, main as int);
    }
    let n = subroutines.len();
    mark_necessary(subroutines, main);
    let mut leaders: Vec<AssemblyInstructionId> = Vec::new();
    leaders.push(AssemblyInstructionId { subroutine_index: main, asm_inst_index: 0 });
    let mut flags: Vec<bool> = Vec::new();
    let mut k: usize = 0;
    while k < n
        invariant
            k <= n,
            flags@.len() == k,
            forall|m: int| 0 <= m < k ==> #[trigger] flags@[m] == (m == main),
        decreases n - k,
    {
        flags.push(k == main);
        k = k + 1;
    }
    let ghost mut necessary: Set<int> = set![main as int];
    let mut queue: Vec<usize> = Vec::new();
    queue.push(main);
    let mut head: usize = 0;
    let mut stack: Vec<AssemblyInstructionId> = Vec::new();
    let mut i: usize = 0;
    let mut j: usize = 0;
    let mut scanning = false;
    let mut fuel: u64 = u64::MAX;
    let ghost init = leader_start(subs0, main as int);
    assert(queue@.subrange(0, 1) =~= seq![main]);
    loop
        invariant
            subs0 == old(subroutines).deep_view(),
            main_index(subs0) == Some(main as int),
            find_leaders(subs0) == finish_leaders(leader_run(init, main as int, u64::MAX as nat)),
            n == subroutines@.len(),
            main < n,
            flags@.len() == n,
            forall|m: int| 0 <= m < n ==> #[trigger] flags@[m] == necessary.contains(m),
            forall|m: int| necessary.contains(m) ==> 0 <= m < n,
            head <= queue@.len(),
            leader_run(
                LeaderState {
                    subs: subroutines.deep_view(),
                    leaders: leaders@,
                    necessary,
                    queue: queue@.subrange(head as int, queue@.len() as int),
                    stack: stack@,
                    i: i as int,
                    j: j as int,
                    scanning,
                    outcome: None,
                },
                main as int,
                fuel as nat,
            ) == leader_run(init, main as int, u64::MAX as nat),
        decreases fuel,
    {
        let ghost cur = LeaderState {
            subs: subroutines.deep_view(),
            leaders: leaders@,
            necessary,
            queue: queue@.subrange(head as int, queue@.len() as int),
            stack: stack@,
            i: i as int,
            j: j as int,
            scanning,
            outcome: None,
        };
        if fuel == 0 {
            assert(leader_run(cur, main as int, 0) == cur);
            return Err(LeaderError::StepLimit);
        }
        let ghost next = leader_step(cur, main as int);
        assert(leader_run(cur, main as int, fuel as nat) == leader_run(next, main as int, (fuel - 1) as nat));
        if !scanning {
            if head >= queue.len() {
                assert(leader_run(next, main as int, (fuel - 1) as nat) == next);
                return Err(LeaderError::Unfinished);
            }
            i = queue[head];
            head = head + 1;
            scanning = true;
            assert(queue@.subrange(head as int, queue@.len() as int) =~= cur.queue.drop_first());
        } else if i >= n {
            assert(leader_run(next, main as int, (fuel - 1) as nat) == next);
            return Err(LeaderError::Unfinished);
        } else {
            let len = subroutines[i].asm_insts.len();
            if j >= len {
                scanning = false;
            } else if i == main && j == len - 1 {
                assert(leader_run(next, main as int, (fuel - 1) as nat) == next);
                let sorted = sort_unique(&leaders, 0, leaders.len());
                assert(leaders@.subrange(0, leaders@.len() as int) =~= leaders@);
                proof {
                    lemma_sorted_ids(sorted@);
                }
                return Ok(sorted);
            } else {
                let here = AssemblyInstructionId { subroutine_index: i, asm_inst_index: j };
                assert(subroutines@[i as int].asm_insts@[j as int]@ == cur.subs[i as int].asm_insts[j as int]);
                if !subroutines[i].asm_insts[j].target_ids_are_defined(subroutines) {
                    assert(leader_run(next, main as int, (fuel - 1) as nat) == next);
                    return Err(LeaderError::UndefinedTargets(here));
                }
                let tids = subroutines[i].asm_insts[j].get_target_ids(subroutines);
                let action = leader_action(&subroutines[i].asm_insts[j].inst_type);
                let mut m: usize = 0;
                let ghost leaders_before = leaders@;
                while m < tids.len()
                    invariant
                        m <= tids@.len(),
                        leaders@ == leaders_before + tids@.subrange(0, m as int),
                    decreases tids@.len() - m,
                {
                    leaders.push(tids[m]);
                    assert(tids@.subrange(0, m + 1) =~= tids@.subrange(0, m as int).push(tids@[m as int]));
                    m = m + 1;
                }
                assert(tids@.subrange(0, tids@.len() as int) =~= tids@);
                match action {
                    LeaderAction::Call => {
                        let t = tids[0];
                        if t.subroutine_index < n && flags[t.subroutine_index] {
                            j = j + 1;
                        } else if t.subroutine_index >= n {
                            assert(leader_run(next, main as int, (fuel - 1) as nat) == next);
                            return Err(LeaderError::TargetOutOfRange(here));
                        } else {
                            flags.set(t.subroutine_index, true);
                            proof {
                                necessary = necessary.insert(t.subroutine_index as int);
                            }
                            let ghost q_before = queue@;
                            queue.push(t.subroutine_index);
                            assert(queue@.subrange(head as int, queue@.len() as int) =~= q_before.subrange(head as int, q_before.len() as int).push(t.subroutine_index));
                            mark_necessary(subroutines, t.subroutine_index);
                            stack.push(AssemblyInstructionId { subroutine_index: i, asm_inst_index: j + 1 });
                            i = t.subroutine_index;
                            j = t.asm_inst_index;
                        }
                    },
                    LeaderAction::Return => {
                        if stack.len() > 0 {
                            let rid = stack.pop().unwrap();
                            i = rid.subroutine_index;
                            j = rid.asm_inst_index;
                        } else if i != main {
                            assert(leader_run(next, main as int, (fuel - 1) as nat) == next);
                            return Err(LeaderError::EmptyReturnStack(here));
                        } else {
                            j = j + 1;
                        }
                    },
                    LeaderAction::Next => {
                        j = j + 1;
                    },
                }
            }
        }
        assert(LeaderState {
            subs: subroutines.deep_view(),
            leaders: leaders@,
            necessary,
            queue: queue@.subrange(head as int, queue@.len() as int),
            stack: stack@,
            i: i as int,
            j: j as int,
            scanning,
            outcome: None,
        } == next);
        fuel = fuel - 1;
    }
}

} // verus!

verus! {

/// Why the basic blocks could not be formed.
#[derive(PartialEq, Eq, Clone, Copy, Debug, Structural)]
pub enum BlockError {
    /// The block of this leader runs past the last subroutine.
    OutOfRange(AssemblyInstructionId),
}

/// The positions `(s, a), (s, a + 1), ..., (s, b - 1)`.
pub open spec fn ids_between(s: int, a: int, b: int) -> Seq<AssemblyInstructionId> {
    Seq::new(
        if a < b {
            (b - a) as nat
        } else {
            0
        },
        |k: int| AssemblyInstructionId { subroutine_index: s as usize, asm_inst_index: (a + k) as usize },
    )
}

/// The block that starts at `(s, start)` after the positions `acc`, and runs up
/// to the next leader `next`, across the ends of subroutines: `Some` with the
/// block where it reaches `next`, `None` where it ends with nothing collected
/// at the end of a subroutine, `Err` where it runs past the last subroutine.
pub open spec fn walk_block(
    subs: Seq<SubroutineView>,
    s: int,
    start: int,
    next: AssemblyInstructionId,
    acc: Seq<AssemblyInstructionId>,
) -> Result<Option<Seq<AssemblyInstructionId>>, ()>
    decreases subs.len() - s,
{
    if s < 0 || s >= subs.len() {
        Err(())
    } else {
        let len = subs[s].asm_insts.len() as int;
        if s == next.subroutine_index && start <= next.asm_inst_index < len {
            Ok(Some(acc + ids_between(s, start, next.asm_inst_index as int)))
        } else {
            let acc2 = acc + ids_between(s, start, len);
            if acc2.len() == 0 {
                Ok(None)
            } else {
                walk_block(subs, s + 1, 0, next, acc2)
            }
        }
    }
}

/// The blocks of the leaders from the `k`-th on.
pub open spec fn blocks_from(
    subs: Seq<SubroutineView>,
    leaders: Seq<AssemblyInstructionId>,
    k: int,
) -> Result<Seq<Seq<AssemblyInstructionId>>, BlockError>
    decreases leaders.len() - k,
{
    if k < 0 || k >= leaders.len() {
        Ok(seq![])
    } else if k + 1 < leaders.len() {
        match walk_block(
            subs,
            leaders[k].subroutine_index as int,
            leaders[k].asm_inst_index as int,
            leaders[k + 1],
            seq![],
        ) {
            Err(_) => Err(BlockError::OutOfRange(leaders[k])),
            Ok(Some(b)) => match blocks_from(subs, leaders, k + 1) {
                Ok(rest) => Ok(seq![b] + rest),
                Err(e) => Err(e),
            },
            Ok(None) => blocks_from(subs, leaders, k + 1),
        }
    } else if leaders[k].subroutine_index >= subs.len() {
        Err(BlockError::OutOfRange(leaders[k]))
    } else {
        Ok(
            seq![
                ids_between(
                    leaders[k].subroutine_index as int,
                    leaders[k].asm_inst_index as int,
                    subs[leaders[k].subroutine_index as int].asm_insts.len() as int,
                ),
            ],
        )
    }
}

/// Appends `(s, a), ..., (s, b - 1)` to `ids`.
fn push_range(ids: &mut Vec<AssemblyInstructionId>, s: usize, a: usize, b: usize)
    ensures
        final(ids)@ == old(ids)@ + ids_between(s as int, a as int, b as int),
{
    let mut k = a;
    let ghost start = old(ids)@;
    while k < b
        invariant
            a <= k <= b || (b <= a && k == a),
            ids@ == start + ids_between(s as int, a as int, k as int),
        decreases b - k,
    {
        ids.push(AssemblyInstructionId { subroutine_index: s, asm_inst_index: k });
        assert(ids_between(s as int, a as int, k + 1) =~= ids_between(s as int, a as int, k as int).push(
            AssemblyInstructionId { subroutine_index: s, asm_inst_index: k },
        ));
        k = k + 1;
    }
    assert(ids_between(s as int, a as int, k as int) =~= ids_between(s as int, a as int, b as int));
}

/// Splits the instructions from each leader up to the next into basic blocks
/// (with no edges yet).
pub fn extract_basic_blocks(
    subroutines: &[Subroutine],
    leader_ids: Vec<AssemblyInstructionId>,
) -> (r: Result<Vec<BasicBlock>, BlockError>)
    ensures
        r is Err <==> blocks_from(subroutines.deep_view(), leader_ids@, 0) is Err,
        r matches Err(e) ==> blocks_from(subroutines.deep_view(), leader_ids@, 0) == Err::<
            Seq<Seq<AssemblyInstructionId>>,
            BlockError,
        >(e),
        r matches Ok(bbs) ==> blocks_from(subroutines.deep_view(), leader_ids@, 0) matches Ok(bs)
            && bbs@.len() == bs.len() && forall|k: int|
            0 <= k < bs.len() ==> (#[trigger] bbs@[k]).asm_inst_ids@ == bs[k] && bbs@[k].edges@.len()
                == 0,
{
    let ghost subs = subroutines.deep_view();
    let ghost leaders = leader_ids@;
    let n = subroutines.len();
    let mut basic_blocks: Vec<BasicBlock> = Vec::new();
    let mut i: usize = 0;
    while i < leader_ids.len()
        invariant
            subs == subroutines.deep_view(),
            leaders == leader_ids@,
            n == subs.len(),
            i <= leaders.len(),
            blocks_from(subs, leaders, 0) == match blocks_from(subs, leaders, i as int) {
                Ok(rest) => Ok(basic_blocks@.map_values(|b: BasicBlock| b.asm_inst_ids@) + rest),
                Err(e) => Err(e),
            },
            forall|k: int| 0 <= k < basic_blocks@.len() ==> (#[trigger] basic_blocks@[k]).edges@.len() == 0,
        decreases leaders.len() - i,
    {
        let leader = leader_ids[i];
        let ghost bb_before = basic_blocks@;
        if i + 1 < leader_ids.len() {
            let next = leader_ids[i + 1];
            let mut s = leader.subroutine_index;
            let mut start = leader.asm_inst_index;
            let mut ids: Vec<AssemblyInstructionId> = Vec::new();
            let mut block: Option<Vec<AssemblyInstructionId>> = None;
            loop
                invariant_except_break
                    walk_block(subs, leader.subroutine_index as int, leader.asm_inst_index as int, next, seq![])
                        == walk_block(subs, s as int, start as int, next, ids@),
                    block is None,
                invariant
                    subs == subroutines.deep_view(),
                    n == subs.len(),
                    i + 1 < leaders.len(),
                    leader == leaders[i as int],
                    next == leaders[i + 1],
                    leaders == leader_ids@,
                    blocks_from(subs, leaders, 0) == match blocks_from(subs, leaders, i as int) {
                        Ok(rest) => Ok(basic_blocks@.map_values(|b: BasicBlock| b.asm_inst_ids@) + rest),
                        Err(e) => Err(e),
                    },
                ensures
                    block matches Some(b) ==> walk_block(subs, leader.subroutine_index as int, leader.asm_inst_index as int, next, seq![])
                        == Ok::<Option<Seq<AssemblyInstructionId>>, ()>(Some(b@)),
                    block is None ==> walk_block(subs, leader.subroutine_index as int, leader.asm_inst_index as int, next, seq![])
                        == Ok::<Option<Seq<AssemblyInstructionId>>, ()>(None),
                decreases n - s,
            {
                if s >= n {
                    assert(blocks_from(subs, leaders, i as int) == Err::<Seq<Seq<AssemblyInstructionId>>, BlockError>(BlockError::OutOfRange(leader)));
                    return Err(BlockError::OutOfRange(leader));
                }
                let len = subroutines[s].asm_insts.len();
                if s == next.subroutine_index && start <= next.asm_inst_index && next.asm_inst_index < len {
                    push_range(&mut ids, s, start, next.asm_inst_index);
                    block = Some(ids);
                    break;
                }
                push_range(&mut ids, s, start, len);
                if ids.len() == 0 {
                    break;
                }
                s = s + 1;
                start = 0;
            }
            match block {
                Some(b) => {
                    let ghost bv = b@;
                    basic_blocks.push(BasicBlock::new(b, Vec::new()));
                    assert(basic_blocks@.map_values(|b: BasicBlock| b.asm_inst_ids@) =~= bb_before.map_values(|b: BasicBlock| b.asm_inst_ids@).push(bv));
                    proof {
                        match blocks_from(subs, leaders, i + 1) {
                            Ok(rest) => {
                                assert(bb_before.map_values(|b: BasicBlock| b.asm_inst_ids@) + (seq![bv] + rest) =~= bb_before.map_values(|b: BasicBlock| b.asm_inst_ids@).push(bv) + rest);
                            },
                            Err(e) => {},
                        }
                    }
                },
                None => {},
            }
        } else {
            if leader.subroutine_index >= n {
                return Err(BlockError::OutOfRange(leader));
            }
            let mut ids: Vec<AssemblyInstructionId> = Vec::new();
            push_range(&mut ids, leader.subroutine_index, leader.asm_inst_index, subroutines[leader.subroutine_index].asm_insts.len());
            let ghost bv = ids@;
            basic_blocks.push(BasicBlock::new(ids, Vec::new()));
            assert(basic_blocks@.map_values(|b: BasicBlock| b.asm_inst_ids@) =~= bb_before.map_values(|b: BasicBlock| b.asm_inst_ids@).push(bv));
            assert(blocks_from(subs, leaders, i + 1) == Ok::<Seq<Seq<AssemblyInstructionId>>, BlockError>(seq![]));
            assert(bb_before.map_values(|b: BasicBlock| b.asm_inst_ids@) + seq![bv] =~= bb_before.map_values(|b: BasicBlock| b.asm_inst_ids@).push(bv) + seq![]);
        }
        i = i + 1;
    }
    assert(basic_blocks@.map_values(|b: BasicBlock| b.asm_inst_ids@) + seq![] =~= basic_blocks@.map_values(|b: BasicBlock| b.asm_inst_ids@));
    Ok(basic_blocks)
}

} // verus!

verus! {

/// Block `k` starts with the instruction `id`.
pub open spec fn starts_with_id(bbs: Seq<BasicBlockView>, k: int, id: AssemblyInstructionId) -> bool {
    bbs[k].asm_inst_ids.len() > 0 && bbs[k].asm_inst_ids[0] == id
}

/// `k` is the first block that starts with `id`, and no block before it is empty.
pub open spec fn first_block_with(bbs: Seq<BasicBlockView>, id: AssemblyInstructionId, k: int) -> bool {
    &&& 0 <= k < bbs.len()
    &&& starts_with_id(bbs, k, id)
    &&& forall|m: int|
        0 <= m < k ==> (#[trigger] bbs[m]).asm_inst_ids.len() > 0 && bbs[m].asm_inst_ids[0] != id
}

/// No block starts with `id`.
pub open spec fn no_block_with(bbs: Seq<BasicBlockView>, id: AssemblyInstructionId) -> bool {
    forall|k: int| 0 <= k < bbs.len() ==> !starts_with_id(bbs, k, id)
}

/// Searching the blocks in order for `id` meets no empty block before it finds one.
pub open spec fn block_search_defined(bbs: Seq<BasicBlockView>, id: AssemblyInstructionId) -> bool {
    forall|k: int|
        0 <= k < bbs.len() && (#[trigger] bbs[k]).asm_inst_ids.len() == 0 ==> exists|m: int|
            0 <= m < k && starts_with_id(bbs, m, id)
}

/// Searches the blocks in order for the first one that starts with `id`: `Err`
/// where an empty block comes first.
pub(crate) fn scan_blocks(basic_blocks: &[BasicBlock], basic_block_id: &AssemblyInstructionId) -> (r:
    Result<Option<usize>, ()>)
    ensures
        r is Err <==> !block_search_defined(basic_blocks.deep_view(), *basic_block_id),
        r matches Ok(Some(k)) ==> first_block_with(basic_blocks.deep_view(), *basic_block_id, k as int),
        r matches Ok(None) ==> no_block_with(basic_blocks.deep_view(), *basic_block_id),
{
    let ghost bbs = basic_blocks.deep_view();
    let ghost id = *basic_block_id;
    let mut i: usize = 0;
    while i < basic_blocks.len()
        invariant
            bbs == basic_blocks.deep_view(),
            id == *basic_block_id,
            i <= bbs.len(),
            forall|m: int|
                0 <= m < i ==> (#[trigger] bbs[m]).asm_inst_ids.len() > 0 && bbs[m].asm_inst_ids[0] != id,
        decreases bbs.len() - i,
    {
        assert(bbs[i as int] == basic_blocks@[i as int]@);
        if basic_blocks[i].asm_inst_ids.len() == 0 {
            proof {
                if block_search_defined(bbs, id) {
                    let m = choose|m: int| 0 <= m < i && starts_with_id(bbs, m, id);
                    assert(bbs[m].asm_inst_ids.len() > 0);
                }
            }
            return Err(());
        }
        if basic_blocks[i].asm_inst_ids[0] == *basic_block_id {
            proof {
                assert forall|k: int|
                    0 <= k < bbs.len() && (#[trigger] bbs[k]).asm_inst_ids.len() == 0 implies exists|
                    m: int,
                | 0 <= m < k && starts_with_id(bbs, m, id) by {
                    if k < i {
                        assert(bbs[k].asm_inst_ids.len() > 0);
                    }
                    assert(starts_with_id(bbs, i as int, id));
                }
            }
            return Ok(Some(i));
        }
        i = i + 1;
    }
    proof {
        assert forall|k: int|
            0 <= k < bbs.len() && (#[trigger] bbs[k]).asm_inst_ids.len() == 0 implies exists|m: int|
            0 <= m < k && starts_with_id(bbs, m, id) by {
            assert(bbs[k].asm_inst_ids.len() > 0);
        }
    }
    Ok(None)
}

/// The index of the first block that starts with the instruction `basic_block_id`.
pub fn find_basic_block_index_by_id(
    basic_blocks: &[BasicBlock],
    basic_block_id: &AssemblyInstructionId,
) -> (r: Option<usize>)
    requires
        block_search_defined(basic_blocks.deep_view(), *basic_block_id),
    ensures
        r matches Some(k) ==> first_block_with(basic_blocks.deep_view(), *basic_block_id, k as int),
        r is None ==> no_block_with(basic_blocks.deep_view(), *basic_block_id),
{
    match scan_blocks(basic_blocks, basic_block_id) {
        Ok(found) => found,
        Err(_) => None,
    }
}

} // verus!

verus! {

/// The elements of `s`, sorted, each once.
pub open spec fn sorted_ids(s: Set<AssemblyInstructionId>) -> Seq<AssemblyInstructionId> {
    choose|t: Seq<AssemblyInstructionId>| strictly_sorted(t) && t.to_set() == s
}

/// Two sorted sequences with the same elements are the same.
pub proof fn lemma_sorted_unique(a: Seq<AssemblyInstructionId>, b: Seq<AssemblyInstructionId>)
    requires
        strictly_sorted(a),
        strictly_sorted(b),
        a.to_set() == b.to_set(),
    ensures
        a == b,
    decreases a.len(),
{
    if a.len() == 0 {
        if b.len() > 0 {
            assert(b.to_set().contains(b[0]));
            assert(a.to_set().contains(b[0]));
            assert(a.contains(b[0]));
            assert(false);
        }
        assert(b.len() == 0);
        assert(a =~= b);
    } else {
        assert(a.to_set().contains(a[0]));
        assert(b.contains(a[0]));
        assert(b.len() > 0);
        assert(b.to_set().contains(b[0]));
        assert(a.contains(b[0]));
        let ka = choose|k: int| 0 <= k < a.len() && a[k] == b[0];
        let kb = choose|k: int| 0 <= k < b.len() && b[k] == a[0];
        if ka > 0 {
            assert(id_lt(a[0], a[ka]));
        }
        if kb > 0 {
            assert(id_lt(b[0], b[kb]));
        }
        assert(a[0] == b[0]);
        let a1 = a.drop_first();
        let b1 = b.drop_first();
        assert forall|x: AssemblyInstructionId| a1.to_set().contains(x) <==> b1.to_set().contains(x) by {
            if a1.contains(x) {
                let k = choose|k: int| 0 <= k < a1.len() && a1[k] == x;
                assert(a[k + 1] == x);
                assert(id_lt(a[0], a[k + 1]));
                assert(a.to_set().contains(x));
                let m = choose|m: int| 0 <= m < b.len() && b[m] == x;
                assert(m != 0);
                assert(b1[m - 1] == x);
            }
            if b1.contains(x) {
                let k = choose|k: int| 0 <= k < b1.len() && b1[k] == x;
                assert(b[k + 1] == x);
                assert(id_lt(b[0], b[k + 1]));
                assert(b.to_set().contains(x));
                let m = choose|m: int| 0 <= m < a.len() && a[m] == x;
                assert(m != 0);
                assert(a1[m - 1] == x);
            }
        }
        assert(a1.to_set() =~= b1.to_set());
        lemma_sorted_unique(a1, b1);
        assert(a =~= seq![a[0]] + a1);
        assert(b =~= seq![b[0]] + b1);
    }
}

/// A sorted sequence is the sorted sequence of its elements.
pub proof fn lemma_sorted_ids(t: Seq<AssemblyInstructionId>)
    requires
        strictly_sorted(t),
    ensures
        sorted_ids(t.to_set()) == t,
{
    let u = sorted_ids(t.to_set());
    assert(strictly_sorted(u) && u.to_set() == t.to_set());
    lemma_sorted_unique(u, t);
}

} // verus!

verus! {

proof fn lemma_walk_keeps_prefix(
    subs: Seq<SubroutineView>,
    s: int,
    start: int,
    next: AssemblyInstructionId,
    acc: Seq<AssemblyInstructionId>,
)
    requires
        acc.len() > 0,
    ensures
        walk_block(subs, s, start, next, acc) matches Ok(Some(b)) ==> b.len() > 0 && b[0] == acc[0],
    decreases subs.len() - s,
{
    if 0 <= s < subs.len() {
        let len = subs[s].asm_insts.len() as int;
        if !(s == next.subroutine_index && start <= next.asm_inst_index < len) {
            let acc2 = acc + ids_between(s, start, len);
            lemma_walk_keeps_prefix(subs, s + 1, 0, next, acc2);
        }
    }
}

proof fn lemma_walk_starts_at(
    subs: Seq<SubroutineView>,
    s: int,
    start: int,
    next: AssemblyInstructionId,
)
    requires
        0 <= s <= usize::MAX,
        0 <= start <= usize::MAX,
    ensures
        walk_block(subs, s, start, next, seq![]) matches Ok(Some(b)) ==> b.len() > 0 ==> b[0]
            == (AssemblyInstructionId { subroutine_index: s as usize, asm_inst_index: start as usize }),
{
    if 0 <= s < subs.len() {
        let len = subs[s].asm_insts.len() as int;
        let acc2 = seq![] + ids_between(s, start, len);
        if !(s == next.subroutine_index && start <= next.asm_inst_index < len) && acc2.len() > 0 {
            lemma_walk_keeps_prefix(subs, s + 1, 0, next, acc2);
        }
    }
}

/// Each basic block that is not empty begins with a leader: the blocks of the
/// leaders from the `k`-th on begin with leaders from the `k`-th on.
pub proof fn lemma_blocks_start_at_leaders(
    subs: Seq<SubroutineView>,
    leaders: Seq<AssemblyInstructionId>,
    k: int,
)
    requires
        0 <= k,
    ensures
        blocks_from(subs, leaders, k) matches Ok(bs) ==> forall|j: int|
            0 <= j < bs.len() && (#[trigger] bs[j]).len() > 0 ==> exists|m: int|
                k <= m < leaders.len() && bs[j][0] == leaders[m],
    decreases leaders.len() - k,
{
    if k < leaders.len() {
        lemma_blocks_start_at_leaders(subs, leaders, k + 1);
        let l = leaders[k];
        if k + 1 < leaders.len() {
            lemma_walk_starts_at(subs, l.subroutine_index as int, l.asm_inst_index as int, leaders[k + 1]);
            match walk_block(subs, l.subroutine_index as int, l.asm_inst_index as int, leaders[k + 1], seq![]) {
                Ok(Some(b)) => match blocks_from(subs, leaders, k + 1) {
                    Ok(rest) => {
                        let bs = seq![b] + rest;
                        assert forall|j: int| 0 <= j < bs.len() && (#[trigger] bs[j]).len() > 0 implies exists|m: int|
                            k <= m < leaders.len() && bs[j][0] == leaders[m] by {
                            if j == 0 {
                                assert(bs[j][0] == leaders[k]);
                            } else {
                                assert(bs[j] == rest[j - 1]);
                            }
                        }
                    },
                    Err(_) => {},
                },
                _ => {},
            }
        } else if l.subroutine_index < subs.len() {
            let b = ids_between(
                l.subroutine_index as int,
                l.asm_inst_index as int,
                subs[l.subroutine_index as int].asm_insts.len() as int,
            );
            if b.len() > 0 {
                assert(b[0] == leaders[k]);
            }
        }
    }
}

} // verus!

verus! {

/// The leaders found so far in `a` come first in `b`.
pub open spec fn leaders_kept(a: Seq<AssemblyInstructionId>, b: Seq<AssemblyInstructionId>) -> bool {
    a.len() <= b.len() && forall|k: int| 0 <= k < a.len() ==> #[trigger] b[k] == a[k]
}

proof fn lemma_leader_step_keeps(s: LeaderState, main: int)
    ensures
        leaders_kept(s.leaders, leader_step(s, main).leaders),
{
}

proof fn lemma_leader_run_keeps(s: LeaderState, main: int, fuel: nat)
    ensures
        leaders_kept(s.leaders, leader_run(s, main, fuel).leaders),
    decreases fuel,
{
    if s.outcome is None && fuel > 0 {
        let s2 = leader_step(s, main);
        lemma_leader_step_keeps(s, main);
        lemma_leader_run_keeps(s2, main, (fuel - 1) as nat);
    }
}

/// The first instruction of the main subroutine is a leader.
pub proof fn lemma_main_entry_is_leader(subs: Seq<SubroutineView>)
    requires
        main_index(subs) is Some,
    ensures
        find_leaders(subs).leaders.contains(
            AssemblyInstructionId { subroutine_index: main_index(subs).unwrap() as usize, asm_inst_index: 0 },
        ),
{
    let main = main_index(subs).unwrap();
    let start = leader_start(subs, main);
    lemma_leader_run_keeps(start, main, u64::MAX as nat);
    let last = leader_run(start, main, u64::MAX as nat);
    assert(finish_leaders(last).leaders == last.leaders);
    assert(last.leaders[0] == start.leaders[0]);
}

} // verus!

verus! {

/// `subs` with every subroutine marked as not necessary.
pub open spec fn without_flags(subs: Seq<SubroutineView>) -> Seq<SubroutineView> {
    subs.map_values(|s: SubroutineView| SubroutineView { necessary: false, ..s })
}

proof fn lemma_set_necessary_keeps(subs: Seq<SubroutineView>, k: int)
    requires
        0 <= k < subs.len(),
    ensures
        without_flags(set_necessary(subs, k)) == without_flags(subs),
        forall|m: int| 0 <= m < subs.len() && subs[m].necessary ==> (#[trigger] set_necessary(subs, k)[m]).necessary,
{
    assert(without_flags(set_necessary(subs, k)) =~= without_flags(subs));
}

proof fn lemma_leader_step_flags(s: LeaderState, main: int)
    ensures
        without_flags(leader_step(s, main).subs) == without_flags(s.subs),
        leader_step(s, main).subs.len() == s.subs.len(),
        forall|m: int| 0 <= m < s.subs.len() && s.subs[m].necessary ==> (#[trigger] leader_step(s, main).subs[m]).necessary,
{
    let r = leader_step(s, main);
    if r.subs != s.subs {
        let k = choose|k: int| 0 <= k < s.subs.len() && r.subs == set_necessary(s.subs, k);
        lemma_set_necessary_keeps(s.subs, k);
    }
}

proof fn lemma_leader_run_flags(s: LeaderState, main: int, fuel: nat)
    ensures
        without_flags(leader_run(s, main, fuel).subs) == without_flags(s.subs),
        leader_run(s, main, fuel).subs.len() == s.subs.len(),
        forall|m: int| 0 <= m < s.subs.len() && s.subs[m].necessary ==> (#[trigger] leader_run(s, main, fuel).subs[m]).necessary,
    decreases fuel,
{
    if s.outcome is None && fuel > 0 {
        lemma_leader_step_flags(s, main);
        lemma_leader_run_flags(leader_step(s, main), main, (fuel - 1) as nat);
    }
}

/// The search for leaders changes nothing in the subroutines but their
/// necessary flags, and only raises them: `main` and every subroutine marked
/// before stay marked.
pub proof fn lemma_leaders_only_mark(subs: Seq<SubroutineView>)
    ensures
        without_flags(find_leaders(subs).subs) == without_flags(subs),
        find_leaders(subs).subs.len() == subs.len(),
        forall|m: int| 0 <= m < subs.len() && subs[m].necessary ==> (#[trigger] find_leaders(subs).subs[m]).necessary,
        main_index(subs) matches Some(main) ==> find_leaders(subs).subs[main].necessary,
{
    if let Some(main) = main_index(subs) {
        assert(is_first_main(subs, main));
        let start = leader_start(subs, main);
        lemma_set_necessary_keeps(subs, main);
        lemma_leader_run_flags(start, main, u64::MAX as nat);
    }
}

} // verus!

verus! {

proof fn lemma_position_same_insts(x: Seq<SubroutineView>, y: Seq<SubroutineView>, addr: Seq<char>)
    requires
        x.len() == y.len(),
        forall|k: int| 0 <= k < x.len() ==> #[trigger] x[k].asm_insts == y[k].asm_insts,
    ensures
        crate::module::assembly::position_of_address(x, addr)
            == crate::module::assembly::position_of_address(y, addr),
{
    assert forall|i: int, j: int|
        crate::module::assembly::first_with_address(x, addr, i, j)
            == crate::module::assembly::first_with_address(y, addr, i, j) by {
        if 0 <= i < x.len() {
            assert(x[i].asm_insts == y[i].asm_insts);
        }
        assert forall|i2: int, j2: int|
            crate::module::assembly::valid_pos(x, i2, j2) implies crate::module::assembly::inst_at(x, i2, j2)
            == crate::module::assembly::inst_at(y, i2, j2) by {
            assert(x[i2].asm_insts == y[i2].asm_insts);
        }
        assert forall|i2: int, j2: int|
            crate::module::assembly::valid_pos(y, i2, j2) implies crate::module::assembly::valid_pos(
            x,
            i2,
            j2,
        ) by {
            assert(x[i2].asm_insts == y[i2].asm_insts);
        }
    }
    if exists|i: int, j: int| crate::module::assembly::first_with_address(x, addr, i, j) {
        let (a, b) = choose|i: int, j: int| crate::module::assembly::first_with_address(x, addr, i, j);
        let (c, d) = choose|i: int, j: int| crate::module::assembly::first_with_address(y, addr, i, j);
        assert(crate::module::assembly::first_with_address(y, addr, a, b));
        crate::module::assembly::lemma_first_with_address_unique(y, addr, a, b, c, d);
    }
}

proof fn lemma_target_ids_marked(inst: crate::module::assembly::InstView, subs: Seq<SubroutineView>, k: int)
    requires
        0 <= k < subs.len(),
    ensures
        target_ids_of(inst, set_necessary(subs, k)) == target_ids_of(inst, subs),
{
    let x = set_necessary(subs, k);
    assert forall|m: int| 0 <= m < x.len() implies #[trigger] x[m].asm_insts == subs[m].asm_insts by {}
    lemma_position_same_insts(x, subs, crate::module::assembly::address_of(inst.content));
}

proof fn lemma_main_scan_adds_targets(
    subs: Seq<SubroutineView>,
    main: int,
    s: LeaderState,
    fuel: nat,
    j0: int,
    t: AssemblyInstructionId,
)
    requires
        0 <= main < subs.len(),
        s.subs == set_necessary(subs, main),
        s.i == main,
        s.scanning,
        s.outcome is None,
        s.stack.len() == 0,
        s.necessary == set![main],
        0 <= s.j <= j0 < subs[main].asm_insts.len() - 1,
        forall|k: int| s.j <= k < j0 ==> !is_call_kind(#[trigger] subs[main].asm_insts[k].inst_type),
        leader_run(s, main, fuel).outcome == Some(Ok::<(), LeaderError>(())),
        target_ids_of(subs[main].asm_insts[j0], subs).contains(t),
    ensures
        leader_run(s, main, fuel).leaders.contains(t),
        is_call_kind(subs[main].asm_insts[j0].inst_type) ==> (0 <= t.subroutine_index < subs.len() && leader_run(
            s,
            main,
            fuel,
        ).subs[t.subroutine_index as int].necessary),
    decreases fuel,
{
    let inst = subs[main].asm_insts[s.j];
    let s2 = leader_step(s, main);
    assert(s.subs[main].asm_insts == subs[main].asm_insts);
    assert(s.subs[s.i].asm_insts[s.j] == inst);
    lemma_target_ids_marked(inst, subs, main);
    if !target_ids_defined(inst, s.subs) {
        assert(s2.outcome is Some && s2.outcome != Some(Ok::<(), LeaderError>(())));
        assert(leader_run(s2, main, (fuel - 1) as nat) == s2);
    } else {
        let tids = target_ids_of(inst, s.subs);
        assert(tids == target_ids_of(inst, subs));
        if s.j == j0 {
            if s2.outcome is None {
                assert(s2.leaders == s.leaders + tids);
            }
            assert(s2.leaders == s.leaders + tids);
            let k = choose|k: int| 0 <= k < tids.len() && tids[k] == t;
            assert(s2.leaders[s.leaders.len() + k] == t);
            lemma_leader_run_keeps(s2, main, (fuel - 1) as nat);
            let last = leader_run(s2, main, (fuel - 1) as nat);
            assert(last.leaders[s.leaders.len() + k] == t);
            if is_call_kind(inst.inst_type) {
                reveal_strlit("bl");
                reveal_strlit("blr");
                reveal_strlit("ret");
                assert("bl"@ != "ret"@ && "blr"@ != "ret"@) by {
                    assert("bl"@.len() != "ret"@.len() && "blr"@[0] != "ret"@[0]);
                }
                assert(tids.len() == 1 && k == 0);
                lemma_leader_run_flags(s2, main, (fuel - 1) as nat);
                if t.subroutine_index as int == main {
                    assert(s2.subs[main].necessary);
                } else {
                    assert(s2.subs == set_necessary(s.subs, t.subroutine_index as int));
                    assert(s2.subs[t.subroutine_index as int].necessary);
                }
            }
        } else {
            assert(!is_call_kind(inst.inst_type));
            assert(s2 == LeaderState { j: s.j + 1, leaders: s.leaders + tids, ..s });
            lemma_main_scan_adds_targets(subs, main, s2, (fuel - 1) as nat, j0, t);
        }
    }
}

/// Every instruction that control can reach from an instruction of `main` is a
/// leader, for the instructions of `main` before its last one that no call
/// (`bl`, `blr`) precedes, where the search ends well: in particular the
/// target of every such `b`, and the next instruction after every such
/// conditional branch. Where that instruction is itself a call, the subroutine
/// it calls is marked as necessary. `extract_leaders_ids` returns these
/// leaders sorted.
pub proof fn lemma_main_targets_are_leaders(subs: Seq<SubroutineView>, j: int, t: AssemblyInstructionId)
    requires
        subs.len() <= usize::MAX,
        main_index(subs) is Some,
        find_leaders(subs).outcome == Some(Ok::<(), LeaderError>(())),
        0 <= j < subs[main_index(subs).unwrap()].asm_insts.len() - 1,
        forall|k: int|
            0 <= k < j ==> !is_call_kind(#[trigger] subs[main_index(subs).unwrap()].asm_insts[k].inst_type),
        target_ids_of(subs[main_index(subs).unwrap()].asm_insts[j], subs).contains(t),
    ensures
        find_leaders(subs).leaders.contains(t),
        is_call_kind(subs[main_index(subs).unwrap()].asm_insts[j].inst_type) ==> (0 <= t.subroutine_index < subs.len()
            && find_leaders(subs).subs[t.subroutine_index as int].necessary),
{
    let main = main_index(subs).unwrap();
    assert(crate::module::assembly::is_first_main(subs, main));
    let start = leader_start(subs, main);
    let last = leader_run(start, main, u64::MAX as nat);
    assert(finish_leaders(last).leaders == last.leaders);
    assert(last.outcome == Some(Ok::<(), LeaderError>(())));
    let s1 = leader_step(start, main);
    assert(start.queue.drop_first() =~= Seq::<usize>::empty());
    assert(s1 == LeaderState { i: main, queue: seq![], scanning: true, ..start });
    assert(last == leader_run(s1, main, (u64::MAX - 1) as nat));
    lemma_main_scan_adds_targets(subs, main, s1, (u64::MAX - 1) as nat, j, t);
}

} // verus!

verus! {

/// `t` is an instruction that control can reach from some instruction of `subs`.
pub open spec fn reached_from_some(subs: Seq<SubroutineView>, t: AssemblyInstructionId) -> bool {
    exists|a: int, b: int|
        crate::module::assembly::valid_pos(subs, a, b) && (#[trigger] target_ids_of(
            crate::module::assembly::inst_at(subs, a, b),
            subs,
        )).contains(t)
}

/// Every leader of `leaders` is the first instruction of `main` or reached from
/// some instruction of `subs`.
pub open spec fn leaders_justified(subs: Seq<SubroutineView>, main: int, leaders: Seq<AssemblyInstructionId>) -> bool {
    forall|k: int|
        0 <= k < leaders.len() ==> #[trigger] leaders[k] == (AssemblyInstructionId {
            subroutine_index: main as usize,
            asm_inst_index: 0,
        }) || reached_from_some(subs, leaders[k])
}

proof fn lemma_leader_step_justified(subs: Seq<SubroutineView>, s: LeaderState, main: int)
    requires
        without_flags(s.subs) == without_flags(subs),
        leaders_justified(subs, main, s.leaders),
    ensures
        leaders_justified(subs, main, leader_step(s, main).leaders),
{
    let r = leader_step(s, main);
    if r.leaders != s.leaders {
        let inst = s.subs[s.i].asm_insts[s.j];
        let tids = target_ids_of(inst, s.subs);
        assert(r.leaders == s.leaders + tids);
        assert(s.subs.len() == without_flags(s.subs).len());
        assert(subs.len() == without_flags(subs).len());
        assert forall|m: int| 0 <= m < s.subs.len() implies #[trigger] s.subs[m].asm_insts == subs[m].asm_insts by {
            assert(without_flags(s.subs)[m].asm_insts == s.subs[m].asm_insts);
            assert(without_flags(subs)[m].asm_insts == subs[m].asm_insts);
        }
        lemma_position_same_insts(s.subs, subs, crate::module::assembly::address_of(inst.content));
        assert(s.subs[s.i].asm_insts == subs[s.i].asm_insts);
        assert(crate::module::assembly::inst_at(subs, s.i, s.j) == inst);
        assert(tids == target_ids_of(crate::module::assembly::inst_at(subs, s.i, s.j), subs));
        assert forall|k: int| 0 <= k < r.leaders.len() implies #[trigger] r.leaders[k] == (AssemblyInstructionId {
            subroutine_index: main as usize,
            asm_inst_index: 0,
        }) || reached_from_some(subs, r.leaders[k]) by {
            if k < s.leaders.len() {
                assert(r.leaders[k] == s.leaders[k]);
            } else {
                assert(tids[k - s.leaders.len()] == r.leaders[k]);
                assert(tids.contains(r.leaders[k]));
                assert(crate::module::assembly::valid_pos(subs, s.i, s.j));
            }
        }
    }
}

proof fn lemma_leader_run_justified(subs: Seq<SubroutineView>, s: LeaderState, main: int, fuel: nat)
    requires
        without_flags(s.subs) == without_flags(subs),
        leaders_justified(subs, main, s.leaders),
    ensures
        leaders_justified(subs, main, leader_run(s, main, fuel).leaders),
    decreases fuel,
{
    if s.outcome is None && fuel > 0 {
        lemma_leader_step_flags(s, main);
        lemma_leader_step_justified(subs, s, main);
        lemma_leader_run_justified(subs, leader_step(s, main), main, (fuel - 1) as nat);
    }
}

/// Every leader is the first instruction of `main` or an instruction that
/// control can reach from some instruction of the program (`target_ids_of`):
/// the search adds no other.
pub proof fn lemma_leaders_are_reached(subs: Seq<SubroutineView>)
    requires
        main_index(subs) is Some,
    ensures
        leaders_justified(subs, main_index(subs).unwrap(), find_leaders(subs).leaders),
{
    let main = main_index(subs).unwrap();
    assert(crate::module::assembly::is_first_main(subs, main));
    let start = leader_start(subs, main);
    lemma_set_necessary_keeps(subs, main);
    assert(leaders_justified(subs, main, start.leaders));
    lemma_leader_run_justified(subs, start, main, u64::MAX as nat);
    let last = leader_run(start, main, u64::MAX as nat);
    assert(finish_leaders(last).leaders == last.leaders);
}

} // verus!
