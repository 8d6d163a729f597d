//! Branch instructions of the AArch64 architecture and the instructions of a
//! disassembled program as the control flow analysis sees them.
use vstd::prelude::*;
use crate::module::regex::RegexContainer;
use crate::pattern::{capture_group, regex_captures, Pattern};
use crate::text::{before_first, before_first_str};

verus! {

/// Represents the two main types of branch instrutions in ARM architecture.
#[derive(Debug, PartialEq, Eq, Hash, Clone, Copy, Structural)]
pub enum BranchType {
    ConditionalBranch(ConditionalBranch),
    UnconditionalBranch(UnconditionalBranch),
}

impl BranchType {
    pub open spec fn spec_value(self) -> Seq<char> {
        match self {
            BranchType::ConditionalBranch(c) => c.spec_value(),
            BranchType::UnconditionalBranch(u) => u.spec_value(),
        }
    }

    pub open spec fn spec_branch_condition(self) -> Seq<char> {
        match self {
            BranchType::ConditionalBranch(c) => c.spec_branch_condition(),
            BranchType::UnconditionalBranch(u) => u.spec_branch_condition(),
        }
    }

    pub open spec fn spec_branch_condition_complement(self) -> Seq<char> {
        match self {
            BranchType::ConditionalBranch(c) => c.spec_branch_condition_complement(),
            BranchType::UnconditionalBranch(u) => u.spec_branch_condition_complement(),
        }
    }

    /// Returns the corresponding string values for each type of branch instructions.
    pub fn value(&self) -> (r: &str)
        ensures
            r@ == self.spec_value(),
    {
        match self {
            BranchType::ConditionalBranch(conditional_branch) => conditional_branch.value(),
            BranchType::UnconditionalBranch(unconditional_branch) => unconditional_branch.value(),
        }
    }

    /// The condition on the flags (or the register) under which the branch is taken.
    pub fn branch_condition(&self) -> (r: String)
        ensures
            r@ == self.spec_branch_condition(),
    {
        match self {
            BranchType::ConditionalBranch(conditional_branch) => String::from_str(
                conditional_branch.branch_condition(),
            ),
            BranchType::UnconditionalBranch(unconditional_branch) => String::from_str(
                unconditional_branch.branch_condition(),
            ),
        }
    }

    /// The condition under which the branch is not taken.
    pub fn branch_condition_complement(&self) -> (r: String)
        ensures
            r@ == self.spec_branch_condition_complement(),
    {
        match self {
            BranchType::ConditionalBranch(conditional_branch) => String::from_str(
                conditional_branch.branch_condition_complement(),
            ),
            BranchType::UnconditionalBranch(unconditional_branch) => String::from_str(
                unconditional_branch.branch_condition_complement(),
            ),
        }
    }
}

/// Represents conditional branch instrutions in ARM architecture.
#[derive(Debug, PartialEq, Eq, Hash, Clone, Copy, Structural)]
pub enum ConditionalBranch {
    BDotEq,
    BDotNe,
    BDotCs,
    BDotCc,
    BDotMi,
    BDotPl,
    BDotVs,
    BDotVc,
    BDotHi,
    BDotLs,
    BDotGe,
    BDotLt,
    BDotGt,
    BDotLe,
    BCDotEq,
    BCDotNe,
    BCDotCs,
    BCDotCc,
    BCDotMi,
    BCDotPl,
    BCDotVs,
    BCDotVc,
    BCDotHi,
    BCDotLs,
    BCDotGe,
    BCDotLt,
    BCDotGt,
    BCDotLe,
    Cbz,
    Cbnz,
    Tbz,
    Tbnz,
}

impl ConditionalBranch {
    pub open spec fn spec_value(self) -> Seq<char> {
        match self {
            ConditionalBranch::BDotEq => "b.eq"@,
            ConditionalBranch::BDotNe => "b.ne"@,
            ConditionalBranch::BDotCs => "b.cs"@,
            ConditionalBranch::BDotCc => "b.cc"@,
            ConditionalBranch::BDotMi => "b.mi"@,
            ConditionalBranch::BDotPl => "b.pl"@,
            ConditionalBranch::BDotVs => "b.vs"@,
            ConditionalBranch::BDotVc => "b.vc"@,
            ConditionalBranch::BDotHi => "b.hi"@,
            ConditionalBranch::BDotLs => "b.ls"@,
            ConditionalBranch::BDotGe => "b.ge"@,
            ConditionalBranch::BDotLt => "b.lt"@,
            ConditionalBranch::BDotGt => "b.gt"@,
            ConditionalBranch::BDotLe => "b.le"@,
            ConditionalBranch::BCDotEq => "bc.eq"@,
            ConditionalBranch::BCDotNe => "bc.ne"@,
            ConditionalBranch::BCDotCs => "bc.cs"@,
            ConditionalBranch::BCDotCc => "bc.cc"@,
            ConditionalBranch::BCDotMi => "bc.mi"@,
            ConditionalBranch::BCDotPl => "bc.pl"@,
            ConditionalBranch::BCDotVs => "bc.vs"@,
            ConditionalBranch::BCDotVc => "bc.vc"@,
            ConditionalBranch::BCDotHi => "bc.hi"@,
            ConditionalBranch::BCDotLs => "bc.ls"@,
            ConditionalBranch::BCDotGe => "bc.ge"@,
            ConditionalBranch::BCDotLt => "bc.lt"@,
            ConditionalBranch::BCDotGt => "bc.gt"@,
            ConditionalBranch::BCDotLe => "bc.le"@,
            ConditionalBranch::Cbz => "cbz"@,
            ConditionalBranch::Cbnz => "cbnz"@,
            ConditionalBranch::Tbz => "tbz"@,
            ConditionalBranch::Tbnz => "tbnz"@,
        }
    }

    pub open spec fn spec_branch_condition(self) -> Seq<char> {
        match self {
            ConditionalBranch::BDotEq => "Z == 1"@,
            ConditionalBranch::BDotNe => "Z == 0"@,
            ConditionalBranch::BDotCs => "C == 1"@,
            ConditionalBranch::BDotCc => "C == 0"@,
            ConditionalBranch::BDotMi => "N == 1"@,
            ConditionalBranch::BDotPl => "N == 0"@,
            ConditionalBranch::BDotVs => "V == 1"@,
            ConditionalBranch::BDotVc => "V == 0"@,
            ConditionalBranch::BDotHi => "C == 1 and Z == 0"@,
            ConditionalBranch::BDotLs => "C == 0 or Z == 1"@,
            ConditionalBranch::BDotGe => "N == V"@,
            ConditionalBranch::BDotLt => "N != V"@,
            ConditionalBranch::BDotGt => "Z == 0 and N == V"@,
            ConditionalBranch::BDotLe => "Z == 1 or N != V"@,
            ConditionalBranch::BCDotEq => "Z == 1"@,
            ConditionalBranch::BCDotNe => "Z == 0"@,
            ConditionalBranch::BCDotCs => "C == 1"@,
            ConditionalBranch::BCDotCc => "C == 0"@,
            ConditionalBranch::BCDotMi => "N == 1"@,
            ConditionalBranch::BCDotPl => "N == 0"@,
            ConditionalBranch::BCDotVs => "V == 1"@,
            ConditionalBranch::BCDotVc => "V == 0"@,
            ConditionalBranch::BCDotHi => "C == 1 and Z == 0"@,
            ConditionalBranch::BCDotLs => "C == 0 or Z == 1"@,
            ConditionalBranch::BCDotGe => "N == V"@,
            ConditionalBranch::BCDotLt => "N != V"@,
            ConditionalBranch::BCDotGt => "Z == 0 and N == V"@,
            ConditionalBranch::BCDotLe => "Z == 1 or N != V"@,
            ConditionalBranch::Cbz => "register == 0"@,
            ConditionalBranch::Cbnz => "register != 0"@,
            ConditionalBranch::Tbz => "selected bit == 0"@,
            ConditionalBranch::Tbnz => "selected bit == 1"@,
        }
    }

    pub open spec fn spec_branch_condition_complement(self) -> Seq<char> {
        match self {
            ConditionalBranch::BDotEq => "Z != 1"@,
            ConditionalBranch::BDotNe => "Z != 0"@,
            ConditionalBranch::BDotCs => "C != 1"@,
            ConditionalBranch::BDotCc => "C != 0"@,
            ConditionalBranch::BDotMi => "N != 1"@,
            ConditionalBranch::BDotPl => "N != 0"@,
            ConditionalBranch::BDotVs => "V != 1"@,
            ConditionalBranch::BDotVc => "V != 0"@,
            ConditionalBranch::BDotHi => "C != 1 or Z != 0"@,
            ConditionalBranch::BDotLs => "C != 0 and Z != 1"@,
            ConditionalBranch::BDotGe => "N != V"@,
            ConditionalBranch::BDotLt => "N == V"@,
            ConditionalBranch::BDotGt => "Z != 0 or N != V"@,
            ConditionalBranch::BDotLe => "Z != 1 and N == V"@,
            ConditionalBranch::BCDotEq => "Z != 1"@,
            ConditionalBranch::BCDotNe => "Z != 0"@,
            ConditionalBranch::BCDotCs => "C != 1"@,
            ConditionalBranch::BCDotCc => "C != 0"@,
            ConditionalBranch::BCDotMi => "N != 1"@,
            ConditionalBranch::BCDotPl => "N != 0"@,
            ConditionalBranch::BCDotVs => "V != 1"@,
            ConditionalBranch::BCDotVc => "V != 0"@,
            ConditionalBranch::BCDotHi => "C != 1 or Z != 0"@,
            ConditionalBranch::BCDotLs => "C != 0 and Z != 1"@,
            ConditionalBranch::BCDotGe => "N != V"@,
            ConditionalBranch::BCDotLt => "N == V"@,
            ConditionalBranch::BCDotGt => "Z != 0 or N != V"@,
            ConditionalBranch::BCDotLe => "Z != 1 and N == V"@,
            ConditionalBranch::Cbz => "register != 0"@,
            ConditionalBranch::Cbnz => "register == 0"@,
            ConditionalBranch::Tbz => "selected bit != 0"@,
            ConditionalBranch::Tbnz => "selected bit != 1"@,
        }
    }

    /// Returns the corresponding string values for each type of conditional branch instructions.
    pub fn value(&self) -> (r: &str)
        ensures
            r@ == self.spec_value(),
    {
        match self {
            ConditionalBranch::BDotEq => "b.eq",
            ConditionalBranch::BDotNe => "b.ne",
            ConditionalBranch::BDotCs => "b.cs",
            ConditionalBranch::BDotCc => "b.cc",
            ConditionalBranch::BDotMi => "b.mi",
            ConditionalBranch::BDotPl => "b.pl",
            ConditionalBranch::BDotVs => "b.vs",
            ConditionalBranch::BDotVc => "b.vc",
            ConditionalBranch::BDotHi => "b.hi",
            ConditionalBranch::BDotLs => "b.ls",
            ConditionalBranch::BDotGe => "b.ge",
            ConditionalBranch::BDotLt => "b.lt",
            ConditionalBranch::BDotGt => "b.gt",
            ConditionalBranch::BDotLe => "b.le",
            ConditionalBranch::BCDotEq => "bc.eq",
            ConditionalBranch::BCDotNe => "bc.ne",
            ConditionalBranch::BCDotCs => "bc.cs",
            ConditionalBranch::BCDotCc => "bc.cc",
            ConditionalBranch::BCDotMi => "bc.mi",
            ConditionalBranch::BCDotPl => "bc.pl",
            ConditionalBranch::BCDotVs => "bc.vs",
            ConditionalBranch::BCDotVc => "bc.vc",
            ConditionalBranch::BCDotHi => "bc.hi",
            ConditionalBranch::BCDotLs => "bc.ls",
            ConditionalBranch::BCDotGe => "bc.ge",
            ConditionalBranch::BCDotLt => "bc.lt",
            ConditionalBranch::BCDotGt => "bc.gt",
            ConditionalBranch::BCDotLe => "bc.le",
            ConditionalBranch::Cbz => "cbz",
            ConditionalBranch::Cbnz => "cbnz",
            ConditionalBranch::Tbz => "tbz",
            ConditionalBranch::Tbnz => "tbnz",
        }
    }

    /// The condition on the flags (or the register) under which the branch is taken.
    pub fn branch_condition(&self) -> (r: &str)
        ensures
            r@ == self.spec_branch_condition(),
    {
        match self {
            ConditionalBranch::BDotEq => "Z == 1",
            ConditionalBranch::BDotNe => "Z == 0",
            ConditionalBranch::BDotCs => "C == 1",
            ConditionalBranch::BDotCc => "C == 0",
            ConditionalBranch::BDotMi => "N == 1",
            ConditionalBranch::BDotPl => "N == 0",
            ConditionalBranch::BDotVs => "V == 1",
            ConditionalBranch::BDotVc => "V == 0",
            ConditionalBranch::BDotHi => "C == 1 and Z == 0",
            ConditionalBranch::BDotLs => "C == 0 or Z == 1",
            ConditionalBranch::BDotGe => "N == V",
            ConditionalBranch::BDotLt => "N != V",
            ConditionalBranch::BDotGt => "Z == 0 and N == V",
            ConditionalBranch::BDotLe => "Z == 1 or N != V",
            ConditionalBranch::BCDotEq => "Z == 1",
            ConditionalBranch::BCDotNe => "Z == 0",
            ConditionalBranch::BCDotCs => "C == 1",
            ConditionalBranch::BCDotCc => "C == 0",
            ConditionalBranch::BCDotMi => "N == 1",
            ConditionalBranch::BCDotPl => "N == 0",
            ConditionalBranch::BCDotVs => "V == 1",
            ConditionalBranch::BCDotVc => "V == 0",
            ConditionalBranch::BCDotHi => "C == 1 and Z == 0",
            ConditionalBranch::BCDotLs => "C == 0 or Z == 1",
            ConditionalBranch::BCDotGe => "N == V",
            ConditionalBranch::BCDotLt => "N != V",
            ConditionalBranch::BCDotGt => "Z == 0 and N == V",
            ConditionalBranch::BCDotLe => "Z == 1 or N != V",
            ConditionalBranch::Cbz => "register == 0",
            ConditionalBranch::Cbnz => "register != 0",
            ConditionalBranch::Tbz => "selected bit == 0",
            ConditionalBranch::Tbnz => "selected bit == 1",
        }
    }

    /// The condition under which the branch is not taken.
    pub fn branch_condition_complement(&self) -> (r: &str)
        ensures
            r@ == self.spec_branch_condition_complement(),
    {
        match self {
            ConditionalBranch::BDotEq => "Z != 1",
            ConditionalBranch::BDotNe => "Z != 0",
            ConditionalBranch::BDotCs => "C != 1",
            ConditionalBranch::BDotCc => "C != 0",
            ConditionalBranch::BDotMi => "N != 1",
            ConditionalBranch::BDotPl => "N != 0",
            ConditionalBranch::BDotVs => "V != 1",
            ConditionalBranch::BDotVc => "V != 0",
            ConditionalBranch::BDotHi => "C != 1 or Z != 0",
            ConditionalBranch::BDotLs => "C != 0 and Z != 1",
            ConditionalBranch::BDotGe => "N != V",
            ConditionalBranch::BDotLt => "N == V",
            ConditionalBranch::BDotGt => "Z != 0 or N != V",
            ConditionalBranch::BDotLe => "Z != 1 and N == V",
            ConditionalBranch::BCDotEq => "Z != 1",
            ConditionalBranch::BCDotNe => "Z != 0",
            ConditionalBranch::BCDotCs => "C != 1",
            ConditionalBranch::BCDotCc => "C != 0",
            ConditionalBranch::BCDotMi => "N != 1",
            ConditionalBranch::BCDotPl => "N != 0",
            ConditionalBranch::BCDotVs => "V != 1",
            ConditionalBranch::BCDotVc => "V != 0",
            ConditionalBranch::BCDotHi => "C != 1 or Z != 0",
            ConditionalBranch::BCDotLs => "C != 0 and Z != 1",
            ConditionalBranch::BCDotGe => "N != V",
            ConditionalBranch::BCDotLt => "N == V",
            ConditionalBranch::BCDotGt => "Z != 0 or N != V",
            ConditionalBranch::BCDotLe => "Z != 1 and N == V",
            ConditionalBranch::Cbz => "register != 0",
            ConditionalBranch::Cbnz => "register == 0",
            ConditionalBranch::Tbz => "selected bit != 0",
            ConditionalBranch::Tbnz => "selected bit != 1",
        }
    }
}

/// Represents unconditional branch instrutions in ARM architecture.
#[derive(Debug, PartialEq, Eq, Hash, Clone, Copy, Structural)]
pub enum UnconditionalBranch {
    B,
    Bl,
    Ret,
    Br,
    Blr,
    Blraa,
    Blraaz,
    Blrab,
    Blrabz,
    BDotAl,
    BCDotAl,
    BDotNv,
    BCDotNv,
}

impl UnconditionalBranch {
    pub open spec fn spec_value(self) -> Seq<char> {
        match self {
            UnconditionalBranch::B => "b"@,
            UnconditionalBranch::Bl => "bl"@,
            UnconditionalBranch::Ret => "ret"@,
            UnconditionalBranch::Br => "br"@,
            UnconditionalBranch::Blr => "blr"@,
            UnconditionalBranch::Blraa => "blraa"@,
            UnconditionalBranch::Blraaz => "blraaz"@,
            UnconditionalBranch::Blrab => "blrab"@,
            UnconditionalBranch::Blrabz => "blrabz"@,
            UnconditionalBranch::BDotAl => "b.al"@,
            UnconditionalBranch::BCDotAl => "bc.al"@,
            UnconditionalBranch::BDotNv => "b.nv"@,
            UnconditionalBranch::BCDotNv => "bc.nv"@,
        }
    }

    pub open spec fn spec_branch_condition(self) -> Seq<char> {
        "true"@
    }

    pub open spec fn spec_branch_condition_complement(self) -> Seq<char> {
        "false"@
    }

    /// Returns the corresponding string values for each type of unconditional branch instructions.
    pub fn value(&self) -> (r: &str)
        ensures
            r@ == self.spec_value(),
    {
        match self {
            UnconditionalBranch::B => "b",
            UnconditionalBranch::Bl => "bl",
            UnconditionalBranch::Ret => "ret",
            UnconditionalBranch::Br => "br",
            UnconditionalBranch::Blr => "blr",
            UnconditionalBranch::Blraa => "blraa",
            UnconditionalBranch::Blraaz => "blraaz",
            UnconditionalBranch::Blrab => "blrab",
            UnconditionalBranch::Blrabz => "blrabz",
            UnconditionalBranch::BDotAl => "b.al",
            UnconditionalBranch::BCDotAl => "bc.al",
            UnconditionalBranch::BDotNv => "b.nv",
            UnconditionalBranch::BCDotNv => "bc.nv",
        }
    }

    pub fn branch_condition(&self) -> (r: &str)
        ensures
            r@ == self.spec_branch_condition(),
    {
        "true"
    }

    pub fn branch_condition_complement(&self) -> (r: &str)
        ensures
            r@ == self.spec_branch_condition_complement(),
    {
        "false"
    }
}

/// Every branch type, in the order in which a mnemonic is tried against them.
pub open spec fn branch_types() -> Seq<BranchType> {
    seq![
        BranchType::ConditionalBranch(ConditionalBranch::BDotEq),
        BranchType::ConditionalBranch(ConditionalBranch::BDotNe),
        BranchType::ConditionalBranch(ConditionalBranch::BDotCs),
        BranchType::ConditionalBranch(ConditionalBranch::BDotCc),
        BranchType::ConditionalBranch(ConditionalBranch::BDotMi),
        BranchType::ConditionalBranch(ConditionalBranch::BDotPl),
        BranchType::ConditionalBranch(ConditionalBranch::BDotVs),
        BranchType::ConditionalBranch(ConditionalBranch::BDotVc),
        BranchType::ConditionalBranch(ConditionalBranch::BDotHi),
        BranchType::ConditionalBranch(ConditionalBranch::BDotLs),
        BranchType::ConditionalBranch(ConditionalBranch::BDotGe),
        BranchType::ConditionalBranch(ConditionalBranch::BDotLt),
        BranchType::ConditionalBranch(ConditionalBranch::BDotGt),
        BranchType::ConditionalBranch(ConditionalBranch::BDotLe),
        BranchType::ConditionalBranch(ConditionalBranch::BCDotEq),
        BranchType::ConditionalBranch(ConditionalBranch::BCDotNe),
        BranchType::ConditionalBranch(ConditionalBranch::BCDotCs),
        BranchType::ConditionalBranch(ConditionalBranch::BCDotCc),
        BranchType::ConditionalBranch(ConditionalBranch::BCDotMi),
        BranchType::ConditionalBranch(ConditionalBranch::BCDotPl),
        BranchType::ConditionalBranch(ConditionalBranch::BCDotVs),
        BranchType::ConditionalBranch(ConditionalBranch::BCDotVc),
        BranchType::ConditionalBranch(ConditionalBranch::BCDotHi),
        BranchType::ConditionalBranch(ConditionalBranch::BCDotLs),
        BranchType::ConditionalBranch(ConditionalBranch::BCDotGe),
        BranchType::ConditionalBranch(ConditionalBranch::BCDotLt),
        BranchType::ConditionalBranch(ConditionalBranch::BCDotGt),
        BranchType::ConditionalBranch(ConditionalBranch::BCDotLe),
        BranchType::ConditionalBranch(ConditionalBranch::Cbz),
        BranchType::ConditionalBranch(ConditionalBranch::Cbnz),
        BranchType::ConditionalBranch(ConditionalBranch::Tbz),
        BranchType::ConditionalBranch(ConditionalBranch::Tbnz),
        BranchType::UnconditionalBranch(UnconditionalBranch::B),
        BranchType::UnconditionalBranch(UnconditionalBranch::Bl),
        BranchType::UnconditionalBranch(UnconditionalBranch::Ret),
        BranchType::UnconditionalBranch(UnconditionalBranch::Br),
        BranchType::UnconditionalBranch(UnconditionalBranch::Blr),
        BranchType::UnconditionalBranch(UnconditionalBranch::Blraa),
        BranchType::UnconditionalBranch(UnconditionalBranch::Blraaz),
        BranchType::UnconditionalBranch(UnconditionalBranch::Blrab),
        BranchType::UnconditionalBranch(UnconditionalBranch::Blrabz),
        BranchType::UnconditionalBranch(UnconditionalBranch::BDotAl),
        BranchType::UnconditionalBranch(UnconditionalBranch::BCDotAl),
        BranchType::UnconditionalBranch(UnconditionalBranch::BDotNv),
        BranchType::UnconditionalBranch(UnconditionalBranch::BCDotNv),
    ]
}

fn all_branch_types() -> (r: Vec<BranchType>)
    ensures
        r@ == branch_types(),
{
    let mut r: Vec<BranchType> = Vec::new();
    r.push(BranchType::ConditionalBranch(ConditionalBranch::BDotEq));
    r.push(BranchType::ConditionalBranch(ConditionalBranch::BDotNe));
    r.push(BranchType::ConditionalBranch(ConditionalBranch::BDotCs));
    r.push(BranchType::ConditionalBranch(ConditionalBranch::BDotCc));
    r.push(BranchType::ConditionalBranch(ConditionalBranch::BDotMi));
    r.push(BranchType::ConditionalBranch(ConditionalBranch::BDotPl));
    r.push(BranchType::ConditionalBranch(ConditionalBranch::BDotVs));
    r.push(BranchType::ConditionalBranch(ConditionalBranch::BDotVc));
    r.push(BranchType::ConditionalBranch(ConditionalBranch::BDotHi));
    r.push(BranchType::ConditionalBranch(ConditionalBranch::BDotLs));
    r.push(BranchType::ConditionalBranch(ConditionalBranch::BDotGe));
    r.push(BranchType::ConditionalBranch(ConditionalBranch::BDotLt));
    r.push(BranchType::ConditionalBranch(ConditionalBranch::BDotGt));
    r.push(BranchType::ConditionalBranch(ConditionalBranch::BDotLe));
    r.push(BranchType::ConditionalBranch(ConditionalBranch::BCDotEq));
    r.push(BranchType::ConditionalBranch(ConditionalBranch::BCDotNe));
    r.push(BranchType::ConditionalBranch(ConditionalBranch::BCDotCs));
    r.push(BranchType::ConditionalBranch(ConditionalBranch::BCDotCc));
    r.push(BranchType::ConditionalBranch(ConditionalBranch::BCDotMi));
    r.push(BranchType::ConditionalBranch(ConditionalBranch::BCDotPl));
    r.push(BranchType::ConditionalBranch(ConditionalBranch::BCDotVs));
    r.push(BranchType::ConditionalBranch(ConditionalBranch::BCDotVc));
    r.push(BranchType::ConditionalBranch(ConditionalBranch::BCDotHi));
    r.push(BranchType::ConditionalBranch(ConditionalBranch::BCDotLs));
    r.push(BranchType::ConditionalBranch(ConditionalBranch::BCDotGe));
    r.push(BranchType::ConditionalBranch(ConditionalBranch::BCDotLt));
    r.push(BranchType::ConditionalBranch(ConditionalBranch::BCDotGt));
    r.push(BranchType::ConditionalBranch(ConditionalBranch::BCDotLe));
    r.push(BranchType::ConditionalBranch(ConditionalBranch::Cbz));
    r.push(BranchType::ConditionalBranch(ConditionalBranch::Cbnz));
    r.push(BranchType::ConditionalBranch(ConditionalBranch::Tbz));
    r.push(BranchType::ConditionalBranch(ConditionalBranch::Tbnz));
    r.push(BranchType::UnconditionalBranch(UnconditionalBranch::B));
    r.push(BranchType::UnconditionalBranch(UnconditionalBranch::Bl));
    r.push(BranchType::UnconditionalBranch(UnconditionalBranch::Ret));
    r.push(BranchType::UnconditionalBranch(UnconditionalBranch::Br));
    r.push(BranchType::UnconditionalBranch(UnconditionalBranch::Blr));
    r.push(BranchType::UnconditionalBranch(UnconditionalBranch::Blraa));
    r.push(BranchType::UnconditionalBranch(UnconditionalBranch::Blraaz));
    r.push(BranchType::UnconditionalBranch(UnconditionalBranch::Blrab));
    r.push(BranchType::UnconditionalBranch(UnconditionalBranch::Blrabz));
    r.push(BranchType::UnconditionalBranch(UnconditionalBranch::BDotAl));
    r.push(BranchType::UnconditionalBranch(UnconditionalBranch::BCDotAl));
    r.push(BranchType::UnconditionalBranch(UnconditionalBranch::BDotNv));
    r.push(BranchType::UnconditionalBranch(UnconditionalBranch::BCDotNv));
    assert(r@ =~= branch_types());
    r
}

/// The first branch type at or after position `k` of `branch_types()` whose
/// mnemonic is `name`.
pub open spec fn branch_type_from(name: Seq<char>, k: int) -> Option<BranchType>
    decreases branch_types().len() - k,
{
    if k < 0 || k >= branch_types().len() {
        None
    } else if branch_types()[k].spec_value() == name {
        Some(branch_types()[k])
    } else {
        branch_type_from(name, k + 1)
    }
}

/// The branch type whose mnemonic is `name`, if there is one.
pub open spec fn branch_type_named(name: Seq<char>) -> Option<BranchType> {
    branch_type_from(name, 0)
}

/// The branch type whose mnemonic is `name`, if there is one.
pub(crate) fn branch_type_of(name: &str) -> (r: Option<BranchType>)
    ensures
        r == branch_type_named(name@),
{
    let all = all_branch_types();
    let mut k: usize = 0;
    while k < all.len()
        invariant
            all@ == branch_types(),
            k <= all@.len(),
            branch_type_named(name@) == branch_type_from(name@, k as int),
        decreases all@.len() - k,
    {
        if crate::text::str_eq(name, all[k].value()) {
            return Some(all[k]);
        }
        k = k + 1;
    }
    None
}

/// No two branch types share a mnemonic.
#[verifier::spinoff_prover]
#[verifier::rlimit(100)]
pub proof fn lemma_branch_values_distinct(a: BranchType, b: BranchType)
    requires
        a.spec_value() == b.spec_value(),
    ensures
        a == b,
{
        reveal_strlit("b.eq");
        reveal_strlit("b.ne");
        reveal_strlit("b.cs");
        reveal_strlit("b.cc");
        reveal_strlit("b.mi");
        reveal_strlit("b.pl");
        reveal_strlit("b.vs");
        reveal_strlit("b.vc");
        reveal_strlit("b.hi");
        reveal_strlit("b.ls");
        reveal_strlit("b.ge");
        reveal_strlit("b.lt");
        reveal_strlit("b.gt");
        reveal_strlit("b.le");
        reveal_strlit("bc.eq");
        reveal_strlit("bc.ne");
        reveal_strlit("bc.cs");
        reveal_strlit("bc.cc");
        reveal_strlit("bc.mi");
        reveal_strlit("bc.pl");
        reveal_strlit("bc.vs");
        reveal_strlit("bc.vc");
        reveal_strlit("bc.hi");
        reveal_strlit("bc.ls");
        reveal_strlit("bc.ge");
        reveal_strlit("bc.lt");
        reveal_strlit("bc.gt");
        reveal_strlit("bc.le");
        reveal_strlit("cbz");
        reveal_strlit("cbnz");
        reveal_strlit("tbz");
        reveal_strlit("tbnz");
        reveal_strlit("b");
        reveal_strlit("bl");
        reveal_strlit("ret");
        reveal_strlit("br");
        reveal_strlit("blr");
        reveal_strlit("blraa");
        reveal_strlit("blraaz");
        reveal_strlit("blrab");
        reveal_strlit("blrabz");
        reveal_strlit("b.al");
        reveal_strlit("bc.al");
        reveal_strlit("b.nv");
        reveal_strlit("bc.nv");
    let sa = a.spec_value();
    let sb = b.spec_value();
    assert(sa.len() == sb.len());
    if sa.len() > 0 { assert(sa[0] == sb[0]); }
    if sa.len() > 1 { assert(sa[1] == sb[1]); }
    if sa.len() > 2 { assert(sa[2] == sb[2]); }
    if sa.len() > 3 { assert(sa[3] == sb[3]); }
    if sa.len() > 4 { assert(sa[4] == sb[4]); }
    if sa.len() > 5 { assert(sa[5] == sb[5]); }
}

/// The mnemonic of a branch type names that branch type.
pub proof fn lemma_branch_type_named_value(b: BranchType)
    ensures
        branch_type_named(b.spec_value()) == Some(b),
{
    assert forall|k: int| 0 <= k < branch_types().len() && #[trigger] branch_types()[k] != b implies
        branch_types()[k].spec_value() != b.spec_value() by {
        if branch_types()[k].spec_value() == b.spec_value() {
            lemma_branch_values_distinct(branch_types()[k], b);
        }
    }
    lemma_branch_type_from_finds(b.spec_value(), 0, b);
}

proof fn lemma_branch_type_from_finds(name: Seq<char>, k: int, b: BranchType)
    requires
        0 <= k <= branch_types().len(),
        name == b.spec_value(),
        forall|j: int| 0 <= j < branch_types().len() && #[trigger] branch_types()[j] != b ==>
            branch_types()[j].spec_value() != b.spec_value(),
        exists|j: int| k <= j < branch_types().len() && #[trigger] branch_types()[j] == b,
    ensures
        branch_type_from(name, k) == Some(b),
    decreases branch_types().len() - k,
{
    if branch_types()[k] != b {
        assert(exists|j: int| k + 1 <= j < branch_types().len() && #[trigger] branch_types()[j] == b);
        lemma_branch_type_from_finds(name, k + 1, b);
    }
}

/// The abstract value of a [`TargetAddress`].
pub enum TargetView {
    Direct(Seq<char>),
    Indirect(Seq<char>),
}

/// The abstract value of a [`CtiData`].
pub struct CtiView {
    pub target_address: TargetView,
    pub branch_type: BranchType,
    pub reachable: bool,
}

/// The abstract value of an [`InstructionType`].
pub enum InstructionTypeView {
    Cti(CtiView),
    Ncti,
}

/// The abstract value of an [`AssemblyInstruction`].
pub struct InstructionView {
    pub raw_content: Seq<char>,
    pub line_number: u32,
    pub address: Seq<char>,
    pub instruction_type: InstructionTypeView,
}

#[derive(PartialEq, Eq, Hash, Debug)]
pub enum InstructionType {
    Cti(CtiData),
    Ncti,
}

#[derive(PartialEq, Eq, Hash, Debug)]
pub struct CtiData {
    pub target_address: TargetAddress,
    pub branch_type: BranchType,
    pub reachable: bool,
}

/// Represents a control transfaer instruction (aka, jump instruction) in an assembly file.
///
/// It contains some useful information about each CTI.
#[derive(PartialEq, Eq, Hash, Debug)]
pub struct AssemblyInstruction {
    pub raw_content: String,
    pub line_number: u32,
    pub address: String,
    pub instruction_type: InstructionType,
}

#[derive(PartialEq, Eq, Hash, Debug)]
pub enum TargetAddress {
    Direct(String),
    Indirect(String),
}

impl View for TargetAddress {
    type V = TargetView;

    open spec fn view(&self) -> TargetView {
        match self {
            TargetAddress::Direct(s) => TargetView::Direct(s@),
            TargetAddress::Indirect(s) => TargetView::Indirect(s@),
        }
    }
}

impl View for CtiData {
    type V = CtiView;

    open spec fn view(&self) -> CtiView {
        CtiView {
            target_address: self.target_address@,
            branch_type: self.branch_type,
            reachable: self.reachable,
        }
    }
}

impl View for InstructionType {
    type V = InstructionTypeView;

    open spec fn view(&self) -> InstructionTypeView {
        match self {
            InstructionType::Cti(c) => InstructionTypeView::Cti(c@),
            InstructionType::Ncti => InstructionTypeView::Ncti,
        }
    }
}

impl View for AssemblyInstruction {
    type V = InstructionView;

    open spec fn view(&self) -> InstructionView {
        InstructionView {
            raw_content: self.raw_content@,
            line_number: self.line_number,
            address: self.address@,
            instruction_type: self.instruction_type@,
        }
    }
}

impl DeepView for AssemblyInstruction {
    type V = InstructionView;

    open spec fn deep_view(&self) -> InstructionView {
        self@
    }
}

impl Clone for TargetAddress {
    fn clone(&self) -> (r: Self)
        ensures
            r == *self,
    {
        match self {
            TargetAddress::Direct(s) => TargetAddress::Direct(s.clone()),
            TargetAddress::Indirect(s) => TargetAddress::Indirect(s.clone()),
        }
    }
}

impl Clone for CtiData {
    fn clone(&self) -> (r: Self)
        ensures
            r == *self,
    {
        CtiData {
            target_address: self.target_address.clone(),
            branch_type: self.branch_type,
            reachable: self.reachable,
        }
    }
}

impl Clone for InstructionType {
    fn clone(&self) -> (r: Self)
        ensures
            r == *self,
    {
        match self {
            InstructionType::Cti(c) => InstructionType::Cti(c.clone()),
            InstructionType::Ncti => InstructionType::Ncti,
        }
    }
}

impl Clone for AssemblyInstruction {
    fn clone(&self) -> (r: Self)
        ensures
            r == *self,
    {
        AssemblyInstruction {
            raw_content: self.raw_content.clone(),
            line_number: self.line_number,
            address: self.address.clone(),
            instruction_type: self.instruction_type.clone(),
        }
    }
}

impl TargetView {
    pub open spec fn value(self) -> Seq<char> {
        match self {
            TargetView::Direct(s) => s,
            TargetView::Indirect(s) => s,
        }
    }
}

impl TargetAddress {
    pub fn value(&self) -> (r: &str)
        ensures
            r@ == self@.value(),
    {
        match self {
            TargetAddress::Direct(string) => string.as_str(),
            TargetAddress::Indirect(string) => string.as_str(),
        }
    }
}

/// A branch to `target` of type `branch_type`: indirect for `ret`, `br` and
/// `blr`, whose target is a register, direct otherwise.
pub open spec fn target_of(target: Seq<char>, branch_type: BranchType) -> TargetView {
    match branch_type {
        BranchType::UnconditionalBranch(ub) => match ub {
            UnconditionalBranch::Ret | UnconditionalBranch::Br | UnconditionalBranch::Blr => TargetView::Indirect(target),
            _ => TargetView::Direct(target),
        },
        BranchType::ConditionalBranch(_) => TargetView::Direct(target),
    }
}

/// The address of a disassembled line: what precedes its first `":\t"`.
pub open spec fn address_of_line(line: Seq<char>) -> Seq<char> {
    before_first(line, ":\t"@)
}

/// The branch type that `branches` finds in `line`, if any.
pub open spec fn line_branch_type(line: Seq<char>, branches: Seq<char>) -> Option<BranchType> {
    match capture_group(branches, line, 1) {
        Some(m) => branch_type_named(m),
        None => None,
    }
}

/// Whether an instruction can be built from `line`: where the branch expression
/// matches, its group 1 took part, and where a branch was found, the target
/// expression finds a target address in group 1.
pub open spec fn instruction_defined(line: Seq<char>, branches: Seq<char>, target: Seq<char>) -> bool {
    &&& regex_captures(branches, line) is Some ==> capture_group(branches, line, 1) is Some
    &&& line_branch_type(line, branches) is Some ==> capture_group(target, line, 1) is Some
}

/// The instruction that `line` (numbered `line_number`) describes.
pub open spec fn instruction_of(
    line: Seq<char>,
    line_number: u32,
    branches: Seq<char>,
    target: Seq<char>,
) -> InstructionView {
    InstructionView {
        raw_content: line,
        line_number,
        address: address_of_line(line),
        instruction_type: match line_branch_type(line, branches) {
            Some(bt) => InstructionTypeView::Cti(
                CtiView {
                    target_address: target_of(capture_group(target, line, 1).unwrap(), bt),
                    branch_type: bt,
                    reachable: true,
                },
            ),
            None => InstructionTypeView::Ncti,
        },
    }
}

impl AssemblyInstruction {
    /// Builds the instruction of an assembly line.
    pub fn new(assembly_line: &str, line_number: u32, regex_container: &RegexContainer) -> (r: Self)
        requires
            instruction_defined(
                assembly_line@,
                regex_container.branches@,
                regex_container.target_address@,
            ),
        ensures
            r@ == instruction_of(
                assembly_line@,
                line_number,
                regex_container.branches@,
                regex_container.target_address@,
            ),
    {
        let branch_type = match regex_container.branches.captures(assembly_line) {
            Some(found) => match &found.groups[1] {
                Some(name) => branch_type_of(name.as_str()),
                None => None,
            },
            None => None,
        };
        match branch_type {
            Some(branch_type) => {
                let target_address = extract_target_address(
                    assembly_line,
                    &regex_container.target_address,
                    &branch_type,
                );
                Self {
                    raw_content: String::from_str(assembly_line),
                    line_number,
                    address: extract_address(assembly_line),
                    instruction_type: InstructionType::Cti(
                        CtiData { target_address, branch_type, reachable: true },
                    ),
                }
            },
            None => Self {
                raw_content: String::from_str(assembly_line),
                line_number,
                address: extract_address(assembly_line),
                instruction_type: InstructionType::Ncti,
            },
        }
    }

    /// Builds the instruction of an assembly line, or `None` where the
    /// expressions do not yield what `new` needs.
    pub fn try_new(assembly_line: &str, line_number: u32, regex_container: &RegexContainer) -> (r:
        Option<Self>)
        ensures
            r is Some <==> instruction_defined(
                assembly_line@,
                regex_container.branches@,
                regex_container.target_address@,
            ),
            r matches Some(i) ==> i@ == instruction_of(
                assembly_line@,
                line_number,
                regex_container.branches@,
                regex_container.target_address@,
            ),
    {
        let branch_type = match regex_container.branches.captures(assembly_line) {
            Some(found) => {
                if found.groups.len() < 2 {
                    return None;
                }
                match &found.groups[1] {
                    Some(name) => branch_type_of(name.as_str()),
                    None => {
                        return None;
                    },
                }
            },
            None => None,
        };
        if branch_type.is_some() && regex_container.target_address.group(assembly_line, 1).is_none() {
            return None;
        }
        Some(Self::new(assembly_line, line_number, regex_container))
    }

    /// The mnemonic, the target address and the address of a control transfer instruction.
    pub fn cti_condtions(&self) -> (r: (&str, &str, &str))
        requires
            self.instruction_type is Cti,
        ensures
            self@.instruction_type matches InstructionTypeView::Cti(c) && r.0@
                == c.branch_type.spec_value() && r.1@ == c.target_address.value(),
            r.2@ == self@.address,
    {
        match &self.instruction_type {
            InstructionType::Cti(cti_data) => (
                cti_data.branch_type.value(),
                cti_data.target_address.value(),
                self.address.as_str(),
            ),
            InstructionType::Ncti => (self.address.as_str(), self.address.as_str(), self.address.as_str()),
        }
    }

    pub fn raw_content(&self) -> (r: &str)
        ensures
            r@ == self@.raw_content,
    {
        self.raw_content.as_str()
    }

    pub fn address(&self) -> (r: String)
        ensures
            r@ == self@.address,
    {
        self.address.clone()
    }

    pub fn get_target_address(&self) -> (r: Option<TargetAddress>)
        ensures
            match self@.instruction_type {
                InstructionTypeView::Cti(c) => r matches Some(t) && t@ == c.target_address,
                InstructionTypeView::Ncti => r is None,
            },
    {
        match &self.instruction_type {
            InstructionType::Cti(cti_data) => Some(cti_data.target_address.clone()),
            InstructionType::Ncti => None,
        }
    }

    /// Replaces the target of a control transfer instruction by a direct one.
    pub fn set_direct_target_address(&mut self, target_address: String)
        requires
            old(self).instruction_type is Cti,
        ensures
            old(self)@.instruction_type matches InstructionTypeView::Cti(c) && final(self)@
                == (InstructionView {
                instruction_type: InstructionTypeView::Cti(
                    CtiView { target_address: TargetView::Direct(target_address@), ..c },
                ),
                ..old(self)@
            }),
    {
        let instruction_type = match &self.instruction_type {
            InstructionType::Cti(cti_data) => InstructionType::Cti(
                CtiData {
                    target_address: TargetAddress::Direct(target_address),
                    branch_type: cti_data.branch_type,
                    reachable: cti_data.reachable,
                },
            ),
            InstructionType::Ncti => InstructionType::Ncti,
        };
        self.instruction_type = instruction_type;
    }

    /// Marks a control transfer instruction as one that execution never reaches.
    pub fn flag_as_unreachable(&mut self)
        requires
            old(self).instruction_type is Cti,
        ensures
            old(self)@.instruction_type matches InstructionTypeView::Cti(c) && final(self)@
                == (InstructionView {
                instruction_type: InstructionTypeView::Cti(CtiView { reachable: false, ..c }),
                ..old(self)@
            }),
    {
        let instruction_type = match &self.instruction_type {
            InstructionType::Cti(cti_data) => InstructionType::Cti(
                CtiData {
                    target_address: cti_data.target_address.clone(),
                    branch_type: cti_data.branch_type,
                    reachable: false,
                },
            ),
            InstructionType::Ncti => InstructionType::Ncti,
        };
        self.instruction_type = instruction_type;
    }
}

/// The address of a disassembled line: what precedes its first `":\t"`.
pub fn extract_address(line: &str) -> (r: String)
    ensures
        r@ == address_of_line(line@),
{
    before_first_str(line, ":\t")
}

fn target_address_of(target: String, branch_type: &BranchType) -> (r: TargetAddress)
    ensures
        r@ == target_of(target@, *branch_type),
{
    match branch_type {
        BranchType::ConditionalBranch(_) => TargetAddress::Direct(target),
        BranchType::UnconditionalBranch(ub) => match ub {
            UnconditionalBranch::Ret | UnconditionalBranch::Br | UnconditionalBranch::Blr => {
                TargetAddress::Indirect(target)
            },
            _ => TargetAddress::Direct(target),
        },
    }
}

/// The target address of a branch line of type `branch_type`: group 1 of the
/// target expression.
pub fn extract_target_address(
    line: &str,
    target_address_regex: &Pattern,
    branch_type: &BranchType,
) -> (r: TargetAddress)
    requires
        capture_group(target_address_regex@, line@, 1) is Some,
    ensures
        r@ == target_of(capture_group(target_address_regex@, line@, 1).unwrap(), *branch_type),
{
    let target = target_address_regex.group(line, 1);
    target_address_of(target.unwrap(), branch_type)
}

} // verus!

verus! {

impl ConditionalBranch {
    /// The name of the variant, as `{:?}` writes it.
    pub open spec fn spec_debug_name(self) -> Seq<char> {
        match self {
            ConditionalBranch::BDotEq => "BDotEq"@,
            ConditionalBranch::BDotNe => "BDotNe"@,
            ConditionalBranch::BDotCs => "BDotCs"@,
            ConditionalBranch::BDotCc => "BDotCc"@,
            ConditionalBranch::BDotMi => "BDotMi"@,
            ConditionalBranch::BDotPl => "BDotPl"@,
            ConditionalBranch::BDotVs => "BDotVs"@,
            ConditionalBranch::BDotVc => "BDotVc"@,
            ConditionalBranch::BDotHi => "BDotHi"@,
            ConditionalBranch::BDotLs => "BDotLs"@,
            ConditionalBranch::BDotGe => "BDotGe"@,
            ConditionalBranch::BDotLt => "BDotLt"@,
            ConditionalBranch::BDotGt => "BDotGt"@,
            ConditionalBranch::BDotLe => "BDotLe"@,
            ConditionalBranch::BCDotEq => "BCDotEq"@,
            ConditionalBranch::BCDotNe => "BCDotNe"@,
            ConditionalBranch::BCDotCs => "BCDotCs"@,
            ConditionalBranch::BCDotCc => "BCDotCc"@,
            ConditionalBranch::BCDotMi => "BCDotMi"@,
            ConditionalBranch::BCDotPl => "BCDotPl"@,
            ConditionalBranch::BCDotVs => "BCDotVs"@,
            ConditionalBranch::BCDotVc => "BCDotVc"@,
            ConditionalBranch::BCDotHi => "BCDotHi"@,
            ConditionalBranch::BCDotLs => "BCDotLs"@,
            ConditionalBranch::BCDotGe => "BCDotGe"@,
            ConditionalBranch::BCDotLt => "BCDotLt"@,
            ConditionalBranch::BCDotGt => "BCDotGt"@,
            ConditionalBranch::BCDotLe => "BCDotLe"@,
            ConditionalBranch::Cbz => "Cbz"@,
            ConditionalBranch::Cbnz => "Cbnz"@,
            ConditionalBranch::Tbz => "Tbz"@,
            ConditionalBranch::Tbnz => "Tbnz"@,
        }
    }

    fn debug_name(&self) -> (r: &str)
        ensures
            r@ == self.spec_debug_name(),
    {
        match self {
            ConditionalBranch::BDotEq => "BDotEq",
            ConditionalBranch::BDotNe => "BDotNe",
            ConditionalBranch::BDotCs => "BDotCs",
            ConditionalBranch::BDotCc => "BDotCc",
            ConditionalBranch::BDotMi => "BDotMi",
            ConditionalBranch::BDotPl => "BDotPl",
            ConditionalBranch::BDotVs => "BDotVs",
            ConditionalBranch::BDotVc => "BDotVc",
            ConditionalBranch::BDotHi => "BDotHi",
            ConditionalBranch::BDotLs => "BDotLs",
            ConditionalBranch::BDotGe => "BDotGe",
            ConditionalBranch::BDotLt => "BDotLt",
            ConditionalBranch::BDotGt => "BDotGt",
            ConditionalBranch::BDotLe => "BDotLe",
            ConditionalBranch::BCDotEq => "BCDotEq",
            ConditionalBranch::BCDotNe => "BCDotNe",
            ConditionalBranch::BCDotCs => "BCDotCs",
            ConditionalBranch::BCDotCc => "BCDotCc",
            ConditionalBranch::BCDotMi => "BCDotMi",
            ConditionalBranch::BCDotPl => "BCDotPl",
            ConditionalBranch::BCDotVs => "BCDotVs",
            ConditionalBranch::BCDotVc => "BCDotVc",
            ConditionalBranch::BCDotHi => "BCDotHi",
            ConditionalBranch::BCDotLs => "BCDotLs",
            ConditionalBranch::BCDotGe => "BCDotGe",
            ConditionalBranch::BCDotLt => "BCDotLt",
            ConditionalBranch::BCDotGt => "BCDotGt",
            ConditionalBranch::BCDotLe => "BCDotLe",
            ConditionalBranch::Cbz => "Cbz",
            ConditionalBranch::Cbnz => "Cbnz",
            ConditionalBranch::Tbz => "Tbz",
            ConditionalBranch::Tbnz => "Tbnz",
        }
    }
}

impl UnconditionalBranch {
    /// The name of the variant, as `{:?}` writes it.
    pub open spec fn spec_debug_name(self) -> Seq<char> {
        match self {
            UnconditionalBranch::B => "B"@,
            UnconditionalBranch::Bl => "Bl"@,
            UnconditionalBranch::Ret => "Ret"@,
            UnconditionalBranch::Br => "Br"@,
            UnconditionalBranch::Blr => "Blr"@,
            UnconditionalBranch::Blraa => "Blraa"@,
            UnconditionalBranch::Blraaz => "Blraaz"@,
            UnconditionalBranch::Blrab => "Blrab"@,
            UnconditionalBranch::Blrabz => "Blrabz"@,
            UnconditionalBranch::BDotAl => "BDotAl"@,
            UnconditionalBranch::BCDotAl => "BCDotAl"@,
            UnconditionalBranch::BDotNv => "BDotNv"@,
            UnconditionalBranch::BCDotNv => "BCDotNv"@,
        }
    }

    fn debug_name(&self) -> (r: &str)
        ensures
            r@ == self.spec_debug_name(),
    {
        match self {
            UnconditionalBranch::B => "B",
            UnconditionalBranch::Bl => "Bl",
            UnconditionalBranch::Ret => "Ret",
            UnconditionalBranch::Br => "Br",
            UnconditionalBranch::Blr => "Blr",
            UnconditionalBranch::Blraa => "Blraa",
            UnconditionalBranch::Blraaz => "Blraaz",
            UnconditionalBranch::Blrab => "Blrab",
            UnconditionalBranch::Blrabz => "Blrabz",
            UnconditionalBranch::BDotAl => "BDotAl",
            UnconditionalBranch::BCDotAl => "BCDotAl",
            UnconditionalBranch::BDotNv => "BDotNv",
            UnconditionalBranch::BCDotNv => "BCDotNv",
        }
    }
}

impl BranchType {
    /// The branch type as `{:?}` writes it, such as `ConditionalBranch(BDotEq)`.
    pub open spec fn spec_debug_text(self) -> Seq<char> {
        match self {
            BranchType::ConditionalBranch(c) => "ConditionalBranch("@ + c.spec_debug_name() + ")"@,
            BranchType::UnconditionalBranch(u) => "UnconditionalBranch("@ + u.spec_debug_name() + ")"@,
        }
    }

    fn debug_text(&self) -> (r: String)
        ensures
            r@ == self.spec_debug_text(),
    {
        match self {
            BranchType::ConditionalBranch(c) => String::from_str("ConditionalBranch(").concat(c.debug_name()).concat(")"),
            BranchType::UnconditionalBranch(u) => String::from_str("UnconditionalBranch(").concat(u.debug_name()).concat(")"),
        }
    }
}

} // verus!

verus! {

/// A target address as `{:?}` writes it, such as `Direct("400580")`.
pub open spec fn target_debug_text(t: TargetView) -> Seq<char> {
    match t {
        TargetView::Direct(s) => "Direct("@ + crate::text::debug_str(s) + ")"@,
        TargetView::Indirect(s) => "Indirect("@ + crate::text::debug_str(s) + ")"@,
    }
}

/// The one-line description of an instruction: its line number and address,
/// and for a control transfer instruction its target address and branch type.
pub open spec fn formatted(i: InstructionView) -> Seq<char> {
    match i.instruction_type {
        InstructionTypeView::Cti(c) => "Line Number: "@ + crate::text::digits_str(i.line_number as nat, 10)
            + ", Address: "@ + i.address + ", Type: [CTI] ==> Target Address: "@ + target_debug_text(
            c.target_address,
        ) + ", Branch Type: "@ + c.branch_type.spec_debug_text(),
        InstructionTypeView::Ncti => "Line Number: "@ + crate::text::digits_str(i.line_number as nat, 10)
            + ", Address: "@ + i.address + ", Type: [NCTI]"@,
    }
}

impl TargetAddress {
    fn debug_text(&self) -> (r: String)
        ensures
            r@ == target_debug_text(self@),
    {
        match self {
            TargetAddress::Direct(s) => String::from_str("Direct(").concat(
                crate::text::debug_string(s.as_str()).as_str(),
            ).concat(")"),
            TargetAddress::Indirect(s) => String::from_str("Indirect(").concat(
                crate::text::debug_string(s.as_str()).as_str(),
            ).concat(")"),
        }
    }
}

impl AssemblyInstruction {
    /// The one-line description of the instruction (see [`formatted`]).
    pub fn formatted_string(&self) -> (r: String)
        ensures
            r@ == formatted(self@),
    {
        let line = crate::text::format_radix(self.line_number as usize, 10);
        let head = String::from_str("Line Number: ").concat(line.as_str()).concat(", Address: ").concat(
            self.address.as_str(),
        );
        match &self.instruction_type {
            InstructionType::Cti(cti_data) => head.concat(", Type: [CTI] ==> Target Address: ").concat(
                cti_data.target_address.debug_text().as_str(),
            ).concat(", Branch Type: ").concat(cti_data.branch_type.debug_text().as_str()),
            InstructionType::Ncti => head.concat(", Type: [NCTI]"),
        }
    }
}

} // verus!

verus! {

/// What a branch condition compares: a flag of the processor state, the
/// register that the branch tests, the bit that it selects, or a constant.
pub enum Operand {
    N,
    Z,
    C,
    V,
    Register,
    SelectedBit,
    Zero,
    One,
}

/// `left == right` where `equal` holds, else `left != right`.
pub struct Comparison {
    pub left: Operand,
    pub equal: bool,
    pub right: Operand,
}

/// A branch condition: always, never, one comparison, or two of them joined
/// by `and` or by `or`.
pub enum Condition {
    Always,
    Never,
    Test(Comparison),
    And(Comparison, Comparison),
    Or(Comparison, Comparison),
}

/// The values that a branch condition reads: the flags, the tested register
/// and the selected bit.
pub struct Flags {
    pub n: int,
    pub z: int,
    pub c: int,
    pub v: int,
    pub register: int,
    pub selected_bit: int,
}

/// How an operand is written.
pub open spec fn operand_text(o: Operand) -> Seq<char> {
    match o {
        Operand::N => "N"@,
        Operand::Z => "Z"@,
        Operand::C => "C"@,
        Operand::V => "V"@,
        Operand::Register => "register"@,
        Operand::SelectedBit => "selected bit"@,
        Operand::Zero => "0"@,
        Operand::One => "1"@,
    }
}

/// How a comparison is written, such as `Z == 1`.
pub open spec fn comparison_text(a: Comparison) -> Seq<char> {
    operand_text(a.left) + (if a.equal {
        " == "@
    } else {
        " != "@
    }) + operand_text(a.right)
}

/// How a condition is written, such as `C == 1 and Z == 0`.
pub open spec fn condition_text(c: Condition) -> Seq<char> {
    match c {
        Condition::Always => "true"@,
        Condition::Never => "false"@,
        Condition::Test(a) => comparison_text(a),
        Condition::And(a, b) => comparison_text(a) + " and "@ + comparison_text(b),
        Condition::Or(a, b) => comparison_text(a) + " or "@ + comparison_text(b),
    }
}

/// The value of an operand under `f`.
pub open spec fn operand_value(o: Operand, f: Flags) -> int {
    match o {
        Operand::N => f.n,
        Operand::Z => f.z,
        Operand::C => f.c,
        Operand::V => f.v,
        Operand::Register => f.register,
        Operand::SelectedBit => f.selected_bit,
        Operand::Zero => 0,
        Operand::One => 1,
    }
}

/// Whether a comparison holds under `f`.
pub open spec fn comparison_holds(a: Comparison, f: Flags) -> bool {
    (operand_value(a.left, f) == operand_value(a.right, f)) == a.equal
}

/// Whether a condition holds under `f`.
pub open spec fn condition_holds(c: Condition, f: Flags) -> bool {
    match c {
        Condition::Always => true,
        Condition::Never => false,
        Condition::Test(a) => comparison_holds(a, f),
        Condition::And(a, b) => comparison_holds(a, f) && comparison_holds(b, f),
        Condition::Or(a, b) => comparison_holds(a, f) || comparison_holds(b, f),
    }
}

/// The comparison with `==` and `!=` swapped.
pub open spec fn negated_comparison(a: Comparison) -> Comparison {
    Comparison { equal: !a.equal, ..a }
}

/// The negation of a condition, by De Morgan's laws.
pub open spec fn negated(c: Condition) -> Condition {
    match c {
        Condition::Always => Condition::Never,
        Condition::Never => Condition::Always,
        Condition::Test(a) => Condition::Test(negated_comparison(a)),
        Condition::And(a, b) => Condition::Or(negated_comparison(a), negated_comparison(b)),
        Condition::Or(a, b) => Condition::And(negated_comparison(a), negated_comparison(b)),
    }
}

impl ConditionalBranch {
    /// The condition under which the branch is taken.
    pub open spec fn condition(self) -> Condition {
        match self {
            ConditionalBranch::BDotEq => Condition::Test(Comparison { left: Operand::Z, equal: true, right: Operand::One }),
            ConditionalBranch::BDotNe => Condition::Test(Comparison { left: Operand::Z, equal: true, right: Operand::Zero }),
            ConditionalBranch::BDotCs => Condition::Test(Comparison { left: Operand::C, equal: true, right: Operand::One }),
            ConditionalBranch::BDotCc => Condition::Test(Comparison { left: Operand::C, equal: true, right: Operand::Zero }),
            ConditionalBranch::BDotMi => Condition::Test(Comparison { left: Operand::N, equal: true, right: Operand::One }),
            ConditionalBranch::BDotPl => Condition::Test(Comparison { left: Operand::N, equal: true, right: Operand::Zero }),
            ConditionalBranch::BDotVs => Condition::Test(Comparison { left: Operand::V, equal: true, right: Operand::One }),
            ConditionalBranch::BDotVc => Condition::Test(Comparison { left: Operand::V, equal: true, right: Operand::Zero }),
            ConditionalBranch::BDotHi => Condition::And(Comparison { left: Operand::C, equal: true, right: Operand::One }, Comparison { left: Operand::Z, equal: true, right: Operand::Zero }),
            ConditionalBranch::BDotLs => Condition::Or(Comparison { left: Operand::C, equal: true, right: Operand::Zero }, Comparison { left: Operand::Z, equal: true, right: Operand::One }),
            ConditionalBranch::BDotGe => Condition::Test(Comparison { left: Operand::N, equal: true, right: Operand::V }),
            ConditionalBranch::BDotLt => Condition::Test(Comparison { left: Operand::N, equal: false, right: Operand::V }),
            ConditionalBranch::BDotGt => Condition::And(Comparison { left: Operand::Z, equal: true, right: Operand::Zero }, Comparison { left: Operand::N, equal: true, right: Operand::V }),
            ConditionalBranch::BDotLe => Condition::Or(Comparison { left: Operand::Z, equal: true, right: Operand::One }, Comparison { left: Operand::N, equal: false, right: Operand::V }),
            ConditionalBranch::BCDotEq => Condition::Test(Comparison { left: Operand::Z, equal: true, right: Operand::One }),
            ConditionalBranch::BCDotNe => Condition::Test(Comparison { left: Operand::Z, equal: true, right: Operand::Zero }),
            ConditionalBranch::BCDotCs => Condition::Test(Comparison { left: Operand::C, equal: true, right: Operand::One }),
            ConditionalBranch::BCDotCc => Condition::Test(Comparison { left: Operand::C, equal: true, right: Operand::Zero }),
            ConditionalBranch::BCDotMi => Condition::Test(Comparison { left: Operand::N, equal: true, right: Operand::One }),
            ConditionalBranch::BCDotPl => Condition::Test(Comparison { left: Operand::N, equal: true, right: Operand::Zero }),
            ConditionalBranch::BCDotVs => Condition::Test(Comparison { left: Operand::V, equal: true, right: Operand::One }),
            ConditionalBranch::BCDotVc => Condition::Test(Comparison { left: Operand::V, equal: true, right: Operand::Zero }),
            ConditionalBranch::BCDotHi => Condition::And(Comparison { left: Operand::C, equal: true, right: Operand::One }, Comparison { left: Operand::Z, equal: true, right: Operand::Zero }),
            ConditionalBranch::BCDotLs => Condition::Or(Comparison { left: Operand::C, equal: true, right: Operand::Zero }, Comparison { left: Operand::Z, equal: true, right: Operand::One }),
            ConditionalBranch::BCDotGe => Condition::Test(Comparison { left: Operand::N, equal: true, right: Operand::V }),
            ConditionalBranch::BCDotLt => Condition::Test(Comparison { left: Operand::N, equal: false, right: Operand::V }),
            ConditionalBranch::BCDotGt => Condition::And(Comparison { left: Operand::Z, equal: true, right: Operand::Zero }, Comparison { left: Operand::N, equal: true, right: Operand::V }),
            ConditionalBranch::BCDotLe => Condition::Or(Comparison { left: Operand::Z, equal: true, right: Operand::One }, Comparison { left: Operand::N, equal: false, right: Operand::V }),
            ConditionalBranch::Cbz => Condition::Test(Comparison { left: Operand::Register, equal: true, right: Operand::Zero }),
            ConditionalBranch::Cbnz => Condition::Test(Comparison { left: Operand::Register, equal: false, right: Operand::Zero }),
            ConditionalBranch::Tbz => Condition::Test(Comparison { left: Operand::SelectedBit, equal: true, right: Operand::Zero }),
            ConditionalBranch::Tbnz => Condition::Test(Comparison { left: Operand::SelectedBit, equal: true, right: Operand::One }),
        }
    }
}

impl BranchType {
    /// The condition under which the branch is taken (always, for an
    /// unconditional branch).
    pub open spec fn condition(self) -> Condition {
        match self {
            BranchType::ConditionalBranch(c) => c.condition(),
            BranchType::UnconditionalBranch(_) => Condition::Always,
        }
    }
}

proof fn lemma_condition_texts(cb: ConditionalBranch)
    ensures
        condition_text(cb.condition()) == cb.spec_branch_condition(),
        condition_text(negated(cb.condition())) == cb.spec_branch_condition_complement(),
{
    reveal_strlit(" != ");
    reveal_strlit(" == ");
    reveal_strlit(" and ");
    reveal_strlit(" or ");
    reveal_strlit("0");
    reveal_strlit("1");
    reveal_strlit("C");
    reveal_strlit("C != 0");
    reveal_strlit("C != 0 and Z != 1");
    reveal_strlit("C != 1");
    reveal_strlit("C != 1 or Z != 0");
    reveal_strlit("C == 0");
    reveal_strlit("C == 0 or Z == 1");
    reveal_strlit("C == 1");
    reveal_strlit("C == 1 and Z == 0");
    reveal_strlit("N");
    reveal_strlit("N != 0");
    reveal_strlit("N != 1");
    reveal_strlit("N != V");
    reveal_strlit("N == 0");
    reveal_strlit("N == 1");
    reveal_strlit("N == V");
    reveal_strlit("V");
    reveal_strlit("V != 0");
    reveal_strlit("V != 1");
    reveal_strlit("V == 0");
    reveal_strlit("V == 1");
    reveal_strlit("Z");
    reveal_strlit("Z != 0");
    reveal_strlit("Z != 0 or N != V");
    reveal_strlit("Z != 1");
    reveal_strlit("Z != 1 and N == V");
    reveal_strlit("Z == 0");
    reveal_strlit("Z == 0 and N == V");
    reveal_strlit("Z == 1");
    reveal_strlit("Z == 1 or N != V");
    reveal_strlit("register");
    reveal_strlit("register != 0");
    reveal_strlit("register == 0");
    reveal_strlit("selected bit");
    reveal_strlit("selected bit != 0");
    reveal_strlit("selected bit != 1");
    reveal_strlit("selected bit == 0");
    reveal_strlit("selected bit == 1");
    match cb {
        ConditionalBranch::BDotEq => {
            assert(condition_text(cb.condition()) =~= "Z == 1"@);
            assert(condition_text(negated(cb.condition())) =~= "Z != 1"@);
        },
        ConditionalBranch::BDotNe => {
            assert(condition_text(cb.condition()) =~= "Z == 0"@);
            assert(condition_text(negated(cb.condition())) =~= "Z != 0"@);
        },
        ConditionalBranch::BDotCs => {
            assert(condition_text(cb.condition()) =~= "C == 1"@);
            assert(condition_text(negated(cb.condition())) =~= "C != 1"@);
        },
        ConditionalBranch::BDotCc => {
            assert(condition_text(cb.condition()) =~= "C == 0"@);
            assert(condition_text(negated(cb.condition())) =~= "C != 0"@);
        },
        ConditionalBranch::BDotMi => {
            assert(condition_text(cb.condition()) =~= "N == 1"@);
            assert(condition_text(negated(cb.condition())) =~= "N != 1"@);
        },
        ConditionalBranch::BDotPl => {
            assert(condition_text(cb.condition()) =~= "N == 0"@);
            assert(condition_text(negated(cb.condition())) =~= "N != 0"@);
        },
        ConditionalBranch::BDotVs => {
            assert(condition_text(cb.condition()) =~= "V == 1"@);
            assert(condition_text(negated(cb.condition())) =~= "V != 1"@);
        },
        ConditionalBranch::BDotVc => {
            assert(condition_text(cb.condition()) =~= "V == 0"@);
            assert(condition_text(negated(cb.condition())) =~= "V != 0"@);
        },
        ConditionalBranch::BDotHi => {
            assert(condition_text(cb.condition()) =~= "C == 1 and Z == 0"@);
            assert(condition_text(negated(cb.condition())) =~= "C != 1 or Z != 0"@);
        },
        ConditionalBranch::BDotLs => {
            assert(condition_text(cb.condition()) =~= "C == 0 or Z == 1"@);
            assert(condition_text(negated(cb.condition())) =~= "C != 0 and Z != 1"@);
        },
        ConditionalBranch::BDotGe => {
            assert(condition_text(cb.condition()) =~= "N == V"@);
            assert(condition_text(negated(cb.condition())) =~= "N != V"@);
        },
        ConditionalBranch::BDotLt => {
            assert(condition_text(cb.condition()) =~= "N != V"@);
            assert(condition_text(negated(cb.condition())) =~= "N == V"@);
        },
        ConditionalBranch::BDotGt => {
            assert(condition_text(cb.condition()) =~= "Z == 0 and N == V"@);
            assert(condition_text(negated(cb.condition())) =~= "Z != 0 or N != V"@);
        },
        ConditionalBranch::BDotLe => {
            assert(condition_text(cb.condition()) =~= "Z == 1 or N != V"@);
            assert(condition_text(negated(cb.condition())) =~= "Z != 1 and N == V"@);
        },
        ConditionalBranch::BCDotEq => {
            assert(condition_text(cb.condition()) =~= "Z == 1"@);
            assert(condition_text(negated(cb.condition())) =~= "Z != 1"@);
        },
        ConditionalBranch::BCDotNe => {
            assert(condition_text(cb.condition()) =~= "Z == 0"@);
            assert(condition_text(negated(cb.condition())) =~= "Z != 0"@);
        },
        ConditionalBranch::BCDotCs => {
            assert(condition_text(cb.condition()) =~= "C == 1"@);
            assert(condition_text(negated(cb.condition())) =~= "C != 1"@);
        },
        ConditionalBranch::BCDotCc => {
            assert(condition_text(cb.condition()) =~= "C == 0"@);
            assert(condition_text(negated(cb.condition())) =~= "C != 0"@);
        },
        ConditionalBranch::BCDotMi => {
            assert(condition_text(cb.condition()) =~= "N == 1"@);
            assert(condition_text(negated(cb.condition())) =~= "N != 1"@);
        },
        ConditionalBranch::BCDotPl => {
            assert(condition_text(cb.condition()) =~= "N == 0"@);
            assert(condition_text(negated(cb.condition())) =~= "N != 0"@);
        },
        ConditionalBranch::BCDotVs => {
            assert(condition_text(cb.condition()) =~= "V == 1"@);
            assert(condition_text(negated(cb.condition())) =~= "V != 1"@);
        },
        ConditionalBranch::BCDotVc => {
            assert(condition_text(cb.condition()) =~= "V == 0"@);
            assert(condition_text(negated(cb.condition())) =~= "V != 0"@);
        },
        ConditionalBranch::BCDotHi => {
            assert(condition_text(cb.condition()) =~= "C == 1 and Z == 0"@);
            assert(condition_text(negated(cb.condition())) =~= "C != 1 or Z != 0"@);
        },
        ConditionalBranch::BCDotLs => {
            assert(condition_text(cb.condition()) =~= "C == 0 or Z == 1"@);
            assert(condition_text(negated(cb.condition())) =~= "C != 0 and Z != 1"@);
        },
        ConditionalBranch::BCDotGe => {
            assert(condition_text(cb.condition()) =~= "N == V"@);
            assert(condition_text(negated(cb.condition())) =~= "N != V"@);
        },
        ConditionalBranch::BCDotLt => {
            assert(condition_text(cb.condition()) =~= "N != V"@);
            assert(condition_text(negated(cb.condition())) =~= "N == V"@);
        },
        ConditionalBranch::BCDotGt => {
            assert(condition_text(cb.condition()) =~= "Z == 0 and N == V"@);
            assert(condition_text(negated(cb.condition())) =~= "Z != 0 or N != V"@);
        },
        ConditionalBranch::BCDotLe => {
            assert(condition_text(cb.condition()) =~= "Z == 1 or N != V"@);
            assert(condition_text(negated(cb.condition())) =~= "Z != 1 and N == V"@);
        },
        ConditionalBranch::Cbz => {
            assert(condition_text(cb.condition()) =~= "register == 0"@);
            assert(condition_text(negated(cb.condition())) =~= "register != 0"@);
        },
        ConditionalBranch::Cbnz => {
            assert(condition_text(cb.condition()) =~= "register != 0"@);
            assert(condition_text(negated(cb.condition())) =~= "register == 0"@);
        },
        ConditionalBranch::Tbz => {
            assert(condition_text(cb.condition()) =~= "selected bit == 0"@);
            assert(condition_text(negated(cb.condition())) =~= "selected bit != 0"@);
        },
        ConditionalBranch::Tbnz => {
            assert(condition_text(cb.condition()) =~= "selected bit == 1"@);
            assert(condition_text(negated(cb.condition())) =~= "selected bit != 1"@);
        },
    }
}

/// The complement condition of every branch type is the negation of its
/// condition: the two texts write a condition and its negation, and under any
/// values of the flags, the tested register and the selected bit, the
/// complement holds exactly where the condition does not.
pub proof fn lemma_complement_is_negation(b: BranchType, f: Flags)
    ensures
        condition_text(b.condition()) == b.spec_branch_condition(),
        condition_text(negated(b.condition())) == b.spec_branch_condition_complement(),
        condition_holds(negated(b.condition()), f) == !condition_holds(b.condition(), f),
{
    match b {
        BranchType::ConditionalBranch(cb) => lemma_condition_texts(cb),
        BranchType::UnconditionalBranch(_) => {},
    }
}

} // verus!
