//! The errors of the analysis.
use vstd::prelude::*;
use crate::module::assembly::ResolveError;
use crate::module::basic_block::{BlockError, LeaderError};

verus! {

/// Why an analysis step could not be carried out.
#[derive(Debug, PartialEq, Eq)]
pub enum AfdError {
    /// A regular expression of the analysis does not compile.
    InvalidPattern(String),
    /// The instruction on this line (counted from one) has no mnemonic.
    NoMnemonic(usize),
    /// The targets of the control transfer instructions could not be resolved.
    Resolve(ResolveError),
    /// The leaders of the program could not be found.
    Leaders(LeaderError),
    /// The basic blocks could not be formed.
    Blocks(BlockError),
}

} // verus!
