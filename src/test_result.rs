//! Outcome of one in-kernel test case.
use vstd::prelude::*;

verus! {

/// A test passed, or failed at the given source line.
#[derive(PartialEq, Eq, Structural, Clone, Copy, Debug)]
pub enum TestResult {
    Success,
    Failure(usize),
}

} // verus!
