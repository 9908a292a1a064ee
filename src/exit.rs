//! How a run of the kernel ended, as reported to the machine it runs on.
use vstd::prelude::*;

verus! {

#[derive(Clone, Copy, Debug, PartialEq, Eq, Structural)]
pub enum ExitDiagnostics {
    Success,
    Failure,
    Panic,
}

} // verus!
