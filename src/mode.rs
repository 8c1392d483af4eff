//! How the agent accounts for resources: on a bare workstation or inside a
//! scheduler allocation.

use vstd::prelude::*;

verus! {

/// Chosen once at start-up and fixed for the life of the process.
#[derive(Clone, Copy, Debug, PartialEq, Eq, Structural)]
pub enum AgentMode {
    /// A workstation: every host CPU and the host's memory belong to the job.
    Local,
    /// A Slurm allocation: CPU set and memory come from the allocation.
    Slurm,
}

} // verus!
