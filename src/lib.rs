//! Resource accounting for a running job: resolves the CPU set and memory load
//! available to the job and attributes GPU usage to the processes behind it.

pub mod text;
pub mod cpuset;
pub mod cgroup;
pub mod mode;
pub mod metrics;
pub mod accounting;
pub mod gpu;
pub mod process;
pub mod collectors;
