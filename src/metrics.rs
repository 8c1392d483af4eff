//! The values that one sampling cycle produces. Usage figures are in
//! thousandths of a percent (`12_500` is 12.5%).

use vstd::prelude::*;

verus! {

pub type Pid = u32;

pub type CPUIndex = u32;

pub type GPUIndex = u32;

/// One whole sampling cycle.
pub struct Snapshot {
    /// Seconds since the Unix epoch.
    pub timestamp: i64,
    pub cpus_snapshot: CPUsSnapshot,
    pub gpus_snapshot: GPUsSnapshot,
    pub processes_snapshot: ProcessesSnapshot,
}

pub struct CPUsSnapshot {
    pub cpus: Vec<CPUInfo>,
    pub memory: MemoryLoad,
}

pub struct GPUsSnapshot {
    pub gpus: Vec<GPUInfo>,
}

pub struct ProcessesSnapshot {
    pub processes: Vec<ProcessInfo>,
}

/// Memory in use against the memory available; `used_bytes <= total_bytes`
/// wherever this library computes one.
#[derive(Clone, Copy, Debug, PartialEq, Eq, Structural)]
pub struct MemoryLoad {
    pub used_bytes: u64,
    pub total_bytes: u64,
    /// The lifetime high-water mark, where a source reports one.
    pub peak_bytes: Option<u64>,
}

impl MemoryLoad {
    pub open spec fn wf(&self) -> bool {
        self.used_bytes <= self.total_bytes
    }
}

pub struct CPUInfo {
    pub index: CPUIndex,
    pub name: Option<String>,
    pub usage_millipercent: u64,
}

pub struct GPUInfo {
    pub index: GPUIndex,
    pub name: Option<String>,
    pub usage_millipercent: u64,
    pub memory_load: MemoryLoad,
}

pub struct ProcessInfo {
    pub pid: Pid,
    pub name: Option<String>,
    pub cpu_usage_millipercent: u64,
    pub cpu_memory_bytes: u64,
    pub gpu_usage_millipercent: u64,
    pub gpu_memory_bytes: u64,
    pub cpus_indexes: Vec<CPUIndex>,
    pub gpus_indexes: Vec<GPUIndex>,
}

/// A copy of an optional name.
pub fn copy_name(n: &Option<String>) -> (r: Option<String>)
    ensures
        r == *n,
{
    match n {
        Some(s) => Some(s.clone()),
        None => None,
    }
}

/// A copy of a list of indices.
pub fn copy_indices(v: &Vec<u32>) -> (r: Vec<u32>)
    ensures
        r@ == v@,
{
    let mut r: Vec<u32> = Vec::new();
    let mut i: usize = 0;
    while i < v.len()
        invariant
            i <= v@.len(),
            r@ =~= v@.take(i as int),
        decreases v.len() - i,
    {
        r.push(v[i]);
        i = i + 1;
    }
    assert(v@.take(v@.len() as int) =~= v@);
    r
}

impl CPUInfo {
    /// A field-by-field copy.
    pub fn duplicate(&self) -> (r: CPUInfo)
        ensures
            r == *self,
    {
        CPUInfo { index: self.index, name: copy_name(&self.name), usage_millipercent: self.usage_millipercent }
    }
}

} // verus!
