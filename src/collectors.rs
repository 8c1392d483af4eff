//! One sampling cycle: from the readings of every source to a snapshot.

use vstd::prelude::*;
use crate::accounting::{
    cpu_set_spec, list_view, memory_load_of, resolve_cpu_set, selected_cpus, take_cpus_snapshot, MemorySources,
    SchedulerEnv,
};
use crate::gpu::{all_contributions, attribution_spec, collect_gpu_usage, inventory_spec, take_gpus_snapshot, DeviceContexts, GpuReading};
use crate::metrics::{copy_indices, CPUInfo, Snapshot};
use crate::mode::AgentMode;
use crate::process::{info_matches, lemma_usage_map_of_list, listed_processes, take_processes_snapshot, ProcessFacts, ProcessTable};

verus! {

/// What the sources reported in one cycle.
pub struct CycleReadings {
    /// Seconds since the Unix epoch.
    pub timestamp: i64,
    /// Every host CPU, by index.
    pub cpus: Vec<CPUInfo>,
    /// The allowed-CPU list of the process, where one could be read.
    pub allowed_cpus: Option<Vec<u32>>,
    pub env: SchedulerEnv,
    pub host_used_bytes: u64,
    pub host_total_bytes: u64,
    pub cgroup_limit_bytes: Option<u64>,
    pub cgroup_usage_bytes: Option<u64>,
    pub cgroup_peak_bytes: Option<u64>,
    pub gpus: Vec<GpuReading>,
    pub gpu_contexts: Vec<DeviceContexts>,
}

/// The resident memory of each tracked process.
pub open spec fn table_rss(entries: Seq<ProcessFacts>) -> Seq<u64> {
    entries.map_values(|f: ProcessFacts| f.memory_bytes)
}

fn rss_of(table: &ProcessTable) -> (r: Vec<u64>)
    ensures
        r@ == table_rss(table@),
{
    let entries = table.entries();
    let mut r: Vec<u64> = Vec::new();
    let mut i: usize = 0;
    while i < entries.len()
        invariant
            i <= entries@.len(),
            r@ =~= table_rss(entries@).take(i as int),
        decreases entries.len() - i,
    {
        r.push(entries[i].memory_bytes);
        i = i + 1;
    }
    assert(table_rss(entries@).take(entries@.len() as int) =~= table_rss(entries@));
    r
}

/// Assembles the snapshot of one cycle: the host CPUs in the job's CPU set and
/// its memory load, the GPU inventory, and each tracked process that shows
/// activity, joined with the GPU usage attributed to it and reporting the whole
/// CPU set where it uses CPU.
pub fn take_global_snapshot(mode: AgentMode, table: &ProcessTable, readings: CycleReadings) -> (r: Snapshot)
    requires
        readings.cpus@.len() <= u32::MAX,
    ensures
        r.timestamp == readings.timestamp,
        ({
            let set = cpu_set_spec(mode, list_view(readings.allowed_cpus), readings.env, readings.cpus@.len() as u32);
            let mem = memory_load_of(
                mode,
                readings.host_used_bytes,
                readings.host_total_bytes,
                readings.cgroup_limit_bytes,
                readings.cgroup_usage_bytes,
                readings.cgroup_peak_bytes,
                table_rss(table@),
                readings.env,
                set.len(),
            );
            let m = attribution_spec(all_contributions(readings.gpu_contexts@));
            &&& r.cpus_snapshot.cpus@ == selected_cpus(readings.cpus@, set)
            &&& r.cpus_snapshot.memory == mem
            &&& r.gpus_snapshot.gpus@ == inventory_spec(readings.gpus@)
            &&& r.processes_snapshot.processes@.len() == listed_processes(table@, m).len()
            &&& forall|i: int| 0 <= i < r.processes_snapshot.processes@.len() ==>
                info_matches(#[trigger] r.processes_snapshot.processes@[i], listed_processes(table@, m)[i], m, set)
        }),
        r.cpus_snapshot.memory.wf(),
        forall|i: int| 0 <= i < r.processes_snapshot.processes@.len() ==> {
            let p = #[trigger] r.processes_snapshot.processes@[i];
            p.cpu_usage_millipercent > 0 || p.gpu_usage_millipercent > 0 || p.cpu_memory_bytes > 0
        },
{
    let allowed_copy = match &readings.allowed_cpus {
        Some(v) => Some(copy_indices(v)),
        None => None,
    };
    let set = resolve_cpu_set(mode, allowed_copy, &readings.env, readings.cpus.len() as u32);
    let sources = MemorySources {
        host_used_bytes: readings.host_used_bytes,
        host_total_bytes: readings.host_total_bytes,
        cgroup_limit_bytes: readings.cgroup_limit_bytes,
        cgroup_usage_bytes: readings.cgroup_usage_bytes,
        cgroup_peak_bytes: readings.cgroup_peak_bytes,
        process_rss_bytes: rss_of(table),
    };
    let cpus_snapshot = take_cpus_snapshot(mode, &readings.cpus, readings.allowed_cpus, &readings.env, &sources);
    let gpus_snapshot = take_gpus_snapshot(&readings.gpus);
    let usage = collect_gpu_usage(&readings.gpu_contexts);
    proof {
        lemma_usage_map_of_list(usage@, attribution_spec(all_contributions(readings.gpu_contexts@)));
    }
    let processes_snapshot = take_processes_snapshot(table, &usage, &set);
    Snapshot { timestamp: readings.timestamp, cpus_snapshot, gpus_snapshot, processes_snapshot }
}

} // verus!
