//! The CPU and memory accountant: combines the readings of each source into
//! one CPU set and one memory load.

use vstd::prelude::*;
use crate::metrics::{CPUInfo, CPUsSnapshot, MemoryLoad};
use crate::mode::AgentMode;

verus! {

pub const MIB: u64 = 1048576;

/// The scheduler's environment, each value as read (`None` where unset or malformed).
#[derive(Clone, Copy, Debug, PartialEq, Eq, Structural)]
pub struct SchedulerEnv {
    /// An explicit override of the job's total memory, in MiB.
    pub mem_override_mib: Option<u64>,
    /// Memory per allocated CPU, in MiB (`SLURM_MEM_PER_CPU`).
    pub mem_per_cpu_mib: Option<u64>,
    /// Memory per node, in MiB (`SLURM_MEM_PER_NODE`).
    pub mem_per_node_mib: Option<u64>,
    /// The number of CPUs allocated on this node (`SLURM_CPUS_ON_NODE`).
    pub cpus_on_node: Option<u32>,
}

/// Everything the accountant reads about memory in one cycle.
pub struct MemorySources {
    pub host_used_bytes: u64,
    pub host_total_bytes: u64,
    pub cgroup_limit_bytes: Option<u64>,
    pub cgroup_usage_bytes: Option<u64>,
    pub cgroup_peak_bytes: Option<u64>,
    /// Resident memory of each tracked process of the job.
    pub process_rss_bytes: Vec<u64>,
}

pub open spec fn list_view(o: Option<Vec<u32>>) -> Option<Seq<u32>> {
    match o {
        Some(v) => Some(v@),
        None => None,
    }
}

/// The indices `0..n`.
pub open spec fn first_cpus(n: nat) -> Seq<u32> {
    Seq::new(n, |i: int| i as u32)
}

/// The CPU set of the job: every host CPU in local mode; in a Slurm allocation
/// the allowed-CPU list, else the first `cpus_on_node` CPUs, else every host CPU.
pub open spec fn cpu_set_spec(mode: AgentMode, allowed: Option<Seq<u32>>, env: SchedulerEnv, host_cpus: u32) -> Seq<u32> {
    match mode {
        AgentMode::Local => first_cpus(host_cpus as nat),
        AgentMode::Slurm => match allowed {
            Some(list) => list,
            None => match env.cpus_on_node {
                Some(n) => first_cpus(n as nat),
                None => first_cpus(host_cpus as nat),
            },
        },
    }
}

/// `v` MiB in bytes, where that fits in a `u64`.
pub open spec fn mib_bytes(v: int) -> Option<u64> {
    if 0 <= v * MIB <= u64::MAX {
        Some((v * MIB) as u64)
    } else {
        None
    }
}

/// The total that the environment gives: the override, else memory per CPU
/// times the CPU count, else memory per node; the first that is set and fits wins.
pub open spec fn env_total_spec(env: SchedulerEnv, cpu_count: nat) -> Option<u64> {
    let from_override = match env.mem_override_mib {
        Some(m) => mib_bytes(m as int),
        None => None,
    };
    let from_cpus = match env.mem_per_cpu_mib {
        Some(m) => mib_bytes(m * cpu_count),
        None => None,
    };
    let from_node = match env.mem_per_node_mib {
        Some(m) => mib_bytes(m as int),
        None => None,
    };
    if from_override is Some {
        from_override
    } else if from_cpus is Some {
        from_cpus
    } else {
        from_node
    }
}

pub open spec fn min_u64(a: u64, b: u64) -> u64 {
    if a <= b { a } else { b }
}

pub open spec fn max_u64(a: u64, b: u64) -> u64 {
    if a >= b { a } else { b }
}

/// The total memory of a Slurm job: the smaller of the environment's total and
/// the cgroup limit where both are known, else whichever is, else the host's.
pub open spec fn memory_total_spec(env: SchedulerEnv, cpu_count: nat, cgroup_limit: Option<u64>, host_total: u64) -> u64 {
    match (env_total_spec(env, cpu_count), cgroup_limit) {
        (Some(e), Some(c)) => min_u64(e, c),
        (Some(e), None) => e,
        (None, Some(c)) => c,
        (None, None) => host_total,
    }
}

pub open spec fn seq_sum(s: Seq<u64>) -> int
    decreases s.len(),
{
    if s.len() == 0 {
        0
    } else {
        seq_sum(s.drop_last()) + s.last()
    }
}

/// `x`, or `u64::MAX` where `x` is larger.
pub open spec fn saturate(x: int) -> u64 {
    if x <= u64::MAX { x as u64 } else { u64::MAX }
}

/// The used memory of a Slurm job before clamping: the larger of the cgroup's
/// usage and the tracked processes' resident total, else whichever is known,
/// else the host's used memory.
pub open spec fn memory_used_raw_spec(cgroup_usage: Option<u64>, rss: Seq<u64>, host_used: u64) -> u64 {
    let rss_total = if rss.len() > 0 { Some(saturate(seq_sum(rss))) } else { None };
    match (cgroup_usage, rss_total) {
        (Some(c), Some(p)) => max_u64(c, p),
        (Some(c), None) => c,
        (None, Some(p)) => p,
        (None, None) => host_used,
    }
}

/// The memory load of the job, from each source's reading.
pub open spec fn memory_load_of(
    mode: AgentMode,
    host_used: u64,
    host_total: u64,
    cgroup_limit: Option<u64>,
    cgroup_usage: Option<u64>,
    cgroup_peak: Option<u64>,
    rss: Seq<u64>,
    env: SchedulerEnv,
    cpu_count: nat,
) -> MemoryLoad {
    match mode {
        AgentMode::Local => MemoryLoad { used_bytes: min_u64(host_used, host_total), total_bytes: host_total, peak_bytes: None },
        AgentMode::Slurm => {
            let total = memory_total_spec(env, cpu_count, cgroup_limit, host_total);
            let used = memory_used_raw_spec(cgroup_usage, rss, host_used);
            MemoryLoad { used_bytes: min_u64(used, total), total_bytes: total, peak_bytes: cgroup_peak }
        },
    }
}

/// The memory load of the job: every host figure in local mode (used clamped
/// to total, no peak); in a Slurm allocation the resolved total, the resolved
/// used memory clamped to it, and the cgroup's peak.
pub open spec fn memory_load_spec(mode: AgentMode, src: MemorySources, env: SchedulerEnv, cpu_count: nat) -> MemoryLoad {
    memory_load_of(
        mode,
        src.host_used_bytes,
        src.host_total_bytes,
        src.cgroup_limit_bytes,
        src.cgroup_usage_bytes,
        src.cgroup_peak_bytes,
        src.process_rss_bytes@,
        env,
        cpu_count,
    )
}

/// Whatever the mode and whichever sources answered, used memory never
/// exceeds total memory.
pub proof fn lemma_used_within_total(
    mode: AgentMode,
    host_used: u64,
    host_total: u64,
    cgroup_limit: Option<u64>,
    cgroup_usage: Option<u64>,
    cgroup_peak: Option<u64>,
    rss: Seq<u64>,
    env: SchedulerEnv,
    cpu_count: nat,
)
    ensures
        memory_load_of(mode, host_used, host_total, cgroup_limit, cgroup_usage, cgroup_peak, rss, env, cpu_count).wf(),
{
}

fn first_cpus_vec(n: u32) -> (r: Vec<u32>)
    ensures
        r@ == first_cpus(n as nat),
{
    let mut r: Vec<u32> = Vec::new();
    let mut i: u32 = 0;
    while i < n
        invariant
            i <= n,
            r@ =~= first_cpus(i as nat),
        decreases n - i,
    {
        r.push(i);
        i = i + 1;
    }
    r
}

/// Resolves the CPU set of the job (see [`cpu_set_spec`]); its length is the
/// CPU count used for memory per CPU.
pub fn resolve_cpu_set(mode: AgentMode, allowed: Option<Vec<u32>>, env: &SchedulerEnv, host_cpus: u32) -> (r: Vec<u32>)
    ensures
        r@ == cpu_set_spec(mode, list_view(allowed), *env, host_cpus),
{
    match mode {
        AgentMode::Local => first_cpus_vec(host_cpus),
        AgentMode::Slurm => match allowed {
            Some(list) => list,
            None => match env.cpus_on_node {
                Some(n) => first_cpus_vec(n),
                None => first_cpus_vec(host_cpus),
            },
        },
    }
}

fn mib_to_bytes(v: u64) -> (r: Option<u64>)
    ensures
        r == mib_bytes(v as int),
{
    v.checked_mul(MIB)
}

/// The total memory that the scheduler's environment gives (see [`env_total_spec`]).
pub fn env_memory_total(env: &SchedulerEnv, cpu_count: usize) -> (r: Option<u64>)
    ensures
        r == env_total_spec(*env, cpu_count as nat),
{
    if let Some(m) = env.mem_override_mib {
        let b = mib_to_bytes(m);
        if b.is_some() {
            return b;
        }
    }
    if let Some(m) = env.mem_per_cpu_mib {
        match m.checked_mul(cpu_count as u64) {
            Some(per) => {
                let b = mib_to_bytes(per);
                if b.is_some() {
                    return b;
                }
            },
            None => {
                assert(m * cpu_count * MIB > u64::MAX) by (nonlinear_arith)
                    requires m * cpu_count > u64::MAX;
            },
        }
    }
    match env.mem_per_node_mib {
        Some(m) => mib_to_bytes(m),
        None => None,
    }
}

/// The total memory of a Slurm job (see [`memory_total_spec`]).
pub fn resolve_memory_total(env: &SchedulerEnv, cpu_count: usize, cgroup_limit: Option<u64>, host_total: u64) -> (r: u64)
    ensures
        r == memory_total_spec(*env, cpu_count as nat, cgroup_limit, host_total),
{
    match (env_memory_total(env, cpu_count), cgroup_limit) {
        (Some(e), Some(c)) => if e <= c { e } else { c },
        (Some(e), None) => e,
        (None, Some(c)) => c,
        (None, None) => host_total,
    }
}

/// The resident total of the tracked processes, saturating at `u64::MAX`.
pub fn sum_rss(rss: &Vec<u64>) -> (r: u64)
    ensures
        r == saturate(seq_sum(rss@)),
{
    let mut total: u64 = 0;
    let mut i: usize = 0;
    proof {
        assert(rss@.take(0) =~= Seq::<u64>::empty());
    }
    while i < rss.len()
        invariant
            i <= rss@.len(),
            total == saturate(seq_sum(rss@.take(i as int))),
        decreases rss.len() - i,
    {
        proof {
            assert(rss@.take(i + 1).drop_last() =~= rss@.take(i as int));
            lemma_seq_sum_nonneg(rss@.take(i as int));
        }
        total = total.saturating_add(rss[i]);
        i = i + 1;
    }
    proof {
        assert(rss@.take(rss@.len() as int) =~= rss@);
    }
    total
}

proof fn lemma_seq_sum_nonneg(s: Seq<u64>)
    ensures
        seq_sum(s) >= 0,
    decreases s.len(),
{
    if s.len() > 0 {
        lemma_seq_sum_nonneg(s.drop_last());
    }
}

/// The used memory of a Slurm job before clamping (see [`memory_used_raw_spec`]).
pub fn resolve_memory_used(cgroup_usage: Option<u64>, rss: &Vec<u64>, host_used: u64) -> (r: u64)
    ensures
        r == memory_used_raw_spec(cgroup_usage, rss@, host_used),
{
    let rss_total = if rss.len() > 0 { Some(sum_rss(rss)) } else { None };
    match (cgroup_usage, rss_total) {
        (Some(c), Some(p)) => if c >= p { c } else { p },
        (Some(c), None) => c,
        (None, Some(p)) => p,
        (None, None) => host_used,
    }
}

/// The memory load of the job (see [`memory_load_spec`]); used memory is
/// clamped to the total.
pub fn take_memory_load(mode: AgentMode, src: &MemorySources, env: &SchedulerEnv, cpu_count: usize) -> (r: MemoryLoad)
    ensures
        r == memory_load_spec(mode, *src, *env, cpu_count as nat),
        r.wf(),
{
    match mode {
        AgentMode::Local => {
            let used = if src.host_used_bytes <= src.host_total_bytes { src.host_used_bytes } else { src.host_total_bytes };
            MemoryLoad { used_bytes: used, total_bytes: src.host_total_bytes, peak_bytes: None }
        },
        AgentMode::Slurm => {
            let total = resolve_memory_total(env, cpu_count, src.cgroup_limit_bytes, src.host_total_bytes);
            let used = resolve_memory_used(src.cgroup_usage_bytes, &src.process_rss_bytes, src.host_used_bytes);
            let used = if used <= total { used } else { total };
            MemoryLoad { used_bytes: used, total_bytes: total, peak_bytes: src.cgroup_peak_bytes }
        },
    }
}

/// The host CPUs that belong to the job's CPU set, in host order.
pub open spec fn selected_cpus(cpus: Seq<CPUInfo>, set: Seq<u32>) -> Seq<CPUInfo> {
    cpus.filter(|c: CPUInfo| set.contains(c.index))
}

/// The CPU section of a snapshot: the host CPUs in the job's CPU set (see
/// [`cpu_set_spec`]) and the job's memory load (see [`memory_load_spec`]).
pub fn take_cpus_snapshot(
    mode: AgentMode,
    cpus: &Vec<CPUInfo>,
    allowed: Option<Vec<u32>>,
    env: &SchedulerEnv,
    memory: &MemorySources,
) -> (r: CPUsSnapshot)
    requires
        cpus@.len() <= u32::MAX,
    ensures
        ({
            let set = cpu_set_spec(mode, list_view(allowed), *env, cpus@.len() as u32);
            &&& r.cpus@ == selected_cpus(cpus@, set)
            &&& r.memory == memory_load_spec(mode, *memory, *env, set.len())
        }),
        r.memory.wf(),
{
    let set = resolve_cpu_set(mode, allowed, env, cpus.len() as u32);
    let mut out: Vec<CPUInfo> = Vec::new();
    let ghost pred = |c: CPUInfo| set@.contains(c.index);
    let mut i: usize = 0;
    proof {
        assert(cpus@.take(0) =~= Seq::<CPUInfo>::empty());
    }
    while i < cpus.len()
        invariant
            i <= cpus@.len(),
            pred == (|c: CPUInfo| set@.contains(c.index)),
            out@ == cpus@.take(i as int).filter(pred),
        decreases cpus.len() - i,
    {
        proof {
            assert(cpus@.take(i + 1).drop_last() =~= cpus@.take(i as int));
        }
        proof {
            reveal_with_fuel(Seq::filter, 1);
        }
        if crate::cpuset::contains_index(&set, cpus[i].index) {
            out.push(cpus[i].duplicate());
            assert(pred(cpus@[i as int]));
        } else {
            assert(!pred(cpus@[i as int]));
        }
        i = i + 1;
    }
    proof {
        assert(cpus@.take(cpus@.len() as int) =~= cpus@);
    }
    let load = take_memory_load(mode, memory, env, set.len());
    CPUsSnapshot { cpus: out, memory: load }
}

} // verus!
