//! GPU inventory, and the attribution of each device's utilization and memory
//! to the processes running on it.

use vstd::prelude::*;
use crate::accounting::{min_u64, saturate};
use crate::metrics::{copy_indices, copy_name, GPUInfo, GPUsSnapshot, MemoryLoad};

verus! {

/// What the queries of one device returned, each query `None` where it failed.
pub struct GpuReading {
    pub index: u32,
    pub name: Option<String>,
    pub utilization_percent: Option<u32>,
    /// Used and total device memory, in bytes.
    pub memory: Option<(u64, u64)>,
}

/// One running context on a device: its process and the memory it holds
/// (`None` where the driver does not report it).
#[derive(Clone, Copy, Debug, PartialEq, Eq, Structural)]
pub struct ContextUsage {
    pub pid: u32,
    pub used_memory: Option<u64>,
}

/// The context lists of one device, each `None` where the query failed.
pub struct DeviceContexts {
    pub index: u32,
    pub utilization_percent: Option<u32>,
    pub compute: Option<Vec<ContextUsage>>,
    pub graphics: Option<Vec<ContextUsage>>,
}

/// The GPU usage attributed to one process.
pub struct GpuProcessUsage {
    pub pid: u32,
    pub usage_millipercent: u64,
    pub memory_bytes: u64,
    /// The devices it runs on, each once, in order of first sight.
    pub gpus: Vec<u32>,
}

/// The record a device reading gives: name optional, utilization and memory
/// required; used memory is clamped to the total.
pub open spec fn gpu_info_spec(d: GpuReading) -> Option<GPUInfo> {
    match (d.utilization_percent, d.memory) {
        (Some(u), Some((used, total))) => Some(GPUInfo {
            index: d.index,
            name: d.name,
            usage_millipercent: (u * 1000) as u64,
            memory_load: MemoryLoad { used_bytes: min_u64(used, total), total_bytes: total, peak_bytes: None },
        }),
        _ => None,
    }
}

/// The devices whose every required query succeeded, in reading order.
pub open spec fn inventory_spec(ds: Seq<GpuReading>) -> Seq<GPUInfo>
    decreases ds.len(),
{
    if ds.len() == 0 {
        Seq::empty()
    } else {
        let head = inventory_spec(ds.drop_last());
        match gpu_info_spec(ds.last()) {
            Some(g) => head.push(g),
            None => head,
        }
    }
}

/// The GPU section of a snapshot: a device whose utilization or memory query
/// failed is left out, and the others are kept.
pub fn take_gpus_snapshot(readings: &Vec<GpuReading>) -> (r: GPUsSnapshot)
    ensures
        r.gpus@ == inventory_spec(readings@),
        forall|i: int| 0 <= i < r.gpus@.len() ==> (#[trigger] r.gpus@[i]).memory_load.wf(),
{
    let mut out: Vec<GPUInfo> = Vec::new();
    let mut i: usize = 0;
    proof {
        assert(readings@.take(0) =~= Seq::<GpuReading>::empty());
    }
    while i < readings.len()
        invariant
            i <= readings@.len(),
            out@ == inventory_spec(readings@.take(i as int)),
            forall|j: int| 0 <= j < out@.len() ==> (#[trigger] out@[j]).memory_load.wf(),
        decreases readings.len() - i,
    {
        proof {
            assert(readings@.take(i + 1).drop_last() =~= readings@.take(i as int));
        }
        let d = &readings[i];
        match (d.utilization_percent, d.memory) {
            (Some(u), Some((used, total))) => {
                out.push(GPUInfo {
                    index: d.index,
                    name: copy_name(&d.name),
                    usage_millipercent: (u as u64) * 1000,
                    memory_load: MemoryLoad {
                        used_bytes: if used <= total { used } else { total },
                        total_bytes: total,
                        peak_bytes: None,
                    },
                });
            },
            _ => {},
        }
        i = i + 1;
    }
    proof {
        assert(readings@.take(readings@.len() as int) =~= readings@);
    }
    GPUsSnapshot { gpus: out }
}

/// What one context adds to its process: a share of utilization, in
/// thousandths of a percent, memory, and the device.
pub struct Contribution {
    pub pid: u32,
    pub share: u64,
    pub memory: u64,
    pub device: u32,
}

pub open spec fn context_memory(c: ContextUsage) -> u64 {
    match c.used_memory {
        Some(b) => b,
        None => 0,
    }
}

/// The memory that the contexts `cs` hold in all.
pub open spec fn contexts_memory(cs: Seq<ContextUsage>) -> int
    decreases cs.len(),
{
    if cs.len() == 0 {
        0
    } else {
        contexts_memory(cs.drop_last()) + context_memory(cs.last())
    }
}

pub open spec fn list_seq(l: Option<Vec<ContextUsage>>) -> Seq<ContextUsage> {
    match l {
        Some(v) => v@,
        None => Seq::empty(),
    }
}

/// The memory that a device's visible contexts hold, compute and graphics
/// together: the base of each context's share.
pub open spec fn device_context_memory(d: DeviceContexts) -> u64 {
    saturate(contexts_memory(list_seq(d.compute)) + contexts_memory(list_seq(d.graphics)))
}

pub open spec fn utilization_of(d: DeviceContexts) -> u32 {
    match d.utilization_percent {
        Some(u) => u,
        None => 0,
    }
}

/// A context's share of a device's utilization: its part of the device's
/// context memory times the utilization, in thousandths of a percent; zero
/// where no context memory is visible.
pub open spec fn share_spec(memory: u64, total: u64, utilization: u32) -> u64 {
    if total == 0 {
        0
    } else {
        saturate(memory * utilization * 1000 / total as int)
    }
}

pub open spec fn contribution_of(c: ContextUsage, d: DeviceContexts) -> Contribution {
    Contribution {
        pid: c.pid,
        share: share_spec(context_memory(c), device_context_memory(d), utilization_of(d)),
        memory: context_memory(c),
        device: d.index,
    }
}

/// What a device contributes: each compute context, then each graphics
/// context. The two lists are independent passes: a list that could not be
/// read contributes nothing, the other still counts; a process in both lists
/// contributes twice.
pub open spec fn device_contributions(d: DeviceContexts) -> Seq<Contribution> {
    list_seq(d.compute).map_values(|x: ContextUsage| contribution_of(x, d)) + list_seq(d.graphics).map_values(
        |x: ContextUsage| contribution_of(x, d),
    )
}

/// The contributions of all devices, in order.
pub open spec fn all_contributions(ds: Seq<DeviceContexts>) -> Seq<Contribution>
    decreases ds.len(),
{
    if ds.len() == 0 {
        Seq::empty()
    } else {
        all_contributions(ds.drop_last()) + device_contributions(ds.last())
    }
}

/// Per process: usage, memory and devices.
pub type Attribution = Map<u32, (u64, u64, Seq<u32>)>;

/// Adds one contribution: usage and memory sum (saturating), and the device
/// joins the process's devices unless already there.
pub open spec fn add_contribution(m: Attribution, c: Contribution) -> Attribution {
    if m.contains_key(c.pid) {
        let e = m[c.pid];
        m.insert(
            c.pid,
            (
                saturate(e.0 + c.share),
                saturate(e.1 + c.memory),
                if e.2.contains(c.device) { e.2 } else { e.2.push(c.device) },
            ),
        )
    } else {
        m.insert(c.pid, (c.share, c.memory, seq![c.device]))
    }
}

pub open spec fn attribution_spec(cs: Seq<Contribution>) -> Attribution
    decreases cs.len(),
{
    if cs.len() == 0 {
        Map::empty()
    } else {
        add_contribution(attribution_spec(cs.drop_last()), cs.last())
    }
}

/// `v` lists each process of `m` once, with its entry.
pub open spec fn lists_attribution(v: Seq<GpuProcessUsage>, m: Attribution) -> bool {
    &&& forall|i: int, j: int| 0 <= i < v.len() && 0 <= j < v.len() && #[trigger] v[i].pid == #[trigger] v[j].pid ==> i == j
    &&& forall|i: int| 0 <= i < v.len() ==> m.contains_key(#[trigger] v[i].pid) && m[v[i].pid] == (v[i].usage_millipercent, v[i].memory_bytes, v[i].gpus@)
    &&& forall|p: u32| #[trigger] m.contains_key(p) ==> exists|i: int| 0 <= i < v.len() && v[i].pid == p
}

/// The share of a device's utilization that a context holding `memory` of the
/// device's `total` context memory gets (see [`share_spec`]).
pub fn context_share(memory: u64, total: u64, utilization: u32) -> (r: u64)
    ensures
        r == share_spec(memory, total, utilization),
{
    if total == 0 {
        return 0;
    }
    let m: u128 = memory as u128;
    let u: u128 = utilization as u128;
    assert(m * u <= 0xffff_ffff_ffff_ffffu128 * 0xffff_ffffu128) by (nonlinear_arith)
        requires
            m <= 0xffff_ffff_ffff_ffffu128,
            u <= 0xffff_ffffu128,
    ;
    let prod: u128 = m * u;
    let x: u128 = prod * 1000 / (total as u128);
    if x > u64::MAX as u128 {
        u64::MAX
    } else {
        x as u64
    }
}

fn list_memory(cs: &Vec<ContextUsage>) -> (r: u64)
    ensures
        r == saturate(contexts_memory(cs@)),
{
    let mut total: u64 = 0;
    let mut i: usize = 0;
    proof {
        assert(cs@.take(0) =~= Seq::<ContextUsage>::empty());
    }
    while i < cs.len()
        invariant
            i <= cs@.len(),
            total == saturate(contexts_memory(cs@.take(i as int))),
        decreases cs.len() - i,
    {
        proof {
            assert(cs@.take(i + 1).drop_last() =~= cs@.take(i as int));
            lemma_contexts_memory_nonneg(cs@.take(i as int));
        }
        let m = match cs[i].used_memory {
            Some(b) => b,
            None => 0,
        };
        total = total.saturating_add(m);
        i = i + 1;
    }
    proof {
        assert(cs@.take(cs@.len() as int) =~= cs@);
    }
    total
}

proof fn lemma_contexts_memory_nonneg(cs: Seq<ContextUsage>)
    ensures
        contexts_memory(cs) >= 0,
    decreases cs.len(),
{
    if cs.len() > 0 {
        lemma_contexts_memory_nonneg(cs.drop_last());
    }
}

/// The memory that a device's visible contexts hold (see [`device_context_memory`]).
pub fn device_memory(d: &DeviceContexts) -> (r: u64)
    ensures
        r == device_context_memory(*d),
{
    let a = match &d.compute {
        Some(v) => list_memory(v),
        None => 0,
    };
    let b = match &d.graphics {
        Some(v) => list_memory(v),
        None => 0,
    };
    proof {
        lemma_contexts_memory_nonneg(list_seq(d.compute));
        lemma_contexts_memory_nonneg(list_seq(d.graphics));
    }
    a.saturating_add(b)
}

fn find_pid(v: &Vec<GpuProcessUsage>, pid: u32) -> (r: Option<usize>)
    ensures
        r matches Some(i) ==> i < v@.len() && v@[i as int].pid == pid,
        r is None ==> forall|i: int| 0 <= i < v@.len() ==> v@[i].pid != pid,
{
    let mut i: usize = 0;
    while i < v.len()
        invariant
            i <= v@.len(),
            forall|j: int| 0 <= j < i ==> v@[j].pid != pid,
        decreases v.len() - i,
    {
        if v[i].pid == pid {
            return Some(i);
        }
        i = i + 1;
    }
    None
}

/// Adds one contribution to the per-process table `v` (see [`add_contribution`]).
fn accumulate(v: &mut Vec<GpuProcessUsage>, pid: u32, share: u64, memory: u64, device: u32, m: Ghost<Attribution>)
    requires
        lists_attribution(old(v)@, m@),
    ensures
        lists_attribution(final(v)@, add_contribution(m@, Contribution { pid, share, memory, device })),
{
    let ghost c = Contribution { pid, share, memory, device };
    let ghost m2 = add_contribution(m@, c);
    match find_pid(v, pid) {
        Some(i) => {
            let e = &v[i];
            let mut gpus = copy_indices(&e.gpus);
            if !crate::cpuset::contains_index(&gpus, device) {
                gpus.push(device);
            }
            let updated = GpuProcessUsage {
                pid,
                usage_millipercent: e.usage_millipercent.saturating_add(share),
                memory_bytes: e.memory_bytes.saturating_add(memory),
                gpus,
            };
            let ghost before = v@;
            v.set(i, updated);
            proof {
                assert(m@.contains_key(pid));
                assert forall|p: u32| #[trigger] m2.contains_key(p) implies exists|k: int| 0 <= k < v@.len() && v@[k].pid == p by {
                    if p != pid {
                        assert(m@.contains_key(p));
                        let k = choose|k: int| 0 <= k < before.len() && before[k].pid == p;
                        assert(v@[k].pid == p);
                    } else {
                        assert(v@[i as int].pid == p);
                    }
                }
                assert forall|k: int| 0 <= k < v@.len() implies m2.contains_key(#[trigger] v@[k].pid) && m2[v@[k].pid] == (v@[k].usage_millipercent, v@[k].memory_bytes, v@[k].gpus@) by {
                    if k != i {
                        assert(before[k].pid != pid);
                        assert(v@[k] == before[k]);
                    }
                }
            }
        },
        None => {
            let mut gpus: Vec<u32> = Vec::new();
            gpus.push(device);
            let ghost before = v@;
            v.push(GpuProcessUsage { pid, usage_millipercent: share, memory_bytes: memory, gpus });
            proof {
                assert(!m@.contains_key(pid));
                assert(gpus@ =~= seq![device]);
                assert forall|p: u32| #[trigger] m2.contains_key(p) implies exists|k: int| 0 <= k < v@.len() && v@[k].pid == p by {
                    if p != pid {
                        assert(m@.contains_key(p));
                        let k = choose|k: int| 0 <= k < before.len() && before[k].pid == p;
                        assert(v@[k].pid == p);
                    } else {
                        assert(v@[before.len() as int].pid == p);
                    }
                }
                assert forall|k: int| 0 <= k < v@.len() implies m2.contains_key(#[trigger] v@[k].pid) && m2[v@[k].pid] == (v@[k].usage_millipercent, v@[k].memory_bytes, v@[k].gpus@) by {
                    if k < before.len() {
                        assert(v@[k] == before[k]);
                    }
                }
            }
        },
    }
}

/// Accumulates the contributions of `cs` on device `d` after `base`.
fn accumulate_list(
    v: &mut Vec<GpuProcessUsage>,
    cs: &Vec<ContextUsage>,
    d: &DeviceContexts,
    total: u64,
    base: Ghost<Seq<Contribution>>,
)
    requires
        total == device_context_memory(*d),
        lists_attribution(old(v)@, attribution_spec(base@)),
    ensures
        lists_attribution(
            final(v)@,
            attribution_spec(base@ + cs@.map_values(|x: ContextUsage| contribution_of(x, *d))),
        ),
{
    let ghost f = |x: ContextUsage| contribution_of(x, *d);
    let util: u32 = match d.utilization_percent {
        Some(u) => u,
        None => 0,
    };
    let mut j: usize = 0;
    proof {
        assert(base@ + cs@.take(0).map_values(f) =~= base@);
    }
    while j < cs.len()
        invariant
            j <= cs@.len(),
            util == utilization_of(*d),
            total == device_context_memory(*d),
            f == (|x: ContextUsage| contribution_of(x, *d)),
            lists_attribution(v@, attribution_spec(base@ + cs@.take(j as int).map_values(f))),
        decreases cs.len() - j,
    {
        let c = cs[j];
        let memory: u64 = match c.used_memory {
            Some(b) => b,
            None => 0,
        };
        let share = context_share(memory, total, util);
        let ghost prefix = base@ + cs@.take(j as int).map_values(f);
        accumulate(v, c.pid, share, memory, d.index, Ghost(attribution_spec(prefix)));
        proof {
            let next = base@ + cs@.take(j + 1).map_values(f);
            assert(next =~= prefix.push(f(c)));
            assert(next.drop_last() =~= prefix);
        }
        j = j + 1;
    }
    proof {
        assert(cs@.take(cs@.len() as int) =~= cs@);
    }
}

/// Estimates each process's share of every device's utilization and memory.
/// A context's share of a device is its part of the memory that the device's
/// visible contexts hold, times the device's utilization; shares and memory
/// add up per process over devices and context lists (see
/// [`attribution_spec`], [`all_contributions`]).
pub fn collect_gpu_usage(devices: &Vec<DeviceContexts>) -> (r: Vec<GpuProcessUsage>)
    ensures
        lists_attribution(r@, attribution_spec(all_contributions(devices@))),
{
    let mut out: Vec<GpuProcessUsage> = Vec::new();
    let mut k: usize = 0;
    proof {
        assert(devices@.take(0) =~= Seq::<DeviceContexts>::empty());
    }
    while k < devices.len()
        invariant
            k <= devices@.len(),
            lists_attribution(out@, attribution_spec(all_contributions(devices@.take(k as int)))),
        decreases devices.len() - k,
    {
        let d = &devices[k];
        let ghost base = all_contributions(devices@.take(k as int));
        let ghost f = |x: ContextUsage| contribution_of(x, *d);
        proof {
            assert(devices@.take(k + 1).drop_last() =~= devices@.take(k as int));
        }
        let total = device_memory(d);
        match &d.compute {
            Some(cv) => {
                accumulate_list(&mut out, cv, d, total, Ghost(base));
            },
            None => {
                proof {
                    assert(base + list_seq(d.compute).map_values(f) =~= base);
                }
            },
        }
        let ghost mid = base + list_seq(d.compute).map_values(f);
        match &d.graphics {
            Some(gv) => {
                accumulate_list(&mut out, gv, d, total, Ghost(mid));
                proof {
                    assert(mid + gv@.map_values(f) =~= base + device_contributions(*d));
                }
            },
            None => {
                proof {
                    assert(mid =~= base + device_contributions(*d));
                }
            },
        }
        k = k + 1;
    }
    proof {
        assert(devices@.take(devices@.len() as int) =~= devices@);
    }
    out
}

} // verus!
