//! The process enumerator, its table of known processes, and the process
//! section of a snapshot.

use vstd::prelude::*;
use crate::gpu::{Attribution, GpuProcessUsage, lists_attribution};
use crate::metrics::{copy_indices, copy_name, ProcessInfo, ProcessesSnapshot};

verus! {

/// One entry of the process directory: a process and the user that owns it.
#[derive(Clone, Copy, Debug, PartialEq, Eq, Structural)]
pub struct ProcEntry {
    pub pid: u32,
    pub uid: u32,
}

/// What a refresh learned of one process.
pub struct ProcessFacts {
    pub pid: u32,
    pub name: Option<String>,
    /// CPU usage in thousandths of a percent.
    pub cpu_usage_millipercent: u64,
    /// Resident memory in bytes.
    pub memory_bytes: u64,
}

/// The processes known from one cycle to the next, each once.
pub struct ProcessTable {
    entries: Vec<ProcessFacts>,
}

pub open spec fn pids_unique(s: Seq<ProcessFacts>) -> bool {
    forall|i: int, j: int| 0 <= i < s.len() && 0 <= j < s.len() && #[trigger] s[i].pid == #[trigger] s[j].pid ==> i == j
}

pub open spec fn has_pid(s: Seq<ProcessFacts>, pid: u32) -> bool {
    exists|i: int| 0 <= i < s.len() && s[i].pid == pid
}

/// The processes to refresh: those in the process directory that `uid` owns,
/// and every known one.
pub open spec fn candidate_set(entries: Seq<ProcessFacts>, scanned: Seq<ProcEntry>, uid: u32) -> Set<u32> {
    Set::new(|p: u32| (exists|i: int| 0 <= i < scanned.len() && scanned[i].pid == p && scanned[i].uid == uid) || has_pid(entries, p))
}

pub open spec fn is_first_pid(found: Seq<ProcessFacts>, pid: u32, i: int) -> bool {
    0 <= i < found.len() && found[i].pid == pid && forall|j: int| 0 <= j < i ==> found[j].pid != pid
}

/// The first facts that a refresh found for `pid`.
pub open spec fn found_facts(found: Seq<ProcessFacts>, pid: u32) -> Option<ProcessFacts> {
    if exists|i: int| is_first_pid(found, pid, i) {
        Some(found[choose|i: int| is_first_pid(found, pid, i)])
    } else {
        None
    }
}

/// The table after a refresh of `candidates`: each candidate that was found,
/// with its new facts, in candidate order; the others are dropped.
pub open spec fn refreshed_spec(candidates: Seq<u32>, found: Seq<ProcessFacts>) -> Seq<ProcessFacts>
    decreases candidates.len(),
{
    if candidates.len() == 0 {
        Seq::empty()
    } else {
        let head = refreshed_spec(candidates.drop_last(), found);
        match found_facts(found, candidates.last()) {
            Some(f) => head.push(f),
            None => head,
        }
    }
}

impl ProcessTable {
    pub closed spec fn view(&self) -> Seq<ProcessFacts> {
        self.entries@
    }

    pub open spec fn wf(&self) -> bool {
        pids_unique(self@)
    }

    /// A table that tracks nothing.
    pub fn new() -> (r: ProcessTable)
        ensures
            r@.len() == 0,
            r.wf(),
    {
        ProcessTable { entries: Vec::new() }
    }

    /// The known processes.
    pub fn entries(&self) -> (r: &Vec<ProcessFacts>)
        ensures
            r@ == self@,
    {
        &self.entries
    }
}

/// The processes to refresh this cycle: those in the process directory
/// `scanned` that `my_uid` owns, then each known one, every process once.
pub fn candidate_pids(table: &ProcessTable, scanned: &Vec<ProcEntry>, my_uid: u32) -> (r: Vec<u32>)
    ensures
        r@.to_set() == candidate_set(table@, scanned@, my_uid),
        r@.no_duplicates(),
{
    let mut out: Vec<u32> = Vec::new();
    let mut i: usize = 0;
    while i < scanned.len()
        invariant
            i <= scanned@.len(),
            out@.no_duplicates(),
            forall|p: u32| out@.contains(p) <==> exists|j: int| 0 <= j < i && scanned@[j].pid == p && scanned@[j].uid == my_uid,
        decreases scanned.len() - i,
    {
        let e = scanned[i];
        let ghost before = out@;
        if e.uid == my_uid && !crate::cpuset::contains_index(&out, e.pid) {
            out.push(e.pid);
        }
        proof {
            assert forall|p: u32| out@.contains(p) <==> exists|j: int| 0 <= j < i + 1 && scanned@[j].pid == p && scanned@[j].uid == my_uid by {
                if out@.contains(p) && !before.contains(p) {
                    assert(out@.last() == p);
                    assert(scanned@[i as int].pid == p);
                }
                if before.contains(p) {
                    let k = choose|k: int| 0 <= k < before.len() && before[k] == p;
                    assert(out@[k] == p);
                }
                if exists|j: int| 0 <= j < i + 1 && scanned@[j].pid == p && scanned@[j].uid == my_uid {
                    let j = choose|j: int| 0 <= j < i + 1 && scanned@[j].pid == p && scanned@[j].uid == my_uid;
                    if j == i && !before.contains(p) {
                        assert(out@.last() == p);
                    }
                }
            }
        }
        i = i + 1;
    }
    let known = &table.entries;
    let mut k: usize = 0;
    while k < known.len()
        invariant
            k <= known@.len(),
            known@ == table@,
            out@.no_duplicates(),
            forall|p: u32| out@.contains(p) <==>
                (exists|j: int| 0 <= j < scanned@.len() && scanned@[j].pid == p && scanned@[j].uid == my_uid)
                || (exists|j: int| 0 <= j < k && known@[j].pid == p),
        decreases known.len() - k,
    {
        let pid = known[k].pid;
        let ghost before = out@;
        if !crate::cpuset::contains_index(&out, pid) {
            out.push(pid);
        }
        proof {
            assert forall|p: u32| out@.contains(p) <==>
                (exists|j: int| 0 <= j < scanned@.len() && scanned@[j].pid == p && scanned@[j].uid == my_uid)
                || (exists|j: int| 0 <= j < k + 1 && known@[j].pid == p) by {
                if out@.contains(p) && !before.contains(p) {
                    assert(out@.last() == p);
                    assert(known@[k as int].pid == p);
                }
                if before.contains(p) {
                    let q = choose|q: int| 0 <= q < before.len() && before[q] == p;
                    assert(out@[q] == p);
                }
                if exists|j: int| 0 <= j < k + 1 && known@[j].pid == p {
                    let j = choose|j: int| 0 <= j < k + 1 && known@[j].pid == p;
                    if j == k && !before.contains(p) {
                        assert(out@.last() == p);
                    }
                }
            }
        }
        k = k + 1;
    }
    proof {
        assert(out@.to_set() =~= candidate_set(table@, scanned@, my_uid));
    }
    out
}

impl ProcessFacts {
    /// A field-by-field copy.
    pub fn duplicate(&self) -> (r: ProcessFacts)
        ensures
            r == *self,
    {
        ProcessFacts {
            pid: self.pid,
            name: copy_name(&self.name),
            cpu_usage_millipercent: self.cpu_usage_millipercent,
            memory_bytes: self.memory_bytes,
        }
    }
}

fn find_facts(found: &Vec<ProcessFacts>, pid: u32) -> (r: Option<usize>)
    ensures
        r matches Some(i) ==> i < found@.len() && found_facts(found@, pid) == Some(found@[i as int]),
        r is None ==> found_facts(found@, pid) is None,
{
    let mut i: usize = 0;
    while i < found.len()
        invariant
            i <= found@.len(),
            forall|j: int| 0 <= j < i ==> found@[j].pid != pid,
        decreases found.len() - i,
    {
        if found[i].pid == pid {
            assert(is_first_pid(found@, pid, i as int));
            proof {
                let k = choose|k: int| is_first_pid(found@, pid, k);
                assert(k == i);
            }
            return Some(i);
        }
        i = i + 1;
    }
    None
}

proof fn lemma_found_facts_pid(found: Seq<ProcessFacts>, pid: u32)
    ensures
        found_facts(found, pid) matches Some(f) ==> f.pid == pid,
{
}

proof fn lemma_refreshed_pids(candidates: Seq<u32>, found: Seq<ProcessFacts>)
    ensures
        forall|i: int| 0 <= i < refreshed_spec(candidates, found).len() ==>
            candidates.contains(#[trigger] refreshed_spec(candidates, found)[i].pid),
    decreases candidates.len(),
{
    if candidates.len() > 0 {
        let c = candidates.drop_last();
        lemma_refreshed_pids(c, found);
        lemma_found_facts_pid(found, candidates.last());
        let r = refreshed_spec(candidates, found);
        assert forall|i: int| 0 <= i < r.len() implies candidates.contains(#[trigger] r[i].pid) by {
            if i < refreshed_spec(c, found).len() {
                let k = choose|k: int| 0 <= k < c.len() && c[k] == refreshed_spec(c, found)[i].pid;
                assert(candidates[k] == c[k]);
            } else {
                assert(candidates[candidates.len() - 1] == r[i].pid);
            }
        }
    }
}

/// Refreshes the table with what was `found` of the `candidates`: each
/// candidate found is inserted or updated with its new facts, any other entry
/// is dropped. Facts of processes that were not candidates are ignored.
pub fn refresh_user_processes(table: &mut ProcessTable, candidates: &Vec<u32>, found: &Vec<ProcessFacts>)
    requires
        candidates@.no_duplicates(),
    ensures
        final(table)@ == refreshed_spec(candidates@, found@),
        final(table).wf(),
{
    let mut out: Vec<ProcessFacts> = Vec::new();
    let mut i: usize = 0;
    proof {
        assert(candidates@.take(0) =~= Seq::<u32>::empty());
    }
    while i < candidates.len()
        invariant
            i <= candidates@.len(),
            candidates@.no_duplicates(),
            out@ == refreshed_spec(candidates@.take(i as int), found@),
            pids_unique(out@),
        decreases candidates.len() - i,
    {
        let c = candidates[i];
        proof {
            assert(candidates@.take(i + 1).drop_last() =~= candidates@.take(i as int));
            lemma_refreshed_pids(candidates@.take(i as int), found@);
            lemma_found_facts_pid(found@, c);
        }
        match find_facts(found, c) {
            Some(k) => {
                let ghost before = out@;
                out.push(found[k].duplicate());
                proof {
                    assert forall|a: int, b: int| 0 <= a < out@.len() && 0 <= b < out@.len() && #[trigger] out@[a].pid == #[trigger] out@[b].pid implies a == b by {
                        if a < before.len() && b == before.len() {
                            assert(candidates@.take(i as int).contains(before[a].pid));
                            let q = choose|q: int| 0 <= q < i && candidates@.take(i as int)[q] == before[a].pid;
                            assert(candidates@[q] == candidates@[i as int]);
                        }
                        if b < before.len() && a == before.len() {
                            assert(candidates@.take(i as int).contains(before[b].pid));
                            let q = choose|q: int| 0 <= q < i && candidates@.take(i as int)[q] == before[b].pid;
                            assert(candidates@[q] == candidates@[i as int]);
                        }
                    }
                }
            },
            None => {},
        }
        i = i + 1;
    }
    proof {
        assert(candidates@.take(candidates@.len() as int) =~= candidates@);
    }
    table.entries = out;
}

/// The GPU usage that the list `gpu` attributes to each process.
pub open spec fn usage_map(gpu: Seq<GpuProcessUsage>) -> Attribution {
    Map::new(
        |p: u32| exists|i: int| 0 <= i < gpu.len() && gpu[i].pid == p,
        |p: u32| {
            let e = gpu[choose|i: int| 0 <= i < gpu.len() && gpu[i].pid == p];
            (e.usage_millipercent, e.memory_bytes, e.gpus@)
        },
    )
}

pub open spec fn gpu_usage_of(gpu: Attribution, pid: u32) -> u64 {
    if gpu.contains_key(pid) {
        gpu[pid].0
    } else {
        0
    }
}

pub open spec fn gpu_pids_unique(gpu: Seq<GpuProcessUsage>) -> bool {
    forall|i: int, j: int| 0 <= i < gpu.len() && 0 <= j < gpu.len() && #[trigger] gpu[i].pid == #[trigger] gpu[j].pid ==> i == j
}

/// A process shows some activity: CPU usage, GPU usage or resident memory.
pub open spec fn is_active(f: ProcessFacts, gpu: Attribution) -> bool {
    f.cpu_usage_millipercent > 0 || gpu_usage_of(gpu, f.pid) > 0 || f.memory_bytes > 0
}

/// The tracked processes that a snapshot reports, in table order.
pub open spec fn listed_processes(entries: Seq<ProcessFacts>, gpu: Attribution) -> Seq<ProcessFacts> {
    entries.filter(|f: ProcessFacts| is_active(f, gpu))
}

/// `p` joins the facts `f` with the process's GPU usage, if any; its CPU
/// indices are all of `cpus` where it uses CPU and none otherwise.
pub open spec fn info_matches(p: ProcessInfo, f: ProcessFacts, gpu: Attribution, cpus: Seq<u32>) -> bool {
    &&& p.pid == f.pid
    &&& p.name == f.name
    &&& p.cpu_usage_millipercent == f.cpu_usage_millipercent
    &&& p.cpu_memory_bytes == f.memory_bytes
    &&& p.cpus_indexes@ == (if f.cpu_usage_millipercent > 0 { cpus } else { Seq::<u32>::empty() })
    &&& if gpu.contains_key(f.pid) {
        p.gpu_usage_millipercent == gpu[f.pid].0 && p.gpu_memory_bytes == gpu[f.pid].1 && p.gpus_indexes@ == gpu[f.pid].2
    } else {
        p.gpu_usage_millipercent == 0 && p.gpu_memory_bytes == 0 && p.gpus_indexes@.len() == 0
    }
}

/// A list that names each process of an attribution once, with its entry,
/// has that attribution as its usage map.
pub proof fn lemma_usage_map_of_list(v: Seq<GpuProcessUsage>, m: Attribution)
    requires
        lists_attribution(v, m),
    ensures
        usage_map(v) == m,
        gpu_pids_unique(v),
{
    assert forall|p: u32| #[trigger] usage_map(v).contains_key(p) <==> m.contains_key(p) by {
        if usage_map(v).contains_key(p) {
            let i = choose|i: int| 0 <= i < v.len() && v[i].pid == p;
            assert(m.contains_key(v[i].pid));
        }
    }
    assert forall|p: u32| #[trigger] m.contains_key(p) implies usage_map(v)[p] == m[p] by {
        let i = choose|i: int| 0 <= i < v.len() && v[i].pid == p;
        assert(m.contains_key(v[i].pid));
    }
    assert(usage_map(v) =~= m);
}

fn find_gpu(gpu: &Vec<GpuProcessUsage>, pid: u32) -> (r: Option<usize>)
    requires
        gpu_pids_unique(gpu@),
    ensures
        r matches Some(i) ==> i < gpu@.len() && usage_map(gpu@).contains_key(pid) && usage_map(gpu@)[pid] == (
            gpu@[i as int].usage_millipercent,
            gpu@[i as int].memory_bytes,
            gpu@[i as int].gpus@,
        ),
        r is None ==> !usage_map(gpu@).contains_key(pid),
{
    let mut i: usize = 0;
    while i < gpu.len()
        invariant
            i <= gpu@.len(),
            gpu_pids_unique(gpu@),
            forall|j: int| 0 <= j < i ==> gpu@[j].pid != pid,
        decreases gpu.len() - i,
    {
        if gpu[i].pid == pid {
            proof {
                assert(gpu@[i as int].pid == pid);
                assert(exists|k: int| 0 <= k < gpu@.len() && gpu@[k].pid == pid);
                let k = choose|k: int| 0 <= k < gpu@.len() && gpu@[k].pid == pid;
                assert(gpu@[k].pid == gpu@[i as int].pid);
                assert(k == i);
            }
            return Some(i);
        }
        i = i + 1;
    }
    None
}

/// The process section of a snapshot: each tracked process joined with its
/// GPU usage by pid (none: zero usage and memory, no devices), with all of
/// `cpus` as CPU indices where it uses CPU; processes without CPU usage, GPU
/// usage or resident memory are left out.
pub fn take_processes_snapshot(table: &ProcessTable, gpu_usage: &Vec<GpuProcessUsage>, cpus: &Vec<u32>) -> (r: ProcessesSnapshot)
    requires
        gpu_pids_unique(gpu_usage@),
    ensures
        r.processes@.len() == listed_processes(table@, usage_map(gpu_usage@)).len(),
        forall|i: int| 0 <= i < r.processes@.len() ==>
            info_matches(#[trigger] r.processes@[i], listed_processes(table@, usage_map(gpu_usage@))[i], usage_map(gpu_usage@), cpus@),
        forall|i: int| 0 <= i < r.processes@.len() ==> {
            let p = #[trigger] r.processes@[i];
            p.cpu_usage_millipercent > 0 || p.gpu_usage_millipercent > 0 || p.cpu_memory_bytes > 0
        },
{
    let entries = &table.entries;
    let ghost pred = |f: ProcessFacts| is_active(f, usage_map(gpu_usage@));
    let mut out: Vec<ProcessInfo> = Vec::new();
    let mut i: usize = 0;
    proof {
        assert(entries@.take(0) =~= Seq::<ProcessFacts>::empty());
    }
    while i < entries.len()
        invariant
            i <= entries@.len(),
            entries@ == table@,
            gpu_pids_unique(gpu_usage@),
            pred == (|f: ProcessFacts| is_active(f, usage_map(gpu_usage@))),
            out@.len() == entries@.take(i as int).filter(pred).len(),
            forall|j: int| 0 <= j < out@.len() ==>
                info_matches(#[trigger] out@[j], entries@.take(i as int).filter(pred)[j], usage_map(gpu_usage@), cpus@),
            forall|j: int| 0 <= j < out@.len() ==> {
                let p = #[trigger] out@[j];
                p.cpu_usage_millipercent > 0 || p.gpu_usage_millipercent > 0 || p.cpu_memory_bytes > 0
            },
        decreases entries.len() - i,
    {
        proof {
            assert(entries@.take(i + 1).drop_last() =~= entries@.take(i as int));
            reveal_with_fuel(Seq::filter, 1);
        }
        let f = &entries[i];
        let (gpu_usage_millipercent, gpu_memory_bytes, gpus_indexes) = match find_gpu(gpu_usage, f.pid) {
            Some(k) => (gpu_usage[k].usage_millipercent, gpu_usage[k].memory_bytes, copy_indices(&gpu_usage[k].gpus)),
            None => (0u64, 0u64, Vec::new()),
        };
        let active = f.cpu_usage_millipercent > 0 || gpu_usage_millipercent > 0 || f.memory_bytes > 0;
        if active {
            let cpus_indexes = if f.cpu_usage_millipercent > 0 { copy_indices(cpus) } else { Vec::new() };
            let info = ProcessInfo {
                pid: f.pid,
                name: copy_name(&f.name),
                cpu_usage_millipercent: f.cpu_usage_millipercent,
                cpu_memory_bytes: f.memory_bytes,
                gpu_usage_millipercent,
                gpu_memory_bytes,
                cpus_indexes,
                gpus_indexes,
            };
            assert(pred(entries@[i as int]));
            out.push(info);
            proof {
                let fl = entries@.take(i + 1).filter(pred);
                assert(fl[out@.len() - 1] == entries@[i as int]);
            }
        } else {
            assert(!pred(entries@[i as int]));
        }
        i = i + 1;
    }
    proof {
        assert(entries@.take(entries@.len() as int) =~= entries@);
    }
    ProcessesSnapshot { processes: out }
}

/// A process that the table does not track, and that the process directory
/// shows only under other users, is not tracked after the refresh and never
/// appears in the snapshot, whatever it consumes.
pub proof fn lemma_foreign_process_never_reported(
    table: ProcessTable,
    scanned: Seq<ProcEntry>,
    my_uid: u32,
    candidates: Seq<u32>,
    found: Seq<ProcessFacts>,
    gpu: Attribution,
    pid: u32,
)
    requires
        candidates.to_set() == candidate_set(table@, scanned, my_uid),
        !has_pid(table@, pid),
        forall|i: int| 0 <= i < scanned.len() && #[trigger] scanned[i].pid == pid ==> scanned[i].uid != my_uid,
    ensures
        !has_pid(refreshed_spec(candidates, found), pid),
        forall|i: int| 0 <= i < listed_processes(refreshed_spec(candidates, found), gpu).len() ==>
            (#[trigger] listed_processes(refreshed_spec(candidates, found), gpu)[i]).pid != pid,
{
    let r = refreshed_spec(candidates, found);
    lemma_refreshed_pids(candidates, found);
    assert(!candidate_set(table@, scanned, my_uid).contains(pid));
    assert(!candidates.contains(pid)) by {
        if candidates.contains(pid) {
            assert(candidates.to_set().contains(pid));
        }
    }
    assert(!has_pid(r, pid)) by {
        if has_pid(r, pid) {
            let i = choose|i: int| 0 <= i < r.len() && r[i].pid == pid;
            assert(candidates.contains(r[i].pid));
        }
    }
    let pred = |f: ProcessFacts| is_active(f, gpu);
    assert forall|i: int| 0 <= i < listed_processes(r, gpu).len() implies (#[trigger] listed_processes(r, gpu)[i]).pid != pid by {
        assert(listed_processes(r, gpu) == r.filter(pred));
        let e = r.filter(pred)[i];
        assert(r.filter(pred).contains(e));
        r.lemma_filter_contains_rev(pred, e);
        let k = choose|k: int| 0 <= k < r.len() && r[k] == e;
        assert(r[k].pid != pid);
    }
}

} // verus!
