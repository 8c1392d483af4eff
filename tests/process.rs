use jobscope_agent::accounting::SchedulerEnv;
use jobscope_agent::collectors::{take_global_snapshot, CycleReadings};
use jobscope_agent::gpu::{ContextUsage, DeviceContexts, GpuProcessUsage, GpuReading};
use jobscope_agent::metrics::CPUInfo;
use jobscope_agent::mode::AgentMode;
use jobscope_agent::process::{
    candidate_pids, refresh_user_processes, take_processes_snapshot, ProcEntry, ProcessFacts, ProcessTable,
};

fn facts(pid: u32, cpu: u64, mem: u64) -> ProcessFacts {
    ProcessFacts { pid, name: Some(format!("p{}", pid)), cpu_usage_millipercent: cpu, memory_bytes: mem }
}

fn table_with(found: Vec<ProcessFacts>) -> ProcessTable {
    let mut table = ProcessTable::new();
    let pids: Vec<u32> = found.iter().map(|f| f.pid).collect();
    refresh_user_processes(&mut table, &pids, &found);
    table
}

#[test]
fn candidates_are_owned_and_known() {
    let table = table_with(vec![facts(50, 0, 1)]);
    let scanned = vec![
        ProcEntry { pid: 10, uid: 1000 },
        ProcEntry { pid: 11, uid: 0 },
        ProcEntry { pid: 12, uid: 1000 },
        ProcEntry { pid: 12, uid: 1000 },
    ];
    assert_eq!(candidate_pids(&table, &scanned, 1000), vec![10, 12, 50]);
    assert_eq!(candidate_pids(&ProcessTable::new(), &Vec::new(), 1000), Vec::<u32>::new());
}

#[test]
fn foreign_untracked_process_never_reported() {
    let table = ProcessTable::new();
    let scanned = vec![ProcEntry { pid: 10, uid: 1000 }, ProcEntry { pid: 11, uid: 0 }];
    let cands = candidate_pids(&table, &scanned, 1000);
    assert_eq!(cands, vec![10]);
    let mut table = table;
    // the refresh also reports the foreign process, busy: it is ignored
    refresh_user_processes(&mut table, &cands, &vec![facts(10, 100, 5), facts(11, 99_000, 1 << 30)]);
    let snap = take_processes_snapshot(&table, &Vec::new(), &vec![0, 1]);
    let pids: Vec<u32> = snap.processes.iter().map(|p| p.pid).collect();
    assert_eq!(pids, vec![10]);
}

#[test]
fn refresh_updates_and_drops() {
    let mut table = table_with(vec![facts(1, 0, 10), facts(2, 0, 20)]);
    refresh_user_processes(&mut table, &vec![1, 2, 3], &vec![facts(3, 5, 30), facts(1, 7, 11)]);
    let e = table.entries();
    assert_eq!(e.len(), 2);
    assert_eq!((e[0].pid, e[0].cpu_usage_millipercent, e[0].memory_bytes), (1, 7, 11));
    assert_eq!((e[1].pid, e[1].memory_bytes), (3, 30));
}

#[test]
fn idle_processes_are_dropped() {
    let table = table_with(vec![facts(1, 0, 0), facts(2, 0, 4096), facts(3, 1500, 0), facts(4, 0, 0)]);
    let gpu = vec![GpuProcessUsage { pid: 4, usage_millipercent: 2500, memory_bytes: 77, gpus: vec![1] }];
    let snap = take_processes_snapshot(&table, &gpu, &vec![0, 1, 2]);
    let pids: Vec<u32> = snap.processes.iter().map(|p| p.pid).collect();
    assert_eq!(pids, vec![2, 3, 4]);
    let p2 = &snap.processes[0];
    assert!(p2.cpus_indexes.is_empty());
    assert_eq!(p2.gpu_usage_millipercent, 0);
    assert!(p2.gpus_indexes.is_empty());
    let p3 = &snap.processes[1];
    assert_eq!(p3.cpus_indexes, vec![0, 1, 2]);
    assert_eq!(p3.name, Some("p3".to_string()));
    let p4 = &snap.processes[2];
    assert_eq!((p4.gpu_usage_millipercent, p4.gpu_memory_bytes), (2500, 77));
    assert_eq!(p4.gpus_indexes, vec![1]);
    assert!(p4.cpus_indexes.is_empty());
}

#[test]
fn zero_gpu_usage_with_memory_only_is_idle() {
    let table = table_with(vec![facts(9, 0, 0)]);
    let gpu = vec![GpuProcessUsage { pid: 9, usage_millipercent: 0, memory_bytes: 500, gpus: vec![0] }];
    assert!(take_processes_snapshot(&table, &gpu, &vec![0]).processes.is_empty());
}

#[test]
fn global_snapshot_joins_sections() {
    let table = table_with(vec![facts(10, 0, 0), facts(11, 2000, 100)]);
    let readings = CycleReadings {
        timestamp: 1_700_000_000,
        cpus: vec![
            CPUInfo { index: 0, name: None, usage_millipercent: 1 },
            CPUInfo { index: 1, name: None, usage_millipercent: 2 },
            CPUInfo { index: 2, name: None, usage_millipercent: 3 },
        ],
        allowed_cpus: Some(vec![0, 2]),
        env: SchedulerEnv { mem_override_mib: None, mem_per_cpu_mib: None, mem_per_node_mib: None, cpus_on_node: None },
        host_used_bytes: 50,
        host_total_bytes: 1000,
        cgroup_limit_bytes: Some(400),
        cgroup_usage_bytes: Some(30),
        cgroup_peak_bytes: Some(350),
        gpus: vec![GpuReading { index: 0, name: None, utilization_percent: Some(50), memory: Some((1, 2)) }],
        gpu_contexts: vec![DeviceContexts {
            index: 0,
            utilization_percent: Some(50),
            compute: Some(vec![ContextUsage { pid: 10, used_memory: Some(100) }]),
            graphics: None,
        }],
    };
    let snap = take_global_snapshot(AgentMode::Slurm, &table, readings);
    assert_eq!(snap.timestamp, 1_700_000_000);
    let idx: Vec<u32> = snap.cpus_snapshot.cpus.iter().map(|c| c.index).collect();
    assert_eq!(idx, vec![0, 2]);
    assert_eq!(snap.cpus_snapshot.memory.total_bytes, 400);
    assert_eq!(snap.cpus_snapshot.memory.used_bytes, 100);
    assert_eq!(snap.cpus_snapshot.memory.peak_bytes, Some(350));
    assert_eq!(snap.gpus_snapshot.gpus.len(), 1);
    let procs = &snap.processes_snapshot.processes;
    assert_eq!(procs.len(), 2);
    assert_eq!(procs[0].pid, 10);
    assert_eq!(procs[0].gpu_usage_millipercent, 50_000);
    assert!(procs[0].cpus_indexes.is_empty());
    assert_eq!(procs[1].pid, 11);
    assert_eq!(procs[1].cpus_indexes, vec![0, 2]);
}
