use jobscope_agent::accounting::{
    env_memory_total, resolve_cpu_set, resolve_memory_total, resolve_memory_used, sum_rss, take_cpus_snapshot,
    take_memory_load, MemorySources, SchedulerEnv, MIB,
};
use jobscope_agent::cgroup::{parse_memory_limit, CgroupVersion};
use jobscope_agent::cpuset::{cpus_allowed_from_status, parse_cpu_list};
use jobscope_agent::metrics::CPUInfo;
use jobscope_agent::mode::AgentMode;
use jobscope_agent::text::{parse_counter, parse_decimal, split_fields, trim};

fn no_env() -> SchedulerEnv {
    SchedulerEnv { mem_override_mib: None, mem_per_cpu_mib: None, mem_per_node_mib: None, cpus_on_node: None }
}

fn sources(used: u64, total: u64) -> MemorySources {
    MemorySources {
        host_used_bytes: used,
        host_total_bytes: total,
        cgroup_limit_bytes: None,
        cgroup_usage_bytes: None,
        cgroup_peak_bytes: None,
        process_rss_bytes: Vec::new(),
    }
}

fn cpu(index: u32) -> CPUInfo {
    CPUInfo { index, name: Some(format!("cpu{}", index)), usage_millipercent: 1000 * index as u64 }
}

#[test]
fn split_fields_keeps_empty_fields() {
    let f = split_fields(b"0::/foo", b':');
    assert_eq!(f, vec![b"0".to_vec(), Vec::new(), b"/foo".to_vec()]);
    assert_eq!(split_fields(b"", b','), vec![Vec::<u8>::new()]);
}

#[test]
fn trim_and_decimal() {
    assert_eq!(trim(b" \t42\n"), b"42".to_vec());
    assert_eq!(parse_decimal(b"18446744073709551615"), Some(u64::MAX));
    assert_eq!(parse_decimal(b"18446744073709551616"), None);
    assert_eq!(parse_decimal(b""), None);
    assert_eq!(parse_decimal(b"12a"), None);
    assert_eq!(parse_counter(b"4096\n"), Some(4096));
}

#[test]
fn cpu_list_ranges_and_singles() {
    assert_eq!(parse_cpu_list(b"0-2,4"), Some(vec![0, 1, 2, 4]));
    assert_eq!(parse_cpu_list(b"0-2,4\n"), Some(vec![0, 1, 2, 4]));
    assert_eq!(parse_cpu_list(b"7"), Some(vec![7]));
    assert_eq!(parse_cpu_list(b"0,0-1"), Some(vec![0, 1]));
}

#[test]
fn cpu_list_malformed_is_absent() {
    assert_eq!(parse_cpu_list(b""), None);
    assert_eq!(parse_cpu_list(b"3-1"), None);
    assert_eq!(parse_cpu_list(b"0,,2"), None);
    assert_eq!(parse_cpu_list(b"x"), None);
    assert_eq!(parse_cpu_list(b"1-2-3"), None);
    assert_eq!(parse_cpu_list(b"4294967296"), None);
}

#[test]
fn cpu_set_resolution_order() {
    let mut env = no_env();
    assert_eq!(resolve_cpu_set(AgentMode::Local, Some(vec![3]), &env, 4), vec![0, 1, 2, 3]);
    assert_eq!(resolve_cpu_set(AgentMode::Slurm, None, &env, 3), vec![0, 1, 2]);
    env.cpus_on_node = Some(2);
    assert_eq!(resolve_cpu_set(AgentMode::Slurm, None, &env, 8), vec![0, 1]);
    assert_eq!(resolve_cpu_set(AgentMode::Slurm, Some(vec![0, 1, 2, 4]), &env, 8), vec![0, 1, 2, 4]);
}

#[test]
fn memory_per_cpu_against_cgroup_limit() {
    let mut env = no_env();
    env.mem_per_cpu_mib = Some(1024);
    assert_eq!(env_memory_total(&env, 4), Some(4096 * MIB));
    assert_eq!(resolve_memory_total(&env, 4, None, 1 << 40), 4096 * MIB);
    assert_eq!(resolve_memory_total(&env, 4, Some(2048 * MIB), 1 << 40), 2048 * MIB);
}

#[test]
fn memory_total_precedence() {
    let env = SchedulerEnv {
        mem_override_mib: Some(100),
        mem_per_cpu_mib: Some(1024),
        mem_per_node_mib: Some(8192),
        cpus_on_node: Some(4),
    };
    assert_eq!(env_memory_total(&env, 4), Some(100 * MIB));
    let env = SchedulerEnv { mem_override_mib: None, ..env };
    assert_eq!(env_memory_total(&env, 4), Some(4096 * MIB));
    let env = SchedulerEnv { mem_per_cpu_mib: None, ..env };
    assert_eq!(env_memory_total(&env, 4), Some(8192 * MIB));
    assert_eq!(resolve_memory_total(&env, 4, Some(1 << 40), 1), 8192 * MIB);
    assert_eq!(resolve_memory_total(&no_env(), 4, Some(5000), 9000), 5000);
    assert_eq!(resolve_memory_total(&no_env(), 4, None, 9000), 9000);
}

#[test]
fn memory_total_overflow_falls_through() {
    let env = SchedulerEnv {
        mem_override_mib: Some(u64::MAX),
        mem_per_cpu_mib: Some(u64::MAX / 2),
        mem_per_node_mib: Some(16),
        cpus_on_node: None,
    };
    assert_eq!(env_memory_total(&env, 4), Some(16 * MIB));
}

#[test]
fn unlimited_v2_limit_falls_through() {
    let limit = parse_memory_limit(CgroupVersion::V2, b"max\n");
    assert_eq!(limit, None);
    assert_eq!(resolve_memory_total(&no_env(), 4, limit, 12345), 12345);
    assert_eq!(parse_memory_limit(CgroupVersion::V2, b"2147483648\n"), Some(2147483648));
}

#[test]
fn v1_limit_sentinel() {
    assert_eq!(parse_memory_limit(CgroupVersion::V1, b"9223372036854771712\n"), None);
    assert_eq!(parse_memory_limit(CgroupVersion::V1, b"1073741824"), Some(1073741824));
    assert_eq!(parse_memory_limit(CgroupVersion::V1, b"garbage"), None);
}

#[test]
fn used_memory_takes_larger_source() {
    assert_eq!(resolve_memory_used(Some(500), &vec![100, 200], 9), 500);
    assert_eq!(resolve_memory_used(Some(100), &vec![100, 200], 9), 300);
    assert_eq!(resolve_memory_used(None, &vec![100, 200], 9), 300);
    assert_eq!(resolve_memory_used(Some(7), &Vec::new(), 9), 7);
    assert_eq!(resolve_memory_used(None, &Vec::new(), 9), 9);
    assert_eq!(sum_rss(&vec![u64::MAX, 1]), u64::MAX);
}

#[test]
fn memory_load_is_clamped() {
    let env = no_env();
    let load = take_memory_load(AgentMode::Local, &sources(900, 800), &env, 4);
    assert_eq!((load.used_bytes, load.total_bytes, load.peak_bytes), (800, 800, None));
    let mut src = sources(10, 1 << 40);
    src.cgroup_limit_bytes = Some(1000);
    src.cgroup_usage_bytes = Some(1500);
    src.cgroup_peak_bytes = Some(2000);
    let load = take_memory_load(AgentMode::Slurm, &src, &env, 4);
    assert_eq!((load.used_bytes, load.total_bytes, load.peak_bytes), (1000, 1000, Some(2000)));
    assert!(load.used_bytes <= load.total_bytes);
}

#[test]
fn cpus_snapshot_keeps_allocated_cpus() {
    let cpus = vec![cpu(0), cpu(1), cpu(2), cpu(3), cpu(4)];
    let env = no_env();
    let snap = take_cpus_snapshot(AgentMode::Slurm, &cpus, Some(vec![1, 3]), &env, &sources(5, 10));
    let idx: Vec<u32> = snap.cpus.iter().map(|c| c.index).collect();
    assert_eq!(idx, vec![1, 3]);
    assert_eq!(snap.cpus[1].name, Some("cpu3".to_string()));
    assert_eq!(snap.cpus[1].usage_millipercent, 3000);
    let snap = take_cpus_snapshot(AgentMode::Local, &cpus, Some(vec![1, 3]), &env, &sources(5, 10));
    assert_eq!(snap.cpus.len(), 5);
    assert_eq!(snap.memory.used_bytes, 5);
}

#[test]
fn cpus_snapshot_memory_per_cpu_uses_cpu_count() {
    let cpus = vec![cpu(0), cpu(1), cpu(2), cpu(3)];
    let mut env = no_env();
    env.mem_per_cpu_mib = Some(1024);
    let mut src = sources(5, 1 << 40);
    src.cgroup_limit_bytes = Some(2048 * MIB);
    let snap = take_cpus_snapshot(AgentMode::Slurm, &cpus, Some(vec![0, 1, 2, 4]), &env, &src);
    assert_eq!(snap.memory.total_bytes, 2048 * MIB);
    let snap = take_cpus_snapshot(AgentMode::Slurm, &cpus, Some(vec![0, 1]), &env, &sources(5, 1 << 40));
    assert_eq!(snap.memory.total_bytes, 2048 * MIB);
}

#[test]
fn allowed_cpus_from_status_file() {
    let status = b"Name:\tbash\nCpus_allowed:\tff\nCpus_allowed_list:\t0-2,4\nMems_allowed_list:\t0\n";
    assert_eq!(cpus_allowed_from_status(status), Some(vec![0, 1, 2, 4]));
    assert_eq!(cpus_allowed_from_status(b"Name:\tbash\n"), None);
    assert_eq!(cpus_allowed_from_status(b"Cpus_allowed_list:\t\n"), None);
}
