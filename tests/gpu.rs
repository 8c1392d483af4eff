use jobscope_agent::gpu::{
    collect_gpu_usage, context_share, device_memory, take_gpus_snapshot, ContextUsage, DeviceContexts, GpuProcessUsage,
    GpuReading,
};

const MB: u64 = 1_000_000;

fn ctx(pid: u32, mem: Option<u64>) -> ContextUsage {
    ContextUsage { pid, used_memory: mem }
}

fn entry(v: &[GpuProcessUsage], pid: u32) -> &GpuProcessUsage {
    v.iter().find(|e| e.pid == pid).unwrap()
}

#[test]
fn share_follows_memory_proportion() {
    let dev = DeviceContexts {
        index: 0,
        utilization_percent: Some(50),
        compute: Some(vec![ctx(10, Some(100 * MB)), ctx(11, Some(300 * MB))]),
        graphics: Some(Vec::new()),
    };
    assert_eq!(device_memory(&dev), 400 * MB);
    let usage = collect_gpu_usage(&vec![dev]);
    assert_eq!(usage.len(), 2);
    let a = entry(&usage, 10);
    let b = entry(&usage, 11);
    assert_eq!(a.usage_millipercent, 12_500);
    assert_eq!(b.usage_millipercent, 37_500);
    assert_eq!(a.usage_millipercent + b.usage_millipercent, 50_000);
    assert_eq!(a.memory_bytes, 100 * MB);
    assert_eq!(b.gpus, vec![0]);
}

#[test]
fn context_share_values() {
    assert_eq!(context_share(100, 400, 50), 12_500);
    assert_eq!(context_share(1, 3, 100), 33_333);
    assert_eq!(context_share(0, 0, 90), 0);
    assert_eq!(context_share(5, 0, 90), 0);
    assert_eq!(context_share(u64::MAX, 1, u32::MAX), u64::MAX);
}

#[test]
fn process_in_both_lists_counts_twice() {
    let dev = DeviceContexts {
        index: 3,
        utilization_percent: Some(40),
        compute: Some(vec![ctx(7, Some(100))]),
        graphics: Some(vec![ctx(7, Some(100))]),
    };
    let usage = collect_gpu_usage(&vec![dev]);
    assert_eq!(usage.len(), 1);
    assert_eq!(usage[0].usage_millipercent, 40_000);
    assert_eq!(usage[0].memory_bytes, 200);
    assert_eq!(usage[0].gpus, vec![3]);
}

#[test]
fn usage_accumulates_across_devices() {
    let d0 = DeviceContexts {
        index: 0,
        utilization_percent: Some(100),
        compute: Some(vec![ctx(1, Some(50)), ctx(2, Some(50))]),
        graphics: None,
    };
    let d1 = DeviceContexts {
        index: 1,
        utilization_percent: Some(20),
        compute: Some(vec![ctx(1, Some(10))]),
        graphics: None,
    };
    let usage = collect_gpu_usage(&vec![d0, d1]);
    let p1 = entry(&usage, 1);
    assert_eq!(p1.usage_millipercent, 50_000 + 20_000);
    assert_eq!(p1.memory_bytes, 60);
    assert_eq!(p1.gpus, vec![0, 1]);
    assert_eq!(entry(&usage, 2).gpus, vec![0]);
}

#[test]
fn unreadable_lists_and_missing_memory() {
    let no_compute = DeviceContexts {
        index: 0,
        utilization_percent: Some(80),
        compute: None,
        graphics: Some(vec![ctx(4, Some(10))]),
    };
    let usage = collect_gpu_usage(&vec![no_compute]);
    assert_eq!(usage.len(), 1);
    assert_eq!(usage[0].pid, 4);
    assert_eq!(usage[0].usage_millipercent, 80_000);
    assert_eq!(usage[0].memory_bytes, 10);
    assert_eq!(usage[0].gpus, vec![0]);
    let unknown_mem = DeviceContexts {
        index: 1,
        utilization_percent: None,
        compute: Some(vec![ctx(5, None)]),
        graphics: None,
    };
    let usage = collect_gpu_usage(&vec![unknown_mem]);
    assert_eq!(usage.len(), 1);
    assert_eq!(usage[0].usage_millipercent, 0);
    assert_eq!(usage[0].memory_bytes, 0);
    assert_eq!(usage[0].gpus, vec![1]);
    assert!(collect_gpu_usage(&Vec::new()).is_empty());
}

#[test]
fn inventory_drops_failed_devices() {
    let readings = vec![
        GpuReading { index: 0, name: Some("A100".to_string()), utilization_percent: Some(30), memory: Some((10, 100)) },
        GpuReading { index: 1, name: None, utilization_percent: None, memory: Some((10, 100)) },
        GpuReading { index: 2, name: None, utilization_percent: Some(5), memory: None },
        GpuReading { index: 3, name: None, utilization_percent: Some(7), memory: Some((200, 100)) },
    ];
    let snap = take_gpus_snapshot(&readings);
    assert_eq!(snap.gpus.len(), 2);
    assert_eq!(snap.gpus[0].index, 0);
    assert_eq!(snap.gpus[0].name, Some("A100".to_string()));
    assert_eq!(snap.gpus[0].usage_millipercent, 30_000);
    assert_eq!(snap.gpus[0].memory_load.used_bytes, 10);
    assert_eq!(snap.gpus[1].index, 3);
    assert_eq!(snap.gpus[1].name, None);
    assert_eq!(snap.gpus[1].memory_load.used_bytes, 100);
    assert_eq!(snap.gpus[1].memory_load.total_bytes, 100);
    assert!(take_gpus_snapshot(&Vec::new()).gpus.is_empty());
}

#[test]
fn graphics_counts_when_compute_unreadable() {
    let d0 = DeviceContexts {
        index: 0,
        utilization_percent: Some(50),
        compute: Some(vec![ctx(9, Some(100))]),
        graphics: None,
    };
    let d1 = DeviceContexts {
        index: 1,
        utilization_percent: Some(50),
        compute: None,
        graphics: Some(vec![ctx(9, Some(100))]),
    };
    let usage = collect_gpu_usage(&vec![d0, d1]);
    assert_eq!(usage.len(), 1);
    assert_eq!(usage[0].usage_millipercent, 100_000);
    assert_eq!(usage[0].memory_bytes, 200);
    assert_eq!(usage[0].gpus, vec![0, 1]);
}
