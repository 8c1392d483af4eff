use jobscope_agent::cgroup::{parse_cgroup_membership, parse_cgroup_record, CgroupVersion};

const V1: &[u8] = b"/sys/fs/cgroup/memory";
const V2: &[u8] = b"/sys/fs/cgroup";

#[test]
fn unified_record() {
    let l = parse_cgroup_membership(b"0::/foo\n", V1, V2).unwrap();
    assert_eq!(l.path, b"/sys/fs/cgroup/foo".to_vec());
    assert_eq!(l.version, CgroupVersion::V2);
}

#[test]
fn legacy_memory_record() {
    let l = parse_cgroup_membership(b"5:memory:/foo", V1, V2).unwrap();
    assert_eq!(l.path, b"/sys/fs/cgroup/memory/foo".to_vec());
    assert_eq!(l.version, CgroupVersion::V1);
}

#[test]
fn other_controller_is_skipped() {
    assert!(parse_cgroup_record(b"5:cpu:/foo", V1, V2).is_none());
    let l = parse_cgroup_membership(b"5:cpu:/foo\n0::/bar\n", V1, V2).unwrap();
    assert_eq!(l.path, b"/sys/fs/cgroup/bar".to_vec());
    assert_eq!(l.version, CgroupVersion::V2);
}

#[test]
fn first_match_wins() {
    let text = b"12:pids:/a\n4:cpu,memory:/job/1\n0::/unified\n";
    let l = parse_cgroup_membership(text, V1, V2).unwrap();
    assert_eq!(l.path, b"/sys/fs/cgroup/memory/job/1".to_vec());
    assert_eq!(l.version, CgroupVersion::V1);
}

#[test]
fn path_keeps_later_colons() {
    let l = parse_cgroup_membership(b"0::/a:b", V1, V2).unwrap();
    assert_eq!(l.path, b"/sys/fs/cgroup/a:b".to_vec());
}

#[test]
fn no_matching_record() {
    assert!(parse_cgroup_membership(b"", V1, V2).is_none());
    assert!(parse_cgroup_membership(b"3:cpuset:/x\nnonsense\n", V1, V2).is_none());
    assert!(parse_cgroup_membership(b"5:memoryx:/x", V1, V2).is_none());
}
