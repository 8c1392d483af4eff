//! Where the job's cgroup lives, and what its memory counter files say.

use vstd::prelude::*;
use crate::text::{decimal_spec, split_spec, trim_spec, parse_counter, split_fields, trim};

verus! {

/// Which cgroup hierarchy a location belongs to.
#[derive(Clone, Copy, Debug, PartialEq, Eq, Structural)]
pub enum CgroupVersion {
    /// The legacy hierarchy, one mount per controller.
    V1,
    /// The unified hierarchy.
    V2,
}

/// The directory that holds the job's memory accounting files.
#[derive(Clone, Debug)]
pub struct CgroupLocation {
    pub path: Vec<u8>,
    pub version: CgroupVersion,
}

/// Limits at or above this many bytes are the v1 way of saying "no limit".
pub const V1_UNLIMITED_THRESHOLD: u64 = 0x1000_0000_0000_0000;

pub open spec fn is_first(s: Seq<u8>, b: u8, i: int) -> bool {
    0 <= i < s.len() && s[i] == b && forall|j: int| 0 <= j < i ==> s[j] != b
}

/// The position of the first `b` in `s`.
pub open spec fn first_index(s: Seq<u8>, b: u8) -> Option<int> {
    if exists|i: int| is_first(s, b, i) {
        Some(choose|i: int| is_first(s, b, i))
    } else {
        None
    }
}

/// The word `memory`.
pub open spec fn memory_word() -> Seq<u8> {
    seq![109u8, 101u8, 109u8, 111u8, 114u8, 121u8]
}

/// The word `max`, which a v2 limit file holds when there is no limit.
pub open spec fn max_word() -> Seq<u8> {
    seq![109u8, 97u8, 120u8]
}

/// The controllers field and the path of a record `hierarchy:controllers:path`.
pub open spec fn record_fields(line: Seq<u8>) -> Option<(Seq<u8>, Seq<u8>)> {
    match first_index(line, 58u8) {
        Some(i) => {
            let rest = line.skip(i + 1);
            match first_index(rest, 58u8) {
                Some(j) => Some((rest.take(j), rest.skip(j + 1))),
                None => None,
            }
        },
        None => None,
    }
}

/// The location that one record of the membership file gives, if any: an empty
/// controllers field is the unified hierarchy, one that lists `memory` the v1
/// memory controller.
pub open spec fn record_location(line: Seq<u8>, v1_root: Seq<u8>, v2_root: Seq<u8>) -> Option<(Seq<u8>, CgroupVersion)> {
    match record_fields(line) {
        Some((controllers, path)) => {
            if controllers.len() == 0 {
                Some((v2_root + path, CgroupVersion::V2))
            } else if split_spec(controllers, 44u8).contains(memory_word()) {
                Some((v1_root + path, CgroupVersion::V1))
            } else {
                None
            }
        },
        None => None,
    }
}

/// The location given by the first record among `lines` that gives one.
pub open spec fn first_location(lines: Seq<Seq<u8>>, v1_root: Seq<u8>, v2_root: Seq<u8>) -> Option<(Seq<u8>, CgroupVersion)>
    decreases lines.len(),
{
    if lines.len() == 0 {
        None
    } else {
        match record_location(lines[0], v1_root, v2_root) {
            Some(l) => Some(l),
            None => first_location(lines.drop_first(), v1_root, v2_root),
        }
    }
}

/// The location that a whole membership file gives: its first matching line wins.
pub open spec fn membership_spec(text: Seq<u8>, v1_root: Seq<u8>, v2_root: Seq<u8>) -> Option<(Seq<u8>, CgroupVersion)> {
    first_location(split_spec(text, 10u8), v1_root, v2_root)
}

/// What a v2 `memory.max` file says: `max` is no limit.
pub open spec fn v2_limit_spec(text: Seq<u8>) -> Option<u64> {
    if trim_spec(text) == max_word() {
        None
    } else {
        decimal_spec(trim_spec(text))
    }
}

/// What a v1 `memory.limit_in_bytes` file says: a huge value is no limit.
pub open spec fn v1_limit_spec(text: Seq<u8>) -> Option<u64> {
    match decimal_spec(trim_spec(text)) {
        Some(v) => if v < V1_UNLIMITED_THRESHOLD { Some(v) } else { None },
        None => None,
    }
}

pub open spec fn limit_spec(version: CgroupVersion, text: Seq<u8>) -> Option<u64> {
    match version {
        CgroupVersion::V1 => v1_limit_spec(text),
        CgroupVersion::V2 => v2_limit_spec(text),
    }
}

/// The position of the first `b` in `s`.
pub fn find_byte(s: &[u8], b: u8) -> (r: Option<usize>)
    ensures
        r matches Some(i) ==> i < s.len() && first_index(s@, b) == Some(i as int),
        r is None ==> first_index(s@, b) is None,
{
    let mut i: usize = 0;
    while i < s.len()
        invariant
            i <= s.len(),
            forall|j: int| 0 <= j < i ==> s@[j] != b,
        decreases s.len() - i,
    {
        if s[i] == b {
            assert(is_first(s@, b, i as int));
            return Some(i);
        }
        i = i + 1;
    }
    None
}

fn copy_range(s: &[u8], from: usize, to: usize) -> (r: Vec<u8>)
    requires
        from <= to <= s@.len(),
    ensures
        r@ == s@.subrange(from as int, to as int),
{
    let mut r: Vec<u8> = Vec::new();
    let mut i: usize = from;
    while i < to
        invariant
            from <= i <= to <= s@.len(),
            r@ =~= s@.subrange(from as int, i as int),
        decreases to - i,
    {
        r.push(s[i]);
        i = i + 1;
    }
    r
}

fn concat(a: &[u8], b: &[u8]) -> (r: Vec<u8>)
    ensures
        r@ == a@ + b@,
{
    let mut r: Vec<u8> = Vec::new();
    let mut i: usize = 0;
    while i < a.len()
        invariant
            i <= a@.len(),
            r@ =~= a@.take(i as int),
        decreases a.len() - i,
    {
        r.push(a[i]);
        i = i + 1;
    }
    let mut j: usize = 0;
    while j < b.len()
        invariant
            j <= b@.len(),
            r@ =~= a@ + b@.take(j as int),
        decreases b.len() - j,
    {
        r.push(b[j]);
        j = j + 1;
    }
    assert(a@.take(a@.len() as int) =~= a@);
    assert(b@.take(b@.len() as int) =~= b@);
    r
}

fn same_bytes(s: &[u8], w: &[u8]) -> (r: bool)
    ensures
        r == (s@ == w@),
{
    if s.len() != w.len() {
        return false;
    }
    let mut i: usize = 0;
    while i < s.len()
        invariant
            i <= s@.len(),
            s@.len() == w@.len(),
            forall|j: int| 0 <= j < i ==> s@[j] == w@[j],
        decreases s.len() - i,
    {
        if s[i] != w[i] {
            assert(s@[i as int] != w@[i as int]);
            return false;
        }
        i = i + 1;
    }
    assert(s@ =~= w@);
    true
}

fn lists_memory(controllers: &[u8]) -> (r: bool)
    ensures
        r == split_spec(controllers@, 44u8).contains(memory_word()),
{
    let names = split_fields(controllers, 44u8);
    let word: Vec<u8> = vec![109u8, 101u8, 109u8, 111u8, 114u8, 121u8];
    assert(word@ =~= memory_word());
    let mut k: usize = 0;
    while k < names.len()
        invariant
            k <= names@.len(),
            word@ == memory_word(),
            names@.len() == split_spec(controllers@, 44u8).len(),
            forall|j: int| 0 <= j < names@.len() ==> #[trigger] names@[j]@ == split_spec(controllers@, 44u8)[j],
            forall|j: int| 0 <= j < k ==> names@[j]@ != memory_word(),
        decreases names@.len() - k,
    {
        if same_bytes(names[k].as_slice(), word.as_slice()) {
            assert(split_spec(controllers@, 44u8)[k as int] == memory_word());
            return true;
        }
        k = k + 1;
    }
    proof {
        let fs = split_spec(controllers@, 44u8);
        if fs.contains(memory_word()) {
            let j = choose|j: int| 0 <= j < fs.len() && fs[j] == memory_word();
            assert(names@[j]@ == fs[j]);
        }
    }
    false
}

/// The location that one record of the membership file gives, if any.
pub fn parse_cgroup_record(line: &[u8], v1_root: &[u8], v2_root: &[u8]) -> (r: Option<CgroupLocation>)
    ensures
        r is None ==> record_location(line@, v1_root@, v2_root@) is None,
        r matches Some(l) ==> record_location(line@, v1_root@, v2_root@) == Some((l.path@, l.version)),
{
    let i = match find_byte(line, 58u8) {
        Some(i) => i,
        None => return None,
    };
    let rest = copy_range(line, i + 1, line.len());
    assert(rest@ =~= line@.skip(i + 1));
    let j = match find_byte(rest.as_slice(), 58u8) {
        Some(j) => j,
        None => return None,
    };
    let controllers = copy_range(rest.as_slice(), 0, j);
    let path = copy_range(rest.as_slice(), j + 1, rest.len());
    assert(controllers@ =~= rest@.take(j as int));
    assert(path@ =~= rest@.skip(j + 1));
    if controllers.len() == 0 {
        Some(CgroupLocation { path: concat(v2_root, path.as_slice()), version: CgroupVersion::V2 })
    } else if lists_memory(controllers.as_slice()) {
        Some(CgroupLocation { path: concat(v1_root, path.as_slice()), version: CgroupVersion::V1 })
    } else {
        None
    }
}

/// Finds the job's memory cgroup in the text of its membership file
/// (`/proc/self/cgroup`): the first line that names the unified hierarchy or
/// the v1 memory controller wins. The location is the hierarchy's mount root
/// followed by the record's path.
pub fn parse_cgroup_membership(text: &[u8], v1_root: &[u8], v2_root: &[u8]) -> (r: Option<CgroupLocation>)
    ensures
        r is None ==> membership_spec(text@, v1_root@, v2_root@) is None,
        r matches Some(l) ==> membership_spec(text@, v1_root@, v2_root@) == Some((l.path@, l.version)),
{
    let lines = split_fields(text, 10u8);
    let ghost all = split_spec(text@, 10u8);
    let mut k: usize = 0;
    proof {
        assert(all.skip(0) =~= all);
    }
    while k < lines.len()
        invariant
            k <= lines@.len(),
            all == split_spec(text@, 10u8),
            lines@.len() == all.len(),
            forall|j: int| 0 <= j < lines@.len() ==> #[trigger] lines@[j]@ == all[j],
            first_location(all, v1_root@, v2_root@) == first_location(all.skip(k as int), v1_root@, v2_root@),
        decreases lines@.len() - k,
    {
        let found = parse_cgroup_record(lines[k].as_slice(), v1_root, v2_root);
        proof {
            assert(all.skip(k as int)[0] == all[k as int]);
            assert(all.skip(k as int).drop_first() =~= all.skip(k + 1));
        }
        if found.is_some() {
            return found;
        }
        k = k + 1;
    }
    None
}

/// Reads a cgroup memory limit file: `max` in v2, or a value at or above
/// [`V1_UNLIMITED_THRESHOLD`] in v1, means no limit, as does malformed text.
pub fn parse_memory_limit(version: CgroupVersion, text: &[u8]) -> (r: Option<u64>)
    ensures
        r == limit_spec(version, text@),
{
    match version {
        CgroupVersion::V2 => {
            let t = trim(text);
            let word: Vec<u8> = vec![109u8, 97u8, 120u8];
            assert(word@ =~= max_word());
            if same_bytes(t.as_slice(), word.as_slice()) {
                None
            } else {
                parse_counter(text)
            }
        },
        CgroupVersion::V1 => {
            match parse_counter(text) {
                Some(v) => if v < V1_UNLIMITED_THRESHOLD { Some(v) } else { None },
                None => None,
            }
        },
    }
}

} // verus!
