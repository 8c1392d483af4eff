//! CPU lists such as `0-2,4`, and the CPU set that a job may use.

use vstd::prelude::*;
use crate::text::{decimal_spec, split_spec, trim_spec, lemma_split_nonempty, parse_decimal, split_fields, trim};

verus! {

/// The inclusive bounds `(lo, hi)` that one item of a CPU list writes: `n` or `lo-hi`.
pub open spec fn item_bounds(item: Seq<u8>) -> Option<(u64, u64)> {
    let parts = split_spec(item, 45u8);
    if parts.len() == 1 {
        match decimal_spec(parts[0]) {
            Some(v) => if v <= u32::MAX { Some((v, v)) } else { None },
            None => None,
        }
    } else if parts.len() == 2 {
        match (decimal_spec(parts[0]), decimal_spec(parts[1])) {
            (Some(a), Some(b)) => if a <= b && b <= u32::MAX { Some((a, b)) } else { None },
            _ => None,
        }
    } else {
        None
    }
}

/// The items of a CPU list, between commas, after trimming white space.
pub open spec fn list_items(s: Seq<u8>) -> Seq<Seq<u8>> {
    split_spec(trim_spec(s), 44u8)
}

pub open spec fn in_item(item: Seq<u8>, c: u32) -> bool {
    match item_bounds(item) {
        Some(b) => b.0 <= c <= b.1,
        None => false,
    }
}

pub open spec fn items_valid(items: Seq<Seq<u8>>) -> bool {
    forall|k: int| 0 <= k < items.len() ==> (#[trigger] item_bounds(items[k])).is_some()
}

/// The CPUs that the list `s` names, or `None` where an item is malformed.
pub open spec fn cpu_list_spec(s: Seq<u8>) -> Option<Set<u32>> {
    let items = list_items(s);
    if items_valid(items) {
        Some(Set::new(|c: u32| exists|k: int| 0 <= k < items.len() && #[trigger] in_item(items[k], c)))
    } else {
        None
    }
}

proof fn lemma_push_contains(s: Seq<u32>, x: u32)
    ensures
        forall|y: u32| #[trigger] s.push(x).contains(y) <==> s.contains(y) || y == x,
{
    assert forall|y: u32| #[trigger] s.push(x).contains(y) <==> s.contains(y) || y == x by {
        if s.push(x).contains(y) {
            let i = choose|i: int| 0 <= i < s.len() + 1 && s.push(x)[i] == y;
            if i < s.len() {
                assert(s[i] == y);
            }
        }
        if s.contains(y) {
            let i = choose|i: int| 0 <= i < s.len() && s[i] == y;
            assert(s.push(x)[i] == y);
        }
        assert(s.push(x)[s.len() as int] == x);
    }
}

/// Whether `x` is in `v`.
pub fn contains_index(v: &Vec<u32>, x: u32) -> (r: bool)
    ensures
        r == v@.contains(x),
{
    let mut i: usize = 0;
    while i < v.len()
        invariant
            i <= v.len(),
            forall|j: int| 0 <= j < i ==> v@[j] != x,
        decreases v.len() - i,
    {
        if v[i] == x {
            return true;
        }
        i = i + 1;
    }
    false
}

fn parse_item(item: &Vec<u8>) -> (r: Option<(u64, u64)>)
    ensures
        r == item_bounds(item@),
{
    let parts = split_fields(item.as_slice(), 45u8);
    if parts.len() == 1 {
        match parse_decimal(parts[0].as_slice()) {
            Some(v) => if v <= 0xffff_ffffu64 { Some((v, v)) } else { None },
            None => None,
        }
    } else if parts.len() == 2 {
        let a = parse_decimal(parts[0].as_slice());
        let b = parse_decimal(parts[1].as_slice());
        match (a, b) {
            (Some(a), Some(b)) => if a <= b && b <= 0xffff_ffffu64 { Some((a, b)) } else { None },
            _ => None,
        }
    } else {
        None
    }
}

/// Parses a CPU list: comma-separated indices and inclusive ranges (`0-2,4` is
/// CPUs 0, 1, 2 and 4). The result lists each CPU once, in order of first mention.
pub fn parse_cpu_list(s: &[u8]) -> (r: Option<Vec<u32>>)
    ensures
        r.is_none() <==> cpu_list_spec(s@).is_none(),
        r matches Some(v) ==> cpu_list_spec(s@) == Some(v@.to_set()) && v@.no_duplicates(),
{
    let t = trim(s);
    let items = split_fields(t.as_slice(), 44u8);
    let ghost spec_items = list_items(s@);
    let mut bounds: Vec<(u64, u64)> = Vec::new();
    let mut k: usize = 0;
    while k < items.len()
        invariant
            k <= items@.len(),
            spec_items == list_items(s@),
            items@.len() == spec_items.len(),
            forall|j: int| 0 <= j < items@.len() ==> #[trigger] items@[j]@ == spec_items[j],
            bounds@.len() == k,
            forall|j: int| 0 <= j < k ==> item_bounds(spec_items[j]) == Some(#[trigger] bounds@[j]),
        decreases items@.len() - k,
    {
        match parse_item(&items[k]) {
            Some(b) => bounds.push(b),
            None => {
                assert(item_bounds(spec_items[k as int]).is_none());
                assert(!items_valid(spec_items));
                return None;
            },
        }
        k = k + 1;
    }
    let mut out: Vec<u32> = Vec::new();
    let mut k: usize = 0;
    while k < bounds.len()
        invariant
            k <= bounds@.len(),
            spec_items == list_items(s@),
            bounds@.len() == spec_items.len(),
            forall|j: int| 0 <= j < bounds@.len() ==> item_bounds(spec_items[j]) == Some(#[trigger] bounds@[j]),
            forall|j: int| 0 <= j < bounds@.len() ==> (#[trigger] bounds@[j]).0 <= bounds@[j].1 <= u32::MAX,
            out@.no_duplicates(),
            forall|c: u32| out@.contains(c) <==> exists|j: int| 0 <= j < k && #[trigger] in_item(spec_items[j], c),
        decreases bounds@.len() - k,
    {
        let (lo, hi) = bounds[k];
        let mut c: u64 = lo;
        while c <= hi
            invariant
                k < bounds@.len(),
                bounds@.len() == spec_items.len(),
                bounds@[k as int] == (lo, hi),
                item_bounds(spec_items[k as int]) == Some((lo, hi)),
                lo <= c <= hi + 1,
                hi <= u32::MAX,
                out@.no_duplicates(),
                forall|x: u32| out@.contains(x) <==>
                    (exists|j: int| 0 <= j < k && #[trigger] in_item(spec_items[j], x)) || (lo <= x < c),
            decreases hi + 1 - c,
        {
            let x = c as u32;
            assert(x as u64 == c);
            let ghost before = out@;
            let ghost c0 = c;
            let present = contains_index(&out, x);
            if !present {
                out.push(x);
                proof {
                    lemma_push_contains(before, x);
                }
            }
            c = c + 1;
            proof {
                assert forall|y: u32| out@.contains(y) <==>
                    (exists|j: int| 0 <= j < k && #[trigger] in_item(spec_items[j], y)) || (lo <= y < c) by {
                    assert(before.contains(y) <==>
                        (exists|j: int| 0 <= j < k && #[trigger] in_item(spec_items[j], y)) || (lo <= y < c0));
                    if !present {
                        assert(out@.contains(y) <==> before.contains(y) || y == x);
                    }
                }
            }
        }
        proof {
            assert forall|x: u32| out@.contains(x) <==>
                exists|j: int| 0 <= j < k + 1 && #[trigger] in_item(spec_items[j], x) by {
                if lo <= x <= hi {
                    assert(in_item(spec_items[k as int], x));
                }
                if exists|j: int| 0 <= j < k + 1 && #[trigger] in_item(spec_items[j], x) {
                    let j = choose|j: int| 0 <= j < k + 1 && #[trigger] in_item(spec_items[j], x);
                    if j == k {
                        assert(lo <= x <= hi);
                    }
                }
            }
        }
        k = k + 1;
    }
    proof {
        assert forall|j: int| 0 <= j < spec_items.len() implies (#[trigger] item_bounds(spec_items[j])).is_some() by {
            assert(item_bounds(spec_items[j]) == Some(bounds@[j]));
        }
        let set = Set::new(|c: u32| exists|j: int| 0 <= j < spec_items.len() && #[trigger] in_item(spec_items[j], c));
        assert(out@.to_set() =~= set);
    }
    Some(out)
}

/// The key of the allowed-CPU line of a process status file: `Cpus_allowed_list:`.
pub open spec fn allowed_key() -> Seq<u8> {
    seq![67u8, 112u8, 117u8, 115u8, 95u8, 97u8, 108u8, 108u8, 111u8, 119u8, 101u8, 100u8, 95u8, 108u8, 105u8, 115u8, 116u8, 58u8]
}

pub open spec fn starts_with(s: Seq<u8>, p: Seq<u8>) -> bool {
    s.len() >= p.len() && s.take(p.len() as int) == p
}

/// What follows the key on the first line of `lines` that starts with it.
pub open spec fn allowed_value(lines: Seq<Seq<u8>>) -> Option<Seq<u8>>
    decreases lines.len(),
{
    if lines.len() == 0 {
        None
    } else if starts_with(lines[0], allowed_key()) {
        Some(lines[0].skip(allowed_key().len() as int))
    } else {
        allowed_value(lines.drop_first())
    }
}

/// The CPUs that a process status file allows, or `None` where it has no
/// allowed-CPU line or the list there is malformed.
pub open spec fn status_cpus_spec(text: Seq<u8>) -> Option<Set<u32>> {
    match allowed_value(split_spec(text, 10u8)) {
        Some(v) => cpu_list_spec(v),
        None => None,
    }
}

fn has_prefix(s: &[u8], p: &[u8]) -> (r: bool)
    ensures
        r == starts_with(s@, p@),
{
    if s.len() < p.len() {
        return false;
    }
    let mut i: usize = 0;
    while i < p.len()
        invariant
            i <= p@.len() <= s@.len(),
            forall|j: int| 0 <= j < i ==> s@[j] == p@[j],
        decreases p.len() - i,
    {
        if s[i] != p[i] {
            assert(s@.take(p@.len() as int)[i as int] != p@[i as int]);
            return false;
        }
        i = i + 1;
    }
    assert(s@.take(p@.len() as int) =~= p@);
    true
}

/// Reads the allowed-CPU list from the text of a process status file
/// (`/proc/self/status`): the list on its first `Cpus_allowed_list:` line.
pub fn cpus_allowed_from_status(text: &[u8]) -> (r: Option<Vec<u32>>)
    ensures
        r.is_none() <==> status_cpus_spec(text@).is_none(),
        r matches Some(v) ==> status_cpus_spec(text@) == Some(v@.to_set()) && v@.no_duplicates(),
{
    let key: Vec<u8> = vec![67u8, 112u8, 117u8, 115u8, 95u8, 97u8, 108u8, 108u8, 111u8, 119u8, 101u8, 100u8, 95u8, 108u8, 105u8, 115u8, 116u8, 58u8];
    assert(key@ =~= allowed_key());
    let lines = split_fields(text, 10u8);
    let ghost all = split_spec(text@, 10u8);
    let mut k: usize = 0;
    proof {
        assert(all.skip(0) =~= all);
    }
    while k < lines.len()
        invariant
            k <= lines@.len(),
            key@ == allowed_key(),
            all == split_spec(text@, 10u8),
            lines@.len() == all.len(),
            forall|j: int| 0 <= j < lines@.len() ==> #[trigger] lines@[j]@ == all[j],
            allowed_value(all) == allowed_value(all.skip(k as int)),
        decreases lines@.len() - k,
    {
        proof {
            assert(all.skip(k as int)[0] == all[k as int]);
            assert(all.skip(k as int).drop_first() =~= all.skip(k + 1));
        }
        let line = lines[k].as_slice();
        if has_prefix(line, key.as_slice()) {
            let mut rest: Vec<u8> = Vec::new();
            let mut i: usize = key.len();
            while i < line.len()
                invariant
                    key@.len() <= i <= line@.len(),
                    rest@ =~= line@.subrange(key@.len() as int, i as int),
                decreases line.len() - i,
            {
                rest.push(line[i]);
                i = i + 1;
            }
            assert(rest@ =~= line@.skip(allowed_key().len() as int));
            return parse_cpu_list(rest.as_slice());
        }
        k = k + 1;
    }
    None
}

} // verus!
