//! The catalog of HID devices that Sleipnir can mirror, one entry per
//! host and device, kept in host/device order.
use vstd::prelude::*;
use crate::text::{
    chars_lt, chars_of, compare_chars, contains_chars, contains_seq, lemma_chars_lt_asymmetric,
    lemma_chars_lt_irreflexive, lemma_chars_lt_total, lemma_chars_lt_transitive, str_eq, trim,
    trim_bounds, TextOrder,
};

use crate::odin_core::discovery::{endpoint_looks_like_socket, socket_like};

verus! {

/// A HID device advertised by Muninn, with the endpoint it streams from
/// (`"discovering"` while none is known).
#[derive(Clone, Debug, PartialEq, Eq)]
pub struct AvailableHidDevice {
    pub device_id: String,
    pub device_kind: String,
    pub source_path: String,
    pub stream_id: String,
    pub host_id: String,
    pub endpoint: String,
}

/// How much a catalog entry is known about: a real endpoint counts 4, a
/// stream id naming the device 2, a real source path 1.
pub open spec fn discovery_score(d: AvailableHidDevice) -> u8 {
    ((if d.endpoint@ != "discovering"@ {
        4u8
    } else {
        0u8
    }) + (if contains_seq(d.stream_id@, d.device_id@) {
        2u8
    } else {
        0u8
    }) + (if trim(d.source_path@).len() > 0 && d.source_path@ != "unknown"@ {
        1u8
    } else {
        0u8
    })) as u8
}

/// The catalog key of an entry: its host, then its device.
pub open spec fn device_key(d: AvailableHidDevice) -> (Seq<char>, Seq<char>) {
    (d.host_id@, d.device_id@)
}

pub open spec fn key_lt(a: (Seq<char>, Seq<char>), b: (Seq<char>, Seq<char>)) -> bool {
    chars_lt(a.0, b.0) || (a.0 == b.0 && chars_lt(a.1, b.1))
}

/// A catalog: entries strictly in key order, so each key at most once.
pub open spec fn catalog_wf(s: Seq<AvailableHidDevice>) -> bool {
    forall|i: int, j: int|
        0 <= i < j < s.len() ==> key_lt(device_key(#[trigger] s[i]), device_key(#[trigger] s[j]))
}

/// The entry of a catalog under a key, if any.
pub open spec fn catalog_entry(s: Seq<AvailableHidDevice>, k: (Seq<char>, Seq<char>)) -> Option<
    AvailableHidDevice,
> {
    if exists|i: int| 0 <= i < s.len() && device_key(#[trigger] s[i]) == k {
        Some(s[choose|i: int| 0 <= i < s.len() && device_key(#[trigger] s[i]) == k])
    } else {
        None
    }
}

/// The entry a catalog holds for `device`'s key after an upsert: the new
/// device, unless a known one scores higher.
pub open spec fn upserted_entry(old: Option<AvailableHidDevice>, device: AvailableHidDevice) -> AvailableHidDevice {
    match old {
        Some(e) => if discovery_score(device) >= discovery_score(e) {
            device
        } else {
            e
        },
        None => device,
    }
}

proof fn lemma_key_lt(a: (Seq<char>, Seq<char>), b: (Seq<char>, Seq<char>), c: (Seq<char>, Seq<char>))
    ensures
        !key_lt(a, a),
        key_lt(a, b) ==> !key_lt(b, a),
        key_lt(a, b) || a == b || key_lt(b, a),
        key_lt(a, b) && key_lt(b, c) ==> key_lt(a, c),
{
    lemma_chars_lt_irreflexive(a.0);
    lemma_chars_lt_irreflexive(a.1);
    lemma_chars_lt_asymmetric(a.0, b.0);
    lemma_chars_lt_asymmetric(a.1, b.1);
    lemma_chars_lt_total(a.0, b.0);
    lemma_chars_lt_total(a.1, b.1);
    if chars_lt(a.0, b.0) && chars_lt(b.0, c.0) {
        lemma_chars_lt_transitive(a.0, b.0, c.0);
    }
    if chars_lt(a.1, b.1) && chars_lt(b.1, c.1) {
        lemma_chars_lt_transitive(a.1, b.1, c.1);
    }
}

/// How much a catalog entry is known about.
pub fn available_hid_device_discovery_score(device: &AvailableHidDevice) -> (r: u8)
    ensures
        r == discovery_score(*device),
{
    let mut score: u8 = 0;
    if !str_eq(device.endpoint.as_str(), "discovering") {
        score = score + 4;
    }
    let s = chars_of(device.stream_id.as_str());
    let d = chars_of(device.device_id.as_str());
    if contains_chars(s.as_slice(), d.as_slice()) {
        score = score + 2;
    }
    let p = chars_of(device.source_path.as_str());
    let (a, b) = trim_bounds(p.as_slice());
    if a < b && !str_eq(device.source_path.as_str(), "unknown") {
        score = score + 1;
    }
    score
}

/// Whether a candidate entry should take the place of the existing one:
/// when it is known about at least as well.
pub fn should_replace_available_hid_device(
    existing: &AvailableHidDevice,
    candidate: &AvailableHidDevice,
) -> (r: bool)
    ensures
        r == (discovery_score(*candidate) >= discovery_score(*existing)),
{
    let existing_score = available_hid_device_discovery_score(existing);
    let candidate_score = available_hid_device_discovery_score(candidate);
    candidate_score >= existing_score
}

fn compare_keys(a: &AvailableHidDevice, b: &AvailableHidDevice) -> (r: TextOrder)
    ensures
        (r == TextOrder::Less) == key_lt(device_key(*a), device_key(*b)),
        (r == TextOrder::Equal) == (device_key(*a) == device_key(*b)),
        (r == TextOrder::Greater) == key_lt(device_key(*b), device_key(*a)),
{
    proof {
        lemma_key_lt(device_key(*a), device_key(*b), device_key(*a));
        lemma_key_lt(device_key(*b), device_key(*a), device_key(*b));
    }
    let ah = chars_of(a.host_id.as_str());
    let bh = chars_of(b.host_id.as_str());
    let c = compare_chars(ah.as_slice(), bh.as_slice());
    if c != TextOrder::Equal {
        return c;
    }
    let ad = chars_of(a.device_id.as_str());
    let bd = chars_of(b.device_id.as_str());
    compare_chars(ad.as_slice(), bd.as_slice())
}

/// The order a device list is sorted in after an upsert: host, then
/// device, then endpoint.
pub open spec fn key3_lt(a: AvailableHidDevice, b: AvailableHidDevice) -> bool {
    key_lt(device_key(a), device_key(b)) || (device_key(a) == device_key(b) && chars_lt(
        a.endpoint@,
        b.endpoint@,
    ))
}

/// `s` with `x` placed after every entry that does not sort after it.
pub open spec fn insert_sorted(s: Seq<AvailableHidDevice>, x: AvailableHidDevice) -> Seq<AvailableHidDevice>
    decreases s.len(),
{
    if s.len() > 0 && key3_lt(x, s.last()) {
        insert_sorted(s.drop_last(), x).push(s.last())
    } else {
        s.push(x)
    }
}

/// `s` sorted by `key3_lt`, stably: entries that compare equal keep the
/// order they had.
pub open spec fn stably_sorted(s: Seq<AvailableHidDevice>) -> Seq<AvailableHidDevice>
    decreases s.len(),
{
    if s.len() == 0 {
        s
    } else {
        insert_sorted(stably_sorted(s.drop_last()), s.last())
    }
}

/// The first position from `from` on that holds key `k`.
pub open spec fn first_with_key(s: Seq<AvailableHidDevice>, k: (Seq<char>, Seq<char>), from: int) -> Option<int>
    decreases s.len() - from,
{
    if from < 0 || from >= s.len() {
        None
    } else if device_key(s[from]) == k {
        Some(from)
    } else {
        first_with_key(s, k, from + 1)
    }
}

/// The list before sorting: the first entry with the device's key replaced
/// when the device scores at least as high, or the device appended when no
/// entry has its key.
pub open spec fn staged(s: Seq<AvailableHidDevice>, d: AvailableHidDevice) -> Seq<AvailableHidDevice> {
    match first_with_key(s, device_key(d), 0) {
        Some(i) => if discovery_score(d) >= discovery_score(s[i]) {
            s.update(i, d)
        } else {
            s
        },
        None => s.push(d),
    }
}

fn key3_less(a: &AvailableHidDevice, b: &AvailableHidDevice) -> (r: bool)
    ensures
        r == key3_lt(*a, *b),
{
    match compare_keys(a, b) {
        TextOrder::Less => true,
        TextOrder::Greater => {
            proof {
                lemma_key_lt(device_key(*a), device_key(*b), device_key(*a));
            }
            false
        },
        TextOrder::Equal => {
            let ae = chars_of(a.endpoint.as_str());
            let be = chars_of(b.endpoint.as_str());
            proof {
                lemma_key_lt(device_key(*a), device_key(*b), device_key(*a));
            }
            compare_chars(ae.as_slice(), be.as_slice()) == TextOrder::Less
        },
    }
}

fn first_index_with_key(v: &Vec<AvailableHidDevice>, d: &AvailableHidDevice) -> (r: Option<usize>)
    ensures
        match r {
            Some(i) => i < v@.len() && first_with_key(v@, device_key(*d), 0) == Some(i as int),
            None => first_with_key(v@, device_key(*d), 0) is None,
        },
{
    let mut i: usize = 0;
    while i < v.len()
        invariant
            i <= v@.len(),
            first_with_key(v@, device_key(*d), 0) == first_with_key(v@, device_key(*d), i as int),
        decreases v@.len() - i,
    {
        if compare_keys(&v[i], d) == TextOrder::Equal {
            return Some(i);
        }
        i = i + 1;
    }
    None
}

/// `v` sorted stably by host, device and endpoint.
fn sort_stably(v: Vec<AvailableHidDevice>) -> (r: Vec<AvailableHidDevice>)
    ensures
        r@ == stably_sorted(v@),
{
    let ghost orig = v@;
    let mut rest = v;
    let mut out: Vec<AvailableHidDevice> = Vec::new();
    let ghost mut i: int = 0;
    assert(orig.subrange(0, 0) =~= Seq::<AvailableHidDevice>::empty());
    while rest.len() > 0
        invariant
            0 <= i <= orig.len(),
            rest@ == orig.subrange(i, orig.len() as int),
            out@ == stably_sorted(orig.subrange(0, i)),
        decreases rest@.len(),
    {
        let x = rest.remove(0);
        let ghost sorted = out@;
        let mut p: usize = out.len();
        assert(sorted.subrange(0, p as int) =~= sorted);
        assert(sorted.subrange(p as int, sorted.len() as int) =~= Seq::<AvailableHidDevice>::empty());
        while p > 0 && key3_less(&x, &out[p - 1])
            invariant
                out@ == sorted,
                p <= sorted.len(),
                insert_sorted(sorted, x) == insert_sorted(sorted.subrange(0, p as int), x) + sorted.subrange(
                    p as int,
                    sorted.len() as int,
                ),
            decreases p,
        {
            proof {
                let s = sorted.subrange(0, p as int);
                assert(s.drop_last() =~= sorted.subrange(0, p - 1));
                assert(s.last() == sorted[p - 1]);
                assert(insert_sorted(s, x) == insert_sorted(sorted.subrange(0, p - 1), x).push(sorted[p - 1]));
                assert(sorted.subrange(p - 1, sorted.len() as int) =~= seq![sorted[p - 1]] + sorted.subrange(
                    p as int,
                    sorted.len() as int,
                ));
                assert(insert_sorted(sorted.subrange(0, p - 1), x).push(sorted[p - 1]) + sorted.subrange(
                    p as int,
                    sorted.len() as int,
                ) =~= insert_sorted(sorted.subrange(0, p - 1), x) + sorted.subrange(p - 1, sorted.len() as int));
            }
            p = p - 1;
        }
        proof {
            let s = sorted.subrange(0, p as int);
            assert(insert_sorted(s, x) == s.push(x)) by {
                if s.len() > 0 {
                    assert(s.last() == sorted[p - 1]);
                }
            }
            assert(insert_sorted(sorted, x) =~= sorted.insert(p as int, x));
            let pre = orig.subrange(0, i + 1);
            assert(pre.drop_last() =~= orig.subrange(0, i));
            assert(pre.last() == x);
        }
        out.insert(p, x);
        proof {
            i = i + 1;
            assert(rest@ =~= orig.subrange(i, orig.len() as int));
        }
    }
    assert(orig.subrange(0, i) =~= orig);
    out
}

fn is_catalog(v: &Vec<AvailableHidDevice>) -> (r: bool)
    ensures
        r == catalog_wf(v@),
{
    let mut i: usize = 1;
    if v.len() == 0 {
        return true;
    }
    while i < v.len()
        invariant
            1 <= i <= v@.len(),
            forall|a: int, b: int|
                0 <= a < b < i ==> key_lt(device_key(#[trigger] v@[a]), device_key(#[trigger] v@[b])),
        decreases v@.len() - i,
    {
        if compare_keys(&v[i - 1], &v[i]) != TextOrder::Less {
            return false;
        }
        proof {
            assert forall|a: int, b: int|
                0 <= a < b < i + 1 implies key_lt(device_key(#[trigger] v@[a]), device_key(#[trigger] v@[b])) by {
                if b == i && a < i - 1 {
                    lemma_key_lt(device_key(v@[a]), device_key(v@[i - 1]), device_key(v@[b]));
                }
            }
        }
        i = i + 1;
    }
    true
}

/// Adds a device to a device list, or replaces the first entry of its host
/// and device when the new one is known about at least as well, then sorts
/// the list stably by host, device and endpoint. On a catalog (entries
/// strictly in host/device order) that is: the catalog keeps its order,
/// the device's key holds the upserted entry, and every other key keeps
/// its entry.
pub fn upsert_available_hid_device(devices: &mut Vec<AvailableHidDevice>, device: AvailableHidDevice)
    ensures
        catalog_wf(old(devices)@) ==> catalog_wf(final(devices)@),
        catalog_wf(old(devices)@) ==> catalog_entry(final(devices)@, device_key(device)) == Some(
            upserted_entry(catalog_entry(old(devices)@, device_key(device)), device),
        ),
        catalog_wf(old(devices)@) ==> forall|k: (Seq<char>, Seq<char>)|
            k != device_key(device) ==> catalog_entry(final(devices)@, k) == catalog_entry(
                old(devices)@,
                k,
            ),
        !catalog_wf(old(devices)@) ==> final(devices)@ == stably_sorted(staged(old(devices)@, device)),
{
    if is_catalog(devices) {
        upsert_catalog_entry(devices, device);
    } else {
        let ghost before = devices@;
        match first_index_with_key(devices, &device) {
            Some(i) => {
                if should_replace_available_hid_device(&devices[i], &device) {
                    devices.set(i, device);
                }
            },
            None => {
                devices.push(device);
            },
        }
        assert(devices@ == staged(before, device));
        let mut list: Vec<AvailableHidDevice> = Vec::new();
        std::mem::swap(devices, &mut list);
        let sorted = sort_stably(list);
        *devices = sorted;
    }
}

/// Upserts into a catalog, keeping it strictly in host/device order.
fn upsert_catalog_entry(devices: &mut Vec<AvailableHidDevice>, device: AvailableHidDevice)
    requires
        catalog_wf(old(devices)@),
    ensures
        catalog_wf(final(devices)@),
        catalog_entry(final(devices)@, device_key(device)) == Some(
            upserted_entry(catalog_entry(old(devices)@, device_key(device)), device),
        ),
        forall|k: (Seq<char>, Seq<char>)|
            k != device_key(device) ==> catalog_entry(final(devices)@, k) == catalog_entry(
                old(devices)@,
                k,
            ),
{
    let ghost old_s = devices@;
    let ghost k = device_key(device);
    let mut p: usize = 0;
    while p < devices.len() && compare_keys(&devices[p], &device) == TextOrder::Less
        invariant
            devices@ == old_s,
            k == device_key(device),
            catalog_wf(old_s),
            p <= devices@.len(),
            forall|j: int| 0 <= j < p ==> key_lt(device_key(#[trigger] devices@[j]), k),
        decreases devices@.len() - p,
    {
        p = p + 1;
    }
    proof {
        assert forall|j: int| p <= j < old_s.len() implies device_key(#[trigger] old_s[j]) != k
            && !key_lt(device_key(old_s[j]), k) || (j == p && device_key(old_s[j]) == k) by {
            lemma_key_lt(device_key(old_s[p as int]), device_key(old_s[j]), k);
            lemma_key_lt(k, device_key(old_s[p as int]), device_key(old_s[j]));
            lemma_key_lt(device_key(old_s[j]), k, device_key(old_s[j]));
            if j > p {
                assert(key_lt(device_key(old_s[p as int]), device_key(old_s[j])));
            }
        }
    }
    if p < devices.len() && compare_keys(&devices[p], &device) == TextOrder::Equal {
        assert(catalog_entry(old_s, k) == Some(old_s[p as int])) by {
            assert(device_key(old_s[p as int]) == k);
            let c = choose|i: int| 0 <= i < old_s.len() && device_key(#[trigger] old_s[i]) == k;
            if c != p {
                if c < p {
                    lemma_key_lt(device_key(old_s[c]), k, k);
                } else {
                    assert(key_lt(device_key(old_s[p as int]), device_key(old_s[c])));
                    lemma_key_lt(k, k, k);
                }
            }
        }
        if should_replace_available_hid_device(&devices[p], &device) {
            devices.set(p, device);
        }
        proof {
            let s = devices@;
            assert(s.len() == old_s.len());
            assert forall|i: int| 0 <= i < s.len() implies device_key(#[trigger] s[i]) == device_key(
                old_s[i],
            ) by {}
            assert(catalog_wf(s)) by {
                assert forall|i: int, j: int| 0 <= i < j < s.len() implies key_lt(
                    device_key(#[trigger] s[i]),
                    device_key(#[trigger] s[j]),
                ) by {
                    assert(device_key(s[i]) == device_key(old_s[i]));
                    assert(device_key(s[j]) == device_key(old_s[j]));
                }
            }
            lemma_catalog_entry_at(s, p as int);
            assert forall|kk: (Seq<char>, Seq<char>)| kk != k implies catalog_entry(s, kk)
                == catalog_entry(old_s, kk) by {
                lemma_catalog_entry_same_keys(old_s, s, p as int, kk);
            }
        }
    } else {
        assert(catalog_entry(old_s, k) is None) by {
            if exists|i: int| 0 <= i < old_s.len() && device_key(#[trigger] old_s[i]) == k {
                let c = choose|i: int| 0 <= i < old_s.len() && device_key(#[trigger] old_s[i]) == k;
                if c < p {
                    lemma_key_lt(device_key(old_s[c]), k, k);
                }
            }
        }
        devices.insert(p, device);
        proof {
            let s = devices@;
            assert(s == old_s.insert(p as int, device));
            assert(catalog_wf(s)) by {
                assert forall|i: int, j: int| 0 <= i < j < s.len() implies key_lt(
                    device_key(#[trigger] s[i]),
                    device_key(#[trigger] s[j]),
                ) by {
                    if j < p {
                    } else if i < p && j == p {
                    } else if i < p {
                        assert(s[j] == old_s[j - 1]);
                    } else if i == p {
                        assert(s[j] == old_s[j - 1]);
                        assert(!key_lt(device_key(old_s[j - 1]), k));
                        lemma_key_lt(k, device_key(old_s[j - 1]), k);
                    } else {
                        assert(s[i] == old_s[i - 1]);
                        assert(s[j] == old_s[j - 1]);
                    }
                }
            }
            lemma_catalog_entry_at(s, p as int);
            assert forall|kk: (Seq<char>, Seq<char>)| kk != k implies catalog_entry(s, kk)
                == catalog_entry(old_s, kk) by {
                if exists|i: int| 0 <= i < old_s.len() && device_key(#[trigger] old_s[i]) == kk {
                    let c = choose|i: int| 0 <= i < old_s.len() && device_key(#[trigger] old_s[i]) == kk;
                    let c2 = if c < p { c } else { c + 1 };
                    assert(s[c2] == old_s[c]);
                    lemma_catalog_entry_at(old_s, c);
                    lemma_catalog_entry_at(s, c2);
                }
                if exists|i: int| 0 <= i < s.len() && device_key(#[trigger] s[i]) == kk {
                    let c = choose|i: int| 0 <= i < s.len() && device_key(#[trigger] s[i]) == kk;
                    assert(c != p);
                    let c0 = if c < p { c } else { c - 1 };
                    assert(s[c] == old_s[c0]);
                    lemma_catalog_entry_at(old_s, c0);
                }
            }
        }
    }
}

proof fn lemma_catalog_entry_at(s: Seq<AvailableHidDevice>, i: int)
    requires
        catalog_wf(s),
        0 <= i < s.len(),
    ensures
        catalog_entry(s, device_key(s[i])) == Some(s[i]),
{
    let k = device_key(s[i]);
    let c = choose|j: int| 0 <= j < s.len() && device_key(#[trigger] s[j]) == k;
    if c != i {
        if c < i {
            assert(key_lt(device_key(s[c]), device_key(s[i])));
        } else {
            assert(key_lt(device_key(s[i]), device_key(s[c])));
        }
        lemma_key_lt(k, k, k);
    }
}

proof fn lemma_catalog_entry_same_keys(a: Seq<AvailableHidDevice>, b: Seq<AvailableHidDevice>, p: int, k: (Seq<char>, Seq<char>))
    requires
        catalog_wf(a),
        catalog_wf(b),
        a.len() == b.len(),
        0 <= p < a.len(),
        forall|i: int| 0 <= i < a.len() && i != p ==> b[i] == a[i],
        device_key(a[p]) == device_key(b[p]),
        k != device_key(a[p]),
    ensures
        catalog_entry(b, k) == catalog_entry(a, k),
{
    if exists|i: int| 0 <= i < a.len() && device_key(#[trigger] a[i]) == k {
        let c = choose|i: int| 0 <= i < a.len() && device_key(#[trigger] a[i]) == k;
        lemma_catalog_entry_at(a, c);
        lemma_catalog_entry_at(b, c);
    }
    if exists|i: int| 0 <= i < b.len() && device_key(#[trigger] b[i]) == k {
        let c = choose|i: int| 0 <= i < b.len() && device_key(#[trigger] b[i]) == k;
        lemma_catalog_entry_at(a, c);
        lemma_catalog_entry_at(b, c);
    }
}


/// The entry that upserting `ds` in turn into an empty catalog leaves under
/// key `k`.
pub open spec fn folded_entry(ds: Seq<AvailableHidDevice>, k: (Seq<char>, Seq<char>)) -> Option<
    AvailableHidDevice,
>
    decreases ds.len(),
{
    if ds.len() == 0 {
        None
    } else {
        let before = folded_entry(ds.drop_last(), k);
        if device_key(ds.last()) == k {
            Some(upserted_entry(before, ds.last()))
        } else {
            before
        }
    }
}

/// An entry stays in the final catalog only with a socket endpoint.
pub open spec fn reachable_entry(e: Option<AvailableHidDevice>) -> Option<AvailableHidDevice> {
    match e {
        Some(d) => if socket_like(d.endpoint@) {
            Some(d)
        } else {
            None
        },
        None => None,
    }
}

/// The entries of `s` with a socket endpoint, in order.
pub open spec fn keep_reachable(s: Seq<AvailableHidDevice>) -> Seq<AvailableHidDevice>
    decreases s.len(),
{
    if s.len() == 0 {
        Seq::empty()
    } else {
        let before = keep_reachable(s.drop_last());
        if socket_like(s.last().endpoint@) {
            before.push(s.last())
        } else {
            before
        }
    }
}

proof fn lemma_kept_from(s: Seq<AvailableHidDevice>)
    ensures
        forall|m: int|
            0 <= m < keep_reachable(s).len() ==> kept_member(s, #[trigger] keep_reachable(s)[m]),
        forall|j: int|
            0 <= j < s.len() && socket_like(s[j].endpoint@) ==> exists|m: int|
                0 <= m < keep_reachable(s).len() && keep_reachable(s)[m] == #[trigger] s[j],
    decreases s.len(),
{
    if s.len() > 0 {
        let t = s.drop_last();
        lemma_kept_from(t);
        let k = keep_reachable(s);
        let kt = keep_reachable(t);
        assert forall|m: int| 0 <= m < k.len() implies kept_member(s, #[trigger] k[m]) by {
            if m < kt.len() {
                assert(k[m] == kt[m]);
                assert(kept_member(t, kt[m]));
                let j = choose|j: int| 0 <= j < t.len() && t[j] == kt[m] && socket_like(t[j].endpoint@);
                assert(s[j] == t[j]);
            } else {
                let last = s.len() - 1;
                assert(k[m] == s[last]);
            }
        }
        assert forall|j: int| 0 <= j < s.len() && socket_like(s[j].endpoint@) implies exists|m: int|
            0 <= m < k.len() && k[m] == #[trigger] s[j] by {
            if j < t.len() {
                assert(s[j] == t[j]);
                let m = choose|m: int| 0 <= m < kt.len() && kt[m] == t[j];
                assert(k[m] == kt[m]);
            } else {
                assert(k[k.len() - 1] == s[j]);
            }
        }
    }
}

/// `d` is an entry of `s` with a socket endpoint.
pub open spec fn kept_member(s: Seq<AvailableHidDevice>, d: AvailableHidDevice) -> bool {
    exists|j: int| 0 <= j < s.len() && s[j] == d && socket_like(s[j].endpoint@)
}

proof fn lemma_kept_catalog(s: Seq<AvailableHidDevice>)
    requires
        catalog_wf(s),
    ensures
        catalog_wf(keep_reachable(s)),
    decreases s.len(),
{
    if s.len() > 0 {
        let t = s.drop_last();
        assert(catalog_wf(t)) by {
            assert forall|i: int, j: int| 0 <= i < j < t.len() implies key_lt(
                device_key(#[trigger] t[i]),
                device_key(#[trigger] t[j]),
            ) by {
                assert(t[i] == s[i] && t[j] == s[j]);
            }
        }
        lemma_kept_catalog(t);
        lemma_kept_from(t);
        let k = keep_reachable(s);
        let kt = keep_reachable(t);
        if socket_like(s.last().endpoint@) {
            assert forall|i: int, j: int| 0 <= i < j < k.len() implies key_lt(
                device_key(#[trigger] k[i]),
                device_key(#[trigger] k[j]),
            ) by {
                assert(k[i] == kt[i]);
                if j < kt.len() {
                    assert(k[j] == kt[j]);
                } else {
                    assert(kept_member(t, kt[i]));
                    let a = choose|a: int| 0 <= a < t.len() && t[a] == kt[i] && socket_like(t[a].endpoint@);
                    assert(s[a] == t[a]);
                    assert(k[j] == s[s.len() - 1]);
                }
            }
        }
    }
}

proof fn lemma_kept_entries(s: Seq<AvailableHidDevice>, key: (Seq<char>, Seq<char>))
    requires
        catalog_wf(s),
    ensures
        catalog_entry(keep_reachable(s), key) == reachable_entry(catalog_entry(s, key)),
{
    lemma_kept_catalog(s);
    lemma_kept_from(s);
    let k = keep_reachable(s);
    if exists|i: int| 0 <= i < s.len() && device_key(#[trigger] s[i]) == key {
        let i = choose|i: int| 0 <= i < s.len() && device_key(#[trigger] s[i]) == key;
        lemma_catalog_entry_at(s, i);
        if socket_like(s[i].endpoint@) {
            let m = choose|m: int| 0 <= m < k.len() && k[m] == s[i];
            lemma_catalog_entry_at(k, m);
        } else {
            assert forall|m: int| 0 <= m < k.len() implies device_key(#[trigger] k[m]) != key by {
                assert(kept_member(s, k[m]));
                let j = choose|j: int| 0 <= j < s.len() && s[j] == k[m] && socket_like(s[j].endpoint@);
                if device_key(s[j]) == key {
                    lemma_catalog_entry_at(s, j);
                }
            }
        }
    } else {
        assert forall|m: int| 0 <= m < k.len() implies device_key(#[trigger] k[m]) != key by {
            assert(kept_member(s, k[m]));
            let j = choose|j: int| 0 <= j < s.len() && s[j] == k[m] && socket_like(s[j].endpoint@);
        }
    }
}

/// The catalog discovery ends with: each found device upserted in turn,
/// then only the entries whose endpoint looks like a socket kept.
pub fn catalog_available_hid_devices(devices: Vec<AvailableHidDevice>) -> (r: Vec<AvailableHidDevice>)
    ensures
        catalog_wf(r@),
        forall|k: (Seq<char>, Seq<char>)|
            #[trigger] catalog_entry(r@, k) == reachable_entry(folded_entry(devices@, k)),
{
    let ghost all = devices@;
    let mut pending = devices;
    let mut catalog: Vec<AvailableHidDevice> = Vec::new();
    let ghost mut m: int = 0;
    while pending.len() > 0
        invariant
            0 <= m <= all.len(),
            pending@ == all.subrange(m, all.len() as int),
            catalog_wf(catalog@),
            forall|k: (Seq<char>, Seq<char>)|
                #[trigger] catalog_entry(catalog@, k) == folded_entry(all.subrange(0, m), k),
        decreases pending@.len(),
    {
        let d = pending.remove(0);
        let ghost before = catalog@;
        proof {
            assert(d == all[m]);
        }
        upsert_available_hid_device(&mut catalog, d);
        proof {
            assert(all.subrange(0, m + 1).drop_last() =~= all.subrange(0, m));
            assert(all.subrange(0, m + 1).last() == all[m]);
            m = m + 1;
            assert(pending@ =~= all.subrange(m, all.len() as int));
        }
    }
    assert(all.subrange(0, m) =~= all);
    let ghost cat = catalog@;
    let mut i: usize = 0;
    let ghost mut j: int = 0;
    assert(cat.subrange(0, 0) =~= Seq::<AvailableHidDevice>::empty());
    assert(catalog@ =~= keep_reachable(cat.subrange(0, 0)) + cat.subrange(0, cat.len() as int));
    while i < catalog.len()
        invariant
            0 <= j <= cat.len(),
            i == keep_reachable(cat.subrange(0, j)).len(),
            catalog@ == keep_reachable(cat.subrange(0, j)) + cat.subrange(j, cat.len() as int),
        decreases cat.len() - j,
    {
        let ghost kept = keep_reachable(cat.subrange(0, j));
        assert(catalog@[i as int] == cat[j]);
        assert(cat.subrange(0, j + 1).drop_last() =~= cat.subrange(0, j));
        assert(cat.subrange(0, j + 1).last() == cat[j]);
        if endpoint_looks_like_socket(catalog[i].endpoint.as_str()) {
            i = i + 1;
            proof {
                j = j + 1;
                assert(catalog@ =~= keep_reachable(cat.subrange(0, j)) + cat.subrange(j, cat.len() as int));
            }
        } else {
            catalog.remove(i);
            proof {
                j = j + 1;
                assert(catalog@ =~= keep_reachable(cat.subrange(0, j)) + cat.subrange(j, cat.len() as int));
            }
        }
    }
    proof {
        assert(j == cat.len()) by {
            if j < cat.len() {
                assert(catalog@.len() > i);
            }
        }
        assert(cat.subrange(0, j) =~= cat);
        assert(catalog@ =~= keep_reachable(cat));
        lemma_kept_catalog(cat);
        assert forall|k: (Seq<char>, Seq<char>)|
            #[trigger] catalog_entry(catalog@, k) == reachable_entry(folded_entry(all, k)) by {
            lemma_kept_entries(cat, k);
        }
    }
    catalog
}

} // verus!
