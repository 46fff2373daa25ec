//! Coalescing a burst of HID controller states: per device, the newest
//! state by source timestamp and then sequence, in the order the kept
//! states arrived.
use vstd::prelude::*;
use crate::text::str_eq;

verus! {

/// What coalescing reads of a controller state record.
#[derive(Clone, Debug, PartialEq, Eq)]
pub struct HidRecordOrder {
    pub device_id: String,
    pub source_timestamp_ns: i64,
    pub sequence: u64,
}

/// `a` is newer than `b`: a later source timestamp, or the same one with a
/// higher sequence.
pub open spec fn newer(a: HidRecordOrder, b: HidRecordOrder) -> bool {
    a.source_timestamp_ns > b.source_timestamp_ns || (a.source_timestamp_ns
        == b.source_timestamp_ns && a.sequence > b.sequence)
}

/// Record `i` is the one kept for its device: no record of the device is
/// newer, and no earlier one is as new (the first of equals stays).
pub open spec fn kept(s: Seq<HidRecordOrder>, i: int) -> bool {
    &&& 0 <= i < s.len()
    &&& forall|j: int|
        0 <= j < s.len() && #[trigger] s[j].device_id@ == s[i].device_id@ ==> !newer(s[j], s[i])
            && (j < i ==> newer(s[i], s[j]))
}

fn newer_exec(a: &HidRecordOrder, b: &HidRecordOrder) -> (r: bool)
    ensures
        r == newer(*a, *b),
{
    a.source_timestamp_ns > b.source_timestamp_ns || (a.source_timestamp_ns
        == b.source_timestamp_ns && a.sequence > b.sequence)
}

/// The positions of the records kept per device, in arrival order.
pub fn coalesce_latest_by_device(records: &Vec<HidRecordOrder>) -> (r: Vec<usize>)
    ensures
        forall|a: int, b: int| 0 <= a < b < r@.len() ==> r@[a] < r@[b],
        forall|k: int| 0 <= k < r@.len() ==> kept(records@, r@[k] as int),
        forall|i: int| kept(records@, i) ==> r@.contains(i as usize),
{
    let n = records.len();
    let mut out: Vec<usize> = Vec::new();
    let mut i: usize = 0;
    while i < n
        invariant
            n == records@.len(),
            i <= n,
            forall|a: int, b: int| 0 <= a < b < out@.len() ==> out@[a] < out@[b],
            forall|k: int| 0 <= k < out@.len() ==> out@[k] < i && kept(records@, out@[k] as int),
            forall|x: int| 0 <= x < i && kept(records@, x) ==> out@.contains(x as usize),
        decreases n - i,
    {
        let mut keep = true;
        let mut j: usize = 0;
        while j < n
            invariant
                n == records@.len(),
                i < n,
                j <= n,
                keep ==> forall|q: int|
                    0 <= q < j && #[trigger] records@[q].device_id@ == records@[i as int].device_id@
                        ==> !newer(records@[q], records@[i as int]) && (q < i ==> newer(
                        records@[i as int],
                        records@[q],
                    )),
                !keep ==> !kept(records@, i as int),
            decreases n - j,
        {
            if keep && str_eq(records[j].device_id.as_str(), records[i].device_id.as_str()) {
                let later_is_newer = newer_exec(&records[j], &records[i]);
                let earlier_ties = j < i && !newer_exec(&records[i], &records[j]);
                if later_is_newer || earlier_ties {
                    keep = false;
                }
            }
            j = j + 1;
        }
        let ghost before = out@;
        if keep {
            out.push(i);
        }
        proof {
            assert forall|x: int| 0 <= x < i + 1 && kept(records@, x) implies out@.contains(
                x as usize,
            ) by {
                if x == i as int {
                    assert(out@[out@.len() - 1] == i);
                } else {
                    assert(before.contains(x as usize));
                    let k = choose|k: int| 0 <= k < before.len() && before[k] == x as usize;
                    assert(out@[k] == x as usize);
                }
            }
        }
        i = i + 1;
    }
    out
}

} // verus!
