//! The receiver's audio jitter buffer: packets held by packet id and
//! released as contiguous runs.
use vstd::prelude::*;
use crate::documents::{copy_string, AudioPacketView, MuninnMediaAudioPacketRecord};
use crate::media::error::{BufferFault, MediaError};
use std::collections::BTreeMap;
use vstd::std_specs::btree::{increasing_seq, spec_btree_map_iter};

verus! {

broadcast use vstd::std_specs::btree::group_btree_axioms;

/// The stream identity the buffer locked onto with its first packet.
pub ghost struct StreamLock {
    pub stream_id: Seq<char>,
    pub session_id: Seq<char>,
    pub codec: Seq<char>,
    pub timebase_num: u32,
    pub timebase_den: u32,
}

pub ghost struct AudioBufferView {
    pub lock: Option<StreamLock>,
    pub next_packet_id: Option<u64>,
    pub emitted_any: bool,
    /// Held packets, by packet id.
    pub packets: Map<u64, AudioPacketView>,
}

pub struct AudioPacketBuffer {
    stream_id: Option<String>,
    session_id: Option<String>,
    codec: Option<String>,
    timebase_num: Option<u32>,
    timebase_den: Option<u32>,
    next_packet_id: Option<u64>,
    emitted_any: bool,
    packets: BTreeMap<u64, MuninnMediaAudioPacketRecord>,
}

pub open spec fn packet_views(p: Seq<MuninnMediaAudioPacketRecord>) -> Seq<AudioPacketView> {
    p.map_values(|r: MuninnMediaAudioPacketRecord| r@)
}

pub open spec fn packet_map(m: Map<u64, MuninnMediaAudioPacketRecord>) -> Map<u64, AudioPacketView> {
    m.map_values(|r: MuninnMediaAudioPacketRecord| r@)
}

impl View for AudioPacketBuffer {
    type V = AudioBufferView;

    closed spec fn view(&self) -> AudioBufferView {
        AudioBufferView {
            lock: match (self.stream_id, self.session_id, self.codec, self.timebase_num, self.timebase_den) {
                (Some(s), Some(e), Some(c), Some(n), Some(d)) => Some(
                    StreamLock {
                        stream_id: s@,
                        session_id: e@,
                        codec: c@,
                        timebase_num: n,
                        timebase_den: d,
                    },
                ),
                _ => None,
            },
            next_packet_id: self.next_packet_id,
            emitted_any: self.emitted_any,
            packets: packet_map(self.packets@),
        }
    }
}

/// Every packet is held under its own id.
pub open spec fn keyed_by_id(p: Map<u64, AudioPacketView>) -> bool {
    forall|k: u64| #[trigger] p.contains_key(k) ==> p[k].packet_id == k
}

/// Whether a packet with id `id` is held.
pub open spec fn holds_id(p: Map<u64, AudioPacketView>, id: u64) -> bool {
    p.contains_key(id)
}

/// The stream check `insert` makes first: the fault, and the lock after it.
pub open spec fn stream_check(lock: Option<StreamLock>, p: AudioPacketView) -> (Option<BufferFault>, Option<StreamLock>) {
    if p.stream_id.len() == 0 {
        (Some(BufferFault::EmptyStreamId), lock)
    } else if p.session_id.len() == 0 {
        (Some(BufferFault::EmptySessionId), lock)
    } else if p.codec.len() == 0 {
        (Some(BufferFault::EmptyCodec), lock)
    } else if p.timebase_num == 0 || p.timebase_den == 0 {
        (Some(BufferFault::ZeroTimebase), lock)
    } else {
        match lock {
            None => (
                None,
                Some(
                    StreamLock {
                        stream_id: p.stream_id,
                        session_id: p.session_id,
                        codec: p.codec,
                        timebase_num: p.timebase_num,
                        timebase_den: p.timebase_den,
                    },
                ),
            ),
            Some(l) => if l.stream_id == p.stream_id && l.session_id == p.session_id && l.codec
                == p.codec && l.timebase_num == p.timebase_num && l.timebase_den
                == p.timebase_den {
                (None, lock)
            } else {
                (Some(BufferFault::MixedStream), lock)
            },
        }
    }
}

/// The fault `insert` reports for packet `p`, if any.
pub open spec fn insert_packet_fault(b: AudioBufferView, p: AudioPacketView) -> Option<BufferFault> {
    match stream_check(b.lock, p).0 {
        Some(f) => Some(f),
        None => if p.payload.len() == 0 {
            Some(BufferFault::EmptyPayload)
        } else if holds_id(b.packets, p.packet_id) {
            Some(BufferFault::Duplicate(p.packet_id))
        } else {
            match b.next_packet_id {
                Some(n) => if p.packet_id < n && b.emitted_any {
                    Some(BufferFault::Stale(p.packet_id, n))
                } else {
                    None
                },
                None => None,
            }
        },
    }
}

/// The next expected id after accepting packet id `id`.
pub open spec fn next_after_insert(next: Option<u64>, emitted_any: bool, id: u64) -> Option<u64> {
    match next {
        None => Some(id),
        Some(n) => if id < n && !emitted_any {
            Some(id)
        } else {
            Some(n)
        },
    }
}

/// How many packets, with consecutive ids from `n` on, are held: the run
/// that releasing from `n` hands out (it ends at the largest id).
pub open spec fn run_len(p: Map<u64, AudioPacketView>, n: u64) -> nat
    decreases u64::MAX - n,
{
    if p.contains_key(n) {
        if n < u64::MAX {
            1 + run_len(p, (n + 1) as u64)
        } else {
            1
        }
    } else {
        0
    }
}

/// The ids `n`, `n + 1`, ... below `n + k`.
pub open spec fn run_ids(n: u64, k: nat) -> Set<u64> {
    Set::new(|id: u64| n <= id && id < n + k)
}

/// The packets of the run of `k` from `n`, in id order.
pub open spec fn run_packets(p: Map<u64, AudioPacketView>, n: u64, k: nat) -> Seq<AudioPacketView> {
    Seq::new(k, |j: int| p[(n + j) as u64])
}

/// The ids of the packets whose deadline is at or before `now`.
pub open spec fn late_set(p: Map<u64, AudioPacketView>, now: i64) -> Set<u64> {
    Set::new(|id: u64| p.contains_key(id) && p[id].deadline_ticks <= now)
}

pub open spec fn strictly_increasing(s: Seq<u64>) -> bool {
    forall|i: int, j: int| 0 <= i < j < s.len() ==> s[i] < s[j]
}

proof fn lemma_increasing_keys(keys: Seq<u64>)
    requires
        increasing_seq(keys),
    ensures
        strictly_increasing(keys),
{
    assert forall|i: int, j: int| 0 <= i < j < keys.len() implies keys[i] < keys[j] by {
        assert(vstd::std_specs::cmp::OrdSpec::cmp_spec(&keys[i], &keys[j]) is Less);
    }
}

/// The ids among the first `k` keys that are in `late`, in key order.
pub open spec fn late_prefix(keys: Seq<u64>, late: Set<u64>, k: nat) -> Seq<u64>
    decreases k,
{
    if k == 0 {
        Seq::empty()
    } else {
        let rest = late_prefix(keys, late, (k - 1) as nat);
        if late.contains(keys[k - 1]) {
            rest.push(keys[k - 1])
        } else {
            rest
        }
    }
}

proof fn lemma_late_prefix(keys: Seq<u64>, late: Set<u64>, k: nat)
    requires
        k <= keys.len(),
        strictly_increasing(keys),
    ensures
        strictly_increasing(late_prefix(keys, late, k)),
        forall|i: int| 0 <= i < late_prefix(keys, late, k).len() ==> late.contains(#[trigger] late_prefix(keys, late, k)[i]),
        k > 0 ==> forall|i: int| 0 <= i < late_prefix(keys, late, k).len() ==> #[trigger] late_prefix(keys, late, k)[i] <= keys[k - 1],
        forall|a: int| 0 <= a < k && late.contains(#[trigger] keys[a]) ==> late_prefix(keys, late, k).contains(keys[a]),
    decreases k,
{
    if k > 0 {
        lemma_late_prefix(keys, late, (k - 1) as nat);
        let rest = late_prefix(keys, late, (k - 1) as nat);
        let last = keys[k - 1];
        assert forall|i: int| 0 <= i < rest.len() implies #[trigger] rest[i] < last by {
            if k > 1 {
                assert(rest[i] <= keys[k - 2]);
                assert(keys[k - 2] < keys[k - 1]);
            }
        }
        if late.contains(last) {
            let r = rest.push(last);
            assert(late_prefix(keys, late, k) == r);
            assert forall|i: int, j: int| 0 <= i < j < r.len() implies r[i] < r[j] by {
                if j == r.len() - 1 {
                    assert(r[i] == rest[i]);
                } else {
                    assert(r[i] == rest[i] && r[j] == rest[j]);
                }
            }
            assert forall|i: int| 0 <= i < r.len() implies late.contains(#[trigger] r[i]) by {
                if i < r.len() - 1 {
                    assert(r[i] == rest[i]);
                }
            }
            assert forall|i: int| 0 <= i < r.len() implies #[trigger] r[i] <= keys[k - 1] by {
                if i < r.len() - 1 {
                    assert(r[i] == rest[i]);
                }
            }
            assert forall|a: int| 0 <= a < k && late.contains(#[trigger] keys[a]) implies r.contains(keys[a]) by {
                if a == k - 1 {
                    assert(r[r.len() - 1] == keys[a]);
                } else {
                    let i = choose|i: int| 0 <= i < rest.len() && rest[i] == keys[a];
                    assert(r[i] == keys[a]);
                }
            }
        } else {
            assert(late_prefix(keys, late, k) == rest);
            assert forall|i: int| 0 <= i < rest.len() implies #[trigger] rest[i] <= keys[k - 1] by {
            }
        }
    }
}

/// `k` is the lowest id held.
pub open spec fn is_lowest_id(p: Map<u64, AudioPacketView>, k: u64) -> bool {
    p.contains_key(k) && forall|j: u64| #[trigger] p.contains_key(j) ==> k <= j
}

/// Released packets carry consecutive ids: every id of the run from `n`
/// is held, and the run stops at the first id that is not (or at the
/// largest id).
pub proof fn law_released_run_is_consecutive(p: Map<u64, AudioPacketView>, n: u64)
    ensures
        n + run_len(p, n) <= u64::MAX + 1,
        forall|id: u64| n <= id < n + run_len(p, n) ==> #[trigger] p.contains_key(id),
        n + run_len(p, n) <= u64::MAX ==> !p.contains_key((n + run_len(p, n)) as u64),
    decreases u64::MAX - n,
{
    if p.contains_key(n) && n < u64::MAX {
        let m = (n + 1) as u64;
        law_released_run_is_consecutive(p, m);
        assert(run_len(p, n) == 1 + run_len(p, m));
    }
}

/// Once the buffer has released packets, no packet with an id before the
/// next expected one is taken in again.
pub proof fn law_released_ids_stay_released(b: AudioBufferView, packet: AudioPacketView)
    requires
        b.emitted_any,
        b.next_packet_id matches Some(n) && packet.packet_id < n,
    ensures
        insert_packet_fault(b, packet) is Some,
{
}

impl AudioPacketBuffer {
    pub closed spec fn wf(&self) -> bool {
        &&& keyed_by_id(self@.packets)
        &&& self.stream_id is Some == self.session_id is Some
        &&& self.stream_id is Some == self.codec is Some
        &&& self.stream_id is Some == self.timebase_num is Some
        &&& self.stream_id is Some == self.timebase_den is Some
    }

    /// An empty buffer that has locked onto no stream yet.
    pub fn new() -> (r: Self)
        ensures
            r.wf(),
            r@ == (AudioBufferView {
                lock: None,
                next_packet_id: None,
                emitted_any: false,
                packets: Map::empty(),
            }),
    {
        let r = AudioPacketBuffer {
            stream_id: None,
            session_id: None,
            codec: None,
            timebase_num: None,
            timebase_den: None,
            next_packet_id: None,
            emitted_any: false,
            packets: BTreeMap::new(),
        };
        assert(r@.packets =~= Map::<u64, AudioPacketView>::empty());
        r
    }

    /// Locks onto the first packet's stream, or checks a later packet
    /// against it.
    fn require_matching_audio_stream(&mut self, packet: &MuninnMediaAudioPacketRecord) -> (r: Result<
        (),
        MediaError,
    >)
        requires
            old(self).wf(),
        ensures
            final(self).wf(),
            final(self).packets@ == old(self).packets@,
            final(self)@ == (AudioBufferView { lock: stream_check(old(self)@.lock, packet@).1, ..old(self)@ }),
            match stream_check(old(self)@.lock, packet@).0 {
                Some(f) => r == Err::<(), MediaError>(MediaError::Buffer(f)),
                None => r is Ok,
            },
    {
        if packet.stream_id.as_str().is_empty() {
            return Err(MediaError::Buffer(BufferFault::EmptyStreamId));
        }
        if packet.session_id.as_str().is_empty() {
            return Err(MediaError::Buffer(BufferFault::EmptySessionId));
        }
        if packet.codec.as_str().is_empty() {
            return Err(MediaError::Buffer(BufferFault::EmptyCodec));
        }
        if packet.timebase_num == 0 || packet.timebase_den == 0 {
            return Err(MediaError::Buffer(BufferFault::ZeroTimebase));
        }
        let matches = match (
            &self.stream_id,
            &self.session_id,
            &self.codec,
            self.timebase_num,
            self.timebase_den,
        ) {
            (Some(s), Some(e), Some(c), Some(n), Some(d)) => {
                if *s == packet.stream_id && *e == packet.session_id && *c == packet.codec && n
                    == packet.timebase_num && d == packet.timebase_den {
                    Some(true)
                } else {
                    Some(false)
                }
            },
            (None, None, None, None, None) => None,
            _ => Some(false),
        };
        match matches {
            None => {
                self.stream_id = Some(copy_string(&packet.stream_id));
                self.session_id = Some(copy_string(&packet.session_id));
                self.codec = Some(copy_string(&packet.codec));
                self.timebase_num = Some(packet.timebase_num);
                self.timebase_den = Some(packet.timebase_den);
                Ok(())
            },
            Some(true) => Ok(()),
            Some(false) => Err(MediaError::Buffer(BufferFault::MixedStream)),
        }
    }

    /// Takes in one packet. The first packet locks the buffer onto its
    /// stream; before anything was released, an earlier packet moves the
    /// expected start back, afterwards it is refused as stale.
    pub fn insert(&mut self, packet: MuninnMediaAudioPacketRecord) -> (r: Result<(), MediaError>)
        requires
            old(self).wf(),
        ensures
            final(self).wf(),
            final(self)@.lock == stream_check(old(self)@.lock, packet@).1,
            final(self)@.emitted_any == old(self)@.emitted_any,
            match insert_packet_fault(old(self)@, packet@) {
                Some(f) => r == Err::<(), MediaError>(MediaError::Buffer(f))
                    && final(self)@.next_packet_id == old(self)@.next_packet_id
                    && final(self)@.packets == old(self)@.packets,
                None => r is Ok && final(self)@.next_packet_id == next_after_insert(
                    old(self)@.next_packet_id,
                    old(self)@.emitted_any,
                    packet.packet_id,
                ) && final(self)@.packets == old(self)@.packets.insert(packet.packet_id, packet@),
            },
    {
        match self.require_matching_audio_stream(&packet) {
            Ok(()) => {},
            Err(e) => {
                return Err(e);
            },
        }
        if packet.payload.len() == 0 {
            return Err(MediaError::Buffer(BufferFault::EmptyPayload));
        }
        let id = packet.packet_id;
        let ghost before = self.packets@;
        if self.packets.contains_key(&id) {
            assert(packet_map(before).contains_key(id));
            return Err(MediaError::Buffer(BufferFault::Duplicate(id)));
        }
        assert(!packet_map(before).contains_key(id));
        match self.next_packet_id {
            None => {
                self.next_packet_id = Some(id);
            },
            Some(n) => {
                if id < n && !self.emitted_any {
                    self.next_packet_id = Some(id);
                } else if id < n {
                    return Err(MediaError::Buffer(BufferFault::Stale(id, n)));
                }
            },
        }
        let ghost pv = packet@;
        self.packets.insert(id, packet);
        assert(packet_map(self.packets@) =~= packet_map(before).insert(id, pv));
        Ok(())
    }

    /// Releases the run of consecutive packets starting at the next
    /// expected id.
    pub fn pop_ready_packets(&mut self) -> (r: Vec<MuninnMediaAudioPacketRecord>)
        requires
            old(self).wf(),
        ensures
            final(self).wf(),
            final(self)@.lock == old(self)@.lock,
            match old(self)@.next_packet_id {
                None => r@.len() == 0 && final(self)@ == old(self)@,
                Some(n) => {
                    let p = old(self)@.packets;
                    let k = run_len(p, n);
                    &&& packet_views(r@) == run_packets(p, n, k)
                    &&& final(self)@.packets == p.remove_keys(run_ids(n, k))
                    &&& final(self)@.next_packet_id == Some(
                        if n + k > u64::MAX {
                            u64::MAX
                        } else {
                            (n + k) as u64
                        },
                    )
                    &&& final(self)@.emitted_any == (old(self)@.emitted_any || k > 0)
                },
            },
    {
        let n = match self.next_packet_id {
            None => {
                return Vec::new();
            },
            Some(n) => n,
        };
        let ghost p = self@.packets;
        let ghost k = run_len(p, n);
        let mut ready: Vec<MuninnMediaAudioPacketRecord> = Vec::new();
        let mut next = n;
        let mut going = true;
        let ghost mut taken: nat = 0;
        assert(p.remove_keys(run_ids(n, 0)) =~= p);
        while going
            invariant
                keyed_by_id(p),
                k == run_len(p, n),
                packet_views(ready@) == run_packets(p, n, taken),
                packet_map(self.packets@) == p.remove_keys(run_ids(n, taken)),
                going ==> next == n + taken && k == taken + run_len(p, next),
                !going ==> taken == k && next == (if n + k > u64::MAX {
                    u64::MAX
                } else {
                    (n + k) as u64
                }),
                self.stream_id == old(self).stream_id,
                self.session_id == old(self).session_id,
                self.codec == old(self).codec,
                self.timebase_num == old(self).timebase_num,
                self.timebase_den == old(self).timebase_den,
                self.next_packet_id == old(self).next_packet_id,
                self.emitted_any == old(self).emitted_any,
            decreases u64::MAX - next + (if going { 1int } else { 0int }),
        {
            let ghost cur = self.packets@;
            let key = next;
            match self.packets.remove(&key) {
                Some(packet) => {
                    proof {
                        assert(cur.contains_key(next) && cur[next] == packet);
                        assert(self.packets@ == cur.remove(next));
                        assert(!run_ids(n, taken).contains(next));
                        assert(packet_map(cur).contains_key(next));
                        assert(packet_map(cur)[next] == p[next]);
                        assert(packet@ == p[next]);
                        let now_m = packet_map(self.packets@);
                        let want = p.remove_keys(run_ids(n, taken + 1));
                        assert forall|x: u64| #[trigger] now_m.contains_key(x) == want.contains_key(x) by {
                            assert(packet_map(cur).contains_key(x) == cur.contains_key(x));
                            assert(run_ids(n, taken + 1).contains(x) == (run_ids(n, taken).contains(x) || x == next));
                        }
                        assert forall|x: u64| #[trigger] now_m.contains_key(x) implies now_m[x] == want[x] by {
                            assert(packet_map(cur)[x] == p[x]);
                        }
                        assert(now_m =~= want);
                    }
                    let ghost prev = ready@;
                    let ghost pv = packet@;
                    ready.push(packet);
                    proof {
                        assert(packet_views(ready@) =~= packet_views(prev).push(pv));
                        assert(packet_views(ready@) =~= run_packets(p, n, taken + 1));
                        taken = taken + 1;
                    }
                    if next == u64::MAX {
                        going = false;
                    } else {
                        next = next + 1;
                    }
                },
                None => {
                    proof {
                        assert(!packet_map(cur).contains_key(next));
                        assert(!p.contains_key(next));
                        assert(packet_map(self.packets@) =~= packet_map(cur));
                    }
                    going = false;
                },
            }
        }
        if ready.len() > 0 {
            self.emitted_any = true;
        }
        self.next_packet_id = Some(next);
        proof {
            let q = self@.packets;
            assert forall|j: u64| #[trigger] q.contains_key(j) implies q[j].packet_id == j by {
                assert(p.contains_key(j));
            }
        }
        ready
    }

    /// Drops every packet whose deadline is at or before `now_ticks` and
    /// returns their ids in increasing order. When the next expected packet
    /// is among them, the lowest remaining id becomes the next expected.
    pub fn expire_late_packets(&mut self, now_ticks: i64) -> (r: Vec<u64>)
        requires
            old(self).wf(),
        ensures
            final(self).wf(),
            final(self)@.lock == old(self)@.lock,
            final(self)@.emitted_any == old(self)@.emitted_any,
            strictly_increasing(r@),
            r@.to_set() == late_set(old(self)@.packets, now_ticks),
            final(self)@.packets == old(self)@.packets.remove_keys(late_set(old(self)@.packets, now_ticks)),
            match old(self)@.next_packet_id {
                Some(n) => if late_set(old(self)@.packets, now_ticks).contains(n) {
                    match final(self)@.next_packet_id {
                        Some(k) => is_lowest_id(final(self)@.packets, k),
                        None => final(self)@.packets.is_empty(),
                    }
                } else {
                    final(self)@.next_packet_id == Some(n)
                },
                None => final(self)@.next_packet_id is None,
            },
    {
        let ghost p = self@.packets;
        let ghost late = late_set(p, now_ticks);
        let mut expired: Vec<u64> = Vec::new();
        let mut lowest_live: Option<u64> = None;
        let ghost mut lowest_at: int = 0;
        let iter = self.packets.iter();
        let ghost kvs = vstd::std_specs::iter::IteratorSpec::remaining(&iter);
        let ghost orig = self.packets@;
        let ghost keys = kvs.map_values(|kv: (&u64, &MuninnMediaAudioPacketRecord)| *kv.0);
        proof {
            assert(kvs == vstd::std_specs::iter::IteratorSpec::remaining(&spec_btree_map_iter(&self.packets)));
            lemma_increasing_keys(keys);
            assert forall|i: int| 0 <= i < kvs.len() implies #[trigger] self.packets@.contains_key(*kvs[i].0)
                && self.packets@[*kvs[i].0] == *kvs[i].1 by {
            }
            assert forall|x: u64| #[trigger] orig.contains_key(x) implies kvs.contains((&x, &orig[x])) by {
            }
        }
        for entry in it: iter
            invariant
                it.seq() == kvs,
                keys == kvs.map_values(|kv: (&u64, &MuninnMediaAudioPacketRecord)| *kv.0),
                strictly_increasing(keys),
                kvs.len() == self.packets@.dom().len(),
                forall|i: int|
                    0 <= i < kvs.len() ==> #[trigger] self.packets@.contains_key(*kvs[i].0)
                        && self.packets@[*kvs[i].0] == *kvs[i].1,
                p == packet_map(self.packets@),
                late == late_set(p, now_ticks),
                expired@ == late_prefix(keys, late, it.index() as nat),
                lowest_live is None ==> forall|i: int| 0 <= i < it.index() ==> late.contains(#[trigger] keys[i]),
                lowest_live matches Some(l) ==> (0 <= lowest_at < it.index() && keys[lowest_at] == l
                    && !late.contains(l) && forall|i: int| 0 <= i < lowest_at ==> late.contains(#[trigger] keys[i])),
        {
            let (id, packet) = entry;
            assert(entry == kvs[it.index() as int]);
            assert(keys[it.index() as int] == *id);
            assert(0 <= it.index() < kvs.len());
            assert(self.packets@.contains_key(*kvs[it.index() as int].0));
            assert(self.packets@.contains_key(*id) && self.packets@[*id] == *packet);
            assert(p[*id] == packet@);
            if packet.deadline_ticks <= now_ticks {
                expired.push(*id);
            } else if lowest_live.is_none() {
                lowest_live = Some(*id);
                proof {
                    lowest_at = it.index() as int;
                }
            }
        }
        let mut t: usize = 0;
        assert(p.remove_keys(expired@.subrange(0, 0).to_set()) =~= p);
        while t < expired.len()
            invariant
                t <= expired@.len(),
                packet_map(self.packets@) == p.remove_keys(expired@.subrange(0, t as int).to_set()),
                self.stream_id == old(self).stream_id,
                self.session_id == old(self).session_id,
                self.codec == old(self).codec,
                self.timebase_num == old(self).timebase_num,
                self.timebase_den == old(self).timebase_den,
                self.next_packet_id == old(self).next_packet_id,
                self.emitted_any == old(self).emitted_any,
            decreases expired@.len() - t,
        {
            let key = expired[t];
            let ghost cur = self.packets@;
            self.packets.remove(&key);
            proof {
                assert(self.packets@ == cur.remove(key));
                assert(expired@.subrange(0, t + 1).to_set() =~= expired@.subrange(0, t as int).to_set().insert(key)) by {
                    assert(expired@.subrange(0, t + 1) =~= expired@.subrange(0, t as int).push(key));
                    expired@.subrange(0, t as int).lemma_push_to_set_commute(key);
                }
                let before = expired@.subrange(0, t as int).to_set();
                let after = expired@.subrange(0, t + 1).to_set();
                let now_m = packet_map(self.packets@);
                let want = p.remove_keys(after);
                assert forall|x: u64| #[trigger] now_m.contains_key(x) == want.contains_key(x) by {
                    assert(packet_map(cur).contains_key(x) == cur.contains_key(x));
                    assert(after.contains(x) == (before.contains(x) || x == key));
                }
                assert forall|x: u64| #[trigger] now_m.contains_key(x) implies now_m[x] == want[x] by {
                    assert(packet_map(cur)[x] == p[x]);
                }
                assert(now_m =~= want);
            }
            t = t + 1;
        }
        let ghost kept = self.packets@;
        proof {
            assert(expired@.subrange(0, expired@.len() as int) =~= expired@);
            assert(packet_map(kept) == p.remove_keys(expired@.to_set()));
        }
        if let Some(n) = self.next_packet_id {
            let mut hit = false;
            let mut u: usize = 0;
            while u < expired.len()
                invariant
                    self.packets@ == kept,
                    u <= expired@.len(),
                    hit == exists|q: int| 0 <= q < u && expired@[q] == n,
                decreases expired@.len() - u,
            {
                if expired[u] == n {
                    hit = true;
                }
                u = u + 1;
            }
            if hit {
                self.next_packet_id = lowest_live;
            }
        }
        proof {
            lemma_late_prefix(keys, late, keys.len());
            let q = self@.packets;
            assert forall|x: u64| #[trigger] late.contains(x) implies expired@.contains(x) by {
                assert(p.contains_key(x));
                assert(orig.contains_key(x));
                assert(kvs.contains((&x, &orig[x])));
                let i = choose|i: int| 0 <= i < kvs.len() && kvs[i] == (&x, &orig[x]);
                assert(keys[i] == x);
            }
            assert(expired@.to_set() =~= late);
            assert(q == packet_map(kept));
            assert(q =~= p.remove_keys(late));
            assert forall|k: u64| #[trigger] q.contains_key(k) implies q[k].packet_id == k by {
                assert(p.contains_key(k));
            }
            if let Some(l) = lowest_live {
                assert forall|j: u64| #[trigger] q.contains_key(j) implies l <= j by {
                    assert(orig.contains_key(j));
                    assert(kvs.contains((&j, &orig[j])));
                    let i = choose|i: int| 0 <= i < kvs.len() && kvs[i] == (&j, &orig[j]);
                    assert(keys[i] == j);
                    if i < lowest_at {
                        assert(late.contains(keys[i]));
                    }
                }
            } else {
                assert forall|j: u64| !#[trigger] q.contains_key(j) by {
                    if q.contains_key(j) {
                        assert(orig.contains_key(j));
                        assert(kvs.contains((&j, &orig[j])));
                        let i = choose|i: int| 0 <= i < kvs.len() && kvs[i] == (&j, &orig[j]);
                        assert(keys[i] == j);
                    }
                }
                assert(q =~= Map::<u64, AudioPacketView>::empty());
            }
        }
        expired
    }

    /// Number of packets held.
    pub fn pending_packet_count(&self) -> (r: usize)
        ensures
            r == self@.packets.len(),
    {
        assert(self@.packets.dom() =~= self.packets@.dom());
        self.packets.len()
    }
}

impl Default for AudioPacketBuffer {
    fn default() -> (r: Self)
        ensures
            r.wf(),
            r@ == (AudioBufferView {
                lock: None,
                next_packet_id: None,
                emitted_any: false,
                packets: Map::empty(),
            }),
    {
        AudioPacketBuffer::new()
    }
}

} // verus!
