//! Collecting the chunks of one video frame as they arrive, in any order.
use vstd::prelude::*;
use crate::documents::{copy_string, MuninnMediaVideoAccessUnitRecord, VideoChunkView};
use crate::media::annexb::VideoAccessUnit;
use crate::media::chunk_key::{chunk_key_text, video_chunk_feedback_key};
use crate::media::error::{AssemblyFault, MediaError, ReassemblyFault};
use crate::media::video::{
    joined_payloads, opt_u64_eq, reassemble_video_access_unit, reassembly_fault, views,
};
use std::collections::BTreeMap;

verus! {

broadcast use vstd::std_specs::btree::group_btree_axioms;

/// The chunks of one frame held so far, slot `i` holding chunk index `i`.
pub ghost struct AssemblyView {
    pub stream_id: Seq<char>,
    pub session_id: Seq<char>,
    pub frame_id: u64,
    pub chunk_count: u16,
    pub slots: Seq<Option<VideoChunkView>>,
}

/// The chunks received so far, keyed by chunk index.
pub struct VideoFrameAssembly {
    stream_id: String,
    session_id: String,
    frame_id: u64,
    chunk_count: u16,
    chunks: BTreeMap<u16, MuninnMediaVideoAccessUnitRecord>,
}

/// What slot `i` holds: the chunk stored under index `i`, if any.
pub open spec fn chunk_slot(m: Map<u16, MuninnMediaVideoAccessUnitRecord>, i: int) -> Option<
    VideoChunkView,
> {
    if m.contains_key(i as u16) {
        Some(m[i as u16]@)
    } else {
        None
    }
}

impl View for VideoFrameAssembly {
    type V = AssemblyView;

    closed spec fn view(&self) -> AssemblyView {
        AssemblyView {
            stream_id: self.stream_id@,
            session_id: self.session_id@,
            frame_id: self.frame_id,
            chunk_count: self.chunk_count,
            slots: Seq::new(self.chunk_count as nat, |i: int| chunk_slot(self.chunks@, i)),
        }
    }
}

/// The media metadata every chunk of one frame repeats.
pub open spec fn same_meta(a: VideoChunkView, b: VideoChunkView) -> bool {
    &&& a.codec == b.codec
    &&& a.pts_ticks == b.pts_ticks
    &&& a.duration_ticks == b.duration_ticks
    &&& a.timebase_num == b.timebase_num
    &&& a.timebase_den == b.timebase_den
    &&& a.deadline_ticks == b.deadline_ticks
    &&& a.keyframe == b.keyframe
    &&& a.dependency_frame_id == b.dependency_frame_id
}

/// Chunk `c` belongs in slot `i` of the assembly `a`.
pub open spec fn fits_slot(a: AssemblyView, c: VideoChunkView, i: int) -> bool {
    &&& c.chunk_index == i
    &&& c.stream_id == a.stream_id
    &&& c.session_id == a.session_id
    &&& c.frame_id == a.frame_id
    &&& c.chunk_count == a.chunk_count
    &&& c.payload.len() > 0
}

/// `i` is the lowest slot that holds a chunk.
pub open spec fn is_first_held(slots: Seq<Option<VideoChunkView>>, i: int) -> bool {
    &&& 0 <= i < slots.len()
    &&& slots[i] is Some
    &&& forall|j: int| 0 <= j < i ==> (#[trigger] slots[j]) is None
}

/// The chunk with the lowest index held, the one met first when the
/// chunks are walked in index order.
pub open spec fn first_held(slots: Seq<Option<VideoChunkView>>) -> Option<VideoChunkView> {
    if exists|i: int| is_first_held(slots, i) {
        slots[choose|i: int| is_first_held(slots, i)]
    } else {
        None
    }
}

pub open spec fn assembly_wf(a: AssemblyView) -> bool {
    &&& a.chunk_count > 0
    &&& a.slots.len() == a.chunk_count
    &&& forall|i: int|
        0 <= i < a.slots.len() ==> (#[trigger] a.slots[i] matches Some(c) ==> fits_slot(a, c, i))
    &&& forall|i: int, j: int|
        0 <= i < a.slots.len() && 0 <= j < a.slots.len() && #[trigger] a.slots[i] is Some
            && #[trigger] a.slots[j] is Some ==> same_meta(a.slots[i]->Some_0, a.slots[j]->Some_0)
    &&& first_held(a.slots) is Some
}

/// Why a first chunk cannot open an assembly, if it cannot.
pub open spec fn new_assembly_fault(c: VideoChunkView) -> Option<AssemblyFault> {
    if c.chunk_count == 0 {
        Some(AssemblyFault::ZeroChunkCount)
    } else if c.chunk_index >= c.chunk_count {
        Some(AssemblyFault::IndexOutside(c.chunk_index, c.chunk_count))
    } else if c.payload.len() == 0 {
        Some(AssemblyFault::EmptyPayload)
    } else {
        None
    }
}

/// The assembly opened by chunk `c`.
pub open spec fn fresh_assembly(c: VideoChunkView) -> AssemblyView {
    AssemblyView {
        stream_id: c.stream_id,
        session_id: c.session_id,
        frame_id: c.frame_id,
        chunk_count: c.chunk_count,
        slots: Seq::new(c.chunk_count as nat, |i: int| None::<VideoChunkView>).update(
            c.chunk_index as int,
            Some(c),
        ),
    }
}

/// Why chunk `c` cannot join assembly `a`, in the order the checks run.
pub open spec fn insert_fault(a: AssemblyView, c: VideoChunkView) -> Option<AssemblyFault> {
    if c.stream_id != a.stream_id {
        Some(AssemblyFault::MixedStreamId)
    } else if c.session_id != a.session_id {
        Some(AssemblyFault::MixedSessionId)
    } else if c.frame_id != a.frame_id {
        Some(AssemblyFault::MixedFrameId)
    } else if c.chunk_count != a.chunk_count {
        Some(AssemblyFault::MixedChunkCount)
    } else if c.chunk_index >= a.chunk_count {
        Some(AssemblyFault::IndexOutside(c.chunk_index, a.chunk_count))
    } else if c.payload.len() == 0 {
        Some(AssemblyFault::EmptyPayload)
    } else if first_held(a.slots) matches Some(f) && !same_meta(c, f) {
        Some(AssemblyFault::MixedMetadata)
    } else if a.slots[c.chunk_index as int] is Some {
        Some(AssemblyFault::Duplicate(c.chunk_index))
    } else {
        None
    }
}

/// Every chunk of the frame is held.
pub open spec fn assembly_complete(a: AssemblyView) -> bool {
    forall|i: int| 0 <= i < a.slots.len() ==> (#[trigger] a.slots[i]) is Some
}

/// Feedback keys of the first `n` slots that hold nothing, in index order.
pub open spec fn missing_keys(slots: Seq<Option<VideoChunkView>>, frame_id: u64, n: nat) -> Seq<
    Seq<char>,
>
    decreases n,
{
    if n == 0 {
        Seq::empty()
    } else {
        let rest = missing_keys(slots, frame_id, (n - 1) as nat);
        if slots[n - 1] is None {
            rest.push(chunk_key_text(frame_id, (n - 1) as u16))
        } else {
            rest
        }
    }
}

/// The chunks held in the first `n` slots, in index order.
pub open spec fn held_prefix(slots: Seq<Option<VideoChunkView>>, n: nat) -> Seq<VideoChunkView>
    decreases n,
{
    if n == 0 {
        Seq::empty()
    } else {
        let rest = held_prefix(slots, (n - 1) as nat);
        match slots[n - 1] {
            Some(c) => rest.push(c),
            None => rest,
        }
    }
}

pub open spec fn held_chunks(a: AssemblyView) -> Seq<VideoChunkView> {
    held_prefix(a.slots, a.slots.len())
}

/// What joining the held chunks gives.
pub open spec fn reassembly_outcome(a: AssemblyView, r: Result<VideoAccessUnit, MediaError>) -> bool {
    let held = held_chunks(a);
    match reassembly_fault(held) {
        Some(f) => r == Err::<VideoAccessUnit, MediaError>(MediaError::Reassembly(f)),
        None => r matches Ok(au) && au.keyframe == held[0].keyframe && au.bytes@ == joined_payloads(
            held,
            held[0].chunk_count as nat,
        ),
    }
}

proof fn lemma_first_held_unique(slots: Seq<Option<VideoChunkView>>, i: int, j: int)
    requires
        is_first_held(slots, i),
        is_first_held(slots, j),
    ensures
        i == j,
{
    if i < j {
        assert(slots[i] is None);
    } else if j < i {
        assert(slots[j] is None);
    }
}

proof fn lemma_first_held_at(slots: Seq<Option<VideoChunkView>>, i: int)
    requires
        is_first_held(slots, i),
    ensures
        first_held(slots) == slots[i],
{
    let k = choose|k: int| is_first_held(slots, k);
    lemma_first_held_unique(slots, i, k);
}

proof fn lemma_held_prefix_full(slots: Seq<Option<VideoChunkView>>, n: nat)
    requires
        n <= slots.len(),
        forall|i: int| 0 <= i < n ==> (#[trigger] slots[i]) is Some,
    ensures
        held_prefix(slots, n).len() == n,
        forall|i: int| 0 <= i < n ==> #[trigger] held_prefix(slots, n)[i] == slots[i]->Some_0,
    decreases n,
{
    if n > 0 {
        lemma_held_prefix_full(slots, (n - 1) as nat);
        assert(slots[n - 1] is Some);
    }
}

proof fn lemma_complete_no_fault_from(a: AssemblyView, held: Seq<VideoChunkView>, k: nat)
    requires
        assembly_wf(a),
        held.len() == a.slots.len(),
        forall|i: int| 0 <= i < held.len() ==> a.slots[i] == Some(#[trigger] held[i]),
        k <= held.len(),
    ensures
        crate::media::video::first_chunk_fault(held, k) is None,
    decreases held.len() - k,
{
    if k < held.len() {
        lemma_complete_no_fault_from(a, held, k + 1);
        let first = held[0];
        let c = held[k as int];
        let earlier = held.subrange(0, k as int);
        assert(a.slots[0] == Some(first));
        assert(a.slots[k as int] == Some(c));
        assert(fits_slot(a, first, 0));
        assert(fits_slot(a, c, k as int));
        assert(same_meta(a.slots[k as int]->Some_0, a.slots[0]->Some_0));
        assert forall|j: int| 0 <= j < earlier.len() implies (#[trigger] earlier[j]).chunk_index
            != c.chunk_index by {
            assert(earlier[j] == held[j]);
            assert(a.slots[j] == Some(held[j]));
            assert(fits_slot(a, held[j], j));
        }
        assert(crate::media::video::chunk_fault(first, c, earlier) is None);
    }
}

/// Once every chunk of a frame is held, joining them cannot fail: the
/// assembly's own checks already rule out every reassembly fault.
pub proof fn law_complete_assembly_reassembles(a: AssemblyView)
    requires
        assembly_wf(a),
        assembly_complete(a),
    ensures
        reassembly_fault(held_chunks(a)) is None,
        held_chunks(a).len() == a.chunk_count,
        forall|i: int| 0 <= i < a.chunk_count ==> Some(#[trigger] held_chunks(a)[i]) == a.slots[i],
{
    let held = held_chunks(a);
    lemma_held_prefix_full(a.slots, a.slots.len());
    assert forall|i: int| 0 <= i < held.len() implies a.slots[i] == Some(#[trigger] held[i]) by {
        assert(a.slots[i] is Some);
    }
    lemma_complete_no_fault_from(a, held, 0);
    assert(a.slots[0] is Some);
    assert(fits_slot(a, held[0], 0));
}

/// The assembly after chunks `cs` were taken in, in turn, into `a`.
pub open spec fn after_inserts(a: AssemblyView, cs: Seq<VideoChunkView>) -> AssemblyView
    decreases cs.len(),
{
    if cs.len() == 0 {
        a
    } else {
        let b = after_inserts(a, cs.drop_last());
        AssemblyView { slots: b.slots.update(cs.last().chunk_index as int, Some(cs.last())), ..b }
    }
}

/// Every insert of `cs`, in turn, is taken.
pub open spec fn inserts_taken(a: AssemblyView, cs: Seq<VideoChunkView>) -> bool {
    forall|k: int|
        0 <= k < cs.len() ==> insert_fault(after_inserts(a, cs.subrange(0, k)), #[trigger] cs[k]) is None
}

/// Whether chunk index `i` arrived: as the first chunk or in an insert.
pub open spec fn received(c0: VideoChunkView, cs: Seq<VideoChunkView>, i: int) -> bool {
    c0.chunk_index == i || exists|k: int| 0 <= k < cs.len() && #[trigger] cs[k].chunk_index == i
}

/// Feedback keys of the chunk indices below `n` that did not arrive, in
/// index order.
pub open spec fn unreceived_keys(c0: VideoChunkView, cs: Seq<VideoChunkView>, n: nat) -> Seq<Seq<char>>
    decreases n,
{
    if n == 0 {
        Seq::empty()
    } else {
        let rest = unreceived_keys(c0, cs, (n - 1) as nat);
        if received(c0, cs, n - 1) {
            rest
        } else {
            rest.push(chunk_key_text(c0.frame_id, (n - 1) as u16))
        }
    }
}

proof fn lemma_after_inserts(c0: VideoChunkView, cs: Seq<VideoChunkView>)
    requires
        new_assembly_fault(c0) is None,
        inserts_taken(fresh_assembly(c0), cs),
    ensures
        after_inserts(fresh_assembly(c0), cs).frame_id == c0.frame_id,
        after_inserts(fresh_assembly(c0), cs).chunk_count == c0.chunk_count,
        after_inserts(fresh_assembly(c0), cs).slots.len() == c0.chunk_count,
        forall|i: int|
            0 <= i < c0.chunk_count ==> (#[trigger] after_inserts(fresh_assembly(c0), cs).slots[i] is Some
                <==> received(c0, cs, i)),
    decreases cs.len(),
{
    let a = fresh_assembly(c0);
    if cs.len() > 0 {
        let d = cs.drop_last();
        assert forall|k: int| 0 <= k < d.len() implies insert_fault(after_inserts(a, d.subrange(0, k)), #[trigger] d[k]) is None by {
            assert(d.subrange(0, k) =~= cs.subrange(0, k));
            assert(d[k] == cs[k]);
        }
        lemma_after_inserts(c0, d);
        let last = cs.len() - 1;
        assert(cs.subrange(0, last) =~= d);
        assert(insert_fault(after_inserts(a, cs.subrange(0, last)), cs[last]) is None);
        assert(cs.last() == cs[last]);
        let b = after_inserts(a, d);
        assert forall|i: int| 0 <= i < c0.chunk_count implies (#[trigger] after_inserts(a, cs).slots[i] is Some
            <==> received(c0, cs, i)) by {
            if received(c0, d, i) && c0.chunk_index != i {
                let k = choose|k: int| 0 <= k < d.len() && #[trigger] d[k].chunk_index == i;
                assert(cs[k] == d[k]);
            }
            if received(c0, cs, i) && c0.chunk_index != i && i != cs.last().chunk_index {
                let k = choose|k: int| 0 <= k < cs.len() && #[trigger] cs[k].chunk_index == i;
                assert(k != last);
                assert(d[k] == cs[k]);
            }
        }
    } else {
        assert forall|i: int| 0 <= i < c0.chunk_count implies (#[trigger] after_inserts(a, cs).slots[i] is Some
            <==> received(c0, cs, i)) by {
        }
    }
}

proof fn lemma_missing_unreceived(c0: VideoChunkView, cs: Seq<VideoChunkView>, slots: Seq<Option<VideoChunkView>>, n: nat)
    requires
        n <= slots.len(),
        n <= 65536,
        forall|i: int| 0 <= i < n ==> (#[trigger] slots[i] is Some <==> received(c0, cs, i)),
    ensures
        missing_keys(slots, c0.frame_id, n) == unreceived_keys(c0, cs, n),
    decreases n,
{
    if n > 0 {
        lemma_missing_unreceived(c0, cs, slots, (n - 1) as nat);
        assert(slots[n - 1] is Some <==> received(c0, cs, n - 1));
    }
}

proof fn lemma_no_missing_keys(slots: Seq<Option<VideoChunkView>>, f: u64, n: nat)
    requires
        n <= slots.len(),
    ensures
        missing_keys(slots, f, n).len() == 0 <==> forall|i: int| 0 <= i < n ==> (#[trigger] slots[i]) is Some,
    decreases n,
{
    if n > 0 {
        lemma_no_missing_keys(slots, f, (n - 1) as nat);
    }
}

/// What feedback asks again for: after a frame's assembly is opened by
/// its first chunk and takes in more chunks, the missing keys are those of
/// the chunk indices that have not arrived, in index order, and the frame
/// is complete exactly when there are none.
///
/// This is what the methods do: `VideoFrameAssembly::new` opens
/// `fresh_assembly` of its first chunk, each `insert` that succeeds
/// (its `insert_fault` is `None`) makes the slot update that
/// `after_inserts` applies, `missing_video_chunk_keys` returns the
/// `missing_keys` of the slots, and `is_complete` returns
/// `assembly_complete`.
pub proof fn law_missing_keys_are_the_unreceived(c0: VideoChunkView, cs: Seq<VideoChunkView>)
    requires
        new_assembly_fault(c0) is None,
        inserts_taken(fresh_assembly(c0), cs),
    ensures
        ({
            let a = after_inserts(fresh_assembly(c0), cs);
            &&& missing_keys(a.slots, a.frame_id, a.slots.len()) == unreceived_keys(c0, cs, c0.chunk_count as nat)
            &&& assembly_complete(a) <==> missing_keys(a.slots, a.frame_id, a.slots.len()).len() == 0
        }),
{
    let a = after_inserts(fresh_assembly(c0), cs);
    lemma_after_inserts(c0, cs);
    lemma_missing_unreceived(c0, cs, a.slots, c0.chunk_count as nat);
    lemma_no_missing_keys(a.slots, a.frame_id, a.slots.len());
}

impl VideoFrameAssembly {
    pub open spec fn wf(&self) -> bool {
        assembly_wf(self@)
    }

    proof fn lemma_view_slot(&self, i: int)
        requires
            0 <= i < self.chunk_count,
        ensures
            self@.slots.len() == self.chunk_count,
            self@.slots[i] == chunk_slot(self.chunks@, i),
    {
    }

    /// The chunk stored under index `i`.
    fn slot(&self, i: usize) -> (r: Option<&MuninnMediaVideoAccessUnitRecord>)
        requires
            i < self.chunk_count,
        ensures
            self@.slots[i as int] == match r {
                Some(c) => Some(c@),
                None => None::<VideoChunkView>,
            },
    {
        let k: u16 = i as u16;
        let r = self.chunks.get(&k);
        proof {
            self.lemma_view_slot(i as int);
        }
        r
    }

    /// Opens the assembly of a frame with its first received chunk.
    pub fn new(first_chunk: MuninnMediaVideoAccessUnitRecord) -> (r: Result<Self, MediaError>)
        ensures
            match new_assembly_fault(first_chunk@) {
                Some(f) => r == Err::<Self, MediaError>(MediaError::Assembly(f)),
                None => r matches Ok(a) && a.wf() && a@ == fresh_assembly(first_chunk@),
            },
    {
        let count = first_chunk.chunk_count;
        if count == 0 {
            return Err(MediaError::Assembly(AssemblyFault::ZeroChunkCount));
        }
        if first_chunk.chunk_index >= count {
            return Err(
                MediaError::Assembly(AssemblyFault::IndexOutside(first_chunk.chunk_index, count)),
            );
        }
        if first_chunk.payload.len() == 0 {
            return Err(MediaError::Assembly(AssemblyFault::EmptyPayload));
        }
        let ghost c = first_chunk@;
        let index = first_chunk.chunk_index as usize;
        let key = first_chunk.chunk_index;
        let stream_id = copy_string(&first_chunk.stream_id);
        let session_id = copy_string(&first_chunk.session_id);
        let frame_id = first_chunk.frame_id;
        let mut chunks: BTreeMap<u16, MuninnMediaVideoAccessUnitRecord> = BTreeMap::new();
        chunks.insert(key, first_chunk);
        let a = VideoFrameAssembly { stream_id, session_id, frame_id, chunk_count: count, chunks };
        proof {
            let fresh = fresh_assembly(c);
            assert(a@.slots =~= fresh.slots) by {
                assert forall|j: int| 0 <= j < fresh.slots.len() implies a@.slots[j]
                    == fresh.slots[j] by {
                    a.lemma_view_slot(j);
                    if j != index as int {
                        assert(j as u16 != key);
                    }
                }
            }
            assert(a@ == fresh);
            assert(is_first_held(a@.slots, index as int));
            lemma_first_held_at(a@.slots, index as int);
        }
        Ok(a)
    }

    /// The index of the lowest slot that holds a chunk.
    fn first_index(&self) -> (r: usize)
        requires
            self.wf(),
        ensures
            is_first_held(self@.slots, r as int),
            first_held(self@.slots) == self@.slots[r as int],
    {
        let ghost slots = self@.slots;
        let count = self.chunk_count as usize;
        let mut i: usize = 0;
        while i < count
            invariant
                slots == self@.slots,
                slots.len() == count == self.chunk_count,
                i <= slots.len(),
                forall|j: int| 0 <= j < i ==> (#[trigger] slots[j]) is None,
                first_held(slots) is Some,
            decreases slots.len() - i,
        {
            if self.slot(i).is_some() {
                proof {
                    assert(is_first_held(slots, i as int));
                    lemma_first_held_at(slots, i as int);
                }
                return i;
            }
            i = i + 1;
        }
        proof {
            let k = choose|k: int| is_first_held(slots, k);
            assert(slots[k] is None);
        }
        0
    }

    /// Adds one more chunk of the same frame.
    pub fn insert(&mut self, chunk: MuninnMediaVideoAccessUnitRecord) -> (r: Result<(), MediaError>)
        requires
            old(self).wf(),
        ensures
            final(self).wf(),
            match insert_fault(old(self)@, chunk@) {
                Some(f) => r == Err::<(), MediaError>(MediaError::Assembly(f)) && final(self)@ == old(
                    self,
                )@,
                None => r is Ok && final(self)@ == (AssemblyView {
                    slots: old(self)@.slots.update(chunk.chunk_index as int, Some(chunk@)),
                    ..old(self)@
                }),
            },
    {
        let ghost a = self@;
        let ghost c = chunk@;
        if chunk.stream_id != self.stream_id {
            return Err(MediaError::Assembly(AssemblyFault::MixedStreamId));
        }
        if chunk.session_id != self.session_id {
            return Err(MediaError::Assembly(AssemblyFault::MixedSessionId));
        }
        if chunk.frame_id != self.frame_id {
            return Err(MediaError::Assembly(AssemblyFault::MixedFrameId));
        }
        if chunk.chunk_count != self.chunk_count {
            return Err(MediaError::Assembly(AssemblyFault::MixedChunkCount));
        }
        if chunk.chunk_index >= self.chunk_count {
            return Err(
                MediaError::Assembly(
                    AssemblyFault::IndexOutside(chunk.chunk_index, self.chunk_count),
                ),
            );
        }
        if chunk.payload.len() == 0 {
            return Err(MediaError::Assembly(AssemblyFault::EmptyPayload));
        }
        let fi = self.first_index();
        let mixed = match self.slot(fi) {
            Some(first) => {
                chunk.codec != first.codec || chunk.pts_ticks != first.pts_ticks
                    || chunk.duration_ticks != first.duration_ticks || chunk.timebase_num
                    != first.timebase_num || chunk.timebase_den != first.timebase_den
                    || chunk.deadline_ticks != first.deadline_ticks || chunk.keyframe
                    != first.keyframe || !opt_u64_eq(
                    chunk.dependency_frame_id,
                    first.dependency_frame_id,
                )
            },
            None => false,
        };
        if mixed {
            return Err(MediaError::Assembly(AssemblyFault::MixedMetadata));
        }
        let index = chunk.chunk_index as usize;
        let key = chunk.chunk_index;
        if self.slot(index).is_some() {
            return Err(MediaError::Assembly(AssemblyFault::Duplicate(chunk.chunk_index)));
        }
        let ghost first = a.slots[fi as int]->Some_0;
        let ghost before = self.chunks@;
        self.chunks.insert(key, chunk);
        proof {
            let b = AssemblyView { slots: a.slots.update(index as int, Some(c)), ..a };
            assert(self@.slots =~= b.slots) by {
                assert forall|j: int| 0 <= j < b.slots.len() implies self@.slots[j]
                    == b.slots[j] by {
                    self.lemma_view_slot(j);
                    if j != index as int {
                        assert(j as u16 != key);
                        assert(chunk_slot(before, j) == a.slots[j]);
                    }
                }
            }
            assert(self@ == b);
            assert forall|i: int, j: int|
                0 <= i < b.slots.len() && 0 <= j < b.slots.len() && #[trigger] b.slots[i] is Some
                    && #[trigger] b.slots[j] is Some implies same_meta(
                b.slots[i]->Some_0,
                b.slots[j]->Some_0,
            ) by {
                assert(a.slots[fi as int] is Some);
                if i != index as int {
                    assert(same_meta(a.slots[i]->Some_0, first));
                }
                if j != index as int {
                    assert(same_meta(a.slots[j]->Some_0, first));
                }
            }
            if (index as int) < (fi as int) {
                assert(is_first_held(b.slots, index as int));
                lemma_first_held_at(b.slots, index as int);
            } else {
                assert(is_first_held(b.slots, fi as int));
                lemma_first_held_at(b.slots, fi as int);
            }
        }
        Ok(())
    }

    /// Every chunk of the frame has arrived.
    pub fn is_complete(&self) -> (r: bool)
        requires
            self.wf(),
        ensures
            r == assembly_complete(self@),
    {
        let count = self.chunk_count as usize;
        let mut i: usize = 0;
        while i < count
            invariant
                self@.slots.len() == count == self.chunk_count,
                i <= count,
                forall|j: int| 0 <= j < i ==> (#[trigger] self@.slots[j]) is Some,
            decreases count - i,
        {
            if self.slot(i).is_none() {
                return false;
            }
            i = i + 1;
        }
        true
    }

    /// Feedback keys of the chunks that have not arrived, in index order.
    pub fn missing_video_chunk_keys(&self) -> (r: Vec<String>)
        requires
            self.wf(),
        ensures
            r@.map_values(|k: String| k@) == missing_keys(
                self@.slots,
                self@.frame_id,
                self@.slots.len(),
            ),
    {
        let ghost slots = self@.slots;
        let mut out: Vec<String> = Vec::new();
        let count = self.chunk_count as usize;
        let mut i: usize = 0;
        while i < count
            invariant
                slots == self@.slots,
                slots.len() == count == self.chunk_count,
                self@.frame_id == self.frame_id,
                i <= slots.len(),
                out@.map_values(|k: String| k@) == missing_keys(slots, self.frame_id, i as nat),
            decreases slots.len() - i,
        {
            let ghost prev = out@;
            if self.slot(i).is_none() {
                let key = video_chunk_feedback_key(self.frame_id, i as u16);
                out.push(key);
                assert(out@.map_values(|k: String| k@) =~= prev.map_values(|k: String| k@).push(
                    chunk_key_text(self.frame_id, i as u16),
                ));
            }
            i = i + 1;
        }
        out
    }

    /// The playout deadline the held chunks carry.
    pub fn deadline_ticks(&self) -> (r: i64)
        requires
            self.wf(),
        ensures
            r == first_held(self@.slots)->Some_0.deadline_ticks,
    {
        let fi = self.first_index();
        match self.slot(fi) {
            Some(c) => c.deadline_ticks,
            None => 0,
        }
    }

    /// Whether losing this frame breaks the decode chain: it is a keyframe or
    /// later frames depend on it.
    pub fn invalidates_decode_chain(&self) -> (r: bool)
        requires
            self.wf(),
        ensures
            r == (first_held(self@.slots)->Some_0.keyframe || first_held(
                self@.slots,
            )->Some_0.dependency_frame_id is Some),
    {
        let fi = self.first_index();
        match self.slot(fi) {
            Some(c) => c.keyframe || c.dependency_frame_id.is_some(),
            None => false,
        }
    }

    /// Joins the held chunks in index order.
    pub fn reassemble(&self) -> (r: Result<VideoAccessUnit, MediaError>)
        requires
            self.wf(),
        ensures
            reassembly_outcome(self@, r),
    {
        let ghost slots = self@.slots;
        let mut held: Vec<MuninnMediaVideoAccessUnitRecord> = Vec::new();
        let count = self.chunk_count as usize;
        let mut i: usize = 0;
        while i < count
            invariant
                slots == self@.slots,
                slots.len() == count == self.chunk_count,
                i <= slots.len(),
                views(held@) == held_prefix(slots, i as nat),
            decreases slots.len() - i,
        {
            let ghost prev = held@;
            if let Some(c) = self.slot(i) {
                held.push(c.duplicate());
                assert(views(held@) =~= views(prev).push(c@));
            }
            i = i + 1;
        }
        let r = reassemble_video_access_unit(held.as_slice());
        proof {
            let v = held_chunks(self@);
            assert(views(held@) == v);
            if reassembly_fault(v) is None {
                assert(v.len() > 0);
                assert(v[0] == held@[0]@);
            }
        }
        r
    }
}

} // verus!
