//! Cauchy Reed-Solomon parity over the chunks of one video frame, and the
//! wire order that bookends each frame's data with its parity.
use vstd::prelude::*;
use crate::documents::{
    copy_string, MuninnMediaVideoAccessUnitRecord, MuninnMediaVideoParityShardRecord,
    VideoChunkView, VideoParityView,
};
use crate::media::error::{MediaError, ParityFault, RecordKind};
use crate::media::gf256::{gf256_inv, gf256_mul, gf_inv, gf_mul};
use crate::media::wire::{MuninnMediaWireRecord, WireView};
use crate::media::video::{
    count_some, lemma_count_some_full, lemma_count_some_update, lemma_count_zero, opt_u64_eq,
    position_of, validate_video_record, video_record_fault, views,
};

verus! {

/// The most parity shards one frame carries.
pub const MUNINN_VIDEO_PARITY_SHARDS: u16 = 16;

/// Cauchy coefficient of data chunk `i` in parity row `p` of `pc` rows:
/// the inverse of `x_p + y_i` with `x_p = p` and `y_i = pc + i`.
pub open spec fn video_coef(p: u16, pc: u16, i: u16) -> u8 {
    gf_inv(((p as u8) ^ ((pc + i) as u8)) as u8)
}

pub fn video_fec_coefficient(parity_index: u16, parity_count: u16, data_index: u16) -> (r: u8)
    requires
        parity_count + data_index <= 255,
    ensures
        r == video_coef(parity_index, parity_count, data_index),
{
    let x = parity_index as u8;
    let y = (parity_count + data_index) as u8;
    gf256_inv(x ^ y)
}

/// All fields that every chunk of one frame must repeat for parity.
pub open spec fn same_parity_frame(c: VideoChunkView, f: VideoChunkView) -> bool {
    &&& c.stream_id == f.stream_id
    &&& c.session_id == f.session_id
    &&& c.frame_id == f.frame_id
    &&& c.codec == f.codec
    &&& c.pts_ticks == f.pts_ticks
    &&& c.duration_ticks == f.duration_ticks
    &&& c.timebase_num == f.timebase_num
    &&& c.timebase_den == f.timebase_den
    &&& c.keyframe == f.keyframe
    &&& c.dependency_frame_id == f.dependency_frame_id
    &&& c.deadline_ticks == f.deadline_ticks
    &&& c.chunk_count == f.chunk_count
}

/// The fault chunk `c` raises, given the first chunk and those before it.
pub open spec fn parity_chunk_fault(first: VideoChunkView, c: VideoChunkView, earlier: Seq<VideoChunkView>) -> Option<MediaError> {
    match video_record_fault(c) {
        Some(f) => Some(MediaError::InvalidRecord(RecordKind::Video, f)),
        None => if !same_parity_frame(c, first) {
            Some(MediaError::Parity(ParityFault::Mixed))
        } else if exists|j: int| 0 <= j < earlier.len() && (#[trigger] earlier[j]).chunk_index == c.chunk_index {
            Some(MediaError::Parity(ParityFault::Duplicate(c.chunk_index)))
        } else {
            None
        },
    }
}

pub open spec fn first_parity_fault(v: Seq<VideoChunkView>, k: nat) -> Option<MediaError>
    decreases v.len() - k,
{
    if k >= v.len() {
        None
    } else {
        match parity_chunk_fault(v[0], v[k as int], v.subrange(0, k as int)) {
            Some(e) => Some(e),
            None => first_parity_fault(v, k + 1),
        }
    }
}

/// The payload of the chunk with index `i`.
pub open spec fn payload_at_index(v: Seq<VideoChunkView>, i: int) -> Seq<u8> {
    v[position_of(v, i)].payload
}

/// The longest payload among chunk indices `0..n`.
pub open spec fn max_payload_len(v: Seq<VideoChunkView>, n: nat) -> nat
    decreases n,
{
    if n == 0 {
        0
    } else {
        let m = max_payload_len(v, (n - 1) as nat);
        let l = payload_at_index(v, n - 1).len();
        if l > m {
            l
        } else {
            m
        }
    }
}

/// Parity row count: at most sixteen, at most the chunk count, and few
/// enough that every Cauchy point stays inside the field.
pub open spec fn parity_count_for(count: u16) -> u16 {
    let a = if count < MUNINN_VIDEO_PARITY_SHARDS {
        count
    } else {
        MUNINN_VIDEO_PARITY_SHARDS
    };
    let room = if count < 256 {
        (256 - count) as u16
    } else {
        0u16
    };
    if a < room {
        a
    } else {
        room
    }
}

/// Contribution of one chunk payload to byte `j` of a parity row; a chunk
/// shorter than the row counts as zero there.
pub open spec fn parity_term(payload: Seq<u8>, coef: u8, j: int) -> u8 {
    if j < payload.len() {
        gf_mul(payload[j], coef)
    } else {
        0u8
    }
}

/// Byte `j` of parity row `p`, summed over chunk indices `0..n`.
pub open spec fn parity_byte(v: Seq<VideoChunkView>, p: u16, pc: u16, j: int, n: nat) -> u8
    decreases n,
{
    if n == 0 {
        0u8
    } else {
        parity_byte(v, p, pc, j, (n - 1) as nat) ^ parity_term(
            payload_at_index(v, n - 1),
            video_coef(p, pc, (n - 1) as u16),
            j,
        )
    }
}

/// Parity row `p` of the frame whose chunks are `v`.
pub open spec fn parity_row(v: Seq<VideoChunkView>, p: u16, pc: u16, width: nat, last: nat) -> VideoParityView {
    let f = v[0];
    VideoParityView {
        stream_id: f.stream_id,
        session_id: f.session_id,
        frame_id: f.frame_id,
        codec: f.codec,
        pts_ticks: f.pts_ticks,
        duration_ticks: f.duration_ticks,
        timebase_num: f.timebase_num,
        timebase_den: f.timebase_den,
        keyframe: f.keyframe,
        dependency_frame_id: f.dependency_frame_id,
        deadline_ticks: f.deadline_ticks,
        chunk_count: f.chunk_count,
        parity_index: p,
        parity_count: pc,
        chunk_payload_bytes: width as u32,
        last_chunk_payload_bytes: last as u32,
        payload: Seq::new(width, |j: int| parity_byte(v, p, pc, j, f.chunk_count as nat)),
    }
}

/// What `build_video_parity_shards` gives for the chunks `v`.
pub open spec fn video_parity_spec(v: Seq<VideoChunkView>) -> Result<Seq<VideoParityView>, MediaError> {
    if v.len() <= 1 {
        Ok(Seq::empty())
    } else {
        match video_record_fault(v[0]) {
            Some(f) => Err(MediaError::InvalidRecord(RecordKind::Video, f)),
            None => if v.len() != v[0].chunk_count {
                Err(
                    MediaError::Parity(ParityFault::MissingChunks(v[0].chunk_count, v.len() as usize)),
                )
            } else {
                match first_parity_fault(v, 0) {
                    Some(e) => Err(e),
                    None => {
                        let count = v[0].chunk_count;
                        let last = payload_at_index(v, count - 1).len();
                        let width = max_payload_len(v, count as nat);
                        if last > u32::MAX {
                            Err(MediaError::Parity(ParityFault::LastLengthExceedsU32))
                        } else if width > u32::MAX {
                            Err(MediaError::Parity(ParityFault::LengthExceedsU32))
                        } else {
                            let pc = parity_count_for(count);
                            Ok(Seq::new(pc as nat, |p: int| parity_row(v, p as u16, pc, width, last)))
                        }
                    },
                }
            },
        }
    }
}

pub open spec fn parity_views(r: Seq<MuninnMediaVideoParityShardRecord>) -> Seq<VideoParityView> {
    r.map_values(|x: MuninnMediaVideoParityShardRecord| x@)
}

proof fn lemma_xor_zero(x: u8)
    ensures
        x ^ 0u8 == x,
{
    assert(x ^ 0u8 == x) by (bit_vector);
}

proof fn lemma_max_payload_len(v: Seq<VideoChunkView>, n: nat, i: int)
    requires
        0 <= i < n,
    ensures
        payload_at_index(v, i).len() <= max_payload_len(v, n),
    decreases n,
{
    if i < n - 1 {
        lemma_max_payload_len(v, (n - 1) as nat, i);
    }
}

/// Builds the parity shards of one complete frame. A frame of one chunk
/// gets none.
pub fn build_video_parity_shards(chunks: &[MuninnMediaVideoAccessUnitRecord]) -> (r: Result<
    Vec<MuninnMediaVideoParityShardRecord>,
    MediaError,
>)
    ensures
        match video_parity_spec(views(chunks@)) {
            Ok(rows) => r matches Ok(out) && parity_views(out@) == rows,
            Err(e) => r == Err::<Vec<MuninnMediaVideoParityShardRecord>, MediaError>(e),
        },
{
    let ghost v = views(chunks@);
    if chunks.len() <= 1 {
        let out: Vec<MuninnMediaVideoParityShardRecord> = Vec::new();
        assert(parity_views(out@) =~= Seq::<VideoParityView>::empty());
        return Ok(out);
    }
    let first = &chunks[0];
    assert(v[0] == first@);
    match validate_video_record(first) {
        Ok(()) => {},
        Err(e) => {
            return Err(e);
        },
    }
    let count = first.chunk_count;
    if chunks.len() != count as usize {
        return Err(MediaError::Parity(ParityFault::MissingChunks(count, chunks.len())));
    }
    let mut pos: Vec<Option<usize>> = Vec::new();
    let mut i: u16 = 0;
    while i < count
        invariant
            i <= count,
            pos@.len() == i,
            forall|j: int| 0 <= j < i ==> (#[trigger] pos@[j]) is None,
        decreases count - i,
    {
        pos.push(None);
        i = i + 1;
    }
    proof {
        lemma_count_zero(pos@, count as nat);
    }
    let mut k: usize = 0;
    while k < chunks.len()
        invariant
            v == views(chunks@),
            v.len() == chunks@.len(),
            v.len() == count,
            v[0] == first@,
            video_record_fault(first@) is None,
            count == first.chunk_count,
            count > 0,
            pos@.len() == count,
            k <= chunks@.len(),
            first_parity_fault(v, 0) == first_parity_fault(v, k as nat),
            count_some(pos@, count as nat) == k,
            forall|i: int|
                0 <= i < count ==> (#[trigger] pos@[i] matches Some(j) ==> j < k && v[j as int].chunk_index
                    == i),
            forall|j: int|
                0 <= j < k ==> v[j].chunk_index < count && pos@[v[j].chunk_index as int] == Some(
                    j as usize,
                ),
            forall|j: int| 0 <= j < k ==> same_parity_frame(#[trigger] v[j], first@),
        decreases chunks@.len() - k,
    {
        let chunk = &chunks[k];
        assert(v[k as int] == chunk@);
        let ghost earlier = v.subrange(0, k as int);
        match validate_video_record(chunk) {
            Ok(()) => {},
            Err(e) => {
                return Err(e);
            },
        }
        let mixed = chunk.stream_id != first.stream_id || chunk.session_id != first.session_id
            || chunk.frame_id != first.frame_id || chunk.codec != first.codec || chunk.pts_ticks
            != first.pts_ticks || chunk.duration_ticks != first.duration_ticks
            || chunk.timebase_num != first.timebase_num || chunk.timebase_den != first.timebase_den
            || chunk.keyframe != first.keyframe || !opt_u64_eq(
            chunk.dependency_frame_id,
            first.dependency_frame_id,
        ) || chunk.deadline_ticks != first.deadline_ticks || chunk.chunk_count
            != first.chunk_count;
        if mixed {
            return Err(MediaError::Parity(ParityFault::Mixed));
        }
        let idx = chunk.chunk_index as usize;
        if pos[idx].is_some() {
            proof {
                let j = pos@[idx as int]->Some_0 as int;
                assert(earlier[j] == v[j]);
            }
            return Err(MediaError::Parity(ParityFault::Duplicate(chunk.chunk_index)));
        }
        assert forall|j: int| 0 <= j < earlier.len() implies (#[trigger] earlier[j]).chunk_index
            != chunk@.chunk_index by {
            assert(earlier[j] == v[j]);
        }
        assert(parity_chunk_fault(v[0], v[k as int], earlier) is None);
        proof {
            lemma_count_some_update(pos@, count as nat, idx as int, k);
        }
        pos.set(idx, Some(k));
        k = k + 1;
    }
    proof {
        lemma_count_some_full(pos@, count as nat);
        assert forall|i: int| 0 <= i < count implies position_of(v, i) == (#[trigger] pos@[i])->Some_0 as int by {
            let j = pos@[i]->Some_0 as int;
            assert(v[j].chunk_index == i);
            let q = position_of(v, i);
            assert(v[q].chunk_index == i);
            assert(pos@[v[q].chunk_index as int] == Some(q as usize));
        }
    }
    // Widest chunk, and the length of the last one.
    let mut width: usize = 0;
    let mut last: usize = 0;
    let mut index: u16 = 0;
    while index < count
        invariant
            v == views(chunks@),
            v.len() == count,
            pos@.len() == count,
            index <= count,
            forall|i: int|
                0 <= i < count ==> (#[trigger] pos@[i] matches Some(j) && j < v.len()
                    && position_of(v, i) == j as int),
            width == max_payload_len(v, index as nat),
            index == count ==> last == payload_at_index(v, count - 1).len(),
        decreases count - index,
    {
        let j = match pos[index as usize] {
            Some(j) => j,
            None => {
                assert(false);
                0
            },
        };
        let l = chunks[j].payload.len();
        assert(l == payload_at_index(v, index as int).len());
        if l > width {
            width = l;
        }
        if index == count - 1 {
            last = l;
        }
        index = index + 1;
    }
    if last > 4294967295usize {
        return Err(MediaError::Parity(ParityFault::LastLengthExceedsU32));
    }
    if width > 4294967295usize {
        return Err(MediaError::Parity(ParityFault::LengthExceedsU32));
    }
    let capped: u16 = if count < MUNINN_VIDEO_PARITY_SHARDS {
        count
    } else {
        MUNINN_VIDEO_PARITY_SHARDS
    };
    let room: u16 = if count < 256 {
        256 - count
    } else {
        0
    };
    let parity_count: u16 = if capped < room {
        capped
    } else {
        room
    };
    assert(parity_count == parity_count_for(count));
    let mut records: Vec<MuninnMediaVideoParityShardRecord> = Vec::new();
    let mut p: u16 = 0;
    while p < parity_count
        invariant
            v == views(chunks@),
            v.len() == count,
            v[0] == first@,
            count == first.chunk_count,
            pos@.len() == count,
            forall|i: int|
                0 <= i < count ==> (#[trigger] pos@[i] matches Some(j) && j < v.len()
                    && position_of(v, i) == j as int),
            width == max_payload_len(v, count as nat),
            last == payload_at_index(v, count - 1).len(),
            width <= u32::MAX,
            last <= u32::MAX,
            parity_count == parity_count_for(count),
            parity_count == 0 || parity_count + count <= 256,
            p <= parity_count,
            parity_views(records@) == Seq::new(
                p as nat,
                |q: int| parity_row(v, q as u16, parity_count, width as nat, last as nat),
            ),
        decreases parity_count - p,
    {
        let mut payload: Vec<u8> = Vec::new();
        let mut t: usize = 0;
        while t < width
            invariant
                t <= width,
                payload@.len() == t,
                forall|s: int| 0 <= s < t ==> (#[trigger] payload@[s]) == 0u8,
            decreases width - t,
        {
            payload.push(0u8);
            t = t + 1;
        }
        let mut index: u16 = 0;
        while index < count
            invariant
                v == views(chunks@),
                v.len() == count,
                pos@.len() == count,
                forall|i: int|
                    0 <= i < count ==> (#[trigger] pos@[i] matches Some(j) && j < v.len()
                        && position_of(v, i) == j as int),
                width == max_payload_len(v, count as nat),
                parity_count + count <= 256,
                p < parity_count,
                index <= count,
                payload@.len() == width,
                forall|s: int|
                    0 <= s < width ==> (#[trigger] payload@[s]) == parity_byte(
                        v,
                        p,
                        parity_count,
                        s,
                        index as nat,
                    ),
            decreases count - index,
        {
            let j = match pos[index as usize] {
                Some(j) => j,
                None => {
                    assert(false);
                    0
                },
            };
            let coefficient = video_fec_coefficient(p, parity_count, index);
            let chunk = &chunks[j];
            let ghost data = payload_at_index(v, index as int);
            assert(chunk.payload@ == data);
            proof {
                lemma_max_payload_len(v, count as nat, index as int);
            }
            let ghost before = payload@;
            let mut off: usize = 0;
            while off < chunk.payload.len()
                invariant
                    chunk.payload@ == data,
                    data.len() <= width,
                    payload@.len() == width,
                    before.len() == width,
                    off <= data.len(),
                    coefficient == video_coef(p, parity_count, index),
                    forall|s: int| 0 <= s < off ==> (#[trigger] payload@[s]) == before[s] ^ gf_mul(
                        data[s],
                        coefficient,
                    ),
                    forall|s: int| off <= s < width ==> (#[trigger] payload@[s]) == before[s],
                decreases data.len() - off,
            {
                let b = gf256_mul(chunk.payload[off], coefficient);
                let cur = payload[off];
                payload.set(off, cur ^ b);
                off = off + 1;
            }
            proof {
                assert forall|s: int| 0 <= s < width implies (#[trigger] payload@[s]) == parity_byte(
                    v,
                    p,
                    parity_count,
                    s,
                    (index + 1) as nat,
                ) by {
                    assert(parity_byte(v, p, parity_count, s, (index + 1) as nat) == parity_byte(
                        v,
                        p,
                        parity_count,
                        s,
                        index as nat,
                    ) ^ parity_term(data, coefficient, s));
                    if s >= data.len() {
                        lemma_xor_zero(before[s]);
                    }
                }
            }
            index = index + 1;
        }
        let record = MuninnMediaVideoParityShardRecord {
            stream_id: copy_string(&first.stream_id),
            session_id: copy_string(&first.session_id),
            frame_id: first.frame_id,
            codec: copy_string(&first.codec),
            pts_ticks: first.pts_ticks,
            duration_ticks: first.duration_ticks,
            timebase_num: first.timebase_num,
            timebase_den: first.timebase_den,
            keyframe: first.keyframe,
            dependency_frame_id: first.dependency_frame_id,
            deadline_ticks: first.deadline_ticks,
            chunk_count: first.chunk_count,
            parity_index: p,
            parity_count,
            chunk_payload_bytes: width as u32,
            last_chunk_payload_bytes: last as u32,
            payload,
        };
        let ghost prev = records@;
        records.push(record);
        proof {
            let row = parity_row(v, p, parity_count, width as nat, last as nat);
            assert(record@.payload =~= row.payload);
            assert(record@ == row);
            assert(parity_views(records@) =~= Seq::new(
                (p + 1) as nat,
                |q: int| parity_row(v, q as u16, parity_count, width as nat, last as nat),
            )) by {
                assert(parity_views(records@) =~= parity_views(prev).push(record@));
            }
        }
        p = p + 1;
    }
    Ok(records)
}

/// Chunks `a` and `b` belong to the same frame of the same stream.
pub open spec fn same_frame_key(a: VideoChunkView, b: VideoChunkView) -> bool {
    a.stream_id == b.stream_id && a.session_id == b.session_id && a.frame_id == b.frame_id
}

/// End of the run of records from `offset` that share its frame, scanning
/// from `end`.
pub open spec fn group_end(v: Seq<VideoChunkView>, offset: int, end: int) -> int
    decreases v.len() - end,
{
    if 0 <= offset < v.len() && offset < end < v.len() && same_frame_key(v[end], v[offset]) {
        group_end(v, offset, end + 1)
    } else {
        end
    }
}

pub proof fn lemma_group_end(v: Seq<VideoChunkView>, offset: int, end: int)
    requires
        0 <= offset < end <= v.len(),
    ensures
        end <= group_end(v, offset, end) <= v.len(),
    decreases v.len() - end,
{
    if end < v.len() && same_frame_key(v[end], v[offset]) {
        lemma_group_end(v, offset, end + 1);
    }
}

pub open spec fn parity_wire(p: Seq<VideoParityView>) -> Seq<WireView> {
    p.map_values(|x: VideoParityView| WireView::VideoParity(x))
}

pub open spec fn data_wire(d: Seq<VideoChunkView>) -> Seq<WireView> {
    d.map_values(|x: VideoChunkView| WireView::Video(x))
}

/// The wire records of the frames from `offset` on: each frame's data
/// between the first half (rounded up) and the rest of its parity.
pub open spec fn wire_from(v: Seq<VideoChunkView>, offset: int) -> Result<Seq<WireView>, MediaError>
    decreases v.len() - offset,
{
    if offset < 0 || offset >= v.len() {
        Ok(Seq::empty())
    } else {
        let end = group_end(v, offset, offset + 1);
        proof {
            lemma_group_end(v, offset, offset + 1);
        }
        match video_parity_spec(v.subrange(offset, end)) {
            Err(e) => Err(e),
            Ok(par) => {
                let split = (par.len() + 1) / 2;
                let here = parity_wire(par.subrange(0, split as int)) + data_wire(
                    v.subrange(offset, end),
                ) + parity_wire(par.subrange(split as int, par.len() as int));
                match wire_from(v, end) {
                    Err(e) => Err(e),
                    Ok(rest) => Ok(here + rest),
                }
            },
        }
    }
}

pub open spec fn wire_views(w: Seq<MuninnMediaWireRecord>) -> Seq<WireView> {
    w.map_values(|x: MuninnMediaWireRecord| x@)
}

/// The records of consecutive frames with each frame's parity around it.
pub fn video_wire_records_with_parity(records: &[MuninnMediaVideoAccessUnitRecord]) -> (r: Result<
    Vec<MuninnMediaWireRecord>,
    MediaError,
>)
    ensures
        match wire_from(views(records@), 0) {
            Ok(w) => r matches Ok(out) && wire_views(out@) == w,
            Err(e) => r == Err::<Vec<MuninnMediaWireRecord>, MediaError>(e),
        },
{
    let ghost v = views(records@);
    let mut out: Vec<MuninnMediaWireRecord> = Vec::new();
    let mut offset: usize = 0;
    while offset < records.len()
        invariant
            v == views(records@),
            v.len() == records@.len(),
            offset <= records@.len(),
            wire_from(v, 0) == match wire_from(v, offset as int) {
                Ok(rest) => Ok(wire_views(out@) + rest),
                Err(e) => Err::<Seq<WireView>, MediaError>(e),
            },
        decreases records@.len() - offset,
    {
        let first = &records[offset];
        assert(v[offset as int] == first@);
        let mut end = offset + 1;
        while end < records.len() && records[end].stream_id == first.stream_id
            && records[end].session_id == first.session_id && records[end].frame_id
            == first.frame_id
            invariant
                v == views(records@),
                v.len() == records@.len(),
                v[offset as int] == first@,
                offset < end <= records@.len(),
                group_end(v, offset as int, offset + 1) == group_end(v, offset as int, end as int),
            decreases records@.len() - end,
        {
            assert(v[end as int] == records@[end as int]@);
            end = end + 1;
        }
        proof {
            if end < records.len() {
                assert(v[end as int] == records@[end as int]@);
            }
            lemma_group_end(v, offset as int, offset + 1);
        }
        let group = &records[offset..end];
        assert(views(group@) =~= v.subrange(offset as int, end as int));
        let parity = match build_video_parity_shards(group) {
            Ok(p) => p,
            Err(e) => {
                return Err(e);
            },
        };
        let ghost par = parity_views(parity@);
        let split = parity.len() / 2 + parity.len() % 2;
        assert(split == (par.len() + 1) / 2);
        let ghost before = wire_views(out@);
        let mut q: usize = 0;
        while q < split
            invariant
                par == parity_views(parity@),
                split <= parity@.len(),
                q <= split,
                wire_views(out@) == before + parity_wire(par.subrange(0, q as int)),
            decreases split - q,
        {
            let ghost prev = out@;
            out.push(MuninnMediaWireRecord::VideoParity(parity[q].duplicate()));
            q = q + 1;
            assert(wire_views(out@) =~= before + parity_wire(par.subrange(0, q as int))) by {
                assert(wire_views(out@) =~= wire_views(prev).push(WireView::VideoParity(par[q - 1])));
            }
        }
        let ghost mid = wire_views(out@);
        let mut d: usize = offset;
        while d < end
            invariant
                v == views(records@),
                offset <= d <= end <= records@.len(),
                wire_views(out@) == mid + data_wire(v.subrange(offset as int, d as int)),
            decreases end - d,
        {
            let ghost prev = out@;
            out.push(MuninnMediaWireRecord::Video(records[d].duplicate()));
            d = d + 1;
            assert(wire_views(out@) =~= mid + data_wire(v.subrange(offset as int, d as int))) by {
                assert(wire_views(out@) =~= wire_views(prev).push(WireView::Video(v[d - 1])));
            }
        }
        let ghost tail_start = wire_views(out@);
        let mut q: usize = split;
        while q < parity.len()
            invariant
                par == parity_views(parity@),
                split <= q <= parity@.len(),
                wire_views(out@) == tail_start + parity_wire(par.subrange(split as int, q as int)),
            decreases parity@.len() - q,
        {
            let ghost prev = out@;
            out.push(MuninnMediaWireRecord::VideoParity(parity[q].duplicate()));
            q = q + 1;
            assert(wire_views(out@) =~= tail_start + parity_wire(par.subrange(split as int, q as int))) by {
                assert(wire_views(out@) =~= wire_views(prev).push(WireView::VideoParity(par[q - 1])));
            }
        }
        proof {
            let here = parity_wire(par.subrange(0, split as int)) + data_wire(
                v.subrange(offset as int, end as int),
            ) + parity_wire(par.subrange(split as int, par.len() as int));
            assert(par.subrange(split as int, par.len() as int) =~= par.subrange(split as int, q as int));
            assert(wire_views(out@) =~= before + here);
            assert(video_parity_spec(v.subrange(offset as int, end as int)) == Ok::<Seq<VideoParityView>, MediaError>(par));
            assert(group_end(v, offset as int, offset + 1) == end as int);
            assert(wire_from(v, offset as int) == match wire_from(v, end as int) {
                Ok(rest) => Ok(here + rest),
                Err(e) => Err::<Seq<WireView>, MediaError>(e),
            });
            match wire_from(v, end as int) {
                Ok(rest) => {
                    assert(before + (here + rest) =~= (before + here) + rest);
                },
                Err(e) => {},
            }
        }
        offset = end;
    }
    proof {
        assert(wire_views(out@) + Seq::<WireView>::empty() =~= wire_views(out@));
    }
    Ok(out)
}

} // verus!
