//! Video access units as typed chunk records, and back.
use vstd::prelude::*;
use crate::documents::{MuninnMediaVideoAccessUnitRecord, VideoChunkView};
use crate::media::annexb::{
    annex_b_nal_units, annex_b_nals, is_h264_vcl, is_h264_vcl_nal, VideoAccessUnit,
};
use crate::media::codec::{normalized_codec_spec, normalized_video_codec, VideoCodec};
use crate::media::error::{
    CodecName, MediaError, MediaField, MediaKind, ReassemblyFault, RecordFault, RecordKind,
};

verus! {

pub struct VideoFramePacketizeOptions<'a> {
    pub stream_id: &'a str,
    pub session_id: &'a str,
    pub codec: &'a str,
    pub frame_id: u64,
    pub pts_ticks: i64,
    pub duration_ticks: u32,
    pub timebase_num: u32,
    pub timebase_den: u32,
    pub deadline_ticks: i64,
    pub max_payload_bytes: usize,
}

/// The options of one frame as plain values.
pub ghost struct FrameOptions {
    pub stream_id: Seq<char>,
    pub session_id: Seq<char>,
    pub codec: Seq<char>,
    pub frame_id: u64,
    pub pts_ticks: i64,
    pub duration_ticks: u32,
    pub timebase_num: u32,
    pub timebase_den: u32,
    pub deadline_ticks: i64,
    pub max_payload_bytes: usize,
}

impl View for VideoFramePacketizeOptions<'_> {
    type V = FrameOptions;

    open spec fn view(&self) -> FrameOptions {
        FrameOptions {
            stream_id: self.stream_id@,
            session_id: self.session_id@,
            codec: self.codec@,
            frame_id: self.frame_id,
            pts_ticks: self.pts_ticks,
            duration_ticks: self.duration_ticks,
            timebase_num: self.timebase_num,
            timebase_den: self.timebase_den,
            deadline_ticks: self.deadline_ticks,
            max_payload_bytes: self.max_payload_bytes,
        }
    }
}

/// Why a received video chunk record is malformed, if it is.
pub open spec fn video_record_fault(r: VideoChunkView) -> Option<RecordFault> {
    if r.stream_id.len() == 0 {
        Some(RecordFault::EmptyStreamId)
    } else if r.session_id.len() == 0 {
        Some(RecordFault::EmptySessionId)
    } else if r.codec.len() == 0 {
        Some(RecordFault::EmptyCodec)
    } else if r.timebase_num == 0 || r.timebase_den == 0 {
        Some(RecordFault::ZeroTimebase)
    } else if r.duration_ticks == 0 {
        Some(RecordFault::ZeroDuration)
    } else if r.deadline_ticks < r.pts_ticks {
        Some(RecordFault::DeadlineBeforePts)
    } else if r.chunk_count == 0 {
        Some(RecordFault::ZeroChunkCount)
    } else if r.chunk_index >= r.chunk_count {
        Some(RecordFault::ChunkIndexOutside(r.chunk_index, r.chunk_count))
    } else if r.payload.len() == 0 {
        Some(RecordFault::EmptyPayload)
    } else {
        None
    }
}

/// Checks a video chunk record before it is trusted.
pub fn validate_video_record(record: &MuninnMediaVideoAccessUnitRecord) -> (r: Result<
    (),
    MediaError,
>)
    ensures
        match video_record_fault(record@) {
            Some(f) => r == Err::<(), MediaError>(MediaError::InvalidRecord(RecordKind::Video, f)),
            None => r is Ok,
        },
{
    let fault = if record.stream_id.as_str().is_empty() {
        Some(RecordFault::EmptyStreamId)
    } else if record.session_id.as_str().is_empty() {
        Some(RecordFault::EmptySessionId)
    } else if record.codec.as_str().is_empty() {
        Some(RecordFault::EmptyCodec)
    } else if record.timebase_num == 0 || record.timebase_den == 0 {
        Some(RecordFault::ZeroTimebase)
    } else if record.duration_ticks == 0 {
        Some(RecordFault::ZeroDuration)
    } else if record.deadline_ticks < record.pts_ticks {
        Some(RecordFault::DeadlineBeforePts)
    } else if record.chunk_count == 0 {
        Some(RecordFault::ZeroChunkCount)
    } else if record.chunk_index >= record.chunk_count {
        Some(RecordFault::ChunkIndexOutside(record.chunk_index, record.chunk_count))
    } else if record.payload.len() == 0 {
        Some(RecordFault::EmptyPayload)
    } else {
        None
    };
    match fault {
        Some(f) => Err(MediaError::InvalidRecord(RecordKind::Video, f)),
        None => Ok(()),
    }
}

/// Number of chunks of at most `max` bytes that hold `len` bytes.
pub open spec fn chunk_count_for(len: nat, max: nat) -> nat {
    len / max + if len % max != 0 {
        1nat
    } else {
        0nat
    }
}

/// Chunk `i` of `bytes` cut into pieces of `max` bytes.
pub open spec fn chunk_payload(bytes: Seq<u8>, max: nat, i: nat) -> Seq<u8> {
    let lo = i * max;
    let hi = if (i + 1) * max < bytes.len() {
        ((i + 1) * max) as int
    } else {
        bytes.len() as int
    };
    bytes.subrange(lo as int, hi)
}

/// Whether an H.264 access unit holds a slice that other pictures may
/// reference (`nal_ref_idc > 0`); a stream that cannot be split counts as
/// referencing.
pub open spec fn h264_has_reference_vcl(bytes: Seq<u8>) -> bool {
    match annex_b_nals(bytes, CodecName::H264) {
        Ok(nals) => exists|k: int|
            0 <= k < nals.len() && is_h264_vcl(#[trigger] nals[k].nal_type) && (bytes[nals[k].payload_start as int]
                >> 5u8) & 3 > 0,
        Err(_) => true,
    }
}

/// Whether decoding this access unit needs the previous frame.
pub open spec fn references_previous_frame(codec: Seq<char>, bytes: Seq<u8>, keyframe: bool) -> bool {
    if keyframe {
        false
    } else {
        match normalized_codec_spec(codec) {
            Some(VideoCodec::H264) => h264_has_reference_vcl(bytes),
            _ => true,
        }
    }
}

/// The frame a chunk depends on: the previous frame id, unless the access
/// unit is a keyframe or references nothing.
pub open spec fn dependency_for(codec: Seq<char>, frame_id: u64, bytes: Seq<u8>, keyframe: bool) -> Option<
    u64,
> {
    if keyframe || !references_previous_frame(codec, bytes, keyframe) {
        None
    } else if frame_id >= 1 {
        Some((frame_id - 1) as u64)
    } else {
        None
    }
}

/// Why packetizing would be refused, in the order the options are checked.
pub open spec fn packetize_video_error(o: FrameOptions, bytes: Seq<u8>) -> Option<
    MediaError,
> {
    if o.stream_id.len() == 0 {
        Some(MediaError::EmptyField(MediaField::StreamId))
    } else if o.session_id.len() == 0 {
        Some(MediaError::EmptyField(MediaField::SessionId))
    } else if o.codec.len() == 0 {
        Some(MediaError::EmptyField(MediaField::Codec))
    } else if o.timebase_num == 0 || o.timebase_den == 0 {
        Some(MediaError::ZeroTimebase(MediaKind::Video))
    } else if o.duration_ticks == 0 {
        Some(MediaError::ZeroDuration(MediaKind::Video))
    } else if o.deadline_ticks < o.pts_ticks {
        Some(MediaError::DeadlineBeforePts(MediaKind::Video))
    } else if o.max_payload_bytes == 0 {
        Some(MediaError::ZeroMaxPayload)
    } else if bytes.len() == 0 {
        Some(MediaError::EmptyAccessUnit)
    } else if chunk_count_for(bytes.len(), o.max_payload_bytes as nat) > 65535 {
        Some(MediaError::TooManyChunks)
    } else {
        None
    }
}

/// Chunk `i` of the access unit as the packetizer emits it.
pub open spec fn packetized_chunk(
    o: FrameOptions,
    bytes: Seq<u8>,
    keyframe: bool,
    i: nat,
) -> VideoChunkView {
    VideoChunkView {
        stream_id: o.stream_id,
        session_id: o.session_id,
        frame_id: o.frame_id,
        codec: o.codec,
        pts_ticks: o.pts_ticks,
        duration_ticks: o.duration_ticks,
        timebase_num: o.timebase_num,
        timebase_den: o.timebase_den,
        keyframe,
        dependency_frame_id: dependency_for(o.codec, o.frame_id, bytes, keyframe),
        deadline_ticks: o.deadline_ticks,
        chunk_index: i as u16,
        chunk_count: chunk_count_for(bytes.len(), o.max_payload_bytes as nat) as u16,
        payload: chunk_payload(bytes, o.max_payload_bytes as nat, i),
    }
}

/// The records are exactly the chunks of the access unit, in index order.
pub open spec fn packetized(
    r: Seq<MuninnMediaVideoAccessUnitRecord>,
    o: FrameOptions,
    bytes: Seq<u8>,
    keyframe: bool,
) -> bool {
    &&& r.len() == chunk_count_for(bytes.len(), o.max_payload_bytes as nat)
    &&& forall|i: int| 0 <= i < r.len() ==> (#[trigger] r[i])@ == packetized_chunk(o, bytes, keyframe, i as nat)
}

pub fn h264_access_unit_has_reference_vcl(input: &[u8]) -> (r: Result<bool, MediaError>)
    ensures
        match r {
            Ok(b) => annex_b_nals(input@, CodecName::H264) is Ok && b == h264_has_reference_vcl(input@),
            Err(_) => annex_b_nals(input@, CodecName::H264) is Err,
        },
{
    let _total = input.len();
    let nal_units = match annex_b_nal_units(input, CodecName::H264) {
        Ok(v) => v,
        Err(e) => {
            return Err(e);
        },
    };
    proof {
        crate::media::annexb::lemma_start_codes_from(input@, 0);
        crate::media::annexb::lemma_nals_wf(
            input@,
            crate::media::annexb::start_codes_from(input@, 0),
            crate::media::annexb::start_codes_from(input@, 0).len(),
            CodecName::H264,
        );
    }
    let ghost nals = nal_units@;
    let mut k: usize = 0;
    while k < nal_units.len()
        invariant
            nals == nal_units@,
            annex_b_nals(input@, CodecName::H264) == Ok::<Seq<crate::media::annexb::NalUnit>, MediaError>(nals),
            crate::media::annexb::nals_wf(input@, nals),
            k <= nals.len(),
            forall|j: int|
                0 <= j < k ==> !(is_h264_vcl(#[trigger] nals[j].nal_type) && (input@[nals[j].payload_start as int]
                    >> 5u8) & 3 > 0),
        decreases nals.len() - k,
    {
        let nal = nal_units[k];
        if is_h264_vcl_nal(nal.nal_type) && h264_nal_ref_idc(input[nal.payload_start]) > 0 {
            assert(is_h264_vcl(nals[k as int].nal_type) && (input@[nals[k as int].payload_start as int]
                >> 5u8) & 3 > 0);
            assert(exists|j: int|
                0 <= j < nals.len() && is_h264_vcl(#[trigger] nals[j].nal_type) && (input@[nals[j].payload_start as int]
                    >> 5u8) & 3 > 0);
            assert(annex_b_nals(input@, CodecName::H264)->Ok_0 == nals);
            assert(h264_has_reference_vcl(input@));
            return Ok(true);
        }
        k = k + 1;
    }
    Ok(false)
}

/// `nal_ref_idc` of an H.264 NAL header byte.
pub fn h264_nal_ref_idc(header: u8) -> (r: u8)
    ensures
        r == (header >> 5u8) & 3,
{
    (header >> 5u8) & 3
}

pub fn access_unit_references_previous_frame(codec: &str, access_unit: &VideoAccessUnit) -> (r:
    bool)
    ensures
        r == references_previous_frame(codec@, access_unit.bytes@, access_unit.keyframe),
{
    if access_unit.keyframe {
        return false;
    }
    match normalized_video_codec(codec) {
        Some(VideoCodec::H264) => match h264_access_unit_has_reference_vcl(
            access_unit.bytes.as_slice(),
        ) {
            Ok(b) => b,
            Err(_) => true,
        },
        _ => true,
    }
}

proof fn lemma_chunk_bounds(len: nat, max: nat, i: nat)
    requires
        max > 0,
        len > 0,
        i < chunk_count_for(len, max),
    ensures
        i * max < len,
        (i + 1) * max == i * max + max,
{
    assert((i + 1) * max == i * max + max) by (nonlinear_arith);
    if i * max >= len {
        assert(i * max >= len);
        let q = len / max;
        let r = len % max;
        assert(len == q * max + r) by (nonlinear_arith)
            requires
                max > 0,
                q == len / max,
                r == len % max,
        ;
        if r != 0 {
            assert(i <= q);
            assert(i * max <= q * max) by (nonlinear_arith)
                requires
                    i <= q,
            ;
        } else {
            assert(i < q);
            assert(i * max < q * max) by (nonlinear_arith)
                requires
                    i < q,
                    max > 0,
            ;
        }
    }
}

/// Cuts an access unit into chunk records of at most `max_payload_bytes`.
pub fn packetize_video_access_unit(
    options: VideoFramePacketizeOptions<'_>,
    access_unit: &VideoAccessUnit,
) -> (r: Result<Vec<MuninnMediaVideoAccessUnitRecord>, MediaError>)
    ensures
        match packetize_video_error(options@, access_unit.bytes@) {
            Some(e) => r == Err::<Vec<MuninnMediaVideoAccessUnitRecord>, MediaError>(e),
            None => r matches Ok(v) && packetized(
                v@,
                options@,
                access_unit.bytes@,
                access_unit.keyframe,
            ),
        },
{
    if options.stream_id.is_empty() {
        return Err(MediaError::EmptyField(MediaField::StreamId));
    }
    if options.session_id.is_empty() {
        return Err(MediaError::EmptyField(MediaField::SessionId));
    }
    if options.codec.is_empty() {
        return Err(MediaError::EmptyField(MediaField::Codec));
    }
    if options.timebase_num == 0 || options.timebase_den == 0 {
        return Err(MediaError::ZeroTimebase(MediaKind::Video));
    }
    if options.duration_ticks == 0 {
        return Err(MediaError::ZeroDuration(MediaKind::Video));
    }
    if options.deadline_ticks < options.pts_ticks {
        return Err(MediaError::DeadlineBeforePts(MediaKind::Video));
    }
    if options.max_payload_bytes == 0 {
        return Err(MediaError::ZeroMaxPayload);
    }
    let len = access_unit.bytes.len();
    if len == 0 {
        return Err(MediaError::EmptyAccessUnit);
    }
    let max = options.max_payload_bytes;
    assert(len % max != 0 ==> len / max < usize::MAX) by (nonlinear_arith)
        requires
            max > 0,
            len <= usize::MAX,
    ;
    let chunk_count: usize = len / max + if len % max != 0 {
        1
    } else {
        0
    };
    if chunk_count > 65535 {
        return Err(MediaError::TooManyChunks);
    }
    let dependency_frame_id = if access_unit.keyframe || !access_unit_references_previous_frame(
        options.codec,
        access_unit,
    ) {
        None
    } else {
        options.frame_id.checked_sub(1)
    };
    let ghost bytes = access_unit.bytes@;
    let mut records: Vec<MuninnMediaVideoAccessUnitRecord> = Vec::with_capacity(chunk_count);
    let mut index: usize = 0;
    let mut offset: usize = 0;
    while index < chunk_count
        invariant
            bytes == access_unit.bytes@,
            len == bytes.len(),
            max == options.max_payload_bytes,
            max > 0,
            len > 0,
            chunk_count == chunk_count_for(len as nat, max as nat),
            chunk_count <= 65535,
            index <= chunk_count,
            index < chunk_count ==> offset == index * max,
            dependency_frame_id == dependency_for(
                options.codec@,
                options.frame_id,
                bytes,
                access_unit.keyframe,
            ),
            records@.len() == index,
            forall|i: int|
                0 <= i < index ==> (#[trigger] records@[i])@ == packetized_chunk(
                    options@,
                    bytes,
                    access_unit.keyframe,
                    i as nat,
                ),
        decreases chunk_count - index,
    {
        proof {
            lemma_chunk_bounds(len as nat, max as nat, index as nat);
        }
        let end = if len - offset > max {
            offset + max
        } else {
            len
        };
        let payload = vstd::slice::slice_to_vec(&access_unit.bytes.as_slice()[offset..end]);
        records.push(
            MuninnMediaVideoAccessUnitRecord {
                stream_id: options.stream_id.to_string(),
                session_id: options.session_id.to_string(),
                frame_id: options.frame_id,
                codec: options.codec.to_string(),
                pts_ticks: options.pts_ticks,
                duration_ticks: options.duration_ticks,
                timebase_num: options.timebase_num,
                timebase_den: options.timebase_den,
                keyframe: access_unit.keyframe,
                dependency_frame_id,
                deadline_ticks: options.deadline_ticks,
                chunk_index: index as u16,
                chunk_count: chunk_count as u16,
                payload,
            },
        );
        index = index + 1;
        offset = end;
        proof {
            if index < chunk_count {
                lemma_chunk_bounds(len as nat, max as nat, index as nat);
                assert(index * max == (index - 1) * max + max) by (nonlinear_arith)
                    requires
                        index >= 1,
                ;
            }
        }
    }
    Ok(records)
}


pub fn opt_u64_eq(a: Option<u64>, b: Option<u64>) -> (r: bool)
    ensures
        r == (a == b),
{
    match (a, b) {
        (Some(x), Some(y)) => x == y,
        (None, None) => true,
        _ => false,
    }
}

/// The fault of chunk `c` against the first chunk and the chunks before it.
pub open spec fn chunk_fault(first: VideoChunkView, c: VideoChunkView, earlier: Seq<VideoChunkView>) -> Option<
    ReassemblyFault,
> {
    if c.stream_id != first.stream_id {
        Some(ReassemblyFault::MixedStreamId)
    } else if c.session_id != first.session_id {
        Some(ReassemblyFault::MixedSessionId)
    } else if c.frame_id != first.frame_id {
        Some(ReassemblyFault::MixedFrameId)
    } else if c.codec != first.codec {
        Some(ReassemblyFault::MixedCodec)
    } else if c.pts_ticks != first.pts_ticks || c.duration_ticks != first.duration_ticks
        || c.timebase_num != first.timebase_num || c.timebase_den != first.timebase_den
        || c.deadline_ticks != first.deadline_ticks {
        Some(ReassemblyFault::MixedTiming)
    } else if c.keyframe != first.keyframe || c.dependency_frame_id != first.dependency_frame_id {
        Some(ReassemblyFault::MixedDependency)
    } else if c.chunk_count != first.chunk_count {
        Some(ReassemblyFault::MixedChunkCount)
    } else if c.chunk_index >= first.chunk_count {
        Some(ReassemblyFault::IndexOutside(c.chunk_index, first.chunk_count))
    } else if c.payload.len() == 0 {
        Some(ReassemblyFault::EmptyPayload)
    } else if exists|j: int| 0 <= j < earlier.len() && (#[trigger] earlier[j]).chunk_index == c.chunk_index {
        Some(ReassemblyFault::Duplicate(c.chunk_index))
    } else {
        None
    }
}

pub open spec fn first_chunk_fault(chunks: Seq<VideoChunkView>, k: nat) -> Option<ReassemblyFault>
    decreases chunks.len() - k,
{
    if k >= chunks.len() {
        None
    } else {
        match chunk_fault(chunks[0], chunks[k as int], chunks.subrange(0, k as int)) {
            Some(f) => Some(f),
            None => first_chunk_fault(chunks, k + 1),
        }
    }
}

/// Why a set of chunks does not form one complete access unit, if it does
/// not: the first inconsistent chunk in input order, else missing chunks.
pub open spec fn reassembly_fault(chunks: Seq<VideoChunkView>) -> Option<ReassemblyFault> {
    if chunks.len() == 0 {
        Some(ReassemblyFault::NoChunks)
    } else if chunks[0].chunk_count == 0 {
        Some(ReassemblyFault::ZeroChunkCount)
    } else {
        match first_chunk_fault(chunks, 0) {
            Some(f) => Some(f),
            None => if chunks.len() != chunks[0].chunk_count {
                Some(ReassemblyFault::Missing(chunks[0].chunk_count, chunks.len() as usize))
            } else {
                None
            },
        }
    }
}

/// The position of the chunk with index `i`.
pub open spec fn position_of(chunks: Seq<VideoChunkView>, i: int) -> int {
    choose|j: int| 0 <= j < chunks.len() && chunks[j].chunk_index == i
}

/// The payloads of chunk indices `0..n`, in index order.
pub open spec fn joined_payloads(chunks: Seq<VideoChunkView>, n: nat) -> Seq<u8>
    decreases n,
{
    if n == 0 {
        Seq::empty()
    } else {
        joined_payloads(chunks, (n - 1) as nat) + chunks[position_of(chunks, n - 1)].payload
    }
}

pub open spec fn views(chunks: Seq<MuninnMediaVideoAccessUnitRecord>) -> Seq<VideoChunkView> {
    chunks.map_values(|c: MuninnMediaVideoAccessUnitRecord| c@)
}

pub open spec fn count_some(s: Seq<Option<usize>>, n: nat) -> nat
    decreases n,
{
    if n == 0 || n > s.len() {
        0
    } else {
        count_some(s, (n - 1) as nat) + if s[n - 1] is Some {
            1nat
        } else {
            0nat
        }
    }
}

pub proof fn lemma_count_some_update(s: Seq<Option<usize>>, n: nat, i: int, x: usize)
    requires
        n <= s.len(),
        0 <= i < s.len(),
        s[i] is None,
    ensures
        count_some(s.update(i, Some(x)), n) == count_some(s, n) + if i < n {
            1nat
        } else {
            0nat
        },
    decreases n,
{
    if n > 0 {
        lemma_count_some_update(s, (n - 1) as nat, i, x);
    }
}

pub proof fn lemma_count_some_full(s: Seq<Option<usize>>, n: nat)
    requires
        n <= s.len(),
    ensures
        count_some(s, n) <= n,
        count_some(s, n) == n ==> forall|i: int| 0 <= i < n ==> (#[trigger] s[i]) is Some,
    decreases n,
{
    if n > 0 {
        lemma_count_some_full(s, (n - 1) as nat);
    }
}

/// Joins the chunks of one access unit in chunk index order.
pub fn reassemble_video_access_unit(chunks: &[MuninnMediaVideoAccessUnitRecord]) -> (r: Result<
    VideoAccessUnit,
    MediaError,
>)
    ensures
        match reassembly_fault(views(chunks@)) {
            Some(f) => r == Err::<VideoAccessUnit, MediaError>(MediaError::Reassembly(f)),
            None => r matches Ok(au) && au.keyframe == chunks@[0].keyframe && au.bytes@
                == joined_payloads(views(chunks@), chunks@[0].chunk_count as nat),
        },
{
    let ghost v = views(chunks@);
    if chunks.len() == 0 {
        return Err(MediaError::Reassembly(ReassemblyFault::NoChunks));
    }
    let first = &chunks[0];
    assert(v[0] == first@);
    let count = first.chunk_count;
    if count == 0 {
        return Err(MediaError::Reassembly(ReassemblyFault::ZeroChunkCount));
    }
    let mut pos: Vec<Option<usize>> = Vec::new();
    let mut i: u16 = 0;
    while i < count
        invariant
            i <= count,
            pos@.len() == i,
            forall|j: int| 0 <= j < i ==> (#[trigger] pos@[j]) is None,
        decreases count - i,
    {
        pos.push(None);
        i = i + 1;
    }
    proof {
        assert(count_some(pos@, count as nat) == 0) by {
            lemma_count_zero(pos@, count as nat);
        }
    }
    let mut k: usize = 0;
    while k < chunks.len()
        invariant
            v == views(chunks@),
            v.len() == chunks@.len(),
            v[0] == first@,
            count == first.chunk_count,
            count > 0,
            pos@.len() == count,
            k <= chunks@.len(),
            first_chunk_fault(v, 0) == first_chunk_fault(v, k as nat),
            count_some(pos@, count as nat) == k,
            forall|i: int|
                0 <= i < count ==> (#[trigger] pos@[i] matches Some(j) ==> j < k && v[j as int].chunk_index
                    == i),
            forall|j: int|
                0 <= j < k ==> v[j].chunk_index < count && pos@[v[j].chunk_index as int] == Some(
                    j as usize,
                ),
            forall|j: int|
                0 <= j < k ==> #[trigger] v[j].chunk_count == count && v[j].payload.len() > 0
                    && v[j].stream_id == first@.stream_id,
        decreases chunks@.len() - k,
    {
        let chunk = &chunks[k];
        assert(v[k as int] == chunk@);
        let ghost earlier = v.subrange(0, k as int);
        let fault = if chunk.stream_id != first.stream_id {
            Some(ReassemblyFault::MixedStreamId)
        } else if chunk.session_id != first.session_id {
            Some(ReassemblyFault::MixedSessionId)
        } else if chunk.frame_id != first.frame_id {
            Some(ReassemblyFault::MixedFrameId)
        } else if chunk.codec != first.codec {
            Some(ReassemblyFault::MixedCodec)
        } else if chunk.pts_ticks != first.pts_ticks || chunk.duration_ticks != first.duration_ticks
            || chunk.timebase_num != first.timebase_num || chunk.timebase_den != first.timebase_den
            || chunk.deadline_ticks != first.deadline_ticks {
            Some(ReassemblyFault::MixedTiming)
        } else if chunk.keyframe != first.keyframe || !opt_u64_eq(
            chunk.dependency_frame_id,
            first.dependency_frame_id,
        ) {
            Some(ReassemblyFault::MixedDependency)
        } else if chunk.chunk_count != first.chunk_count {
            Some(ReassemblyFault::MixedChunkCount)
        } else if chunk.chunk_index >= count {
            Some(ReassemblyFault::IndexOutside(chunk.chunk_index, count))
        } else if chunk.payload.len() == 0 {
            Some(ReassemblyFault::EmptyPayload)
        } else if pos[chunk.chunk_index as usize].is_some() {
            proof {
                let j = pos@[chunk.chunk_index as int]->Some_0 as int;
                assert(earlier[j] == v[j]);
            }
            Some(ReassemblyFault::Duplicate(chunk.chunk_index))
        } else {
            assert forall|j: int| 0 <= j < earlier.len() implies (#[trigger] earlier[j]).chunk_index
                != chunk@.chunk_index by {
                assert(earlier[j] == v[j]);
            }
            None
        };
        assert(fault == chunk_fault(v[0], v[k as int], earlier));
        if let Some(f) = fault {
            return Err(MediaError::Reassembly(f));
        }
        let idx = chunk.chunk_index as usize;
        proof {
            lemma_count_some_update(pos@, count as nat, idx as int, k);
        }
        pos.set(idx, Some(k));
        k = k + 1;
    }
    if chunks.len() != count as usize {
        return Err(MediaError::Reassembly(ReassemblyFault::Missing(count, chunks.len())));
    }
    proof {
        lemma_count_some_full(pos@, count as nat);
    }
    let mut bytes: Vec<u8> = Vec::new();
    let mut i: usize = 0;
    while i < count as usize
        invariant
            v == views(chunks@),
            v.len() == count,
            count == first.chunk_count,
            pos@.len() == count,
            i <= count,
            forall|i: int|
                0 <= i < count ==> (#[trigger] pos@[i] matches Some(j) && j < v.len() && v[j as int].chunk_index
                    == i),
            forall|j1: int, j2: int|
                0 <= j1 < v.len() && 0 <= j2 < v.len() && j1 != j2 ==> (#[trigger] v[j1]).chunk_index
                    != (#[trigger] v[j2]).chunk_index,
            bytes@ == joined_payloads(v, i as nat),
        decreases count - i,
    {
        let j = match pos[i] {
            Some(j) => j,
            None => {
                assert(false);
                0
            },
        };
        proof {
            let p = position_of(v, i as int);
            assert(v[j as int].chunk_index == i);
            assert(p == j as int);
        }
        let ghost prev = bytes@;
        let mut t: usize = 0;
        while t < chunks[j].payload.len()
            invariant
                j < chunks@.len(),
                t <= chunks@[j as int].payload@.len(),
                bytes@ == prev + chunks@[j as int].payload@.subrange(0, t as int),
            decreases chunks@[j as int].payload@.len() - t,
        {
            bytes.push(chunks[j].payload[t]);
            t = t + 1;
            assert(bytes@ =~= prev + chunks@[j as int].payload@.subrange(0, t as int));
        }
        assert(chunks@[j as int].payload@.subrange(0, t as int) =~= v[j as int].payload);
        i = i + 1;
    }
    Ok(VideoAccessUnit { bytes, keyframe: first.keyframe })
}

pub proof fn lemma_count_zero(s: Seq<Option<usize>>, n: nat)
    requires
        n <= s.len(),
        forall|j: int| 0 <= j < n ==> (#[trigger] s[j]) is None,
    ensures
        count_some(s, n) == 0,
    decreases n,
{
    if n > 0 {
        lemma_count_zero(s, (n - 1) as nat);
    }
}


proof fn lemma_no_chunk_fault_from(
    o: FrameOptions,
    bytes: Seq<u8>,
    keyframe: bool,
    v: Seq<VideoChunkView>,
    k: nat,
)
    requires
        packetize_video_error(o, bytes) is None,
        v.len() == chunk_count_for(bytes.len(), o.max_payload_bytes as nat),
        forall|i: int| 0 <= i < v.len() ==> #[trigger] v[i] == packetized_chunk(o, bytes, keyframe, i as nat),
        k <= v.len(),
    ensures
        first_chunk_fault(v, k) is None,
    decreases v.len() - k,
{
    if k < v.len() {
        lemma_no_chunk_fault_from(o, bytes, keyframe, v, k + 1);
        let c = v[k as int];
        let first = v[0];
        let earlier = v.subrange(0, k as int);
        lemma_chunk_bounds(bytes.len(), o.max_payload_bytes as nat, k);
        assert(c.payload.len() > 0);
        assert forall|j: int| 0 <= j < earlier.len() implies (#[trigger] earlier[j]).chunk_index
            != c.chunk_index by {
            assert(earlier[j] == v[j]);
        }
        assert(chunk_fault(first, c, earlier) is None);
    }
}

proof fn lemma_joined_prefix(
    o: FrameOptions,
    bytes: Seq<u8>,
    keyframe: bool,
    v: Seq<VideoChunkView>,
    n: nat,
)
    requires
        packetize_video_error(o, bytes) is None,
        v.len() == chunk_count_for(bytes.len(), o.max_payload_bytes as nat),
        forall|i: int| 0 <= i < v.len() ==> #[trigger] v[i] == packetized_chunk(o, bytes, keyframe, i as nat),
        n <= v.len(),
    ensures
        joined_payloads(v, n) == bytes.subrange(
            0,
            if n * (o.max_payload_bytes as nat) < bytes.len() {
                (n * (o.max_payload_bytes as nat)) as int
            } else {
                bytes.len() as int
            },
        ),
    decreases n,
{
    let max = o.max_payload_bytes as nat;
    if n == 0 {
        assert(n * max == 0) by (nonlinear_arith)
            requires
                n == 0,
        ;
        assert(bytes.subrange(0, 0) =~= Seq::<u8>::empty());
    } else {
        lemma_joined_prefix(o, bytes, keyframe, v, (n - 1) as nat);
        let i = (n - 1) as nat;
        lemma_chunk_bounds(bytes.len(), max, i);
        assert(v[i as int].chunk_index as int == i);
        let p = position_of(v, i as int);
        assert(0 <= p < v.len() && v[p].chunk_index == i) by {
            assert(v[i as int].chunk_index == i);
        }
        assert(p == i as int) by {
            assert(v[p].chunk_index as int == p);
        }
        assert(n * max == i * max + max);
        let lo = i * max;
        let hi = if n * max < bytes.len() {
            (n * max) as int
        } else {
            bytes.len() as int
        };
        assert(joined_payloads(v, (n - 1) as nat) == bytes.subrange(0, lo as int));
        assert(v[p].payload == chunk_payload(bytes, max, i));
        assert((i + 1) * max == n * max);
        assert(chunk_payload(bytes, max, i) == bytes.subrange(lo as int, hi));
        assert(joined_payloads(v, n) == joined_payloads(v, (n - 1) as nat) + v[p].payload);
        assert(bytes.subrange(0, lo as int) + bytes.subrange(lo as int, hi) =~= bytes.subrange(0, hi));
    }
}

/// Cutting an access unit into chunk records and joining those records
/// again gives back the same bytes and key flag, with no fault.
pub proof fn law_reassemble_inverts_packetize(
    o: FrameOptions,
    bytes: Seq<u8>,
    keyframe: bool,
    records: Seq<MuninnMediaVideoAccessUnitRecord>,
)
    requires
        packetize_video_error(o, bytes) is None,
        packetized(records, o, bytes, keyframe),
    ensures
        reassembly_fault(views(records)) is None,
        records[0].keyframe == keyframe,
        joined_payloads(views(records), records[0].chunk_count as nat) == bytes,
{
    let v = views(records);
    let max = o.max_payload_bytes as nat;
    let count = chunk_count_for(bytes.len(), max);
    assert forall|i: int| 0 <= i < v.len() implies #[trigger] v[i] == packetized_chunk(
        o,
        bytes,
        keyframe,
        i as nat,
    ) by {
        assert(v[i] == records[i]@);
    }
    assert(count > 0) by {
        let q = bytes.len() / max;
        let r = bytes.len() % max;
        assert(bytes.len() == q * max + r) by (nonlinear_arith)
            requires
                max > 0,
                q == bytes.len() / max,
                r == bytes.len() % max,
        ;
        if q == 0 {
            assert(q * max == 0);
            assert(r != 0);
        }
    }
    assert(v[0] == records[0]@);
    lemma_no_chunk_fault_from(o, bytes, keyframe, v, 0);
    lemma_joined_prefix(o, bytes, keyframe, v, count);
    assert(count * max >= bytes.len()) by {
        let q = bytes.len() / max;
        let r = bytes.len() % max;
        assert(bytes.len() == q * max + r) by (nonlinear_arith)
            requires
                max > 0,
                q == bytes.len() / max,
                r == bytes.len() % max,
        ;
        if r != 0 {
            assert(count * max == q * max + max) by (nonlinear_arith)
                requires
                    count == q + 1,
            ;
        }
    }
    assert(bytes.subrange(0, bytes.len() as int) =~= bytes);
}

/// `perm` holds the records of `records` in another order: position `i`
/// holds record `p[i]`, and every record stands in exactly one position.
pub open spec fn reorders(
    perm: Seq<MuninnMediaVideoAccessUnitRecord>,
    records: Seq<MuninnMediaVideoAccessUnitRecord>,
    p: Seq<int>,
) -> bool {
    &&& perm.len() == records.len()
    &&& p.len() == perm.len()
    &&& forall|i: int| 0 <= i < p.len() ==> 0 <= #[trigger] p[i] < records.len() && perm[i] == records[p[i]]
    &&& forall|i: int, j: int| 0 <= i < j < p.len() ==> p[i] != p[j]
    &&& forall|k: int| #![trigger records[k]] 0 <= k < records.len() ==> exists|i: int| 0 <= i < p.len() && #[trigger] p[i] == k
}

proof fn lemma_no_fault_in_any_order(
    o: FrameOptions,
    bytes: Seq<u8>,
    keyframe: bool,
    w: Seq<VideoChunkView>,
    p: Seq<int>,
    k: nat,
)
    requires
        packetize_video_error(o, bytes) is None,
        w.len() == chunk_count_for(bytes.len(), o.max_payload_bytes as nat),
        p.len() == w.len(),
        forall|i: int| 0 <= i < w.len() ==> 0 <= #[trigger] p[i] < w.len(),
        forall|i: int| 0 <= i < w.len() ==> #[trigger] w[i] == packetized_chunk(o, bytes, keyframe, p[i] as nat),
        forall|i: int, j: int| 0 <= i < j < p.len() ==> p[i] != p[j],
        k <= w.len(),
    ensures
        first_chunk_fault(w, k) is None,
    decreases w.len() - k,
{
    if k < w.len() {
        lemma_no_fault_in_any_order(o, bytes, keyframe, w, p, k + 1);
        let c = w[k as int];
        let first = w[0];
        let earlier = w.subrange(0, k as int);
        lemma_chunk_bounds(bytes.len(), o.max_payload_bytes as nat, p[k as int] as nat);
        assert(c.payload.len() > 0);
        assert forall|j: int| 0 <= j < earlier.len() implies (#[trigger] earlier[j]).chunk_index
            != c.chunk_index by {
            assert(earlier[j] == w[j]);
            assert(p[j] != p[k as int]);
        }
        assert(chunk_fault(first, c, earlier) is None);
    }
}

proof fn lemma_joined_same(w: Seq<VideoChunkView>, v: Seq<VideoChunkView>, n: nat)
    requires
        forall|i: int| 0 <= i < n ==> #[trigger] w[position_of(w, i)].payload == v[position_of(v, i)].payload,
    ensures
        joined_payloads(w, n) == joined_payloads(v, n),
    decreases n,
{
    if n > 0 {
        lemma_joined_same(w, v, (n - 1) as nat);
        assert(w[position_of(w, n - 1)].payload == v[position_of(v, n - 1)].payload);
    }
}

/// The order chunks arrive in does not matter: any reordering of an
/// access unit's chunk records joins back into the same bytes and key
/// flag, with no fault.
///
/// `packetize_video_access_unit` returns records that are `packetized`,
/// and `reassemble_video_access_unit` returns the access unit whose bytes
/// are the `joined_payloads` of its records and whose key flag is the
/// first record's when their `reassembly_fault` is `None`; so reassembling
/// any reordering of the packetizer's records gives back the access unit.
pub proof fn law_reassembly_ignores_arrival_order(
    o: FrameOptions,
    bytes: Seq<u8>,
    keyframe: bool,
    records: Seq<MuninnMediaVideoAccessUnitRecord>,
    perm: Seq<MuninnMediaVideoAccessUnitRecord>,
    p: Seq<int>,
)
    requires
        packetize_video_error(o, bytes) is None,
        packetized(records, o, bytes, keyframe),
        reorders(perm, records, p),
    ensures
        reassembly_fault(views(perm)) is None,
        perm[0].keyframe == keyframe,
        joined_payloads(views(perm), perm[0].chunk_count as nat) == bytes,
{
    law_reassemble_inverts_packetize(o, bytes, keyframe, records);
    let v = views(records);
    let w = views(perm);
    let max = o.max_payload_bytes as nat;
    let count = chunk_count_for(bytes.len(), max);
    assert(count <= 65535);
    assert forall|i: int| 0 <= i < v.len() implies #[trigger] v[i] == packetized_chunk(o, bytes, keyframe, i as nat) by {
        assert(v[i] == records[i]@);
    }
    assert forall|i: int| 0 <= i < w.len() implies #[trigger] w[i] == packetized_chunk(o, bytes, keyframe, p[i] as nat) by {
        assert(w[i] == perm[i]@);
        assert(perm[i] == records[p[i]]);
        assert(v[p[i]] == records[p[i]]@);
    }
    assert forall|i: int| 0 <= i < w.len() implies 0 <= #[trigger] p[i] < w.len() by {}
    lemma_no_fault_in_any_order(o, bytes, keyframe, w, p, 0);
    assert(v.len() > 0);
    assert(w[0] == packetized_chunk(o, bytes, keyframe, p[0] as nat));
    assert(v[0] == packetized_chunk(o, bytes, keyframe, 0));
    assert(perm[0]@ == w[0]);
    assert(records[0]@ == v[0]);
    assert forall|i: int| 0 <= i < count implies #[trigger] w[position_of(w, i)].payload == v[position_of(v, i)].payload by {
        assert(records[i] == records[i]);
        let j = choose|j: int| 0 <= j < p.len() && #[trigger] p[j] == i;
        assert(w[j].chunk_index == i);
        let a = position_of(w, i);
        assert(0 <= a < w.len() && w[a].chunk_index == i);
        assert(p[a] == i);
        assert(v[i].chunk_index == i);
        let b = position_of(v, i);
        assert(0 <= b < v.len() && v[b].chunk_index == i);
        assert(b == i);
    }
    lemma_joined_same(w, v, count);
}

} // verus!
