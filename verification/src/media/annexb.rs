//! Annex B byte streams: start codes, NAL units and access units.
use vstd::prelude::*;
use crate::media::bits::{exp_golomb, h264_ebsp_to_rbsp, rbsp, read_unsigned_exp_golomb};
use crate::media::error::{CodecName, MediaError};
use crate::media::codec::{normalized_codec_spec, normalized_video_codec, VideoCodec};

verus! {

/// One coded picture (or the parameter sets and slices that belong to it),
/// start codes included.
#[derive(Clone, Debug, PartialEq, Eq)]
pub struct VideoAccessUnit {
    pub bytes: Vec<u8>,
    pub keyframe: bool,
}

/// A NAL unit inside an input buffer: its start code begins at `start`, its
/// payload spans `payload_start..end`.
#[derive(Clone, Copy, Debug, PartialEq, Eq, Structural)]
pub struct NalUnit {
    pub start: usize,
    pub end: usize,
    pub payload_start: usize,
    pub nal_type: u8,
}

/// Length of the start code at `i`: `00 00 01` is checked before
/// `00 00 00 01`; zero where there is none.
pub open spec fn start_code_len(s: Seq<u8>, i: int) -> int {
    if 0 <= i && i + 3 <= s.len() && s[i] == 0 && s[i + 1] == 0 && s[i + 2] == 1 {
        3
    } else if 0 <= i && i + 4 <= s.len() && s[i] == 0 && s[i + 1] == 0 && s[i + 2] == 0 && s[i
        + 3] == 1 {
        4
    } else {
        0
    }
}

/// The first start code at or after `from`.
pub open spec fn next_start_code(s: Seq<u8>, from: int) -> Option<(int, int)>
    decreases s.len() - from,
{
    if from < 0 || from + 3 > s.len() {
        None
    } else if start_code_len(s, from) > 0 {
        Some((from, start_code_len(s, from)))
    } else {
        next_start_code(s, from + 1)
    }
}

/// All start codes found by scanning from `from`, each scan resuming after
/// the previous start code.
pub open spec fn start_codes_from(s: Seq<u8>, from: int) -> Seq<(int, int)>
    decreases s.len() - from,
{
    if from < 0 || from + 3 > s.len() {
        Seq::empty()
    } else if start_code_len(s, from) > 0 {
        seq![(from, start_code_len(s, from))] + start_codes_from(s, from + start_code_len(s, from))
    } else {
        start_codes_from(s, from + 1)
    }
}

/// The NAL unit type read from a payload, when the payload holds a header.
pub open spec fn nal_type_of(codec: CodecName, p: Seq<u8>) -> Option<u8> {
    match codec {
        CodecName::H264 => if p.len() > 0 {
            Some(p[0] & 0x1f)
        } else {
            None
        },
        CodecName::H265 => if p.len() >= 2 {
            Some((p[0] >> 1u8) & 0x3f)
        } else {
            None
        },
    }
}

/// Where the NAL unit of start code `k` ends: at the next start code, or at
/// the end of the input.
pub open spec fn nal_end(s: Seq<u8>, starts: Seq<(int, int)>, k: int) -> int {
    if k + 1 < starts.len() {
        starts[k + 1].0
    } else {
        s.len() as int
    }
}

pub open spec fn nal_at(s: Seq<u8>, starts: Seq<(int, int)>, k: int, codec: CodecName) -> Option<
    NalUnit,
> {
    let ps = starts[k].0 + starts[k].1;
    let end = nal_end(s, starts, k);
    if ps >= end {
        None
    } else {
        match nal_type_of(codec, s.subrange(ps, end)) {
            Some(t) => Some(
                NalUnit {
                    start: starts[k].0 as usize,
                    end: end as usize,
                    payload_start: ps as usize,
                    nal_type: t,
                },
            ),
            None => None,
        }
    }
}

/// NAL units of the first `k` start codes; empty payloads and payloads
/// without a header are skipped.
pub open spec fn nals_upto(s: Seq<u8>, starts: Seq<(int, int)>, k: nat, codec: CodecName) -> Seq<
    NalUnit,
>
    decreases k,
{
    if k == 0 {
        Seq::empty()
    } else {
        let prev = nals_upto(s, starts, (k - 1) as nat, codec);
        match nal_at(s, starts, k - 1, codec) {
            Some(n) => prev.push(n),
            None => prev,
        }
    }
}

/// The NAL units of an Annex B stream, or why it has none.
pub open spec fn annex_b_nals(s: Seq<u8>, codec: CodecName) -> Result<Seq<NalUnit>, MediaError> {
    let starts = start_codes_from(s, 0);
    if starts.len() == 0 {
        Err(MediaError::NoStartCodes(codec))
    } else {
        let nals = nals_upto(s, starts, starts.len(), codec);
        if nals.len() == 0 {
            Err(MediaError::NoNalPayloads(codec))
        } else {
            Ok(nals)
        }
    }
}

/// Start codes lie inside the input, in order, without overlapping.
pub open spec fn starts_wf(s: Seq<u8>, starts: Seq<(int, int)>, from: int) -> bool {
    &&& forall|k: int|
        0 <= k < starts.len() ==> from <= #[trigger] starts[k].0 && starts[k].1 >= 3
            && starts[k].0 + starts[k].1 <= s.len()
    &&& forall|k: int|
        0 <= k < starts.len() - 1 ==> #[trigger] starts[k].0 + starts[k].1 <= starts[k + 1].0
}

/// NAL units lie inside the input, in order, without overlapping.
pub open spec fn nals_wf(s: Seq<u8>, nals: Seq<NalUnit>) -> bool {
    &&& forall|k: int|
        0 <= k < nals.len() ==> (#[trigger] nals[k]).start < nals[k].payload_start < nals[k].end
            <= s.len()
    &&& forall|i: int, j: int|
        0 <= i < j < nals.len() ==> (#[trigger] nals[i]).end <= (#[trigger] nals[j]).start
}

pub proof fn lemma_start_codes_from(s: Seq<u8>, from: int)
    requires
        0 <= from,
    ensures
        starts_wf(s, start_codes_from(s, from), from),
        next_start_code(s, from) matches Some((st, pl)) ==> st >= from && pl >= 3 && st + pl
            <= s.len() && start_codes_from(s, from) == seq![(st, pl)] + start_codes_from(s, st + pl),
        next_start_code(s, from) is None ==> start_codes_from(s, from).len() == 0,
    decreases s.len() - from,
{
    if from + 3 > s.len() {
    } else {
        let l = start_code_len(s, from);
        if l > 0 {
            lemma_start_codes_from(s, from + l);
            let rest = start_codes_from(s, from + l);
            let all = seq![(from, l)] + rest;
            assert forall|k: int| 0 <= k < all.len() implies from <= #[trigger] all[k].0
                && all[k].1 >= 3 && all[k].0 + all[k].1 <= s.len() by {
                if k > 0 {
                    assert(all[k] == rest[k - 1]);
                }
            }
            assert forall|k: int| 0 <= k < all.len() - 1 implies #[trigger] all[k].0 + all[k].1
                <= all[k + 1].0 by {
                if k > 0 {
                    assert(all[k] == rest[k - 1]);
                    assert(all[k + 1] == rest[k]);
                } else {
                    assert(all[1] == rest[0]);
                }
            }
        } else {
            lemma_start_codes_from(s, from + 1);
        }
    }
}

pub proof fn lemma_nals_wf(s: Seq<u8>, starts: Seq<(int, int)>, k: nat, codec: CodecName)
    requires
        starts_wf(s, starts, 0),
        s.len() <= usize::MAX,
        k <= starts.len(),
    ensures
        nals_wf(s, nals_upto(s, starts, k, codec)),
        forall|i: int|
            0 <= i < nals_upto(s, starts, k, codec).len() ==> (#[trigger] nals_upto(
                s,
                starts,
                k,
                codec,
            )[i]).end <= nal_end(s, starts, k - 1),
    decreases k,
{
    if k > 0 {
        lemma_nals_wf(s, starts, (k - 1) as nat, codec);
        let prev = nals_upto(s, starts, (k - 1) as nat, codec);
        let cur = nals_upto(s, starts, k, codec);
        if k >= 2 {
            assert(nal_end(s, starts, k - 2) == starts[k - 1].0);
        }
        match nal_at(s, starts, k - 1, codec) {
            Some(n) => {
                assert(cur == prev.push(n));
                let st = starts[k - 1];
                assert(nal_end(s, starts, k - 1) <= s.len()) by {
                    if k < starts.len() {
                        assert(starts[k as int].0 + starts[k as int].1 <= s.len());
                    }
                }
                assert(n.start as int == st.0);
                assert(n.payload_start as int == st.0 + st.1);
                assert(n.end as int == nal_end(s, starts, k - 1));
                assert(n.start < n.payload_start < n.end <= s.len());
                assert(k >= 2 ==> st.0 == nal_end(s, starts, k - 2));
                assert forall|i: int, j: int| 0 <= i < j < cur.len() implies (#[trigger] cur[i]).end
                    <= (#[trigger] cur[j]).start by {
                    if j < prev.len() {
                        assert(cur[i] == prev[i]);
                        assert(cur[j] == prev[j]);
                    } else {
                        assert(cur[i] == prev[i]);
                    }
                }
                assert forall|i: int| 0 <= i < cur.len() implies (#[trigger] cur[i]).end
                    <= nal_end(s, starts, k - 1) by {
                    if i < prev.len() {
                        assert(cur[i] == prev[i]);
                        if k >= 2 {
                            assert(starts[k - 2].0 + starts[k - 2].1 <= starts[k - 1].0);
                        }
                    }
                }
                assert forall|i: int| 0 <= i < cur.len() implies (#[trigger] cur[i]).start
                    < cur[i].payload_start < cur[i].end <= s.len() by {
                    if i < prev.len() {
                        assert(cur[i] == prev[i]);
                    }
                }
            },
            None => {
                assert forall|i: int| 0 <= i < cur.len() implies (#[trigger] cur[i]).end
                    <= nal_end(s, starts, k - 1) by {
                    if k >= 2 {
                        assert(starts[k - 2].0 + starts[k - 2].1 <= starts[k - 1].0);
                    }
                }
            },
        }
    }
}

/// The first start code at or after `from`.
pub fn find_annex_b_start_code(input: &[u8], from: usize) -> (r: Option<(usize, usize)>)
    requires
        from <= input@.len(),
    ensures
        match r {
            Some((a, b)) => next_start_code(input@, from as int) == Some((a as int, b as int)),
            None => next_start_code(input@, from as int) is None,
        },
{
    let mut index = from;
    while index < input.len() && input.len() - index >= 3
        invariant
            from <= index <= input@.len(),
            next_start_code(input@, from as int) == next_start_code(input@, index as int),
        decreases input@.len() - index,
    {
        if input[index] == 0 && input[index + 1] == 0 && input[index + 2] == 1 {
            return Some((index, 3));
        }
        if input.len() - index >= 4 && input[index] == 0 && input[index + 1] == 0 && input[index
            + 2] == 0 && input[index + 3] == 1 {
            return Some((index, 4));
        }
        index = index + 1;
    }
    None
}

fn nal_type_exec(input: &[u8], start: usize, end: usize, codec: CodecName) -> (r: Option<u8>)
    requires
        start <= end <= input@.len(),
    ensures
        r == nal_type_of(codec, input@.subrange(start as int, end as int)),
{
    match codec {
        CodecName::H264 => {
            if end > start {
                Some(input[start] & 0x1f)
            } else {
                None
            }
        },
        CodecName::H265 => {
            if end - start >= 2 {
                Some((input[start] >> 1u8) & 0x3f)
            } else {
                None
            }
        },
    }
}

/// Splits an Annex B stream into NAL units.
pub fn annex_b_nal_units(input: &[u8], codec: CodecName) -> (r: Result<Vec<NalUnit>, MediaError>)
    ensures
        match r {
            Ok(v) => annex_b_nals(input@, codec) == Ok::<Seq<NalUnit>, MediaError>(v@),
            Err(e) => annex_b_nals(input@, codec) == Err::<Seq<NalUnit>, MediaError>(e),
        },
{
    let ghost s = input@;
    let total = input.len();
    let mut starts: Vec<(usize, usize)> = Vec::new();
    let mut offset: usize = 0;
    proof {
        lemma_start_codes_from(s, 0);
    }
    loop
        invariant
            s == input@,
            s.len() == total,
            offset <= s.len(),
            starts@.map_values(|p: (usize, usize)| (p.0 as int, p.1 as int)) + start_codes_from(
                s,
                offset as int,
            ) == start_codes_from(s, 0),
        ensures
            next_start_code(s, offset as int) is None,
            start_codes_from(s, offset as int).len() == 0,
        decreases s.len() - offset,
    {
        proof {
            lemma_start_codes_from(s, offset as int);
        }
        match find_annex_b_start_code(input, offset) {
            Some((start, prefix_len)) => {
                assert(next_start_code(s, offset as int) == Some((start as int, prefix_len as int)));
                assert(start as int + prefix_len as int <= s.len());
                let ghost before = starts@.map_values(|p: (usize, usize)| (p.0 as int, p.1 as int));
                starts.push((start, prefix_len));
                assert(starts@.map_values(|p: (usize, usize)| (p.0 as int, p.1 as int)) =~= before.push(
                    (start as int, prefix_len as int),
                ));
                assert(before.push((start as int, prefix_len as int)) + start_codes_from(
                    s,
                    (start + prefix_len) as int,
                ) =~= before + (seq![(start as int, prefix_len as int)] + start_codes_from(
                    s,
                    (start + prefix_len) as int,
                )));
                offset = start + prefix_len;
            },
            None => {
                break ;
            },
        }
    }
    let ghost all = start_codes_from(s, 0);
    assert(starts@.map_values(|p: (usize, usize)| (p.0 as int, p.1 as int)) + start_codes_from(
        s,
        offset as int,
    ) == all);
    assert(starts@.map_values(|p: (usize, usize)| (p.0 as int, p.1 as int)) =~= all);
    proof {
        lemma_start_codes_from(s, 0);
    }
    if starts.len() == 0 {
        return Err(MediaError::NoStartCodes(codec));
    }
    let mut nal_units: Vec<NalUnit> = Vec::new();
    let mut index: usize = 0;
    while index < starts.len()
        invariant
            s == input@,
            s.len() == total,
            all == start_codes_from(s, 0),
            starts_wf(s, all, 0),
            starts@.len() == all.len(),
            forall|k: int|
                0 <= k < all.len() ==> (#[trigger] starts@[k]).0 as int == all[k].0
                    && starts@[k].1 as int == all[k].1,
            index <= starts@.len(),
            nal_units@ == nals_upto(s, all, index as nat, codec),
        decreases starts@.len() - index,
    {
        let (start, prefix_len) = starts[index];
        assert(starts@[index as int].0 as int == all[index as int].0);
        assert(all[index as int].0 + all[index as int].1 <= s.len());
        let payload_start = start + prefix_len;
        let end = if index + 1 < starts.len() {
            starts[index + 1].0
        } else {
            input.len()
        };
        if payload_start < end {
            let t = nal_type_exec(input, payload_start, end, codec);
            if let Some(nal_type) = t {
                nal_units.push(NalUnit { start, end, payload_start, nal_type });
            }
        }
        index = index + 1;
    }
    if nal_units.len() == 0 {
        return Err(MediaError::NoNalPayloads(codec));
    }
    Ok(nal_units)
}

pub open spec fn is_h264_vcl(t: u8) -> bool {
    1 <= t <= 5
}

pub open spec fn is_h265_vcl(t: u8) -> bool {
    t <= 31
}

pub open spec fn is_h265_irap(t: u8) -> bool {
    16 <= t <= 21
}

pub open spec fn is_h265_pre_vcl_boundary(t: u8) -> bool {
    (32 <= t <= 34) || t == 39 || t == 40
}

pub fn is_h264_vcl_nal(nal_type: u8) -> (r: bool)
    ensures
        r == is_h264_vcl(nal_type),
{
    1 <= nal_type && nal_type <= 5
}

pub fn is_h265_vcl_nal(nal_type: u8) -> (r: bool)
    ensures
        r == is_h265_vcl(nal_type),
{
    nal_type <= 31
}

pub fn is_h265_irap_nal(nal_type: u8) -> (r: bool)
    ensures
        r == is_h265_irap(nal_type),
{
    16 <= nal_type && nal_type <= 21
}

pub fn is_h265_pre_vcl_boundary_nal(nal_type: u8) -> (r: bool)
    ensures
        r == is_h265_pre_vcl_boundary(nal_type),
{
    (32 <= nal_type && nal_type <= 34) || nal_type == 39 || nal_type == 40
}

/// `first_mb_in_slice` of an H.264 slice NAL payload.
pub open spec fn h264_first_mb(p: Seq<u8>) -> Option<u64> {
    if p.len() < 2 {
        None
    } else {
        exp_golomb(rbsp(p.drop_first()))
    }
}

/// `first_slice_segment_in_pic_flag` of an H.265 slice NAL payload.
pub open spec fn h265_first_slice(p: Seq<u8>) -> Option<bool> {
    if p.len() < 3 {
        None
    } else {
        let r = rbsp(p.subrange(2, p.len() as int));
        if r.len() > 0 {
            Some((r[0] & 0x80) != 0)
        } else {
            None
        }
    }
}

pub fn h264_first_mb_in_slice(input: &[u8], start: usize, end: usize) -> (r: Option<u64>)
    requires
        start <= end <= input@.len(),
    ensures
        r == h264_first_mb(input@.subrange(start as int, end as int)),
{
    if end - start < 2 {
        return None;
    }
    let rbsp_bytes = h264_ebsp_to_rbsp(input, start + 1, end);
    assert(input@.subrange(start as int, end as int).drop_first() =~= input@.subrange(
        start + 1,
        end as int,
    ));
    read_unsigned_exp_golomb(rbsp_bytes.as_slice())
}

pub fn h265_first_slice_segment_in_pic(input: &[u8], start: usize, end: usize) -> (r: Option<
    bool,
>)
    requires
        start <= end <= input@.len(),
    ensures
        r == h265_first_slice(input@.subrange(start as int, end as int)),
{
    if end - start < 3 {
        return None;
    }
    let rbsp_bytes = h264_ebsp_to_rbsp(input, start + 2, end);
    assert(input@.subrange(start as int, end as int).subrange(2, (end - start) as int) =~= input@.subrange(
        start + 2,
        end as int,
    ));
    if rbsp_bytes.len() > 0 {
        Some((rbsp_bytes[0] & 0x80) != 0)
    } else {
        None
    }
}


/// Splitting state after some NAL units: the access units closed so far as
/// `(start, end, keyframe)` spans, and the one being built.
pub ghost struct SplitState {
    pub units: Seq<(int, int, bool)>,
    pub current_start: Option<int>,
    pub current_end: int,
    pub has_vcl: bool,
    pub keyframe: bool,
}

pub open spec fn is_vcl(codec: CodecName, t: u8) -> bool {
    match codec {
        CodecName::H264 => is_h264_vcl(t),
        CodecName::H265 => is_h265_vcl(t),
    }
}

/// IDR slices for H.264, IRAP pictures for H.265.
pub open spec fn is_key(codec: CodecName, t: u8) -> bool {
    match codec {
        CodecName::H264 => t == 5,
        CodecName::H265 => is_h265_irap(t),
    }
}

/// Whether NAL unit `n` begins a new access unit: an access unit delimiter
/// after some content, the first slice of a new picture after a slice, or
/// (H.265) a parameter set or prefix SEI after a slice.
pub open spec fn starts_new_unit(s: Seq<u8>, codec: CodecName, st: SplitState, n: NalUnit) -> bool {
    let p = s.subrange(n.payload_start as int, n.end as int);
    let t = n.nal_type;
    match codec {
        CodecName::H264 => if t == 9 {
            st.current_start is Some
        } else if is_h264_vcl(t) {
            st.has_vcl && (match h264_first_mb(p) {
                Some(v) => v,
                None => 1,
            }) == 0
        } else {
            false
        },
        CodecName::H265 => if t == 35 {
            st.current_start is Some
        } else if is_h265_vcl(t) {
            st.has_vcl && (match h265_first_slice(p) {
                Some(b) => b,
                None => false,
            })
        } else {
            st.has_vcl && is_h265_pre_vcl_boundary(t)
        },
    }
}

pub open spec fn close_unit(st: SplitState) -> Seq<(int, int, bool)> {
    match st.current_start {
        Some(cs) => st.units.push((cs, st.current_end, st.keyframe)),
        None => st.units,
    }
}

pub open spec fn split_step(s: Seq<u8>, codec: CodecName, st: SplitState, n: NalUnit) -> SplitState {
    let st1 = if starts_new_unit(s, codec, st, n) {
        SplitState {
            units: close_unit(st),
            current_start: None,
            current_end: st.current_end,
            has_vcl: false,
            keyframe: false,
        }
    } else {
        st
    };
    SplitState {
        units: st1.units,
        current_start: match st1.current_start {
            Some(cs) => Some(cs),
            None => Some(n.start as int),
        },
        current_end: n.end as int,
        has_vcl: st1.has_vcl || is_vcl(codec, n.nal_type),
        keyframe: st1.keyframe || is_key(codec, n.nal_type),
    }
}

pub open spec fn split_fold(s: Seq<u8>, codec: CodecName, nals: Seq<NalUnit>, k: nat) -> SplitState
    decreases k,
{
    if k == 0 || k > nals.len() {
        SplitState {
            units: Seq::empty(),
            current_start: None,
            current_end: 0,
            has_vcl: false,
            keyframe: false,
        }
    } else {
        split_step(s, codec, split_fold(s, codec, nals, (k - 1) as nat), nals[k - 1])
    }
}

/// The access units of an Annex B stream as `(start, end, keyframe)` spans
/// of the input, or why the stream cannot be split.
pub open spec fn access_unit_spans(s: Seq<u8>, codec: CodecName) -> Result<
    Seq<(int, int, bool)>,
    MediaError,
> {
    match annex_b_nals(s, codec) {
        Ok(nals) => Ok(close_unit(split_fold(s, codec, nals, nals.len()))),
        Err(e) => Err(e),
    }
}

/// The access units hold exactly the bytes and key flags of the spans.
pub open spec fn units_match(r: Seq<VideoAccessUnit>, s: Seq<u8>, spans: Seq<(int, int, bool)>) -> bool {
    &&& r.len() == spans.len()
    &&& forall|i: int|
        0 <= i < r.len() ==> (#[trigger] r[i]).bytes@ == s.subrange(spans[i].0, spans[i].1)
            && r[i].keyframe == spans[i].2
}

/// The outcome of splitting `s` as `codec`, held against the exec result.
pub open spec fn split_outcome(
    r: Result<Vec<VideoAccessUnit>, MediaError>,
    s: Seq<u8>,
    codec: CodecName,
) -> bool {
    match r {
        Ok(v) => access_unit_spans(s, codec) matches Ok(spans) && units_match(v@, s, spans),
        Err(e) => access_unit_spans(s, codec) == Err::<Seq<(int, int, bool)>, MediaError>(e),
    }
}

fn split_access_units(input: &[u8], codec: CodecName) -> (r: Result<
    Vec<VideoAccessUnit>,
    MediaError,
>)
    ensures
        split_outcome(r, input@, codec),
{
    let ghost s = input@;
    let total = input.len();
    let nal_units = match annex_b_nal_units(input, codec) {
        Ok(v) => v,
        Err(e) => {
            return Err(e);
        },
    };
    let ghost nals = nal_units@;
    proof {
        lemma_start_codes_from(s, 0);
        lemma_nals_wf(s, start_codes_from(s, 0), start_codes_from(s, 0).len(), codec);
    }
    let mut access_units: Vec<VideoAccessUnit> = Vec::new();
    let mut current_start: Option<usize> = None;
    let mut current_end: usize = 0;
    let mut current_has_vcl = false;
    let mut current_keyframe = false;
    let mut i: usize = 0;
    while i < nal_units.len()
        invariant
            s == input@,
            s.len() == total,
            nals == nal_units@,
            nals_wf(s, nals),
            i <= nals.len(),
            ({
                let st = split_fold(s, codec, nals, i as nat);
                &&& units_match(access_units@, s, st.units)
                &&& st.current_start == (match current_start {
                    Some(cs) => Some(cs as int),
                    None => None::<int>,
                })
                &&& st.current_end == current_end as int
                &&& st.has_vcl == current_has_vcl
                &&& st.keyframe == current_keyframe
            }),
            current_end <= total,
            current_start matches Some(cs) ==> cs <= current_end,
            i < nals.len() && i > 0 ==> current_end <= nals[i as int].start,
            i == 0 ==> current_start is None,
        decreases nals.len() - i,
    {
        let nal = nal_units[i];
        let t = nal.nal_type;
        let starts_new = match codec {
            CodecName::H264 => {
                if t == 9 {
                    current_start.is_some()
                } else if is_h264_vcl_nal(t) {
                    current_has_vcl && (match h264_first_mb_in_slice(
                        input,
                        nal.payload_start,
                        nal.end,
                    ) {
                        Some(v) => v,
                        None => 1,
                    }) == 0
                } else {
                    false
                }
            },
            CodecName::H265 => {
                if t == 35 {
                    current_start.is_some()
                } else if is_h265_vcl_nal(t) {
                    current_has_vcl && (match h265_first_slice_segment_in_pic(
                        input,
                        nal.payload_start,
                        nal.end,
                    ) {
                        Some(b) => b,
                        None => false,
                    })
                } else {
                    current_has_vcl && is_h265_pre_vcl_boundary_nal(t)
                }
            },
        };
        let ghost before = split_fold(s, codec, nals, i as nat);
        assert(starts_new == starts_new_unit(s, codec, before, nal));
        if starts_new {
            if let Some(start) = current_start {
                let bytes = vstd::slice::slice_to_vec(&input[start..current_end]);
                let ghost prev = access_units@;
                access_units.push(VideoAccessUnit { bytes, keyframe: current_keyframe });
                assert forall|k: int| 0 <= k < access_units@.len() implies (#[trigger] access_units@[k]).bytes@
                    == s.subrange(close_unit(before)[k].0, close_unit(before)[k].1)
                    && access_units@[k].keyframe == close_unit(before)[k].2 by {
                    if k < prev.len() {
                        assert(access_units@[k] == prev[k]);
                    }
                }
            }
            current_start = None;
            current_has_vcl = false;
            current_keyframe = false;
        }
        if current_start.is_none() {
            current_start = Some(nal.start);
        }
        current_end = nal.end;
        let vcl = match codec {
            CodecName::H264 => is_h264_vcl_nal(t),
            CodecName::H265 => is_h265_vcl_nal(t),
        };
        if vcl {
            current_has_vcl = true;
        }
        let key = match codec {
            CodecName::H264 => t == 5,
            CodecName::H265 => is_h265_irap_nal(t),
        };
        if key {
            current_keyframe = true;
        }
        i = i + 1;
        proof {
            if i < nals.len() {
                assert(nals[i - 1].end <= nals[i as int].start);
            }
        }
    }
    let ghost fin = split_fold(s, codec, nals, nals.len());
    if let Some(start) = current_start {
        let bytes = vstd::slice::slice_to_vec(&input[start..current_end]);
        let ghost prev = access_units@;
        access_units.push(VideoAccessUnit { bytes, keyframe: current_keyframe });
        assert forall|k: int| 0 <= k < access_units@.len() implies (#[trigger] access_units@[k]).bytes@
            == s.subrange(close_unit(fin)[k].0, close_unit(fin)[k].1) && access_units@[k].keyframe
            == close_unit(fin)[k].2 by {
            if k < prev.len() {
                assert(access_units@[k] == prev[k]);
            }
        }
    }
    Ok(access_units)
}

/// Splits an H.264 Annex B stream into access units.
pub fn h264_annex_b_access_units(input: &[u8]) -> (r: Result<Vec<VideoAccessUnit>, MediaError>)
    ensures
        split_outcome(r, input@, CodecName::H264),
{
    split_access_units(input, CodecName::H264)
}

/// Splits an H.265 Annex B stream into access units.
pub fn h265_annex_b_access_units(input: &[u8]) -> (r: Result<Vec<VideoAccessUnit>, MediaError>)
    ensures
        split_outcome(r, input@, CodecName::H265),
{
    split_access_units(input, CodecName::H265)
}

/// Splits an Annex B stream of the named codec into access units. AV1 and
/// unknown codecs are refused.
pub fn video_annex_b_access_units(codec: &str, input: &[u8]) -> (r: Result<
    Vec<VideoAccessUnit>,
    MediaError,
>)
    ensures
        match normalized_codec_spec(codec@) {
            Some(VideoCodec::H264) => split_outcome(r, input@, CodecName::H264),
            Some(VideoCodec::H265) => split_outcome(r, input@, CodecName::H265),
            Some(VideoCodec::Av1) => r == Err::<Vec<VideoAccessUnit>, MediaError>(
                MediaError::Av1NotAnnexB,
            ),
            None => r matches Err(MediaError::UnsupportedAnnexBCodec(name)) && name@ == codec@,
        },
{
    match normalized_video_codec(codec) {
        Some(VideoCodec::H264) => h264_annex_b_access_units(input),
        Some(VideoCodec::H265) => h265_annex_b_access_units(input),
        Some(VideoCodec::Av1) => Err(MediaError::Av1NotAnnexB),
        None => Err(MediaError::UnsupportedAnnexBCodec(codec.to_string())),
    }
}


/// In H.265, a video, sequence or picture parameter set or an SEI (NAL
/// types 32 to 34, 39 and 40) that follows a slice of the current access
/// unit opens the next one: the unit so far is closed as it was, and the
/// new unit's bytes begin with that NAL unit.
pub proof fn law_h265_parameter_sets_open_a_new_unit(s: Seq<u8>, st: SplitState, n: NalUnit)
    requires
        st.has_vcl,
        st.current_start is Some,
        (32 <= n.nal_type <= 34) || n.nal_type == 39 || n.nal_type == 40,
    ensures
        split_step(s, CodecName::H265, st, n).current_start == Some(n.start as int),
        split_step(s, CodecName::H265, st, n).units == st.units.push(
            (st.current_start->0, st.current_end, st.keyframe),
        ),
        !split_step(s, CodecName::H265, st, n).keyframe,
        !split_step(s, CodecName::H265, st, n).has_vcl,
{
}


/// An access unit delimiter after any content opens the next access unit,
/// in H.264 (type 9) as in H.265 (type 35): the unit so far is closed and
/// the new one begins with the delimiter.
pub proof fn law_delimiter_opens_a_new_unit(s: Seq<u8>, codec: CodecName, st: SplitState, n: NalUnit)
    requires
        st.current_start is Some,
        (codec == CodecName::H264 && n.nal_type == 9) || (codec == CodecName::H265 && n.nal_type == 35),
    ensures
        split_step(s, codec, st, n).current_start == Some(n.start as int),
        split_step(s, codec, st, n).units == st.units.push((st.current_start->0, st.current_end, st.keyframe)),
{
}

/// A NAL unit that does not open a new access unit joins the current one:
/// in H.265 a parameter set or SEI before any slice of the unit stays in
/// it, and the unit's end moves to the NAL unit's end.
pub proof fn law_h265_parameter_sets_before_a_slice_stay(s: Seq<u8>, st: SplitState, n: NalUnit)
    requires
        !st.has_vcl,
        st.current_start is Some,
        (32 <= n.nal_type <= 34) || n.nal_type == 39 || n.nal_type == 40,
    ensures
        split_step(s, CodecName::H265, st, n).current_start == st.current_start,
        split_step(s, CodecName::H265, st, n).units == st.units,
        split_step(s, CodecName::H265, st, n).current_end == n.end as int,
{
}


/// In H.264, the first slice of a new picture (`first_mb_in_slice` zero)
/// after a slice of the current access unit opens the next one.
pub proof fn law_h264_new_picture_opens_a_new_unit(s: Seq<u8>, st: SplitState, n: NalUnit)
    requires
        st.has_vcl,
        st.current_start is Some,
        1 <= n.nal_type <= 5,
        h264_first_mb(s.subrange(n.payload_start as int, n.end as int)) == Some(0u64),
    ensures
        split_step(s, CodecName::H264, st, n).current_start == Some(n.start as int),
        split_step(s, CodecName::H264, st, n).units == st.units.push(
            (st.current_start->0, st.current_end, st.keyframe),
        ),
{
}

/// An access unit holding an IDR slice (H.264 type 5) or an IRAP picture
/// (H.265 types 16 to 21) is a keyframe.
pub proof fn law_key_pictures_mark_the_unit(s: Seq<u8>, codec: CodecName, st: SplitState, n: NalUnit)
    requires
        (codec == CodecName::H264 && n.nal_type == 5) || (codec == CodecName::H265 && 16 <= n.nal_type
            <= 21),
    ensures
        split_step(s, codec, st, n).keyframe,
        split_step(s, codec, st, n).has_vcl,
{
}

} // verus!
