//! Whole Annex B streams as timed video chunk records.
use vstd::prelude::*;
use crate::documents::{MuninnMediaVideoAccessUnitRecord, VideoChunkView};
use crate::media::annexb::{access_unit_spans, video_annex_b_access_units, VideoAccessUnit};
use crate::media::codec::{normalized_codec_spec, VideoCodec};
use crate::media::error::{CodecName, MediaError, Overflow};
use crate::media::video::{
    chunk_count_for, packetize_video_access_unit, packetize_video_error, packetized_chunk, views,
    FrameOptions, VideoFramePacketizeOptions,
};

verus! {

pub struct VideoAnnexBStreamPacketizeOptions<'a> {
    pub stream_id: &'a str,
    pub session_id: &'a str,
    pub codec: &'a str,
    pub first_frame_id: u64,
    pub first_pts_ticks: i64,
    pub frame_duration_ticks: u32,
    pub timebase_num: u32,
    pub timebase_den: u32,
    pub deadline_delay_ticks: i64,
    pub max_payload_bytes: usize,
}

/// The chunk records of one access unit, in index order.
pub open spec fn packetized_views(o: FrameOptions, bytes: Seq<u8>, keyframe: bool) -> Seq<
    VideoChunkView,
> {
    Seq::new(
        chunk_count_for(bytes.len(), o.max_payload_bytes as nat),
        |i: int| packetized_chunk(o, bytes, keyframe, i as nat),
    )
}

/// The options of a whole stream as plain values.
pub ghost struct StreamOptions {
    pub stream_id: Seq<char>,
    pub session_id: Seq<char>,
    pub codec: Seq<char>,
    pub first_frame_id: u64,
    pub first_pts_ticks: i64,
    pub frame_duration_ticks: u32,
    pub timebase_num: u32,
    pub timebase_den: u32,
    pub deadline_delay_ticks: i64,
    pub max_payload_bytes: usize,
}

impl View for VideoAnnexBStreamPacketizeOptions<'_> {
    type V = StreamOptions;

    open spec fn view(&self) -> StreamOptions {
        StreamOptions {
            stream_id: self.stream_id@,
            session_id: self.session_id@,
            codec: self.codec@,
            first_frame_id: self.first_frame_id,
            first_pts_ticks: self.first_pts_ticks,
            frame_duration_ticks: self.frame_duration_ticks,
            timebase_num: self.timebase_num,
            timebase_den: self.timebase_den,
            deadline_delay_ticks: self.deadline_delay_ticks,
            max_payload_bytes: self.max_payload_bytes,
        }
    }
}

/// The options of the frame with the given id and pts: its deadline comes a
/// fixed delay after its pts.
pub open spec fn timed_frame(o: StreamOptions, frame_id: u64, pts: i64) -> Result<FrameOptions, MediaError> {
    let deadline = pts + o.deadline_delay_ticks;
    if deadline > i64::MAX || deadline < i64::MIN {
        Err(MediaError::ArithmeticOverflow(Overflow::VideoDeadline))
    } else {
        Ok(
            FrameOptions {
                stream_id: o.stream_id,
                session_id: o.session_id,
                codec: o.codec,
                frame_id,
                pts_ticks: pts,
                duration_ticks: o.frame_duration_ticks,
                timebase_num: o.timebase_num,
                timebase_den: o.timebase_den,
                deadline_ticks: deadline as i64,
                max_payload_bytes: o.max_payload_bytes,
            },
        )
    }
}

/// The frame options of access unit `i` of the stream: consecutive frame
/// ids, pts advancing by one frame duration, deadline a fixed delay later.
pub open spec fn frame_options(o: StreamOptions, i: nat) -> Result<FrameOptions, MediaError> {
    let frame_id = o.first_frame_id + i;
    let pts_offset = i * o.frame_duration_ticks;
    let pts = o.first_pts_ticks + pts_offset;
    if frame_id > u64::MAX {
        Err(MediaError::ArithmeticOverflow(Overflow::VideoFrameId))
    } else if i > i64::MAX || pts_offset > i64::MAX || pts > i64::MAX || pts < i64::MIN {
        Err(MediaError::ArithmeticOverflow(Overflow::VideoPts))
    } else {
        timed_frame(o, frame_id as u64, pts as i64)
    }
}

/// The records of access units `k..` of the stream `s` cut at `spans`.
pub open spec fn stream_records_from(
    o: StreamOptions,
    s: Seq<u8>,
    spans: Seq<(int, int, bool)>,
    k: nat,
) -> Result<Seq<VideoChunkView>, MediaError>
    decreases spans.len() - k,
{
    if k >= spans.len() {
        Ok(Seq::empty())
    } else {
        match frame_options(o, k) {
            Err(e) => Err(e),
            Ok(fo) => {
                let bytes = s.subrange(spans[k as int].0, spans[k as int].1);
                match packetize_video_error(fo, bytes) {
                    Some(e) => Err(e),
                    None => match stream_records_from(o, s, spans, k + 1) {
                        Err(e) => Err(e),
                        Ok(rest) => Ok(packetized_views(fo, bytes, spans[k as int].2) + rest),
                    },
                }
            },
        }
    }
}

/// What packetizing the Annex B stream `s` gives once the codec is known.
pub open spec fn stream_outcome(
    o: StreamOptions,
    s: Seq<u8>,
    codec: CodecName,
    r: Result<Vec<MuninnMediaVideoAccessUnitRecord>, MediaError>,
) -> bool {
    match access_unit_spans(s, codec) {
        Err(e) => r == Err::<Vec<MuninnMediaVideoAccessUnitRecord>, MediaError>(e),
        Ok(spans) => match stream_records_from(o, s, spans, 0) {
            Ok(w) => r matches Ok(out) && views(out@) == w,
            Err(e) => r == Err::<Vec<MuninnMediaVideoAccessUnitRecord>, MediaError>(e),
        },
    }
}

/// The frame options of access unit `index`, with checked arithmetic.
fn frame_options_exec<'a>(options: &VideoAnnexBStreamPacketizeOptions<'a>, index: usize) -> (r: Result<
    VideoFramePacketizeOptions<'a>,
    MediaError,
>)
    requires
        options.frame_duration_ticks > 0,
        options.deadline_delay_ticks >= 0,
    ensures
        match frame_options(options@, index as nat) {
            Ok(f) => r matches Ok(x) && x@ == f,
            Err(e) => r == Err::<VideoFramePacketizeOptions<'a>, MediaError>(e),
        },
{
    let frame_id = match options.first_frame_id.checked_add(index as u64) {
        Some(f) => f,
        None => {
            return Err(MediaError::ArithmeticOverflow(Overflow::VideoFrameId));
        },
    };
    if (index as u64) > 9223372036854775807u64 {
        return Err(MediaError::ArithmeticOverflow(Overflow::VideoPts));
    }
    let pts_offset = match (index as i64).checked_mul(options.frame_duration_ticks as i64) {
        Some(p) => p,
        None => {
            return Err(MediaError::ArithmeticOverflow(Overflow::VideoPts));
        },
    };
    let pts_ticks = match options.first_pts_ticks.checked_add(pts_offset) {
        Some(p) => p,
        None => {
            return Err(MediaError::ArithmeticOverflow(Overflow::VideoPts));
        },
    };
    let deadline_ticks = match pts_ticks.checked_add(options.deadline_delay_ticks) {
        Some(d) => d,
        None => {
            return Err(MediaError::ArithmeticOverflow(Overflow::VideoDeadline));
        },
    };
    Ok(
        VideoFramePacketizeOptions {
            stream_id: options.stream_id,
            session_id: options.session_id,
            codec: options.codec,
            frame_id,
            pts_ticks,
            duration_ticks: options.frame_duration_ticks,
            timebase_num: options.timebase_num,
            timebase_den: options.timebase_den,
            deadline_ticks,
            max_payload_bytes: options.max_payload_bytes,
        },
    )
}

/// Splits an Annex B stream into access units and cuts each into chunk
/// records with consecutive frame ids and pts.
pub fn packetize_video_annex_b_stream(
    options: VideoAnnexBStreamPacketizeOptions<'_>,
    input: &[u8],
) -> (r: Result<Vec<MuninnMediaVideoAccessUnitRecord>, MediaError>)
    ensures
        if options.frame_duration_ticks == 0 {
            r == Err::<Vec<MuninnMediaVideoAccessUnitRecord>, MediaError>(
                MediaError::ZeroFrameDuration,
            )
        } else if options.deadline_delay_ticks < 0 {
            r == Err::<Vec<MuninnMediaVideoAccessUnitRecord>, MediaError>(
                MediaError::NegativeDeadlineDelay,
            )
        } else {
            match normalized_codec_spec(options.codec@) {
                Some(VideoCodec::H264) => stream_outcome(options@, input@, CodecName::H264, r),
                Some(VideoCodec::H265) => stream_outcome(options@, input@, CodecName::H265, r),
                Some(VideoCodec::Av1) => r == Err::<Vec<MuninnMediaVideoAccessUnitRecord>, MediaError>(
                    MediaError::Av1NotAnnexB,
                ),
                None => r matches Err(MediaError::UnsupportedAnnexBCodec(name)) && name@
                    == options.codec@,
            }
        },
{
    if options.frame_duration_ticks == 0 {
        return Err(MediaError::ZeroFrameDuration);
    }
    if options.deadline_delay_ticks < 0 {
        return Err(MediaError::NegativeDeadlineDelay);
    }
    let units = match video_annex_b_access_units(options.codec, input) {
        Ok(u) => u,
        Err(e) => {
            return Err(e);
        },
    };
    let ghost codec = match normalized_codec_spec(options.codec@) {
        Some(VideoCodec::H265) => CodecName::H265,
        _ => CodecName::H264,
    };
    let ghost spans = access_unit_spans(input@, codec)->Ok_0;
    packetize_units(options, input, Ghost(spans), &units)
}

/// Cuts each split access unit into records, in stream order.
fn packetize_units(
    options: VideoAnnexBStreamPacketizeOptions<'_>,
    input: &[u8],
    Ghost(spans): Ghost<Seq<(int, int, bool)>>,
    units: &Vec<VideoAccessUnit>,
) -> (r: Result<Vec<MuninnMediaVideoAccessUnitRecord>, MediaError>)
    requires
        options.frame_duration_ticks > 0,
        options.deadline_delay_ticks >= 0,
        crate::media::annexb::units_match(units@, input@, spans),
    ensures
        match stream_records_from(options@, input@, spans, 0) {
            Ok(w) => r matches Ok(out) && views(out@) == w,
            Err(e) => r == Err::<Vec<MuninnMediaVideoAccessUnitRecord>, MediaError>(e),
        },
{
    let ghost s = input@;
    let mut records: Vec<MuninnMediaVideoAccessUnitRecord> = Vec::new();
    let mut index: usize = 0;
    while index < units.len()
        invariant
            s == input@,
            options.frame_duration_ticks > 0,
            options.deadline_delay_ticks >= 0,
            crate::media::annexb::units_match(units@, s, spans),
            index <= units@.len(),
            stream_records_from(options@, s, spans, 0) == match stream_records_from(
                options@,
                s,
                spans,
                index as nat,
            ) {
                Ok(rest) => Ok(views(records@) + rest),
                Err(e) => Err::<Seq<VideoChunkView>, MediaError>(e),
            },
        decreases units@.len() - index,
    {
        let frame_options_now = match frame_options_exec(&options, index) {
            Ok(f) => f,
            Err(e) => {
                assert(stream_records_from(options@, s, spans, index as nat) == Err::<Seq<VideoChunkView>, MediaError>(e));
                return Err(e);
            },
        };
        let unit = &units[index];
        let ghost bytes = s.subrange(spans[index as int].0, spans[index as int].1);
        assert(unit.bytes@ == bytes);
        let chunk_records = match packetize_video_access_unit(frame_options_now, unit) {
            Ok(v) => v,
            Err(e) => {
                return Err(e);
            },
        };
        proof {
            assert(views(chunk_records@) =~= packetized_views(
                frame_options_now@,
                bytes,
                spans[index as int].2,
            ));
        }
        let ghost before = views(records@);
        let mut j: usize = 0;
        let n = chunk_records.len();
        let mut chunk_records = chunk_records;
        let ghost produced = views(chunk_records@);
        while j < n
            invariant
                n == chunk_records@.len(),
                produced == views(chunk_records@),
                j <= n,
                views(records@) == before + produced.subrange(0, j as int),
            decreases n - j,
        {
            let ghost prev = records@;
            records.push(chunk_records[j].duplicate());
            j = j + 1;
            assert(views(records@) =~= before + produced.subrange(0, j as int)) by {
                assert(views(records@) =~= views(prev).push(produced[j - 1]));
            }
        }
        proof {
            assert(produced.subrange(0, j as int) =~= produced);
            match stream_records_from(options@, s, spans, (index + 1) as nat) {
                Ok(rest) => {
                    assert(before + (produced + rest) =~= (before + produced) + rest);
                },
                Err(e) => {},
            }
        }
        index = index + 1;
    }
    proof {
        assert(views(records@) + Seq::<VideoChunkView>::empty() =~= views(records@));
    }
    Ok(records)
}

} // verus!
