//! Incremental senders: bytes arrive in arbitrary pieces, complete media
//! units leave as typed wire records.
use vstd::prelude::*;
use crate::documents::{MuninnMediaVideoAccessUnitRecord, VideoChunkView};
use crate::media::annexb::{access_unit_spans, units_match, video_annex_b_access_units, VideoAccessUnit};
use crate::media::codec::{normalized_codec_spec, normalized_video_codec, VideoCodec};
use crate::media::error::{CodecName, MediaError, MediaField, MediaKind, Overflow, SenderKind};
use crate::media::parity::{video_wire_records_with_parity, wire_from, wire_views};
use crate::media::stream::{packetized_views, timed_frame, StreamOptions};
use crate::media::video::{packetize_video_access_unit, packetize_video_error, views, VideoFramePacketizeOptions};
use crate::media::wire::{MuninnMediaWireRecord, WireView};

verus! {

pub struct VideoAnnexBStreamSendConfig {
    pub stream_id: String,
    pub session_id: String,
    pub codec: String,
    pub first_frame_id: u64,
    pub first_pts_ticks: i64,
    pub frame_duration_ticks: u32,
    pub timebase_num: u32,
    pub timebase_den: u32,
    pub deadline_delay_ticks: i64,
    pub max_payload_bytes: usize,
    pub max_pending_bytes: usize,
    pub source_runtime_id: String,
    pub source_role: String,
}

/// Why an Annex B sender cannot be made from `c`, in check order.
pub open spec fn annexb_config_error(c: VideoAnnexBStreamSendConfig) -> Option<MediaError> {
    if !(normalized_codec_spec(c.codec@) == Some(VideoCodec::H264) || normalized_codec_spec(c.codec@)
        == Some(VideoCodec::H265)) {
        Some(MediaError::AnnexBSenderCodec)
    } else if c.stream_id@.len() == 0 {
        Some(MediaError::EmptyField(MediaField::StreamId))
    } else if c.session_id@.len() == 0 {
        Some(MediaError::EmptyField(MediaField::SessionId))
    } else if c.frame_duration_ticks == 0 {
        Some(MediaError::ZeroFrameDuration)
    } else if c.timebase_num == 0 || c.timebase_den == 0 {
        Some(MediaError::ZeroTimebase(MediaKind::Video))
    } else if c.deadline_delay_ticks < 0 {
        Some(MediaError::NegativeDeadlineDelay)
    } else if c.max_payload_bytes == 0 {
        Some(MediaError::ZeroMaxPayload)
    } else if c.max_pending_bytes == 0 {
        Some(MediaError::ZeroMaxPending)
    } else if c.source_runtime_id@.len() == 0 {
        Some(MediaError::EmptyField(MediaField::SourceRuntimeId))
    } else if c.source_role@.len() == 0 {
        Some(MediaError::EmptyField(MediaField::SourceRole))
    } else {
        None
    }
}

/// The stream options an Annex B sender packetizes with.
pub open spec fn annexb_stream_options(c: VideoAnnexBStreamSendConfig) -> StreamOptions {
    StreamOptions {
        stream_id: c.stream_id@,
        session_id: c.session_id@,
        codec: c.codec@,
        first_frame_id: c.first_frame_id,
        first_pts_ticks: c.first_pts_ticks,
        frame_duration_ticks: c.frame_duration_ticks,
        timebase_num: c.timebase_num,
        timebase_den: c.timebase_den,
        deadline_delay_ticks: c.deadline_delay_ticks,
        max_payload_bytes: c.max_payload_bytes,
    }
}

pub open spec fn annexb_codec(c: VideoAnnexBStreamSendConfig) -> CodecName {
    if normalized_codec_spec(c.codec@) == Some(VideoCodec::H265) {
        CodecName::H265
    } else {
        CodecName::H264
    }
}

/// `s` without its first `n` bytes (all of them when `n` exceeds its
/// length).
pub open spec fn drop_front(s: Seq<u8>, n: nat) -> Seq<u8> {
    if n <= s.len() {
        s.subrange(n as int, s.len() as int)
    } else {
        Seq::empty()
    }
}

pub ghost struct AnnexBSenderView {
    pub pending: Seq<u8>,
    pub next_frame_id: u64,
    pub next_pts_ticks: i64,
}

/// Sending access units `k..count` of the pending bytes cut at `spans`:
/// the records, and the clock and pending bytes after it.
pub open spec fn annexb_emit_loop(
    c: VideoAnnexBStreamSendConfig,
    st: AnnexBSenderView,
    spans: Seq<(int, int, bool)>,
    k: nat,
    count: nat,
    emitted: nat,
    out: Seq<WireView>,
) -> (Result<Seq<WireView>, MediaError>, AnnexBSenderView)
    decreases count - k,
{
    if k >= count || k >= spans.len() {
        (Ok(out), AnnexBSenderView { pending: drop_front(st.pending, emitted), ..st })
    } else {
        let span = spans[k as int];
        let emitted2 = emitted + st.pending.subrange(span.0, span.1).len();
        if emitted2 > usize::MAX {
            (Err(MediaError::ArithmeticOverflow(Overflow::EmittedBytes)), st)
        } else {
            match timed_frame(annexb_stream_options(c), st.next_frame_id, st.next_pts_ticks) {
                Err(e) => (Err(e), st),
                Ok(fo) => {
                    let bytes = st.pending.subrange(span.0, span.1);
                    match packetize_video_error(fo, bytes) {
                        Some(e) => (Err(e), st),
                        None => match wire_from(packetized_views(fo, bytes, span.2), 0) {
                            Err(e) => (Err(e), st),
                            Ok(w) => if st.next_frame_id == u64::MAX {
                                (Err(MediaError::ArithmeticOverflow(Overflow::VideoFrameId)), st)
                            } else {
                                let st2 = AnnexBSenderView {
                                    next_frame_id: (st.next_frame_id + 1) as u64,
                                    ..st
                                };
                                let pts = st.next_pts_ticks + c.frame_duration_ticks;
                                if pts > i64::MAX {
                                    (Err(MediaError::ArithmeticOverflow(Overflow::VideoPts)), st2)
                                } else {
                                    annexb_emit_loop(
                                        c,
                                        AnnexBSenderView { next_pts_ticks: pts as i64, ..st2 },
                                        spans,
                                        k + 1,
                                        count,
                                        emitted2 as nat,
                                        out + w,
                                    )
                                }
                            },
                        },
                    }
                },
            }
        }
    }
}

/// What sending the complete access units of the pending bytes does; all
/// of them when `flush`, else all but the last, which may still grow.
pub open spec fn annexb_emit(
    c: VideoAnnexBStreamSendConfig,
    st: AnnexBSenderView,
    stored_at: Seq<char>,
    flush: bool,
) -> (Result<Seq<WireView>, MediaError>, AnnexBSenderView) {
    if stored_at.len() == 0 {
        (Err(MediaError::EmptyField(MediaField::StoredAt)), st)
    } else if st.pending.len() == 0 {
        (Ok(Seq::empty()), st)
    } else {
        match access_unit_spans(st.pending, annexb_codec(c)) {
            Err(MediaError::NoStartCodes(_)) => (Ok(Seq::empty()), st),
            Err(MediaError::NoNalPayloads(_)) => (Ok(Seq::empty()), st),
            Err(e) => (Err(e), st),
            Ok(spans) => {
                let count: nat = if flush {
                    spans.len()
                } else if spans.len() > 0 {
                    (spans.len() - 1) as nat
                } else {
                    0
                };
                if count == 0 {
                    (Ok(Seq::empty()), st)
                } else {
                    annexb_emit_loop(c, st, spans, 0, count, 0, Seq::empty())
                }
            },
        }
    }
}

pub struct VideoAnnexBStreamSendState {
    config: VideoAnnexBStreamSendConfig,
    pending: Vec<u8>,
    next_frame_id: u64,
    next_pts_ticks: i64,
}

impl View for VideoAnnexBStreamSendState {
    type V = AnnexBSenderView;

    closed spec fn view(&self) -> AnnexBSenderView {
        AnnexBSenderView {
            pending: self.pending@,
            next_frame_id: self.next_frame_id,
            next_pts_ticks: self.next_pts_ticks,
        }
    }
}

impl VideoAnnexBStreamSendState {
    /// The configuration the sender was made with.
    pub closed spec fn config(&self) -> VideoAnnexBStreamSendConfig {
        self.config
    }

    pub closed spec fn wf(&self) -> bool {
        annexb_config_error(self.config) is None
    }

    /// A sender for the configured stream, its clock at the first frame.
    pub fn new(config: VideoAnnexBStreamSendConfig) -> (r: Result<Self, MediaError>)
        ensures
            match annexb_config_error(config) {
                Some(e) => r == Err::<Self, MediaError>(e),
                None => r matches Ok(s) && s.wf() && s.config() == config && s@ == (AnnexBSenderView {
                    pending: Seq::empty(),
                    next_frame_id: config.first_frame_id,
                    next_pts_ticks: config.first_pts_ticks,
                }),
            },
    {
        match normalized_video_codec(config.codec.as_str()) {
            Some(VideoCodec::H264) => {},
            Some(VideoCodec::H265) => {},
            _ => {
                return Err(MediaError::AnnexBSenderCodec);
            },
        }
        if config.stream_id.as_str().is_empty() {
            return Err(MediaError::EmptyField(MediaField::StreamId));
        }
        if config.session_id.as_str().is_empty() {
            return Err(MediaError::EmptyField(MediaField::SessionId));
        }
        if config.frame_duration_ticks == 0 {
            return Err(MediaError::ZeroFrameDuration);
        }
        if config.timebase_num == 0 || config.timebase_den == 0 {
            return Err(MediaError::ZeroTimebase(MediaKind::Video));
        }
        if config.deadline_delay_ticks < 0 {
            return Err(MediaError::NegativeDeadlineDelay);
        }
        if config.max_payload_bytes == 0 {
            return Err(MediaError::ZeroMaxPayload);
        }
        if config.max_pending_bytes == 0 {
            return Err(MediaError::ZeroMaxPending);
        }
        if config.source_runtime_id.as_str().is_empty() {
            return Err(MediaError::EmptyField(MediaField::SourceRuntimeId));
        }
        if config.source_role.as_str().is_empty() {
            return Err(MediaError::EmptyField(MediaField::SourceRole));
        }
        let next_frame_id = config.first_frame_id;
        let next_pts_ticks = config.first_pts_ticks;
        let s = VideoAnnexBStreamSendState { config, pending: Vec::new(), next_frame_id, next_pts_ticks };
        assert(s@.pending =~= Seq::<u8>::empty());
        Ok(s)
    }

    /// Appends bytes and sends every access unit that is now complete.
    pub fn push(&mut self, stored_at: &str, bytes: &[u8]) -> (r: Result<
        Vec<MuninnMediaWireRecord>,
        MediaError,
    >)
        requires
            old(self).wf(),
        ensures
            final(self).wf(),
            final(self).config() == old(self).config(),
            ({
                let st = AnnexBSenderView { pending: old(self)@.pending + bytes@, ..old(self)@ };
                if st.pending.len() > old(self).config().max_pending_bytes {
                    &&& r matches Err(MediaError::PendingExceeded(SenderKind::AnnexB, m))
                    &&& m == old(self).config().max_pending_bytes
                    &&& final(self)@ == st
                } else {
                    let (res, after) = annexb_emit(old(self).config(), st, stored_at@, false);
                    &&& final(self)@ == after
                    &&& match res {
                        Ok(w) => r matches Ok(out) && wire_views(out@) == w,
                        Err(e) => r == Err::<Vec<MuninnMediaWireRecord>, MediaError>(e),
                    }
                }
            }),
    {
        let mut i: usize = 0;
        let ghost start = self.pending@;
        while i < bytes.len()
            invariant
                i <= bytes@.len(),
                self.pending@ == start + bytes@.subrange(0, i as int),
                self.config == old(self).config,
                self.next_frame_id == old(self).next_frame_id,
                self.next_pts_ticks == old(self).next_pts_ticks,
                start == old(self).pending@,
            decreases bytes@.len() - i,
        {
            self.pending.push(bytes[i]);
            i = i + 1;
            assert(self.pending@ =~= start + bytes@.subrange(0, i as int));
        }
        assert(bytes@.subrange(0, i as int) =~= bytes@);
        if self.pending.len() > self.config.max_pending_bytes {
            return Err(MediaError::PendingExceeded(SenderKind::AnnexB, self.config.max_pending_bytes));
        }
        self.emit_available(stored_at, false)
    }

    /// Sends every remaining access unit, the last one included.
    pub fn finish(&mut self, stored_at: &str) -> (r: Result<Vec<MuninnMediaWireRecord>, MediaError>)
        requires
            old(self).wf(),
        ensures
            final(self).wf(),
            final(self).config() == old(self).config(),
            ({
                let (res, after) = annexb_emit(old(self).config(), old(self)@, stored_at@, true);
                &&& final(self)@ == after
                &&& match res {
                    Ok(w) => r matches Ok(out) && wire_views(out@) == w,
                    Err(e) => r == Err::<Vec<MuninnMediaWireRecord>, MediaError>(e),
                }
            }),
    {
        self.emit_available(stored_at, true)
    }

    /// Bytes held that do not form a sent access unit yet.
    pub fn pending_bytes(&self) -> (r: usize)
        ensures
            r == self@.pending.len(),
    {
        self.pending.len()
    }

    /// The frame id the next access unit will carry.
    pub fn next_frame_id(&self) -> (r: u64)
        ensures
            r == self@.next_frame_id,
    {
        self.next_frame_id
    }

    fn emit_available(&mut self, stored_at: &str, flush_last: bool) -> (r: Result<
        Vec<MuninnMediaWireRecord>,
        MediaError,
    >)
        requires
            old(self).wf(),
        ensures
            final(self).wf(),
            final(self).config == old(self).config,
            ({
                let (res, after) = annexb_emit(old(self).config, old(self)@, stored_at@, flush_last);
                &&& final(self)@ == after
                &&& match res {
                    Ok(w) => r matches Ok(out) && wire_views(out@) == w,
                    Err(e) => r == Err::<Vec<MuninnMediaWireRecord>, MediaError>(e),
                }
            }),
    {
        if stored_at.is_empty() {
            return Err(MediaError::EmptyField(MediaField::StoredAt));
        }
        if self.pending.len() == 0 {
            return Ok(Vec::new());
        }
        let units = match video_annex_b_access_units(self.config.codec.as_str(), self.pending.as_slice()) {
            Ok(u) => u,
            Err(MediaError::NoStartCodes(c)) => {
                return Ok(Vec::new());
            },
            Err(MediaError::NoNalPayloads(c)) => {
                return Ok(Vec::new());
            },
            Err(e) => {
                return Err(e);
            },
        };
        let ghost spans = access_unit_spans(self.pending@, annexb_codec(self.config))->Ok_0;
        let n = units.len();
        let count: usize = if flush_last {
            n
        } else if n > 0 {
            n - 1
        } else {
            0
        };
        if count == 0 {
            return Ok(Vec::new());
        }
        self.emit_units(stored_at, &units, count, Ghost(spans))
    }

    fn emit_units(
        &mut self,
        stored_at: &str,
        units: &Vec<VideoAccessUnit>,
        count: usize,
        Ghost(spans): Ghost<Seq<(int, int, bool)>>,
    ) -> (r: Result<Vec<MuninnMediaWireRecord>, MediaError>)
        requires
            old(self).wf(),
            units_match(units@, old(self)@.pending, spans),
            0 < count <= units@.len(),
        ensures
            final(self).wf(),
            final(self).config == old(self).config,
            ({
                let (res, after) = annexb_emit_loop(
                    old(self).config,
                    old(self)@,
                    spans,
                    0,
                    count as nat,
                    0,
                    Seq::empty(),
                );
                &&& final(self)@ == after
                &&& match res {
                    Ok(w) => r matches Ok(out) && wire_views(out@) == w,
                    Err(e) => r == Err::<Vec<MuninnMediaWireRecord>, MediaError>(e),
                }
            }),
    {
        let ghost c = self.config;
        let ghost pending = self.pending@;
        let mut out: Vec<MuninnMediaWireRecord> = Vec::new();
        let mut emitted: usize = 0;
        let mut k: usize = 0;
        while k < count
            invariant
                c == self.config,
                c == old(self).config,
                annexb_config_error(c) is None,
                self.pending@ == pending,
                units_match(units@, pending, spans),
                count <= units@.len(),
                k <= count,
                annexb_emit_loop(c, old(self)@, spans, 0, count as nat, 0, Seq::empty())
                    == annexb_emit_loop(c, self@, spans, k as nat, count as nat, emitted as nat, wire_views(out@)),
            decreases count - k,
        {
            let unit = &units[k];
            let ghost span = spans[k as int];
            assert(unit.bytes@ == pending.subrange(span.0, span.1));
            let len = unit.bytes.len();
            let next_emitted = match emitted.checked_add(len) {
                Some(e) => e,
                None => {
                    return Err(MediaError::ArithmeticOverflow(Overflow::EmittedBytes));
                },
            };
            let deadline_ticks = match self.next_pts_ticks.checked_add(self.config.deadline_delay_ticks) {
                Some(d) => d,
                None => {
                    return Err(MediaError::ArithmeticOverflow(Overflow::VideoDeadline));
                },
            };
            let options = VideoFramePacketizeOptions {
                stream_id: self.config.stream_id.as_str(),
                session_id: self.config.session_id.as_str(),
                codec: self.config.codec.as_str(),
                frame_id: self.next_frame_id,
                pts_ticks: self.next_pts_ticks,
                duration_ticks: self.config.frame_duration_ticks,
                timebase_num: self.config.timebase_num,
                timebase_den: self.config.timebase_den,
                deadline_ticks,
                max_payload_bytes: self.config.max_payload_bytes,
            };
            assert(timed_frame(annexb_stream_options(c), self.next_frame_id, self.next_pts_ticks)
                == Ok::<crate::media::video::FrameOptions, MediaError>(options@));
            let records = match packetize_video_access_unit(options, unit) {
                Ok(v) => v,
                Err(e) => {
                    return Err(e);
                },
            };
            proof {
                assert(views(records@) =~= packetized_views(options@, unit.bytes@, span.2));
            }
            let wire = match video_wire_records_with_parity(records.as_slice()) {
                Ok(w) => w,
                Err(e) => {
                    return Err(e);
                },
            };
            let ghost before = out@;
            let ghost wv = wire_views(wire@);
            let mut wire = wire;
            out.append(&mut wire);
            assert(wire_views(out@) =~= wire_views(before) + wv);
            if self.next_frame_id == u64::MAX {
                return Err(MediaError::ArithmeticOverflow(Overflow::VideoFrameId));
            }
            self.next_frame_id = self.next_frame_id + 1;
            let pts = match self.next_pts_ticks.checked_add(self.config.frame_duration_ticks as i64) {
                Some(p) => p,
                None => {
                    return Err(MediaError::ArithmeticOverflow(Overflow::VideoPts));
                },
            };
            self.next_pts_ticks = pts;
            emitted = next_emitted;
            k = k + 1;
        }
        let total = self.pending.len();
        let start = if emitted <= total {
            emitted
        } else {
            total
        };
        let rest = vstd::slice::slice_to_vec(&self.pending.as_slice()[start..total]);
        self.pending = rest;
        assert(self@.pending =~= drop_front(pending, emitted as nat));
        Ok(out)
    }
}

} // verus!
