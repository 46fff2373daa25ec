//! Incremental audio senders: ADTS frames and fixed-size PCM packets, the
//! latter protected four packets at a time.
use vstd::prelude::*;
use crate::documents::{AudioPacketView, MuninnMediaAudioPacketRecord};
use crate::media::audio::{
    audio_fec_fault, audio_fec_parity_records, audio_packet_of, audio_parity_row, audio_views,
    packetize_audio_error, packetize_audio_packet, AudioOptions, AudioPacketizeOptions,
};
use crate::media::codec::{is_adts_codec, is_adts_codec_spec};
use crate::media::error::{MediaError, MediaField, MediaKind, Overflow, SenderKind};
use crate::media::parity::wire_views;
use crate::media::sender::drop_front;
use crate::media::wire::{MuninnMediaWireRecord, WireView};

verus! {

/// Complete ADTS frames at the front of a byte buffer.
pub struct CompleteAdtsFrames {
    pub frames: Vec<Vec<u8>>,
    pub consumed_bytes: usize,
}

/// The 13-bit `frame_length` field of the ADTS header at `off`.
pub open spec fn adts_frame_len(s: Seq<u8>, off: int) -> nat {
    ((s[off + 3] % 4) as nat) * 2048 + (s[off + 4] as nat) * 8 + (s[off + 5] as nat) / 32
}

/// Header length: 7 bytes without CRC (`protection_absent`), else 9.
pub open spec fn adts_header_len(s: Seq<u8>, off: int) -> nat {
    if s[off + 1] % 2 == 1 {
        7
    } else {
        9
    }
}

/// The complete frames from `off` on as `(start, end)` spans, and where the
/// last of them ends; an incomplete tail is left for later.
pub open spec fn adts_scan(s: Seq<u8>, off: nat) -> Result<(Seq<(int, int)>, nat), MediaError>
    decreases s.len() - off,
{
    if off >= s.len() || s.len() - off < 2 {
        Ok((Seq::empty(), off))
    } else if s[off as int] != 0xff || s[off + 1int] < 0xf0 {
        Err(MediaError::AdtsSync)
    } else if s.len() - off < 7 {
        Ok((Seq::empty(), off))
    } else {
        let len = adts_frame_len(s, off as int);
        let header = adts_header_len(s, off as int);
        if len < header {
            Err(MediaError::AdtsShortFrame(len as usize, header as usize))
        } else if s.len() - off < len {
            Ok((Seq::empty(), off))
        } else {
            match adts_scan(s, off + len) {
                Err(e) => Err(e),
                Ok((rest, consumed)) => Ok((seq![(off as int, (off + len) as int)] + rest, consumed)),
            }
        }
    }
}

pub open spec fn frame_views(f: Seq<Vec<u8>>) -> Seq<Seq<u8>> {
    f.map_values(|v: Vec<u8>| v@)
}

pub open spec fn span_bytes(s: Seq<u8>, spans: Seq<(int, int)>) -> Seq<Seq<u8>> {
    spans.map_values(|p: (int, int)| s.subrange(p.0, p.1))
}

/// Splits the complete ADTS frames off the front of `input`.
pub fn complete_adts_frames(input: &[u8]) -> (r: Result<CompleteAdtsFrames, MediaError>)
    ensures
        match adts_scan(input@, 0) {
            Err(e) => r == Err::<CompleteAdtsFrames, MediaError>(e),
            Ok((spans, consumed)) => r matches Ok(f) && f.consumed_bytes == consumed && frame_views(
                f.frames@,
            ) == span_bytes(input@, spans),
        },
{
    let ghost s = input@;
    let mut frames: Vec<Vec<u8>> = Vec::new();
    let ghost mut taken: Seq<(int, int)> = Seq::empty();
    let mut offset: usize = 0;
    let n = input.len();
    let mut done = false;
    while !done && offset < n
        invariant
            s == input@,
            n == s.len(),
            offset <= n,
            frame_views(frames@) == span_bytes(s, taken),
            adts_scan(s, 0) == match adts_scan(s, offset as nat) {
                Err(e) => Err::<(Seq<(int, int)>, nat), MediaError>(e),
                Ok((rest, consumed)) => Ok((taken + rest, consumed)),
            },
            done ==> adts_scan(s, offset as nat) == Ok::<(Seq<(int, int)>, nat), MediaError>(
                (Seq::empty(), offset as nat),
            ),
        decreases n - offset, if done { 0int } else { 1int },
    {
        if n - offset < 2 {
            done = true;
        } else if input[offset] != 0xff || input[offset + 1] < 0xf0 {
            return Err(MediaError::AdtsSync);
        } else if n - offset < 7 {
            done = true;
        } else {
            let header: usize = if input[offset + 1] % 2 == 1 {
                7
            } else {
                9
            };
            let len: usize = ((input[offset + 3] % 4) as usize) * 2048 + (input[offset + 4] as usize)
                * 8 + (input[offset + 5] as usize) / 32;
            if len < header {
                return Err(MediaError::AdtsShortFrame(len, header));
            }
            if n - offset < len {
                done = true;
            } else {
                let end = offset + len;
                let frame = vstd::slice::slice_to_vec(&input[offset..end]);
                let ghost prev = frames@;
                frames.push(frame);
                proof {
                    let span = (offset as int, end as int);
                    assert(frame_views(frames@) =~= span_bytes(s, taken.push(span))) by {
                        assert(frame_views(frames@) =~= frame_views(prev).push(s.subrange(
                            offset as int,
                            end as int,
                        )));
                    }
                    match adts_scan(s, end as nat) {
                        Err(e) => {},
                        Ok((rest, consumed)) => {
                            assert(taken + (seq![span] + rest) =~= taken.push(span) + rest);
                        },
                    }
                    taken = taken.push(span);
                }
                offset = end;
            }
        }
    }
    proof {
        if !done {
            assert(adts_scan(s, offset as nat) == Ok::<(Seq<(int, int)>, nat), MediaError>(
                (Seq::empty(), offset as nat),
            ));
        }
        assert(taken + Seq::<(int, int)>::empty() =~= taken);
    }
    Ok(CompleteAdtsFrames { frames, consumed_bytes: offset })
}

pub struct AudioAdtsStreamSendConfig {
    pub stream_id: String,
    pub session_id: String,
    pub codec: String,
    pub first_packet_id: u64,
    pub first_pts_ticks: i64,
    pub packet_duration_ticks: u32,
    pub timebase_num: u32,
    pub timebase_den: u32,
    pub deadline_delay_ticks: i64,
    pub max_pending_bytes: usize,
    pub source_runtime_id: String,
    pub source_role: String,
}

pub struct AudioPcmStreamSendConfig {
    pub stream_id: String,
    pub session_id: String,
    pub codec: String,
    pub first_packet_id: u64,
    pub first_pts_ticks: i64,
    pub packet_duration_ticks: u32,
    pub timebase_num: u32,
    pub timebase_den: u32,
    pub deadline_delay_ticks: i64,
    pub channels: u32,
    pub bytes_per_sample: u32,
    pub max_pending_bytes: usize,
    pub source_runtime_id: String,
    pub source_role: String,
}

/// The packet timing every audio sender applies: the stream identity from
/// its configuration, the packet's id and pts from its clock.
pub ghost struct AudioStreamFacts {
    pub stream_id: Seq<char>,
    pub session_id: Seq<char>,
    pub codec: Seq<char>,
    pub packet_duration_ticks: u32,
    pub timebase_num: u32,
    pub timebase_den: u32,
    pub deadline_delay_ticks: i64,
}

pub open spec fn adts_facts(c: AudioAdtsStreamSendConfig) -> AudioStreamFacts {
    AudioStreamFacts {
        stream_id: c.stream_id@,
        session_id: c.session_id@,
        codec: c.codec@,
        packet_duration_ticks: c.packet_duration_ticks,
        timebase_num: c.timebase_num,
        timebase_den: c.timebase_den,
        deadline_delay_ticks: c.deadline_delay_ticks,
    }
}

pub open spec fn pcm_facts(c: AudioPcmStreamSendConfig) -> AudioStreamFacts {
    AudioStreamFacts {
        stream_id: c.stream_id@,
        session_id: c.session_id@,
        codec: c.codec@,
        packet_duration_ticks: c.packet_duration_ticks,
        timebase_num: c.timebase_num,
        timebase_den: c.timebase_den,
        deadline_delay_ticks: c.deadline_delay_ticks,
    }
}

/// The options of the packet with the given id and pts, its deadline a
/// fixed delay after its pts.
pub open spec fn timed_packet(f: AudioStreamFacts, id: u64, pts: i64) -> Result<AudioOptions, MediaError> {
    let deadline = pts + f.deadline_delay_ticks;
    if deadline > i64::MAX || deadline < i64::MIN {
        Err(MediaError::ArithmeticOverflow(Overflow::AudioDeadline))
    } else {
        Ok(
            AudioOptions {
                stream_id: f.stream_id,
                session_id: f.session_id,
                codec: f.codec,
                packet_id: id,
                pts_ticks: pts,
                duration_ticks: f.packet_duration_ticks,
                timebase_num: f.timebase_num,
                timebase_den: f.timebase_den,
                deadline_ticks: deadline as i64,
            },
        )
    }
}

pub ghost struct AudioSenderView {
    pub pending: Seq<u8>,
    pub next_packet_id: u64,
    pub next_pts_ticks: i64,
}

/// The clock after one packet: the next id, then the next pts; an overflow
/// stops it, the id already advanced when only the pts overflows.
pub open spec fn advance_packet_clock(f: AudioStreamFacts, st: AudioSenderView) -> (Option<MediaError>, AudioSenderView) {
    if st.next_packet_id == u64::MAX {
        (Some(MediaError::ArithmeticOverflow(Overflow::AudioPacketId)), st)
    } else {
        let st2 = AudioSenderView { next_packet_id: (st.next_packet_id + 1) as u64, ..st };
        let pts = st.next_pts_ticks + f.packet_duration_ticks;
        if pts > i64::MAX {
            (Some(MediaError::ArithmeticOverflow(Overflow::AudioPts)), st2)
        } else {
            (None, AudioSenderView { next_pts_ticks: pts as i64, ..st2 })
        }
    }
}

pub open spec fn adts_config_error(c: AudioAdtsStreamSendConfig) -> Option<MediaError> {
    if !is_adts_codec_spec(c.codec@) {
        Some(MediaError::AdtsSenderCodec)
    } else if c.stream_id@.len() == 0 {
        Some(MediaError::EmptyField(MediaField::StreamId))
    } else if c.session_id@.len() == 0 {
        Some(MediaError::EmptyField(MediaField::SessionId))
    } else if c.packet_duration_ticks == 0 {
        Some(MediaError::ZeroPacketDuration)
    } else if c.timebase_num == 0 || c.timebase_den == 0 {
        Some(MediaError::ZeroTimebase(MediaKind::Audio))
    } else if c.deadline_delay_ticks < 0 {
        Some(MediaError::NegativeDeadlineDelay)
    } else if c.max_pending_bytes == 0 {
        Some(MediaError::ZeroMaxPending)
    } else if c.source_runtime_id@.len() == 0 {
        Some(MediaError::EmptyField(MediaField::SourceRuntimeId))
    } else if c.source_role@.len() == 0 {
        Some(MediaError::EmptyField(MediaField::SourceRole))
    } else {
        None
    }
}

/// Sending ADTS frames `k..` of the pending bytes as audio packets.
pub open spec fn adts_emit_loop(
    f: AudioStreamFacts,
    st: AudioSenderView,
    spans: Seq<(int, int)>,
    k: nat,
    consumed: nat,
    out: Seq<WireView>,
) -> (Result<Seq<WireView>, MediaError>, AudioSenderView)
    decreases spans.len() - k,
{
    if k >= spans.len() {
        (Ok(out), AudioSenderView { pending: drop_front(st.pending, consumed), ..st })
    } else {
        match timed_packet(f, st.next_packet_id, st.next_pts_ticks) {
            Err(e) => (Err(e), st),
            Ok(o) => {
                let bytes = st.pending.subrange(spans[k as int].0, spans[k as int].1);
                match packetize_audio_error(o, bytes) {
                    Some(e) => (Err(e), st),
                    None => {
                        let (fault, st2) = advance_packet_clock(f, st);
                        match fault {
                            Some(e) => (Err(e), st2),
                            None => adts_emit_loop(
                                f,
                                st2,
                                spans,
                                k + 1,
                                consumed,
                                out.push(WireView::Audio(audio_packet_of(o, bytes))),
                            ),
                        }
                    },
                }
            },
        }
    }
}

/// What sending the complete ADTS frames of the pending bytes does.
pub open spec fn adts_emit(f: AudioStreamFacts, st: AudioSenderView, stored_at: Seq<char>) -> (
    Result<Seq<WireView>, MediaError>,
    AudioSenderView,
) {
    if stored_at.len() == 0 {
        (Err(MediaError::EmptyField(MediaField::StoredAt)), st)
    } else {
        match adts_scan(st.pending, 0) {
            Err(e) => (Err(e), st),
            Ok((spans, consumed)) => if consumed == 0 {
                (Ok(Seq::empty()), st)
            } else {
                adts_emit_loop(f, st, spans, 0, consumed, Seq::empty())
            },
        }
    }
}

pub struct AudioAdtsStreamSendState {
    config: AudioAdtsStreamSendConfig,
    pending: Vec<u8>,
    next_packet_id: u64,
    next_pts_ticks: i64,
}

impl View for AudioAdtsStreamSendState {
    type V = AudioSenderView;

    closed spec fn view(&self) -> AudioSenderView {
        AudioSenderView {
            pending: self.pending@,
            next_packet_id: self.next_packet_id,
            next_pts_ticks: self.next_pts_ticks,
        }
    }
}

/// Appends `bytes` to a byte vector.
fn append_bytes(v: &mut Vec<u8>, bytes: &[u8])
    ensures
        final(v)@ == old(v)@ + bytes@,
{
    let mut i: usize = 0;
    while i < bytes.len()
        invariant
            i <= bytes@.len(),
            v@ == old(v)@ + bytes@.subrange(0, i as int),
        decreases bytes@.len() - i,
    {
        v.push(bytes[i]);
        i = i + 1;
        assert(v@ =~= old(v)@ + bytes@.subrange(0, i as int));
    }
    assert(bytes@.subrange(0, i as int) =~= bytes@);
}

/// Builds one audio packet record with checked deadline arithmetic.
fn timed_packet_exec(
    stream_id: &String,
    session_id: &String,
    codec: &String,
    packet_duration_ticks: u32,
    timebase_num: u32,
    timebase_den: u32,
    deadline_delay_ticks: i64,
    id: u64,
    pts: i64,
    payload: &[u8],
) -> (r: Result<MuninnMediaAudioPacketRecord, MediaError>)
    ensures
        ({
            let f = AudioStreamFacts {
                stream_id: stream_id@,
                session_id: session_id@,
                codec: codec@,
                packet_duration_ticks,
                timebase_num,
                timebase_den,
                deadline_delay_ticks,
            };
            match timed_packet(f, id, pts) {
                Err(e) => r == Err::<MuninnMediaAudioPacketRecord, MediaError>(e),
                Ok(o) => match packetize_audio_error(o, payload@) {
                    Some(e) => r == Err::<MuninnMediaAudioPacketRecord, MediaError>(e),
                    None => r matches Ok(p) && p@ == audio_packet_of(o, payload@),
                },
            }
        }),
{
    let deadline_ticks = match pts.checked_add(deadline_delay_ticks) {
        Some(d) => d,
        None => {
            return Err(MediaError::ArithmeticOverflow(Overflow::AudioDeadline));
        },
    };
    packetize_audio_packet(
        AudioPacketizeOptions {
            stream_id: stream_id.as_str(),
            session_id: session_id.as_str(),
            codec: codec.as_str(),
            packet_id: id,
            pts_ticks: pts,
            duration_ticks: packet_duration_ticks,
            timebase_num,
            timebase_den,
            deadline_ticks,
        },
        payload,
    )
}

impl AudioAdtsStreamSendState {
    pub closed spec fn config(&self) -> AudioAdtsStreamSendConfig {
        self.config
    }

    pub closed spec fn wf(&self) -> bool {
        adts_config_error(self.config) is None
    }

    /// A sender for the configured ADTS stream, its clock at the first
    /// packet.
    pub fn new(config: AudioAdtsStreamSendConfig) -> (r: Result<Self, MediaError>)
        ensures
            match adts_config_error(config) {
                Some(e) => r == Err::<Self, MediaError>(e),
                None => r matches Ok(s) && s.wf() && s.config() == config && s@ == (AudioSenderView {
                    pending: Seq::empty(),
                    next_packet_id: config.first_packet_id,
                    next_pts_ticks: config.first_pts_ticks,
                }),
            },
    {
        if !is_adts_codec(config.codec.as_str()) {
            return Err(MediaError::AdtsSenderCodec);
        }
        if config.stream_id.as_str().is_empty() {
            return Err(MediaError::EmptyField(MediaField::StreamId));
        }
        if config.session_id.as_str().is_empty() {
            return Err(MediaError::EmptyField(MediaField::SessionId));
        }
        if config.packet_duration_ticks == 0 {
            return Err(MediaError::ZeroPacketDuration);
        }
        if config.timebase_num == 0 || config.timebase_den == 0 {
            return Err(MediaError::ZeroTimebase(MediaKind::Audio));
        }
        if config.deadline_delay_ticks < 0 {
            return Err(MediaError::NegativeDeadlineDelay);
        }
        if config.max_pending_bytes == 0 {
            return Err(MediaError::ZeroMaxPending);
        }
        if config.source_runtime_id.as_str().is_empty() {
            return Err(MediaError::EmptyField(MediaField::SourceRuntimeId));
        }
        if config.source_role.as_str().is_empty() {
            return Err(MediaError::EmptyField(MediaField::SourceRole));
        }
        let next_packet_id = config.first_packet_id;
        let next_pts_ticks = config.first_pts_ticks;
        let s = AudioAdtsStreamSendState { config, pending: Vec::new(), next_packet_id, next_pts_ticks };
        assert(s@.pending =~= Seq::<u8>::empty());
        Ok(s)
    }

    /// Appends bytes and sends every ADTS frame that is now complete.
    pub fn push(&mut self, stored_at: &str, bytes: &[u8]) -> (r: Result<
        Vec<MuninnMediaWireRecord>,
        MediaError,
    >)
        requires
            old(self).wf(),
        ensures
            final(self).wf(),
            final(self).config() == old(self).config(),
            ({
                let st = AudioSenderView { pending: old(self)@.pending + bytes@, ..old(self)@ };
                if st.pending.len() > old(self).config().max_pending_bytes {
                    &&& r matches Err(MediaError::PendingExceeded(SenderKind::Adts, m))
                    &&& m == old(self).config().max_pending_bytes
                    &&& final(self)@ == st
                } else {
                    let (res, after) = adts_emit(adts_facts(old(self).config()), st, stored_at@);
                    &&& final(self)@ == after
                    &&& match res {
                        Ok(w) => r matches Ok(out) && wire_views(out@) == w,
                        Err(e) => r == Err::<Vec<MuninnMediaWireRecord>, MediaError>(e),
                    }
                }
            }),
    {
        append_bytes(&mut self.pending, bytes);
        if self.pending.len() > self.config.max_pending_bytes {
            return Err(MediaError::PendingExceeded(SenderKind::Adts, self.config.max_pending_bytes));
        }
        self.emit_available(stored_at)
    }

    /// Sends every complete frame; bytes left over are refused.
    pub fn finish(&mut self, stored_at: &str) -> (r: Result<Vec<MuninnMediaWireRecord>, MediaError>)
        requires
            old(self).wf(),
        ensures
            final(self).wf(),
            final(self).config() == old(self).config(),
            ({
                let (res, after) = adts_emit(adts_facts(old(self).config()), old(self)@, stored_at@);
                &&& final(self)@ == after
                &&& match res {
                    Ok(w) => if after.pending.len() > 0 {
                        r matches Err(MediaError::TrailingBytes(SenderKind::Adts, n)) && n
                            == after.pending.len()
                    } else {
                        r matches Ok(out) && wire_views(out@) == w
                    },
                    Err(e) => r == Err::<Vec<MuninnMediaWireRecord>, MediaError>(e),
                }
            }),
    {
        let payloads = match self.emit_available(stored_at) {
            Ok(p) => p,
            Err(e) => {
                return Err(e);
            },
        };
        if self.pending.len() > 0 {
            return Err(MediaError::TrailingBytes(SenderKind::Adts, self.pending.len()));
        }
        Ok(payloads)
    }

    /// Bytes held that do not form a sent frame yet.
    pub fn pending_bytes(&self) -> (r: usize)
        ensures
            r == self@.pending.len(),
    {
        self.pending.len()
    }

    /// The packet id the next frame will carry.
    pub fn next_packet_id(&self) -> (r: u64)
        ensures
            r == self@.next_packet_id,
    {
        self.next_packet_id
    }

    fn emit_available(&mut self, stored_at: &str) -> (r: Result<Vec<MuninnMediaWireRecord>, MediaError>)
        requires
            old(self).wf(),
        ensures
            final(self).wf(),
            final(self).config == old(self).config,
            ({
                let (res, after) = adts_emit(adts_facts(old(self).config), old(self)@, stored_at@);
                &&& final(self)@ == after
                &&& match res {
                    Ok(w) => r matches Ok(out) && wire_views(out@) == w,
                    Err(e) => r == Err::<Vec<MuninnMediaWireRecord>, MediaError>(e),
                }
            }),
    {
        if stored_at.is_empty() {
            return Err(MediaError::EmptyField(MediaField::StoredAt));
        }
        let frames = match complete_adts_frames(self.pending.as_slice()) {
            Ok(f) => f,
            Err(e) => {
                return Err(e);
            },
        };
        if frames.consumed_bytes == 0 {
            return Ok(Vec::new());
        }
        let ghost f = adts_facts(self.config);
        let ghost pending = self.pending@;
        let ghost spans = adts_scan(pending, 0)->Ok_0.0;
        let consumed = frames.consumed_bytes;
        assert(adts_scan(pending, 0) == Ok::<(Seq<(int, int)>, nat), MediaError>((spans, consumed as nat)));
        assert(frame_views(frames.frames@).len() == frames.frames@.len());
        assert(span_bytes(pending, spans).len() == spans.len());
        assert(adts_emit(f, old(self)@, stored_at@) == adts_emit_loop(f, old(self)@, spans, 0, consumed as nat, Seq::empty()));
        let mut out: Vec<MuninnMediaWireRecord> = Vec::new();
        assert(wire_views(out@) =~= Seq::<WireView>::empty());
        let mut k: usize = 0;
        while k < frames.frames.len()
            invariant
                f == adts_facts(self.config),
                self.config == old(self).config,
                adts_config_error(self.config) is None,
                self.pending@ == pending,
                frame_views(frames.frames@) == span_bytes(pending, spans),
                frames.frames@.len() == spans.len(),
                frames.consumed_bytes == consumed,
                k <= frames.frames@.len(),
                adts_emit(f, old(self)@, stored_at@) == adts_emit_loop(f, old(self)@, spans, 0, consumed as nat, Seq::empty()),
                adts_emit_loop(f, old(self)@, spans, 0, consumed as nat, Seq::empty())
                    == adts_emit_loop(f, self@, spans, k as nat, consumed as nat, wire_views(out@)),
            decreases frames.frames@.len() - k,
        {
            let frame = &frames.frames[k];
            assert(frame@ == frame_views(frames.frames@)[k as int]);
            assert(frame@ == span_bytes(pending, spans)[k as int]);
            let record = match timed_packet_exec(
                &self.config.stream_id,
                &self.config.session_id,
                &self.config.codec,
                self.config.packet_duration_ticks,
                self.config.timebase_num,
                self.config.timebase_den,
                self.config.deadline_delay_ticks,
                self.next_packet_id,
                self.next_pts_ticks,
                frame.as_slice(),
            ) {
                Ok(p) => p,
                Err(e) => {
                    assert(adts_emit_loop(f, self@, spans, k as nat, consumed as nat, wire_views(out@)) == (Err::<Seq<WireView>, MediaError>(e), self@));
                    return Err(e);
                },
            };
            let ghost prev = out@;
            out.push(MuninnMediaWireRecord::Audio(record));
            assert(wire_views(out@) =~= wire_views(prev).push(WireView::Audio(record@)));
            if self.next_packet_id == u64::MAX {
                return Err(MediaError::ArithmeticOverflow(Overflow::AudioPacketId));
            }
            self.next_packet_id = self.next_packet_id + 1;
            let pts = match self.next_pts_ticks.checked_add(self.config.packet_duration_ticks as i64) {
                Some(p) => p,
                None => {
                    return Err(MediaError::ArithmeticOverflow(Overflow::AudioPts));
                },
            };
            self.next_pts_ticks = pts;
            k = k + 1;
        }
        let total = self.pending.len();
        let start = if consumed <= total {
            consumed
        } else {
            total
        };
        let rest = vstd::slice::slice_to_vec(&self.pending.as_slice()[start..total]);
        self.pending = rest;
        assert(self@.pending =~= drop_front(pending, consumed as nat));
        Ok(out)
    }
}

pub open spec fn pcm_config_error(c: AudioPcmStreamSendConfig) -> Option<MediaError> {
    if c.stream_id@.len() == 0 {
        Some(MediaError::EmptyField(MediaField::StreamId))
    } else if c.session_id@.len() == 0 {
        Some(MediaError::EmptyField(MediaField::SessionId))
    } else if c.codec@.len() == 0 {
        Some(MediaError::EmptyField(MediaField::Codec))
    } else if c.packet_duration_ticks == 0 {
        Some(MediaError::ZeroPacketDuration)
    } else if c.timebase_num == 0 || c.timebase_den == 0 {
        Some(MediaError::ZeroTimebase(MediaKind::Audio))
    } else if c.deadline_delay_ticks < 0 {
        Some(MediaError::NegativeDeadlineDelay)
    } else if c.channels == 0 {
        Some(MediaError::ZeroChannels)
    } else if c.bytes_per_sample == 0 {
        Some(MediaError::ZeroBytesPerSample)
    } else if c.max_pending_bytes == 0 {
        Some(MediaError::ZeroMaxPending)
    } else if c.source_runtime_id@.len() == 0 {
        Some(MediaError::EmptyField(MediaField::SourceRuntimeId))
    } else if c.source_role@.len() == 0 {
        Some(MediaError::EmptyField(MediaField::SourceRole))
    } else {
        None
    }
}

/// Bytes of one PCM packet: channels times sample width (saturating) times
/// the frames a packet lasts.
pub open spec fn pcm_packet_bytes(c: AudioPcmStreamSendConfig) -> Result<nat, MediaError> {
    let frame = c.channels * c.bytes_per_sample;
    let frame = if frame > usize::MAX {
        usize::MAX as nat
    } else {
        frame as nat
    };
    let packet = frame * c.packet_duration_ticks;
    if packet > usize::MAX {
        Err(MediaError::ArithmeticOverflow(Overflow::PcmBytesPerPacket))
    } else if packet == 0 {
        Err(MediaError::ZeroBytesPerPacket)
    } else {
        Ok(packet as nat)
    }
}

pub ghost struct PcmSenderView {
    pub pending: Seq<u8>,
    pub next_packet_id: u64,
    pub next_pts_ticks: i64,
    /// Packets sent since the last parity pair.
    pub fec_block: Seq<AudioPacketView>,
}

/// Sending PCM packets `i..count` of `size` bytes each.
pub open spec fn pcm_emit_loop(
    f: AudioStreamFacts,
    st: PcmSenderView,
    size: nat,
    i: nat,
    count: nat,
    out: Seq<WireView>,
) -> (Result<Seq<WireView>, MediaError>, PcmSenderView)
    decreases count - i,
{
    if i >= count {
        (Ok(out), PcmSenderView { pending: drop_front(st.pending, count * size), ..st })
    } else {
        match timed_packet(f, st.next_packet_id, st.next_pts_ticks) {
            Err(e) => (Err(e), st),
            Ok(o) => {
                let bytes = st.pending.subrange((i * size) as int, (i * size + size) as int);
                match packetize_audio_error(o, bytes) {
                    Some(e) => (Err(e), st),
                    None => {
                        let packet = audio_packet_of(o, bytes);
                        let sent = out.push(WireView::Audio(packet));
                        let block = st.fec_block.push(packet);
                        let st1 = PcmSenderView { fec_block: block, ..st };
                        let (fault, sent2, st2) = if block.len() == 4 {
                            match audio_fec_fault(block) {
                                Some(e) => (Some(e), sent, st1),
                                None => (
                                    None,
                                    sent.push(WireView::AudioParity(audio_parity_row(block, 0))).push(
                                        WireView::AudioParity(audio_parity_row(block, 1)),
                                    ),
                                    PcmSenderView { fec_block: Seq::empty(), ..st1 },
                                ),
                            }
                        } else {
                            (None, sent, st1)
                        };
                        match fault {
                            Some(e) => (Err(e), st2),
                            None => if st2.next_packet_id == u64::MAX {
                                (Err(MediaError::ArithmeticOverflow(Overflow::AudioPacketId)), st2)
                            } else {
                                let st3 = PcmSenderView {
                                    next_packet_id: (st2.next_packet_id + 1) as u64,
                                    ..st2
                                };
                                let pts = st2.next_pts_ticks + f.packet_duration_ticks;
                                if pts > i64::MAX {
                                    (Err(MediaError::ArithmeticOverflow(Overflow::AudioPts)), st3)
                                } else {
                                    pcm_emit_loop(
                                        f,
                                        PcmSenderView { next_pts_ticks: pts as i64, ..st3 },
                                        size,
                                        i + 1,
                                        count,
                                        sent2,
                                    )
                                }
                            },
                        }
                    },
                }
            },
        }
    }
}

/// What sending the complete PCM packets of the pending bytes does; after
/// every fourth packet its parity pair follows.
pub open spec fn pcm_emit(c: AudioPcmStreamSendConfig, st: PcmSenderView, stored_at: Seq<char>) -> (
    Result<Seq<WireView>, MediaError>,
    PcmSenderView,
) {
    if stored_at.len() == 0 {
        (Err(MediaError::EmptyField(MediaField::StoredAt)), st)
    } else {
        match pcm_packet_bytes(c) {
            Err(e) => (Err(e), st),
            Ok(size) => {
                let count = st.pending.len() / size;
                if count == 0 {
                    (Ok(Seq::empty()), st)
                } else {
                    pcm_emit_loop(pcm_facts(c), st, size, 0, count, Seq::empty())
                }
            },
        }
    }
}

pub struct AudioPcmStreamSendState {
    config: AudioPcmStreamSendConfig,
    pending: Vec<u8>,
    next_packet_id: u64,
    next_pts_ticks: i64,
    fec_block: Vec<MuninnMediaAudioPacketRecord>,
}

impl View for AudioPcmStreamSendState {
    type V = PcmSenderView;

    closed spec fn view(&self) -> PcmSenderView {
        PcmSenderView {
            pending: self.pending@,
            next_packet_id: self.next_packet_id,
            next_pts_ticks: self.next_pts_ticks,
            fec_block: audio_views(self.fec_block@),
        }
    }
}

proof fn lemma_packet_slices(i: nat, count: nat, size: nat, len: nat)
    requires
        i < count,
        count == len / size,
        size > 0,
    ensures
        i * size + size <= count * size,
        count * size <= len,
{
    assert(i * size + size <= count * size) by (nonlinear_arith)
        requires
            i < count,
            size > 0,
    ;
    assert(count * size <= len) by (nonlinear_arith)
        requires
            count == len / size,
            size > 0,
    ;
}

impl AudioPcmStreamSendState {
    pub closed spec fn config(&self) -> AudioPcmStreamSendConfig {
        self.config
    }

    pub closed spec fn wf(&self) -> bool {
        pcm_config_error(self.config) is None
    }

    /// A sender for the configured PCM stream, its clock at the first
    /// packet.
    pub fn new(config: AudioPcmStreamSendConfig) -> (r: Result<Self, MediaError>)
        ensures
            match pcm_config_error(config) {
                Some(e) => r == Err::<Self, MediaError>(e),
                None => r matches Ok(s) && s.wf() && s.config() == config && s@ == (PcmSenderView {
                    pending: Seq::empty(),
                    next_packet_id: config.first_packet_id,
                    next_pts_ticks: config.first_pts_ticks,
                    fec_block: Seq::empty(),
                }),
            },
    {
        if config.stream_id.as_str().is_empty() {
            return Err(MediaError::EmptyField(MediaField::StreamId));
        }
        if config.session_id.as_str().is_empty() {
            return Err(MediaError::EmptyField(MediaField::SessionId));
        }
        if config.codec.as_str().is_empty() {
            return Err(MediaError::EmptyField(MediaField::Codec));
        }
        if config.packet_duration_ticks == 0 {
            return Err(MediaError::ZeroPacketDuration);
        }
        if config.timebase_num == 0 || config.timebase_den == 0 {
            return Err(MediaError::ZeroTimebase(MediaKind::Audio));
        }
        if config.deadline_delay_ticks < 0 {
            return Err(MediaError::NegativeDeadlineDelay);
        }
        if config.channels == 0 {
            return Err(MediaError::ZeroChannels);
        }
        if config.bytes_per_sample == 0 {
            return Err(MediaError::ZeroBytesPerSample);
        }
        if config.max_pending_bytes == 0 {
            return Err(MediaError::ZeroMaxPending);
        }
        if config.source_runtime_id.as_str().is_empty() {
            return Err(MediaError::EmptyField(MediaField::SourceRuntimeId));
        }
        if config.source_role.as_str().is_empty() {
            return Err(MediaError::EmptyField(MediaField::SourceRole));
        }
        let next_packet_id = config.first_packet_id;
        let next_pts_ticks = config.first_pts_ticks;
        let s = AudioPcmStreamSendState {
            config,
            pending: Vec::new(),
            next_packet_id,
            next_pts_ticks,
            fec_block: Vec::new(),
        };
        assert(s@.pending =~= Seq::<u8>::empty());
        assert(s@.fec_block =~= Seq::<AudioPacketView>::empty());
        Ok(s)
    }

    /// Appends bytes and sends every PCM packet that is now complete.
    pub fn push(&mut self, stored_at: &str, bytes: &[u8]) -> (r: Result<
        Vec<MuninnMediaWireRecord>,
        MediaError,
    >)
        requires
            old(self).wf(),
        ensures
            final(self).wf(),
            final(self).config() == old(self).config(),
            ({
                let st = PcmSenderView { pending: old(self)@.pending + bytes@, ..old(self)@ };
                if st.pending.len() > old(self).config().max_pending_bytes {
                    &&& r matches Err(MediaError::PendingExceeded(SenderKind::Pcm, m))
                    &&& m == old(self).config().max_pending_bytes
                    &&& final(self)@ == st
                } else {
                    let (res, after) = pcm_emit(old(self).config(), st, stored_at@);
                    &&& final(self)@ == after
                    &&& match res {
                        Ok(w) => r matches Ok(out) && wire_views(out@) == w,
                        Err(e) => r == Err::<Vec<MuninnMediaWireRecord>, MediaError>(e),
                    }
                }
            }),
    {
        append_bytes(&mut self.pending, bytes);
        if self.pending.len() > self.config.max_pending_bytes {
            return Err(MediaError::PendingExceeded(SenderKind::Pcm, self.config.max_pending_bytes));
        }
        self.emit_available(stored_at)
    }

    /// Sends every complete packet; bytes left over are refused.
    pub fn finish(&mut self, stored_at: &str) -> (r: Result<Vec<MuninnMediaWireRecord>, MediaError>)
        requires
            old(self).wf(),
        ensures
            final(self).wf(),
            final(self).config() == old(self).config(),
            ({
                let (res, after) = pcm_emit(old(self).config(), old(self)@, stored_at@);
                &&& final(self)@ == after
                &&& match res {
                    Ok(w) => if after.pending.len() > 0 {
                        r matches Err(MediaError::TrailingBytes(SenderKind::Pcm, n)) && n
                            == after.pending.len()
                    } else {
                        r matches Ok(out) && wire_views(out@) == w
                    },
                    Err(e) => r == Err::<Vec<MuninnMediaWireRecord>, MediaError>(e),
                }
            }),
    {
        let payloads = match self.emit_available(stored_at) {
            Ok(p) => p,
            Err(e) => {
                return Err(e);
            },
        };
        if self.pending.len() > 0 {
            return Err(MediaError::TrailingBytes(SenderKind::Pcm, self.pending.len()));
        }
        Ok(payloads)
    }

    fn emit_available(&mut self, stored_at: &str) -> (r: Result<Vec<MuninnMediaWireRecord>, MediaError>)
        requires
            old(self).wf(),
        ensures
            final(self).wf(),
            final(self).config == old(self).config,
            ({
                let (res, after) = pcm_emit(old(self).config, old(self)@, stored_at@);
                &&& final(self)@ == after
                &&& match res {
                    Ok(w) => r matches Ok(out) && wire_views(out@) == w,
                    Err(e) => r == Err::<Vec<MuninnMediaWireRecord>, MediaError>(e),
                }
            }),
    {
        if stored_at.is_empty() {
            return Err(MediaError::EmptyField(MediaField::StoredAt));
        }
        let channels = self.config.channels as usize;
        let width = self.config.bytes_per_sample as usize;
        let frame_bytes: usize = match channels.checked_mul(width) {
            Some(v) => v,
            None => usize::MAX,
        };
        let size = match frame_bytes.checked_mul(self.config.packet_duration_ticks as usize) {
            Some(v) => v,
            None => {
                return Err(MediaError::ArithmeticOverflow(Overflow::PcmBytesPerPacket));
            },
        };
        if size == 0 {
            return Err(MediaError::ZeroBytesPerPacket);
        }
        let count = self.pending.len() / size;
        if count == 0 {
            return Ok(Vec::new());
        }
        let ghost f = pcm_facts(self.config);
        let ghost pending = self.pending@;
        assert(pcm_packet_bytes(self.config) == Ok::<nat, MediaError>(size as nat));
        assert(pcm_emit(self.config, old(self)@, stored_at@) == pcm_emit_loop(f, old(self)@, size as nat, 0, count as nat, Seq::empty()));
        let mut out: Vec<MuninnMediaWireRecord> = Vec::new();
        assert(wire_views(out@) =~= Seq::<WireView>::empty());
        let mut i: usize = 0;
        while i < count
            invariant
                f == pcm_facts(self.config),
                self.config == old(self).config,
                pcm_config_error(self.config) is None,
                self.pending@ == pending,
                size > 0,
                count == pending.len() / (size as nat),
                i <= count,
                pcm_emit(self.config, old(self)@, stored_at@) == pcm_emit_loop(f, old(self)@, size as nat, 0, count as nat, Seq::empty()),
                pcm_emit_loop(f, old(self)@, size as nat, 0, count as nat, Seq::empty())
                    == pcm_emit_loop(f, self@, size as nat, i as nat, count as nat, wire_views(out@)),
            decreases count - i,
        {
            let total_now = self.pending.len();
            proof {
                lemma_packet_slices(i as nat, count as nat, size as nat, pending.len());
            }
            let start = i * size;
            let end = start + size;
            let record = match timed_packet_exec(
                &self.config.stream_id,
                &self.config.session_id,
                &self.config.codec,
                self.config.packet_duration_ticks,
                self.config.timebase_num,
                self.config.timebase_den,
                self.config.deadline_delay_ticks,
                self.next_packet_id,
                self.next_pts_ticks,
                &self.pending.as_slice()[start..end],
            ) {
                Ok(p) => p,
                Err(e) => {
                    return Err(e);
                },
            };
            let ghost prev_out = out@;
            let ghost prev_block = self.fec_block@;
            let copy = record.duplicate();
            out.push(MuninnMediaWireRecord::Audio(record));
            self.fec_block.push(copy);
            assert(audio_views(self.fec_block@) =~= audio_views(prev_block).push(copy@));
            assert(wire_views(out@) =~= wire_views(prev_out).push(WireView::Audio(copy@)));
            if self.fec_block.len() == 4 {
                let rows = match audio_fec_parity_records(self.fec_block.as_slice()) {
                    Ok(rows) => rows,
                    Err(e) => {
                        return Err(e);
                    },
                };
                let ghost mid = out@;
                let p0 = rows[0].duplicate();
                let p1 = rows[1].duplicate();
                out.push(MuninnMediaWireRecord::AudioParity(p0));
                out.push(MuninnMediaWireRecord::AudioParity(p1));
                assert(wire_views(out@) =~= wire_views(mid).push(WireView::AudioParity(p0@)).push(
                    WireView::AudioParity(p1@),
                ));
                self.fec_block.clear();
                assert(audio_views(self.fec_block@) =~= Seq::<AudioPacketView>::empty());
            }
            if self.next_packet_id == u64::MAX {
                return Err(MediaError::ArithmeticOverflow(Overflow::AudioPacketId));
            }
            self.next_packet_id = self.next_packet_id + 1;
            let pts = match self.next_pts_ticks.checked_add(self.config.packet_duration_ticks as i64) {
                Some(p) => p,
                None => {
                    return Err(MediaError::ArithmeticOverflow(Overflow::AudioPts));
                },
            };
            self.next_pts_ticks = pts;
            i = i + 1;
        }
        let total = self.pending.len();
        proof {
            lemma_packet_slices(0, count as nat, size as nat, pending.len());
        }
        let used = count * size;
        let rest = vstd::slice::slice_to_vec(&self.pending.as_slice()[used..total]);
        self.pending = rest;
        assert(self@.pending =~= drop_front(pending, (count * size) as nat));
        Ok(out)
    }
}

} // verus!
