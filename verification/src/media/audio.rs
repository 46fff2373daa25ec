//! Audio packets and their fixed 4+2 systematic parity code.
use vstd::prelude::*;
use crate::documents::{
    copy_bytes, copy_string, AudioPacketView, AudioParityView, MuninnMediaAudioPacketRecord,
    MuninnMediaAudioParityShardRecord,
};
use crate::media::error::{FecFault, MediaError, MediaField, MediaKind, Overflow, RecordFault, RecordKind};
use crate::media::gf256::{gf256_mul, gf_mul, lemma_gf_mul_one};

verus! {

pub struct AudioPacketizeOptions<'a> {
    pub stream_id: &'a str,
    pub session_id: &'a str,
    pub codec: &'a str,
    pub packet_id: u64,
    pub pts_ticks: i64,
    pub duration_ticks: u32,
    pub timebase_num: u32,
    pub timebase_den: u32,
    pub deadline_ticks: i64,
}

/// The options of one audio packet as plain values.
pub ghost struct AudioOptions {
    pub stream_id: Seq<char>,
    pub session_id: Seq<char>,
    pub codec: Seq<char>,
    pub packet_id: u64,
    pub pts_ticks: i64,
    pub duration_ticks: u32,
    pub timebase_num: u32,
    pub timebase_den: u32,
    pub deadline_ticks: i64,
}

impl View for AudioPacketizeOptions<'_> {
    type V = AudioOptions;

    open spec fn view(&self) -> AudioOptions {
        AudioOptions {
            stream_id: self.stream_id@,
            session_id: self.session_id@,
            codec: self.codec@,
            packet_id: self.packet_id,
            pts_ticks: self.pts_ticks,
            duration_ticks: self.duration_ticks,
            timebase_num: self.timebase_num,
            timebase_den: self.timebase_den,
            deadline_ticks: self.deadline_ticks,
        }
    }
}

/// Why packetizing an audio payload would be refused, in check order.
pub open spec fn packetize_audio_error(o: AudioOptions, payload: Seq<u8>) -> Option<MediaError> {
    if o.stream_id.len() == 0 {
        Some(MediaError::EmptyField(MediaField::StreamId))
    } else if o.session_id.len() == 0 {
        Some(MediaError::EmptyField(MediaField::SessionId))
    } else if o.codec.len() == 0 {
        Some(MediaError::EmptyField(MediaField::Codec))
    } else if o.timebase_num == 0 || o.timebase_den == 0 {
        Some(MediaError::ZeroTimebase(MediaKind::Audio))
    } else if o.duration_ticks == 0 {
        Some(MediaError::ZeroDuration(MediaKind::Audio))
    } else if o.deadline_ticks < o.pts_ticks {
        Some(MediaError::DeadlineBeforePts(MediaKind::Audio))
    } else if payload.len() == 0 {
        Some(MediaError::EmptyAudioPayload)
    } else {
        None
    }
}

/// The audio packet record made from the options and payload.
pub open spec fn audio_packet_of(o: AudioOptions, payload: Seq<u8>) -> AudioPacketView {
    AudioPacketView {
        stream_id: o.stream_id,
        session_id: o.session_id,
        packet_id: o.packet_id,
        codec: o.codec,
        pts_ticks: o.pts_ticks,
        duration_ticks: o.duration_ticks,
        timebase_num: o.timebase_num,
        timebase_den: o.timebase_den,
        deadline_ticks: o.deadline_ticks,
        payload,
    }
}

/// Wraps one encoded audio payload as a typed packet record.
pub fn packetize_audio_packet(options: AudioPacketizeOptions<'_>, payload: &[u8]) -> (r: Result<
    MuninnMediaAudioPacketRecord,
    MediaError,
>)
    ensures
        match packetize_audio_error(options@, payload@) {
            Some(e) => r == Err::<MuninnMediaAudioPacketRecord, MediaError>(e),
            None => r matches Ok(p) && p@ == audio_packet_of(options@, payload@),
        },
{
    if options.stream_id.is_empty() {
        return Err(MediaError::EmptyField(MediaField::StreamId));
    }
    if options.session_id.is_empty() {
        return Err(MediaError::EmptyField(MediaField::SessionId));
    }
    if options.codec.is_empty() {
        return Err(MediaError::EmptyField(MediaField::Codec));
    }
    if options.timebase_num == 0 || options.timebase_den == 0 {
        return Err(MediaError::ZeroTimebase(MediaKind::Audio));
    }
    if options.duration_ticks == 0 {
        return Err(MediaError::ZeroDuration(MediaKind::Audio));
    }
    if options.deadline_ticks < options.pts_ticks {
        return Err(MediaError::DeadlineBeforePts(MediaKind::Audio));
    }
    if payload.len() == 0 {
        return Err(MediaError::EmptyAudioPayload);
    }
    let bytes = vstd::slice::slice_to_vec(payload);
    Ok(
        MuninnMediaAudioPacketRecord {
            stream_id: options.stream_id.to_string(),
            session_id: options.session_id.to_string(),
            packet_id: options.packet_id,
            codec: options.codec.to_string(),
            pts_ticks: options.pts_ticks,
            duration_ticks: options.duration_ticks,
            timebase_num: options.timebase_num,
            timebase_den: options.timebase_den,
            deadline_ticks: options.deadline_ticks,
            payload: bytes,
        },
    )
}

/// Why a received audio packet record is malformed, if it is.
pub open spec fn audio_record_fault(r: AudioPacketView) -> Option<RecordFault> {
    if r.stream_id.len() == 0 {
        Some(RecordFault::EmptyStreamId)
    } else if r.session_id.len() == 0 {
        Some(RecordFault::EmptySessionId)
    } else if r.codec.len() == 0 {
        Some(RecordFault::EmptyCodec)
    } else if r.timebase_num == 0 || r.timebase_den == 0 {
        Some(RecordFault::ZeroTimebase)
    } else if r.duration_ticks == 0 {
        Some(RecordFault::ZeroDuration)
    } else if r.deadline_ticks < r.pts_ticks {
        Some(RecordFault::DeadlineBeforePts)
    } else if r.payload.len() == 0 {
        Some(RecordFault::EmptyPayload)
    } else {
        None
    }
}

/// Checks an audio packet record before it is trusted.
pub fn validate_audio_record(record: &MuninnMediaAudioPacketRecord) -> (r: Result<(), MediaError>)
    ensures
        match audio_record_fault(record@) {
            Some(f) => r == Err::<(), MediaError>(MediaError::InvalidRecord(RecordKind::Audio, f)),
            None => r is Ok,
        },
{
    let fault = if record.stream_id.as_str().is_empty() {
        Some(RecordFault::EmptyStreamId)
    } else if record.session_id.as_str().is_empty() {
        Some(RecordFault::EmptySessionId)
    } else if record.codec.as_str().is_empty() {
        Some(RecordFault::EmptyCodec)
    } else if record.timebase_num == 0 || record.timebase_den == 0 {
        Some(RecordFault::ZeroTimebase)
    } else if record.duration_ticks == 0 {
        Some(RecordFault::ZeroDuration)
    } else if record.deadline_ticks < record.pts_ticks {
        Some(RecordFault::DeadlineBeforePts)
    } else if record.payload.len() == 0 {
        Some(RecordFault::EmptyPayload)
    } else {
        None
    };
    match fault {
        Some(f) => Err(MediaError::InvalidRecord(RecordKind::Audio, f)),
        None => Ok(()),
    }
}

pub const AUDIO_FEC_DATA_SHARDS: usize = 4;

pub const AUDIO_FEC_PARITY_SHARDS: usize = 2;

/// The coefficient of data shard `i` in parity row 1: `2^i`.
pub open spec fn audio_coef(i: int) -> u8 {
    if i == 0 {
        1u8
    } else if i == 1 {
        2u8
    } else if i == 2 {
        4u8
    } else {
        8u8
    }
}

/// The coefficient of data shard `i` in parity row `p`.
pub open spec fn audio_row_coef(p: int, i: int) -> u8 {
    if p == 0 {
        1u8
    } else {
        audio_coef(i)
    }
}

/// Byte `j` of parity row `p` over data shards `0..n`.
pub open spec fn audio_parity_byte(d: Seq<AudioPacketView>, p: int, j: int, n: nat) -> u8
    decreases n,
{
    if n == 0 {
        0u8
    } else {
        audio_parity_byte(d, p, j, (n - 1) as nat) ^ gf_mul(d[n - 1].payload[j], audio_row_coef(p, n - 1))
    }
}

/// The fault data shard `k` raises against the first one.
pub open spec fn fec_shard_fault(d: Seq<AudioPacketView>, k: int) -> Option<MediaError> {
    let f = d[0];
    let id = f.packet_id + k;
    let pts = f.pts_ticks + f.duration_ticks * k;
    if id > u64::MAX {
        Some(MediaError::ArithmeticOverflow(Overflow::FecPacketId))
    } else if pts > i64::MAX || pts < i64::MIN {
        Some(MediaError::ArithmeticOverflow(Overflow::FecPts))
    } else if d[k].stream_id != f.stream_id || d[k].session_id != f.session_id || d[k].codec
        != f.codec || d[k].timebase_num != f.timebase_num || d[k].timebase_den != f.timebase_den
        || d[k].duration_ticks != f.duration_ticks || d[k].packet_id != id || d[k].pts_ticks != pts
        || d[k].payload.len() != f.payload.len() {
        Some(MediaError::AudioFec(FecFault::MixedData))
    } else {
        None
    }
}

/// The first invalid data record from `k` on.
pub open spec fn first_audio_record_fault(d: Seq<AudioPacketView>, k: nat) -> Option<MediaError>
    decreases d.len() - k,
{
    if k >= d.len() {
        None
    } else {
        match audio_record_fault(d[k as int]) {
            Some(f) => Some(MediaError::InvalidRecord(RecordKind::Audio, f)),
            None => first_audio_record_fault(d, k + 1),
        }
    }
}

/// The first shard from `k` on that does not continue the first one.
pub open spec fn first_fec_shard_fault(d: Seq<AudioPacketView>, k: nat) -> Option<MediaError>
    decreases d.len() - k,
{
    if k >= d.len() {
        None
    } else {
        match fec_shard_fault(d, k as int) {
            Some(e) => Some(e),
            None => first_fec_shard_fault(d, k + 1),
        }
    }
}

/// Why four data shards cannot be protected, if they cannot.
pub open spec fn audio_fec_fault(d: Seq<AudioPacketView>) -> Option<MediaError> {
    if d.len() != 4 {
        Some(MediaError::AudioFec(FecFault::DataShardCount))
    } else {
        match first_audio_record_fault(d, 0) {
            Some(e) => Some(e),
            None => first_fec_shard_fault(d, 0),
        }
    }
}

/// The latest deadline among shards `0..n`.
pub open spec fn max_deadline(d: Seq<AudioPacketView>, n: nat) -> i64
    decreases n,
{
    if n <= 1 {
        d[0].deadline_ticks
    } else {
        let m = max_deadline(d, (n - 1) as nat);
        if d[n - 1].deadline_ticks > m {
            d[n - 1].deadline_ticks
        } else {
            m
        }
    }
}

/// Parity row `p` of the four data shards `d`.
pub open spec fn audio_parity_row(d: Seq<AudioPacketView>, p: int) -> AudioParityView {
    let f = d[0];
    AudioParityView {
        stream_id: f.stream_id,
        session_id: f.session_id,
        base_packet_id: f.packet_id,
        codec: f.codec,
        base_pts_ticks: f.pts_ticks,
        packet_duration_ticks: f.duration_ticks,
        timebase_num: f.timebase_num,
        timebase_den: f.timebase_den,
        deadline_ticks: max_deadline(d, 4),
        data_shard_count: 4,
        parity_index: p as u16,
        parity_shard_count: 2,
        shard_payload_bytes: f.payload.len() as u32,
        payload: Seq::new(f.payload.len(), |j: int| audio_parity_byte(d, p, j, 4)),
    }
}

pub open spec fn audio_views(d: Seq<MuninnMediaAudioPacketRecord>) -> Seq<AudioPacketView> {
    d.map_values(|r: MuninnMediaAudioPacketRecord| r@)
}

/// Builds the two parity shards of four consecutive audio packets:
/// P0 = D0+D1+D2+D3 and P1 = D0+2D1+4D2+8D3 in GF(256).
pub fn audio_fec_parity_records(data: &[MuninnMediaAudioPacketRecord]) -> (r: Result<
    [MuninnMediaAudioParityShardRecord; 2],
    MediaError,
>)
    ensures
        match audio_fec_fault(audio_views(data@)) {
            Some(e) => r == Err::<[MuninnMediaAudioParityShardRecord; 2], MediaError>(e),
            None => r matches Ok(rows) && rows@[0]@ == audio_parity_row(audio_views(data@), 0)
                && rows@[1]@ == audio_parity_row(audio_views(data@), 1),
        },
{
    let ghost d = audio_views(data@);
    if data.len() != AUDIO_FEC_DATA_SHARDS {
        return Err(MediaError::AudioFec(FecFault::DataShardCount));
    }
    let mut k: usize = 0;
    while k < data.len()
        invariant
            d == audio_views(data@),
            d.len() == 4,
            k <= 4,
            first_audio_record_fault(d, 0) == first_audio_record_fault(d, k as nat),
        decreases 4 - k,
    {
        assert(d[k as int] == data@[k as int]@);
        match validate_audio_record(&data[k]) {
            Ok(()) => {},
            Err(e) => {
                return Err(e);
            },
        }
        k = k + 1;
    }
    let first = &data[0];
    assert(d[0] == first@);
    let shard_len = first.payload.len();
    let mut index: usize = 0;
    while index < data.len()
        invariant
            d == audio_views(data@),
            d.len() == 4,
            d[0] == first@,
            shard_len == first@.payload.len(),
            index <= 4,
            first_audio_record_fault(d, 0) is None,
            first_fec_shard_fault(d, 0) == first_fec_shard_fault(d, index as nat),
            forall|j: int| 0 <= j < index ==> (#[trigger] d[j]).payload.len() == shard_len,
        decreases 4 - index,
    {
        let record = &data[index];
        assert(d[index as int] == record@);
        let expected_packet_id = match first.packet_id.checked_add(index as u64) {
            Some(v) => v,
            None => {
                return Err(MediaError::ArithmeticOverflow(Overflow::FecPacketId));
            },
        };
        assert((first.duration_ticks as i64) * (index as i64) <= 4294967295 * 4) by (nonlinear_arith)
            requires
                index < 4,
                first.duration_ticks <= 4294967295,
        ;
        assert((first.duration_ticks as i64) * (index as i64) >= 0) by (nonlinear_arith)
            requires
                index < 4,
                first.duration_ticks >= 0,
        ;
        let step: i64 = (first.duration_ticks as i64) * (index as i64);
        let expected_pts = match first.pts_ticks.checked_add(step) {
            Some(v) => v,
            None => {
                return Err(MediaError::ArithmeticOverflow(Overflow::FecPts));
            },
        };
        if record.stream_id != first.stream_id || record.session_id != first.session_id
            || record.codec != first.codec || record.timebase_num != first.timebase_num
            || record.timebase_den != first.timebase_den || record.duration_ticks
            != first.duration_ticks || record.packet_id != expected_packet_id || record.pts_ticks
            != expected_pts || record.payload.len() != shard_len {
            return Err(MediaError::AudioFec(FecFault::MixedData));
        }
        index = index + 1;
    }
    let mut p0: Vec<u8> = Vec::new();
    let mut p1: Vec<u8> = Vec::new();
    let mut j: usize = 0;
    while j < shard_len
        invariant
            d == audio_views(data@),
            d.len() == 4,
            forall|i: int| 0 <= i < 4 ==> (#[trigger] d[i]).payload.len() == shard_len,
            j <= shard_len,
            p0@.len() == j,
            p1@.len() == j,
            forall|t: int| 0 <= t < j ==> (#[trigger] p0@[t]) == audio_parity_byte(d, 0, t, 4),
            forall|t: int| 0 <= t < j ==> (#[trigger] p1@[t]) == audio_parity_byte(d, 1, t, 4),
        decreases shard_len - j,
    {
        let mut a: u8 = 0;
        let mut b: u8 = 0;
        let mut i: usize = 0;
        while i < 4
            invariant
                d == audio_views(data@),
                d.len() == 4,
                forall|i: int| 0 <= i < 4 ==> (#[trigger] d[i]).payload.len() == shard_len,
                j < shard_len,
                i <= 4,
                a == audio_parity_byte(d, 0, j as int, i as nat),
                b == audio_parity_byte(d, 1, j as int, i as nat),
            decreases 4 - i,
        {
            assert(d[i as int] == data@[i as int]@);
            let byte = data[i].payload[j];
            assert(byte == d[i as int].payload[j as int]);
            let coefficient: u8 = if i == 0 {
                1
            } else if i == 1 {
                2
            } else if i == 2 {
                4
            } else {
                8
            };
            proof {
                lemma_gf_mul_one(byte);
            }
            a = a ^ byte;
            b = b ^ gf256_mul(byte, coefficient);
            i = i + 1;
        }
        p0.push(a);
        p1.push(b);
        j = j + 1;
    }
    let mut deadline = data[0].deadline_ticks;
    let mut n: usize = 1;
    while n < 4
        invariant
            d == audio_views(data@),
            d.len() == 4,
            1 <= n <= 4,
            deadline == max_deadline(d, n as nat),
        decreases 4 - n,
    {
        assert(d[n as int] == data@[n as int]@);
        if data[n].deadline_ticks > deadline {
            deadline = data[n].deadline_ticks;
        }
        n = n + 1;
    }
    let row0 = MuninnMediaAudioParityShardRecord {
        stream_id: copy_string(&first.stream_id),
        session_id: copy_string(&first.session_id),
        base_packet_id: first.packet_id,
        codec: copy_string(&first.codec),
        base_pts_ticks: first.pts_ticks,
        packet_duration_ticks: first.duration_ticks,
        timebase_num: first.timebase_num,
        timebase_den: first.timebase_den,
        deadline_ticks: deadline,
        data_shard_count: 4,
        parity_index: 0,
        parity_shard_count: 2,
        shard_payload_bytes: shard_len as u32,
        payload: p0,
    };
    let row1 = MuninnMediaAudioParityShardRecord {
        stream_id: copy_string(&first.stream_id),
        session_id: copy_string(&first.session_id),
        base_packet_id: first.packet_id,
        codec: copy_string(&first.codec),
        base_pts_ticks: first.pts_ticks,
        packet_duration_ticks: first.duration_ticks,
        timebase_num: first.timebase_num,
        timebase_den: first.timebase_den,
        deadline_ticks: deadline,
        data_shard_count: 4,
        parity_index: 1,
        parity_shard_count: 2,
        shard_payload_bytes: shard_len as u32,
        payload: p1,
    };
    proof {
        assert(row0@.payload =~= audio_parity_row(d, 0).payload);
        assert(row1@.payload =~= audio_parity_row(d, 1).payload);
    }
    let rows = [row0, row1];
    Ok(rows)
}

} // verus!
