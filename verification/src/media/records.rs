//! Checks and document keys of the media records that cross the wire.
use vstd::prelude::*;
use crate::documents::{
    AudioPacketView, AudioParityView, FeedbackView, MuninnMediaAudioParityShardRecord,
    MuninnMediaReceiverFeedbackRecord, MuninnMediaVideoParityShardRecord, VideoChunkView,
    VideoParityView, MUNINN_MEDIA_AUDIO_PACKET_SCHEMA, MUNINN_MEDIA_AUDIO_PARITY_SHARD_SCHEMA,
    MUNINN_MEDIA_RECEIVER_FEEDBACK_SCHEMA, MUNINN_MEDIA_VIDEO_ACCESS_UNIT_SCHEMA,
    MUNINN_MEDIA_VIDEO_PARITY_SHARD_SCHEMA,
};
use crate::media::audio::{audio_record_fault, validate_audio_record};
use crate::media::error::{AudioParityFault, MediaError, MediaField, RecordFault, RecordKind};
use crate::media::feedback::{normalize_video_chunk_feedback_keys, parse_keys};
use crate::media::video::{validate_video_record, video_record_fault};
use crate::media::wire::{MuninnMediaWireRecord, WireView};
use crate::text::{decimal, push_char, push_decimal, push_str, str_eq};

verus! {

/// Why a received video parity record is malformed, if it is.
pub open spec fn video_parity_record_fault(r: VideoParityView) -> Option<RecordFault> {
    if r.stream_id.len() == 0 {
        Some(RecordFault::EmptyStreamId)
    } else if r.session_id.len() == 0 {
        Some(RecordFault::EmptySessionId)
    } else if r.codec.len() == 0 {
        Some(RecordFault::EmptyCodec)
    } else if r.timebase_num == 0 || r.timebase_den == 0 {
        Some(RecordFault::ZeroTimebase)
    } else if r.duration_ticks == 0 {
        Some(RecordFault::ZeroDuration)
    } else if r.deadline_ticks < r.pts_ticks {
        Some(RecordFault::DeadlineBeforePts)
    } else if r.chunk_count == 0 {
        Some(RecordFault::ZeroChunkCount)
    } else if r.parity_count == 0 || r.parity_index >= r.parity_count {
        Some(RecordFault::InvalidParityStripe)
    } else if r.parity_count > r.chunk_count {
        Some(RecordFault::ParityCountExceedsChunkCount)
    } else if r.chunk_payload_bytes == 0 || r.last_chunk_payload_bytes == 0 {
        Some(RecordFault::ZeroChunkLengths)
    } else if r.last_chunk_payload_bytes > r.chunk_payload_bytes {
        Some(RecordFault::LastChunkTooLong)
    } else if r.payload.len() == 0 {
        Some(RecordFault::EmptyPayload)
    } else if r.payload.len() > r.chunk_payload_bytes {
        Some(RecordFault::PayloadExceedsChunkLength)
    } else {
        None
    }
}

/// Checks a video parity record before it is trusted.
pub fn validate_video_parity_record(record: &MuninnMediaVideoParityShardRecord) -> (r: Result<
    (),
    MediaError,
>)
    ensures
        match video_parity_record_fault(record@) {
            Some(f) => r == Err::<(), MediaError>(MediaError::InvalidRecord(RecordKind::VideoParity, f)),
            None => r is Ok,
        },
{
    let fault = if record.stream_id.as_str().is_empty() {
        Some(RecordFault::EmptyStreamId)
    } else if record.session_id.as_str().is_empty() {
        Some(RecordFault::EmptySessionId)
    } else if record.codec.as_str().is_empty() {
        Some(RecordFault::EmptyCodec)
    } else if record.timebase_num == 0 || record.timebase_den == 0 {
        Some(RecordFault::ZeroTimebase)
    } else if record.duration_ticks == 0 {
        Some(RecordFault::ZeroDuration)
    } else if record.deadline_ticks < record.pts_ticks {
        Some(RecordFault::DeadlineBeforePts)
    } else if record.chunk_count == 0 {
        Some(RecordFault::ZeroChunkCount)
    } else if record.parity_count == 0 || record.parity_index >= record.parity_count {
        Some(RecordFault::InvalidParityStripe)
    } else if record.parity_count > record.chunk_count {
        Some(RecordFault::ParityCountExceedsChunkCount)
    } else if record.chunk_payload_bytes == 0 || record.last_chunk_payload_bytes == 0 {
        Some(RecordFault::ZeroChunkLengths)
    } else if record.last_chunk_payload_bytes > record.chunk_payload_bytes {
        Some(RecordFault::LastChunkTooLong)
    } else if record.payload.len() == 0 {
        Some(RecordFault::EmptyPayload)
    } else if record.payload.len() as u64 > record.chunk_payload_bytes as u64 {
        Some(RecordFault::PayloadExceedsChunkLength)
    } else {
        None
    };
    match fault {
        Some(f) => Err(MediaError::InvalidRecord(RecordKind::VideoParity, f)),
        None => Ok(()),
    }
}

/// Why a received audio parity record is malformed, if it is.
pub open spec fn audio_parity_record_fault(r: AudioParityView) -> Option<AudioParityFault> {
    if r.stream_id.len() == 0 || r.session_id.len() == 0 || r.codec.len() == 0 {
        Some(AudioParityFault::Identity)
    } else if r.timebase_num == 0 || r.timebase_den == 0 || r.packet_duration_ticks == 0 {
        Some(AudioParityFault::Timing)
    } else if r.deadline_ticks < r.base_pts_ticks || r.data_shard_count != 4 || r.parity_shard_count
        != 2 || r.parity_index >= 2 {
        Some(AudioParityFault::Stripe)
    } else if r.shard_payload_bytes == 0 || r.payload.len() != r.shard_payload_bytes {
        Some(AudioParityFault::PayloadSize)
    } else {
        None
    }
}

/// Checks an audio parity record before it is trusted.
pub fn validate_audio_parity_record(record: &MuninnMediaAudioParityShardRecord) -> (r: Result<
    (),
    MediaError,
>)
    ensures
        match audio_parity_record_fault(record@) {
            Some(f) => r == Err::<(), MediaError>(MediaError::AudioParity(f)),
            None => r is Ok,
        },
{
    if record.stream_id.as_str().is_empty() || record.session_id.as_str().is_empty()
        || record.codec.as_str().is_empty() {
        return Err(MediaError::AudioParity(AudioParityFault::Identity));
    }
    if record.timebase_num == 0 || record.timebase_den == 0 || record.packet_duration_ticks == 0 {
        return Err(MediaError::AudioParity(AudioParityFault::Timing));
    }
    if record.deadline_ticks < record.base_pts_ticks || record.data_shard_count != 4
        || record.parity_shard_count != 2 || record.parity_index >= 2 {
        return Err(MediaError::AudioParity(AudioParityFault::Stripe));
    }
    if record.shard_payload_bytes == 0 || record.payload.len() as u64
        != record.shard_payload_bytes as u64 {
        return Err(MediaError::AudioParity(AudioParityFault::PayloadSize));
    }
    Ok(())
}

/// Why a received feedback record is malformed, if it is.
pub open spec fn feedback_record_error(r: FeedbackView) -> Option<MediaError> {
    let fault = if r.stream_id.len() == 0 {
        Some(RecordFault::EmptyStreamId)
    } else if r.session_id.len() == 0 {
        Some(RecordFault::EmptySessionId)
    } else if r.receiver_id.len() == 0 {
        Some(RecordFault::EmptyReceiverId)
    } else if r.observed_at.len() == 0 {
        Some(RecordFault::EmptyObservedAt)
    } else if r.jitter_us < 0 {
        Some(RecordFault::NegativeJitter)
    } else if r.decode_queue_us < 0 {
        Some(RecordFault::NegativeDecodeQueue)
    } else {
        None
    };
    match fault {
        Some(f) => Some(MediaError::InvalidRecord(RecordKind::Feedback, f)),
        None => match parse_keys(r.missing_video_chunk_keys, r.missing_video_chunk_keys.len()) {
            Err(e) => Some(e),
            Ok(_) => None,
        },
    }
}

/// Checks a receiver feedback record before it is trusted; its chunk keys
/// must all parse.
pub fn validate_feedback_record(record: &MuninnMediaReceiverFeedbackRecord) -> (r: Result<
    (),
    MediaError,
>)
    ensures
        match feedback_record_error(record@) {
            Some(e) => r == Err::<(), MediaError>(e),
            None => r is Ok,
        },
{
    let fault = if record.stream_id.as_str().is_empty() {
        Some(RecordFault::EmptyStreamId)
    } else if record.session_id.as_str().is_empty() {
        Some(RecordFault::EmptySessionId)
    } else if record.receiver_id.as_str().is_empty() {
        Some(RecordFault::EmptyReceiverId)
    } else if record.observed_at.as_str().is_empty() {
        Some(RecordFault::EmptyObservedAt)
    } else if record.jitter_us < 0 {
        Some(RecordFault::NegativeJitter)
    } else if record.decode_queue_us < 0 {
        Some(RecordFault::NegativeDecodeQueue)
    } else {
        None
    };
    if let Some(f) = fault {
        return Err(MediaError::InvalidRecord(RecordKind::Feedback, f));
    }
    match normalize_video_chunk_feedback_keys(&record.missing_video_chunk_keys) {
        Ok(_) => Ok(()),
        Err(e) => Err(e),
    }
}

/// `a:b:` followed by a record kind tag.
pub open spec fn key_prefix(stream_id: Seq<char>, session_id: Seq<char>, tag: Seq<char>) -> Seq<char> {
    stream_id + seq![':'] + session_id + seq![':'] + tag + seq![':']
}

pub open spec fn video_record_key_text(r: VideoChunkView) -> Seq<char> {
    key_prefix(r.stream_id, r.session_id, seq!['v', 'i', 'd', 'e', 'o']) + decimal(r.frame_id as nat)
        + seq![':'] + decimal(r.chunk_index as nat)
}

pub open spec fn video_parity_record_key_text(r: VideoParityView) -> Seq<char> {
    key_prefix(
        r.stream_id,
        r.session_id,
        seq!['v', 'i', 'd', 'e', 'o', '-', 'p', 'a', 'r', 'i', 't', 'y'],
    ) + decimal(r.frame_id as nat) + seq![':'] + decimal(r.parity_index as nat)
}

pub open spec fn audio_record_key_text(r: AudioPacketView) -> Seq<char> {
    key_prefix(r.stream_id, r.session_id, seq!['a', 'u', 'd', 'i', 'o']) + decimal(r.packet_id as nat)
}

pub open spec fn audio_parity_record_key_text(r: AudioParityView) -> Seq<char> {
    key_prefix(r.stream_id, r.session_id, seq!['a', 'u', 'd', 'i', 'o', '-', 'f', 'e', 'c'])
        + decimal(r.base_packet_id as nat) + seq![':'] + decimal(r.parity_index as nat)
}

pub open spec fn feedback_record_key_text(r: FeedbackView) -> Seq<char> {
    key_prefix(r.stream_id, r.session_id, seq!['f', 'e', 'e', 'd', 'b', 'a', 'c', 'k']) + r.receiver_id
}

/// The document key a wire record is stored under.
pub open spec fn wire_record_key_text(w: WireView) -> Seq<char> {
    match w {
        WireView::Video(r) => video_record_key_text(r),
        WireView::VideoParity(r) => video_parity_record_key_text(r),
        WireView::Audio(r) => audio_record_key_text(r),
        WireView::AudioParity(r) => audio_parity_record_key_text(r),
        WireView::Feedback(r) => feedback_record_key_text(r),
    }
}

pub open spec fn wire_record_kind(w: WireView) -> RecordKind {
    match w {
        WireView::Video(_) => RecordKind::Video,
        WireView::VideoParity(_) => RecordKind::VideoParity,
        WireView::Audio(_) => RecordKind::Audio,
        WireView::AudioParity(_) => RecordKind::AudioParity,
        WireView::Feedback(_) => RecordKind::Feedback,
    }
}

fn push_key_prefix(s: &mut String, stream_id: &String, session_id: &String, tag: &str)
    ensures
        final(s)@ == old(s)@ + key_prefix(stream_id@, session_id@, tag@),
{
    push_str(s, stream_id.as_str());
    push_char(s, ':');
    push_str(s, session_id.as_str());
    push_char(s, ':');
    push_str(s, tag);
    push_char(s, ':');
    assert(final(s)@ =~= old(s)@ + key_prefix(stream_id@, session_id@, tag@));
}

/// The document key of a wire record.
pub fn wire_record_key(record: &MuninnMediaWireRecord) -> (r: String)
    ensures
        r@ == wire_record_key_text(record@),
{
    let mut s = String::new();
    match record {
        MuninnMediaWireRecord::Video(r) => {
            let tag = "video";
            proof {
                reveal_strlit("video");
            }
            push_key_prefix(&mut s, &r.stream_id, &r.session_id, tag);
            push_decimal(&mut s, r.frame_id);
            push_char(&mut s, ':');
            push_decimal(&mut s, r.chunk_index as u64);
            assert(s@ =~= video_record_key_text(r@));
        },
        MuninnMediaWireRecord::VideoParity(r) => {
            let tag = "video-parity";
            proof {
                reveal_strlit("video-parity");
            }
            push_key_prefix(&mut s, &r.stream_id, &r.session_id, tag);
            push_decimal(&mut s, r.frame_id);
            push_char(&mut s, ':');
            push_decimal(&mut s, r.parity_index as u64);
            assert(s@ =~= video_parity_record_key_text(r@));
        },
        MuninnMediaWireRecord::Audio(r) => {
            let tag = "audio";
            proof {
                reveal_strlit("audio");
            }
            push_key_prefix(&mut s, &r.stream_id, &r.session_id, tag);
            push_decimal(&mut s, r.packet_id);
            assert(s@ =~= audio_record_key_text(r@));
        },
        MuninnMediaWireRecord::AudioParity(r) => {
            let tag = "audio-fec";
            proof {
                reveal_strlit("audio-fec");
            }
            push_key_prefix(&mut s, &r.stream_id, &r.session_id, tag);
            push_decimal(&mut s, r.base_packet_id);
            push_char(&mut s, ':');
            push_decimal(&mut s, r.parity_index as u64);
            assert(s@ =~= audio_parity_record_key_text(r@));
        },
        MuninnMediaWireRecord::Feedback(r) => {
            let tag = "feedback";
            proof {
                reveal_strlit("feedback");
            }
            push_key_prefix(&mut s, &r.stream_id, &r.session_id, tag);
            push_str(&mut s, r.receiver_id.as_str());
            assert(s@ =~= feedback_record_key_text(r@));
        },
    }
    s
}

/// The schema a wire record is published under.
pub open spec fn wire_schema_text(w: WireView) -> Seq<char> {
    match w {
        WireView::Video(_) => MUNINN_MEDIA_VIDEO_ACCESS_UNIT_SCHEMA@,
        WireView::VideoParity(_) => MUNINN_MEDIA_VIDEO_PARITY_SHARD_SCHEMA@,
        WireView::Audio(_) => MUNINN_MEDIA_AUDIO_PACKET_SCHEMA@,
        WireView::AudioParity(_) => MUNINN_MEDIA_AUDIO_PARITY_SHARD_SCHEMA@,
        WireView::Feedback(_) => MUNINN_MEDIA_RECEIVER_FEEDBACK_SCHEMA@,
    }
}

/// The schema of a wire record.
pub fn wire_record_schema(record: &MuninnMediaWireRecord) -> (r: &'static str)
    ensures
        r@ == wire_schema_text(record@),
{
    match record {
        MuninnMediaWireRecord::Video(_) => MUNINN_MEDIA_VIDEO_ACCESS_UNIT_SCHEMA,
        MuninnMediaWireRecord::VideoParity(_) => MUNINN_MEDIA_VIDEO_PARITY_SHARD_SCHEMA,
        MuninnMediaWireRecord::Audio(_) => MUNINN_MEDIA_AUDIO_PACKET_SCHEMA,
        MuninnMediaWireRecord::AudioParity(_) => MUNINN_MEDIA_AUDIO_PARITY_SHARD_SCHEMA,
        MuninnMediaWireRecord::Feedback(_) => MUNINN_MEDIA_RECEIVER_FEEDBACK_SCHEMA,
    }
}

/// Which record type a schema id names.
pub open spec fn schema_kind(schema: Seq<char>) -> Option<RecordKind> {
    if schema == MUNINN_MEDIA_VIDEO_ACCESS_UNIT_SCHEMA@ {
        Some(RecordKind::Video)
    } else if schema == MUNINN_MEDIA_VIDEO_PARITY_SHARD_SCHEMA@ {
        Some(RecordKind::VideoParity)
    } else if schema == MUNINN_MEDIA_AUDIO_PACKET_SCHEMA@ {
        Some(RecordKind::Audio)
    } else if schema == MUNINN_MEDIA_AUDIO_PARITY_SHARD_SCHEMA@ {
        Some(RecordKind::AudioParity)
    } else if schema == MUNINN_MEDIA_RECEIVER_FEEDBACK_SCHEMA@ {
        Some(RecordKind::Feedback)
    } else {
        None
    }
}

/// The record type a received schema id names; any other schema is refused.
pub fn media_schema_kind(schema_id: &str) -> (r: Result<RecordKind, MediaError>)
    ensures
        match schema_kind(schema_id@) {
            Some(k) => r == Ok::<RecordKind, MediaError>(k),
            None => r matches Err(MediaError::UnsupportedSchema(s)) && s@ == schema_id@,
        },
{
    if str_eq(schema_id, MUNINN_MEDIA_VIDEO_ACCESS_UNIT_SCHEMA) {
        Ok(RecordKind::Video)
    } else if str_eq(schema_id, MUNINN_MEDIA_VIDEO_PARITY_SHARD_SCHEMA) {
        Ok(RecordKind::VideoParity)
    } else if str_eq(schema_id, MUNINN_MEDIA_AUDIO_PACKET_SCHEMA) {
        Ok(RecordKind::Audio)
    } else if str_eq(schema_id, MUNINN_MEDIA_AUDIO_PARITY_SHARD_SCHEMA) {
        Ok(RecordKind::AudioParity)
    } else if str_eq(schema_id, MUNINN_MEDIA_RECEIVER_FEEDBACK_SCHEMA) {
        Ok(RecordKind::Feedback)
    } else {
        Err(MediaError::UnsupportedSchema(schema_id.to_string()))
    }
}

/// Why a decoded wire record is refused, before its key is compared.
pub open spec fn wire_record_error(w: WireView) -> Option<MediaError> {
    match w {
        WireView::Video(r) => match video_record_fault(r) {
            Some(f) => Some(MediaError::InvalidRecord(RecordKind::Video, f)),
            None => None,
        },
        WireView::VideoParity(r) => match video_parity_record_fault(r) {
            Some(f) => Some(MediaError::InvalidRecord(RecordKind::VideoParity, f)),
            None => None,
        },
        WireView::Audio(r) => match audio_record_fault(r) {
            Some(f) => Some(MediaError::InvalidRecord(RecordKind::Audio, f)),
            None => None,
        },
        WireView::AudioParity(r) => match audio_parity_record_fault(r) {
            Some(f) => Some(MediaError::AudioParity(f)),
            None => None,
        },
        WireView::Feedback(r) => feedback_record_error(r),
    }
}

/// Accepts a record decoded from a media document stored under
/// `record_key`: the record must be valid and its own key must match.
pub fn accept_wire_record(record_key: &str, record: MuninnMediaWireRecord) -> (r: Result<
    MuninnMediaWireRecord,
    MediaError,
>)
    ensures
        match wire_record_error(record@) {
            Some(e) => r == Err::<MuninnMediaWireRecord, MediaError>(e),
            None => if wire_record_key_text(record@) == record_key@ {
                r == Ok::<MuninnMediaWireRecord, MediaError>(record)
            } else {
                r matches Err(MediaError::WireKeyMismatch(kind, expected, received)) && kind
                    == wire_record_kind(record@) && expected@ == wire_record_key_text(record@)
                    && received@ == record_key@
            },
        },
{
    let checked = match &record {
        MuninnMediaWireRecord::Video(r) => validate_video_record(r),
        MuninnMediaWireRecord::VideoParity(r) => validate_video_parity_record(r),
        MuninnMediaWireRecord::Audio(r) => validate_audio_record(r),
        MuninnMediaWireRecord::AudioParity(r) => validate_audio_parity_record(r),
        MuninnMediaWireRecord::Feedback(r) => validate_feedback_record(r),
    };
    if let Err(e) = checked {
        return Err(e);
    }
    let kind = match &record {
        MuninnMediaWireRecord::Video(_) => RecordKind::Video,
        MuninnMediaWireRecord::VideoParity(_) => RecordKind::VideoParity,
        MuninnMediaWireRecord::Audio(_) => RecordKind::Audio,
        MuninnMediaWireRecord::AudioParity(_) => RecordKind::AudioParity,
        MuninnMediaWireRecord::Feedback(_) => RecordKind::Feedback,
    };
    let expected = wire_record_key(&record);
    if str_eq(expected.as_str(), record_key) {
        Ok(record)
    } else {
        Err(MediaError::WireKeyMismatch(kind, expected, record_key.to_string()))
    }
}

/// The document a media record is published as, apart from its encoded
/// payload.
pub struct MediaWireDocument {
    pub schema_id: &'static str,
    pub record_key: String,
    pub message_id: String,
}

/// `s` with every `:` turned into `-`.
pub open spec fn colons_to_dashes(s: Seq<char>) -> Seq<char> {
    Seq::new(s.len(), |i: int| if s[i] == ':' { '-' } else { s[i] })
}

/// Names the document a media record is published as; the publishing
/// identity must be complete and the record valid.
pub fn media_wire_document(
    record: &MuninnMediaWireRecord,
    stored_at: &str,
    source_runtime_id: &str,
    source_role: &str,
) -> (r: Result<MediaWireDocument, MediaError>)
    ensures
        if stored_at@.len() == 0 {
            r matches Err(MediaError::EmptyField(MediaField::StoredAt))
        } else if source_runtime_id@.len() == 0 {
            r matches Err(MediaError::EmptyField(MediaField::SourceRuntimeId))
        } else if source_role@.len() == 0 {
            r matches Err(MediaError::EmptyField(MediaField::SourceRole))
        } else if wire_record_error(record@) is Some {
            r == Err::<MediaWireDocument, MediaError>(wire_record_error(record@).unwrap())
        } else {
            r matches Ok(d) && d.schema_id@ == wire_schema_text(record@) && d.record_key@
                == wire_record_key_text(record@) && d.message_id@ == seq![
                'm',
                'u',
                'n',
                'i',
                'n',
                'n',
                '-',
                'm',
                'e',
                'd',
                'i',
                'a',
                ':',
            ] + wire_schema_text(record@) + seq![':'] + colons_to_dashes(
                wire_record_key_text(record@),
            )
        },
{
    if stored_at.is_empty() {
        return Err(MediaError::EmptyField(MediaField::StoredAt));
    }
    if source_runtime_id.is_empty() {
        return Err(MediaError::EmptyField(MediaField::SourceRuntimeId));
    }
    if source_role.is_empty() {
        return Err(MediaError::EmptyField(MediaField::SourceRole));
    }
    let checked = match record {
        MuninnMediaWireRecord::Video(r) => validate_video_record(r),
        MuninnMediaWireRecord::VideoParity(r) => validate_video_parity_record(r),
        MuninnMediaWireRecord::Audio(r) => validate_audio_record(r),
        MuninnMediaWireRecord::AudioParity(r) => validate_audio_parity_record(r),
        MuninnMediaWireRecord::Feedback(r) => validate_feedback_record(r),
    };
    if let Err(e) = checked {
        return Err(e);
    }
    let schema_id = wire_record_schema(record);
    let record_key = wire_record_key(record);
    let key_chars = crate::text::chars_of(record_key.as_str());
    let mut message_id = String::new();
    let prefix = "muninn-media:";
    proof {
        reveal_strlit("muninn-media:");
    }
    push_str(&mut message_id, prefix);
    push_str(&mut message_id, schema_id);
    push_char(&mut message_id, ':');
    let ghost base = message_id@;
    let mut i: usize = 0;
    while i < key_chars.len()
        invariant
            key_chars@ == record_key@,
            i <= key_chars@.len(),
            message_id@ == base + colons_to_dashes(record_key@).subrange(0, i as int),
        decreases key_chars@.len() - i,
    {
        let c = key_chars[i];
        if c == ':' {
            push_char(&mut message_id, '-');
        } else {
            push_char(&mut message_id, c);
        }
        i = i + 1;
        assert(message_id@ =~= base + colons_to_dashes(record_key@).subrange(0, i as int));
    }
    assert(colons_to_dashes(record_key@).subrange(0, i as int) =~= colons_to_dashes(record_key@));
    Ok(MediaWireDocument { schema_id, record_key, message_id })
}

} // verus!
