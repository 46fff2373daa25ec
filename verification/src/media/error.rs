//! Why a media operation refused its input.
use vstd::prelude::*;
use crate::text::{decimal, push_decimal, push_str};

verus! {

#[derive(Clone, Copy, Debug, PartialEq, Eq, Structural)]
pub enum CodecName {
    H264,
    H265,
}

#[derive(Clone, Copy, Debug, PartialEq, Eq, Structural)]
pub enum MediaField {
    StreamId,
    SessionId,
    Codec,
    StoredAt,
    SourceRuntimeId,
    SourceRole,
    ReceiverId,
    ObservedAt,
}

#[derive(Clone, Copy, Debug, PartialEq, Eq, Structural)]
pub enum MediaKind {
    Video,
    Audio,
}

#[derive(Clone, Copy, Debug, PartialEq, Eq, Structural)]
pub enum SenderKind {
    AnnexB,
    Adts,
    Pcm,
}

#[derive(Clone, Copy, Debug, PartialEq, Eq, Structural)]
pub enum Overflow {
    EmittedBytes,
    VideoDeadline,
    AudioDeadline,
    VideoFrameId,
    VideoPts,
    AudioPacketId,
    AudioPts,
    VideoFrameIndex,
    PcmBytesPerFrame,
    PcmBytesPerPacket,
    FecPacketId,
    FecPts,
    AdtsConsumed,
}

#[derive(Clone, Copy, Debug, PartialEq, Eq, Structural)]
pub enum AssemblyFault {
    ZeroChunkCount,
    IndexOutside(u16, u16),
    EmptyPayload,
    Duplicate(u16),
    MixedStreamId,
    MixedSessionId,
    MixedFrameId,
    MixedChunkCount,
    MixedMetadata,
}

#[derive(Clone, Copy, Debug, PartialEq, Eq, Structural)]
pub enum ReassemblyFault {
    NoChunks,
    ZeroChunkCount,
    MixedStreamId,
    MixedSessionId,
    MixedFrameId,
    MixedCodec,
    MixedTiming,
    MixedDependency,
    MixedChunkCount,
    IndexOutside(u16, u16),
    EmptyPayload,
    Duplicate(u16),
    Missing(u16, usize),
}

#[derive(Clone, Copy, Debug, PartialEq, Eq, Structural)]
pub enum ParityFault {
    MissingChunks(u16, usize),
    Mixed,
    Duplicate(u16),
    LastLengthExceedsU32,
    LengthExceedsU32,
}

#[derive(Clone, Copy, Debug, PartialEq, Eq, Structural)]
pub enum RecordKind {
    Video,
    VideoParity,
    Audio,
    AudioParity,
    Feedback,
}

#[derive(Clone, Copy, Debug, PartialEq, Eq, Structural)]
pub enum RecordFault {
    EmptyStreamId,
    EmptySessionId,
    EmptyCodec,
    ZeroTimebase,
    ZeroDuration,
    DeadlineBeforePts,
    ZeroChunkCount,
    ChunkIndexOutside(u16, u16),
    EmptyPayload,
    InvalidParityStripe,
    ParityCountExceedsChunkCount,
    ZeroChunkLengths,
    LastChunkTooLong,
    PayloadExceedsChunkLength,
    EmptyReceiverId,
    EmptyObservedAt,
    NegativeJitter,
    NegativeDecodeQueue,
}

#[derive(Clone, Copy, Debug, PartialEq, Eq, Structural)]
pub enum FecFault {
    DataShardCount,
    MixedData,
    NoShards,
    ShardSize,
    TooManyMissing,
    InsufficientParity,
}

#[derive(Clone, Copy, Debug, PartialEq, Eq, Structural)]
pub enum AudioParityFault {
    Identity,
    Timing,
    Stripe,
    PayloadSize,
}

#[derive(Clone, Copy, Debug, PartialEq, Eq, Structural)]
pub enum BufferFault {
    EmptyPayload,
    Duplicate(u64),
    Stale(u64, u64),
    EmptyStreamId,
    EmptySessionId,
    EmptyCodec,
    ZeroTimebase,
    MixedStream,
}

/// A refusal of the media layer. `message` renders the text a caller logs.
#[derive(Clone, Debug, PartialEq, Eq)]
pub enum MediaError {
    UnsupportedAnnexBCodec(String),
    Av1NotAnnexB,
    NoStartCodes(CodecName),
    NoNalPayloads(CodecName),
    AnnexBSenderCodec,
    AdtsSenderCodec,
    EmptyField(MediaField),
    ZeroTimebase(MediaKind),
    ZeroDuration(MediaKind),
    DeadlineBeforePts(MediaKind),
    ZeroFrameDuration,
    ZeroPacketDuration,
    NegativeDeadlineDelay,
    ZeroMaxPayload,
    ZeroMaxPending,
    ZeroChannels,
    ZeroBytesPerSample,
    ZeroBytesPerPacket,
    PendingExceeded(SenderKind, usize),
    TrailingBytes(SenderKind, usize),
    ArithmeticOverflow(Overflow),
    EmptyAccessUnit,
    EmptyAudioPayload,
    TooManyChunks,
    ChunkKeySeparator,
    ChunkKeyFrameId,
    ChunkKeyChunkIndex,
    Assembly(AssemblyFault),
    Reassembly(ReassemblyFault),
    Parity(ParityFault),
    InvalidRecord(RecordKind, RecordFault),
    AudioFec(FecFault),
    AudioParity(AudioParityFault),
    Buffer(BufferFault),
    NegativeJitter,
    NegativeDecodeQueue,
    ExpiredMixedStreams,
    AdtsSync,
    AdtsShortFrame(usize, usize),
    ExpectedRawDocument,
    PayloadNotMessagePack,
    UnsupportedSchema(String),
    WireKeyMismatch(RecordKind, String, String),
}

fn push_u64(s: &mut String, n: u64)
    ensures
        final(s)@ == old(s)@ + decimal(n as nat),
{
    push_decimal(s, n);
}

pub open spec fn field_text(field: MediaField) -> Seq<char> {
    match field {
        MediaField::StreamId => "stream_id"@,
        MediaField::SessionId => "session_id"@,
        MediaField::Codec => "codec"@,
        MediaField::StoredAt => "stored_at"@,
        MediaField::SourceRuntimeId => "source_runtime_id"@,
        MediaField::SourceRole => "source_role"@,
        MediaField::ReceiverId => "receiver_id"@,
        MediaField::ObservedAt => "observed_at"@,
    }
}

fn field_name(field: MediaField) -> (r: &'static str)
    ensures
        r@ == field_text(field),
{
    match field {
        MediaField::StreamId => "stream_id",
        MediaField::SessionId => "session_id",
        MediaField::Codec => "codec",
        MediaField::StoredAt => "stored_at",
        MediaField::SourceRuntimeId => "source_runtime_id",
        MediaField::SourceRole => "source_role",
        MediaField::ReceiverId => "receiver_id",
        MediaField::ObservedAt => "observed_at",
    }
}

pub open spec fn kind_text(kind: MediaKind) -> Seq<char> {
    match kind {
        MediaKind::Video => "video"@,
        MediaKind::Audio => "audio"@,
    }
}

fn kind_name(kind: MediaKind) -> (r: &'static str)
    ensures
        r@ == kind_text(kind),
{
    match kind {
        MediaKind::Video => "video",
        MediaKind::Audio => "audio",
    }
}

pub open spec fn sender_text(kind: SenderKind) -> Seq<char> {
    match kind {
        SenderKind::AnnexB => "Annex B"@,
        SenderKind::Adts => "ADTS"@,
        SenderKind::Pcm => "PCM"@,
    }
}

fn sender_name(kind: SenderKind) -> (r: &'static str)
    ensures
        r@ == sender_text(kind),
{
    match kind {
        SenderKind::AnnexB => "Annex B",
        SenderKind::Adts => "ADTS",
        SenderKind::Pcm => "PCM",
    }
}

pub open spec fn overflow_message(o: Overflow) -> Seq<char> {
    match o {
        Overflow::EmittedBytes => "emitted Annex B byte count overflow"@,
        Overflow::VideoDeadline => "video deadline_ticks overflow"@,
        Overflow::AudioDeadline => "audio deadline_ticks overflow"@,
        Overflow::VideoFrameId => "video frame_id overflow"@,
        Overflow::VideoPts => "video pts_ticks overflow"@,
        Overflow::AudioPacketId => "audio packet_id overflow"@,
        Overflow::AudioPts => "audio pts_ticks overflow"@,
        Overflow::VideoFrameIndex => "video frame index overflow"@,
        Overflow::PcmBytesPerFrame => "PCM stream sender bytes_per_frame overflow"@,
        Overflow::PcmBytesPerPacket => "PCM stream sender bytes_per_packet overflow"@,
        Overflow::FecPacketId => "audio FEC packet_id overflow"@,
        Overflow::FecPts => "audio FEC pts overflow"@,
        Overflow::AdtsConsumed => "ADTS consumed byte count overflow"@,
    }
}

fn overflow_text(o: Overflow) -> (r: &'static str)
    ensures
        r@ == overflow_message(o),
{
    match o {
        Overflow::EmittedBytes => "emitted Annex B byte count overflow",
        Overflow::VideoDeadline => "video deadline_ticks overflow",
        Overflow::AudioDeadline => "audio deadline_ticks overflow",
        Overflow::VideoFrameId => "video frame_id overflow",
        Overflow::VideoPts => "video pts_ticks overflow",
        Overflow::AudioPacketId => "audio packet_id overflow",
        Overflow::AudioPts => "audio pts_ticks overflow",
        Overflow::VideoFrameIndex => "video frame index overflow",
        Overflow::PcmBytesPerFrame => "PCM stream sender bytes_per_frame overflow",
        Overflow::PcmBytesPerPacket => "PCM stream sender bytes_per_packet overflow",
        Overflow::FecPacketId => "audio FEC packet_id overflow",
        Overflow::FecPts => "audio FEC pts overflow",
        Overflow::AdtsConsumed => "ADTS consumed byte count overflow",
    }
}

pub open spec fn record_prefix_text(kind: RecordKind) -> Seq<char> {
    match kind {
        RecordKind::Video => "video media record "@,
        RecordKind::VideoParity => "video parity media record "@,
        RecordKind::Audio => "audio media record "@,
        RecordKind::AudioParity => "audio parity media record "@,
        RecordKind::Feedback => "receiver feedback media record "@,
    }
}

fn record_prefix(kind: RecordKind) -> (r: &'static str)
    ensures
        r@ == record_prefix_text(kind),
{
    match kind {
        RecordKind::Video => "video media record ",
        RecordKind::VideoParity => "video parity media record ",
        RecordKind::Audio => "audio media record ",
        RecordKind::AudioParity => "audio parity media record ",
        RecordKind::Feedback => "receiver feedback media record ",
    }
}

/// "chunk_index I is outside chunk_count C".
pub open spec fn index_outside_text(index: u16, count: u16) -> Seq<char> {
    "chunk_index "@ + decimal(index as nat) + " is outside chunk_count "@ + decimal(count as nat)
}

fn push_index_outside(s: &mut String, index: u16, count: u16)
    ensures
        final(s)@ == old(s)@ + index_outside_text(index, count),
{
    push_str(s, "chunk_index ");
    push_u64(s, index as u64);
    push_str(s, " is outside chunk_count ");
    push_u64(s, count as u64);
    assert(final(s)@ =~= old(s)@ + index_outside_text(index, count));
}

pub open spec fn record_fault_text(fault: RecordFault) -> Seq<char> {
    match fault {
        RecordFault::EmptyStreamId => "stream_id must be non-empty"@,
        RecordFault::EmptySessionId => "session_id must be non-empty"@,
        RecordFault::EmptyCodec => "codec must be non-empty"@,
        RecordFault::ZeroTimebase => "timebase must be non-zero"@,
        RecordFault::ZeroDuration => "duration_ticks must be greater than zero"@,
        RecordFault::DeadlineBeforePts => "deadline_ticks must not precede pts_ticks"@,
        RecordFault::ZeroChunkCount => "chunk_count must be non-zero"@,
        RecordFault::ChunkIndexOutside(index, count) => index_outside_text(index, count),
        RecordFault::EmptyPayload => "payload must be non-empty"@,
        RecordFault::InvalidParityStripe => "has invalid parity stripe metadata"@,
        RecordFault::ParityCountExceedsChunkCount => "parity_count exceeds chunk_count"@,
        RecordFault::ZeroChunkLengths => "chunk lengths must be non-zero"@,
        RecordFault::LastChunkTooLong => "last chunk length exceeds regular chunk length"@,
        RecordFault::PayloadExceedsChunkLength => "payload exceeds declared chunk length"@,
        RecordFault::EmptyReceiverId => "receiver_id must be non-empty"@,
        RecordFault::EmptyObservedAt => "observed_at must be non-empty"@,
        RecordFault::NegativeJitter => "jitter_us must be non-negative"@,
        RecordFault::NegativeDecodeQueue => "decode_queue_us must be non-negative"@,
    }
}

fn push_record_fault(s: &mut String, fault: RecordFault)
    ensures
        final(s)@ == old(s)@ + record_fault_text(fault),
{
    match fault {
        RecordFault::EmptyStreamId => push_str(s, "stream_id must be non-empty"),
        RecordFault::EmptySessionId => push_str(s, "session_id must be non-empty"),
        RecordFault::EmptyCodec => push_str(s, "codec must be non-empty"),
        RecordFault::ZeroTimebase => push_str(s, "timebase must be non-zero"),
        RecordFault::ZeroDuration => push_str(s, "duration_ticks must be greater than zero"),
        RecordFault::DeadlineBeforePts => push_str(s, "deadline_ticks must not precede pts_ticks"),
        RecordFault::ZeroChunkCount => push_str(s, "chunk_count must be non-zero"),
        RecordFault::ChunkIndexOutside(index, count) => push_index_outside(s, index, count),
        RecordFault::EmptyPayload => push_str(s, "payload must be non-empty"),
        RecordFault::InvalidParityStripe => push_str(s, "has invalid parity stripe metadata"),
        RecordFault::ParityCountExceedsChunkCount => push_str(s, "parity_count exceeds chunk_count"),
        RecordFault::ZeroChunkLengths => push_str(s, "chunk lengths must be non-zero"),
        RecordFault::LastChunkTooLong => push_str(
            s,
            "last chunk length exceeds regular chunk length",
        ),
        RecordFault::PayloadExceedsChunkLength => push_str(
            s,
            "payload exceeds declared chunk length",
        ),
        RecordFault::EmptyReceiverId => push_str(s, "receiver_id must be non-empty"),
        RecordFault::EmptyObservedAt => push_str(s, "observed_at must be non-empty"),
        RecordFault::NegativeJitter => push_str(s, "jitter_us must be non-negative"),
        RecordFault::NegativeDecodeQueue => push_str(s, "decode_queue_us must be non-negative"),
    }
}

pub open spec fn assembly_fault_text(fault: AssemblyFault) -> Seq<char> {
    "video frame assembly "@ + match fault {
        AssemblyFault::ZeroChunkCount => "chunk_count must be non-zero"@,
        AssemblyFault::IndexOutside(index, count) => index_outside_text(index, count),
        AssemblyFault::EmptyPayload => "chunk payload must be non-empty"@,
        AssemblyFault::Duplicate(index) => "has duplicate chunk_index "@ + decimal(index as nat),
        AssemblyFault::MixedStreamId => "received mixed stream_id"@,
        AssemblyFault::MixedSessionId => "received mixed session_id"@,
        AssemblyFault::MixedFrameId => "received mixed frame_id"@,
        AssemblyFault::MixedChunkCount => "received mixed chunk_count"@,
        AssemblyFault::MixedMetadata => "received mixed media metadata"@,
    }
}

fn push_assembly_fault(s: &mut String, fault: AssemblyFault)
    ensures
        final(s)@ == old(s)@ + assembly_fault_text(fault),
{
    push_str(s, "video frame assembly ");
    let ghost mid = s@;
    match fault {
        AssemblyFault::ZeroChunkCount => push_str(s, "chunk_count must be non-zero"),
        AssemblyFault::IndexOutside(index, count) => push_index_outside(s, index, count),
        AssemblyFault::EmptyPayload => push_str(s, "chunk payload must be non-empty"),
        AssemblyFault::Duplicate(index) => {
            push_str(s, "has duplicate chunk_index ");
            push_u64(s, index as u64);
            assert(s@ =~= mid + ("has duplicate chunk_index "@ + decimal(index as nat)));
        },
        AssemblyFault::MixedStreamId => push_str(s, "received mixed stream_id"),
        AssemblyFault::MixedSessionId => push_str(s, "received mixed session_id"),
        AssemblyFault::MixedFrameId => push_str(s, "received mixed frame_id"),
        AssemblyFault::MixedChunkCount => push_str(s, "received mixed chunk_count"),
        AssemblyFault::MixedMetadata => push_str(s, "received mixed media metadata"),
    }
    assert(s@ =~= old(s)@ + assembly_fault_text(fault));
}

pub open spec fn reassembly_fault_text(fault: ReassemblyFault) -> Seq<char> {
    "video access unit "@ + match fault {
        ReassemblyFault::NoChunks => "requires at least one chunk"@,
        ReassemblyFault::ZeroChunkCount => "chunk_count must be non-zero"@,
        ReassemblyFault::MixedStreamId => "chunks have mixed stream_id values"@,
        ReassemblyFault::MixedSessionId => "chunks have mixed session_id values"@,
        ReassemblyFault::MixedFrameId => "chunks have mixed frame_id values"@,
        ReassemblyFault::MixedCodec => "chunks have mixed codec values"@,
        ReassemblyFault::MixedTiming => "chunks have mixed timing values"@,
        ReassemblyFault::MixedDependency => "chunks have mixed dependency values"@,
        ReassemblyFault::MixedChunkCount => "chunks have mixed chunk_count values"@,
        ReassemblyFault::IndexOutside(index, count) => index_outside_text(index, count),
        ReassemblyFault::EmptyPayload => "chunk payload must be non-empty"@,
        ReassemblyFault::Duplicate(index) => "has duplicate chunk_index "@ + decimal(index as nat),
        ReassemblyFault::Missing(expected, received) => "is missing chunks: expected "@ + decimal(
            expected as nat,
        ) + ", received "@ + decimal(received as nat),
    }
}

fn push_reassembly_fault(s: &mut String, fault: ReassemblyFault)
    ensures
        final(s)@ == old(s)@ + reassembly_fault_text(fault),
{
    push_str(s, "video access unit ");
    let ghost mid = s@;
    match fault {
        ReassemblyFault::NoChunks => push_str(s, "requires at least one chunk"),
        ReassemblyFault::ZeroChunkCount => push_str(s, "chunk_count must be non-zero"),
        ReassemblyFault::MixedStreamId => push_str(s, "chunks have mixed stream_id values"),
        ReassemblyFault::MixedSessionId => push_str(s, "chunks have mixed session_id values"),
        ReassemblyFault::MixedFrameId => push_str(s, "chunks have mixed frame_id values"),
        ReassemblyFault::MixedCodec => push_str(s, "chunks have mixed codec values"),
        ReassemblyFault::MixedTiming => push_str(s, "chunks have mixed timing values"),
        ReassemblyFault::MixedDependency => push_str(s, "chunks have mixed dependency values"),
        ReassemblyFault::MixedChunkCount => push_str(s, "chunks have mixed chunk_count values"),
        ReassemblyFault::IndexOutside(index, count) => push_index_outside(s, index, count),
        ReassemblyFault::EmptyPayload => push_str(s, "chunk payload must be non-empty"),
        ReassemblyFault::Duplicate(index) => {
            push_str(s, "has duplicate chunk_index ");
            push_u64(s, index as u64);
            assert(s@ =~= mid + ("has duplicate chunk_index "@ + decimal(index as nat)));
        },
        ReassemblyFault::Missing(expected, received) => {
            push_str(s, "is missing chunks: expected ");
            push_u64(s, expected as u64);
            push_str(s, ", received ");
            push_u64(s, received as u64);
            assert(s@ =~= mid + ("is missing chunks: expected "@ + decimal(expected as nat)
                + ", received "@ + decimal(received as nat)));
        },
    }
    assert(s@ =~= old(s)@ + reassembly_fault_text(fault));
}

pub open spec fn buffer_fault_text(fault: BufferFault) -> Seq<char> {
    "audio packet buffer "@ + match fault {
        BufferFault::EmptyPayload => "payload must be non-empty"@,
        BufferFault::Duplicate(id) => "has duplicate packet_id "@ + decimal(id as nat),
        BufferFault::Stale(id, next) => "received stale packet_id "@ + decimal(id as nat)
            + " before next expected "@ + decimal(next as nat),
        BufferFault::EmptyStreamId => "stream_id must be non-empty"@,
        BufferFault::EmptySessionId => "session_id must be non-empty"@,
        BufferFault::EmptyCodec => "codec must be non-empty"@,
        BufferFault::ZeroTimebase => "timebase must be non-zero"@,
        BufferFault::MixedStream => "received mixed stream metadata"@,
    }
}

fn push_buffer_fault(s: &mut String, fault: BufferFault)
    ensures
        final(s)@ == old(s)@ + buffer_fault_text(fault),
{
    push_str(s, "audio packet buffer ");
    let ghost mid = s@;
    match fault {
        BufferFault::EmptyPayload => push_str(s, "payload must be non-empty"),
        BufferFault::Duplicate(id) => {
            push_str(s, "has duplicate packet_id ");
            push_u64(s, id);
            assert(s@ =~= mid + ("has duplicate packet_id "@ + decimal(id as nat)));
        },
        BufferFault::Stale(id, next) => {
            push_str(s, "received stale packet_id ");
            push_u64(s, id);
            push_str(s, " before next expected ");
            push_u64(s, next);
            assert(s@ =~= mid + ("received stale packet_id "@ + decimal(id as nat)
                + " before next expected "@ + decimal(next as nat)));
        },
        BufferFault::EmptyStreamId => push_str(s, "stream_id must be non-empty"),
        BufferFault::EmptySessionId => push_str(s, "session_id must be non-empty"),
        BufferFault::EmptyCodec => push_str(s, "codec must be non-empty"),
        BufferFault::ZeroTimebase => push_str(s, "timebase must be non-zero"),
        BufferFault::MixedStream => push_str(s, "received mixed stream metadata"),
    }
    assert(s@ =~= old(s)@ + buffer_fault_text(fault));
}

pub open spec fn codec_text(c: CodecName) -> Seq<char> {
    match c {
        CodecName::H264 => "H.264"@,
        CodecName::H265 => "H.265"@,
    }
}

pub open spec fn parity_fault_text(fault: ParityFault) -> Seq<char> {
    match fault {
        ParityFault::MissingChunks(expected, received) => "video parity requires all chunks: expected "@
            + decimal(expected as nat) + ", received "@ + decimal(received as nat),
        ParityFault::Mixed => "video parity chunks have mixed metadata"@,
        ParityFault::Duplicate(index) => "video parity received duplicate chunk_index "@ + decimal(
            index as nat,
        ),
        ParityFault::LastLengthExceedsU32 => "video parity last chunk payload length exceeds u32"@,
        ParityFault::LengthExceedsU32 => "video parity chunk payload length exceeds u32"@,
    }
}

pub open spec fn fec_fault_text(fault: FecFault) -> Seq<char> {
    match fault {
        FecFault::DataShardCount => "audio FEC requires exactly 4 data shards"@,
        FecFault::MixedData => "audio FEC data shards have mixed or non-contiguous metadata"@,
        FecFault::NoShards => "audio FEC has no shards"@,
        FecFault::ShardSize => "audio FEC shards must have one non-zero constant size"@,
        FecFault::TooManyMissing => "audio FEC cannot recover more than two data shards"@,
        FecFault::InsufficientParity => "audio FEC has insufficient parity"@,
    }
}

pub open spec fn audio_parity_fault_text(fault: AudioParityFault) -> Seq<char> {
    match fault {
        AudioParityFault::Identity => "audio parity identity metadata must be non-empty"@,
        AudioParityFault::Timing => "audio parity timing metadata must be non-zero"@,
        AudioParityFault::Stripe => "audio parity stripe metadata is invalid"@,
        AudioParityFault::PayloadSize => "audio parity payload does not match declared shard size"@,
    }
}

pub open spec fn record_kind_text(kind: RecordKind) -> Seq<char> {
    match kind {
        RecordKind::Video => "Muninn video media record"@,
        RecordKind::VideoParity => "Muninn video parity media record"@,
        RecordKind::Audio => "Muninn audio media record"@,
        RecordKind::AudioParity => "Muninn audio parity record"@,
        RecordKind::Feedback => "Muninn receiver feedback record"@,
    }
}

/// The text a caller logs for a refusal.
pub open spec fn media_error_text(e: MediaError) -> Seq<char> {
    match e {
        MediaError::UnsupportedAnnexBCodec(codec) => "unsupported Annex B video codec "@ + codec@,
        MediaError::Av1NotAnnexB => "AV1 access unit splitting is not Annex B; provide an AV1 OBU packetizer"@,
        MediaError::NoStartCodes(codec) => codec_text(codec) + " Annex B stream has no start codes"@,
        MediaError::NoNalPayloads(codec) => codec_text(codec) + " Annex B stream has no NAL payloads"@,
        MediaError::AnnexBSenderCodec => "Annex B stream sender requires H.264/AVC or H.265/HEVC codec"@,
        MediaError::AdtsSenderCodec => "ADTS stream sender requires AAC/ADTS codec"@,
        MediaError::EmptyField(field) => field_text(field) + " must be non-empty"@,
        MediaError::ZeroTimebase(kind) => kind_text(kind) + " timebase must be non-zero"@,
        MediaError::ZeroDuration(kind) => kind_text(kind) + " duration_ticks must be greater than zero"@,
        MediaError::DeadlineBeforePts(kind) => kind_text(kind)
            + " deadline_ticks must not precede pts_ticks"@,
        MediaError::ZeroFrameDuration => "frame_duration_ticks must be greater than zero"@,
        MediaError::ZeroPacketDuration => "packet_duration_ticks must be greater than zero"@,
        MediaError::NegativeDeadlineDelay => "deadline_delay_ticks must be non-negative"@,
        MediaError::ZeroMaxPayload => "max_payload_bytes must be greater than zero"@,
        MediaError::ZeroMaxPending => "max_pending_bytes must be greater than zero"@,
        MediaError::ZeroChannels => "audio channels must be non-zero"@,
        MediaError::ZeroBytesPerSample => "audio bytes_per_sample must be non-zero"@,
        MediaError::ZeroBytesPerPacket => "PCM stream sender bytes_per_packet must be non-zero"@,
        MediaError::PendingExceeded(kind, limit) => sender_text(kind)
            + " stream sender pending buffer exceeded "@ + decimal(limit as nat) + match kind {
            SenderKind::AnnexB => " bytes without a complete frame"@,
            _ => " bytes without a complete packet"@,
        },
        MediaError::TrailingBytes(kind, count) => sender_text(kind) + " stream sender finished with "@
            + decimal(count as nat) + " trailing bytes"@,
        MediaError::ArithmeticOverflow(o) => overflow_message(o),
        MediaError::EmptyAccessUnit => "access unit payload must be non-empty"@,
        MediaError::EmptyAudioPayload => "audio packet payload must be non-empty"@,
        MediaError::TooManyChunks => "video access unit requires more than 65535 chunks"@,
        MediaError::ChunkKeySeparator => "video chunk key must contain exactly one ':' separator"@,
        MediaError::ChunkKeyFrameId => "video chunk key frame_id must be an integer"@,
        MediaError::ChunkKeyChunkIndex => "video chunk key chunk_index must be an integer"@,
        MediaError::Assembly(fault) => assembly_fault_text(fault),
        MediaError::Reassembly(fault) => reassembly_fault_text(fault),
        MediaError::Parity(fault) => parity_fault_text(fault),
        MediaError::InvalidRecord(kind, fault) => record_prefix_text(kind) + record_fault_text(fault),
        MediaError::AudioFec(fault) => fec_fault_text(fault),
        MediaError::AudioParity(fault) => audio_parity_fault_text(fault),
        MediaError::Buffer(fault) => buffer_fault_text(fault),
        MediaError::NegativeJitter => "jitter_us must be non-negative"@,
        MediaError::NegativeDecodeQueue => "decode_queue_us must be non-negative"@,
        MediaError::ExpiredMixedStreams => "expired video frame feedback requires one stream_id/session_id"@,
        MediaError::AdtsSync => "ADTS frame must start with sync word"@,
        MediaError::AdtsShortFrame(frame_len, header_len) => "ADTS frame length "@ + decimal(
            frame_len as nat,
        ) + " is shorter than header length "@ + decimal(header_len as nat),
        MediaError::ExpectedRawDocument => "expected cultnet.document_put_raw.v0"@,
        MediaError::PayloadNotMessagePack => "Muninn media document payload must be MessagePack"@,
        MediaError::UnsupportedSchema(schema) => "unsupported Muninn media schema "@ + schema@,
        MediaError::WireKeyMismatch(kind, expected, received) => record_kind_text(kind)
            + " key mismatch: expected "@ + expected@ + ", received "@ + received@,
    }
}

impl MediaError {
    /// The human-readable text of this refusal.
    pub fn message(&self) -> (r: String)
        ensures
            r@ == media_error_text(*self),
    {
        let mut s = String::new();
        match self {
            MediaError::UnsupportedAnnexBCodec(codec) => {
                push_str(&mut s, "unsupported Annex B video codec ");
                push_str(&mut s, codec.as_str());
            },
            MediaError::Av1NotAnnexB => push_str(
                &mut s,
                "AV1 access unit splitting is not Annex B; provide an AV1 OBU packetizer",
            ),
            MediaError::NoStartCodes(codec) => {
                push_str(
                    &mut s,
                    match codec {
                        CodecName::H264 => "H.264",
                        CodecName::H265 => "H.265",
                    },
                );
                push_str(&mut s, " Annex B stream has no start codes");
            },
            MediaError::NoNalPayloads(codec) => {
                push_str(
                    &mut s,
                    match codec {
                        CodecName::H264 => "H.264",
                        CodecName::H265 => "H.265",
                    },
                );
                push_str(&mut s, " Annex B stream has no NAL payloads");
            },
            MediaError::AnnexBSenderCodec => push_str(
                &mut s,
                "Annex B stream sender requires H.264/AVC or H.265/HEVC codec",
            ),
            MediaError::AdtsSenderCodec => push_str(
                &mut s,
                "ADTS stream sender requires AAC/ADTS codec",
            ),
            MediaError::EmptyField(field) => {
                push_str(&mut s, field_name(*field));
                push_str(&mut s, " must be non-empty");
            },
            MediaError::ZeroTimebase(kind) => {
                push_str(&mut s, kind_name(*kind));
                push_str(&mut s, " timebase must be non-zero");
            },
            MediaError::ZeroDuration(kind) => {
                push_str(&mut s, kind_name(*kind));
                push_str(&mut s, " duration_ticks must be greater than zero");
            },
            MediaError::DeadlineBeforePts(kind) => {
                push_str(&mut s, kind_name(*kind));
                push_str(&mut s, " deadline_ticks must not precede pts_ticks");
            },
            MediaError::ZeroFrameDuration => push_str(
                &mut s,
                "frame_duration_ticks must be greater than zero",
            ),
            MediaError::ZeroPacketDuration => push_str(
                &mut s,
                "packet_duration_ticks must be greater than zero",
            ),
            MediaError::NegativeDeadlineDelay => push_str(
                &mut s,
                "deadline_delay_ticks must be non-negative",
            ),
            MediaError::ZeroMaxPayload => push_str(
                &mut s,
                "max_payload_bytes must be greater than zero",
            ),
            MediaError::ZeroMaxPending => push_str(
                &mut s,
                "max_pending_bytes must be greater than zero",
            ),
            MediaError::ZeroChannels => push_str(&mut s, "audio channels must be non-zero"),
            MediaError::ZeroBytesPerSample => push_str(
                &mut s,
                "audio bytes_per_sample must be non-zero",
            ),
            MediaError::ZeroBytesPerPacket => push_str(
                &mut s,
                "PCM stream sender bytes_per_packet must be non-zero",
            ),
            MediaError::PendingExceeded(kind, limit) => {
                push_str(&mut s, sender_name(*kind));
                push_str(&mut s, " stream sender pending buffer exceeded ");
                push_u64(&mut s, *limit as u64);
                match kind {
                    SenderKind::AnnexB => push_str(&mut s, " bytes without a complete frame"),
                    _ => push_str(&mut s, " bytes without a complete packet"),
                }
            },
            MediaError::TrailingBytes(kind, count) => {
                push_str(&mut s, sender_name(*kind));
                push_str(&mut s, " stream sender finished with ");
                push_u64(&mut s, *count as u64);
                push_str(&mut s, " trailing bytes");
            },
            MediaError::ArithmeticOverflow(o) => push_str(&mut s, overflow_text(*o)),
            MediaError::EmptyAccessUnit => push_str(&mut s, "access unit payload must be non-empty"),
            MediaError::EmptyAudioPayload => push_str(
                &mut s,
                "audio packet payload must be non-empty",
            ),
            MediaError::TooManyChunks => push_str(
                &mut s,
                "video access unit requires more than 65535 chunks",
            ),
            MediaError::ChunkKeySeparator => push_str(
                &mut s,
                "video chunk key must contain exactly one ':' separator",
            ),
            MediaError::ChunkKeyFrameId => push_str(
                &mut s,
                "video chunk key frame_id must be an integer",
            ),
            MediaError::ChunkKeyChunkIndex => push_str(
                &mut s,
                "video chunk key chunk_index must be an integer",
            ),
            MediaError::Assembly(fault) => push_assembly_fault(&mut s, *fault),
            MediaError::Reassembly(fault) => push_reassembly_fault(&mut s, *fault),
            MediaError::Parity(fault) => match fault {
                ParityFault::MissingChunks(expected, received) => {
                    push_str(&mut s, "video parity requires all chunks: expected ");
                    push_u64(&mut s, *expected as u64);
                    push_str(&mut s, ", received ");
                    push_u64(&mut s, *received as u64);
                },
                ParityFault::Mixed => push_str(&mut s, "video parity chunks have mixed metadata"),
                ParityFault::Duplicate(index) => {
                    push_str(&mut s, "video parity received duplicate chunk_index ");
                    push_u64(&mut s, *index as u64);
                },
                ParityFault::LastLengthExceedsU32 => push_str(
                    &mut s,
                    "video parity last chunk payload length exceeds u32",
                ),
                ParityFault::LengthExceedsU32 => push_str(
                    &mut s,
                    "video parity chunk payload length exceeds u32",
                ),
            },
            MediaError::InvalidRecord(kind, fault) => {
                push_str(&mut s, record_prefix(*kind));
                push_record_fault(&mut s, *fault);
            },
            MediaError::AudioFec(fault) => push_str(
                &mut s,
                match fault {
                    FecFault::DataShardCount => "audio FEC requires exactly 4 data shards",
                    FecFault::MixedData => "audio FEC data shards have mixed or non-contiguous metadata",
                    FecFault::NoShards => "audio FEC has no shards",
                    FecFault::ShardSize => "audio FEC shards must have one non-zero constant size",
                    FecFault::TooManyMissing => "audio FEC cannot recover more than two data shards",
                    FecFault::InsufficientParity => "audio FEC has insufficient parity",
                },
            ),
            MediaError::AudioParity(fault) => push_str(
                &mut s,
                match fault {
                    AudioParityFault::Identity => "audio parity identity metadata must be non-empty",
                    AudioParityFault::Timing => "audio parity timing metadata must be non-zero",
                    AudioParityFault::Stripe => "audio parity stripe metadata is invalid",
                    AudioParityFault::PayloadSize => "audio parity payload does not match declared shard size",
                },
            ),
            MediaError::Buffer(fault) => push_buffer_fault(&mut s, *fault),
            MediaError::NegativeJitter => push_str(&mut s, "jitter_us must be non-negative"),
            MediaError::NegativeDecodeQueue => push_str(
                &mut s,
                "decode_queue_us must be non-negative",
            ),
            MediaError::ExpiredMixedStreams => push_str(
                &mut s,
                "expired video frame feedback requires one stream_id/session_id",
            ),
            MediaError::AdtsSync => push_str(&mut s, "ADTS frame must start with sync word"),
            MediaError::ExpectedRawDocument => push_str(
                &mut s,
                "expected cultnet.document_put_raw.v0",
            ),
            MediaError::PayloadNotMessagePack => push_str(
                &mut s,
                "Muninn media document payload must be MessagePack",
            ),
            MediaError::UnsupportedSchema(schema) => {
                push_str(&mut s, "unsupported Muninn media schema ");
                push_str(&mut s, schema.as_str());
            },
            MediaError::WireKeyMismatch(kind, expected, received) => {
                push_str(
                    &mut s,
                    match kind {
                        RecordKind::Video => "Muninn video media record",
                        RecordKind::VideoParity => "Muninn video parity media record",
                        RecordKind::Audio => "Muninn audio media record",
                        RecordKind::AudioParity => "Muninn audio parity record",
                        RecordKind::Feedback => "Muninn receiver feedback record",
                    },
                );
                push_str(&mut s, " key mismatch: expected ");
                push_str(&mut s, expected.as_str());
                push_str(&mut s, ", received ");
                push_str(&mut s, received.as_str());
            },
            MediaError::AdtsShortFrame(frame_len, header_len) => {
                push_str(&mut s, "ADTS frame length ");
                push_u64(&mut s, *frame_len as u64);
                push_str(&mut s, " is shorter than header length ");
                push_u64(&mut s, *header_len as u64);
            },
        }
        assert(s@ =~= media_error_text(*self));
        s
    }
}

} // verus!
