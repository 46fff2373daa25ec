use odin::documents::{
    MuninnMediaAudioPacketRecord, MuninnMediaVideoAccessUnitRecord,
};
use odin::media::annexb::{
    h264_annex_b_access_units, h265_annex_b_access_units, video_annex_b_access_units,
    VideoAccessUnit,
};
use odin::media::assembly::VideoFrameAssembly;
use odin::media::audio::{audio_fec_parity_records, packetize_audio_packet, AudioPacketizeOptions};
use odin::media::audio_sender::{AudioAdtsStreamSendConfig, AudioAdtsStreamSendState};
use odin::media::chunk_key::{video_chunk_feedback_key, VideoChunkKey};
use odin::media::error::{
    BufferFault, CodecName, FecFault, MediaError, MediaField, RecordFault, RecordKind, SenderKind,
};
use odin::media::records::{accept_wire_record, media_schema_kind, media_wire_document, wire_record_key};
use odin::media::chunk_key::VideoChunkKey as ChunkKey;
use odin::media::fec_recovery::recover_audio_fec_data;
use odin::media::feedback::{
    build_feedback_for_expired_video_frames, build_receiver_feedback,
    ExpiredVideoFrameFeedbackOptions, ReceiverFeedbackOptions,
};
use odin::media::frame_set::{ExpiredVideoFrame, VideoFrameAssemblySet, VideoFrameKey};
use odin::media::gf256::{gf256_inv, gf256_mul};
use odin::media::jitter::AudioPacketBuffer;
use odin::media::parity::{
    build_video_parity_shards, video_fec_coefficient, video_wire_records_with_parity,
};
use odin::media::sender::{VideoAnnexBStreamSendConfig, VideoAnnexBStreamSendState};
use odin::media::stream::{packetize_video_annex_b_stream, VideoAnnexBStreamPacketizeOptions};
use odin::media::video::{
    packetize_video_access_unit, reassemble_video_access_unit, VideoFramePacketizeOptions,
};
use odin::media::wire::MuninnMediaWireRecord;

fn start_code() -> [u8; 4] {
    [0, 0, 0, 1]
}

#[test]
fn splits_h264_annex_b_access_units_on_aud_boundaries() -> Result<(), MediaError> {
    let mut stream = Vec::new();
    stream.extend_from_slice(&start_code());
    stream.extend_from_slice(&[0x09, 0xf0]);
    stream.extend_from_slice(&start_code());
    stream.extend_from_slice(&[0x67, 0x42, 0x00, 0x1f]);
    stream.extend_from_slice(&start_code());
    stream.extend_from_slice(&[0x65, 0x80]);
    stream.extend_from_slice(&start_code());
    stream.extend_from_slice(&[0x09, 0xf0]);
    stream.extend_from_slice(&start_code());
    stream.extend_from_slice(&[0x41, 0x80]);

    let access_units = h264_annex_b_access_units(&stream)?;

    assert_eq!(access_units.len(), 2);
    assert!(access_units[0].keyframe);
    assert!(!access_units[1].keyframe);
    assert!(access_units[0].bytes.starts_with(&start_code()));
    assert!(access_units[1].bytes.starts_with(&start_code()));
    Ok(())
}

#[test]
fn splits_h264_annex_b_access_units_on_new_slice_zero() -> Result<(), MediaError> {
    let mut stream = Vec::new();
    stream.extend_from_slice(&start_code());
    stream.extend_from_slice(&[0x65, 0x80]);
    stream.extend_from_slice(&start_code());
    stream.extend_from_slice(&[0x41, 0x80]);

    let access_units = h264_annex_b_access_units(&stream)?;

    assert_eq!(access_units.len(), 2);
    assert!(access_units[0].keyframe);
    assert!(!access_units[1].keyframe);
    Ok(())
}

#[test]
fn video_annex_b_dispatches_h264_aliases() -> Result<(), MediaError> {
    let mut stream = Vec::new();
    stream.extend_from_slice(&start_code());
    stream.extend_from_slice(&[0x65, 0x80]);

    let access_units = video_annex_b_access_units("AVC", &stream)?;

    assert_eq!(access_units.len(), 1);
    assert!(access_units[0].keyframe);
    Ok(())
}

fn h265_nal(nal_type: u8, slice_first: Option<bool>) -> Vec<u8> {
    let mut nal = vec![nal_type << 1, 0x01];
    if let Some(first) = slice_first {
        nal.push(if first { 0x80 } else { 0x00 });
    } else {
        nal.push(0x00);
    }
    nal
}

#[test]
fn splits_h265_annex_b_access_units_on_aud_boundaries() -> Result<(), MediaError> {
    let mut stream = Vec::new();
    stream.extend_from_slice(&start_code());
    stream.extend_from_slice(&h265_nal(35, None));
    stream.extend_from_slice(&start_code());
    stream.extend_from_slice(&h265_nal(32, None));
    stream.extend_from_slice(&start_code());
    stream.extend_from_slice(&h265_nal(33, None));
    stream.extend_from_slice(&start_code());
    stream.extend_from_slice(&h265_nal(34, None));
    stream.extend_from_slice(&start_code());
    stream.extend_from_slice(&h265_nal(19, Some(true)));
    stream.extend_from_slice(&start_code());
    stream.extend_from_slice(&h265_nal(35, None));
    stream.extend_from_slice(&start_code());
    stream.extend_from_slice(&h265_nal(1, Some(true)));

    let access_units = h265_annex_b_access_units(&stream)?;

    assert_eq!(access_units.len(), 2);
    assert!(access_units[0].keyframe);
    assert!(!access_units[1].keyframe);
    assert!(access_units[0].bytes.starts_with(&start_code()));
    assert!(access_units[1].bytes.starts_with(&start_code()));
    Ok(())
}

#[test]
fn splits_h265_annex_b_access_units_on_first_slice_flag() -> Result<(), MediaError> {
    let mut stream = Vec::new();
    stream.extend_from_slice(&start_code());
    stream.extend_from_slice(&h265_nal(19, Some(true)));
    stream.extend_from_slice(&start_code());
    stream.extend_from_slice(&h265_nal(1, Some(true)));

    let access_units = h265_annex_b_access_units(&stream)?;

    assert_eq!(access_units.len(), 2);
    assert!(access_units[0].keyframe);
    assert!(!access_units[1].keyframe);
    Ok(())
}

#[test]
fn video_annex_b_dispatches_hevc_aliases() -> Result<(), MediaError> {
    let mut stream = Vec::new();
    stream.extend_from_slice(&start_code());
    stream.extend_from_slice(&h265_nal(19, Some(true)));

    let access_units = video_annex_b_access_units("HEVC", &stream)?;

    assert_eq!(access_units.len(), 1);
    assert!(access_units[0].keyframe);
    Ok(())
}

#[test]
fn video_annex_b_rejects_av1_without_obu_packetizer() {
    let error = video_annex_b_access_units("av1", &[1, 2, 3]).unwrap_err();

    assert!(
        error
            .message()
            .contains("AV1 access unit splitting is not Annex B")
    );
}

#[test]
fn video_annex_b_rejects_unknown_codec() {
    let error = video_annex_b_access_units("vp9", &[1, 2, 3]).unwrap_err();

    assert!(
        error
            .message()
            .contains("unsupported Annex B video codec vp9")
    );
}

#[test]
fn packetizes_access_unit_into_typed_video_chunks() -> Result<(), MediaError> {
    let access_unit = VideoAccessUnit {
        bytes: vec![1, 2, 3, 4, 5],
        keyframe: false,
    };

    let records = packetize_video_access_unit(
        VideoFramePacketizeOptions {
            stream_id: "muninn.raven.av.rudp",
            session_id: "session-1",
            codec: "h264",
            frame_id: 9,
            pts_ticks: 27_000,
            duration_ticks: 3_000,
            timebase_num: 1,
            timebase_den: 90_000,
            deadline_ticks: 28_800,
            max_payload_bytes: 2,
        },
        &access_unit,
    )?;

    assert_eq!(records.len(), 3);
    assert_eq!(records[0].chunk_index, 0);
    assert_eq!(records[0].chunk_count, 3);
    assert_eq!(records[0].dependency_frame_id, Some(8));
    assert_eq!(records[2].payload, vec![5]);
    Ok(())
}

#[test]
fn builds_video_parity_shards_for_burst_loss_recovery() -> Result<(), MediaError> {
    let access_unit = VideoAccessUnit {
        bytes: (1_u8..=40).collect(),
        keyframe: false,
    };
    let records = packetize_video_access_unit(
        VideoFramePacketizeOptions {
            stream_id: "muninn.raven.av.rudp",
            session_id: "session-1",
            codec: "h264",
            frame_id: 9,
            pts_ticks: 27_000,
            duration_ticks: 3_000,
            timebase_num: 1,
            timebase_den: 90_000,
            deadline_ticks: 28_800,
            max_payload_bytes: 2,
        },
        &access_unit,
    )?;

    let parity = build_video_parity_shards(&records)?;

    assert_eq!(records.len(), 20);
    assert_eq!(parity.len(), 16);
    assert!(
        parity.iter().enumerate().all(
            |(index, shard)| shard.parity_index == index as u16 && shard.parity_count == 16
        )
    );
    assert!(parity.iter().all(|shard| shard.chunk_payload_bytes == 2));

    let missing_index = 18_u16;
    let shard = &parity[7];
    let mut recovered = shard.payload.clone();
    for chunk in records.iter().filter(|chunk| chunk.chunk_index != missing_index) {
        let coefficient = video_fec_coefficient(
            shard.parity_index,
            shard.parity_count,
            chunk.chunk_index,
        );
        for (offset, byte) in chunk.payload.iter().enumerate() {
            recovered[offset] ^= gf256_mul(*byte, coefficient);
        }
    }
    let inverse = gf256_inv(video_fec_coefficient(
        shard.parity_index,
        shard.parity_count,
        missing_index,
    ));
    for byte in &mut recovered {
        *byte = gf256_mul(*byte, inverse);
    }
    recovered.truncate(records[missing_index as usize].payload.len());
    assert_eq!(recovered, records[missing_index as usize].payload);
    Ok(())
}

#[test]
fn video_wire_bookends_data_with_independent_parity() -> Result<(), MediaError> {
    let access_unit = VideoAccessUnit {
        bytes: (1_u8..=40).collect(),
        keyframe: true,
    };
    let records = packetize_video_access_unit(
        VideoFramePacketizeOptions {
            stream_id: "muninn.raven.av.rudp",
            session_id: "session-1",
            codec: "h264",
            frame_id: 9,
            pts_ticks: 27_000,
            duration_ticks: 3_000,
            timebase_num: 1,
            timebase_den: 90_000,
            deadline_ticks: 45_000,
            max_payload_bytes: 2,
        },
        &access_unit,
    )?;

    let wire = video_wire_records_with_parity(&records)?;
    assert_eq!(wire.len(), 36);
    assert!(wire[..8].iter().all(|record| matches!(record, MuninnMediaWireRecord::VideoParity(_))));
    assert!(wire[8..28].iter().all(|record| matches!(record, MuninnMediaWireRecord::Video(_))));
    assert!(wire[28..].iter().all(|record| matches!(record, MuninnMediaWireRecord::VideoParity(_))));
    Ok(())
}

#[test]
fn packetizes_annex_b_stream_into_timed_video_records() -> Result<(), MediaError> {
    let mut stream = Vec::new();
    stream.extend_from_slice(&start_code());
    stream.extend_from_slice(&[0x65, 0x80]);
    stream.extend_from_slice(&start_code());
    stream.extend_from_slice(&[0x41, 0x80]);

    let records = packetize_video_annex_b_stream(
        VideoAnnexBStreamPacketizeOptions {
            stream_id: "muninn.raven.av.rudp",
            session_id: "session-1",
            codec: "avc",
            first_frame_id: 9,
            first_pts_ticks: 27_000,
            frame_duration_ticks: 3_000,
            timebase_num: 1,
            timebase_den: 90_000,
            deadline_delay_ticks: 1_800,
            max_payload_bytes: 16,
        },
        &stream,
    )?;

    assert_eq!(records.len(), 2);
    assert_eq!(records[0].frame_id, 9);
    assert_eq!(records[0].pts_ticks, 27_000);
    assert_eq!(records[0].deadline_ticks, 28_800);
    assert!(records[0].keyframe);
    assert_eq!(records[1].frame_id, 10);
    assert_eq!(records[1].pts_ticks, 30_000);
    assert_eq!(records[1].deadline_ticks, 31_800);
    assert_eq!(records[1].dependency_frame_id, Some(9));
    assert_eq!(records[1].codec, "avc");
    Ok(())
}

#[test]
fn packetizes_non_reference_h264_p_frames_without_dependency() -> Result<(), MediaError> {
    let mut stream = Vec::new();
    stream.extend_from_slice(&start_code());
    stream.extend_from_slice(&[0x65, 0x80]);
    stream.extend_from_slice(&start_code());
    stream.extend_from_slice(&[0x01, 0x80]);

    let records = packetize_video_annex_b_stream(
        VideoAnnexBStreamPacketizeOptions {
            stream_id: "muninn.raven.av.rudp",
            session_id: "session-1",
            codec: "h264",
            first_frame_id: 9,
            first_pts_ticks: 27_000,
            frame_duration_ticks: 3_000,
            timebase_num: 1,
            timebase_den: 90_000,
            deadline_delay_ticks: 1_800,
            max_payload_bytes: 16,
        },
        &stream,
    )?;

    assert_eq!(records.len(), 2);
    assert!(records[0].keyframe);
    assert_eq!(records[0].dependency_frame_id, None);
    assert!(!records[1].keyframe);
    assert_eq!(records[1].dependency_frame_id, None);
    Ok(())
}

#[test]
fn rejects_negative_annex_b_stream_deadline_delay() {
    let error = packetize_video_annex_b_stream(
        VideoAnnexBStreamPacketizeOptions {
            stream_id: "muninn.raven.av.rudp",
            session_id: "session-1",
            codec: "h264",
            first_frame_id: 9,
            first_pts_ticks: 27_000,
            frame_duration_ticks: 3_000,
            timebase_num: 1,
            timebase_den: 90_000,
            deadline_delay_ticks: -1,
            max_payload_bytes: 4,
        },
        &[0, 0, 0, 1, 0x65, 0x80],
    )
    .unwrap_err();

    assert!(
        error
            .message()
            .contains("deadline_delay_ticks must be non-negative")
    );
}

#[test]
fn rejects_zero_duration_video_access_units() {
    let access_unit = VideoAccessUnit {
        bytes: vec![1, 2, 3],
        keyframe: true,
    };

    let error = packetize_video_access_unit(
        VideoFramePacketizeOptions {
            stream_id: "muninn.raven.av.rudp",
            session_id: "session-1",
            codec: "h264",
            frame_id: 9,
            pts_ticks: 27_000,
            duration_ticks: 0,
            timebase_num: 1,
            timebase_den: 90_000,
            deadline_ticks: 28_800,
            max_payload_bytes: 2,
        },
        &access_unit,
    )
    .unwrap_err();

    assert!(
        error
            .message()
            .contains("video duration_ticks must be greater than zero")
    );
}

#[test]
fn rejects_video_deadline_before_pts() {
    let access_unit = VideoAccessUnit {
        bytes: vec![1, 2, 3],
        keyframe: true,
    };

    let error = packetize_video_access_unit(
        VideoFramePacketizeOptions {
            stream_id: "muninn.raven.av.rudp",
            session_id: "session-1",
            codec: "h264",
            frame_id: 9,
            pts_ticks: 27_000,
            duration_ticks: 3_000,
            timebase_num: 1,
            timebase_den: 90_000,
            deadline_ticks: 26_999,
            max_payload_bytes: 2,
        },
        &access_unit,
    )
    .unwrap_err();

    assert!(
        error
            .message()
            .contains("video deadline_ticks must not precede pts_ticks")
    );
}

#[test]
fn video_chunk_key_round_trips_feedback_key() -> Result<(), MediaError> {
    let key = VideoChunkKey::parse("42:7")?;

    assert_eq!(key, VideoChunkKey::new(42, 7));
    assert_eq!(key.as_feedback_key(), "42:7");
    assert_eq!(video_chunk_feedback_key(42, 7), "42:7");
    Ok(())
}

#[test]
fn rejects_malformed_video_chunk_keys() {
    let error = VideoChunkKey::parse("42:7:extra").unwrap_err();

    assert!(error.message().contains("exactly one"));
}

#[test]
fn packetizes_audio_payload_into_typed_packet() -> Result<(), MediaError> {
    let record = packetize_audio_packet(
        AudioPacketizeOptions {
            stream_id: "muninn.raven.av.rudp",
            session_id: "session-1",
            codec: "opus",
            packet_id: 12,
            pts_ticks: 48_000,
            duration_ticks: 960,
            timebase_num: 1,
            timebase_den: 48_000,
            deadline_ticks: 48_960,
        },
        &[0xf8, 0xff, 0xfe],
    )?;

    assert_eq!(record.stream_id, "muninn.raven.av.rudp");
    assert_eq!(record.codec, "opus");
    assert_eq!(record.packet_id, 12);
    assert_eq!(record.payload, vec![0xf8, 0xff, 0xfe]);
    Ok(())
}

#[test]
fn rejects_empty_audio_payloads() {
    let error = packetize_audio_packet(
        AudioPacketizeOptions {
            stream_id: "muninn.raven.av.rudp",
            session_id: "session-1",
            codec: "opus",
            packet_id: 12,
            pts_ticks: 48_000,
            duration_ticks: 960,
            timebase_num: 1,
            timebase_den: 48_000,
            deadline_ticks: 48_960,
        },
        &[],
    )
    .unwrap_err();

    assert!(error.message().contains("payload must be non-empty"));
}

#[test]
fn rejects_zero_duration_audio_packets() {
    let error = packetize_audio_packet(
        AudioPacketizeOptions {
            stream_id: "muninn.raven.av.rudp",
            session_id: "session-1",
            codec: "opus",
            packet_id: 12,
            pts_ticks: 48_000,
            duration_ticks: 0,
            timebase_num: 1,
            timebase_den: 48_000,
            deadline_ticks: 48_960,
        },
        &[0xf8, 0xff, 0xfe],
    )
    .unwrap_err();

    assert!(
        error
            .message()
            .contains("audio duration_ticks must be greater than zero")
    );
}

#[test]
fn rejects_audio_deadline_before_pts() {
    let error = packetize_audio_packet(
        AudioPacketizeOptions {
            stream_id: "muninn.raven.av.rudp",
            session_id: "session-1",
            codec: "opus",
            packet_id: 12,
            pts_ticks: 48_000,
            duration_ticks: 960,
            timebase_num: 1,
            timebase_den: 48_000,
            deadline_ticks: 47_999,
        },
        &[0xf8, 0xff, 0xfe],
    )
    .unwrap_err();

    assert!(
        error
            .message()
            .contains("audio deadline_ticks must not precede pts_ticks")
    );
}

fn audio_packet(packet_id: u64, deadline_ticks: i64) -> MuninnMediaAudioPacketRecord {
    packetize_audio_packet(
        AudioPacketizeOptions {
            stream_id: "muninn.raven.av.rudp",
            session_id: "session-1",
            codec: "opus",
            packet_id,
            pts_ticks: (packet_id as i64) * 960,
            duration_ticks: 960,
            timebase_num: 1,
            timebase_den: 48_000,
            deadline_ticks,
        },
        &[0xf8, 0xff, packet_id as u8],
    )
    .unwrap()
}

#[test]
fn audio_packet_buffer_emits_contiguous_packets_in_order() -> Result<(), MediaError> {
    let mut buffer = AudioPacketBuffer::default();

    buffer.insert(audio_packet(7, 10_000))?;
    buffer.insert(audio_packet(9, 12_000))?;
    let ready = buffer.pop_ready_packets();

    assert_eq!(
        ready
            .iter()
            .map(|packet| packet.packet_id)
            .collect::<Vec<_>>(),
        vec![7]
    );
    assert_eq!(buffer.pending_packet_count(), 1);

    buffer.insert(audio_packet(8, 11_000))?;
    let ready = buffer.pop_ready_packets();

    assert_eq!(
        ready
            .iter()
            .map(|packet| packet.packet_id)
            .collect::<Vec<_>>(),
        vec![8, 9]
    );
    assert_eq!(buffer.pending_packet_count(), 0);
    Ok(())
}

#[test]
fn audio_packet_buffer_tracks_lowest_packet_before_first_emit() -> Result<(), MediaError> {
    let mut buffer = AudioPacketBuffer::default();

    buffer.insert(audio_packet(9, 12_000))?;
    buffer.insert(audio_packet(7, 10_000))?;
    buffer.insert(audio_packet(8, 11_000))?;

    let ready = buffer.pop_ready_packets();

    assert_eq!(
        ready
            .iter()
            .map(|packet| packet.packet_id)
            .collect::<Vec<_>>(),
        vec![7, 8, 9]
    );
    assert_eq!(buffer.pending_packet_count(), 0);
    Ok(())
}

#[test]
fn audio_packet_buffer_rejects_stale_packets_after_emit() -> Result<(), MediaError> {
    let mut buffer = AudioPacketBuffer::default();

    buffer.insert(audio_packet(7, 10_000))?;
    assert_eq!(buffer.pop_ready_packets().len(), 1);
    let error = buffer.insert(audio_packet(6, 9_000)).unwrap_err();

    assert!(error.message().contains("stale packet_id"));
    Ok(())
}

#[test]
fn audio_packet_buffer_expires_late_packets() -> Result<(), MediaError> {
    let mut buffer = AudioPacketBuffer::default();

    buffer.insert(audio_packet(7, 10_000))?;
    buffer.insert(audio_packet(8, 12_000))?;

    let expired = buffer.expire_late_packets(10_000);

    assert_eq!(expired, vec![7]);
    assert_eq!(buffer.pending_packet_count(), 1);
    assert_eq!(
        buffer
            .pop_ready_packets()
            .into_iter()
            .map(|packet| packet.packet_id)
            .collect::<Vec<_>>(),
        vec![8]
    );
    Ok(())
}

#[test]
fn audio_packet_buffer_rejects_mixed_stream_metadata() -> Result<(), MediaError> {
    let mut buffer = AudioPacketBuffer::default();
    let mut mixed = audio_packet(8, 12_000);
    mixed.session_id = "session-2".to_string();

    buffer.insert(audio_packet(7, 10_000))?;
    let error = buffer.insert(mixed).unwrap_err();

    assert!(error.message().contains("mixed stream metadata"));
    Ok(())
}

#[test]
fn reassembles_video_chunks_in_chunk_index_order() -> Result<(), MediaError> {
    let access_unit = VideoAccessUnit {
        bytes: vec![1, 2, 3, 4, 5],
        keyframe: true,
    };
    let records = packetize_video_access_unit(
        VideoFramePacketizeOptions {
            stream_id: "muninn.raven.av.rudp",
            session_id: "session-1",
            codec: "h264",
            frame_id: 9,
            pts_ticks: 27_000,
            duration_ticks: 3_000,
            timebase_num: 1,
            timebase_den: 90_000,
            deadline_ticks: 28_800,
            max_payload_bytes: 2,
        },
        &access_unit,
    )?;
    let shuffled = vec![records[2].clone(), records[0].clone(), records[1].clone()];

    let reassembled = reassemble_video_access_unit(&shuffled)?;

    assert_eq!(reassembled, access_unit);
    Ok(())
}

#[test]
fn rejects_video_chunks_from_mixed_frames() -> Result<(), MediaError> {
    let access_unit = VideoAccessUnit {
        bytes: vec![1, 2, 3, 4],
        keyframe: false,
    };
    let mut records = packetize_video_access_unit(
        VideoFramePacketizeOptions {
            stream_id: "muninn.raven.av.rudp",
            session_id: "session-1",
            codec: "h264",
            frame_id: 9,
            pts_ticks: 27_000,
            duration_ticks: 3_000,
            timebase_num: 1,
            timebase_den: 90_000,
            deadline_ticks: 28_800,
            max_payload_bytes: 2,
        },
        &access_unit,
    )?;
    records[1].frame_id = 10;

    let error = reassemble_video_access_unit(&records).unwrap_err();

    assert!(error.message().contains("mixed frame_id"));
    Ok(())
}

#[test]
fn rejects_incomplete_video_chunk_sets() -> Result<(), MediaError> {
    let access_unit = VideoAccessUnit {
        bytes: vec![1, 2, 3, 4, 5],
        keyframe: false,
    };
    let mut records = packetize_video_access_unit(
        VideoFramePacketizeOptions {
            stream_id: "muninn.raven.av.rudp",
            session_id: "session-1",
            codec: "h264",
            frame_id: 9,
            pts_ticks: 27_000,
            duration_ticks: 3_000,
            timebase_num: 1,
            timebase_den: 90_000,
            deadline_ticks: 28_800,
            max_payload_bytes: 2,
        },
        &access_unit,
    )?;
    records.pop();

    let error = reassemble_video_access_unit(&records).unwrap_err();

    assert!(error.message().contains("missing chunks"));
    Ok(())
}

#[test]
fn recoverable_receiver_damage_does_not_request_keyframe() -> Result<(), MediaError> {
    let feedback = build_receiver_feedback(ReceiverFeedbackOptions {
        stream_id: "muninn.raven.av.rudp",
        session_id: "session-1",
        receiver_id: "starfire.obs",
        highest_decodable_frame_id: Some(40),
        missing_frame_ids: vec![43, 42, 43],
        missing_video_chunk_keys: vec![
            video_chunk_feedback_key(43, 2),
            video_chunk_feedback_key(42, 1),
            video_chunk_feedback_key(42, 1),
        ],
        late_frame_ids: vec![39, 39, 38],
        requested_keyframe: false,
        jitter_us: 700,
        decode_queue_us: 2_000,
        observed_at: "2026-06-18T00:00:00Z",
    })?;

    assert_eq!(feedback.missing_frame_ids, vec![42, 43]);
    assert_eq!(feedback.missing_video_chunk_keys, vec!["42:1", "43:2"]);
    assert_eq!(feedback.late_frame_ids, vec![38, 39]);
    assert!(!feedback.requested_keyframe);
    Ok(())
}

#[test]
fn explicit_decode_chain_invalidation_requests_keyframe() -> Result<(), MediaError> {
    let feedback = build_receiver_feedback(ReceiverFeedbackOptions {
        stream_id: "muninn.raven.av.rudp",
        session_id: "session-1",
        receiver_id: "starfire.obs",
        highest_decodable_frame_id: Some(40),
        missing_frame_ids: vec![41],
        missing_video_chunk_keys: Vec::new(),
        late_frame_ids: vec![41],
        requested_keyframe: true,
        jitter_us: 700,
        decode_queue_us: 2_000,
        observed_at: "2026-06-18T00:00:00Z",
    })?;

    assert!(feedback.requested_keyframe);
    Ok(())
}

#[test]
fn rejects_negative_receiver_feedback_timing() {
    let error = build_receiver_feedback(ReceiverFeedbackOptions {
        stream_id: "muninn.raven.av.rudp",
        session_id: "session-1",
        receiver_id: "starfire.obs",
        highest_decodable_frame_id: Some(40),
        missing_frame_ids: Vec::new(),
        missing_video_chunk_keys: Vec::new(),
        late_frame_ids: Vec::new(),
        requested_keyframe: false,
        jitter_us: -1,
        decode_queue_us: 2_000,
        observed_at: "2026-06-18T00:00:00Z",
    })
    .unwrap_err();

    assert!(error.message().contains("jitter_us"));
}

#[test]
fn rejects_malformed_receiver_feedback_chunk_keys() {
    let error = build_receiver_feedback(ReceiverFeedbackOptions {
        stream_id: "muninn.raven.av.rudp",
        session_id: "session-1",
        receiver_id: "starfire.obs",
        highest_decodable_frame_id: Some(40),
        missing_frame_ids: Vec::new(),
        missing_video_chunk_keys: vec!["frame:chunk".to_string()],
        late_frame_ids: Vec::new(),
        requested_keyframe: false,
        jitter_us: 0,
        decode_queue_us: 2_000,
        observed_at: "2026-06-18T00:00:00Z",
    })
    .unwrap_err();

    assert!(error.message().contains("frame_id"));
}

#[test]
fn video_frame_assembly_reports_missing_chunks_and_reassembles() -> Result<(), MediaError> {
    let access_unit = VideoAccessUnit {
        bytes: vec![1, 2, 3, 4, 5],
        keyframe: true,
    };
    let records = packetize_video_access_unit(
        VideoFramePacketizeOptions {
            stream_id: "muninn.raven.av.rudp",
            session_id: "session-1",
            codec: "h264",
            frame_id: 9,
            pts_ticks: 27_000,
            duration_ticks: 3_000,
            timebase_num: 1,
            timebase_den: 90_000,
            deadline_ticks: 28_800,
            max_payload_bytes: 2,
        },
        &access_unit,
    )?;
    let mut assembly = VideoFrameAssembly::new(records[0].clone())?;

    assert!(!assembly.is_complete());
    assert_eq!(
        assembly.missing_video_chunk_keys(),
        vec![
            video_chunk_feedback_key(9, 1),
            video_chunk_feedback_key(9, 2)
        ]
    );

    assembly.insert(records[2].clone())?;
    assert_eq!(
        assembly.missing_video_chunk_keys(),
        vec![video_chunk_feedback_key(9, 1)]
    );

    assembly.insert(records[1].clone())?;
    assert!(assembly.is_complete());
    assert_eq!(assembly.reassemble()?, access_unit);
    Ok(())
}

#[test]
fn video_frame_assembly_rejects_mixed_metadata() -> Result<(), MediaError> {
    let access_unit = VideoAccessUnit {
        bytes: vec![1, 2, 3, 4],
        keyframe: false,
    };
    let mut records = packetize_video_access_unit(
        VideoFramePacketizeOptions {
            stream_id: "muninn.raven.av.rudp",
            session_id: "session-1",
            codec: "h264",
            frame_id: 9,
            pts_ticks: 27_000,
            duration_ticks: 3_000,
            timebase_num: 1,
            timebase_den: 90_000,
            deadline_ticks: 28_800,
            max_payload_bytes: 2,
        },
        &access_unit,
    )?;
    let mut assembly = VideoFrameAssembly::new(records[0].clone())?;
    records[1].pts_ticks += 1;

    let error = assembly.insert(records[1].clone()).unwrap_err();

    assert!(error.message().contains("metadata"));
    Ok(())
}

#[test]
fn video_frame_assembly_set_handles_interleaved_frames() -> Result<(), MediaError> {
    let frame_one = VideoAccessUnit {
        bytes: vec![1, 2, 3, 4, 5],
        keyframe: true,
    };
    let frame_two = VideoAccessUnit {
        bytes: vec![6, 7, 8, 9],
        keyframe: false,
    };
    let frame_one_chunks = packetize_video_access_unit(
        VideoFramePacketizeOptions {
            stream_id: "muninn.raven.av.rudp",
            session_id: "session-1",
            codec: "h264",
            frame_id: 9,
            pts_ticks: 27_000,
            duration_ticks: 3_000,
            timebase_num: 1,
            timebase_den: 90_000,
            deadline_ticks: 28_800,
            max_payload_bytes: 2,
        },
        &frame_one,
    )?;
    let frame_two_chunks = packetize_video_access_unit(
        VideoFramePacketizeOptions {
            stream_id: "muninn.raven.av.rudp",
            session_id: "session-1",
            codec: "h264",
            frame_id: 10,
            pts_ticks: 30_000,
            duration_ticks: 3_000,
            timebase_num: 1,
            timebase_den: 90_000,
            deadline_ticks: 31_800,
            max_payload_bytes: 2,
        },
        &frame_two,
    )?;
    let key_one = VideoFrameKey::from_chunk(&frame_one_chunks[0]);
    let mut assemblies = VideoFrameAssemblySet::default();

    assert!(
        assemblies
            .insert_chunk(frame_one_chunks[0].clone())?
            .is_none()
    );
    assert!(
        assemblies
            .insert_chunk(frame_two_chunks[1].clone())?
            .is_none()
    );
    assert_eq!(assemblies.pending_frame_count(), 2);
    assert_eq!(
        assemblies.missing_video_chunk_keys(&key_one),
        vec![
            video_chunk_feedback_key(9, 1),
            video_chunk_feedback_key(9, 2)
        ]
    );

    assert!(
        assemblies
            .insert_chunk(frame_one_chunks[2].clone())?
            .is_none()
    );
    let completed = assemblies
        .insert_chunk(frame_one_chunks[1].clone())?
        .expect("frame one should complete");

    assert_eq!(completed, frame_one);
    assert_eq!(assemblies.pending_frame_count(), 1);
    assert!(assemblies.missing_video_chunk_keys(&key_one).is_empty());
    Ok(())
}

#[test]
fn video_frame_assembly_set_expires_late_incomplete_frames() -> Result<(), MediaError> {
    let frame_one = VideoAccessUnit {
        bytes: vec![1, 2, 3, 4, 5],
        keyframe: true,
    };
    let frame_two = VideoAccessUnit {
        bytes: vec![6, 7, 8, 9],
        keyframe: false,
    };
    let frame_one_chunks = packetize_video_access_unit(
        VideoFramePacketizeOptions {
            stream_id: "muninn.raven.av.rudp",
            session_id: "session-1",
            codec: "h264",
            frame_id: 9,
            pts_ticks: 27_000,
            duration_ticks: 3_000,
            timebase_num: 1,
            timebase_den: 90_000,
            deadline_ticks: 28_800,
            max_payload_bytes: 2,
        },
        &frame_one,
    )?;
    let frame_two_chunks = packetize_video_access_unit(
        VideoFramePacketizeOptions {
            stream_id: "muninn.raven.av.rudp",
            session_id: "session-1",
            codec: "h264",
            frame_id: 10,
            pts_ticks: 30_000,
            duration_ticks: 3_000,
            timebase_num: 1,
            timebase_den: 90_000,
            deadline_ticks: 31_800,
            max_payload_bytes: 2,
        },
        &frame_two,
    )?;
    let key_one = VideoFrameKey::from_chunk(&frame_one_chunks[0]);
    let key_two = VideoFrameKey::from_chunk(&frame_two_chunks[0]);
    let mut assemblies = VideoFrameAssemblySet::default();

    assemblies.insert_chunk(frame_one_chunks[0].clone())?;
    assemblies.insert_chunk(frame_two_chunks[0].clone())?;

    let expired = assemblies.expire_late_frames(30_000);

    assert_eq!(expired.len(), 1);
    assert_eq!(expired[0].key, key_one);
    assert_eq!(
        expired[0].missing_video_chunk_keys,
        vec![
            video_chunk_feedback_key(9, 1),
            video_chunk_feedback_key(9, 2)
        ]
    );
    assert_eq!(assemblies.pending_frame_count(), 1);
    assert!(!assemblies.missing_video_chunk_keys(&key_two).is_empty());

    let feedback = build_feedback_for_expired_video_frames(
        &expired,
        ExpiredVideoFrameFeedbackOptions {
            receiver_id: "starfire.obs",
            jitter_us: 700,
            decode_queue_us: 2_000,
            observed_at: "2026-06-18T00:00:00Z",
        },
    )?
    .expect("expired frames should produce feedback");

    assert_eq!(feedback.late_frame_ids, vec![9]);
    assert_eq!(
        feedback.missing_video_chunk_keys,
        vec![
            video_chunk_feedback_key(9, 1),
            video_chunk_feedback_key(9, 2)
        ]
    );
    assert!(feedback.requested_keyframe);
    Ok(())
}

#[test]
fn expired_video_feedback_rejects_mixed_streams() {
    let expired = vec![
        ExpiredVideoFrame {
            key: VideoFrameKey {
                stream_id: "muninn.raven.av.rudp".to_string(),
                session_id: "session-1".to_string(),
                frame_id: 9,
            },
            deadline_ticks: 28_800,
            missing_video_chunk_keys: vec![video_chunk_feedback_key(9, 1)],
            decode_chain_invalidated: true,
        },
        ExpiredVideoFrame {
            key: VideoFrameKey {
                stream_id: "muninn.nightwing.av.rudp".to_string(),
                session_id: "session-1".to_string(),
                frame_id: 10,
            },
            deadline_ticks: 31_800,
            missing_video_chunk_keys: vec![video_chunk_feedback_key(10, 1)],
            decode_chain_invalidated: true,
        },
    ];

    let error = build_feedback_for_expired_video_frames(
        &expired,
        ExpiredVideoFrameFeedbackOptions {
            receiver_id: "starfire.obs",
            jitter_us: 700,
            decode_queue_us: 2_000,
            observed_at: "2026-06-18T00:00:00Z",
        },
    )
    .unwrap_err();

    assert!(error.message().contains("one stream_id/session_id"));
}

#[test]
fn expired_non_dependency_damage_does_not_request_keyframe() -> Result<(), MediaError> {
    let expired = vec![ExpiredVideoFrame {
        key: VideoFrameKey {
            stream_id: "muninn.raven.av.rudp".to_string(),
            session_id: "session-1".to_string(),
            frame_id: 9,
        },
        deadline_ticks: 28_800,
        missing_video_chunk_keys: vec![video_chunk_feedback_key(9, 1)],
        decode_chain_invalidated: false,
    }];

    let feedback = build_feedback_for_expired_video_frames(
        &expired,
        ExpiredVideoFrameFeedbackOptions {
            receiver_id: "starfire.obs",
            jitter_us: 700,
            decode_queue_us: 2_000,
            observed_at: "2026-06-18T00:00:00Z",
        },
    )?
    .expect("expired damage should produce feedback");

    assert!(!feedback.requested_keyframe);
    Ok(())
}

fn stream_send_config() -> VideoAnnexBStreamSendConfig {
    VideoAnnexBStreamSendConfig {
        stream_id: "muninn.raven.av.rudp".to_string(),
        session_id: "session-1".to_string(),
        codec: "h264".to_string(),
        first_frame_id: 9,
        first_pts_ticks: 27_000,
        frame_duration_ticks: 3_000,
        timebase_num: 1,
        timebase_den: 90_000,
        deadline_delay_ticks: 1_800,
        max_payload_bytes: 16,
        max_pending_bytes: 64,
        source_runtime_id: "muninn-test".to_string(),
        source_role: "media-test".to_string(),
    }
}

fn adts_stream_send_config() -> AudioAdtsStreamSendConfig {
    AudioAdtsStreamSendConfig {
        stream_id: "muninn.raven.av.rudp".to_string(),
        session_id: "session-1".to_string(),
        codec: "aac-adts".to_string(),
        first_packet_id: 12,
        first_pts_ticks: 48_000,
        packet_duration_ticks: 1_024,
        timebase_num: 1,
        timebase_den: 48_000,
        deadline_delay_ticks: 1_024,
        max_pending_bytes: 128,
        source_runtime_id: "muninn-test".to_string(),
        source_role: "media-test".to_string(),
    }
}

fn adts_frame(payload: &[u8]) -> Vec<u8> {
    let frame_length = 7 + payload.len();
    let mut frame = vec![
        0xff,
        0xf1,
        0x4c,
        0x80 | (((frame_length >> 11) & 0x03) as u8),
        ((frame_length >> 3) & 0xff) as u8,
        (((frame_length & 0x07) << 5) as u8) | 0x1f,
        0xfc,
    ];
    frame.extend_from_slice(payload);
    frame
}

#[test]
fn annex_b_stream_send_state_rejects_non_annex_b_codecs() {
    let mut config = stream_send_config();
    config.codec = "av1".to_string();

    let error = match VideoAnnexBStreamSendState::new(config) {
        Ok(_) => panic!("AV1 must not create an Annex B stream sender"),
        Err(error) => error,
    };

    assert!(
        error
            .message()
            .contains("Annex B stream sender requires H.264/AVC or H.265/HEVC codec")
    );
}

#[test]
fn annex_b_stream_send_state_rejects_unbounded_pending_bytes() -> Result<(), MediaError> {
    let mut config = stream_send_config();
    config.max_pending_bytes = 4;
    let mut sender = VideoAnnexBStreamSendState::new(config)?;

    let error = sender
        .push("2026-06-18T00:00:00Z", &[0x47, 0x40, 0x00, 0x10, 0x00])
        .unwrap_err();

    assert!(
        error
            .message()
            .contains("pending buffer exceeded 4 bytes")
    );
    Ok(())
}

#[test]
fn adts_stream_send_state_rejects_wrong_sync() -> Result<(), MediaError> {
    let mut sender = AudioAdtsStreamSendState::new(adts_stream_send_config())?;

    let error = sender
        .push("2026-06-18T00:00:00Z", &[0x47, 0x40, 0x00, 0x10])
        .unwrap_err();

    assert!(
        error
            .message()
            .contains("ADTS frame must start with sync word")
    );
    Ok(())
}

#[test]
fn adts_stream_send_state_rejects_trailing_bytes_on_finish() -> Result<(), MediaError> {
    let mut sender = AudioAdtsStreamSendState::new(adts_stream_send_config())?;

    let push = sender.push("2026-06-18T00:00:00Z", &[0xff])?;
    assert!(push.is_empty());

    let error = sender.finish("2026-06-18T00:00:00Z").unwrap_err();

    assert!(error.message().contains("trailing bytes"));
    Ok(())
}

#[test]
fn adts_stream_send_state_rejects_non_adts_codecs() {
    let mut config = adts_stream_send_config();
    config.codec = "opus".to_string();

    let error = match AudioAdtsStreamSendState::new(config) {
        Ok(_) => panic!("Opus must not create an ADTS stream sender"),
        Err(error) => error,
    };

    assert!(
        error
            .message()
            .contains("ADTS stream sender requires AAC/ADTS codec")
    );
}

#[test]
fn audio_fec_recovers_every_one_and_two_erasure_permutation() -> Result<(), MediaError> {
    let data: [Vec<u8>; 4] = std::array::from_fn(|i| {
        (0..37)
            .map(|b| (b as u8).wrapping_mul(17).wrapping_add(i as u8 * 41))
            .collect()
    });
    let records: Vec<_> = data
        .iter()
        .enumerate()
        .map(|(i, payload)| {
            packetize_audio_packet(
                AudioPacketizeOptions {
                    stream_id: "audio",
                    session_id: "s",
                    codec: "pcm",
                    packet_id: 10 + i as u64,
                    pts_ticks: 480 * i as i64,
                    duration_ticks: 480,
                    timebase_num: 1,
                    timebase_den: 48_000,
                    deadline_ticks: 480 * i as i64 + 2400,
                },
                payload,
            )
        })
        .collect::<Result<_, MediaError>>()?;
    let parity = audio_fec_parity_records(&records)?;
    let all: [Vec<u8>; 6] = std::array::from_fn(|i| {
        if i < 4 {
            data[i].clone()
        } else {
            parity[i - 4].payload.clone()
        }
    });
    for first in 0..6 {
        let mut shards = std::array::from_fn(|i| Some(all[i].clone()));
        shards[first] = None;
        assert_eq!(recover_audio_fec_data(shards)?, data);
        for second in first + 1..6 {
            let mut shards = std::array::from_fn(|i| Some(all[i].clone()));
            shards[first] = None;
            shards[second] = None;
            assert_eq!(
                recover_audio_fec_data(shards)?,
                data,
                "erasures {first},{second}"
            );
        }
    }
    Ok(())
}

#[test]
fn annex_b_stream_send_state_emits_only_completed_frames() -> Result<(), MediaError> {
    let mut first_frame = Vec::new();
    first_frame.extend_from_slice(&start_code());
    first_frame.extend_from_slice(&[0x65, 0x80]);
    let mut second_frame = Vec::new();
    second_frame.extend_from_slice(&start_code());
    second_frame.extend_from_slice(&[0x41, 0x80]);
    let mut sender = VideoAnnexBStreamSendState::new(stream_send_config())?;

    let first_push = sender.push("2026-06-18T00:00:00Z", &first_frame)?;

    assert!(first_push.is_empty());
    assert_eq!(sender.next_frame_id(), 9);
    assert_eq!(sender.pending_bytes(), first_frame.len());

    let second_push = sender.push("2026-06-18T00:00:00Z", &second_frame)?;

    assert_eq!(second_push.len(), 1);
    let MuninnMediaWireRecord::Video(first) = &second_push[0] else {
        panic!("expected video media record");
    };
    assert_eq!(first.frame_id, 9);
    assert_eq!(first.pts_ticks, 27_000);
    assert!(first.keyframe);
    assert_eq!(sender.next_frame_id(), 10);
    assert_eq!(sender.pending_bytes(), second_frame.len());

    let tail = sender.finish("2026-06-18T00:00:00Z")?;

    assert_eq!(tail.len(), 1);
    let MuninnMediaWireRecord::Video(second) = &tail[0] else {
        panic!("expected video media record");
    };
    assert_eq!(second.frame_id, 10);
    assert_eq!(second.pts_ticks, 30_000);
    assert_eq!(second.dependency_frame_id, Some(9));
    assert_eq!(sender.pending_bytes(), 0);
    assert_eq!(sender.next_frame_id(), 11);
    Ok(())
}

#[test]
fn adts_stream_send_state_emits_complete_packets() -> Result<(), MediaError> {
    let first_frame = adts_frame(&[0x11, 0x22, 0x33]);
    let second_frame = adts_frame(&[0x44, 0x55]);
    let mut sender = AudioAdtsStreamSendState::new(adts_stream_send_config())?;

    let first_push = sender.push("2026-06-18T00:00:00Z", &first_frame[..4])?;

    assert!(first_push.is_empty());
    assert_eq!(sender.pending_bytes(), 4);
    assert_eq!(sender.next_packet_id(), 12);

    let mut tail = first_frame[4..].to_vec();
    tail.extend_from_slice(&second_frame);
    let second_push = sender.push("2026-06-18T00:00:00Z", &tail)?;

    assert_eq!(second_push.len(), 2);

    let MuninnMediaWireRecord::Audio(first) = &second_push[0] else {
        panic!("expected audio media record");
    };
    assert_eq!(first.packet_id, 12);
    assert_eq!(first.pts_ticks, 48_000);
    assert_eq!(first.deadline_ticks, 49_024);
    assert_eq!(first.codec, "aac-adts");
    assert_eq!(first.payload, first_frame);

    let MuninnMediaWireRecord::Audio(second) = &second_push[1] else {
        panic!("expected audio media record");
    };
    assert_eq!(second.packet_id, 13);
    assert_eq!(second.pts_ticks, 49_024);
    assert_eq!(second.deadline_ticks, 50_048);
    assert_eq!(second.payload, second_frame);
    assert_eq!(sender.pending_bytes(), 0);
    assert_eq!(sender.next_packet_id(), 14);
    Ok(())
}

#[test]
fn audio_fec_recovery_reports_each_refusal() {
    let none: [Option<Vec<u8>>; 6] = Default::default();
    assert_eq!(recover_audio_fec_data(none).unwrap_err(), MediaError::AudioFec(FecFault::NoShards));

    let uneven = [Some(vec![1, 2]), Some(vec![1]), Some(vec![1, 2]), Some(vec![1, 2]), None, None];
    assert_eq!(recover_audio_fec_data(uneven).unwrap_err(), MediaError::AudioFec(FecFault::ShardSize));

    let empty = [Some(Vec::new()), None, None, None, None, None];
    assert_eq!(recover_audio_fec_data(empty).unwrap_err(), MediaError::AudioFec(FecFault::ShardSize));

    let three_lost = [None, None, None, Some(vec![1]), Some(vec![1]), Some(vec![1])];
    let error = recover_audio_fec_data(three_lost).unwrap_err();
    assert_eq!(error, MediaError::AudioFec(FecFault::TooManyMissing));
    assert!(error.message().contains("cannot recover more than two data shards"));

    let short_parity = [None, None, Some(vec![1]), Some(vec![1]), Some(vec![1]), None];
    assert_eq!(
        recover_audio_fec_data(short_parity).unwrap_err(),
        MediaError::AudioFec(FecFault::InsufficientParity)
    );
}

#[test]
fn audio_fec_solves_a_lost_shard_from_the_weighted_row_alone() -> Result<(), MediaError> {
    let data = [vec![3u8, 200], vec![7, 1], vec![0, 255], vec![128, 64]];
    let mut p1 = vec![0u8; 2];
    for (i, shard) in data.iter().enumerate() {
        for (j, byte) in shard.iter().enumerate() {
            p1[j] ^= gf256_mul(*byte, [1u8, 2, 4, 8][i]);
        }
    }
    let shards = [Some(data[0].clone()), Some(data[1].clone()), None, Some(data[3].clone()), None, Some(p1)];
    assert_eq!(recover_audio_fec_data(shards)?, data);
    Ok(())
}

#[test]
fn wire_records_are_accepted_only_under_their_own_key() -> Result<(), MediaError> {
    let wire = MuninnMediaWireRecord::Audio(audio_packet(12, 48_960));
    let key = wire_record_key(&wire);
    assert_eq!(key, "muninn.raven.av.rudp:session-1:audio:12");
    assert_eq!(accept_wire_record(&key, wire.clone())?, wire);

    let error = accept_wire_record("wrong:key", wire.clone()).unwrap_err();
    assert!(error.message().contains("record key mismatch"));

    let mut invalid = audio_packet(12, 48_960);
    invalid.payload.clear();
    let invalid = MuninnMediaWireRecord::Audio(invalid);
    let error = accept_wire_record(&wire_record_key(&invalid), invalid).unwrap_err();
    assert!(error.message().contains("audio media record payload must be non-empty"));

    let error = media_schema_kind("muninn.media_unknown.v1").unwrap_err();
    assert!(error.message().contains("unsupported Muninn media schema"));

    let document = media_wire_document(&wire, "2026-06-18T00:00:00Z", "muninn-test", "media-test")?;
    assert_eq!(document.record_key, key);
    assert!(media_wire_document(&wire, "", "muninn-test", "media-test").is_err());
    let mut empty = audio_packet(13, 48_960);
    empty.payload.clear();
    let error = media_wire_document(&MuninnMediaWireRecord::Audio(empty), "2026-06-18T00:00:00Z", "muninn-test", "media-test")
        .err()
        .unwrap();
    assert_eq!(error.message(), "audio media record payload must be non-empty");
    Ok(())
}

#[test]
fn chunk_keys_refuse_other_shapes() {
    assert!(ChunkKey::parse("42").is_err());
    assert!(ChunkKey::parse("x:7").is_err());
    assert!(ChunkKey::parse("42:70000").is_err());
    assert_eq!(ChunkKey::parse("0:0").unwrap().as_feedback_key(), "0:0");
}

#[test]
fn media_errors_render_their_texts() {
    assert_eq!(
        MediaError::PendingExceeded(SenderKind::AnnexB, 4096).message(),
        "Annex B stream sender pending buffer exceeded 4096 bytes without a complete frame"
    );
    assert_eq!(
        MediaError::PendingExceeded(SenderKind::Adts, 7).message(),
        "ADTS stream sender pending buffer exceeded 7 bytes without a complete packet"
    );
    assert_eq!(
        MediaError::InvalidRecord(RecordKind::Audio, RecordFault::ChunkIndexOutside(3, 2)).message(),
        "audio media record chunk_index 3 is outside chunk_count 2"
    );
    assert_eq!(
        MediaError::Buffer(BufferFault::Stale(4, 10)).message(),
        "audio packet buffer received stale packet_id 4 before next expected 10"
    );
    assert_eq!(MediaError::EmptyField(MediaField::SessionId).message(), "session_id must be non-empty");
    assert_eq!(
        MediaError::NoStartCodes(CodecName::H265).message(),
        "H.265 Annex B stream has no start codes"
    );
    assert_eq!(
        MediaError::WireKeyMismatch(RecordKind::Feedback, "a".to_string(), "b".to_string()).message(),
        "Muninn receiver feedback record key mismatch: expected a, received b"
    );
    assert_eq!(MediaError::AdtsShortFrame(5, 7).message(), "ADTS frame length 5 is shorter than header length 7");
}

#[test]
fn audio_fec_rejects_mixed_metadata_and_round_trips_parity_wire() -> Result<(), MediaError> {
    let mut records = (0..4u64)
        .map(|i| {
            packetize_audio_packet(
                AudioPacketizeOptions {
                    stream_id: "audio",
                    session_id: "s",
                    codec: "pcm",
                    packet_id: i,
                    pts_ticks: i as i64 * 480,
                    duration_ticks: 480,
                    timebase_num: 1,
                    timebase_den: 48_000,
                    deadline_ticks: 5000,
                },
                &[i as u8; 16],
            )
        })
        .collect::<Result<Vec<_>, _>>()?;
    records[2].codec = "opus".into();
    assert!(audio_fec_parity_records(&records).is_err());
    records[2].codec = "pcm".into();
    let parity = audio_fec_parity_records(&records)?;
    for record in parity {
        let wire = MuninnMediaWireRecord::AudioParity(record.clone());
        let document = media_wire_document(&wire, "now", "muninn", "sender")?;
        assert_eq!(document.record_key, wire_record_key(&wire));
        assert_eq!(
            accept_wire_record(&document.record_key, wire.clone())?,
            MuninnMediaWireRecord::AudioParity(record)
        );
    }
    let mut invalid = audio_fec_parity_records(&records)?[0].clone();
    invalid.data_shard_count = 3;
    assert!(media_wire_document(
        &MuninnMediaWireRecord::AudioParity(invalid),
        "now",
        "muninn",
        "sender"
    )
    .is_err());
    Ok(())
}
