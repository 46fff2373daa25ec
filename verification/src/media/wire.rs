//! The typed media records that travel on the realtime lane.
use vstd::prelude::*;
use crate::documents::{
    AudioPacketView, AudioParityView, FeedbackView, MuninnMediaAudioPacketRecord,
    MuninnMediaAudioParityShardRecord, MuninnMediaReceiverFeedbackRecord,
    MuninnMediaVideoAccessUnitRecord, MuninnMediaVideoParityShardRecord, VideoChunkView,
    VideoParityView,
};
use crate::media::audio::AudioPacketizeOptions;
use crate::media::stream::VideoAnnexBStreamPacketizeOptions;

verus! {

/// Deadline-bound audio and video ride the realtime lane: application-level
/// parity, repair and playout deadlines own recovery there.
pub const MUNINN_MEDIA_RUDP_CHANNEL: &'static str = "realtime";

#[derive(Clone, Debug, PartialEq, Eq)]
pub enum MuninnMediaWireRecord {
    Video(MuninnMediaVideoAccessUnitRecord),
    VideoParity(MuninnMediaVideoParityShardRecord),
    Audio(MuninnMediaAudioPacketRecord),
    AudioParity(MuninnMediaAudioParityShardRecord),
    Feedback(MuninnMediaReceiverFeedbackRecord),
}

pub ghost enum WireView {
    Video(VideoChunkView),
    VideoParity(VideoParityView),
    Audio(AudioPacketView),
    AudioParity(AudioParityView),
    Feedback(FeedbackView),
}

impl View for MuninnMediaWireRecord {
    type V = WireView;

    open spec fn view(&self) -> WireView {
        match self {
            MuninnMediaWireRecord::Video(r) => WireView::Video(r@),
            MuninnMediaWireRecord::VideoParity(r) => WireView::VideoParity(r@),
            MuninnMediaWireRecord::Audio(r) => WireView::Audio(r@),
            MuninnMediaWireRecord::AudioParity(r) => WireView::AudioParity(r@),
            MuninnMediaWireRecord::Feedback(r) => WireView::Feedback(r@),
        }
    }
}

/// One encoded media record bound to the RUDP channel it must use.
#[derive(Clone, Debug, PartialEq, Eq)]
pub struct MuninnMediaSendPayload {
    pub channel_id: &'static str,
    pub payload: Vec<u8>,
}

/// How an Annex B stream is cut into records, and who publishes them.
pub struct VideoAnnexBStreamWireOptions<'a> {
    pub packetize: VideoAnnexBStreamPacketizeOptions<'a>,
    pub stored_at: &'a str,
    pub source_runtime_id: &'a str,
    pub source_role: &'a str,
}

/// How an audio payload is wrapped as a record, and who publishes it.
pub struct AudioPacketWireOptions<'a> {
    pub packetize: AudioPacketizeOptions<'a>,
    pub stored_at: &'a str,
    pub source_runtime_id: &'a str,
    pub source_role: &'a str,
}

} // verus!
