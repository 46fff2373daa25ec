//! Typed Odin, Idunn, Gjallar and Muninn media records.
use vstd::prelude::*;

verus! {

pub const MUNINN_MEDIA_VIDEO_ACCESS_UNIT_SCHEMA: &'static str = "muninn.media_video_access_unit.v1";

pub const MUNINN_MEDIA_VIDEO_PARITY_SHARD_SCHEMA: &'static str = "muninn.media_video_parity_shard.v2";

pub const MUNINN_MEDIA_AUDIO_PACKET_SCHEMA: &'static str = "muninn.media_audio_packet.v1";

pub const MUNINN_MEDIA_AUDIO_PARITY_SHARD_SCHEMA: &'static str = "muninn.media_audio_parity_shard.v1";

pub const MUNINN_MEDIA_RECEIVER_FEEDBACK_SCHEMA: &'static str = "muninn.media_receiver_feedback.v1";

#[derive(Clone, Debug, PartialEq, Eq)]
pub struct OdinSnapshotRecord {
    pub snapshot_id: String,
    pub observed_at: String,
    pub verse_count: u32,
    pub service_count: u32,
    pub interface_count: u32,
    pub observation_stream_count: u32,
    pub source: String,
}

#[derive(Clone, Debug, PartialEq, Eq)]
pub struct OdinVerseRecord {
    pub verse_id: String,
    pub name: String,
    pub role: String,
    pub status: String,
    pub capabilities: Vec<String>,
    pub observed_at: String,
}

#[derive(Clone, Debug, PartialEq, Eq)]
pub struct OdinServiceRecord {
    pub service_id: String,
    pub verse_id: String,
    pub name: String,
    pub state: String,
    pub detail: String,
    pub authority: String,
    pub observed_at: String,
}

#[derive(Clone, Debug, PartialEq, Eq)]
pub struct OdinInterfaceRecord {
    pub provider_id: String,
    pub title: String,
    pub state: String,
    pub source: String,
    pub version: Option<String>,
    pub updated_at: Option<String>,
    pub observed_at: String,
}

#[derive(Clone, Debug, PartialEq, Eq)]
pub struct OdinObservationStreamRecord {
    pub stream_key: String,
    pub device_id: String,
    pub stream_id: String,
    pub kind: String,
    pub state: String,
    pub detail: String,
    pub owner: String,
    pub observed_at: String,
}

#[derive(Clone, Debug, PartialEq, Eq)]
pub struct OdinTranslationRouteRecord {
    pub route_id: String,
    pub source_schema: String,
    pub target_schema: String,
    pub translation_kind: String,
    pub owner: String,
    pub version: String,
    pub notes: String,
}

#[derive(Clone, Debug, PartialEq, Eq)]
pub struct GjallarAffordanceRecord {
    pub affordance_id: String,
    pub source_record: String,
    pub verse_id: Option<String>,
    pub surface_kind: String,
    pub action: String,
    pub authority: String,
    pub status: String,
    pub provenance: String,
    pub observed_at: String,
}

#[derive(Clone, Debug, PartialEq, Eq)]
pub struct GjallarOverviewRecord {
    pub overview_id: String,
    pub source_snapshot_id: String,
    pub title: String,
    pub status: String,
    pub summary: String,
    pub tile_count: u32,
    pub target_columns: u32,
    pub target_rows: u32,
    pub source_observed_at: String,
    pub composed_at: String,
}

#[derive(Clone, Debug, PartialEq, Eq)]
pub struct GjallarOverviewTileRecord {
    pub tile_id: String,
    pub overview_id: String,
    pub source_record: String,
    pub tile_kind: String,
    pub title: String,
    pub state: String,
    pub detail: String,
    pub priority: i32,
    pub row_span: u32,
    pub column_span: u32,
    pub observed_at: String,
}

#[derive(Clone, Debug, PartialEq, Eq)]
pub struct IdunnDesiredDaemonRecord {
    pub daemon_id: String,
    pub verse_id: String,
    pub name: String,
    pub enabled: bool,
    pub health_command: Option<String>,
    pub restart_command: Option<String>,
    pub authority: String,
    pub max_silence_seconds: u32,
    pub observed_at: String,
    pub deploy_command: Option<String>,
    pub health_contract: String,
    pub transport_profile_id: String,
    pub command_boundary_id: String,
}

#[derive(Clone, Debug, PartialEq, Eq)]
pub struct IdunnDaemonHealthRecord {
    pub daemon_id: String,
    pub state: String,
    pub detail: String,
    pub observed_at: String,
    pub health_contract: String,
    pub publication_source: String,
    pub transport: String,
}

#[derive(Clone, Debug, PartialEq, Eq)]
pub struct IdunnKeepaliveDecisionRecord {
    pub decision_id: String,
    pub daemon_id: String,
    pub action: String,
    pub reason: String,
    pub authority: String,
    pub decided_at: String,
}

#[derive(Clone, Debug, PartialEq, Eq)]
pub struct IdunnRestartRequestRecord {
    pub request_id: String,
    pub daemon_id: String,
    pub command: String,
    pub authority: String,
    pub requested_at: String,
}

#[derive(Clone, Debug, PartialEq, Eq)]
pub struct IdunnDeploymentRequestRecord {
    pub request_id: String,
    pub daemon_id: String,
    pub command: String,
    pub authority: String,
    pub requested_at: String,
    pub repository_full_name: String,
    pub upstream_ref: String,
    pub source_revision: String,
    pub release_authority_id: String,
    pub release_authority_envelope_sha256: String,
    pub requires_bifrost_authority: bool,
}

#[derive(Clone, Debug, PartialEq, Eq)]
pub struct IdunnOperatorAlarmRecord {
    pub alarm_id: String,
    pub daemon_id: String,
    pub severity: String,
    pub reason: String,
    pub escalation_target: String,
    pub raised_at: String,
}

#[derive(Clone, Debug, PartialEq, Eq)]
pub struct IdunnRestartResultRecord {
    pub result_id: String,
    pub request_id: String,
    pub daemon_id: String,
    pub state: String,
    pub detail: String,
    pub completed_at: String,
}

#[derive(Clone, Debug, PartialEq, Eq)]
pub struct IdunnDeploymentResultRecord {
    pub result_id: String,
    pub request_id: String,
    pub daemon_id: String,
    pub state: String,
    pub detail: String,
    pub completed_at: String,
}

#[derive(Clone, Debug, PartialEq, Eq)]
pub struct IdunnLifecycleCommandRecord {
    pub command_id: String,
    pub daemon_id: String,
    pub action: String,
    pub state: String,
    pub requested_by: String,
    pub requested_at: String,
    pub detail: String,
    pub claimed_at: String,
    pub result_id: String,
}

#[derive(Clone, Debug, PartialEq, Eq)]
pub struct IdunnReleaseTargetRecord {
    pub target_id: String,
    pub daemon_id: String,
    pub repo: String,
    pub repo_path: String,
    pub upstream_remote: String,
    pub upstream_branch: String,
    pub desired_revision: String,
    pub deployed_revision: String,
    pub artifact_strategy: String,
    pub rollout_strategy: String,
    pub state_migration_authority: String,
    pub zero_downtime_capability: String,
    pub status: String,
    pub observed_at: String,
}

#[derive(Clone, Debug, PartialEq, Eq)]
pub struct IdunnDeploymentArtifactRecord {
    pub artifact_id: String,
    pub daemon_id: String,
    pub source_revision: String,
    pub source_branch: String,
    pub source_remote: String,
    pub artifact_kind: String,
    pub artifact_uri: String,
    pub sha256: String,
    pub built_at: String,
}

#[derive(Clone, Debug, PartialEq, Eq)]
pub struct IdunnStateMigrationPlanRecord {
    pub plan_id: String,
    pub daemon_id: String,
    pub from_schema_version: String,
    pub to_schema_version: String,
    pub authority: String,
    pub command: String,
    pub strategy: String,
    pub backup_required: bool,
    pub zero_downtime_required: bool,
    pub status: String,
    pub planned_at: String,
}

#[derive(Clone, Debug, PartialEq, Eq)]
pub struct IdunnStateMigrationResultRecord {
    pub result_id: String,
    pub plan_id: String,
    pub daemon_id: String,
    pub state: String,
    pub detail: String,
    pub completed_at: String,
}

#[derive(Clone, Debug, PartialEq, Eq)]
pub struct IdunnRolloutPlanRecord {
    pub plan_id: String,
    pub daemon_id: String,
    pub desired_revision: String,
    pub deployed_revision: String,
    pub strategy: String,
    pub phases: Vec<String>,
    pub migration_plan_id: String,
    pub artifact_id: String,
    pub status: String,
    pub planned_at: String,
}

#[derive(Clone, Debug, PartialEq, Eq)]
pub struct IdunnRolloutResultRecord {
    pub result_id: String,
    pub plan_id: String,
    pub daemon_id: String,
    pub state: String,
    pub detail: String,
    pub completed_at: String,
}

#[derive(Clone, Debug, PartialEq, Eq)]
pub struct IdunnSwarmSurgeryPlanRecord {
    pub plan_id: String,
    pub profile: String,
    pub status: String,
    pub owner: String,
    pub objective: String,
    pub current_mechanism: String,
    pub invariants: Vec<String>,
    pub phases: Vec<String>,
    pub current_phase: String,
    pub next_target: String,
    pub cut_line: String,
    pub verification_layer: String,
    pub updated_at: String,
}

#[derive(Clone, Debug, PartialEq, Eq)]
pub struct IdunnDaemonSurgeryPlanRecord {
    pub plan_id: String,
    pub daemon_id: String,
    pub severity: String,
    pub status: String,
    pub owner: String,
    pub objective: String,
    pub current_mechanism: String,
    pub intended_authority: String,
    pub cut_line: String,
    pub steps: Vec<String>,
    pub blockers: Vec<String>,
    pub updated_at: String,
}

#[derive(Clone, Debug, PartialEq, Eq)]
pub struct IdunnDaemonTransportProfileRecord {
    pub profile_id: String,
    pub daemon_id: String,
    pub target_transport: String,
    pub current_transport: String,
    pub state: String,
    pub health_contract: String,
    pub publication_schema: String,
    pub debug_mechanism: String,
    pub cut_line: String,
    pub observed_at: String,
}

#[derive(Clone, Debug, PartialEq, Eq)]
pub struct IdunnCommandBoundaryRecord {
    pub boundary_id: String,
    pub daemon_id: String,
    pub owner: String,
    pub restart_authority: String,
    pub deploy_authority: String,
    pub health_authority: String,
    pub alarm_authority: String,
    pub command_lowerings: Vec<String>,
    pub forbidden_authority: String,
    pub observed_at: String,
}

#[derive(Clone, Debug, PartialEq, Eq)]
pub struct IdunnRuntimeTransportCheckRecord {
    pub check_id: String,
    pub runtime_id: String,
    pub transport: String,
    pub state: String,
    pub detail: String,
    pub observed_at: String,
}

#[derive(Clone, Debug, PartialEq, Eq)]
pub struct IdunnRudpHealthIngressRecord {
    pub ingress_id: String,
    pub bind_address: String,
    pub transport: String,
    pub accepted_schema: String,
    pub state: String,
    pub detail: String,
    pub observed_at: String,
}

#[derive(Clone, Debug, PartialEq, Eq)]
pub struct MuninnCaptureStreamRecord {
    pub stream_id: String,
    pub host_id: String,
    pub state: String,
    pub video_source: String,
    pub audio_source: String,
    pub transport: String,
    pub targets: Vec<String>,
    pub command_witness: String,
    pub supervisor_pid: Option<u32>,
    pub mux_pid: Option<u32>,
    pub restart_count: u32,
    pub detail: String,
    pub updated_at: String,
}

#[derive(Clone, Debug, PartialEq, Eq)]
pub struct MuninnCaptureStreamCommandRecord {
    pub command_id: String,
    pub host_id: String,
    pub stream_id: String,
    pub state: String,
    pub action: String,
    pub target_host: String,
    pub port: u16,
    pub obs_target_host: Option<String>,
    pub obs_port: u16,
    pub media_transport: String,
    pub media_packet_bytes: u32,
    pub requested_by: String,
    pub detail: String,
    pub updated_at: String,
    pub rudp_video_bitrate_kbps: u32,
    pub rudp_latency_budget_ms: u32,
    pub video_source_id: String,
    pub audio_source_id: String,
}

#[derive(Clone, Debug, PartialEq, Eq)]
pub struct MuninnTelemetrySurfaceRecord {
    pub surface_id: String,
    pub host_id: String,
    pub state: String,
    pub available_sources: Vec<String>,
    pub stream_affordances: Vec<String>,
    pub active_streams: Vec<String>,
    pub activation_authority: String,
    pub detail: String,
    pub updated_at: String,
    pub primary_stream_id: String,
    pub primary_stream_label: String,
    pub command_rudp_target: String,
    pub media_target_host: String,
    pub media_port: u16,
    pub media_packet_bytes: u32,
    pub rudp_video_bitrate_kbps: u32,
    pub rudp_latency_budget_ms: u32,
    pub video_source_ids: Vec<String>,
    pub video_source_labels: Vec<String>,
    pub audio_source_ids: Vec<String>,
    pub audio_source_labels: Vec<String>,
}

#[derive(Clone, Debug, PartialEq, Eq)]
pub struct MuninnObsStreamCatalogRecord {
    pub catalog_id: String,
    pub host_id: String,
    pub stream_ids: Vec<String>,
    pub labels: Vec<String>,
    pub urls: Vec<String>,
    pub states: Vec<String>,
    pub updated_at: String,
    pub command_rudp_target: String,
    pub media_target_host: String,
    pub media_port: u16,
    pub media_packet_bytes: u32,
    pub rudp_video_bitrate_kbps: u32,
    pub rudp_latency_budget_ms: u32,
    pub video_source_ids: Vec<String>,
    pub video_source_labels: Vec<String>,
    pub audio_source_ids: Vec<String>,
    pub audio_source_labels: Vec<String>,
}

#[derive(Clone, Debug, PartialEq, Eq)]
pub struct MuninnMoveIdentityRecord {
    pub identity_id: String,
    pub host_id: String,
    pub move_id: String,
    pub source_path: String,
    pub bluetooth_host_address: String,
    pub state: String,
    pub detail: String,
    pub observed_at: String,
}

#[derive(Clone, Debug, PartialEq, Eq)]
pub struct MuninnMoveLightCommandRecord {
    pub command_id: String,
    pub host_id: String,
    pub move_id: String,
    pub hidraw_path: String,
    pub colors: Vec<String>,
    pub durations_ms: Vec<u32>,
    pub repeat_count: u32,
    pub authority: String,
    pub state: String,
    pub detail: String,
    pub updated_at: String,
}

#[derive(Clone, Debug, PartialEq, Eq)]
pub struct MuninnMoveHueProgramRecord {
    pub program_id: String,
    pub host_id: String,
    pub mode: String,
    pub cycle_ms: u64,
    pub epoch_ns: i64,
    pub hold_at_ns: i64,
    pub requested_by: String,
    pub updated_at: String,
    pub order_mode: String,
}

#[derive(Clone, Debug, PartialEq, Eq)]
pub struct MuninnMoveEvidenceTransportHealthRecord {
}

#[derive(Clone, Debug, PartialEq, Eq)]
pub struct MuninnQuestAccessRecord {
    pub access_id: String,
    pub host_id: String,
    pub serial: String,
    pub connection_state: String,
    pub product: String,
    pub model: String,
    pub device: String,
    pub transport_id: String,
    pub input_stream_id: String,
    pub pose_stream_id: String,
    pub video_input_stream_id: String,
    pub video_input_transport: String,
    pub state: String,
    pub detail: String,
    pub observed_at: String,
}

#[derive(Clone, Debug, PartialEq, Eq)]
pub struct MuninnMediaVideoAccessUnitRecord {
    pub stream_id: String,
    pub session_id: String,
    pub frame_id: u64,
    pub codec: String,
    pub pts_ticks: i64,
    pub duration_ticks: u32,
    pub timebase_num: u32,
    pub timebase_den: u32,
    pub keyframe: bool,
    pub dependency_frame_id: Option<u64>,
    pub deadline_ticks: i64,
    pub chunk_index: u16,
    pub chunk_count: u16,
    pub payload: Vec<u8>,
}

#[derive(Clone, Debug, PartialEq, Eq)]
pub struct MuninnMediaVideoParityShardRecord {
    pub stream_id: String,
    pub session_id: String,
    pub frame_id: u64,
    pub codec: String,
    pub pts_ticks: i64,
    pub duration_ticks: u32,
    pub timebase_num: u32,
    pub timebase_den: u32,
    pub keyframe: bool,
    pub dependency_frame_id: Option<u64>,
    pub deadline_ticks: i64,
    pub chunk_count: u16,
    pub parity_index: u16,
    pub parity_count: u16,
    pub chunk_payload_bytes: u32,
    pub last_chunk_payload_bytes: u32,
    pub payload: Vec<u8>,
}

#[derive(Clone, Debug, PartialEq, Eq)]
pub struct MuninnMediaAudioPacketRecord {
    pub stream_id: String,
    pub session_id: String,
    pub packet_id: u64,
    pub codec: String,
    pub pts_ticks: i64,
    pub duration_ticks: u32,
    pub timebase_num: u32,
    pub timebase_den: u32,
    pub deadline_ticks: i64,
    pub payload: Vec<u8>,
}

#[derive(Clone, Debug, PartialEq, Eq)]
pub struct MuninnMediaAudioParityShardRecord {
    pub stream_id: String,
    pub session_id: String,
    pub base_packet_id: u64,
    pub codec: String,
    pub base_pts_ticks: i64,
    pub packet_duration_ticks: u32,
    pub timebase_num: u32,
    pub timebase_den: u32,
    pub deadline_ticks: i64,
    pub data_shard_count: u16,
    pub parity_index: u16,
    pub parity_shard_count: u16,
    pub shard_payload_bytes: u32,
    pub payload: Vec<u8>,
}

#[derive(Clone, Debug, PartialEq, Eq)]
pub struct MuninnMediaReceiverFeedbackRecord {
    pub stream_id: String,
    pub session_id: String,
    pub receiver_id: String,
    pub highest_decodable_frame_id: Option<u64>,
    pub missing_frame_ids: Vec<u64>,
    pub late_frame_ids: Vec<u64>,
    pub requested_keyframe: bool,
    pub jitter_us: i64,
    pub decode_queue_us: i64,
    pub observed_at: String,
    pub missing_video_chunk_keys: Vec<String>,
}

#[derive(Clone, Debug, Default, PartialEq, Eq)]
pub struct OdinRecords {
    pub snapshot: Option<OdinSnapshotRecord>,
    pub verses: Vec<OdinVerseRecord>,
    pub services: Vec<OdinServiceRecord>,
    pub interfaces: Vec<OdinInterfaceRecord>,
    pub observation_streams: Vec<OdinObservationStreamRecord>,
    pub translation_routes: Vec<OdinTranslationRouteRecord>,
    pub gjallar_affordances: Vec<GjallarAffordanceRecord>,
}

/// Spec-level value of a video access-unit chunk record.
pub ghost struct VideoChunkView {
    pub stream_id: Seq<char>,
    pub session_id: Seq<char>,
    pub frame_id: u64,
    pub codec: Seq<char>,
    pub pts_ticks: i64,
    pub duration_ticks: u32,
    pub timebase_num: u32,
    pub timebase_den: u32,
    pub keyframe: bool,
    pub dependency_frame_id: Option<u64>,
    pub deadline_ticks: i64,
    pub chunk_index: u16,
    pub chunk_count: u16,
    pub payload: Seq<u8>,
}

impl View for MuninnMediaVideoAccessUnitRecord {
    type V = VideoChunkView;

    open spec fn view(&self) -> VideoChunkView {
        VideoChunkView {
            stream_id: self.stream_id@,
            session_id: self.session_id@,
            frame_id: self.frame_id,
            codec: self.codec@,
            pts_ticks: self.pts_ticks,
            duration_ticks: self.duration_ticks,
            timebase_num: self.timebase_num,
            timebase_den: self.timebase_den,
            keyframe: self.keyframe,
            dependency_frame_id: self.dependency_frame_id,
            deadline_ticks: self.deadline_ticks,
            chunk_index: self.chunk_index,
            chunk_count: self.chunk_count,
            payload: self.payload@,
        }
    }
}

/// Spec-level value of a video parity shard record.
pub ghost struct VideoParityView {
    pub stream_id: Seq<char>,
    pub session_id: Seq<char>,
    pub frame_id: u64,
    pub codec: Seq<char>,
    pub pts_ticks: i64,
    pub duration_ticks: u32,
    pub timebase_num: u32,
    pub timebase_den: u32,
    pub keyframe: bool,
    pub dependency_frame_id: Option<u64>,
    pub deadline_ticks: i64,
    pub chunk_count: u16,
    pub parity_index: u16,
    pub parity_count: u16,
    pub chunk_payload_bytes: u32,
    pub last_chunk_payload_bytes: u32,
    pub payload: Seq<u8>,
}

impl View for MuninnMediaVideoParityShardRecord {
    type V = VideoParityView;

    open spec fn view(&self) -> VideoParityView {
        VideoParityView {
            stream_id: self.stream_id@,
            session_id: self.session_id@,
            frame_id: self.frame_id,
            codec: self.codec@,
            pts_ticks: self.pts_ticks,
            duration_ticks: self.duration_ticks,
            timebase_num: self.timebase_num,
            timebase_den: self.timebase_den,
            keyframe: self.keyframe,
            dependency_frame_id: self.dependency_frame_id,
            deadline_ticks: self.deadline_ticks,
            chunk_count: self.chunk_count,
            parity_index: self.parity_index,
            parity_count: self.parity_count,
            chunk_payload_bytes: self.chunk_payload_bytes,
            last_chunk_payload_bytes: self.last_chunk_payload_bytes,
            payload: self.payload@,
        }
    }
}

/// Spec-level value of an audio packet record.
pub ghost struct AudioPacketView {
    pub stream_id: Seq<char>,
    pub session_id: Seq<char>,
    pub packet_id: u64,
    pub codec: Seq<char>,
    pub pts_ticks: i64,
    pub duration_ticks: u32,
    pub timebase_num: u32,
    pub timebase_den: u32,
    pub deadline_ticks: i64,
    pub payload: Seq<u8>,
}

impl View for MuninnMediaAudioPacketRecord {
    type V = AudioPacketView;

    open spec fn view(&self) -> AudioPacketView {
        AudioPacketView {
            stream_id: self.stream_id@,
            session_id: self.session_id@,
            packet_id: self.packet_id,
            codec: self.codec@,
            pts_ticks: self.pts_ticks,
            duration_ticks: self.duration_ticks,
            timebase_num: self.timebase_num,
            timebase_den: self.timebase_den,
            deadline_ticks: self.deadline_ticks,
            payload: self.payload@,
        }
    }
}

/// Spec-level value of an audio parity shard record.
pub ghost struct AudioParityView {
    pub stream_id: Seq<char>,
    pub session_id: Seq<char>,
    pub base_packet_id: u64,
    pub codec: Seq<char>,
    pub base_pts_ticks: i64,
    pub packet_duration_ticks: u32,
    pub timebase_num: u32,
    pub timebase_den: u32,
    pub deadline_ticks: i64,
    pub data_shard_count: u16,
    pub parity_index: u16,
    pub parity_shard_count: u16,
    pub shard_payload_bytes: u32,
    pub payload: Seq<u8>,
}

impl View for MuninnMediaAudioParityShardRecord {
    type V = AudioParityView;

    open spec fn view(&self) -> AudioParityView {
        AudioParityView {
            stream_id: self.stream_id@,
            session_id: self.session_id@,
            base_packet_id: self.base_packet_id,
            codec: self.codec@,
            base_pts_ticks: self.base_pts_ticks,
            packet_duration_ticks: self.packet_duration_ticks,
            timebase_num: self.timebase_num,
            timebase_den: self.timebase_den,
            deadline_ticks: self.deadline_ticks,
            data_shard_count: self.data_shard_count,
            parity_index: self.parity_index,
            parity_shard_count: self.parity_shard_count,
            shard_payload_bytes: self.shard_payload_bytes,
            payload: self.payload@,
        }
    }
}

/// Spec-level value of a receiver feedback record.
pub ghost struct FeedbackView {
    pub stream_id: Seq<char>,
    pub session_id: Seq<char>,
    pub receiver_id: Seq<char>,
    pub highest_decodable_frame_id: Option<u64>,
    pub missing_frame_ids: Seq<u64>,
    pub late_frame_ids: Seq<u64>,
    pub requested_keyframe: bool,
    pub jitter_us: i64,
    pub decode_queue_us: i64,
    pub observed_at: Seq<char>,
    pub missing_video_chunk_keys: Seq<Seq<char>>,
}

impl View for MuninnMediaReceiverFeedbackRecord {
    type V = FeedbackView;

    open spec fn view(&self) -> FeedbackView {
        FeedbackView {
            stream_id: self.stream_id@,
            session_id: self.session_id@,
            receiver_id: self.receiver_id@,
            highest_decodable_frame_id: self.highest_decodable_frame_id,
            missing_frame_ids: self.missing_frame_ids@,
            late_frame_ids: self.late_frame_ids@,
            requested_keyframe: self.requested_keyframe,
            jitter_us: self.jitter_us,
            decode_queue_us: self.decode_queue_us,
            observed_at: self.observed_at@,
            missing_video_chunk_keys: self.missing_video_chunk_keys@.map_values(|k: String| k@),
        }
    }
}

/// A copy of a byte vector with the same contents.
pub fn copy_bytes(v: &Vec<u8>) -> (r: Vec<u8>)
    ensures
        r@ == v@,
{
    let r = v.clone();
    assert(r@ =~= v@);
    r
}

/// A copy of a string with the same contents.
pub fn copy_string(s: &String) -> (r: String)
    ensures
        r@ == s@,
{
    s.clone()
}

impl MuninnMediaVideoAccessUnitRecord {
    /// A field-for-field copy.
    pub fn duplicate(&self) -> (r: Self)
        ensures
            r@ == self@,
    {
        MuninnMediaVideoAccessUnitRecord {
            stream_id: copy_string(&self.stream_id),
            session_id: copy_string(&self.session_id),
            frame_id: self.frame_id,
            codec: copy_string(&self.codec),
            pts_ticks: self.pts_ticks,
            duration_ticks: self.duration_ticks,
            timebase_num: self.timebase_num,
            timebase_den: self.timebase_den,
            keyframe: self.keyframe,
            dependency_frame_id: self.dependency_frame_id,
            deadline_ticks: self.deadline_ticks,
            chunk_index: self.chunk_index,
            chunk_count: self.chunk_count,
            payload: copy_bytes(&self.payload),
        }
    }
}

impl MuninnMediaVideoParityShardRecord {
    /// A field-for-field copy.
    pub fn duplicate(&self) -> (r: Self)
        ensures
            r@ == self@,
    {
        MuninnMediaVideoParityShardRecord {
            stream_id: copy_string(&self.stream_id),
            session_id: copy_string(&self.session_id),
            frame_id: self.frame_id,
            codec: copy_string(&self.codec),
            pts_ticks: self.pts_ticks,
            duration_ticks: self.duration_ticks,
            timebase_num: self.timebase_num,
            timebase_den: self.timebase_den,
            keyframe: self.keyframe,
            dependency_frame_id: self.dependency_frame_id,
            deadline_ticks: self.deadline_ticks,
            chunk_count: self.chunk_count,
            parity_index: self.parity_index,
            parity_count: self.parity_count,
            chunk_payload_bytes: self.chunk_payload_bytes,
            last_chunk_payload_bytes: self.last_chunk_payload_bytes,
            payload: copy_bytes(&self.payload),
        }
    }
}

impl MuninnMediaAudioPacketRecord {
    /// A field-for-field copy.
    pub fn duplicate(&self) -> (r: Self)
        ensures
            r@ == self@,
    {
        MuninnMediaAudioPacketRecord {
            stream_id: copy_string(&self.stream_id),
            session_id: copy_string(&self.session_id),
            packet_id: self.packet_id,
            codec: copy_string(&self.codec),
            pts_ticks: self.pts_ticks,
            duration_ticks: self.duration_ticks,
            timebase_num: self.timebase_num,
            timebase_den: self.timebase_den,
            deadline_ticks: self.deadline_ticks,
            payload: copy_bytes(&self.payload),
        }
    }
}

impl MuninnMediaAudioParityShardRecord {
    /// A field-for-field copy.
    pub fn duplicate(&self) -> (r: Self)
        ensures
            r@ == self@,
    {
        MuninnMediaAudioParityShardRecord {
            stream_id: copy_string(&self.stream_id),
            session_id: copy_string(&self.session_id),
            base_packet_id: self.base_packet_id,
            codec: copy_string(&self.codec),
            base_pts_ticks: self.base_pts_ticks,
            packet_duration_ticks: self.packet_duration_ticks,
            timebase_num: self.timebase_num,
            timebase_den: self.timebase_den,
            deadline_ticks: self.deadline_ticks,
            data_shard_count: self.data_shard_count,
            parity_index: self.parity_index,
            parity_shard_count: self.parity_shard_count,
            shard_payload_bytes: self.shard_payload_bytes,
            payload: copy_bytes(&self.payload),
        }
    }
}


/// The contents of an optional string.
pub open spec fn opt_view(o: Option<String>) -> Option<Seq<char>> {
    match o {
        Some(s) => Some(s@),
        None => None,
    }
}

/// The contents of a list of strings.
pub open spec fn strings_view(v: Vec<String>) -> Seq<Seq<char>> {
    v@.map_values(|s: String| s@)
}

/// A copy of an optional string.
pub fn copy_opt_string(o: &Option<String>) -> (r: Option<String>)
    ensures
        opt_view(r) == opt_view(*o),
{
    match o {
        Some(s) => Some(copy_string(s)),
        None => None,
    }
}

/// A copy of a list of strings.
pub fn copy_strings(v: &Vec<String>) -> (r: Vec<String>)
    ensures
        strings_view(r) == strings_view(*v),
{
    let mut out: Vec<String> = Vec::new();
    let mut i: usize = 0;
    while i < v.len()
        invariant
            i <= v@.len(),
            out@.map_values(|s: String| s@) == v@.subrange(0, i as int).map_values(|s: String| s@),
        decreases v@.len() - i,
    {
        let ghost before = out@;
        let c = copy_string(&v[i]);
        out.push(c);
        i = i + 1;
        assert(out@.map_values(|s: String| s@) =~= v@.subrange(0, i as int).map_values(|s: String| s@)) by {
            assert(out@.map_values(|s: String| s@) =~= before.map_values(|s: String| s@).push(c@));
            assert(v@.subrange(0, i as int).map_values(|s: String| s@) =~= v@.subrange(0, i - 1).map_values(
                |s: String| s@,
            ).push(v@[i - 1]@));
        }
    }
    assert(v@.subrange(0, i as int) =~= v@);
    out
}

impl OdinSnapshotRecord {
    /// The same contents, field by field.
    pub open spec fn same_as(&self, other: &Self) -> bool {
        &&& self.snapshot_id@ == other.snapshot_id@
        &&& self.observed_at@ == other.observed_at@
        &&& self.verse_count == other.verse_count
        &&& self.service_count == other.service_count
        &&& self.interface_count == other.interface_count
        &&& self.observation_stream_count == other.observation_stream_count
        &&& self.source@ == other.source@
    }

    /// A field-for-field copy.
    pub fn duplicate(&self) -> (r: Self)
        ensures
            r.same_as(self),
    {
        OdinSnapshotRecord {
            snapshot_id: copy_string(&self.snapshot_id),
            observed_at: copy_string(&self.observed_at),
            verse_count: self.verse_count,
            service_count: self.service_count,
            interface_count: self.interface_count,
            observation_stream_count: self.observation_stream_count,
            source: copy_string(&self.source),
        }
    }
}

impl OdinVerseRecord {
    /// The same contents, field by field.
    pub open spec fn same_as(&self, other: &Self) -> bool {
        &&& self.verse_id@ == other.verse_id@
        &&& self.name@ == other.name@
        &&& self.role@ == other.role@
        &&& self.status@ == other.status@
        &&& strings_view(self.capabilities) == strings_view(other.capabilities)
        &&& self.observed_at@ == other.observed_at@
    }

    /// A field-for-field copy.
    pub fn duplicate(&self) -> (r: Self)
        ensures
            r.same_as(self),
    {
        OdinVerseRecord {
            verse_id: copy_string(&self.verse_id),
            name: copy_string(&self.name),
            role: copy_string(&self.role),
            status: copy_string(&self.status),
            capabilities: copy_strings(&self.capabilities),
            observed_at: copy_string(&self.observed_at),
        }
    }
}

impl OdinServiceRecord {
    /// The same contents, field by field.
    pub open spec fn same_as(&self, other: &Self) -> bool {
        &&& self.service_id@ == other.service_id@
        &&& self.verse_id@ == other.verse_id@
        &&& self.name@ == other.name@
        &&& self.state@ == other.state@
        &&& self.detail@ == other.detail@
        &&& self.authority@ == other.authority@
        &&& self.observed_at@ == other.observed_at@
    }

    /// A field-for-field copy.
    pub fn duplicate(&self) -> (r: Self)
        ensures
            r.same_as(self),
    {
        OdinServiceRecord {
            service_id: copy_string(&self.service_id),
            verse_id: copy_string(&self.verse_id),
            name: copy_string(&self.name),
            state: copy_string(&self.state),
            detail: copy_string(&self.detail),
            authority: copy_string(&self.authority),
            observed_at: copy_string(&self.observed_at),
        }
    }
}

impl OdinInterfaceRecord {
    /// The same contents, field by field.
    pub open spec fn same_as(&self, other: &Self) -> bool {
        &&& self.provider_id@ == other.provider_id@
        &&& self.title@ == other.title@
        &&& self.state@ == other.state@
        &&& self.source@ == other.source@
        &&& opt_view(self.version) == opt_view(other.version)
        &&& opt_view(self.updated_at) == opt_view(other.updated_at)
        &&& self.observed_at@ == other.observed_at@
    }

    /// A field-for-field copy.
    pub fn duplicate(&self) -> (r: Self)
        ensures
            r.same_as(self),
    {
        OdinInterfaceRecord {
            provider_id: copy_string(&self.provider_id),
            title: copy_string(&self.title),
            state: copy_string(&self.state),
            source: copy_string(&self.source),
            version: copy_opt_string(&self.version),
            updated_at: copy_opt_string(&self.updated_at),
            observed_at: copy_string(&self.observed_at),
        }
    }
}

impl OdinObservationStreamRecord {
    /// The same contents, field by field.
    pub open spec fn same_as(&self, other: &Self) -> bool {
        &&& self.stream_key@ == other.stream_key@
        &&& self.device_id@ == other.device_id@
        &&& self.stream_id@ == other.stream_id@
        &&& self.kind@ == other.kind@
        &&& self.state@ == other.state@
        &&& self.detail@ == other.detail@
        &&& self.owner@ == other.owner@
        &&& self.observed_at@ == other.observed_at@
    }

    /// A field-for-field copy.
    pub fn duplicate(&self) -> (r: Self)
        ensures
            r.same_as(self),
    {
        OdinObservationStreamRecord {
            stream_key: copy_string(&self.stream_key),
            device_id: copy_string(&self.device_id),
            stream_id: copy_string(&self.stream_id),
            kind: copy_string(&self.kind),
            state: copy_string(&self.state),
            detail: copy_string(&self.detail),
            owner: copy_string(&self.owner),
            observed_at: copy_string(&self.observed_at),
        }
    }
}

impl OdinTranslationRouteRecord {
    /// The same contents, field by field.
    pub open spec fn same_as(&self, other: &Self) -> bool {
        &&& self.route_id@ == other.route_id@
        &&& self.source_schema@ == other.source_schema@
        &&& self.target_schema@ == other.target_schema@
        &&& self.translation_kind@ == other.translation_kind@
        &&& self.owner@ == other.owner@
        &&& self.version@ == other.version@
        &&& self.notes@ == other.notes@
    }

    /// A field-for-field copy.
    pub fn duplicate(&self) -> (r: Self)
        ensures
            r.same_as(self),
    {
        OdinTranslationRouteRecord {
            route_id: copy_string(&self.route_id),
            source_schema: copy_string(&self.source_schema),
            target_schema: copy_string(&self.target_schema),
            translation_kind: copy_string(&self.translation_kind),
            owner: copy_string(&self.owner),
            version: copy_string(&self.version),
            notes: copy_string(&self.notes),
        }
    }
}

impl GjallarAffordanceRecord {
    /// The same contents, field by field.
    pub open spec fn same_as(&self, other: &Self) -> bool {
        &&& self.affordance_id@ == other.affordance_id@
        &&& self.source_record@ == other.source_record@
        &&& opt_view(self.verse_id) == opt_view(other.verse_id)
        &&& self.surface_kind@ == other.surface_kind@
        &&& self.action@ == other.action@
        &&& self.authority@ == other.authority@
        &&& self.status@ == other.status@
        &&& self.provenance@ == other.provenance@
        &&& self.observed_at@ == other.observed_at@
    }

    /// A field-for-field copy.
    pub fn duplicate(&self) -> (r: Self)
        ensures
            r.same_as(self),
    {
        GjallarAffordanceRecord {
            affordance_id: copy_string(&self.affordance_id),
            source_record: copy_string(&self.source_record),
            verse_id: copy_opt_string(&self.verse_id),
            surface_kind: copy_string(&self.surface_kind),
            action: copy_string(&self.action),
            authority: copy_string(&self.authority),
            status: copy_string(&self.status),
            provenance: copy_string(&self.provenance),
            observed_at: copy_string(&self.observed_at),
        }
    }
}

impl OdinRecords {
    /// The same records, list by list and in the same order.
    pub open spec fn same_as(&self, other: &Self) -> bool {
        &&& match (self.snapshot, other.snapshot) {
            (Some(a), Some(b)) => a.same_as(&b),
            (None, None) => true,
            _ => false,
        }
        &&& self.verses@.len() == other.verses@.len()
        &&& forall|i: int| 0 <= i < self.verses@.len() ==> (#[trigger] self.verses@[i]).same_as(&other.verses@[i])
        &&& self.services@.len() == other.services@.len()
        &&& forall|i: int| 0 <= i < self.services@.len() ==> (#[trigger] self.services@[i]).same_as(&other.services@[i])
        &&& self.interfaces@.len() == other.interfaces@.len()
        &&& forall|i: int| 0 <= i < self.interfaces@.len() ==> (#[trigger] self.interfaces@[i]).same_as(&other.interfaces@[i])
        &&& self.observation_streams@.len() == other.observation_streams@.len()
        &&& forall|i: int| 0 <= i < self.observation_streams@.len() ==> (#[trigger] self.observation_streams@[i]).same_as(&other.observation_streams@[i])
        &&& self.translation_routes@.len() == other.translation_routes@.len()
        &&& forall|i: int| 0 <= i < self.translation_routes@.len() ==> (#[trigger] self.translation_routes@[i]).same_as(&other.translation_routes@[i])
        &&& self.gjallar_affordances@.len() == other.gjallar_affordances@.len()
        &&& forall|i: int| 0 <= i < self.gjallar_affordances@.len() ==> (#[trigger] self.gjallar_affordances@[i]).same_as(&other.gjallar_affordances@[i])
    }

    /// A record-for-record copy.
    pub fn duplicate(&self) -> (r: Self)
        ensures
            r.same_as(self),
    {
        let snapshot = match &self.snapshot {
            Some(s) => Some(s.duplicate()),
            None => None,
        };
        let mut verses: Vec<OdinVerseRecord> = Vec::new();
        for k in 0..self.verses.len()
            invariant
                verses@.len() == k,
                forall|i: int| 0 <= i < k ==> (#[trigger] verses@[i]).same_as(&self.verses@[i]),
        {
            verses.push(self.verses[k].duplicate());
        }
        let mut services: Vec<OdinServiceRecord> = Vec::new();
        for k in 0..self.services.len()
            invariant
                services@.len() == k,
                forall|i: int| 0 <= i < k ==> (#[trigger] services@[i]).same_as(&self.services@[i]),
        {
            services.push(self.services[k].duplicate());
        }
        let mut interfaces: Vec<OdinInterfaceRecord> = Vec::new();
        for k in 0..self.interfaces.len()
            invariant
                interfaces@.len() == k,
                forall|i: int| 0 <= i < k ==> (#[trigger] interfaces@[i]).same_as(&self.interfaces@[i]),
        {
            interfaces.push(self.interfaces[k].duplicate());
        }
        let mut observation_streams: Vec<OdinObservationStreamRecord> = Vec::new();
        for k in 0..self.observation_streams.len()
            invariant
                observation_streams@.len() == k,
                forall|i: int| 0 <= i < k ==> (#[trigger] observation_streams@[i]).same_as(&self.observation_streams@[i]),
        {
            observation_streams.push(self.observation_streams[k].duplicate());
        }
        let mut translation_routes: Vec<OdinTranslationRouteRecord> = Vec::new();
        for k in 0..self.translation_routes.len()
            invariant
                translation_routes@.len() == k,
                forall|i: int| 0 <= i < k ==> (#[trigger] translation_routes@[i]).same_as(&self.translation_routes@[i]),
        {
            translation_routes.push(self.translation_routes[k].duplicate());
        }
        let mut gjallar_affordances: Vec<GjallarAffordanceRecord> = Vec::new();
        for k in 0..self.gjallar_affordances.len()
            invariant
                gjallar_affordances@.len() == k,
                forall|i: int| 0 <= i < k ==> (#[trigger] gjallar_affordances@[i]).same_as(&self.gjallar_affordances@[i]),
        {
            gjallar_affordances.push(self.gjallar_affordances[k].duplicate());
        }
        OdinRecords {
            snapshot,
            verses,
            services,
            interfaces,
            observation_streams,
            translation_routes,
            gjallar_affordances,
        }
    }
}

} // verus!
