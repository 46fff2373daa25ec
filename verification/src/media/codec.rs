//! Codec names as they appear in stream configurations.
use vstd::prelude::*;
use crate::text::{lower_seq, spells, trim, trimmed_lowercase};

verus! {

#[derive(Clone, Copy, Debug, PartialEq, Eq, Structural)]
pub enum VideoCodec {
    H264,
    H265,
    Av1,
}

/// The canonical video codec behind a configured name, after trimming and
/// ASCII lowercasing, or `None` for a name this layer does not know.
pub open spec fn normalized_codec_spec(name: Seq<char>) -> Option<VideoCodec> {
    let t = lower_seq(trim(name));
    if t == "h264"@ || t == "h.264"@ || t == "avc"@ || t == "avc1"@ || t == "video/avc"@ {
        Some(VideoCodec::H264)
    } else if t == "h265"@ || t == "h.265"@ || t == "hevc"@ || t == "hev1"@ || t == "hvc1"@
        || t == "video/hevc"@ {
        Some(VideoCodec::H265)
    } else if t == "av1"@ || t == "av01"@ || t == "video/av1"@ {
        Some(VideoCodec::Av1)
    } else {
        None
    }
}

/// Whether a configured name is one of the AAC/ADTS aliases.
pub open spec fn is_adts_codec_spec(name: Seq<char>) -> bool {
    let t = lower_seq(trim(name));
    t == "aac"@ || t == "aac-adts"@ || t == "adts"@ || t == "audio/aac"@
}


/// The canonical codec behind a configured name.
pub fn normalized_video_codec(codec: &str) -> (r: Option<VideoCodec>)
    ensures
        r == normalized_codec_spec(codec@),
{
    let t = trimmed_lowercase(codec);
    let s = t.as_slice();
    if spells(s, "h264") || spells(s, "h.264") || spells(s, "avc") || spells(s, "avc1") || spells(
        s,
        "video/avc",
    ) {
        Some(VideoCodec::H264)
    } else if spells(s, "h265") || spells(s, "h.265") || spells(s, "hevc") || spells(s, "hev1")
        || spells(s, "hvc1") || spells(s, "video/hevc") {
        Some(VideoCodec::H265)
    } else if spells(s, "av1") || spells(s, "av01") || spells(s, "video/av1") {
        Some(VideoCodec::Av1)
    } else {
        None
    }
}

/// Whether a configured audio codec name is AAC carried in ADTS.
pub fn is_adts_codec(codec: &str) -> (r: bool)
    ensures
        r == is_adts_codec_spec(codec@),
{
    let t = trimmed_lowercase(codec);
    let s = t.as_slice();
    spells(s, "aac") || spells(s, "aac-adts") || spells(s, "adts") || spells(s, "audio/aac")
}

} // verus!
