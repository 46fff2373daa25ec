//! Muninn's realtime media layer: Annex B splitting, chunking, parity,
//! reassembly, jitter buffering and receiver feedback.
pub mod error;
pub mod codec;
pub mod bits;
pub mod annexb;
pub mod video;
pub mod chunk_key;
pub mod assembly;
pub mod frame_set;
pub mod gf256;
pub mod wire;
pub mod parity;
pub mod stream;
pub mod audio;
pub mod fec_recovery;
pub mod jitter;
pub mod feedback;
pub mod records;
pub mod sender;
pub mod audio_sender;
