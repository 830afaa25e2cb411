//! A fragmented-MP4 muxer for H.264 video and AAC audio, with its
//! H.264 input helpers and recording bookkeeping types.
pub mod boxes;
pub mod chunk;
pub mod config;
pub mod init_segment;
pub mod media_segment;
pub mod muxer;
pub mod muxide;
pub mod nal;
pub mod session;

pub use chunk::{ChunkId, ChunkMetadata};
pub use config::MuxideConfig;
pub use init_segment::build_audio_specific_config;
pub use muxer::{MuxerConfig, MuxerState};
pub use muxide::MuxideMuxerState;
pub use nal::{annex_b_to_avcc, extract_sps_pps_from_avcc};
pub use session::{SessionId, SessionState};
