//! Verified core of the native speech-to-text workers: the framed request
//! protocol, the streaming commit engine, the capture resampler and the
//! command-line configuration of the three sidecar processes.
pub mod audio;
pub mod capture;
pub mod commit;
pub mod config;
pub mod frame;
pub mod num;
pub mod offline;
pub mod protocol;
pub mod streaming;
pub mod text;

pub use frame::{read_exact_allow_eof, read_exact_required};
pub use text::{append_committed_delta, normalize_text, normalize_whisper_text, push_text_piece};
