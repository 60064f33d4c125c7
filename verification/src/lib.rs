//! Capture, mixing and chunking engine for multi-source audio recording.
//!
//! Streams append the samples of each source to its buffer ([`buffer`]),
//! the mixer averages the buffers of the active sources ([`mixer`]), the
//! scheduler cuts the stream into chunks of fixed length ([`scheduler`]),
//! the encoder writes each chunk as a WAVE file ([`wav`]), the session
//! manager owns the one active session ([`chunker`]), and the finalizer
//! joins the chunks of a session ([`finalizer`]).
//!
//! Samples are signed PCM integers whose full scale is
//! [`sample::FULL_SCALE`]. The crate holds state and decides; devices and
//! files are the caller's. Functions are verified against the contracts
//! they state. The few calls into other crates and into parts of
//! the standard library without a specification are marked as trusted where
//! they stand, each with what is assumed of it.

pub mod audio;
pub mod buffer;
pub mod capture;
pub mod chunker;
pub mod envfile;
pub mod error;
pub mod finalizer;
pub mod fs;
pub mod idmap;
pub mod layout;
pub mod mixer;
pub mod sample;
pub mod scheduler;
pub mod shell;
pub mod source;
pub mod stream;
pub mod text;
pub mod transcript;
pub mod wav;
pub mod whisper;
