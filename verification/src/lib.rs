//! Core of a voice-transcription pipeline: datagrams carrying compressed
//! audio sub-frames are parsed, collected per speaker until a batch is
//! full, handed to a codec and a recognition engine, and the resulting
//! transcripts are exchanged with the host through a poll-drained queue.
//!
//! The surrounding process owns the socket, the codec and the recognition
//! engine; this crate owns and verifies the wire-format parsing, the
//! per-speaker batching, the failure policies and the transcript queue.
use vstd::prelude::*;

pub mod protocol;
pub mod queue;
pub mod session;
pub mod store;

verus! {

/// Size in bytes of one fixed, zero-padded sub-frame of compressed audio.
pub const SUBFRAME_SIZE: usize = 636;

/// Number of sub-frames a speaker's collection accumulates before the
/// whole batch is flushed to repacketization and decoding.
pub const BATCH_THRESHOLD: usize = 16;

/// Length in bytes of the datagram header holding the speaker session key.
pub const HEADER_SIZE: usize = 8;

/// Size in samples of the buffer one repacketized batch decodes into.
pub const REPACKED_SIZE: usize = SUBFRAME_SIZE * BATCH_THRESHOLD;

/// Sample rate (hertz) the decoder is configured for; decoded audio is mono.
pub const TARGET_SAMPLE_RATE: u32 = 24000;

/// Largest datagram the transport delivers: the header followed by at
/// most one full batch of sub-frames.
pub const MAX_DATAGRAM_LEN: usize = HEADER_SIZE + SUBFRAME_SIZE * BATCH_THRESHOLD;

} // verus!
