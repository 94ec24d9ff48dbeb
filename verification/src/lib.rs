//! Core of a three-process voice-conversation pipeline: the framed wire
//! protocol shared by client, server and orchestrator, the server-side
//! session router, the sentence-level speech pipeline, the client's
//! streaming resampler and playback buffer, and the interaction state
//! machines that tie them together.

pub mod client;
pub mod feedback;
pub mod llm;
pub mod playback;
pub mod protocol;
pub mod resampler;
pub mod router;
pub mod sentences;
pub mod text;
pub mod voice;
