//! Per-guild voice session management for a chat-platform audio bot.
//!
//! Each guild (independent community) owns at most one live voice session:
//! a binding between a voice channel, an ordered playback queue, and the
//! loop/restart flags that govern what happens when a track finishes.
//! This crate holds the session state and every rule that decides how it
//! changes; the chat gateway, the audio engine and the source resolver are
//! outside collaborators that the embedding program drives, handing plain
//! values in and carrying the decided actions out.

pub mod errors;
pub mod laws;
pub mod presence;
pub mod registry;
pub mod resolve;
pub mod session;
pub mod track;

pub use errors::VoiceError;
