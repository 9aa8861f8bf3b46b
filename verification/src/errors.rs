//! The error taxonomy for user-triggered voice commands.

use vstd::prelude::*;

verus! {

/// Why a voice command could not be carried out.
///
/// All of these are user-facing and answered with a short chat reply by the
/// embedding program; none of them is fatal and none is retried
/// automatically.
#[derive(Clone, Copy, Debug, PartialEq, Eq, Structural)]
pub enum VoiceError {
    /// The command invoker is not a member of any voice channel.
    NotInVoiceChannel,
    /// The command targets a guild that has no live session.
    NoActiveSession,
    /// The audio engine could not connect to the requested channel.
    JoinFailed,
    /// The source resolver could not produce a playable source.
    ResolutionFailed,
    /// The track-end hook could not toggle loop state on the engine.
    /// Never produced by the session logic itself: the embedding maps an
    /// engine-side refusal to this value, logs it, and otherwise ignores it.
    HookFailure,
}

} // verus!
