//! The general laws of the session manager, stated over the same models
//! that the executable functions' contracts use, and proved once for all
//! inputs.

use vstd::prelude::*;

use crate::registry::ensure_model;
use crate::session::{
    enqueue_model, enqueue_position, fresh_session, repeat_model, skip_model,
    toggle_restart_model, track_end_model, SessionModel,
};
use crate::track::TrackModel;

verus! {

/// A guild never holds more than one session: `ensure_session` files at
/// most one entry under a guild, so a second call for the same guild —
/// whatever channel it names — changes nothing, and the registry grows by
/// exactly that one guild.
pub proof fn lemma_ensure_session_at_most_one(
    m: Map<u64, SessionModel>,
    guild: u64,
    channel_first: u64,
    channel_second: u64,
)
    ensures
        ensure_model(ensure_model(m, guild, channel_first), guild, channel_second) == ensure_model(
            m,
            guild,
            channel_first,
        ),
        ensure_model(m, guild, channel_first).dom() == m.dom().insert(guild),
{
    assert(ensure_model(m, guild, channel_first).dom() =~= m.dom().insert(guild));
}

/// Enqueueing into a session whose queue is empty makes the new track the
/// current track at position 1.
pub proof fn lemma_enqueue_empty_queue(s: SessionModel, t: TrackModel)
    requires
        s.wf(),
        s.queue.len() == 0,
        s.current is None,
    ensures
        enqueue_model(s, t).current == Some(t),
        enqueue_model(s, t).queue.len() == 0,
        enqueue_position(s) == 1,
{
}

/// Toggling the restart mode reports the new stored state, and toggling
/// twice restores the session exactly.
pub proof fn lemma_toggle_restart_round_trip(s: SessionModel)
    ensures
        toggle_restart_model(s).restart_on_end == !s.restart_on_end,
        toggle_restart_model(toggle_restart_model(s)) == s,
{
    assert(toggle_restart_model(toggle_restart_model(s)) =~= s);
}

/// `repeat` touches only the loop flag of the track that is current at
/// call time — queue, current track and restart mode stay as they were —
/// and a subsequent skip leaves the loop flag off for whatever plays
/// next.
pub proof fn lemma_repeat_then_skip(s: SessionModel)
    requires
        s.current is Some,
    ensures
        repeat_model(s).loop_current,
        repeat_model(s).current == s.current,
        repeat_model(s).queue == s.queue,
        repeat_model(s).restart_on_end == s.restart_on_end,
        !skip_model(repeat_model(s)).loop_current,
{
}

/// Enqueues applied in order land in the queue in that order: the queue
/// is first-in first-out, and nothing already queued moves.
pub proof fn lemma_enqueue_fifo(s: SessionModel, first: TrackModel, second: TrackModel)
    requires
        s.current is Some,
    ensures
        enqueue_model(enqueue_model(s, first), second).queue == s.queue.push(first).push(second),
        enqueue_model(enqueue_model(s, first), second).current == s.current,
{
}

/// Every operation takes a well-formed session to a well-formed session:
/// a track never waits in the queue of an idle session.
pub proof fn lemma_operations_preserve_wf(s: SessionModel, t: TrackModel)
    requires
        s.wf(),
    ensures
        enqueue_model(s, t).wf(),
        skip_model(s).wf(),
        repeat_model(s).wf(),
        toggle_restart_model(s).wf(),
        track_end_model(s).wf(),
        fresh_session(s.guild, s.channel).wf(),
{
}

/// A fresh session starts idle with both loop controls off.
pub proof fn lemma_fresh_session_idle(guild: u64, channel: u64)
    ensures
        fresh_session(guild, channel).wf(),
        fresh_session(guild, channel).current is None,
        fresh_session(guild, channel).queue.len() == 0,
        !fresh_session(guild, channel).loop_current,
        !fresh_session(guild, channel).restart_on_end,
{
}

} // verus!
