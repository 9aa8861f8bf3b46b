//! One guild's live voice session: the playback queue, the currently
//! playing track, and the loop/restart flags, together with the exact
//! rules for how each operation changes them.

use vstd::prelude::*;

use crate::track::{Track, TrackModel};

verus! {

/// The mathematical value of a [`VoiceSession`].
///
/// `queue` holds only the tracks still waiting; the playing track sits in
/// `current`. `loop_current` belongs to the track that is current right
/// now and is cleared whenever the session advances past it;
/// `restart_on_end` is the persistent per-session mode that the track-end
/// hook consults.
#[verifier::ext_equal]
pub ghost struct SessionModel {
    pub guild: u64,
    pub channel: u64,
    pub queue: Seq<TrackModel>,
    pub current: Option<TrackModel>,
    pub loop_current: bool,
    pub restart_on_end: bool,
}

impl SessionModel {
    /// Tracks wait in the queue only while one is playing: whenever
    /// nothing is current, the queue is empty. Every operation preserves
    /// this.
    pub open spec fn wf(self) -> bool {
        self.current is None ==> self.queue.len() == 0
    }
}

/// The session a fresh join creates: empty queue, nothing playing, both
/// loop controls off.
pub open spec fn fresh_session(guild: u64, channel: u64) -> SessionModel {
    SessionModel {
        guild,
        channel,
        queue: Seq::empty(),
        current: None,
        loop_current: false,
        restart_on_end: false,
    }
}

/// How `enqueue` changes a session: on an idle session the track starts
/// playing at once; otherwise it joins the queue tail.
pub open spec fn enqueue_model(s: SessionModel, t: TrackModel) -> SessionModel {
    if s.current is None {
        SessionModel { current: Some(t), ..s }
    } else {
        SessionModel { queue: s.queue.push(t), ..s }
    }
}

/// The 1-based position `enqueue` reports for the newly added track,
/// counting the current track as position 1.
pub open spec fn enqueue_position(s: SessionModel) -> int {
    if s.current is None {
        1
    } else {
        s.queue.len() + 2int
    }
}

/// Moving past the current track: the head of the queue starts playing,
/// or the session falls idle when none remains.
pub open spec fn advance_model(s: SessionModel) -> SessionModel {
    if s.queue.len() > 0 {
        SessionModel { current: Some(s.queue[0]), queue: s.queue.drop_first(), ..s }
    } else {
        SessionModel { current: None, ..s }
    }
}

/// How `skip` changes a session: it advances, and looping never follows a
/// skipped track onto the next one.
pub open spec fn skip_model(s: SessionModel) -> SessionModel {
    SessionModel { loop_current: false, ..advance_model(s) }
}

/// How `repeat` changes a session: the loop flag is set only when a track
/// is current; an idle session is left untouched.
pub open spec fn repeat_model(s: SessionModel) -> SessionModel {
    if s.current is Some {
        SessionModel { loop_current: true, ..s }
    } else {
        s
    }
}

/// How `toggle_restart` changes a session: the persistent restart mode
/// flips and nothing else moves.
pub open spec fn toggle_restart_model(s: SessionModel) -> SessionModel {
    SessionModel { restart_on_end: !s.restart_on_end, ..s }
}

/// How a natural track completion changes a session. A looping track
/// replays, so the session does not advance; otherwise the next queued
/// track becomes current. The restart mode then decides the loop flag for
/// whichever track is now current: on when the mode is set and a track is
/// there, off otherwise.
pub open spec fn track_end_model(s: SessionModel) -> SessionModel {
    let adv = if s.loop_current {
        s
    } else {
        advance_model(s)
    };
    SessionModel { loop_current: s.restart_on_end && adv.current is Some, ..adv }
}

/// What the track-end hook decided, handed back to the embedding so it
/// can mirror the loop flag onto the audio engine.
#[derive(Clone, Copy, Debug, PartialEq, Eq, Structural)]
pub enum TrackEndOutcome {
    /// The event belonged to no live session (it arrived after teardown)
    /// and was dropped without effect.
    Discarded,
    /// A track is current and the engine should loop it.
    LoopEnabled,
    /// A track is current and the engine should not loop it.
    LoopDisabled,
    /// The queue is drained; the session is idle.
    Ended,
}

/// The outcome [`track_end_model`] implies for a session the event did
/// reach.
pub open spec fn track_end_outcome(s: SessionModel) -> TrackEndOutcome {
    let after = track_end_model(s);
    if after.current is None {
        TrackEndOutcome::Ended
    } else if after.loop_current {
        TrackEndOutcome::LoopEnabled
    } else {
        TrackEndOutcome::LoopDisabled
    }
}

/// One guild's live session. Created by the registry on a successful
/// join and destroyed on leave or presence-triggered teardown; all
/// mutation goes through the methods here.
pub struct VoiceSession {
    guild_id: u64,
    channel_id: u64,
    queue: Vec<Track>,
    current: Option<Track>,
    loop_current: bool,
    restart_on_end: bool,
}

impl View for VoiceSession {
    type V = SessionModel;

    closed spec fn view(&self) -> SessionModel {
        SessionModel {
            guild: self.guild_id,
            channel: self.channel_id,
            queue: self.queue@.map_values(|t: Track| t@),
            current: match self.current {
                Some(t) => Some(t@),
                None => None,
            },
            loop_current: self.loop_current,
            restart_on_end: self.restart_on_end,
        }
    }
}

impl VoiceSession {
    /// Binds a fresh session to a guild and the voice channel the engine
    /// just joined.
    pub fn new(guild_id: u64, channel_id: u64) -> (s: VoiceSession)
        ensures
            s@ == fresh_session(guild_id, channel_id),
    {
        let s = VoiceSession {
            guild_id,
            channel_id,
            queue: Vec::new(),
            current: None,
            loop_current: false,
            restart_on_end: false,
        };
        proof {
            assert(s@ =~= fresh_session(guild_id, channel_id));
        }
        s
    }

    /// The guild this session belongs to.
    pub fn guild_id(&self) -> (r: u64)
        ensures
            r == self@.guild,
    {
        self.guild_id
    }

    /// The voice channel this session is connected to.
    pub fn channel_id(&self) -> (r: u64)
        ensures
            r == self@.channel,
    {
        self.channel_id
    }

    /// How many tracks are waiting behind the current one.
    pub fn queue_len(&self) -> (r: usize)
        ensures
            r == self@.queue.len(),
    {
        self.queue.len()
    }

    /// The currently playing track, if any.
    pub fn current_track(&self) -> (r: Option<&Track>)
        ensures
            match r {
                Some(t) => self@.current == Some(t@),
                None => self@.current is None,
            },
    {
        self.current.as_ref()
    }

    /// Whether the current track is set to loop.
    pub fn loop_enabled(&self) -> (r: bool)
        ensures
            r == self@.loop_current,
    {
        self.loop_current
    }

    /// Whether the persistent restart-on-end mode is set.
    pub fn restart_enabled(&self) -> (r: bool)
        ensures
            r == self@.restart_on_end,
    {
        self.restart_on_end
    }

    /// Appends a resolved track, starting it at once when the session is
    /// idle, and reports its 1-based position counting the current track
    /// as position 1.
    pub fn enqueue_track(&mut self, t: Track) -> (pos: usize)
        requires
            old(self)@.queue.len() + 2 <= usize::MAX,
        ensures
            final(self)@ == enqueue_model(old(self)@, t@),
            pos == enqueue_position(old(self)@),
    {
        if self.current.is_none() {
            self.current = Some(t);
            proof {
                assert(final(self)@ =~= enqueue_model(old(self)@, t@));
            }
            1
        } else {
            self.queue.push(t);
            proof {
                assert(final(self)@ =~= enqueue_model(old(self)@, t@));
            }
            self.queue.len() + 1
        }
    }

    /// Stops the current track and advances to the next queued one (or to
    /// idle), always clearing the loop flag for whatever is current next.
    pub fn skip_current(&mut self)
        ensures
            final(self)@ == skip_model(old(self)@),
    {
        if self.queue.len() > 0 {
            let next = self.queue.remove(0);
            self.current = Some(next);
        } else {
            self.current = None;
        }
        self.loop_current = false;
        proof {
            assert(final(self)@ =~= skip_model(old(self)@));
        }
    }

    /// Sets the loop flag on the presently playing track. Reports whether
    /// anything was playing; an idle session is left untouched.
    pub fn repeat_current(&mut self) -> (applied: bool)
        ensures
            final(self)@ == repeat_model(old(self)@),
            applied == (old(self)@.current is Some),
    {
        if self.current.is_some() {
            self.loop_current = true;
            proof {
                assert(final(self)@ =~= repeat_model(old(self)@));
            }
            true
        } else {
            false
        }
    }

    /// Flips the persistent restart-on-end mode and returns the new
    /// value.
    pub fn toggle_restart(&mut self) -> (state: bool)
        ensures
            final(self)@ == toggle_restart_model(old(self)@),
            state == final(self)@.restart_on_end,
    {
        self.restart_on_end = !self.restart_on_end;
        proof {
            assert(final(self)@ =~= toggle_restart_model(old(self)@));
        }
        self.restart_on_end
    }

    /// Applies a natural track completion: a looping track replays,
    /// otherwise the session advances, and the restart mode decides the
    /// loop flag for whichever track is now current. Returns what the
    /// audio engine should be told.
    pub fn handle_track_end(&mut self) -> (r: TrackEndOutcome)
        ensures
            final(self)@ == track_end_model(old(self)@),
            r == track_end_outcome(old(self)@),
    {
        if !self.loop_current {
            if self.queue.len() > 0 {
                let next = self.queue.remove(0);
                self.current = Some(next);
            } else {
                self.current = None;
            }
        }
        let r = if self.current.is_none() {
            self.loop_current = false;
            TrackEndOutcome::Ended
        } else if self.restart_on_end {
            self.loop_current = true;
            TrackEndOutcome::LoopEnabled
        } else {
            self.loop_current = false;
            TrackEndOutcome::LoopDisabled
        };
        proof {
            assert(final(self)@ =~= track_end_model(old(self)@));
        }
        r
    }
}

} // verus!
