//! The guild-to-session registry: at most one live [`VoiceSession`] per
//! guild, created on first successful join and destroyed on leave or
//! presence-triggered teardown.
//!
//! The registry's abstract value is a finite map from guild to session
//! model; every operation's contract says exactly how that map changes.

use vstd::prelude::*;

use crate::errors::VoiceError;
use crate::presence::{bot_only, should_teardown, Member};
use crate::session::{
    enqueue_model, enqueue_position, fresh_session, repeat_model, skip_model,
    toggle_restart_model, track_end_model, track_end_outcome, SessionModel, TrackEndOutcome,
    VoiceSession,
};
use crate::track::Track;

verus! {

/// No two sessions in the sequence belong to the same guild.
spec fn unique_guilds(s: Seq<VoiceSession>) -> bool {
    forall|i: int, j: int|
        0 <= i < j < s.len() ==> (#[trigger] s[i]@).guild != (#[trigger] s[j]@).guild
}

/// The map a sequence of sessions stands for: each session filed under
/// its guild.
spec fn as_map(s: Seq<VoiceSession>) -> Map<u64, SessionModel>
    decreases s.len(),
{
    if s.len() == 0 {
        Map::empty()
    } else {
        as_map(s.drop_last()).insert(s.last()@.guild, s.last()@)
    }
}

proof fn lemma_as_map_contains(s: Seq<VoiceSession>, g: u64)
    ensures
        as_map(s).contains_key(g) <==> exists|i: int|
            0 <= i < s.len() && (#[trigger] s[i]@).guild == g,
    decreases s.len(),
{
    if s.len() > 0 {
        lemma_as_map_contains(s.drop_last(), g);
        if s.last()@.guild == g {
            assert(s[s.len() - 1]@.guild == g);
        } else if as_map(s).contains_key(g) {
            let i = choose|i: int| 0 <= i < s.drop_last().len() && (#[trigger] s.drop_last()[i]@).guild == g;
            assert(s[i]@.guild == g);
        } else if exists|i: int| 0 <= i < s.len() && (#[trigger] s[i]@).guild == g {
            let i = choose|i: int| 0 <= i < s.len() && (#[trigger] s[i]@).guild == g;
            assert(i < s.len() - 1);
            assert(s.drop_last()[i]@.guild == g);
        }
    }
}

proof fn lemma_as_map_at(s: Seq<VoiceSession>, i: int)
    requires
        unique_guilds(s),
        0 <= i < s.len(),
    ensures
        as_map(s).contains_key(s[i]@.guild),
        as_map(s)[s[i]@.guild] == s[i]@,
    decreases s.len(),
{
    if i == s.len() - 1 {
        assert(s.last() == s[i]);
    } else {
        assert(forall|k: int, l: int|
            0 <= k < l < s.drop_last().len() ==> (#[trigger] s.drop_last()[k]@).guild != (
            #[trigger] s.drop_last()[l]@).guild);
        lemma_as_map_at(s.drop_last(), i);
        assert(s.drop_last()[i] == s[i]);
        assert(s[i]@.guild != s.last()@.guild);
    }
}

proof fn lemma_as_map_push(s: Seq<VoiceSession>, x: VoiceSession)
    ensures
        as_map(s.push(x)) == as_map(s).insert(x@.guild, x@),
{
    assert(s.push(x).drop_last() =~= s);
    assert(s.push(x).last() == x);
}

proof fn lemma_unique_push(s: Seq<VoiceSession>, x: VoiceSession)
    requires
        unique_guilds(s),
        forall|i: int| 0 <= i < s.len() ==> (#[trigger] s[i]@).guild != x@.guild,
    ensures
        unique_guilds(s.push(x)),
{
    let t = s.push(x);
    assert forall|i: int, j: int| 0 <= i < j < t.len() implies (#[trigger] t[i]@).guild != (
    #[trigger] t[j]@).guild by {
        if j < s.len() {
            assert(t[i] == s[i] && t[j] == s[j]);
        } else {
            assert(t[i] == s[i] && t[j] == x);
        }
    }
}

proof fn lemma_as_map_update(s: Seq<VoiceSession>, i: int, x: VoiceSession)
    requires
        unique_guilds(s),
        0 <= i < s.len(),
        x@.guild == s[i]@.guild,
    ensures
        as_map(s.update(i, x)) == as_map(s).insert(x@.guild, x@),
        unique_guilds(s.update(i, x)),
    decreases s.len(),
{
    let t = s.update(i, x);
    assert forall|k: int, l: int| 0 <= k < l < t.len() implies (#[trigger] t[k]@).guild != (
    #[trigger] t[l]@).guild by {
        assert(s[k]@.guild != s[l]@.guild);
    }
    if i == s.len() - 1 {
        assert(t.drop_last() =~= s.drop_last());
        assert(t.last() == x);
        assert(as_map(t) == as_map(s.drop_last()).insert(x@.guild, x@));
        assert(as_map(s.drop_last()).insert(s.last()@.guild, s.last()@).insert(x@.guild, x@)
            =~= as_map(s.drop_last()).insert(x@.guild, x@));
    } else {
        assert(forall|k: int, l: int|
            0 <= k < l < s.drop_last().len() ==> (#[trigger] s.drop_last()[k]@).guild != (
            #[trigger] s.drop_last()[l]@).guild);
        assert(s.drop_last()[i] == s[i]);
        lemma_as_map_update(s.drop_last(), i, x);
        assert(t.drop_last() =~= s.drop_last().update(i, x));
        assert(t.last() == s.last());
        assert(x@.guild != s.last()@.guild);
        assert(as_map(s.drop_last()).insert(x@.guild, x@).insert(s.last()@.guild, s.last()@)
            =~= as_map(s.drop_last()).insert(s.last()@.guild, s.last()@).insert(x@.guild, x@));
    }
}

proof fn lemma_as_map_remove(s: Seq<VoiceSession>, i: int)
    requires
        unique_guilds(s),
        0 <= i < s.len(),
    ensures
        as_map(s.remove(i)) == as_map(s).remove(s[i]@.guild),
        unique_guilds(s.remove(i)),
    decreases s.len(),
{
    let g = s[i]@.guild;
    let t = s.remove(i);
    assert forall|k: int, l: int| 0 <= k < l < t.len() implies (#[trigger] t[k]@).guild != (
    #[trigger] t[l]@).guild by {
        let k0: int = if k < i { k } else { k + 1 };
        let l0: int = if l < i { l } else { l + 1 };
        assert(t[k] == s[k0] && t[l] == s[l0]);
        assert(s[k0]@.guild != s[l0]@.guild);
    }
    if i == s.len() - 1 {
        assert(t =~= s.drop_last());
        lemma_as_map_contains(s.drop_last(), g);
        assert(forall|k: int|
            0 <= k < s.drop_last().len() ==> (#[trigger] s.drop_last()[k]@).guild != g);
        assert(!as_map(s.drop_last()).contains_key(g));
        assert(as_map(s.drop_last()).insert(g, s.last()@).remove(g) =~= as_map(s.drop_last()));
    } else {
        assert(forall|k: int, l: int|
            0 <= k < l < s.drop_last().len() ==> (#[trigger] s.drop_last()[k]@).guild != (
            #[trigger] s.drop_last()[l]@).guild);
        assert(s.drop_last()[i] == s[i]);
        lemma_as_map_remove(s.drop_last(), i);
        assert(t.drop_last() =~= s.drop_last().remove(i));
        assert(t.last() == s.last());
        assert(g != s.last()@.guild);
        assert(as_map(s.drop_last()).remove(g).insert(s.last()@.guild, s.last()@)
            =~= as_map(s.drop_last()).insert(s.last()@.guild, s.last()@).remove(g));
    }
}

proof fn lemma_as_map_dom_len(s: Seq<VoiceSession>)
    requires
        unique_guilds(s),
    ensures
        as_map(s).dom().finite(),
        as_map(s).dom().len() == s.len(),
    decreases s.len(),
{
    if s.len() > 0 {
        assert(forall|k: int, l: int|
            0 <= k < l < s.drop_last().len() ==> (#[trigger] s.drop_last()[k]@).guild != (
            #[trigger] s.drop_last()[l]@).guild);
        lemma_as_map_dom_len(s.drop_last());
        let g = s.last()@.guild;
        lemma_as_map_contains(s.drop_last(), g);
        assert(forall|k: int|
            0 <= k < s.drop_last().len() ==> (#[trigger] s.drop_last()[k]@).guild != g);
        assert(!as_map(s.drop_last()).dom().contains(g));
        assert(as_map(s).dom() =~= as_map(s.drop_last()).dom().insert(g));
    }
}

/// Every session a well-formed registry holds is itself well-formed.
pub open spec fn sessions_wf(m: Map<u64, SessionModel>) -> bool {
    forall|g: u64| m.contains_key(g) ==> (#[trigger] m[g]).wf()
}

/// How `ensure_session` changes the registry's map when the engine can
/// join: an existing session is kept as it is, otherwise a fresh one is
/// filed under the guild.
pub open spec fn ensure_model(m: Map<u64, SessionModel>, guild: u64, channel: u64) -> Map<
    u64,
    SessionModel,
> {
    if m.contains_key(guild) {
        m
    } else {
        m.insert(guild, fresh_session(guild, channel))
    }
}

/// The exclusive owner of all live voice sessions, keyed by guild.
pub struct SessionRegistry {
    sessions: Vec<VoiceSession>,
}

impl View for SessionRegistry {
    type V = Map<u64, SessionModel>;

    closed spec fn view(&self) -> Map<u64, SessionModel> {
        as_map(self.sessions@)
    }
}

impl SessionRegistry {
    /// The registry's internal invariant: one session per guild at most,
    /// and each session well-formed.
    pub closed spec fn wf(&self) -> bool {
        &&& unique_guilds(self.sessions@)
        &&& forall|i: int| 0 <= i < self.sessions@.len() ==> (#[trigger] self.sessions@[i]@).wf()
    }

    /// A well-formed registry holds only well-formed sessions.
    pub proof fn lemma_sessions_wf(&self)
        requires
            self.wf(),
        ensures
            sessions_wf(self@),
    {
        assert forall|g: u64| self@.contains_key(g) implies (#[trigger] self@[g]).wf() by {
            lemma_as_map_contains(self.sessions@, g);
            let i = choose|i: int|
                0 <= i < self.sessions@.len() && (#[trigger] self.sessions@[i]@).guild == g;
            lemma_as_map_at(self.sessions@, i);
        }
    }

    /// An empty registry: no guild has a session.
    pub fn new() -> (r: SessionRegistry)
        ensures
            r.wf(),
            r@ == Map::<u64, SessionModel>::empty(),
    {
        let r = SessionRegistry { sessions: Vec::new() };
        proof {
            assert(r@ =~= Map::<u64, SessionModel>::empty());
        }
        r
    }

    /// Where the guild's session sits in the sequence, if anywhere.
    fn find(&self, guild: u64) -> (r: Option<usize>)
        ensures
            match r {
                Some(i) => i < self.sessions@.len() && self.sessions@[i as int]@.guild == guild,
                None => forall|i: int|
                    0 <= i < self.sessions@.len() ==> (#[trigger] self.sessions@[i]@).guild
                        != guild,
            },
    {
        let n = self.sessions.len();
        let mut i: usize = 0;
        while i < n
            invariant
                n == self.sessions@.len(),
                i <= n,
                forall|k: int| 0 <= k < i ==> (#[trigger] self.sessions@[k]@).guild != guild,
            decreases n - i,
        {
            if self.sessions[i].guild_id() == guild {
                return Some(i);
            }
            i = i + 1;
        }
        None
    }

    /// Non-blocking lookup: whether the guild has a live session.
    pub fn has_session(&self, guild: u64) -> (r: bool)
        ensures
            r == self@.contains_key(guild),
    {
        proof {
            lemma_as_map_contains(self.sessions@, guild);
        }
        self.find(guild).is_some()
    }

    /// How many guilds hold a live session.
    pub fn session_count(&self) -> (r: usize)
        requires
            self.wf(),
        ensures
            self@.dom().finite(),
            r == self@.dom().len(),
    {
        proof {
            lemma_as_map_dom_len(self.sessions@);
        }
        self.sessions.len()
    }

    /// Borrows the guild's session, if one is live.
    pub fn get(&self, guild: u64) -> (r: Option<&VoiceSession>)
        requires
            self.wf(),
        ensures
            match r {
                Some(s) => self@.contains_key(guild) && s@ == self@[guild],
                None => !self@.contains_key(guild),
            },
    {
        proof {
            lemma_as_map_contains(self.sessions@, guild);
        }
        match self.find(guild) {
            Some(i) => {
                proof {
                    lemma_as_map_at(self.sessions@, i as int);
                }
                Some(&self.sessions[i])
            },
            None => None,
        }
    }

    /// Returns the guild's existing session or, when the engine accepted
    /// the join (`join_ok`), files a fresh one for this channel. When no
    /// session exists and the engine refused, nothing changes and the
    /// join failure is reported.
    pub fn ensure_session(&mut self, guild: u64, channel: u64, join_ok: bool) -> (r: Result<
        (),
        VoiceError,
    >)
        requires
            old(self).wf(),
        ensures
            final(self).wf(),
            old(self)@.contains_key(guild) ==> final(self)@ == old(self)@ && r == Ok::<
                (),
                VoiceError,
            >(()),
            !old(self)@.contains_key(guild) && join_ok ==> final(self)@ == old(self)@.insert(
                guild,
                fresh_session(guild, channel),
            ) && r == Ok::<(), VoiceError>(()),
            !old(self)@.contains_key(guild) && !join_ok ==> final(self)@ == old(self)@ && r
                == Err::<(), VoiceError>(VoiceError::JoinFailed),
            join_ok ==> final(self)@ == ensure_model(old(self)@, guild, channel),
    {
        proof {
            lemma_as_map_contains(self.sessions@, guild);
        }
        match self.find(guild) {
            Some(_) => Ok(()),
            None => {
                if join_ok {
                    let s = VoiceSession::new(guild, channel);
                    proof {
                        lemma_as_map_push(self.sessions@, s);
                        lemma_unique_push(self.sessions@, s);
                    }
                    self.sessions.push(s);
                    Ok(())
                } else {
                    Err(VoiceError::JoinFailed)
                }
            },
        }
    }

    /// Idempotent teardown: the guild's session, if any, is deleted with
    /// its whole queue. Reports whether one existed, so the embedding
    /// knows to disconnect the audio engine.
    pub fn remove(&mut self, guild: u64) -> (removed: bool)
        requires
            old(self).wf(),
        ensures
            final(self).wf(),
            final(self)@ == old(self)@.remove(guild),
            removed == old(self)@.contains_key(guild),
    {
        proof {
            lemma_as_map_contains(self.sessions@, guild);
        }
        match self.find(guild) {
            Some(i) => {
                proof {
                    lemma_as_map_remove(self.sessions@, i as int);
                }
                self.sessions.remove(i);
                true
            },
            None => {
                proof {
                    assert(old(self)@.remove(guild) =~= old(self)@);
                }
                false
            },
        }
    }

    /// The leave command: tears the guild's session down, or reports that
    /// there was none to leave.
    pub fn leave(&mut self, guild: u64) -> (r: Result<(), VoiceError>)
        requires
            old(self).wf(),
        ensures
            final(self).wf(),
            old(self)@.contains_key(guild) ==> final(self)@ == old(self)@.remove(guild) && r
                == Ok::<(), VoiceError>(()),
            !old(self)@.contains_key(guild) ==> final(self)@ == old(self)@ && r == Err::<
                (),
                VoiceError,
            >(VoiceError::NotInVoiceChannel),
    {
        let removed = self.remove(guild);
        if removed {
            Ok(())
        } else {
            proof {
                assert(old(self)@.remove(guild) =~= old(self)@);
            }
            Err(VoiceError::NotInVoiceChannel)
        }
    }

    /// Takes the guild's session out for in-place modification.
    /// The caller must put a session with the same guild back.
    fn take_session(&mut self, i: usize) -> (s: VoiceSession)
        requires
            old(self).wf(),
            i < old(self).sessions@.len(),
        ensures
            s == old(self).sessions@[i as int],
            final(self).sessions@ == old(self).sessions@.remove(i as int),
    {
        self.sessions.remove(i)
    }

    /// Puts a modified session back at its place.
    fn put_session(&mut self, i: usize, s: VoiceSession)
        requires
            i <= old(self).sessions@.len(),
        ensures
            final(self).sessions@ == old(self).sessions@.insert(i as int, s),
    {
        self.sessions.insert(i, s);
    }

    /// The skip command: stops the guild's current track and advances to
    /// the next queued one, or to idle when none remains.
    pub fn skip(&mut self, guild: u64) -> (r: Result<(), VoiceError>)
        requires
            old(self).wf(),
        ensures
            final(self).wf(),
            old(self)@.contains_key(guild) ==> final(self)@ == old(self)@.insert(
                guild,
                skip_model(old(self)@[guild]),
            ) && r == Ok::<(), VoiceError>(()),
            !old(self)@.contains_key(guild) ==> final(self)@ == old(self)@ && r == Err::<
                (),
                VoiceError,
            >(VoiceError::NoActiveSession),
    {
        proof {
            lemma_as_map_contains(self.sessions@, guild);
        }
        match self.find(guild) {
            Some(i) => {
                proof {
                    lemma_as_map_at(self.sessions@, i as int);
                }
                let ghost before = self.sessions@;
                let mut s = self.take_session(i);
                s.skip_current();
                self.put_session(i, s);
                proof {
                    assert(self.sessions@ =~= before.update(i as int, s));
                    lemma_as_map_update(before, i as int, s);
                }
                Ok(())
            },
            None => Err(VoiceError::NoActiveSession),
        }
    }

    /// The tail of the play command: files the resolver's outcome with
    /// the guild's session. A resolved track is appended (and starts at
    /// once on an idle session), and its 1-based position is reported; a
    /// resolver failure enqueues nothing and is surfaced as
    /// `ResolutionFailed`.
    pub fn enqueue(&mut self, guild: u64, resolved: Option<Track>) -> (r: Result<
        usize,
        VoiceError,
    >)
        requires
            old(self).wf(),
            old(self)@.contains_key(guild) ==> old(self)@[guild].queue.len() + 2 <= usize::MAX,
        ensures
            final(self).wf(),
            !old(self)@.contains_key(guild) ==> final(self)@ == old(self)@ && r == Err::<
                usize,
                VoiceError,
            >(VoiceError::NoActiveSession),
            old(self)@.contains_key(guild) && resolved is None ==> final(self)@ == old(self)@ && r
                == Err::<usize, VoiceError>(VoiceError::ResolutionFailed),
            old(self)@.contains_key(guild) && resolved is Some ==> final(self)@ == old(
                self,
            )@.insert(guild, enqueue_model(old(self)@[guild], resolved.unwrap()@)) && r == Ok::<
                usize,
                VoiceError,
            >(enqueue_position(old(self)@[guild]) as usize),
    {
        proof {
            lemma_as_map_contains(self.sessions@, guild);
        }
        match self.find(guild) {
            Some(i) => {
                match resolved {
                    Some(t) => {
                        proof {
                            lemma_as_map_at(self.sessions@, i as int);
                        }
                        let ghost before = self.sessions@;
                        let mut s = self.take_session(i);
                        let pos = s.enqueue_track(t);
                        self.put_session(i, s);
                        proof {
                            assert(self.sessions@ =~= before.update(i as int, s));
                            lemma_as_map_update(before, i as int, s);
                        }
                        Ok(pos)
                    },
                    None => Err(VoiceError::ResolutionFailed),
                }
            },
            None => Err(VoiceError::NoActiveSession),
        }
    }

    /// The whole decision chain of the play command, over the outcomes
    /// the embedding gathered at its edges: the invoker's voice channel
    /// (none refuses the command), the engine's answer to a join, and the
    /// resolver's answer to the request. A session is ensured on the
    /// invoker's channel, then the resolved track is filed exactly as
    /// [`Self::enqueue`] does. The errors rank in that order: voice
    /// membership first, then the join, then the resolution.
    pub fn play(
        &mut self,
        guild: u64,
        invoker_channel: Option<u64>,
        join_ok: bool,
        resolved: Option<Track>,
    ) -> (r: Result<usize, VoiceError>)
        requires
            old(self).wf(),
            old(self)@.contains_key(guild) ==> old(self)@[guild].queue.len() + 2 <= usize::MAX,
        ensures
            final(self).wf(),
            invoker_channel is None ==> final(self)@ == old(self)@ && r == Err::<
                usize,
                VoiceError,
            >(VoiceError::NotInVoiceChannel),
            invoker_channel is Some && !old(self)@.contains_key(guild) && !join_ok
                ==> final(self)@ == old(self)@ && r == Err::<usize, VoiceError>(
                VoiceError::JoinFailed,
            ),
            invoker_channel is Some && (old(self)@.contains_key(guild) || join_ok) && resolved
                is None ==> final(self)@ == ensure_model(
                old(self)@,
                guild,
                invoker_channel.unwrap(),
            ) && r == Err::<usize, VoiceError>(VoiceError::ResolutionFailed),
            invoker_channel is Some && (old(self)@.contains_key(guild) || join_ok) && resolved
                is Some ==> final(self)@ == ensure_model(
                old(self)@,
                guild,
                invoker_channel.unwrap(),
            ).insert(
                guild,
                enqueue_model(
                    ensure_model(old(self)@, guild, invoker_channel.unwrap())[guild],
                    resolved.unwrap()@,
                ),
            ) && r == Ok::<usize, VoiceError>(
                enqueue_position(
                    ensure_model(old(self)@, guild, invoker_channel.unwrap())[guild],
                ) as usize,
            ),
    {
        let channel = match crate::resolve::connect_target(invoker_channel) {
            Ok(ch) => ch,
            Err(e) => {
                return Err(e);
            },
        };
        match self.ensure_session(guild, channel, join_ok) {
            Ok(()) => {},
            Err(e) => {
                return Err(e);
            },
        }
        self.enqueue(guild, resolved)
    }

    /// The repeat command: sets the loop flag on the guild's presently
    /// playing track. `Ok(true)` means looping was enabled; `Ok(false)`
    /// means nothing is playing and the session was left untouched (the
    /// caller reports that no songs are queued).
    pub fn repeat(&mut self, guild: u64) -> (r: Result<bool, VoiceError>)
        requires
            old(self).wf(),
        ensures
            final(self).wf(),
            old(self)@.contains_key(guild) ==> final(self)@ == old(self)@.insert(
                guild,
                repeat_model(old(self)@[guild]),
            ) && r == Ok::<bool, VoiceError>(old(self)@[guild].current is Some),
            !old(self)@.contains_key(guild) ==> final(self)@ == old(self)@ && r == Err::<
                bool,
                VoiceError,
            >(VoiceError::NoActiveSession),
    {
        proof {
            lemma_as_map_contains(self.sessions@, guild);
        }
        match self.find(guild) {
            Some(i) => {
                proof {
                    lemma_as_map_at(self.sessions@, i as int);
                }
                let ghost before = self.sessions@;
                let mut s = self.take_session(i);
                let applied = s.repeat_current();
                self.put_session(i, s);
                proof {
                    assert(self.sessions@ =~= before.update(i as int, s));
                    lemma_as_map_update(before, i as int, s);
                }
                Ok(applied)
            },
            None => Err(VoiceError::NoActiveSession),
        }
    }

    /// The restart command: flips the guild session's persistent
    /// restart-on-end mode and returns the new value.
    pub fn toggle_restart(&mut self, guild: u64) -> (r: Result<bool, VoiceError>)
        requires
            old(self).wf(),
        ensures
            final(self).wf(),
            old(self)@.contains_key(guild) ==> final(self)@ == old(self)@.insert(
                guild,
                toggle_restart_model(old(self)@[guild]),
            ) && r == Ok::<bool, VoiceError>(!old(self)@[guild].restart_on_end),
            !old(self)@.contains_key(guild) ==> final(self)@ == old(self)@ && r == Err::<
                bool,
                VoiceError,
            >(VoiceError::NoActiveSession),
    {
        proof {
            lemma_as_map_contains(self.sessions@, guild);
        }
        match self.find(guild) {
            Some(i) => {
                proof {
                    lemma_as_map_at(self.sessions@, i as int);
                }
                let ghost before = self.sessions@;
                let mut s = self.take_session(i);
                let state = s.toggle_restart();
                self.put_session(i, s);
                proof {
                    assert(self.sessions@ =~= before.update(i as int, s));
                    lemma_as_map_update(before, i as int, s);
                }
                Ok(state)
            },
            None => Err(VoiceError::NoActiveSession),
        }
    }

    /// The track-end hook: applies a natural completion to the guild's
    /// session and says what the audio engine should be told. An event
    /// for a guild with no session — one that arrives after teardown — is
    /// discarded without effect and without error.
    pub fn handle_track_end(&mut self, guild: u64) -> (r: TrackEndOutcome)
        requires
            old(self).wf(),
        ensures
            final(self).wf(),
            old(self)@.contains_key(guild) ==> final(self)@ == old(self)@.insert(
                guild,
                track_end_model(old(self)@[guild]),
            ) && r == track_end_outcome(old(self)@[guild]),
            !old(self)@.contains_key(guild) ==> final(self)@ == old(self)@ && r
                == TrackEndOutcome::Discarded,
    {
        proof {
            lemma_as_map_contains(self.sessions@, guild);
        }
        match self.find(guild) {
            Some(i) => {
                proof {
                    lemma_as_map_at(self.sessions@, i as int);
                }
                let ghost before = self.sessions@;
                let mut s = self.take_session(i);
                let outcome = s.handle_track_end();
                self.put_session(i, s);
                proof {
                    assert(self.sessions@ =~= before.update(i as int, s));
                    lemma_as_map_update(before, i as int, s);
                }
                outcome
            },
            None => TrackEndOutcome::Discarded,
        }
    }

    /// The presence monitor: reacts to a channel's recomputed occupant
    /// list. When only a bot remains, the guild's session is torn down
    /// with its whole queue; the returned flag tells the embedding to
    /// disconnect the audio engine. Any other occupancy changes nothing.
    pub fn handle_presence_update(&mut self, guild: u64, members: &Vec<Member>) -> (disconnect:
        bool)
        requires
            old(self).wf(),
        ensures
            final(self).wf(),
            bot_only(members@) ==> final(self)@ == old(self)@.remove(guild) && disconnect == old(
                self,
            )@.contains_key(guild),
            !bot_only(members@) ==> final(self)@ == old(self)@ && !disconnect,
    {
        if should_teardown(members) {
            self.remove(guild)
        } else {
            false
        }
    }
}

} // verus!
