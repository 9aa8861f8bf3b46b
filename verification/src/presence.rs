//! Channel occupancy, recomputed from gateway voice-state events, and the
//! rule that tears a session down when only a bot remains.

use vstd::prelude::*;

verus! {

/// One occupant of a voice channel, as the gateway reports it.
#[derive(Clone, Copy, Debug, PartialEq, Eq, Structural)]
pub struct Member {
    pub member_id: u64,
    pub is_bot: bool,
}

/// The teardown heuristic: the channel holds exactly one occupant and
/// that occupant is a bot account. (The remaining bot is not verified to
/// be this bot; that approximation is accepted.)
pub open spec fn bot_only(members: Seq<Member>) -> bool {
    members.len() == 1 && members[0].is_bot
}

/// Recomputes a channel's occupant list after a member left: everyone
/// but the leaver, in the order they already stood.
pub fn occupants_after_leave(members: &Vec<Member>, leaver: u64) -> (r: Vec<Member>)
    ensures
        r@ == members@.filter(|m: Member| m.member_id != leaver),
{
    let mut r: Vec<Member> = Vec::new();
    let n = members.len();
    let mut i: usize = 0;
    proof {
        assert(members@.subrange(0, 0).filter(|m: Member| m.member_id != leaver) =~= Seq::<
            Member,
        >::empty());
    }
    while i < n
        invariant
            n == members@.len(),
            i <= n,
            r@ == members@.subrange(0, i as int).filter(|m: Member| m.member_id != leaver),
        decreases n - i,
    {
        let m = members[i];
        if m.member_id != leaver {
            r.push(m);
        }
        proof {
            reveal_with_fuel(Seq::filter, 2);
            assert(members@.subrange(0, i + 1).drop_last() =~= members@.subrange(0, i as int));
            assert(members@.subrange(0, i + 1).last() == m);
        }
        i = i + 1;
    }
    proof {
        assert(members@.subrange(0, n as int) =~= members@);
    }
    r
}

/// The occupancy view of the data model: the identifiers of the human
/// (non-bot) members present, in channel order.
pub fn occupancy(members: &Vec<Member>) -> (r: Vec<u64>)
    ensures
        r@ == members@.filter(|m: Member| !m.is_bot).map_values(|m: Member| m.member_id),
{
    let mut r: Vec<u64> = Vec::new();
    let n = members.len();
    let mut i: usize = 0;
    proof {
        assert(members@.subrange(0, 0).filter(|m: Member| !m.is_bot).map_values(
            |m: Member| m.member_id,
        ) =~= Seq::<u64>::empty());
    }
    while i < n
        invariant
            n == members@.len(),
            i <= n,
            r@ == members@.subrange(0, i as int).filter(|m: Member| !m.is_bot).map_values(
                |m: Member| m.member_id,
            ),
        decreases n - i,
    {
        let m = members[i];
        if !m.is_bot {
            r.push(m.member_id);
        }
        proof {
            reveal_with_fuel(Seq::filter, 2);
            assert(members@.subrange(0, i + 1).drop_last() =~= members@.subrange(0, i as int));
            assert(members@.subrange(0, i + 1).last() == m);
            let f = members@.subrange(0, i + 1).filter(|m: Member| !m.is_bot);
            let f0 = members@.subrange(0, i as int).filter(|m: Member| !m.is_bot);
            if !m.is_bot {
                assert(f == f0.push(m));
                assert(f.map_values(|m: Member| m.member_id) =~= f0.map_values(
                    |m: Member| m.member_id,
                ).push(m.member_id));
            }
        }
        i = i + 1;
    }
    proof {
        assert(members@.subrange(0, n as int) =~= members@);
    }
    r
}

/// Decides whether a channel's recomputed occupant list means "empty of
/// humans": exactly one occupant left, and it is a bot.
pub fn should_teardown(members: &Vec<Member>) -> (r: bool)
    ensures
        r == bot_only(members@),
{
    members.len() == 1 && members[0].is_bot
}

} // verus!
