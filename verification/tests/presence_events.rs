use voice_core::presence::{occupancy, occupants_after_leave, should_teardown, Member};
use voice_core::registry::SessionRegistry;
use voice_core::track::Track;

fn human(id: u64) -> Member {
    Member { member_id: id, is_bot: false }
}

fn bot(id: u64) -> Member {
    Member { member_id: id, is_bot: true }
}

#[test]
fn human_leaving_bot_alone_tears_the_session_down() {
    let mut reg = SessionRegistry::new();
    reg.ensure_session(1, 10, true).unwrap();
    reg.enqueue(1, Some(Track::new(String::from("a"), String::from("u")))).unwrap();

    let before = vec![human(100), bot(7)];
    let after = occupants_after_leave(&before, 100);
    assert_eq!(after, vec![bot(7)]);
    assert!(should_teardown(&after));

    let disconnect = reg.handle_presence_update(1, &after);
    assert!(disconnect);
    assert!(!reg.has_session(1));
    assert_eq!(reg.session_count(), 0);
}

#[test]
fn remaining_humans_keep_the_session() {
    let mut reg = SessionRegistry::new();
    reg.ensure_session(1, 10, true).unwrap();

    let before = vec![human(100), human(101), bot(7)];
    let after = occupants_after_leave(&before, 100);
    assert_eq!(after, vec![human(101), bot(7)]);
    assert!(!should_teardown(&after));

    let disconnect = reg.handle_presence_update(1, &after);
    assert!(!disconnect);
    assert!(reg.has_session(1));
}

#[test]
fn single_remaining_human_is_not_a_teardown() {
    assert!(!should_teardown(&vec![human(100)]));
}

#[test]
fn empty_channel_is_not_a_teardown() {
    let empty: Vec<Member> = Vec::new();
    assert!(!should_teardown(&empty));
}

#[test]
fn teardown_event_without_session_is_a_no_op() {
    let mut reg = SessionRegistry::new();
    let members = vec![bot(7)];
    let disconnect = reg.handle_presence_update(1, &members);
    assert!(!disconnect);
    assert_eq!(reg.session_count(), 0);
}

#[test]
fn occupants_after_leave_keeps_order() {
    let before = vec![human(3), human(1), bot(7), human(2)];
    let after = occupants_after_leave(&before, 1);
    assert_eq!(after, vec![human(3), bot(7), human(2)]);
}

#[test]
fn occupancy_lists_human_identifiers_in_order() {
    let members = vec![human(3), bot(7), human(1)];
    assert_eq!(occupancy(&members), vec![3, 1]);
    let bots_only = vec![bot(7)];
    assert_eq!(occupancy(&bots_only), Vec::<u64>::new());
}
