use tagger::events::{
    chat_member_handler, message_handler, observe, roster_id, track_joined, track_message_user,
    ChatKind, ChatMessage, MemberUpdate, Participant, Presence, RoleKind,
};
use tagger::roster::{MemoryRoster, StoreOp};
use tagger::User;

fn person(id: u64, first_name: &str) -> Participant {
    Participant { id, first_name: first_name.to_string(), is_bot: false }
}

fn automaton(id: u64, first_name: &str) -> Participant {
    Participant { id, first_name: first_name.to_string(), is_bot: true }
}

fn upsert(chat_id: i64, user_id: i64, first_name: &str) -> StoreOp {
    StoreOp::Upsert { chat_id, user_id, first_name: first_name.to_string() }
}

fn delete(chat_id: i64, user_id: i64) -> StoreOp {
    StoreOp::Delete { chat_id, user_id }
}

fn message(chat_kind: ChatKind, from: Option<Participant>) -> ChatMessage {
    ChatMessage {
        chat_id: -100,
        chat_kind,
        message_id: 7,
        from,
        new_chat_members: Vec::new(),
        left_chat_member: None,
    }
}

fn update(subject: Participant, new_role: RoleKind) -> MemberUpdate {
    MemberUpdate { chat_id: -100, chat_kind: ChatKind::Group, subject, new_role }
}

fn update_in(chat_kind: ChatKind, subject: Participant, new_role: RoleKind) -> MemberUpdate {
    MemberUpdate { chat_id: 5, chat_kind, subject, new_role }
}

fn all_roles() -> Vec<RoleKind> {
    vec![
        RoleKind::Owner,
        RoleKind::Administrator,
        RoleKind::Member,
        RoleKind::Restricted,
        RoleKind::Left,
        RoleKind::Kicked,
        RoleKind::Banned,
    ]
}

#[test]
fn group_kinds() {
    assert!(ChatKind::Group.is_group_type());
    assert!(ChatKind::Supergroup.is_group_type());
    assert!(!ChatKind::Private.is_group_type());
    assert!(!ChatKind::Channel.is_group_type());
}

#[test]
fn present_roles() {
    assert!(RoleKind::Owner.is_present());
    assert!(RoleKind::Administrator.is_present());
    assert!(RoleKind::Member.is_present());
    assert!(RoleKind::Restricted.is_present());
    assert!(!RoleKind::Left.is_present());
    assert!(!RoleKind::Kicked.is_present());
    assert!(!RoleKind::Banned.is_present());
}

#[test]
fn privileged_roles() {
    for role in all_roles() {
        let expected = role == RoleKind::Owner || role == RoleKind::Administrator;
        assert_eq!(role.is_privileged(), expected, "role {:?}", role);
    }
}

#[test]
fn presence_follows_the_role() {
    for role in all_roles() {
        let expected = if role.is_present() { Presence::Present } else { Presence::Absent };
        assert_eq!(role.presence(), expected);
    }
}

#[test]
fn roster_id_of_an_ordinary_id_is_the_id() {
    assert_eq!(roster_id(0), 0);
    assert_eq!(roster_id(123456789), 123456789);
    assert_eq!(roster_id(i64::MAX as u64), i64::MAX);
}

#[test]
fn roster_id_wraps_beyond_the_signed_range() {
    assert_eq!(roster_id(u64::MAX), -1);
    assert_eq!(roster_id(i64::MAX as u64 + 1), i64::MIN);
}

#[test]
fn seen_present_is_upserted() {
    assert_eq!(observe(5, &person(9, "Ann"), Presence::Present), Some(upsert(5, 9, "Ann")));
}

#[test]
fn automated_account_seen_present_is_ignored() {
    assert_eq!(observe(5, &automaton(9, "Bot"), Presence::Present), None);
}

#[test]
fn seen_absent_is_deleted_whatever_the_account() {
    assert_eq!(observe(5, &person(9, "Ann"), Presence::Absent), Some(delete(5, 9)));
    assert_eq!(observe(5, &automaton(9, "Bot"), Presence::Absent), Some(delete(5, 9)));
}

#[test]
fn member_update_to_a_present_role_tracks_the_subject() {
    for role in [RoleKind::Owner, RoleKind::Administrator, RoleKind::Member, RoleKind::Restricted] {
        assert_eq!(
            chat_member_handler(&update(person(42, "Ann"), role)),
            Some(upsert(-100, 42, "Ann"))
        );
    }
}

#[test]
fn member_update_to_a_departed_role_untracks_the_subject() {
    for role in [RoleKind::Left, RoleKind::Kicked, RoleKind::Banned] {
        assert_eq!(chat_member_handler(&update(person(42, "Ann"), role)), Some(delete(-100, 42)));
        assert_eq!(chat_member_handler(&update(automaton(43, "Bot"), role)), Some(delete(-100, 43)));
    }
}

#[test]
fn member_update_of_an_automated_account_in_the_chat_changes_nothing() {
    for role in [RoleKind::Owner, RoleKind::Administrator, RoleKind::Member, RoleKind::Restricted] {
        assert_eq!(chat_member_handler(&update(automaton(43, "Bot"), role)), None);
    }
}

#[test]
fn member_update_in_a_supergroup_is_tracked_as_in_a_group() {
    assert_eq!(
        chat_member_handler(&update_in(ChatKind::Supergroup, person(42, "Ann"), RoleKind::Member)),
        Some(upsert(5, 42, "Ann"))
    );
    assert_eq!(
        chat_member_handler(&update_in(ChatKind::Supergroup, person(42, "Ann"), RoleKind::Left)),
        Some(delete(5, 42))
    );
}

#[test]
fn member_update_in_a_private_chat_changes_nothing() {
    for role in all_roles() {
        assert_eq!(chat_member_handler(&update_in(ChatKind::Private, person(42, "Ann"), role)), None);
        assert_eq!(
            chat_member_handler(&update_in(ChatKind::Private, automaton(43, "Bot"), role)),
            None
        );
    }
}

#[test]
fn member_update_in_a_channel_changes_nothing() {
    for role in all_roles() {
        assert_eq!(chat_member_handler(&update_in(ChatKind::Channel, person(42, "Ann"), role)), None);
        assert_eq!(
            chat_member_handler(&update_in(ChatKind::Channel, automaton(43, "Bot"), role)),
            None
        );
    }
}

#[test]
fn member_updates_outside_groups_leave_the_roster_as_it_was() {
    let mut roster = MemoryRoster::new();
    roster.upsert(5, 1, "Eve");
    let events = [
        update_in(ChatKind::Private, person(42, "Ann"), RoleKind::Member),
        update_in(ChatKind::Channel, person(43, "Bob"), RoleKind::Administrator),
        update_in(ChatKind::Private, person(1, "Eve"), RoleKind::Left),
        update_in(ChatKind::Channel, person(1, "Eve"), RoleKind::Banned),
    ];
    for event in &events {
        if let Some(op) = chat_member_handler(event) {
            roster.apply(&op);
        }
    }
    assert_eq!(roster.list(5), vec![User { user_id: 1, first_name: "Eve".to_string() }]);
}

#[test]
fn present_member_is_listed_with_the_latest_name() {
    let mut roster = MemoryRoster::new();
    let events = [
        update(person(42, "Ann"), RoleKind::Member),
        update(person(43, "Bob"), RoleKind::Restricted),
        update(person(42, "Anna"), RoleKind::Administrator),
    ];
    for event in &events {
        if let Some(op) = chat_member_handler(event) {
            roster.apply(&op);
        }
    }
    assert_eq!(
        roster.list(-100),
        vec![
            User { user_id: 42, first_name: "Anna".to_string() },
            User { user_id: 43, first_name: "Bob".to_string() },
        ]
    );
}

#[test]
fn departed_member_is_not_listed_and_stays_so() {
    let mut roster = MemoryRoster::new();
    let events = [
        update(person(42, "Ann"), RoleKind::Member),
        update(person(43, "Bob"), RoleKind::Member),
        update(person(42, "Ann"), RoleKind::Left),
        update(person(42, "Ann"), RoleKind::Left),
        update(person(44, "Cid"), RoleKind::Banned),
    ];
    for event in &events {
        if let Some(op) = chat_member_handler(event) {
            roster.apply(&op);
        }
    }
    assert_eq!(roster.list(-100), vec![User { user_id: 43, first_name: "Bob".to_string() }]);
}

#[test]
fn author_of_a_group_message_is_tracked() {
    assert_eq!(
        track_message_user(&message(ChatKind::Group, Some(person(1, "Ann")))),
        Some(upsert(-100, 1, "Ann"))
    );
    assert_eq!(
        track_message_user(&message(ChatKind::Supergroup, Some(person(1, "Ann")))),
        Some(upsert(-100, 1, "Ann"))
    );
}

#[test]
fn author_outside_a_group_is_not_tracked() {
    assert_eq!(track_message_user(&message(ChatKind::Private, Some(person(1, "Ann")))), None);
    assert_eq!(track_message_user(&message(ChatKind::Channel, Some(person(1, "Ann")))), None);
}

#[test]
fn automated_or_unknown_author_is_not_tracked() {
    assert_eq!(track_message_user(&message(ChatKind::Group, Some(automaton(1, "Bot")))), None);
    assert_eq!(track_message_user(&message(ChatKind::Group, None)), None);
}

#[test]
fn joined_members_are_tracked_in_order_without_automated_accounts() {
    let members = vec![person(1, "Ann"), automaton(2, "Bot"), person(3, "Cid")];
    assert_eq!(track_joined(5, &members), vec![upsert(5, 1, "Ann"), upsert(5, 3, "Cid")]);
    assert_eq!(track_joined(5, &Vec::new()), Vec::<StoreOp>::new());
}

#[test]
fn plain_group_message_tracks_its_author_only() {
    let msg = message(ChatKind::Group, Some(person(1, "Ann")));
    assert_eq!(message_handler(&msg), vec![upsert(-100, 1, "Ann")]);
}

#[test]
fn message_with_joins_and_a_leave() {
    let mut msg = message(ChatKind::Supergroup, Some(person(1, "Ann")));
    msg.new_chat_members = vec![person(2, "Bob"), automaton(3, "Bot"), person(4, "Dan")];
    msg.left_chat_member = Some(automaton(5, "Old bot"));
    assert_eq!(
        message_handler(&msg),
        vec![
            upsert(-100, 1, "Ann"),
            upsert(-100, 2, "Bob"),
            upsert(-100, 4, "Dan"),
            delete(-100, 5),
        ]
    );
}

#[test]
fn message_outside_a_group_changes_nothing() {
    let mut msg = message(ChatKind::Private, Some(person(1, "Ann")));
    msg.new_chat_members = vec![person(2, "Bob")];
    msg.left_chat_member = Some(person(3, "Cid"));
    assert_eq!(message_handler(&msg), Vec::<StoreOp>::new());
    msg.chat_kind = ChatKind::Channel;
    assert_eq!(message_handler(&msg), Vec::<StoreOp>::new());
}

#[test]
fn message_without_author_still_reports_joins_and_leaves() {
    let mut msg = message(ChatKind::Group, None);
    msg.new_chat_members = vec![person(2, "Bob")];
    msg.left_chat_member = Some(person(3, "Cid"));
    assert_eq!(message_handler(&msg), vec![upsert(-100, 2, "Bob"), delete(-100, 3)]);
}

#[test]
fn roster_after_messages_reflects_the_last_observation() {
    let mut roster = MemoryRoster::new();
    let mut joined = message(ChatKind::Group, Some(person(1, "Ann")));
    joined.new_chat_members = vec![person(2, "Bob"), person(3, "Cid")];
    let mut left = message(ChatKind::Group, Some(person(2, "Bobby")));
    left.left_chat_member = Some(person(3, "Cid"));
    for msg in [&joined, &left] {
        for op in message_handler(msg) {
            roster.apply(&op);
        }
    }
    assert_eq!(
        roster.list(-100),
        vec![
            User { user_id: 1, first_name: "Ann".to_string() },
            User { user_id: 2, first_name: "Bobby".to_string() },
        ]
    );
}

#[test]
fn participant_clone_is_equal() {
    let who = person(8, "Eve");
    assert_eq!(who.clone(), who);
}
