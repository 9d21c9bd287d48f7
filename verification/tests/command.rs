use tagger::command::{
    command_handler, handle_all_command, Action, AllCommand, CommandError, Event, ParseMode, Phase,
    Reply, Step,
};
use tagger::events::{ChatKind, ChatMessage, Participant, RoleKind};
use tagger::roster::{MemoryRoster, StoreOp};
use tagger::User;

const GROUPS_ONLY: &str = "This command only works in groups.";
const ADMINS_ONLY: &str = "Only admins can use this command.";
const NOBODY_TRACKED: &str =
    "No users tracked yet. Users will be tracked as they send messages or join the group.";

/// What the outside does in a scripted run.
struct Outside {
    role: Option<RoleKind>,
    administrators: Option<Vec<Participant>>,
    roster: MemoryRoster,
    roster_fails: bool,
    send_fails: bool,
}

/// What a scripted run left behind.
struct Trace {
    actions: Vec<String>,
    replies: Vec<Reply>,
    outcome: Result<(), CommandError>,
    outside: Outside,
}

fn person(id: u64, first_name: &str) -> Participant {
    Participant { id, first_name: first_name.to_string(), is_bot: false }
}

fn automaton(id: u64, first_name: &str) -> Participant {
    Participant { id, first_name: first_name.to_string(), is_bot: true }
}

fn invocation(chat_kind: ChatKind, from: Option<Participant>) -> ChatMessage {
    ChatMessage {
        chat_id: -100,
        chat_kind,
        message_id: 77,
        from,
        new_chat_members: Vec::new(),
        left_chat_member: None,
    }
}

fn outside(role: Option<RoleKind>) -> Outside {
    Outside {
        role,
        administrators: None,
        roster: MemoryRoster::new(),
        roster_fails: false,
        send_fails: false,
    }
}

fn notice(text: &str) -> Reply {
    Reply {
        chat_id: -100,
        text: text.to_string(),
        parse_mode: ParseMode::Plain,
        reply_to: Some(77),
    }
}

fn drive(message: ChatMessage, text: &str, mut outside: Outside) -> Trace {
    let mut actions = Vec::new();
    let mut replies = Vec::new();
    let (mut state, mut step) = command_handler(message, text.to_string());
    loop {
        for op in &step.store_ops {
            outside.roster.apply(op);
        }
        let event = match step.action {
            Action::QueryRole { chat_id, user_id } => {
                actions.push(format!("role {} {}", chat_id, user_id));
                Event::Role(outside.role)
            }
            Action::FetchAdministrators { chat_id } => {
                actions.push(format!("administrators {}", chat_id));
                Event::Administrators(outside.administrators.clone())
            }
            Action::ReadRoster { chat_id } => {
                actions.push(format!("roster {}", chat_id));
                if outside.roster_fails {
                    Event::Roster(None)
                } else {
                    Event::Roster(Some(outside.roster.list(chat_id)))
                }
            }
            Action::Send(reply) => {
                actions.push("send".to_string());
                replies.push(reply);
                Event::Sent(!outside.send_fails)
            }
            Action::Finish(outcome) => {
                assert_eq!(state.phase, Phase::Done);
                return Trace { actions, replies, outcome, outside };
            }
        };
        let moved = handle_all_command(state, event);
        state = moved.0;
        step = moved.1;
    }
}

#[test]
fn command_in_a_direct_chat_is_refused_without_roster_access() {
    let trace = drive(
        invocation(ChatKind::Private, Some(person(1, "Ann"))),
        "hello",
        outside(Some(RoleKind::Owner)),
    );
    assert_eq!(trace.actions, vec!["send"]);
    assert_eq!(trace.replies, vec![notice(GROUPS_ONLY)]);
    assert_eq!(trace.outcome, Ok(()));
    assert_eq!(trace.outside.roster.list(-100), Vec::<User>::new());
}

#[test]
fn command_in_a_channel_is_refused() {
    let trace = drive(invocation(ChatKind::Channel, None), "", outside(None));
    assert_eq!(trace.actions, vec!["send"]);
    assert_eq!(trace.replies, vec![notice(GROUPS_ONLY)]);
    assert_eq!(trace.outcome, Ok(()));
}

#[test]
fn command_by_an_ordinary_member_is_refused() {
    let mut world = outside(Some(RoleKind::Member));
    world.administrators = Some(vec![person(9, "Boss")]);
    let trace = drive(invocation(ChatKind::Group, Some(person(1, "Ann"))), "hi", world);
    assert_eq!(trace.actions, vec!["role -100 1", "send"]);
    assert_eq!(trace.replies, vec![notice(ADMINS_ONLY)]);
    assert_eq!(trace.outcome, Ok(()));
    assert_eq!(
        trace.outside.roster.list(-100),
        vec![User { user_id: 1, first_name: "Ann".to_string() }]
    );
}

#[test]
fn every_unprivileged_role_is_refused() {
    for role in [
        RoleKind::Member,
        RoleKind::Restricted,
        RoleKind::Left,
        RoleKind::Kicked,
        RoleKind::Banned,
    ] {
        let trace =
            drive(invocation(ChatKind::Supergroup, Some(person(1, "Ann"))), "", outside(Some(role)));
        assert_eq!(trace.actions, vec!["role -100 1", "send"]);
        assert_eq!(trace.replies, vec![notice(ADMINS_ONLY)]);
    }
}

#[test]
fn command_without_author_ends_in_silence() {
    let trace = drive(invocation(ChatKind::Group, None), "hi", outside(Some(RoleKind::Owner)));
    assert_eq!(trace.actions, Vec::<String>::new());
    assert_eq!(trace.replies, Vec::<Reply>::new());
    assert_eq!(trace.outcome, Ok(()));
}

#[test]
fn unknown_role_fails_the_command_without_a_reply() {
    let trace = drive(invocation(ChatKind::Group, Some(person(1, "Ann"))), "hi", outside(None));
    assert_eq!(trace.actions, vec!["role -100 1"]);
    assert_eq!(trace.replies, Vec::<Reply>::new());
    assert_eq!(trace.outcome, Err(CommandError::RoleQuery));
}

#[test]
fn privileged_caller_with_nobody_tracked_gets_the_notice() {
    let trace = drive(
        invocation(ChatKind::Group, Some(automaton(1, "Service"))),
        "hi",
        outside(Some(RoleKind::Administrator)),
    );
    assert_eq!(trace.actions, vec!["role -100 1", "administrators -100", "roster -100", "send"]);
    assert_eq!(trace.replies, vec![notice(NOBODY_TRACKED)]);
    assert_eq!(trace.outcome, Ok(()));
}

#[test]
fn unreadable_roster_counts_as_empty() {
    let mut world = outside(Some(RoleKind::Owner));
    world.roster_fails = true;
    let trace = drive(invocation(ChatKind::Group, Some(person(1, "Ann"))), "hi", world);
    assert_eq!(trace.actions, vec!["role -100 1", "administrators -100", "roster -100", "send"]);
    assert_eq!(trace.replies, vec![notice(NOBODY_TRACKED)]);
    assert_eq!(trace.outcome, Ok(()));
}

#[test]
fn privileged_caller_mentions_everybody() {
    let mut world = outside(Some(RoleKind::Owner));
    world.roster.upsert(-100, 5, "Eve");
    world.roster.upsert(-200, 6, "Elsewhere");
    world.administrators = Some(vec![person(1, "Ann"), automaton(2, "Bot"), person(3, "C.J.")]);
    let trace = drive(invocation(ChatKind::Supergroup, Some(person(1, "Ann"))), " Hi *team* ", world);
    assert_eq!(trace.actions, vec!["role -100 1", "administrators -100", "roster -100", "send"]);
    assert_eq!(
        trace.replies,
        vec![Reply {
            chat_id: -100,
            text: "Hi \\*team\\*\n||[Eve](tg://user?id=5) [Ann](tg://user?id=1) [C\\.J\\.](tg://user?id=3)||"
                .to_string(),
            parse_mode: ParseMode::MarkdownV2,
            reply_to: Some(77),
        }]
    );
    assert_eq!(trace.outcome, Ok(()));
}

#[test]
fn administrators_that_cannot_be_fetched_are_passed_over() {
    let mut world = outside(Some(RoleKind::Administrator));
    world.roster.upsert(-100, 5, "Eve");
    let trace = drive(invocation(ChatKind::Group, Some(person(1, "Ann"))), "", world);
    assert_eq!(
        trace.replies,
        vec![Reply {
            chat_id: -100,
            text: "||[Eve](tg://user?id=5) [Ann](tg://user?id=1)||".to_string(),
            parse_mode: ParseMode::MarkdownV2,
            reply_to: Some(77),
        }]
    );
}

#[test]
fn failed_send_fails_the_command() {
    let mut world = outside(Some(RoleKind::Member));
    world.send_fails = true;
    let trace = drive(invocation(ChatKind::Group, Some(person(1, "Ann"))), "", world);
    assert_eq!(trace.replies.len(), 1);
    assert_eq!(trace.outcome, Err(CommandError::Send));
}

#[test]
fn failed_send_of_the_mentions_fails_the_command() {
    let mut world = outside(Some(RoleKind::Owner));
    world.send_fails = true;
    let trace = drive(invocation(ChatKind::Group, Some(person(1, "Ann"))), "", world);
    assert_eq!(trace.replies.len(), 1);
    assert_eq!(trace.outcome, Err(CommandError::Send));
}

#[test]
fn opening_move_in_a_group() {
    let (state, step) =
        command_handler(invocation(ChatKind::Group, Some(person(1, "Ann"))), "x".to_string());
    assert_eq!(state.phase, Phase::AwaitingRole);
    assert_eq!(state.text, "x");
    assert_eq!(
        step,
        Step {
            store_ops: vec![StoreOp::Upsert {
                chat_id: -100,
                user_id: 1,
                first_name: "Ann".to_string()
            }],
            action: Action::QueryRole { chat_id: -100, user_id: 1 },
        }
    );
}

#[test]
fn administrators_are_tracked_before_the_roster_is_read() {
    let (state, _) =
        command_handler(invocation(ChatKind::Group, Some(person(1, "Ann"))), String::new());
    let (state, step) = handle_all_command(state, Event::Role(Some(RoleKind::Owner)));
    assert_eq!(state.phase, Phase::AwaitingAdministrators);
    assert_eq!(
        step,
        Step { store_ops: Vec::new(), action: Action::FetchAdministrators { chat_id: -100 } }
    );
    let administrators = vec![automaton(8, "Bot"), person(9, "Boss")];
    let (state, step) = handle_all_command(state, Event::Administrators(Some(administrators)));
    assert_eq!(state.phase, Phase::AwaitingRoster);
    assert_eq!(
        step,
        Step {
            store_ops: vec![StoreOp::Upsert {
                chat_id: -100,
                user_id: 9,
                first_name: "Boss".to_string()
            }],
            action: Action::ReadRoster { chat_id: -100 },
        }
    );
}

#[test]
fn an_answer_to_what_was_not_asked_ends_the_command() {
    let fresh = || command_handler(invocation(ChatKind::Group, Some(person(1, "Ann"))), String::new()).0;
    let unexpected =
        Step { store_ops: Vec::new(), action: Action::Finish(Err(CommandError::UnexpectedEvent)) };
    let (state, step) = handle_all_command(fresh(), Event::Sent(true));
    assert_eq!(state.phase, Phase::Done);
    assert_eq!(step, unexpected);
    let (_, step) = handle_all_command(fresh(), Event::Roster(None));
    assert_eq!(step, unexpected);
    let (_, step) = handle_all_command(fresh(), Event::Administrators(None));
    assert_eq!(step, unexpected);
    let done = AllCommand {
        message: invocation(ChatKind::Group, None),
        text: String::new(),
        phase: Phase::Done,
    };
    let (state, step) = handle_all_command(done, Event::Role(Some(RoleKind::Owner)));
    assert_eq!(state.phase, Phase::Done);
    assert_eq!(step, unexpected);
}

#[test]
fn administrators_of_a_chat_that_is_no_group_are_not_tracked() {
    let outside_group = AllCommand {
        message: invocation(ChatKind::Private, Some(person(1, "Ann"))),
        text: String::new(),
        phase: Phase::AwaitingAdministrators,
    };
    let (state, step) =
        handle_all_command(outside_group, Event::Administrators(Some(vec![person(9, "Boss")])));
    assert_eq!(state.phase, Phase::AwaitingRoster);
    assert_eq!(step, Step { store_ops: Vec::new(), action: Action::ReadRoster { chat_id: -100 } });
}
