//! The command by which an administrator mentions everybody in a group.
//!
//! Handling the command takes several exchanges with the outside: the
//! caller's role is asked for, the administrators are fetched, the roster is
//! read, a reply is sent. None of that can be done here. The command is
//! therefore a state machine: [`command_handler`] opens it, and
//! [`handle_all_command`] takes the answer to what was asked last and
//! decides what comes next. Whoever drives the machine makes the roster
//! changes of each [`Step`], in order and without regard to their outcome,
//! then does what its [`Action`] asks and hands back the answer.

use crate::events::{
    author_op, joined_ops, option_seq, track_joined, track_message_user, ChatMessage,
    ChatMessageView, Participant, ParticipantView, RoleKind,
};
use crate::mention::{compose_mentions, mention_message};
use crate::roster::{StoreOp, StoreOpView, User, UserView};
use vstd::prelude::*;

verus! {

/// How the platform is to read the text of a reply.
#[derive(Clone, Copy, Debug, PartialEq, Eq, Structural)]
pub enum ParseMode {
    /// As it stands.
    Plain,
    /// As MarkdownV2 markup.
    MarkdownV2,
}

/// A message to send into a chat.
#[derive(Debug, PartialEq, Eq)]
pub struct Reply {
    pub chat_id: i64,
    pub text: String,
    pub parse_mode: ParseMode,
    /// The message that this one answers.
    pub reply_to: Option<i32>,
}

/// What a [`Reply`] stands for.
pub ghost struct ReplyView {
    pub chat_id: i64,
    pub text: Seq<char>,
    pub parse_mode: ParseMode,
    pub reply_to: Option<i32>,
}

impl View for Reply {
    type V = ReplyView;

    open spec fn view(&self) -> ReplyView {
        ReplyView {
            chat_id: self.chat_id,
            text: self.text@,
            parse_mode: self.parse_mode,
            reply_to: self.reply_to,
        }
    }
}

/// Why a command ended without having done its work.
#[derive(Clone, Copy, Debug, PartialEq, Eq, Structural)]
pub enum CommandError {
    /// The caller's role could not be found out.
    RoleQuery,
    /// The reply could not be sent.
    Send,
    /// The machine was handed an event that does not answer what it had
    /// asked for.
    UnexpectedEvent,
}

/// What the machine asks of the outside.
#[derive(Debug, PartialEq, Eq)]
pub enum Action {
    /// Find out the role of the participant in the chat, and answer with
    /// [`Event::Role`].
    QueryRole { chat_id: i64, user_id: u64 },
    /// Fetch the administrators of the chat, and answer with
    /// [`Event::Administrators`].
    FetchAdministrators { chat_id: i64 },
    /// Read the roster of the chat, and answer with [`Event::Roster`].
    ReadRoster { chat_id: i64 },
    /// Send the reply, and answer with [`Event::Sent`].
    Send(Reply),
    /// Nothing more: the command has ended, in this way.
    Finish(Result<(), CommandError>),
}

/// What an [`Action`] stands for.
pub ghost enum ActionView {
    QueryRole { chat_id: i64, user_id: u64 },
    FetchAdministrators { chat_id: i64 },
    ReadRoster { chat_id: i64 },
    Send(ReplyView),
    Finish(Result<(), CommandError>),
}

impl View for Action {
    type V = ActionView;

    open spec fn view(&self) -> ActionView {
        match self {
            Action::QueryRole { chat_id, user_id } => ActionView::QueryRole {
                chat_id: *chat_id,
                user_id: *user_id,
            },
            Action::FetchAdministrators { chat_id } => ActionView::FetchAdministrators {
                chat_id: *chat_id,
            },
            Action::ReadRoster { chat_id } => ActionView::ReadRoster { chat_id: *chat_id },
            Action::Send(reply) => ActionView::Send(reply@),
            Action::Finish(outcome) => ActionView::Finish(*outcome),
        }
    }
}

/// One move of the machine: roster changes to make, then an action to take.
#[derive(Debug, PartialEq, Eq)]
pub struct Step {
    /// The roster changes, to be made in order and all at once. A change
    /// that fails is passed over.
    pub store_ops: Vec<StoreOp>,
    pub action: Action,
}

/// What a [`Step`] stands for.
pub ghost struct StepView {
    pub store_ops: Seq<StoreOpView>,
    pub action: ActionView,
}

impl View for Step {
    type V = StepView;

    open spec fn view(&self) -> StepView {
        StepView { store_ops: self.store_ops.deep_view(), action: self.action@ }
    }
}

/// The answer of the outside to an [`Action`].
#[derive(Debug, PartialEq, Eq)]
pub enum Event {
    /// The caller's role, or `None` where it could not be found out.
    Role(Option<RoleKind>),
    /// The administrators of the chat, or `None` where they could not be
    /// fetched.
    Administrators(Option<Vec<Participant>>),
    /// The roster of the chat, or `None` where it could not be read.
    Roster(Option<Vec<User>>),
    /// Whether the reply was sent.
    Sent(bool),
}

/// What an [`Event`] stands for.
pub ghost enum EventView {
    Role(Option<RoleKind>),
    Administrators(Option<Seq<ParticipantView>>),
    Roster(Option<Seq<UserView>>),
    Sent(bool),
}

impl View for Event {
    type V = EventView;

    open spec fn view(&self) -> EventView {
        match self {
            Event::Role(answer) => EventView::Role(*answer),
            Event::Administrators(answer) => EventView::Administrators(answer.deep_view()),
            Event::Roster(answer) => EventView::Roster(answer.deep_view()),
            Event::Sent(sent) => EventView::Sent(*sent),
        }
    }
}

/// What the machine is waiting for.
#[derive(Clone, Copy, Debug, PartialEq, Eq, Structural)]
pub enum Phase {
    AwaitingRole,
    AwaitingAdministrators,
    AwaitingRoster,
    AwaitingSend,
    Done,
}

impl Phase {
    /// How many answers the machine can still take before it is done.
    pub open spec fn remaining(self) -> nat {
        match self {
            Phase::AwaitingRole => 4,
            Phase::AwaitingAdministrators => 3,
            Phase::AwaitingRoster => 2,
            Phase::AwaitingSend => 1,
            Phase::Done => 0,
        }
    }
}

/// One invocation of the command, under way.
#[derive(Debug, PartialEq, Eq)]
pub struct AllCommand {
    /// The message that invoked the command.
    pub message: ChatMessage,
    /// What the caller wrote after the command's name.
    pub text: String,
    pub phase: Phase,
}

/// What an [`AllCommand`] stands for.
pub ghost struct AllCommandView {
    pub message: ChatMessageView,
    pub text: Seq<char>,
    pub phase: Phase,
}

impl View for AllCommand {
    type V = AllCommandView;

    open spec fn view(&self) -> AllCommandView {
        AllCommandView { message: self.message@, text: self.text@, phase: self.phase }
    }
}

impl AllCommandView {
    /// The same invocation in another phase.
    pub open spec fn at(self, phase: Phase) -> AllCommandView {
        AllCommandView { phase, ..self }
    }

    /// A notice in plain text that answers the invoking message.
    pub open spec fn notice(self, text: Seq<char>) -> ReplyView {
        ReplyView {
            chat_id: self.message.chat_id,
            text,
            parse_mode: ParseMode::Plain,
            reply_to: Some(self.message.message_id),
        }
    }

    /// The move that sends `reply` and waits for the outcome.
    pub open spec fn sending(self, reply: ReplyView) -> (AllCommandView, StepView) {
        (
            self.at(Phase::AwaitingSend),
            StepView { store_ops: Seq::empty(), action: ActionView::Send(reply) },
        )
    }

    /// The move that ends the command.
    pub open spec fn finishing(self, outcome: Result<(), CommandError>) -> (
        AllCommandView,
        StepView,
    ) {
        (
            self.at(Phase::Done),
            StepView { store_ops: Seq::empty(), action: ActionView::Finish(outcome) },
        )
    }
}

/// The notice for a command that was invoked outside a group.
pub open spec fn groups_only_notice() -> Seq<char> {
    "This command only works in groups."@
}

/// The notice for a caller who is no administrator.
pub open spec fn admins_only_notice() -> Seq<char> {
    "Only admins can use this command."@
}

/// The notice for a chat of which nobody is tracked.
pub open spec fn nobody_tracked_notice() -> Seq<char> {
    "No users tracked yet. Users will be tracked as they send messages or join the group."@
}

/// The roster changes that follow from the fetching of a chat's
/// administrators: in a group, those of them whose account is not automated
/// are tracked, in their order. Outside groups, and where the administrators
/// could not be fetched, nothing follows.
pub open spec fn administrators_ops(
    message: ChatMessageView,
    answer: Option<Seq<ParticipantView>>,
) -> Seq<StoreOpView> {
    match answer {
        Some(administrators) => if message.chat_kind.spec_is_group_type() {
            joined_ops(message.chat_id, administrators)
        } else {
            Seq::empty()
        },
        None => Seq::empty(),
    }
}

/// The first move. The author of the invoking message is tracked as the
/// author of any message is. Outside a group the command is refused with a
/// notice; in a group its author's role is asked for; without an author it
/// ends at once and in silence.
pub open spec fn opening(message: ChatMessageView, text: Seq<char>) -> (AllCommandView, StepView) {
    let state = AllCommandView { message, text, phase: Phase::AwaitingRole };
    if !message.chat_kind.spec_is_group_type() {
        state.sending(state.notice(groups_only_notice()))
    } else {
        match message.from {
            None => state.finishing(Ok(())),
            Some(author) => (
                state,
                StepView {
                    store_ops: option_seq(author_op(message)),
                    action: ActionView::QueryRole { chat_id: message.chat_id, user_id: author.id },
                },
            ),
        }
    }
}

/// The move that follows an answer.
///
/// - To the caller's role: where it could not be found out, the command
///   fails; a caller who is neither owner nor administrator is refused with
///   a notice; for any other the administrators are fetched.
/// - To the administrators: in a group, those whose account is not automated
///   are tracked, and the roster is read. Where they could not be fetched,
///   the roster is read as it is.
/// - To the roster: where it is empty or could not be read, a notice says
///   so; else the message that mentions everybody on it is sent.
/// - To the sending of a reply: the command ends, with success if the reply
///   was sent.
///
/// An answer to what was not asked ends the command with
/// [`CommandError::UnexpectedEvent`].
pub open spec fn next(state: AllCommandView, event: EventView) -> (AllCommandView, StepView) {
    let chat_id = state.message.chat_id;
    match event {
        EventView::Role(answer) => match state.phase {
            Phase::AwaitingRole => match answer {
                None => state.finishing(Err(CommandError::RoleQuery)),
                Some(role) => if role.spec_is_privileged() {
                    (
                        state.at(Phase::AwaitingAdministrators),
                        StepView {
                            store_ops: Seq::empty(),
                            action: ActionView::FetchAdministrators { chat_id },
                        },
                    )
                } else {
                    state.sending(state.notice(admins_only_notice()))
                },
            },
            _ => state.finishing(Err(CommandError::UnexpectedEvent)),
        },
        EventView::Administrators(answer) => match state.phase {
            Phase::AwaitingAdministrators => (
                state.at(Phase::AwaitingRoster),
                StepView {
                    store_ops: administrators_ops(state.message, answer),
                    action: ActionView::ReadRoster { chat_id },
                },
            ),
            _ => state.finishing(Err(CommandError::UnexpectedEvent)),
        },
        EventView::Roster(answer) => match state.phase {
            Phase::AwaitingRoster => {
                let users = match answer {
                    Some(users) => users,
                    None => Seq::empty(),
                };
                if users.len() == 0 {
                    state.sending(state.notice(nobody_tracked_notice()))
                } else {
                    state.sending(
                        ReplyView {
                            chat_id,
                            text: mention_message(users, state.text),
                            parse_mode: ParseMode::MarkdownV2,
                            reply_to: Some(state.message.message_id),
                        },
                    )
                }
            },
            _ => state.finishing(Err(CommandError::UnexpectedEvent)),
        },
        EventView::Sent(sent) => match state.phase {
            Phase::AwaitingSend => state.finishing(
                if sent {
                    Ok(())
                } else {
                    Err(CommandError::Send)
                },
            ),
            _ => state.finishing(Err(CommandError::UnexpectedEvent)),
        },
    }
}

fn notice(command: &AllCommand, text: &str) -> (reply: Reply)
    ensures
        reply@ == command@.notice(text@),
{
    Reply {
        chat_id: command.message.chat_id,
        text: text.to_owned(),
        parse_mode: ParseMode::Plain,
        reply_to: Some(command.message.message_id),
    }
}

fn sending(command: AllCommand, reply: Reply) -> (moved: (AllCommand, Step))
    ensures
        (moved.0@, moved.1@) == command@.sending(reply@),
{
    let moved = AllCommand { message: command.message, text: command.text, phase: Phase::AwaitingSend };
    let step = Step { store_ops: Vec::new(), action: Action::Send(reply) };
    assert(step.store_ops.deep_view() =~= Seq::<StoreOpView>::empty());
    (moved, step)
}

fn finishing(command: AllCommand, outcome: Result<(), CommandError>) -> (moved: (AllCommand, Step))
    ensures
        (moved.0@, moved.1@) == command@.finishing(outcome),
{
    let moved = AllCommand { message: command.message, text: command.text, phase: Phase::Done };
    let step = Step { store_ops: Vec::new(), action: Action::Finish(outcome) };
    assert(step.store_ops.deep_view() =~= Seq::<StoreOpView>::empty());
    (moved, step)
}

/// Opens the command for the message that invoked it and the text that the
/// caller wrote after its name, and makes the first move.
pub fn command_handler(message: ChatMessage, text: String) -> (opened: (AllCommand, Step))
    ensures
        (opened.0@, opened.1@) == opening(message@, text@),
{
    let mut store_ops: Vec<StoreOp> = Vec::new();
    if let Some(op) = track_message_user(&message) {
        store_ops.push(op);
    }
    assert(store_ops.deep_view() =~= option_seq(author_op(message@)));
    let command = AllCommand { message, text, phase: Phase::AwaitingRole };
    if !command.message.chat_kind.is_group_type() {
        let reply = notice(&command, "This command only works in groups.");
        return sending(command, reply);
    }
    let user_id = match &command.message.from {
        None => {
            return finishing(command, Ok(()));
        },
        Some(author) => author.id,
    };
    let action = Action::QueryRole { chat_id: command.message.chat_id, user_id };
    (command, Step { store_ops, action })
}

/// Takes the answer to what the machine asked last, and makes the next move.
pub fn handle_all_command(command: AllCommand, event: Event) -> (moved: (AllCommand, Step))
    ensures
        (moved.0@, moved.1@) == next(command@, event@),
{
    let chat_id = command.message.chat_id;
    match event {
        Event::Role(answer) => match command.phase {
            Phase::AwaitingRole => match answer {
                None => finishing(command, Err(CommandError::RoleQuery)),
                Some(role) => {
                    if role.is_privileged() {
                        let moved = AllCommand {
                            message: command.message,
                            text: command.text,
                            phase: Phase::AwaitingAdministrators,
                        };
                        let step = Step {
                            store_ops: Vec::new(),
                            action: Action::FetchAdministrators { chat_id },
                        };
                        assert(step.store_ops.deep_view() =~= Seq::<StoreOpView>::empty());
                        (moved, step)
                    } else {
                        let reply = notice(&command, "Only admins can use this command.");
                        sending(command, reply)
                    }
                },
            },
            _ => finishing(command, Err(CommandError::UnexpectedEvent)),
        },
        Event::Administrators(answer) => match command.phase {
            Phase::AwaitingAdministrators => {
                let store_ops = match &answer {
                    Some(administrators) => {
                        if command.message.chat_kind.is_group_type() {
                            track_joined(chat_id, administrators)
                        } else {
                            Vec::new()
                        }
                    },
                    None => Vec::new(),
                };
                assert(store_ops.deep_view() =~= administrators_ops(
                    command@.message,
                    answer.deep_view(),
                ));
                let moved = AllCommand {
                    message: command.message,
                    text: command.text,
                    phase: Phase::AwaitingRoster,
                };
                (moved, Step { store_ops, action: Action::ReadRoster { chat_id } })
            },
            _ => finishing(command, Err(CommandError::UnexpectedEvent)),
        },
        Event::Roster(answer) => match command.phase {
            Phase::AwaitingRoster => {
                let users = match answer {
                    Some(users) => users,
                    None => Vec::new(),
                };
                assert(answer is None ==> users.deep_view() =~= Seq::<UserView>::empty());
                if users.len() == 0 {
                    let reply = notice(
                        &command,
                        "No users tracked yet. Users will be tracked as they send messages or join the group.",
                    );
                    sending(command, reply)
                } else {
                    let reply = Reply {
                        chat_id,
                        text: compose_mentions(&users, command.text.as_str()),
                        parse_mode: ParseMode::MarkdownV2,
                        reply_to: Some(command.message.message_id),
                    };
                    sending(command, reply)
                }
            },
            _ => finishing(command, Err(CommandError::UnexpectedEvent)),
        },
        Event::Sent(sent) => match command.phase {
            Phase::AwaitingSend => finishing(
                command,
                if sent {
                    Ok(())
                } else {
                    Err(CommandError::Send)
                },
            ),
            _ => finishing(command, Err(CommandError::UnexpectedEvent)),
        },
    }
}

/// What the outside answers to each thing that the machine asks in the
/// course of one command.
pub ghost struct Answers {
    /// The caller's role, or `None` where it cannot be found out.
    pub role: Option<RoleKind>,
    /// The administrators of the chat, or `None` where they cannot be
    /// fetched.
    pub administrators: Option<Seq<ParticipantView>>,
    /// The roster of the chat as it is read, or `None` where it cannot be
    /// read.
    pub roster: Option<Seq<UserView>>,
    /// Whether a reply can be sent.
    pub sent: bool,
}

/// The event that answers `action`, or `None` where the action ends the
/// command.
pub open spec fn answer(action: ActionView, answers: Answers) -> Option<EventView> {
    match action {
        ActionView::QueryRole { .. } => Some(EventView::Role(answers.role)),
        ActionView::FetchAdministrators { .. } => Some(
            EventView::Administrators(answers.administrators),
        ),
        ActionView::ReadRoster { .. } => Some(EventView::Roster(answers.roster)),
        ActionView::Send(_) => Some(EventView::Sent(answers.sent)),
        ActionView::Finish(_) => None,
    }
}

/// The moves that the machine makes from `step` on, where every action is
/// answered as `answers` says.
pub open spec fn run_from(state: AllCommandView, step: StepView, answers: Answers) -> Seq<StepView>
    decreases state.phase.remaining(),
{
    match answer(step.action, answers) {
        None => seq![step],
        Some(event) => {
            let (after, then) = next(state, event);
            if after.phase.remaining() < state.phase.remaining() {
                seq![step] + run_from(after, then, answers)
            } else {
                seq![step]
            }
        },
    }
}

/// All the moves of one command, from the first to the one that ends it.
pub open spec fn run(message: ChatMessageView, text: Seq<char>, answers: Answers) -> Seq<StepView> {
    let (state, step) = opening(message, text);
    run_from(state, step, answers)
}

/// All the roster changes of a run of moves, in order.
pub open spec fn changes(steps: Seq<StepView>) -> Seq<StoreOpView>
    decreases steps.len(),
{
    if steps.len() == 0 {
        Seq::empty()
    } else {
        changes(steps.drop_last()) + steps.last().store_ops
    }
}

/// The move that makes no roster change and takes `action`.
pub open spec fn bare(action: ActionView) -> StepView {
    StepView { store_ops: Seq::empty(), action }
}

/// How a command ends after its reply was or was not sent.
pub open spec fn outcome_of_send(sent: bool) -> Result<(), CommandError> {
    if sent {
        Ok(())
    } else {
        Err(CommandError::Send)
    }
}

/// A notice in plain text that answers `message`.
pub open spec fn notice_for(message: ChatMessageView, text: Seq<char>) -> ReplyView {
    ReplyView {
        chat_id: message.chat_id,
        text,
        parse_mode: ParseMode::Plain,
        reply_to: Some(message.message_id),
    }
}

/// Outside a group the command does one thing: it answers the invoking
/// message with the notice that it works in groups only. The roster is
/// neither changed nor read, and nobody's role is asked for.
pub proof fn lemma_command_outside_group(message: ChatMessageView, text: Seq<char>, answers: Answers)
    requires
        !message.chat_kind.spec_is_group_type(),
    ensures
        run(message, text, answers) == seq![
            bare(ActionView::Send(notice_for(message, groups_only_notice()))),
            bare(ActionView::Finish(outcome_of_send(answers.sent))),
        ],
        changes(run(message, text, answers)) == Seq::<StoreOpView>::empty(),
{
    reveal_with_fuel(run_from, 3);
    let steps = seq![
        bare(ActionView::Send(notice_for(message, groups_only_notice()))),
        bare(ActionView::Finish(outcome_of_send(answers.sent))),
    ];
    assert(run(message, text, answers) =~= steps);
    assert(steps.drop_last() =~= seq![steps[0]]);
    assert(steps.drop_last().drop_last() =~= Seq::<StepView>::empty());
    reveal_with_fuel(changes, 3);
    assert(changes(steps) =~= Seq::<StoreOpView>::empty());
}

/// In a group, a command without a known author ends at once: nothing is
/// sent, and the roster is neither changed nor read.
pub proof fn lemma_command_without_author(message: ChatMessageView, text: Seq<char>, answers: Answers)
    requires
        message.chat_kind.spec_is_group_type(),
        message.from is None,
    ensures
        run(message, text, answers) == seq![bare(ActionView::Finish(Ok(())))],
{
    reveal_with_fuel(run_from, 2);
}

/// Where the caller's role cannot be found out, the command fails without
/// a reply. The caller has been tracked, and nothing else has happened.
pub proof fn lemma_command_role_unknown(message: ChatMessageView, text: Seq<char>, answers: Answers)
    requires
        message.chat_kind.spec_is_group_type(),
        message.from is Some,
        answers.role is None,
    ensures
        run(message, text, answers) == seq![
            StepView {
                store_ops: option_seq(author_op(message)),
                action: ActionView::QueryRole {
                    chat_id: message.chat_id,
                    user_id: message.from->0.id,
                },
            },
            bare(ActionView::Finish(Err(CommandError::RoleQuery))),
        ],
{
    reveal_with_fuel(run_from, 3);
    assert(run(message, text, answers) =~= seq![
        StepView {
            store_ops: option_seq(author_op(message)),
            action: ActionView::QueryRole { chat_id: message.chat_id, user_id: message.from->0.id },
        },
        bare(ActionView::Finish(Err(CommandError::RoleQuery))),
    ]);
}

/// A caller who is neither owner nor administrator is refused: the caller
/// is tracked as the author of any message is, the one reply is the notice
/// that the command is for administrators, the administrators are not
/// fetched, and the roster is not read.
pub proof fn lemma_command_by_unprivileged(message: ChatMessageView, text: Seq<char>, answers: Answers)
    requires
        message.chat_kind.spec_is_group_type(),
        message.from is Some,
        answers.role matches Some(role) && !role.spec_is_privileged(),
    ensures
        run(message, text, answers) == seq![
            StepView {
                store_ops: option_seq(author_op(message)),
                action: ActionView::QueryRole {
                    chat_id: message.chat_id,
                    user_id: message.from->0.id,
                },
            },
            bare(ActionView::Send(notice_for(message, admins_only_notice()))),
            bare(ActionView::Finish(outcome_of_send(answers.sent))),
        ],
        changes(run(message, text, answers)) == option_seq(author_op(message)),
{
    reveal_with_fuel(run_from, 4);
    let steps = seq![
        StepView {
            store_ops: option_seq(author_op(message)),
            action: ActionView::QueryRole { chat_id: message.chat_id, user_id: message.from->0.id },
        },
        bare(ActionView::Send(notice_for(message, admins_only_notice()))),
        bare(ActionView::Finish(outcome_of_send(answers.sent))),
    ];
    assert(run(message, text, answers) =~= steps);
    assert(steps.drop_last() =~= seq![steps[0], steps[1]]);
    assert(steps.drop_last().drop_last() =~= seq![steps[0]]);
    assert(steps.drop_last().drop_last().drop_last() =~= Seq::<StepView>::empty());
    reveal_with_fuel(changes, 4);
    assert(changes(steps) =~= option_seq(author_op(message)));
}

/// What an owner's or administrator's command does up to the reading of the
/// roster: the caller is tracked and the role asked for, the administrators
/// are fetched, those of them that are not automated are tracked, and the
/// roster is read.
pub open spec fn privileged_prefix(message: ChatMessageView, answers: Answers) -> Seq<StepView> {
    seq![
        StepView {
            store_ops: option_seq(author_op(message)),
            action: ActionView::QueryRole { chat_id: message.chat_id, user_id: message.from->0.id },
        },
        bare(ActionView::FetchAdministrators { chat_id: message.chat_id }),
        StepView {
            store_ops: administrators_ops(message, answers.administrators),
            action: ActionView::ReadRoster { chat_id: message.chat_id },
        },
    ]
}

/// Where the roster is read as empty, or cannot be read, an owner's or
/// administrator's command sends one reply: the notice that nobody is
/// tracked yet.
pub proof fn lemma_command_with_nobody_tracked(
    message: ChatMessageView,
    text: Seq<char>,
    answers: Answers,
)
    requires
        message.chat_kind.spec_is_group_type(),
        message.from is Some,
        answers.role matches Some(role) && role.spec_is_privileged(),
        answers.roster matches Some(users) ==> users.len() == 0,
    ensures
        run(message, text, answers) == privileged_prefix(message, answers) + seq![
            bare(ActionView::Send(notice_for(message, nobody_tracked_notice()))),
            bare(ActionView::Finish(outcome_of_send(answers.sent))),
        ],
{
    reveal_with_fuel(run_from, 6);
    assert(run(message, text, answers) =~= privileged_prefix(message, answers) + seq![
        bare(ActionView::Send(notice_for(message, nobody_tracked_notice()))),
        bare(ActionView::Finish(outcome_of_send(answers.sent))),
    ]);
}

/// Where somebody is tracked, an owner's or administrator's command sends
/// one reply: the message that mentions everybody on the roster as it was
/// read, to be read as MarkdownV2, in answer to the invoking message.
pub proof fn lemma_command_mentions_everybody(
    message: ChatMessageView,
    text: Seq<char>,
    answers: Answers,
)
    requires
        message.chat_kind.spec_is_group_type(),
        message.from is Some,
        answers.role matches Some(role) && role.spec_is_privileged(),
        answers.roster matches Some(users) && users.len() > 0,
    ensures
        run(message, text, answers) == privileged_prefix(message, answers) + seq![
            bare(
                ActionView::Send(
                    ReplyView {
                        chat_id: message.chat_id,
                        text: mention_message(answers.roster->0, text),
                        parse_mode: ParseMode::MarkdownV2,
                        reply_to: Some(message.message_id),
                    },
                ),
            ),
            bare(ActionView::Finish(outcome_of_send(answers.sent))),
        ],
{
    reveal_with_fuel(run_from, 6);
    assert(run(message, text, answers) =~= privileged_prefix(message, answers) + seq![
        bare(
            ActionView::Send(
                ReplyView {
                    chat_id: message.chat_id,
                    text: mention_message(answers.roster->0, text),
                    parse_mode: ParseMode::MarkdownV2,
                    reply_to: Some(message.message_id),
                },
            ),
        ),
        bare(ActionView::Finish(outcome_of_send(answers.sent))),
    ]);
}

/// Whatever the outside answers, a command comes to an end, its last move
/// and no other ends it, it sends at most one reply, and a reply goes to the
/// chat of the invoking message and answers that message.
pub proof fn lemma_run_shape(message: ChatMessageView, text: Seq<char>, answers: Answers)
    ensures
        ({
            let steps = run(message, text, answers);
            &&& 1 <= steps.len() <= 5
            &&& forall|i: int|
                0 <= i < steps.len() ==> ((#[trigger] steps[i]).action is Finish <==> i
                    == steps.len() - 1)
            &&& forall|i: int, j: int|
                0 <= i < j < steps.len() ==> !((#[trigger] steps[i]).action is Send && (
                #[trigger] steps[j]).action is Send)
            &&& forall|i: int|
                0 <= i < steps.len() ==> ((#[trigger] steps[i]).action matches ActionView::Send(
                    reply,
                ) ==> reply.chat_id == message.chat_id && reply.reply_to == Some(
                    message.message_id,
                ))
        }),
{
    if !message.chat_kind.spec_is_group_type() {
        lemma_command_outside_group(message, text, answers);
    } else if message.from is None {
        lemma_command_without_author(message, text, answers);
    } else {
        match answers.role {
            None => {
                lemma_command_role_unknown(message, text, answers);
            },
            Some(role) => {
                if !role.spec_is_privileged() {
                    lemma_command_by_unprivileged(message, text, answers);
                } else if answers.roster is Some && answers.roster->0.len() > 0 {
                    lemma_command_mentions_everybody(message, text, answers);
                } else {
                    lemma_command_with_nobody_tracked(message, text, answers);
                }
            },
        }
    }
}

} // verus!
