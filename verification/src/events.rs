//! What is observed in a chat, and which roster changes follow from it.
//!
//! Three kinds of event say something about who is in a chat: a change of a
//! participant's role, a message that somebody wrote, and a message that
//! reports who joined and who left. Each of them comes down to observations
//! of one participant as present or absent, and every observation is turned
//! into a roster change in one place, [`observe`]. Only groups are tracked:
//! whatever is seen in a private chat or in a channel changes nothing.

use crate::roster::{
    applied_all, applied_option, lemma_applied_all_concat, lemma_applied_all_single,
    lemma_applied_all_untouched, lemma_applied_idempotent, lemma_last_write_wins, listed, Roster,
    StoreOp, StoreOpView,
};
use vstd::prelude::*;

verus! {

/// The kind of a conversation.
#[derive(Clone, Copy, Debug, PartialEq, Eq, Structural)]
pub enum ChatKind {
    /// A one-to-one conversation.
    Private,
    /// An ordinary group.
    Group,
    /// A large group.
    Supergroup,
    /// A channel, in which only its owners write.
    Channel,
}

impl ChatKind {
    /// Whether the conversation is a group of either size. Only such
    /// conversations are tracked.
    pub open spec fn spec_is_group_type(self) -> bool {
        self is Group || self is Supergroup
    }

    /// Whether the conversation is a group of either size.
    #[verifier::when_used_as_spec(spec_is_group_type)]
    pub fn is_group_type(self) -> (result: bool)
        ensures
            result == self.spec_is_group_type(),
    {
        match self {
            ChatKind::Group | ChatKind::Supergroup => true,
            ChatKind::Private | ChatKind::Channel => false,
        }
    }
}

/// The role of a participant in a chat.
#[derive(Clone, Copy, Debug, PartialEq, Eq, Structural)]
pub enum RoleKind {
    Owner,
    Administrator,
    Member,
    Restricted,
    Left,
    Kicked,
    Banned,
}

impl RoleKind {
    /// Whether a participant with this role is in the chat.
    pub open spec fn spec_is_present(self) -> bool {
        self is Owner || self is Administrator || self is Member || self is Restricted
    }

    /// Whether a participant with this role is in the chat.
    #[verifier::when_used_as_spec(spec_is_present)]
    pub fn is_present(self) -> (result: bool)
        ensures
            result == self.spec_is_present(),
    {
        match self {
            RoleKind::Owner | RoleKind::Administrator | RoleKind::Member | RoleKind::Restricted => true,
            RoleKind::Left | RoleKind::Kicked | RoleKind::Banned => false,
        }
    }

    /// Whether a participant with this role may call everybody.
    pub open spec fn spec_is_privileged(self) -> bool {
        self is Owner || self is Administrator
    }

    /// Whether a participant with this role may call everybody.
    #[verifier::when_used_as_spec(spec_is_privileged)]
    pub fn is_privileged(self) -> (result: bool)
        ensures
            result == self.spec_is_privileged(),
    {
        match self {
            RoleKind::Owner | RoleKind::Administrator => true,
            RoleKind::Member | RoleKind::Restricted | RoleKind::Left | RoleKind::Kicked
            | RoleKind::Banned => false,
        }
    }

    /// What a change to this role says of the participant.
    pub open spec fn spec_presence(self) -> Presence {
        if self.spec_is_present() {
            Presence::Present
        } else {
            Presence::Absent
        }
    }

    /// What a change to this role says of the participant.
    #[verifier::when_used_as_spec(spec_presence)]
    pub fn presence(self) -> (result: Presence)
        ensures
            result == self.spec_presence(),
    {
        if self.is_present() {
            Presence::Present
        } else {
            Presence::Absent
        }
    }
}

/// Whether a participant was seen in a chat or seen leaving it.
#[derive(Clone, Copy, Debug, PartialEq, Eq, Structural)]
pub enum Presence {
    Present,
    Absent,
}

/// A participant as the chat platform reports it.
#[derive(Debug, PartialEq, Eq)]
pub struct Participant {
    pub id: u64,
    pub first_name: String,
    /// Whether the account is automated. Automated accounts are never
    /// tracked.
    pub is_bot: bool,
}

/// What a [`Participant`] stands for.
pub ghost struct ParticipantView {
    pub id: u64,
    pub first_name: Seq<char>,
    pub is_bot: bool,
}

impl View for Participant {
    type V = ParticipantView;

    open spec fn view(&self) -> ParticipantView {
        ParticipantView { id: self.id, first_name: self.first_name@, is_bot: self.is_bot }
    }
}

impl DeepView for Participant {
    type V = ParticipantView;

    open spec fn deep_view(&self) -> ParticipantView {
        self@
    }
}

impl Clone for Participant {
    fn clone(&self) -> (result: Self)
        ensures
            result@ == self@,
    {
        Participant { id: self.id, first_name: self.first_name.clone(), is_bot: self.is_bot }
    }
}

/// A participant's role in a chat has changed.
#[derive(Debug, PartialEq, Eq)]
pub struct MemberUpdate {
    pub chat_id: i64,
    pub chat_kind: ChatKind,
    pub subject: Participant,
    pub new_role: RoleKind,
}

/// What a [`MemberUpdate`] stands for.
pub ghost struct MemberUpdateView {
    pub chat_id: i64,
    pub chat_kind: ChatKind,
    pub subject: ParticipantView,
    pub new_role: RoleKind,
}

impl View for MemberUpdate {
    type V = MemberUpdateView;

    open spec fn view(&self) -> MemberUpdateView {
        MemberUpdateView {
            chat_id: self.chat_id,
            chat_kind: self.chat_kind,
            subject: self.subject@,
            new_role: self.new_role,
        }
    }
}

impl DeepView for MemberUpdate {
    type V = MemberUpdateView;

    open spec fn deep_view(&self) -> MemberUpdateView {
        self@
    }
}

/// A message in a chat, as far as the roster is concerned.
#[derive(Debug, PartialEq, Eq)]
pub struct ChatMessage {
    pub chat_id: i64,
    pub chat_kind: ChatKind,
    pub message_id: i32,
    /// Who wrote the message, where that is known.
    pub from: Option<Participant>,
    /// The participants whom the message reports as having joined.
    pub new_chat_members: Vec<Participant>,
    /// The participant whom the message reports as having left.
    pub left_chat_member: Option<Participant>,
}

/// What a [`ChatMessage`] stands for.
pub ghost struct ChatMessageView {
    pub chat_id: i64,
    pub chat_kind: ChatKind,
    pub message_id: i32,
    pub from: Option<ParticipantView>,
    pub new_chat_members: Seq<ParticipantView>,
    pub left_chat_member: Option<ParticipantView>,
}

impl View for ChatMessage {
    type V = ChatMessageView;

    open spec fn view(&self) -> ChatMessageView {
        ChatMessageView {
            chat_id: self.chat_id,
            chat_kind: self.chat_kind,
            message_id: self.message_id,
            from: self.from.deep_view(),
            new_chat_members: self.new_chat_members.deep_view(),
            left_chat_member: self.left_chat_member.deep_view(),
        }
    }
}

impl DeepView for ChatMessage {
    type V = ChatMessageView;

    open spec fn deep_view(&self) -> ChatMessageView {
        self@
    }
}

/// The roster's identifier for the participant whom the platform knows as
/// `id`.
pub open spec fn stored_id(id: u64) -> i64 {
    id as i64
}

/// The roster's identifier for the participant whom the platform knows as
/// `id`.
pub fn roster_id(id: u64) -> (result: i64)
    ensures
        result == stored_id(id),
{
    id as i64
}

/// The change that tracks `who` in the chat under the name just seen.
pub open spec fn upsert_of(chat_id: i64, who: ParticipantView) -> StoreOpView {
    StoreOpView::Upsert { chat_id, user_id: stored_id(who.id), first_name: who.first_name }
}

/// The change that stops tracking `who` in the chat.
pub open spec fn delete_of(chat_id: i64, who: ParticipantView) -> StoreOpView {
    StoreOpView::Delete { chat_id, user_id: stored_id(who.id) }
}

/// The roster change that follows from one observation: a participant seen
/// in the chat is tracked under the name just seen, unless the account is
/// automated; a participant seen leaving is no longer tracked.
pub open spec fn observed(chat_id: i64, who: ParticipantView, presence: Presence) -> Option<
    StoreOpView,
> {
    match presence {
        Presence::Present => if who.is_bot {
            None
        } else {
            Some(upsert_of(chat_id, who))
        },
        Presence::Absent => Some(delete_of(chat_id, who)),
    }
}

/// Turns one observation into the roster change that follows from it.
pub fn observe(chat_id: i64, who: &Participant, presence: Presence) -> (op: Option<StoreOp>)
    ensures
        op.deep_view() == observed(chat_id, who@, presence),
{
    match presence {
        Presence::Present => {
            if who.is_bot {
                None
            } else {
                Some(
                    StoreOp::Upsert {
                        chat_id,
                        user_id: roster_id(who.id),
                        first_name: who.first_name.clone(),
                    },
                )
            }
        },
        Presence::Absent => Some(StoreOp::Delete { chat_id, user_id: roster_id(who.id) }),
    }
}

/// The roster change that follows from a change of role: in a group, the
/// subject is seen present or absent, as the new role says. Outside groups
/// nothing follows.
pub open spec fn member_update_op(update: MemberUpdateView) -> Option<StoreOpView> {
    if update.chat_kind.spec_is_group_type() {
        observed(update.chat_id, update.subject, update.new_role.spec_presence())
    } else {
        None
    }
}

/// Decides what a change of role means for the roster. In a group the
/// subject is tracked where the new role is one of a participant in the chat
/// and the account is not automated, and is no longer tracked where the new
/// role is any other. Outside groups the roster stays as it is.
pub fn chat_member_handler(update: &MemberUpdate) -> (op: Option<StoreOp>)
    ensures
        op.deep_view() == member_update_op(update@),
{
    if !update.chat_kind.is_group_type() {
        return None;
    }
    observe(update.chat_id, &update.subject, update.new_role.presence())
}

/// The roster change that follows from the fact that somebody wrote the
/// message: in a group, its author is seen present.
pub open spec fn author_op(msg: ChatMessageView) -> Option<StoreOpView> {
    if msg.chat_kind.spec_is_group_type() {
        match msg.from {
            Some(author) => observed(msg.chat_id, author, Presence::Present),
            None => None,
        }
    } else {
        None
    }
}

/// Decides what the authorship of a message means for the roster.
pub fn track_message_user(msg: &ChatMessage) -> (op: Option<StoreOp>)
    ensures
        op.deep_view() == author_op(msg@),
{
    if !msg.chat_kind.is_group_type() {
        return None;
    }
    match &msg.from {
        Some(author) => observe(msg.chat_id, author, Presence::Present),
        None => None,
    }
}

/// The changes that track those of `members` whose account is not automated,
/// in their order.
pub open spec fn joined_ops(chat_id: i64, members: Seq<ParticipantView>) -> Seq<StoreOpView> {
    members.filter(|who: ParticipantView| !who.is_bot).map_values(
        |who: ParticipantView| upsert_of(chat_id, who),
    )
}

/// The changes that follow from a message, in the order in which they are
/// made: its author is seen present, then each participant who joined, then
/// the participant who left is seen absent. Outside groups nothing follows.
pub open spec fn message_ops(msg: ChatMessageView) -> Seq<StoreOpView> {
    if msg.chat_kind.spec_is_group_type() {
        option_seq(author_op(msg)) + joined_ops(msg.chat_id, msg.new_chat_members) + option_seq(
            match msg.left_chat_member {
                Some(who) => observed(msg.chat_id, who, Presence::Absent),
                None => None,
            },
        )
    } else {
        Seq::empty()
    }
}

/// The change in `op` as a run of changes.
pub open spec fn option_seq(op: Option<StoreOpView>) -> Seq<StoreOpView> {
    match op {
        Some(op) => seq![op],
        None => Seq::empty(),
    }
}

proof fn lemma_joined_ops_push(chat_id: i64, members: Seq<ParticipantView>, who: ParticipantView)
    ensures
        joined_ops(chat_id, members.push(who)) == joined_ops(chat_id, members) + option_seq(
            observed(chat_id, who, Presence::Present),
        ),
{
    let keep = |who: ParticipantView| !who.is_bot;
    let track = |who: ParticipantView| upsert_of(chat_id, who);
    members.lemma_filter_push(who, keep);
    if who.is_bot {
        assert(joined_ops(chat_id, members) + Seq::<StoreOpView>::empty() =~= joined_ops(
            chat_id,
            members,
        ));
    } else {
        assert(members.filter(keep).push(who).map_values(track) =~= members.filter(
            keep,
        ).map_values(track) + seq![upsert_of(chat_id, who)]);
    }
}

/// The changes that track those of `members` whose account is not automated.
pub fn track_joined(chat_id: i64, members: &Vec<Participant>) -> (ops: Vec<StoreOp>)
    ensures
        ops.deep_view() == joined_ops(chat_id, members.deep_view()),
{
    let mut ops: Vec<StoreOp> = Vec::new();
    let ghost all = members.deep_view();
    assert(all.take(0) =~= Seq::<ParticipantView>::empty());
    assert(ops.deep_view() =~= joined_ops(chat_id, all.take(0)));
    let mut i: usize = 0;
    while i < members.len()
        invariant
            i <= members@.len(),
            all == members.deep_view(),
            all.len() == members@.len(),
            ops.deep_view() == joined_ops(chat_id, all.take(i as int)),
        decreases members@.len() - i,
    {
        let ghost before = ops.deep_view();
        let who = &members[i];
        proof {
            assert(all[i as int] == who@);
            assert(all.take(i + 1) =~= all.take(i as int).push(who@));
            lemma_joined_ops_push(chat_id, all.take(i as int), who@);
        }
        if let Some(op) = observe(chat_id, who, Presence::Present) {
            ops.push(op);
            assert(ops.deep_view() =~= before.push(op@));
        }
        assert(ops.deep_view() =~= joined_ops(chat_id, all.take(i + 1)));
        i = i + 1;
    }
    assert(all.take(i as int) =~= all);
    ops
}

/// Decides what a message means for the roster.
pub fn message_handler(msg: &ChatMessage) -> (ops: Vec<StoreOp>)
    ensures
        ops.deep_view() == message_ops(msg@),
{
    let mut ops: Vec<StoreOp> = Vec::new();
    if !msg.chat_kind.is_group_type() {
        assert(ops.deep_view() =~= Seq::<StoreOpView>::empty());
        return ops;
    }
    let chat_id = msg.chat_id;
    if let Some(op) = track_message_user(msg) {
        ops.push(op);
    }
    let ghost start = ops.deep_view();
    assert(start =~= option_seq(author_op(msg@)));
    let mut joined = track_joined(chat_id, &msg.new_chat_members);
    let ghost middle = joined.deep_view();
    ops.append(&mut joined);
    assert(ops.deep_view() =~= start + middle);
    let ghost before = ops.deep_view();
    if let Some(who) = &msg.left_chat_member {
        if let Some(op) = observe(chat_id, who, Presence::Absent) {
            ops.push(op);
            assert(ops.deep_view() =~= before.push(op@));
        }
    }
    assert(ops.deep_view() =~= message_ops(msg@));
    ops
}

/// A participant who is seen in a chat, and whose account is not automated,
/// is listed for that chat afterwards, under the name just seen.
pub proof fn lemma_seen_present_is_listed(roster: Roster, chat_id: i64, who: ParticipantView)
    requires
        !who.is_bot,
    ensures
        listed(
            applied_option(roster, observed(chat_id, who, Presence::Present)),
            chat_id,
        ).contains_pair(stored_id(who.id), who.first_name),
{
}

/// A participant who is seen leaving a chat is not listed for that chat
/// afterwards, and seeing the same again changes nothing more.
pub proof fn lemma_seen_absent_is_not_listed(roster: Roster, chat_id: i64, who: ParticipantView)
    ensures
        ({
            let once = applied_option(roster, observed(chat_id, who, Presence::Absent));
            let twice = applied_option(once, observed(chat_id, who, Presence::Absent));
            &&& !listed(once, chat_id).contains_key(stored_id(who.id))
            &&& twice == once
        }),
{
    lemma_applied_idempotent(roster, delete_of(chat_id, who));
}

/// After a change, in a group, to a role of a participant in the chat, the
/// subject is listed for the chat under the name that came with the change,
/// unless the account is automated.
pub proof fn lemma_present_member_is_listed(roster: Roster, update: MemberUpdateView)
    requires
        update.chat_kind.spec_is_group_type(),
        update.new_role.spec_is_present(),
        !update.subject.is_bot,
    ensures
        listed(applied_option(roster, member_update_op(update)), update.chat_id).contains_pair(
            stored_id(update.subject.id),
            update.subject.first_name,
        ),
{
}

/// After a change, in a group, to any other role, the subject is not listed
/// for the chat, and the same change once more leaves it so.
pub proof fn lemma_departed_member_is_not_listed(roster: Roster, update: MemberUpdateView)
    requires
        update.chat_kind.spec_is_group_type(),
        !update.new_role.spec_is_present(),
    ensures
        ({
            let once = applied_option(roster, member_update_op(update));
            let twice = applied_option(once, member_update_op(update));
            &&& !listed(once, update.chat_id).contains_key(stored_id(update.subject.id))
            &&& twice == once
        }),
{
    lemma_seen_absent_is_not_listed(roster, update.chat_id, update.subject);
}

/// An automated account in the chat is never tracked: a change to a role of
/// a participant in the chat leaves the roster as it was.
pub proof fn lemma_automated_member_is_ignored(roster: Roster, update: MemberUpdateView)
    requires
        update.new_role.spec_is_present(),
        update.subject.is_bot,
    ensures
        applied_option(roster, member_update_op(update)) == roster,
{
}

/// A change of role outside a group leaves the roster as it was, whoever the
/// subject and whatever the new role.
pub proof fn lemma_member_update_outside_group_is_ignored(
    roster: Roster,
    update: MemberUpdateView,
)
    requires
        !update.chat_kind.spec_is_group_type(),
    ensures
        member_update_op(update) is None,
        applied_option(roster, member_update_op(update)) == roster,
{
}

/// The changes that follow from a run of role changes, in order.
pub open spec fn member_updates_ops(updates: Seq<MemberUpdateView>) -> Seq<StoreOpView>
    decreases updates.len(),
{
    if updates.len() == 0 {
        Seq::empty()
    } else {
        member_updates_ops(updates.drop_last()) + option_seq(member_update_op(updates.last()))
    }
}

/// Whether the role change is about the given participant of the given chat.
pub open spec fn concerns(update: MemberUpdateView, chat_id: i64, user_id: i64) -> bool {
    update.chat_id == chat_id && stored_id(update.subject.id) == user_id
}

proof fn lemma_member_updates_ops_concat(first: Seq<MemberUpdateView>, then: Seq<MemberUpdateView>)
    ensures
        member_updates_ops(first + then) == member_updates_ops(first) + member_updates_ops(then),
    decreases then.len(),
{
    if then.len() == 0 {
        assert(first + then =~= first);
        assert(member_updates_ops(first) + member_updates_ops(then) =~= member_updates_ops(first));
    } else {
        assert((first + then).drop_last() =~= first + then.drop_last());
        lemma_member_updates_ops_concat(first, then.drop_last());
        assert(member_updates_ops(first + then) =~= member_updates_ops(first) + member_updates_ops(
            then,
        ));
    }
}

proof fn lemma_member_updates_ops_keys(updates: Seq<MemberUpdateView>, chat_id: i64, user_id: i64)
    requires
        forall|i: int| 0 <= i < updates.len() ==> !concerns(#[trigger] updates[i], chat_id, user_id),
    ensures
        forall|i: int|
            0 <= i < member_updates_ops(updates).len() ==> (#[trigger] member_updates_ops(
                updates,
            )[i]).key() != (chat_id, user_id),
    decreases updates.len(),
{
    if updates.len() > 0 {
        lemma_member_updates_ops_keys(updates.drop_last(), chat_id, user_id);
        assert(!concerns(updates[updates.len() - 1], chat_id, user_id));
        let ops = member_updates_ops(updates);
        let head = member_updates_ops(updates.drop_last());
        let tail = option_seq(member_update_op(updates.last()));
        assert forall|i: int| 0 <= i < ops.len() implies (#[trigger] ops[i]).key() != (
            chat_id,
            user_id,
        ) by {
            if i < head.len() {
                assert(ops[i] == head[i]);
            } else {
                assert(ops[i] == tail[i - head.len()]);
            }
        }
    }
}

/// The roster follows the latest observation: after a run of role changes,
/// whether a participant is listed for a group, and under which name, is
/// decided by the last change about that participant in that group alone.
pub proof fn lemma_latest_member_update_wins(
    roster: Roster,
    updates: Seq<MemberUpdateView>,
    last: int,
)
    requires
        0 <= last < updates.len(),
        updates[last].chat_kind.spec_is_group_type(),
        forall|i: int|
            last < i < updates.len() ==> !concerns(
                #[trigger] updates[i],
                updates[last].chat_id,
                stored_id(updates[last].subject.id),
            ),
    ensures
        ({
            let after = applied_all(roster, member_updates_ops(updates));
            let subject = updates[last].subject;
            let names = listed(after, updates[last].chat_id);
            &&& updates[last].new_role.spec_is_present() && !subject.is_bot ==> names.contains_pair(
                stored_id(subject.id),
                subject.first_name,
            )
            &&& !updates[last].new_role.spec_is_present() ==> !names.contains_key(
                stored_id(subject.id),
            )
        }),
{
    let chat_id = updates[last].chat_id;
    let user_id = stored_id(updates[last].subject.id);
    let before = updates.take(last);
    let later = updates.skip(last + 1);
    assert(updates =~= before.push(updates[last]) + later);
    assert(before.push(updates[last]).drop_last() =~= before);
    lemma_member_updates_ops_concat(before.push(updates[last]), later);
    assert forall|i: int| 0 <= i < later.len() implies !concerns(
        #[trigger] later[i],
        chat_id,
        user_id,
    ) by {
        assert(later[i] == updates[last + 1 + i]);
    }
    lemma_member_updates_ops_keys(later, chat_id, user_id);
    let head_ops = member_updates_ops(before.push(updates[last]));
    lemma_applied_all_concat(roster, head_ops, member_updates_ops(later));
    let middle = applied_all(roster, head_ops);
    lemma_applied_all_untouched(middle, member_updates_ops(later), (chat_id, user_id));
    lemma_applied_all_concat(
        roster,
        member_updates_ops(before),
        option_seq(member_update_op(updates[last])),
    );
    match member_update_op(updates[last]) {
        Some(op) => {
            lemma_applied_all_single(applied_all(roster, member_updates_ops(before)), op);
        },
        None => {},
    }
}

/// After a message in a group, every participant whom it reports as having
/// joined, and whose account is not automated, is listed under the name in
/// the report, unless a later entry of the report or the report of who left
/// is about the same participant.
pub proof fn lemma_joined_member_is_listed(roster: Roster, msg: ChatMessageView, index: int)
    requires
        msg.chat_kind.spec_is_group_type(),
        0 <= index < msg.new_chat_members.len(),
        !msg.new_chat_members[index].is_bot,
        forall|i: int|
            index < i < msg.new_chat_members.len() ==> stored_id(
                (#[trigger] msg.new_chat_members[i]).id,
            ) != stored_id(msg.new_chat_members[index].id),
        msg.left_chat_member matches Some(who) ==> stored_id(who.id) != stored_id(
            msg.new_chat_members[index].id,
        ),
    ensures
        listed(applied_all(roster, message_ops(msg)), msg.chat_id).contains_pair(
            stored_id(msg.new_chat_members[index].id),
            msg.new_chat_members[index].first_name,
        ),
{
    let chat_id = msg.chat_id;
    let members = msg.new_chat_members;
    let who = members[index];
    let key = (chat_id, stored_id(who.id));
    let head = option_seq(author_op(msg));
    let upto = members.take(index + 1);
    let rest = members.skip(index + 1);
    let tail = option_seq(
        match msg.left_chat_member {
            Some(who) => observed(chat_id, who, Presence::Absent),
            None => None,
        },
    );
    assert(upto =~= members.take(index).push(who));
    lemma_joined_ops_push(chat_id, members.take(index), who);
    assert(members =~= upto + rest);
    lemma_joined_ops_concat(chat_id, upto, rest);
    let first = head + joined_ops(chat_id, upto);
    let then = joined_ops(chat_id, rest) + tail;
    assert(message_ops(msg) =~= first + then);
    assert(first.last() == upsert_of(chat_id, who));
    assert(first.drop_last() =~= head + joined_ops(chat_id, members.take(index)));
    lemma_applied_all_concat(roster, first, then);
    lemma_joined_ops_keys(chat_id, rest, stored_id(who.id));
    assert forall|i: int| 0 <= i < then.len() implies (#[trigger] then[i]).key() != key by {
        if i < joined_ops(chat_id, rest).len() {
            assert(then[i] == joined_ops(chat_id, rest)[i]);
        }
    }
    lemma_applied_all_untouched(applied_all(roster, first), then, key);
}

proof fn lemma_joined_ops_concat(chat_id: i64, a: Seq<ParticipantView>, b: Seq<ParticipantView>)
    ensures
        joined_ops(chat_id, a + b) == joined_ops(chat_id, a) + joined_ops(chat_id, b),
    decreases b.len(),
{
    if b.len() == 0 {
        assert(a + b =~= a);
        assert(joined_ops(chat_id, b) =~= Seq::<StoreOpView>::empty());
        assert(joined_ops(chat_id, a) + joined_ops(chat_id, b) =~= joined_ops(chat_id, a));
    } else {
        let front = b.drop_last();
        assert(a + b =~= (a + front).push(b.last()));
        assert(b =~= front.push(b.last()));
        lemma_joined_ops_concat(chat_id, a, front);
        lemma_joined_ops_push(chat_id, a + front, b.last());
        lemma_joined_ops_push(chat_id, front, b.last());
        assert(joined_ops(chat_id, a + b) =~= joined_ops(chat_id, a) + joined_ops(chat_id, b));
    }
}

proof fn lemma_joined_ops_keys(chat_id: i64, members: Seq<ParticipantView>, user_id: i64)
    requires
        forall|i: int| 0 <= i < members.len() ==> stored_id((#[trigger] members[i]).id) != user_id,
    ensures
        forall|i: int|
            0 <= i < joined_ops(chat_id, members).len() ==> (#[trigger] joined_ops(
                chat_id,
                members,
            )[i]).key() != (chat_id, user_id),
    decreases members.len(),
{
    if members.len() > 0 {
        let front = members.drop_last();
        assert(members =~= front.push(members.last()));
        lemma_joined_ops_keys(chat_id, front, user_id);
        lemma_joined_ops_push(chat_id, front, members.last());
    }
}

/// After a message in a group that reports a participant as having left,
/// that participant is not listed for the chat.
pub proof fn lemma_left_member_is_not_listed(roster: Roster, msg: ChatMessageView)
    requires
        msg.chat_kind.spec_is_group_type(),
        msg.left_chat_member is Some,
    ensures
        !listed(applied_all(roster, message_ops(msg)), msg.chat_id).contains_key(
            stored_id(msg.left_chat_member->0.id),
        ),
{
    let who = msg.left_chat_member->0;
    let ops = message_ops(msg);
    assert(ops.last() == delete_of(msg.chat_id, who));
    lemma_last_write_wins(roster, ops, ops.len() - 1);
}

/// A message outside a group changes nothing.
pub proof fn lemma_message_outside_group_is_ignored(roster: Roster, msg: ChatMessageView)
    requires
        !msg.chat_kind.spec_is_group_type(),
    ensures
        applied_all(roster, message_ops(msg)) == roster,
{
}

} // verus!
