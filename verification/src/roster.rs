//! The roster: which participants are tracked in which chat, and under what
//! name.
//!
//! A roster is a map from `(chat_id, user_id)` to a display name. It changes
//! only through [`StoreOp`]s. This module states what each of them does to a
//! roster, and the laws that follow.

use vstd::prelude::*;

verus! {

/// A tracked participant of one chat.
#[derive(Debug, PartialEq, Eq)]
pub struct User {
    pub user_id: i64,
    pub first_name: String,
}

/// What a [`User`] stands for.
pub ghost struct UserView {
    pub user_id: i64,
    pub first_name: Seq<char>,
}

impl View for User {
    type V = UserView;

    open spec fn view(&self) -> UserView {
        UserView { user_id: self.user_id, first_name: self.first_name@ }
    }
}

impl DeepView for User {
    type V = UserView;

    open spec fn deep_view(&self) -> UserView {
        self@
    }
}

impl Clone for User {
    fn clone(&self) -> (result: Self)
        ensures
            result@ == self@,
    {
        User { user_id: self.user_id, first_name: self.first_name.clone() }
    }
}

/// One change to the roster.
#[derive(Debug, PartialEq, Eq)]
pub enum StoreOp {
    /// Track the participant under this name: a new record where there was
    /// none, a new name where there was one.
    Upsert { chat_id: i64, user_id: i64, first_name: String },
    /// Stop tracking the participant.
    Delete { chat_id: i64, user_id: i64 },
}

/// What a [`StoreOp`] stands for.
pub ghost enum StoreOpView {
    Upsert { chat_id: i64, user_id: i64, first_name: Seq<char> },
    Delete { chat_id: i64, user_id: i64 },
}

impl View for StoreOp {
    type V = StoreOpView;

    open spec fn view(&self) -> StoreOpView {
        match self {
            StoreOp::Upsert { chat_id, user_id, first_name } => StoreOpView::Upsert {
                chat_id: *chat_id,
                user_id: *user_id,
                first_name: first_name@,
            },
            StoreOp::Delete { chat_id, user_id } => StoreOpView::Delete {
                chat_id: *chat_id,
                user_id: *user_id,
            },
        }
    }
}

impl DeepView for StoreOp {
    type V = StoreOpView;

    open spec fn deep_view(&self) -> StoreOpView {
        self@
    }
}

impl Clone for StoreOp {
    fn clone(&self) -> (result: Self)
        ensures
            result@ == self@,
    {
        match self {
            StoreOp::Upsert { chat_id, user_id, first_name } => StoreOp::Upsert {
                chat_id: *chat_id,
                user_id: *user_id,
                first_name: first_name.clone(),
            },
            StoreOp::Delete { chat_id, user_id } => StoreOp::Delete {
                chat_id: *chat_id,
                user_id: *user_id,
            },
        }
    }
}

impl StoreOpView {
    /// The record that the change is about.
    pub open spec fn key(self) -> (i64, i64) {
        match self {
            StoreOpView::Upsert { chat_id, user_id, .. } => (chat_id, user_id),
            StoreOpView::Delete { chat_id, user_id } => (chat_id, user_id),
        }
    }
}

/// A roster as a mathematical map: `(chat_id, user_id)` to display name.
pub type Roster = Map<(i64, i64), Seq<char>>;

/// The roster after one change.
pub open spec fn applied(roster: Roster, op: StoreOpView) -> Roster {
    match op {
        StoreOpView::Upsert { chat_id, user_id, first_name } => roster.insert(
            (chat_id, user_id),
            first_name,
        ),
        StoreOpView::Delete { chat_id, user_id } => roster.remove((chat_id, user_id)),
    }
}

/// The roster after a run of changes, made in order.
pub open spec fn applied_all(roster: Roster, ops: Seq<StoreOpView>) -> Roster
    decreases ops.len(),
{
    if ops.len() == 0 {
        roster
    } else {
        applied(applied_all(roster, ops.drop_last()), ops.last())
    }
}

/// The roster after the change in `op`, if there is one.
pub open spec fn applied_option(roster: Roster, op: Option<StoreOpView>) -> Roster {
    match op {
        Some(op) => applied(roster, op),
        None => roster,
    }
}

/// The tracked participants of one chat: `user_id` to display name.
pub open spec fn listed(roster: Roster, chat_id: i64) -> Map<i64, Seq<char>> {
    Map::new(
        |user_id: i64| roster.contains_key((chat_id, user_id)),
        |user_id: i64| roster[(chat_id, user_id)],
    )
}

/// An upsert tracks its participant under the given name and changes no
/// other record.
pub proof fn lemma_upsert(roster: Roster, chat_id: i64, user_id: i64, first_name: Seq<char>)
    ensures
        ({
            let after = applied(roster, StoreOpView::Upsert { chat_id, user_id, first_name });
            &&& listed(after, chat_id).contains_pair(user_id, first_name)
            &&& forall|key: (i64, i64)|
                key != (chat_id, user_id) ==> (after.contains_key(key) <==> roster.contains_key(
                    key,
                )) && after[key] == roster[key]
        }),
{
}

/// A delete leaves its participant untracked and changes no other record.
pub proof fn lemma_delete(roster: Roster, chat_id: i64, user_id: i64)
    ensures
        ({
            let after = applied(roster, StoreOpView::Delete { chat_id, user_id });
            &&& !listed(after, chat_id).contains_key(user_id)
            &&& forall|key: (i64, i64)|
                key != (chat_id, user_id) ==> (after.contains_key(key) <==> roster.contains_key(
                    key,
                )) && after[key] == roster[key]
        }),
{
}

/// Making the same change twice is making it once.
pub proof fn lemma_applied_idempotent(roster: Roster, op: StoreOpView)
    ensures
        applied(applied(roster, op), op) == applied(roster, op),
{
    assert(applied(applied(roster, op), op) =~= applied(roster, op));
}

/// Deleting a participant who is not tracked changes nothing.
pub proof fn lemma_delete_absent(roster: Roster, chat_id: i64, user_id: i64)
    requires
        !roster.contains_key((chat_id, user_id)),
    ensures
        applied(roster, StoreOpView::Delete { chat_id, user_id }) == roster,
{
    assert(applied(roster, StoreOpView::Delete { chat_id, user_id }) =~= roster);
}

/// A change touches the listing of its own chat only.
pub proof fn lemma_applied_other_chat(roster: Roster, op: StoreOpView, chat_id: i64)
    requires
        op.key().0 != chat_id,
    ensures
        listed(applied(roster, op), chat_id) == listed(roster, chat_id),
{
    assert(listed(applied(roster, op), chat_id) =~= listed(roster, chat_id));
}

/// A run of changes made after another run.
pub proof fn lemma_applied_all_concat(roster: Roster, first: Seq<StoreOpView>, then: Seq<StoreOpView>)
    ensures
        applied_all(roster, first + then) == applied_all(applied_all(roster, first), then),
    decreases then.len(),
{
    if then.len() == 0 {
        assert(first + then =~= first);
    } else {
        assert((first + then).drop_last() =~= first + then.drop_last());
        lemma_applied_all_concat(roster, first, then.drop_last());
    }
}

/// A run of one change.
pub proof fn lemma_applied_all_single(roster: Roster, op: StoreOpView)
    ensures
        applied_all(roster, seq![op]) == applied(roster, op),
{
    reveal_with_fuel(applied_all, 2);
    assert(seq![op].drop_last() =~= Seq::<StoreOpView>::empty());
}

/// A record that no change of a run is about stays as it was.
pub proof fn lemma_applied_all_untouched(roster: Roster, ops: Seq<StoreOpView>, key: (i64, i64))
    requires
        forall|i: int| 0 <= i < ops.len() ==> (#[trigger] ops[i]).key() != key,
    ensures
        applied_all(roster, ops).contains_key(key) <==> roster.contains_key(key),
        applied_all(roster, ops)[key] == roster[key],
    decreases ops.len(),
{
    if ops.len() > 0 {
        lemma_applied_all_untouched(roster, ops.drop_last(), key);
    }
}

/// The last writer wins: after a run of changes, a record is what the last
/// change about it made of it, whatever came before.
pub proof fn lemma_last_write_wins(roster: Roster, ops: Seq<StoreOpView>, last: int)
    requires
        0 <= last < ops.len(),
        forall|i: int| last < i < ops.len() ==> (#[trigger] ops[i]).key() != ops[last].key(),
    ensures
        ops[last] matches StoreOpView::Upsert { first_name, .. } ==> applied_all(
            roster,
            ops,
        ).contains_pair(ops[last].key(), first_name),
        ops[last] is Delete ==> !applied_all(roster, ops).contains_key(ops[last].key()),
{
    let before = ops.take(last);
    let after = ops.skip(last + 1);
    let key = ops[last].key();
    assert(ops =~= before.push(ops[last]) + after);
    lemma_applied_all_concat(roster, before.push(ops[last]), after);
    assert(before.push(ops[last]).drop_last() =~= before);
    let middle = applied_all(roster, before.push(ops[last]));
    assert(middle == applied(applied_all(roster, before), ops[last]));
    assert forall|i: int| 0 <= i < after.len() implies (#[trigger] after[i]).key() != key by {
        assert(after[i] == ops[last + 1 + i]);
    }
    lemma_applied_all_untouched(middle, after, key);
}

struct Entry {
    chat_id: i64,
    user_id: i64,
    first_name: String,
}

impl Entry {
    spec fn key(self) -> (i64, i64) {
        (self.chat_id, self.user_id)
    }
}

spec fn unique_keys(entries: Seq<Entry>) -> bool {
    forall|i: int, j: int|
        0 <= i < j < entries.len() ==> (#[trigger] entries[i]).key() != (#[trigger] entries[j]).key()
}

spec fn holds_key(entries: Seq<Entry>, key: (i64, i64), i: int) -> bool {
    0 <= i < entries.len() && entries[i].key() == key
}

spec fn roster_of(entries: Seq<Entry>) -> Roster {
    Map::new(
        |key: (i64, i64)| exists|i: int| holds_key(entries, key, i),
        |key: (i64, i64)| entries[choose|i: int| holds_key(entries, key, i)].first_name@,
    )
}

proof fn lemma_roster_of(entries: Seq<Entry>, i: int)
    requires
        unique_keys(entries),
        0 <= i < entries.len(),
    ensures
        roster_of(entries).contains_pair(entries[i].key(), entries[i].first_name@),
{
    let key = entries[i].key();
    assert(holds_key(entries, key, i));
    let found = choose|j: int| holds_key(entries, key, j);
    assert(found == i);
}

proof fn lemma_roster_of_update(before: Seq<Entry>, i: int, entry: Entry)
    requires
        unique_keys(before),
        0 <= i < before.len(),
        entry.key() == before[i].key(),
    ensures
        unique_keys(before.update(i, entry)),
        roster_of(before.update(i, entry)) == roster_of(before).insert(
            entry.key(),
            entry.first_name@,
        ),
{
    let after = before.update(i, entry);
    let target = roster_of(before).insert(entry.key(), entry.first_name@);
    assert forall|a: int, b: int| 0 <= a < b < after.len() implies (#[trigger] after[a]).key() != (
    #[trigger] after[b]).key() by {
        assert(before[a].key() != before[b].key());
    }
    assert forall|k: (i64, i64)| #[trigger]
        roster_of(after).contains_key(k) == target.contains_key(k) by {
        if roster_of(after).contains_key(k) {
            let j = choose|j: int| holds_key(after, k, j);
            assert(holds_key(before, k, j));
        }
        if roster_of(before).contains_key(k) {
            let j = choose|j: int| holds_key(before, k, j);
            assert(holds_key(after, k, j));
        }
        assert(holds_key(after, entry.key(), i));
    }
    assert forall|k: (i64, i64)| #[trigger]
        roster_of(after).contains_key(k) implies roster_of(after)[k] == target[k] by {
        let j = choose|j: int| holds_key(after, k, j);
        lemma_roster_of(after, j);
        if j != i {
            assert(before[j].key() != before[i].key());
            lemma_roster_of(before, j);
        }
    }
    assert(roster_of(after) =~= target);
}

proof fn lemma_roster_of_push(before: Seq<Entry>, entry: Entry)
    requires
        unique_keys(before),
        forall|i: int| !holds_key(before, entry.key(), i),
    ensures
        unique_keys(before.push(entry)),
        roster_of(before.push(entry)) == roster_of(before).insert(entry.key(), entry.first_name@),
{
    let after = before.push(entry);
    let last = before.len() as int;
    let target = roster_of(before).insert(entry.key(), entry.first_name@);
    assert forall|a: int, b: int| 0 <= a < b < after.len() implies (#[trigger] after[a]).key() != (
    #[trigger] after[b]).key() by {
        if b == last {
            assert(!holds_key(before, entry.key(), a));
        } else {
            assert(before[a].key() != before[b].key());
        }
    }
    assert forall|k: (i64, i64)| #[trigger]
        roster_of(after).contains_key(k) == target.contains_key(k) by {
        if roster_of(after).contains_key(k) {
            let j = choose|j: int| holds_key(after, k, j);
            if j != last {
                assert(holds_key(before, k, j));
            }
        }
        if roster_of(before).contains_key(k) {
            let j = choose|j: int| holds_key(before, k, j);
            assert(holds_key(after, k, j));
        }
        assert(holds_key(after, entry.key(), last));
    }
    assert forall|k: (i64, i64)| #[trigger]
        roster_of(after).contains_key(k) implies roster_of(after)[k] == target[k] by {
        let j = choose|j: int| holds_key(after, k, j);
        lemma_roster_of(after, j);
        if j != last {
            assert(!holds_key(before, entry.key(), j));
            lemma_roster_of(before, j);
        }
    }
    assert(roster_of(after) =~= target);
}

proof fn lemma_roster_of_remove(before: Seq<Entry>, i: int)
    requires
        unique_keys(before),
        0 <= i < before.len(),
    ensures
        unique_keys(before.remove(i)),
        roster_of(before.remove(i)) == roster_of(before).remove(before[i].key()),
{
    let after = before.remove(i);
    let key = before[i].key();
    let target = roster_of(before).remove(key);
    let from = |j: int|
        if j < i {
            j
        } else {
            j + 1
        };
    assert forall|j: int| 0 <= j < after.len() implies #[trigger] after[j] == before[from(j)] by {}
    assert forall|a: int, b: int| 0 <= a < b < after.len() implies (#[trigger] after[a]).key() != (
    #[trigger] after[b]).key() by {
        assert(before[from(a)].key() != before[from(b)].key());
    }
    assert forall|k: (i64, i64)| #[trigger]
        roster_of(after).contains_key(k) == target.contains_key(k) by {
        if roster_of(after).contains_key(k) {
            let j = choose|j: int| holds_key(after, k, j);
            assert(holds_key(before, k, from(j)));
            assert(before[from(j)].key() != before[i].key());
        }
        if roster_of(before).contains_key(k) && k != key {
            let j = choose|j: int| holds_key(before, k, j);
            let to = if j < i {
                j
            } else {
                j - 1
            };
            assert(holds_key(after, k, to));
        }
    }
    assert forall|k: (i64, i64)| #[trigger]
        roster_of(after).contains_key(k) implies roster_of(after)[k] == target[k] by {
        let j = choose|j: int| holds_key(after, k, j);
        lemma_roster_of(after, j);
        lemma_roster_of(before, from(j));
    }
    assert(roster_of(after) =~= target);
}

/// A roster held in memory.
pub struct MemoryRoster {
    entries: Vec<Entry>,
}

impl View for MemoryRoster {
    type V = Roster;

    closed spec fn view(&self) -> Roster {
        roster_of(self.entries@)
    }
}

impl MemoryRoster {
    /// No participant has two records in one chat. Every roster that
    /// [`MemoryRoster::new`] made is well formed, and stays so.
    pub closed spec fn well_formed(&self) -> bool {
        unique_keys(self.entries@)
    }

    /// A roster that tracks nobody.
    pub fn new() -> (result: Self)
        ensures
            result.well_formed(),
            result@ == Map::<(i64, i64), Seq<char>>::empty(),
    {
        let result = MemoryRoster { entries: Vec::new() };
        assert(result@ =~= Map::<(i64, i64), Seq<char>>::empty());
        result
    }

    fn position(&self, chat_id: i64, user_id: i64) -> (result: Option<usize>)
        ensures
            match result {
                Some(i) => holds_key(self.entries@, (chat_id, user_id), i as int),
                None => forall|i: int| !holds_key(self.entries@, (chat_id, user_id), i),
            },
    {
        let mut i: usize = 0;
        while i < self.entries.len()
            invariant
                i <= self.entries@.len(),
                forall|j: int| 0 <= j < i ==> !holds_key(self.entries@, (chat_id, user_id), j),
            decreases self.entries@.len() - i,
        {
            if self.entries[i].chat_id == chat_id && self.entries[i].user_id == user_id {
                return Some(i);
            }
            i = i + 1;
        }
        None
    }

    /// Tracks the participant under `first_name`: adds the record where
    /// there is none, and gives it the new name where there is one.
    pub fn upsert(&mut self, chat_id: i64, user_id: i64, first_name: &str)
        requires
            old(self).well_formed(),
        ensures
            final(self).well_formed(),
            final(self)@ == old(self)@.insert((chat_id, user_id), first_name@),
    {
        let entry = Entry { chat_id, user_id, first_name: first_name.to_owned() };
        match self.position(chat_id, user_id) {
            Some(i) => {
                proof {
                    lemma_roster_of_update(self.entries@, i as int, entry);
                }
                self.entries.set(i, entry);
            },
            None => {
                proof {
                    lemma_roster_of_push(self.entries@, entry);
                }
                self.entries.push(entry);
            },
        }
    }

    /// Stops tracking the participant. Nothing changes where the
    /// participant was not tracked.
    pub fn delete(&mut self, chat_id: i64, user_id: i64)
        requires
            old(self).well_formed(),
        ensures
            final(self).well_formed(),
            final(self)@ == old(self)@.remove((chat_id, user_id)),
    {
        match self.position(chat_id, user_id) {
            Some(i) => {
                proof {
                    lemma_roster_of_remove(self.entries@, i as int);
                }
                self.entries.remove(i);
            },
            None => {
                assert(self@ =~= self@.remove((chat_id, user_id)));
            },
        }
    }

    /// Makes the change that `op` describes.
    pub fn apply(&mut self, op: &StoreOp)
        requires
            old(self).well_formed(),
        ensures
            final(self).well_formed(),
            final(self)@ == applied(old(self)@, op@),
    {
        match op {
            StoreOp::Upsert { chat_id, user_id, first_name } => {
                self.upsert(*chat_id, *user_id, first_name.as_str());
            },
            StoreOp::Delete { chat_id, user_id } => {
                self.delete(*chat_id, *user_id);
            },
        }
    }

    /// The tracked participants of one chat, each of them once.
    pub fn list(&self, chat_id: i64) -> (result: Vec<User>)
        requires
            self.well_formed(),
        ensures
            forall|i: int|
                0 <= i < result@.len() ==> listed(self@, chat_id).contains_pair(
                    (#[trigger] result@[i]).user_id,
                    result@[i].first_name@,
                ),
            forall|user_id: i64| #[trigger]
                listed(self@, chat_id).contains_key(user_id) ==> exists|i: int|
                    0 <= i < result@.len() && (#[trigger] result@[i]).user_id == user_id,
            forall|i: int, j: int|
                0 <= i < j < result@.len() ==> (#[trigger] result@[i]).user_id != (
                #[trigger] result@[j]).user_id,
    {
        let mut result: Vec<User> = Vec::new();
        let ghost mut origin: Seq<int> = Seq::empty();
        let mut n: usize = 0;
        while n < self.entries.len()
            invariant
                n <= self.entries@.len(),
                unique_keys(self.entries@),
                origin.len() == result@.len(),
                forall|i: int|
                    0 <= i < origin.len() ==> 0 <= #[trigger] origin[i] < n && self.entries@[origin[i]].key()
                        == (chat_id, result@[i].user_id) && self.entries@[origin[i]].first_name@
                        == result@[i].first_name@,
                forall|i: int, j: int| 0 <= i < j < origin.len() ==> origin[i] < origin[j],
                forall|e: int|
                    0 <= e < n && (#[trigger] self.entries@[e]).chat_id == chat_id ==> exists|i: int|
                        0 <= i < origin.len() && #[trigger] origin[i] == e,
            decreases self.entries@.len() - n,
        {
            let entry = &self.entries[n];
            if entry.chat_id == chat_id {
                let ghost seen = origin;
                result.push(User { user_id: entry.user_id, first_name: entry.first_name.clone() });
                proof {
                    origin = origin.push(n as int);
                    assert forall|e: int|
                        0 <= e < n + 1 && (#[trigger] self.entries@[e]).chat_id
                            == chat_id implies exists|i: int|
                        0 <= i < origin.len() && #[trigger] origin[i] == e by {
                        if e < n {
                            let i = choose|i: int| 0 <= i < seen.len() && #[trigger] seen[i] == e;
                            assert(origin[i] == e);
                        } else {
                            assert(origin[origin.len() - 1] == e);
                        }
                    }
                }
            }
            n = n + 1;
        }
        proof {
            let entries = self.entries@;
            assert forall|i: int| 0 <= i < result@.len() implies listed(self@, chat_id).contains_pair(
                (#[trigger] result@[i]).user_id,
                result@[i].first_name@,
            ) by {
                lemma_roster_of(entries, origin[i]);
            }
            assert forall|user_id: i64| #[trigger]
                listed(self@, chat_id).contains_key(user_id) implies exists|i: int|
                0 <= i < result@.len() && (#[trigger] result@[i]).user_id == user_id by {
                let e = choose|e: int| holds_key(entries, (chat_id, user_id), e);
                let i = choose|i: int| 0 <= i < origin.len() && #[trigger] origin[i] == e;
                assert(result@[i].user_id == user_id);
            }
            assert forall|i: int, j: int| 0 <= i < j < result@.len() implies (
            #[trigger] result@[i]).user_id != (#[trigger] result@[j]).user_id by {
                assert(origin[i] < origin[j]);
            }
        }
        result
    }
}

} // verus!
