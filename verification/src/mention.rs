//! Composition of the message that mentions every tracked participant.
//!
//! Each participant becomes a link whose text is the escaped display name
//! and whose target is the participant's identifier, so that the mention
//! reaches the participant whatever the name. The links are joined by single
//! spaces and hidden as a spoiler. A caption, if the caller gave one, stands
//! escaped on a line of its own above them.

use crate::markdown::{escape_markdown_v2, escaped};
use crate::roster::{User, UserView};
use crate::text::{decimal, push_decimal, trim, trimmed};
use vstd::prelude::*;
use vstd::string::StringExecFns;

verus! {

/// The link that mentions one participant.
pub open spec fn mention(user: UserView) -> Seq<char> {
    "["@ + escaped(user.first_name) + "](tg://user?id="@ + decimal(user.user_id as int) + ")"@
}

/// The links of all participants, in their order, with a single space
/// between each two of them.
pub open spec fn mentions(users: Seq<UserView>) -> Seq<char>
    decreases users.len(),
{
    if users.len() == 0 {
        Seq::empty()
    } else if users.len() == 1 {
        mention(users[0])
    } else {
        mentions(users.drop_last()) + " "@ + mention(users.last())
    }
}

/// `body` between the marks that hide it until the reader asks for it.
pub open spec fn spoiler(body: Seq<char>) -> Seq<char> {
    "||"@ + body + "||"@
}

/// The message that mentions all of `users`: their links as a spoiler, and
/// above them, where `text` is not blank, the trimmed and escaped `text` on a
/// line of its own.
pub open spec fn mention_message(users: Seq<UserView>, text: Seq<char>) -> Seq<char> {
    let caption = trimmed(text);
    if caption.len() == 0 {
        spoiler(mentions(users))
    } else {
        escaped(caption) + "\n"@ + spoiler(mentions(users))
    }
}

/// Appends the link that mentions `user` to `out`.
pub fn push_mention(out: &mut String, user: &User)
    ensures
        final(out)@ == old(out)@ + mention(user@),
{
    let name = escape_markdown_v2(user.first_name.as_str());
    out.append("[");
    out.append(name.as_str());
    out.append("](tg://user?id=");
    push_decimal(out, user.user_id);
    out.append(")");
    assert(out@ =~= old(out)@ + mention(user@));
}

/// The links of all of `users`, joined by single spaces.
pub fn join_mentions(users: &Vec<User>) -> (result: String)
    ensures
        result@ == mentions(users.deep_view()),
{
    let mut result = String::new();
    let ghost all = users.deep_view();
    let mut i: usize = 0;
    assert(all.take(0) =~= Seq::<UserView>::empty());
    while i < users.len()
        invariant
            i <= users@.len(),
            all == users.deep_view(),
            all.len() == users@.len(),
            result@ == mentions(all.take(i as int)),
        decreases users@.len() - i,
    {
        let ghost done = all.take(i as int);
        let ghost next = all.take(i + 1);
        proof {
            assert(next.drop_last() =~= done);
            assert(next.last() == users@[i as int]@);
            if i == 0 {
                assert(next[0] == next.last());
            }
        }
        if i > 0 {
            result.append(" ");
        }
        push_mention(&mut result, &users[i]);
        assert(result@ =~= mentions(next));
        i = i + 1;
    }
    assert(all.take(i as int) =~= all);
    result
}

/// Composes the message that mentions all of `users`, with `text` as its
/// caption.
pub fn compose_mentions(users: &Vec<User>, text: &str) -> (result: String)
    ensures
        result@ == mention_message(users.deep_view(), text@),
{
    let caption = trim(text);
    let links = join_mentions(users);
    let mut result = String::new();
    if !caption.is_empty() {
        let escaped_caption = escape_markdown_v2(caption);
        result.append(escaped_caption.as_str());
        result.append("\n");
    }
    result.append("||");
    result.append(links.as_str());
    result.append("||");
    assert(result@ =~= mention_message(users.deep_view(), text@));
    result
}

/// Without a caption the message is the spoiler alone: nothing stands
/// before the opening mark, and no line break is in front of it.
pub proof fn lemma_message_without_caption(users: Seq<UserView>, text: Seq<char>)
    requires
        trimmed(text).len() == 0,
    ensures
        mention_message(users, text) == "||"@ + mentions(users) + "||"@,
{
}

/// With a caption the message is the escaped caption, a line break, and the
/// spoiler.
pub proof fn lemma_message_with_caption(users: Seq<UserView>, text: Seq<char>)
    requires
        trimmed(text).len() > 0,
    ensures
        mention_message(users, text) == escaped(trimmed(text)) + "\n"@ + ("||"@ + mentions(users)
            + "||"@),
{
}

/// The links keep the order of the participants: those of a longer roster
/// begin with those of the shorter one it extends.
pub proof fn lemma_mentions_push(users: Seq<UserView>, user: UserView)
    ensures
        mentions(users.push(user)) == if users.len() == 0 {
            mention(user)
        } else {
            mentions(users) + " "@ + mention(user)
        },
{
    let all = users.push(user);
    assert(all.drop_last() =~= users);
}

} // verus!
