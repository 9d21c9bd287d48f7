use tagger::mention::{compose_mentions, join_mentions, push_mention};
use tagger::User;

fn user(user_id: i64, first_name: &str) -> User {
    User { user_id, first_name: first_name.to_string() }
}

#[test]
fn mention_is_a_link_to_the_user() {
    let mut out = String::new();
    push_mention(&mut out, &user(42, "Ann"));
    assert_eq!(out, "[Ann](tg://user?id=42)");
}

#[test]
fn mention_escapes_the_name() {
    let mut out = String::from("x ");
    push_mention(&mut out, &user(7, "J. R. [Bob]"));
    assert_eq!(out, "x [J\\. R\\. \\[Bob\\]](tg://user?id=7)");
}

#[test]
fn mention_of_a_negative_id() {
    let mut out = String::new();
    push_mention(&mut out, &user(-5, "Eve"));
    assert_eq!(out, "[Eve](tg://user?id=-5)");
}

#[test]
fn mentions_are_joined_by_single_spaces_in_order() {
    let users = vec![user(1, "Ann"), user(2, "Bob"), user(3, "Cid")];
    assert_eq!(
        join_mentions(&users),
        "[Ann](tg://user?id=1) [Bob](tg://user?id=2) [Cid](tg://user?id=3)"
    );
}

#[test]
fn mentions_of_one_and_of_none() {
    assert_eq!(join_mentions(&vec![user(1, "Ann")]), "[Ann](tg://user?id=1)");
    assert_eq!(join_mentions(&Vec::new()), "");
}

#[test]
fn empty_caption_gives_the_spoiler_alone() {
    let users = vec![user(1, "Ann"), user(2, "Bob")];
    assert_eq!(
        compose_mentions(&users, ""),
        "||[Ann](tg://user?id=1) [Bob](tg://user?id=2)||"
    );
}

#[test]
fn blank_caption_gives_the_spoiler_alone() {
    let users = vec![user(1, "Ann")];
    assert_eq!(compose_mentions(&users, "   \t\n"), "||[Ann](tg://user?id=1)||");
}

#[test]
fn caption_stands_escaped_on_a_line_of_its_own() {
    let users = vec![user(1, "Ann"), user(2, "Bob")];
    assert_eq!(
        compose_mentions(&users, "Hi *team*"),
        "Hi \\*team\\*\n||[Ann](tg://user?id=1) [Bob](tg://user?id=2)||"
    );
}

#[test]
fn caption_is_trimmed() {
    let users = vec![user(1, "Ann")];
    assert_eq!(
        compose_mentions(&users, "  meeting at 10.30!  "),
        "meeting at 10\\.30\\!\n||[Ann](tg://user?id=1)||"
    );
}

#[test]
fn large_roster_gives_one_message() {
    let users: Vec<User> = (0..500).map(|i| user(i, "N")).collect();
    let text = compose_mentions(&users, "");
    assert!(text.starts_with("||[N](tg://user?id=0) [N](tg://user?id=1) "));
    assert!(text.ends_with(" [N](tg://user?id=499)||"));
    assert_eq!(text.matches("](tg://user?id=").count(), 500);
}
