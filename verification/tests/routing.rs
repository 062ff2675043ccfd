use std::collections::{HashMap, HashSet};

use nitro_agent::nitro::routing::{
    admit_message, callback_action, cancel_reply, mention_name, message_payload, queued_html,
    session_resumed_html, CallbackAction,
};

fn sets() -> (HashSet<u64>, HashSet<i64>) {
    let users: HashSet<u64> = [1u64, 2].into_iter().collect();
    let groups: HashSet<i64> = [-100i64].into_iter().collect();
    (users, groups)
}

#[test]
fn private_chats_serve_allowed_users_only() {
    let (users, groups) = sets();
    let mut turns = HashMap::new();
    assert!(admit_message(false, 5, 1, false, &vec![], "me", &users, &groups, 2, &mut turns));
    assert!(!admit_message(false, 5, 9, false, &vec![], "me", &users, &groups, 2, &mut turns));
    assert!(turns.is_empty());
}

#[test]
fn groups_must_be_allowed() {
    let (users, groups) = sets();
    let mut turns = HashMap::new();
    assert!(!admit_message(true, -200, 1, false, &vec![], "me", &users, &groups, 2, &mut turns));
    assert!(admit_message(true, -100, 77, false, &vec![], "me", &users, &groups, 2, &mut turns));
}

#[test]
fn bot_turns_are_limited_and_reset_by_humans() {
    let (users, groups) = sets();
    let mut turns = HashMap::new();
    let us = vec!["me".to_string()];
    let other = vec!["other".to_string()];
    assert!(!admit_message(true, -100, 50, true, &other, "me", &users, &groups, 2, &mut turns));
    assert!(turns.is_empty());
    assert!(admit_message(true, -100, 50, true, &us, "me", &users, &groups, 2, &mut turns));
    assert_eq!(turns.get(&-100), Some(&1));
    assert!(admit_message(true, -100, 51, true, &us, "me", &users, &groups, 2, &mut turns));
    assert_eq!(turns.get(&-100), Some(&2));
    assert!(!admit_message(true, -100, 50, true, &us, "me", &users, &groups, 2, &mut turns));
    assert_eq!(turns.get(&-100), Some(&2));
    // a human speaks: the chain is over
    assert!(admit_message(true, -100, 1, false, &vec![], "me", &users, &groups, 2, &mut turns));
    assert_eq!(turns.get(&-100), None);
    assert!(admit_message(true, -100, 50, true, &us, "me", &users, &groups, 2, &mut turns));
}

#[test]
fn humans_mentioning_other_bots_are_skipped() {
    let (users, groups) = sets();
    let mut turns = HashMap::new();
    let other = vec!["other".to_string()];
    let both = vec!["other".to_string(), "me".to_string()];
    assert!(!admit_message(true, -100, 1, false, &other, "me", &users, &groups, 2, &mut turns));
    assert!(admit_message(true, -100, 1, false, &both, "me", &users, &groups, 2, &mut turns));
}

#[test]
fn no_limit_when_max_turns_is_zero() {
    let (users, groups) = sets();
    let mut turns = HashMap::new();
    let us = vec!["me".to_string()];
    for i in 1..=20u32 {
        assert!(admit_message(true, -100, 50, true, &us, "me", &users, &groups, 0, &mut turns));
        assert_eq!(turns.get(&-100), Some(&i));
    }
}

#[test]
fn mention_names_are_normalised() {
    assert_eq!(mention_name("@MyBot"), "mybot");
    assert_eq!(mention_name("@@Other_Bot"), "other_bot");
    assert_eq!(mention_name("plain"), "plain");
}

#[test]
fn message_payloads() {
    assert_eq!(
        message_payload(Some("hi"), Some("v"), None, None, None),
        Some(("hi".to_string(), None, None))
    );
    assert_eq!(
        message_payload(None, Some("v1"), Some("a1"), None, None),
        Some(("[voice]".to_string(), Some("v1".to_string()), None))
    );
    assert_eq!(
        message_payload(None, None, Some("a1"), None, None),
        Some(("[voice]".to_string(), Some("a1".to_string()), None))
    );
    let sizes = vec!["small".to_string(), "large".to_string()];
    assert_eq!(
        message_payload(None, None, None, Some(&sizes), None),
        Some(("[photo]".to_string(), None, Some("large".to_string())))
    );
    assert_eq!(
        message_payload(None, None, None, Some(&sizes), Some("look")),
        Some(("look".to_string(), None, Some("large".to_string())))
    );
    let none: Vec<String> = Vec::new();
    assert_eq!(message_payload(None, None, None, Some(&none), None), None);
    assert_eq!(message_payload(None, None, None, None, Some("x")), None);
}

#[test]
fn button_callbacks() {
    assert_eq!(callback_action("cancel"), CallbackAction::Cancel);
    assert_eq!(callback_action("resume:abc-1"), CallbackAction::Resume("abc-1".to_string()));
    assert_eq!(callback_action("resume:"), CallbackAction::Resume(String::new()));
    assert_eq!(callback_action("resume"), CallbackAction::Ignore);
    assert_eq!(callback_action("other"), CallbackAction::Ignore);
}

#[test]
fn routing_replies() {
    assert_eq!(
        session_resumed_html("a&b"),
        "\u{2705} <b>Session resumed</b>\n<code>a&amp;b</code>"
    );
    assert_eq!(cancel_reply(true), "<b>Run canceled</b>\nStopping current execution.");
    assert_eq!(cancel_reply(false), "<b>No active run</b>\nNothing to cancel.");
    assert!(queued_html().starts_with("<b>Queued</b>"));
}
