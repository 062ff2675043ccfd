//! Which incoming updates a bot acts on: access control in private chats,
//! routing by @mention in group chats with a limit on how many times bots
//! answer each other, and the few decisions taken on a button press.

use vstd::prelude::*;
use std::collections::{HashMap, HashSet};
use crate::text::{chars_of, html_escaped, lowercase, push_escaped, push_str, skip_char, str_eq, string_of, strip_leading, to_lowercase};

verus! {

broadcast use vstd::std_specs::hash::group_hash_axioms;

/// Whether a message is acted on, and the per-group counts of consecutive
/// bot-to-bot turns afterwards.
///
/// In a private chat only allowed users are served. In a group, only
/// allowed groups are served; a bot's message is taken only when it
/// @mentions this bot and the group's turn count is below `max_turns`
/// (`0`: no limit), and taking it counts one more turn; a human's message
/// resets the count and is taken unless it @mentions only other bots.
pub open spec fn admission(
    is_group: bool,
    chat_id: i64,
    user_id: u64,
    sender_is_bot: bool,
    mentioned_us: bool,
    has_mentions: bool,
    allowed_users: Set<u64>,
    allowed_groups: Set<i64>,
    max_turns: u32,
    turns: Map<i64, u32>,
) -> (bool, Map<i64, u32>) {
    if !is_group {
        (allowed_users.contains(user_id), turns)
    } else if !allowed_groups.contains(chat_id) {
        (false, turns)
    } else if sender_is_bot {
        let t: int = if turns.contains_key(chat_id) {
            turns[chat_id] as int
        } else {
            0
        };
        if !mentioned_us {
            (false, turns)
        } else if max_turns > 0 && t >= max_turns {
            (false, turns)
        } else {
            (true, turns.insert(chat_id, (t + 1) as u32))
        }
    } else {
        (!(has_mentions && !mentioned_us), turns.remove(chat_id))
    }
}

/// Whether `name` is among the mentioned user names.
pub open spec fn mentions_name(mentions: Seq<String>, name: Seq<char>) -> bool {
    exists|i: int| 0 <= i < mentions.len() && #[trigger] mentions[i]@ == name
}

fn mentions_name_exec(mentions: &Vec<String>, name: &str) -> (b: bool)
    ensures
        b == mentions_name(mentions@, name@),
{
    let mut i: usize = 0;
    while i < mentions.len()
        invariant
            i <= mentions.len(),
            forall|j: int| 0 <= j < i ==> #[trigger] mentions@[j]@ != name@,
        decreases mentions.len() - i,
    {
        if str_eq(mentions[i].as_str(), name) {
            return true;
        }
        i = i + 1;
    }
    false
}

/// Decides whether to act on a message (see [`admission`]) and updates the
/// bot-to-bot turn counts. `mentions` are the user names @mentioned in the
/// message, lowercased and without `@`; `bot_username` is this bot's, in
/// lowercase.
pub fn admit_message(
    is_group: bool,
    chat_id: i64,
    user_id: u64,
    sender_is_bot: bool,
    mentions: &Vec<String>,
    bot_username: &str,
    allowed_users: &HashSet<u64>,
    allowed_groups: &HashSet<i64>,
    max_turns: u32,
    turns: &mut HashMap<i64, u32>,
) -> (ok: bool)
    requires
        max_turns == 0 && old(turns)@.contains_key(chat_id) ==> old(turns)@[chat_id] < u32::MAX,
    ensures
        (ok, final(turns)@) == admission(
            is_group,
            chat_id,
            user_id,
            sender_is_bot,
            mentions_name(mentions@, bot_username@),
            mentions@.len() > 0,
            allowed_users@,
            allowed_groups@,
            max_turns,
            old(turns)@,
        ),
{
    if !is_group {
        return allowed_users.contains(&user_id);
    }
    if !allowed_groups.contains(&chat_id) {
        return false;
    }
    let mentioned_us = mentions_name_exec(mentions, bot_username);
    if sender_is_bot {
        if !mentioned_us {
            return false;
        }
        let t: u32 = match turns.get(&chat_id) {
            Some(n) => *n,
            None => 0,
        };
        if max_turns > 0 && t >= max_turns {
            return false;
        }
        turns.insert(chat_id, t + 1);
        true
    } else {
        turns.remove(&chat_id);
        !(mentions.len() > 0 && !mentioned_us)
    }
}

/// The user name an @mention refers to: the mention's text without its
/// leading `@`s, lowercased.
pub fn mention_name(raw: &str) -> (r: String)
    ensures
        r@ == lowercase(strip_leading(raw@, '@')),
{
    let v = chars_of(raw);
    let s = skip_char(&v, 0, v.len(), '@');
    let name = string_of(&v, s, v.len());
    assert(v@.subrange(0, v@.len() as int) =~= raw@);
    assert(v@.subrange(s as int, v@.len() as int) == strip_leading(raw@, '@'));
    to_lowercase(name.as_str())
}

/// What a message carries: its text, or else a voice or audio file, or else
/// a photo (the largest size) with its caption.
pub open spec fn payload_of(
    text: Option<Seq<char>>,
    voice: Option<Seq<char>>,
    audio: Option<Seq<char>>,
    photo_sizes: Option<Seq<Seq<char>>>,
    caption: Option<Seq<char>>,
) -> Option<(Seq<char>, Option<Seq<char>>, Option<Seq<char>>)> {
    match text {
        Some(t) => Some((t, None, None)),
        None => match voice {
            Some(v) => Some(("[voice]"@, Some(v), None)),
            None => match audio {
                Some(a) => Some(("[voice]"@, Some(a), None)),
                None => match photo_sizes {
                    Some(sizes) => if sizes.len() > 0 {
                        Some(
                            (
                                match caption {
                                    Some(c) => c,
                                    None => "[photo]"@,
                                },
                                None,
                                Some(sizes.last()),
                            ),
                        )
                    } else {
                        None
                    },
                    None => None,
                },
            },
        },
    }
}

/// The text, voice file id and photo file id of a message (see
/// [`payload_of`]); `None` for a message the bot ignores.
pub fn message_payload(
    text: Option<&str>,
    voice: Option<&str>,
    audio: Option<&str>,
    photo_sizes: Option<&Vec<String>>,
    caption: Option<&str>,
) -> (r: Option<(String, Option<String>, Option<String>)>)
    ensures
        match r {
            Some((t, v, p)) => payload_of(
                match text {
                    Some(s) => Some(s@),
                    None => None,
                },
                match voice {
                    Some(s) => Some(s@),
                    None => None,
                },
                match audio {
                    Some(s) => Some(s@),
                    None => None,
                },
                match photo_sizes {
                    Some(v) => Some(v@.map_values(|s: String| s@)),
                    None => None,
                },
                match caption {
                    Some(s) => Some(s@),
                    None => None,
                },
            ) == Some(
                (
                    t@,
                    match v {
                        Some(s) => Some(s@),
                        None => None,
                    },
                    match p {
                        Some(s) => Some(s@),
                        None => None,
                    },
                ),
            ),
            None => payload_of(
                match text {
                    Some(s) => Some(s@),
                    None => None,
                },
                match voice {
                    Some(s) => Some(s@),
                    None => None,
                },
                match audio {
                    Some(s) => Some(s@),
                    None => None,
                },
                match photo_sizes {
                    Some(v) => Some(v@.map_values(|s: String| s@)),
                    None => None,
                },
                match caption {
                    Some(s) => Some(s@),
                    None => None,
                },
            ) is None,
        },
{
    if let Some(t) = text {
        return Some((t.to_string(), None, None));
    }
    if let Some(v) = voice {
        return Some(("[voice]".to_string(), Some(v.to_string()), None));
    }
    if let Some(a) = audio {
        return Some(("[voice]".to_string(), Some(a.to_string()), None));
    }
    match photo_sizes {
        Some(sizes) => {
            if sizes.len() == 0 {
                return None;
            }
            let id = sizes[sizes.len() - 1].clone();
            let label = match caption {
                Some(c) => c.to_string(),
                None => "[photo]".to_string(),
            };
            Some((label, None, Some(id)))
        },
        None => None,
    }
}

/// What an inline-keyboard button asks for.
#[derive(Debug, Clone, PartialEq, Eq)]
pub enum CallbackAction {
    /// Stop the running process.
    Cancel,
    /// Resume the given session.
    Resume(String),
    /// Nothing this bot knows.
    Ignore,
}

/// The action of a button's data: `cancel`, or `resume:` and a session id.
pub fn callback_action(data: &str) -> (r: CallbackAction)
    ensures
        data@ == "cancel"@ ==> r == CallbackAction::Cancel,
        data@ != "cancel"@ && data@.len() >= 7 && data@.take(7) == "resume:"@ ==> (r matches CallbackAction::Resume(s) && s@ == data@.skip(7)),
        data@ != "cancel"@ && !(data@.len() >= 7 && data@.take(7) == "resume:"@) ==> r == CallbackAction::Ignore,
{
    if str_eq(data, "cancel") {
        return CallbackAction::Cancel;
    }
    let v = chars_of(data);
    if v.len() >= 7 {
        let head = string_of(&v, 0, 7);
        assert(v@.subrange(0, 7) =~= data@.take(7));
        if str_eq(head.as_str(), "resume:") {
            let sid = string_of(&v, 7, v.len());
            assert(v@.subrange(7, v@.len() as int) =~= data@.skip(7));
            return CallbackAction::Resume(sid);
        }
    }
    CallbackAction::Ignore
}

/// Reply when a session is resumed from a button.
pub fn session_resumed_html(sid: &str) -> (r: String)
    ensures
        r@ == "\u{2705} <b>Session resumed</b>\n<code>"@ + html_escaped(sid@) + "</code>"@,
{
    let mut r = "\u{2705} <b>Session resumed</b>\n<code>".to_string();
    let v = chars_of(sid);
    push_escaped(&mut r, &v, 0, v.len());
    assert(v@.subrange(0, v@.len() as int) =~= sid@);
    push_str(&mut r, "</code>");
    r
}

/// Reply to `/cancel`: whether a run was stopped.
pub fn cancel_reply(cancelled: bool) -> (r: &'static str)
    ensures
        r@ == if cancelled {
            "<b>Run canceled</b>\nStopping current execution."@
        } else {
            "<b>No active run</b>\nNothing to cancel."@
        },
{
    if cancelled {
        "<b>Run canceled</b>\nStopping current execution."
    } else {
        "<b>No active run</b>\nNothing to cancel."
    }
}

/// Reply when a message waits behind a running task.
pub fn queued_html() -> (r: &'static str)
    ensures
        r@ == "<b>Queued</b>\nA run is already in progress. Your message has been queued."@,
{
    "<b>Queued</b>\nA run is already in progress. Your message has been queued."
}


/// In a group with a turn limit, counts that are within the limit stay
/// within it, whatever message comes: bots never answer each other more
/// than `max_turns` times in a row.
pub proof fn law_bot_turns_within_limit(
    is_group: bool,
    chat_id: i64,
    user_id: u64,
    sender_is_bot: bool,
    mentioned_us: bool,
    has_mentions: bool,
    allowed_users: Set<u64>,
    allowed_groups: Set<i64>,
    max_turns: u32,
    turns: Map<i64, u32>,
)
    requires
        max_turns > 0,
        forall|c: i64| turns.contains_key(c) ==> turns[c] <= max_turns,
    ensures
        ({
            let after = admission(
                is_group,
                chat_id,
                user_id,
                sender_is_bot,
                mentioned_us,
                has_mentions,
                allowed_users,
                allowed_groups,
                max_turns,
                turns,
            ).1;
            forall|c: i64| after.contains_key(c) ==> after[c] <= max_turns
        }),
{
}

/// A human's message in a served group ends any chain of bot-to-bot turns
/// there; a bot's message is taken only when it @mentions this bot, and
/// with no limit (`max_turns == 0`) always then.
pub proof fn law_group_turns(
    chat_id: i64,
    user_id: u64,
    mentioned_us: bool,
    has_mentions: bool,
    allowed_users: Set<u64>,
    allowed_groups: Set<i64>,
    max_turns: u32,
    turns: Map<i64, u32>,
)
    requires
        allowed_groups.contains(chat_id),
    ensures
        !admission(
            true,
            chat_id,
            user_id,
            false,
            mentioned_us,
            has_mentions,
            allowed_users,
            allowed_groups,
            max_turns,
            turns,
        ).1.contains_key(chat_id),
        !mentioned_us ==> !admission(
            true,
            chat_id,
            user_id,
            true,
            mentioned_us,
            has_mentions,
            allowed_users,
            allowed_groups,
            max_turns,
            turns,
        ).0,
        mentioned_us && max_turns == 0 ==> admission(
            true,
            chat_id,
            user_id,
            true,
            mentioned_us,
            has_mentions,
            allowed_users,
            allowed_groups,
            max_turns,
            turns,
        ).0,
{
}

/// Only allowed users are served in private chats, and only allowed groups
/// in group chats; a message that is not served leaves the turn counts as
/// they were, unless it is a human's message in a served group.
pub proof fn law_access_control(
    is_group: bool,
    chat_id: i64,
    user_id: u64,
    sender_is_bot: bool,
    mentioned_us: bool,
    has_mentions: bool,
    allowed_users: Set<u64>,
    allowed_groups: Set<i64>,
    max_turns: u32,
    turns: Map<i64, u32>,
)
    ensures
        ({
            let (ok, after) = admission(
                is_group,
                chat_id,
                user_id,
                sender_is_bot,
                mentioned_us,
                has_mentions,
                allowed_users,
                allowed_groups,
                max_turns,
                turns,
            );
            &&& !is_group ==> ok == allowed_users.contains(user_id) && after == turns
            &&& is_group && !allowed_groups.contains(chat_id) ==> !ok && after == turns
            &&& !ok && (!is_group || sender_is_bot || !allowed_groups.contains(chat_id))
                ==> after == turns
        }),
{
}

} // verus!
