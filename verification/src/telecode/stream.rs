//! Decoding of the engine's stream-json output and the rolling output buffer.

use vstd::prelude::*;
use crate::text::{
    chars_of, push_str, join_lines, str_eq, string_of, trim, trim_bounds,
};

verus! {

#[verifier::external_type_specification]
#[verifier::external_body]
pub struct ExJsonValue(serde_json::Value);

/// A JSON value, holding as plain values what event decoding reads. Object
/// members keep the order in which `serde_json`'s map yields them.
#[derive(Debug)]
pub enum JsonValue {
    Null,
    Bool(bool),
    /// A number, in the text `serde_json` prints for it.
    Number(String),
    Str(String),
    Array(Vec<JsonValue>),
    Object(Vec<(String, JsonValue)>),
}

/// What `serde_json::from_str::<serde_json::Value>` yields for `text`
/// (`None` when it is not valid JSON), converted to [`JsonValue`].
pub uninterp spec fn parsed_json(text: Seq<char>) -> Option<JsonValue>;

/// Converts a `serde_json::Value` one for one.
#[verifier::external_body]
fn json_of(v: &serde_json::Value) -> JsonValue {
    match v {
        serde_json::Value::Null => JsonValue::Null,
        serde_json::Value::Bool(b) => JsonValue::Bool(*b),
        serde_json::Value::Number(n) => JsonValue::Number(n.to_string()),
        serde_json::Value::String(s) => JsonValue::Str(s.clone()),
        serde_json::Value::Array(a) => JsonValue::Array(a.iter().map(json_of).collect()),
        serde_json::Value::Object(m) => JsonValue::Object(
            m.iter().map(|(k, x)| (k.clone(), json_of(x))).collect(),
        ),
    }
}

/// `serde_json::from_str::<serde_json::Value>`: the contract only names the
/// result (`parsed_json`); nothing is claimed about the JSON grammar.
#[verifier::external_body]
fn parse_json(text: &str) -> (r: Option<JsonValue>)
    ensures
        r == parsed_json(text@),
{
    serde_json::from_str::<serde_json::Value>(text).ok().map(|v| json_of(&v))
}

/// Keys under which a session id may appear.
pub open spec fn is_session_key(k: Seq<char>) -> bool {
    ||| k == "session_id"@
    ||| k == "sessionId"@
    ||| k == "conversation_id"@
    ||| k == "conversationId"@
    ||| k == "thread_id"@
    ||| k == "threadId"@
}

/// The first session id found by a depth-first scan of `v`: an object member
/// under a session key whose value is a string or number (its text), else
/// one found inside that member's value; members and array items in order.
pub open spec fn session_id_in(v: JsonValue) -> Option<Seq<char>>
    decreases v,
{
    match v {
        JsonValue::Object(m) => session_id_in_members(m@),
        JsonValue::Array(a) => session_id_in_items(a@),
        _ => None,
    }
}

pub open spec fn session_id_in_members(ms: Seq<(String, JsonValue)>) -> Option<Seq<char>>
    decreases ms,
{
    if ms.len() == 0 {
        None
    } else {
        let k = ms[0].0;
        let x = ms[0].1;
        if is_session_key(k@) && x is Str {
            Some(x->Str_0@)
        } else if is_session_key(k@) && x is Number {
            Some(x->Number_0@)
        } else {
            match session_id_in(x) {
                Some(s) => Some(s),
                None => session_id_in_members(ms.drop_first()),
            }
        }
    }
}

pub open spec fn session_id_in_items(xs: Seq<JsonValue>) -> Option<Seq<char>>
    decreases xs,
{
    if xs.len() == 0 {
        None
    } else {
        match session_id_in(xs[0]) {
            Some(s) => Some(s),
            None => session_id_in_items(xs.drop_first()),
        }
    }
}

/// The last `max` characters of `s` (all of `s` when it is shorter).
pub open spec fn keep_last_chars(s: Seq<char>, max: nat) -> Seq<char> {
    if s.len() <= max {
        s
    } else {
        s.skip(s.len() - max)
    }
}

/// What the rolling buffer keeps of a text is its tail, of at most `max`
/// characters; a text that fits already is kept whole.
pub proof fn law_rolling_keeps_tail(s: Seq<char>, max: nat)
    ensures
        keep_last_chars(s, max).len() <= max,
        keep_last_chars(s, max).len() <= s.len(),
        keep_last_chars(s, max) == s.skip(s.len() - keep_last_chars(s, max).len()),
        s.len() <= max ==> keep_last_chars(s, max) == s,
{
    if s.len() <= max {
        assert(s.skip(0) =~= s);
    }
}

/// Appending in several steps keeps what one cut of everything appended
/// keeps: the buffer always holds the last `max` characters of all the
/// text it was given.
pub proof fn law_rolling_appends_compose(s: Seq<char>, t: Seq<char>, max: nat)
    ensures
        keep_last_chars(keep_last_chars(s, max) + t, max) == keep_last_chars(s + t, max),
{
    let k = keep_last_chars(s, max);
    if s.len() > max {
        let n = (s + t).len() - max;
        let m = (k + t).len() - max;
        if (k + t).len() > max {
            assert((k + t).skip(m) =~= (s + t).skip(n));
        } else {
            assert(k + t =~= (s + t).skip(n));
        }
    }
}

/// Rolling buffer that keeps the last N characters of appended text.
pub struct RollingBuffer {
    buf: String,
    max_chars: usize,
}

impl View for RollingBuffer {
    type V = Seq<char>;

    closed spec fn view(&self) -> Seq<char> {
        self.buf@
    }
}

impl RollingBuffer {
    /// The capacity in characters.
    pub closed spec fn capacity(&self) -> nat {
        self.max_chars as nat
    }

    pub fn new(max_chars: usize) -> (b: Self)
        ensures
            b@ == Seq::<char>::empty(),
            b.capacity() == max_chars,
    {
        RollingBuffer { buf: String::new(), max_chars }
    }

    pub fn append(&mut self, text: &str)
        ensures
            final(self)@ == keep_last_chars(old(self)@ + text@, old(self).capacity()),
            final(self).capacity() == old(self).capacity(),
    {
        let mut v = chars_of(self.buf.as_str());
        let t = chars_of(text);
        let ghost s0 = v@;
        let mut i: usize = 0;
        while i < t.len()
            invariant
                i <= t.len(),
                v@ == s0 + t@.take(i as int),
            decreases t.len() - i,
        {
            v.push(t[i]);
            i = i + 1;
            assert(v@ =~= s0 + t@.take(i as int));
        }
        assert(t@.take(t@.len() as int) =~= t@);
        let max = self.max_chars;
        if v.len() > max {
            self.buf = string_of(&v, v.len() - max, v.len());
            assert(v@.subrange(v.len() - max, v@.len() as int) =~= v@.skip(v.len() - max));
        } else {
            self.buf = string_of(&v, 0, v.len());
            assert(v@.subrange(0, v@.len() as int) =~= v@);
        }
    }

    pub fn value(&self) -> (s: &str)
        ensures
            s@ == self@,
    {
        self.buf.as_str()
    }
}


/// The value of the first member named `key`.
pub open spec fn member(ms: Seq<(String, JsonValue)>, key: Seq<char>) -> Option<JsonValue>
    decreases ms.len(),
{
    if ms.len() == 0 {
        None
    } else if ms[0].0@ == key {
        Some(ms[0].1)
    } else {
        member(ms.drop_first(), key)
    }
}

/// The text of a string value.
pub open spec fn str_of(v: Option<JsonValue>) -> Option<Seq<char>> {
    match v {
        Some(JsonValue::Str(s)) => Some(s@),
        _ => None,
    }
}

/// The text of a string value, or empty.
pub open spec fn str_or_empty(v: Option<JsonValue>) -> Seq<char> {
    match str_of(v) {
        Some(s) => s,
        None => Seq::empty(),
    }
}

/// The members of an object value.
pub open spec fn obj_of(v: Option<JsonValue>) -> Option<Seq<(String, JsonValue)>> {
    match v {
        Some(JsonValue::Object(m)) => Some(m@),
        _ => None,
    }
}

/// The items of an array value.
pub open spec fn arr_of(v: Option<JsonValue>) -> Option<Seq<JsonValue>> {
    match v {
        Some(JsonValue::Array(a)) => Some(a@),
        _ => None,
    }
}

/// The content of a `tool_result` item: an object whose `type` is the string
/// `tool_result` and whose `content` is a string.
pub open spec fn tool_result_text(item: JsonValue) -> Option<Seq<char>> {
    match item {
        JsonValue::Object(m) => if str_of(member(m@, "type"@)) == Some("tool_result"@) {
            str_of(member(m@, "content"@))
        } else {
            None
        },
        _ => None,
    }
}

/// The contents of the `tool_result` items, in order.
pub open spec fn tool_results(items: Seq<JsonValue>) -> Seq<Seq<char>>
    decreases items.len(),
{
    if items.len() == 0 {
        Seq::empty()
    } else {
        match tool_result_text(items.last()) {
            Some(t) => tool_results(items.drop_last()).push(t),
            None => tool_results(items.drop_last()),
        }
    }
}

/// Text carried by a stream-json event object: a `text_delta` of a
/// `stream_event`, the joined tool results of a `user` event, or the message
/// of an `error` / `warning` event; nothing for other events.
pub open spec fn event_text(ms: Seq<(String, JsonValue)>) -> Seq<char> {
    let ty = str_or_empty(member(ms, "type"@));
    if ty == "stream_event"@ {
        match obj_of(member(ms, "event"@)) {
            None => Seq::empty(),
            Some(inner) => if str_or_empty(member(inner, "type"@)) == "content_block_delta"@ {
                match obj_of(member(inner, "delta"@)) {
                    Some(d) => if str_or_empty(member(d, "type"@)) == "text_delta"@ {
                        str_or_empty(member(d, "text"@))
                    } else {
                        Seq::empty()
                    },
                    None => Seq::empty(),
                }
            } else {
                Seq::empty()
            },
        }
    } else if ty == "user"@ {
        match obj_of(member(ms, "message"@)) {
            Some(msg) => match arr_of(member(msg, "content"@)) {
                Some(items) => join_lines(tool_results(items)),
                None => Seq::empty(),
            },
            None => Seq::empty(),
        }
    } else if ty == "error"@ {
        "[error] "@ + str_or_empty(member(ms, "message"@))
    } else if ty == "warning"@ {
        "[warning] "@ + str_or_empty(member(ms, "message"@))
    } else {
        Seq::empty()
    }
}

/// Result of parsing a single stream-json line from the engine.
#[derive(Debug)]
pub struct StreamEvent {
    /// Text content extracted from this event (empty if none).
    pub text: String,
    /// Session ID if discovered in this event.
    pub session_id: Option<String>,
}

impl Default for StreamEvent {
    fn default() -> (e: Self)
        ensures
            e.text@ == Seq::<char>::empty(),
            e.session_id is None,
    {
        StreamEvent { text: String::new(), session_id: None }
    }
}

/// The session id of an event as a spec value.
pub open spec fn opt_view(o: Option<String>) -> Option<Seq<char>> {
    match o {
        Some(s) => Some(s@),
        None => None,
    }
}

/// The text and session id that `parse_stream_line` reports for `line`,
/// given what the JSON parser yields for the trimmed line.
pub open spec fn line_event(line: Seq<char>, parsed: Option<JsonValue>) -> (
    Seq<char>,
    Option<Seq<char>>,
) {
    match parsed {
        None => (line, None),
        Some(JsonValue::Object(m)) => (event_text(m@), session_id_in(JsonValue::Object(m))),
        Some(_) => (Seq::empty(), None),
    }
}

/// What `parse_stream_line` reports for `line`.
pub open spec fn stream_line_event(line: Seq<char>) -> (Seq<char>, Option<Seq<char>>) {
    if trim(line).len() == 0 {
        (Seq::empty(), None)
    } else {
        line_event(line, parsed_json(trim(line)))
    }
}

/// Whether `k` is one of the session id keys.
fn is_session_key_exec(k: &str) -> (b: bool)
    ensures
        b == is_session_key(k@),
{
    str_eq(k, "session_id") || str_eq(k, "sessionId") || str_eq(k, "conversation_id") || str_eq(
        k,
        "conversationId",
    ) || str_eq(k, "thread_id") || str_eq(k, "threadId")
}

/// Recursively scan a JSON value for session ID keys.
#[verifier::loop_isolation(false)]
pub fn extract_session_id(value: &JsonValue) -> (r: Option<String>)
    ensures
        opt_view(r) == session_id_in(*value),
    decreases value,
{
    match value {
        JsonValue::Object(map) => {
            let mut i: usize = 0;
            assert(map@.skip(0) =~= map@);
            while i < map.len()
                invariant
                    i <= map.len(),
                    session_id_in(*value) == session_id_in_members(map@),
                    session_id_in_members(map@) == session_id_in_members(map@.skip(i as int)),
                decreases map.len() - i,
            {
                let ghost rest = map@.skip(i as int);
                assert(rest[0] == map@[i as int]);
                assert(rest.drop_first() =~= map@.skip(i + 1));
                let key = &map[i].0;
                let val = &map[i].1;
                if is_session_key_exec(key.as_str()) {
                    match val {
                        JsonValue::Str(s) => {
                            return Some(s.clone());
                        },
                        JsonValue::Number(n) => {
                            return Some(n.clone());
                        },
                        _ => {},
                    }
                }
                proof {
                    assert(decreases_to!(*value => value->Object_0));
                    assert(decreases_to!(value->Object_0 => map@));
                    assert(decreases_to!(map@ => map@[i as int]));
                    assert(decreases_to!(map@[i as int] => map@[i as int].1));
                    assert(decreases_to!(*value => map@[i as int].1));
                }
                match extract_session_id(val) {
                    Some(found) => {
                        return Some(found);
                    },
                    None => {},
                }
                i = i + 1;
            }
            None
        },
        JsonValue::Array(arr) => {
            let mut i: usize = 0;
            assert(arr@.skip(0) =~= arr@);
            while i < arr.len()
                invariant
                    i <= arr.len(),
                    session_id_in(*value) == session_id_in_items(arr@),
                    session_id_in_items(arr@) == session_id_in_items(arr@.skip(i as int)),
                decreases arr.len() - i,
            {
                let ghost rest = arr@.skip(i as int);
                assert(rest[0] == arr@[i as int]);
                assert(rest.drop_first() =~= arr@.skip(i + 1));
                proof {
                    assert(decreases_to!(*value => value->Array_0));
                    assert(decreases_to!(value->Array_0 => arr@));
                    assert(decreases_to!(arr@ => arr@[i as int]));
                    assert(decreases_to!(*value => arr@[i as int]));
                }
                match extract_session_id(&arr[i]) {
                    Some(found) => {
                        return Some(found);
                    },
                    None => {},
                }
                i = i + 1;
            }
            None
        },
        _ => None,
    }
}

/// The value of the first member named `key`.
fn get_member<'a>(m: &'a Vec<(String, JsonValue)>, key: &str) -> (r: Option<&'a JsonValue>)
    ensures
        match r {
            Some(v) => member(m@, key@) == Some(*v),
            None => member(m@, key@) is None,
        },
{
    let mut i: usize = 0;
    assert(m@.skip(0) =~= m@);
    while i < m.len()
        invariant
            i <= m.len(),
            member(m@, key@) == member(m@.skip(i as int), key@),
        decreases m.len() - i,
    {
        assert(m@.skip(i as int)[0] == m@[i as int]);
        assert(m@.skip(i as int).drop_first() =~= m@.skip(i + 1));
        if str_eq(m[i].0.as_str(), key) {
            return Some(&m[i].1);
        }
        i = i + 1;
    }
    None
}

/// The text of the string member `key`, or empty.
fn member_text(m: &Vec<(String, JsonValue)>, key: &str) -> (s: String)
    ensures
        s@ == str_or_empty(member(m@, key@)),
{
    match get_member(m, key) {
        Some(JsonValue::Str(s)) => s.clone(),
        _ => String::new(),
    }
}

/// Whether the string member `key` equals `want`.
fn member_is(m: &Vec<(String, JsonValue)>, key: &str, want: &str) -> (b: bool)
    ensures
        b == (str_or_empty(member(m@, key@)) == want@),
{
    let t = member_text(m, key);
    str_eq(t.as_str(), want)
}

/// Extract text content from a stream-json event object.
///
/// Event types from the engine:
/// - `stream_event` -> content_block_delta text
/// - `user` -> tool_result content
/// - `error` / `warning` -> message text
/// - `assistant`, `result`, `system` -> skip (avoid duplication)
pub fn extract_event_text(event: &Vec<(String, JsonValue)>) -> (s: String)
    ensures
        s@ == event_text(event@),
{
    if member_is(event, "type", "stream_event") {
        let inner = match get_member(event, "event") {
            Some(JsonValue::Object(e)) => e,
            _ => {
                return String::new();
            },
        };
        if member_is(inner, "type", "content_block_delta") {
            match get_member(inner, "delta") {
                Some(JsonValue::Object(delta)) => {
                    if member_is(delta, "type", "text_delta") {
                        return member_text(delta, "text");
                    }
                },
                _ => {},
            }
        }
        String::new()
    } else if member_is(event, "type", "user") {
        let items = match get_member(event, "message") {
            Some(JsonValue::Object(msg)) => match get_member(msg, "content") {
                Some(JsonValue::Array(items)) => items,
                _ => {
                    return String::new();
                },
            },
            _ => {
                return String::new();
            },
        };
        let mut out = String::new();
        let mut first = true;
        let mut i: usize = 0;
        while i < items.len()
            invariant
                i <= items.len(),
                first == (tool_results(items@.take(i as int)).len() == 0),
                out@ == join_lines(tool_results(items@.take(i as int))),
            decreases items.len() - i,
        {
            let ghost before = tool_results(items@.take(i as int));
            assert(items@.take(i + 1).drop_last() =~= items@.take(i as int));
            assert(items@.take(i + 1).last() == items@[i as int]);
            match &items[i] {
                JsonValue::Object(obj) => {
                    if member_is(obj, "type", "tool_result") {
                        proof {
                            reveal_strlit("tool_result");
                            assert("tool_result"@.len() > 0);
                            assert(str_or_empty(member(obj@, "type"@)) == "tool_result"@);
                        }
                        assert(str_of(member(obj@, "type"@)) == Some("tool_result"@));
                        match get_member(obj, "content") {
                            Some(JsonValue::Str(c)) => {
                                if !first {
                                    push_str(&mut out, "\n");
                                }
                                push_str(&mut out, c.as_str());
                                first = false;
                                assert(tool_results(items@.take(i + 1)) == before.push(c@));
                                assert(before.push(c@).drop_last() =~= before);
                                proof {
                                    if before.len() == 0 {
                                        assert(join_lines(before.push(c@)) == c@);
                                    } else {
                                        assert(join_lines(before.push(c@)) == join_lines(before)
                                            + "\n"@ + c@);
                                    }
                                }
                            },
                            _ => {},
                        }
                    } else {
                        assert(str_of(member(obj@, "type"@)) != Some("tool_result"@));
                    }
                },
                _ => {},
            }
            i = i + 1;
            assert(out@ =~= join_lines(tool_results(items@.take(i as int))));
        }
        assert(items@.take(items@.len() as int) =~= items@);
        out
    } else if member_is(event, "type", "error") {
        let mut out = String::new();
        push_str(&mut out, "[error] ");
        let m = member_text(event, "message");
        push_str(&mut out, m.as_str());
        out
    } else if member_is(event, "type", "warning") {
        let mut out = String::new();
        push_str(&mut out, "[warning] ");
        let m = member_text(event, "message");
        push_str(&mut out, m.as_str());
        out
    } else {
        String::new()
    }
}

/// The event reported for a non-blank `line` whose trimmed text the JSON
/// parser turned into `parsed` (`None`: not JSON).
pub fn event_from_json(line: &str, parsed: Option<JsonValue>) -> (e: StreamEvent)
    ensures
        (e.text@, opt_view(e.session_id)) == line_event(line@, parsed),
{
    match parsed {
        None => StreamEvent { text: line.to_string(), session_id: None },
        Some(v) => match &v {
            JsonValue::Object(m) => {
                let session_id = extract_session_id(&v);
                let text = extract_event_text(m);
                StreamEvent { text, session_id }
            },
            _ => StreamEvent::default(),
        },
    }
}

/// Parse a single line of stream-json output from the engine.
///
/// Returns extracted text content and optional session ID.
pub fn parse_stream_line(line: &str) -> (e: StreamEvent)
    ensures
        (e.text@, opt_view(e.session_id)) == stream_line_event(line@),
{
    let v = chars_of(line);
    let (a, b) = trim_bounds(&v, 0, v.len());
    assert(v@.subrange(0, v@.len() as int) =~= line@);
    if a == b {
        return StreamEvent::default();
    }
    let trimmed = string_of(&v, a, b);
    let parsed = parse_json(trimmed.as_str());
    event_from_json(line, parsed)
}

} // verus!
