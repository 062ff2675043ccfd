//! The persistent reply keyboard and the command menu. Each keyboard button
//! sends its label as a plain message, which is mapped back to a command.

use vstd::prelude::*;
use crate::telecode::commands::{command_parts, route_of, CommandRoute};
use crate::text::{
    ascii_lowercase, before_char, chars_of, first_ws, is_ascii, is_ws, str_eq, string_of,
    strip_leading, trim, trim_bounds, trim_end, trim_start,
};

verus! {

/// The command a keyboard button label stands for.
pub open spec fn button_command(label: Seq<char>) -> Option<Seq<char>> {
    if label == "\u{1f195} New"@ {
        Some("/new"@)
    } else if label == "\u{23f9} Cancel"@ {
        Some("/cancel"@)
    } else if label == "\u{1f4e6} Compact"@ {
        Some("/compact"@)
    } else if label == "\u{1f4ca} Status"@ {
        Some("/status"@)
    } else if label == "\u{1f4b0} Context"@ {
        Some("/context"@)
    } else if label == "\u{1f504} Resume"@ {
        Some("/resume"@)
    } else if label == "\u{1f512} Safe"@ {
        Some("/mode safe"@)
    } else if label == "\u{1f513} Full"@ {
        Some("/mode full"@)
    } else if label == "\u{2753} Help"@ {
        Some("/help"@)
    } else {
        None
    }
}

/// The button labels of the persistent keyboard, row by row.
pub open spec fn keyboard_rows() -> Seq<Seq<Seq<char>>> {
    seq![
        seq!["\u{1f195} New"@, "\u{23f9} Cancel"@, "\u{1f4e6} Compact"@],
        seq!["\u{1f4ca} Status"@, "\u{1f4b0} Context"@, "\u{1f504} Resume"@],
        seq!["\u{1f512} Safe"@, "\u{1f513} Full"@, "\u{2753} Help"@],
    ]
}

/// The labels of the persistent reply keyboard shown at the bottom of the
/// chat, row by row.
pub fn persistent_keyboard() -> (rows: Vec<Vec<&'static str>>)
    ensures
        rows@.len() == keyboard_rows().len(),
        forall|i: int|
            0 <= i < rows@.len() ==> (#[trigger] rows@[i])@.map_values(|l: &'static str| l@)
                == keyboard_rows()[i],
{
    let r0: Vec<&'static str> = vec!["\u{1f195} New", "\u{23f9} Cancel", "\u{1f4e6} Compact"];
    let r1: Vec<&'static str> = vec!["\u{1f4ca} Status", "\u{1f4b0} Context", "\u{1f504} Resume"];
    let r2: Vec<&'static str> = vec!["\u{1f512} Safe", "\u{1f513} Full", "\u{2753} Help"];
    assert(r0@.map_values(|l: &'static str| l@) =~= keyboard_rows()[0]);
    assert(r1@.map_values(|l: &'static str| l@) =~= keyboard_rows()[1]);
    assert(r2@.map_values(|l: &'static str| l@) =~= keyboard_rows()[2]);
    vec![r0, r1, r2]
}

/// The commands registered with Telegram's command menu (the "/" button):
/// `(command, description)` pairs.
pub open spec fn menu_entries() -> Seq<(Seq<char>, Seq<char>)> {
    seq![
        ("new"@, "Fresh session"@),
        ("resume"@, "Resume previous session"@),
        ("compact"@, "Compress memory"@),
        ("cancel"@, "Kill running process"@),
        ("restart"@, "Full reset"@),
        ("bash"@, "Run shell command"@),
        ("cd"@, "Change working directory"@),
        ("context"@, "Token usage and cost"@),
        ("status"@, "Thread state"@),
        ("mode"@, "Toggle tool permissions"@),
        ("mcp"@, "MCP servers"@),
        ("skills"@, "Available skills"@),
        ("tasks"@, "Recent runs"@),
        ("help"@, "List all commands"@),
    ]
}

/// Bot commands registered with Telegram's command menu.
pub fn bot_commands() -> (m: Vec<(&'static str, &'static str)>)
    ensures
        m@.map_values(|e: (&'static str, &'static str)| (e.0@, e.1@)) == menu_entries(),
{
    let m: Vec<(&'static str, &'static str)> = vec![
        ("new", "Fresh session"),
        ("resume", "Resume previous session"),
        ("compact", "Compress memory"),
        ("cancel", "Kill running process"),
        ("restart", "Full reset"),
        ("bash", "Run shell command"),
        ("cd", "Change working directory"),
        ("context", "Token usage and cost"),
        ("status", "Thread state"),
        ("mode", "Toggle tool permissions"),
        ("mcp", "MCP servers"),
        ("skills", "Available skills"),
        ("tasks", "Recent runs"),
        ("help", "List all commands"),
    ];
    assert(m@.map_values(|e: (&'static str, &'static str)| (e.0@, e.1@)) =~= menu_entries());
    m
}

/// Match a persistent keyboard button press to its equivalent slash command.
/// Returns None if the (trimmed) text doesn't match any button.
pub fn match_keyboard_button(text: &str) -> (r: Option<&'static str>)
    ensures
        match r {
            Some(c) => button_command(trim(text@)) == Some(c@),
            None => button_command(trim(text@)) is None,
        },
{
    let v = chars_of(text);
    let (a, b) = trim_bounds(&v, 0, v.len());
    assert(v@.subrange(0, v@.len() as int) =~= text@);
    let t = string_of(&v, a, b);
    let t = t.as_str();
    if str_eq(t, "\u{1f195} New") {
        Some("/new")
    } else if str_eq(t, "\u{23f9} Cancel") {
        Some("/cancel")
    } else if str_eq(t, "\u{1f4e6} Compact") {
        Some("/compact")
    } else if str_eq(t, "\u{1f4ca} Status") {
        Some("/status")
    } else if str_eq(t, "\u{1f4b0} Context") {
        Some("/context")
    } else if str_eq(t, "\u{1f504} Resume") {
        Some("/resume")
    } else if str_eq(t, "\u{1f512} Safe") {
        Some("/mode safe")
    } else if str_eq(t, "\u{1f513} Full") {
        Some("/mode full")
    } else if str_eq(t, "\u{2753} Help") {
        Some("/help")
    } else {
        None
    }
}


/// Every command of the command menu has a handler.
pub proof fn law_menu_commands_route()
    ensures
        forall|i: int|
            0 <= i < menu_entries().len() ==> route_of(#[trigger] menu_entries()[i].0)
                != CommandRoute::Unknown,
{
}


/// A command word: lowercase ASCII letters and `_`.
pub open spec fn is_word(w: Seq<char>) -> bool {
    forall|i: int| 0 <= i < w.len() ==> ('a' <= #[trigger] w[i] <= 'z' || w[i] == '_')
}

/// The text of a command: `/`, the word, and ` ` and the argument when
/// there is one.
pub open spec fn command_text(w: Seq<char>, arg: Seq<char>) -> Seq<char> {
    seq!['/'] + w + if arg.len() > 0 {
        seq![' '] + arg
    } else {
        Seq::empty()
    }
}

proof fn lemma_word(w: Seq<char>, r: Seq<char>)
    requires
        is_word(w),
    ensures
        is_ascii(w),
        ascii_lowercase(w) == w,
        first_ws(w + r) == if first_ws(r) < 0 {
            -1
        } else {
            w.len() + first_ws(r)
        },
        before_char(w, '@') == w,
    decreases w.len(),
{
    assert(ascii_lowercase(w) =~= w);
    if w.len() > 0 {
        assert(is_word(w.drop_first()));
        lemma_word(w.drop_first(), r);
        assert((w + r).drop_first() =~= w.drop_first() + r);
        assert((w + r)[0] == w[0]);
        assert(!is_ws(w[0]));
        assert(w =~= seq![w[0]] + w.drop_first());
    }
}

proof fn lemma_command_text(w: Seq<char>, arg: Seq<char>)
    requires
        is_word(w),
        w.len() > 0,
        arg.len() > 0 ==> !is_ws(arg.last()),
    ensures
        trim(command_text(w, arg)) == command_text(w, arg),
        command_text(w, arg)[0] == '/',
        command_parts(command_text(w, arg)).0 == w,
        is_ascii(w),
        ascii_lowercase(w) == w,
{
    let c = command_text(w, arg);
    let rest = if arg.len() > 0 {
        seq![' '] + arg
    } else {
        Seq::<char>::empty()
    };
    assert(c[0] == '/');
    assert(!is_ws('/'));
    assert(trim_start(c) == c);
    assert(!is_ws(c.last())) by {
        if arg.len() > 0 {
            assert(c.last() == arg.last());
        } else {
            assert(c.last() == w.last());
        }
    }
    assert(trim_end(c) == c);
    lemma_word(w, rest);
    assert(c.drop_first() =~= w + rest);
    if arg.len() > 0 {
        assert(first_ws(rest) == 0);
        assert(c.take(first_ws(c)) =~= seq!['/'] + w);
    } else {
        assert(first_ws(rest) == -1);
    }
    let word = if first_ws(c) >= 0 {
        c.take(first_ws(c))
    } else {
        c
    };
    assert(word =~= seq!['/'] + w);
    assert(word.drop_first() =~= w);
    assert(strip_leading(word, '/') == strip_leading(w, '/'));
    assert(strip_leading(w, '/') == w);
}

/// Every keyboard button stands for a command that parses: its text starts
/// with `/`, and its name is a lowercase ASCII word (so `parse_command`
/// gives it back unchanged) that the command menu lists and a handler takes.
pub proof fn law_buttons_parse_to_menu_commands()
    ensures
        forall|i: int, j: int|
            #![trigger button_command(keyboard_rows()[i][j])]
            0 <= i < keyboard_rows().len() && 0 <= j < keyboard_rows()[i].len() ==> {
                let l = keyboard_rows()[i][j];
                let c = button_command(l)->Some_0;
                let raw = command_parts(trim(c)).0;
                &&& button_command(l) is Some
                &&& trim(c).len() > 0 && trim(c)[0] == '/'
                &&& raw.len() > 0 && is_ascii(raw) && ascii_lowercase(raw) == raw
                &&& exists|k: int| 0 <= k < menu_entries().len() && menu_entries()[k].0 == raw
                &&& route_of(raw) != CommandRoute::Unknown
            },
{
    reveal_strlit("/cancel");
    reveal_strlit("/compact");
    reveal_strlit("/context");
    reveal_strlit("/help");
    reveal_strlit("/mode full");
    reveal_strlit("/mode safe");
    reveal_strlit("/new");
    reveal_strlit("/resume");
    reveal_strlit("/status");
    reveal_strlit("\u{1f195} New");
    reveal_strlit("\u{1f4b0} Context");
    reveal_strlit("\u{1f4ca} Status");
    reveal_strlit("\u{1f4e6} Compact");
    reveal_strlit("\u{1f504} Resume");
    reveal_strlit("\u{1f512} Safe");
    reveal_strlit("\u{1f513} Full");
    reveal_strlit("\u{23f9} Cancel");
    reveal_strlit("\u{2753} Help");
    reveal_strlit("cancel");
    reveal_strlit("compact");
    reveal_strlit("context");
    reveal_strlit("full");
    reveal_strlit("help");
    reveal_strlit("mode");
    reveal_strlit("new");
    reveal_strlit("resume");
    reveal_strlit("safe");
    reveal_strlit("status");
    assert forall|i: int, j: int|
        #![trigger button_command(keyboard_rows()[i][j])]
        0 <= i < keyboard_rows().len() && 0 <= j < keyboard_rows()[i].len() implies {
        let l = keyboard_rows()[i][j];
        let c = button_command(l)->Some_0;
        let raw = command_parts(trim(c)).0;
        &&& button_command(l) is Some
        &&& trim(c).len() > 0 && trim(c)[0] == '/'
        &&& raw.len() > 0 && is_ascii(raw) && ascii_lowercase(raw) == raw
        &&& exists|k: int| 0 <= k < menu_entries().len() && menu_entries()[k].0 == raw
        &&& route_of(raw) != CommandRoute::Unknown
    } by {
        assert(keyboard_rows()[i].len() == 3);
        if i == 0 && j == 0 {
            assert(keyboard_rows()[i][j] == "\u{1f195} New"@);
            assert(button_command("\u{1f195} New"@) == Some("/new"@));
            assert("/new"@ =~= command_text("new"@, Seq::<char>::empty()));
            assert(is_word("new"@));
            lemma_command_text("new"@, Seq::<char>::empty());
            assert(command_parts(trim("/new"@)).0 == "new"@);
            assert(menu_entries()[0].0 == "new"@);
            assert(route_of("new"@) != CommandRoute::Unknown);
        }
        if i == 0 && j == 1 {
            assert(keyboard_rows()[i][j] == "\u{23f9} Cancel"@);
            assert("\u{23f9} Cancel"@[0] != "\u{1f195} New"@[0]);
            assert(button_command("\u{23f9} Cancel"@) == Some("/cancel"@));
            assert("/cancel"@ =~= command_text("cancel"@, Seq::<char>::empty()));
            assert(is_word("cancel"@));
            lemma_command_text("cancel"@, Seq::<char>::empty());
            assert(command_parts(trim("/cancel"@)).0 == "cancel"@);
            assert(menu_entries()[3].0 == "cancel"@);
            assert(route_of("cancel"@) != CommandRoute::Unknown);
        }
        if i == 0 && j == 2 {
            assert(keyboard_rows()[i][j] == "\u{1f4e6} Compact"@);
            assert("\u{1f4e6} Compact"@[0] != "\u{1f195} New"@[0]);
            assert("\u{1f4e6} Compact"@[0] != "\u{23f9} Cancel"@[0]);
            assert(button_command("\u{1f4e6} Compact"@) == Some("/compact"@));
            assert("/compact"@ =~= command_text("compact"@, Seq::<char>::empty()));
            assert(is_word("compact"@));
            lemma_command_text("compact"@, Seq::<char>::empty());
            assert(command_parts(trim("/compact"@)).0 == "compact"@);
            assert(menu_entries()[2].0 == "compact"@);
            assert(route_of("compact"@) != CommandRoute::Unknown);
        }
        if i == 1 && j == 0 {
            assert(keyboard_rows()[i][j] == "\u{1f4ca} Status"@);
            assert("\u{1f4ca} Status"@[0] != "\u{1f195} New"@[0]);
            assert("\u{1f4ca} Status"@[0] != "\u{23f9} Cancel"@[0]);
            assert("\u{1f4ca} Status"@[0] != "\u{1f4e6} Compact"@[0]);
            assert(button_command("\u{1f4ca} Status"@) == Some("/status"@));
            assert("/status"@ =~= command_text("status"@, Seq::<char>::empty()));
            assert(is_word("status"@));
            lemma_command_text("status"@, Seq::<char>::empty());
            assert(command_parts(trim("/status"@)).0 == "status"@);
            assert(menu_entries()[8].0 == "status"@);
            assert(route_of("status"@) != CommandRoute::Unknown);
        }
        if i == 1 && j == 1 {
            assert(keyboard_rows()[i][j] == "\u{1f4b0} Context"@);
            assert("\u{1f4b0} Context"@[0] != "\u{1f195} New"@[0]);
            assert("\u{1f4b0} Context"@[0] != "\u{23f9} Cancel"@[0]);
            assert("\u{1f4b0} Context"@[0] != "\u{1f4e6} Compact"@[0]);
            assert("\u{1f4b0} Context"@[0] != "\u{1f4ca} Status"@[0]);
            assert(button_command("\u{1f4b0} Context"@) == Some("/context"@));
            assert("/context"@ =~= command_text("context"@, Seq::<char>::empty()));
            assert(is_word("context"@));
            lemma_command_text("context"@, Seq::<char>::empty());
            assert(command_parts(trim("/context"@)).0 == "context"@);
            assert(menu_entries()[7].0 == "context"@);
            assert(route_of("context"@) != CommandRoute::Unknown);
        }
        if i == 1 && j == 2 {
            assert(keyboard_rows()[i][j] == "\u{1f504} Resume"@);
            assert("\u{1f504} Resume"@[0] != "\u{1f195} New"@[0]);
            assert("\u{1f504} Resume"@[0] != "\u{23f9} Cancel"@[0]);
            assert("\u{1f504} Resume"@[0] != "\u{1f4e6} Compact"@[0]);
            assert("\u{1f504} Resume"@[0] != "\u{1f4ca} Status"@[0]);
            assert("\u{1f504} Resume"@[0] != "\u{1f4b0} Context"@[0]);
            assert(button_command("\u{1f504} Resume"@) == Some("/resume"@));
            assert("/resume"@ =~= command_text("resume"@, Seq::<char>::empty()));
            assert(is_word("resume"@));
            lemma_command_text("resume"@, Seq::<char>::empty());
            assert(command_parts(trim("/resume"@)).0 == "resume"@);
            assert(menu_entries()[1].0 == "resume"@);
            assert(route_of("resume"@) != CommandRoute::Unknown);
        }
        if i == 2 && j == 0 {
            assert(keyboard_rows()[i][j] == "\u{1f512} Safe"@);
            assert("\u{1f512} Safe"@[0] != "\u{1f195} New"@[0]);
            assert("\u{1f512} Safe"@[0] != "\u{23f9} Cancel"@[0]);
            assert("\u{1f512} Safe"@[0] != "\u{1f4e6} Compact"@[0]);
            assert("\u{1f512} Safe"@[0] != "\u{1f4ca} Status"@[0]);
            assert("\u{1f512} Safe"@[0] != "\u{1f4b0} Context"@[0]);
            assert("\u{1f512} Safe"@[0] != "\u{1f504} Resume"@[0]);
            assert(button_command("\u{1f512} Safe"@) == Some("/mode safe"@));
            assert("/mode safe"@ =~= command_text("mode"@, "safe"@));
            assert(is_word("mode"@));
            lemma_command_text("mode"@, "safe"@);
            assert(command_parts(trim("/mode safe"@)).0 == "mode"@);
            assert(menu_entries()[9].0 == "mode"@);
            assert(route_of("mode"@) != CommandRoute::Unknown);
        }
        if i == 2 && j == 1 {
            assert(keyboard_rows()[i][j] == "\u{1f513} Full"@);
            assert("\u{1f513} Full"@[0] != "\u{1f195} New"@[0]);
            assert("\u{1f513} Full"@[0] != "\u{23f9} Cancel"@[0]);
            assert("\u{1f513} Full"@[0] != "\u{1f4e6} Compact"@[0]);
            assert("\u{1f513} Full"@[0] != "\u{1f4ca} Status"@[0]);
            assert("\u{1f513} Full"@[0] != "\u{1f4b0} Context"@[0]);
            assert("\u{1f513} Full"@[0] != "\u{1f504} Resume"@[0]);
            assert("\u{1f513} Full"@[0] != "\u{1f512} Safe"@[0]);
            assert(button_command("\u{1f513} Full"@) == Some("/mode full"@));
            assert("/mode full"@ =~= command_text("mode"@, "full"@));
            assert(is_word("mode"@));
            lemma_command_text("mode"@, "full"@);
            assert(command_parts(trim("/mode full"@)).0 == "mode"@);
            assert(menu_entries()[9].0 == "mode"@);
            assert(route_of("mode"@) != CommandRoute::Unknown);
        }
        if i == 2 && j == 2 {
            assert(keyboard_rows()[i][j] == "\u{2753} Help"@);
            assert("\u{2753} Help"@[0] != "\u{1f195} New"@[0]);
            assert("\u{2753} Help"@[0] != "\u{23f9} Cancel"@[0]);
            assert("\u{2753} Help"@[0] != "\u{1f4e6} Compact"@[0]);
            assert("\u{2753} Help"@[0] != "\u{1f4ca} Status"@[0]);
            assert("\u{2753} Help"@[0] != "\u{1f4b0} Context"@[0]);
            assert("\u{2753} Help"@[0] != "\u{1f504} Resume"@[0]);
            assert("\u{2753} Help"@[0] != "\u{1f512} Safe"@[0]);
            assert("\u{2753} Help"@[0] != "\u{1f513} Full"@[0]);
            assert(button_command("\u{2753} Help"@) == Some("/help"@));
            assert("/help"@ =~= command_text("help"@, Seq::<char>::empty()));
            assert(is_word("help"@));
            lemma_command_text("help"@, Seq::<char>::empty());
            assert(command_parts(trim("/help"@)).0 == "help"@);
            assert(menu_entries()[13].0 == "help"@);
            assert(route_of("help"@) != CommandRoute::Unknown);
        }
    }
}

} // verus!
