//! What the markdown renderer's output can hold: every `<`, `>` and `"` in
//! it lies inside one of the tags the renderer writes, so text from the
//! model can never open, close or break out of an element.

use vstd::prelude::*;
use crate::nitro::format::{
    close_markup, indent, open_markup, render_events, render_step, rendered_html,
    telegram_html, MdEvent, MdTag, RenderState,
};
use crate::text::{
    html_escaped, is_ws, law_escaped_has_no_markup, leading_ws, lemma_trim_end_take,
    lemma_trim_start_skip, occurs_at, trailing_ws, trim_end, trim_start,
};

verus! {

/// The tags the renderer writes, numbered from 0; `<a href="` and `">`
/// bracket a link's escaped destination.
pub open spec fn tag_text(k: int) -> Seq<char> {
    if k == 0 {
        "<b>"@
    } else if k == 1 {
        "</b>"@
    } else if k == 2 {
        "<i>"@
    } else if k == 3 {
        "</i>"@
    } else if k == 4 {
        "<s>"@
    } else if k == 5 {
        "</s>"@
    } else if k == 6 {
        "<pre>"@
    } else if k == 7 {
        "</pre>"@
    } else if k == 8 {
        "<code>"@
    } else if k == 9 {
        "</code>"@
    } else if k == 10 {
        "<blockquote>"@
    } else if k == 11 {
        "</blockquote>"@
    } else if k == 12 {
        "<a href=\""@
    } else if k == 13 {
        "\">"@
    } else {
        "</a>"@
    }
}

/// Whether `k` numbers one of the tags.
pub open spec fn is_tag_index(k: int) -> bool {
    0 <= k <= 14
}

/// The characters that HTML reads as markup.
pub open spec fn is_markup_char(c: char) -> bool {
    c == '<' || c == '>' || c == '"'
}

/// Position `i` of `s` lies inside an occurrence of one of the tags.
pub open spec fn in_tag(s: Seq<char>, i: int) -> bool {
    exists|k: int, p: int|
        #![trigger occurs_at(s, tag_text(k), p)]
        is_tag_index(k) && p <= i < p + tag_text(k).len() && occurs_at(s, tag_text(k), p)
}

/// Every `<`, `>` and `"` of `s` lies inside one of the tags.
pub open spec fn markup_safe(s: Seq<char>) -> bool {
    forall|i: int| 0 <= i < s.len() && is_markup_char(#[trigger] s[i]) ==> in_tag(s, i)
}

proof fn lemma_plain_safe(s: Seq<char>)
    requires
        forall|i: int| 0 <= i < s.len() ==> !is_markup_char(#[trigger] s[i]),
    ensures
        markup_safe(s),
{
}

proof fn lemma_tag_safe(k: int)
    requires
        is_tag_index(k),
    ensures
        markup_safe(tag_text(k)),
{
    let t = tag_text(k);
    assert(t.subrange(0, t.len() as int) =~= t);
    assert forall|i: int| 0 <= i < t.len() && is_markup_char(#[trigger] t[i]) implies in_tag(
        t,
        i,
    ) by {
        assert(occurs_at(t, tag_text(k), 0));
    }
}

proof fn lemma_escaped_safe(s: Seq<char>)
    ensures
        markup_safe(html_escaped(s)),
{
    law_escaped_has_no_markup(s);
    lemma_plain_safe(html_escaped(s));
}

/// Joining two safe texts gives a safe text.
pub proof fn lemma_concat_safe(a: Seq<char>, b: Seq<char>)
    requires
        markup_safe(a),
        markup_safe(b),
    ensures
        markup_safe(a + b),
{
    let s = a + b;
    assert forall|i: int| 0 <= i < s.len() && is_markup_char(#[trigger] s[i]) implies in_tag(
        s,
        i,
    ) by {
        if i < a.len() {
            assert(s[i] == a[i]);
            assert(in_tag(a, i));
            let (k, p): (int, int) = choose|k: int, p: int|
                #![trigger occurs_at(a, tag_text(k), p)]
                is_tag_index(k) && p <= i < p + tag_text(k).len() && occurs_at(a, tag_text(k), p);
            let n = tag_text(k).len() as int;
            assert(s.subrange(p, p + n) =~= a.subrange(p, p + n));
            assert(occurs_at(s, tag_text(k), p));
        } else {
            let j = i - a.len();
            assert(s[i] == b[j]);
            assert(in_tag(b, j));
            let (k, p): (int, int) = choose|k: int, p: int|
                #![trigger occurs_at(b, tag_text(k), p)]
                is_tag_index(k) && p <= j < p + tag_text(k).len() && occurs_at(b, tag_text(k), p);
            let n = tag_text(k).len() as int;
            assert(s.subrange(p + a.len(), p + a.len() + n) =~= b.subrange(p, p + n));
            assert(occurs_at(s, tag_text(k), p + a.len()));
        }
    }
}

/// Every tag starts and ends with a character that is not whitespace.
proof fn lemma_tag_ends(k: int)
    requires
        is_tag_index(k),
    ensures
        tag_text(k).len() > 0,
        !is_ws(tag_text(k)[0]),
        !is_ws(tag_text(k).last()),
{
    reveal_strlit("<b>");
    reveal_strlit("</b>");
    reveal_strlit("<i>");
    reveal_strlit("</i>");
    reveal_strlit("<s>");
    reveal_strlit("</s>");
    reveal_strlit("<pre>");
    reveal_strlit("</pre>");
    reveal_strlit("<code>");
    reveal_strlit("</code>");
    reveal_strlit("<blockquote>");
    reveal_strlit("</blockquote>");
    reveal_strlit("<a href=\"");
    reveal_strlit("\">");
    reveal_strlit("</a>");
}

proof fn lemma_trim_start_safe(s: Seq<char>)
    requires
        markup_safe(s),
    ensures
        markup_safe(trim_start(s)),
{
    lemma_trim_start_skip(s);
    let l = leading_ws(s) as int;
    let r = trim_start(s);
    assert forall|i: int| 0 <= i < r.len() && is_markup_char(#[trigger] r[i]) implies in_tag(
        r,
        i,
    ) by {
        assert(r[i] == s[i + l]);
        assert(in_tag(s, i + l));
        let (k, p): (int, int) = choose|k: int, p: int|
            #![trigger occurs_at(s, tag_text(k), p)]
            is_tag_index(k) && p <= i + l < p + tag_text(k).len() && occurs_at(
                s,
                tag_text(k),
                p,
            );
        let n = tag_text(k).len() as int;
        lemma_tag_ends(k);
        assert(s.subrange(p, p + n)[0] == s[p]);
        if p < l {
            assert(is_ws(s[p]));
        }
        assert(r.subrange(p - l, p - l + n) =~= s.subrange(p, p + n));
        assert(occurs_at(r, tag_text(k), p - l));
    }
}

proof fn lemma_trim_end_safe(s: Seq<char>)
    requires
        markup_safe(s),
    ensures
        markup_safe(trim_end(s)),
{
    lemma_trim_end_take(s);
    let e = s.len() - trailing_ws(s);
    let r = trim_end(s);
    assert forall|i: int| 0 <= i < r.len() && is_markup_char(#[trigger] r[i]) implies in_tag(
        r,
        i,
    ) by {
        assert(r[i] == s[i]);
        assert(in_tag(s, i));
        let (k, p): (int, int) = choose|k: int, p: int|
            #![trigger occurs_at(s, tag_text(k), p)]
            is_tag_index(k) && p <= i < p + tag_text(k).len() && occurs_at(s, tag_text(k), p);
        let n = tag_text(k).len() as int;
        lemma_tag_ends(k);
        assert(s.subrange(p, p + n)[n - 1] == s[p + n - 1]);
        if p + n > e {
            assert(is_ws(s[p + n - 1]));
        }
        assert(r.subrange(p, p + n) =~= s.subrange(p, p + n));
        assert(occurs_at(r, tag_text(k), p));
    }
}

proof fn lemma_indent_plain(n: nat)
    ensures
        markup_safe(indent(n)),
    decreases n,
{
    reveal_strlit("  ");
    if n > 0 {
        lemma_indent_plain((n - 1) as nat);
        lemma_plain_safe("  "@);
        lemma_concat_safe(indent((n - 1) as nat), "  "@);
    }
}

proof fn lemma_open_safe(t: MdTag)
    ensures
        markup_safe(open_markup(t)),
{
    match t {
        MdTag::Heading | MdTag::Strong => lemma_tag_safe(0),
        MdTag::Emphasis => lemma_tag_safe(2),
        MdTag::Strikethrough => lemma_tag_safe(4),
        MdTag::CodeBlock => lemma_tag_safe(6),
        MdTag::BlockQuote => lemma_tag_safe(10),
        _ => lemma_plain_safe(Seq::<char>::empty()),
    }
}

proof fn lemma_close_safe(t: MdTag)
    ensures
        markup_safe(close_markup(t)),
{
    reveal_strlit("\n\n");
    reveal_strlit("\n");
    reveal_strlit("</b>\n");
    reveal_strlit("</b>");
    match t {
        MdTag::Paragraph => lemma_plain_safe("\n\n"@),
        MdTag::Heading => {
            lemma_tag_safe(1);
            lemma_plain_safe("\n"@);
            assert("</b>\n"@ =~= "</b>"@ + "\n"@);
            lemma_concat_safe("</b>"@, "\n"@);
        },
        MdTag::Strong => lemma_tag_safe(1),
        MdTag::Emphasis => lemma_tag_safe(3),
        MdTag::Strikethrough => lemma_tag_safe(5),
        MdTag::CodeBlock => lemma_tag_safe(7),
        MdTag::Link => lemma_tag_safe(14),
        MdTag::BlockQuote => lemma_tag_safe(11),
        MdTag::Item => lemma_plain_safe("\n"@),
        _ => lemma_plain_safe(Seq::<char>::empty()),
    }
}

proof fn lemma_step_safe(st: RenderState, e: MdEvent)
    requires
        markup_safe(st.html),
    ensures
        markup_safe(render_step(st, e).html),
{
    match e {
        MdEvent::Start(MdTag::List) => {},
        MdEvent::Start(MdTag::Item) => {
            let d: nat = if st.depth > 0 { (st.depth - 1) as nat } else { 0 };
            reveal_strlit("\u{2022} ");
            lemma_indent_plain(d);
            lemma_plain_safe("\u{2022} "@);
            lemma_concat_safe(st.html, indent(d));
            lemma_concat_safe(st.html + indent(d), "\u{2022} "@);
        },
        MdEvent::Start(t) => {
            lemma_open_safe(t);
            lemma_concat_safe(st.html, open_markup(t));
        },
        MdEvent::StartLink(url) => {
            lemma_tag_safe(12);
            lemma_tag_safe(13);
            lemma_escaped_safe(url@);
            lemma_concat_safe(st.html, tag_text(12));
            lemma_concat_safe(st.html + tag_text(12), html_escaped(url@));
            lemma_concat_safe(st.html + tag_text(12) + html_escaped(url@), tag_text(13));
        },
        MdEvent::End(MdTag::List) => {},
        MdEvent::End(t) => {
            lemma_close_safe(t);
            lemma_concat_safe(st.html, close_markup(t));
        },
        MdEvent::Text(t) => {
            lemma_escaped_safe(t@);
            lemma_concat_safe(st.html, html_escaped(t@));
        },
        MdEvent::Code(c) => {
            lemma_tag_safe(8);
            lemma_tag_safe(9);
            lemma_escaped_safe(c@);
            lemma_concat_safe(st.html, tag_text(8));
            lemma_concat_safe(st.html + tag_text(8), html_escaped(c@));
            lemma_concat_safe(st.html + tag_text(8) + html_escaped(c@), tag_text(9));
        },
        MdEvent::Html(h) => {
            lemma_escaped_safe(h@);
            lemma_concat_safe(st.html, html_escaped(h@));
        },
        MdEvent::Break => {
            reveal_strlit("\n");
            lemma_plain_safe("\n"@);
            lemma_concat_safe(st.html, "\n"@);
        },
        MdEvent::Rule => {
            reveal_strlit("\n\u{2014}\u{2014}\u{2014}\n");
            lemma_plain_safe("\n\u{2014}\u{2014}\u{2014}\n"@);
            lemma_concat_safe(st.html, "\n\u{2014}\u{2014}\u{2014}\n"@);
        },
        MdEvent::Other => {},
    }
}

proof fn lemma_render_safe(es: Seq<MdEvent>)
    ensures
        markup_safe(render_events(es).html),
    decreases es.len(),
{
    if es.len() > 0 {
        lemma_render_safe(es.drop_last());
        lemma_step_safe(render_events(es.drop_last()), es.last());
    }
}

/// Whatever events the parser yields, every `<`, `>` and `"` in the
/// rendered HTML lies inside a tag the renderer wrote: text, code, raw HTML
/// and link destinations all arrive escaped.
pub proof fn law_rendered_html_markup_safe(t: Seq<char>, es: Seq<MdEvent>)
    ensures
        markup_safe(rendered_html(t, es)),
{
    let st = render_events(es);
    lemma_render_safe(es);
    lemma_trim_start_safe(st.html);
    lemma_trim_end_safe(trim_start(st.html));
    lemma_tag_safe(6);
    lemma_tag_safe(7);
    lemma_escaped_safe(t);
    lemma_concat_safe(tag_text(6), html_escaped(t));
    lemma_concat_safe(tag_text(6) + html_escaped(t), tag_text(7));
}

/// Whatever markdown comes in, the HTML sent to Telegram holds `<`, `>` and
/// `"` only inside the renderer's own tags.
pub proof fn law_telegram_html_markup_safe(md: Seq<char>)
    ensures
        markup_safe(telegram_html(md)),
{
    reveal_strlit("(no output)");
    lemma_plain_safe("(no output)"@);
    law_rendered_html_markup_safe(crate::text::trim(md), crate::nitro::format::markdown_events(
        crate::text::trim(md),
    ));
}

} // verus!
