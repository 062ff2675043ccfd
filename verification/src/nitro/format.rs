//! Telegram-facing text formatting: HTML escaping, markdown rendering and
//! splitting long messages under Telegram's size limit.

use vstd::prelude::*;
use pulldown_cmark::{Event, Options, Parser, Tag, TagEnd};
use crate::text::{
    byte_len, byte_len_of, chars_of, count_in, count_occurrences, find, find_in, html_escaped,
    lemma_find_bounds, lemma_prefix_for_bytes, lemma_rfind_bounds, lemma_trim_start_skip,
    leading_ws, prefix_for_bytes, prefix_for_bytes_in, push_escaped, rfind, rfind_in, skip_ws,
    push_str, string_of, trim, trim_bounds, trim_start,
};

verus! {

/// `<pre>`
pub open spec fn pre_open() -> Seq<char> {
    seq!['<', 'p', 'r', 'e', '>']
}

/// `</pre>`
pub open spec fn pre_close() -> Seq<char> {
    seq!['<', '/', 'p', 'r', 'e', '>']
}

/// `<code>`
pub open spec fn code_open() -> Seq<char> {
    seq!['<', 'c', 'o', 'd', 'e', '>']
}

/// `</code>`
pub open spec fn code_close() -> Seq<char> {
    seq!['<', '/', 'c', 'o', 'd', 'e', '>']
}

/// `\n\n`
pub open spec fn blank_line() -> Seq<char> {
    seq!['\n', '\n']
}

/// Where a too-long remainder is cut before any `<pre>` extension: at the
/// last `\n\n` within the first `max` bytes, else the last `\n` there, else
/// exactly at `max` bytes.
pub open spec fn split_point(rem: Seq<char>, max: nat) -> int {
    let k = prefix_for_bytes(rem, max);
    let area = rem.take(k);
    if rfind(area, blank_line()) >= 0 {
        rfind(area, blank_line())
    } else if rfind(area, seq!['\n']) >= 0 {
        rfind(area, seq!['\n'])
    } else {
        k
    }
}

/// Whether the text before a cut leaves an `open` tag unclosed and the text
/// after it holds a `close` tag to extend the cut to.
pub open spec fn extends_over(chunk: Seq<char>, rest: Seq<char>, open: Seq<char>, close: Seq<char>) -> bool {
    count_occurrences(chunk, open) > count_occurrences(chunk, close) && find(rest, close) >= 0
}

/// End of the chunk cut from `rem`: the split point, extended to just after
/// the next `</pre>` when the part before the split point opens more `<pre>`
/// blocks than it closes and such a `</pre>` exists; otherwise likewise to
/// just after the next `</code>` for an unclosed `<code>`.
pub open spec fn chunk_end(rem: Seq<char>, max: nat) -> int {
    let sp = split_point(rem, max);
    let chunk = rem.take(sp);
    let rest = rem.skip(sp);
    if extends_over(chunk, rest, pre_open(), pre_close()) {
        sp + find(rest, pre_close()) + 6
    } else if extends_over(chunk, rest, code_open(), code_close()) {
        sp + find(rest, code_close()) + 7
    } else {
        sp
    }
}

/// A remainder on which a cutting step is possible: its first `max` bytes end
/// on a character boundary.
pub open spec fn cuttable(rem: Seq<char>, max: nat) -> bool {
    max > 0 && byte_len(rem) > max && prefix_for_bytes(rem, max) >= 0
}

pub proof fn lemma_chunk_end(rem: Seq<char>, max: nat)
    requires
        cuttable(rem, max),
    ensures
        0 <= split_point(rem, max) <= chunk_end(rem, max) <= rem.len(),
        split_point(rem, max) <= prefix_for_bytes(rem, max),
        trim_start(rem.skip(chunk_end(rem, max))).len() < rem.len(),
{
    let k = prefix_for_bytes(rem, max);
    lemma_prefix_for_bytes(rem, max);
    let area = rem.take(k);
    lemma_rfind_bounds(area, blank_line());
    lemma_rfind_bounds(area, seq!['\n']);
    let sp = split_point(rem, max);
    lemma_find_bounds(rem.skip(sp), pre_close());
    lemma_find_bounds(rem.skip(sp), code_close());
    let e = chunk_end(rem, max);
    lemma_trim_start_skip(rem.skip(e));
    if e == 0 {
        // the cut is at a leading newline, which trimming removes
        if rfind(area, blank_line()) >= 0 {
            assert(area.subrange(0, 2)[0] == '\n');
        } else {
            assert(area.subrange(0, 1)[0] == '\n');
        }
        assert(rem[0] == area[0]);
        assert(rem.skip(0) =~= rem);
        assert(leading_ws(rem) >= 1);
    }
}

/// The chunks the splitting loop produces from a remainder `rem`.
pub open spec fn split_chunks(rem: Seq<char>, max: nat) -> Seq<Seq<char>>
    decreases rem.len(),
{
    if rem.len() == 0 {
        Seq::empty()
    } else if byte_len(rem) <= max {
        seq![rem]
    } else if !cuttable(rem, max) {
        Seq::empty()
    } else {
        let e = chunk_end(rem, max);
        proof {
            lemma_chunk_end(rem, max);
        }
        seq![rem.take(e)] + split_chunks(trim_start(rem.skip(e)), max)
    }
}

/// Whether every cutting step on `rem` is possible (the loop never slices a
/// string in the middle of a character).
pub open spec fn splittable(rem: Seq<char>, max: nat) -> bool
    decreases rem.len(),
{
    if rem.len() == 0 || byte_len(rem) <= max {
        true
    } else if !cuttable(rem, max) {
        false
    } else {
        let e = chunk_end(rem, max);
        proof {
            lemma_chunk_end(rem, max);
        }
        splittable(trim_start(rem.skip(e)), max)
    }
}

/// The inputs on which `split_for_telegram` returns (rather than slicing
/// inside a character, or looping forever when `max` is 0).
pub open spec fn telegram_splittable(text: Seq<char>, max: nat) -> bool {
    ||| byte_len(text) <= max
    ||| max == 0 && trim_start(text).len() == 0
    ||| max > 0 && splittable(text, max)
}

/// The pieces `split_for_telegram` returns for `text`.
pub open spec fn telegram_chunks(text: Seq<char>, max: nat) -> Seq<Seq<char>> {
    if byte_len(text) <= max {
        seq![text]
    } else if max == 0 {
        seq![Seq::empty()]
    } else {
        split_chunks(text, max)
    }
}

/// Whether `s` ends with `suffix`.
pub open spec fn ends_with(s: Seq<char>, suffix: Seq<char>) -> bool {
    s.len() >= suffix.len() && s.skip(s.len() - suffix.len()) == suffix
}

proof fn lemma_split_chunks_fit(rem: Seq<char>, max: nat)
    ensures
        forall|i: int|
            0 <= i < split_chunks(rem, max).len() ==> byte_len(#[trigger] split_chunks(rem, max)[i])
                <= max || ends_with(split_chunks(rem, max)[i], pre_close()) || ends_with(
                split_chunks(rem, max)[i],
                code_close(),
            ),
    decreases rem.len(),
{
    if rem.len() == 0 || byte_len(rem) <= max || !cuttable(rem, max) {
    } else {
        lemma_chunk_end(rem, max);
        let e = chunk_end(rem, max);
        let sp = split_point(rem, max);
        let k = prefix_for_bytes(rem, max);
        let next = trim_start(rem.skip(e));
        lemma_split_chunks_fit(next, max);
        let first = rem.take(e);
        if e == sp {
            lemma_prefix_for_bytes(rem, max);
            crate::text::lemma_byte_len_split(rem.take(k), sp);
            assert(rem.take(k).take(sp) =~= first);
        } else {
            let rest = rem.skip(sp);
            if extends_over(rem.take(sp), rest, pre_open(), pre_close()) {
                let f = find(rest, pre_close());
                lemma_find_bounds(rest, pre_close());
                assert(first.skip(first.len() - 6) =~= rest.subrange(f, f + 6));
            } else {
                let f = find(rest, code_close());
                lemma_find_bounds(rest, code_close());
                assert(first.skip(first.len() - 7) =~= rest.subrange(f, f + 7));
            }
        }
        let all = split_chunks(rem, max);
        assert(all == seq![first] + split_chunks(next, max));
        assert forall|i: int| 0 <= i < all.len() implies byte_len(#[trigger] all[i]) <= max
            || ends_with(all[i], pre_close()) || ends_with(all[i], code_close()) by {
            if i > 0 {
                assert(all[i] == split_chunks(next, max)[i - 1]);
            }
        }
    }
}

/// Each piece `split_for_telegram` returns fits in `max` bytes, except a
/// piece that was extended to keep a `<pre>` or `<code>` element whole,
/// which then ends with `</pre>` or `</code>`.
pub proof fn law_chunks_fit(text: Seq<char>, max: nat)
    ensures
        forall|i: int|
            0 <= i < telegram_chunks(text, max).len() ==> byte_len(
                #[trigger] telegram_chunks(text, max)[i],
            ) <= max || ends_with(telegram_chunks(text, max)[i], pre_close()) || ends_with(
                telegram_chunks(text, max)[i],
                code_close(),
            ),
{
    if byte_len(text) <= max {
        assert(telegram_chunks(text, max) =~= seq![text]);
    } else if max == 0 {
        assert(byte_len(Seq::<char>::empty()) == 0);
        assert(telegram_chunks(text, max) =~= seq![Seq::<char>::empty()]);
    } else {
        lemma_split_chunks_fit(text, max);
    }
}

proof fn lemma_long_chunks_unclosed(rem: Seq<char>, max: nat)
    ensures
        forall|i: int|
            0 <= i < split_chunks(rem, max).len() && byte_len(#[trigger] split_chunks(rem, max)[i])
                > max ==> exists|k: int|
                0 <= k <= split_chunks(rem, max)[i].len() && byte_len(
                    split_chunks(rem, max)[i].take(k),
                ) <= max && (count_occurrences(split_chunks(rem, max)[i].take(k), pre_open())
                    > count_occurrences(split_chunks(rem, max)[i].take(k), pre_close())
                    || count_occurrences(split_chunks(rem, max)[i].take(k), code_open())
                    > count_occurrences(split_chunks(rem, max)[i].take(k), code_close())),
    decreases rem.len(),
{
    if rem.len() == 0 || byte_len(rem) <= max || !cuttable(rem, max) {
    } else {
        lemma_chunk_end(rem, max);
        let e = chunk_end(rem, max);
        let sp = split_point(rem, max);
        let k = prefix_for_bytes(rem, max);
        let next = trim_start(rem.skip(e));
        lemma_long_chunks_unclosed(next, max);
        let first = rem.take(e);
        lemma_prefix_for_bytes(rem, max);
        crate::text::lemma_byte_len_split(rem.take(k), sp);
        assert(rem.take(k).take(sp) =~= rem.take(sp));
        assert(first.take(sp) =~= rem.take(sp));
        if e == sp {
            assert(first =~= rem.take(sp));
        }
        let all = split_chunks(rem, max);
        assert(all == seq![first] + split_chunks(next, max));
        assert forall|i: int|
            0 <= i < all.len() && byte_len(#[trigger] all[i]) > max implies exists|j: int|
            0 <= j <= all[i].len() && byte_len(all[i].take(j)) <= max && (count_occurrences(
                all[i].take(j),
                pre_open(),
            ) > count_occurrences(all[i].take(j), pre_close()) || count_occurrences(
                all[i].take(j),
                code_open(),
            ) > count_occurrences(all[i].take(j), code_close())) by {
            if i > 0 {
                assert(all[i] == split_chunks(next, max)[i - 1]);
            } else {
                assert(all[0] == first);
                assert(first.take(sp) == rem.take(sp));
            }
        }
    }
}

/// A piece `split_for_telegram` returns is longer than `max` bytes only when
/// the cut was moved to keep an element whole: the piece then has a start,
/// within `max` bytes, that opens more `<pre>` (or `<code>`) tags than it
/// closes. Where nothing is left open before the cut, the piece fits.
pub proof fn law_long_chunks_keep_elements_whole(text: Seq<char>, max: nat)
    ensures
        forall|i: int|
            0 <= i < telegram_chunks(text, max).len() && byte_len(
                #[trigger] telegram_chunks(text, max)[i],
            ) > max ==> exists|k: int|
                0 <= k <= telegram_chunks(text, max)[i].len() && byte_len(
                    telegram_chunks(text, max)[i].take(k),
                ) <= max && (count_occurrences(telegram_chunks(text, max)[i].take(k), pre_open())
                    > count_occurrences(telegram_chunks(text, max)[i].take(k), pre_close())
                    || count_occurrences(telegram_chunks(text, max)[i].take(k), code_open())
                    > count_occurrences(telegram_chunks(text, max)[i].take(k), code_close())),
{
    if byte_len(text) <= max {
        assert(telegram_chunks(text, max) =~= seq![text]);
    } else if max == 0 {
        assert(byte_len(Seq::<char>::empty()) == 0);
        assert(telegram_chunks(text, max) =~= seq![Seq::<char>::empty()]);
    } else {
        lemma_long_chunks_unclosed(text, max);
    }
}

/// `s` is the pieces in order, with only whitespace between them (and
/// after the last): each piece starts where the whitespace after the
/// previous one ends.
pub open spec fn made_of(s: Seq<char>, pieces: Seq<Seq<char>>) -> bool
    decreases pieces.len(),
{
    if pieces.len() == 0 {
        trim_start(s).len() == 0
    } else {
        &&& pieces[0].len() <= s.len()
        &&& s.take(pieces[0].len() as int) == pieces[0]
        &&& made_of(trim_start(s.skip(pieces[0].len() as int)), pieces.drop_first())
    }
}

proof fn lemma_split_chunks_made_of(rem: Seq<char>, max: nat)
    requires
        splittable(rem, max),
    ensures
        made_of(rem, split_chunks(rem, max)),
    decreases rem.len(),
{
    if rem.len() == 0 {
    } else if byte_len(rem) <= max {
        let c = split_chunks(rem, max);
        assert(c == seq![rem]);
        assert(rem.take(rem.len() as int) =~= rem);
        assert(rem.skip(rem.len() as int) =~= Seq::<char>::empty());
        assert(c.drop_first() =~= Seq::<Seq<char>>::empty());
        reveal_with_fuel(made_of, 2);
    } else {
        lemma_chunk_end(rem, max);
        let e = chunk_end(rem, max);
        let next = trim_start(rem.skip(e));
        lemma_split_chunks_made_of(next, max);
        let c = split_chunks(rem, max);
        assert(c == seq![rem.take(e)] + split_chunks(next, max));
        assert(c.drop_first() =~= split_chunks(next, max));
        assert(c[0] == rem.take(e));
        assert(rem.take(e).len() == e);
        assert(trim_start(rem.skip(c[0].len() as int)) == next);
    }
}

/// Splitting loses nothing but whitespace: the pieces `split_for_telegram`
/// returns, in order and with only whitespace between them, make up the
/// text (for every text on which it returns).
pub proof fn law_chunks_make_up_text(text: Seq<char>, max: nat)
    requires
        telegram_splittable(text, max),
    ensures
        made_of(text, telegram_chunks(text, max)),
{
    if byte_len(text) <= max {
        let c = telegram_chunks(text, max);
        assert(c == seq![text]);
        assert(text.take(text.len() as int) =~= text);
        assert(text.skip(text.len() as int) =~= Seq::<char>::empty());
        assert(c.drop_first() =~= Seq::<Seq<char>>::empty());
        reveal_with_fuel(made_of, 2);
    } else if max == 0 {
        let c = telegram_chunks(text, max);
        assert(c == seq![Seq::<char>::empty()]);
        assert(text.take(0) =~= Seq::<char>::empty());
        assert(text.skip(0) =~= text);
        assert(c.drop_first() =~= Seq::<Seq<char>>::empty());
        reveal_with_fuel(made_of, 2);
    } else {
        lemma_split_chunks_made_of(text, max);
    }
}

/// Split text for Telegram's 4096-char limit.
///
/// Splits at `\n\n`, then `\n`, then force-splits. Avoids splitting inside
/// `<pre>` or `<code>` tags when possible. Lengths are UTF-8 byte lengths.
pub fn split_for_telegram(text: &str, max_len: usize) -> (chunks: Vec<String>)
    requires
        byte_len(text@) <= usize::MAX,
        telegram_splittable(text@, max_len as nat),
    ensures
        chunks@.map_values(|c: String| c@) == telegram_chunks(text@, max_len as nat),
{
    let v = chars_of(text);
    let total = byte_len_of(&v, 0, v.len());
    assert(v@.subrange(0, v@.len() as int) =~= v@);
    if total <= max_len {
        let mut one: Vec<String> = Vec::new();
        one.push(text.to_string());
        assert(one@.map_values(|c: String| c@) =~= seq![text@]);
        return one;
    }
    let ghost max = max_len as nat;
    let mut chunks: Vec<String> = Vec::new();
    if max_len == 0 {
        // every remaining character is whitespace: one empty chunk, then trimmed away
        chunks.push(String::new());
        assert(chunks@.map_values(|c: String| c@) =~= seq![Seq::<char>::empty()]);
        return chunks;
    }
    let mut pre_o: Vec<char> = Vec::new();
    pre_o.push('<');
    pre_o.push('p');
    pre_o.push('r');
    pre_o.push('e');
    pre_o.push('>');
    let mut pre_c: Vec<char> = Vec::new();
    pre_c.push('<');
    pre_c.push('/');
    pre_c.push('p');
    pre_c.push('r');
    pre_c.push('e');
    pre_c.push('>');
    let mut dnl: Vec<char> = Vec::new();
    dnl.push('\n');
    dnl.push('\n');
    let mut nl: Vec<char> = Vec::new();
    nl.push('\n');
    assert(pre_o@ =~= pre_open());
    assert(pre_c@ =~= pre_close());
    let code_o = chars_of("<code>");
    let code_c = chars_of("</code>");
    proof {
        reveal_strlit("<code>");
        reveal_strlit("</code>");
        assert(code_o@ =~= code_open());
        assert(code_c@ =~= code_close());
    }
    assert(dnl@ =~= blank_line());
    assert(nl@ =~= seq!['\n']);
    let n = v.len();
    let mut pos: usize = 0;
    assert(v@.skip(0) =~= v@);
    while pos < n
        invariant
            n == v.len(),
            pos <= n,
            max == max_len,
            max_len > 0,
            byte_len(v@) <= usize::MAX,
            splittable(v@.skip(pos as int), max),
            chunks@.map_values(|c: String| c@) + split_chunks(v@.skip(pos as int), max)
                == split_chunks(v@, max),
            pre_o@ == pre_open(),
            pre_c@ == pre_close(),
            code_o@ == code_open(),
            code_c@ == code_close(),
            dnl@ == blank_line(),
            nl@ == seq!['\n'],
        ensures
            pos == n,
            chunks@.map_values(|c: String| c@) + split_chunks(v@.skip(pos as int), max)
                == split_chunks(v@, max),
        decreases n - pos,
    {
        let ghost rem = v@.skip(pos as int);
        assert(v@.subrange(pos as int, n as int) =~= rem);
        let rem_bytes = byte_len_of(&v, pos, n);
        if rem_bytes <= max_len {
            let ghost before = chunks@.map_values(|c: String| c@);
            chunks.push(string_of(&v, pos, n));
            assert(chunks@.map_values(|c: String| c@) =~= before.push(rem));
            assert(split_chunks(rem, max) == seq![rem]);
            assert(before + seq![rem] =~= before.push(rem));
            assert(split_chunks(v@.skip(n as int), max) =~= Seq::<Seq<char>>::empty()) by {
                assert(v@.skip(n as int).len() == 0);
            }
            pos = n;
            assert(chunks@.map_values(|c: String| c@) + split_chunks(v@.skip(pos as int), max)
                =~= split_chunks(v@, max));
            break;
        }
        // the first `max_len` bytes end on a character boundary
        let k = match prefix_for_bytes_in(&v, pos, n, max_len) {
            Some(k) => k,
            None => {
                assert(false);
                pos
            },
        };
        proof {
            lemma_chunk_end(rem, max);
            lemma_prefix_for_bytes(rem, max);
            assert(v@.subrange(pos as int, k as int) =~= rem.take(k - pos));
        }
        let sp = match rfind_in(&v, pos, k, &dnl) {
            Some(j) => j,
            None => match rfind_in(&v, pos, k, &nl) {
                Some(j) => j,
                None => k,
            },
        };
        assert(sp - pos == split_point(rem, max));
        let open = count_in(&v, pos, sp, &pre_o);
        let close = count_in(&v, pos, sp, &pre_c);
        proof {
            assert(v@.subrange(pos as int, sp as int) =~= rem.take(sp - pos));
            assert(v@.subrange(sp as int, n as int) =~= rem.skip(sp - pos));
        }
        let mut e = sp;
        let mut extended = false;
        if open > close {
            match find_in(&v, sp, n, &pre_c) {
                Some(j) => {
                    e = j + 6;
                    extended = true;
                },
                None => {},
            }
        }
        if !extended {
            let code_open_n = count_in(&v, pos, sp, &code_o);
            let code_close_n = count_in(&v, pos, sp, &code_c);
            if code_open_n > code_close_n {
                match find_in(&v, sp, n, &code_c) {
                    Some(j) => {
                        e = j + 7;
                    },
                    None => {},
                }
            }
        }
        assert(e - pos == chunk_end(rem, max));
        let ghost before = chunks@.map_values(|c: String| c@);
        chunks.push(string_of(&v, pos, e));
        proof {
            assert(v@.subrange(pos as int, e as int) =~= rem.take(e - pos));
            assert(chunks@.map_values(|c: String| c@) =~= before.push(rem.take(e - pos)));
        }
        let next = skip_ws(&v, e);
        proof {
            assert(rem.skip(e - pos) =~= v@.skip(e as int));
            lemma_trim_start_skip(v@.skip(e as int));
            assert(v@.skip(e as int).skip(next - e) =~= v@.skip(next as int));
            let tail = trim_start(rem.skip(e - pos));
            assert(tail == v@.skip(next as int));
            assert(split_chunks(rem, max) == seq![rem.take(e - pos)] + split_chunks(tail, max));
            assert(before.push(rem.take(e - pos)) + split_chunks(tail, max) =~= before + (seq![
                rem.take(e - pos),
            ] + split_chunks(tail, max)));
        }
        pos = next;
    }
    proof {
        assert(v@.skip(pos as int).len() == 0);
        assert(chunks@.map_values(|c: String| c@) =~= split_chunks(v@, max));
    }
    chunks
}

/// Escape `&`, `<`, `>` and `"` for Telegram HTML.
pub fn html_escape(s: &str) -> (r: String)
    ensures
        r@ == html_escaped(s@),
{
    let v = chars_of(s);
    let mut r = String::new();
    push_escaped(&mut r, &v, 0, v.len());
    assert(v@.subrange(0, v@.len() as int) =~= s@);
    r
}

/// Escape a link destination for use inside a double-quoted attribute.
pub fn escape_attr(s: &str) -> (r: String)
    ensures
        r@ == html_escaped(s@),
{
    let v = chars_of(s);
    let mut r = String::new();
    push_escaped(&mut r, &v, 0, v.len());
    assert(v@.subrange(0, v@.len() as int) =~= s@);
    r
}


#[verifier::external_type_specification]
#[verifier::external_body]
pub struct ExMarkdownEvent<'a>(Event<'a>);

#[verifier::external_type_specification]
#[verifier::external_body]
pub struct ExMarkdownTagEnd(TagEnd);

/// The kind of a markdown container element, as far as rendering tells
/// kinds apart.
#[derive(Clone, Copy, Debug, PartialEq, Eq)]
pub enum MdTag {
    Paragraph,
    Heading,
    BlockQuote,
    CodeBlock,
    List,
    Item,
    Emphasis,
    Strong,
    Strikethrough,
    Link,
    Other,
}

/// One markdown parser event, holding as plain values what rendering reads.
#[derive(Clone, Debug)]
pub enum MdEvent {
    /// Start of an element other than a link.
    Start(MdTag),
    /// Start of a link, with its destination URL.
    StartLink(String),
    /// End of an element.
    End(MdTag),
    /// A text node.
    Text(String),
    /// An inline code span.
    Code(String),
    /// Raw HTML (block or inline).
    Html(String),
    /// A soft or hard line break.
    Break,
    /// A horizontal rule.
    Rule,
    /// Any other event (footnotes, task markers, math).
    Other,
}

/// The events that `pulldown_cmark` (with strikethrough enabled) yields for
/// `text`, converted one for one to [`MdEvent`].
pub uninterp spec fn markdown_events(text: Seq<char>) -> Seq<MdEvent>;

/// Converts a `pulldown_cmark` end tag to its kind.
#[verifier::external_body]
fn md_tag(t: &TagEnd) -> MdTag {
    match t {
        TagEnd::Paragraph => MdTag::Paragraph,
        TagEnd::Heading(_) => MdTag::Heading,
        TagEnd::BlockQuote(_) => MdTag::BlockQuote,
        TagEnd::CodeBlock => MdTag::CodeBlock,
        TagEnd::List(_) => MdTag::List,
        TagEnd::Item => MdTag::Item,
        TagEnd::Emphasis => MdTag::Emphasis,
        TagEnd::Strong => MdTag::Strong,
        TagEnd::Strikethrough => MdTag::Strikethrough,
        TagEnd::Link => MdTag::Link,
        _ => MdTag::Other,
    }
}

/// Converts one `pulldown_cmark` event (a start tag through `Tag::to_end`).
#[verifier::external_body]
fn md_event(e: Event<'_>) -> MdEvent {
    match e {
        Event::Start(Tag::Link { dest_url, .. }) => MdEvent::StartLink(dest_url.to_string()),
        Event::Start(t) => MdEvent::Start(md_tag(&t.to_end())),
        Event::End(t) => MdEvent::End(md_tag(&t)),
        Event::Text(t) => MdEvent::Text(t.to_string()),
        Event::Code(c) => MdEvent::Code(c.to_string()),
        Event::Html(h) | Event::InlineHtml(h) => MdEvent::Html(h.to_string()),
        Event::SoftBreak | Event::HardBreak => MdEvent::Break,
        Event::Rule => MdEvent::Rule,
        _ => MdEvent::Other,
    }
}

/// Runs `pulldown_cmark::Parser::new_ext` with `ENABLE_STRIKETHROUGH` over
/// `text` and collects its events. The contract claims only that the result
/// is the parser's event sequence for `text` (named `markdown_events`).
#[verifier::external_body]
fn parse_markdown(text: &str) -> (events: Vec<MdEvent>)
    ensures
        events@ == markdown_events(text@),
{
    let mut events = Vec::new();
    for e in Parser::new_ext(text, Options::ENABLE_STRIKETHROUGH) {
        events.push(md_event(e));
    }
    events
}

/// Rendering state: output so far, list nesting depth, and whether any
/// markdown construct has been seen.
pub struct RenderState {
    pub html: Seq<char>,
    pub depth: nat,
    pub had_markdown: bool,
}

/// Text opening an element, and whether it counts as markdown.
pub open spec fn open_markup(t: MdTag) -> Seq<char> {
    match t {
        MdTag::Heading => "<b>"@,
        MdTag::Strong => "<b>"@,
        MdTag::Emphasis => "<i>"@,
        MdTag::Strikethrough => "<s>"@,
        MdTag::CodeBlock => "<pre>"@,
        MdTag::BlockQuote => "<blockquote>"@,
        _ => Seq::empty(),
    }
}

pub open spec fn marks_markdown(t: MdTag) -> bool {
    t == MdTag::Heading || t == MdTag::Strong || t == MdTag::Emphasis || t
        == MdTag::Strikethrough || t == MdTag::CodeBlock || t == MdTag::BlockQuote
}

/// Text closing an element.
pub open spec fn close_markup(t: MdTag) -> Seq<char> {
    match t {
        MdTag::Paragraph => "\n\n"@,
        MdTag::Heading => "</b>\n"@,
        MdTag::Strong => "</b>"@,
        MdTag::Emphasis => "</i>"@,
        MdTag::Strikethrough => "</s>"@,
        MdTag::CodeBlock => "</pre>"@,
        MdTag::Link => "</a>"@,
        MdTag::BlockQuote => "</blockquote>"@,
        MdTag::Item => "\n"@,
        _ => Seq::empty(),
    }
}

/// `n` copies of two spaces.
pub open spec fn indent(n: nat) -> Seq<char>
    decreases n,
{
    if n == 0 {
        Seq::empty()
    } else {
        indent((n - 1) as nat) + "  "@
    }
}

/// The effect of one event on the rendering state.
pub open spec fn render_step(st: RenderState, e: MdEvent) -> RenderState {
    match e {
        MdEvent::Start(MdTag::List) => RenderState {
            depth: st.depth + 1,
            had_markdown: true,
            ..st
        },
        MdEvent::Start(MdTag::Item) => RenderState {
            html: st.html + indent(if st.depth > 0 { (st.depth - 1) as nat } else { 0 })
                + "\u{2022} "@,
            had_markdown: true,
            ..st
        },
        MdEvent::Start(t) => RenderState {
            html: st.html + open_markup(t),
            had_markdown: st.had_markdown || marks_markdown(t),
            ..st
        },
        MdEvent::StartLink(url) => RenderState {
            html: st.html + "<a href=\""@ + html_escaped(url@) + "\">"@,
            had_markdown: true,
            ..st
        },
        MdEvent::End(MdTag::List) => RenderState {
            depth: if st.depth > 0 { (st.depth - 1) as nat } else { 0 },
            ..st
        },
        MdEvent::End(t) => RenderState { html: st.html + close_markup(t), ..st },
        MdEvent::Text(t) => RenderState { html: st.html + html_escaped(t@), ..st },
        MdEvent::Code(c) => RenderState {
            html: st.html + "<code>"@ + html_escaped(c@) + "</code>"@,
            had_markdown: true,
            ..st
        },
        MdEvent::Html(h) => RenderState { html: st.html + html_escaped(h@), ..st },
        MdEvent::Break => RenderState { html: st.html + "\n"@, ..st },
        MdEvent::Rule => RenderState { html: st.html + "\n\u{2014}\u{2014}\u{2014}\n"@, ..st },
        MdEvent::Other => st,
    }
}

/// The state after rendering all of `es` from an empty start.
pub open spec fn render_events(es: Seq<MdEvent>) -> RenderState
    decreases es.len(),
{
    if es.len() == 0 {
        RenderState { html: Seq::empty(), depth: 0, had_markdown: false }
    } else {
        render_step(render_events(es.drop_last()), es.last())
    }
}

/// Final HTML for a non-empty trimmed input `t` whose parser events are `es`:
/// the rendered output trimmed, or the whole input escaped in `<pre>` when
/// no markdown construct was seen.
pub open spec fn rendered_html(t: Seq<char>, es: Seq<MdEvent>) -> Seq<char> {
    let st = render_events(es);
    let r = trim(st.html);
    if !st.had_markdown && r.len() > 0 {
        "<pre>"@ + html_escaped(t) + "</pre>"@
    } else {
        r
    }
}

/// Whether a parser event is a markdown construct: a heading, emphasis,
/// strong or struck-through text, a code block, a quote, a list or list
/// item, a link, or an inline code span.
pub open spec fn is_markdown_construct(e: MdEvent) -> bool {
    match e {
        MdEvent::Start(t) => t == MdTag::Heading || t == MdTag::Strong || t == MdTag::Emphasis
            || t == MdTag::Strikethrough || t == MdTag::CodeBlock || t == MdTag::BlockQuote || t
            == MdTag::List || t == MdTag::Item,
        MdEvent::StartLink(_) => true,
        MdEvent::Code(_) => true,
        _ => false,
    }
}

proof fn lemma_constructs_mark(es: Seq<MdEvent>)
    ensures
        render_events(es).had_markdown <==> exists|j: int|
            0 <= j < es.len() && is_markdown_construct(#[trigger] es[j]),
    decreases es.len(),
{
    if es.len() > 0 {
        let init = es.drop_last();
        lemma_constructs_mark(init);
        if exists|j: int| 0 <= j < init.len() && is_markdown_construct(#[trigger] init[j]) {
            let j = choose|j: int| 0 <= j < init.len() && is_markdown_construct(#[trigger] init[j]);
            assert(es[j] == init[j]);
        }
        if exists|j: int| 0 <= j < es.len() && is_markdown_construct(#[trigger] es[j]) {
            let j = choose|j: int| 0 <= j < es.len() && is_markdown_construct(#[trigger] es[j]);
            if j < init.len() {
                assert(init[j] == es[j]);
            }
        }
    }
}

/// Rendering keeps markdown: input whose events hold any markdown construct
/// (emphasis, a link, a list, ...) comes back as the rendered HTML, trimmed,
/// and never as the escaped `<pre>` fallback; input with none comes back as
/// that fallback whenever its rendering is not blank.
pub proof fn law_markdown_is_rendered(t: Seq<char>, es: Seq<MdEvent>)
    ensures
        (exists|j: int| 0 <= j < es.len() && is_markdown_construct(#[trigger] es[j]))
            ==> rendered_html(t, es) == trim(render_events(es).html),
        !(exists|j: int| 0 <= j < es.len() && is_markdown_construct(#[trigger] es[j]))
            && trim(render_events(es).html).len() > 0 ==> rendered_html(t, es) == "<pre>"@
            + html_escaped(t) + "</pre>"@,
{
    lemma_constructs_mark(es);
}

/// What `md_to_telegram_html` returns for `md`.
pub open spec fn telegram_html(md: Seq<char>) -> Seq<char> {
    if trim(md).len() == 0 {
        "(no output)"@
    } else {
        rendered_html(trim(md), markdown_events(trim(md)))
    }
}

/// Appends `n` copies of two spaces.
fn push_indent(s: &mut String, n: usize)
    ensures
        final(s)@ == old(s)@ + indent(n as nat),
{
    let mut i: usize = 0;
    while i < n
        invariant
            i <= n,
            s@ == old(s)@ + indent(i as nat),
        decreases n - i,
    {
        push_str(s, "  ");
        i = i + 1;
        assert(s@ =~= old(s)@ + indent(i as nat));
    }
}

/// Appends the HTML-escaped form of a whole string.
fn push_escaped_str(s: &mut String, t: &str)
    ensures
        final(s)@ == old(s)@ + html_escaped(t@),
{
    let v = chars_of(t);
    push_escaped(s, &v, 0, v.len());
    assert(v@.subrange(0, v@.len() as int) =~= t@);
}

/// Renders parser events for the (trimmed, non-empty) markdown text `t` to
/// Telegram HTML.
pub fn render_markdown(t: &str, events: &Vec<MdEvent>) -> (html: String)
    ensures
        html@ == rendered_html(t@, events@),
{
    let mut out = String::new();
    let mut depth: usize = 0;
    let mut had = false;
    let mut i: usize = 0;
    while i < events.len()
        invariant
            i <= events.len(),
            depth <= i,
            render_events(events@.take(i as int)) == (RenderState {
                html: out@,
                depth: depth as nat,
                had_markdown: had,
            }),
        decreases events.len() - i,
    {
        let ghost st = render_events(events@.take(i as int));
        match &events[i] {
            MdEvent::Start(MdTag::List) => {
                depth = depth + 1;
                had = true;
            },
            MdEvent::Start(MdTag::Item) => {
                let d = if depth > 0 { depth - 1 } else { 0 };
                push_indent(&mut out, d);
                push_str(&mut out, "\u{2022} ");
                had = true;
            },
            MdEvent::Start(tag) => {
                match tag {
                    MdTag::Heading => push_str(&mut out, "<b>"),
                    MdTag::Strong => push_str(&mut out, "<b>"),
                    MdTag::Emphasis => push_str(&mut out, "<i>"),
                    MdTag::Strikethrough => push_str(&mut out, "<s>"),
                    MdTag::CodeBlock => push_str(&mut out, "<pre>"),
                    MdTag::BlockQuote => push_str(&mut out, "<blockquote>"),
                    _ => {},
                }
                let m = match tag {
                    MdTag::Heading | MdTag::Strong | MdTag::Emphasis | MdTag::Strikethrough
                    | MdTag::CodeBlock | MdTag::BlockQuote => true,
                    _ => false,
                };
                had = had || m;
                assert(out@ =~= st.html + open_markup(*tag));
            },
            MdEvent::StartLink(url) => {
                push_str(&mut out, "<a href=\"");
                push_escaped_str(&mut out, url.as_str());
                push_str(&mut out, "\">");
                had = true;
            },
            MdEvent::End(MdTag::List) => {
                depth = if depth > 0 { depth - 1 } else { 0 };
            },
            MdEvent::End(tag) => {
                match tag {
                    MdTag::Paragraph => push_str(&mut out, "\n\n"),
                    MdTag::Heading => push_str(&mut out, "</b>\n"),
                    MdTag::Strong => push_str(&mut out, "</b>"),
                    MdTag::Emphasis => push_str(&mut out, "</i>"),
                    MdTag::Strikethrough => push_str(&mut out, "</s>"),
                    MdTag::CodeBlock => push_str(&mut out, "</pre>"),
                    MdTag::Link => push_str(&mut out, "</a>"),
                    MdTag::BlockQuote => push_str(&mut out, "</blockquote>"),
                    MdTag::Item => push_str(&mut out, "\n"),
                    _ => {},
                }
                assert(out@ =~= st.html + close_markup(*tag));
            },
            MdEvent::Text(t) => {
                push_escaped_str(&mut out, t.as_str());
            },
            MdEvent::Code(c) => {
                push_str(&mut out, "<code>");
                push_escaped_str(&mut out, c.as_str());
                push_str(&mut out, "</code>");
                had = true;
            },
            MdEvent::Html(h) => {
                push_escaped_str(&mut out, h.as_str());
            },
            MdEvent::Break => {
                push_str(&mut out, "\n");
            },
            MdEvent::Rule => {
                push_str(&mut out, "\n\u{2014}\u{2014}\u{2014}\n");
            },
            MdEvent::Other => {},
        }
        proof {
            assert(events@.take(i + 1).drop_last() =~= events@.take(i as int));
            assert(events@.take(i + 1).last() == events@[i as int]);
        }
        i = i + 1;
        assert(render_events(events@.take(i as int)) =~= (RenderState {
            html: out@,
            depth: depth as nat,
            had_markdown: had,
        }));
    }
    assert(events@.take(events@.len() as int) =~= events@);
    let ov = chars_of(out.as_str());
    let (a, b) = trim_bounds(&ov, 0, ov.len());
    assert(ov@.subrange(0, ov@.len() as int) =~= out@);
    if !had && a < b {
        let mut r = String::new();
        push_str(&mut r, "<pre>");
        push_escaped_str(&mut r, t);
        push_str(&mut r, "</pre>");
        r
    } else {
        string_of(&ov, a, b)
    }
}

/// Convert markdown text to Telegram-compatible HTML.
///
/// Supports: bold, italic, code, code blocks, links, blockquotes, headers, lists.
/// Falls back to `<pre>` wrapping if the input has no recognizable markdown.
pub fn md_to_telegram_html(md: &str) -> (html: String)
    ensures
        html@ == telegram_html(md@),
{
    let v = chars_of(md);
    let (a, b) = trim_bounds(&v, 0, v.len());
    assert(v@.subrange(0, v@.len() as int) =~= md@);
    if a == b {
        return "(no output)".to_string();
    }
    let trimmed = string_of(&v, a, b);
    let events = parse_markdown(trimmed.as_str());
    render_markdown(trimmed.as_str(), &events)
}

} // verus!
