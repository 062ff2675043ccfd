//! Character-level string utilities shared by the rest of the library:
//! Unicode whitespace, trimming, UTF-8 byte lengths and decimal rendering.

use vstd::prelude::*;
use vstd::string::*;

verus! {

/// The Unicode `White_Space` property, which is what `char::is_whitespace`
/// tests (and therefore what `str::trim` removes).
pub open spec fn is_ws(c: char) -> bool {
    let u = c as u32;
    ||| 0x9 <= u <= 0xD
    ||| u == 0x20
    ||| u == 0x85
    ||| u == 0xA0
    ||| u == 0x1680
    ||| 0x2000 <= u <= 0x200A
    ||| u == 0x2028
    ||| u == 0x2029
    ||| u == 0x202F
    ||| u == 0x205F
    ||| u == 0x3000
}

/// Executable form of [`is_ws`].
pub fn is_whitespace(c: char) -> (b: bool)
    ensures
        b == is_ws(c),
{
    let u = c as u32;
    (0x9 <= u && u <= 0xD) || u == 0x20 || u == 0x85 || u == 0xA0 || u == 0x1680 || (0x2000
        <= u && u <= 0x200A) || u == 0x2028 || u == 0x2029 || u == 0x202F || u == 0x205F || u
        == 0x3000
}

/// `s` with its leading whitespace removed.
pub open spec fn trim_start(s: Seq<char>) -> Seq<char>
    decreases s.len(),
{
    if s.len() > 0 && is_ws(s[0]) {
        trim_start(s.drop_first())
    } else {
        s
    }
}

/// `s` with its trailing whitespace removed.
pub open spec fn trim_end(s: Seq<char>) -> Seq<char>
    decreases s.len(),
{
    if s.len() > 0 && is_ws(s.last()) {
        trim_end(s.drop_last())
    } else {
        s
    }
}

/// `s` with whitespace removed at both ends, as `str::trim` does.
pub open spec fn trim(s: Seq<char>) -> Seq<char> {
    trim_end(trim_start(s))
}

/// Number of leading whitespace characters of `s`.
pub open spec fn leading_ws(s: Seq<char>) -> nat
    decreases s.len(),
{
    if s.len() > 0 && is_ws(s[0]) {
        1 + leading_ws(s.drop_first())
    } else {
        0
    }
}

/// Number of trailing whitespace characters of `s`.
pub open spec fn trailing_ws(s: Seq<char>) -> nat
    decreases s.len(),
{
    if s.len() > 0 && is_ws(s.last()) {
        1 + trailing_ws(s.drop_last())
    } else {
        0
    }
}

pub proof fn lemma_trim_start_skip(s: Seq<char>)
    ensures
        leading_ws(s) <= s.len(),
        trim_start(s) == s.skip(leading_ws(s) as int),
        forall|i: int| 0 <= i < leading_ws(s) ==> is_ws(#[trigger] s[i]),
        leading_ws(s) < s.len() ==> !is_ws(s[leading_ws(s) as int]),
    decreases s.len(),
{
    if s.len() > 0 && is_ws(s[0]) {
        lemma_trim_start_skip(s.drop_first());
        assert(s.drop_first().skip(leading_ws(s.drop_first()) as int) =~= s.skip(
            leading_ws(s) as int,
        ));
        assert forall|i: int| 0 <= i < leading_ws(s) implies is_ws(#[trigger] s[i]) by {
            if i > 0 {
                assert(s[i] == s.drop_first()[i - 1]);
            }
        }
    } else {
        assert(s.skip(0) =~= s);
    }
}

pub proof fn lemma_trim_end_take(s: Seq<char>)
    ensures
        trailing_ws(s) <= s.len(),
        trim_end(s) == s.take(s.len() - trailing_ws(s)),
        forall|i: int| s.len() - trailing_ws(s) <= i < s.len() ==> is_ws(#[trigger] s[i]),
        trailing_ws(s) < s.len() ==> !is_ws(s[s.len() - trailing_ws(s) - 1]),
    decreases s.len(),
{
    if s.len() > 0 && is_ws(s.last()) {
        lemma_trim_end_take(s.drop_last());
        assert(s.drop_last().take(s.drop_last().len() - trailing_ws(s.drop_last()))
            =~= s.take(s.len() - trailing_ws(s)));
        assert forall|i: int| s.len() - trailing_ws(s) <= i < s.len() implies is_ws(
            #[trigger] s[i],
        ) by {
            if i < s.len() - 1 {
                assert(s[i] == s.drop_last()[i]);
            }
        }
    } else {
        assert(s.take(s.len() as int) =~= s);
    }
}

/// Index of the first non-whitespace character of `v` at or after `from`
/// (or `v.len()`).
pub fn skip_ws(v: &Vec<char>, from: usize) -> (i: usize)
    requires
        from <= v.len(),
    ensures
        from <= i <= v.len(),
        i - from == leading_ws(v@.skip(from as int)),
{
    let mut i = from;
    while i < v.len() && is_whitespace(v[i])
        invariant
            from <= i <= v.len(),
            leading_ws(v@.skip(from as int)) == (i - from) + leading_ws(v@.skip(i as int)),
        decreases v.len() - i,
    {
        assert(v@.skip(i as int).drop_first() =~= v@.skip(i + 1));
        i = i + 1;
    }
    i
}

/// Index just past the last non-whitespace character of `v` before `to`
/// (or `from` if there is none).
pub fn skip_ws_back(v: &Vec<char>, from: usize, to: usize) -> (j: usize)
    requires
        from <= to <= v.len(),
    ensures
        from <= j <= to,
        to - j == trailing_ws(v@.subrange(from as int, to as int)),
{
    let mut j = to;
    while j > from && is_whitespace(v[j - 1])
        invariant
            from <= j <= to <= v.len(),
            trailing_ws(v@.subrange(from as int, to as int)) == (to - j) + trailing_ws(
                v@.subrange(from as int, j as int),
            ),
        decreases j,
    {
        assert(v@.subrange(from as int, j as int).drop_last() =~= v@.subrange(
            from as int,
            j - 1,
        ));
        j = j - 1;
    }
    j
}

/// Bounds `(a, b)` such that `v[a..b]` is `v[from..to]` trimmed.
pub fn trim_bounds(v: &Vec<char>, from: usize, to: usize) -> (r: (usize, usize))
    requires
        from <= to <= v.len(),
    ensures
        from <= r.0 <= r.1 <= to,
        v@.subrange(r.0 as int, r.1 as int) == trim(v@.subrange(from as int, to as int)),
{
    let ghost s = v@.subrange(from as int, to as int);
    let a0 = skip_ws(v, from);
    proof {
        lemma_trim_start_skip(s);
        lemma_trim_start_skip(v@.skip(from as int));
        assert forall|k: int| 0 <= k <= s.len() implies #[trigger] leading_ws(s.skip(k))
            == leading_ws(v@.skip(from as int).skip(k)) || true by {}
    }
    let a = if a0 > to { to } else { a0 };
    proof {
        lemma_leading_ws_prefix(v@.skip(from as int), (to - from) as nat);
        assert(v@.skip(from as int).take(to - from) =~= s);
    }
    let b = skip_ws_back(v, a, to);
    proof {
        let t = v@.subrange(a as int, to as int);
        lemma_trim_end_take(t);
        assert(trim_start(s) =~= t);
        assert(t.take(t.len() - trailing_ws(t)) =~= v@.subrange(a as int, b as int));
    }
    (a, b)
}

/// Leading whitespace of a prefix is the leading whitespace of the whole,
/// capped at the prefix length.
pub proof fn lemma_leading_ws_prefix(s: Seq<char>, n: nat)
    requires
        n <= s.len(),
    ensures
        leading_ws(s.take(n as int)) == if leading_ws(s) < n { leading_ws(s) } else { n },
    decreases n,
{
    if n > 0 {
        if is_ws(s[0]) {
            lemma_leading_ws_prefix(s.drop_first(), (n - 1) as nat);
            assert(s.take(n as int).drop_first() =~= s.drop_first().take(n - 1));
        }
    }
}


/// The characters of `s`, in order.
pub fn chars_of(s: &str) -> (v: Vec<char>)
    ensures
        v@ == s@,
{
    let mut v: Vec<char> = Vec::new();
    for c in it: s.chars()
        invariant
            v@ == it.seq().take(it.index() as int),
            it.seq() == s@,
    {
        v.push(c);
    }
    v
}

/// Appends one character to a `String` (std `String::push`).
#[verifier::external_body]
pub(crate) fn push_char(s: &mut String, c: char)
    ensures
        final(s)@ == old(s)@.push(c),
{
    s.push(c)
}

/// The string made of `v[from..to]`.
pub fn string_of(v: &Vec<char>, from: usize, to: usize) -> (s: String)
    requires
        from <= to <= v.len(),
    ensures
        s@ == v@.subrange(from as int, to as int),
{
    let mut s = String::new();
    let mut i = from;
    while i < to
        invariant
            from <= i <= to <= v.len(),
            s@ == v@.subrange(from as int, i as int),
        decreases to - i,
    {
        push_char(&mut s, v[i]);
        assert(v@.subrange(from as int, i + 1) =~= v@.subrange(from as int, i as int).push(v@[i as int]));
        i = i + 1;
    }
    s
}


/// Appends a whole string slice.
pub fn push_str(s: &mut String, t: &str)
    ensures
        final(s)@ == old(s)@ + t@,
{
    s.append(t);
}

/// The digit character for `d` (for `d < 10`).
pub open spec fn digit_char(d: nat) -> char {
    (48 + d) as char
}

/// Decimal representation of a natural number, as `Display` prints it.
pub open spec fn decimal(n: nat) -> Seq<char>
    decreases n,
{
    if n < 10 {
        seq![digit_char(n)]
    } else {
        decimal(n / 10).push(digit_char(n % 10))
    }
}

/// Decimal representation of an integer, with a leading `-` when negative.
pub open spec fn decimal_int(i: int) -> Seq<char> {
    if i < 0 {
        seq!['-'] + decimal((-i) as nat)
    } else {
        decimal(i as nat)
    }
}

/// A decimal representation is a non-empty string of digits, with at least
/// two digits exactly for numbers from ten on.
pub proof fn lemma_decimal_digits(n: nat)
    ensures
        decimal(n).len() >= 1,
        n >= 10 <==> decimal(n).len() >= 2,
        forall|i: int| 0 <= i < decimal(n).len() ==> '0' <= #[trigger] decimal(n)[i] <= '9',
    decreases n,
{
    if n >= 10 {
        lemma_decimal_digits(n / 10);
        let d = decimal(n / 10);
        assert forall|i: int| 0 <= i < decimal(n).len() implies '0' <= #[trigger] decimal(n)[i]
            <= '9' by {
            if i < d.len() {
                assert(decimal(n)[i] == d[i]);
            }
        }
    }
}

/// Different numbers have different decimal representations.
pub proof fn lemma_decimal_injective(n: nat, m: nat)
    requires
        decimal(n) == decimal(m),
    ensures
        n == m,
    decreases n,
{
    lemma_decimal_digits(n);
    lemma_decimal_digits(m);
    if n >= 10 && m >= 10 {
        let a = decimal(n);
        assert(a.drop_last() == decimal(n / 10));
        assert(decimal(m).drop_last() == decimal(m / 10));
        lemma_decimal_injective(n / 10, m / 10);
        assert(a.last() == digit_char(n % 10));
        assert(decimal(m).last() == digit_char(m % 10));
        assert(digit_char(n % 10) as int == 48 + n % 10);
        assert(digit_char(m % 10) as int == 48 + m % 10);
    } else if n < 10 && m < 10 {
        assert(decimal(n)[0] == digit_char(n));
        assert(decimal(m)[0] == digit_char(m));
        assert(digit_char(n) as int == 48 + n);
        assert(digit_char(m) as int == 48 + m);
    }
}

/// Different integers have different signed decimal representations.
pub proof fn lemma_decimal_int_injective(i: int, j: int)
    requires
        decimal_int(i) == decimal_int(j),
    ensures
        i == j,
{
    lemma_decimal_digits((if i < 0 { -i } else { i }) as nat);
    lemma_decimal_digits((if j < 0 { -j } else { j }) as nat);
    if i < 0 && j < 0 {
        assert(decimal_int(i).drop_first() == decimal((-i) as nat));
        assert(decimal_int(j).drop_first() == decimal((-j) as nat));
        lemma_decimal_injective((-i) as nat, (-j) as nat);
    } else if i >= 0 && j >= 0 {
        lemma_decimal_injective(i as nat, j as nat);
    } else if i < 0 {
        assert(decimal_int(i)[0] == '-');
        assert(decimal_int(j)[0] == decimal(j as nat)[0]);
    } else {
        assert(decimal_int(j)[0] == '-');
        assert(decimal_int(i)[0] == decimal(i as nat)[0]);
    }
}

/// A signed decimal representation holds only digits and `-`.
pub proof fn lemma_decimal_int_chars(i: int)
    ensures
        decimal_int(i).len() >= 1,
        forall|k: int|
            0 <= k < decimal_int(i).len() ==> (#[trigger] decimal_int(i)[k] == '-' || '0'
                <= decimal_int(i)[k] <= '9'),
{
    if i < 0 {
        lemma_decimal_digits((-i) as nat);
        assert forall|k: int| 0 <= k < decimal_int(i).len() implies (#[trigger] decimal_int(i)[k]
            == '-' || '0' <= decimal_int(i)[k] <= '9') by {
            if k > 0 {
                assert(decimal_int(i)[k] == decimal((-i) as nat)[k - 1]);
            }
        }
    } else {
        lemma_decimal_digits(i as nat);
    }
}

/// Appends the decimal representation of `n`.
pub fn push_decimal(s: &mut String, n: u64)
    ensures
        final(s)@ == old(s)@ + decimal(n as nat),
    decreases n,
{
    if n >= 10 {
        push_decimal(s, n / 10);
    }
    let d = (n % 10) as u8;
    let c = (48u8 + d) as char;
    assert(c == digit_char((n % 10) as nat));
    push_char(s, c);
    proof {
        if n >= 10 {
            assert(decimal(n as nat) == decimal((n / 10) as nat).push(digit_char((n % 10) as nat)));
        }
    }
}

/// Appends the decimal representation of a signed integer.
pub fn push_decimal_i64(s: &mut String, n: i64)
    ensures
        final(s)@ == old(s)@ + decimal_int(n as int),
{
    if n < 0 {
        push_char(s, '-');
        let m: u64 = if n == i64::MIN {
            0x8000_0000_0000_0000u64
        } else {
            (-n) as u64
        };
        push_decimal(s, m);
        assert(final(s)@ == old(s)@ + decimal_int(n as int));
    } else {
        push_decimal(s, n as u64);
    }
}

/// Replacement text of one character under HTML escaping.
pub open spec fn escape_char(c: char) -> Seq<char> {
    if c == '&' {
        seq!['&', 'a', 'm', 'p', ';']
    } else if c == '<' {
        seq!['&', 'l', 't', ';']
    } else if c == '>' {
        seq!['&', 'g', 't', ';']
    } else if c == '"' {
        seq!['&', 'q', 'u', 'o', 't', ';']
    } else {
        seq![c]
    }
}

/// `s` with `&`, `<`, `>` and `"` replaced by their HTML entities.
pub open spec fn html_escaped(s: Seq<char>) -> Seq<char>
    decreases s.len(),
{
    if s.len() == 0 {
        Seq::empty()
    } else {
        html_escaped(s.drop_last()) + escape_char(s.last())
    }
}

/// Escaped text holds no `<`, `>` or `"`: nothing in it can open a tag or
/// close an attribute.
pub proof fn law_escaped_has_no_markup(s: Seq<char>)
    ensures
        forall|i: int|
            0 <= i < html_escaped(s).len() ==> #[trigger] html_escaped(s)[i] != '<'
                && html_escaped(s)[i] != '>' && html_escaped(s)[i] != '"',
    decreases s.len(),
{
    if s.len() > 0 {
        law_escaped_has_no_markup(s.drop_last());
        let a = html_escaped(s.drop_last());
        let e = escape_char(s.last());
        assert forall|i: int| 0 <= i < html_escaped(s).len() implies #[trigger] html_escaped(s)[i]
            != '<' && html_escaped(s)[i] != '>' && html_escaped(s)[i] != '"' by {
            if i < a.len() {
                assert(html_escaped(s)[i] == a[i]);
            } else {
                assert(html_escaped(s)[i] == e[i - a.len()]);
            }
        }
    }
}

proof fn lemma_escaped_front(s: Seq<char>)
    requires
        s.len() > 0,
    ensures
        html_escaped(s) == escape_char(s[0]) + html_escaped(s.drop_first()),
    decreases s.len(),
{
    if s.len() > 1 {
        lemma_escaped_front(s.drop_last());
        assert(s.drop_last().drop_first() =~= s.drop_first().drop_last());
        assert(s.drop_first().last() == s.last());
        assert(s.drop_last()[0] == s[0]);
    } else {
        assert(s.drop_first() =~= Seq::<char>::empty());
        assert(s.drop_last() =~= Seq::<char>::empty());
    }
}

/// Escaping loses nothing: two texts with the same escaped form are equal,
/// so the escaped text reads back as exactly the original.
pub proof fn law_escape_injective(a: Seq<char>, b: Seq<char>)
    requires
        html_escaped(a) == html_escaped(b),
    ensures
        a == b,
    decreases a.len(),
{
    if a.len() == 0 || b.len() == 0 {
        if a.len() > 0 {
            lemma_escaped_front(a);
        }
        if b.len() > 0 {
            lemma_escaped_front(b);
        }
        assert(a =~= b);
    } else {
        lemma_escaped_front(a);
        lemma_escaped_front(b);
        let ea = escape_char(a[0]);
        let eb = escape_char(b[0]);
        let e = html_escaped(a);
        assert(e[0] == ea[0] && e[0] == eb[0]);
        assert(ea.len() > 1 ==> e[1] == ea[1]);
        assert(eb.len() > 1 ==> e[1] == eb[1]);
        assert(a[0] == b[0]);
        assert(html_escaped(a.drop_first()) =~= e.skip(ea.len() as int));
        assert(html_escaped(b.drop_first()) =~= e.skip(eb.len() as int));
        law_escape_injective(a.drop_first(), b.drop_first());
        assert(a.len() == b.len());
        assert forall|i: int| 0 <= i < a.len() implies a[i] == b[i] by {
            if i > 0 {
                assert(a[i] == a.drop_first()[i - 1]);
                assert(b[i] == b.drop_first()[i - 1]);
            }
        }
        assert(a =~= b);
    }
}

/// Appends the HTML-escaped form of one character.
pub fn push_escaped_char(s: &mut String, c: char)
    ensures
        final(s)@ == old(s)@ + escape_char(c),
{
    if c == '&' {
        push_char(s, '&');
        push_char(s, 'a');
        push_char(s, 'm');
        push_char(s, 'p');
        push_char(s, ';');
    } else if c == '<' {
        push_char(s, '&');
        push_char(s, 'l');
        push_char(s, 't');
        push_char(s, ';');
    } else if c == '>' {
        push_char(s, '&');
        push_char(s, 'g');
        push_char(s, 't');
        push_char(s, ';');
    } else if c == '"' {
        push_char(s, '&');
        push_char(s, 'q');
        push_char(s, 'u');
        push_char(s, 'o');
        push_char(s, 't');
        push_char(s, ';');
    } else {
        push_char(s, c);
    }
    assert(final(s)@ =~= old(s)@ + escape_char(c));
}

/// Appends the HTML-escaped form of `v[from..to]`.
pub fn push_escaped(s: &mut String, v: &Vec<char>, from: usize, to: usize)
    requires
        from <= to <= v.len(),
    ensures
        final(s)@ == old(s)@ + html_escaped(v@.subrange(from as int, to as int)),
{
    let mut i = from;
    while i < to
        invariant
            from <= i <= to <= v.len(),
            s@ == old(s)@ + html_escaped(v@.subrange(from as int, i as int)),
        decreases to - i,
    {
        let ghost before = s@;
        push_escaped_char(s, v[i]);
        proof {
            let t = v@.subrange(from as int, i + 1);
            assert(t.drop_last() =~= v@.subrange(from as int, i as int));
            assert(t.last() == v@[i as int]);
            assert(s@ =~= old(s)@ + html_escaped(t));
        }
        i = i + 1;
    }
}


/// Number of bytes in the UTF-8 encoding of `c`.
pub open spec fn char_width(c: char) -> nat {
    let u = c as u32;
    if u <= 0x7F {
        1
    } else if u <= 0x7FF {
        2
    } else if u <= 0xFFFF {
        3
    } else {
        4
    }
}

/// Number of bytes in the UTF-8 encoding of `s` (what `str::len` returns).
pub open spec fn byte_len(s: Seq<char>) -> nat
    decreases s.len(),
{
    if s.len() == 0 {
        0
    } else {
        char_width(s[0]) + byte_len(s.drop_first())
    }
}

pub proof fn lemma_byte_len_concat(a: Seq<char>, b: Seq<char>)
    ensures
        byte_len(a + b) == byte_len(a) + byte_len(b),
    decreases a.len(),
{
    if a.len() == 0 {
        assert(a + b =~= b);
    } else {
        lemma_byte_len_concat(a.drop_first(), b);
        assert((a + b).drop_first() =~= a.drop_first() + b);
    }
}

/// `byte_len` agrees with the length of vstd's UTF-8 encoding.
pub proof fn lemma_byte_len_encode(s: Seq<char>)
    ensures
        byte_len(s) == vstd::utf8::encode_utf8(s).len(),
    decreases s.len(),
{
    broadcast use vstd::utf8::char_is_scalar;

    if s.len() > 0 {
        lemma_byte_len_encode(s.drop_first());
        let u = s[0] as u32;
        vstd::utf8::char_is_scalar(s[0]);
        assert(vstd::utf8::encode_scalar(u).len() == char_width(s[0]));
    }
}

pub proof fn lemma_byte_len_split(s: Seq<char>, i: int)
    requires
        0 <= i <= s.len(),
    ensures
        byte_len(s) == byte_len(s.take(i)) + byte_len(s.skip(i)),
        byte_len(s.take(i)) <= byte_len(s),
        byte_len(s.skip(i)) <= byte_len(s),
{
    assert(s =~= s.take(i) + s.skip(i));
    lemma_byte_len_concat(s.take(i), s.skip(i));
}

pub proof fn lemma_byte_len_push(s: Seq<char>, c: char)
    ensures
        byte_len(s.push(c)) == byte_len(s) + char_width(c),
{
    lemma_byte_len_concat(s, seq![c]);
    assert(s.push(c) =~= s + seq![c]);
    assert(seq![c].drop_first() =~= Seq::<char>::empty());
    assert(byte_len(seq![c]) == char_width(c) + byte_len(seq![c].drop_first()));
}

pub proof fn lemma_byte_len_sub(s: Seq<char>, from: int, to: int)
    requires
        0 <= from <= to <= s.len(),
    ensures
        byte_len(s.subrange(from, to)) <= byte_len(s),
        byte_len(s.subrange(from, to)) >= to - from,
{
    lemma_byte_len_split(s, from);
    lemma_byte_len_split(s.skip(from), to - from);
    assert(s.skip(from).take(to - from) =~= s.subrange(from, to));
    lemma_byte_len_ge_len(s.subrange(from, to));
}

pub proof fn lemma_byte_len_ge_len(s: Seq<char>)
    ensures
        byte_len(s) >= s.len(),
    decreases s.len(),
{
    if s.len() > 0 {
        lemma_byte_len_ge_len(s.drop_first());
    }
}

/// Executable form of [`char_width`] (`char::len_utf8`).
pub fn char_width_of(c: char) -> (w: usize)
    ensures
        w == char_width(c),
        1 <= w <= 4,
{
    let u = c as u32;
    if u <= 0x7F {
        1
    } else if u <= 0x7FF {
        2
    } else if u <= 0xFFFF {
        3
    } else {
        4
    }
}

/// UTF-8 byte length of `v[from..to]`.
pub fn byte_len_of(v: &Vec<char>, from: usize, to: usize) -> (n: usize)
    requires
        from <= to <= v.len(),
        byte_len(v@) <= usize::MAX,
    ensures
        n == byte_len(v@.subrange(from as int, to as int)),
{
    let mut n: usize = 0;
    let mut i = from;
    while i < to
        invariant
            from <= i <= to <= v.len(),
            byte_len(v@) <= usize::MAX,
            n == byte_len(v@.subrange(from as int, i as int)),
        decreases to - i,
    {
        proof {
            lemma_byte_len_push(v@.subrange(from as int, i as int), v@[i as int]);
            assert(v@.subrange(from as int, i + 1) =~= v@.subrange(from as int, i as int).push(
                v@[i as int],
            ));
            lemma_byte_len_sub(v@, from as int, i + 1);
        }
        n = n + char_width_of(v[i]);
        i = i + 1;
    }
    n
}


/// Whether `pat` occurs in `s` starting at position `i`.
pub open spec fn occurs_at(s: Seq<char>, pat: Seq<char>, i: int) -> bool {
    0 <= i && i + pat.len() <= s.len() && s.subrange(i, i + pat.len()) == pat
}

/// Start of the last occurrence of `pat` in `s` (`str::rfind`), or -1.
pub open spec fn rfind(s: Seq<char>, pat: Seq<char>) -> int
    decreases s.len(),
{
    if s.len() < pat.len() {
        -1
    } else if occurs_at(s, pat, s.len() - pat.len()) {
        s.len() - pat.len()
    } else if s.len() == 0 {
        -1
    } else {
        rfind(s.drop_last(), pat)
    }
}

/// Start of the first occurrence of `pat` in `s` (`str::find`), or -1.
pub open spec fn find(s: Seq<char>, pat: Seq<char>) -> int
    decreases s.len(),
{
    if s.len() < pat.len() {
        -1
    } else if occurs_at(s, pat, 0) {
        0
    } else if s.len() == 0 {
        -1
    } else {
        let r = find(s.drop_first(), pat);
        if r < 0 {
            -1
        } else {
            r + 1
        }
    }
}

/// Number of positions at which a non-empty `pat` occurs in `s`. For a
/// pattern that cannot overlap itself (such as `<pre>`) this is the count
/// that `str::matches(pat).count()` returns.
pub open spec fn count_occurrences(s: Seq<char>, pat: Seq<char>) -> nat
    decreases s.len(),
{
    if pat.len() == 0 || s.len() < pat.len() {
        0
    } else {
        count_occurrences(s.drop_last(), pat) + if occurs_at(s, pat, s.len() - pat.len()) {
            1nat
        } else {
            0nat
        }
    }
}

pub proof fn lemma_rfind_bounds(s: Seq<char>, pat: Seq<char>)
    ensures
        rfind(s, pat) >= 0 ==> occurs_at(s, pat, rfind(s, pat)),
        rfind(s, pat) >= -1,
    decreases s.len(),
{
    if s.len() >= pat.len() && !occurs_at(s, pat, s.len() - pat.len()) && s.len() > 0 {
        lemma_rfind_bounds(s.drop_last(), pat);
        let r = rfind(s.drop_last(), pat);
        if r >= 0 {
            assert(s.drop_last().subrange(r, r + pat.len()) =~= s.subrange(r, r + pat.len()));
        }
    }
}

pub proof fn lemma_find_bounds(s: Seq<char>, pat: Seq<char>)
    ensures
        find(s, pat) >= 0 ==> occurs_at(s, pat, find(s, pat)),
        find(s, pat) >= -1,
    decreases s.len(),
{
    if s.len() >= pat.len() && !occurs_at(s, pat, 0) && s.len() > 0 {
        lemma_find_bounds(s.drop_first(), pat);
        let r = find(s.drop_first(), pat);
        if r >= 0 {
            assert(s.drop_first().subrange(r, r + pat.len()) =~= s.subrange(
                r + 1,
                r + 1 + pat.len(),
            ));
        }
    }
}

/// Whether `pat` occurs in `v` at absolute position `i`.
pub fn matches_at(v: &Vec<char>, i: usize, pat: &Vec<char>) -> (b: bool)
    ensures
        b == (i + pat.len() <= v.len() && v@.subrange(i as int, i + pat.len()) == pat@),
{
    if pat.len() > v.len() || i > v.len() - pat.len() {
        return false;
    }
    let mut j: usize = 0;
    while j < pat.len()
        invariant
            i + pat.len() <= v.len(),
            j <= pat.len(),
            forall|k: int| 0 <= k < j ==> v@[i + k] == pat@[k],
        decreases pat.len() - j,
    {
        if v[i + j] != pat[j] {
            assert(v@.subrange(i as int, i + pat.len())[j as int] != pat@[j as int]);
            return false;
        }
        j = j + 1;
    }
    assert(v@.subrange(i as int, i + pat.len()) =~= pat@);
    true
}

/// `rfind` on the window `v[from..to]`, as an absolute index.
pub fn rfind_in(v: &Vec<char>, from: usize, to: usize, pat: &Vec<char>) -> (r: Option<usize>)
    requires
        from <= to <= v.len(),
    ensures
        match r {
            Some(j) => from <= j && j - from == rfind(v@.subrange(from as int, to as int), pat@),
            None => rfind(v@.subrange(from as int, to as int), pat@) < 0,
        },
{
    let mut e = to;
    while e - from >= pat.len()
        invariant
            from <= e <= to <= v.len(),
            rfind(v@.subrange(from as int, to as int), pat@) == rfind(
                v@.subrange(from as int, e as int),
                pat@,
            ),
        decreases e,
    {
        let j = e - pat.len();
        let m = matches_at(v, j, pat);
        proof {
            let w = v@.subrange(from as int, e as int);
            assert(w.subrange(j - from, j - from + pat.len()) =~= v@.subrange(
                j as int,
                j + pat.len(),
            ));
        }
        if m {
            return Some(j);
        }
        if e == from {
            return None;
        }
        proof {
            assert(v@.subrange(from as int, e as int).drop_last() =~= v@.subrange(
                from as int,
                e - 1,
            ));
        }
        e = e - 1;
    }
    None
}

/// `find` on the window `v[from..to]`, as an absolute index.
pub fn find_in(v: &Vec<char>, from: usize, to: usize, pat: &Vec<char>) -> (r: Option<usize>)
    requires
        from <= to <= v.len(),
    ensures
        match r {
            Some(j) => from <= j && j - from == find(v@.subrange(from as int, to as int), pat@),
            None => find(v@.subrange(from as int, to as int), pat@) < 0,
        },
{
    let mut i = from;
    while to - i >= pat.len()
        invariant
            from <= i <= to <= v.len(),
            find(v@.subrange(from as int, to as int), pat@) == if find(
                v@.subrange(i as int, to as int),
                pat@,
            ) < 0 {
                -1
            } else {
                (i - from) + find(v@.subrange(i as int, to as int), pat@)
            },
        decreases to - i,
    {
        let m = matches_at(v, i, pat);
        proof {
            let w = v@.subrange(i as int, to as int);
            assert(w.subrange(0, pat.len() as int) =~= v@.subrange(i as int, i + pat.len()));
        }
        if m {
            return Some(i);
        }
        if i == to {
            return None;
        }
        proof {
            assert(v@.subrange(i as int, to as int).drop_first() =~= v@.subrange(i + 1, to as int));
        }
        i = i + 1;
    }
    None
}

/// `count_occurrences` on the window `v[from..to]`.
pub fn count_in(v: &Vec<char>, from: usize, to: usize, pat: &Vec<char>) -> (n: usize)
    requires
        from <= to <= v.len(),
        pat.len() > 0,
    ensures
        n == count_occurrences(v@.subrange(from as int, to as int), pat@),
{
    let mut n: usize = 0;
    let mut e = from;
    while e < to
        invariant
            from <= e <= to <= v.len(),
            pat.len() > 0,
            n == count_occurrences(v@.subrange(from as int, e as int), pat@),
            n <= e - from,
        decreases to - e,
    {
        let e1 = e + 1;
        proof {
            let w = v@.subrange(from as int, e1 as int);
            assert(w.drop_last() =~= v@.subrange(from as int, e as int));
        }
        if e1 - from >= pat.len() {
            let j = e1 - pat.len();
            let m = matches_at(v, j, pat);
            proof {
                let w = v@.subrange(from as int, e1 as int);
                assert(w.subrange(j - from, j - from + pat.len()) =~= v@.subrange(
                    j as int,
                    j + pat.len(),
                ));
            }
            if m {
                n = n + 1;
            }
        }
        e = e1;
    }
    n
}

/// Number of leading characters of `s` whose UTF-8 encoding takes exactly
/// `n` bytes, or -1 when byte `n` falls inside a character or past the end.
pub open spec fn prefix_for_bytes(s: Seq<char>, n: nat) -> int
    decreases s.len(),
{
    if n == 0 {
        0
    } else if s.len() == 0 || char_width(s[0]) > n {
        -1
    } else {
        let r = prefix_for_bytes(s.drop_first(), (n - char_width(s[0])) as nat);
        if r < 0 {
            -1
        } else {
            r + 1
        }
    }
}

pub proof fn lemma_prefix_for_bytes(s: Seq<char>, n: nat)
    ensures
        prefix_for_bytes(s, n) >= -1,
        prefix_for_bytes(s, n) >= 0 ==> prefix_for_bytes(s, n) <= s.len() && byte_len(
            s.take(prefix_for_bytes(s, n)),
        ) == n,
        n > 0 && prefix_for_bytes(s, n) >= 0 ==> prefix_for_bytes(s, n) >= 1,
    decreases s.len(),
{
    if n > 0 && s.len() > 0 && char_width(s[0]) <= n {
        let m = (n - char_width(s[0])) as nat;
        lemma_prefix_for_bytes(s.drop_first(), m);
        let r = prefix_for_bytes(s.drop_first(), m);
        if r >= 0 {
            assert(s.take(r + 1).drop_first() =~= s.drop_first().take(r));
        }
    } else if n == 0 {
        assert(s.take(0) =~= Seq::<char>::empty());
    }
}

/// `prefix_for_bytes` on the window `v[from..to]`, as an absolute index.
pub fn prefix_for_bytes_in(v: &Vec<char>, from: usize, to: usize, n: usize) -> (r: Option<usize>)
    requires
        from <= to <= v.len(),
    ensures
        match r {
            Some(k) => from <= k && k - from == prefix_for_bytes(
                v@.subrange(from as int, to as int),
                n as nat,
            ),
            None => prefix_for_bytes(v@.subrange(from as int, to as int), n as nat) < 0,
        },
{
    let mut i = from;
    let mut acc: usize = 0;
    while acc < n
        invariant
            from <= i <= to <= v.len(),
            acc <= n,
            prefix_for_bytes(v@.subrange(from as int, to as int), n as nat) == if prefix_for_bytes(
                v@.subrange(i as int, to as int),
                (n - acc) as nat,
            ) < 0 {
                -1
            } else {
                (i - from) + prefix_for_bytes(v@.subrange(i as int, to as int), (n - acc) as nat)
            },
        decreases n - acc,
    {
        if i == to {
            return None;
        }
        let w = char_width_of(v[i]);
        if w > n - acc {
            return None;
        }
        proof {
            assert(v@.subrange(i as int, to as int).drop_first() =~= v@.subrange(i + 1, to as int));
        }
        acc = acc + w;
        i = i + 1;
    }
    Some(i)
}


/// Index of the first whitespace character of `s`, or -1.
pub open spec fn first_ws(s: Seq<char>) -> int
    decreases s.len(),
{
    if s.len() == 0 {
        -1
    } else if is_ws(s[0]) {
        0
    } else {
        let r = first_ws(s.drop_first());
        if r < 0 {
            -1
        } else {
            r + 1
        }
    }
}

/// `s` without its leading run of `c` (`str::trim_start_matches(c)`).
pub open spec fn strip_leading(s: Seq<char>, c: char) -> Seq<char>
    decreases s.len(),
{
    if s.len() > 0 && s[0] == c {
        strip_leading(s.drop_first(), c)
    } else {
        s
    }
}

/// The part of `s` before the first `c` (`str::split(c).next()`).
pub open spec fn before_char(s: Seq<char>, c: char) -> Seq<char>
    decreases s.len(),
{
    if s.len() == 0 {
        s
    } else if s[0] == c {
        Seq::empty()
    } else {
        seq![s[0]] + before_char(s.drop_first(), c)
    }
}

/// Index of the first whitespace character of `v[from..to]` (absolute), or `None`.
pub fn first_ws_in(v: &Vec<char>, from: usize, to: usize) -> (r: Option<usize>)
    requires
        from <= to <= v.len(),
    ensures
        match r {
            Some(j) => from <= j < to && j - from == first_ws(v@.subrange(from as int, to as int)),
            None => first_ws(v@.subrange(from as int, to as int)) < 0,
        },
{
    let mut i = from;
    while i < to
        invariant
            from <= i <= to <= v.len(),
            first_ws(v@.subrange(from as int, to as int)) == if first_ws(
                v@.subrange(i as int, to as int),
            ) < 0 {
                -1
            } else {
                (i - from) + first_ws(v@.subrange(i as int, to as int))
            },
        decreases to - i,
    {
        if is_whitespace(v[i]) {
            return Some(i);
        }
        assert(v@.subrange(i as int, to as int).drop_first() =~= v@.subrange(i + 1, to as int));
        i = i + 1;
    }
    None
}

/// Index just past the leading run of `c` in `v[from..to]`.
pub fn skip_char(v: &Vec<char>, from: usize, to: usize, c: char) -> (i: usize)
    requires
        from <= to <= v.len(),
    ensures
        from <= i <= to,
        v@.subrange(i as int, to as int) == strip_leading(v@.subrange(from as int, to as int), c),
{
    let mut i = from;
    while i < to && v[i] == c
        invariant
            from <= i <= to <= v.len(),
            strip_leading(v@.subrange(from as int, to as int), c) == strip_leading(
                v@.subrange(i as int, to as int),
                c,
            ),
        decreases to - i,
    {
        assert(v@.subrange(i as int, to as int).drop_first() =~= v@.subrange(i + 1, to as int));
        i = i + 1;
    }
    i
}

/// End of `v[from..to]` before its first `c` (absolute index).
pub fn cut_at_char(v: &Vec<char>, from: usize, to: usize, c: char) -> (e: usize)
    requires
        from <= to <= v.len(),
    ensures
        from <= e <= to,
        v@.subrange(from as int, e as int) == before_char(v@.subrange(from as int, to as int), c),
{
    let mut e = from;
    while e < to && v[e] != c
        invariant
            from <= e <= to <= v.len(),
            before_char(v@.subrange(from as int, to as int), c) == v@.subrange(
                from as int,
                e as int,
            ) + before_char(v@.subrange(e as int, to as int), c),
        decreases to - e,
    {
        let ghost rest = v@.subrange(e as int, to as int);
        assert(rest.drop_first() =~= v@.subrange(e + 1, to as int));
        assert(v@.subrange(from as int, e as int) + seq![rest[0]] =~= v@.subrange(
            from as int,
            e + 1,
        ));
        assert(before_char(rest, c) == seq![rest[0]] + before_char(rest.drop_first(), c));
        assert(v@.subrange(from as int, e as int) + (seq![rest[0]] + before_char(
            rest.drop_first(),
            c,
        )) =~= v@.subrange(from as int, e + 1) + before_char(rest.drop_first(), c));
        e = e + 1;
    }
    assert(before_char(v@.subrange(e as int, to as int), c) =~= Seq::<char>::empty());
    assert(v@.subrange(from as int, e as int) + Seq::<char>::empty() =~= v@.subrange(
        from as int,
        e as int,
    ));
    e
}

/// What `str::to_lowercase` returns for `s`: the Unicode lowercase mapping,
/// applied character by character with the standard library's context rules.
pub uninterp spec fn lowercase(s: Seq<char>) -> Seq<char>;

/// Whether every character of `s` is ASCII.
pub open spec fn is_ascii(s: Seq<char>) -> bool {
    forall|i: int| 0 <= i < s.len() ==> (#[trigger] s[i] as u32) < 128
}

/// `c` with `A`..`Z` mapped to `a`..`z`.
pub open spec fn ascii_lower_char(c: char) -> char {
    if 'A' <= c <= 'Z' {
        ((c as u32) + 32) as char
    } else {
        c
    }
}

/// `s` with ASCII capitals lowercased.
pub open spec fn ascii_lowercase(s: Seq<char>) -> Seq<char> {
    s.map_values(|c: char| ascii_lower_char(c))
}

/// std `str::to_lowercase`. The contract names its result, and states only
/// what it is on ASCII text (capitals `A`..`Z` become `a`..`z`, every other
/// ASCII character stays); nothing more is claimed of the Unicode case
/// mapping.
#[verifier::external_body]
pub(crate) fn to_lowercase(s: &str) -> (r: String)
    ensures
        r@ == lowercase(s@),
        is_ascii(s@) ==> r@ == ascii_lowercase(s@),
{
    s.to_lowercase()
}


/// Whether two strings hold the same characters.
pub fn str_eq(a: &str, b: &str) -> (r: bool)
    ensures
        r == (a@ == b@),
{
    let va = chars_of(a);
    let vb = chars_of(b);
    if va.len() != vb.len() {
        assert(va@.len() != vb@.len());
        return false;
    }
    let mut i: usize = 0;
    while i < va.len()
        invariant
            va@ == a@,
            vb@ == b@,
            va.len() == vb.len(),
            i <= va.len(),
            forall|k: int| 0 <= k < i ==> va@[k] == vb@[k],
        decreases va.len() - i,
    {
        if va[i] != vb[i] {
            assert(va@[i as int] != vb@[i as int]);
            return false;
        }
        i = i + 1;
    }
    assert(va@ =~= vb@);
    true
}

/// `parts` joined with `\n` between them (`[..].join("\n")`).
pub open spec fn join_lines(parts: Seq<Seq<char>>) -> Seq<char>
    decreases parts.len(),
{
    if parts.len() == 0 {
        Seq::empty()
    } else if parts.len() == 1 {
        parts[0]
    } else {
        join_lines(parts.drop_last()) + "\n"@ + parts.last()
    }
}


/// The pieces of `s` between occurrences of `c` (`str::split(c)`): always at
/// least one piece.
pub open spec fn split_pieces(s: Seq<char>, c: char) -> Seq<Seq<char>>
    decreases s.len(),
{
    if s.len() == 0 {
        seq![Seq::empty()]
    } else {
        let p = split_pieces(s.drop_last(), c);
        if s.last() == c {
            p.push(Seq::empty())
        } else {
            p.update(p.len() - 1, p.last().push(s.last()))
        }
    }
}

pub proof fn lemma_split_pieces_nonempty(s: Seq<char>, c: char)
    ensures
        split_pieces(s, c).len() >= 1,
    decreases s.len(),
{
    if s.len() > 0 {
        lemma_split_pieces_nonempty(s.drop_last(), c);
    }
}

/// The pieces of `v` that the bounds `b` delimit.
pub open spec fn pieces_of(v: Seq<char>, b: Seq<(usize, usize)>) -> Seq<Seq<char>> {
    b.map_values(|p: (usize, usize)| v.subrange(p.0 as int, p.1 as int))
}

/// Whether all bounds of `b` are ordered and within `v`.
pub open spec fn bounds_within(v: Seq<char>, b: Seq<(usize, usize)>) -> bool {
    forall|j: int| 0 <= j < b.len() ==> #[trigger] b[j].0 <= b[j].1 <= v.len()
}

/// The bounds of every piece of `v` split on `c`, in order.
pub fn piece_bounds(v: &Vec<char>, c: char) -> (b: Vec<(usize, usize)>)
    ensures
        bounds_within(v@, b@),
        pieces_of(v@, b@) == split_pieces(v@, c),
{
    let mut b: Vec<(usize, usize)> = Vec::new();
    let mut start: usize = 0;
    let mut i: usize = 0;
    proof {
        assert(v@.take(0) =~= Seq::<char>::empty());
        assert(pieces_of(v@, b@).push(v@.subrange(0, 0)) =~= seq![Seq::<char>::empty()]);
    }
    while i < v.len()
        invariant
            start <= i <= v.len(),
            bounds_within(v@, b@),
            pieces_of(v@, b@).push(v@.subrange(start as int, i as int)) == split_pieces(
                v@.take(i as int),
                c,
            ),
        decreases v.len() - i,
    {
        let ghost p = split_pieces(v@.take(i as int), c);
        let ghost old_b = b@;
        proof {
            assert(v@.take(i + 1).drop_last() =~= v@.take(i as int));
            assert(v@.take(i + 1).last() == v@[i as int]);
        }
        if v[i] == c {
            b.push((start, i));
            start = i + 1;
            proof {
                assert forall|j: int| 0 <= j < b@.len() implies #[trigger] b@[j].0 <= b@[j].1
                    <= v@.len() by {
                    if j < old_b.len() {
                        assert(b@[j] == old_b[j]);
                    }
                }
                assert(pieces_of(v@, b@) =~= p);
                assert(v@.subrange(start as int, i + 1) =~= Seq::<char>::empty());
                assert(split_pieces(v@.take(i + 1), c) =~= p.push(Seq::empty()));
            }
        } else {
            proof {
                assert(split_pieces(v@.take(i + 1), c) == p.update(
                    p.len() - 1,
                    p.last().push(v@[i as int]),
                ));
                assert(v@.subrange(start as int, i + 1) =~= v@.subrange(start as int, i as int).push(
                    v@[i as int],
                ));
                assert(pieces_of(v@, b@).push(v@.subrange(start as int, i + 1)) =~= p.update(
                    p.len() - 1,
                    p.last().push(v@[i as int]),
                ));
            }
        }
        i = i + 1;
    }
    b.push((start, v.len()));
    assert(v@.take(v@.len() as int) =~= v@);
    assert(pieces_of(v@, b@) =~= split_pieces(v@, c));
    b
}

/// The value of a run of decimal digits.
pub open spec fn digits_value(d: Seq<char>) -> nat
    decreases d.len(),
{
    if d.len() == 0 {
        0
    } else {
        digits_value(d.drop_last()) * 10 + ((d.last() as u32) - 48) as nat
    }
}

/// Whether every character of `d` is an ASCII digit.
pub open spec fn all_digits(d: Seq<char>) -> bool {
    forall|i: int| 0 <= i < d.len() ==> '0' <= #[trigger] d[i] <= '9'
}

/// What `str::parse::<u64>` accepts: an optional `+`, then at least one
/// ASCII digit, with a value that fits in a `u64`.
pub open spec fn parse_u64_spec(s: Seq<char>) -> Option<nat> {
    let d = if s.len() > 0 && s[0] == '+' { s.drop_first() } else { s };
    if d.len() > 0 && all_digits(d) && digits_value(d) <= u64::MAX {
        Some(digits_value(d))
    } else {
        None
    }
}

/// What `str::parse::<i64>` accepts: an optional `+` or `-`, then at least
/// one ASCII digit, with a value that fits in an `i64`.
pub open spec fn parse_i64_spec(s: Seq<char>) -> Option<int> {
    let neg = s.len() > 0 && s[0] == '-';
    let d = if s.len() > 0 && (s[0] == '+' || s[0] == '-') { s.drop_first() } else { s };
    if d.len() > 0 && all_digits(d) {
        if neg && digits_value(d) <= 0x8000_0000_0000_0000 {
            Some(-(digits_value(d) as int))
        } else if !neg && digits_value(d) <= 0x7fff_ffff_ffff_ffff {
            Some(digits_value(d) as int)
        } else {
            None
        }
    } else {
        None
    }
}

pub proof fn lemma_digits_value_grows(d: Seq<char>, k: int)
    requires
        0 <= k <= d.len(),
        all_digits(d),
    ensures
        digits_value(d) >= digits_value(d.take(k)),
    decreases d.len(),
{
    if k < d.len() {
        assert(all_digits(d.drop_last())) by {
            assert forall|i: int| 0 <= i < d.drop_last().len() implies '0' <= #[trigger] d.drop_last()[i] <= '9' by {
                assert(d.drop_last()[i] == d[i]);
            }
        }
        lemma_digits_value_grows(d.drop_last(), k);
        assert(d.drop_last().take(k) =~= d.take(k));
    } else {
        assert(d.take(k) =~= d);
    }
}

/// The value of the digits `v[from..to]`, or `None` when one is not a digit
/// or the value exceeds `limit`.
pub fn digits_in(v: &Vec<char>, from: usize, to: usize, limit: u64) -> (r: Option<u64>)
    requires
        from <= to <= v.len(),
    ensures
        match r {
            Some(n) => all_digits(v@.subrange(from as int, to as int)) && n == digits_value(
                v@.subrange(from as int, to as int),
            ) && n <= limit,
            None => !all_digits(v@.subrange(from as int, to as int)) || digits_value(
                v@.subrange(from as int, to as int),
            ) > limit,
        },
{
    let mut n: u64 = 0;
    let mut i = from;
    while i < to
        invariant
            from <= i <= to <= v.len(),
            all_digits(v@.subrange(from as int, i as int)),
            n == digits_value(v@.subrange(from as int, i as int)),
            n <= limit,
        decreases to - i,
    {
        let c = v[i];
        let ghost d = v@.subrange(from as int, i + 1);
        assert(d.drop_last() =~= v@.subrange(from as int, i as int));
        assert(d.last() == c);
        if c < '0' || c > '9' {
            proof {
                if all_digits(v@.subrange(from as int, to as int)) {
                    assert(v@.subrange(from as int, to as int)[i - from] == c);
                }
            }
            return None;
        }
        assert(all_digits(d)) by {
            assert forall|k: int| 0 <= k < d.len() implies '0' <= #[trigger] d[k] <= '9' by {
                if k < d.len() - 1 {
                    assert(d[k] == v@.subrange(from as int, i as int)[k]);
                }
            }
        }
        let dv = ((c as u32) - 48) as u64;
        if dv > limit || n > (limit - dv) / 10 {
            proof {
                assert(digits_value(d) == n * 10 + dv);
                if dv <= limit {
                    assert(n * 10 + dv > limit) by (nonlinear_arith)
                        requires
                            n > (limit - dv) / 10,
                            dv <= limit,
                    ;
                }
                if all_digits(v@.subrange(from as int, to as int)) {
                    let w = v@.subrange(from as int, to as int);
                    lemma_digits_value_grows(w, i + 1 - from);
                    assert(w.take(i + 1 - from) =~= d);
                }
            }
            return None;
        }
        proof {
            assert(n * 10 + dv <= limit) by (nonlinear_arith)
                requires
                    n <= (limit - dv) / 10,
                    dv <= limit,
            ;
        }
        n = n * 10 + dv;
        i = i + 1;
    }
    Some(n)
}

/// `str::parse::<u64>` on `v[from..to]`.
pub fn parse_u64_in(v: &Vec<char>, from: usize, to: usize) -> (r: Option<u64>)
    requires
        from <= to <= v.len(),
    ensures
        match r {
            Some(n) => parse_u64_spec(v@.subrange(from as int, to as int)) == Some(n as nat),
            None => parse_u64_spec(v@.subrange(from as int, to as int)) is None,
        },
{
    let ghost s = v@.subrange(from as int, to as int);
    let start = if from < to && v[from] == '+' { from + 1 } else { from };
    assert(v@.subrange(start as int, to as int) =~= if s.len() > 0 && s[0] == '+' {
        s.drop_first()
    } else {
        s
    });
    if start == to {
        return None;
    }
    digits_in(v, start, to, u64::MAX)
}

/// `str::parse::<i64>` on `v[from..to]`.
pub fn parse_i64_in(v: &Vec<char>, from: usize, to: usize) -> (r: Option<i64>)
    requires
        from <= to <= v.len(),
    ensures
        match r {
            Some(n) => parse_i64_spec(v@.subrange(from as int, to as int)) == Some(n as int),
            None => parse_i64_spec(v@.subrange(from as int, to as int)) is None,
        },
{
    let ghost s = v@.subrange(from as int, to as int);
    let neg = from < to && v[from] == '-';
    let start = if from < to && (v[from] == '+' || v[from] == '-') { from + 1 } else { from };
    assert(v@.subrange(start as int, to as int) =~= if s.len() > 0 && (s[0] == '+' || s[0]
        == '-') {
        s.drop_first()
    } else {
        s
    });
    if start == to {
        return None;
    }
    if neg {
        match digits_in(v, start, to, 0x8000_0000_0000_0000u64) {
            Some(m) => {
                if m == 0x8000_0000_0000_0000u64 {
                    Some(i64::MIN)
                } else {
                    Some(-(m as i64))
                }
            },
            None => None,
        }
    } else {
        match digits_in(v, start, to, 0x7fff_ffff_ffff_ffffu64) {
            Some(m) => Some(m as i64),
            None => None,
        }
    }
}


/// `parts` joined with `sep` between them (`[..].join(sep)`).
pub open spec fn join_with(parts: Seq<Seq<char>>, sep: Seq<char>) -> Seq<char>
    decreases parts.len(),
{
    if parts.len() == 0 {
        Seq::empty()
    } else if parts.len() == 1 {
        parts[0]
    } else {
        join_with(parts.drop_last(), sep) + sep + parts.last()
    }
}

/// The strings of `v` joined with `sep` between them (`v.join(sep)`).
pub fn join_all(v: &Vec<String>, sep: &str) -> (r: String)
    ensures
        r@ == join_with(v@.map_values(|s: String| s@), sep@),
{
    let ghost all = v@.map_values(|s: String| s@);
    let mut r = String::new();
    let mut i: usize = 0;
    while i < v.len()
        invariant
            i <= v.len(),
            all == v@.map_values(|s: String| s@),
            r@ == join_with(all.take(i as int), sep@),
        decreases v.len() - i,
    {
        proof {
            assert(all.take(i + 1).drop_last() =~= all.take(i as int));
            assert(all.take(i + 1).last() == v@[i as int]@);
        }
        if i > 0 {
            push_str(&mut r, sep);
        }
        push_str(&mut r, v[i].as_str());
        i = i + 1;
    }
    assert(all.take(v@.len() as int) =~= all);
    r
}

/// The non-empty strings of `ps`, in order.
pub open spec fn nonempty_only(ps: Seq<Seq<char>>) -> Seq<Seq<char>>
    decreases ps.len(),
{
    if ps.len() == 0 {
        Seq::empty()
    } else if ps.last().len() > 0 {
        nonempty_only(ps.drop_last()).push(ps.last())
    } else {
        nonempty_only(ps.drop_last())
    }
}

/// The non-empty strings of `v` joined with `sep`.
pub fn join_nonempty(v: &Vec<String>, sep: &str) -> (r: String)
    ensures
        r@ == join_with(nonempty_only(v@.map_values(|s: String| s@)), sep@),
        r@.len() == 0 <==> nonempty_only(v@.map_values(|s: String| s@)).len() == 0,
{
    let ghost all = v@.map_values(|s: String| s@);
    let mut r = String::new();
    let mut any = false;
    let mut i: usize = 0;
    while i < v.len()
        invariant
            i <= v.len(),
            all == v@.map_values(|s: String| s@),
            r@ == join_with(nonempty_only(all.take(i as int)), sep@),
            any == (nonempty_only(all.take(i as int)).len() > 0),
            any == (r@.len() > 0),
        decreases v.len() - i,
    {
        let ghost before = nonempty_only(all.take(i as int));
        proof {
            assert(all.take(i + 1).drop_last() =~= all.take(i as int));
            assert(all.take(i + 1).last() == v@[i as int]@);
        }
        let item = v[i].as_str();
        if !item.is_empty() {
            if any {
                push_str(&mut r, sep);
            }
            push_str(&mut r, item);
            any = true;
            proof {
                assert(nonempty_only(all.take(i + 1)) == before.push(item@));
                assert(before.push(item@).drop_last() =~= before);
                if before.len() == 0 {
                    assert(join_with(before.push(item@), sep@) == item@);
                }
            }
        }
        i = i + 1;
    }
    assert(all.take(v@.len() as int) =~= all);
    r
}

/// The first `n` characters of `s` (`s.chars().take(n).collect()`).
pub fn take_chars(s: &str, n: usize) -> (r: String)
    ensures
        r@ == if s@.len() <= n {
            s@
        } else {
            s@.take(n as int)
        },
{
    let v = chars_of(s);
    let k = if v.len() <= n { v.len() } else { n };
    let r = string_of(&v, 0, k);
    assert(v@.subrange(0, k as int) =~= if s@.len() <= n {
        s@
    } else {
        s@.take(n as int)
    });
    r
}

} // verus!
