//! From a JavaScript list literal to JSON: what has to change in the text, and that changing it a
//! second time changes nothing more.
use vstd::prelude::*;

verus! {

/// Whether a character is white space.
pub open spec fn is_space(c: char) -> bool {
    ('\u{9}' <= c <= '\u{d}') || c == ' ' || c == '\u{85}' || c == '\u{a0}' || c == '\u{1680}' || (
    '\u{2000}' <= c <= '\u{200a}') || c == '\u{2028}' || c == '\u{2029}' || c == '\u{202f}' || c
        == '\u{205f}' || c == '\u{3000}'
}

/// Whether a character may stand in an unquoted key.
pub open spec fn is_key_char(c: char) -> bool {
    ('A' <= c <= 'Z') || ('a' <= c <= 'z') || ('0' <= c <= '9') || c == '_'
}

/// Whether a character closes a list or an object.
pub open spec fn is_close(c: char) -> bool {
    c == '}' || c == ']'
}

/// How many white space characters the text begins with.
pub open spec fn space_run(text: Seq<char>) -> nat
    decreases text.len(),
{
    if text.len() == 0 || !is_space(text[0]) {
        0
    } else {
        1 + space_run(text.skip(1))
    }
}

/// How many characters of a key the text begins with.
pub open spec fn key_run(text: Seq<char>) -> nat
    decreases text.len(),
{
    if text.len() == 0 || !is_key_char(text[0]) {
        0
    } else {
        1 + key_run(text.skip(1))
    }
}

/// Whether the text begins with an unquoted key: white space or none, the key, and a colon.
pub open spec fn begins_with_key(text: Seq<char>) -> bool {
    let w = space_run(text) as int;
    let k = key_run(text.skip(w)) as int;
    k > 0 && w + k < text.len() && text[w + k] == ':'
}

/// The text with every unquoted key at the beginning of a line put in quotes. `line_start` says
/// whether the text itself begins a line.
pub open spec fn keys_quoted(text: Seq<char>, line_start: bool) -> Seq<char>
    decreases text.len(),
{
    if text.len() == 0 {
        Seq::empty()
    } else if line_start && begins_with_key(text) {
        let w = space_run(text) as int;
        let k = key_run(text.skip(w)) as int;
        text.take(w) + seq!['"'] + text.subrange(w, w + k) + seq!['"', ':'] + keys_quoted(
            text.skip(w + k + 1),
            false,
        )
    } else {
        seq![text[0]] + keys_quoted(text.skip(1), text[0] == '\n')
    }
}

/// Whether the text begins with a comma that nothing but white space separates from a closing
/// bracket or brace.
pub open spec fn begins_with_trailing_comma(text: Seq<char>) -> bool {
    &&& text.len() > 0
    &&& text[0] == ','
    &&& ({
        let s = space_run(text.skip(1)) as int;
        1 + s < text.len() && is_close(text[1 + s])
    })
}

/// The text with every such comma taken out, and the white space after it.
pub open spec fn commas_dropped(text: Seq<char>) -> Seq<char>
    decreases text.len(),
{
    if text.len() == 0 {
        Seq::empty()
    } else if begins_with_trailing_comma(text) {
        commas_dropped(text.skip(1 + space_run(text.skip(1)) as int))
    } else {
        seq![text[0]] + commas_dropped(text.skip(1))
    }
}

/// Whether the text begins with an escaped apostrophe.
pub open spec fn begins_with_escape(text: Seq<char>) -> bool {
    text.len() >= 2 && text[0] == '\\' && text[1] == '\''
}

/// The text with every backslash that stands before an apostrophe taken out, from left to right.
pub open spec fn unescaped(text: Seq<char>) -> Seq<char>
    decreases text.len(),
{
    if text.len() == 0 {
        Seq::empty()
    } else if begins_with_escape(text) {
        seq!['\''] + unescaped(text.skip(2))
    } else {
        seq![text[0]] + unescaped(text.skip(1))
    }
}

/// The JSON form of a list that is written as a JavaScript literal.
pub open spec fn normalized(raw: Seq<char>) -> Seq<char> {
    unescaped(commas_dropped(keys_quoted(raw, true)))
}

/// Whether no line begins with an unquoted key. `line_start` says whether the text itself begins a
/// line.
pub open spec fn has_no_key(text: Seq<char>, line_start: bool) -> bool
    decreases text.len(),
{
    text.len() == 0 || {
        &&& !(line_start && begins_with_key(text))
        &&& has_no_key(text.skip(1), text[0] == '\n')
    }
}

/// Whether no comma stands before a closing bracket or brace.
pub open spec fn has_no_trailing_comma(text: Seq<char>) -> bool
    decreases text.len(),
{
    text.len() == 0 || !begins_with_trailing_comma(text) && has_no_trailing_comma(text.skip(1))
}

/// Whether no apostrophe is escaped.
pub open spec fn has_no_escape(text: Seq<char>) -> bool
    decreases text.len(),
{
    text.len() == 0 || !begins_with_escape(text) && has_no_escape(text.skip(1))
}

/// Whether nothing has to change for the text to be JSON.
pub open spec fn is_normal(text: Seq<char>) -> bool {
    has_no_key(text, true) && has_no_trailing_comma(text) && has_no_escape(text)
}

/// Whether the commas at `i` and `j` have nothing but white space between them.
pub open spec fn is_comma_pair(text: Seq<char>, i: int, j: int) -> bool {
    &&& 0 <= i < j < text.len()
    &&& text[i] == ','
    &&& text[j] == ','
    &&& forall|k: int| i < k < j ==> is_space(#[trigger] text[k])
}

/// Whether two commas have nothing but white space between them.
pub open spec fn has_comma_pair(text: Seq<char>) -> bool {
    exists|i: int, j: int| is_comma_pair(text, i, j)
}

/// Whether two backslashes and an apostrophe stand at `i`.
pub open spec fn is_double_escape(text: Seq<char>, i: int) -> bool {
    &&& 0 <= i
    &&& i + 2 < text.len()
    &&& text[i] == '\\'
    &&& text[i + 1] == '\\'
    &&& text[i + 2] == '\''
}

/// Whether two backslashes stand before an apostrophe.
pub open spec fn has_double_escape(text: Seq<char>) -> bool {
    exists|i: int| is_double_escape(text, i)
}

// What a text begins with, in terms of its characters.
pub(crate) proof fn runs_are_maximal(text: Seq<char>)
    ensures
        space_run(text) <= text.len(),
        forall|i: int| 0 <= i < space_run(text) ==> is_space(#[trigger] text[i]),
        space_run(text) < text.len() ==> !is_space(text[space_run(text) as int]),
        key_run(text) <= text.len(),
        forall|i: int| 0 <= i < key_run(text) ==> is_key_char(#[trigger] text[i]),
        key_run(text) < text.len() ==> !is_key_char(text[key_run(text) as int]),
    decreases text.len(),
{
    if text.len() > 0 {
        let rest = text.skip(1);
        runs_are_maximal(rest);
        assert forall|i: int| 0 <= i < space_run(text) implies is_space(#[trigger] text[i]) by {
            if i > 0 {
                assert(text[i] == rest[i - 1]);
            }
        }
        assert forall|i: int| 0 <= i < key_run(text) implies is_key_char(#[trigger] text[i]) by {
            if i > 0 {
                assert(text[i] == rest[i - 1]);
            }
        }
    }
}

/// Whether the text begins with `w` white space characters, `k` characters of a key, and a colon.
pub open spec fn is_key_of(text: Seq<char>, w: int, k: int) -> bool {
    &&& 0 <= w
    &&& 0 < k
    &&& w + k < text.len()
    &&& forall|i: int| 0 <= i < w ==> is_space(#[trigger] text[i])
    &&& forall|i: int| w <= i < w + k ==> is_key_char(#[trigger] text[i])
    &&& text[w + k] == ':'
}

proof fn key_is_unique(text: Seq<char>, w: int, k: int)
    requires
        is_key_of(text, w, k),
    ensures
        begins_with_key(text),
{
    let w0 = space_run(text) as int;
    runs_are_maximal(text);
    assert(is_key_char(text[w]));
    assert(!(w0 < w)) by {
        if w0 < w {
            assert(is_space(text[w0]));
        }
    }
    assert(!(w < w0)) by {
        if w < w0 {
            assert(is_space(text[w]));
        }
    }
    let tail = text.skip(w);
    let k0 = key_run(tail) as int;
    runs_are_maximal(tail);
    assert(!(k0 < k)) by {
        if k0 < k {
            assert(tail[k0] == text[w + k0]);
            assert(is_key_char(text[w + k0]));
        }
    }
    assert(!(k < k0)) by {
        if k < k0 {
            assert(is_key_char(tail[k]));
            assert(tail[k] == text[w + k]);
        }
    }
}

proof fn key_has_a_shape(text: Seq<char>)
    requires
        begins_with_key(text),
    ensures
        is_key_of(text, space_run(text) as int, key_run(text.skip(space_run(text) as int)) as int),
{
    let w = space_run(text) as int;
    let tail = text.skip(w);
    runs_are_maximal(text);
    runs_are_maximal(tail);
    assert forall|i: int| w <= i < w + key_run(tail) implies is_key_char(#[trigger] text[i]) by {
        assert(tail[i - w] == text[i]);
    }
}

/// Whether the text begins with a comma, `s` white space characters, and a closing character.
pub open spec fn is_trailing_of(text: Seq<char>, s: int) -> bool {
    &&& 0 <= s
    &&& 1 + s < text.len()
    &&& text[0] == ','
    &&& forall|i: int| 1 <= i < 1 + s ==> is_space(#[trigger] text[i])
    &&& is_close(text[1 + s])
}

proof fn trailing_is_unique(text: Seq<char>, s: int)
    requires
        is_trailing_of(text, s),
    ensures
        begins_with_trailing_comma(text),
{
    let tail = text.skip(1);
    let s0 = space_run(tail) as int;
    runs_are_maximal(tail);
    assert(!(s0 < s)) by {
        if s0 < s {
            assert(tail[s0] == text[1 + s0]);
            assert(is_space(text[1 + s0]));
        }
    }
    assert(!(s < s0)) by {
        if s < s0 {
            assert(is_space(tail[s]));
            assert(tail[s] == text[1 + s]);
        }
    }
}

proof fn trailing_has_a_shape(text: Seq<char>)
    requires
        begins_with_trailing_comma(text),
    ensures
        is_trailing_of(text, space_run(text.skip(1)) as int),
{
    let tail = text.skip(1);
    runs_are_maximal(tail);
    assert forall|i: int| 1 <= i < 1 + space_run(tail) implies is_space(#[trigger] text[i]) by {
        assert(tail[i - 1] == text[i]);
    }
}

// A text that has nothing to change is not changed.
proof fn nothing_to_quote(text: Seq<char>, line_start: bool)
    requires
        has_no_key(text, line_start),
    ensures
        keys_quoted(text, line_start) == text,
    decreases text.len(),
{
    if text.len() > 0 {
        nothing_to_quote(text.skip(1), text[0] == '\n');
        assert(seq![text[0]] + text.skip(1) =~= text);
    } else {
        assert(keys_quoted(text, line_start) =~= text);
    }
}

proof fn nothing_to_drop(text: Seq<char>)
    requires
        has_no_trailing_comma(text),
    ensures
        commas_dropped(text) == text,
    decreases text.len(),
{
    if text.len() > 0 {
        nothing_to_drop(text.skip(1));
        assert(seq![text[0]] + text.skip(1) =~= text);
    } else {
        assert(commas_dropped(text) =~= text);
    }
}

proof fn nothing_to_unescape(text: Seq<char>)
    requires
        has_no_escape(text),
    ensures
        unescaped(text) == text,
    decreases text.len(),
{
    if text.len() > 0 {
        nothing_to_unescape(text.skip(1));
        assert(seq![text[0]] + text.skip(1) =~= text);
    } else {
        assert(unescaped(text) =~= text);
    }
}

/// A text in which nothing has to change is its own JSON form.
pub proof fn normal_text_is_left_alone(text: Seq<char>)
    requires
        is_normal(text),
    ensures
        normalized(text) == text,
{
    nothing_to_quote(text, true);
    nothing_to_drop(text);
    nothing_to_unescape(text);
}

// Each change leaves its mark: what comes before the mark stood at the same place before.
proof fn quoting_keeps_the_beginning(text: Seq<char>, line_start: bool, n: int)
    requires
        0 <= n <= keys_quoted(text, line_start).len(),
        forall|i: int| 0 <= i < n ==> #[trigger] keys_quoted(text, line_start)[i] != '"',
    ensures
        n <= text.len(),
        forall|i: int| 0 <= i < n ==> #[trigger] text[i] == keys_quoted(text, line_start)[i],
    decreases text.len(),
{
    let out = keys_quoted(text, line_start);
    if text.len() == 0 || n == 0 {
    } else if line_start && begins_with_key(text) {
        let w = space_run(text) as int;
        runs_are_maximal(text);
        assert(out[w] == '"');
        assert(n <= w);
        assert forall|i: int| 0 <= i < n implies #[trigger] text[i] == out[i] by {
            assert(out[i] == text.take(w)[i]);
        }
    } else {
        let rest = text.skip(1);
        let next = text[0] == '\n';
        let tail = keys_quoted(rest, next);
        assert forall|i: int| 0 <= i < n - 1 implies #[trigger] tail[i] != '"' by {
            assert(out[i + 1] == tail[i]);
        }
        quoting_keeps_the_beginning(rest, next, n - 1);
        assert forall|i: int| 0 <= i < n implies #[trigger] text[i] == out[i] by {
            if i > 0 {
                assert(rest[i - 1] == tail[i - 1]);
            }
        }
    }
}

proof fn dropping_starts_at_a_close(text: Seq<char>)
    requires
        begins_with_trailing_comma(text),
    ensures
        ({
            let q = text.skip(1 + space_run(text.skip(1)) as int);
            &&& 0 < q.len() < text.len()
            &&& is_close(q[0])
            &&& commas_dropped(text) == seq![q[0]] + commas_dropped(q.skip(1))
        }),
{
    trailing_has_a_shape(text);
    let q = text.skip(1 + space_run(text.skip(1)) as int);
    assert(!begins_with_trailing_comma(q));
    assert(commas_dropped(q) == seq![q[0]] + commas_dropped(q.skip(1)));
}

proof fn dropping_keeps_the_beginning(text: Seq<char>, n: int)
    requires
        0 <= n <= commas_dropped(text).len(),
        forall|i: int| 0 <= i < n ==> !is_close(#[trigger] commas_dropped(text)[i]),
    ensures
        n <= text.len(),
        forall|i: int| 0 <= i < n ==> #[trigger] text[i] == commas_dropped(text)[i],
        commas_dropped(text).skip(n) == commas_dropped(text.skip(n)),
    decreases text.len(),
{
    let out = commas_dropped(text);
    if n == 0 {
        assert(out.skip(0) =~= out);
        assert(text.skip(0) =~= text);
    } else if text.len() == 0 {
    } else if begins_with_trailing_comma(text) {
        dropping_starts_at_a_close(text);
        assert(is_close(out[0]));
    } else {
        let rest = text.skip(1);
        let tail = commas_dropped(rest);
        assert forall|i: int| 0 <= i < n - 1 implies !is_close(#[trigger] tail[i]) by {
            assert(out[i + 1] == tail[i]);
        }
        dropping_keeps_the_beginning(rest, n - 1);
        assert forall|i: int| 0 <= i < n implies #[trigger] text[i] == out[i] by {
            if i > 0 {
                assert(rest[i - 1] == tail[i - 1]);
            }
        }
        assert(out.skip(n) =~= tail.skip(n - 1));
        assert(text.skip(n) =~= rest.skip(n - 1));
    }
}

proof fn unescaping_keeps_the_beginning(text: Seq<char>, n: int)
    requires
        0 <= n <= unescaped(text).len(),
        forall|i: int| 0 <= i < n ==> #[trigger] unescaped(text)[i] != '\'',
    ensures
        n <= text.len(),
        forall|i: int| 0 <= i < n ==> #[trigger] text[i] == unescaped(text)[i],
    decreases text.len(),
{
    let out = unescaped(text);
    if n == 0 || text.len() == 0 {
    } else if begins_with_escape(text) {
        assert(out[0] == '\'');
    } else {
        let rest = text.skip(1);
        let tail = unescaped(rest);
        assert forall|i: int| 0 <= i < n - 1 implies #[trigger] tail[i] != '\'' by {
            assert(out[i + 1] == tail[i]);
        }
        unescaping_keeps_the_beginning(rest, n - 1);
        assert forall|i: int| 0 <= i < n implies #[trigger] text[i] == out[i] by {
            if i > 0 {
                assert(rest[i - 1] == tail[i - 1]);
            }
        }
    }
}

// Quoting leaves no key to quote.
proof fn quoted_key_is_no_key(spaces: Seq<char>, tail: Seq<char>, line_start: bool)
    requires
        forall|i: int| 0 <= i < spaces.len() ==> is_space(#[trigger] spaces[i]),
        has_no_key(tail, false),
    ensures
        has_no_key(spaces + seq!['"'] + tail, line_start),
    decreases spaces.len(),
{
    let text = spaces + seq!['"'] + tail;
    if begins_with_key(text) {
        key_has_a_shape(text);
        let w = space_run(text) as int;
        assert(text[spaces.len() as int] == '"');
        if w < spaces.len() {
            assert(is_key_char(text[w]));
            assert(is_space(spaces[w]));
        } else if w > spaces.len() {
            assert(is_space(text[spaces.len() as int]));
        } else {
            assert(is_key_char(text[w]));
        }
    }
    if spaces.len() == 0 {
        assert(text.skip(1) =~= tail);
    } else {
        let fewer = spaces.skip(1);
        quoted_key_is_no_key(fewer, tail, spaces[0] == '\n');
        assert(text.skip(1) =~= fewer + seq!['"'] + tail);
    }
}

proof fn line_without_a_break_has_no_key(head: Seq<char>, tail: Seq<char>)
    requires
        forall|i: int| 0 <= i < head.len() ==> #[trigger] head[i] != '\n',
        has_no_key(tail, false),
    ensures
        has_no_key(head + tail, false),
    decreases head.len(),
{
    if head.len() == 0 {
        assert(head + tail =~= tail);
    } else {
        let rest = head.skip(1);
        line_without_a_break_has_no_key(rest, tail);
        assert((head + tail).skip(1) =~= rest + tail);
    }
}

proof fn unquoted_key_was_there(text: Seq<char>, line_start: bool)
    requires
        begins_with_key(keys_quoted(text, line_start)),
    ensures
        begins_with_key(text),
{
    let out = keys_quoted(text, line_start);
    key_has_a_shape(out);
    let w = space_run(out) as int;
    let k = key_run(out.skip(w)) as int;
    assert forall|i: int| 0 <= i < w + k + 1 implies #[trigger] out[i] != '"' by {
        if i < w {
            assert(is_space(out[i]));
        } else if i < w + k {
            assert(is_key_char(out[i]));
        }
    }
    quoting_keeps_the_beginning(text, line_start, w + k + 1);
    same_key(out, text, w, k);
}

proof fn same_key(out: Seq<char>, text: Seq<char>, w: int, k: int)
    requires
        is_key_of(out, w, k),
        w + k < text.len(),
        forall|i: int| 0 <= i < w + k + 1 ==> #[trigger] text[i] == out[i],
    ensures
        begins_with_key(text),
{
    assert forall|i: int| 0 <= i < w implies is_space(#[trigger] text[i]) by {
        assert(is_space(out[i]));
    }
    assert forall|i: int| w <= i < w + k implies is_key_char(#[trigger] text[i]) by {
        assert(is_key_char(out[i]));
    }
    assert(text[w + k] == out[w + k]);
    assert(is_key_of(text, w, k));
    key_is_unique(text, w, k);
}

#[verifier::rlimit(40)]
proof fn quoting_leaves_no_key(text: Seq<char>, line_start: bool)
    ensures
        has_no_key(keys_quoted(text, line_start), line_start),
    decreases text.len(),
{
    let out = keys_quoted(text, line_start);
    if text.len() == 0 {
    } else if line_start && begins_with_key(text) {
        key_has_a_shape(text);
        let w = space_run(text) as int;
        let k = key_run(text.skip(w)) as int;
        let after = text.skip(w + k + 1);
        let tail = keys_quoted(after, false);
        let key = text.subrange(w, w + k) + seq!['"', ':'];
        quoting_leaves_no_key(after, false);
        assert forall|i: int| 0 <= i < key.len() implies #[trigger] key[i] != '\n' by {
            if i < k {
                assert(is_key_char(text[w + i]));
            }
        }
        line_without_a_break_has_no_key(key, tail);
        assert forall|i: int| 0 <= i < w implies is_space(#[trigger] text.take(w)[i]) by {
            assert(is_space(text[i]));
        }
        quoted_key_is_no_key(text.take(w), key + tail, line_start);
        assert(out =~= text.take(w) + seq!['"'] + (key + tail));
    } else {
        let next = text[0] == '\n';
        quoting_leaves_no_key(text.skip(1), next);
        assert(out.skip(1) =~= keys_quoted(text.skip(1), next));
        if begins_with_key(out) {
            unquoted_key_was_there(text, line_start);
        }
    }
}

// The other two changes bring no key to the beginning of a line.
proof fn no_key_further_on(text: Seq<char>, line_start: bool, n: int)
    requires
        has_no_key(text, line_start),
        0 < n <= text.len(),
    ensures
        has_no_key(text.skip(n), text[n - 1] == '\n'),
    decreases n,
{
    let rest = text.skip(1);
    if n > 1 {
        no_key_further_on(rest, text[0] == '\n', n - 1);
        assert(rest.skip(n - 1) =~= text.skip(n));
    }
}

proof fn key_begins_with_space_or_itself(text: Seq<char>)
    ensures
        begins_with_key(text) ==> is_space(text[0]) || is_key_char(text[0]),
{
    if begins_with_key(text) {
        key_has_a_shape(text);
        assert(is_space(text[0]) || is_key_char(text[0]));
    }
}

proof fn key_before_dropping_was_there(text: Seq<char>)
    requires
        begins_with_key(commas_dropped(text)),
    ensures
        begins_with_key(text),
{
    let out = commas_dropped(text);
    key_has_a_shape(out);
    let w = space_run(out) as int;
    let k = key_run(out.skip(w)) as int;
    assert forall|i: int| 0 <= i < w + k + 1 implies !is_close(#[trigger] out[i]) by {
        if i < w {
            assert(is_space(out[i]));
        } else if i < w + k {
            assert(is_key_char(out[i]));
        }
    }
    dropping_keeps_the_beginning(text, w + k + 1);
    same_key(out, text, w, k);
}

#[verifier::rlimit(40)]
proof fn dropping_brings_no_key(text: Seq<char>, line_start: bool)
    requires
        has_no_key(text, line_start),
    ensures
        has_no_key(commas_dropped(text), line_start),
    decreases text.len(),
{
    let out = commas_dropped(text);
    if text.len() == 0 {
    } else if begins_with_trailing_comma(text) {
        dropping_starts_at_a_close(text);
        let n = 1 + space_run(text.skip(1)) as int;
        let q = text.skip(n);
        no_key_further_on(text, line_start, n + 1);
        assert(text.skip(n + 1) =~= q.skip(1));
        dropping_brings_no_key(q.skip(1), false);
        assert(out.skip(1) =~= commas_dropped(q.skip(1)));
        key_begins_with_space_or_itself(out);
    } else {
        let next = text[0] == '\n';
        dropping_brings_no_key(text.skip(1), next);
        assert(out.skip(1) =~= commas_dropped(text.skip(1)));
        if begins_with_key(out) {
            key_before_dropping_was_there(text);
        }
    }
}

proof fn key_before_unescaping_was_there(text: Seq<char>)
    requires
        begins_with_key(unescaped(text)),
    ensures
        begins_with_key(text),
{
    let out = unescaped(text);
    key_has_a_shape(out);
    let w = space_run(out) as int;
    let k = key_run(out.skip(w)) as int;
    assert forall|i: int| 0 <= i < w + k + 1 implies #[trigger] out[i] != '\'' by {
        if i < w {
            assert(is_space(out[i]));
        } else if i < w + k {
            assert(is_key_char(out[i]));
        }
    }
    unescaping_keeps_the_beginning(text, w + k + 1);
    same_key(out, text, w, k);
}

#[verifier::rlimit(40)]
proof fn unescaping_brings_no_key(text: Seq<char>, line_start: bool)
    requires
        has_no_key(text, line_start),
    ensures
        has_no_key(unescaped(text), line_start),
    decreases text.len(),
{
    let out = unescaped(text);
    if text.len() == 0 {
    } else if begins_with_escape(text) {
        no_key_further_on(text, line_start, 2);
        unescaping_brings_no_key(text.skip(2), false);
        assert(out.skip(1) =~= unescaped(text.skip(2)));
        key_begins_with_space_or_itself(out);
    } else {
        let next = text[0] == '\n';
        unescaping_brings_no_key(text.skip(1), next);
        assert(out.skip(1) =~= unescaped(text.skip(1)));
        if begins_with_key(out) {
            key_before_unescaping_was_there(text);
        }
    }
}

// Dropping leaves no comma to drop, unless two stand together, and unescaping brings none.
proof fn pair_further_on(text: Seq<char>, n: int)
    requires
        0 <= n <= text.len(),
        has_comma_pair(text.skip(n)),
    ensures
        has_comma_pair(text),
{
    let rest = text.skip(n);
    let (i, j) = choose|i: int, j: int| is_comma_pair(rest, i, j);
    assert forall|k: int| i + n < k < j + n implies is_space(#[trigger] text[k]) by {
        assert(text[k] == rest[k - n]);
    }
    assert(is_comma_pair(text, i + n, j + n));
}

#[verifier::rlimit(40)]
proof fn dropping_leaves_no_comma(text: Seq<char>)
    requires
        !has_comma_pair(text),
    ensures
        has_no_trailing_comma(commas_dropped(text)),
    decreases text.len(),
{
    let out = commas_dropped(text);
    if text.len() == 0 {
    } else if begins_with_trailing_comma(text) {
        dropping_starts_at_a_close(text);
        let n = 1 + space_run(text.skip(1)) as int;
        if has_comma_pair(text.skip(n)) {
            pair_further_on(text, n);
        }
        dropping_leaves_no_comma(text.skip(n));
    } else {
        let rest = text.skip(1);
        let tail = commas_dropped(rest);
        if has_comma_pair(rest) {
            pair_further_on(text, 1);
        }
        dropping_leaves_no_comma(rest);
        assert(out.skip(1) =~= tail);
        if begins_with_trailing_comma(out) {
            trailing_has_a_shape(out);
            let s = space_run(out.skip(1)) as int;
            assert forall|i: int| 0 <= i < s implies !is_close(#[trigger] tail[i]) by {
                assert(tail[i] == out[i + 1]);
                assert(is_space(out[i + 1]));
            }
            dropping_keeps_the_beginning(rest, s);
            assert forall|i: int| 1 <= i < 1 + s implies is_space(#[trigger] text[i]) by {
                assert(rest[i - 1] == tail[i - 1]);
                assert(is_space(out[i]));
            }
            let q = rest.skip(s);
            assert(commas_dropped(q) =~= tail.skip(s));
            assert(commas_dropped(q)[0] == out[1 + s]);
            assert(q.len() > 0);
            assert(q[0] == text[1 + s]);
            if begins_with_trailing_comma(q) {
                assert(is_comma_pair(text, 0, 1 + s));
            } else {
                assert(is_trailing_of(text, s));
                trailing_is_unique(text, s);
            }
        }
    }
}

proof fn trailing_comma_was_there(text: Seq<char>)
    requires
        begins_with_trailing_comma(unescaped(text)),
    ensures
        begins_with_trailing_comma(text),
{
    let out = unescaped(text);
    trailing_has_a_shape(out);
    let s = space_run(out.skip(1)) as int;
    assert forall|i: int| 0 <= i < s + 2 implies #[trigger] out[i] != '\'' by {
        if 1 <= i < 1 + s {
            assert(is_space(out[i]));
        }
    }
    unescaping_keeps_the_beginning(text, s + 2);
    assert forall|i: int| 1 <= i < 1 + s implies is_space(#[trigger] text[i]) by {
        assert(is_space(out[i]));
    }
    assert(text[0] == out[0] && text[1 + s] == out[1 + s]);
    assert(is_trailing_of(text, s));
    trailing_is_unique(text, s);
}

proof fn unescaping_brings_no_comma(text: Seq<char>)
    requires
        has_no_trailing_comma(text),
    ensures
        has_no_trailing_comma(unescaped(text)),
    decreases text.len(),
{
    let out = unescaped(text);
    if text.len() == 0 {
    } else if begins_with_escape(text) {
        let rest = text.skip(1);
        assert(rest.skip(1) =~= text.skip(2));
        assert(has_no_trailing_comma(rest));
        unescaping_brings_no_comma(text.skip(2));
        assert(out.skip(1) =~= unescaped(text.skip(2)));
    } else {
        unescaping_brings_no_comma(text.skip(1));
        assert(out.skip(1) =~= unescaped(text.skip(1)));
        if begins_with_trailing_comma(out) {
            trailing_comma_was_there(text);
        }
    }
}

// Unescaping leaves no escape, unless two backslashes stand together.
proof fn double_escape_further_on(text: Seq<char>, n: int)
    requires
        0 <= n <= text.len(),
        has_double_escape(text.skip(n)),
    ensures
        has_double_escape(text),
{
    let i = choose|i: int| is_double_escape(text.skip(n), i);
    assert(is_double_escape(text, i + n));
}

proof fn unescaping_leaves_no_escape(text: Seq<char>)
    requires
        !has_double_escape(text),
    ensures
        has_no_escape(unescaped(text)),
    decreases text.len(),
{
    let out = unescaped(text);
    if text.len() == 0 {
    } else if begins_with_escape(text) {
        if has_double_escape(text.skip(2)) {
            double_escape_further_on(text, 2);
        }
        unescaping_leaves_no_escape(text.skip(2));
        assert(out.skip(1) =~= unescaped(text.skip(2)));
    } else {
        let rest = text.skip(1);
        if has_double_escape(rest) {
            double_escape_further_on(text, 1);
        }
        unescaping_leaves_no_escape(rest);
        assert(out.skip(1) =~= unescaped(rest));
        if begins_with_escape(out) {
            assert(unescaped(rest)[0] == '\'');
            assert(rest.len() > 0);
            if begins_with_escape(rest) {
                assert(is_double_escape(text, 0));
            }
        }
    }
}

// Neither quoting nor dropping brings two commas or two backslashes together.
#[verifier::rlimit(40)]
proof fn quoting_brings_no_pair(text: Seq<char>, line_start: bool)
    requires
        has_comma_pair(keys_quoted(text, line_start)),
    ensures
        has_comma_pair(text),
    decreases text.len(),
{
    let out = keys_quoted(text, line_start);
    let (i, j) = choose|i: int, j: int| is_comma_pair(out, i, j);
    if text.len() == 0 {
    } else if line_start && begins_with_key(text) {
        key_has_a_shape(text);
        let w = space_run(text) as int;
        let k = key_run(text.skip(w)) as int;
        let n = w + k + 3;
        let tail = keys_quoted(text.skip(w + k + 1), false);
        assert(i >= n) by {
            if i < w {
                assert(out[i] == text[i]);
                assert(is_space(text[i]));
            } else if w < i <= w + k {
                assert(out[i] == text[i - 1]);
                assert(is_key_char(text[i - 1]));
            }
        }
        assert(out.skip(n) =~= tail);
        assert forall|l: int| i - n < l < j - n implies is_space(#[trigger] tail[l]) by {
            assert(tail[l] == out[l + n]);
        }
        assert(is_comma_pair(tail, i - n, j - n));
        quoting_brings_no_pair(text.skip(w + k + 1), false);
        pair_further_on(text, w + k + 1);
    } else if i == 0 {
        assert(is_comma_pair(text, 0, j)) by {
            assert forall|l: int| 0 <= l < j + 1 implies #[trigger] out[l] != '"' by {
                if 0 < l < j {
                    assert(is_space(out[l]));
                }
            }
            quoting_keeps_the_beginning(text, line_start, j + 1);
            assert forall|l: int| 0 < l < j implies is_space(#[trigger] text[l]) by {
                assert(is_space(out[l]));
            }
        }
    } else {
        let next = text[0] == '\n';
        let tail = keys_quoted(text.skip(1), next);
        assert(out.skip(1) =~= tail);
        assert forall|l: int| i - 1 < l < j - 1 implies is_space(#[trigger] tail[l]) by {
            assert(tail[l] == out[l + 1]);
        }
        assert(is_comma_pair(tail, i - 1, j - 1));
        quoting_brings_no_pair(text.skip(1), next);
        pair_further_on(text, 1);
    }
}

#[verifier::rlimit(40)]
proof fn quoting_brings_no_double_escape(text: Seq<char>, line_start: bool)
    requires
        has_double_escape(keys_quoted(text, line_start)),
    ensures
        has_double_escape(text),
    decreases text.len(),
{
    let out = keys_quoted(text, line_start);
    let i = choose|i: int| is_double_escape(out, i);
    if text.len() == 0 {
    } else if line_start && begins_with_key(text) {
        key_has_a_shape(text);
        let w = space_run(text) as int;
        let k = key_run(text.skip(w)) as int;
        let n = w + k + 3;
        let tail = keys_quoted(text.skip(w + k + 1), false);
        assert(i >= n) by {
            if i < w {
                assert(out[i] == text[i]);
                assert(is_space(text[i]));
            } else if w < i <= w + k {
                assert(out[i] == text[i - 1]);
                assert(is_key_char(text[i - 1]));
            }
        }
        assert(out.skip(n) =~= tail);
        assert(is_double_escape(tail, i - n));
        quoting_brings_no_double_escape(text.skip(w + k + 1), false);
        double_escape_further_on(text, w + k + 1);
    } else if i == 0 {
        quoting_keeps_the_beginning(text, line_start, 3);
        assert(text[0] == out[0] && text[1] == out[1] && text[2] == out[2]);
        assert(is_double_escape(text, 0));
    } else {
        let next = text[0] == '\n';
        let tail = keys_quoted(text.skip(1), next);
        assert(out.skip(1) =~= tail);
        assert(is_double_escape(tail, i - 1));
        quoting_brings_no_double_escape(text.skip(1), next);
        double_escape_further_on(text, 1);
    }
}

proof fn dropping_brings_no_double_escape(text: Seq<char>)
    requires
        has_double_escape(commas_dropped(text)),
    ensures
        has_double_escape(text),
    decreases text.len(),
{
    let out = commas_dropped(text);
    let i = choose|i: int| is_double_escape(out, i);
    if text.len() == 0 {
    } else if begins_with_trailing_comma(text) {
        dropping_starts_at_a_close(text);
        let n = 1 + space_run(text.skip(1)) as int;
        dropping_brings_no_double_escape(text.skip(n));
        double_escape_further_on(text, n);
    } else if i == 0 {
        dropping_keeps_the_beginning(text, 3);
        assert(text[0] == out[0] && text[1] == out[1] && text[2] == out[2]);
        assert(is_double_escape(text, 0));
    } else {
        let tail = commas_dropped(text.skip(1));
        assert(out.skip(1) =~= tail);
        assert(is_double_escape(tail, i - 1));
        dropping_brings_no_double_escape(text.skip(1));
        double_escape_further_on(text, 1);
    }
}

/// The JSON form of a list is its own JSON form, so that normalising twice is normalising once,
/// where the list has no two commas with nothing but white space between them and no two
/// backslashes before an apostrophe.
pub proof fn normalizing_is_stable(raw: Seq<char>)
    requires
        !has_comma_pair(raw),
        !has_double_escape(raw),
    ensures
        is_normal(normalized(raw)),
        normalized(normalized(raw)) == normalized(raw),
{
    let quoted = keys_quoted(raw, true);
    let closed = commas_dropped(quoted);
    quoting_leaves_no_key(raw, true);
    dropping_brings_no_key(quoted, true);
    unescaping_brings_no_key(closed, true);
    if has_comma_pair(quoted) {
        quoting_brings_no_pair(raw, true);
    }
    dropping_leaves_no_comma(quoted);
    unescaping_brings_no_comma(closed);
    if has_double_escape(closed) {
        dropping_brings_no_double_escape(quoted);
        quoting_brings_no_double_escape(raw, true);
    }
    unescaping_leaves_no_escape(closed);
    normal_text_is_left_alone(normalized(raw));
}

/// No text gets longer when its apostrophes are unescaped.
pub proof fn unescaping_only_shortens(text: Seq<char>)
    ensures
        unescaped(text).len() <= text.len(),
        has_no_escape(text) ==> unescaped(text) == text,
    decreases text.len(),
{
    if has_no_escape(text) {
        nothing_to_unescape(text);
    }
    if text.len() > 0 {
        if begins_with_escape(text) {
            unescaping_only_shortens(text.skip(2));
        } else {
            unescaping_only_shortens(text.skip(1));
        }
    }
}

/// White space is what Unicode says it is, a key is made of the letters and digits of ASCII and the
/// underscore, and what closes is a brace or a bracket.
pub proof fn classes_of_characters(c: char)
    ensures
        is_space(c) <==> {
            let n = c as int;
            ||| 9 <= n <= 13
            ||| n == 32 || n == 133 || n == 160 || n == 5760
            ||| 8192 <= n <= 8202
            ||| n == 8232 || n == 8233 || n == 8239 || n == 8287 || n == 12288
        },
        is_key_char(c) <==> {
            let n = c as int;
            65 <= n <= 90 || 97 <= n <= 122 || 48 <= n <= 57 || n == 95
        },
        is_close(c) <==> c as int == 93 || c as int == 125,
{
}

/// Unescaping takes out backslashes that stand directly before an apostrophe, and nothing else: an
/// escaped apostrophe becomes an apostrophe, any other character stays, and what comes before and
/// what comes behind a place are unescaped each for itself, unless an escape is cut in two there.
pub proof fn unescaping_goes_piece_by_piece(a: Seq<char>, b: Seq<char>, c: char)
    requires
        a.len() == 0 || a.last() != '\\' || b.len() == 0 || b[0] != '\'',
    ensures
        unescaped(a + b) == unescaped(a) + unescaped(b),
        unescaped(seq!['\\', '\'']) == seq!['\''],
        unescaped(seq![c]) == seq![c],
        unescaped(Seq::<char>::empty()) == Seq::<char>::empty(),
    decreases a.len(),
{
    let one = seq![c];
    assert(one.skip(1) =~= Seq::empty());
    assert(unescaped(one.skip(1)) =~= Seq::empty());
    assert(unescaped(one) =~= one);
    let pair = seq!['\\', '\''];
    assert(pair.skip(2) =~= Seq::empty());
    assert(unescaped(pair.skip(2)) =~= Seq::empty());
    assert(unescaped(pair) =~= seq!['\'']);
    if a.len() == 0 {
        assert(a + b =~= b);
        assert(unescaped(a) + unescaped(b) =~= unescaped(b));
    } else if begins_with_escape(a) {
        assert(begins_with_escape(a + b));
        assert((a + b).skip(2) =~= a.skip(2) + b);
        unescaping_goes_piece_by_piece(a.skip(2), b, c);
        assert(unescaped(a + b) =~= unescaped(a) + unescaped(b));
    } else {
        assert(!begins_with_escape(a + b)) by {
            if begins_with_escape(a + b) && a.len() == 1 {
                assert((a + b)[1] == b[0]);
            }
        }
        assert((a + b).skip(1) =~= a.skip(1) + b);
        if a.len() > 1 {
            assert(a.skip(1).last() == a.last());
        }
        unescaping_goes_piece_by_piece(a.skip(1), b, c);
        assert(unescaped(a + b) =~= unescaped(a) + unescaped(b));
    }
}

/// How many apostrophes are escaped.
pub open spec fn escapes(text: Seq<char>) -> nat
    decreases text.len(),
{
    if text.len() < 2 {
        0
    } else {
        escapes(text.drop_last()) + if text.last() == '\'' && text[text.len() - 2] == '\\' {
            1nat
        } else {
            0
        }
    }
}

/// Unescaping shortens a text by one character for each escaped apostrophe, and keeps all characters
/// but backslashes in their order.
pub proof fn unescaping_drops_one_character_for_each_escape(text: Seq<char>)
    ensures
        unescaped(text).len() + escapes(text) == text.len(),
        unescaped(text).filter(|c: char| c != '\\') == text.filter(|c: char| c != '\\'),
    decreases text.len(),
{
    let keep = |c: char| c != '\\';
    if text.len() < 2 {
        if text.len() == 1 {
            assert(text.skip(1) =~= Seq::empty());
            assert(unescaped(text.skip(1)) =~= Seq::empty());
        }
        assert(unescaped(text) =~= text);
    } else {
        let n = text.len() as int;
        let last = seq![text.last()];
        if text.last() == '\'' && text[n - 2] == '\\' {
            let before = text.take(n - 2);
            let pair = seq!['\\', '\''];
            assert(text =~= before + pair);
            unescaping_goes_piece_by_piece(before, pair, 'x');
            unescaping_drops_one_character_for_each_escape(before);
            assert(text.drop_last() =~= before.push('\\'));
            assert(before.push('\\').drop_last() =~= before);
            assert(escapes(before.push('\\')) == escapes(before)) by {
                if before.len() == 0 {
                    assert(escapes(before) == 0);
                }
            }
            Seq::filter_distributes_over_add(before, pair, keep);
            Seq::filter_distributes_over_add(unescaped(before), seq!['\''], keep);
            let (slash, quote) = (seq!['\\'], seq!['\'']);
            assert(pair =~= slash + quote);
            Seq::filter_distributes_over_add(slash, quote, keep);
            assert(slash.filter(keep) =~= Seq::empty()) by {
                reveal(Seq::filter);
                assert(slash.drop_last() =~= Seq::empty());
                assert(slash.drop_last().filter(keep) =~= Seq::empty());
            }
            assert(pair.filter(keep) =~= quote.filter(keep));
        } else {
            let before = text.drop_last();
            assert(text =~= before + last);
            unescaping_goes_piece_by_piece(before, last, text.last());
            unescaping_drops_one_character_for_each_escape(before);
            Seq::filter_distributes_over_add(before, last, keep);
            Seq::filter_distributes_over_add(unescaped(before), last, keep);
        }
    }
}

/// Dropping trailing commas, piece by piece: a comma goes, with the white space behind it, exactly
/// where a brace or a bracket follows that; every other character stays, and what comes behind a
/// piece is treated for itself.
pub proof fn dropping_goes_piece_by_piece(spaces: Seq<char>, c: char, tail: Seq<char>)
    requires
        forall|i: int| 0 <= i < spaces.len() ==> is_space(#[trigger] spaces[i]),
    ensures
        c == '}' || c == ']' ==> commas_dropped(seq![','] + spaces + seq![c] + tail) == seq![c]
            + commas_dropped(tail),
        c != '}' && c != ']' && !is_space(c) ==> commas_dropped(
            seq![','] + spaces + seq![c] + tail,
        ) == seq![','] + commas_dropped(spaces + seq![c] + tail),
        commas_dropped(seq![','] + spaces) == seq![','] + spaces,
        c != ',' ==> commas_dropped(seq![c] + tail) == seq![c] + commas_dropped(tail),
        commas_dropped(Seq::<char>::empty()) == Seq::<char>::empty(),
{
    let s = spaces.len() as int;
    let text = seq![','] + spaces + seq![c] + tail;
    assert forall|i: int| 1 <= i < 1 + s implies is_space(#[trigger] text[i]) by {
        assert(text[i] == spaces[i - 1]);
    }
    assert(text[1 + s] == c);
    if c == '}' || c == ']' {
        assert(is_trailing_of(text, s));
        trailing_is_unique(text, s);
        dropping_starts_at_a_close(text);
        trailing_has_a_shape(text);
        let n = space_run(text.skip(1)) as int;
        assert(n == s) by {
            if n < s {
                assert(is_space(text[1 + n]));
            } else if s < n {
                assert(is_space(text[1 + s]));
            }
        }
        assert(text.skip(1 + s).skip(1) =~= tail);
    } else if !is_space(c) {
        assert(!begins_with_trailing_comma(text)) by {
            if begins_with_trailing_comma(text) {
                trailing_has_a_shape(text);
                let n = space_run(text.skip(1)) as int;
                if n < s {
                    assert(is_space(text[1 + n]));
                } else if s < n {
                    assert(is_space(text[1 + s]));
                }
            }
        }
        assert(text.skip(1) =~= spaces + seq![c] + tail);
    }
    let open = seq![','] + spaces;
    assert(!begins_with_trailing_comma(open)) by {
        if begins_with_trailing_comma(open) {
            trailing_has_a_shape(open);
            let n = space_run(open.skip(1)) as int;
            assert(open[1 + n] == spaces[n]);
            assert(is_space(spaces[n]));
        }
    }
    assert(open.skip(1) =~= spaces);
    spaces_are_kept(spaces);
    if c != ',' {
        assert((seq![c] + tail).skip(1) =~= tail);
    }
}

proof fn spaces_are_kept(spaces: Seq<char>)
    requires
        forall|i: int| 0 <= i < spaces.len() ==> is_space(#[trigger] spaces[i]),
    ensures
        commas_dropped(spaces) == spaces,
    decreases spaces.len(),
{
    if spaces.len() > 0 {
        assert(is_space(spaces[0]));
        spaces_are_kept(spaces.skip(1));
        assert(seq![spaces[0]] + spaces.skip(1) =~= spaces);
    } else {
        assert(commas_dropped(spaces) =~= spaces);
    }
}

/// Quoting keys, piece by piece: a key that begins a line, behind white space or none and before a
/// colon, is put in quotes; every other character stays, and a line feed begins a new line.
pub proof fn quoting_goes_piece_by_piece(
    spaces: Seq<char>,
    key: Seq<char>,
    text: Seq<char>,
    line_start: bool,
)
    requires
        forall|i: int| 0 <= i < spaces.len() ==> is_space(#[trigger] spaces[i]),
        forall|i: int| 0 <= i < key.len() ==> is_key_char(#[trigger] key[i]),
        key.len() > 0,
    ensures
        keys_quoted(spaces + key + seq![':'] + text, true) == spaces + seq!['"'] + key + seq!['"', ':']
            + keys_quoted(text, false),
        text.len() > 0 && (!line_start || forall|w: int, k: int| !#[trigger] is_key_of(text, w, k))
            ==> keys_quoted(text, line_start) == seq![text[0]] + keys_quoted(
            text.skip(1),
            text[0] == '\n',
        ),
        keys_quoted(Seq::<char>::empty(), line_start) == Seq::<char>::empty(),
{
    let all = spaces + key + seq![':'] + text;
    let (w, k) = (spaces.len() as int, key.len() as int);
    assert forall|i: int| 0 <= i < w implies is_space(#[trigger] all[i]) by {
        assert(all[i] == spaces[i]);
    }
    assert forall|i: int| w <= i < w + k implies is_key_char(#[trigger] all[i]) by {
        assert(all[i] == key[i - w]);
    }
    assert(all[w + k] == ':');
    assert(is_key_of(all, w, k));
    key_is_unique(all, w, k);
    let w0 = space_run(all) as int;
    let k0 = key_run(all.skip(w0)) as int;
    key_has_a_shape(all);
    assert(w0 == w) by {
        if w0 < w {
            assert(is_space(all[w0]) && is_key_char(all[w0]));
        } else if w < w0 {
            assert(is_space(all[w]) && is_key_char(all[w]));
        }
    }
    assert(k0 == k) by {
        if k0 < k {
            assert(is_key_char(all[w + k0]));
        } else if k < k0 {
            assert(is_key_char(all[w + k]));
        }
    }
    assert(all.take(w) =~= spaces);
    assert(all.subrange(w, w + k) =~= key);
    assert(all.skip(w + k + 1) =~= text);
    if line_start && text.len() > 0 && begins_with_key(text) {
        key_has_a_shape(text);
    }
}

/// Normalising puts keys in quotes, then drops trailing commas, then unescapes apostrophes.
pub proof fn normalizing_goes_step_by_step(
    raw: Seq<char>,
    quoted: Seq<char>,
    closed: Seq<char>,
    json: Seq<char>,
)
    requires
        quoted == keys_quoted(raw, true),
        closed == commas_dropped(quoted),
        json == unescaped(closed),
    ensures
        normalized(raw) == json,
{
}

/// The characters of a text that normalising never touches: all but commas, quotation marks,
/// backslashes and white space.
pub open spec fn substance(text: Seq<char>) -> Seq<char> {
    text.filter(|c: char| c != ',' && c != '"' && c != '\\' && !is_space(c))
}

proof fn substance_is_additive(a: Seq<char>, b: Seq<char>)
    ensures
        substance(a + b) == substance(a) + substance(b),
{
    Seq::filter_distributes_over_add(
        a,
        b,
        |c: char| c != ',' && c != '"' && c != '\\' && !is_space(c),
    );
}

proof fn substance_of_one(c: char)
    ensures
        substance(seq![c]) == if c != ',' && c != '"' && c != '\\' && !is_space(c) {
            seq![c]
        } else {
            Seq::empty()
        },
{
    reveal(Seq::filter);
    let one = seq![c];
    assert(one.drop_last() =~= Seq::empty());
    assert(substance(one.drop_last()) =~= Seq::empty());
    assert(Seq::<char>::empty().push(c) =~= one);
}

proof fn spaces_have_no_substance(spaces: Seq<char>)
    requires
        forall|i: int| 0 <= i < spaces.len() ==> is_space(#[trigger] spaces[i]),
    ensures
        substance(spaces) == Seq::<char>::empty(),
    decreases spaces.len(),
{
    reveal(Seq::filter);
    if spaces.len() > 0 {
        spaces_have_no_substance(spaces.drop_last());
        assert(is_space(spaces.last()));
    }
}

#[verifier::rlimit(40)]
proof fn quoting_keeps_the_substance(text: Seq<char>, line_start: bool)
    ensures
        substance(keys_quoted(text, line_start)) == substance(text),
    decreases text.len(),
{
    let out = keys_quoted(text, line_start);
    if text.len() == 0 {
        assert(out =~= text);
    } else if line_start && begins_with_key(text) {
        key_has_a_shape(text);
        let w = space_run(text) as int;
        let k = key_run(text.skip(w)) as int;
        let (spaces, key, rest) = (text.take(w), text.subrange(w, w + k), text.skip(w + k + 1));
        let tail = keys_quoted(rest, false);
        quoting_keeps_the_substance(rest, false);
        substance_of_one('"');
        let (quote, colon) = (seq!['"'], seq![':']);
        assert(out =~= spaces + (quote + (key + (quote + (colon + tail)))));
        substance_is_additive(spaces, quote + (key + (quote + (colon + tail))));
        substance_is_additive(quote, key + (quote + (colon + tail)));
        substance_is_additive(key, quote + (colon + tail));
        substance_is_additive(quote, colon + tail);
        substance_is_additive(colon, tail);
        assert(text =~= spaces + (key + (colon + rest)));
        substance_is_additive(spaces, key + (colon + rest));
        substance_is_additive(key, colon + rest);
        substance_is_additive(colon, rest);
        let end = substance(colon) + substance(rest);
        assert(Seq::<char>::empty() + end =~= end);
        assert(Seq::<char>::empty() + (substance(key) + end) =~= substance(key) + end);
    } else {
        let rest = text.skip(1);
        quoting_keeps_the_substance(rest, text[0] == '\n');
        substance_is_additive(seq![text[0]], keys_quoted(rest, text[0] == '\n'));
        substance_is_additive(seq![text[0]], rest);
        assert(seq![text[0]] + rest =~= text);
    }
}

proof fn dropping_keeps_the_substance(text: Seq<char>)
    ensures
        substance(commas_dropped(text)) == substance(text),
    decreases text.len(),
{
    let out = commas_dropped(text);
    if text.len() == 0 {
        assert(out =~= text);
    } else if begins_with_trailing_comma(text) {
        dropping_starts_at_a_close(text);
        trailing_has_a_shape(text);
        let n = 1 + space_run(text.skip(1)) as int;
        let (comma, spaces, rest) = (seq![','], text.subrange(1, n), text.skip(n));
        dropping_keeps_the_substance(rest);
        assert(text =~= comma + (spaces + rest));
        substance_is_additive(comma, spaces + rest);
        substance_is_additive(spaces, rest);
        substance_of_one(',');
        spaces_have_no_substance(spaces);
        assert(Seq::<char>::empty() + substance(rest) =~= substance(rest));
    } else {
        let rest = text.skip(1);
        dropping_keeps_the_substance(rest);
        substance_is_additive(seq![text[0]], commas_dropped(rest));
        substance_is_additive(seq![text[0]], rest);
        assert(seq![text[0]] + rest =~= text);
    }
}

proof fn unescaping_keeps_the_substance(text: Seq<char>)
    ensures
        substance(unescaped(text)) == substance(text),
    decreases text.len(),
{
    let out = unescaped(text);
    if text.len() == 0 {
        assert(out =~= text);
    } else if begins_with_escape(text) {
        let (slash, quote, rest) = (seq!['\\'], seq!['\''], text.skip(2));
        unescaping_keeps_the_substance(rest);
        assert(text =~= slash + (quote + rest));
        substance_is_additive(slash, quote + rest);
        substance_is_additive(quote, rest);
        substance_is_additive(quote, unescaped(rest));
        substance_of_one('\\');
        assert(Seq::<char>::empty() + substance(quote + rest) =~= substance(quote + rest));
    } else {
        let rest = text.skip(1);
        unescaping_keeps_the_substance(rest);
        substance_is_additive(seq![text[0]], unescaped(rest));
        substance_is_additive(seq![text[0]], rest);
        assert(seq![text[0]] + rest =~= text);
    }
}

/// Normalising loses nothing of a list and adds nothing to it, but for commas, quotation marks,
/// backslashes and white space: all other characters come out in the order in which they went in.
pub proof fn normalizing_keeps_the_substance(raw: Seq<char>)
    ensures
        substance(normalized(raw)) == substance(raw),
{
    quoting_keeps_the_substance(raw, true);
    dropping_keeps_the_substance(keys_quoted(raw, true));
    unescaping_keeps_the_substance(commas_dropped(keys_quoted(raw, true)));
}

} // verus!
