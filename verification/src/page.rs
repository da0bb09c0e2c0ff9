//! Reading the list of files out of an album page.
//!
//! The page holds the list as a JavaScript literal. It is cut out, and its unquoted keys, trailing
//! commas and escaped apostrophes are turned into what JSON allows.
use crate::literal::{
    commas_dropped, has_comma_pair, has_double_escape, is_normal, is_space, keys_quoted,
    normal_text_is_left_alone, normalized, normalizing_is_stable, runs_are_maximal, space_run,
    unescaped,
};
use crate::model::{album_view, AlbumFile, UiUpdate, UiUpdateView};
use crate::text::{chars_of, contains_char, joined_text, option_view, result_view};
use vstd::prelude::*;

verus! {

/// The page that requests for an album name as their referrer.
pub const ALBUM_REFERER: &'static str = "https://bunkr.pk/";

/// Matches the assignment of the file list; the list itself is the first group.
pub const ALBUM_PATTERN: &'static str = r"window\.albumFiles\s*=\s*(\[[\s\S]*?\]);\s*\n";

/// Matches an unquoted key at the beginning of a line.
pub const KEY_PATTERN: &'static str = r"(?m)^(\s*)([A-Za-z0-9_]+):";

/// Puts the key in quotes.
pub const KEY_REPLACEMENT: &'static str = r#"$1"$2":"#;

/// Matches a comma before a closing bracket or brace, which is the first group.
pub const TRAILING_PATTERN: &'static str = r",\s*([}\]])";

/// Keeps the bracket or brace alone.
pub const TRAILING_REPLACEMENT: &'static str = "$1";

/// Whether a pattern goes with a replacement: that for keys, or that for trailing commas.
pub open spec fn is_rewriting(pattern: Seq<char>, replacement: Seq<char>) -> bool {
    ||| pattern == KEY_PATTERN@ && replacement == KEY_REPLACEMENT@
    ||| pattern == TRAILING_PATTERN@ && replacement == TRAILING_REPLACEMENT@
}

/// The address of the complete list of an album.
pub open spec fn with_advanced(url: Seq<char>) -> Seq<char> {
    if url.contains('?') {
        url + "&advanced=1"@
    } else {
        url + "?advanced=1"@
    }
}

/// Adds to the address of an album the parameter that asks for the complete list.
pub fn advanced_url(url: &str) -> (advanced: String)
    ensures
        advanced@ == with_advanced(url@),
{
    if contains_char(url, '?') {
        joined_text(url, "&advanced=1")
    } else {
        joined_text(url, "?advanced=1")
    }
}

/// Where the list opens if the text begins with its assignment: behind the name, an equals sign and
/// a bracket, with white space or none before each of the two.
pub open spec fn list_opening(text: Seq<char>) -> Option<int> {
    let name = "window.albumFiles"@;
    let equals = name.len() + space_run(text.skip(name.len() as int)) as int;
    let bracket = equals + 1 + space_run(text.skip(equals + 1)) as int;
    if name.is_prefix_of(text) && equals < text.len() && text[equals] == '=' && bracket < text.len()
        && text[bracket] == '[' {
        Some(bracket)
    } else {
        None
    }
}

/// Whether a list ends at `j`: with a bracket and a semicolon, and white space behind them in which
/// there is a line feed.
pub open spec fn ends_list(text: Seq<char>, j: int) -> bool {
    &&& 0 <= j
    &&& j + 1 < text.len()
    &&& text[j] == ']'
    &&& text[j + 1] == ';'
    &&& text.skip(j + 2).take(space_run(text.skip(j + 2)) as int).contains('\n')
}

/// The first place from `from` on at which a list ends.
pub open spec fn list_end(text: Seq<char>, from: int) -> Option<int>
    decreases text.len() - from,
{
    if from >= text.len() {
        None
    } else if ends_list(text, from) {
        Some(from)
    } else {
        list_end(text, from + 1)
    }
}

/// The list of files on an album page: that of the first assignment behind which a list ends, up to
/// the first such end.
pub open spec fn album_list(page: Seq<char>) -> Option<Seq<char>>
    decreases page.len(),
{
    if page.len() == 0 {
        None
    } else {
        match list_opening(page) {
            Some(open) => match list_end(page, open + 1) {
                Some(end) => Some(page.subrange(open, end + 1)),
                None => album_list(page.skip(1)),
            },
            None => album_list(page.skip(1)),
        }
    }
}

/// Whether `part` stands in `text` at position `i`.
pub open spec fn occurs_at(part: Seq<char>, text: Seq<char>, i: int) -> bool {
    0 <= i && i + part.len() <= text.len() && text.subrange(i, i + part.len()) == part
}

/// Whether `list` is a bracketed part of the page that comes after the name of the list.
pub open spec fn is_album_part(list: Seq<char>, page: Seq<char>) -> bool {
    &&& list.len() >= 2
    &&& list.first() == '['
    &&& list.last() == ']'
    &&& exists|i: int, j: int|
        {
            &&& #[trigger] occurs_at("window.albumFiles"@, page, i)
            &&& #[trigger] occurs_at(list, page, j)
            &&& i + "window.albumFiles"@.len() <= j
        }
}

/// Compiles the album pattern with `regex::Regex::new`, calls `regex::Regex::captures`, and takes
/// the first group. Assumed: the pattern is valid, its first group takes part in every match, and
/// the match is the leftmost one, with the list as short as it can be. Up to the bracket that opens
/// the list there is one way to match at a position, because white space is neither an equals sign
/// nor a bracket; from there on the list is extended up to the first bracket behind which a
/// semicolon, white space and a line feed can be matched.
#[verifier::external_body]
fn regex_capture(pattern: &str, text: &str) -> (group: Option<String>)
    requires
        pattern@ == ALBUM_PATTERN@,
    ensures
        option_view(group) == album_list(text@),
{
    regex::Regex::new(pattern).unwrap().captures(text).map(|caps| caps[1].to_string())
}

/// Compiles the pattern for keys or for trailing commas with `regex::Regex::new` and calls
/// `regex::Regex::replace_all` with the replacement that goes with it. Assumed: the patterns are
/// valid, and the result is the text with every match, from left to right, replaced. A match of the
/// first is a key behind the beginning of a line and white space, and puts the key in quotes. A
/// match of the second is a comma, white space and a closing bracket or brace, and keeps the last.
/// Of each there is at most one match at a position, because the classes in the patterns do not
/// overlap.
#[verifier::external_body]
fn regex_replace_all(pattern: &str, text: &str, replacement: &str) -> (replaced: String)
    requires
        is_rewriting(pattern@, replacement@),
    ensures
        pattern@ == KEY_PATTERN@ && replacement@ == KEY_REPLACEMENT@ ==> replaced@ == keys_quoted(
            text@,
            true,
        ),
        pattern@ == TRAILING_PATTERN@ && replacement@ == TRAILING_REPLACEMENT@ ==> replaced@
            == commas_dropped(text@),
{
    regex::Regex::new(pattern).unwrap().replace_all(text, replacement).into_owned()
}

/// Takes the backslashes before apostrophes out.
pub fn unescape_quotes(text: &str) -> (plain: String)
    ensures
        plain@ == unescaped(text@),
{
    let letters = chars_of(text);
    let mut plain = String::new();
    let mut i: usize = 0;
    assert(text@.skip(0) =~= text@);
    while i < letters.len()
        invariant
            i <= letters.len(),
            letters@ == text@,
            plain@ + unescaped(text@.skip(i as int)) == unescaped(text@),
        decreases letters.len() - i,
    {
        let ghost rest = text@.skip(i as int);
        let ghost before = plain@;
        if letters.len() - i >= 2 && letters[i] == '\\' && letters[i + 1] == '\'' {
            assert(rest.skip(2) =~= text@.skip(i + 2));
            plain.push('\'');
            assert(plain@ + unescaped(rest.skip(2)) =~= before + unescaped(rest));
            i += 2;
        } else {
            assert(rest.skip(1) =~= text@.skip(i + 1));
            plain.push(letters[i]);
            assert(plain@ + unescaped(rest.skip(1)) =~= before + unescaped(rest));
            i += 1;
        }
    }
    assert(plain@ + unescaped(text@.skip(i as int)) =~= plain@);
    plain
}

/// Turns a list that is written as a JavaScript literal into JSON. A list in which no key has to be
/// quoted, no comma to be dropped and no apostrophe to be unescaped is left as it is; and unless two
/// commas or two backslashes before an apostrophe stand together, the result is such a list.
pub fn normalize_album_json(raw: &str) -> (json: String)
    ensures
        json@ == normalized(raw@),
        is_normal(raw@) ==> json@ == raw@,
        !has_comma_pair(raw@) && !has_double_escape(raw@) ==> is_normal(json@),
{
    proof {
        if is_normal(raw@) {
            normal_text_is_left_alone(raw@);
        }
        if !has_comma_pair(raw@) && !has_double_escape(raw@) {
            normalizing_is_stable(raw@);
        }
    }
    let quoted = regex_replace_all(KEY_PATTERN, raw, KEY_REPLACEMENT);
    let closed = regex_replace_all(TRAILING_PATTERN, quoted.as_str(), TRAILING_REPLACEMENT);
    unescape_quotes(closed.as_str())
}

/// Cuts the list of files out of an album page.
pub fn find_album(html: &str) -> (list: Option<String>)
    ensures
        option_view(list) == album_list(html@),
        list is Some ==> is_album_part(list->0@, html@),
{
    proof {
        album_list_is_a_part_of_the_page(html@);
    }
    regex_capture(ALBUM_PATTERN, html)
}

/// The JSON form of a list that was cut out of a page, if there was one.
pub open spec fn album_text(list: Option<Seq<char>>) -> Result<Seq<char>, Seq<char>> {
    match list {
        Some(raw) => Ok(normalized(raw)),
        None => Err("Could not find album files in page. Check the URL."@),
    }
}

/// Turns the list that was cut out of a page into JSON.
pub fn album_json_of(list: Option<String>) -> (json: Result<String, String>)
    ensures
        result_view(json) == album_text(option_view(list)),
{
    match list {
        Some(raw) => Ok(normalize_album_json(raw.as_str())),
        None => Err("Could not find album files in page. Check the URL.".to_owned()),
    }
}

/// The list of files on an album page, as JSON.
pub fn album_json(html: &str) -> (json: Result<String, String>)
    ensures
        result_view(json) == album_text(album_list(html@)),
{
    album_json_of(find_album(html))
}

/// What can go wrong, besides a page without a list, while an album is fetched.
#[derive(Debug, Clone, Copy)]
pub enum FetchStage {
    /// The page could not be requested.
    Network,
    /// The page could not be read.
    Read,
    /// The list is not what was expected.
    Parse,
}

impl FetchStage {
    pub open spec fn label(self) -> Seq<char> {
        match self {
            FetchStage::Network => "Network error: "@,
            FetchStage::Read => "Read error: "@,
            FetchStage::Parse => "Parse error: "@,
        }
    }

    /// The message for a failure at this stage.
    pub fn error(&self, reason: &str) -> (message: String)
        ensures
            message@ == self.label() + reason@,
    {
        match self {
            FetchStage::Network => joined_text("Network error: ", reason),
            FetchStage::Read => joined_text("Read error: ", reason),
            FetchStage::Parse => joined_text("Parse error: ", reason),
        }
    }
}

/// The message to the window when fetching is over.
pub fn fetch_update(result: Result<Vec<AlbumFile>, String>) -> (update: UiUpdate)
    ensures
        update@ == match result {
            Ok(files) => UiUpdateView::AlbumFetched(album_view(files@)),
            Err(e) => UiUpdateView::FetchError(e@),
        },
{
    match result {
        Ok(files) => UiUpdate::AlbumFetched(files),
        Err(e) => UiUpdate::FetchError(e),
    }
}

/// Asking for the complete list keeps the address as it is and adds one parameter, behind a
/// question mark that is there already or is added with it.
pub proof fn advanced_url_extends_the_address(url: Seq<char>)
    ensures
        url.is_prefix_of(with_advanced(url)),
        with_advanced(url).contains('?'),
        with_advanced(url).len() == url.len() + 11,
{
    reveal_strlit("&advanced=1");
    reveal_strlit("?advanced=1");
    assert(url =~= with_advanced(url).subrange(0, url.len() as int));
    if url.contains('?') {
        let i = choose|i: int| 0 <= i < url.len() && url[i] == '?';
        assert(with_advanced(url)[i] == '?');
    } else {
        assert(with_advanced(url)[url.len() as int] == '?');
    }
}

/// Whether the assignment of a list stands at `i`, and a list ends `j` characters behind that.
pub open spec fn is_list_at(page: Seq<char>, i: int, j: int) -> bool {
    &&& 0 <= i <= page.len()
    &&& list_opening(page.skip(i)) matches Some(open) && open < j
    &&& ends_list(page.skip(i), j)
}

/// A list is found exactly where there is one: of all assignments behind which a list ends, the
/// first, and of all such ends behind it, the first.
pub proof fn first_list_is_found(page: Seq<char>)
    ensures
        match album_list(page) {
            Some(list) => exists|i: int, j: int|
                {
                    &&& #[trigger] is_list_at(page, i, j)
                    &&& list == page.skip(i).subrange(list_opening(page.skip(i))->0, j + 1)
                    &&& forall|k: int, l: int| #[trigger]
                        is_list_at(page, k, l) ==> i <= k && (k == i ==> j <= l)
                },
            None => forall|k: int, l: int| !#[trigger] is_list_at(page, k, l),
        },
    decreases page.len(),
{
    assert(page.skip(0) =~= page);
    if page.len() == 0 {
        assert forall|k: int, l: int| !#[trigger] is_list_at(page, k, l) by {
            if is_list_at(page, k, l) {
                assert(page.skip(k) =~= page);
            }
        }
    } else {
        let rest = page.skip(1);
        first_list_is_found(rest);
        let open = list_opening(page);
        if open is Some {
            first_end_is_found(page, open->0 + 1);
        }
        if open is Some && list_end(page, open->0 + 1) is Some {
            let end = list_end(page, open->0 + 1)->0;
            assert(is_list_at(page, 0, end));
        } else {
            assert forall|k: int, l: int| #[trigger] is_list_at(page, k, l) implies k > 0
                && is_list_at(rest, k - 1, l) by {
                assert(k > 0);
                assert(rest.skip(k - 1) =~= page.skip(k));
            }
            if album_list(rest) is Some {
                let list = album_list(rest)->0;
                let (i, j) = choose|i: int, j: int|
                    {
                        &&& #[trigger] is_list_at(rest, i, j)
                        &&& list == rest.skip(i).subrange(list_opening(rest.skip(i))->0, j + 1)
                        &&& forall|k: int, l: int| #[trigger]
                            is_list_at(rest, k, l) ==> i <= k && (k == i ==> j <= l)
                    };
                assert(rest.skip(i) =~= page.skip(i + 1));
                assert(is_list_at(page, i + 1, j));
                assert forall|k: int, l: int| #[trigger] is_list_at(page, k, l) implies i + 1 <= k
                    && (k == i + 1 ==> j <= l) by {
                    assert(is_list_at(rest, k - 1, l));
                }
            }
        }
    }
}

proof fn first_end_is_found(text: Seq<char>, from: int)
    requires
        0 <= from,
    ensures
        match list_end(text, from) {
            Some(end) => from <= end && ends_list(text, end) && forall|l: int|
                from <= l < end ==> !#[trigger] ends_list(text, l),
            None => forall|l: int| from <= l ==> !#[trigger] ends_list(text, l),
        },
    decreases text.len() - from,
{
    if from < text.len() && !ends_list(text, from) {
        first_end_is_found(text, from + 1);
    }
}

/// What is found is a part of the page, in square brackets, behind the name of the list.
pub proof fn album_list_is_a_part_of_the_page(page: Seq<char>)
    ensures
        album_list(page) matches Some(list) ==> is_album_part(list, page),
    decreases page.len(),
{
    if page.len() > 0 && album_list(page) is Some {
        let name = "window.albumFiles"@;
        let list = album_list(page)->0;
        let open = list_opening(page);
        if open is Some {
            first_end_is_found(page, open->0 + 1);
        }
        if open is Some && list_end(page, open->0 + 1) is Some {
            assert(occurs_at(name, page, 0));
            assert(occurs_at(list, page, open->0));
        } else {
            let rest = page.skip(1);
            album_list_is_a_part_of_the_page(rest);
            let (i, j) = choose|i: int, j: int|
                {
                    &&& #[trigger] occurs_at(name, rest, i)
                    &&& #[trigger] occurs_at(list, rest, j)
                    &&& i + name.len() <= j
                };
            assert(page.subrange(i + 1, i + 1 + name.len()) =~= rest.subrange(i, i + name.len()));
            assert(page.subrange(j + 1, j + 1 + list.len()) =~= rest.subrange(j, j + list.len()));
            assert(occurs_at(name, page, i + 1));
            assert(occurs_at(list, page, j + 1));
        }
    }
}

/// The parameter that is added is `advanced=1`, behind an ampersand where the address has a question
/// mark already, and else behind a question mark; nothing else is added.
pub proof fn complete_list_is_asked_for_by_a_parameter(url: Seq<char>)
    ensures
        with_advanced(url) == url + seq![
            if exists|k: int| 0 <= k < url.len() && url[k] == '?' {
                '&'
            } else {
                '?'
            },
        ] + "advanced=1"@,
{
    reveal_strlit("&advanced=1");
    reveal_strlit("?advanced=1");
    reveal_strlit("advanced=1");
    assert("&advanced=1"@ =~= seq!['&'] + "advanced=1"@);
    assert("?advanced=1"@ =~= seq!['?'] + "advanced=1"@);
    if url.contains('?') {
        let k = choose|k: int| 0 <= k < url.len() && url[k] == '?';
        assert(url[k] == '?');
        assert(with_advanced(url) =~= url + seq!['&'] + "advanced=1"@);
    } else {
        assert forall|k: int| 0 <= k < url.len() implies url[k] != '?' by {
            if url[k] == '?' {
                assert(url.contains('?'));
            }
        }
        assert(with_advanced(url) =~= url + seq!['?'] + "advanced=1"@);
    }
}

/// What an assignment looks like: the name, white space or none, an equals sign, white space or
/// none, and the bracket that opens the list.
pub proof fn assignment_of_a_list(before: Seq<char>, behind: Seq<char>, rest: Seq<char>)
    requires
        forall|i: int| 0 <= i < before.len() ==> is_space(#[trigger] before[i]),
        forall|i: int| 0 <= i < behind.len() ==> is_space(#[trigger] behind[i]),
    ensures
        list_opening("window.albumFiles"@ + before + seq!['='] + behind + seq!['['] + rest) == Some(
            17 + before.len() as int + 1 + behind.len(),
        ),
{
    reveal_strlit("window.albumFiles");
    let name = "window.albumFiles"@;
    let text = name + before + seq!['='] + behind + seq!['['] + rest;
    let a = 17 + before.len() as int;
    run_ends_at(text.skip(17), before.len() as int, before);
    assert(text[a] == '=');
    assert(text.skip(17)[before.len() as int] == '=');
    run_ends_at(text.skip(a + 1), behind.len() as int, behind);
    assert(name =~= text.subrange(0, 17));
}

/// A text in which a list opens has that look.
pub proof fn list_opens_behind_its_assignment(text: Seq<char>)
    ensures
        list_opening(text) matches Some(open) ==> {
            &&& 18 <= open < text.len()
            &&& text[open] == '['
            &&& text.take(17) == "window.albumFiles"@
            &&& exists|e: int|
                {
                    &&& 17 <= e < open
                    &&& #[trigger] text[e] == '='
                    &&& forall|i: int| 17 <= i < e ==> is_space(#[trigger] text[i])
                    &&& forall|i: int| e < i < open ==> is_space(#[trigger] text[i])
                }
        },
{
    reveal_strlit("window.albumFiles");
    if list_opening(text) is Some {
        let open = list_opening(text)->0;
        let e = 17 + space_run(text.skip(17)) as int;
        runs_are_maximal(text.skip(17));
        runs_are_maximal(text.skip(e + 1));
        assert(text.take(17) =~= "window.albumFiles"@) by {
            assert("window.albumFiles"@ =~= text.subrange(0, 17));
        }
        assert forall|i: int| 17 <= i < e implies is_space(#[trigger] text[i]) by {
            assert(text[i] == text.skip(17)[i - 17]);
        }
        assert forall|i: int| e < i < open implies is_space(#[trigger] text[i]) by {
            assert(text[i] == text.skip(e + 1)[i - e - 1]);
        }
        assert(text[e] == '=');
    }
}

proof fn run_ends_at(text: Seq<char>, n: int, spaces: Seq<char>)
    requires
        0 <= n < text.len(),
        spaces.len() == n,
        forall|i: int| 0 <= i < n ==> #[trigger] text[i] == spaces[i],
        forall|i: int| 0 <= i < n ==> is_space(#[trigger] spaces[i]),
        !is_space(text[n]),
    ensures
        space_run(text) == n,
{
    runs_are_maximal(text);
    let r = space_run(text) as int;
    if r < n {
        assert(is_space(spaces[r]));
        assert(text[r] == spaces[r]);
    } else if n < r {
        assert(is_space(text[n]));
    }
}

/// A list ends at a bracket that a semicolon and a line feed follow, with nothing but white space
/// between those two.
pub proof fn list_ends_before_a_line_feed(text: Seq<char>, j: int)
    ensures
        ends_list(text, j) <==> 0 <= j && j + 1 < text.len() && text[j] == ']' && text[j + 1] == ';'
            && exists|k: int|
            {
                &&& j + 2 <= k < text.len()
                &&& #[trigger] text[k] == '\n'
                &&& forall|i: int| j + 2 <= i < k ==> is_space(#[trigger] text[i])
            },
{
    if 0 <= j && j + 1 < text.len() {
        let tail = text.skip(j + 2);
        let n = space_run(tail) as int;
        let run = tail.take(n);
        runs_are_maximal(tail);
        if run.contains('\n') {
            let m = choose|m: int| 0 <= m < run.len() && run[m] == '\n';
            assert(text[j + 2 + m] == '\n');
            assert forall|i: int| j + 2 <= i < j + 2 + m implies is_space(#[trigger] text[i]) by {
                assert(text[i] == tail[i - j - 2]);
            }
        }
        if exists|k: int|
            {
                &&& j + 2 <= k < text.len()
                &&& #[trigger] text[k] == '\n'
                &&& forall|i: int| j + 2 <= i < k ==> is_space(#[trigger] text[i])
            } {
            let k = choose|k: int|
                {
                    &&& j + 2 <= k < text.len()
                    &&& #[trigger] text[k] == '\n'
                    &&& forall|i: int| j + 2 <= i < k ==> is_space(#[trigger] text[i])
                };
            let m = k - j - 2;
            if n <= m {
                assert(tail[n] == text[j + 2 + n]);
                if n < m {
                    assert(is_space(text[j + 2 + n]));
                }
            }
            assert(run[m] == '\n');
        }
    }
}

/// A list that was found is normalised, and a page without one is refused.
pub proof fn found_list_becomes_json(raw: Seq<char>)
    ensures
        album_text(Some(raw)) == Ok::<Seq<char>, Seq<char>>(normalized(raw)),
        album_text(None) == Err::<Seq<char>, Seq<char>>(
            "Could not find album files in page. Check the URL."@,
        ),
{
}

/// The stages at which fetching fails are told apart by the words that the message begins with.
pub proof fn failed_stages_are_told_apart(reason: Seq<char>)
    ensures
        FetchStage::Network.label() + reason == "Network error: "@ + reason,
        FetchStage::Read.label() + reason == "Read error: "@ + reason,
        FetchStage::Parse.label() + reason == "Parse error: "@ + reason,
{
}

} // verus!
