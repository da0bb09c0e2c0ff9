use bunkr_dl::model::{AlbumFile, UiUpdate};
use bunkr_dl::page::{
    advanced_url, album_json, album_json_of, fetch_update, find_album, normalize_album_json,
    unescape_quotes, FetchStage, ALBUM_PATTERN, KEY_PATTERN, KEY_REPLACEMENT, TRAILING_PATTERN,
    TRAILING_REPLACEMENT,
};

const PAGE: &str = "<script>\nwindow.albumFiles = [\n{\n  id: 7,\n  original: \"it\\'s, [a].jpg\",\n  size: 12,\n},\n];\n</script>\n";

#[test]
fn advanced_parameter_is_added() {
    assert_eq!(advanced_url("https://bunkr.pk/a/x"), "https://bunkr.pk/a/x?advanced=1");
    assert_eq!(advanced_url("https://bunkr.pk/a/x?p=2"), "https://bunkr.pk/a/x?p=2&advanced=1");
    assert_eq!(advanced_url(""), "?advanced=1");
    assert_eq!(advanced_url("?"), "?&advanced=1");
}

#[test]
fn keys_are_quoted_and_trailing_commas_dropped() {
    let raw = "[\n  {\n    id: 1,\n    name_2: \"a:b\",\n  },\n]";
    let json = normalize_album_json(raw);
    assert_eq!(json, "[\n  {\n    \"id\": 1,\n    \"name_2\": \"a:b\"}]");
    let value: serde_json::Value = serde_json::from_str(&json).unwrap();
    assert_eq!(value[0]["id"].as_u64(), Some(1));
    assert_eq!(value[0]["name_2"].as_str(), Some("a:b"));
}

#[test]
fn only_keys_at_the_beginning_of_a_line_are_quoted() {
    assert_eq!(normalize_album_json("{ id: 1 }"), "{ id: 1 }");
    assert_eq!(normalize_album_json("id: 1"), "\"id\": 1");
    assert_eq!(normalize_album_json("\n\n\t id: 1, x: 2"), "\n\n\t \"id\": 1, x: 2");
}

#[test]
fn proper_json_is_left_alone() {
    let json = "[{\"id\": 1, \"original\": \"a.jpg\"}]";
    assert_eq!(normalize_album_json(json), json);
    assert_eq!(normalize_album_json(""), "");
}

#[test]
fn white_space_of_every_kind_is_passed_over() {
    assert_eq!(normalize_album_json("\u{a0}\u{3000}id:"), "\u{a0}\u{3000}\"id\":");
    assert_eq!(normalize_album_json("\u{200b}id:"), "\u{200b}id:");
    assert_eq!(normalize_album_json("[1,\u{2028}\u{b}]"), "[1]");
    assert_eq!(normalize_album_json("x\rid: 1"), "x\rid: 1");
    assert_eq!(normalize_album_json("x\r\nid: 1"), "x\r\n\"id\": 1");
}

#[test]
fn edges_of_keys_and_commas() {
    assert_eq!(normalize_album_json("a:b:c"), "\"a\":b:c");
    assert_eq!(normalize_album_json("a :"), "a :");
    assert_eq!(normalize_album_json(":"), ":");
    assert_eq!(normalize_album_json("é:\nA_9:"), "é:\n\"A_9\":");
    assert_eq!(normalize_album_json("a:\nb:\n\nc:"), "\"a\":\n\"b\":\n\n\"c\":");
    assert_eq!(normalize_album_json(",},]"), "}]");
    assert_eq!(normalize_album_json("[1, , ]"), "[1, ]");
    assert_eq!(normalize_album_json(", 1]"), ", 1]");
}

#[test]
fn normalising_twice_is_normalising_once() {
    let lists = [
        "[\n  {\n    id: 1,\n    name_2: \"it\\'s\",\n  },\n]",
        "a: 1,\n}\nb: 2",
        "x,\n\n  ]\n  key:\\'",
        "\\ ' \\n \\'\\'",
        "",
    ];
    for raw in lists {
        let once = normalize_album_json(raw);
        assert_eq!(normalize_album_json(&once), once);
    }
    // Two commas, or two backslashes before an apostrophe, take a second time.
    assert_eq!(normalize_album_json("[,,]"), "[,]");
    assert_eq!(normalize_album_json("[,]"), "[]");
    assert_eq!(normalize_album_json("\\\\'"), "\\'");
    assert_eq!(normalize_album_json("\\'"), "'");
}

#[test]
fn apostrophes_are_unescaped() {
    assert_eq!(unescape_quotes("it\\'s"), "it's");
    assert_eq!(unescape_quotes("\\'\\'"), "''");
    assert_eq!(unescape_quotes("\\\\'"), "\\'");
    assert_eq!(unescape_quotes("plain \\ \" '"), "plain \\ \" '");
    assert_eq!(unescape_quotes("\\"), "\\");
    for text in ["", "'", "\\'x\\", "a\\\\'b\\'", "é\\'é"] {
        assert_eq!(unescape_quotes(text), text.replace("\\'", "'"));
    }
}

#[test]
fn list_is_cut_out_of_the_page() {
    let list = find_album(PAGE).unwrap();
    assert!(list.starts_with('[') && list.ends_with(']'));
    assert!(PAGE.contains(&list));
    assert_eq!(
        list,
        "[\n{\n  id: 7,\n  original: \"it\\'s, [a].jpg\",\n  size: 12,\n},\n]"
    );
}

#[test]
fn list_ends_at_the_first_closing_line() {
    let page = "window.albumFiles=[1];\nwindow.albumFiles = [2];\n";
    assert_eq!(find_album(page), Some("[1]".to_string()));
    assert_eq!(find_album("window.albumFiles = [1]"), None);
    assert_eq!(find_album("window.albumFiles = [1];"), None);
    assert_eq!(find_album("albumFiles = [1];\n"), None);
}

#[test]
fn album_becomes_json() {
    let json = album_json(PAGE).unwrap();
    let value: serde_json::Value = serde_json::from_str(&json).unwrap();
    assert_eq!(value[0]["id"].as_u64(), Some(7));
    assert_eq!(value[0]["original"].as_str(), Some("it's, [a].jpg"));
    assert_eq!(value[0]["size"].as_u64(), Some(12));
}

#[test]
fn page_without_a_list_is_refused() {
    let message = "Could not find album files in page. Check the URL.".to_string();
    assert_eq!(album_json("<html></html>"), Err(message.clone()));
    assert_eq!(album_json_of(None), Err(message));
    assert_eq!(album_json_of(Some("[\n a: 1,\n]".to_string())), Ok("[\n \"a\": 1]".to_string()));
}

#[test]
fn fetch_errors_name_their_stage() {
    assert_eq!(FetchStage::Network.error("x"), "Network error: x");
    assert_eq!(FetchStage::Read.error("x"), "Read error: x");
    assert_eq!(FetchStage::Parse.error("x"), "Parse error: x");
}

#[test]
fn fetching_ends_with_one_message() {
    match fetch_update(Err("no".to_string())) {
        UiUpdate::FetchError(e) => assert_eq!(e, "no"),
        other => panic!("{:?}", other),
    }
    let file = AlbumFile {
        id: 3,
        original: "a.jpg".to_string(),
        size: 5,
        timestamp: String::new(),
        extension: ".jpg".to_string(),
    };
    match fetch_update(Ok(vec![file])) {
        UiUpdate::AlbumFetched(files) => {
            assert_eq!(files.len(), 1);
            assert_eq!(files[0].id, 3);
            assert_eq!(files[0].original, "a.jpg");
        }
        other => panic!("{:?}", other),
    }
}

fn run_of(text: &[char], belongs: fn(char) -> bool) -> usize {
    text.iter().take_while(|c| belongs(**c)).count()
}

fn is_key_char(c: char) -> bool {
    c.is_ascii_alphanumeric() || c == '_'
}

/// Every unquoted key at the beginning of a line in quotes, one character after the other.
fn keys_quoted(text: &[char]) -> String {
    let mut out = String::new();
    let mut line_start = true;
    let mut i = 0;
    while i < text.len() {
        let w = run_of(&text[i..], char::is_whitespace);
        let k = run_of(&text[i + w..], is_key_char);
        if line_start && k > 0 && text.get(i + w + k) == Some(&':') {
            out.extend(&text[i..i + w]);
            out.push('"');
            out.extend(&text[i + w..i + w + k]);
            out.push_str("\":");
            i += w + k + 1;
            line_start = false;
        } else {
            out.push(text[i]);
            line_start = text[i] == '\n';
            i += 1;
        }
    }
    out
}

/// Every comma before a closing bracket or brace taken out, one character after the other.
fn commas_dropped(text: &[char]) -> String {
    let mut out = String::new();
    let mut i = 0;
    while i < text.len() {
        let s = run_of(&text[i + 1..], char::is_whitespace);
        if text[i] == ',' && matches!(text.get(i + 1 + s), Some(&'}') | Some(&']')) {
            i += 1 + s;
        } else {
            out.push(text[i]);
            i += 1;
        }
    }
    out
}

fn texts(alphabet: &[char], longest: usize) -> Vec<Vec<char>> {
    let mut all = vec![Vec::new()];
    let mut from = 0;
    for _ in 0..longest {
        let to = all.len();
        for i in from..to {
            for c in alphabet {
                let mut longer: Vec<char> = all[i].clone();
                longer.push(*c);
                all.push(longer);
            }
        }
        from = to;
    }
    all
}

#[test]
fn patterns_match_what_they_are_said_to_match() {
    let keys = regex::Regex::new(KEY_PATTERN).unwrap();
    for text in texts(&['a', '_', ':', ' ', '\n', '"', '\u{85}'], 6) {
        let plain: String = text.iter().collect();
        assert_eq!(keys.replace_all(&plain, KEY_REPLACEMENT), keys_quoted(&text));
    }
    let trailing = regex::Regex::new(TRAILING_PATTERN).unwrap();
    for text in texts(&[',', ']', '}', ' ', '\n', 'x'], 6) {
        let plain: String = text.iter().collect();
        assert_eq!(trailing.replace_all(&plain, TRAILING_REPLACEMENT), commas_dropped(&text));
    }
}

#[test]
fn short_lists_are_normalised_as_stated() {
    for text in texts(&['a', ':', ',', ']', '\n', '\\', '\''], 3) {
        let plain: String = text.iter().collect();
        let quoted: Vec<char> = keys_quoted(&text).chars().collect();
        let expected = commas_dropped(&quoted).replace("\\'", "'");
        assert_eq!(normalize_album_json(&plain), expected);
    }
}

/// The list of the first assignment behind which a list ends, up to the first such end.
fn album_list(page: &[char]) -> Option<String> {
    let name: Vec<char> = "window.albumFiles".chars().collect();
    for i in 0..page.len() {
        let text = &page[i..];
        if !text.starts_with(&name) {
            continue;
        }
        let equals = name.len() + run_of(&text[name.len()..], char::is_whitespace);
        if text.get(equals) != Some(&'=') {
            continue;
        }
        let open = equals + 1 + run_of(&text[equals + 1..], char::is_whitespace);
        if text.get(open) != Some(&'[') {
            continue;
        }
        for j in open + 1..text.len() {
            if text[j] == ']' && text.get(j + 1) == Some(&';') {
                let spaces = run_of(&text[j + 2..], char::is_whitespace);
                if text[j + 2..j + 2 + spaces].contains(&'\n') {
                    return Some(text[open..j + 1].iter().collect());
                }
            }
        }
    }
    None
}

#[test]
fn album_pattern_captures_what_it_is_said_to_capture() {
    let album = regex::Regex::new(ALBUM_PATTERN).unwrap();
    let captured = |page: &str| album.captures(page).map(|caps| caps[1].to_string());
    for text in texts(&['[', ']', ';', '\n', ' ', 'x'], 6) {
        let rest: String = text.iter().collect();
        let page = format!("window.albumFiles=[{}", rest);
        assert_eq!(captured(&page), album_list(&page.chars().collect::<Vec<char>>()));
    }
    // Each letter stands for a whole piece here.
    for text in texts(&['n', '=', '[', 'e', ' ', '\u{a0}'], 6) {
        let page: String = text
            .iter()
            .map(|c| match c {
                'n' => "window.albumFiles".to_string(),
                'e' => "];\r\n".to_string(),
                other => other.to_string(),
            })
            .collect();
        assert_eq!(captured(&page), album_list(&page.chars().collect::<Vec<char>>()));
    }
}

#[test]
fn first_list_is_found() {
    assert_eq!(find_album("window.albumFiles = [a]; \t\n]; \n"), Some("[a]".to_string()));
    assert_eq!(find_album("window.albumFiles=[a]; x\n];\n"), Some("[a]; x\n]".to_string()));
    assert_eq!(find_album("window.albumFiles\n=\n[];\n"), Some("[]".to_string()));
    assert_eq!(find_album("window.albumFiles = x;\nwindow.albumFiles=[b];\n"), Some("[b]".to_string()));
    assert_eq!(find_album("window_albumFiles=[a];\n"), None);
    assert_eq!(find_album("window.albumFiles=[a] ;\n"), None);
    assert_eq!(find_album("window.albumFiles=[a];  "), None);
    assert_eq!(find_album("window.albumFiles=];\n"), None);
    assert_eq!(find_album(""), None);
}
