//! File and directory names.
use crate::text::{chars_of, option_view};
use vstd::prelude::*;

verus! {

/// Whether a character may not stand in a file name on some system.
pub open spec fn is_reserved(c: char) -> bool {
    c == '/' || c == '\\' || c == ':' || c == '*' || c == '?' || c == '"' || c == '<' || c == '>'
        || c == '|'
}

/// What stands for `c` in a file name.
pub open spec fn replaced_char(c: char) -> char {
    if is_reserved(c) {
        '_'
    } else {
        c
    }
}

/// A name with every reserved character replaced by an underscore.
pub open spec fn sanitized(name: Seq<char>) -> Seq<char> {
    name.map_values(|c: char| replaced_char(c))
}

/// Replaces every character of a name that is reserved on some system, separators of paths among
/// them. The names that are empty, `.` or `..` hold none and are kept.
pub fn sanitize_filename(name: &str) -> (clean: String)
    ensures
        clean@ == sanitized(name@),
{
    let mut clean = String::new();
    for c in it: name.chars()
        invariant
            it.seq() == name@,
            clean@ == sanitized(name@.take(it.index() as int)),
    {
        let ghost n = it.index() as int;
        assert(sanitized(name@.take(n + 1)) =~= sanitized(name@.take(n)).push(replaced_char(name@[n])));
        match c {
            '/' | '\\' | ':' | '*' | '?' | '"' | '<' | '>' | '|' => clean.push('_'),
            _ => clean.push(c),
        }
    }
    assert(name@.take(name@.len() as int) =~= name@);
    clean
}

/// Replacing keeps the length of a name, leaves no reserved character, and has no effect a second
/// time. A name without reserved characters is not changed.
pub proof fn sanitizing_is_stable(name: Seq<char>)
    ensures
        sanitized(name).len() == name.len(),
        forall|i: int| 0 <= i < name.len() ==> !is_reserved(#[trigger] sanitized(name)[i]),
        sanitized(sanitized(name)) == sanitized(name),
        (forall|i: int| 0 <= i < name.len() ==> !is_reserved(#[trigger] name[i])) ==> sanitized(name)
            == name,
{
    assert(sanitized(sanitized(name)) =~= sanitized(name));
    if forall|i: int| 0 <= i < name.len() ==> !is_reserved(#[trigger] name[i]) {
        assert(sanitized(name) =~= name);
    }
}

/// Whether `c` separates the parts of a path, where `separator` is the main separator. A slash
/// always does, except in a verbatim path.
pub open spec fn is_separator(c: char, separator: char) -> bool {
    c == separator || c == '/'
}

/// Whether `c` is the letter of a drive.
pub open spec fn is_drive_letter(c: char) -> bool {
    ('a' <= c <= 'z') || ('A' <= c <= 'Z')
}

/// Whether `base` is a bare drive, such as `C:`, where the backslash separates.
pub open spec fn is_bare_drive(base: Seq<char>, separator: char) -> bool {
    separator == '\\' && base.len() == 2 && base[1] == ':' && is_drive_letter(base[0])
}

/// Whether `base` is a verbatim path, which begins with `\\?\`, where the backslash separates.
pub open spec fn is_verbatim(base: Seq<char>, separator: char) -> bool {
    separator == '\\' && base.len() >= 4 && base[0] == '\\' && base[1] == '\\' && base[2] == '?'
        && base[3] == '\\'
}

/// Where the part of a verbatim path that begins at `i` ends: at the next backslash, or at the end.
pub open spec fn part_end(base: Seq<char>, i: int) -> int
    decreases base.len() - i,
{
    if i < 0 || i >= base.len() || base[i] == '\\' {
        i
    } else {
        part_end(base, i + 1)
    }
}

/// Whether a verbatim path names a server and a share: `UNC` follows the beginning.
pub open spec fn is_verbatim_share(base: Seq<char>) -> bool {
    base.len() >= 8 && base[4] == 'U' && base[5] == 'N' && base[6] == 'C' && is_separator(
        base[7],
        '\\',
    )
}

/// Whether a verbatim path names a drive, and no more in that part.
pub open spec fn is_verbatim_drive(base: Seq<char>) -> bool {
    base.len() >= 6 && is_drive_letter(base[4]) && base[5] == ':' && (base.len() == 6
        || is_separator(base[6], '\\'))
}

/// Where the prefix of a verbatim path ends: behind the server and the share, the drive, or the
/// first part.
pub open spec fn verbatim_prefix(base: Seq<char>) -> int {
    if is_verbatim_share(base) {
        let server = part_end(base, 8);
        let share = part_end(base, server + 1);
        if server + 1 < share {
            share
        } else {
            server
        }
    } else if is_verbatim_drive(base) {
        6
    } else {
        part_end(base, 4)
    }
}

/// The text with runs of backslashes made one, and none at the beginning.
pub open spec fn squeezed(text: Seq<char>) -> Seq<char>
    decreases text.len(),
{
    if text.len() == 0 {
        Seq::empty()
    } else {
        let before = squeezed(text.drop_last());
        if text.last() == '\\' && (before.len() == 0 || before.last() == '\\') {
            before
        } else {
            before.push(text.last())
        }
    }
}

/// A verbatim path taken apart and put together again, to be followed by a name: the prefix, and
/// the parts behind it, each closed by one backslash.
pub open spec fn rebuilt(base: Seq<char>) -> Seq<char> {
    let p = verbatim_prefix(base);
    let parts = if p < base.len() {
        base.skip(p + 1)
    } else {
        Seq::empty()
    };
    base.take(p).push('\\') + squeezed(parts.push('\\'))
}

/// The path of `name` inside the directory `base`: a separator comes between the two unless
/// `base` is empty, ends in one, or is a bare drive. A verbatim path is rebuilt from its parts.
pub open spec fn joined(base: Seq<char>, separator: char, name: Seq<char>) -> Seq<char> {
    if is_verbatim(base, separator) {
        rebuilt(base) + name
    } else if base.len() == 0 || is_separator(base.last(), separator) || is_bare_drive(
        base,
        separator,
    ) {
        base + name
    } else {
        base.push(separator) + name
    }
}

/// The home directory: what `HOME` says, else what `USERPROFILE` says, else the current one.
pub open spec fn home_dir(home: Option<Seq<char>>, user_profile: Option<Seq<char>>) -> Seq<char> {
    match home {
        Some(dir) => dir,
        None => match user_profile {
            Some(dir) => dir,
            None => "."@,
        },
    }
}

fn find_part_end(letters: &Vec<char>, from: usize) -> (end: usize)
    requires
        from <= letters.len(),
    ensures
        end == part_end(letters@, from as int),
        from <= end <= letters.len(),
{
    let mut end: usize = from;
    while end < letters.len() && letters[end] != '\\'
        invariant
            from <= end <= letters.len(),
            part_end(letters@, end as int) == part_end(letters@, from as int),
        decreases letters.len() - end,
    {
        end += 1;
    }
    end
}

fn find_verbatim_prefix(letters: &Vec<char>) -> (p: usize)
    requires
        is_verbatim(letters@, '\\'),
    ensures
        p == verbatim_prefix(letters@),
        4 <= p <= letters.len(),
{
    let n: usize = letters.len();
    if n >= 8 && letters[4] == 'U' && letters[5] == 'N' && letters[6] == 'C' && (letters[7] == '\\'
        || letters[7] == '/') {
        let server: usize = find_part_end(letters, 8);
        if server < n {
            let share: usize = find_part_end(letters, server + 1);
            if server + 1 < share {
                return share;
            }
        }
        server
    } else if n >= 6 && (('a' <= letters[4] && letters[4] <= 'z') || ('A' <= letters[4]
        && letters[4] <= 'Z')) && letters[5] == ':' && (n == 6 || letters[6] == '\\' || letters[6]
        == '/') {
        6
    } else {
        find_part_end(letters, 4)
    }
}

fn rebuild(letters: &Vec<char>) -> (path: String)
    requires
        is_verbatim(letters@, '\\'),
    ensures
        path@ == rebuilt(letters@),
{
    let p: usize = find_verbatim_prefix(letters);
    let mut path = String::new();
    let mut i: usize = 0;
    while i < p
        invariant
            i <= p <= letters.len(),
            path@ == letters@.take(i as int),
        decreases p - i,
    {
        path.push(letters[i]);
        i += 1;
        assert(path@ =~= letters@.take(i as int));
    }
    path.push('\\');
    let ghost prefix = path@;
    let ghost parts = if p < letters@.len() {
        letters@.skip(p + 1)
    } else {
        Seq::empty()
    };
    let mut open = false;
    let mut k: usize = if p < letters.len() {
        p + 1
    } else {
        p
    };
    let ghost start = k as int;
    assert(parts =~= letters@.skip(start));
    assert(parts.take(0) =~= Seq::empty());
    assert(squeezed(parts.take(0)) =~= Seq::empty());
    assert(path@ =~= prefix + squeezed(parts.take(0)));
    while k < letters.len()
        invariant
            0 <= start <= k <= letters.len(),
            parts == letters@.skip(start),
            path@ == prefix + squeezed(parts.take(k - start)),
            open == (squeezed(parts.take(k - start)).len() > 0 && squeezed(
                parts.take(k - start),
            ).last() != '\\'),
        decreases letters.len() - k,
    {
        let c = letters[k];
        let ghost before = squeezed(parts.take(k - start));
        assert(parts.take(k + 1 - start).drop_last() =~= parts.take(k - start));
        assert(parts.take(k + 1 - start).last() == c);
        if c != '\\' || open {
            path.push(c);
            assert(path@ =~= prefix + before.push(c));
        }
        open = c != '\\';
        k += 1;
    }
    assert(parts.take(k - start) =~= parts);
    assert(parts.push('\\').drop_last() =~= parts);
    if open {
        let ghost before = squeezed(parts);
        path.push('\\');
        assert(path@ =~= prefix + before.push('\\'));
    }
    path
}

fn join(base: String, separator: char, name: &str) -> (path: String)
    ensures
        path@ == joined(base@, separator, name@),
{
    let letters = chars_of(base.as_str());
    let n: usize = letters.len();
    if separator == '\\' && n >= 4 && letters[0] == '\\' && letters[1] == '\\' && letters[2] == '?'
        && letters[3] == '\\' {
        let mut path = rebuild(&letters);
        path.append(name);
        return path;
    }
    let mut path = base;
    if n > 0 {
        let last = letters[n - 1];
        let closed = last == separator || last == '/';
        let drive = separator == '\\' && n == 2 && letters[1] == ':' && (('a' <= letters[0]
            && letters[0] <= 'z') || ('A' <= letters[0] && letters[0] <= 'Z'));
        if !closed && !drive {
            path.push(separator);
        }
    }
    path.append(name);
    path
}

/// The directory that downloads go to unless the user picks another: `Downloads`, and in it
/// `bunkr`, under the home directory that the environment variables `HOME` and `USERPROFILE` give.
pub fn dirs_default(home: Option<String>, user_profile: Option<String>, separator: char) -> (dir:
    String)
    ensures
        dir@ == joined(
            joined(
                home_dir(option_view(home), option_view(user_profile)),
                separator,
                "Downloads"@,
            ),
            separator,
            "bunkr"@,
        ),
{
    let base = match home {
        Some(dir) => dir,
        None => match user_profile {
            Some(dir) => dir,
            None => ".".to_owned(),
        },
    };
    join(join(base, separator, "Downloads"), separator, "bunkr")
}

/// Whether a text has neither a backslash at the beginning nor two together.
pub open spec fn is_tidy(text: Seq<char>) -> bool {
    &&& text.len() > 0 ==> text[0] != '\\'
    &&& forall|i: int|
        0 <= i < text.len() - 1 ==> !(#[trigger] text[i] == '\\' && text[i + 1] == '\\')
}

proof fn squeezing_tidies(text: Seq<char>)
    ensures
        is_tidy(squeezed(text)),
        is_tidy(text) ==> squeezed(text) == text,
    decreases text.len(),
{
    if text.len() > 0 {
        let before = text.drop_last();
        squeezing_tidies(before);
        if is_tidy(text) {
            assert(is_tidy(before)) by {
                assert forall|i: int| 0 <= i < before.len() - 1 implies !(#[trigger] before[i] == '\\'
                    && before[i + 1] == '\\') by {
                    assert(text[i] == before[i] && text[i + 1] == before[i + 1]);
                }
            }
            assert(before.push(text.last()) =~= text);
            if before.len() > 0 {
                assert(text[before.len() - 1] == before.last());
            }
        }
    } else {
        assert(squeezed(text) =~= text);
    }
}

proof fn part_ends_at_a_backslash(base: Seq<char>, i: int)
    requires
        0 <= i <= base.len(),
    ensures
        i <= part_end(base, i) <= base.len(),
        part_end(base, i) < base.len() ==> base[part_end(base, i)] == '\\',
        forall|k: int| i <= k < part_end(base, i) ==> #[trigger] base[k] != '\\',
    decreases base.len() - i,
{
    if i < base.len() && base[i] != '\\' {
        part_ends_at_a_backslash(base, i + 1);
    }
}

proof fn prefix_ends_at_a_separator(base: Seq<char>)
    requires
        is_verbatim(base, '\\'),
    ensures
        4 <= verbatim_prefix(base) <= base.len(),
        verbatim_prefix(base) < base.len() ==> base[verbatim_prefix(base)] == '\\' || (
        is_verbatim_drive(base) && !is_verbatim_share(base) && base[verbatim_prefix(base)] == '/'),
{
    part_ends_at_a_backslash(base, 4);
    if is_verbatim_share(base) {
        part_ends_at_a_backslash(base, 8);
        let server = part_end(base, 8);
        if server < base.len() {
            part_ends_at_a_backslash(base, server + 1);
        }
    }
}

/// Rebuilding a verbatim path that a name has been added to adds one backslash.
proof fn rebuilt_once_is_enough(base: Seq<char>, name: Seq<char>)
    requires
        is_verbatim(base, '\\'),
        name.len() > 0,
        forall|i: int| 0 <= i < name.len() ==> #[trigger] name[i] != '\\',
    ensures
        is_verbatim(rebuilt(base) + name, '\\'),
        rebuilt(rebuilt(base) + name) == (rebuilt(base) + name).push('\\'),
{
    let p = verbatim_prefix(base);
    prefix_ends_at_a_separator(base);
    let parts = if p < base.len() {
        base.skip(p + 1)
    } else {
        Seq::empty()
    };
    let middle = squeezed(parts.push('\\'));
    squeezing_tidies(parts.push('\\'));
    let t = middle + name;
    let path = rebuilt(base) + name;
    assert(path =~= base.take(p).push('\\') + t);
    assert(forall|i: int| 0 <= i < p ==> #[trigger] path[i] == base[i]);
    assert(path[p] == '\\');
    assert(is_tidy(t)) by {
        assert forall|i: int| 0 <= i < t.len() - 1 implies !(#[trigger] t[i] == '\\' && t[i + 1]
            == '\\') by {
            if i + 1 < middle.len() {
                assert(t[i] == middle[i] && t[i + 1] == middle[i + 1]);
            } else {
                assert(t[i + 1] == name[i + 1 - middle.len()]);
            }
        }
        if middle.len() == 0 {
            assert(t[0] == name[0]);
        }
    }
    let q = verbatim_prefix(path);
    prefix_ends_at_a_separator(path);
    prefix_is_not_lost(base, path);
    if q == path.len() {
        nothing_behind_the_prefix(path);
    } else {
        let after = path.skip(q + 1);
        let closed = after.push('\\');
        assert(forall|i: int| 0 <= i < after.len() ==> #[trigger] after[i] == t[i + q - p]);
        assert(path.last() == name.last());
        assert(after.len() > 0) by {
            if q + 1 == path.len() {
                assert(path.last() == '\\');
            }
        }
        assert(after.last() == name.last());
        assert(is_tidy(closed)) by {
            assert(closed[0] == t[q - p]);
            if q > p {
                assert(t[q - p - 1] == path[q]);
            }
            assert forall|i: int| 0 <= i < closed.len() - 1 implies !(#[trigger] closed[i] == '\\'
                && closed[i + 1] == '\\') by {
                if i + 1 < after.len() {
                    assert(closed[i] == t[i + q - p] && closed[i + 1] == t[i + q - p + 1]);
                }
            }
        }
        squeezing_tidies(closed);
        assert(rebuilt(path) =~= path.push('\\'));
    }
}

proof fn prefix_is_not_lost(base: Seq<char>, path: Seq<char>)
    requires
        is_verbatim(base, '\\'),
        verbatim_prefix(base) < path.len(),
        forall|i: int| 0 <= i < verbatim_prefix(base) ==> #[trigger] path[i] == base[i],
        path[verbatim_prefix(base)] == '\\',
    ensures
        is_verbatim(path, '\\'),
        verbatim_prefix(base) <= verbatim_prefix(path),
        verbatim_prefix(path) < path.len() ==> path[verbatim_prefix(path)] == '\\',
{
    let p = verbatim_prefix(base);
    prefix_ends_at_a_separator(base);
    assert(path[0] == base[0] && path[1] == base[1] && path[2] == base[2] && path[3] == base[3]);
    prefix_ends_at_a_separator(path);
    part_ends_at_a_backslash(base, 4);
    part_ends_at_a_backslash(path, 4);
    if is_verbatim_share(base) {
        part_ends_at_a_backslash(base, 8);
        let server = part_end(base, 8);
        assert(path[4] == base[4] && path[5] == base[5] && path[6] == base[6] && path[7] == base[7]);
        part_ends_at_a_backslash(path, 8);
        let other = part_end(path, 8);
        if other < server {
            assert(path[other] == base[other]);
        }
        if other < path.len() {
            part_ends_at_a_backslash(path, other + 1);
        }
        if server < base.len() {
            part_ends_at_a_backslash(base, server + 1);
            if server < p {
                assert(path[server] == base[server]);
                assert(other == server) by {
                    if server < other {
                        assert(path[server] != '\\');
                    }
                }
                let share = part_end(path, other + 1);
                if share < p {
                    assert(path[share] == base[share]);
                }
            }
        }
    } else if is_verbatim_drive(base) {
        assert(path[4] == base[4] && path[5] == base[5]);
    } else {
        assert(!(part_end(path, 4) < p)) by {
            if part_end(path, 4) < p {
                assert(path[part_end(path, 4)] == base[part_end(path, 4)]);
            }
        }
        if is_verbatim_drive(path) && !is_verbatim_share(path) {
            if p > 4 {
                assert(path[4] == base[4]);
            }
            if p > 5 {
                assert(path[5] == base[5]);
            }
            if p > 6 {
                assert(path[6] == base[6]);
            }
        }
    }
}

proof fn nothing_behind_the_prefix(path: Seq<char>)
    requires
        verbatim_prefix(path) == path.len(),
    ensures
        rebuilt(path) == path.push('\\'),
{
    let none = Seq::<char>::empty();
    assert(path.take(path.len() as int) =~= path);
    assert(none.push('\\').drop_last() =~= none);
    assert(squeezed(none) =~= none);
    assert(squeezed(none.push('\\')) =~= none);
    assert(rebuilt(path) =~= path.push('\\'));
}

/// Wherever the home directory is, the default is `bunkr` inside `Downloads`, and `Downloads` inside
/// the home directory: it begins with the home directory, which a verbatim path is rebuilt for.
pub proof fn default_dir_is_under_home(home: Seq<char>, separator: char)
    requires
        separator == '/' || separator == '\\',
    ensures
        ({
            let downloads = joined(home, separator, "Downloads"@);
            let dir = joined(downloads, separator, "bunkr"@);
            &&& !is_verbatim(home, separator) ==> home.is_prefix_of(dir)
            &&& is_verbatim(home, separator) ==> downloads == rebuilt(home) + "Downloads"@
            &&& dir == downloads.push(separator) + "bunkr"@
        }),
{
    reveal_strlit("Downloads");
    reveal_strlit("bunkr");
    let downloads = joined(home, separator, "Downloads"@);
    let dir = joined(downloads, separator, "bunkr"@);
    assert(downloads.last() == 's');
    if is_verbatim(home, separator) {
        rebuilt_once_is_enough(home, "Downloads"@);
    } else {
        if is_verbatim(downloads, separator) {
            // Only `\\?` becomes verbatim by what is added to it.
            assert(home.len() == 3) by {
                if home.len() >= 4 {
                    assert(downloads[0] == home[0] && downloads[1] == home[1]);
                    assert(downloads[2] == home[2] && downloads[3] == home[3]);
                }
            }
            assert(downloads =~= home.push(separator) + "Downloads"@);
            part_ends_at_a_backslash(downloads, 4);
            assert(part_end(downloads, 4) == downloads.len()) by {
                let e = part_end(downloads, 4);
                if e < downloads.len() {
                    assert(downloads[e] == "Downloads"@[e - 4]);
                }
            }
            assert(downloads[4] == 'D' && downloads[5] == 'o');
            nothing_behind_the_prefix(downloads);
        }
        assert(home =~= dir.subrange(0, home.len() as int));
    }
}

/// Nine characters are reserved: both slashes, the colon, the asterisk, the question mark, the
/// quotation mark, the angle brackets and the bar. Each of them becomes an underscore where it
/// stands, and every other character is kept there.
pub proof fn reserved_characters_become_underscores(name: Seq<char>, i: int)
    requires
        0 <= i < name.len(),
    ensures
        sanitized(name).len() == name.len(),
        "/\\:*?\"<>|"@.contains(name[i]) ==> sanitized(name)[i] == '_',
        !"/\\:*?\"<>|"@.contains(name[i]) ==> sanitized(name)[i] == name[i],
{
    reveal_strlit("/\\:*?\"<>|");
    let reserved = "/\\:*?\"<>|"@;
    assert(reserved[0] == '/' && reserved[1] == '\\' && reserved[2] == ':' && reserved[3] == '*'
        && reserved[4] == '?' && reserved[5] == '"' && reserved[6] == '<' && reserved[7] == '>'
        && reserved[8] == '|');
    assert(reserved.len() == 9);
    if reserved.contains(name[i]) {
        let k = choose|k: int| 0 <= k < reserved.len() && reserved[k] == name[i];
        assert(0 <= k < 9);
    }
}

/// `HOME` is asked first, `USERPROFILE` where there is none, and where both are missing the current
/// directory stands in.
pub proof fn home_is_asked_first(dir: Seq<char>, other: Option<Seq<char>>)
    ensures
        home_dir(Some(dir), other) == dir,
        home_dir(None, Some(dir)) == dir,
        home_dir(None, None) == "."@,
{
}

/// Where slashes separate, a slash comes between a directory and a name, unless one is there already
/// or there is no directory.
pub proof fn slash_joins_paths(base: Seq<char>, name: Seq<char>)
    ensures
        base.len() == 0 ==> joined(base, '/', name) == name,
        base.len() > 0 && base.last() == '/' ==> joined(base, '/', name) == base + name,
        base.len() > 0 && base.last() != '/' ==> joined(base, '/', name) == base + seq!['/'] + name,
{
    if base.len() == 0 {
        assert(base + name =~= name);
    }
    assert(base.push('/') =~= base + seq!['/']);
}

/// Where backslashes separate, a backslash comes between a directory and a name, unless the directory
/// ends in a slash of either kind, is a drive alone, or is missing. Verbatim paths are another
/// matter.
pub proof fn backslash_joins_paths(base: Seq<char>, name: Seq<char>)
    requires
        base.len() < 4 || base.take(4) != seq!['\\', '\\', '?', '\\'],
    ensures
        base.len() == 0 ==> joined(base, '\\', name) == name,
        base.len() > 0 ==> {
            let drive = base.len() == 2 && base[1] == ':' && (65 <= base[0] as int <= 90 || 97
                <= base[0] as int <= 122);
            if base.last() == '\\' || base.last() == '/' || drive {
                joined(base, '\\', name) == base + name
            } else {
                joined(base, '\\', name) == base + seq!['\\'] + name
            }
        },
{
    if base.len() == 0 {
        assert(base + name =~= name);
    }
    if is_verbatim(base, '\\') {
        assert(base.take(4) =~= seq!['\\', '\\', '?', '\\']);
    }
    assert(base.push('\\') =~= base + seq!['\\']);
}

/// Squeezing makes two backslashes in a row one, takes one at the beginning out, and leaves a text
/// that has neither alone.
pub proof fn squeezing_takes_out_backslashes(a: Seq<char>, b: Seq<char>)
    ensures
        squeezed(a + seq!['\\', '\\'] + b) == squeezed(a + seq!['\\'] + b),
        squeezed(seq!['\\'] + b) == squeezed(b),
        is_tidy(a) ==> squeezed(a) == a,
    decreases b.len(),
{
    squeezing_tidies(a);
    let (two, one) = (a + seq!['\\', '\\'] + b, a + seq!['\\'] + b);
    if b.len() == 0 {
        assert(one =~= a.push('\\'));
        assert(one.drop_last() =~= a);
        assert(two =~= one.push('\\'));
        assert(two.drop_last() =~= one);
        let front = seq!['\\'] + b;
        assert(front.drop_last() =~= Seq::empty());
        assert(squeezed(front.drop_last()) =~= Seq::empty());
        assert(squeezed(b) =~= Seq::empty());
    } else {
        let less = b.drop_last();
        squeezing_takes_out_backslashes(a, less);
        assert(two.drop_last() =~= a + seq!['\\', '\\'] + less);
        assert(one.drop_last() =~= a + seq!['\\'] + less);
        assert(two.last() == b.last() && one.last() == b.last());
        assert((seq!['\\'] + b).drop_last() =~= seq!['\\'] + less);
        assert((seq!['\\'] + b).last() == b.last());
    }
}

proof fn part_ends_where_it_is_said_to(base: Seq<char>, i: int, end: int)
    requires
        0 <= i <= end <= base.len(),
        forall|k: int| i <= k < end ==> #[trigger] base[k] != '\\',
        end < base.len() ==> base[end] == '\\',
    ensures
        part_end(base, i) == end,
{
    part_ends_at_a_backslash(base, i);
    let e = part_end(base, i);
    if e < end {
        assert(base[e] != '\\');
    } else if end < e {
        assert(base[end] != '\\');
    }
}

/// A verbatim path on a drive keeps the drive, and the parts behind it come out with one backslash
/// each between them and the name.
pub proof fn verbatim_drive_is_kept(letter: char, rest: Seq<char>, name: Seq<char>)
    requires
        65 <= letter as int <= 90 || 97 <= letter as int <= 122,
        rest.len() > 0 ==> rest[0] == '\\' || rest[0] == '/',
    ensures
        ({
            let drive = seq!['\\', '\\', '?', '\\', letter, ':'];
            let parts = if rest.len() == 0 {
                rest
            } else {
                rest.skip(1)
            };
            joined(drive + rest, '\\', name) == drive + seq!['\\'] + squeezed(parts + seq!['\\'])
                + name
        }),
{
    let drive = seq!['\\', '\\', '?', '\\', letter, ':'];
    let base = drive + rest;
    let parts = if rest.len() == 0 {
        rest
    } else {
        rest.skip(1)
    };
    assert(base[4] == letter && base[5] == ':');
    assert(rest.len() > 0 ==> base[6] == rest[0]);
    assert(base.take(6) =~= drive);
    assert(rest.len() > 0 ==> base.skip(7) =~= parts);
    assert(parts.push('\\') =~= parts + seq!['\\']);
    assert(drive.push('\\') =~= drive + seq!['\\']);
    if rest.len() == 0 {
        assert(parts =~= Seq::empty());
    }
}

/// A verbatim path to a share keeps the server and the share, and the parts behind them come out
/// with one backslash each between them and the name.
pub proof fn verbatim_share_is_kept(
    server: Seq<char>,
    share: Seq<char>,
    rest: Seq<char>,
    name: Seq<char>,
)
    requires
        forall|i: int| 0 <= i < server.len() ==> #[trigger] server[i] != '\\',
        forall|i: int| 0 <= i < share.len() ==> #[trigger] share[i] != '\\',
        share.len() > 0,
        rest.len() > 0 ==> rest[0] == '\\',
    ensures
        ({
            let head = seq!['\\', '\\', '?', '\\', 'U', 'N', 'C', '\\'] + server + seq!['\\'] + share;
            let parts = if rest.len() == 0 {
                rest
            } else {
                rest.skip(1)
            };
            joined(head + rest, '\\', name) == head + seq!['\\'] + squeezed(parts + seq!['\\']) + name
        }),
{
    let start = seq!['\\', '\\', '?', '\\', 'U', 'N', 'C', '\\'];
    let head = start + server + seq!['\\'] + share;
    let base = head + rest;
    let parts = if rest.len() == 0 {
        rest
    } else {
        rest.skip(1)
    };
    let (s, e) = (8 + server.len() as int, 8 + server.len() as int + 1 + share.len() as int);
    assert forall|k: int| 8 <= k < s implies #[trigger] base[k] != '\\' by {
        assert(base[k] == server[k - 8]);
    }
    assert(base[s] == '\\');
    part_ends_where_it_is_said_to(base, 8, s);
    assert forall|k: int| s + 1 <= k < e implies #[trigger] base[k] != '\\' by {
        assert(base[k] == share[k - s - 1]);
    }
    assert(rest.len() > 0 ==> base[e] == rest[0]);
    part_ends_where_it_is_said_to(base, s + 1, e);
    assert(base[4] == 'U' && base[5] == 'N' && base[6] == 'C' && base[7] == '\\');
    assert(base.take(e) =~= head);
    assert(rest.len() > 0 ==> base.skip(e + 1) =~= parts);
    assert(parts.push('\\') =~= parts + seq!['\\']);
    assert(head.push('\\') =~= head + seq!['\\']);
    if rest.len() == 0 {
        assert(parts =~= Seq::empty());
    }
}

/// Any other verbatim path keeps its first part, and the parts behind it come out with one backslash
/// each between them and the name.
pub proof fn verbatim_volume_is_kept(volume: Seq<char>, rest: Seq<char>, name: Seq<char>)
    requires
        forall|i: int| 0 <= i < volume.len() ==> #[trigger] volume[i] != '\\',
        !(volume.len() == 3 && volume[0] == 'U' && volume[1] == 'N' && volume[2] == 'C'),
        !(volume.len() > 3 && volume[0] == 'U' && volume[1] == 'N' && volume[2] == 'C' && volume[3]
            == '/'),
        !(volume.len() >= 2 && volume[1] == ':'),
        rest.len() > 0 ==> rest[0] == '\\',
    ensures
        ({
            let head = seq!['\\', '\\', '?', '\\'] + volume;
            let parts = if rest.len() == 0 {
                rest
            } else {
                rest.skip(1)
            };
            joined(head + rest, '\\', name) == head + seq!['\\'] + squeezed(parts + seq!['\\']) + name
        }),
{
    let head = seq!['\\', '\\', '?', '\\'] + volume;
    let base = head + rest;
    let parts = if rest.len() == 0 {
        rest
    } else {
        rest.skip(1)
    };
    let e = 4 + volume.len() as int;
    assert forall|k: int| 4 <= k < e implies #[trigger] base[k] != '\\' by {
        assert(base[k] == volume[k - 4]);
    }
    assert(rest.len() > 0 ==> base[e] == rest[0]);
    part_ends_where_it_is_said_to(base, 4, e);
    assert(!is_verbatim_share(base)) by {
        if is_verbatim_share(base) {
            assert(volume.len() >= 3) by {
                if volume.len() < 3 && rest.len() > 0 {
                    assert(base[e] == '\\');
                }
            }
            assert(base[4] == volume[0] && base[5] == volume[1] && base[6] == volume[2]);
            if volume.len() > 3 {
                assert(base[7] == volume[3]);
            }
        }
    }
    assert(!is_verbatim_drive(base)) by {
        if is_verbatim_drive(base) {
            if volume.len() >= 2 {
                assert(base[5] == volume[1]);
            } else if rest.len() > 0 {
                assert(base[e] == '\\');
                if volume.len() == 0 {
                    assert(base[4] == '\\');
                }
            }
        }
    }
    assert(base.take(e) =~= head);
    assert(rest.len() > 0 ==> base.skip(e + 1) =~= parts);
    assert(parts.push('\\') =~= parts + seq!['\\']);
    assert(head.push('\\') =~= head + seq!['\\']);
    if rest.len() == 0 {
        assert(parts =~= Seq::empty());
    }
}

} // verus!
