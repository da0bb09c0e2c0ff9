use bunkr_dl::names::{dirs_default, sanitize_filename};
use std::path::{PathBuf, MAIN_SEPARATOR};

#[test]
fn reserved_characters_become_underscores() {
    assert_eq!(sanitize_filename("a/b\\c:d*e?f\"g<h>i|j"), "a_b_c_d_e_f_g_h_i_j");
    assert_eq!(sanitize_filename(""), "");
    assert_eq!(sanitize_filename("|||"), "___");
    assert_eq!(sanitize_filename("../x"), ".._x");
    assert_eq!(sanitize_filename(".."), "..");
    assert_eq!(sanitize_filename("."), ".");
}

#[test]
fn other_characters_stay() {
    let name = "Été – photo (1) 写真.jpg";
    assert_eq!(sanitize_filename(name), name);
}

#[test]
fn sanitizing_twice_is_sanitizing_once() {
    let once = sanitize_filename("x:y?/z.mp4");
    assert_eq!(once, "x_y__z.mp4");
    assert_eq!(sanitize_filename(&once), once);
    assert_eq!(once.chars().count(), "x:y?/z.mp4".chars().count());
}

#[test]
fn default_directory_follows_the_environment() {
    let home = Some("/home/ann".to_string());
    let profile = Some("/profiles/ann".to_string());
    assert_eq!(dirs_default(home.clone(), profile.clone(), '/'), "/home/ann/Downloads/bunkr");
    assert_eq!(dirs_default(home, None, '/'), "/home/ann/Downloads/bunkr");
    assert_eq!(dirs_default(None, profile, '/'), "/profiles/ann/Downloads/bunkr");
    assert_eq!(dirs_default(None, None, '/'), "./Downloads/bunkr");
}

#[test]
fn default_directory_needs_no_second_separator() {
    assert_eq!(dirs_default(Some("/home/ann/".to_string()), None, '/'), "/home/ann/Downloads/bunkr");
    assert_eq!(dirs_default(Some(String::new()), None, '/'), "Downloads/bunkr");
    assert_eq!(
        dirs_default(Some("C:\\Users\\Ann".to_string()), None, '\\'),
        "C:\\Users\\Ann\\Downloads\\bunkr"
    );
    assert_eq!(dirs_default(Some("C:".to_string()), None, '\\'), "C:Downloads\\bunkr");
    assert_eq!(dirs_default(Some("C:/".to_string()), None, '\\'), "C:/Downloads\\bunkr");
}

#[test]
fn default_directory_agrees_with_path_buf() {
    for home in ["/home/ann", "/", "", ".", "a//", "rel/dir", "C:", "with space/é"] {
        let path = PathBuf::from(home).join("Downloads").join("bunkr");
        assert_eq!(
            dirs_default(Some(home.to_string()), None, MAIN_SEPARATOR),
            path.to_string_lossy().to_string()
        );
    }
}

#[test]
fn verbatim_home_is_rebuilt() {
    let cases = [
        (r"\\?\C:\Users\Ann", r"\\?\C:\Users\Ann\Downloads\bunkr"),
        (r"\\?\C:\Users\Ann\", r"\\?\C:\Users\Ann\Downloads\bunkr"),
        (r"\\?\C:\Users\\Ann\\", r"\\?\C:\Users\Ann\Downloads\bunkr"),
        (r"\\?\C:\Users/Ann/", r"\\?\C:\Users/Ann/\Downloads\bunkr"),
        (r"\\?\C:/Users", r"\\?\C:\Users\Downloads\bunkr"),
        (r"\\?\C:", r"\\?\C:\Downloads\bunkr"),
        (r"\\?\C:\", r"\\?\C:\Downloads\bunkr"),
        (r"\\?\C:\a\.\..", r"\\?\C:\a\.\..\Downloads\bunkr"),
        (r"\\?\UNC\server\share", r"\\?\UNC\server\share\Downloads\bunkr"),
        (r"\\?\UNC\server\share\\x\", r"\\?\UNC\server\share\x\Downloads\bunkr"),
        (r"\\?\UNC\server", r"\\?\UNC\server\Downloads\bunkr"),
        (r"\\?\Volume{1}\x", r"\\?\Volume{1}\x\Downloads\bunkr"),
        (r"\\?\", r"\\?\\Downloads\bunkr"),
        (r"\\?", r"\\?\Downloads\bunkr"),
        (r"//?/C:/x/", r"//?/C:/x/Downloads\bunkr"),
        (r"\\server\share", r"\\server\share\Downloads\bunkr"),
    ];
    for (home, dir) in cases {
        assert_eq!(dirs_default(Some(home.to_string()), None, '\\'), dir);
    }
    assert_eq!(dirs_default(Some(r"\\?\x\\".to_string()), None, '/'), r"\\?\x\\/Downloads/bunkr");
}
