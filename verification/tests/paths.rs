use grabit::engine::Platform;
use grabit::paths::{is_within, path_parts_exec};

#[test]
fn own_copy_lies_within_the_bin_folder() {
    let dir = "/home/u/.local/share/com.grabit/bin";
    assert!(is_within("/home/u/.local/share/com.grabit/bin/yt-dlp", dir, Platform::Linux));
    assert!(is_within("/home/u/.local/share/com.grabit/bin/yt-dlp", "/home/u/.local/share/com.grabit/bin/", Platform::Linux));
    assert!(!is_within("/usr/bin/yt-dlp", dir, Platform::Linux));
    assert!(!is_within("/home/u/.local/share/com.grabit/binaries/yt-dlp", dir, Platform::Linux));
    assert!(!is_within("home/u/.local/share/com.grabit/bin/yt-dlp", dir, Platform::Linux));
}

#[test]
fn windows_paths_use_both_separators() {
    let dir = r"C:\Users\u\AppData\Roaming\com.grabit\bin";
    assert!(is_within(r"C:\Users\u\AppData\Roaming\com.grabit\bin\yt-dlp.exe", dir, Platform::Windows));
    assert!(is_within(r"C:/Users/u/AppData/Roaming/com.grabit/bin/yt-dlp.exe", dir, Platform::Windows));
    assert!(!is_within(r"C:\Windows\yt-dlp.exe", dir, Platform::Windows));
    // on other systems a backslash is part of a name
    assert!(!is_within(r"C:\Users\u\AppData\Roaming\com.grabit\bin\yt-dlp.exe", dir, Platform::Linux));
}

#[test]
fn parts_skip_empty_and_dot() {
    assert_eq!(path_parts_exec("/a//b/./c/", Platform::Linux), vec!["a", "b", "c"]);
    assert_eq!(path_parts_exec("", Platform::Linux), Vec::<String>::new());
    assert_eq!(path_parts_exec(r"a\b", Platform::Windows), vec!["a", "b"]);
}

#[test]
fn within_agrees_with_std_on_absolute_unix_paths() {
    let cases = [
        ("/a/b/c", "/a/b"),
        ("/a/b/c", "/a/b/"),
        ("/a/bc", "/a/b"),
        ("/a//b/c", "/a/b"),
        ("/a/./b/c", "/a/b"),
        ("/a/b", "/a/b/c"),
        ("/a/b", "/"),
        ("/x", "/a"),
    ];
    for (p, d) in cases {
        let want = std::path::Path::new(p).starts_with(d);
        assert_eq!(is_within(p, d, Platform::Linux), want, "{:?} within {:?}", p, d);
    }
}
