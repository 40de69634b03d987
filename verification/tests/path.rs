use binsync::path::{check_path, find_file_name, Platform};

#[test]
fn file_names_are_those_of_std() {
    let paths = [
        "", "/", "//", ".", "./", "./.", "..", "../", "a", "a/", "a//", "a/.", "a/./", "a/..",
        "a/../", "/a", "//a", "./a", "a/b", "a//b", "a/./b", "a/../b", "/usr/bin/", "tmp/foo.txt",
        "foo.txt/.", "foo.txt/.//", "foo.txt/..", "...", "a/...", ".a", "..a", "a.", "a..", "/.",
        "/..", "a b/c d", "a\\b", "\u{e9}/\u{e8}", "a/.b/.", "./..", "x/..//.",
    ];
    for path in paths {
        let expected = std::path::Path::new(path).file_name().map(|name| name.to_str().unwrap());
        let found = find_file_name(path.as_bytes(), Platform::Unix);
        assert_eq!(found, expected.map(str::as_bytes), "{:?}", path);
    }
}

#[test]
fn file_name_is_plain() {
    for path in ["a/b/c", "a/b/.", "..", "/", "x//"] {
        if let Some(name) = find_file_name(path.as_bytes(), Platform::Unix) {
            assert!(!name.is_empty() && !name.contains(&b'/'));
            assert!(name != b"." && name != b"..");
        }
    }
}

#[test]
fn file_name_stays_in_any_directory() {
    for directory in ["", "a", "..", "a/b/", "."] {
        let path = format!("{}/rg", directory);
        assert_eq!(find_file_name(path.as_bytes(), Platform::Unix), Some(&b"rg"[..]));
    }
}

#[test]
fn slashes_and_dots_at_the_end_do_not_count() {
    for path in ["a/rg", "", "..", "/"] {
        let plain = find_file_name(path.as_bytes(), Platform::Unix).map(<[u8]>::to_vec);
        for tail in ["/", "/.", "//", "/./"] {
            let longer = format!("{}{}", path, tail);
            let found = find_file_name(longer.as_bytes(), Platform::Unix).map(<[u8]>::to_vec);
            assert_eq!(found, plain, "{:?}", longer);
        }
    }
}

#[test]
fn file_names_on_windows() {
    let cases: [(&str, Option<&str>); 40] = [
        ("", None),
        ("rg.exe", Some("rg.exe")),
        ("dir\\rg.exe", Some("rg.exe")),
        ("dir/rg.exe", Some("rg.exe")),
        ("a/b\\rg.exe\\", Some("rg.exe")),
        ("a\\.", Some("a")),
        ("a/.\\", Some("a")),
        ("a\\..", None),
        (".", None),
        ("\\", None),
        ("\\rg.exe", Some("rg.exe")),
        ("C:", None),
        ("C:\\", None),
        ("C:.", None),
        ("C:rg.exe", Some("rg.exe")),
        ("c:/dir/rg.exe", Some("rg.exe")),
        ("1:rg.exe", Some("1:rg.exe")),
        ("dir\\C:", Some("C:")),
        ("\\\\server", Some("server")),
        ("\\\\server\\", Some("server")),
        ("\\\\server\\share", None),
        ("//server/share/", None),
        ("\\\\server\\share\\rg.exe", Some("rg.exe")),
        ("//server/share/dir/rg.exe", Some("rg.exe")),
        ("\\\\\\share", Some("share")),
        ("\\\\.\\COM42", None),
        ("\\\\.\\COM42\\rg.exe", Some("rg.exe")),
        ("\\\\?\\", None),
        ("\\\\?\\C:", None),
        ("\\\\?\\C:\\rg.exe", Some("rg.exe")),
        ("\\\\?\\C:\\dir\\.", None),
        ("\\\\?\\C:\\dir/rg.exe", Some("dir/rg.exe")),
        ("\\\\?\\C:/rg.exe", Some("rg.exe")),
        ("\\\\?\\C:/dir/rg.exe", Some("dir/rg.exe")),
        ("\\\\?\\C:dir\\rg.exe", Some("rg.exe")),
        ("\\\\?\\pics", None),
        ("\\\\?\\pics\\rg.exe", Some("rg.exe")),
        ("\\\\?\\UNC\\server\\share", None),
        ("\\\\?\\UNC\\server\\share\\rg.exe", Some("rg.exe")),
        ("//?/dir/rg.exe", Some("rg.exe")),
    ];
    for (path, expected) in cases {
        let found = find_file_name(path.as_bytes(), Platform::Windows);
        assert_eq!(found, expected.map(str::as_bytes), "{:?}", path);
    }
}

#[test]
fn backslash_is_part_of_a_name_on_unix() {
    assert_eq!(find_file_name(b"a/b\\c", Platform::Unix), Some(&b"b\\c"[..]));
}

#[test]
fn only_windows_asks_for_unicode() {
    assert!(check_path(&[0xff], Platform::Unix));
    assert!(!check_path(&[0xff], Platform::Windows));
    assert!(check_path("\u{e9}".as_bytes(), Platform::Windows));
}
