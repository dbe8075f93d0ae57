use flatkap::path::join;
use std::path::PathBuf;

#[test]
fn name_is_joined_after_one_separator() {
    assert_eq!(join("/proc", "812"), "/proc/812");
    assert_eq!(join("/run/user", "1000"), "/run/user/1000");
    assert_eq!(join("/run/user/1000", ".flatpak"), "/run/user/1000/.flatpak");
    assert_eq!(join("a", "b"), "a/b");
}

#[test]
fn no_separator_is_added_after_a_separator_or_nothing() {
    assert_eq!(join("/tmp/", "x"), "/tmp/x");
    assert_eq!(join("/", "x"), "/x");
    assert_eq!(join("", "x"), "x");
    assert_eq!(join("", ""), "");
    assert_eq!(join("/tmp//", "x"), "/tmp//x");
}

#[test]
fn empty_name_leaves_a_separator_behind() {
    assert_eq!(join("/tmp", ""), "/tmp/");
    assert_eq!(join("/tmp/", ""), "/tmp/");
}

#[test]
fn absolute_name_takes_the_place_of_the_directory() {
    assert_eq!(join("/tmp", "/etc"), "/etc");
    assert_eq!(join("", "/"), "/");
    assert_eq!(join("/tmp/", "/a/b"), "/a/b");
}

#[test]
fn paths_outside_ascii_are_joined_by_characters() {
    assert_eq!(join("/tmp/\u{e9}t\u{e9}", "\u{fc}ber"), "/tmp/\u{e9}t\u{e9}/\u{fc}ber");
    assert_eq!(join("/tmp/\u{e9}", ""), "/tmp/\u{e9}/");
}

#[test]
fn paths_are_joined_as_a_path_buffer_joins_them() {
    let dirs = ["", "/", "/tmp", "/tmp/", "tmp", "tmp/", "/a/b", "/a/b//", ".", "..", "/t\u{e9}"];
    let names = ["", "x", "x/y", "/x", "/", ".flatkap-1000", "pid", "..", "./x", "\u{e9}"];
    for dir in dirs {
        for name in names {
            let mut path = PathBuf::from(dir);
            path.push(name);
            let joined = join(dir, name);
            assert_eq!(path.to_str(), Some(joined.as_str()), "for {:?} and {:?}", dir, name);
        }
    }
}
