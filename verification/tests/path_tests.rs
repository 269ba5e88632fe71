use file_explorer::path::{file_name_of, is_hidden_path, parent_of, path_le};

#[test]
fn empty_path_comes_first() {
    assert!(path_le("", ""));
    assert!(path_le("", "a"));
    assert!(!path_le("a", ""));
}

#[test]
fn equal_paths_are_in_order() {
    assert!(path_le("/a/b", "/a/b"));
}

#[test]
fn a_prefix_comes_before_its_extensions() {
    assert!(path_le("/a", "/a/b"));
    assert!(!path_le("/a/b", "/a"));
}

#[test]
fn the_first_difference_decides() {
    assert!(path_le("/a/b", "/a/c"));
    assert!(!path_le("/a/c", "/a/b"));
    assert!(path_le("/a/bz", "/a/c"));
    assert!(!path_le("/a/c", "/a/bz"));
}

#[test]
fn upper_case_comes_before_lower_case() {
    assert!(path_le("Alpha", "beta"));
    assert!(path_le("Zeta", "alpha"));
    assert!(!path_le("alpha", "Zeta"));
}

#[test]
fn order_agrees_with_the_order_of_strings() {
    let samples = [
        "",
        "a",
        "A",
        "ab",
        "abc",
        "b",
        "/",
        "/a",
        "/a/b",
        "/a b",
        ".hidden",
        "..",
        "\u{e9}t\u{e9}",
        "z",
        "\u{4e2d}\u{6587}",
        "\u{e000}",
        "\u{1f600}",
        "\u{ffff}",
        "\u{10000}",
        "a\u{0}",
    ];
    for a in samples.iter() {
        for b in samples.iter() {
            assert_eq!(path_le(a, b), a <= b, "{:?} against {:?}", a, b);
        }
    }
}

fn named(name: &str) -> Option<String> {
    Some(String::from(name))
}

#[test]
fn file_name_is_the_last_component() {
    assert_eq!(file_name_of("/a/b"), named("b"));
    assert_eq!(file_name_of("/a/b.txt"), named("b.txt"));
    assert_eq!(file_name_of("/a"), named("a"));
    assert_eq!(file_name_of("a/b/c"), named("c"));
    assert_eq!(file_name_of("notes.txt"), named("notes.txt"));
    assert_eq!(file_name_of("/a/.git"), named(".git"));
    assert_eq!(file_name_of("/a/..."), named("..."));
    assert_eq!(file_name_of("   .."), named("   .."));
}

#[test]
fn a_path_that_ends_in_the_parent_component_has_no_name() {
    assert_eq!(file_name_of(".."), None);
    assert_eq!(file_name_of("/a/.."), None);
    assert_eq!(file_name_of("../"), None);
    assert_eq!(file_name_of("/a/../."), None);
}

#[test]
fn the_root_and_the_empty_path_have_no_name() {
    assert_eq!(file_name_of("/"), None);
    assert_eq!(file_name_of("//"), None);
    assert_eq!(file_name_of(""), None);
    assert_eq!(file_name_of("/."), None);
    assert_eq!(file_name_of("."), None);
    assert_eq!(file_name_of("./"), None);
}

#[test]
fn separators_and_dots_at_the_end_are_passed_over() {
    assert_eq!(file_name_of("/a/b/"), named("b"));
    assert_eq!(file_name_of("/a/b//"), named("b"));
    assert_eq!(file_name_of("/a/b/."), named("b"));
    assert_eq!(file_name_of("tmp/foo.txt/.//"), named("foo.txt"));
    assert_eq!(file_name_of("a/"), named("a"));
    assert_eq!(file_name_of("/a/b."), named("b."));
    assert_eq!(file_name_of("/a/.b/"), named(".b"));
}

#[test]
fn file_name_counts_characters_not_bytes() {
    assert_eq!(file_name_of("/\u{e9}t\u{e9}/\u{4e2d}\u{6587}"), named("\u{4e2d}\u{6587}"));
    assert_eq!(file_name_of("/\u{1f600}/x/"), named("x"));
    assert_eq!(file_name_of("/x/\u{1f600}/."), named("\u{1f600}"));
}

fn sample_paths() -> Vec<&'static str> {
    vec![
        "", "/", "//", ".", "..", "./", "../", "/.", "/..", "a", "a/", "a/.", "a/..", "a/b",
        "/a", "/a/", "/a/b", "/a/b/", "/a/b//", "/a/b/.", "/a/b/./", "/a/b/..", "/a//b", "//a",
        "/a/./b", "./a", "../a", "a/./", ".a", "a.", "..a", "a..", "/a/.b", "/a/b.", "/a/...",
        "/.hidden/x", " ", "/ /", "   ..", "   ../", "/\u{e9}/\u{4e2d}", "/\u{1f600}/",
        "a/b/c/d/e", "/./", "/./.", "a//", "/a/b/.//", ".//", "./.", "x/./.",
    ]
}

#[test]
fn file_name_agrees_with_the_paths_of_the_system() {
    for p in sample_paths() {
        let theirs = std::path::Path::new(p)
            .file_name()
            .map(|n| n.to_string_lossy().into_owned());
        assert_eq!(file_name_of(p), theirs, "{:?}", p);
    }
}

#[test]
fn parent_drops_the_name() {
    assert_eq!(parent_of("/a/b"), named("/a"));
    assert_eq!(parent_of("/a/b/c.txt"), named("/a/b"));
    assert_eq!(parent_of("a/b"), named("a"));
    assert_eq!(parent_of("./a"), named("."));
    assert_eq!(parent_of("/\u{e9}t\u{e9}/x"), named("/\u{e9}t\u{e9}"));
}

#[test]
fn parent_passes_over_separators_and_dots() {
    assert_eq!(parent_of("/a/b/"), named("/a"));
    assert_eq!(parent_of("/a//b"), named("/a"));
    assert_eq!(parent_of("/a/./b/."), named("/a"));
    assert_eq!(parent_of("//a"), named("/"));
    assert_eq!(parent_of("/./a"), named("/"));
}

#[test]
fn parent_of_a_child_of_the_root_is_the_root() {
    assert_eq!(parent_of("/a"), named("/"));
    assert_eq!(parent_of("/a/"), named("/"));
}

#[test]
fn the_root_has_no_parent() {
    assert_eq!(parent_of("/"), None);
    assert_eq!(parent_of("//"), None);
    assert_eq!(parent_of("/."), None);
}

#[test]
fn a_name_that_stands_alone_has_no_parent() {
    assert_eq!(parent_of("a"), None);
    assert_eq!(parent_of("a/"), None);
    assert_eq!(parent_of(""), None);
    assert_eq!(parent_of("."), None);
}

#[test]
fn a_path_without_a_name_has_no_parent() {
    assert_eq!(parent_of(".."), None);
    assert_eq!(parent_of("/a/.."), None);
    assert_eq!(parent_of("/a/b/../"), None);
}

#[test]
fn parent_agrees_with_the_paths_of_the_system_below_a_directory() {
    for p in sample_paths() {
        let path = std::path::Path::new(p);
        let theirs = match (path.file_name(), path.parent()) {
            (Some(_), Some(above)) if !above.as_os_str().is_empty() => Some(above),
            _ => None,
        };
        match (parent_of(p), theirs) {
            (Some(ours), Some(theirs)) => {
                assert_eq!(std::path::Path::new(&ours), theirs, "{:?}", p)
            }
            (None, None) => {}
            (ours, theirs) => panic!("{:?}: {:?} against {:?}", p, ours, theirs),
        }
    }
}

#[test]
fn hidden_names_start_with_a_dot() {
    assert!(is_hidden_path("/a/.git"));
    assert!(is_hidden_path(".profile"));
    assert!(is_hidden_path("/a/.git/"));
    assert!(is_hidden_path("/a/..."));
    assert!(!is_hidden_path("/a/b.txt"));
    assert!(!is_hidden_path("/.config/nvim"));
}

#[test]
fn a_path_without_a_name_is_not_hidden() {
    assert!(!is_hidden_path(".."));
    assert!(!is_hidden_path("."));
    assert!(!is_hidden_path("/a/.."));
    assert!(!is_hidden_path("/"));
    assert!(!is_hidden_path(""));
}
