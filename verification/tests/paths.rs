use rust_engine::paths::{components_of, extension, file_name, parent, path_eq, path_starts_with, split_segments};

fn some(s: &str) -> Option<String> {
    Some(s.to_string())
}

#[test]
fn file_name_matches_std_path() {
    for p in ["a/b.ts", "b.ts", "/x/y/", "a/.", "./a", ".", "..", "a/..", "/", "", "a//b", ".hidden"] {
        let expected = std::path::Path::new(p).file_name().map(|n| n.to_str().unwrap().to_string());
        assert_eq!(file_name(p), expected, "{p}");
    }
}

#[test]
fn extension_matches_std_path() {
    for p in ["a/b.ts", "b.tar.gz", "a.", ".hidden", "..", "dir.ts/", "noext", "a/b.c/d", "/"] {
        let expected = std::path::Path::new(p).extension().map(|n| n.to_str().unwrap().to_string());
        assert_eq!(extension(p), expected, "{p}");
    }
}

#[test]
fn parent_matches_std_path() {
    for p in [
        "/a/b", "a/b", "a", "/a", "/", "", ".", "./", "./a", "a/./b/.", "a//b", "//a", "a/b/", "..", "../a", "/a/b/../c",
    ] {
        let expected = std::path::Path::new(p).parent().map(|n| n.to_str().unwrap().to_string());
        assert_eq!(parent(p), expected, "{p}");
    }
    assert_eq!(parent("/work/p/src/a.ts"), some("/work/p/src"));
}

#[test]
fn components_match_std_path() {
    for p in ["/a/b", "a//b/", "./a/./b", ".", "../x", "/", "", "a/.."] {
        let expected: Vec<String> = std::path::Path::new(p)
            .components()
            .map(|c| c.as_os_str().to_str().unwrap().to_string())
            .collect();
        assert_eq!(components_of(p), expected, "{p}");
    }
}

#[test]
fn starts_with_and_eq_compare_components() {
    assert!(path_starts_with("/work/p/src", "/work/p"));
    assert!(path_starts_with("/work/p/", "/work/p"));
    assert!(!path_starts_with("/work/project", "/work/p"));
    assert!(!path_starts_with("work/p/a", "/work/p"));
    assert!(path_eq("/work/p/", "/work//p"));
    assert!(!path_eq("/work/p", "/work/p/q"));
}

#[test]
fn segments_keep_empty_pieces() {
    assert_eq!(split_segments("a//b/"), vec!["a", "", "b", ""]);
    assert_eq!(split_segments(""), vec![""]);
}
