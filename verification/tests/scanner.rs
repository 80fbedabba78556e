use rust_engine::scanner::{gitignore_lines, has_excluded_component, is_supported_extension, RelevanceFilter};

#[test]
fn relevance_filter_matches_collect_source_files_behavior() {
    let root = "/work/project";
    let filter = RelevanceFilter::for_root(root, Some("ignored_stuff/\n"));
    assert!(filter.is_relevant(&format!("{root}/keep.ts")));
    assert!(!filter.is_relevant(&format!("{root}/ignored_stuff/skip.ts")));
    assert!(!filter.is_relevant(&format!("{root}/keep.txt")));
}

#[test]
fn supported_extensions_are_recognised() {
    for path in ["a.ts", "a.tsx", "a.js", "a.jsx", "a.mjs", "a.cjs", "a.py", "A.java", "A.cs", "a.php"] {
        assert!(is_supported_extension(path), "{path}");
    }
    for path in ["skip.txt", "skip.md", "Makefile", ".ts", "dir.ts/", "a.TS", "archive.tar.gz"] {
        assert_eq!(is_supported_extension(path), path == "dir.ts/", "{path}");
    }
}

#[test]
fn excluded_directories_anywhere_in_the_path() {
    assert!(has_excluded_component("node_modules/dep/skip.ts"));
    assert!(has_excluded_component("/work/vendor/pkg/skip.php"));
    assert!(has_excluded_component("a/.venv/lib.py"));
    assert!(has_excluded_component("target"));
    assert!(!has_excluded_component("src/keep.ts"));
    assert!(!has_excluded_component("src/targets/keep.ts"));
    assert!(!has_excluded_component("/work/binary/keep.ts"));
}

#[test]
fn filter_without_gitignore_uses_extension_and_excluded_dirs_only() {
    let filter = RelevanceFilter::for_root("/work/p", None);
    assert!(filter.is_relevant("/work/p/src/a.ts"));
    assert!(!filter.is_relevant("/work/p/dist/a.ts"));
    assert!(!filter.is_relevant("/work/p/src/a.rs"));
}

#[test]
fn gitignore_directory_pattern_ignores_nested_files() {
    let filter = RelevanceFilter::for_root("/work/p", Some("# comment\ngenerated/\n*.gen.ts\n"));
    assert!(!filter.is_relevant("/work/p/src/generated/deep/a.ts"));
    assert!(!filter.is_relevant("/work/p/src/a.gen.ts"));
    assert!(filter.is_relevant("/work/p/src/a.ts"));
}

#[test]
fn gitignore_negation_whitelists_a_file() {
    let filter = RelevanceFilter::for_root("/work/p", Some("*.ts\n!keep.ts\n"));
    assert!(!filter.is_relevant("/work/p/drop.ts"));
    assert!(filter.is_relevant("/work/p/keep.ts"));
}

#[test]
fn paths_outside_the_root_are_checked_by_their_own_name() {
    let filter = RelevanceFilter::for_root("/work/p", Some("ignored_stuff/\n"));
    // Directories above the root are not asked about.
    assert!(filter.is_relevant("/elsewhere/ignored_stuff/a.ts"));
}

#[test]
fn gitignore_lines_follow_buf_read_lines() {
    assert_eq!(gitignore_lines(""), Vec::<String>::new());
    assert_eq!(gitignore_lines("a\n"), vec!["a".to_string()]);
    assert_eq!(gitignore_lines("a\r\nb"), vec!["a".to_string(), "b".to_string()]);
    assert_eq!(gitignore_lines("a\n\nb\r"), vec!["a".to_string(), "".to_string(), "b\r".to_string()]);
    assert_eq!(gitignore_lines("\u{feff}\u{feff}x\n\u{feff}y\n"), vec!["x".to_string(), "\u{feff}y".to_string()]);
}
