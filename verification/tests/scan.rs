use mindforge_indexer::{
    is_binary_file, load_ignore, scan_repo_collect, to_posix, Config, Entry, EntryMeta, FileRecord,
    ScanError, ScanInput,
};
use mindforge_indexer::classify::classify_extension;

fn file_entry(rel: &str, size: u64, mtime_ms: u64, sample: &[u8]) -> Entry {
    Entry {
        rel_path: rel.to_string(),
        is_dir: false,
        meta: Some(EntryMeta { is_file: true, size, mtime_ms }),
        sample: Some(sample.to_vec()),
    }
}

fn dir_entry(rel: &str) -> Entry {
    Entry {
        rel_path: rel.to_string(),
        is_dir: true,
        meta: Some(EntryMeta { is_file: false, size: 0, mtime_ms: 0 }),
        sample: None,
    }
}

fn rel_paths(records: &[FileRecord]) -> Vec<String> {
    records.iter().map(|r| r.rel_path.clone()).collect()
}

#[test]
fn test_ignore_merge_and_negation() {
    let matcher = load_ignore(
        Some("foo/\n"),
        Some("build/\n!build/README.md\nsecret.txt\n"),
        &vec!["temp/".to_string()],
    )
    .unwrap();

    assert!(matcher.should_ignore("foo/a.txt", false));
    assert!(matcher.should_ignore("secret.txt", false));
    assert!(matcher.should_ignore("temp/x", false));
    assert!(!matcher.should_ignore("build/README.md", false));
    assert!(matcher.should_ignore("build/app.bin", false));
    assert!(!matcher.should_ignore("src/main.rs", false));
}

#[test]
fn test_is_binary_file_sampling() {
    assert_eq!(is_binary_file("a.txt", b"hello world\n"), false);
    assert_eq!(is_binary_file("b.bin", &[0u8, 1, 2, 3, 0, 5]), true);
}

#[test]
fn test_content_sample_scenario() {
    // Without a deciding extension the sample decides: five bytes of
    // text with no NUL are text, six bytes with NULs are binary.
    assert_eq!(is_binary_file("hello_sample", b"hello"), false);
    assert_eq!(is_binary_file("bin_sample", &[0u8, 1, 2, 3, 0, 5]), true);
}

#[test]
fn test_scan_repo_collect_basic() {
    let mut cfg = Config::default();
    cfg.root = "/r".to_string();
    cfg.max_size_bytes = Some(10);
    cfg.concurrency = 2;

    let input = ScanInput {
        gitignore: None,
        indexignore: Some("skip.txt\n".to_string()),
        entries: vec![
            file_entry(".indexignore", 9, 0, b"skip.txt\n"),
            file_entry("a.txt", 5, 0, b"hello"),
            file_entry("big.bin", 100, 0, &[b'x'; 100]),
            file_entry("skip.txt", 3, 0, b"abc"),
        ],
    };

    let items = scan_repo_collect(&cfg, &input).unwrap();
    assert_eq!(rel_paths(&items), vec!["a.txt".to_string()]);
}

#[test]
fn test_builtin_excludes() {
    let matcher = load_ignore(None, None, &vec![]).unwrap();
    assert!(matcher.should_ignore(".git/config", false));
    assert!(matcher.should_ignore("target/debug/app", false));
    assert!(matcher.should_ignore("node_modules/pkg/index.js", false));
    assert!(matcher.should_ignore(".DS_Store", false));
    assert!(matcher.should_ignore("sub/.DS_Store", false));
    assert!(matcher.should_ignore(".gitignore", false));
    assert!(matcher.should_ignore(".indexignore", false));
    assert!(!matcher.should_ignore("src/lib.rs", false));
}

#[test]
fn test_rule_precedence_later_wins() {
    let matcher = load_ignore(
        None,
        None,
        &vec!["build/".to_string(), "!build/keep.txt".to_string()],
    )
    .unwrap();
    assert!(!matcher.should_ignore("build/keep.txt", false));
    assert!(matcher.should_ignore("build/other.txt", false));

    let reversed = load_ignore(
        None,
        None,
        &vec!["!data.txt".to_string(), "data.txt".to_string()],
    )
    .unwrap();
    assert!(reversed.should_ignore("data.txt", false));
}

#[test]
fn test_ignore_comments_and_blank_lines() {
    let matcher = load_ignore(Some("# a comment\n\n  \nfoo.txt\n"), None, &vec![]).unwrap();
    assert!(matcher.should_ignore("foo.txt", false));
    assert!(!matcher.should_ignore("# a comment", false));
}

#[test]
fn test_anchored_and_glob_patterns() {
    let matcher = load_ignore(
        Some("/top.txt\ndocs/*.md\n**/gen\n*.log\n"),
        None,
        &vec![],
    )
    .unwrap();
    assert!(matcher.should_ignore("top.txt", false));
    assert!(!matcher.should_ignore("sub/top.txt", false));
    assert!(matcher.should_ignore("docs/a.md", false));
    assert!(!matcher.should_ignore("docs/deep/a.md", false));
    assert!(matcher.should_ignore("a/b/gen", false));
    assert!(matcher.should_ignore("x.log", false));
    assert!(matcher.should_ignore("sub/dir/x.log", false));
    assert!(!matcher.should_ignore("x.txt", false));
}

#[test]
fn test_double_star_patterns() {
    let matcher = load_ignore(Some("docs/**\n"), None, &vec![]).unwrap();
    assert!(matcher.should_ignore("docs/a.md", false));
    assert!(matcher.should_ignore("docs/deep/nested/b.md", false));
    assert!(!matcher.should_ignore("src/a.md", false));

    let all = load_ignore(None, None, &vec!["**".to_string()]).unwrap();
    assert!(all.should_ignore("anything", false));
    assert!(all.should_ignore("a/b/c", false));
}

#[test]
fn test_classification_extension_never_reads_content() {
    // A whitelisted extension decides even over a NUL-laden sample,
    // and a blacklisted one even over plain text.
    assert_eq!(is_binary_file("notes.txt", &[0u8, 0, 0]), false);
    assert_eq!(is_binary_file("image.PNG", b"hello"), true);
    assert_eq!(classify_extension("notes.txt"), Some(false));
    assert_eq!(classify_extension("image.PNG"), Some(true));
    assert_eq!(classify_extension("data.unknown"), None);
    assert_eq!(classify_extension("no_extension"), None);
}

#[test]
fn test_classification_deterministic() {
    let sample = [1u8, 2, 0, 4];
    let first = is_binary_file("data.xyz", &sample);
    let second = is_binary_file("data.xyz", &sample);
    assert_eq!(first, second);
    assert_eq!(first, true);
}

#[test]
fn test_classification_bom_is_text() {
    // A UTF-16 byte order mark marks text even though NUL bytes follow.
    assert_eq!(is_binary_file("noext", &[0xFF, 0xFE, 0x00, 0x41]), false);
    // The PDF magic number marks binary without any NUL byte.
    assert_eq!(is_binary_file("noext", b"%PDF-1.4"), true);
}

#[test]
fn test_size_boundary() {
    let mut cfg = Config::default();
    cfg.root = "/r".to_string();
    cfg.max_size_bytes = Some(10);

    let input = ScanInput {
        gitignore: None,
        indexignore: None,
        entries: vec![
            file_entry("exact.txt", 10, 0, b"0123456789"),
            file_entry("over.txt", 11, 0, b"0123456789x"),
        ],
    };
    let items = scan_repo_collect(&cfg, &input).unwrap();
    assert_eq!(rel_paths(&items), vec!["exact.txt".to_string()]);
}

#[test]
fn test_abs_path_presence_matches_flag() {
    let entries = vec![file_entry("a.txt", 1, 7, b"x")];

    let mut cfg = Config::default();
    cfg.root = "/r".to_string();
    cfg.absolute = true;
    let input = ScanInput { gitignore: None, indexignore: None, entries: entries.clone() };
    let with_abs = scan_repo_collect(&cfg, &input).unwrap();
    assert_eq!(with_abs.len(), 1);
    assert_eq!(with_abs[0].abs_path.as_deref(), Some("/r/a.txt"));
    assert_eq!(with_abs[0].size, 1);
    assert_eq!(with_abs[0].mtime_ms, 7);
    assert_eq!(with_abs[0].binary, false);

    cfg.absolute = false;
    let input = ScanInput { gitignore: None, indexignore: None, entries };
    let without = scan_repo_collect(&cfg, &input).unwrap();
    assert_eq!(without.len(), 1);
    assert!(without[0].abs_path.is_none());
}

#[test]
fn test_include_glob_prefilter() {
    let mut cfg = Config::default();
    cfg.root = "/r".to_string();
    cfg.include_globs = vec!["**/*.rs".to_string()];

    let input = ScanInput {
        gitignore: None,
        indexignore: None,
        entries: vec![
            file_entry("main.rs", 2, 0, b"fn"),
            file_entry("deep/mod.rs", 2, 0, b"fn"),
            file_entry("notes.txt", 2, 0, b"hi"),
        ],
    };
    let items = scan_repo_collect(&cfg, &input).unwrap();
    assert_eq!(
        rel_paths(&items),
        vec!["main.rs".to_string(), "deep/mod.rs".to_string()]
    );
}

#[test]
fn test_directories_never_emitted() {
    let mut cfg = Config::default();
    cfg.root = "/r".to_string();
    let input = ScanInput {
        gitignore: None,
        indexignore: None,
        entries: vec![dir_entry("sub"), file_entry("sub/a.txt", 1, 0, b"x")],
    };
    let items = scan_repo_collect(&cfg, &input).unwrap();
    assert_eq!(rel_paths(&items), vec!["sub/a.txt".to_string()]);
}

#[test]
fn test_unreadable_entries_are_skipped() {
    let mut cfg = Config::default();
    cfg.root = "/r".to_string();
    let input = ScanInput {
        gitignore: None,
        indexignore: None,
        entries: vec![
            Entry {
                rel_path: "no_meta".to_string(),
                is_dir: false,
                meta: None,
                sample: Some(b"x".to_vec()),
            },
            Entry {
                rel_path: "no_sample".to_string(),
                is_dir: false,
                meta: Some(EntryMeta { is_file: true, size: 1, mtime_ms: 0 }),
                sample: None,
            },
            // A whitelisted extension needs no sample at all.
            Entry {
                rel_path: "fine.txt".to_string(),
                is_dir: false,
                meta: Some(EntryMeta { is_file: true, size: 1, mtime_ms: 0 }),
                sample: None,
            },
        ],
    };
    let items = scan_repo_collect(&cfg, &input).unwrap();
    assert_eq!(rel_paths(&items), vec!["fine.txt".to_string()]);
}

#[test]
fn test_malformed_ignore_pattern_is_fatal() {
    let r = load_ignore(Some("oops\\\n"), None, &vec![]);
    assert!(matches!(r, Err(ScanError::IgnorePattern)));

    let mut cfg = Config::default();
    cfg.root = "/r".to_string();
    let input = ScanInput {
        gitignore: Some("oops\\\n".to_string()),
        indexignore: None,
        entries: vec![file_entry("a.txt", 1, 0, b"x")],
    };
    let r = scan_repo_collect(&cfg, &input);
    assert!(matches!(r, Err(ScanError::IgnorePattern)));
}

#[test]
fn test_malformed_include_glob_is_fatal() {
    let mut cfg = Config::default();
    cfg.root = "/r".to_string();
    cfg.include_globs = vec!["src/*\\".to_string()];
    let input = ScanInput {
        gitignore: None,
        indexignore: None,
        entries: vec![file_entry("a.txt", 1, 0, b"x")],
    };
    let r = scan_repo_collect(&cfg, &input);
    assert!(matches!(r, Err(ScanError::IncludeGlob)));
}

#[test]
fn test_scan_set_invariant_under_order_and_concurrency() {
    let forward = vec![
        file_entry("a.txt", 1, 0, b"a"),
        file_entry("b/c.txt", 1, 0, b"c"),
        file_entry("d.bin", 1, 0, &[0u8, 1]),
    ];
    let mut backward = forward.clone();
    backward.reverse();

    let mut cfg1 = Config::default();
    cfg1.root = "/r".to_string();
    cfg1.concurrency = 1;
    let mut cfg8 = cfg1.clone();
    cfg8.concurrency = 8;

    let out1 = scan_repo_collect(
        &cfg1,
        &ScanInput { gitignore: None, indexignore: None, entries: forward },
    )
    .unwrap();
    let out2 = scan_repo_collect(
        &cfg8,
        &ScanInput { gitignore: None, indexignore: None, entries: backward },
    )
    .unwrap();

    let mut names1 = rel_paths(&out1);
    let mut names2 = rel_paths(&out2);
    assert_ne!(names1, names2);
    names1.sort();
    names2.sort();
    assert_eq!(names1, names2);
}

#[test]
fn test_default_config() {
    let cfg = Config::default();
    assert_eq!(cfg.root, ".");
    assert_eq!(cfg.include_globs, vec!["**/*".to_string()]);
    assert!(cfg.extra_ignore.is_empty());
    assert_eq!(cfg.max_size_bytes, Some(5 * 1024 * 1024));
    assert_eq!(cfg.concurrency, 64);
    assert!(!cfg.follow_symlinks);
    assert!(!cfg.absolute);
    assert_eq!(cfg.sample_bytes, 4096);
}

#[test]
fn test_to_posix() {
    assert_eq!(to_posix("a\\b\\c.txt"), "a/b/c.txt");
    assert_eq!(to_posix("a/b/c.txt"), "a/b/c.txt");
    assert_eq!(to_posix(""), "");
}

#[test]
fn test_escaped_pattern_characters() {
    let matcher = load_ignore(Some("\\#literal\nsp\\ ace\n"), None, &vec![]).unwrap();
    assert!(matcher.should_ignore("#literal", false));
    assert!(matcher.should_ignore("sp ace", false));
}

#[test]
fn test_dir_only_pattern_needs_directory() {
    let matcher = load_ignore(Some("build/\n"), None, &vec![]).unwrap();
    // The path itself is a file named like the directory pattern.
    assert!(!matcher.should_ignore("build", false));
    assert!(matcher.should_ignore("build", true));
    assert!(matcher.should_ignore("build/a.txt", false));
}
