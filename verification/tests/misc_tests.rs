use obsidian_paper_cache::cli::expand_tilde;
use obsidian_paper_cache::refresh::{build_summary, check_cache, keep_path, stored_outcome, BuildCounts, CacheCheck, FileOutcome};
use obsidian_paper_cache::report::{stats_report, status_label, Stats};
use obsidian_paper_cache::query::paths_to_delete;
use obsidian_paper_cache::scanner::{is_excluded_dir, is_markdown};
use obsidian_paper_cache::unicode::decimal_number;

#[test]
fn tilde_expansion() {
    assert_eq!(expand_tilde("~/x/db", Some("/home/u")), "/home/u/x/db");
    assert_eq!(expand_tilde("~/x", Some("/home/u/")), "/home/u/x");
    assert_eq!(expand_tilde("~/x", None), "~/x");
    assert_eq!(expand_tilde("/abs", Some("/home/u")), "/abs");
    assert_eq!(expand_tilde("~x", Some("/home/u")), "~x");
    assert_eq!(expand_tilde("~//etc", Some("/home/u")), "/etc");
    assert_eq!(expand_tilde("~", Some("/home/u")), "/home/u");
    assert_eq!(expand_tilde("~", None), "~");
}

#[test]
fn scan_filters() {
    assert!(is_excluded_dir(".obsidian"));
    assert!(is_excluded_dir(".git"));
    assert!(is_excluded_dir("_templates"));
    assert!(is_excluded_dir(".trash"));
    assert!(!is_excluded_dir("sub"));
    assert!(is_markdown("/v/note.md"));
    assert!(is_markdown("/v/a.b.md"));
    assert!(!is_markdown("/v/readme.txt"));
    assert!(!is_markdown("/v/.md"));
    assert!(!is_markdown("/v/md"));
    assert!(!is_markdown("/v/note.MD"));
}

#[test]
fn cache_check() {
    assert!(matches!(check_cache(&None, "t1"), CacheCheck::New));
    assert!(matches!(check_cache(&Some("t1".to_string()), "t1"), CacheCheck::Unchanged));
    assert!(matches!(check_cache(&Some("t0".to_string()), "t1"), CacheCheck::Changed));
    assert!(matches!(stored_outcome(&CacheCheck::Changed, true), FileOutcome::Updated));
    assert!(matches!(stored_outcome(&CacheCheck::New, true), FileOutcome::Added));
    assert!(matches!(stored_outcome(&CacheCheck::New, false), FileOutcome::Error));
}

#[test]
fn build_counts_and_summary() {
    let mut c = BuildCounts::new(5);
    c.record(FileOutcome::Added);
    c.record(FileOutcome::Unchanged);
    c.record(FileOutcome::NotPaper);
    c.record(FileOutcome::Updated);
    c.record(FileOutcome::Error);
    assert_eq!((c.added, c.updated, c.skipped, c.parse_skipped, c.errors, c.processed), (1, 1, 1, 1, 1, 5));
    let lines = build_summary(&c, 2, "/db");
    assert_eq!(
        lines,
        vec![
            "",
            "=== Build Summary ===",
            "  Total files scanned : 5",
            "  Added               : 1",
            "  Updated             : 1",
            "  Skipped (unchanged) : 1",
            "  Skipped (non-paper) : 1",
            "  Deleted (removed)   : 2",
            "  Errors              : 1",
            "  Database            : /db",
        ]
    );
    let quiet = build_summary(&BuildCounts::new(0), 0, "d");
    assert_eq!(quiet.len(), 9);
}

#[test]
fn second_build_skips_unchanged() {
    let mut c = BuildCounts::new(3);
    for _ in 0..3 {
        c.record(FileOutcome::Unchanged);
    }
    let lines = build_summary(&c, 0, "d");
    assert!(lines.contains(&"  Skipped (unchanged) : 3".to_string()));
    assert!(lines.contains(&"  Added               : 0".to_string()));
}

#[test]
fn stats_lines() {
    let st = Stats {
        total: 3,
        by_status: vec![("to read".to_string(), 2), (status_label(None), 1)],
        by_year: vec![(2023, 1), (-1, 12)],
        by_field: vec![("分野".to_string(), 1234567), ("CS".to_string(), 3)],
        top_authors: vec![],
    };
    let lines = stats_report(&st);
    assert_eq!(
        lines,
        vec![
            "=== Paper Cache Statistics ===",
            "",
            "Total papers: 3",
            "",
            "--- By Status ---",
            "  to read       2",
            "  (none)        1",
            "",
            "--- By Year (top 20) ---",
            "  2023       1",
            "  -1      12",
            "",
            "--- By Field (top 20) ---",
            "  分野      1234567",
            "  CS           3",
            "",
            "--- Top Authors (top 20) ---",
            "  (no data)",
        ]
    );
}

#[test]
fn stats_years_stop_at_twenty() {
    let st = Stats {
        total: 0,
        by_status: vec![],
        by_year: (0..25).map(|y| (y, 1)).collect(),
        by_field: vec![],
        top_authors: vec![],
    };
    let lines = stats_report(&st);
    assert_eq!(lines.len(), 3 + 3 + 2 + 20 + 3 + 3);
}

#[test]
fn non_papers_lose_their_cache_entries() {
    let mut kept: Vec<String> = Vec::new();
    keep_path(&mut kept, "/v/a.md".to_string(), &FileOutcome::Unchanged);
    keep_path(&mut kept, "/v/b.md".to_string(), &FileOutcome::NotPaper);
    keep_path(&mut kept, "/v/c.md".to_string(), &FileOutcome::Error);
    keep_path(&mut kept, "/v/d.md".to_string(), &FileOutcome::Updated);
    assert_eq!(kept, vec!["/v/a.md", "/v/c.md", "/v/d.md"]);
    let cached = vec!["/v/a.md".to_string(), "/v/b.md".to_string(), "/v/gone.md".to_string()];
    assert_eq!(paths_to_delete(&cached, &kept), vec!["/v/b.md", "/v/gone.md"]);
}

#[test]
fn decimal_digits_match_the_regex_class() {
    let re = regex::Regex::new(r"^\d$").unwrap();
    for u in 0u32..=0x10FFFF {
        if let Some(c) = char::from_u32(u) {
            assert_eq!(decimal_number(c), re.is_match(&c.to_string()), "U+{:04X}", u);
        }
    }
}
